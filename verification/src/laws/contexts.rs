//! Laws of request contexts and of the parts that handlers ask for.

use std::any::TypeId;

use vstd::prelude::*;

use crate::anthropic_ext::test_support::request_context_for_test;
use crate::handler::server::common::{
    found_extension, AsRequestContext, Extension, ExtensionLabel, FromContextPart, RequestId,
};
use crate::json::JsonView;
use crate::model::{ErrorData, Meta, NumberOrString};
use crate::service::{extension_types, is_held_value, Peer, RequestContext, RoleServer};

verus! {

/// The id that a handler gets is that of the request, and the context stays as it is.
pub proof fn the_id_is_that_of_the_request<C: AsRequestContext>(
    context: &mut C,
    part: Result<RequestId, ErrorData>,
)
    requires
        call_ensures(<RequestId as FromContextPart<C>>::from_context_part, (context,), part),
    ensures
        *final(context) == *old(context),
        part matches Ok(id) && id.0 == old(context).request_context().id,
{
}

/// The id of a request with a number is that number, and that of a request with a text is that
/// text; requests with different ids give different parts.
pub proof fn ids_are_told_apart(
    one: &mut RequestContext<RoleServer>,
    other: &mut RequestContext<RoleServer>,
    one_part: Result<RequestId, ErrorData>,
    other_part: Result<RequestId, ErrorData>,
)
    requires
        call_ensures(
            <RequestId as FromContextPart<RequestContext<RoleServer>>>::from_context_part,
            (one,),
            one_part,
        ),
        call_ensures(
            <RequestId as FromContextPart<RequestContext<RoleServer>>>::from_context_part,
            (other,),
            other_part,
        ),
    ensures
        match old(one).id {
            NumberOrString::Number(n) => one_part matches Ok(id) && (id.0 matches
                NumberOrString::Number(m) && m == n),
            NumberOrString::String(s) => one_part matches Ok(id) && (id.0 matches
                NumberOrString::String(t) && t@ == s@),
        },
        old(one).id != old(other).id ==> one_part->Ok_0.0 != other_part->Ok_0.0,
{
}

/// A copy of an id is the id.
pub proof fn ids_are_copied(id: NumberOrString, copy: NumberOrString)
    requires
        call_ensures(<NumberOrString as Clone>::clone, (&id,), copy),
    ensures
        match id {
            NumberOrString::Number(n) => copy matches NumberOrString::Number(m) && m == n,
            NumberOrString::String(s) => copy matches NumberOrString::String(t) && t@ == s@,
        },
{
}

/// The token that a handler gets is that of the request, and the context stays as it is.
pub proof fn the_token_is_that_of_the_request<C: AsRequestContext>(
    context: &mut C,
    part: Result<tokio_util::sync::CancellationToken, ErrorData>,
)
    requires
        call_ensures(
            <tokio_util::sync::CancellationToken as FromContextPart<C>>::from_context_part,
            (context,),
            part,
        ),
    ensures
        *final(context) == *old(context),
        part matches Ok(token) && token == old(context).request_context().ct,
{
}

/// The peer that a handler gets is the one that sent the request, and the context stays as it is.
pub proof fn the_peer_is_that_of_the_request<C: AsRequestContext>(
    context: &mut C,
    part: Result<Peer<RoleServer>, ErrorData>,
)
    requires
        call_ensures(
            <Peer<RoleServer> as FromContextPart<C>>::from_context_part,
            (context,),
            part,
        ),
    ensures
        *final(context) == *old(context),
        part matches Ok(peer) && peer.outbound == old(context).request_context().peer.outbound,
{
}

/// The extensions that a handler gets are a clone of those of the request, with values of the same
/// types, and the context stays as it is.
pub proof fn the_extensions_are_those_of_the_request<C: AsRequestContext>(
    context: &mut C,
    part: Result<http::Extensions, ErrorData>,
)
    requires
        call_ensures(<http::Extensions as FromContextPart<C>>::from_context_part, (context,), part),
    ensures
        *final(context) == *old(context),
        part matches Ok(copy) && cloned(old(context).request_context().extensions, copy)
            && extension_types(copy) == extension_types(
            old(context).request_context().extensions,
        ),
{
}

/// The context that a handler gets has the token, the id, the `_meta` entries and the peer of the
/// request, and a clone of its extensions, and the context stays as it is.
pub proof fn the_context_is_that_of_the_request<C: AsRequestContext>(
    context: &mut C,
    part: Result<RequestContext<RoleServer>, ErrorData>,
)
    requires
        call_ensures(
            <RequestContext<RoleServer> as FromContextPart<C>>::from_context_part,
            (context,),
            part,
        ),
    ensures
        *final(context) == *old(context),
        part matches Ok(copy) && {
            let context = old(context).request_context();
            &&& copy.ct == context.ct
            &&& copy.id == context.id
            &&& copy.meta@ == context.meta@
            &&& cloned(context.extensions, copy.extensions)
            &&& extension_types(copy.extensions) == extension_types(context.extensions)
            &&& copy.peer.outbound == context.peer.outbound
        },
{
}

/// The `_meta` entries that a handler gets are those of the request, which has none afterwards and
/// is otherwise as it was.
pub proof fn the_meta_is_taken_off_the_request(
    context: &mut RequestContext<RoleServer>,
    part: Result<Meta, ErrorData>,
)
    requires
        call_ensures(
            <Meta as FromContextPart<RequestContext<RoleServer>>>::from_context_part,
            (context,),
            part,
        ),
    ensures
        part matches Ok(meta) && meta@ == old(context).meta@,
        final(context).meta@ == Map::<Seq<char>, JsonView>::empty(),
        final(context).ct == old(context).ct,
        final(context).id == old(context).id,
        final(context).extensions == old(context).extensions,
        final(context).peer == old(context).peer,
{
}

/// In a context of another type, the `_meta` entries are taken off the context of the request that
/// it holds, which is otherwise as it was.
pub proof fn the_meta_is_taken_off_any_context<C: AsRequestContext>(
    context: &mut C,
    part: Result<Meta, ErrorData>,
)
    requires
        call_ensures(<Meta as FromContextPart<C>>::from_context_part, (context,), part),
    ensures
        part matches Ok(meta) && meta@ == old(context).request_context().meta@,
        final(context).request_context().meta@ == Map::<Seq<char>, JsonView>::empty(),
        final(context).request_context().ct == old(context).request_context().ct,
        final(context).request_context().id == old(context).request_context().id,
        final(context).request_context().extensions == old(context).request_context().extensions,
        final(context).request_context().peer == old(context).request_context().peer,
        *final(context) == old(context).with_request_context(final(context).request_context()),
{
    let before = *old(context);
    let left = choose|left: Meta|
        #![trigger left@]
        left@ == Map::<Seq<char>, JsonView>::empty() && *final(context)
            == before.with_request_context(
            RequestContext { meta: left, ..before.request_context() },
        );
    before.lemma_replaced(RequestContext { meta: left, ..before.request_context() });
}

/// The extension that a handler gets is a clone of the value that the request holds of its type.
/// Where it holds none, the error is one of invalid parameters that names the type. The context
/// stays as it is.
pub proof fn an_extension_is_that_of_the_request<
    C: AsRequestContext,
    T: Clone + Send + Sync + 'static,
>(
    context: &mut C,
    name: String,
    part: Result<Extension<T>, ErrorData>,
    id: TypeId,
)
    requires
        call_ensures(Extension::<T>::from_context_part_named::<C>, (context, name), part),
        call_ensures(TypeId::of::<T>, (), id),
    ensures
        *final(context) == *old(context),
        part is Ok <==> extension_types(old(context).request_context().extensions).contains(id),
        part matches Ok(extension) ==> exists|held: &T| #[trigger]
            is_held_value(old(context).request_context().extensions, Some(held)) && cloned(
                *held,
                extension.0,
            ),
        part matches Err(error) ==> error.code == -32602 && error.message@ == "missing extension "@
            + name@ && error.data is None,
{
    let extensions = old(context).request_context().extensions;
    let found = choose|found: Option<&T>| #[trigger]
        is_held_value(extensions, found)
            && crate::handler::server::common::extension_outcome(found, name@, part);
    assert(crate::service::tells_presence::<T>(extensions, found is Some));
    if let (Some(held), Ok(extension)) = (found, part) {
        assert(is_held_value(extensions, Some(held)));
    }
}

/// A type with a name of its own is found as under that name.
pub proof fn labelled_extensions_are_named_by_their_label<C: AsRequestContext, T: ExtensionLabel>(
    context: &mut C,
    part: Result<Extension<T>, ErrorData>,
    id: TypeId,
)
    requires
        call_ensures(<Extension<T> as FromContextPart<C>>::from_context_part, (context,), part),
        call_ensures(TypeId::of::<T>, (), id),
    ensures
        *final(context) == *old(context),
        part is Ok <==> extension_types(old(context).request_context().extensions).contains(id),
        part matches Ok(extension) ==> exists|held: &T| #[trigger]
            is_held_value(old(context).request_context().extensions, Some(held)) && cloned(
                *held,
                extension.0,
            ),
        part matches Err(error) ==> error.code == -32602 && error.message@ == "missing extension "@
            + T::LABEL@ && error.data is None,
{
    let extensions = old(context).request_context().extensions;
    let found = choose|found: Option<&T>| #[trigger]
        is_held_value(extensions, found)
            && crate::handler::server::common::extension_outcome(found, T::LABEL@, part);
    assert(crate::service::tells_presence::<T>(extensions, found is Some));
    if let (Some(held), Ok(extension)) = (found, part) {
        assert(is_held_value(extensions, Some(held)));
    }
}

/// A search that found a value gives its clone, and one that found none an error with the name.
pub proof fn searches_give_what_they_found<T: Clone>(
    found: Option<&T>,
    label: String,
    part: Result<Extension<T>, ErrorData>,
)
    requires
        call_ensures(found_extension::<T>, (found, label), part),
    ensures
        match found {
            Some(value) => part matches Ok(extension) && cloned(*value, extension.0),
            None => part matches Err(error) && error.code == -32602 && error.message@
                == "missing extension "@ + label@ && error.data is None,
        },
{
}

/// The context of a request is its own: it is found as it is, and changed in place.
pub proof fn a_context_is_its_own(
    context: RequestContext<RoleServer>,
    borrowed: &RequestContext<RoleServer>,
    other: RequestContext<RoleServer>,
)
    requires
        call_ensures(
            <RequestContext<RoleServer> as AsRequestContext>::as_request_context,
            (&context,),
            borrowed,
        ),
    ensures
        context.request_context() == context,
        *borrowed == context,
        context.with_request_context(other) == other,
{
}

/// A fresh context has the given id and peer, and nothing else.
pub proof fn fresh_contexts_have_what_is_given(
    id: NumberOrString,
    peer: Peer<RoleServer>,
    context: RequestContext<RoleServer>,
)
    requires
        call_ensures(RequestContext::<RoleServer>::new, (id, peer), context),
    ensures
        context.id == id,
        context.peer == peer,
        context.meta@ == Map::<Seq<char>, JsonView>::empty(),
        extension_types(context.extensions) == Set::<TypeId>::empty(),
{
}

/// The context for tests has the id 1, a peer without a channel, and nothing else.
pub proof fn test_contexts_reach_nobody(context: RequestContext<RoleServer>)
    requires
        call_ensures(request_context_for_test, (), context),
    ensures
        context.id matches NumberOrString::Number(n) && n == 1,
        context.peer.outbound is None,
        context.meta@ == Map::<Seq<char>, JsonView>::empty(),
        extension_types(context.extensions) == Set::<TypeId>::empty(),
{
}

/// A copy of a context has its token, id, `_meta` entries and peer, and a clone of its extensions.
pub proof fn contexts_are_copied(
    context: RequestContext<RoleServer>,
    copy: RequestContext<RoleServer>,
)
    requires
        call_ensures(<RequestContext<RoleServer> as Clone>::clone, (&context,), copy),
    ensures
        copy.ct == context.ct,
        copy.id == context.id,
        copy.meta@ == context.meta@,
        cloned(context.extensions, copy.extensions),
        extension_types(copy.extensions) == extension_types(context.extensions),
        copy.peer.outbound == context.peer.outbound,
{
}

} // verus!
