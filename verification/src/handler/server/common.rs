//! What tool and prompt handlers share: the parts of a request's context, and the schemas of
//! types.

use std::any::TypeId;

use vstd::prelude::*;

pub use crate::handler::server::schema::{
    schema_for_empty_input, schema_for_output, schema_for_type, try_schema_for_output,
    try_schema_for_type,
};

use crate::json::JsonView;
use crate::model::{ErrorData, ErrorDataView, Meta, NumberOrString, INVALID_PARAMS};
use crate::service::{
    extension_types, held_value, is_copy_of, is_held_value, tells_presence, Peer, RequestContext,
    RoleServer,
};

verus! {

/// A context that holds the context of a request.
pub trait AsRequestContext: Sized {
    /// The context of the request.
    spec fn request_context(&self) -> RequestContext<RoleServer>;

    /// This context with another context of the request in its place.
    spec fn with_request_context(&self, request_context: RequestContext<RoleServer>) -> Self;

    /// The context that was put in place is the one that is found there.
    proof fn lemma_replaced(&self, request_context: RequestContext<RoleServer>)
        ensures
            self.with_request_context(request_context).request_context() == request_context,
    ;

    /// Borrows the context of the request.
    fn as_request_context(&self) -> (request_context: &RequestContext<RoleServer>)
        ensures
            *request_context == self.request_context(),
    ;

    /// Borrows the context of the request for a change.
    fn as_request_context_mut(&mut self) -> (request_context: &mut RequestContext<RoleServer>)
        ensures
            *request_context == old(self).request_context(),
            *final(self) == old(self).with_request_context(*final(request_context)),
    ;
}

impl AsRequestContext for RequestContext<RoleServer> {
    open spec fn request_context(&self) -> RequestContext<RoleServer> {
        *self
    }

    open spec fn with_request_context(&self, request_context: RequestContext<RoleServer>) -> Self {
        request_context
    }

    proof fn lemma_replaced(&self, request_context: RequestContext<RoleServer>) {
    }

    fn as_request_context(&self) -> (request_context: &RequestContext<RoleServer>) {
        self
    }

    fn as_request_context_mut(&mut self) -> (request_context: &mut RequestContext<RoleServer>) {
        self
    }
}

/// A part that a handler can ask for, and that is read off a context `C`.
pub trait FromContextPart<C>: Sized {
    /// Whether `part` is what reading the part off the context `before` gives, and `after` what
    /// it leaves of the context.
    spec fn extracted(before: C, after: C, part: Result<Self, ErrorData>) -> bool;

    /// Reads the part off a context.
    fn from_context_part(context: &mut C) -> (part: Result<Self, ErrorData>)
        ensures
            Self::extracted(*old(context), *final(context), part),
    ;
}

impl<C: AsRequestContext> FromContextPart<C> for RequestContext<RoleServer> {
    /// A copy of the context of the request.
    open spec fn extracted(before: C, after: C, part: Result<Self, ErrorData>) -> bool {
        &&& after == before
        &&& part matches Ok(copy) && is_copy_of(copy, before.request_context())
    }

    fn from_context_part(context: &mut C) -> (part: Result<Self, ErrorData>) {
        Ok(context.as_request_context().clone())
    }
}

impl<C: AsRequestContext> FromContextPart<C> for tokio_util::sync::CancellationToken {
    /// A handle to the token of the request.
    open spec fn extracted(before: C, after: C, part: Result<Self, ErrorData>) -> bool {
        &&& after == before
        &&& part == Ok::<Self, ErrorData>(before.request_context().ct)
    }

    fn from_context_part(context: &mut C) -> (part: Result<Self, ErrorData>) {
        Ok(context.as_request_context().ct.clone())
    }
}

impl<C: AsRequestContext> FromContextPart<C> for http::Extensions {
    /// A clone of the extensions of the request.
    open spec fn extracted(before: C, after: C, part: Result<Self, ErrorData>) -> bool {
        &&& after == before
        &&& part matches Ok(copy) && cloned(before.request_context().extensions, copy)
    }

    fn from_context_part(context: &mut C) -> (part: Result<Self, ErrorData>) {
        Ok(context.as_request_context().extensions.clone())
    }
}

impl<C: AsRequestContext> FromContextPart<C> for Peer<RoleServer> {
    /// The peer that sent the request.
    open spec fn extracted(before: C, after: C, part: Result<Self, ErrorData>) -> bool {
        &&& after == before
        &&& part == Ok::<Self, ErrorData>(before.request_context().peer)
    }

    fn from_context_part(context: &mut C) -> (part: Result<Self, ErrorData>) {
        Ok(context.as_request_context().peer)
    }
}

impl<C: AsRequestContext> FromContextPart<C> for Meta {
    /// The `_meta` entries of the request, which are taken out of the context.
    open spec fn extracted(before: C, after: C, part: Result<Self, ErrorData>) -> bool {
        &&& part == Ok::<Self, ErrorData>(before.request_context().meta)
        &&& exists|left: Meta|
            #![trigger left@]
            left@ == Map::<Seq<char>, JsonView>::empty() && after == before.with_request_context(
                RequestContext { meta: left, ..before.request_context() },
            )
    }

    fn from_context_part(context: &mut C) -> (part: Result<Self, ErrorData>) {
        let request_context = context.as_request_context_mut();
        let mut meta = Meta::default();
        let ghost left = meta;
        std::mem::swap(&mut meta, &mut request_context.meta);
        proof {
            assert(left@ == Map::<Seq<char>, JsonView>::empty());
        }
        Ok(meta)
    }
}

/// The id of the request.
pub struct RequestId(pub NumberOrString);

impl<C: AsRequestContext> FromContextPart<C> for RequestId {
    /// The id of the request.
    open spec fn extracted(before: C, after: C, part: Result<Self, ErrorData>) -> bool {
        &&& after == before
        &&& part == Ok::<Self, ErrorData>(RequestId(before.request_context().id))
    }

    fn from_context_part(context: &mut C) -> (part: Result<Self, ErrorData>) {
        Ok(RequestId(context.as_request_context().id.clone()))
    }
}

/// A type of extensions that carries its own name.
pub trait ExtensionLabel: Clone + Send + Sync + 'static {
    /// The name of the type with its path, as the standard library gives it.
    const LABEL: &'static str;
}

/// The extension of type `T` of the request.
pub struct Extension<T>(pub T);

/// The error of a request that lacks an extension.
pub open spec fn missing_extension(label: Seq<char>) -> ErrorDataView {
    ErrorDataView { code: INVALID_PARAMS, message: "missing extension "@ + label, data: None }
}

/// What a search for an extension comes to.
pub open spec fn extension_outcome<T: Clone>(
    found: Option<&T>,
    label: Seq<char>,
    part: Result<Extension<T>, ErrorData>,
) -> bool {
    match found {
        Some(value) => part matches Ok(extension) && cloned(*value, extension.0),
        None => part matches Err(error) && error@ == missing_extension(label),
    }
}

/// A clone of the extension that was found, or the error that there is none.
pub fn found_extension<T: Clone>(found: Option<&T>, label: String) -> (part: Result<
    Extension<T>,
    ErrorData,
>)
    ensures
        extension_outcome(found, label@, part),
{
    match found.cloned() {
        Some(value) => Ok(Extension(value)),
        None => {
            let message = "missing extension ".to_string().concat(label.as_str());
            Err(ErrorData::invalid_params(message, None))
        },
    }
}

/// `part` is what taking the extension of type `T` off the context `before` gives: a clone of the
/// value that the extensions of the request hold, or an error with the name of the type. The
/// context `after` is as it was.
pub open spec fn extension_taken<C: AsRequestContext, T: Clone + Send + Sync + 'static>(
    before: C,
    after: C,
    name: Seq<char>,
    part: Result<Extension<T>, ErrorData>,
) -> bool {
    &&& after == before
    &&& exists|found: Option<&T>| #[trigger]
        is_held_value(before.request_context().extensions, found) && extension_outcome(
            found,
            name,
            part,
        )
}

impl<T: Clone + Send + Sync + 'static> Extension<T> {
    /// Reads the extension of type `T` off a context. `name` is the name of the type.
    pub fn from_context_part_named<C: AsRequestContext>(context: &mut C, name: String) -> (part:
        Result<Extension<T>, ErrorData>)
        ensures
            extension_taken(*old(context), *final(context), name@, part),
    {
        let found = held_value::<T>(&context.as_request_context().extensions);
        found_extension(found, name)
    }
}

impl<C: AsRequestContext, T: ExtensionLabel> FromContextPart<C> for Extension<T> {
    /// A clone of the value that the extensions of the request hold of type `T`, or an error that
    /// names the type.
    open spec fn extracted(before: C, after: C, part: Result<Self, ErrorData>) -> bool {
        extension_taken(before, after, T::LABEL@, part)
    }

    fn from_context_part(context: &mut C) -> (part: Result<Self, ErrorData>) {
        Extension::from_context_part_named(context, T::LABEL.to_string())
    }
}

/// Whether an extension is found depends on whether the extensions of the request hold a value of
/// its type; where they hold none, the error names the type.
pub proof fn extensions_are_found_by_type<C: AsRequestContext, T: Clone + Send + Sync + 'static>(
    before: C,
    after: C,
    name: Seq<char>,
    part: Result<Extension<T>, ErrorData>,
    id: TypeId,
)
    requires
        extension_taken(before, after, name, part),
        call_ensures(TypeId::of::<T>, (), id),
    ensures
        after == before,
        part is Ok <==> extension_types(before.request_context().extensions).contains(id),
        part matches Err(error) ==> error@ == missing_extension(name),
{
    let found = choose|found: Option<&T>| #[trigger]
        is_held_value(before.request_context().extensions, found) && extension_outcome(
            found,
            name,
            part,
        );
    assert(tells_presence::<T>(before.request_context().extensions, found is Some));
}

/// An extension stays where it is: taking it a second time leaves the context alone again, succeeds
/// exactly where the first time did, and gives a clone of the same value or the same error.
pub proof fn extensions_can_be_taken_again<C: AsRequestContext, T: Clone + Send + Sync + 'static>(
    before: C,
    between: C,
    after: C,
    name: Seq<char>,
    first: Result<Extension<T>, ErrorData>,
    second: Result<Extension<T>, ErrorData>,
)
    requires
        extension_taken(before, between, name, first),
        extension_taken(between, after, name, second),
    ensures
        between == before,
        after == before,
        match (first, second) {
            (Ok(one), Ok(other)) => exists|value: T| #[trigger]
                cloned(value, one.0) && cloned(value, other.0),
            (Err(one), Err(other)) => one@ == other@,
            _ => false,
        },
{
    let extensions = before.request_context().extensions;
    let one = choose|found: Option<&T>| #[trigger]
        is_held_value(extensions, found) && extension_outcome(found, name, first);
    let other = choose|found: Option<&T>| #[trigger]
        is_held_value(extensions, found) && extension_outcome(found, name, second);
    assert(one == other);
    if let (Some(value), Ok(extension)) = (one, first) {
        assert(cloned(*value, extension.0));
    }
}

/// The `_meta` entries can be taken once: a second handler part finds none, and everything else
/// in the context of the request stays.
pub proof fn meta_is_taken_once<C: AsRequestContext>(
    before: C,
    between: C,
    after: C,
    first: Result<Meta, ErrorData>,
    second: Result<Meta, ErrorData>,
)
    requires
        <Meta as FromContextPart<C>>::extracted(before, between, first),
        <Meta as FromContextPart<C>>::extracted(between, after, second),
    ensures
        first == Ok::<Meta, ErrorData>(before.request_context().meta),
        second matches Ok(meta) && meta@ == Map::<Seq<char>, JsonView>::empty(),
        between.request_context() == (RequestContext {
            meta: between.request_context().meta,
            ..before.request_context()
        }),
{
    let left = choose|left: Meta|
        #![trigger left@]
        left@ == Map::<Seq<char>, JsonView>::empty() && between == before.with_request_context(
            RequestContext { meta: left, ..before.request_context() },
        );
    before.lemma_replaced(RequestContext { meta: left, ..before.request_context() });
}

} // verus!
