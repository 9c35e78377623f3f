//! The peer at the other end of a connection, and the context of a request from it.

use std::any::TypeId;

use vstd::prelude::*;

use crate::model::{Meta, NumberOrString, ServerNotification};

verus! {

/// The identity of a Rust type.
#[verifier::external_type_specification]
#[verifier::external_body]
pub struct ExTypeId(TypeId);

/// A token by which a request can be cancelled.
#[verifier::external_type_specification]
#[verifier::external_body]
pub struct ExCancellationToken(tokio_util::sync::CancellationToken);

/// Values by their type.
#[verifier::external_type_specification]
#[verifier::external_body]
pub struct ExExtensions(http::Extensions);

/// The types of which extensions hold a value.
pub uninterp spec fn extension_types(extensions: http::Extensions) -> Set<TypeId>;

/// `TypeId::of`: the identity of `T`. Nothing is stated of it; contracts speak of what the call
/// gives.
pub assume_specification<T: ?Sized + 'static>[ TypeId::of::<T> ]() -> (id: TypeId);

/// `http::Extensions::new`: no values.
pub assume_specification[ http::Extensions::new ]() -> (extensions: http::Extensions)
    ensures
        extension_types(extensions) == Set::<TypeId>::empty(),
;

/// `http::Extensions::clone`: the copy holds a value of each of the same types. That it is the
/// clone of the value that the extensions hold is left unsaid, since it is of any type.
pub assume_specification[ <http::Extensions as Clone>::clone ](
    extensions: &http::Extensions,
) -> (copy: http::Extensions)
    ensures
        extension_types(copy) == extension_types(*extensions),
;

/// `found` tells whether the extensions hold a value of type `T`.
pub open spec fn tells_presence<T: 'static>(extensions: http::Extensions, found: bool) -> bool {
    forall|id: TypeId|
        #![trigger call_ensures(TypeId::of::<T>, (), id)]
        call_ensures(TypeId::of::<T>, (), id) ==> (found <==> extension_types(
            extensions,
        ).contains(id))
}

/// `http::Extensions::get`. Nothing is stated of it here; contracts speak of what the call gives,
/// and [`held_value`] makes it.
pub assume_specification<T: Send + Sync + 'static>[ http::Extensions::get::<T> ](
    extensions: &http::Extensions,
) -> (value: Option<&T>);

/// `value` is the one result of looking up the type `T` in the extensions: a value where they hold
/// one, and the same at every look.
pub open spec fn is_held_value<T: Send + Sync + 'static>(
    extensions: http::Extensions,
    value: Option<&T>,
) -> bool {
    &&& call_ensures(http::Extensions::get::<T>, (&extensions,), value)
    &&& forall|other: Option<&T>|
        call_ensures(http::Extensions::get::<T>, (&extensions,), other) ==> other == value
    &&& tells_presence::<T>(extensions, value is Some)
}

/// `http::Extensions::get`: the value of type `T`, where there is one. What the call gives depends
/// on the extensions alone, so that every call on the same extensions gives the same value.
#[verifier::external_body]
pub(crate) fn held_value<T: Send + Sync + 'static>(
    extensions: &http::Extensions,
) -> (value: Option<&T>)
    ensures
        is_held_value(*extensions, value),
{
    extensions.get::<T>()
}

/// `CancellationToken::new`: a token of its own. Nothing is stated of it: whether it is cancelled
/// changes over time.
pub assume_specification[ tokio_util::sync::CancellationToken::new ]() -> (token: tokio_util::sync::CancellationToken);

/// `CancellationToken::clone`: another handle to the same token.
pub assume_specification[ <tokio_util::sync::CancellationToken as Clone>::clone ](
    token: &tokio_util::sync::CancellationToken,
) -> (copy: tokio_util::sync::CancellationToken)
    ensures
        copy == *token,
;

/// The role of a server in a connection.
#[derive(Debug, Clone, Copy, PartialEq, Eq)]
pub struct RoleServer;

/// The other end of a connection, as the role `R` sees it.
#[derive(Debug, Clone, Copy, PartialEq, Eq)]
pub struct Peer<R> {
    /// The role on this side.
    pub role: R,
    /// The channel on which the transport takes outbound messages, or none once nobody receives
    /// on it any more.
    pub outbound: Option<u64>,
}

/// A notification on its way out.
#[derive(Debug, PartialEq)]
pub struct Outbound {
    /// The channel to send on.
    pub channel: u64,
    /// What to send.
    pub notification: ServerNotification,
}

impl<R> Peer<R> {
    /// A peer that takes messages on the given channel.
    pub fn new(role: R, outbound: Option<u64>) -> (peer: Peer<R>)
        ensures
            peer == (Peer { role, outbound }),
    {
        Peer { role, outbound }
    }

    /// What is to be sent for a notification to this peer: nothing, once nobody receives on its
    /// channel.
    pub fn send_notification(&self, notification: ServerNotification) -> (sent: Option<Outbound>)
        ensures
            sent == (match self.outbound {
                Some(channel) => Some(Outbound { channel, notification }),
                None => None,
            }),
    {
        match self.outbound {
            Some(channel) => Some(Outbound { channel, notification }),
            None => None,
        }
    }
}

/// What a handler knows of the request that it serves.
pub struct RequestContext<R> {
    /// Cancelled when the client gives up on the request.
    pub ct: tokio_util::sync::CancellationToken,
    /// The id of the request.
    pub id: NumberOrString,
    /// The `_meta` entries of the request.
    pub meta: Meta,
    /// Values that the transport attached to the request, by their type.
    pub extensions: http::Extensions,
    /// Where the request came from.
    pub peer: Peer<R>,
}

impl<R> RequestContext<R> {
    /// The context of a request with the given id, with nothing attached to it.
    pub fn new(id: NumberOrString, peer: Peer<R>) -> (context: RequestContext<R>)
        ensures
            context.id == id,
            context.peer == peer,
            context.meta@ == Map::<Seq<char>, crate::json::JsonView>::empty(),
            extension_types(context.extensions) == Set::<TypeId>::empty(),
    {
        RequestContext {
            ct: tokio_util::sync::CancellationToken::new(),
            id,
            meta: Meta::new(),
            extensions: http::Extensions::new(),
            peer,
        }
    }
}

/// Whether a context is a copy of another: the same token, id and peer, and clones of the `_meta`
/// entries and the extensions.
pub open spec fn is_copy_of<R>(copy: RequestContext<R>, context: RequestContext<R>) -> bool {
    &&& copy.ct == context.ct
    &&& copy.id == context.id
    &&& copy.meta@ == context.meta@
    &&& cloned(context.extensions, copy.extensions)
    &&& copy.peer == context.peer
}

impl<R: Copy> Clone for RequestContext<R> {
    fn clone(&self) -> (copy: RequestContext<R>)
        ensures
            is_copy_of(copy, *self),
    {
        RequestContext {
            ct: self.ct.clone(),
            id: self.id.clone(),
            meta: self.meta.clone(),
            extensions: self.extensions.clone(),
            peer: Peer { role: self.peer.role, outbound: self.peer.outbound },
        }
    }
}

} // verus!
