//! Contexts for testing handlers without a connection.

use std::any::TypeId;

use vstd::prelude::*;

use crate::json::JsonView;
use crate::model::NumberOrString;
use crate::service::{extension_types, Peer, RequestContext, RoleServer};

verus! {

/// The context of a request with the id 1, from a peer to which nothing can be sent any more.
#[must_use]
pub fn request_context_for_test() -> (context: RequestContext<RoleServer>)
    ensures
        context.id == NumberOrString::Number(1),
        context.peer == (Peer { role: RoleServer, outbound: None }),
        context.meta@ == Map::<Seq<char>, JsonView>::empty(),
        extension_types(context.extensions) == Set::<TypeId>::empty(),
{
    RequestContext::new(NumberOrString::Number(1), Peer::new(RoleServer, None))
}

} // verus!
