//! Laws of channels: their names, their capabilities and their notifications.

use vstd::prelude::*;

use crate::anthropic_ext::payload::{
    ClaudeChannelNotificationParam, ClaudeChannelPermissionParam,
};
use crate::anthropic_ext::{
    claude_channel_capability, claude_channel_notification_method,
    claude_channel_permission_capability, claude_channel_permission_method,
    claude_channel_permission_request_method, insert_claude_channel,
    insert_claude_channel_permission,
};
use crate::json::{
    lemma_empty_object_view, object_view, FromJson, JsonValue, JsonView, PayloadError,
};
use crate::model::{
    capabilities_view, CustomNotification, ExperimentalCapabilities, ServerCapabilities,
    ServerCapabilitiesBuilder, ServerNotification,
};
use crate::service::{Outbound, Peer, RoleServer};
use crate::string_map::StringMap;

verus! {

/// A text is made of a beginning, a name in the middle, and an end.
pub open spec fn is_around(
    whole: Seq<char>,
    beginning: Seq<char>,
    name: Seq<char>,
    end: Seq<char>,
) -> bool {
    &&& whole.len() == beginning.len() + name.len() + end.len()
    &&& forall|i: int| 0 <= i < beginning.len() ==> whole[i] == #[trigger] beginning[i]
    &&& forall|i: int|
        0 <= i < name.len() ==> whole[beginning.len() + i] == #[trigger] name[i]
    &&& forall|i: int|
        0 <= i < end.len() ==> whole[beginning.len() + name.len() + i] == #[trigger] end[i]
}

/// Texts with the same beginning and the same end around them are the same only where the names
/// are.
proof fn lemma_around_is_told_apart(
    whole: Seq<char>,
    beginning: Seq<char>,
    one: Seq<char>,
    other: Seq<char>,
    end: Seq<char>,
)
    requires
        is_around(whole, beginning, one, end),
        is_around(whole, beginning, other, end),
    ensures
        one == other,
{
    assert(one.len() == other.len());
    assert forall|i: int| 0 <= i < one.len() implies one[i] == other[i] by {
        assert(whole[beginning.len() + i] == one[i]);
    }
    assert(one =~= other);
}

/// The capabilities and methods of a channel hold the name of the client between fixed texts.
pub proof fn names_are_built_around_the_client(
    client: &str,
    capability: String,
    permission_capability: String,
    method: String,
    request_method: String,
    permission_method: String,
)
    requires
        call_ensures(claude_channel_capability, (client,), capability),
        call_ensures(claude_channel_permission_capability, (client,), permission_capability),
        call_ensures(claude_channel_notification_method, (client,), method),
        call_ensures(claude_channel_permission_request_method, (client,), request_method),
        call_ensures(claude_channel_permission_method, (client,), permission_method),
    ensures
        is_around(capability@, seq![], client@, "/channel"@),
        is_around(permission_capability@, seq![], client@, "/channel/permission"@),
        is_around(method@, "notifications/"@, client@, "/channel"@),
        is_around(request_method@, "notifications/"@, client@, "/channel/permission_request"@),
        is_around(permission_method@, "notifications/"@, client@, "/channel/permission"@),
{
}

/// Different clients have different capabilities and methods.
pub proof fn clients_have_names_of_their_own(
    one: &str,
    other: &str,
    names: (String, String, String, String, String),
    others: (String, String, String, String, String),
)
    requires
        one@ != other@,
        call_ensures(claude_channel_capability, (one,), names.0),
        call_ensures(claude_channel_permission_capability, (one,), names.1),
        call_ensures(claude_channel_notification_method, (one,), names.2),
        call_ensures(claude_channel_permission_request_method, (one,), names.3),
        call_ensures(claude_channel_permission_method, (one,), names.4),
        call_ensures(claude_channel_capability, (other,), others.0),
        call_ensures(claude_channel_permission_capability, (other,), others.1),
        call_ensures(claude_channel_notification_method, (other,), others.2),
        call_ensures(claude_channel_permission_request_method, (other,), others.3),
        call_ensures(claude_channel_permission_method, (other,), others.4),
    ensures
        names.0@ != others.0@,
        names.1@ != others.1@,
        names.2@ != others.2@,
        names.3@ != others.3@,
        names.4@ != others.4@,
{
    names_are_built_around_the_client(one, names.0, names.1, names.2, names.3, names.4);
    names_are_built_around_the_client(other, others.0, others.1, others.2, others.3, others.4);
    if names.0@ == others.0@ {
        lemma_around_is_told_apart(names.0@, seq![], one@, other@, "/channel"@);
    }
    if names.1@ == others.1@ {
        lemma_around_is_told_apart(names.1@, seq![], one@, other@, "/channel/permission"@);
    }
    if names.2@ == others.2@ {
        lemma_around_is_told_apart(names.2@, "notifications/"@, one@, other@, "/channel"@);
    }
    if names.3@ == others.3@ {
        lemma_around_is_told_apart(
            names.3@,
            "notifications/"@,
            one@,
            other@,
            "/channel/permission_request"@,
        );
    }
    if names.4@ == others.4@ {
        lemma_around_is_told_apart(names.4@, "notifications/"@, one@, other@, "/channel/permission"@);
    }
}

/// Declaring a channel adds the capability that is named after the client, without settings, and
/// keeps every other capability with its settings.
pub proof fn a_channel_is_one_more_capability(
    capabilities: &mut ExperimentalCapabilities,
    client: &str,
)
    requires
        call_ensures(insert_claude_channel, (capabilities, client), ()),
    ensures
        forall|name: Seq<char>| #[trigger]
            final(capabilities)@.contains_key(name) <==> old(capabilities)@.contains_key(name)
                || name == client@ + "/channel"@,
        final(capabilities)@[client@ + "/channel"@]@ == Map::<Seq<char>, JsonValue>::empty(),
        forall|name: Seq<char>|
            old(capabilities)@.contains_key(name) && name != client@ + "/channel"@ ==> object_view(
                final(capabilities)@[name],
            ) == object_view(#[trigger] old(capabilities)@[name]),
{
    lemma_one_more(*old(capabilities), *final(capabilities), client@ + "/channel"@);
}

/// Declaring the part in tool approvals adds the capability that is named after the client,
/// without settings, and keeps every other capability with its settings.
pub proof fn a_permission_channel_is_one_more_capability(
    capabilities: &mut ExperimentalCapabilities,
    client: &str,
)
    requires
        call_ensures(insert_claude_channel_permission, (capabilities, client), ()),
    ensures
        forall|name: Seq<char>| #[trigger]
            final(capabilities)@.contains_key(name) <==> old(capabilities)@.contains_key(name)
                || name == client@ + "/channel/permission"@,
        final(capabilities)@[client@ + "/channel/permission"@]@ == Map::<
            Seq<char>,
            JsonValue,
        >::empty(),
        forall|name: Seq<char>|
            old(capabilities)@.contains_key(name) && name != client@ + "/channel/permission"@ ==> object_view(
                final(capabilities)@[name],
            ) == object_view(#[trigger] old(capabilities)@[name]),
{
    lemma_one_more(*old(capabilities), *final(capabilities), client@ + "/channel/permission"@);
}

/// One more capability without settings.
proof fn lemma_one_more(
    before: ExperimentalCapabilities,
    after: ExperimentalCapabilities,
    name: Seq<char>,
)
    requires
        capabilities_view(after) == capabilities_view(before).insert(name, Map::empty()),
    ensures
        forall|other: Seq<char>| #[trigger]
            after@.contains_key(other) <==> before@.contains_key(other) || other == name,
        after@[name]@ == Map::<Seq<char>, JsonValue>::empty(),
        forall|other: Seq<char>|
            before@.contains_key(other) && other != name ==> object_view(after@[other])
                == object_view(#[trigger] before@[other]),
{
    let old_views = capabilities_view(before);
    let new_views = capabilities_view(after);
    assert forall|other: Seq<char>| #[trigger]
        after@.contains_key(other) <==> before@.contains_key(other) || other == name by {
        assert(new_views.contains_key(other) <==> after@.contains_key(other));
        assert(old_views.contains_key(other) <==> before@.contains_key(other));
    }
    assert(after@.contains_key(name));
    assert(new_views[name] == object_view(after@[name]));
    lemma_empty_object_view(after@[name]);
    assert forall|other: Seq<char>| before@.contains_key(other) && other != name implies object_view(
        after@[other],
    ) == object_view(#[trigger] before@[other]) by {
        assert(after@.contains_key(other));
        assert(new_views[other] == object_view(after@[other]));
        assert(old_views[other] == object_view(before@[other]));
    }
}

/// Experimental capabilities land on the field for them, and nothing else is declared.
pub proof fn experimental_capabilities_land_on_their_field(
    empty: ServerCapabilitiesBuilder,
    experimental: ExperimentalCapabilities,
    builder: ServerCapabilitiesBuilder,
    built: ServerCapabilities,
)
    requires
        call_ensures(ServerCapabilities::builder, (), empty),
        call_ensures(
            ServerCapabilitiesBuilder::enable_experimental_with,
            (empty, experimental),
            builder,
        ),
        call_ensures(ServerCapabilitiesBuilder::build, (builder,), built),
    ensures
        built.experimental == Some(experimental),
        built.extensions is None,
{
}

/// A pushed event goes out on the channel of the peer, under the method that is named after the
/// client, as an object with the body and, where there are any, the attributes as they are. Where
/// the peer has no channel, nothing goes out.
pub proof fn a_pushed_event_goes_out_whole(
    peer: Peer<RoleServer>,
    client: &str,
    params: ClaudeChannelNotificationParam,
    sent: Option<Outbound>,
)
    requires
        call_ensures(
            Peer::<RoleServer>::notify_claude_channel,
            (&peer, client, params),
            sent,
        ),
    ensures
        sent is Some <==> peer.outbound is Some,
        sent matches Some(outbound) ==> {
            &&& peer.outbound == Some(outbound.channel)
            &&& outbound.notification matches ServerNotification::CustomNotification(custom) && {
                &&& is_around(custom.method@, "notifications/"@, client@, "/channel"@)
                &&& custom.params matches Some(value) && value@ matches JsonView::Object(members)
                    && {
                    &&& members.contains_key("content"@)
                    &&& members["content"@] == JsonView::String(params.content@)
                    &&& members.contains_key("meta"@) <==> params.meta is Some
                    &&& forall|name: Seq<char>| #[trigger]
                        members.contains_key(name) ==> name == "content"@ || name == "meta"@
                    &&& params.meta matches Some(meta) ==> holds_texts(members["meta"@], meta)
                }
            }
        },
{
    reveal_strlit("content");
    reveal_strlit("meta");
    assert("content"@.len() != "meta"@.len());
}

/// A JSON value is an object with the texts of a map as its members.
pub open spec fn holds_texts(value: JsonView, texts: StringMap<String>) -> bool {
    value matches JsonView::Object(members) && {
        &&& forall|name: Seq<char>| #[trigger]
            members.contains_key(name) <==> texts@.contains_key(name)
        &&& forall|name: Seq<char>|
            texts@.contains_key(name) ==> #[trigger] members[name] == JsonView::String(
                texts@[name]@,
            )
    }
}

/// An answer goes out on the channel of the peer, under the method that is named after the client,
/// as an object with the id of the request as it is and the word for the verdict. Where the peer
/// has no channel, nothing goes out.
pub proof fn an_answer_goes_out_whole(
    peer: Peer<RoleServer>,
    client: &str,
    params: ClaudeChannelPermissionParam,
    sent: Option<Outbound>,
)
    requires
        call_ensures(
            Peer::<RoleServer>::notify_claude_channel_permission,
            (&peer, client, params),
            sent,
        ),
    ensures
        sent is Some <==> peer.outbound is Some,
        sent matches Some(outbound) ==> {
            &&& peer.outbound == Some(outbound.channel)
            &&& outbound.notification matches ServerNotification::CustomNotification(custom) && {
                &&& is_around(custom.method@, "notifications/"@, client@, "/channel/permission"@)
                &&& custom.params matches Some(value) && value@ matches JsonView::Object(members)
                    && {
                    &&& members.contains_key("request_id"@)
                    &&& members["request_id"@] == JsonView::String(params.request_id@)
                    &&& members.contains_key("behavior"@)
                    &&& members["behavior"@] == JsonView::String(
                        if params.behavior is Allow {
                            "allow"@
                        } else {
                            "deny"@
                        },
                    )
                    &&& forall|name: Seq<char>| #[trigger]
                        members.contains_key(name) ==> name == "request_id"@ || name == "behavior"@
                }
            }
        },
{
    reveal_strlit("request_id");
    reveal_strlit("behavior");
    assert("request_id"@.len() != "behavior"@.len());
}

/// A notification to a peer goes out on its channel as it is, or not at all where it has none.
pub proof fn notifications_go_out_as_they_are(
    role: RoleServer,
    outbound: Option<u64>,
    peer: Peer<RoleServer>,
    notification: ServerNotification,
    sent: Option<Outbound>,
)
    requires
        call_ensures(Peer::<RoleServer>::new, (role, outbound), peer),
        call_ensures(Peer::<RoleServer>::send_notification, (&peer, notification), sent),
    ensures
        peer.outbound == outbound,
        match outbound {
            Some(channel) => sent matches Some(out) && out.channel == channel && out.notification
                == notification,
            None => sent is None,
        },
{
}

/// The parameters of a notification are read as the payload that they hold, and there is none
/// where there are no parameters.
pub proof fn parameters_are_read_as_their_payload<T: FromJson>(
    method: String,
    params: Option<JsonValue>,
    notification: CustomNotification,
    payload: Result<Option<T>, PayloadError>,
)
    requires
        call_ensures(CustomNotification::new, (method, params), notification),
        call_ensures(CustomNotification::params_as::<T>, (&notification,), payload),
    ensures
        notification.method@ == method@,
        notification.params == params,
        match params {
            None => payload == Ok::<Option<T>, PayloadError>(None),
            Some(value) => match T::decoded(value@) {
                Some(decoded) => payload matches Ok(Some(p)) && p@ == decoded,
                None => payload is Err,
            },
        },
{
}

} // verus!
