use rmcp::handler::server::common::{
    found_extension, AsRequestContext, Extension, ExtensionLabel, FromContextPart, RequestId,
};
use rmcp::json::JsonValue;
use rmcp::model::{Meta, NumberOrString};
use rmcp::service::{Peer, RequestContext, RoleServer};
use tokio_util::sync::CancellationToken;

#[derive(Clone, Debug, PartialEq)]
struct Tenant(u32);

impl ExtensionLabel for Tenant {
    const LABEL: &'static str = "contexts::Tenant";
}

fn context() -> RequestContext<RoleServer> {
    let id = NumberOrString::String("r1".to_string());
    let mut context = RequestContext::new(id, Peer::new(RoleServer, Some(3)));
    context.meta.0.insert("k".to_string(), JsonValue::from_u32(1));
    context.extensions.insert(Tenant(7));
    context
}

#[test]
fn the_context_itself_is_a_part() {
    let mut from = context();
    let copy = RequestContext::<RoleServer>::from_context_part(&mut from).expect("a part");
    assert_eq!(copy.id, from.id);
    assert_eq!(copy.meta, from.meta);
    assert_eq!(copy.peer, from.peer);
    assert_eq!(copy.extensions.get::<Tenant>(), Some(&Tenant(7)));
    from.ct.cancel();
    assert!(copy.ct.is_cancelled());
    assert_eq!(from.as_request_context().id, copy.id);
}

#[test]
fn a_token_part_is_a_handle_to_the_same_token() {
    let mut from = context();
    let token = CancellationToken::from_context_part(&mut from).expect("a part");
    assert!(!token.is_cancelled());
    from.ct.cancel();
    assert!(token.is_cancelled());
}

#[test]
fn extensions_are_copied() {
    let mut from = context();
    let copy = http::Extensions::from_context_part(&mut from).expect("a part");
    assert_eq!(copy.get::<Tenant>(), Some(&Tenant(7)));
    assert_eq!(copy.get::<u32>(), None);
    assert_eq!(from.extensions.get::<Tenant>(), Some(&Tenant(7)));
}

#[test]
fn an_extension_is_found_by_its_type() {
    let mut from = context();
    let Extension(tenant) = Extension::<Tenant>::from_context_part(&mut from).expect("a part");
    assert_eq!(tenant, Tenant(7));
    assert_eq!(from.extensions.get::<Tenant>(), Some(&Tenant(7)));
}

#[test]
fn an_extension_of_any_type_is_found_under_its_name() {
    let mut from = context();
    from.extensions.insert(5u32);
    let name = || "u32".to_string();
    let Extension(number) =
        Extension::<u32>::from_context_part_named(&mut from, name()).expect("a part");
    assert_eq!(number, 5);
    from.extensions.remove::<u32>();
    let error = Extension::<u32>::from_context_part_named(&mut from, name()).err();
    let error = error.expect("an error");
    assert_eq!(error.code, -32602);
    assert_eq!(error.message, "missing extension u32");
    assert_eq!(from.extensions.get::<Tenant>(), Some(&Tenant(7)));
}

#[test]
fn an_extension_can_be_taken_again() {
    let mut from = context();
    let Extension(first) = Extension::<Tenant>::from_context_part(&mut from).expect("a part");
    let Extension(second) = Extension::<Tenant>::from_context_part(&mut from).expect("a part");
    assert_eq!(first, second);
    from.extensions.remove::<Tenant>();
    let first = Extension::<Tenant>::from_context_part(&mut from).err();
    let second = Extension::<Tenant>::from_context_part(&mut from).err();
    assert!(first.is_some());
    assert_eq!(first, second);
}

#[test]
fn a_missing_extension_is_an_error_that_names_it() {
    let mut from = RequestContext::new(NumberOrString::Number(1), Peer::new(RoleServer, None));
    from.extensions.insert(7u32);
    let error = match Extension::<Tenant>::from_context_part(&mut from) {
        Ok(_) => panic!("there is no tenant"),
        Err(error) => error,
    };
    assert_eq!(error.code, -32602);
    assert_eq!(error.message, "missing extension contexts::Tenant");
    assert_eq!(error.data, None);
    assert!(found_extension(Some(&Tenant(1)), "Tenant".to_string()).is_ok());
}

#[test]
fn the_peer_and_the_id_are_parts() {
    let mut from = context();
    let peer = Peer::<RoleServer>::from_context_part(&mut from).expect("a part");
    assert_eq!(peer, Peer::new(RoleServer, Some(3)));
    let RequestId(id) = RequestId::from_context_part(&mut from).expect("a part");
    assert_eq!(id, NumberOrString::String("r1".to_string()));
}

#[test]
fn meta_is_taken_once() {
    let mut from = context();
    let first = Meta::from_context_part(&mut from).expect("a part");
    assert_eq!(first.0.get("k"), Some(&JsonValue::from_u32(1)));
    assert!(from.meta.0.is_empty());
    let second = Meta::from_context_part(&mut from).expect("a part");
    assert!(second.0.is_empty());
    assert_eq!(from.extensions.get::<Tenant>(), Some(&Tenant(7)));
    assert_eq!(from.peer, Peer::new(RoleServer, Some(3)));
}

#[test]
fn the_context_can_be_changed_in_place() {
    let mut from = context();
    from.as_request_context_mut().id = NumberOrString::Number(9);
    assert_eq!(from.id, NumberOrString::Number(9));
}
