use fwends_backend::catalog::{pack_data, Pack};
use fwends_backend::json::{encode_catalog, push_decimal, push_json_string, push_pack};
use fwends_backend::routes::{routes, ContentType, Handler, Method, Route};

const CATALOG_BODY: &str = "[{\"id\":0,\"name\":\"Bar Pack One\",\"roleCount\":3,\"stringCount\":27},{\"id\":1,\"name\":\"Foo Pack Two\",\"roleCount\":4,\"stringCount\":32}]";

#[test]
fn catalog_scenario() {
    let d = routes();
    let r = d.respond(Method::Get, "/api/packs");
    assert_eq!(r.status, 200);
    assert_eq!(r.content_type, ContentType::ApplicationJson);
    assert_eq!(r.body, CATALOG_BODY);
}

#[test]
fn greeting_route() {
    let d = routes();
    let r = d.respond(Method::Get, "/api");
    assert_eq!(r.status, 200);
    assert_eq!(r.content_type, ContentType::TextPlain);
    assert_eq!(r.body, "Hello from backend!");
}

#[test]
fn routes_are_disjoint() {
    let d = routes();
    let a = d.respond(Method::Get, "/api");
    let p = d.respond(Method::Get, "/api/packs");
    assert_ne!(a.body, CATALOG_BODY);
    assert_ne!(p.body, "Hello from backend!");
    assert!(!a.body.contains("Pack"));
}

#[test]
fn unmatched_paths_are_not_found() {
    let d = routes();
    for (m, p) in [
        (Method::Get, "/api/unknown"),
        (Method::Post, "/api/packs"),
        (Method::Post, "/api"),
        (Method::Get, "/"),
        (Method::Get, ""),
        (Method::Get, "/api/"),
        (Method::Get, "/api/packs/"),
        (Method::Get, "/API"),
        (Method::Delete, "/api/packs"),
    ] {
        assert!(d.dispatch(m, p).is_none());
        let r = d.respond(m, p);
        assert_eq!(r.status, 404);
        assert_eq!(r.content_type, ContentType::Unspecified);
        assert!(r.body.is_empty());
    }
}

#[test]
fn repeated_catalog_requests_are_identical() {
    let d = routes();
    let first = d.respond(Method::Get, "/api/packs");
    for _ in 0..16 {
        let r = d.respond(Method::Get, "/api/packs");
        assert_eq!(r.status, first.status);
        assert_eq!(r.body, first.body);
    }
    assert_eq!(first.body, CATALOG_BODY);
}

#[test]
fn wire_field_names() {
    let body = routes().respond(Method::Get, "/api/packs").body;
    for key in ["\"id\":", "\"name\":", "\"roleCount\":", "\"stringCount\":"] {
        assert_eq!(body.matches(key).count(), 2);
    }
    assert!(!body.contains("role_count"));
    assert!(!body.contains("string_count"));
    assert!(!body.contains("rolecount"));
}

#[test]
fn dispatch_finds_routes() {
    let d = routes();
    assert_eq!(d.find_route(Method::Get, "/api"), Some(0));
    assert_eq!(d.find_route(Method::Get, "/api/packs"), Some(1));
    assert_eq!(d.find_route(Method::Head, "/api"), None);
    assert!(d.dispatch(Method::Get, "/api").is_some());
}

#[test]
fn first_match_wins() {
    let d = routes().or(Route { method: Method::Get, path: String::from("/api"), handler: Handler::Catalog });
    assert_eq!(d.find_route(Method::Get, "/api"), Some(0));
    assert_eq!(d.respond(Method::Get, "/api").body, "Hello from backend!");
    let d = d.or(Route { method: Method::Post, path: String::from("/api/packs"), handler: Handler::Catalog });
    assert_eq!(d.find_route(Method::Post, "/api/packs"), Some(3));
    assert_eq!(d.respond(Method::Post, "/api/packs").body, CATALOG_BODY);
}

#[test]
fn fixed_catalog_contents() {
    let c = pack_data();
    assert_eq!(c.len(), 2);
    assert_eq!((c[0].id, c[0].name.as_str(), c[0].role_count, c[0].string_count), (0, "Bar Pack One", 3, 27));
    assert_eq!((c[1].id, c[1].name.as_str(), c[1].role_count, c[1].string_count), (1, "Foo Pack Two", 4, 32));
}

#[test]
fn decimal_digits() {
    for (n, t) in [(0u64, "0"), (7, "7"), (10, "10"), (27, "27"), (1005, "1005"), (u64::MAX, "18446744073709551615")] {
        let mut s = String::from("x");
        push_decimal(&mut s, n);
        assert_eq!(s, format!("x{}", t));
    }
}

#[test]
fn string_escaping() {
    let mut s = String::new();
    push_json_string(&mut s, "a\"b\\c\nd\te\r\u{8}\u{c}\u{1}\u{1f} é");
    assert_eq!(s, "\"a\\\"b\\\\c\\nd\\te\\r\\b\\f\\u0001\\u001f é\"");
    let mut e = String::new();
    push_json_string(&mut e, "");
    assert_eq!(e, "\"\"");
}

#[test]
fn encode_empty_and_custom_catalog() {
    assert_eq!(encode_catalog(&Vec::new()), "[]");
    let one = vec![Pack { id: 42, name: String::from("Say \"hi\""), role_count: u16::MAX, string_count: 0 }];
    assert_eq!(
        encode_catalog(&one),
        "[{\"id\":42,\"name\":\"Say \\\"hi\\\"\",\"roleCount\":65535,\"stringCount\":0}]"
    );
    let mut s = String::new();
    push_pack(&mut s, &one[0]);
    assert_eq!(format!("[{}]", s), encode_catalog(&one));
}
