use secret_store::devices::DeviceRegistry;
use secret_store::http::{HttpResponse, Method, StatusCode};
use secret_store::service::{decode_body, Outcome, SecretService};
use secret_store::storage::{MemStorage, Secret, SecretType, Storage};

fn service() -> SecretService<MemStorage> {
    SecretService::new(String::from("127.0.0.1"), MemStorage::new())
}

fn secret(domain: &str, username: &str, password: &str) -> Secret {
    Secret::new(
        SecretType::Password,
        String::from(domain),
        String::from(username),
        String::from(password),
    )
}

fn reply(outcome: Outcome) -> HttpResponse {
    match outcome {
        Outcome::Reply(resp) => resp,
        Outcome::ReadBody => panic!("the request was not answered"),
    }
}

fn json_headers() -> Vec<(String, String)> {
    vec![(String::from("Content-Type"), String::from("application/json"))]
}

#[test]
fn put_get_delete_get_scenario() {
    let mut svc = service();
    let mut devices = DeviceRegistry::new();

    let put = svc.call(&mut devices, Method::Put, "/secrets/example.com", None);
    assert!(matches!(put, Outcome::ReadBody));
    let stored = svc.store(Ok(secret("example.com", "alice", "p1")));
    assert_eq!(stored.status, StatusCode::NoContent);
    assert_eq!(stored.status.code(), 204);
    assert!(stored.headers.is_empty());
    assert_eq!(stored.body, "");

    let got = reply(svc.call(&mut devices, Method::Get, "/secrets/example.com", None));
    assert_eq!(got.status.code(), 200);
    assert_eq!(got.headers, json_headers());
    assert_eq!(
        got.body,
        "{\"type\":\"password\",\"domain\":\"example.com\",\"username\":\"alice\",\"password\":\"p1\"}"
    );

    let deleted = reply(svc.call(&mut devices, Method::Delete, "/secrets/example.com", None));
    assert_eq!(deleted.status.code(), 204);
    assert_eq!(deleted.body, "");

    let gone = reply(svc.call(&mut devices, Method::Get, "/secrets/example.com", None));
    assert_eq!(gone.status.code(), 404);
    assert_eq!(gone.headers, json_headers());
    assert_eq!(gone.body, "{\"message\":\"Domain not found\"}");
}

#[test]
fn post_is_handled_like_put() {
    let mut svc = service();
    let mut devices = DeviceRegistry::new();
    let post = svc.call(&mut devices, Method::Post, "/secrets/example.com", None);
    assert!(matches!(post, Outcome::ReadBody));
    assert_eq!(svc.storage.get_all().ok().unwrap().len(), 0);
}

#[test]
fn malformed_body_is_rejected_and_nothing_is_stored() {
    let mut svc = service();
    let mut devices = DeviceRegistry::new();
    let put = svc.call(&mut devices, Method::Put, "/secrets/x", None);
    assert!(matches!(put, Outcome::ReadBody));
    let text = decode_body(b"not json".to_vec()).ok().unwrap();
    assert_eq!(text, "not json");
    let resp = svc.store(Err(String::from("expected ident at line 1 column 2")));
    assert_eq!(resp.status, StatusCode::BadRequest);
    assert_eq!(resp.status.code(), 400);
    assert_eq!(resp.headers, json_headers());
    assert_eq!(
        resp.body,
        "{\"message\":\"invalid json: expected ident at line 1 column 2\"}"
    );
    assert_eq!(svc.storage.get("x").ok().unwrap(), None);
    assert!(svc.storage.get_all().ok().unwrap().is_empty());
}

#[test]
fn body_that_is_not_utf8_is_rejected() {
    let resp = decode_body(vec![0x66, 0x6f, 0xff, 0x6f]).err().unwrap();
    assert_eq!(resp.status.code(), 400);
    assert_eq!(resp.headers, json_headers());
    assert_eq!(
        resp.body,
        "{\"message\":\"invalid data: invalid utf-8 sequence of 1 bytes from index 2\"}"
    );
}

#[test]
fn body_text_is_decoded() {
    let text = decode_body(vec![0xc3, 0xa9, 0x21]).ok().unwrap();
    assert_eq!(text, "\u{e9}!");
}

#[test]
fn unsupported_method_names_the_supported_ones() {
    let mut svc = service();
    let mut devices = DeviceRegistry::new();
    let resp = reply(svc.call(&mut devices, Method::Patch, "/secrets/x", None));
    assert_eq!(resp.status, StatusCode::MethodNotAllowed);
    assert_eq!(resp.status.code(), 405);
    assert_eq!(
        resp.headers,
        vec![
            (String::from("Content-Type"), String::from("application/json")),
            (String::from("Allow"), String::from("GET, POST, PUT, DELETE")),
        ]
    );
    assert_eq!(resp.body, "{\"message\":\"method not allowed\"}");
}

#[test]
fn unsupported_method_is_still_counted() {
    let mut svc = service();
    let mut devices = DeviceRegistry::new();
    reply(svc.call(&mut devices, Method::Options, "/secrets/x", Some("device_id=d1")));
    let seen = devices.snapshot();
    assert_eq!(seen.len(), 1);
    assert_eq!(seen[0].device_id(), "d1");
}

#[test]
fn unknown_route_is_not_found() {
    let mut svc = service();
    let mut devices = DeviceRegistry::new();
    let resp = reply(svc.call(&mut devices, Method::Get, "/unknown", None));
    assert_eq!(resp.status, StatusCode::NotFound);
    assert_eq!(resp.status.code(), 404);
    assert_eq!(resp.body, "{\"message\":\"API not found\"}");
    assert!(devices.snapshot().is_empty());
}

#[test]
fn empty_path_is_not_found() {
    let mut svc = service();
    let mut devices = DeviceRegistry::new();
    let resp = reply(svc.call(&mut devices, Method::Get, "/", None));
    assert_eq!(resp.status.code(), 404);
    let resp = reply(svc.call(&mut devices, Method::Delete, "", None));
    assert_eq!(resp.status.code(), 404);
}

#[test]
fn get_all_lists_every_secret_once() {
    let mut svc = service();
    let mut devices = DeviceRegistry::new();
    let empty = reply(svc.call(&mut devices, Method::Get, "/secrets", None));
    assert_eq!(empty.status.code(), 200);
    assert_eq!(empty.body, "[]");

    svc.store(Ok(secret("a.org", "ann", "1")));
    let one = reply(svc.call(&mut devices, Method::Get, "/secrets/", None));
    assert_eq!(
        one.body,
        "[{\"type\":\"password\",\"domain\":\"a.org\",\"username\":\"ann\",\"password\":\"1\"}]"
    );

    svc.store(Ok(secret("b.org", "bob", "2")));
    svc.store(Ok(secret("a.org", "amy", "3")));
    let two = reply(svc.call(&mut devices, Method::Get, "/secrets", None));
    assert_eq!(two.status.code(), 200);
    assert_eq!(two.headers, json_headers());
    assert_eq!(
        two.body,
        "[{\"type\":\"password\",\"domain\":\"a.org\",\"username\":\"amy\",\"password\":\"3\"},\
         {\"type\":\"password\",\"domain\":\"b.org\",\"username\":\"bob\",\"password\":\"2\"}]"
    );
}

#[test]
fn the_body_names_the_domain_that_is_stored() {
    let mut svc = service();
    let mut devices = DeviceRegistry::new();
    let put = svc.call(&mut devices, Method::Put, "/secrets/path.example", None);
    assert!(matches!(put, Outcome::ReadBody));
    svc.store(Ok(secret("body.example", "u", "p")));
    let by_path = reply(svc.call(&mut devices, Method::Get, "/secrets/path.example", None));
    assert_eq!(by_path.status.code(), 404);
    let by_body = reply(svc.call(&mut devices, Method::Get, "/secrets/body.example", None));
    assert_eq!(by_body.status.code(), 200);
}

#[test]
fn delete_of_an_absent_domain_is_not_found() {
    let mut svc = service();
    let mut devices = DeviceRegistry::new();
    let resp = reply(svc.call(&mut devices, Method::Delete, "/secrets/nowhere", None));
    assert_eq!(resp.status.code(), 404);
    assert_eq!(resp.body, "{\"message\":\"domain not found\"}");
    let resp = reply(svc.call(&mut devices, Method::Delete, "/secrets", None));
    assert_eq!(resp.status.code(), 404);
}

#[test]
fn messages_are_escaped_as_json_strings() {
    let mut svc = service();
    let resp = svc.store(Err(String::from("a \"quoted\" word\n")));
    assert_eq!(
        resp.body,
        "{\"message\":\"invalid json: a \\\"quoted\\\" word\\n\"}"
    );
    svc.store(Ok(secret("q\"d", "back\\slash", "tab\there")));
    let mut devices = DeviceRegistry::new();
    let got = reply(svc.call(&mut devices, Method::Get, "/secrets/q\"d", None));
    assert_eq!(
        got.body,
        "{\"type\":\"password\",\"domain\":\"q\\\"d\",\"username\":\"back\\\\slash\",\"password\":\"tab\\there\"}"
    );
}

#[test]
fn devices_route_lists_the_registry() {
    let mut svc = service();
    let mut devices = DeviceRegistry::new();
    let none = reply(svc.call(&mut devices, Method::Get, "/devices", None));
    assert_eq!(none.status.code(), 200);
    assert_eq!(none.headers, json_headers());
    assert_eq!(none.body, "[]");

    reply(svc.call(&mut devices, Method::Get, "/secrets", Some("device_id=phone")));
    let mut other = SecretService::new(String::from("10.0.0.7"), MemStorage::new());
    reply(other.call(&mut devices, Method::Get, "/secrets", Some("device_id=phone")));
    reply(other.call(&mut devices, Method::Get, "/secrets", None));
    let listed = reply(svc.call(&mut devices, Method::Get, "/devices", None));
    assert_eq!(
        listed.body,
        "[{\"device_id\":\"phone\",\"observed_addresses\":[\"127.0.0.1\",\"10.0.0.7\"]},\
         {\"device_id\":\"unknown\",\"observed_addresses\":[\"10.0.0.7\"]}]"
    );
    assert_eq!(devices.snapshot().len(), 2);
}

#[test]
fn devices_route_supports_get_only() {
    let mut svc = service();
    let mut devices = DeviceRegistry::new();
    let resp = reply(svc.call(&mut devices, Method::Post, "/devices", None));
    assert_eq!(resp.status.code(), 405);
    assert!(devices.snapshot().is_empty());
}

#[test]
fn each_secrets_request_is_counted_once() {
    let mut svc = service();
    let mut devices = DeviceRegistry::new();
    reply(svc.call(&mut devices, Method::Get, "/secrets/a", Some("device_id=d1")));
    reply(svc.call(&mut devices, Method::Delete, "/secrets/a", Some("device_id=d2")));
    svc.call(&mut devices, Method::Put, "/secrets/a", Some("device_id=d3"));
    svc.store(Ok(secret("a", "u", "p")));
    let seen = devices.snapshot();
    assert_eq!(seen.len(), 3);
    for device in seen.iter() {
        assert_eq!(device.observed_addresses(), &vec![String::from("127.0.0.1")]);
    }
}
