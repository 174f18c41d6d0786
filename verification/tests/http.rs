use secret_store::error::{ErrorInfo, Failure, StorageError};
use secret_store::http::{empty_response, json, json_builder, json_ok, Method, StatusCode};
use secret_store::json::ToJson;
use secret_store::routing::{route, Route};
use secret_store::service::{
    delete_response, listing_response, lookup_response, method_not_allowed, stored_response,
};
use secret_store::storage::Secret;
use secret_store::text::{chars_of, same_text};

#[test]
fn error_payload_is_a_message_object() {
    let info = ErrorInfo::new("Domain not found");
    assert_eq!(info.json(), "{\"message\":\"Domain not found\"}");
    assert_eq!(info.body(), "{\"message\":\"Domain not found\"}");
    assert_eq!(info.to_json(), "{\"message\":\"Domain not found\"}");
    assert_eq!(ErrorInfo::new("").json(), "{\"message\":\"\"}");
    assert_eq!(ErrorInfo::new("a\"b").json(), "{\"message\":\"a\\\"b\"}");
}

#[test]
fn error_response_carries_status_and_payload() {
    let resp = ErrorInfo::new("nope").resp(StatusCode::NotFound);
    assert_eq!(resp.status, StatusCode::NotFound);
    assert_eq!(
        resp.headers,
        vec![(String::from("Content-Type"), String::from("application/json"))]
    );
    assert_eq!(resp.body, "{\"message\":\"nope\"}");
}

#[test]
fn status_codes_have_their_numbers() {
    assert_eq!(StatusCode::Success.code(), 200);
    assert_eq!(StatusCode::NoContent.code(), 204);
    assert_eq!(StatusCode::BadRequest.code(), 400);
    assert_eq!(StatusCode::NotFound.code(), 404);
    assert_eq!(StatusCode::MethodNotAllowed.code(), 405);
    assert_eq!(StatusCode::InternalServerError.code(), 500);
}

#[test]
fn json_responses() {
    let value = String::from("hi");
    let resp = json(&value, StatusCode::BadRequest);
    assert_eq!(resp.status, StatusCode::BadRequest);
    assert_eq!(resp.body, "\"hi\"");
    let ok = json_ok(&value);
    assert_eq!(ok.status, StatusCode::Success);
    assert_eq!(ok.body, "\"hi\"");
    assert_eq!(ok.headers.len(), 1);
    let built = json_builder(StatusCode::InternalServerError);
    assert_eq!(built.status, StatusCode::InternalServerError);
    assert_eq!(built.headers.len(), 1);
    assert_eq!(built.body, "");
    let empty = empty_response();
    assert_eq!(empty.status, StatusCode::NoContent);
    assert!(empty.headers.is_empty());
    assert_eq!(empty.body, "");
}

#[test]
fn methods_are_named_in_upper_case() {
    assert_eq!(Method::from_name("GET"), Method::Get);
    assert_eq!(Method::from_name("HEAD"), Method::Head);
    assert_eq!(Method::from_name("POST"), Method::Post);
    assert_eq!(Method::from_name("PUT"), Method::Put);
    assert_eq!(Method::from_name("DELETE"), Method::Delete);
    assert_eq!(Method::from_name("CONNECT"), Method::Connect);
    assert_eq!(Method::from_name("OPTIONS"), Method::Options);
    assert_eq!(Method::from_name("TRACE"), Method::Trace);
    assert_eq!(Method::from_name("PATCH"), Method::Patch);
    assert_eq!(Method::from_name("get"), Method::Extension);
    assert_eq!(Method::from_name("PURGE"), Method::Extension);
    assert_eq!(Method::from_name(""), Method::Extension);
}

fn domain_of(path: &str) -> Option<String> {
    match route(path) {
        Route::Secrets(domain) => Some(domain),
        _ => None,
    }
}

#[test]
fn routes() {
    assert!(matches!(route("/devices"), Route::Devices));
    assert!(matches!(route("devices"), Route::Devices));
    assert!(matches!(route("/devices/more"), Route::Devices));
    assert!(matches!(route("/unknown"), Route::Unknown));
    assert!(matches!(route("/secretsx"), Route::Unknown));
    assert!(matches!(route("/Secrets"), Route::Unknown));
    assert!(matches!(route("/"), Route::Unknown));
    assert!(matches!(route(""), Route::Unknown));
    assert_eq!(domain_of("/secrets"), Some(String::new()));
    assert_eq!(domain_of("/secrets/"), Some(String::new()));
    assert_eq!(domain_of("/secrets/example.com"), Some(String::from("example.com")));
    assert_eq!(domain_of("///secrets/example.com"), Some(String::from("example.com")));
    assert_eq!(domain_of("/secrets/a/b"), Some(String::from("a")));
    assert_eq!(domain_of("/secrets//b"), Some(String::new()));
    assert_eq!(domain_of("/secrets/d\u{e9}j\u{e0}.fr"), Some(String::from("d\u{e9}j\u{e0}.fr")));
}

#[test]
fn text_helpers() {
    assert!(same_text("abc", "abc"));
    assert!(!same_text("abc", "abd"));
    assert!(!same_text("abc", "ab"));
    assert_eq!(chars_of("h\u{e9}!"), vec!['h', '\u{e9}', '!']);
    assert!(chars_of("").is_empty());
}

#[test]
fn storage_failures_are_reported_with_status_500() {
    let resp = listing_response::<StorageError>(Err(StorageError::new(String::from("pool timed out"))));
    assert_eq!(resp.status.code(), 500);
    assert_eq!(resp.body, "{\"message\":\"storage error: pool timed out\"}");
    let resp = lookup_response::<StorageError>(Err(StorageError::new(String::from("x"))));
    assert_eq!(resp.status.code(), 500);
    assert_eq!(resp.body, "{\"message\":\"storage error: x\"}");
    let resp = stored_response::<StorageError>(Err(StorageError::new(String::from("y"))));
    assert_eq!(resp.status.code(), 500);
    assert_eq!(resp.body, "{\"message\":\"storage error: y\"}");
    let resp = delete_response::<StorageError>(Err(StorageError::new(String::from("z"))));
    assert_eq!(resp.status.code(), 500);
    assert_eq!(resp.body, "{\"message\":\"Storage error: z\"}");
}

#[test]
fn storage_results_are_turned_into_responses() {
    let none: Vec<Secret> = Vec::new();
    assert_eq!(listing_response::<StorageError>(Ok(none)).body, "[]");
    assert_eq!(lookup_response::<StorageError>(Ok(None)).status.code(), 404);
    assert_eq!(stored_response::<StorageError>(Ok(())).status.code(), 204);
    assert_eq!(delete_response::<StorageError>(Ok(true)).status.code(), 204);
    assert_eq!(delete_response::<StorageError>(Ok(false)).status.code(), 404);
    assert_eq!(method_not_allowed().status.code(), 405);
}

#[test]
fn storage_error_keeps_its_detail() {
    let error = StorageError::new(String::from("connection refused"));
    assert_eq!(error.detail(), "connection refused");
    assert_eq!(error.detail, "connection refused");
}
