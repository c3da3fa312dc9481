use hello_wasm::routes::{get_routes, greet_endpoint, handle_request, hello_endpoint};

#[test]
fn hello_body() {
    assert_eq!(hello_endpoint(), "{\"message\":\"World\"}");
}

#[test]
fn greet_body() {
    assert_eq!(greet_endpoint("Ana"), "{\"greeting\":\"Hello\",\"name\":\"Ana\"}");
}

#[test]
fn greet_body_escapes_name() {
    assert_eq!(greet_endpoint("a\"b\\c"), "{\"greeting\":\"Hello\",\"name\":\"a\\\"b\\\\c\"}");
}

#[test]
fn routes_list() {
    assert_eq!(get_routes(), "[\"/hello\",\"/greet/{name}\"]");
}

#[test]
fn request_hello_ignores_params() {
    assert_eq!(handle_request("/hello", "David"), "{\"message\":\"World\"}");
}

#[test]
fn request_greet_with_name() {
    assert_eq!(
        handle_request("/greet/{name}", "{\"name\":\"Ana\"}"),
        "source: /greet/{name} params: {\"name\":\"Ana\"} result: {\"greeting\":\"Hello\",\"name\":\"Ana\"}"
    );
}

#[test]
fn request_greet_params_in_key_order() {
    assert_eq!(
        handle_request("/greet/{name}", "{\"z\":\"1\",\"name\":\"Bo\"}"),
        "source: /greet/{name} params: {\"name\":\"Bo\",\"z\":\"1\"} result: {\"greeting\":\"Hello\",\"name\":\"Bo\"}"
    );
}

#[test]
fn request_greet_without_name_is_guest() {
    assert_eq!(
        handle_request("/greet/{name}", "{}"),
        "source: /greet/{name} params: {} result: {\"greeting\":\"Hello\",\"name\":\"Guest\"}"
    );
}

#[test]
fn request_greet_malformed_params_default_to_empty() {
    assert_eq!(
        handle_request("/greet/{name}", "not json"),
        "source: /greet/{name} params: {} result: {\"greeting\":\"Hello\",\"name\":\"Guest\"}"
    );
    assert_eq!(
        handle_request("/greet/{name}", "{\"name\":3}"),
        "source: /greet/{name} params: {} result: {\"greeting\":\"Hello\",\"name\":\"Guest\"}"
    );
}

#[test]
fn request_unknown_route_is_error_object() {
    assert_eq!(handle_request("/nope", "{}"), "{\"error\":\"Not Found\"}");
}
