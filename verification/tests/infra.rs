use sisi::infra::{http_200, path_of, route, HEALTH_BODY, HTTP_200_HEALTH, HTTP_404};

#[test]
fn route_should_return_200_for_health_path() {
    let response = route("GET /health HTTP/1.1");
    assert!(response.starts_with("HTTP/1.1 200 OK"));
}

#[test]
fn route_should_return_json_body_for_health_path() {
    let response = route("GET /health HTTP/1.1");
    assert!(response.contains(r#"{"status":"ok"}"#));
}

#[test]
fn route_should_return_404_for_unknown_path() {
    let response = route("GET /unknown HTTP/1.1");
    assert!(response.starts_with("HTTP/1.1 404 Not Found"));
}

#[test]
fn route_should_return_404_for_root_path() {
    let response = route("GET / HTTP/1.1");
    assert!(response.starts_with("HTTP/1.1 404 Not Found"));
}

#[test]
fn route_should_return_404_for_empty_request_line() {
    let response = route("");
    assert!(response.starts_with("HTTP/1.1 404 Not Found"));
}

#[test]
fn route_tolerates_extra_whitespace() {
    assert_eq!(route("  GET \t /health\r\n"), HTTP_200_HEALTH);
    assert_eq!(route("GET"), HTTP_404);
    assert_eq!(route("GET /health/ HTTP/1.1"), HTTP_404);
}

#[test]
fn path_of_takes_second_token() {
    assert_eq!(path_of("GET /a b"), "/a");
    assert_eq!(path_of("   "), "");
    assert_eq!(path_of("ONE"), "");
}

#[test]
fn http_200_only_for_health_body() {
    assert_eq!(http_200(HEALTH_BODY), HTTP_200_HEALTH);
    assert_eq!(http_200("other"), HTTP_404);
    assert!(HTTP_200_HEALTH.ends_with(r#"{"status":"ok"}"#));
    assert_eq!(HTTP_200_HEALTH.len() - HTTP_200_HEALTH.find("\r\n\r\n").unwrap() - 4, 15);
}
