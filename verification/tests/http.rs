use auth_backend::http::{get_security_headers, http_request, http_request_options, HttpRequest};

const SECURITY_HEADER_NAMES: [&str; 7] = [
    "Content-Security-Policy",
    "X-Frame-Options",
    "X-Content-Type-Options",
    "Strict-Transport-Security",
    "Access-Control-Allow-Origin",
    "Access-Control-Allow-Methods",
    "Access-Control-Allow-Headers",
];

fn request(method: &str, url: &str) -> HttpRequest {
    HttpRequest {
        method: method.to_string(),
        url: url.to_string(),
        headers: Vec::new(),
        body: Vec::new(),
    }
}

#[test]
fn security_headers_names_and_values() {
    let headers = get_security_headers();
    assert_eq!(headers.len(), 7);
    for (h, name) in headers.iter().zip(SECURITY_HEADER_NAMES.iter()) {
        assert_eq!(h.0, *name);
    }
    assert_eq!(headers[1].1, "DENY");
    assert_eq!(headers[2].1, "nosniff");
    assert_eq!(headers[3].1, "max-age=31536000; includeSubDomains");
    assert_eq!(headers[4].1, "*");
    assert_eq!(headers[5].1, "GET, POST, OPTIONS");
    assert_eq!(headers[6].1, "Content-Type, Authorization");
    assert!(headers[0].1.starts_with("default-src 'self'"));
    assert!(headers[0].1.contains("https://identity.ic0.app"));
}

#[test]
fn http_routing_post_login() {
    let response = http_request(request("POST", "/login"));
    assert_eq!(response.status_code, 200);
    assert_eq!(
        response.body,
        b"{\"status\": \"Please use the login() method instead\"}".to_vec()
    );
    for name in SECURITY_HEADER_NAMES.iter() {
        assert!(response.headers.iter().any(|h| h.0 == *name));
    }
    assert_eq!(response.headers.len(), 8);
    assert_eq!(response.headers[7].0, "Content-Type");
    assert_eq!(response.headers[7].1, "application/json");
}

#[test]
fn http_routing_get_root() {
    let response = http_request(request("GET", "/"));
    assert_eq!(response.status_code, 200);
    assert_eq!(response.body, b"Welcome to my canister!".to_vec());
    assert_eq!(response.headers.len(), 8);
    assert_eq!(response.headers[7].0, "Content-Type");
    assert_eq!(response.headers[7].1, "text/plain");
}

#[test]
fn http_routing_options_preflight() {
    let response = http_request(request("OPTIONS", "/anything"));
    assert_eq!(response.status_code, 204);
    assert!(response.body.is_empty());
    assert_eq!(response.headers.len(), 7);
}

#[test]
fn http_routing_not_found() {
    let response = http_request(request("GET", "/missing"));
    assert_eq!(response.status_code, 404);
    assert_eq!(response.body, b"Not Found".to_vec());

    let response = http_request(request("DELETE", "/"));
    assert_eq!(response.status_code, 404);
    assert_eq!(response.body, b"Not Found".to_vec());
}

#[test]
fn http_options_entry_point() {
    let response = http_request_options(request("OPTIONS", "/"));
    assert_eq!(response.status_code, 204);
    assert!(response.body.is_empty());
    assert_eq!(response.headers.len(), 7);
    for (h, name) in response.headers.iter().zip(SECURITY_HEADER_NAMES.iter()) {
        assert_eq!(h.0, *name);
    }
}
