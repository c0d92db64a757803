//! HTTP formatting around the session store: a fixed security-header set
//! and a four-way routing table, both pinned down as sequence specs.

use vstd::prelude::*;
use vstd::string::StrSliceExecFns;
use vstd::string::StringSliceAdditionalSpecFns;

verus! {

/// One HTTP header: a name and a value.
pub struct HeaderField(pub String, pub String);

/// An incoming HTTP request.
pub struct HttpRequest {
    pub method: String,
    pub url: String,
    pub headers: Vec<HeaderField>,
    pub body: Vec<u8>,
}

/// An outgoing HTTP response.
pub struct HttpResponse {
    pub status_code: u16,
    pub headers: Vec<HeaderField>,
    pub body: Vec<u8>,
}

/// The name/value views of a header list.
pub open spec fn header_views(hs: Seq<HeaderField>) -> Seq<(Seq<char>, Seq<char>)> {
    hs.map_values(|h: HeaderField| (h.0@, h.1@))
}

/// The seven fixed security headers carried by every response.
pub open spec fn security_header_views() -> Seq<(Seq<char>, Seq<char>)> {
    seq![
        (
            "Content-Security-Policy"@,
            "default-src 'self' 'unsafe-eval' 'unsafe-inline' https://identity.ic0.app blob:; connect-src 'self' https://identity.ic0.app https://*.ic0.app http://localhost:* https://ic0.app https://*.ic0.app; img-src 'self' data: blob:; script-src 'self' 'unsafe-eval' 'unsafe-inline' blob: https://identity.ic0.app; style-src 'self' 'unsafe-inline'; frame-src 'self' https://identity.ic0.app blob:;"@,
        ),
        ("X-Frame-Options"@, "DENY"@),
        ("X-Content-Type-Options"@, "nosniff"@),
        ("Strict-Transport-Security"@, "max-age=31536000; includeSubDomains"@),
        ("Access-Control-Allow-Origin"@, "*"@),
        ("Access-Control-Allow-Methods"@, "GET, POST, OPTIONS"@),
        ("Access-Control-Allow-Headers"@, "Content-Type, Authorization"@),
    ]
}

/// The status code of the routing table.
pub open spec fn spec_route_status(method: Seq<char>, url: Seq<char>) -> u16 {
    if method == "GET"@ && url == "/"@ {
        200u16
    } else if method == "POST"@ && url == "/login"@ {
        200u16
    } else if method == "OPTIONS"@ {
        204u16
    } else {
        404u16
    }
}

/// The body of the routing table, as UTF-8 bytes.
pub open spec fn spec_route_body(method: Seq<char>, url: Seq<char>) -> Seq<u8> {
    if method == "GET"@ && url == "/"@ {
        "Welcome to my canister!".spec_bytes()
    } else if method == "POST"@ && url == "/login"@ {
        "{\"status\": \"Please use the login() method instead\"}".spec_bytes()
    } else if method == "OPTIONS"@ {
        Seq::<u8>::empty()
    } else {
        "Not Found".spec_bytes()
    }
}

/// The header list of the routing table: the fixed security headers, plus
/// a Content-Type on every route but the preflight one.
pub open spec fn spec_route_headers(method: Seq<char>, url: Seq<char>) -> Seq<
    (Seq<char>, Seq<char>),
> {
    if method == "GET"@ && url == "/"@ {
        security_header_views().push(("Content-Type"@, "text/plain"@))
    } else if method == "POST"@ && url == "/login"@ {
        security_header_views().push(("Content-Type"@, "application/json"@))
    } else if method == "OPTIONS"@ {
        security_header_views()
    } else {
        security_header_views().push(("Content-Type"@, "text/plain"@))
    }
}

/// Compares a string against a literal, by view.
fn string_is(s: &String, lit: &str) -> (r: bool)
    ensures
        r == (s@ == lit@),
{
    *s == lit.to_owned()
}

/// Builds the seven fixed security headers, in their documented order.
pub fn get_security_headers() -> (r: Vec<HeaderField>)
    ensures
        header_views(r@) == security_header_views(),
{
    let mut r: Vec<HeaderField> = Vec::new();
    r.push(HeaderField(
        "Content-Security-Policy".to_owned(),
        "default-src 'self' 'unsafe-eval' 'unsafe-inline' https://identity.ic0.app blob:; connect-src 'self' https://identity.ic0.app https://*.ic0.app http://localhost:* https://ic0.app https://*.ic0.app; img-src 'self' data: blob:; script-src 'self' 'unsafe-eval' 'unsafe-inline' blob: https://identity.ic0.app; style-src 'self' 'unsafe-inline'; frame-src 'self' https://identity.ic0.app blob:;".to_owned(),
    ));
    r.push(HeaderField("X-Frame-Options".to_owned(), "DENY".to_owned()));
    r.push(HeaderField("X-Content-Type-Options".to_owned(), "nosniff".to_owned()));
    r.push(HeaderField(
        "Strict-Transport-Security".to_owned(),
        "max-age=31536000; includeSubDomains".to_owned(),
    ));
    r.push(HeaderField("Access-Control-Allow-Origin".to_owned(), "*".to_owned()));
    r.push(HeaderField("Access-Control-Allow-Methods".to_owned(), "GET, POST, OPTIONS".to_owned()));
    r.push(HeaderField(
        "Access-Control-Allow-Headers".to_owned(),
        "Content-Type, Authorization".to_owned(),
    ));
    proof {
        assert(header_views(r@) =~= security_header_views());
    }
    r
}

/// Routes a request: `GET /` greets, `POST /login` points at the login
/// method, `OPTIONS` answers the CORS preflight, anything else is 404; all
/// four answers carry the fixed security headers.
pub fn http_request(request: HttpRequest) -> (r: HttpResponse)
    ensures
        r.status_code == spec_route_status(request.method@, request.url@),
        r.body@ == spec_route_body(request.method@, request.url@),
        header_views(r.headers@) == spec_route_headers(request.method@, request.url@),
{
    let mut headers = get_security_headers();
    if string_is(&request.method, "GET") && string_is(&request.url, "/") {
        headers.push(HeaderField("Content-Type".to_owned(), "text/plain".to_owned()));
        proof {
            assert(header_views(headers@) =~= spec_route_headers(
                request.method@,
                request.url@,
            ));
        }
        HttpResponse {
            status_code: 200,
            headers,
            body: "Welcome to my canister!".as_bytes_vec(),
        }
    } else if string_is(&request.method, "POST") && string_is(&request.url, "/login") {
        headers.push(HeaderField("Content-Type".to_owned(), "application/json".to_owned()));
        proof {
            assert(header_views(headers@) =~= spec_route_headers(
                request.method@,
                request.url@,
            ));
        }
        HttpResponse {
            status_code: 200,
            headers,
            body: "{\"status\": \"Please use the login() method instead\"}".as_bytes_vec(),
        }
    } else if string_is(&request.method, "OPTIONS") {
        let body: Vec<u8> = Vec::new();
        assert(body@ =~= Seq::<u8>::empty());
        HttpResponse { status_code: 204, headers, body }
    } else {
        headers.push(HeaderField("Content-Type".to_owned(), "text/plain".to_owned()));
        proof {
            assert(header_views(headers@) =~= spec_route_headers(
                request.method@,
                request.url@,
            ));
        }
        HttpResponse { status_code: 404, headers, body: "Not Found".as_bytes_vec() }
    }
}

/// Answers a CORS preflight: a bare 204 carrying only the fixed security
/// headers.
pub fn http_request_options(_request: HttpRequest) -> (r: HttpResponse)
    ensures
        r.status_code == 204,
        r.body@ == Seq::<u8>::empty(),
        header_views(r.headers@) == security_header_views(),
{
    let headers = get_security_headers();
    let body: Vec<u8> = Vec::new();
    assert(body@ =~= Seq::<u8>::empty());
    HttpResponse { status_code: 204, headers, body }
}

} // verus!
