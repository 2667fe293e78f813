use qc::endpoints::Endpoint;
use qc::auth::auth_header_values;
use qc::trace::latency_band;
use qc::transport::{http_error_message, is_soft_fail, is_success_status, method_name, request_url, HttpMethod};

#[test]
fn auth_header_values_match_known_digest() {
    let h = auth_header_values("u1", "tok", 1_700_000_000);
    assert_eq!(h.timestamp, "1700000000");
    assert_eq!(
        h.authorization,
        "Basic dTE6NDZhYmFkOTc5NGNjZDkzN2NkYmE5NzJmM2JjNDMxMTEwMDUxZGIzNWU4NDE4MDA5NTc5NmM3NmNlZjRkMDE0MQ=="
    );
}

#[test]
fn auth_header_values_change_with_time() {
    let a = auth_header_values("u1", "tok", 1);
    let b = auth_header_values("u1", "tok", 2);
    assert_eq!(a.timestamp, "1");
    assert_ne!(a.authorization, b.authorization);
    assert!(a.authorization.starts_with("Basic "));
}

#[test]
fn latency_bands_at_their_edges() {
    assert_eq!(latency_band(0), "fast");
    assert_eq!(latency_band(200), "fast");
    assert_eq!(latency_band(201), "ok");
    assert_eq!(latency_band(1_000), "ok");
    assert_eq!(latency_band(1_001), "warn");
    assert_eq!(latency_band(3_000), "warn");
    assert_eq!(latency_band(3_001), "slow");
    assert_eq!(latency_band(10_000), "slow");
    assert_eq!(latency_band(10_001), "veryslow");
}

#[test]
fn method_names_and_urls() {
    assert_eq!(method_name(HttpMethod::Get), "GET");
    assert_eq!(method_name(HttpMethod::Post), "POST");
    assert_eq!(method_name(HttpMethod::Put), "PUT");
    assert_eq!(method_name(HttpMethod::Delete), "DELETE");
    assert_eq!(method_name(HttpMethod::Other), "?");
    assert_eq!(
        request_url("https://www.quantconnect.com/api/v2", "/compile/read"),
        "https://www.quantconnect.com/api/v2/compile/read"
    );
}

#[test]
fn success_statuses() {
    assert!(is_success_status(200));
    assert!(is_success_status(299));
    assert!(!is_success_status(199));
    assert!(!is_success_status(300));
    assert!(!is_success_status(502));
}

#[test]
fn http_error_message_quotes_first_200_bytes() {
    let body = vec![b'x'; 250];
    let msg = http_error_message(HttpMethod::Post, "/projects/read", 502, &body);
    assert_eq!(msg, format!("qc POST /projects/read HTTP 502 body={}", "x".repeat(200)));
}

#[test]
fn http_error_message_decodes_lossily() {
    let body = [b'o', b'k', 0xff];
    let msg = http_error_message(HttpMethod::Get, "/a", 404, &body);
    assert_eq!(msg, "qc GET /a HTTP 404 body=ok\u{fffd}");
}

#[test]
fn soft_fail_detection() {
    assert!(is_soft_fail(br#"{"success":false,"errors":["x"]}"#));
    assert!(is_soft_fail(br#"{"SUCCESS":FALSE}"#));
    assert!(!is_soft_fail(br#"{"success":true}"#));
    assert!(!is_soft_fail(br#"{"success": false}"#));
    let mut big = br#"{"success":false}"#.to_vec();
    big.resize(4096, b' ');
    assert!(!is_soft_fail(&big));
    let mut just_under = br#"{"success":false}"#.to_vec();
    just_under.resize(4095, b' ');
    assert!(is_soft_fail(&just_under));
}

#[test]
fn endpoint_routes() {
    assert_eq!(Endpoint::CreateBacktest.route(), (HttpMethod::Post, "/backtests/create"));
    assert_eq!(Endpoint::ReadProject.route(), (HttpMethod::Get, "/projects/read"));
    assert_eq!(Endpoint::UpdateProjectNodes.route(), (HttpMethod::Put, "/projects/nodes/update"));
    assert_eq!(Endpoint::DeleteCollaborator.route(), (HttpMethod::Delete, "/projects/collaboration/delete"));
    assert_eq!(Endpoint::UpdateFileName.route(), Endpoint::UpdateFileContents.route());
    assert_eq!(Endpoint::UploadObject.route(), (HttpMethod::Post, "/object/set"));
}
