use breakfast::health::{health_port, health_request, is_healthy_response, status_line, NoVerifier};

#[test]
fn healthy_response_http_1_1_200_ok() {
    assert!(is_healthy_response("HTTP/1.1 200 OK\r\n\r\n{\"up\":true}"));
}

#[test]
fn healthy_response_http_1_0_200_ok() {
    assert!(is_healthy_response("HTTP/1.0 200 OK\r\n\r\n{\"up\":true}"));
}

#[test]
fn healthy_response_200_with_extra_headers() {
    let resp = "HTTP/1.1 200 OK\r\nContent-Type: application/json\r\n\r\n{\"up\":true}";
    assert!(is_healthy_response(resp));
}

#[test]
fn unhealthy_response_503() {
    assert!(!is_healthy_response(
        "HTTP/1.1 503 Service Unavailable\r\n\r\n{\"up\":false}"
    ));
}

#[test]
fn unhealthy_response_500() {
    assert!(!is_healthy_response("HTTP/1.1 500 Internal Server Error\r\n\r\n"));
}

#[test]
fn unhealthy_response_404() {
    assert!(!is_healthy_response("HTTP/1.1 404 Not Found\r\n\r\n"));
}

#[test]
fn unhealthy_response_empty() {
    assert!(!is_healthy_response(""));
}

#[test]
fn unhealthy_response_garbage() {
    assert!(!is_healthy_response("not an HTTP response at all"));
}

#[test]
fn unhealthy_response_partial_status() {
    assert!(!is_healthy_response("HTTP/1.1 "));
}

#[test]
fn healthy_response_201_is_not_healthy() {
    assert!(!is_healthy_response("HTTP/1.1 201 Created\r\n\r\n"));
}

#[test]
fn status_line_extracts_first_line() {
    let resp = "HTTP/1.1 503 Service Unavailable\r\nContent-Type: text/plain\r\n\r\nbody";
    assert_eq!(status_line(resp), "HTTP/1.1 503 Service Unavailable");
}

#[test]
fn status_line_returns_empty_marker_for_empty_string() {
    assert_eq!(status_line(""), "(empty)");
}

#[test]
fn status_line_single_line_response() {
    assert_eq!(status_line("HTTP/1.1 200 OK"), "HTTP/1.1 200 OK");
}

#[test]
fn status_line_of_bare_line_feeds() {
    assert_eq!(status_line("HTTP/1.1 404 Not Found\nx"), "HTTP/1.1 404 Not Found");
    assert_eq!(status_line("\r\n"), "");
}

fn schemes() -> Vec<rustls::SignatureScheme> {
    NoVerifier
        .supported_verify_schemes()
        .into_iter()
        .map(rustls::SignatureScheme::from)
        .collect()
}

#[test]
fn no_verifier_supported_schemes_includes_rsa() {
    let schemes = schemes();
    assert!(schemes.contains(&rustls::SignatureScheme::RSA_PKCS1_SHA256));
    assert!(schemes.contains(&rustls::SignatureScheme::RSA_PKCS1_SHA384));
    assert!(schemes.contains(&rustls::SignatureScheme::RSA_PKCS1_SHA512));
    assert!(schemes.contains(&rustls::SignatureScheme::RSA_PSS_SHA256));
    assert!(schemes.contains(&rustls::SignatureScheme::RSA_PSS_SHA384));
    assert!(schemes.contains(&rustls::SignatureScheme::RSA_PSS_SHA512));
}

#[test]
fn no_verifier_supported_schemes_includes_ecdsa() {
    let schemes = schemes();
    assert!(schemes.contains(&rustls::SignatureScheme::ECDSA_NISTP256_SHA256));
    assert!(schemes.contains(&rustls::SignatureScheme::ECDSA_NISTP384_SHA384));
    assert!(schemes.contains(&rustls::SignatureScheme::ECDSA_NISTP521_SHA512));
}

#[test]
fn no_verifier_supported_schemes_includes_eddsa() {
    let schemes = schemes();
    assert!(schemes.contains(&rustls::SignatureScheme::ED25519));
    assert!(schemes.contains(&rustls::SignatureScheme::ED448));
}

#[test]
fn no_verifier_supported_schemes_has_expected_count() {
    let schemes = NoVerifier.supported_verify_schemes();
    assert_eq!(schemes.len(), 11, "should support exactly 11 signature schemes, got {}", schemes.len());
}

#[test]
fn no_verifier_is_debug() {
    let debug_str = format!("{:?}", NoVerifier);
    assert_eq!(debug_str, "NoVerifier");
}

#[test]
fn health_request_names_the_host() {
    assert_eq!(
        health_request("localhost"),
        "GET /health HTTP/1.1\r\nHost: localhost\r\nConnection: close\r\n\r\n"
    );
}

#[test]
fn health_port_reads_a_configured_port() {
    assert_eq!(health_port(Some("9090")), 9090);
    assert_eq!(health_port(Some("+443")), 443);
    assert_eq!(health_port(Some("65535")), 65535);
}

#[test]
fn health_port_falls_back_to_8080() {
    assert_eq!(health_port(None), 8080);
    assert_eq!(health_port(Some("")), 8080);
    assert_eq!(health_port(Some("abc")), 8080);
    assert_eq!(health_port(Some("65536")), 8080);
    assert_eq!(health_port(Some("-1")), 8080);
    assert_eq!(health_port(Some(" 80")), 8080);
    assert_eq!(health_port(Some("99999999999999999999999")), 8080);
}
