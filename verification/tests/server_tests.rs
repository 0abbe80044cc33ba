use breakfast::config::default_http_redirect_port;
use breakfast::server::{
    check_startup_settings, cors_origin, https_redirect_location, keep_revoked_token,
    prune_stale_attempts, StartupSettings, FRONTEND_DIR, TOKEN_CLEANUP_INTERVAL_SECS,
};
use std::time::Duration;

#[test]
fn frontend_dir_constant_is_correct() {
    assert_eq!(FRONTEND_DIR, "frontend/dist");
}

#[test]
fn token_cleanup_interval_is_one_hour() {
    assert_eq!(Duration::from_secs(TOKEN_CLEANUP_INTERVAL_SECS), Duration::from_secs(3600));
}

#[test]
fn default_http_redirect_port_is_80() {
    assert_eq!(default_http_redirect_port(), 80);
}

#[test]
fn redirect_handler_returns_301_with_location() {
    assert_eq!(
        https_redirect_location(Some("example.com:80"), Some("/some/path?q=1"), 8080),
        Some("https://example.com:8080/some/path?q=1".to_string())
    );
}

#[test]
fn redirect_handler_omits_port_for_443() {
    assert_eq!(
        https_redirect_location(Some("example.com"), Some("/"), 443),
        Some("https://example.com/".to_string())
    );
}

#[test]
fn redirect_handler_uses_localhost_when_no_host_header() {
    assert_eq!(
        https_redirect_location(None, Some("/x"), 8443),
        Some("https://localhost:8443/x".to_string())
    );
}

#[test]
fn redirect_handler_preserves_root_path() {
    assert_eq!(
        https_redirect_location(Some("example.com"), None, 8080),
        Some("https://example.com:8080/".to_string())
    );
}

#[test]
fn redirect_refuses_suspicious_hosts() {
    assert_eq!(https_redirect_location(Some("evil.com/x"), Some("/"), 443), None);
    assert_eq!(https_redirect_location(Some("ex ample"), Some("/"), 443), None);
    assert_eq!(https_redirect_location(Some("\u{e9}.com"), Some("/"), 443), None);
}

#[test]
fn cors_origin_replaces_wildcard_address() {
    assert_eq!(cors_origin("0.0.0.0", 8080), "https://localhost:8080");
    assert_eq!(cors_origin("breakfast.local", 443), "https://breakfast.local:443");
}

fn settings(prod: bool, secret: &str, jwt: &str) -> StartupSettings {
    StartupSettings {
        is_production: prod,
        secret: secret.to_string(),
        jwtsecret: jwt.to_string(),
        pg_user: Some("app".to_string()),
        pg_password: Some("pw".to_string()),
        pg_host: None,
    }
}

#[test]
fn production_refuses_default_secrets() {
    let jwt = "j".repeat(32);
    assert!(check_startup_settings(&settings(true, "Very Secret", &jwt)).unwrap_err().contains("Server secret"));
    assert!(check_startup_settings(&settings(true, "", &jwt)).unwrap_err().contains("Server secret"));
    assert!(check_startup_settings(&settings(true, "s", "Very Secret")).unwrap_err().contains("JWT secret must be changed"));
    assert_eq!(
        check_startup_settings(&settings(true, "s", "short")).unwrap_err(),
        "FATAL: JWT secret must be at least 32 characters in production. Current length: 5"
    );
    assert!(check_startup_settings(&settings(true, &jwt, &jwt)).unwrap_err().contains("must be different"));
    assert_eq!(check_startup_settings(&settings(true, "s", &jwt)).unwrap(), Vec::<String>::new());
}

#[test]
fn production_refuses_default_database_settings() {
    let jwt = "j".repeat(32);
    let mut s = settings(true, "s", &jwt);
    s.pg_user = None;
    assert!(check_startup_settings(&s).unwrap_err().contains("Database user"));
    s.pg_user = Some("app".to_string());
    s.pg_password = Some(String::new());
    assert!(check_startup_settings(&s).unwrap_err().contains("Database password"));
    s.pg_password = Some("pw".to_string());
    s.pg_host = Some("pick.a.proper.hostname".to_string());
    assert!(check_startup_settings(&s).unwrap_err().contains("Database host"));
}

#[test]
fn development_only_warns() {
    let mut s = settings(false, "Very Secret", "Very Secret");
    s.pg_user = None;
    s.pg_password = None;
    assert_eq!(
        check_startup_settings(&s).unwrap(),
        vec![
            "Using default server secret — acceptable for development only".to_string(),
            "Using default JWT secret — acceptable for development only".to_string(),
            "Using default database credentials — acceptable for development only".to_string(),
        ]
    );
}

#[test]
fn cleanups_drop_stale_entries() {
    let now: i128 = 10_000 * 1_000_000_000;
    let mut v = vec![now - 901 * 1_000_000_000, now - 10];
    assert!(prune_stale_attempts(&mut v, now));
    assert_eq!(v, vec![now - 10]);
    let mut old = vec![0i128];
    assert!(!prune_stale_attempts(&mut old, now));
    assert!(keep_revoked_token(now + 1, now));
    assert!(!keep_revoked_token(now, now));
}

#[test]
fn png_files_give_avatar_names() {
    let png_stem = breakfast::server::png_stem;
    assert_eq!(png_stem("alice.png"), Some("alice".to_string()));
    assert_eq!(png_stem("Bob.PNG"), Some("Bob".to_string()));
    assert_eq!(png_stem("a.b.Png"), Some("a.b".to_string()));
    assert_eq!(png_stem(".png"), None);
    assert_eq!(png_stem("notes.txt"), None);
    assert_eq!(png_stem("png"), None);
    assert_eq!(png_stem("x.pngg"), None);
    assert_eq!(png_stem(".."), None);
    for name in ["alice.png", "Bob.PNG", "a.b.Png", ".png", "notes.txt", "png", "x.pngg", "x."] {
        let p = std::path::Path::new(name);
        let expected = if p.extension().is_some_and(|e| e.eq_ignore_ascii_case("png")) {
            p.file_stem().and_then(|s| s.to_str()).map(str::to_string)
        } else {
            None
        };
        assert_eq!(png_stem(name), expected, "{name}");
    }
}
