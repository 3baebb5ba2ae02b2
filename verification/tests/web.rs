use codex_mp::account::{AccountError, AccountTokens};
use codex_mp::digest::{constant_time_equal, document_sha256, fingerprint, hex};
use codex_mp::http::Headers;
use codex_mp::json::Json;
use codex_mp::json_text::parse_json;
use codex_mp::limiter::{
    LoginRateLimiter, LOGIN_MAX_ATTEMPTS_GLOBAL, LOGIN_MAX_ATTEMPTS_PER_IP, LOGIN_MAX_TRACKED_IPS,
    LOGIN_WINDOW,
};
use codex_mp::panel::{
    api_security_login, api_security_logout, api_security_status, api_security_update,
    auth_middleware, finish_login, finish_update, login_allowed, login_with, origin_is_loopback_or_null,
    update_with, UpdateSecurityRequest,
};
use codex_mp::panel_api::{
    added_capabilities, api_aware_fallback, asks_for_asset, asset_content_type, asset_path,
    bind_plan, catalog_binary, change_reply, choose_app_server, choose_build_metadata,
    imported_tokens, install_step, local_token, local_token_or, mutation_response,
    normalize_auth_strategy, normalize_optional_auth_strategy, outcome_reply, requested_edit,
    restart_reply, security_headers, starting_status, static_handler, usage_error_reply,
    InstallStage, InstallStep, StaticAnswer, WebError,
};
use codex_mp::passwords::{
    hash_password, password_hash_needs_upgrade, stored_hash, verify_password,
    PASSWORD_HASH_PREFIX,
};
use codex_mp::registry::{AuthStrategy, WebSecurity};
use codex_mp::service::IpAddress;
use codex_mp::sessions::{Session, Sessions, MAX_SESSIONS, SESSION_IDLE_TIMEOUT, SESSION_TTL};
use codex_mp::text::{decimal_of, join, parse_upto, split, split_once, trim};
use codex_mp::time::{civil_from_days, iso_timestamp};

const MILLI: u64 = 1_000_000;
const SECOND: u64 = 1_000_000_000;
const NOW: u64 = 100_000 * SECOND;
const LOCAL: IpAddress = IpAddress::V4(0x7f00_0001);
const REMOTE: IpAddress = IpAddress::V4(0x0a00_0005);

fn json(text: &str) -> Json {
    parse_json(text.as_bytes()).expect("valid JSON")
}

fn session(created: u64, last_seen: u64, hash: Option<&str>) -> Session {
    Session { created, last_seen, password_hash: hash.map(str::to_owned) }
}

fn security(web_enabled: bool, allow_remote: bool, hash: Option<&str>) -> WebSecurity {
    WebSecurity { web_enabled, allow_remote, password_hash: hash.map(str::to_owned), port: 31829 }
}

fn headers(entries: &[(&str, &str)]) -> Headers {
    Headers {
        entries: entries
            .iter()
            .map(|(name, value)| (name.to_string(), value.as_bytes().to_vec()))
            .collect(),
    }
}

fn legacy_hash(salt: &str, password: &str) -> String {
    format!("{salt}${}", document_sha256(format!("{salt}:{password}").as_bytes()))
}

#[test]
fn test_password_hash_and_verify() {
    let raw = "super-secret-123";
    let hash = hash_password(raw);
    assert!(hash.starts_with(PASSWORD_HASH_PREFIX));
    assert!(verify_password(raw, &hash));
    assert!(!verify_password("wrong-password", &hash));
    assert!(!password_hash_needs_upgrade(&hash));
}

#[test]
fn test_password_hash_is_salted() {
    let a = hash_password("same-password");
    let b = hash_password("same-password");
    assert_ne!(a, b);
    assert!(verify_password("same-password", &a));
    assert!(verify_password("same-password", &b));
}

#[test]
fn test_legacy_hash_still_verifies_and_is_flagged_for_upgrade() {
    let salt = "abcd1234";
    let digest = document_sha256(b"abcd1234:legacy-password");
    assert_eq!(digest.len(), 64);
    let legacy = format!("{salt}${digest}");
    assert!(verify_password("legacy-password", &legacy));
    assert!(!verify_password("nope", &legacy));
    assert!(password_hash_needs_upgrade(&legacy));
}

#[test]
fn test_verify_password_rejects_malformed_input() {
    assert!(!verify_password("x", ""));
    assert!(!verify_password("x", "no-separator"));
    assert!(!verify_password("x", &format!("{PASSWORD_HASH_PREFIX}not-a-phc-string")));
    assert!(!verify_password("x", &format!("{PASSWORD_HASH_PREFIX}!hashing-failed")));
}

#[test]
fn hashes_are_stored_under_the_prefix_and_failures_never_verify() {
    assert_eq!(stored_hash(Some("$argon2id$x".into())), "argon2id$$argon2id$x");
    let failed = stored_hash(None);
    assert_eq!(failed, "argon2id$!hashing-failed");
    assert!(!password_hash_needs_upgrade(&failed));
    assert!(!verify_password("", &failed) && !verify_password("!hashing-failed", &failed));
}

#[test]
fn passwords_that_were_set_log_in() {
    let mut limiter = LoginRateLimiter::new();
    let mut sessions = Sessions::new();
    let mut sec = security(false, false, None);
    let request = UpdateSecurityRequest {
        web_enabled: Some(true),
        password: Some("  new-password ".into()),
        allow_remote: None,
    };
    assert!(api_security_update(&mut sessions, &mut sec, &request, NOW).is_ok());
    assert!(api_security_login(&mut limiter, &mut sec, REMOTE, NOW, "new-password").is_ok());
    assert!(api_security_login(&mut limiter, &mut sec, REMOTE, NOW, "old-password").is_err());
}

#[test]
fn digests_are_those_of_the_standard() {
    assert_eq!(document_sha256(b"abc"), "ba7816bf8f01cfea414140de5dae2223b00361a396177a9cb410ff61f20015ad");
    assert!("ba7816bf8f01cfea414140de5dae2223b00361a396177a9cb410ff61f20015ad".starts_with(&fingerprint("abc")));
    assert_eq!(hex(&[0x0a, 0xff]), "0aff");
    assert!(constant_time_equal(b"same", b"same"));
    assert!(!constant_time_equal(b"same", b"sane"));
    assert!(!constant_time_equal(b"same", b"sam"));
    let long = format!("same{}", "x".repeat(256));
    assert!(!constant_time_equal(b"same", long.as_bytes()));
    assert!(!constant_time_equal(long.as_bytes(), b"same"));
}

#[test]
fn test_login_rate_limiter_blocks_then_recovers() {
    let mut limiter = LoginRateLimiter::new();
    let ip = LOCAL;
    let start = NOW;
    for attempt in 0..LOGIN_MAX_ATTEMPTS_PER_IP {
        assert!(
            limiter.check(ip, start + attempt as u64 * MILLI).is_none(),
            "attempt {attempt} should still be allowed"
        );
        limiter.record_failure(ip, start + attempt as u64 * MILLI);
    }
    assert!(limiter.check(ip, start + SECOND).is_some());
    let other = REMOTE;
    assert!(limiter.check(other, start + SECOND).is_none());
    limiter.record_success(ip);
    assert!(limiter.check(ip, start + SECOND).is_none());
}

#[test]
fn the_lockout_lasts_until_the_window_has_passed() {
    let mut limiter = LoginRateLimiter::new();
    for n in 0..5 {
        limiter.record_failure(REMOTE, NOW + n * SECOND);
    }
    assert_eq!(limiter.check(REMOTE, NOW + 10 * SECOND), Some(50 * SECOND));
    assert_eq!(limiter.check(REMOTE, NOW + LOGIN_WINDOW), Some(0));
    assert_eq!(limiter.check(REMOTE, NOW + LOGIN_WINDOW + 1), None);
    let mut limiter = LoginRateLimiter::new();
    for n in 0..LOGIN_MAX_ATTEMPTS_GLOBAL as u32 {
        limiter.record_failure(IpAddress::V4(n), NOW);
    }
    assert_eq!(limiter.check(REMOTE, NOW), Some(LOGIN_WINDOW));
    assert_eq!(limiter.check(REMOTE, NOW + LOGIN_WINDOW + 1), None);
}

#[test]
fn the_login_limiter_does_not_grow_without_bound() {
    let mut limiter = LoginRateLimiter::new();
    let start = NOW;
    let ip = |n: u32| IpAddress::V4(0x0a00_0000 + n);
    for n in 0..(LOGIN_MAX_TRACKED_IPS as u32 * 2) {
        limiter.record_failure(ip(n), start);
    }
    assert!(
        limiter.addresses() <= LOGIN_MAX_TRACKED_IPS + LOGIN_MAX_ATTEMPTS_GLOBAL,
        "the map grew past its bound: {} entries",
        limiter.addresses()
    );
    let later = start + LOGIN_WINDOW + SECOND;
    limiter.record_failure(ip(1), later);
    assert!(
        limiter.addresses() <= LOGIN_MAX_ATTEMPTS_GLOBAL + 1,
        "expired entries were never reclaimed: {} entries remain",
        limiter.addresses()
    );
}

#[test]
fn test_session_expires() {
    let now = NOW;
    let hash = Some("hash-1".to_owned());
    assert!(session(now, now, Some("hash-1")).is_valid(now, &hash));

    let mut sessions = Sessions::new();
    let session_hash = Some("hash-a".to_owned());
    for n in 0..(MAX_SESSIONS + 50) {
        sessions.insert_session_bounded(
            format!("token-{n}"),
            session(now, now + n as u64 * MILLI, Some("hash-a")),
            now,
            &session_hash,
        );
    }
    assert_eq!(sessions.len(), MAX_SESSIONS, "the session map must not exceed its cap");
    assert!(
        sessions.contains(&format!("token-{}", MAX_SESSIONS + 49)),
        "the most recent session must survive eviction"
    );
    assert!(!sessions.contains("token-0"), "the oldest session must have been evicted");

    let mut stale = Sessions::new();
    let expired = now - (SESSION_TTL + 60 * SECOND);
    for n in 0..MAX_SESSIONS {
        stale.insert_session_bounded(
            format!("old-{n}"),
            session(expired, expired, Some("hash-a")),
            expired,
            &session_hash,
        );
    }
    assert_eq!(stale.len(), MAX_SESSIONS);
    stale.insert_session_bounded("fresh".into(), session(now, now, Some("hash-a")), now, &session_hash);
    assert_eq!(stale.len(), 1, "all expired sessions must be swept, leaving only the new one");
    assert!(stale.contains("fresh"));

    assert!(
        !session(now, now, Some("hash-1")).is_valid(now, &Some("hash-2".into())),
        "a session must not survive a password change"
    );
    let stale = session(now, now, Some("hash-1"));
    let beyond_absolute = now + SESSION_TTL + SECOND;
    assert!(!stale.is_valid(beyond_absolute, &hash));
    let idle = session(now, now, Some("hash-1"));
    let beyond_idle = now + SESSION_IDLE_TIMEOUT + SECOND;
    assert!(!idle.is_valid(beyond_idle, &hash));
}

#[test]
fn sessions_are_bounded_by_both_timeouts() {
    let hash = Some("h".to_owned());
    let end = NOW + SESSION_TTL;
    assert!(session(NOW, end, Some("h")).is_valid(end, &hash));
    assert!(!session(NOW, end, Some("h")).is_valid(end + 1, &hash));
    assert!(session(NOW, NOW, Some("h")).is_valid(NOW + SESSION_IDLE_TIMEOUT, &hash));
    assert!(!session(NOW, NOW, Some("h")).is_valid(NOW + SESSION_IDLE_TIMEOUT + 1, &hash));
}

#[test]
fn test_cors_origin_predicate_rejects_foreign_origins() {
    for allowed in ["null", "http://localhost:31828", "http://127.0.0.1:8080"] {
        assert!(origin_is_loopback_or_null(allowed), "{allowed} should be allowed");
    }
    for denied in ["https://evil.example.com", "http://192.168.1.50:31828", "not-a-url"] {
        assert!(!origin_is_loopback_or_null(denied), "{denied} should be denied");
    }
    assert!(origin_is_loopback_or_null("http://[::1]:8080"));
}

#[test]
fn reload_warnings_are_surfaced_without_changing_the_payload() {
    let ok = mutation_response(json(r#"{"id": "p", "name": "P"}"#), None);
    assert_eq!(ok.status, 200);
    assert_eq!(ok.body.text_field("name"), Some("P"));
    assert!(ok.body.field("router_reload_warning").is_none());
    let warned = mutation_response(json(r#"{"status": "ok"}"#), Some("router did not reload".to_owned()));
    assert_eq!(warned.status, 200);
}

#[test]
fn mutation_response_uses_a_stable_warning_key() {
    let response = mutation_response(json(r#"{"status": "ok"}"#), Some("router did not reload".to_owned()));
    assert_eq!(response.body.text_field("router_reload_warning"), Some("router did not reload"));
    assert_eq!(response.body.text_field("status"), Some("ok"), "the original payload must survive");
}

#[test]
fn failed_changes_are_bad_requests() {
    let reply = change_reply(Err("no".into()), None);
    assert_eq!((reply.status, reply.body.text_field("error")), (400, Some("no")));
    let reply = change_reply(Ok(json(r#"{"id": "p"}"#)), Some("late".into()));
    assert_eq!((reply.status, reply.body.text_field("router_reload_warning")), (200, Some("late")));
    let reply = outcome_reply(Err("no".into()), 500);
    assert_eq!((reply.status, reply.body.text_field("error")), (500, Some("no")));
    assert_eq!(outcome_reply(Ok(json("[]")), 500).status, 200);
    let reply = restart_reply(Ok("http://127.0.0.1:1".into()));
    assert_eq!(reply.body.text_field("base_url"), Some("http://127.0.0.1:1"));
    assert_eq!(restart_reply(Err("x".into())).status, 500);
    assert_eq!(starting_status().body.field("starting").unwrap().as_truth(), Some(true));
}

#[test]
fn unknown_api_paths_are_404_but_client_routes_still_get_the_spa() {
    let reply = api_aware_fallback("/api/v1/nope").expect("an unknown API path must not answer 200");
    assert_eq!(reply.status, 404);
    assert_eq!(reply.body.text_field("error"), Some("NotFound"));
    assert_eq!(reply.body.text_field("message"), Some("no such API endpoint: /api/v1/nope"));
    assert!(api_aware_fallback("/some/client/route").is_none());
    assert!(matches!(static_handler("/some/client/route", false, true), StaticAnswer::Index));
}

#[test]
fn files_of_the_panel_have_their_types() {
    assert_eq!(asset_path("/"), "index.html");
    assert_eq!(asset_path(""), "index.html");
    assert_eq!(asset_path("/assets/app.js"), "assets/app.js");
    match static_handler("/assets/style.css", true, true) {
        StaticAnswer::Asset { name, content_type } => {
            assert_eq!((name.as_str(), content_type.as_str()), ("assets/style.css", "text/css"))
        }
        _ => panic!("the file is there"),
    }
    match static_handler("/raw", true, true) {
        StaticAnswer::Asset { content_type, .. } => assert_eq!(content_type, "application/octet-stream"),
        _ => panic!("the file is there"),
    }
    assert!(matches!(static_handler("/gone.JS", false, true), StaticAnswer::NotFound));
    assert!(matches!(static_handler("/page", false, false), StaticAnswer::NotFound));
    assert!(asks_for_asset("a/b.woff2"));
    assert!(!asks_for_asset("a.js/b"));
    assert!(!asks_for_asset(".js"));
    assert_eq!(asset_content_type("text/html".into()), "text/html");
    assert_eq!(asset_content_type("a\nb".into()), "application/octet-stream");
    let list = security_headers();
    assert_eq!(list[1], ("x-content-type-options", "nosniff"));
    assert!(list[0].1.contains("frame-ancestors 'none'"));
}

#[test]
fn a_port_conflict_names_the_address_and_the_fix() {
    let message = WebError::Bind { addr: "127.0.0.1:4".into(), source: "in use".into() }.message();
    assert!(message.contains("127.0.0.1:4"));
    assert!(message.contains("--port"));
    assert_eq!(WebError::Io("x".into()).message(), "I/O error: x");
    assert_eq!(WebError::Unauthorized("x".into()).message(), "unauthorized: x");
    assert_eq!(WebError::Internal("x".into()).message(), "internal error: x");
}

#[test]
fn test_web_security_remote_access_guard() {
    let open = security(true, false, None);
    assert!(matches!(
        bind_plan(&open, Some(39191), Some(true)),
        Err(WebError::RemoteNotAllowedWithoutPassword)
    ));
    let hash = hash_password("admin123");
    let sec = security(true, false, Some(&hash));
    assert!(verify_password("admin123", sec.password_hash.as_ref().unwrap()));
    match bind_plan(&sec, Some(39191), Some(true)) {
        Ok(plan) => assert_eq!(plan, (IpAddress::V4(0), 39191)),
        Err(error) => panic!("{}", error.message()),
    }
    match bind_plan(&open, None, None) {
        Ok(plan) => assert_eq!(plan, (LOCAL, 31829)),
        Err(error) => panic!("{}", error.message()),
    }
}

#[test]
fn the_panel_lets_in_by_token_or_session() {
    let mut sessions = Sessions::new();
    let sec = security(true, false, Some("h"));
    let hash = Some("h".to_owned());
    sessions.insert_session_bounded("s".into(), session(NOW, NOW, Some("h")), NOW, &hash);
    let off = security(false, false, Some("h"));
    let bare = security(true, false, None);
    let local = headers(&[("x-local-token", " lt ")]);
    let bearer = headers(&[("authorization", "Bearer s")]);
    let mut status = |sec: Result<&WebSecurity, String>, h: &Headers, ip, now| {
        auth_middleware(sec, h, ip, "lt", &mut sessions, now).map(|r| r.status)
    };
    assert_eq!(status(Ok(&sec), &local, LOCAL, NOW), None);
    assert_eq!(status(Ok(&sec), &local, REMOTE, NOW), Some(401));
    assert_eq!(status(Ok(&off), &local, LOCAL, NOW), None);
    assert_eq!(status(Ok(&off), &bearer, REMOTE, NOW), Some(403));
    assert_eq!(status(Ok(&bare), &bearer, REMOTE, NOW), Some(403));
    assert_eq!(status(Ok(&sec), &headers(&[]), REMOTE, NOW), Some(401));
    assert_eq!(status(Ok(&sec), &bearer, REMOTE, NOW), None);
    assert_eq!(status(Ok(&sec), &bearer, REMOTE, NOW + SESSION_IDLE_TIMEOUT), None);
    assert_eq!(status(Ok(&sec), &bearer, REMOTE, NOW + 2 * SESSION_IDLE_TIMEOUT), None);
    assert_eq!(status(Err("bad".into()), &bearer, REMOTE, NOW), Some(500));
    let changed = security(true, false, Some("other"));
    assert_eq!(status(Ok(&changed), &bearer, REMOTE, NOW + SESSION_IDLE_TIMEOUT), Some(401));
    assert_eq!(sessions.len(), 0);
    let reply = auth_middleware(Ok(&sec), &headers(&[]), LOCAL, "", &mut sessions, NOW).unwrap();
    assert_eq!(reply.body.text_field("error"), Some("Unauthorized"));
}

#[test]
fn strangers_learn_little_of_the_panel() {
    let sec = security(true, true, Some("h"));
    let mut sessions = Sessions::new();
    let none = headers(&[]);
    let reply = api_security_status(Ok(&sec), &none, REMOTE, "lt", &mut sessions, NOW, "0.0.0.0:1", 31829);
    assert_eq!(reply.body.field("password_set").unwrap().as_truth(), Some(true));
    assert!(matches!(reply.body.field("port"), Some(Json::Null)));
    let local = headers(&[("x-local-token", "lt")]);
    let reply = api_security_status(Ok(&sec), &local, LOCAL, "lt", &mut sessions, NOW, "0.0.0.0:1", 31829);
    assert_eq!(reply.body.field("port").unwrap().as_unsigned(), Some(31829));
    assert_eq!(reply.body.text_field("bind_addr"), Some("0.0.0.0:1"));
    let failed = api_security_status(Err("x".into()), &none, REMOTE, "lt", &mut sessions, NOW, "", 1);
    assert_eq!(failed.status, 500);
}

#[test]
fn logins_open_sessions_and_upgrade_old_hashes() {
    let mut limiter = LoginRateLimiter::new();
    let mut sessions = Sessions::new();
    let old = legacy_hash("salt", "pw");
    let mut sec = security(true, false, Some(&old));
    let refused = api_security_login(&mut limiter, &mut sec, REMOTE, NOW, "no").err().unwrap();
    assert_eq!((refused.status, sessions.len()), (401, 0));
    let pending = api_security_login(&mut limiter, &mut sec, REMOTE, NOW, "pw").ok().unwrap();
    let new = sec.password_hash.as_ref().unwrap().clone();
    assert_eq!(pending.new_hash.as_deref(), Some(new.as_str()));
    assert!(!password_hash_needs_upgrade(&new) && verify_password("pw", &new));
    let reply = finish_login(&mut sessions, pending, true);
    assert_eq!(reply.status, 200);
    let token = reply.body.text_field("token").unwrap().to_owned();
    assert!(sessions.contains(&token));
    let bearer = headers(&[("authorization", &format!("Bearer {token}"))]);
    assert!(auth_middleware(Ok(&sec), &bearer, REMOTE, "lt", &mut sessions, NOW).is_none());
    let pending = api_security_login(&mut limiter, &mut sec, REMOTE, NOW, "pw").ok().unwrap();
    assert!(pending.new_hash.is_none());
    let reply = finish_login(&mut sessions, pending, true);
    assert_eq!(reply.status, 200);
    let token = reply.body.text_field("token").unwrap().to_owned();
    let bearer = headers(&[("authorization", &format!("Bearer {token}"))]);
    assert!(auth_middleware(Ok(&sec), &bearer, REMOTE, "lt", &mut sessions, NOW).is_none());
    assert_eq!(api_security_logout(&mut sessions, &bearer).status, 200);
    assert!(!sessions.contains(&token));
    sec.web_enabled = false;
    let refused = api_security_login(&mut limiter, &mut sec, REMOTE, NOW, "pw").err().unwrap();
    assert_eq!(refused.status, 403);
    let mut sec = security(true, false, None);
    let refused =
        login_with(&mut limiter, &mut sec, REMOTE, NOW, false, "f".into(), "t".into()).err().unwrap();
    assert_eq!(refused.status, 401);
}

#[test]
fn logins_whose_upgrade_is_not_saved_stay_under_the_old_hash() {
    let mut limiter = LoginRateLimiter::new();
    let mut sessions = Sessions::new();
    let old = legacy_hash("salt", "pw");
    let stored = security(true, false, Some(&old));
    let mut sec = security(true, false, Some(&old));
    let pending = api_security_login(&mut limiter, &mut sec, REMOTE, NOW, "pw").ok().unwrap();
    let reply = finish_login(&mut sessions, pending, false);
    assert_eq!(reply.status, 200);
    let token = reply.body.text_field("token").unwrap().to_owned();
    let bearer = headers(&[("authorization", &format!("Bearer {token}"))]);
    assert!(auth_middleware(Ok(&stored), &bearer, REMOTE, "lt", &mut sessions, NOW).is_none());
}

#[test]
fn logins_that_come_too_soon_are_told_to_wait() {
    let mut limiter = LoginRateLimiter::new();
    assert!(login_allowed(&mut limiter, REMOTE, NOW).is_none());
    for _ in 0..5 {
        limiter.record_failure(REMOTE, NOW);
    }
    let (reply, seconds) = login_allowed(&mut limiter, REMOTE, NOW + 100 * MILLI).unwrap();
    assert_eq!((reply.status, seconds), (429, 59));
    assert_eq!(reply.body.text_field("error"), Some("TooManyAttempts"));
    let (_, seconds) = login_allowed(&mut limiter, REMOTE, NOW + LOGIN_WINDOW).unwrap();
    assert_eq!(seconds, 1);
}

#[test]
fn a_new_password_ends_every_other_session() {
    let mut sessions = Sessions::new();
    let mut sec = security(true, false, Some("old"));
    sessions.insert_session_bounded("s".into(), session(NOW, NOW, Some("old")), NOW, &Some("old".into()));
    let request = UpdateSecurityRequest { web_enabled: None, password: Some(" new ".into()), allow_remote: Some(true) };
    let pending = match api_security_update(&mut sessions, &mut sec, &request, NOW) {
        Ok(pending) => pending,
        Err(reply) => panic!("{}", reply.status),
    };
    assert!(verify_password("new", sec.password_hash.as_ref().unwrap()));
    assert!(sec.allow_remote);
    let token = pending.token.clone().unwrap();
    let reply = finish_update(&mut sessions, pending, Ok(()));
    assert_eq!(reply.body.text_field("token"), Some(token.as_str()));
    assert!(reply.body.text_field("remote_warning").is_some());
    assert!(sessions.contains(&token) && sessions.len() == 1);

    let request = UpdateSecurityRequest { web_enabled: Some(false), password: None, allow_remote: None };
    let pending = match update_with(&mut sessions, &mut sec, &request, NOW, "x".into(), "y".into()) {
        Ok(pending) => pending,
        Err(reply) => panic!("{}", reply.status),
    };
    assert!(!sec.web_enabled && !sec.allow_remote && pending.token.is_none());
    assert_eq!(finish_update(&mut sessions, pending, Ok(())).status, 200);
    assert_eq!(sessions.len(), 0);

    let mut bare = security(false, false, None);
    let request = UpdateSecurityRequest { web_enabled: Some(true), password: Some("  ".into()), allow_remote: None };
    match api_security_update(&mut sessions, &mut bare, &request, NOW) {
        Err(reply) => assert_eq!((reply.status, reply.body.text_field("error")), (400, Some("PasswordRequired"))),
        Ok(_) => panic!("a panel without a password stays off"),
    }
    let request = UpdateSecurityRequest { web_enabled: Some(true), password: Some("p".into()), allow_remote: None };
    let pending = match api_security_update(&mut sessions, &mut bare, &request, NOW) {
        Ok(pending) => pending,
        Err(reply) => panic!("{}", reply.status),
    };
    assert_eq!(finish_update(&mut sessions, pending, Err("full".into())).status, 500);
}

#[test]
fn local_tokens_are_never_blank() {
    assert_eq!(local_token(Some("t".into())), "t");
    assert_ne!(local_token(None), local_token(Some(" ".into())));
    assert_eq!(local_token(None).len(), 36);
    assert_eq!(local_token_or(Some("".into()), "f".into()), "f");
}

#[test]
fn header_strategies_need_a_valid_name() {
    let header = |name: &str| Some(AuthStrategy::Header { name: name.into() });
    match normalize_auth_strategy(header(" X-Key ")) {
        Ok(AuthStrategy::Header { name }) => assert_eq!(name, "X-Key"),
        _ => panic!("a valid name"),
    }
    assert_eq!(normalize_auth_strategy(header("a b")).unwrap_err(), "无效的请求头名称：a b");
    assert_eq!(normalize_auth_strategy(header("  ")).unwrap_err(), "自定义认证方式需要填写请求头名称");
    assert!(matches!(normalize_auth_strategy(None), Ok(AuthStrategy::Bearer)));
    assert!(matches!(normalize_optional_auth_strategy(None), Ok(None)));
    assert!(matches!(normalize_auth_strategy(Some(AuthStrategy::ApiKey)), Ok(AuthStrategy::ApiKey)));
}

#[test]
fn requests_are_read_into_edits() {
    assert_eq!(requested_edit(None, Some(5), true).context_window, Some(None));
    assert_eq!(requested_edit(None, Some(5), false).context_window, Some(Some(5)));
    assert_eq!(requested_edit(None, None, false).context_window, None);
    let caps = added_capabilities(true, false);
    assert!(caps.images && !caps.tools && caps.streaming && !caps.files);
    assert_eq!(catalog_binary("codex".into(), None, None).unwrap(), "codex");
    assert_eq!(catalog_binary("x".into(), Some("d".into()), None).unwrap(), "x");
    assert_eq!(catalog_binary("codex".into(), Some("d".into()), None).unwrap(), "d");
    assert_eq!(catalog_binary("codex".into(), Some("d".into()), Some(Ok("m".into()))).unwrap(), "m");
}

#[test]
fn usage_failures_are_not_those_of_the_panel() {
    let error = AccountError::UsageCheckFailed { status: 401, message: "m".into() };
    let reply = usage_error_reply(&error, "a");
    assert_eq!((reply.status, reply.body.text_field("error")), (409, Some("usage_unauthorized")));
    let error = AccountError::UsageCheckFailed { status: 429, message: "m".into() };
    assert_eq!(usage_error_reply(&error, "a").status, 429);
    assert_eq!(usage_error_reply(&AccountError::Network("x".into()), "a").status, 502);
    let error = AccountError::RequiresReauthentication("a".into());
    assert_eq!(usage_error_reply(&error, "a").status, 409);
}

#[test]
fn imports_take_tokens_or_a_document() {
    let message = |r: Result<(AccountTokens, Option<String>), codex_mp::http::Reply>| match r {
        Err(reply) => reply.body.text_field("error").unwrap().to_owned(),
        Ok(_) => panic!("accepted"),
    };
    let doc = |text: &str| Some(json(text));
    assert_eq!(message(imported_tokens(None, &None, None)), "Either `tokens` or `auth_json` must be provided");
    assert_eq!(
        message(imported_tokens(None, &doc("{}"), None)),
        "auth_json must use the official `chatgpt` auth_mode"
    );
    let official = || doc(r#"{"auth_mode": "chatgpt", "last_refresh": "then"}"#);
    assert_eq!(message(imported_tokens(None, &official(), None)), "auth_json missing `tokens` object");
    assert_eq!(
        message(imported_tokens(None, &official(), Some(Err("e".into())))),
        "invalid tokens structure: e"
    );
    match imported_tokens(None, &official(), Some(Ok(AccountTokens::default()))) {
        Ok((_, last)) => assert_eq!(last.as_deref(), Some("then")),
        Err(_) => panic!("an official document"),
    }
    assert!(imported_tokens(Some(AccountTokens::default()), &None, None).is_ok());
}

#[test]
fn installations_are_taken_back_without_a_catalog() {
    let mut stage = InstallStage::Discover;
    let mut stages = 1;
    while let InstallStep::Next(next) = install_step(stage, Ok(())) {
        stage = next;
        stages += 1;
    }
    assert_eq!((stages, stage), (5, InstallStage::Report));
    let fails = |stage| match install_step(stage, Err("e".into())) {
        InstallStep::Fail { restore, reply } => (restore, reply.status),
        _ => panic!("the stage has failed"),
    };
    assert_eq!(fails(InstallStage::Discover), (false, 400));
    assert_eq!(fails(InstallStage::Install), (false, 500));
    assert_eq!(fails(InstallStage::BuildCatalog), (true, 500));
    let some = |s: &str| Some(s.to_owned());
    assert_eq!(choose_app_server(None, None, some("b"), some("c")).ok(), some("b"));
    assert_eq!(choose_app_server(some("x"), some("a"), None, None).ok(), some("x"));
    assert!(choose_app_server(None, None, None, None).is_err());
    assert_eq!(choose_build_metadata(None, some("e"), some("b")).ok(), some("e"));
    assert!(choose_build_metadata(None, None, None).is_err());
}

#[test]
fn dates_are_those_of_the_calendar() {
    assert_eq!(civil_from_days(0), (1970, 1, 1));
    assert_eq!(civil_from_days(-1), (1969, 12, 31));
    assert_eq!(civil_from_days(19_782), (2024, 2, 29));
    assert_eq!(civil_from_days(19_783), (2024, 3, 1));
    assert_eq!(civil_from_days(-719_468), (0, 3, 1));
    assert_eq!(civil_from_days(47_540), (2100, 2, 28));
    assert_eq!(civil_from_days(47_541), (2100, 3, 1));
    assert_eq!(iso_timestamp(0), "1970-01-01T00:00:00Z");
    assert_eq!(iso_timestamp(951_782_399), "2000-02-28T23:59:59Z");
    assert_eq!(iso_timestamp(1_709_210_096), "2024-02-29T12:34:56Z");
}

#[test]
fn texts_are_cut_as_they_should() {
    assert_eq!(trim("\u{3000} a b \t"), "a b");
    assert_eq!(split("a,,b", ','), vec!["a", "", "b"]);
    assert_eq!(split("", ','), vec![""]);
    assert_eq!(split_once("a=b=c", '='), Some(("a".into(), "b=c".into())));
    assert_eq!(split_once("abc", '='), None);
    assert_eq!(join(&vec!["a".into(), "b".into()], " | "), "a | b");
    assert_eq!(decimal_of(0), "0");
    assert_eq!(decimal_of(u64::MAX), "18446744073709551615");
    assert_eq!(parse_upto("4294967295", u32::MAX as u64), Some(4294967295));
    assert_eq!(parse_upto("4294967296", u32::MAX as u64), None);
    assert_eq!(parse_upto("+1", 9), Some(1));
    assert_eq!(parse_upto("-1", 9), None);
    assert_eq!(parse_upto("", 9), None);
}
