//! Access to the panel: who may talk to it, logging in and out, and its settings.

use crate::digest::{constant_time_equal, same_secret, without_zero};
use crate::http::{
    lookup_text, Headers, Reply, ReplyView, BAD_REQUEST, FORBIDDEN, INTERNAL_SERVER_ERROR, OK,
    TOO_MANY_REQUESTS, UNAUTHORIZED,
};
use crate::json::{empty_object, Json, JsonView, NumberView};
use crate::limiter::LoginRateLimiter;
use crate::passwords::{
    hash_of, hash_password, outdated, password_accepted, password_hash_needs_upgrade,
    verify_password, MAX_PASSWORD_BYTES, PASSWORD_HASH_PREFIX,
};
use crate::registry::{SecurityView, WebSecurity};
use crate::search::{index_where, kept_where};
use crate::service::{json_or_null, loopback_ip, text_or_null, IpAddress};
use crate::sessions::{
    has_session, of_token, touched, valid_entry, with_new_session, with_room, Session, SessionView,
    Sessions,
};
use crate::text::{
    blank, cat3, chars_of, decimal, decimal_of, is_blank, opt_view, part_of, starts_with, trim,
    trimmed,
};
use crate::urls::{parse_url, url_parsed, UrlParts, UrlView};
use crate::tokens::{new_uuid, uuid_text};
use vstd::prelude::*;
use vstd::string::*;
use vstd::utf8::{encode_utf8, encode_utf8_decode_utf8};

verus! {

/// A reply that tells an error.
pub open spec fn plain_error(status: u16, error: Seq<char>) -> ReplyView {
    ReplyView { status, body: empty_object().with("error"@, JsonView::Str(error)) }
}

/// A reply that tells an error and what to do about it.
pub open spec fn told_error(status: u16, error: Seq<char>, message: Seq<char>) -> ReplyView {
    ReplyView {
        status,
        body: empty_object().with("error"@, JsonView::Str(error)).with(
            "message"@,
            JsonView::Str(message),
        ),
    }
}

/// A reply that tells an error.
pub fn error_only(status: u16, error: &str) -> (r: Reply)
    ensures
        r@ == plain_error(status, error@),
{
    Reply { status, body: Json::object().with("error", Json::string(error)) }
}

/// A reply that tells an error and what to do about it.
pub fn error_with_message(status: u16, error: &str, message: &str) -> (r: Reply)
    ensures
        r@ == told_error(status, error@, message@),
{
    Reply {
        status,
        body: Json::object().with("error", Json::string(error)).with(
            "message",
            Json::string(message),
        ),
    }
}

/// What an authorization bears.
pub open spec fn borne(value: Seq<char>) -> Option<Seq<char>> {
    if "Bearer "@.is_prefix_of(value) {
        Some(trimmed(value.skip(7)))
    } else {
        None
    }
}

/// The token that a request presents: that of its authorization, where it has one, else
/// its local token.
pub open spec fn presented(headers: Seq<(Seq<char>, Seq<u8>)>) -> Option<Seq<char>> {
    match lookup_text(headers, "authorization"@) {
        Some(value) => borne(value),
        None => match lookup_text(headers, "x-local-token"@) {
            Some(value) => Some(trimmed(value)),
            None => None,
        },
    }
}

fn bear(value: &str) -> (r: Option<String>)
    ensures
        opt_view(r) == borne(value@),
{
    if starts_with(value, "Bearer ") {
        proof {
            reveal_strlit("Bearer ");
        }
        let chars = chars_of(value);
        let rest = part_of(&chars, 7, chars.len());
        assert(rest@ =~= value@.skip(7));
        Some(trim(&rest))
    } else {
        None
    }
}

/// The token that a request presents.
pub fn presented_token(headers: &Headers) -> (r: Option<String>)
    ensures
        opt_view(r) == presented(headers@),
{
    match headers.text("authorization") {
        Some(value) => bear(&value),
        None => match headers.text("x-local-token") {
            Some(value) => Some(trim(&value)),
            None => None,
        },
    }
}

/// Whether a token is the local one, presented from this machine.
pub open spec fn local_entry(token: Option<Seq<char>>, peer: IpAddress, local: Seq<char>) -> bool {
    &&& token is Some
    &&& loopback_ip(peer)
    &&& local.len() > 0
    &&& same_secret(encode_utf8(token->0), encode_utf8(local))
}

fn is_local_entry(token: &Option<String>, peer: IpAddress, local: &str) -> (r: bool)
    ensures
        r == local_entry(opt_view(*token), peer, local@),
{
    match token {
        Some(token) => peer.is_loopback() && !local.is_empty() && constant_time_equal(
            token.as_str().as_bytes(),
            local.as_bytes(),
        ),
        None => false,
    }
}

/// The reply where the panel is switched off.
pub open spec fn web_disabled() -> ReplyView {
    told_error(
        FORBIDDEN,
        "WebAccessDisabled"@,
        "网页访问功能已禁用。如需通过网页访问，请在应用设置中开启并设置访问密码。"@,
    )
}

/// The reply where the panel has no password.
pub open spec fn password_required() -> ReplyView {
    told_error(FORBIDDEN, "PasswordRequired"@, "启用网页访问必须先设置访问密码。"@)
}

/// The reply to a request without a valid session.
pub open spec fn login_required() -> ReplyView {
    told_error(UNAUTHORIZED, "Unauthorized"@, "请输入访问密码以继续"@)
}

/// Whether a request is let through (no reply) or refused, and the sessions after it.
/// The local token opens from this machine alone; all else needs the panel switched on,
/// a password, and a valid session under that password.
pub open spec fn access(
    security: Result<SecurityView, Seq<char>>,
    token: Option<Seq<char>>,
    peer: IpAddress,
    local: Seq<char>,
    sessions: Seq<(Seq<char>, SessionView)>,
    now: u64,
) -> (Option<ReplyView>, Seq<(Seq<char>, SessionView)>) {
    match security {
        Err(e) => (Some(plain_error(INTERNAL_SERVER_ERROR, e)), sessions),
        Ok(sec) => if local_entry(token, peer, local) {
            (None, sessions)
        } else if !sec.web_enabled {
            (Some(web_disabled()), sessions)
        } else if sec.password_hash is None {
            (Some(password_required()), sessions)
        } else {
            match token {
                None => (Some(login_required()), sessions),
                Some(t) => {
                    let kept = kept_where(sessions, valid_entry(now, sec.password_hash));
                    if has_session(kept, t) {
                        let i = index_where(kept, of_token(t));
                        (
                            None,
                            kept.update(i, (t, SessionView { last_seen: now, ..kept[i].1 })),
                        )
                    } else {
                        (Some(login_required()), kept)
                    }
                },
            }
        },
    }
}

/// Lets a request through or refuses it.
pub fn auth_middleware(
    security: Result<&WebSecurity, String>,
    headers: &Headers,
    peer: IpAddress,
    local_token: &str,
    sessions: &mut Sessions,
    now: u64,
) -> (r: Option<Reply>)
    ensures
        (crate::gate::opt_reply(r), final(sessions)@) == access(
            match security {
                Ok(s) => Ok(s@),
                Err(e) => Err(e@),
            },
            presented(headers@),
            peer,
            local_token@,
            old(sessions)@,
            now,
        ),
{
    let sec = match security {
        Ok(sec) => sec,
        Err(e) => return Some(error_only(INTERNAL_SERVER_ERROR, &e)),
    };
    let token = presented_token(headers);
    if is_local_entry(&token, peer, local_token) {
        return None;
    }
    if !sec.web_enabled {
        return Some(
            error_with_message(
                FORBIDDEN,
                "WebAccessDisabled",
                "网页访问功能已禁用。如需通过网页访问，请在应用设置中开启并设置访问密码。",
            ),
        );
    }
    if sec.password_hash.is_none() {
        return Some(
            error_with_message(
                FORBIDDEN,
                "PasswordRequired",
                "启用网页访问必须先设置访问密码。",
            ),
        );
    }
    if let Some(token) = token {
        sessions.retain_valid(now, &sec.password_hash);
        if sessions.touch(&token, now) {
            return None;
        }
    }
    Some(error_with_message(UNAUTHORIZED, "Unauthorized", "请输入访问密码以继续"))
}

/// Without the local token nobody gets in but with a session that is valid under the
/// password in force; from another machine the local token does not help.
pub proof fn entry_needs_a_valid_session(
    sec: SecurityView,
    token: Option<Seq<char>>,
    peer: IpAddress,
    local: Seq<char>,
    sessions: Seq<(Seq<char>, SessionView)>,
    now: u64,
)
    requires
        access(Ok(sec), token, peer, local, sessions, now).0 is None,
        !loopback_ip(peer) || token is None || local.len() == 0 || !same_secret(
            encode_utf8(token->0),
            encode_utf8(local),
        ),
    ensures
        sec.web_enabled,
        sec.password_hash is Some,
        token is Some,
        exists|i: int|
            {
                &&& 0 <= i < sessions.len()
                &&& (#[trigger] sessions[i]).0 == token->0
                &&& sessions[i].1.valid(now, sec.password_hash)
            },
{
    let p = valid_entry(now, sec.password_hash);
    let kept = kept_where(sessions, p);
    crate::search::kept_where_holds(sessions, p);
    crate::search::index_where_bounds(kept, of_token(token->0));
    let k = index_where(kept, of_token(token->0));
    assert(of_token(token->0)(kept[k]));
    assert(p(kept[k]));
    assert(sessions.contains(kept[k]));
    let i = choose|i: int| 0 <= i < sessions.len() && sessions[i] == kept[k];
    assert(sessions[i].0 == token->0);
}

/// Another token than the local one does not pass for it, where neither holds a zero
/// byte.
pub proof fn another_token_is_not_local(token: Seq<char>, peer: IpAddress, local: Seq<char>)
    requires
        token != local,
        without_zero(encode_utf8(token)),
        without_zero(encode_utf8(local)),
    ensures
        !local_entry(Some(token), peer, local),
{
    encode_utf8_decode_utf8(token);
    encode_utf8_decode_utf8(local);
    crate::digest::same_secret_is_equality(encode_utf8(token), encode_utf8(local));
}

/// What the panel tells of its settings: to strangers only whether it is on and whether
/// it has a password.
pub open spec fn security_body(
    sec: SecurityView,
    known: bool,
    bind_addr: Seq<char>,
    port: u16,
) -> JsonView {
    let base = empty_object().with("web_enabled"@, JsonView::Bool(sec.web_enabled)).with(
        "password_set"@,
        JsonView::Bool(sec.password_hash is Some),
    );
    if known {
        base.with("allow_remote"@, JsonView::Bool(sec.allow_remote)).with(
            "bind_addr"@,
            JsonView::Str(bind_addr),
        ).with("port"@, JsonView::Number(NumberView::Unsigned(port as u64)))
    } else {
        base.with("allow_remote"@, JsonView::Null).with("bind_addr"@, JsonView::Null).with(
            "port"@,
            JsonView::Null,
        )
    }
}

/// Whether a caller is known: by the local token from this machine, or by a session.
pub open spec fn known_caller(
    token: Option<Seq<char>>,
    peer: IpAddress,
    local: Seq<char>,
    sessions: Seq<(Seq<char>, SessionView)>,
    now: u64,
    current: Option<Seq<char>>,
) -> bool {
    local_entry(token, peer, local) || (token is Some && has_session(
        kept_where(sessions, valid_entry(now, current)),
        token->0,
    ))
}

/// What the panel tells of its settings.
pub fn api_security_status(
    security: Result<&WebSecurity, String>,
    headers: &Headers,
    peer: IpAddress,
    local_token: &str,
    sessions: &mut Sessions,
    now: u64,
    bind_addr: &str,
    port: u16,
) -> (r: Reply)
    ensures
        match security {
            Err(e) => r@ == plain_error(INTERNAL_SERVER_ERROR, e@) && final(sessions)@ == old(
                sessions,
            )@,
            Ok(sec) => {
                let token = presented(headers@);
                let kept = kept_where(old(sessions)@, valid_entry(now, sec@.password_hash));
                &&& r@ == (ReplyView {
                    status: OK,
                    body: security_body(
                        sec@,
                        known_caller(
                            token,
                            peer,
                            local_token@,
                            old(sessions)@,
                            now,
                            sec@.password_hash,
                        ),
                        bind_addr@,
                        port,
                    ),
                })
                &&& final(sessions)@ == (if token is Some && !local_entry(
                    token,
                    peer,
                    local_token@,
                ) {
                    kept
                } else {
                    old(sessions)@
                })
            },
        },
{
    let sec = match security {
        Ok(sec) => sec,
        Err(e) => return error_only(INTERNAL_SERVER_ERROR, &e),
    };
    let token = presented_token(headers);
    let known = if is_local_entry(&token, peer, local_token) {
        true
    } else {
        match &token {
            Some(token) => {
                sessions.retain_valid(now, &sec.password_hash);
                sessions.contains(token)
            },
            None => false,
        }
    };
    let base = Json::object().with("web_enabled", Json::Bool(sec.web_enabled)).with(
        "password_set",
        Json::Bool(sec.password_hash.is_some()),
    );
    let body = if known {
        base.with("allow_remote", Json::Bool(sec.allow_remote)).with(
            "bind_addr",
            Json::string(bind_addr),
        ).with("port", Json::unsigned(port as u64))
    } else {
        base.with("allow_remote", Json::Null).with("bind_addr", Json::Null).with("port", Json::Null)
    };
    Reply { status: OK, body }
}

/// The reply to a login that comes too soon, and after how many seconds it may come
/// again.
pub open spec fn too_many_attempts(wait: u64) -> (ReplyView, u64) {
    let seconds = if wait / 1_000_000_000 > 1 {
        wait / 1_000_000_000
    } else {
        1
    };
    (
        told_error(
            TOO_MANY_REQUESTS,
            "TooManyAttempts"@,
            "登录尝试过于频繁，请在 "@ + decimal(seconds as nat) + " 秒后重试。"@,
        ),
        seconds,
    )
}

/// Refuses a login that comes too soon.
pub fn login_allowed(limiter: &mut LoginRateLimiter, ip: IpAddress, now: u64) -> (r: Option<
    (Reply, u64),
>)
    ensures
        final(limiter)@ == old(limiter)@.checked(ip, now).1,
        (match r {
            Some((reply, seconds)) => Some((reply@, seconds)),
            None => None,
        }) == (match old(limiter)@.checked(ip, now).0 {
            Some(wait) => Some(too_many_attempts(wait)),
            None => None,
        }),
{
    match limiter.check(ip, now) {
        Some(wait) => {
            let whole: u64 = wait / 1_000_000_000;
            let seconds: u64 = if whole > 1 {
                whole
            } else {
                1
            };
            let message = cat3(
                "登录尝试过于频繁，请在 ",
                &decimal_of(seconds),
                " 秒后重试。",
            );
            Some((error_with_message(TOO_MANY_REQUESTS, "TooManyAttempts", &message), seconds))
        },
        None => None,
    }
}

/// Whether a login succeeds.
pub open spec fn login_accepted(sec: SecurityView, password: Seq<char>) -> bool {
    sec.web_enabled && sec.password_hash is Some && sec.password_hash->0.len() > 0
        && password_accepted(password, sec.password_hash->0)
}

/// The settings after a successful login: a hash of an older format is replaced.
pub open spec fn upgraded(sec: SecurityView, fresh: Seq<char>) -> SecurityView {
    if outdated(sec.password_hash->0) {
        SecurityView { password_hash: Some(fresh), ..sec }
    } else {
        sec
    }
}

/// A login that is accepted; its session is opened once the settings are saved.
pub struct PendingLogin {
    /// The token of the session.
    pub token: String,
    /// The hash that the password was accepted for.
    pub accepted_hash: String,
    /// The hash that replaces it where it is of an older format; the settings are to be
    /// saved then.
    pub new_hash: Option<String>,
    /// When the login was made.
    pub at: u64,
}

/// Decides on a login, given whether the password is accepted, a fresh hash of it, and a
/// token for the session.
pub fn login_with(
    limiter: &mut LoginRateLimiter,
    security: &mut WebSecurity,
    ip: IpAddress,
    now: u64,
    accepted: bool,
    fresh_hash: String,
    token: String,
) -> (r: Result<PendingLogin, Reply>)
    ensures
        if !old(security)@.web_enabled {
            &&& r is Err
            &&& r->Err_0@ == plain_error(FORBIDDEN, "网页访问功能已禁用，请在应用设置中启用"@)
            &&& final(limiter)@ == old(limiter)@
            &&& final(security)@ == old(security)@
        } else if !(accepted && old(security)@.password_hash is Some && old(
            security,
        )@.password_hash->0.len() > 0) {
            &&& r is Err
            &&& r->Err_0@ == plain_error(UNAUTHORIZED, "密码错误，请重试"@)
            &&& final(limiter)@ == old(limiter)@.failed(ip, now)
            &&& final(security)@ == old(security)@
        } else {
            &&& r is Ok
            &&& r->Ok_0.token@ == token@
            &&& r->Ok_0.accepted_hash@ == old(security)@.password_hash->0
            &&& opt_view(r->Ok_0.new_hash) == (if outdated(old(security)@.password_hash->0) {
                Some(fresh_hash@)
            } else {
                None
            })
            &&& r->Ok_0.at == now
            &&& final(limiter)@ == old(limiter)@.succeeded(ip)
            &&& final(security)@ == upgraded(old(security)@, fresh_hash@)
        },
{
    if !security.web_enabled {
        return Err(error_only(FORBIDDEN, "网页访问功能已禁用，请在应用设置中启用"));
    }
    let stored = match &security.password_hash {
        Some(stored) => stored.clone(),
        None => String::new(),
    };
    if stored.as_str().is_empty() || !accepted {
        limiter.record_failure(ip, now);
        return Err(error_only(UNAUTHORIZED, "密码错误，请重试"));
    }
    limiter.record_success(ip);
    let new_hash = if password_hash_needs_upgrade(&stored) {
        security.password_hash = Some(fresh_hash.clone());
        Some(fresh_hash)
    } else {
        None
    };
    Ok(PendingLogin { token, accepted_hash: stored, new_hash, at: now })
}

/// Decides on a login with a password. The token of the session is drawn at random, and
/// a hash of an older format is replaced by one under a fresh salt.
pub fn api_security_login(
    limiter: &mut LoginRateLimiter,
    security: &mut WebSecurity,
    ip: IpAddress,
    now: u64,
    password: &str,
) -> (r: Result<PendingLogin, Reply>)
    ensures
        r is Ok <==> login_accepted(old(security)@, password@),
        match r {
            Ok(pending) => {
                &&& uuid_text(pending.token@)
                &&& pending.accepted_hash@ == old(security)@.password_hash->0
                &&& pending.new_hash is Some <==> outdated(old(security)@.password_hash->0)
                &&& pending.at == now
                &&& final(limiter)@ == old(limiter)@.succeeded(ip)
                &&& match pending.new_hash {
                    Some(fresh) => hash_of(fresh@, password@) && final(security)@ == upgraded(
                        old(security)@,
                        fresh@,
                    ),
                    None => final(security)@ == old(security)@,
                }
            },
            Err(reply) => {
                &&& final(security)@ == old(security)@
                &&& if old(security)@.web_enabled {
                    &&& reply@ == plain_error(UNAUTHORIZED, "密码错误，请重试"@)
                    &&& final(limiter)@ == old(limiter)@.failed(ip, now)
                } else {
                    &&& reply@ == plain_error(
                        FORBIDDEN,
                        "网页访问功能已禁用，请在应用设置中启用"@,
                    )
                    &&& final(limiter)@ == old(limiter)@
                }
            },
        },
{
    let accepted = match &security.password_hash {
        Some(stored) => verify_password(password, stored),
        None => false,
    };
    let stale = match &security.password_hash {
        Some(stored) => password_hash_needs_upgrade(stored),
        None => false,
    };
    let fresh = if accepted && stale {
        hash_password(password)
    } else {
        String::new()
    };
    login_with(limiter, security, ip, now, accepted, fresh, new_uuid())
}

/// The hash in force when the session of a login is opened: the one that the password
/// was accepted for, unless another has replaced it and was saved.
pub open spec fn hash_in_force(
    accepted: Seq<char>,
    replacement: Option<Seq<char>>,
    saved: bool,
) -> Option<Seq<char>> {
    match replacement {
        Some(fresh) => if saved {
            Some(fresh)
        } else {
            Some(accepted)
        },
        None => Some(accepted),
    }
}

/// The session that a login opens.
pub open spec fn login_session(hash: Option<Seq<char>>, at: u64) -> SessionView {
    SessionView { created: at, last_seen: at, password_hash: hash }
}

/// Opens the session of a login, once a replaced hash was saved or not. The session is
/// bound to the hash in force; one that could not be saved is not.
pub fn finish_login(sessions: &mut Sessions, pending: PendingLogin, saved: bool) -> (r: Reply)
    ensures
        r@ == (ReplyView {
            status: OK,
            body: empty_object().with("token"@, JsonView::Str(pending.token@)),
        }),
        ({
            let hash = hash_in_force(
                pending.accepted_hash@,
                opt_view(pending.new_hash),
                saved,
            );
            final(sessions)@ == with_new_session(
                old(sessions)@,
                pending.token@,
                login_session(hash, pending.at),
                pending.at,
                hash,
            )
        }),
{
    let PendingLogin { token, accepted_hash, new_hash, at } = pending;
    let hash = match new_hash {
        Some(fresh) => if saved {
            fresh
        } else {
            accepted_hash
        },
        None => accepted_hash,
    };
    let current = Some(hash.clone());
    let session = Session { created: at, last_seen: at, password_hash: Some(hash) };
    sessions.insert_session_bounded(token.clone(), session, at, &current);
    Reply { status: OK, body: Json::object().with("token", Json::Str(token)) }
}

/// A login gives a session that is let in, from wherever it comes, under the settings
/// that are stored after it: the changed ones where they were saved, else the old ones.
pub proof fn logins_give_valid_sessions(
    sec: SecurityView,
    sessions: Seq<(Seq<char>, SessionView)>,
    token: Seq<char>,
    fresh: Seq<char>,
    saved: bool,
    peer: IpAddress,
    local: Seq<char>,
    now: u64,
)
    requires
        sec.web_enabled,
        sec.password_hash is Some,
    ensures
        ({
            let replacement = if outdated(sec.password_hash->0) {
                Some(fresh)
            } else {
                None
            };
            let stored = if saved {
                upgraded(sec, fresh)
            } else {
                sec
            };
            let hash = hash_in_force(sec.password_hash->0, replacement, saved);
            let after = with_new_session(sessions, token, login_session(hash, now), now, hash);
            &&& stored.password_hash == hash
            &&& login_session(hash, now).valid(now, stored.password_hash)
            &&& access(Ok(stored), Some(token), peer, local, after, now).0 is None
        }),
{
    let replacement = if outdated(sec.password_hash->0) {
        Some(fresh)
    } else {
        None
    };
    let hash = hash_in_force(sec.password_hash->0, replacement, saved);
    let session = login_session(hash, now);
    let after = with_new_session(sessions, token, session, now, hash);
    let p = valid_entry(now, hash);
    let room = with_room(kept_where(sessions, p));
    let i = index_where(room, of_token(token));
    crate::search::index_where_bounds(room, of_token(token));
    assert(after[i] == (token, session));
    let kept = kept_where(after, p);
    crate::search::kept_where_holds(after, p);
    assert(after.contains((token, session)) && p((token, session)));
    assert(kept.contains((token, session)));
    let k = choose|k: int| 0 <= k < kept.len() && kept[k] == (token, session);
    assert(of_token(token)(kept[k]));
    crate::search::index_where_bounds(kept, of_token(token));
}

/// Logs out: the session of the presented bearer ends, if there is one.
pub fn api_security_logout(sessions: &mut Sessions, headers: &Headers) -> (r: Reply)
    ensures
        r@ == (ReplyView {
            status: OK,
            body: empty_object().with("status"@, JsonView::Str("ok"@)),
        }),
        ({
            let token = match lookup_text(headers@, "authorization"@) {
                Some(value) => borne(value),
                None => None,
            };
            match token {
                Some(t) => if t.len() > 0 {
                    &&& !has_session(final(sessions)@, t)
                    &&& final(sessions)@ == (if has_session(old(sessions)@, t) {
                        old(sessions)@.remove(index_where(old(sessions)@, of_token(t)))
                    } else {
                        old(sessions)@
                    })
                } else {
                    final(sessions)@ == old(sessions)@
                },
                None => final(sessions)@ == old(sessions)@,
            }
        }),
{
    let token = match headers.text("authorization") {
        Some(value) => bear(&value),
        None => None,
    };
    if let Some(token) = token {
        if !token.as_str().is_empty() {
            sessions.remove(&token);
        }
    }
    Reply { status: OK, body: Json::object().with("status", Json::string("ok")) }
}

/// What is to be changed of the panel's settings.
pub struct UpdateSecurityRequest {
    pub web_enabled: Option<bool>,
    pub password: Option<String>,
    pub allow_remote: Option<bool>,
}

/// The new password that a request sets, without the white space round it.
pub open spec fn new_password(request: UpdateSecurityRequest) -> Option<Seq<char>> {
    match request.password {
        Some(p) => if blank(p@) {
            None
        } else {
            Some(trimmed(p@))
        },
        None => None,
    }
}

/// Whether the panel is to be on.
pub open spec fn target_enabled(sec: SecurityView, request: UpdateSecurityRequest) -> bool {
    match request.web_enabled {
        Some(b) => b,
        None => sec.web_enabled,
    }
}

/// Whether the panel is to be reachable from other machines.
pub open spec fn target_remote(sec: SecurityView, request: UpdateSecurityRequest) -> bool {
    match request.allow_remote {
        Some(b) => b,
        None => sec.allow_remote,
    }
}

/// Whether a change is refused: the panel would be on, or reachable from other
/// machines, without a password.
pub open spec fn update_refused(sec: SecurityView, request: UpdateSecurityRequest) -> bool {
    (target_enabled(sec, request) || target_remote(sec, request)) && sec.password_hash is None
        && new_password(request) is None
}

/// The settings after a change; a panel that is off is not reachable from other
/// machines either.
pub open spec fn updated(sec: SecurityView, request: UpdateSecurityRequest, hash: Seq<char>) -> SecurityView {
    SecurityView {
        web_enabled: target_enabled(sec, request),
        allow_remote: target_enabled(sec, request) && target_remote(sec, request),
        password_hash: if new_password(request) is Some {
            Some(hash)
        } else {
            sec.password_hash
        },
        port: sec.port,
    }
}

/// A change that is made but not saved yet.
pub struct PendingUpdate {
    /// The token of the session that a new password opens.
    pub token: Option<String>,
    pub web_enabled: bool,
    pub allow_remote: bool,
}

/// Makes a change of the settings, given a hash of the new password and a token for the
/// session that it opens.
pub fn update_with(
    sessions: &mut Sessions,
    security: &mut WebSecurity,
    request: &UpdateSecurityRequest,
    now: u64,
    hash: String,
    token: String,
) -> (r: Result<PendingUpdate, Reply>)
    ensures
        if update_refused(old(security)@, *request) {
            &&& r is Err
            &&& r->Err_0@ == told_error(
                BAD_REQUEST,
                "PasswordRequired"@,
                "开启网页访问或外网访问必须先设置访问密码"@,
            )
            &&& final(security)@ == old(security)@
            &&& final(sessions)@ == old(sessions)@
        } else {
            &&& r is Ok
            &&& final(security)@ == updated(old(security)@, *request, hash@)
            &&& r->Ok_0.web_enabled == final(security)@.web_enabled
            &&& r->Ok_0.allow_remote == final(security)@.allow_remote
            &&& if new_password(*request) is Some {
                &&& opt_view(r->Ok_0.token) == Some(token@)
                &&& final(sessions)@ == with_new_session(
                    old(sessions)@,
                    token@,
                    (SessionView { created: now, last_seen: now, password_hash: Some(hash@) }),
                    now,
                    Some(hash@),
                )
            } else {
                &&& r->Ok_0.token is None
                &&& final(sessions)@ == old(sessions)@
            }
        },
{
    let sets_password = match &request.password {
        Some(p) => !is_blank(p),
        None => false,
    };
    let enabled = match request.web_enabled {
        Some(b) => b,
        None => security.web_enabled,
    };
    let remote = match request.allow_remote {
        Some(b) => b,
        None => security.allow_remote,
    };
    if (enabled || remote) && security.password_hash.is_none() && !sets_password {
        return Err(
            error_with_message(
                BAD_REQUEST,
                "PasswordRequired",
                "开启网页访问或外网访问必须先设置访问密码",
            ),
        );
    }
    let mut opened: Option<String> = None;
    if sets_password {
        security.password_hash = Some(hash.clone());
        let current = Some(hash.clone());
        let session = Session { created: now, last_seen: now, password_hash: Some(hash) };
        sessions.insert_session_bounded(token.clone(), session, now, &current);
        opened = Some(token);
    }
    security.web_enabled = enabled;
    security.allow_remote = enabled && remote;
    Ok(
        PendingUpdate {
            token: opened,
            web_enabled: security.web_enabled,
            allow_remote: security.allow_remote,
        },
    )
}

/// Makes a change of the settings. A new password is hashed under a fresh salt and opens
/// a session under a random token.
pub fn api_security_update(
    sessions: &mut Sessions,
    security: &mut WebSecurity,
    request: &UpdateSecurityRequest,
    now: u64,
) -> (r: Result<PendingUpdate, Reply>)
    ensures
        r is Err <==> update_refused(old(security)@, *request),
        if update_refused(old(security)@, *request) {
            &&& r->Err_0@ == told_error(
                BAD_REQUEST,
                "PasswordRequired"@,
                "开启网页访问或外网访问必须先设置访问密码"@,
            )
            &&& final(security)@ == old(security)@
            &&& final(sessions)@ == old(sessions)@
        } else {
            &&& r->Ok_0.web_enabled == final(security)@.web_enabled
            &&& r->Ok_0.allow_remote == final(security)@.allow_remote
            &&& r->Ok_0.token is Some <==> new_password(*request) is Some
            &&& r->Ok_0.token is Some ==> uuid_text(r->Ok_0.token->0@)
            &&& exists|hash: Seq<char>|
                {
                    &&& final(security)@ == #[trigger] updated(old(security)@, *request, hash)
                    &&& match new_password(*request) {
                        Some(p) => {
                            &&& hash_of(hash, p)
                            &&& final(sessions)@ == with_new_session(
                                old(sessions)@,
                                r->Ok_0.token->0@,
                                (SessionView {
                                    created: now,
                                    last_seen: now,
                                    password_hash: Some(hash),
                                }),
                                now,
                                Some(hash),
                            )
                        },
                        None => final(sessions)@ == old(sessions)@,
                    }
                }
        },
{
    let ghost before = security@;
    let ghost sessions_before = sessions@;
    let fresh = match &request.password {
        Some(p) => if is_blank(p) {
            String::new()
        } else {
            hash_password(&trim(p))
        },
        None => String::new(),
    };
    let token = new_uuid();
    let r = update_with(sessions, security, request, now, fresh, token);
    proof {
        if !update_refused(before, *request) {
            assert(security@ == updated(before, *request, fresh@));
        }
    }
    r
}

/// The reply to a change that was saved.
pub open spec fn update_saved(token: Option<Seq<char>>, web_enabled: bool, allow_remote: bool) -> ReplyView {
    ReplyView {
        status: OK,
        body: empty_object().with("status"@, JsonView::Str("ok"@)).with(
            "message"@,
            JsonView::Str("安全配置已保存"@),
        ).with("token"@, text_or_null(token)).with(
            "web_enabled"@,
            JsonView::Bool(web_enabled),
        ).with("allow_remote"@, JsonView::Bool(allow_remote)).with(
            "remote_warning"@,
            if allow_remote {
                JsonView::Str(
                    "远程访问使用明文 HTTP，请仅在可信内网中启用，并确保已设置强密码。"@,
                )
            } else {
                JsonView::Null
            },
        ),
    }
}

/// The sessions that are left once a change of the settings was saved.
pub open spec fn sessions_left(
    sessions: Seq<(Seq<char>, SessionView)>,
    token: Option<Seq<char>>,
    web_enabled: bool,
) -> Seq<(Seq<char>, SessionView)> {
    match token {
        Some(t) => kept_where(sessions, of_token(t)),
        None => if web_enabled {
            sessions
        } else {
            Seq::empty()
        },
    }
}

/// Ends a change once it was saved or not. A new password, and a panel that is off, end
/// every session but the one that the new password opens.
pub fn finish_update(
    sessions: &mut Sessions,
    pending: PendingUpdate,
    saved: Result<(), String>,
) -> (r: Reply)
    ensures
        match saved {
            Err(e) => r@ == plain_error(INTERNAL_SERVER_ERROR, e@) && final(sessions)@ == old(
                sessions,
            )@,
            Ok(_) => {
                &&& r@ == update_saved(
                    opt_view(pending.token),
                    pending.web_enabled,
                    pending.allow_remote,
                )
                &&& final(sessions)@ == sessions_left(
                    old(sessions)@,
                    opt_view(pending.token),
                    pending.web_enabled,
                )
            },
        },
{
    match saved {
        Err(e) => return error_only(INTERNAL_SERVER_ERROR, &e),
        Ok(_) => {},
    }
    if pending.token.is_some() || !pending.web_enabled {
        sessions.keep_only(&pending.token);
    }
    let warning = if pending.allow_remote {
        Json::string(
            "远程访问使用明文 HTTP，请仅在可信内网中启用，并确保已设置强密码。",
        )
    } else {
        Json::Null
    };
    Reply {
        status: OK,
        body: Json::object().with("status", Json::string("ok")).with(
            "message",
            Json::string("安全配置已保存"),
        ).with("token", json_or_null(&pending.token)).with(
            "web_enabled",
            Json::Bool(pending.web_enabled),
        ).with("allow_remote", Json::Bool(pending.allow_remote)).with("remote_warning", warning),
    }
}

/// No change leaves the panel on, or reachable from other machines, without a password;
/// nor does one leave it reachable from other machines while it is off.
pub proof fn open_panels_have_a_password(
    sec: SecurityView,
    request: UpdateSecurityRequest,
    hash: Seq<char>,
)
    requires
        !update_refused(sec, request),
    ensures
        updated(sec, request, hash).web_enabled ==> updated(sec, request, hash).password_hash
            is Some,
        updated(sec, request, hash).allow_remote ==> updated(sec, request, hash).password_hash
            is Some && updated(sec, request, hash).web_enabled,
{
}

/// A password that was set is accepted at the next login, where the panel is on.
pub proof fn set_passwords_are_accepted(
    sec: SecurityView,
    request: UpdateSecurityRequest,
    hash: Seq<char>,
)
    requires
        target_enabled(sec, request),
        new_password(request) is Some,
        hash_of(hash, new_password(request)->0),
        encode_utf8(new_password(request)->0).len() <= MAX_PASSWORD_BYTES,
    ensures
        login_accepted(updated(sec, request, hash), new_password(request)->0),
{
    reveal_strlit("argon2id$");
    assert(PASSWORD_HASH_PREFIX@.is_prefix_of(hash));
}

/// A login that replaces a hash of an older format leaves one of the current format that
/// the password is still accepted for.
pub proof fn upgrades_keep_the_password(sec: SecurityView, password: Seq<char>, fresh: Seq<char>)
    requires
        login_accepted(sec, password),
        hash_of(fresh, password),
        encode_utf8(password).len() <= MAX_PASSWORD_BYTES,
    ensures
        login_accepted(upgraded(sec, fresh), password),
        !outdated(upgraded(sec, fresh).password_hash->0),
{
    reveal_strlit("argon2id$");
    assert(PASSWORD_HASH_PREFIX@.is_prefix_of(fresh));
}

/// Whether an origin may talk to the panel: this machine, or the opaque origin of a
/// local page.
pub open spec fn origin_allowed(origin: Seq<char>) -> bool {
    origin == "null"@ || (url_parsed(origin) is Ok && local_host(url_parsed(origin)->Ok_0))
}

/// Whether a URL names this machine.
pub open spec fn local_host(u: UrlView) -> bool {
    u.host is Some && (u.host->0 == "localhost"@ || u.host->0 == "127.0.0.1"@ || u.host->0
        == "[::1]"@ || u.host->0 == "::1"@)
}

/// Whether a parsed origin names this machine.
pub fn origin_url_is_local(u: &UrlParts) -> (r: bool)
    ensures
        r == local_host(u@),
{
    match &u.host {
        Some(host) => crate::text::str_eq(host, "localhost") || crate::text::str_eq(
            host,
            "127.0.0.1",
        ) || crate::text::str_eq(host, "[::1]") || crate::text::str_eq(host, "::1"),
        None => false,
    }
}

/// Whether an origin may talk to the panel.
pub fn origin_is_loopback_or_null(origin: &str) -> (r: bool)
    ensures
        r == origin_allowed(origin@),
{
    if crate::text::str_eq(origin, "null") {
        return true;
    }
    match parse_url(origin) {
        Ok(u) => origin_url_is_local(&u),
        Err(_) => false,
    }
}

/// The token that a request presents: what follows `Bearer ` in its authorization, blanks
/// aside; only without an authorization the one under the header for local tokens.
pub proof fn requests_present_their_token(headers: Seq<(Seq<char>, Seq<u8>)>, token: Seq<char>)
    ensures
        lookup_text(headers, "authorization"@) == Some("Bearer "@ + token) ==> presented(headers)
            == Some(trimmed(token)),
        lookup_text(headers, "authorization"@) is None && lookup_text(headers, "x-local-token"@)
            == Some(token) ==> presented(headers) == Some(trimmed(token)),
        lookup_text(headers, "authorization"@) is None && lookup_text(headers, "x-local-token"@)
            is None ==> presented(headers) is None,
        lookup_text(headers, "authorization"@) is Some && !"Bearer "@.is_prefix_of(
            lookup_text(headers, "authorization"@)->0,
        ) ==> presented(headers) is None,
{
    reveal_strlit("Bearer ");
    assert("Bearer "@.len() == 7);
    let value = "Bearer "@ + token;
    assert(value.skip(7) =~= token);
    assert("Bearer "@.is_prefix_of(value));
}

/// Who is let into the panel: the local token from this machine, always; otherwise a session
/// that is valid, where the panel is on and has a password. A panel that is off or has no
/// password answers 403, everybody else gets 401, and settings that cannot be read 500.
pub proof fn the_panel_lets_sessions_in(
    sec: SecurityView,
    token: Option<Seq<char>>,
    peer: IpAddress,
    local: Seq<char>,
    sessions: Seq<(Seq<char>, SessionView)>,
    now: u64,
    reason: Seq<char>,
)
    ensures
        ({
            let out = access(Ok(sec), token, peer, local, sessions, now).0;
            let kept = kept_where(sessions, valid_entry(now, sec.password_hash));
            let session = token is Some && has_session(kept, token->0);
            let here = local_entry(token, peer, local);
            &&& out is None <==> here || (sec.web_enabled && sec.password_hash is Some && session)
            &&& !here && !sec.web_enabled ==> out->0.status == 403
            &&& !here && sec.web_enabled && sec.password_hash is None ==> out->0.status == 403
            &&& !here && sec.web_enabled && sec.password_hash is Some && !session ==> out->0.status
                == 401
            &&& access(Err(reason), token, peer, local, sessions, now).0 is Some
            &&& access(Err(reason), token, peer, local, sessions, now).0->0.status == 500
        }),
{
}

/// A request under a session uses it: it lasts longer, and nothing else about the valid
/// sessions changes.
pub proof fn requests_use_their_session(
    sec: SecurityView,
    token: Seq<char>,
    peer: IpAddress,
    local: Seq<char>,
    sessions: Seq<(Seq<char>, SessionView)>,
    now: u64,
)
    requires
        !local_entry(Some(token), peer, local),
        sec.web_enabled,
        sec.password_hash is Some,
    ensures
        access(Ok(sec), Some(token), peer, local, sessions, now).1 == touched(
            kept_where(sessions, valid_entry(now, sec.password_hash)),
            token,
            now,
        ),
{
}

/// What a caller is told of the panel: whether it is on and has a password; only a caller that
/// is known learns where it is bound and whether other machines may reach it.
pub proof fn strangers_learn_little(
    sec: SecurityView,
    known: bool,
    bind_addr: Seq<char>,
    port: u16,
)
    ensures
        ({
            let v = security_body(sec, known, bind_addr, port);
            &&& v.field("web_enabled"@) == Some(JsonView::Bool(sec.web_enabled))
            &&& v.field("password_set"@) == Some(JsonView::Bool(sec.password_hash is Some))
            &&& known ==> v.field("allow_remote"@) == Some(JsonView::Bool(sec.allow_remote))
                && v.text_field("bind_addr"@) == Some(bind_addr) && v.field("port"@) == Some(
                JsonView::Number(NumberView::Unsigned(port as u64)),
            )
            &&& !known ==> v.field("allow_remote"@) == Some(JsonView::Null) && v.field("bind_addr"@)
                == Some(JsonView::Null) && v.field("port"@) == Some(JsonView::Null)
        }),
{
    reveal_strlit("web_enabled");
    reveal_strlit("password_set");
    reveal_strlit("allow_remote");
    reveal_strlit("bind_addr");
    reveal_strlit("port");
    assert("web_enabled"@.len() == 11);
    assert("password_set"@.len() == 12 && "password_set"@[0] == 'p');
    assert("allow_remote"@.len() == 12 && "allow_remote"@[0] == 'a');
    assert("bind_addr"@.len() == 9);
    assert("port"@.len() == 4);
}

/// Who has to wait is told for how many whole seconds, at least one, with 429.
pub proof fn waiting_is_told_in_seconds(wait: u64)
    ensures
        ({
            let (reply, seconds) = too_many_attempts(wait);
            &&& reply.status == 429
            &&& seconds >= 1
            &&& wait >= 1_000_000_000 ==> seconds * 1_000_000_000 <= wait < (seconds + 1)
                * 1_000_000_000
        }),
{
}

/// What a change of the settings makes of them: what it asks for, and what was there where it
/// asks for nothing. A password counts where it is not blank, without blanks round it; the
/// panel is reachable from other machines only while it is on; the port stays.
pub proof fn changes_make_the_settings(
    sec: SecurityView,
    request: UpdateSecurityRequest,
    hash: Seq<char>,
)
    ensures
        ({
            let after = updated(sec, request, hash);
            let asked = request.password is Some && !blank(request.password->0@);
            &&& new_password(request) == (if asked {
                Some(trimmed(request.password->0@))
            } else {
                None
            })
            &&& asked ==> after.password_hash == Some(hash)
            &&& !asked ==> after.password_hash == sec.password_hash
            &&& request.web_enabled is Some ==> after.web_enabled == request.web_enabled->0
            &&& request.web_enabled is None ==> after.web_enabled == sec.web_enabled
            &&& after.allow_remote ==> after.web_enabled
            &&& after.web_enabled && request.allow_remote is Some ==> after.allow_remote
                == request.allow_remote->0
            &&& after.web_enabled && request.allow_remote is None ==> after.allow_remote
                == sec.allow_remote
            &&& after.port == sec.port
        }),
{
}

/// A change is refused exactly where it would leave the panel on, or open to other machines,
/// without a password.
pub proof fn open_panels_need_a_password(sec: SecurityView, request: UpdateSecurityRequest)
    ensures
        ({
            let on = if request.web_enabled is Some {
                request.web_enabled->0
            } else {
                sec.web_enabled
            };
            let remote = if request.allow_remote is Some {
                request.allow_remote->0
            } else {
                sec.allow_remote
            };
            let password = sec.password_hash is Some || (request.password is Some && !blank(
                request.password->0@,
            ));
            update_refused(sec, request) <==> (on || remote) && !password
        }),
{
}

/// The reply to a change that was saved hands out the token of the new session and says how
/// the panel is set now.
pub proof fn saved_changes_are_told(token: Option<Seq<char>>, web_enabled: bool, allow_remote: bool)
    ensures
        ({
            let r = update_saved(token, web_enabled, allow_remote);
            &&& r.status == 200
            &&& r.body.text_field("status"@) == Some("ok"@)
            &&& r.body.text_field("token"@) == token
            &&& r.body.field("web_enabled"@) == Some(JsonView::Bool(web_enabled))
            &&& r.body.field("allow_remote"@) == Some(JsonView::Bool(allow_remote))
            &&& r.body.text_field("remote_warning"@) is Some <==> allow_remote
        }),
{
    reveal_strlit("status");
    reveal_strlit("message");
    reveal_strlit("token");
    reveal_strlit("web_enabled");
    reveal_strlit("allow_remote");
    reveal_strlit("remote_warning");
    assert("status"@.len() == 6);
    assert("message"@.len() == 7);
    assert("token"@.len() == 5);
    assert("web_enabled"@.len() == 11);
    assert("allow_remote"@.len() == 12);
    assert("remote_warning"@.len() == 14);
}

/// A login replaces a hash of an older format by the fresh one, and changes nothing else of
/// the settings.
pub proof fn logins_change_the_hash_alone(sec: SecurityView, fresh: Seq<char>)
    requires
        sec.password_hash is Some,
    ensures
        ({
            let after = upgraded(sec, fresh);
            let old_format = !"argon2id$"@.is_prefix_of(sec.password_hash->0);
            &&& after.password_hash == (if old_format {
                Some(fresh)
            } else {
                sec.password_hash
            })
            &&& after.web_enabled == sec.web_enabled && after.allow_remote == sec.allow_remote
                && after.port == sec.port
        }),
{
}

/// A login succeeds where the panel is on and has a password that the given one is accepted
/// for.
pub proof fn logins_need_the_password(sec: SecurityView, password: Seq<char>)
    ensures
        login_accepted(sec, password) ==> sec.web_enabled && sec.password_hash is Some
            && password_accepted(password, sec.password_hash->0),
        sec.web_enabled && sec.password_hash is Some && sec.password_hash->0.len() > 0
            && password_accepted(password, sec.password_hash->0) ==> login_accepted(sec, password),
{
}

/// An error of the panel has its status, and says what it is under `error` and how it is put to
/// the user under `message`.
pub proof fn panel_errors_say_what_they_are(status: u16, error: Seq<char>, message: Seq<char>)
    ensures
        plain_error(status, error).status == status,
        plain_error(status, error).body.text_field("error"@) == Some(error),
        told_error(status, error, message).status == status,
        told_error(status, error, message).body.text_field("error"@) == Some(error),
        told_error(status, error, message).body.text_field("message"@) == Some(message),
        web_disabled().body.text_field("error"@) == Some("WebAccessDisabled"@),
        password_required().body.text_field("error"@) == Some("PasswordRequired"@),
        login_required().body.text_field("error"@) == Some("Unauthorized"@),
        too_many_attempts(status as u64).0.body.text_field("error"@) == Some("TooManyAttempts"@),
{
    reveal_strlit("error");
    reveal_strlit("message");
    assert("error"@.len() == 5);
    assert("message"@.len() == 7);
}

/// A caller is known by the local token from this machine, or by a session that is valid.
pub proof fn callers_are_known_by_token_or_session(
    token: Option<Seq<char>>,
    peer: IpAddress,
    local: Seq<char>,
    sessions: Seq<(Seq<char>, SessionView)>,
    now: u64,
    current: Option<Seq<char>>,
)
    ensures
        token is None ==> !known_caller(token, peer, local, sessions, now, current),
        known_caller(token, peer, local, sessions, now, current) ==> local_entry(token, peer, local)
            || exists|i: int|
            {
                &&& 0 <= i < sessions.len()
                &&& (#[trigger] sessions[i]).0 == token->0
                &&& sessions[i].1.valid(now, current)
            },
        local_entry(token, peer, local) ==> known_caller(token, peer, local, sessions, now, current)
            && loopback_ip(peer) && local.len() > 0,
{
    if token is Some && !local_entry(token, peer, local) && known_caller(
        token,
        peer,
        local,
        sessions,
        now,
        current,
    ) {
        let p = valid_entry(now, current);
        let kept = kept_where(sessions, p);
        crate::search::kept_where_holds(sessions, p);
        crate::search::index_where_bounds(kept, of_token(token->0));
        let k = index_where(kept, of_token(token->0));
        assert(of_token(token->0)(kept[k]));
        assert(p(kept[k]));
        assert(sessions.contains(kept[k]));
        let i = choose|i: int| 0 <= i < sessions.len() && sessions[i] == kept[k];
        assert(sessions[i].0 == token->0);
    }
}

/// A page may talk to the panel where its origin is opaque, or a URL on this machine under one of
/// its four names.
pub proof fn pages_of_this_machine_may_talk(origin: Seq<char>)
    ensures
        origin_allowed(origin) <==> origin == "null"@ || (url_parsed(origin) is Ok && ({
            let host = url_parsed(origin)->Ok_0.host;
            host == Some("localhost"@) || host == Some("127.0.0.1"@) || host == Some("[::1]"@) || host
                == Some("::1"@)
        })),
{
}

/// A new password ends every session but the one that it opens; a panel that is switched off ends
/// them all; any other change ends none.
pub proof fn changes_end_sessions(
    sessions: Seq<(Seq<char>, SessionView)>,
    token: Seq<char>,
    enabled: bool,
    i: int,
)
    ensures
        sessions_left(sessions, None, true) == sessions,
        sessions_left(sessions, None, false).len() == 0,
        0 <= i < sessions_left(sessions, Some(token), enabled).len() ==> sessions_left(
            sessions,
            Some(token),
            enabled,
        )[i].0 == token,
        0 <= i < sessions.len() && sessions[i].0 == token ==> sessions_left(
            sessions,
            Some(token),
            enabled,
        ).contains(sessions[i]),
{
    crate::search::kept_where_holds(sessions, of_token(token));
    let left = sessions_left(sessions, Some(token), enabled);
    if 0 <= i < left.len() {
        assert(of_token(token)(left[i]));
    }
    if 0 <= i < sessions.len() && sessions[i].0 == token {
        assert(sessions.contains(sessions[i]));
        assert(of_token(token)(sessions[i]));
    }
}

} // verus!
