//! The panel's answers, its static files and where it listens.

use crate::account::{AccountError, AccountTokens, owned};
use crate::http::{
    header_name, header_name_ok, Reply, ReplyView, BAD_GATEWAY, BAD_REQUEST, CONFLICT,
    INTERNAL_SERVER_ERROR, NOT_FOUND, OK, TOO_MANY_REQUESTS,
};
use crate::json::{empty_object, opt_json, Json, JsonView};
use crate::panel::{error_only, error_with_message, plain_error, told_error};
use crate::processes::{file_name, last_name};
use crate::registry::{
    AuthStrategy, AuthView, ModelCapabilities, ModelEdit, SecurityView, WebSecurity,
};
use crate::service::IpAddress;
use crate::text::{
    blank, cat, chars_of, is_blank, lowered, opt_view, part_of, split, starts_with, str_eq,
    to_lower, trim, trimmed, views,
};
use crate::urls::{trim_start_char, without_start};
use crate::tokens::{new_uuid, uuid_text, uuids_are_not_blank};
use vstd::prelude::*;
use vstd::string::*;

verus! {

/// What a change is answered: its result, and that a running router has not taken it
/// over, where it has not.
pub open spec fn mutation_body(payload: JsonView, warning: Option<Seq<char>>) -> JsonView {
    match warning {
        None => payload,
        Some(w) => (if payload is Object {
            payload
        } else {
            empty_object().with("result"@, payload)
        }).with("router_reload_warning"@, JsonView::Str(w)),
    }
}

/// What a change is answered.
pub fn mutation_response(payload: Json, reload_warning: Option<String>) -> (r: Reply)
    ensures
        r@ == (ReplyView { status: OK, body: mutation_body(payload@, opt_view(reload_warning)) }),
{
    match reload_warning {
        None => Reply { status: OK, body: payload },
        Some(warning) => {
            let base = if payload.is_object() {
                payload
            } else {
                Json::object().with("result", payload)
            };
            Reply { status: OK, body: base.with("router_reload_warning", Json::Str(warning)) }
        },
    }
}

/// The answer to an operation that gives something, or an error of the given status.
pub fn outcome_reply(outcome: Result<Json, String>, error_status: u16) -> (r: Reply)
    ensures
        r@ == (match outcome {
            Ok(v) => ReplyView { status: OK, body: v@ },
            Err(e) => plain_error(error_status, e@),
        }),
{
    match outcome {
        Ok(v) => Reply { status: OK, body: v },
        Err(e) => error_only(error_status, &e),
    }
}

/// The answer to a change: its result with what became of the reload, or why it was not
/// made.
pub fn change_reply(outcome: Result<Json, String>, reload_warning: Option<String>) -> (r: Reply)
    ensures
        r@ == (match outcome {
            Ok(v) => ReplyView { status: OK, body: mutation_body(v@, opt_view(reload_warning)) },
            Err(e) => plain_error(BAD_REQUEST, e@),
        }),
{
    match outcome {
        Ok(v) => mutation_response(v, reload_warning),
        Err(e) => error_only(BAD_REQUEST, &e),
    }
}

/// The program that lists the official models.
pub open spec fn listing_program(
    configured: String,
    desktop_entrypoint: Option<String>,
    installed: Option<Result<String, String>>,
) -> Result<String, String> {
    if configured@ != "codex"@ || desktop_entrypoint is None {
        Ok(configured)
    } else {
        match installed {
            Some(named) => named,
            None => Ok(desktop_entrypoint->0),
        }
    }
}

/// The program that lists the official models: the one that was configured; where none
/// was, that of the desktop installation, if there is one. `installed` is what the
/// installation's manifest names, where there is a manifest.
pub fn catalog_binary(
    configured: String,
    desktop_entrypoint: Option<String>,
    installed: Option<Result<String, String>>,
) -> (r: Result<String, String>)
    ensures
        r == listing_program(configured, desktop_entrypoint, installed),
{
    if !str_eq(&configured, "codex") {
        return Ok(configured);
    }
    let entrypoint = match desktop_entrypoint {
        Some(entrypoint) => entrypoint,
        None => return Ok(configured),
    };
    match installed {
        Some(named) => named,
        None => Ok(entrypoint),
    }
}

/// A way to send a credential that is fit for use, or why it is not: a header of one's
/// own must have a name that is a header name.
pub open spec fn normal_strategy(strategy: AuthView) -> Result<AuthView, Seq<char>> {
    match strategy {
        AuthView::Header(name) => if blank(name) {
            Err("自定义认证方式需要填写请求头名称"@)
        } else if !header_name_ok(trimmed(name)) {
            Err("无效的请求头名称："@ + trimmed(name))
        } else {
            Ok(AuthView::Header(trimmed(name)))
        },
        other => Ok(other),
    }
}

/// A way to send a credential that is fit for use, where one is given.
pub fn normalize_optional_auth_strategy(strategy: Option<AuthStrategy>) -> (r: Result<
    Option<AuthStrategy>,
    String,
>)
    ensures
        match strategy {
            None => r is Ok && r->Ok_0 is None,
            Some(s) => match normal_strategy(s@) {
                Ok(n) => r is Ok && r->Ok_0 is Some && r->Ok_0->0@ == n,
                Err(e) => r is Err && r->Err_0@ == e,
            },
        },
{
    match strategy {
        None => Ok(None),
        Some(AuthStrategy::Header { name }) => {
            let name = trim(&name);
            if name.as_str().is_empty() {
                return Err("自定义认证方式需要填写请求头名称".to_owned());
            }
            match header_name(&name) {
                Some(_) => Ok(Some(AuthStrategy::Header { name })),
                None => Err(cat("无效的请求头名称：", &name)),
            }
        },
        Some(other) => Ok(Some(other)),
    }
}

/// A way to send a credential that is fit for use; a bearer where none is given.
pub fn normalize_auth_strategy(strategy: Option<AuthStrategy>) -> (r: Result<AuthStrategy, String>)
    ensures
        match strategy {
            None => r is Ok && r->Ok_0@ == AuthView::Bearer,
            Some(s) => match normal_strategy(s@) {
                Ok(n) => r is Ok && r->Ok_0@ == n,
                Err(e) => r is Err && r->Err_0@ == e,
            },
        },
{
    match normalize_optional_auth_strategy(strategy) {
        Ok(Some(s)) => Ok(s),
        Ok(None) => Ok(AuthStrategy::Bearer),
        Err(e) => Err(e),
    }
}

/// The capabilities of a model that is added by hand.
pub fn added_capabilities(images: bool, tools: bool) -> (r: ModelCapabilities)
    ensures
        r == (ModelCapabilities {
            images,
            files: false,
            tools,
            reasoning: false,
            streaming: true,
        }),
{
    let base = ModelCapabilities::default();
    ModelCapabilities {
        images,
        files: base.files,
        tools,
        reasoning: base.reasoning,
        streaming: base.streaming,
    }
}

/// What a request asks for about the context window of a model.
pub open spec fn asked_window(context_window: Option<u64>, clear: bool) -> Option<Option<u64>> {
    if clear {
        Some(None)
    } else {
        match context_window {
            Some(n) => Some(Some(n)),
            None => None,
        }
    }
}

/// The edit of a model that a request asks for; clearing the context window goes before
/// setting it.
pub fn requested_edit(
    display_name: Option<String>,
    context_window: Option<u64>,
    clear_context_window: bool,
) -> (r: ModelEdit)
    ensures
        r.display_name == display_name,
        r.context_window == asked_window(context_window, clear_context_window),
{
    ModelEdit {
        display_name,
        context_window: if clear_context_window {
            Some(None)
        } else {
            match context_window {
                Some(n) => Some(Some(n)),
                None => None,
            }
        },
    }
}

/// The status under which a failed reading of the usage is answered. It is the
/// account's own trouble and not that of the panel's session, so it is never that of a
/// missing login.
pub open spec fn usage_status(code: Seq<char>) -> u16 {
    if code == "reauth_required"@ || code == "usage_unauthorized"@ {
        CONFLICT
    } else if code == "usage_rate_limited"@ {
        TOO_MANY_REQUESTS
    } else {
        BAD_GATEWAY
    }
}

/// The answer to a failed reading of the usage.
pub fn usage_error_reply(error: &AccountError, account_id: &str) -> (r: Reply)
    ensures
        r@ == (ReplyView {
            status: usage_status(error@.public_code()),
            body: empty_object().with("error"@, JsonView::Str(error@.public_code())).with(
                "message"@,
                JsonView::Str(error@.public_message()),
            ).with("account_id"@, JsonView::Str(account_id@)),
        }),
{
    let code = error.public_code();
    proof {
        reveal_strlit("reauth_required");
        reveal_strlit("usage_unauthorized");
        reveal_strlit("usage_rate_limited");
    }
    let status: u16 = if str_eq(code, "reauth_required") || str_eq(code, "usage_unauthorized") {
        CONFLICT
    } else if str_eq(code, "usage_rate_limited") {
        TOO_MANY_REQUESTS
    } else {
        BAD_GATEWAY
    };
    Reply {
        status,
        body: Json::object().with("error", Json::string(code)).with(
            "message",
            Json::Str(error.public_message()),
        ).with("account_id", Json::string(account_id)),
    }
}

/// A failed reading of the usage never makes the panel ask for its own password.
pub proof fn usage_errors_never_ask_for_the_panel_login(code: Seq<char>)
    ensures
        usage_status(code) != 401,
{
}

/// The tokens that an import brings, and when they were refreshed: given as such, or in
/// a document of the official auth mode. The document's tokens come as they were read
/// out of it.
pub fn imported_tokens(
    tokens: Option<AccountTokens>,
    auth_json: &Option<Json>,
    document_tokens: Option<Result<AccountTokens, String>>,
) -> (r: Result<(AccountTokens, Option<String>), Reply>)
    ensures
        match tokens {
            Some(t) => r is Ok && r->Ok_0.0 == t && r->Ok_0.1 is None,
            None => match opt_json(*auth_json) {
                None => r is Err && r->Err_0@ == plain_error(
                    BAD_REQUEST,
                    "Either `tokens` or `auth_json` must be provided"@,
                ),
                Some(doc) => if doc.text_field("auth_mode"@) != Some("chatgpt"@) {
                    r is Err && r->Err_0@ == plain_error(
                        BAD_REQUEST,
                        "auth_json must use the official `chatgpt` auth_mode"@,
                    )
                } else {
                    match document_tokens {
                        None => r is Err && r->Err_0@ == plain_error(
                            BAD_REQUEST,
                            "auth_json missing `tokens` object"@,
                        ),
                        Some(Err(e)) => r is Err && r->Err_0@ == plain_error(
                            BAD_REQUEST,
                            "invalid tokens structure: "@ + e@,
                        ),
                        Some(Ok(t)) => r is Ok && r->Ok_0.0 == t && opt_view(r->Ok_0.1)
                            == doc.text_field("last_refresh"@),
                    }
                },
            },
        },
{
    if let Some(t) = tokens {
        return Ok((t, None));
    }
    let doc = match auth_json {
        Some(doc) => doc,
        None => return Err(
            error_only(BAD_REQUEST, "Either `tokens` or `auth_json` must be provided"),
        ),
    };
    let official = match doc.text_field("auth_mode") {
        Some(mode) => str_eq(mode, "chatgpt"),
        None => false,
    };
    if !official {
        return Err(
            error_only(BAD_REQUEST, "auth_json must use the official `chatgpt` auth_mode"),
        );
    }
    match document_tokens {
        None => Err(error_only(BAD_REQUEST, "auth_json missing `tokens` object")),
        Some(Err(e)) => Err(error_only(BAD_REQUEST, &cat("invalid tokens structure: ", &e))),
        Some(Ok(t)) => Ok((t, owned(doc.text_field("last_refresh")))),
    }
}

/// Why the panel cannot be served.
#[derive(Debug)]
pub enum WebError {
    Io(String),
    Unauthorized(String),
    RemoteNotAllowedWithoutPassword,
    Bind { addr: String, source: String },
    Internal(String),
}

/// The message that reports why the panel cannot be served.
pub open spec fn web_message(e: WebError) -> Seq<char> {
    match e {
        WebError::Io(s) => "I/O error: "@ + s@,
        WebError::Unauthorized(s) => "unauthorized: "@ + s@,
        WebError::RemoteNotAllowedWithoutPassword =>
            "remote access not allowed without password"@,
        WebError::Bind { addr, source } => "could not bind the control panel to "@ + addr@ + ": "@
            + source@
            + "; another process is using that port — stop it, or start the panel on a different one with `codex-mp web start --port <PORT>`"@,
        WebError::Internal(s) => "internal error: "@ + s@,
    }
}

impl WebError {
    /// The message that reports why the panel cannot be served.
    pub fn message(&self) -> (r: String)
        ensures
            r@ == web_message(*self),
    {
        match self {
            WebError::Io(s) => cat("I/O error: ", s),
            WebError::Unauthorized(s) => cat("unauthorized: ", s),
            WebError::RemoteNotAllowedWithoutPassword =>
                "remote access not allowed without password".to_owned(),
            WebError::Bind { addr, source } => crate::text::cat5(
                "could not bind the control panel to ",
                addr,
                ": ",
                source,
                "; another process is using that port — stop it, or start the panel on a different one with `codex-mp web start --port <PORT>`",
            ),
            WebError::Internal(s) => cat("internal error: ", s),
        }
    }
}

/// Whether the panel is served to other machines.
pub open spec fn serves_remote(sec: SecurityView, allow_remote: Option<bool>) -> bool {
    match allow_remote {
        Some(b) => b,
        None => sec.allow_remote,
    }
}

/// The address and port at which the panel listens, nothing where it may not be reached as asked.
pub open spec fn listening_at(
    sec: SecurityView,
    port_override: Option<u16>,
    allow_remote: Option<bool>,
) -> Option<(IpAddress, u16)> {
    let port = match port_override {
        Some(p) => p,
        None => sec.port,
    };
    if !serves_remote(sec, allow_remote) {
        Some((IpAddress::V4(2130706433), port))
    } else if sec.password_hash is None {
        None
    } else {
        Some((IpAddress::V4(0), port))
    }
}

/// The address and port at which the panel listens: all of the machine's addresses, or
/// the loopback one. Other machines are never let near a panel without a password.
pub fn bind_plan(
    security: &WebSecurity,
    port_override: Option<u16>,
    allow_remote_override: Option<bool>,
) -> (r: Result<(IpAddress, u16), WebError>)
    ensures
        match listening_at(security@, port_override, allow_remote_override) {
            None => r is Err && r->Err_0 is RemoteNotAllowedWithoutPassword,
            Some(at) => r == Ok::<(IpAddress, u16), WebError>(at),
        },
        r is Ok && security@.password_hash is None ==> crate::service::loopback_ip(r->Ok_0.0),
{
    let remote = match allow_remote_override {
        Some(b) => b,
        None => security.allow_remote,
    };
    if remote && security.password_hash.is_none() {
        return Err(WebError::RemoteNotAllowedWithoutPassword);
    }
    let ip = if remote {
        IpAddress::V4(0)
    } else {
        IpAddress::V4(2130706433)
    };
    Ok(
        (
            ip,
            match port_override {
                Some(p) => p,
                None => security.port,
            },
        ),
    )
}

/// The local token of the panel, given one to fall back on: a blank one would open the
/// panel to everybody, so it is not taken.
pub fn local_token_or(given: Option<String>, fresh: String) -> (r: String)
    ensures
        r == (match given {
            Some(t) => if blank(t@) {
                fresh
            } else {
                t
            },
            None => fresh,
        }),
{
    match given {
        Some(t) => if is_blank(&t) {
            fresh
        } else {
            t
        },
        None => fresh,
    }
}

/// The local token of the panel: the one given, or a random one; never a blank one.
pub fn local_token(given: Option<String>) -> (r: String)
    ensures
        if given is Some && !blank(given->0@) {
            r == given->0
        } else {
            uuid_text(r@)
        },
        !blank(r@),
{
    let fresh = new_uuid();
    proof {
        uuids_are_not_blank(fresh@);
    }
    local_token_or(given, fresh)
}

/// The answer to a path that leads to no part of the API.
pub open spec fn no_endpoint(path: Seq<char>) -> ReplyView {
    told_error(NOT_FOUND, "NotFound"@, "no such API endpoint: "@ + path)
}

/// The answer to an unknown path of the API; any other path is a page of the panel.
pub fn api_aware_fallback(path: &str) -> (r: Option<Reply>)
    ensures
        crate::gate::opt_reply(r) == (if "/api/"@.is_prefix_of(path@) {
            Some(no_endpoint(path@))
        } else {
            None
        }),
{
    if starts_with(path, "/api/") {
        Some(error_with_message(NOT_FOUND, "NotFound", &cat("no such API endpoint: ", path)))
    } else {
        None
    }
}

/// The file that a path of the panel names.
pub open spec fn asset_name(path: Seq<char>) -> Seq<char> {
    if path.len() == 0 || path == "/"@ {
        trim_start_char("index.html"@, '/')
    } else {
        trim_start_char(path, '/')
    }
}

/// The file that a path of the panel names.
pub fn asset_path(path: &str) -> (r: String)
    ensures
        r@ == asset_name(path@),
{
    if path.is_empty() || str_eq(path, "/") {
        without_start("index.html", '/')
    } else {
        without_start(path, '/')
    }
}

/// The index of the last dot, or -1.
pub open spec fn last_dot(name: Seq<char>) -> int
    decreases name.len(),
{
    if name.len() == 0 {
        -1
    } else if name.last() == '.' {
        name.len() - 1
    } else {
        last_dot(name.drop_last())
    }
}

/// The extension of a path: what follows the last dot of its file name, where something
/// stands before it.
pub open spec fn extension(path: Seq<char>) -> Option<Seq<char>> {
    match file_name(path) {
        Some(name) => if last_dot(name) > 0 {
            Some(name.skip(last_dot(name) + 1))
        } else {
            None
        },
        None => None,
    }
}

/// Whether an extension is that of a static file.
pub open spec fn asset_extension(e: Seq<char>) -> bool {
    ||| e == "js"@
    ||| e == "css"@
    ||| e == "woff"@
    ||| e == "woff2"@
    ||| e == "ttf"@
    ||| e == "otf"@
    ||| e == "svg"@
    ||| e == "png"@
    ||| e == "jpg"@
    ||| e == "jpeg"@
    ||| e == "gif"@
    ||| e == "webp"@
    ||| e == "ico"@
    ||| e == "json"@
    ||| e == "map"@
}

/// Whether a path asks for a static file rather than for a page.
pub open spec fn wants_asset(path: Seq<char>) -> bool {
    match extension(path) {
        Some(e) => asset_extension(lowered(e)),
        None => false,
    }
}

fn find_extension(path: &str) -> (r: Option<String>)
    ensures
        opt_view(r) == extension(path@),
{
    let parts = split(path, '/');
    let ghost all = views(parts@);
    let mut i: usize = parts.len();
    assert(all.take(i as int) =~= all);
    while i > 0
        invariant
            i <= parts@.len(),
            all == views(parts@),
            file_name(path@) == last_name(all.take(i as int)),
        decreases i,
    {
        let part = &parts[i - 1];
        assert(all.take(i as int).last() == part@);
        assert(all.take(i as int).drop_last() =~= all.take(i - 1));
        if !part.as_str().is_empty() && !str_eq(part, ".") {
            assert(crate::processes::named()(part@));
            if str_eq(part, "..") {
                return None;
            }
            return dot_extension(part);
        }
        assert(!crate::processes::named()(part@));
        i = i - 1;
    }
    None
}

fn dot_extension(name: &str) -> (r: Option<String>)
    ensures
        opt_view(r) == (if last_dot(name@) > 0 {
            Some(name@.skip(last_dot(name@) + 1))
        } else {
            None
        }),
{
    let chars = chars_of(name);
    let mut i: usize = chars.len();
    assert(name@.take(i as int) =~= name@);
    while i > 0
        invariant
            i <= chars@.len(),
            chars@ == name@,
            last_dot(name@) == last_dot(name@.take(i as int)),
        decreases i,
    {
        assert(name@.take(i as int).drop_last() =~= name@.take(i - 1));
        if chars[i - 1] == '.' {
            if i == 1 {
                return None;
            }
            let e = part_of(&chars, i, chars.len());
            assert(e@ =~= name@.skip(i as int));
            return Some(e);
        }
        i = i - 1;
    }
    None
}

/// Whether a path asks for a static file rather than for a page.
pub fn asks_for_asset(path: &str) -> (r: bool)
    ensures
        r == wants_asset(path@),
{
    match find_extension(path) {
        Some(e) => {
            let e = to_lower(&e);
            str_eq(&e, "js") || str_eq(&e, "css") || str_eq(&e, "woff") || str_eq(&e, "woff2")
                || str_eq(&e, "ttf") || str_eq(&e, "otf") || str_eq(&e, "svg") || str_eq(&e, "png")
                || str_eq(&e, "jpg") || str_eq(&e, "jpeg") || str_eq(&e, "gif") || str_eq(
                &e,
                "webp",
            ) || str_eq(&e, "ico") || str_eq(&e, "json") || str_eq(&e, "map")
        },
        None => false,
    }
}

/// The media type that a path's extension stands for.
pub uninterp spec fn guessed_media_type(path: Seq<char>) -> Seq<char>;

/// `mime_guess::from_path` guesses a media type by a path's extension; without a guess
/// it is that of plain bytes.
#[verifier::external_body]
fn guess_media_type(path: &str) -> (r: String)
    ensures
        r@ == guessed_media_type(path@),
{
    mime_guess::from_path(path).first_or_octet_stream().as_ref().to_owned()
}

/// What a request for a file of the panel is answered with.
pub enum StaticAnswer {
    /// The file of the given name, under a content type.
    Asset { name: String, content_type: String },
    /// The panel's start page.
    Index,
    /// Nothing.
    NotFound,
}

/// The model of what a request for a file is answered with.
pub ghost enum StaticView {
    Asset(Seq<char>, Seq<char>),
    Index,
    NotFound,
}

impl View for StaticAnswer {
    type V = StaticView;

    open spec fn view(&self) -> StaticView {
        match *self {
            StaticAnswer::Asset { name, content_type } => StaticView::Asset(name@, content_type@),
            StaticAnswer::Index => StaticView::Index,
            StaticAnswer::NotFound => StaticView::NotFound,
        }
    }
}

/// What a request for a path of the panel is answered with, by whether the file that it
/// names and the start page are there. A static file that is not there is not found;
/// any other path is a page of the panel.
pub open spec fn static_answer(path: Seq<char>, found: bool, index_found: bool) -> StaticView {
    let name = asset_name(path);
    if found {
        StaticView::Asset(
            name,
            if crate::http::header_value_ok(guessed_media_type(name)) {
                guessed_media_type(name)
            } else {
                "application/octet-stream"@
            },
        )
    } else if wants_asset(name) || !index_found {
        StaticView::NotFound
    } else {
        StaticView::Index
    }
}

/// The content type that a guessed media type makes: that of plain bytes where the guess
/// is no header value.
pub fn asset_content_type(guess: String) -> (r: String)
    ensures
        r@ == (if crate::http::header_value_ok(guess@) {
            guess@
        } else {
            "application/octet-stream"@
        }),
{
    match crate::http::header_value(&guess) {
        Some(_) => guess,
        None => "application/octet-stream".to_owned(),
    }
}

/// What a request for a path of the panel is answered with.
pub fn static_handler(path: &str, found: bool, index_found: bool) -> (r: StaticAnswer)
    ensures
        r@ == static_answer(path@, found, index_found),
{
    let name = asset_path(path);
    if found {
        let content_type = asset_content_type(guess_media_type(&name));
        return StaticAnswer::Asset { name, content_type };
    }
    if asks_for_asset(&name) || !index_found {
        StaticAnswer::NotFound
    } else {
        StaticAnswer::Index
    }
}

/// The headers that every file of the panel is sent with.
pub fn security_headers() -> (r: Vec<(&'static str, &'static str)>)
    ensures
        r@.len() == 3,
        r@[0].0@ == "content-security-policy"@,
        r@[0].1@
            == "default-src 'none'; script-src 'self'; style-src 'self' 'unsafe-inline'; font-src 'self'; img-src 'self' data:; connect-src 'self' http://127.0.0.1:* http://localhost:*; form-action 'none'; base-uri 'none'; frame-ancestors 'none'; object-src 'none'"@,
        r@[1].0@ == "x-content-type-options"@,
        r@[1].1@ == "nosniff"@,
        r@[2].0@ == "referrer-policy"@,
        r@[2].1@ == "no-referrer"@,
{
    let mut out: Vec<(&'static str, &'static str)> = Vec::new();
    out.push(
        (
            "content-security-policy",
            "default-src 'none'; script-src 'self'; style-src 'self' 'unsafe-inline'; font-src 'self'; img-src 'self' data:; connect-src 'self' http://127.0.0.1:* http://localhost:*; form-action 'none'; base-uri 'none'; frame-ancestors 'none'; object-src 'none'",
        ),
    );
    out.push(("x-content-type-options", "nosniff"));
    out.push(("referrer-policy", "no-referrer"));
    out
}

/// The status of the router while it is being started.
pub fn starting_status() -> (r: Reply)
    ensures
        r@ == (ReplyView {
            status: OK,
            body: empty_object().with("running"@, JsonView::Bool(true)).with(
                "healthy"@,
                JsonView::Bool(false),
            ).with("starting"@, JsonView::Bool(true)).with("last_error"@, JsonView::Null),
        }),
{
    Reply {
        status: OK,
        body: Json::object().with("running", Json::Bool(true)).with(
            "healthy",
            Json::Bool(false),
        ).with("starting", Json::Bool(true)).with("last_error", Json::Null),
    }
}

/// The answer to a restart of the router.
pub fn restart_reply(outcome: Result<String, String>) -> (r: Reply)
    ensures
        r@ == (match outcome {
            Ok(base_url) => ReplyView {
                status: OK,
                body: empty_object().with("status"@, JsonView::Str("ok"@)).with(
                    "base_url"@,
                    JsonView::Str(base_url@),
                ),
            },
            Err(e) => plain_error(INTERNAL_SERVER_ERROR, e@),
        }),
{
    match outcome {
        Ok(base_url) => Reply {
            status: OK,
            body: Json::object().with("status", Json::string("ok")).with(
                "base_url",
                Json::Str(base_url),
            ),
        },
        Err(e) => error_only(INTERNAL_SERVER_ERROR, &e),
    }
}

/// The first file that there is: the one asked for, that of the environment, the one beside this
/// program, the one that was built here.
pub open spec fn preferred(
    asked: Option<String>,
    environment: Option<String>,
    beside: Option<String>,
    built: Option<String>,
) -> Option<String> {
    if asked is Some {
        asked
    } else if environment is Some {
        environment
    } else if beside is Some {
        beside
    } else {
        built
    }
}

/// The app-server that a desktop installation uses: the one asked for, else that of the
/// environment, else the one beside this program, else the one that was built here.
pub fn choose_app_server(
    asked: Option<String>,
    environment: Option<String>,
    beside: Option<String>,
    built: Option<String>,
) -> (r: Result<String, Reply>)
    ensures
        match r {
            Ok(path) => preferred(asked, environment, beside, built) == Some(path),
            Err(e) => {
                &&& preferred(asked, environment, beside, built) is None
                &&& e@ == plain_error(
                    BAD_REQUEST,
                    "未找到 patched app-server 二进制。请设置环境变量 CODEX_MP_APP_SERVER_BIN 或将 codex-mp-app-server-bin 放在程序运行目录下"@,
                )
            },
        },
{
    if let Some(path) = asked {
        return Ok(path);
    }
    if let Some(path) = environment {
        return Ok(path);
    }
    if let Some(path) = beside {
        return Ok(path);
    }
    match built {
        Some(path) => Ok(path),
        None => Err(
            error_only(
                BAD_REQUEST,
                "未找到 patched app-server 二进制。请设置环境变量 CODEX_MP_APP_SERVER_BIN 或将 codex-mp-app-server-bin 放在程序运行目录下",
            ),
        ),
    }
}

/// The build record that a desktop installation uses: the one asked for, else that of
/// the environment, else the one beside the app-server.
pub fn choose_build_metadata(
    asked: Option<String>,
    environment: Option<String>,
    beside: Option<String>,
) -> (r: Result<String, Reply>)
    ensures
        match r {
            Ok(path) => preferred(asked, environment, beside, None) == Some(path),
            Err(e) => {
                &&& preferred(asked, environment, beside, None) is None
                &&& e@ == plain_error(
                    BAD_REQUEST,
                    "app-server 没有上级目录或未找到 codex-mp-build.json"@,
                )
            },
        },
{
    if let Some(path) = asked {
        return Ok(path);
    }
    if let Some(path) = environment {
        return Ok(path);
    }
    match beside {
        Some(path) => Ok(path),
        None => Err(
            error_only(
                BAD_REQUEST,
                "app-server 没有上级目录或未找到 codex-mp-build.json",
            ),
        ),
    }
}

/// How far a desktop installation has come.
#[derive(Debug, Clone, Copy, PartialEq, Eq, Structural)]
pub enum InstallStage {
    Discover,
    Install,
    LoadRegistry,
    BuildCatalog,
    Report,
}

/// What follows a stage of a desktop installation.
pub enum InstallStep {
    Next(InstallStage),
    Done,
    /// The installation has failed; where it says so, the desktop is restored first.
    Fail { restore: bool, reply: Reply },
}

/// The stage after another.
pub open spec fn stage_after(stage: InstallStage) -> Option<InstallStage> {
    match stage {
        InstallStage::Discover => Some(InstallStage::Install),
        InstallStage::Install => Some(InstallStage::LoadRegistry),
        InstallStage::LoadRegistry => Some(InstallStage::BuildCatalog),
        InstallStage::BuildCatalog => Some(InstallStage::Report),
        InstallStage::Report => None,
    }
}

/// Whether what was installed is taken back where a stage fails.
pub open spec fn takes_back(stage: InstallStage) -> bool {
    stage == InstallStage::BuildCatalog
}

/// The status with which a failed stage is answered.
pub open spec fn failed_stage_status(stage: InstallStage) -> u16 {
    if stage == InstallStage::Discover {
        BAD_REQUEST
    } else {
        INTERNAL_SERVER_ERROR
    }
}

/// What follows a stage of a desktop installation. What was installed is taken back
/// where the catalog cannot be built.
pub fn install_step(stage: InstallStage, outcome: Result<(), String>) -> (r: InstallStep)
    ensures
        match outcome {
            Ok(_) => r == (match stage_after(stage) {
                Some(next) => InstallStep::Next(next),
                None => InstallStep::Done,
            }),
            Err(e) => {
                &&& r is Fail
                &&& r->restore == takes_back(stage)
                &&& r->reply@ == plain_error(failed_stage_status(stage), e@)
            },
        },
{
    match outcome {
        Ok(_) => match stage {
            InstallStage::Discover => InstallStep::Next(InstallStage::Install),
            InstallStage::Install => InstallStep::Next(InstallStage::LoadRegistry),
            InstallStage::LoadRegistry => InstallStep::Next(InstallStage::BuildCatalog),
            InstallStage::BuildCatalog => InstallStep::Next(InstallStage::Report),
            InstallStage::Report => InstallStep::Done,
        },
        Err(e) => match stage {
            InstallStage::Discover => InstallStep::Fail {
                restore: false,
                reply: error_only(BAD_REQUEST, &e),
            },
            InstallStage::BuildCatalog => InstallStep::Fail {
                restore: true,
                reply: error_only(INTERNAL_SERVER_ERROR, &e),
            },
            _ => InstallStep::Fail {
                restore: false,
                reply: error_only(INTERNAL_SERVER_ERROR, &e),
            },
        },
    }
}

/// A change is answered with what it has to say; a warning about the router is added to it, and
/// nothing is lost by that.
pub proof fn warnings_are_added(payload: JsonView, warning: Seq<char>, key: Seq<char>)
    ensures
        mutation_body(payload, None) == payload,
        mutation_body(payload, Some(warning)).text_field("router_reload_warning"@) == Some(warning),
        payload is Object && key != "router_reload_warning"@ ==> mutation_body(
            payload,
            Some(warning),
        ).field(key) == payload.field(key),
        !(payload is Object) ==> mutation_body(payload, Some(warning)).field("result"@) == Some(
            payload,
        ),
{
    reveal_strlit("result");
    reveal_strlit("router_reload_warning");
    assert("result"@.len() == 6);
    assert("router_reload_warning"@.len() == 21);
}

/// A header of the user's choice is taken without the blanks round its name, and refused where
/// the name is blank or no header's; every other strategy is taken as it is.
pub proof fn strategies_are_normal(strategy: AuthView)
    ensures
        !(strategy is Header) ==> normal_strategy(strategy) == Ok::<AuthView, Seq<char>>(strategy),
        strategy is Header ==> (normal_strategy(strategy) is Ok <==> !blank(strategy->Header_0)
            && header_name_ok(trimmed(strategy->Header_0))),
        strategy is Header && normal_strategy(strategy) is Ok ==> normal_strategy(strategy)
            == Ok::<AuthView, Seq<char>>(AuthView::Header(trimmed(strategy->Header_0))),
{
}

/// A failed reading of the usage is a conflict where the user has to log in with the account, a
/// request to wait where the service asks for it, and a bad gateway otherwise.
pub proof fn usage_failures_have_their_status(code: Seq<char>)
    ensures
        usage_status(code) == 409 <==> code == "reauth_required"@ || code == "usage_unauthorized"@,
        usage_status(code) == 429 <==> code == "usage_rate_limited"@,
        usage_status(code) == 409 || usage_status(code) == 429 || usage_status(code) == 502,
{
    reveal_strlit("reauth_required");
    reveal_strlit("usage_unauthorized");
    reveal_strlit("usage_rate_limited");
    assert("reauth_required"@.len() == 15);
    assert("usage_unauthorized"@.len() == 18 && "usage_unauthorized"@[6] == 'u');
    assert("usage_rate_limited"@.len() == 18 && "usage_rate_limited"@[6] == 'r');
}

/// Where the panel listens: on this machine alone, unless other machines are let in, which the
/// caller's word decides before the settings and which needs a password. The port is the
/// caller's, else that of the settings.
pub proof fn panels_listen_locally(
    sec: SecurityView,
    port_override: Option<u16>,
    allow_remote: Option<bool>,
)
    ensures
        ({
            let at = listening_at(sec, port_override, allow_remote);
            let (address, port) = at->0;
            let remote = allow_remote == Some(true) || (allow_remote is None && sec.allow_remote);
            &&& at is None <==> remote && sec.password_hash is None
            &&& at is Some && !remote ==> address == IpAddress::V4(0x7f00_0001)
            &&& at is Some && remote ==> address == IpAddress::V4(0)
            &&& at is Some && port_override is Some ==> port == port_override->0
            &&& at is Some && port_override is None ==> port == sec.port
        }),
{
}

/// Clearing a context window goes before setting it; a request that speaks of neither leaves it.
pub proof fn windows_are_cleared_before_set(window: Option<u64>)
    ensures
        asked_window(window, true) == Some(None::<u64>),
        window is Some ==> asked_window(window, false) == Some(window),
        asked_window(None, false) is None,
{
}

/// A desktop installation goes through its stages in their order; what was installed is taken
/// back where the catalog cannot be built, and nowhere else. Only a desktop that cannot be
/// found is the caller's fault.
pub proof fn installations_go_stage_by_stage(stage: InstallStage)
    ensures
        stage_after(InstallStage::Discover) == Some(InstallStage::Install),
        stage_after(InstallStage::Install) == Some(InstallStage::LoadRegistry),
        stage_after(InstallStage::LoadRegistry) == Some(InstallStage::BuildCatalog),
        stage_after(InstallStage::BuildCatalog) == Some(InstallStage::Report),
        stage_after(InstallStage::Report) is None,
        takes_back(stage) <==> stage == InstallStage::BuildCatalog,
        failed_stage_status(stage) == (if stage == InstallStage::Discover {
            400u16
        } else {
            500
        }),
{
}

/// A program that was configured lists the models; only where none was, the desktop's does: the
/// one that its manifest names, else its own.
pub proof fn configured_programs_list_the_models(
    configured: String,
    desktop: Option<String>,
    installed: Option<Result<String, String>>,
)
    ensures
        ({
            let r = listing_program(configured, desktop, installed);
            &&& configured@ != "codex"@ || desktop is None ==> r == Ok::<String, String>(configured)
            &&& configured@ == "codex"@ && desktop is Some && installed is Some ==> r == installed->0
            &&& configured@ == "codex"@ && desktop is Some && installed is None ==> r == Ok::<
                String,
                String,
            >(desktop->0)
        }),
{
}

/// What a path of the panel is answered with: the file that it names; where there is none, a
/// path that asks for a file is not found, and every other path is a page of the panel.
pub proof fn pages_fall_back_to_the_index(path: Seq<char>, found: bool, index_found: bool)
    ensures
        ({
            let answer = static_answer(path, found, index_found);
            &&& found ==> answer is Asset && answer->Asset_0 == asset_name(path)
            &&& !found && wants_asset(asset_name(path)) ==> answer is NotFound
            &&& !found && !wants_asset(asset_name(path)) ==> answer == (if index_found {
                StaticView::Index
            } else {
                StaticView::NotFound
            })
            &&& path.len() == 0 || path == "/"@ ==> asset_name(path) == "index.html"@
            &&& path.len() > 0 && path[0] != '/' ==> asset_name(path) == path
            &&& asset_name("/"@ + path) == (if path.len() == 0 {
                "index.html"@
            } else {
                trim_start_char(path, '/')
            })
        }),
{
    reveal_strlit("index.html");
    reveal_strlit("/");
    assert("index.html"@[0] == 'i');
    assert("/"@[0] == '/' && "/"@.len() == 1);
    let p = "/"@ + path;
    assert(p[0] == '/');
    assert(p.drop_first() =~= path);
    if path.len() == 0 {
        assert(p =~= "/"@);
    } else {
        assert(p.len() > 1);
    }
}

/// The extension of a file is what follows the last dot in its name, unless the name begins with
/// it.
pub proof fn extensions_follow_the_last_dot(dir: Seq<char>, stem: Seq<char>, e: Seq<char>)
    requires
        stem.len() > 0,
        !stem.contains('/'),
        !e.contains('/'),
        !e.contains('.'),
        e.len() > 0,
    ensures
        extension(dir + seq!['/'] + (stem + seq!['.'] + e)) == Some(e),
        wants_asset(dir + seq!['/'] + (stem + seq!['.'] + e)) <==> asset_extension(lowered(e)),
{
    let name = stem + seq!['.'] + e;
    reveal_strlit(".");
    reveal_strlit("..");
    assert("."@.len() == 1);
    assert(".."@.len() == 2);
    assert(!name.contains('/')) by {
        if name.contains('/') {
            let i = choose|i: int| 0 <= i < name.len() && name[i] == '/';
            if i < stem.len() {
                assert(stem[i] == '/');
            } else if i > stem.len() {
                assert(e[i - stem.len() - 1] == '/');
            }
        }
    }
    crate::processes::programs_are_named_by_their_file(dir, name);
    last_dot_is(stem, e);
    assert(name.skip(stem.len() as int + 1) =~= e);
}

proof fn last_dot_is(stem: Seq<char>, e: Seq<char>)
    requires
        !e.contains('.'),
    ensures
        last_dot(stem + seq!['.'] + e) == stem.len(),
    decreases e.len(),
{
    let name = stem + seq!['.'] + e;
    if e.len() > 0 {
        assert(name.last() == e.last());
        assert(e.contains(e.last()));
        assert(name.drop_last() =~= stem + seq!['.'] + e.drop_last());
        assert(!e.drop_last().contains('.')) by {
            if e.drop_last().contains('.') {
                let i = choose|i: int| 0 <= i < e.drop_last().len() && e.drop_last()[i] == '.';
                assert(e[i] == '.');
            }
        }
        last_dot_is(stem, e.drop_last());
    } else {
        assert(name.last() == '.');
    }
}

/// What is asked for as a file of the panel: scripts, styles, fonts, images, icons, data and
/// source maps.
pub proof fn files_of_the_panel_have_known_extensions(e: Seq<char>)
    ensures
        asset_extension(e) <==> seq![
            "js"@,
            "css"@,
            "map"@,
            "json"@,
            "woff"@,
            "woff2"@,
            "ttf"@,
            "otf"@,
            "svg"@,
            "png"@,
            "jpg"@,
            "jpeg"@,
            "gif"@,
            "webp"@,
            "ico"@,
        ].contains(e),
{
    let all = seq![
        "js"@,
        "css"@,
        "map"@,
        "json"@,
        "woff"@,
        "woff2"@,
        "ttf"@,
        "otf"@,
        "svg"@,
        "png"@,
        "jpg"@,
        "jpeg"@,
        "gif"@,
        "webp"@,
        "ico"@,
    ];
    assert(all[0] == "js"@ && all[1] == "css"@ && all[2] == "map"@ && all[3] == "json"@ && all[4]
        == "woff"@ && all[5] == "woff2"@ && all[6] == "ttf"@ && all[7] == "otf"@);
    assert(all[8] == "svg"@ && all[9] == "png"@ && all[10] == "jpg"@ && all[11] == "jpeg"@ && all[12]
        == "gif"@ && all[13] == "webp"@ && all[14] == "ico"@);
}

/// A path of the programming interface that is not there is not found, and says so.
pub proof fn missing_endpoints_are_not_found(path: Seq<char>)
    ensures
        no_endpoint(path).status == 404,
        no_endpoint(path).body.text_field("error"@) == Some("NotFound"@),
{
    crate::panel::panel_errors_say_what_they_are(404, "NotFound"@, "no such API endpoint: "@ + path);
}

/// What the caller asks for goes before the environment, that before what lies beside the program,
/// and that before what was built; nothing is chosen only where there is nothing.
pub proof fn callers_choose_first(
    asked: Option<String>,
    environment: Option<String>,
    beside: Option<String>,
    built: Option<String>,
)
    ensures
        ({
            let r = preferred(asked, environment, beside, built);
            &&& asked is Some ==> r == asked
            &&& asked is None && environment is Some ==> r == environment
            &&& asked is None && environment is None && beside is Some ==> r == beside
            &&& asked is None && environment is None && beside is None ==> r == built
        }),
{
}

} // verus!
