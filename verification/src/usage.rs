//! Reading the usage of an account, and what follows a refused reading.

use crate::account::{AccountError, AccountErrorView, AccountTokens, CredentialState, TokensView, owned};
use crate::accounts::{find_account, of_id};
use crate::json::{json_views, opt_ref, Json, JsonView};
use crate::json_text::{json_parsed, parse_json};
use crate::records::{
    account_views, AccountIssue, AccountUsageSnapshot, AccountView, AccountsFile,
    ActiveAccountStatus, ActiveView, IssueView, ManagedAccount, ReserveLimitSummary, ReserveView,
    SnapshotView, UsageWindow,
};
use crate::search::{any_where, index_where, index_where_bounds, index_where_is};
use crate::text::{
    cat, cat5, chars_of, contains, decimal, decimal_of, has_part, opt_view, part_of, str_eq,
};
use vstd::prelude::*;
use vstd::string::*;

verus! {

/// The largest answer that is accepted from the token and usage endpoints.
pub const MAX_ACCOUNT_RESPONSE_BYTES: usize = 4_194_304;

/// The length up to which the text of a failed answer is kept.
pub const MAX_ERROR_BODY_BYTES: usize = 8192;

/// The value under a key of an optional value.
pub open spec fn inside(v: Option<JsonView>, key: Seq<char>) -> Option<JsonView> {
    match v {
        Some(v) => v.field(key),
        None => None,
    }
}

/// The unsigned number under a key of an optional value.
pub open spec fn number_inside(v: Option<JsonView>, key: Seq<char>) -> Option<u64> {
    match inside(v, key) {
        Some(n) => n.unsigned(),
        None => None,
    }
}

/// The truth value under a key of an optional value, or a default.
pub open spec fn truth_inside(v: Option<JsonView>, key: Seq<char>, default: bool) -> bool {
    match inside(v, key) {
        Some(JsonView::Bool(b)) => b,
        _ => default,
    }
}

fn look<'a>(v: Option<&'a Json>, key: &str) -> (r: Option<&'a Json>)
    ensures
        opt_ref(r) == inside(opt_ref(v), key@),
{
    match v {
        Some(v) => v.field(key),
        None => None,
    }
}

fn look_number(v: Option<&Json>, key: &str) -> (r: Option<u64>)
    ensures
        r == number_inside(opt_ref(v), key@),
{
    match look(v, key) {
        Some(n) => n.as_unsigned(),
        None => None,
    }
}

fn look_truth(v: Option<&Json>, key: &str, default: bool) -> (r: bool)
    ensures
        r == truth_inside(opt_ref(v), key@, default),
{
    match look(v, key) {
        Some(b) => match b.as_truth() {
            Some(b) => b,
            None => default,
        },
        None => default,
    }
}

/// A share of at most all.
pub open spec fn percent(n: u64) -> u32 {
    if n > 100 {
        100
    } else {
        n as u32
    }
}

/// A number, or zero.
pub open spec fn or_zero(n: Option<u64>) -> u64 {
    match n {
        Some(n) => n,
        None => 0,
    }
}

/// The window of a rate limit, where its share and its length are given.
pub open spec fn window_of(v: JsonView) -> Option<UsageWindow> {
    let used = number_inside(Some(v), "used_percent"@);
    let length = number_inside(Some(v), "limit_window_seconds"@);
    if used is Some && length is Some {
        Some(
            UsageWindow {
                used_percent: percent(used->0),
                limit_window_seconds: length->0,
                reset_after_seconds: or_zero(number_inside(Some(v), "reset_after_seconds"@)),
                reset_at: or_zero(number_inside(Some(v), "reset_at"@)),
            },
        )
    } else {
        None
    }
}

/// The window of a rate limit.
pub fn parse_usage_window(value: &Json) -> (r: Option<UsageWindow>)
    ensures
        r == window_of(value@),
{
    let used = match look_number(Some(value), "used_percent") {
        Some(n) => n,
        None => return None,
    };
    let length = match look_number(Some(value), "limit_window_seconds") {
        Some(n) => n,
        None => return None,
    };
    let reset_after = look_number(Some(value), "reset_after_seconds");
    let reset_at = look_number(Some(value), "reset_at");
    Some(
        UsageWindow {
            used_percent: if used > 100 {
                100
            } else {
                used as u32
            },
            limit_window_seconds: length,
            reset_after_seconds: match reset_after {
                Some(n) => n,
                None => 0,
            },
            reset_at: match reset_at {
                Some(n) => n,
                None => 0,
            },
        },
    )
}

/// The two windows of a usage answer: the short one, of at most five hours, and the
/// long one. A primary window that is longer counts as the long one, unless there is a
/// secondary window.
pub open spec fn windows_of(val: JsonView) -> (Option<UsageWindow>, Option<UsageWindow>) {
    let limit = val.field("rate_limit"@);
    let first = match inside(limit, "primary_window"@) {
        Some(w) => window_of(w),
        None => None,
    };
    let short = match first {
        Some(w) => if w.limit_window_seconds <= 18000 {
            first
        } else {
            None
        },
        None => None,
    };
    let long = match first {
        Some(w) => if w.limit_window_seconds <= 18000 {
            None
        } else {
            first
        },
        None => None,
    };
    (
        short,
        match inside(limit, "secondary_window"@) {
            Some(w) => if w is Null {
                long
            } else {
                window_of(w)
            },
            None => long,
        },
    )
}

/// The name of a limit, empty where it has none.
pub open spec fn limit_name(item: JsonView) -> Seq<char> {
    match item.text_field("limit_name"@) {
        Some(name) => name,
        None => ""@,
    }
}

/// Limits that are a reserve by their name.
pub open spec fn is_reserve() -> spec_fn(JsonView) -> bool {
    |item: JsonView| has_part(limit_name(item), "reserve"@)
}

/// A reserve limit.
pub open spec fn reserve_of(item: JsonView) -> ReserveView {
    let limit = item.field("rate_limit"@);
    let window = inside(limit, "primary_window"@);
    ReserveView {
        limit_name: limit_name(item),
        allowed: truth_inside(limit, "allowed"@, true),
        limit_reached: truth_inside(limit, "limit_reached"@, false),
        used_percent: match number_inside(window, "used_percent"@) {
            Some(n) => Some(percent(n)),
            None => None,
        },
        reset_after_seconds: number_inside(window, "reset_after_seconds"@),
        reset_at: number_inside(window, "reset_at"@),
    }
}

/// What a usage answer says, as of a time.
pub open spec fn snapshot_of(val: JsonView, now: u64) -> SnapshotView {
    SnapshotView {
        updated_at: now,
        plan_type: val.text_field("plan_type"@),
        primary_5h: windows_of(val).0,
        secondary_weekly: windows_of(val).1,
        reserve: match val.field("additional_rate_limits"@) {
            Some(JsonView::Array(items)) => if any_where(items, is_reserve()) {
                Some(reserve_of(items[index_where(items, is_reserve())]))
            } else {
                None
            },
            _ => None,
        },
    }
}

fn name_of(item: &Json) -> (r: String)
    ensures
        r@ == limit_name(item@),
{
    match item.text_field("limit_name") {
        Some(name) => name.to_owned(),
        None => "".to_owned(),
    }
}

fn read_reserve(item: &Json) -> (r: ReserveLimitSummary)
    ensures
        r@ == reserve_of(item@),
{
    let limit = item.field("rate_limit");
    let window = look(limit, "primary_window");
    ReserveLimitSummary {
        limit_name: name_of(item),
        allowed: look_truth(limit, "allowed", true),
        limit_reached: look_truth(limit, "limit_reached", false),
        used_percent: match look_number(window, "used_percent") {
            Some(n) => Some(
                if n > 100 {
                    100
                } else {
                    n as u32
                },
            ),
            None => None,
        },
        reset_after_seconds: look_number(window, "reset_after_seconds"),
        reset_at: look_number(window, "reset_at"),
    }
}

fn find_reserve(val: &Json) -> (r: Option<ReserveLimitSummary>)
    ensures
        (match r {
            Some(x) => Some(x@),
            None => None,
        }) == snapshot_of(val@, 0).reserve,
{
    let items = match val.field("additional_rate_limits") {
        Some(list) => match list.items() {
            Some(items) => items,
            None => return None,
        },
        None => return None,
    };
    let ghost all = json_views(items@);
    let mut i: usize = 0;
    while i < items.len()
        invariant
            i <= items@.len(),
            all == json_views(items@),
            val@.field("additional_rate_limits"@) == Some(JsonView::Array(all)),
            forall|j: int| 0 <= j < i ==> !is_reserve()(#[trigger] all[j]),
        decreases items@.len() - i,
    {
        assert(all[i as int] == items@[i as int]@);
        if contains(&name_of(&items[i]), "reserve") {
            proof {
                assert(is_reserve()(all[i as int]));
                index_where_is(all, is_reserve(), i as int);
            }
            return Some(read_reserve(&items[i]));
        }
        i = i + 1;
    }
    proof {
        index_where_is(all, is_reserve(), i as int);
    }
    None
}

/// What a usage answer says, as of a time.
pub fn parse_wham_usage_response(val: &Json, now: u64) -> (r: AccountUsageSnapshot)
    ensures
        r@ == snapshot_of(val@, now),
{
    let limit = val.field("rate_limit");
    let mut short: Option<UsageWindow> = None;
    let mut long: Option<UsageWindow> = None;
    if let Some(primary) = look(limit, "primary_window") {
        if let Some(window) = parse_usage_window(primary) {
            if window.limit_window_seconds <= 18000 {
                short = Some(window);
            } else {
                long = Some(window);
            }
        }
    }
    if let Some(secondary) = look(limit, "secondary_window") {
        match secondary {
            Json::Null => {},
            _ => {
                long = parse_usage_window(secondary);
            },
        }
    }
    AccountUsageSnapshot {
        updated_at: now,
        plan_type: owned(val.text_field("plan_type")),
        primary_5h: short,
        secondary_weekly: long,
        reserve: find_reserve(val),
    }
}

/// A share that is shown is never above all.
pub proof fn shares_are_at_most_all(val: JsonView, now: u64)
    ensures
        snapshot_of(val, now).primary_5h is Some ==> snapshot_of(
            val,
            now,
        ).primary_5h->0.used_percent <= 100,
        snapshot_of(val, now).secondary_weekly is Some ==> snapshot_of(
            val,
            now,
        ).secondary_weekly->0.used_percent <= 100,
        snapshot_of(val, now).primary_5h is Some ==> snapshot_of(
            val,
            now,
        ).primary_5h->0.limit_window_seconds <= 18000,
{
}

/// The text of a failed answer, cut where it is long.
pub fn bounded_error_text(text: String) -> (r: String)
    ensures
        r@ == (if vstd::utf8::encode_utf8(text@).len() <= MAX_ERROR_BODY_BYTES {
            text@
        } else {
            text@.take(
                if text@.len() < MAX_ERROR_BODY_BYTES {
                    text@.len() as int
                } else {
                    MAX_ERROR_BODY_BYTES as int
                },
            ) + "… (truncated)"@
        }),
{
    if text.as_str().as_bytes().len() <= MAX_ERROR_BODY_BYTES {
        return text;
    }
    let chars = chars_of(&text);
    let to: usize = if chars.len() < MAX_ERROR_BODY_BYTES {
        chars.len()
    } else {
        MAX_ERROR_BODY_BYTES
    };
    let cut = part_of(&chars, 0, to);
    assert(cut@ =~= text@.take(to as int));
    cat(&cut, "… (truncated)")
}

/// What is reported of an answer that is too large.
pub open spec fn answer_too_large(what: Seq<char>, length: nat) -> AccountErrorView {
    AccountErrorView::RefreshFailed(
        what + " returned "@ + decimal(length) + " bytes, exceeding the "@ + decimal(
            MAX_ACCOUNT_RESPONSE_BYTES as nat,
        ) + " byte limit"@,
    )
}

fn too_large(what: &str, length: u64) -> (r: AccountError)
    ensures
        r@ == answer_too_large(what@, length as nat),
{
    AccountError::RefreshFailed(
        cat(
            &cat5(
                what,
                " returned ",
                &decimal_of(length),
                " bytes, exceeding the ",
                &decimal_of(MAX_ACCOUNT_RESPONSE_BYTES as u64),
            ),
            " byte limit",
        ),
    )
}

/// Refuses an answer whose announced length is over the limit, before it is read.
pub fn check_answer_length(what: &str, length: Option<u64>) -> (r: Result<(), AccountError>)
    ensures
        match r {
            Ok(_) => length is None || length->0 <= MAX_ACCOUNT_RESPONSE_BYTES,
            Err(e) => length is Some && length->0 > MAX_ACCOUNT_RESPONSE_BYTES && e@
                == answer_too_large(what@, length->0 as nat),
        },
{
    match length {
        Some(length) => if length > MAX_ACCOUNT_RESPONSE_BYTES as u64 {
            Err(too_large(what, length))
        } else {
            Ok(())
        },
        None => Ok(()),
    }
}

/// The JSON of an answer that was read.
pub fn read_account_json(what: &str, text: &str) -> (r: Result<Json, AccountError>)
    ensures
        if text.spec_bytes().len() > MAX_ACCOUNT_RESPONSE_BYTES {
            r is Err && r->Err_0@ == answer_too_large(what@, text.spec_bytes().len())
        } else {
            match json_parsed(text.spec_bytes()) {
                Ok(v) => r is Ok && r->Ok_0@ == v,
                Err(e) => r is Err && r->Err_0@ == AccountErrorView::Json(e),
            }
        },
{
    let bytes = text.as_bytes();
    if bytes.len() > MAX_ACCOUNT_RESPONSE_BYTES {
        return Err(too_large(what, bytes.len() as u64));
    }
    match parse_json(bytes) {
        Ok(v) => Ok(v),
        Err(e) => Err(AccountError::Json(e)),
    }
}

/// The authorization and the account id with which the usage of an account is asked for.
pub open spec fn usage_headers(a: AccountView) -> Option<(Seq<char>, Option<Seq<char>>)> {
    match a.tokens.access_token {
        Some(token) => Some(("Bearer "@ + token, a.account_id)),
        None => None,
    }
}

/// What a request for the usage of an account carries: its authorization and its
/// account id. Without an access token it counts as refused.
pub fn usage_request(account: &ManagedAccount) -> (r: Result<(String, Option<String>), AccountError>)
    ensures
        match usage_headers(account@) {
            Some((authorization, id)) => r is Ok && r->Ok_0.0@ == authorization && opt_view(
                r->Ok_0.1,
            ) == id,
            None => r is Err && r->Err_0@ == (AccountErrorView::UsageCheckFailed {
                status: 401,
                message: "No access_token available"@,
            }),
        },
{
    match &account.tokens.access_token {
        Some(token) => Ok((cat("Bearer ", token), account.account_id.clone())),
        None => Err(
            AccountError::UsageCheckFailed {
                status: 401,
                message: "No access_token available".to_owned(),
            },
        ),
    }
}

/// Whether a live session is that of an account.
pub open spec fn is_live(active: ActiveView, id: Seq<char>) -> bool {
    active.is_logged_in && active.auth_mode == Some("chatgpt"@) && active.matched_account_id
        == Some(id)
}

/// Whether a live session is that of an account.
pub fn owns_live_session(active: &ActiveAccountStatus, id: &str) -> (r: bool)
    ensures
        r == is_live(active@, id@),
{
    let official = match &active.auth_mode {
        Some(mode) => str_eq(mode, "chatgpt"),
        None => false,
    };
    let matched = match &active.matched_account_id {
        Some(matched) => str_eq(matched, id),
        None => false,
    };
    active.is_logged_in && official && matched
}

/// The account with the tokens of its live session, and whether they are live.
pub open spec fn with_live_tokens(a: AccountView, live: Option<TokensView>) -> (AccountView, bool) {
    match live {
        Some(tokens) => if tokens.usable() {
            (
                AccountView {
                    tokens,
                    account_id: if tokens.account_id is Some {
                        tokens.account_id
                    } else {
                        a.account_id
                    },
                    ..a
                },
                true,
            )
        } else {
            (a, false)
        },
        None => (a, false),
    }
}

/// The account to read the usage of, with the tokens of its live session where it has
/// one. `live` is what its document gave: the tokens that were read, nothing where the
/// account has no live session.
pub fn load_account_for_usage(
    accounts: &Vec<ManagedAccount>,
    id: &str,
    live: Result<Option<AccountTokens>, AccountError>,
) -> (r: Result<(ManagedAccount, bool), AccountError>)
    ensures
        ({
            let all = account_views(accounts@);
            let i = index_where(all, of_id(id@));
            if i >= all.len() {
                r is Err && r->Err_0@ == AccountErrorView::NotFound(id@)
            } else {
                match live {
                    Err(e) => r is Err && r->Err_0@ == e@,
                    Ok(tokens) => r is Ok && (r->Ok_0.0@, r->Ok_0.1) == with_live_tokens(
                        all[i],
                        match tokens {
                            Some(t) => Some(t@),
                            None => None,
                        },
                    ),
                }
            }
        }),
{
    let i = find_account(accounts, id);
    assert(account_views(accounts@).len() == accounts@.len());
    if i >= accounts.len() {
        return Err(AccountError::NotFound(id.to_owned()));
    }
    let mut account = accounts[i].copy();
    assert(account@ == account_views(accounts@)[i as int]);
    match live {
        Err(e) => Err(e),
        Ok(None) => Ok((account, false)),
        Ok(Some(tokens)) => {
            if !tokens.has_usable_credentials() {
                return Ok((account, false));
            }
            if tokens.account_id.is_some() {
                account.account_id = tokens.account_id.clone();
            }
            account.tokens = tokens;
            Ok((account, true))
        },
    }
}

/// The tokens of a live session, as its document gives them.
pub fn live_tokens(document_there: bool, tokens: Option<Result<AccountTokens, String>>) -> (r: Result<
    AccountTokens,
    AccountError,
>)
    ensures
        if !document_there {
            r is Err && r->Err_0@ == AccountErrorView::AuthJsonInvalid("auth.json disappeared"@)
        } else {
            match tokens {
                None => r is Err && r->Err_0@ == AccountErrorView::AuthJsonInvalid(
                    "tokens field missing"@,
                ),
                Some(Err(e)) => r is Err && r->Err_0@ == AccountErrorView::AuthJsonInvalid(
                    "invalid tokens: "@ + e@,
                ),
                Some(Ok(t)) => r == Ok::<AccountTokens, AccountError>(t),
            }
        },
{
    if !document_there {
        return Err(AccountError::AuthJsonInvalid("auth.json disappeared".to_owned()));
    }
    match tokens {
        None => Err(AccountError::AuthJsonInvalid("tokens field missing".to_owned())),
        Some(Err(e)) => Err(AccountError::AuthJsonInvalid(cat("invalid tokens: ", &e))),
        Some(Ok(t)) => Ok(t),
    }
}

/// What follows a refused reading of the usage.
pub enum RefusedStep {
    /// The reading is tried once more, with the account as it is now.
    Retry(ManagedAccount),
    /// The tokens are refreshed first.
    Refresh,
    /// The user has to log in again.
    Fail(AccountError),
}

/// What is reported where the live session is refused.
pub open spec fn live_session_refused(id: Seq<char>) -> AccountErrorView {
    AccountErrorView::ReauthenticationRequired {
        account_id: id,
        code: "live_session_unauthorized"@,
        message: "the live Codex session was rejected by the usage endpoint"@,
    }
}

/// What follows a refused reading.
pub ghost enum RefusedNext {
    Retry,
    Refresh,
    Fail,
}

/// What follows a refused reading, by whose tokens were tried, whose are there now, and whether
/// they have changed.
pub open spec fn refused_next(first_live: bool, latest_live: bool, changed: bool) -> RefusedNext {
    if latest_live && (first_live || changed) {
        RefusedNext::Retry
    } else if first_live || latest_live {
        RefusedNext::Fail
    } else if changed {
        RefusedNext::Retry
    } else {
        RefusedNext::Refresh
    }
}

/// What follows a refused reading: `first` is the account that was tried, `latest` the
/// same read again. The tokens of a live session are Codex's own and never refreshed
/// here; tokens that have changed since are tried before any refresh.
pub fn after_refusal(
    id: &str,
    first: &ManagedAccount,
    first_live: bool,
    latest: ManagedAccount,
    latest_live: bool,
) -> (r: RefusedStep)
    ensures
        ({
            let changed = latest@.tokens != first@.tokens;
            match refused_next(first_live, latest_live, changed) {
                RefusedNext::Retry => r == RefusedStep::Retry(latest),
                RefusedNext::Fail => r is Fail && r->Fail_0@ == live_session_refused(id@),
                RefusedNext::Refresh => r is Refresh,
            }
        }),
        first_live || latest_live ==> !(r is Refresh),
{
    let changed = !latest.tokens.same(&first.tokens);
    if latest_live && (first_live || changed) {
        return RefusedStep::Retry(latest);
    }
    if first_live || latest_live {
        return RefusedStep::Fail(
            AccountError::ReauthenticationRequired {
                account_id: id.to_owned(),
                code: "live_session_unauthorized".to_owned(),
                message: "the live Codex session was rejected by the usage endpoint".to_owned(),
            },
        );
    }
    if changed {
        return RefusedStep::Retry(latest);
    }
    RefusedStep::Refresh
}

/// What is reported of a failed reading, by its status.
pub fn usage_failure(status: u16, text: String) -> (r: AccountError)
    ensures
        r@ == (AccountErrorView::UsageCheckFailed { status, message: text@ }),
{
    AccountError::UsageCheckFailed { status, message: text }
}

/// What is reported where the second reading fails as well: a second refusal asks for
/// a new login.
pub fn retry_failure(id: &str, error: AccountError) -> (r: AccountError)
    ensures
        if error@ is UsageCheckFailed && error@->status == 401 {
            r@ == (AccountErrorView::ReauthenticationRequired {
                account_id: id@,
                code: "usage_unauthorized"@,
                message: "the usage endpoint rejected the refreshed credential"@,
            })
        } else {
            r == error
        },
{
    match error {
        AccountError::UsageCheckFailed { status, message } => if status == 401 {
            AccountError::ReauthenticationRequired {
                account_id: id.to_owned(),
                code: "usage_unauthorized".to_owned(),
                message: "the usage endpoint rejected the refreshed credential".to_owned(),
            }
        } else {
            AccountError::UsageCheckFailed { status, message }
        },
        other => other,
    }
}

/// The issue that a failed reading leaves behind.
pub fn issue_of(error: &AccountError, now: u64) -> (r: (AccountIssue, bool))
    ensures
        r.0@ == (IssueView {
            code: error@.public_code(),
            message: error@.public_message(),
            occurred_at: now,
        }),
        r.1 == (error@.public_code() == "reauth_required"@),
{
    let code = error.public_code();
    let needs_reauth = str_eq(code, "reauth_required");
    (
        AccountIssue { code: code.to_owned(), message: error.public_message(), occurred_at: now },
        needs_reauth,
    )
}

/// The record of an account after a failed reading.
pub open spec fn with_failure(a: AccountView, issue: IssueView, needs_reauth: bool, now: u64) -> AccountView {
    AccountView {
        usage_issue: Some(issue),
        credential_state: if needs_reauth {
            CredentialState::NeedsReauth
        } else {
            a.credential_state
        },
        credential_issue: if needs_reauth {
            Some(issue)
        } else {
            a.credential_issue
        },
        updated_at: now,
        ..a
    }
}

/// Whether a failure still counts: the account has not been changed since it occurred.
pub open spec fn still_counts(a: AccountView, issue: IssueView) -> bool {
    a.updated_at <= issue.occurred_at
}

/// Records a failed reading, and says whether there is anything to save. A record that
/// is newer than the failure is left as it is.
pub fn record_usage_failure(
    file: &mut AccountsFile,
    id: &str,
    issue: AccountIssue,
    needs_reauth: bool,
    now: u64,
) -> (r: bool)
    ensures
        final(file).schema_version == old(file).schema_version,
        ({
            let all = account_views(old(file).accounts@);
            let i = index_where(all, of_id(id@));
            if i < all.len() && still_counts(all[i], issue@) {
                &&& r
                &&& account_views(final(file).accounts@) == all.update(
                    i,
                    with_failure(all[i], issue@, needs_reauth, now),
                )
            } else {
                &&& !r
                &&& *final(file) == *old(file)
            }
        }),
{
    let ghost all = account_views(file.accounts@);
    let i = find_account(&file.accounts, id);
    assert(all.len() == file.accounts@.len());
    if i >= file.accounts.len() {
        return false;
    }
    let mut account = file.accounts[i].copy();
    assert(account@ == all[i as int]);
    if account.updated_at > issue.occurred_at {
        return false;
    }
    account.usage_issue = Some(issue.copy());
    if needs_reauth {
        account.credential_state = CredentialState::NeedsReauth;
        account.credential_issue = Some(issue);
    }
    account.updated_at = now;
    file.accounts.set(i, account);
    assert(account_views(file.accounts@) =~= all.update(i as int, account@));
    true
}

/// An account after its usage was read.
pub open spec fn with_reading(a: AccountView, snapshot: SnapshotView, now: u64) -> AccountView {
    AccountView { usage: Some(snapshot), usage_issue: None, updated_at: now, ..a }
}

/// Records a successful reading, and says whether there is anything to save.
pub fn save_usage_snapshot(
    file: &mut AccountsFile,
    id: &str,
    snapshot: AccountUsageSnapshot,
    now: u64,
) -> (r: bool)
    ensures
        final(file).schema_version == old(file).schema_version,
        ({
            let all = account_views(old(file).accounts@);
            let i = index_where(all, of_id(id@));
            if i < all.len() {
                &&& r
                &&& account_views(final(file).accounts@) == all.update(
                    i,
                    with_reading(all[i], snapshot@, now),
                )
            } else {
                &&& !r
                &&& *final(file) == *old(file)
            }
        }),
{
    let ghost all = account_views(file.accounts@);
    let i = find_account(&file.accounts, id);
    assert(all.len() == file.accounts@.len());
    if i >= file.accounts.len() {
        return false;
    }
    let mut account = file.accounts[i].copy();
    assert(account@ == all[i as int]);
    account.usage = Some(snapshot);
    account.usage_issue = None;
    account.updated_at = now;
    file.accounts.set(i, account);
    assert(account_views(file.accounts@) =~= all.update(i as int, account@));
    true
}

/// How far the reading of an account's usage has come.
#[derive(Debug, Clone, Copy, PartialEq, Eq, Structural)]
pub enum UsagePhase {
    /// The usage is read for the first time.
    First,
    /// The account is read again after a refusal.
    Reloading,
    /// Its tokens are refreshed.
    Refreshing,
    /// The usage is read for the second and last time.
    Second,
}

impl UsagePhase {
    /// How many phases may still follow.
    pub open spec fn rank(self) -> nat {
        match self {
            UsagePhase::First => 3,
            UsagePhase::Reloading => 2,
            UsagePhase::Refreshing => 1,
            UsagePhase::Second => 0,
        }
    }
}

/// The reading of an account's usage under way.
pub struct UsageRun {
    pub id: String,
    pub account: ManagedAccount,
    pub live: bool,
    pub phase: UsagePhase,
}

/// The next step of reading an account's usage.
pub enum UsageStep {
    /// The usage is read with the account's tokens.
    Ask,
    /// The account is read again.
    Reload,
    /// The account's tokens are refreshed.
    Refresh,
    /// The snapshot is saved.
    Save(AccountUsageSnapshot),
    /// The reading has failed.
    Fail(AccountError),
}

impl UsageRun {
    /// Begins with an account, and whether its tokens are those of the live session.
    pub fn begin(id: String, account: ManagedAccount, live: bool) -> (r: UsageRun)
        ensures
            r == (UsageRun { id, account, live, phase: UsagePhase::First }),
    {
        UsageRun { id, account, live, phase: UsagePhase::First }
    }

    /// Goes on once the usage was read or not. Only a first refusal is followed up.
    pub fn on_reading(&mut self, outcome: Result<AccountUsageSnapshot, AccountError>) -> (r:
        UsageStep)
        requires
            old(self).phase == UsagePhase::First || old(self).phase == UsagePhase::Second,
        ensures
            match outcome {
                Ok(snapshot) => r == UsageStep::Save(snapshot) && *final(self) == *old(self),
                Err(e) => if old(self).phase == UsagePhase::Second {
                    &&& r is Fail
                    &&& *final(self) == *old(self)
                    &&& if e@ is UsageCheckFailed && e@->status == 401 {
                        r->Fail_0@ == (AccountErrorView::ReauthenticationRequired {
                            account_id: old(self).id@,
                            code: "usage_unauthorized"@,
                            message: "the usage endpoint rejected the refreshed credential"@,
                        })
                    } else {
                        r->Fail_0 == e
                    }
                } else if e@ is UsageCheckFailed && e@->status == 401 {
                    &&& r is Reload
                    &&& *final(self) == (UsageRun { phase: UsagePhase::Reloading, ..*old(self) })
                } else {
                    &&& r == UsageStep::Fail(e)
                    &&& *final(self) == *old(self)
                },
            },
            r is Reload ==> final(self).phase.rank() < old(self).phase.rank(),
            !(r is Ask) && !(r is Refresh),
    {
        match outcome {
            Ok(snapshot) => UsageStep::Save(snapshot),
            Err(e) => {
                if self.phase == UsagePhase::Second {
                    return UsageStep::Fail(retry_failure(&self.id, e));
                }
                let refused = match &e {
                    AccountError::UsageCheckFailed { status, message: _ } => *status == 401,
                    _ => false,
                };
                if refused {
                    self.phase = UsagePhase::Reloading;
                    UsageStep::Reload
                } else {
                    UsageStep::Fail(e)
                }
            },
        }
    }

    /// Goes on once the account was read again, or could not be.
    pub fn on_reloaded(&mut self, loaded: Result<(ManagedAccount, bool), AccountError>) -> (r:
        UsageStep)
        requires
            old(self).phase == UsagePhase::Reloading,
        ensures
            match loaded {
                Err(e) => r == UsageStep::Fail(e) && *final(self) == *old(self),
                Ok((latest, latest_live)) => {
                    let changed = latest@.tokens != old(self).account@.tokens;
                    match refused_next(old(self).live, latest_live, changed) {
                        RefusedNext::Retry => {
                            &&& r is Ask
                            &&& *final(self) == (UsageRun {
                                account: latest,
                                phase: UsagePhase::Second,
                                ..*old(self)
                            })
                        },
                        RefusedNext::Fail => {
                            &&& r is Fail
                            &&& r->Fail_0@ == live_session_refused(old(self).id@)
                            &&& *final(self) == *old(self)
                        },
                        RefusedNext::Refresh => {
                            &&& r is Refresh
                            &&& *final(self) == (UsageRun {
                                phase: UsagePhase::Refreshing,
                                ..*old(self)
                            })
                        },
                    }
                },
            },
            r is Refresh ==> !old(self).live,
            r is Ask || r is Refresh ==> final(self).phase.rank() < old(self).phase.rank(),
    {
        let (latest, latest_live) = match loaded {
            Ok(loaded) => loaded,
            Err(e) => return UsageStep::Fail(e),
        };
        match after_refusal(&self.id, &self.account, self.live, latest, latest_live) {
            RefusedStep::Retry(latest) => {
                self.account = latest;
                self.phase = UsagePhase::Second;
                UsageStep::Ask
            },
            RefusedStep::Refresh => {
                self.phase = UsagePhase::Refreshing;
                UsageStep::Refresh
            },
            RefusedStep::Fail(e) => UsageStep::Fail(e),
        }
    }

    /// Goes on once the tokens were refreshed, or could not be.
    pub fn on_refreshed(&mut self, refreshed: Result<ManagedAccount, AccountError>) -> (r: UsageStep)
        requires
            old(self).phase == UsagePhase::Refreshing,
        ensures
            match refreshed {
                Err(e) => r == UsageStep::Fail(e) && *final(self) == *old(self),
                Ok(account) => {
                    &&& r is Ask
                    &&& *final(self) == (UsageRun {
                        account,
                        phase: UsagePhase::Second,
                        ..*old(self)
                    })
                },
            },
            r is Ask ==> final(self).phase.rank() < old(self).phase.rank(),
    {
        match refreshed {
            Err(e) => UsageStep::Fail(e),
            Ok(account) => {
                self.account = account;
                self.phase = UsagePhase::Second;
                UsageStep::Ask
            },
        }
    }
}

/// Each number of a window that is shown is the one that the answer gives under the same
/// name; a share over a hundred is shown as a hundred, and a time that is not given as zero.
/// A window without a share or a length is not shown.
pub proof fn windows_show_their_numbers(v: JsonView)
    ensures
        ({
            let number = |key: Seq<char>|
                match v.field(key) {
                    Some(n) => n.unsigned(),
                    None => None,
                };
            let used = number("used_percent"@);
            let length = number("limit_window_seconds"@);
            let after = number("reset_after_seconds"@);
            let at = number("reset_at"@);
            match window_of(v) {
                Some(w) => {
                    &&& used is Some && length is Some
                    &&& used->0 <= 100 ==> w.used_percent == used->0
                    &&& used->0 > 100 ==> w.used_percent == 100
                    &&& w.limit_window_seconds == length->0
                    &&& after is Some ==> w.reset_after_seconds == after->0
                    &&& after is None ==> w.reset_after_seconds == 0
                    &&& at is Some ==> w.reset_at == at->0
                    &&& at is None ==> w.reset_at == 0
                },
                None => used is None || length is None,
            }
        }),
{
}

/// Which window of the answer is shown where. A primary window of up to five hours is the
/// short one, a longer one stands in for the long one; the secondary window is the long one
/// wherever the answer has it.
pub proof fn windows_are_shown_by_their_length(val: JsonView, now: u64)
    ensures
        ({
            let part = |key: Seq<char>|
                match val.field("rate_limit"@) {
                    Some(limit) => limit.field(key),
                    None => None,
                };
            let first = match part("primary_window"@) {
                Some(w) => window_of(w),
                None => None,
            };
            let second = part("secondary_window"@);
            let s = snapshot_of(val, now);
            &&& s.primary_5h is Some ==> s.primary_5h == first
            &&& s.primary_5h is Some <==> first is Some && first->0.limit_window_seconds <= 5 * 3600
            &&& second is Some && !(second->0 is Null) ==> s.secondary_weekly == window_of(second->0)
            &&& (second is None || second->0 is Null) && first is Some && first->0.limit_window_seconds
                > 5 * 3600 ==> s.secondary_weekly == first
            &&& (second is None || second->0 is Null) && (first is None
                || first->0.limit_window_seconds <= 5 * 3600) ==> s.secondary_weekly is None
        }),
{
}

/// The reserve that is shown is the first additional limit whose name says so, with its own
/// numbers under their own names: allowed and not reached unless it says otherwise, and
/// shares over a hundred cut to a hundred.
pub proof fn reserves_show_their_limit(val: JsonView, now: u64)
    ensures
        ({
            let s = snapshot_of(val, now);
            let items = val.field("additional_rate_limits"@)->0->Array_0;
            let listed = val.field("additional_rate_limits"@) is Some && val.field(
                "additional_rate_limits"@,
            )->0 is Array;
            let named = |item: JsonView|
                item.text_field("limit_name"@) is Some && has_part(
                    item.text_field("limit_name"@)->0,
                    "reserve"@,
                );
            match s.reserve {
                Some(r) => listed && exists|i: int|
                    {
                        &&& 0 <= i < items.len()
                        &&& named(#[trigger] items[i])
                        &&& forall|j: int| 0 <= j < i ==> !named(#[trigger] items[j])
                        &&& r == reserve_of(items[i])
                    },
                None => listed ==> forall|i: int| 0 <= i < items.len() ==> !named(#[trigger] items[i]),
            }
        }),
{
    if let Some(JsonView::Array(items)) = val.field("additional_rate_limits"@) {
        index_where_bounds(items, is_reserve());
        let k = index_where(items, is_reserve());
        reveal_strlit("");
        reveal_strlit("reserve");
        assert forall|j: int| 0 <= j < items.len() implies (is_reserve()(#[trigger] items[j]) <==> (
        items[j].text_field("limit_name"@) is Some && has_part(
            items[j].text_field("limit_name"@)->0,
            "reserve"@,
        ))) by {
            if items[j].text_field("limit_name"@) is None {
                assert(limit_name(items[j]).len() == 0);
                assert(forall|i: int| !crate::text::occurs_at(limit_name(items[j]), "reserve"@, i));
            }
        }
        if k < items.len() {
            assert(is_reserve()(items[k]));
        }
    }
}

/// What a reserve shows of its limit.
pub proof fn reserves_show_their_numbers(item: JsonView)
    ensures
        ({
            let r = reserve_of(item);
            let limit = item.field("rate_limit"@);
            let told = |key: Seq<char>|
                match limit {
                    Some(l) => l.field(key),
                    None => None,
                };
            let number = |key: Seq<char>|
                match told("primary_window"@) {
                    Some(w) => match w.field(key) {
                        Some(n) => n.unsigned(),
                        None => None,
                    },
                    None => None,
                };
            &&& item.text_field("limit_name"@) is Some ==> r.limit_name == item.text_field(
                "limit_name"@,
            )->0
            &&& r.allowed <==> told("allowed"@) != Some(JsonView::Bool(false))
            &&& r.limit_reached <==> told("limit_reached"@) == Some(JsonView::Bool(true))
            &&& number("used_percent"@) is None <==> r.used_percent is None
            &&& r.used_percent is Some && number("used_percent"@)->0 <= 100 ==> r.used_percent->0
                == number("used_percent"@)->0
            &&& r.used_percent is Some && number("used_percent"@)->0 > 100 ==> r.used_percent->0
                == 100
            &&& r.reset_after_seconds == number("reset_after_seconds"@)
            &&& r.reset_at == number("reset_at"@)
        }),
{
}

/// A snapshot is of the moment it was taken, under the plan that the answer names.
pub proof fn snapshots_name_their_plan(val: JsonView, now: u64)
    ensures
        snapshot_of(val, now).updated_at == now,
        snapshot_of(val, now).plan_type == val.text_field("plan_type"@),
{
}

/// The live session of Codex stands in for the tokens of an account where it can be used,
/// and brings its account id along; nothing else of the account changes.
pub proof fn live_sessions_stand_in(a: AccountView, live: Option<TokensView>)
    ensures
        ({
            let (b, used) = with_live_tokens(a, live);
            &&& used <==> live is Some && live->0.usable()
            &&& !used ==> b == a
            &&& used ==> b.tokens == live->0 && b == (AccountView {
                tokens: b.tokens,
                account_id: b.account_id,
                ..a
            })
            &&& used && live->0.account_id is Some ==> b.account_id == live->0.account_id
            &&& used && live->0.account_id is None ==> b.account_id == a.account_id
        }),
{
}

/// A failure is kept as the issue of the usage; one that asks for a new login is the issue of
/// the credential as well and marks it. The tokens, the last usage and who the account is
/// stay.
pub proof fn failures_are_kept_as_issues(
    a: AccountView,
    issue: IssueView,
    needs_reauth: bool,
    now: u64,
)
    ensures
        ({
            let b = with_failure(a, issue, needs_reauth, now);
            &&& b.usage_issue == Some(issue)
            &&& b.updated_at == now
            &&& needs_reauth ==> b.credential_state == CredentialState::NeedsReauth
                && b.credential_issue == Some(issue)
            &&& !needs_reauth ==> b.credential_state == a.credential_state && b.credential_issue
                == a.credential_issue
            &&& b.tokens == a.tokens && b.usage == a.usage && b.id == a.id && b.name == a.name
            &&& b.email == a.email && b.plan_type == a.plan_type && b.account_id == a.account_id
            &&& b.user_id == a.user_id && b.last_refresh == a.last_refresh && b.created_at
                == a.created_at
        }),
{
}

/// A reading that succeeds replaces the last one and clears its issue; everything else of the
/// account stays.
pub proof fn readings_replace_the_last(a: AccountView, snapshot: SnapshotView, now: u64)
    ensures
        ({
            let b = with_reading(a, snapshot, now);
            &&& b.usage == Some(snapshot)
            &&& b.usage_issue is None
            &&& b.updated_at == now
            &&& b.tokens == a.tokens && b.id == a.id && b.name == a.name && b.email == a.email
            &&& b.credential_state == a.credential_state && b.credential_issue
                == a.credential_issue
            &&& b.plan_type == a.plan_type && b.account_id == a.account_id && b.user_id == a.user_id
            &&& b.last_refresh == a.last_refresh && b.created_at == a.created_at
        }),
{
}

/// An account is live where Codex is logged in officially as that very account.
pub proof fn live_accounts_are_the_active_one(active: ActiveView, id: Seq<char>, other: Seq<char>)
    requires
        is_live(active, id),
    ensures
        active.is_logged_in,
        active.auth_mode == Some("chatgpt"@),
        is_live(active, other) <==> other == id,
{
}

/// The usage is asked for with the account's own access token and account id.
pub proof fn usage_is_asked_with_the_accounts_token(a: AccountView)
    ensures
        usage_headers(a) is Some <==> a.tokens.access_token is Some,
        a.tokens.access_token is Some ==> usage_headers(a) == Some(
            ("Bearer "@ + a.tokens.access_token->0, a.account_id),
        ),
{
}

/// A live session is never refreshed here: it is tried again as it is now, or the user has to
/// log in. Other tokens are tried again where they have changed, and refreshed where not.
pub proof fn refused_readings_spare_the_live_session(changed: bool, first: bool, latest: bool)
    ensures
        refused_next(first, latest, changed) is Refresh <==> !first && !latest && !changed,
        !first && !latest && changed ==> refused_next(first, latest, changed) is Retry,
        first && latest ==> refused_next(first, latest, changed) is Retry,
        first && !latest ==> refused_next(first, latest, changed) is Fail,
        !first && latest ==> (refused_next(first, latest, changed) is Retry <==> changed),
        !first && latest && !changed ==> refused_next(first, latest, changed) is Fail,
{
}

/// A failure that is older than the last change of the account says nothing of it any more.
pub proof fn older_failures_do_not_count(a: AccountView, issue: IssueView)
    ensures
        still_counts(a, issue) <==> !(issue.occurred_at < a.updated_at),
{
}

/// A live session that is refused asks the user to log in with that account.
pub proof fn refused_live_sessions_ask_for_a_login(id: Seq<char>)
    ensures
        live_session_refused(id).asks_for_login(),
        live_session_refused(id)->account_id == id,
        live_session_refused(id).public_code() == "reauth_required"@,
{
}

} // verus!
