//! Refreshing the tokens of an account.

use crate::account::{
    claims_of, parse_id_token_claims, profile_view, AccountError, AccountErrorView, AccountTokens,
    CredentialState, ProfileInfo, ProfileView, TokensView, owned,
};
use crate::accounts::{find_account, of_id};
use crate::json::{Json, JsonView};
use crate::json_text::{json_parsed, parse_json};
use crate::records::{account_views, AccountView, ActiveAccountStatus, ActiveView, ManagedAccount};
use crate::registry::pair_views;
use crate::search::index_where;
use crate::text::{
    blank, cat, cat3, cat5, chars_of, is_blank, lowered, opt_view, part_of, str_eq, to_lower,
};
use crate::time::{is_timestamp, iso_timestamp};
use vstd::prelude::*;
use vstd::string::*;

verus! {

/// The client that refreshes tokens.
pub const OPENAI_CLIENT_ID: &'static str = "app_EMoamEEZ73f0CkXaXp7hrann";

/// What follows the look at an account that is to be refreshed.
pub enum RefreshStep {
    /// Its tokens have changed since they were seen: they are used as they are.
    Reuse(ManagedAccount),
    /// They are refreshed; the account is at this index.
    Proceed(usize),
}

/// Whether an account got other tokens since some were seen, so that no refresh is needed.
pub open spec fn renewed_meanwhile(a: AccountView, observed: Option<TokensView>) -> bool {
    observed is Some && a.tokens != observed->0 && a.tokens.access_token is Some
}

/// Looks at an account that is to be refreshed. Where the caller says which tokens it
/// saw refused, tokens that are others by now are used rather than refreshed again.
pub fn refresh_lookup(
    accounts: &Vec<ManagedAccount>,
    id: &str,
    observed: &Option<AccountTokens>,
) -> (r: Result<RefreshStep, AccountError>)
    ensures
        ({
            let all = account_views(accounts@);
            let i = index_where(all, of_id(id@));
            if i >= all.len() {
                r is Err && r->Err_0@ == AccountErrorView::NotFound(id@)
            } else if renewed_meanwhile(
                all[i],
                match *observed {
                    Some(t) => Some(t@),
                    None => None,
                },
            ) {
                r is Ok && r->Ok_0 is Reuse && r->Ok_0->Reuse_0@ == all[i]
            } else {
                r is Ok && r->Ok_0 is Proceed && r->Ok_0->Proceed_0 == i
            }
        }),
{
    let i = find_account(accounts, id);
    assert(account_views(accounts@).len() == accounts@.len());
    if i >= accounts.len() {
        return Err(AccountError::NotFound(id.to_owned()));
    }
    assert(account_views(accounts@)[i as int] == accounts@[i as int]@);
    if let Some(seen) = observed {
        if !accounts[i].tokens.same(seen) && accounts[i].tokens.access_token.is_some() {
            return Ok(RefreshStep::Reuse(accounts[i].copy()));
        }
    }
    Ok(RefreshStep::Proceed(i))
}

/// Form fields, written as the body of a request.
pub uninterp spec fn form_encoded(pairs: Seq<(Seq<char>, Seq<char>)>) -> Seq<char>;

/// `form_urlencoded::Serializer` writes name and value pairs as the body of a form
/// request.
#[verifier::external_body]
fn encode_form(pairs: &Vec<(String, String)>) -> (r: String)
    ensures
        r@ == form_encoded(pair_views(pairs@)),
{
    form_urlencoded::Serializer::new(String::new()).extend_pairs(pairs).finish()
}

/// The fields of a refresh request.
pub open spec fn refresh_fields(refresh_token: Seq<char>) -> Seq<(Seq<char>, Seq<char>)> {
    seq![
        ("grant_type"@, "refresh_token"@),
        ("client_id"@, OPENAI_CLIENT_ID@),
        ("refresh_token"@, refresh_token),
    ]
}

/// The fields of a refresh request.
pub fn refresh_form(refresh_token: &str) -> (r: Vec<(String, String)>)
    ensures
        pair_views(r@) == refresh_fields(refresh_token@),
{
    let mut fields: Vec<(String, String)> = Vec::new();
    fields.push(("grant_type".to_owned(), "refresh_token".to_owned()));
    fields.push(("client_id".to_owned(), OPENAI_CLIENT_ID.to_owned()));
    fields.push(("refresh_token".to_owned(), refresh_token.to_owned()));
    assert(pair_views(fields@) =~= refresh_fields(refresh_token@));
    fields
}

/// The token with which an account may be refreshed here: not where Codex itself is logged in
/// as the account.
pub open spec fn token_to_refresh(a: AccountView, id: Seq<char>, active: ActiveView) -> Option<
    Seq<char>,
> {
    if active.is_logged_in && active.matched_account_id == Some(id) {
        None
    } else {
        a.tokens.refresh_token
    }
}

/// The body of a refresh request. The tokens of the live session belong to Codex and
/// are never refreshed here, nor is an account without a refresh token.
pub fn refresh_request(account: &ManagedAccount, id: &str, active: &ActiveAccountStatus) -> (r: Result<
    String,
    AccountError,
>)
    ensures
        match token_to_refresh(account@, id@, active@) {
            None => r is Err && r->Err_0@ == AccountErrorView::RequiresReauthentication(id@),
            Some(token) => r is Ok && r->Ok_0@ == form_encoded(refresh_fields(token)),
        },
{
    let matched = match &active.matched_account_id {
        Some(matched) => str_eq(matched, id),
        None => false,
    };
    if active.is_logged_in && matched {
        return Err(AccountError::RequiresReauthentication(id.to_owned()));
    }
    match &account.tokens.refresh_token {
        None => Err(AccountError::RequiresReauthentication(id.to_owned())),
        Some(token) => Ok(encode_form(&refresh_form(token))),
    }
}

/// The first 256 characters of a text.
pub open spec fn cut(text: Seq<char>) -> Seq<char> {
    text.take(
        if text.len() < 256 {
            text.len() as int
        } else {
            256
        },
    )
}

/// The code and the message of a refused refresh, by what the answer held as JSON.
pub open spec fn error_details(parsed: Option<JsonView>, body: Seq<char>) -> (
    Option<Seq<char>>,
    Seq<char>,
) {
    let source = match parsed {
        Some(v) => match v.field("error"@) {
            Some(nested) => Some(nested),
            None => Some(v),
        },
        None => None,
    };
    (
        crate::account::text_in(source, "code"@),
        cut(
            match crate::account::text_in(source, "message"@) {
                Some(m) => m,
                None => body,
            },
        ),
    )
}

/// The code and the message of a refused refresh, by what the answer held as JSON.
pub fn read_error_details(parsed: &Option<Json>, body: &str) -> (r: (Option<String>, String))
    ensures
        (opt_view(r.0), r.1@) == error_details(crate::json::opt_json(*parsed), body@),
{
    let source: Option<&Json> = match parsed {
        Some(v) => match v.field("error") {
            Some(nested) => Some(nested),
            None => Some(v),
        },
        None => None,
    };
    let code = match source {
        Some(v) => owned(v.text_field("code")),
        None => None,
    };
    let message = match source {
        Some(v) => match v.text_field("message") {
            Some(m) => m,
            None => body,
        },
        None => body,
    };
    let chars = chars_of(message);
    let to: usize = if chars.len() < 256 {
        chars.len()
    } else {
        256
    };
    let short = part_of(&chars, 0, to);
    assert(short@ =~= cut(message@));
    (code, short)
}

/// What a text holds as JSON, nothing where it is none.
pub open spec fn json_in(text: Seq<u8>) -> Option<JsonView> {
    match json_parsed(text) {
        Ok(v) => Some(v),
        Err(_) => None,
    }
}

/// The code and the message of a refused refresh.
pub fn oauth_error_details(body: &str) -> (r: (Option<String>, String))
    ensures
        (opt_view(r.0), r.1@) == error_details(json_in(body.spec_bytes()), body@),
{
    let parsed = match parse_json(body.as_bytes()) {
        Ok(v) => Some(v),
        Err(_) => None,
    };
    read_error_details(&parsed, body)
}

/// Whether a refused refresh asks for a new login.
pub open spec fn asks_for_login(code: Option<Seq<char>>, status: u16) -> bool {
    status == 401 || code == Some("refresh_token_expired"@) || code == Some(
        "refresh_token_reused"@,
    ) || code == Some("refresh_token_invalidated"@) || code == Some(
        "refresh_token_account_mismatch"@,
    )
}

/// Whether a refused refresh asks for a new login.
pub fn is_reauthentication_code(code: &Option<String>, status: u16) -> (r: bool)
    ensures
        r == asks_for_login(opt_view(*code), status),
{
    let fatal = match code {
        Some(c) => str_eq(c, "refresh_token_expired") || str_eq(c, "refresh_token_reused")
            || str_eq(c, "refresh_token_invalidated") || str_eq(
            c,
            "refresh_token_account_mismatch",
        ),
        None => false,
    };
    status == 401 || fatal
}

/// What is reported of a refused refresh. The status comes by its number and as it is
/// written.
pub open spec fn refusal_of(
    id: Seq<char>,
    status: u16,
    status_text: Seq<char>,
    details: (Option<Seq<char>>, Seq<char>),
) -> AccountErrorView {
    if asks_for_login(details.0, status) {
        AccountErrorView::ReauthenticationRequired {
            account_id: id,
            code: match details.0 {
                Some(c) => c,
                None => "refresh_unauthorized"@,
            },
            message: details.1,
        }
    } else {
        AccountErrorView::RefreshFailed("HTTP "@ + status_text + ": "@ + details.1)
    }
}

/// What is reported of a refused refresh, by its details.
pub fn refusal_error(id: &str, status: u16, status_text: &str, details: (Option<String>, String)) -> (r:
    AccountError)
    ensures
        r@ == refusal_of(id@, status, status_text@, (opt_view(details.0), details.1@)),
{
    let (code, message) = details;
    if is_reauthentication_code(&code, status) {
        AccountError::ReauthenticationRequired {
            account_id: id.to_owned(),
            code: match code {
                Some(c) => c,
                None => "refresh_unauthorized".to_owned(),
            },
            message,
        }
    } else {
        AccountError::RefreshFailed(cat(&cat3("HTTP ", status_text, ": "), &message))
    }
}

/// What is reported of a refused refresh.
pub fn refresh_refused(id: &str, status: u16, status_text: &str, body: &str) -> (r: AccountError)
    ensures
        r@ == refusal_of(
            id@,
            status,
            status_text@,
            error_details(json_in(body.spec_bytes()), body@),
        ),
{
    refusal_error(id, status, status_text, oauth_error_details(body))
}

/// The text under a key, where it is not blank.
pub open spec fn solid_text(v: JsonView, key: Seq<char>) -> Option<Seq<char>> {
    match v.text_field(key) {
        Some(s) => if blank(s) {
            None
        } else {
            Some(s)
        },
        None => None,
    }
}

fn read_solid(v: &Json, key: &str) -> (r: Option<String>)
    ensures
        opt_view(r) == solid_text(v@, key@),
{
    match v.text_field(key) {
        Some(s) => if is_blank(s) {
            None
        } else {
            Some(s.to_owned())
        },
        None => None,
    }
}

/// What is reported where an account turns out to be another.
pub open spec fn changed_id(was: Seq<char>, is_now: Seq<char>) -> AccountErrorView {
    AccountErrorView::AccountIdentityMismatch(
        "account id changed from `"@ + was + "` to `"@ + is_now + "`"@,
    )
}

/// The account with an official account id, unless it has another.
pub open spec fn with_identity(a: AccountView, id: Option<Seq<char>>) -> Result<
    AccountView,
    AccountErrorView,
> {
    match id {
        None => Ok(a),
        Some(id) => if a.account_id is Some && a.account_id->0 != id {
            Err(changed_id(a.account_id->0, id))
        } else {
            Ok(
                AccountView {
                    account_id: Some(id),
                    tokens: TokensView { account_id: Some(id), ..a.tokens },
                    ..a
                },
            )
        },
    }
}

/// The account with a new id token, unless the token is for someone else.
pub open spec fn with_id_token(
    a: AccountView,
    id_token: Seq<char>,
    claimed: Result<ProfileView, AccountErrorView>,
) -> Result<AccountView, AccountErrorView> {
    match claimed {
        Err(e) => Err(
            AccountErrorView::RefreshFailed(
                "the refreshed id_token is invalid: "@ + e.message(),
            ),
        ),
        Ok(profile) => if a.email is Some && profile.email is Some && lowered(a.email->0)
            != lowered(profile.email->0) {
            Err(
                AccountErrorView::AccountIdentityMismatch(
                    "email changed from `"@ + a.email->0 + "` to `"@ + profile.email->0 + "`"@,
                ),
            )
        } else {
            match with_identity(a, profile.chatgpt_account_id) {
                Err(e) => Err(e),
                Ok(b) => Ok(
                    AccountView {
                        email: if profile.email is Some {
                            profile.email
                        } else {
                            b.email
                        },
                        plan_type: if profile.plan_type is Some {
                            profile.plan_type
                        } else {
                            b.plan_type
                        },
                        tokens: TokensView { id_token: Some(id_token), ..b.tokens },
                        ..b
                    },
                ),
            }
        },
    }
}

/// The account with a new access token and, where there is one, a new refresh token.
pub open spec fn with_new_tokens(
    a: AccountView,
    access: Seq<char>,
    refresh: Option<Seq<char>>,
) -> AccountView {
    AccountView {
        tokens: TokensView {
            access_token: Some(access),
            refresh_token: if refresh is Some {
                refresh
            } else {
                a.tokens.refresh_token
            },
            ..a.tokens
        },
        ..a
    }
}

/// The account as a successful refresh leaves it.
pub open spec fn settled_refresh(a: AccountView, stamp: Seq<char>, now: u64) -> AccountView {
    AccountView {
        credential_state: CredentialState::Ready,
        credential_issue: None,
        usage_issue: None,
        last_refresh: Some(stamp),
        updated_at: now,
        ..a
    }
}

/// The account after the answer to a refresh, or why the answer is not taken. What the
/// new id token says is given.
pub open spec fn refreshed(
    a: AccountView,
    answer: JsonView,
    claimed: Result<ProfileView, AccountErrorView>,
    stamp: Seq<char>,
    now: u64,
) -> Result<AccountView, AccountErrorView> {
    match solid_text(answer, "access_token"@) {
        None => Err(
            AccountErrorView::RefreshFailed(
                "the token endpoint returned 200 without a usable access_token"@,
            ),
        ),
        Some(access) => {
            let renewed = with_new_tokens(a, access, solid_text(answer, "refresh_token"@));
            let known = match solid_text(answer, "id_token"@) {
                Some(t) => with_id_token(renewed, t, claimed),
                None => Ok(renewed),
            };
            match known {
                Err(e) => Err(e),
                Ok(b) => match with_identity(b, solid_text(answer, "account_id"@)) {
                    Err(e) => Err(e),
                    Ok(c) => Ok(settled_refresh(c, stamp, now)),
                },
            }
        },
    }
}

fn set_identity(account: &mut ManagedAccount, id: Option<String>) -> (r: Result<(), AccountError>)
    ensures
        match with_identity(old(account)@, opt_view(id)) {
            Ok(a) => r is Ok && final(account)@ == a,
            Err(e) => r is Err && r->Err_0@ == e,
        },
{
    let id = match id {
        Some(id) => id,
        None => return Ok(()),
    };
    if let Some(known) = &account.account_id {
        if !str_eq(known, &id) {
            return Err(
                AccountError::AccountIdentityMismatch(
                    cat5("account id changed from `", known, "` to `", &id, "`"),
                ),
            );
        }
    }
    account.account_id = Some(id.clone());
    account.tokens.account_id = Some(id);
    Ok(())
}

fn set_id_token(
    account: &mut ManagedAccount,
    id_token: String,
    claimed: Result<ProfileInfo, AccountError>,
) -> (r: Result<(), AccountError>)
    ensures
        match with_id_token(old(account)@, id_token@, profile_view(claimed)) {
            Ok(a) => r is Ok && final(account)@ == a,
            Err(e) => r is Err && r->Err_0@ == e,
        },
{
    let profile = match claimed {
        Ok(profile) => profile,
        Err(e) => return Err(
            AccountError::RefreshFailed(cat("the refreshed id_token is invalid: ", &e.message())),
        ),
    };
    if let (Some(known), Some(claimed)) = (&account.email, &profile.email) {
        if !str_eq(&to_lower(known), &to_lower(claimed)) {
            return Err(
                AccountError::AccountIdentityMismatch(
                    cat5("email changed from `", known, "` to `", claimed, "`"),
                ),
            );
        }
    }
    match set_identity(account, profile.chatgpt_account_id) {
        Ok(_) => {},
        Err(e) => return Err(e),
    }
    if profile.email.is_some() {
        account.email = profile.email;
    }
    if profile.plan_type.is_some() {
        account.plan_type = profile.plan_type;
    }
    account.tokens.id_token = Some(id_token);
    Ok(())
}

/// Takes the answer to a refresh into an account, given what the new id token says. An
/// answer that is not taken leaves the account as it was.
pub fn apply_refresh(
    account: &mut ManagedAccount,
    answer: &Json,
    claimed: Result<ProfileInfo, AccountError>,
    now: u64,
) -> (r: Result<(), AccountError>)
    ensures
        exists|stamp: Seq<char>|
            {
                &&& #[trigger] is_timestamp(stamp, now)
                &&& match refreshed(old(account)@, answer@, profile_view(claimed), stamp, now) {
                    Ok(a) => r is Ok && final(account)@ == a,
                    Err(e) => r is Err && r->Err_0@ == e && *final(account) == *old(account),
                }
            },
{
    let stamp = iso_timestamp(now);
    assert(is_timestamp(stamp@, now));
    let access = match read_solid(answer, "access_token") {
        Some(access) => access,
        None => return Err(
            AccountError::RefreshFailed(
                "the token endpoint returned 200 without a usable access_token".to_owned(),
            ),
        ),
    };
    let mut changed = account.copy();
    changed.tokens.access_token = Some(access);
    let refresh = read_solid(answer, "refresh_token");
    if refresh.is_some() {
        changed.tokens.refresh_token = refresh;
    }
    assert(changed@ == with_new_tokens(
        account@,
        access@,
        solid_text(answer@, "refresh_token"@),
    ));
    if let Some(id_token) = read_solid(answer, "id_token") {
        match set_id_token(&mut changed, id_token, claimed) {
            Ok(_) => {},
            Err(e) => return Err(e),
        }
    }
    match set_identity(&mut changed, read_solid(answer, "account_id")) {
        Ok(_) => {},
        Err(e) => return Err(e),
    }
    changed.credential_state = CredentialState::Ready;
    changed.credential_issue = None;
    changed.usage_issue = None;
    changed.last_refresh = Some(stamp);
    changed.updated_at = now;
    *account = changed;
    Ok(())
}

/// What the new id token of an answer says; where there is none, nothing is asked.
pub open spec fn answer_claims(answer: JsonView) -> Result<ProfileView, AccountErrorView> {
    match solid_text(answer, "id_token"@) {
        Some(t) => claims_of(t),
        None => Ok(crate::account::no_profile()),
    }
}

/// Takes the answer to a refresh into an account.
pub fn refresh_account(account: &mut ManagedAccount, answer: &Json, now: u64) -> (r: Result<
    (),
    AccountError,
>)
    ensures
        exists|stamp: Seq<char>|
            {
                &&& #[trigger] is_timestamp(stamp, now)
                &&& match refreshed(old(account)@, answer@, answer_claims(answer@), stamp, now) {
                    Ok(a) => r is Ok && final(account)@ == a,
                    Err(e) => r is Err && r->Err_0@ == e && *final(account) == *old(account),
                }
            },
{
    let claimed = match read_solid(answer, "id_token") {
        Some(t) => parse_id_token_claims(&t),
        None => Ok(ProfileInfo::default()),
    };
    apply_refresh(account, answer, claimed, now)
}

/// What the token endpoint answered.
pub enum RefreshAnswer {
    /// It refused; the status comes by its number and as it is written.
    Refused { status: u16, status_text: String, body: String },
    /// It gave new tokens.
    Given(Json),
}

/// Ends a refresh: the account at an index takes the answer in, and is handed out.
pub fn finish_refresh(
    accounts: &mut Vec<ManagedAccount>,
    at: usize,
    id: &str,
    answer: RefreshAnswer,
    now: u64,
) -> (r: Result<ManagedAccount, AccountError>)
    requires
        at < old(accounts)@.len(),
    ensures
        match answer {
            RefreshAnswer::Refused { status, status_text, body } => {
                &&& r is Err
                &&& r->Err_0@ == refusal_of(
                    id@,
                    status,
                    status_text@,
                    error_details(json_in(vstd::utf8::encode_utf8(body@)), body@),
                )
                &&& *final(accounts) == *old(accounts)
            },
            RefreshAnswer::Given(json) => exists|stamp: Seq<char>|
                {
                    &&& #[trigger] is_timestamp(stamp, now)
                    &&& match refreshed(
                        old(accounts)@[at as int]@,
                        json@,
                        answer_claims(json@),
                        stamp,
                        now,
                    ) {
                        Ok(a) => {
                            &&& r is Ok
                            &&& r->Ok_0@ == a
                            &&& account_views(final(accounts)@) == account_views(
                                old(accounts)@,
                            ).update(at as int, a)
                        },
                        Err(e) => r is Err && r->Err_0@ == e && *final(accounts) == *old(accounts),
                    }
                },
        },
{
    match answer {
        RefreshAnswer::Refused { status, status_text, body } => Err(
            refresh_refused(id, status, &status_text, &body),
        ),
        RefreshAnswer::Given(json) => {
            let ghost all = account_views(accounts@);
            let mut account = accounts[at].copy();
            match refresh_account(&mut account, &json, now) {
                Ok(_) => {},
                Err(e) => return Err(e),
            }
            let r = account.copy();
            accounts.set(at, account);
            assert(account_views(accounts@) =~= all.update(at as int, r@));
            Ok(r)
        },
    }
}

/// A refresh never turns an account into another: an official account id that is known
/// stays, and so does the mail address but for its case. What it gives can be used.
pub proof fn refreshes_keep_the_identity(
    a: AccountView,
    answer: JsonView,
    claimed: Result<ProfileView, AccountErrorView>,
    stamp: Seq<char>,
    now: u64,
)
    requires
        refreshed(a, answer, claimed, stamp, now) is Ok,
    ensures
        ({
            let b = refreshed(a, answer, claimed, stamp, now)->Ok_0;
            &&& b.id == a.id
            &&& a.account_id is Some ==> b.account_id == a.account_id
            &&& a.email is Some ==> b.email is Some && lowered(b.email->0) == lowered(a.email->0)
            &&& b.tokens.usable()
            &&& b.credential_state == CredentialState::Ready
            &&& a.tokens.refresh_token is Some ==> b.tokens.refresh_token is Some
        }),
{
}

/// What a refresh does to the tokens: the access token is the one in the answer; the refresh
/// token and the id token are those in the answer where it gives them and they are not
/// blank, and the old ones otherwise. The account id is the one that the answer names, or
/// the id token in it, or the old one.
pub proof fn refreshes_take_the_new_tokens(
    a: AccountView,
    answer: JsonView,
    claimed: Result<ProfileView, AccountErrorView>,
    stamp: Seq<char>,
    now: u64,
)
    requires
        refreshed(a, answer, claimed, stamp, now) is Ok,
    ensures
        ({
            let b = refreshed(a, answer, claimed, stamp, now)->Ok_0;
            let access = answer.text_field("access_token"@);
            let refresh = answer.text_field("refresh_token"@);
            let id = answer.text_field("id_token"@);
            let account = answer.text_field("account_id"@);
            &&& access is Some && !blank(access->0) && b.tokens.access_token == access
            &&& b.tokens.refresh_token == (if refresh is Some && !blank(refresh->0) {
                refresh
            } else {
                a.tokens.refresh_token
            })
            &&& b.tokens.id_token == (if id is Some && !blank(id->0) {
                id
            } else {
                a.tokens.id_token
            })
            &&& account is Some && !blank(account->0) ==> b.account_id == account
                && b.tokens.account_id == account
            &&& (account is None || blank(account->0)) && id is Some && !blank(id->0) && claimed is Ok
                && claimed->Ok_0.chatgpt_account_id is Some ==> b.account_id
                == claimed->Ok_0.chatgpt_account_id && b.tokens.account_id
                == claimed->Ok_0.chatgpt_account_id
            &&& (account is None || blank(account->0)) && (id is None || blank(id->0)) ==> b.account_id
                == a.account_id && b.tokens.account_id == a.tokens.account_id
        }),
{
}

/// What a refresh does to the rest of an account: email and plan are those of a new id token
/// where it names them; the issues are cleared, the state is ready, and the times are those
/// of the refresh; everything else stays.
pub proof fn refreshes_settle_the_account(
    a: AccountView,
    answer: JsonView,
    claimed: Result<ProfileView, AccountErrorView>,
    stamp: Seq<char>,
    now: u64,
)
    requires
        refreshed(a, answer, claimed, stamp, now) is Ok,
    ensures
        ({
            let b = refreshed(a, answer, claimed, stamp, now)->Ok_0;
            let id = answer.text_field("id_token"@);
            let fresh = id is Some && !blank(id->0);
            &&& fresh ==> claimed is Ok
            &&& b.email == (if fresh && claimed->Ok_0.email is Some {
                claimed->Ok_0.email
            } else {
                a.email
            })
            &&& b.plan_type == (if fresh && claimed->Ok_0.plan_type is Some {
                claimed->Ok_0.plan_type
            } else {
                a.plan_type
            })
            &&& b.credential_state == CredentialState::Ready
            &&& b.credential_issue is None && b.usage_issue is None
            &&& b.last_refresh == Some(stamp) && b.updated_at == now
            &&& b.id == a.id && b.name == a.name && b.user_id == a.user_id
            &&& b.created_at == a.created_at && b.usage == a.usage
        }),
{
}

/// When a refresh fails though the endpoint answered: without an access token, with an id
/// token that cannot be read, and where the answer is for another account, by its email
/// (capitals aside) or by its account id. In every other case it succeeds.
pub proof fn refreshes_fail_for_another_account(
    a: AccountView,
    answer: JsonView,
    claimed: Result<ProfileView, AccountErrorView>,
    stamp: Seq<char>,
    now: u64,
)
    ensures
        ({
            let out = refreshed(a, answer, claimed, stamp, now);
            let access = answer.text_field("access_token"@);
            let id = answer.text_field("id_token"@);
            let account = answer.text_field("account_id"@);
            let usable = access is Some && !blank(access->0);
            let fresh = id is Some && !blank(id->0);
            let other_email = fresh && claimed is Ok && a.email is Some && claimed->Ok_0.email is Some
                && lowered(a.email->0) != lowered(claimed->Ok_0.email->0);
            let other_claim = fresh && claimed is Ok && a.account_id is Some
                && claimed->Ok_0.chatgpt_account_id is Some && a.account_id
                != claimed->Ok_0.chatgpt_account_id;
            let known = if fresh && claimed is Ok && claimed->Ok_0.chatgpt_account_id is Some {
                claimed->Ok_0.chatgpt_account_id
            } else {
                a.account_id
            };
            let other_id = account is Some && !blank(account->0) && known is Some && known != account;
            &&& out is Ok <==> usable && (fresh ==> claimed is Ok) && !other_email && !other_claim
                && !other_id
            &&& !usable ==> out->Err_0 is RefreshFailed
            &&& usable && fresh && claimed is Err ==> out->Err_0 is RefreshFailed
            &&& usable && (fresh ==> claimed is Ok) && out is Err ==> out->Err_0
                is AccountIdentityMismatch
        }),
{
}

/// A refusal asks for a new login for status 401 and for the four codes that say that the
/// refresh token is of no use any more; every other refusal is a failed refresh. What is
/// kept of the endpoint's words is cut to 256 characters.
pub proof fn refusals_ask_for_a_login(
    id: Seq<char>,
    status: u16,
    text: Seq<char>,
    parsed: Option<JsonView>,
    body: Seq<char>,
)
    ensures
        ({
            let details = error_details(parsed, body);
            let source = match parsed {
                Some(v) => if v.field("error"@) is Some {
                    v.field("error"@)
                } else {
                    Some(v)
                },
                None => None,
            };
            let code = match source {
                Some(v) => v.text_field("code"@),
                None => None,
            };
            let said = match source {
                Some(v) => v.text_field("message"@),
                None => None,
            };
            let words = if said is Some {
                said->0
            } else {
                body
            };
            let e = refusal_of(id, status, text, details);
            let login = status == 401 || code == Some("refresh_token_expired"@) || code == Some(
                "refresh_token_reused"@,
            ) || code == Some("refresh_token_invalidated"@) || code == Some(
                "refresh_token_account_mismatch"@,
            );
            &&& details.0 == code
            &&& details.1.len() <= 256 && details.1.is_prefix_of(words)
            &&& words.len() <= 256 ==> details.1 == words
            &&& login <==> e is ReauthenticationRequired
            &&& !login <==> e is RefreshFailed
            &&& login ==> e->account_id == id && e->ReauthenticationRequired_message == details.1
            &&& login && code is Some ==> e->code == code->0
            &&& login && code is None ==> e->code == "refresh_unauthorized"@
        }),
{
    let words = match parsed {
        Some(v) => {
            let source = if v.field("error"@) is Some {
                v.field("error"@)->0
            } else {
                v
            };
            if source.text_field("message"@) is Some {
                source.text_field("message"@)->0
            } else {
                body
            }
        },
        None => body,
    };
    assert(cut(words).is_prefix_of(words));
    if words.len() <= 256 {
        assert(cut(words) =~= words);
    }
}

/// A refresh is asked for with the refresh token, as the client that Codex is.
pub proof fn refreshes_hand_in_the_refresh_token(token: Seq<char>)
    ensures
        refresh_fields(token).len() == 3,
        refresh_fields(token).contains(("grant_type"@, "refresh_token"@)),
        refresh_fields(token).contains(("client_id"@, "app_EMoamEEZ73f0CkXaXp7hrann"@)),
        refresh_fields(token).contains(("refresh_token"@, token)),
{
    let f = refresh_fields(token);
    assert(f[0] == ("grant_type"@, "refresh_token"@));
    assert(f[1] == ("client_id"@, OPENAI_CLIENT_ID@));
    assert(f[2] == ("refresh_token"@, token));
}

/// A refresh is left out where somebody else has renewed the tokens meanwhile; without tokens
/// that were seen before, and with the very same tokens, it is made.
pub proof fn refreshes_are_made_once(a: AccountView, seen: TokensView)
    ensures
        !renewed_meanwhile(a, None),
        !renewed_meanwhile(a, Some(a.tokens)),
        renewed_meanwhile(a, Some(seen)) <==> seen != a.tokens && a.tokens.access_token is Some,
{
}

/// The live session of Codex is never refreshed here, and no other account without a refresh
/// token; every other account is refreshed with its own.
pub proof fn live_sessions_are_not_refreshed(a: AccountView, id: Seq<char>, active: ActiveView)
    ensures
        active.is_logged_in && active.matched_account_id == Some(id) ==> token_to_refresh(
            a,
            id,
            active,
        ) is None,
        !active.is_logged_in || active.matched_account_id != Some(id) ==> token_to_refresh(
            a,
            id,
            active,
        ) == a.tokens.refresh_token,
{
}

/// What a refresh claims is what the id token in the answer claims; without one, or with a blank
/// one, it claims nothing.
pub proof fn answers_claim_what_their_token_claims(answer: JsonView)
    ensures
        ({
            let id = answer.text_field("id_token"@);
            let claims = answer_claims(answer);
            &&& id is Some && !blank(id->0) ==> claims == claims_of(id->0)
            &&& id is None || blank(id->0) ==> claims is Ok && claims->Ok_0.email is None
                && claims->Ok_0.plan_type is None && claims->Ok_0.chatgpt_account_id is None
        }),
{
}

} // verus!
