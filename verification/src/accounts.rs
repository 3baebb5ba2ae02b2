//! Managing accounts: who is logged in, importing, renaming, deleting and switching.

use crate::account::{
    claims_of, import_profile, no_profile, owned, parse_id_token_claims, profile_view,
    token_claims, validate_import_tokens, AccountError, AccountErrorView, AccountTokens,
    CredentialState, ProfileInfo, ProfileView, TokensView,
};
use crate::json::{empty_object, opt_json, Json, JsonView};
use crate::providers::{CredentialError, CredentialErrorView};
use crate::records::{
    account_views, mails_match, same_mail, AccountView, AccountsFile, ActiveAccountStatus,
    ActiveView, ManagedAccount,
};
use crate::search::{
    any_where, found, index_where, index_where_bounds, index_where_is, kept_where, kept_where_holds,
};
use crate::text::{
    cat, cat3, insert_ordered, lowered, opt_view, ordered, starts_with, str_eq, trim, trimmed,
    views,
};
use crate::time::{is_timestamp, iso_timestamp};
use crate::tokens::{new_uuid, uuid_text};
use vstd::prelude::*;
use vstd::string::*;

verus! {

/// How many copies of a replaced `auth.json` are kept.
pub const MAX_AUTH_BACKUPS: usize = 3;

/// Accounts of an id.
pub open spec fn of_id(id: Seq<char>) -> spec_fn(AccountView) -> bool {
    |a: AccountView| a.id == id
}

/// Accounts with an official account id.
pub open spec fn with_account_id(id: Seq<char>) -> spec_fn(AccountView) -> bool {
    |a: AccountView| a.account_id == Some(id)
}

/// Accounts with a mail address.
pub open spec fn with_mail(email: Option<Seq<char>>) -> spec_fn(AccountView) -> bool {
    |a: AccountView| same_mail(a.email, email)
}

/// Accounts with a mail address but no official account id.
pub open spec fn with_mail_alone(email: Option<Seq<char>>) -> spec_fn(AccountView) -> bool {
    |a: AccountView| a.account_id is None && same_mail(a.email, email)
}

/// The index of the account of an id, or the number of accounts.
pub fn find_account(accounts: &Vec<ManagedAccount>, id: &str) -> (r: usize)
    ensures
        r == index_where(account_views(accounts@), of_id(id@)),
        r <= accounts@.len(),
{
    let ghost all = account_views(accounts@);
    let mut i: usize = 0;
    while i < accounts.len()
        invariant
            i <= accounts@.len(),
            all == account_views(accounts@),
            forall|j: int| 0 <= j < i ==> !of_id(id@)(#[trigger] all[j]),
        decreases accounts@.len() - i,
    {
        if str_eq(&accounts[i].id, id) {
            proof {
                assert(of_id(id@)(all[i as int]));
                index_where_is(all, of_id(id@), i as int);
            }
            return i;
        }
        i = i + 1;
    }
    proof {
        index_where_is(all, of_id(id@), i as int);
    }
    i
}

fn find_by_account_id(accounts: &Vec<ManagedAccount>, id: &str) -> (r: usize)
    ensures
        r == index_where(account_views(accounts@), with_account_id(id@)),
        r <= accounts@.len(),
{
    let ghost all = account_views(accounts@);
    let mut i: usize = 0;
    while i < accounts.len()
        invariant
            i <= accounts@.len(),
            all == account_views(accounts@),
            forall|j: int| 0 <= j < i ==> !with_account_id(id@)(#[trigger] all[j]),
        decreases accounts@.len() - i,
    {
        let same = match &accounts[i].account_id {
            Some(a) => str_eq(a, id),
            None => false,
        };
        assert(with_account_id(id@)(all[i as int]) == same);
        if same {
            proof {
                index_where_is(all, with_account_id(id@), i as int);
            }
            return i;
        }
        i = i + 1;
    }
    proof {
        index_where_is(all, with_account_id(id@), i as int);
    }
    i
}

fn find_by_mail(accounts: &Vec<ManagedAccount>, email: &Option<String>) -> (r: usize)
    ensures
        r == index_where(account_views(accounts@), with_mail(opt_view(*email))),
        r <= accounts@.len(),
{
    let ghost all = account_views(accounts@);
    let ghost p = with_mail(opt_view(*email));
    let mut i: usize = 0;
    while i < accounts.len()
        invariant
            i <= accounts@.len(),
            all == account_views(accounts@),
            p == with_mail(opt_view(*email)),
            forall|j: int| 0 <= j < i ==> !p(#[trigger] all[j]),
        decreases accounts@.len() - i,
    {
        let same = mails_match(&accounts[i].email, email);
        assert(p(all[i as int]) == same);
        if same {
            proof {
                index_where_is(all, p, i as int);
            }
            return i;
        }
        i = i + 1;
    }
    proof {
        index_where_is(all, p, i as int);
    }
    i
}

fn find_by_mail_alone(accounts: &Vec<ManagedAccount>, email: &Option<String>) -> (r: usize)
    ensures
        r == index_where(account_views(accounts@), with_mail_alone(opt_view(*email))),
        r <= accounts@.len(),
{
    let ghost all = account_views(accounts@);
    let ghost p = with_mail_alone(opt_view(*email));
    let mut i: usize = 0;
    while i < accounts.len()
        invariant
            i <= accounts@.len(),
            all == account_views(accounts@),
            p == with_mail_alone(opt_view(*email)),
            forall|j: int| 0 <= j < i ==> !p(#[trigger] all[j]),
        decreases accounts@.len() - i,
    {
        let same = accounts[i].account_id.is_none() && mails_match(&accounts[i].email, email);
        assert(p(all[i as int]) == same);
        if same {
            proof {
                index_where_is(all, p, i as int);
            }
            return i;
        }
        i = i + 1;
    }
    proof {
        index_where_is(all, p, i as int);
    }
    i
}

/// The id of the account at an index, where there is one.
pub open spec fn id_at(accounts: Seq<AccountView>, i: int) -> Option<Seq<char>> {
    if 0 <= i < accounts.len() {
        Some(accounts[i].id)
    } else {
        None
    }
}

/// The managed account that a live session belongs to. The official account id is the
/// stronger identity: the mail address decides only where the session has no id, or
/// where the record has none.
pub open spec fn matched_account(
    accounts: Seq<AccountView>,
    email: Option<Seq<char>>,
    account_id: Option<Seq<char>>,
) -> Option<Seq<char>> {
    match account_id {
        Some(id) => if any_where(accounts, with_account_id(id)) {
            id_at(accounts, index_where(accounts, with_account_id(id)))
        } else {
            id_at(accounts, index_where(accounts, with_mail_alone(email)))
        },
        None => id_at(accounts, index_where(accounts, with_mail(email))),
    }
}

fn match_account(
    accounts: &Vec<ManagedAccount>,
    email: &Option<String>,
    account_id: &Option<String>,
) -> (r: Option<String>)
    ensures
        opt_view(r) == matched_account(
            account_views(accounts@),
            opt_view(*email),
            opt_view(*account_id),
        ),
{
    let i = match account_id {
        Some(id) => {
            let i = find_by_account_id(accounts, id);
            if i < accounts.len() {
                i
            } else {
                find_by_mail_alone(accounts, email)
            }
        },
        None => find_by_mail(accounts, email),
    };
    assert(account_views(accounts@).len() == accounts@.len());
    if i < accounts.len() {
        Some(accounts[i].id.clone())
    } else {
        None
    }
}

/// Nobody logged in, under an auth mode.
pub open spec fn logged_out(auth_mode: Option<Seq<char>>) -> ActiveView {
    ActiveView {
        is_logged_in: false,
        email: None,
        plan_type: None,
        account_id: None,
        matched_account_id: None,
        auth_mode,
    }
}

fn nobody(auth_mode: Option<String>) -> (r: ActiveAccountStatus)
    ensures
        r@ == logged_out(opt_view(auth_mode)),
{
    ActiveAccountStatus {
        is_logged_in: false,
        email: None,
        plan_type: None,
        account_id: None,
        matched_account_id: None,
        auth_mode,
    }
}

/// Who is logged in, by what the live session says of itself.
pub open spec fn active_session(
    auth_mode: Option<Seq<char>>,
    account_id: Option<Seq<char>>,
    profile: ProfileView,
    accounts: Result<Seq<AccountView>, AccountErrorView>,
) -> Result<ActiveView, AccountErrorView> {
    let id = match account_id {
        Some(id) => Some(id),
        None => profile.chatgpt_account_id,
    };
    if profile.email is None && id is None {
        Ok(logged_out(auth_mode))
    } else {
        match accounts {
            Err(e) => Err(e),
            Ok(accounts) => Ok(
                ActiveView {
                    is_logged_in: true,
                    email: profile.email,
                    plan_type: profile.plan_type,
                    account_id: id,
                    matched_account_id: matched_account(accounts, profile.email, id),
                    auth_mode,
                },
            ),
        }
    }
}

/// What an id token says, nothing where it cannot be read.
pub open spec fn profile_or_nobody(id_token: Option<Seq<char>>) -> ProfileView {
    match id_token {
        Some(t) => match claims_of(t) {
            Ok(p) => p,
            Err(_) => no_profile(),
        },
        None => no_profile(),
    }
}

/// Who is logged in, by the document that Codex keeps of it. The tokens come as they
/// were read out of it: nothing where the document has none.
pub open spec fn active_status(
    auth: Option<JsonView>,
    tokens: Option<Result<TokensView, Seq<char>>>,
    accounts: Result<Seq<AccountView>, AccountErrorView>,
) -> Result<ActiveView, AccountErrorView> {
    match auth {
        None => Ok(logged_out(None)),
        Some(doc) => {
            let mode = doc.text_field("auth_mode"@);
            if mode != Some("chatgpt"@) {
                Ok(logged_out(mode))
            } else {
                match tokens {
                    None => Err(AccountErrorView::AuthJsonInvalid("tokens field missing"@)),
                    Some(Err(e)) => Err(AccountErrorView::AuthJsonInvalid("invalid tokens: "@ + e)),
                    Some(Ok(tokens)) => if !tokens.usable() {
                        Ok(logged_out(mode))
                    } else {
                        active_session(
                            mode,
                            crate::account::text_in(doc.field("tokens"@), "account_id"@),
                            profile_or_nobody(
                                crate::account::text_in(doc.field("tokens"@), "id_token"@),
                            ),
                            accounts,
                        )
                    },
                }
            }
        },
    }
}

/// The view of listed accounts or an error.
pub open spec fn listed_view(r: Result<&Vec<ManagedAccount>, AccountError>) -> Result<
    Seq<AccountView>,
    AccountErrorView,
> {
    match r {
        Ok(accounts) => Ok(account_views(accounts@)),
        Err(e) => Err(e@),
    }
}

/// The view of read tokens.
pub open spec fn read_tokens_view(t: Option<Result<AccountTokens, String>>) -> Option<
    Result<TokensView, Seq<char>>,
> {
    match t {
        None => None,
        Some(Ok(t)) => Some(Ok(t@)),
        Some(Err(e)) => Some(Err(e@)),
    }
}

/// The view of a status or an error.
pub open spec fn active_view(r: Result<ActiveAccountStatus, AccountError>) -> Result<
    ActiveView,
    AccountErrorView,
> {
    match r {
        Ok(s) => Ok(s@),
        Err(e) => Err(e@),
    }
}

/// Who is logged in, by what the live session says of itself.
pub fn session_status(
    auth_mode: Option<String>,
    account_id: Option<String>,
    profile: ProfileInfo,
    accounts: Result<&Vec<ManagedAccount>, AccountError>,
) -> (r: Result<ActiveAccountStatus, AccountError>)
    ensures
        active_view(r) == active_session(
            opt_view(auth_mode),
            opt_view(account_id),
            profile@,
            listed_view(accounts),
        ),
{
    let id = match account_id {
        Some(id) => Some(id),
        None => profile.chatgpt_account_id,
    };
    if profile.email.is_none() && id.is_none() {
        return Ok(nobody(auth_mode));
    }
    match accounts {
        Err(e) => Err(e),
        Ok(accounts) => {
            let matched = match_account(accounts, &profile.email, &id);
            Ok(
                ActiveAccountStatus {
                    is_logged_in: true,
                    email: profile.email,
                    plan_type: profile.plan_type,
                    account_id: id,
                    matched_account_id: matched,
                    auth_mode,
                },
            )
        },
    }
}

/// Who is logged in, by the document that Codex keeps of it.
pub fn check_active_status(
    auth: &Option<Json>,
    tokens: Option<Result<AccountTokens, String>>,
    accounts: Result<&Vec<ManagedAccount>, AccountError>,
) -> (r: Result<ActiveAccountStatus, AccountError>)
    ensures
        active_view(r) == active_status(
            opt_json(*auth),
            read_tokens_view(tokens),
            listed_view(accounts),
        ),
{
    let doc = match auth {
        Some(doc) => doc,
        None => return Ok(nobody(None)),
    };
    let mode = owned(doc.text_field("auth_mode"));
    let official = match &mode {
        Some(mode) => str_eq(mode, "chatgpt"),
        None => false,
    };
    if !official {
        return Ok(nobody(mode));
    }
    let tokens = match tokens {
        None => return Err(AccountError::AuthJsonInvalid("tokens field missing".to_owned())),
        Some(Err(e)) => return Err(AccountError::AuthJsonInvalid(cat("invalid tokens: ", &e))),
        Some(Ok(tokens)) => tokens,
    };
    if !tokens.has_usable_credentials() {
        return Ok(nobody(mode));
    }
    let (account_id, id_token) = match doc.field("tokens") {
        Some(t) => (owned(t.text_field("account_id")), owned(t.text_field("id_token"))),
        None => (None, None),
    };
    let profile = match id_token {
        Some(t) => match parse_id_token_claims(&t) {
            Ok(p) => p,
            Err(_) => ProfileInfo::default(),
        },
        None => ProfileInfo::default(),
    };
    session_status(mode, account_id, profile, accounts)
}

/// A document that is not in the official auth mode makes nobody logged in, whatever
/// else it holds.
pub proof fn only_the_official_mode_logs_in(
    auth: Option<JsonView>,
    tokens: Option<Result<TokensView, Seq<char>>>,
    accounts: Result<Seq<AccountView>, AccountErrorView>,
)
    requires
        active_status(auth, tokens, accounts) is Ok,
        active_status(auth, tokens, accounts)->Ok_0.is_logged_in,
    ensures
        auth is Some,
        auth->0.text_field("auth_mode"@) == Some("chatgpt"@),
        tokens is Some && tokens->0 is Ok && tokens->0->Ok_0.usable(),
        active_status(auth, tokens, accounts)->Ok_0.email is Some || active_status(
            auth,
            tokens,
            accounts,
        )->Ok_0.account_id is Some,
{
}

/// Why the live session cannot be captured, if it cannot.
pub open spec fn capture_error(
    auth: Option<JsonView>,
    tokens: Option<Result<TokensView, Seq<char>>>,
) -> Option<AccountErrorView> {
    match auth {
        None => Some(AccountErrorView::AuthJsonInvalid("auth.json not found"@)),
        Some(doc) => if doc.text_field("auth_mode"@) != Some("chatgpt"@) {
            Some(
                AccountErrorView::AuthJsonInvalid(
                    "auth.json is not using the official `chatgpt` auth mode"@,
                ),
            )
        } else {
            match tokens {
                None => Some(AccountErrorView::AuthJsonInvalid("tokens field missing"@)),
                Some(Err(e)) => Some(AccountErrorView::AuthJsonInvalid("invalid tokens: "@ + e)),
                Some(Ok(_)) => None,
            }
        },
    }
}

/// The tokens of the live session and when they were refreshed; it must be an official
/// one.
pub fn captured_tokens(
    auth: &Option<Json>,
    tokens: Option<Result<AccountTokens, String>>,
) -> (r: Result<(AccountTokens, Option<String>), AccountError>)
    ensures
        match capture_error(opt_json(*auth), read_tokens_view(tokens)) {
            Some(e) => r is Err && r->Err_0@ == e,
            None => {
                &&& r is Ok
                &&& r->Ok_0.0 == tokens->0->Ok_0
                &&& opt_view(r->Ok_0.1) == opt_json(*auth)->0.text_field("last_refresh"@)
            },
        },
{
    let doc = match auth {
        Some(doc) => doc,
        None => return Err(AccountError::AuthJsonInvalid("auth.json not found".to_owned())),
    };
    let official = match doc.text_field("auth_mode") {
        Some(mode) => str_eq(mode, "chatgpt"),
        None => false,
    };
    if !official {
        return Err(
            AccountError::AuthJsonInvalid(
                "auth.json is not using the official `chatgpt` auth mode".to_owned(),
            ),
        );
    }
    match tokens {
        None => Err(AccountError::AuthJsonInvalid("tokens field missing".to_owned())),
        Some(Err(e)) => Err(AccountError::AuthJsonInvalid(cat("invalid tokens: ", &e))),
        Some(Ok(t)) => Ok((t, owned(doc.text_field("last_refresh")))),
    }
}

/// One text, or else another.
pub open spec fn or_else(a: Option<Seq<char>>, b: Option<Seq<char>>) -> Option<Seq<char>> {
    match a {
        Some(_) => a,
        None => b,
    }
}

/// The record of an account after tokens were imported into it. A snapshot of its usage
/// belongs to the tokens that it was taken with.
pub open spec fn updated_account(
    a: AccountView,
    tokens: TokensView,
    profile: ProfileView,
    last_refresh: Option<Seq<char>>,
    name: Option<Seq<char>>,
    now: u64,
) -> AccountView {
    AccountView {
        id: a.id,
        name: match name {
            Some(n) => n,
            None => a.name,
        },
        email: or_else(profile.email, a.email),
        plan_type: or_else(profile.plan_type, a.plan_type),
        user_id: or_else(profile.user_id, a.user_id),
        account_id: or_else(or_else(tokens.account_id, profile.chatgpt_account_id), a.account_id),
        tokens,
        last_refresh: or_else(last_refresh, a.last_refresh),
        created_at: a.created_at,
        updated_at: now,
        usage: if a.tokens == tokens {
            a.usage
        } else {
            None
        },
        credential_state: tokens.state(),
        credential_issue: None,
        usage_issue: None,
    }
}

/// The record of an account that is imported for the first time.
pub open spec fn new_account(
    id: Seq<char>,
    tokens: TokensView,
    profile: ProfileView,
    last_refresh: Option<Seq<char>>,
    name: Option<Seq<char>>,
    now: u64,
) -> AccountView {
    AccountView {
        id,
        name: match name {
            Some(n) => n,
            None => match profile.email {
                Some(e) => e,
                None => "ChatGPT Account"@,
            },
        },
        email: profile.email,
        plan_type: profile.plan_type,
        user_id: profile.user_id,
        account_id: or_else(tokens.account_id, profile.chatgpt_account_id),
        tokens,
        last_refresh,
        created_at: now,
        updated_at: now,
        usage: None,
        credential_state: tokens.state(),
        credential_issue: None,
        usage_issue: None,
    }
}

/// The index of the account that tokens belong to, or the number of accounts; an error
/// where mail address and account id belong to two.
pub open spec fn import_target(
    accounts: Seq<AccountView>,
    tokens: TokensView,
    profile: ProfileView,
) -> Result<int, AccountErrorView> {
    let by_mail = index_where(accounts, with_mail(profile.email));
    let id = or_else(tokens.account_id, profile.chatgpt_account_id);
    let by_id = match id {
        Some(id) => index_where(accounts, with_account_id(id)),
        None => accounts.len() as int,
    };
    if by_mail < accounts.len() && by_id < accounts.len() && by_mail != by_id {
        Err(
            AccountErrorView::InvalidToken(
                "the supplied token identity matches two different managed accounts"@,
            ),
        )
    } else if by_mail < accounts.len() {
        Ok(by_mail)
    } else {
        Ok(by_id)
    }
}

/// The accounts after an import, and the record that was imported.
pub open spec fn imported_accounts(
    accounts: Seq<AccountView>,
    profile: Result<ProfileView, AccountErrorView>,
    tokens: TokensView,
    last_refresh: Option<Seq<char>>,
    name: Option<Seq<char>>,
    now: u64,
    id: Seq<char>,
) -> Result<(Seq<AccountView>, AccountView), AccountErrorView> {
    match profile {
        Err(e) => Err(e),
        Ok(profile) => match import_target(accounts, tokens, profile) {
            Err(e) => Err(e),
            Ok(i) => if 0 <= i < accounts.len() {
                let a = updated_account(accounts[i], tokens, profile, last_refresh, name, now);
                Ok((accounts.update(i, a), a))
            } else {
                let a = new_account(id, tokens, profile, last_refresh, name, now);
                Ok((accounts.push(a), a))
            },
        },
    }
}

fn first_of(a: &Option<String>, b: &Option<String>) -> (r: Option<String>)
    ensures
        opt_view(r) == or_else(opt_view(*a), opt_view(*b)),
{
    match a {
        Some(s) => Some(s.clone()),
        None => b.clone(),
    }
}

/// Imports tokens under a given id for a new account, given who they are for.
pub fn import_account_as(
    file: &mut AccountsFile,
    profile: Result<ProfileInfo, AccountError>,
    tokens: AccountTokens,
    last_refresh: Option<String>,
    name_hint: Option<String>,
    now: u64,
    id: String,
) -> (r: Result<ManagedAccount, AccountError>)
    ensures
        final(file).schema_version == old(file).schema_version,
        match imported_accounts(
            account_views(old(file).accounts@),
            profile_view(profile),
            tokens@,
            opt_view(last_refresh),
            opt_view(name_hint),
            now,
            id@,
        ) {
            Ok((after, a)) => {
                &&& r is Ok
                &&& r->Ok_0@ == a
                &&& account_views(final(file).accounts@) == after
            },
            Err(e) => r is Err && r->Err_0@ == e && *final(file) == *old(file),
        },
{
    let profile = match profile {
        Ok(profile) => profile,
        Err(e) => return Err(e),
    };
    let ghost all = account_views(file.accounts@);
    assert(all.len() == file.accounts@.len());
    let count = file.accounts.len();
    let account_id = first_of(&tokens.account_id, &profile.chatgpt_account_id);
    let by_mail = find_by_mail(&file.accounts, &profile.email);
    let by_id = match &account_id {
        Some(id) => find_by_account_id(&file.accounts, id),
        None => count,
    };
    if by_mail < count && by_id < count && by_mail != by_id {
        return Err(
            AccountError::InvalidToken(
                "the supplied token identity matches two different managed accounts".to_owned(),
            ),
        );
    }
    let i = if by_mail < count {
        by_mail
    } else {
        by_id
    };
    assert(import_target(all, tokens@, profile@) == Ok::<int, AccountErrorView>(i as int));
    let state = tokens.credential_state();
    if i < count {
        let old_account = file.accounts[i].copy();
        assert(old_account@ == all[i as int]);
        let usage = if old_account.tokens.same(&tokens) {
            old_account.usage
        } else {
            None
        };
        let account = ManagedAccount {
            id: old_account.id,
            name: match name_hint {
                Some(n) => n,
                None => old_account.name,
            },
            email: first_of(&profile.email, &old_account.email),
            plan_type: first_of(&profile.plan_type, &old_account.plan_type),
            user_id: first_of(&profile.user_id, &old_account.user_id),
            account_id: first_of(&account_id, &old_account.account_id),
            tokens,
            last_refresh: first_of(&last_refresh, &old_account.last_refresh),
            created_at: old_account.created_at,
            updated_at: now,
            usage,
            credential_state: state,
            credential_issue: None,
            usage_issue: None,
        };
        let r = account.copy();
        file.accounts.set(i, account);
        assert(account_views(file.accounts@) =~= all.update(i as int, r@));
        Ok(r)
    } else {
        let name = match name_hint {
            Some(n) => n,
            None => match &profile.email {
                Some(e) => e.clone(),
                None => "ChatGPT Account".to_owned(),
            },
        };
        let account = ManagedAccount {
            id,
            name,
            email: profile.email,
            plan_type: profile.plan_type,
            user_id: profile.user_id,
            account_id,
            tokens,
            last_refresh,
            created_at: now,
            updated_at: now,
            usage: None,
            credential_state: state,
            credential_issue: None,
            usage_issue: None,
        };
        let r = account.copy();
        file.accounts.push(account);
        assert(account_views(file.accounts@) =~= all.push(r@));
        Ok(r)
    }
}

/// Imports tokens: into the account that they belong to, or as a new one under an id
/// of its own.
pub fn import_or_update_account(
    file: &mut AccountsFile,
    tokens: AccountTokens,
    last_refresh: Option<String>,
    name_hint: Option<String>,
    now: u64,
) -> (r: Result<ManagedAccount, AccountError>)
    ensures
        final(file).schema_version == old(file).schema_version,
        exists|id: Seq<char>|
            uuid_text(id) && match #[trigger] imported_accounts(
                account_views(old(file).accounts@),
                import_profile(tokens@, token_claims(tokens@)),
                tokens@,
                opt_view(last_refresh),
                opt_view(name_hint),
                now,
                id,
            ) {
                Ok((after, a)) => {
                    &&& r is Ok
                    &&& r->Ok_0@ == a
                    &&& account_views(final(file).accounts@) == after
                },
                Err(e) => r is Err && r->Err_0@ == e && *final(file) == *old(file),
            },
{
    let profile = validate_import_tokens(&tokens);
    let id = new_uuid();
    let r = import_account_as(file, profile, tokens, last_refresh, name_hint, now, id);
    assert(uuid_text(id@) && match imported_accounts(
        account_views(old(file).accounts@),
        import_profile(tokens@, token_claims(tokens@)),
        tokens@,
        opt_view(last_refresh),
        opt_view(name_hint),
        now,
        id@,
    ) {
        Ok((after, a)) => {
            &&& r is Ok
            &&& r->Ok_0@ == a
            &&& account_views(file.accounts@) == after
        },
        Err(e) => r is Err && r->Err_0@ == e && *file == *old(file),
    });
    r
}

/// Imports the tokens of the live session.
pub fn capture_current_auth(
    file: &mut AccountsFile,
    auth: &Option<Json>,
    tokens: Option<Result<AccountTokens, String>>,
    custom_name: Option<String>,
    now: u64,
) -> (r: Result<ManagedAccount, AccountError>)
    ensures
        final(file).schema_version == old(file).schema_version,
        match capture_error(opt_json(*auth), read_tokens_view(tokens)) {
            Some(e) => r is Err && r->Err_0@ == e && *final(file) == *old(file),
            None => {
                let t = tokens->0->Ok_0@;
                exists|id: Seq<char>|
                    uuid_text(id) && match #[trigger] imported_accounts(
                        account_views(old(file).accounts@),
                        import_profile(t, token_claims(t)),
                        t,
                        opt_json(*auth)->0.text_field("last_refresh"@),
                        opt_view(custom_name),
                        now,
                        id,
                    ) {
                        Ok((after, a)) => {
                            &&& r is Ok
                            &&& r->Ok_0@ == a
                            &&& account_views(final(file).accounts@) == after
                        },
                        Err(e) => r is Err && r->Err_0@ == e && *final(file) == *old(file),
                    }
            },
        },
{
    match captured_tokens(auth, tokens) {
        Ok((t, last_refresh)) => import_or_update_account(file, t, last_refresh, custom_name, now),
        Err(e) => Err(e),
    }
}

/// An import changes at most one record and loses none: every other account is as it
/// was.
pub proof fn imports_keep_the_others(
    accounts: Seq<AccountView>,
    profile: Result<ProfileView, AccountErrorView>,
    tokens: TokensView,
    last_refresh: Option<Seq<char>>,
    name: Option<Seq<char>>,
    now: u64,
    id: Seq<char>,
)
    requires
        imported_accounts(accounts, profile, tokens, last_refresh, name, now, id) is Ok,
    ensures
        ({
            let (after, a) = imported_accounts(
                accounts,
                profile,
                tokens,
                last_refresh,
                name,
                now,
                id,
            )->Ok_0;
            &&& accounts.len() <= after.len() <= accounts.len() + 1
            &&& a.tokens == tokens
            &&& a.tokens.state() == a.credential_state
            &&& exists|k: int|
                {
                    &&& 0 <= k < after.len()
                    &&& #[trigger] after[k] == a
                    &&& forall|j: int|
                        0 <= j < accounts.len() && j != k ==> #[trigger] after[j] == accounts[j]
                    &&& k < accounts.len() ==> a.id == accounts[k].id
                }
        }),
{
    let p = profile->Ok_0;
    index_where_bounds(accounts, with_mail(p.email));
    let want = or_else(tokens.account_id, p.chatgpt_account_id);
    if want is Some {
        index_where_bounds(accounts, with_account_id(want->0));
    }
    let i = import_target(accounts, tokens, p)->Ok_0;
    let (after, a) = imported_accounts(
        accounts,
        profile,
        tokens,
        last_refresh,
        name,
        now,
        id,
    )->Ok_0;
    let k = if 0 <= i < accounts.len() {
        i
    } else {
        accounts.len() as int
    };
    assert(after[k] == a);
}

/// Accounts of any other id.
pub open spec fn not_of_id(id: Seq<char>) -> spec_fn(AccountView) -> bool {
    |a: AccountView| a.id != id
}

/// Deletes the accounts of an id, and says whether there were any.
pub fn delete_account(file: &mut AccountsFile, id: &str) -> (r: bool)
    ensures
        final(file).schema_version == old(file).schema_version,
        account_views(final(file).accounts@) == kept_where(
            account_views(old(file).accounts@),
            not_of_id(id@),
        ),
        r == (kept_where(account_views(old(file).accounts@), not_of_id(id@)).len() < old(
            file,
        ).accounts@.len()),
{
    let ghost all = account_views(file.accounts@);
    let mut kept: Vec<ManagedAccount> = Vec::new();
    let mut i: usize = 0;
    assert(account_views(kept@) =~= Seq::empty());
    while i < file.accounts.len()
        invariant
            i <= file.accounts@.len(),
            *file == *old(file),
            all == account_views(file.accounts@),
            account_views(kept@) == kept_where(all.take(i as int), not_of_id(id@)),
        decreases file.accounts@.len() - i,
    {
        assert(all.take(i + 1).drop_last() =~= all.take(i as int));
        assert(all.take(i + 1).last() == file.accounts@[i as int]@);
        let ghost before = account_views(kept@);
        if !str_eq(&file.accounts[i].id, id) {
            let account = file.accounts[i].copy();
            kept.push(account);
            assert(account_views(kept@) =~= before.push(account@));
        }
        i = i + 1;
    }
    assert(all.take(i as int) =~= all);
    assert(account_views(kept@).len() == kept@.len());
    let removed = kept.len() < file.accounts.len();
    proof {
        kept_where_holds(all, not_of_id(id@));
    }
    file.accounts = kept;
    removed
}

/// A deleted account is gone, and every account of another id is still there.
pub proof fn deletion_removes_one_id(accounts: Seq<AccountView>, id: Seq<char>)
    ensures
        forall|i: int|
            0 <= i < kept_where(accounts, not_of_id(id)).len() ==> (#[trigger] kept_where(
                accounts,
                not_of_id(id),
            )[i]).id != id,
        forall|a: AccountView|
            accounts.contains(a) && a.id != id ==> #[trigger] kept_where(
                accounts,
                not_of_id(id),
            ).contains(a),
{
    kept_where_holds(accounts, not_of_id(id));
    assert forall|i: int| 0 <= i < kept_where(accounts, not_of_id(id)).len() implies (
    #[trigger] kept_where(accounts, not_of_id(id))[i]).id != id by {
        assert(not_of_id(id)(kept_where(accounts, not_of_id(id))[i]));
    }
    assert forall|a: AccountView| accounts.contains(a) && a.id != id implies #[trigger] kept_where(
        accounts,
        not_of_id(id),
    ).contains(a) by {
        assert(not_of_id(id)(a));
    }
}

/// What is reported where an account is deleted but its credentials are not.
pub fn undeleted_credentials(id: &str, error: &str) -> (r: AccountError)
    ensures
        r@ == AccountErrorView::Credential(
            CredentialErrorView::Backend(
                "removed account `"@ + id@
                    + "` from the store but could not delete its stored                      credentials; a live token may remain: "@
                    + error@,
            ),
        ),
{
    AccountError::Credential(
        CredentialError::Backend(
            cat(
                &cat3(
                    "removed account `",
                    id,
                    "` from the store but could not delete its stored                      credentials; a live token may remain: ",
                ),
                error,
            ),
        ),
    )
}

/// An account under a new name.
pub open spec fn renamed(a: AccountView, name: Seq<char>, now: u64) -> AccountView {
    AccountView { name: trimmed(name), updated_at: now, ..a }
}

/// Renames an account.
pub fn rename_account(file: &mut AccountsFile, id: &str, new_name: &str, now: u64) -> (r: Result<
    (),
    AccountError,
>)
    ensures
        final(file).schema_version == old(file).schema_version,
        ({
            let all = account_views(old(file).accounts@);
            let i = index_where(all, of_id(id@));
            if i < all.len() {
                &&& r is Ok
                &&& account_views(final(file).accounts@) == all.update(
                    i,
                    renamed(all[i], new_name@, now),
                )
            } else {
                &&& r is Err
                &&& r->Err_0@ == AccountErrorView::NotFound(id@)
                &&& *final(file) == *old(file)
            }
        }),
{
    let ghost all = account_views(file.accounts@);
    let i = find_account(&file.accounts, id);
    assert(all.len() == file.accounts@.len());
    if i >= file.accounts.len() {
        return Err(AccountError::NotFound(id.to_owned()));
    }
    let mut account = file.accounts[i].copy();
    assert(account@ == all[i as int]);
    account.name = trim(new_name);
    account.updated_at = now;
    file.accounts.set(i, account);
    assert(account_views(file.accounts@) =~= all.update(i as int, account@));
    Ok(())
}

/// Tokens as they are written: those that are there.
pub open spec fn tokens_json(t: TokensView) -> JsonView {
    with_text(
        with_text(
            with_text(
                with_text(empty_object(), "id_token"@, t.id_token),
                "access_token"@,
                t.access_token,
            ),
            "refresh_token"@,
            t.refresh_token,
        ),
        "account_id"@,
        t.account_id,
    )
}

/// An object with a text under a key, where there is one.
pub open spec fn with_text(v: JsonView, key: Seq<char>, text: Option<Seq<char>>) -> JsonView {
    match text {
        Some(s) => v.with(key, JsonView::Str(s)),
        None => v,
    }
}

fn put_text(v: Json, key: &str, text: &Option<String>) -> (r: Json)
    ensures
        r@ == with_text(v@, key@, opt_view(*text)),
{
    match text {
        Some(s) => v.with(key, Json::string(s)),
        None => v,
    }
}

/// Tokens as they are written.
pub fn write_tokens(t: &AccountTokens) -> (r: Json)
    ensures
        r@ == tokens_json(t@),
{
    let v = put_text(Json::object(), "id_token", &t.id_token);
    let v = put_text(v, "access_token", &t.access_token);
    let v = put_text(v, "refresh_token", &t.refresh_token);
    put_text(v, "account_id", &t.account_id)
}

/// The document that logs Codex in as an account. What the old one holds besides stays.
pub open spec fn auth_document(
    old_doc: Option<JsonView>,
    tokens: TokensView,
    last_refresh: Seq<char>,
) -> JsonView {
    let base = match old_doc {
        Some(JsonView::Object(map)) => JsonView::Object(map),
        _ => empty_object(),
    };
    base.with("auth_mode"@, JsonView::Str("chatgpt"@)).with("tokens"@, tokens_json(tokens)).with(
        "last_refresh"@,
        JsonView::Str(last_refresh),
    )
}

/// Whether an account can be switched to.
pub open spec fn switch_error(accounts: Seq<AccountView>, id: Seq<char>) -> Option<
    AccountErrorView,
> {
    let i = index_where(accounts, of_id(id));
    if i >= accounts.len() {
        Some(AccountErrorView::NotFound(id))
    } else if !accounts[i].tokens.usable() {
        Some(AccountErrorView::MissingCredentials(id))
    } else if accounts[i].credential_state == CredentialState::NeedsReauth {
        Some(AccountErrorView::RequiresReauthentication(id))
    } else {
        None
    }
}

/// The account to switch to, where it can be switched to.
pub fn switch_target(accounts: &Vec<ManagedAccount>, id: &str) -> (r: Result<
    ManagedAccount,
    AccountError,
>)
    ensures
        match switch_error(account_views(accounts@), id@) {
            Some(e) => r is Err && r->Err_0@ == e,
            None => r is Ok && r->Ok_0@ == account_views(accounts@)[index_where(
                account_views(accounts@),
                of_id(id@),
            )],
        },
{
    let i = find_account(accounts, id);
    assert(account_views(accounts@).len() == accounts@.len());
    if i >= accounts.len() {
        return Err(AccountError::NotFound(id.to_owned()));
    }
    let account = accounts[i].copy();
    assert(account@ == account_views(accounts@)[i as int]);
    if !account.tokens.has_usable_credentials() {
        return Err(AccountError::MissingCredentials(id.to_owned()));
    }
    if account.credential_state == CredentialState::NeedsReauth {
        return Err(AccountError::RequiresReauthentication(id.to_owned()));
    }
    Ok(account)
}

/// The document that logs Codex in as an account; an account that was never refreshed
/// counts as refreshed now.
pub fn switch_document(account: &ManagedAccount, old_doc: &Option<Json>, now: u64) -> (r: Json)
    ensures
        exists|stamp: Seq<char>|
            {
                &&& r@ == #[trigger] auth_document(opt_json(*old_doc), account@.tokens, stamp)
                &&& match account@.last_refresh {
                    Some(s) => stamp == s,
                    None => is_timestamp(stamp, now),
                }
            },
{
    let base = match old_doc {
        Some(doc) => if doc.is_object() {
            doc.copy()
        } else {
            Json::object()
        },
        None => Json::object(),
    };
    let stamp = match &account.last_refresh {
        Some(s) => s.clone(),
        None => iso_timestamp(now),
    };
    let r = base.with("auth_mode", Json::string("chatgpt")).with(
        "tokens",
        write_tokens(&account.tokens),
    ).with("last_refresh", Json::string(&stamp));
    assert(r@ == auth_document(opt_json(*old_doc), account@.tokens, stamp@));
    r
}

/// Switches to an account: the account, and the document that logs Codex in as it. The
/// document that is replaced comes as it was read.
pub fn switch_to_account(
    accounts: &Vec<ManagedAccount>,
    id: &str,
    old_doc: Result<Option<Json>, AccountError>,
    now: u64,
) -> (r: Result<(ManagedAccount, Json), AccountError>)
    ensures
        match switch_error(account_views(accounts@), id@) {
            Some(e) => r is Err && r->Err_0@ == e,
            None => match old_doc {
                Err(e) => r is Err && r->Err_0@ == e@,
                Ok(doc) => {
                    let a = account_views(accounts@)[index_where(
                        account_views(accounts@),
                        of_id(id@),
                    )];
                    &&& r is Ok
                    &&& r->Ok_0.0@ == a
                    &&& exists|stamp: Seq<char>|
                        {
                            &&& r->Ok_0.1@ == #[trigger] auth_document(
                                opt_json(doc),
                                a.tokens,
                                stamp,
                            )
                            &&& match a.last_refresh {
                                Some(s) => stamp == s,
                                None => is_timestamp(stamp, now),
                            }
                        }
                },
            },
        },
{
    let account = match switch_target(accounts, id) {
        Ok(account) => account,
        Err(e) => return Err(e),
    };
    match old_doc {
        Err(e) => Err(e),
        Ok(doc) => {
            let written = switch_document(&account, &doc, now);
            Ok((account, written))
        },
    }
}

proof fn lemma_token_names_differ()
    ensures
        "id_token"@ != "access_token"@,
        "id_token"@ != "refresh_token"@,
        "id_token"@ != "account_id"@,
        "access_token"@ != "refresh_token"@,
        "access_token"@ != "account_id"@,
        "refresh_token"@ != "account_id"@,
        "tokens"@ != "auth_mode"@,
        "tokens"@ != "last_refresh"@,
        "auth_mode"@ != "last_refresh"@,
{
    reveal_strlit("id_token");
    reveal_strlit("access_token");
    reveal_strlit("refresh_token");
    reveal_strlit("account_id");
    reveal_strlit("tokens");
    reveal_strlit("auth_mode");
    reveal_strlit("last_refresh");
    assert("id_token"@.len() == 8 && "access_token"@.len() == 12 && "refresh_token"@.len() == 13
        && "account_id"@.len() == 10);
    assert("tokens"@.len() == 6 && "auth_mode"@.len() == 9 && "last_refresh"@.len() == 12);
}

/// A switch never writes a document without tokens that can be used, and what it writes
/// gives the account's tokens back; whatever else the old document held stays.
pub proof fn switches_write_the_tokens(
    accounts: Seq<AccountView>,
    id: Seq<char>,
    old_doc: Option<JsonView>,
    stamp: Seq<char>,
    key: Seq<char>,
)
    requires
        switch_error(accounts, id) is None,
    ensures
        ({
            let tokens = accounts[index_where(accounts, of_id(id))].tokens;
            let doc = auth_document(old_doc, tokens, stamp);
            let written = doc.field("tokens"@);
            &&& doc.text_field("auth_mode"@) == Some("chatgpt"@)
            &&& tokens.usable()
            &&& written is Some
            &&& written->0.text_field("id_token"@) == tokens.id_token
            &&& written->0.text_field("access_token"@) == tokens.access_token
            &&& written->0.text_field("refresh_token"@) == tokens.refresh_token
            &&& written->0.text_field("account_id"@) == tokens.account_id
            &&& (key != "auth_mode"@ && key != "tokens"@ && key != "last_refresh"@ && old_doc is Some
                && old_doc->0 is Object ==> doc.field(key) == old_doc->0.field(key))
        }),
{
    lemma_token_names_differ();
}

/// Whether these are the backups that go: all but the last few, in order.
pub open spec fn pruned(names: Seq<Seq<char>>, stem: Seq<char>, removed: Seq<Seq<char>>) -> bool {
    exists|sorted: Seq<Seq<char>>|
        {
            &&& #[trigger] ordered(sorted)
            &&& forall|n: Seq<char>|
                #[trigger] sorted.contains(n) <==> names.contains(n) && (stem
                    + ".bak-switch-"@).is_prefix_of(n)
            &&& removed == sorted.take(
                if sorted.len() > MAX_AUTH_BACKUPS {
                    sorted.len() - MAX_AUTH_BACKUPS
                } else {
                    0
                },
            )
        }
}

/// The backups of an `auth.json` that are over the number that is kept, the oldest
/// first. Their names end in their time, so that their order is that of their age.
pub fn prune_auth_backups(names: &Vec<String>, stem: &str) -> (r: Vec<String>)
    ensures
        pruned(views(names@), stem@, views(r@)),
{
    let prefix = cat(stem, ".bak-switch-");
    let ghost all = views(names@);
    let mut sorted: Vec<String> = Vec::new();
    let mut i: usize = 0;
    assert(views(sorted@) =~= Seq::empty());
    while i < names.len()
        invariant
            i <= names@.len(),
            all == views(names@),
            prefix@ == stem@ + ".bak-switch-"@,
            ordered(views(sorted@)),
            forall|n: Seq<char>|
                #[trigger] views(sorted@).contains(n) <==> all.take(i as int).contains(n)
                    && prefix@.is_prefix_of(n),
        decreases names@.len() - i,
    {
        let ghost before = views(sorted@);
        let name = &names[i];
        if starts_with(name, &prefix) {
            insert_ordered(&mut sorted, name);
        }
        proof {
            assert(all.take(i + 1) =~= all.take(i as int).push(name@));
            assert forall|n: Seq<char>|
                #[trigger] views(sorted@).contains(n) <==> all.take(i + 1).contains(n)
                    && prefix@.is_prefix_of(n) by {
                assert(before.contains(n) <==> all.take(i as int).contains(n)
                    && prefix@.is_prefix_of(n));
                let less = all.take(i as int);
                let more = all.take(i + 1);
                if less.contains(n) {
                    let j = choose|j: int| 0 <= j < less.len() && less[j] == n;
                    assert(more[j] == n);
                }
                if n == name@ {
                    assert(more[i as int] == n);
                }
                if more.contains(n) && n != name@ {
                    let j = choose|j: int| 0 <= j < more.len() && more[j] == n;
                    assert(less[j] == n);
                }
            }
        }
        i = i + 1;
    }
    assert(all.take(i as int) =~= all);
    let ghost full = views(sorted@);
    assert(full.len() == sorted@.len());
    let mut stale: Vec<String> = Vec::new();
    if sorted.len() > MAX_AUTH_BACKUPS {
        let excess = sorted.len() - MAX_AUTH_BACKUPS;
        let mut k: usize = 0;
        assert(views(stale@) =~= full.take(0));
        while k < excess
            invariant
                k <= excess,
                excess <= sorted@.len(),
                full == views(sorted@),
                views(stale@) == full.take(k as int),
            decreases excess - k,
        {
            let name = sorted[k].clone();
            let ghost before = views(stale@);
            stale.push(name);
            assert(views(stale@) =~= before.push(name@));
            assert(full[k as int] == name@);
            assert(full.take(k + 1) =~= full.take(k as int).push(name@));
            k = k + 1;
        }
    } else {
        assert(views(stale@) =~= full.take(0));
    }
    stale
}

/// What reading the stored tokens of an account gave.
pub enum TokensRead {
    Stored(Result<AccountTokens, String>),
    Missing,
    Failed(CredentialError),
}

/// The account with the credential state that its tokens put it in, where none is
/// known.
pub open spec fn with_known_state(a: AccountView) -> AccountView {
    if a.credential_state == CredentialState::Unknown {
        AccountView { credential_state: a.tokens.state(), ..a }
    } else {
        a
    }
}

/// Whether the tokens of an account came with the accounts file and are to be moved to
/// the credential store; its credential state is settled then.
pub fn carries_tokens(account: &mut ManagedAccount) -> (r: bool)
    ensures
        r == !old(account)@.tokens.empty(),
        final(account)@ == (if r {
            with_known_state(old(account)@)
        } else {
            old(account)@
        }),
{
    if account.tokens.is_empty() {
        return false;
    }
    if account.credential_state == CredentialState::Unknown {
        account.credential_state = account.tokens.credential_state();
    }
    true
}

/// Takes the stored tokens of an account in. A store that fails is an error: taken for
/// an account without credentials, it would cost the user their session.
pub fn take_stored_tokens(account: &mut ManagedAccount, read: TokensRead) -> (r: Result<
    (),
    AccountError,
>)
    ensures
        match read {
            TokensRead::Stored(Ok(tokens)) => r is Ok && final(account)@ == with_known_state(
                (AccountView { tokens: tokens@, ..old(account)@ }),
            ),
            TokensRead::Stored(Err(e)) => r is Err && r->Err_0@ == AccountErrorView::InvalidToken(
                "stored credentials for account `"@ + old(account)@.id + "` are unreadable: "@ + e@,
            ),
            TokensRead::Missing => r is Ok && final(account)@ == with_known_state(old(account)@),
            TokensRead::Failed(e) => r is Err && r->Err_0@ == AccountErrorView::Credential(e@),
        },
        r is Err ==> *final(account) == *old(account),
{
    match read {
        TokensRead::Stored(Ok(tokens)) => {
            account.tokens = tokens;
        },
        TokensRead::Stored(Err(e)) => {
            return Err(
                AccountError::InvalidToken(
                    cat(
                        &cat3(
                            "stored credentials for account `",
                            &account.id,
                            "` are unreadable: ",
                        ),
                        &e,
                    ),
                ),
            );
        },
        TokensRead::Missing => {},
        TokensRead::Failed(e) => {
            return Err(AccountError::Credential(e));
        },
    }
    if account.credential_state == CredentialState::Unknown {
        account.credential_state = account.tokens.credential_state();
    }
    Ok(())
}

/// Whether the tokens of an account are to be stored: they are there, and what is
/// stored is not the same.
pub fn must_store(tokens: &AccountTokens, stored: &Option<String>, written: &str) -> (r: bool)
    ensures
        r == (!tokens@.empty() && opt_view(*stored) != Some(written@)),
{
    if tokens.is_empty() {
        return false;
    }
    match stored {
        Some(s) => !str_eq(s, written),
        None => true,
    }
}

/// An accounts file whose tokens are being fetched from the credential store, account by
/// account.
pub struct LoadRun {
    pub file: AccountsFile,
    pub at: usize,
    pub moved: bool,
}

/// The next step of fetching the tokens of an accounts file.
pub enum LoadStep {
    /// The tokens that came with the file are stored under a reference.
    Store { reference: String, tokens: AccountTokens },
    /// The tokens under a reference are read.
    Read { reference: String },
    /// All tokens are there; the file is written anew where tokens came with it.
    Done { save: bool },
}

impl LoadRun {
    /// Begins with the first account.
    pub fn begin(file: AccountsFile) -> (r: LoadRun)
        ensures
            r == (LoadRun { file, at: 0, moved: false }),
    {
        LoadRun { file, at: 0, moved: false }
    }

    /// The next step.
    pub fn next(&self) -> (r: LoadStep)
        ensures
            if self.at >= self.file.accounts@.len() {
                r == (LoadStep::Done { save: self.moved })
            } else {
                let a = self.file.accounts@[self.at as int]@;
                if a.tokens.empty() {
                    r is Read && r->Read_reference@ == "account:"@ + a.id
                } else {
                    r is Store && r->Store_reference@ == "account:"@ + a.id && r->tokens@ == a.tokens
                }
            },
    {
        if self.at >= self.file.accounts.len() {
            return LoadStep::Done { save: self.moved };
        }
        let account = &self.file.accounts[self.at];
        let reference = crate::records::account_credential_reference(&account.id);
        if account.tokens.is_empty() {
            LoadStep::Read { reference }
        } else {
            LoadStep::Store { reference, tokens: account.tokens.copy() }
        }
    }

    /// Goes on once tokens that came with the file were stored, or could not be: then
    /// they are used from the file as they are.
    pub fn on_stored(&mut self, stored: bool)
        requires
            old(self).at < old(self).file.accounts@.len(),
            !old(self).file.accounts@[old(self).at as int]@.tokens.empty(),
        ensures
            final(self).at == old(self).at + 1,
            final(self).moved == (old(self).moved || stored),
            final(self).file.schema_version == old(self).file.schema_version,
            account_views(final(self).file.accounts@) == account_views(
                old(self).file.accounts@,
            ).update(
                old(self).at as int,
                with_known_state(old(self).file.accounts@[old(self).at as int]@),
            ),
    {
        assert(self.at < self.file.accounts.len());
        let ghost all = account_views(self.file.accounts@);
        let mut account = self.file.accounts[self.at].copy();
        let _carried = carries_tokens(&mut account);
        self.file.accounts.set(self.at, account);
        assert(account_views(self.file.accounts@) =~= all.update(self.at as int, account@));
        if stored {
            self.moved = true;
        }
        self.at = self.at + 1;
    }

    /// Goes on once stored tokens were read. A store that fails ends the loading.
    pub fn on_read(&mut self, read: TokensRead) -> (r: Result<(), AccountError>)
        requires
            old(self).at < old(self).file.accounts@.len(),
        ensures
            ({
                let a = old(self).file.accounts@[old(self).at as int]@;
                match read {
                    TokensRead::Stored(Ok(tokens)) => r is Ok && final(self).advanced(
                        *old(self),
                        with_known_state((AccountView { tokens: tokens@, ..a })),
                    ),
                    TokensRead::Missing => r is Ok && final(self).advanced(
                        *old(self),
                        with_known_state(a),
                    ),
                    TokensRead::Stored(Err(e)) => {
                        &&& r is Err
                        &&& r->Err_0@ == AccountErrorView::InvalidToken(
                            "stored credentials for account `"@ + a.id + "` are unreadable: "@ + e@,
                        )
                        &&& *final(self) == *old(self)
                    },
                    TokensRead::Failed(e) => {
                        &&& r is Err
                        &&& r->Err_0@ == AccountErrorView::Credential(e@)
                        &&& *final(self) == *old(self)
                    },
                }
            }),
    {
        assert(self.at < self.file.accounts.len());
        let ghost all = account_views(self.file.accounts@);
        let mut account = self.file.accounts[self.at].copy();
        match take_stored_tokens(&mut account, read) {
            Ok(_) => {},
            Err(e) => return Err(e),
        }
        self.file.accounts.set(self.at, account);
        assert(account_views(self.file.accounts@) =~= all.update(self.at as int, account@));
        self.at = self.at + 1;
        Ok(())
    }

    /// Whether this is a run one account further on, with that account changed.
    pub open spec fn advanced(self, before: LoadRun, a: AccountView) -> bool {
        &&& self.at == before.at + 1
        &&& self.moved == before.moved
        &&& self.file.schema_version == before.file.schema_version
        &&& account_views(self.file.accounts@) == account_views(before.file.accounts@).update(
            before.at as int,
            a,
        )
    }
}

/// The account that a session belongs to: the first of the same account id; where none has
/// it, the first of the same email that has no account id; and without an account id the
/// first of the same email.
pub proof fn sessions_are_matched_by_identity(
    accounts: Seq<AccountView>,
    email: Option<Seq<char>>,
    account_id: Option<Seq<char>>,
)
    ensures
        ({
            let mail = |a: AccountView|
                a.email is Some && email is Some && lowered(a.email->0) == lowered(email->0);
            let same_id = |a: AccountView| account_id is Some && a.account_id == account_id;
            let known = exists|i: int| 0 <= i < accounts.len() && same_id(#[trigger] accounts[i]);
            let fits = |a: AccountView|
                if known {
                    same_id(a)
                } else {
                    mail(a) && (account_id is Some ==> a.account_id is None)
                };
            match matched_account(accounts, email, account_id) {
                Some(id) => exists|i: int|
                    {
                        &&& 0 <= i < accounts.len()
                        &&& fits(#[trigger] accounts[i])
                        &&& accounts[i].id == id
                        &&& forall|j: int| 0 <= j < i ==> !fits(#[trigger] accounts[j])
                    },
                None => forall|j: int| 0 <= j < accounts.len() ==> !fits(#[trigger] accounts[j]),
            }
        }),
{
    let p = match account_id {
        Some(id) => with_account_id(id),
        None => with_mail(email),
    };
    index_where_bounds(accounts, p);
    index_where_bounds(accounts, with_mail_alone(email));
    index_where_bounds(accounts, with_mail(email));
    if let Some(id) = account_id {
        let k = index_where(accounts, with_account_id(id));
        if k < accounts.len() {
            assert(with_account_id(id)(accounts[k]));
            assert(accounts[k].account_id == account_id);
        } else {
            assert forall|j: int| 0 <= j < accounts.len() implies (
            #[trigger] accounts[j]).account_id != account_id by {
                assert(!with_account_id(id)(accounts[j]));
            }
            let m = index_where(accounts, with_mail_alone(email));
            if m < accounts.len() {
                assert(with_mail_alone(email)(accounts[m]));
            }
            assert forall|j: int| 0 <= j < m implies !(accounts[j].account_id is None && same_mail(
                (#[trigger] accounts[j]).email,
                email,
            )) by {
                assert(!with_mail_alone(email)(accounts[j]));
            }
        }
        assert forall|j: int| 0 <= j < k implies (#[trigger] accounts[j]).account_id != account_id by {
            assert(!with_account_id(id)(accounts[j]));
        }
    } else {
        let m = index_where(accounts, with_mail(email));
        if m < accounts.len() {
            assert(with_mail(email)(accounts[m]));
        }
        assert forall|j: int| 0 <= j < m implies !same_mail((#[trigger] accounts[j]).email, email) by {
            assert(!with_mail(email)(accounts[j]));
        }
    }
}

/// What is told of the session of Codex: it is that of the id token in the document, under
/// the account id that the document names, else the one that the token claims.
pub proof fn sessions_are_those_of_the_document(
    doc: JsonView,
    tokens: TokensView,
    accounts: Seq<AccountView>,
)
    requires
        doc.text_field("auth_mode"@) == Some("chatgpt"@),
        tokens.usable(),
    ensures
        ({
            let out = active_status(Some(doc), Some(Ok(tokens)), Ok(accounts));
            let named = match doc.field("tokens"@) {
                Some(t) => t.text_field("account_id"@),
                None => None,
            };
            let token = match doc.field("tokens"@) {
                Some(t) => t.text_field("id_token"@),
                None => None,
            };
            let read = token is Some && claims_of(token->0) is Ok;
            let email = if read {
                claims_of(token->0)->Ok_0.email
            } else {
                None
            };
            let id = if named is Some {
                named
            } else if read {
                claims_of(token->0)->Ok_0.chatgpt_account_id
            } else {
                None
            };
            &&& out is Ok
            &&& out->Ok_0.auth_mode == Some("chatgpt"@)
            &&& out->Ok_0.is_logged_in <==> email is Some || id is Some
            &&& out->Ok_0.email == email
            &&& out->Ok_0.account_id == id
            &&& out->Ok_0.is_logged_in && read ==> out->Ok_0.plan_type
                == claims_of(token->0)->Ok_0.plan_type
            &&& out->Ok_0.is_logged_in ==> out->Ok_0.matched_account_id == matched_account(
                accounts,
                email,
                id,
            )
        }),
{
}

/// A session is captured from a document in the official mode whose tokens can be read, and
/// from no other.
pub proof fn captures_need_an_official_session(
    auth: Option<JsonView>,
    tokens: Option<Result<TokensView, Seq<char>>>,
)
    ensures
        capture_error(auth, tokens) is None <==> auth is Some && auth->0.text_field("auth_mode"@)
            == Some("chatgpt"@) && tokens is Some && tokens->0 is Ok,
        capture_error(auth, tokens) is Some ==> capture_error(auth, tokens)->0 is AuthJsonInvalid,
{
}

/// What an import leaves of an account that was there: its id and when it was made. The
/// tokens are the new ones; the rest is what the import says, and what was known where it
/// says nothing. A usage that was read with other tokens is not kept, nor is any issue.
pub proof fn imports_update_the_account(
    a: AccountView,
    tokens: TokensView,
    profile: ProfileView,
    last_refresh: Option<Seq<char>>,
    name: Option<Seq<char>>,
    now: u64,
)
    ensures
        ({
            let b = updated_account(a, tokens, profile, last_refresh, name, now);
            &&& b.id == a.id && b.created_at == a.created_at && b.updated_at == now
            &&& b.tokens == tokens && b.credential_state == tokens.state()
            &&& b.credential_issue is None && b.usage_issue is None
            &&& b.usage is Some ==> b.usage == a.usage && a.tokens == tokens
            &&& a.tokens == tokens ==> b.usage == a.usage
            &&& name is Some ==> b.name == name->0
            &&& name is None ==> b.name == a.name
            &&& profile.email is Some ==> b.email == profile.email
            &&& profile.email is None ==> b.email == a.email
            &&& profile.plan_type is Some ==> b.plan_type == profile.plan_type
            &&& profile.plan_type is None ==> b.plan_type == a.plan_type
            &&& profile.user_id is Some ==> b.user_id == profile.user_id
            &&& profile.user_id is None ==> b.user_id == a.user_id
            &&& last_refresh is Some ==> b.last_refresh == last_refresh
            &&& last_refresh is None ==> b.last_refresh == a.last_refresh
            &&& tokens.account_id is Some ==> b.account_id == tokens.account_id
            &&& tokens.account_id is None && profile.chatgpt_account_id is Some ==> b.account_id
                == profile.chatgpt_account_id
            &&& tokens.account_id is None && profile.chatgpt_account_id is None ==> b.account_id
                == a.account_id
        }),
{
}

/// What an import makes of an account that was not there.
pub proof fn imports_make_an_account(
    id: Seq<char>,
    tokens: TokensView,
    profile: ProfileView,
    last_refresh: Option<Seq<char>>,
    name: Option<Seq<char>>,
    now: u64,
)
    ensures
        ({
            let b = new_account(id, tokens, profile, last_refresh, name, now);
            &&& b.id == id && b.created_at == now && b.updated_at == now
            &&& b.tokens == tokens && b.credential_state == tokens.state()
            &&& b.credential_issue is None && b.usage_issue is None && b.usage is None
            &&& b.email == profile.email && b.plan_type == profile.plan_type && b.user_id
                == profile.user_id
            &&& b.last_refresh == last_refresh
            &&& name is Some ==> b.name == name->0
            &&& name is None && profile.email is Some ==> b.name == profile.email->0
            &&& name is None && profile.email is None ==> b.name == "ChatGPT Account"@
            &&& tokens.account_id is Some ==> b.account_id == tokens.account_id
            &&& tokens.account_id is None ==> b.account_id == profile.chatgpt_account_id
        }),
{
}

/// Which account an import is for: one of the same email, capitals aside, or of the same
/// account id; a new one where there is neither. Where the two are different accounts, the
/// import is refused.
pub proof fn imports_find_their_account(
    accounts: Seq<AccountView>,
    tokens: TokensView,
    profile: ProfileView,
)
    ensures
        ({
            let id = if tokens.account_id is Some {
                tokens.account_id
            } else {
                profile.chatgpt_account_id
            };
            let mail = |a: AccountView|
                a.email is Some && profile.email is Some && lowered(a.email->0) == lowered(
                    profile.email->0,
                );
            let same_id = |a: AccountView| id is Some && a.account_id == id;
            match import_target(accounts, tokens, profile) {
                Ok(i) => {
                    &&& 0 <= i <= accounts.len()
                    &&& i < accounts.len() ==> mail(accounts[i]) || same_id(accounts[i])
                    &&& i == accounts.len() ==> forall|j: int|
                        0 <= j < accounts.len() ==> !mail(#[trigger] accounts[j]) && !same_id(
                            accounts[j],
                        )
                },
                Err(e) => e is InvalidToken && exists|i: int, j: int|
                    {
                        &&& 0 <= i < accounts.len()
                        &&& 0 <= j < accounts.len()
                        &&& i != j
                        &&& mail(#[trigger] accounts[i])
                        &&& same_id(#[trigger] accounts[j])
                    },
            }
        }),
{
    let id = or_else(tokens.account_id, profile.chatgpt_account_id);
    index_where_bounds(accounts, with_mail(profile.email));
    let by_mail = index_where(accounts, with_mail(profile.email));
    if by_mail < accounts.len() {
        assert(with_mail(profile.email)(accounts[by_mail]));
    }
    assert forall|j: int| 0 <= j < by_mail implies !same_mail(
        (#[trigger] accounts[j]).email,
        profile.email,
    ) by {
        assert(!with_mail(profile.email)(accounts[j]));
    }
    if let Some(k) = id {
        index_where_bounds(accounts, with_account_id(k));
        let by_id = index_where(accounts, with_account_id(k));
        if by_id < accounts.len() {
            assert(with_account_id(k)(accounts[by_id]));
        }
        assert forall|j: int| 0 <= j < by_id implies (#[trigger] accounts[j]).account_id != id by {
            assert(!with_account_id(k)(accounts[j]));
        }
    }
}

/// An import changes the account that it is for, and adds one at the end where it is for
/// none; what it hands back is what it has stored.
pub proof fn imports_store_the_account(
    accounts: Seq<AccountView>,
    profile: ProfileView,
    tokens: TokensView,
    last_refresh: Option<Seq<char>>,
    name: Option<Seq<char>>,
    now: u64,
    id: Seq<char>,
)
    ensures
        ({
            let out = imported_accounts(
                accounts,
                Ok(profile),
                tokens,
                last_refresh,
                name,
                now,
                id,
            );
            let target = import_target(accounts, tokens, profile);
            &&& out is Ok <==> target is Ok
            &&& out is Ok && target->Ok_0 < accounts.len() ==> out->Ok_0.0.len() == accounts.len()
                && out->Ok_0.0[target->Ok_0] == out->Ok_0.1 && out->Ok_0.1 == updated_account(
                accounts[target->Ok_0],
                tokens,
                profile,
                last_refresh,
                name,
                now,
            )
            &&& out is Ok && target->Ok_0 == accounts.len() ==> out->Ok_0.0.len() == accounts.len()
                + 1 && out->Ok_0.0.last() == out->Ok_0.1 && out->Ok_0.1 == new_account(
                id,
                tokens,
                profile,
                last_refresh,
                name,
                now,
            )
        }),
{
    imports_find_their_account(accounts, tokens, profile);
}

/// Renaming changes the name, without the white space round it, and when the account was
/// changed, and nothing else.
pub proof fn renaming_changes_the_name(a: AccountView, name: Seq<char>, now: u64)
    ensures
        ({
            let b = renamed(a, name, now);
            &&& b.name == trimmed(name)
            &&& b.updated_at == now
            &&& b == (AccountView { name: b.name, updated_at: b.updated_at, ..a })
        }),
{
}

/// The document that logs Codex in holds the tokens that there are, and no others, under
/// their own names, with the time of the last refresh.
pub proof fn documents_hold_the_tokens(
    old_doc: Option<JsonView>,
    t: TokensView,
    stamp: Seq<char>,
    key: Seq<char>,
)
    ensures
        ({
            let doc = auth_document(old_doc, t, stamp);
            let written = doc.field("tokens"@)->0;
            &&& doc.field("tokens"@) is Some
            &&& doc.text_field("auth_mode"@) == Some("chatgpt"@)
            &&& doc.text_field("last_refresh"@) == Some(stamp)
            &&& written.text_field("id_token"@) == t.id_token
            &&& written.text_field("access_token"@) == t.access_token
            &&& written.text_field("refresh_token"@) == t.refresh_token
            &&& written.text_field("account_id"@) == t.account_id
            &&& key != "id_token"@ && key != "access_token"@ && key != "refresh_token"@ && key
                != "account_id"@ ==> written.field(key) is None
            &&& key != "auth_mode"@ && key != "tokens"@ && key != "last_refresh"@ && (old_doc is None
                || !(old_doc->0 is Object)) ==> doc.field(key) is None
        }),
{
    reveal_strlit("id_token");
    reveal_strlit("access_token");
    reveal_strlit("refresh_token");
    reveal_strlit("account_id");
    reveal_strlit("auth_mode");
    reveal_strlit("tokens");
    reveal_strlit("last_refresh");
    assert("id_token"@.len() == 8);
    assert("access_token"@.len() == 12 && "access_token"@[0] == 'a');
    assert("refresh_token"@.len() == 13);
    assert("account_id"@.len() == 10);
    assert("auth_mode"@.len() == 9);
    assert("tokens"@.len() == 6);
    assert("last_refresh"@.len() == 12 && "last_refresh"@[0] == 'l');
}

/// An account can be switched to that is there, has tokens that can be used, and does not
/// have to log in anew; each of the three has its own error.
pub proof fn switches_need_a_usable_account(accounts: Seq<AccountView>, id: Seq<char>)
    ensures
        ({
            let a = found(accounts, of_id(id));
            match switch_error(accounts, id) {
                None => a is Some && a->0.id == id && (a->0.tokens.access_token is Some
                    || a->0.tokens.refresh_token is Some) && a->0.credential_state
                    != CredentialState::NeedsReauth,
                Some(e) => {
                    &&& a is None <==> e is NotFound
                    &&& a is Some && !(a->0.tokens.access_token is Some
                        || a->0.tokens.refresh_token is Some) <==> e is MissingCredentials
                    &&& a is Some && (a->0.tokens.access_token is Some
                        || a->0.tokens.refresh_token is Some) && a->0.credential_state
                        == CredentialState::NeedsReauth <==> e is RequiresReauthentication
                },
            }
        }),
{
    index_where_bounds(accounts, of_id(id));
    let k = index_where(accounts, of_id(id));
    if k < accounts.len() {
        assert(of_id(id)(accounts[k]));
    }
}

/// The state of a credential that is not known is that of its tokens; one that is known
/// stays, and so does everything else.
pub proof fn known_states_stay(a: AccountView)
    ensures
        a.credential_state != CredentialState::Unknown ==> with_known_state(a) == a,
        a.credential_state == CredentialState::Unknown ==> with_known_state(a).credential_state
            == a.tokens.state(),
        with_known_state(a) == (AccountView {
            credential_state: with_known_state(a).credential_state,
            ..a
        }),
{
}

/// Of the backups of a document the three last in order are kept: all others go, none of
/// them after one that is kept, and nothing else is touched.
pub proof fn the_last_backups_are_kept(
    names: Seq<Seq<char>>,
    stem: Seq<char>,
    removed: Seq<Seq<char>>,
)
    requires
        pruned(names, stem, removed),
    ensures
        forall|i: int|
            0 <= i < removed.len() ==> names.contains(#[trigger] removed[i]) && (stem
                + ".bak-switch-"@).is_prefix_of(removed[i]),
        exists|kept: Seq<Seq<char>>|
            {
                &&& kept.len() <= 3
                &&& removed.len() > 0 ==> kept.len() == 3
                &&& #[trigger] ordered(removed + kept)
                &&& forall|n: Seq<char>|
                    #[trigger] (removed + kept).contains(n) <==> names.contains(n) && (stem
                        + ".bak-switch-"@).is_prefix_of(n)
            },
{
    let sorted = choose|sorted: Seq<Seq<char>>|
        {
            &&& #[trigger] ordered(sorted)
            &&& forall|n: Seq<char>|
                #[trigger] sorted.contains(n) <==> names.contains(n) && (stem
                    + ".bak-switch-"@).is_prefix_of(n)
            &&& removed == sorted.take(
                if sorted.len() > MAX_AUTH_BACKUPS {
                    sorted.len() - MAX_AUTH_BACKUPS
                } else {
                    0
                },
            )
        };
    let kept = sorted.skip(removed.len() as int);
    assert(removed + kept =~= sorted);
    assert forall|i: int| 0 <= i < removed.len() implies names.contains(#[trigger] removed[i]) && (stem
        + ".bak-switch-"@).is_prefix_of(removed[i]) by {
        assert(sorted[i] == removed[i]);
        assert(sorted.contains(removed[i]));
    }
    assert(ordered(removed + kept));
}

/// Fetching the tokens of an accounts file goes on by one account at a time, and changes no other.
pub proof fn fetching_goes_account_by_account(run: LoadRun, before: LoadRun, a: AccountView, j: int)
    requires
        run.advanced(before, a),
        0 <= before.at < before.file.accounts@.len(),
        0 <= j < before.file.accounts@.len(),
    ensures
        run.at == before.at + 1,
        run.moved == before.moved,
        run.file.accounts@.len() == before.file.accounts@.len(),
        j == before.at ==> run.file.accounts@[j]@ == a,
        j != before.at ==> run.file.accounts@[j]@ == before.file.accounts@[j]@,
{
    let now = account_views(run.file.accounts@);
    let was = account_views(before.file.accounts@);
    assert(now.len() == run.file.accounts@.len() && was.len() == before.file.accounts@.len());
    assert(now.len() == was.len());
    assert(now[j] == run.file.accounts@[j]@ && was[j] == before.file.accounts@[j]@);
}

} // verus!
