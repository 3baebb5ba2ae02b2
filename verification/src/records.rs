//! The records of managed accounts and what is shown of them.

use crate::account::{AccountTokens, CredentialState, TokensView};
use crate::text::{lowered, opt_view, str_eq, to_lower};
use vstd::prelude::*;
use vstd::string::*;

verus! {

/// How much of a limit is used in one window of time.
#[derive(Debug, Clone, Copy, PartialEq, Eq, Structural)]
pub struct UsageWindow {
    pub used_percent: u32,
    pub limit_window_seconds: u64,
    pub reset_after_seconds: u64,
    pub reset_at: u64,
}

/// A rate limit with its windows.
#[derive(Debug, Clone, Copy, PartialEq, Eq)]
pub struct RateLimitSummary {
    pub allowed: bool,
    pub limit_reached: bool,
    pub primary_window: Option<UsageWindow>,
    pub secondary_window: Option<UsageWindow>,
}

/// The limit that holds once the usual ones are used up.
#[derive(Debug, PartialEq, Eq)]
pub struct ReserveLimitSummary {
    pub limit_name: String,
    pub allowed: bool,
    pub limit_reached: bool,
    pub used_percent: Option<u32>,
    pub reset_after_seconds: Option<u64>,
    pub reset_at: Option<u64>,
}

/// The model of a reserve limit.
pub ghost struct ReserveView {
    pub limit_name: Seq<char>,
    pub allowed: bool,
    pub limit_reached: bool,
    pub used_percent: Option<u32>,
    pub reset_after_seconds: Option<u64>,
    pub reset_at: Option<u64>,
}

impl View for ReserveLimitSummary {
    type V = ReserveView;

    open spec fn view(&self) -> ReserveView {
        ReserveView {
            limit_name: self.limit_name@,
            allowed: self.allowed,
            limit_reached: self.limit_reached,
            used_percent: self.used_percent,
            reset_after_seconds: self.reset_after_seconds,
            reset_at: self.reset_at,
        }
    }
}

/// What is known of an account's usage at one time.
#[derive(Debug, PartialEq, Eq)]
pub struct AccountUsageSnapshot {
    pub updated_at: u64,
    pub plan_type: Option<String>,
    pub primary_5h: Option<UsageWindow>,
    pub secondary_weekly: Option<UsageWindow>,
    pub reserve: Option<ReserveLimitSummary>,
}

/// The model of a usage snapshot.
pub ghost struct SnapshotView {
    pub updated_at: u64,
    pub plan_type: Option<Seq<char>>,
    pub primary_5h: Option<UsageWindow>,
    pub secondary_weekly: Option<UsageWindow>,
    pub reserve: Option<ReserveView>,
}

impl View for AccountUsageSnapshot {
    type V = SnapshotView;

    open spec fn view(&self) -> SnapshotView {
        SnapshotView {
            updated_at: self.updated_at,
            plan_type: opt_view(self.plan_type),
            primary_5h: self.primary_5h,
            secondary_weekly: self.secondary_weekly,
            reserve: match self.reserve {
                Some(r) => Some(r@),
                None => None,
            },
        }
    }
}

impl AccountUsageSnapshot {
    /// Another snapshot with the same value.
    pub fn copy(&self) -> (r: AccountUsageSnapshot)
        ensures
            r@ == self@,
    {
        AccountUsageSnapshot {
            updated_at: self.updated_at,
            plan_type: self.plan_type.clone(),
            primary_5h: self.primary_5h,
            secondary_weekly: self.secondary_weekly,
            reserve: match &self.reserve {
                Some(r) => Some(
                    ReserveLimitSummary {
                        limit_name: r.limit_name.clone(),
                        allowed: r.allowed,
                        limit_reached: r.limit_reached,
                        used_percent: r.used_percent,
                        reset_after_seconds: r.reset_after_seconds,
                        reset_at: r.reset_at,
                    },
                ),
                None => None,
            },
        }
    }
}

/// Something that went wrong with an account, without anything secret.
#[derive(Debug, PartialEq, Eq)]
pub struct AccountIssue {
    pub code: String,
    pub message: String,
    pub occurred_at: u64,
}

/// The model of an issue.
pub ghost struct IssueView {
    pub code: Seq<char>,
    pub message: Seq<char>,
    pub occurred_at: u64,
}

impl View for AccountIssue {
    type V = IssueView;

    open spec fn view(&self) -> IssueView {
        IssueView { code: self.code@, message: self.message@, occurred_at: self.occurred_at }
    }
}

impl AccountIssue {
    /// Another issue with the same value.
    pub fn copy(&self) -> (r: AccountIssue)
        ensures
            r@ == self@,
    {
        AccountIssue {
            code: self.code.clone(),
            message: self.message.clone(),
            occurred_at: self.occurred_at,
        }
    }
}

/// How far the usage that is shown can be relied on.
#[derive(Debug, Clone, Copy, PartialEq, Eq, Structural)]
pub enum UsageStatus {
    Unknown,
    Fresh,
    Stale,
    ReauthRequired,
    Error,
}

/// A managed account. Its tokens are kept in the credential store and never written to
/// the accounts file.
#[derive(Debug)]
pub struct ManagedAccount {
    pub id: String,
    pub name: String,
    pub email: Option<String>,
    pub plan_type: Option<String>,
    pub user_id: Option<String>,
    pub account_id: Option<String>,
    pub tokens: AccountTokens,
    pub last_refresh: Option<String>,
    pub created_at: u64,
    pub updated_at: u64,
    pub usage: Option<AccountUsageSnapshot>,
    pub credential_state: CredentialState,
    pub credential_issue: Option<AccountIssue>,
    pub usage_issue: Option<AccountIssue>,
}

/// The model of a managed account.
pub ghost struct AccountView {
    pub id: Seq<char>,
    pub name: Seq<char>,
    pub email: Option<Seq<char>>,
    pub plan_type: Option<Seq<char>>,
    pub user_id: Option<Seq<char>>,
    pub account_id: Option<Seq<char>>,
    pub tokens: TokensView,
    pub last_refresh: Option<Seq<char>>,
    pub created_at: u64,
    pub updated_at: u64,
    pub usage: Option<SnapshotView>,
    pub credential_state: CredentialState,
    pub credential_issue: Option<IssueView>,
    pub usage_issue: Option<IssueView>,
}

/// The view of an optional snapshot.
pub open spec fn opt_snapshot(s: Option<AccountUsageSnapshot>) -> Option<SnapshotView> {
    match s {
        Some(s) => Some(s@),
        None => None,
    }
}

/// The view of an optional issue.
pub open spec fn opt_issue(i: Option<AccountIssue>) -> Option<IssueView> {
    match i {
        Some(i) => Some(i@),
        None => None,
    }
}

impl View for ManagedAccount {
    type V = AccountView;

    open spec fn view(&self) -> AccountView {
        AccountView {
            id: self.id@,
            name: self.name@,
            email: opt_view(self.email),
            plan_type: opt_view(self.plan_type),
            user_id: opt_view(self.user_id),
            account_id: opt_view(self.account_id),
            tokens: self.tokens@,
            last_refresh: opt_view(self.last_refresh),
            created_at: self.created_at,
            updated_at: self.updated_at,
            usage: opt_snapshot(self.usage),
            credential_state: self.credential_state,
            credential_issue: opt_issue(self.credential_issue),
            usage_issue: opt_issue(self.usage_issue),
        }
    }
}

fn copy_snapshot(s: &Option<AccountUsageSnapshot>) -> (r: Option<AccountUsageSnapshot>)
    ensures
        opt_snapshot(r) == opt_snapshot(*s),
{
    match s {
        Some(s) => Some(s.copy()),
        None => None,
    }
}

fn copy_issue(i: &Option<AccountIssue>) -> (r: Option<AccountIssue>)
    ensures
        opt_issue(r) == opt_issue(*i),
{
    match i {
        Some(i) => Some(i.copy()),
        None => None,
    }
}

/// The accounts file.
#[derive(Debug)]
pub struct AccountsFile {
    pub schema_version: u32,
    pub accounts: Vec<ManagedAccount>,
}

/// The views of listed accounts.
pub open spec fn account_views(s: Seq<ManagedAccount>) -> Seq<AccountView> {
    s.map_values(|a: ManagedAccount| a@)
}

impl AccountsFile {
    /// The file before the first account.
    pub fn empty() -> (r: AccountsFile)
        ensures
            r.schema_version == 1,
            r.accounts@.len() == 0,
    {
        AccountsFile { schema_version: 1, accounts: Vec::new() }
    }
}

/// What is shown of an account: nothing secret.
#[derive(Debug, PartialEq, Eq)]
pub struct AccountSummary {
    pub id: String,
    pub name: String,
    pub email: Option<String>,
    pub plan_type: Option<String>,
    pub is_active: bool,
    pub updated_at: u64,
    pub usage: Option<AccountUsageSnapshot>,
    pub credential_state: CredentialState,
    pub credential_issue: Option<AccountIssue>,
    pub usage_status: UsageStatus,
    pub usage_issue: Option<AccountIssue>,
}

/// The model of what is shown of an account.
pub ghost struct AccountSummaryView {
    pub id: Seq<char>,
    pub name: Seq<char>,
    pub email: Option<Seq<char>>,
    pub plan_type: Option<Seq<char>>,
    pub is_active: bool,
    pub updated_at: u64,
    pub usage: Option<SnapshotView>,
    pub credential_state: CredentialState,
    pub credential_issue: Option<IssueView>,
    pub usage_status: UsageStatus,
    pub usage_issue: Option<IssueView>,
}

impl View for AccountSummary {
    type V = AccountSummaryView;

    open spec fn view(&self) -> AccountSummaryView {
        AccountSummaryView {
            id: self.id@,
            name: self.name@,
            email: opt_view(self.email),
            plan_type: opt_view(self.plan_type),
            is_active: self.is_active,
            updated_at: self.updated_at,
            usage: opt_snapshot(self.usage),
            credential_state: self.credential_state,
            credential_issue: opt_issue(self.credential_issue),
            usage_status: self.usage_status,
            usage_issue: opt_issue(self.usage_issue),
        }
    }
}

impl AccountView {
    /// How far the usage of the account can be relied on.
    pub open spec fn usage_status(self) -> UsageStatus {
        match self.usage_issue {
            Some(issue) => if issue.code == "reauth_required"@ {
                UsageStatus::ReauthRequired
            } else if self.usage is Some {
                UsageStatus::Stale
            } else {
                UsageStatus::Error
            },
            None => if self.usage is Some {
                UsageStatus::Fresh
            } else {
                UsageStatus::Unknown
            },
        }
    }

    /// What is shown of the account.
    pub open spec fn summary(self, is_active: bool) -> AccountSummaryView {
        AccountSummaryView {
            id: self.id,
            name: self.name,
            email: self.email,
            plan_type: self.plan_type,
            is_active,
            updated_at: self.updated_at,
            usage: self.usage,
            credential_state: self.credential_state,
            credential_issue: self.credential_issue,
            usage_status: self.usage_status(),
            usage_issue: self.usage_issue,
        }
    }
}

impl ManagedAccount {
    /// What is shown of the account.
    pub fn to_summary(&self, is_active: bool) -> (r: AccountSummary)
        ensures
            r@ == self@.summary(is_active),
    {
        let usage_status = match &self.usage_issue {
            Some(issue) => if str_eq(&issue.code, "reauth_required") {
                UsageStatus::ReauthRequired
            } else if self.usage.is_some() {
                UsageStatus::Stale
            } else {
                UsageStatus::Error
            },
            None => if self.usage.is_some() {
                UsageStatus::Fresh
            } else {
                UsageStatus::Unknown
            },
        };
        AccountSummary {
            id: self.id.clone(),
            name: self.name.clone(),
            email: self.email.clone(),
            plan_type: self.plan_type.clone(),
            is_active,
            updated_at: self.updated_at,
            usage: copy_snapshot(&self.usage),
            credential_state: self.credential_state,
            credential_issue: copy_issue(&self.credential_issue),
            usage_status,
            usage_issue: copy_issue(&self.usage_issue),
        }
    }

    /// Another account with the same value.
    pub fn copy(&self) -> (r: ManagedAccount)
        ensures
            r@ == self@,
    {
        ManagedAccount {
            id: self.id.clone(),
            name: self.name.clone(),
            email: self.email.clone(),
            plan_type: self.plan_type.clone(),
            user_id: self.user_id.clone(),
            account_id: self.account_id.clone(),
            tokens: self.tokens.copy(),
            last_refresh: self.last_refresh.clone(),
            created_at: self.created_at,
            updated_at: self.updated_at,
            usage: copy_snapshot(&self.usage),
            credential_state: self.credential_state,
            credential_issue: copy_issue(&self.credential_issue),
            usage_issue: copy_issue(&self.usage_issue),
        }
    }
}

/// What is shown of an account does not depend on its tokens.
pub proof fn summaries_hold_no_tokens(a: AccountView, tokens: TokensView, is_active: bool)
    ensures
        (AccountView { tokens, ..a }).summary(is_active) == a.summary(is_active),
{
}

/// The account that Codex is logged in as.
#[derive(Debug, PartialEq, Eq)]
pub struct ActiveAccountStatus {
    pub is_logged_in: bool,
    pub email: Option<String>,
    pub plan_type: Option<String>,
    pub account_id: Option<String>,
    pub matched_account_id: Option<String>,
    pub auth_mode: Option<String>,
}

/// The model of the account that Codex is logged in as.
pub ghost struct ActiveView {
    pub is_logged_in: bool,
    pub email: Option<Seq<char>>,
    pub plan_type: Option<Seq<char>>,
    pub account_id: Option<Seq<char>>,
    pub matched_account_id: Option<Seq<char>>,
    pub auth_mode: Option<Seq<char>>,
}

impl View for ActiveAccountStatus {
    type V = ActiveView;

    open spec fn view(&self) -> ActiveView {
        ActiveView {
            is_logged_in: self.is_logged_in,
            email: opt_view(self.email),
            plan_type: opt_view(self.plan_type),
            account_id: opt_view(self.account_id),
            matched_account_id: opt_view(self.matched_account_id),
            auth_mode: opt_view(self.auth_mode),
        }
    }
}

/// Whether two optional texts are there and the same but for ASCII case.
pub open spec fn same_mail(a: Option<Seq<char>>, b: Option<Seq<char>>) -> bool {
    a is Some && b is Some && lowered(a->0) == lowered(b->0)
}

/// Whether two optional texts are there and the same but for ASCII case.
pub fn mails_match(a: &Option<String>, b: &Option<String>) -> (r: bool)
    ensures
        r == same_mail(opt_view(*a), opt_view(*b)),
{
    match (a, b) {
        (Some(a), Some(b)) => str_eq(&to_lower(a), &to_lower(b)),
        _ => false,
    }
}

/// Whether an account is the one that Codex is logged in as: by its id where one was
/// matched, else by its mail address.
pub open spec fn matches_active(a: AccountView, active: ActiveView) -> bool {
    match active.matched_account_id {
        Some(id) => a.id == id,
        None => same_mail(a.email, active.email),
    }
}

/// Whether an account is the one that Codex is logged in as.
pub fn account_matches_active(account: &ManagedAccount, active: &ActiveAccountStatus) -> (r: bool)
    ensures
        r == matches_active(account@, active@),
{
    match &active.matched_account_id {
        Some(id) => str_eq(&account.id, id),
        None => mails_match(&account.email, &active.email),
    }
}

/// The views of summaries.
pub open spec fn account_summaries(s: Seq<AccountSummary>) -> Seq<AccountSummaryView> {
    s.map_values(|a: AccountSummary| a@)
}

/// What is shown of all accounts.
pub fn list_accounts(accounts: &Vec<ManagedAccount>, active: &ActiveAccountStatus) -> (r: Vec<
    AccountSummary,
>)
    ensures
        account_summaries(r@) == account_views(accounts@).map_values(
            |a: AccountView| a.summary(matches_active(a, active@)),
        ),
{
    let mut out: Vec<AccountSummary> = Vec::new();
    let mut i: usize = 0;
    while i < accounts.len()
        invariant
            i <= accounts@.len(),
            out@.len() == i,
            forall|j: int|
                0 <= j < i ==> (#[trigger] out@[j])@ == accounts@[j]@.summary(
                    matches_active(accounts@[j]@, active@),
                ),
        decreases accounts@.len() - i,
    {
        out.push(accounts[i].to_summary(account_matches_active(&accounts[i], active)));
        i = i + 1;
    }
    assert(account_summaries(out@) =~= account_views(accounts@).map_values(
        |a: AccountView| a.summary(matches_active(a, active@)),
    ));
    out
}

/// What is shown of one account; without knowing who is logged in, it is not active.
pub fn summarise_account(account: &ManagedAccount, active: &Option<ActiveAccountStatus>) -> (r:
    AccountSummary)
    ensures
        r@ == account@.summary(active is Some && matches_active(account@, active->0@)),
{
    let is_active = match active {
        Some(active) => account_matches_active(account, active),
        None => false,
    };
    account.to_summary(is_active)
}

/// The reference under which the tokens of an account are stored.
pub fn account_credential_reference(id: &str) -> (r: String)
    ensures
        r@ == "account:"@ + id@,
{
    crate::text::cat("account:", id)
}

/// How the usage of an account stands: fresh without an issue, stale with one, an error where
/// there is nothing to show, unknown where it was never read; an issue that asks for a new
/// login always shows as such.
pub proof fn usage_stands_by_its_issue(a: AccountView)
    ensures
        a.usage_status() == UsageStatus::ReauthRequired <==> a.usage_issue is Some
            && a.usage_issue->0.code == "reauth_required"@,
        a.usage_issue is None ==> (a.usage_status() == UsageStatus::Fresh <==> a.usage is Some),
        a.usage_issue is None ==> (a.usage_status() == UsageStatus::Unknown <==> a.usage is None),
        a.usage_issue is Some && a.usage_issue->0.code != "reauth_required"@ ==> a.usage_status()
            == (if a.usage is Some {
            UsageStatus::Stale
        } else {
            UsageStatus::Error
        }),
{
}

/// A summary shows of an account what the panel shows, unchanged.
pub proof fn summaries_show_the_account(a: AccountView, is_active: bool)
    ensures
        ({
            let s = a.summary(is_active);
            &&& s.is_active == is_active
            &&& s.id == a.id && s.name == a.name && s.email == a.email && s.plan_type == a.plan_type
            &&& s.updated_at == a.updated_at && s.usage == a.usage && s.usage_issue == a.usage_issue
            &&& s.credential_state == a.credential_state && s.credential_issue
                == a.credential_issue
            &&& s.usage_status == a.usage_status()
        }),
{
}

/// The account that is shown as active is the one that the session was matched to, and only
/// where it was matched to none, one of the same email, capitals aside.
pub proof fn the_matched_account_is_active(a: AccountView, active: ActiveView)
    ensures
        active.matched_account_id is Some ==> (matches_active(a, active) <==> a.id
            == active.matched_account_id->0),
        active.matched_account_id is None ==> (matches_active(a, active) <==> a.email is Some
            && active.email is Some && lowered(a.email->0) == lowered(active.email->0)),
{
}

} // verus!
