//! Saving accounts: which tokens go to the credential store, and what the accounts file
//! holds.

use crate::account::{AccountTokens, CredentialState, TokensView};
use crate::accounts::must_store;
use crate::json::{empty_object, json_views, Json, JsonView, NumberView};
use crate::records::{
    account_credential_reference, account_views, AccountIssue, AccountUsageSnapshot, AccountView,
    AccountsFile, IssueView, ManagedAccount, ReserveLimitSummary, ReserveView, SnapshotView,
    UsageWindow,
};
use crate::service::{json_or_null, text_or_null};
use crate::text::opt_view;
use vstd::prelude::*;
use vstd::string::*;

verus! {

/// A number as it is written.
pub open spec fn number_json(n: u64) -> JsonView {
    JsonView::Number(NumberView::Unsigned(n))
}

/// A number as it is written, null where there is none.
pub open spec fn number_or_null(n: Option<u64>) -> JsonView {
    match n {
        Some(n) => number_json(n),
        None => JsonView::Null,
    }
}

fn write_number(n: Option<u64>) -> (r: Json)
    ensures
        r@ == number_or_null(n),
{
    match n {
        Some(n) => Json::unsigned(n),
        None => Json::Null,
    }
}

/// A usage window as it is written.
pub open spec fn window_json(w: UsageWindow) -> JsonView {
    empty_object().with("used_percent"@, number_json(w.used_percent as u64)).with(
        "limit_window_seconds"@,
        number_json(w.limit_window_seconds),
    ).with("reset_after_seconds"@, number_json(w.reset_after_seconds)).with(
        "reset_at"@,
        number_json(w.reset_at),
    )
}

fn write_window(w: Option<UsageWindow>) -> (r: Json)
    ensures
        r@ == (match w {
            Some(w) => window_json(w),
            None => JsonView::Null,
        }),
{
    match w {
        Some(w) => Json::object().with("used_percent", Json::unsigned(w.used_percent as u64)).with(
            "limit_window_seconds",
            Json::unsigned(w.limit_window_seconds),
        ).with("reset_after_seconds", Json::unsigned(w.reset_after_seconds)).with(
            "reset_at",
            Json::unsigned(w.reset_at),
        ),
        None => Json::Null,
    }
}

/// A reserve limit as it is written.
pub open spec fn reserve_json(l: ReserveView) -> JsonView {
    empty_object().with("limit_name"@, JsonView::Str(l.limit_name)).with(
        "allowed"@,
        JsonView::Bool(l.allowed),
    ).with("limit_reached"@, JsonView::Bool(l.limit_reached)).with(
        "used_percent"@,
        number_or_null(
            match l.used_percent {
                Some(n) => Some(n as u64),
                None => None,
            },
        ),
    ).with("reset_after_seconds"@, number_or_null(l.reset_after_seconds)).with(
        "reset_at"@,
        number_or_null(l.reset_at),
    )
}

fn write_reserve(l: &Option<ReserveLimitSummary>) -> (r: Json)
    ensures
        r@ == (match *l {
            Some(l) => reserve_json(l@),
            None => JsonView::Null,
        }),
{
    match l {
        Some(l) => {
            let used = match l.used_percent {
                Some(n) => Some(n as u64),
                None => None,
            };
            Json::object().with("limit_name", Json::string(&l.limit_name)).with(
                "allowed",
                Json::Bool(l.allowed),
            ).with("limit_reached", Json::Bool(l.limit_reached)).with(
                "used_percent",
                write_number(used),
            ).with("reset_after_seconds", write_number(l.reset_after_seconds)).with(
                "reset_at",
                write_number(l.reset_at),
            )
        },
        None => Json::Null,
    }
}

/// A usage snapshot as it is written.
pub open spec fn usage_json(s: SnapshotView) -> JsonView {
    empty_object().with("updated_at"@, number_json(s.updated_at)).with(
        "plan_type"@,
        text_or_null(s.plan_type),
    ).with(
        "primary_5h"@,
        match s.primary_5h {
            Some(w) => window_json(w),
            None => JsonView::Null,
        },
    ).with(
        "secondary_weekly"@,
        match s.secondary_weekly {
            Some(w) => window_json(w),
            None => JsonView::Null,
        },
    ).with(
        "reserve"@,
        match s.reserve {
            Some(l) => reserve_json(l),
            None => JsonView::Null,
        },
    )
}

fn write_usage(s: &Option<AccountUsageSnapshot>) -> (r: Json)
    ensures
        r@ == (match *s {
            Some(s) => usage_json(s@),
            None => JsonView::Null,
        }),
{
    match s {
        Some(s) => Json::object().with("updated_at", Json::unsigned(s.updated_at)).with(
            "plan_type",
            json_or_null(&s.plan_type),
        ).with("primary_5h", write_window(s.primary_5h)).with(
            "secondary_weekly",
            write_window(s.secondary_weekly),
        ).with("reserve", write_reserve(&s.reserve)),
        None => Json::Null,
    }
}

/// An issue as it is written.
pub open spec fn issue_json(i: IssueView) -> JsonView {
    empty_object().with("code"@, JsonView::Str(i.code)).with(
        "message"@,
        JsonView::Str(i.message),
    ).with("occurred_at"@, number_json(i.occurred_at))
}

fn write_issue(i: &Option<AccountIssue>) -> (r: Json)
    ensures
        r@ == (match *i {
            Some(i) => issue_json(i@),
            None => JsonView::Null,
        }),
{
    match i {
        Some(i) => Json::object().with("code", Json::string(&i.code)).with(
            "message",
            Json::string(&i.message),
        ).with("occurred_at", Json::unsigned(i.occurred_at)),
        None => Json::Null,
    }
}

/// The name under which the state of a credential is written.
pub open spec fn state_name(s: CredentialState) -> Seq<char> {
    match s {
        CredentialState::Ready => "ready"@,
        CredentialState::AccessOnly => "access_only"@,
        CredentialState::NeedsReauth => "needs_reauth"@,
        CredentialState::Unknown => "unknown"@,
    }
}

fn write_state(s: CredentialState) -> (r: Json)
    ensures
        r@ == JsonView::Str(state_name(s)),
{
    match s {
        CredentialState::Ready => Json::string("ready"),
        CredentialState::AccessOnly => Json::string("access_only"),
        CredentialState::NeedsReauth => Json::string("needs_reauth"),
        CredentialState::Unknown => Json::string("unknown"),
    }
}

/// An account as it stands in the accounts file. Its tokens are no part of it.
pub open spec fn account_json(a: AccountView) -> JsonView {
    empty_object().with("id"@, JsonView::Str(a.id)).with("name"@, JsonView::Str(a.name)).with(
        "email"@,
        text_or_null(a.email),
    ).with("plan_type"@, text_or_null(a.plan_type)).with("user_id"@, text_or_null(a.user_id)).with(
        "account_id"@,
        text_or_null(a.account_id),
    ).with("last_refresh"@, text_or_null(a.last_refresh)).with(
        "created_at"@,
        number_json(a.created_at),
    ).with("updated_at"@, number_json(a.updated_at)).with(
        "usage"@,
        match a.usage {
            Some(s) => usage_json(s),
            None => JsonView::Null,
        },
    ).with("credential_state"@, JsonView::Str(state_name(a.credential_state))).with(
        "credential_issue"@,
        match a.credential_issue {
            Some(i) => issue_json(i),
            None => JsonView::Null,
        },
    ).with(
        "usage_issue"@,
        match a.usage_issue {
            Some(i) => issue_json(i),
            None => JsonView::Null,
        },
    )
}

/// An account as it stands in the accounts file.
pub fn account_document(a: &ManagedAccount) -> (r: Json)
    ensures
        r@ == account_json(a@),
{
    Json::object().with("id", Json::string(&a.id)).with("name", Json::string(&a.name)).with(
        "email",
        json_or_null(&a.email),
    ).with("plan_type", json_or_null(&a.plan_type)).with("user_id", json_or_null(&a.user_id)).with(
        "account_id",
        json_or_null(&a.account_id),
    ).with("last_refresh", json_or_null(&a.last_refresh)).with(
        "created_at",
        Json::unsigned(a.created_at),
    ).with("updated_at", Json::unsigned(a.updated_at)).with("usage", write_usage(&a.usage)).with(
        "credential_state",
        write_state(a.credential_state),
    ).with("credential_issue", write_issue(&a.credential_issue)).with(
        "usage_issue",
        write_issue(&a.usage_issue),
    )
}

/// The accounts file as it is written.
pub open spec fn file_json(schema_version: u32, accounts: Seq<AccountView>) -> JsonView {
    empty_object().with("schema_version"@, number_json(schema_version as u64)).with(
        "accounts"@,
        JsonView::Array(accounts.map_values(|a: AccountView| account_json(a))),
    )
}

/// The accounts file as it is written.
pub fn accounts_document(file: &AccountsFile) -> (r: Json)
    ensures
        r@ == file_json(file.schema_version, account_views(file.accounts@)),
{
    let mut out: Vec<Json> = Vec::new();
    let mut i: usize = 0;
    while i < file.accounts.len()
        invariant
            i <= file.accounts@.len(),
            out@.len() == i,
            forall|j: int|
                0 <= j < i ==> (#[trigger] out@[j])@ == account_json(file.accounts@[j]@),
        decreases file.accounts@.len() - i,
    {
        out.push(account_document(&file.accounts[i]));
        i = i + 1;
    }
    assert(json_views(out@) =~= account_views(file.accounts@).map_values(
        |a: AccountView| account_json(a),
    ));
    Json::object().with("schema_version", Json::unsigned(file.schema_version as u64)).with(
        "accounts",
        Json::array(out),
    )
}

/// Whether two accounts differ in their tokens alone.
pub open spec fn same_but_for_tokens(a: AccountView, b: AccountView) -> bool {
    a == (AccountView { tokens: a.tokens, ..b })
}

/// The accounts file holds no tokens: no account in it has such a section, and files of
/// accounts that differ in their tokens alone are the same.
pub proof fn accounts_files_hold_no_tokens(
    schema_version: u32,
    accounts: Seq<AccountView>,
    others: Seq<AccountView>,
)
    requires
        accounts.len() == others.len(),
        forall|i: int|
            0 <= i < accounts.len() ==> same_but_for_tokens(#[trigger] accounts[i], others[i]),
    ensures
        file_json(schema_version, accounts) == file_json(schema_version, others),
        ({
            let written = file_json(schema_version, accounts).field("accounts"@)->0->Array_0;
            &&& written.len() == accounts.len()
            &&& forall|i: int|
                0 <= i < written.len() ==> (#[trigger] written[i]) is Object && written[i].field(
                    "tokens"@,
                ) is None
        }),
{
    let written = accounts.map_values(|a: AccountView| account_json(a));
    assert(written =~= others.map_values(|a: AccountView| account_json(a)));
    assert(file_json(schema_version, accounts).field("accounts"@) == Some(
        JsonView::Array(written),
    ));
    assert forall|i: int| 0 <= i < written.len() implies (#[trigger] written[i]) is Object
        && written[i].field("tokens"@) is None by {
        reveal_strlit("tokens");
        reveal_strlit("id");
        reveal_strlit("name");
        reveal_strlit("email");
        reveal_strlit("plan_type");
        reveal_strlit("user_id");
        reveal_strlit("account_id");
        reveal_strlit("last_refresh");
        reveal_strlit("created_at");
        reveal_strlit("updated_at");
        reveal_strlit("usage");
        reveal_strlit("credential_state");
        reveal_strlit("credential_issue");
        reveal_strlit("usage_issue");
        assert("tokens"@.len() == 6);
        assert("id"@.len() == 2);
        assert("name"@.len() == 4);
        assert("email"@.len() == 5);
        assert("plan_type"@.len() == 9);
        assert("user_id"@.len() == 7);
        assert("account_id"@.len() == 10);
        assert("last_refresh"@.len() == 12);
        assert("created_at"@.len() == 10);
        assert("updated_at"@.len() == 10);
        assert("usage"@.len() == 5);
        assert("credential_state"@.len() == 16);
        assert("credential_issue"@.len() == 16);
        assert("usage_issue"@.len() == 11);
        assert(written[i] == account_json(accounts[i]));
    }
}

/// The reference under which the tokens of an account are stored.
pub open spec fn reference_of(a: AccountView) -> Seq<char> {
    "account:"@ + a.id
}

/// What saving stores for an account, given what is stored under its reference and the
/// tokens as they are written: the tokens, where there are any and they are not stored
/// already.
pub open spec fn put_of(
    a: AccountView,
    stored: Option<Seq<char>>,
    written: Seq<char>,
) -> Option<(Seq<char>, Seq<char>)> {
    if !a.tokens.empty() && stored != Some(written) {
        Some((reference_of(a), written))
    } else {
        None
    }
}

/// The index of the first account from `at` on that has tokens, or the length.
pub open spec fn next_with_tokens(accounts: Seq<AccountView>, at: int) -> int
    decreases accounts.len() - at,
{
    if at >= accounts.len() || !accounts[at].tokens.empty() {
        at
    } else {
        next_with_tokens(accounts, at + 1)
    }
}

/// An accounts file that is being saved, account by account.
pub struct SaveRun {
    pub at: usize,
}

/// The next step of saving an accounts file.
pub enum SaveStep {
    /// What is stored under a reference is read, and the tokens are written to a text
    /// that is held against it.
    Read { reference: String, tokens: AccountTokens },
    /// The credentials are stored; the file is written.
    Write(Json),
}

impl SaveRun {
    /// Begins with the first account.
    pub fn begin() -> (r: SaveRun)
        ensures
            r.at == 0,
    {
        SaveRun { at: 0 }
    }

    /// The next step. The credential store is asked for nothing of an account without
    /// tokens.
    pub fn next(&mut self, file: &AccountsFile) -> (r: SaveStep)
        requires
            old(self).at <= file.accounts@.len(),
        ensures
            ({
                let accounts = account_views(file.accounts@);
                &&& final(self).at == next_with_tokens(accounts, old(self).at as int)
                &&& final(self).at <= accounts.len()
                &&& if final(self).at < accounts.len() {
                    let a = accounts[final(self).at as int];
                    &&& !a.tokens.empty()
                    &&& r is Read
                    &&& r->reference@ == reference_of(a)
                    &&& r->tokens@ == a.tokens
                } else {
                    r is Write && r->Write_0@ == file_json(file.schema_version, accounts)
                }
            }),
    {
        let ghost accounts = account_views(file.accounts@);
        let ghost from = self.at as int;
        while self.at < file.accounts.len() && file.accounts[self.at].tokens.is_empty()
            invariant
                accounts == account_views(file.accounts@),
                self.at <= file.accounts@.len(),
                next_with_tokens(accounts, self.at as int) == next_with_tokens(accounts, from),
            decreases file.accounts@.len() - self.at,
        {
            assert(accounts[self.at as int] == file.accounts@[self.at as int]@);
            self.at = self.at + 1;
        }
        if self.at < file.accounts.len() {
            let account = &file.accounts[self.at];
            assert(accounts[self.at as int] == account@);
            SaveStep::Read {
                reference: account_credential_reference(&account.id),
                tokens: account.tokens.copy(),
            }
        } else {
            SaveStep::Write(accounts_document(file))
        }
    }

    /// Goes on once the store was read; what could not be read counts as not stored.
    /// Gives the reference and the text to be stored, where that is needed.
    pub fn on_read(&mut self, file: &AccountsFile, stored: Option<String>, written: String) -> (r:
        Option<(String, String)>)
        requires
            old(self).at < file.accounts@.len(),
        ensures
            final(self).at == old(self).at + 1,
            (match r {
                Some((reference, secret)) => Some((reference@, secret@)),
                None => None,
            }) == put_of(
                account_views(file.accounts@)[old(self).at as int],
                opt_view(stored),
                written@,
            ),
    {
        assert(self.at < file.accounts.len());
        let account = &file.accounts[self.at];
        assert(account_views(file.accounts@)[self.at as int] == account@);
        let needed = must_store(&account.tokens, &stored, &written);
        let reference = account_credential_reference(&account.id);
        self.at = self.at + 1;
        if needed {
            Some((reference, written))
        } else {
            None
        }
    }
}

/// What a credential store gives for a reference.
pub open spec fn read_from(store: Map<Seq<char>, Seq<char>>, reference: Seq<char>) -> Option<
    Seq<char>,
> {
    if store.contains_key(reference) {
        Some(store[reference])
    } else {
        None
    }
}

/// What saving the accounts from `at` on stores, in this order, and the credential store
/// after it. The texts in which tokens are written are those that `written` gives.
pub open spec fn saved_from(
    accounts: Seq<AccountView>,
    at: int,
    store: Map<Seq<char>, Seq<char>>,
    written: spec_fn(TokensView) -> Seq<char>,
) -> (Seq<(Seq<char>, Seq<char>)>, Map<Seq<char>, Seq<char>>)
    decreases accounts.len() - at,
{
    if at < 0 || at >= accounts.len() {
        (Seq::empty(), store)
    } else {
        let a = accounts[at];
        match put_of(a, read_from(store, reference_of(a)), written(a.tokens)) {
            Some((reference, secret)) => {
                let (puts, after) = saved_from(
                    accounts,
                    at + 1,
                    store.insert(reference, secret),
                    written,
                );
                (seq![(reference, secret)] + puts, after)
            },
            None => saved_from(accounts, at + 1, store, written),
        }
    }
}

/// Whether no two accounts have the same id.
pub open spec fn distinct_ids(accounts: Seq<AccountView>) -> bool {
    forall|i: int, j: int|
        0 <= i < j < accounts.len() ==> (#[trigger] accounts[i]).id != (#[trigger] accounts[j]).id
}

/// Whether the tokens of the account at `i` are stored by a save that meets `store`.
pub open spec fn needs_storing(
    accounts: Seq<AccountView>,
    i: int,
    store: Map<Seq<char>, Seq<char>>,
    written: spec_fn(TokensView) -> Seq<char>,
) -> bool {
    put_of(
        accounts[i],
        read_from(store, reference_of(accounts[i])),
        written(accounts[i].tokens),
    ) is Some
}

proof fn references_are_distinct(accounts: Seq<AccountView>, i: int, j: int)
    requires
        distinct_ids(accounts),
        0 <= i < accounts.len(),
        0 <= j < accounts.len(),
        i != j,
    ensures
        reference_of(accounts[i]) != reference_of(accounts[j]),
{
    let p = "account:"@;
    let a = accounts[i].id;
    let b = accounts[j].id;
    if p + a == p + b {
        assert((p + a).skip(p.len() as int) =~= a);
        assert((p + b).skip(p.len() as int) =~= b);
    }
}

/// A save goes from one account with tokens to the next: those in between store nothing.
pub proof fn accounts_without_tokens_are_passed_over(
    accounts: Seq<AccountView>,
    at: int,
    store: Map<Seq<char>, Seq<char>>,
    written: spec_fn(TokensView) -> Seq<char>,
)
    requires
        0 <= at <= accounts.len(),
    ensures
        saved_from(accounts, at, store, written) == saved_from(
            accounts,
            next_with_tokens(accounts, at),
            store,
            written,
        ),
    decreases accounts.len() - at,
{
    if at < accounts.len() && accounts[at].tokens.empty() {
        accounts_without_tokens_are_passed_over(accounts, at + 1, store, written);
    }
}

/// The store after a save: the tokens of every account that has some, and what it held
/// besides.
proof fn saved_store(
    accounts: Seq<AccountView>,
    at: int,
    store: Map<Seq<char>, Seq<char>>,
    written: spec_fn(TokensView) -> Seq<char>,
)
    requires
        0 <= at <= accounts.len(),
        distinct_ids(accounts),
    ensures
        forall|i: int|
            at <= i < accounts.len() && !(#[trigger] accounts[i]).tokens.empty() ==> read_from(
                saved_from(accounts, at, store, written).1,
                reference_of(accounts[i]),
            ) == Some(written(accounts[i].tokens)),
        forall|k: Seq<char>|
            (forall|i: int|
                at <= i < accounts.len() && !(#[trigger] accounts[i]).tokens.empty()
                    ==> reference_of(accounts[i]) != k) ==> #[trigger] read_from(
                saved_from(accounts, at, store, written).1,
                k,
            ) == read_from(store, k),
    decreases accounts.len() - at,
{
    if at < accounts.len() {
        let a = accounts[at];
        let r = reference_of(a);
        let w = written(a.tokens);
        let next = if put_of(a, read_from(store, r), w) is Some {
            store.insert(r, w)
        } else {
            store
        };
        saved_store(accounts, at + 1, next, written);
        let after = saved_from(accounts, at + 1, next, written).1;
        assert(saved_from(accounts, at, store, written).1 == after);
        assert forall|i: int| at < i < accounts.len() implies reference_of(#[trigger] accounts[i])
            != r by {
            references_are_distinct(accounts, at, i);
        }
        assert(read_from(after, r) == read_from(next, r));
        assert forall|k: Seq<char>|
            (forall|i: int|
                at <= i < accounts.len() && !(#[trigger] accounts[i]).tokens.empty()
                    ==> reference_of(accounts[i]) != k) implies #[trigger] read_from(after, k)
            == read_from(store, k) by {
            assert(read_from(after, k) == read_from(next, k));
            assert(!accounts[at].tokens.empty() ==> reference_of(accounts[at]) != k);
        }
    }
}

/// Whether something stored is of an account from `at` on.
spec fn put_from(
    accounts: Seq<AccountView>,
    at: int,
    written: spec_fn(TokensView) -> Seq<char>,
    put: (Seq<char>, Seq<char>),
) -> bool {
    exists|i: int|
        at <= i < accounts.len() && put == (
            reference_of(#[trigger] accounts[i]),
            written(accounts[i].tokens),
        )
}

/// What a save stores is of its accounts, and no reference comes twice.
proof fn saved_puts(
    accounts: Seq<AccountView>,
    at: int,
    store: Map<Seq<char>, Seq<char>>,
    written: spec_fn(TokensView) -> Seq<char>,
)
    requires
        0 <= at <= accounts.len(),
        distinct_ids(accounts),
    ensures
        ({
            let puts = saved_from(accounts, at, store, written).0;
            &&& forall|n: int|
                0 <= n < puts.len() ==> put_from(accounts, at, written, #[trigger] puts[n])
            &&& forall|m: int, n: int|
                0 <= m < n < puts.len() ==> (#[trigger] puts[m]).0 != (#[trigger] puts[n]).0
        }),
    decreases accounts.len() - at,
{
    if at < accounts.len() {
        let a = accounts[at];
        let r = reference_of(a);
        let w = written(a.tokens);
        let put = put_of(a, read_from(store, r), w);
        let next = if put is Some {
            store.insert(r, w)
        } else {
            store
        };
        saved_puts(accounts, at + 1, next, written);
        let later = saved_from(accounts, at + 1, next, written).0;
        let puts = saved_from(accounts, at, store, written).0;
        assert forall|n: int| 0 <= n < later.len() implies (#[trigger] later[n]).0 != r && put_from(
            accounts,
            at,
            written,
            later[n],
        ) by {
            assert(put_from(accounts, at + 1, written, later[n]));
            let i = choose|i: int|
                at + 1 <= i < accounts.len() && later[n] == (
                    reference_of(#[trigger] accounts[i]),
                    written(accounts[i].tokens),
                );
            references_are_distinct(accounts, at, i);
        }
        if put is Some {
            assert(puts == seq![(r, w)] + later);
            assert(put_from(accounts, at, written, (r, w))) by {
                assert(accounts[at] == a);
            }
            assert forall|n: int| 0 < n < puts.len() implies #[trigger] puts[n] == later[n - 1] by {}
        }
    }
}

/// The tokens of an account are stored where they have to be.
proof fn saved_where_needed(
    accounts: Seq<AccountView>,
    at: int,
    store: Map<Seq<char>, Seq<char>>,
    written: spec_fn(TokensView) -> Seq<char>,
    i: int,
)
    requires
        0 <= at <= i < accounts.len(),
        distinct_ids(accounts),
    ensures
        saved_from(accounts, at, store, written).0.contains(
            (reference_of(accounts[i]), written(accounts[i].tokens)),
        ) == needs_storing(accounts, i, store, written),
    decreases accounts.len() - at,
{
    let a = accounts[at];
    let r = reference_of(a);
    let w = written(a.tokens);
    let put = put_of(a, read_from(store, r), w);
    let next = if put is Some {
        store.insert(r, w)
    } else {
        store
    };
    let later = saved_from(accounts, at + 1, next, written).0;
    let puts = saved_from(accounts, at, store, written).0;
    let p = (reference_of(accounts[i]), written(accounts[i].tokens));
    if put is Some {
        assert(puts == seq![(r, w)] + later);
        assert(puts[0] == (r, w));
    }
    if i == at {
        if put is None && puts.contains(p) {
            saved_puts(accounts, at + 1, next, written);
            let n = choose|n: int| 0 <= n < puts.len() && puts[n] == p;
            assert(put_from(accounts, at + 1, written, later[n]));
            let j = choose|j: int|
                at + 1 <= j < accounts.len() && later[n] == (
                    reference_of(#[trigger] accounts[j]),
                    written(accounts[j].tokens),
                );
            references_are_distinct(accounts, at, j);
        }
    } else {
        references_are_distinct(accounts, at, i);
        saved_where_needed(accounts, at + 1, next, written, i);
        assert(read_from(next, p.0) == read_from(store, p.0));
        if put is Some {
            if later.contains(p) {
                let n = choose|n: int| 0 <= n < later.len() && later[n] == p;
                assert(puts[n + 1] == p);
            }
            if puts.contains(p) {
                let n = choose|n: int| 0 <= n < puts.len() && puts[n] == p;
                assert(n > 0);
                assert(later[n - 1] == p);
            }
        }
    }
}

/// A save stores the tokens of exactly those accounts that have some and whose tokens
/// are not stored already, each once. After it the tokens of every account that has some
/// are stored, and nothing else has changed.
pub proof fn saves_store_what_has_changed(
    accounts: Seq<AccountView>,
    store: Map<Seq<char>, Seq<char>>,
    written: spec_fn(TokensView) -> Seq<char>,
)
    requires
        distinct_ids(accounts),
    ensures
        ({
            let (puts, after) = saved_from(accounts, 0, store, written);
            &&& forall|i: int|
                0 <= i < accounts.len() ==> puts.contains(
                    (reference_of(#[trigger] accounts[i]), written(accounts[i].tokens)),
                ) == (!accounts[i].tokens.empty() && read_from(store, reference_of(accounts[i]))
                    != Some(written(accounts[i].tokens)))
            &&& forall|n: int|
                0 <= n < puts.len() ==> exists|i: int|
                    0 <= i < accounts.len() && #[trigger] puts[n] == (
                        reference_of(#[trigger] accounts[i]),
                        written(accounts[i].tokens),
                    )
            &&& forall|m: int, n: int|
                0 <= m < n < puts.len() ==> (#[trigger] puts[m]).0 != (#[trigger] puts[n]).0
            &&& forall|i: int|
                0 <= i < accounts.len() && !(#[trigger] accounts[i]).tokens.empty() ==> read_from(
                    after,
                    reference_of(accounts[i]),
                ) == Some(written(accounts[i].tokens))
            &&& forall|k: Seq<char>|
                (forall|i: int|
                    0 <= i < accounts.len() && !(#[trigger] accounts[i]).tokens.empty()
                        ==> reference_of(accounts[i]) != k) ==> #[trigger] read_from(after, k)
                    == read_from(store, k)
        }),
{
    saved_store(accounts, 0, store, written);
    saved_puts(accounts, 0, store, written);
    let puts = saved_from(accounts, 0, store, written).0;
    assert forall|i: int| 0 <= i < accounts.len() implies puts.contains(
        (reference_of(#[trigger] accounts[i]), written(accounts[i].tokens)),
    ) == (!accounts[i].tokens.empty() && read_from(store, reference_of(accounts[i])) != Some(
        written(accounts[i].tokens),
    )) by {
        saved_where_needed(accounts, 0, store, written, i);
    }
    assert forall|n: int| 0 <= n < puts.len() implies exists|i: int|
        0 <= i < accounts.len() && #[trigger] puts[n] == (
            reference_of(#[trigger] accounts[i]),
            written(accounts[i].tokens),
        ) by {
        assert(put_from(accounts, 0, written, puts[n]));
    }
}

proof fn nothing_is_stored_again(
    accounts: Seq<AccountView>,
    at: int,
    store: Map<Seq<char>, Seq<char>>,
    written: spec_fn(TokensView) -> Seq<char>,
)
    requires
        0 <= at <= accounts.len(),
        forall|i: int|
            at <= i < accounts.len() && !(#[trigger] accounts[i]).tokens.empty() ==> read_from(
                store,
                reference_of(accounts[i]),
            ) == Some(written(accounts[i].tokens)),
    ensures
        saved_from(accounts, at, store, written) == (Seq::<(Seq<char>, Seq<char>)>::empty(), store),
    decreases accounts.len() - at,
{
    if at < accounts.len() {
        assert(put_of(
            accounts[at],
            read_from(store, reference_of(accounts[at])),
            written(accounts[at].tokens),
        ) is None);
        nothing_is_stored_again(accounts, at + 1, store, written);
    }
}

/// A second save of the same accounts stores nothing and leaves the credential store as
/// it is.
pub proof fn second_saves_store_nothing(
    accounts: Seq<AccountView>,
    store: Map<Seq<char>, Seq<char>>,
    written: spec_fn(TokensView) -> Seq<char>,
)
    requires
        distinct_ids(accounts),
    ensures
        ({
            let after = saved_from(accounts, 0, store, written).1;
            saved_from(accounts, 0, after, written) == (
                Seq::<(Seq<char>, Seq<char>)>::empty(),
                after,
            )
        }),
{
    saved_store(accounts, 0, store, written);
    let after = saved_from(accounts, 0, store, written).1;
    nothing_is_stored_again(accounts, 0, after, written);
}

/// An account stands in the accounts file with each of its values under its own name; a value
/// that is not there is written as null.
pub proof fn files_hold_the_accounts(a: AccountView, key: Seq<char>)
    ensures
        ({
            let v = account_json(a);
            let or_null = |x: Option<Seq<char>>|
                match x {
                    Some(s) => Some(JsonView::Str(s)),
                    None => Some(JsonView::Null),
                };
            &&& v.text_field("id"@) == Some(a.id) && v.text_field("name"@) == Some(a.name)
            &&& v.field("email"@) == or_null(a.email)
            &&& v.field("plan_type"@) == or_null(a.plan_type)
            &&& v.field("user_id"@) == or_null(a.user_id)
            &&& v.field("account_id"@) == or_null(a.account_id)
            &&& v.field("last_refresh"@) == or_null(a.last_refresh)
            &&& v.field("created_at"@)->0.unsigned() == Some(a.created_at)
            &&& v.field("updated_at"@)->0.unsigned() == Some(a.updated_at)
            &&& a.usage is None ==> v.field("usage"@) == Some(JsonView::Null)
            &&& a.usage is Some ==> v.field("usage"@) == Some(usage_json(a.usage->0))
            &&& a.credential_state == CredentialState::Ready ==> v.text_field("credential_state"@)
                == Some("ready"@)
            &&& a.credential_state == CredentialState::AccessOnly ==> v.text_field(
                "credential_state"@,
            ) == Some("access_only"@)
            &&& a.credential_state == CredentialState::NeedsReauth ==> v.text_field(
                "credential_state"@,
            ) == Some("needs_reauth"@)
            &&& a.credential_state == CredentialState::Unknown ==> v.text_field("credential_state"@)
                == Some("unknown"@)
            &&& a.credential_issue is None ==> v.field("credential_issue"@) == Some(JsonView::Null)
            &&& a.credential_issue is Some ==> v.field("credential_issue"@) == Some(
                issue_json(a.credential_issue->0),
            )
            &&& a.usage_issue is None ==> v.field("usage_issue"@) == Some(JsonView::Null)
            &&& a.usage_issue is Some ==> v.field("usage_issue"@) == Some(
                issue_json(a.usage_issue->0),
            )
        }),
{
    reveal_strlit("id");
    reveal_strlit("name");
    reveal_strlit("email");
    reveal_strlit("plan_type");
    reveal_strlit("user_id");
    reveal_strlit("account_id");
    reveal_strlit("last_refresh");
    reveal_strlit("created_at");
    reveal_strlit("updated_at");
    reveal_strlit("usage");
    reveal_strlit("credential_state");
    reveal_strlit("credential_issue");
    reveal_strlit("usage_issue");
    assert("id"@.len() == 2);
    assert("name"@.len() == 4);
    assert("email"@.len() == 5 && "email"@[0] == 'e');
    assert("plan_type"@.len() == 9);
    assert("user_id"@.len() == 7);
    assert("account_id"@.len() == 10 && "account_id"@[0] == 'a');
    assert("last_refresh"@.len() == 12);
    assert("created_at"@.len() == 10 && "created_at"@[0] == 'c');
    assert("updated_at"@.len() == 10 && "updated_at"@[0] == 'u');
    assert("usage"@.len() == 5 && "usage"@[0] == 'u');
    assert("credential_state"@.len() == 16 && "credential_state"@[11] == 's');
    assert("credential_issue"@.len() == 16 && "credential_issue"@[11] == 'i');
    assert("usage_issue"@.len() == 11);
}

/// An issue is written with its code, its message and when it occurred.
pub proof fn files_hold_the_issues(i: IssueView)
    ensures
        issue_json(i).text_field("code"@) == Some(i.code),
        issue_json(i).text_field("message"@) == Some(i.message),
        issue_json(i).field("occurred_at"@)->0.unsigned() == Some(i.occurred_at),
{
    reveal_strlit("code");
    reveal_strlit("message");
    reveal_strlit("occurred_at");
    assert("code"@.len() == 4);
    assert("message"@.len() == 7);
    assert("occurred_at"@.len() == 11);
}

/// A usage window is written with its four numbers under their own names.
pub proof fn files_hold_the_windows(w: UsageWindow)
    ensures
        window_json(w).field("used_percent"@)->0.unsigned() == Some(w.used_percent as u64),
        window_json(w).field("limit_window_seconds"@)->0.unsigned() == Some(w.limit_window_seconds),
        window_json(w).field("reset_after_seconds"@)->0.unsigned() == Some(w.reset_after_seconds),
        window_json(w).field("reset_at"@)->0.unsigned() == Some(w.reset_at),
{
    reveal_strlit("used_percent");
    reveal_strlit("limit_window_seconds");
    reveal_strlit("reset_after_seconds");
    reveal_strlit("reset_at");
    assert("used_percent"@.len() == 12);
    assert("limit_window_seconds"@.len() == 20);
    assert("reset_after_seconds"@.len() == 19);
    assert("reset_at"@.len() == 8);
}

/// What is written of a window is read back as the same window.
pub proof fn written_windows_read_back(w: UsageWindow)
    requires
        w.used_percent <= 100,
    ensures
        crate::usage::window_of(window_json(w)) == Some(w),
{
    files_hold_the_windows(w);
    crate::usage::windows_show_their_numbers(window_json(w));
    reveal_strlit("used_percent");
    reveal_strlit("limit_window_seconds");
    reveal_strlit("reset_after_seconds");
    reveal_strlit("reset_at");
    assert("used_percent"@.len() == 12);
    assert("limit_window_seconds"@.len() == 20);
    assert("reset_after_seconds"@.len() == 19);
    assert("reset_at"@.len() == 8);
    assert(window_json(w).field("used_percent"@) is Some);
    assert(window_json(w).field("limit_window_seconds"@) is Some);
}

/// A usage snapshot is written with its windows, its reserve, its plan and its moment.
pub proof fn files_hold_the_usage(s: SnapshotView)
    ensures
        ({
            let v = usage_json(s);
            &&& v.field("updated_at"@)->0.unsigned() == Some(s.updated_at)
            &&& v.text_field("plan_type"@) == s.plan_type
            &&& s.primary_5h is Some ==> v.field("primary_5h"@) == Some(window_json(s.primary_5h->0))
            &&& s.primary_5h is None ==> v.field("primary_5h"@) == Some(JsonView::Null)
            &&& s.secondary_weekly is Some ==> v.field("secondary_weekly"@) == Some(
                window_json(s.secondary_weekly->0),
            )
            &&& s.secondary_weekly is None ==> v.field("secondary_weekly"@) == Some(JsonView::Null)
            &&& s.reserve is Some ==> v.field("reserve"@) == Some(reserve_json(s.reserve->0))
            &&& s.reserve is None ==> v.field("reserve"@) == Some(JsonView::Null)
        }),
{
    reveal_strlit("updated_at");
    reveal_strlit("plan_type");
    reveal_strlit("primary_5h");
    reveal_strlit("secondary_weekly");
    reveal_strlit("reserve");
    assert("updated_at"@.len() == 10 && "updated_at"@[0] == 'u');
    assert("plan_type"@.len() == 9);
    assert("primary_5h"@.len() == 10 && "primary_5h"@[0] == 'p');
    assert("secondary_weekly"@.len() == 16);
    assert("reserve"@.len() == 7);
}

/// A reserve is written with its name, its flags and its numbers under their own names.
pub proof fn files_hold_the_reserve(l: ReserveView)
    ensures
        ({
            let v = reserve_json(l);
            &&& v.text_field("limit_name"@) == Some(l.limit_name)
            &&& v.field("allowed"@) == Some(JsonView::Bool(l.allowed))
            &&& v.field("limit_reached"@) == Some(JsonView::Bool(l.limit_reached))
            &&& l.used_percent is Some ==> v.field("used_percent"@)->0.unsigned() == Some(
                l.used_percent->0 as u64,
            )
            &&& l.used_percent is None ==> v.field("used_percent"@) == Some(JsonView::Null)
            &&& v.field("reset_after_seconds"@)->0.unsigned() == l.reset_after_seconds
            &&& v.field("reset_at"@)->0.unsigned() == l.reset_at
        }),
{
    reveal_strlit("limit_name");
    reveal_strlit("allowed");
    reveal_strlit("limit_reached");
    reveal_strlit("used_percent");
    reveal_strlit("reset_after_seconds");
    reveal_strlit("reset_at");
    assert("limit_name"@.len() == 10);
    assert("allowed"@.len() == 7);
    assert("limit_reached"@.len() == 13);
    assert("used_percent"@.len() == 12);
    assert("reset_after_seconds"@.len() == 19);
    assert("reset_at"@.len() == 8);
}

/// The accounts file holds its version and all accounts in their order.
pub proof fn files_hold_all_accounts(schema_version: u32, accounts: Seq<AccountView>, i: int)
    ensures
        ({
            let v = file_json(schema_version, accounts);
            let written = v.field("accounts"@)->0->Array_0;
            &&& v.field("schema_version"@)->0.unsigned() == Some(schema_version as u64)
            &&& v.field("accounts"@) is Some && v.field("accounts"@)->0 is Array
            &&& written.len() == accounts.len()
            &&& 0 <= i < accounts.len() ==> written[i] == account_json(accounts[i])
        }),
{
    reveal_strlit("schema_version");
    reveal_strlit("accounts");
    assert("schema_version"@.len() == 14);
    assert("accounts"@.len() == 8);
    let list = accounts.map_values(|a: AccountView| account_json(a));
    assert(file_json(schema_version, accounts).field("accounts"@) == Some(JsonView::Array(list)));
}

/// The tokens of an account are stored under a reference of the account's own.
pub proof fn references_name_the_account(a: AccountView, b: AccountView)
    ensures
        reference_of(a) == reference_of(b) <==> a.id == b.id,
        reference_of(a).len() == a.id.len() + 8,
        reference_of(a).skip(8) == a.id,
{
    reveal_strlit("account:");
    assert("account:"@.len() == 8);
    assert(reference_of(a).skip(8) =~= a.id);
    assert(reference_of(b).skip(8) =~= b.id);
}

} // verus!
