//! Official accounts: their tokens, their records and the errors of managing them.

use crate::json::{Json, JsonView};
use crate::json_text::{json_parsed, parse_json, read_view};
use crate::providers::{CredentialError, CredentialErrorView};
use crate::text::{
    cat, cat3, cat5, decimal, decimal_of, opt_eq, opt_view, pieces, split, str_eq, views,
};
use base64::Engine;
use vstd::prelude::*;
use vstd::string::*;

verus! {

/// Why an operation on accounts fails.
#[derive(Debug)]
pub enum AccountError {
    Io(String),
    Json(String),
    StoreUnreadable { path: String, detail: String },
    Network(String),
    NotFound(String),
    InvalidToken(String),
    MissingCredentials(String),
    RequiresReauthentication(String),
    RefreshFailed(String),
    ReauthenticationRequired { account_id: String, code: String, message: String },
    AccountIdentityMismatch(String),
    UsageCheckFailed { status: u16, message: String },
    CodexHomeNotFound,
    AuthJsonInvalid(String),
    Credential(CredentialError),
}

/// The model of a failure.
pub ghost enum AccountErrorView {
    Io(Seq<char>),
    Json(Seq<char>),
    StoreUnreadable { path: Seq<char>, detail: Seq<char> },
    Network(Seq<char>),
    NotFound(Seq<char>),
    InvalidToken(Seq<char>),
    MissingCredentials(Seq<char>),
    RequiresReauthentication(Seq<char>),
    RefreshFailed(Seq<char>),
    ReauthenticationRequired { account_id: Seq<char>, code: Seq<char>, message: Seq<char> },
    AccountIdentityMismatch(Seq<char>),
    UsageCheckFailed { status: u16, message: Seq<char> },
    CodexHomeNotFound,
    AuthJsonInvalid(Seq<char>),
    Credential(CredentialErrorView),
}

impl View for AccountError {
    type V = AccountErrorView;

    open spec fn view(&self) -> AccountErrorView {
        match *self {
            AccountError::Io(x) => AccountErrorView::Io(x@),
            AccountError::Json(x) => AccountErrorView::Json(x@),
            AccountError::StoreUnreadable { path, detail } => AccountErrorView::StoreUnreadable { path: path@, detail: detail@ },
            AccountError::Network(x) => AccountErrorView::Network(x@),
            AccountError::NotFound(x) => AccountErrorView::NotFound(x@),
            AccountError::InvalidToken(x) => AccountErrorView::InvalidToken(x@),
            AccountError::MissingCredentials(x) => AccountErrorView::MissingCredentials(x@),
            AccountError::RequiresReauthentication(x) => AccountErrorView::RequiresReauthentication(x@),
            AccountError::RefreshFailed(x) => AccountErrorView::RefreshFailed(x@),
            AccountError::ReauthenticationRequired { account_id, code, message } => AccountErrorView::ReauthenticationRequired { account_id: account_id@, code: code@, message: message@ },
            AccountError::AccountIdentityMismatch(x) => AccountErrorView::AccountIdentityMismatch(x@),
            AccountError::UsageCheckFailed { status, message } => AccountErrorView::UsageCheckFailed { status, message: message@ },
            AccountError::CodexHomeNotFound => AccountErrorView::CodexHomeNotFound,
            AccountError::AuthJsonInvalid(x) => AccountErrorView::AuthJsonInvalid(x@),
            AccountError::Credential(x) => AccountErrorView::Credential(x@),
        }
    }
}

/// The report of a failed credential store.
pub open spec fn credential_text(e: CredentialErrorView) -> Seq<char> {
    match e {
        CredentialErrorView::NotFound(s) => s,
        CredentialErrorView::Backend(s) => s,
    }
}

impl AccountErrorView {
    /// The full message; it may hold what a server answered and is for local use.
    pub open spec fn message(self) -> Seq<char> {
        match self {
            AccountErrorView::Io(x) => "I/O error: "@ + x,
            AccountErrorView::Json(x) => "JSON error: "@ + x,
            AccountErrorView::StoreUnreadable { path, detail } => "the accounts store at "@ + path + " is not valid JSON ("@ + detail + "); move it aside (for example `mv "@ + path + " "@ + path + ".bak`) to start from an empty list, then re-import your accounts"@,
            AccountErrorView::Network(x) => "Network error: "@ + x,
            AccountErrorView::NotFound(x) => "Account not found: `"@ + x + "`"@,
            AccountErrorView::InvalidToken(x) => "Invalid token format: "@ + x,
            AccountErrorView::MissingCredentials(x) => "Account `"@ + x + "` has no stored credentials; refusing to overwrite auth.json"@,
            AccountErrorView::RequiresReauthentication(x) => "Account `"@ + x + "` requires re-authentication before it can be activated"@,
            AccountErrorView::RefreshFailed(x) => "Token refresh failed: "@ + x,
            AccountErrorView::ReauthenticationRequired { account_id, code, message } => "Account `"@ + account_id + "` requires re-authentication ("@ + code + "): "@ + message,
            AccountErrorView::AccountIdentityMismatch(x) => "Account identity changed during token refresh: "@ + x,
            AccountErrorView::UsageCheckFailed { status, message } => "Rate limit check failed: HTTP "@ + decimal(status as nat) + " "@ + message,
            AccountErrorView::CodexHomeNotFound => "Failed to determine Codex home directory"@,
            AccountErrorView::AuthJsonInvalid(x) => "Failed to parse auth.json: "@ + x,
            AccountErrorView::Credential(x) => "Credential store error: "@ + credential_text(x),
        }
    }
}

impl AccountError {
    /// The full message; it may hold what a server answered and is for local use.
    pub fn message(&self) -> (r: String)
        ensures
            r@ == self@.message(),
    {
        match self {
            AccountError::Io(x) => cat("I/O error: ", x),
            AccountError::Json(x) => cat("JSON error: ", x),
            AccountError::StoreUnreadable { path, detail } => cat5(&cat5("the accounts store at ", path, " is not valid JSON (", detail, "); move it aside (for example `mv "), path, " ", path, ".bak`) to start from an empty list, then re-import your accounts"),
            AccountError::Network(x) => cat("Network error: ", x),
            AccountError::NotFound(x) => cat3("Account not found: `", x, "`"),
            AccountError::InvalidToken(x) => cat("Invalid token format: ", x),
            AccountError::MissingCredentials(x) => cat3("Account `", x, "` has no stored credentials; refusing to overwrite auth.json"),
            AccountError::RequiresReauthentication(x) => cat3("Account `", x, "` requires re-authentication before it can be activated"),
            AccountError::RefreshFailed(x) => cat("Token refresh failed: ", x),
            AccountError::ReauthenticationRequired { account_id, code, message } => cat(&cat5("Account `", account_id, "` requires re-authentication (", code, "): "), message),
            AccountError::AccountIdentityMismatch(x) => cat("Account identity changed during token refresh: ", x),
            AccountError::UsageCheckFailed { status, message } => cat(&cat3("Rate limit check failed: HTTP ", &decimal_of(*status as u64), " "), message),
            AccountError::CodexHomeNotFound => "Failed to determine Codex home directory".to_owned(),
            AccountError::AuthJsonInvalid(x) => cat("Failed to parse auth.json: ", x),
            AccountError::Credential(CredentialError::NotFound(s)) => cat(
                "Credential store error: ",
                s,
            ),
            AccountError::Credential(CredentialError::Backend(s)) => cat(
                "Credential store error: ",
                s,
            ),
        }
    }
}

impl AccountErrorView {
    /// Whether the user has to log in anew.
    pub open spec fn asks_for_login(self) -> bool {
        self is ReauthenticationRequired || self is AccountIdentityMismatch || self
            is RequiresReauthentication
    }

    /// The code under which the failure is published.
    pub open spec fn public_code(self) -> Seq<char> {
        match self {
            AccountErrorView::ReauthenticationRequired { .. } => "reauth_required"@,
            AccountErrorView::AccountIdentityMismatch(_) => "reauth_required"@,
            AccountErrorView::RequiresReauthentication(_) => "reauth_required"@,
            AccountErrorView::UsageCheckFailed { status, message } => if status == 401 {
                "usage_unauthorized"@
            } else if status == 429 {
                "usage_rate_limited"@
            } else {
                "usage_check_failed"@
            },
            AccountErrorView::Network(_) => "network_error"@,
            AccountErrorView::RefreshFailed(_) => "refresh_failed"@,
            _ => "account_operation_failed"@,
        }
    }

    /// The message under which the failure is published; it holds nothing that the
    /// token endpoint answered.
    pub open spec fn public_message(self) -> Seq<char> {
        match self {
            AccountErrorView::ReauthenticationRequired { .. } =>
                "官方账号凭证已失效或身份不一致，请重新登录后再次保存当前账号。"@,
            AccountErrorView::AccountIdentityMismatch(_) =>
                "官方账号凭证已失效或身份不一致，请重新登录后再次保存当前账号。"@,
            AccountErrorView::RequiresReauthentication(_) =>
                "官方账号凭证已失效或身份不一致，请重新登录后再次保存当前账号。"@,
            AccountErrorView::UsageCheckFailed { status, message } => if status == 401 {
                "额度服务拒绝了当前凭证，请重新登录后重试。"@
            } else if status == 429 {
                "额度服务暂时限流，请稍后重试。"@
            } else {
                self.message()
            },
            AccountErrorView::Network(_) =>
                "额度服务网络请求失败，请检查网络后重试。"@,
            AccountErrorView::RefreshFailed(_) =>
                "官方账号凭证刷新失败，请稍后重试。"@,
            _ => self.message(),
        }
    }
}

impl AccountError {
    /// The code under which the failure is published.
    pub fn public_code(&self) -> (r: &'static str)
        ensures
            r@ == self@.public_code(),
    {
        match self {
            AccountError::ReauthenticationRequired { .. } => "reauth_required",
            AccountError::AccountIdentityMismatch(_) => "reauth_required",
            AccountError::RequiresReauthentication(_) => "reauth_required",
            AccountError::UsageCheckFailed { status, message: _ } => if *status == 401 {
                "usage_unauthorized"
            } else if *status == 429 {
                "usage_rate_limited"
            } else {
                "usage_check_failed"
            },
            AccountError::Network(_) => "network_error",
            AccountError::RefreshFailed(_) => "refresh_failed",
            _ => "account_operation_failed",
        }
    }

    /// The message under which the failure is published.
    pub fn public_message(&self) -> (r: String)
        ensures
            r@ == self@.public_message(),
    {
        match self {
            AccountError::ReauthenticationRequired { .. } =>
                "官方账号凭证已失效或身份不一致，请重新登录后再次保存当前账号。".to_owned(),
            AccountError::AccountIdentityMismatch(_) =>
                "官方账号凭证已失效或身份不一致，请重新登录后再次保存当前账号。".to_owned(),
            AccountError::RequiresReauthentication(_) =>
                "官方账号凭证已失效或身份不一致，请重新登录后再次保存当前账号。".to_owned(),
            AccountError::UsageCheckFailed { status, message: _ } => if *status == 401 {
                "额度服务拒绝了当前凭证，请重新登录后重试。".to_owned()
            } else if *status == 429 {
                "额度服务暂时限流，请稍后重试。".to_owned()
            } else {
                self.message()
            },
            AccountError::Network(_) =>
                "额度服务网络请求失败，请检查网络后重试。".to_owned(),
            AccountError::RefreshFailed(_) =>
                "官方账号凭证刷新失败，请稍后重试。".to_owned(),
            _ => self.message(),
        }
    }
}

/// What is published of a failure depends neither on what the endpoint answered nor on the
/// account: whatever asks for a new login reads the same, and so do all failed refreshes,
/// all failed connections, and all refusals of the usage with one of the two statuses that
/// have a message of their own.
pub proof fn published_failures_hold_no_answer(e: AccountErrorView, other: AccountErrorView)
    requires
        (e.asks_for_login() && other.asks_for_login()) || (e is RefreshFailed && other
            is RefreshFailed) || (e is Network && other is Network) || (e is UsageCheckFailed && other
            is UsageCheckFailed && e->status == other->status && (e->status == 401 || e->status
            == 429)),
    ensures
        e.public_message() == other.public_message(),
        e.public_code() == other.public_code(),
{
}

/// The tokens of an account.
#[derive(Debug)]
pub struct AccountTokens {
    pub id_token: Option<String>,
    pub access_token: Option<String>,
    pub refresh_token: Option<String>,
    pub account_id: Option<String>,
}

/// The model of the tokens of an account.
pub ghost struct TokensView {
    pub id_token: Option<Seq<char>>,
    pub access_token: Option<Seq<char>>,
    pub refresh_token: Option<Seq<char>>,
    pub account_id: Option<Seq<char>>,
}

impl View for AccountTokens {
    type V = TokensView;

    open spec fn view(&self) -> TokensView {
        TokensView {
            id_token: opt_view(self.id_token),
            access_token: opt_view(self.access_token),
            refresh_token: opt_view(self.refresh_token),
            account_id: opt_view(self.account_id),
        }
    }
}

/// The state of the credential of an account.
#[derive(Debug, Clone, Copy, PartialEq, Eq, Structural)]
pub enum CredentialState {
    Ready,
    AccessOnly,
    NeedsReauth,
    Unknown,
}

impl Default for CredentialState {
    fn default() -> (r: CredentialState)
        ensures
            r == CredentialState::Unknown,
    {
        CredentialState::Unknown
    }
}

impl TokensView {
    /// Whether the tokens can be used: with an access or a refresh token.
    pub open spec fn usable(self) -> bool {
        self.access_token is Some || self.refresh_token is Some
    }

    /// Whether nothing secret is held.
    pub open spec fn empty(self) -> bool {
        self.id_token is None && self.access_token is None && self.refresh_token is None
    }

    /// The state that tokens put a credential in.
    pub open spec fn state(self) -> CredentialState {
        if self.refresh_token is Some {
            CredentialState::Ready
        } else if self.access_token is Some {
            CredentialState::AccessOnly
        } else {
            CredentialState::Unknown
        }
    }
}

impl Default for AccountTokens {
    fn default() -> (r: AccountTokens)
        ensures
            r@ == (TokensView {
                id_token: None,
                access_token: None,
                refresh_token: None,
                account_id: None,
            }),
    {
        AccountTokens { id_token: None, access_token: None, refresh_token: None, account_id: None }
    }
}

impl AccountTokens {
    /// Whether nothing secret is held.
    pub fn is_empty(&self) -> (r: bool)
        ensures
            r == self@.empty(),
    {
        self.id_token.is_none() && self.access_token.is_none() && self.refresh_token.is_none()
    }

    /// Whether the tokens can be used.
    pub fn has_usable_credentials(&self) -> (r: bool)
        ensures
            r == self@.usable(),
    {
        self.access_token.is_some() || self.refresh_token.is_some()
    }

    /// The state that the tokens put a credential in.
    pub fn credential_state(&self) -> (r: CredentialState)
        ensures
            r == self@.state(),
    {
        if self.refresh_token.is_some() {
            CredentialState::Ready
        } else if self.access_token.is_some() {
            CredentialState::AccessOnly
        } else {
            CredentialState::Unknown
        }
    }

    /// Whether the tokens are the same as others.
    pub fn same(&self, other: &AccountTokens) -> (r: bool)
        ensures
            r == (self@ == other@),
    {
        opt_eq(&self.id_token, &other.id_token) && opt_eq(&self.access_token, &other.access_token)
            && opt_eq(&self.refresh_token, &other.refresh_token) && opt_eq(
            &self.account_id,
            &other.account_id,
        )
    }

    /// Other tokens with the same value.
    pub fn copy(&self) -> (r: AccountTokens)
        ensures
            r@ == self@,
    {
        AccountTokens {
            id_token: self.id_token.clone(),
            access_token: self.access_token.clone(),
            refresh_token: self.refresh_token.clone(),
            account_id: self.account_id.clone(),
        }
    }
}

/// Who an id token is for.
#[derive(Debug)]
pub struct ProfileInfo {
    pub email: Option<String>,
    pub name: Option<String>,
    pub sub: Option<String>,
    pub plan_type: Option<String>,
    pub user_id: Option<String>,
    pub chatgpt_account_id: Option<String>,
}

/// The model of who an id token is for.
pub ghost struct ProfileView {
    pub email: Option<Seq<char>>,
    pub name: Option<Seq<char>>,
    pub sub: Option<Seq<char>>,
    pub plan_type: Option<Seq<char>>,
    pub user_id: Option<Seq<char>>,
    pub chatgpt_account_id: Option<Seq<char>>,
}

impl View for ProfileInfo {
    type V = ProfileView;

    open spec fn view(&self) -> ProfileView {
        ProfileView {
            email: opt_view(self.email),
            name: opt_view(self.name),
            sub: opt_view(self.sub),
            plan_type: opt_view(self.plan_type),
            user_id: opt_view(self.user_id),
            chatgpt_account_id: opt_view(self.chatgpt_account_id),
        }
    }
}

/// Nobody in particular.
pub open spec fn no_profile() -> ProfileView {
    ProfileView {
        email: None,
        name: None,
        sub: None,
        plan_type: None,
        user_id: None,
        chatgpt_account_id: None,
    }
}

impl Default for ProfileInfo {
    fn default() -> (r: ProfileInfo)
        ensures
            r@ == no_profile(),
    {
        ProfileInfo {
            email: None,
            name: None,
            sub: None,
            plan_type: None,
            user_id: None,
            chatgpt_account_id: None,
        }
    }
}

/// The text under a key of an optional value.
pub open spec fn text_in(value: Option<JsonView>, key: Seq<char>) -> Option<Seq<char>> {
    match value {
        Some(v) => v.text_field(key),
        None => None,
    }
}

/// Who the claims of an id token name.
pub open spec fn profile_of(claims: JsonView) -> ProfileView {
    let auth = claims.field("https://api.openai.com/auth"@);
    ProfileView {
        email: claims.text_field("email"@),
        name: claims.text_field("name"@),
        sub: claims.text_field("sub"@),
        plan_type: text_in(auth, "chatgpt_plan_type"@),
        user_id: match auth {
            Some(a) => if a.field("chatgpt_user_id"@) is Some {
                a.text_field("chatgpt_user_id"@)
            } else {
                a.text_field("user_id"@)
            },
            None => None,
        },
        chatgpt_account_id: text_in(auth, "chatgpt_account_id"@),
    }
}

/// A borrowed text as an own one.
pub fn owned(s: Option<&str>) -> (r: Option<String>)
    ensures
        opt_view(r) == (match s {
            Some(s) => Some(s@),
            None => None,
        }),
{
    match s {
        Some(s) => Some(s.to_owned()),
        None => None,
    }
}

/// Who the claims of an id token name.
pub fn read_claims(claims: &Json) -> (r: ProfileInfo)
    ensures
        r@ == profile_of(claims@),
{
    let (plan_type, user_id, chatgpt_account_id) = match claims.field(
        "https://api.openai.com/auth",
    ) {
        Some(auth) => {
            let user = if auth.field("chatgpt_user_id").is_some() {
                owned(auth.text_field("chatgpt_user_id"))
            } else {
                owned(auth.text_field("user_id"))
            };
            (
                owned(auth.text_field("chatgpt_plan_type")),
                user,
                owned(auth.text_field("chatgpt_account_id")),
            )
        },
        None => (None, None, None),
    };
    ProfileInfo {
        email: owned(claims.text_field("email")),
        name: owned(claims.text_field("name")),
        sub: owned(claims.text_field("sub")),
        plan_type,
        user_id,
        chatgpt_account_id,
    }
}

/// What decoding URL-safe Base64 without padding gives: the bytes, or the reason why
/// there are none.
pub uninterp spec fn base64url_decoded(text: Seq<u8>) -> Result<Seq<u8>, Seq<char>>;

/// `base64`'s `URL_SAFE_NO_PAD` engine decodes URL-safe Base64 without padding.
#[verifier::external_body]
fn decode_base64url(text: &[u8]) -> (r: Result<Vec<u8>, String>)
    ensures
        base64url_decoded(text@) == (match r {
            Ok(bytes) => Ok(bytes@),
            Err(e) => Err(e@),
        }),
{
    match base64::engine::general_purpose::URL_SAFE_NO_PAD.decode(text) {
        Ok(bytes) => Ok(bytes),
        Err(error) => Err(error.to_string()),
    }
}

/// A text of Base64 with the padding that its length asks for.
pub open spec fn base64_padded(text: Seq<char>) -> Seq<char> {
    let n = vstd::utf8::encode_utf8(text).len() % 4;
    if n == 2 {
        text + "=="@
    } else if n == 3 {
        text + "="@
    } else {
        text
    }
}

/// The bytes of the payload of an id token; where they cannot be decoded, decoding is
/// tried once more with padding.
pub open spec fn payload_bytes(payload: Seq<char>) -> Result<Seq<u8>, Seq<char>> {
    match base64url_decoded(vstd::utf8::encode_utf8(payload)) {
        Ok(bytes) => Ok(bytes),
        Err(_) => base64url_decoded(vstd::utf8::encode_utf8(base64_padded(payload))),
    }
}

/// Who an id token is for, or why that cannot be told.
pub open spec fn claims_of(id_token: Seq<char>) -> Result<ProfileView, AccountErrorView> {
    let parts = pieces(id_token, '.');
    if parts.len() < 2 {
        Err(AccountErrorView::InvalidToken("id_token parts < 2"@))
    } else {
        match payload_bytes(parts[1]) {
            Err(e) => Err(AccountErrorView::InvalidToken("base64 decode error: "@ + e)),
            Ok(bytes) => claims_read(json_parsed(bytes)),
        }
    }
}

/// Who an id token is for, given how its payload was read.
pub open spec fn claims_read(parsed: Result<JsonView, Seq<char>>) -> Result<
    ProfileView,
    AccountErrorView,
> {
    match parsed {
        Ok(claims) => Ok(profile_of(claims)),
        Err(e) => Err(AccountErrorView::Json(e)),
    }
}

/// The view of a profile or an error.
pub open spec fn profile_view(r: Result<ProfileInfo, AccountError>) -> Result<
    ProfileView,
    AccountErrorView,
> {
    match r {
        Ok(p) => Ok(p@),
        Err(e) => Err(e@),
    }
}

/// Who an id token is for, given how its payload was read.
pub fn read_payload(parsed: Result<Json, String>) -> (r: Result<ProfileInfo, AccountError>)
    ensures
        profile_view(r) == claims_read(read_view(parsed)),
{
    match parsed {
        Ok(claims) => Ok(read_claims(&claims)),
        Err(e) => Err(AccountError::Json(e)),
    }
}

/// Who an id token is for. Its signature is not looked at.
pub fn parse_id_token_claims(id_token: &str) -> (r: Result<ProfileInfo, AccountError>)
    ensures
        profile_view(r) == claims_of(id_token@),
{
    let parts = split(id_token, '.');
    assert(views(parts@).len() == parts@.len());
    if parts.len() < 2 {
        return Err(AccountError::InvalidToken("id_token parts < 2".to_owned()));
    }
    let payload = &parts[1];
    assert(views(parts@)[1] == payload@);
    let decoded = match decode_base64url(payload.as_str().as_bytes()) {
        Ok(bytes) => Ok(bytes),
        Err(_) => {
            let n: usize = payload.as_str().as_bytes().len() % 4;
            let padded = if n == 2 {
                cat(payload, "==")
            } else if n == 3 {
                cat(payload, "=")
            } else {
                payload.clone()
            };
            decode_base64url(padded.as_str().as_bytes())
        },
    };
    match decoded {
        Err(e) => Err(AccountError::InvalidToken(cat("base64 decode error: ", &e))),
        Ok(bytes) => read_payload(parse_json(&bytes)),
    }
}

/// Who tokens are for, given what their id token says, or why they are no account: they
/// cannot be used, or their identities differ, or they have none.
pub open spec fn import_profile(
    tokens: TokensView,
    claimed: Result<ProfileView, AccountErrorView>,
) -> Result<ProfileView, AccountErrorView> {
    if !tokens.usable() {
        Err(
            AccountErrorView::InvalidToken(
                "an account import must contain an access_token or refresh_token"@,
            ),
        )
    } else {
        match claimed {
            Err(e) => Err(e),
            Ok(profile) => if tokens.account_id is Some && profile.chatgpt_account_id is Some
                && tokens.account_id != profile.chatgpt_account_id {
                Err(
                    AccountErrorView::InvalidToken(
                        "the supplied account_id does not match the id_token identity"@,
                    ),
                )
            } else if tokens.account_id is None && profile.email is None
                && profile.chatgpt_account_id is None {
                Err(
                    AccountErrorView::InvalidToken(
                        "an account import must contain an account_id or a parseable id_token identity"@,
                    ),
                )
            } else {
                Ok(profile)
            },
        }
    }
}

/// What the id token of tokens says, nothing where there is none.
pub open spec fn token_claims(tokens: TokensView) -> Result<ProfileView, AccountErrorView> {
    match tokens.id_token {
        Some(t) => claims_of(t),
        None => Ok(no_profile()),
    }
}

/// Who tokens are for, given what their id token says.
pub fn check_import(tokens: &AccountTokens, claimed: Result<ProfileInfo, AccountError>) -> (r: Result<
    ProfileInfo,
    AccountError,
>)
    ensures
        profile_view(r) == import_profile(tokens@, profile_view(claimed)),
{
    if !tokens.has_usable_credentials() {
        return Err(
            AccountError::InvalidToken(
                "an account import must contain an access_token or refresh_token".to_owned(),
            ),
        );
    }
    let profile = match claimed {
        Ok(profile) => profile,
        Err(e) => return Err(e),
    };
    if let (Some(explicit), Some(claimed)) = (&tokens.account_id, &profile.chatgpt_account_id) {
        if !str_eq(explicit, claimed) {
            return Err(
                AccountError::InvalidToken(
                    "the supplied account_id does not match the id_token identity".to_owned(),
                ),
            );
        }
    }
    if tokens.account_id.is_none() && profile.email.is_none()
        && profile.chatgpt_account_id.is_none() {
        return Err(
            AccountError::InvalidToken(
                "an account import must contain an account_id or a parseable id_token identity".to_owned(),
            ),
        );
    }
    Ok(profile)
}

/// Who tokens are for, or why they are no account.
pub fn validate_import_tokens(tokens: &AccountTokens) -> (r: Result<ProfileInfo, AccountError>)
    ensures
        profile_view(r) == import_profile(tokens@, token_claims(tokens@)),
{
    let claimed = match &tokens.id_token {
        Some(id_token) => parse_id_token_claims(id_token),
        None => Ok(ProfileInfo::default()),
    };
    check_import(tokens, claimed)
}

/// What a profile says is what the claims say under the names of the issuer: who it is at
/// the top, the plan, the user and the account in the issuer's own section. A user id of the
/// plain name counts where the other is not there.
pub proof fn profiles_read_their_claims(claims: JsonView)
    ensures
        ({
            let p = profile_of(claims);
            let auth = claims.field("https://api.openai.com/auth"@);
            &&& p.email == claims.text_field("email"@)
            &&& p.name == claims.text_field("name"@)
            &&& p.sub == claims.text_field("sub"@)
            &&& auth is None ==> p.plan_type is None && p.user_id is None && p.chatgpt_account_id
                is None
            &&& auth is Some ==> {
                &&& p.plan_type == auth->0.text_field("chatgpt_plan_type"@)
                &&& p.chatgpt_account_id == auth->0.text_field("chatgpt_account_id"@)
                &&& auth->0.field("chatgpt_user_id"@) is None ==> p.user_id == auth->0.text_field(
                    "user_id"@,
                )
                &&& auth->0.field("chatgpt_user_id"@) is Some ==> p.user_id == auth->0.text_field(
                    "chatgpt_user_id"@,
                )
            }
        }),
{
}

/// The claims of an id token are in its second part: what stands before the first dot and
/// after the second does not matter.
pub proof fn claims_are_the_second_part(
    header: Seq<char>,
    payload: Seq<char>,
    signature: Seq<char>,
)
    requires
        !header.contains('.'),
        !payload.contains('.'),
    ensures
        ({
            let token = header + seq!['.'] + payload + seq!['.'] + signature;
            match payload_bytes(payload) {
                Ok(bytes) => match json_parsed(bytes) {
                    Ok(claims) => claims_of(token) == Ok::<ProfileView, AccountErrorView>(
                        profile_of(claims),
                    ),
                    Err(_) => claims_of(token) is Err,
                },
                Err(_) => claims_of(token) is Err && claims_of(token)->Err_0 is InvalidToken,
            }
        }),
        claims_of(header) is Err && claims_of(header)->Err_0 is InvalidToken,
{
    let token = header + seq!['.'] + payload + seq!['.'] + signature;
    crate::text::first_index_is(token, '.');
    let cut = crate::text::first_index(token, '.');
    assert(token[header.len() as int] == '.');
    assert forall|j: int| 0 <= j < header.len() implies token[j] != '.' by {
        assert(token[j] == header[j]);
        assert(header.contains(header[j]));
    }
    assert(cut == header.len());
    let rest = token.skip(cut + 1);
    assert(rest =~= payload + seq!['.'] + signature);
    crate::text::first_index_is(rest, '.');
    let second = crate::text::first_index(rest, '.');
    assert(rest[payload.len() as int] == '.');
    assert forall|j: int| 0 <= j < payload.len() implies rest[j] != '.' by {
        assert(rest[j] == payload[j]);
        assert(payload.contains(payload[j]));
    }
    assert(second == payload.len());
    assert(rest.take(second) =~= payload);
    let p = pieces(token, '.');
    assert(p == seq![token.take(cut)] + pieces(rest, '.'));
    assert(pieces(rest, '.')[0] == payload);
    assert(p[1] == payload);
    crate::text::first_index_is(header, '.');
    if crate::text::first_index(header, '.') < header.len() {
        assert(header.contains(header[crate::text::first_index(header, '.')]));
    }
}

/// A payload is read as it stands, and with padding only where that fails; padding fills it
/// up to a multiple of four.
pub proof fn payloads_are_padded_if_need_be(payload: Seq<char>)
    ensures
        base64url_decoded(vstd::utf8::encode_utf8(payload)) is Ok ==> payload_bytes(payload)
            == base64url_decoded(vstd::utf8::encode_utf8(payload)),
        payload.is_prefix_of(base64_padded(payload)),
        forall|i: int|
            payload.len() <= i < base64_padded(payload).len() ==> #[trigger] base64_padded(payload)[i]
                == '=',
        vstd::utf8::encode_utf8(payload).len() % 4 != 1 ==> (vstd::utf8::encode_utf8(payload).len()
            + base64_padded(payload).len() - payload.len()) % 4 == 0,
{
    reveal_strlit("==");
    reveal_strlit("=");
    assert("=="@.len() == 2 && "="@.len() == 1);
    assert(payload.is_prefix_of(base64_padded(payload)));
}

/// Tokens can be imported that can be used, whose id token can be read, that say whose they
/// are, and that do not say two different things; their profile is that of the id token.
pub proof fn imports_need_an_identity(
    tokens: TokensView,
    claimed: Result<ProfileView, AccountErrorView>,
)
    ensures
        ({
            let out = import_profile(tokens, claimed);
            let p = claimed->Ok_0;
            &&& out is Ok <==> {
                &&& tokens.access_token is Some || tokens.refresh_token is Some
                &&& claimed is Ok
                &&& !(tokens.account_id is Some && p.chatgpt_account_id is Some && tokens.account_id
                    != p.chatgpt_account_id)
                &&& tokens.account_id is Some || p.email is Some || p.chatgpt_account_id is Some
            }
            &&& out is Ok ==> out == claimed
            &&& out is Err && (tokens.access_token is None && tokens.refresh_token is None || claimed
                is Ok) ==> out->Err_0 is InvalidToken
        }),
{
}

/// What tokens can do: with a refresh token the credential is ready, with an access token
/// alone it lasts until that expires, and without either it cannot be used.
pub proof fn tokens_say_what_they_can_do(t: TokensView)
    ensures
        t.state() == CredentialState::Ready <==> t.refresh_token is Some,
        t.state() == CredentialState::AccessOnly <==> t.refresh_token is None && t.access_token
            is Some,
        t.state() == CredentialState::Unknown <==> !t.usable(),
        t.usable() <==> t.access_token is Some || t.refresh_token is Some,
        t.empty() <==> !t.usable() && t.id_token is None,
{
}

/// What is published of each kind of failure: its own code, and a message of its own for
/// whatever an endpoint has to do with.
pub proof fn failures_have_their_codes(e: AccountErrorView)
    ensures
        e.asks_for_login() ==> e.public_code() == "reauth_required"@,
        e is Network ==> e.public_code() == "network_error"@,
        e is RefreshFailed ==> e.public_code() == "refresh_failed"@,
        e is UsageCheckFailed && e->status == 401 ==> e.public_code() == "usage_unauthorized"@,
        e is UsageCheckFailed && e->status == 429 ==> e.public_code() == "usage_rate_limited"@,
        e is UsageCheckFailed && e->status != 401 && e->status != 429 ==> e.public_code()
            == "usage_check_failed"@,
        !e.asks_for_login() && !(e is Network) && !(e is RefreshFailed) && !(e is UsageCheckFailed)
            ==> e.public_code() == "account_operation_failed"@ && e.public_message() == e.message(),
{
}

} // verus!
