use codex_mp::account::{
    parse_id_token_claims, validate_import_tokens, AccountError, AccountTokens, CredentialState,
};
use codex_mp::accounts::{
    capture_current_auth, check_active_status, delete_account, import_account_as,
    import_or_update_account, must_store, prune_auth_backups, rename_account, switch_to_account,
    undeleted_credentials, write_tokens, LoadRun, LoadStep, TokensRead,
};
use codex_mp::json::Json;
use codex_mp::json_text::parse_json;
use codex_mp::processes::{
    command_arguments, end_killed, end_polled, end_requested, find_codex_running_pids,
    find_codex_tasks, is_codex_app_server_process, is_codex_image, name_of_program,
    process_command_line_contains, process_of_directory, read_process_line, read_task_line,
    restart_report, Candidate, EndStep, Task,
};
use codex_mp::providers::CredentialError;
use codex_mp::records::{
    account_credential_reference, list_accounts, summarise_account, AccountIssue,
    AccountUsageSnapshot, AccountsFile, ManagedAccount, ReserveLimitSummary, UsageStatus,
    UsageWindow,
};
use codex_mp::refresh::{
    finish_refresh, is_reauthentication_code, oauth_error_details, refresh_lookup,
    refresh_refused, refresh_request, RefreshAnswer, RefreshStep,
};
use codex_mp::saving::{account_document, accounts_document, SaveRun, SaveStep};
use codex_mp::usage::{
    after_refusal, bounded_error_text, check_answer_length, issue_of, live_tokens,
    load_account_for_usage, owns_live_session, parse_wham_usage_response, read_account_json,
    record_usage_failure, save_usage_snapshot, usage_failure, usage_request, RefusedStep,
    UsagePhase, UsageRun, UsageStep, MAX_ACCOUNT_RESPONSE_BYTES,
};

const ID_1: &str = "dummy.eyJlbWFpbCI6InRlc3RAZXhhbXBsZS5jb20iLCJuYW1lIjoidGVzdHVzZXIiLCJzdWIiOiIxMjMiLCJodHRwczovL2FwaS5vcGVuYWkuY29tL2F1dGgiOnsiY2hhdGdwdF9wbGFuX3R5cGUiOiJwbHVzIiwiY2hhdGdwdF9hY2NvdW50X2lkIjoiYWNjLTEifX0.dummy";
const ID_2: &str = "dummy.eyJlbWFpbCI6InVzZXIyQGV4YW1wbGUuY29tIiwibmFtZSI6InVzZXIyIiwic3ViIjoiNDU2IiwiaHR0cHM6Ly9hcGkub3BlbmFpLmNvbS9hdXRoIjp7ImNoYXRncHRfcGxhbl90eXBlIjoiZnJlZSIsImNoYXRncHRfYWNjb3VudF9pZCI6ImFjYy0yIn19.dummy";

fn json(text: &str) -> Json {
    parse_json(text.as_bytes()).expect("valid JSON")
}

fn some(text: &str) -> Option<String> {
    if text.is_empty() { None } else { Some(text.to_owned()) }
}

fn tokens(id: &str, access: &str, refresh: &str, account: &str) -> AccountTokens {
    AccountTokens {
        id_token: some(id),
        access_token: some(access),
        refresh_token: some(refresh),
        account_id: some(account),
    }
}

fn read_tokens(doc: &Json) -> Option<Result<AccountTokens, String>> {
    let t = doc.field("tokens")?;
    let text = |key: &str| t.text_field(key).map(str::to_owned);
    Some(Ok(AccountTokens {
        id_token: text("id_token"),
        access_token: text("access_token"),
        refresh_token: text("refresh_token"),
        account_id: text("account_id"),
    }))
}

fn done<T>(result: Result<T, AccountError>) -> T {
    match result {
        Ok(value) => value,
        Err(error) => panic!("{}", error.message()),
    }
}

fn refused<T>(result: Result<T, AccountError>) -> AccountError {
    match result {
        Ok(_) => panic!("the operation was accepted"),
        Err(error) => error,
    }
}

fn import(file: &mut AccountsFile, t: AccountTokens, name: &str) -> ManagedAccount {
    done(import_or_update_account(file, t, None, some(name), 100))
}

#[test]
fn a_corrupt_accounts_store_names_the_file_and_the_remedy() {
    let detail = parse_json(b"{\"accounts\": [broken").unwrap_err();
    let error = AccountError::StoreUnreadable { path: "/x/accounts.json".into(), detail }.message();
    assert!(error.contains("/x/accounts.json"));
    assert!(error.contains("mv ") && error.contains(".bak"));
    assert!(error.contains("expected value"));
}

#[test]
fn the_account_response_bound_rejects_an_oversized_body() {
    assert!(check_answer_length("the token endpoint", Some(MAX_ACCOUNT_RESPONSE_BYTES as u64)).is_ok());
    let error = refused(check_answer_length("the token endpoint", Some(MAX_ACCOUNT_RESPONSE_BYTES as u64 + 1)));
    assert_eq!(
        error.message(),
        "Token refresh failed: the token endpoint returned 4194305 bytes, exceeding the 4194304 byte limit"
    );
    let long = "x".repeat(MAX_ACCOUNT_RESPONSE_BYTES + 1);
    assert!(matches!(refused(read_account_json("it", &long)), AccountError::RefreshFailed(_)));
    assert!(matches!(refused(read_account_json("it", "{")), AccountError::Json(_)));
    assert_eq!(done(read_account_json("it", "7")).as_unsigned(), Some(7));
}

#[test]
fn an_oversized_error_body_is_truncated() {
    assert_eq!(bounded_error_text("short".into()), "short");
    let cut = bounded_error_text("y".repeat(9000));
    assert_eq!(cut.chars().count(), 8192 + "… (truncated)".chars().count());
    assert!(cut.ends_with("… (truncated)"));
    let wide = bounded_error_text("é".repeat(5000));
    assert_eq!(wide, format!("{}… (truncated)", "é".repeat(5000)));
}

#[test]
fn switch_refuses_to_write_empty_tokens_when_the_keyring_is_unavailable() {
    let mut file = AccountsFile::empty();
    let id = "dummy.eyJlbWFpbCI6ImtleXJpbmctdGVzdEBleGFtcGxlLmNvbSIsInN1YiI6IjcifQ.dummy";
    let account = import(&mut file, tokens(id, "at-live", "rt-live", "acc-live"), "Live");
    file.accounts[0].tokens = AccountTokens::default();
    let mut run = LoadRun::begin(file);
    match run.next() {
        LoadStep::Read { reference } => assert_eq!(reference, account_credential_reference(&account.id)),
        _ => panic!("stored tokens are read"),
    }
    let failed = run.on_read(TokensRead::Failed(CredentialError::Backend("keyring unavailable".into())));
    assert!(matches!(refused(failed), AccountError::Credential(_)));
    let error = refused(switch_to_account(&run.file.accounts, &account.id, Ok(None), 5));
    assert!(matches!(error, AccountError::MissingCredentials(_)));
}

#[test]
fn deleting_an_account_reports_a_failed_credential_cleanup() {
    let mut file = AccountsFile::empty();
    let account = import(&mut file, tokens("", "at", "rt", "acc"), "ToDelete");
    import(&mut file, tokens("", "at2", "", "acc-2"), "Stays");
    assert!(delete_account(&mut file, &account.id));
    assert!(!delete_account(&mut file, &account.id));
    assert_eq!(file.accounts.len(), 1);
    assert_eq!(file.accounts[0].name, "Stays");
    let error = undeleted_credentials(&account.id, "cannot delete");
    assert!(error.message().contains("a live token may remain: cannot delete"));
}

#[test]
fn only_real_codex_app_servers_are_selected_for_restart() {
    let own: u32 = 77;
    let args = |list: &[&str]| list.iter().map(|s| s.to_string()).collect::<Vec<_>>();
    let matches = |list: &[&str], pid: u32| is_codex_app_server_process(&args(list), pid, own, Some(78));
    assert!(matches(&["/home/u/.codex/packages/standalone/releases/v/bin/codex-real", "app-server"], 4242));
    assert!(matches(&["/usr/bin/codex", "app-server"], 4243));
    assert!(!matches(&["/home/u/.local/bin/codex-mp", "launch", "--app-server-binary", "/x"], 4244));
    assert!(!matches(&["codex-mp", "desktop", "install", "--app-server-binary", "/x"], 4245));
    assert!(!matches(&["codex", "app-server"], own));
    assert!(!matches(&["/usr/bin/codex", "--config", "/srv/app-server/config.toml"], 4246));
    assert!(!matches(&["/usr/bin/codex", "exec"], 4247));
    assert!(!matches(&["codex", "app-server"], 78));
    assert!(!matches(&["/usr/bin/codex", "exec", "/srv/app-server"], 4248));
    assert!(!matches(&[], 4249));
}

#[test]
fn running_processes_are_listed_once_and_in_order() {
    let candidate = |pid: u32, args: &[&str]| Candidate {
        pid,
        args: args.iter().map(|s| s.to_string()).collect(),
    };
    let list = vec![
        candidate(9, &["codex", "app-server"]),
        candidate(3, &["Codex", "app-server"]),
        candidate(9, &["codex", "app-server"]),
        candidate(4, &["vim"]),
    ];
    assert_eq!(find_codex_running_pids(&list, 1, None), vec![3, 9]);
    assert_eq!(find_codex_running_pids(&list, 9, Some(3)), Vec::<u32>::new());
    assert_eq!(command_arguments(&b"codex\0\0app-server\0".to_vec()), vec!["codex", "app-server"]);
    assert_eq!(command_arguments(&b"a\xff\0b".to_vec()), vec!["a\u{fffd}", "b"]);
    assert_eq!(process_of_directory("123"), Some(123));
    assert_eq!(process_of_directory("self"), None);
    assert_eq!(process_of_directory("4294967296"), None);
    let line = read_process_line("   42 /usr/bin/codex   app-server  ").unwrap();
    assert_eq!((line.pid, line.args), (42, vec!["/usr/bin/codex".to_owned(), "app-server".to_owned()]));
    assert!(read_process_line("42").is_none());
    assert!(read_process_line("x y").is_none());
    assert_eq!(name_of_program("/usr/bin/Codex/"), "codex");
    assert_eq!(name_of_program("./codex/."), "codex");
    assert_eq!(name_of_program("a/.."), "a/..");
}

#[test]
fn windows_tasks_are_read_by_their_images() {
    assert!(is_codex_image(" Codex.EXE "));
    assert!(!is_codex_image("codex-mp.exe"));
    let line = "\"codex.exe\",\"4242\",\"Console\",\"1\",\"10 K\"\r";
    assert_eq!(read_task_line(line, 1, None), Some(4242));
    assert_eq!(read_task_line(line, 4242, None), None);
    assert_eq!(read_task_line(line, 1, Some(4242)), None);
    assert_eq!(read_task_line("\"vim.exe\",\"7\"", 1, None), None);
    assert_eq!(read_task_line("\"codex.exe\"", 1, None), None);
    assert!(process_command_line_contains(&None, "app-server"));
    assert!(process_command_line_contains(&Some(" ".into()), "app-server"));
    assert!(!process_command_line_contains(&Some("codex exec".into()), "app-server"));
    let task = |pid: u32, line: &str| Task { pid, command_line: some(line) };
    let tasks = vec![
        task(9, "codex.exe app-server"), task(3, ""), task(5, "codex.exe exec"),
        task(9, "codex.exe app-server"), task(7, "codex.exe app-server --x"),
    ];
    assert_eq!(find_codex_tasks(&tasks), vec![3, 7, 9]);
}

#[test]
fn processes_are_killed_only_after_a_grace_period() {
    assert_eq!(end_requested(false, true), EndStep::Report(true));
    assert_eq!(end_requested(false, false), EndStep::Report(false));
    let mut step = end_requested(true, false);
    let mut polls = 0;
    while let EndStep::Poll(n) = step {
        polls += 1;
        step = end_polled(n, true);
    }
    assert_eq!((polls, step), (20, EndStep::Kill));
    assert_eq!(end_polled(3, false), EndStep::Report(true));
    assert_eq!(end_killed(true), EndStep::Report(false));
    let report = restart_report(&vec![1, 2, 3], &vec![true, false, true]);
    assert_eq!(report.terminated_pids, vec![1, 3]);
    assert!(report.message.starts_with("Codex background app-server terminated."));
}

#[test]
fn test_parse_wham_usage() {
    let sample = json(
        r#"{"plan_type": "plus",
            "rate_limit": {"allowed": true, "limit_reached": false,
                "primary_window": {"used_percent": 15, "limit_window_seconds": 18000, "reset_after_seconds": 12000, "reset_at": 1789413197},
                "secondary_window": {"used_percent": 50, "limit_window_seconds": 604800, "reset_after_seconds": 300000, "reset_at": 1789805331}},
            "additional_rate_limits": [{"limit_name": "gpt-reserve", "rate_limit": {"allowed": false, "limit_reached": true,
                "primary_window": {"used_percent": 100, "limit_window_seconds": 604800, "reset_after_seconds": 240000, "reset_at": 1789646165}}}]}"#,
    );
    let parsed = parse_wham_usage_response(&sample, 9);
    assert_eq!(parsed.plan_type.as_deref(), Some("plus"));
    assert!(parsed.primary_5h.is_some());
    assert_eq!(parsed.primary_5h.as_ref().unwrap().used_percent, 15);
    assert!(parsed.secondary_weekly.is_some());
    assert_eq!(parsed.secondary_weekly.as_ref().unwrap().used_percent, 50);
    assert!(parsed.reserve.is_some());
    assert!(parsed.reserve.as_ref().unwrap().limit_reached);
    assert_eq!(parsed.reserve.as_ref().unwrap().used_percent, Some(100));
    assert_eq!(parsed.updated_at, 9);

    let malformed = parse_wham_usage_response(&json(r#"{"rate_limit": {"primary_window": {"used_percent": 110}}}"#), 9);
    assert!(malformed.primary_5h.is_none());
    assert!(malformed.secondary_weekly.is_none());
}

#[test]
fn long_windows_count_as_weekly() {
    let long = json(r#"{"rate_limit": {"primary_window": {"used_percent": 250, "limit_window_seconds": 18001}, "secondary_window": null}}"#);
    let parsed = parse_wham_usage_response(&long, 1);
    assert!(parsed.primary_5h.is_none());
    assert_eq!(parsed.secondary_weekly.unwrap().used_percent, 100);
    let other = json(
        r#"{"rate_limit": {"primary_window": {"used_percent": 1, "limit_window_seconds": 99999}, "secondary_window": {}},
            "additional_rate_limits": [{"limit_name": "x"}, {"limit_name": "a reserve"}]}"#,
    );
    let parsed = parse_wham_usage_response(&other, 1);
    assert!(parsed.secondary_weekly.is_none());
    let reserve = parsed.reserve.unwrap();
    assert!(reserve.allowed && !reserve.limit_reached && reserve.used_percent.is_none());
}

#[test]
fn active_status_requires_official_auth_mode_and_usable_identity() {
    let accounts: Vec<ManagedAccount> = Vec::new();
    let doc = json(r#"{"auth_mode": "api_key", "tokens": {"access_token": "not-an-official-session"}}"#);
    let t = read_tokens(&doc);
    let status = done(check_active_status(&Some(doc), t, Ok(&accounts)));
    assert!(!status.is_logged_in);
    assert_eq!(status.auth_mode.as_deref(), Some("api_key"));
    let doc = json(r#"{"auth_mode": "chatgpt", "tokens": {"access_token": "not-enough-identity"}}"#);
    let t = read_tokens(&doc);
    assert!(!done(check_active_status(&Some(doc), t, Ok(&accounts))).is_logged_in);
    assert!(!done(check_active_status(&None, None, Ok(&accounts))).is_logged_in);
    let doc = || Some(json(r#"{"auth_mode": "chatgpt"}"#));
    let error = refused(check_active_status(&doc(), None, Ok(&accounts)));
    assert_eq!(error.message(), "Failed to parse auth.json: tokens field missing");
    let error = refused(check_active_status(&doc(), Some(Err("bad".into())), Ok(&accounts)));
    assert_eq!(error.message(), "Failed to parse auth.json: invalid tokens: bad");
    let doc = Some(json(r#"{"auth_mode": "chatgpt", "tokens": {"access_token": "a", "account_id": "i"}}"#));
    let t = Some(Ok(tokens("", "a", "", "i")));
    let error = refused(check_active_status(&doc, t, Err(AccountError::CodexHomeNotFound)));
    assert_eq!(error.message(), "Failed to determine Codex home directory");
}

#[test]
fn account_import_rejects_incomplete_identity_and_marks_access_only() {
    let mut file = AccountsFile::empty();
    let incomplete = import_or_update_account(
        &mut file, tokens("", "access-only", "", ""), None, Some("Incomplete".into()), 1,
    );
    assert!(matches!(incomplete, Err(AccountError::InvalidToken(_))));
    let account = import(&mut file, tokens("", "access-only", "", "account-1"), "Access only");
    assert_eq!(account.credential_state, CredentialState::AccessOnly);
    assert!(matches!(
        validate_import_tokens(&tokens(ID_1, "", "", "acc-1")),
        Err(AccountError::InvalidToken(_))
    ));
    let error = refused(validate_import_tokens(&tokens(ID_1, "a", "", "other")));
    assert!(error.message().contains("does not match the id_token identity"));
    assert!(validate_import_tokens(&tokens(ID_1, "a", "", "acc-1")).is_ok());
}

#[test]
fn id_tokens_are_read_without_their_signature() {
    let profile = done(parse_id_token_claims(ID_1));
    assert_eq!(profile.email.as_deref(), Some("test@example.com"));
    assert_eq!(profile.name.as_deref(), Some("testuser"));
    assert_eq!(profile.sub.as_deref(), Some("123"));
    assert_eq!(profile.plan_type.as_deref(), Some("plus"));
    assert_eq!(profile.chatgpt_account_id.as_deref(), Some("acc-1"));
    assert!(profile.user_id.is_none());
    assert_eq!(refused(parse_id_token_claims("x")).message(), "Invalid token format: id_token parts < 2");
    assert!(refused(parse_id_token_claims("a.!!.c")).message().contains("base64 decode error: "));
    assert!(matches!(refused(parse_id_token_claims("a.e30x.c")), AccountError::Json(_)));
}

#[test]
fn imports_find_their_account_or_refuse_two() {
    let mut file = AccountsFile::empty();
    let first = import(&mut file, tokens(ID_1, "at-1", "rt-1", "acc-1"), "");
    assert_eq!(first.name, "test@example.com");
    let unnamed = import(&mut file, tokens("", "a", "", "acc-9"), "");
    assert_eq!(unnamed.name, "ChatGPT Account");
    file.accounts[0].usage_issue = Some(AccountIssue { code: "x".into(), message: "y".into(), occurred_at: 1 });
    let again = done(import_account_as(
        &mut file,
        validate_import_tokens(&tokens(ID_1, "at-1b", "", "acc-1")),
        tokens(ID_1, "at-1b", "", "acc-1"),
        Some("2026-01-01T00:00:00Z".into()),
        Some("Renamed".into()),
        200,
        "unused".into(),
    ));
    assert_eq!(again.id, first.id);
    assert_eq!((again.created_at, again.updated_at), (100, 200));
    assert_eq!(again.name, "Renamed");
    assert_eq!(again.credential_state, CredentialState::AccessOnly);
    assert!(again.usage_issue.is_none());
    assert_eq!(file.accounts.len(), 2);
    file.accounts[0].account_id = Some("acc-0".into());
    file.accounts[1].account_id = Some("acc-1".into());
    let error = refused(import_or_update_account(&mut file, tokens(ID_1, "a", "", "acc-1"), None, None, 3));
    assert!(error.message().contains("two different managed accounts"));
}

#[test]
fn usage_loader_prefers_live_auth_for_the_active_account() {
    let mut file = AccountsFile::empty();
    let account = import(&mut file, tokens("", "managed-access", "managed-refresh", "account-1"), "Primary");
    let doc = json(
        r#"{"auth_mode": "chatgpt", "tokens": {"access_token": "live-access", "refresh_token": "live-refresh", "account_id": "account-1"}}"#,
    );
    let active = done(check_active_status(&Some(doc.copy()), read_tokens(&doc), Ok(&file.accounts)));
    assert!(owns_live_session(&active, &account.id));
    let live = done(live_tokens(true, read_tokens(&doc)));
    let (loaded, is_active) = done(load_account_for_usage(&file.accounts, &account.id, Ok(Some(live))));
    assert!(is_active);
    assert_eq!(loaded.tokens.access_token.as_deref(), Some("live-access"));
    assert_eq!(loaded.tokens.refresh_token.as_deref(), Some("live-refresh"));
    let (loaded, is_active) = done(load_account_for_usage(&file.accounts, &account.id, Ok(None)));
    assert!(!is_active && loaded.tokens.access_token.as_deref() == Some("managed-access"));
    assert!(matches!(
        refused(load_account_for_usage(&file.accounts, "nobody", Ok(None))),
        AccountError::NotFound(_)
    ));
    assert!(refused(live_tokens(false, None)).message().contains("auth.json disappeared"));
}

#[test]
fn invalidated_refresh_is_publicly_classified_as_reauth() {
    let error = AccountError::ReauthenticationRequired {
        account_id: "account-1".into(),
        code: "refresh_token_invalidated".into(),
        message: "Your session has ended".into(),
    };
    assert_eq!(error.public_code(), "reauth_required");
    assert!(error.public_message().contains("重新登录"));
    assert!(!error.public_message().contains("Your session has ended"));
}

#[test]
fn account_errors_have_their_codes_and_messages() {
    let usage = |status: u16| AccountError::UsageCheckFailed { status, message: "m".into() };
    let cases: Vec<(AccountError, &str, &str)> = vec![
        (AccountError::Io("x".into()), "account_operation_failed", "I/O error: x"),
        (AccountError::Network("x".into()), "network_error", "Network error: x"),
        (AccountError::NotFound("x".into()), "account_operation_failed", "Account not found: `x`"),
        (AccountError::RefreshFailed("x".into()), "refresh_failed", "Token refresh failed: x"),
        (usage(401), "usage_unauthorized", "Rate limit check failed: HTTP 401 m"),
        (usage(429), "usage_rate_limited", "Rate limit check failed: HTTP 429 m"),
        (usage(500), "usage_check_failed", "Rate limit check failed: HTTP 500 m"),
        (
            AccountError::RequiresReauthentication("x".into()),
            "reauth_required",
            "Account `x` requires re-authentication before it can be activated",
        ),
        (
            AccountError::AccountIdentityMismatch("x".into()),
            "reauth_required",
            "Account identity changed during token refresh: x",
        ),
        (
            AccountError::Credential(CredentialError::NotFound("x".into())),
            "account_operation_failed",
            "Credential store error: x",
        ),
    ];
    for (error, code, message) in cases {
        assert_eq!(error.public_code(), code);
        assert_eq!(error.message(), message);
    }
    assert_eq!(usage(500).public_message(), "Rate limit check failed: HTTP 500 m");
    assert!(!AccountError::RefreshFailed("secret".into()).public_message().contains("secret"));
}

#[test]
fn test_account_crud_and_switch() {
    let mut file = AccountsFile::empty();
    let doc = json(&format!(
        r#"{{"auth_mode": "chatgpt", "OPENAI_API_KEY": "kept", "tokens": {{"id_token": "{ID_1}", "access_token": "at-1", "refresh_token": "rt-1", "account_id": "acc-1"}}}}"#
    ));
    let status = done(check_active_status(&Some(doc.copy()), read_tokens(&doc), Ok(&file.accounts)));
    assert!(status.is_logged_in);
    assert_eq!(status.email.as_deref(), Some("test@example.com"));

    let captured = done(capture_current_auth(
        &mut file, &Some(doc.copy()), read_tokens(&doc), Some("My Primary Account".into()), 5,
    ));
    assert_eq!(captured.name, "My Primary Account");
    assert_eq!(captured.email.as_deref(), Some("test@example.com"));

    let status = done(check_active_status(&Some(doc.copy()), read_tokens(&doc), Ok(&file.accounts)));
    let list = list_accounts(&file.accounts, &status);
    assert_eq!(list.len(), 1);
    assert!(list[0].is_active);

    let acc2 = import(&mut file, tokens(ID_2, "at-2", "rt-2", "acc-2"), "Second Account");
    let (switched, written) = done(switch_to_account(&file.accounts, &acc2.id, Ok(Some(doc)), 1789646165));
    assert_eq!(switched.id, acc2.id);
    assert_eq!(written.text_field("OPENAI_API_KEY"), Some("kept"));
    assert_eq!(written.text_field("last_refresh"), Some("2026-09-17T11:56:05Z"));

    let new_status = done(check_active_status(&Some(written.copy()), read_tokens(&written), Ok(&file.accounts)));
    assert_eq!(new_status.email.as_deref(), Some("user2@example.com"));
    let list_after = list_accounts(&file.accounts, &new_status);
    assert_eq!(list_after.len(), 2);
    let item1 = list_after.iter().find(|a| a.id == captured.id).unwrap();
    let item2 = list_after.iter().find(|a| a.id == acc2.id).unwrap();
    assert!(!item1.is_active);
    assert!(item2.is_active);
    assert!(!summarise_account(&file.accounts[0], &None).is_active);

    assert!(rename_account(&mut file, &acc2.id, "  New  ", 9).is_ok());
    assert_eq!(file.accounts[1].name, "New");
    assert!(matches!(refused(rename_account(&mut file, "x", "y", 9)), AccountError::NotFound(_)));
    file.accounts[1].credential_state = CredentialState::NeedsReauth;
    assert!(matches!(
        refused(switch_to_account(&file.accounts, &acc2.id, Ok(None), 1)),
        AccountError::RequiresReauthentication(_)
    ));
    assert!(matches!(refused(switch_to_account(&file.accounts, "x", Ok(None), 1)), AccountError::NotFound(_)));
    assert!(write_tokens(&tokens("", "a", "", "")).field("refresh_token").is_none());
    let error = refused(capture_current_auth(&mut file, &None, None, None, 1));
    assert_eq!(error.message(), "Failed to parse auth.json: auth.json not found");
    let other = Some(json(r#"{"auth_mode": "apikey"}"#));
    assert!(refused(capture_current_auth(&mut file, &other, None, None, 1)).message().contains("official"));
}

fn saved(file: &AccountsFile, store: &mut Vec<(String, String)>) -> (usize, Json) {
    let mut puts = 0;
    let mut run = SaveRun::begin();
    loop {
        match run.next(file) {
            SaveStep::Read { reference, tokens } => {
                let written = format!("{:?}", tokens.access_token);
                let stored = store.iter().find(|e| e.0 == reference).map(|e| e.1.clone());
                if let Some((reference, secret)) = run.on_read(file, stored, written) {
                    store.retain(|e| e.0 != reference);
                    store.push((reference, secret));
                    puts += 1;
                }
            }
            SaveStep::Write(document) => return (puts, document),
        }
    }
}

#[test]
fn second_saves_store_no_credential() {
    let mut file = AccountsFile::empty();
    let one = import(&mut file, tokens("", "at-1", "rt-1", "acc-1"), "One");
    let two = import(&mut file, tokens("", "at-2", "rt-2", "acc-2"), "Two");
    let mut store = Vec::new();
    assert_eq!(saved(&file, &mut store).0, 2);
    assert_eq!(store[0], (account_credential_reference(&one.id), "Some(\"at-1\")".to_owned()));
    assert_eq!(store[1].0, account_credential_reference(&two.id));
    assert_eq!(saved(&file, &mut store).0, 0);
    file.accounts[1].tokens.access_token = Some("at-3".into());
    assert_eq!(saved(&file, &mut store).0, 1);
    assert_eq!(store[1].1, "Some(\"at-3\")");
    file.accounts[0].tokens = AccountTokens::default();
    assert_eq!(saved(&file, &mut store).0, 0);
    assert_eq!(store.len(), 2);
}

#[test]
fn accounts_files_are_written_without_tokens() {
    let mut file = AccountsFile::empty();
    import(&mut file, tokens("", "at-1", "rt-1", "acc-1"), "One");
    let window = UsageWindow {
        used_percent: 12,
        limit_window_seconds: 18_000,
        reset_after_seconds: 60,
        reset_at: 1_700_000_000,
    };
    let account = &mut file.accounts[0];
    account.credential_state = CredentialState::NeedsReauth;
    account.usage_issue = Some(AccountIssue { code: "c".into(), message: "m".into(), occurred_at: 5 });
    account.usage = Some(AccountUsageSnapshot {
        updated_at: 7,
        plan_type: Some("plus".into()),
        primary_5h: Some(window),
        secondary_weekly: None,
        reserve: Some(ReserveLimitSummary {
            limit_name: "r".into(),
            allowed: true,
            limit_reached: false,
            used_percent: Some(3),
            reset_after_seconds: None,
            reset_at: Some(9),
        }),
    });
    let (_, document) = saved(&file, &mut Vec::new());
    assert_eq!(document.field("schema_version").unwrap().as_unsigned(), Some(1));
    let written = &document.field("accounts").unwrap().items().unwrap()[0];
    assert!(written.field("tokens").is_none());
    let text = format!("{:?}", document);
    assert!(!text.contains("at-1") && !text.contains("rt-1"));
    assert_eq!(written.text_field("name"), Some("One"));
    assert_eq!(written.text_field("account_id"), Some("acc-1"));
    assert_eq!(written.text_field("credential_state"), Some("needs_reauth"));
    assert!(matches!(written.field("credential_issue"), Some(Json::Null)));
    assert_eq!(written.field("usage_issue").unwrap().text_field("code"), Some("c"));
    let usage = written.field("usage").unwrap();
    assert_eq!(usage.field("updated_at").unwrap().as_unsigned(), Some(7));
    assert!(matches!(usage.field("secondary_weekly"), Some(Json::Null)));
    let primary = usage.field("primary_5h").unwrap();
    assert_eq!(primary.field("used_percent").unwrap().as_unsigned(), Some(12));
    assert_eq!(primary.field("reset_at").unwrap().as_unsigned(), Some(1_700_000_000));
    let reserve = usage.field("reserve").unwrap();
    assert_eq!(reserve.field("used_percent").unwrap().as_unsigned(), Some(3));
    assert!(matches!(reserve.field("reset_after_seconds"), Some(Json::Null)));
    let mut bare = file.accounts[0].copy();
    bare.tokens = AccountTokens::default();
    let same = format!("{:?}", account_document(&bare));
    assert_eq!(same, format!("{:?}", account_document(&file.accounts[0])));
    assert_eq!(text, format!("{:?}", accounts_document(&file)));
}

#[test]
fn account_purge_provider_data_tolerates_an_unreadable_registry() {
    let mut file = AccountsFile::empty();
    let account = import(&mut file, tokens("", "at-1", "rt-1", "acc-1"), "One");
    let written = "{\"access_token\":\"at-1\"}";
    assert!(must_store(&account.tokens, &None, written), "importing an account must store its credentials");
    let stored = Some(written.to_owned());
    file.accounts[0].tokens = AccountTokens::default();
    let mut run = LoadRun::begin(file);
    assert!(matches!(run.next(), LoadStep::Read { .. }));
    assert!(run.on_read(TokensRead::Stored(Ok(tokens("", "at-1", "rt-1", "acc-1")))).is_ok());
    assert!(matches!(run.next(), LoadStep::Done { save: false }));
    assert!(
        !must_store(&run.file.accounts[0].tokens, &stored, written),
        "saving an unchanged document must not rewrite any credential"
    );
    assert!(must_store(&account.tokens, &Some("other".into()), written));
    assert!(!must_store(&AccountTokens::default(), &None, written));
}

#[test]
fn loading_moves_tokens_out_of_the_file() {
    let mut file = AccountsFile::empty();
    let first = import(&mut file, tokens("", "a", "r", "x"), "A");
    import(&mut file, tokens("", "b", "", "y"), "B");
    file.accounts[0].credential_state = CredentialState::Unknown;
    file.accounts[1].tokens = AccountTokens::default();
    file.accounts[1].credential_state = CredentialState::Unknown;
    let mut run = LoadRun::begin(file);
    match run.next() {
        LoadStep::Store { reference, tokens } => {
            assert_eq!(reference, format!("account:{}", first.id));
            assert_eq!(tokens.refresh_token.as_deref(), Some("r"));
        }
        _ => panic!("tokens in the file are moved"),
    }
    run.on_stored(true);
    assert_eq!(run.file.accounts[0].credential_state, CredentialState::Ready);
    assert!(matches!(run.next(), LoadStep::Read { .. }));
    let error = refused(run.on_read(TokensRead::Stored(Err("bad".into()))));
    assert!(error.message().contains("are unreadable: bad"));
    assert!(run.on_read(TokensRead::Stored(Ok(tokens("", "b", "", "y")))).is_ok());
    assert_eq!(run.file.accounts[1].credential_state, CredentialState::AccessOnly);
    assert!(matches!(run.next(), LoadStep::Done { save: true }));
}

#[test]
fn old_backups_are_pruned() {
    let names: Vec<String> = [
        "auth.bak-switch-5-x", "auth.json", "auth.bak-switch-1-x", "auth.bak-switch-3-x",
        "auth.bak-switch-2-x", "auth.bak-switch-4-x",
    ]
    .iter()
    .map(|s| s.to_string())
    .collect();
    assert_eq!(prune_auth_backups(&names, "auth"), vec!["auth.bak-switch-1-x", "auth.bak-switch-2-x"]);
    assert!(prune_auth_backups(&names[..3].to_vec(), "auth").is_empty());
}

#[test]
fn summaries_tell_how_fresh_the_usage_is() {
    let mut file = AccountsFile::empty();
    let mut a = import(&mut file, tokens("", "a", "", "x"), "A");
    assert_eq!(a.to_summary(false).usage_status, UsageStatus::Unknown);
    let snapshot = || parse_wham_usage_response(&json("{}"), 1);
    let issue = |code: &str| Some(AccountIssue { code: code.into(), message: "m".into(), occurred_at: 1 });
    a.usage = Some(snapshot());
    assert_eq!(a.to_summary(false).usage_status, UsageStatus::Fresh);
    a.usage_issue = issue("network_error");
    assert_eq!(a.to_summary(false).usage_status, UsageStatus::Stale);
    a.usage = None;
    assert_eq!(a.to_summary(false).usage_status, UsageStatus::Error);
    a.usage_issue = issue("reauth_required");
    assert_eq!(a.to_summary(true).usage_status, UsageStatus::ReauthRequired);
}

#[test]
fn a_refresh_takes_new_tokens_in() {
    let mut file = AccountsFile::empty();
    let account = import(&mut file, tokens(ID_1, "old", "rt", "acc-1"), "A");
    let nobody = done(check_active_status(&None, None, Ok(&file.accounts)));
    let body = done(refresh_request(&account, &account.id, &nobody));
    assert_eq!(
        body,
        "grant_type=refresh_token&client_id=app_EMoamEEZ73f0CkXaXp7hrann&refresh_token=rt"
    );
    let mut odd = account.copy();
    odd.tokens.refresh_token = Some("a b&c".into());
    assert!(done(refresh_request(&odd, &odd.id, &nobody)).ends_with("&refresh_token=a+b%26c"));
    assert!(matches!(done(refresh_lookup(&file.accounts, &account.id, &None)), RefreshStep::Proceed(0)));
    let seen = Some(tokens(ID_1, "older", "rt", "acc-1"));
    assert!(matches!(done(refresh_lookup(&file.accounts, &account.id, &seen)), RefreshStep::Reuse(_)));
    assert!(matches!(refused(refresh_lookup(&file.accounts, "x", &None)), AccountError::NotFound(_)));
    let answer = json(&format!(r#"{{"access_token": "new", "refresh_token": " ", "id_token": "{ID_1}", "account_id": "acc-1"}}"#));
    let fresh = done(finish_refresh(&mut file.accounts, 0, &account.id, RefreshAnswer::Given(answer), 0));
    assert_eq!(fresh.tokens.access_token.as_deref(), Some("new"));
    assert_eq!(fresh.tokens.refresh_token.as_deref(), Some("rt"));
    assert_eq!(fresh.last_refresh.as_deref(), Some("1970-01-01T00:00:00Z"));
    assert_eq!(file.accounts[0].tokens.access_token.as_deref(), Some("new"));

    let give = |text: &str| RefreshAnswer::Given(json(text));
    let error = refused(finish_refresh(&mut file.accounts, 0, "i", give(r#"{"access_token": ""}"#), 1));
    assert!(error.message().contains("without a usable access_token"));
    let error = refused(finish_refresh(&mut file.accounts, 0, "i", give(r#"{"access_token": "x", "account_id": "other"}"#), 1));
    assert!(error.message().contains("account id changed from `acc-1` to `other`"));
    let other = format!(r#"{{"access_token": "x", "id_token": "{ID_2}"}}"#);
    let error = refused(finish_refresh(&mut file.accounts, 0, "i", give(&other), 1));
    assert!(error.message().contains("email changed from `test@example.com` to `user2@example.com`"));
    let error = refused(finish_refresh(&mut file.accounts, 0, "i", give(r#"{"access_token": "x", "id_token": "bad"}"#), 1));
    assert!(error.message().contains("the refreshed id_token is invalid: "));
    assert_eq!(file.accounts[0].tokens.access_token.as_deref(), Some("new"));
}

#[test]
fn live_and_tokenless_accounts_are_not_refreshed() {
    let mut file = AccountsFile::empty();
    let account = import(&mut file, tokens("", "a", "r", "acc-1"), "A");
    let doc = json(r#"{"auth_mode": "chatgpt", "tokens": {"access_token": "l", "account_id": "acc-1"}}"#);
    let active = done(check_active_status(&Some(doc.copy()), read_tokens(&doc), Ok(&file.accounts)));
    assert!(matches!(
        refused(refresh_request(&account, &account.id, &active)),
        AccountError::RequiresReauthentication(_)
    ));
    let bare = import(&mut file, tokens("", "a", "", "acc-2"), "B");
    let nobody = done(check_active_status(&None, None, Ok(&file.accounts)));
    assert!(matches!(
        refused(refresh_request(&bare, &bare.id, &nobody)),
        AccountError::RequiresReauthentication(_)
    ));
}

#[test]
fn refused_refreshes_are_sorted_by_their_code() {
    let (code, message) = oauth_error_details(r#"{"error": {"code": "refresh_token_reused", "message": "m"}}"#);
    assert_eq!((code.as_deref(), message.as_str()), (Some("refresh_token_reused"), "m"));
    assert!(is_reauthentication_code(&code, 400));
    let (code, message) = oauth_error_details(r#"{"code": "c"}"#);
    assert_eq!((code.as_deref(), message.as_str()), (Some("c"), r#"{"code": "c"}"#));
    let (code, message) = oauth_error_details(&"z".repeat(300));
    assert_eq!((code, message.len()), (None, 256));
    assert!(is_reauthentication_code(&None, 401));
    let error = refresh_refused("i", 401, "401 Unauthorized", "x");
    assert_eq!(error.message(), "Account `i` requires re-authentication (refresh_unauthorized): x");
    let error = refresh_refused("i", 500, "500 Internal Server Error", "x");
    assert_eq!(error.message(), "Token refresh failed: HTTP 500 Internal Server Error: x");
}

#[test]
fn a_refused_usage_reading_is_followed_up_once() {
    let mut file = AccountsFile::empty();
    let a = import(&mut file, tokens("", "a", "r", "x"), "A");
    assert_eq!(done(usage_request(&a)), ("Bearer a".to_owned(), Some("x".to_owned())));
    let mut run = UsageRun::begin(a.id.clone(), a.copy(), false);
    assert!(matches!(run.on_reading(Err(usage_failure(401, "no".into()))), UsageStep::Reload));
    assert!(matches!(run.on_reloaded(Ok((a.copy(), false))), UsageStep::Refresh));
    let mut fresh = a.copy();
    fresh.tokens.access_token = Some("b".into());
    assert!(matches!(run.on_refreshed(Ok(fresh)), UsageStep::Ask));
    assert_eq!(run.phase, UsagePhase::Second);
    match run.on_reading(Err(usage_failure(401, "no".into()))) {
        UsageStep::Fail(error) => assert_eq!(error.public_code(), "reauth_required"),
        _ => panic!("a second refusal is final"),
    }
    let mut run = UsageRun::begin(a.id.clone(), a.copy(), true);
    assert!(matches!(run.on_reading(Err(usage_failure(401, "no".into()))), UsageStep::Reload));
    match run.on_reloaded(Ok((a.copy(), false))) {
        UsageStep::Fail(error) => assert!(error.message().contains("live_session_unauthorized")),
        _ => panic!("a live session is never refreshed"),
    }
    let mut run = UsageRun::begin(a.id.clone(), a.copy(), false);
    assert!(matches!(run.on_reading(Err(usage_failure(500, "no".into()))), UsageStep::Fail(_)));
    let snapshot = parse_wham_usage_response(&json("{}"), 1);
    assert!(matches!(run.on_reading(Ok(snapshot)), UsageStep::Save(_)));
    let mut bare = a.copy();
    bare.tokens.access_token = None;
    assert!(matches!(refused(usage_request(&bare)), AccountError::UsageCheckFailed { status: 401, .. }));
    assert!(matches!(after_refusal("i", &a, false, bare, false), RefusedStep::Retry(_)));
}

#[test]
fn usage_is_recorded_unless_it_is_older() {
    let mut file = AccountsFile::empty();
    let a = import(&mut file, tokens("", "a", "r", "x"), "A");
    let (issue, reauth) = issue_of(&usage_failure(401, "secret".into()), 50);
    assert!(!reauth && !issue.message.contains("secret"));
    assert!(!record_usage_failure(&mut file, &a.id, issue, reauth, 60));
    assert!(file.accounts[0].usage_issue.is_none());
    let error = AccountError::RequiresReauthentication("x".into());
    let (issue, reauth) = issue_of(&error, 150);
    assert!(record_usage_failure(&mut file, &a.id, issue, reauth, 160));
    assert_eq!(file.accounts[0].credential_state, CredentialState::NeedsReauth);
    assert_eq!(file.accounts[0].updated_at, 160);
    assert!(save_usage_snapshot(&mut file, &a.id, parse_wham_usage_response(&json("{}"), 1), 170));
    assert!(file.accounts[0].usage.is_some() && file.accounts[0].usage_issue.is_none());
    assert!(!save_usage_snapshot(&mut file, "x", parse_wham_usage_response(&json("{}"), 1), 170));
}

#[test]
fn test_web_account_endpoints() {
    let mut file = AccountsFile::empty();
    let doc = json(
        r#"{"auth_mode": "chatgpt", "tokens": {
            "id_token": "dummy.eyJlbWFpbCI6ImFkbWluQGV4YW1wbGUuY29tIiwibmFtZSI6IkFkbWluIiwic3ViIjoiMSIsImh0dHBzOi8vYXBpLm9wZW5haS5jb20vYXV0aCI6eyJjaGF0Z3B0X3BsYW5fdHlwZSI6InBsdXMiLCJjaGF0Z3B0X2FjY291bnRfaWQiOiJhLTEifX0.dummy",
            "access_token": "token-1", "refresh_token": "ref-1", "account_id": "a-1"}}"#,
    );
    let captured = done(capture_current_auth(
        &mut file, &Some(doc.copy()), read_tokens(&doc), Some("Primary Admin".into()), 5,
    ));
    assert_eq!(captured.name, "Primary Admin");
    let active = done(check_active_status(&Some(doc.copy()), read_tokens(&doc), Ok(&file.accounts)));
    assert!(active.is_logged_in);
    assert_eq!(active.email.as_deref(), Some("admin@example.com"));
    assert_eq!(active.matched_account_id.as_deref(), Some(captured.id.as_str()));
    let list = list_accounts(&file.accounts, &active);
    assert_eq!(list.len(), 1);
    assert!(list[0].is_active);
    let listed = format!("{list:?}");
    let summary = format!("{:?}", captured.to_summary(true));
    let active_text = format!("{active:?}");
    for (label, payload) in
        [("list_accounts", &listed), ("account summary", &summary), ("active status", &active_text)]
    {
        for secret in ["ref-1", "token-1"] {
            assert!(!payload.contains(secret), "{label} leaked credential material `{secret}`: {payload}");
        }
        for field in ["refresh_token", "access_token", "id_token"] {
            assert!(!payload.contains(field), "{label} exposed a `{field}` field: {payload}");
        }
    }
}
