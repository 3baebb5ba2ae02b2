use codex_mp::changes::{
    begin_change, change_after_put, change_after_read, change_after_save, change_rolled_back,
    purge_restored, removal_after_delete, removal_after_read, removal_after_save, removal_error,
    remove_provider, restore_outcome, ChangeStep, PurgeRun, PurgeStep, RemovalStep, Restore,
    SecretRead,
};
use codex_mp::discovery::{check_list_length, discover_models, import_models, models_url};
use codex_mp::json_text::parse_json;
use codex_mp::providers::{
    add_model, add_provider, add_provider_with_auth, edit_model, edit_provider,
    edit_provider_with_auth, list_providers, remove_model, set_model_enabled, CredentialError,
    DiscoveredModel, ProviderEdit, ProviderManagerError,
};
use codex_mp::registry::{
    AuthStrategy, CoreError, ModelCapabilities, ModelEdit, ProviderProtocol, ProviderRegistry,
};
use codex_mp::service::RouterEndpoint;
use codex_mp::router_error::RouterError;
use codex_mp::supervisor::{
    append_router_startup_diagnostic, endpoint_health, lock_holder, lock_is_stale, lock_step,
    reload_outcome, retain_diagnostic, sanitize_router_startup_diagnostic, shutdown_outcome,
    ChildPoll, EndpointHealth, LockAttempt, LockStep, ManagerError, RouterSupervisor, StartStep,
    StatusStep,
};

fn done<T>(result: Result<T, ProviderManagerError>) -> T {
    match result {
        Ok(value) => value,
        Err(error) => panic!("{}", error.message()),
    }
}

fn refused<T>(result: Result<T, ProviderManagerError>) -> ProviderManagerError {
    match result {
        Ok(_) => panic!("the operation was accepted"),
        Err(error) => error,
    }
}

fn registry() -> ProviderRegistry {
    let mut registry = ProviderRegistry::empty(31828);
    done(add_provider(&mut registry, "Probe", Ok("https://example.test/v1".into()), ProviderProtocol::Responses));
    done(add_model(&mut registry, "probe", "m1", "M1", None, ModelCapabilities::default()));
    registry
}

#[test]
fn every_routing_mutation_bumps_the_registry_generation() {
    let mut registry = registry();
    let mut previous = registry.generation;
    done(edit_provider(&mut registry, "probe", None, None, None, None));
    assert!(registry.generation > previous);
    previous = registry.generation;
    done(set_model_enabled(&mut registry, "probe/m1", false));
    assert!(registry.generation > previous);
    previous = registry.generation;
    done(edit_model(&mut registry, "probe/m1", ModelEdit { display_name: None, context_window: None }));
    assert!(registry.generation > previous);
    previous = registry.generation;
    done(remove_model(&mut registry, "probe/m1"));
    assert!(registry.generation > previous);
    previous = registry.generation;
    assert!(registry.remove_provider("probe").is_ok());
    assert!(registry.generation > previous);
}

#[test]
fn edits_touch_only_what_they_give() {
    let mut registry = registry();
    done(add_provider(&mut registry, "Other", Ok("https://other.test/v1".into()), ProviderProtocol::Responses));
    let before = registry.generation;
    done(edit_provider(&mut registry, "probe", Some("Renamed".into()), None, None, None));
    assert!(registry.generation > before);
    let probe = registry.provider("probe").unwrap();
    assert_eq!((probe.name.as_str(), probe.base_url.as_str()), ("Renamed", "https://example.test/v1"));
    assert_eq!((probe.credential_reference.as_str(), probe.models.len()), ("provider:probe", 1));
    assert!(probe.enabled);
    assert_eq!(registry.provider("other").unwrap().name, "Other");
    let before = registry.generation;
    let error = refused(edit_provider(&mut registry, "gone", Some("X".into()), None, None, None));
    assert!(matches!(error, ProviderManagerError::Core(CoreError::ProviderNotFound(_))));
    assert_eq!(registry.generation, before);
}

#[test]
fn a_failed_credential_read_does_not_delete_the_stored_key() {
    let secret = match begin_change(Some("sk-probe".into())) {
        ChangeStep::Read { secret } => secret,
        _ => panic!("the old key is read first"),
    };
    let step = change_after_read(secret, SecretRead::Failed(CredentialError::Backend("keyring unavailable".into())));
    match step {
        ChangeStep::Fail(error) => assert_eq!(error.message(), "credential store error: keyring unavailable"),
        _ => panic!("a failed read must abort the provider change"),
    }
}

#[test]
fn failed_saves_of_changes_without_a_key_leave_the_stored_key() {
    let undo = match begin_change(None) {
        ChangeStep::Save { undo } => undo,
        _ => panic!("no key is read or stored"),
    };
    match change_after_save(undo, Err(CoreError::Io("full".into()))) {
        ChangeStep::RollBack { restore: None, error } => {
            assert!(matches!(change_rolled_back(error), ChangeStep::Fail(_)));
        }
        _ => panic!("the stored key is neither replaced nor deleted"),
    }
}

#[test]
fn failed_saves_bring_the_old_key_back() {
    let step = change_after_read("new".into(), SecretRead::Found("old".into()));
    let previous = match step {
        ChangeStep::Put { secret, previous } => {
            assert_eq!(secret, "new");
            previous
        }
        _ => panic!("the new key is stored"),
    };
    let undo = match change_after_put(previous, Ok(())) {
        ChangeStep::Save { undo } => undo,
        _ => panic!("the registry is saved"),
    };
    match change_after_save(undo, Err(CoreError::Io("full".into()))) {
        ChangeStep::RollBack { restore: Some(Restore::Put(secret)), error } => {
            assert_eq!(secret, "old");
            match change_rolled_back(error) {
                ChangeStep::Fail(error) => {
                    assert_eq!(error.message(), "provider registry error: I/O error: full")
                }
                _ => panic!("the change has failed"),
            }
        }
        _ => panic!("the old key comes back"),
    }
    assert!(matches!(begin_change(None), ChangeStep::Save { undo: None }));
    assert!(matches!(
        change_after_put(None, Ok(())),
        ChangeStep::Save { undo: Some(Restore::Delete) }
    ));
    assert!(matches!(change_after_save(None, Ok(())), ChangeStep::Done));
    assert!(matches!(
        change_after_put(None, Err(CredentialError::Backend("x".into()))),
        ChangeStep::Fail(ProviderManagerError::Credential(_))
    ));
    assert!(matches!(
        change_after_read("n".into(), SecretRead::Missing),
        ChangeStep::Put { previous: None, .. }
    ));
    assert!(matches!(
        change_after_save(Some(Restore::Delete), Err(CoreError::Io("full".into()))),
        ChangeStep::RollBack { restore: Some(Restore::Delete), .. }
    ));
    assert!(restore_outcome(&Restore::Delete, Err(CredentialError::NotFound("x".into()))).is_ok());
    assert!(restore_outcome(&Restore::Put("x".into()), Err(CredentialError::NotFound("x".into()))).is_err());
}

#[test]
fn removals_take_the_credential_along() {
    let mut registry = registry();
    let reference = match remove_provider(&mut registry, "probe", true) {
        RemovalStep::Read { reference } => reference,
        _ => panic!("the credential is read first"),
    };
    assert_eq!(reference, "provider:probe");
    assert!(registry.providers.is_empty());
    let (reference, secret) = match removal_after_read(reference, SecretRead::Found("s".into())) {
        RemovalStep::Delete { reference, secret } => (reference, secret),
        _ => panic!("the credential is deleted"),
    };
    let (reference, deleted) = match removal_after_delete(reference, secret, Ok(())) {
        RemovalStep::Save { reference, deleted } => (reference, deleted),
        _ => panic!("the registry is saved"),
    };
    assert_eq!(deleted.as_deref(), Some("s"));
    match removal_after_save(reference, deleted, Err(CoreError::Io("full".into()))) {
        RemovalStep::RollBack { deleted, .. } => assert_eq!(deleted.as_deref(), Some("s")),
        _ => panic!("the removal is taken back"),
    }
    assert!(matches!(removal_after_save("r".into(), None, Ok(())), RemovalStep::Done));
    assert!(matches!(
        removal_after_read("r".into(), SecretRead::Missing),
        RemovalStep::Save { deleted: None, .. }
    ));
    let failed = || CredentialError::Backend("x".into());
    assert!(matches!(removal_after_read("r".into(), SecretRead::Failed(failed())), RemovalStep::Fail(_)));
    assert!(matches!(removal_after_delete("r".into(), "s".into(), Err(failed())), RemovalStep::Fail(_)));
    match remove_provider(&mut registry, "probe", false) {
        RemovalStep::Fail(error) => {
            assert_eq!(error.message(), "provider registry error: provider `probe` was not found")
        }
        _ => panic!("the provider is gone"),
    }
}

#[test]
fn removals_report_the_worst_failure() {
    let io = |s: &str| CoreError::Io(s.to_owned());
    let error = removal_error(io("save"), Err(io("again")), Err("cred".into()));
    assert_eq!(error.message(), "provider registry error: I/O error: again");
    let error = removal_error(io("save"), Ok(()), Err("cred".into()));
    assert_eq!(error.message(), "credential store error: cred");
    let error = removal_error(io("save"), Ok(()), Ok(()));
    assert_eq!(error.message(), "provider registry error: I/O error: save");
}

#[test]
fn lib_purge_provider_data_tolerates_an_unreadable_registry() {
    let mut run = done(PurgeRun::begin(Err(CoreError::Io("broken".into())), true));
    assert!(matches!(run.next(), PurgeStep::RemoveRegistry));
    assert!(run.on_removed(Ok(())).is_ok());
    assert!(matches!(run.next(), PurgeStep::Done(0)));
}

#[test]
fn purge_provider_data_still_fails_when_the_registry_is_kept() {
    let error = refused(PurgeRun::begin(Err(CoreError::Io("broken".into())), false));
    assert_eq!(error.message(), "provider registry error: I/O error: broken");
}

#[test]
fn purge_provider_data_removes_registry_and_credentials() {
    let mut registry = ProviderRegistry::empty(1);
    done(add_provider(&mut registry, "NewAPI", Ok("https://example.test/v1".into()), ProviderProtocol::Responses));
    let mut run = done(PurgeRun::begin(Ok(&registry), true));
    match run.next() {
        PurgeStep::Read(reference) => assert_eq!(reference, "provider:newapi"),
        _ => panic!("the key is read first"),
    }
    assert!(run.on_read(SecretRead::Found("provider-secret".into())).is_ok());
    assert!(matches!(run.next(), PurgeStep::Delete(_)));
    assert!(run.on_delete(Ok(())).is_ok());
    assert!(matches!(run.next(), PurgeStep::RemoveRegistry));
    assert!(run.on_removed(Ok(())).is_ok());
    assert!(matches!(run.next(), PurgeStep::Done(1)));
}

#[test]
fn failed_purges_put_back_what_was_deleted() {
    let mut registry = ProviderRegistry::empty(1);
    for name in ["Zeta", "Alpha", "Mid"] {
        done(add_provider(&mut registry, name, Ok("https://example.test".into()), ProviderProtocol::Responses));
    }
    registry.providers[2].credential_reference = "provider:alpha".into();
    let mut run = done(PurgeRun::begin(Ok(&registry), true));
    assert_eq!(run.references, vec!["provider:alpha", "provider:zeta"]);
    assert!(run.on_read(SecretRead::Found("a".into())).is_ok());
    assert!(run.on_read(SecretRead::Found("z".into())).is_ok());
    assert!(run.on_delete(Ok(())).is_ok());
    let failure = match run.on_delete(Err(CredentialError::Backend("stuck".into()))) {
        Err(failure) => failure,
        Ok(()) => panic!("the deletion failed"),
    };
    assert_eq!(failure.restore, vec![("provider:alpha".to_owned(), "a".to_owned())]);
    let error = purge_restored(failure.error, Ok(()));
    assert_eq!(error.message(), "credential store error: stuck");
    let error = purge_restored(error, Err(CredentialError::Backend("worse".into())));
    assert_eq!(error.message(), "credential store error: worse");
    let mut run = done(PurgeRun::begin(Ok(&registry), false));
    assert!(run.on_read(SecretRead::Failed(CredentialError::Backend("x".into()))).is_err());
    assert!(run.on_read(SecretRead::Missing).is_ok());
    assert!(run.on_read(SecretRead::Missing).is_ok());
    assert!(matches!(run.next(), PurgeStep::Done(0)));
    match run.on_removed(Err("busy".into())) {
        Err(failure) => assert_eq!(failure.error.message(), "provider registry error: I/O error: busy"),
        Ok(()) => panic!("the removal failed"),
    }
}

#[test]
fn providers_and_models_are_edited() {
    let mut registry = registry();
    let edit = ProviderEdit {
        name: Some("New".into()),
        base_url: Some(Ok("https://other.test".into())),
        protocol: Some(ProviderProtocol::ChatCompletions),
        enabled: Some(false),
        auth_strategy: Some(AuthStrategy::ApiKey),
    };
    let summary = done(edit_provider_with_auth(&mut registry, "probe", edit));
    assert_eq!((summary.id.as_str(), summary.name.as_str()), ("probe", "New"));
    assert_eq!(summary.base_url, "https://other.test");
    assert_eq!(summary.protocol, ProviderProtocol::ChatCompletions);
    assert!(!summary.enabled && summary.models.len() == 1);
    let bad = ProviderEdit {
        name: Some("Lost".into()),
        base_url: Some(Err(CoreError::InvalidBaseUrl("x".into()))),
        protocol: None,
        enabled: None,
        auth_strategy: None,
    };
    let before = registry.generation;
    assert!(edit_provider_with_auth(&mut registry, "probe", bad).is_err());
    assert_eq!((registry.generation, registry.providers[0].name.as_str()), (before, "New"));
    let error = refused(edit_provider(&mut registry, "nobody", None, None, None, None));
    assert_eq!(error.message(), "provider registry error: provider `nobody` was not found");

    let edit = ModelEdit { display_name: Some("Shown".into()), context_window: Some(Some(5)) };
    let model = done(edit_model(&mut registry, "probe/m1", edit));
    assert_eq!((model.display_name.as_str(), model.context_window), ("Shown", Some(5)));
    let cleared = done(edit_model(&mut registry, "probe/m1", ModelEdit { display_name: None, context_window: Some(None) }));
    assert_eq!((cleared.display_name.as_str(), cleared.context_window), ("Shown", None));
    assert!(!done(set_model_enabled(&mut registry, "probe/m1", false)).enabled);
    for (id, text) in [
        ("plain", "provider registry error: model id `plain` is invalid"),
        ("x/m", "provider registry error: provider `x` was not found"),
        ("probe/x", "provider registry error: model `probe/x` was not found"),
    ] {
        assert_eq!(refused(set_model_enabled(&mut registry, id, true)).message(), text);
        assert_eq!(refused(remove_model(&mut registry, id)).message(), text);
    }
    let again = add_model(&mut registry, "probe", "m1", "M1", None, ModelCapabilities::default());
    assert_eq!(refused(again).message(), "provider registry error: model `probe/m1` already exists");
    let again = add_provider_with_auth(
        &mut registry, "PROBE", Ok("u".into()), ProviderProtocol::Responses, AuthStrategy::Absent,
    );
    assert_eq!(refused(again).message(), "provider registry error: provider `probe` already exists");
    let bad = add_provider(&mut registry, "X", Err(CoreError::InvalidBaseUrl("u".into())), ProviderProtocol::Responses);
    assert_eq!(refused(bad).message(), "provider registry error: base URL is invalid: u");
    assert_eq!(list_providers(&registry).len(), 1);
    done(remove_model(&mut registry, "probe/m1"));
    assert!(list_providers(&registry)[0].models.is_empty());
}

#[test]
fn model_lists_are_read_in_their_shapes() {
    let found = done(discover_models(
        200,
        r#"{"data": [{"id": " a ", "display_name": "A"}, " b ", "", {"slug": "c", "name": "C"}, {"id": " "}, 7, {"id": 3, "model": "d"}]}"#,
    ));
    let ids: Vec<&str> = found.iter().map(|m| m.upstream_model_id.as_str()).collect();
    assert_eq!(ids, vec!["a", "b", "c", "d"]);
    assert_eq!(found[0].display_name.as_deref(), Some("A"));
    assert_eq!(found[2].display_name.as_deref(), Some("C"));
    assert!(found[1].display_name.is_none());
    assert_eq!(done(discover_models(200, r#"["x"]"#)).len(), 1);
    assert_eq!(done(discover_models(200, r#"{"data": 1, "models": ["x", "y"]}"#)).len(), 2);
    assert!(done(discover_models(200, "[]")).is_empty());
    assert!(matches!(refused(discover_models(200, "{}")), ProviderManagerError::MissingModelList));
    assert!(matches!(refused(discover_models(200, "[1]")), ProviderManagerError::EmptyModelList));
    assert!(matches!(refused(discover_models(200, "{")), ProviderManagerError::Json(_)));
    let error = refused(discover_models(403, r#"{"error": "denied"}"#));
    assert_eq!(error.message(), "provider returned HTTP 403: denied");
    let error = refused(discover_models(500, "3"));
    assert_eq!(error.message(), "provider returned HTTP 500: request failed");
    let long = " ".repeat(8_388_609);
    let error = refused(discover_models(200, &long));
    assert_eq!(
        error.message(),
        "provider returned HTTP 200: provider returned 8388609 bytes, which exceeds the 8388608 byte limit for a model list"
    );
    assert!(check_list_length(200, Some(8_388_608)).is_ok());
    assert!(check_list_length(200, Some(8_388_609)).is_err());
    let mut registry = registry();
    registry.providers[0].base_url = "https://x/v1//".into();
    assert_eq!(models_url(&registry.providers[0]), "https://x/v1/models");
}

#[test]
fn selected_models_are_imported_all_or_none() {
    let mut registry = registry();
    let discovered = || vec![
        DiscoveredModel { upstream_model_id: "m1".into(), display_name: None },
        DiscoveredModel { upstream_model_id: "m2".into(), display_name: Some("Two".into()) },
        DiscoveredModel { upstream_model_id: "m3".into(), display_name: None },
    ];
    let select = |ids: &[&str]| ids.iter().map(|s| s.to_string()).collect::<Vec<_>>();
    let error = refused(import_models(&mut registry, "probe", &discovered(), &select(&["m2", "m9"])));
    assert_eq!(error.message(), "model `m9` was not returned by provider");
    assert_eq!(registry.providers[0].models.len(), 1);
    let models = done(import_models(&mut registry, "probe", &discovered(), &select(&["m1", "m2", "m3", "m2"])));
    let names: Vec<&str> = models.iter().map(|m| m.display_name.as_str()).collect();
    assert_eq!(names, vec!["M1", "Probe / Two", "Probe / m3"]);
    assert_eq!(models[1].logical_model_id, "probe/m2");
    assert!(import_models(&mut registry, "nobody", &discovered(), &select(&[])).is_err());
}

fn endpoint(url: &str, token: &str) -> RouterEndpoint {
    RouterEndpoint { base_url: url.into(), capability_token: token.into() }
}

#[test]
fn stop_removes_stale_endpoint() {
    let mut supervisor = RouterSupervisor::new();
    supervisor.stop();
    assert!(supervisor.stop_target(false).is_none());
    assert!(supervisor.removes_on_stop(&Some(endpoint("http://127.0.0.1:1", "stale"))));
}

#[test]
fn reused_endpoint_survives_supervisor_stop() {
    let mut supervisor = RouterSupervisor::new();
    assert!(matches!(supervisor.start(false), StartStep::Lock));
    let found = match supervisor.published(Some(endpoint("http://127.0.0.1:1", "t"))) {
        StartStep::Probe(found) => found,
        _ => panic!("a published router is probed"),
    };
    assert!(matches!(supervisor.probed(found, EndpointHealth::Current), StartStep::Started(_)));
    assert!(supervisor.reused_endpoint && !supervisor.owns_endpoint);
    assert!(!supervisor.removes_on_drop(&None));
    assert!(!supervisor.removes_on_stop(&Some(endpoint("http://127.0.0.1:1", "t"))));
    supervisor.stopped();
    assert!(!supervisor.reused_endpoint && supervisor.active_endpoint.is_none());
}

#[test]
fn shutdown_targets_the_endpoint_we_started_not_the_shared_file() {
    let mut supervisor = RouterSupervisor::new();
    supervisor.active_endpoint = Some(endpoint("http://127.0.0.1:1", "our-token"));
    supervisor.has_child = true;
    let other = || endpoint("http://127.0.0.1:2", "other-token");
    match supervisor.current_endpoint(Ok(other())) {
        Ok(target) => assert_eq!(target.capability_token, "our-token"),
        Err(error) => panic!("{}", error.message()),
    }
    supervisor.stop();
    assert!(!supervisor.has_child);
    assert_eq!(supervisor.stop_target(true).unwrap().base_url, "http://127.0.0.1:1");
    assert!(!supervisor.removes_on_stop(&Some(other())));
    supervisor.stopped();
    match supervisor.current_endpoint(Err(RouterError::EndpointFile("gone".into()))) {
        Err(error) => assert_eq!(error.message(), "router endpoint error: router endpoint file error: gone"),
        Ok(_) => panic!("nothing is in use"),
    }
}

#[test]
fn shutdown_of_an_unreachable_router_reports_an_error() {
    assert_eq!(ManagerError::Request("refused".into()).message(), "router request failed: refused");
    assert!(shutdown_outcome(200, "".into()).is_ok());
    match shutdown_outcome(500, "no".into()) {
        Err(error) => assert_eq!(error.message(), "router shutdown returned HTTP 500: no"),
        Ok(()) => panic!("refused"),
    }
    match reload_outcome(404, "no".into()) {
        Err(error) => assert_eq!(error.message(), "router reload returned HTTP 404: no"),
        Ok(()) => panic!("refused"),
    }
}

#[test]
fn an_occupied_configured_port_fails_fast_and_explains_itself() {
    let supervisor = RouterSupervisor::new().with_port(8787);
    match supervisor.replacing(Ok(()), false) {
        StartStep::Failed(ManagerError::PortInUse { port }) => assert_eq!(port, 8787),
        _ => panic!("an occupied port must be reported"),
    }
    assert!(ManagerError::PortInUse { port: 8787 }.message().contains("(8787) is already in use"));
    assert!(matches!(supervisor.replacing(Ok(()), true), StartStep::Spawn));
    assert!(matches!(RouterSupervisor::new().replacing(Ok(()), false), StartStep::Spawn));
    assert!(matches!(supervisor.replacing(Err("io".into()), true), StartStep::Failed(_)));
}

#[test]
fn startup_lock_is_exclusive_and_reclaims_stale_holders() {
    assert!(matches!(lock_step(LockAttempt::Created, false, false, "l".into()), LockStep::Held));
    assert!(matches!(lock_step(LockAttempt::Exists, false, false, "l".into()), LockStep::Wait));
    assert!(matches!(lock_step(LockAttempt::Exists, true, true, "l".into()), LockStep::Reclaim));
    match lock_step(LockAttempt::Exists, false, true, "l".into()) {
        LockStep::Fail(error) => assert!(error.message().contains("(lock file `l`)")),
        _ => panic!("the wait is over"),
    }
    assert!(matches!(lock_step(LockAttempt::Failed("x".into()), false, false, "l".into()), LockStep::Fail(_)));
    assert_eq!(lock_holder(" 999999999\n"), Some(999999999));
    assert_eq!(lock_holder("+7"), Some(7));
    assert_eq!(lock_holder(""), None);
    assert_eq!(lock_holder("4294967296"), None);
    assert!(lock_is_stale(true, Some(1), Some(false)));
    assert!(lock_is_stale(false, None, None));
    assert!(lock_is_stale(true, Some(120_000_000_001), Some(true)));
    assert!(!lock_is_stale(true, Some(120_000_000_000), Some(true)));
    assert!(!lock_is_stale(true, None, None));
}

#[test]
fn unreadable_registry_is_never_healthy() {
    let payload = Some(parse_json(br#"{"instance":"omnibridge","registry_generation":7}"#).unwrap());
    assert_eq!(endpoint_health(None, Some(200), &payload), EndpointHealth::Unreachable);
    assert_eq!(endpoint_health(Some(7), Some(200), &payload), EndpointHealth::Current);
    assert_eq!(endpoint_health(Some(7), Some(500), &payload), EndpointHealth::Unreachable);
    assert_eq!(endpoint_health(Some(7), None, &None), EndpointHealth::Unreachable);
    let foreign = Some(parse_json(br#"{"instance":"other","registry_generation":7}"#).unwrap());
    assert_eq!(endpoint_health(Some(7), Some(200), &foreign), EndpointHealth::Unreachable);
}

#[test]
fn generation_mismatch_is_reported_as_stale() {
    let payload = Some(parse_json(br#"{"instance":"omnibridge","registry_generation":1}"#).unwrap());
    assert_eq!(endpoint_health(Some(registry().generation), Some(200), &payload), EndpointHealth::StaleGeneration);
}

#[test]
fn stale_routers_are_reloaded_before_they_are_replaced() {
    let mut supervisor = RouterSupervisor::new();
    let e = endpoint("http://127.0.0.1:1", "t");
    let e = match supervisor.probed(e, EndpointHealth::StaleGeneration) {
        StartStep::Reload(e) => e,
        _ => panic!("a stale router is reloaded"),
    };
    let e = match supervisor.reloaded(e, true) {
        StartStep::ProbeAgain(e) => e,
        _ => panic!("a reloaded router is probed"),
    };
    assert!(matches!(supervisor.probed_again(e, EndpointHealth::StaleGeneration), StartStep::Shutdown(_)));
    assert!(matches!(supervisor.reloaded(endpoint("u", "t"), false), StartStep::Shutdown(_)));
    assert!(matches!(supervisor.shut_down(), StartStep::Replace));
    assert!(matches!(supervisor.probed(endpoint("u", "t"), EndpointHealth::Unreachable), StartStep::Replace));
    assert!(matches!(supervisor.published(None), StartStep::Replace));
}

#[test]
fn failed_starts_give_the_child_up() {
    let mut supervisor = RouterSupervisor::new().with_port(9);
    assert!(matches!(supervisor.spawned(Err("none".into())), StartStep::Failed(_)));
    assert!(matches!(supervisor.spawned(Ok(())), StartStep::Wait));
    assert!(matches!(supervisor.polled(None, ChildPoll::Running), StartStep::Wait));
    let reason = match supervisor.polled(None, ChildPoll::Exited("exit status: 1".into())) {
        StartStep::Abort { reason } => reason,
        _ => panic!("the child is gone"),
    };
    assert_eq!(reason, "child exited with exit status: 1");
    let error = supervisor.aborted("e.json", "codex-mp", reason, "boom".into());
    assert_eq!(
        error.message(),
        "router startup failed (child exited with exit status: 1; child stderr: boom) waiting for `e.json`; executable `codex-mp`, expected loopback port 9"
    );
    assert!(!supervisor.has_child);
    let outcome = Err(error);
    supervisor.finished(&outcome);
    match supervisor.status(false) {
        StatusStep::Report(status) => assert!(!status.running && status.last_error.is_some()),
        _ => panic!("nothing is running"),
    }
    match supervisor.timed_out() {
        StartStep::Abort { reason } => assert_eq!(reason, "timed out after 15 seconds"),
        _ => panic!("the start has failed"),
    }
    assert_eq!(append_router_startup_diagnostic("r".into(), "".into()), "r");
}

#[test]
fn the_status_follows_the_child() {
    let mut supervisor = RouterSupervisor::new();
    supervisor.has_child = true;
    assert!(matches!(supervisor.start(true), StartStep::LoadOwn));
    assert!(matches!(supervisor.own_loaded(Ok(endpoint("u", "t"))), StartStep::Started(_)));
    assert!(matches!(supervisor.start(true), StartStep::Started(_)));
    assert!(matches!(supervisor.status(false), StatusStep::Probe(Some(_))));
    let status = supervisor.status_probed(EndpointHealth::Current);
    assert!(status.running && status.healthy);
    assert!(supervisor.status_without_endpoint().running);
    assert!(matches!(supervisor.status(true), StatusStep::Report(_)));
    assert!(!supervisor.has_child && supervisor.active_endpoint.is_none());
    assert!(!supervisor.status_without_endpoint().running);
    assert!(matches!(supervisor.polled(Some(endpoint("u", "t")), ChildPoll::Running), StartStep::Started(_)));
    assert!(supervisor.owns_endpoint && supervisor.removes_on_drop(&None));
}

#[test]
fn diagnostics_are_bounded_and_redacted() {
    let text = b"  starting \r\n\nAuthorization: Bearer x\nAPI_KEY=1\nlast\xff\n";
    assert_eq!(
        sanitize_router_startup_diagnostic(text),
        "starting | [sensitive Router diagnostic redacted] | [sensitive Router diagnostic redacted] | last\u{fffd}"
    );
    let mut kept = vec![b'a'; 4090];
    retain_diagnostic(&mut kept, &b"0123456789".to_vec());
    assert_eq!(kept.len(), 4096);
    assert_eq!(&kept[4090..], b"012345");
}
