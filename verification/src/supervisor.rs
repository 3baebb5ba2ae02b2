//! The supervisor of the router process: when a running router is shared, replaced or
//! stopped, and what is reported of it.

use crate::json::{Json, JsonView};
use crate::router_error::RouterError;
use crate::service::RouterEndpoint;
use crate::text::{
    blank, cat, cat3, cat5, contains, decimal, decimal_of, from_utf8_lossy, has_part, join,
    joined_by, lossy_text, lowered, number_upto, opt_view, parse_upto, pieces, split, str_eq,
    to_lower, trim, trimmed, views,
};
use vstd::prelude::*;
use vstd::string::*;

verus! {

/// How long a starting router may take, in seconds.
pub const STARTUP_TIMEOUT_SECS: u64 = 15;

/// The age from which a startup lock is taken for abandoned, in nanoseconds.
pub const STARTUP_LOCK_STALE_NANOS: u128 = 120_000_000_000;

/// How much of what a failed router wrote is kept.
pub const MAX_ROUTER_STARTUP_DIAGNOSTIC_BYTES: usize = 4096;

/// Why an operation on the router process fails.
#[derive(Debug)]
pub enum ManagerError {
    Process(String),
    Endpoint(RouterError),
    StartupTimeout { endpoint: String, executable: String, port: u16, reason: String },
    Request(String),
    ReloadFailed { status: u16, message: String },
    ShutdownFailed { status: u16, message: String },
    StartupLocked(String),
    PortInUse { port: u16 },
}

/// The message that reports a failure.
pub open spec fn manager_message(e: ManagerError) -> Seq<char> {
    match e {
        ManagerError::Process(s) => "router process error: "@ + s@,
        ManagerError::Endpoint(e) => "router endpoint error: "@ + e@.message(),
        ManagerError::StartupTimeout { endpoint, executable, port, reason } =>
            "router startup failed ("@ + reason@ + ") waiting for `"@ + endpoint@
            + "`; executable `"@ + executable@ + "`, expected loopback port "@ + decimal(
            port as nat,
        ),
        ManagerError::Request(s) => "router request failed: "@ + s@,
        ManagerError::ReloadFailed { status, message } => "router reload returned HTTP "@ + decimal(
            status as nat,
        ) + ": "@ + message@,
        ManagerError::ShutdownFailed { status, message } => "router shutdown returned HTTP "@
            + decimal(status as nat) + ": "@ + message@,
        ManagerError::StartupLocked(path) =>
            "another process is already starting the router (lock file `"@ + path@
            + "`); retry in a moment"@,
        ManagerError::PortInUse { port } =>
            "the port this Codex config expects for the router ("@ + decimal(port as nat)
            + ") is already in use; stop whatever is listening there, or change the port with CODEX_MP_ROUTER_BASE_URL and re-run `codex-mp sync`"@,
    }
}

impl ManagerError {
    /// The message that reports the failure.
    pub fn message(&self) -> (r: String)
        ensures
            r@ == manager_message(*self),
    {
        match self {
            ManagerError::Process(s) => cat("router process error: ", s),
            ManagerError::Endpoint(e) => cat("router endpoint error: ", &e.message()),
            ManagerError::StartupTimeout { endpoint, executable, port, reason } => cat3(
                &cat5("router startup failed (", reason, ") waiting for `", endpoint, "`; executable `"),
                executable,
                &cat("`, expected loopback port ", &decimal_of(*port as u64)),
            ),
            ManagerError::Request(s) => cat("router request failed: ", s),
            ManagerError::ReloadFailed { status, message } => cat(
                &cat3("router reload returned HTTP ", &decimal_of(*status as u64), ": "),
                message,
            ),
            ManagerError::ShutdownFailed { status, message } => cat(
                &cat3("router shutdown returned HTTP ", &decimal_of(*status as u64), ": "),
                message,
            ),
            ManagerError::StartupLocked(path) => cat3(
                "another process is already starting the router (lock file `",
                path,
                "`); retry in a moment",
            ),
            ManagerError::PortInUse { port } => cat3(
                "the port this Codex config expects for the router (",
                &decimal_of(*port as u64),
                ") is already in use; stop whatever is listening there, or change the port with CODEX_MP_ROUTER_BASE_URL and re-run `codex-mp sync`",
            ),
        }
    }
}

/// What is reported of the router process.
#[derive(Debug)]
pub struct RouterStatus {
    pub running: bool,
    pub healthy: bool,
    pub last_error: Option<String>,
}

/// How a published endpoint stands to the local registry.
#[derive(Debug, Clone, Copy, PartialEq, Eq, Structural)]
pub enum EndpointHealth {
    /// Reachable, one of ours, and it sees the current registry.
    Current,
    /// Reachable and one of ours, but built from an older registry.
    StaleGeneration,
    /// Not reachable, not one of ours, or the local registry cannot be read.
    Unreachable,
}

/// How an endpoint stands to the local registry: `expected` is the registry's
/// generation where it can be read, and the answer of the probe is its status and its
/// JSON, as far as there were any.
pub open spec fn health_of(
    expected: Option<u64>,
    status: Option<u16>,
    payload: Option<JsonView>,
) -> EndpointHealth {
    if expected is None || status is None || !(200 <= status->0 < 300) || payload is None
        || payload->0.text_field("instance"@) != Some("omnibridge"@) {
        EndpointHealth::Unreachable
    } else {
        match payload->0.field("registry_generation"@) {
            Some(g) => if g.unsigned() == expected {
                EndpointHealth::Current
            } else {
                EndpointHealth::StaleGeneration
            },
            None => EndpointHealth::StaleGeneration,
        }
    }
}

/// How an endpoint stands to the local registry.
pub fn endpoint_health(expected: Option<u64>, status: Option<u16>, payload: &Option<Json>) -> (r:
    EndpointHealth)
    ensures
        r == health_of(expected, status, crate::json::opt_json(*payload)),
{
    let generation = match expected {
        Some(generation) => generation,
        None => return EndpointHealth::Unreachable,
    };
    match status {
        Some(status) => if !(200 <= status && status < 300) {
            return EndpointHealth::Unreachable;
        },
        None => return EndpointHealth::Unreachable,
    }
    let payload = match payload {
        Some(payload) => payload,
        None => return EndpointHealth::Unreachable,
    };
    match payload.text_field("instance") {
        Some(instance) => if !str_eq(instance, "omnibridge") {
            return EndpointHealth::Unreachable;
        },
        None => return EndpointHealth::Unreachable,
    }
    match payload.field("registry_generation") {
        Some(seen) => match seen.as_unsigned() {
            Some(seen) => if seen == generation {
                EndpointHealth::Current
            } else {
                EndpointHealth::StaleGeneration
            },
            None => EndpointHealth::StaleGeneration,
        },
        None => EndpointHealth::StaleGeneration,
    }
}

/// A registry that cannot be read makes no endpoint healthy.
pub proof fn unreadable_registries_are_never_healthy(status: Option<u16>, payload: Option<JsonView>)
    ensures
        health_of(None, status, payload) == EndpointHealth::Unreachable,
{
}

/// What the supervisor knows of the router process.
pub struct RouterSupervisor {
    pub has_child: bool,
    pub owns_endpoint: bool,
    pub reused_endpoint: bool,
    pub active_endpoint: Option<RouterEndpoint>,
    pub port: u16,
    pub last_error: Option<String>,
}

/// The next step of a start.
pub enum StartStep {
    /// The endpoint that the running child has published is read.
    LoadOwn,
    /// The startup lock is taken; then the published endpoint, if any, is read.
    Lock,
    /// A published endpoint is probed.
    Probe(RouterEndpoint),
    /// A router that sees an older registry is asked to reload.
    Reload(RouterEndpoint),
    /// A router that was reloaded is probed again.
    ProbeAgain(RouterEndpoint),
    /// A router that is to be replaced is asked to stop.
    Shutdown(RouterEndpoint),
    /// The endpoint file is removed and the port looked at.
    Replace,
    /// A child is started.
    Spawn,
    /// The child is waited for.
    Wait,
    /// The child is killed; the start has failed.
    Abort { reason: String },
    /// The router is running.
    Started(RouterEndpoint),
    /// The start has failed.
    Failed(ManagerError),
}

/// What looking at a child gave.
pub enum ChildPoll {
    Running,
    Exited(String),
    Unknown(String),
}

fn copy_endpoint(e: &RouterEndpoint) -> (r: RouterEndpoint)
    ensures
        r == *e,
{
    RouterEndpoint { base_url: e.base_url.clone(), capability_token: e.capability_token.clone() }
}

impl RouterSupervisor {
    /// Nothing running.
    pub fn new() -> (r: RouterSupervisor)
        ensures
            r == (RouterSupervisor {
                has_child: false,
                owns_endpoint: false,
                reused_endpoint: false,
                active_endpoint: None,
                port: 0,
                last_error: None,
            }),
    {
        RouterSupervisor {
            has_child: false,
            owns_endpoint: false,
            reused_endpoint: false,
            active_endpoint: None,
            port: 0,
            last_error: None,
        }
    }

    /// The supervisor of a router on a fixed port.
    pub fn with_port(self, port: u16) -> (r: RouterSupervisor)
        ensures
            r == (RouterSupervisor { port, ..self }),
    {
        RouterSupervisor {
            has_child: self.has_child,
            owns_endpoint: self.owns_endpoint,
            reused_endpoint: self.reused_endpoint,
            active_endpoint: self.active_endpoint,
            port,
            last_error: self.last_error,
        }
    }

    /// The state with no router at hand.
    pub open spec fn released(self) -> RouterSupervisor {
        RouterSupervisor {
            has_child: false,
            owns_endpoint: false,
            reused_endpoint: false,
            active_endpoint: None,
            ..self
        }
    }

    /// The state with the endpoint of a router that was started by someone else.
    pub open spec fn sharing(self, endpoint: RouterEndpoint) -> RouterSupervisor {
        RouterSupervisor { reused_endpoint: true, active_endpoint: Some(endpoint), ..self }
    }

    /// The first step of a start, and the state after it.
    pub open spec fn at_start(self, child_running: bool) -> (StartStep, RouterSupervisor) {
        if self.has_child && child_running {
            (
                match self.active_endpoint {
                    Some(endpoint) => StartStep::Started(endpoint),
                    None => StartStep::LoadOwn,
                },
                self,
            )
        } else {
            (StartStep::Lock, self.released())
        }
    }

    /// The step after a published endpoint was probed, and the state after it; `again` says
    /// that it was reloaded before.
    pub open spec fn at_probe(self, endpoint: RouterEndpoint, health: EndpointHealth, again: bool) -> (
        StartStep,
        RouterSupervisor,
    ) {
        match health {
            EndpointHealth::Current => (StartStep::Started(endpoint), self.sharing(endpoint)),
            EndpointHealth::StaleGeneration => (
                if again {
                    StartStep::Shutdown(endpoint)
                } else {
                    StartStep::Reload(endpoint)
                },
                self,
            ),
            EndpointHealth::Unreachable => (
                if again {
                    StartStep::Shutdown(endpoint)
                } else {
                    StartStep::Replace
                },
                self,
            ),
        }
    }

    /// The step after the old endpoint file was removed.
    pub open spec fn at_replacement(self, removed: Result<(), String>, port_free: bool) -> StartStep {
        match removed {
            Err(e) => StartStep::Failed(ManagerError::Process(e)),
            Ok(_) => if self.port != 0 && !port_free {
                StartStep::Failed(ManagerError::PortInUse { port: self.port })
            } else {
                StartStep::Spawn
            },
        }
    }

    /// The state after a child was looked at that may have published its endpoint.
    pub open spec fn at_poll(self, loaded: Option<RouterEndpoint>) -> RouterSupervisor {
        match loaded {
            Some(endpoint) => RouterSupervisor {
                owns_endpoint: true,
                active_endpoint: Some(endpoint),
                ..self
            },
            None => self,
        }
    }

    /// The first step of a status report, and the state after it.
    pub open spec fn at_status(self, child_exited: bool) -> (StatusStep, RouterSupervisor) {
        let nothing = StatusStep::Report(
            RouterStatus { running: false, healthy: false, last_error: self.last_error },
        );
        if self.has_child && child_exited {
            (nothing, self.released())
        } else if self.has_child || self.reused_endpoint {
            (StatusStep::Probe(self.active_endpoint), self)
        } else {
            (nothing, self)
        }
    }

    fn release(&mut self)
        ensures
            *final(self) == old(self).released(),
    {
        self.has_child = false;
        self.owns_endpoint = false;
        self.reused_endpoint = false;
        self.active_endpoint = None;
    }

    fn share(&mut self, endpoint: RouterEndpoint) -> (r: StartStep)
        ensures
            r == StartStep::Started(endpoint),
            *final(self) == old(self).sharing(endpoint),
    {
        self.reused_endpoint = true;
        self.active_endpoint = Some(copy_endpoint(&endpoint));
        StartStep::Started(endpoint)
    }

    /// Begins a start. A child that is running is kept.
    pub fn start(&mut self, child_running: bool) -> (r: StartStep)
        ensures
            (r, *final(self)) == old(self).at_start(child_running),
    {
        if self.has_child && child_running {
            return match &self.active_endpoint {
                Some(endpoint) => StartStep::Started(copy_endpoint(endpoint)),
                None => StartStep::LoadOwn,
            };
        }
        self.release();
        StartStep::Lock
    }

    /// Goes on once the endpoint of the running child was read.
    pub fn own_loaded(&mut self, loaded: Result<RouterEndpoint, RouterError>) -> (r: StartStep)
        ensures
            match loaded {
                Ok(endpoint) => {
                    &&& r == StartStep::Started(endpoint)
                    &&& *final(self) == (RouterSupervisor {
                        active_endpoint: Some(endpoint),
                        ..*old(self)
                    })
                },
                Err(e) => {
                    &&& r == StartStep::Failed(ManagerError::Endpoint(e))
                    &&& *final(self) == *old(self)
                },
            },
    {
        match loaded {
            Ok(endpoint) => {
                self.active_endpoint = Some(copy_endpoint(&endpoint));
                StartStep::Started(endpoint)
            },
            Err(e) => StartStep::Failed(ManagerError::Endpoint(e)),
        }
    }

    /// Goes on once a published endpoint was looked for, under the lock.
    pub fn published(&self, loaded: Option<RouterEndpoint>) -> (r: StartStep)
        ensures
            r == (match loaded {
                Some(endpoint) => StartStep::Probe(endpoint),
                None => StartStep::Replace,
            }),
    {
        match loaded {
            Some(endpoint) => StartStep::Probe(endpoint),
            None => StartStep::Replace,
        }
    }

    /// Goes on once a published endpoint was probed: a current one is shared, a stale
    /// one reloaded, any other replaced.
    pub fn probed(&mut self, endpoint: RouterEndpoint, health: EndpointHealth) -> (r: StartStep)
        ensures
            (r, *final(self)) == old(self).at_probe(endpoint, health, false),
    {
        match health {
            EndpointHealth::Current => self.share(endpoint),
            EndpointHealth::StaleGeneration => StartStep::Reload(endpoint),
            EndpointHealth::Unreachable => StartStep::Replace,
        }
    }

    /// Goes on once a router was asked to reload.
    pub fn reloaded(&self, endpoint: RouterEndpoint, accepted: bool) -> (r: StartStep)
        ensures
            r == (if accepted {
                StartStep::ProbeAgain(endpoint)
            } else {
                StartStep::Shutdown(endpoint)
            }),
    {
        if accepted {
            StartStep::ProbeAgain(endpoint)
        } else {
            StartStep::Shutdown(endpoint)
        }
    }

    /// Goes on once a reloaded router was probed again: unless it is current now, it is
    /// stopped before it is replaced.
    pub fn probed_again(&mut self, endpoint: RouterEndpoint, health: EndpointHealth) -> (r: StartStep)
        ensures
            (r, *final(self)) == old(self).at_probe(endpoint, health, true),
    {
        match health {
            EndpointHealth::Current => self.share(endpoint),
            _ => StartStep::Shutdown(endpoint),
        }
    }

    /// Goes on once a router was asked to stop: it is replaced, whether or not it has
    /// answered.
    pub fn shut_down(&self) -> (r: StartStep)
        ensures
            r == StartStep::Replace,
    {
        StartStep::Replace
    }

    /// Goes on once the old endpoint file is gone: a fixed port must be free.
    pub fn replacing(&self, removed: Result<(), String>, port_free: bool) -> (r: StartStep)
        ensures
            r == self.at_replacement(removed, port_free),
    {
        match removed {
            Err(e) => StartStep::Failed(ManagerError::Process(e)),
            Ok(_) => if self.port != 0 && !port_free {
                StartStep::Failed(ManagerError::PortInUse { port: self.port })
            } else {
                StartStep::Spawn
            },
        }
    }

    /// Goes on once a child was started.
    pub fn spawned(&mut self, outcome: Result<(), String>) -> (r: StartStep)
        ensures
            match outcome {
                Ok(_) => r == StartStep::Wait && *final(self) == (RouterSupervisor {
                    has_child: true,
                    ..*old(self)
                }),
                Err(e) => r == StartStep::Failed(ManagerError::Process(e)) && *final(self)
                    == *old(self),
            },
    {
        match outcome {
            Ok(_) => {
                self.has_child = true;
                StartStep::Wait
            },
            Err(e) => StartStep::Failed(ManagerError::Process(e)),
        }
    }

    /// Goes on once a starting child was looked at: a published endpoint ends the wait,
    /// and so does a child that is gone.
    pub fn polled(&mut self, loaded: Option<RouterEndpoint>, child: ChildPoll) -> (r: StartStep)
        ensures
            *final(self) == old(self).at_poll(loaded),
            match loaded {
                Some(endpoint) => r == StartStep::Started(endpoint),
                None => {
                    &&& match child {
                        ChildPoll::Running => r == StartStep::Wait,
                        ChildPoll::Exited(status) => r is Abort && r->reason@
                            == "child exited with "@ + status@,
                        ChildPoll::Unknown(error) => r is Abort && r->reason@
                            == "could not inspect child: "@ + error@,
                    }
                },
            },
    {
        match loaded {
            Some(endpoint) => {
                self.owns_endpoint = true;
                self.active_endpoint = Some(copy_endpoint(&endpoint));
                StartStep::Started(endpoint)
            },
            None => match child {
                ChildPoll::Running => StartStep::Wait,
                ChildPoll::Exited(status) => StartStep::Abort {
                    reason: cat("child exited with ", &status),
                },
                ChildPoll::Unknown(error) => StartStep::Abort {
                    reason: cat("could not inspect child: ", &error),
                },
            },
        }
    }

    /// Goes on once a starting child has taken too long.
    pub fn timed_out(&self) -> (r: StartStep)
        ensures
            r is Abort,
            r->reason@ == "timed out after "@ + decimal(STARTUP_TIMEOUT_SECS as nat) + " seconds"@,
    {
        StartStep::Abort {
            reason: cat3("timed out after ", &decimal_of(STARTUP_TIMEOUT_SECS), " seconds"),
        }
    }

    /// Ends a failed start: the child is given up, so that the next start does not take
    /// it for a running router.
    pub fn aborted(
        &mut self,
        endpoint_file: &str,
        executable: &str,
        reason: String,
        diagnostic: String,
    ) -> (r: ManagerError)
        ensures
            *final(self) == old(self).released(),
            r is StartupTimeout,
            r->endpoint@ == endpoint_file@,
            r->executable@ == executable@,
            r->StartupTimeout_port == old(self).port,
            r->reason@ == with_diagnostic(reason@, diagnostic@),
    {
        self.release();
        ManagerError::StartupTimeout {
            endpoint: endpoint_file.to_owned(),
            executable: executable.to_owned(),
            port: self.port,
            reason: append_router_startup_diagnostic(reason, diagnostic),
        }
    }

    /// Keeps what a start came to.
    pub fn finished(&mut self, outcome: &Result<RouterEndpoint, ManagerError>)
        ensures
            opt_view(final(self).last_error) == (match *outcome {
                Ok(_) => None,
                Err(e) => Some(manager_message(e)),
            }),
            *final(self) == (RouterSupervisor { last_error: final(self).last_error, ..*old(self) }),
    {
        self.last_error = match outcome {
            Ok(_) => None,
            Err(e) => Some(e.message()),
        };
    }
}

/// Whether a router that is probed during a start ends up shared or replaced, never
/// both: a shared endpoint is not owned.
pub proof fn shared_endpoints_are_not_owned(s: RouterSupervisor, endpoint: RouterEndpoint)
    ensures
        !s.released().sharing(endpoint).owns_endpoint,
        s.released().sharing(endpoint).reused_endpoint,
{
}

/// What a failed start reports: the reason, and what the child wrote where it wrote
/// anything.
pub open spec fn with_diagnostic(reason: Seq<char>, diagnostic: Seq<char>) -> Seq<char> {
    if diagnostic.len() == 0 {
        reason
    } else {
        reason + "; child stderr: "@ + diagnostic
    }
}

/// What a failed start reports.
pub fn append_router_startup_diagnostic(reason: String, diagnostic: String) -> (r: String)
    ensures
        r@ == with_diagnostic(reason@, diagnostic@),
{
    if diagnostic.as_str().is_empty() {
        reason
    } else {
        cat3(&reason, "; child stderr: ", &diagnostic)
    }
}

/// Whether a line may hold a credential.
pub open spec fn sensitive(line: Seq<char>) -> bool {
    let lower = lowered(line);
    has_part(lower, "token"@) || has_part(lower, "authorization"@) || has_part(lower, "api-key"@)
        || has_part(lower, "api_key"@) || has_part(lower, "secret"@)
}

/// What is shown in place of a line that may hold a credential.
pub open spec fn redaction() -> Seq<char> {
    "[sensitive Router diagnostic redacted]"@
}

/// The lines that are shown: without blank ones, trimmed, and with those that may hold
/// a credential redacted.
pub open spec fn shown_lines(lines: Seq<Seq<char>>) -> Seq<Seq<char>>
    decreases lines.len(),
{
    if lines.len() == 0 {
        Seq::empty()
    } else {
        let before = shown_lines(lines.drop_last());
        let line = trimmed(lines.last());
        if line.len() == 0 {
            before
        } else if sensitive(line) {
            before.push(redaction())
        } else {
            before.push(line)
        }
    }
}

/// What is shown of what a child wrote.
pub fn sanitize_router_startup_diagnostic(raw: &[u8]) -> (r: String)
    ensures
        r@ == joined_by(shown_lines(pieces(lossy_text(raw@), '\n')), " | "@),
{
    sanitize_text(&from_utf8_lossy(raw))
}

/// What is shown of a text that a child wrote.
pub fn sanitize_text(text: &str) -> (r: String)
    ensures
        r@ == joined_by(shown_lines(pieces(text@, '\n')), " | "@),
{
    let lines = split(text, '\n');
    let ghost all = views(lines@);
    let mut shown: Vec<String> = Vec::new();
    let mut i: usize = 0;
    assert(views(shown@) =~= Seq::empty());
    while i < lines.len()
        invariant
            i <= lines@.len(),
            all == views(lines@),
            views(shown@) == shown_lines(all.take(i as int)),
        decreases lines@.len() - i,
    {
        assert(all.take(i + 1).drop_last() =~= all.take(i as int));
        assert(all.take(i + 1).last() == lines@[i as int]@);
        let ghost before = views(shown@);
        let line = trim(&lines[i]);
        if !line.as_str().is_empty() {
            let lower = to_lower(&line);
            if contains(&lower, "token") || contains(&lower, "authorization") || contains(
                &lower,
                "api-key",
            ) || contains(&lower, "api_key") || contains(&lower, "secret") {
                shown.push("[sensitive Router diagnostic redacted]".to_owned());
                assert(views(shown@) =~= before.push(redaction()));
            } else {
                shown.push(line);
                assert(views(shown@) =~= before.push(line@));
            }
        }
        i = i + 1;
    }
    assert(all.take(i as int) =~= all);
    join(&shown, " | ")
}

/// No line that may hold a credential is ever shown.
pub proof fn sensitive_lines_are_redacted(lines: Seq<Seq<char>>)
    ensures
        forall|i: int|
            0 <= i < shown_lines(lines).len() ==> {
                let line = #[trigger] shown_lines(lines)[i];
                line == redaction() || !sensitive(line)
            },
    decreases lines.len(),
{
    if lines.len() > 0 {
        sensitive_lines_are_redacted(lines.drop_last());
        let before = shown_lines(lines.drop_last());
        assert forall|i: int| 0 <= i < shown_lines(lines).len() implies {
            let line = #[trigger] shown_lines(lines)[i];
            line == redaction() || !sensitive(line)
        } by {
            if i < before.len() {
                assert(shown_lines(lines)[i] == before[i]);
            }
        }
    }
}

/// What is kept of a diagnostic once more of it has come.
pub open spec fn retained_of(kept: Seq<u8>, chunk: Seq<u8>) -> Seq<u8> {
    (kept + chunk).take(
        if kept.len() + chunk.len() < MAX_ROUTER_STARTUP_DIAGNOSTIC_BYTES {
            (kept.len() + chunk.len()) as int
        } else {
            MAX_ROUTER_STARTUP_DIAGNOSTIC_BYTES as int
        },
    )
}

/// Keeps what a child wrote, up to the limit.
pub fn retain_diagnostic(retained: &mut Vec<u8>, chunk: &Vec<u8>)
    requires
        old(retained)@.len() <= MAX_ROUTER_STARTUP_DIAGNOSTIC_BYTES,
    ensures
        final(retained)@ == retained_of(old(retained)@, chunk@),
{
    let ghost start = retained@;
    let mut i: usize = 0;
    assert(start =~= (start + chunk@).take(start.len() as int));
    while i < chunk.len() && retained.len() < MAX_ROUTER_STARTUP_DIAGNOSTIC_BYTES
        invariant
            i <= chunk@.len(),
            start.len() + i <= MAX_ROUTER_STARTUP_DIAGNOSTIC_BYTES,
            retained@ == (start + chunk@).take(start.len() + i),
        decreases chunk@.len() - i,
    {
        retained.push(chunk[i]);
        assert((start + chunk@).take(start.len() + i).push((start + chunk@)[start.len() + i])
            =~= (start + chunk@).take(start.len() + i + 1));
        i = i + 1;
    }
}

/// What a router answered to a request to reload.
pub fn reload_outcome(status: u16, message: String) -> (r: Result<(), ManagerError>)
    ensures
        r == (if 200 <= status < 300 {
            Ok(())
        } else {
            Err(ManagerError::ReloadFailed { status, message })
        }),
{
    if 200 <= status && status < 300 {
        Ok(())
    } else {
        Err(ManagerError::ReloadFailed { status, message })
    }
}

/// What a router answered to a request to stop.
pub fn shutdown_outcome(status: u16, message: String) -> (r: Result<(), ManagerError>)
    ensures
        r == (if 200 <= status < 300 {
            Ok(())
        } else {
            Err(ManagerError::ShutdownFailed { status, message })
        }),
{
    if 200 <= status && status < 300 {
        Ok(())
    } else {
        Err(ManagerError::ShutdownFailed { status, message })
    }
}

/// The next step of a status report.
pub enum StatusStep {
    /// The endpoint in use is probed; it is this one, or the published one.
    Probe(Option<RouterEndpoint>),
    /// This is the report.
    Report(RouterStatus),
}

impl RouterSupervisor {
    /// Begins a status report. A child that is gone is given up.
    pub fn status(&mut self, child_exited: bool) -> (r: StatusStep)
        ensures
            (r, *final(self)) == old(self).at_status(child_exited),
    {
        let last_error = self.last_error.clone();
        if self.has_child && child_exited {
            self.release();
            return StatusStep::Report(
                RouterStatus { running: false, healthy: false, last_error },
            );
        }
        if self.has_child || self.reused_endpoint {
            return StatusStep::Probe(
                match &self.active_endpoint {
                    Some(endpoint) => Some(copy_endpoint(endpoint)),
                    None => None,
                },
            );
        }
        StatusStep::Report(RouterStatus { running: false, healthy: false, last_error })
    }

    /// The report where no endpoint is in use and none is published.
    pub fn status_without_endpoint(&self) -> (r: RouterStatus)
        ensures
            r == (RouterStatus {
                running: self.has_child,
                healthy: false,
                last_error: self.last_error,
            }),
    {
        RouterStatus { running: self.has_child, healthy: false, last_error: self.last_error.clone() }
    }

    /// The report once the endpoint in use was probed.
    pub fn status_probed(&self, health: EndpointHealth) -> (r: RouterStatus)
        ensures
            r == (RouterStatus {
                running: true,
                healthy: health == EndpointHealth::Current,
                last_error: self.last_error,
            }),
    {
        RouterStatus {
            running: true,
            healthy: health == EndpointHealth::Current,
            last_error: self.last_error.clone(),
        }
    }

    /// The endpoint that requests go to: the one in use, else the published one.
    pub fn current_endpoint(&self, published: Result<RouterEndpoint, RouterError>) -> (r: Result<
        RouterEndpoint,
        ManagerError,
    >)
        ensures
            r == (match self.active_endpoint {
                Some(endpoint) => Ok(endpoint),
                None => match published {
                    Ok(endpoint) => Ok(endpoint),
                    Err(e) => Err(ManagerError::Endpoint(e)),
                },
            }),
    {
        match &self.active_endpoint {
            Some(endpoint) => Ok(copy_endpoint(endpoint)),
            None => match published {
                Ok(endpoint) => Ok(endpoint),
                Err(e) => Err(ManagerError::Endpoint(e)),
            },
        }
    }

    /// Begins a stop: the child, if there is one, is given up, whatever becomes of it.
    pub fn stop(&mut self)
        ensures
            *final(self) == (RouterSupervisor { has_child: false, ..*old(self) }),
    {
        self.has_child = false;
    }

    /// The endpoint that is asked to stop, where the child that was given up is running:
    /// the one that this supervisor started or took over, never one that was published
    /// since.
    pub fn stop_target(&self, child_running: bool) -> (r: Option<RouterEndpoint>)
        ensures
            r == (if child_running {
                self.active_endpoint
            } else {
                None
            }),
    {
        if child_running {
            match &self.active_endpoint {
                Some(endpoint) => Some(copy_endpoint(endpoint)),
                None => None,
            }
        } else {
            None
        }
    }

    /// Whether a stop removes the endpoint file: not where the router was started by
    /// someone else, nor where someone else has published since.
    pub fn removes_on_stop(&self, published: &Option<RouterEndpoint>) -> (r: bool)
        ensures
            r == (!self.reused_endpoint && still_ours(self.active_endpoint, *published)),
    {
        !self.reused_endpoint && endpoint_file_still_ours(&self.active_endpoint, published)
    }

    /// Ends a stop once the endpoint file is gone or left to its owner.
    pub fn stopped(&mut self)
        ensures
            *final(self) == old(self).released(),
    {
        self.release();
    }

    /// Whether the endpoint file is removed when the supervisor goes away.
    pub fn removes_on_drop(&self, published: &Option<RouterEndpoint>) -> (r: bool)
        ensures
            r == (self.owns_endpoint && still_ours(self.active_endpoint, *published)),
    {
        self.owns_endpoint && endpoint_file_still_ours(&self.active_endpoint, published)
    }
}

/// Whether a published endpoint is the expected one; with nothing expected, or nothing
/// published, there is nothing of anybody else's to lose.
pub open spec fn still_ours(expected: Option<RouterEndpoint>, published: Option<RouterEndpoint>) -> bool {
    match (expected, published) {
        (Some(e), Some(p)) => e.base_url@ == p.base_url@ && e.capability_token@
            == p.capability_token@,
        _ => true,
    }
}

/// Whether a published endpoint is the expected one.
pub fn endpoint_file_still_ours(
    expected: &Option<RouterEndpoint>,
    published: &Option<RouterEndpoint>,
) -> (r: bool)
    ensures
        r == still_ours(*expected, *published),
{
    match (expected, published) {
        (Some(e), Some(p)) => str_eq(&p.base_url, &e.base_url) && str_eq(
            &p.capability_token,
            &e.capability_token,
        ),
        _ => true,
    }
}

/// The process that a startup lock names.
pub fn lock_holder(contents: &str) -> (r: Option<u32>)
    ensures
        number_upto(trimmed(contents@), u32::MAX as nat) == (match r {
            Some(pid) => Some(pid as nat),
            None => None,
        }),
{
    match parse_upto(&trim(contents), u32::MAX as u64) {
        Some(n) => Some(n as u32),
        None => None,
    }
}

/// Whether a lock may be reclaimed.
pub open spec fn stale_lock(
    present: bool,
    age_nanos: Option<u128>,
    holder_alive: Option<bool>,
) -> bool {
    !present || (age_nanos is Some && age_nanos->0 > STARTUP_LOCK_STALE_NANOS) || holder_alive
        == Some(false)
}

/// The step after a lock was tried.
pub open spec fn at_lock(attempt: LockAttempt, stale: bool, past_deadline: bool, path: String) -> LockStep {
    match attempt {
        LockAttempt::Created => LockStep::Held,
        LockAttempt::Failed(e) => LockStep::Fail(ManagerError::Process(e)),
        LockAttempt::Exists => if stale {
            LockStep::Reclaim
        } else if past_deadline {
            LockStep::Fail(ManagerError::StartupLocked(path))
        } else {
            LockStep::Wait
        },
    }
}

/// Whether a startup lock is abandoned: it is gone, or too old, or it names a process
/// that is gone. One that names no process is held until it is too old.
pub fn lock_is_stale(present: bool, age_nanos: Option<u128>, holder_alive: Option<bool>) -> (r: bool)
    ensures
        r == stale_lock(present, age_nanos, holder_alive),
{
    if !present {
        return true;
    }
    if let Some(age) = age_nanos {
        if age > STARTUP_LOCK_STALE_NANOS {
            return true;
        }
    }
    match holder_alive {
        Some(alive) => !alive,
        None => false,
    }
}

/// What an attempt to create the startup lock gave.
pub enum LockAttempt {
    Created,
    Exists,
    Failed(String),
}

/// What follows an attempt to create the startup lock.
pub enum LockStep {
    /// The lock is held.
    Held,
    /// The abandoned lock is removed, and the attempt repeated.
    Reclaim,
    /// The attempt is repeated after a pause.
    Wait,
    /// The lock cannot be had.
    Fail(ManagerError),
}

/// What follows an attempt to create the startup lock.
pub fn lock_step(attempt: LockAttempt, stale: bool, past_deadline: bool, path: String) -> (r: LockStep)
    ensures
        r == at_lock(attempt, stale, past_deadline, path),
{
    match attempt {
        LockAttempt::Created => LockStep::Held,
        LockAttempt::Failed(e) => LockStep::Fail(ManagerError::Process(e)),
        LockAttempt::Exists => if stale {
            LockStep::Reclaim
        } else if past_deadline {
            LockStep::Fail(ManagerError::StartupLocked(path))
        } else {
            LockStep::Wait
        },
    }
}

/// A router is current where it answers well, as this program, and of the expected generation;
/// of another generation it is stale; and anything else is not reachable.
pub proof fn health_goes_by_the_generation(
    expected: Option<u64>,
    status: Option<u16>,
    payload: Option<JsonView>,
)
    ensures
        ({
            let health = health_of(expected, status, payload);
            let answers = expected is Some && status is Some && 200 <= status->0 <= 299 && payload
                is Some && payload->0.text_field("instance"@) == Some("omnibridge"@);
            let generation = payload->0.field("registry_generation"@);
            &&& health == EndpointHealth::Unreachable <==> !answers
            &&& health == EndpointHealth::Current <==> answers && generation is Some && generation->0
                == JsonView::Number(crate::json::NumberView::Unsigned(expected->0))
        }),
{
}

/// A start with a running child keeps it: its endpoint is used, or read where it is not known.
/// Every other start gives up what there was and takes the lock.
pub proof fn starts_keep_a_running_child(s: RouterSupervisor, running: bool)
    ensures
        ({
            let (step, after) = s.at_start(running);
            &&& s.has_child && running ==> after == s && (s.active_endpoint is Some ==> step
                == StartStep::Started(s.active_endpoint->0)) && (s.active_endpoint is None ==> step
                is LoadOwn)
            &&& !(s.has_child && running) ==> step is Lock && !after.has_child
                && !after.owns_endpoint && !after.reused_endpoint && after.active_endpoint is None
                && after.port == s.port && after.last_error == s.last_error
        }),
{
}

/// A router that was published is shared where it is current, the first time or after a reload.
/// A stale one is asked to reload once; one that is still not current is stopped, and one that
/// cannot be reached is replaced. Sharing owns nothing.
pub proof fn published_routers_are_shared_or_replaced(
    s: RouterSupervisor,
    endpoint: RouterEndpoint,
    health: EndpointHealth,
)
    ensures
        ({
            let (first, after) = s.at_probe(endpoint, health, false);
            let (second, later) = s.at_probe(endpoint, health, true);
            &&& first == StartStep::Started(endpoint) <==> health == EndpointHealth::Current
            &&& second == StartStep::Started(endpoint) <==> health == EndpointHealth::Current
            &&& health == EndpointHealth::StaleGeneration ==> first == StartStep::Reload(endpoint)
            &&& health == EndpointHealth::Unreachable ==> first == StartStep::Replace
            &&& health != EndpointHealth::Current ==> second == StartStep::Shutdown(endpoint)
            &&& health != EndpointHealth::Current ==> after == s && later == s
            &&& health == EndpointHealth::Current ==> after == later && after.reused_endpoint
                && after.active_endpoint == Some(endpoint) && after.owns_endpoint == s.owns_endpoint
                && after.has_child == s.has_child && after.port == s.port
        }),
{
}

/// A new router is started once the old endpoint file is gone and, where the port is fixed, the
/// port is free. Until it has published its endpoint it is waited for as long as it runs; an
/// endpoint that it has published is its own.
pub proof fn new_routers_are_waited_for(
    s: RouterSupervisor,
    free: bool,
    loaded: Option<RouterEndpoint>,
)
    ensures
        s.at_replacement(Ok(()), free) == StartStep::Spawn <==> s.port == 0 || free,
        s.port != 0 && !free ==> s.at_replacement(Ok(()), free) == StartStep::Failed(
            ManagerError::PortInUse { port: s.port },
        ),
        loaded is Some ==> s.at_poll(loaded).owns_endpoint && s.at_poll(loaded).active_endpoint
            == loaded && s.at_poll(loaded).has_child == s.has_child && s.at_poll(
            loaded,
        ).reused_endpoint == s.reused_endpoint,
        loaded is None ==> s.at_poll(loaded) == s,
{
}

/// A status report gives up a child that is gone and asks the endpoint in use, if there is
/// one; without a child and without a shared endpoint nothing is running.
pub proof fn status_reports_look_at_the_endpoint(s: RouterSupervisor, exited: bool)
    ensures
        ({
            let (step, after) = s.at_status(exited);
            let gone = s.has_child && exited;
            &&& !gone && (s.has_child || s.reused_endpoint) ==> step == StatusStep::Probe(
                s.active_endpoint,
            ) && after == s
            &&& gone || !(s.has_child || s.reused_endpoint) ==> step is Report
                && !step->Report_0.running && !step->Report_0.healthy && step->Report_0.last_error
                == s.last_error
            &&& gone ==> !after.has_child && !after.owns_endpoint && !after.reused_endpoint
                && after.active_endpoint is None
        }),
{
}

/// An endpoint file is somebody else's only where both are known and differ in their address or
/// their token.
pub proof fn files_are_ours_unless_replaced(e: RouterEndpoint, p: RouterEndpoint)
    ensures
        still_ours(Some(e), Some(p)) <==> e.base_url@ == p.base_url@ && e.capability_token@
            == p.capability_token@,
        still_ours(None, Some(p)),
        still_ours(Some(e), None),
{
}

/// A lock that is held by a process which is gone, or is older than two minutes, is reclaimed.
/// A lock that is held is waited for until the deadline.
pub proof fn stale_locks_are_reclaimed(
    age: Option<u128>,
    alive: Option<bool>,
    stale: bool,
    late: bool,
    path: String,
)
    ensures
        stale_lock(true, age, alive) <==> (age is Some && age->0 > 120_000_000_000) || alive == Some(
            false,
        ),
        stale_lock(false, age, alive),
        at_lock(LockAttempt::Created, stale, late, path) is Held,
        at_lock(LockAttempt::Exists, true, late, path) is Reclaim,
        at_lock(LockAttempt::Exists, false, false, path) is Wait,
        at_lock(LockAttempt::Exists, false, true, path) == LockStep::Fail(
            ManagerError::StartupLocked(path),
        ),
{
}

/// A diagnostic shows every line that is not blank, without blanks round it and in its order;
/// a line that may hold a secret is shown as redacted.
pub proof fn diagnostics_show_their_lines(lines: Seq<Seq<char>>, line: Seq<char>)
    ensures
        shown_lines(Seq::empty()) == Seq::<Seq<char>>::empty(),
        shown_lines(lines.push(line)) == (if blank(line) {
            shown_lines(lines)
        } else if sensitive(trimmed(line)) {
            shown_lines(lines).push("[sensitive Router diagnostic redacted]"@)
        } else {
            shown_lines(lines).push(trimmed(line))
        }),
{
    assert(lines.push(line).drop_last() =~= lines);
}

/// A line may hold a secret where it speaks of one, in whatever case.
pub proof fn secrets_are_told_by_words(line: Seq<char>)
    ensures
        sensitive(line) <==> has_part(lowered(line), "token"@) || has_part(
            lowered(line),
            "authorization"@,
        ) || has_part(lowered(line), "api-key"@) || has_part(lowered(line), "api_key"@) || has_part(
            lowered(line),
            "secret"@,
        ),
{
}

/// Of what a child reports the first four kilobytes are kept.
pub proof fn reports_are_kept_from_the_start(kept: Seq<u8>, chunk: Seq<u8>)
    requires
        kept.len() <= 4096,
    ensures
        retained_of(kept, chunk).len() <= 4096,
        retained_of(kept, chunk).is_prefix_of(kept + chunk),
        kept.len() + chunk.len() <= 4096 ==> retained_of(kept, chunk) == kept + chunk,
        kept.len() + chunk.len() > 4096 ==> retained_of(kept, chunk).len() == 4096,
        kept.is_prefix_of(retained_of(kept, chunk)),
{
    let out = retained_of(kept, chunk);
    assert(out.is_prefix_of(kept + chunk));
    if kept.len() + chunk.len() <= 4096 {
        assert(out =~= kept + chunk);
    }
    assert(out.subrange(0, kept.len() as int) =~= kept);
}

/// What a failed start reports is its reason, and after it what the child wrote, if anything.
pub proof fn reasons_come_first(reason: Seq<char>, diagnostic: Seq<char>)
    ensures
        diagnostic.len() == 0 ==> with_diagnostic(reason, diagnostic) == reason,
        reason.is_prefix_of(with_diagnostic(reason, diagnostic)),
        diagnostic.len() > 0 ==> with_diagnostic(reason, diagnostic).skip(reason.len() as int + 16)
            == diagnostic,
{
    reveal_strlit("; child stderr: ");
    assert("; child stderr: "@.len() == 16);
    let out = with_diagnostic(reason, diagnostic);
    assert(reason.is_prefix_of(out));
    if diagnostic.len() > 0 {
        assert(out.skip(reason.len() as int + 16) =~= diagnostic);
    }
}

} // verus!
