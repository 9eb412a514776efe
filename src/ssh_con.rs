//! The decisions of the remote executor: how many times to try connecting
//! and authenticating, what to report when that fails, and whether a user
//! may run a privileged command. The transport itself is driven by the
//! caller, which performs each `Action` and feeds back the `Event`.

use vstd::prelude::*;

use crate::error::HostError;
use crate::fields::same_text;

verus! {

/// How many connection attempts, and how many authentication attempts, are
/// made before giving up.
pub const MAX_ATTEMPTS: u8 = 3;

/// The result reported for a host that every connection attempt missed.
pub open spec fn unreachable_text() -> Seq<char> {
    "Host cannot be reached."@
}

/// The result reported for a host on which the key never authenticated.
pub open spec fn key_failed_text() -> Seq<char> {
    "Failed to open key."@
}

#[derive(Debug, Clone, Copy, PartialEq, Eq, Structural)]
pub enum Phase {
    /// Connecting, to run a command afterwards.
    Connecting,
    /// Connecting only, to learn whether the host is reachable.
    Probing,
    Authenticating,
    Running,
    Finished,
}

/// Where one remote call stands.
#[derive(Debug, Clone, Copy, PartialEq, Eq, Structural)]
pub struct Session {
    pub phase: Phase,
    pub connect_failures: u8,
    pub auth_failures: u8,
}

/// What the transport reports back.
pub enum Event {
    /// A connection attempt succeeded (`true`) or failed.
    Connect(bool),
    /// An authentication attempt succeeded (`true`) or failed.
    Auth(bool),
    /// The command's standard output as text, or `None` where the channel
    /// failed or the output was not UTF-8.
    Output(Option<String>),
}

/// What the caller is to do next.
pub enum Action {
    Connect,
    Authenticate,
    RunCommand,
    /// The call is over, with this result for the dispatcher.
    Finish(Result<String, HostError>),
    /// The probe is over: whether the host was reached.
    Reached(bool),
}

impl Session {
    /// The attempt counters stay below their bound until the call is over.
    pub open spec fn wf(&self) -> bool {
        &&& self.connect_failures < MAX_ATTEMPTS
        &&& self.auth_failures < MAX_ATTEMPTS
    }

    /// A session that runs a command: its first action is to connect.
    pub fn start() -> (r: (Session, Action))
        ensures
            r.0.wf(),
            r.0 == (Session { phase: Phase::Connecting, connect_failures: 0, auth_failures: 0 }),
            r.1 is Connect,
    {
        (Session { phase: Phase::Connecting, connect_failures: 0, auth_failures: 0 }, Action::Connect)
    }

    /// A session that only tries to reach the host: its first action is to
    /// connect.
    pub fn start_probe() -> (r: (Session, Action))
        ensures
            r.0.wf(),
            r.0 == (Session { phase: Phase::Probing, connect_failures: 0, auth_failures: 0 }),
            r.1 is Connect,
    {
        (Session { phase: Phase::Probing, connect_failures: 0, auth_failures: 0 }, Action::Connect)
    }

    pub fn is_finished(&self) -> (r: bool)
        ensures
            r == (self.phase == Phase::Finished),
    {
        self.phase == Phase::Finished
    }

    /// The next state and action after `event`. A failed connection is tried
    /// again until `MAX_ATTEMPTS` have failed, then reported as unreachable;
    /// a failed authentication likewise, then reported as a key failure;
    /// neither is an error, so a run over many hosts goes on. A transport
    /// fault after authentication is `RemoteExecutionError`. An event that
    /// does not belong to the current phase changes nothing and the current
    /// action is asked for again.
    pub fn step(&self, event: Event) -> (r: (Session, Action))
        requires
            self.wf(),
            self.phase != Phase::Finished,
        ensures
            r.0.wf(),
            r.0.connect_failures >= self.connect_failures,
            r.0.auth_failures >= self.auth_failures,
            match (self.phase, event) {
                (Phase::Connecting, Event::Connect(true)) => r.0 == (Session {
                    phase: Phase::Authenticating,
                    ..*self
                }) && r.1 is Authenticate,
                (Phase::Probing, Event::Connect(true)) => r.0 == (Session {
                    phase: Phase::Finished,
                    ..*self
                }) && r.1 == Action::Reached(true),
                (Phase::Connecting, Event::Connect(false)) | (Phase::Probing, Event::Connect(false)) =>
                    if self.connect_failures + 1 == MAX_ATTEMPTS {
                        r.0 == (Session { phase: Phase::Finished, ..*self }) && if self.phase
                            == Phase::Probing {
                            r.1 == Action::Reached(false)
                        } else {
                            finishes_with(r.1, unreachable_text())
                        }
                    } else {
                        r.0 == (Session {
                            connect_failures: (self.connect_failures + 1) as u8,
                            ..*self
                        }) && r.1 is Connect
                    },
                (Phase::Authenticating, Event::Auth(true)) => r.0 == (Session {
                    phase: Phase::Running,
                    ..*self
                }) && r.1 is RunCommand,
                (Phase::Authenticating, Event::Auth(false)) => if self.auth_failures + 1
                    == MAX_ATTEMPTS {
                    r.0 == (Session { phase: Phase::Finished, ..*self }) && finishes_with(
                        r.1,
                        key_failed_text(),
                    )
                } else {
                    r.0 == (Session { auth_failures: (self.auth_failures + 1) as u8, ..*self })
                        && r.1 is Authenticate
                },
                (Phase::Running, Event::Output(Some(out))) => r.0 == (Session {
                    phase: Phase::Finished,
                    ..*self
                }) && finishes_with(r.1, out@),
                (Phase::Running, Event::Output(None)) => r.0 == (Session {
                    phase: Phase::Finished,
                    ..*self
                }) && r.1 == Action::Finish(Err(HostError::RemoteExecutionError)),
                _ => r.0 == *self && phase_action(self.phase, r.1),
            },
    {
        match (self.phase, event) {
            (Phase::Connecting, Event::Connect(true)) => (
                Session { phase: Phase::Authenticating, ..*self },
                Action::Authenticate,
            ),
            (Phase::Probing, Event::Connect(true)) => (
                Session { phase: Phase::Finished, ..*self },
                Action::Reached(true),
            ),
            (Phase::Connecting, Event::Connect(false)) | (Phase::Probing, Event::Connect(false)) => {
                if self.connect_failures + 1 == MAX_ATTEMPTS {
                    let done = Session { phase: Phase::Finished, ..*self };
                    if self.phase == Phase::Probing {
                        (done, Action::Reached(false))
                    } else {
                        (done, Action::Finish(Ok(String::from_str("Host cannot be reached."))))
                    }
                } else {
                    (
                        Session { connect_failures: self.connect_failures + 1, ..*self },
                        Action::Connect,
                    )
                }
            },
            (Phase::Authenticating, Event::Auth(true)) => (
                Session { phase: Phase::Running, ..*self },
                Action::RunCommand,
            ),
            (Phase::Authenticating, Event::Auth(false)) => {
                if self.auth_failures + 1 == MAX_ATTEMPTS {
                    (
                        Session { phase: Phase::Finished, ..*self },
                        Action::Finish(Ok(String::from_str("Failed to open key."))),
                    )
                } else {
                    (
                        Session { auth_failures: self.auth_failures + 1, ..*self },
                        Action::Authenticate,
                    )
                }
            },
            (Phase::Running, Event::Output(Some(out))) => (
                Session { phase: Phase::Finished, ..*self },
                Action::Finish(Ok(out)),
            ),
            (Phase::Running, Event::Output(None)) => (
                Session { phase: Phase::Finished, ..*self },
                Action::Finish(Err(HostError::RemoteExecutionError)),
            ),
            _ => (*self, current_action(self.phase)),
        }
    }
}

/// The call is over with this text as its result.
pub open spec fn finishes_with(a: Action, text: Seq<char>) -> bool {
    a matches Action::Finish(Ok(s)) && s@ == text
}

/// The action that a phase waits on.
pub open spec fn phase_action(p: Phase, a: Action) -> bool {
    match p {
        Phase::Connecting | Phase::Probing => a is Connect,
        Phase::Authenticating => a is Authenticate,
        Phase::Running => a is RunCommand,
        Phase::Finished => false,
    }
}

fn current_action(p: Phase) -> (r: Action)
    requires
        p != Phase::Finished,
    ensures
        phase_action(p, r),
{
    match p {
        Phase::Connecting | Phase::Probing => Action::Connect,
        Phase::Authenticating => Action::Authenticate,
        _ => Action::RunCommand,
    }
}

/// `part` occurs in `s` at some position.
pub open spec fn occurs_in(part: Seq<char>, s: Seq<char>) -> bool {
    exists|i: int| 0 <= i && i + part.len() <= s.len() && #[trigger] s.subrange(i, i + part.len()) == part
}

/// The name of the administrative group.
pub open spec fn admin_group() -> Seq<char> {
    "sudo"@
}

/// Whether the output of `groups` on the host shows the administrative
/// group, by substring match.
pub fn check_privs(groups_output: &str) -> (r: bool)
    ensures
        r == occurs_in(admin_group(), groups_output@),
{
    proof {
        reveal_strlit("sudo");
    }
    assert(admin_group().len() == 4);
    let n = groups_output.unicode_len();
    if n < 4 {
        return false;
    }
    let mut i: usize = 0;
    while i <= n - 4
        invariant
            n == groups_output@.len(),
            n >= 4,
            i <= n - 3,
            forall|k: int|
                0 <= k < i ==> #[trigger] groups_output@.subrange(k, k + 4) != admin_group(),
        decreases n - i,
    {
        if same_text(groups_output.substring_char(i, i + 4), "sudo") {
            assert(groups_output@.subrange(i as int, i + 4) == admin_group());
            return true;
        }
        i = i + 1;
    }
    assert forall|k: int| 0 <= k && k + 4 <= n implies #[trigger] groups_output@.subrange(k, k + 4)
        != admin_group() by {
        assert(k < i);
    }
    false
}

/// The command that reboots a host, where the groups output shows the
/// administrative group; `PermissionDenied` otherwise, and nothing is run.
pub fn reboot(groups_output: &str) -> (r: Result<String, HostError>)
    ensures
        occurs_in(admin_group(), groups_output@) ==> (r matches Ok(c) && c@ == "shutdown -r"@),
        !occurs_in(admin_group(), groups_output@) ==> r == Err::<String, HostError>(
            HostError::PermissionDenied,
        ),
{
    if check_privs(groups_output) {
        Ok(String::from_str("shutdown -r"))
    } else {
        Err(HostError::PermissionDenied)
    }
}

/// The command that shuts a host down, where the groups output shows the
/// administrative group; `PermissionDenied` otherwise, and nothing is run.
pub fn shutdown(groups_output: &str) -> (r: Result<String, HostError>)
    ensures
        occurs_in(admin_group(), groups_output@) ==> (r matches Ok(c) && c@ == "shutdown"@),
        !occurs_in(admin_group(), groups_output@) ==> r == Err::<String, HostError>(
            HostError::PermissionDenied,
        ),
{
    if check_privs(groups_output) {
        Ok(String::from_str("shutdown"))
    } else {
        Err(HostError::PermissionDenied)
    }
}

} // verus!
