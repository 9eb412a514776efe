use rman::all::{self, run_host_cmd, status_counts, AllCommand};
use rman::error::HostError;
use rman::host::{self, status_probes, Host, HostCommand};
use rman::ssh_con::{check_privs, reboot, shutdown, Action, Event, Phase, Session, MAX_ATTEMPTS};

fn args(words: &[&str]) -> Vec<String> {
    words.iter().map(|w| w.to_string()).collect()
}

fn hosts3() -> Vec<Host> {
    vec![
        Host::new("web1", "10.0.0.1", "ops", "/k", ""),
        Host::new("web2", "10.0.0.2", "ops", "/k", ""),
        Host::new("web3", "10.0.0.3", "ops", "/k", ""),
    ]
}

/// Drives a session against scripted transport results.
fn drive(mut session: Session, mut action: Action, connects: &[bool], auths: &[bool], output: Option<&str>) -> Action {
    let mut c = 0;
    let mut a = 0;
    let mut steps = 0;
    loop {
        steps += 1;
        assert!(steps < 20);
        let event = match action {
            Action::Connect => {
                c += 1;
                Event::Connect(connects[c - 1])
            }
            Action::Authenticate => {
                a += 1;
                Event::Auth(auths[a - 1])
            }
            Action::RunCommand => Event::Output(output.map(|s| s.to_string())),
            other => return other,
        };
        let (next, act) = session.step(event);
        session = next;
        action = act;
        if session.is_finished() {
            return action;
        }
    }
}

fn finished_text(a: Action) -> String {
    match a {
        Action::Finish(Ok(s)) => s,
        _ => panic!("expected a text result"),
    }
}

#[test]
fn report_keeps_registry_order_past_an_unreachable_host() {
    let hosts = hosts3();
    let (s, a) = Session::start();
    let out1 = finished_text(drive(s, a, &[true], &[true], Some("up 1 day\n")));
    let (s, a) = Session::start();
    let out2 = finished_text(drive(s, a, &[false, false, false], &[], None));
    let (s, a) = Session::start();
    let out3 = finished_text(drive(s, a, &[false, true], &[false, true], Some("up 3 days\n")));
    assert_eq!(out2, "Host cannot be reached.");
    let report = run_host_cmd(&hosts, &vec![out1, out2, out3]);
    assert_eq!(
        report,
        "web1:\nup 1 day\n\nweb2:\nHost cannot be reached.\nweb3:\nup 3 days\n\n"
    );
}

#[test]
fn report_of_no_hosts_is_empty() {
    assert_eq!(run_host_cmd(&Vec::new(), &Vec::new()), "");
}

#[test]
fn connect_gives_up_after_three_failures() {
    assert_eq!(MAX_ATTEMPTS, 3);
    let (s, a) = Session::start();
    assert!(matches!(a, Action::Connect));
    let (s, a) = s.step(Event::Connect(false));
    assert!(matches!(a, Action::Connect));
    assert_eq!(s.connect_failures, 1);
    let (s, a) = s.step(Event::Connect(false));
    assert!(matches!(a, Action::Connect));
    let (s, a) = s.step(Event::Connect(false));
    assert_eq!(s.phase, Phase::Finished);
    assert_eq!(finished_text(a), "Host cannot be reached.");
}

#[test]
fn authentication_gives_up_after_three_failures() {
    let (s, a) = Session::start();
    let result = drive(s, a, &[true], &[false, false, false], None);
    assert_eq!(finished_text(result), "Failed to open key.");
}

#[test]
fn output_is_returned_verbatim() {
    let (s, a) = Session::start();
    let result = drive(s, a, &[true], &[true], Some("line\n\n"));
    assert_eq!(finished_text(result), "line\n\n");
}

#[test]
fn transport_fault_after_auth_is_an_error() {
    let (s, a) = Session::start();
    let result = drive(s, a, &[true], &[true], None);
    assert!(matches!(result, Action::Finish(Err(HostError::RemoteExecutionError))));
}

#[test]
fn out_of_phase_event_repeats_the_action() {
    let (s, _) = Session::start();
    let (t, a) = s.step(Event::Auth(true));
    assert_eq!(t, s);
    assert!(matches!(a, Action::Connect));
}

#[test]
fn probe_reports_reachability() {
    let (s, a) = Session::start_probe();
    assert!(matches!(drive(s, a, &[false, true], &[], None), Action::Reached(true)));
    let (s, a) = Session::start_probe();
    assert!(matches!(drive(s, a, &[false, false, false], &[], None), Action::Reached(false)));
}

#[test]
fn status_counts_reachable_hosts() {
    assert_eq!(status_counts(&vec![true, false, true]), (3, 2));
    assert_eq!(status_counts(&Vec::new()), (0, 0));
}

#[test]
fn sudo_membership_by_substring() {
    assert!(check_privs("ops adm sudo docker\n"));
    assert!(check_privs("sudo"));
    assert!(!check_privs("ops adm\n"));
    assert!(!check_privs("sud"));
    assert!(!check_privs(""));
}

#[test]
fn privileged_commands_need_sudo() {
    assert_eq!(reboot("ops sudo"), Ok("shutdown -r".to_string()));
    assert_eq!(shutdown("ops sudo"), Ok("shutdown".to_string()));
    assert_eq!(reboot("ops"), Err(HostError::PermissionDenied));
    assert_eq!(shutdown("wheel"), Err(HostError::PermissionDenied));
}

#[test]
fn host_status_probes() {
    assert_eq!(status_probes(), vec!["uptime", "df -h /", "iostat | head -n 4"]);
}

#[test]
fn host_args_add_with_and_without_description() {
    match host::base(args(&["rman", "host", "add", "web1", "ops", "/k", "10.0.0.1", "front"])) {
        HostCommand::Add(h) => {
            assert_eq!(h.alias, "web1");
            assert_eq!(h.ssh_user, "ops");
            assert_eq!(h.pk_path, "/k");
            assert_eq!(h.ip, "10.0.0.1");
            assert_eq!(h.description, "front");
        }
        _ => panic!("expected add"),
    }
    match host::base(args(&["rman", "host", "add", "web1", "ops", "/k", "10.0.0.1"])) {
        HostCommand::Add(h) => assert_eq!(h.description, ""),
        _ => panic!("expected add"),
    }
    assert!(matches!(host::base(args(&["rman", "host", "add", "web1", "ops"])), HostCommand::Help));
}

#[test]
fn host_args_other_commands() {
    assert!(matches!(host::base(args(&["rman", "host"])), HostCommand::Help));
    assert!(matches!(host::base(args(&["rman", "host", "ls"])), HostCommand::Ls));
    assert!(matches!(host::base(args(&["rman", "host", "del", "web1"])), HostCommand::Del { alias } if alias == "web1"));
    assert!(matches!(host::base(args(&["rman", "host", "del"])), HostCommand::Help));
    assert!(matches!(host::base(args(&["rman", "host", "status", "db1"])), HostCommand::Status { alias } if alias == "db1"));
    assert!(matches!(host::base(args(&["rman", "host", "reboot", "db1"])), HostCommand::Reboot { alias } if alias == "db1"));
    assert!(matches!(host::base(args(&["rman", "host", "shutdown", "db1"])), HostCommand::Shutdown { alias } if alias == "db1"));
    assert!(matches!(host::base(args(&["rman", "host", "frobnicate"])), HostCommand::Help));
    match host::base(args(&["rman", "host", "exec", "web1", "df", "-h"])) {
        HostCommand::Exec { alias, cmd } => {
            assert_eq!(alias, "web1");
            assert_eq!(cmd, "df -h ");
        }
        _ => panic!("expected exec"),
    }
    assert!(matches!(host::base(args(&["rman", "host", "exec", "web1"])), HostCommand::Exec { alias, cmd } if alias == "web1" && cmd.is_empty()));
    assert!(matches!(host::base(args(&["rman", "host", "exec"])), HostCommand::Help));
}

#[test]
fn all_args() {
    assert!(matches!(all::base(args(&["rman", "all"])), AllCommand::Help));
    assert!(matches!(all::base(args(&["rman", "all", "status"])), AllCommand::Run(c) if c == "uptime"));
    assert!(matches!(all::base(args(&["rman", "all", "exec", "ls", "/tmp"])), AllCommand::Run(c) if c == "ls /tmp "));
    assert!(matches!(all::base(args(&["rman", "all", "exec"])), AllCommand::Run(c) if c.is_empty()));
    assert!(matches!(all::base(args(&["rman", "all", "other"])), AllCommand::Help));
}

#[test]
fn error_messages_name_the_sentinels() {
    assert_eq!(HostError::HostUnreachable.message(), "Host cannot be reached.");
    assert_eq!(HostError::AuthFailed.message(), "Failed to open key.");
    assert_eq!(HostError::NotFound.message(), "Host not found.");
    assert_eq!(HostError::PermissionDenied.message(), "User lacks privileges to execute this command.");
}
