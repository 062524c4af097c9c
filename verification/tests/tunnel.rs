use pgun::text::split_once;
use pgun::tunnel::{
    dial_host, make_id, ready_deadline, spawn_tunnel, ssh_args, ssh_program, wait_ready, Action,
    Input, Phase, ReadySign, ReadyStep, TunnelEvent, TunnelHandle, TunnelRun,
};

fn run(local_port: Option<u16>) -> TunnelRun {
    let (_, run) = spawn_tunnel("prod/db".to_string(), "alias".to_string(), 5432, local_port);
    run
}

fn event(ev: &TunnelEvent) -> String {
    match ev {
        TunnelEvent::Connecting { id } => format!("{} connecting", id),
        TunnelEvent::Connected { id, local_port } => format!("{} connected {}", id, local_port),
        TunnelEvent::Failed { id, reason } => format!("{} failed: {}", id, reason),
        TunnelEvent::Disconnected { id } => format!("{} disconnected", id),
        TunnelEvent::Log { id, line } => format!("{} log: {}", id, line),
    }
}

fn said(actions: Vec<Action>) -> Vec<String> {
    actions
        .iter()
        .map(|a| match a {
            Action::Emit(ev) => event(ev),
            Action::PickPort { address } => format!("pick {}", address),
            Action::Spawn { program, args } => format!("spawn {} {}", program, args.join(" ")),
            Action::Watch(p) => format!("watch {}", p),
            Action::Guard => "guard".to_string(),
            Action::Kill => "kill".to_string(),
        })
        .collect()
}

fn waiting() -> TunnelRun {
    let mut r = run(None);
    r.advance(Input::Start);
    r.advance(Input::PortPicked(40000));
    r.advance(Input::Spawned);
    r
}

fn up() -> TunnelRun {
    let mut r = waiting();
    r.advance(Input::Ready);
    r
}

#[test]
fn id_is_host_slash_service() {
    assert_eq!(make_id("prod", "db"), "prod/db");
    assert_eq!(split_once("prod/db", '/'), Some(("prod".to_string(), "db".to_string())));
}

#[test]
fn id_of_a_host_with_a_slash_cuts_elsewhere() {
    assert_eq!(make_id("a/b", "c"), make_id("a", "b/c"));
    assert_eq!(split_once(&make_id("a/b", "c"), '/'), Some(("a".to_string(), "b/c".to_string())));
}

#[test]
fn ssh_forwards_on_loopback() {
    assert_eq!(
        ssh_args("alias", 40000, 5432).join(" "),
        "-N -o BatchMode=yes -o ExitOnForwardFailure=yes -o ServerAliveInterval=30 \
         -o ServerAliveCountMax=3 -L 127.0.0.1:40000:127.0.0.1:5432 alias"
    );
}

#[test]
fn a_tunnel_goes_up_and_is_cancelled() {
    let mut r = run(None);
    assert_eq!(said(r.advance(Input::Start)), vec!["prod/db connecting", "pick 127.0.0.1:0"]);
    assert_eq!(r.phase, Phase::Picking);
    assert_eq!(
        said(r.advance(Input::PortPicked(40000))),
        vec![format!("spawn ssh {}", ssh_args("alias", 40000, 5432).join(" "))]
    );
    assert_eq!(said(r.advance(Input::Spawned)), vec!["watch 40000"]);
    assert_eq!(said(r.advance(Input::Ready)), vec!["prod/db connected 40000", "guard"]);
    assert_eq!(r.phase, Phase::Up { local_port: 40000 });
    assert_eq!(said(r.advance(Input::Cancelled)), vec!["kill", "prod/db disconnected"]);
    assert_eq!(r.phase, Phase::Ended);
}

#[test]
fn a_pinned_port_is_used_without_looking_for_one() {
    let mut r = run(Some(3000));
    assert_eq!(
        said(r.advance(Input::Start)),
        vec![
            "prod/db connecting".to_string(),
            format!("spawn ssh {}", ssh_args("alias", 3000, 5432).join(" "))
        ]
    );
    r.advance(Input::Spawned);
    assert_eq!(said(r.advance(Input::Ready)), vec!["prod/db connected 3000", "guard"]);
}

#[test]
fn every_way_to_fail_is_told() {
    let mut r = run(None);
    r.advance(Input::Start);
    assert_eq!(
        said(r.advance(Input::PortFailed("none free".to_string()))),
        vec!["prod/db failed: port alloc: none free"]
    );
    let mut r = run(Some(1));
    r.advance(Input::Start);
    assert_eq!(
        said(r.advance(Input::SpawnFailed("no ssh".to_string()))),
        vec!["prod/db failed: spawn ssh: no ssh"]
    );
    assert_eq!(
        said(waiting().advance(Input::NotReady("too late".to_string()))),
        vec!["kill", "prod/db failed: too late"]
    );
    assert_eq!(
        said(waiting().advance(Input::Exited { success: true, status: "exit 0".to_string() })),
        vec!["prod/db failed: ssh exited early: exit 0"]
    );
    assert_eq!(
        said(waiting().advance(Input::WaitFailed("io".to_string()))),
        vec!["prod/db failed: ssh wait: io"]
    );
    assert_eq!(
        said(up().advance(Input::Exited { success: true, status: "exit 0".to_string() })),
        vec!["prod/db failed: ssh exited"]
    );
    assert_eq!(
        said(up().advance(Input::Exited { success: false, status: "exit 255".to_string() })),
        vec!["prod/db failed: ssh exited: exit 255"]
    );
    assert_eq!(
        said(up().advance(Input::WaitFailed("io".to_string()))),
        vec!["prod/db failed: ssh wait: io"]
    );
}

#[test]
fn cancelling_while_waiting_kills_and_disconnects() {
    let mut r = waiting();
    assert_eq!(said(r.advance(Input::Cancelled)), vec!["kill", "prod/db disconnected"]);
    assert_eq!(r.phase, Phase::Ended);
}

#[test]
fn what_cannot_happen_changes_nothing() {
    let mut r = run(None);
    assert!(r.advance(Input::Ready).is_empty());
    assert_eq!(r.phase, Phase::New);
    let mut r = up();
    assert!(r.advance(Input::Ready).is_empty());
    assert!(r.advance(Input::Start).is_empty());
    assert_eq!(r.phase, Phase::Up { local_port: 40000 });
    r.advance(Input::Cancelled);
    assert!(r.advance(Input::Cancelled).is_empty());
    assert!(r.advance(Input::Start).is_empty());
}

#[test]
fn a_handle_is_used_up_once() {
    let (mut h, _) = spawn_tunnel("a/b".to_string(), "x".to_string(), 1, None);
    assert_eq!(h, TunnelHandle { cancel: true, task: true });
    assert!(h.shutdown());
    assert!(!h.shutdown());
    assert!(h.wait());
    assert!(!h.wait());
    assert_eq!(h, TunnelHandle { cancel: false, task: false });
}

#[test]
fn waiting_for_the_port_ends_at_the_deadline() {
    let deadline = ready_deadline(1000);
    assert_eq!(deadline, 9000);
    match wait_ready(4000, deadline, ReadySign::Clock(8999)) {
        ReadyStep::Connect { host, port, timeout_ms } => {
            assert_eq!((host.as_str(), port, timeout_ms), ("127.0.0.1", 4000, 500));
        }
        _ => panic!("no attempt is made"),
    }
    assert!(matches!(
        wait_ready(4000, deadline, ReadySign::Attempt(false)),
        ReadyStep::Rest { ms: 50 }
    ));
    assert!(matches!(wait_ready(4000, deadline, ReadySign::Rested), ReadyStep::ReadClock));
    assert!(matches!(wait_ready(4000, deadline, ReadySign::Attempt(true)), ReadyStep::Answered));
    match wait_ready(4000, deadline, ReadySign::Clock(9000)) {
        ReadyStep::TimedOut(e) => assert_eq!(e, "readiness timeout after 8s"),
        _ => panic!("the wait goes on"),
    }
}

#[test]
fn lines_that_ssh_writes_are_reported_once_it_runs() {
    let line = || Input::Line("hello".to_string());
    let mut r = run(None);
    assert!(r.advance(line()).is_empty());
    r.advance(Input::Start);
    assert!(r.advance(line()).is_empty());
    let mut r = waiting();
    assert_eq!(said(r.advance(line())), vec!["prod/db log: hello"]);
    assert_eq!(r.phase, Phase::Waiting { local_port: 40000 });
    let mut r = up();
    assert_eq!(said(r.advance(line())), vec!["prod/db log: hello"]);
    assert_eq!(r.phase, Phase::Up { local_port: 40000 });
    r.advance(Input::Cancelled);
    assert_eq!(said(r.advance(line())), vec!["prod/db log: hello"]);
    assert_eq!(r.phase, Phase::Ended);
}

#[test]
fn the_program_and_the_address_are_named() {
    assert_eq!(ssh_program(), "ssh");
    assert_eq!(dial_host(), "127.0.0.1");
}
