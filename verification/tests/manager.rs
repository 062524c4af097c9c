use pgun::config::Service;
use pgun::effect::Effect;
use pgun::manager::{level_of, ConnState, HostAggState, LogLevel, LogStamp, Manager, LOG_CAP};
use pgun::tunnel::{Phase, TunnelEvent};

fn service(name: &str, port: u16) -> Service {
    Service {
        name: name.to_string(),
        port,
        scheme: "http".to_string(),
        path: "/".to_string(),
        local_port: None,
    }
}

fn id(s: &str) -> String {
    s.to_string()
}

fn stamp() -> LogStamp {
    LogStamp { level: LogLevel::Info, timestamp: "12:00:00".to_string() }
}

fn names(effects: &[Effect]) -> Vec<String> {
    effects
        .iter()
        .map(|e| match e {
            Effect::Start(run) => format!("start {}", run.id),
            Effect::Stop(id) => format!("stop {}", id),
            Effect::Open(url) => format!("open {}", url),
            Effect::Save => "save".to_string(),
            Effect::Reload => "reload".to_string(),
        })
        .collect()
}

#[test]
fn states_tell_what_they_are() {
    assert!(ConnState::Connected { local_port: 1 }.is_connected());
    assert!(!ConnState::Connecting.is_connected());
    assert!(ConnState::Connecting.is_transient());
    assert!(ConnState::Disconnecting.is_transient());
    assert!(!ConnState::Failed { reason: "x".to_string() }.is_transient());
    assert!(ConnState::Connecting.is_on());
    assert!(!ConnState::Disconnecting.is_on());
}

#[test]
fn an_unknown_tunnel_is_disconnected() {
    assert_eq!(Manager::new().state_of(&id("a/b")), ConnState::Disconnected);
}

#[test]
fn connecting_starts_a_tunnel_once() {
    let mut m = Manager::new();
    let mut svc = service("db", 5432);
    svc.local_port = Some(4000);
    let effects = m.connect("prod", "alias", &svc);
    match &effects[0] {
        Effect::Start(run) => {
            assert_eq!(run.id, "prod/db");
            assert_eq!(run.ssh_alias, "alias");
            assert_eq!(run.remote_port, 5432);
            assert_eq!(run.local_port, Some(4000));
            assert_eq!(run.phase, Phase::New);
        }
        _ => panic!("nothing was started"),
    }
    assert_eq!(effects.len(), 1);
    assert_eq!(m.state_of(&id("prod/db")), ConnState::Connecting);
    assert!(m.connect("prod", "alias", &svc).is_empty());
}

#[test]
fn disconnecting_is_told_once() {
    let mut m = Manager::new();
    assert!(m.disconnect("prod", "db").is_empty());
    m.connect("prod", "alias", &service("db", 1));
    assert_eq!(names(&m.disconnect("prod", "db")), vec!["stop prod/db"]);
    assert_eq!(m.state_of(&id("prod/db")), ConnState::Disconnecting);
    assert!(m.disconnect("prod", "db").is_empty());
    assert_eq!(m.state_of(&id("prod/db")), ConnState::Disconnecting);
}

#[test]
fn toggling_starts_then_ends_then_waits() {
    let mut m = Manager::new();
    let svc = service("db", 1);
    assert_eq!(names(&m.toggle_service("prod", "alias", &svc)), vec!["start prod/db"]);
    assert_eq!(names(&m.toggle_service("prod", "alias", &svc)), vec!["stop prod/db"]);
    assert!(m.toggle_service("prod", "alias", &svc).is_empty());
    assert_eq!(m.state_of(&id("prod/db")), ConnState::Disconnecting);
    m.apply_event(TunnelEvent::Disconnected { id: id("prod/db") }, stamp());
    assert_eq!(names(&m.toggle_service("prod", "alias", &svc)), vec!["start prod/db"]);
}

#[test]
fn toggling_a_host_takes_all_of_it() {
    let mut m = Manager::new();
    let services = vec![service("a", 1), service("b", 2)];
    assert_eq!(names(&m.toggle_host("h", "x", &services)), vec!["start h/a", "start h/b"]);
    assert_eq!(names(&m.toggle_host("h", "x", &services)), vec!["stop h/a", "stop h/b"]);
    let mut m = Manager::new();
    m.connect("h", "x", &services[1]);
    assert_eq!(names(&m.toggle_host("h", "x", &services)), vec!["stop h/b"]);
    assert_eq!(m.state_of(&id("h/a")), ConnState::Disconnected);
    let mut m = Manager::new();
    assert_eq!(names(&m.connect_all("h", "x", &services)), vec!["start h/a", "start h/b"]);
    assert_eq!(names(&m.disconnect_all("h", &services)), vec!["stop h/a", "stop h/b"]);
}

#[test]
fn reports_become_states() {
    let mut m = Manager::new();
    m.connect("h", "x", &service("a", 1));
    m.apply_event(TunnelEvent::Connecting { id: id("h/a") }, stamp());
    assert_eq!(m.state_of(&id("h/a")), ConnState::Connecting);
    m.apply_event(TunnelEvent::Connected { id: id("h/a"), local_port: 4000 }, stamp());
    assert_eq!(m.state_of(&id("h/a")), ConnState::Connected { local_port: 4000 });
    assert!(m.handles.contains_key("h/a"));
    m.apply_event(
        TunnelEvent::Failed { id: id("h/a"), reason: "ssh exited".to_string() },
        LogStamp { level: LogLevel::Error, timestamp: "t".to_string() },
    );
    assert_eq!(m.state_of(&id("h/a")), ConnState::Failed { reason: "ssh exited".to_string() });
    assert!(!m.handles.contains_key("h/a"));
    assert_eq!(m.logs.len(), 1);
    assert_eq!(m.logs[0].id, "h/a");
    assert_eq!(m.logs[0].line, "failed: ssh exited");
    assert_eq!(m.logs[0].level, LogLevel::Error);
    assert_eq!(m.logs[0].timestamp, "t");
}

#[test]
fn other_tunnels_stay_as_they_were() {
    let mut m = Manager::new();
    m.connect("h", "x", &service("a", 1));
    m.connect("h", "x", &service("b", 2));
    m.apply_event(TunnelEvent::Connected { id: id("h/b"), local_port: 9 }, stamp());
    m.disconnect("h", "a");
    m.apply_event(TunnelEvent::Disconnected { id: id("h/a") }, stamp());
    assert_eq!(m.state_of(&id("h/b")), ConnState::Connected { local_port: 9 });
    assert!(m.handles.contains_key("h/b"));
}

#[test]
fn the_log_keeps_the_last_lines() {
    let mut m = Manager::new();
    for i in 0..LOG_CAP + 3 {
        m.apply_event(TunnelEvent::Log { id: id("h/a"), line: i.to_string() }, stamp());
    }
    assert_eq!(LOG_CAP, 1000);
    assert_eq!(m.logs.len(), LOG_CAP);
    assert_eq!(m.logs[0].line, "3");
    assert_eq!(m.logs[LOG_CAP - 1].line, (LOG_CAP + 2).to_string());
}

#[test]
fn shutting_down_names_each_tunnel_once() {
    let mut m = Manager::new();
    for name in ["a", "b", "c"] {
        m.connect("h", "x", &service(name, 1));
    }
    m.disconnect("h", "b");
    let mut told = m.shutdown_all();
    told.sort();
    assert_eq!(told, vec!["h/a", "h/c"]);
    assert!(m.shutdown_all().is_empty());
    assert_eq!(m.state_of(&id("h/a")), ConnState::Connecting);
    let mut owed = m.await_all();
    owed.sort();
    assert_eq!(owed, vec!["h/a", "h/b", "h/c"]);
    assert!(m.await_all().is_empty());
}

#[test]
fn a_host_is_summed_up() {
    let services = vec![service("a", 1), service("b", 2)];
    let mut m = Manager::new();
    assert_eq!(m.host_aggregate("h", &[]), HostAggState::Empty);
    assert_eq!(m.host_aggregate("h", &services), HostAggState::AllOff);
    let failed = TunnelEvent::Failed { id: id("h/a"), reason: "x".to_string() };
    m.apply_event(failed.clone(), stamp());
    assert_eq!(m.host_aggregate("h", &services), HostAggState::Failed);
    m.apply_event(TunnelEvent::Connected { id: id("h/b"), local_port: 1 }, stamp());
    assert_eq!(m.host_aggregate("h", &services), HostAggState::Mixed);
    m.apply_event(TunnelEvent::Connected { id: id("h/a"), local_port: 2 }, stamp());
    assert_eq!(m.host_aggregate("h", &services), HostAggState::AllOn);
    m.apply_event(TunnelEvent::Connecting { id: id("h/a") }, stamp());
    assert_eq!(m.host_aggregate("h", &services), HostAggState::Transient);
    m.apply_event(failed, stamp());
    m.apply_event(TunnelEvent::Connecting { id: id("h/b") }, stamp());
    assert_eq!(m.host_aggregate("h", &services), HostAggState::Transient);
}

#[test]
fn a_failure_is_an_error() {
    let failed = TunnelEvent::Failed { id: id("h/a"), reason: "x".to_string() };
    assert_eq!(level_of(&failed), LogLevel::Error);
    let line = TunnelEvent::Log { id: id("h/a"), line: "x".to_string() };
    assert_eq!(level_of(&line), LogLevel::Info);
    assert_eq!(level_of(&TunnelEvent::Disconnected { id: id("h/a") }), LogLevel::Info);
}

#[test]
fn failures_and_lines_share_the_log_in_order() {
    let mut m = Manager::new();
    m.apply_event(TunnelEvent::Connecting { id: id("h/a") }, stamp());
    m.apply_event(TunnelEvent::Log { id: id("h/a"), line: "one".to_string() }, stamp());
    m.apply_event(TunnelEvent::Failed { id: id("h/a"), reason: "two".to_string() }, stamp());
    m.apply_event(TunnelEvent::Log { id: id("h/b"), line: "three".to_string() }, stamp());
    let lines: Vec<&str> = m.logs.iter().map(|e| e.line.as_str()).collect();
    assert_eq!(lines, vec!["one", "failed: two", "three"]);
}
