use pgun::config::{Config, Found, Host, Service};
use pgun::effect::Effect;
use pgun::manager::{ConnState, LogLevel, LogStamp};
use pgun::tunnel::TunnelEvent;
use pgun::ui::keys::{handle_key, run_step, KeyCode, KeyEvent, LoopEvent};
use pgun::ui::{App, Modal, Row};
use std::path::PathBuf;

fn service(name: &str, port: u16) -> Service {
    Service {
        name: name.to_string(),
        port,
        scheme: "http".to_string(),
        path: "/".to_string(),
        local_port: None,
    }
}

fn config() -> Config {
    Config {
        hosts: vec![
            Host {
                name: "prod".to_string(),
                ssh: "me@prod".to_string(),
                services: vec![service("grafana", 3000), service("db", 5432)],
            },
            Host {
                name: "dev".to_string(),
                ssh: "dev".to_string(),
                services: vec![service("web", 8080)],
            },
        ],
    }
}

fn program() -> App {
    App::new(config(), PathBuf::from("/tmp/config.toml"))
}

fn stamp() -> LogStamp {
    LogStamp { level: LogLevel::Info, timestamp: "t".to_string() }
}

fn names(effects: Vec<Effect>) -> Vec<String> {
    effects
        .iter()
        .map(|e| match e {
            Effect::Start(run) => format!("start {}", run.id),
            Effect::Stop(id) => format!("stop {}", id),
            Effect::Open(url) => format!("open {}", url),
            Effect::Save => "save".to_string(),
            Effect::Reload => "reload".to_string(),
        })
        .collect()
}

fn press(app: &mut App, code: KeyCode) -> Vec<String> {
    names(handle_key(app, KeyEvent { code, control: false }))
}

fn char(app: &mut App, c: char) -> Vec<String> {
    press(app, KeyCode::Char(c))
}

fn write(app: &mut App, s: &str) {
    for c in s.chars() {
        char(app, c);
    }
}

fn selection(app: &App) -> String {
    match (&app.selection.host, &app.selection.svc) {
        (Some(h), Some(s)) => format!("{}/{}", h, s),
        (Some(h), None) => h.clone(),
        _ => "nothing".to_string(),
    }
}

fn rows(app: &App) -> Vec<String> {
    app.flat_rows()
        .iter()
        .map(|r| match r {
            Row::Host { name, ssh, svc_count, expanded } => {
                format!("{} {} {} {}", name, ssh, svc_count, expanded)
            }
            Row::Service { host, svc_name } => format!("{}/{}", host, svc_name),
        })
        .collect()
}

fn error(app: &App) -> String {
    match &app.modal {
        Modal::Error(e) => e.clone(),
        _ => "no error".to_string(),
    }
}

fn status(app: &App) -> String {
    app.status.clone().unwrap_or_default()
}

fn select(app: &mut App, host: &str, svc: Option<&str>) {
    app.selection.host = Some(host.to_string());
    app.selection.svc = svc.map(|s| s.to_string());
}

#[test]
fn the_first_host_is_selected_and_all_are_expanded() {
    let app = program();
    assert_eq!(selection(&app), "prod");
    assert_eq!(
        rows(&app),
        vec!["prod me@prod 2 true", "prod/grafana", "prod/db", "dev dev 1 true", "dev/web"]
    );
    let empty = App::new(Config::default(), PathBuf::new());
    assert_eq!(selection(&empty), "nothing");
    assert!(rows(&empty).is_empty());
}

#[test]
fn moving_goes_round_and_back() {
    let mut app = program();
    let mut seen = vec![selection(&app)];
    for _ in 0..5 {
        char(&mut app, 'j');
        seen.push(selection(&app));
    }
    assert_eq!(seen, vec!["prod", "prod/grafana", "prod/db", "dev", "dev/web", "prod"]);
    press(&mut app, KeyCode::Up);
    assert_eq!(selection(&app), "dev/web");
    press(&mut app, KeyCode::Down);
    assert_eq!(selection(&app), "prod");
    char(&mut app, 'k');
    char(&mut app, 'k');
    assert_eq!(selection(&app), "dev");
    app.move_selection(1000003);
    app.move_selection(-1000003);
    assert_eq!(selection(&app), "dev");
    app.move_selection(isize::MIN);
    app.move_selection(isize::MAX);
    app.move_selection(1);
    assert_eq!(selection(&app), "dev");
    app.move_selection(5);
    assert_eq!(selection(&app), "dev");
}

#[test]
fn moving_from_nowhere_starts_at_the_first_row() {
    let mut app = program();
    select(&mut app, "gone", None);
    char(&mut app, 'j');
    assert_eq!(selection(&app), "prod/grafana");
    let mut empty = App::new(Config::default(), PathBuf::new());
    char(&mut empty, 'j');
    assert_eq!(selection(&empty), "nothing");
}

#[test]
fn selecting_a_row_finds_it_again() {
    let mut app = program();
    let rows = app.flat_rows();
    for i in 0..rows.len() {
        app.select_index(&rows, i);
        assert_eq!(app.selected_index(&rows), Some(i));
    }
    app.select_index(&rows, rows.len());
    assert_eq!(app.selected_index(&rows), Some(rows.len() - 1));
}

#[test]
fn hosts_collapse_and_expand() {
    let mut app = program();
    press(&mut app, KeyCode::Enter);
    assert_eq!(rows(&app)[0], "prod me@prod 2 false");
    assert_eq!(rows(&app).len(), 3);
    press(&mut app, KeyCode::Enter);
    assert_eq!(rows(&app).len(), 5);
    char(&mut app, 'h');
    assert_eq!(rows(&app).len(), 3);
    char(&mut app, 'l');
    assert_eq!(rows(&app).len(), 5);
    select(&mut app, "prod", Some("db"));
    press(&mut app, KeyCode::Right);
    assert_eq!(selection(&app), "prod/db");
    press(&mut app, KeyCode::Left);
    assert_eq!(selection(&app), "prod");
    assert_eq!(rows(&app).len(), 5);
    press(&mut app, KeyCode::Left);
    assert_eq!(rows(&app).len(), 3);
}

#[test]
fn keys_that_show_also_hide() {
    let mut app = program();
    char(&mut app, 'L');
    assert!(app.show_logs);
    char(&mut app, 'L');
    assert!(!app.show_logs);
    char(&mut app, '?');
    assert!(app.show_help);
    char(&mut app, 'q');
    assert!(!app.show_help);
    assert!(!app.should_quit);
    char(&mut app, 'q');
    assert!(app.should_quit);
}

#[test]
fn toggling_follows_the_cursor() {
    let mut app = program();
    assert_eq!(char(&mut app, 'c'), vec!["start prod/grafana", "start prod/db"]);
    assert_eq!(char(&mut app, 'c'), vec!["stop prod/grafana", "stop prod/db"]);
    select(&mut app, "dev", Some("web"));
    assert_eq!(press(&mut app, KeyCode::Enter), vec!["start dev/web"]);
    assert_eq!(char(&mut app, 'c'), vec!["stop dev/web"]);
    select(&mut app, "dev", Some("gone"));
    assert!(char(&mut app, 'c').is_empty());
    select(&mut app, "gone", None);
    assert!(char(&mut app, 'c').is_empty());
}

#[test]
fn opening_waits_for_the_tunnel() {
    let mut app = program();
    assert!(char(&mut app, 'o').is_empty());
    assert_eq!(status(&app), "select a service to open");
    select(&mut app, "prod", Some("grafana"));
    assert_eq!(char(&mut app, 'o'), vec!["start prod/grafana"]);
    assert_eq!(status(&app), "connecting prod/grafana — will open when ready");
    assert!(char(&mut app, 'o').is_empty());
    assert_eq!(status(&app), "waiting for prod/grafana…");
    let up = TunnelEvent::Connected { id: "prod/grafana".to_string(), local_port: 4000 };
    assert_eq!(
        names(app.handle_tunnel_event(up.clone(), stamp())),
        vec!["open http://127.0.0.1:4000/"]
    );
    app.note_opened("http://127.0.0.1:4000/", None);
    assert_eq!(status(&app), "opening http://127.0.0.1:4000/");
    assert!(names(app.handle_tunnel_event(up, stamp())).is_empty());
    assert_eq!(char(&mut app, 'o'), vec!["open http://127.0.0.1:4000/"]);
    app.note_opened("http://127.0.0.1:4000/", Some("no browser".to_string()));
    assert_eq!(status(&app), "open failed: no browser");
    char(&mut app, 'c');
    assert!(char(&mut app, 'o').is_empty());
    assert_eq!(status(&app), "disconnecting — wait");
}

#[test]
fn a_failed_tunnel_is_told_to_who_waits() {
    let mut app = program();
    select(&mut app, "prod", Some("db"));
    char(&mut app, 'o');
    let failed = TunnelEvent::Failed { id: "prod/db".to_string(), reason: "no route".to_string() };
    assert!(names(app.handle_tunnel_event(failed.clone(), stamp())).is_empty());
    assert_eq!(status(&app), "prod/db failed: no route");
    assert!(!app.pending_opens.contains("prod/db"));
    app.status = None;
    app.handle_tunnel_event(failed, stamp());
    assert_eq!(app.status, None);
}

#[test]
fn a_disconnected_tunnel_is_waited_for_no_more() {
    let mut app = program();
    select(&mut app, "prod", Some("db"));
    char(&mut app, 'o');
    app.handle_tunnel_event(TunnelEvent::Disconnected { id: "prod/db".to_string() }, stamp());
    assert!(!app.pending_opens.contains("prod/db"));
    let up = TunnelEvent::Connected { id: "prod/db".to_string(), local_port: 1 };
    assert!(names(app.handle_tunnel_event(up, stamp())).is_empty());
}

#[test]
fn a_host_with_a_slash_is_not_opened_later() {
    let mut cfg = config();
    cfg.hosts[1].name = "a/b".to_string();
    let mut app = App::new(cfg, PathBuf::new());
    select(&mut app, "a/b", Some("web"));
    assert_eq!(char(&mut app, 'o'), vec!["start a/b/web"]);
    let up = TunnelEvent::Connected { id: "a/b/web".to_string(), local_port: 1 };
    assert!(names(app.handle_tunnel_event(up, stamp())).is_empty());
    assert_eq!(char(&mut app, 'o'), vec!["open http://127.0.0.1:1/"]);
}

#[test]
fn addresses_are_found_by_tunnel() {
    let app = program();
    assert_eq!(
        app.url_for_id(&"dev/web".to_string(), 9),
        Some("http://127.0.0.1:9/".to_string())
    );
    assert_eq!(app.url_for_id(&"dev".to_string(), 9), None);
    assert_eq!(app.url_for_id(&"dev/nope".to_string(), 9), None);
    assert_eq!(app.url_for_id(&"nope/web".to_string(), 9), None);
}

#[test]
fn a_host_is_added() {
    let mut app = program();
    char(&mut app, 'A');
    write(&mut app, " new ");
    press(&mut app, KeyCode::Tab);
    write(&mut app, "me@new");
    assert_eq!(press(&mut app, KeyCode::Enter), vec!["save"]);
    assert!(matches!(app.modal, Modal::Closed));
    assert_eq!(selection(&app), "new");
    assert_eq!(rows(&app)[5], "new me@new 0 true");
}

#[test]
fn the_first_thing_to_add_is_a_host() {
    let mut app = App::new(Config::default(), PathBuf::new());
    char(&mut app, 'a');
    match &app.modal {
        Modal::Form(f) => {
            assert_eq!(f.title, "Add host");
            assert_eq!(f.fields.len(), 2);
            assert_eq!(f.fields[1].placeholder, "ssh-config alias");
        }
        _ => panic!("no form"),
    }
}

#[test]
fn without_a_selected_host_no_service_is_added() {
    let mut app = program();
    app.selection.host = None;
    char(&mut app, 'a');
    assert!(matches!(app.modal, Modal::Closed));
    assert_eq!(status(&app), "no host selected — add a host first (Shift+A)");
}

#[test]
fn a_host_that_is_wrong_is_refused() {
    let mut app = program();
    app.open_add_host();
    assert!(press(&mut app, KeyCode::Enter).is_empty());
    assert_eq!(error(&app), "name and ssh required");
    char(&mut app, 'q');
    assert!(matches!(app.modal, Modal::Closed));
    assert!(!app.should_quit);
    app.open_add_host();
    write(&mut app, "dev");
    press(&mut app, KeyCode::Down);
    write(&mut app, "x");
    press(&mut app, KeyCode::Enter);
    assert_eq!(error(&app), "host 'dev' already exists");
    assert_eq!(app.cfg.hosts.len(), 2);
    assert_eq!(selection(&app), "prod");
}

#[test]
fn a_service_is_added() {
    let mut app = program();
    select(&mut app, "dev", None);
    char(&mut app, 'a');
    match &app.modal {
        Modal::Form(f) => assert_eq!(f.title, "Add service to dev"),
        _ => panic!("no form"),
    }
    write(&mut app, "mail");
    press(&mut app, KeyCode::Tab);
    write(&mut app, "+25");
    press(&mut app, KeyCode::Tab);
    for _ in 0..5 {
        press(&mut app, KeyCode::Backspace);
    }
    press(&mut app, KeyCode::Tab);
    handle_key(&mut app, KeyEvent { code: KeyCode::Char('u'), control: true });
    assert_eq!(press(&mut app, KeyCode::Enter), vec!["save"]);
    let added = &app.cfg.hosts[1].services[1];
    assert_eq!(added.name, "mail");
    assert_eq!(added.port, 25);
    assert_eq!(added.scheme, "http");
    assert_eq!(added.path, "/");
    assert_eq!(added.local_port, None);
    assert_eq!(selection(&app), "dev/mail");
}

#[test]
fn a_service_that_is_wrong_is_refused() {
    let mut app = program();
    assert_eq!(app.add_service("dev", "", "1", "", "").unwrap_err(), "name required");
    assert_eq!(
        app.add_service("dev", "x", "65536", "", "").unwrap_err(),
        "port must be 1..=65535"
    );
    assert_eq!(app.add_service("dev", "x", "", "", "").unwrap_err(), "port must be 1..=65535");
    assert_eq!(app.add_service("dev", "x", "0", "", "").unwrap_err(), "port must be > 0");
    assert_eq!(app.add_service("gone", "x", "1", "", "").unwrap_err(), "host vanished");
    assert_eq!(
        app.add_service("dev", "web", "1", "", "").unwrap_err(),
        "service 'web' already exists in dev"
    );
    assert_eq!(app.cfg.hosts[1].services.len(), 1);
}

#[test]
fn a_host_is_edited_in_place() {
    let mut app = program();
    char(&mut app, 'e');
    match &app.modal {
        Modal::Form(f) => {
            assert_eq!(f.title, "Edit host prod");
            assert_eq!(f.fields[0].value, "prod");
            assert_eq!(f.fields[1].value, "me@prod");
        }
        _ => panic!("no form"),
    }
    write(&mut app, "2");
    assert_eq!(press(&mut app, KeyCode::Enter), vec!["save"]);
    assert_eq!(rows(&app)[0], "prod2 me@prod 2 true");
    assert!(!app.expanded.contains("prod"));
    assert_eq!(selection(&app), "prod2");
    assert_eq!(
        app.edit_host("prod2", "dev", "x").unwrap_err(),
        "host 'dev' already exists"
    );
    assert_eq!(app.edit_host("gone", "x", "x").unwrap_err(), "host vanished");
    assert_eq!(app.edit_host("prod2", "", "x").unwrap_err(), "name and ssh required");
}

#[test]
fn editing_a_service_ends_its_tunnel() {
    let mut cfg = config();
    cfg.hosts[1].services[0].local_port = Some(8081);
    let mut app = App::new(cfg, PathBuf::new());
    select(&mut app, "dev", Some("web"));
    char(&mut app, 'c');
    char(&mut app, 'e');
    match &app.modal {
        Modal::Form(f) => {
            assert_eq!(f.title, "Edit dev/web");
            assert_eq!(f.fields[1].value, "8080");
        }
        _ => panic!("no form"),
    }
    press(&mut app, KeyCode::Down);
    write(&mut app, "1");
    press(&mut app, KeyCode::Enter);
    assert_eq!(error(&app), "port must be 1..=65535");
    press(&mut app, KeyCode::Esc);
    char(&mut app, 'e');
    press(&mut app, KeyCode::Down);
    press(&mut app, KeyCode::Backspace);
    assert_eq!(press(&mut app, KeyCode::Enter), vec!["stop dev/web", "save"]);
    assert_eq!(app.cfg.hosts[1].services[0].port, 808);
    assert_eq!(app.cfg.hosts[1].services[0].local_port, Some(8081));
    assert_eq!(app.mgr.state_of(&"dev/web".to_string()), ConnState::Disconnecting);
}

#[test]
fn a_service_edit_that_is_wrong_is_refused() {
    let mut app = program();
    assert_eq!(app.edit_service("prod", "db", "", "1", "", "").unwrap_err(), "name required");
    assert_eq!(
        app.edit_service("prod", "db", "grafana", "1", "", "").unwrap_err(),
        "service 'grafana' already exists in prod"
    );
    assert_eq!(
        app.edit_service("prod", "gone", "x", "1", "", "").unwrap_err(),
        "service vanished"
    );
    assert_eq!(app.edit_service("gone", "db", "x", "1", "", "").unwrap_err(), "host vanished");
    assert_eq!(
        app.edit_service("prod", "db", "db", "0", "", "").unwrap_err(),
        "port must be > 0"
    );
}

#[test]
fn an_edit_that_changes_nothing_changes_nothing() {
    let before = format!("{:?}", config());
    let mut app = program();
    for (host, svc) in [("prod", None), ("prod", Some("db")), ("dev", Some("web"))] {
        select(&mut app, host, svc);
        let was = selection(&app);
        char(&mut app, 'e');
        assert_eq!(press(&mut app, KeyCode::Enter), vec!["save"]);
        assert_eq!(format!("{:?}", app.cfg), before);
        assert_eq!(selection(&app), was);
    }
}

#[test]
fn an_edit_trims_what_had_white_space() {
    let mut cfg = config();
    cfg.hosts[0].name = " prod".to_string();
    let mut app = App::new(cfg, PathBuf::new());
    char(&mut app, 'e');
    press(&mut app, KeyCode::Enter);
    assert_eq!(app.cfg.hosts[0].name, "prod");
}

#[test]
fn what_is_deleted_is_gone() {
    let mut app = program();
    select(&mut app, "prod", Some("db"));
    char(&mut app, 'c');
    char(&mut app, 'd');
    match &app.modal {
        Modal::Confirm(c) => assert_eq!(c.message, "Delete service 'prod/db'? (y/n)"),
        _ => panic!("no question"),
    }
    char(&mut app, 'x');
    assert!(matches!(app.modal, Modal::Confirm(_)));
    char(&mut app, 'n');
    assert!(matches!(app.modal, Modal::Closed));
    assert_eq!(app.cfg.hosts[0].services.len(), 2);
    char(&mut app, 'd');
    assert_eq!(char(&mut app, 'y'), vec!["stop prod/db", "save"]);
    assert!(app.cfg.lookup("prod", "db").is_none());
    assert!(app.cfg.lookup("prod", "grafana").is_some());
    assert_eq!(selection(&app), "prod");
    char(&mut app, 'd');
    match &app.modal {
        Modal::Confirm(c) => assert_eq!(c.message, "Delete host 'prod' and 1 service(s)? (y/n)"),
        _ => panic!("no question"),
    }
    assert_eq!(char(&mut app, 'Y'), vec!["save"]);
    assert_eq!(app.cfg.find_host("prod"), None);
    assert_eq!(selection(&app), "dev");
    assert!(!app.expanded.contains("prod"));
    select(&mut app, "gone", None);
    char(&mut app, 'd');
    match &app.modal {
        Modal::Confirm(c) => assert_eq!(c.message, "Delete host 'gone' and 0 service(s)? (y/n)"),
        _ => panic!("no question"),
    }
    press(&mut app, KeyCode::Esc);
    select(&mut app, "dev", None);
    char(&mut app, 'd');
    char(&mut app, 'y');
    assert_eq!(selection(&app), "nothing");
}

#[test]
fn form_keys_move_and_write() {
    let mut app = program();
    app.open_add_host();
    press(&mut app, KeyCode::BackTab);
    write(&mut app, "ab");
    press(&mut app, KeyCode::Backspace);
    press(&mut app, KeyCode::Tab);
    press(&mut app, KeyCode::Up);
    press(&mut app, KeyCode::Other);
    handle_key(&mut app, KeyEvent { code: KeyCode::Char('x'), control: true });
    match &app.modal {
        Modal::Form(f) => {
            assert_eq!(f.focus, 1);
            assert_eq!(f.fields[1].value, "ax");
            assert_eq!(f.fields[0].value, "");
        }
        _ => panic!("no form"),
    }
    handle_key(&mut app, KeyEvent { code: KeyCode::Char('U'), control: true });
    press(&mut app, KeyCode::Backspace);
    write(&mut app, "U");
    match &app.modal {
        Modal::Form(f) => assert_eq!(f.fields[1].value, "U"),
        _ => panic!("no form"),
    }
    press(&mut app, KeyCode::Esc);
    assert!(matches!(app.modal, Modal::Closed));
}

#[test]
fn a_reload_ends_the_old_tunnels() {
    let mut app = program();
    assert_eq!(char(&mut app, 'r'), vec!["reload"]);
    char(&mut app, 'c');
    select(&mut app, "dev", None);
    char(&mut app, 'c');
    let mut next = config();
    next.hosts.remove(0);
    assert_eq!(
        names(app.reload("/x", Found::Parsed(next))),
        vec!["stop prod/grafana", "stop prod/db", "stop dev/web"]
    );
    assert_eq!(app.cfg.hosts.len(), 1);
    assert_eq!(status(&app), "config reloaded");
    assert_eq!(app.mgr.state_of(&"prod/db".to_string()), ConnState::Disconnecting);
}

#[test]
fn a_reload_that_fails_changes_nothing() {
    let mut app = program();
    char(&mut app, 'c');
    assert!(names(app.reload("/x", Found::Unparsable)).is_empty());
    assert_eq!(status(&app), "reload failed: parse /x");
    assert!(names(app.reload("/x", Found::Unreadable)).is_empty());
    assert_eq!(status(&app), "reload failed: read /x");
    let mut bad = config();
    bad.hosts[0].services[0].port = 0;
    app.reload("/x", Found::Parsed(bad));
    assert_eq!(status(&app), "reload failed: invalid port for service 'grafana'");
    assert_eq!(app.cfg.hosts.len(), 2);
    assert_eq!(app.mgr.state_of(&"prod/db".to_string()), ConnState::Connecting);
    app.reload("/x", Found::Missing);
    assert!(app.cfg.hosts.is_empty());
}

#[test]
fn a_save_that_fails_is_told() {
    let mut app = program();
    app.save_config(None);
    assert_eq!(app.status, None);
    app.save_config(Some("write /x".to_string()));
    assert_eq!(status(&app), "save failed: write /x");
}

#[test]
fn the_main_loop_ends_by_q_or_with_the_input() {
    let mut app = program();
    let quiet = |r: (bool, Vec<Effect>)| (r.0, names(r.1));
    assert_eq!(quiet(run_step(&mut app, LoopEvent::Tick)), (true, vec![]));
    assert_eq!(quiet(run_step(&mut app, LoopEvent::OtherInput)), (true, vec![]));
    assert_eq!(quiet(run_step(&mut app, LoopEvent::InputEnded)), (false, vec![]));
    let c = KeyEvent { code: KeyCode::Char('c'), control: false };
    assert_eq!(
        quiet(run_step(&mut app, LoopEvent::Press(c))),
        (true, vec!["start prod/grafana".to_string(), "start prod/db".to_string()])
    );
    let ev = TunnelEvent::Log { id: "prod/db".to_string(), line: "hi".to_string() };
    assert_eq!(quiet(run_step(&mut app, LoopEvent::Tunnel(ev, stamp()))), (true, vec![]));
    assert_eq!(app.mgr.logs[0].line, "hi");
    let q = KeyEvent { code: KeyCode::Char('q'), control: false };
    assert_eq!(quiet(run_step(&mut app, LoopEvent::Press(q))), (false, vec![]));
}

#[test]
fn a_form_with_more_fields_is_read_by_the_first() {
    let mut app = program();
    app.open_add_host();
    if let Modal::Form(f) = &mut app.modal {
        f.fields[0].value = "new".to_string();
        f.fields[1].value = "me@new".to_string();
        f.fields.push(pgun::ui::Field {
            label: "more".to_string(),
            value: "x".to_string(),
            placeholder: String::new(),
        });
    }
    assert_eq!(names(app.submit_form()), vec!["save"]);
    assert_eq!(selection(&app), "new");
}
