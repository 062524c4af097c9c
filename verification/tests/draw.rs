use pgun::config::{Config, Host, Service};
use pgun::manager::{ConnState, HostAggState, LogLevel, LogStamp};
use pgun::tunnel::TunnelEvent;
use pgun::ui::draw::{
    centered, draw, draw_form, draw_in_rows, host_agg_icon, service_icon, Body, Color, Line, Panel,
    Rect, Style,
};
use pgun::ui::{App, Modal};
use std::path::PathBuf;

fn service(name: &str, port: u16) -> Service {
    Service {
        name: name.to_string(),
        port,
        scheme: "http".to_string(),
        path: "/".to_string(),
        local_port: None,
    }
}

fn program() -> App {
    let cfg = Config {
        hosts: vec![
            Host {
                name: "prod".to_string(),
                ssh: "me@prod".to_string(),
                services: vec![service("grafana", 3000), service("db", 5432)],
            },
            Host { name: "dev".to_string(), ssh: "dev".to_string(), services: vec![] },
        ],
    };
    App::new(cfg, PathBuf::new())
}

fn area(width: u16, height: u16) -> Rect {
    Rect { x: 0, y: 0, width, height }
}

fn plain(fg: Option<Color>) -> Style {
    Style { fg, bg: None, bold: false }
}

fn text(l: &Line) -> String {
    l.spans.iter().map(|s| s.text.clone()).collect::<Vec<_>>().concat()
}

fn texts(p: &Panel) -> Vec<String> {
    match &p.body {
        Body::Items(items) => items.iter().map(|i| text(&i.line)).collect(),
        Body::Lines(lines) => lines.iter().map(text).collect(),
        Body::Text(s) => vec![s.clone()],
    }
}

fn titles(panels: &[Panel]) -> Vec<String> {
    panels.iter().map(|p| p.title.clone().unwrap_or_default()).collect()
}

fn inside(r: Rect, outer: Rect) -> bool {
    r.x >= outer.x
        && r.y >= outer.y
        && r.x as u32 + r.width as u32 <= outer.x as u32 + outer.width as u32
        && r.y as u32 + r.height as u32 <= outer.y as u32 + outer.height as u32
}

#[test]
fn the_tree_and_the_bottom_line_share_the_terminal() {
    let app = program();
    let panels = draw(&app, area(80, 24));
    assert_eq!(titles(&panels), vec!["tunnels", ""]);
    assert_eq!(panels[0].area, area(80, 23));
    assert_eq!(panels[1].area, Rect { x: 0, y: 23, width: 80, height: 1 });
}

#[test]
fn the_log_comes_between() {
    let mut app = program();
    app.show_logs = true;
    let panels = draw(&app, area(80, 24));
    assert_eq!(titles(&panels), vec!["tunnels", "logs (L to hide)", ""]);
    assert_eq!(panels[0].area, area(80, 14));
    assert_eq!(panels[1].area, Rect { x: 0, y: 14, width: 80, height: 9 });
    assert_eq!(panels[2].area, Rect { x: 0, y: 23, width: 80, height: 1 });
    assert_eq!(panels[1].wrap, Some(false));
}

#[test]
fn every_panel_lies_inside_and_the_bottom_line_is_one_line() {
    let mut app = program();
    app.open_add_host();
    app.show_help = true;
    for logs in [false, true] {
        app.show_logs = logs;
        for height in (0..=120).chain([1000, 32766, 32767, 32768, 65535]) {
            for (x, width) in [(0u16, 0u16), (0, 1), (0, 80), (65000, 535)] {
                let size = Rect { x, y: 0, width, height };
                let panels = draw(&app, size);
                assert_eq!(panels.len(), if logs { 5 } else { 4 });
                for p in &panels {
                    assert!(inside(p.area, size), "{:?} in {:?}", p.area, size);
                }
                let bottom = &panels[if logs { 2 } else { 1 }];
                assert_eq!((bottom.area.x, bottom.area.width), (x, width));
                if height >= if logs { 6 } else { 1 } && height <= 32767 {
                    assert_eq!(bottom.area.height, 1, "{:?}", size);
                    if logs {
                        assert!(panels[1].area.height >= 5, "{:?}", size);
                    }
                }
            }
        }
        for y in 0..40u16 {
            let size = Rect { x: 3, y, width: 80, height: 24 };
            for p in draw(&app, size) {
                assert!(inside(p.area, size), "{:?} in {:?}", p.area, size);
            }
        }
    }
}

#[test]
fn each_row_has_its_line() {
    let mut app = program();
    let up = TunnelEvent::Connected { id: "prod/db".to_string(), local_port: 4000 };
    app.handle_tunnel_event(
        up,
        LogStamp { level: LogLevel::Info, timestamp: "t".to_string() },
    );
    let panels = draw(&app, area(80, 24));
    assert_eq!(
        texts(&panels[0]),
        vec![
            "▾ ◐  prod  [me@prod]  (2)",
            "    ○  grafana :3000",
            "    ●  db :5432 → 127.0.0.1:4000",
            "▾ ○  dev  [dev]  (0)",
        ]
    );
    match &panels[0].body {
        Body::Items(items) => {
            assert_eq!(
                items[0].style,
                Style { fg: None, bg: Some(Color::DarkGray), bold: true }
            );
            for item in &items[1..] {
                assert_eq!(item.style, plain(None));
            }
            assert_eq!(items[0].line.spans[1].style, plain(Some(Color::Yellow)));
            assert_eq!(items[2].line.spans[1].style, plain(Some(Color::Green)));
            assert_eq!(items[2].line.spans[4].style, plain(Some(Color::Yellow)));
            assert_eq!(items[3].line.spans[1].style, plain(Some(Color::DarkGray)));
        }
        _ => panic!("no list"),
    }
}

#[test]
fn a_collapsed_host_points_to_the_right() {
    let mut app = program();
    app.enter_current();
    let panels = draw(&app, area(80, 24));
    assert_eq!(texts(&panels[0])[0], "▸ ○  prod  [me@prod]  (2)");
    assert_eq!(texts(&panels[0]).len(), 2);
}

#[test]
fn icons_tell_states_apart() {
    assert_eq!(host_agg_icon(HostAggState::Empty), ('○', Color::DarkGray));
    assert_eq!(host_agg_icon(HostAggState::AllOff), ('○', Color::Gray));
    assert_eq!(host_agg_icon(HostAggState::AllOn), ('●', Color::Green));
    assert_eq!(host_agg_icon(HostAggState::Mixed), ('◐', Color::Yellow));
    assert_eq!(host_agg_icon(HostAggState::Transient), ('◌', Color::Cyan));
    assert_eq!(host_agg_icon(HostAggState::Failed), ('✗', Color::Red));
    assert_eq!(service_icon(&ConnState::Disconnected), ('○', Color::Gray, String::new()));
    assert_eq!(
        service_icon(&ConnState::Connecting),
        ('◌', Color::Cyan, " connecting…".to_string())
    );
    assert_eq!(
        service_icon(&ConnState::Disconnecting),
        ('◌', Color::Cyan, " disconnecting…".to_string())
    );
    assert_eq!(
        service_icon(&ConnState::Failed { reason: "no route".to_string() }),
        ('✗', Color::Red, " no route".to_string())
    );
}

#[test]
fn the_log_shows_its_last_lines() {
    let mut app = program();
    app.show_logs = true;
    for (i, level) in [LogLevel::Info, LogLevel::Warn, LogLevel::Error].into_iter().enumerate() {
        app.mgr.apply_event(
            TunnelEvent::Log { id: "prod/db".to_string(), line: format!("line {}", i) },
            LogStamp { level, timestamp: "12:00".to_string() },
        );
    }
    let rows = [area(80, 10), area(80, 4), area(80, 1)];
    let panels = draw_in_rows(&app, area(80, 24), &rows);
    assert_eq!(
        texts(&panels[1]),
        vec!["12:00 WARN prod/db line 1", "12:00 ERR  prod/db line 2"]
    );
    match &panels[1].body {
        Body::Lines(lines) => {
            assert_eq!(lines[0].spans[2].style, plain(Some(Color::Yellow)));
            assert_eq!(lines[0].spans[5].style, plain(Some(Color::White)));
            assert_eq!(lines[1].spans[5].style, plain(Some(Color::Red)));
        }
        _ => panic!("no lines"),
    }
    let rows = [area(80, 10), area(80, 9), area(80, 1)];
    let panels = draw_in_rows(&app, area(80, 24), &rows);
    assert_eq!(texts(&panels[1])[0], "12:00 INFO prod/db line 0");
    let rows = [area(80, 10), area(80, 1), area(80, 1)];
    assert!(texts(&draw_in_rows(&app, area(80, 24), &rows)[1]).is_empty());
}

#[test]
fn the_bottom_line_tells_the_last_thing_or_the_keys() {
    let mut app = program();
    let panels = draw(&app, area(80, 24));
    assert_eq!(
        texts(&panels[1]),
        vec![
            "q quit  ? help  a add  e edit  d delete  c toggle  Enter expand/toggle  o open  \
             L logs  r reload"
        ]
    );
    app.status = Some("config reloaded".to_string());
    assert_eq!(texts(&draw(&app, area(80, 24))[1]), vec!["config reloaded"]);
}

#[test]
fn centering_cuts_to_what_there_is() {
    let outer = Rect { x: 10, y: 20, width: 81, height: 24 };
    assert_eq!(centered(outer, 60, 5), Rect { x: 20, y: 29, width: 60, height: 5 });
    assert_eq!(centered(outer, 100, 30), outer);
}

#[test]
fn a_form_is_drawn_over_the_tree() {
    let mut app = program();
    app.open_add_service();
    let panels = draw(&app, area(80, 24));
    let form = &panels[2];
    assert_eq!(form.title, Some("Add service to prod".to_string()));
    assert!(form.clear);
    assert_eq!(form.area, Rect { x: 10, y: 6, width: 60, height: 12 });
    assert_eq!(
        texts(form),
        vec![
            "name",
            "  _",
            "port",
            "  8126",
            "scheme",
            "  http",
            "path",
            "  /",
            "",
            "Tab/↑↓ field  Enter submit  Esc cancel",
        ]
    );
    match &form.body {
        Body::Lines(lines) => {
            assert_eq!(
                lines[0].spans[0].style,
                Style { fg: Some(Color::Yellow), bg: None, bold: true }
            );
            assert_eq!(lines[2].spans[0].style, plain(Some(Color::Gray)));
            assert_eq!(lines[3].spans[1].style, plain(Some(Color::DarkGray)));
            assert_eq!(lines[5].spans[1].style, plain(None));
        }
        _ => panic!("no lines"),
    }
    match &app.modal {
        Modal::Form(f) => {
            assert_eq!(draw_form(f, area(50, 10)).area, Rect { x: 2, y: 2, width: 46, height: 6 });
            assert_eq!(draw_form(f, area(3, 3)).area, Rect { x: 1, y: 1, width: 0, height: 0 });
        }
        _ => panic!("no form"),
    }
}

#[test]
fn questions_errors_and_help_are_drawn_over_the_tree() {
    let mut app = program();
    app.open_delete();
    let panels = draw(&app, area(80, 24));
    assert_eq!(panels[2].title, Some("confirm".to_string()));
    assert_eq!(texts(&panels[2]), vec!["Delete host 'prod' and 2 service(s)? (y/n)"]);
    assert_eq!(panels[2].area, Rect { x: 10, y: 9, width: 60, height: 5 });
    assert_eq!(panels[2].wrap, Some(true));
    app.modal = Modal::Error("host vanished".to_string());
    app.show_help = true;
    let panels = draw(&app, area(80, 24));
    assert_eq!(titles(&panels), vec!["tunnels", "", "error", "help"]);
    assert_eq!(texts(&panels[2]), vec!["host vanished", "", "press any key"]);
    assert_eq!(panels[2].area, Rect { x: 10, y: 9, width: 60, height: 6 });
    assert_eq!(panels[3].area, Rect { x: 10, y: 3, width: 60, height: 18 });
    let help = texts(&panels[3]);
    assert_eq!(help.len(), 17);
    assert_eq!(help[0], "Movement");
    assert_eq!(help[3], "");
    assert_eq!(help[16], "  L  logs   r  reload   q  quit   ?  this help");
}
