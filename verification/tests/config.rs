use pgun::config::{
    default_config_path, default_path, default_scheme, load, save, temp_extension, validate,
    Config, ConfigError, Found, Host, LoadError, SavePlace, SaveStep, Service,
};

fn service(name: &str, port: u16) -> Service {
    Service {
        name: name.to_string(),
        port,
        scheme: default_scheme(),
        path: default_path(),
        local_port: None,
    }
}

fn host(name: &str, services: Vec<Service>) -> Host {
    Host { name: name.to_string(), ssh: "user@example.com".to_string(), services }
}

fn config(hosts: Vec<Host>) -> Config {
    Config { hosts }
}

fn refusal(hosts: Vec<Host>) -> String {
    match validate(&config(hosts)) {
        Ok(()) => "accepted".to_string(),
        Err(e) => e.message(),
    }
}

#[test]
fn url_has_scheme_port_and_path() {
    let mut s = service("grafana", 3000);
    assert_eq!(s.url(4321), "http://127.0.0.1:4321/");
    s.scheme = "https".to_string();
    s.path = "/admin".to_string();
    assert_eq!(s.url(80), "https://127.0.0.1:80/admin");
    s.path = "admin".to_string();
    assert_eq!(s.url(65535), "https://127.0.0.1:65535/admin");
    s.path = String::new();
    assert_eq!(s.url(0), "https://127.0.0.1:0/");
}

#[test]
fn defaults_are_http_and_root() {
    assert_eq!(default_scheme(), "http");
    assert_eq!(default_path(), "/");
    assert!(Config::default().hosts.is_empty());
}

#[test]
fn default_path_lies_under_the_base() {
    let (base, names) = default_config_path(Some("/home/me/.config")).unwrap();
    assert_eq!(base, "/home/me/.config");
    assert_eq!(names, vec!["pgun".to_string(), "config.toml".to_string()]);
    assert_eq!(default_config_path::<&str>(None).unwrap_err(), "no config dir");
}

#[test]
fn valid_configurations_are_accepted() {
    assert_eq!(refusal(vec![]), "accepted");
    assert_eq!(refusal(vec![host("prod", vec![])]), "accepted");
    assert_eq!(
        refusal(vec![
            host("prod", vec![service("grafana", 3000), service("postgres", 5432)]),
            host("dev", vec![service("grafana", 65535)]),
        ]),
        "accepted"
    );
    assert_eq!(refusal(vec![host("a", vec![]), host("a ", vec![])]), "accepted");
}

#[test]
fn every_fault_is_named() {
    assert_eq!(refusal(vec![host(" \t", vec![])]), "host name empty");
    assert_eq!(refusal(vec![host("a", vec![]), host("a", vec![])]), "duplicate host name: a");
    assert_eq!(refusal(vec![host("a", vec![service("", 1)])]), "service name empty in host a");
    assert_eq!(
        refusal(vec![host("a", vec![service("s", 1), service("s", 2)])]),
        "duplicate service 's' in host a"
    );
    assert_eq!(refusal(vec![host("a", vec![service("s", 0)])]), "invalid port for service 's'");
}

#[test]
fn the_first_fault_is_reported() {
    assert_eq!(
        refusal(vec![host("a", vec![service("s", 0)]), host("", vec![])]),
        "invalid port for service 's'"
    );
    assert_eq!(
        refusal(vec![host("a", vec![service("s", 1), service("s", 0)])]),
        "duplicate service 's' in host a"
    );
    assert_eq!(
        refusal(vec![host("a", vec![]), host("a", vec![service("", 0)])]),
        "duplicate host name: a"
    );
    assert!(matches!(
        validate(&config(vec![host("", vec![])])),
        Err(ConfigError::HostNameEmpty)
    ));
}

#[test]
fn loading_gives_what_was_found() {
    assert!(load("/x", Found::Missing).unwrap().hosts.is_empty());
    assert_eq!(load("/x", Found::Unreadable).unwrap_err().message(), "read /x");
    assert_eq!(load("/x", Found::Unparsable).unwrap_err().message(), "parse /x");
    let bad = config(vec![host("", vec![])]);
    let refused = load("/x", Found::Parsed(bad)).unwrap_err();
    assert!(matches!(refused, LoadError::Invalid(ConfigError::HostNameEmpty)));
    assert_eq!(refused.message(), "host name empty");
}

#[test]
fn what_a_save_accepts_a_load_gives_back() {
    let mut pinned = service("grafana", 3000);
    pinned.local_port = Some(3000);
    let cfg = config(vec![host("prod", vec![pinned, service("postgres", 5432)])]);
    assert!(save(&cfg, true).is_ok());
    let back = load("/x", Found::Parsed(cfg.clone())).unwrap();
    assert_eq!(format!("{:?}", back), format!("{:?}", cfg));
    assert!(save(&back, true).is_ok());
}

#[test]
fn a_save_goes_step_by_step() {
    let cfg = config(vec![host("prod", vec![])]);
    assert_eq!(save(&cfg, false).unwrap(), SaveStep::Encode);
    let mut step = save(&cfg, true).unwrap();
    let mut steps = vec![step];
    while step != SaveStep::Done {
        step = step.next();
        steps.push(step);
    }
    assert_eq!(
        steps,
        vec![
            SaveStep::MakeDir,
            SaveStep::Encode,
            SaveStep::WriteTemp,
            SaveStep::Rename,
            SaveStep::Done
        ]
    );
    assert_eq!(SaveStep::Done.next(), SaveStep::Done);
    assert_eq!(SaveStep::MakeDir.failure("/d"), "mkdir /d");
    assert_eq!(SaveStep::Encode.failure("/d"), "serialize config");
    assert_eq!(SaveStep::WriteTemp.failure("/d/c.toml.tmp"), "write /d/c.toml.tmp");
    assert_eq!(SaveStep::Rename.failure("/d/c.toml"), "rename to /d/c.toml");
    assert_eq!(SaveStep::Done.failure("/d"), "");
}

#[test]
fn an_invalid_configuration_is_not_saved() {
    let cfg = config(vec![host("a", vec![service("s", 0)])]);
    assert_eq!(save(&cfg, true).unwrap_err().message(), "invalid port for service 's'");
}

#[test]
fn hosts_and_services_are_found_by_name() {
    let cfg = config(vec![
        host("prod", vec![service("grafana", 3000), service("postgres", 5432)]),
        host("dev", vec![service("grafana", 3001)]),
    ]);
    assert_eq!(cfg.find_host("dev"), Some(1));
    assert_eq!(cfg.find_host("nope"), None);
    assert_eq!(cfg.hosts[0].find_service("postgres"), Some(1));
    assert_eq!(cfg.hosts[1].find_service("postgres"), None);
    let (ssh, svc) = cfg.lookup("dev", "grafana").unwrap();
    assert_eq!(ssh, "user@example.com");
    assert_eq!(svc.port, 3001);
    assert!(cfg.lookup("dev", "postgres").is_none());
    assert!(cfg.lookup("nope", "grafana").is_none());
}

#[test]
fn dropping_takes_out_every_one_of_that_name() {
    let mut cfg = config(vec![host("a", vec![]), host("b", vec![]), host("a", vec![])]);
    cfg.drop_hosts("a");
    assert_eq!(cfg.hosts.len(), 1);
    assert_eq!(cfg.hosts[0].name, "b");
    let mut h = host("a", vec![service("x", 1), service("y", 2), service("x", 3)]);
    h.drop_services("x");
    assert_eq!(h.services.len(), 1);
    assert_eq!(h.services[0].port, 2);
    h.drop_services("z");
    assert_eq!(h.services.len(), 1);
}

#[test]
fn only_the_rename_changes_the_file() {
    assert_eq!(SaveStep::MakeDir.touches(), Some(SavePlace::Parent));
    assert_eq!(SaveStep::Encode.touches(), None);
    assert_eq!(SaveStep::WriteTemp.touches(), Some(SavePlace::Temp));
    assert_eq!(SaveStep::Rename.touches(), Some(SavePlace::File));
    assert_eq!(SaveStep::Done.touches(), None);
}

#[test]
fn a_save_is_whole_or_nothing() {
    let cfg = config(vec![host("prod", vec![])]);
    for has_parent in [false, true] {
        let (mut temp, mut file) = (None, "old");
        let mut step = save(&cfg, has_parent).unwrap();
        let mut steps = 0;
        while step != SaveStep::Done {
            assert_eq!(file, "old");
            match step.touches() {
                Some(SavePlace::Temp) => temp = Some("new"),
                Some(SavePlace::File) => file = temp.take().unwrap(),
                _ => {}
            }
            step = step.next();
            steps += 1;
        }
        assert_eq!(file, "new");
        assert_eq!(steps, if has_parent { 4 } else { 3 });
    }
}

#[test]
fn the_file_beside_has_its_own_extension() {
    assert_eq!(temp_extension(), "toml.tmp");
    let beside = std::path::Path::new("/d/config.toml").with_extension(temp_extension());
    assert_eq!(beside, std::path::PathBuf::from("/d/config.toml.tmp"));
}
