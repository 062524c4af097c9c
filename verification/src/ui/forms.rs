//! Forms and questions: adding, editing and deleting hosts and services.
use vstd::prelude::*;

use crate::config;
use crate::config::{
    default_path, default_scheme, ConfigView, Host, HostView, Service, ServiceView,
};
use crate::effect::{Effect, EffectView};
use crate::seqs;
use crate::text;
use crate::tunnel;
use crate::tunnel::make_id;
use crate::ui::{
    App, AppView, ConfirmAction, ConfirmActionView, ConfirmModal, ConfirmView, Field, FieldView,
    FormAction, FormActionView, FormModal, FormView, Modal, ModalView, Selection, SelectionView,
};

verus! {

broadcast use crate::seqs::group_views;

impl Field {
    fn new(label: &str, value: &str, placeholder: &str) -> (r: Self)
        ensures
            r@ == (FieldView { label: label@, value: value@, placeholder: placeholder@ }),
    {
        Field {
            label: label.to_string(),
            value: value.to_string(),
            placeholder: placeholder.to_string(),
        }
    }
}

/// The form for a new host.
pub open spec fn add_host_form() -> FormView {
    FormView {
        title: "Add host"@,
        fields: seq![
            FieldView { label: "name"@, value: ""@, placeholder: "vps"@ },
            FieldView { label: "ssh"@, value: ""@, placeholder: "ssh-config alias"@ },
        ],
        focus: 0,
        action: FormActionView::AddHost,
    }
}

/// The form for a new service on `host`.
pub open spec fn add_service_form(host: Seq<char>) -> FormView {
    FormView {
        title: "Add service to "@ + host,
        fields: seq![
            FieldView { label: "name"@, value: ""@, placeholder: "matrix admin"@ },
            FieldView { label: "port"@, value: ""@, placeholder: "8126"@ },
            FieldView { label: "scheme"@, value: "http"@, placeholder: "http"@ },
            FieldView { label: "path"@, value: "/"@, placeholder: "/"@ },
        ],
        focus: 0,
        action: FormActionView::AddService { host },
    }
}

/// The form for what there is of service `s` on `host`.
pub open spec fn edit_service_form(host: Seq<char>, s: ServiceView) -> FormView {
    FormView {
        title: "Edit "@ + host + "/"@ + s.name,
        fields: seq![
            FieldView { label: "name"@, value: s.name, placeholder: ""@ },
            FieldView {
                label: "port"@,
                value: text::decimal(s.port as nat),
                placeholder: ""@,
            },
            FieldView { label: "scheme"@, value: s.scheme, placeholder: ""@ },
            FieldView { label: "path"@, value: s.path, placeholder: ""@ },
        ],
        focus: 0,
        action: FormActionView::EditService { host, original_svc: s.name },
    }
}

/// The form for what there is of host `h`.
pub open spec fn edit_host_form(h: HostView) -> FormView {
    FormView {
        title: "Edit host "@ + h.name,
        fields: seq![
            FieldView { label: "name"@, value: h.name, placeholder: ""@ },
            FieldView { label: "ssh"@, value: h.ssh, placeholder: ""@ },
        ],
        focus: 0,
        action: FormActionView::EditHost { original: h.name },
    }
}

impl AppView {
    pub open spec fn with_modal(self, modal: ModalView) -> AppView {
        AppView { modal, ..self }
    }

    pub open spec fn with_status(self, status: Seq<char>) -> AppView {
        AppView { status: Some(status), ..self }
    }

    /// The form for a new service on the selected host opens; without a selected host the user is
    /// told to add one.
    pub open spec fn open_add_service(self) -> AppView {
        match self.selection.host {
            Some(host) => self.with_modal(ModalView::Form(add_service_form(host))),
            None => self.with_status("no host selected — add a host first (Shift+A)"@),
        }
    }

    /// The form for what is selected opens, where that still is in the configuration.
    pub open spec fn open_edit(self) -> AppView {
        match (self.selection.host, self.selection.svc) {
            (Some(host), Some(svc)) => match self.cfg.lookup(host, svc) {
                Some(p) => self.with_modal(ModalView::Form(edit_service_form(host, p.1))),
                None => self,
            },
            (Some(host), None) => match self.cfg.find_host(host) {
                Some(i) => self.with_modal(ModalView::Form(edit_host_form(self.cfg.hosts[i]))),
                None => self,
            },
            _ => self,
        }
    }

    /// How many services the first host called `host` has.
    pub open spec fn service_count(self, host: Seq<char>) -> nat {
        match self.cfg.find_host(host) {
            Some(i) => self.cfg.hosts[i].services.len(),
            None => 0,
        }
    }

    /// The user is asked whether to delete what is selected.
    pub open spec fn open_delete(self) -> AppView {
        match (self.selection.host, self.selection.svc) {
            (Some(host), Some(svc)) => self.with_modal(
                ModalView::Confirm(
                    ConfirmView {
                        message: "Delete service '"@ + host + "/"@ + svc + "'? (y/n)"@,
                        action: ConfirmActionView::DeleteService { host, svc },
                    },
                ),
            ),
            (Some(host), None) => self.with_modal(
                ModalView::Confirm(
                    ConfirmView {
                        message: "Delete host '"@ + host + "' and "@ + text::decimal(
                            self.service_count(host),
                        ) + " service(s)? (y/n)"@,
                        action: ConfirmActionView::DeleteHost(host),
                    },
                ),
            ),
            _ => self,
        }
    }
}

impl App {
    /// Opens the form for a new host.
    pub fn open_add_host(&mut self)
        ensures
            final(self)@ == old(self)@.with_modal(ModalView::Form(add_host_form())),
            final(self)@.wf(),
    {
        let mut fields: Vec<Field> = Vec::new();
        fields.push(Field::new("name", "", "vps"));
        fields.push(Field::new("ssh", "", "ssh-config alias"));
        assert(seqs::views(fields@) =~= add_host_form().fields);
        self.modal = Modal::Form(
            FormModal {
                title: "Add host".to_string(),
                fields,
                focus: 0,
                action: FormAction::AddHost,
            },
        );
    }

    /// Opens the form for a new service on the selected host.
    pub fn open_add_service(&mut self)
        ensures
            final(self)@ == old(self)@.open_add_service(),
            old(self)@.wf() ==> final(self)@.wf(),
            old(self)@.takes_keys() ==> final(self)@.takes_keys(),
    {
        let host = match self.selection.host.clone() {
            Some(h) => h,
            None => {
                self.status = Some("no host selected — add a host first (Shift+A)".to_string());
                return;
            },
        };
        let mut fields: Vec<Field> = Vec::new();
        fields.push(Field::new("name", "", "matrix admin"));
        fields.push(Field::new("port", "", "8126"));
        fields.push(Field::new("scheme", "http", "http"));
        fields.push(Field::new("path", "/", "/"));
        assert(seqs::views(fields@) =~= add_service_form(host@).fields);
        self.modal = Modal::Form(
            FormModal {
                title: text::cat2("Add service to ", host.as_str()),
                fields,
                focus: 0,
                action: FormAction::AddService { host },
            },
        );
    }

    /// Opens the form for what is selected.
    pub fn open_edit(&mut self)
        ensures
            final(self)@ == old(self)@.open_edit(),
            old(self)@.wf() ==> final(self)@.wf(),
            old(self)@.takes_keys() ==> final(self)@.takes_keys(),
    {
        match (self.selection.host.clone(), self.selection.svc.clone()) {
            (Some(host_name), Some(svc_name)) => {
                let svc = match self.cfg.lookup(host_name.as_str(), svc_name.as_str()) {
                    Some(p) => p.1,
                    None => {
                        return;
                    },
                };
                proof {
                    self.cfg@.lemma_lookup(host_name@, svc_name@);
                }
                let port = text::decimal_text(svc.port as usize);
                let mut fields: Vec<Field> = Vec::new();
                fields.push(Field::new("name", svc.name.as_str(), ""));
                fields.push(Field::new("port", port.as_str(), ""));
                fields.push(Field::new("scheme", svc.scheme.as_str(), ""));
                fields.push(Field::new("path", svc.path.as_str(), ""));
                assert(seqs::views(fields@) =~= edit_service_form(host_name@, svc@).fields);
                self.modal = Modal::Form(
                    FormModal {
                        title: text::cat4("Edit ", host_name.as_str(), "/", svc_name.as_str()),
                        fields,
                        focus: 0,
                        action: FormAction::EditService { host: host_name, original_svc: svc_name },
                    },
                );
            },
            (Some(host_name), None) => {
                let i = match self.cfg.find_host(host_name.as_str()) {
                    Some(i) => i,
                    None => {
                        return;
                    },
                };
                proof {
                    seqs::lemma_find(self.cfg@.hosts, config::host_named(host_name@));
                }
                let ghost h = self.cfg@.hosts[i as int];
                assert(h == self.cfg.hosts@[i as int]@);
                let mut fields: Vec<Field> = Vec::new();
                fields.push(Field::new("name", self.cfg.hosts[i].name.as_str(), ""));
                fields.push(Field::new("ssh", self.cfg.hosts[i].ssh.as_str(), ""));
                assert(seqs::views(fields@) =~= edit_host_form(h).fields);
                self.modal = Modal::Form(
                    FormModal {
                        title: text::cat2("Edit host ", host_name.as_str()),
                        fields,
                        focus: 0,
                        action: FormAction::EditHost { original: host_name },
                    },
                );
            },
            _ => {},
        }
    }

    /// Asks whether to delete what is selected.
    pub fn open_delete(&mut self)
        ensures
            final(self)@ == old(self)@.open_delete(),
            old(self)@.wf() ==> final(self)@.wf(),
            old(self)@.takes_keys() ==> final(self)@.takes_keys(),
    {
        match (self.selection.host.clone(), self.selection.svc.clone()) {
            (Some(host), Some(svc)) => {
                self.modal = Modal::Confirm(
                    ConfirmModal {
                        message: text::cat5(
                            "Delete service '",
                            host.as_str(),
                            "/",
                            svc.as_str(),
                            "'? (y/n)",
                        ),
                        action: ConfirmAction::DeleteService { host, svc },
                    },
                );
            },
            (Some(host), None) => {
                let count: usize = match self.cfg.find_host(host.as_str()) {
                    Some(i) => self.cfg.hosts[i].services.len(),
                    None => 0,
                };
                let number = text::decimal_text(count);
                self.modal = Modal::Confirm(
                    ConfirmModal {
                        message: text::cat5(
                            "Delete host '",
                            host.as_str(),
                            "' and ",
                            number.as_str(),
                            " service(s)? (y/n)",
                        ),
                        action: ConfirmAction::DeleteHost(host),
                    },
                );
            },
            _ => {},
        }
    }
}

/// What a form comes to: the next state and what is to be done, or what is wrong with it.
pub type Outcome = Result<(AppView, Seq<EffectView>), Seq<char>>;

/// `value`, or `standard` where it is empty.
pub open spec fn or_default(value: Seq<char>, standard: Seq<char>) -> Seq<char> {
    if value.len() == 0 {
        standard
    } else {
        value
    }
}

/// The port that a form gives, or what is wrong with it.
pub open spec fn form_port(value: Seq<char>) -> Result<u16, Seq<char>> {
    match text::parsed_u16(value) {
        None => Err("port must be 1..=65535"@),
        Some(port) => if port == 0 {
            Err("port must be > 0"@)
        } else {
            Ok(port)
        },
    }
}

impl AppView {
    /// A host is added at the end, expanded and selected.
    pub open spec fn add_host(self, name: Seq<char>, ssh: Seq<char>) -> Outcome {
        if name.len() == 0 || ssh.len() == 0 {
            Err("name and ssh required"@)
        } else if self.cfg.find_host(name) is Some {
            Err("host '"@ + name + "' already exists"@)
        } else {
            Ok(
                (
                    AppView {
                        cfg: ConfigView {
                            hosts: self.cfg.hosts.push(
                                HostView { name, ssh, services: Seq::empty() },
                            ),
                        },
                        expanded: self.expanded.insert(name),
                        selection: SelectionView::on_host(name),
                        ..self
                    },
                    Seq::empty(),
                ),
            )
        }
    }

    /// Host `original` gets a new name and a new way to be reached; its services stay, it stays
    /// where it is, and it is selected.
    pub open spec fn edit_host(
        self,
        original: Seq<char>,
        name: Seq<char>,
        ssh: Seq<char>,
    ) -> Outcome {
        if name.len() == 0 || ssh.len() == 0 {
            Err("name and ssh required"@)
        } else if name != original && self.cfg.find_host(name) is Some {
            Err("host '"@ + name + "' already exists"@)
        } else {
            match self.cfg.find_host(original) {
                None => Err("host vanished"@),
                Some(i) => Ok(
                    (
                        AppView {
                            cfg: ConfigView {
                                hosts: self.cfg.hosts.update(
                                    i,
                                    HostView { name, ssh, services: self.cfg.hosts[i].services },
                                ),
                            },
                            expanded: if name != original {
                                self.expanded.remove(original).insert(name)
                            } else {
                                self.expanded
                            },
                            selection: SelectionView::on_host(name),
                            ..self
                        },
                        Seq::empty(),
                    ),
                ),
            }
        }
    }

    /// The services of host `i` become `services`.
    pub open spec fn with_services(self, i: int, services: Seq<ServiceView>) -> ConfigView {
        ConfigView {
            hosts: self.cfg.hosts.update(i, HostView { services, ..self.cfg.hosts[i] }),
        }
    }

    /// A service is added at the end of `host` and selected.
    pub open spec fn add_service(
        self,
        host: Seq<char>,
        name: Seq<char>,
        port: Seq<char>,
        scheme: Seq<char>,
        path: Seq<char>,
    ) -> Outcome {
        if name.len() == 0 {
            Err("name required"@)
        } else {
            match form_port(port) {
                Err(e) => Err(e),
                Ok(port) => match self.cfg.find_host(host) {
                    None => Err("host vanished"@),
                    Some(i) => if self.cfg.hosts[i].find_service(name) is Some {
                        Err("service '"@ + name + "' already exists in "@ + host)
                    } else {
                        Ok(
                            (
                                AppView {
                                    cfg: self.with_services(
                                        i,
                                        self.cfg.hosts[i].services.push(
                                            ServiceView {
                                                name,
                                                port,
                                                scheme: or_default(scheme, "http"@),
                                                path: or_default(path, "/"@),
                                                local_port: None,
                                            },
                                        ),
                                    ),
                                    selection: SelectionView::on_service(host, name),
                                    ..self
                                },
                                Seq::empty(),
                            ),
                        )
                    },
                },
            }
        }
    }

    /// Service `original` of `host` gets a new name, port, scheme and path, and is selected; its
    /// pinned local port stays. Where its tunnel is on, the tunnel is told to end.
    pub open spec fn edit_service(
        self,
        host: Seq<char>,
        original: Seq<char>,
        name: Seq<char>,
        port: Seq<char>,
        scheme: Seq<char>,
        path: Seq<char>,
    ) -> Outcome {
        if name.len() == 0 {
            Err("name required"@)
        } else {
            match form_port(port) {
                Err(e) => Err(e),
                Ok(port) => match self.cfg.find_host(host) {
                    None => Err("host vanished"@),
                    Some(i) => if name != original && self.cfg.hosts[i].find_service(
                        name,
                    ) is Some {
                        Err("service '"@ + name + "' already exists in "@ + host)
                    } else {
                        match self.cfg.hosts[i].find_service(original) {
                            None => Err("service vanished"@),
                            Some(j) => {
                                let (mgr, effects) = if self.mgr.state_of(
                                    tunnel::tunnel_id(host, original),
                                ).on() {
                                    self.mgr.disconnect(host, original)
                                } else {
                                    (self.mgr, Seq::empty())
                                };
                                Ok(
                                    (
                                        AppView {
                                            cfg: self.with_services(
                                                i,
                                                self.cfg.hosts[i].services.update(
                                                    j,
                                                    ServiceView {
                                                        name,
                                                        port,
                                                        scheme: or_default(scheme, "http"@),
                                                        path: or_default(path, "/"@),
                                                        ..self.cfg.hosts[i].services[j]
                                                    },
                                                ),
                                            ),
                                            mgr,
                                            selection: SelectionView::on_service(host, name),
                                            ..self
                                        },
                                        effects,
                                    ),
                                )
                            },
                        }
                    },
                },
            }
        }
    }

    /// What a form filled in with `values` comes to.
    pub open spec fn apply_form(self, action: FormActionView, values: Seq<Seq<char>>) -> Outcome {
        match action {
            FormActionView::AddHost => self.add_host(values[0], values[1]),
            FormActionView::EditHost { original } => self.edit_host(
                original,
                values[0],
                values[1],
            ),
            FormActionView::AddService { host } => self.add_service(
                host,
                values[0],
                values[1],
                values[2],
                values[3],
            ),
            FormActionView::EditService { host, original_svc } => self.edit_service(
                host,
                original_svc,
                values[0],
                values[1],
                values[2],
                values[3],
            ),
        }
    }

    /// The open form is submitted: where nothing is wrong with it, it takes effect, closes, and
    /// the configuration is saved; otherwise nothing changes but that the error is shown.
    pub open spec fn submit_form(self) -> (AppView, Seq<EffectView>) {
        match self.modal {
            ModalView::Form(f) => match self.apply_form(
                f.action,
                f.fields.map_values(|x: FieldView| text::trimmed(x.value)),
            ) {
                Ok(p) => (p.0.with_modal(ModalView::Closed), p.1.push(EffectView::Save)),
                Err(e) => (self.with_modal(ModalView::Error(e)), Seq::empty()),
            },
            _ => (self, Seq::empty()),
        }
    }

    /// What was asked about is deleted, its tunnels are told to end, and the configuration is
    /// saved.
    pub open spec fn confirm_yes(self) -> (AppView, Seq<EffectView>) {
        match self.modal {
            ModalView::Confirm(c) => match c.action {
                ConfirmActionView::DeleteHost(name) => {
                    let (mgr, effects) = match self.cfg.find_host(name) {
                        Some(i) => self.mgr.disconnect_each(name, self.cfg.hosts[i].services),
                        None => (self.mgr, Seq::empty()),
                    };
                    let cfg = ConfigView {
                        hosts: self.cfg.hosts.filter(config::host_not_named(name)),
                    };
                    (
                        AppView {
                            cfg,
                            mgr,
                            expanded: self.expanded.remove(name),
                            selection: SelectionView::on_first(cfg),
                            modal: ModalView::Closed,
                            ..self
                        },
                        effects.push(EffectView::Save),
                    )
                },
                ConfirmActionView::DeleteService { host, svc } => {
                    let (mgr, effects) = self.mgr.disconnect(host, svc);
                    let cfg = match self.cfg.find_host(host) {
                        Some(i) => self.with_services(
                            i,
                            self.cfg.hosts[i].services.filter(config::service_not_named(svc)),
                        ),
                        None => self.cfg,
                    };
                    (
                        AppView {
                            cfg,
                            mgr,
                            selection: SelectionView::on_host(host),
                            modal: ModalView::Closed,
                            ..self
                        },
                        effects.push(EffectView::Save),
                    )
                },
            },
            _ => (self, Seq::empty()),
        }
    }
}

/// Whether `r` and the state `after` are what `outcome` says, where `before` was the state.
pub open spec fn meets(
    outcome: Outcome,
    before: AppView,
    after: AppView,
    r: Result<Vec<Effect>, String>,
) -> bool {
    match r {
        Ok(effects) => outcome == Ok::<(AppView, Seq<EffectView>), Seq<char>>(
            (after, seqs::views(effects@)),
        ),
        Err(e) => outcome == Err::<(AppView, Seq<EffectView>), Seq<char>>(e@) && after == before,
    }
}

fn value_or(value: &str, standard: String) -> (r: String)
    ensures
        r@ == or_default(value@, standard@),
{
    if value.is_empty() {
        standard
    } else {
        value.to_string()
    }
}

fn read_port(value: &str) -> (r: Result<u16, String>)
    ensures
        match r {
            Ok(p) => form_port(value@) == Ok::<u16, Seq<char>>(p),
            Err(e) => form_port(value@) == Err::<u16, Seq<char>>(e@),
        },
{
    match text::parse_u16(value) {
        None => Err("port must be 1..=65535".to_string()),
        Some(port) => if port == 0 {
            Err("port must be > 0".to_string())
        } else {
            Ok(port)
        },
    }
}

impl App {
    /// Adds a host.
    pub fn add_host(&mut self, name: &str, ssh: &str) -> (r: Result<Vec<Effect>, String>)
        ensures
            meets(old(self)@.add_host(name@, ssh@), old(self)@, final(self)@, r),
    {
        if name.is_empty() || ssh.is_empty() {
            return Err("name and ssh required".to_string());
        }
        if self.cfg.find_host(name).is_some() {
            return Err(text::cat3("host '", name, "' already exists"));
        }
        self.expanded.insert(name.to_string());
        self.cfg.hosts.push(
            Host { name: name.to_string(), ssh: ssh.to_string(), services: Vec::new() },
        );
        self.selection = Selection::on_host(name.to_string());
        Ok(Vec::new())
    }

    /// Gives a host a new name and a new way to be reached.
    pub fn edit_host(&mut self, original: &str, name: &str, ssh: &str) -> (r: Result<
        Vec<Effect>,
        String,
    >)
        ensures
            meets(old(self)@.edit_host(original@, name@, ssh@), old(self)@, final(self)@, r),
    {
        if name.is_empty() || ssh.is_empty() {
            return Err("name and ssh required".to_string());
        }
        let renamed = !text::same(name, original);
        if renamed && self.cfg.find_host(name).is_some() {
            return Err(text::cat3("host '", name, "' already exists"));
        }
        let i: usize = match self.cfg.find_host(original) {
            Some(i) => i,
            None => {
                return Err("host vanished".to_string());
            },
        };
        if renamed {
            let _ = self.expanded.remove(original);
            self.expanded.insert(name.to_string());
        }
        self.cfg.hosts[i].name = name.to_string();
        self.cfg.hosts[i].ssh = ssh.to_string();
        self.selection = Selection::on_host(name.to_string());
        proof {
            let h = HostView {
                name: name@,
                ssh: ssh@,
                services: old(self)@.cfg.hosts[i as int].services,
            };
            assert(self.cfg.hosts@[i as int]@ == h);
            assert(self@.cfg.hosts =~= old(self)@.cfg.hosts.update(i as int, h));
        }
        Ok(Vec::new())
    }

    /// Adds a service to a host.
    pub fn add_service(
        &mut self,
        host: &str,
        name: &str,
        port: &str,
        scheme: &str,
        path: &str,
    ) -> (r: Result<Vec<Effect>, String>)
        ensures
            meets(
                old(self)@.add_service(host@, name@, port@, scheme@, path@),
                old(self)@,
                final(self)@,
                r,
            ),
    {
        if name.is_empty() {
            return Err("name required".to_string());
        }
        let port: u16 = match read_port(port) {
            Ok(p) => p,
            Err(e) => {
                return Err(e);
            },
        };
        let i: usize = match self.cfg.find_host(host) {
            Some(i) => i,
            None => {
                return Err("host vanished".to_string());
            },
        };
        assert(self.cfg.hosts@[i as int]@ == self@.cfg.hosts[i as int]);
        if self.cfg.hosts[i].find_service(name).is_some() {
            return Err(text::cat4("service '", name, "' already exists in ", host));
        }
        let scheme = value_or(scheme, default_scheme());
        let path = value_or(path, default_path());
        let svc = Service { name: name.to_string(), port, scheme, path, local_port: None };
        let ghost added = svc@;
        self.cfg.hosts[i].services.push(svc);
        self.selection = Selection::on_service(host.to_string(), name.to_string());
        proof {
            let h = old(self)@.cfg.hosts[i as int];
            assert(self.cfg.hosts@[i as int]@.services == h.services.push(added));
            assert(self@.cfg.hosts =~= old(self)@.with_services(
                i as int,
                h.services.push(added),
            ).hosts);
        }
        Ok(Vec::new())
    }

    /// Gives a service a new name, port, scheme and path.
    pub fn edit_service(
        &mut self,
        host: &str,
        original: &str,
        name: &str,
        port: &str,
        scheme: &str,
        path: &str,
    ) -> (r: Result<Vec<Effect>, String>)
        ensures
            meets(
                old(self)@.edit_service(host@, original@, name@, port@, scheme@, path@),
                old(self)@,
                final(self)@,
                r,
            ),
    {
        if name.is_empty() {
            return Err("name required".to_string());
        }
        let port: u16 = match read_port(port) {
            Ok(p) => p,
            Err(e) => {
                return Err(e);
            },
        };
        let i: usize = match self.cfg.find_host(host) {
            Some(i) => i,
            None => {
                return Err("host vanished".to_string());
            },
        };
        assert(self.cfg.hosts@[i as int]@ == self@.cfg.hosts[i as int]);
        if !text::same(name, original) && self.cfg.hosts[i].find_service(name).is_some() {
            return Err(text::cat4("service '", name, "' already exists in ", host));
        }
        let j: usize = match self.cfg.hosts[i].find_service(original) {
            Some(j) => j,
            None => {
                return Err("service vanished".to_string());
            },
        };
        let was_on = self.mgr.state_of(&make_id(host, original)).is_on();
        let scheme = value_or(scheme, default_scheme());
        let path = value_or(path, default_path());
        let svc = Service {
            name: name.to_string(),
            port,
            scheme,
            path,
            local_port: self.cfg.hosts[i].services[j].local_port,
        };
        let ghost edited = svc@;
        assert(self@.cfg.hosts[i as int].services[j as int]
            == self.cfg.hosts@[i as int].services@[j as int]@);
        self.cfg.hosts[i].services[j] = svc;
        let effects = if was_on {
            self.mgr.disconnect(host, original)
        } else {
            Vec::new()
        };
        self.selection = Selection::on_service(host.to_string(), name.to_string());
        proof {
            let h = old(self)@.cfg.hosts[i as int];
            assert(self.cfg.hosts@[i as int]@.services == h.services.update(j as int, edited));
            assert(self@.cfg.hosts =~= old(self)@.with_services(
                i as int,
                h.services.update(j as int, edited),
            ).hosts);
        }
        Ok(effects)
    }

    fn form_values(&self) -> (r: Option<(FormAction, Vec<String>)>)
        requires
            self@.form_complete(),
        ensures
            match r {
                Some(p) => {
                    &&& self@.modal matches ModalView::Form(f)
                    &&& p.0@ == f.action
                    &&& seqs::views(p.1@) == f.fields.map_values(
                        |x: FieldView| text::trimmed(x.value),
                    )
                    &&& p.1@.len() >= f.action.arity()
                },
                None => !(self@.modal is Form),
            },
    {
        match &self.modal {
            Modal::Form(f) => {
                let ghost fields = f@.fields;
                let mut values: Vec<String> = Vec::new();
                let mut i: usize = 0;
                while i < f.fields.len()
                    invariant
                        i <= f.fields@.len(),
                        values@.len() == i,
                        fields == seqs::views(f.fields@),
                        forall|k: int|
                            0 <= k < i ==> (#[trigger] values@[k])@ == text::trimmed(
                                fields[k].value,
                            ),
                    decreases f.fields@.len() - i,
                {
                    values.push(text::trim(f.fields[i].value.as_str()));
                    i = i + 1;
                }
                assert(seqs::views(values@) =~= fields.map_values(
                    |x: FieldView| text::trimmed(x.value),
                ));
                Some((f.action.clone(), values))
            },
            _ => None,
        }
    }

    /// Submits the open form.
    pub fn submit_form(&mut self) -> (r: Vec<Effect>)
        requires
            old(self)@.form_complete(),
        ensures
            (final(self)@, seqs::views(r@)) == old(self)@.submit_form(),
            final(self)@.wf(),
    {
        let (action, values) = match self.form_values() {
            Some(p) => p,
            None => {
                return Vec::new();
            },
        };
        let result: Result<Vec<Effect>, String> = match action {
            FormAction::AddHost => self.add_host(values[0].as_str(), values[1].as_str()),
            FormAction::EditHost { original } => self.edit_host(
                original.as_str(),
                values[0].as_str(),
                values[1].as_str(),
            ),
            FormAction::AddService { host } => self.add_service(
                host.as_str(),
                values[0].as_str(),
                values[1].as_str(),
                values[2].as_str(),
                values[3].as_str(),
            ),
            FormAction::EditService { host, original_svc } => self.edit_service(
                host.as_str(),
                original_svc.as_str(),
                values[0].as_str(),
                values[1].as_str(),
                values[2].as_str(),
                values[3].as_str(),
            ),
        };
        match result {
            Ok(effects) => {
                let mut effects = effects;
                self.modal = Modal::Closed;
                effects.push(Effect::Save);
                effects
            },
            Err(e) => {
                self.modal = Modal::Error(e);
                Vec::new()
            },
        }
    }

    /// Deletes what was asked about.
    pub fn confirm_yes(&mut self) -> (r: Vec<Effect>)
        ensures
            (final(self)@, seqs::views(r@)) == old(self)@.confirm_yes(),
            old(self)@.wf() ==> final(self)@.wf(),
            old(self)@.takes_keys() ==> final(self)@.takes_keys(),
    {
        let action = match &self.modal {
            Modal::Confirm(c) => c.action.clone(),
            _ => {
                return Vec::new();
            },
        };
        let mut effects: Vec<Effect> = Vec::new();
        match action {
            ConfirmAction::DeleteHost(name) => {
                match self.cfg.find_host(name.as_str()) {
                    Some(i) => {
                        assert(self.cfg.hosts@[i as int]@ == self@.cfg.hosts[i as int]);
                        effects =
                        self.mgr.disconnect_all(
                            name.as_str(),
                            self.cfg.hosts[i].services.as_slice(),
                        );
                    },
                    None => {},
                }
                self.cfg.drop_hosts(name.as_str());
                let _ = self.expanded.remove(name.as_str());
                self.selection = Selection::on_first(&self.cfg);
            },
            ConfirmAction::DeleteService { host, svc } => {
                effects = self.mgr.disconnect(host.as_str(), svc.as_str());
                match self.cfg.find_host(host.as_str()) {
                    Some(i) => {
                        let ghost h = self@.cfg.hosts[i as int];
                        assert(self.cfg.hosts@[i as int]@ == h);
                        self.cfg.hosts[i].drop_services(svc.as_str());
                        assert(self@.cfg.hosts =~= old(self)@.with_services(
                            i as int,
                            h.services.filter(config::service_not_named(svc@)),
                        ).hosts);
                    },
                    None => {},
                }
                self.selection = Selection::on_host(host);
            },
        }
        self.modal = Modal::Closed;
        effects.push(Effect::Save);
        effects
    }
}

} // verus!
