//! Keys, tunnel reports and the main loop: what each of them does to the program.
use vstd::prelude::*;

use crate::config;
use crate::config::{Found, FoundView, HostView};
use crate::effect::{Effect, EffectView};
use crate::manager::{ConnState, ConnStateView, LogStamp, LogStampView, ManagerView};
use crate::seqs;
use crate::text;
use crate::tunnel;
use crate::tunnel::{make_id, TunnelEvent, TunnelEventView, TunnelId};
use crate::ui::forms;
use crate::ui::{App, AppView, FieldView, FormModal, FormView, Modal, ModalView, SelectionView};

verus! {

broadcast use crate::seqs::group_views;

/// Which key was pressed.
#[derive(Debug, Clone, Copy, PartialEq, Eq)]
pub enum KeyCode {
    Char(char),
    Enter,
    Esc,
    Tab,
    BackTab,
    Backspace,
    Up,
    Down,
    Left,
    Right,
    /// Any key that has no meaning here.
    Other,
}

/// A key, and whether the control key was down with it.
#[derive(Debug, Clone, Copy, PartialEq, Eq)]
pub struct KeyEvent {
    pub code: KeyCode,
    pub control: bool,
}

impl AppView {
    /// The tunnel under the cursor, or all tunnels of the host under the cursor, are toggled.
    pub open spec fn toggle_current(self) -> (AppView, Seq<EffectView>) {
        match (self.selection.host, self.selection.svc) {
            (Some(host), Some(svc)) => match self.cfg.lookup(host, svc) {
                Some(p) => {
                    let (mgr, effects) = self.mgr.toggle_service(host, p.0.ssh, p.1);
                    (AppView { mgr, ..self }, effects)
                },
                None => (self, Seq::empty()),
            },
            (Some(host), None) => match self.cfg.find_host(host) {
                Some(i) => {
                    let h = self.cfg.hosts[i];
                    let (mgr, effects) = self.mgr.toggle_host(host, h.ssh, h.services);
                    (AppView { mgr, ..self }, effects)
                },
                None => (self, Seq::empty()),
            },
            _ => (self, Seq::empty()),
        }
    }

    /// A service under the cursor is toggled; a host under the cursor is expanded or collapsed.
    pub open spec fn enter_current(self) -> (AppView, Seq<EffectView>) {
        if self.selection.svc is Some {
            self.toggle_current()
        } else {
            match self.selection.host {
                Some(host) => (
                    AppView {
                        expanded: if self.expanded.contains(host) {
                            self.expanded.remove(host)
                        } else {
                            self.expanded.insert(host)
                        },
                        ..self
                    },
                    Seq::empty(),
                ),
                None => (self, Seq::empty()),
            }
        }
    }

    pub open spec fn awaiting_open(self, id: Seq<char>) -> AppView {
        AppView { pending_opens: self.pending_opens.insert(id), ..self }
    }

    /// The service under the cursor is opened: at once where its tunnel is up, and once it is up
    /// where it is not; a tunnel that is at rest is started for it.
    pub open spec fn open_current(self) -> (AppView, Seq<EffectView>) {
        match (self.selection.host, self.selection.svc) {
            (_, None) => (self.with_status("select a service to open"@), Seq::empty()),
            (None, Some(svc)) => (self, Seq::empty()),
            (Some(host), Some(svc)) => match self.cfg.lookup(host, svc) {
                None => (self, Seq::empty()),
                Some(p) => {
                    let id = tunnel::tunnel_id(host, svc);
                    match self.mgr.state_of(id) {
                        ConnStateView::Connected { local_port } => (
                            self,
                            seq![EffectView::Open(p.1.url(local_port))],
                        ),
                        ConnStateView::Disconnecting => (
                            self.with_status("disconnecting — wait"@),
                            Seq::empty(),
                        ),
                        ConnStateView::Connecting => (
                            self.awaiting_open(id).with_status(
                                "waiting for "@ + host + "/"@ + svc + "…"@,
                            ),
                            Seq::empty(),
                        ),
                        _ => {
                            let (mgr, effects) = self.mgr.connect(host, p.0.ssh, p.1);
                            (
                                AppView { mgr, ..self.awaiting_open(id) }.with_status(
                                    "connecting "@ + host + "/"@ + svc
                                        + " — will open when ready"@,
                                ),
                                effects,
                            )
                        },
                    }
                },
            },
        }
    }

    /// The user is told how opening `url` went: `failure` says what went wrong, where something
    /// did.
    pub open spec fn note_opened(self, url: Seq<char>, failure: Option<Seq<char>>) -> AppView {
        match failure {
            Some(e) => self.with_status("open failed: "@ + e),
            None => self.with_status("opening "@ + url),
        }
    }

    /// The address of the service whose tunnel is `id`, while the tunnel listens on `local_port`.
    pub open spec fn url_for_id(self, id: Seq<char>, local_port: u16) -> Option<Seq<char>> {
        match text::cut_at_first(id, '/') {
            Some(p) => match self.cfg.lookup(p.0, p.1) {
                Some(q) => Some(q.1.url(local_port)),
                None => None,
            },
            None => None,
        }
    }

    /// What a tunnel reports is noted. A service that waits to be opened is opened once its
    /// tunnel is up, and waits no more once the tunnel is up, has failed or is disconnected.
    pub open spec fn handle_tunnel_event(self, ev: TunnelEventView, stamp: LogStampView) -> (
        AppView,
        Seq<EffectView>,
    ) {
        let waits = self.pending_opens.contains(ev.id());
        let heard = AppView { mgr: self.mgr.apply_event(ev, stamp), ..self };
        let settled = AppView { pending_opens: self.pending_opens.remove(ev.id()), ..heard };
        match ev {
            TunnelEventView::Connected { id, local_port } => (
                settled,
                match self.url_for_id(id, local_port) {
                    Some(url) if waits => seq![EffectView::Open(url)],
                    _ => Seq::empty(),
                },
            ),
            TunnelEventView::Failed { id, reason } => (
                if waits {
                    settled.with_status(id + " failed: "@ + reason)
                } else {
                    settled
                },
                Seq::empty(),
            ),
            TunnelEventView::Disconnected { id } => (settled, Seq::empty()),
            _ => (heard, Seq::empty()),
        }
    }

    /// The configuration that was found at `path` takes the place of the one in use, whose
    /// tunnels are told to end; what cannot be loaded changes nothing but that the user is told.
    pub open spec fn reload(self, path: Seq<char>, found: FoundView) -> (
        AppView,
        Seq<EffectView>,
    ) {
        match config::loaded(path, found) {
            Ok(cfg) => {
                let (mgr, effects) = disconnect_hosts(self.mgr, self.cfg.hosts);
                (AppView { cfg, mgr, ..self }.with_status("config reloaded"@), effects)
            },
            Err(e) => (self.with_status("reload failed: "@ + e.message()), Seq::empty()),
        }
    }

    /// The user is told where the configuration could not be saved.
    pub open spec fn save_config(self, failure: Option<Seq<char>>) -> AppView {
        match failure {
            Some(e) => self.with_status("save failed: "@ + e),
            None => self,
        }
    }
}

/// The tunnels to all services of `hosts` are told to end in turn.
pub open spec fn disconnect_hosts(m: ManagerView, hosts: Seq<HostView>) -> (
    ManagerView,
    Seq<EffectView>,
)
    decreases hosts.len(),
{
    if hosts.len() == 0 {
        (m, Seq::empty())
    } else {
        let (mid, done) = disconnect_hosts(m, hosts.drop_last());
        let (next, more) = mid.disconnect_each(hosts.last().name, hosts.last().services);
        (next, done + more)
    }
}

impl App {
    /// Toggles the tunnel under the cursor, or all tunnels of the host under the cursor.
    pub fn toggle_current(&mut self) -> (r: Vec<Effect>)
        ensures
            (final(self)@, seqs::views(r@)) == old(self)@.toggle_current(),
    {
        match (self.selection.host.clone(), self.selection.svc.clone()) {
            (Some(host), Some(svc)) => match self.cfg.lookup(host.as_str(), svc.as_str()) {
                Some(p) => self.mgr.toggle_service(host.as_str(), p.0.as_str(), &p.1),
                None => Vec::new(),
            },
            (Some(host), None) => match self.cfg.find_host(host.as_str()) {
                Some(i) => {
                    assert(self.cfg.hosts@[i as int]@ == self@.cfg.hosts[i as int]);
                    self.mgr.toggle_host(
                        host.as_str(),
                        self.cfg.hosts[i].ssh.as_str(),
                        self.cfg.hosts[i].services.as_slice(),
                    )
                },
                None => Vec::new(),
            },
            _ => Vec::new(),
        }
    }

    /// Toggles a service under the cursor; expands or collapses a host under the cursor.
    pub fn enter_current(&mut self) -> (r: Vec<Effect>)
        ensures
            (final(self)@, seqs::views(r@)) == old(self)@.enter_current(),
    {
        if self.selection.svc.is_some() {
            self.toggle_current()
        } else {
            match self.selection.host.clone() {
                Some(host) => {
                    if self.expanded.contains(host.as_str()) {
                        let _ = self.expanded.remove(host.as_str());
                    } else {
                        self.expanded.insert(host);
                    }
                },
                None => {},
            }
            Vec::new()
        }
    }

    /// Opens the service under the cursor, now or once its tunnel is up.
    pub fn open_current(&mut self) -> (r: Vec<Effect>)
        ensures
            (final(self)@, seqs::views(r@)) == old(self)@.open_current(),
    {
        let svc_name = match self.selection.svc.clone() {
            Some(s) => s,
            None => {
                self.status = Some("select a service to open".to_string());
                return Vec::new();
            },
        };
        let host_name = match self.selection.host.clone() {
            Some(h) => h,
            None => {
                return Vec::new();
            },
        };
        let (ssh, svc) = match self.cfg.lookup(host_name.as_str(), svc_name.as_str()) {
            Some(p) => p,
            None => {
                return Vec::new();
            },
        };
        let id = make_id(host_name.as_str(), svc_name.as_str());
        match self.mgr.state_of(&id) {
            ConnState::Connected { local_port } => {
                let mut effects: Vec<Effect> = Vec::new();
                effects.push(Effect::Open(svc.url(local_port)));
                assert(seqs::views(effects@) =~= old(self)@.open_current().1);
                effects
            },
            ConnState::Disconnecting => {
                self.status = Some("disconnecting — wait".to_string());
                Vec::new()
            },
            ConnState::Connecting => {
                self.pending_opens.insert(id);
                self.status = Some(
                    text::cat5("waiting for ", host_name.as_str(), "/", svc_name.as_str(), "…"),
                );
                Vec::new()
            },
            _ => {
                self.pending_opens.insert(id);
                let effects = self.mgr.connect(host_name.as_str(), ssh.as_str(), &svc);
                self.status = Some(
                    text::cat5(
                        "connecting ",
                        host_name.as_str(),
                        "/",
                        svc_name.as_str(),
                        " — will open when ready",
                    ),
                );
                effects
            },
        }
    }

    /// Tells the user how opening `url` went.
    pub fn note_opened(&mut self, url: &str, failure: Option<String>)
        ensures
            final(self)@ == old(self)@.note_opened(url@, crate::ui::text_in(failure)),
    {
        self.status = Some(
            match failure {
                Some(e) => text::cat2("open failed: ", e.as_str()),
                None => text::cat2("opening ", url),
            },
        );
    }

    /// The address of the service whose tunnel is `id`, while the tunnel listens on `local_port`.
    pub fn url_for_id(&self, id: &TunnelId, local_port: u16) -> (r: Option<String>)
        ensures
            crate::ui::text_in(r) == self@.url_for_id(id@, local_port),
    {
        match text::split_once(id.as_str(), '/') {
            Some(p) => match self.cfg.lookup(p.0.as_str(), p.1.as_str()) {
                Some(q) => Some(q.1.url(local_port)),
                None => None,
            },
            None => None,
        }
    }

    /// Takes note of what a tunnel reports. `stamp` goes with the line that is logged, where one
    /// is.
    pub fn handle_tunnel_event(&mut self, ev: TunnelEvent, stamp: LogStamp) -> (r: Vec<Effect>)
        ensures
            (final(self)@, seqs::views(r@)) == old(self)@.handle_tunnel_event(ev@, stamp@),
    {
        let mut effects: Vec<Effect> = Vec::new();
        match &ev {
            TunnelEvent::Connected { id, local_port } => {
                let url = self.url_for_id(id, *local_port);
                if self.pending_opens.remove(id.as_str()) {
                    match url {
                        Some(url) => {
                            effects.push(Effect::Open(url));
                        },
                        None => {},
                    }
                }
            },
            TunnelEvent::Failed { id, reason } => {
                if self.pending_opens.remove(id.as_str()) {
                    self.status = Some(text::cat3(id.as_str(), " failed: ", reason.as_str()));
                }
            },
            TunnelEvent::Disconnected { id } => {
                let _ = self.pending_opens.remove(id.as_str());
            },
            _ => {},
        }
        self.mgr.apply_event(ev, stamp);
        assert(seqs::views(effects@) =~= old(self)@.handle_tunnel_event(ev@, stamp@).1);
        effects
    }

    /// Takes up the configuration that was found at `path`.
    pub fn reload(&mut self, path: &str, found: Found) -> (r: Vec<Effect>)
        ensures
            (final(self)@, seqs::views(r@)) == old(self)@.reload(path@, found@),
    {
        match config::load(path, found) {
            Ok(cfg) => {
                let ghost hosts = self@.cfg.hosts;
                let mut effects: Vec<Effect> = Vec::new();
                let mut i: usize = 0;
                assert(hosts.take(0) =~= Seq::<HostView>::empty());
                while i < self.cfg.hosts.len()
                    invariant
                        i <= self.cfg.hosts@.len(),
                        hosts == self@.cfg.hosts,
                        (self@.mgr, seqs::views(effects@)) == disconnect_hosts(
                            old(self)@.mgr,
                            hosts.take(i as int),
                        ),
                        self@ == (AppView { mgr: self@.mgr, ..old(self)@ }),
                    decreases self.cfg.hosts@.len() - i,
                {
                    assert(hosts.take(i + 1).drop_last() =~= hosts.take(i as int));
                    assert(self.cfg.hosts@[i as int]@ == hosts[i as int]);
                    let mut more = self.mgr.disconnect_all(
                        self.cfg.hosts[i].name.as_str(),
                        self.cfg.hosts[i].services.as_slice(),
                    );
                    effects.append(&mut more);
                    i = i + 1;
                }
                assert(hosts.take(i as int) =~= hosts);
                self.cfg = cfg;
                self.status = Some("config reloaded".to_string());
                effects
            },
            Err(e) => {
                let why = e.message();
                self.status = Some(text::cat2("reload failed: ", why.as_str()));
                Vec::new()
            },
        }
    }

    /// Tells the user where the configuration could not be saved.
    pub fn save_config(&mut self, failure: Option<String>)
        ensures
            final(self)@ == old(self)@.save_config(crate::ui::text_in(failure)),
    {
        match failure {
            Some(e) => {
                self.status = Some(text::cat2("save failed: ", e.as_str()));
            },
            None => {},
        }
    }
}

impl FormView {
    /// The field with the focus holds `value`.
    pub open spec fn with_value(self, value: Seq<char>) -> FormView {
        FormView {
            fields: self.fields.update(
                self.focus,
                FieldView { value, ..self.fields[self.focus] },
            ),
            ..self
        }
    }

    /// What a key does to the form while it is filled in: it moves the focus round, or changes
    /// the text of the field that has it.
    pub open spec fn edit(self, k: KeyEvent) -> FormView {
        let n = self.fields.len() as int;
        let value = self.fields[self.focus].value;
        match k.code {
            KeyCode::Tab | KeyCode::Down => FormView { focus: (self.focus + 1) % n, ..self },
            KeyCode::BackTab | KeyCode::Up => FormView {
                focus: (self.focus + n - 1) % n,
                ..self
            },
            KeyCode::Backspace => self.with_value(
                if value.len() > 0 {
                    value.drop_last()
                } else {
                    value
                },
            ),
            KeyCode::Char(c) => if k.control && (c == 'u' || c == 'U') {
                self.with_value(Seq::empty())
            } else {
                self.with_value(value.push(c))
            },
            _ => self,
        }
    }
}

impl FormModal {
    /// Does to the form what `k` does while it is filled in.
    pub fn edit(&mut self, k: KeyEvent)
        requires
            old(self).focus < old(self).fields@.len(),
        ensures
            final(self)@ == old(self)@.edit(k),
            final(self).focus < final(self).fields@.len(),
            final(self).fields@.len() == old(self).fields@.len(),
            final(self).action == old(self).action,
    {
        let n: usize = self.fields.len();
        let at: usize = self.focus;
        assert(self@.fields[at as int] == self.fields@[at as int]@);
        match k.code {
            KeyCode::Tab | KeyCode::Down => {
                self.focus = if at == n - 1 {
                    0
                } else {
                    at + 1
                };
                assert(self.focus == (at + 1) % n as int) by {
                    if at == n - 1 {
                        vstd::arithmetic::div_mod::lemma_mod_self_0(n as int);
                    } else {
                        vstd::arithmetic::div_mod::lemma_small_mod((at + 1) as nat, n as nat);
                    }
                }
            },
            KeyCode::BackTab | KeyCode::Up => {
                self.focus = if at == 0 {
                    n - 1
                } else {
                    at - 1
                };
                assert(self.focus == (at + n - 1) % n as int) by {
                    if at == 0 {
                        vstd::arithmetic::div_mod::lemma_small_mod((n - 1) as nat, n as nat);
                    } else {
                        vstd::arithmetic::div_mod::lemma_small_mod((at - 1) as nat, n as nat);
                        vstd::arithmetic::div_mod::lemma_mod_add_multiples_vanish(
                            at - 1,
                            n as int,
                        );
                    }
                }
            },
            KeyCode::Backspace => {
                let _ = self.fields[at].value.pop();
                assert(self@.fields =~= old(self)@.edit(k).fields);
            },
            KeyCode::Char(c) => {
                if k.control && (c == 'u' || c == 'U') {
                    self.fields[at].value = String::new();
                } else {
                    self.fields[at].value.push(c);
                }
                assert(self@.fields =~= old(self)@.edit(k).fields);
            },
            _ => {},
        }
    }
}

impl AppView {
    /// What a key does while nothing is shown over the tree.
    pub open spec fn tree_key(self, code: KeyCode) -> (AppView, Seq<EffectView>) {
        let none = Seq::<EffectView>::empty();
        match code {
            KeyCode::Char('q') => (AppView { should_quit: true, ..self }, none),
            KeyCode::Char('?') => (AppView { show_help: true, ..self }, none),
            KeyCode::Char('L') => (AppView { show_logs: !self.show_logs, ..self }, none),
            KeyCode::Char('r') => (self, seq![EffectView::Reload]),
            KeyCode::Char('j') | KeyCode::Down => (self.move_selection(1), none),
            KeyCode::Char('k') | KeyCode::Up => (self.move_selection(-1), none),
            KeyCode::Char('h') | KeyCode::Left => (
                if self.selection.svc is Some {
                    AppView {
                        selection: SelectionView { svc: None, ..self.selection },
                        ..self
                    }
                } else {
                    match self.selection.host {
                        Some(host) => AppView { expanded: self.expanded.remove(host), ..self },
                        None => self,
                    }
                },
                none,
            ),
            KeyCode::Char('l') | KeyCode::Right => (
                match self.selection.host {
                    Some(host) if self.selection.svc is None => AppView {
                        expanded: self.expanded.insert(host),
                        ..self
                    },
                    _ => self,
                },
                none,
            ),
            KeyCode::Char('c') => self.toggle_current(),
            KeyCode::Enter => self.enter_current(),
            KeyCode::Char('o') => self.open_current(),
            KeyCode::Char('a') => (
                if self.cfg.hosts.len() == 0 {
                    self.with_modal(ModalView::Form(forms::add_host_form()))
                } else {
                    self.open_add_service()
                },
                none,
            ),
            KeyCode::Char('A') => (self.with_modal(ModalView::Form(forms::add_host_form())), none),
            KeyCode::Char('e') => (self.open_edit(), none),
            KeyCode::Char('d') => (self.open_delete(), none),
            _ => (self, none),
        }
    }

    /// What a key does: what is shown over the tree takes it first.
    pub open spec fn key(self, k: KeyEvent) -> (AppView, Seq<EffectView>) {
        let none = Seq::<EffectView>::empty();
        match self.modal {
            ModalView::Error(e) => (self.with_modal(ModalView::Closed), none),
            ModalView::Confirm(c) => match k.code {
                KeyCode::Char('y') | KeyCode::Char('Y') => self.confirm_yes(),
                KeyCode::Char('n') | KeyCode::Char('N') | KeyCode::Esc => (
                    self.with_modal(ModalView::Closed),
                    none,
                ),
                _ => (self, none),
            },
            ModalView::Form(f) => match k.code {
                KeyCode::Esc => (self.with_modal(ModalView::Closed), none),
                KeyCode::Enter => self.submit_form(),
                _ => (self.with_modal(ModalView::Form(f.edit(k))), none),
            },
            ModalView::Closed => if self.show_help {
                (AppView { show_help: false, ..self }, none)
            } else {
                self.tree_key(k.code)
            },
        }
    }
}

/// Does what a key does while nothing is shown over the tree.
pub fn handle_tree_key(app: &mut App, k: KeyEvent) -> (r: Vec<Effect>)
    ensures
        (final(app)@, seqs::views(r@)) == old(app)@.tree_key(k.code),
        old(app)@.wf() ==> final(app)@.wf(),
        old(app)@.takes_keys() ==> final(app)@.takes_keys(),
{
    match k.code {
        KeyCode::Char('q') => {
            app.should_quit = true;
        },
        KeyCode::Char('?') => {
            app.show_help = true;
        },
        KeyCode::Char('L') => {
            app.show_logs = !app.show_logs;
        },
        KeyCode::Char('r') => {
            let mut r: Vec<Effect> = Vec::new();
            r.push(Effect::Reload);
            assert(seqs::views(r@) =~= seq![EffectView::Reload]);
            return r;
        },
        KeyCode::Char('j') | KeyCode::Down => {
            app.move_selection(1);
        },
        KeyCode::Char('k') | KeyCode::Up => {
            app.move_selection(-1);
        },
        KeyCode::Char('h') | KeyCode::Left => {
            if app.selection.svc.is_some() {
                app.selection.svc = None;
            } else {
                match app.selection.host.clone() {
                    Some(host) => {
                        let _ = app.expanded.remove(host.as_str());
                    },
                    None => {},
                }
            }
        },
        KeyCode::Char('l') | KeyCode::Right => {
            match app.selection.host.clone() {
                Some(host) => {
                    if app.selection.svc.is_none() {
                        app.expanded.insert(host);
                    }
                },
                None => {},
            }
        },
        KeyCode::Char('c') => {
            return app.toggle_current();
        },
        KeyCode::Enter => {
            return app.enter_current();
        },
        KeyCode::Char('o') => {
            return app.open_current();
        },
        KeyCode::Char('a') => {
            if app.cfg.hosts.len() == 0 {
                app.open_add_host();
            } else {
                app.open_add_service();
            }
        },
        KeyCode::Char('A') => {
            app.open_add_host();
        },
        KeyCode::Char('e') => {
            app.open_edit();
        },
        KeyCode::Char('d') => {
            app.open_delete();
        },
        _ => {},
    }
    Vec::new()
}

fn handle_form_key(app: &mut App, k: KeyEvent) -> (r: Vec<Effect>)
    requires
        old(app)@.takes_keys(),
        old(app)@.modal is Form,
    ensures
        (final(app)@, seqs::views(r@)) == old(app)@.key(k),
        final(app)@.takes_keys(),
        old(app)@.wf() ==> final(app)@.wf(),
{
    match k.code {
        KeyCode::Esc => {
            app.modal = Modal::Closed;
            Vec::new()
        },
        KeyCode::Enter => app.submit_form(),
        _ => {
            match &mut app.modal {
                Modal::Form(form) => {
                    form.edit(k);
                },
                _ => {},
            }
            Vec::new()
        },
    }
}

/// Does what a key does.
pub fn handle_key(app: &mut App, k: KeyEvent) -> (r: Vec<Effect>)
    requires
        old(app)@.takes_keys(),
    ensures
        (final(app)@, seqs::views(r@)) == old(app)@.key(k),
        final(app)@.takes_keys(),
        old(app)@.wf() ==> final(app)@.wf(),
{
    match &app.modal {
        Modal::Error(_) => {
            app.modal = Modal::Closed;
            Vec::new()
        },
        Modal::Confirm(_) => match k.code {
            KeyCode::Char('y') | KeyCode::Char('Y') => app.confirm_yes(),
            KeyCode::Char('n') | KeyCode::Char('N') | KeyCode::Esc => {
                app.modal = Modal::Closed;
                Vec::new()
            },
            _ => Vec::new(),
        },
        Modal::Form(_) => handle_form_key(app, k),
        Modal::Closed => {
            if app.show_help {
                app.show_help = false;
                Vec::new()
            } else {
                handle_tree_key(app, k)
            }
        },
    }
}

/// What the main loop waits for.
#[derive(Debug)]
pub enum LoopEvent {
    /// It is time to draw again.
    Tick,
    /// A key went down.
    Press(KeyEvent),
    /// The terminal reported something else: a key that came up, a change of size.
    OtherInput,
    /// The terminal reports no more.
    InputEnded,
    /// A tunnel reports; the stamp goes with the line that is logged, where one is.
    Tunnel(TunnelEvent, LogStamp),
}

pub enum LoopEventView {
    Tick,
    Press(KeyEvent),
    OtherInput,
    InputEnded,
    Tunnel(TunnelEventView, LogStampView),
}

impl View for LoopEvent {
    type V = LoopEventView;

    open spec fn view(&self) -> LoopEventView {
        match self {
            LoopEvent::Tick => LoopEventView::Tick,
            LoopEvent::Press(k) => LoopEventView::Press(*k),
            LoopEvent::OtherInput => LoopEventView::OtherInput,
            LoopEvent::InputEnded => LoopEventView::InputEnded,
            LoopEvent::Tunnel(ev, stamp) => LoopEventView::Tunnel(ev@, stamp@),
        }
    }
}

impl AppView {
    /// What one turn of the main loop does.
    pub open spec fn turn(self, ev: LoopEventView) -> (AppView, Seq<EffectView>) {
        match ev {
            LoopEventView::Press(k) => self.key(k),
            LoopEventView::Tunnel(ev, stamp) => self.handle_tunnel_event(ev, stamp),
            _ => (self, Seq::empty()),
        }
    }
}

impl AppView {
    /// Whether the main loop goes on after `ev`.
    pub open spec fn goes_on(self, ev: LoopEventView) -> bool {
        !(ev is InputEnded) && !self.turn(ev).0.should_quit
    }
}

/// One turn of the main loop: the answer says whether the loop goes on, and what is to be done.
/// It ends once the terminal reports no more, or once the user has quit.
pub fn run_step(app: &mut App, ev: LoopEvent) -> (r: (bool, Vec<Effect>))
    requires
        old(app)@.takes_keys(),
    ensures
        (final(app)@, seqs::views(r.1@)) == old(app)@.turn(ev@),
        r.0 == old(app)@.goes_on(ev@),
        final(app)@.takes_keys(),
        old(app)@.wf() ==> final(app)@.wf(),
{
    match ev {
        LoopEvent::Tick => (!app.should_quit, Vec::new()),
        LoopEvent::OtherInput => (!app.should_quit, Vec::new()),
        LoopEvent::InputEnded => (false, Vec::new()),
        LoopEvent::Press(k) => {
            let effects = handle_key(app, k);
            (!app.should_quit, effects)
        },
        LoopEvent::Tunnel(ev, stamp) => {
            let effects = app.handle_tunnel_event(ev, stamp);
            (!app.should_quit, effects)
        },
    }
}

} // verus!
