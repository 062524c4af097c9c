//! What holds of the user interface as a whole.
pub mod editing;
pub mod panels;
pub mod typing;

use std::path::PathBuf;

use vstd::prelude::*;

use crate::config;
use crate::config::{ConfigView, FoundView, HostView, ServiceView};
use crate::effect::EffectView;
use crate::manager;
use crate::manager::{LogStampView, ManagerView};
use crate::seqs;
use crate::text;
use crate::tunnel;
use crate::tunnel::TunnelEventView;
use crate::ui::forms;
use crate::ui::keys;
use crate::ui::keys::{KeyCode, KeyEvent, LoopEventView};
use crate::ui;
use crate::ui::draw;
use crate::ui::draw::Rect;
use crate::ui::{
    AppView, ConfirmActionView, FieldView, FormActionView, FormView, ModalView, RowView,
    SelectionView,
};

verus! {

impl AppView {
    /// What every state of the program keeps: an open form is in order, the configuration is
    /// valid, and the manager is sound.
    pub open spec fn sound(self) -> bool {
        &&& self.wf()
        &&& self.cfg.valid()
        &&& self.mgr.sound()
    }
}

proof fn lemma_filter_services_valid(h: HostView, p: spec_fn(ServiceView) -> bool)
    requires
        h.valid(),
    ensures
        (HostView { services: h.services.filter(p), ..h }).valid(),
    decreases h.services.len(),
{
    reveal(Seq::filter);
    let s = h.services;
    if s.len() > 0 {
        let less = HostView { services: s.drop_last(), ..h };
        assert forall|j: int| #![trigger less.services[j]] 0 <= j < less.services.len() implies (
        !text::blank(less.services[j].name) && less.services[j].port != 0) by {
            assert(less.services[j] == s[j]);
        }
        assert forall|j: int, k: int| 0 <= j < k < less.services.len() implies (
        #[trigger] less.services[j]).name != (#[trigger] less.services[k]).name by {
            assert(s[j].name != s[k].name);
        }
        lemma_filter_services_valid(less, p);
        seqs::lemma_filter_in(s.drop_last(), p);
        let t = s.drop_last().filter(p);
        let n = HostView { services: s.filter(p), ..h };
        let m = HostView { services: t, ..h };
        assert(m.valid());
        if p(s.last()) {
            assert(n.services == t.push(s.last()));
            assert forall|j: int| #![trigger n.services[j]] 0 <= j < n.services.len() implies (
            !text::blank(n.services[j].name) && n.services[j].port != 0) by {
                if j < t.len() {
                    assert(n.services[j] == m.services[j]);
                } else {
                    assert(n.services[j] == s[s.len() - 1]);
                }
            }
            assert forall|j: int, k: int| 0 <= j < k < n.services.len() implies (
            #[trigger] n.services[j]).name != (#[trigger] n.services[k]).name by {
                assert(n.services[j] == m.services[j]);
                if k < t.len() {
                    assert(n.services[k] == m.services[k]);
                } else {
                    assert(s.drop_last().contains(t[j]));
                    let a = choose|a: int|
                        0 <= a < s.drop_last().len() && s.drop_last()[a] == t[j];
                    assert(s[a].name != s[s.len() - 1].name);
                }
            }
        } else {
            assert(n.services == t);
        }
    }
}

proof fn lemma_filter_hosts_valid(c: ConfigView, p: spec_fn(HostView) -> bool)
    requires
        c.valid(),
    ensures
        (ConfigView { hosts: c.hosts.filter(p) }).valid(),
    decreases c.hosts.len(),
{
    reveal(Seq::filter);
    let s = c.hosts;
    if s.len() > 0 {
        let less = ConfigView { hosts: s.drop_last() };
        assert forall|i: int| 0 <= i < less.hosts.len() implies (
        #[trigger] less.hosts[i]).valid() by {
            assert(less.hosts[i] == s[i]);
        }
        assert forall|i: int, k: int| 0 <= i < k < less.hosts.len() implies (
        #[trigger] less.hosts[i]).name != (#[trigger] less.hosts[k]).name by {
            assert(s[i].name != s[k].name);
        }
        lemma_filter_hosts_valid(less, p);
        seqs::lemma_filter_in(s.drop_last(), p);
        let t = s.drop_last().filter(p);
        let n = ConfigView { hosts: s.filter(p) };
        let m = ConfigView { hosts: t };
        assert(m.valid());
        if p(s.last()) {
            assert(n.hosts == t.push(s.last()));
            assert forall|i: int| 0 <= i < n.hosts.len() implies (#[trigger] n.hosts[i]).valid() by {
                if i < t.len() {
                    assert(n.hosts[i] == m.hosts[i]);
                } else {
                    assert(n.hosts[i] == s[s.len() - 1]);
                }
            }
            assert forall|i: int, k: int| 0 <= i < k < n.hosts.len() implies (
            #[trigger] n.hosts[i]).name != (#[trigger] n.hosts[k]).name by {
                assert(n.hosts[i] == m.hosts[i]);
                if k < t.len() {
                    assert(n.hosts[k] == m.hosts[k]);
                } else {
                    assert(s.drop_last().contains(t[i]));
                    let a = choose|a: int|
                        0 <= a < s.drop_last().len() && s.drop_last()[a] == t[i];
                    assert(s[a].name != s[s.len() - 1].name);
                }
            }
        } else {
            assert(n.hosts == t);
        }
    }
}

/// A valid configuration stays valid where host `i` becomes `h`, which is valid and shares no
/// name with another host.
proof fn lemma_host_replaced(c: ConfigView, i: int, h: HostView)
    requires
        c.valid(),
        0 <= i < c.hosts.len(),
        h.valid(),
        h.name == c.hosts[i].name || c.find_host(h.name) is None,
    ensures
        (ConfigView { hosts: c.hosts.update(i, h) }).valid(),
{
    let n = ConfigView { hosts: c.hosts.update(i, h) };
    seqs::lemma_find(c.hosts, config::host_named(h.name));
    let p = config::host_named(h.name);
    assert forall|a: int, b: int| 0 <= a < b < n.hosts.len() implies (
    #[trigger] n.hosts[a]).name != (#[trigger] n.hosts[b]).name by {
        assert(c.hosts[a].name != c.hosts[b].name);
        if c.find_host(h.name) is None {
            assert(!p(c.hosts[a]));
            assert(!p(c.hosts[b]));
        }
    }
}

/// A valid host stays valid where service `j` becomes `s`, which has a name that no other service
/// has, and a port.
proof fn lemma_service_replaced(h: HostView, j: int, s: ServiceView)
    requires
        h.valid(),
        0 <= j < h.services.len(),
        !text::blank(s.name),
        s.port != 0,
        s.name == h.services[j].name || h.find_service(s.name) is None,
    ensures
        (HostView { services: h.services.update(j, s), ..h }).valid(),
{
    let n = HostView { services: h.services.update(j, s), ..h };
    seqs::lemma_find(h.services, config::service_named(s.name));
    let p = config::service_named(s.name);
    assert forall|a: int| #![trigger n.services[a]] 0 <= a < n.services.len() implies (
    !text::blank(n.services[a].name) && n.services[a].port != 0) by {
        assert(!text::blank(h.services[a].name) && h.services[a].port != 0);
    }
    assert forall|a: int, b: int| 0 <= a < b < n.services.len() implies (
    #[trigger] n.services[a]).name != (#[trigger] n.services[b]).name by {
        assert(h.services[a].name != h.services[b].name);
        if h.find_service(s.name) is None {
            assert(!p(h.services[a]));
            assert(!p(h.services[b]));
        }
    }
}

proof fn lemma_service_added(h: HostView, s: ServiceView)
    requires
        h.valid(),
        !text::blank(s.name),
        s.port != 0,
        h.find_service(s.name) is None,
    ensures
        (HostView { services: h.services.push(s), ..h }).valid(),
{
    let n = HostView { services: h.services.push(s), ..h };
    seqs::lemma_find(h.services, config::service_named(s.name));
    let p = config::service_named(s.name);
    assert forall|a: int| #![trigger n.services[a]] 0 <= a < n.services.len() implies (
    !text::blank(n.services[a].name) && n.services[a].port != 0) by {
        if a < h.services.len() {
            assert(!text::blank(h.services[a].name) && h.services[a].port != 0);
        }
    }
    assert forall|a: int, b: int| 0 <= a < b < n.services.len() implies (
    #[trigger] n.services[a]).name != (#[trigger] n.services[b]).name by {
        assert(!p(h.services[a]));
        if b < h.services.len() {
            assert(h.services[a].name != h.services[b].name);
        }
    }
}

proof fn lemma_host_added(c: ConfigView, h: HostView)
    requires
        c.valid(),
        h.valid(),
        c.find_host(h.name) is None,
    ensures
        (ConfigView { hosts: c.hosts.push(h) }).valid(),
{
    let n = ConfigView { hosts: c.hosts.push(h) };
    seqs::lemma_find(c.hosts, config::host_named(h.name));
    let p = config::host_named(h.name);
    assert forall|a: int| 0 <= a < n.hosts.len() implies (#[trigger] n.hosts[a]).valid() by {
        if a < c.hosts.len() {
            assert(c.hosts[a].valid());
        }
    }
    assert forall|a: int, b: int| 0 <= a < b < n.hosts.len() implies (
    #[trigger] n.hosts[a]).name != (#[trigger] n.hosts[b]).name by {
        assert(!p(c.hosts[a]));
        if b < c.hosts.len() {
            assert(c.hosts[a].name != c.hosts[b].name);
        }
    }
}

proof fn lemma_trimmed_not_blank(s: Seq<char>)
    requires
        text::trimmed(s).len() > 0,
    ensures
        !text::blank(text::trimmed(s)),
{
    text::trimming_twice_is_trimming_once(s);
    text::trimmed_is_empty_iff_blank(text::trimmed(s));
}

proof fn lemma_manager_sound(
    m: ManagerView,
    host: Seq<char>,
    ssh: Seq<char>,
    svc: ServiceView,
    services: Seq<ServiceView>,
)
    requires
        m.sound(),
    ensures
        m.connect(host, ssh, svc).0.sound(),
        m.disconnect(host, svc.name).0.sound(),
        m.toggle_service(host, ssh, svc).0.sound(),
        m.toggle_host(host, ssh, services).0.sound(),
        m.disconnect_each(host, services).0.sound(),
{
    manager::manager_stays_sound(
        m,
        host,
        ssh,
        svc,
        services,
        TunnelEventView::Connecting { id: host },
        LogStampView { level: manager::LogLevel::Info, timestamp: host },
    );
}

proof fn lemma_disconnect_sound(m: ManagerView, host: Seq<char>, name: Seq<char>)
    requires
        m.sound(),
    ensures
        m.disconnect(host, name).0.sound(),
{
    let svc = ServiceView { name, port: 0, scheme: name, path: name, local_port: None };
    lemma_manager_sound(m, host, host, svc, Seq::empty());
}

proof fn lemma_disconnect_hosts_sound(m: ManagerView, hosts: Seq<HostView>)
    requires
        m.sound(),
    ensures
        keys::disconnect_hosts(m, hosts).0.sound(),
    decreases hosts.len(),
{
    if hosts.len() > 0 {
        lemma_disconnect_hosts_sound(m, hosts.drop_last());
        let mid = keys::disconnect_hosts(m, hosts.drop_last()).0;
        let h = hosts.last();
        let svc = ServiceView {
            name: h.name,
            port: 0,
            scheme: h.name,
            path: h.name,
            local_port: None,
        };
        lemma_manager_sound(mid, h.name, h.ssh, svc, h.services);
    }
}

proof fn lemma_add_host_sound(app: AppView, name: Seq<char>, ssh: Seq<char>)
    requires
        app.sound(),
        name.len() > 0 ==> !text::blank(name),
    ensures
        app.add_host(name, ssh) matches Ok(p) ==> p.0.cfg.valid() && p.0.mgr.sound(),
{
    if app.add_host(name, ssh) is Ok {
        lemma_host_added(app.cfg, HostView { name, ssh, services: Seq::empty() });
    }
}

proof fn lemma_edit_host_sound(
    app: AppView,
    original: Seq<char>,
    name: Seq<char>,
    ssh: Seq<char>,
)
    requires
        app.sound(),
        name.len() > 0 ==> !text::blank(name),
    ensures
        app.edit_host(original, name, ssh) matches Ok(p) ==> p.0.cfg.valid() && p.0.mgr.sound(),
{
    if app.edit_host(original, name, ssh) is Ok {
        seqs::lemma_find(app.cfg.hosts, config::host_named(original));
        let i = app.cfg.find_host(original)->0;
        let h = app.cfg.hosts[i];
        assert(h.valid());
        let n = HostView { name, ssh, services: h.services };
        assert(n.valid()) by {
            assert forall|j: int| #![trigger n.services[j]] 0 <= j < n.services.len() implies (
            !text::blank(n.services[j].name) && n.services[j].port != 0) by {
                assert(!text::blank(h.services[j].name) && h.services[j].port != 0);
            }
            assert forall|j: int, k: int| 0 <= j < k < n.services.len() implies (
            #[trigger] n.services[j]).name != (#[trigger] n.services[k]).name by {
                assert(h.services[j].name != h.services[k].name);
            }
        }
        lemma_host_replaced(app.cfg, i, n);
    }
}

proof fn lemma_add_service_sound(
    app: AppView,
    host: Seq<char>,
    name: Seq<char>,
    port: Seq<char>,
    scheme: Seq<char>,
    path: Seq<char>,
)
    requires
        app.sound(),
        name.len() > 0 ==> !text::blank(name),
    ensures
        app.add_service(host, name, port, scheme, path) matches Ok(p) ==> p.0.cfg.valid()
            && p.0.mgr.sound(),
{
    if app.add_service(host, name, port, scheme, path) is Ok {
        seqs::lemma_find(app.cfg.hosts, config::host_named(host));
        let i = app.cfg.find_host(host)->0;
        let h = app.cfg.hosts[i];
        assert(h.valid());
        let s = ServiceView {
            name,
            port: forms::form_port(port)->Ok_0,
            scheme: forms::or_default(scheme, "http"@),
            path: forms::or_default(path, "/"@),
            local_port: None,
        };
        lemma_service_added(h, s);
        lemma_host_replaced(app.cfg, i, HostView { services: h.services.push(s), ..h });
    }
}

proof fn lemma_edit_service_sound(
    app: AppView,
    host: Seq<char>,
    original: Seq<char>,
    name: Seq<char>,
    port: Seq<char>,
    scheme: Seq<char>,
    path: Seq<char>,
)
    requires
        app.sound(),
        name.len() > 0 ==> !text::blank(name),
    ensures
        app.edit_service(host, original, name, port, scheme, path) matches Ok(p)
            ==> p.0.cfg.valid() && p.0.mgr.sound(),
{
    if app.edit_service(host, original, name, port, scheme, path) is Ok {
        seqs::lemma_find(app.cfg.hosts, config::host_named(host));
        let i = app.cfg.find_host(host)->0;
        let h = app.cfg.hosts[i];
        assert(h.valid());
        seqs::lemma_find(h.services, config::service_named(original));
        let j = h.find_service(original)->0;
        let s = ServiceView {
            name,
            port: forms::form_port(port)->Ok_0,
            scheme: forms::or_default(scheme, "http"@),
            path: forms::or_default(path, "/"@),
            ..h.services[j]
        };
        lemma_service_replaced(h, j, s);
        lemma_host_replaced(app.cfg, i, HostView { services: h.services.update(j, s), ..h });
        lemma_disconnect_sound(app.mgr, host, original);
    }
}

proof fn lemma_submit_sound(app: AppView)
    requires
        app.sound(),
    ensures
        app.submit_form().0.sound(),
{
    if let ModalView::Form(f) = app.modal {
        let values = f.fields.map_values(|x: FieldView| text::trimmed(x.value));
        assert(values[0] == text::trimmed(f.fields[0].value));
        if values[0].len() > 0 {
            lemma_trimmed_not_blank(f.fields[0].value);
        }
        match f.action {
            FormActionView::AddHost => lemma_add_host_sound(app, values[0], values[1]),
            FormActionView::EditHost { original } => lemma_edit_host_sound(
                app,
                original,
                values[0],
                values[1],
            ),
            FormActionView::AddService { host } => lemma_add_service_sound(
                app,
                host,
                values[0],
                values[1],
                values[2],
                values[3],
            ),
            FormActionView::EditService { host, original_svc } => lemma_edit_service_sound(
                app,
                host,
                original_svc,
                values[0],
                values[1],
                values[2],
                values[3],
            ),
        }
    }
}

proof fn lemma_confirm_sound(app: AppView)
    requires
        app.sound(),
    ensures
        app.confirm_yes().0.sound(),
{
    if let ModalView::Confirm(c) = app.modal {
        match c.action {
            ConfirmActionView::DeleteHost(name) => {
                lemma_filter_hosts_valid(app.cfg, config::host_not_named(name));
                if let Some(i) = app.cfg.find_host(name) {
                    let s = ServiceView {
                        name,
                        port: 0,
                        scheme: name,
                        path: name,
                        local_port: None,
                    };
                    lemma_manager_sound(app.mgr, name, name, s, app.cfg.hosts[i].services);
                }
            },
            ConfirmActionView::DeleteService { host, svc } => {
                lemma_disconnect_sound(app.mgr, host, svc);
                if let Some(i) = app.cfg.find_host(host) {
                    seqs::lemma_find(app.cfg.hosts, config::host_named(host));
                    let h = app.cfg.hosts[i];
                    assert(h.valid());
                    let p = config::service_not_named(svc);
                    lemma_filter_services_valid(h, p);
                    lemma_host_replaced(app.cfg, i, HostView { services: h.services.filter(p), ..h });
                }
            },
        }
    }
}

proof fn lemma_toggle_sound(app: AppView)
    requires
        app.sound(),
    ensures
        app.toggle_current().0.sound(),
        app.open_current().0.sound(),
{
    if let (Some(host), Some(svc)) = (app.selection.host, app.selection.svc) {
        if let Some(p) = app.cfg.lookup(host, svc) {
            lemma_manager_sound(app.mgr, host, p.0.ssh, p.1, Seq::empty());
        }
    } else if let Some(host) = app.selection.host {
        if let Some(i) = app.cfg.find_host(host) {
            let h = app.cfg.hosts[i];
            let s = ServiceView {
                name: host,
                port: 0,
                scheme: host,
                path: host,
                local_port: None,
            };
            lemma_manager_sound(app.mgr, host, h.ssh, s, h.services);
        }
    }
}

/// The program is sound at its start, where its configuration was loaded, and stays so whatever
/// happens: keys, reports of tunnels and reloads leave an open form in order, the configuration
/// valid and the manager sound. So what is to be saved is never refused.
pub proof fn program_stays_sound(
    cfg: ConfigView,
    cfg_path: PathBuf,
    app: AppView,
    ev: LoopEventView,
    path: Seq<char>,
    found: FoundView,
)
    requires
        cfg.valid(),
        app.sound(),
    ensures
        AppView::initial(cfg, cfg_path).sound(),
        app.turn(ev).0.sound(),
        app.reload(path, found).0.sound(),
{
    lemma_disconnect_hosts_sound(app.mgr, app.cfg.hosts);
    config::loaded_configuration_is_valid(path, found);
    lemma_submit_sound(app);
    lemma_confirm_sound(app);
    lemma_toggle_sound(app);
    match ev {
        LoopEventView::Press(k) => {},
        LoopEventView::Tunnel(e, stamp) => {
            let s = ServiceView {
                name: path,
                port: 0,
                scheme: path,
                path,
                local_port: None,
            };
            manager::manager_stays_sound(app.mgr, path, path, s, Seq::empty(), e, stamp);
        },
        _ => {},
    }
}

proof fn lemma_rows_of_hosts(hosts: Seq<HostView>, expanded: Set<Seq<char>>)
    ensures
        forall|k: int| #![trigger ui::tree_rows(hosts, expanded)[k]]
            0 <= k < ui::tree_rows(hosts, expanded).len() ==> exists|i: int|
                0 <= i < hosts.len() && ui::tree_rows(hosts, expanded)[k].selection().host == Some(
                    (#[trigger] hosts[i]).name,
                ),
    decreases hosts.len(),
{
    if hosts.len() > 0 {
        let less = hosts.drop_last();
        lemma_rows_of_hosts(less, expanded);
        let front = ui::tree_rows(less, expanded);
        let rows = ui::tree_rows(hosts, expanded);
        assert forall|k: int| #![trigger rows[k]] 0 <= k < rows.len() implies exists|i: int|
            0 <= i < hosts.len() && rows[k].selection().host == Some(
                (#[trigger] hosts[i]).name,
            ) by {
            if k < front.len() {
                assert(rows[k] == front[k]);
                let i = choose|i: int|
                    0 <= i < less.len() && front[k].selection().host == Some(
                        (#[trigger] less[i]).name,
                    );
                assert(hosts[i] == less[i]);
            } else {
                assert(rows[k] == ui::host_rows(hosts.last(), expanded)[k - front.len()]);
                assert(rows[k].selection().host == Some(hosts[hosts.len() - 1].name));
            }
        }
    }
}

proof fn lemma_rows_distinct(c: ConfigView, expanded: Set<Seq<char>>)
    requires
        c.valid(),
    ensures
        forall|a: int, b: int|
            0 <= a < b < ui::tree_rows(c.hosts, expanded).len() ==> (#[trigger] ui::tree_rows(
                c.hosts,
                expanded,
            )[a]).selection() != (#[trigger] ui::tree_rows(c.hosts, expanded)[b]).selection(),
    decreases c.hosts.len(),
{
    let hosts = c.hosts;
    if hosts.len() > 0 {
        let less = hosts.drop_last();
        let d = ConfigView { hosts: less };
        assert(d.valid()) by {
            assert forall|i: int| 0 <= i < less.len() implies (#[trigger] d.hosts[i]).valid() by {
                assert(hosts[i].valid());
            }
            assert forall|i: int, k: int| 0 <= i < k < less.len() implies (
            #[trigger] d.hosts[i]).name != (#[trigger] d.hosts[k]).name by {
                assert(hosts[i].name != hosts[k].name);
            }
        }
        lemma_rows_distinct(d, expanded);
        lemma_rows_of_hosts(less, expanded);
        let front = ui::tree_rows(less, expanded);
        let h = hosts.last();
        let back = ui::host_rows(h, expanded);
        let rows = ui::tree_rows(hosts, expanded);
        assert(hosts[hosts.len() - 1].valid());
        assert forall|a: int, b: int| 0 <= a < b < rows.len() implies (
        #[trigger] rows[a]).selection() != (#[trigger] rows[b]).selection() by {
            if b < front.len() {
                assert(rows[a] == front[a] && rows[b] == front[b]);
            } else if a < front.len() {
                assert(rows[a] == front[a] && rows[b] == back[b - front.len()]);
                let i = choose|i: int|
                    0 <= i < less.len() && front[a].selection().host == Some(
                        (#[trigger] less[i]).name,
                    );
                assert(hosts[i].name != hosts[hosts.len() - 1].name);
            } else {
                let m = a - front.len();
                let n = b - front.len();
                assert(rows[a] == back[m] && rows[b] == back[n]);
                assert(back[n] == (RowView::Service {
                    host: h.name,
                    svc_name: h.services[n - 1].name,
                }));
                if m > 0 {
                    assert(back[m] == (RowView::Service {
                        host: h.name,
                        svc_name: h.services[m - 1].name,
                    }));
                    assert(h.services[m - 1].name != h.services[n - 1].name);
                }
            }
        }
    }
}

/// In a valid configuration no two rows of the tree are the same: where row `i` is selected, row
/// `i` is the one that is found selected.
pub proof fn selected_row_is_found(app: AppView, i: int)
    requires
        app.cfg.valid(),
        0 <= i < app.rows().len(),
        app.selection == app.rows()[i].selection(),
    ensures
        app.selected(app.rows()) == Some(i),
{
    let rows = app.rows();
    let p = ui::row_selected(app.selection);
    lemma_rows_distinct(app.cfg, app.expanded);
    assert forall|j: int| 0 <= j < i implies !p(#[trigger] rows[j]) by {
        assert(rows[j].selection() != rows[i].selection());
    }
    seqs::lemma_find_at(rows, p, i);
}

/// Moving the selection by some rows and back by as many leads back to where it was.
pub proof fn moving_back_undoes_moving(app: AppView, delta: int)
    requires
        app.cfg.valid(),
        app.selected(app.rows()) is Some,
    ensures
        app.move_selection(delta).move_selection(-delta) == app,
{
    let rows = app.rows();
    let n = rows.len() as int;
    let i = app.selected(rows)->0;
    seqs::lemma_find(rows, ui::row_selected(app.selection));
    let k = (i + delta) % n;
    let moved = app.move_selection(delta);
    vstd::arithmetic::div_mod::lemma_mod_bound(i + delta, n);
    selected_row_is_found(moved, k);
    assert((k - delta) % n == i) by {
        vstd::arithmetic::div_mod::lemma_sub_mod_noop(i + delta, delta, n);
        vstd::arithmetic::div_mod::lemma_sub_mod_noop(k, delta, n);
        vstd::arithmetic::div_mod::lemma_mod_twice(i + delta, n);
        vstd::arithmetic::div_mod::lemma_small_mod(i as nat, n as nat);
    }
    assert(moved.move_selection(-delta).selection == rows[i].selection());
}

/// The tree is round: moving the selection by as many rows as there are leads back to where it
/// was.
pub proof fn moving_round_comes_back(app: AppView)
    requires
        app.selected(app.rows()) is Some,
    ensures
        app.move_selection(app.rows().len() as int) == app,
{
    let rows = app.rows();
    let n = rows.len() as int;
    let i = app.selected(rows)->0;
    seqs::lemma_find(rows, ui::row_selected(app.selection));
    vstd::arithmetic::div_mod::lemma_mod_add_multiples_vanish(i, n);
    vstd::arithmetic::div_mod::lemma_small_mod(i as nat, n as nat);
    assert((n + i) % n == i);
}

/// The next field and back is the field that had the focus; and what is typed is taken out again
/// by the backspace key.
pub proof fn form_keys_undo_each_other(f: FormView, c: char, control: bool)
    requires
        0 <= f.focus < f.fields.len(),
    ensures
        f.edit(KeyEvent { code: KeyCode::Tab, control }).edit(
            KeyEvent { code: KeyCode::BackTab, control },
        ) == f,
        f.edit(KeyEvent { code: KeyCode::BackTab, control }).edit(
            KeyEvent { code: KeyCode::Tab, control },
        ) == f,
        !(control && (c == 'u' || c == 'U')) ==> f.edit(
            KeyEvent { code: KeyCode::Char(c), control },
        ).edit(KeyEvent { code: KeyCode::Backspace, control }) == f,
{
    let n = f.fields.len() as int;
    let i = f.focus;
    vstd::arithmetic::div_mod::lemma_small_mod(i as nat, n as nat);
    if i == n - 1 {
        vstd::arithmetic::div_mod::lemma_mod_self_0(n);
        vstd::arithmetic::div_mod::lemma_small_mod((n - 1) as nat, n as nat);
    } else {
        vstd::arithmetic::div_mod::lemma_small_mod((i + 1) as nat, n as nat);
        vstd::arithmetic::div_mod::lemma_mod_add_multiples_vanish(i, n);
    }
    if i == 0 {
        vstd::arithmetic::div_mod::lemma_small_mod((n - 1) as nat, n as nat);
        vstd::arithmetic::div_mod::lemma_mod_self_0(n);
    } else {
        vstd::arithmetic::div_mod::lemma_small_mod((i - 1) as nat, n as nat);
        vstd::arithmetic::div_mod::lemma_mod_add_multiples_vanish(i - 1, n);
    }
    if !(control && (c == 'u' || c == 'U')) {
        let typed = f.edit(KeyEvent { code: KeyCode::Char(c), control });
        let value = f.fields[i].value;
        assert(value.push(c).drop_last() =~= value);
        let back = typed.edit(KeyEvent { code: KeyCode::Backspace, control });
        assert(back.fields =~= f.fields);
    }
}

/// A form that is refused changes nothing but that the error is shown, asks for nothing to be
/// done, and the next key, whichever it is, only takes the error away.
pub proof fn refused_form_changes_nothing(app: AppView, k: KeyEvent)
    requires
        app.submit_form().0.modal is Error,
        app.modal is Form,
    ensures
        app.submit_form().1 == Seq::<EffectView>::empty(),
        app.submit_form().0 == app.with_modal(app.submit_form().0.modal),
        app.submit_form().0.key(k) == (
            app.with_modal(ModalView::Closed),
            Seq::<EffectView>::empty(),
        ),
{
}

/// Whatever key changes the configuration also has it saved.
pub proof fn every_change_is_saved(app: AppView, k: KeyEvent)
    requires
        app.key(k).0.cfg != app.cfg,
    ensures
        app.key(k).1.contains(EffectView::Save),
        app.key(k).1.last() == EffectView::Save,
{
    let effects = app.key(k).1;
    assert(effects.last() == EffectView::Save);
    assert(effects[effects.len() - 1] == EffectView::Save);
}

/// The program is told to quit by `q`, where nothing is shown over the tree, and by no other key.
pub proof fn only_q_quits(app: AppView, k: KeyEvent)
    ensures
        app.key(k).0.should_quit <==> app.should_quit || (app.modal is Closed && !app.show_help
            && k.code == KeyCode::Char('q')),
{
}

/// The help goes with the next key, whichever it is; the log is hidden by the key that shows it;
/// a host that is expanded and then collapsed, or the other way round, is as it was.
pub proof fn keys_undo_themselves(app: AppView, k: KeyEvent, control: bool)
    requires
        app.modal is Closed,
        !app.show_help,
    ensures
        ({
            let help = KeyEvent { code: KeyCode::Char('?'), control };
            app.key(help).0.key(k) == (app, Seq::<EffectView>::empty())
        }),
        ({
            let log = KeyEvent { code: KeyCode::Char('L'), control };
            app.key(log).0.key(log) == (app, Seq::<EffectView>::empty())
        }),
        app.selection.svc is None ==> {
            let enter = KeyEvent { code: KeyCode::Enter, control };
            app.key(enter).0.key(enter) == (app, Seq::<EffectView>::empty())
        },
        app.selection.svc is None && app.selection.host is Some ==> {
            let host = app.selection.host->0;
            let shut = KeyEvent { code: KeyCode::Left, control };
            let open = KeyEvent { code: KeyCode::Right, control };
            &&& app.expanded.contains(host) ==> app.key(shut).0.key(open).0 == app
            &&& !app.expanded.contains(host) ==> app.key(open).0.key(shut).0 == app
        },
{
    if let (Some(host), None) = (app.selection.host, app.selection.svc) {
        let e = app.expanded;
        if e.contains(host) {
            assert(e.remove(host).insert(host) =~= e);
        } else {
            assert(e.insert(host).remove(host) =~= e);
        }
    }
}

/// A service whose tunnel is not up yet is opened once it is: the address that is opened has the
/// port on which the tunnel is up. A host with a slash in its name is left out: its tunnels
/// cannot be told back from their ids.
pub proof fn waiting_service_is_opened(
    app: AppView,
    host: Seq<char>,
    svc: Seq<char>,
    local_port: u16,
    stamp: LogStampView,
)
    requires
        app.selection == SelectionView::on_service(host, svc),
        app.cfg.lookup(host, svc) is Some,
        !host.contains('/'),
        !(app.mgr.state_of(tunnel::tunnel_id(host, svc)) is Connected),
        !(app.mgr.state_of(tunnel::tunnel_id(host, svc)) is Disconnecting),
    ensures
        ({
            let id = tunnel::tunnel_id(host, svc);
            let waiting = app.open_current().0;
            let (after, effects) = waiting.handle_tunnel_event(
                TunnelEventView::Connected { id, local_port },
                stamp,
            );
            &&& waiting.pending_opens.contains(id)
            &&& waiting.mgr.state_of(id) is Connecting
            &&& effects == seq![
                EffectView::Open((app.cfg.lookup(host, svc)->0).1.url(local_port)),
            ]
            &&& !after.pending_opens.contains(id)
        }),
{
    tunnel::tunnel_id_cuts_back(host, svc);
}

/// A service that waits to be opened waits no more once its tunnel has failed, and the user is
/// told why.
pub proof fn failed_tunnel_is_told(
    app: AppView,
    id: Seq<char>,
    reason: Seq<char>,
    stamp: LogStampView,
)
    requires
        app.pending_opens.contains(id),
    ensures
        ({
            let (after, effects) = app.handle_tunnel_event(
                TunnelEventView::Failed { id, reason },
                stamp,
            );
            &&& effects == Seq::<EffectView>::empty()
            &&& after.status == Some(id + " failed: "@ + reason)
            &&& !after.pending_opens.contains(id)
        }),
{
}

/// Only a tunnel that a service waits for leads to something being opened.
pub proof fn nothing_opens_unasked(app: AppView, ev: TunnelEventView, stamp: LogStampView)
    requires
        !app.pending_opens.contains(ev.id()),
    ensures
        app.handle_tunnel_event(ev, stamp).1 == Seq::<EffectView>::empty(),
        app.handle_tunnel_event(ev, stamp).0.status == app.status,
{
}

proof fn lemma_disconnect_hosts(m: ManagerView, hosts: Seq<HostView>)
    ensures
        keys::disconnect_hosts(m, hosts).0.handles.dom() == m.handles.dom(),
        forall|i: int, j: int| #![trigger hosts[i].services[j]]
            0 <= i < hosts.len() && 0 <= j < hosts[i].services.len() && m.handles.contains_key(
                tunnel::tunnel_id(hosts[i].name, hosts[i].services[j].name),
            ) ==> keys::disconnect_hosts(m, hosts).0.state_of(
                tunnel::tunnel_id(hosts[i].name, hosts[i].services[j].name),
            ) is Disconnecting,
    decreases hosts.len(),
{
    if hosts.len() > 0 {
        let less = hosts.drop_last();
        let h = hosts.last();
        lemma_disconnect_hosts(m, less);
        let mid = keys::disconnect_hosts(m, less).0;
        manager::whole_host_is_ended(mid, h.name, h.services);
        assert forall|i: int, j: int| #![trigger hosts[i].services[j]]
            0 <= i < hosts.len() && 0 <= j < hosts[i].services.len() && m.handles.contains_key(
                tunnel::tunnel_id(hosts[i].name, hosts[i].services[j].name),
            ) implies keys::disconnect_hosts(m, hosts).0.state_of(
            tunnel::tunnel_id(hosts[i].name, hosts[i].services[j].name),
        ) is Disconnecting by {
            let id = tunnel::tunnel_id(hosts[i].name, hosts[i].services[j].name);
            assert(mid.handles.dom().contains(id));
            if i < less.len() {
                assert(less[i].services[j] == hosts[i].services[j]);
                manager::ending_keeps_the_ended(mid, h.name, h.services, id);
            } else {
                assert(h.services[j] == hosts[i].services[j]);
            }
        }
    }
}

/// A reload that goes through takes up what was found and ends every tunnel of the old
/// configuration that runs; one that does not go through changes nothing but that the user is
/// told why.
pub proof fn reload_ends_the_old_tunnels(app: AppView, path: Seq<char>, found: FoundView)
    ensures
        match config::loaded(path, found) {
            Ok(cfg) => {
                let after = app.reload(path, found).0;
                let hosts = app.cfg.hosts;
                &&& after.cfg == cfg
                &&& after.status == Some("config reloaded"@)
                &&& forall|i: int, j: int| #![trigger hosts[i].services[j]]
                    0 <= i < hosts.len() && 0 <= j < hosts[i].services.len()
                        && app.mgr.handles.contains_key(
                        tunnel::tunnel_id(hosts[i].name, hosts[i].services[j].name),
                    ) ==> after.mgr.state_of(
                        tunnel::tunnel_id(hosts[i].name, hosts[i].services[j].name),
                    ) is Disconnecting
            },
            Err(e) => app.reload(path, found) == (
                app.with_status("reload failed: "@ + e.message()),
                Seq::<EffectView>::empty(),
            ),
        },
{
    lemma_disconnect_hosts(app.mgr, app.cfg.hosts);
}

/// The service called `svc` on `host`.
pub open spec fn service_at(c: ConfigView, host: Seq<char>, svc: Seq<char>) -> Option<ServiceView> {
    match c.lookup(host, svc) {
        Some(p) => Some(p.1),
        None => None,
    }
}

/// What was deleted is gone, and hosts and services of other names are as they were.
pub proof fn deleted_is_gone(
    app: AppView,
    host: Seq<char>,
    svc: Seq<char>,
    h: HostView,
    other: Seq<char>,
)
    requires
        app.modal is Confirm,
    ensures
        app.modal->Confirm_0.action == ConfirmActionView::DeleteHost(host) ==> {
            &&& app.confirm_yes().0.cfg.find_host(host) is None
            &&& h.name != host ==> (app.cfg.hosts.contains(h)
                <==> app.confirm_yes().0.cfg.hosts.contains(h))
        },
        app.modal->Confirm_0.action == (ConfirmActionView::DeleteService { host, svc }) ==> {
            &&& app.confirm_yes().0.cfg.lookup(host, svc) is None
            &&& other != svc ==> service_at(app.confirm_yes().0.cfg, host, other) == service_at(
                app.cfg,
                host,
                other,
            )
            &&& h.name != host ==> (app.cfg.hosts.contains(h)
                <==> app.confirm_yes().0.cfg.hosts.contains(h))
        },
{
    let after = app.confirm_yes().0.cfg;
    if app.modal->Confirm_0.action == ConfirmActionView::DeleteHost(host) {
        let p = config::host_not_named(host);
        seqs::lemma_filter_in(app.cfg.hosts, p);
        seqs::lemma_find(after.hosts, config::host_named(host));
        if let Some(i) = after.find_host(host) {
            assert(p(after.hosts[i]));
        }
        if h.name != host && app.cfg.hosts.contains(h) {
            let k = choose|k: int| 0 <= k < app.cfg.hosts.len() && app.cfg.hosts[k] == h;
            app.cfg.hosts.lemma_filter_contains(p, k);
        }
        if after.hosts.contains(h) {
            let k = choose|k: int| 0 <= k < after.hosts.len() && after.hosts[k] == h;
            assert(app.cfg.hosts.contains(after.hosts[k]));
        }
    }
    if app.modal->Confirm_0.action == (ConfirmActionView::DeleteService { host, svc }) {
        seqs::lemma_find(app.cfg.hosts, config::host_named(host));
        seqs::lemma_find(after.hosts, config::host_named(host));
        let named = config::host_named(host);
        if let Some(i) = app.cfg.find_host(host) {
            let old = app.cfg.hosts;
            let p = config::service_not_named(svc);
            seqs::lemma_filter_in(old[i].services, p);
            assert forall|j: int| 0 <= j < i implies !named(#[trigger] after.hosts[j]) by {
                assert(!named(old[j]));
            }
            seqs::lemma_find_at(after.hosts, named, i);
            seqs::lemma_find(after.hosts[i].services, config::service_named(svc));
            if let Some(j) = after.hosts[i].find_service(svc) {
                assert(p(after.hosts[i].services[j]));
            }
            if other != svc {
                seqs::lemma_find_filtered(old[i].services, p, config::service_named(other));
            }
            if h.name != host {
                if old.contains(h) {
                    let k = choose|k: int| 0 <= k < old.len() && old[k] == h;
                    assert(after.hosts[k] == h);
                }
                if after.hosts.contains(h) {
                    let k = choose|k: int| 0 <= k < after.hosts.len() && after.hosts[k] == h;
                    assert(old[k] == h);
                }
            }
        }
    }
}

/// What is added is found: a host that was added is the last one, without services, expanded and
/// selected; a service that was added is found under its host with what the form said, and is
/// selected.
pub proof fn added_is_found(
    app: AppView,
    host: Seq<char>,
    name: Seq<char>,
    ssh: Seq<char>,
    port: Seq<char>,
    scheme: Seq<char>,
    path: Seq<char>,
)
    ensures
        app.add_host(name, ssh) matches Ok(p) ==> {
            &&& p.0.cfg.find_host(name) == Some(app.cfg.hosts.len() as int)
            &&& p.0.cfg.hosts.last() == (HostView { name, ssh, services: Seq::empty() })
            &&& p.0.selection == SelectionView::on_host(name)
            &&& p.0.expanded.contains(name)
        },
        app.add_service(host, name, port, scheme, path) matches Ok(p) ==> {
            &&& service_at(p.0.cfg, host, name) == Some(
                ServiceView {
                    name,
                    port: text::parsed_u16(port)->0,
                    scheme: forms::or_default(scheme, "http"@),
                    path: forms::or_default(path, "/"@),
                    local_port: None,
                },
            )
            &&& p.0.selection == SelectionView::on_service(host, name)
        },
{
    if let Ok(p) = app.add_host(name, ssh) {
        let named = config::host_named(name);
        let old = app.cfg.hosts;
        let new = p.0.cfg.hosts;
        seqs::lemma_find(old, named);
        assert forall|j: int| 0 <= j < old.len() implies !named(#[trigger] new[j]) by {
            assert(!named(old[j]));
        }
        seqs::lemma_find_at(new, named, old.len() as int);
    }
    if let Ok(p) = app.add_service(host, name, port, scheme, path) {
        let named = config::host_named(host);
        let called = config::service_named(name);
        let old = app.cfg.hosts;
        let new = p.0.cfg.hosts;
        seqs::lemma_find(old, named);
        let i = app.cfg.find_host(host)->0;
        assert forall|j: int| 0 <= j < i implies !named(#[trigger] new[j]) by {
            assert(!named(old[j]));
        }
        seqs::lemma_find_at(new, named, i);
        let before = old[i].services;
        let after = new[i].services;
        seqs::lemma_find(before, called);
        assert forall|j: int| 0 <= j < before.len() implies !called(#[trigger] after[j]) by {
            assert(!called(before[j]));
        }
        seqs::lemma_find_at(after, called, before.len() as int);
    }
}

/// Submitting the form for a host or a service as it opened leaves the configuration and the
/// selection as they were. Texts with white space around them are left out, and so are an empty
/// way to reach a host and an empty scheme or path: the form trims the former and fills in the
/// latter.
pub proof fn unchanged_edit_changes_nothing(app: AppView)
    requires
        app.cfg.valid(),
        match (app.selection.host, app.selection.svc) {
            (Some(host), Some(svc)) => app.cfg.lookup(host, svc) is Some,
            (Some(host), None) => app.cfg.find_host(host) is Some,
            _ => false,
        },
        forall|i: int|
            0 <= i < app.open_edit().modal->Form_0.fields.len() && !(app.selection.svc is Some && i
                == 1) ==> {
                let value = (#[trigger] app.open_edit().modal->Form_0.fields[i]).value;
                text::trimmed(value) == value && (i > 0 ==> value.len() > 0)
            },
    ensures
        app.open_edit().submit_form().0.modal is Closed,
        app.open_edit().submit_form().0.cfg == app.cfg,
        app.open_edit().submit_form().0.selection == app.selection,
        app.open_edit().submit_form().0.expanded == app.expanded,
{
    let opened = app.open_edit();
    let f = opened.modal->Form_0;
    let values = f.fields.map_values(|x: FieldView| text::trimmed(x.value));
    let host = app.selection.host->0;
    seqs::lemma_find(app.cfg.hosts, config::host_named(host));
    let i = app.cfg.find_host(host)->0;
    let h = app.cfg.hosts[i];
    assert(h.valid());
    assert(values[0] == f.fields[0].value);
    text::trimmed_is_empty_iff_blank(values[0]);
    if let Some(svc) = app.selection.svc {
        assert(values[2] == f.fields[2].value);
        assert(values[3] == f.fields[3].value);
        seqs::lemma_find(h.services, config::service_named(svc));
        let j = h.find_service(svc)->0;
        let s = h.services[j];
        text::written_number_reads_back(s.port);
        assert(values[1] == text::decimal(s.port as nat));
        assert(h.services.update(j, s) =~= h.services);
        assert(app.cfg.hosts.update(i, h) =~= app.cfg.hosts);
        assert(app.selection == SelectionView::on_service(host, svc));
    } else {
        assert(values[1] == f.fields[1].value);
        assert(app.cfg.hosts.update(i, h) =~= app.cfg.hosts);
        assert(app.selection == SelectionView::on_host(host));
    }
}

/// Every panel lies inside the terminal.
pub proof fn everything_is_drawn_inside(app: AppView, size: Rect, rows: Seq<Rect>, i: int)
    requires
        size.wf(),
        draw::stacked(size, draw::row_sizes(app.show_logs), rows),
        0 <= i < app.drawn(size, rows).len(),
    ensures
        app.drawn(size, rows)[i].area.inside(size),
{
    let w = draw::popup_width(size);
    draw::centered_lies_inside(size, w, 5);
    draw::centered_lies_inside(size, w, 6);
    draw::centered_lies_inside(size, w, 18);
    if let ModalView::Form(f) = app.modal {
        draw::centered_lies_inside(size, w, draw::form_height(size, f.fields.len()));
    }
    assert(rows[0].inside(size) && rows[1].inside(size) && rows[2].inside(size));
}

/// The bottom line has a line of its own wherever the terminal has a line, or six with the log.
pub proof fn bottom_line_is_shown(app: AppView, size: Rect, rows: Seq<Rect>)
    requires
        size.wf(),
        draw::stacked(size, draw::row_sizes(app.show_logs), rows),
        if app.show_logs {
            size.height >= 6
        } else {
            size.height >= 1
        },
        size.height <= i16::MAX,
    ensures
        app.drawn(size, rows).contains(app.status_panel(rows[2])),
        rows[2].height == 1,
        app.show_logs ==> rows[1].height >= 5,
{
    let sizes = draw::row_sizes(app.show_logs);
    assert(sizes[2].met_by(rows[2].height));
    assert(sizes[1].met_by(rows[1].height));
    let at = if app.show_logs {
        2
    } else {
        1int
    };
    assert(app.drawn(size, rows)[at] == app.status_panel(rows[2]));
}

/// The tree has a line for each row, and of a valid configuration no more than one is marked as
/// selected: the one that is.
pub proof fn one_row_is_marked(app: AppView, area: Rect, i: int)
    requires
        app.cfg.valid(),
        0 <= i < app.rows().len(),
    ensures
        app.tree_panel(area).body->Items_0.len() == app.rows().len(),
        app.tree_panel(area).body->Items_0[i].style.bold <==> app.selection
            == app.rows()[i].selection(),
{
    let rows = app.rows();
    seqs::lemma_find(rows, ui::row_selected(app.selection));
    if app.selection == rows[i].selection() {
        selected_row_is_found(app, i);
    }
}

} // verus!
