//! What forms and questions do to the configuration and to the tunnels.
use vstd::prelude::*;

use crate::config;
use crate::config::HostView;
use crate::effect::EffectView;
use crate::manager;
use crate::seqs;
use crate::text;
use crate::tunnel;
use crate::ui::forms;
use crate::ui::{AppView, ConfirmActionView, ConfirmView, FieldView, FormActionView, ModalView};

verus! {

/// A host is added exactly where it has a name and a way to be reached and no host has that name:
/// it goes behind all others, which stay as they were, has no services, and is expanded and
/// selected. Nothing else changes, and nothing is asked for. Where it is not added the user is told
/// why.
pub proof fn host_is_added(app: AppView, name: Seq<char>, ssh: Seq<char>, other: Seq<char>)
    requires
        other != name,
    ensures
        ({
            let old = app.cfg.hosts;
            let filled = name.len() > 0 && ssh.len() > 0;
            let taken = exists|j: int| 0 <= j < old.len() && (#[trigger] old[j]).name == name;
            match app.add_host(name, ssh) {
                Ok(p) => {
                    let new = p.0.cfg.hosts;
                    &&& filled && !taken
                    &&& p.1.len() == 0
                    &&& new.len() == old.len() + 1
                    &&& new.drop_last() == old
                    &&& new.last().name == name
                    &&& new.last().ssh == ssh
                    &&& new.last().services.len() == 0
                    &&& p.0.selection.host == Some(name)
                    &&& p.0.selection.svc is None
                    &&& p.0.expanded.contains(name)
                    &&& p.0.expanded.contains(other) == app.expanded.contains(other)
                    &&& p.0 == (AppView {
                        cfg: p.0.cfg,
                        selection: p.0.selection,
                        expanded: p.0.expanded,
                        ..app
                    })
                },
                Err(e) => if filled {
                    taken && e == "host '"@ + name + "' already exists"@
                } else {
                    e == "name and ssh required"@
                },
            }
        }),
{
    config::looked_up_is_the_first_of_its_name(
        app.cfg,
        HostView { name, ssh, services: Seq::empty() },
        name,
        name,
    );
    if let Ok(p) = app.add_host(name, ssh) {
        assert(p.0.cfg.hosts.drop_last() =~= app.cfg.hosts);
    }
}

/// A host is edited exactly where it is there, its new name and way to be reached are given, and
/// no other host has the new name: it stays at its place, is found under its new name, has the
/// new way to be reached and the services that it had, and is selected; every other host is as it
/// was. A host that was renamed is expanded under its new name. Nothing else changes. Where it is
/// not edited the user is told why.
pub proof fn host_is_edited(
    app: AppView,
    original: Seq<char>,
    name: Seq<char>,
    ssh: Seq<char>,
    other: Seq<char>,
)
    requires
        other != name,
        other != original,
    ensures
        ({
            let old = app.cfg.hosts;
            let filled = name.len() > 0 && ssh.len() > 0;
            let taken = name != original && exists|j: int|
                0 <= j < old.len() && (#[trigger] old[j]).name == name;
            let there = app.cfg.find_host(original);
            match app.edit_host(original, name, ssh) {
                Ok(p) => {
                    let new = p.0.cfg.hosts;
                    &&& filled && !taken && there is Some
                    &&& p.1.len() == 0
                    &&& p.0.cfg.find_host(name) == there
                    &&& new.len() == old.len()
                    &&& new[there->0].name == name
                    &&& new[there->0].ssh == ssh
                    &&& new[there->0].services == old[there->0].services
                    &&& forall|j: int|
                        0 <= j < old.len() && j != there->0 ==> #[trigger] new[j] == old[j]
                    &&& p.0.selection.host == Some(name)
                    &&& p.0.selection.svc is None
                    &&& name == original ==> p.0.expanded == app.expanded
                    &&& name != original ==> p.0.expanded.contains(name)
                        && !p.0.expanded.contains(original)
                    &&& p.0.expanded.contains(other) == app.expanded.contains(other)
                    &&& p.0 == (AppView {
                        cfg: p.0.cfg,
                        selection: p.0.selection,
                        expanded: p.0.expanded,
                        ..app
                    })
                },
                Err(e) => if !filled {
                    e == "name and ssh required"@
                } else if taken {
                    e == "host '"@ + name + "' already exists"@
                } else {
                    there is None && e == "host vanished"@
                },
            }
        }),
{
    let any = HostView { name, ssh, services: Seq::empty() };
    config::looked_up_is_the_first_of_its_name(app.cfg, any, name, name);
    config::looked_up_is_the_first_of_its_name(app.cfg, any, original, name);
    if let Ok(p) = app.edit_host(original, name, ssh) {
        let i = app.cfg.find_host(original)->0;
        let named = config::host_named(name);
        assert forall|j: int| 0 <= j < i implies !named(#[trigger] p.0.cfg.hosts[j]) by {
            assert(p.0.cfg.hosts[j] == app.cfg.hosts[j]);
        }
        seqs::lemma_find_at(p.0.cfg.hosts, named, i);
    }
}

/// What a form takes for a port is a number from 1 to 65535.
pub open spec fn good_port(value: Seq<char>) -> bool {
    text::parsed_u16(value) matches Some(n) && n > 0
}

/// What is said of a port that is none.
pub open spec fn said_of_port(value: Seq<char>) -> Seq<char> {
    if text::parsed_u16(value) is None {
        "port must be 1..=65535"@
    } else {
        "port must be > 0"@
    }
}

/// A service is added exactly where it has a name and a good port, its host is there, and no
/// service of the host has that name: it goes behind the other services of the host, which stay
/// as they were, with the port, the scheme and the path that were given, or the standard ones
/// where they were left empty, and without a pinned port; and it is selected. Every other host,
/// and all else, is as it was. Where it is not added the user is told why.
pub proof fn service_is_added(
    app: AppView,
    host: Seq<char>,
    name: Seq<char>,
    port: Seq<char>,
    scheme: Seq<char>,
    path: Seq<char>,
)
    ensures
        ({
            let old = app.cfg.hosts;
            let there = app.cfg.find_host(host);
            let taken = there is Some && exists|j: int|
                0 <= j < old[there->0].services.len() && (#[trigger] old[there->0].services[j]).name
                    == name;
            match app.add_service(host, name, port, scheme, path) {
                Ok(p) => {
                    let new = p.0.cfg.hosts;
                    let i = there->0;
                    let s = new[i].services.last();
                    &&& name.len() > 0 && good_port(port) && there is Some && !taken
                    &&& p.1.len() == 0
                    &&& new.len() == old.len()
                    &&& forall|j: int| 0 <= j < old.len() && j != i ==> #[trigger] new[j] == old[j]
                    &&& new[i].name == old[i].name
                    &&& new[i].ssh == old[i].ssh
                    &&& new[i].services.len() == old[i].services.len() + 1
                    &&& new[i].services.drop_last() == old[i].services
                    &&& s.name == name
                    &&& text::parsed_u16(port) == Some(s.port)
                    &&& s.scheme == if scheme.len() == 0 {
                        "http"@
                    } else {
                        scheme
                    }
                    &&& s.path == if path.len() == 0 {
                        "/"@
                    } else {
                        path
                    }
                    &&& s.local_port is None
                    &&& p.0.selection.host == Some(host)
                    &&& p.0.selection.svc == Some(name)
                    &&& p.0 == (AppView { cfg: p.0.cfg, selection: p.0.selection, ..app })
                },
                Err(e) => if name.len() == 0 {
                    e == "name required"@
                } else if !good_port(port) {
                    e == said_of_port(port)
                } else if there is None {
                    e == "host vanished"@
                } else {
                    taken && e == "service '"@ + name + "' already exists in "@ + host
                },
            }
        }),
{
    let there = app.cfg.find_host(host);
    let h = app.cfg.hosts[there->0];
    config::looked_up_is_the_first_of_its_name(app.cfg, h, host, name);
    if let Ok(p) = app.add_service(host, name, port, scheme, path) {
        assert(p.0.cfg.hosts[there->0].services.drop_last() =~= h.services);
    }
}

/// A service is edited exactly where it and its host are there, it has a name and a good port,
/// and no other service of the host has the new name: at its place it has the new name, port,
/// scheme and path, or the standard ones where they were left empty, and the pinned port that it
/// had, and it is selected. Where its tunnel is connected or connecting, that is disconnected, and
/// nothing else is asked for. Every other service and host, and all else, is as it was. Where it is
/// not edited the user is told why.
pub proof fn service_is_edited(
    app: AppView,
    host: Seq<char>,
    original: Seq<char>,
    name: Seq<char>,
    port: Seq<char>,
    scheme: Seq<char>,
    path: Seq<char>,
)
    ensures
        ({
            let old = app.cfg.hosts;
            let there = app.cfg.find_host(host);
            let h = old[there->0];
            let taken = there is Some && name != original && exists|j: int|
                0 <= j < h.services.len() && (#[trigger] h.services[j]).name == name;
            let place = h.find_service(original);
            let id = tunnel::tunnel_id(host, original);
            let on = app.mgr.states.contains_key(id) && (app.mgr.states[id] is Connected
                || app.mgr.states[id] is Connecting);
            match app.edit_service(host, original, name, port, scheme, path) {
                Ok(p) => {
                    let new = p.0.cfg.hosts;
                    let i = there->0;
                    let j = place->0;
                    let s = new[i].services[j];
                    &&& name.len() > 0 && good_port(port) && there is Some && !taken
                        && place is Some
                    &&& (p.0.mgr, p.1) == if on {
                        app.mgr.disconnect(host, original)
                    } else {
                        (app.mgr, Seq::<EffectView>::empty())
                    }
                    &&& new.len() == old.len()
                    &&& forall|k: int| 0 <= k < old.len() && k != i ==> #[trigger] new[k] == old[k]
                    &&& new[i].name == h.name
                    &&& new[i].ssh == h.ssh
                    &&& new[i].services.len() == h.services.len()
                    &&& forall|k: int|
                        0 <= k < h.services.len() && k != j ==> #[trigger] new[i].services[k]
                            == h.services[k]
                    &&& s.name == name
                    &&& text::parsed_u16(port) == Some(s.port)
                    &&& s.scheme == if scheme.len() == 0 {
                        "http"@
                    } else {
                        scheme
                    }
                    &&& s.path == if path.len() == 0 {
                        "/"@
                    } else {
                        path
                    }
                    &&& s.local_port == h.services[j].local_port
                    &&& p.0.selection.host == Some(host)
                    &&& p.0.selection.svc == Some(name)
                    &&& p.0 == (AppView {
                        cfg: p.0.cfg,
                        mgr: p.0.mgr,
                        selection: p.0.selection,
                        ..app
                    })
                },
                Err(e) => if name.len() == 0 {
                    e == "name required"@
                } else if !good_port(port) {
                    e == said_of_port(port)
                } else if there is None {
                    e == "host vanished"@
                } else if taken {
                    e == "service '"@ + name + "' already exists in "@ + host
                } else {
                    place is None && e == "service vanished"@
                },
            }
        }),
{
    let there = app.cfg.find_host(host);
    let h = app.cfg.hosts[there->0];
    config::looked_up_is_the_first_of_its_name(app.cfg, h, host, name);
    config::looked_up_is_the_first_of_its_name(app.cfg, h, host, original);
    manager::noted_state_counts(app.mgr, tunnel::tunnel_id(host, original));
}

/// What comes of a form: where nothing is wrong with it, what it says is done, then it closes,
/// and the configuration is saved last of all; else only the error is shown.
pub open spec fn comes_of(
    app: AppView,
    done: Result<(AppView, Seq<EffectView>), Seq<char>>,
) -> (AppView, Seq<EffectView>) {
    match done {
        Ok(p) => (AppView { modal: ModalView::Closed, ..p.0 }, p.1.push(EffectView::Save)),
        Err(e) => (AppView { modal: ModalView::Error(e), ..app }, Seq::empty()),
    }
}

/// Submitting a form does what the form is for, with what was typed into its fields, trimmed, in
/// their order; where nothing is wrong the form closes and the configuration is saved, and else
/// nothing changes but that the error is shown. Without an open form nothing happens.
pub proof fn submitting_does_what_the_form_is_for(app: AppView)
    ensures
        ({
            let f = app.modal->Form_0;
            let value = |i: int| text::trimmed(f.fields[i].value);
            match app.modal {
                ModalView::Form(f) => f.fields.len() >= 2 ==> match f.action {
                    FormActionView::AddHost => app.submit_form() == comes_of(
                        app,
                        app.add_host(value(0), value(1)),
                    ),
                    FormActionView::EditHost { original } => app.submit_form() == comes_of(
                        app,
                        app.edit_host(original, value(0), value(1)),
                    ),
                    FormActionView::AddService { host } => f.fields.len() >= 4
                        ==> app.submit_form() == comes_of(
                        app,
                        app.add_service(host, value(0), value(1), value(2), value(3)),
                    ),
                    FormActionView::EditService { host, original_svc } => f.fields.len() >= 4
                        ==> app.submit_form() == comes_of(
                        app,
                        app.edit_service(
                            host,
                            original_svc,
                            value(0),
                            value(1),
                            value(2),
                            value(3),
                        ),
                    ),
                },
                _ => app.submit_form() == (app, Seq::<EffectView>::empty()),
            }
        }),
{
    if let ModalView::Form(f) = app.modal {
        let values = f.fields.map_values(|x: FieldView| text::trimmed(x.value));
        assert(forall|i: int|
            0 <= i < f.fields.len() ==> #[trigger] values[i] == text::trimmed(f.fields[i].value));
    }
}

/// Deleting a host ends its tunnels: every tunnel of a service of the first host of that name that
/// runs is on its way down, each that could still be told is told to end before the configuration
/// is saved, and nothing else is asked for. Deleting a service does so for its tunnel. No other
/// tunnel is touched.
pub proof fn deleting_ends_the_tunnels(app: AppView, host: Seq<char>, svc: Seq<char>, id: Seq<char>)
    requires
        app.modal is Confirm,
        app.modal->Confirm_0.action == ConfirmActionView::DeleteHost(host)
            || app.modal->Confirm_0.action == (ConfirmActionView::DeleteService { host, svc }),
    ensures
        ({
            let (after, effects) = app.confirm_yes();
            let before = effects.drop_last();
            let m = app.mgr;
            let n = after.mgr;
            let meant = match app.modal->Confirm_0.action {
                ConfirmActionView::DeleteHost(name) => app.cfg.find_host(host) is Some
                    && exists|j: int|
                    0 <= j < app.cfg.hosts[app.cfg.find_host(host)->0].services.len() && id
                        == tunnel::tunnel_id(
                        host,
                        (#[trigger] app.cfg.hosts[app.cfg.find_host(host)->0].services[j]).name,
                    ),
                _ => id == tunnel::tunnel_id(host, svc),
            };
            let ended = meant && m.handles.contains_key(id);
            &&& effects.len() > 0
            &&& effects.last() is Save
            &&& forall|k: int| 0 <= k < before.len() ==> #[trigger] before[k] is Stop
            &&& before.contains(EffectView::Stop(id)) <==> ended && m.handles[id].cancel
            &&& n.handles.contains_key(id) == m.handles.contains_key(id)
            &&& ended ==> n.states.contains_key(id) && n.states[id] is Disconnecting
                && !n.handles[id].cancel
            &&& !ended ==> n.states.contains_key(id) == m.states.contains_key(id)
            &&& !ended && n.states.contains_key(id) ==> n.states[id] == m.states[id]
            &&& !ended && n.handles.contains_key(id) ==> n.handles[id] == m.handles[id]
            &&& n.logs == m.logs
        }),
{
    let (after, effects) = app.confirm_yes();
    let before = effects.drop_last();
    if app.modal->Confirm_0.action == ConfirmActionView::DeleteHost(host) {
        if let Some(i) = app.cfg.find_host(host) {
            let services = app.cfg.hosts[i].services;
            manager::ended_host_is_told(app.mgr, host, services, id);
            let done = app.mgr.disconnect_each(host, services).1;
            assert(before =~= done);
            assert(manager::tunnel_among(host, services, id) <==> exists|j: int|
                0 <= j < services.len() && id == tunnel::tunnel_id(
                    host,
                    (#[trigger] services[j]).name,
                ));
        } else {
            assert(before =~= Seq::<EffectView>::empty());
        }
    } else {
        let done = app.mgr.disconnect(host, svc).1;
        assert(before =~= done);
        let at = tunnel::tunnel_id(host, svc);
        if id != at {
            manager::disconnecting_ends_what_runs(app.mgr, host, svc, id);
        }
        if app.mgr.handles.contains_key(at) && app.mgr.handles[at].cancel {
            assert(before[0] == EffectView::Stop(at));
        }
    }
}

/// In a valid configuration a host that is deleted is taken out from its place, and the first of
/// those that are left is selected; a service that is deleted is taken out from its place, and its
/// host is selected. All other hosts and services stay in their order; nothing is open afterwards.
pub proof fn deleting_takes_out_one(app: AppView, host: Seq<char>, svc: Seq<char>, other: Seq<char>)
    requires
        app.cfg.valid(),
        app.modal is Confirm,
        other != host,
    ensures
        app.confirm_yes().0.modal is Closed,
        app.modal->Confirm_0.action == ConfirmActionView::DeleteHost(host) ==> {
            let after = app.confirm_yes().0;
            &&& after.cfg.hosts == match app.cfg.find_host(host) {
                Some(i) => app.cfg.hosts.remove(i),
                None => app.cfg.hosts,
            }
            &&& !after.expanded.contains(host)
            &&& after.expanded.contains(other) == app.expanded.contains(other)
            &&& after.selection.svc is None
            &&& after.cfg.hosts.len() > 0 ==> after.selection.host == Some(after.cfg.hosts[0].name)
            &&& after.cfg.hosts.len() == 0 ==> after.selection.host is None
            &&& after == (AppView {
                cfg: after.cfg,
                mgr: after.mgr,
                expanded: after.expanded,
                selection: after.selection,
                modal: ModalView::Closed,
                ..app
            })
        },
        app.modal->Confirm_0.action == (ConfirmActionView::DeleteService { host, svc }) ==> {
            let after = app.confirm_yes().0;
            &&& app.cfg.find_host(host) matches Some(i) ==> {
                let old = app.cfg.hosts[i];
                &&& after.cfg.hosts.len() == app.cfg.hosts.len()
                &&& after.cfg.hosts[i].name == old.name
                &&& after.cfg.hosts[i].ssh == old.ssh
                &&& after.cfg.hosts[i].services == match old.find_service(svc) {
                    Some(j) => old.services.remove(j),
                    None => old.services,
                }
                &&& forall|k: int|
                    0 <= k < app.cfg.hosts.len() && k != i ==> #[trigger] after.cfg.hosts[k]
                        == app.cfg.hosts[k]
            }
            &&& app.cfg.find_host(host) is None ==> after.cfg == app.cfg
            &&& after.selection.host == Some(host)
            &&& after.selection.svc is None
            &&& after == (AppView {
                cfg: after.cfg,
                mgr: after.mgr,
                selection: after.selection,
                modal: ModalView::Closed,
                ..app
            })
        },
{
    if app.modal->Confirm_0.action == ConfirmActionView::DeleteHost(host) {
        let hosts = app.cfg.hosts;
        config::looked_up_is_the_first_of_its_name(app.cfg, hosts[0], host, svc);
        let p = config::host_not_named(host);
        match app.cfg.find_host(host) {
            Some(i) => {
                assert forall|k: int| 0 <= k < hosts.len() && k != i implies p(
                    #[trigger] hosts[k],
                ) by {
                    assert(hosts[k].name != hosts[i].name);
                }
                seqs::lemma_filter_but_one(hosts, p, i);
            },
            None => {
                seqs::lemma_filter_all(hosts, p);
            },
        }
    }
    if app.modal->Confirm_0.action == (ConfirmActionView::DeleteService { host, svc }) {
        let first = app.cfg.find_host(host);
        let h = app.cfg.hosts[first->0];
        config::looked_up_is_the_first_of_its_name(app.cfg, h, host, svc);
        if let Some(i) = first {
            assert(app.cfg.hosts[i].valid());
            let p = config::service_not_named(svc);
            match h.find_service(svc) {
                Some(j) => {
                    assert forall|k: int| 0 <= k < h.services.len() && k != j implies p(
                        #[trigger] h.services[k],
                    ) by {
                        assert(h.services[k].name != h.services[j].name);
                    }
                    seqs::lemma_filter_but_one(h.services, p, j);
                },
                None => {
                    seqs::lemma_filter_all(h.services, p);
                },
            }
        }
    }
}

/// The form for a new host asks for a name and a way to be reached, both empty; the form for a new
/// service asks for a name and a port, both empty, and for a scheme and a path, which are filled in
/// with the standard ones.
pub proof fn forms_for_new_things_are_empty(app: AppView, host: Seq<char>)
    requires
        app.selection.host == Some(host),
    ensures
        ({
            let f = forms::add_host_form();
            &&& f.title == "Add host"@
            &&& f.fields.len() == 2 && f.focus == 0
            &&& f.action is AddHost
            &&& f.fields[0].label == "name"@ && f.fields[0].value.len() == 0
            &&& f.fields[0].placeholder == "vps"@
            &&& f.fields[1].label == "ssh"@ && f.fields[1].value.len() == 0
            &&& f.fields[1].placeholder == "ssh-config alias"@
        }),
        ({
            let after = app.open_add_service();
            let f = after.modal->Form_0;
            &&& after == (AppView { modal: after.modal, ..app })
            &&& after.modal is Form
            &&& f.title == "Add service to "@ + host
            &&& f.fields.len() == 4 && f.focus == 0
            &&& f.action == (FormActionView::AddService { host })
            &&& f.fields[0].label == "name"@ && f.fields[0].value.len() == 0
            &&& f.fields[0].placeholder == "matrix admin"@
            &&& f.fields[1].label == "port"@ && f.fields[1].value.len() == 0
            &&& f.fields[1].placeholder == "8126"@
            &&& f.fields[2].label == "scheme"@ && f.fields[2].value == "http"@
            &&& f.fields[2].placeholder == "http"@
            &&& f.fields[3].label == "path"@ && f.fields[3].value == "/"@
            &&& f.fields[3].placeholder == "/"@
        }),
{
    reveal_strlit("");
}

/// Without a selected host no form opens for a service, and the user is told to add a host.
pub proof fn without_a_host_no_service_is_asked_for(app: AppView)
    requires
        app.selection.host is None,
    ensures
        app.open_add_service() == (AppView {
            status: Some("no host selected — add a host first (Shift+A)"@),
            ..app
        }),
{
}

/// The form for what is selected holds what there is of it: the name and the way to be reached of
/// a host, or the name, the port in digits, the scheme and the path of a service, and it is for
/// that very thing. Where what is selected is not there, no form opens.
pub proof fn form_for_what_is_selected_holds_it(app: AppView, host: Seq<char>, svc: Seq<char>)
    requires
        app.selection.host == Some(host),
    ensures
        app.selection.svc is None ==> match app.cfg.find_host(host) {
            Some(i) => {
                let after = app.open_edit();
                let f = after.modal->Form_0;
                &&& after == (AppView { modal: after.modal, ..app })
                &&& after.modal is Form
                &&& f.title == "Edit host "@ + host
                &&& f.fields.len() == 2 && f.focus == 0
                &&& f.action == (FormActionView::EditHost { original: host })
                &&& f.fields[0].label == "name"@ && f.fields[0].value == host
                &&& f.fields[1].label == "ssh"@ && f.fields[1].value == app.cfg.hosts[i].ssh
                &&& forall|k: int|
                    0 <= k < 2 ==> (#[trigger] f.fields[k]).placeholder.len() == 0
            },
            None => app.open_edit() == app,
        },
        app.selection.svc == Some(svc) ==> match app.cfg.lookup(host, svc) {
            Some(p) => {
                let after = app.open_edit();
                let f = after.modal->Form_0;
                &&& after == (AppView { modal: after.modal, ..app })
                &&& after.modal is Form
                &&& f.title == "Edit "@ + host + "/"@ + svc
                &&& f.fields.len() == 4 && f.focus == 0
                &&& f.action == (FormActionView::EditService { host, original_svc: svc })
                &&& f.fields[0].label == "name"@ && f.fields[0].value == svc
                &&& f.fields[1].label == "port"@ && f.fields[1].value == text::decimal(
                    p.1.port as nat,
                )
                &&& f.fields[2].label == "scheme"@ && f.fields[2].value == p.1.scheme
                &&& f.fields[3].label == "path"@ && f.fields[3].value == p.1.path
                &&& forall|k: int|
                    0 <= k < 4 ==> (#[trigger] f.fields[k]).placeholder.len() == 0
            },
            None => app.open_edit() == app,
        },
{
    reveal_strlit("");
    let first = app.cfg.find_host(host);
    config::looked_up_is_the_first_of_its_name(app.cfg, app.cfg.hosts[first->0], host, svc);
}

/// The user is asked about the very thing that is selected before it is deleted, and told of how
/// many services go with a host; nothing else changes. Without a selected host nothing is asked,
/// and no form opens.
pub proof fn deletion_asks_about_what_is_selected(app: AppView, host: Seq<char>, svc: Seq<char>)
    ensures
        app.selection.host == Some(host) && app.selection.svc == Some(svc) ==> app.open_delete()
            == (AppView {
            modal: ModalView::Confirm(
                ConfirmView {
                    message: "Delete service '"@ + host + "/"@ + svc + "'? (y/n)"@,
                    action: ConfirmActionView::DeleteService { host, svc },
                },
            ),
            ..app
        }),
        app.selection.host == Some(host) && app.selection.svc is None ==> app.open_delete() == (
        AppView {
            modal: ModalView::Confirm(
                ConfirmView {
                    message: "Delete host '"@ + host + "' and "@ + text::decimal(
                        match app.cfg.find_host(host) {
                            Some(i) => app.cfg.hosts[i].services.len(),
                            None => 0,
                        },
                    ) + " service(s)? (y/n)"@,
                    action: ConfirmActionView::DeleteHost(host),
                },
            ),
            ..app
        }),
        app.selection.host is None ==> app.open_delete() == app && app.open_edit() == app,
{
}

} // verus!
