//! What keys, reports of tunnels and reloads do.
use std::path::PathBuf;

use vstd::prelude::*;

use crate::config;
use crate::config::{ConfigView, FoundView, HostView};
use crate::effect::EffectView;
use crate::manager;
use crate::manager::{LogStampView, ManagerView};
use crate::seqs;
use crate::text;
use crate::tunnel;
use crate::tunnel::TunnelEventView;
use crate::ui;
use crate::ui::forms;
use crate::ui::keys;
use crate::ui::keys::{KeyCode, KeyEvent, LoopEventView};
use crate::ui::laws;
use crate::ui::{AppView, FormView, ModalView, RowView, SelectionView};

verus! {

/// The program starts with the configuration that was loaded, on its first host, with all its
/// hosts expanded, no tunnel, no line in the log, and nothing shown over the tree.
pub proof fn program_starts_on_the_first_host(cfg: ConfigView, path: PathBuf, name: Seq<char>)
    ensures
        ({
            let app = AppView::initial(cfg, path);
            &&& app.cfg == cfg
            &&& app.cfg_path == path
            &&& app.mgr.states.dom().is_empty() && app.mgr.handles.dom().is_empty()
            &&& app.mgr.logs.len() == 0
            &&& app.selection.svc is None
            &&& cfg.hosts.len() > 0 ==> app.selection.host == Some(cfg.hosts[0].name)
            &&& cfg.hosts.len() == 0 ==> app.selection.host is None
            &&& app.expanded.contains(name) <==> exists|i: int|
                0 <= i < cfg.hosts.len() && (#[trigger] cfg.hosts[i]).name == name
            &&& app.modal is Closed
            &&& !app.show_logs && !app.show_help && !app.should_quit
            &&& app.status is None
            &&& !app.pending_opens.contains(name)
        }),
{
}

/// The tree goes host by host: a host behind others adds its own row behind theirs, with how it is
/// reached and how many services it has, and behind that, exactly where it is expanded, a row for
/// each of its services in their order.
pub proof fn tree_goes_host_by_host(hosts: Seq<HostView>, h: HostView, expanded: Set<Seq<char>>)
    ensures
        ui::tree_rows(Seq::empty(), expanded).len() == 0,
        ({
            let before = ui::tree_rows(hosts, expanded);
            let rows = ui::tree_rows(hosts.push(h), expanded);
            let shown = expanded.contains(h.name);
            let n = before.len() as int;
            &&& rows.len() == n + 1 + if shown {
                h.services.len() as int
            } else {
                0
            }
            &&& rows.take(n) == before
            &&& rows[n] == (RowView::Host {
                name: h.name,
                ssh: h.ssh,
                svc_count: h.services.len() as int,
                expanded: shown,
            })
            &&& shown ==> forall|j: int| #![trigger h.services[j]]
                0 <= j < h.services.len() ==> rows[n + 1 + j] == (RowView::Service {
                    host: h.name,
                    svc_name: h.services[j].name,
                })
        }),
{
    let before = ui::tree_rows(hosts, expanded);
    let rows = ui::tree_rows(hosts.push(h), expanded);
    assert(hosts.push(h).drop_last() =~= hosts);
    assert(rows == before + ui::host_rows(h, expanded));
    assert(rows.take(before.len() as int) =~= before);
}

/// Whether the cursor is on `row`: on a host by its name alone, on a service by both names.
pub open spec fn cursor_on(s: SelectionView, row: RowView) -> bool {
    match row {
        RowView::Host { name, ssh, svc_count, expanded } => s.host == Some(name) && s.svc is None,
        RowView::Service { host, svc_name } => s.host == Some(host) && s.svc == Some(svc_name),
    }
}

/// The row that is found selected is the first one that the cursor is on, and none is only where
/// the cursor is on none.
pub proof fn selected_is_the_first_under_the_cursor(app: AppView, rows: Seq<RowView>)
    ensures
        match app.selected(rows) {
            Some(i) => {
                &&& 0 <= i < rows.len()
                &&& cursor_on(app.selection, rows[i])
                &&& forall|j: int| 0 <= j < i ==> !cursor_on(app.selection, #[trigger] rows[j])
            },
            None => forall|j: int|
                0 <= j < rows.len() ==> !cursor_on(app.selection, #[trigger] rows[j]),
        },
{
    let p = ui::row_selected(app.selection);
    seqs::lemma_find(rows, p);
    assert forall|j: int| 0 <= j < rows.len() implies p(rows[j]) == cursor_on(
        app.selection,
        #[trigger] rows[j],
    ) by {}
}

/// Going on by one row goes to the next one, and from the last to the first; going back by one
/// goes to the one before, and from the first to the last. Without a row under the cursor it starts
/// from the first row, and without rows nothing happens. Only the selection changes.
pub proof fn cursor_moves_row_by_row(app: AppView)
    ensures
        ({
            let rows = app.rows();
            let n = rows.len() as int;
            let cur = match app.selected(rows) {
                Some(i) => i,
                None => 0,
            };
            let on = app.move_selection(1);
            let back = app.move_selection(-1);
            &&& n == 0 ==> on == app && back == app
            &&& n > 0 ==> {
                &&& on == (AppView { selection: on.selection, ..app })
                &&& back == (AppView { selection: back.selection, ..app })
                &&& cursor_on(
                    on.selection,
                    rows[if cur + 1 < n {
                        cur + 1
                    } else {
                        0
                    }],
                )
                &&& cursor_on(
                    back.selection,
                    rows[if cur > 0 {
                        cur - 1
                    } else {
                        n - 1
                    }],
                )
            }
        }),
{
    let rows = app.rows();
    let n = rows.len() as int;
    selected_is_the_first_under_the_cursor(app, rows);
    let cur = match app.selected(rows) {
        Some(i) => i,
        None => 0,
    };
    if n > 0 {
        if cur + 1 < n {
            vstd::arithmetic::div_mod::lemma_small_mod((cur + 1) as nat, n as nat);
        } else {
            vstd::arithmetic::div_mod::lemma_mod_self_0(n);
        }
        if cur > 0 {
            vstd::arithmetic::div_mod::lemma_small_mod((cur - 1) as nat, n as nat);
        } else {
            vstd::arithmetic::div_mod::lemma_small_mod((n - 1) as nat, n as nat);
            vstd::arithmetic::div_mod::lemma_mod_add_multiples_vanish(-1, n);
        }
    }
}

/// Moving twice is moving once by both together, in a valid configuration.
pub proof fn moves_add_up(app: AppView, a: int, b: int)
    requires
        app.cfg.valid(),
    ensures
        app.move_selection(a).move_selection(b) == app.move_selection(a + b),
{
    let rows = app.rows();
    let n = rows.len() as int;
    if n > 0 {
        selected_is_the_first_under_the_cursor(app, rows);
        let cur = match app.selected(rows) {
            Some(i) => i,
            None => 0,
        };
        let k = (cur + a) % n;
        vstd::arithmetic::div_mod::lemma_mod_bound(cur + a, n);
        laws::selected_row_is_found(app.move_selection(a), k);
        assert((k + b) % n == (cur + a + b) % n) by {
            vstd::arithmetic::div_mod::lemma_add_mod_noop(cur + a, b, n);
            vstd::arithmetic::div_mod::lemma_add_mod_noop(k, b, n);
            vstd::arithmetic::div_mod::lemma_mod_twice(cur + a, n);
        }
    }
}

/// Where nothing is shown over the tree, each key does what it is for: the cursor keys and their
/// letters move and expand, and the others quit, help, show the log, reload, toggle, enter, open,
/// add, edit and delete. Any other key does nothing.
pub proof fn tree_keys_do_what_they_are_for(app: AppView, control: bool, code: KeyCode)
    requires
        app.modal is Closed,
        !app.show_help,
    ensures
        ({
            let none = Seq::<EffectView>::empty();
            let press = |code: KeyCode| app.key(KeyEvent { code, control });
            &&& press(KeyCode::Char('q')) == (AppView { should_quit: true, ..app }, none)
            &&& press(KeyCode::Char('?')) == (AppView { show_help: true, ..app }, none)
            &&& press(KeyCode::Char('L')) == (AppView { show_logs: !app.show_logs, ..app }, none)
            &&& press(KeyCode::Char('r')) == (app, seq![EffectView::Reload])
            &&& press(KeyCode::Char('j')) == (app.move_selection(1), none)
            &&& press(KeyCode::Down) == (app.move_selection(1), none)
            &&& press(KeyCode::Char('k')) == (app.move_selection(-1), none)
            &&& press(KeyCode::Up) == (app.move_selection(-1), none)
            &&& press(KeyCode::Left) == press(KeyCode::Char('h'))
            &&& press(KeyCode::Right) == press(KeyCode::Char('l'))
            &&& press(KeyCode::Char('c')) == app.toggle_current()
            &&& press(KeyCode::Enter) == app.enter_current()
            &&& press(KeyCode::Char('o')) == app.open_current()
            &&& press(KeyCode::Char('A')) == (
                AppView { modal: ModalView::Form(forms::add_host_form()), ..app },
                none,
            )
            &&& press(KeyCode::Char('a')) == (
                if app.cfg.hosts.len() == 0 {
                    AppView { modal: ModalView::Form(forms::add_host_form()), ..app }
                } else {
                    app.open_add_service()
                },
                none,
            )
            &&& press(KeyCode::Char('e')) == (app.open_edit(), none)
            &&& press(KeyCode::Char('d')) == (app.open_delete(), none)
            &&& match code {
                KeyCode::Char(c) => !"q?Lrjkhlcoaed"@.contains(c) && c != 'A',
                KeyCode::Enter => false,
                KeyCode::Up => false,
                KeyCode::Down => false,
                KeyCode::Left => false,
                KeyCode::Right => false,
                _ => true,
            } ==> press(code) == (app, none)
        }),
{
    reveal_strlit("q?Lrjkhlcoaed");
    let s = "q?Lrjkhlcoaed"@;
    assert(s[0] == 'q' && s[1] == '?' && s[2] == 'L' && s[3] == 'r' && s[4] == 'j' && s[5] == 'k'
        && s[6] == 'h' && s[7] == 'l' && s[8] == 'c' && s[9] == 'o' && s[10] == 'a' && s[11] == 'e'
        && s[12] == 'd');
}

/// From a service the key to the left goes to its host; on a host it collapses it, and the key to
/// the right expands it. No other host is expanded or collapsed, and the key to the right does
/// nothing on a service. Without a host under the cursor nothing happens.
pub proof fn side_keys_collapse_and_expand(app: AppView, control: bool, other: Seq<char>)
    requires
        app.modal is Closed,
        !app.show_help,
        app.selection.host != Some(other),
    ensures
        ({
            let (left, a) = app.key(KeyEvent { code: KeyCode::Left, control });
            let (right, b) = app.key(KeyEvent { code: KeyCode::Right, control });
            &&& a.len() == 0 && b.len() == 0
            &&& app.selection.svc is Some ==> {
                &&& left == (AppView {
                    selection: SelectionView { host: app.selection.host, svc: None },
                    ..app
                })
                &&& right == app
            }
            &&& app.selection.svc is None ==> {
                &&& left == (AppView { expanded: left.expanded, ..app })
                &&& right == (AppView { expanded: right.expanded, ..app })
                &&& left.expanded.contains(other) == app.expanded.contains(other)
                &&& right.expanded.contains(other) == app.expanded.contains(other)
                &&& app.selection.host matches Some(host) ==> !left.expanded.contains(host)
                    && right.expanded.contains(host)
                &&& app.selection.host is None ==> left == app && right == app
            }
        }),
{
}

/// What is shown over the tree takes the key before the tree does: an error goes with any key; a
/// question is answered by `y` or taken back by `n` or escape, and by nothing else; a form is left
/// by escape, submitted by enter, and takes every other key itself; and the help goes with any key.
pub proof fn what_is_on_top_takes_the_key(app: AppView, k: KeyEvent)
    ensures
        ({
            let none = Seq::<EffectView>::empty();
            let closed = (AppView { modal: ModalView::Closed, ..app }, none);
            match app.modal {
                ModalView::Error(e) => app.key(k) == closed,
                ModalView::Confirm(c) => if k.code == KeyCode::Char('y') || k.code
                    == KeyCode::Char('Y') {
                    app.key(k) == app.confirm_yes()
                } else if k.code == KeyCode::Char('n') || k.code == KeyCode::Char('N') || k.code
                    == KeyCode::Esc {
                    app.key(k) == closed
                } else {
                    app.key(k) == (app, none)
                },
                ModalView::Form(f) => if k.code == KeyCode::Esc {
                    app.key(k) == closed
                } else if k.code == KeyCode::Enter {
                    app.key(k) == app.submit_form()
                } else {
                    app.key(k) == (AppView { modal: ModalView::Form(f.edit(k)), ..app }, none)
                },
                ModalView::Closed => app.show_help ==> app.key(k) == (
                    AppView { show_help: false, ..app },
                    none,
                ),
            }
        }),
{
}

/// In a form the keys for the next and the last field move the focus round; a character goes to
/// the end of the field that has the focus, the backspace key takes its last one away, and Ctrl-U
/// empties it. No other field changes, nor anything else, and any other key does nothing.
pub proof fn form_takes_what_is_typed(f: FormView, k: KeyEvent)
    requires
        0 <= f.focus < f.fields.len(),
    ensures
        ({
            let g = f.edit(k);
            let n = f.fields.len() as int;
            let old = f.fields[f.focus];
            let new = g.fields[f.focus];
            let moves_on = k.code is Tab || k.code is Down;
            let moves_back = k.code is BackTab || k.code is Up;
            let writes = k.code is Char || k.code is Backspace;
            &&& g.title == f.title && g.action == f.action
            &&& g.fields.len() == n
            &&& moves_on ==> g.focus == if f.focus + 1 < n {
                f.focus + 1
            } else {
                0
            }
            &&& moves_back ==> g.focus == if f.focus > 0 {
                f.focus - 1
            } else {
                n - 1
            }
            &&& !moves_on && !moves_back ==> g.focus == f.focus
            &&& !writes ==> g.fields == f.fields
            &&& forall|i: int|
                0 <= i < n && i != f.focus ==> #[trigger] g.fields[i] == f.fields[i]
            &&& new.label == old.label && new.placeholder == old.placeholder
            &&& k.code matches KeyCode::Char(c) ==> if k.control && (c == 'u' || c == 'U') {
                new.value.len() == 0
            } else {
                new.value == old.value.push(c)
            }
            &&& k.code is Backspace && old.value.len() > 0 ==> new.value
                == old.value.drop_last()
            &&& k.code is Backspace && old.value.len() == 0 ==> new.value.len() == 0
        }),
{
    let n = f.fields.len() as int;
    let i = f.focus;
    if i + 1 < n {
        vstd::arithmetic::div_mod::lemma_small_mod((i + 1) as nat, n as nat);
    } else {
        vstd::arithmetic::div_mod::lemma_mod_self_0(n);
    }
    if i > 0 {
        vstd::arithmetic::div_mod::lemma_small_mod((i - 1) as nat, n as nat);
        vstd::arithmetic::div_mod::lemma_mod_add_multiples_vanish(i - 1, n);
    } else {
        vstd::arithmetic::div_mod::lemma_small_mod((n - 1) as nat, n as nat);
    }
}

/// The tunnel under the cursor is toggled, or all tunnels of the host under the cursor, by what
/// the host is reached by; what is not in the configuration is not. Enter toggles a service, and
/// expands a host that is collapsed or collapses one that is expanded, and no other.
pub proof fn cursor_says_what_is_toggled(app: AppView, host: Seq<char>, svc: Seq<char>)
    ensures
        ({
            let (after, effects) = app.toggle_current();
            let idle = after == app && effects.len() == 0;
            &&& app.selection.host is None ==> idle
            &&& app.selection.host == Some(host) && app.selection.svc == Some(svc)
                ==> match app.cfg.lookup(host, svc) {
                Some(p) => {
                    &&& (after.mgr, effects) == app.mgr.toggle_service(host, p.0.ssh, p.1)
                    &&& after == (AppView { mgr: after.mgr, ..app })
                },
                None => idle,
            }
            &&& app.selection.host == Some(host) && app.selection.svc is None
                ==> match app.cfg.find_host(host) {
                Some(i) => {
                    let h = app.cfg.hosts[i];
                    &&& (after.mgr, effects) == app.mgr.toggle_host(host, h.ssh, h.services)
                    &&& after == (AppView { mgr: after.mgr, ..app })
                },
                None => idle,
            }
        }),
        ({
            let (after, effects) = app.enter_current();
            &&& app.selection.svc is Some ==> (after, effects) == app.toggle_current()
            &&& app.selection.svc is None ==> {
                &&& effects.len() == 0
                &&& after == (AppView { expanded: after.expanded, ..app })
                &&& after.expanded.contains(host) == if app.selection.host == Some(host) {
                    !app.expanded.contains(host)
                } else {
                    app.expanded.contains(host)
                }
            }
        }),
{
}

/// Opening a service whose tunnel is connected opens its address at once, on the port that the
/// tunnel is on. One that is connecting is waited for, one that is at rest is started and waited
/// for, and one on its way down is neither; the user is told so. On a host the user is told to
/// select a service, and what is not in the configuration is not opened.
pub proof fn opening_goes_by_the_tunnel(
    app: AppView,
    host: Seq<char>,
    svc: Seq<char>,
    other: Seq<char>,
)
    requires
        other != tunnel::tunnel_id(host, svc),
    ensures
        app.selection.svc is None ==> app.open_current() == (
            AppView { status: Some("select a service to open"@), ..app },
            Seq::<EffectView>::empty(),
        ),
        app.selection.svc is Some && app.selection.host is None ==> app.open_current() == (
            app,
            Seq::<EffectView>::empty(),
        ),
        app.selection.host == Some(host) && app.selection.svc == Some(svc) ==> {
            let (after, effects) = app.open_current();
            let id = tunnel::tunnel_id(host, svc);
            let known = app.mgr.states.contains_key(id);
            let state = app.mgr.states[id];
            match app.cfg.lookup(host, svc) {
                None => after == app && effects.len() == 0,
                Some(p) => if known && state is Connected {
                    &&& after == app
                    &&& effects.len() == 1
                    &&& effects[0] == EffectView::Open(p.1.url(state->local_port))
                } else if known && state is Disconnecting {
                    &&& after == (AppView { status: Some("disconnecting — wait"@), ..app })
                    &&& effects.len() == 0
                } else {
                    &&& after.pending_opens.contains(id)
                    &&& after.pending_opens.contains(other) == app.pending_opens.contains(other)
                    &&& after == (AppView {
                        mgr: after.mgr,
                        pending_opens: after.pending_opens,
                        status: after.status,
                        ..app
                    })
                    &&& known && state is Connecting ==> {
                        &&& after.mgr == app.mgr
                        &&& effects.len() == 0
                        &&& after.status == Some("waiting for "@ + host + "/"@ + svc + "…"@)
                    }
                    &&& !(known && state is Connecting) ==> {
                        &&& (after.mgr, effects) == app.mgr.connect(host, p.0.ssh, p.1)
                        &&& after.status == Some(
                            "connecting "@ + host + "/"@ + svc + " — will open when ready"@,
                        )
                    }
                },
            }
        },
{
}

/// What a tunnel reports is noted by the manager. A service that waits for it is opened once it is
/// connected, where it is still in the configuration; it waits no more once the tunnel is
/// connected, has failed or is disconnected, and of a failure the user is told. Nothing that waits
/// for another tunnel is touched, and nothing else changes.
pub proof fn reports_settle_what_waits(
    app: AppView,
    ev: TunnelEventView,
    stamp: LogStampView,
    other: Seq<char>,
)
    requires
        other != ev.id(),
    ensures
        ({
            let (after, effects) = app.handle_tunnel_event(ev, stamp);
            let id = ev.id();
            let waits = app.pending_opens.contains(id);
            let settles = ev is Connected || ev is Failed || ev is Disconnected;
            let url = app.url_for_id(id, ev->Connected_local_port);
            &&& after.mgr == app.mgr.apply_event(ev, stamp)
            &&& after.pending_opens.contains(id) <==> waits && !settles
            &&& after.pending_opens.contains(other) == app.pending_opens.contains(other)
            &&& waits && ev is Connected && url is Some ==> effects.len() == 1 && effects[0]
                == EffectView::Open(url->0)
            &&& !(waits && ev is Connected && url is Some) ==> effects.len() == 0
            &&& after.status == if waits && ev is Failed {
                Some(id + " failed: "@ + ev->reason)
            } else {
                app.status
            }
            &&& after == (AppView {
                mgr: after.mgr,
                pending_opens: after.pending_opens,
                status: after.status,
                ..app
            })
        }),
{
}

/// A tunnel leads back to its service: the address for a tunnel is that of the service on the host
/// that its name, cut at the first slash, gives; and there is none where there is no slash or no
/// such service.
pub proof fn tunnels_lead_back_to_services(app: AppView, id: Seq<char>, local_port: u16)
    ensures
        match app.url_for_id(id, local_port) {
            Some(url) => {
                &&& text::cut_at_first(id, '/') matches Some(p)
                &&& app.cfg.lookup(p.0, p.1) matches Some(q)
                &&& url == q.1.url(local_port)
            },
            None => text::cut_at_first(id, '/') matches Some(p) ==> app.cfg.lookup(
                p.0,
                p.1,
            ) is None,
        },
{
}

/// Whether `id` is the tunnel of a service of one of `hosts`.
pub open spec fn tunnel_of_hosts(hosts: Seq<HostView>, id: Seq<char>) -> bool {
    exists|i: int|
        0 <= i < hosts.len() && manager::tunnel_among(
            (#[trigger] hosts[i]).name,
            hosts[i].services,
            id,
        )
}

proof fn lemma_hosts_are_told(m: ManagerView, hosts: Seq<HostView>, id: Seq<char>)
    ensures
        ({
            let (n, effects) = keys::disconnect_hosts(m, hosts);
            let told = m.handles.contains_key(id) && tunnel_of_hosts(hosts, id);
            &&& n.handles.contains_key(id) == m.handles.contains_key(id)
            &&& told ==> {
                &&& n.states.contains_key(id) && n.states[id] is Disconnecting
                &&& !n.handles[id].cancel
                &&& n.handles[id].task == m.handles[id].task
            }
            &&& !told ==> {
                &&& n.states.contains_key(id) == m.states.contains_key(id)
                &&& n.states.contains_key(id) ==> n.states[id] == m.states[id]
                &&& n.handles.contains_key(id) ==> n.handles[id] == m.handles[id]
            }
            &&& effects.contains(EffectView::Stop(id)) <==> told && m.handles[id].cancel
            &&& forall|k: int| 0 <= k < effects.len() ==> #[trigger] effects[k] is Stop
            &&& n.logs == m.logs
        }),
    decreases hosts.len(),
{
    let (n, effects) = keys::disconnect_hosts(m, hosts);
    if hosts.len() > 0 {
        let less = hosts.drop_last();
        let h = hosts.last();
        lemma_hosts_are_told(m, less, id);
        let (mid, done) = keys::disconnect_hosts(m, less);
        manager::ended_host_is_told(mid, h.name, h.services, id);
        let more = mid.disconnect_each(h.name, h.services).1;
        assert(effects == done + more);
        assert(tunnel_of_hosts(hosts, id) <==> tunnel_of_hosts(less, id) || manager::tunnel_among(
            h.name,
            h.services,
            id,
        )) by {
            if tunnel_of_hosts(less, id) {
                let i = choose|i: int|
                    0 <= i < less.len() && manager::tunnel_among(
                        (#[trigger] less[i]).name,
                        less[i].services,
                        id,
                    );
                assert(hosts[i] == less[i]);
            }
            if tunnel_of_hosts(hosts, id) {
                let i = choose|i: int|
                    0 <= i < hosts.len() && manager::tunnel_among(
                        (#[trigger] hosts[i]).name,
                        hosts[i].services,
                        id,
                    );
                if i < less.len() {
                    assert(less[i] == hosts[i]);
                }
            }
            assert(hosts[hosts.len() - 1] == h);
        }
        let stop = EffectView::Stop(id);
        assert(effects.contains(stop) <==> done.contains(stop) || more.contains(stop)) by {
            if done.contains(stop) {
                let k = choose|k: int| 0 <= k < done.len() && done[k] == stop;
                assert(effects[k] == stop);
            }
            if more.contains(stop) {
                let k = choose|k: int| 0 <= k < more.len() && more[k] == stop;
                assert(effects[done.len() + k] == stop);
            }
            if effects.contains(stop) {
                let k = choose|k: int| 0 <= k < effects.len() && effects[k] == stop;
                if k < done.len() {
                    assert(done[k] == stop);
                } else {
                    assert(more[k - done.len()] == stop);
                }
            }
        }
        assert forall|k: int| 0 <= k < effects.len() implies #[trigger] effects[k] is Stop by {
            if k < done.len() {
                assert(effects[k] == done[k]);
            } else {
                assert(effects[k] == more[k - done.len()]);
            }
        }
    }
}

/// A reload that goes through takes up the new configuration, has every tunnel of the old one that
/// runs on its way down and told to end, and touches no other tunnel; one that does not go through
/// changes nothing but that the user is told why.
pub proof fn reload_tells_the_old_tunnels(
    app: AppView,
    path: Seq<char>,
    found: FoundView,
    id: Seq<char>,
)
    ensures
        ({
            let (after, effects) = app.reload(path, found);
            let m = app.mgr;
            let n = after.mgr;
            let ended = m.handles.contains_key(id) && tunnel_of_hosts(app.cfg.hosts, id);
            match config::loaded(path, found) {
                Ok(cfg) => {
                    &&& after.cfg == cfg
                    &&& after.status == Some("config reloaded"@)
                    &&& after == (AppView {
                        cfg: after.cfg,
                        mgr: after.mgr,
                        status: after.status,
                        ..app
                    })
                    &&& forall|k: int| 0 <= k < effects.len() ==> #[trigger] effects[k] is Stop
                    &&& effects.contains(EffectView::Stop(id)) <==> ended && m.handles[id].cancel
                    &&& ended ==> n.states.contains_key(id) && n.states[id] is Disconnecting
                    &&& !ended ==> n.states.contains_key(id) == m.states.contains_key(id)
                    &&& !ended && n.states.contains_key(id) ==> n.states[id] == m.states[id]
                    &&& n.handles.contains_key(id) == m.handles.contains_key(id)
                    &&& n.logs == m.logs
                },
                Err(e) => {
                    &&& after == (AppView {
                        status: Some("reload failed: "@ + e.message()),
                        ..app
                    })
                    &&& effects.len() == 0
                },
            }
        }),
{
    lemma_hosts_are_told(app.mgr, app.cfg.hosts, id);
}

/// The user is told which address is being opened, or why it could not be, and why the
/// configuration could not be saved; a save that went well is not spoken of. Nothing else changes.
pub proof fn outcomes_are_told(app: AppView, url: Seq<char>, why: Seq<char>)
    ensures
        app.note_opened(url, None) == (AppView { status: Some("opening "@ + url), ..app }),
        app.note_opened(url, Some(why)) == (AppView { status: Some("open failed: "@ + why), ..app }),
        app.save_config(Some(why)) == (AppView { status: Some("save failed: "@ + why), ..app }),
        app.save_config(None) == app,
{
}

/// A turn of the main loop does what the key or the report that it is about does, and without
/// either it does nothing.
pub proof fn turns_follow_what_happens(
    app: AppView,
    k: KeyEvent,
    ev: TunnelEventView,
    stamp: LogStampView,
)
    ensures
        app.turn(LoopEventView::Press(k)) == app.key(k),
        app.turn(LoopEventView::Tunnel(ev, stamp)) == app.handle_tunnel_event(ev, stamp),
        app.turn(LoopEventView::Tick) == (app, Seq::<EffectView>::empty()),
        app.turn(LoopEventView::OtherInput) == (app, Seq::<EffectView>::empty()),
        app.turn(LoopEventView::InputEnded) == (app, Seq::<EffectView>::empty()),
{
}

/// The main loop ends with the input, and with `q` where nothing is shown over the tree; a program
/// that has not been told to quit otherwise goes on.
pub proof fn loop_ends_by_q_or_with_the_input(app: AppView, ev: LoopEventView)
    requires
        !app.should_quit,
    ensures
        app.goes_on(ev) <==> match ev {
            LoopEventView::InputEnded => false,
            LoopEventView::Press(k) => !(app.modal is Closed && !app.show_help && k.code
                == KeyCode::Char('q')),
            _ => true,
        },
{
    if let LoopEventView::Press(k) = ev {
        laws::only_q_quits(app, k);
    }
}

} // verus!
