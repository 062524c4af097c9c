//! The user interface: what is shown, what is selected, and what the keys do.
pub mod draw;
pub mod forms;
pub mod keys;
pub mod laws;

use std::path::PathBuf;

use vstd::prelude::*;

use crate::config::{Config, ConfigView, HostView, ServiceView};
use crate::manager::{Manager, ManagerView};
use crate::seqs;
use crate::table::NameSet;
use crate::text;

verus! {

broadcast use crate::seqs::group_views;

/// `std::path::PathBuf`, which is carried along and never looked into.
#[verifier::external_type_specification]
#[verifier::external_body]
pub struct ExPathBuf(PathBuf);

/// The whole state of the program.
pub struct App {
    pub cfg: Config,
    pub cfg_path: PathBuf,
    pub mgr: Manager,
    pub selection: Selection,
    /// The hosts whose services are shown.
    pub expanded: NameSet,
    pub modal: Modal,
    pub show_logs: bool,
    pub show_help: bool,
    pub status: Option<String>,
    pub should_quit: bool,
    /// The tunnels whose service is to be opened once they are up.
    pub pending_opens: NameSet,
}

/// What is selected: nothing, a host, or a service of a host.
#[derive(Debug)]
pub struct Selection {
    pub host: Option<String>,
    pub svc: Option<String>,
}

/// What is shown over the tree and takes the keys.
pub enum Modal {
    /// Nothing: the tree takes the keys.
    Closed,
    Form(FormModal),
    Confirm(ConfirmModal),
    Error(String),
}

/// A form that is being filled in.
pub struct FormModal {
    pub title: String,
    pub fields: Vec<Field>,
    /// The field that takes what is typed.
    pub focus: usize,
    pub action: FormAction,
}

/// What a form is for.
pub enum FormAction {
    AddHost,
    EditHost { original: String },
    AddService { host: String },
    EditService { host: String, original_svc: String },
}

/// A field of a form.
pub struct Field {
    pub label: String,
    pub value: String,
    pub placeholder: String,
}

/// A question to be answered by yes or no.
pub struct ConfirmModal {
    pub message: String,
    pub action: ConfirmAction,
}

/// What a question is about.
pub enum ConfirmAction {
    DeleteHost(String),
    DeleteService { host: String, svc: String },
}

/// A row of the tree.
#[derive(Debug)]
pub enum Row {
    Host { name: String, ssh: String, svc_count: usize, expanded: bool },
    Service { host: String, svc_name: String },
}

#[verifier::ext_equal]
pub struct AppView {
    pub cfg: ConfigView,
    pub cfg_path: PathBuf,
    pub mgr: ManagerView,
    pub selection: SelectionView,
    pub expanded: Set<Seq<char>>,
    pub modal: ModalView,
    pub show_logs: bool,
    pub show_help: bool,
    pub status: Option<Seq<char>>,
    pub should_quit: bool,
    pub pending_opens: Set<Seq<char>>,
}

pub struct SelectionView {
    pub host: Option<Seq<char>>,
    pub svc: Option<Seq<char>>,
}

pub enum ModalView {
    Closed,
    Form(FormView),
    Confirm(ConfirmView),
    Error(Seq<char>),
}

pub struct FormView {
    pub title: Seq<char>,
    pub fields: Seq<FieldView>,
    pub focus: int,
    pub action: FormActionView,
}

pub enum FormActionView {
    AddHost,
    EditHost { original: Seq<char> },
    AddService { host: Seq<char> },
    EditService { host: Seq<char>, original_svc: Seq<char> },
}

pub struct FieldView {
    pub label: Seq<char>,
    pub value: Seq<char>,
    pub placeholder: Seq<char>,
}

pub struct ConfirmView {
    pub message: Seq<char>,
    pub action: ConfirmActionView,
}

pub enum ConfirmActionView {
    DeleteHost(Seq<char>),
    DeleteService { host: Seq<char>, svc: Seq<char> },
}

pub enum RowView {
    Host { name: Seq<char>, ssh: Seq<char>, svc_count: int, expanded: bool },
    Service { host: Seq<char>, svc_name: Seq<char> },
}

/// The text in `s`, where there is one.
pub open spec fn text_in(s: Option<String>) -> Option<Seq<char>> {
    match s {
        Some(t) => Some(t@),
        None => None,
    }
}

impl View for App {
    type V = AppView;

    open spec fn view(&self) -> AppView {
        AppView {
            cfg: self.cfg@,
            cfg_path: self.cfg_path,
            mgr: self.mgr@,
            selection: self.selection@,
            expanded: self.expanded@,
            modal: self.modal@,
            show_logs: self.show_logs,
            show_help: self.show_help,
            status: text_in(self.status),
            should_quit: self.should_quit,
            pending_opens: self.pending_opens@,
        }
    }
}

impl View for Selection {
    type V = SelectionView;

    open spec fn view(&self) -> SelectionView {
        SelectionView { host: text_in(self.host), svc: text_in(self.svc) }
    }
}

impl View for Modal {
    type V = ModalView;

    open spec fn view(&self) -> ModalView {
        match self {
            Modal::Closed => ModalView::Closed,
            Modal::Form(f) => ModalView::Form(f@),
            Modal::Confirm(c) => ModalView::Confirm(c@),
            Modal::Error(e) => ModalView::Error(e@),
        }
    }
}

impl View for FormModal {
    type V = FormView;

    open spec fn view(&self) -> FormView {
        FormView {
            title: self.title@,
            fields: seqs::views(self.fields@),
            focus: self.focus as int,
            action: self.action@,
        }
    }
}

impl View for FormAction {
    type V = FormActionView;

    open spec fn view(&self) -> FormActionView {
        match self {
            FormAction::AddHost => FormActionView::AddHost,
            FormAction::EditHost { original } => FormActionView::EditHost { original: original@ },
            FormAction::AddService { host } => FormActionView::AddService { host: host@ },
            FormAction::EditService { host, original_svc } => FormActionView::EditService {
                host: host@,
                original_svc: original_svc@,
            },
        }
    }
}

impl View for Field {
    type V = FieldView;

    open spec fn view(&self) -> FieldView {
        FieldView {
            label: self.label@,
            value: self.value@,
            placeholder: self.placeholder@,
        }
    }
}

impl View for ConfirmModal {
    type V = ConfirmView;

    open spec fn view(&self) -> ConfirmView {
        ConfirmView { message: self.message@, action: self.action@ }
    }
}

impl View for ConfirmAction {
    type V = ConfirmActionView;

    open spec fn view(&self) -> ConfirmActionView {
        match self {
            ConfirmAction::DeleteHost(name) => ConfirmActionView::DeleteHost(name@),
            ConfirmAction::DeleteService { host, svc } => ConfirmActionView::DeleteService {
                host: host@,
                svc: svc@,
            },
        }
    }
}

impl View for Row {
    type V = RowView;

    open spec fn view(&self) -> RowView {
        match self {
            Row::Host { name, ssh, svc_count, expanded } => RowView::Host {
                name: name@,
                ssh: ssh@,
                svc_count: *svc_count as int,
                expanded: *expanded,
            },
            Row::Service { host, svc_name } => RowView::Service {
                host: host@,
                svc_name: svc_name@,
            },
        }
    }
}

impl Clone for Selection {
    fn clone(&self) -> (r: Self)
        ensures
            r@ == self@,
    {
        Selection { host: self.host.clone(), svc: self.svc.clone() }
    }
}

impl Clone for FormAction {
    fn clone(&self) -> (r: Self)
        ensures
            r@ == self@,
    {
        match self {
            FormAction::AddHost => FormAction::AddHost,
            FormAction::EditHost { original } => FormAction::EditHost {
                original: original.clone(),
            },
            FormAction::AddService { host } => FormAction::AddService { host: host.clone() },
            FormAction::EditService { host, original_svc } => FormAction::EditService {
                host: host.clone(),
                original_svc: original_svc.clone(),
            },
        }
    }
}

impl Clone for ConfirmAction {
    fn clone(&self) -> (r: Self)
        ensures
            r@ == self@,
    {
        match self {
            ConfirmAction::DeleteHost(name) => ConfirmAction::DeleteHost(name.clone()),
            ConfirmAction::DeleteService { host, svc } => ConfirmAction::DeleteService {
                host: host.clone(),
                svc: svc.clone(),
            },
        }
    }
}

impl Clone for Row {
    fn clone(&self) -> (r: Self)
        ensures
            r@ == self@,
    {
        match self {
            Row::Host { name, ssh, svc_count, expanded } => Row::Host {
                name: name.clone(),
                ssh: ssh.clone(),
                svc_count: *svc_count,
                expanded: *expanded,
            },
            Row::Service { host, svc_name } => Row::Service {
                host: host.clone(),
                svc_name: svc_name.clone(),
            },
        }
    }
}

impl SelectionView {
    pub open spec fn nothing() -> SelectionView {
        SelectionView { host: None, svc: None }
    }

    pub open spec fn on_host(host: Seq<char>) -> SelectionView {
        SelectionView { host: Some(host), svc: None }
    }

    pub open spec fn on_service(host: Seq<char>, svc: Seq<char>) -> SelectionView {
        SelectionView { host: Some(host), svc: Some(svc) }
    }

    /// The first host, or nothing where there is none.
    pub open spec fn on_first(cfg: ConfigView) -> SelectionView {
        if cfg.hosts.len() > 0 {
            SelectionView::on_host(cfg.hosts[0].name)
        } else {
            SelectionView::nothing()
        }
    }
}

impl Selection {
    /// Nothing is selected.
    pub fn empty() -> (r: Self)
        ensures
            r@ == SelectionView::nothing(),
    {
        Selection { host: None, svc: None }
    }

    /// A host is selected.
    pub fn on_host(host: String) -> (r: Self)
        ensures
            r@ == SelectionView::on_host(host@),
    {
        Selection { host: Some(host), svc: None }
    }

    /// A service is selected.
    pub fn on_service(host: String, svc: String) -> (r: Self)
        ensures
            r@ == SelectionView::on_service(host@, svc@),
    {
        Selection { host: Some(host), svc: Some(svc) }
    }

    /// The first host is selected, or nothing where there is none.
    pub fn on_first(cfg: &Config) -> (r: Self)
        ensures
            r@ == SelectionView::on_first(cfg@),
    {
        if cfg.hosts.len() > 0 {
            assert(cfg@.hosts[0] == cfg.hosts@[0]@);
            Selection::on_host(cfg.hosts[0].name.clone())
        } else {
            Selection::empty()
        }
    }
}

impl FormActionView {
    /// How many fields the form has.
    pub open spec fn arity(self) -> int {
        match self {
            FormActionView::AddHost => 2,
            FormActionView::EditHost { original } => 2,
            FormActionView::AddService { host } => 4,
            FormActionView::EditService { host, original_svc } => 4,
        }
    }
}

impl AppView {
    /// What every state of the program keeps: a form has the fields that it is for, and one of
    /// them has the focus.
    pub open spec fn wf(self) -> bool {
        self.modal matches ModalView::Form(f) ==> {
            &&& f.fields.len() == f.action.arity()
            &&& 0 <= f.focus < f.fields.len()
        }
    }

    /// Whether an open form has the fields that it is read by.
    pub open spec fn form_complete(self) -> bool {
        self.modal matches ModalView::Form(f) ==> f.fields.len() >= f.action.arity()
    }

    /// Whether an open form can take every key: it has the fields that it is read by, and one of
    /// its fields has the focus.
    pub open spec fn takes_keys(self) -> bool {
        &&& self.form_complete()
        &&& self.modal matches ModalView::Form(f) ==> 0 <= f.focus < f.fields.len()
    }

    /// The state at the start: all hosts are expanded and the first one is selected.
    pub open spec fn initial(cfg: ConfigView, cfg_path: PathBuf) -> AppView {
        AppView {
            cfg,
            cfg_path,
            mgr: ManagerView { states: Map::empty(), handles: Map::empty(), logs: Seq::empty() },
            selection: SelectionView::on_first(cfg),
            expanded: Set::new(
                |n: Seq<char>|
                    exists|i: int| 0 <= i < cfg.hosts.len() && (#[trigger] cfg.hosts[i]).name == n,
            ),
            modal: ModalView::Closed,
            show_logs: false,
            show_help: false,
            status: None,
            should_quit: false,
            pending_opens: Set::empty(),
        }
    }
}

impl App {
    /// The program at its start, with `cfg` loaded from `cfg_path`.
    pub fn new(cfg: Config, cfg_path: PathBuf) -> (r: Self)
        ensures
            r@ == AppView::initial(cfg@, cfg_path),
            r@.wf(),
    {
        let mut expanded = NameSet::new();
        let mut i: usize = 0;
        while i < cfg.hosts.len()
            invariant
                i <= cfg.hosts@.len(),
                forall|n: Seq<char>| #[trigger]
                    expanded@.contains(n) <==> exists|k: int|
                        0 <= k < i && (#[trigger] cfg@.hosts[k]).name == n,
            decreases cfg.hosts@.len() - i,
        {
            let ghost before = expanded@;
            assert(cfg@.hosts[i as int] == cfg.hosts@[i as int]@);
            expanded.insert(cfg.hosts[i].name.clone());
            proof {
                assert forall|n: Seq<char>| #[trigger]
                    expanded@.contains(n) <==> exists|k: int|
                        0 <= k < i + 1 && (#[trigger] cfg@.hosts[k]).name == n by {
                    if n == cfg@.hosts[i as int].name {
                        assert(cfg@.hosts[i as int].name == n);
                    } else if before.contains(n) {
                        let k = choose|k: int| 0 <= k < i && (#[trigger] cfg@.hosts[k]).name == n;
                        assert(cfg@.hosts[k].name == n);
                    }
                }
            }
            i = i + 1;
        }
        let selection = Selection::on_first(&cfg);
        assert(expanded@ =~= AppView::initial(cfg@, cfg_path).expanded);
        App {
            cfg,
            cfg_path,
            mgr: Manager::new(),
            selection,
            expanded,
            modal: Modal::Closed,
            show_logs: false,
            show_help: false,
            status: None,
            should_quit: false,
            pending_opens: NameSet::new(),
        }
    }
}

/// The rows of one host: the host itself, then its services where it is expanded.
pub open spec fn host_rows(h: HostView, expanded: Set<Seq<char>>) -> Seq<RowView> {
    let top = seq![
        RowView::Host {
            name: h.name,
            ssh: h.ssh,
            svc_count: h.services.len() as int,
            expanded: expanded.contains(h.name),
        },
    ];
    if expanded.contains(h.name) {
        top + h.services.map_values(
            |s: ServiceView| RowView::Service { host: h.name, svc_name: s.name },
        )
    } else {
        top
    }
}

/// The rows of `hosts`, host by host.
pub open spec fn tree_rows(hosts: Seq<HostView>, expanded: Set<Seq<char>>) -> Seq<RowView>
    decreases hosts.len(),
{
    if hosts.len() == 0 {
        Seq::empty()
    } else {
        tree_rows(hosts.drop_last(), expanded) + host_rows(hosts.last(), expanded)
    }
}

impl RowView {
    /// What is selected when the row is.
    pub open spec fn selection(self) -> SelectionView {
        match self {
            RowView::Host { name, ssh, svc_count, expanded } => SelectionView::on_host(name),
            RowView::Service { host, svc_name } => SelectionView::on_service(host, svc_name),
        }
    }
}

/// The rows that are selected when `selection` is.
pub open spec fn row_selected(selection: SelectionView) -> spec_fn(RowView) -> bool {
    |r: RowView| r.selection() == selection
}

impl AppView {
    /// The rows of the tree.
    pub open spec fn rows(self) -> Seq<RowView> {
        tree_rows(self.cfg.hosts, self.expanded)
    }

    /// Which of `rows` is selected.
    pub open spec fn selected(self, rows: Seq<RowView>) -> Option<int> {
        seqs::find(rows, row_selected(self.selection))
    }

    /// The selection moves by `delta` rows, round the end of the tree; where no row is selected
    /// it moves from the first.
    pub open spec fn move_selection(self, delta: int) -> AppView {
        let rows = self.rows();
        if rows.len() == 0 {
            self
        } else {
            let cur = match self.selected(rows) {
                Some(i) => i,
                None => 0,
            };
            AppView { selection: rows[(cur + delta) % (rows.len() as int)].selection(), ..self }
        }
    }
}

/// Whether `a` is a text, and the one in `b`.
fn holds(a: &Option<String>, b: &str) -> (r: bool)
    ensures
        r == (text_in(*a) == Some(b@)),
{
    match a {
        Some(s) => text::same(s.as_str(), b),
        None => false,
    }
}

impl App {
    /// The rows of the tree.
    pub fn flat_rows(&self) -> (r: Vec<Row>)
        ensures
            seqs::views(r@) == self@.rows(),
    {
        let ghost hosts = self@.cfg.hosts;
        let mut out: Vec<Row> = Vec::new();
        let mut i: usize = 0;
        assert(hosts.take(0) =~= Seq::<HostView>::empty());
        while i < self.cfg.hosts.len()
            invariant
                i <= self.cfg.hosts@.len(),
                hosts == self@.cfg.hosts,
                seqs::views(out@) == tree_rows(hosts.take(i as int), self@.expanded),
            decreases self.cfg.hosts@.len() - i,
        {
            let h = &self.cfg.hosts[i];
            assert(hosts[i as int] == h@);
            assert(hosts.take(i + 1).drop_last() =~= hosts.take(i as int));
            let ghost before = seqs::views(out@);
            let ghost services = h@.services.map_values(
                |s: ServiceView| RowView::Service { host: h@.name, svc_name: s.name },
            );
            let expanded = self.expanded.contains(h.name.as_str());
            out.push(
                Row::Host {
                    name: h.name.clone(),
                    ssh: h.ssh.clone(),
                    svc_count: h.services.len(),
                    expanded,
                },
            );
            let ghost top = seqs::views(out@);
            if expanded {
                let mut j: usize = 0;
                assert(services.take(0) =~= Seq::<RowView>::empty());
                while j < h.services.len()
                    invariant
                        j <= h.services@.len(),
                        services == h@.services.map_values(
                            |s: ServiceView| RowView::Service { host: h@.name, svc_name: s.name },
                        ),
                        seqs::views(out@) == top + services.take(j as int),
                    decreases h.services@.len() - j,
                {
                    assert(h@.services[j as int] == h.services@[j as int]@);
                    assert(services.take(j + 1) =~= services.take(j as int).push(
                        services[j as int],
                    ));
                    out.push(
                        Row::Service {
                            host: h.name.clone(),
                            svc_name: h.services[j].name.clone(),
                        },
                    );
                    assert(seqs::views(out@) =~= top + services.take(j + 1));
                    j = j + 1;
                }
                assert(services.take(j as int) =~= services);
            }
            assert(seqs::views(out@) =~= before + host_rows(h@, self@.expanded));
            i = i + 1;
        }
        assert(hosts.take(i as int) =~= hosts);
        out
    }

    /// Which of `rows` is selected.
    pub fn selected_index(&self, rows: &[Row]) -> (r: Option<usize>)
        ensures
            match r {
                Some(i) => self@.selected(seqs::views(rows@)) == Some(i as int) && i < rows@.len(),
                None => self@.selected(seqs::views(rows@)) is None,
            },
    {
        let ghost p = row_selected(self@.selection);
        let ghost all = seqs::views(rows@);
        let mut i: usize = 0;
        while i < rows.len()
            invariant
                i <= rows@.len(),
                p == row_selected(self@.selection),
                all == seqs::views(rows@),
                forall|k: int| 0 <= k < i ==> !p(#[trigger] all[k]),
            decreases rows@.len() - i,
        {
            assert(all[i as int] == rows@[i as int]@);
            let hit = match &rows[i] {
                Row::Host { name, ssh, svc_count, expanded } => holds(
                    &self.selection.host,
                    name.as_str(),
                ) && self.selection.svc.is_none(),
                Row::Service { host, svc_name } => holds(&self.selection.host, host.as_str())
                    && holds(&self.selection.svc, svc_name.as_str()),
            };
            if hit {
                proof {
                    seqs::lemma_find_at(all, p, i as int);
                }
                return Some(i);
            }
            i = i + 1;
        }
        proof {
            seqs::lemma_find(all, p);
        }
        None
    }

    /// Selects row `idx` of `rows`, where there is such a row.
    pub fn select_index(&mut self, rows: &[Row], idx: usize)
        ensures
            final(self)@ == if idx < rows@.len() {
                AppView { selection: rows@[idx as int]@.selection(), ..old(self)@ }
            } else {
                old(self)@
            },
    {
        if idx < rows.len() {
            match &rows[idx] {
                Row::Host { name, ssh, svc_count, expanded } => {
                    self.selection = Selection::on_host(name.clone());
                },
                Row::Service { host, svc_name } => {
                    self.selection = Selection::on_service(host.clone(), svc_name.clone());
                },
            }
        }
    }

    /// Moves the selection by `delta` rows, round the end of the tree.
    pub fn move_selection(&mut self, delta: isize)
        ensures
            final(self)@ == old(self)@.move_selection(delta as int),
    {
        let rows = self.flat_rows();
        if rows.len() == 0 {
            return;
        }
        let cur: usize = match self.selected_index(rows.as_slice()) {
            Some(i) => i,
            None => 0,
        };
        let len: i128 = rows.len() as i128;
        let target: i128 = cur as i128 + delta as i128;
        match target.checked_rem_euclid(len) {
            Some(new) => {
                self.select_index(rows.as_slice(), new as usize);
            },
            None => {},
        }
    }
}

} // verus!
