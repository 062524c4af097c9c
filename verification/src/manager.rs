//! The manager: the state of every tunnel, the handles of those that run, and the log.
use std::collections::VecDeque;

use vstd::prelude::*;

use crate::config::{Service, ServiceView};
use crate::effect::{Effect, EffectView};
use crate::seqs;
use crate::table::Table;
use crate::text;
use crate::tunnel;
use crate::tunnel::{
    make_id, spawn_tunnel, Phase, RunView, TunnelEvent, TunnelEventView, TunnelHandle, TunnelId,
};

verus! {

broadcast use crate::seqs::group_views;

/// How many lines the log holds at most.
pub const LOG_CAP: usize = 1000;

/// The state of a tunnel, as far as it has been reported.
#[derive(Debug, PartialEq, Eq)]
pub enum ConnState {
    Disconnected,
    Connecting,
    Connected { local_port: u16 },
    Disconnecting,
    Failed { reason: String },
}

pub enum ConnStateView {
    Disconnected,
    Connecting,
    Connected { local_port: u16 },
    Disconnecting,
    Failed { reason: Seq<char> },
}

impl View for ConnState {
    type V = ConnStateView;

    open spec fn view(&self) -> ConnStateView {
        match self {
            ConnState::Disconnected => ConnStateView::Disconnected,
            ConnState::Connecting => ConnStateView::Connecting,
            ConnState::Connected { local_port } => ConnStateView::Connected {
                local_port: *local_port,
            },
            ConnState::Disconnecting => ConnStateView::Disconnecting,
            ConnState::Failed { reason } => ConnStateView::Failed { reason: reason@ },
        }
    }
}

impl Clone for ConnState {
    fn clone(&self) -> (r: Self)
        ensures
            r@ == self@,
    {
        match self {
            ConnState::Disconnected => ConnState::Disconnected,
            ConnState::Connecting => ConnState::Connecting,
            ConnState::Connected { local_port } => ConnState::Connected {
                local_port: *local_port,
            },
            ConnState::Disconnecting => ConnState::Disconnecting,
            ConnState::Failed { reason } => ConnState::Failed { reason: reason.clone() },
        }
    }
}

impl ConnStateView {
    /// Whether the tunnel comes or goes.
    pub open spec fn transient(self) -> bool {
        self is Connecting || self is Disconnecting
    }

    /// Whether the tunnel is up or comes up.
    pub open spec fn on(self) -> bool {
        self is Connected || self is Connecting
    }

    /// Whether a tunnel in this state is neither up nor on its way up or down.
    pub open spec fn at_rest(self) -> bool {
        self is Disconnected || self is Failed
    }
}

impl ConnState {
    /// Whether the tunnel is up.
    pub fn is_connected(&self) -> (r: bool)
        ensures
            r == (self@ is Connected),
    {
        matches!(self, ConnState::Connected { .. })
    }

    /// Whether the tunnel comes or goes.
    pub fn is_transient(&self) -> (r: bool)
        ensures
            r == self@.transient(),
    {
        matches!(self, ConnState::Connecting | ConnState::Disconnecting)
    }

    /// Whether the tunnel is up or comes up.
    pub fn is_on(&self) -> (r: bool)
        ensures
            r == self@.on(),
    {
        matches!(self, ConnState::Connected { .. } | ConnState::Connecting)
    }
}

/// How much a line of the log matters.
#[derive(Debug, Clone, Copy, PartialEq, Eq, Structural)]
pub enum LogLevel {
    Info,
    Warn,
    Error,
}

/// How much a line that comes with `ev` matters.
pub open spec fn level_for(ev: TunnelEventView) -> LogLevel {
    if ev is Failed {
        LogLevel::Error
    } else {
        LogLevel::Info
    }
}

/// How much a line that comes with `ev` matters: a failure is an error, and all else is for
/// information.
pub fn level_of(ev: &TunnelEvent) -> (r: LogLevel)
    ensures
        r == level_for(ev@),
{
    match ev {
        TunnelEvent::Failed { id, reason } => LogLevel::Error,
        _ => LogLevel::Info,
    }
}

/// How much a line of the log matters, and when it came, in words.
#[derive(Debug)]
pub struct LogStamp {
    pub level: LogLevel,
    pub timestamp: String,
}

/// A line of the log.
#[derive(Debug)]
pub struct LogEntry {
    pub id: TunnelId,
    pub line: String,
    pub level: LogLevel,
    pub timestamp: String,
}

pub struct LogStampView {
    pub level: LogLevel,
    pub timestamp: Seq<char>,
}

pub struct LogEntryView {
    pub id: Seq<char>,
    pub line: Seq<char>,
    pub level: LogLevel,
    pub timestamp: Seq<char>,
}

impl View for LogStamp {
    type V = LogStampView;

    open spec fn view(&self) -> LogStampView {
        LogStampView { level: self.level, timestamp: self.timestamp@ }
    }
}

impl View for LogEntry {
    type V = LogEntryView;

    open spec fn view(&self) -> LogEntryView {
        LogEntryView {
            id: self.id@,
            line: self.line@,
            level: self.level,
            timestamp: self.timestamp@,
        }
    }
}

impl Clone for LogEntry {
    fn clone(&self) -> (r: Self)
        ensures
            r@ == self@,
    {
        LogEntry {
            id: self.id.clone(),
            line: self.line.clone(),
            level: self.level,
            timestamp: self.timestamp.clone(),
        }
    }
}

/// The tunnels together.
pub struct Manager {
    pub states: Table<ConnState>,
    pub handles: Table<TunnelHandle>,
    pub logs: VecDeque<LogEntry>,
}

#[verifier::ext_equal]
pub struct ManagerView {
    pub states: Map<Seq<char>, ConnStateView>,
    pub handles: Map<Seq<char>, TunnelHandle>,
    pub logs: Seq<LogEntryView>,
}

impl View for Manager {
    type V = ManagerView;

    open spec fn view(&self) -> ManagerView {
        ManagerView {
            states: self.states@,
            handles: self.handles@,
            logs: seqs::views(self.logs@),
        }
    }
}

/// The states of the services of a host, taken together.
#[derive(Debug, Clone, Copy, PartialEq, Eq, Structural)]
pub enum HostAggState {
    Empty,
    AllOff,
    AllOn,
    Mixed,
    Transient,
    Failed,
}

impl ManagerView {
    /// The state of tunnel `id`: disconnected where none has been noted.
    pub open spec fn state_of(self, id: Seq<char>) -> ConnStateView {
        if self.states.contains_key(id) {
            self.states[id]
        } else {
            ConnStateView::Disconnected
        }
    }

    pub open spec fn with_state(self, id: Seq<char>, state: ConnStateView) -> ManagerView {
        ManagerView { states: self.states.insert(id, state), ..self }
    }

    pub open spec fn with_handle(self, id: Seq<char>, handle: TunnelHandle) -> ManagerView {
        ManagerView { handles: self.handles.insert(id, handle), ..self }
    }

    pub open spec fn without_handle(self, id: Seq<char>) -> ManagerView {
        ManagerView { handles: self.handles.remove(id), ..self }
    }

    /// A tunnel that is at rest is started; any other is left alone.
    pub open spec fn connect(self, host: Seq<char>, ssh: Seq<char>, svc: ServiceView) -> (
        ManagerView,
        Seq<EffectView>,
    ) {
        let id = tunnel::tunnel_id(host, svc.name);
        if self.state_of(id).at_rest() {
            (
                self.with_state(id, ConnStateView::Connecting).with_handle(
                    id,
                    TunnelHandle { cancel: true, task: true },
                ),
                seq![
                    EffectView::Start(
                        RunView {
                            id,
                            ssh_alias: ssh,
                            remote_port: svc.port,
                            local_port: svc.local_port,
                            phase: Phase::New,
                        },
                    ),
                ],
            )
        } else {
            (self, Seq::empty())
        }
    }

    /// A tunnel that runs is told to end, unless it was told so before; any other is left alone.
    pub open spec fn disconnect(self, host: Seq<char>, svc_name: Seq<char>) -> (
        ManagerView,
        Seq<EffectView>,
    ) {
        let id = tunnel::tunnel_id(host, svc_name);
        if self.handles.contains_key(id) {
            (
                self.with_state(id, ConnStateView::Disconnecting).with_handle(
                    id,
                    TunnelHandle { cancel: false, task: self.handles[id].task },
                ),
                if self.handles[id].cancel {
                    seq![EffectView::Stop(id)]
                } else {
                    Seq::empty()
                },
            )
        } else {
            (self, Seq::empty())
        }
    }

    /// The tunnels to `services` are started in turn.
    pub open spec fn connect_each(
        self,
        host: Seq<char>,
        ssh: Seq<char>,
        services: Seq<ServiceView>,
    ) -> (ManagerView, Seq<EffectView>)
        decreases services.len(),
    {
        if services.len() == 0 {
            (self, Seq::empty())
        } else {
            let (m, done) = self.connect_each(host, ssh, services.drop_last());
            let (next, more) = m.connect(host, ssh, services.last());
            (next, done + more)
        }
    }

    /// The tunnels to `services` are told to end in turn.
    pub open spec fn disconnect_each(self, host: Seq<char>, services: Seq<ServiceView>) -> (
        ManagerView,
        Seq<EffectView>,
    )
        decreases services.len(),
    {
        if services.len() == 0 {
            (self, Seq::empty())
        } else {
            let (m, done) = self.disconnect_each(host, services.drop_last());
            let (next, more) = m.disconnect(host, services.last().name);
            (next, done + more)
        }
    }

    /// A tunnel that is on is told to end; any other is started.
    pub open spec fn toggle_service(self, host: Seq<char>, ssh: Seq<char>, svc: ServiceView) -> (
        ManagerView,
        Seq<EffectView>,
    ) {
        if self.state_of(tunnel::tunnel_id(host, svc.name)).on() {
            self.disconnect(host, svc.name)
        } else {
            self.connect(host, ssh, svc)
        }
    }

    /// Whether one of the tunnels to `services` is on.
    pub open spec fn any_on(self, host: Seq<char>, services: Seq<ServiceView>) -> bool {
        exists|i: int|
            0 <= i < services.len() && self.state_of(
                tunnel::tunnel_id(host, (#[trigger] services[i]).name),
            ).on()
    }

    /// Where one tunnel of the host is on, all are told to end; else all are started.
    pub open spec fn toggle_host(
        self,
        host: Seq<char>,
        ssh: Seq<char>,
        services: Seq<ServiceView>,
    ) -> (ManagerView, Seq<EffectView>) {
        if self.any_on(host, services) {
            self.disconnect_each(host, services)
        } else {
            self.connect_each(host, ssh, services)
        }
    }

    /// A line is added to the log; where the log is full its first line goes.
    pub open spec fn push_log(self, entry: LogEntryView) -> ManagerView {
        let kept = if self.logs.len() >= LOG_CAP {
            self.logs.drop_first()
        } else {
            self.logs
        };
        ManagerView { logs: kept.push(entry), ..self }
    }

    /// What a tunnel reports becomes its state; a tunnel that is over has no handle any more; a
    /// failure and a line that `ssh` wrote are logged.
    pub open spec fn apply_event(self, ev: TunnelEventView, stamp: LogStampView) -> ManagerView {
        match ev {
            TunnelEventView::Connecting { id } => self.with_state(id, ConnStateView::Connecting),
            TunnelEventView::Connected { id, local_port } => self.with_state(
                id,
                ConnStateView::Connected { local_port },
            ),
            TunnelEventView::Failed { id, reason } => self.push_log(
                LogEntryView {
                    id,
                    line: "failed: "@ + reason,
                    level: stamp.level,
                    timestamp: stamp.timestamp,
                },
            ).without_handle(id).with_state(id, ConnStateView::Failed { reason }),
            TunnelEventView::Disconnected { id } => self.without_handle(id).with_state(
                id,
                ConnStateView::Disconnected,
            ),
            TunnelEventView::Log { id, line } => self.push_log(
                LogEntryView { id, line, level: stamp.level, timestamp: stamp.timestamp },
            ),
        }
    }

    /// Whether tunnel `id` runs and has not been told to end.
    pub open spec fn to_tell(self, id: Seq<char>) -> bool {
        self.handles.contains_key(id) && self.handles[id].cancel
    }

    /// Whether tunnel `id` runs and its end has not been waited for.
    pub open spec fn to_await(self, id: Seq<char>) -> bool {
        self.handles.contains_key(id) && self.handles[id].task
    }

    /// The manager after every tunnel that runs has been told to end.
    pub open spec fn all_told(self) -> ManagerView {
        ManagerView {
            handles: self.handles.map_values(
                |h: TunnelHandle| TunnelHandle { cancel: false, task: h.task },
            ),
            ..self
        }
    }

    /// The states of the tunnels to `services`, taken together.
    pub open spec fn host_aggregate(
        self,
        host: Seq<char>,
        services: Seq<ServiceView>,
    ) -> HostAggState {
        let state = |i: int| self.state_of(tunnel::tunnel_id(host, services[i].name));
        if services.len() == 0 {
            HostAggState::Empty
        } else if exists|i: int| 0 <= i < services.len() && (#[trigger] state(i)).transient() {
            HostAggState::Transient
        } else if forall|i: int| 0 <= i < services.len() ==> (#[trigger] state(i)) is Connected {
            HostAggState::AllOn
        } else if exists|i: int| 0 <= i < services.len() && (#[trigger] state(i)) is Connected {
            HostAggState::Mixed
        } else if exists|i: int| 0 <= i < services.len() && (#[trigger] state(i)) is Failed {
            HostAggState::Failed
        } else {
            HostAggState::AllOff
        }
    }
}

proof fn lemma_nothing_taken(all: Seq<Seq<char>>, p: spec_fn(Seq<char>) -> bool)
    ensures
        all.take(0).filter(p) == Seq::<Seq<char>>::empty(),
{
    reveal(Seq::filter);
    assert(all.take(0).filter(p) =~= Seq::<Seq<char>>::empty());
}

proof fn lemma_one_more_taken(all: Seq<Seq<char>>, p: spec_fn(Seq<char>) -> bool, i: int)
    requires
        0 <= i < all.len(),
    ensures
        all.take(i + 1).filter(p) == if p(all[i]) {
            all.take(i).filter(p).push(all[i])
        } else {
            all.take(i).filter(p)
        },
{
    assert(all.take(i + 1) =~= all.take(i).push(all[i]));
    all.take(i).lemma_filter_push(all[i], p);
}

impl Manager {
    /// A manager of no tunnels.
    pub fn new() -> (r: Self)
        ensures
            r@ == (ManagerView {
                states: Map::empty(),
                handles: Map::empty(),
                logs: Seq::empty(),
            }),
    {
        Manager { states: Table::new(), handles: Table::new(), logs: VecDeque::new() }
    }

    /// The state of tunnel `id`.
    pub fn state_of(&self, id: &TunnelId) -> (r: ConnState)
        ensures
            r@ == self@.state_of(id@),
    {
        match self.states.get(id.as_str()) {
            Some(s) => s.clone(),
            None => ConnState::Disconnected,
        }
    }

    /// Starts the tunnel to `svc`, where it is at rest.
    pub fn connect(&mut self, host_name: &str, ssh_alias: &str, svc: &Service) -> (r: Vec<Effect>)
        ensures
            (final(self)@, seqs::views(r@)) == old(self)@.connect(host_name@, ssh_alias@, svc@),
    {
        let mut r: Vec<Effect> = Vec::new();
        let id = make_id(host_name, svc.name.as_str());
        let cur = self.state_of(&id);
        if !(cur.is_connected() || cur.is_transient()) {
            self.states.insert(id.clone(), ConnState::Connecting);
            let (handle, run) = spawn_tunnel(
                id.clone(),
                ssh_alias.to_string(),
                svc.port,
                svc.local_port,
            );
            self.handles.insert(id, handle);
            r.push(Effect::Start(run));
        }
        assert(seqs::views(r@) =~= old(self)@.connect(host_name@, ssh_alias@, svc@).1);
        r
    }

    /// Tells the tunnel to `svc_name` to end, where it runs.
    pub fn disconnect(&mut self, host_name: &str, svc_name: &str) -> (r: Vec<Effect>)
        ensures
            (final(self)@, seqs::views(r@)) == old(self)@.disconnect(host_name@, svc_name@),
    {
        let mut r: Vec<Effect> = Vec::new();
        let id = make_id(host_name, svc_name);
        match self.handles.remove(id.as_str()) {
            Some(h) => {
                let mut h = h;
                self.states.insert(id.clone(), ConnState::Disconnecting);
                let tell = h.shutdown();
                self.handles.insert(id.clone(), h);
                if tell {
                    r.push(Effect::Stop(id));
                }
                assert(self@.handles =~= old(self)@.disconnect(
                    host_name@,
                    svc_name@,
                ).0.handles);
            },
            None => {
                assert(self@.handles =~= old(self)@.handles);
            },
        }
        assert(seqs::views(r@) =~= old(self)@.disconnect(host_name@, svc_name@).1);
        r
    }

    /// Starts every tunnel of a host that is at rest.
    pub fn connect_all(
        &mut self,
        host_name: &str,
        ssh_alias: &str,
        services: &[Service],
    ) -> (r: Vec<Effect>)
        ensures
            (final(self)@, seqs::views(r@)) == old(self)@.connect_each(
                host_name@,
                ssh_alias@,
                seqs::views(services@),
            ),
    {
        let ghost svcs = seqs::views(services@);
        let mut r: Vec<Effect> = Vec::new();
        let mut i: usize = 0;
        assert(svcs.take(0) =~= Seq::<ServiceView>::empty());
        while i < services.len()
            invariant
                i <= services@.len(),
                svcs == seqs::views(services@),
                (self@, seqs::views(r@)) == old(self)@.connect_each(
                    host_name@,
                    ssh_alias@,
                    svcs.take(i as int),
                ),
            decreases services@.len() - i,
        {
            assert(svcs.take(i + 1).drop_last() =~= svcs.take(i as int));
            let mut more = self.connect(host_name, ssh_alias, &services[i]);
            r.append(&mut more);
            i = i + 1;
        }
        assert(svcs.take(i as int) =~= svcs);
        r
    }

    /// Tells every tunnel of a host that runs to end.
    pub fn disconnect_all(&mut self, host_name: &str, services: &[Service]) -> (r: Vec<Effect>)
        ensures
            (final(self)@, seqs::views(r@)) == old(self)@.disconnect_each(
                host_name@,
                seqs::views(services@),
            ),
    {
        let ghost svcs = seqs::views(services@);
        let mut r: Vec<Effect> = Vec::new();
        let mut i: usize = 0;
        assert(svcs.take(0) =~= Seq::<ServiceView>::empty());
        while i < services.len()
            invariant
                i <= services@.len(),
                svcs == seqs::views(services@),
                (self@, seqs::views(r@)) == old(self)@.disconnect_each(
                    host_name@,
                    svcs.take(i as int),
                ),
            decreases services@.len() - i,
        {
            assert(svcs.take(i + 1).drop_last() =~= svcs.take(i as int));
            let mut more = self.disconnect(host_name, services[i].name.as_str());
            r.append(&mut more);
            i = i + 1;
        }
        assert(svcs.take(i as int) =~= svcs);
        r
    }

    /// Tells the tunnel to `svc` to end where it is on, and starts it otherwise.
    pub fn toggle_service(&mut self, host_name: &str, ssh_alias: &str, svc: &Service) -> (r: Vec<
        Effect,
    >)
        ensures
            (final(self)@, seqs::views(r@)) == old(self)@.toggle_service(
                host_name@,
                ssh_alias@,
                svc@,
            ),
    {
        let id = make_id(host_name, svc.name.as_str());
        if self.state_of(&id).is_on() {
            self.disconnect(host_name, svc.name.as_str())
        } else {
            self.connect(host_name, ssh_alias, svc)
        }
    }

    fn is_any_on(&self, host_name: &str, services: &[Service]) -> (r: bool)
        ensures
            r == self@.any_on(host_name@, seqs::views(services@)),
    {
        let ghost svcs = seqs::views(services@);
        let mut i: usize = 0;
        while i < services.len()
            invariant
                i <= services@.len(),
                svcs == seqs::views(services@),
                forall|j: int|
                    0 <= j < i ==> !self@.state_of(
                        tunnel::tunnel_id(host_name@, (#[trigger] svcs[j]).name),
                    ).on(),
            decreases services@.len() - i,
        {
            let id = make_id(host_name, services[i].name.as_str());
            assert(svcs[i as int] == services@[i as int]@);
            if self.state_of(&id).is_on() {
                return true;
            }
            i = i + 1;
        }
        false
    }

    /// Tells all tunnels of a host to end where one of them is on, and starts all otherwise.
    pub fn toggle_host(
        &mut self,
        host_name: &str,
        ssh_alias: &str,
        services: &[Service],
    ) -> (r: Vec<Effect>)
        ensures
            (final(self)@, seqs::views(r@)) == old(self)@.toggle_host(
                host_name@,
                ssh_alias@,
                seqs::views(services@),
            ),
    {
        if self.is_any_on(host_name, services) {
            self.disconnect_all(host_name, services)
        } else {
            self.connect_all(host_name, ssh_alias, services)
        }
    }

    /// Takes note of what a tunnel reports. `stamp` goes with the line that is logged, where one
    /// is.
    pub fn apply_event(&mut self, ev: TunnelEvent, stamp: LogStamp)
        ensures
            final(self)@ == old(self)@.apply_event(ev@, stamp@),
    {
        match ev {
            TunnelEvent::Connecting { id } => {
                self.states.insert(id, ConnState::Connecting);
            },
            TunnelEvent::Connected { id, local_port } => {
                self.states.insert(id, ConnState::Connected { local_port });
            },
            TunnelEvent::Failed { id, reason } => {
                self.push_log(&id, text::cat2("failed: ", reason.as_str()), stamp);
                self.handles.remove(id.as_str());
                self.states.insert(id, ConnState::Failed { reason });
            },
            TunnelEvent::Disconnected { id } => {
                self.handles.remove(id.as_str());
                self.states.insert(id, ConnState::Disconnected);
            },
            TunnelEvent::Log { id, line } => {
                self.push_log(&id, line, stamp);
            },
        }
    }

    fn push_log(&mut self, id: &TunnelId, line: String, stamp: LogStamp)
        ensures
            final(self)@ == old(self)@.push_log(
                LogEntryView {
                    id: id@,
                    line: line@,
                    level: stamp@.level,
                    timestamp: stamp@.timestamp,
                },
            ),
    {
        if self.logs.len() >= LOG_CAP {
            let _ = self.logs.pop_front();
            assert(seqs::views(self.logs@) =~= old(self)@.logs.drop_first());
        }
        self.logs.push_back(
            LogEntry { id: id.clone(), line, level: stamp.level, timestamp: stamp.timestamp },
        );
    }

    /// Tells every tunnel that runs to end, and names those that are to be told so now.
    pub fn shutdown_all(&mut self) -> (r: Vec<TunnelId>)
        ensures
            final(self)@ == old(self)@.all_told(),
            seqs::views(r@).no_duplicates(),
            forall|id: Seq<char>| #[trigger]
                seqs::views(r@).contains(id) <==> old(self)@.to_tell(id),
    {
        let names = self.handles.names();
        let ghost all = seqs::views(names@);
        let ghost before = self@;
        let ghost armed = |id: Seq<char>| before.handles[id].cancel;
        let mut r: Vec<TunnelId> = Vec::new();
        let mut i: usize = 0;
        proof {
            lemma_nothing_taken(all, armed);
        }
        while i < names.len()
            invariant
                i <= names@.len(),
                all == seqs::views(names@),
                all.no_duplicates(),
                forall|id: Seq<char>| #[trigger]
                    all.contains(id) <==> before.handles.contains_key(id),
                self@.states == before.states,
                self@.logs == before.logs,
                self@.handles.dom() == before.handles.dom(),
                forall|j: int| #![trigger all[j]]
                    0 <= j < all.len() ==> self@.handles[all[j]] == (TunnelHandle {
                        cancel: before.handles[all[j]].cancel && j >= i,
                        task: before.handles[all[j]].task,
                    }),
                armed == (|id: Seq<char>| before.handles[id].cancel),
                seqs::views(r@) == all.take(i as int).filter(armed),
            decreases names@.len() - i,
        {
            let id = names[i].clone();
            assert(all[i as int] == id@);
            assert(all.contains(id@));
            proof {
                lemma_one_more_taken(all, armed, i as int);
            }
            match self.handles.remove(id.as_str()) {
                Some(h) => {
                    let mut h = h;
                    let tell = h.shutdown();
                    self.handles.insert(id.clone(), h);
                    assert(self@.handles.dom() =~= before.handles.dom());
                    if tell {
                        r.push(id.clone());
                    }
                },
                None => {},
            }
            proof {
                assert forall|j: int| #![trigger all[j]] 0 <= j < all.len() implies (
                self@.handles[all[j]] == (TunnelHandle {
                    cancel: before.handles[all[j]].cancel && j >= i + 1,
                    task: before.handles[all[j]].task,
                })) by {
                    if j != i {
                        assert(all[j] != all[i as int]);
                    }
                }
            }
            i = i + 1;
        }
        proof {
            assert(all.take(i as int) =~= all);
            seqs::lemma_filter_distinct(all, armed);
            assert forall|id: Seq<char>| before.handles.contains_key(id) implies (
            #[trigger] self@.handles[id]) == before.all_told().handles[id] by {
                assert(all.contains(id));
                let j = choose|j: int| 0 <= j < all.len() && all[j] == id;
                assert(all[j] == id);
            }
            assert(self@.handles =~= before.all_told().handles);
        }
        r
    }

    /// Gives up all handles, and names the tunnels whose end is still to be waited for.
    pub fn await_all(&mut self) -> (r: Vec<TunnelId>)
        ensures
            final(self)@ == (ManagerView { handles: Map::empty(), ..old(self)@ }),
            seqs::views(r@).no_duplicates(),
            forall|id: Seq<char>| #[trigger]
                seqs::views(r@).contains(id) <==> old(self)@.to_await(id),
    {
        let names = self.handles.names();
        let ghost all = seqs::views(names@);
        let ghost before = self@;
        let ghost pending = |id: Seq<char>| before.handles[id].task;
        let mut r: Vec<TunnelId> = Vec::new();
        let mut i: usize = 0;
        proof {
            lemma_nothing_taken(all, pending);
        }
        while i < names.len()
            invariant
                i <= names@.len(),
                all == seqs::views(names@),
                forall|id: Seq<char>| #[trigger]
                    all.contains(id) <==> before.handles.contains_key(id),
                self@ == before,
                pending == (|id: Seq<char>| before.handles[id].task),
                seqs::views(r@) == all.take(i as int).filter(pending),
            decreases names@.len() - i,
        {
            let id = names[i].clone();
            assert(all[i as int] == id@);
            assert(all.contains(id@));
            proof {
                lemma_one_more_taken(all, pending, i as int);
            }
            match self.handles.get(id.as_str()) {
                Some(h) => {
                    let mut h: TunnelHandle = *h;
                    if h.wait() {
                        r.push(id.clone());
                    }
                },
                None => {},
            }
            i = i + 1;
        }
        proof {
            assert(all.take(i as int) =~= all);
            seqs::lemma_filter_distinct(all, pending);
        }
        self.handles = Table::new();
        r
    }

    /// The states of the tunnels of a host, taken together: one that comes or goes counts first,
    /// then whether all are up, then whether some are, then whether one failed.
    pub fn host_aggregate(&self, cfg_host: &str, services: &[Service]) -> (r: HostAggState)
        ensures
            r == self@.host_aggregate(cfg_host@, seqs::views(services@)),
    {
        if services.len() == 0 {
            return HostAggState::Empty;
        }
        let ghost svcs = seqs::views(services@);
        let ghost state = |i: int| self@.state_of(tunnel::tunnel_id(cfg_host@, svcs[i].name));
        let mut connected: usize = 0;
        let mut transient = false;
        let mut failed = false;
        let mut i: usize = 0;
        while i < services.len()
            invariant
                i <= services@.len(),
                svcs == seqs::views(services@),
                state == (|i: int| self@.state_of(tunnel::tunnel_id(cfg_host@, svcs[i].name))),
                transient <==> exists|j: int| 0 <= j < i && (#[trigger] state(j)).transient(),
                failed <==> exists|j: int| 0 <= j < i && (#[trigger] state(j)) is Failed,
                connected <= i,
                connected == i <==> forall|j: int| 0 <= j < i ==> (#[trigger] state(j)) is Connected,
                connected == 0 <==> forall|j: int|
                    0 <= j < i ==> !((#[trigger] state(j)) is Connected),
            decreases services@.len() - i,
        {
            let st = self.state_of(&make_id(cfg_host, services[i].name.as_str()));
            assert(svcs[i as int] == services@[i as int]@);
            assert(st@ == state(i as int));
            match st {
                ConnState::Connected { local_port } => {
                    connected = connected + 1;
                },
                ConnState::Connecting => {
                    transient = true;
                },
                ConnState::Disconnecting => {
                    transient = true;
                },
                ConnState::Failed { reason } => {
                    failed = true;
                },
                ConnState::Disconnected => {},
            }
            i = i + 1;
        }
        if transient {
            HostAggState::Transient
        } else if connected == services.len() {
            HostAggState::AllOn
        } else if connected == 0 && failed {
            HostAggState::Failed
        } else if connected == 0 {
            HostAggState::AllOff
        } else {
            HostAggState::Mixed
        }
    }
}

impl ManagerView {
    /// What every manager keeps: a tunnel that has a handle is not at rest, and the log is within
    /// its bound.
    pub open spec fn sound(self) -> bool {
        &&& forall|id: Seq<char>| #[trigger]
            self.handles.contains_key(id) ==> !self.state_of(id).at_rest()
        &&& self.logs.len() <= LOG_CAP
    }

    /// Whether `other` has the same state and the same handle for tunnel `id`.
    pub open spec fn agrees_on(self, other: ManagerView, id: Seq<char>) -> bool {
        &&& self.state_of(id) == other.state_of(id)
        &&& self.handles.contains_key(id) == other.handles.contains_key(id)
        &&& self.handles.contains_key(id) ==> self.handles[id] == other.handles[id]
    }

    /// The manager after the tunnels have reported `evs`, each with its stamp.
    pub open spec fn apply_events(self, evs: Seq<(TunnelEventView, LogStampView)>) -> ManagerView
        decreases evs.len(),
    {
        if evs.len() == 0 {
            self
        } else {
            self.apply_events(evs.drop_last()).apply_event(evs.last().0, evs.last().1)
        }
    }
}

proof fn lemma_connect_sound(m: ManagerView, host: Seq<char>, ssh: Seq<char>, svc: ServiceView)
    requires
        m.sound(),
    ensures
        m.connect(host, ssh, svc).0.sound(),
{
    let n = m.connect(host, ssh, svc).0;
    assert forall|id: Seq<char>| #[trigger] n.handles.contains_key(id) implies !n.state_of(
        id,
    ).at_rest() by {
        if id != tunnel::tunnel_id(host, svc.name) {
            assert(m.handles.contains_key(id));
        }
    }
}

proof fn lemma_disconnect_sound(m: ManagerView, host: Seq<char>, name: Seq<char>)
    requires
        m.sound(),
    ensures
        m.disconnect(host, name).0.sound(),
{
    let n = m.disconnect(host, name).0;
    assert forall|id: Seq<char>| #[trigger] n.handles.contains_key(id) implies !n.state_of(
        id,
    ).at_rest() by {
        if id != tunnel::tunnel_id(host, name) {
            assert(m.handles.contains_key(id));
        }
    }
}

proof fn lemma_each_sound(
    m: ManagerView,
    host: Seq<char>,
    ssh: Seq<char>,
    services: Seq<ServiceView>,
)
    requires
        m.sound(),
    ensures
        m.connect_each(host, ssh, services).0.sound(),
        m.disconnect_each(host, services).0.sound(),
    decreases services.len(),
{
    if services.len() > 0 {
        let less = services.drop_last();
        lemma_each_sound(m, host, ssh, less);
        lemma_connect_sound(m.connect_each(host, ssh, less).0, host, ssh, services.last());
        lemma_disconnect_sound(m.disconnect_each(host, less).0, host, services.last().name);
    }
}

proof fn lemma_apply_sound(m: ManagerView, ev: TunnelEventView, stamp: LogStampView)
    requires
        m.sound(),
    ensures
        m.apply_event(ev, stamp).sound(),
{
    let n = m.apply_event(ev, stamp);
    assert forall|id: Seq<char>| #[trigger] n.handles.contains_key(id) implies !n.state_of(
        id,
    ).at_rest() by {
        assert(m.handles.contains_key(id));
    }
}

/// A new manager is sound, and whatever is done with a sound manager leaves it sound: a tunnel
/// that has a handle is never at rest, and the log never outgrows its bound.
pub proof fn manager_stays_sound(
    m: ManagerView,
    host: Seq<char>,
    ssh: Seq<char>,
    svc: ServiceView,
    services: Seq<ServiceView>,
    ev: TunnelEventView,
    stamp: LogStampView,
)
    requires
        m.sound(),
    ensures
        (ManagerView { states: Map::empty(), handles: Map::empty(), logs: Seq::empty() }).sound(),
        m.connect(host, ssh, svc).0.sound(),
        m.disconnect(host, svc.name).0.sound(),
        m.toggle_service(host, ssh, svc).0.sound(),
        m.connect_each(host, ssh, services).0.sound(),
        m.disconnect_each(host, services).0.sound(),
        m.toggle_host(host, ssh, services).0.sound(),
        m.apply_event(ev, stamp).sound(),
        m.all_told().sound(),
        (ManagerView { handles: Map::empty(), ..m }).sound(),
{
    lemma_connect_sound(m, host, ssh, svc);
    lemma_disconnect_sound(m, host, svc.name);
    lemma_each_sound(m, host, ssh, services);
    lemma_apply_sound(m, ev, stamp);
    assert forall|id: Seq<char>| #[trigger]
        m.all_told().handles.contains_key(id) implies !m.all_told().state_of(id).at_rest() by {
        assert(m.handles.contains_key(id));
    }
}

/// Only a tunnel that has no handle is started, so no running tunnel is ever replaced.
pub proof fn no_running_tunnel_is_replaced(
    m: ManagerView,
    host: Seq<char>,
    ssh: Seq<char>,
    svc: ServiceView,
)
    requires
        m.sound(),
        m.connect(host, ssh, svc).1.len() > 0,
    ensures
        !m.handles.contains_key(tunnel::tunnel_id(host, svc.name)),
{
}

/// A tunnel that has been told to end is not told so again.
pub proof fn tunnel_is_told_once(m: ManagerView, host: Seq<char>, name: Seq<char>)
    ensures
        m.disconnect(host, name).0.disconnect(host, name).1 == Seq::<EffectView>::empty(),
        m.disconnect(host, name).0.disconnect(host, name).0 == m.disconnect(host, name).0,
{
    let n = m.disconnect(host, name).0;
    assert(n.disconnect(host, name).0 =~= n);
}

/// Toggling a tunnel that is at rest starts it, and toggling it once more tells it to end.
pub proof fn toggling_starts_then_ends(
    m: ManagerView,
    host: Seq<char>,
    ssh: Seq<char>,
    svc: ServiceView,
)
    requires
        m.state_of(tunnel::tunnel_id(host, svc.name)).at_rest(),
    ensures
        ({
            let id = tunnel::tunnel_id(host, svc.name);
            let (once, first) = m.toggle_service(host, ssh, svc);
            let (twice, second) = once.toggle_service(host, ssh, svc);
            &&& once.state_of(id) is Connecting
            &&& first.len() == 1 && first[0] is Start && first[0]->Start_0.id == id
            &&& twice.state_of(id) is Disconnecting
            &&& second == seq![EffectView::Stop(id)]
        }),
{
}

/// Toggling a tunnel that is on its way down changes nothing.
pub proof fn toggling_waits_for_the_end(
    m: ManagerView,
    host: Seq<char>,
    ssh: Seq<char>,
    svc: ServiceView,
)
    requires
        m.state_of(tunnel::tunnel_id(host, svc.name)) is Disconnecting,
    ensures
        m.toggle_service(host, ssh, svc) == (m, Seq::<EffectView>::empty()),
{
}

/// What is done with one tunnel, or reported of it, leaves the state and the handle of every
/// other tunnel as they were.
pub proof fn other_tunnels_are_left_alone(
    m: ManagerView,
    host: Seq<char>,
    ssh: Seq<char>,
    svc: ServiceView,
    ev: TunnelEventView,
    stamp: LogStampView,
    other: Seq<char>,
)
    ensures
        other != tunnel::tunnel_id(host, svc.name) ==> {
            &&& m.connect(host, ssh, svc).0.agrees_on(m, other)
            &&& m.disconnect(host, svc.name).0.agrees_on(m, other)
            &&& m.toggle_service(host, ssh, svc).0.agrees_on(m, other)
        },
        other != ev.id() ==> m.apply_event(ev, stamp).agrees_on(m, other),
{
}

/// The line that `ev` adds to the log, where it adds one.
pub open spec fn line_of(ev: TunnelEventView, stamp: LogStampView) -> Seq<LogEntryView> {
    match ev {
        TunnelEventView::Failed { id, reason } => seq![
            LogEntryView {
                id,
                line: "failed: "@ + reason,
                level: stamp.level,
                timestamp: stamp.timestamp,
            },
        ],
        TunnelEventView::Log { id, line } => seq![
            LogEntryView { id, line, level: stamp.level, timestamp: stamp.timestamp },
        ],
        _ => Seq::empty(),
    }
}

/// The lines that `evs` add to the log, oldest first.
pub open spec fn lines_of(evs: Seq<(TunnelEventView, LogStampView)>) -> Seq<LogEntryView>
    decreases evs.len(),
{
    if evs.len() == 0 {
        Seq::empty()
    } else {
        lines_of(evs.drop_last()) + line_of(evs.last().0, evs.last().1)
    }
}

/// The log holds the last lines of all that came, oldest first: all of them up to its bound, and
/// as many as its bound beyond it. The lines are those that `ssh` wrote and the failures. A
/// manager that is new begins with no lines.
pub proof fn log_keeps_the_last_lines(m: ManagerView, evs: Seq<(TunnelEventView, LogStampView)>)
    requires
        m.logs.len() <= LOG_CAP,
    ensures
        m.apply_events(evs).logs == seqs::last_of(m.logs + lines_of(evs), LOG_CAP as int),
        m.logs.len() == 0 ==> m.apply_events(evs).logs == seqs::last_of(
            lines_of(evs),
            LOG_CAP as int,
        ),
    decreases evs.len(),
{
    let all = m.logs + lines_of(evs);
    if evs.len() == 0 {
        assert(all =~= m.logs);
    } else {
        let less = evs.drop_last();
        log_keeps_the_last_lines(m, less);
        let before = m.logs + lines_of(less);
        let added = line_of(evs.last().0, evs.last().1);
        assert(all =~= before + added);
        assert(m.apply_events(evs).logs =~= seqs::last_of(all, LOG_CAP as int));
    }
    if m.logs.len() == 0 {
        assert(all =~= lines_of(evs));
    }
}

/// Once a tunnel has reported its end it is at rest and has no handle, and it can be started
/// again.
pub proof fn ended_tunnel_can_be_started_again(
    m: ManagerView,
    host: Seq<char>,
    ssh: Seq<char>,
    svc: ServiceView,
    ev: TunnelEventView,
    stamp: LogStampView,
)
    requires
        ev.is_final(),
        ev.id() == tunnel::tunnel_id(host, svc.name),
    ensures
        m.apply_event(ev, stamp).state_of(ev.id()).at_rest(),
        !m.apply_event(ev, stamp).handles.contains_key(ev.id()),
        m.apply_event(ev, stamp).connect(host, ssh, svc).1.len() == 1,
{
}

proof fn lemma_last_report_counts(
    m: ManagerView,
    id: Seq<char>,
    evs: Seq<(TunnelEventView, LogStampView)>,
)
    requires
        ({
            let told = tunnel::without_lines(
                evs.map_values(|e: (TunnelEventView, LogStampView)| e.0),
            );
            told.len() > 0 && told.last().id() == id
        }),
    ensures
        ({
            let told = tunnel::without_lines(
                evs.map_values(|e: (TunnelEventView, LogStampView)| e.0),
            );
            let after = m.apply_events(evs);
            match told.last() {
                TunnelEventView::Connected { id, local_port } => after.state_of(id)
                    == (ConnStateView::Connected { local_port }),
                TunnelEventView::Connecting { id } => true,
                _ => after.state_of(id).at_rest() && !after.handles.contains_key(id),
            }
        }),
    decreases evs.len(),
{
    let all = evs.map_values(|e: (TunnelEventView, LogStampView)| e.0);
    assert(evs.len() > 0);
    let less = evs.drop_last();
    assert(all.drop_last() =~= less.map_values(|e: (TunnelEventView, LogStampView)| e.0));
    if all.last() is Log {
        lemma_last_report_counts(m, id, less);
    }
}

/// Whatever happens to a tunnel, once it is over and the manager has been told all that it
/// reported, the manager has it at rest and without a handle; and while it is up, the manager has
/// it connected on the port that it forwards from.
pub proof fn manager_follows_the_tunnel(
    m: ManagerView,
    run: RunView,
    inputs: Seq<tunnel::InputView>,
    evs: Seq<(TunnelEventView, LogStampView)>,
)
    requires
        run.phase == Phase::New,
        evs.map_values(|e: (TunnelEventView, LogStampView)| e.0) == tunnel::emitted(
            run.steps(inputs).1,
        ),
    ensures
        match run.steps(inputs).0.phase {
            Phase::Ended => {
                &&& m.apply_events(evs).state_of(run.id).at_rest()
                &&& !m.apply_events(evs).handles.contains_key(run.id)
            },
            Phase::Up { local_port } => m.apply_events(evs).state_of(run.id)
                == (ConnStateView::Connected { local_port }),
            _ => true,
        },
{
    tunnel::tunnel_reports_in_order(run, inputs);
    tunnel::lemma_reports_emitted(run.steps(inputs).1);
    let phase = run.steps(inputs).0.phase;
    if phase is Ended || phase is Up {
        lemma_last_report_counts(m, run.id, evs);
    }
}

proof fn lemma_connect_lively(
    m: ManagerView,
    host: Seq<char>,
    ssh: Seq<char>,
    svc: ServiceView,
    id: Seq<char>,
)
    ensures
        !m.connect(host, ssh, svc).0.state_of(tunnel::tunnel_id(host, svc.name)).at_rest(),
        !m.state_of(id).at_rest() ==> !m.connect(host, ssh, svc).0.state_of(id).at_rest(),
{
}

/// Starting a host starts all of it: afterwards none of its tunnels is at rest.
pub proof fn whole_host_is_started(
    m: ManagerView,
    host: Seq<char>,
    ssh: Seq<char>,
    services: Seq<ServiceView>,
)
    ensures
        forall|i: int| #![trigger services[i]]
            0 <= i < services.len() ==> !m.connect_each(host, ssh, services).0.state_of(
                tunnel::tunnel_id(host, services[i].name),
            ).at_rest(),
    decreases services.len(),
{
    if services.len() > 0 {
        let less = services.drop_last();
        whole_host_is_started(m, host, ssh, less);
        assert forall|i: int| #![trigger services[i]] 0 <= i < services.len() implies !m.connect_each(
            host,
            ssh,
            services,
        ).0.state_of(tunnel::tunnel_id(host, services[i].name)).at_rest() by {
            if i < less.len() {
                assert(less[i] == services[i]);
            }
            lemma_connect_lively(
                m.connect_each(host, ssh, less).0,
                host,
                ssh,
                services.last(),
                tunnel::tunnel_id(host, services[i].name),
            );
        }
    }
}

proof fn lemma_ids_differ(host: Seq<char>, a: Seq<char>, b: Seq<char>)
    requires
        a != b,
    ensures
        tunnel::tunnel_id(host, a) != tunnel::tunnel_id(host, b),
{
    let front = host + "/"@;
    let x = tunnel::tunnel_id(host, a);
    let y = tunnel::tunnel_id(host, b);
    if x == y {
        assert(x.skip(front.len() as int) =~= a);
        assert(y.skip(front.len() as int) =~= b);
    }
}

/// Starting a host whose tunnels are all at rest, and whose services have different names, starts
/// a tunnel for each service, in order: to its port, by what the host is reached by.
pub proof fn resting_host_is_started_in_order(
    m: ManagerView,
    host: Seq<char>,
    ssh: Seq<char>,
    services: Seq<ServiceView>,
)
    requires
        forall|i: int| #![trigger services[i]]
            0 <= i < services.len() ==> m.state_of(
                tunnel::tunnel_id(host, services[i].name),
            ).at_rest(),
        forall|i: int, j: int|
            0 <= i < j < services.len() ==> (#[trigger] services[i]).name != (
            #[trigger] services[j]).name,
    ensures
        m.connect_each(host, ssh, services).1 == services.map_values(
            |s: ServiceView| EffectView::Start(
                RunView {
                    id: tunnel::tunnel_id(host, s.name),
                    ssh_alias: ssh,
                    remote_port: s.port,
                    local_port: s.local_port,
                    phase: Phase::New,
                },
            ),
        ),
        forall|other: Seq<char>|
            (forall|i: int| #![trigger services[i]]
                0 <= i < services.len() ==> other != tunnel::tunnel_id(host, services[i].name))
                ==> #[trigger] m.connect_each(host, ssh, services).0.state_of(other)
                == m.state_of(other),
    decreases services.len(),
{
    if services.len() > 0 {
        let less = services.drop_last();
        assert forall|i: int| #![trigger less[i]] 0 <= i < less.len() implies m.state_of(
            tunnel::tunnel_id(host, less[i].name),
        ).at_rest() by {
            assert(less[i] == services[i]);
        }
        assert forall|i: int, j: int| 0 <= i < j < less.len() implies (#[trigger] less[i]).name != (
        #[trigger] less[j]).name by {
            assert(services[i].name != services[j].name);
        }
        resting_host_is_started_in_order(m, host, ssh, less);
        let mid = m.connect_each(host, ssh, less).0;
        let s = services.last();
        let id = tunnel::tunnel_id(host, s.name);
        assert forall|i: int| #![trigger less[i]] 0 <= i < less.len() implies id
            != tunnel::tunnel_id(host, less[i].name) by {
            assert(services[i].name != services[services.len() - 1].name);
            lemma_ids_differ(host, s.name, less[i].name);
        }
        assert(services[services.len() - 1] == s);
        assert(mid.state_of(id) == m.state_of(id));
        assert forall|other: Seq<char>|
            (forall|i: int| #![trigger services[i]]
                0 <= i < services.len() ==> other != tunnel::tunnel_id(host, services[i].name))
            implies #[trigger] m.connect_each(host, ssh, services).0.state_of(other)
            == m.state_of(other) by {
            assert forall|i: int| #![trigger less[i]] 0 <= i < less.len() implies other
                != tunnel::tunnel_id(host, less[i].name) by {
                assert(less[i] == services[i]);
            }
            assert(mid.state_of(other) == m.state_of(other));
        }
        let start = |s: ServiceView|
            EffectView::Start(
                RunView {
                    id: tunnel::tunnel_id(host, s.name),
                    ssh_alias: ssh,
                    remote_port: s.port,
                    local_port: s.local_port,
                    phase: Phase::New,
                },
            );
        assert(services.map_values(start) =~= less.map_values(start).push(start(s)));
        assert(m.connect_each(host, ssh, services).1 =~= services.map_values(start));
    }
}

proof fn lemma_disconnect_keeps(m: ManagerView, host: Seq<char>, name: Seq<char>, id: Seq<char>)
    ensures
        m.disconnect(host, name).0.handles.dom() == m.handles.dom(),
        m.handles.contains_key(id) && m.state_of(id) is Disconnecting ==> m.disconnect(
            host,
            name,
        ).0.state_of(id) is Disconnecting,
        m.handles.contains_key(tunnel::tunnel_id(host, name)) ==> m.disconnect(
            host,
            name,
        ).0.state_of(tunnel::tunnel_id(host, name)) is Disconnecting,
{
    assert(m.disconnect(host, name).0.handles.dom() =~= m.handles.dom());
}

/// Ending a host ends all of it: afterwards every tunnel of the host that runs is on its way
/// down.
pub proof fn whole_host_is_ended(m: ManagerView, host: Seq<char>, services: Seq<ServiceView>)
    ensures
        m.disconnect_each(host, services).0.handles.dom() == m.handles.dom(),
        forall|i: int| #![trigger services[i]]
            0 <= i < services.len() && m.handles.contains_key(
                tunnel::tunnel_id(host, services[i].name),
            ) ==> m.disconnect_each(host, services).0.state_of(
                tunnel::tunnel_id(host, services[i].name),
            ) is Disconnecting,
    decreases services.len(),
{
    if services.len() > 0 {
        let less = services.drop_last();
        whole_host_is_ended(m, host, less);
        lemma_disconnect_keeps(
            m.disconnect_each(host, less).0,
            host,
            services.last().name,
            Seq::empty(),
        );
        assert forall|i: int| #![trigger services[i]]
            0 <= i < services.len() && m.handles.contains_key(
                tunnel::tunnel_id(host, services[i].name),
            ) implies m.disconnect_each(host, services).0.state_of(
            tunnel::tunnel_id(host, services[i].name),
        ) is Disconnecting by {
            let id = tunnel::tunnel_id(host, services[i].name);
            if i < less.len() {
                assert(less[i] == services[i]);
            }
            assert(m.disconnect_each(host, less).0.handles.dom().contains(id));
            lemma_disconnect_keeps(
                m.disconnect_each(host, less).0,
                host,
                services.last().name,
                id,
            );
        }
    }
}

/// A tunnel that runs and is on its way down stays so while a host is ended.
pub proof fn ending_keeps_the_ended(
    m: ManagerView,
    host: Seq<char>,
    services: Seq<ServiceView>,
    id: Seq<char>,
)
    requires
        m.handles.contains_key(id),
        m.state_of(id) is Disconnecting,
    ensures
        m.disconnect_each(host, services).0.state_of(id) is Disconnecting,
    decreases services.len(),
{
    if services.len() > 0 {
        let less = services.drop_last();
        ending_keeps_the_ended(m, host, less, id);
        whole_host_is_ended(m, host, less);
        assert(m.disconnect_each(host, less).0.handles.dom().contains(id));
        lemma_disconnect_keeps(m.disconnect_each(host, less).0, host, services.last().name, id);
    }
}


/// A tunnel of which no state has been noted is disconnected, and every other is in the state that
/// was noted last; it is on where that is connected or connecting, comes or goes where that is
/// connecting or disconnecting, and is at rest where that is disconnected or failed.
pub proof fn noted_state_counts(m: ManagerView, id: Seq<char>)
    ensures
        m.states.contains_key(id) ==> m.state_of(id) == m.states[id],
        !m.states.contains_key(id) ==> m.state_of(id) is Disconnected,
        m.state_of(id).on() <==> m.states.contains_key(id) && (m.states[id] is Connected
            || m.states[id] is Connecting),
        m.state_of(id).transient() <==> m.states.contains_key(id) && (m.states[id] is Connecting
            || m.states[id] is Disconnecting),
        m.state_of(id).at_rest() <==> !m.states.contains_key(id) || m.states[id] is Disconnected
            || m.states[id] is Failed,
{
}

/// A tunnel that is neither up nor on its way up or down is started: it is connecting from then
/// on, can be told to end and waited for, and exactly one tunnel is begun, to the port of the
/// service, from its pinned port, by what the host is reached by. A tunnel that is up or on its way
/// is not touched. Every other tunnel, and the log, is as it was.
pub proof fn starting_starts_what_is_at_rest(
    m: ManagerView,
    host: Seq<char>,
    ssh: Seq<char>,
    svc: ServiceView,
    other: Seq<char>,
)
    requires
        other != tunnel::tunnel_id(host, svc.name),
    ensures
        ({
            let id = tunnel::tunnel_id(host, svc.name);
            let (n, effects) = m.connect(host, ssh, svc);
            let busy = m.states.contains_key(id) && (m.states[id] is Connected
                || m.states[id] is Connecting || m.states[id] is Disconnecting);
            &&& busy ==> n == m && effects.len() == 0
            &&& !busy ==> {
                &&& n.states.contains_key(id) && n.states[id] is Connecting
                &&& n.handles.contains_key(id) && n.handles[id].cancel && n.handles[id].task
                &&& effects.len() == 1
                &&& effects[0] matches EffectView::Start(run)
                &&& run.id == id
                &&& run.ssh_alias == ssh
                &&& run.remote_port == svc.port
                &&& run.local_port == svc.local_port
                &&& run.phase is New
            }
            &&& n.logs == m.logs
            &&& n.states.contains_key(other) == m.states.contains_key(other)
            &&& n.states.contains_key(other) ==> n.states[other] == m.states[other]
            &&& n.handles.contains_key(other) == m.handles.contains_key(other)
            &&& n.handles.contains_key(other) ==> n.handles[other] == m.handles[other]
        }),
{
}

/// A tunnel that runs is on its way down once it is disconnected, and is told to end exactly where
/// it could still be told; it can be told no more, and can be waited for as before. A tunnel that
/// does not run is not touched. Every other tunnel, and the log, is as it was.
pub proof fn disconnecting_ends_what_runs(
    m: ManagerView,
    host: Seq<char>,
    name: Seq<char>,
    other: Seq<char>,
)
    requires
        other != tunnel::tunnel_id(host, name),
    ensures
        ({
            let id = tunnel::tunnel_id(host, name);
            let (n, effects) = m.disconnect(host, name);
            &&& !m.handles.contains_key(id) ==> n == m && effects.len() == 0
            &&& m.handles.contains_key(id) ==> {
                &&& n.states.contains_key(id) && n.states[id] is Disconnecting
                &&& n.handles.contains_key(id) && !n.handles[id].cancel
                &&& n.handles[id].task == m.handles[id].task
                &&& m.handles[id].cancel ==> effects.len() == 1 && effects[0]
                    == EffectView::Stop(id)
                &&& !m.handles[id].cancel ==> effects.len() == 0
            }
            &&& n.logs == m.logs
            &&& n.states.contains_key(other) == m.states.contains_key(other)
            &&& n.states.contains_key(other) ==> n.states[other] == m.states[other]
            &&& n.handles.contains_key(other) == m.handles.contains_key(other)
            &&& n.handles.contains_key(other) ==> n.handles[other] == m.handles[other]
        }),
{
}

/// Toggling a tunnel that is connected or connecting is disconnecting it, and toggling any other
/// is starting it.
pub proof fn toggling_ends_what_is_on(
    m: ManagerView,
    host: Seq<char>,
    ssh: Seq<char>,
    svc: ServiceView,
)
    ensures
        ({
            let id = tunnel::tunnel_id(host, svc.name);
            let on = m.states.contains_key(id) && (m.states[id] is Connected
                || m.states[id] is Connecting);
            m.toggle_service(host, ssh, svc) == if on {
                m.disconnect(host, svc.name)
            } else {
                m.connect(host, ssh, svc)
            }
        }),
{
}

/// A host is started and ended service by service: what is done for two lists of services is done
/// for the first and then for the second, for one service what is done for its tunnel, and for
/// none nothing.
pub proof fn hosts_go_service_by_service(
    m: ManagerView,
    host: Seq<char>,
    ssh: Seq<char>,
    first: Seq<ServiceView>,
    second: Seq<ServiceView>,
    svc: ServiceView,
)
    ensures
        m.connect_each(host, ssh, Seq::empty()) == (m, Seq::<EffectView>::empty()),
        m.disconnect_each(host, Seq::empty()) == (m, Seq::<EffectView>::empty()),
        m.connect_each(host, ssh, seq![svc]) == m.connect(host, ssh, svc),
        m.disconnect_each(host, seq![svc]) == m.disconnect(host, svc.name),
        m.connect_each(host, ssh, first + second) == ({
            let (a, done) = m.connect_each(host, ssh, first);
            let (b, more) = a.connect_each(host, ssh, second);
            (b, done + more)
        }),
        m.disconnect_each(host, first + second) == ({
            let (a, done) = m.disconnect_each(host, first);
            let (b, more) = a.disconnect_each(host, second);
            (b, done + more)
        }),
    decreases second.len(),
{
    reveal_with_fuel(ManagerView::connect_each, 2);
    reveal_with_fuel(ManagerView::disconnect_each, 2);
    let one = seq![svc];
    assert(one.drop_last() =~= Seq::<ServiceView>::empty());
    assert(m.connect_each(host, ssh, one).1 =~= m.connect(host, ssh, svc).1);
    assert(m.disconnect_each(host, one).1 =~= m.disconnect(host, svc.name).1);
    let a = m.connect_each(host, ssh, first);
    let d = m.disconnect_each(host, first);
    if second.len() == 0 {
        assert(first + second =~= first);
        assert(a.1 + a.0.connect_each(host, ssh, second).1 =~= a.1);
        assert(d.1 + d.0.disconnect_each(host, second).1 =~= d.1);
    } else {
        let less = second.drop_last();
        hosts_go_service_by_service(m, host, ssh, first, less, svc);
        assert((first + second).drop_last() =~= first + less);
        assert((first + second).last() == second.last());
        assert(m.connect_each(host, ssh, first + second).1 =~= a.1 + a.0.connect_each(
            host,
            ssh,
            second,
        ).1);
        assert(m.disconnect_each(host, first + second).1 =~= d.1 + d.0.disconnect_each(
            host,
            second,
        ).1);
    }
}

/// Whether `id` is the tunnel of one of `services` on `host`.
pub open spec fn tunnel_among(host: Seq<char>, services: Seq<ServiceView>, id: Seq<char>) -> bool {
    exists|i: int|
        0 <= i < services.len() && id == tunnel::tunnel_id(host, (#[trigger] services[i]).name)
}

/// Ending a host has every one of its tunnels that runs on its way down and told to end: each that
/// could still be told is told, nothing else is asked for, and no tunnel of another service is
/// touched.
pub proof fn ended_host_is_told(
    m: ManagerView,
    host: Seq<char>,
    services: Seq<ServiceView>,
    id: Seq<char>,
)
    ensures
        ({
            let (n, effects) = m.disconnect_each(host, services);
            let told = m.handles.contains_key(id) && tunnel_among(host, services, id);
            &&& n.handles.contains_key(id) == m.handles.contains_key(id)
            &&& told ==> {
                &&& n.states.contains_key(id) && n.states[id] is Disconnecting
                &&& !n.handles[id].cancel
                &&& n.handles[id].task == m.handles[id].task
            }
            &&& !told ==> {
                &&& n.states.contains_key(id) == m.states.contains_key(id)
                &&& n.states.contains_key(id) ==> n.states[id] == m.states[id]
                &&& n.handles.contains_key(id) ==> n.handles[id] == m.handles[id]
            }
            &&& effects.contains(EffectView::Stop(id)) <==> told && m.handles[id].cancel
            &&& forall|k: int| 0 <= k < effects.len() ==> #[trigger] effects[k] is Stop
            &&& n.logs == m.logs
        }),
    decreases services.len(),
{
    let (n, effects) = m.disconnect_each(host, services);
    if services.len() > 0 {
        let less = services.drop_last();
        let s = services.last();
        let last = tunnel::tunnel_id(host, s.name);
        ended_host_is_told(m, host, less, id);
        let (mid, done) = m.disconnect_each(host, less);
        let more = mid.disconnect(host, s.name).1;
        assert(effects == done + more);
        assert(tunnel_among(host, services, id) <==> tunnel_among(host, less, id) || id == last)
            by {
            if tunnel_among(host, less, id) {
                let i = choose|i: int|
                    0 <= i < less.len() && id == tunnel::tunnel_id(
                        host,
                        (#[trigger] less[i]).name,
                    );
                assert(services[i] == less[i]);
            }
            if tunnel_among(host, services, id) {
                let i = choose|i: int|
                    0 <= i < services.len() && id == tunnel::tunnel_id(
                        host,
                        (#[trigger] services[i]).name,
                    );
                if i < less.len() {
                    assert(less[i] == services[i]);
                }
            }
            assert(services[services.len() - 1] == s);
        }
        let stop = EffectView::Stop(id);
        assert(effects.contains(stop) <==> done.contains(stop) || more.contains(stop)) by {
            if done.contains(stop) {
                let k = choose|k: int| 0 <= k < done.len() && done[k] == stop;
                assert(effects[k] == stop);
            }
            if more.contains(stop) {
                let k = choose|k: int| 0 <= k < more.len() && more[k] == stop;
                assert(effects[done.len() + k] == stop);
            }
            if effects.contains(stop) {
                let k = choose|k: int| 0 <= k < effects.len() && effects[k] == stop;
                if k < done.len() {
                    assert(done[k] == stop);
                } else {
                    assert(more[k - done.len()] == stop);
                }
            }
        }
        assert(more.contains(stop) <==> id == last && mid.handles.contains_key(last)
            && mid.handles[last].cancel) by {
            if id == last && mid.handles.contains_key(last) && mid.handles[last].cancel {
                assert(more[0] == stop);
            }
        }
        assert forall|k: int| 0 <= k < effects.len() implies #[trigger] effects[k] is Stop by {
            if k < done.len() {
                assert(effects[k] == done[k]);
            } else {
                assert(effects[k] == more[k - done.len()]);
            }
        }
    }
}

/// Toggling a host ends all of it where one of its tunnels is connected or connecting: afterwards
/// every tunnel of it that runs is on its way down, each that could still be told is told, and
/// nothing is started. Where none is, all of it is started.
pub proof fn one_tunnel_that_is_on_ends_the_host(
    m: ManagerView,
    host: Seq<char>,
    ssh: Seq<char>,
    services: Seq<ServiceView>,
    id: Seq<char>,
)
    ensures
        ({
            let (n, effects) = m.toggle_host(host, ssh, services);
            let on = exists|i: int|
                0 <= i < services.len() && ({
                    let t = tunnel::tunnel_id(host, (#[trigger] services[i]).name);
                    m.states.contains_key(t) && (m.states[t] is Connected
                        || m.states[t] is Connecting)
                });
            &&& on ==> {
                &&& (n, effects) == m.disconnect_each(host, services)
                &&& forall|k: int| 0 <= k < effects.len() ==> #[trigger] effects[k] is Stop
                &&& m.handles.contains_key(id) && tunnel_among(host, services, id) ==> {
                    &&& n.states.contains_key(id) && n.states[id] is Disconnecting
                    &&& m.handles[id].cancel ==> effects.contains(EffectView::Stop(id))
                }
            }
            &&& !on ==> (n, effects) == m.connect_each(host, ssh, services)
        }),
{
    ended_host_is_told(m, host, services, id);
    let on = exists|i: int|
        0 <= i < services.len() && ({
            let t = tunnel::tunnel_id(host, (#[trigger] services[i]).name);
            m.states.contains_key(t) && (m.states[t] is Connected || m.states[t] is Connecting)
        });
    if on {
        let i = choose|i: int|
            0 <= i < services.len() && ({
                let t = tunnel::tunnel_id(host, (#[trigger] services[i]).name);
                m.states.contains_key(t) && (m.states[t] is Connected
                    || m.states[t] is Connecting)
            });
        assert(m.state_of(tunnel::tunnel_id(host, services[i].name)).on());
        assert(m.any_on(host, services));
    } else if m.any_on(host, services) {
        let i = choose|i: int|
            0 <= i < services.len() && m.state_of(
                tunnel::tunnel_id(host, (#[trigger] services[i]).name),
            ).on();
        let t = tunnel::tunnel_id(host, services[i].name);
        assert(m.states.contains_key(t));
    }
}

/// What a tunnel reports of itself becomes its state, and nothing else changes but this: once it
/// has failed or is disconnected it runs no more, and a failure and a line that it wrote go to the
/// end of the log, with the stamp that came with them; from a full log the oldest line goes.
pub proof fn reports_become_states(
    m: ManagerView,
    ev: TunnelEventView,
    stamp: LogStampView,
    other: Seq<char>,
)
    requires
        other != ev.id(),
    ensures
        ({
            let n = m.apply_event(ev, stamp);
            let id = ev.id();
            let over = ev is Failed || ev is Disconnected;
            &&& ev is Log ==> n.states == m.states
            &&& !(ev is Log) ==> n.states.contains_key(id) && match ev {
                TunnelEventView::Connecting { id } => n.states[id] is Connecting,
                TunnelEventView::Connected { id, local_port } => n.states[id] == (
                ConnStateView::Connected { local_port }),
                TunnelEventView::Failed { id, reason } => n.states[id] == (
                ConnStateView::Failed { reason }),
                _ => n.states[id] is Disconnected,
            }
            &&& over ==> !n.handles.contains_key(id)
            &&& !over ==> n.handles == m.handles
            &&& n.states.contains_key(other) == m.states.contains_key(other)
            &&& n.states.contains_key(other) ==> n.states[other] == m.states[other]
            &&& n.handles.contains_key(other) == m.handles.contains_key(other)
            &&& n.handles.contains_key(other) ==> n.handles[other] == m.handles[other]
            &&& !(ev is Log || ev is Failed) ==> n.logs == m.logs
            &&& ev is Log || ev is Failed ==> {
                let e = n.logs.last();
                &&& n.logs.drop_last() == if m.logs.len() >= 1000 {
                    m.logs.skip(1)
                } else {
                    m.logs
                }
                &&& n.logs.len() > 0
                &&& e.id == id
                &&& e.level == stamp.level
                &&& e.timestamp == stamp.timestamp
                &&& ev matches TunnelEventView::Log { id, line } ==> e.line == line
                &&& ev matches TunnelEventView::Failed { id, reason } ==> e.line == "failed: "@
                    + reason
            }
        }),
{
    let n = m.apply_event(ev, stamp);
    if ev is Log || ev is Failed {
        if m.logs.len() >= 1000 {
            assert(n.logs.drop_last() =~= m.logs.skip(1));
        } else {
            assert(n.logs.drop_last() =~= m.logs);
        }
    }
}

/// Who reports is who is named in the report.
pub proof fn reports_name_their_tunnel(
    id: Seq<char>,
    text: Seq<char>,
    local_port: u16,
)
    ensures
        (TunnelEventView::Connecting { id }).id() == id,
        (TunnelEventView::Connected { id, local_port }).id() == id,
        (TunnelEventView::Failed { id, reason: text }).id() == id,
        (TunnelEventView::Disconnected { id }).id() == id,
        (TunnelEventView::Log { id, line: text }).id() == id,
{
}

/// A failure is an error, and nothing else is: what else is reported is for information.
pub proof fn only_failures_are_errors(ev: TunnelEventView)
    ensures
        level_for(ev) is Error <==> ev is Failed,
        level_for(ev) is Info <==> !(ev is Failed),
{
}

/// Telling all tunnels to end leaves their states and the log as they were, and every tunnel that
/// runs can be told no more and waited for as before.
pub proof fn telling_all_tells_every_one(m: ManagerView, id: Seq<char>)
    ensures
        m.all_told().states == m.states,
        m.all_told().logs == m.logs,
        m.all_told().handles.contains_key(id) == m.handles.contains_key(id),
        m.handles.contains_key(id) ==> !m.all_told().handles[id].cancel && m.all_told().handles[id].task
            == m.handles[id].task,
{
}

/// The tunnels of a host, taken together: none where it has no service; on the way where one comes
/// or goes; else all on where each is connected, mixed where one is, failed where one has failed,
/// and off where none is any of these.
pub proof fn host_is_summed_up(m: ManagerView, host: Seq<char>, services: Seq<ServiceView>)
    ensures
        ({
            let state = |i: int|
                {
                    let id = tunnel::tunnel_id(host, services[i].name);
                    if m.states.contains_key(id) {
                        m.states[id]
                    } else {
                        ConnStateView::Disconnected
                    }
                };
            let n = services.len() as int;
            let moving = exists|i: int|
                0 <= i < n && ((#[trigger] state(i)) is Connecting || state(i) is Disconnecting);
            let all_up = forall|i: int| 0 <= i < n ==> (#[trigger] state(i)) is Connected;
            let one_up = exists|i: int| 0 <= i < n && (#[trigger] state(i)) is Connected;
            let one_failed = exists|i: int| 0 <= i < n && (#[trigger] state(i)) is Failed;
            let agg = m.host_aggregate(host, services);
            &&& agg is Empty <==> n == 0
            &&& agg is Transient <==> moving
            &&& agg is AllOn <==> n > 0 && all_up
            &&& agg is Mixed <==> !moving && one_up && !all_up
            &&& agg is Failed <==> !moving && !one_up && one_failed
            &&& agg is AllOff <==> n > 0 && !moving && !one_up && !one_failed
        }),
{
    let raw = |i: int|
        {
            let id = tunnel::tunnel_id(host, services[i].name);
            if m.states.contains_key(id) {
                m.states[id]
            } else {
                ConnStateView::Disconnected
            }
        };
    let state = |i: int| m.state_of(tunnel::tunnel_id(host, services[i].name));
    assert(forall|i: int| #[trigger] raw(i) == state(i));
    assert(forall|i: int| #[trigger] state(i) == raw(i));
    let n = services.len() as int;
    if n > 0 {
        assert(raw(0) == state(0));
    }
}

/// At the end exactly those tunnels are told to end that disconnecting would tell, whatever their
/// state, and each that has been started and has not reported its end is waited for; once all have
/// been told, none is told again and the same are waited for.
pub proof fn no_tunnel_is_left_running(
    m: ManagerView,
    host: Seq<char>,
    ssh: Seq<char>,
    svc: ServiceView,
    id: Seq<char>,
)
    ensures
        m.to_tell(tunnel::tunnel_id(host, svc.name)) <==> m.disconnect(host, svc.name).1.len() > 0,
        !m.disconnect(host, svc.name).0.to_tell(tunnel::tunnel_id(host, svc.name)),
        m.disconnect(host, svc.name).0.to_await(tunnel::tunnel_id(host, svc.name)) == m.to_await(
            tunnel::tunnel_id(host, svc.name),
        ),
        m.connect(host, ssh, svc).1.len() > 0 ==> {
            let n = m.connect(host, ssh, svc).0;
            let at = tunnel::tunnel_id(host, svc.name);
            n.to_tell(at) && n.to_await(at)
        },
        m.to_tell(id) <==> m.handles.contains_key(id) && m.handles[id].cancel,
        m.to_await(id) <==> m.handles.contains_key(id) && m.handles[id].task,
        !m.all_told().to_tell(id),
        m.all_told().to_await(id) == m.to_await(id),
{
}

} // verus!
