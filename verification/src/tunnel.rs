//! One tunnel: what it is called, what it reports, and how it goes from start to end.
//!
//! A tunnel is an `ssh` process that forwards a local port. [`TunnelRun`] says what to do next
//! for every thing that can happen to it; the program around it does it and reports back.
use vstd::prelude::*;

use crate::seqs;
use crate::text;

verus! {

broadcast use crate::seqs::group_views;

/// What a tunnel is called: the host and the service, with a slash between them.
pub type TunnelId = String;

/// The name of the tunnel to `service` on `host`.
pub open spec fn tunnel_id(host: Seq<char>, service: Seq<char>) -> Seq<char> {
    host + "/"@ + service
}

/// The name of the tunnel to `service` on `host`.
pub fn make_id(host: &str, service: &str) -> (r: TunnelId)
    ensures
        r@ == tunnel_id(host@, service@),
{
    text::cat3(host, "/", service)
}

/// The name of a tunnel, cut at its first slash, gives back the host and the service, for every
/// host whose name holds no slash.
pub proof fn tunnel_id_cuts_back(host: Seq<char>, service: Seq<char>)
    requires
        !host.contains('/'),
    ensures
        text::cut_at_first(tunnel_id(host, service), '/') == Some((host, service)),
{
    reveal_strlit("/");
    let id = tunnel_id(host, service);
    let n = host.len() as int;
    assert(id[n] == '/');
    assert forall|j: int| 0 <= j < n implies #[trigger] id[j] != '/' by {
        assert(id[j] == host[j]);
    }
    text::lemma_cut_at_first(id, '/', n);
    assert(id.take(n) =~= host);
    assert(id.skip(n + 1) =~= service);
}

/// Two tunnels have the same name only where host and service are the same, among hosts whose
/// names hold no slash.
pub proof fn tunnel_id_is_injective(h1: Seq<char>, s1: Seq<char>, h2: Seq<char>, s2: Seq<char>)
    requires
        !h1.contains('/'),
        !h2.contains('/'),
        tunnel_id(h1, s1) == tunnel_id(h2, s2),
    ensures
        h1 == h2,
        s1 == s2,
{
    tunnel_id_cuts_back(h1, s1);
    tunnel_id_cuts_back(h2, s2);
}

/// What a tunnel reports.
#[derive(Debug)]
pub enum TunnelEvent {
    Connecting { id: TunnelId },
    Connected { id: TunnelId, local_port: u16 },
    Failed { id: TunnelId, reason: String },
    Disconnected { id: TunnelId },
    /// A line that `ssh` wrote to its standard error.
    Log { id: TunnelId, line: String },
}

pub enum TunnelEventView {
    Connecting { id: Seq<char> },
    Connected { id: Seq<char>, local_port: u16 },
    Failed { id: Seq<char>, reason: Seq<char> },
    Disconnected { id: Seq<char> },
    Log { id: Seq<char>, line: Seq<char> },
}

impl View for TunnelEvent {
    type V = TunnelEventView;

    open spec fn view(&self) -> TunnelEventView {
        match self {
            TunnelEvent::Connecting { id } => TunnelEventView::Connecting { id: id@ },
            TunnelEvent::Connected { id, local_port } => TunnelEventView::Connected {
                id: id@,
                local_port: *local_port,
            },
            TunnelEvent::Failed { id, reason } => TunnelEventView::Failed {
                id: id@,
                reason: reason@,
            },
            TunnelEvent::Disconnected { id } => TunnelEventView::Disconnected { id: id@ },
            TunnelEvent::Log { id, line } => TunnelEventView::Log { id: id@, line: line@ },
        }
    }
}

impl Clone for TunnelEvent {
    fn clone(&self) -> (r: Self)
        ensures
            r@ == self@,
    {
        match self {
            TunnelEvent::Connecting { id } => TunnelEvent::Connecting { id: id.clone() },
            TunnelEvent::Connected { id, local_port } => TunnelEvent::Connected {
                id: id.clone(),
                local_port: *local_port,
            },
            TunnelEvent::Failed { id, reason } => TunnelEvent::Failed {
                id: id.clone(),
                reason: reason.clone(),
            },
            TunnelEvent::Disconnected { id } => TunnelEvent::Disconnected { id: id.clone() },
            TunnelEvent::Log { id, line } => TunnelEvent::Log {
                id: id.clone(),
                line: line.clone(),
            },
        }
    }
}

impl TunnelEventView {
    /// The tunnel that reports.
    pub open spec fn id(self) -> Seq<char> {
        match self {
            TunnelEventView::Connecting { id } => id,
            TunnelEventView::Connected { id, local_port } => id,
            TunnelEventView::Failed { id, reason } => id,
            TunnelEventView::Disconnected { id } => id,
            TunnelEventView::Log { id, line } => id,
        }
    }

    /// Whether the report says that the tunnel has ended.
    pub open spec fn is_final(self) -> bool {
        self is Failed || self is Disconnected
    }
}

/// What the manager holds of a running tunnel: whether it can still be told to end, and whether
/// its end can still be waited for.
#[derive(Debug, Clone, Copy, PartialEq, Eq, Structural)]
pub struct TunnelHandle {
    pub cancel: bool,
    pub task: bool,
}

impl View for TunnelHandle {
    type V = TunnelHandle;

    open spec fn view(&self) -> TunnelHandle {
        *self
    }
}

impl TunnelHandle {
    /// Asks the tunnel to end. The answer says whether the tunnel is to be told so now: it is
    /// told once.
    pub fn shutdown(&mut self) -> (r: bool)
        ensures
            r == old(self).cancel,
            *final(self) == (TunnelHandle { cancel: false, task: old(self).task }),
    {
        let armed = self.cancel;
        self.cancel = false;
        armed
    }

    /// Asks to wait for the tunnel to end. The answer says whether there is an end to wait for:
    /// it is waited for once.
    pub fn wait(&mut self) -> (r: bool)
        ensures
            r == old(self).task,
            *final(self) == (TunnelHandle { cancel: old(self).cancel, task: false }),
    {
        let pending = self.task;
        self.task = false;
        pending
    }
}

/// How far a tunnel has come.
#[derive(Debug, Clone, Copy, PartialEq, Eq, Structural)]
pub enum Phase {
    /// It has not begun.
    New,
    /// A free local port is being looked for.
    Picking,
    /// `ssh` is being started.
    Spawning { local_port: u16 },
    /// `ssh` runs, and its local port does not answer yet.
    Waiting { local_port: u16 },
    /// `ssh` runs, and its local port answers.
    Up { local_port: u16 },
    /// It is over.
    Ended,
}

/// What can happen to a tunnel.
#[derive(Debug)]
pub enum Input {
    Start,
    PortPicked(u16),
    PortFailed(String),
    Spawned,
    SpawnFailed(String),
    /// The user wants the tunnel to end.
    Cancelled,
    /// The local port answers.
    Ready,
    /// The local port did not answer in time.
    NotReady(String),
    /// `ssh` ended by itself; `status` is its exit status in words.
    Exited { success: bool, status: String },
    /// The end of `ssh` could not be waited for.
    WaitFailed(String),
    /// `ssh` wrote a line to its standard error.
    Line(String),
}

/// What is to be done for a tunnel.
#[derive(Debug)]
pub enum Action {
    /// Tell the manager.
    Emit(TunnelEvent),
    /// Have the system pick a free local port, by listening at this address for a moment.
    PickPort { address: String },
    /// Start this program with these arguments.
    Spawn { program: String, args: Vec<String> },
    /// Report each line that `ssh` writes, and see which comes first: the local port answers or
    /// fails to in time, the user cancels, or `ssh` ends.
    Watch(u16),
    /// Go on reporting each line that `ssh` writes, and see which comes first: the user cancels,
    /// or `ssh` ends.
    Guard,
    /// Kill `ssh` and wait for its end.
    Kill,
}

pub enum InputView {
    Start,
    PortPicked(u16),
    PortFailed(Seq<char>),
    Spawned,
    SpawnFailed(Seq<char>),
    Cancelled,
    Ready,
    NotReady(Seq<char>),
    Exited { success: bool, status: Seq<char> },
    WaitFailed(Seq<char>),
    Line(Seq<char>),
}

pub enum ActionView {
    Emit(TunnelEventView),
    PickPort { address: Seq<char> },
    Spawn { program: Seq<char>, args: Seq<Seq<char>> },
    Watch(u16),
    Guard,
    Kill,
}

impl View for Input {
    type V = InputView;

    open spec fn view(&self) -> InputView {
        match self {
            Input::Start => InputView::Start,
            Input::PortPicked(p) => InputView::PortPicked(*p),
            Input::PortFailed(e) => InputView::PortFailed(e@),
            Input::Spawned => InputView::Spawned,
            Input::SpawnFailed(e) => InputView::SpawnFailed(e@),
            Input::Cancelled => InputView::Cancelled,
            Input::Ready => InputView::Ready,
            Input::NotReady(e) => InputView::NotReady(e@),
            Input::Exited { success, status } => InputView::Exited {
                success: *success,
                status: status@,
            },
            Input::WaitFailed(e) => InputView::WaitFailed(e@),
            Input::Line(l) => InputView::Line(l@),
        }
    }
}

impl View for Action {
    type V = ActionView;

    open spec fn view(&self) -> ActionView {
        match self {
            Action::Emit(e) => ActionView::Emit(e@),
            Action::PickPort { address } => ActionView::PickPort { address: address@ },
            Action::Spawn { program, args } => ActionView::Spawn {
                program: program@,
                args: seqs::views(args@),
            },
            Action::Watch(p) => ActionView::Watch(*p),
            Action::Guard => ActionView::Guard,
            Action::Kill => ActionView::Kill,
        }
    }
}

/// A tunnel on its way from start to end.
#[derive(Debug)]
pub struct TunnelRun {
    pub id: TunnelId,
    pub ssh_alias: String,
    pub remote_port: u16,
    /// The local port to forward from; a free one is looked for where there is none.
    pub local_port: Option<u16>,
    pub phase: Phase,
}

pub struct RunView {
    pub id: Seq<char>,
    pub ssh_alias: Seq<char>,
    pub remote_port: u16,
    pub local_port: Option<u16>,
    pub phase: Phase,
}

impl View for TunnelRun {
    type V = RunView;

    open spec fn view(&self) -> RunView {
        RunView {
            id: self.id@,
            ssh_alias: self.ssh_alias@,
            remote_port: self.remote_port,
            local_port: self.local_port,
            phase: self.phase,
        }
    }
}

/// A tunnel that has not begun, and the handle by which it is ended and waited for.
pub fn spawn_tunnel(
    id: TunnelId,
    ssh_alias: String,
    remote_port: u16,
    local_port: Option<u16>,
) -> (r: (TunnelHandle, TunnelRun))
    ensures
        r.0 == (TunnelHandle { cancel: true, task: true }),
        r.1@ == (RunView {
            id: id@,
            ssh_alias: ssh_alias@,
            remote_port,
            local_port,
            phase: Phase::New,
        }),
{
    (
        TunnelHandle { cancel: true, task: true },
        TunnelRun { id, ssh_alias, remote_port, local_port, phase: Phase::New },
    )
}

/// The program that forwards.
pub fn ssh_program() -> (r: String)
    ensures
        r@ == "ssh"@,
{
    "ssh".to_string()
}

/// The local forward, as `ssh` takes it: both ends on the loopback address.
pub open spec fn forward_text(local: u16, remote: u16) -> Seq<char> {
    "127.0.0.1:"@ + text::decimal(local as nat) + ":127.0.0.1:"@ + text::decimal(remote as nat)
}

/// The arguments with which `ssh` forwards port `local` to port `remote` on `alias`.
pub open spec fn ssh_arguments(alias: Seq<char>, local: u16, remote: u16) -> Seq<Seq<char>> {
    seq![
        "-N"@,
        "-o"@,
        "BatchMode=yes"@,
        "-o"@,
        "ExitOnForwardFailure=yes"@,
        "-o"@,
        "ServerAliveInterval=30"@,
        "-o"@,
        "ServerAliveCountMax=3"@,
        "-L"@,
        forward_text(local, remote),
        alias,
    ]
}

/// The arguments with which `ssh` forwards port `local` to port `remote` on `alias`: it runs no
/// command, asks for no password, ends where it cannot forward, and notices a dead connection.
pub fn ssh_args(alias: &str, local: u16, remote: u16) -> (r: Vec<String>)
    ensures
        seqs::views(r@) == ssh_arguments(alias@, local, remote),
{
    let l = text::decimal_text(local as usize);
    let p = text::decimal_text(remote as usize);
    let mut r: Vec<String> = Vec::new();
    r.push("-N".to_string());
    r.push("-o".to_string());
    r.push("BatchMode=yes".to_string());
    r.push("-o".to_string());
    r.push("ExitOnForwardFailure=yes".to_string());
    r.push("-o".to_string());
    r.push("ServerAliveInterval=30".to_string());
    r.push("-o".to_string());
    r.push("ServerAliveCountMax=3".to_string());
    r.push("-L".to_string());
    r.push(text::cat4("127.0.0.1:", l.as_str(), ":127.0.0.1:", p.as_str()));
    r.push(alias.to_string());
    assert(seqs::views(r@) =~= ssh_arguments(alias@, local, remote));
    r
}

/// `ssh` is to be started so that it forwards `local` to `remote` on `alias`.
pub open spec fn ssh_start(alias: Seq<char>, local: u16, remote: u16) -> ActionView {
    ActionView::Spawn { program: "ssh"@, args: ssh_arguments(alias, local, remote) }
}

impl RunView {
    pub open spec fn at(self, phase: Phase) -> RunView {
        RunView { phase, ..self }
    }

    /// The tunnel starts `ssh` on `local_port`.
    pub open spec fn launch(self, local_port: u16) -> (RunView, Seq<ActionView>) {
        (
            self.at(Phase::Spawning { local_port }),
            seq![ssh_start(self.ssh_alias, local_port, self.remote_port)],
        )
    }

    /// The tunnel ends, having failed for `reason`, while no `ssh` runs.
    pub open spec fn fail(self, reason: Seq<char>) -> (RunView, Seq<ActionView>) {
        (
            self.at(Phase::Ended),
            seq![ActionView::Emit(TunnelEventView::Failed { id: self.id, reason })],
        )
    }

    /// The tunnel ends as the user wanted.
    pub open spec fn hang_up(self) -> (RunView, Seq<ActionView>) {
        (
            self.at(Phase::Ended),
            seq![
                ActionView::Kill,
                ActionView::Emit(TunnelEventView::Disconnected { id: self.id }),
            ],
        )
    }

    /// The tunnel goes on, and a line that `ssh` wrote is reported.
    pub open spec fn pass_on(self, line: Seq<char>) -> (RunView, Seq<ActionView>) {
        (self, seq![ActionView::Emit(TunnelEventView::Log { id: self.id, line })])
    }

    /// What becomes of the tunnel, and what is done for it, when `input` happens. What cannot
    /// happen in the phase that the tunnel is in changes nothing.
    pub open spec fn step(self, input: InputView) -> (RunView, Seq<ActionView>) {
        let idle = (self, Seq::<ActionView>::empty());
        match self.phase {
            Phase::New => match input {
                InputView::Start => {
                    let hello = seq![
                        ActionView::Emit(TunnelEventView::Connecting { id: self.id }),
                    ];
                    match self.local_port {
                        Some(p) => (self.launch(p).0, hello + self.launch(p).1),
                        None => (self.at(Phase::Picking), hello.push(ActionView::PickPort { address: "127.0.0.1:0"@ })),
                    }
                },
                _ => idle,
            },
            Phase::Picking => match input {
                InputView::PortPicked(p) => self.launch(p),
                InputView::PortFailed(e) => self.fail("port alloc: "@ + e),
                _ => idle,
            },
            Phase::Spawning { local_port } => match input {
                InputView::Spawned => (
                    self.at(Phase::Waiting { local_port }),
                    seq![ActionView::Watch(local_port)],
                ),
                InputView::SpawnFailed(e) => self.fail("spawn ssh: "@ + e),
                _ => idle,
            },
            Phase::Waiting { local_port } => match input {
                InputView::Cancelled => self.hang_up(),
                InputView::Ready => (
                    self.at(Phase::Up { local_port }),
                    seq![
                        ActionView::Emit(TunnelEventView::Connected { id: self.id, local_port }),
                        ActionView::Guard,
                    ],
                ),
                InputView::NotReady(e) => (
                    self.fail(e).0,
                    seq![ActionView::Kill] + self.fail(e).1,
                ),
                InputView::Exited { success, status } => self.fail(
                    "ssh exited early: "@ + status,
                ),
                InputView::WaitFailed(e) => self.fail("ssh wait: "@ + e),
                InputView::Line(l) => self.pass_on(l),
                _ => idle,
            },
            Phase::Up { local_port } => match input {
                InputView::Cancelled => self.hang_up(),
                InputView::Exited { success, status } => if success {
                    self.fail("ssh exited"@)
                } else {
                    self.fail("ssh exited: "@ + status)
                },
                InputView::WaitFailed(e) => self.fail("ssh wait: "@ + e),
                InputView::Line(l) => self.pass_on(l),
                _ => idle,
            },
            Phase::Ended => match input {
                InputView::Line(l) => self.pass_on(l),
                _ => idle,
            },
        }
    }
}

impl TunnelRun {
    fn launch(&mut self, local_port: u16, actions: &mut Vec<Action>)
        ensures
            final(self)@ == old(self)@.launch(local_port).0,
            seqs::views(final(actions)@) == seqs::views(old(actions)@) + old(self)@.launch(
                local_port,
            ).1,
    {
        let ghost before = seqs::views(actions@);
        let args = ssh_args(self.ssh_alias.as_str(), local_port, self.remote_port);
        self.phase = Phase::Spawning { local_port };
        actions.push(Action::Spawn { program: ssh_program(), args });
        assert(seqs::views(actions@) =~= before + old(self)@.launch(local_port).1);
    }

    fn fail(&mut self, reason: String, actions: &mut Vec<Action>)
        ensures
            final(self)@ == old(self)@.fail(reason@).0,
            seqs::views(final(actions)@) == seqs::views(old(actions)@) + old(self)@.fail(
                reason@,
            ).1,
    {
        let ghost before = seqs::views(actions@);
        let ghost why = reason@;
        self.phase = Phase::Ended;
        actions.push(Action::Emit(TunnelEvent::Failed { id: self.id.clone(), reason }));
        assert(seqs::views(actions@) =~= before + old(self)@.fail(why).1);
    }

    fn hang_up(&mut self, actions: &mut Vec<Action>)
        ensures
            final(self)@ == old(self)@.hang_up().0,
            seqs::views(final(actions)@) == seqs::views(old(actions)@) + old(self)@.hang_up().1,
    {
        let ghost before = seqs::views(actions@);
        self.phase = Phase::Ended;
        actions.push(Action::Kill);
        actions.push(Action::Emit(TunnelEvent::Disconnected { id: self.id.clone() }));
        assert(seqs::views(actions@) =~= before + old(self)@.hang_up().1);
    }

    fn pass_on(&self, line: String, actions: &mut Vec<Action>)
        ensures
            seqs::views(final(actions)@) == seqs::views(old(actions)@) + self@.pass_on(line@).1,
    {
        let ghost before = seqs::views(actions@);
        let ghost written = line@;
        actions.push(Action::Emit(TunnelEvent::Log { id: self.id.clone(), line }));
        assert(seqs::views(actions@) =~= before + self@.pass_on(written).1);
    }

    /// Takes note of what happened to the tunnel, and says what is to be done for it.
    pub fn advance(&mut self, input: Input) -> (r: Vec<Action>)
        ensures
            (final(self)@, seqs::views(r@)) == old(self)@.step(input@),
    {
        let mut r: Vec<Action> = Vec::new();
        match self.phase {
            Phase::New => match input {
                Input::Start => {
                    r.push(Action::Emit(TunnelEvent::Connecting { id: self.id.clone() }));
                    match self.local_port {
                        Some(p) => self.launch(p, &mut r),
                        None => {
                            self.phase = Phase::Picking;
                            r.push(Action::PickPort { address: "127.0.0.1:0".to_string() });
                        },
                    }
                },
                _ => {},
            },
            Phase::Picking => match input {
                Input::PortPicked(p) => self.launch(p, &mut r),
                Input::PortFailed(e) => self.fail(text::cat2("port alloc: ", e.as_str()), &mut r),
                _ => {},
            },
            Phase::Spawning { local_port } => match input {
                Input::Spawned => {
                    self.phase = Phase::Waiting { local_port };
                    r.push(Action::Watch(local_port));
                },
                Input::SpawnFailed(e) => self.fail(text::cat2("spawn ssh: ", e.as_str()), &mut r),
                _ => {},
            },
            Phase::Waiting { local_port } => match input {
                Input::Cancelled => self.hang_up(&mut r),
                Input::Ready => {
                    self.phase = Phase::Up { local_port };
                    r.push(
                        Action::Emit(
                            TunnelEvent::Connected { id: self.id.clone(), local_port },
                        ),
                    );
                    r.push(Action::Guard);
                },
                Input::NotReady(e) => {
                    r.push(Action::Kill);
                    self.fail(e, &mut r)
                },
                Input::Exited { success, status } => self.fail(
                    text::cat2("ssh exited early: ", status.as_str()),
                    &mut r,
                ),
                Input::WaitFailed(e) => self.fail(text::cat2("ssh wait: ", e.as_str()), &mut r),
                Input::Line(l) => self.pass_on(l, &mut r),
                _ => {},
            },
            Phase::Up { local_port } => match input {
                Input::Cancelled => self.hang_up(&mut r),
                Input::Exited { success, status } => if success {
                    self.fail("ssh exited".to_string(), &mut r)
                } else {
                    self.fail(text::cat2("ssh exited: ", status.as_str()), &mut r)
                },
                Input::WaitFailed(e) => self.fail(text::cat2("ssh wait: ", e.as_str()), &mut r),
                Input::Line(l) => self.pass_on(l, &mut r),
                _ => {},
            },
            Phase::Ended => match input {
                Input::Line(l) => self.pass_on(l, &mut r),
                _ => {},
            },
        }
        assert(seqs::views(r@) =~= old(self)@.step(input@).1);
        r
    }
}

/// How long a local port may take to answer, in milliseconds.
pub const READY_TIMEOUT_MS: u64 = 8000;

/// How long to rest between two attempts to reach a local port, in milliseconds.
pub const READY_POLL_MS: u64 = 50;

/// How long one attempt to reach a local port may take, in milliseconds.
pub const CONNECT_TIMEOUT_MS: u64 = 500;

/// What was found while waiting for a local port to answer.
#[derive(Debug, Clone, Copy, PartialEq, Eq, Structural)]
pub enum ReadySign {
    /// The clock was read; the time is in milliseconds.
    Clock(u64),
    /// An attempt to connect was made, and whether it succeeded in time.
    Attempt(bool),
    /// The rest is over.
    Rested,
}

/// What to do next while waiting for a local port to answer.
#[derive(Debug)]
pub enum ReadyStep {
    ReadClock,
    Connect { host: String, port: u16, timeout_ms: u64 },
    Rest { ms: u64 },
    /// The port answers: the wait is over.
    Answered,
    /// The port did not answer in time: the wait is over.
    TimedOut(String),
}

pub enum ReadyStepView {
    ReadClock,
    Connect { host: Seq<char>, port: u16, timeout_ms: u64 },
    Rest { ms: u64 },
    Answered,
    TimedOut(Seq<char>),
}

impl View for ReadyStep {
    type V = ReadyStepView;

    open spec fn view(&self) -> ReadyStepView {
        match self {
            ReadyStep::ReadClock => ReadyStepView::ReadClock,
            ReadyStep::Connect { host, port, timeout_ms } => ReadyStepView::Connect {
                host: host@,
                port: *port,
                timeout_ms: *timeout_ms,
            },
            ReadyStep::Rest { ms } => ReadyStepView::Rest { ms: *ms },
            ReadyStep::Answered => ReadyStepView::Answered,
            ReadyStep::TimedOut(e) => ReadyStepView::TimedOut(e@),
        }
    }
}

/// When a wait that begins at `now` has to be over.
pub open spec fn deadline_after(now: u64) -> int {
    now + READY_TIMEOUT_MS
}

/// When a wait that begins at `now` has to be over.
pub fn ready_deadline(now: u64) -> (r: u64)
    requires
        now + READY_TIMEOUT_MS <= u64::MAX,
    ensures
        r == deadline_after(now),
{
    now + READY_TIMEOUT_MS
}

/// The address on which local ports are dialled.
pub fn dial_host() -> (r: String)
    ensures
        r@ == "127.0.0.1"@,
{
    "127.0.0.1".to_string()
}

/// What to do next while waiting until `deadline` for local port `port` to answer.
pub open spec fn ready_step(port: u16, deadline: u64, sign: ReadySign) -> ReadyStepView {
    match sign {
        ReadySign::Clock(now) => if now >= deadline {
            ReadyStepView::TimedOut("readiness timeout after 8s"@)
        } else {
            ReadyStepView::Connect { host: "127.0.0.1"@, port, timeout_ms: CONNECT_TIMEOUT_MS }
        },
        ReadySign::Attempt(true) => ReadyStepView::Answered,
        ReadySign::Attempt(false) => ReadyStepView::Rest { ms: READY_POLL_MS },
        ReadySign::Rested => ReadyStepView::ReadClock,
    }
}

/// What to do next while waiting until `deadline` for local port `port` to answer. The clock is
/// read before each attempt, and no attempt begins once the deadline has come.
pub fn wait_ready(port: u16, deadline: u64, sign: ReadySign) -> (r: ReadyStep)
    ensures
        r@ == ready_step(port, deadline, sign),
{
    match sign {
        ReadySign::Clock(now) => if now >= deadline {
            ReadyStep::TimedOut("readiness timeout after 8s".to_string())
        } else {
            ReadyStep::Connect { host: dial_host(), port, timeout_ms: CONNECT_TIMEOUT_MS }
        },
        ReadySign::Attempt(true) => ReadyStep::Answered,
        ReadySign::Attempt(false) => ReadyStep::Rest { ms: READY_POLL_MS },
        ReadySign::Rested => ReadyStep::ReadClock,
    }
}

impl RunView {
    /// What becomes of the tunnel, and all that is done for it, when `inputs` happen in turn.
    pub open spec fn steps(self, inputs: Seq<InputView>) -> (RunView, Seq<ActionView>)
        decreases inputs.len(),
    {
        if inputs.len() == 0 {
            (self, Seq::empty())
        } else {
            let (run, done) = self.steps(inputs.drop_last());
            let (next, more) = run.step(inputs.last());
            (next, done + more)
        }
    }

    /// Whether `reports` is all that a tunnel in this phase has reported, apart from what `ssh`
    /// wrote: first that it connects, then that it is connected where it came to that, then once,
    /// last and only where it is over, that it failed or was disconnected. A pinned local port is
    /// the one that is used.
    pub open spec fn has_reported(self, reports: Seq<TunnelEventView>) -> bool {
        let hello = TunnelEventView::Connecting { id: self.id };
        match self.phase {
            Phase::New => reports == Seq::<TunnelEventView>::empty(),
            Phase::Picking => reports == seq![hello] && self.local_port is None,
            Phase::Spawning { local_port } => reports == seq![hello] && self.may_use(local_port),
            Phase::Waiting { local_port } => reports == seq![hello] && self.may_use(local_port),
            Phase::Up { local_port } => {
                &&& reports == seq![hello, TunnelEventView::Connected { id: self.id, local_port }]
                &&& self.may_use(local_port)
            },
            Phase::Ended => {
                &&& 2 <= reports.len() <= 3
                &&& reports[0] == hello
                &&& reports.len() == 3 ==> (reports[1] matches TunnelEventView::Connected {
                    id,
                    local_port,
                } && id == self.id && self.may_use(local_port))
                &&& reports.last().is_final()
                &&& reports.last().id() == self.id
            },
        }
    }

    /// Whether the tunnel may forward from `local_port`.
    pub open spec fn may_use(self, local_port: u16) -> bool {
        self.local_port is None || self.local_port == Some(local_port)
    }
}

/// All that is reported among `actions`, in order.
pub open spec fn emitted(actions: Seq<ActionView>) -> Seq<TunnelEventView>
    decreases actions.len(),
{
    if actions.len() == 0 {
        Seq::empty()
    } else {
        match actions.last() {
            ActionView::Emit(e) => emitted(actions.drop_last()).push(e),
            _ => emitted(actions.drop_last()),
        }
    }
}

/// `evs` without the lines that `ssh` wrote.
pub open spec fn without_lines(evs: Seq<TunnelEventView>) -> Seq<TunnelEventView>
    decreases evs.len(),
{
    if evs.len() == 0 {
        Seq::empty()
    } else if evs.last() is Log {
        without_lines(evs.drop_last())
    } else {
        without_lines(evs.drop_last()).push(evs.last())
    }
}

/// What is reported among `actions` apart from the lines that `ssh` wrote, in order.
pub open spec fn reports(actions: Seq<ActionView>) -> Seq<TunnelEventView>
    decreases actions.len(),
{
    if actions.len() == 0 {
        Seq::empty()
    } else {
        match actions.last() {
            ActionView::Emit(e) if !(e is Log) => reports(actions.drop_last()).push(e),
            _ => reports(actions.drop_last()),
        }
    }
}

/// What is reported apart from lines is all that is reported, without the lines.
pub proof fn lemma_reports_emitted(actions: Seq<ActionView>)
    ensures
        reports(actions) == without_lines(emitted(actions)),
    decreases actions.len(),
{
    if actions.len() > 0 {
        let less = actions.drop_last();
        lemma_reports_emitted(less);
        if let ActionView::Emit(e) = actions.last() {
            assert(emitted(actions).drop_last() =~= emitted(less));
        }
    }
}

proof fn lemma_reports_add(a: Seq<ActionView>, b: Seq<ActionView>)
    ensures
        reports(a + b) == reports(a) + reports(b),
    decreases b.len(),
{
    if b.len() == 0 {
        assert(a + b =~= a);
        assert(reports(a) + reports(b) =~= reports(a));
    } else {
        lemma_reports_add(a, b.drop_last());
        assert((a + b).drop_last() =~= a + b.drop_last());
        assert(reports(a + b) =~= reports(a) + reports(b));
    }
}

proof fn lemma_step_reports(run: RunView, input: InputView, before: Seq<TunnelEventView>)
    requires
        run.has_reported(before),
    ensures
        run.step(input).0.has_reported(before + reports(run.step(input).1)),
{
    reveal_with_fuel(reports, 3);
    let (next, more) = run.step(input);
    let after = before + reports(more);
    if more.len() == 0 {
        assert(after =~= before);
    } else if more.len() == 1 {
        assert(more.drop_last() =~= Seq::<ActionView>::empty());
        match more[0] {
            ActionView::Emit(e) if !(e is Log) => assert(after =~= before.push(e)),
            _ => assert(after =~= before),
        }
    } else {
        assert(more.len() == 2);
        assert(more.drop_last() =~= seq![more[0]]);
        assert(seq![more[0]].drop_last() =~= Seq::<ActionView>::empty());
        match more[0] {
            ActionView::Emit(e) => assert(after =~= before.push(e)),
            _ => {
                assert(more[1] is Emit);
                assert(after =~= before.push(more[1]->Emit_0));
            },
        }
    }
    let hello = TunnelEventView::Connecting { id: run.id };
    match next.phase {
        Phase::New => {
            assert(next == run);
            assert(after =~= Seq::<TunnelEventView>::empty());
        },
        Phase::Up { local_port } => assert(after =~= seq![
            hello,
            TunnelEventView::Connected { id: run.id, local_port },
        ]),
        Phase::Ended => {},
        _ => assert(after =~= seq![hello]),
    }
}

/// Whatever happens to a tunnel, it reports first that it connects, then that it is connected
/// where it came to that, and then, once and last, that it failed or was disconnected; every
/// report names it, and a pinned local port is the one that is used.
pub proof fn tunnel_reports_in_order(run: RunView, inputs: Seq<InputView>)
    requires
        run.phase == Phase::New,
    ensures
        run.steps(inputs).0.has_reported(reports(run.steps(inputs).1)),
        run.steps(inputs).0 == run.at(run.steps(inputs).0.phase),
    decreases inputs.len(),
{
    if inputs.len() > 0 {
        tunnel_reports_in_order(run, inputs.drop_last());
        let (mid, done) = run.steps(inputs.drop_last());
        lemma_step_reports(mid, inputs.last(), reports(done));
        lemma_reports_add(done, mid.step(inputs.last()).1);
    }
}

/// A tunnel that is over stays so, whatever happens, and does nothing more than to report what
/// `ssh` had still written.
pub proof fn ended_tunnel_rests(run: RunView, inputs: Seq<InputView>)
    requires
        run.phase == Phase::Ended,
    ensures
        run.steps(inputs).0 == run,
        forall|k: int|
            0 <= k < run.steps(inputs).1.len() ==> ((#[trigger] run.steps(
                inputs,
            ).1[k]) matches ActionView::Emit(e) && e is Log && e.id() == run.id),
    decreases inputs.len(),
{
    if inputs.len() > 0 {
        ended_tunnel_rests(run, inputs.drop_last());
        let done = run.steps(inputs.drop_last()).1;
        let more = run.step(inputs.last()).1;
        let all = run.steps(inputs).1;
        assert(all == done + more);
        assert forall|k: int| 0 <= k < all.len() implies ((
        #[trigger] all[k]) matches ActionView::Emit(e) && e is Log && e.id() == run.id) by {
            if k < done.len() {
                assert(all[k] == done[k]);
            } else {
                assert(all[k] == more[k - done.len()]);
            }
        }
    }
}

/// While `ssh` runs, a tunnel ends only where `ssh` has ended by itself or is killed before the
/// end is reported.
pub proof fn no_ssh_is_left_behind(run: RunView, input: InputView)
    requires
        run.phase is Waiting || run.phase is Up,
        run.step(input).0.phase == Phase::Ended,
    ensures
        input is Exited || input is WaitFailed || run.step(input).1[0] == ActionView::Kill,
{
}

/// A tunnel whose `ssh` runs ends when the user cancels it, and reports that it is disconnected.
pub proof fn cancelling_disconnects(run: RunView)
    requires
        run.phase is Waiting || run.phase is Up,
    ensures
        run.step(InputView::Cancelled).0.phase == Phase::Ended,
        run.step(InputView::Cancelled).1.last() == ActionView::Emit(
            TunnelEventView::Disconnected { id: run.id },
        ),
{
}

impl RunView {
    /// `ssh` is to be started so that it forwards `local_port` to the remote port of the tunnel.
    pub open spec fn forward_from(self, local_port: u16) -> ActionView {
        ssh_start(self.ssh_alias, local_port, self.remote_port)
    }

    /// Whether `ssh` has been started on the port that the tunnel is on, where it is on one, and
    /// on every port that was reported.
    pub open spec fn forwards(self, actions: Seq<ActionView>) -> bool {
        &&& match self.phase {
            Phase::Spawning { local_port } => actions.contains(self.forward_from(local_port)),
            Phase::Waiting { local_port } => actions.contains(self.forward_from(local_port)),
            Phase::Up { local_port } => actions.contains(self.forward_from(local_port)),
            _ => true,
        }
        &&& forall|local_port: u16|
            actions.contains(
                #[trigger] connected_on(self.id, local_port),
            ) ==> actions.contains(self.forward_from(local_port))
    }
}

/// The report that tunnel `id` is connected on `local_port`.
pub open spec fn connected_on(id: Seq<char>, local_port: u16) -> ActionView {
    ActionView::Emit(TunnelEventView::Connected { id, local_port })
}

proof fn lemma_contains_add(a: Seq<ActionView>, b: Seq<ActionView>, x: ActionView)
    ensures
        (a + b).contains(x) <==> a.contains(x) || b.contains(x),
{
    if a.contains(x) {
        let i = choose|i: int| 0 <= i < a.len() && a[i] == x;
        assert((a + b)[i] == x);
    }
    if b.contains(x) {
        let i = choose|i: int| 0 <= i < b.len() && b[i] == x;
        assert((a + b)[a.len() + i] == x);
    }
    if (a + b).contains(x) {
        let i = choose|i: int| 0 <= i < (a + b).len() && (a + b)[i] == x;
        if i < a.len() {
            assert(a[i] == x);
        } else {
            assert(b[i - a.len()] == x);
        }
    }
}

/// A tunnel that reports to be connected on a port has started `ssh` to forward that very port to
/// its remote port, by what its host is reached by.
pub proof fn reported_port_is_forwarded(run: RunView, inputs: Seq<InputView>)
    requires
        run.phase == Phase::New,
    ensures
        run.steps(inputs).0.forwards(run.steps(inputs).1),
        run.steps(inputs).0 == run.at(run.steps(inputs).0.phase),
    decreases inputs.len(),
{
    if inputs.len() > 0 {
        reported_port_is_forwarded(run, inputs.drop_last());
        let (mid, done) = run.steps(inputs.drop_last());
        let (next, more) = mid.step(inputs.last());
        assert forall|x: ActionView| #[trigger]
            (done + more).contains(x) <==> done.contains(x) || more.contains(x) by {
            lemma_contains_add(done, more, x);
        }
        match next.phase {
            Phase::Spawning { local_port } => {
                if next != mid {
                    assert(more[more.len() - 1] == run.forward_from(local_port));
                    assert(more.contains(run.forward_from(local_port)));
                }
            },
            _ => {},
        }
        assert forall|local_port: u16|
            (done + more).contains(
                #[trigger] connected_on(run.id, local_port),
            ) implies (done + more).contains(run.forward_from(local_port)) by {
            if more.contains(connected_on(run.id, local_port)) {
                assert(mid.phase == Phase::Waiting { local_port });
            }
        }
    }
}


/// The name of a tunnel is the host, a slash and the service, for every host and service.
pub proof fn tunnel_is_named_by_host_and_service(host: Seq<char>, service: Seq<char>)
    ensures
        tunnel_id(host, service) == host.push('/') + service,
{
    reveal_strlit("/");
    assert(tunnel_id(host, service) =~= host.push('/') + service);
}

/// `ssh` is handed what the host is reached by as its last argument, and just before it, behind
/// `-L`, the forward from the local port to the remote port, both on the loopback address; each
/// option follows an `-o`, and no command is run.
pub proof fn ssh_is_told_to_forward(alias: Seq<char>, local: u16, remote: u16)
    ensures
        ({
            let args = ssh_arguments(alias, local, remote);
            let n = args.len() as int;
            &&& args[n - 1] == alias
            &&& args[n - 2] == "127.0.0.1:"@ + text::decimal(local as nat) + ":127.0.0.1:"@
                + text::decimal(remote as nat)
            &&& args[n - 3] == "-L"@
            &&& args.take(n - 3) == seq![
                "-N"@,
                "-o"@,
                "BatchMode=yes"@,
                "-o"@,
                "ExitOnForwardFailure=yes"@,
                "-o"@,
                "ServerAliveInterval=30"@,
                "-o"@,
                "ServerAliveCountMax=3"@,
            ]
        }),
{
    let args = ssh_arguments(alias, local, remote);
    assert(args.take(9) =~= seq![
        "-N"@,
        "-o"@,
        "BatchMode=yes"@,
        "-o"@,
        "ExitOnForwardFailure=yes"@,
        "-o"@,
        "ServerAliveInterval=30"@,
        "-o"@,
        "ServerAliveCountMax=3"@,
    ]);
}

/// Where `ssh` ends by itself, or its end cannot be waited for, the tunnel ends and reports that
/// it failed and why, whatever the exit status: while the port is waited for it ended early, and
/// once the tunnel was up a good exit is told without its status.
pub proof fn ended_ssh_fails_the_tunnel(
    run: RunView,
    success: bool,
    status: Seq<char>,
    error: Seq<char>,
)
    requires
        run.phase is Waiting || run.phase is Up,
    ensures
        ({
            let (next, actions) = run.step(InputView::Exited { success, status });
            &&& next == (RunView { phase: Phase::Ended, ..run })
            &&& actions.len() == 1
            &&& actions[0] matches ActionView::Emit(TunnelEventView::Failed { id, reason })
            &&& id == run.id
            &&& run.phase is Waiting ==> reason == "ssh exited early: "@ + status
            &&& run.phase is Up && success ==> reason == "ssh exited"@
            &&& run.phase is Up && !success ==> reason == "ssh exited: "@ + status
        }),
        ({
            let (next, actions) = run.step(InputView::WaitFailed(error));
            &&& next == (RunView { phase: Phase::Ended, ..run })
            &&& actions.len() == 1
            &&& actions[0] matches ActionView::Emit(TunnelEventView::Failed { id, reason })
            &&& id == run.id
            &&& reason == "ssh wait: "@ + error
        }),
{
}

/// A tunnel that is cancelled while its `ssh` runs kills it, ends, and then reports that it is
/// disconnected; it does nothing else.
pub proof fn cancelled_tunnel_kills_and_disconnects(run: RunView)
    requires
        run.phase is Waiting || run.phase is Up,
    ensures
        ({
            let (next, actions) = run.step(InputView::Cancelled);
            &&& next == (RunView { phase: Phase::Ended, ..run })
            &&& actions.len() == 2
            &&& actions[0] is Kill
            &&& actions[1] matches ActionView::Emit(TunnelEventView::Disconnected { id })
            &&& id == run.id
        }),
{
}

/// Where a step on the way up fails, the tunnel ends and reports that it failed and why: no port
/// was found, `ssh` could not be started, or the port did not answer in time, and then `ssh` is
/// killed first.
pub proof fn failed_step_fails_the_tunnel(run: RunView, error: Seq<char>)
    ensures
        run.phase is Picking ==> {
            let (next, actions) = run.step(InputView::PortFailed(error));
            &&& next == (RunView { phase: Phase::Ended, ..run })
            &&& actions.len() == 1
            &&& actions[0] matches ActionView::Emit(TunnelEventView::Failed { id, reason })
            &&& id == run.id
            &&& reason == "port alloc: "@ + error
        },
        run.phase is Spawning ==> {
            let (next, actions) = run.step(InputView::SpawnFailed(error));
            &&& next == (RunView { phase: Phase::Ended, ..run })
            &&& actions.len() == 1
            &&& actions[0] matches ActionView::Emit(TunnelEventView::Failed { id, reason })
            &&& id == run.id
            &&& reason == "spawn ssh: "@ + error
        },
        run.phase is Waiting ==> {
            let (next, actions) = run.step(InputView::NotReady(error));
            &&& next == (RunView { phase: Phase::Ended, ..run })
            &&& actions.len() == 2
            &&& actions[0] is Kill
            &&& actions[1] matches ActionView::Emit(TunnelEventView::Failed { id, reason })
            &&& id == run.id
            &&& reason == error
        },
{
}

/// Each step that goes well leads to the next: the tunnel first reports that it connects, and
/// takes its pinned port or has one picked; `ssh` is started on that very port to forward to the
/// remote port; the same port is waited for; and once it answers the tunnel is up on it, reports
/// it, and is watched further.
pub proof fn each_good_step_leads_on(run: RunView, picked: u16)
    ensures
        run.phase is New ==> {
            let (next, actions) = run.step(InputView::Start);
            &&& actions.len() == 2
            &&& actions[0] matches ActionView::Emit(TunnelEventView::Connecting { id })
            &&& id == run.id
            &&& match run.local_port {
                Some(pinned) => {
                    &&& next == (RunView { phase: Phase::Spawning { local_port: pinned }, ..run })
                    &&& actions[1] matches ActionView::Spawn { program, args }
                    &&& program == "ssh"@
                    &&& args == ssh_arguments(run.ssh_alias, pinned, run.remote_port)
                },
                None => {
                    &&& next == (RunView { phase: Phase::Picking, ..run })
                    &&& actions[1] matches ActionView::PickPort { address }
                    &&& address == "127.0.0.1:0"@
                },
            }
        },
        run.phase is Picking ==> {
            let (next, actions) = run.step(InputView::PortPicked(picked));
            &&& next == (RunView { phase: Phase::Spawning { local_port: picked }, ..run })
            &&& actions.len() == 1
            &&& actions[0] matches ActionView::Spawn { program, args }
            &&& program == "ssh"@
            &&& args == ssh_arguments(run.ssh_alias, picked, run.remote_port)
        },
        run.phase matches Phase::Spawning { local_port } ==> {
            let (next, actions) = run.step(InputView::Spawned);
            &&& next == (RunView { phase: Phase::Waiting { local_port }, ..run })
            &&& actions.len() == 1
            &&& actions[0] == ActionView::Watch(local_port)
        },
        run.phase matches Phase::Waiting { local_port } ==> {
            let (next, actions) = run.step(InputView::Ready);
            &&& next == (RunView { phase: Phase::Up { local_port }, ..run })
            &&& actions.len() == 2
            &&& actions[0] matches ActionView::Emit(
                TunnelEventView::Connected { id, local_port: told },
            )
            &&& id == run.id
            &&& told == local_port
            &&& actions[1] is Guard
        },
{
}

/// A line that `ssh` wrote is reported as it is, from when `ssh` runs on, and changes nothing.
pub proof fn written_lines_are_reported(run: RunView, line: Seq<char>)
    requires
        run.phase is Waiting || run.phase is Up || run.phase is Ended,
    ensures
        ({
            let (next, actions) = run.step(InputView::Line(line));
            &&& next == run
            &&& actions.len() == 1
            &&& actions[0] matches ActionView::Emit(TunnelEventView::Log { id, line: told })
            &&& id == run.id
            &&& told == line
        }),
{
}

/// What does not belong to the phase that a tunnel is in changes nothing and has nothing done.
pub proof fn what_does_not_belong_is_ignored(run: RunView, input: InputView)
    requires
        match run.phase {
            Phase::New => !(input is Start),
            Phase::Picking => !(input is PortPicked || input is PortFailed),
            Phase::Spawning { local_port } => !(input is Spawned || input is SpawnFailed),
            Phase::Waiting { local_port } => !(input is Cancelled || input is Ready
                || input is NotReady || input is Exited || input is WaitFailed || input is Line),
            Phase::Up { local_port } => !(input is Cancelled || input is Exited
                || input is WaitFailed || input is Line),
            Phase::Ended => !(input is Line),
        },
    ensures
        run.step(input).0 == run,
        run.step(input).1.len() == 0,
{
}

/// While a port is waited for, an attempt begins exactly where the deadline has not come, on the
/// loopback address and that port, for half a second at most; the wait succeeds exactly where an
/// attempt does, and fails exactly where the deadline has come; after an attempt that fails there
/// is a short rest, and then the clock is read again.
pub proof fn waiting_keeps_to_the_deadline(port: u16, deadline: u64, sign: ReadySign, now: u64)
    ensures
        ready_step(port, deadline, sign) is Answered <==> sign == ReadySign::Attempt(true),
        ready_step(port, deadline, ReadySign::Clock(now)) is TimedOut <==> now >= deadline,
        ready_step(port, deadline, sign) is TimedOut ==> sign is Clock && ready_step(
            port,
            deadline,
            sign,
        )->TimedOut_0 == "readiness timeout after 8s"@,
        now < deadline ==> ready_step(port, deadline, ReadySign::Clock(now)) == (
        ReadyStepView::Connect { host: "127.0.0.1"@, port, timeout_ms: 500 }),
        ready_step(port, deadline, sign) is Connect ==> sign is Clock,
        ready_step(port, deadline, ReadySign::Attempt(false)) == (ReadyStepView::Rest { ms: 50 }),
        ready_step(port, deadline, ReadySign::Rested) is ReadClock,
        deadline_after(now) - now == 8000,
{
}

} // verus!
