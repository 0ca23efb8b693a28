use vstd::prelude::*;

use crate::block::Block;
use crate::fanout::{
    lemma_publish_wf, lemma_subscribe_receive_wf, BroadcastState, Broadcaster, Received,
};
use crate::chain_config::{ChainConfig, ChainStatus};
use crate::process::{Event, LogLine, Step, PROBE_LIMIT};

verus! {

/// How many items each chain's log and block channels keep for slow readers.
pub const BACKLOG: usize = 1024;

/// Why an operation of the registry failed.
#[derive(Debug, PartialEq, Eq)]
pub enum ManagerError {
    /// A chain with this id is already registered.
    DuplicateId,
    /// No chain with this id is registered, or the subscription is unknown.
    NotFound,
    /// A start or restart was asked for while another operation on the chain
    /// is under way; of two overlapping starts only the first goes ahead.
    Busy,
    /// An event arrived that the chain's current operation does not wait for.
    OutOfStep,
    /// The node could not be launched.
    Spawn(String),
    /// The node's port never accepted a connection.
    ConnectTimeout,
    /// Opening the RPC connection or a query over it failed.
    Rpc(String),
    /// Terminating the node failed.
    Terminate(String),
    /// The chain has no open RPC connection.
    NotConnected,
    /// A stop arrived before the start finished; the chain was stopped instead.
    Cancelled,
}

pub open spec fn error_message(e: ManagerError) -> Seq<char> {
    match e {
        ManagerError::DuplicateId => "chain id already exists"@,
        ManagerError::NotFound => "not found"@,
        ManagerError::Busy => "another operation on this chain is in progress"@,
        ManagerError::OutOfStep => "unexpected event for this chain"@,
        ManagerError::Spawn(m) => "failed to launch node: "@ + m@,
        ManagerError::ConnectTimeout => "Failed to connect to websocket"@,
        ManagerError::Rpc(m) => m@,
        ManagerError::Terminate(m) => m@,
        ManagerError::NotConnected => "no open connection to the node"@,
        ManagerError::Cancelled => "stopped before the start finished"@,
    }
}

impl ManagerError {
    /// Text shown to the caller.
    pub fn message(&self) -> (r: String)
        ensures
            r@ == error_message(*self),
    {
        match self {
            ManagerError::DuplicateId => String::from_str("chain id already exists"),
            ManagerError::NotFound => String::from_str("not found"),
            ManagerError::Busy => String::from_str("another operation on this chain is in progress"),
            ManagerError::OutOfStep => String::from_str("unexpected event for this chain"),
            ManagerError::Spawn(m) => {
                let mut r = String::from_str("failed to launch node: ");
                r.append(m.as_str());
                r
            },
            ManagerError::ConnectTimeout => String::from_str("Failed to connect to websocket"),
            ManagerError::Rpc(m) => m.clone(),
            ManagerError::Terminate(m) => m.clone(),
            ManagerError::NotConnected => String::from_str("no open connection to the node"),
            ManagerError::Cancelled => String::from_str("stopped before the start finished"),
        }
    }

    /// HTTP status for a failed control request: 404 for an unknown chain,
    /// 400 otherwise.
    pub fn http_status(&self) -> (r: u16)
        ensures
            r == (if *self is NotFound {
                404u16
            } else {
                400u16
            }),
    {
        match self {
            ManagerError::NotFound => 404,
            _ => 400,
        }
    }
}

/// What follows once the node process of a chain has been terminated.
#[derive(Debug, Clone, Copy, PartialEq, Eq, Structural)]
pub enum AfterKill {
    /// Nothing: a plain stop.
    Rest,
    /// Launch again, as part of a start.
    Start,
    /// Mark the stop in the log, then launch again.
    Restart,
    /// Drop the chain from the registry.
    Remove,
}

/// The operation a chain is in the middle of.
#[derive(Debug)]
pub enum Task {
    Idle,
    Killing(AfterKill),
    Spawning,
    /// Waiting for a probe; the number counts the probes that failed so far.
    Probing(u32),
    Connecting,
    /// A start failed with this error; the process is being terminated.
    Aborting(ManagerError),
    /// A stop arrived mid-start; the process is being terminated.
    Halting,
    /// The chain was deleted mid-operation; the process is being terminated.
    Retiring,
}

impl Task {
    fn is_idle(&self) -> (r: bool)
        ensures
            r == (*self is Idle),
    {
        match self {
            Task::Idle => true,
            _ => false,
        }
    }
}

/// Abstract state of one registered chain.
pub struct EntryView {
    pub config: ChainConfig,
    pub logs: BroadcastState<LogLine>,
    pub blocks: BroadcastState<Block>,
    /// A node process launched for this chain may still be running.
    pub live: bool,
    /// An RPC connection to the node is open.
    pub connected: bool,
    pub task: Task,
    /// A stop was asked for while an operation was under way; that
    /// operation ends by stopping the chain.
    pub halt: bool,
    /// The chain was deleted; it stays only until its process is gone.
    pub doomed: bool,
}

impl EntryView {
    /// Status agrees with the process: when no operation is running, a chain
    /// is `Running` exactly when its process is live, and then it holds an
    /// open connection; it is never `Starting`.
    pub open spec fn wf(self) -> bool {
        &&& self.logs.wf()
        &&& self.blocks.wf()
        &&& self.logs.capacity == BACKLOG
        &&& self.blocks.capacity == BACKLOG
        &&& self.connected ==> self.live
        &&& self.live ==> (self.config.status == ChainStatus::Starting || self.config.status
            == ChainStatus::Running)
        &&& match self.task {
            Task::Idle => {
                &&& (self.live <==> self.config.status == ChainStatus::Running)
                &&& (self.config.status == ChainStatus::Running ==> self.connected)
                &&& !self.doomed
                &&& !self.halt
            },
            Task::Killing(after) => self.live && (after == AfterKill::Remove ==> self.doomed),
            Task::Spawning => !self.live && self.config.status == ChainStatus::Starting,
            Task::Probing(n) => self.live && n < PROBE_LIMIT && self.config.status
                == ChainStatus::Starting,
            Task::Connecting => self.live && self.config.status == ChainStatus::Starting,
            Task::Aborting(err) => self.live && self.config.status == ChainStatus::Starting && (
            err is ConnectTimeout || err is Rpc),
            Task::Halting => self.live,
            Task::Retiring => self.live && self.doomed,
        }
    }
}

/// A freshly registered chain.
pub open spec fn new_entry(cfg: ChainConfig) -> EntryView {
    EntryView {
        config: cfg.with_status(ChainStatus::Stopped),
        logs: BroadcastState::empty(BACKLOG as nat),
        blocks: BroadcastState::empty(BACKLOG as nat),
        live: false,
        connected: false,
        task: Task::Idle,
        halt: false,
        doomed: false,
    }
}

/// The chain once its process is gone: stopped, with the stop marked in its log.
pub open spec fn stopped(e: EntryView) -> EntryView {
    EntryView {
        config: e.config.with_status(ChainStatus::Stopped),
        logs: e.logs.publish(LogLine::Stopped),
        live: false,
        connected: false,
        task: Task::Idle,
        halt: false,
        ..e
    }
}

/// The chain about to launch its node.
pub open spec fn spawning(e: EntryView) -> EntryView {
    EntryView { config: e.config.with_status(ChainStatus::Starting), task: Task::Spawning, ..e }
}

/// A start: refused while another operation is under way; a live process
/// is terminated first.
pub open spec fn start_entry(e: EntryView) -> (EntryView, Step) {
    if !(e.task is Idle) {
        (e, Step::Done(Err(ManagerError::Busy)))
    } else if e.live {
        (
            EntryView {
                config: e.config.with_status(ChainStatus::Starting),
                task: Task::Killing(AfterKill::Start),
                ..e
            },
            Step::Kill,
        )
    } else {
        (spawning(e), Step::Spawn)
    }
}

/// A stop: while another operation is under way it is recorded, and that
/// operation ends by stopping the chain; without a live process it is
/// immediate.
pub open spec fn stop_entry(e: EntryView) -> (EntryView, Step) {
    if !(e.task is Idle) {
        (EntryView { halt: true, ..e }, Step::Await)
    } else if e.live {
        (EntryView { task: Task::Killing(AfterKill::Rest), ..e }, Step::Kill)
    } else {
        (stopped(e), Step::Done(Ok(())))
    }
}

/// A restart: a stop, then a start; refused, as a start is, while another
/// operation is under way.
pub open spec fn restart_entry(e: EntryView) -> (EntryView, Step) {
    if !(e.task is Idle) {
        (e, Step::Done(Err(ManagerError::Busy)))
    } else if e.live {
        (EntryView { task: Task::Killing(AfterKill::Restart), ..e }, Step::Kill)
    } else {
        (spawning(stopped(e)), Step::Spawn)
    }
}

/// How a chain answers the outcome of the work it asked for; `None` when the
/// chain leaves the registry. A deleted chain terminates its process and
/// leaves; a chain asked to stop terminates its process and ends stopped.
pub open spec fn entry_event(e: EntryView, ev: Event) -> (Option<EntryView>, Step) {
    match (e.task, ev) {
        (Task::Killing(after), Event::Killed(res)) => {
            if after == AfterKill::Remove {
                (None, Step::Done(Ok(())))
            } else if e.doomed {
                (None, Step::Done(Err(ManagerError::NotFound)))
            } else {
                match res {
                    Ok(_) => if after == AfterKill::Rest {
                        (Some(stopped(e)), Step::Done(Ok(())))
                    } else if e.halt {
                        (Some(stopped(e)), Step::Done(Err(ManagerError::Cancelled)))
                    } else if after == AfterKill::Start {
                        (
                            Some(
                                spawning(
                                    EntryView {
                                        live: false,
                                        connected: false,
                                        task: Task::Idle,
                                        ..e
                                    },
                                ),
                            ),
                            Step::Spawn,
                        )
                    } else {
                        (Some(spawning(stopped(e))), Step::Spawn)
                    },
                    Err(m) => if after == AfterKill::Start && !e.halt {
                        (
                            Some(
                                EntryView {
                                    config: e.config.with_status(ChainStatus::Error),
                                    live: false,
                                    connected: false,
                                    task: Task::Idle,
                                    ..e
                                },
                            ),
                            Step::Done(Err(ManagerError::Terminate(m))),
                        )
                    } else {
                        (Some(stopped(e)), Step::Done(Err(ManagerError::Terminate(m))))
                    },
                }
            }
        },
        (Task::Spawning, Event::Spawned(res)) => match res {
            Ok(_) => if e.doomed {
                (Some(EntryView { live: true, task: Task::Retiring, ..e }), Step::Kill)
            } else if e.halt {
                (Some(EntryView { live: true, task: Task::Halting, ..e }), Step::Kill)
            } else {
                (Some(EntryView { live: true, task: Task::Probing(0), ..e }), Step::Probe)
            },
            Err(m) => if e.doomed {
                (None, Step::Done(Err(ManagerError::NotFound)))
            } else if e.halt {
                (Some(stopped(e)), Step::Done(Err(ManagerError::Spawn(m))))
            } else {
                (
                    Some(
                        EntryView {
                            config: e.config.with_status(ChainStatus::Error),
                            task: Task::Idle,
                            ..e
                        },
                    ),
                    Step::Done(Err(ManagerError::Spawn(m))),
                )
            },
        },
        (Task::Probing(n), Event::Probed(ok)) => if e.doomed {
            (Some(EntryView { task: Task::Retiring, ..e }), Step::Kill)
        } else if e.halt {
            (Some(EntryView { task: Task::Halting, ..e }), Step::Kill)
        } else if ok {
            (Some(EntryView { task: Task::Connecting, ..e }), Step::Connect)
        } else if n + 1 >= PROBE_LIMIT {
            (
                Some(EntryView { task: Task::Aborting(ManagerError::ConnectTimeout), ..e }),
                Step::Kill,
            )
        } else {
            (Some(EntryView { task: Task::Probing((n + 1) as u32), ..e }), Step::RetryProbe)
        },
        (Task::Connecting, Event::Connected(res)) => if e.doomed {
            (Some(EntryView { task: Task::Retiring, ..e }), Step::Kill)
        } else if e.halt {
            (Some(EntryView { task: Task::Halting, ..e }), Step::Kill)
        } else {
            match res {
                Ok(_) => (
                    Some(
                        EntryView {
                            config: e.config.with_status(ChainStatus::Running),
                            connected: true,
                            task: Task::Idle,
                            ..e
                        },
                    ),
                    Step::Done(Ok(())),
                ),
                Err(m) => (
                    Some(EntryView { task: Task::Aborting(ManagerError::Rpc(m)), ..e }),
                    Step::Kill,
                ),
            }
        },
        (Task::Aborting(err), Event::Killed(_)) => if e.doomed {
            (None, Step::Done(Err(ManagerError::NotFound)))
        } else if e.halt {
            (Some(stopped(e)), Step::Done(Err(err)))
        } else {
            (
                Some(
                    EntryView {
                        config: e.config.with_status(ChainStatus::Error),
                        live: false,
                        connected: false,
                        task: Task::Idle,
                        ..e
                    },
                ),
                Step::Done(Err(err)),
            )
        },
        (Task::Halting, Event::Killed(_)) => if e.doomed {
            (None, Step::Done(Err(ManagerError::NotFound)))
        } else {
            (Some(stopped(e)), Step::Done(Err(ManagerError::Cancelled)))
        },
        (Task::Retiring, Event::Killed(_)) => (None, Step::Done(Err(ManagerError::NotFound))),
        _ => (Some(e), Step::Done(Err(ManagerError::OutOfStep))),
    }
}

/// Position of the chain `id`, or -1.
pub open spec fn find(s: Seq<EntryView>, id: u64) -> int {
    if exists|i: int| 0 <= i < s.len() && s[i].config.id == id {
        choose|i: int| 0 <= i < s.len() && s[i].config.id == id
    } else {
        -1
    }
}

/// The chain `id` is registered and not deleted.
pub open spec fn visible(s: Seq<EntryView>, id: u64) -> bool {
    find(s, id) >= 0 && !s[find(s, id)].doomed
}

pub open spec fn registry_wf(s: Seq<EntryView>) -> bool {
    &&& forall|i: int, j: int|
        0 <= i < s.len() && 0 <= j < s.len() && i != j ==> s[i].config.id != s[j].config.id
    &&& forall|i: int| 0 <= i < s.len() ==> (#[trigger] s[i]).wf()
}

/// Configurations of the chains that are not deleted, in registration order.
pub open spec fn listed(s: Seq<EntryView>) -> Seq<ChainConfig>
    decreases s.len(),
{
    if s.len() == 0 {
        Seq::empty()
    } else if s.last().doomed {
        listed(s.drop_last())
    } else {
        listed(s.drop_last()).push(s.last().config)
    }
}

/// Registering `cfg`: refused while its id is held, else appended, stopped.
pub open spec fn create_outcome(s: Seq<EntryView>, cfg: ChainConfig) -> (
    Seq<EntryView>,
    Result<u64, ManagerError>,
) {
    if find(s, cfg.id) >= 0 {
        (s, Err(ManagerError::DuplicateId))
    } else {
        (s.push(new_entry(cfg)), Ok(cfg.id))
    }
}

/// Replaces the entry of the chain `id` and yields the step.
pub open spec fn on_visible(
    s: Seq<EntryView>,
    id: u64,
    r: (EntryView, Step),
) -> (Seq<EntryView>, Step) {
    (s.update(find(s, id), r.0), r.1)
}

/// Starting the chain `id`; an unknown or deleted chain is not found.
pub open spec fn start_outcome(s: Seq<EntryView>, id: u64) -> (Seq<EntryView>, Step) {
    if !visible(s, id) {
        (s, Step::Done(Err(ManagerError::NotFound)))
    } else {
        on_visible(s, id, start_entry(s[find(s, id)]))
    }
}

/// Stopping the chain `id`; an unknown or deleted chain is not found.
pub open spec fn stop_outcome(s: Seq<EntryView>, id: u64) -> (Seq<EntryView>, Step) {
    if !visible(s, id) {
        (s, Step::Done(Err(ManagerError::NotFound)))
    } else {
        on_visible(s, id, stop_entry(s[find(s, id)]))
    }
}

/// Restarting the chain `id`; an unknown or deleted chain is not found.
pub open spec fn restart_outcome(s: Seq<EntryView>, id: u64) -> (Seq<EntryView>, Step) {
    if !visible(s, id) {
        (s, Step::Done(Err(ManagerError::NotFound)))
    } else {
        on_visible(s, id, restart_entry(s[find(s, id)]))
    }
}

/// Deleting the chain `id`: it is marked deleted while an operation or a
/// live process holds it, and dropped at once otherwise.
pub open spec fn delete_outcome(s: Seq<EntryView>, id: u64) -> (Seq<EntryView>, Step) {
    if !visible(s, id) {
        (s, Step::Done(Err(ManagerError::NotFound)))
    } else {
        let i = find(s, id);
        let e = s[i];
        if !(e.task is Idle) {
            (s.update(i, EntryView { doomed: true, ..e }), Step::Await)
        } else if e.live {
            (
                s.update(i, EntryView { doomed: true, task: Task::Killing(AfterKill::Remove), ..e }),
                Step::Kill,
            )
        } else {
            (s.remove(i), Step::Done(Ok(())))
        }
    }
}

/// Handing the chain `id` the outcome of its step; a deleted chain still
/// takes them until it is dropped.
pub open spec fn event_outcome(s: Seq<EntryView>, id: u64, ev: Event) -> (Seq<EntryView>, Step) {
    if find(s, id) < 0 {
        (s, Step::Done(Err(ManagerError::NotFound)))
    } else {
        let i = find(s, id);
        match entry_event(s[i], ev) {
            (Some(e), st) => (s.update(i, e), st),
            (None, st) => (s.remove(i), st),
        }
    }
}

/// Attaching a reader to the log of the chain `id`.
pub open spec fn subscribe_logs_outcome(s: Seq<EntryView>, id: u64) -> (
    Seq<EntryView>,
    Result<usize, ManagerError>,
) {
    if !visible(s, id) {
        (s, Err(ManagerError::NotFound))
    } else {
        let i = find(s, id);
        let e = s[i];
        if e.logs.subscribers() >= usize::MAX {
            (s, Err(ManagerError::Busy))
        } else {
            (
                s.update(i, EntryView { logs: e.logs.subscribe(), ..e }),
                Ok(e.logs.subscribers() as usize),
            )
        }
    }
}

/// Attaching a reader to the block events of the chain `id`.
pub open spec fn subscribe_blocks_outcome(s: Seq<EntryView>, id: u64) -> (
    Seq<EntryView>,
    Result<usize, ManagerError>,
) {
    if !visible(s, id) {
        (s, Err(ManagerError::NotFound))
    } else {
        let i = find(s, id);
        let e = s[i];
        if e.blocks.subscribers() >= usize::MAX {
            (s, Err(ManagerError::Busy))
        } else {
            (
                s.update(i, EntryView { blocks: e.blocks.subscribe(), ..e }),
                Ok(e.blocks.subscribers() as usize),
            )
        }
    }
}

/// Reading the next log item of subscription `sub`.
pub open spec fn next_log_outcome(s: Seq<EntryView>, id: u64, sub: usize) -> (
    Seq<EntryView>,
    Result<Received<LogLine>, ManagerError>,
) {
    if !visible(s, id) || sub >= s[find(s, id)].logs.subscribers() {
        (s, Err(ManagerError::NotFound))
    } else {
        let i = find(s, id);
        let e = s[i];
        (
            s.update(i, EntryView { logs: e.logs.receive(sub as int), ..e }),
            Ok(e.logs.receipt(sub as int)),
        )
    }
}

/// Reading the next block event of subscription `sub`.
pub open spec fn next_block_outcome(s: Seq<EntryView>, id: u64, sub: usize) -> (
    Seq<EntryView>,
    Result<Received<Block>, ManagerError>,
) {
    if !visible(s, id) || sub >= s[find(s, id)].blocks.subscribers() {
        (s, Err(ManagerError::NotFound))
    } else {
        let i = find(s, id);
        let e = s[i];
        (
            s.update(i, EntryView { blocks: e.blocks.receive(sub as int), ..e }),
            Ok(e.blocks.receipt(sub as int)),
        )
    }
}

/// Publishing a log line of the chain `id`.
pub open spec fn publish_log_outcome(s: Seq<EntryView>, id: u64, line: LogLine) -> (
    Seq<EntryView>,
    Result<(), ManagerError>,
) {
    if !visible(s, id) {
        (s, Err(ManagerError::NotFound))
    } else {
        let i = find(s, id);
        (s.update(i, EntryView { logs: s[i].logs.publish(line), ..s[i] }), Ok(()))
    }
}

/// Publishing a new head of the chain `id`.
pub open spec fn publish_block_outcome(s: Seq<EntryView>, id: u64, block: Block) -> (
    Seq<EntryView>,
    Result<(), ManagerError>,
) {
    if !visible(s, id) {
        (s, Err(ManagerError::NotFound))
    } else {
        let i = find(s, id);
        (s.update(i, EntryView { blocks: s[i].blocks.publish(block), ..s[i] }), Ok(()))
    }
}

/// Whether block queries can be routed to the chain `id`.
pub open spec fn query_outcome(s: Seq<EntryView>, id: u64) -> Result<(), ManagerError> {
    if !visible(s, id) {
        Err(ManagerError::NotFound)
    } else if !s[find(s, id)].connected {
        Err(ManagerError::NotConnected)
    } else {
        Ok(())
    }
}

struct ChainEntry {
    config: ChainConfig,
    logs: Broadcaster<LogLine>,
    blocks: Broadcaster<Block>,
    live: bool,
    connected: bool,
    task: Task,
    halt: bool,
    doomed: bool,
}

impl View for ChainEntry {
    type V = EntryView;

    closed spec fn view(&self) -> EntryView {
        EntryView {
            config: self.config,
            logs: self.logs@,
            blocks: self.blocks@,
            live: self.live,
            connected: self.connected,
            task: self.task,
            halt: self.halt,
            doomed: self.doomed,
        }
    }
}

impl ChainEntry {
    fn settle_stopped(&mut self)
        requires
            old(self)@.logs.wf(),
        ensures
            final(self)@ == stopped(old(self)@),
    {
        self.config.status = ChainStatus::Stopped;
        self.logs.publish(LogLine::Stopped);
        self.live = false;
        self.connected = false;
        self.task = Task::Idle;
        self.halt = false;
    }

    fn set_spawning(&mut self)
        ensures
            final(self)@ == spawning(old(self)@),
    {
        self.config.status = ChainStatus::Starting;
        self.task = Task::Spawning;
    }

    fn begin_start(&mut self) -> (r: Step)
        requires
            old(self)@.wf(),
        ensures
            (final(self)@, r) == start_entry(old(self)@),
    {
        if !self.task.is_idle() {
            return Step::Done(Err(ManagerError::Busy));
        }
        if self.live {
            self.config.status = ChainStatus::Starting;
            self.task = Task::Killing(AfterKill::Start);
            Step::Kill
        } else {
            self.set_spawning();
            Step::Spawn
        }
    }

    fn begin_stop(&mut self) -> (r: Step)
        requires
            old(self)@.wf(),
        ensures
            (final(self)@, r) == stop_entry(old(self)@),
    {
        if !self.task.is_idle() {
            self.halt = true;
            return Step::Await;
        }
        if self.live {
            self.task = Task::Killing(AfterKill::Rest);
            Step::Kill
        } else {
            self.settle_stopped();
            Step::Done(Ok(()))
        }
    }

    fn begin_restart(&mut self) -> (r: Step)
        requires
            old(self)@.wf(),
        ensures
            (final(self)@, r) == restart_entry(old(self)@),
    {
        if !self.task.is_idle() {
            return Step::Done(Err(ManagerError::Busy));
        }
        if self.live {
            self.task = Task::Killing(AfterKill::Restart);
            Step::Kill
        } else {
            self.settle_stopped();
            self.set_spawning();
            Step::Spawn
        }
    }

    /// Returns whether the chain leaves the registry, and the next step.
    fn on_event(&mut self, ev: Event) -> (r: (bool, Step))
        requires
            old(self)@.wf(),
        ensures
            r.0 ==> entry_event(old(self)@, ev) == (None::<EntryView>, r.1),
            !r.0 ==> entry_event(old(self)@, ev) == (Some(final(self)@), r.1),
    {
        let mut task = Task::Idle;
        std::mem::swap(&mut self.task, &mut task);
        match (task, ev) {
            (Task::Killing(after), Event::Killed(res)) => {
                if after == AfterKill::Remove {
                    return (true, Step::Done(Ok(())));
                }
                if self.doomed {
                    return (true, Step::Done(Err(ManagerError::NotFound)));
                }
                match res {
                    Ok(()) => {
                        if after == AfterKill::Rest {
                            self.settle_stopped();
                            (false, Step::Done(Ok(())))
                        } else if self.halt {
                            self.settle_stopped();
                            (false, Step::Done(Err(ManagerError::Cancelled)))
                        } else if after == AfterKill::Start {
                            self.live = false;
                            self.connected = false;
                            self.set_spawning();
                            (false, Step::Spawn)
                        } else {
                            self.settle_stopped();
                            self.set_spawning();
                            (false, Step::Spawn)
                        }
                    },
                    Err(m) => {
                        if after == AfterKill::Start && !self.halt {
                            self.live = false;
                            self.connected = false;
                            self.config.status = ChainStatus::Error;
                        } else {
                            self.settle_stopped();
                        }
                        (false, Step::Done(Err(ManagerError::Terminate(m))))
                    },
                }
            },
            (Task::Spawning, Event::Spawned(res)) => {
                match res {
                    Ok(()) => {
                        self.live = true;
                        if self.doomed {
                            self.task = Task::Retiring;
                            (false, Step::Kill)
                        } else if self.halt {
                            self.task = Task::Halting;
                            (false, Step::Kill)
                        } else {
                            self.task = Task::Probing(0);
                            (false, Step::Probe)
                        }
                    },
                    Err(m) => {
                        if self.doomed {
                            (true, Step::Done(Err(ManagerError::NotFound)))
                        } else if self.halt {
                            self.settle_stopped();
                            (false, Step::Done(Err(ManagerError::Spawn(m))))
                        } else {
                            self.config.status = ChainStatus::Error;
                            (false, Step::Done(Err(ManagerError::Spawn(m))))
                        }
                    },
                }
            },
            (Task::Probing(n), Event::Probed(ok)) => {
                if self.doomed {
                    self.task = Task::Retiring;
                    (false, Step::Kill)
                } else if self.halt {
                    self.task = Task::Halting;
                    (false, Step::Kill)
                } else if ok {
                    self.task = Task::Connecting;
                    (false, Step::Connect)
                } else if n + 1 >= PROBE_LIMIT {
                    self.task = Task::Aborting(ManagerError::ConnectTimeout);
                    (false, Step::Kill)
                } else {
                    self.task = Task::Probing(n + 1);
                    (false, Step::RetryProbe)
                }
            },
            (Task::Connecting, Event::Connected(res)) => {
                if self.doomed {
                    self.task = Task::Retiring;
                    (false, Step::Kill)
                } else if self.halt {
                    self.task = Task::Halting;
                    (false, Step::Kill)
                } else {
                    match res {
                        Ok(()) => {
                            self.config.status = ChainStatus::Running;
                            self.connected = true;
                            (false, Step::Done(Ok(())))
                        },
                        Err(m) => {
                            self.task = Task::Aborting(ManagerError::Rpc(m));
                            (false, Step::Kill)
                        },
                    }
                }
            },
            (Task::Aborting(err), Event::Killed(_)) => {
                if self.doomed {
                    (true, Step::Done(Err(ManagerError::NotFound)))
                } else if self.halt {
                    self.settle_stopped();
                    (false, Step::Done(Err(err)))
                } else {
                    self.config.status = ChainStatus::Error;
                    self.live = false;
                    self.connected = false;
                    (false, Step::Done(Err(err)))
                }
            },
            (Task::Halting, Event::Killed(_)) => {
                if self.doomed {
                    (true, Step::Done(Err(ManagerError::NotFound)))
                } else {
                    self.settle_stopped();
                    (false, Step::Done(Err(ManagerError::Cancelled)))
                }
            },
            (Task::Retiring, Event::Killed(_)) => (true, Step::Done(Err(ManagerError::NotFound))),
            (t, _) => {
                self.task = t;
                (false, Step::Done(Err(ManagerError::OutOfStep)))
            },
        }
    }
}

/// The registry of chains: the one place that knows each chain's
/// configuration, status, log and block channels, and which operation it
/// is in the middle of. Outside work (processes, sockets) is done by the
/// caller, step by step, as the registry asks for it.
pub struct ChainsManager {
    entries: Vec<ChainEntry>,
}

impl View for ChainsManager {
    type V = Seq<EntryView>;

    closed spec fn view(&self) -> Seq<EntryView> {
        self.entries@.map_values(|e: ChainEntry| e@)
    }
}

proof fn lemma_begin_wf(e: EntryView)
    requires
        e.wf(),
        !e.doomed,
    ensures
        start_entry(e).0.wf(),
        stop_entry(e).0.wf(),
        restart_entry(e).0.wf(),
        start_entry(e).0.config.id == e.config.id,
        stop_entry(e).0.config.id == e.config.id,
        restart_entry(e).0.config.id == e.config.id,
{
    lemma_publish_wf(e.logs, LogLine::Stopped);
}

proof fn lemma_event_wf(e: EntryView, ev: Event)
    requires
        e.wf(),
    ensures
        entry_event(e, ev).0 is Some ==> entry_event(e, ev).0->Some_0.wf()
            && entry_event(e, ev).0->Some_0.config.id == e.config.id,
{
    lemma_publish_wf(e.logs, LogLine::Stopped);
}

pub proof fn lemma_registry_update_wf(s: Seq<EntryView>, i: int, e: EntryView)
    requires
        registry_wf(s),
        0 <= i < s.len(),
        e.wf(),
        e.config.id == s[i].config.id,
    ensures
        registry_wf(s.update(i, e)),
{
    let t = s.update(i, e);
    assert forall|a: int, b: int|
        0 <= a < t.len() && 0 <= b < t.len() && a != b implies t[a].config.id
        != t[b].config.id by {
        assert(t[a].config.id == s[a].config.id);
        assert(t[b].config.id == s[b].config.id);
    }
    assert forall|a: int| 0 <= a < t.len() implies (#[trigger] t[a]).wf() by {
        if a != i {
            assert(t[a] == s[a]);
        }
    }
}

pub proof fn lemma_registry_remove_wf(s: Seq<EntryView>, i: int)
    requires
        registry_wf(s),
        0 <= i < s.len(),
    ensures
        registry_wf(s.remove(i)),
        find(s.remove(i), s[i].config.id) < 0,
{
    let t = s.remove(i);
    assert forall|a: int, b: int|
        0 <= a < t.len() && 0 <= b < t.len() && a != b implies t[a].config.id
        != t[b].config.id by {
        let a2 = if a < i { a } else { a + 1 };
        let b2 = if b < i { b } else { b + 1 };
        assert(t[a] == s[a2]);
        assert(t[b] == s[b2]);
    }
    assert forall|a: int| 0 <= a < t.len() implies (#[trigger] t[a]).wf() by {
        let a2 = if a < i { a } else { a + 1 };
        assert(t[a] == s[a2]);
    }
    if exists|k: int| 0 <= k < t.len() && t[k].config.id == s[i].config.id {
        let k = choose|k: int| 0 <= k < t.len() && t[k].config.id == s[i].config.id;
        let k2 = if k < i { k } else { k + 1 };
        assert(t[k] == s[k2]);
    }
}

/// Positions keep their meaning when an entry is replaced by one with the same id.
pub proof fn lemma_find_update(s: Seq<EntryView>, i: int, e: EntryView, id: u64)
    requires
        registry_wf(s),
        0 <= i < s.len(),
        e.config.id == s[i].config.id,
    ensures
        find(s.update(i, e), id) == find(s, id),
{
    let t = s.update(i, e);
    if exists|k: int| 0 <= k < s.len() && s[k].config.id == id {
        let k = choose|k: int| 0 <= k < s.len() && s[k].config.id == id;
        assert(t[k].config.id == id);
        let k2 = choose|k: int| 0 <= k < t.len() && t[k].config.id == id;
        assert(s[k2].config.id == id);
    } else {
        assert forall|k: int| 0 <= k < t.len() implies t[k].config.id != id by {
            assert(t[k].config.id == s[k].config.id);
        }
    }
}

impl ChainsManager {
    /// An empty registry.
    pub fn new() -> (r: ChainsManager)
        ensures
            r@ == Seq::<EntryView>::empty(),
            registry_wf(r@),
    {
        let r = ChainsManager { entries: Vec::new() };
        assert(r@ =~= Seq::<EntryView>::empty());
        r
    }

    fn find_index(&self, id: u64) -> (r: Option<usize>)
        requires
            registry_wf(self@),
        ensures
            match r {
                Some(i) => i < self@.len() && find(self@, id) == i as int,
                None => find(self@, id) == -1,
            },
    {
        let mut i: usize = 0;
        while i < self.entries.len()
            invariant
                i <= self.entries@.len(),
                self@.len() == self.entries@.len(),
                forall|k: int| 0 <= k < i ==> #[trigger] self@[k].config.id != id,
                registry_wf(self@),
            decreases self.entries@.len() - i,
        {
            assert(self@[i as int] == self.entries@[i as int]@);
            if self.entries[i].config.id == id {
                assert(self@[i as int].config.id == id);
                let ghost c = choose|k: int| 0 <= k < self@.len() && self@[k].config.id == id;
                assert(c == i);
                return Some(i);
            }
            i = i + 1;
        }
        None
    }

    /// Snapshot of every registered chain's configuration, deleted ones left out.
    pub fn list(&self) -> (r: Vec<ChainConfig>)
        ensures
            r@ == listed(self@),
    {
        let mut r: Vec<ChainConfig> = Vec::new();
        let mut i: usize = 0;
        while i < self.entries.len()
            invariant
                i <= self.entries@.len(),
                self@.len() == self.entries@.len(),
                r@ == listed(self@.subrange(0, i as int)),
            decreases self.entries@.len() - i,
        {
            let ghost sub = self@.subrange(0, i + 1);
            assert(sub.drop_last() =~= self@.subrange(0, i as int));
            assert(sub.last() == self.entries@[i as int]@);
            if !self.entries[i].doomed {
                r.push(self.entries[i].config.clone());
            }
            i = i + 1;
        }
        assert(self@.subrange(0, self@.len() as int) =~= self@);
        r
    }

    /// Registers `cfg`, stopped, with fresh log and block channels.
    pub fn create(&mut self, cfg: ChainConfig) -> (r: Result<u64, ManagerError>)
        requires
            registry_wf(old(self)@),
        ensures
            (final(self)@, r) == create_outcome(old(self)@, cfg),
            registry_wf(final(self)@),
    {
        let ghost s = self@;
        match self.find_index(cfg.id) {
            Some(_) => Err(ManagerError::DuplicateId),
            None => {
                let id = cfg.id;
                let mut config = cfg;
                config.status = ChainStatus::Stopped;
                let entry = ChainEntry {
                    config,
                    logs: Broadcaster::new(BACKLOG),
                    blocks: Broadcaster::new(BACKLOG),
                    live: false,
                    connected: false,
                    task: Task::Idle,
                    halt: false,
                    doomed: false,
                };
                assert(entry@ == new_entry(cfg));
                self.entries.push(entry);
                assert(self@ =~= s.push(new_entry(cfg)));
                proof {
                    let t = s.push(new_entry(cfg));
                    assert forall|a: int, b: int|
                        0 <= a < t.len() && 0 <= b < t.len() && a != b implies t[a].config.id
                        != t[b].config.id by {
                        if a == s.len() {
                            assert(s[b].config.id != id);
                        } else if b == s.len() {
                            assert(s[a].config.id != id);
                        }
                    }
                    assert forall|a: int| 0 <= a < t.len() implies (#[trigger] t[a]).wf() by {
                        if a < s.len() {
                            assert(t[a] == s[a]);
                        }
                    }
                }
                Ok(id)
            },
        }
    }

    /// Begins starting the chain `id`: it becomes `Starting`, and the steps
    /// returned from here on launch and connect its node.
    pub fn start(&mut self, id: u64) -> (r: Step)
        requires
            registry_wf(old(self)@),
        ensures
            (final(self)@, r) == start_outcome(old(self)@, id),
            registry_wf(final(self)@),
    {
        let ghost s = self@;
        match self.find_index(id) {
            None => Step::Done(Err(ManagerError::NotFound)),
            Some(i) => {
                assert(s[i as int] == self.entries@[i as int]@);
                if self.entries[i].doomed {
                    return Step::Done(Err(ManagerError::NotFound));
                }
                proof {
                    lemma_begin_wf(s[i as int]);
                }
                let r = self.entries[i].begin_start();
                assert(self@ =~= s.update(i as int, start_entry(s[i as int]).0));
                proof {
                    lemma_registry_update_wf(s, i as int, start_entry(s[i as int]).0);
                }
                r
            },
        }
    }

    /// Begins stopping the chain `id`. A chain without a live process is
    /// stopped at once and its log gets the stop marker. A chain in the
    /// middle of another operation is stopped by that operation's next step.
    pub fn stop(&mut self, id: u64) -> (r: Step)
        requires
            registry_wf(old(self)@),
        ensures
            (final(self)@, r) == stop_outcome(old(self)@, id),
            registry_wf(final(self)@),
    {
        let ghost s = self@;
        match self.find_index(id) {
            None => Step::Done(Err(ManagerError::NotFound)),
            Some(i) => {
                assert(s[i as int] == self.entries@[i as int]@);
                if self.entries[i].doomed {
                    return Step::Done(Err(ManagerError::NotFound));
                }
                proof {
                    lemma_begin_wf(s[i as int]);
                }
                let r = self.entries[i].begin_stop();
                assert(self@ =~= s.update(i as int, stop_entry(s[i as int]).0));
                proof {
                    lemma_registry_update_wf(s, i as int, stop_entry(s[i as int]).0);
                }
                r
            },
        }
    }

    /// Begins a stop followed by a start of the chain `id`.
    pub fn restart(&mut self, id: u64) -> (r: Step)
        requires
            registry_wf(old(self)@),
        ensures
            (final(self)@, r) == restart_outcome(old(self)@, id),
            registry_wf(final(self)@),
    {
        let ghost s = self@;
        match self.find_index(id) {
            None => Step::Done(Err(ManagerError::NotFound)),
            Some(i) => {
                assert(s[i as int] == self.entries@[i as int]@);
                if self.entries[i].doomed {
                    return Step::Done(Err(ManagerError::NotFound));
                }
                proof {
                    lemma_begin_wf(s[i as int]);
                }
                let r = self.entries[i].begin_restart();
                assert(self@ =~= s.update(i as int, restart_entry(s[i as int]).0));
                proof {
                    lemma_registry_update_wf(s, i as int, restart_entry(s[i as int]).0);
                }
                r
            },
        }
    }

    /// Deletes the chain `id`: from now on it is not found. A live process is
    /// terminated first; one whose start is under way is terminated by that
    /// start's next step, and the chain leaves the registry after it.
    pub fn delete(&mut self, id: u64) -> (r: Step)
        requires
            registry_wf(old(self)@),
        ensures
            (final(self)@, r) == delete_outcome(old(self)@, id),
            registry_wf(final(self)@),
    {
        let ghost s = self@;
        match self.find_index(id) {
            None => Step::Done(Err(ManagerError::NotFound)),
            Some(i) => {
                assert(s[i as int] == self.entries@[i as int]@);
                if self.entries[i].doomed {
                    return Step::Done(Err(ManagerError::NotFound));
                }
                if !self.entries[i].task.is_idle() {
                    self.entries[i].doomed = true;
                    let ghost e = EntryView { doomed: true, ..s[i as int] };
                    assert(self@ =~= s.update(i as int, e));
                    proof {
                        lemma_registry_update_wf(s, i as int, e);
                    }
                    Step::Await
                } else if self.entries[i].live {
                    self.entries[i].doomed = true;
                    self.entries[i].task = Task::Killing(AfterKill::Remove);
                    let ghost e = EntryView {
                        doomed: true,
                        task: Task::Killing(AfterKill::Remove),
                        ..s[i as int]
                    };
                    assert(self@ =~= s.update(i as int, e));
                    proof {
                        lemma_registry_update_wf(s, i as int, e);
                    }
                    Step::Kill
                } else {
                    self.entries.remove(i);
                    assert(self@ =~= s.remove(i as int));
                    proof {
                        lemma_registry_remove_wf(s, i as int);
                    }
                    Step::Done(Ok(()))
                }
            },
        }
    }

    /// Hands the chain `id` the outcome of the step it asked for, and
    /// returns the next step.
    pub fn on_event(&mut self, id: u64, ev: Event) -> (r: Step)
        requires
            registry_wf(old(self)@),
        ensures
            (final(self)@, r) == event_outcome(old(self)@, id, ev),
            registry_wf(final(self)@),
    {
        let ghost s = self@;
        match self.find_index(id) {
            None => Step::Done(Err(ManagerError::NotFound)),
            Some(i) => {
                assert(s[i as int] == self.entries@[i as int]@);
                proof {
                    lemma_event_wf(s[i as int], ev);
                }
                let (gone, r) = self.entries[i].on_event(ev);
                if gone {
                    self.entries.remove(i);
                    assert(self@ =~= s.remove(i as int));
                    proof {
                        lemma_registry_remove_wf(s, i as int);
                    }
                } else {
                    let ghost e = entry_event(s[i as int], ev).0->Some_0;
                    assert(self@ =~= s.update(i as int, e));
                    proof {
                        lemma_registry_update_wf(s, i as int, e);
                    }
                }
                r
            },
        }
    }

    /// A new subscription to the log of the chain `id`.
    pub fn subscribe_logs(&mut self, id: u64) -> (r: Result<usize, ManagerError>)
        requires
            registry_wf(old(self)@),
        ensures
            (final(self)@, r) == subscribe_logs_outcome(old(self)@, id),
            registry_wf(final(self)@),
    {
        let ghost s = self@;
        match self.find_index(id) {
            None => Err(ManagerError::NotFound),
            Some(i) => {
                assert(s[i as int] == self.entries@[i as int]@);
                if self.entries[i].doomed {
                    return Err(ManagerError::NotFound);
                }
                if self.entries[i].logs.subscriber_count() == usize::MAX {
                    return Err(ManagerError::Busy);
                }
                proof {
                    lemma_subscribe_receive_wf(s[i as int].logs, 0);
                }
                let sub = self.entries[i].logs.subscribe();
                let ghost e = EntryView { logs: s[i as int].logs.subscribe(), ..s[i as int] };
                assert(self@ =~= s.update(i as int, e));
                proof {
                    lemma_registry_update_wf(s, i as int, e);
                }
                Ok(sub)
            },
        }
    }

    /// A new subscription to the block events of the chain `id`.
    pub fn subscribe_blocks(&mut self, id: u64) -> (r: Result<usize, ManagerError>)
        requires
            registry_wf(old(self)@),
        ensures
            (final(self)@, r) == subscribe_blocks_outcome(old(self)@, id),
            registry_wf(final(self)@),
    {
        let ghost s = self@;
        match self.find_index(id) {
            None => Err(ManagerError::NotFound),
            Some(i) => {
                assert(s[i as int] == self.entries@[i as int]@);
                if self.entries[i].doomed {
                    return Err(ManagerError::NotFound);
                }
                if self.entries[i].blocks.subscriber_count() == usize::MAX {
                    return Err(ManagerError::Busy);
                }
                proof {
                    lemma_subscribe_receive_wf(s[i as int].blocks, 0);
                }
                let sub = self.entries[i].blocks.subscribe();
                let ghost e = EntryView { blocks: s[i as int].blocks.subscribe(), ..s[i as int] };
                assert(self@ =~= s.update(i as int, e));
                proof {
                    lemma_registry_update_wf(s, i as int, e);
                }
                Ok(sub)
            },
        }
    }

    /// The next log item for subscription `sub` of the chain `id`.
    pub fn next_log(&mut self, id: u64, sub: usize) -> (r: Result<Received<LogLine>, ManagerError>)
        requires
            registry_wf(old(self)@),
        ensures
            (final(self)@, r) == next_log_outcome(old(self)@, id, sub),
            registry_wf(final(self)@),
    {
        let ghost s = self@;
        match self.find_index(id) {
            None => Err(ManagerError::NotFound),
            Some(i) => {
                assert(s[i as int] == self.entries@[i as int]@);
                if self.entries[i].doomed || sub >= self.entries[i].logs.subscriber_count() {
                    return Err(ManagerError::NotFound);
                }
                proof {
                    lemma_subscribe_receive_wf(s[i as int].logs, sub as int);
                }
                let got = self.entries[i].logs.receive(sub);
                let ghost e = EntryView {
                    logs: s[i as int].logs.receive(sub as int),
                    ..s[i as int]
                };
                assert(self@ =~= s.update(i as int, e));
                proof {
                    lemma_registry_update_wf(s, i as int, e);
                }
                Ok(got)
            },
        }
    }

    /// The next block event for subscription `sub` of the chain `id`.
    pub fn next_block(&mut self, id: u64, sub: usize) -> (r: Result<Received<Block>, ManagerError>)
        requires
            registry_wf(old(self)@),
        ensures
            (final(self)@, r) == next_block_outcome(old(self)@, id, sub),
            registry_wf(final(self)@),
    {
        let ghost s = self@;
        match self.find_index(id) {
            None => Err(ManagerError::NotFound),
            Some(i) => {
                assert(s[i as int] == self.entries@[i as int]@);
                if self.entries[i].doomed || sub >= self.entries[i].blocks.subscriber_count() {
                    return Err(ManagerError::NotFound);
                }
                proof {
                    lemma_subscribe_receive_wf(s[i as int].blocks, sub as int);
                }
                let got = self.entries[i].blocks.receive(sub);
                let ghost e = EntryView {
                    blocks: s[i as int].blocks.receive(sub as int),
                    ..s[i as int]
                };
                assert(self@ =~= s.update(i as int, e));
                proof {
                    lemma_registry_update_wf(s, i as int, e);
                }
                Ok(got)
            },
        }
    }

    /// Publishes a line of the node's output to every log subscriber of `id`.
    pub fn publish_log(&mut self, id: u64, line: LogLine) -> (r: Result<(), ManagerError>)
        requires
            registry_wf(old(self)@),
        ensures
            (final(self)@, r) == publish_log_outcome(old(self)@, id, line),
            registry_wf(final(self)@),
    {
        let ghost s = self@;
        match self.find_index(id) {
            None => Err(ManagerError::NotFound),
            Some(i) => {
                assert(s[i as int] == self.entries@[i as int]@);
                if self.entries[i].doomed {
                    return Err(ManagerError::NotFound);
                }
                proof {
                    lemma_publish_wf(s[i as int].logs, line);
                }
                self.entries[i].logs.publish(line);
                let ghost e = EntryView { logs: s[i as int].logs.publish(line), ..s[i as int] };
                assert(self@ =~= s.update(i as int, e));
                proof {
                    lemma_registry_update_wf(s, i as int, e);
                }
                Ok(())
            },
        }
    }

    /// Publishes a new head of the chain `id` to every block subscriber.
    pub fn publish_block(&mut self, id: u64, block: Block) -> (r: Result<(), ManagerError>)
        requires
            registry_wf(old(self)@),
        ensures
            (final(self)@, r) == publish_block_outcome(old(self)@, id, block),
            registry_wf(final(self)@),
    {
        let ghost s = self@;
        match self.find_index(id) {
            None => Err(ManagerError::NotFound),
            Some(i) => {
                assert(s[i as int] == self.entries@[i as int]@);
                if self.entries[i].doomed {
                    return Err(ManagerError::NotFound);
                }
                proof {
                    lemma_publish_wf(s[i as int].blocks, block);
                }
                self.entries[i].blocks.publish(block);
                let ghost e = EntryView {
                    blocks: s[i as int].blocks.publish(block),
                    ..s[i as int]
                };
                assert(self@ =~= s.update(i as int, e));
                proof {
                    lemma_registry_update_wf(s, i as int, e);
                }
                Ok(())
            },
        }
    }

    /// Whether a block query can be routed to the chain `id`: it must be
    /// registered and hold an open RPC connection.
    pub fn query(&self, id: u64) -> (r: Result<(), ManagerError>)
        requires
            registry_wf(self@),
        ensures
            r == query_outcome(self@, id),
    {
        match self.find_index(id) {
            None => Err(ManagerError::NotFound),
            Some(i) => {
                assert(self@[i as int] == self.entries@[i as int]@);
                if self.entries[i].doomed {
                    Err(ManagerError::NotFound)
                } else if !self.entries[i].connected {
                    Err(ManagerError::NotConnected)
                } else {
                    Ok(())
                }
            },
        }
    }

    /// The configuration of the chain `id`.
    pub fn config(&self, id: u64) -> (r: Result<ChainConfig, ManagerError>)
        requires
            registry_wf(self@),
        ensures
            r == (if visible(self@, id) {
                Ok::<ChainConfig, ManagerError>(self@[find(self@, id)].config)
            } else {
                Err(ManagerError::NotFound)
            }),
    {
        match self.find_index(id) {
            None => Err(ManagerError::NotFound),
            Some(i) => {
                assert(self@[i as int] == self.entries@[i as int]@);
                if self.entries[i].doomed {
                    Err(ManagerError::NotFound)
                } else {
                    Ok(self.entries[i].config.clone())
                }
            },
        }
    }

    /// Whether the chain `id` is still held, deleted or not; a deleted chain
    /// is held until its process is gone.
    pub fn holds(&self, id: u64) -> (r: bool)
        requires
            registry_wf(self@),
        ensures
            r == (find(self@, id) >= 0),
    {
        self.find_index(id).is_some()
    }

    /// Whether the chain `id` has no operation under way, or is gone.
    pub fn settled(&self, id: u64) -> (r: bool)
        requires
            registry_wf(self@),
        ensures
            r == (find(self@, id) < 0 || self@[find(self@, id)].task is Idle),
    {
        match self.find_index(id) {
            None => true,
            Some(i) => {
                assert(self@[i as int] == self.entries@[i as int]@);
                self.entries[i].task.is_idle()
            },
        }
    }
}

} // verus!
