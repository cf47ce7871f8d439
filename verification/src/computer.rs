//! The mission computer: a single-consumer state machine that owns at
//! most one in-flight timed firing action.
//!
//! The computer never performs the timed action itself: each transition
//! returns a [`FiringDirective`] telling the surrounding runtime to spawn
//! or abort the timer task. A ghost log records every action ever
//! spawned, with its current status, so that the lifecycle laws — at most
//! one action alive, a cancelled action never fires — are stated and
//! proved over whole histories, not single steps.
//!
//! Policy on `Start` while already armed: the first countdown wins; the
//! command is ignored until the armed action is cancelled, reset, or
//! fires. A fired countdown keeps the computer in a distinct `Fired`
//! state (observably different from never-armed for audit purposes); both
//! `Fired` and `Idle` accept a new `Start`.

use vstd::prelude::*;
use crate::command::CountdownCommand;
use crate::conduit::Conduit;
use crate::conduit::ConduitPoll;
use crate::conduit::lemma_burst_coalesces;
use crate::conduit::observe;
use crate::conduit::publish_all;

verus! {

/// Observable state of the mission computer.
#[derive(Clone, Copy, Debug, PartialEq, Eq, Structural)]
pub enum CountdownState {
    /// No countdown in flight and none fired since the last reset.
    Idle,
    /// A timed firing action with the given delay is in flight.
    Armed { seconds: u64 },
    /// The last countdown ran to completion and fired.
    Fired,
}

/// What the runtime must do right after a transition.
#[derive(Clone, Copy, Debug, PartialEq, Eq, Structural)]
pub enum FiringDirective {
    /// Spawn a timed firing action with the given delay in seconds.
    SpawnTimer { seconds: u64 },
    /// Abort the action in flight; it must never fire afterwards.
    AbortTimer,
    /// Nothing to do.
    NoEffect,
}

/// Status of one spawned timed action.
pub enum ActionStatus {
    /// Spawned and neither cancelled nor fired yet.
    Running,
    /// Aborted before its delay elapsed; it will never fire.
    Cancelled,
    /// Its delay elapsed and it emitted its firing notification.
    Fired,
}

/// One timed action the computer has ever spawned.
pub struct ActionRecord {
    /// The delay the action was started with.
    pub seconds: u64,
    /// Where the action stands now.
    pub status: ActionStatus,
}

/// Everything the computer reacts to: a delivered command, or the
/// in-flight action running to completion.
pub enum MissionEvent {
    /// A command observed on the conduit.
    Command(CountdownCommand),
    /// The in-flight action's delay elapsed and it fired.
    Elapsed,
}

/// Ghost model of a mission computer: its state together with the full
/// log of actions it ever spawned, in spawn order.
#[verifier::ext_equal]
pub struct MissionModel {
    pub state: CountdownState,
    pub log: Seq<ActionRecord>,
}

/// Number of records still running.
pub open spec fn running_count(log: Seq<ActionRecord>) -> int
    decreases log.len(),
{
    if log.len() == 0 {
        0
    } else {
        running_count(log.drop_last()) + if log.last().status is Running {
            1int
        } else {
            0int
        }
    }
}

/// The log's last record, rewritten with the given status.
pub open spec fn close_last(log: Seq<ActionRecord>, status: ActionStatus) -> Seq<ActionRecord> {
    log.update(log.len() - 1, ActionRecord { seconds: log.last().seconds, status })
}

impl MissionModel {
    /// Well-formedness: the state names the live action exactly. Armed
    /// means the newest record runs and nothing older does; otherwise no
    /// record runs at all.
    pub open spec fn wf(self) -> bool {
        match self.state {
            CountdownState::Armed { seconds } => {
                &&& self.log.len() > 0
                &&& self.log.last().status is Running
                &&& self.log.last().seconds == seconds
                &&& forall|i: int|
                    0 <= i < self.log.len() - 1 ==> !(self.log[i].status is Running)
            },
            _ => forall|i: int| 0 <= i < self.log.len() ==> !(self.log[i].status is Running),
        }
    }
}

/// The transition a delivered command causes.
pub open spec fn step_command(m: MissionModel, c: CountdownCommand) -> MissionModel {
    match c {
        CountdownCommand::Start(s) => match m.state {
            CountdownState::Armed { .. } => m,
            _ => MissionModel {
                state: CountdownState::Armed { seconds: s },
                log: m.log.push(ActionRecord { seconds: s, status: ActionStatus::Running }),
            },
        },
        CountdownCommand::Cancel => match m.state {
            CountdownState::Armed { .. } => MissionModel {
                state: CountdownState::Idle,
                log: close_last(m.log, ActionStatus::Cancelled),
            },
            _ => m,
        },
        CountdownCommand::Reset => match m.state {
            CountdownState::Armed { .. } => MissionModel {
                state: CountdownState::Idle,
                log: close_last(m.log, ActionStatus::Cancelled),
            },
            CountdownState::Fired => MissionModel { state: CountdownState::Idle, log: m.log },
            CountdownState::Idle => m,
        },
        CountdownCommand::Invalid => m,
    }
}

/// The transition caused by the in-flight action firing.
pub open spec fn step_elapsed(m: MissionModel) -> MissionModel {
    match m.state {
        CountdownState::Armed { .. } => MissionModel {
            state: CountdownState::Fired,
            log: close_last(m.log, ActionStatus::Fired),
        },
        _ => m,
    }
}

/// The transition any event causes.
pub open spec fn step(m: MissionModel, e: MissionEvent) -> MissionModel {
    match e {
        MissionEvent::Command(c) => step_command(m, c),
        MissionEvent::Elapsed => step_elapsed(m),
    }
}

/// The directive the runtime must carry out for an event.
pub open spec fn directive_of(m: MissionModel, e: MissionEvent) -> FiringDirective {
    match e {
        MissionEvent::Command(c) => match c {
            CountdownCommand::Start(s) => match m.state {
                CountdownState::Armed { .. } => FiringDirective::NoEffect,
                _ => FiringDirective::SpawnTimer { seconds: s },
            },
            CountdownCommand::Cancel => match m.state {
                CountdownState::Armed { .. } => FiringDirective::AbortTimer,
                _ => FiringDirective::NoEffect,
            },
            CountdownCommand::Reset => match m.state {
                CountdownState::Armed { .. } => FiringDirective::AbortTimer,
                _ => FiringDirective::NoEffect,
            },
            CountdownCommand::Invalid => FiringDirective::NoEffect,
        },
        MissionEvent::Elapsed => FiringDirective::NoEffect,
    }
}

/// The model after a whole sequence of events.
pub open spec fn run_events(m: MissionModel, es: Seq<MissionEvent>) -> MissionModel
    decreases es.len(),
{
    if es.len() == 0 {
        m
    } else {
        run_events(step(m, es[0]), es.skip(1))
    }
}

/// A log in which no record runs counts no running record.
proof fn lemma_none_running_count(log: Seq<ActionRecord>)
    requires
        forall|i: int| 0 <= i < log.len() ==> !(log[i].status is Running),
    ensures
        running_count(log) == 0,
    decreases log.len(),
{
    if log.len() > 0 {
        lemma_none_running_count(log.drop_last());
    }
}

/// Law: a well-formed computer has at most one action alive, whatever
/// history brought it here.
pub proof fn lemma_at_most_one_running(m: MissionModel)
    requires
        m.wf(),
    ensures
        running_count(m.log) <= 1,
{
    match m.state {
        CountdownState::Armed { .. } => {
            lemma_none_running_count(m.log.drop_last());
            assert(running_count(m.log) == running_count(m.log.drop_last()) + 1);
        },
        _ => {
            lemma_none_running_count(m.log);
        },
    }
}

/// One step keeps the model well-formed, only ever appends to the log,
/// and never touches a record that was already settled.
pub proof fn lemma_step_preserves(m: MissionModel, e: MissionEvent)
    requires
        m.wf(),
    ensures
        step(m, e).wf(),
        step(m, e).log.len() >= m.log.len(),
        forall|i: int|
            0 <= i < m.log.len() && !(m.log[i].status is Running) ==> step(m, e).log[i]
                == m.log[i],
{
    let m2 = step(m, e);
    assert forall|i: int|
        0 <= i < m.log.len() && !(m.log[i].status is Running) implies m2.log[i] == m.log[i] by {
        if m.state is Armed {
            assert(i != m.log.len() - 1);
        }
    }
}

/// Law: at most one timed action is alive at every instant of every run.
/// After any prefix of any event sequence, the computer is well-formed
/// and no two actions run at once.
pub proof fn lemma_always_at_most_one_alive(m: MissionModel, es: Seq<MissionEvent>)
    requires
        m.wf(),
    ensures
        run_events(m, es).wf(),
        running_count(run_events(m, es).log) <= 1,
    decreases es.len(),
{
    if es.len() == 0 {
        lemma_at_most_one_running(m);
    } else {
        lemma_step_preserves(m, es[0]);
        lemma_always_at_most_one_alive(step(m, es[0]), es.skip(1));
    }
}

/// Law: an action fires at most once. Once a record is `Fired`, it
/// stays `Fired` under every later sequence of events: a second firing
/// of the same action would have to pass through `Running` again, and
/// no event ever does that.
pub proof fn lemma_fires_at_most_once(m: MissionModel, es: Seq<MissionEvent>, k: int)
    requires
        m.wf(),
        0 <= k < m.log.len(),
        m.log[k].status is Fired,
    ensures
        0 <= k < run_events(m, es).log.len(),
        run_events(m, es).log[k].status is Fired,
    decreases es.len(),
{
    if es.len() > 0 {
        lemma_step_preserves(m, es[0]);
        lemma_fires_at_most_once(step(m, es[0]), es.skip(1), k);
    }
}

/// Law: a cancelled action never fires. Once a record is `Cancelled`,
/// it stays `Cancelled` under every later sequence of events.
pub proof fn lemma_cancelled_never_fires(m: MissionModel, es: Seq<MissionEvent>, k: int)
    requires
        m.wf(),
        0 <= k < m.log.len(),
        m.log[k].status is Cancelled,
    ensures
        0 <= k < run_events(m, es).log.len(),
        run_events(m, es).log[k].status is Cancelled,
    decreases es.len(),
{
    if es.len() > 0 {
        lemma_step_preserves(m, es[0]);
        lemma_cancelled_never_fires(step(m, es[0]), es.skip(1), k);
    }
}

/// Law: starting while idle arms the computer with the requested delay
/// and spawns exactly one new action, recorded as running.
pub proof fn lemma_start_while_idle(m: MissionModel, s: u64)
    requires
        m.wf(),
        m.state is Idle,
    ensures
        ({
            let m2 = step_command(m, CountdownCommand::Start(s));
            &&& m2.state == (CountdownState::Armed { seconds: s })
            &&& m2.log == m.log.push(
                ActionRecord { seconds: s, status: ActionStatus::Running },
            )
            &&& running_count(m2.log) == 1
            &&& directive_of(m, MissionEvent::Command(CountdownCommand::Start(s)))
                == (FiringDirective::SpawnTimer { seconds: s })
        }),
{
    let m2 = step_command(m, CountdownCommand::Start(s));
    assert(m2.log.drop_last() =~= m.log);
    lemma_none_running_count(m.log);
}

/// Law: cancel while armed goes to idle, directs the runtime to abort,
/// and settles the spawned action as cancelled.
pub proof fn lemma_cancel_while_armed(m: MissionModel)
    requires
        m.wf(),
        m.state is Armed,
    ensures
        ({
            let m2 = step_command(m, CountdownCommand::Cancel);
            &&& m2.state is Idle
            &&& m2.log.last().status is Cancelled
            &&& running_count(m2.log) == 0
            &&& directive_of(m, MissionEvent::Command(CountdownCommand::Cancel))
                == FiringDirective::AbortTimer
        }),
{
    let m2 = step_command(m, CountdownCommand::Cancel);
    lemma_step_preserves(m, MissionEvent::Command(CountdownCommand::Cancel));
    lemma_none_running_count(m2.log);
}

/// Law: cancel while idle is a no-op: the model is unchanged and the
/// runtime is directed to do nothing.
pub proof fn lemma_cancel_while_idle(m: MissionModel)
    requires
        m.wf(),
        m.state is Idle,
    ensures
        step_command(m, CountdownCommand::Cancel) == m,
        directive_of(m, MissionEvent::Command(CountdownCommand::Cancel))
            == FiringDirective::NoEffect,
{
}

/// Law: a start command overtaken by a cancel is never acted on. If a
/// burst of publishes ends in `Cancel`, an idle computer either sees
/// nothing at all or sees exactly that `Cancel`: it stays idle and no
/// timer is ever spawned, whatever was published in between.
pub proof fn lemma_overtaken_start_never_spawns(
    con: Conduit,
    values: Seq<CountdownCommand>,
    m: MissionModel,
)
    requires
        m.wf(),
        m.state is Idle,
        values.len() > 0,
        values.last() == CountdownCommand::Cancel,
    ensures
        ({
            let poll = observe(publish_all(con, values)).1;
            match poll {
                ConduitPoll::Changed(c) => {
                    &&& c == CountdownCommand::Cancel
                    &&& step_command(m, c) == m
                    &&& directive_of(m, MissionEvent::Command(c)) == FiringDirective::NoEffect
                },
                ConduitPoll::Pending => true,
                ConduitPoll::Closed => true,
            }
        }),
{
    lemma_burst_coalesces(con, values);
}

/// The mission computer. It consumes commands one at a time; the
/// surrounding runtime owns the actual timer task and carries out each
/// returned directive before delivering the next event.
pub struct MissionComputer {
    /// Current state.
    pub state: CountdownState,
    /// Every action ever spawned, in spawn order.
    pub log: Ghost<Seq<ActionRecord>>,
}

impl View for MissionComputer {
    type V = MissionModel;

    open spec fn view(&self) -> MissionModel {
        MissionModel { state: self.state, log: self.log@ }
    }
}

impl MissionComputer {
    /// A fresh computer: idle, nothing ever spawned.
    pub fn new() -> (c: MissionComputer)
        ensures
            c@.state is Idle,
            c@.log == Seq::<ActionRecord>::empty(),
            c@.wf(),
    {
        MissionComputer { state: CountdownState::Idle, log: Ghost(Seq::empty()) }
    }

    /// Current state, for the runtime and for observers.
    pub fn state(&self) -> (s: CountdownState)
        ensures
            s == self@.state,
    {
        self.state
    }

    /// Consume one command: transition exactly as [`step_command`] says
    /// and return the directive of [`directive_of`]. A spawn is only
    /// ever directed when no action is alive.
    pub fn handle_command(&mut self, command: CountdownCommand) -> (d: FiringDirective)
        requires
            old(self)@.wf(),
        ensures
            final(self)@ == step_command(old(self)@, command),
            d == directive_of(old(self)@, MissionEvent::Command(command)),
            final(self)@.wf(),
            d is SpawnTimer ==> running_count(old(self)@.log) == 0,
    {
        proof {
            lemma_step_preserves(old(self)@, MissionEvent::Command(command));
        }
        match command {
            CountdownCommand::Start(seconds) => match self.state {
                CountdownState::Armed { .. } => FiringDirective::NoEffect,
                _ => {
                    proof {
                        lemma_none_running_count(self.log@);
                    }
                    self.state = CountdownState::Armed { seconds };
                    self.log = Ghost(
                        self.log@.push(
                            ActionRecord { seconds, status: ActionStatus::Running },
                        ),
                    );
                    FiringDirective::SpawnTimer { seconds }
                },
            },
            CountdownCommand::Cancel => match self.state {
                CountdownState::Armed { .. } => {
                    self.state = CountdownState::Idle;
                    self.log = Ghost(close_last(self.log@, ActionStatus::Cancelled));
                    FiringDirective::AbortTimer
                },
                _ => FiringDirective::NoEffect,
            },
            CountdownCommand::Reset => match self.state {
                CountdownState::Armed { .. } => {
                    self.state = CountdownState::Idle;
                    self.log = Ghost(close_last(self.log@, ActionStatus::Cancelled));
                    FiringDirective::AbortTimer
                },
                CountdownState::Fired => {
                    self.state = CountdownState::Idle;
                    FiringDirective::NoEffect
                },
                CountdownState::Idle => FiringDirective::NoEffect,
            },
            CountdownCommand::Invalid => FiringDirective::NoEffect,
        }
    }

    /// The runtime reports that the in-flight action ran to completion
    /// and fired. Settles the record and moves to `Fired`; a no-op in
    /// any state without an action in flight.
    pub fn note_elapsed(&mut self)
        requires
            old(self)@.wf(),
        ensures
            final(self)@ == step_elapsed(old(self)@),
            final(self)@.wf(),
    {
        proof {
            lemma_step_preserves(old(self)@, MissionEvent::Elapsed);
        }
        match self.state {
            CountdownState::Armed { .. } => {
                self.state = CountdownState::Fired;
                self.log = Ghost(close_last(self.log@, ActionStatus::Fired));
            },
            _ => (),
        }
    }

    /// One turn of the run loop: poll the conduit, consume what it
    /// yields. Closure of the conduit terminates the loop — the caller
    /// must treat [`RunStep::Terminate`] as fatal — and a closed conduit
    /// never leaves the consumer suspended.
    pub fn run_step(&mut self, conduit: &mut Conduit) -> (r: RunStep)
        requires
            old(self)@.wf(),
        ensures
            final(self)@.wf(),
            *final(conduit) == observe(*old(conduit)).0,
            ({
                let poll = observe(*old(conduit)).1;
                match poll {
                    ConduitPoll::Changed(c) => {
                        &&& final(self)@ == step_command(old(self)@, c)
                        &&& r == RunStep::Acted(
                            directive_of(old(self)@, MissionEvent::Command(c)),
                        )
                    },
                    ConduitPoll::Pending => {
                        &&& r == RunStep::Suspend
                        &&& *final(self) == *old(self)
                    },
                    ConduitPoll::Closed => {
                        &&& r == RunStep::Terminate
                        &&& *final(self) == *old(self)
                    },
                }
            }),
            !old(conduit).producers_alive ==> r != RunStep::Suspend,
    {
        match conduit.next_change() {
            ConduitPoll::Changed(c) => RunStep::Acted(self.handle_command(c)),
            ConduitPoll::Pending => RunStep::Suspend,
            ConduitPoll::Closed => RunStep::Terminate,
        }
    }
}

/// Outcome of one turn of the run loop.
#[derive(Clone, Copy, Debug, PartialEq, Eq, Structural)]
pub enum RunStep {
    /// A command was consumed; the runtime must carry out the directive.
    Acted(FiringDirective),
    /// Nothing new: the consumer suspends until the next publish.
    Suspend,
    /// All producers are gone; the run loop ends with this fatal
    /// condition.
    Terminate,
}

} // verus!
