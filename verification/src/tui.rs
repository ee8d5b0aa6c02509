//! The dispatcher side of the event loop: the events it consumes, the
//! actions it hands back to its surroundings (waking the refresh thread,
//! spawning shell commands, exiting), the set of in-flight foreground
//! executions that suppresses key handling, and the refresh actor's
//! run/sleep/wake discipline.

use crate::keybindings::{handle_key, spec_lookup, Key, Keybindings, MoveCursor, OpView, SelectOperation};
use crate::stateful_list::StatefulList;
use crate::stateful_list::{
    spec_current_line, spec_down, spec_first, spec_last, spec_select, spec_select_all,
    spec_select_toggle, spec_set_lines, spec_unselect, spec_unselect_all, spec_up, ListView,
};
use vstd::prelude::*;

verus! {

// ---------------------------------------------------------------------------
// Events and requested actions
// ---------------------------------------------------------------------------

/// An event the dispatcher consumes: a key press from the input thread, or
/// the outcome of one watched-command run from the refresh thread (its
/// output lines, or the failure to be surfaced).
pub enum Event {
    KeyPressed(Key),
    CommandOutput(Result<Vec<String>, String>),
}

/// Mathematical value of an `Event`.
pub ghost enum EventView {
    KeyPressed(Key),
    CommandOutput(Result<Seq<Seq<char>>, Seq<char>>),
}

impl View for Event {
    type V = EventView;

    open spec fn view(&self) -> EventView {
        match self {
            Event::KeyPressed(k) => EventView::KeyPressed(*k),
            Event::CommandOutput(r) => EventView::CommandOutput(
                match r {
                    Ok(lines) => Ok(lines.deep_view()),
                    Err(msg) => Err(msg@),
                },
            ),
        }
    }
}

/// One shell invocation handed to the runner: the command template and the
/// line under the cursor at the moment the operation ran, for placeholder
/// substitution.
#[derive(Debug, PartialEq, Eq, Clone)]
pub struct PendingExecution {
    pub command: String,
    pub line: Option<String>,
}

/// Mathematical value of a `PendingExecution`.
pub ghost struct PendingExecutionView {
    pub command: Seq<char>,
    pub line: Option<Seq<char>>,
}

impl View for PendingExecution {
    type V = PendingExecutionView;

    open spec fn view(&self) -> PendingExecutionView {
        PendingExecutionView { command: self.command@, line: self.line.deep_view() }
    }
}

/// What one executed operation asks the surroundings to do: nothing beyond
/// the state change, wake the refresh thread, run a foreground command whose
/// completion must be reported back, run a detached command that is never
/// awaited, or stop the loop.
#[derive(Debug, PartialEq, Eq, Clone)]
pub enum RequestedAction {
    Continue,
    Reload,
    Block(PendingExecution),
    Detach(PendingExecution),
    Exit,
}

/// Mathematical value of a `RequestedAction`.
pub ghost enum ActionView {
    Continue,
    Reload,
    Block(PendingExecutionView),
    Detach(PendingExecutionView),
    Exit,
}

impl View for RequestedAction {
    type V = ActionView;

    open spec fn view(&self) -> ActionView {
        match self {
            RequestedAction::Continue => ActionView::Continue,
            RequestedAction::Reload => ActionView::Reload,
            RequestedAction::Block(p) => ActionView::Block(p@),
            RequestedAction::Detach(p) => ActionView::Detach(p@),
            RequestedAction::Exit => ActionView::Exit,
        }
    }
}

impl DeepView for RequestedAction {
    type V = ActionView;

    open spec fn deep_view(&self) -> ActionView {
        self@
    }
}

// ---------------------------------------------------------------------------
// Executing operations, in the mathematical model
// ---------------------------------------------------------------------------

/// The list state after a cursor movement.
pub open spec fn spec_move_cursor(st: ListView, m: MoveCursor) -> ListView {
    match m {
        MoveCursor::Down(n) => spec_down(st, n as nat),
        MoveCursor::Up(n) => spec_up(st, n as nat),
        MoveCursor::First => spec_first(st),
        MoveCursor::Last => spec_last(st),
    }
}

/// The list state after a selection change.
pub open spec fn spec_select_line(st: ListView, s: SelectOperation) -> ListView {
    match s {
        SelectOperation::Select => spec_select(st),
        SelectOperation::Unselect => spec_unselect(st),
        SelectOperation::Toggle => spec_select_toggle(st),
        SelectOperation::SelectAll => spec_select_all(st),
        SelectOperation::UnselectAll => spec_unselect_all(st),
    }
}

/// Executing one operation: the new list state, and the requested action.
/// A command captures the line under the cursor at this moment.
pub open spec fn spec_exec_operation(op: OpView, st: ListView) -> (ListView, ActionView) {
    match op {
        OpView::Exit => (st, ActionView::Exit),
        OpView::Reload => (st, ActionView::Reload),
        OpView::MoveCursor(m) => (spec_move_cursor(st, m), ActionView::Continue),
        OpView::SelectLine(s) => (spec_select_line(st, s), ActionView::Continue),
        OpView::Execute(c) => (
            st,
            if c.background {
                ActionView::Detach(
                    PendingExecutionView { command: c.command, line: spec_current_line(st) },
                )
            } else {
                ActionView::Block(
                    PendingExecutionView { command: c.command, line: spec_current_line(st) },
                )
            },
        ),
    }
}

/// Executing one operation preserves list well-formedness.
pub proof fn lemma_exec_operation_wf(op: OpView, st: ListView)
    requires
        st.wf(),
    ensures
        spec_exec_operation(op, st).0.wf(),
{
}

/// The outcome of running a sequence of operations: the final list state,
/// the requested actions in order, and whether `exit` stopped the run.
pub ghost struct RunView {
    pub st: ListView,
    pub actions: Seq<ActionView>,
    pub exited: bool,
}

/// Runs bound operations in order; `exit` stops the run at once, so nothing
/// after it is executed.
pub open spec fn spec_run_ops(ops: Seq<OpView>, st: ListView) -> RunView
    decreases ops.len(),
{
    if ops.len() == 0 {
        RunView { st, actions: Seq::empty(), exited: false }
    } else if ops[0] is Exit {
        RunView { st, actions: seq![ActionView::Exit], exited: true }
    } else {
        let (st1, a) = spec_exec_operation(ops[0], st);
        let rest = spec_run_ops(ops.drop_first(), st1);
        RunView { st: rest.st, actions: seq![a] + rest.actions, exited: rest.exited }
    }
}

/// Running operations preserves list well-formedness.
pub proof fn lemma_run_ops_wf(ops: Seq<OpView>, st: ListView)
    requires
        st.wf(),
    ensures
        spec_run_ops(ops, st).st.wf(),
    decreases ops.len(),
{
    if ops.len() > 0 && !(ops[0] is Exit) {
        lemma_exec_operation_wf(ops[0], st);
        lemma_run_ops_wf(ops.drop_first(), spec_exec_operation(ops[0], st).0);
    }
}

// ---------------------------------------------------------------------------
// The blocking set
// ---------------------------------------------------------------------------

/// The set of in-flight foreground executions, counted: while it is
/// non-empty the dispatcher ignores key presses. The completion handles
/// themselves live with the runner that spawned the commands; it reports
/// each completion back through `Dispatcher::resolve`.
pub struct Blocking {
    waiting_for: usize,
}

impl View for Blocking {
    type V = nat;

    closed spec fn view(&self) -> nat {
        self.waiting_for as nat
    }
}

impl Blocking {
    /// An empty blocking set.
    pub fn new() -> (b: Blocking)
        ensures
            b@ == 0,
    {
        Blocking { waiting_for: 0 }
    }

    /// Tracks one more in-flight foreground execution.
    pub fn add(&mut self)
        requires
            old(self)@ < usize::MAX,
        ensures
            final(self)@ == old(self)@ + 1,
    {
        self.waiting_for = self.waiting_for + 1;
    }

    /// Whether no execution is in flight, so keys may be handled.
    pub fn ready(&self) -> (r: bool)
        ensures
            r == (self@ == 0),
    {
        self.waiting_for == 0
    }

    /// Discards one in-flight execution, because it resolved.
    pub fn resolve(&mut self)
        ensures
            final(self)@ == if old(self)@ > 0 {
                (old(self)@ - 1) as nat
            } else {
                0nat
            },
    {
        if self.waiting_for > 0 {
            self.waiting_for = self.waiting_for - 1;
        }
    }
}

// ---------------------------------------------------------------------------
// The dispatcher
// ---------------------------------------------------------------------------

/// How many of the requested actions are foreground executions.
pub open spec fn spec_count_blocks(acts: Seq<ActionView>) -> nat
    decreases acts.len(),
{
    if acts.len() == 0 {
        0
    } else {
        spec_count_blocks(acts.drop_last()) + if acts.last() is Block {
            1nat
        } else {
            0nat
        }
    }
}

pub proof fn lemma_count_blocks_le(acts: Seq<ActionView>)
    ensures
        spec_count_blocks(acts) <= acts.len(),
    decreases acts.len(),
{
    if acts.len() > 0 {
        lemma_count_blocks_le(acts.drop_last());
    }
}

/// Mathematical snapshot of the dispatcher: the list it owns, how many
/// foreground executions are in flight, the last runtime failure to
/// surface, and whether `exit` was requested.
pub ghost struct DispatcherView {
    pub list: ListView,
    pub pending: nat,
    pub last_error: Option<Seq<char>>,
    pub exited: bool,
}

/// One dispatch step. Command output is applied unconditionally, even while
/// executions are in flight: freshness is never deferred. A key press is
/// handled only when nothing is in flight and the dispatcher has not exited;
/// its operations run in order, foreground executions join the blocking set,
/// and `exit` stops everything.
pub open spec fn spec_handle_event(
    d: DispatcherView,
    kb: Seq<(Key, Seq<OpView>)>,
    ev: EventView,
) -> (DispatcherView, Seq<ActionView>) {
    if d.exited {
        (d, Seq::empty())
    } else {
        match ev {
            EventView::CommandOutput(Ok(lines)) => (
                DispatcherView { list: spec_set_lines(d.list, lines), last_error: None, ..d },
                Seq::empty(),
            ),
            EventView::CommandOutput(Err(msg)) => (
                DispatcherView { last_error: Some(msg), ..d },
                Seq::empty(),
            ),
            EventView::KeyPressed(k) => {
                if d.pending > 0 {
                    (d, Seq::empty())
                } else {
                    let run = match spec_lookup(kb, k) {
                        Some(ops) => spec_run_ops(ops, d.list),
                        None => RunView { st: d.list, actions: Seq::empty(), exited: false },
                    };
                    (
                        DispatcherView {
                            list: run.st,
                            pending: spec_count_blocks(run.actions),
                            exited: run.exited,
                            ..d
                        },
                        run.actions,
                    )
                }
            },
        }
    }
}

/// One execution resolved: it leaves the blocking set, and a failure is
/// surfaced without stopping anything.
pub open spec fn spec_resolve(d: DispatcherView, outcome: Result<(), Seq<char>>) -> DispatcherView {
    DispatcherView {
        pending: if d.pending > 0 {
            (d.pending - 1) as nat
        } else {
            0nat
        },
        last_error: match outcome {
            Ok(u) => d.last_error,
            Err(msg) => Some(msg),
        },
        ..d
    }
}

/// The single owner of the list state: consumes events from the input and
/// refresh threads, executes bound operations, and tracks in-flight
/// foreground executions that suppress key handling.
pub struct Dispatcher {
    state: StatefulList,
    blocking: Blocking,
    last_error: Option<String>,
    exited: bool,
}

impl View for Dispatcher {
    type V = DispatcherView;

    closed spec fn view(&self) -> DispatcherView {
        DispatcherView {
            list: self.state@,
            pending: self.blocking@,
            last_error: self.last_error.deep_view(),
            exited: self.exited,
        }
    }
}

impl Dispatcher {
    pub closed spec fn wf(&self) -> bool {
        self.state.wf()
    }

    pub proof fn lemma_wf_view(&self)
        requires
            self.wf(),
        ensures
            self@.list.wf(),
    {
        self.state.lemma_wf_view();
    }

    /// A dispatcher over an empty list, nothing in flight, nothing failed.
    pub fn new() -> (d: Dispatcher)
        ensures
            d.wf(),
            d@.list.items =~= Seq::<Seq<char>>::empty(),
            d@.list.cursor is None,
            d@.list.selected =~= Set::<int>::empty(),
            d@.pending == 0,
            d@.last_error is None,
            !d@.exited,
    {
        Dispatcher {
            state: StatefulList::new(),
            blocking: Blocking::new(),
            last_error: None,
            exited: false,
        }
    }

    /// Consumes one event and returns the actions the surroundings must
    /// perform, in order.
    pub fn handle_event(&mut self, keybindings: &Keybindings, event: Event) -> (actions: Vec<
        RequestedAction,
    >)
        requires
            old(self).wf(),
        ensures
            final(self).wf(),
            (final(self)@, actions.deep_view()) == spec_handle_event(
                old(self)@,
                keybindings.deep_view(),
                event@,
            ),
    {
        if self.exited {
            let v: Vec<RequestedAction> = Vec::new();
            proof {
                assert(v.deep_view() =~= Seq::<ActionView>::empty());
            }
            return v;
        }
        match event {
            Event::CommandOutput(res) => {
                match res {
                    Ok(lines) => {
                        self.state.set_lines(lines);
                        self.last_error = None;
                    },
                    Err(msg) => {
                        self.last_error = Some(msg);
                    },
                }
                let v: Vec<RequestedAction> = Vec::new();
                proof {
                    assert(v.deep_view() =~= Seq::<ActionView>::empty());
                }
                v
            },
            Event::KeyPressed(k) => {
                if !self.blocking.ready() {
                    let v: Vec<RequestedAction> = Vec::new();
                    proof {
                        assert(v.deep_view() =~= Seq::<ActionView>::empty());
                    }
                    return v;
                }
                let r = handle_key(k, keybindings, &mut self.state);
                let actions = r.0;
                let exited = r.1;
                let ghost actsv = actions.deep_view();
                let ghost listv = self.state@;
                let ghost errv = self.last_error.deep_view();
                proof {
                    assert(actsv.take(0) =~= Seq::<ActionView>::empty());
                }
                let mut i: usize = 0;
                while i < actions.len()
                    invariant
                        i <= actions.len(),
                        actsv == actions.deep_view(),
                        self.blocking@ == spec_count_blocks(actsv.take(i as int)),
                        self.state@ == listv,
                        self.state.wf(),
                        self.last_error.deep_view() == errv,
                        self.exited == false,
                    decreases actions.len() - i,
                {
                    proof {
                        lemma_count_blocks_le(actsv.take(i as int));
                        assert(actsv.take(i as int + 1).drop_last() =~= actsv.take(i as int));
                        assert(actsv.take(i as int + 1).last() == actsv[i as int]);
                    }
                    match &actions[i] {
                        RequestedAction::Block(_) => {
                            self.blocking.add();
                        },
                        _ => {},
                    }
                    i += 1;
                }
                proof {
                    assert(actsv.take(actions.len() as int) =~= actsv);
                }
                self.exited = exited;
                actions
            },
        }
    }

    /// Records that one foreground execution resolved, surfacing a failure.
    pub fn resolve(&mut self, outcome: Result<(), String>)
        requires
            old(self).wf(),
        ensures
            final(self).wf(),
            final(self)@ == spec_resolve(
                old(self)@,
                match outcome {
                    Ok(u) => Ok(()),
                    Err(msg) => Err(msg@),
                },
            ),
    {
        self.blocking.resolve();
        match outcome {
            Ok(_) => {},
            Err(msg) => {
                self.last_error = Some(msg);
            },
        }
    }

    /// Whether `exit` was requested; the loop must stop.
    pub fn exited(&self) -> (r: bool)
        ensures
            r == self@.exited,
    {
        self.exited
    }

    /// Whether key presses are currently ignored because a foreground
    /// execution is in flight.
    pub fn keys_suppressed(&self) -> (r: bool)
        ensures
            r == (self@.pending > 0),
    {
        !self.blocking.ready()
    }

    /// The list state, for rendering.
    pub fn state(&self) -> (r: &StatefulList)
        ensures
            r@ == self@.list,
            self.wf() ==> r.wf(),
    {
        &self.state
    }

    /// The last runtime failure to surface, if any.
    pub fn last_error(&self) -> (r: &Option<String>)
        ensures
            r.deep_view() == self@.last_error,
    {
        &self.last_error
    }
}

// ---------------------------------------------------------------------------
// The refresh actor
// ---------------------------------------------------------------------------

/// The refresh actor's state: whether a run of the watched command is
/// underway, whether a wake signal is buffered, and how many runs have
/// started. The wake buffer holds at most one signal, so reloads issued
/// in quick succession coalesce instead of piling up.
#[derive(Clone, Copy, PartialEq, Eq, Structural, Debug)]
pub struct RefreshActor {
    pub running: bool,
    pub pending_wake: bool,
    pub refreshes: u64,
}

/// A reload: buffers the wake signal; a signal already buffered is kept,
/// not counted.
pub open spec fn spec_wake(a: RefreshActor) -> RefreshActor {
    RefreshActor { pending_wake: true, ..a }
}

/// The current run of the watched command completed.
pub open spec fn spec_finish_run(a: RefreshActor) -> RefreshActor {
    RefreshActor { running: false, ..a }
}

/// One check of the sleeping actor: it starts the next run exactly when a
/// wake is buffered or the interval timed out, consuming the buffered wake.
pub open spec fn spec_poll(a: RefreshActor, timed_out: bool) -> (RefreshActor, bool) {
    if !a.running && (a.pending_wake || timed_out) {
        (
            RefreshActor {
                running: true,
                pending_wake: false,
                refreshes: (a.refreshes + 1) as u64,
            },
            true,
        )
    } else {
        (a, false)
    }
}

impl RefreshActor {
    /// The actor starts with its first run of the watched command underway.
    pub fn new() -> (a: RefreshActor)
        ensures
            a == (RefreshActor { running: true, pending_wake: false, refreshes: 1u64 }),
    {
        RefreshActor { running: true, pending_wake: false, refreshes: 1 }
    }

    /// Buffers a wake signal.
    pub fn wake(&mut self)
        ensures
            *final(self) == spec_wake(*old(self)),
    {
        self.pending_wake = true;
    }

    /// Records that the current run completed; the actor now sleeps.
    pub fn finish_run(&mut self)
        ensures
            *final(self) == spec_finish_run(*old(self)),
    {
        self.running = false;
    }

    /// Wakes the sleeping actor if a signal is buffered or the interval
    /// timed out; says whether a new run started.
    pub fn poll(&mut self, timed_out: bool) -> (started: bool)
        requires
            old(self).refreshes < u64::MAX,
        ensures
            (*final(self), started) == spec_poll(*old(self), timed_out),
    {
        if !self.running && (self.pending_wake || timed_out) {
            self.running = true;
            self.pending_wake = false;
            self.refreshes = self.refreshes + 1;
            true
        } else {
            false
        }
    }
}

/// A wake signal is buffered, not counted: waking twice is waking once.
pub proof fn lemma_wake_idempotent(a: RefreshActor)
    ensures
        spec_wake(spec_wake(a)) == spec_wake(a),
{
}

/// With a zero interval (no timeouts), two reloads issued while the initial
/// run is still underway yield exactly one extra run once it finishes: the
/// buffered wake starts a second run, and after that the actor blocks.
pub proof fn lemma_wake_coalescing(a: RefreshActor)
    requires
        a.running,
        a.refreshes < u64::MAX,
    ensures
        ({
            let woken = spec_wake(spec_wake(a));
            let slept = spec_finish_run(woken);
            let (second, started) = spec_poll(slept, false);
            let idle = spec_finish_run(second);
            let (after, started_again) = spec_poll(idle, false);
            started && second.refreshes == a.refreshes + 1 && !started_again && after.refreshes
                == a.refreshes + 1
        }),
{
}

/// How long the refresh actor waits for a wake signal after a run that took
/// `elapsed_ms`: forever when the interval is zero (refresh on reload only),
/// otherwise at most what remains of the interval.
pub fn refresh_sleep(watch_rate_ms: u64, elapsed_ms: u64) -> (r: Option<u64>)
    ensures
        r == if watch_rate_ms == 0 {
            Option::<u64>::None
        } else {
            Some(
                if elapsed_ms < watch_rate_ms {
                    (watch_rate_ms - elapsed_ms) as u64
                } else {
                    0u64
                },
            )
        },
{
    if watch_rate_ms == 0 {
        None
    } else if elapsed_ms < watch_rate_ms {
        Some(watch_rate_ms - elapsed_ms)
    } else {
        Some(0)
    }
}

} // verus!
