use std::collections::VecDeque;
use vstd::prelude::*;

verus! {

/// The run queue of an executor: tasks leave in the order they came in.
pub struct TaskQueue<T> {
    queue: VecDeque<T>,
}

impl<T> View for TaskQueue<T> {
    type V = Seq<T>;

    /// The queued tasks, the next one to run first.
    closed spec fn view(&self) -> Seq<T> {
        self.queue@
    }
}

impl<T> TaskQueue<T> {
    /// An empty queue.
    pub fn new() -> (q: Self)
        ensures
            q@ == Seq::<T>::empty(),
    {
        TaskQueue { queue: VecDeque::with_capacity(1024) }
    }

    /// Appends a runnable task at the back.
    pub fn push(&mut self, runnable: T)
        ensures
            final(self)@ == old(self)@.push(runnable),
    {
        self.queue.push_back(runnable);
    }

    /// Takes the task at the front, or returns `None` when the queue is empty.
    pub fn pop(&mut self) -> (r: Option<T>)
        ensures
            old(self)@.len() == 0 ==> r is None && final(self)@ == old(self)@,
            old(self)@.len() > 0 ==> r == Some(old(self)@[0]) && final(self)@
                == old(self)@.drop_first(),
    {
        let r = self.queue.pop_front();
        proof {
            if old(self)@.len() > 0 {
                assert(old(self)@.subrange(1, old(self)@.len() as int) =~= old(self)@.drop_first());
            }
        }
        r
    }
}

/// The state of a wake-up signal shared by a sleeping thread and its wakers.
#[derive(Clone, Copy, Debug, PartialEq, Eq, Structural)]
pub enum State {
    /// Nobody waits and no wake-up is pending.
    Empty,
    /// A thread sleeps until it is notified.
    Waiting,
    /// A wake-up arrived while nobody waited; the next wait returns at once.
    Notified,
}

/// What the waiting thread does after announcing that it waits.
#[derive(Clone, Copy, Debug, PartialEq, Eq, Structural)]
pub enum WaitStep {
    /// A wake-up was pending: continue without sleeping.
    Proceed,
    /// Sleep until the state is no longer [`State::Waiting`].
    Block,
}

/// What a notifier does besides updating the state.
#[derive(Clone, Copy, Debug, PartialEq, Eq, Structural)]
pub enum NotifyStep {
    /// Nothing more.
    Nothing,
    /// Wake the one sleeping thread.
    WakeOne,
}

/// The state after a wait begins in `s`, and what the waiter does.
pub open spec fn wait_transition(s: State) -> (State, WaitStep) {
    match s {
        State::Notified => (State::Empty, WaitStep::Proceed),
        _ => (State::Waiting, WaitStep::Block),
    }
}

/// The state after a notification in `s`, and what the notifier does.
pub open spec fn notify_transition(s: State) -> (State, NotifyStep) {
    match s {
        State::Notified => (State::Notified, NotifyStep::Nothing),
        State::Empty => (State::Notified, NotifyStep::Nothing),
        State::Waiting => (State::Empty, NotifyStep::WakeOne),
    }
}

/// The decisions of a wake-up signal. The lock and the condition variable
/// that make it shared between threads are kept by the caller, which calls
/// these methods while holding the lock.
pub struct Signal {
    state: State,
}

impl Signal {
    /// The current state.
    pub closed spec fn current(&self) -> State {
        self.state
    }

    /// A signal with no pending wake-up.
    pub fn new() -> (s: Self)
        ensures
            s.current() == State::Empty,
    {
        Signal { state: State::Empty }
    }

    /// Whether a thread is recorded as sleeping on the signal.
    pub fn is_waiting(&self) -> (r: bool)
        ensures
            r == (self.current() == State::Waiting),
    {
        match self.state {
            State::Waiting => true,
            _ => false,
        }
    }

    /// Begins a wait: consumes a pending wake-up, or records the caller as
    /// sleeping. A second waiter is not supported.
    pub fn wait(&mut self) -> (step: WaitStep)
        requires
            old(self).current() != State::Waiting,
        ensures
            (final(self).current(), step) == wait_transition(old(self).current()),
    {
        match self.state {
            State::Notified => {
                self.state = State::Empty;
                WaitStep::Proceed
            },
            _ => {
                self.state = State::Waiting;
                WaitStep::Block
            },
        }
    }

    /// Delivers a wake-up: releases the sleeping thread, or leaves the
    /// wake-up pending for the next wait.
    pub fn notify(&mut self) -> (step: NotifyStep)
        ensures
            (final(self).current(), step) == notify_transition(old(self).current()),
    {
        match self.state {
            State::Notified => NotifyStep::Nothing,
            State::Empty => {
                self.state = State::Notified;
                NotifyStep::Nothing
            },
            State::Waiting => {
                self.state = State::Empty;
                NotifyStep::WakeOne
            },
        }
    }
}

} // verus!

verus! {

/// Where `block_on` stands in its polling loop.
#[derive(Clone, Copy, Debug, PartialEq, Eq, Structural)]
pub enum Phase {
    /// The main future is being polled at the top of the loop.
    FirstPoll,
    /// A task is being taken from the run queue.
    Draining,
    /// A task taken from the run queue is being polled.
    RunningTask,
    /// The main future is polled again after the queue ran dry.
    SecondPoll,
    /// The thread sleeps on its signal.
    Sleeping,
    /// The main future finished.
    Done,
}

/// What the caller observed after performing the last action.
#[derive(Clone, Copy, Debug, PartialEq, Eq, Structural)]
pub enum Event {
    /// Polling the main future gave its output.
    MainReady,
    /// Polling the main future left it pending.
    MainPending,
    /// The run queue gave a task.
    TaskPopped,
    /// The run queue was empty.
    QueueEmpty,
    /// The popped task was polled.
    TaskPolled,
    /// The sleeping thread was woken.
    Woken,
}

/// What the caller does next.
#[derive(Clone, Copy, Debug, PartialEq, Eq, Structural)]
pub enum Action {
    /// Poll the main future.
    PollMain,
    /// Take the next task from the run queue.
    PopTask,
    /// Poll the task just taken.
    PollTask,
    /// Sleep on the signal.
    Wait,
    /// Return the main future's output.
    Finish,
}

/// The events that can follow the action taken in `p`.
pub open spec fn expects(p: Phase, e: Event) -> bool {
    match p {
        Phase::FirstPoll => e == Event::MainReady || e == Event::MainPending,
        Phase::SecondPoll => e == Event::MainReady || e == Event::MainPending,
        Phase::Draining => e == Event::TaskPopped || e == Event::QueueEmpty,
        Phase::RunningTask => e == Event::TaskPolled,
        Phase::Sleeping => e == Event::Woken,
        Phase::Done => false,
    }
}

/// The loop of `block_on`: poll the main future; while it is pending, run
/// every queued task, poll the main future again, and sleep only if it is
/// still pending.
pub open spec fn block_on_transition(p: Phase, e: Event) -> (Phase, Action) {
    match (p, e) {
        (Phase::FirstPoll, Event::MainReady) => (Phase::Done, Action::Finish),
        (Phase::FirstPoll, _) => (Phase::Draining, Action::PopTask),
        (Phase::Draining, Event::TaskPopped) => (Phase::RunningTask, Action::PollTask),
        (Phase::Draining, _) => (Phase::SecondPoll, Action::PollMain),
        (Phase::RunningTask, _) => (Phase::Draining, Action::PopTask),
        (Phase::SecondPoll, Event::MainReady) => (Phase::Done, Action::Finish),
        (Phase::SecondPoll, _) => (Phase::Sleeping, Action::Wait),
        (_, _) => (Phase::FirstPoll, Action::PollMain),
    }
}

/// The decisions of `block_on`; the caller polls, pops and sleeps.
pub struct BlockOn {
    phase: Phase,
}

impl BlockOn {
    /// The current phase.
    pub closed spec fn phase(&self) -> Phase {
        self.phase
    }

    /// Starts the loop; the first action is to poll the main future.
    pub fn start() -> (r: (Self, Action))
        ensures
            r.0.phase() == Phase::FirstPoll,
            r.1 == Action::PollMain,
    {
        (BlockOn { phase: Phase::FirstPoll }, Action::PollMain)
    }

    /// Whether `event` is one that can follow the last action.
    pub fn accepts(&self, event: Event) -> (r: bool)
        ensures
            r == expects(self.phase(), event),
    {
        match self.phase {
            Phase::FirstPoll => event == Event::MainReady || event == Event::MainPending,
            Phase::SecondPoll => event == Event::MainReady || event == Event::MainPending,
            Phase::Draining => event == Event::TaskPopped || event == Event::QueueEmpty,
            Phase::RunningTask => event == Event::TaskPolled,
            Phase::Sleeping => event == Event::Woken,
            Phase::Done => false,
        }
    }

    /// Takes the outcome of the last action and gives the next one.
    pub fn step(&mut self, event: Event) -> (a: Action)
        requires
            expects(old(self).phase(), event),
        ensures
            (final(self).phase(), a) == block_on_transition(old(self).phase(), event),
    {
        let (p, a) = match (self.phase, event) {
            (Phase::FirstPoll, Event::MainReady) => (Phase::Done, Action::Finish),
            (Phase::FirstPoll, _) => (Phase::Draining, Action::PopTask),
            (Phase::Draining, Event::TaskPopped) => (Phase::RunningTask, Action::PollTask),
            (Phase::Draining, _) => (Phase::SecondPoll, Action::PollMain),
            (Phase::RunningTask, _) => (Phase::Draining, Action::PopTask),
            (Phase::SecondPoll, Event::MainReady) => (Phase::Done, Action::Finish),
            (Phase::SecondPoll, _) => (Phase::Sleeping, Action::Wait),
            (_, _) => (Phase::FirstPoll, Action::PollMain),
        };
        self.phase = p;
        a
    }
}

/// The running total after adding `1, 2, ..., j` to `s`, reducing modulo
/// `m` after each addition.
pub open spec fn mod_round(s: int, j: nat, m: int) -> int
    decreases j,
{
    if j == 0 {
        s
    } else {
        (mod_round(s, (j - 1) as nat, m) + j) % m
    }
}

/// The running total after `r` rounds of [`mod_round`] up to `upto`,
/// starting from zero.
pub open spec fn mod_rounds(r: nat, upto: nat, m: int) -> int
    decreases r,
{
    if r == 0 {
        0
    } else {
        mod_round(mod_rounds((r - 1) as nat, upto, m), upto, m)
    }
}

/// The busy work of the first demo task: `rounds` times, add `1..=upto` to
/// a running total kept modulo `modulus`.
pub fn mod_sum(rounds: u32, upto: u32, modulus: u32) -> (s: u32)
    requires
        modulus > 0,
        modulus + upto <= u32::MAX,
    ensures
        s == mod_rounds(rounds as nat, upto as nat, modulus as int),
{
    let mut s: u32 = 0;
    let mut i: u32 = 0;
    while i < rounds
        invariant
            i <= rounds,
            modulus > 0,
            modulus + upto <= u32::MAX,
            s < modulus,
            s == mod_rounds(i as nat, upto as nat, modulus as int),
        decreases rounds - i,
    {
        let start = s;
        let mut j: u32 = 0;
        while j < upto
            invariant
                j <= upto,
                modulus > 0,
                modulus + upto <= u32::MAX,
                s < modulus,
                s == mod_round(start as int, j as nat, modulus as int),
            decreases upto - j,
        {
            j = j + 1;
            s = s + j;
            s = s % modulus;
        }
        i = i + 1;
    }
    s
}

} // verus!

verus! {

/// First in, first out: pushing at the back of a non-empty queue does not
/// change which task leaves next, and the rest of the queue keeps the new
/// task at its back.
pub proof fn law_queue_fifo<T>(q: Seq<T>, x: T)
    requires
        q.len() > 0,
    ensures
        q.push(x)[0] == q[0],
        q.push(x).drop_first() == q.drop_first().push(x),
{
    assert(q.push(x).drop_first() =~= q.drop_first().push(x));
}

/// A task pushed onto an empty queue is the next to leave it, and leaves it
/// empty.
pub proof fn law_queue_single<T>(x: T)
    ensures
        Seq::<T>::empty().push(x)[0] == x,
        Seq::<T>::empty().push(x).drop_first() == Seq::<T>::empty(),
{
    assert(Seq::<T>::empty().push(x).drop_first() =~= Seq::<T>::empty());
}

/// A wake-up is never lost: after a notification in any state where nobody
/// waits, the next wait returns at once and leaves no wake-up pending.
pub proof fn law_notify_then_wait(s: State)
    requires
        s != State::Waiting,
    ensures
        wait_transition(notify_transition(s).0) == (State::Empty, WaitStep::Proceed),
{
}

/// A sleeping waiter is released: a wait with nothing pending blocks, and
/// the next notification wakes exactly one thread and ends the waiting.
pub proof fn law_wait_then_notify()
    ensures
        wait_transition(State::Empty) == (State::Waiting, WaitStep::Block),
        notify_transition(State::Waiting) == (State::Empty, NotifyStep::WakeOne),
{
}

/// Notifications do not accumulate: a second one while nobody waits changes
/// nothing.
pub proof fn law_notify_idempotent(s: State)
    requires
        s != State::Waiting,
    ensures
        notify_transition(notify_transition(s).0) == (notify_transition(s).0, NotifyStep::Nothing),
{
}

/// `block_on` finishes only on a ready main future, and sleeps only when the
/// main future was found pending right after the run queue ran dry.
pub proof fn law_block_on_sleeps_after_drain(p: Phase, e: Event)
    requires
        expects(p, e),
    ensures
        block_on_transition(p, e).1 == Action::Finish ==> e == Event::MainReady,
        block_on_transition(p, e).1 == Action::Wait ==> p == Phase::SecondPoll && e
            == Event::MainPending,
        block_on_transition(p, e).0 == Phase::SecondPoll ==> p == Phase::Draining && e
            == Event::QueueEmpty,
        e == Event::MainPending && p == Phase::FirstPoll ==> block_on_transition(p, e).1
            == Action::PopTask,
{
}

} // verus!

verus! {

/// The state after `k` notifications starting in `s`.
pub open spec fn after_notifies(s: State, k: nat) -> State
    decreases k,
{
    if k == 0 {
        s
    } else {
        notify_transition(after_notifies(s, (k - 1) as nat)).0
    }
}

/// A wait that finds nothing pending blocks until a notification arrives:
/// the waiter is recorded as waiting, and it stays so (through any number
/// of spurious wake-ups, which find the state unchanged) until the first
/// notification; from then on it is released. The first notification
/// leaves the signal empty and wakes the waiter; later ones before it
/// resumes leave a wake-up pending.
pub proof fn law_wait_blocks_until_notified(k: nat)
    ensures
        wait_transition(State::Empty) == (State::Waiting, WaitStep::Block),
        (k == 0) == (after_notifies(State::Waiting, k) == State::Waiting),
        k == 1 ==> after_notifies(State::Waiting, k) == State::Empty,
        k >= 2 ==> after_notifies(State::Waiting, k) == State::Notified,
    decreases k,
{
    if k > 0 {
        law_wait_blocks_until_notified((k - 1) as nat);
    }
}

/// The actions of `block_on` from phase `p` for the events `es`, with the
/// phase it ends in.
pub open spec fn block_on_run(p: Phase, es: Seq<Event>) -> (Phase, Seq<Action>)
    decreases es.len(),
{
    if es.len() == 0 {
        (p, Seq::empty())
    } else {
        let (q, a) = block_on_transition(p, es[0]);
        let (r, acts) = block_on_run(q, es.drop_first());
        (r, seq![a] + acts)
    }
}

/// Every event of `es` is one the machine accepts where it comes.
pub open spec fn run_accepted(p: Phase, es: Seq<Event>) -> bool
    decreases es.len(),
{
    es.len() == 0 || (expects(p, es[0]) && run_accepted(block_on_transition(p, es[0]).0, es.drop_first()))
}

/// Draining a run queue that gives `n` tasks before it is empty: each pop
/// gives a task, which is polled.
pub open spec fn drain_events(n: nat) -> Seq<Event>
    decreases n,
{
    if n == 0 {
        seq![Event::QueueEmpty]
    } else {
        seq![Event::TaskPopped, Event::TaskPolled] + drain_events((n - 1) as nat)
    }
}

/// What `block_on` does while it drains `n` tasks: poll each popped task
/// once and pop again, then poll the main future.
pub open spec fn drain_actions(n: nat) -> Seq<Action>
    decreases n,
{
    if n == 0 {
        seq![Action::PollMain]
    } else {
        seq![Action::PollTask, Action::PopTask] + drain_actions((n - 1) as nat)
    }
}

proof fn lemma_run_single(p: Phase, e: Event)
    ensures
        block_on_run(p, seq![e]) == (block_on_transition(p, e).0, seq![block_on_transition(p, e).1]),
        run_accepted(p, seq![e]) == expects(p, e),
{
    let es = seq![e];
    assert(es.drop_first() =~= Seq::<Event>::empty());
    assert(es[0] == e);
    let q = block_on_transition(p, e).0;
    assert(block_on_run(q, Seq::<Event>::empty()) == (q, Seq::<Action>::empty()));
    assert(run_accepted(q, Seq::<Event>::empty()));
    assert(seq![block_on_transition(p, e).1] + Seq::<Action>::empty() =~= seq![
        block_on_transition(p, e).1,
    ]);
}

proof fn lemma_run_concat(p: Phase, a: Seq<Event>, b: Seq<Event>)
    ensures
        block_on_run(p, a + b) == ({
            let (q, x) = block_on_run(p, a);
            let (r, y) = block_on_run(q, b);
            (r, x + y)
        }),
        run_accepted(p, a + b) == (run_accepted(p, a) && run_accepted(block_on_run(p, a).0, b)),
    decreases a.len(),
{
    if a.len() == 0 {
        assert(a + b =~= b);
    } else {
        assert((a + b).drop_first() =~= a.drop_first() + b);
        assert((a + b)[0] == a[0]);
        lemma_run_concat(block_on_transition(p, a[0]).0, a.drop_first(), b);
        let (q, x) = block_on_run(block_on_transition(p, a[0]).0, a.drop_first());
        let (r, y) = block_on_run(q, b);
        assert(seq![block_on_transition(p, a[0]).1] + (x + y) =~= (seq![
            block_on_transition(p, a[0]).1,
        ] + x) + y);
    }
}

/// While the main future is pending, `block_on` polls every queued task
/// exactly once, in the order the queue gives them, and then polls the main
/// future again without sleeping.
pub proof fn law_drain_before_second_poll(n: nat)
    ensures
        run_accepted(Phase::Draining, drain_events(n)),
        block_on_run(Phase::Draining, drain_events(n)) == (Phase::SecondPoll, drain_actions(n)),
    decreases n,
{
    if n == 0 {
        lemma_run_single(Phase::Draining, Event::QueueEmpty);
    } else {
        law_drain_before_second_poll((n - 1) as nat);
        let pair = seq![Event::TaskPopped, Event::TaskPolled];
        let rest = drain_events((n - 1) as nat);
        lemma_run_concat(Phase::Draining, pair, rest);
        assert(pair.drop_first() =~= seq![Event::TaskPolled]);
        assert(seq![Event::TaskPolled].drop_first() =~= Seq::<Event>::empty());
        lemma_run_single(Phase::RunningTask, Event::TaskPolled);
        assert(block_on_run(Phase::Draining, pair) == (
            Phase::Draining,
            seq![Action::PollTask, Action::PopTask],
        )) by {
            assert(seq![Action::PollTask] + seq![Action::PopTask] =~= seq![
                Action::PollTask,
                Action::PopTask,
            ]);
        }
        assert(run_accepted(Phase::Draining, pair));
    }
}

/// A main future that is pending at its first poll and ready at its second
/// is finished after the queued tasks ran, and `block_on` never sleeps.
pub proof fn law_ready_after_drain(n: nat)
    ensures
        run_accepted(Phase::FirstPoll, seq![Event::MainPending] + drain_events(n) + seq![
            Event::MainReady,
        ]),
        block_on_run(Phase::FirstPoll, seq![Event::MainPending] + drain_events(n) + seq![
            Event::MainReady,
        ]) == (Phase::Done, seq![Action::PopTask] + drain_actions(n) + seq![Action::Finish]),
{
    law_drain_before_second_poll(n);
    let first = seq![Event::MainPending];
    let last = seq![Event::MainReady];
    lemma_run_concat(Phase::FirstPoll, first, drain_events(n));
    lemma_run_concat(Phase::FirstPoll, first + drain_events(n), last);
    assert(first.drop_first() =~= Seq::<Event>::empty());
    assert(last.drop_first() =~= Seq::<Event>::empty());
    lemma_run_single(Phase::FirstPoll, Event::MainPending);
    lemma_run_single(Phase::SecondPoll, Event::MainReady);
}

} // verus!

verus! {

/// Tasks leave the run queue in the order they were queued, also when
/// more tasks are queued during the drain: popping a queue that held `q`,
/// with `added` queued after them, gives `q[0]`, `q[1]`, ... first (the
/// queue after `i` pops is what is left after the first `i`), and then the
/// added tasks.
pub proof fn law_drain_order<T>(q: Seq<T>, added: Seq<T>)
    ensures
        forall|i: int| 0 <= i < q.len() ==> #[trigger] (q + added).skip(i)[0] == q[i],
        (q + added).skip(q.len() as int) == added,
{
    assert((q + added).skip(q.len() as int) =~= added);
    assert forall|i: int| 0 <= i < q.len() implies #[trigger] (q + added).skip(i)[0] == q[i] by {
        assert((q + added).skip(i)[0] == (q + added)[i]);
    }
}

} // verus!

verus! {

/// Each action `block_on` asks for is followed by the events it can give:
/// a poll of the main future by its outcome, a pop by a task or an empty
/// queue, a task poll by its completion, a sleep by the wake-up; after the
/// main future finished nothing follows.
pub proof fn law_actions_meet_their_events(p: Phase, e: Event)
    requires
        expects(p, e),
    ensures
        ({
            let (q, a) = block_on_transition(p, e);
            &&& a == Action::PollMain ==> expects(q, Event::MainReady) && expects(q, Event::MainPending)
            &&& a == Action::PopTask ==> expects(q, Event::TaskPopped) && expects(q, Event::QueueEmpty)
            &&& a == Action::PollTask ==> expects(q, Event::TaskPolled)
            &&& a == Action::Wait ==> expects(q, Event::Woken)
            &&& a == Action::Finish ==> forall|f: Event| !#[trigger] expects(q, f)
        }),
{
}

/// After sleeping, `block_on` starts its loop again: the wake-up is taken,
/// the main future is polled, and if it is still pending the run queue is
/// drained before the thread may sleep again.
pub proof fn law_wake_restarts_loop(p: Phase, e: Event)
    requires
        expects(p, e),
        block_on_transition(p, e).1 == Action::Wait,
    ensures
        ({
            let s = block_on_transition(p, e).0;
            let (q, a) = block_on_transition(s, Event::Woken);
            &&& expects(s, Event::Woken)
            &&& a == Action::PollMain
            &&& expects(q, Event::MainPending)
            &&& block_on_transition(q, Event::MainPending).1 == Action::PopTask
            &&& block_on_transition(q, Event::MainReady).1 == Action::Finish
        }),
{
}

} // verus!
