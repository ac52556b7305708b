//! The state machine that decides which lifecycle callbacks run on a tick.
//!
//! A machine is in one [`GameState`] at a time. The first tick spent in a
//! state runs that state's enter callbacks, every later tick runs its update
//! callbacks, and the tick on which a transition was requested ends with the
//! state's exit callbacks, after which the machine is in the new state.

use crate::GameState;
use vstd::prelude::*;

verus! {

/// Why a transition request was turned down.
#[derive(Clone, Copy, PartialEq, Eq, Structural, Debug)]
pub enum StateError {
    /// The requested state is the one the machine is in.
    AlreadyInState,
    /// Another transition is waiting, or the current state has not been
    /// entered yet.
    StateAlreadyQueued,
}

/// What a tick starts with.
#[derive(Clone, Copy, PartialEq, Eq, Structural, Debug)]
pub enum Stage {
    /// The enter callbacks of the state run.
    Enter(GameState),
    /// The update callbacks of the state run.
    Update(GameState),
}

/// One round of lifecycle callbacks.
#[derive(Clone, Copy, PartialEq, Eq, Structural, Debug)]
pub enum Event {
    /// The enter callbacks of the state ran.
    Enter(GameState),
    /// The update callbacks of the state ran.
    Update(GameState),
    /// The exit callbacks of the state ran.
    Exit(GameState),
}

/// The mathematical content of a [`StateMachine`].
pub struct MachineView {
    /// The active state.
    pub current: GameState,
    /// The state a granted request will lead to.
    pub scheduled: Option<GameState>,
    /// Whether the enter callbacks of `current` have run.
    pub entered: bool,
}

impl MachineView {
    /// A request only waits in a state that was entered, and never leads to
    /// the state the machine is in.
    pub open spec fn wf(self) -> bool {
        self.scheduled matches Some(next) ==> self.entered && next != self.current
    }

    /// The machine as it is created: in `initial`, which is yet to be entered.
    pub open spec fn start(initial: GameState) -> MachineView {
        MachineView { current: initial, scheduled: None, entered: false }
    }

    /// What the next tick starts with.
    pub open spec fn stage(self) -> Stage {
        if self.entered {
            Stage::Update(self.current)
        } else {
            Stage::Enter(self.current)
        }
    }

    /// What a request for `state` is answered with.
    pub open spec fn set_result(self, state: GameState) -> Result<(), StateError> {
        if state == self.current {
            Err(StateError::AlreadyInState)
        } else if self.scheduled is Some || !self.entered {
            Err(StateError::StateAlreadyQueued)
        } else {
            Ok(())
        }
    }

    /// The machine after a request for `state`: a granted request waits,
    /// a refused one changes nothing.
    pub open spec fn set(self, state: GameState) -> MachineView {
        if self.set_result(state) is Ok {
            MachineView { scheduled: Some(state), ..self }
        } else {
            self
        }
    }

    /// The machine after the requests `states`, made in that order.
    pub open spec fn set_all(self, states: Seq<GameState>) -> MachineView
        decreases states.len(),
    {
        if states.len() == 0 {
            self
        } else {
            self.set_all(states.drop_last()).set(states.last())
        }
    }

    /// The state whose exit callbacks close the tick, if any.
    pub open spec fn exiting(self) -> Option<GameState> {
        if self.entered && self.scheduled is Some {
            Some(self.current)
        } else {
            None
        }
    }

    /// The machine at the end of the tick.
    pub open spec fn advance(self) -> MachineView {
        if !self.entered {
            MachineView { entered: true, ..self }
        } else {
            match self.scheduled {
                Some(next) => MachineView { current: next, scheduled: None, entered: false },
                None => self,
            }
        }
    }

    /// The machine after one tick during which the callbacks made the
    /// requests `states`.
    pub open spec fn tick(self, states: Seq<GameState>) -> MachineView {
        self.set_all(states).advance()
    }

    /// The callbacks that run on that tick, in order.
    pub open spec fn tick_events(self, states: Seq<GameState>) -> Seq<Event> {
        let first = match self.stage() {
            Stage::Enter(s) => Event::Enter(s),
            Stage::Update(s) => Event::Update(s),
        };
        match self.set_all(states).exiting() {
            Some(s) => seq![first, Event::Exit(s)],
            None => seq![first],
        }
    }

    /// The machine after the ticks `ticks`, each given by the requests made
    /// during it.
    pub open spec fn run(self, ticks: Seq<Seq<GameState>>) -> MachineView
        decreases ticks.len(),
    {
        if ticks.len() == 0 {
            self
        } else {
            self.run(ticks.drop_last()).tick(ticks.last())
        }
    }

    /// The callbacks that run over those ticks, in order.
    pub open spec fn run_events(self, ticks: Seq<Seq<GameState>>) -> Seq<Event>
        decreases ticks.len(),
    {
        if ticks.len() == 0 {
            Seq::empty()
        } else {
            self.run_events(ticks.drop_last()) + self.run(ticks.drop_last()).tick_events(
                ticks.last(),
            )
        }
    }

    /// 1 if `state` is active and entered, else 0.
    pub open spec fn active(self, state: GameState) -> int {
        if self.entered && self.current == state {
            1
        } else {
            0
        }
    }
}

/// How often `event` occurs in `log`.
pub open spec fn occurrences(log: Seq<Event>, event: Event) -> int
    decreases log.len(),
{
    if log.len() == 0 {
        0
    } else {
        occurrences(log.drop_last(), event) + if log.last() == event {
            1int
        } else {
            0int
        }
    }
}

/// Counting over a concatenation adds up.
pub proof fn lemma_occurrences_concat(a: Seq<Event>, b: Seq<Event>, event: Event)
    ensures
        occurrences(a + b, event) == occurrences(a, event) + occurrences(b, event),
    decreases b.len(),
{
    if b.len() == 0 {
        assert(a + b =~= a);
    } else {
        assert((a + b).drop_last() =~= a + b.drop_last());
        lemma_occurrences_concat(a, b.drop_last(), event);
    }
}

/// Requests never touch the active state nor whether it was entered, and keep
/// a well-formed machine well-formed.
pub proof fn lemma_set_all_keeps(m: MachineView, states: Seq<GameState>)
    ensures
        m.set_all(states).current == m.current,
        m.set_all(states).entered == m.entered,
        m.wf() ==> m.set_all(states).wf(),
        !m.entered ==> m.set_all(states) == m,
    decreases states.len(),
{
    if states.len() > 0 {
        lemma_set_all_keeps(m, states.drop_last());
    }
}

/// While a request waits, every further request is refused and changes
/// nothing: the first one holds.
pub proof fn lemma_first_request_holds(m: MachineView, states: Seq<GameState>)
    requires
        m.scheduled is Some,
    ensures
        m.set_all(states) == m,
    decreases states.len(),
{
    if states.len() > 0 {
        lemma_first_request_holds(m, states.drop_last());
    }
}

/// Any number of requests for one state has the effect of a single one.
pub proof fn lemma_repeated_requests(m: MachineView, state: GameState, states: Seq<GameState>)
    requires
        states.len() > 0,
        forall|i: int| 0 <= i < states.len() ==> states[i] == state,
    ensures
        m.set_all(states) == m.set(state),
    decreases states.len(),
{
    let front = states.drop_last();
    assert(states.last() == state);
    assert(m.set_all(states) == m.set_all(front).set(state));
    if states.len() > 1 {
        lemma_repeated_requests(m, state, front);
    } else {
        assert(m.set_all(front) == m);
    }
}

/// Over one tick, the enter callbacks of `state` run once more often than its
/// exit callbacks if the tick made it active, once less often if the tick
/// left it, and equally often otherwise.
pub proof fn lemma_tick_balance(m: MachineView, states: Seq<GameState>, state: GameState)
    ensures
        occurrences(m.tick_events(states), Event::Enter(state)) - occurrences(
            m.tick_events(states),
            Event::Exit(state),
        ) == m.tick(states).active(state) - m.active(state),
{
    lemma_set_all_keeps(m, states);
    let log = m.tick_events(states);
    let first = log[0];
    assert(occurrences(Seq::<Event>::empty(), Event::Enter(state)) == 0);
    assert(occurrences(Seq::<Event>::empty(), Event::Exit(state)) == 0);
    if log.len() == 1 {
        assert(log.drop_last() =~= Seq::<Event>::empty());
    } else {
        assert(log.drop_last() =~= seq![first]);
        assert(seq![first].drop_last() =~= Seq::<Event>::empty());
        assert(occurrences(seq![first], Event::Enter(state)) == if first == Event::Enter(state) {
            1int
        } else {
            0int
        });
        assert(occurrences(seq![first], Event::Exit(state)) == 0);
    }
}

/// A granted request runs the exit callbacks of the state that is left once,
/// on the tick of the request, and the enter callbacks of the new state
/// once, on the tick after it, before that state's first update.
pub proof fn lemma_transition_runs_exit_then_enter(
    m: MachineView,
    states: Seq<GameState>,
    later: Seq<GameState>,
)
    requires
        m.entered,
        m.set_all(states).scheduled is Some,
    ensures
        ({
            let next = m.set_all(states).scheduled->Some_0;
            &&& m.tick_events(states) == seq![Event::Update(m.current), Event::Exit(m.current)]
            &&& m.tick(states).current == next
            &&& m.tick(states).tick_events(later) == seq![Event::Enter(next)]
            &&& m.tick(states).tick(later).stage() == Stage::Update(next)
        }),
{
    lemma_set_all_keeps(m, states);
    lemma_set_all_keeps(m.tick(states), later);
}

/// A tick without a granted request runs the enter callbacks of a state
/// that was not entered yet, else its update callbacks, and nothing else,
/// and stays in the state.
pub proof fn lemma_quiet_tick(m: MachineView, states: Seq<GameState>)
    requires
        m.set_all(states).scheduled is None,
    ensures
        m.tick_events(states) == if m.entered {
            seq![Event::Update(m.current)]
        } else {
            seq![Event::Enter(m.current)]
        },
        m.tick(states).stage() == Stage::Update(m.current),
{
    lemma_set_all_keeps(m, states);
}

/// Over any ticks, the surplus of enter over exit callbacks of `state` is the
/// change in whether `state` is active.
pub proof fn lemma_run_balance(m: MachineView, ticks: Seq<Seq<GameState>>, state: GameState)
    ensures
        occurrences(m.run_events(ticks), Event::Enter(state)) - occurrences(
            m.run_events(ticks),
            Event::Exit(state),
        ) == m.run(ticks).active(state) - m.active(state),
    decreases ticks.len(),
{
    if ticks.len() > 0 {
        let before = m.run(ticks.drop_last());
        lemma_run_balance(m, ticks.drop_last(), state);
        lemma_tick_balance(before, ticks.last(), state);
        lemma_occurrences_concat(
            m.run_events(ticks.drop_last()),
            before.tick_events(ticks.last()),
            Event::Enter(state),
        );
        lemma_occurrences_concat(
            m.run_events(ticks.drop_last()),
            before.tick_events(ticks.last()),
            Event::Exit(state),
        );
    }
}

/// Whatever the callbacks request over however many ticks, a machine that
/// started in `initial` has run the enter callbacks of each state as often as
/// its exit callbacks, or once more: once more exactly for the state that is
/// active and entered, whose exit is yet to come.
pub proof fn lemma_enters_match_exits(
    initial: GameState,
    ticks: Seq<Seq<GameState>>,
    state: GameState,
)
    ensures
        ({
            let m = MachineView::start(initial);
            let enters = occurrences(m.run_events(ticks), Event::Enter(state));
            let exits = occurrences(m.run_events(ticks), Event::Exit(state));
            &&& exits <= enters <= exits + 1
            &&& enters == exits + 1 <==> m.run(ticks).entered && m.run(ticks).current == state
        }),
{
    lemma_run_balance(MachineView::start(initial), ticks, state);
}

/// A tick runs callbacks of the state that was active when it began, and of
/// no other.
pub proof fn lemma_tick_runs_active_state(m: MachineView, states: Seq<GameState>, i: int)
    requires
        0 <= i < m.tick_events(states).len(),
    ensures
        m.tick_events(states)[i] == Event::Enter(m.current) || m.tick_events(states)[i]
            == Event::Update(m.current) || m.tick_events(states)[i] == Event::Exit(m.current),
        m.tick_events(states)[i] is Update ==> m.entered,
{
    lemma_set_all_keeps(m, states);
}

/// The state machine.
#[derive(Clone, Copy, Debug)]
pub struct StateMachine {
    current: GameState,
    scheduled: Option<GameState>,
    entered: bool,
}

impl View for StateMachine {
    type V = MachineView;

    closed spec fn view(&self) -> MachineView {
        MachineView { current: self.current, scheduled: self.scheduled, entered: self.entered }
    }
}

impl StateMachine {
    #[verifier::type_invariant]
    closed spec fn inv(self) -> bool {
        self@.wf()
    }

    /// A machine in `initial`, whose enter callbacks run on the first tick.
    pub fn new(initial: GameState) -> (machine: StateMachine)
        ensures
            machine@ == MachineView::start(initial),
    {
        StateMachine { current: initial, scheduled: None, entered: false }
    }

    /// The active state.
    pub fn current(&self) -> (state: GameState)
        ensures
            state == self@.current,
    {
        self.current
    }

    /// The state that a granted request will lead to at the end of the tick.
    pub fn scheduled(&self) -> (next: Option<GameState>)
        ensures
            next == self@.scheduled,
            self@.wf(),
    {
        proof {
            use_type_invariant(self);
        }
        self.scheduled
    }

    /// What the next tick starts with: the enter callbacks of a state that was
    /// not entered yet, else its update callbacks.
    pub fn stage(&self) -> (stage: Stage)
        ensures
            stage == self@.stage(),
    {
        if self.entered {
            Stage::Update(self.current)
        } else {
            Stage::Enter(self.current)
        }
    }

    /// Requests a transition to `state`.
    ///
    /// The request is granted when `state` differs from the active state, the
    /// active state has been entered and no other request is waiting. A
    /// refused request leaves the machine as it was.
    pub fn set(&mut self, state: GameState) -> (result: Result<(), StateError>)
        ensures
            result == old(self)@.set_result(state),
            final(self)@ == old(self)@.set(state),
    {
        if state == self.current {
            Err(StateError::AlreadyInState)
        } else if self.scheduled.is_some() || !self.entered {
            Err(StateError::StateAlreadyQueued)
        } else {
            self.scheduled = Some(state);
            Ok(())
        }
    }

    /// The state whose exit callbacks have to run before the tick ends.
    pub fn exiting(&self) -> (state: Option<GameState>)
        ensures
            state == self@.exiting(),
    {
        if self.entered && self.scheduled.is_some() {
            Some(self.current)
        } else {
            None
        }
    }

    /// Ends the tick: a state that ran its enter callbacks counts as entered,
    /// and a waiting request takes effect.
    pub fn advance(&mut self)
        ensures
            final(self)@ == old(self)@.advance(),
    {
        proof {
            use_type_invariant(&*self);
        }
        if !self.entered {
            self.entered = true;
        } else {
            match self.scheduled {
                Some(next) => {
                    *self = StateMachine { current: next, scheduled: None, entered: false };
                },
                None => {},
            }
        }
    }
}

} // verus!
