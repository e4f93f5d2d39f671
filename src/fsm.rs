//! The game-round state machine. A transition takes two ticks: one on which
//! the current state is being exited, so that its entities can be torn down,
//! and one on which the next state is being entered, so that its entities can
//! be spawned. Only then does the next state become current.
use vstd::prelude::*;

verus! {

/// Who plays the arena.
#[derive(Debug, Clone, Copy, PartialEq, Eq, Structural)]
pub enum Mode {
    AI,
    Player,
}

#[derive(Debug, Clone, Copy, PartialEq, Eq, Structural)]
pub enum GameState {
    /// Launch game state
    Begin,
    MainMenu,
    Manager,
    Arena(Mode),
    ArenaPause(Mode),
    /// Round summary. Physics goes on, but the action is finished.
    ArenaOver(Mode),
    /// Helper to clean up the arena
    BetweenRounds,
}

impl Default for GameState {
    fn default() -> (r: GameState)
        ensures
            r == GameState::Begin,
    {
        GameState::Begin
    }
}

impl GameState {
    /// The arena mode of the arena states.
    pub open spec fn mode_of(self) -> Option<Mode> {
        match self {
            GameState::Arena(mode) => Some(mode),
            GameState::ArenaPause(mode) => Some(mode),
            GameState::ArenaOver(mode) => Some(mode),
            _ => None,
        }
    }

    /// Play is not over yet.
    pub open spec fn live(self) -> bool {
        self is Arena || self is ArenaPause
    }

    /// Play is not over yet.
    pub fn is_live_arena(&self) -> (r: bool)
        ensures
            r == self.live(),
    {
        match self {
            GameState::Arena(_) => true,
            GameState::ArenaPause(_) => true,
            _ => false,
        }
    }

    pub fn is_arena(&self) -> (r: bool)
        ensures
            r == self.mode_of() is Some,
    {
        self.arena_mode().is_some()
    }

    pub fn arena_mode(&self) -> (r: Option<Mode>)
        ensures
            r == self.mode_of(),
    {
        match *self {
            GameState::Arena(mode) => Some(mode),
            GameState::ArenaPause(mode) => Some(mode),
            GameState::ArenaOver(mode) => Some(mode),
            _ => None,
        }
    }
}

/// The states an entity belongs to: it is torn down when play leaves them.
#[derive(Debug)]
pub enum ForStates {
    /// Exactly this state.
    Only(GameState),
    /// Any of these states.
    OneOf(Vec<GameState>),
    /// Any arena state, over or not.
    Arena,
    /// Any arena state where play goes on.
    LiveArena,
}

impl Clone for ForStates {
    fn clone(&self) -> (r: Self)
        ensures
            forall|s: GameState| r.includes(s) == self.includes(s),
    {
        match self {
            ForStates::Only(s) => ForStates::Only(*s),
            ForStates::OneOf(states) => ForStates::OneOf(states.clone()),
            ForStates::Arena => ForStates::Arena,
            ForStates::LiveArena => ForStates::LiveArena,
        }
    }
}

impl ForStates {
    pub open spec fn includes(&self, state: GameState) -> bool {
        match self {
            ForStates::Only(s) => state == *s,
            ForStates::OneOf(states) => states@.contains(state),
            ForStates::Arena => state.mode_of() is Some,
            ForStates::LiveArena => state.live(),
        }
    }

    pub fn covers(&self, state: &GameState) -> (r: bool)
        ensures
            r == self.includes(*state),
    {
        match self {
            ForStates::Only(s) => *state == *s,
            ForStates::OneOf(states) => {
                let mut i: usize = 0;
                while i < states.len()
                    invariant
                        self.includes(*state) == states@.contains(*state),
                        i <= states@.len(),
                        forall|j: int| 0 <= j < i ==> states@[j] != *state,
                    decreases states@.len() - i,
                {
                    if states[i] == *state {
                        proof {
                            assert(states@[i as int] == *state);
                        }
                        return true;
                    }
                    i = i + 1;
                }
                false
            },
            ForStates::Arena => state.is_arena(),
            ForStates::LiveArena => state.is_live_arena(),
        }
    }
}

/// Where a transition stands.
#[derive(Debug, Clone, Copy, PartialEq, Eq, Structural)]
pub enum Transition {
    /// The current state is being exited for the given one.
    ExitFor(GameState),
    /// The given state is being entered.
    Enter(GameState),
    /// No transition is pending.
    Settled,
}

/// Why a transition request was dropped.
#[derive(Debug, Clone, Copy, PartialEq, Eq, Structural)]
pub enum TransitionError {
    /// Another transition is still pending.
    DuplicateTransitionRequest,
}

/// The machine after one tick.
pub open spec fn updated(m: (GameState, Transition)) -> (GameState, Transition) {
    match m.1 {
        Transition::ExitFor(next) => (m.0, Transition::Enter(next)),
        Transition::Enter(next) => (next, Transition::Settled),
        Transition::Settled => m,
    }
}

/// Whether a transition request is taken.
pub open spec fn accepts(m: (GameState, Transition)) -> bool {
    m.1 is Settled
}

/// The machine after a request to go to `state`.
pub open spec fn transited(m: (GameState, Transition), state: GameState) -> (GameState, Transition) {
    if accepts(m) {
        (m.0, Transition::ExitFor(state))
    } else {
        m
    }
}

#[derive(Debug)]
pub struct GameStateFsm {
    current: GameState,
    next: Transition,
}

impl GameStateFsm {
    /// The current state and the pending transition.
    pub closed spec fn model(&self) -> (GameState, Transition) {
        (self.current, self.next)
    }

    /// Starts at `Begin`, already on the way to `initial`.
    pub fn new(initial: GameState) -> (r: GameStateFsm)
        ensures
            r.model() == (GameState::Begin, Transition::ExitFor(initial)),
    {
        GameStateFsm { current: GameState::default(), next: Transition::ExitFor(initial) }
    }

    pub fn current(&self) -> (r: &GameState)
        ensures
            *r == self.model().0,
    {
        &self.current
    }

    pub fn is(&self, state: GameState) -> (r: bool)
        ensures
            r == (self.model().0 == state),
    {
        self.current == state
    }

    /// True on the exit tick of a transition that leaves the group: the
    /// current state is in it and the next one is not.
    pub fn exiting_group(&self, states: &ForStates) -> (r: bool)
        ensures
            r == match self.model().1 {
                Transition::ExitFor(next) => states.includes(self.model().0) && !states.includes(
                    next,
                ),
                _ => false,
            },
    {
        match &self.next {
            Transition::ExitFor(next) => states.covers(&self.current) && !states.covers(next),
            _ => false,
        }
    }

    /// The state being entered, on the enter tick of a transition.
    pub fn entering(&self) -> (r: Option<&GameState>)
        ensures
            match self.model().1 {
                Transition::Enter(next) => r matches Some(s) && *s == next,
                _ => r is None,
            },
    {
        match &self.next {
            Transition::Enter(next) => Some(next),
            _ => None,
        }
    }

    /// True on the enter tick of a transition into the group from a state
    /// outside it.
    pub fn entering_group_pred(&self, states: &ForStates) -> (r: bool)
        ensures
            r == match self.model().1 {
                Transition::Enter(next) => states.includes(next) && !states.includes(
                    self.model().0,
                ),
                _ => false,
            },
    {
        match &self.next {
            Transition::Enter(next) => states.covers(next) && !states.covers(&self.current),
            _ => false,
        }
    }

    /// Requests a transition to `state`. While another one is pending the
    /// request is dropped and reported.
    pub fn transit_to(&mut self, state: GameState) -> (r: Result<(), TransitionError>)
        ensures
            final(self).model() == transited(old(self).model(), state),
            r is Ok <==> accepts(old(self).model()),
    {
        if self.next != Transition::Settled {
            return Err(TransitionError::DuplicateTransitionRequest);
        }
        self.next = Transition::ExitFor(state);
        Ok(())
    }

    /// Called every tick to move a pending transition on by one phase.
    pub fn update(&mut self)
        ensures
            final(self).model() == updated(old(self).model()),
    {
        match self.next {
            Transition::ExitFor(next) => {
                // We have exited current state, we can enter the new one
                self.next = Transition::Enter(next);
            },
            Transition::Enter(next) => {
                // We have entered the new one it is now current
                self.current = next;
                self.next = Transition::Settled;
            },
            Transition::Settled => {},
        }
    }
}

/// From a settled state `a`, a request for `b` is taken; two ticks later `b`
/// is current with nothing pending, and a third tick changes nothing. While
/// the transition is pending, a request for any `c` is refused and leaves the
/// pending target as it was.
pub proof fn lemma_handshake(a: GameState, b: GameState, c: GameState)
    ensures
        accepts((a, Transition::Settled)),
        transited((a, Transition::Settled), b) == (a, Transition::ExitFor(b)),
        updated(transited((a, Transition::Settled), b)) == (a, Transition::Enter(b)),
        updated(updated(transited((a, Transition::Settled), b))) == (b, Transition::Settled),
        updated(updated(updated(transited((a, Transition::Settled), b)))) == updated(
            updated(transited((a, Transition::Settled), b)),
        ),
        !accepts((a, Transition::ExitFor(b))),
        transited((a, Transition::ExitFor(b)), c) == (a, Transition::ExitFor(b)),
        !accepts((a, Transition::Enter(b))),
        transited((a, Transition::Enter(b)), c) == (a, Transition::Enter(b)),
{
}

} // verus!
