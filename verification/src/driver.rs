//! The order in which a simulation seeds, draws, advances and waits.
//!
//! The driver decides; its caller acts. Each [`Driver::step`] names the next
//! thing to do and moves on, until the simulation has run its generations.

use vstd::prelude::*;

verus! {

/// The number of generations that a simulation runs through.
pub const GENERATIONS: u32 = 500;

/// The pause between two frames, in milliseconds.
pub const FRAME_DELAY_MS: u64 = 25;

/// Where a simulation stands.
#[derive(Clone, Copy, Debug, PartialEq, Eq, Structural)]
pub enum Phase {
    /// The table has yet to be populated.
    Initializing,
    /// The table is to be shown.
    Rendering,
    /// The table is to move on by one generation.
    Advancing,
    /// The frame just computed is held back for a moment.
    Waiting,
    /// The simulation is over.
    Terminated,
}

/// What the caller of a driver is to do next.
#[derive(Clone, Copy, Debug, PartialEq, Eq, Structural)]
pub enum Action {
    /// Populate the table.
    Seed,
    /// Show the table.
    Render,
    /// Replace the table by its next generation.
    Advance,
    /// Pause for the delay between frames.
    Wait,
    /// Nothing is left to do.
    Stop,
}

/// The state of a simulation: its phase, and the generations that it has
/// not begun yet.
#[derive(Clone, Copy, Debug, PartialEq, Eq, Structural)]
pub struct Driver {
    pub phase: Phase,
    pub remaining: u32,
}

/// The action that a phase asks for.
pub open spec fn action_of(phase: Phase) -> Action {
    match phase {
        Phase::Initializing => Action::Seed,
        Phase::Rendering => Action::Render,
        Phase::Advancing => Action::Advance,
        Phase::Waiting => Action::Wait,
        Phase::Terminated => Action::Stop,
    }
}

/// The state that follows `d`. After a frame is shown the next generation
/// begins if one is left, and the simulation ends if none is.
pub open spec fn successor(d: Driver) -> Driver {
    match d.phase {
        Phase::Initializing => Driver { phase: Phase::Rendering, remaining: d.remaining },
        Phase::Rendering => if d.remaining > 0 {
            Driver { phase: Phase::Advancing, remaining: (d.remaining - 1) as u32 }
        } else {
            Driver { phase: Phase::Terminated, remaining: 0 }
        },
        Phase::Advancing => Driver { phase: Phase::Waiting, remaining: d.remaining },
        Phase::Waiting => Driver { phase: Phase::Rendering, remaining: d.remaining },
        Phase::Terminated => d,
    }
}

/// The state that `d` is in after `n` steps.
pub open spec fn after(d: Driver, n: nat) -> Driver
    decreases n,
{
    if n == 0 {
        d
    } else {
        after(successor(d), (n - 1) as nat)
    }
}

/// How often `action` is asked for in the first `n` steps from `d`.
pub open spec fn count_within(d: Driver, n: nat, action: Action) -> nat
    decreases n,
{
    if n == 0 {
        0
    } else {
        (if action_of(d.phase) == action {
            1nat
        } else {
            0nat
        }) + count_within(successor(d), (n - 1) as nat, action)
    }
}

impl Driver {
    /// A simulation that has not started and will run `generations`
    /// generations.
    pub fn new(generations: u32) -> (driver: Driver)
        ensures
            driver == (Driver { phase: Phase::Initializing, remaining: generations }),
    {
        Driver { phase: Phase::Initializing, remaining: generations }
    }

    /// Whether the simulation is over.
    pub fn is_terminated(&self) -> (over: bool)
        ensures
            over == (self.phase == Phase::Terminated),
    {
        self.phase == Phase::Terminated
    }

    /// Names what is to be done now and moves on to the state that follows.
    pub fn step(&mut self) -> (action: Action)
        ensures
            action == action_of(old(self).phase),
            *final(self) == successor(*old(self)),
    {
        match self.phase {
            Phase::Initializing => {
                self.phase = Phase::Rendering;
                Action::Seed
            },
            Phase::Rendering => {
                if self.remaining > 0 {
                    self.remaining = self.remaining - 1;
                    self.phase = Phase::Advancing;
                } else {
                    self.phase = Phase::Terminated;
                }
                Action::Render
            },
            Phase::Advancing => {
                self.phase = Phase::Waiting;
                Action::Advance
            },
            Phase::Waiting => {
                self.phase = Phase::Rendering;
                Action::Wait
            },
            Phase::Terminated => Action::Stop,
        }
    }
}

/// From a state that is about to show a frame with `d.remaining`
/// generations left, the simulation ends after three steps for each of them
/// and one more, and by then it has advanced and waited once for each and
/// shown one frame more than that.
pub proof fn lemma_run_from_rendering(d: Driver)
    requires
        d.phase == Phase::Rendering,
    ensures
        after(d, (3 * d.remaining + 1) as nat) == (Driver {
            phase: Phase::Terminated,
            remaining: 0,
        }),
        count_within(d, (3 * d.remaining + 1) as nat, Action::Advance) == d.remaining,
        count_within(d, (3 * d.remaining + 1) as nat, Action::Wait) == d.remaining,
        count_within(d, (3 * d.remaining + 1) as nat, Action::Render) == d.remaining + 1,
        count_within(d, (3 * d.remaining + 1) as nat, Action::Seed) == 0,
        count_within(d, (3 * d.remaining + 1) as nat, Action::Stop) == 0,
    decreases d.remaining,
{
    if d.remaining == 0 {
        reveal_with_fuel(after, 2);
        reveal_with_fuel(count_within, 2);
    } else {
        let next = Driver { phase: Phase::Rendering, remaining: (d.remaining - 1) as u32 };
        lemma_run_from_rendering(next);
        let n = (3 * d.remaining + 1) as nat;
        assert(successor(successor(successor(d))) == next);
        assert((n - 3) as nat == (3 * next.remaining + 1) as nat);
        reveal_with_fuel(after, 4);
        reveal_with_fuel(count_within, 4);
    }
}

/// A simulation of `generations` generations populates the table once,
/// shows it, and then advances, waits and shows it again once for each
/// generation; after that it is over.
pub proof fn lemma_run_of_new(generations: u32)
    ensures
        ({
            let d = Driver { phase: Phase::Initializing, remaining: generations };
            let n = (3 * generations + 2) as nat;
            &&& after(d, n).phase == Phase::Terminated
            &&& count_within(d, n, Action::Seed) == 1
            &&& count_within(d, n, Action::Render) == generations + 1
            &&& count_within(d, n, Action::Advance) == generations
            &&& count_within(d, n, Action::Wait) == generations
            &&& count_within(d, n, Action::Stop) == 0
        }),
{
    let d = Driver { phase: Phase::Initializing, remaining: generations };
    lemma_run_from_rendering(successor(d));
    reveal_with_fuel(after, 2);
    reveal_with_fuel(count_within, 2);
}

/// Once a simulation is over it stays over, and asks for nothing more.
pub proof fn lemma_terminated_stays(d: Driver, n: nat)
    requires
        d.phase == Phase::Terminated,
    ensures
        after(d, n) == d,
        count_within(d, n, Action::Stop) == n,
    decreases n,
{
    if n > 0 {
        lemma_terminated_stays(d, (n - 1) as nat);
    }
}

} // verus!
