//! Dispatching window events: from the phase the application is in and the
//! signal that came, the phase it moves to and the action to carry out.
//!
//! A window, a surface and a current context are made together, once, on the
//! first resume, and kept until the loop ends.

use vstd::prelude::*;

verus! {

/// Where the application stands.
#[derive(Clone, Copy, Debug, PartialEq, Eq, Structural)]
pub enum Phase {
    /// A context that is not current is held, and no window yet.
    NoWindow,
    /// A window was made during setup; the context is not current yet.
    Created,
    /// A window, its surface and the context current on it are held.
    Running,
}

/// The kinds of event that the loop hands over.
#[derive(Clone, Copy, Debug, PartialEq, Eq, Structural)]
pub enum Signal {
    /// Rendering resources may be acquired now.
    Resumed,
    /// The user asked to close the window.
    CloseRequested,
    /// No event is pending.
    Idle,
    /// The window asks to be drawn again.
    RedrawRequested,
    /// Anything else.
    Other,
}

/// What the loop is to do in answer to a signal.
#[derive(Clone, Copy, Debug, PartialEq, Eq, Structural)]
pub enum Action {
    /// Make a surface for the window, make the context current on it and
    /// keep the three together; make the window first where none exists.
    Activate { create_window: bool },
    /// End the loop.
    Exit,
    /// Ask the window to request a redraw.
    RequestRedraw,
    /// Nothing to do.
    Nothing,
    /// The signal cannot be served: there is no context left to make current.
    /// The loop is to stop with a diagnostic.
    Fatal,
}

/// The phase that follows `phase` on `signal`.
pub open spec fn phase_after(phase: Phase, signal: Signal) -> Phase {
    if signal == Signal::Resumed {
        Phase::Running
    } else {
        phase
    }
}

/// The action called for by `signal` in `phase`.
pub open spec fn action_for(phase: Phase, signal: Signal) -> Action {
    match signal {
        Signal::Resumed => match phase {
            Phase::NoWindow => Action::Activate { create_window: true },
            Phase::Created => Action::Activate { create_window: false },
            Phase::Running => Action::Fatal,
        },
        Signal::CloseRequested => Action::Exit,
        Signal::Idle => if phase == Phase::Running {
            Action::RequestRedraw
        } else {
            Action::Nothing
        },
        Signal::RedrawRequested => Action::Nothing,
        Signal::Other => Action::Nothing,
    }
}

/// Number of window, surface and context triples held in `phase`.
pub open spec fn triples_held(phase: Phase) -> nat {
    if phase == Phase::Running {
        1
    } else {
        0
    }
}

/// The phase reached from `start` once `signals` have been handled in turn.
pub open spec fn phase_through(start: Phase, signals: Seq<Signal>) -> Phase
    decreases signals.len(),
{
    if signals.len() == 0 {
        start
    } else {
        phase_after(phase_through(start, signals.drop_last()), signals.last())
    }
}

/// Number of resume signals among `signals`.
pub open spec fn resumes(signals: Seq<Signal>) -> nat
    decreases signals.len(),
{
    if signals.len() == 0 {
        0
    } else if signals.last() == Signal::Resumed {
        resumes(signals.drop_last()) + 1
    } else {
        resumes(signals.drop_last())
    }
}

/// Number of times that handling `signals` from `start` calls for a triple
/// to be made.
pub open spec fn activations(start: Phase, signals: Seq<Signal>) -> nat
    decreases signals.len(),
{
    if signals.len() == 0 {
        0
    } else if action_for(phase_through(start, signals.drop_last()), signals.last()) is Activate {
        activations(start, signals.drop_last()) + 1
    } else {
        activations(start, signals.drop_last())
    }
}

/// Handling `signals` from `start` never calls for the loop to stop with a
/// diagnostic.
pub open spec fn survives(start: Phase, signals: Seq<Signal>) -> bool
    decreases signals.len(),
{
    signals.len() == 0 || (survives(start, signals.drop_last()) && action_for(
        phase_through(start, signals.drop_last()),
        signals.last(),
    ) != Action::Fatal)
}

/// A triple, once held, is held for good: no signal unmakes it, and none
/// calls for another to be made in its place.
pub proof fn lemma_triple_is_kept(signals: Seq<Signal>)
    ensures
        phase_through(Phase::Running, signals) == Phase::Running,
        activations(Phase::Running, signals) == 0,
    decreases signals.len(),
{
    if signals.len() > 0 {
        lemma_triple_is_kept(signals.drop_last());
    }
}

/// From a phase without a triple, the application runs exactly when a
/// resume signal has come; until then it stays in the phase it started in.
/// A triple is made on the first resume signal and on no other signal, so at
/// most one is ever held. Where no signal proved fatal, at most one resume
/// signal has come.
pub proof fn lemma_running_by_one_resume(start: Phase, signals: Seq<Signal>)
    requires
        start != Phase::Running,
    ensures
        phase_through(start, signals) == Phase::Running <==> resumes(signals) >= 1,
        phase_through(start, signals) != Phase::Running ==> phase_through(start, signals) == start,
        activations(start, signals) == triples_held(phase_through(start, signals)),
        triples_held(phase_through(start, signals)) <= 1,
        survives(start, signals) ==> resumes(signals) <= 1,
        survives(start, signals) && phase_through(start, signals) == Phase::Running ==> resumes(
            signals,
        ) == 1,
    decreases signals.len(),
{
    if signals.len() > 0 {
        lemma_running_by_one_resume(start, signals.drop_last());
    }
}

/// Holds the phase of the application between events.
#[derive(Clone, Copy, Debug, PartialEq, Eq, Structural)]
pub struct Dispatcher {
    pub phase: Phase,
}

impl Dispatcher {
    /// The dispatcher as setup leaves it: with or without a window, and a
    /// context that is not current.
    pub fn new(window_exists: bool) -> (d: Dispatcher)
        ensures
            d.phase == if window_exists {
                Phase::Created
            } else {
                Phase::NoWindow
            },
    {
        if window_exists {
            Dispatcher { phase: Phase::Created }
        } else {
            Dispatcher { phase: Phase::NoWindow }
        }
    }

    /// Whether a window, a surface and a current context are held.
    pub fn is_running(&self) -> (b: bool)
        ensures
            b == (self.phase == Phase::Running),
    {
        match self.phase {
            Phase::Running => true,
            _ => false,
        }
    }

    /// Takes in one signal: moves to the phase that follows and returns the
    /// action that the loop is to carry out.
    pub fn handle_event(&mut self, signal: Signal) -> (action: Action)
        ensures
            final(self).phase == phase_after(old(self).phase, signal),
            action == action_for(old(self).phase, signal),
    {
        match signal {
            Signal::Resumed => {
                let action = match self.phase {
                    Phase::NoWindow => Action::Activate { create_window: true },
                    Phase::Created => Action::Activate { create_window: false },
                    Phase::Running => Action::Fatal,
                };
                self.phase = Phase::Running;
                action
            },
            Signal::CloseRequested => Action::Exit,
            Signal::Idle => {
                if self.is_running() {
                    Action::RequestRedraw
                } else {
                    Action::Nothing
                }
            },
            Signal::RedrawRequested => Action::Nothing,
            Signal::Other => Action::Nothing,
        }
    }
}

} // verus!
