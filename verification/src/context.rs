//! Negotiating a rendering context: the profiles are tried in order, and the
//! first one that the GL layer can create is settled on.
//!
//! Creating a context is the GL layer's work. The negotiator only decides
//! which profile to try next, from the outcomes reported so far.

use vstd::prelude::*;

verus! {

/// A flavour of rendering context that can be asked for.
#[derive(Clone, Copy, Debug, PartialEq, Eq, Structural)]
pub enum ContextProfile {
    /// Whatever the GL layer picks when nothing is asked for; on desktops a
    /// core profile.
    Default,
    /// OpenGL ES, at whatever version is on offer.
    Gles,
    /// Desktop OpenGL at a fixed version, for old devices.
    Legacy { major: u8, minor: u8 },
}

/// How one attempt to create a context ended.
#[derive(Clone, Copy, Debug, PartialEq, Eq, Structural)]
pub enum AttemptOutcome {
    Created,
    Failed,
}

/// What the negotiation calls for next.
#[derive(Clone, Copy, Debug, PartialEq, Eq, Structural)]
pub enum Negotiation {
    /// Try to create a context with this profile and report the outcome.
    Attempt(ContextProfile),
    /// A context with this profile was created; nothing is left to try.
    Settled(ContextProfile),
    /// Every profile failed.
    Exhausted,
}

/// The profiles in the order of preference: the default, then OpenGL ES,
/// then OpenGL 2.1.
pub open spec fn fallback_order() -> Seq<ContextProfile> {
    seq![
        ContextProfile::Default,
        ContextProfile::Gles,
        ContextProfile::Legacy { major: 2, minor: 1 },
    ]
}

/// The profiles to try, in the order of preference.
pub fn fallback_profiles() -> (profiles: Vec<ContextProfile>)
    ensures
        profiles@ == fallback_order(),
{
    let mut profiles: Vec<ContextProfile> = Vec::new();
    profiles.push(ContextProfile::Default);
    profiles.push(ContextProfile::Gles);
    profiles.push(ContextProfile::Legacy { major: 2, minor: 1 });
    assert(profiles@ =~= fallback_order());
    profiles
}

/// How far a negotiation has come: how many profiles have failed, and
/// whether the one after them was created.
pub struct Progress {
    pub failed: nat,
    pub settled: bool,
}

impl Progress {
    /// Nothing attempted yet.
    pub open spec fn start() -> Progress {
        Progress { failed: 0, settled: false }
    }

    /// Progress that can arise over `count` profiles.
    pub open spec fn wf(self, count: nat) -> bool {
        self.failed <= count && (self.settled ==> self.failed < count)
    }

    /// An attempt is under way, so an outcome is awaited.
    pub open spec fn awaiting(self, count: nat) -> bool {
        !self.settled && self.failed < count
    }

    /// Number of attempts whose outcome has been taken in.
    pub open spec fn attempts(self) -> nat {
        if self.settled {
            self.failed + 1
        } else {
            self.failed
        }
    }

    /// Progress once `outcome` has been reported. An outcome that no attempt
    /// awaits changes nothing.
    pub open spec fn after(self, count: nat, outcome: AttemptOutcome) -> Progress {
        if !self.awaiting(count) {
            self
        } else if outcome == AttemptOutcome::Created {
            Progress { failed: self.failed, settled: true }
        } else {
            Progress { failed: self.failed + 1, settled: false }
        }
    }

    /// What is called for at this point.
    pub open spec fn next(self, profiles: Seq<ContextProfile>) -> Negotiation {
        if self.failed >= profiles.len() {
            Negotiation::Exhausted
        } else if self.settled {
            Negotiation::Settled(profiles[self.failed as int])
        } else {
            Negotiation::Attempt(profiles[self.failed as int])
        }
    }
}

/// Progress over `count` profiles once `outcomes` have been reported, one
/// after the other.
pub open spec fn progress_after(count: nat, outcomes: Seq<AttemptOutcome>) -> Progress
    decreases outcomes.len(),
{
    if outcomes.len() == 0 {
        Progress::start()
    } else {
        progress_after(count, outcomes.drop_last()).after(count, outcomes.last())
    }
}

/// The outcomes reported so far determine the progress: the profiles counted
/// as failed are those whose attempts failed, one after the other from the
/// first; a negotiation is settled by the first attempt that did not fail;
/// and while an attempt is awaited, every outcome so far was a failure.
pub proof fn lemma_progress_follows_outcomes(count: nat, outcomes: Seq<AttemptOutcome>)
    ensures
        ({
            let p = progress_after(count, outcomes);
            &&& p.wf(count)
            &&& p.failed <= outcomes.len()
            &&& forall|i: int| 0 <= i < p.failed ==> #[trigger] outcomes[i] == AttemptOutcome::Failed
            &&& p.settled ==> p.failed < outcomes.len() && outcomes[p.failed as int]
                == AttemptOutcome::Created
            &&& p.awaiting(count) ==> p.failed == outcomes.len()
            &&& !p.settled && !p.awaiting(count) ==> p.failed == count
        }),
    decreases outcomes.len(),
{
    if outcomes.len() > 0 {
        let earlier = outcomes.drop_last();
        lemma_progress_follows_outcomes(count, earlier);
        let before = progress_after(count, earlier);
        let p = progress_after(count, outcomes);
        assert forall|i: int| 0 <= i < p.failed implies #[trigger] outcomes[i]
            == AttemptOutcome::Failed by {
            if i < before.failed {
                assert(earlier[i] == outcomes[i]);
            }
        }
        if before.settled {
            assert(earlier[before.failed as int] == outcomes[before.failed as int]);
        }
    }
}

/// While only failures come in and profiles are left, each failure moves the
/// negotiation on by one profile.
pub proof fn lemma_failures_advance(count: nat, outcomes: Seq<AttemptOutcome>)
    requires
        outcomes.len() <= count,
        forall|i: int| 0 <= i < outcomes.len() ==> #[trigger] outcomes[i] == AttemptOutcome::Failed,
    ensures
        progress_after(count, outcomes) == (Progress { failed: outcomes.len(), settled: false }),
    decreases outcomes.len(),
{
    if outcomes.len() > 0 {
        let earlier = outcomes.drop_last();
        assert forall|i: int| 0 <= i < earlier.len() implies #[trigger] earlier[i]
            == AttemptOutcome::Failed by {
            assert(earlier[i] == outcomes[i]);
        }
        lemma_failures_advance(count, earlier);
    }
}

/// A negotiation settles on a profile only after every profile before it
/// has been attempted, in order, and has failed: before each of the earlier
/// outcomes came in, and before the one that settled it, the negotiation
/// called for an attempt with the profile at that place in the list.
pub proof fn lemma_settled_after_earlier_attempts(
    profiles: Seq<ContextProfile>,
    outcomes: Seq<AttemptOutcome>,
)
    requires
        progress_after(profiles.len(), outcomes).settled,
    ensures
        ({
            let at = progress_after(profiles.len(), outcomes).failed as int;
            &&& at < profiles.len()
            &&& at < outcomes.len()
            &&& progress_after(profiles.len(), outcomes).next(profiles) == Negotiation::Settled(
                profiles[at],
            )
            &&& outcomes[at] == AttemptOutcome::Created
            &&& forall|i: int| 0 <= i < at ==> #[trigger] outcomes[i] == AttemptOutcome::Failed
            &&& forall|i: int|
                0 <= i <= at ==> progress_after(profiles.len(), #[trigger] outcomes.take(i)).next(
                    profiles,
                ) == Negotiation::Attempt(profiles[i])
        }),
{
    let count = profiles.len();
    lemma_progress_follows_outcomes(count, outcomes);
    let at = progress_after(count, outcomes).failed as int;
    assert forall|i: int| 0 <= i <= at implies progress_after(
        count,
        #[trigger] outcomes.take(i),
    ).next(profiles) == Negotiation::Attempt(profiles[i]) by {
        let seen = outcomes.take(i);
        assert forall|j: int| 0 <= j < seen.len() implies #[trigger] seen[j]
            == AttemptOutcome::Failed by {
            assert(seen[j] == outcomes[j]);
        }
        lemma_failures_advance(count, seen);
    }
}

/// A negotiation runs out of profiles exactly when as many failures have
/// come in, from the first outcome on, as there are profiles.
pub proof fn lemma_exhausted_when_all_failed(
    profiles: Seq<ContextProfile>,
    outcomes: Seq<AttemptOutcome>,
)
    ensures
        progress_after(profiles.len(), outcomes).next(profiles) == Negotiation::Exhausted <==> {
            &&& profiles.len() <= outcomes.len()
            &&& forall|i: int|
                0 <= i < profiles.len() ==> #[trigger] outcomes[i] == AttemptOutcome::Failed
        },
{
    let count = profiles.len();
    lemma_progress_follows_outcomes(count, outcomes);
    let p = progress_after(count, outcomes);
    if p.settled && count <= outcomes.len() {
        assert(outcomes[p.failed as int] == AttemptOutcome::Created);
    }
}

/// Decides which profile to try next while a context is being created.
#[derive(Clone, Debug)]
pub struct Negotiator {
    profiles: Vec<ContextProfile>,
    failed: usize,
    settled: bool,
}

impl Negotiator {
    /// The profiles, in the order in which they are tried.
    pub closed spec fn profiles(&self) -> Seq<ContextProfile> {
        self.profiles@
    }

    /// How far the negotiation has come.
    pub closed spec fn progress(&self) -> Progress {
        Progress { failed: self.failed as nat, settled: self.settled }
    }

    /// The progress is one that can arise over the profiles.
    pub open spec fn wf(&self) -> bool {
        self.progress().wf(self.profiles().len())
    }

    /// A negotiation over `profiles`, with nothing attempted yet.
    pub fn new(profiles: Vec<ContextProfile>) -> (n: Negotiator)
        ensures
            n.wf(),
            n.profiles() == profiles@,
            n.progress() == Progress::start(),
    {
        Negotiator { profiles, failed: 0, settled: false }
    }

    /// A negotiation over the default profile, OpenGL ES and OpenGL 2.1.
    pub fn with_fallbacks() -> (n: Negotiator)
        ensures
            n.wf(),
            n.profiles() == fallback_order(),
            n.progress() == Progress::start(),
    {
        Negotiator::new(fallback_profiles())
    }

    /// What the negotiation calls for now.
    pub fn next(&self) -> (step: Negotiation)
        requires
            self.wf(),
        ensures
            step == self.progress().next(self.profiles()),
    {
        if self.failed >= self.profiles.len() {
            Negotiation::Exhausted
        } else if self.settled {
            Negotiation::Settled(self.profiles[self.failed])
        } else {
            Negotiation::Attempt(self.profiles[self.failed])
        }
    }

    /// Takes in the outcome of the attempt that `next` called for, and says
    /// what is called for after it. Where no attempt was called for, nothing
    /// changes.
    pub fn report(&mut self, outcome: AttemptOutcome) -> (step: Negotiation)
        requires
            old(self).wf(),
        ensures
            final(self).wf(),
            final(self).profiles() == old(self).profiles(),
            final(self).progress() == old(self).progress().after(
                old(self).profiles().len(),
                outcome,
            ),
            step == final(self).progress().next(final(self).profiles()),
    {
        if !self.settled && self.failed < self.profiles.len() {
            match outcome {
                AttemptOutcome::Created => {
                    self.settled = true;
                },
                AttemptOutcome::Failed => {
                    self.failed = self.failed + 1;
                },
            }
        }
        self.next()
    }

    /// Number of attempts whose outcome has been reported.
    pub fn attempts(&self) -> (n: usize)
        requires
            self.wf(),
        ensures
            n == self.progress().attempts(),
    {
        if self.settled && self.failed < self.profiles.len() {
            self.failed + 1
        } else {
            self.failed
        }
    }
}

} // verus!
