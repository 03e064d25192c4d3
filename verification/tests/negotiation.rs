use gl_bootstrap::context::{
    fallback_profiles, AttemptOutcome, ContextProfile, Negotiation, Negotiator,
};

const LEGACY: ContextProfile = ContextProfile::Legacy { major: 2, minor: 1 };

/// Drives a negotiation against a layer that can create exactly the profiles
/// in `supported`, and returns where it ended with the profiles attempted.
fn drive(
    mut negotiator: Negotiator,
    supported: &[ContextProfile],
) -> (Negotiation, Vec<ContextProfile>) {
    let mut attempted = Vec::new();
    let mut step = negotiator.next();
    while let Negotiation::Attempt(profile) = step {
        attempted.push(profile);
        let outcome = if supported.contains(&profile) {
            AttemptOutcome::Created
        } else {
            AttemptOutcome::Failed
        };
        step = negotiator.report(outcome);
    }
    assert_eq!(negotiator.attempts(), attempted.len());
    (step, attempted)
}

#[test]
fn fallback_order_is_default_gles_legacy() {
    assert_eq!(
        fallback_profiles(),
        vec![ContextProfile::Default, ContextProfile::Gles, LEGACY]
    );
}

#[test]
fn fresh_negotiation_asks_for_the_first_profile() {
    let n = Negotiator::with_fallbacks();
    assert_eq!(n.next(), Negotiation::Attempt(ContextProfile::Default));
    assert_eq!(n.attempts(), 0);
}

#[test]
fn first_success_ends_the_negotiation() {
    let (end, attempted) = drive(
        Negotiator::with_fallbacks(),
        &[ContextProfile::Default, ContextProfile::Gles, LEGACY],
    );
    assert_eq!(end, Negotiation::Settled(ContextProfile::Default));
    assert_eq!(attempted, vec![ContextProfile::Default]);
}

#[test]
fn gles_is_tried_after_the_default_fails() {
    let (end, attempted) = drive(Negotiator::with_fallbacks(), &[ContextProfile::Gles, LEGACY]);
    assert_eq!(end, Negotiation::Settled(ContextProfile::Gles));
    assert_eq!(attempted, vec![ContextProfile::Default, ContextProfile::Gles]);
}

#[test]
fn legacy_is_reached_only_after_both_others_were_tried() {
    let (end, attempted) = drive(Negotiator::with_fallbacks(), &[LEGACY]);
    assert_eq!(end, Negotiation::Settled(LEGACY));
    assert_eq!(attempted.len(), 3);
    assert_eq!(
        attempted,
        vec![ContextProfile::Default, ContextProfile::Gles, LEGACY]
    );
}

#[test]
fn every_step_of_a_legacy_only_negotiation() {
    let mut n = Negotiator::with_fallbacks();
    assert_eq!(n.next(), Negotiation::Attempt(ContextProfile::Default));
    assert_eq!(
        n.report(AttemptOutcome::Failed),
        Negotiation::Attempt(ContextProfile::Gles)
    );
    assert_eq!(n.attempts(), 1);
    assert_eq!(n.report(AttemptOutcome::Failed), Negotiation::Attempt(LEGACY));
    assert_eq!(n.attempts(), 2);
    assert_eq!(n.report(AttemptOutcome::Created), Negotiation::Settled(LEGACY));
    assert_eq!(n.attempts(), 3);
    assert_eq!(n.next(), Negotiation::Settled(LEGACY));
}

#[test]
fn all_failures_exhaust_the_profiles() {
    let (end, attempted) = drive(Negotiator::with_fallbacks(), &[]);
    assert_eq!(end, Negotiation::Exhausted);
    assert_eq!(
        attempted,
        vec![ContextProfile::Default, ContextProfile::Gles, LEGACY]
    );
}

#[test]
fn reports_after_the_end_change_nothing() {
    let mut n = Negotiator::with_fallbacks();
    n.report(AttemptOutcome::Failed);
    assert_eq!(
        n.report(AttemptOutcome::Created),
        Negotiation::Settled(ContextProfile::Gles)
    );
    assert_eq!(
        n.report(AttemptOutcome::Failed),
        Negotiation::Settled(ContextProfile::Gles)
    );
    assert_eq!(
        n.report(AttemptOutcome::Created),
        Negotiation::Settled(ContextProfile::Gles)
    );
    assert_eq!(n.attempts(), 2);

    let mut n = Negotiator::with_fallbacks();
    for _ in 0..3 {
        n.report(AttemptOutcome::Failed);
    }
    assert_eq!(n.next(), Negotiation::Exhausted);
    assert_eq!(n.report(AttemptOutcome::Created), Negotiation::Exhausted);
    assert_eq!(n.report(AttemptOutcome::Failed), Negotiation::Exhausted);
    assert_eq!(n.attempts(), 3);
}

#[test]
fn negotiation_over_a_given_list() {
    let modern = ContextProfile::Legacy { major: 4, minor: 6 };
    let profiles = vec![modern, LEGACY, ContextProfile::Gles, ContextProfile::Default];
    let (end, attempted) = drive(Negotiator::new(profiles.clone()), &[ContextProfile::Gles]);
    assert_eq!(end, Negotiation::Settled(ContextProfile::Gles));
    assert_eq!(attempted, vec![modern, LEGACY, ContextProfile::Gles]);
}

#[test]
fn negotiation_over_no_profiles_is_exhausted_at_once() {
    let mut n = Negotiator::new(Vec::new());
    assert_eq!(n.next(), Negotiation::Exhausted);
    assert_eq!(n.report(AttemptOutcome::Created), Negotiation::Exhausted);
    assert_eq!(n.attempts(), 0);
}
