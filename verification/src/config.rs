//! Choosing one display configuration among the candidates a display offers.

use vstd::prelude::*;

verus! {

/// What the picker reads of a display configuration.
#[derive(Clone, Copy, Debug, PartialEq, Eq, Structural)]
pub struct Candidate {
    /// Whether the configuration supports transparency; `None` where the
    /// display cannot tell.
    pub transparency: Option<bool>,
    /// Samples per pixel of the configuration's multisample buffer.
    pub samples: u8,
}

impl Candidate {
    /// A candidate counts as transparent only where the display affirms it.
    pub open spec fn transparent(self) -> bool {
        self.transparency == Some(true)
    }

    /// A candidate with the given attributes.
    pub fn new(transparency: Option<bool>, samples: u8) -> (c: Candidate)
        ensures
            c.transparency == transparency,
            c.samples == samples,
    {
        Candidate { transparency, samples }
    }

    /// Whether the display affirms that the configuration is transparent.
    pub fn is_transparent(&self) -> (b: bool)
        ensures
            b == self.transparent(),
    {
        match self.transparency {
            Some(t) => t,
            None => false,
        }
    }
}

/// `candidate` takes the place of `held`: it brings transparency that `held`
/// lacks, or it has strictly more samples.
pub open spec fn prefers(candidate: Candidate, held: Candidate) -> bool {
    (candidate.transparent() && !held.transparent()) || candidate.samples > held.samples
}

/// Index of the candidate that a left-to-right reduction with `prefers` ends
/// on. The first candidate is held to begin with, and each later one replaces
/// the held candidate exactly when it is preferred to it.
pub open spec fn picked_index(s: Seq<Candidate>) -> int
    decreases s.len(),
{
    if s.len() <= 1 {
        0
    } else {
        let held = picked_index(s.drop_last());
        if prefers(s.last(), s[held]) {
            s.len() - 1
        } else {
            held
        }
    }
}

/// Index of the last transparent candidate, or -1 where there is none.
pub open spec fn last_transparent(s: Seq<Candidate>) -> int
    decreases s.len(),
{
    if s.len() == 0 {
        -1
    } else if s.last().transparent() {
        s.len() - 1
    } else {
        last_transparent(s.drop_last())
    }
}

/// The candidate held once the last transparent candidate has been seen.
pub open spec fn held_at_last_transparent(s: Seq<Candidate>) -> Candidate {
    s[picked_index(s.take(last_transparent(s) + 1))]
}

/// No candidate after the last transparent one has more samples than the
/// candidate held once the last transparent one has been seen.
pub open spec fn transparency_survives(s: Seq<Candidate>) -> bool {
    forall|j: int|
        last_transparent(s) < j < s.len() ==> (#[trigger] s[j]).samples
            <= held_at_last_transparent(s).samples
}

/// Whether `candidate` takes the place of `held`.
pub fn prefer(candidate: &Candidate, held: &Candidate) -> (b: bool)
    ensures
        b == prefers(*candidate, *held),
{
    let brings_transparency = candidate.is_transparent() && !held.is_transparent();
    brings_transparency || candidate.samples > held.samples
}

/// The picked index lies within the sequence.
pub proof fn lemma_picked_in_range(s: Seq<Candidate>)
    requires
        s.len() > 0,
    ensures
        0 <= picked_index(s) < s.len(),
    decreases s.len(),
{
    if s.len() > 1 {
        lemma_picked_in_range(s.drop_last());
    }
}

/// One step of the reduction: what is picked among the first `k + 1`
/// candidates, given what is picked among the first `k`.
pub proof fn lemma_picked_step(s: Seq<Candidate>, k: int)
    requires
        1 <= k < s.len(),
    ensures
        0 <= picked_index(s.take(k)) < k,
        picked_index(s.take(k + 1)) == if prefers(s[k], s[picked_index(s.take(k))]) {
            k
        } else {
            picked_index(s.take(k))
        },
{
    lemma_picked_in_range(s.take(k));
    assert(s.take(k + 1).drop_last() =~= s.take(k));
}

/// What is picked stays picked for as long as no later candidate is
/// preferred to it.
pub proof fn lemma_held_while_not_preferred(s: Seq<Candidate>, from: int, to: int)
    requires
        1 <= from <= to <= s.len(),
        forall|j: int|
            from <= j < to ==> !prefers(#[trigger] s[j], s[picked_index(s.take(from))]),
    ensures
        picked_index(s.take(to)) == picked_index(s.take(from)),
    decreases to - from,
{
    if from < to {
        lemma_held_while_not_preferred(s, from, to - 1);
        lemma_picked_step(s, to - 1);
    }
}

/// Where some candidate is transparent, `last_transparent` is the index of
/// one, and no candidate after it is transparent.
pub proof fn lemma_last_transparent(s: Seq<Candidate>)
    ensures
        -1 <= last_transparent(s) < s.len(),
        last_transparent(s) >= 0 ==> s[last_transparent(s)].transparent(),
        forall|j: int| last_transparent(s) < j < s.len() ==> !(#[trigger] s[j]).transparent(),
    decreases s.len(),
{
    if s.len() > 0 && !s.last().transparent() {
        lemma_last_transparent(s.drop_last());
        let last = last_transparent(s);
        assert forall|j: int| last < j < s.len() implies !(#[trigger] s[j]).transparent() by {
            if j < s.len() - 1 {
                assert(s.drop_last()[j] == s[j]);
            }
        }
    }
}

/// Right after a transparent candidate has been seen, a transparent
/// candidate is held.
pub proof fn lemma_transparent_held_after_seen(s: Seq<Candidate>, k: int)
    requires
        0 <= k < s.len(),
        s[k].transparent(),
    ensures
        0 <= picked_index(s.take(k + 1)) <= k,
        s[picked_index(s.take(k + 1))].transparent(),
{
    lemma_picked_in_range(s.take(k + 1));
    if k >= 1 {
        lemma_picked_step(s, k);
    }
}

/// The picker returns a member of the sequence it was given.
pub proof fn lemma_picks_a_member(s: Seq<Candidate>)
    requires
        s.len() > 0,
    ensures
        s.contains(s[picked_index(s)]),
{
    lemma_picked_in_range(s);
}

/// Of a single candidate, that candidate is picked.
pub proof fn lemma_picks_the_only_candidate(c: Candidate)
    ensures
        picked_index(seq![c]) == 0,
        seq![c][picked_index(seq![c])] == c,
{
}

/// No candidate after the picked one is preferred to it: a later candidate
/// that neither brings transparency nor has more samples leaves it in place.
pub proof fn lemma_nothing_later_is_preferred(s: Seq<Candidate>)
    requires
        s.len() > 0,
    ensures
        0 <= picked_index(s) < s.len(),
        forall|j: int|
            picked_index(s) < j < s.len() ==> !prefers(#[trigger] s[j], s[picked_index(s)]),
    decreases s.len(),
{
    if s.len() > 1 {
        let t = s.drop_last();
        lemma_nothing_later_is_preferred(t);
        let picked = picked_index(s);
        assert forall|j: int| picked < j < s.len() implies !prefers(#[trigger] s[j], s[picked]) by {
            if j < t.len() {
                assert(t[j] == s[j]);
            }
        }
    }
}

/// Where all candidates agree on transparency, the first candidate with the
/// greatest sample count is picked.
pub proof fn lemma_uniform_transparency_picks_first_maximum(s: Seq<Candidate>)
    requires
        s.len() > 0,
        forall|i: int, j: int|
            0 <= i < s.len() && 0 <= j < s.len() ==> (#[trigger] s[i]).transparent()
                == (#[trigger] s[j]).transparent(),
    ensures
        0 <= picked_index(s) < s.len(),
        forall|j: int| 0 <= j < s.len() ==> (#[trigger] s[j]).samples <= s[picked_index(s)].samples,
        forall|j: int|
            0 <= j < picked_index(s) ==> (#[trigger] s[j]).samples < s[picked_index(s)].samples,
    decreases s.len(),
{
    if s.len() > 1 {
        let t = s.drop_last();
        assert forall|i: int, j: int| 0 <= i < t.len() && 0 <= j < t.len() implies
            (#[trigger] t[i]).transparent() == (#[trigger] t[j]).transparent() by {
            assert(t[i] == s[i]);
            assert(t[j] == s[j]);
        }
        lemma_uniform_transparency_picks_first_maximum(t);
        let held = picked_index(t);
        let picked = picked_index(s);
        assert(t[held] == s[held]);
        assert(s[held].transparent() == s.last().transparent());
        assert forall|j: int| 0 <= j < s.len() implies (#[trigger] s[j]).samples
            <= s[picked].samples by {
            if j < t.len() {
                assert(t[j] == s[j]);
            }
        }
        assert forall|j: int| 0 <= j < picked implies (#[trigger] s[j]).samples
            < s[picked].samples by {
            assert(t[j] == s[j]);
        }
    }
}

/// Where some candidate is transparent, and none after the last transparent
/// one has more samples than the candidate held at that point, a transparent
/// candidate is picked.
pub proof fn lemma_transparent_candidate_wins(s: Seq<Candidate>)
    requires
        exists|i: int| 0 <= i < s.len() && (#[trigger] s[i]).transparent(),
        transparency_survives(s),
    ensures
        0 <= picked_index(s) < s.len(),
        s[picked_index(s)].transparent(),
{
    let last = last_transparent(s);
    lemma_last_transparent(s);
    lemma_picked_in_range(s);
    lemma_transparent_held_after_seen(s, last);
    lemma_held_while_not_preferred(s, last + 1, s.len() as int);
    assert(s.take(s.len() as int) =~= s);
}

/// Where a candidate after the last transparent one has more samples than
/// the candidate held at that point, a candidate without transparency is
/// picked, whatever came before.
pub proof fn lemma_transparent_candidate_displaced(s: Seq<Candidate>)
    requires
        exists|i: int| 0 <= i < s.len() && (#[trigger] s[i]).transparent(),
        !transparency_survives(s),
    ensures
        0 <= picked_index(s) < s.len(),
        !s[picked_index(s)].transparent(),
{
    lemma_last_transparent(s);
    lemma_picked_in_range(s);
    lemma_displaced_by(s, s.len() as int);
    assert(s.take(s.len() as int) =~= s);
}

/// Among the first `to` candidates, one past the last transparent candidate
/// with more samples than the candidate held at that point leaves a
/// candidate without transparency held.
proof fn lemma_displaced_by(s: Seq<Candidate>, to: int)
    requires
        0 <= last_transparent(s) < to <= s.len(),
        exists|j: int|
            last_transparent(s) < j < to && (#[trigger] s[j]).samples
                > held_at_last_transparent(s).samples,
    ensures
        !s[picked_index(s.take(to))].transparent(),
    decreases to,
{
    let last = last_transparent(s);
    let held = held_at_last_transparent(s);
    lemma_last_transparent(s);
    lemma_transparent_held_after_seen(s, last);
    lemma_picked_step(s, to - 1);
    if exists|j: int| last < j < to - 1 && (#[trigger] s[j]).samples > held.samples {
        lemma_displaced_by(s, to - 1);
    } else {
        lemma_held_while_not_preferred(s, last + 1, to - 1);
        assert(s[to - 1].samples > held.samples);
    }
}

/// Index of the configuration that `gl_config_picker` picks among `configs`.
pub fn pick_index(configs: &[Candidate]) -> (idx: usize)
    requires
        configs@.len() > 0,
    ensures
        idx < configs@.len(),
        idx == picked_index(configs@),
{
    let mut held: usize = 0;
    let mut i: usize = 1;
    assert(picked_index(configs@.take(1)) == 0);
    while i < configs.len()
        invariant
            1 <= i <= configs@.len(),
            held < i,
            held == picked_index(configs@.take(i as int)),
        decreases configs@.len() - i,
    {
        proof {
            lemma_picked_step(configs@, i as int);
        }
        if prefer(&configs[i], &configs[held]) {
            held = i;
        }
        i = i + 1;
    }
    assert(configs@.take(i as int) =~= configs@);
    held
}

/// Picks one configuration among `configs`: the candidates are taken from
/// left to right, and a candidate replaces the one held so far when it is
/// transparent and the held one is not, or when it has strictly more samples.
/// On a tie the earlier candidate stays.
pub fn gl_config_picker(configs: &[Candidate]) -> (chosen: Candidate)
    requires
        configs@.len() > 0,
    ensures
        0 <= picked_index(configs@) < configs@.len(),
        chosen == configs@[picked_index(configs@)],
{
    let idx = pick_index(configs);
    configs[idx]
}

} // verus!
