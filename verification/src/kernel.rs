//! The termination rules of the Mandelbrot iteration.
//!
//! One sample is evaluated by a loop that alternates arithmetic on the
//! iterate with a decision. The arithmetic yields a [`Probe`]: three facts
//! about the current iterate. The decision, made here, is either a final
//! [`Verdict`] or the order to go on with a smaller budget.

use vstd::prelude::*;

verus! {

/// Which of the two iteration rules is in force.
#[derive(Clone, Copy, Debug, PartialEq, Eq, Structural)]
pub enum Variant {
    /// Escape test on the next iterate; the value is the reciprocal of the
    /// number of steps taken.
    EscapeOnly,
    /// Escape test on the current iterate, followed by a distance estimate
    /// from the derivative.
    DistanceEstimate,
}

impl Variant {
    /// The iteration budget a sample starts with.
    pub open spec fn budget(self) -> u32 {
        match self {
            Variant::EscapeOnly => 100u32,
            Variant::DistanceEstimate => 200u32,
        }
    }

    /// The magnitude beyond which an iterate counts as escaped.
    pub open spec fn radius(self) -> u32 {
        match self {
            Variant::EscapeOnly => 100u32,
            Variant::DistanceEstimate => 10_000_000u32,
        }
    }

    /// The value that stands for a sample inside the set.
    pub open spec fn interior(self) -> u32 {
        match self {
            Variant::EscapeOnly => 0u32,
            Variant::DistanceEstimate => 255u32,
        }
    }

    pub fn max_iterations(self) -> (n: u32)
        ensures
            n == self.budget(),
    {
        match self {
            Variant::EscapeOnly => 100,
            Variant::DistanceEstimate => 200,
        }
    }

    pub fn bailout_radius(self) -> (r: u32)
        ensures
            r == self.radius(),
    {
        match self {
            Variant::EscapeOnly => 100,
            Variant::DistanceEstimate => 10_000_000,
        }
    }
}

/// What the arithmetic of one step found out about the iterate.
#[derive(Clone, Copy, Debug, PartialEq, Eq, Structural)]
pub struct Probe {
    /// The tested iterate lies beyond the bailout radius.
    pub escaped: bool,
    /// The distance estimate is below a quarter. Read only by
    /// [`Variant::DistanceEstimate`], and only when `escaped` holds.
    pub near: bool,
    /// The next iterate equals the iterate two steps back.
    pub repeats: bool,
}

/// How the evaluation of one sample ended.
#[derive(Clone, Copy, Debug, PartialEq, Eq, Structural)]
pub enum Verdict {
    /// Left the bailout radius after `steps` steps, `steps >= 1`.
    Escaped { steps: u32 },
    /// Escaped, and the distance estimate puts the sample next to the set.
    Near,
    /// Escaped, and the distance estimate puts the sample away from the set.
    Far,
    /// A cycle was found, the budget ran out, or the escape value would not
    /// be finite.
    Interior,
}

/// A colour value as an exact fraction of two whole numbers.
#[derive(Clone, Copy, Debug, PartialEq, Eq, Structural)]
pub struct ColorValue {
    pub numerator: u32,
    pub denominator: u32,
}

/// The decision of one step.
#[derive(Clone, Copy, Debug, PartialEq, Eq, Structural)]
pub enum Step {
    /// The sample is done.
    Finished(Verdict),
    /// Iterate once more, with this budget left.
    Continue(u32),
}

/// The rules of one step, in the order in which they are tried: escape,
/// then a repeated iterate, then an empty budget.
///
/// An escape of the escape-only variant before any step was taken would give
/// the value one over zero; it is the interior value instead.
pub open spec fn spec_step(variant: Variant, remaining: u32, probe: Probe) -> Step {
    if probe.escaped {
        match variant {
            Variant::EscapeOnly => if remaining < variant.budget() {
                Step::Finished(Verdict::Escaped { steps: (variant.budget() - remaining) as u32 })
            } else {
                Step::Finished(Verdict::Interior)
            },
            Variant::DistanceEstimate => if probe.near {
                Step::Finished(Verdict::Near)
            } else {
                Step::Finished(Verdict::Far)
            },
        }
    } else if probe.repeats {
        Step::Finished(Verdict::Interior)
    } else if remaining == 0 {
        Step::Finished(Verdict::Interior)
    } else {
        Step::Continue((remaining - 1) as u32)
    }
}

/// The colour value that a verdict stands for: the reciprocal of the step
/// count where the escape-only variant escaped, else 0, 100 or 255.
pub open spec fn spec_color_value(variant: Variant, verdict: Verdict) -> ColorValue {
    match verdict {
        Verdict::Escaped { steps } => if steps == 0 {
            ColorValue { numerator: variant.interior(), denominator: 1 }
        } else {
            ColorValue { numerator: 1, denominator: steps }
        },
        Verdict::Near => ColorValue { numerator: 100, denominator: 1 },
        Verdict::Far => ColorValue { numerator: 0, denominator: 1 },
        Verdict::Interior => ColorValue { numerator: variant.interior(), denominator: 1 },
    }
}

/// The verdict that a sample reaches when its steps observe `probes` in
/// turn, or `None` where the probes end before a verdict.
pub open spec fn spec_run(variant: Variant, remaining: u32, probes: Seq<Probe>) -> Option<Verdict>
    decreases probes.len(),
{
    if probes.len() == 0 {
        None
    } else {
        match spec_step(variant, remaining, probes[0]) {
            Step::Finished(verdict) => Some(verdict),
            Step::Continue(left) => spec_run(variant, left, probes.subrange(1, probes.len() as int)),
        }
    }
}

/// The budget that is left after `probes`, where none of them ended the
/// run; `None` where one did.
pub open spec fn spec_left(variant: Variant, remaining: u32, probes: Seq<Probe>) -> Option<u32>
    decreases probes.len(),
{
    if probes.len() == 0 {
        Some(remaining)
    } else {
        match spec_step(variant, remaining, probes[0]) {
            Step::Finished(_) => None,
            Step::Continue(left) => spec_left(variant, left, probes.subrange(1, probes.len() as int)),
        }
    }
}

/// Whether `states` and `probes` record a run of `observe` from `start`:
/// each call took one state and gave a probe and the state after it.
pub open spec fn is_trace<S, F: Fn(S) -> (Probe, S)>(
    observe: F,
    start: S,
    states: Seq<S>,
    probes: Seq<Probe>,
) -> bool {
    &&& states.len() == probes.len() + 1
    &&& states[0] == start
    &&& forall|i: int|
        0 <= i < probes.len() ==> call_ensures(observe, (states[i],), (#[trigger] probes[i], states[i + 1]))
}

/// Decides one step of the iteration.
pub fn step(variant: Variant, remaining: u32, probe: Probe) -> (next: Step)
    ensures
        next == spec_step(variant, remaining, probe),
{
    if probe.escaped {
        match variant {
            Variant::EscapeOnly => {
                let budget: u32 = variant.max_iterations();
                if remaining < budget {
                    Step::Finished(Verdict::Escaped { steps: budget - remaining })
                } else {
                    Step::Finished(Verdict::Interior)
                }
            },
            Variant::DistanceEstimate => {
                if probe.near {
                    Step::Finished(Verdict::Near)
                } else {
                    Step::Finished(Verdict::Far)
                }
            },
        }
    } else if probe.repeats {
        Step::Finished(Verdict::Interior)
    } else if remaining == 0 {
        Step::Finished(Verdict::Interior)
    } else {
        Step::Continue(remaining - 1)
    }
}

/// The colour value of a verdict as a fraction with a positive denominator.
pub fn color_value(variant: Variant, verdict: Verdict) -> (value: ColorValue)
    ensures
        value == spec_color_value(variant, verdict),
        value.denominator >= 1,
{
    let interior: u32 = match variant {
        Variant::EscapeOnly => 0,
        Variant::DistanceEstimate => 255,
    };
    match verdict {
        Verdict::Escaped { steps } => {
            if steps == 0 {
                ColorValue { numerator: interior, denominator: 1 }
            } else {
                ColorValue { numerator: 1, denominator: steps }
            }
        },
        Verdict::Near => ColorValue { numerator: 100, denominator: 1 },
        Verdict::Far => ColorValue { numerator: 0, denominator: 1 },
        Verdict::Interior => ColorValue { numerator: interior, denominator: 1 },
    }
}

/// The evaluation of one sample in progress: the variant and the budget
/// that is left.
#[derive(Clone, Copy, Debug)]
pub struct Iteration {
    variant: Variant,
    remaining: u32,
}

impl Iteration {
    pub closed spec fn variant(self) -> Variant {
        self.variant
    }

    pub closed spec fn remaining(self) -> u32 {
        self.remaining
    }

    /// The budget left never exceeds the variant's budget.
    pub open spec fn wf(self) -> bool {
        self.remaining() <= self.variant().budget()
    }

    /// Starts the evaluation of a sample with the variant's full budget.
    pub fn begin(variant: Variant) -> (it: Iteration)
        ensures
            it.wf(),
            it.variant() == variant,
            it.remaining() == variant.budget(),
    {
        Iteration { variant, remaining: variant.max_iterations() }
    }

    pub fn kind(&self) -> (v: Variant)
        ensures
            v == self.variant(),
    {
        self.variant
    }

    pub fn budget_left(&self) -> (k: u32)
        ensures
            k == self.remaining(),
    {
        self.remaining
    }

    /// Takes the probe of one step. Returns the verdict where the sample is
    /// done, and leaves the evaluation as it was; else takes one from the
    /// budget and returns `None`.
    pub fn advance(&mut self, probe: Probe) -> (verdict: Option<Verdict>)
        ensures
            old(self).wf() ==> final(self).wf(),
            final(self).variant() == old(self).variant(),
            match spec_step(old(self).variant(), old(self).remaining(), probe) {
                Step::Finished(v) => verdict == Some(v) && final(self).remaining() == old(
                    self,
                ).remaining(),
                Step::Continue(left) => verdict.is_none() && final(self).remaining() == left,
            },
            verdict.is_none() ==> final(self).remaining() < old(self).remaining(),
            old(self).remaining() == 0 ==> verdict.is_some(),
    {
        match step(self.variant, self.remaining, probe) {
            Step::Finished(v) => Some(v),
            Step::Continue(left) => {
                self.remaining = left;
                None
            },
        }
    }
}

/// Evaluates one sample. The arithmetic is left to `observe`, which takes
/// the state of the iterate, says what it found and gives the state for the
/// step after it; the rules and the budget are applied here. `observe` is
/// called at most once more than the budget counts, each time on the state
/// that the call before returned, and the verdict is the one that the rules
/// give for the probes it returned.
pub fn evaluate<S, F>(variant: Variant, start: S, observe: F) -> (verdict: Verdict)
    where
        F: Fn(S) -> (Probe, S),
    requires
        forall|state: S| call_requires(observe, (state,)),
    ensures
        exists|states: Seq<S>, probes: Seq<Probe>|
            {
                &&& #[trigger] is_trace(observe, start, states, probes)
                &&& probes.len() <= variant.budget() + 1
                &&& spec_run(variant, variant.budget(), probes) == Some(verdict)
            },
        variant == Variant::EscapeOnly ==> verdict == Verdict::Interior || (exists|steps: u32|
            1 <= steps <= 100 && verdict == (Verdict::Escaped { steps })),
        variant == Variant::DistanceEstimate ==> verdict == Verdict::Near || verdict
            == Verdict::Far || verdict == Verdict::Interior,
{
    let mut iteration = Iteration::begin(variant);
    let mut state = start;
    let ghost mut states: Seq<S> = seq![start];
    let ghost mut probes: Seq<Probe> = Seq::empty();
    loop
        invariant
            forall|s: S| call_requires(observe, (s,)),
            iteration.variant() == variant,
            iteration.wf(),
            is_trace(observe, start, states, probes),
            states[states.len() - 1] == state,
            probes.len() + iteration.remaining() == variant.budget(),
            spec_left(variant, variant.budget(), probes) == Some(iteration.remaining()),
        decreases iteration.remaining(),
    {
        let ghost earlier_states = states;
        let ghost earlier_probes = probes;
        let ghost current = state;
        let (probe, next_state) = observe(state);
        proof {
            lemma_run_push(variant, variant.budget(), probes, probe);
            states = states.push(next_state);
            probes = probes.push(probe);
            assert forall|i: int| 0 <= i < probes.len() implies call_ensures(
                observe,
                (states[i],),
                (#[trigger] probes[i], states[i + 1]),
            ) by {
                if i < earlier_probes.len() {
                    assert(probes[i] == earlier_probes[i]);
                    assert(states[i] == earlier_states[i]);
                } else {
                    assert(states[i] == current);
                }
            }
            assert(is_trace(observe, start, states, probes));
        }
        match iteration.advance(probe) {
            Some(verdict) => {
                return verdict;
            },
            None => {
                state = next_state;
            },
        }
    }
}

/// One more probe after probes that did not end the run: the rules are
/// applied to it with the budget that those left.
pub proof fn lemma_run_push(variant: Variant, remaining: u32, probes: Seq<Probe>, probe: Probe)
    requires
        spec_left(variant, remaining, probes).is_some(),
    ensures
        spec_run(variant, remaining, probes.push(probe)) == match spec_step(
            variant,
            spec_left(variant, remaining, probes).unwrap(),
            probe,
        ) {
            Step::Finished(verdict) => Some(verdict),
            Step::Continue(_) => None,
        },
        spec_left(variant, remaining, probes.push(probe)) == match spec_step(
            variant,
            spec_left(variant, remaining, probes).unwrap(),
            probe,
        ) {
            Step::Finished(_) => None,
            Step::Continue(left) => Some(left),
        },
    decreases probes.len(),
{
    let longer = probes.push(probe);
    let rest = longer.subrange(1, longer.len() as int);
    if probes.len() == 0 {
        assert(longer[0] == probe);
        assert(rest.len() == 0);
        match spec_step(variant, remaining, probe) {
            Step::Finished(_) => {},
            Step::Continue(left) => {
                assert(spec_run(variant, left, rest).is_none());
                assert(spec_left(variant, left, rest) == Some(left));
            },
        }
    } else {
        assert(longer[0] == probes[0]);
        let tail = probes.subrange(1, probes.len() as int);
        assert(rest =~= tail.push(probe));
        match spec_step(variant, remaining, probes[0]) {
            Step::Finished(_) => {},
            Step::Continue(left) => {
                assert(spec_left(variant, remaining, probes) == spec_left(variant, left, tail));
                lemma_run_push(variant, left, tail, probe);
                assert(spec_run(variant, remaining, longer) == spec_run(variant, left, rest));
                assert(spec_left(variant, remaining, longer) == spec_left(variant, left, rest));
            },
        }
    }
}

/// The budget bounds the loop: a sample that is probed more often than its
/// budget counts has reached a verdict.
pub proof fn lemma_run_bounded(variant: Variant, remaining: u32, probes: Seq<Probe>)
    requires
        probes.len() > remaining,
    ensures
        spec_run(variant, remaining, probes).is_some(),
    decreases probes.len(),
{
    match spec_step(variant, remaining, probes[0]) {
        Step::Finished(_) => {},
        Step::Continue(left) => {
            lemma_run_bounded(variant, left, probes.subrange(1, probes.len() as int));
        },
    }
}

/// The verdict is a function of what the rules read: two runs of one
/// variant from one budget whose probes agree on escape and repetition, and
/// on nearness wherever the distance estimate is consulted, end alike.
pub proof fn lemma_run_deterministic(
    variant: Variant,
    remaining: u32,
    first: Seq<Probe>,
    second: Seq<Probe>,
)
    requires
        first.len() == second.len(),
        forall|i: int|
            0 <= i < first.len() ==> first[i].escaped == second[i].escaped && first[i].repeats
                == second[i].repeats,
        forall|i: int|
            0 <= i < first.len() && variant == Variant::DistanceEstimate && first[i].escaped
                ==> first[i].near == second[i].near,
    ensures
        spec_run(variant, remaining, first) == spec_run(variant, remaining, second),
    decreases first.len(),
{
    if first.len() > 0 {
        let first_rest = first.subrange(1, first.len() as int);
        let second_rest = second.subrange(1, second.len() as int);
        assert forall|i: int| 0 <= i < first_rest.len() implies first_rest[i].escaped
            == second_rest[i].escaped && first_rest[i].repeats == second_rest[i].repeats by {
            assert(first_rest[i] == first[i + 1]);
            assert(second_rest[i] == second[i + 1]);
        }
        assert forall|i: int|
            0 <= i < first_rest.len() && variant == Variant::DistanceEstimate
                && first_rest[i].escaped implies first_rest[i].near == second_rest[i].near by {
            assert(first_rest[i] == first[i + 1]);
            assert(second_rest[i] == second[i + 1]);
        }
        match spec_step(variant, remaining, first[0]) {
            Step::Finished(_) => {},
            Step::Continue(left) => {
                lemma_run_deterministic(variant, left, first_rest, second_rest);
            },
        }
    }
}

/// A verdict, once reached, stands: probes taken after it change nothing.
pub proof fn lemma_run_stable(variant: Variant, remaining: u32, probes: Seq<Probe>, more: Seq<Probe>)
    requires
        spec_run(variant, remaining, probes).is_some(),
    ensures
        spec_run(variant, remaining, probes + more) == spec_run(variant, remaining, probes),
    decreases probes.len(),
{
    let all = probes + more;
    assert(all[0] == probes[0]);
    match spec_step(variant, remaining, probes[0]) {
        Step::Finished(_) => {},
        Step::Continue(left) => {
            assert(all.subrange(1, all.len() as int) =~= probes.subrange(1, probes.len() as int)
                + more);
            lemma_run_stable(variant, left, probes.subrange(1, probes.len() as int), more);
        },
    }
}

/// Every verdict of the distance-estimating variant has one of the three
/// colour values 0, 100 and 255, whatever the probes and the budget.
pub proof fn lemma_distance_values(remaining: u32, probes: Seq<Probe>)
    ensures
        match spec_run(Variant::DistanceEstimate, remaining, probes) {
            Some(verdict) => {
                let value = spec_color_value(Variant::DistanceEstimate, verdict);
                value.denominator == 1 && (value.numerator == 0 || value.numerator == 100
                    || value.numerator == 255)
            },
            None => true,
        },
    decreases probes.len(),
{
    if probes.len() > 0 {
        match spec_step(Variant::DistanceEstimate, remaining, probes[0]) {
            Step::Finished(_) => {},
            Step::Continue(left) => {
                lemma_distance_values(left, probes.subrange(1, probes.len() as int));
            },
        }
    }
}

/// Every verdict of the escape-only variant has a colour value that is
/// either zero or a unit fraction `1 / steps` with `1 <= steps <= 100`, so
/// it lies in the interval from 0 to 1; an escape gives a value above 0.
pub proof fn lemma_escape_values(remaining: u32, probes: Seq<Probe>)
    requires
        remaining <= Variant::EscapeOnly.budget(),
    ensures
        match spec_run(Variant::EscapeOnly, remaining, probes) {
            Some(Verdict::Escaped { steps }) => {
                let value = spec_color_value(Variant::EscapeOnly, Verdict::Escaped { steps });
                1 <= steps <= 100 && value.numerator == 1 && value.denominator == steps
            },
            Some(verdict) => verdict == Verdict::Interior && spec_color_value(
                Variant::EscapeOnly,
                verdict,
            ) == (ColorValue { numerator: 0, denominator: 1 }),
            None => true,
        },
    decreases probes.len(),
{
    if probes.len() > 0 {
        match spec_step(Variant::EscapeOnly, remaining, probes[0]) {
            Step::Finished(_) => {},
            Step::Continue(left) => {
                lemma_escape_values(left, probes.subrange(1, probes.len() as int));
            },
        }
    }
}

} // verus!
