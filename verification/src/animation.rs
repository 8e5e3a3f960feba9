//! A polling cooperative animation scheduler: each registered animation is a
//! step object paired with a deadline; once per frame the host calls `run`
//! with the current time, which advances every animation whose deadline has
//! passed, exactly once each and in registration order, then re-arms or
//! retires it according to the step's returned value. `run` only compares
//! deadlines against the given time: it never waits, so a frame with nothing
//! due returns promptly and untouched.

use vstd::prelude::*;

verus! {

/// A time-driven mutation step, implemented by the host. The scheduler
/// invokes `advance` each time the animation's delay has elapsed; the return
/// value decides the animation's own future: `Some(delay)` re-arms it after
/// `delay` more time units, `None` retires it.
pub trait Animate: Sized {
    fn advance(&mut self) -> (r: Option<u64>);
}

/// One registered animation: its step object and the absolute time at which
/// its timer fires.
pub struct Animation<A> {
    pub anim: A,
    pub deadline: u64,
}

/// The deadline a delay arms starting from `now`, saturating at the far end
/// of time: an animation armed beyond `u64::MAX` never comes due.
pub open spec fn arm_deadline(now: u64, delay: u64) -> u64 {
    if now + delay > u64::MAX {
        u64::MAX
    } else {
        (now + delay) as u64
    }
}

/// Whether an armed animation's timer has fired by time `now`.
pub open spec fn due<A>(slot: Animation<A>, now: u64) -> bool {
    slot.deadline <= now
}

/// What one scheduler pass observed for one animation: not yet due; or due,
/// advanced, and re-armed with the step's new state and returned delay; or
/// due, advanced, and retired because the step returned no further delay.
pub enum StepOutcome<A> {
    NotDue,
    Rearmed { anim: A, delay: u64 },
    Retired,
}

/// Whether `r` records one outcome per slot of `s`, with exactly the due
/// slots advanced.
pub open spec fn outcomes_match<A>(
    s: Seq<Animation<A>>,
    now: u64,
    r: Seq<StepOutcome<A>>,
) -> bool {
    &&& r.len() == s.len()
    &&& forall|i: int| 0 <= i < s.len() ==> ((#[trigger] r[i]) is NotDue <==> !due(s[i], now))
}

/// What one slot contributes to the active set after a pass: itself when not
/// due, its re-armed successor, or nothing when retired.
pub open spec fn step_result<A>(slot: Animation<A>, o: StepOutcome<A>, now: u64) -> Seq<
    Animation<A>,
> {
    match o {
        StepOutcome::NotDue => seq![slot],
        StepOutcome::Rearmed { anim, delay } => seq![
            Animation { anim, deadline: arm_deadline(now, delay) },
        ],
        StepOutcome::Retired => Seq::<Animation<A>>::empty(),
    }
}

/// The active set after one scheduler pass over `s` at time `now` with
/// outcomes `r`: slots not yet due stay as they are, due slots are re-armed
/// in place or removed, and registration order is preserved throughout, so
/// no slot is skipped or advanced twice however many are removed.
pub open spec fn run_spec<A>(s: Seq<Animation<A>>, now: u64, r: Seq<StepOutcome<A>>) -> Seq<
    Animation<A>,
>
    decreases s.len(),
{
    if s.len() == 0 {
        Seq::<Animation<A>>::empty()
    } else {
        step_result(s[0], r[0], now) + run_spec(s.drop_first(), now, r.drop_first())
    }
}

/// One more processed slot extends a pass's result by that slot's own
/// contribution.
pub proof fn lemma_run_spec_push<A>(
    s: Seq<Animation<A>>,
    now: u64,
    r: Seq<StepOutcome<A>>,
    slot: Animation<A>,
    o: StepOutcome<A>,
)
    requires
        r.len() == s.len(),
    ensures
        run_spec(s.push(slot), now, r.push(o)) == run_spec(s, now, r) + step_result(slot, o, now),
    decreases s.len(),
{
    if s.len() == 0 {
        assert(s.push(slot).drop_first() =~= Seq::<Animation<A>>::empty());
        assert(s.push(slot)[0] == slot);
        assert(r.push(o)[0] == o);
        assert(run_spec(s.push(slot).drop_first(), now, r.push(o).drop_first()) =~= Seq::<
            Animation<A>,
        >::empty());
        assert(run_spec(s.push(slot), now, r.push(o)) =~= run_spec(s, now, r) + step_result(
            slot,
            o,
            now,
        ));
    } else {
        lemma_run_spec_push(s.drop_first(), now, r.drop_first(), slot, o);
        assert(s.push(slot).drop_first() =~= s.drop_first().push(slot));
        assert(r.push(o).drop_first() =~= r.drop_first().push(o));
        assert(s.push(slot)[0] == s[0]);
        assert(r.push(o)[0] == r[0]);
        assert(run_spec(s.push(slot), now, r.push(o)) =~= run_spec(s, now, r) + step_result(
            slot,
            o,
            now,
        ));
    }
}

/// Re-arm/retire and re-indexing law: a pass's result splits around any one
/// slot into the results for the slots before it, its own contribution, and
/// the results for the slots after it. So every slot is accounted for
/// exactly once, in registration order, whatever its neighbours did: a due
/// slot whose step returned a delay stays, re-armed relative to the pass's
/// time, one whose step returned none is gone, and no removal shifts the
/// fate of another slot.
pub proof fn lemma_run_spec_split<A>(
    s: Seq<Animation<A>>,
    now: u64,
    r: Seq<StepOutcome<A>>,
    i: int,
)
    requires
        r.len() == s.len(),
        0 <= i < s.len(),
    ensures
        run_spec(s, now, r) == run_spec(s.take(i), now, r.take(i)) + step_result(
            s[i],
            r[i],
            now,
        ) + run_spec(s.skip(i + 1), now, r.skip(i + 1)),
    decreases i,
{
    if i == 0 {
        assert(s.take(0) =~= Seq::<Animation<A>>::empty());
        assert(s.drop_first() =~= s.skip(1));
        assert(r.drop_first() =~= r.skip(1));
        assert(run_spec(s, now, r) =~= run_spec(s.take(0), now, r.take(0)) + step_result(
            s[0],
            r[0],
            now,
        ) + run_spec(s.skip(1), now, r.skip(1)));
    } else {
        lemma_run_spec_split(s.drop_first(), now, r.drop_first(), i - 1);
        assert(s.drop_first().take(i - 1) =~= s.take(i).drop_first());
        assert(r.drop_first().take(i - 1) =~= r.take(i).drop_first());
        assert(s.drop_first().skip(i) =~= s.skip(i + 1));
        assert(r.drop_first().skip(i) =~= r.skip(i + 1));
        assert(s.drop_first()[i - 1] == s[i]);
        assert(r.drop_first()[i - 1] == r[i]);
        assert(s.take(i)[0] == s[0]);
        assert(r.take(i)[0] == r[0]);
        assert(run_spec(s, now, r) =~= run_spec(s.take(i), now, r.take(i)) + step_result(
            s[i],
            r[i],
            now,
        ) + run_spec(s.skip(i + 1), now, r.skip(i + 1)));
    }
}

/// Scheduler non-blocking law: a pass that finds nothing due leaves the
/// active set exactly as it was.
pub proof fn lemma_run_spec_all_not_due<A>(
    s: Seq<Animation<A>>,
    now: u64,
    r: Seq<StepOutcome<A>>,
)
    requires
        outcomes_match(s, now, r),
        forall|i: int| 0 <= i < s.len() ==> !due(#[trigger] s[i], now),
    ensures
        run_spec(s, now, r) == s,
    decreases s.len(),
{
    if s.len() > 0 {
        assert forall|i: int| 0 <= i < s.drop_first().len() implies ((
        #[trigger] r.drop_first()[i]) is NotDue <==> !due(s.drop_first()[i], now)) by {
            assert(s.drop_first()[i] == s[i + 1]);
            assert(r.drop_first()[i] == r[i + 1]);
        }
        assert forall|i: int| 0 <= i < s.drop_first().len() implies !due(
            #[trigger] s.drop_first()[i],
            now,
        ) by {
            assert(s.drop_first()[i] == s[i + 1]);
        }
        lemma_run_spec_all_not_due(s.drop_first(), now, r.drop_first());
        assert(r[0] is NotDue);
        assert(run_spec(s, now, r) =~= s);
    }
}

/// Associates each registered animation with a countdown deadline; `run`
/// polls the deadlines against the host's clock, never waiting on one.
pub struct AnimationManager<A> {
    pub animations: Vec<Animation<A>>,
}

impl<A: Animate> AnimationManager<A> {
    /// The registered animations still active, in registration order.
    pub open spec fn slots(&self) -> Seq<Animation<A>> {
        self.animations@
    }

    /// A scheduler with no registered animations.
    pub fn new() -> (m: AnimationManager<A>)
        ensures
            m.slots() == Seq::<Animation<A>>::empty(),
    {
        let m = AnimationManager { animations: Vec::new() };
        proof {
            assert(m.slots() =~= Seq::<Animation<A>>::empty());
        }
        m
    }

    /// How many animations are currently active.
    pub fn len(&self) -> (n: usize)
        ensures
            n == self.slots().len(),
    {
        self.animations.len()
    }

    /// Registers a new animation at time `now`, armed to come due after
    /// `initial_delay` time units.
    pub fn add(&mut self, anim: A, initial_delay: u64, now: u64)
        ensures
            final(self).slots() == old(self).slots().push(
                Animation { anim, deadline: arm_deadline(now, initial_delay) },
            ),
    {
        let deadline = arm(now, initial_delay);
        self.animations.push(Animation { anim, deadline });
    }

    /// One scheduler pass at time `now`: every animation whose deadline has
    /// passed is advanced exactly once, in registration order, then re-armed
    /// relative to `now` with its returned delay or dropped from the active
    /// set; the others are untouched. Only deadline comparisons are made, so
    /// the call never blocks; when nothing is due the set is returned as it
    /// was and no step is invoked.
    pub fn run(&mut self, now: u64)
        ensures
            exists|r: Seq<StepOutcome<A>>|
                outcomes_match(old(self).slots(), now, r) && final(self).slots() == run_spec(
                    old(self).slots(),
                    now,
                    r,
                ),
            (forall|i: int|
                0 <= i < old(self).slots().len() ==> !due(#[trigger] old(self).slots()[i], now))
                ==> final(self).slots() == old(self).slots(),
    {
        let ghost s0 = self.animations@;
        let mut kept: Vec<Animation<A>> = Vec::new();
        let ghost mut outcomes: Seq<StepOutcome<A>> = Seq::<StepOutcome<A>>::empty();
        proof {
            assert(s0.take(0) =~= Seq::<Animation<A>>::empty());
            assert(s0.skip(0) =~= s0);
            assert(kept@ =~= run_spec(s0.take(0), now, outcomes));
        }
        while self.animations.len() > 0
            invariant
                outcomes.len() + self.animations@.len() == s0.len(),
                self.animations@ == s0.skip(outcomes.len() as int),
                outcomes_match(s0.take(outcomes.len() as int), now, outcomes),
                kept@ == run_spec(s0.take(outcomes.len() as int), now, outcomes),
            decreases self.animations.len(),
        {
            let ghost k = outcomes.len() as int;
            let mut slot = self.animations.remove(0);
            proof {
                assert(slot == s0[k]);
                assert(self.animations@ =~= s0.skip(k + 1));
                assert(s0.take(k + 1) =~= s0.take(k).push(s0[k]));
            }
            if slot.deadline <= now {
                let step = slot.anim.advance();
                match step {
                    Some(d) => {
                        slot.deadline = arm(now, d);
                        proof {
                            let o = StepOutcome::Rearmed { anim: slot.anim, delay: d };
                            lemma_run_spec_push(s0.take(k), now, outcomes, s0[k], o);
                            outcomes = outcomes.push(o);
                            assert(kept@.push(slot) =~= run_spec(
                                s0.take(k + 1),
                                now,
                                outcomes,
                            ));
                        }
                        kept.push(slot);
                    },
                    None => {
                        proof {
                            let o: StepOutcome<A> = StepOutcome::Retired;
                            lemma_run_spec_push(s0.take(k), now, outcomes, s0[k], o);
                            outcomes = outcomes.push(o);
                            assert(kept@ =~= run_spec(s0.take(k + 1), now, outcomes));
                        }
                    },
                }
            } else {
                proof {
                    let o: StepOutcome<A> = StepOutcome::NotDue;
                    lemma_run_spec_push(s0.take(k), now, outcomes, s0[k], o);
                    outcomes = outcomes.push(o);
                    assert(kept@.push(slot) =~= run_spec(s0.take(k + 1), now, outcomes));
                }
                kept.push(slot);
            }
            proof {
                assert forall|i: int| 0 <= i < s0.take(outcomes.len() as int).len() implies ((
                #[trigger] outcomes[i]) is NotDue <==> !due(
                    s0.take(outcomes.len() as int)[i],
                    now,
                )) by {
                    assert(s0.take(outcomes.len() as int)[i] == s0[i]);
                }
            }
        }
        self.animations = kept;
        proof {
            assert(s0.take(s0.len() as int) =~= s0);
            assert(outcomes_match(old(self).slots(), now, outcomes));
            assert(self.animations@ == run_spec(old(self).slots(), now, outcomes));
            if forall|i: int| 0 <= i < s0.len() ==> !due(#[trigger] s0[i], now) {
                lemma_run_spec_all_not_due(s0, now, outcomes);
            }
        }
    }
}

/// The saturating deadline a delay arms starting from `now`.
fn arm(now: u64, delay: u64) -> (d: u64)
    ensures
        d == arm_deadline(now, delay),
{
    if delay > u64::MAX - now {
        u64::MAX
    } else {
        now + delay
    }
}

} // verus!
