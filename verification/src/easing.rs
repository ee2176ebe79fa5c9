//! Damped interpolation of a value toward its target.
//!
//! Every animated quantity of the grid (the two scroll positions and each
//! tile's zoom) follows the same rule once per frame: while it is farther from
//! its target than a snap distance, it covers a fixed fraction of the remaining
//! gap; once within the snap distance it lands on the target exactly.

use vstd::prelude::*;
use crate::fixed::{magnitude, trunc_div, mul_div, lemma_fraction_within, lemma_fraction_moves, SPAN_LIMIT};

verus! {

/// A damping rule: cover `num / den` of the remaining gap per frame, and land
/// on the target once the gap is `snap` or less.
#[derive(Clone, Copy, Debug)]
pub struct Easing {
    num: u16,
    den: u16,
    snap: u64,
}

/// The mathematical content of an [`Easing`].
pub struct EasingView {
    pub num: nat,
    pub den: nat,
    pub snap: nat,
}

impl View for Easing {
    type V = EasingView;

    closed spec fn view(&self) -> EasingView {
        EasingView { num: self.num as nat, den: self.den as nat, snap: self.snap as nat }
    }
}

/// A rule is usable when its fraction is at most one and large enough that a
/// gap wider than the snap distance shrinks by at least one step per frame.
pub open spec fn easing_valid(e: EasingView) -> bool {
    &&& 0 < e.den
    &&& e.num <= e.den
    &&& (e.snap + 1) * e.num >= e.den
    &&& e.num <= u16::MAX
    &&& e.snap <= u64::MAX
}

/// The value one frame after `current`, on the way to `target`.
pub open spec fn eased(e: EasingView, current: int, target: int) -> int {
    let gap = target - current;
    if magnitude(gap) <= e.snap {
        target
    } else {
        current + trunc_div(gap * e.num, e.den as int)
    }
}

/// The value `frames` frames after `current`, on the way to `target`.
pub open spec fn eased_n(e: EasingView, current: int, target: int, frames: nat) -> int
    decreases frames,
{
    if frames == 0 {
        current
    } else {
        eased(e, eased_n(e, current, target, (frames - 1) as nat), target)
    }
}

impl Easing {
    pub open spec fn valid(&self) -> bool {
        easing_valid(self@)
    }

    /// Builds the rule `num / den` with snap distance `snap`, or nothing if
    /// such a rule could overshoot, divide by zero or stall short of its
    /// target.
    pub fn new(num: u16, den: u16, snap: u64) -> (out: Option<Easing>)
        ensures
            out.is_some() <==> easing_valid(
                EasingView { num: num as nat, den: den as nat, snap: snap as nat },
            ),
            out matches Some(e) ==> e@ == (EasingView {
                num: num as nat,
                den: den as nat,
                snap: snap as nat,
            }),
    {
        if den == 0 || num > den {
            return None;
        }
        assert((snap + 1) * num <= 0x1_0000_0000_0000_0000 * 0x1_0000) by (nonlinear_arith)
            requires
                0 <= snap < 0x1_0000_0000_0000_0000,
                0 <= num < 0x1_0000,
        ;
        let reach: u128 = (snap as u128 + 1) * (num as u128);
        if reach >= den as u128 {
            Some(Easing { num, den, snap })
        } else {
            None
        }
    }

    pub fn num(&self) -> (out: u16)
        ensures
            out == self@.num,
    {
        self.num
    }

    pub fn den(&self) -> (out: u16)
        ensures
            out == self@.den,
    {
        self.den
    }

    pub fn snap(&self) -> (out: u64)
        ensures
            out == self@.snap,
    {
        self.snap
    }

    /// Moves `current` one frame toward `target`.
    pub fn advance(&self, current: i128, target: i128) -> (next: i128)
        requires
            self.valid(),
            magnitude(current as int) <= SPAN_LIMIT,
            magnitude(target as int) <= SPAN_LIMIT,
        ensures
            next == eased(self@, current as int, target as int),
    {
        let gap: i128 = target - current;
        let size: i128 = if gap < 0 {
            -gap
        } else {
            gap
        };
        if size <= self.snap as i128 {
            target
        } else {
            proof {
                lemma_fraction_within(gap as int, self.num as int, self.den as int);
                assert(-0x200_0000_0000_0000_0000_0000_0000_0000 < gap * self.num
                    < 0x200_0000_0000_0000_0000_0000_0000_0000) by (nonlinear_arith)
                    requires
                        -0x200_0000_0000_0000_0000_0000_0000 <= gap
                            <= 0x200_0000_0000_0000_0000_0000_0000,
                        0 <= self.num < 0x1_0000,
                ;
            }
            current + mul_div(gap, self.num as i128, self.den as i128)
        }
    }
}

/// An eased value never leaves the span between where it was and its target:
/// it cannot overshoot, and it cannot turn back.
pub proof fn lemma_eased_between(e: EasingView, current: int, target: int)
    requires
        easing_valid(e),
    ensures
        current <= target ==> current <= eased(e, current, target) <= target,
        current >= target ==> current >= eased(e, current, target) >= target,
{
    lemma_fraction_within(target - current, e.num as int, e.den as int);
}

/// Each frame brings the value closer to its target, strictly so while it has
/// not arrived, and a value within the snap distance arrives at once.
pub proof fn lemma_eased_approaches(e: EasingView, current: int, target: int)
    requires
        easing_valid(e),
    ensures
        magnitude(target - eased(e, current, target)) <= magnitude(target - current),
        current != target ==> magnitude(target - eased(e, current, target)) < magnitude(
            target - current,
        ),
        magnitude(target - current) <= e.snap ==> eased(e, current, target) == target,
        eased(e, target, target) == target,
{
    let gap = target - current;
    lemma_fraction_within(gap, e.num as int, e.den as int);
    if magnitude(gap) > e.snap {
        lemma_fraction_moves(gap, e.num as int, e.den as int, (e.snap + 1) as int);
    }
}

/// A value is on its target after as many frames as it was steps away, and it
/// stays there.
pub proof fn lemma_eased_settles(e: EasingView, current: int, target: int, frames: nat)
    requires
        easing_valid(e),
        frames >= magnitude(target - current),
    ensures
        eased_n(e, current, target, frames) == target,
{
    lemma_eased_countdown(e, current, target, frames);
}

proof fn lemma_eased_countdown(e: EasingView, current: int, target: int, frames: nat)
    requires
        easing_valid(e),
    ensures
        magnitude(target - eased_n(e, current, target, frames)) <= magnitude(target - current),
        magnitude(target - eased_n(e, current, target, frames)) + frames <= magnitude(
            target - current,
        ) || eased_n(e, current, target, frames) == target,
    decreases frames,
{
    if frames > 0 {
        let before = eased_n(e, current, target, (frames - 1) as nat);
        lemma_eased_countdown(e, current, target, (frames - 1) as nat);
        lemma_eased_approaches(e, before, target);
    }
}

} // verus!
