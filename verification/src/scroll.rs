//! Where a scrolling list wants to be, given which of its entries has the
//! focus.
//!
//! A list shows a window of its first few entries without scrolling. Once the
//! focus moves past the window, the list shifts by one pitch per entry so that
//! the focused entry stays the last one visible.

use vstd::prelude::*;
use crate::easing::{Easing, EasingView, easing_valid, eased};
use crate::fixed::{magnitude, SPAN_LIMIT};

verus! {

/// Largest magnitude of a pitch (2 to the power 40, about a million pixels).
pub const PITCH_LIMIT: i64 = 0x100_0000_0000;

/// Distance between the tops of two neighbouring rows.
pub const LANE_HEIGHT: i64 = 480_000_000;

/// Distance between the left edges of two neighbouring tiles.
pub const TILE_PITCH: i64 = 320_000_000;

/// Rows visible without scrolling.
pub const VISIBLE_LANES: usize = 2;

/// Tiles of a row visible without scrolling.
pub const VISIBLE_TILES: usize = 5;

/// Numerator of the fraction of the gap a scroll position covers per frame.
pub const SCROLL_DAMPING_NUM: u16 = 1;

/// Denominator of the fraction of the gap a scroll position covers per frame.
pub const SCROLL_DAMPING_DEN: u16 = 10;

/// Gap at or below which a scroll position lands on its target (half a pixel).
pub const SCROLL_SNAP: u64 = 500_000;

/// How one list scrolls: the pitch of its entries, how many of them fit in
/// view, and the damping of the glide.
#[derive(Clone, Copy, Debug)]
pub struct ScrollRule {
    pitch: i64,
    window: usize,
    easing: Easing,
}

/// The mathematical content of a [`ScrollRule`].
pub struct ScrollRuleView {
    pub pitch: int,
    pub window: nat,
    pub easing: EasingView,
}

impl View for ScrollRule {
    type V = ScrollRuleView;

    closed spec fn view(&self) -> ScrollRuleView {
        ScrollRuleView {
            pitch: self.pitch as int,
            window: self.window as nat,
            easing: self.easing@,
        }
    }
}

/// A rule is usable when its damping is, its window holds at least one entry
/// and its pitch is within the limit.
pub open spec fn scroll_valid(r: ScrollRuleView) -> bool {
    &&& easing_valid(r.easing)
    &&& -PITCH_LIMIT <= r.pitch <= PITCH_LIMIT
    &&& 1 <= r.window <= usize::MAX
}

/// The scroll target while entry `index` has the focus: zero while the entry
/// is inside the window, else one pitch backward per entry beyond it.
pub open spec fn scroll_target(r: ScrollRuleView, index: nat) -> int {
    if index >= r.window {
        -((index - r.window + 1) * r.pitch)
    } else {
        0
    }
}

/// The damping of both scroll rules.
pub open spec fn scroll_easing() -> EasingView {
    EasingView {
        num: SCROLL_DAMPING_NUM as nat,
        den: SCROLL_DAMPING_DEN as nat,
        snap: SCROLL_SNAP as nat,
    }
}

/// The rule by which a grid scrolls its rows.
pub open spec fn lane_scroll_rule() -> ScrollRuleView {
    ScrollRuleView {
        pitch: LANE_HEIGHT as int,
        window: VISIBLE_LANES as nat,
        easing: scroll_easing(),
    }
}

/// The rule by which a row scrolls its tiles.
pub open spec fn tile_scroll_rule() -> ScrollRuleView {
    ScrollRuleView {
        pitch: TILE_PITCH as int,
        window: VISIBLE_TILES as nat,
        easing: scroll_easing(),
    }
}

impl ScrollRule {
    pub open spec fn valid(&self) -> bool {
        scroll_valid(self@)
    }

    /// Builds a rule, or nothing if the window is empty or the pitch beyond
    /// the limit.
    pub fn new(pitch: i64, window: usize, easing: Easing) -> (out: Option<ScrollRule>)
        requires
            easing.valid(),
        ensures
            out.is_some() <==> (-PITCH_LIMIT <= pitch <= PITCH_LIMIT && window >= 1),
            out matches Some(r) ==> r.valid() && r@ == (ScrollRuleView {
                pitch: pitch as int,
                window: window as nat,
                easing: easing@,
            }),
    {
        if -PITCH_LIMIT <= pitch && pitch <= PITCH_LIMIT && window >= 1 {
            Some(ScrollRule { pitch, window, easing })
        } else {
            None
        }
    }

    /// The rule by which a grid scrolls its rows.
    pub fn lanes() -> (rule: ScrollRule)
        ensures
            rule.valid(),
            rule@ == lane_scroll_rule(),
    {
        let easing = Easing::new(SCROLL_DAMPING_NUM, SCROLL_DAMPING_DEN, SCROLL_SNAP).unwrap();
        ScrollRule { pitch: LANE_HEIGHT, window: VISIBLE_LANES, easing }
    }

    /// The rule by which a row scrolls its tiles.
    pub fn tiles() -> (rule: ScrollRule)
        ensures
            rule.valid(),
            rule@ == tile_scroll_rule(),
    {
        let easing = Easing::new(SCROLL_DAMPING_NUM, SCROLL_DAMPING_DEN, SCROLL_SNAP).unwrap();
        ScrollRule { pitch: TILE_PITCH, window: VISIBLE_TILES, easing }
    }

    pub fn pitch(&self) -> (out: i64)
        ensures
            out == self@.pitch,
    {
        self.pitch
    }

    pub fn window(&self) -> (out: usize)
        ensures
            out == self@.window,
    {
        self.window
    }

    pub fn easing(&self) -> (out: Easing)
        ensures
            out@ == self@.easing,
    {
        self.easing
    }

    /// The scroll target while entry `index` has the focus.
    pub fn target(&self, index: usize) -> (out: i128)
        requires
            self.valid(),
        ensures
            out == scroll_target(self@, index as nat),
            magnitude(out as int) <= SPAN_LIMIT,
    {
        proof {
            lemma_target_in_span(self@, index as nat);
        }
        if index >= self.window {
            let beyond: i128 = (index - self.window) as i128 + 1;
            assert(-0x1_0000_0000_0000_0000 * 0x100_0000_0000 <= beyond * self.pitch
                <= 0x1_0000_0000_0000_0000 * 0x100_0000_0000) by (nonlinear_arith)
                requires
                    0 <= beyond <= 0x1_0000_0000_0000_0000,
                    -0x100_0000_0000 <= self.pitch <= 0x100_0000_0000,
            ;
            -(beyond * (self.pitch as i128))
        } else {
            0
        }
    }

    /// Moves a scroll position one frame toward its target.
    pub fn advance(&self, current: i128, target: i128) -> (next: i128)
        requires
            self.valid(),
            magnitude(current as int) <= SPAN_LIMIT,
            magnitude(target as int) <= SPAN_LIMIT,
        ensures
            next == eased(self@.easing, current as int, target as int),
            magnitude(next as int) <= SPAN_LIMIT,
    {
        proof {
            crate::easing::lemma_eased_between(self@.easing, current as int, target as int);
        }
        self.easing.advance(current, target)
    }
}

/// The scroll target of any entry a list can hold lies within the span that
/// scroll positions may take.
pub proof fn lemma_target_in_span(r: ScrollRuleView, index: nat)
    requires
        scroll_valid(r),
        index <= usize::MAX,
    ensures
        magnitude(scroll_target(r, index)) <= SPAN_LIMIT,
{
    if index >= r.window {
        let beyond = index - r.window + 1;
        assert(-0x1_0000_0000_0000_0000 * 0x100_0000_0000 <= beyond * r.pitch
            <= 0x1_0000_0000_0000_0000 * 0x100_0000_0000) by (nonlinear_arith)
            requires
                0 <= beyond <= 0x1_0000_0000_0000_0000,
                -0x100_0000_0000 <= r.pitch <= 0x100_0000_0000,
        ;
    }
}

/// The scroll target depends on nothing but the focused index: it is zero for
/// the entries of the window, and for entry `index` beyond them it is
/// `-(index - (window - 1)) * pitch`.
pub proof fn lemma_target_by_index(r: ScrollRuleView, index: nat)
    requires
        scroll_valid(r),
    ensures
        index < r.window ==> scroll_target(r, index) == 0,
        index >= r.window ==> scroll_target(r, index) == -((index - (r.window - 1)) * r.pitch),
{
}

} // verus!
