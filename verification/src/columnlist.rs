//! The grid: a column of rows, and the one entry point for navigation input
//! and for the frame tick.
//!
//! Exactly one row of a grid is active at any time. Up and Down move that
//! role from row to row; Left and Right are handed to the active row. The
//! grid scrolls vertically so that the active row stays in view, and pushes
//! its scroll position into every row each frame.

use vstd::prelude::*;
use crate::easing::{eased, lemma_eased_between};
use crate::fixed::{magnitude, SPAN_LIMIT};
use crate::input::Direction;
use crate::rowlist::{
    LaneView, RowList, TileDraw, cache_after, lane_draws, lane_input, lane_loaded, lane_step,
    lane_wf, poster_lane,
};
use crate::scroll::{
    ScrollRule, ScrollRuleView, lane_scroll_rule, scroll_target, scroll_valid,
    lemma_target_in_span, LANE_HEIGHT,
};
use crate::texture_manager::{CacheView, SharedTexture, TextureManager};

verus! {

/// Rows in a grid built by [`ColumnList::new`].
pub const GRID_ROWS: usize = 20;

/// Top edge of the first row of such a grid.
pub const GRID_TOP: i64 = 50_000_000;

pub struct ColumnList {
    rows: Vec<RowList>,
    selected_row_index: usize,
    scroll_y: i128,
    target_scroll_y: i128,
    rule: ScrollRule,
}

/// Something that happens to a grid: a navigation input, or a frame drawn
/// while the manager was as given.
pub enum GridEvent {
    Input { direction: Direction },
    Frame { cache: CacheView },
}

/// A grid as the contracts see it.
pub struct GridView {
    pub rows: Seq<LaneView>,
    /// Index of the active row.
    pub selected_row_index: nat,
    pub scroll_y: int,
    pub target_scroll_y: int,
    pub rule: ScrollRuleView,
}

/// One tile to draw: its row, its index in the row, and the record holding
/// its texture.
#[derive(Clone, Copy, Debug, PartialEq, Eq, Structural)]
pub struct DrawCall {
    pub row: usize,
    pub item: usize,
    pub texture: SharedTexture,
}

/// The rows of a vector as the contracts see them.
pub open spec fn lane_views(rows: Seq<RowList>) -> Seq<LaneView> {
    Seq::new(rows.len(), |i: int| rows[i]@)
}

impl View for ColumnList {
    type V = GridView;

    closed spec fn view(&self) -> GridView {
        GridView {
            rows: lane_views(self.rows@),
            selected_row_index: self.selected_row_index as nat,
            scroll_y: self.scroll_y as int,
            target_scroll_y: self.target_scroll_y as int,
            rule: self.rule@,
        }
    }
}

/// What always holds of a grid: it has at least one row, the selection names
/// one of its rows, that row and no other is active, the scroll target is
/// the one the selection asks for, and every row is well formed.
pub open spec fn grid_wf(g: GridView) -> bool {
    &&& scroll_valid(g.rule)
    &&& 1 <= g.rows.len() <= usize::MAX
    &&& g.selected_row_index < g.rows.len()
    &&& forall|i: int| 0 <= i < g.rows.len() ==> lane_wf(#[trigger] g.rows[i])
    &&& forall|i: int|
        0 <= i < g.rows.len() ==> (#[trigger] g.rows[i]).is_active == (i == g.selected_row_index)
    &&& g.target_scroll_y == scroll_target(g.rule, g.selected_row_index)
    &&& magnitude(g.scroll_y) <= SPAN_LIMIT
}

/// A row with its active flag set as given.
pub open spec fn with_active(l: LaneView, active: bool) -> LaneView {
    LaneView { is_active: active, ..l }
}

/// A grid of the given rows as it is first built: the first row active and
/// no other, not scrolled.
pub open spec fn new_grid(rows: Seq<LaneView>, rule: ScrollRuleView) -> GridView {
    GridView {
        rows: Seq::new(rows.len(), |i: int| with_active(rows[i], i == 0)),
        selected_row_index: 0,
        scroll_y: 0,
        target_scroll_y: 0,
        rule,
    }
}

/// The grid with the active role moved from its present row to row `index`.
pub open spec fn with_focus_on(g: GridView, index: nat) -> GridView {
    let from = g.selected_row_index as int;
    GridView {
        rows: g.rows.update(from, with_active(g.rows[from], false)).update(
            index as int,
            with_active(g.rows[index as int], true),
        ),
        selected_row_index: index,
        ..g
    }
}

/// The grid after a navigation input, before its scroll target is
/// recomputed. Up and Down move the active role by one row unless it is
/// already at that end; Left and Right go to the active row.
pub open spec fn grid_moved(g: GridView, direction: Direction) -> GridView {
    let at = g.selected_row_index;
    match direction {
        Direction::Up => if at > 0 {
            with_focus_on(g, (at - 1) as nat)
        } else {
            g
        },
        Direction::Down => if at + 1 < g.rows.len() {
            with_focus_on(g, at + 1)
        } else {
            g
        },
        _ => GridView { rows: g.rows.update(at as int, lane_input(g.rows[at as int], direction)), ..g },
    }
}

/// The grid after a navigation input.
pub open spec fn grid_input(g: GridView, direction: Direction) -> GridView {
    let moved = grid_moved(g, direction);
    GridView { target_scroll_y: scroll_target(g.rule, moved.selected_row_index), ..moved }
}

/// The grid one frame later: its scroll position one step closer to its
/// target, and every row advanced with that position as its vertical offset.
pub open spec fn grid_step(g: GridView, cache: CacheView) -> GridView {
    let scroll_y = eased(g.rule.easing, g.scroll_y, g.target_scroll_y);
    GridView {
        scroll_y,
        rows: Seq::new(g.rows.len(), |i: int| lane_step(g.rows[i], scroll_y, cache)),
        ..g
    }
}

/// The manager after the assets of the first `count` rows are loaded, row by
/// row.
pub open spec fn grid_cache_after(cache: CacheView, rows: Seq<LaneView>, count: nat) -> CacheView
    decreases count,
{
    if count == 0 {
        cache
    } else {
        let row = rows[count - 1];
        cache_after(grid_cache_after(cache, rows, (count - 1) as nat), row.items, row.items.len())
    }
}

/// The grid once its assets are loaded, row by row in order, through a
/// manager that was `cache` before.
pub open spec fn grid_loaded(g: GridView, cache: CacheView) -> GridView {
    GridView {
        rows: Seq::new(
            g.rows.len(),
            |i: int| lane_loaded(g.rows[i], grid_cache_after(cache, g.rows, i as nat)),
        ),
        ..g
    }
}

/// The draw list of one row, each entry marked with the row's index.
pub open spec fn row_calls(row: usize, draws: Seq<TileDraw>) -> Seq<DrawCall> {
    Seq::new(draws.len(), |i: int| DrawCall { row, item: draws[i].item, texture: draws[i].texture })
}

/// The draw list of the first `count` rows: row after row, and within each
/// row its drawable tiles in order.
pub open spec fn grid_draws(rows: Seq<LaneView>, count: nat) -> Seq<DrawCall>
    decreases count,
{
    if count == 0 {
        Seq::empty()
    } else {
        let row = rows[count - 1];
        grid_draws(rows, (count - 1) as nat) + row_calls(
            (count - 1) as usize,
            lane_draws(row.items, row.items.len()),
        )
    }
}

/// The grid built by [`ColumnList::new`]: twenty rows of posters, one lane
/// height apart.
pub open spec fn poster_grid() -> GridView {
    new_grid(
        Seq::new(GRID_ROWS as nat, |i: int| poster_lane(GRID_TOP + i * LANE_HEIGHT)),
        lane_scroll_rule(),
    )
}

impl ColumnList {
    pub open spec fn wf(&self) -> bool {
        grid_wf(self@)
    }

    /// A grid of twenty rows of ten posters each, the first row active.
    pub fn new() -> (grid: Self)
        ensures
            grid.wf(),
            grid@ == poster_grid(),
    {
        let mut rows: Vec<RowList> = Vec::new();
        let mut i: usize = 0;
        let mut y: i64 = GRID_TOP;
        while i < GRID_ROWS
            invariant
                i <= GRID_ROWS,
                rows@.len() == i,
                y == GRID_TOP + i * LANE_HEIGHT,
                forall|j: int|
                    0 <= j < i ==> (#[trigger] rows@[j]).wf() && rows@[j]@ == poster_lane(
                        GRID_TOP + j * LANE_HEIGHT,
                    ),
            decreases GRID_ROWS - i,
        {
            let row = RowList::new(y);
            rows.push(row);
            i = i + 1;
            y = y + LANE_HEIGHT;
        }
        let ghost lanes = lane_views(rows@);
        let grid = ColumnList::with_rows(rows, ScrollRule::lanes()).unwrap();
        assert(lanes =~= Seq::new(GRID_ROWS as nat, |i: int| poster_lane(GRID_TOP + i * LANE_HEIGHT)));
        grid
    }

    /// A grid of the given rows, the first row active and no other. A grid
    /// needs at least one row; without one there is no grid.
    pub fn with_rows(rows: Vec<RowList>, rule: ScrollRule) -> (grid: Option<Self>)
        requires
            rule.valid(),
            forall|i: int| 0 <= i < rows@.len() ==> (#[trigger] rows@[i]).wf(),
        ensures
            grid is Some <==> rows@.len() > 0,
            grid matches Some(g) ==> g.wf() && g@ == new_grid(lane_views(rows@), rule@),
    {
        let mut rows = rows;
        let ghost given = rows@;
        let count: usize = rows.len();
        if count == 0 {
            return None;
        }
        let mut i: usize = 0;
        while i < count
            invariant
                i <= count,
                count == rows@.len(),
                count == given.len(),
                forall|j: int| 0 <= j < count ==> (#[trigger] given[j]).wf(),
                forall|j: int| 0 <= j < i ==> (#[trigger] rows@[j])@ == with_active(given[j]@, j == 0),
                forall|j: int| i <= j < count ==> (#[trigger] rows@[j]) == given[j],
            decreases count - i,
        {
            rows[i].set_active(i == 0);
            i = i + 1;
        }
        let grid = ColumnList { rows, selected_row_index: 0, scroll_y: 0, target_scroll_y: 0, rule };
        proof {
            let want = new_grid(lane_views(given), rule@);
            assert(grid@.rows =~= want.rows);
            assert forall|j: int| 0 <= j < grid@.rows.len() implies lane_wf(#[trigger] grid@.rows[j]) by {
                assert(given[j].wf());
            }
        }
        Some(grid)
    }

    /// Takes a navigation input. Up and Down move the active role to the
    /// neighbouring row, if there is one; Left and Right are handed to the
    /// active row. The scroll target then follows the active row. A move
    /// past either end changes nothing.
    pub fn handle_input(&mut self, direction: Direction)
        requires
            old(self).wf(),
        ensures
            final(self).wf(),
            final(self)@ == grid_input(old(self)@, direction),
    {
        let ghost before = self@;
        let at: usize = self.selected_row_index;
        assert(lane_wf(before.rows[at as int]));
        match direction {
            Direction::Up => {
                if at > 0 {
                    self.rows[at].set_active(false);
                    self.rows[at - 1].set_active(true);
                    self.selected_row_index = at - 1;
                }
            },
            Direction::Down => {
                if self.rows.len() - at > 1 {
                    self.rows[at].set_active(false);
                    self.rows[at + 1].set_active(true);
                    self.selected_row_index = at + 1;
                }
            },
            _ => {
                self.rows[at].handle_input(direction);
            },
        }
        self.target_scroll_y = self.rule.target(self.selected_row_index);
        proof {
            let after = grid_input(before, direction);
            assert(self@.rows =~= after.rows);
            lemma_input_keeps_wf(before, direction);
        }
    }

    /// Gives every tile of every row its buffer and the record of its image,
    /// row by row.
    pub fn load_assets(&mut self, manager: &mut TextureManager)
        requires
            old(self).wf(),
            old(manager).wf(),
        ensures
            final(self).wf(),
            final(manager).wf(),
            final(self)@ == grid_loaded(old(self)@, old(manager)@),
            final(manager)@ == grid_cache_after(old(manager)@, old(self)@.rows, old(self)@.rows.len()),
    {
        let ghost grid = self@;
        let ghost cache = manager@;
        let count: usize = self.rows.len();
        let mut i: usize = 0;
        while i < count
            invariant
                i <= count,
                count == self.rows@.len(),
                grid == old(self)@,
                grid.rows.len() == count,
                grid_wf(grid),
                manager.wf(),
                manager@ == grid_cache_after(cache, grid.rows, i as nat),
                self@ == (GridView { rows: self@.rows, ..grid }),
                forall|j: int|
                    0 <= j < i ==> (#[trigger] self.rows@[j]).wf() && self.rows@[j]@ == lane_loaded(
                        grid.rows[j],
                        grid_cache_after(cache, grid.rows, j as nat),
                    ),
                forall|j: int| i <= j < count ==> (#[trigger] self.rows@[j])@ == grid.rows[j],
            decreases count - i,
        {
            assert(lane_wf(grid.rows[i as int]));
            self.rows[i].load_assets(manager);
            i = i + 1;
        }
        assert(self@.rows =~= grid_loaded(grid, cache).rows);
    }

    /// Advances the grid by one frame: the scroll position moves one step
    /// toward its target, then every row is advanced with the new position as
    /// its vertical offset.
    pub fn update(&mut self, manager: &TextureManager)
        requires
            old(self).wf(),
        ensures
            final(self).wf(),
            final(self)@ == grid_step(old(self)@, manager@),
    {
        let ghost grid = self@;
        proof {
            lemma_target_in_span(grid.rule, grid.selected_row_index);
        }
        let scroll_y = self.rule.advance(self.scroll_y, self.target_scroll_y);
        self.scroll_y = scroll_y;
        let count: usize = self.rows.len();
        let mut i: usize = 0;
        while i < count
            invariant
                i <= count,
                count == self.rows@.len(),
                grid == old(self)@,
                grid.rows.len() == count,
                grid_wf(grid),
                magnitude(scroll_y as int) <= SPAN_LIMIT,
                scroll_y == eased(grid.rule.easing, grid.scroll_y, grid.target_scroll_y),
                self@ == (GridView { rows: self@.rows, scroll_y: scroll_y as int, ..grid }),
                forall|j: int|
                    0 <= j < i ==> (#[trigger] self.rows@[j]).wf() && self.rows@[j]@ == lane_step(
                        grid.rows[j],
                        scroll_y as int,
                        manager@,
                    ),
                forall|j: int| i <= j < count ==> (#[trigger] self.rows@[j])@ == grid.rows[j],
            decreases count - i,
        {
            assert(lane_wf(grid.rows[i as int]));
            self.rows[i].update(scroll_y, manager);
            i = i + 1;
        }
        assert(self@.rows =~= grid_step(grid, manager@).rows);
    }

    /// The tiles to draw, row after row in order.
    pub fn draw(&self) -> (calls: Vec<DrawCall>)
        ensures
            calls@ == grid_draws(self@.rows, self@.rows.len()),
    {
        let mut calls: Vec<DrawCall> = Vec::new();
        let count: usize = self.rows.len();
        let mut i: usize = 0;
        while i < count
            invariant
                i <= count,
                count == self.rows@.len(),
                calls@ == grid_draws(self@.rows, i as nat),
            decreases count - i,
        {
            let draws = self.rows[i].draw();
            let ghost earlier = calls@;
            let ghost wanted = row_calls(i, draws@);
            let mut k: usize = 0;
            while k < draws.len()
                invariant
                    k <= draws@.len(),
                    wanted == row_calls(i, draws@),
                    calls@ == earlier + wanted.take(k as int),
                decreases draws@.len() - k,
            {
                let draw = draws[k];
                calls.push(DrawCall { row: i, item: draw.item, texture: draw.texture });
                assert(wanted.take(k + 1) =~= wanted.take(k as int).push(wanted[k as int]));
                k = k + 1;
            }
            assert(wanted.take(k as int) =~= wanted);
            i = i + 1;
        }
        calls
    }

    pub fn rows(&self) -> (out: &Vec<RowList>)
        ensures
            lane_views(out@) == self@.rows,
    {
        &self.rows
    }

    pub fn selected_row_index(&self) -> (out: usize)
        ensures
            out == self@.selected_row_index,
    {
        self.selected_row_index
    }

    pub fn scroll_y(&self) -> (out: i128)
        ensures
            out == self@.scroll_y,
    {
        self.scroll_y
    }

    pub fn target_scroll_y(&self) -> (out: i128)
        ensures
            out == self@.target_scroll_y,
    {
        self.target_scroll_y
    }

    pub fn rule(&self) -> (out: ScrollRule)
        ensures
            out@ == self@.rule,
    {
        self.rule
    }
}

/// A navigation input leaves a well-formed grid well formed: one row is
/// active, and every selection stays on a row or tile that exists.
pub proof fn lemma_input_keeps_wf(g: GridView, direction: Direction)
    requires
        grid_wf(g),
    ensures
        grid_wf(grid_input(g, direction)),
{
    let after = grid_input(g, direction);
    let at = g.selected_row_index as int;
    assert(lane_wf(g.rows[at]));
    crate::rowlist::lemma_input_keeps_wf(g.rows[at], direction);
    assert forall|i: int| 0 <= i < after.rows.len() implies lane_wf(#[trigger] after.rows[i]) by {
        assert(lane_wf(g.rows[i]));
    }
    assert forall|i: int| 0 <= i < after.rows.len() implies (#[trigger] after.rows[i]).is_active == (i
        == after.selected_row_index) by {
        assert(g.rows[i].is_active == (i == g.selected_row_index));
    }
}

/// A frame leaves a well-formed grid well formed.
pub proof fn lemma_step_keeps_wf(g: GridView, cache: CacheView)
    requires
        grid_wf(g),
    ensures
        grid_wf(grid_step(g, cache)),
{
    let after = grid_step(g, cache);
    lemma_target_in_span(g.rule, g.selected_row_index);
    lemma_eased_between(g.rule.easing, g.scroll_y, g.target_scroll_y);
    assert forall|i: int| 0 <= i < after.rows.len() implies lane_wf(#[trigger] after.rows[i]) by {
        assert(lane_wf(g.rows[i]));
        crate::rowlist::lemma_step_keeps_wf(g.rows[i], after.scroll_y, cache);
    }
    assert forall|i: int| 0 <= i < after.rows.len() implies (#[trigger] after.rows[i]).is_active == (i
        == after.selected_row_index) by {
        assert(g.rows[i].is_active == (i == g.selected_row_index));
    }
}

/// The grid after one event.
pub open spec fn grid_after(g: GridView, event: GridEvent) -> GridView {
    match event {
        GridEvent::Input { direction } => grid_input(g, direction),
        GridEvent::Frame { cache } => grid_step(g, cache),
    }
}

/// The grid after a sequence of events, first to last.
pub open spec fn grid_run(g: GridView, events: Seq<GridEvent>) -> GridView
    decreases events.len(),
{
    if events.len() == 0 {
        g
    } else {
        grid_after(grid_run(g, events.drop_last()), events.last())
    }
}

/// Whatever inputs and frames a grid goes through, in whatever order, it
/// stays well formed: the active row is a row of the grid, and the selection
/// of every row that has tiles is one of its tiles.
pub proof fn lemma_selection_always_in_range(g: GridView, events: Seq<GridEvent>)
    requires
        grid_wf(g),
    ensures
        grid_wf(grid_run(g, events)),
        grid_run(g, events).rows.len() == g.rows.len(),
        grid_run(g, events).selected_row_index < g.rows.len(),
        forall|i: int|
            0 <= i < g.rows.len() ==> (#[trigger] grid_run(g, events).rows[i]).items.len()
                == g.rows[i].items.len(),
        forall|i: int|
            0 <= i < g.rows.len() && g.rows[i].items.len() > 0 ==> (#[trigger] grid_run(
                g,
                events,
            ).rows[i]).selected_index < g.rows[i].items.len(),
    decreases events.len(),
{
    if events.len() > 0 {
        let before = grid_run(g, events.drop_last());
        lemma_selection_always_in_range(g, events.drop_last());
        match events.last() {
            GridEvent::Input { direction } => lemma_input_keeps_wf(before, direction),
            GridEvent::Frame { cache } => lemma_step_keeps_wf(before, cache),
        }
        let after = grid_run(g, events);
        assert forall|i: int| 0 <= i < g.rows.len() implies (#[trigger] after.rows[i]).items.len()
            == g.rows[i].items.len() by {
            assert(before.rows[i].items.len() == g.rows[i].items.len());
        }
        assert forall|i: int| 0 <= i < g.rows.len() && g.rows[i].items.len() > 0 implies (
        #[trigger] after.rows[i]).selected_index < g.rows[i].items.len() by {
            assert(lane_wf(after.rows[i]));
        }
    } else {
        assert forall|i: int| 0 <= i < g.rows.len() && g.rows[i].items.len() > 0 implies (
        #[trigger] g.rows[i]).selected_index < g.rows[i].items.len() by {
            assert(lane_wf(g.rows[i]));
        }
    }
}

/// Exactly one row of a well-formed grid is active: the selected one.
pub proof fn lemma_one_active_row(g: GridView)
    requires
        grid_wf(g),
    ensures
        g.rows[g.selected_row_index as int].is_active,
        forall|i: int| 0 <= i < g.rows.len() && (#[trigger] g.rows[i]).is_active ==> i
            == g.selected_row_index,
{
}

/// After a frame, exactly one tile of the active row has the focus, namely
/// its selected tile (if the row has tiles), and no tile of any other row
/// has it.
pub proof fn lemma_one_focused_tile(g: GridView, cache: CacheView)
    requires
        grid_wf(g),
    ensures
        forall|i: int, j: int|
            0 <= i < g.rows.len() && 0 <= j < g.rows[i].items.len() ==> (#[trigger] grid_step(
                g,
                cache,
            ).rows[i].items[j]).is_selected == (i == g.selected_row_index && j
                == g.rows[i].selected_index),
        g.rows[g.selected_row_index as int].items.len() > 0 ==> g.rows[g.selected_row_index as int].selected_index
            < g.rows[g.selected_row_index as int].items.len(),
{
    let after = grid_step(g, cache);
    assert forall|i: int, j: int|
        0 <= i < g.rows.len() && 0 <= j < g.rows[i].items.len() implies (#[trigger] after.rows[i].items[j]).is_selected
        == (i == g.selected_row_index && j == g.rows[i].selected_index) by {
        assert(g.rows[i].is_active == (i == g.selected_row_index));
        crate::rowlist::lemma_frame_focuses_selection(g.rows[i], after.scroll_y, cache);
    }
    assert(lane_wf(g.rows[g.selected_row_index as int]));
}

/// The scroll target of a grid depends on nothing but which row is active:
/// zero while that row is inside the window, else one lane height upward per
/// row beyond it.
pub proof fn lemma_target_follows_row(g: GridView)
    requires
        grid_wf(g),
    ensures
        g.selected_row_index < g.rule.window ==> g.target_scroll_y == 0,
        g.selected_row_index >= g.rule.window ==> g.target_scroll_y == -((g.selected_row_index - (
        g.rule.window - 1)) * g.rule.pitch),
{
}

/// A move past either end of the grid changes nothing at all.
pub proof fn lemma_move_past_end_ignored(g: GridView, direction: Direction)
    requires
        grid_wf(g),
        (direction == Direction::Up && g.selected_row_index == 0) || (direction == Direction::Down
            && g.selected_row_index + 1 == g.rows.len()),
    ensures
        grid_input(g, direction) == g,
{
}

/// Each frame the scroll position of a grid moves toward its target, never
/// past it, strictly closer while it has not arrived, and lands on it once
/// within the snap distance.
pub proof fn lemma_scroll_approaches_target(g: GridView, cache: CacheView)
    requires
        grid_wf(g),
    ensures
        ({
            let after = grid_step(g, cache);
            let target = g.target_scroll_y;
            &&& after.target_scroll_y == target
            &&& magnitude(target - after.scroll_y) <= magnitude(target - g.scroll_y)
            &&& g.scroll_y != target ==> magnitude(target - after.scroll_y) < magnitude(
                target - g.scroll_y,
            )
            &&& g.scroll_y <= target ==> g.scroll_y <= after.scroll_y <= target
            &&& g.scroll_y >= target ==> g.scroll_y >= after.scroll_y >= target
            &&& magnitude(target - g.scroll_y) <= g.rule.easing.snap ==> after.scroll_y == target
        }),
{
    lemma_eased_between(g.rule.easing, g.scroll_y, g.target_scroll_y);
    crate::easing::lemma_eased_approaches(g.rule.easing, g.scroll_y, g.target_scroll_y);
}

} // verus!
