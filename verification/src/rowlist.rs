//! A row: an ordered run of tiles that scrolls sideways.
//!
//! A row remembers which of its tiles is selected and listens to Left and
//! Right only while it is the active row of its grid. Each frame it glides
//! toward the scroll position its selection asks for and pushes that
//! position, together with the vertical offset it is handed, into every tile.

use vstd::prelude::*;
use crate::easing::{eased, lemma_eased_between};
use crate::fixed::{magnitude, SPAN_LIMIT};
use crate::input::Direction;
use crate::posteritem::{PosterItem, TileView, tile_wf, tile_step, tile_quad, new_tile};
use crate::scroll::{ScrollRule, ScrollRuleView, scroll_valid, scroll_target, lemma_target_in_span};
use crate::texture_manager::{
    CacheView, SharedTexture, TextureManager, handle_for, natural_size, requested,
};

verus! {

/// Tiles in a row built by [`RowList::new`].
pub const ROW_TILES: usize = 10;

/// Left edge of the first tile of such a row.
pub const ROW_LEFT: i64 = 50_000_000;

/// Width of its tiles.
pub const POSTER_WIDTH: i64 = 300_000_000;

/// Height of its tiles until they are fitted to their images.
pub const POSTER_HEIGHT: i64 = 200_000_000;

/// Image of its tiles at even indices.
pub const POSTER_EVEN: &'static str =
    "https://m.media-amazon.com/images/M/MV5BNGI0MDI4NjEtOWU3ZS00ODQyLWFhYTgtNGYxM2ZkM2Q2YjE3XkEyXkFqcGc@._V1_.jpg";

/// Image of its tiles at odd indices.
pub const POSTER_ODD: &'static str =
    "https://m.media-amazon.com/images/M/MV5BNDE0MGFkYzktYTMyNS00Mjk1LWI3YzEtYWYxMzAxNTI2YmUyXkEyXkFqcGc@._V1_QL75_UX480_.jpg";

pub struct RowList {
    items: Vec<PosterItem>,
    selected_index: usize,
    is_active: bool,
    scroll_x: i128,
    target_scroll_x: i128,
    offset_y: i128,
    rule: ScrollRule,
}

/// A row as the contracts see it.
pub struct LaneView {
    pub items: Seq<TileView>,
    /// Index of the selected tile; zero in a row without tiles, where it
    /// selects nothing.
    pub selected_index: nat,
    pub is_active: bool,
    pub scroll_x: int,
    pub target_scroll_x: int,
    /// The vertical offset handed down by the grid in the latest frame.
    pub offset_y: int,
    pub rule: ScrollRuleView,
}

/// One tile to draw: its index in the row and the record holding its
/// texture.
#[derive(Clone, Copy, Debug, PartialEq, Eq, Structural)]
pub struct TileDraw {
    pub item: usize,
    pub texture: SharedTexture,
}

/// The tiles of a vector as the contracts see them.
pub open spec fn tile_views(items: Seq<PosterItem>) -> Seq<TileView> {
    Seq::new(items.len(), |i: int| items[i]@)
}

impl View for RowList {
    type V = LaneView;

    closed spec fn view(&self) -> LaneView {
        LaneView {
            items: tile_views(self.items@),
            selected_index: self.selected_index as nat,
            is_active: self.is_active,
            scroll_x: self.scroll_x as int,
            target_scroll_x: self.target_scroll_x as int,
            offset_y: self.offset_y as int,
            rule: self.rule@,
        }
    }
}

/// What always holds of a row: the selection names one of its tiles (or
/// nothing, in a row without tiles), the scroll target is the one that
/// selection asks for, and every tile is well formed.
pub open spec fn lane_wf(l: LaneView) -> bool {
    &&& scroll_valid(l.rule)
    &&& l.items.len() <= usize::MAX
    &&& forall|i: int| 0 <= i < l.items.len() ==> tile_wf(#[trigger] l.items[i])
    &&& l.items.len() == 0 ==> l.selected_index == 0
    &&& l.items.len() > 0 ==> l.selected_index < l.items.len()
    &&& l.target_scroll_x == scroll_target(l.rule, l.selected_index)
    &&& magnitude(l.scroll_x) <= SPAN_LIMIT
    &&& magnitude(l.offset_y) <= SPAN_LIMIT
}

/// The selected tile of a row, if the row has tiles.
pub open spec fn lane_selected(l: LaneView) -> Option<nat> {
    if l.items.len() > 0 {
        Some(l.selected_index)
    } else {
        None
    }
}

/// A row of the given tiles as it is first built: inactive, its first tile
/// selected, not scrolled.
pub open spec fn new_lane(items: Seq<TileView>, rule: ScrollRuleView) -> LaneView {
    LaneView {
        items,
        selected_index: 0,
        is_active: false,
        scroll_x: 0,
        target_scroll_x: 0,
        offset_y: 0,
        rule,
    }
}

/// The index selected after a move: one to the left or right where there is
/// a tile to move to, else the same.
pub open spec fn moved_index(index: nat, count: nat, direction: Direction) -> nat {
    match direction {
        Direction::Left => if index > 0 {
            (index - 1) as nat
        } else {
            index
        },
        Direction::Right => if index + 1 < count {
            index + 1
        } else {
            index
        },
        _ => index,
    }
}

/// The row after a navigation input. An inactive row ignores it; an active
/// row moves its selection and retargets its scroll position.
pub open spec fn lane_input(l: LaneView, direction: Direction) -> LaneView {
    if l.is_active {
        let index = moved_index(l.selected_index, l.items.len(), direction);
        LaneView {
            selected_index: index,
            target_scroll_x: scroll_target(l.rule, index),
            ..l
        }
    } else {
        l
    }
}

/// Whether tile `index` of the row has the focus: the row is active and the
/// tile is the selected one.
pub open spec fn has_focus(l: LaneView, index: int) -> bool {
    l.is_active && index == l.selected_index
}

/// The row one frame later: its scroll position one step closer to its
/// target, and every tile advanced with that position, the vertical offset
/// handed down, and its share of the focus.
pub open spec fn lane_step(l: LaneView, offset_y: int, cache: CacheView) -> LaneView {
    let scroll_x = eased(l.rule.easing, l.scroll_x, l.target_scroll_x);
    LaneView {
        scroll_x,
        offset_y,
        items: Seq::new(
            l.items.len(),
            |i: int|
                tile_step(
                    l.items[i],
                    has_focus(l, i),
                    scroll_x,
                    offset_y,
                    natural_size(cache, l.items[i].texture),
                ),
        ),
        ..l
    }
}

/// The manager after requests for the sources of the first `count` tiles, in
/// order.
pub open spec fn cache_after(cache: CacheView, items: Seq<TileView>, count: nat) -> CacheView
    decreases count,
{
    if count == 0 {
        cache
    } else {
        requested(cache_after(cache, items, (count - 1) as nat), items[count - 1].src)
    }
}

/// A tile once its assets are loaded: it has its buffer, filled with its
/// vertices, and holds the given record.
pub open spec fn tile_loaded(t: TileView, shared: SharedTexture) -> TileView {
    TileView { buffer: Some(tile_quad(t)), texture: Some(shared), ..t }
}

/// The row once its assets are loaded, tile by tile in order, through a
/// manager that was `cache` before.
pub open spec fn lane_loaded(l: LaneView, cache: CacheView) -> LaneView {
    LaneView {
        items: Seq::new(
            l.items.len(),
            |i: int|
                tile_loaded(
                    l.items[i],
                    handle_for(cache_after(cache, l.items, i as nat), l.items[i].src),
                ),
        ),
        ..l
    }
}

/// Whether a tile can be drawn: it has a texture and a buffer.
pub open spec fn drawable(t: TileView) -> bool {
    t.texture is Some && t.buffer is Some
}

/// The draw list of the first `count` tiles: the drawable ones, in order.
pub open spec fn lane_draws(items: Seq<TileView>, count: nat) -> Seq<TileDraw>
    decreases count,
{
    if count == 0 {
        Seq::empty()
    } else {
        let earlier = lane_draws(items, (count - 1) as nat);
        let tile = items[count - 1];
        if drawable(tile) {
            earlier.push(TileDraw { item: (count - 1) as usize, texture: tile.texture->0 })
        } else {
            earlier
        }
    }
}

/// Source of the image of tile `index` of a row built by [`RowList::new`].
pub open spec fn poster_source(index: int) -> Seq<char> {
    if index % 2 == 0 {
        POSTER_EVEN@
    } else {
        POSTER_ODD@
    }
}

/// Tile `index` of a row built by [`RowList::new`] at height `y_start`.
pub open spec fn poster_tile(index: int, y_start: int) -> TileView {
    new_tile(
        ROW_LEFT + index * crate::scroll::TILE_PITCH,
        y_start,
        POSTER_WIDTH as int,
        POSTER_HEIGHT as int,
        poster_source(index),
        true,
        crate::posteritem::standard_tile_rule(),
    )
}

/// The row built by [`RowList::new`] at height `y_start`.
pub open spec fn poster_lane(y_start: int) -> LaneView {
    new_lane(
        Seq::new(ROW_TILES as nat, |i: int| poster_tile(i, y_start)),
        crate::scroll::tile_scroll_rule(),
    )
}

impl RowList {
    pub open spec fn wf(&self) -> bool {
        lane_wf(self@)
    }

    /// A row of ten posters, 300 by 200, one tile pitch apart, at height
    /// `y_start`. The posters alternate between two images and wait to be
    /// fitted to them.
    pub fn new(y_start: i64) -> (row: Self)
        ensures
            row.wf(),
            row@ == poster_lane(y_start as int),
    {
        let mut items: Vec<PosterItem> = Vec::new();
        let mut i: usize = 0;
        let mut x: i64 = ROW_LEFT;
        while i < ROW_TILES
            invariant
                i <= ROW_TILES,
                items@.len() == i,
                x == ROW_LEFT + i * crate::scroll::TILE_PITCH,
                forall|j: int|
                    0 <= j < i ==> (#[trigger] items@[j]).wf() && items@[j]@ == poster_tile(
                        j,
                        y_start as int,
                    ),
            decreases ROW_TILES - i,
        {
            let src = if i % 2 == 0 {
                POSTER_EVEN
            } else {
                POSTER_ODD
            };
            let item = PosterItem::new(x, y_start, POSTER_WIDTH, POSTER_HEIGHT, src, true);
            items.push(item);
            i = i + 1;
            x = x + crate::scroll::TILE_PITCH;
        }
        let row = RowList::with_items(items, ScrollRule::tiles());
        assert(row@.items =~= poster_lane(y_start as int).items);
        row
    }

    /// A row of the given tiles: inactive, its first tile selected, not
    /// scrolled. A row may have no tiles at all.
    pub fn with_items(items: Vec<PosterItem>, rule: ScrollRule) -> (row: Self)
        requires
            rule.valid(),
            forall|i: int| 0 <= i < items@.len() ==> (#[trigger] items@[i]).wf(),
        ensures
            row.wf(),
            row@ == new_lane(tile_views(items@), rule@),
    {
        let ghost count = items.len();
        let row = RowList {
            items,
            selected_index: 0,
            is_active: false,
            scroll_x: 0,
            target_scroll_x: 0,
            offset_y: 0,
            rule,
        };
        assert(row@.items.len() == count);
        assert forall|i: int| 0 <= i < row@.items.len() implies tile_wf(#[trigger] row@.items[i]) by {
            assert(items@[i].wf());
        }
        row
    }

    /// Makes the row the active one of its grid, or ends that.
    pub fn set_active(&mut self, active: bool)
        ensures
            final(self)@ == (LaneView { is_active: active, ..old(self)@ }),
    {
        self.is_active = active;
    }

    /// Takes a navigation input. Only an active row reacts, and only to Left
    /// and Right: the selection moves by one tile unless it is already at that
    /// end of the row, and the scroll target follows the selection.
    pub fn handle_input(&mut self, direction: Direction)
        requires
            old(self).wf(),
        ensures
            final(self).wf(),
            final(self)@ == lane_input(old(self)@, direction),
    {
        if !self.is_active {
            return ;
        }
        match direction {
            Direction::Left => {
                if self.selected_index > 0 {
                    self.selected_index = self.selected_index - 1;
                }
            },
            Direction::Right => {
                if self.items.len() - self.selected_index > 1 {
                    self.selected_index = self.selected_index + 1;
                }
            },
            _ => {},
        }
        self.target_scroll_x = self.rule.target(self.selected_index);
    }

    /// Gives every tile its buffer and the record of its image, asking the
    /// manager for each tile's source in turn. Tiles with one source end up
    /// holding one record.
    pub fn load_assets(&mut self, manager: &mut TextureManager)
        requires
            old(self).wf(),
            old(manager).wf(),
        ensures
            final(self).wf(),
            final(manager).wf(),
            final(self)@ == lane_loaded(old(self)@, old(manager)@),
            final(manager)@ == cache_after(old(manager)@, old(self)@.items, old(self)@.items.len()),
    {
        let ghost lane = self@;
        let ghost cache = manager@;
        let count: usize = self.items.len();
        let mut i: usize = 0;
        while i < count
            invariant
                i <= count,
                count == self.items@.len(),
                lane == old(self)@,
                lane.items.len() == count,
                lane_wf(lane),
                manager.wf(),
                manager@ == cache_after(cache, lane.items, i as nat),
                self@ == (LaneView { items: self@.items, ..lane }),
                forall|j: int|
                    0 <= j < i ==> (#[trigger] self.items@[j])@ == tile_loaded(
                        lane.items[j],
                        handle_for(cache_after(cache, lane.items, j as nat), lane.items[j].src),
                    ),
                forall|j: int| i <= j < count ==> (#[trigger] self.items@[j])@ == lane.items[j],
            decreases count - i,
        {
            assert(tile_wf(lane.items[i as int]));
            self.items[i].init_buffer();
            self.items[i].request_texture(manager);
            i = i + 1;
        }
        assert(self@.items =~= lane_loaded(lane, cache).items);
        assert forall|j: int| 0 <= j < self@.items.len() implies tile_wf(
            #[trigger] self@.items[j],
        ) by {
            assert(tile_wf(lane.items[j]));
        }
    }

    /// Advances the row by one frame: the scroll position moves one step
    /// toward its target, and every tile is advanced with the new position,
    /// the vertical offset handed down by the grid, and the focus if the row
    /// is active and the tile the selected one.
    pub fn update(&mut self, offset_y: i128, manager: &TextureManager)
        requires
            old(self).wf(),
            magnitude(offset_y as int) <= SPAN_LIMIT,
        ensures
            final(self).wf(),
            final(self)@ == lane_step(old(self)@, offset_y as int, manager@),
    {
        let ghost lane = self@;
        proof {
            lemma_target_in_span(lane.rule, lane.selected_index);
        }
        let scroll_x = self.rule.advance(self.scroll_x, self.target_scroll_x);
        self.scroll_x = scroll_x;
        self.offset_y = offset_y;
        let count: usize = self.items.len();
        let mut i: usize = 0;
        while i < count
            invariant
                i <= count,
                count == self.items@.len(),
                lane == old(self)@,
                lane.items.len() == count,
                lane_wf(lane),
                magnitude(offset_y as int) <= SPAN_LIMIT,
                magnitude(scroll_x as int) <= SPAN_LIMIT,
                scroll_x == eased(lane.rule.easing, lane.scroll_x, lane.target_scroll_x),
                self@ == (LaneView {
                    items: self@.items,
                    scroll_x: scroll_x as int,
                    offset_y: offset_y as int,
                    ..lane
                }),
                forall|j: int|
                    0 <= j < i ==> (#[trigger] self.items@[j]).wf() && self.items@[j]@ == tile_step(
                        lane.items[j],
                        has_focus(lane, j),
                        scroll_x as int,
                        offset_y as int,
                        natural_size(manager@, lane.items[j].texture),
                    ),
                forall|j: int| i <= j < count ==> (#[trigger] self.items@[j])@ == lane.items[j],
            decreases count - i,
        {
            assert(tile_wf(lane.items[i as int]));
            let focused = self.is_active && i == self.selected_index;
            self.items[i].update(focused, scroll_x, offset_y, manager);
            i = i + 1;
        }
        assert(self@.items =~= lane_step(lane, offset_y as int, manager@).items);
    }

    /// The tiles to draw, in order: every tile that has both a texture and a
    /// buffer. A record still showing its placeholder is drawn like any
    /// other.
    pub fn draw(&self) -> (draws: Vec<TileDraw>)
        ensures
            draws@ == lane_draws(self@.items, self@.items.len()),
    {
        let mut draws: Vec<TileDraw> = Vec::new();
        let count: usize = self.items.len();
        let mut i: usize = 0;
        while i < count
            invariant
                i <= count,
                count == self.items@.len(),
                draws@ == lane_draws(self@.items, i as nat),
            decreases count - i,
        {
            let tile = &self.items[i];
            if let Some(texture) = tile.texture() {
                if tile.buffer().is_some() {
                    draws.push(TileDraw { item: i, texture });
                }
            }
            i = i + 1;
        }
        draws
    }

    pub fn items(&self) -> (out: &Vec<PosterItem>)
        ensures
            tile_views(out@) == self@.items,
    {
        &self.items
    }

    /// Index of the selected tile, or nothing in a row without tiles.
    pub fn selected(&self) -> (out: Option<usize>)
        ensures
            out is Some <==> lane_selected(self@) is Some,
            out matches Some(index) ==> lane_selected(self@) == Some(index as nat),
    {
        if self.items.len() > 0 {
            Some(self.selected_index)
        } else {
            None
        }
    }

    pub fn selected_index(&self) -> (out: usize)
        ensures
            out == self@.selected_index,
    {
        self.selected_index
    }

    pub fn is_active(&self) -> (out: bool)
        ensures
            out == self@.is_active,
    {
        self.is_active
    }

    pub fn scroll_x(&self) -> (out: i128)
        ensures
            out == self@.scroll_x,
    {
        self.scroll_x
    }

    pub fn target_scroll_x(&self) -> (out: i128)
        ensures
            out == self@.target_scroll_x,
    {
        self.target_scroll_x
    }

    pub fn offset_y(&self) -> (out: i128)
        ensures
            out == self@.offset_y,
    {
        self.offset_y
    }

    pub fn rule(&self) -> (out: ScrollRule)
        ensures
            out@ == self@.rule,
    {
        self.rule
    }
}

/// A navigation input leaves a well-formed row well formed: the selection
/// stays on a tile of the row.
pub proof fn lemma_input_keeps_wf(l: LaneView, direction: Direction)
    requires
        lane_wf(l),
    ensures
        lane_wf(lane_input(l, direction)),
{
}

/// A frame leaves a well-formed row well formed.
pub proof fn lemma_step_keeps_wf(l: LaneView, offset_y: int, cache: CacheView)
    requires
        lane_wf(l),
        magnitude(offset_y) <= SPAN_LIMIT,
    ensures
        lane_wf(lane_step(l, offset_y, cache)),
{
    let after = lane_step(l, offset_y, cache);
    lemma_target_in_span(l.rule, l.selected_index);
    lemma_eased_between(l.rule.easing, l.scroll_x, l.target_scroll_x);
    assert forall|i: int| 0 <= i < after.items.len() implies tile_wf(#[trigger] after.items[i]) by {
        assert(tile_wf(l.items[i]));
        crate::posteritem::lemma_step_keeps_wf(
            l.items[i],
            has_focus(l, i),
            after.scroll_x,
            offset_y,
            natural_size(cache, l.items[i].texture),
        );
    }
}

/// The scroll target of a row depends on nothing but its selection: zero
/// while the selection is inside the window, else one pitch backward per
/// tile beyond it.
pub proof fn lemma_target_follows_selection(l: LaneView)
    requires
        lane_wf(l),
    ensures
        l.selected_index < l.rule.window ==> l.target_scroll_x == 0,
        l.selected_index >= l.rule.window ==> l.target_scroll_x == -((l.selected_index - (
        l.rule.window - 1)) * l.rule.pitch),
{
}

/// After a frame the tiles agree with the selection: in an active row
/// exactly the selected tile has the focus, in an inactive row none has.
pub proof fn lemma_frame_focuses_selection(l: LaneView, offset_y: int, cache: CacheView)
    ensures
        forall|i: int|
            0 <= i < l.items.len() ==> (#[trigger] lane_step(l, offset_y, cache).items[i]).is_selected
                == (l.is_active && i == l.selected_index),
{
}

/// An inactive row ignores every input, and an empty row is left as it is by
/// any input.
pub proof fn lemma_input_ignored(l: LaneView, direction: Direction)
    requires
        lane_wf(l),
        !l.is_active || l.items.len() == 0,
    ensures
        lane_input(l, direction) == l,
{
}

/// Each frame the scroll position of a row moves toward its target, never
/// past it, strictly closer while it has not arrived, and lands on it once
/// within the snap distance.
pub proof fn lemma_scroll_approaches_target(l: LaneView, offset_y: int, cache: CacheView)
    requires
        lane_wf(l),
    ensures
        ({
            let after = lane_step(l, offset_y, cache);
            let target = l.target_scroll_x;
            &&& after.target_scroll_x == target
            &&& magnitude(target - after.scroll_x) <= magnitude(target - l.scroll_x)
            &&& l.scroll_x != target ==> magnitude(target - after.scroll_x) < magnitude(
                target - l.scroll_x,
            )
            &&& l.scroll_x <= target ==> l.scroll_x <= after.scroll_x <= target
            &&& l.scroll_x >= target ==> l.scroll_x >= after.scroll_x >= target
            &&& magnitude(target - l.scroll_x) <= l.rule.easing.snap ==> after.scroll_x == target
        }),
{
    lemma_eased_between(l.rule.easing, l.scroll_x, l.target_scroll_x);
    crate::easing::lemma_eased_approaches(l.rule.easing, l.scroll_x, l.target_scroll_x);
}

/// Tiles of one row that show the same source hold the same record once the
/// row's assets are loaded.
pub proof fn lemma_same_source_same_record(l: LaneView, cache: CacheView, first: int, second: int)
    requires
        0 <= first <= second < l.items.len(),
        l.items[first].src == l.items[second].src,
    ensures
        lane_loaded(l, cache).items[first].texture == lane_loaded(l, cache).items[second].texture,
{
    if first < second {
        lemma_loaded_source_is_known(cache, l.items, second as nat, first);
    }
}

/// Once the first `count` tiles are loaded, the source of each of them is
/// known to the manager under the handle that tile was given.
pub proof fn lemma_loaded_source_is_known(
    cache: CacheView,
    items: Seq<TileView>,
    count: nat,
    index: int,
)
    requires
        0 <= index < count <= items.len(),
    ensures
        cache_after(cache, items, count).handles.contains_key(items[index].src),
        cache_after(cache, items, count).handles[items[index].src] == handle_for(
            cache_after(cache, items, index as nat),
            items[index].src,
        ),
    decreases count,
{
    if index + 1 < count {
        lemma_loaded_source_is_known(cache, items, (count - 1) as nat, index);
    }
}

/// The draw list of a row holds exactly its drawable tiles, each once, in
/// the order of the row, each with the record it holds.
pub proof fn lemma_draws_are_the_drawable_tiles(items: Seq<TileView>, count: nat)
    requires
        count <= items.len(),
        count <= usize::MAX,
    ensures
        forall|k: int|
            0 <= k < lane_draws(items, count).len() ==> {
                let draw = #[trigger] lane_draws(items, count)[k];
                &&& draw.item < count
                &&& drawable(items[draw.item as int])
                &&& items[draw.item as int].texture == Some(draw.texture)
            },
        forall|j: int, k: int|
            0 <= j < k < lane_draws(items, count).len() ==> (#[trigger] lane_draws(
                items,
                count,
            )[j]).item < (#[trigger] lane_draws(items, count)[k]).item,
        forall|i: int|
            0 <= i < count && drawable(#[trigger] items[i]) ==> exists|k: int|
                0 <= k < lane_draws(items, count).len() && (#[trigger] lane_draws(
                    items,
                    count,
                )[k]).item == i,
    decreases count,
{
    if count > 0 {
        let earlier = lane_draws(items, (count - 1) as nat);
        let draws = lane_draws(items, count);
        lemma_draws_are_the_drawable_tiles(items, (count - 1) as nat);
        assert forall|i: int| 0 <= i < count && drawable(#[trigger] items[i]) implies exists|k: int|
            0 <= k < draws.len() && (#[trigger] draws[k]).item == i by {
            if i < count - 1 {
                let k = choose|k: int| 0 <= k < earlier.len() && (#[trigger] earlier[k]).item == i;
                assert(draws[k] == earlier[k]);
            } else {
                assert(draws[draws.len() - 1].item == i);
            }
        }
    }
}

} // verus!
