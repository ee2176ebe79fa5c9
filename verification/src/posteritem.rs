//! A tile: one focusable, independently animated image rectangle.
//!
//! A tile knows its rectangle, the source of its image, its zoom (which
//! glides to 1.2 while the tile has the focus and back to 1.0 when it loses
//! it) and the scroll offsets pushed into it by its row. It keeps the six
//! vertices last handed to the graphics buffer and recomputes them only in a
//! frame in which something that shapes them has changed.

use vstd::prelude::*;
use crate::easing::{Easing, EasingView, easing_valid, eased, lemma_eased_between};
use crate::fixed::{magnitude, trunc_div, mul_div, lemma_trunc_div_shrinks, ONE, SPAN_LIMIT};
use crate::texture_manager::{SharedTexture, TextureManager, handle_for, natural_size, requested};

verus! {

/// Zoom of a tile at rest.
pub const SCALE_IDLE: i128 = 1_000_000;

/// Zoom of the tile that has the focus.
pub const SCALE_FOCUS: i128 = 1_200_000;

/// Numerator of the fraction of the gap the zoom covers per frame.
pub const SCALE_DAMPING_NUM: u16 = 15;

/// Denominator of the fraction of the gap the zoom covers per frame.
pub const SCALE_DAMPING_DEN: u16 = 100;

/// Gap at or below which the zoom lands on its target (a thousandth).
pub const SCALE_SNAP: u64 = 1_000;

/// Change of height below which an aspect fit is not worth applying (a
/// hundredth of a pixel).
pub const ASPECT_TOLERANCE: u64 = 10_000;

/// Change of an offset below which the vertices are left as they are (a tenth
/// of a pixel).
pub const OFFSET_TOLERANCE: u64 = 100_000;

/// Numbers per vertex: position x, position y, texture u, texture v.
pub const VERTEX_SIZE: usize = 4;

/// Vertices per tile: two triangles.
pub const QUAD_VERTICES: usize = 6;

/// Bytes from one vertex to the next in the graphics buffer.
pub const VERTEX_STRIDE: usize = 16;

/// Largest magnitude of a tile's height (2 to the power 95): what any width
/// can be fitted to by any natural image size.
pub const HEIGHT_LIMIT: i128 = 0x8000_0000_0000_0000_0000_0000;

/// The tolerances and the zoom damping of a tile.
#[derive(Clone, Copy, Debug)]
pub struct TileRule {
    aspect_tolerance: u64,
    offset_tolerance: u64,
    scale: Easing,
}

/// The mathematical content of a [`TileRule`].
pub struct TileRuleView {
    pub aspect_tolerance: nat,
    pub offset_tolerance: nat,
    pub scale: EasingView,
}

impl View for TileRule {
    type V = TileRuleView;

    closed spec fn view(&self) -> TileRuleView {
        TileRuleView {
            aspect_tolerance: self.aspect_tolerance as nat,
            offset_tolerance: self.offset_tolerance as nat,
            scale: self.scale@,
        }
    }
}

pub open spec fn tile_rule_valid(r: TileRuleView) -> bool {
    &&& easing_valid(r.scale)
    &&& r.aspect_tolerance <= u64::MAX
    &&& r.offset_tolerance <= u64::MAX
}

/// The rule tiles follow unless told otherwise.
pub open spec fn standard_tile_rule() -> TileRuleView {
    TileRuleView {
        aspect_tolerance: ASPECT_TOLERANCE as nat,
        offset_tolerance: OFFSET_TOLERANCE as nat,
        scale: EasingView {
            num: SCALE_DAMPING_NUM as nat,
            den: SCALE_DAMPING_DEN as nat,
            snap: SCALE_SNAP as nat,
        },
    }
}

impl TileRule {
    pub open spec fn valid(&self) -> bool {
        tile_rule_valid(self@)
    }

    pub fn new(aspect_tolerance: u64, offset_tolerance: u64, scale: Easing) -> (rule: TileRule)
        requires
            scale.valid(),
        ensures
            rule.valid(),
            rule@ == (TileRuleView {
                aspect_tolerance: aspect_tolerance as nat,
                offset_tolerance: offset_tolerance as nat,
                scale: scale@,
            }),
    {
        TileRule { aspect_tolerance, offset_tolerance, scale }
    }

    /// The rule tiles follow unless told otherwise.
    pub fn standard() -> (rule: TileRule)
        ensures
            rule.valid(),
            rule@ == standard_tile_rule(),
    {
        let scale = Easing::new(SCALE_DAMPING_NUM, SCALE_DAMPING_DEN, SCALE_SNAP).unwrap();
        TileRule { aspect_tolerance: ASPECT_TOLERANCE, offset_tolerance: OFFSET_TOLERANCE, scale }
    }

    pub fn aspect_tolerance(&self) -> (out: u64)
        ensures
            out == self@.aspect_tolerance,
    {
        self.aspect_tolerance
    }

    pub fn offset_tolerance(&self) -> (out: u64)
        ensures
            out == self@.offset_tolerance,
    {
        self.offset_tolerance
    }

    pub fn scale(&self) -> (out: Easing)
        ensures
            out@ == self@.scale,
    {
        self.scale
    }
}

pub struct PosterItem {
    x: i64,
    y: i64,
    w: i64,
    h: i128,
    src: String,
    resize_contain: bool,
    is_selected: bool,
    anim_scale: i128,
    offset_x: i128,
    offset_y: i128,
    prev_offset_x: i128,
    prev_offset_y: i128,
    texture: Option<SharedTexture>,
    buffer: Option<Vec<i128>>,
    needs_upload: bool,
    rule: TileRule,
}

/// A tile as the contracts see it.
pub struct TileView {
    /// Left edge, top edge, width and height of the rectangle at rest.
    pub x: int,
    pub y: int,
    pub w: int,
    pub h: int,
    /// Source of the image.
    pub src: Seq<char>,
    /// Whether the height still waits to be fitted to the image's aspect.
    pub resize_contain: bool,
    pub is_selected: bool,
    pub anim_scale: int,
    /// The scroll offsets of the current frame.
    pub offset_x: int,
    pub offset_y: int,
    /// The scroll offsets at which the vertices were last recomputed for a
    /// move.
    pub prev_offset_x: int,
    pub prev_offset_y: int,
    /// The record last obtained for the source, if any.
    pub texture: Option<SharedTexture>,
    /// The vertices last handed to the graphics buffer, once it exists.
    pub buffer: Option<Seq<int>>,
    /// Whether the latest frame recomputed the vertices.
    pub needs_upload: bool,
    pub rule: TileRuleView,
}

/// The numbers of a sequence of machine integers.
pub open spec fn as_ints(values: Seq<i128>) -> Seq<int> {
    Seq::new(values.len(), |i: int| values[i] as int)
}

impl View for PosterItem {
    type V = TileView;

    closed spec fn view(&self) -> TileView {
        TileView {
            x: self.x as int,
            y: self.y as int,
            w: self.w as int,
            h: self.h as int,
            src: self.src@,
            resize_contain: self.resize_contain,
            is_selected: self.is_selected,
            anim_scale: self.anim_scale as int,
            offset_x: self.offset_x as int,
            offset_y: self.offset_y as int,
            prev_offset_x: self.prev_offset_x as int,
            prev_offset_y: self.prev_offset_y as int,
            texture: self.texture,
            buffer: match self.buffer {
                Some(vertices) => Some(as_ints(vertices@)),
                None => None,
            },
            needs_upload: self.needs_upload,
            rule: self.rule@,
        }
    }
}

/// What always holds of a tile: its numbers are within the ranges the
/// arithmetic is good for, its zoom is between rest and focus, and its buffer,
/// once made, holds one quad.
pub open spec fn tile_wf(t: TileView) -> bool {
    &&& tile_rule_valid(t.rule)
    &&& i64::MIN <= t.x <= i64::MAX
    &&& i64::MIN <= t.y <= i64::MAX
    &&& i64::MIN <= t.w <= i64::MAX
    &&& magnitude(t.h) <= HEIGHT_LIMIT
    &&& SCALE_IDLE <= t.anim_scale <= SCALE_FOCUS
    &&& magnitude(t.offset_x) <= SPAN_LIMIT
    &&& magnitude(t.offset_y) <= SPAN_LIMIT
    &&& magnitude(t.prev_offset_x) <= SPAN_LIMIT
    &&& magnitude(t.prev_offset_y) <= SPAN_LIMIT
    &&& t.buffer matches Some(vertices) ==> vertices.len() == QUAD_VERTICES * VERTEX_SIZE
}

/// The six vertices of a rectangle grown about its own centre by `scale` and
/// then moved by the offsets. Each vertex is a position followed by a texture
/// coordinate; the two triangles share the diagonal from bottom left to top
/// right, and the texture covers the rectangle once.
pub open spec fn quad(
    x: int,
    y: int,
    w: int,
    h: int,
    scale: int,
    offset_x: int,
    offset_y: int,
) -> Seq<int> {
    let grown_w = trunc_div(w * scale, ONE as int);
    let grown_h = trunc_div(h * scale, ONE as int);
    let left = x + trunc_div(w, 2) + offset_x - trunc_div(grown_w, 2);
    let top = y + trunc_div(h, 2) + offset_y - trunc_div(grown_h, 2);
    let right = left + grown_w;
    let bottom = top + grown_h;
    seq![
        left, top, 0, 0,
        left, bottom, 0, ONE as int,
        right, top, ONE as int, 0,
        right, top, ONE as int, 0,
        left, bottom, 0, ONE as int,
        right, bottom, ONE as int, ONE as int,
    ]
}

/// The vertices of a tile as it stands.
pub open spec fn tile_quad(t: TileView) -> Seq<int> {
    quad(t.x, t.y, t.w, t.h, t.anim_scale, t.offset_x, t.offset_y)
}

/// A new tile: at rest, without focus, texture or buffer.
pub open spec fn new_tile(
    x: int,
    y: int,
    w: int,
    h: int,
    src: Seq<char>,
    resize_contain: bool,
    rule: TileRuleView,
) -> TileView {
    TileView {
        x,
        y,
        w,
        h,
        src,
        resize_contain,
        is_selected: false,
        anim_scale: SCALE_IDLE as int,
        offset_x: 0,
        offset_y: 0,
        prev_offset_x: 0,
        prev_offset_y: 0,
        texture: None,
        buffer: None,
        needs_upload: false,
        rule,
    }
}

/// The zoom a tile glides toward.
pub open spec fn scale_target(is_selected: bool) -> int {
    if is_selected {
        SCALE_FOCUS as int
    } else {
        SCALE_IDLE as int
    }
}

/// The height an aspect fit gives the tile in this frame, if it applies one:
/// the tile must still wait for its fit, the natural size of its image must
/// be known and not zero, and the fitted height `w * natural_h / natural_w`
/// must differ from the present height by more than the tolerance.
pub open spec fn fitted_height(t: TileView, natural: Option<(u32, u32)>) -> Option<int> {
    match natural {
        Some((natural_w, natural_h)) => {
            let fitted = trunc_div(t.w * natural_h, natural_w as int);
            if t.resize_contain && natural_w > 0 && natural_h > 0 && magnitude(t.h - fitted)
                > t.rule.aspect_tolerance {
                Some(fitted)
            } else {
                None
            }
        },
        None => None,
    }
}

/// Whether an offset has moved far enough from where the vertices were last
/// computed for.
pub open spec fn has_moved(t: TileView, offset: int, prev_offset: int) -> bool {
    magnitude(offset - prev_offset) > t.rule.offset_tolerance
}

/// Whether a frame has to recompute the vertices.
pub open spec fn is_dirty(
    t: TileView,
    is_selected: bool,
    offset_x: int,
    offset_y: int,
    natural: Option<(u32, u32)>,
) -> bool {
    ||| fitted_height(t, natural).is_some()
    ||| has_moved(t, offset_x, t.prev_offset_x)
    ||| has_moved(t, offset_y, t.prev_offset_y)
    ||| t.anim_scale != scale_target(is_selected)
}

/// The tile one frame later, before its buffer is considered.
pub open spec fn tile_settled(
    t: TileView,
    is_selected: bool,
    offset_x: int,
    offset_y: int,
    natural: Option<(u32, u32)>,
) -> TileView {
    let fitted = fitted_height(t, natural);
    TileView {
        h: if fitted is Some { fitted->0 } else { t.h },
        resize_contain: t.resize_contain && fitted is None,
        is_selected,
        anim_scale: eased(t.rule.scale, t.anim_scale, scale_target(is_selected)),
        offset_x,
        offset_y,
        prev_offset_x: if has_moved(t, offset_x, t.prev_offset_x) { offset_x } else { t.prev_offset_x },
        prev_offset_y: if has_moved(t, offset_y, t.prev_offset_y) { offset_y } else { t.prev_offset_y },
        needs_upload: is_dirty(t, is_selected, offset_x, offset_y, natural),
        ..t
    }
}

/// The tile one frame later: fitted to its image if that is due, moved to the
/// new offsets, its zoom one step on, and its buffer recomputed if and only
/// if any of this made a difference and the buffer exists.
pub open spec fn tile_step(
    t: TileView,
    is_selected: bool,
    offset_x: int,
    offset_y: int,
    natural: Option<(u32, u32)>,
) -> TileView {
    let settled = tile_settled(t, is_selected, offset_x, offset_y, natural);
    TileView {
        buffer: if settled.needs_upload && t.buffer is Some {
            Some(tile_quad(settled))
        } else {
            t.buffer
        },
        ..settled
    }
}

impl PosterItem {
    pub open spec fn wf(&self) -> bool {
        tile_wf(self@)
    }

    /// A tile with the standard rule: at rest, without focus, texture or
    /// buffer.
    pub fn new(x: i64, y: i64, w: i64, h: i64, src: &str, resize_contain: bool) -> (tile: Self)
        ensures
            tile.wf(),
            tile@ == new_tile(
                x as int,
                y as int,
                w as int,
                h as int,
                src@,
                resize_contain,
                standard_tile_rule(),
            ),
    {
        PosterItem::with_rule(x, y, w, h, src, resize_contain, TileRule::standard())
    }

    /// A tile with a rule of its own.
    pub fn with_rule(
        x: i64,
        y: i64,
        w: i64,
        h: i64,
        src: &str,
        resize_contain: bool,
        rule: TileRule,
    ) -> (tile: Self)
        requires
            rule.valid(),
        ensures
            tile.wf(),
            tile@ == new_tile(x as int, y as int, w as int, h as int, src@, resize_contain, rule@),
    {
        PosterItem {
            x,
            y,
            w,
            h: h as i128,
            src: src.to_owned(),
            resize_contain,
            is_selected: false,
            anim_scale: SCALE_IDLE,
            offset_x: 0,
            offset_y: 0,
            prev_offset_x: 0,
            prev_offset_y: 0,
            texture: None,
            buffer: None,
            needs_upload: false,
            rule,
        }
    }

    /// Gives the tile its graphics buffer, filled with its present vertices.
    pub fn init_buffer(&mut self)
        requires
            old(self).wf(),
        ensures
            final(self).wf(),
            final(self)@ == (TileView { buffer: Some(tile_quad(old(self)@)), ..old(self)@ }),
    {
        let vertices = self.create_rect();
        self.buffer = Some(vertices);
    }

    /// Stores the record obtained for the tile's source.
    pub fn set_texture(&mut self, shared: SharedTexture)
        ensures
            final(self)@ == (TileView { texture: Some(shared), ..old(self)@ }),
    {
        self.texture = Some(shared);
    }

    /// Asks the manager for the record of the tile's source and stores it.
    /// The tile does not learn whether the record still shows its
    /// placeholder.
    pub fn request_texture(&mut self, manager: &mut TextureManager)
        requires
            old(manager).wf(),
        ensures
            final(manager).wf(),
            final(manager)@ == requested(old(manager)@, old(self)@.src),
            final(self)@ == (TileView {
                texture: Some(handle_for(old(manager)@, old(self)@.src)),
                ..old(self)@
            }),
    {
        let shared = manager.get_texture(self.src.as_str());
        self.texture = Some(shared);
    }

    /// Advances the tile by one frame, given whether it has the focus, the
    /// scroll offsets of its row, and the manager that knows its image.
    pub fn update(
        &mut self,
        is_selected: bool,
        offset_x: i128,
        offset_y: i128,
        manager: &TextureManager,
    )
        requires
            old(self).wf(),
            magnitude(offset_x as int) <= SPAN_LIMIT,
            magnitude(offset_y as int) <= SPAN_LIMIT,
        ensures
            final(self).wf(),
            final(self)@ == tile_step(
                old(self)@,
                is_selected,
                offset_x as int,
                offset_y as int,
                natural_size(manager@, old(self)@.texture),
            ),
    {
        let ghost before = self@;
        let ghost natural = natural_size(manager@, before.texture);
        let mut needs_upload = false;

        if self.resize_contain {
            if let Some((natural_w, natural_h)) = manager.natural_size(self.texture) {
                if natural_w > 0 && natural_h > 0 {
                    proof {
                        lemma_fit_in_range(self.w as int, natural_w, natural_h);
                    }
                    let fitted = mul_div(self.w as i128, natural_h as i128, natural_w as i128);
                    let change = self.h - fitted;
                    let size = if change < 0 {
                        -change
                    } else {
                        change
                    };
                    if size > self.rule.aspect_tolerance as i128 {
                        self.h = fitted;
                        self.resize_contain = false;
                        needs_upload = true;
                    }
                }
            }
        }
        assert(needs_upload == fitted_height(before, natural).is_some());

        let moved_x = offset_x - self.prev_offset_x;
        let moved_x = if moved_x < 0 {
            -moved_x
        } else {
            moved_x
        };
        if moved_x > self.rule.offset_tolerance as i128 {
            needs_upload = true;
            self.prev_offset_x = offset_x;
        }
        let moved_y = offset_y - self.prev_offset_y;
        let moved_y = if moved_y < 0 {
            -moved_y
        } else {
            moved_y
        };
        if moved_y > self.rule.offset_tolerance as i128 {
            needs_upload = true;
            self.prev_offset_y = offset_y;
        }
        self.offset_x = offset_x;
        self.offset_y = offset_y;

        self.is_selected = is_selected;
        let target = if is_selected {
            SCALE_FOCUS
        } else {
            SCALE_IDLE
        };
        if self.anim_scale != target {
            needs_upload = true;
        }
        proof {
            lemma_eased_between(before.rule.scale, before.anim_scale, target as int);
        }
        self.anim_scale = self.rule.scale.advance(self.anim_scale, target);

        self.needs_upload = needs_upload;
        assert(self@ == tile_settled(before, is_selected, offset_x as int, offset_y as int, natural));
        if needs_upload {
            if self.buffer.is_some() {
                let vertices = self.create_rect();
                self.buffer = Some(vertices);
            }
        }
    }

    /// The six vertices of the tile as it stands: its rectangle grown about
    /// its centre by the zoom, then moved by the scroll offsets.
    pub fn create_rect(&self) -> (vertices: Vec<i128>)
        requires
            self.wf(),
        ensures
            as_ints(vertices@) == tile_quad(self@),
            vertices@.len() == QUAD_VERTICES * VERTEX_SIZE,
    {
        proof {
            lemma_growth_in_range(self.w as int, self.anim_scale as int);
            lemma_growth_in_range(self.h as int, self.anim_scale as int);
        }
        let grown_w = mul_div(self.w as i128, self.anim_scale, ONE);
        let grown_h = mul_div(self.h, self.anim_scale, ONE);
        let left = self.x as i128 + (self.w as i128) / 2 + self.offset_x - grown_w / 2;
        let top = self.y as i128 + self.h / 2 + self.offset_y - grown_h / 2;
        let right = left + grown_w;
        let bottom = top + grown_h;
        let vertices = vec![
            left, top, 0, 0,
            left, bottom, 0, ONE,
            right, top, ONE, 0,
            right, top, ONE, 0,
            left, bottom, 0, ONE,
            right, bottom, ONE, ONE,
        ];
        assert(as_ints(vertices@) =~= tile_quad(self@));
        vertices
    }

    /// Points the tile at another image: the height waits for a new fit, and
    /// the record of the old image is let go (it stays in its manager).
    pub fn change_image(&mut self, new_src: &str)
        ensures
            final(self)@ == (TileView {
                src: new_src@,
                resize_contain: true,
                texture: None,
                ..old(self)@
            }),
    {
        self.src = new_src.to_owned();
        self.resize_contain = true;
        self.texture = None;
    }

    pub fn x(&self) -> (out: i64)
        ensures
            out == self@.x,
    {
        self.x
    }

    pub fn y(&self) -> (out: i64)
        ensures
            out == self@.y,
    {
        self.y
    }

    pub fn w(&self) -> (out: i64)
        ensures
            out == self@.w,
    {
        self.w
    }

    pub fn h(&self) -> (out: i128)
        ensures
            out == self@.h,
    {
        self.h
    }

    pub fn src(&self) -> (out: &str)
        ensures
            out@ == self@.src,
    {
        self.src.as_str()
    }

    pub fn resize_contain(&self) -> (out: bool)
        ensures
            out == self@.resize_contain,
    {
        self.resize_contain
    }

    pub fn is_selected(&self) -> (out: bool)
        ensures
            out == self@.is_selected,
    {
        self.is_selected
    }

    pub fn anim_scale(&self) -> (out: i128)
        ensures
            out == self@.anim_scale,
    {
        self.anim_scale
    }

    pub fn offset_x(&self) -> (out: i128)
        ensures
            out == self@.offset_x,
    {
        self.offset_x
    }

    pub fn offset_y(&self) -> (out: i128)
        ensures
            out == self@.offset_y,
    {
        self.offset_y
    }

    pub fn texture(&self) -> (out: Option<SharedTexture>)
        ensures
            out == self@.texture,
    {
        self.texture
    }

    /// The vertices last handed to the graphics buffer, once it exists.
    pub fn buffer(&self) -> (out: Option<&Vec<i128>>)
        ensures
            out is Some <==> self@.buffer is Some,
            out matches Some(vertices) ==> self@.buffer == Some(as_ints(vertices@)),
    {
        match &self.buffer {
            Some(vertices) => Some(vertices),
            None => None,
        }
    }

    /// Whether the latest frame recomputed the vertices, so that the graphics
    /// buffer has to be filled again.
    pub fn needs_upload(&self) -> (out: bool)
        ensures
            out == self@.needs_upload,
    {
        self.needs_upload
    }

    pub fn rule(&self) -> (out: TileRule)
        ensures
            out@ == self@.rule,
    {
        self.rule
    }
}

/// A width fitted to a natural image size stays within the height limit.
proof fn lemma_fit_in_range(w: int, natural_w: u32, natural_h: u32)
    requires
        i64::MIN <= w <= i64::MAX,
        natural_w > 0,
    ensures
        -HEIGHT_LIMIT <= w * natural_h <= HEIGHT_LIMIT,
        magnitude(trunc_div(w * natural_h, natural_w as int)) <= HEIGHT_LIMIT,
{
    assert(-0x8000_0000_0000_0000 * 0x1_0000_0000 <= w * natural_h <= 0x8000_0000_0000_0000
        * 0x1_0000_0000) by (nonlinear_arith)
        requires
            -0x8000_0000_0000_0000 <= w <= 0x8000_0000_0000_0000,
            0 <= natural_h <= 0x1_0000_0000,
    ;
    lemma_trunc_div_shrinks(w * natural_h, natural_w as int);
}

/// A length within the height limit, grown by a zoom between rest and focus,
/// stays well within the machine's range.
proof fn lemma_growth_in_range(length: int, scale: int)
    requires
        magnitude(length) <= HEIGHT_LIMIT,
        SCALE_IDLE <= scale <= SCALE_FOCUS,
    ensures
        -0x20_0000 * HEIGHT_LIMIT <= length * scale <= 0x20_0000 * HEIGHT_LIMIT,
        magnitude(trunc_div(length * scale, ONE as int)) <= 0x20_0000 * HEIGHT_LIMIT,
{
    assert(-0x20_0000 * 0x8000_0000_0000_0000_0000_0000 <= length * scale <= 0x20_0000
        * 0x8000_0000_0000_0000_0000_0000) by (nonlinear_arith)
        requires
            -0x8000_0000_0000_0000_0000_0000 <= length <= 0x8000_0000_0000_0000_0000_0000,
            0 <= scale <= 0x20_0000,
    ;
    lemma_trunc_div_shrinks(length * scale, ONE as int);
}

/// A frame leaves a well-formed tile well formed.
pub proof fn lemma_step_keeps_wf(
    t: TileView,
    is_selected: bool,
    offset_x: int,
    offset_y: int,
    natural: Option<(u32, u32)>,
)
    requires
        tile_wf(t),
        magnitude(offset_x) <= SPAN_LIMIT,
        magnitude(offset_y) <= SPAN_LIMIT,
    ensures
        tile_wf(tile_step(t, is_selected, offset_x, offset_y, natural)),
{
    lemma_eased_between(t.rule.scale, t.anim_scale, scale_target(is_selected));
    if let Some((natural_w, natural_h)) = natural {
        if natural_w > 0 {
            lemma_fit_in_range(t.w, natural_w, natural_h);
        }
    }
}

/// The aspect fit happens at most once: a tile that no longer waits for its
/// fit keeps its height and goes on not waiting, whatever the frame brings.
pub proof fn lemma_fit_is_final(
    t: TileView,
    is_selected: bool,
    offset_x: int,
    offset_y: int,
    natural: Option<(u32, u32)>,
)
    requires
        !t.resize_contain,
    ensures
        tile_step(t, is_selected, offset_x, offset_y, natural).h == t.h,
        !tile_step(t, is_selected, offset_x, offset_y, natural).resize_contain,
{
}

/// A tile that waits for its fit gets it in the first frame in which the
/// natural size of its image is known, not zero, and asks for a height that
/// differs from the present one by more than the tolerance; until then it
/// goes on waiting with its height unchanged.
pub proof fn lemma_fit_when_known(
    t: TileView,
    is_selected: bool,
    offset_x: int,
    offset_y: int,
    natural: Option<(u32, u32)>,
)
    requires
        t.resize_contain,
    ensures
        ({
            let after = tile_step(t, is_selected, offset_x, offset_y, natural);
            match natural {
                Some((natural_w, natural_h)) => {
                    let fitted = trunc_div(t.w * natural_h, natural_w as int);
                    if natural_w > 0 && natural_h > 0 && magnitude(t.h - fitted)
                        > t.rule.aspect_tolerance {
                        after.h == fitted && !after.resize_contain && after.needs_upload
                    } else {
                        after.h == t.h && after.resize_contain
                    }
                },
                None => after.h == t.h && after.resize_contain,
            }
        }),
{
}

/// The zoom follows the focus: each frame it moves toward 1.2 if the tile
/// has the focus and toward 1.0 if not, never past it, strictly closer while
/// it has not arrived, and it never leaves the range between the two.
pub proof fn lemma_zoom_follows_focus(
    t: TileView,
    is_selected: bool,
    offset_x: int,
    offset_y: int,
    natural: Option<(u32, u32)>,
)
    requires
        tile_wf(t),
    ensures
        ({
            let after = tile_step(t, is_selected, offset_x, offset_y, natural);
            let target = scale_target(is_selected);
            &&& after.anim_scale == eased(t.rule.scale, t.anim_scale, target)
            &&& SCALE_IDLE <= after.anim_scale <= SCALE_FOCUS
            &&& magnitude(target - after.anim_scale) <= magnitude(target - t.anim_scale)
            &&& t.anim_scale != target ==> magnitude(target - after.anim_scale) < magnitude(
                target - t.anim_scale,
            )
            &&& t.anim_scale <= target ==> t.anim_scale <= after.anim_scale <= target
            &&& t.anim_scale >= target ==> t.anim_scale >= after.anim_scale >= target
        }),
{
    lemma_eased_between(t.rule.scale, t.anim_scale, scale_target(is_selected));
    crate::easing::lemma_eased_approaches(t.rule.scale, t.anim_scale, scale_target(is_selected));
}

/// A frame recomputes the vertices only if the height was fitted, an offset
/// moved beyond the tolerance, or the zoom was not on its target; otherwise
/// the buffer is left exactly as it was.
pub proof fn lemma_quiet_frame_keeps_buffer(
    t: TileView,
    is_selected: bool,
    offset_x: int,
    offset_y: int,
    natural: Option<(u32, u32)>,
)
    requires
        fitted_height(t, natural) is None,
        magnitude(offset_x - t.prev_offset_x) <= t.rule.offset_tolerance,
        magnitude(offset_y - t.prev_offset_y) <= t.rule.offset_tolerance,
        t.anim_scale == scale_target(is_selected),
    ensures
        tile_step(t, is_selected, offset_x, offset_y, natural).buffer == t.buffer,
        !tile_step(t, is_selected, offset_x, offset_y, natural).needs_upload,
{
}

/// At rest and unscrolled, the vertices span exactly the tile's rectangle.
pub proof fn lemma_quad_at_rest(x: int, y: int, w: int, h: int)
    ensures
        quad(x, y, w, h, SCALE_IDLE as int, 0, 0)[0] == x,
        quad(x, y, w, h, SCALE_IDLE as int, 0, 0)[1] == y,
        quad(x, y, w, h, SCALE_IDLE as int, 0, 0)[20] == x + w,
        quad(x, y, w, h, SCALE_IDLE as int, 0, 0)[21] == y + h,
{
    lemma_unit_scale(w);
    lemma_unit_scale(h);
}

proof fn lemma_unit_scale(v: int)
    ensures
        trunc_div(v * SCALE_IDLE, ONE as int) == v,
{
    if v >= 0 {
        assert((v * 1_000_000) / 1_000_000 == v) by (nonlinear_arith);
    } else {
        let m = -v;
        assert(v * 1_000_000 == -(m * 1_000_000)) by (nonlinear_arith)
            requires
                m == -v,
        ;
        assert((m * 1_000_000) / 1_000_000 == m) by (nonlinear_arith);
    }
}

} // verus!
