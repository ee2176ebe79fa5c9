//! A plain image rectangle: placed once, fitted once to the aspect of its
//! image, and neither animated nor scrolled.

use vstd::prelude::*;
use crate::fixed::{magnitude, trunc_div, mul_div, lemma_trunc_div_shrinks, ONE};
use crate::posteritem::{as_ints, HEIGHT_LIMIT, QUAD_VERTICES, VERTEX_SIZE};

verus! {

pub struct Item {
    x: i64,
    y: i64,
    w: i64,
    h: i128,
    src: String,
    resize_contain: bool,
}

/// An item as the contracts see it.
pub struct ItemView {
    pub x: int,
    pub y: int,
    pub w: int,
    pub h: int,
    /// Source of the image.
    pub src: Seq<char>,
    /// Whether the height still waits to be fitted to the image's aspect.
    pub resize_contain: bool,
}

impl View for Item {
    type V = ItemView;

    closed spec fn view(&self) -> ItemView {
        ItemView {
            x: self.x as int,
            y: self.y as int,
            w: self.w as int,
            h: self.h as int,
            src: self.src@,
            resize_contain: self.resize_contain,
        }
    }
}

/// What always holds of an item: its numbers are within the ranges the
/// arithmetic is good for.
pub open spec fn item_wf(t: ItemView) -> bool {
    &&& i64::MIN <= t.x <= i64::MAX
    &&& i64::MIN <= t.y <= i64::MAX
    &&& i64::MIN <= t.w <= i64::MAX
    &&& magnitude(t.h) <= HEIGHT_LIMIT
}

/// Whether this frame fits the item to its image: the item still waits for
/// its fit, and the natural size of the image is known and not zero.
pub open spec fn item_fits(t: ItemView, natural: Option<(u32, u32)>) -> bool {
    match natural {
        Some((natural_w, natural_h)) => t.resize_contain && natural_w > 0 && natural_h > 0,
        None => false,
    }
}

/// The item one frame later: if the fit is due, its height becomes
/// `w * natural_h / natural_w` and it stops waiting.
pub open spec fn item_step(t: ItemView, natural: Option<(u32, u32)>) -> ItemView {
    if item_fits(t, natural) {
        ItemView {
            h: trunc_div(t.w * (natural->0).1, (natural->0).0 as int),
            resize_contain: false,
            ..t
        }
    } else {
        t
    }
}

/// The six vertices of an item's rectangle. Each vertex is a position
/// followed by a texture coordinate; the two triangles share the diagonal
/// from bottom left to top right.
pub open spec fn item_quad(t: ItemView) -> Seq<int> {
    let right = t.x + t.w;
    let bottom = t.y + t.h;
    seq![
        t.x, t.y, 0, 0,
        t.x, bottom, 0, ONE as int,
        right, t.y, ONE as int, 0,
        right, t.y, ONE as int, 0,
        t.x, bottom, 0, ONE as int,
        right, bottom, ONE as int, ONE as int,
    ]
}

impl Item {
    pub open spec fn wf(&self) -> bool {
        item_wf(self@)
    }

    pub fn new(x: i64, y: i64, w: i64, h: i64, src: &str, resize_contain: bool) -> (item: Self)
        ensures
            item.wf(),
            item@ == (ItemView {
                x: x as int,
                y: y as int,
                w: w as int,
                h: h as int,
                src: src@,
                resize_contain,
            }),
    {
        Item { x, y, w, h: h as i128, src: src.to_owned(), resize_contain }
    }

    /// Advances the item by one frame, given the natural size of its image
    /// if that is known by now.
    pub fn update(&mut self, natural: Option<(u32, u32)>)
        requires
            old(self).wf(),
        ensures
            final(self).wf(),
            final(self)@ == item_step(old(self)@, natural),
    {
        if self.resize_contain {
            if let Some((natural_w, natural_h)) = natural {
                if natural_w > 0 && natural_h > 0 {
                    proof {
                        assert(-0x8000_0000_0000_0000 * 0x1_0000_0000 <= self.w * natural_h
                            <= 0x8000_0000_0000_0000 * 0x1_0000_0000) by (nonlinear_arith)
                            requires
                                -0x8000_0000_0000_0000 <= self.w <= 0x8000_0000_0000_0000,
                                0 <= natural_h <= 0x1_0000_0000,
                        ;
                        lemma_trunc_div_shrinks(self.w * natural_h, natural_w as int);
                    }
                    self.h = mul_div(self.w as i128, natural_h as i128, natural_w as i128);
                    self.resize_contain = false;
                }
            }
        }
    }

    /// The six vertices of the item's rectangle.
    pub fn create_rect(&self) -> (vertices: Vec<i128>)
        requires
            self.wf(),
        ensures
            as_ints(vertices@) == item_quad(self@),
            vertices@.len() == QUAD_VERTICES * VERTEX_SIZE,
    {
        let left = self.x as i128;
        let top = self.y as i128;
        let right = left + self.w as i128;
        let bottom = top + self.h;
        let vertices = vec![
            left, top, 0, 0,
            left, bottom, 0, ONE,
            right, top, ONE, 0,
            right, top, ONE, 0,
            left, bottom, 0, ONE,
            right, bottom, ONE, ONE,
        ];
        assert(as_ints(vertices@) =~= item_quad(self@));
        vertices
    }

    pub fn x(&self) -> (out: i64)
        ensures
            out == self@.x,
    {
        self.x
    }

    pub fn y(&self) -> (out: i64)
        ensures
            out == self@.y,
    {
        self.y
    }

    pub fn w(&self) -> (out: i64)
        ensures
            out == self@.w,
    {
        self.w
    }

    pub fn h(&self) -> (out: i128)
        ensures
            out == self@.h,
    {
        self.h
    }

    pub fn src(&self) -> (out: &str)
        ensures
            out@ == self@.src,
    {
        self.src.as_str()
    }

    pub fn resize_contain(&self) -> (out: bool)
        ensures
            out == self@.resize_contain,
    {
        self.resize_contain
    }
}

/// The fit happens at most once: an item that no longer waits is left as it
/// is by every later frame.
pub proof fn lemma_fit_is_final(t: ItemView, natural: Option<(u32, u32)>)
    requires
        !t.resize_contain,
    ensures
        item_step(t, natural) == t,
{
}

} // verus!
