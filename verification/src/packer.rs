//! Online shelf packer: allocates non-overlapping sub-rectangles of a
//! fixed-size canvas, left to right along a shelf, opening a new shelf
//! below when the current one is full, and failing once nothing fits.
//! Nothing is ever moved or freed.

use vstd::prelude::*;

use crate::rect::{rect_in_canvas, rects_disjoint, Rect};
use crate::AtlasError;

verus! {

/// The packer's bookkeeping as plain mathematical integers; the shelf
/// strategy is a pure function of this state, which is what makes the
/// packer deterministic.
pub ghost struct PackerModel {
    pub width: int,
    pub height: int,
    /// Next free x position on the current shelf.
    pub cursor_x: int,
    /// Top y coordinate of the current shelf.
    pub shelf_y: int,
    /// Tallest allocation on the current shelf so far.
    pub shelf_height: int,
}

/// The model of a packer that has allocated nothing yet.
pub open spec fn fresh_model(width: int, height: int) -> PackerModel {
    PackerModel { width, height, cursor_x: 0, shelf_y: 0, shelf_height: 0 }
}

/// The request has positive size and does not exceed the canvas.
pub open spec fn valid_size(m: PackerModel, w: int, h: int) -> bool {
    &&& 1 <= w <= m.width
    &&& 1 <= h <= m.height
}

/// The request fits at the cursor of the current shelf.
pub open spec fn fits_on_shelf(m: PackerModel, w: int, h: int) -> bool {
    &&& m.cursor_x + w <= m.width
    &&& m.shelf_y + h <= m.height
}

/// The request fits at the left edge of a fresh shelf opened below the
/// current one.
pub open spec fn fits_on_new_shelf(m: PackerModel, w: int, h: int) -> bool {
    &&& w <= m.width
    &&& m.shelf_y + m.shelf_height + h <= m.height
}

/// A valid-size request that some shelf still has room for.
pub open spec fn can_allocate(m: PackerModel, w: int, h: int) -> bool {
    &&& valid_size(m, w, h)
    &&& (fits_on_shelf(m, w, h) || fits_on_new_shelf(m, w, h))
}

/// Where a `w` by `h` request is placed, assuming `can_allocate`:
/// at the cursor of the current shelf when it fits there, else at the
/// left edge of a new shelf.
pub open spec fn placement_of(m: PackerModel, w: int, h: int) -> (int, int) {
    if fits_on_shelf(m, w, h) {
        (m.cursor_x, m.shelf_y)
    } else {
        (0, m.shelf_y + m.shelf_height)
    }
}

/// The bookkeeping after one `allocate(w, h)` call: unchanged when the
/// request is refused, else advanced past the placement.
pub open spec fn next_model(m: PackerModel, w: int, h: int) -> PackerModel {
    if !can_allocate(m, w, h) {
        m
    } else if fits_on_shelf(m, w, h) {
        PackerModel {
            cursor_x: m.cursor_x + w,
            shelf_height: if h > m.shelf_height { h } else { m.shelf_height },
            ..m
        }
    } else {
        PackerModel {
            cursor_x: w,
            shelf_y: m.shelf_y + m.shelf_height,
            shelf_height: h,
            ..m
        }
    }
}

/// The placements a fresh run of requests receives, replayed purely on
/// the model: one entry per request, `Some((x, y))` where the request
/// is placed and `None` where it is refused.
pub open spec fn replay(m: PackerModel, requests: Seq<(int, int)>) -> Seq<Option<(int, int)>>
    decreases requests.len(),
{
    if requests.len() == 0 {
        Seq::empty()
    } else {
        let w = requests[0].0;
        let h = requests[0].1;
        let first: Option<(int, int)> = if can_allocate(m, w, h) {
            Some(placement_of(m, w, h))
        } else {
            None
        };
        seq![first] + replay(next_model(m, w, h), requests.drop_first())
    }
}

/// Online shelf packer over a `width` by `height` canvas.
pub struct ShelfPacker {
    pub width: u32,
    pub height: u32,
    /// Next free x position on the current shelf.
    pub cursor_x: u32,
    /// Top y coordinate of the current shelf.
    pub shelf_y: u32,
    /// Tallest allocation on the current shelf so far.
    pub shelf_height: u32,
    /// Every rectangle this packer has handed out, in call order.
    pub allocated: Ghost<Seq<Rect>>,
}

impl View for ShelfPacker {
    type V = PackerModel;

    open spec fn view(&self) -> PackerModel {
        PackerModel {
            width: self.width as int,
            height: self.height as int,
            cursor_x: self.cursor_x as int,
            shelf_y: self.shelf_y as int,
            shelf_height: self.shelf_height as int,
        }
    }
}

impl ShelfPacker {
    /// The rectangle lies in the canvas and is either on an earlier,
    /// closed shelf (strictly above the current one) or on the current
    /// shelf, left of the cursor and no taller than the shelf.
    pub open spec fn shelf_ok(self, r: Rect) -> bool {
        &&& rect_in_canvas(r, self.width as int, self.height as int)
        &&& {
            ||| r.y + r.height <= self.shelf_y
            ||| (r.y == self.shelf_y && r.x + r.width <= self.cursor_x
                && r.height <= self.shelf_height)
        }
    }

    /// Well-formedness: the cursor and shelf stay inside the canvas,
    /// every allocation respects the shelf discipline, and allocations
    /// are pairwise disjoint.
    pub open spec fn wf(self) -> bool {
        &&& self.cursor_x <= self.width
        &&& self.shelf_y + self.shelf_height <= self.height
        &&& forall|i: int|
            0 <= i < self.allocated@.len() ==> self.shelf_ok(#[trigger] self.allocated@[i])
        &&& forall|i: int, j: int|
            0 <= i < j < self.allocated@.len() ==> rects_disjoint(
                #[trigger] self.allocated@[i],
                #[trigger] self.allocated@[j],
            )
    }

    /// A fresh packer over a `width` by `height` canvas.
    pub fn new(width: u32, height: u32) -> (packer: ShelfPacker)
        ensures
            packer.wf(),
            packer@ == fresh_model(width as int, height as int),
            packer.allocated@ == Seq::<Rect>::empty(),
    {
        ShelfPacker {
            width,
            height,
            cursor_x: 0,
            shelf_y: 0,
            shelf_height: 0,
            allocated: Ghost(Seq::empty()),
        }
    }

    /// Allocate a `width` by `height` rectangle.
    ///
    /// The outcome and the successor state are a pure function of the
    /// current bookkeeping (`placement_of` / `next_model`), so replaying
    /// an identical request sequence on a fresh packer of the same size
    /// yields identical rectangles. A returned rectangle lies inside
    /// the canvas and overlaps no earlier one; a refused request leaves
    /// the packer exactly as it was.
    pub fn allocate(&mut self, width: u32, height: u32) -> (result: Result<Rect, AtlasError>)
        requires
            old(self).wf(),
        ensures
            final(self).wf(),
            final(self)@ == next_model(old(self)@, width as int, height as int),
            final(self).width == old(self).width,
            final(self).height == old(self).height,
            match result {
                Ok(r) => {
                    &&& can_allocate(old(self)@, width as int, height as int)
                    &&& r.width == width
                    &&& r.height == height
                    &&& (r.x as int, r.y as int) == placement_of(
                        old(self)@,
                        width as int,
                        height as int,
                    )
                    &&& rect_in_canvas(r, old(self).width as int, old(self).height as int)
                    &&& final(self).allocated@ == old(self).allocated@.push(r)
                    &&& forall|i: int|
                        0 <= i < old(self).allocated@.len() ==> rects_disjoint(
                            r,
                            #[trigger] old(self).allocated@[i],
                        )
                },
                Err(AtlasError::InvalidSize) => {
                    &&& !valid_size(old(self)@, width as int, height as int)
                    &&& *final(self) == *old(self)
                },
                Err(AtlasError::OutOfSpace) => {
                    &&& valid_size(old(self)@, width as int, height as int)
                    &&& !can_allocate(old(self)@, width as int, height as int)
                    &&& *final(self) == *old(self)
                },
            },
    {
        if width == 0 || height == 0 || width > self.width || height > self.height {
            return Err(AtlasError::InvalidSize);
        }
        if width <= self.width - self.cursor_x && height <= self.height - self.shelf_y {
            let r = Rect { x: self.cursor_x, y: self.shelf_y, width, height };
            self.cursor_x = self.cursor_x + width;
            if height > self.shelf_height {
                self.shelf_height = height;
            }
            self.allocated = Ghost(self.allocated@.push(r));
            return Ok(r);
        }
        let new_y = self.shelf_y + self.shelf_height;
        if height <= self.height - new_y {
            let r = Rect { x: 0, y: new_y, width, height };
            self.shelf_y = new_y;
            self.shelf_height = height;
            self.cursor_x = width;
            self.allocated = Ghost(self.allocated@.push(r));
            return Ok(r);
        }
        Err(AtlasError::OutOfSpace)
    }
}

/// No-overlap law: any two distinct rectangles handed out by one
/// well-formed packer are disjoint.
pub proof fn lemma_allocations_disjoint(p: ShelfPacker, i: int, j: int)
    requires
        p.wf(),
        0 <= i < p.allocated@.len(),
        0 <= j < p.allocated@.len(),
        i != j,
    ensures
        rects_disjoint(p.allocated@[i], p.allocated@[j]),
{
}

/// Bounds law: every rectangle handed out by a well-formed packer lies
/// fully inside its canvas.
pub proof fn lemma_allocations_in_canvas(p: ShelfPacker, i: int)
    requires
        p.wf(),
        0 <= i < p.allocated@.len(),
    ensures
        rect_in_canvas(p.allocated@[i], p.width as int, p.height as int),
{
}

/// Determinism law: replaying one request sequence on equal models —
/// in particular on two fresh packers of the same canvas size — yields
/// equal placement sequences.
pub proof fn lemma_replay_deterministic(m1: PackerModel, m2: PackerModel, requests: Seq<(int, int)>)
    requires
        m1 == m2,
    ensures
        replay(m1, requests) == replay(m2, requests),
{
}

} // verus!
