//! The glyph atlas cache: one canvas, one shelf packer of the same
//! size, and a mapping from character to the rectangle its bitmap was
//! blitted into. Insertion is the only mutator; re-inserting a present
//! key is a no-op that returns the recorded rectangle (the idempotent
//! policy), and a failed insertion leaves the whole cache untouched.

use vstd::prelude::*;

use crate::canvas::{Bitmap, Canvas};
use crate::packer::{
    can_allocate, fresh_model, next_model, placement_of, valid_size, ShelfPacker,
};
use crate::rect::{rect_contains, rect_in_canvas, rects_disjoint, Rect};
use crate::AtlasError;

verus! {

/// A glyph atlas cache over one fixed-size canvas.
pub struct FontAtlas {
    /// Hands out the non-overlapping regions of the canvas.
    pub packer: ShelfPacker,
    /// The shared pixel surface the glyph bitmaps are blitted into.
    pub canvas: Canvas,
    /// The key of entry `i` of the mapping.
    pub glyph_keys: Vec<char>,
    /// The rectangle recorded for the key at the same position.
    pub glyph_rects: Vec<Rect>,
}

impl FontAtlas {
    /// Well-formedness: packer and canvas share one size, the mapping
    /// is a parallel pair of columns with unique keys, the recorded
    /// rectangles are exactly the packer's allocations in order, and
    /// the entry count leaves room for `u32` indices.
    pub open spec fn wf(self) -> bool {
        &&& self.packer.wf()
        &&& self.canvas.wf()
        &&& self.packer.width == self.canvas.width
        &&& self.packer.height == self.canvas.height
        &&& self.glyph_keys@.len() == self.glyph_rects@.len()
        &&& self.glyph_keys@.len() <= 0xFFFF_FFFF
        &&& self.packer.allocated@ == self.glyph_rects@
        &&& forall|i: int, j: int|
            0 <= i < j < self.glyph_keys@.len() ==> #[trigger] self.glyph_keys@[i]
                != #[trigger] self.glyph_keys@[j]
    }

    /// Some entry records `c`.
    pub open spec fn has_key(self, c: char) -> bool {
        exists|i: int| 0 <= i < self.glyph_keys@.len() && self.glyph_keys@[i] == c
    }

    /// The position of the entry recording `c` (unique when `wf`).
    pub open spec fn key_slot(self, c: char) -> int {
        choose|i: int| 0 <= i < self.glyph_keys@.len() && self.glyph_keys@[i] == c
    }

    /// The rectangle recorded for `c`: `None` is a miss.
    pub open spec fn spec_lookup(self, c: char) -> Option<Rect> {
        if self.has_key(c) {
            Some(self.glyph_rects@[self.key_slot(c)])
        } else {
            None
        }
    }

    /// The bitmap has positive size and does not exceed the canvas.
    pub open spec fn insert_valid_size(self, bitmap: Bitmap) -> bool {
        valid_size(self.packer@, bitmap.width as int, bitmap.height as int)
    }

    /// The packer still has room for the bitmap.
    pub open spec fn insert_fits(self, bitmap: Bitmap) -> bool {
        can_allocate(self.packer@, bitmap.width as int, bitmap.height as int)
    }

    /// Entry positions still fit in the `u32` indices `get_char_index`
    /// hands out.
    pub open spec fn index_space_left(self) -> bool {
        self.glyph_keys@.len() < 0xFFFF_FFFF
    }

    /// Entry `i` records key `c`, so `c` is present, `i` is its unique
    /// slot, and a lookup returns the rectangle beside it.
    proof fn lemma_key_slot(self, c: char, i: int)
        requires
            self.wf(),
            0 <= i < self.glyph_keys@.len(),
            self.glyph_keys@[i] == c,
        ensures
            self.has_key(c),
            self.key_slot(c) == i,
            self.spec_lookup(c) == Some(self.glyph_rects@[i]),
    {
        assert(self.has_key(c));
        let j = self.key_slot(c);
        assert(0 <= j < self.glyph_keys@.len() && self.glyph_keys@[j] == c);
        if i < j {
            assert(self.glyph_keys@[i] != self.glyph_keys@[j]);
        } else if j < i {
            assert(self.glyph_keys@[j] != self.glyph_keys@[i]);
        }
    }

    /// An empty cache over a zero-filled `width` by `height` canvas.
    /// The size limit is the machine's: the canvas must be addressable.
    pub fn new(width: u32, height: u32) -> (atlas: FontAtlas)
        requires
            width * height <= usize::MAX,
        ensures
            atlas.wf(),
            atlas.canvas.width == width,
            atlas.canvas.height == height,
            atlas.packer@ == fresh_model(width as int, height as int),
            atlas.glyph_keys@ == Seq::<char>::empty(),
            atlas.glyph_rects@ == Seq::<Rect>::empty(),
            forall|c: char| !atlas.has_key(c),
            forall|i: int| 0 <= i < atlas.canvas.pixels@.len() ==> atlas.canvas.pixels@[i] == 0,
    {
        FontAtlas {
            packer: ShelfPacker::new(width, height),
            canvas: Canvas::new(width, height),
            glyph_keys: Vec::new(),
            glyph_rects: Vec::new(),
        }
    }

    /// The position of `character`'s entry, or `None` on a miss.
    pub fn get_char_index(&self, character: char) -> (result: Option<u32>)
        requires
            self.wf(),
        ensures
            match result {
                Some(i) => i < self.glyph_keys@.len() && self.glyph_keys@[i as int] == character,
                None => !self.has_key(character),
            },
    {
        let mut i: usize = 0;
        while i < self.glyph_keys.len()
            invariant
                self.wf(),
                i <= self.glyph_keys@.len(),
                forall|j: int| 0 <= j < i ==> self.glyph_keys@[j] != character,
            decreases self.glyph_keys@.len() - i,
        {
            if self.glyph_keys[i] == character {
                return Some(i as u32);
            }
            i = i + 1;
        }
        None
    }

    /// The rectangle recorded at entry position `index`, or `None`
    /// when no entry sits there.
    pub fn glyph_rect(&self, index: u32) -> (result: Option<Rect>)
        requires
            self.wf(),
        ensures
            match result {
                Some(r) => index < self.glyph_rects@.len() && r == self.glyph_rects@[index as int],
                None => index >= self.glyph_rects@.len(),
            },
    {
        if (index as usize) < self.glyph_rects.len() {
            Some(self.glyph_rects[index as usize])
        } else {
            None
        }
    }

    /// The rectangle recorded for `character`: a pure read, `None` is
    /// a miss.
    pub fn lookup(&self, character: char) -> (result: Option<Rect>)
        requires
            self.wf(),
        ensures
            result == self.spec_lookup(character),
    {
        match self.get_char_index(character) {
            Some(i) => {
                proof {
                    self.lemma_key_slot(character, i as int);
                }
                Some(self.glyph_rects[i as usize])
            },
            None => None,
        }
    }

    /// Insert `character`'s bitmap: allocate a rectangle of its size,
    /// blit the bitmap there, record the mapping, and return the
    /// rectangle.
    ///
    /// When `character` is already present the call is a no-op that
    /// returns the recorded rectangle, whatever bitmap is handed in.
    /// On a miss, `InvalidSize` is returned exactly when the bitmap is
    /// empty or larger than the canvas, and `OutOfSpace` exactly when
    /// the packer has no room left for it (or entry positions would
    /// outgrow `u32`); a failed call leaves the cache untouched.
    pub fn add_char(&mut self, character: char, bitmap: &Bitmap) -> (result: Result<
        Rect,
        AtlasError,
    >)
        requires
            old(self).wf(),
            bitmap.wf(),
        ensures
            final(self).wf(),
            final(self).canvas.width == old(self).canvas.width,
            final(self).canvas.height == old(self).canvas.height,
            old(self).has_key(character) ==> ({
                &&& *final(self) == *old(self)
                &&& result matches Ok(r) && old(self).spec_lookup(character) == Some(r)
            }),
            !old(self).has_key(character) ==> ({
                &&& (result is Ok <==> old(self).insert_fits(*bitmap) && old(
                    self,
                ).index_space_left())
                &&& (result == Err::<Rect, AtlasError>(AtlasError::InvalidSize) <==> !old(self).insert_valid_size(
                    *bitmap,
                ))
                &&& (result == Err::<Rect, AtlasError>(AtlasError::OutOfSpace) <==> old(self).insert_valid_size(*bitmap)
                    && !(old(self).insert_fits(*bitmap) && old(self).index_space_left()))
            }),
            result is Err ==> *final(self) == *old(self),
            result matches Ok(r) ==> !old(self).has_key(character) ==> ({
                &&& r.width == bitmap.width
                &&& r.height == bitmap.height
                &&& (r.x as int, r.y as int) == placement_of(
                    old(self).packer@,
                    bitmap.width as int,
                    bitmap.height as int,
                )
                &&& rect_in_canvas(
                    r,
                    old(self).canvas.width as int,
                    old(self).canvas.height as int,
                )
                &&& final(self).packer@ == next_model(
                    old(self).packer@,
                    bitmap.width as int,
                    bitmap.height as int,
                )
                &&& final(self).glyph_keys@ == old(self).glyph_keys@.push(character)
                &&& final(self).glyph_rects@ == old(self).glyph_rects@.push(r)
                &&& final(self).spec_lookup(character) == Some(r)
                &&& forall|dx: int, dy: int|
                    0 <= dx < r.width && 0 <= dy < r.height
                        ==> #[trigger] final(self).canvas.spec_byte(r.x + dx, r.y + dy)
                            == bitmap.spec_byte(dx, dy)
                &&& forall|cx: int, cy: int|
                    0 <= cx < old(self).canvas.width && 0 <= cy < old(self).canvas.height
                        && !rect_contains(r, cx, cy)
                        ==> #[trigger] final(self).canvas.spec_byte(cx, cy)
                            == old(self).canvas.spec_byte(cx, cy)
            }),
            forall|c2: char|
                c2 != character
                    ==> #[trigger] final(self).spec_lookup(c2) == old(self).spec_lookup(c2),
    {
        let ghost pre = *self;
        match self.get_char_index(character) {
            Some(i) => {
                proof {
                    self.lemma_key_slot(character, i as int);
                }
                return Ok(self.glyph_rects[i as usize]);
            },
            None => {},
        }
        if bitmap.width == 0 || bitmap.height == 0 || bitmap.width > self.canvas.width
            || bitmap.height > self.canvas.height {
            return Err(AtlasError::InvalidSize);
        }
        if self.glyph_keys.len() >= (u32::MAX as usize) {
            return Err(AtlasError::OutOfSpace);
        }
        match self.packer.allocate(bitmap.width, bitmap.height) {
            Ok(r) => {
                self.canvas.blit(r, bitmap);
                self.glyph_keys.push(character);
                self.glyph_rects.push(r);
                proof {
                    let n = pre.glyph_keys@.len() as int;
                    assert forall|i: int, j: int|
                        0 <= i < j < self.glyph_keys@.len() implies #[trigger] self.glyph_keys@[i]
                        != #[trigger] self.glyph_keys@[j] by {
                        if j == n {
                            assert(!pre.has_key(character));
                            assert(self.glyph_keys@[i] == pre.glyph_keys@[i]);
                        }
                    }
                    self.lemma_key_slot(character, n);
                    assert forall|c2: char| c2 != character implies #[trigger] self.spec_lookup(c2)
                        == pre.spec_lookup(c2) by {
                        if pre.has_key(c2) {
                            let s = pre.key_slot(c2);
                            pre.lemma_key_slot(c2, s);
                            self.lemma_key_slot(c2, s);
                        } else {
                            if self.has_key(c2) {
                                let s = self.key_slot(c2);
                                assert(self.glyph_keys@[s] == c2);
                                assert(s != n);
                                assert(pre.glyph_keys@[s] == c2);
                            }
                        }
                    }
                }
                Ok(r)
            },
            Err(e) => Err(e),
        }
    }
}

/// Miss-before-insert law: a key no entry records is answered `None`.
/// Together with `new` (no entries) and `add_char` (the only call that
/// adds an entry, for its own key alone), a key never inserted is
/// never answered with a rectangle.
pub proof fn lemma_lookup_miss(atlas: FontAtlas, c: char)
    requires
        atlas.wf(),
        !atlas.has_key(c),
    ensures
        atlas.spec_lookup(c) is None,
{
}

/// Distinct entries of one cache record disjoint canvas regions: the
/// recorded rectangles are the packer's allocations, which never
/// overlap.
pub proof fn lemma_glyph_regions_disjoint(atlas: FontAtlas, i: int, j: int)
    requires
        atlas.wf(),
        0 <= i < atlas.glyph_rects@.len(),
        0 <= j < atlas.glyph_rects@.len(),
        i != j,
    ensures
        rects_disjoint(atlas.glyph_rects@[i], atlas.glyph_rects@[j]),
{
    crate::packer::lemma_allocations_disjoint(atlas.packer, i, j);
}

} // verus!
