//! The font as the renderer sees it: cell metrics and one coverage mask per
//! symbol, rasterised once at the configured scale.

use vstd::prelude::*;
use crate::glyph::{GlyphMask, MaskShape};

verus! {

/// The mathematical model of a font asset.
pub struct FontShape {
    /// Distance from the top of a cell down to the baseline.
    pub ascent: int,
    /// Horizontal distance between the origins of neighbouring cells.
    pub cell_width: nat,
    /// Vertical distance between the baselines of neighbouring rows.
    pub cell_height: nat,
    /// The glyphs in the order they were added.
    pub glyphs: Seq<(char, MaskShape)>,
}

impl FontShape {
    /// Whether entry `i` is the first one for symbol `c`.
    pub open spec fn is_first(self, c: char, i: int) -> bool {
        &&& 0 <= i < self.glyphs.len()
        &&& self.glyphs[i].0 == c
        &&& forall|j: int| 0 <= j < i ==> self.glyphs[j].0 != c
    }

    /// The mask of the first glyph added for `c`; `None` where the font has
    /// no glyph for it.
    pub open spec fn glyph_for(self, c: char) -> Option<MaskShape> {
        if exists|i: int| self.is_first(c, i) {
            Some(self.glyphs[choose|i: int| self.is_first(c, i)].1)
        } else {
            None
        }
    }

    pub open spec fn wf(self) -> bool {
        forall|i: int| 0 <= i < self.glyphs.len() ==> (#[trigger] self.glyphs[i]).1.wf()
    }

    /// A font without glyphs for the given vertical metrics and scale: a
    /// cell is as wide as the scale and as high as a line, from ascent to
    /// descent.
    pub open spec fn blank(ascent: int, descent: int, scale: nat) -> FontShape {
        FontShape {
            ascent,
            cell_width: scale,
            cell_height: if ascent > descent {
                (ascent - descent) as nat
            } else {
                0
            },
            glyphs: Seq::empty(),
        }
    }
}

/// Only one entry can be the first for a symbol.
pub proof fn lemma_first_unique(font: FontShape, c: char, i: int, j: int)
    requires
        font.is_first(c, i),
        font.is_first(c, j),
    ensures
        i == j,
{
    if i < j {
        assert(font.glyphs[i].0 != c);
    } else if j < i {
        assert(font.glyphs[j].0 != c);
    }
}

/// A loaded font: immutable once the loop starts.
pub struct FontAsset {
    ascent: i32,
    cell_width: u32,
    cell_height: u32,
    symbols: Vec<char>,
    masks: Vec<GlyphMask>,
}

impl View for FontAsset {
    type V = FontShape;

    closed spec fn view(&self) -> FontShape {
        FontShape {
            ascent: self.ascent as int,
            cell_width: self.cell_width as nat,
            cell_height: self.cell_height as nat,
            glyphs: Seq::new(
                self.symbols@.len(),
                |i: int| (self.symbols@[i], self.masks@[i]@),
            ),
        }
    }
}

impl FontAsset {
    pub closed spec fn wf(&self) -> bool {
        &&& self.symbols@.len() == self.masks@.len()
        &&& self@.wf()
    }

    /// A font without glyphs, its cells laid out from the vertical metrics
    /// at the given scale, all in whole pixels: `ascent` is the distance
    /// from the baseline up to the top of a line, `descent` the distance
    /// from the baseline to the bottom of a line, negative below the
    /// baseline.
    pub fn new(ascent: i32, descent: i32, scale: u32) -> (font: FontAsset)
        ensures
            font.wf(),
            font@ == FontShape::blank(ascent as int, descent as int, scale as nat),
    {
        let cell_height: u32 = if ascent > descent {
            (ascent as i64 - descent as i64) as u32
        } else {
            0
        };
        let font = FontAsset {
            ascent,
            cell_width: scale,
            cell_height,
            symbols: Vec::new(),
            masks: Vec::new(),
        };
        assert(font@.glyphs =~= Seq::empty());
        font
    }

    /// Adds the mask for a symbol. Where the symbol already has one, the
    /// earlier mask stays the one that is drawn.
    pub fn add_glyph(&mut self, symbol: char, mask: GlyphMask)
        requires
            old(self).wf(),
            mask.wf(),
        ensures
            final(self).wf(),
            final(self)@ == (FontShape {
                glyphs: old(self)@.glyphs.push((symbol, mask@)),
                ..old(self)@
            }),
    {
        let ghost before = self@;
        self.symbols.push(symbol);
        self.masks.push(mask);
        assert(self@.glyphs =~= before.glyphs.push((symbol, mask@)));
    }

    pub fn ascent(&self) -> (v: i32)
        ensures
            v == self@.ascent,
    {
        self.ascent
    }

    pub fn cell_width(&self) -> (v: u32)
        ensures
            v == self@.cell_width,
    {
        self.cell_width
    }

    pub fn cell_height(&self) -> (v: u32)
        ensures
            v == self@.cell_height,
    {
        self.cell_height
    }

    /// Number of glyphs added.
    pub fn glyph_count(&self) -> (n: usize)
        ensures
            n == self@.glyphs.len(),
    {
        self.symbols.len()
    }

    /// The mask drawn for `c`, or `None` where the font has no glyph for it.
    pub fn glyph(&self, c: char) -> (out: Option<&GlyphMask>)
        requires
            self.wf(),
        ensures
            out is Some <==> self@.glyph_for(c) is Some,
            out matches Some(mask) ==> mask.wf() && Some(mask@) == self@.glyph_for(c),
    {
        let n = self.symbols.len();
        let mut i: usize = 0;
        while i < n
            invariant
                i <= n,
                n == self.symbols@.len(),
                self.wf(),
                forall|j: int| 0 <= j < i ==> self@.glyphs[j].0 != c,
            decreases n - i,
        {
            if self.symbols[i] == c {
                proof {
                    assert(self@.is_first(c, i as int));
                    let chosen = choose|k: int| self@.is_first(c, k);
                    lemma_first_unique(self@, c, i as int, chosen);
                    assert(self@.glyphs[i as int].1.wf());
                }
                return Some(&self.masks[i]);
            }
            i += 1;
        }
        proof {
            assert forall|k: int| !self@.is_first(c, k) by {
                if self@.is_first(c, k) {
                    assert(self@.glyphs[k].0 != c);
                }
            }
        }
        None
    }
}

} // verus!
