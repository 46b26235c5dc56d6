//! Font metrics: how far each character advances the pen, and how far apart
//! the lines of a text are. Glyph shapes are the renderer's business.

use vstd::prelude::*;
use crate::math::is_scalar;
use crate::types::scalars_view;

verus! {

/// The view of a [`Font`].
pub ghost struct SpecFont {
    /// Distance between the tops of two successive lines.
    pub line_spacing: int,
    /// Advance width by code point; a character past the end has no glyph.
    pub advances: Seq<int>,
}

impl SpecFont {
    /// How far `c` moves the pen. A character without a glyph does not move it.
    pub open spec fn advance(self, c: char) -> int {
        let code = c as u32 as int;
        if code < self.advances.len() {
            self.advances[code]
        } else {
            0
        }
    }

    /// The width of one line: the sum of its characters' advances.
    pub open spec fn line_width(self, line: Seq<char>) -> int
        decreases line.len(),
    {
        if line.len() == 0 {
            0
        } else {
            self.line_width(line.drop_last()) + self.advance(line.last())
        }
    }

    /// Where each character of `line` starts, followed by the line's width.
    pub open spec fn line_offsets(self, line: Seq<char>) -> Seq<int> {
        Seq::new(line.len() + 1, |i: int| self.line_width(line.take(i)))
    }

    /// No advance is negative.
    pub open spec fn wf(self) -> bool {
        &&& 0 <= self.line_spacing
        &&& forall|i: int| 0 <= i < self.advances.len() ==> 0 <= #[trigger] self.advances[i]
    }

    /// Widths grow along a line.
    pub proof fn lemma_width_monotonic(self, line: Seq<char>, i: int, j: int)
        requires
            self.wf(),
            0 <= i <= j <= line.len(),
        ensures
            0 <= self.line_width(line.take(i)) <= self.line_width(line.take(j)),
        decreases j - i, i,
    {
        if i < j {
            self.lemma_width_monotonic(line, i, j - 1);
            self.lemma_width_step(line, j - 1);
        } else if i > 0 {
            self.lemma_width_monotonic(line, i - 1, i - 1);
            self.lemma_width_step(line, i - 1);
        } else {
            assert(line.take(0).len() == 0);
        }
    }

    /// The offsets of a line start at zero, never fall, and end with the
    /// line's width.
    pub proof fn lemma_line_offsets(self, line: Seq<char>, i: int, j: int)
        requires
            self.wf(),
            0 <= i <= j <= line.len(),
        ensures
            self.line_offsets(line).len() == line.len() + 1,
            self.line_offsets(line)[0] == 0,
            self.line_offsets(line)[i] <= self.line_offsets(line)[j],
            self.line_offsets(line)[line.len() as int] == self.line_width(line),
    {
        self.lemma_width_monotonic(line, i, j);
        assert(line.take(0).len() == 0);
        assert(line.take(line.len() as int) =~= line);
    }

    /// One more character adds its advance.
    pub proof fn lemma_width_step(self, line: Seq<char>, i: int)
        requires
            0 <= i < line.len(),
        ensures
            self.line_width(line.take(i + 1)) == self.line_width(line.take(i)) + self.advance(
                line[i],
            ),
    {
        assert(line.take(i + 1).drop_last() =~= line.take(i));
        assert(line.take(i + 1).last() == line[i]);
    }
}

/// Text metrics of one typeface at one size.
#[derive(Debug)]
pub struct Font {
    line_spacing: u16,
    advances: Vec<u16>,
}

impl View for Font {
    type V = SpecFont;

    closed spec fn view(&self) -> SpecFont {
        SpecFont {
            line_spacing: self.line_spacing as int,
            advances: self.advances@.map_values(|a: u16| a as int),
        }
    }
}

impl Clone for Font {
    fn clone(&self) -> (font: Font)
        ensures
            font@ == self@,
    {
        let advances = self.advances.clone();
        assert(advances@ =~= self.advances@);
        Font { line_spacing: self.line_spacing, advances }
    }
}

impl Font {
    /// A font whose character with code point `i` advances the pen by
    /// `advances[i]`, and whose lines are `line_spacing` apart.
    pub fn new(line_spacing: u16, advances: Vec<u16>) -> (font: Font)
        ensures
            font@.line_spacing == line_spacing,
            font@.advances == advances@.map_values(|a: u16| a as int),
            font@.wf(),
    {
        Font { line_spacing, advances }
    }

    /// Every font is well formed.
    pub proof fn lemma_wf(&self)
        ensures
            self@.wf(),
    {
    }

    pub fn line_spacing(&self) -> (spacing: i32)
        ensures
            spacing == self@.line_spacing,
    {
        self.line_spacing as i32
    }

    pub fn advance(&self, c: char) -> (a: i32)
        ensures
            a == self@.advance(c),
            0 <= a,
    {
        let code: u32 = c as u32;
        if (code as usize) < self.advances.len() {
            self.advances[code as usize] as i32
        } else {
            0
        }
    }

    /// Whether the width of `line` can be held in a scalar.
    pub fn line_fits(&self, line: &str) -> (b: bool)
        ensures
            b == is_scalar(self@.line_width(line@)),
    {
        let mut width: i32 = 0;
        let mut fits = true;
        for c in it: line.chars()
            invariant
                it.seq() == line@,
                fits ==> width == self@.line_width(line@.take(it.index() as int)),
                !fits ==> !is_scalar(self@.line_width(line@)),
                0 <= width,
        {
            if fits {
                let a: i32 = self.advance(c);
                proof {
                    self@.lemma_width_step(line@, it.index() as int);
                }
                if width > i32::MAX - a {
                    fits = false;
                    proof {
                        self@.lemma_width_monotonic(
                            line@,
                            it.index() as int + 1,
                            line@.len() as int,
                        );
                        assert(line@.take(line@.len() as int) =~= line@);
                    }
                } else {
                    width = width + a;
                }
            }
        }
        proof {
            assert(line@.take(line@.len() as int) =~= line@);
            self@.lemma_width_monotonic(line@, 0, line@.len() as int);
        }
        fits
    }

    /// Where each character of `line` starts, followed by the line's width.
    pub fn layout_single_line(&self, line: &str) -> (x_offsets: Vec<i32>)
        requires
            is_scalar(self@.line_width(line@)),
        ensures
            scalars_view(x_offsets@) == self@.line_offsets(line@),
            x_offsets@.len() == line@.len() + 1,
    {
        let mut x_offsets: Vec<i32> = Vec::new();
        let mut cursor_x: i32 = 0;
        for c in it: line.chars()
            invariant
                it.seq() == line@,
                is_scalar(self@.line_width(line@)),
                cursor_x == self@.line_width(line@.take(it.index() as int)),
                x_offsets@.len() == it.index(),
                forall|k: int|
                    0 <= k < it.index() ==> x_offsets@[k] == self@.line_width(
                        #[trigger] line@.take(k),
                    ),
        {
            x_offsets.push(cursor_x);
            let a: i32 = self.advance(c);
            proof {
                self@.lemma_width_step(line@, it.index() as int);
                self@.lemma_width_monotonic(line@, it.index() as int + 1, line@.len() as int);
                assert(line@.take(line@.len() as int) =~= line@);
            }
            cursor_x = cursor_x + a;
        }
        x_offsets.push(cursor_x);
        assert(scalars_view(x_offsets@) =~= self@.line_offsets(line@));
        x_offsets
    }
}

} // verus!
