//! Laying out a text: breaking it at its line feeds, measuring each line
//! with the font, and stacking the lines one line spacing apart.

use vstd::prelude::*;
use vstd::string::StringExecFns;
use crate::font::{Font, SpecFont};
use crate::math::{max_int, SpecVec2, Vec2};
use crate::types::{scalars_view, SpecCmd, TextStyle};

verus! {

/// The lines of a text: what stands between its line feeds. A text
/// without a line feed is one line, and so is the empty text.
pub open spec fn split_lines(text: Seq<char>) -> Seq<Seq<char>>
    decreases text.len(),
{
    if text.len() == 0 {
        seq![Seq::empty()]
    } else {
        let before = split_lines(text.drop_last());
        if text.last() == '\n' {
            before.push(Seq::empty())
        } else {
            before.drop_last().push(before.last().push(text.last()))
        }
    }
}

/// The text that `lines` make when a line feed is put between each two.
pub open spec fn join_lines(lines: Seq<Seq<char>>) -> Seq<char>
    decreases lines.len(),
{
    if lines.len() == 0 {
        Seq::empty()
    } else if lines.len() == 1 {
        lines[0]
    } else {
        join_lines(lines.drop_last()) + seq!['\n'] + lines.last()
    }
}

/// The lines of a text are the one way to cut it at its line feeds:
/// there is at least one line, no line holds a line feed, and the lines
/// with line feeds between them are the text.
pub proof fn lemma_split_lines(text: Seq<char>)
    ensures
        split_lines(text).len() >= 1,
        join_lines(split_lines(text)) == text,
        forall|k: int, i: int|
            0 <= k < split_lines(text).len() && 0 <= i < split_lines(text)[k].len()
                ==> #[trigger] split_lines(text)[k][i] != '\n',
    decreases text.len(),
{
    let lines = split_lines(text);
    if text.len() == 0 {
        assert(join_lines(lines) =~= text);
    } else {
        let before = split_lines(text.drop_last());
        lemma_split_lines(text.drop_last());
        assert(text =~= text.drop_last().push(text.last()));
        if text.last() == '\n' {
            assert(lines.drop_last() =~= before);
            assert(join_lines(lines) =~= text);
        } else {
            let last = before.last().push(text.last());
            if before.len() == 1 {
                assert(join_lines(before) == before[0]);
                assert(join_lines(lines) =~= text);
            } else {
                assert(lines.drop_last() =~= before.drop_last());
                assert(join_lines(lines) =~= join_lines(before).push(text.last()));
            }
            assert forall|k: int, i: int|
                0 <= k < lines.len() && 0 <= i < lines[k].len() implies #[trigger] lines[k][i]
                != '\n' by {
                if k < lines.len() - 1 {
                    assert(lines[k] == before[k]);
                } else if i < before.last().len() {
                    assert(lines[k][i] == before[before.len() - 1][i]);
                }
            }
        }
    }
}

/// The width of the widest of `lines`.
pub open spec fn max_line_width(font: SpecFont, lines: Seq<Seq<char>>) -> int
    decreases lines.len(),
{
    if lines.len() == 0 {
        0
    } else {
        max_int(max_line_width(font, lines.drop_last()), font.line_width(lines.last()))
    }
}

/// The box that a text fills: as wide as its widest line, and one line
/// spacing high for each line.
pub open spec fn text_size(font: SpecFont, text: Seq<char>) -> SpecVec2 {
    let lines = split_lines(text);
    SpecVec2 { x: max_line_width(font, lines), y: lines.len() * font.line_spacing }
}

/// The view of a [`TextFragment`].
pub ghost struct SpecFragment {
    pub x_offsets: Seq<int>,
    pub y_offset: int,
    pub text: Seq<char>,
}

/// One fragment for each line of `text`, from the top down.
pub open spec fn text_fragments(font: SpecFont, text: Seq<char>) -> Seq<SpecFragment> {
    let lines = split_lines(text);
    Seq::new(
        lines.len(),
        |k: int|
            SpecFragment {
                x_offsets: font.line_offsets(lines[k]),
                y_offset: k * font.line_spacing,
                text: lines[k],
            },
    )
}

/// The command that draws one fragment of a text placed at `pos`.
pub open spec fn fragment_cmd(pos: SpecVec2, fragment: SpecFragment) -> SpecCmd {
    SpecCmd::Text {
        pos: SpecVec2 { x: pos.x, y: pos.y + fragment.y_offset },
        style: TextStyle::Label,
        text: fragment.text,
        x_offsets: fragment.x_offsets,
    }
}

/// The commands that draw `text` with its first line at `pos`.
pub open spec fn text_cmds(font: SpecFont, pos: SpecVec2, text: Seq<char>) -> Seq<SpecCmd> {
    text_fragments(font, text).map_values(|f: SpecFragment| fragment_cmd(pos, f))
}

/// The position of the last line of `text` when its first line is at `pos`.
pub open spec fn last_line_pos(font: SpecFont, pos: SpecVec2, text: Seq<char>) -> SpecVec2 {
    SpecVec2 { x: pos.x, y: pos.y + text_size(font, text).y - font.line_spacing }
}

/// One more character either opens a line or joins the last one.
pub proof fn lemma_lines_step(text: Seq<char>, start: int, i: int, done: Seq<Seq<char>>)
    requires
        0 <= start <= i < text.len(),
        split_lines(text.take(i)) == done.push(text.subrange(start, i)),
    ensures
        text[i] == '\n' ==> split_lines(text.take(i + 1)) == done.push(
            text.subrange(start, i),
        ).push(text.subrange(i + 1, i + 1)),
        text[i] != '\n' ==> split_lines(text.take(i + 1)) == done.push(
            text.subrange(start, i + 1),
        ),
{
    let before = done.push(text.subrange(start, i));
    assert(text.take(i + 1).drop_last() =~= text.take(i));
    assert(text.take(i + 1).last() == text[i]);
    assert(text.subrange(i + 1, i + 1) =~= Seq::empty());
    assert(before.drop_last() =~= done);
    assert(before.last().push(text[i]) =~= text.subrange(start, i + 1));
}

/// No line is wider than the widest.
pub proof fn lemma_max_line_width(font: SpecFont, lines: Seq<Seq<char>>, k: int)
    requires
        0 <= k < lines.len(),
    ensures
        font.line_width(lines[k]) <= max_line_width(font, lines),
        0 <= max_line_width(font, lines),
    decreases lines.len(),
{
    if k < lines.len() - 1 {
        lemma_max_line_width(font, lines.drop_last(), k);
    } else if lines.len() > 1 {
        lemma_max_line_width(font, lines.drop_last(), 0);
    } else {
        assert(max_line_width(font, lines.drop_last()) == 0);
    }
}

/// What holds of the `k`-th line of a text laid out in a well-formed font.
proof fn lemma_line_in_text(font: SpecFont, lines: Seq<Seq<char>>, k: int)
    requires
        font.wf(),
        0 <= k < lines.len(),
    ensures
        0 <= font.line_width(lines[k]) <= max_line_width(font, lines),
        max_line_width(font, lines.take(k + 1)) == max_int(
            max_line_width(font, lines.take(k)),
            font.line_width(lines[k]),
        ),
        max_line_width(font, lines.take(k + 1)) <= max_line_width(font, lines),
        font.line_offsets(lines[k]).len() == lines[k].len() + 1,
        font.line_offsets(lines[k])[lines[k].len() as int] == font.line_width(lines[k]),
        (k + 1) * font.line_spacing == k * font.line_spacing + font.line_spacing,
        0 <= k * font.line_spacing,
        (k + 1) * font.line_spacing <= lines.len() * font.line_spacing,
{
    let line = lines[k];
    lemma_max_line_width(font, lines, k);
    font.lemma_width_monotonic(line, 0, line.len() as int);
    assert(line.take(line.len() as int) =~= line);
    assert(lines.take(k + 1).drop_last() =~= lines.take(k));
    assert(lines.take(k + 1).last() == line);
    lemma_max_width_prefix(font, lines, k + 1);
    let ls = font.line_spacing;
    let n = lines.len();
    assert((k + 1) * ls == k * ls + ls && 0 <= k * ls && (k + 1) * ls <= n * ls)
        by (nonlinear_arith)
        requires
            0 <= k < n,
            0 <= ls,
    ;
}

/// The widest of the first lines is no wider than the widest of all.
proof fn lemma_max_width_prefix(font: SpecFont, lines: Seq<Seq<char>>, k: int)
    requires
        0 <= k <= lines.len(),
    ensures
        max_line_width(font, lines.take(k)) <= max_line_width(font, lines),
    decreases lines.len() - k,
{
    if k < lines.len() {
        lemma_max_width_prefix(font, lines, k + 1);
        assert(lines.take(k + 1).drop_last() =~= lines.take(k));
    } else {
        assert(lines.take(k) =~= lines);
    }
}

/// Every line of a text starts between its first line and its last.
pub proof fn lemma_fragment_offsets(font: SpecFont, text: Seq<char>, k: int)
    requires
        font.wf(),
        0 <= k < text_fragments(font, text).len(),
    ensures
        0 <= text_fragments(font, text)[k].y_offset <= text_size(font, text).y - font.line_spacing,
{
    let n = split_lines(text).len() as int;
    let ls = font.line_spacing;
    assert(0 <= k * ls <= n * ls - ls) by (nonlinear_arith)
        requires
            0 <= k < n,
            0 <= ls,
    ;
}

/// The character that writes the digit `d`.
pub open spec fn digit_char(d: int) -> char {
    seq!['0', '1', '2', '3', '4', '5', '6', '7', '8', '9'][d]
}

/// The digits of `n` in base ten, without leading zeros.
pub open spec fn decimal_digits(n: nat) -> Seq<char>
    decreases n,
{
    if n < 10 {
        seq![digit_char(n as int)]
    } else {
        decimal_digits(n / 10).push(digit_char((n % 10) as int))
    }
}

/// `value` in base ten, with a minus sign if it is negative.
pub open spec fn decimal(value: int) -> Seq<char> {
    if value < 0 {
        seq!['-'] + decimal_digits((-value) as nat)
    } else {
        decimal_digits(value as nat)
    }
}

/// The text beside a slider: its name, a colon, and its value.
pub open spec fn slider_label(text: Seq<char>, value: int) -> Seq<char> {
    text + seq![':', ' '] + decimal(value)
}

/// The text of one digit.
fn digit_str(d: u64) -> (s: &'static str)
    requires
        d < 10,
    ensures
        s@ == seq![digit_char(d as int)],
{
    proof {
        reveal_strlit("0");
        reveal_strlit("1");
        reveal_strlit("2");
        reveal_strlit("3");
        reveal_strlit("4");
        reveal_strlit("5");
        reveal_strlit("6");
        reveal_strlit("7");
        reveal_strlit("8");
        reveal_strlit("9");
    }
    let s = if d == 0 {
        "0"
    } else if d == 1 {
        "1"
    } else if d == 2 {
        "2"
    } else if d == 3 {
        "3"
    } else if d == 4 {
        "4"
    } else if d == 5 {
        "5"
    } else if d == 6 {
        "6"
    } else if d == 7 {
        "7"
    } else if d == 8 {
        "8"
    } else {
        "9"
    };
    assert(s@ =~= seq![digit_char(d as int)]);
    s
}

/// Appends the digits of `n` to `out`.
fn push_decimal_digits(out: &mut String, n: u64)
    ensures
        final(out)@ == old(out)@ + decimal_digits(n as nat),
    decreases n,
{
    if n >= 10 {
        push_decimal_digits(out, n / 10);
    }
    out.append(digit_str(n % 10));
    assert(out@ =~= old(out)@ + decimal_digits(n as nat));
}

/// Writes the text that stands beside a slider.
pub fn format_slider_label(text: &str, value: i32) -> (label: String)
    ensures
        label@ == slider_label(text@, value as int),
{
    let mut label = text.to_owned();
    proof {
        reveal_strlit(": ");
        reveal_strlit("-");
    }
    label.append(": ");
    assert(label@ =~= text@ + seq![':', ' ']);
    if value < 0 {
        label.append("-");
        push_decimal_digits(&mut label, (-(value as i64)) as u64);
    } else {
        push_decimal_digits(&mut label, value as u64);
    }
    assert(label@ =~= slider_label(text@, value as int));
    label
}

/// One line of a laid out text.
#[derive(Debug)]
pub struct TextFragment {
    /// The start of each character, starting at zero, then the line's width.
    pub x_offsets: Vec<i32>,
    /// 0 for the first line, n * line_spacing for the rest.
    pub y_offset: i32,
    pub text: String,
}

impl View for TextFragment {
    type V = SpecFragment;

    open spec fn view(&self) -> SpecFragment {
        SpecFragment {
            x_offsets: scalars_view(self.x_offsets@),
            y_offset: self.y_offset as int,
            text: self.text@,
        }
    }
}

impl Clone for TextFragment {
    fn clone(&self) -> (fragment: TextFragment)
        ensures
            fragment@ == self@,
    {
        let x_offsets = self.x_offsets.clone();
        assert(x_offsets@ =~= self.x_offsets@);
        TextFragment { x_offsets, y_offset: self.y_offset, text: self.text.clone() }
    }
}

/// The views of a sequence of fragments, in the same order.
pub open spec fn fragments_view(fragments: Seq<TextFragment>) -> Seq<SpecFragment> {
    fragments.map_values(|f: TextFragment| f@)
}

/// The views of a sequence of lines, in the same order.
pub open spec fn lines_view(lines: Seq<String>) -> Seq<Seq<char>> {
    lines.map_values(|line: String| line@)
}

/// Breaks a text at its line feeds.
pub fn split_text(text: &str) -> (lines: Vec<String>)
    ensures
        lines_view(lines@) == split_lines(text@),
{
    let n = text.unicode_len();
    let mut lines: Vec<String> = Vec::new();
    let mut start: usize = 0;
    let mut i: usize = 0;
    proof {
        assert(text@.take(0) =~= Seq::empty());
        assert(split_lines(text@.take(0)) =~= lines_view(lines@).push(text@.subrange(0, 0)));
    }
    for c in it: text.chars()
        invariant
            it.seq() == text@,
            n == text@.len(),
            i == it.index(),
            start <= i <= n,
            split_lines(text@.take(i as int)) == lines_view(lines@).push(
                text@.subrange(start as int, i as int),
            ),
    {
        proof {
            lemma_lines_step(text@, start as int, i as int, lines_view(lines@));
        }
        if c == '\n' {
            let line = text.substring_char(start, i).to_owned();
            proof {
                assert(lines_view(lines@.push(line)) =~= lines_view(lines@).push(line@));
            }
            lines.push(line);
            start = i + 1;
        }
        i = i + 1;
    }
    let line = text.substring_char(start, i).to_owned();
    proof {
        assert(text@.take(n as int) =~= text@);
        assert(lines_view(lines@.push(line)) =~= lines_view(lines@).push(line@));
    }
    lines.push(line);
    lines
}

/// Lays out `text` line by line, and measures the box that it fills.
pub fn layout_text(font: &Font, text: &str) -> (laid_out: (Vec<TextFragment>, Vec2))
    requires
        text_size(font@, text@).fits(),
    ensures
        fragments_view(laid_out.0@) == text_fragments(font@, text@),
        laid_out.1@ == text_size(font@, text@),
{
    let lines = split_text(text);
    let line_spacing = font.line_spacing();
    let mut cursor_y: i32 = 0;
    let mut max_width: i32 = 0;
    let mut fragments: Vec<TextFragment> = Vec::new();
    let mut k: usize = 0;
    proof {
        font.lemma_wf();
        assert(lines_view(lines@).take(0) =~= Seq::empty());
    }
    while k < lines.len()
        invariant
            0 <= k <= lines.len(),
            font@.wf(),
            line_spacing == font@.line_spacing,
            lines_view(lines@) == split_lines(text@),
            text_size(font@, text@).fits(),
            cursor_y == k * line_spacing,
            max_width == max_line_width(font@, lines_view(lines@).take(k as int)),
            fragments@.len() == k,
            forall|j: int|
                0 <= j < k ==> (#[trigger] fragments@[j])@ == text_fragments(
                    font@,
                    text@,
                )[j],
        decreases lines.len() - k,
    {
        let ghost all = lines_view(lines@);
        proof {
            lemma_line_in_text(font@, all, k as int);
            assert(all[k as int] == lines@[k as int]@);
        }
        let x_offsets = font.layout_single_line(lines[k].as_str());
        assert(scalars_view(x_offsets@).len() == x_offsets@.len());
        let line_width = x_offsets[x_offsets.len() - 1];
        assert(line_width == scalars_view(x_offsets@)[x_offsets@.len() - 1]);
        fragments.push(TextFragment { x_offsets, y_offset: cursor_y, text: lines[k].clone() });
        cursor_y = cursor_y + line_spacing;
        if line_width > max_width {
            max_width = line_width;
        }
        k = k + 1;
    }
    proof {
        assert(lines_view(lines@).take(k as int) =~= lines_view(lines@));
        assert(fragments_view(fragments@) =~= text_fragments(font@, text@));
    }
    (fragments, Vec2 { x: max_width, y: cursor_y })
}

/// The size of `text` in `font`, or `None` where a scalar cannot hold it.
pub fn measure_text(font: &Font, text: &str) -> (size: Option<Vec2>)
    ensures
        size is Some <==> text_size(font@, text@).fits(),
        size matches Some(s) ==> s@ == text_size(font@, text@),
{
    let lines = split_text(text);
    let line_spacing: i64 = font.line_spacing() as i64;
    let mut max_width: i32 = 0;
    let mut height: i64 = 0;
    let mut k: usize = 0;
    proof {
        font.lemma_wf();
        assert(lines_view(lines@).take(0) =~= Seq::empty());
    }
    while k < lines.len()
        invariant
            0 <= k <= lines.len(),
            font@.wf(),
            line_spacing == font@.line_spacing,
            lines_view(lines@) == split_lines(text@),
            height == k * line_spacing,
            0 <= height <= i32::MAX,
            0 <= line_spacing <= i32::MAX,
            max_width == max_line_width(font@, lines_view(lines@).take(k as int)),
        decreases lines.len() - k,
    {
        let ghost all = lines_view(lines@);
        proof {
            lemma_line_in_text(font@, all, k as int);
            assert(all[k as int] == lines@[k as int]@);
        }
        if !font.line_fits(lines[k].as_str()) || height + line_spacing > i32::MAX as i64 {
            return None;
        }
        let x_offsets = font.layout_single_line(lines[k].as_str());
        assert(scalars_view(x_offsets@).len() == x_offsets@.len());
        let line_width = x_offsets[x_offsets.len() - 1];
        assert(line_width == scalars_view(x_offsets@)[x_offsets@.len() - 1]);
        height = height + line_spacing;
        if line_width > max_width {
            max_width = line_width;
        }
        k = k + 1;
    }
    proof {
        assert(lines_view(lines@).take(k as int) =~= lines_view(lines@));
    }
    Some(Vec2 { x: max_width, y: height as i32 })
}

} // verus!
