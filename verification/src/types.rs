//! The values that cross the library's boundary: the input snapshot that
//! comes in each frame and the draw commands that go out.

use vstd::prelude::*;
use crate::math::{Rect, SpecRect, SpecVec2, Vec2};

verus! {

/// What the pointer is doing in the current frame.
#[derive(Clone, Copy, Debug, PartialEq, Eq, Structural)]
pub struct GuiInput {
    /// The button is held down.
    pub mouse_down: bool,
    /// The button went down in this very frame.
    pub mouse_clicked: bool,
    /// Where the pointer is, in screen coordinates.
    pub mouse_pos: Vec2,
}

impl Default for GuiInput {
    fn default() -> (input: GuiInput)
        ensures
            !input.mouse_down,
            !input.mouse_clicked,
            input.mouse_pos@ == SpecVec2::zero(),
    {
        GuiInput { mouse_down: false, mouse_clicked: false, mouse_pos: Vec2 { x: 0, y: 0 } }
    }
}

/// How the pointer relates to one reserved rectangle.
#[derive(Clone, Copy, Debug, PartialEq, Eq, Structural)]
pub struct InteractInfo {
    /// The pointer is over the rectangle.
    pub hovered: bool,
    /// The button went down over the rectangle in this frame.
    pub clicked: bool,
    /// The widget is the one being pressed or dragged.
    pub active: bool,
}

impl Default for InteractInfo {
    fn default() -> (info: InteractInfo)
        ensures
            !info.hovered,
            !info.clicked,
            !info.active,
    {
        InteractInfo { hovered: false, clicked: false, active: false }
    }
}

/// How a text is to be drawn.
#[derive(Clone, Copy, Debug, PartialEq, Eq, Structural)]
pub enum TextStyle {
    Label,
}

/// One draw command. Commands carry geometry and state, never colour.
#[derive(Debug, PartialEq, Eq)]
pub enum GuiCmd {
    Window { rect: Rect },
    Button { rect: Rect, interact: InteractInfo },
    Checkbox { rect: Rect, interact: InteractInfo, checked: bool },
    RadioButton { rect: Rect, interact: InteractInfo, checked: bool },
    FoldableHeader { rect: Rect, interact: InteractInfo, open: bool },
    Slider { rect: Rect, interact: InteractInfo, min: i32, max: i32, value: i32 },
    /// One line of text. `x_offsets` holds where each character starts,
    /// relative to `pos`, and ends with the width of the line.
    Text { pos: Vec2, style: TextStyle, text: String, x_offsets: Vec<i32> },
}

/// The view of a [`GuiCmd`].
pub ghost enum SpecCmd {
    Window { rect: SpecRect },
    Button { rect: SpecRect, interact: InteractInfo },
    Checkbox { rect: SpecRect, interact: InteractInfo, checked: bool },
    RadioButton { rect: SpecRect, interact: InteractInfo, checked: bool },
    FoldableHeader { rect: SpecRect, interact: InteractInfo, open: bool },
    Slider { rect: SpecRect, interact: InteractInfo, min: int, max: int, value: int },
    Text { pos: SpecVec2, style: TextStyle, text: Seq<char>, x_offsets: Seq<int> },
}

/// A sequence of scalars as a sequence of integers.
pub open spec fn scalars_view(s: Seq<i32>) -> Seq<int> {
    s.map_values(|v: i32| v as int)
}

impl View for GuiCmd {
    type V = SpecCmd;

    open spec fn view(&self) -> SpecCmd {
        match *self {
            GuiCmd::Window { rect } => SpecCmd::Window { rect: rect@ },
            GuiCmd::Button { rect, interact } => SpecCmd::Button { rect: rect@, interact },
            GuiCmd::Checkbox { rect, interact, checked } => SpecCmd::Checkbox {
                rect: rect@,
                interact,
                checked,
            },
            GuiCmd::RadioButton { rect, interact, checked } => SpecCmd::RadioButton {
                rect: rect@,
                interact,
                checked,
            },
            GuiCmd::FoldableHeader { rect, interact, open } => SpecCmd::FoldableHeader {
                rect: rect@,
                interact,
                open,
            },
            GuiCmd::Slider { rect, interact, min, max, value } => SpecCmd::Slider {
                rect: rect@,
                interact,
                min: min as int,
                max: max as int,
                value: value as int,
            },
            GuiCmd::Text { pos, style, text, x_offsets } => SpecCmd::Text {
                pos: pos@,
                style,
                text: text@,
                x_offsets: scalars_view(x_offsets@),
            },
        }
    }
}

impl Clone for GuiCmd {
    fn clone(&self) -> (cmd: GuiCmd)
        ensures
            cmd@ == self@,
    {
        match self {
            GuiCmd::Window { rect } => GuiCmd::Window { rect: *rect },
            GuiCmd::Button { rect, interact } => GuiCmd::Button { rect: *rect, interact: *interact },
            GuiCmd::Checkbox { rect, interact, checked } => GuiCmd::Checkbox {
                rect: *rect,
                interact: *interact,
                checked: *checked,
            },
            GuiCmd::RadioButton { rect, interact, checked } => GuiCmd::RadioButton {
                rect: *rect,
                interact: *interact,
                checked: *checked,
            },
            GuiCmd::FoldableHeader { rect, interact, open } => GuiCmd::FoldableHeader {
                rect: *rect,
                interact: *interact,
                open: *open,
            },
            GuiCmd::Slider { rect, interact, min, max, value } => GuiCmd::Slider {
                rect: *rect,
                interact: *interact,
                min: *min,
                max: *max,
                value: *value,
            },
            GuiCmd::Text { pos, style, text, x_offsets } => {
                let offsets = x_offsets.clone();
                assert(offsets@ =~= x_offsets@);
                GuiCmd::Text { pos: *pos, style: *style, text: text.clone(), x_offsets: offsets }
            },
        }
    }
}

/// The views of a sequence of commands, in the same order.
pub open spec fn cmds_view(cmds: Seq<GuiCmd>) -> Seq<SpecCmd> {
    cmds.map_values(|c: GuiCmd| c@)
}

/// The view of a sequence with one more command.
pub proof fn lemma_cmds_view_push(cmds: Seq<GuiCmd>, cmd: GuiCmd)
    ensures
        cmds_view(cmds.push(cmd)) == cmds_view(cmds).push(cmd@),
{
    assert(cmds_view(cmds.push(cmd)) =~= cmds_view(cmds).push(cmd@));
}

/// The view of two sequences joined.
pub proof fn lemma_cmds_view_concat(a: Seq<GuiCmd>, b: Seq<GuiCmd>)
    ensures
        cmds_view(a + b) == cmds_view(a) + cmds_view(b),
{
    assert(cmds_view(a + b) =~= cmds_view(a) + cmds_view(b));
}

/// The views of the two parts of a sequence cut at `at`.
pub proof fn lemma_cmds_view_split(cmds: Seq<GuiCmd>, at: int)
    requires
        0 <= at <= cmds.len(),
    ensures
        cmds_view(cmds.take(at)) == cmds_view(cmds).take(at),
        cmds_view(cmds.skip(at)) == cmds_view(cmds).skip(at),
{
    assert(cmds_view(cmds.take(at)) =~= cmds_view(cmds).take(at));
    assert(cmds_view(cmds.skip(at)) =~= cmds_view(cmds).skip(at));
}

} // verus!
