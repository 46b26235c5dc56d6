//! The widgets. Each one reserves a rectangle in its region, learns from
//! the reservation how the pointer relates to it, and emits the commands
//! that draw it.

use vstd::prelude::*;
use crate::id::{spec_child_id, text_child_id, text_key, Id};
use crate::layout::{Data, Direction, GuiResponse, LayoutOptions, SpecData, SpecMemory};
use crate::math::{in_scalar_range, is_scalar, lemma_remap_clamp_bounds, remap_clamp};
use crate::math::{remap_clamp_spec, Rect, SpecRect, SpecVec2, Vec2};
use crate::region::{regions_view, Region, SpecRegion};
use crate::text::{format_slider_label, slider_label};
use crate::text::{fragment_cmd, fragments_view, last_line_pos, layout_text, lemma_fragment_offsets};
use crate::text::{measure_text, text_cmds, text_fragments, text_size, SpecFragment, TextFragment};
use crate::types::{GuiCmd, InteractInfo, SpecCmd, TextStyle};

verus! {

/// The widgets that carry a text.
#[derive(Clone, Copy, Debug, PartialEq, Eq, Structural)]
pub enum Widget {
    Label,
    Button,
    Checkbox,
    RadioButton,
    FoldableHeader,
}

impl SpecRegion {
    /// Where the text of a widget placed at the cursor starts: at the
    /// cursor in a label, behind the padding in a button, and behind the
    /// padding and the icon in the others.
    pub open spec fn text_pos(self, options: LayoutOptions, widget: Widget) -> SpecVec2 {
        match widget {
            Widget::Label => self.cursor,
            Widget::Button => self.cursor.plus(options.button_padding@),
            _ => SpecVec2 {
                x: self.cursor.x + options.button_padding.x + options.start_icon_width,
                y: self.cursor.y + options.button_padding.y,
            },
        }
    }

    /// The size that a widget reserves for a text of `text_size`.
    pub open spec fn widget_size(
        self,
        options: LayoutOptions,
        widget: Widget,
        text_size: SpecVec2,
    ) -> SpecVec2 {
        let padding = options.button_padding@;
        match widget {
            Widget::Label => text_size,
            Widget::Button => text_size.plus(padding.times(2)),
            Widget::Checkbox | Widget::RadioButton => SpecVec2 {
                x: padding.x + options.start_icon_width + text_size.x + padding.x,
                y: padding.y + text_size.y + padding.y,
            },
            Widget::FoldableHeader => SpecVec2 {
                x: self.available_space.x,
                y: text_size.y + 2 * padding.y,
            },
        }
    }

    /// The rectangle that a widget with `text` reserves.
    pub open spec fn widget_rect(self, data: SpecData, widget: Widget, text: Seq<char>) -> SpecRect {
        SpecRect {
            pos: self.cursor,
            size: self.widget_size(data.options, widget, text_size(data.font, text)),
        }
    }

    /// The id under which a widget with `text` meets the pointer: a label
    /// has none, the others are named by their text.
    pub open spec fn widget_id(self, widget: Widget, text: Seq<char>) -> Option<Id> {
        match widget {
            Widget::Label => None,
            _ => Some(spec_child_id(self.id, text_key(text))),
        }
    }

    /// The region after a widget with `text` has been placed.
    pub open spec fn with_widget(self, data: SpecData, widget: Widget, text: Seq<char>) -> SpecRegion {
        self.reserve(self.widget_rect(data, widget, text).size, data.options.item_spacing@)
    }

    /// Whether a widget with `text` can be placed with every coordinate
    /// that the region keeps or emits still a scalar.
    pub open spec fn widget_fits(self, data: SpecData, widget: Widget, text: Seq<char>) -> bool {
        let text_pos = self.text_pos(data.options, widget);
        &&& text_size(data.font, text).fits()
        &&& text_pos.fits()
        &&& last_line_pos(data.font, text_pos, text).fits()
        &&& self.widget_rect(data, widget, text).size.fits()
        &&& self.with_widget(data, widget, text).fits()
    }
}

impl SpecRegion {
    /// The child region in which the contents of an open foldable are laid
    /// out: indented below the header, with the foldable's own id as the
    /// root of the ids in it.
    pub open spec fn foldable_child(self, data: SpecData, text: Seq<char>) -> SpecRegion {
        SpecRegion {
            id: spec_child_id(self.id, text_key(text)),
            ..self.with_widget(data, Widget::FoldableHeader, text).indented(
                data.options.indent as int,
            )
        }
    }

    /// Whether a foldable can be placed: the region is vertical, the
    /// header fits, and, where the foldable is open, so does its child.
    pub open spec fn foldable_fits(self, data: SpecData, text: Seq<char>) -> bool {
        &&& self.dir == Direction::Vertical
        &&& self.widget_fits(data, Widget::FoldableHeader, text)
        &&& data.foldable_open(self, text) ==> self.foldable_child(data, text).fits()
    }

    /// The rectangle of a slider: as wide as the room that is left, and one
    /// line of text high.
    pub open spec fn slider_rect(self, data: SpecData) -> SpecRect {
        SpecRect {
            pos: self.cursor,
            size: SpecVec2 { x: self.available_space.x, y: data.font.line_spacing },
        }
    }

    /// The region after a slider has been placed.
    pub open spec fn with_slider(self, data: SpecData) -> SpecRegion {
        self.reserve(self.slider_rect(data).size, data.options.item_spacing@)
    }

    /// Whether a slider can be placed.
    pub open spec fn slider_fits(self, data: SpecData) -> bool {
        self.with_slider(data).fits()
    }

    /// The two columns of a slider with its label: the slider in the
    /// left one, the label in the right one.
    pub open spec fn slider_columns(self, data: SpecData) -> Seq<SpecRegion> {
        self.columns(data.options.item_spacing.x as int, 2)
    }

    /// The same two columns once they are filled.
    pub open spec fn filled_slider_columns(
        self,
        data: SpecData,
        text: Seq<char>,
        value: int,
    ) -> Seq<SpecRegion> {
        let columns = self.slider_columns(data);
        seq![
            columns[0].with_slider(data),
            columns[1].with_widget(data, Widget::Label, slider_label(text, value)),
        ]
    }

    /// The region after a slider with its label has been placed.
    pub open spec fn with_labeled_slider(
        self,
        data: SpecData,
        text: Seq<char>,
        value: int,
    ) -> SpecRegion {
        self.reserve(
            self.columns_block(self.filled_slider_columns(data, text, value)),
            data.options.item_spacing@,
        )
    }

    /// Whether a slider with its label can be placed.
    pub open spec fn labeled_slider_fits(self, data: SpecData, text: Seq<char>, value: int) -> bool {
        let columns = self.slider_columns(data);
        &&& self.columns_fit(data.options.item_spacing.x as int, 2)
        &&& columns[1].widget_fits(data, Widget::Label, slider_label(text, value))
        &&& columns[0].slider_fits(data)
        &&& self.with_labeled_slider(data, text, value).fits()
    }
}

impl SpecData {
    /// What is remembered once the header of a foldable has been placed:
    /// a click on the header makes it the active widget, and flips the
    /// foldable.
    pub open spec fn foldable_memory(self, region: SpecRegion, text: Seq<char>) -> SpecMemory {
        self.with_widget(region, Widget::FoldableHeader, text).memory.toggle(
            self.clicked(region.widget_rect(self, Widget::FoldableHeader, text)),
            spec_child_id(region.id, text_key(text)),
        )
    }

    /// Whether a foldable is open once its header has been placed.
    pub open spec fn foldable_open(self, region: SpecRegion, text: Seq<char>) -> bool {
        self.foldable_memory(region, text).open_foldables.contains(
            spec_child_id(region.id, text_key(text)),
        )
    }

    /// The value of a slider after the frame: while the slider is active
    /// it follows the pointer along the track and stops at the track's
    /// ends; otherwise it stays.
    pub open spec fn slider_value(
        self,
        rect: SpecRect,
        active: bool,
        value: int,
        min: int,
        max: int,
    ) -> int {
        if active {
            remap_clamp_spec(self.input.mouse_pos.x as int, rect.min().x, rect.max().x, min, max)
        } else {
            value
        }
    }
}

impl SpecData {
    /// The frame after a widget with `text` has been reserved in `region`.
    pub open spec fn with_widget(self, region: SpecRegion, widget: Widget, text: Seq<char>) -> SpecData {
        self.interacted(region.widget_rect(self, widget, text), region.widget_id(widget, text))
    }

    /// What a widget with `text`, reserved in `region`, learns of the pointer.
    pub open spec fn widget_interaction(
        self,
        region: SpecRegion,
        widget: Widget,
        text: Seq<char>,
    ) -> InteractInfo {
        self.interaction(region.widget_rect(self, widget, text), region.widget_id(widget, text))
    }

    /// The commands that draw the text of a widget placed in `region`.
    pub open spec fn widget_text(self, region: SpecRegion, widget: Widget, text: Seq<char>) -> Seq<
        SpecCmd,
    > {
        text_cmds(self.font, region.text_pos(self.options, widget), text)
    }
}

/// What placing a widget yields, before anything is drawn.
struct Placed {
    rect: Rect,
    interact: InteractInfo,
    text_pos: Vec2,
    fragments: Vec<TextFragment>,
}

/// The answer that a widget gives for what its reservation found.
fn response(interact: InteractInfo) -> (response: GuiResponse)
    ensures
        response.interact() == interact,
{
    GuiResponse { hovered: interact.hovered, clicked: interact.clicked, active: interact.active }
}

/// Emits one text command for each fragment, in order.
fn add_text(data: &mut Data, pos: Vec2, text: Vec<TextFragment>)
    requires
        forall|k: int| 0 <= k < text@.len() ==> is_scalar(pos.y + (#[trigger] text@[k]).y_offset),
    ensures
        final(data)@ == old(data)@.extend(
            fragments_view(text@).map_values(|f: SpecFragment| fragment_cmd(pos@, f)),
        ),
{
    let ghost cmds = fragments_view(text@).map_values(|f: SpecFragment| fragment_cmd(pos@, f));
    let ghost fragments = text@;
    proof {
        assert(old(data)@.layers.base + cmds.take(0) =~= old(data)@.layers.base);
    }
    for fragment in it: text
        invariant
            it.seq() == fragments,
            cmds == fragments_view(fragments).map_values(|f: SpecFragment| fragment_cmd(pos@, f)),
            forall|k: int|
                0 <= k < fragments.len() ==> is_scalar(pos.y + (#[trigger] fragments[k]).y_offset),
            data@ == old(data)@.extend(cmds.take(it.index() as int)),
    {
        let ghost k = it.index() as int;
        assert(fragment == fragments[k]);
        let cmd = GuiCmd::Text {
            pos: Vec2 { x: pos.x, y: pos.y + fragment.y_offset },
            style: TextStyle::Label,
            text: fragment.text,
            x_offsets: fragment.x_offsets,
        };
        proof {
            assert(cmd@ == cmds[k]);
            assert(old(data)@.layers.base + cmds.take(k + 1) =~= (old(data)@.layers.base
                + cmds.take(k)).push(cmds[k]));
        }
        data.add_graphic(cmd);
    }
    proof {
        assert(cmds.take(fragments.len() as int) =~= cmds);
    }
}

impl Region {
    /// The id of the child of this region that `key` names.
    pub fn make_child_id(&self, key: &str) -> (id: Id)
        ensures
            id == spec_child_id(self@.id, text_key(key@)),
    {
        text_child_id(self.id(), key)
    }

    /// The size that `widget` reserves for a text of `text_size`, as wide
    /// integers.
    fn widget_size(&self, options: &LayoutOptions, widget: Widget, text_size: Vec2) -> (size: (
        i64,
        i64,
    ))
        ensures
            (SpecVec2 { x: size.0 as int, y: size.1 as int }) == self@.widget_size(
                *options,
                widget,
                text_size@,
            ),
            -0x2_0000_0000 <= size.0 <= 0x2_0000_0000,
            -0x2_0000_0000 <= size.1 <= 0x2_0000_0000,
    {
        let px: i64 = options.button_padding.x as i64;
        let py: i64 = options.button_padding.y as i64;
        let icon: i64 = options.start_icon_width as i64;
        let tx: i64 = text_size.x as i64;
        let ty: i64 = text_size.y as i64;
        match widget {
            Widget::Label => (tx, ty),
            Widget::Button => (tx + px * 2, ty + py * 2),
            Widget::Checkbox | Widget::RadioButton => (px + icon + tx + px, py + ty + py),
            Widget::FoldableHeader => (self.available_space().x as i64, ty + 2 * py),
        }
    }

    /// Where the text of `widget` starts, as wide integers.
    fn text_pos(&self, options: &LayoutOptions, widget: Widget) -> (pos: (i64, i64))
        ensures
            (SpecVec2 { x: pos.0 as int, y: pos.1 as int }) == self@.text_pos(*options, widget),
            -0x2_0000_0000 <= pos.0 <= 0x2_0000_0000,
            -0x2_0000_0000 <= pos.1 <= 0x2_0000_0000,
    {
        let cx: i64 = self.cursor().x as i64;
        let cy: i64 = self.cursor().y as i64;
        let px: i64 = options.button_padding.x as i64;
        let py: i64 = options.button_padding.y as i64;
        match widget {
            Widget::Label => (cx, cy),
            Widget::Button => (cx + px, cy + py),
            _ => (cx + px + options.start_icon_width as i64, cy + py),
        }
    }

    /// Whether `widget` with `text` can be placed: see
    /// [`SpecRegion::widget_fits`].
    pub fn can_add(&self, data: &Data, widget: Widget, text: &str) -> (b: bool)
        ensures
            b == self@.widget_fits(data@, widget, text@),
    {
        let text_size = match measure_text(data.font(), text) {
            Some(size) => size,
            None => { return false; },
        };
        let pos = self.text_pos(data.options(), widget);
        let size = self.widget_size(data.options(), widget, text_size);
        let last_y: i64 = pos.1 + text_size.y as i64 - data.font().line_spacing() as i64;
        if !(in_scalar_range(pos.0) && in_scalar_range(pos.1) && in_scalar_range(last_y)
            && in_scalar_range(size.0) && in_scalar_range(size.1)) {
            return false;
        }
        self.can_reserve(data, Vec2 { x: size.0 as i32, y: size.1 as i32 })
    }

    /// Lays out the text of a widget and reserves the widget's rectangle.
    fn place(&mut self, data: &mut Data, widget: Widget, text: &str) -> (placed: Placed)
        requires
            old(self)@.widget_fits(old(data)@, widget, text@),
        ensures
            final(self)@ == old(self)@.with_widget(old(data)@, widget, text@),
            final(data)@ == old(data)@.with_widget(old(self)@, widget, text@),
            placed.rect@ == old(self)@.widget_rect(old(data)@, widget, text@),
            placed.interact == old(data)@.widget_interaction(old(self)@, widget, text@),
            placed.text_pos@ == old(self)@.text_pos(old(data)@.options, widget),
            fragments_view(placed.fragments@) == text_fragments(old(data)@.font, text@),
            forall|k: int|
                0 <= k < placed.fragments@.len() ==> is_scalar(
                    placed.text_pos.y + (#[trigger] placed.fragments@[k]).y_offset,
                ),
    {
        let id = match widget {
            Widget::Label => None,
            _ => Some(self.make_child_id(text)),
        };
        let (fragments, text_size) = layout_text(data.font(), text);
        let pos = self.text_pos(data.options(), widget);
        let size = self.widget_size(data.options(), widget, text_size);
        let text_pos = Vec2 { x: pos.0 as i32, y: pos.1 as i32 };
        let (rect, interact) = self.reserve_space(
            data,
            Vec2 { x: size.0 as i32, y: size.1 as i32 },
            id,
        );
        proof {
            data.lemma_font_wf();
            assert forall|k: int| 0 <= k < fragments@.len() implies is_scalar(
                text_pos.y + (#[trigger] fragments@[k]).y_offset,
            ) by {
                lemma_fragment_offsets(old(data)@.font, text@, k);
                assert(fragments_view(fragments@)[k] == fragments@[k]@);
            }
        }
        Placed { rect, interact, text_pos, fragments }
    }

    /// A line, or several, of text. It is hovered and clicked like any
    /// widget, but can never be the active one.
    pub fn label(&mut self, data: &mut Data, text: &str) -> (response: GuiResponse)
        requires
            old(self)@.widget_fits(old(data)@, Widget::Label, text@),
        ensures
            final(self)@ == old(self)@.with_widget(old(data)@, Widget::Label, text@),
            response.interact() == old(data)@.widget_interaction(old(self)@, Widget::Label, text@),
            final(data)@ == old(data)@.extend(
                old(data)@.widget_text(old(self)@, Widget::Label, text@),
            ),
    {
        let placed = self.place(data, Widget::Label, text);
        add_text(data, placed.text_pos, placed.fragments);
        response(placed.interact)
    }

    /// A button: its text with padding around it.
    pub fn button(&mut self, data: &mut Data, text: &str) -> (response: GuiResponse)
        requires
            old(self)@.widget_fits(old(data)@, Widget::Button, text@),
        ensures
            final(self)@ == old(self)@.with_widget(old(data)@, Widget::Button, text@),
            response.interact() == old(data)@.widget_interaction(old(self)@, Widget::Button, text@),
            final(data)@ == old(data)@.with_widget(old(self)@, Widget::Button, text@).push(
                SpecCmd::Button {
                    rect: old(self)@.widget_rect(old(data)@, Widget::Button, text@),
                    interact: response.interact(),
                },
            ).extend(old(data)@.widget_text(old(self)@, Widget::Button, text@)),
    {
        let placed = self.place(data, Widget::Button, text);
        data.add_graphic(GuiCmd::Button { interact: placed.interact, rect: placed.rect });
        add_text(data, placed.text_pos, placed.fragments);
        response(placed.interact)
    }

    /// A box that a click ticks or clears. The bound value flips in the
    /// frame in which the button goes down over the box, and in no other.
    pub fn checkbox(&mut self, data: &mut Data, text: &str, checked: &mut bool) -> (response:
        GuiResponse)
        requires
            old(self)@.widget_fits(old(data)@, Widget::Checkbox, text@),
        ensures
            final(self)@ == old(self)@.with_widget(old(data)@, Widget::Checkbox, text@),
            response.interact() == old(data)@.widget_interaction(
                old(self)@,
                Widget::Checkbox,
                text@,
            ),
            *final(checked) == (*old(checked) != response.clicked),
            final(data)@ == old(data)@.with_widget(old(self)@, Widget::Checkbox, text@).push(
                SpecCmd::Checkbox {
                    rect: old(self)@.widget_rect(old(data)@, Widget::Checkbox, text@),
                    interact: response.interact(),
                    checked: *final(checked),
                },
            ).extend(old(data)@.widget_text(old(self)@, Widget::Checkbox, text@)),
    {
        let placed = self.place(data, Widget::Checkbox, text);
        if placed.interact.clicked {
            *checked = !*checked;
        }
        data.add_graphic(
            GuiCmd::Checkbox { checked: *checked, interact: placed.interact, rect: placed.rect },
        );
        add_text(data, placed.text_pos, placed.fragments);
        response(placed.interact)
    }

    /// A radio button. Which of several is ticked is the caller's to decide.
    pub fn radio(&mut self, data: &mut Data, text: &str, checked: bool) -> (response: GuiResponse)
        requires
            old(self)@.widget_fits(old(data)@, Widget::RadioButton, text@),
        ensures
            final(self)@ == old(self)@.with_widget(old(data)@, Widget::RadioButton, text@),
            response.interact() == old(data)@.widget_interaction(
                old(self)@,
                Widget::RadioButton,
                text@,
            ),
            final(data)@ == old(data)@.with_widget(old(self)@, Widget::RadioButton, text@).push(
                SpecCmd::RadioButton {
                    rect: old(self)@.widget_rect(old(data)@, Widget::RadioButton, text@),
                    interact: response.interact(),
                    checked,
                },
            ).extend(old(data)@.widget_text(old(self)@, Widget::RadioButton, text@)),
    {
        let placed = self.place(data, Widget::RadioButton, text);
        data.add_graphic(
            GuiCmd::RadioButton { checked, interact: placed.interact, rect: placed.rect },
        );
        add_text(data, placed.text_pos, placed.fragments);
        response(placed.interact)
    }
}

impl Region {
    /// Whether a foldable with `text` can be placed: see
    /// [`SpecRegion::foldable_fits`].
    pub fn can_fold(&self, data: &Data, text: &str) -> (b: bool)
        ensures
            b == self@.foldable_fits(data@, text@),
    {
        match self.dir() {
            Direction::Horizontal => { return false; },
            Direction::Vertical => {},
        }
        if !self.can_add(data, Widget::FoldableHeader, text) {
            return false;
        }
        let id = self.make_child_id(text);
        let text_size = match measure_text(data.font(), text) {
            Some(size) => size,
            None => { return false; },
        };
        let size = self.widget_size(data.options(), Widget::FoldableHeader, text_size);
        let rect = Rect { pos: self.cursor(), size: Vec2 { x: size.0 as i32, y: size.1 as i32 } };
        let clicked = rect.contains(data.input().mouse_pos) && data.input().mouse_clicked;
        let open = data.memory().is_open(id) != clicked;
        if !open {
            return true;
        }
        let indent: i64 = data.options().indent as i64;
        in_scalar_range(self.cursor().x as i64 + indent) && in_scalar_range(
            self.available_space().x as i64 - indent,
        )
    }

    /// A header that a click folds and unfolds. Where the foldable is
    /// open, the child region for its contents comes back with the answer;
    /// when it is filled, hand it to [`Region::end_indent`].
    pub fn foldable(&mut self, data: &mut Data, text: &str) -> (folded: (GuiResponse, Option<Region>))
        requires
            old(self)@.foldable_fits(old(data)@, text@),
        ensures
            final(self)@ == old(self)@.with_widget(old(data)@, Widget::FoldableHeader, text@),
            folded.0.interact() == old(data)@.widget_interaction(
                old(self)@,
                Widget::FoldableHeader,
                text@,
            ),
            final(data)@ == (SpecData {
                memory: old(data)@.foldable_memory(old(self)@, text@),
                ..old(data)@
            }).push(
                SpecCmd::FoldableHeader {
                    rect: old(self)@.widget_rect(old(data)@, Widget::FoldableHeader, text@),
                    interact: folded.0.interact(),
                    open: old(data)@.foldable_open(old(self)@, text@),
                },
            ).extend(old(data)@.widget_text(old(self)@, Widget::FoldableHeader, text@)),
            folded.1 is Some <==> old(data)@.foldable_open(old(self)@, text@),
            folded.1 matches Some(child) ==> child@ == old(self)@.foldable_child(
                old(data)@,
                text@,
            ),
    {
        let id = self.make_child_id(text);
        let placed = self.place(data, Widget::FoldableHeader, text);
        let open = data.toggle_foldable(placed.interact.clicked, id);
        data.add_graphic(
            GuiCmd::FoldableHeader { interact: placed.interact, rect: placed.rect, open },
        );
        add_text(data, placed.text_pos, placed.fragments);
        let child = if open {
            let mut child = self.indent(data);
            child.set_id(id);
            Some(child)
        } else {
            None
        };
        (response(placed.interact), child)
    }

    /// Whether a slider can be placed: see [`SpecRegion::slider_fits`].
    pub fn can_slide(&self, data: &Data) -> (b: bool)
        ensures
            b == self@.slider_fits(data@),
    {
        self.can_reserve(
            data,
            Vec2 { x: self.available_space().x, y: data.font().line_spacing() },
        )
    }

    /// A slider without a label, named by `id` among its siblings. While
    /// it is the active widget, `value` follows the pointer between `min`
    /// at the left end of the track and `max` at the right end.
    pub fn naked_slider_f32(
        &mut self,
        data: &mut Data,
        id: &str,
        value: &mut i32,
        min: i32,
        max: i32,
    ) -> (response: GuiResponse)
        requires
            min <= max,
            old(self)@.slider_fits(old(data)@),
        ensures
            final(self)@ == old(self)@.with_slider(old(data)@),
            response.interact() == old(data)@.interaction(
                old(self)@.slider_rect(old(data)@),
                Some(spec_child_id(old(self)@.id, text_key(id@))),
            ),
            *final(value) == old(data)@.slider_value(
                old(self)@.slider_rect(old(data)@),
                response.active,
                *old(value) as int,
                min as int,
                max as int,
            ),
            response.active ==> min <= *final(value) <= max,
            final(data)@ == old(data)@.interacted(
                old(self)@.slider_rect(old(data)@),
                Some(spec_child_id(old(self)@.id, text_key(id@))),
            ).push(
                SpecCmd::Slider {
                    rect: old(self)@.slider_rect(old(data)@),
                    interact: response.interact(),
                    min: min as int,
                    max: max as int,
                    value: *final(value) as int,
                },
            ),
    {
        let id = self.make_child_id(id);
        let size = Vec2 { x: self.available_space().x, y: data.font().line_spacing() };
        let (slider_rect, interact) = self.reserve_space(data, size, Some(id));
        if interact.active {
            let left: i64 = slider_rect.pos.x as i64;
            proof {
                lemma_remap_clamp_bounds(
                    data@.input.mouse_pos.x as int,
                    left as int,
                    left + slider_rect.size.x,
                    min as int,
                    max as int,
                );
            }
            *value = remap_clamp(
                data.input().mouse_pos.x as i64,
                left,
                left + slider_rect.size.x as i64,
                min,
                max,
            );
        }
        data.add_graphic(GuiCmd::Slider { interact, max, min, rect: slider_rect, value: *value });
        response(interact)
    }

    /// Whether a slider with its label can be placed: see
    /// [`SpecRegion::labeled_slider_fits`].
    pub fn can_slide_labeled(&self, data: &Data, text: &str, value: i32) -> (b: bool)
        ensures
            b == self@.labeled_slider_fits(data@, text@, value as int),
    {
        if !self.can_columns(data, 2) {
            return false;
        }
        let mut columns = self.columns(data, 2);
        proof {
            assert(regions_view(columns@).len() == 2);
            assert(regions_view(columns@)[0] == columns@[0]@);
            assert(regions_view(columns@)[1] == columns@[1]@);
        }
        let mut right = columns.remove(1);
        let mut left = columns.remove(0);
        let label = format_slider_label(text, value);
        if !right.can_add(data, Widget::Label, label.as_str()) || !left.can_slide(data) {
            return false;
        }
        let text_size = match measure_text(data.font(), label.as_str()) {
            Some(size) => size,
            None => { return false; },
        };
        let spacing = data.options().item_spacing;
        right.reserve_space_inner(text_size, spacing);
        left.reserve_space_inner(
            Vec2 { x: left.available_space().x, y: data.font().line_spacing() },
            spacing,
        );
        let mut filled: Vec<Region> = Vec::new();
        filled.push(left);
        filled.push(right);
        proof {
            assert(regions_view(filled@) =~= self@.filled_slider_columns(
                data@,
                text@,
                value as int,
            ));
        }
        self.can_end_columns(data, &filled)
    }

    /// A slider with its name and value written to the right of it.
    pub fn slider_f32(
        &mut self,
        data: &mut Data,
        text: &str,
        value: &mut i32,
        min: i32,
        max: i32,
    ) -> (response: GuiResponse)
        requires
            min <= max,
            old(self)@.labeled_slider_fits(old(data)@, text@, *old(value) as int),
        ensures
            final(self)@ == old(self)@.with_labeled_slider(
                old(data)@,
                text@,
                *old(value) as int,
            ),
            response.interact() == old(data)@.interaction(
                old(self)@.slider_columns(old(data)@)[0].slider_rect(old(data)@),
                Some(spec_child_id(old(self)@.slider_columns(old(data)@)[0].id, text_key(text@))),
            ),
            *final(value) == old(data)@.slider_value(
                old(self)@.slider_columns(old(data)@)[0].slider_rect(old(data)@),
                response.active,
                *old(value) as int,
                min as int,
                max as int,
            ),
            response.active ==> min <= *final(value) <= max,
            final(data)@ == old(data)@.extend(
                old(data)@.widget_text(
                    old(self)@.slider_columns(old(data)@)[1],
                    Widget::Label,
                    slider_label(text@, *old(value) as int),
                ),
            ).interacted(
                old(self)@.slider_columns(old(data)@)[0].slider_rect(old(data)@),
                Some(spec_child_id(old(self)@.slider_columns(old(data)@)[0].id, text_key(text@))),
            ).push(
                SpecCmd::Slider {
                    rect: old(self)@.slider_columns(old(data)@)[0].slider_rect(old(data)@),
                    interact: response.interact(),
                    min: min as int,
                    max: max as int,
                    value: *final(value) as int,
                },
            ),
    {
        let mut columns = self.columns(data, 2);
        proof {
            assert(regions_view(columns@).len() == 2);
            assert(regions_view(columns@)[0] == columns@[0]@);
            assert(regions_view(columns@)[1] == columns@[1]@);
        }
        let mut right = columns.remove(1);
        let mut left = columns.remove(0);
        let label = format_slider_label(text, *value);
        right.label(data, label.as_str());
        let response = left.naked_slider_f32(data, text, value, min, max);
        let mut filled: Vec<Region> = Vec::new();
        filled.push(left);
        filled.push(right);
        proof {
            assert(regions_view(filled@) =~= old(self)@.filled_slider_columns(
                old(data)@,
                text@,
                *old(value) as int,
            ));
        }
        self.end_columns(data, &filled);
        response
    }
}

} // verus!
