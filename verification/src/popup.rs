//! Popups. A popup is laid out like any other content, in a region of its
//! own, and then lifted out of the base layer into the overlay, behind a
//! window background, so that it is painted over everything else.

use vstd::prelude::*;
use crate::layout::{Data, Direction, GuiResponse, LayoutOptions, SpecData};
use crate::math::{in_scalar_range, Rect, SpecRect, SpecVec2, Vec2};
use crate::region::{Region, SpecRegion};
use crate::types::{GuiCmd, SpecCmd};
use crate::widgets::Widget;

verus! {

/// The width that the contents of a popup may take up.
pub const POPUP_WIDTH: i32 = 400;

/// How far a tooltip stands from the pointer, on both axes.
pub const TOOLTIP_OFFSET: i32 = 16;

/// The view of a [`Popup`].
pub ghost struct SpecPopup {
    /// The top left corner of the popup's window.
    pub window_pos: SpecVec2,
    /// How many commands the base layer held when the popup was begun.
    pub mark: nat,
    /// The region in which the popup's contents are laid out.
    pub region: SpecRegion,
}

impl SpecPopup {
    /// The window behind the contents: the box that they fill, with the
    /// window padding on every side.
    pub open spec fn window(self, options: LayoutOptions) -> SpecRect {
        SpecRect {
            pos: self.window_pos,
            size: self.region.bounding_size.plus(options.window_padding@.times(2)),
        }
    }
}

impl SpecData {
    /// A popup begun at `window_pos`: its region is a root of its own,
    /// apart from whatever is being laid out around it.
    pub open spec fn popup(self, window_pos: SpecVec2) -> SpecPopup {
        SpecPopup {
            window_pos,
            mark: self.layers.base.len(),
            region: SpecRegion::fresh(
                0,
                Direction::Vertical,
                window_pos.plus(self.options.window_padding@),
                SpecVec2 { x: POPUP_WIDTH as int, y: i32::MAX as int },
            ),
        }
    }

    /// The frame after `popup` has been shown: what the base layer got
    /// since the popup was begun now stands in the overlay, behind the
    /// popup's window.
    pub open spec fn show(self, popup: SpecPopup) -> SpecData {
        SpecData {
            layers: self.layers.raise(
                popup.mark,
                SpecCmd::Window { rect: popup.window(self.options) },
            ),
            ..self
        }
    }

    /// Where the tooltip of a widget stands: a little below and to the
    /// right of the pointer.
    pub open spec fn tooltip_pos(self) -> SpecVec2 {
        SpecVec2 {
            x: self.input.mouse_pos.x + TOOLTIP_OFFSET,
            y: self.input.mouse_pos.y + TOOLTIP_OFFSET,
        }
    }

    /// Whether a tooltip can be begun beside the pointer.
    pub open spec fn tooltip_fits(self) -> bool {
        self.tooltip_pos().fits() && self.popup(self.tooltip_pos()).region.fits()
    }

    /// The popup of a tooltip that holds one label, once the label is placed.
    pub open spec fn text_tooltip(self, text: Seq<char>) -> SpecPopup {
        let popup = self.popup(self.tooltip_pos());
        SpecPopup { region: popup.region.with_widget(self, Widget::Label, text), ..popup }
    }

    /// Whether a tooltip with `text` can be shown.
    pub open spec fn text_tooltip_fits(self, text: Seq<char>) -> bool {
        let popup = self.popup(self.tooltip_pos());
        &&& self.tooltip_fits()
        &&& popup.region.widget_fits(self, Widget::Label, text)
        &&& self.text_tooltip(text).window(self.options).size.fits()
    }

    /// The frame after a tooltip with `text` has been shown.
    pub open spec fn with_text_tooltip(self, text: Seq<char>) -> SpecData {
        let popup = self.popup(self.tooltip_pos());
        self.extend(self.widget_text(popup.region, Widget::Label, text)).show(
            self.text_tooltip(text),
        )
    }
}

/// A popup that has been begun and not yet shown.
#[derive(Debug)]
pub struct Popup {
    /// The top left corner of the popup's window.
    pub window_pos: Vec2,
    /// How many commands the base layer held when the popup was begun.
    pub num_graphics_before: usize,
    /// Lay the popup's contents out in here.
    pub region: Region,
}

impl View for Popup {
    type V = SpecPopup;

    open spec fn view(&self) -> SpecPopup {
        SpecPopup {
            window_pos: self.window_pos@,
            mark: self.num_graphics_before as nat,
            region: self.region@,
        }
    }
}

impl Popup {
    /// Whether [`show_popup`] can show this popup.
    pub fn can_show(&self, data: &Data) -> (b: bool)
        ensures
            b == self@.window(data@.options).size.fits(),
    {
        let padding = data.options().window_padding;
        let size = self.region.bounding_size();
        in_scalar_range(size.x as i64 + padding.x as i64 * 2) && in_scalar_range(
            size.y as i64 + padding.y as i64 * 2,
        )
    }
}

/// Whether [`begin_popup`] can begin a popup at `window_pos`.
pub fn can_begin_popup(data: &Data, window_pos: Vec2) -> (b: bool)
    ensures
        b == data@.popup(window_pos@).region.fits(),
{
    window_pos.can_plus(data.options().window_padding)
}

/// Begins a pop-over window with its top left corner at `window_pos`.
/// Lay its contents out in the popup's region, then call [`show_popup`].
pub fn begin_popup(data: &Data, window_pos: Vec2) -> (popup: Popup)
    requires
        data@.popup(window_pos@).region.fits(),
    ensures
        popup@ == data@.popup(window_pos@),
{
    let window_padding = data.options().window_padding;
    Popup {
        window_pos,
        num_graphics_before: data.graphics().num_base(),
        region: Region::new(
            0,
            Direction::Vertical,
            window_pos.plus(window_padding),
            Vec2 { x: POPUP_WIDTH, y: i32::MAX },
        ),
    }
}

/// Show a pop-over window: lifts what was drawn since the popup was begun
/// into the overlay, behind a window that frames it.
pub fn show_popup(data: &mut Data, popup: &Popup)
    requires
        popup@.window(old(data)@.options).size.fits(),
    ensures
        final(data)@ == old(data)@.show(popup@),
{
    let window_padding = data.options().window_padding;
    let inner_size = popup.region.bounding_size();
    let outer_size = Vec2 {
        x: (inner_size.x as i64 + window_padding.x as i64 * 2) as i32,
        y: (inner_size.y as i64 + window_padding.y as i64 * 2) as i32,
    };
    let rect = Rect::from_min_size(popup.window_pos, outer_size);
    data.raise(popup.num_graphics_before, GuiCmd::Window { rect });
}

impl GuiResponse {
    /// Whether [`GuiResponse::tooltip`] can begin the tooltip.
    pub fn can_tooltip(&self, data: &Data) -> (b: bool)
        ensures
            b == (self.hovered ==> data@.tooltip_fits()),
    {
        if !self.hovered {
            return true;
        }
        let mouse_pos = data.input().mouse_pos;
        let padding = data.options().window_padding;
        let x: i64 = mouse_pos.x as i64 + TOOLTIP_OFFSET as i64;
        let y: i64 = mouse_pos.y as i64 + TOOLTIP_OFFSET as i64;
        in_scalar_range(x) && in_scalar_range(y) && in_scalar_range(x + padding.x as i64)
            && in_scalar_range(y + padding.y as i64)
    }

    /// Show some stuff if the item was hovered: begins a popup beside the
    /// pointer. Lay the tooltip out in its region, then call [`show_popup`].
    pub fn tooltip(&self, data: &Data) -> (popup: Option<Popup>)
        requires
            self.hovered ==> data@.tooltip_fits(),
        ensures
            popup is Some <==> self.hovered,
            popup matches Some(p) ==> p@ == data@.popup(data@.tooltip_pos()),
    {
        if self.hovered {
            let mouse_pos = data.input().mouse_pos;
            let window_pos = Vec2 {
                x: mouse_pos.x + TOOLTIP_OFFSET,
                y: mouse_pos.y + TOOLTIP_OFFSET,
            };
            Some(begin_popup(data, window_pos))
        } else {
            None
        }
    }

    /// Whether [`GuiResponse::tooltip_text`] can show `text`.
    pub fn can_tooltip_text(&self, data: &Data, text: &str) -> (b: bool)
        ensures
            b == (self.hovered ==> data@.text_tooltip_fits(text@)),
    {
        if !self.hovered {
            return true;
        }
        if !self.can_tooltip(data) {
            return false;
        }
        match self.tooltip(data) {
            Some(mut popup) => {
                if !popup.region.can_add(data, Widget::Label, text) {
                    return false;
                }
                let text_size = match crate::text::measure_text(data.font(), text) {
                    Some(size) => size,
                    None => { return false; },
                };
                popup.region.reserve_space_inner(text_size, data.options().item_spacing);
                popup.can_show(data)
            },
            None => true,
        }
    }

    /// Show this text if the item was hovered.
    pub fn tooltip_text(&self, data: &mut Data, text: &str)
        requires
            self.hovered ==> old(data)@.text_tooltip_fits(text@),
        ensures
            final(data)@ == if self.hovered {
                old(data)@.with_text_tooltip(text@)
            } else {
                old(data)@
            },
    {
        match self.tooltip(data) {
            Some(mut popup) => {
                popup.region.label(data, text);
                show_popup(data, &popup);
            },
            None => {},
        }
    }
}

} // verus!
