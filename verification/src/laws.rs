//! What holds of the library as a whole, stated over the models that the
//! contracts of its functions use.

use vstd::prelude::*;
use crate::id::{spec_child_id, text_key, Id};
use crate::layout::{Direction, SpecData, SpecLayers, SpecMemory};
use crate::math::{lemma_remap_clamp_bounds, max_int, SpecRect, SpecVec2};
use crate::region::SpecRegion;
use crate::types::SpecCmd;
use crate::widgets::Widget;

verus! {

/// The id reached from `root` by following `path`, one key per generation.
pub open spec fn spec_path_id(root: Id, path: Seq<Seq<u8>>) -> Id
    decreases path.len(),
{
    if path.len() == 0 {
        root
    } else {
        spec_child_id(spec_path_id(root, path.drop_last()), path.last())
    }
}

/// An id depends on nothing but the parent's id and the key: the same
/// two give the same id, whenever and however often it is asked for.
pub proof fn lemma_child_id_stable(parent_a: Id, key_a: Seq<u8>, parent_b: Id, key_b: Seq<u8>)
    requires
        parent_a == parent_b,
        key_a.len() == key_b.len(),
        forall|i: int| 0 <= i < key_a.len() ==> key_a[i] == key_b[i],
    ensures
        spec_child_id(parent_a, key_a) == spec_child_id(parent_b, key_b),
{
    assert(key_a =~= key_b);
}

/// The same path of keys from the same root ends at the same id.
pub proof fn lemma_path_id_stable(root: Id, path_a: Seq<Seq<u8>>, path_b: Seq<Seq<u8>>)
    requires
        path_a.len() == path_b.len(),
        forall|i: int| 0 <= i < path_a.len() ==> path_a[i] =~= path_b[i],
    ensures
        spec_path_id(root, path_a) == spec_path_id(root, path_b),
{
    assert(path_a =~= path_b);
}

/// A widget named by a text has the same id in every frame: neither the
/// input nor what is remembered nor the region's cursor enters into it.
pub proof fn lemma_widget_id_stable(
    region_a: SpecRegion,
    region_b: SpecRegion,
    widget: Widget,
    text: Seq<char>,
)
    requires
        region_a.id == region_b.id,
    ensures
        region_a.widget_id(widget, text) == region_b.widget_id(widget, text),
{
}

/// At most one widget is active at a time.
pub proof fn lemma_one_active(memory: SpecMemory, a: Id, b: Id)
    requires
        memory.is_active(a),
        memory.is_active(b),
    ensures
        a == b,
{
}

/// A click on a widget takes the grab from whoever held it; without a
/// click the holder keeps it, whether or not the pointer is still over it.
pub proof fn lemma_click_reassigns(data: SpecData, rect: SpecRect, id: Id, other: Id)
    ensures
        data.clicked(rect) ==> data.interaction(rect, Some(id)).active,
        data.clicked(rect) && other != id ==> !data.interacted(rect, Some(id)).memory.is_active(
            other,
        ),
        !data.clicked(rect) ==> data.interacted(rect, Some(id)).memory == data.memory,
        !data.clicked(rect) ==> data.interaction(rect, Some(id)).active == data.memory.is_active(
            id,
        ),
        data.interacted(rect, None).memory == data.memory,
        !data.interaction(rect, None).active,
{
}

/// With the button up nothing is active, wherever the pointer is; with
/// the button down the grab is kept.
pub proof fn lemma_release_clears(memory: SpecMemory, id: Id)
    ensures
        !memory.release(false).is_active(id),
        memory.release(false).open_foldables == memory.open_foldables,
        memory.release(true) == memory,
{
}

/// The coordinate of `v` along a region's axis.
pub open spec fn along(dir: Direction, v: SpecVec2) -> int {
    match dir {
        Direction::Horizontal => v.x,
        Direction::Vertical => v.y,
    }
}

/// The coordinate of `v` across a region's axis.
pub open spec fn across(dir: Direction, v: SpecVec2) -> int {
    match dir {
        Direction::Horizontal => v.y,
        Direction::Vertical => v.x,
    }
}

/// The region after blocks of `sizes` have been placed one after another.
pub open spec fn reserve_all(
    region: SpecRegion,
    sizes: Seq<SpecVec2>,
    spacing: SpecVec2,
) -> SpecRegion
    decreases sizes.len(),
{
    if sizes.len() == 0 {
        region
    } else {
        reserve_all(region, sizes.drop_last(), spacing).reserve(sizes.last(), spacing)
    }
}

/// The sum of the extents of `sizes` along the axis, each with the spacing
/// that follows it.
pub open spec fn total_along(dir: Direction, sizes: Seq<SpecVec2>, spacing: SpecVec2) -> int
    decreases sizes.len(),
{
    if sizes.len() == 0 {
        0
    } else {
        total_along(dir, sizes.drop_last(), spacing) + along(dir, sizes.last()) + along(
            dir,
            spacing,
        )
    }
}

/// The largest extent of `sizes` across the axis, and at least `least`.
pub open spec fn widest_across(dir: Direction, sizes: Seq<SpecVec2>, least: int) -> int
    decreases sizes.len(),
{
    if sizes.len() == 0 {
        least
    } else {
        max_int(widest_across(dir, sizes.drop_last(), least), across(dir, sizes.last()))
    }
}

/// `widest_across` is the maximum: it is no smaller than `least` or any
/// extent, and it is one of them.
pub proof fn lemma_widest_is_max(dir: Direction, sizes: Seq<SpecVec2>, least: int)
    ensures
        least <= widest_across(dir, sizes, least),
        forall|i: int|
            0 <= i < sizes.len() ==> across(dir, #[trigger] sizes[i]) <= widest_across(
                dir,
                sizes,
                least,
            ),
        widest_across(dir, sizes, least) == least || exists|i: int|
            0 <= i < sizes.len() && across(dir, #[trigger] sizes[i]) == widest_across(
                dir,
                sizes,
                least,
            ),
    decreases sizes.len(),
{
    if sizes.len() > 0 {
        let before = sizes.drop_last();
        lemma_widest_is_max(dir, before, least);
        let widest = widest_across(dir, sizes, least);
        assert forall|i: int| 0 <= i < sizes.len() implies across(dir, #[trigger] sizes[i])
            <= widest by {
            if i < before.len() {
                assert(before[i] == sizes[i]);
            }
        }
        if widest != least {
            if widest == across(dir, sizes.last()) {
                assert(across(dir, sizes[sizes.len() - 1]) == widest);
            } else {
                let i = choose|i: int|
                    0 <= i < before.len() && across(dir, #[trigger] before[i]) == widest_across(
                        dir,
                        before,
                        least,
                    );
                assert(before[i] == sizes[i]);
                assert(across(dir, sizes[i]) == widest);
            }
        }
    }
}

/// After any number of reservations in a region,
/// along its axis the cursor has moved by the sum of the blocks and of
/// one spacing for each, and the room left has shrunk by as much; across
/// its axis nothing has moved, and the bounding box is as large as the
/// largest block. Along the axis the bounding box ends with the last
/// block, before the spacing that follows it.
pub proof fn lemma_layout_accounting(region: SpecRegion, sizes: Seq<SpecVec2>, spacing: SpecVec2)
    ensures
        ({
            let dir = region.dir;
            let end = reserve_all(region, sizes, spacing);
            let total = total_along(dir, sizes, spacing);
            &&& end.dir == dir
            &&& end.id == region.id
            &&& end.origin == region.origin
            &&& along(dir, end.cursor) - along(dir, region.cursor) == total
            &&& across(dir, end.cursor) == across(dir, region.cursor)
            &&& along(dir, end.available_space) == along(dir, region.available_space) - total
            &&& across(dir, end.available_space) == across(dir, region.available_space)
            &&& across(dir, end.bounding_size) == widest_across(
                dir,
                sizes,
                across(dir, region.bounding_size),
            )
            &&& sizes.len() > 0 ==> along(dir, end.bounding_size) == along(dir, region.cursor)
                - along(dir, region.origin) + total - along(dir, spacing)
        }),
    decreases sizes.len(),
{
    if sizes.len() > 0 {
        lemma_layout_accounting(region, sizes.drop_last(), spacing);
    }
}

/// In a region that started empty, the bounding box is
/// as wide as the widest block across the axis, and along the axis as long
/// as the blocks and the spacing between them.
pub proof fn lemma_fresh_layout_accounting(
    id: Id,
    dir: Direction,
    cursor: SpecVec2,
    available_space: SpecVec2,
    sizes: Seq<SpecVec2>,
    spacing: SpecVec2,
)
    requires
        sizes.len() > 0,
    ensures
        ({
            let start = SpecRegion::fresh(id, dir, cursor, available_space);
            let end = reserve_all(start, sizes, spacing);
            &&& along(dir, end.cursor) - along(dir, cursor) == total_along(dir, sizes, spacing)
            &&& across(dir, end.bounding_size) == widest_across(dir, sizes, 0)
            &&& along(dir, end.bounding_size) == total_along(dir, sizes, spacing) - along(
                dir,
                spacing,
            )
        }),
{
    lemma_layout_accounting(SpecRegion::fresh(id, dir, cursor, available_space), sizes, spacing);
}

/// A click on the header of a closed foldable opens
/// it, a click on the header of an open one closes it, and without a
/// click it stays as it is; no other foldable is touched. Two clicks
/// leave the set of open foldables as it was. The child region of an open
/// foldable is rooted at the foldable's id, which is the same in every
/// frame.
pub proof fn lemma_foldable_toggles(data: SpecData, region: SpecRegion, text: Seq<char>, other: Id)
    ensures
        ({
            let id = spec_child_id(region.id, text_key(text));
            let rect = region.widget_rect(data, Widget::FoldableHeader, text);
            let was_open = data.memory.open_foldables.contains(id);
            let after = data.foldable_memory(region, text);
            &&& data.clicked(rect) ==> data.foldable_open(region, text) == !was_open
            &&& !data.clicked(rect) ==> data.foldable_open(region, text) == was_open
            &&& other != id ==> after.open_foldables.contains(other)
                == data.memory.open_foldables.contains(other)
            &&& data.memory.toggle(true, id).toggle(true, id).open_foldables
                == data.memory.open_foldables
            &&& region.foldable_child(data, text).id == id
        }),
{
    let id = spec_child_id(region.id, text_key(text));
    assert(data.memory.toggle(true, id).toggle(true, id).open_foldables
        =~= data.memory.open_foldables);
}

/// A foldable that a click has opened is open in every later frame in
/// which its header is not clicked, as long as the region that holds it
/// has the same id and nothing else has changed the set of open foldables.
pub proof fn lemma_foldable_stays_open(
    data: SpecData,
    region: SpecRegion,
    later: SpecData,
    later_region: SpecRegion,
    text: Seq<char>,
)
    requires
        data.foldable_open(region, text),
        later.memory.open_foldables == data.foldable_memory(region, text).open_foldables,
        later_region.id == region.id,
        !later.input.mouse_clicked,
    ensures
        later.foldable_open(later_region, text),
        later_region.foldable_child(later, text).id == region.foldable_child(data, text).id,
{
}

/// The value bound to a checkbox after the frames `frames`, in each of
/// which the checkbox reserved `rect`.
pub open spec fn checked_after(checked: bool, frames: Seq<SpecData>, rect: SpecRect) -> bool
    decreases frames.len(),
{
    if frames.len() == 0 {
        checked
    } else {
        checked_after(checked, frames.drop_last(), rect) != frames.last().clicked(rect)
    }
}

/// However many frames the button is held
/// down, the value flips only in the frame in which the button went down,
/// and only if the pointer was over the checkbox then.
pub proof fn lemma_checkbox_flips_once(checked: bool, frames: Seq<SpecData>, rect: SpecRect)
    requires
        frames.len() > 0,
        forall|k: int| 1 <= k < frames.len() ==> !(#[trigger] frames[k]).input.mouse_clicked,
    ensures
        checked_after(checked, frames, rect) == (checked != frames[0].clicked(rect)),
    decreases frames.len(),
{
    if frames.len() > 1 {
        let before = frames.drop_last();
        assert(before[0] == frames[0]);
        assert forall|k: int| 1 <= k < before.len() implies !(
        #[trigger] before[k]).input.mouse_clicked by {
            assert(before[k] == frames[k]);
        }
        lemma_checkbox_flips_once(checked, before, rect);
        assert(!frames[frames.len() - 1].input.mouse_clicked);
    } else {
        assert(frames.drop_last().len() == 0);
        assert(checked_after(checked, frames.drop_last(), rect) == checked);
    }
}

/// While a slider is active its value lies between
/// `min` and `max`: it is `min` with the pointer at the left end of the
/// track or left of it, and `max` with the pointer at the right end or
/// right of it. A slider that is not active keeps its value.
pub proof fn lemma_slider_clamps(data: SpecData, rect: SpecRect, value: int, min: int, max: int)
    requires
        min <= max,
    ensures
        min <= data.slider_value(rect, true, value, min, max) <= max,
        data.input.mouse_pos.x <= rect.min().x ==> data.slider_value(rect, true, value, min, max)
            == min,
        rect.min().x < data.input.mouse_pos.x && rect.max().x <= data.input.mouse_pos.x
            ==> data.slider_value(rect, true, value, min, max) == max,
        data.slider_value(rect, false, value, min, max) == value,
{
    lemma_remap_clamp_bounds(data.input.mouse_pos.x as int, rect.min().x, rect.max().x, min, max);
}

/// Once a popup is shown, whatever the base layer gets
/// afterwards, the drained sequence holds every command of the base layer
/// before the popup's window, and the window before the popup's contents,
/// which keep their order.
pub proof fn lemma_popup_after_base(
    layers: SpecLayers,
    mark: nat,
    window: SpecCmd,
    later: Seq<SpecCmd>,
)
    requires
        mark <= layers.base.len(),
    ensures
        ({
            let contents = layers.base.skip(mark as int);
            let at_drain = layers.raise(mark, window).extend(later);
            let drained = at_drain.drained();
            let first = (at_drain.base.len() + layers.overlay.len()) as int;
            &&& at_drain.base == layers.base.take(mark as int) + later
            &&& drained.len() == first + 1 + contents.len()
            &&& forall|i: int| 0 <= i < at_drain.base.len() ==> drained[i] == at_drain.base[i]
            &&& drained[first] == window
            &&& forall|j: int|
                0 <= j < contents.len() ==> drained[first + 1 + j] == #[trigger] contents[j]
        }),
{
}

} // verus!
