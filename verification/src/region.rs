//! Regions: the cursors that place widgets. A region hands out space along
//! one axis, remembers how much it has used, and tests each reserved
//! rectangle against the pointer.

use vstd::prelude::*;
use crate::id::{indexed_child_id, spec_indexed_child_id, text_key, Id};
use crate::layout::{Data, Direction, LayoutOptions, SpecData};
use crate::math::{floor_div, in_scalar_range, is_scalar, max_int, Rect, SpecRect, SpecVec2, Vec2};
use crate::types::{GuiCmd, GuiInput, InteractInfo};

verus! {

/// The view of a [`Region`].
pub ghost struct SpecRegion {
    /// The root of the ids of the widgets placed in this region.
    pub id: Id,
    /// The axis along which the cursor moves.
    pub dir: Direction,
    /// Where the cursor started.
    pub origin: SpecVec2,
    /// Where the next widget goes.
    pub cursor: SpecVec2,
    /// The box that the widgets placed so far fill, measured from `origin`.
    pub bounding_size: SpecVec2,
    /// How much room is left before the region overflows its parent.
    pub available_space: SpecVec2,
}

impl SpecRegion {
    /// A region in which nothing has been placed yet.
    pub open spec fn fresh(
        id: Id,
        dir: Direction,
        cursor: SpecVec2,
        available_space: SpecVec2,
    ) -> SpecRegion {
        SpecRegion {
            id,
            dir,
            origin: cursor,
            cursor,
            bounding_size: SpecVec2::zero(),
            available_space,
        }
    }

    /// Every coordinate can be held in a scalar.
    pub open spec fn fits(self) -> bool {
        &&& self.origin.fits()
        &&& self.cursor.fits()
        &&& self.bounding_size.fits()
        &&& self.available_space.fits()
    }

    /// The region after a block of `size` has been placed at its cursor.
    ///
    /// Along the region's own axis the cursor moves on by the block and the
    /// spacing, the room left shrinks by as much, and the bounding box
    /// reaches to the far edge of the block. Across the axis nothing moves,
    /// and the bounding box is as large as the largest block so far.
    pub open spec fn reserve(self, size: SpecVec2, spacing: SpecVec2) -> SpecRegion {
        match self.dir {
            Direction::Horizontal => SpecRegion {
                cursor: SpecVec2 { x: self.cursor.x + size.x + spacing.x, y: self.cursor.y },
                available_space: SpecVec2 {
                    x: self.available_space.x - (size.x + spacing.x),
                    y: self.available_space.y,
                },
                bounding_size: SpecVec2 {
                    x: self.cursor.x - self.origin.x + size.x,
                    y: max_int(self.bounding_size.y, size.y),
                },
                ..self
            },
            Direction::Vertical => SpecRegion {
                cursor: SpecVec2 { x: self.cursor.x, y: self.cursor.y + size.y + spacing.y },
                available_space: SpecVec2 {
                    x: self.available_space.x,
                    y: self.available_space.y - (size.y + spacing.y),
                },
                bounding_size: SpecVec2 {
                    x: max_int(self.bounding_size.x, size.x),
                    y: self.cursor.y - self.origin.y + size.y,
                },
                ..self
            },
        }
    }
}

/// The key that the columns of a region share.
pub open spec fn column_key() -> Seq<u8> {
    text_key("column"@)
}

/// The height of the tallest of `columns`.
pub open spec fn max_height(columns: Seq<SpecRegion>) -> int
    decreases columns.len(),
{
    if columns.len() == 0 {
        0
    } else {
        max_int(max_height(columns.drop_last()), columns.last().bounding_size.y)
    }
}

impl SpecRegion {
    /// The empty child region that stands `indent` to the right of the
    /// cursor and is as much narrower.
    pub open spec fn indented(self, indent: int) -> SpecRegion {
        SpecRegion::fresh(
            self.id,
            self.dir,
            SpecVec2 { x: self.cursor.x + indent, y: self.cursor.y },
            SpecVec2 { x: self.available_space.x - indent, y: self.available_space.y },
        )
    }

    /// The block that an indented child takes up in its parent.
    pub open spec fn indent_block(indent: int, child: SpecRegion) -> SpecVec2 {
        SpecVec2 { x: indent + child.bounding_size.x, y: child.bounding_size.y }
    }

    /// The empty child region that starts at the cursor and runs from left
    /// to right.
    pub open spec fn horizontal(self) -> SpecRegion {
        SpecRegion::fresh(self.id, Direction::Horizontal, self.cursor, self.available_space)
    }

    /// The width of each of `n` columns: an even share of what is left of
    /// the width after the spacing between them.
    pub open spec fn column_width(self, spacing: int, n: int) -> int {
        (self.available_space.x - (n - 1) * spacing) / n
    }

    /// The `i`-th of `n` columns, empty.
    pub open spec fn column(self, spacing: int, n: int, i: int) -> SpecRegion {
        let width = self.column_width(spacing, n);
        SpecRegion::fresh(
            spec_indexed_child_id(self.id, column_key(), i as u64),
            Direction::Vertical,
            SpecVec2 { x: self.cursor.x + i * (width + spacing), y: self.cursor.y },
            SpecVec2 { x: width, y: self.available_space.y },
        )
    }

    /// All `n` columns, from left to right.
    pub open spec fn columns(self, spacing: int, n: nat) -> Seq<SpecRegion> {
        Seq::new(n, |i: int| self.column(spacing, n as int, i))
    }

    /// Whether `n` can be counted in a scalar and each of `n` columns fits.
    pub open spec fn columns_fit(self, spacing: int, n: nat) -> bool {
        &&& is_scalar(n as int)
        &&& n > 0 ==> self.column(spacing, n as int, 0).fits() && self.column(
            spacing,
            n as int,
            n - 1,
        ).fits()
    }

    /// The block that a row of columns takes up in its parent: the whole
    /// width, and the height of the tallest column.
    pub open spec fn columns_block(self, columns: Seq<SpecRegion>) -> SpecVec2 {
        SpecVec2 { x: self.available_space.x, y: max_height(columns) }
    }

    /// The empty child region of the given width that is centred in the
    /// width that is left.
    pub open spec fn centered(self, width: int) -> SpecRegion {
        SpecRegion::fresh(
            self.id,
            self.dir,
            SpecVec2 { x: (self.available_space.x - width) / 2, y: self.cursor.y },
            SpecVec2 { x: width, y: self.available_space.y },
        )
    }
}

/// The views of a sequence of regions, in the same order.
pub open spec fn regions_view(regions: Seq<Region>) -> Seq<SpecRegion> {
    regions.map_values(|r: Region| r@)
}

impl SpecData {
    /// Whether the pointer is over `rect`.
    pub open spec fn hovered(self, rect: SpecRect) -> bool {
        rect.contains(self.input.mouse_pos@)
    }

    /// Whether the button went down over `rect` in this frame.
    pub open spec fn clicked(self, rect: SpecRect) -> bool {
        self.hovered(rect) && self.input.mouse_clicked
    }

    /// The frame after a widget has reserved `rect`: a click on a widget
    /// with an id makes it the active one.
    pub open spec fn interacted(self, rect: SpecRect, interaction_id: Option<Id>) -> SpecData {
        match interaction_id {
            Some(id) => SpecData { memory: self.memory.click(self.clicked(rect), id), ..self },
            None => self,
        }
    }

    /// What a widget that reserves `rect` learns of the pointer. A widget
    /// without an id is never active; one with an id is active as long as
    /// it holds the grab, wherever the pointer is.
    pub open spec fn interaction(self, rect: SpecRect, interaction_id: Option<Id>) -> InteractInfo {
        InteractInfo {
            hovered: self.hovered(rect),
            clicked: self.clicked(rect),
            active: match interaction_id {
                Some(id) => self.interacted(rect, interaction_id).memory.is_active(id),
                None => false,
            },
        }
    }
}

/// Represents a region of the screen with a type of layout (horizontal or
/// vertical). It lives for one frame, and no longer than the call that
/// made it.
#[derive(Debug)]
pub struct Region {
    /// Unique id of this region.
    id: Id,
    /// Doesn't change.
    dir: Direction,
    /// Where the cursor started.
    origin: Vec2,
    /// Changes only along `dir`.
    cursor: Vec2,
    /// Bounding box of the children.
    bounding_size: Vec2,
    /// How much space we can take up without overflowing our parent.
    /// Shrinks as the cursor moves.
    available_space: Vec2,
}

impl View for Region {
    type V = SpecRegion;

    closed spec fn view(&self) -> SpecRegion {
        SpecRegion {
            id: self.id,
            dir: self.dir,
            origin: self.origin@,
            cursor: self.cursor@,
            bounding_size: self.bounding_size@,
            available_space: self.available_space@,
        }
    }
}

impl Region {
    /// An empty region that starts at `cursor`.
    pub fn new(id: Id, dir: Direction, cursor: Vec2, available_space: Vec2) -> (region: Region)
        ensures
            region@ == SpecRegion::fresh(id, dir, cursor@, available_space@),
    {
        Region { id, dir, origin: cursor, cursor, bounding_size: Vec2 { x: 0, y: 0 }, available_space }
    }

    /// The coordinates of every region are scalars.
    pub proof fn lemma_fits(&self)
        ensures
            self@.fits(),
    {
    }

    pub fn id(&self) -> (id: Id)
        ensures
            id == self@.id,
    {
        self.id
    }

    pub fn dir(&self) -> (dir: Direction)
        ensures
            dir == self@.dir,
    {
        self.dir
    }

    pub fn cursor(&self) -> (cursor: Vec2)
        ensures
            cursor@ == self@.cursor,
    {
        self.cursor
    }

    pub fn bounding_size(&self) -> (size: Vec2)
        ensures
            size@ == self@.bounding_size,
    {
        self.bounding_size
    }

    pub fn available_space(&self) -> (space: Vec2)
        ensures
            space@ == self@.available_space,
    {
        self.available_space
    }

    pub fn options<'a>(&self, data: &'a Data) -> (options: &'a LayoutOptions)
        ensures
            *options == data@.options,
    {
        data.options()
    }

    pub fn input<'a>(&self, data: &'a Data) -> (input: &'a GuiInput)
        ensures
            *input == data@.input,
    {
        data.input()
    }

    /// It is up to the caller to make sure there is room for this.
    /// Can be used for free painting.
    /// NOTE: all coordinates are screen coordinates!
    pub fn add_graphic(&self, data: &mut Data, gui_cmd: GuiCmd)
        ensures
            final(data)@ == old(data)@.push(gui_cmd@),
    {
        data.add_graphic(gui_cmd);
    }

    /// Whether a block of `size` can be placed with every coordinate of
    /// the region still a scalar afterwards.
    pub fn can_reserve(&self, data: &Data, size: Vec2) -> (b: bool)
        ensures
            b == self@.reserve(size@, data@.options.item_spacing@).fits(),
    {
        self.can_advance(size.x as i64, size.y as i64, data.options().item_spacing)
    }

    /// Reserves `size` at the cursor and tests the rectangle against the
    /// pointer. With an id the widget can become, and stay, the active one.
    pub fn reserve_space(
        &mut self,
        data: &mut Data,
        size: Vec2,
        interaction_id: Option<Id>,
    ) -> (reserved: (Rect, InteractInfo))
        requires
            old(self)@.reserve(size@, old(data)@.options.item_spacing@).fits(),
        ensures
            final(self)@ == old(self)@.reserve(size@, old(data)@.options.item_spacing@),
            reserved.0@ == (SpecRect { pos: old(self)@.cursor, size: size@ }),
            reserved.1 == old(data)@.interaction(reserved.0@, interaction_id),
            final(data)@ == old(data)@.interacted(reserved.0@, interaction_id),
    {
        let rect = Rect { pos: self.cursor, size };
        let spacing = data.options().item_spacing;
        self.reserve_space_inner(size, spacing);
        let hovered = rect.contains(data.input().mouse_pos);
        let clicked = hovered && data.input().mouse_clicked;
        let active = match interaction_id {
            Some(id) => data.resolve_active(clicked, id),
            None => false,
        };
        let interact = InteractInfo { hovered, clicked, active };
        (rect, interact)
    }

    /// Makes `id` the root of the ids of what is placed from now on.
    pub fn set_id(&mut self, id: Id)
        ensures
            final(self)@ == (SpecRegion { id, ..old(self)@ }),
    {
        self.id = id;
    }

    /// Whether an indented child region can be made.
    pub fn can_indent(&self, data: &Data) -> (b: bool)
        ensures
            b == self@.indented(data@.options.indent as int).fits(),
    {
        let indent: i64 = data.options().indent as i64;
        in_scalar_range(self.cursor.x as i64 + indent) && in_scalar_range(
            self.available_space.x as i64 - indent,
        )
    }

    /// Create a child region which is indented to the right. When the
    /// child is filled, hand it to [`Region::end_indent`].
    pub fn indent(&self, data: &Data) -> (child: Region)
        requires
            self@.indented(data@.options.indent as int).fits(),
        ensures
            child@ == self@.indented(data@.options.indent as int),
    {
        let indent: i32 = data.options().indent;
        Region::new(
            self.id,
            self.dir,
            Vec2 { x: self.cursor.x + indent, y: self.cursor.y },
            Vec2 { x: self.available_space.x - indent, y: self.available_space.y },
        )
    }

    /// Whether [`Region::end_indent`] can take `child` in.
    pub fn can_end_indent(&self, data: &Data, child: &Region) -> (b: bool)
        ensures
            b == self@.reserve(
                SpecRegion::indent_block(data@.options.indent as int, child@),
                data@.options.item_spacing@,
            ).fits(),
    {
        let width: i64 = data.options().indent as i64 + child.bounding_size.x as i64;
        self.can_advance(width, child.bounding_size.y as i64, data.options().item_spacing)
    }

    /// Reserves in this region what an indented child has used, its
    /// indent included.
    pub fn end_indent(&mut self, data: &Data, child: &Region)
        requires
            old(self)@.reserve(
                SpecRegion::indent_block(data@.options.indent as int, child@),
                data@.options.item_spacing@,
            ).fits(),
        ensures
            final(self)@ == old(self)@.reserve(
                SpecRegion::indent_block(data@.options.indent as int, child@),
                data@.options.item_spacing@,
            ),
    {
        let width: i64 = data.options().indent as i64 + child.bounding_size.x as i64;
        self.advance(width, child.bounding_size.y as i64, data.options().item_spacing);
    }

    /// A horizontally centered region of the given width. Nothing is
    /// reserved for it in this region, now or later.
    pub fn centered_column(&self, width: i32) -> (child: Region)
        ensures
            child@ == self@.centered(width as int),
    {
        let slack: i128 = self.available_space.x as i128 - width as i128;
        let left: i128 = floor_div(slack, 2);
        Region::new(
            self.id,
            self.dir,
            Vec2 { x: left as i32, y: self.cursor.y },
            Vec2 { x: width, y: self.available_space.y },
        )
    }

    /// Start a region with horizontal layout. When the child is filled,
    /// hand it to [`Region::end_horizontal`].
    pub fn horizontal(&self) -> (child: Region)
        ensures
            child@ == self@.horizontal(),
    {
        Region::new(self.id, Direction::Horizontal, self.cursor, self.available_space)
    }

    /// Whether [`Region::end_horizontal`] can take `child` in.
    pub fn can_end_horizontal(&self, data: &Data, child: &Region) -> (b: bool)
        ensures
            b == self@.reserve(child@.bounding_size, data@.options.item_spacing@).fits(),
    {
        self.can_reserve(data, child.bounding_size)
    }

    /// Reserves in this region what a horizontal child has used, as one block.
    pub fn end_horizontal(&mut self, data: &Data, child: &Region)
        requires
            old(self)@.reserve(child@.bounding_size, data@.options.item_spacing@).fits(),
        ensures
            final(self)@ == old(self)@.reserve(child@.bounding_size, data@.options.item_spacing@),
    {
        self.reserve_space_inner(child.bounding_size, data.options().item_spacing);
    }

    /// The width of each of `num_columns` columns.
    fn column_width(&self, padding: i32, num_columns: usize) -> (width: i128)
        requires
            0 < num_columns <= i32::MAX,
        ensures
            width == self@.column_width(padding as int, num_columns as int),
    {
        let n: i128 = num_columns as i128;
        assert(-0x4000_0000_0000_0000 <= (n - 1) * padding <= 0x4000_0000_0000_0000)
            by (nonlinear_arith)
            requires
                -0x8000_0000 <= padding <= 0x8000_0000,
                0 <= n - 1 <= 0x8000_0000,
        ;
        floor_div(self.available_space.x as i128 - (n - 1) * (padding as i128), n)
    }

    /// Whether [`Region::columns`] can make `num_columns` columns.
    pub fn can_columns(&self, data: &Data, num_columns: usize) -> (b: bool)
        ensures
            b == self@.columns_fit(data@.options.item_spacing.x as int, num_columns as nat),
    {
        if num_columns == 0 {
            return true;
        }
        if num_columns > 0x7fff_ffff {
            return false;
        }
        let padding: i32 = data.options().item_spacing.x;
        let n: i128 = num_columns as i128;
        let column_width: i128 = self.column_width(padding, num_columns);
        if column_width < -0x8000_0000 || column_width > 0x7fff_ffff {
            return false;
        }
        let stride: i128 = column_width + padding as i128;
        assert(-0x8000_0000_0000_0000 <= (n - 1) * stride <= 0x8000_0000_0000_0000)
            by (nonlinear_arith)
            requires
                -0x1_0000_0000 <= stride <= 0x1_0000_0000,
                0 <= n - 1 <= 0x8000_0000,
        ;
        let last: i128 = self.cursor.x as i128 + (n - 1) * stride;
        assert(0 * stride == 0);
        -0x8000_0000 <= last && last <= 0x7fff_ffff
    }

    /// Split what is left of the width into `num_columns` column regions
    /// of equal width, side by side. When the columns are filled, hand
    /// them to [`Region::end_columns`].
    pub fn columns(&self, data: &Data, num_columns: usize) -> (columns: Vec<Region>)
        requires
            self@.columns_fit(data@.options.item_spacing.x as int, num_columns as nat),
        ensures
            regions_view(columns@) == self@.columns(
                data@.options.item_spacing.x as int,
                num_columns as nat,
            ),
            columns@.len() == num_columns,
    {
        let mut columns: Vec<Region> = Vec::new();
        if num_columns == 0 {
            assert(regions_view(columns@) =~= self@.columns(
                data@.options.item_spacing.x as int,
                0,
            ));
            return columns;
        }
        let padding: i32 = data.options().item_spacing.x;
        let n: i128 = num_columns as i128;
        let column_width: i128 = self.column_width(padding, num_columns);
        let stride: i128 = column_width + padding as i128;
        let mut col_idx: usize = 0;
        while col_idx < num_columns
            invariant
                0 <= col_idx <= num_columns,
                n == num_columns,
                0 < n <= i32::MAX,
                padding == data@.options.item_spacing.x,
                column_width == self@.column_width(padding as int, n as int),
                stride == column_width + padding,
                is_scalar(column_width as int),
                is_scalar(self.cursor.x + (n - 1) * stride),
                columns@.len() == col_idx,
                forall|i: int|
                    0 <= i < col_idx ==> (#[trigger] columns@[i])@ == self@.column(
                        padding as int,
                        n as int,
                        i,
                    ),
            decreases num_columns - col_idx,
        {
            let i: i128 = col_idx as i128;
            assert(-0x8000_0000_0000_0000 <= i * stride <= 0x8000_0000_0000_0000 && (is_scalar(
                self.cursor.x + i * stride,
            ))) by (nonlinear_arith)
                requires
                    -0x1_0000_0000 <= stride <= 0x1_0000_0000,
                    0 <= i <= n - 1 <= 0x8000_0000,
                    is_scalar(self.cursor.x + (n - 1) * stride),
                    is_scalar(self.cursor.x as int),
            ;
            let x: i128 = self.cursor.x as i128 + i * stride;
            let column = Region::new(
                indexed_child_id(self.id, "column".as_bytes(), col_idx as u64),
                Direction::Vertical,
                Vec2 { x: x as i32, y: self.cursor.y },
                Vec2 { x: column_width as i32, y: self.available_space.y },
            );
            columns.push(column);
            col_idx = col_idx + 1;
        }
        assert(regions_view(columns@) =~= self@.columns(padding as int, num_columns as nat));
        columns
    }

    /// The height of the tallest of `columns`.
    fn tallest(columns: &Vec<Region>) -> (height: i32)
        ensures
            height == max_height(regions_view(columns@)),
    {
        let ghost all = regions_view(columns@);
        let mut height: i32 = 0;
        let mut i: usize = 0;
        assert(all.take(0) =~= Seq::empty());
        while i < columns.len()
            invariant
                0 <= i <= columns.len(),
                all == regions_view(columns@),
                height == max_height(all.take(i as int)),
            decreases columns.len() - i,
        {
            assert(all.take(i + 1).drop_last() =~= all.take(i as int));
            assert(all.take(i + 1).last() == columns@[i as int]@);
            if columns[i].bounding_size.y > height {
                height = columns[i].bounding_size.y;
            }
            i = i + 1;
        }
        assert(all.take(columns.len() as int) =~= all);
        height
    }

    /// Whether [`Region::end_columns`] can take `columns` in.
    pub fn can_end_columns(&self, data: &Data, columns: &Vec<Region>) -> (b: bool)
        ensures
            b == self@.reserve(
                self@.columns_block(regions_view(columns@)),
                data@.options.item_spacing@,
            ).fits(),
    {
        let height = Region::tallest(columns);
        self.can_advance(
            self.available_space.x as i64,
            height as i64,
            data.options().item_spacing,
        )
    }

    /// Reserves in this region the row that `columns` make: the whole
    /// width, and the height of the tallest column.
    pub fn end_columns(&mut self, data: &Data, columns: &Vec<Region>)
        requires
            old(self)@.reserve(
                old(self)@.columns_block(regions_view(columns@)),
                data@.options.item_spacing@,
            ).fits(),
        ensures
            final(self)@ == old(self)@.reserve(
                old(self)@.columns_block(regions_view(columns@)),
                data@.options.item_spacing@,
            ),
    {
        let height = Region::tallest(columns);
        self.advance(self.available_space.x as i64, height as i64, data.options().item_spacing);
    }

    /// Reserve this much space and move the cursor, without testing the
    /// space against the pointer.
    pub fn reserve_space_inner(&mut self, size: Vec2, spacing: Vec2)
        requires
            old(self)@.reserve(size@, spacing@).fits(),
        ensures
            final(self)@ == old(self)@.reserve(size@, spacing@),
    {
        self.advance(size.x as i64, size.y as i64, spacing);
    }

    /// Whether a block of `width` by `height` can be placed.
    fn can_advance(&self, width: i64, height: i64, spacing: Vec2) -> (b: bool)
        requires
            -0x2_0000_0000 <= width <= 0x2_0000_0000,
            -0x2_0000_0000 <= height <= 0x2_0000_0000,
        ensures
            b == self@.reserve((SpecVec2 { x: width as int, y: height as int }), spacing@).fits(),
    {
        match self.dir {
            Direction::Horizontal => {
                let step: i64 = width + spacing.x as i64;
                let tallest: i64 = if height > self.bounding_size.y as i64 {
                    height
                } else {
                    self.bounding_size.y as i64
                };
                in_scalar_range(self.cursor.x as i64 + step) && in_scalar_range(
                    self.available_space.x as i64 - step,
                ) && in_scalar_range(self.cursor.x as i64 - self.origin.x as i64 + width)
                    && in_scalar_range(tallest)
            },
            Direction::Vertical => {
                let step: i64 = height + spacing.y as i64;
                let widest: i64 = if width > self.bounding_size.x as i64 {
                    width
                } else {
                    self.bounding_size.x as i64
                };
                in_scalar_range(self.cursor.y as i64 + step) && in_scalar_range(
                    self.available_space.y as i64 - step,
                ) && in_scalar_range(self.cursor.y as i64 - self.origin.y as i64 + height)
                    && in_scalar_range(widest)
            },
        }
    }

    /// Places a block of `width` by `height`, which need not be scalars
    /// themselves as long as the region's coordinates are afterwards.
    fn advance(&mut self, width: i64, height: i64, spacing: Vec2)
        requires
            -0x2_0000_0000 <= width <= 0x2_0000_0000,
            -0x2_0000_0000 <= height <= 0x2_0000_0000,
            old(self)@.reserve((SpecVec2 { x: width as int, y: height as int }), spacing@).fits(),
        ensures
            final(self)@ == old(self)@.reserve(
                (SpecVec2 { x: width as int, y: height as int }),
                spacing@,
            ),
    {
        match self.dir {
            Direction::Horizontal => {
                let step: i64 = width + spacing.x as i64;
                self.bounding_size.x = (self.cursor.x as i64 - self.origin.x as i64 + width) as i32;
                if height > self.bounding_size.y as i64 {
                    self.bounding_size.y = height as i32;
                }
                self.cursor.x = (self.cursor.x as i64 + step) as i32;
                self.available_space.x = (self.available_space.x as i64 - step) as i32;
            },
            Direction::Vertical => {
                let step: i64 = height + spacing.y as i64;
                self.bounding_size.y = (self.cursor.y as i64 - self.origin.y as i64 + height) as i32;
                if width > self.bounding_size.x as i64 {
                    self.bounding_size.x = width as i32;
                }
                self.cursor.y = (self.cursor.y as i64 + step) as i32;
                self.available_space.y = (self.available_space.y as i64 - step) as i32;
            },
        }
    }
}

} // verus!
