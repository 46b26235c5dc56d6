//! The frame context: configuration, input, the state that outlives a
//! frame, and the two layers of draw commands that a frame produces.

use vstd::prelude::*;
use std::collections::HashSet;
use crate::font::{Font, SpecFont};
use crate::id::Id;
use crate::math::{SpecVec2, Vec2};
use crate::types::{cmds_view, lemma_cmds_view_concat, lemma_cmds_view_push, lemma_cmds_view_split};
use crate::types::{GuiCmd, GuiInput, InteractInfo, SpecCmd};

verus! {

/// Distances that shape every widget. A frame uses one set of them from
/// start to end; between frames the caller may replace the whole record.
#[derive(Clone, Copy, Debug, PartialEq, Eq, Structural)]
pub struct LayoutOptions {
    /// Horizontal and vertical padding within a window frame.
    pub window_padding: Vec2,
    /// Horizontal and vertical spacing between widgets.
    pub item_spacing: Vec2,
    /// How far the contents of a foldable are moved to the right.
    pub indent: i32,
    /// A button is as large as its text plus this on each side.
    pub button_padding: Vec2,
    /// Checkboxes, radio buttons and foldables start with an icon;
    /// their text starts this far to the right.
    pub start_icon_width: i32,
}

impl Default for LayoutOptions {
    fn default() -> (options: LayoutOptions)
        ensures
            options.item_spacing@ == (SpecVec2 { x: 8, y: 4 }),
            options.window_padding@ == (SpecVec2 { x: 6, y: 6 }),
            options.indent == 21,
            options.button_padding@ == (SpecVec2 { x: 5, y: 3 }),
            options.start_icon_width == 20,
    {
        LayoutOptions {
            item_spacing: Vec2 { x: 8, y: 4 },
            window_padding: Vec2 { x: 6, y: 6 },
            indent: 21,
            button_padding: Vec2 { x: 5, y: 3 },
            start_icon_width: 20,
        }
    }
}

/// The axis along which a region places its children.
#[derive(Clone, Copy, Debug, PartialEq, Eq, Structural)]
pub enum Direction {
    Horizontal,
    Vertical,
}

impl Default for Direction {
    fn default() -> (dir: Direction)
        ensures
            dir == Direction::Vertical,
    {
        Direction::Vertical
    }
}

/// What a widget tells its caller: how the pointer relates to it.
#[derive(Clone, Copy, Debug, PartialEq, Eq, Structural)]
pub struct GuiResponse {
    /// The mouse is hovering above this.
    pub hovered: bool,
    /// The mouse went got pressed on this thing this frame.
    pub clicked: bool,
    /// The mouse is interacting with this thing (e.g. dragging it).
    pub active: bool,
}

impl GuiResponse {
    /// The same three facts as an [`InteractInfo`].
    pub open spec fn interact(self) -> InteractInfo {
        InteractInfo { hovered: self.hovered, clicked: self.clicked, active: self.active }
    }
}

/// The view of a [`Memory`].
pub ghost struct SpecMemory {
    /// The widget that is pressed or dragged, if any.
    pub active_id: Option<Id>,
    /// The foldables that are open.
    pub open_foldables: Set<Id>,
}

impl SpecMemory {
    pub open spec fn empty() -> SpecMemory {
        SpecMemory { active_id: None, open_foldables: Set::empty() }
    }

    pub open spec fn is_active(self, id: Id) -> bool {
        self.active_id == Some(id)
    }

    /// A click on a widget makes it the active one, whoever was before.
    pub open spec fn click(self, clicked: bool, id: Id) -> SpecMemory {
        if clicked {
            SpecMemory { active_id: Some(id), ..self }
        } else {
            self
        }
    }

    /// With the button up, nothing is active.
    pub open spec fn release(self, mouse_down: bool) -> SpecMemory {
        if mouse_down {
            self
        } else {
            SpecMemory { active_id: None, ..self }
        }
    }

    /// A click on a foldable's header opens it if closed and closes it if open.
    pub open spec fn toggle(self, clicked: bool, id: Id) -> SpecMemory {
        if !clicked {
            self
        } else if self.open_foldables.contains(id) {
            SpecMemory { open_foldables: self.open_foldables.remove(id), ..self }
        } else {
            SpecMemory { open_foldables: self.open_foldables.insert(id), ..self }
        }
    }
}

/// What survives from one frame to the next.
#[derive(Debug)]
pub struct Memory {
    /// The widget being interacted with (e.g. dragged, in case of a slider).
    active_id: Option<Id>,
    /// Which foldable regions are open.
    open_foldables: HashSet<Id>,
}

impl View for Memory {
    type V = SpecMemory;

    closed spec fn view(&self) -> SpecMemory {
        SpecMemory { active_id: self.active_id, open_foldables: self.open_foldables@ }
    }
}

/// A set with the same ids as `ids`.
fn clone_ids(ids: &HashSet<Id>) -> (copy: HashSet<Id>)
    ensures
        copy@ == ids@,
{
    broadcast use vstd::std_specs::hash::group_hash_axioms;

    let mut copy: HashSet<Id> = HashSet::new();
    for id in it: ids.iter()
        invariant
            it.seq().unref().to_set() == ids@,
            copy@ == it.seq().unref().take(it.index() as int).to_set(),
            it.index() == it.seq().len() ==> copy@ =~= ids@,
    {
        let ghost seen = it.seq().unref().take(it.index() as int);
        copy.insert(*id);
        assert(it.seq().unref().take(it.index() + 1) =~= seen.push(*id));
        proof {
            seen.lemma_push_to_set_commute(*id);
        }
        assert(it.index() + 1 == it.seq().len() ==> seen.push(*id) =~= it.seq().unref());
    }
    copy
}

impl Clone for Memory {
    fn clone(&self) -> (memory: Memory)
        ensures
            memory@ == self@,
    {
        Memory { active_id: self.active_id, open_foldables: clone_ids(&self.open_foldables) }
    }
}

impl Default for Memory {
    fn default() -> (memory: Memory)
        ensures
            memory@ == SpecMemory::empty(),
    {
        Memory { active_id: None, open_foldables: HashSet::new() }
    }
}

impl Memory {
    pub fn active_id(&self) -> (id: Option<Id>)
        ensures
            id == self@.active_id,
    {
        self.active_id
    }

    pub fn is_open(&self, id: Id) -> (open: bool)
        ensures
            open == self@.open_foldables.contains(id),
    {
        broadcast use vstd::std_specs::hash::group_hash_axioms;

        self.open_foldables.contains(&id)
    }

    /// Hands the grab to `id` if it was clicked, and tells whether `id`
    /// holds the grab afterwards.
    pub fn resolve_active(&mut self, clicked: bool, id: Id) -> (active: bool)
        ensures
            final(self)@ == old(self)@.click(clicked, id),
            active == final(self)@.is_active(id),
    {
        if clicked {
            self.active_id = Some(id);
        }
        match self.active_id {
            Some(held) => held == id,
            None => false,
        }
    }

    /// Drops the grab when the button is up.
    pub fn release(&mut self, mouse_down: bool)
        ensures
            final(self)@ == old(self)@.release(mouse_down),
    {
        if !mouse_down {
            self.active_id = None;
        }
    }

    /// Flips the foldable `id` if its header was clicked, and tells
    /// whether it is open afterwards.
    pub fn toggle_foldable(&mut self, clicked: bool, id: Id) -> (open: bool)
        ensures
            final(self)@ == old(self)@.toggle(clicked, id),
            open == final(self)@.open_foldables.contains(id),
    {
        broadcast use vstd::std_specs::hash::group_hash_axioms;

        if clicked {
            if self.open_foldables.contains(&id) {
                self.open_foldables.remove(&id);
            } else {
                self.open_foldables.insert(id);
            }
        }
        self.open_foldables.contains(&id)
    }
}

/// The view of a [`GraphicLayers`].
pub ghost struct SpecLayers {
    /// Ordinary content, in call order.
    pub base: Seq<SpecCmd>,
    /// Popups; painted after everything in `base`.
    pub overlay: Seq<SpecCmd>,
}

impl SpecLayers {
    pub open spec fn empty() -> SpecLayers {
        SpecLayers { base: Seq::empty(), overlay: Seq::empty() }
    }

    pub open spec fn push(self, cmd: SpecCmd) -> SpecLayers {
        SpecLayers { base: self.base.push(cmd), ..self }
    }

    pub open spec fn extend(self, cmds: Seq<SpecCmd>) -> SpecLayers {
        SpecLayers { base: self.base + cmds, ..self }
    }

    /// The flat sequence that a renderer paints: `base`, then `overlay`.
    pub open spec fn drained(self) -> Seq<SpecCmd> {
        self.base + self.overlay
    }

    /// How many of the first `mark` base commands exist.
    pub open spec fn kept(self, mark: nat) -> int {
        if mark <= self.base.len() {
            mark as int
        } else {
            self.base.len() as int
        }
    }

    /// Lifts what `base` got after its first `mark` commands into the
    /// overlay, behind a window background.
    pub open spec fn raise(self, mark: nat, window: SpecCmd) -> SpecLayers {
        SpecLayers {
            base: self.base.take(self.kept(mark)),
            overlay: self.overlay.push(window) + self.base.skip(self.kept(mark)),
        }
    }
}

/// The draw commands of one frame, in two layers.
#[derive(Debug)]
pub struct GraphicLayers {
    pub(crate) graphics: Vec<GuiCmd>,
    pub(crate) hovering_graphics: Vec<GuiCmd>,
}

impl View for GraphicLayers {
    type V = SpecLayers;

    closed spec fn view(&self) -> SpecLayers {
        SpecLayers {
            base: cmds_view(self.graphics@),
            overlay: cmds_view(self.hovering_graphics@),
        }
    }
}

impl Clone for GraphicLayers {
    fn clone(&self) -> (layers: GraphicLayers)
        ensures
            layers@ == self@,
    {
        let graphics = self.graphics.clone();
        let hovering_graphics = self.hovering_graphics.clone();
        assert(cmds_view(graphics@) =~= cmds_view(self.graphics@));
        assert(cmds_view(hovering_graphics@) =~= cmds_view(self.hovering_graphics@));
        GraphicLayers { graphics, hovering_graphics }
    }
}

impl Default for GraphicLayers {
    fn default() -> (layers: GraphicLayers)
        ensures
            layers@ == SpecLayers::empty(),
    {
        let layers = GraphicLayers { graphics: Vec::new(), hovering_graphics: Vec::new() };
        assert(layers@.base =~= Seq::empty());
        assert(layers@.overlay =~= Seq::empty());
        layers
    }
}

impl GraphicLayers {
    /// Hands out every command, base layer first, and leaves both layers empty.
    pub fn drain(&mut self) -> (all_commands: Vec<GuiCmd>)
        ensures
            cmds_view(all_commands@) == old(self)@.drained(),
            all_commands@.len() == old(self)@.base.len() + old(self)@.overlay.len(),
            final(self)@ == SpecLayers::empty(),
    {
        let mut all_commands: Vec<GuiCmd> = Vec::new();
        all_commands.append(&mut self.graphics);
        all_commands.append(&mut self.hovering_graphics);
        proof {
            lemma_cmds_view_concat(old(self).graphics@, old(self).hovering_graphics@);
            assert(all_commands@ =~= old(self).graphics@ + old(self).hovering_graphics@);
            assert(self@.base =~= Seq::empty());
            assert(self@.overlay =~= Seq::empty());
        }
        all_commands
    }

    /// The number of commands in the base layer.
    pub fn num_base(&self) -> (n: usize)
        ensures
            n == self@.base.len(),
    {
        self.graphics.len()
    }

    /// Appends a command to the base layer.
    pub fn push(&mut self, gui_cmd: GuiCmd)
        ensures
            final(self)@ == old(self)@.push(gui_cmd@),
    {
        proof {
            lemma_cmds_view_push(self.graphics@, gui_cmd);
        }
        self.graphics.push(gui_cmd);
    }

    /// Moves the base commands from `mark` on into the overlay, after `window`.
    pub fn raise(&mut self, mark: usize, window: GuiCmd)
        ensures
            final(self)@ == old(self)@.raise(mark as nat, window@),
    {
        let at = if mark <= self.graphics.len() {
            mark
        } else {
            self.graphics.len()
        };
        let mut popup_graphics = self.graphics.split_off(at);
        proof {
            lemma_cmds_view_split(old(self).graphics@, at as int);
            lemma_cmds_view_push(self.hovering_graphics@, window);
            lemma_cmds_view_concat(self.hovering_graphics@.push(window), popup_graphics@);
        }
        self.hovering_graphics.push(window);
        self.hovering_graphics.append(&mut popup_graphics);
    }
}

/// The view of a [`Data`].
pub ghost struct SpecData {
    pub options: LayoutOptions,
    pub font: SpecFont,
    pub input: GuiInput,
    pub memory: SpecMemory,
    pub layers: SpecLayers,
}

impl SpecData {
    /// The same frame with `gui_cmd` appended to the base layer.
    pub open spec fn push(self, cmd: SpecCmd) -> SpecData {
        SpecData { layers: self.layers.push(cmd), ..self }
    }

    /// The same frame with `cmds` appended to the base layer.
    pub open spec fn extend(self, cmds: Seq<SpecCmd>) -> SpecData {
        SpecData { layers: self.layers.extend(cmds), ..self }
    }
}

/// The input, options, retained state and output of one frame after
/// another. Every layout call takes it by reference.
#[derive(Debug)]
pub struct Data {
    pub(crate) options: LayoutOptions,
    pub(crate) font: Font,
    pub(crate) input: GuiInput,
    pub(crate) memory: Memory,
    pub(crate) graphics: GraphicLayers,
}

impl View for Data {
    type V = SpecData;

    closed spec fn view(&self) -> SpecData {
        SpecData {
            options: self.options,
            font: self.font@,
            input: self.input,
            memory: self.memory@,
            layers: self.graphics@,
        }
    }
}

impl Clone for Data {
    fn clone(&self) -> (data: Data)
        ensures
            data@ == self@,
    {
        Data {
            options: self.options,
            font: self.font.clone(),
            input: self.input,
            memory: self.memory.clone(),
            graphics: self.graphics.clone(),
        }
    }
}

impl Data {
    /// A context with the default options, no input yet, nothing
    /// remembered and nothing drawn.
    pub fn new(font: Font) -> (data: Data)
        ensures
            data@.font == font@,
            data@.options.item_spacing@ == (SpecVec2 { x: 8, y: 4 }),
            data@.options.window_padding@ == (SpecVec2 { x: 6, y: 6 }),
            data@.options.indent == 21,
            data@.options.button_padding@ == (SpecVec2 { x: 5, y: 3 }),
            data@.options.start_icon_width == 20,
            !data@.input.mouse_down,
            !data@.input.mouse_clicked,
            data@.input.mouse_pos@ == SpecVec2::zero(),
            data@.memory == SpecMemory::empty(),
            data@.layers == SpecLayers::empty(),
    {
        Data {
            options: LayoutOptions::default(),
            font,
            input: GuiInput::default(),
            memory: Memory::default(),
            graphics: GraphicLayers::default(),
        }
    }

    /// The font of every frame is well formed.
    pub proof fn lemma_font_wf(&self)
        ensures
            self@.font.wf(),
    {
        self.font.lemma_wf();
    }

    pub fn input(&self) -> (input: &GuiInput)
        ensures
            *input == self@.input,
    {
        &self.input
    }

    pub fn options(&self) -> (options: &LayoutOptions)
        ensures
            *options == self@.options,
    {
        &self.options
    }

    pub fn font(&self) -> (font: &Font)
        ensures
            font@ == self@.font,
    {
        &self.font
    }

    pub fn memory(&self) -> (memory: &Memory)
        ensures
            memory@ == self@.memory,
    {
        &self.memory
    }

    pub fn graphics(&self) -> (graphics: &GraphicLayers)
        ensures
            graphics@ == self@.layers,
    {
        &self.graphics
    }

    /// Replaces the options as a whole.
    pub fn set_options(&mut self, options: LayoutOptions)
        ensures
            final(self)@ == (SpecData { options, ..old(self)@ }),
    {
        self.options = options;
    }

    /// Starts a frame: takes the new input, and lets go of the active
    /// widget if the button is up, wherever the pointer is.
    pub fn new_frame(&mut self, gui_input: GuiInput)
        ensures
            final(self)@ == (SpecData {
                input: gui_input,
                memory: old(self)@.memory.release(gui_input.mouse_down),
                ..old(self)@
            }),
    {
        self.input = gui_input;
        self.memory.release(gui_input.mouse_down);
    }

    /// Ends a frame: hands out its commands, base layer first, then overlay.
    pub fn drain(&mut self) -> (all_commands: Vec<GuiCmd>)
        ensures
            cmds_view(all_commands@) == old(self)@.layers.drained(),
            all_commands@.len() == old(self)@.layers.base.len() + old(self)@.layers.overlay.len(),
            final(self)@ == (SpecData { layers: SpecLayers::empty(), ..old(self)@ }),
    {
        self.graphics.drain()
    }

    /// Appends a command to the base layer.
    pub fn add_graphic(&mut self, gui_cmd: GuiCmd)
        ensures
            final(self)@ == old(self)@.push(gui_cmd@),
    {
        self.graphics.push(gui_cmd);
    }

    /// See [`Memory::resolve_active`].
    pub fn resolve_active(&mut self, clicked: bool, id: Id) -> (active: bool)
        ensures
            final(self)@ == (SpecData { memory: old(self)@.memory.click(clicked, id), ..old(self)@ }),
            active == final(self)@.memory.is_active(id),
    {
        self.memory.resolve_active(clicked, id)
    }

    /// See [`Memory::toggle_foldable`].
    pub fn toggle_foldable(&mut self, clicked: bool, id: Id) -> (open: bool)
        ensures
            final(self)@ == (SpecData {
                memory: old(self)@.memory.toggle(clicked, id),
                ..old(self)@
            }),
            open == final(self)@.memory.open_foldables.contains(id),
    {
        self.memory.toggle_foldable(clicked, id)
    }

    /// See [`GraphicLayers::raise`].
    pub fn raise(&mut self, mark: usize, window: GuiCmd)
        ensures
            final(self)@ == (SpecData {
                layers: old(self)@.layers.raise(mark as nat, window@),
                ..old(self)@
            }),
    {
        self.graphics.raise(mark, window);
    }
}

} // verus!
