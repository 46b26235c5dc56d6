use emgui::font::Font;
use emgui::layout::{Data, Direction, GraphicLayers, GuiResponse, LayoutOptions, Memory};
use emgui::math::{vec2, Rect};
use emgui::popup::{begin_popup, can_begin_popup, show_popup, POPUP_WIDTH, TOOLTIP_OFFSET};
use emgui::region::Region;
use emgui::types::{GuiCmd, GuiInput, InteractInfo, TextStyle};

fn mono() -> Font {
    Font::new(14, vec![10; 128])
}

fn root() -> Region {
    Region::new(0, Direction::Vertical, vec2(0, 0), vec2(100, 400))
}

fn pointer(x: i32, y: i32, down: bool, clicked: bool) -> GuiInput {
    GuiInput { mouse_down: down, mouse_clicked: clicked, mouse_pos: vec2(x, y) }
}

fn window(x: i32, y: i32, w: i32, h: i32) -> GuiCmd {
    GuiCmd::Window { rect: Rect { pos: vec2(x, y), size: vec2(w, h) } }
}

fn text_cmd(x: i32, y: i32, text: &str, x_offsets: Vec<i32>) -> GuiCmd {
    GuiCmd::Text { pos: vec2(x, y), style: TextStyle::Label, text: text.to_string(), x_offsets }
}

fn is_text(cmd: &GuiCmd, expected: &str) -> bool {
    matches!(cmd, GuiCmd::Text { text, .. } if text == expected)
}

#[test]
fn default_options() {
    let options = LayoutOptions::default();
    assert_eq!(options.item_spacing, vec2(8, 4));
    assert_eq!(options.window_padding, vec2(6, 6));
    assert_eq!(options.indent, 21);
    assert_eq!(options.button_padding, vec2(5, 3));
    assert_eq!(options.start_icon_width, 20);
}

#[test]
fn default_direction_is_vertical() {
    assert_eq!(Direction::default(), Direction::Vertical);
}

#[test]
fn new_data_is_blank() {
    let mut data = Data::new(mono());
    assert_eq!(*data.options(), LayoutOptions::default());
    assert_eq!(*data.input(), GuiInput::default());
    assert_eq!(data.input().mouse_pos, vec2(0, 0));
    assert_eq!(data.memory().active_id(), None);
    assert_eq!(data.graphics().num_base(), 0);
    assert_eq!(data.font().line_spacing(), 14);
    assert!(data.drain().is_empty());
}

#[test]
fn set_options_replaces_the_record() {
    let mut data = Data::new(mono());
    let options = LayoutOptions {
        window_padding: vec2(1, 2),
        item_spacing: vec2(3, 4),
        indent: 5,
        button_padding: vec2(6, 7),
        start_icon_width: 8,
    };
    data.set_options(options);
    assert_eq!(*data.options(), options);
    assert_eq!(*data.input(), GuiInput::default());
}

#[test]
fn new_frame_takes_the_input() {
    let mut data = Data::new(mono());
    let input = pointer(3, 4, true, true);
    data.new_frame(input);
    assert_eq!(*data.input(), input);
}

#[test]
fn new_frame_keeps_the_grab_while_the_button_is_down() {
    let mut data = Data::new(mono());
    assert!(data.resolve_active(true, 77));
    data.new_frame(pointer(500, 500, true, false));
    assert_eq!(data.memory().active_id(), Some(77));
    data.new_frame(pointer(0, 0, false, false));
    assert_eq!(data.memory().active_id(), None);
}

#[test]
fn new_frame_keeps_foldables_and_graphics() {
    let mut data = Data::new(mono());
    assert!(data.toggle_foldable(true, 5));
    data.add_graphic(window(0, 0, 1, 1));
    data.new_frame(pointer(0, 0, false, false));
    assert!(data.memory().is_open(5));
    assert_eq!(data.graphics().num_base(), 1);
}

#[test]
fn memory_holds_one_active_id() {
    let mut memory = Memory::default();
    assert_eq!(memory.active_id(), None);
    assert!(!memory.resolve_active(false, 1));
    assert!(memory.resolve_active(true, 1));
    assert!(memory.resolve_active(false, 1));
    assert!(!memory.resolve_active(false, 2));
    assert!(memory.resolve_active(true, 2));
    assert!(!memory.resolve_active(false, 1));
    assert_eq!(memory.active_id(), Some(2));
    memory.release(true);
    assert_eq!(memory.active_id(), Some(2));
    memory.release(false);
    assert_eq!(memory.active_id(), None);
}

#[test]
fn memory_toggles_foldables() {
    let mut memory = Memory::default();
    assert!(!memory.is_open(9));
    assert!(!memory.toggle_foldable(false, 9));
    assert!(memory.toggle_foldable(true, 9));
    assert!(memory.toggle_foldable(false, 9));
    assert!(memory.is_open(9));
    assert!(!memory.is_open(10));
    assert!(!memory.toggle_foldable(true, 9));
    assert!(!memory.is_open(9));
}

#[test]
fn memory_clone_is_a_copy() {
    let mut memory = Memory::default();
    memory.toggle_foldable(true, 1);
    memory.toggle_foldable(true, 2);
    memory.resolve_active(true, 3);
    let mut copy = memory.clone();
    assert!(copy.is_open(1) && copy.is_open(2) && !copy.is_open(3));
    assert_eq!(copy.active_id(), Some(3));
    copy.toggle_foldable(true, 1);
    assert!(memory.is_open(1));
}

#[test]
fn drain_hands_out_base_then_overlay_and_empties_both() {
    let mut layers = GraphicLayers::default();
    layers.push(window(1, 0, 0, 0));
    layers.push(window(2, 0, 0, 0));
    layers.raise(1, window(3, 0, 0, 0));
    layers.push(window(4, 0, 0, 0));
    assert_eq!(
        layers.drain(),
        vec![window(1, 0, 0, 0), window(4, 0, 0, 0), window(3, 0, 0, 0), window(2, 0, 0, 0)]
    );
    assert_eq!(layers.num_base(), 0);
    assert!(layers.drain().is_empty());
}

#[test]
fn raise_past_the_end_moves_nothing() {
    let mut layers = GraphicLayers::default();
    layers.push(window(1, 0, 0, 0));
    layers.raise(5, window(2, 0, 0, 0));
    assert_eq!(layers.num_base(), 1);
    assert_eq!(layers.drain(), vec![window(1, 0, 0, 0), window(2, 0, 0, 0)]);
}

#[test]
fn add_graphic_appends_in_call_order() {
    let mut data = Data::new(mono());
    let region = root();
    region.add_graphic(&mut data, window(1, 0, 0, 0));
    data.add_graphic(window(2, 0, 0, 0));
    region.add_graphic(&mut data, window(3, 0, 0, 0));
    assert_eq!(data.drain(), vec![window(1, 0, 0, 0), window(2, 0, 0, 0), window(3, 0, 0, 0)]);
}

#[test]
fn popup_region_is_a_root_of_its_own() {
    let data = Data::new(mono());
    assert!(can_begin_popup(&data, vec2(50, 60)));
    let popup = begin_popup(&data, vec2(50, 60));
    assert_eq!(popup.window_pos, vec2(50, 60));
    assert_eq!(popup.num_graphics_before, 0);
    assert_eq!(popup.region.id(), 0);
    assert_eq!(popup.region.dir(), Direction::Vertical);
    assert_eq!(popup.region.cursor(), vec2(56, 66));
    assert_eq!(popup.region.available_space(), vec2(POPUP_WIDTH, i32::MAX));
    assert_eq!(POPUP_WIDTH, 400);
}

#[test]
fn can_begin_popup_sees_overflow() {
    let data = Data::new(mono());
    assert!(can_begin_popup(&data, vec2(i32::MAX - 6, 0)));
    assert!(!can_begin_popup(&data, vec2(i32::MAX - 5, 0)));
}

#[test]
fn popup_is_drawn_after_all_base_content() {
    let mut data = Data::new(mono());
    data.new_frame(pointer(-50, -50, false, false));
    let mut region = root();
    region.label(&mut data, "before");
    let mut popup = begin_popup(&data, vec2(50, 60));
    popup.region.label(&mut data, "one");
    popup.region.label(&mut data, "two");
    assert!(popup.can_show(&data));
    show_popup(&mut data, &popup);
    region.label(&mut data, "after");
    region.button(&mut data, "last");

    let drawn = data.drain();
    assert_eq!(drawn.len(), 7);
    assert!(is_text(&drawn[0], "before"));
    assert!(is_text(&drawn[1], "after"));
    assert!(matches!(drawn[2], GuiCmd::Button { .. }));
    assert!(is_text(&drawn[3], "last"));
    assert_eq!(drawn[4], window(50, 60, 30 + 12, 14 + 4 + 14 + 12));
    assert_eq!(drawn[5], text_cmd(56, 66, "one", vec![0, 10, 20, 30]));
    assert_eq!(drawn[6], text_cmd(56, 84, "two", vec![0, 10, 20, 30]));
}

#[test]
fn popup_leaves_the_ambient_region_alone() {
    let mut data = Data::new(mono());
    data.new_frame(pointer(-50, -50, false, false));
    let mut region = root();
    region.label(&mut data, "before");
    let cursor = region.cursor();
    let mut popup = begin_popup(&data, vec2(50, 60));
    popup.region.button(&mut data, "inside");
    show_popup(&mut data, &popup);
    assert_eq!(region.cursor(), cursor);
    assert_eq!(data.graphics().num_base(), 1);
}

#[test]
fn two_popups_keep_their_order() {
    let mut data = Data::new(mono());
    data.new_frame(pointer(-50, -50, false, false));
    let mut first = begin_popup(&data, vec2(0, 0));
    first.region.label(&mut data, "a");
    show_popup(&mut data, &first);
    let mut second = begin_popup(&data, vec2(100, 0));
    second.region.label(&mut data, "b");
    show_popup(&mut data, &second);
    let drawn = data.drain();
    assert_eq!(drawn.len(), 4);
    assert_eq!(drawn[0], window(0, 0, 22, 26));
    assert!(is_text(&drawn[1], "a"));
    assert_eq!(drawn[2], window(100, 0, 22, 26));
    assert!(is_text(&drawn[3], "b"));
}

#[test]
fn empty_popup_is_just_its_padding() {
    let mut data = Data::new(mono());
    let popup = begin_popup(&data, vec2(10, 10));
    show_popup(&mut data, &popup);
    assert_eq!(data.drain(), vec![window(10, 10, 12, 12)]);
}

#[test]
fn can_show_sees_overflow() {
    let mut data = Data::new(mono());
    data.new_frame(pointer(-50, -50, false, false));
    let mut popup = begin_popup(&data, vec2(0, 0));
    popup.region.reserve_space(&mut data, vec2(i32::MAX - 12, 0), None);
    assert!(popup.can_show(&data));
    let mut popup = begin_popup(&data, vec2(0, 0));
    popup.region.reserve_space(&mut data, vec2(i32::MAX - 11, 0), None);
    assert!(!popup.can_show(&data));
}

#[test]
fn tooltip_begins_only_when_hovered() {
    let mut data = Data::new(mono());
    data.new_frame(pointer(30, 40, false, false));
    let away = GuiResponse { hovered: false, clicked: false, active: true };
    assert!(away.tooltip(&data).is_none());
    let over = GuiResponse { hovered: true, clicked: false, active: false };
    assert!(over.can_tooltip(&data));
    let popup = over.tooltip(&data).expect("hovered");
    assert_eq!(popup.window_pos, vec2(30 + TOOLTIP_OFFSET, 40 + TOOLTIP_OFFSET));
    assert_eq!(popup.region.cursor(), vec2(52, 62));
    assert_eq!(TOOLTIP_OFFSET, 16);
}

#[test]
fn tooltip_text_shows_a_label_beside_the_pointer() {
    let mut data = Data::new(mono());
    data.new_frame(pointer(5, 5, false, false));
    let mut region = root();
    let response = region.button(&mut data, "ab");
    assert!(response.hovered);
    assert!(response.can_tooltip_text(&data, "hint"));
    response.tooltip_text(&mut data, "hint");
    region.label(&mut data, "next");
    let drawn = data.drain();
    assert_eq!(drawn.len(), 5);
    assert!(matches!(drawn[0], GuiCmd::Button { .. }));
    assert!(is_text(&drawn[1], "ab"));
    assert!(is_text(&drawn[2], "next"));
    assert_eq!(drawn[3], window(21, 21, 40 + 12, 14 + 12));
    assert_eq!(drawn[4], text_cmd(27, 27, "hint", vec![0, 10, 20, 30, 40]));
}

#[test]
fn tooltip_text_does_nothing_when_not_hovered() {
    let mut data = Data::new(mono());
    data.new_frame(pointer(500, 500, false, false));
    let mut region = root();
    let response = region.button(&mut data, "ab");
    assert!(!response.hovered);
    assert!(response.can_tooltip_text(&data, "hint"));
    response.tooltip_text(&mut data, "hint");
    assert_eq!(data.drain().len(), 2);
}

#[test]
fn can_tooltip_sees_overflow() {
    let mut data = Data::new(mono());
    let over = GuiResponse { hovered: true, clicked: false, active: false };
    data.new_frame(pointer(i32::MAX - 22, 0, false, false));
    assert!(over.can_tooltip(&data));
    assert!(over.can_tooltip_text(&data, "hint"));
    data.new_frame(pointer(i32::MAX - 21, 0, false, false));
    assert!(!over.can_tooltip(&data));
    assert!(!over.can_tooltip_text(&data, "hint"));
    let away = GuiResponse { hovered: false, clicked: false, active: false };
    assert!(away.can_tooltip(&data));
}

#[test]
fn interact_info_defaults_to_idle() {
    assert_eq!(InteractInfo::default(), InteractInfo { hovered: false, clicked: false, active: false });
}

#[test]
fn data_clone_is_a_copy_of_the_whole_frame() {
    let mut data = Data::new(mono());
    data.new_frame(pointer(5, 5, true, true));
    let mut region = root();
    region.button(&mut data, "ab");
    data.toggle_foldable(true, 11);
    let mut copy = data.clone();
    assert_eq!(*copy.input(), *data.input());
    assert_eq!(*copy.options(), *data.options());
    assert_eq!(copy.memory().active_id(), data.memory().active_id());
    assert!(copy.memory().is_open(11));
    assert_eq!(copy.font().layout_single_line("ab"), vec![0, 10, 20]);
    copy.add_graphic(window(9, 9, 9, 9));
    assert_eq!(data.graphics().num_base(), 2);
    let original = data.drain();
    let copied = copy.drain();
    assert_eq!(copied.len(), 3);
    assert_eq!(copied[..2], original[..]);
    assert_eq!(copied[2], window(9, 9, 9, 9));
}

#[test]
fn graphic_layers_clone_keeps_both_layers() {
    let mut layers = GraphicLayers::default();
    layers.push(window(1, 0, 0, 0));
    layers.push(text_cmd(2, 0, "x", vec![0, 10]));
    layers.raise(1, window(3, 0, 0, 0));
    let mut copy = layers.clone();
    assert_eq!(copy.drain(), layers.drain());
    assert!(copy.drain().is_empty());
}
