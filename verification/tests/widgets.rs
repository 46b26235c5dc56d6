use emgui::font::Font;
use emgui::id::{indexed_child_id, text_child_id};
use emgui::layout::{Data, Direction, GuiResponse, LayoutOptions};
use emgui::math::{vec2, Rect, Vec2};
use emgui::region::Region;
use emgui::types::{GuiCmd, GuiInput, InteractInfo, TextStyle};
use emgui::widgets::Widget;

fn mono() -> Font {
    Font::new(14, vec![10; 128])
}

fn root() -> Region {
    Region::new(0, Direction::Vertical, vec2(0, 0), vec2(100, 400))
}

fn pointer(x: i32, y: i32, down: bool, clicked: bool) -> GuiInput {
    GuiInput { mouse_down: down, mouse_clicked: clicked, mouse_pos: vec2(x, y) }
}

fn idle() -> InteractInfo {
    InteractInfo { hovered: false, clicked: false, active: false }
}

fn text_cmd(x: i32, y: i32, text: &str, x_offsets: Vec<i32>) -> GuiCmd {
    GuiCmd::Text { pos: vec2(x, y), style: TextStyle::Label, text: text.to_string(), x_offsets }
}

#[test]
fn label_draws_its_lines() {
    let mut data = Data::new(mono());
    data.new_frame(pointer(-50, -50, false, false));
    let mut region = Region::new(0, Direction::Vertical, vec2(7, 9), vec2(100, 400));
    let response = region.label(&mut data, "ab\nc");
    assert_eq!(response, GuiResponse { hovered: false, clicked: false, active: false });
    assert_eq!(region.cursor(), vec2(7, 9 + 28 + 4));
    assert_eq!(
        data.drain(),
        vec![text_cmd(7, 9, "ab", vec![0, 10, 20]), text_cmd(7, 23, "c", vec![0, 10])]
    );
}

#[test]
fn label_is_hovered_and_clicked_but_never_active() {
    let mut data = Data::new(mono());
    data.new_frame(pointer(5, 5, true, true));
    let mut region = root();
    let response = region.label(&mut data, "ab");
    assert_eq!(response, GuiResponse { hovered: true, clicked: true, active: false });
    assert_eq!(data.memory().active_id(), None);
}

#[test]
fn empty_label_still_takes_a_line() {
    let mut data = Data::new(mono());
    data.new_frame(pointer(-50, -50, false, false));
    let mut region = root();
    region.label(&mut data, "");
    assert_eq!(region.cursor(), vec2(0, 18));
    assert_eq!(region.bounding_size(), vec2(0, 14));
    assert_eq!(data.drain(), vec![text_cmd(0, 0, "", vec![0])]);
}

#[test]
fn button_is_its_text_plus_padding() {
    let mut data = Data::new(mono());
    data.new_frame(pointer(-50, -50, false, false));
    let mut region = root();
    let response = region.button(&mut data, "ab");
    assert_eq!(response, GuiResponse { hovered: false, clicked: false, active: false });
    assert_eq!(region.cursor(), vec2(0, 20 + 4));
    assert_eq!(region.bounding_size(), vec2(30, 20));
    assert_eq!(
        data.drain(),
        vec![
            GuiCmd::Button {
                rect: Rect { pos: vec2(0, 0), size: vec2(30, 20) },
                interact: idle(),
            },
            text_cmd(5, 3, "ab", vec![0, 10, 20]),
        ]
    );
}

#[test]
fn clicked_button_becomes_active() {
    let mut data = Data::new(mono());
    data.new_frame(pointer(30, 20, true, true));
    let mut region = root();
    let response = region.button(&mut data, "ab");
    assert_eq!(response, GuiResponse { hovered: true, clicked: true, active: true });
    assert_eq!(data.memory().active_id(), Some(text_child_id(0, "ab")));
}

#[test]
fn hovered_button_is_not_clicked_without_the_edge() {
    let mut data = Data::new(mono());
    data.new_frame(pointer(10, 10, true, false));
    let mut region = root();
    let response = region.button(&mut data, "ab");
    assert_eq!(response, GuiResponse { hovered: true, clicked: false, active: false });
    assert_eq!(data.memory().active_id(), None);
}

#[test]
fn click_beside_a_button_misses_it() {
    let mut data = Data::new(mono());
    data.new_frame(pointer(31, 10, true, true));
    let mut region = root();
    let response = region.button(&mut data, "ab");
    assert_eq!(response, GuiResponse { hovered: false, clicked: false, active: false });
}

#[test]
fn at_most_one_widget_is_active() {
    let mut data = Data::new(mono());
    let a = text_child_id(0, "a");
    let b = text_child_id(0, "b");

    // the button goes down over A
    data.new_frame(pointer(5, 5, true, true));
    let mut region = root();
    assert!(region.button(&mut data, "a").active);
    assert!(!region.button(&mut data, "b").active);
    assert_eq!(data.memory().active_id(), Some(a));

    // held down, the pointer leaves A: A keeps the grab
    data.new_frame(pointer(90, 300, true, false));
    let mut region = root();
    let on_a = region.button(&mut data, "a");
    let on_b = region.button(&mut data, "b");
    assert_eq!(on_a, GuiResponse { hovered: false, clicked: false, active: true });
    assert!(!on_b.active);

    // a click on B takes the grab from A
    data.new_frame(pointer(5, 30, true, true));
    let mut region = root();
    let on_a = region.button(&mut data, "a");
    let on_b = region.button(&mut data, "b");
    assert!(on_a.active, "A is asked before B is reached");
    assert_eq!(on_b, GuiResponse { hovered: true, clicked: true, active: true });
    assert_eq!(data.memory().active_id(), Some(b));
    data.new_frame(pointer(5, 30, true, false));
    let mut region = root();
    assert!(!region.button(&mut data, "a").active);
    assert!(region.button(&mut data, "b").active);

    // the button comes up while the pointer is still over B
    data.new_frame(pointer(5, 30, false, false));
    assert_eq!(data.memory().active_id(), None);
    let mut region = root();
    assert!(!region.button(&mut data, "a").active);
    let on_b = region.button(&mut data, "b");
    assert_eq!(on_b, GuiResponse { hovered: true, clicked: false, active: false });
}

#[test]
fn checkbox_is_icon_text_and_padding() {
    let mut data = Data::new(mono());
    data.new_frame(pointer(-50, -50, false, false));
    let mut region = root();
    let mut checked = true;
    region.checkbox(&mut data, "ab", &mut checked);
    assert!(checked);
    assert_eq!(region.bounding_size(), vec2(50, 20));
    assert_eq!(
        data.drain(),
        vec![
            GuiCmd::Checkbox {
                rect: Rect { pos: vec2(0, 0), size: vec2(50, 20) },
                interact: idle(),
                checked: true,
            },
            text_cmd(25, 3, "ab", vec![0, 10, 20]),
        ]
    );
}

#[test]
fn checkbox_flips_once_while_the_button_is_held() {
    let mut data = Data::new(mono());
    let mut checked = false;
    let frames = [
        pointer(10, 10, true, true),
        pointer(10, 10, true, false),
        pointer(11, 10, true, false),
        pointer(10, 10, true, false),
        pointer(10, 10, false, false),
    ];
    let mut flips = 0;
    for input in frames {
        data.new_frame(input);
        let mut region = root();
        let before = checked;
        let response = region.checkbox(&mut data, "ab", &mut checked);
        if checked != before {
            flips += 1;
            assert!(response.clicked);
        }
        let drawn = data.drain();
        match &drawn[0] {
            GuiCmd::Checkbox { checked: shown, .. } => assert_eq!(*shown, checked),
            other => panic!("unexpected command {:?}", other),
        }
    }
    assert_eq!(flips, 1);
    assert!(checked);
}

#[test]
fn checkbox_flips_back_on_the_next_click() {
    let mut data = Data::new(mono());
    let mut checked = false;
    for expected in [true, false, true] {
        data.new_frame(pointer(10, 10, true, true));
        let mut region = root();
        region.checkbox(&mut data, "ab", &mut checked);
        assert_eq!(checked, expected);
        data.new_frame(pointer(10, 10, false, false));
        let mut region = root();
        region.checkbox(&mut data, "ab", &mut checked);
        assert_eq!(checked, expected);
    }
}

#[test]
fn click_outside_leaves_the_checkbox_alone() {
    let mut data = Data::new(mono());
    data.new_frame(pointer(51, 10, true, true));
    let mut region = root();
    let mut checked = false;
    let response = region.checkbox(&mut data, "ab", &mut checked);
    assert!(!checked);
    assert!(!response.clicked);
}

#[test]
fn radio_reports_and_draws_but_changes_nothing() {
    let mut data = Data::new(mono());
    data.new_frame(pointer(10, 10, true, true));
    let mut region = root();
    let response = region.radio(&mut data, "ab", false);
    assert_eq!(response, GuiResponse { hovered: true, clicked: true, active: true });
    assert_eq!(region.bounding_size(), vec2(50, 20));
    assert_eq!(
        data.drain(),
        vec![
            GuiCmd::RadioButton {
                rect: Rect { pos: vec2(0, 0), size: vec2(50, 20) },
                interact: InteractInfo { hovered: true, clicked: true, active: true },
                checked: false,
            },
            text_cmd(25, 3, "ab", vec![0, 10, 20]),
        ]
    );
}

#[test]
fn can_add_agrees_with_what_fits() {
    let data = Data::new(mono());
    let region = root();
    for widget in
        [Widget::Label, Widget::Button, Widget::Checkbox, Widget::RadioButton, Widget::FoldableHeader]
    {
        assert!(region.can_add(&data, widget, "ab"));
    }
    let low = Region::new(0, Direction::Vertical, vec2(0, i32::MAX - 18), vec2(100, 400));
    assert!(low.can_add(&data, Widget::Label, "ab"));
    assert!(!low.can_add(&data, Widget::Button, "ab"));
    assert!(!low.can_add(&data, Widget::Label, "ab\ncd"));
    let right = Region::new(0, Direction::Vertical, vec2(i32::MAX - 24, 0), vec2(100, 400));
    assert!(right.can_add(&data, Widget::Button, "ab"));
    assert!(!right.can_add(&data, Widget::Checkbox, "ab"));
}

#[test]
fn foldable_header_spans_the_width() {
    let mut data = Data::new(mono());
    data.new_frame(pointer(-50, -50, false, false));
    let mut region = root();
    let (response, child) = region.foldable(&mut data, "ab");
    assert_eq!(response, GuiResponse { hovered: false, clicked: false, active: false });
    assert!(child.is_none());
    assert_eq!(region.cursor(), vec2(0, 24));
    assert_eq!(region.bounding_size(), vec2(100, 20));
    assert_eq!(
        data.drain(),
        vec![
            GuiCmd::FoldableHeader {
                rect: Rect { pos: vec2(0, 0), size: vec2(100, 20) },
                interact: idle(),
                open: false,
            },
            text_cmd(25, 3, "ab", vec![0, 10, 20]),
        ]
    );
}

#[test]
fn foldable_opens_closes_and_reopens_under_one_id() {
    let mut data = Data::new(mono());
    let id = text_child_id(0, "more");

    // a click opens it
    data.new_frame(pointer(50, 10, true, true));
    let mut region = root();
    let (response, child) = region.foldable(&mut data, "more");
    assert!(response.clicked);
    assert!(data.memory().is_open(id));
    let child = child.expect("an open foldable has a child region");
    assert_eq!(child.id(), id);
    assert_eq!(child.cursor(), vec2(21, 24));
    assert_eq!(child.available_space(), vec2(79, 400 - 24));
    assert_eq!(child.dir(), Direction::Vertical);
    match &data.drain()[0] {
        GuiCmd::FoldableHeader { open, .. } => assert!(*open),
        other => panic!("unexpected command {:?}", other),
    }

    // it stays open while nothing is clicked, and its children keep their ids
    data.new_frame(pointer(50, 10, false, false));
    let mut region = root();
    let (_, child) = region.foldable(&mut data, "more");
    let mut child = child.expect("still open");
    assert_eq!(child.id(), id);
    child.button(&mut data, "inside");
    region.end_indent(&data, &child);
    assert_eq!(region.cursor(), vec2(0, 24 + 20 + 4));
    assert_eq!(region.bounding_size(), vec2(100, 24 + 20));
    data.drain();

    // a second click closes it
    data.new_frame(pointer(50, 10, true, true));
    let mut region = root();
    let (_, child) = region.foldable(&mut data, "more");
    assert!(child.is_none());
    assert!(!data.memory().is_open(id));

    // a third click opens it again, under the same id
    data.new_frame(pointer(50, 10, true, true));
    let mut region = root();
    let (_, child) = region.foldable(&mut data, "more");
    assert_eq!(child.expect("open again").id(), id);
    assert!(data.memory().is_open(id));
}

#[test]
fn foldables_are_independent() {
    let mut data = Data::new(mono());
    data.new_frame(pointer(50, 30, true, true));
    let mut region = root();
    let (_, first) = region.foldable(&mut data, "first");
    let (_, second) = region.foldable(&mut data, "second");
    assert!(first.is_none());
    assert!(second.is_some());
    assert!(!data.memory().is_open(text_child_id(0, "first")));
    assert!(data.memory().is_open(text_child_id(0, "second")));
}

#[test]
fn widgets_in_a_foldable_are_named_through_it() {
    let mut data = Data::new(mono());
    data.new_frame(pointer(50, 10, true, true));
    let mut region = root();
    let (_, child) = region.foldable(&mut data, "more");
    let child = child.expect("open");
    assert_eq!(child.make_child_id("x"), text_child_id(text_child_id(0, "more"), "x"));
    assert_ne!(child.make_child_id("x"), region.make_child_id("x"));
}

#[test]
fn can_fold_wants_a_vertical_region() {
    let data = Data::new(mono());
    assert!(root().can_fold(&data, "ab"));
    let row = Region::new(0, Direction::Horizontal, vec2(0, 0), vec2(100, 400));
    assert!(!row.can_fold(&data, "ab"));
}

#[test]
fn can_fold_checks_the_child_only_where_the_foldable_opens() {
    let mut data = Data::new(mono());
    let mut options = LayoutOptions::default();
    options.indent = 30;
    data.set_options(options);
    let region = Region::new(0, Direction::Vertical, vec2(i32::MAX - 60, 0), vec2(10, 400));
    data.new_frame(pointer(-50, -50, false, false));
    assert!(region.can_fold(&data, "ab"));
    let far_right = Region::new(0, Direction::Vertical, vec2(i32::MAX - 25, 0), vec2(10, 400));
    assert!(far_right.can_fold(&data, "ab"));
    data.new_frame(pointer(i32::MAX - 25, 5, true, true));
    assert!(!far_right.can_fold(&data, "ab"));
}

fn slide(data: &mut Data, input: GuiInput, value: &mut i32) -> GuiResponse {
    data.new_frame(input);
    let mut region = Region::new(0, Direction::Vertical, vec2(20, 0), vec2(100, 400));
    region.naked_slider_f32(data, "volume", value, 0, 10)
}

#[test]
fn slider_is_the_width_by_one_line() {
    let mut data = Data::new(mono());
    data.new_frame(pointer(-50, -50, false, false));
    let mut region = Region::new(0, Direction::Vertical, vec2(20, 0), vec2(100, 400));
    let mut value = 3;
    let response = region.naked_slider_f32(&mut data, "volume", &mut value, 0, 10);
    assert_eq!(response, GuiResponse { hovered: false, clicked: false, active: false });
    assert_eq!(value, 3);
    assert_eq!(region.cursor(), vec2(20, 18));
    assert_eq!(region.bounding_size(), vec2(100, 14));
    assert_eq!(
        data.drain(),
        vec![GuiCmd::Slider {
            rect: Rect { pos: vec2(20, 0), size: vec2(100, 14) },
            interact: idle(),
            min: 0,
            max: 10,
            value: 3,
        }]
    );
}

#[test]
fn slider_follows_the_pointer_and_clamps() {
    let mut data = Data::new(mono());
    let mut value = 3;

    // grabbed at the left edge of the track
    assert!(slide(&mut data, pointer(20, 5, true, true), &mut value).active);
    assert_eq!(value, 0);
    // dragged to the right edge
    assert!(slide(&mut data, pointer(120, 5, true, false), &mut value).active);
    assert_eq!(value, 10);
    // half way
    slide(&mut data, pointer(70, 5, true, false), &mut value);
    assert_eq!(value, 5);
    slide(&mut data, pointer(45, 5, true, false), &mut value);
    assert_eq!(value, 2);
    // beyond the ends, and off the track vertically
    let response = slide(&mut data, pointer(500, 300, true, false), &mut value);
    assert_eq!(response, GuiResponse { hovered: false, clicked: false, active: true });
    assert_eq!(value, 10);
    slide(&mut data, pointer(-500, -300, true, false), &mut value);
    assert_eq!(value, 0);
    slide(&mut data, pointer(70, 5, true, false), &mut value);
    assert_eq!(value, 5);
    // released: the value stays
    let response = slide(&mut data, pointer(120, 5, false, false), &mut value);
    assert_eq!(response, GuiResponse { hovered: true, clicked: false, active: false });
    assert_eq!(value, 5);
}

#[test]
fn slider_draws_the_new_value() {
    let mut data = Data::new(mono());
    let mut value = 3;
    slide(&mut data, pointer(120, 5, true, true), &mut value);
    match &data.drain()[0] {
        GuiCmd::Slider { value: shown, min, max, interact, .. } => {
            assert_eq!((*shown, *min, *max), (10, 0, 10));
            assert!(interact.active);
        }
        other => panic!("unexpected command {:?}", other),
    }
}

#[test]
fn slider_with_equal_ends() {
    let mut data = Data::new(mono());
    data.new_frame(pointer(70, 5, true, true));
    let mut region = Region::new(0, Direction::Vertical, vec2(20, 0), vec2(100, 400));
    let mut value = 0;
    region.naked_slider_f32(&mut data, "volume", &mut value, 4, 4);
    assert_eq!(value, 4);
}

#[test]
fn can_slide_sees_overflow() {
    let data = Data::new(mono());
    assert!(root().can_slide(&data));
    let low = Region::new(0, Direction::Vertical, vec2(0, i32::MAX - 17), vec2(100, 400));
    assert!(!low.can_slide(&data));
}

#[test]
fn labeled_slider_is_two_columns() {
    let mut data = Data::new(mono());
    data.new_frame(pointer(-50, -50, false, false));
    let mut region = Region::new(0, Direction::Vertical, vec2(0, 0), vec2(208, 400));
    let mut value = 3;
    assert!(region.can_slide_labeled(&data, "speed", value));
    let response = region.slider_f32(&mut data, "speed", &mut value, 0, 10);
    assert_eq!(response, GuiResponse { hovered: false, clicked: false, active: false });
    assert_eq!(value, 3);
    assert_eq!(region.cursor(), vec2(0, 18));
    assert_eq!(region.bounding_size(), vec2(208, 14));
    assert_eq!(
        data.drain(),
        vec![
            text_cmd(108, 0, "speed: 3", vec![0, 10, 20, 30, 40, 50, 60, 70, 80]),
            GuiCmd::Slider {
                rect: Rect { pos: vec2(0, 0), size: vec2(100, 14) },
                interact: idle(),
                min: 0,
                max: 10,
                value: 3,
            },
        ]
    );
}

#[test]
fn labeled_slider_is_named_through_its_column() {
    let mut data = Data::new(mono());
    data.new_frame(pointer(100, 5, true, true));
    let mut region = Region::new(0, Direction::Vertical, vec2(0, 0), vec2(208, 400));
    let mut value = 3;
    let response = region.slider_f32(&mut data, "speed", &mut value, 0, 10);
    assert!(response.active);
    assert_eq!(value, 10);
    let column = indexed_child_id(0, "column".as_bytes(), 0);
    assert_eq!(data.memory().active_id(), Some(text_child_id(column, "speed")));
    // the label shows the value that the frame began with
    match &data.drain()[0] {
        GuiCmd::Text { text, pos, .. } => {
            assert_eq!(text, "speed: 3");
            assert_eq!(*pos, Vec2 { x: 108, y: 0 });
        }
        other => panic!("unexpected command {:?}", other),
    }
}

#[test]
fn can_slide_labeled_sees_what_does_not_fit() {
    let data = Data::new(mono());
    let low = Region::new(0, Direction::Vertical, vec2(0, i32::MAX - 17), vec2(208, 400));
    assert!(!low.can_slide_labeled(&data, "speed", 3));
    let far_right = Region::new(0, Direction::Vertical, vec2(i32::MAX - 50, 0), vec2(208, 400));
    assert!(!far_right.can_slide_labeled(&data, "speed", 3));
}
