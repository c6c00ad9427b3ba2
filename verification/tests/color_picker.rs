use hyprcube::color::HexColor;
use hyprcube::color_picker::{InlineColorPicker, PickerControl, PickerSpot};
use hyprcube::widget::WidgetAction;

fn rgb(r: u8, g: u8, b: u8) -> HexColor {
    HexColor { r, g, b, a: 255 }
}

fn changed_to(action: &Option<WidgetAction>) -> Option<String> {
    match action {
        Some(WidgetAction::ValueChanged { value, .. }) => Some(value.clone()),
        _ => None,
    }
}

#[test]
fn dismiss_overlay_collapses() {
    let mut cp = InlineColorPicker::new("bg".to_string(), rgb(255, 0, 0));
    cp.expanded = true;
    cp.dismiss_overlay();
    assert!(!cp.expanded);
    assert!(!cp.has_overlay());
}

#[test]
fn header_click_expands() {
    let mut cp = InlineColorPicker::new("c".to_string(), rgb(0, 128, 255));
    let resp = cp.pointer_up(PickerSpot::Header);
    assert!(resp.consumed);
    assert!(cp.expanded);
}

#[test]
fn picker_shows_hex_of_value() {
    let cp = InlineColorPicker::new("c".to_string(), HexColor { r: 0x12, g: 0xab, b: 0x00, a: 0x80 });
    assert_eq!(cp.hex_input, "#12ab0080");
    assert!(!cp.has_overlay());
    let mut cp = cp;
    cp.set_color(rgb(1, 2, 3));
    assert_eq!(cp.hex_input, "#010203");
}

#[test]
fn picker_hex_field_typing_and_return() {
    let mut cp = InlineColorPicker::new("accent".to_string(), rgb(0, 0, 0));
    cp.pointer_up(PickerSpot::Header);
    let r = cp.pointer_up(PickerSpot::HexInput);
    assert!(r.consumed && cp.hex_focused);
    for _ in 0..7 {
        cp.key_press("BackSpace", None);
    }
    assert_eq!(cp.hex_input, "");
    cp.key_press("BackSpace", None);
    assert_eq!(cp.hex_input, "");
    cp.key_press("x", Some("#ff8800ccEXTRA"));
    // Typing stops at 9 bytes.
    assert_eq!(cp.hex_input, "#ff8800cc");
    let r = cp.key_press("Return", None);
    assert_eq!(changed_to(&r.action).as_deref(), Some("#ff8800cc"));
    assert_eq!(cp.value, HexColor { r: 0xff, g: 0x88, b: 0x00, a: 0xcc });
}

#[test]
fn picker_invalid_hex_keeps_value() {
    let mut cp = InlineColorPicker::new("accent".to_string(), rgb(1, 2, 3));
    cp.pointer_up(PickerSpot::Header);
    cp.pointer_up(PickerSpot::HexInput);
    cp.key_press("BackSpace", None);
    let r = cp.key_press("KP_Enter", None);
    assert!(r.consumed);
    assert!(r.action.is_none());
    assert_eq!(cp.value, rgb(1, 2, 3));
    // The apply button does the same as Return.
    cp.key_press("a", Some("3"));
    let r = cp.pointer_up(PickerSpot::ApplyButton);
    assert_eq!(changed_to(&r.action).as_deref(), Some("#010203"));
    // A release elsewhere in the editor drops the focus; keys are ignored then.
    let r = cp.pointer_up(PickerSpot::Other);
    assert!(!r.consumed);
    assert!(!cp.hex_focused);
    let r = cp.key_press("a", Some("z"));
    assert!(!r.consumed);
    assert_eq!(cp.hex_input, "#010203");
}

#[test]
fn picker_drag_takes_colors_until_release() {
    let mut cp = InlineColorPicker::new("c".to_string(), rgb(255, 0, 0));
    // Closed: presses and moves are ignored.
    assert!(!cp.pointer_down(Some((PickerControl::SvSquare, rgb(1, 1, 1)))).consumed);
    cp.pointer_up(PickerSpot::Header);
    let r = cp.pointer_down(Some((PickerControl::SvSquare, rgb(128, 64, 64))));
    assert_eq!(changed_to(&r.action).as_deref(), Some("#804040"));
    assert_eq!(cp.dragging, Some(PickerControl::SvSquare));
    let r = cp.pointer_move(HexColor { r: 128, g: 64, b: 64, a: 0 });
    assert_eq!(changed_to(&r.action).as_deref(), Some("#80404000"));
    // The release only ends the drag, wherever it lands.
    let r = cp.pointer_up(PickerSpot::Header);
    assert!(r.consumed && r.action.is_none());
    assert!(cp.expanded);
    assert_eq!(cp.dragging, None);
    assert!(!cp.pointer_move(rgb(0, 0, 0)).consumed);
    assert!(!cp.pointer_down(None).consumed);
}
