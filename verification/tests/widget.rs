use hyprcube::widget::{Button, Dropdown, SearchableDropdown, SectionHeader, TextInput, Toggle, WidgetAction};

#[test]
fn toggle_event_toggles_value() {
    let mut toggle = Toggle::new("brightness".into(), false);
    let resp = toggle.click();
    assert!(resp.consumed);
    assert!(toggle.value);
}

#[test]
fn dropdown_toggles_open() {
    let mut dd = Dropdown::new("layout".into(), vec!["dwindle".into(), "master".into()], 0);
    dd.toggle_open();
    assert!(dd.open);
}

#[test]
fn text_input_inserts_text() {
    let mut input = TextInput::new("name".into(), "".into());
    input.focused = true;
    input.key_press("a", Some("a"));
    assert_eq!(input.value, "a");
    assert_eq!(input.cursor_pos, 1);
}

#[test]
fn text_input_backspace() {
    let mut input = TextInput::new("name".into(), "hello".into());
    input.focused = true;
    input.cursor_pos = 5;
    input.key_press("BackSpace", None);
    assert_eq!(input.value, "hell");
    assert_eq!(input.cursor_pos, 4);
}

#[test]
fn dropdown_selection_reports_the_option() {
    let mut dd = Dropdown::new("layout".into(), vec!["dwindle".into(), "master".into()], 0);
    dd.toggle_open();
    let resp = dd.select_option(1);
    assert_eq!(dd.selected, 1);
    assert!(!dd.open);
    match resp.action {
        Some(WidgetAction::ValueChanged { key, value }) => {
            assert_eq!(key, "layout");
            assert_eq!(value, "master");
        }
        _ => panic!("no value change"),
    }
}

#[test]
fn toggle_reports_new_value_as_text() {
    let mut toggle = Toggle::new("vrr".into(), true);
    match toggle.click().action {
        Some(WidgetAction::ValueChanged { value, .. }) => assert_eq!(value, "false"),
        _ => panic!("no value change"),
    }
}

#[test]
fn button_press_then_release_inside_clicks() {
    let mut b = Button::new("apply".into(), "Apply".into());
    let down = b.press();
    assert!(down.consumed);
    let up = b.release(true);
    assert!(up.consumed);
    assert!(!b.pressed);
}

#[test]
fn text_input_ignores_control_characters() {
    let mut input = TextInput::new("name".into(), "ab".into());
    input.focused = true;
    input.cursor_pos = 1;
    input.key_press("x", Some("\u{7}Z"));
    assert_eq!(input.value, "aZb");
    assert_eq!(input.cursor_pos, 2);
}

#[test]
fn section_header_keeps_title() {
    let h = SectionHeader::new("General".into());
    assert_eq!(h.title, "General");
}

fn layouts() -> SearchableDropdown {
    SearchableDropdown::new(
        "kb_layout".into(),
        vec![
            ("us".to_string(), "English (US)".to_string()),
            ("de".to_string(), "German".to_string()),
            ("fr".to_string(), "French".to_string()),
        ],
        "de".into(),
    )
}

fn changed_value(action: Option<WidgetAction>) -> Option<String> {
    match action {
        Some(WidgetAction::ValueChanged { value, .. }) => Some(value),
        _ => None,
    }
}

#[test]
fn searchable_dropdown_shows_the_label_of_its_value() {
    let dd = layouts();
    assert_eq!(dd.display_label(), "German");
    assert_eq!(dd.filtered_indices, vec![0, 1, 2]);
}

#[test]
fn searchable_dropdown_filters_and_picks() {
    let mut dd = layouts();
    dd.click_header();
    assert!(dd.open);
    dd.key_press("f", Some("f"));
    assert_eq!(dd.filtered_indices, vec![2]);
    let resp = dd.click_option(0);
    assert_eq!(changed_value(resp.action), Some("fr".to_string()));
    assert_eq!(dd.selected_value, "fr");
    assert!(!dd.open);
    assert!(dd.filter_text.is_empty());
}

#[test]
fn searchable_dropdown_accepts_a_custom_code() {
    let mut dd = layouts();
    dd.click_header();
    let resp = dd.click_other();
    assert!(resp.consumed && resp.action.is_none());
    assert!(dd.custom_mode);
    assert_eq!(dd.custom_value, "de");
    dd.key_press("BackSpace", None);
    dd.key_press("k", Some("k"));
    let resp = dd.key_press("Return", None);
    assert_eq!(changed_value(resp.action), Some("dk".to_string()));
    assert_eq!(dd.selected_value, "dk");
    assert!(!dd.open);
}

#[test]
fn text_input_focus_follows_pointer() {
    let mut input = TextInput::new("name".into(), "x".into());
    let resp = input.pointer_down(true).unwrap();
    assert!(resp.consumed);
    assert!(input.focused);
    assert!(input.pointer_down(true).is_none());
    let resp = input.pointer_down(false).unwrap();
    assert!(!resp.consumed);
    assert!(!input.focused);
}

#[test]
fn searchable_open_filter_return_selects_value() {
    let mut d = SearchableDropdown::new(
        "k".to_string(),
        vec![
            ("us".to_string(), "English (US)".to_string()),
            ("de".to_string(), "German".to_string()),
        ],
        "us".to_string(),
    );
    let r = d.click_header();
    assert!(r.consumed && d.open);
    assert_eq!(d.filter_text, "");
    assert!(!d.custom_mode);
    assert_eq!(d.filtered_indices, vec![0, 1]);
    d.key_press("g", Some("germ"));
    assert_eq!(d.filtered_indices, vec![1]);
    let r = d.key_press("Return", None);
    assert!(r.consumed);
    match r.action {
        Some(WidgetAction::ValueChanged { key, value }) => {
            assert_eq!(key, "k");
            assert_eq!(value, "de");
        }
        _ => panic!("expected a value change"),
    }
    assert_eq!(d.selected_value, "de");
    assert!(!d.open);
    assert_eq!(d.filter_text, "");
    assert_eq!(d.filtered_indices, vec![0, 1]);
}

#[test]
fn searchable_ignores_keys_while_closed() {
    let mut d = SearchableDropdown::new(
        "k".to_string(),
        vec![("us".to_string(), "English (US)".to_string())],
        "us".to_string(),
    );
    let r = d.key_press("a", Some("a"));
    assert!(!r.consumed && r.action.is_none());
    assert_eq!(d.filter_text, "");
    let r = d.key_press("Return", None);
    assert!(!r.consumed);
    assert_eq!(d.selected_value, "us");
}

#[test]
fn text_input_ignores_keys_without_focus() {
    let mut t = TextInput::new("k".to_string(), "ab".to_string());
    let r = t.key_press("x", Some("x"));
    assert!(!r.consumed && r.action.is_none());
    assert_eq!(t.value, "ab");
}

#[test]
fn searchable_custom_backspace_at_cursor_one() {
    let mut d = SearchableDropdown::new(
        "k".to_string(),
        vec![("us".to_string(), "English (US)".to_string())],
        "xy".to_string(),
    );
    assert_eq!(d.filtered_indices, vec![0]);
    d.click_header();
    d.click_other();
    d.custom_cursor = 1;
    d.key_press("BackSpace", None);
    assert_eq!(d.custom_value, "y");
    assert_eq!(d.custom_cursor, 0);
}
