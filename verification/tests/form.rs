use hyprcube::color::HexColor;
use hyprcube::form::{make_widget, FormLayout, FormWidget};
use hyprcube::panels::{FieldType, PanelField};
use hyprcube::widget::{EventResponse, WidgetAction};

fn field(key: &str, value: &str) -> PanelField {
    PanelField {
        key: key.to_string(),
        section: None,
        label: key.to_string(),
        description: String::new(),
        field_type: FieldType::Text,
        current_value: value.to_string(),
        original_value: Some(value.to_string()),
        dirty: false,
    }
}

fn changed(key: &str, value: &str) -> EventResponse {
    EventResponse::value_changed(&key.to_string(), value.to_string())
}

fn pairs(form: &FormLayout) -> Vec<(String, String)> {
    form.values()
}

#[test]
fn form_values_follow_rows() {
    let form = FormLayout::from_fields(vec![field("a", "1"), field("b", "2")]);
    assert_eq!(form.len(), 2);
    assert_eq!(
        pairs(&form),
        vec![("a".to_string(), "1".to_string()), ("b".to_string(), "2".to_string())]
    );
    assert_eq!(form.focused_row(), None);
    assert_eq!(form.grabbed_row(), None);
}

#[test]
fn form_press_focuses_and_grabs() {
    let mut form = FormLayout::from_fields(vec![field("a", "1"), field("b", "2")]);
    form.deliver(1, &EventResponse::handled(), true);
    assert_eq!(form.focused_row(), Some(1));
    assert_eq!(form.grabbed_row(), Some(1));
    // A drag changes the grabbed row's value.
    form.record(1, &changed("b", "7"));
    assert_eq!(pairs(&form)[1].1, "7");
    assert_eq!(form.release_grab(), Some(1));
    assert_eq!(form.grabbed_row(), None);
    assert_eq!(form.focused_row(), Some(1));
}

#[test]
fn form_ignored_press_does_not_grab() {
    let mut form = FormLayout::from_fields(vec![field("a", "1")]);
    form.deliver(0, &EventResponse::ignored(), true);
    assert_eq!(form.focused_row(), Some(0));
    assert_eq!(form.grabbed_row(), None);
    form.deliver(0, &changed("a", "x"), false);
    assert_eq!(form.grabbed_row(), None);
    assert_eq!(pairs(&form)[0].1, "x");
}

#[test]
fn form_escape_ends_drag_only_with_open_overlay() {
    let mut form = FormLayout::from_fields(vec![field("a", "1")]);
    form.deliver(0, &EventResponse::handled(), true);
    assert!(!form.escape(false));
    assert_eq!(form.grabbed_row(), Some(0));
    assert!(form.escape(true));
    assert_eq!(form.grabbed_row(), None);
}

#[test]
fn form_record_keeps_value_on_other_actions() {
    let mut form = FormLayout::from_fields(vec![field("a", "1")]);
    let click = EventResponse { consumed: true, action: Some(WidgetAction::ButtonClicked { id: 3 }) };
    form.record(0, &click);
    assert_eq!(pairs(&form)[0].1, "1");
}

fn typed_field(t: FieldType, value: &str) -> PanelField {
    PanelField { field_type: t, ..field("k", value) }
}

#[test]
fn widget_for_boolean_reads_true_yes_one() {
    for (text, on) in [("TRUE", true), ("yes", true), ("1", true), ("no", false), ("0", false)] {
        match make_widget(&typed_field(FieldType::Boolean, text), None) {
            FormWidget::Toggle(t) => assert_eq!(t.value, on, "{text}"),
            _ => panic!("expected a toggle"),
        }
    }
}

#[test]
fn widget_for_choice_and_text() {
    let t = FieldType::Choice { options: vec!["a".to_string(), "b".to_string(), "c".to_string()] };
    match make_widget(&typed_field(t.clone(), "c"), None) {
        FormWidget::Choice(d) => assert_eq!(d.selected, 2),
        _ => panic!("expected a dropdown"),
    }
    match make_widget(&typed_field(t, "zz"), None) {
        FormWidget::Choice(d) => assert_eq!(d.selected, 0),
        _ => panic!("expected a dropdown"),
    }
    match make_widget(&typed_field(FieldType::KeyBind, "SUPER, Q"), None) {
        FormWidget::Text(t) => assert_eq!(t.value, "SUPER, Q"),
        _ => panic!("expected a text input"),
    }
}

#[test]
fn widget_for_integer_dropdown_or_slider() {
    let small = FieldType::Integer { min: Some(1), max: Some(5) };
    match make_widget(&typed_field(small, "3"), Some(3)) {
        FormWidget::Choice(d) => {
            assert_eq!(d.options, vec!["1", "2", "3", "4", "5"]);
            assert_eq!(d.selected, 2);
        }
        _ => panic!("expected a dropdown"),
    }
    let wide = FieldType::Integer { min: Some(0), max: None };
    assert!(matches!(make_widget(&typed_field(wide, "3"), Some(3)), FormWidget::Slider));
    let float = FieldType::Float { min: None, max: None };
    assert!(matches!(make_widget(&typed_field(float, "0.5"), None), FormWidget::Slider));
}

#[test]
fn widget_for_color_reads_hex_or_rgba() {
    match make_widget(&typed_field(FieldType::Color, "rgba(ff000080)"), None) {
        FormWidget::Color(p) => assert_eq!(p.value, HexColor { r: 255, g: 0, b: 0, a: 0x80 }),
        _ => panic!("expected a color picker"),
    }
    match make_widget(&typed_field(FieldType::Color, "bogus"), None) {
        FormWidget::Color(p) => assert_eq!(p.hex_input, "#808080"),
        _ => panic!("expected a color picker"),
    }
}
