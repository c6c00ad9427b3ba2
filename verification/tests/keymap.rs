use hyprcube::keymap::panel_key_to_ipc_keyword;

#[test]
fn simple_section() {
    assert_eq!(
        panel_key_to_ipc_keyword("general", "border_size"),
        "general:border_size"
    );
}

#[test]
fn nested_section() {
    assert_eq!(
        panel_key_to_ipc_keyword("input:touchpad", "natural_scroll"),
        "input:touchpad:natural_scroll"
    );
}

#[test]
fn decoration_section() {
    assert_eq!(
        panel_key_to_ipc_keyword("decoration", "rounding"),
        "decoration:rounding"
    );
}
