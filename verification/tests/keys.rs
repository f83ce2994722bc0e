use gnvim::input::{
    drag_input, escape_input, event_to_nvim_input, keyname_to_nvim_key, scroll_input, MouseButton,
    ScrollDirection,
};

#[test]
fn keynames() {
    assert_eq!(keyname_to_nvim_key("slash"), Some("/"));
    assert_eq!(keyname_to_nvim_key("backslash"), Some("\\"));
    assert_eq!(keyname_to_nvim_key("dead_diaeresis"), Some("\""));
    assert_eq!(keyname_to_nvim_key("dead_acute"), Some("'"));
    assert_eq!(keyname_to_nvim_key("Return"), Some("CR"));
    assert_eq!(keyname_to_nvim_key("Enter"), Some("CR"));
    assert_eq!(keyname_to_nvim_key("ISO_Left_Tab"), Some("Tab"));
    assert_eq!(keyname_to_nvim_key("Page_Down"), Some("PageDown"));
    assert_eq!(keyname_to_nvim_key("F13"), None);
}

#[test]
fn key_inputs() {
    assert_eq!(event_to_nvim_input("Return", false, false, false, None), Some("<CR>".to_string()));
    assert_eq!(event_to_nvim_input("Up", true, true, true, None), Some("<S-C-A-Up>".to_string()));
    assert_eq!(event_to_nvim_input("a", false, true, false, Some('a')), Some("<C-a>".to_string()));
    assert_eq!(event_to_nvim_input("a", false, false, false, None), None);
    assert_eq!(event_to_nvim_input("Hyper_L", false, false, false, None), None);
}

#[test]
fn escapes_less_than() {
    assert_eq!(escape_input("a<b<"), "a<lt>b<lt>");
    assert_eq!(escape_input("plain"), "plain");
    assert_eq!(escape_input(""), "");
}

#[test]
fn mouse_inputs() {
    assert_eq!(scroll_input(ScrollDirection::Up, 3, 12), "<ScrollWheelUp><12,3>");
    assert_eq!(scroll_input(ScrollDirection::Down, 0, 0), "<ScrollWheelDown><0,0>");
    assert_eq!(drag_input(MouseButton::Left, 10, 200), "<LeftDrag><200,10>");
    assert_eq!(drag_input(MouseButton::from_number(3), 1, 2), "<RightDrag><2,1>");
    assert_eq!(MouseButton::from_number(2), MouseButton::Middle);
    assert_eq!(MouseButton::from_number(7), MouseButton::Left);
}
