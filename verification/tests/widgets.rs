use oxide_browser::widgets::{text_field_action, TextFieldAction, Widgets};

#[test]
fn widgets_keep_their_first_value() {
    let mut w = Widgets::new();
    assert!(w.checkbox(1, true));
    assert!(w.checkbox(1, false));
    w.toggle(1);
    assert!(!w.checkbox(1, true));
    w.toggle(1);
    assert!(w.is_checked(1));

    let half = 0.5f32.to_bits();
    assert_eq!(w.slider(2, half), half);
    assert_eq!(w.slider(2, 0.9f32.to_bits()), half);
    w.set_slider(2, 0.25f32.to_bits());
    assert_eq!(f32::from_bits(w.slider(2, half)), 0.25);

    assert_eq!(w.text_input(3, "hi".to_string()), "hi");
    assert_eq!(w.text_input(3, "other".to_string()), "hi");
    // An id already used by another kind of widget.
    assert!(w.checkbox(3, true));
    assert!(!w.checkbox(3, false));
    assert_eq!(w.text(3), "hi");
    assert_eq!(w.text_input(1, "x".to_string()), "");
}

#[test]
fn text_field_editing() {
    let mut w = Widgets::new();
    w.text_input(7, "ab".to_string());
    w.type_text(7, "cé");
    assert_eq!(w.text(7), "abcé");
    w.backspace(7);
    assert_eq!(w.text(7), "abc");
    assert_eq!(w.cut(7), "abc");
    assert_eq!(w.text(7), "");
    w.backspace(7);
    assert_eq!(w.text(7), "");
    w.type_text(9, "new");
    assert_eq!(w.text(9), "new");
}

#[test]
fn clicks_last_one_frame() {
    let mut w = Widgets::new();
    assert!(!w.button(4));
    w.click(4);
    assert!(w.button(4));
    assert!(!w.button(5));
    w.end_frame();
    assert!(!w.button(4));
    w.checkbox(1, true);
    w.click(4);
    w.clear();
    assert!(!w.button(4));
    assert!(!w.is_checked(1));
}

#[test]
fn key_presses_in_text_fields() {
    assert_eq!(text_field_action(true, "c", None), TextFieldAction::Copy);
    assert_eq!(text_field_action(true, "v", Some("v".to_string())), TextFieldAction::Paste);
    assert_eq!(text_field_action(true, "x", None), TextFieldAction::Cut);
    assert_eq!(text_field_action(true, "a", Some("a".to_string())), TextFieldAction::Nothing);
    assert_eq!(text_field_action(false, "backspace", None), TextFieldAction::Backspace);
    assert_eq!(text_field_action(false, "q", Some("q".to_string())), TextFieldAction::Insert("q".to_string()));
    assert_eq!(text_field_action(false, "shift", None), TextFieldAction::Nothing);
}
