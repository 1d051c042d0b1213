use keyremap::config::{default_true, InputEvent, KeyDef, OutputEvent};

#[test]
fn enable_defaults_to_true() {
    assert!(default_true());
}

#[test]
fn matches_key_compares_codes() {
    let sel = InputEvent { key: Some(42), button: None };
    assert!(sel.matches_key(42));
    assert!(!sel.matches_key(43));
}

#[test]
fn matches_key_without_key_side() {
    let sel = InputEvent { key: None, button: Some(1) };
    assert!(!sel.matches_key(1));
}

#[test]
fn matches_button_compares_codes() {
    let sel = InputEvent { key: None, button: Some(2) };
    assert!(sel.matches_button(2));
    assert!(!sel.matches_button(0));
}

#[test]
fn matches_button_without_button_side() {
    let sel = InputEvent { key: Some(2), button: None };
    assert!(!sel.matches_button(2));
}

#[test]
fn get_combination_without_combination() {
    let out = OutputEvent { key: Some(5), combination: None };
    assert!(out.get_combination().is_none());
}

#[test]
fn get_combination_keeps_order() {
    let out = OutputEvent {
        key: None,
        combination: Some(vec![KeyDef { key: 3 }, KeyDef { key: 1 }, KeyDef { key: 2 }]),
    };
    assert_eq!(out.get_combination(), Some(vec![3, 1, 2]));
}

#[test]
fn get_combination_of_empty_combination() {
    let out = OutputEvent { key: None, combination: Some(Vec::new()) };
    assert_eq!(out.get_combination(), Some(Vec::new()));
}
