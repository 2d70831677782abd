use kaiser_db::{apply_key, Key, KeyAction};

fn press(query: &mut String, key: Key, super_held: bool) -> KeyAction {
    apply_key(query, &key, super_held)
}

#[test]
fn typing_appends_to_the_query() {
    let mut q = String::from("SELECT");
    assert!(press(&mut q, Key::Space, false) == KeyAction::Nothing);
    assert!(press(&mut q, Key::Character("1".to_string()), false) == KeyAction::Nothing);
    assert!(press(&mut q, Key::Character(";".to_string()), false) == KeyAction::Nothing);
    assert!(press(&mut q, Key::Enter, false) == KeyAction::Nothing);
    assert_eq!(q, "SELECT 1;\n");
}

#[test]
fn backspace_removes_the_last_character() {
    let mut q = String::from("ab€");
    press(&mut q, Key::Backspace, false);
    assert_eq!(q, "ab");
    press(&mut q, Key::Backspace, false);
    press(&mut q, Key::Backspace, false);
    assert_eq!(q, "");
    press(&mut q, Key::Backspace, false);
    assert_eq!(q, "");
}

#[test]
fn backspace_undoes_one_key() {
    for key in [Key::Character("x".to_string()), Key::Space, Key::Enter, Key::Character("é".to_string())] {
        let mut q = String::from("SELECT *");
        press(&mut q, key, false);
        press(&mut q, Key::Backspace, false);
        assert_eq!(q, "SELECT *");
    }
}

#[test]
fn super_r_runs_the_query() {
    let mut q = String::from("SELECT 1;");
    assert!(press(&mut q, Key::Character("r".to_string()), true) == KeyAction::RunQuery);
    assert!(press(&mut q, Key::Character("R".to_string()), true) == KeyAction::RunQuery);
    assert_eq!(q, "SELECT 1;");
}

#[test]
fn r_without_super_is_typed() {
    let mut q = String::new();
    assert!(press(&mut q, Key::Character("r".to_string()), false) == KeyAction::Nothing);
    assert_eq!(q, "r");
}

#[test]
fn other_keys_with_super_are_typed() {
    let mut q = String::new();
    assert!(press(&mut q, Key::Character("x".to_string()), true) == KeyAction::Nothing);
    assert!(press(&mut q, Key::Character("rr".to_string()), true) == KeyAction::Nothing);
    assert_eq!(q, "xrr");
}

#[test]
fn arrows_scroll_the_table() {
    let mut q = String::from("q");
    assert!(press(&mut q, Key::ArrowDown, false) == KeyAction::Scroll(0, 34));
    assert!(press(&mut q, Key::ArrowUp, false) == KeyAction::Scroll(0, -34));
    assert!(press(&mut q, Key::ArrowRight, false) == KeyAction::Scroll(60, 0));
    assert!(press(&mut q, Key::ArrowLeft, false) == KeyAction::Scroll(-60, 0));
    assert!(press(&mut q, Key::Other, true) == KeyAction::Nothing);
    assert_eq!(q, "q");
}

#[test]
fn opposite_arrows_cancel() {
    let mut q = String::new();
    let down = press(&mut q, Key::ArrowDown, false);
    let up = press(&mut q, Key::ArrowUp, false);
    match (down, up) {
        (KeyAction::Scroll(a, b), KeyAction::Scroll(c, d)) => assert_eq!((a + c, b + d), (0, 0)),
        _ => panic!("arrows scroll"),
    }
}
