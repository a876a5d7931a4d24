use penrose::wm::bindings::{KeyCode, ModifierKey};
use penrose::wm::key_text::{
    keycodes_from_keymap, keymap_output_valid, lines_of, modifier_from_name, parse_binding,
    parse_u8_text, same_text, split_by, split_words, white_space, KeyCodeMap, Separator,
};
use penrose::Error;

const KEYMAP: &str = "keycode  24 = q Q q Q\nkeycode  36 = Return NoSymbol Return\r\nkeycode  65 = space NoSymbol space\nkeycode 200 =\n";

fn codes() -> KeyCodeMap {
    keycodes_from_keymap(KEYMAP)
}

#[test]
fn splitting_keeps_empty_pieces() {
    assert_eq!(split_by("M--a", Separator::Char('-')), vec!["M", "", "a"]);
    assert_eq!(split_by("", Separator::Char('-')), vec![""]);
    assert_eq!(split_by("a b", Separator::WhiteSpace), vec!["a", "b"]);
}

#[test]
fn words_drop_runs_of_white_space() {
    assert_eq!(split_words("  keycode\t 24 =  q "), vec!["keycode", "24", "=", "q"]);
    assert!(split_words("   ").is_empty());
    assert!(white_space('\u{3000}'));
    assert!(!white_space('x'));
}

#[test]
fn lines_strip_carriage_returns_and_the_last_newline() {
    assert_eq!(lines_of("a\r\nb\n\nc\n"), vec!["a", "b", "", "c"]);
    assert_eq!(lines_of("a\r"), vec!["a\r"]);
    assert!(lines_of("").is_empty());
}

#[test]
fn text_comparison() {
    assert!(same_text("Return", "Return"));
    assert!(!same_text("Return", "return"));
}

#[test]
fn u8_parsing_follows_from_str() {
    assert_eq!(parse_u8_text("0"), Some(0));
    assert_eq!(parse_u8_text("+255"), Some(255));
    assert_eq!(parse_u8_text("256"), None);
    assert_eq!(parse_u8_text("-1"), None);
    assert_eq!(parse_u8_text(""), None);
    assert_eq!(parse_u8_text("+"), None);
    assert_eq!(parse_u8_text("007"), Some(7));
}

#[test]
fn modifiers_are_named_by_one_letter() {
    assert!(matches!(modifier_from_name("C"), Ok(ModifierKey::Ctrl)));
    assert!(matches!(modifier_from_name("A"), Ok(ModifierKey::Alt)));
    assert!(matches!(modifier_from_name("S"), Ok(ModifierKey::Shift)));
    assert!(matches!(modifier_from_name("M"), Ok(ModifierKey::Meta)));
    match modifier_from_name("Super") {
        Err(Error::UnknownModifier { name }) => assert_eq!(name, "Super"),
        other => panic!("unexpected: {:?}", other),
    }
}

#[test]
fn the_keymap_gives_each_name_its_code() {
    let m = codes();
    assert_eq!(m.get("q"), Some(24));
    assert_eq!(m.get("Q"), Some(24));
    assert_eq!(m.get("Return"), Some(36));
    assert_eq!(m.get("NoSymbol"), Some(65));
    assert_eq!(m.get("space"), Some(65));
    assert_eq!(m.get("x"), None);
}

#[test]
fn the_keymap_must_name_a_code_on_every_line() {
    assert!(keymap_output_valid(KEYMAP));
    assert!(!keymap_output_valid("keycode\n"));
    assert!(!keymap_output_valid("keycode 300 = a\n"));
    assert!(keymap_output_valid(""));
}

#[test]
fn a_later_entry_replaces_an_earlier_one() {
    let mut m = KeyCodeMap::new();
    m.insert("a".to_string(), 1);
    m.insert("a".to_string(), 2);
    assert_eq!(m.get("a"), Some(2));
}

#[test]
fn bindings_parse_to_a_mask_and_a_code() {
    let m = codes();
    let k = parse_binding("M-S-Return", &m).unwrap();
    assert_eq!(k, KeyCode { mask: 65, code: 36 });
    let k = parse_binding("C-A-q", &m).unwrap();
    assert_eq!(k, KeyCode { mask: 12, code: 24 });
    let k = parse_binding("space", &m).unwrap();
    assert_eq!(k, KeyCode { mask: 0, code: 65 });
}

#[test]
fn binding_errors_name_the_bad_piece() {
    let m = codes();
    match parse_binding("M-Enter", &m) {
        Err(Error::UnknownKeyName { name }) => assert_eq!(name, "Enter"),
        other => panic!("unexpected: {:?}", other),
    }
    match parse_binding("X-q", &m) {
        Err(Error::UnknownModifier { name }) => assert_eq!(name, "X"),
        other => panic!("unexpected: {:?}", other),
    }
    match parse_binding("M-", &m) {
        Err(Error::UnknownKeyName { name }) => assert_eq!(name, ""),
        other => panic!("unexpected: {:?}", other),
    }
}
