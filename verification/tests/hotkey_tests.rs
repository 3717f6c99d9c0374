use thirdspace::hotkey::parse_key_code;
use thirdspace::hotkey::parse_shortcut;
use thirdspace::hotkey::KeyCode;
use thirdspace::hotkey::ModifierSet;
use thirdspace::HotkeyError;

#[test]
fn parse_is_case_and_order_insensitive() {
    let a = parse_shortcut("Ctrl+Alt+T").unwrap();
    let b = parse_shortcut("alt+ctrl+t").unwrap();
    assert_eq!(a, b);
    assert_eq!(
        a.modifiers,
        ModifierSet { ctrl: true, alt: true, shift: false, super_key: false }
    );
    assert_eq!(a.key, KeyCode::Letter(b't'));
}

#[test]
fn parse_without_key_fails() {
    assert_eq!(parse_shortcut("Ctrl+Alt"), Err(HotkeyError::NoKeySpecified));
}

#[test]
fn parse_with_two_keys_fails() {
    assert_eq!(parse_shortcut("A+B"), Err(HotkeyError::MultipleKeysSpecified));
}

#[test]
fn parse_unknown_token_fails_with_the_token() {
    assert_eq!(
        parse_shortcut("Ctrl+Foo"),
        Err(HotkeyError::UnknownKey("foo".to_string()))
    );
}

#[test]
fn parse_empty_input_fails() {
    assert_eq!(parse_shortcut(""), Err(HotkeyError::NoKeySpecified));
    assert_eq!(parse_shortcut("++"), Err(HotkeyError::NoKeySpecified));
}

#[test]
fn parse_tolerates_spaces_and_empty_tokens() {
    let a = parse_shortcut(" ctrl + shift + p ").unwrap();
    assert_eq!(
        a.modifiers,
        ModifierSet { ctrl: true, alt: false, shift: true, super_key: false }
    );
    assert_eq!(a.key, KeyCode::Letter(b'p'));
}

#[test]
fn all_modifier_aliases_fold_in() {
    let a = parse_shortcut("control+option+shift+win+x").unwrap();
    assert_eq!(
        a.modifiers,
        ModifierSet { ctrl: true, alt: true, shift: true, super_key: true }
    );
    let b = parse_shortcut("meta+z").unwrap();
    assert!(b.modifiers.super_key);
    let c = parse_shortcut("cmd+z").unwrap();
    assert!(c.modifiers.super_key);
    let d = parse_shortcut("command+z").unwrap();
    assert!(d.modifiers.super_key);
    let e = parse_shortcut("super+z").unwrap();
    assert!(e.modifiers.super_key);
}

#[test]
fn key_codes_cover_letters_digits_and_function_keys() {
    assert_eq!(parse_key_code("a"), Some(KeyCode::Letter(b'a')));
    assert_eq!(parse_key_code("z"), Some(KeyCode::Letter(b'z')));
    assert_eq!(parse_key_code("0"), Some(KeyCode::Digit(0)));
    assert_eq!(parse_key_code("9"), Some(KeyCode::Digit(9)));
    assert_eq!(parse_key_code("f1"), Some(KeyCode::Function(1)));
    assert_eq!(parse_key_code("f12"), Some(KeyCode::Function(12)));
    assert_eq!(parse_key_code("f01"), Some(KeyCode::Function(1)));
    assert_eq!(parse_key_code("f0"), None);
    assert_eq!(parse_key_code("f13"), None);
    assert_eq!(parse_key_code("f300"), None);
    assert_eq!(parse_key_code("f1x"), None);
}

#[test]
fn key_codes_cover_named_keys_and_synonyms() {
    assert_eq!(parse_key_code("space"), Some(KeyCode::Space));
    assert_eq!(parse_key_code("spacebar"), Some(KeyCode::Space));
    assert_eq!(parse_key_code("enter"), Some(KeyCode::Enter));
    assert_eq!(parse_key_code("return"), Some(KeyCode::Enter));
    assert_eq!(parse_key_code("tab"), Some(KeyCode::Tab));
    assert_eq!(parse_key_code("esc"), Some(KeyCode::Escape));
    assert_eq!(parse_key_code("escape"), Some(KeyCode::Escape));
    assert_eq!(parse_key_code("backspace"), Some(KeyCode::Backspace));
    assert_eq!(parse_key_code("delete"), Some(KeyCode::Delete));
    assert_eq!(parse_key_code("del"), Some(KeyCode::Delete));
    assert_eq!(parse_key_code("insert"), Some(KeyCode::Insert));
    assert_eq!(parse_key_code("ins"), Some(KeyCode::Insert));
    assert_eq!(parse_key_code("home"), Some(KeyCode::Home));
    assert_eq!(parse_key_code("end"), Some(KeyCode::End));
    assert_eq!(parse_key_code("pageup"), Some(KeyCode::PageUp));
    assert_eq!(parse_key_code("pgup"), Some(KeyCode::PageUp));
    assert_eq!(parse_key_code("pagedown"), Some(KeyCode::PageDown));
    assert_eq!(parse_key_code("pgdn"), Some(KeyCode::PageDown));
    assert_eq!(parse_key_code("up"), Some(KeyCode::ArrowUp));
    assert_eq!(parse_key_code("arrowup"), Some(KeyCode::ArrowUp));
    assert_eq!(parse_key_code("down"), Some(KeyCode::ArrowDown));
    assert_eq!(parse_key_code("arrowdown"), Some(KeyCode::ArrowDown));
    assert_eq!(parse_key_code("left"), Some(KeyCode::ArrowLeft));
    assert_eq!(parse_key_code("arrowleft"), Some(KeyCode::ArrowLeft));
    assert_eq!(parse_key_code("right"), Some(KeyCode::ArrowRight));
    assert_eq!(parse_key_code("arrowright"), Some(KeyCode::ArrowRight));
    assert_eq!(parse_key_code("unknown"), None);
    assert_eq!(parse_key_code("T"), None);
}

#[test]
fn default_hotkey_spec_parses() {
    let a = parse_shortcut("Ctrl+Alt+T").unwrap();
    assert_eq!(a.key, KeyCode::Letter(b't'));
    assert!(a.modifiers.ctrl && a.modifiers.alt);
    assert!(!a.modifiers.shift && !a.modifiers.super_key);
}
