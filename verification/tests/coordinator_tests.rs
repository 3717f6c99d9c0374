use thirdspace::coordinator::parse_spec;
use thirdspace::coordinator::ShortcutCoordinator;
use thirdspace::HotkeyError;
use thirdspace::TranslateError;

#[test]
fn fresh_coordinator_has_no_binding() {
    let c = ShortcutCoordinator::new();
    assert!(c.slot.is_none());
    assert!(!c.bound);
}

#[test]
fn register_success_fills_the_slot() {
    let mut c = ShortcutCoordinator::new();
    let sc = parse_spec("Ctrl+Alt+T").unwrap();
    assert!(c.swap_begin().is_none());
    c.commit_register(sc, true).unwrap();
    assert_eq!(c.slot, Some(sc));
    assert!(c.bound);
}

#[test]
fn register_failure_leaves_the_slot_unchanged() {
    let mut c = ShortcutCoordinator::new();
    let sc = parse_spec("Ctrl+Alt+T").unwrap();
    let r = c.commit_register(sc, false);
    assert_eq!(r, Err(TranslateError::HotkeyRegisterFailed));
    assert!(c.slot.is_none());
    assert!(!c.bound);
}

#[test]
fn failed_swap_leaves_no_active_binding() {
    let mut c = ShortcutCoordinator::new();
    let old = parse_spec("Ctrl+Alt+T").unwrap();
    c.commit_register(old, true).unwrap();
    // Replace with a new spec; the old binding is unregistered first.
    let unregister = c.swap_begin();
    assert_eq!(unregister, Some(old));
    assert!(c.slot.is_none());
    let newer = parse_spec("Ctrl+Shift+Y").unwrap();
    let r = c.commit_register(newer, false);
    assert_eq!(r, Err(TranslateError::HotkeyRegisterFailed));
    // Explicitly no binding, never a silent fallback to the old one.
    assert!(c.slot.is_none());
    assert!(!c.bound);
}

#[test]
fn swap_parse_failure_surfaces_before_anything_is_unregistered() {
    let r = parse_spec("Ctrl+Nope");
    assert_eq!(
        r.unwrap_err(),
        TranslateError::HotkeyParseError(HotkeyError::UnknownKey("nope".to_string()))
    );
}

#[test]
fn pause_retains_the_value_and_resume_restores_it() {
    let mut c = ShortcutCoordinator::new();
    let sc = parse_spec("Ctrl+Alt+T").unwrap();
    c.commit_register(sc, true).unwrap();
    // Pause while a capture UI records a new combination.
    assert_eq!(c.pause_target(), Some(sc));
    c.note_paused();
    assert_eq!(c.slot, Some(sc));
    assert!(!c.bound);
    // Resume re-registers the retained value.
    assert_eq!(c.resume_target(), Some(sc));
    c.note_resumed();
    assert_eq!(c.slot, Some(sc));
    assert!(c.bound);
    // Resuming again without an intervening pause changes nothing.
    assert_eq!(c.resume_target(), Some(sc));
    c.note_resumed();
    assert_eq!(c.slot, Some(sc));
    assert!(c.bound);
}

#[test]
fn pause_with_nothing_registered_is_a_no_op() {
    let c = ShortcutCoordinator::new();
    assert_eq!(c.pause_target(), None);
    assert_eq!(c.resume_target(), None);
}
