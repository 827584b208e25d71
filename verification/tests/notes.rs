use picodsp_ble::note_stack::NoteStack;

#[test]
fn last_note_sounds_and_the_one_before_returns() {
    let mut keys = NoteStack::new();
    assert_eq!(keys.active_note(), None);
    keys.note_on(60);
    keys.note_on(64);
    keys.note_on(67);
    assert_eq!(keys.active_note(), Some(67));
    keys.note_off(67);
    assert_eq!(keys.active_note(), Some(64));
    keys.note_off(60);
    assert_eq!(keys.active_note(), Some(64));
    keys.note_off(64);
    assert_eq!(keys.active_note(), None);
}

#[test]
fn repeated_note_keeps_its_place() {
    let mut keys = NoteStack::new();
    keys.note_on(60);
    keys.note_on(62);
    keys.note_on(60);
    assert_eq!(keys.active_note(), Some(62));
    keys.note_off(60);
    keys.note_off(62);
    assert_eq!(keys.active_note(), None);
}

#[test]
fn seventeenth_note_is_passed_over() {
    let mut keys = NoteStack::new();
    for n in 0..17 {
        keys.note_on(n);
    }
    assert_eq!(keys.active_note(), Some(15));
    keys.note_off(16);
    assert_eq!(keys.active_note(), Some(15));
}

#[test]
fn sustain_holds_until_released() {
    let mut keys = NoteStack::new();
    keys.note_on(60);
    keys.set_sustain(true);
    keys.note_on(64);
    keys.note_off(64);
    keys.note_off(60);
    assert_eq!(keys.active_note(), Some(64));
    // played again under the pedal: kept
    keys.note_on(60);
    keys.set_sustain(false);
    assert_eq!(keys.active_note(), Some(60));
    keys.note_off(60);
    assert_eq!(keys.active_note(), None);
}

#[test]
fn sustain_defers_the_release() {
    let mut keys = NoteStack::new();
    for n in [60, 62, 64, 65] {
        keys.note_on(n);
    }
    keys.set_sustain(true);
    keys.note_off(65);
    keys.note_off(62);
    keys.note_off(62);
    keys.note_off(99);
    keys.set_sustain(false);
    assert_eq!(keys.active_note(), Some(64));
    keys.note_off(64);
    assert_eq!(keys.active_note(), Some(60));
}

#[test]
fn clear_lets_everything_go() {
    let mut keys = NoteStack::new();
    keys.note_on(60);
    keys.set_sustain(true);
    keys.note_off(60);
    keys.clear();
    assert_eq!(keys.active_note(), None);
    // the pedal is up again
    keys.note_on(61);
    keys.note_off(61);
    assert_eq!(keys.active_note(), None);
}

#[test]
fn soft_pedal_reports_the_release() {
    let mut keys = NoteStack::new();
    assert!(!keys.soft_pedal(false));
    assert!(!keys.soft_pedal(true));
    assert!(!keys.soft_pedal(true));
    assert!(keys.soft_pedal(false));
    assert!(!keys.soft_pedal(false));
}
