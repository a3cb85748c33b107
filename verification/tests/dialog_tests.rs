use msgbox::dialog::click_dismisses;
use msgbox::dialog::dialog_keeps_running;

#[test]
fn guard_groups_as_open_and_not_escape_or_not_enter() {
    // While Enter is up the guard stays true whatever the other inputs:
    // the inherited grouping `(open && !escape) || !enter`.
    assert!(dialog_keeps_running(true, false, false));
    assert!(dialog_keeps_running(true, true, false));
    assert!(dialog_keeps_running(false, false, false));
    assert!(dialog_keeps_running(false, true, false));
    // With Enter held, only an open window with Escape up keeps running.
    assert!(dialog_keeps_running(true, false, true));
    assert!(!dialog_keeps_running(true, true, true));
    assert!(!dialog_keeps_running(false, false, true));
    assert!(!dialog_keeps_running(false, true, true));
}

#[test]
fn dismissal_needs_overlap_and_a_held_button_together() {
    assert!(click_dismisses(true, true));
    assert!(!click_dismisses(true, false));
    assert!(!click_dismisses(false, true));
    assert!(!click_dismisses(false, false));
}
