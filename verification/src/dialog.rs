use vstd::prelude::*;

verus! {

/// The guard of the message-box poll loop, exactly as the dialog has always
/// evaluated it: `open && !escape || !enter` groups as
/// `(open && !escape) || !enter`, so while Enter is up the guard stays true
/// whatever the window state or the Escape key report.  Whether Enter ought
/// instead to confirm the dialog is an open product question; the grouping
/// is kept as observed behavior, not silently corrected.
pub fn dialog_keeps_running(open: bool, escape_down: bool, enter_down: bool) -> (r: bool)
    ensures
        r == ((open && !escape_down) || !enter_down),
{
    open && !escape_down || !enter_down
}

/// Whether one loop iteration dismisses the dialog: the button must report
/// the mouse inside its rectangle and the window must report the left mouse
/// button held down, both in the same iteration.  There is no press/release
/// edge detection; a held button can register across iterations and a fast
/// click between polls can be missed.  That too is inherited behavior.
pub fn click_dismisses(over_button: bool, left_down: bool) -> (r: bool)
    ensures
        r == (over_button && left_down),
{
    over_button && left_down
}

} // verus!
