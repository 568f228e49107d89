//! Settings the user toggles from the keyboard.
use crate::spiro::Settings;
use vstd::prelude::*;

verus! {

/// Toggles the sidebar when the toggle key was just pressed.
pub fn input(settings: &mut Settings, toggle_pressed: bool)
    ensures
        final(settings).gizmos_enabled == old(settings).gizmos_enabled,
        final(settings).show_sidebar == (old(settings).show_sidebar != toggle_pressed),
{
    if toggle_pressed {
        settings.show_sidebar = !settings.show_sidebar;
    }
}

} // verus!
