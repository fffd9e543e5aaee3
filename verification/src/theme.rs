//! The theme's light/dark mode.

use crate::settings::ThemeChoice;
use vstd::prelude::*;

verus! {

#[derive(Clone, Copy, Debug, PartialEq, Eq, Structural)]
pub enum Mode {
    Light,
    Dark,
}

/// The mode a theme choice gives, following the system where the choice is `System`.
pub fn mode_for(choice: ThemeChoice, system_dark: bool) -> (r: Mode)
    ensures
        r == match choice {
            ThemeChoice::Light => Mode::Light,
            ThemeChoice::Dark => Mode::Dark,
            ThemeChoice::System => if system_dark {
                Mode::Dark
            } else {
                Mode::Light
            },
        },
{
    match choice {
        ThemeChoice::Light => Mode::Light,
        ThemeChoice::Dark => Mode::Dark,
        ThemeChoice::System => if system_dark {
            Mode::Dark
        } else {
            Mode::Light
        },
    }
}

} // verus!
