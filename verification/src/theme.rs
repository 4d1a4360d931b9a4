//! The two colour themes of the dashboard.

use vstd::prelude::*;

use crate::checks::Status;

verus! {

/// Whether the dark or the light theme is shown.
#[derive(Clone, Copy, Debug, PartialEq, Eq, Structural)]
pub enum Mode {
    Dark,
    Light,
}

/// A terminal colour: one of the named ones, the terminal's own, or red,
/// green and blue.
#[derive(Clone, Copy, Debug, PartialEq, Eq, Structural)]
pub enum Color {
    Reset,
    Black,
    Red,
    Green,
    Yellow,
    Blue,
    Magenta,
    Cyan,
    Gray,
    DarkGray,
    Rgb(u8, u8, u8),
}

/// The colours of one theme.
#[derive(Clone, Copy, Debug, PartialEq, Eq, Structural)]
pub struct Theme {
    pub mode: Mode,
    pub bg: Color,
    pub fg: Color,
    pub dim: Color,
    pub accent: Color,
    pub badge_fg: Color,
    pub pass: Color,
    pub warn: Color,
    pub fail: Color,
    pub change: Color,
    pub met_name: Color,
}

/// The dark theme: the terminal's own colours with named accents.
pub open spec fn dark_theme() -> Theme {
    Theme {
        mode: Mode::Dark,
        bg: Color::Reset,
        fg: Color::Reset,
        dim: Color::DarkGray,
        accent: Color::Cyan,
        badge_fg: Color::Black,
        pass: Color::Green,
        warn: Color::Yellow,
        fail: Color::Red,
        change: Color::Magenta,
        met_name: Color::Gray,
    }
}

/// The light theme: dark text on a pale background.
pub open spec fn light_theme() -> Theme {
    Theme {
        mode: Mode::Light,
        bg: Color::Rgb(246, 246, 248),
        fg: Color::Rgb(24, 26, 31),
        dim: Color::Rgb(112, 116, 126),
        accent: Color::Rgb(0, 84, 138),
        badge_fg: Color::Rgb(250, 250, 252),
        pass: Color::Rgb(21, 112, 70),
        warn: Color::Rgb(148, 94, 0),
        fail: Color::Rgb(176, 34, 52),
        change: Color::Rgb(132, 30, 148),
        met_name: Color::Rgb(74, 78, 88),
    }
}

/// The theme of a mode.
pub open spec fn theme_of(mode: Mode) -> Theme {
    match mode {
        Mode::Dark => dark_theme(),
        Mode::Light => light_theme(),
    }
}

/// The other mode.
pub open spec fn other(mode: Mode) -> Mode {
    match mode {
        Mode::Dark => Mode::Light,
        Mode::Light => Mode::Dark,
    }
}

/// The colour a theme gives a verdict.
pub open spec fn status_colour(theme: Theme, status: Status) -> Color {
    match status {
        Status::Pass => theme.pass,
        Status::Warn => theme.warn,
        Status::Fail => theme.fail,
    }
}

impl Theme {
    /// The dark theme.
    pub fn dark() -> (r: Self)
        ensures
            r == dark_theme(),
    {
        Theme {
            mode: Mode::Dark,
            bg: Color::Reset,
            fg: Color::Reset,
            dim: Color::DarkGray,
            accent: Color::Cyan,
            badge_fg: Color::Black,
            pass: Color::Green,
            warn: Color::Yellow,
            fail: Color::Red,
            change: Color::Magenta,
            met_name: Color::Gray,
        }
    }

    /// The light theme.
    pub fn light() -> (r: Self)
        ensures
            r == light_theme(),
    {
        Theme {
            mode: Mode::Light,
            bg: Color::Rgb(246, 246, 248),
            fg: Color::Rgb(24, 26, 31),
            dim: Color::Rgb(112, 116, 126),
            accent: Color::Rgb(0, 84, 138),
            badge_fg: Color::Rgb(250, 250, 252),
            pass: Color::Rgb(21, 112, 70),
            warn: Color::Rgb(148, 94, 0),
            fail: Color::Rgb(176, 34, 52),
            change: Color::Rgb(132, 30, 148),
            met_name: Color::Rgb(74, 78, 88),
        }
    }

    /// The theme of `mode`.
    pub fn of(mode: Mode) -> (r: Self)
        ensures
            r == theme_of(mode),
    {
        match mode {
            Mode::Dark => Theme::dark(),
            Mode::Light => Theme::light(),
        }
    }

    /// The theme of the other mode.
    pub fn flipped(self) -> (r: Self)
        ensures
            r == theme_of(other(self.mode)),
    {
        match self.mode {
            Mode::Dark => Theme::light(),
            Mode::Light => Theme::dark(),
        }
    }

    /// The colour this theme gives `status`.
    pub fn status(self, status: Status) -> (r: Color)
        ensures
            r == status_colour(self, status),
    {
        match status {
            Status::Pass => self.pass,
            Status::Warn => self.warn,
            Status::Fail => self.fail,
        }
    }
}

/// Each mode's theme carries that mode, and flipping twice comes back to
/// the theme one started from.
pub proof fn law_flip_round_trip(mode: Mode)
    ensures
        theme_of(mode).mode == mode,
        theme_of(other(theme_of(mode).mode)).mode != mode,
        theme_of(other(theme_of(other(theme_of(mode).mode)).mode)) == theme_of(mode),
{
}

} // verus!
