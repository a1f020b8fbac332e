//! The window front end's decisions: how the window is laid out and named.
use crate::config::parser::{opt_view, Config};
use crate::daemon::commands::lit_wallpaper;
use crate::text::str_eq;
use vstd::prelude::*;

verus! {

/// How the window is opened.
#[derive(Clone, Copy, Debug, PartialEq, Eq, Structural)]
pub enum WindowLayout {
    /// Full screen, without decorations.
    Fullscreen,
    /// Maximised.
    Maximized,
    /// A floating window of this inner size.
    Sized(i32, i32),
    /// A floating window of the default size.
    Plain,
}

pub open spec fn lit_maximised() -> Seq<char> {
    seq!['m', 'a', 'x', 'i', 'm', 'i', 's', 'e', 'd']
}

pub open spec fn lit_windowed_wallerd() -> Seq<char> {
    seq!['w', 'i', 'n', 'd', 'o', 'w', 'e', 'd', '-', 'w', 'a', 'l', 'l', 'e', 'r', 'd']
}

/// The layout that the profile's mode asks for: `wallpaper` full screen,
/// `maximised` maximised, anything else floating, of the configured size
/// when both width and height are set.
pub open spec fn window_layout_spec(mode: Seq<char>, width: Option<i32>, height: Option<i32>) -> WindowLayout {
    if mode == lit_wallpaper() {
        WindowLayout::Fullscreen
    } else if mode == lit_maximised() {
        WindowLayout::Maximized
    } else {
        match (width, height) {
            (Some(w), Some(h)) => WindowLayout::Sized(w, h),
            _ => WindowLayout::Plain,
        }
    }
}

/// The layout of the window for the profile `config`.
pub fn window_layout(config: &Config) -> (r: WindowLayout)
    ensures
        r == window_layout_spec(config.mode@, config.width, config.height),
{
    proof {
        reveal_strlit("wallpaper");
        reveal_strlit("maximised");
        assert("wallpaper"@ =~= lit_wallpaper());
        assert("maximised"@ =~= lit_maximised());
    }
    if str_eq(config.mode.as_str(), "wallpaper") {
        WindowLayout::Fullscreen
    } else if str_eq(config.mode.as_str(), "maximised") {
        WindowLayout::Maximized
    } else {
        match (config.width, config.height) {
            (Some(w), Some(h)) => WindowLayout::Sized(w, h),
            _ => WindowLayout::Plain,
        }
    }
}

/// Whether the profile `config` runs as a layer-shell wallpaper rather than
/// in a window.
pub fn runs_as_wallpaper(config: &Config) -> (r: bool)
    ensures
        r == (config.mode@ == lit_wallpaper()),
{
    proof {
        reveal_strlit("wallpaper");
        assert("wallpaper"@ =~= lit_wallpaper());
    }
    str_eq(config.mode.as_str(), "wallpaper")
}

/// The title and application id of the window of the instance `name`.
pub fn window_name(name: Option<&str>) -> (r: String)
    ensures
        r@ == match opt_view(name) {
            Some(n) => lit_windowed_wallerd() + seq!['-'] + n,
            None => lit_windowed_wallerd(),
        },
{
    proof {
        reveal_strlit("windowed-wallerd");
        reveal_strlit("windowed-wallerd-");
        assert("windowed-wallerd"@ =~= lit_windowed_wallerd());
        assert("windowed-wallerd-"@ =~= lit_windowed_wallerd() + seq!['-']);
    }
    match name {
        Some(n) => {
            let mut r = "windowed-wallerd-".to_owned();
            r.append(n);
            r
        },
        None => "windowed-wallerd".to_owned(),
    }
}

/// A window extent as drawn: at least one pixel.
pub fn surface_extent(v: u32) -> (r: u32)
    ensures
        r == if v < 1 {
            1
        } else {
            v
        },
{
    if v < 1 {
        1
    } else {
        v
    }
}

} // verus!
