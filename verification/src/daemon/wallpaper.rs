//! The wallpaper front end's decisions: which outputs get a wallpaper, and
//! what a surface's new size asks for.
use crate::socket::strings_view;
use crate::text::contains_str;
use vstd::prelude::*;

verus! {

/// Whether an output named `output` (if it has a name) is one of `displays`,
/// where `*` stands for every output.
pub open spec fn output_matches_spec(displays: Seq<Seq<char>>, output: Option<Seq<char>>) -> bool {
    displays.contains(seq!['*']) || match output {
        Some(n) => displays.contains(n),
        None => false,
    }
}

/// Whether the output named `output` gets a wallpaper under `displays`.
pub fn output_matches(displays: &Vec<String>, output: Option<&str>) -> (r: bool)
    ensures
        r == output_matches_spec(
            strings_view(displays@),
            match output {
                Some(o) => Some(o@),
                None => None,
            },
        ),
{
    proof {
        reveal_strlit("*");
        assert("*"@ =~= seq!['*']);
    }
    if contains_str(displays, "*") {
        return true;
    }
    match output {
        Some(n) => contains_str(displays, n),
        None => false,
    }
}

/// What a surface's configured size asks for.
#[derive(Clone, Copy, Debug, PartialEq, Eq, Structural)]
pub enum ConfigureAction {
    /// A zero size: wait for a real one.
    Ignore,
    /// The surface has no renderer yet: make one of this size.
    Create,
    /// Resize the surface's renderer.
    Resize,
}

/// What the size `w` by `h` asks of a surface that has a renderer or not.
pub fn configure_action(w: u32, h: u32, has_renderer: bool) -> (r: ConfigureAction)
    ensures
        r == if w == 0 || h == 0 {
            ConfigureAction::Ignore
        } else if has_renderer {
            ConfigureAction::Resize
        } else {
            ConfigureAction::Create
        },
{
    if w == 0 || h == 0 {
        ConfigureAction::Ignore
    } else if has_renderer {
        ConfigureAction::Resize
    } else {
        ConfigureAction::Create
    }
}

} // verus!
