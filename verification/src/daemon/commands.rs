//! The commands that the daemon accepts on its socket, one per line, and
//! their parser.
use crate::text::{split_once, split_once_str, split_space, split_space_str, str_eq, trim, trim_str};
use vstd::prelude::*;

verus! {

/// What a `wallpaper` command asks for.
#[derive(Debug, PartialEq, Eq)]
pub enum WallpaperCmd {
    /// Show the image at this path.
    SetPath(String),
    /// Stop following the view.
    Stop,
    /// Follow the view again.
    Continue,
}

/// The two kinds of shader: one drawn every frame, one drawn while images change.
#[derive(Clone, Copy, Debug, PartialEq, Eq, Structural)]
pub enum ShaderKind {
    Constant,
    Transition,
}

/// What a `list` command asks for.
#[derive(Clone, Copy, Debug, PartialEq, Eq, Structural)]
pub enum ListCmd {
    Profiles,
    Shaders(ShaderKind),
}

/// A command to the daemon.
#[derive(Debug, PartialEq, Eq)]
pub enum Command {
    Wallpaper(WallpaperCmd),
    Config(String),
    List(ListCmd),
    SetShader(ShaderKind, String),
    Quit,
}

/// A `WallpaperCmd` with its path as characters.
pub enum WallpaperCmdView {
    SetPath(Seq<char>),
    Stop,
    Continue,
}

/// A `Command` with its strings as characters.
pub enum CommandView {
    Wallpaper(WallpaperCmdView),
    Config(Seq<char>),
    List(ListCmd),
    SetShader(ShaderKind, Seq<char>),
    Quit,
}

impl View for WallpaperCmd {
    type V = WallpaperCmdView;

    open spec fn view(&self) -> WallpaperCmdView {
        match self {
            WallpaperCmd::SetPath(p) => WallpaperCmdView::SetPath(p@),
            WallpaperCmd::Stop => WallpaperCmdView::Stop,
            WallpaperCmd::Continue => WallpaperCmdView::Continue,
        }
    }
}

impl View for Command {
    type V = CommandView;

    open spec fn view(&self) -> CommandView {
        match self {
            Command::Wallpaper(w) => CommandView::Wallpaper(w@),
            Command::Config(n) => CommandView::Config(n@),
            Command::List(l) => CommandView::List(*l),
            Command::SetShader(k, n) => CommandView::SetShader(*k, n@),
            Command::Quit => CommandView::Quit,
        }
    }
}

pub open spec fn lit_wallpaper() -> Seq<char> {
    seq!['w', 'a', 'l', 'l', 'p', 'a', 'p', 'e', 'r']
}

pub open spec fn lit_set() -> Seq<char> {
    seq!['s', 'e', 't']
}

pub open spec fn lit_stop() -> Seq<char> {
    seq!['s', 't', 'o', 'p']
}

pub open spec fn lit_continue() -> Seq<char> {
    seq!['c', 'o', 'n', 't', 'i', 'n', 'u', 'e']
}

pub open spec fn lit_config() -> Seq<char> {
    seq!['c', 'o', 'n', 'f', 'i', 'g']
}

pub open spec fn lit_list() -> Seq<char> {
    seq!['l', 'i', 's', 't']
}

pub open spec fn lit_profiles() -> Seq<char> {
    seq!['p', 'r', 'o', 'f', 'i', 'l', 'e', 's']
}

pub open spec fn lit_shaders() -> Seq<char> {
    seq!['s', 'h', 'a', 'd', 'e', 'r', 's']
}

pub open spec fn lit_shader() -> Seq<char> {
    seq!['s', 'h', 'a', 'd', 'e', 'r']
}

pub open spec fn lit_constant() -> Seq<char> {
    seq!['c', 'o', 'n', 's', 't', 'a', 'n', 't']
}

pub open spec fn lit_transition() -> Seq<char> {
    seq!['t', 'r', 'a', 'n', 's', 'i', 't', 'i', 'o', 'n']
}

pub open spec fn lit_quit() -> Seq<char> {
    seq!['q', 'u', 'i', 't']
}

/// The command that a line of the protocol stands for, if any.
///
/// The first word before a space names the command; `wallpaper` and `list`
/// take a sub-command word, `config` takes the rest of the line, trimmed, and
/// `shader set <kind> <name>` takes a kind word and the trimmed remainder.
pub open spec fn parse_command(s: Seq<char>) -> Option<CommandView> {
    let (cmd, rest) = split_space(s);
    if cmd == lit_wallpaper() {
        let (sub, params) = split_space(rest);
        if sub == lit_set() {
            Some(CommandView::Wallpaper(WallpaperCmdView::SetPath(params)))
        } else if sub == lit_stop() {
            Some(CommandView::Wallpaper(WallpaperCmdView::Stop))
        } else if sub == lit_continue() {
            Some(CommandView::Wallpaper(WallpaperCmdView::Continue))
        } else {
            None
        }
    } else if cmd == lit_config() && rest.len() > 0 {
        Some(CommandView::Config(trim(rest)))
    } else if cmd == lit_list() {
        let (sub, params) = split_space(rest);
        if trim(sub) == lit_profiles() {
            Some(CommandView::List(ListCmd::Profiles))
        } else if trim(sub) == lit_shaders() {
            if trim(params) == lit_constant() {
                Some(CommandView::List(ListCmd::Shaders(ShaderKind::Constant)))
            } else if trim(params) == lit_transition() {
                Some(CommandView::List(ListCmd::Shaders(ShaderKind::Transition)))
            } else {
                None
            }
        } else {
            None
        }
    } else if cmd == lit_shader() {
        match split_once(rest, ' ') {
            Some((p0, r1)) => match split_once(r1, ' ') {
                Some((p1, p2)) => {
                    if p0 == lit_set() && p1 == lit_constant() {
                        Some(CommandView::SetShader(ShaderKind::Constant, trim(p2)))
                    } else if p0 == lit_set() && p1 == lit_transition() {
                        Some(CommandView::SetShader(ShaderKind::Transition, trim(p2)))
                    } else {
                        None
                    }
                },
                None => None,
            },
            None => None,
        }
    } else if cmd == lit_quit() {
        Some(CommandView::Quit)
    } else {
        None
    }
}

fn is_wallpaper(x: &str) -> (r: bool)
    ensures
        r == (x@ == lit_wallpaper()),
{
    proof {
        reveal_strlit("wallpaper");
        assert("wallpaper"@ =~= lit_wallpaper());
    }
    str_eq(x, "wallpaper")
}

fn is_set(x: &str) -> (r: bool)
    ensures
        r == (x@ == lit_set()),
{
    proof {
        reveal_strlit("set");
        assert("set"@ =~= lit_set());
    }
    str_eq(x, "set")
}

fn is_stop(x: &str) -> (r: bool)
    ensures
        r == (x@ == lit_stop()),
{
    proof {
        reveal_strlit("stop");
        assert("stop"@ =~= lit_stop());
    }
    str_eq(x, "stop")
}

fn is_continue(x: &str) -> (r: bool)
    ensures
        r == (x@ == lit_continue()),
{
    proof {
        reveal_strlit("continue");
        assert("continue"@ =~= lit_continue());
    }
    str_eq(x, "continue")
}

fn is_config(x: &str) -> (r: bool)
    ensures
        r == (x@ == lit_config()),
{
    proof {
        reveal_strlit("config");
        assert("config"@ =~= lit_config());
    }
    str_eq(x, "config")
}

fn is_list(x: &str) -> (r: bool)
    ensures
        r == (x@ == lit_list()),
{
    proof {
        reveal_strlit("list");
        assert("list"@ =~= lit_list());
    }
    str_eq(x, "list")
}

fn is_profiles(x: &str) -> (r: bool)
    ensures
        r == (x@ == lit_profiles()),
{
    proof {
        reveal_strlit("profiles");
        assert("profiles"@ =~= lit_profiles());
    }
    str_eq(x, "profiles")
}

fn is_shaders(x: &str) -> (r: bool)
    ensures
        r == (x@ == lit_shaders()),
{
    proof {
        reveal_strlit("shaders");
        assert("shaders"@ =~= lit_shaders());
    }
    str_eq(x, "shaders")
}

fn is_shader(x: &str) -> (r: bool)
    ensures
        r == (x@ == lit_shader()),
{
    proof {
        reveal_strlit("shader");
        assert("shader"@ =~= lit_shader());
    }
    str_eq(x, "shader")
}

fn is_constant(x: &str) -> (r: bool)
    ensures
        r == (x@ == lit_constant()),
{
    proof {
        reveal_strlit("constant");
        assert("constant"@ =~= lit_constant());
    }
    str_eq(x, "constant")
}

fn is_transition(x: &str) -> (r: bool)
    ensures
        r == (x@ == lit_transition()),
{
    proof {
        reveal_strlit("transition");
        assert("transition"@ =~= lit_transition());
    }
    str_eq(x, "transition")
}

fn is_quit(x: &str) -> (r: bool)
    ensures
        r == (x@ == lit_quit()),
{
    proof {
        reveal_strlit("quit");
        assert("quit"@ =~= lit_quit());
    }
    str_eq(x, "quit")
}

impl Command {
    /// The command that the line `s` stands for, or `None` when it names none.
    pub fn parse(s: &str) -> (r: Option<Command>)
        ensures
            match r {
                Some(c) => parse_command(s@) == Some(c@),
                None => parse_command(s@) is None,
            },
    {
        let (cmd, rest) = split_space_str(s);
        if is_wallpaper(cmd) {
            let (sub, params) = split_space_str(rest);
            if is_set(sub) {
                Some(Command::Wallpaper(WallpaperCmd::SetPath(params.to_owned())))
            } else if is_stop(sub) {
                Some(Command::Wallpaper(WallpaperCmd::Stop))
            } else if is_continue(sub) {
                Some(Command::Wallpaper(WallpaperCmd::Continue))
            } else {
                None
            }
        } else if is_config(cmd) && rest.unicode_len() > 0 {
            Some(Command::Config(trim_str(rest).to_owned()))
        } else if is_list(cmd) {
            let (sub, params) = split_space_str(rest);
            let sub = trim_str(sub);
            if is_profiles(sub) {
                Some(Command::List(ListCmd::Profiles))
            } else if is_shaders(sub) {
                let kind = trim_str(params);
                if is_constant(kind) {
                    Some(Command::List(ListCmd::Shaders(ShaderKind::Constant)))
                } else if is_transition(kind) {
                    Some(Command::List(ListCmd::Shaders(ShaderKind::Transition)))
                } else {
                    None
                }
            } else {
                None
            }
        } else if is_shader(cmd) {
            match split_once_str(rest, ' ') {
                Some((p0, r1)) => match split_once_str(r1, ' ') {
                    Some((p1, p2)) => {
                        if is_set(p0) && is_constant(p1) {
                            Some(Command::SetShader(ShaderKind::Constant, trim_str(p2).to_owned()))
                        } else if is_set(p0) && is_transition(p1) {
                            Some(
                                Command::SetShader(ShaderKind::Transition, trim_str(p2).to_owned()),
                            )
                        } else {
                            None
                        }
                    },
                    None => None,
                },
                None => None,
            }
        } else if is_quit(cmd) {
            Some(Command::Quit)
        } else {
            None
        }
    }
}

} // verus!
