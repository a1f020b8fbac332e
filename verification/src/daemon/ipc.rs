//! How the daemon answers a line received on its socket.
use super::commands::{parse_command, Command, CommandView, ListCmd, ShaderKind};
use crate::config::parser::{lit_default, ConfigFile};
use crate::socket::strings_view;
use crate::text::{contains_str, str_eq, trim, trim_str};
use vstd::prelude::*;

verus! {

/// What to do with a received line.
#[derive(Debug, PartialEq, Eq)]
pub enum IpcAction {
    /// Answer with this line.
    Reply(String),
    /// Answer with the profiles as JSON.
    ListProfiles,
    /// Answer with the shaders of a kind as JSON.
    ListShaders(ShaderKind),
    /// Make `active` the profile in force, pass the command on, and answer
    /// whether it could be passed on.
    SwitchProfile { cmd: Command, active: Option<String> },
    /// Pass the command on, and answer whether it could be.
    Forward(Command),
}

/// An `IpcAction` with its strings as characters.
pub enum IpcActionView {
    Reply(Seq<char>),
    ListProfiles,
    ListShaders(ShaderKind),
    SwitchProfile { cmd: CommandView, active: Option<Seq<char>> },
    Forward(CommandView),
}

impl View for IpcAction {
    type V = IpcActionView;

    open spec fn view(&self) -> IpcActionView {
        match self {
            IpcAction::Reply(s) => IpcActionView::Reply(s@),
            IpcAction::ListProfiles => IpcActionView::ListProfiles,
            IpcAction::ListShaders(k) => IpcActionView::ListShaders(*k),
            IpcAction::SwitchProfile { cmd, active } => IpcActionView::SwitchProfile {
                cmd: cmd@,
                active: match active {
                    Some(a) => Some(a@),
                    None => None,
                },
            },
            IpcAction::Forward(c) => IpcActionView::Forward(c@),
        }
    }
}

pub open spec fn lit_unknown_command() -> Seq<char> {
    seq![
        'e', 'r', 'r', 'o', 'r', ':', ' ', 'u', 'n', 'k', 'n', 'o', 'w', 'n', ' ', 'c', 'o', 'm', 'm',
        'a', 'n', 'd',
    ]
}

pub open spec fn lit_unknown_profile_prefix() -> Seq<char> {
    seq![
        'e', 'r', 'r', 'o', 'r', ':', ' ', 'u', 'n', 'k', 'n', 'o', 'w', 'n', ' ', 'p', 'r', 'o', 'f',
        'i', 'l', 'e', ' ', '\'',
    ]
}

pub open spec fn lit_ok() -> Seq<char> {
    seq!['o', 'k']
}

pub open spec fn lit_daemon_stopped() -> Seq<char> {
    seq![
        'e', 'r', 'r', 'o', 'r', ':', ' ', 'd', 'a', 'e', 'm', 'o', 'n', ' ', 's', 't', 'o', 'p', 'p',
        'e', 'd',
    ]
}

/// What to do with the received line `line` when the configuration file has
/// the named profiles `profiles`: the line is trimmed and parsed; a line that
/// names no command is answered with an error, as is a switch to a profile
/// that is neither `default` nor named.
pub open spec fn ipc_decide_spec(line: Seq<char>, profiles: Seq<Seq<char>>) -> IpcActionView {
    match parse_command(trim(line)) {
        None => IpcActionView::Reply(lit_unknown_command()),
        Some(CommandView::List(ListCmd::Profiles)) => IpcActionView::ListProfiles,
        Some(CommandView::List(ListCmd::Shaders(k))) => IpcActionView::ListShaders(k),
        Some(CommandView::Config(name)) => if name != lit_default() && !profiles.contains(name) {
            IpcActionView::Reply(lit_unknown_profile_prefix() + name + seq!['\''])
        } else {
            IpcActionView::SwitchProfile {
                cmd: CommandView::Config(name),
                active: if name == lit_default() {
                    None
                } else {
                    Some(name)
                },
            }
        },
        Some(c) => IpcActionView::Forward(c),
    }
}

/// What to do with the received line `line`, given the named profiles.
pub fn ipc_decide(line: &str, profiles: &Vec<String>) -> (r: IpcAction)
    ensures
        r@ == ipc_decide_spec(line@, strings_view(profiles@)),
        parse_command(trim(line@)) is None ==> r@ == IpcActionView::Reply(lit_unknown_command()),
        parse_command(trim(line@)) matches Some(CommandView::List(ListCmd::Shaders(k)))
            ==> r@ == IpcActionView::ListShaders(k),
        parse_command(trim(line@)) matches Some(CommandView::List(ListCmd::Profiles))
            ==> r@ == IpcActionView::ListProfiles,
        parse_command(trim(line@)) is Some && !(parse_command(trim(line@))->0 is List) && !(
        parse_command(trim(line@))->0 is Config) ==> r@ == IpcActionView::Forward(
            parse_command(trim(line@))->0,
        ),
        parse_command(trim(line@)) matches Some(CommandView::Config(n)) ==> (r@ is SwitchProfile
            <==> (n == lit_default() || strings_view(profiles@).contains(n))),
{
    proof {
        reveal_strlit("error: unknown command");
        reveal_strlit("error: unknown profile '");
        reveal_strlit("'");
        reveal_strlit("default");
        assert("error: unknown command"@ =~= lit_unknown_command());
        assert("error: unknown profile '"@ =~= lit_unknown_profile_prefix());
        assert("'"@ =~= seq!['\'']);
        assert("default"@ =~= lit_default());
    }
    let msg = trim_str(line);
    match Command::parse(msg) {
        None => IpcAction::Reply("error: unknown command".to_owned()),
        Some(Command::List(ListCmd::Profiles)) => IpcAction::ListProfiles,
        Some(Command::List(ListCmd::Shaders(k))) => IpcAction::ListShaders(k),
        Some(Command::Config(name)) => {
            let is_default = str_eq(name.as_str(), "default");
            if !is_default && !contains_str(profiles, name.as_str()) {
                let mut reply = "error: unknown profile '".to_owned();
                reply.append(name.as_str());
                reply.append("'");
                IpcAction::Reply(reply)
            } else {
                let active = if is_default {
                    None
                } else {
                    Some(name.clone())
                };
                IpcAction::SwitchProfile { cmd: Command::Config(name), active }
            }
        },
        Some(c) => IpcAction::Forward(c),
    }
}

/// The answer to a command that was to be passed on: `ok` when it was,
/// else an error.
pub fn forward_reply(sent: bool) -> (r: String)
    ensures
        r@ == if sent {
            lit_ok()
        } else {
            lit_daemon_stopped()
        },
{
    proof {
        reveal_strlit("ok");
        reveal_strlit("error: daemon stopped");
        assert("ok"@ =~= lit_ok());
        assert("error: daemon stopped"@ =~= lit_daemon_stopped());
    }
    if sent {
        "ok".to_owned()
    } else {
        "error: daemon stopped".to_owned()
    }
}


proof fn lemma_first_profile(cf: ConfigFile, n: Seq<char>, i: int)
    requires
        0 <= i < cf.additional@.len(),
        cf.additional@[i].0@ == n,
    ensures
        exists|j: int| cf.profile_at(n, j),
    decreases i,
{
    if exists|k: int| 0 <= k < i && cf.additional@[k].0@ == n {
        let k = choose|k: int| 0 <= k < i && cf.additional@[k].0@ == n;
        lemma_first_profile(cf, n, k);
    } else {
        assert(cf.profile_at(n, i));
    }
}

/// A profile switch that the daemon accepts, when it knows the names of the
/// file's profiles, is to a profile that the file has.
pub proof fn lemma_accepted_switch_is_known(cf: ConfigFile, names: Seq<Seq<char>>, line: Seq<char>)
    requires
        names.len() == cf.additional@.len(),
        forall|i: int| 0 <= i < names.len() ==> names[i] == cf.additional@[i].0@,
    ensures
        ipc_decide_spec(line, names) matches IpcActionView::SwitchProfile { cmd, active } ==> match active {
            Some(n) => cf.profile_spec(n) is Some && cf.active_spec(Some(n)) == cf.profile_spec(n).unwrap(),
            None => cf.active_spec(None) == cf.default,
        },
{
    match parse_command(trim(line)) {
        Some(CommandView::Config(name)) => {
            if name != lit_default() && names.contains(name) {
                let i = choose|i: int| 0 <= i < names.len() && names[i] == name;
                lemma_first_profile(cf, name, i);
            }
        },
        _ => {},
    }
}

/// The daemon answers every command it parses as that very command: a
/// listing of shaders lists the kind asked for, a listing of profiles lists
/// the profiles, any other command but a profile switch is passed on
/// unchanged, a switch is refused only for a profile the file does not name,
/// and a line that parses as no command is answered with an error.
pub proof fn lemma_ipc_follows_parse(line: Seq<char>, profiles: Seq<Seq<char>>)
    ensures
        parse_command(trim(line)) is None ==> ipc_decide_spec(line, profiles)
            == IpcActionView::Reply(lit_unknown_command()),
        parse_command(trim(line)) matches Some(CommandView::List(ListCmd::Shaders(k)))
            ==> ipc_decide_spec(line, profiles) == IpcActionView::ListShaders(k),
        parse_command(trim(line)) matches Some(CommandView::List(ListCmd::Profiles))
            ==> ipc_decide_spec(line, profiles) == IpcActionView::ListProfiles,
        parse_command(trim(line)) is Some && !(parse_command(trim(line))->0 is List) && !(
        parse_command(trim(line))->0 is Config) ==> ipc_decide_spec(line, profiles)
            == IpcActionView::Forward(parse_command(trim(line))->0),
        parse_command(trim(line)) matches Some(CommandView::Config(n)) ==> {
            &&& (ipc_decide_spec(line, profiles) is SwitchProfile <==> (n == lit_default()
                || profiles.contains(n)))
            &&& (ipc_decide_spec(line, profiles) matches IpcActionView::SwitchProfile { cmd, active }
                ==> cmd == CommandView::Config(n) && (active is None <==> n == lit_default()))
        },
{
}

} // verus!
