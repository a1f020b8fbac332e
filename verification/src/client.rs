//! The control client's side of the protocol: the line it sends for each of
//! its commands, and that the daemon reads that line back as the command.
use crate::daemon::commands::{
    parse_command, lit_config, lit_constant, lit_continue, lit_list, lit_profiles, lit_quit, lit_set, lit_shader,
    lit_shaders, lit_stop, lit_transition, lit_wallpaper, CommandView, ListCmd, ShaderKind,
    WallpaperCmdView,
};
use crate::text::{
    is_ws, lemma_split_once_concat, split_once, split_space, trim, trim_end, trim_start,
};
use vstd::prelude::*;

verus! {

/// A command of the control client that goes to a daemon.
#[derive(Debug, PartialEq, Eq)]
pub enum ClientCommand {
    /// Show the image at this path.
    WallpaperSet(String),
    /// Stop following the view.
    WallpaperStop,
    /// Follow the view again.
    WallpaperContinue,
    /// Switch to this profile.
    Config(String),
    ListProfiles,
    ListShaders(ShaderKind),
    /// Use this constant shader.
    ShaderConstant(String),
    /// Use this transition shader.
    ShaderTransition(String),
    /// Stop the daemon.
    Kill,
}

pub open spec fn sp() -> Seq<char> {
    seq![' ']
}

/// The line the client sends for `c`, without its end of line.
pub open spec fn client_message_spec(c: ClientCommand) -> Seq<char> {
    match c {
        ClientCommand::WallpaperSet(p) => lit_wallpaper() + sp() + lit_set() + sp() + p@,
        ClientCommand::WallpaperStop => lit_wallpaper() + sp() + lit_stop(),
        ClientCommand::WallpaperContinue => lit_wallpaper() + sp() + lit_continue(),
        ClientCommand::Config(p) => lit_config() + sp() + p@,
        ClientCommand::ListProfiles => lit_list() + sp() + lit_profiles(),
        ClientCommand::ListShaders(ShaderKind::Constant) => lit_list() + sp() + lit_shaders() + sp()
            + lit_constant(),
        ClientCommand::ListShaders(ShaderKind::Transition) => lit_list() + sp() + lit_shaders() + sp()
            + lit_transition(),
        ClientCommand::ShaderConstant(n) => lit_shader() + sp() + lit_set() + sp() + lit_constant() + sp()
            + n@,
        ClientCommand::ShaderTransition(n) => lit_shader() + sp() + lit_set() + sp() + lit_transition()
            + sp() + n@,
        ClientCommand::Kill => lit_quit(),
    }
}

/// The daemon command that `c` stands for.
pub open spec fn client_command_view(c: ClientCommand) -> CommandView {
    match c {
        ClientCommand::WallpaperSet(p) => CommandView::Wallpaper(WallpaperCmdView::SetPath(p@)),
        ClientCommand::WallpaperStop => CommandView::Wallpaper(WallpaperCmdView::Stop),
        ClientCommand::WallpaperContinue => CommandView::Wallpaper(WallpaperCmdView::Continue),
        ClientCommand::Config(p) => CommandView::Config(p@),
        ClientCommand::ListProfiles => CommandView::List(ListCmd::Profiles),
        ClientCommand::ListShaders(k) => CommandView::List(ListCmd::Shaders(k)),
        ClientCommand::ShaderConstant(n) => CommandView::SetShader(ShaderKind::Constant, n@),
        ClientCommand::ShaderTransition(n) => CommandView::SetShader(ShaderKind::Transition, n@),
        ClientCommand::Kill => CommandView::Quit,
    }
}

/// The line to send for `cmd`.
pub fn build_msg(cmd: &ClientCommand) -> (r: String)
    ensures
        r@ == client_message_spec(*cmd),
{
    proof {
        reveal_strlit("wallpaper set ");
        reveal_strlit("wallpaper stop");
        reveal_strlit("wallpaper continue");
        reveal_strlit("config ");
        reveal_strlit("list profiles");
        reveal_strlit("list shaders constant");
        reveal_strlit("list shaders transition");
        reveal_strlit("shader set constant ");
        reveal_strlit("shader set transition ");
        reveal_strlit("quit");
        assert("wallpaper set "@ =~= lit_wallpaper() + sp() + lit_set() + sp());
        assert("wallpaper stop"@ =~= lit_wallpaper() + sp() + lit_stop());
        assert("wallpaper continue"@ =~= lit_wallpaper() + sp() + lit_continue());
        assert("config "@ =~= lit_config() + sp());
        assert("list profiles"@ =~= lit_list() + sp() + lit_profiles());
        assert("list shaders constant"@ =~= lit_list() + sp() + lit_shaders() + sp() + lit_constant());
        assert("list shaders transition"@ =~= lit_list() + sp() + lit_shaders() + sp()
            + lit_transition());
        assert("shader set constant "@ =~= lit_shader() + sp() + lit_set() + sp() + lit_constant()
            + sp());
        assert("shader set transition "@ =~= lit_shader() + sp() + lit_set() + sp() + lit_transition()
            + sp());
        assert("quit"@ =~= lit_quit());
    }
    match cmd {
        ClientCommand::WallpaperSet(p) => {
            let mut r = "wallpaper set ".to_owned();
            r.append(p.as_str());
            r
        },
        ClientCommand::WallpaperStop => "wallpaper stop".to_owned(),
        ClientCommand::WallpaperContinue => "wallpaper continue".to_owned(),
        ClientCommand::Config(p) => {
            let mut r = "config ".to_owned();
            r.append(p.as_str());
            r
        },
        ClientCommand::ListProfiles => "list profiles".to_owned(),
        ClientCommand::ListShaders(ShaderKind::Constant) => "list shaders constant".to_owned(),
        ClientCommand::ListShaders(ShaderKind::Transition) => "list shaders transition".to_owned(),
        ClientCommand::ShaderConstant(n) => {
            let mut r = "shader set constant ".to_owned();
            r.append(n.as_str());
            r
        },
        ClientCommand::ShaderTransition(n) => {
            let mut r = "shader set transition ".to_owned();
            r.append(n.as_str());
            r
        },
        ClientCommand::Kill => "quit".to_owned(),
    }
}


/// The arguments of `c` survive the trip: a path keeps its end when it has no
/// trailing whitespace; a profile or shader name must be non-empty and free
/// of surrounding whitespace, since the daemon trims it.
pub open spec fn client_args_ok(c: ClientCommand) -> bool {
    match c {
        ClientCommand::WallpaperSet(p) => p@.len() == 0 || !is_ws(p@.last()),
        ClientCommand::Config(p) => p@.len() > 0 && trim(p@) == p@,
        ClientCommand::ShaderConstant(n) => n@.len() > 0 && trim(n@) == n@,
        ClientCommand::ShaderTransition(n) => n@.len() > 0 && trim(n@) == n@,
        _ => true,
    }
}

pub open spec fn no_space(w: Seq<char>) -> bool {
    forall|k: int| 0 <= k < w.len() ==> w[k] != ' '
}

proof fn lemma_trim_fixed(s: Seq<char>)
    requires
        s.len() > 0,
        !is_ws(s[0]),
        !is_ws(s.last()),
    ensures
        trim(s) == s,
{
    assert(trim_start(s) == s);
    assert(trim_end(s) == s);
}

proof fn lemma_split_space_word(w: Seq<char>, rest: Seq<char>)
    requires
        no_space(w),
    ensures
        split_space(w + sp() + rest) == (w, rest),
        split_once(w + sp() + rest, ' ') == Some((w, rest)),
{
    lemma_split_once_concat(w, ' ', rest);
}

proof fn lemma_split_space_alone(w: Seq<char>)
    requires
        no_space(w),
    ensures
        split_space(w) == (w, Seq::<char>::empty()),
        split_once(w, ' ') is None,
{
}

proof fn lemma_words()
    ensures
        no_space(lit_wallpaper()),
        no_space(lit_set()),
        no_space(lit_stop()),
        no_space(lit_continue()),
        no_space(lit_config()),
        no_space(lit_list()),
        no_space(lit_profiles()),
        no_space(lit_shaders()),
        no_space(lit_shader()),
        no_space(lit_constant()),
        no_space(lit_transition()),
        no_space(lit_quit()),
        lit_set() != lit_stop(),
        lit_set() != lit_continue(),
        lit_stop() != lit_continue(),
        lit_config() != lit_wallpaper(),
        lit_list() != lit_wallpaper(),
        lit_list() != lit_config(),
        lit_shader() != lit_wallpaper(),
        lit_shader() != lit_config(),
        lit_shader() != lit_list(),
        lit_quit() != lit_wallpaper(),
        lit_quit() != lit_config(),
        lit_quit() != lit_list(),
        lit_quit() != lit_shader(),
        lit_shaders() != lit_profiles(),
        lit_transition() != lit_constant(),
        trim(lit_profiles()) == lit_profiles(),
        trim(lit_shaders()) == lit_shaders(),
        trim(lit_constant()) == lit_constant(),
        trim(lit_transition()) == lit_transition(),
        trim(lit_quit()) == lit_quit(),
{
    assert(lit_shader()[0] != lit_config()[0]);
    assert(lit_list()[0] != lit_quit()[0]);
    assert(lit_stop()[1] != lit_set()[1]);
    lemma_trim_fixed(lit_profiles());
    lemma_trim_fixed(lit_shaders());
    lemma_trim_fixed(lit_constant());
    lemma_trim_fixed(lit_transition());
    lemma_trim_fixed(lit_quit());
}

/// What the control client sends for a command is read back by the daemon,
/// after it trims the received line, as that very command.
pub proof fn lemma_client_message_round_trip(c: ClientCommand)
    requires
        client_args_ok(c),
    ensures
        parse_command(trim(client_message_spec(c))) == Some(client_command_view(c)),
{
    lemma_words();
    let m = client_message_spec(c);
    match c {
        ClientCommand::WallpaperSet(p) => {
            let rest = lit_set() + sp() + p@;
            assert(m =~= lit_wallpaper() + sp() + rest);
            lemma_split_space_word(lit_wallpaper(), rest);
            if p@.len() == 0 {
                let t = lit_wallpaper() + sp() + lit_set();
                assert(m.drop_last() =~= t);
                assert(trim_start(m) == m);
                assert(trim_end(t) == t);
                assert(trim_end(m) == t);
                assert(t =~= lit_wallpaper() + sp() + lit_set());
                lemma_split_space_word(lit_wallpaper(), lit_set());
                lemma_split_space_alone(lit_set());
                assert(p@ =~= Seq::<char>::empty());
            } else {
                assert(m.last() == p@.last());
                lemma_trim_fixed(m);
                lemma_split_space_word(lit_set(), p@);
            }
        },
        ClientCommand::WallpaperStop => {
            lemma_trim_fixed(m);
            lemma_split_space_word(lit_wallpaper(), lit_stop());
            lemma_split_space_alone(lit_stop());
        },
        ClientCommand::WallpaperContinue => {
            lemma_trim_fixed(m);
            lemma_split_space_word(lit_wallpaper(), lit_continue());
            lemma_split_space_alone(lit_continue());
        },
        ClientCommand::Config(p) => {
            assert(m.last() == p@.last());
            assert(p@[0] == trim(p@)[0]);
            assert(trim_end(trim_start(p@)).last() == p@.last());
            lemma_trim_end_last(trim_start(p@));
            lemma_trim_fixed(m);
            lemma_split_space_word(lit_config(), p@);
        },
        ClientCommand::ListProfiles => {
            lemma_trim_fixed(m);
            lemma_split_space_word(lit_list(), lit_profiles());
            lemma_split_space_alone(lit_profiles());
        },
        ClientCommand::ListShaders(k) => {
            let kw = match k {
                ShaderKind::Constant => lit_constant(),
                ShaderKind::Transition => lit_transition(),
            };
            let rest = lit_shaders() + sp() + kw;
            assert(m =~= lit_list() + sp() + rest);
            lemma_trim_fixed(m);
            lemma_split_space_word(lit_list(), rest);
            lemma_split_space_word(lit_shaders(), kw);
        },
        ClientCommand::ShaderConstant(n) => {
            let r2 = lit_constant() + sp() + n@;
            let r1 = lit_set() + sp() + r2;
            assert(m =~= lit_shader() + sp() + r1);
            assert(m.last() == n@.last());
            lemma_trim_end_last(trim_start(n@));
            lemma_trim_fixed(m);
            lemma_split_space_word(lit_shader(), r1);
            lemma_split_space_word(lit_set(), r2);
            lemma_split_space_word(lit_constant(), n@);
        },
        ClientCommand::ShaderTransition(n) => {
            let r2 = lit_transition() + sp() + n@;
            let r1 = lit_set() + sp() + r2;
            assert(m =~= lit_shader() + sp() + r1);
            assert(m.last() == n@.last());
            lemma_trim_end_last(trim_start(n@));
            lemma_trim_fixed(m);
            lemma_split_space_word(lit_shader(), r1);
            lemma_split_space_word(lit_set(), r2);
            lemma_split_space_word(lit_transition(), n@);
        },
        ClientCommand::Kill => {
            lemma_split_space_alone(lit_quit());
        },
    }
}

/// The line as it travels, with the end of line that the client writes
/// after it, is read back by the daemon as the command.
pub proof fn lemma_client_line_round_trip(c: ClientCommand)
    requires
        client_args_ok(c),
    ensures
        parse_command(trim(client_message_spec(c) + seq!['\n'])) == Some(client_command_view(c)),
{
    lemma_client_message_round_trip(c);
    let m = client_message_spec(c);
    let l = m + seq!['\n'];
    assert(m.len() > 0 && !is_ws(m[0])) by {
        match c {
            ClientCommand::WallpaperSet(p) => assert(m[0] == 'w'),
            ClientCommand::WallpaperStop => assert(m[0] == 'w'),
            ClientCommand::WallpaperContinue => assert(m[0] == 'w'),
            ClientCommand::Config(p) => assert(m[0] == 'c'),
            ClientCommand::ListProfiles => assert(m[0] == 'l'),
            ClientCommand::ListShaders(k) => assert(m[0] == 'l'),
            ClientCommand::ShaderConstant(n) => assert(m[0] == 's'),
            ClientCommand::ShaderTransition(n) => assert(m[0] == 's'),
            ClientCommand::Kill => assert(m[0] == 'q'),
        }
    }
    assert(trim_start(l) == l);
    assert(trim_start(m) == m);
    assert(l.drop_last() =~= m);
    assert(trim_end(l) == trim_end(m));
}

/// A non-empty result of trimming the end does not end in whitespace.
pub proof fn lemma_trim_end_last(s: Seq<char>)
    ensures
        trim_end(s).len() > 0 ==> !is_ws(trim_end(s).last()),
    decreases s.len(),
{
    if s.len() > 0 && is_ws(s.last()) {
        lemma_trim_end_last(s.drop_last());
    }
}

} // verus!
