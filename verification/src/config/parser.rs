//! The configuration model: profiles with their defaults, profile lookup and
//! the choice of the configuration file.
use crate::daemon::commands::lit_wallpaper;
use crate::fsys::{path_exists, probed_path};
use crate::paths::{join, path_join};
use vstd::prelude::*;

verus! {

pub open spec fn lit_star() -> Seq<char> {
    seq!['*']
}

pub open spec fn lit_fill() -> Seq<char> {
    seq!['f', 'i', 'l', 'l']
}

pub open spec fn lit_default() -> Seq<char> {
    seq!['d', 'e', 'f', 'a', 'u', 'l', 't']
}

/// One profile of the configuration file.
#[derive(Clone, Debug)]
pub struct Config {
    /// `wallpaper`, `maximised` or `windowed`.
    pub mode: String,
    /// Display names, or `*` for all.
    pub displays: Vec<String>,
    pub width: Option<i32>,
    pub height: Option<i32>,
    /// An image file, or a folder of images.
    pub path: String,
    /// `static`, `interval` or `time`.
    pub view: String,
    /// `fill` or `fit`.
    pub scaling: String,
    pub transition_shader: Option<String>,
    /// Seconds that a transition lasts.
    pub transition_duration: Option<i32>,
    pub constant_shader: Option<String>,
    /// Seconds between images in the `interval` view.
    pub interval: Option<u64>,
}

/// The configuration file: the `default` profile and the named ones.
#[derive(Clone, Debug)]
pub struct ConfigFile {
    pub default: Config,
    /// The named profiles, each name once.
    pub additional: Vec<(String, Config)>,
}

/// The mode of a profile that names none.
pub fn default_mode() -> (r: String)
    ensures
        r@ == lit_wallpaper(),
{
    proof {
        reveal_strlit("wallpaper");
        assert("wallpaper"@ =~= lit_wallpaper());
    }
    "wallpaper".to_owned()
}

/// The displays of a profile that names none: all of them.
pub fn default_displays() -> (r: Vec<String>)
    ensures
        r@.len() == 1,
        r@[0]@ == lit_star(),
{
    proof {
        reveal_strlit("*");
        assert("*"@ =~= lit_star());
    }
    let mut v = Vec::new();
    v.push("*".to_owned());
    v
}

/// The scaling of a profile that names none.
pub fn default_scaling() -> (r: String)
    ensures
        r@ == lit_fill(),
{
    proof {
        reveal_strlit("fill");
        assert("fill"@ =~= lit_fill());
    }
    "fill".to_owned()
}

impl ConfigFile {
    /// Each named profile occurs once, as in the file's table of profiles.
    pub open spec fn names_distinct(self) -> bool {
        forall|i: int, j: int|
            0 <= i < j < self.additional@.len() ==> #[trigger] self.additional@[i].0@
                != #[trigger] self.additional@[j].0@
    }

    /// `i` is the first entry of `additional` named `name`.
    pub open spec fn profile_at(self, name: Seq<char>, i: int) -> bool {
        &&& 0 <= i < self.additional@.len()
        &&& self.additional@[i].0@ == name
        &&& forall|k: int| 0 <= k < i ==> self.additional@[k].0@ != name
    }

    /// The named profile `name`, if the file has one.
    pub open spec fn profile_spec(self, name: Seq<char>) -> Option<Config> {
        if exists|i: int| self.profile_at(name, i) {
            Some(self.additional@[choose|i: int| self.profile_at(name, i)].1)
        } else {
            None
        }
    }

    /// The profile in force: the named one when it exists, else `default`.
    pub open spec fn active_spec(self, profile: Option<Seq<char>>) -> Config {
        match profile {
            Some(n) => match self.profile_spec(n) {
                Some(c) => c,
                None => self.default,
            },
            None => self.default,
        }
    }

    /// The named profile `name`, if the file has one.
    pub fn profile(&self, name: &str) -> (r: Option<&Config>)
        ensures
            match r {
                Some(c) => self.profile_spec(name@) == Some(*c),
                None => self.profile_spec(name@) is None,
            },
    {
        let mut i: usize = 0;
        while i < self.additional.len()
            invariant
                i <= self.additional@.len(),
                forall|k: int| 0 <= k < i ==> self.additional@[k].0@ != name@,
            decreases self.additional@.len() - i,
        {
            if crate::text::str_eq(self.additional[i].0.as_str(), name) {
                proof {
                    assert(self.profile_at(name@, i as int));
                    let j = choose|j: int| self.profile_at(name@, j);
                    if j < i {
                        assert(self.additional@[j].0@ != name@);
                    } else if i < j {
                        assert(self.additional@[i as int].0@ != name@);
                    }
                }
                return Some(&self.additional[i].1);
            }
            i = i + 1;
        }
        None
    }

    /// The profile in force for `profile`: the named one when the file has
    /// it, else `default`.
    pub fn active(&self, profile: Option<&str>) -> (r: &Config)
        ensures
            *r == self.active_spec(
                match profile {
                    Some(p) => Some(p@),
                    None => None,
                },
            ),
    {
        match profile {
            Some(name) => match self.profile(name) {
                Some(c) => c,
                None => &self.default,
            },
            None => &self.default,
        }
    }

    /// The names of the named profiles.
    pub fn profile_names(&self) -> (r: Vec<String>)
        ensures
            r@.len() == self.additional@.len(),
            forall|i: int| 0 <= i < r@.len() ==> r@[i]@ == self.additional@[i].0@,
    {
        let mut r: Vec<String> = Vec::new();
        let mut i: usize = 0;
        while i < self.additional.len()
            invariant
                i <= self.additional@.len(),
                r@.len() == i,
                forall|k: int| 0 <= k < i ==> r@[k]@ == self.additional@[k].0@,
            decreases self.additional@.len() - i,
        {
            r.push(self.additional[i].0.clone());
            i = i + 1;
        }
        r
    }
}

/// In a file whose profile names occur once, looking up the name of any
/// named profile finds that profile, and a name that no profile has finds
/// none.
pub proof fn lemma_profile_lookup(cf: ConfigFile, i: int, other: Seq<char>)
    requires
        cf.names_distinct(),
        0 <= i < cf.additional@.len(),
        forall|k: int| 0 <= k < cf.additional@.len() ==> cf.additional@[k].0@ != other,
    ensures
        cf.profile_spec(cf.additional@[i].0@) == Some(cf.additional@[i].1),
        cf.active_spec(Some(cf.additional@[i].0@)) == cf.additional@[i].1,
        cf.profile_spec(other) is None,
        cf.active_spec(Some(other)) == cf.default,
{
    let name = cf.additional@[i].0@;
    assert(cf.profile_at(name, i));
    let j = choose|j: int| cf.profile_at(name, j);
    if j != i {
        if j < i {
            assert(cf.additional@[j].0@ != cf.additional@[i].0@);
        } else {
            assert(cf.additional@[i].0@ != cf.additional@[j].0@);
        }
    }
    assert(!exists|k: int| cf.profile_at(other, k));
}

pub open spec fn lit_dot_config() -> Seq<char> {
    seq!['.', 'c', 'o', 'n', 'f', 'i', 'g']
}

pub open spec fn lit_tilde_config() -> Seq<char> {
    seq!['~', '/', '.', 'c', 'o', 'n', 'f', 'i', 'g']
}

pub open spec fn lit_wallerd() -> Seq<char> {
    seq!['w', 'a', 'l', 'l', 'e', 'r', 'd']
}

pub open spec fn lit_config_toml() -> Seq<char> {
    seq!['c', 'o', 'n', 'f', 'i', 'g', '.', 't', 'o', 'm', 'l']
}

/// Where the configuration file is looked for when none is given:
/// `$XDG_CONFIG_HOME/wallerd/config.toml`, else under `$HOME/.config`, else
/// under `~/.config`.
pub open spec fn default_config_candidate_spec(xdg: Option<Seq<char>>, home: Option<Seq<char>>) -> Seq<char> {
    let base = match xdg {
        Some(x) => x,
        None => match home {
            Some(h) => path_join(h, lit_dot_config()),
            None => lit_tilde_config(),
        },
    };
    path_join(path_join(base, lit_wallerd()), lit_config_toml())
}

pub open spec fn opt_view(o: Option<&str>) -> Option<Seq<char>> {
    match o {
        Some(s) => Some(s@),
        None => None,
    }
}

/// Where the configuration file is looked for when none is given, from the
/// values of `XDG_CONFIG_HOME` and `HOME`.
pub fn default_config_candidate(xdg: Option<&str>, home: Option<&str>) -> (r: String)
    ensures
        r@ == default_config_candidate_spec(opt_view(xdg), opt_view(home)),
{
    proof {
        reveal_strlit(".config");
        reveal_strlit("~/.config");
        reveal_strlit("wallerd");
        reveal_strlit("config.toml");
        assert(".config"@ =~= lit_dot_config());
        assert("~/.config"@ =~= lit_tilde_config());
        assert("wallerd"@ =~= lit_wallerd());
        assert("config.toml"@ =~= lit_config_toml());
    }
    let base = match xdg {
        Some(x) => x.to_owned(),
        None => match home {
            Some(h) => join(h, ".config"),
            None => "~/.config".to_owned(),
        },
    };
    let dir = join(base.as_str(), "wallerd");
    join(dir.as_str(), "config.toml")
}

/// The decision of `get_path`: the given file when it exists, else the
/// default location when something is there, else no file.
pub open spec fn config_path_choice_spec(
    file: Option<Seq<char>>,
    file_exists: bool,
    candidate: Seq<char>,
    candidate_exists: bool,
) -> Result<Seq<char>, ()> {
    match file {
        Some(f) if file_exists => Ok(f),
        _ => if candidate_exists {
            Ok(candidate)
        } else {
            Err(())
        },
    }
}

/// Which configuration file to read, given whether the given file and the
/// default location exist.
pub fn config_path_choice(
    file: Option<&str>,
    file_exists: bool,
    candidate: &str,
    candidate_exists: bool,
) -> (r: Result<String, ()>)
    ensures
        match r {
            Ok(p) => config_path_choice_spec(opt_view(file), file_exists, candidate@, candidate_exists)
                == Ok::<Seq<char>, ()>(p@),
            Err(_) => config_path_choice_spec(opt_view(file), file_exists, candidate@, candidate_exists)
                is Err,
        },
{
    match file {
        Some(f) => {
            if file_exists {
                return Ok(f.to_owned());
            }
        },
        None => {},
    }
    if candidate_exists {
        Ok(candidate.to_owned())
    } else {
        Err(())
    }
}

/// Which configuration file to read: `file` when something is there, else
/// the default location when something is there, else none. The choice
/// follows what `path_exists` answered: for `file` when one is given, and
/// for the default location when `file` was not found.
pub fn get_path(file: Option<&str>, xdg: Option<&str>, home: Option<&str>) -> (r: Result<String, ()>)
    ensures
        exists|a: bool, b: bool|
            match r {
                Ok(p) => config_path_choice_spec(
                    opt_view(file),
                    a,
                    default_config_candidate_spec(opt_view(xdg), opt_view(home)),
                    b,
                ) == Ok::<Seq<char>, ()>(p@),
                Err(_) => config_path_choice_spec(
                    opt_view(file),
                    a,
                    default_config_candidate_spec(opt_view(xdg), opt_view(home)),
                    b,
                ) is Err,
            },
        exists|a: bool, b: bool|
            #![trigger config_path_choice_spec(
                opt_view(file),
                a,
                default_config_candidate_spec(opt_view(xdg), opt_view(home)),
                b,
            )]
            {
                &&& match r {
                    Ok(p) => config_path_choice_spec(
                        opt_view(file),
                        a,
                        default_config_candidate_spec(opt_view(xdg), opt_view(home)),
                        b,
                    ) == Ok::<Seq<char>, ()>(p@),
                    Err(_) => config_path_choice_spec(
                        opt_view(file),
                        a,
                        default_config_candidate_spec(opt_view(xdg), opt_view(home)),
                        b,
                    ) is Err,
                }
                &&& (file matches Some(f) ==> probed_path(f@, a))
                &&& (file is None ==> !a)
                &&& (!a ==> probed_path(default_config_candidate_spec(opt_view(xdg), opt_view(home)), b))
            },
{
    let ask = path_exists;
    let file_exists = match file {
        Some(f) => {
            let e = ask(f);
            proof {
                assert(call_ensures(path_exists, (f,), e));
            }
            e
        },
        None => false,
    };
    let candidate = default_config_candidate(xdg, home);
    let candidate_exists = if file_exists {
        false
    } else {
        let cs = candidate.as_str();
        let e = ask(cs);
        proof {
            assert(call_ensures(path_exists, (cs,), e));
        }
        e
    };
    let r = config_path_choice(file, file_exists, candidate.as_str(), candidate_exists);
    proof {
        let c = default_config_candidate_spec(opt_view(xdg), opt_view(home));
        assert(config_path_choice_spec(opt_view(file), file_exists, c, candidate_exists)
            == config_path_choice_spec(opt_view(file), file_exists, c, candidate_exists));
    }
    r
}

} // verus!
