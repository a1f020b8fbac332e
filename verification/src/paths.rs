//! The parts of Unix path handling that the daemon relies on: joining a
//! relative part onto a base, the last component of a path, and the stem and
//! extension of a file name, with the meaning `std::path` gives them.
use crate::text::{last_at, lemma_last_at_unique, rfind_char, str_eq};
use vstd::prelude::*;

verus! {

pub open spec fn dot() -> Seq<char> {
    seq!['.']
}

pub open spec fn dotdot() -> Seq<char> {
    seq!['.', '.']
}

/// `base` joined with `part`: an absolute `part` replaces `base`; otherwise a
/// separator goes between them unless `base` is empty or already ends in one.
pub open spec fn path_join(base: Seq<char>, part: Seq<char>) -> Seq<char> {
    if part.len() > 0 && part[0] == '/' {
        part
    } else if base.len() == 0 || base.last() == '/' {
        base + part
    } else {
        base + seq!['/'] + part
    }
}

/// The last component of `p` when it is a name: trailing separators and `.`
/// components are passed over; a path that ends in `..`, or has no name
/// left, has none.
pub open spec fn file_name(p: Seq<char>) -> Option<Seq<char>>
    decreases p.len(),
{
    if p.len() == 0 {
        None
    } else if p.last() == '/' {
        file_name(p.drop_last())
    } else if exists|i: int| last_at(p, '/', i) {
        let i = choose|i: int| last_at(p, '/', i);
        let seg = p.subrange(i + 1, p.len() as int);
        if seg == dot() {
            file_name(p.subrange(0, i))
        } else if seg == dotdot() {
            None
        } else {
            Some(seg)
        }
    } else if p == dot() || p == dotdot() {
        None
    } else {
        Some(p)
    }
}

/// The extension of a file name: what follows its last `.`, when that dot is
/// not its first character; `..` has none.
pub open spec fn name_ext(n: Seq<char>) -> Option<Seq<char>> {
    if n == dotdot() {
        None
    } else if exists|i: int| last_at(n, '.', i) {
        let i = choose|i: int| last_at(n, '.', i);
        if i == 0 {
            None
        } else {
            Some(n.subrange(i + 1, n.len() as int))
        }
    } else {
        None
    }
}

/// The stem of a file name: what comes before the dot that starts its
/// extension, or the whole name when it has no extension.
pub open spec fn name_stem(n: Seq<char>) -> Seq<char> {
    if n == dotdot() {
        n
    } else if exists|i: int| last_at(n, '.', i) {
        let i = choose|i: int| last_at(n, '.', i);
        if i == 0 {
            n
        } else {
            n.subrange(0, i)
        }
    } else {
        n
    }
}

/// `base` joined with `part`.
pub fn join(base: &str, part: &str) -> (r: String)
    ensures
        r@ == path_join(base@, part@),
{
    let m = part.unicode_len();
    if m > 0 && part.get_char(0) == '/' {
        return part.to_owned();
    }
    let n = base.unicode_len();
    let mut r = base.to_owned();
    if n > 0 && base.get_char(n - 1) != '/' {
        r.append("/");
        proof {
            reveal_strlit("/");
            assert("/"@ =~= seq!['/']);
        }
    }
    r.append(part);
    r
}

fn is_dot(x: &str) -> (r: bool)
    ensures
        r == (x@ == dot()),
{
    proof {
        reveal_strlit(".");
        assert("."@ =~= dot());
    }
    str_eq(x, ".")
}

fn is_dotdot(x: &str) -> (r: bool)
    ensures
        r == (x@ == dotdot()),
{
    proof {
        reveal_strlit("..");
        assert(".."@ =~= dotdot());
    }
    str_eq(x, "..")
}

/// The last component of `path` when it is a name.
pub fn file_name_of(path: &str) -> (r: Option<&str>)
    ensures
        match r {
            Some(n) => file_name(path@) == Some(n@),
            None => file_name(path@) is None,
        },
{
    let ghost s = path@;
    let mut end = path.unicode_len();
    assert(s.subrange(0, end as int) =~= s);
    loop
        invariant
            s == path@,
            end <= s.len(),
            file_name(s) == file_name(s.subrange(0, end as int)),
        decreases end,
    {
        let ghost p = s.subrange(0, end as int);
        if end == 0 {
            return None;
        }
        if path.get_char(end - 1) == '/' {
            assert(p.drop_last() =~= s.subrange(0, end - 1));
            end = end - 1;
        } else {
            let mut i = end;
            while i > 0
                invariant
                    i <= end,
                    end <= s.len(),
                    s == path@,
                    forall|k: int| i <= k < end ==> s[k] != '/',
                ensures
                    i <= end,
                    forall|k: int| i <= k < end ==> s[k] != '/',
                    i == 0 || s[i - 1] == '/',
                decreases i,
            {
                if path.get_char(i - 1) == '/' {
                    break;
                }
                i = i - 1;
            }
            let seg = path.substring_char(i, end);
            assert(seg@ =~= p.subrange(i as int, p.len() as int));
            if i == 0 {
                assert(!exists|j: int| last_at(p, '/', j));
                assert(seg@ =~= p);
                if is_dot(seg) || is_dotdot(seg) {
                    return None;
                }
                return Some(seg);
            }
            proof {
                assert(last_at(p, '/', i - 1));
                let j = choose|j: int| last_at(p, '/', j);
                lemma_last_at_unique(p, '/', i - 1, j);
            }
            if is_dot(seg) {
                assert(p.subrange(0, i - 1) =~= s.subrange(0, i - 1));
                end = i - 1;
            } else if is_dotdot(seg) {
                return None;
            } else {
                return Some(seg);
            }
        }
    }
}

/// The extension of the file name `name`.
pub fn extension_of(name: &str) -> (r: Option<&str>)
    ensures
        match r {
            Some(e) => name_ext(name@) == Some(e@),
            None => name_ext(name@) is None,
        },
{
    if is_dotdot(name) {
        return None;
    }
    let n = name.unicode_len();
    match rfind_char(name, '.') {
        Some(i) => {
            proof {
                let j = choose|j: int| last_at(name@, '.', j);
                lemma_last_at_unique(name@, '.', i as int, j);
            }
            if i == 0 {
                None
            } else {
                Some(name.substring_char(i + 1, n))
            }
        },
        None => None,
    }
}

/// The stem of the file name `name`.
pub fn stem_of(name: &str) -> (r: &str)
    ensures
        r@ == name_stem(name@),
{
    if is_dotdot(name) {
        return name;
    }
    match rfind_char(name, '.') {
        Some(i) => {
            proof {
                let j = choose|j: int| last_at(name@, '.', j);
                lemma_last_at_unique(name@, '.', i as int, j);
            }
            if i == 0 {
                name
            } else {
                name.substring_char(0, i)
            }
        },
        None => name,
    }
}


/// A plain name joined onto a directory is the file name of the result.
pub proof fn lemma_file_name_join(dir: Seq<char>, name: Seq<char>)
    requires
        name.len() > 0,
        forall|k: int| 0 <= k < name.len() ==> name[k] != '/',
        name != dot(),
        name != dotdot(),
    ensures
        file_name(path_join(dir, name)) == Some(name),
{
    let p = path_join(dir, name);
    if dir.len() == 0 {
        assert(p =~= name);
        assert(!exists|i: int| last_at(p, '/', i));
    } else {
        let i = if dir.last() == '/' {
            dir.len() - 1
        } else {
            dir.len() as int
        };
        if dir.last() == '/' {
            assert(p =~= dir + name);
        } else {
            assert(p =~= dir + seq!['/'] + name);
        }
        assert(p.last() == name.last());
        assert(last_at(p, '/', i));
        let j = choose|j: int| last_at(p, '/', j);
        lemma_last_at_unique(p, '/', i, j);
        assert(p.subrange(i + 1, p.len() as int) =~= name);
    }
}

} // verus!
