//! The rendering decisions: which shader directories to use, the key and
//! file format of the compiled-program cache, the bookkeeping of the shared
//! textures, and when shader programs are reloaded and frames are needed.
use crate::config::parser::{lit_default, lit_dot_config, opt_view, Config};
use crate::daemon::commands::{lit_constant, lit_shaders, lit_transition, ShaderKind};
use crate::fsys::{path_exists, probed_path};
use crate::paths::{join, path_join};
use crate::socket::strings_view;
use crate::text::{seq_lt, str_eq, str_lt};
use vstd::prelude::*;

verus! {

pub open spec fn lit_dot_cache() -> Seq<char> {
    seq!['.', 'c', 'a', 'c', 'h', 'e']
}

pub open spec fn lit_wallerd_dir() -> Seq<char> {
    seq!['w', 'a', 'l', 'l', 'e', 'r', 'd']
}

pub open spec fn lit_programs() -> Seq<char> {
    seq!['p', 'r', 'o', 'g', 'r', 'a', 'm', 's']
}

pub open spec fn lit_usr_share() -> Seq<char> {
    seq![
        '/', 'u', 's', 'r', '/', 's', 'h', 'a', 'r', 'e', '/', 'w', 'a', 'l', 'l', 'e', 'r', 'd',
        '/', 's', 'h', 'a', 'd', 'e', 'r', 's', '/',
    ]
}

pub open spec fn lit_shaders_slash() -> Seq<char> {
    seq!['s', 'h', 'a', 'd', 'e', 'r', 's', '/']
}

pub open spec fn lit_vertex_glsl() -> Seq<char> {
    seq!['v', 'e', 'r', 't', 'e', 'x', '.', 'g', 'l', 's', 'l']
}

pub open spec fn lit_fragment_glsl() -> Seq<char> {
    seq!['f', 'r', 'a', 'g', 'm', 'e', 'n', 't', '.', 'g', 'l', 's', 'l']
}

pub open spec fn lit_dot_bin() -> Seq<char> {
    seq!['.', 'b', 'i', 'n']
}

/// The directory of the user's own shaders: `$XDG_CONFIG_HOME/wallerd/shaders`,
/// else `$HOME/.config/wallerd/shaders` (with `$HOME` empty when unset).
pub open spec fn shader_base_spec(xdg: Option<Seq<char>>, home: Option<Seq<char>>) -> Seq<char> {
    let base = match xdg {
        Some(x) => x,
        None => path_join(
            match home {
                Some(h) => h,
                None => Seq::empty(),
            },
            lit_dot_config(),
        ),
    };
    path_join(path_join(base, lit_wallerd_dir()), lit_shaders())
}

/// The directory of the compiled-program cache: `$XDG_CACHE_HOME/wallerd/programs`,
/// else `$HOME/.cache/wallerd/programs`.
pub open spec fn cache_dir_spec(xdg_cache: Option<Seq<char>>, home: Option<Seq<char>>) -> Seq<char> {
    let base = match xdg_cache {
        Some(x) => x,
        None => path_join(
            match home {
                Some(h) => h,
                None => Seq::empty(),
            },
            lit_dot_cache(),
        ),
    };
    path_join(path_join(base, lit_wallerd_dir()), lit_programs())
}

/// Where a shader named `name` of kind `kind` may be, in the order searched:
/// the user's directory, the system's, and one relative to the working directory.
pub open spec fn shader_candidates_spec(base: Seq<char>, kind: Seq<char>, name: Seq<char>) -> Seq<Seq<char>> {
    seq![
        path_join(path_join(base, kind), name),
        lit_usr_share() + kind + seq!['/'] + name,
        lit_shaders_slash() + kind + seq!['/'] + name,
    ]
}

/// The directories whose subdirectories are the shaders of kind `kind`.
pub open spec fn shader_list_dirs_spec(base: Seq<char>, kind: Seq<char>) -> Seq<Seq<char>> {
    seq![path_join(base, kind), lit_usr_share() + kind, lit_shaders_slash() + kind]
}

/// The first candidate whose directory holds a vertex shader, by `present`,
/// else the one relative to the working directory.
pub open spec fn pick_shader_dir_spec(candidates: Seq<Seq<char>>, present: Seq<bool>) -> Seq<char>
    recommends
        candidates.len() == 3,
        present.len() == 3,
{
    if present[0] {
        candidates[0]
    } else if present[1] {
        candidates[1]
    } else {
        candidates[2]
    }
}

/// The name of the subdirectory for shaders of kind `kind`.
pub open spec fn kind_dir_spec(kind: ShaderKind) -> Seq<char> {
    match kind {
        ShaderKind::Constant => lit_constant(),
        ShaderKind::Transition => lit_transition(),
    }
}

fn base_with(root: Option<&str>, home: Option<&str>, dot_dir: &str, leaf: &str) -> (r: String)
    ensures
        r@ == path_join(
            path_join(
                match opt_view(root) {
                    Some(x) => x,
                    None => path_join(
                        match opt_view(home) {
                            Some(h) => h,
                            None => Seq::empty(),
                        },
                        dot_dir@,
                    ),
                },
                lit_wallerd_dir(),
            ),
            leaf@,
        ),
{
    proof {
        reveal_strlit("wallerd");
        assert("wallerd"@ =~= lit_wallerd_dir());
    }
    let base = match root {
        Some(x) => x.to_owned(),
        None => {
            let h = match home {
                Some(h) => h,
                None => "",
            };
            proof {
                reveal_strlit("");
                assert(""@ =~= Seq::<char>::empty());
            }
            join(h, dot_dir)
        },
    };
    let w = join(base.as_str(), "wallerd");
    join(w.as_str(), leaf)
}

/// The directory of the user's own shaders, from the values of
/// `XDG_CONFIG_HOME` and `HOME`.
pub fn xdg_config_shader_base(xdg: Option<&str>, home: Option<&str>) -> (r: String)
    ensures
        r@ == shader_base_spec(opt_view(xdg), opt_view(home)),
{
    proof {
        reveal_strlit(".config");
        reveal_strlit("shaders");
        assert(".config"@ =~= lit_dot_config());
        assert("shaders"@ =~= lit_shaders());
    }
    base_with(xdg, home, ".config", "shaders")
}

/// The directory of the compiled-program cache, from the values of
/// `XDG_CACHE_HOME` and `HOME`.
pub fn shader_cache_dir(xdg_cache: Option<&str>, home: Option<&str>) -> (r: String)
    ensures
        r@ == cache_dir_spec(opt_view(xdg_cache), opt_view(home)),
{
    proof {
        reveal_strlit(".cache");
        reveal_strlit("programs");
        assert(".cache"@ =~= lit_dot_cache());
        assert("programs"@ =~= lit_programs());
    }
    base_with(xdg_cache, home, ".cache", "programs")
}

/// The name of the subdirectory for shaders of kind `kind`.
pub fn kind_dir(kind: ShaderKind) -> (r: &'static str)
    ensures
        r@ == kind_dir_spec(kind),
{
    proof {
        reveal_strlit("constant");
        reveal_strlit("transition");
        assert("constant"@ =~= lit_constant());
        assert("transition"@ =~= lit_transition());
    }
    match kind {
        ShaderKind::Constant => "constant",
        ShaderKind::Transition => "transition",
    }
}

/// Where the shader `name` of kind `kind` may be, in the order searched.
pub fn shader_dir_candidates(base: &str, kind: &str, name: &str) -> (r: Vec<String>)
    ensures
        r@.len() == 3,
        forall|i: int| 0 <= i < 3 ==> r@[i]@ == shader_candidates_spec(base@, kind@, name@)[i],
{
    proof {
        reveal_strlit("/usr/share/wallerd/shaders/");
        reveal_strlit("shaders/");
        reveal_strlit("/");
        assert("/usr/share/wallerd/shaders/"@ =~= lit_usr_share());
        assert("shaders/"@ =~= lit_shaders_slash());
        assert("/"@ =~= seq!['/']);
    }
    let k = join(base, kind);
    let first = join(k.as_str(), name);
    let mut second = "/usr/share/wallerd/shaders/".to_owned();
    second.append(kind);
    second.append("/");
    second.append(name);
    let mut third = "shaders/".to_owned();
    third.append(kind);
    third.append("/");
    third.append(name);
    let mut r = Vec::new();
    r.push(first);
    r.push(second);
    r.push(third);
    r
}

/// The directories to search for shaders of kind `kind`.
pub fn shader_list_dirs(base: &str, kind: &str) -> (r: Vec<String>)
    ensures
        r@.len() == 3,
        forall|i: int| 0 <= i < 3 ==> r@[i]@ == shader_list_dirs_spec(base@, kind@)[i],
{
    proof {
        reveal_strlit("/usr/share/wallerd/shaders/");
        reveal_strlit("shaders/");
        assert("/usr/share/wallerd/shaders/"@ =~= lit_usr_share());
        assert("shaders/"@ =~= lit_shaders_slash());
    }
    let first = join(base, kind);
    let mut second = "/usr/share/wallerd/shaders/".to_owned();
    second.append(kind);
    let mut third = "shaders/".to_owned();
    third.append(kind);
    let mut r = Vec::new();
    r.push(first);
    r.push(second);
    r.push(third);
    r
}

/// The shader directory to use among `candidates`, given which of them hold
/// a vertex shader.
pub fn pick_shader_dir(candidates: &Vec<String>, present: &Vec<bool>) -> (r: String)
    requires
        candidates@.len() == 3,
        present@.len() == 3,
    ensures
        r@ == pick_shader_dir_spec(candidates@.map_values(|s: String| s@), present@),
{
    if present[0] {
        candidates[0].clone()
    } else if present[1] {
        candidates[1].clone()
    } else {
        candidates[2].clone()
    }
}

/// The file `file` of the shader directory `dir`.
pub fn shader_file(dir: &str, file: &str) -> (r: String)
    ensures
        r@ == dir@ + seq!['/'] + file@,
{
    proof {
        reveal_strlit("/");
        assert("/"@ =~= seq!['/']);
    }
    let mut r = dir.to_owned();
    r.append("/");
    r.append(file);
    r
}

/// `answer` is what `path_exists` answered, in this run, when asked about
/// the vertex shader of the directory `dir`.
pub open spec fn probed_vertex(dir: Seq<char>, answer: bool) -> bool {
    probed_path(path_join(dir, lit_vertex_glsl()), answer)
}

/// `r` is the directory chosen among `candidates` by the answers `present`:
/// the candidate at some place `i` before which every candidate was
/// answered absent, and which was itself answered present unless it is the
/// last one, the fallback.
pub open spec fn first_present(candidates: Seq<Seq<char>>, present: Seq<bool>, i: int, r: Seq<char>) -> bool {
    &&& 0 <= i < candidates.len()
    &&& r == candidates[i]
    &&& forall|k: int| 0 <= k < i ==> !present[k]
    &&& i < candidates.len() - 1 ==> present[i]
}

/// Choosing by answers gives the first candidate answered present, else the
/// last one.
pub proof fn lemma_pick_is_first_present(candidates: Seq<Seq<char>>, present: Seq<bool>)
    requires
        candidates.len() == 3,
        present.len() == 3,
    ensures
        exists|i: int| first_present(candidates, present, i, pick_shader_dir_spec(candidates, present)),
{
    let r = pick_shader_dir_spec(candidates, present);
    if present[0] {
        assert(first_present(candidates, present, 0, r));
    } else if present[1] {
        assert(first_present(candidates, present, 1, r));
    } else {
        assert(first_present(candidates, present, 2, r));
    }
}

/// The directory of the shader `name` of kind `kind`: the first candidate
/// whose `vertex.glsl` exists, else the one relative to the working
/// directory. Each candidate up to the one chosen is asked about, in order,
/// and the choice follows what `path_exists` answered for it.
pub fn resolve_shader_dir(base: &str, kind: &str, name: &str) -> (r: String)
    ensures
        exists|present: Seq<bool>|
            present.len() == 3 && r@ == pick_shader_dir_spec(
                shader_candidates_spec(base@, kind@, name@),
                present,
            ),
        exists|present: Seq<bool>, i: int|
            #![trigger first_present(shader_candidates_spec(base@, kind@, name@), present, i, r@)]
            present.len() == 3 && first_present(
                shader_candidates_spec(base@, kind@, name@),
                present,
                i,
                r@,
            ) && forall|k: int|
                0 <= k <= i ==> probed_vertex(
                    #[trigger] shader_candidates_spec(base@, kind@, name@)[k],
                    present[k],
                ),
{
    proof {
        reveal_strlit("vertex.glsl");
        assert("vertex.glsl"@ =~= lit_vertex_glsl());
    }
    let ghost cands = shader_candidates_spec(base@, kind@, name@);
    let candidates = shader_dir_candidates(base, kind, name);
    proof {
        assert(candidates@.map_values(|s: String| s@) =~= cands);
    }
    let ask = path_exists;
    let mut present: Vec<bool> = Vec::new();
    let mut found = false;
    let mut i: usize = 0;
    while i < 3
        invariant
            candidates@.len() == 3,
            forall|k: int| 0 <= k < 3 ==> candidates@[k]@ == cands[k],
            cands.len() == 3,
            ask == path_exists,
            i <= 3,
            present@.len() == i,
            found <==> exists|k: int| 0 <= k < i && present@[k],
            forall|k: int| 0 <= k < i && (forall|j: int| 0 <= j < k ==> !present@[j]) ==> probed_vertex(
                cands[k],
                present@[k],
            ),
            forall|k: int, j: int| 0 <= j < k < i && present@[j] ==> !present@[k],
        decreases 3 - i,
    {
        let p = if found {
            false
        } else {
            let f = join(candidates[i].as_str(), "vertex.glsl");
            let fs = f.as_str();
            let a = ask(fs);
            proof {
                reveal_strlit("vertex.glsl");
                assert("vertex.glsl"@ =~= lit_vertex_glsl());
                assert(fs@ == f@);
                assert(fs@ == path_join(cands[i as int], lit_vertex_glsl()));
                assert(call_ensures(path_exists, (fs,), a));
                assert(probed_vertex(cands[i as int], a));
            }
            a
        };
        let ghost before = present@;
        present.push(p);
        proof {
            assert(present@ =~= before.push(p));
            assert(present@[i as int] == p);
            assert(forall|k: int| 0 <= k < i ==> present@[k] == before[k]);
        }
        if p {
            found = true;
        }
        proof {
            if found {
                if p {
                    assert(0 <= i && present@[i as int]);
                } else {
                    let k = choose|k: int| 0 <= k < i && before[k];
                    assert(present@[k]);
                }
            } else {
                assert forall|k: int| 0 <= k < i + 1 implies !present@[k] by {
                    if k < i {
                        assert(present@[k] == before[k]);
                    }
                }
            }
        }
        i = i + 1;
    }
    let r = pick_shader_dir(&candidates, &present);
    proof {
        let pv = present@;
        lemma_pick_is_first_present(cands, pv);
        let w = choose|w: int| first_present(cands, pv, w, r@);
        assert forall|k: int| 0 <= k <= w implies probed_vertex(#[trigger] cands[k], pv[k]) by {
            assert forall|j: int| 0 <= j < k implies !pv[j] by {}
        }
        assert(first_present(cands, pv, w, r@));
    }
    r
}

/// `names` is in strictly increasing order.
pub open spec fn strictly_sorted(names: Seq<Seq<char>>) -> bool {
    forall|i: int, j: int| 0 <= i < j < names.len() ==> seq_lt(#[trigger] names[i], #[trigger] names[j])
}

/// The shader names found, each once, in order.
pub fn list_shader_names(found: &Vec<String>) -> (r: Vec<String>)
    ensures
        strictly_sorted(strings_view(r@)),
        forall|x: Seq<char>|
            #![trigger strings_view(r@).contains(x)]
            #![trigger strings_view(found@).contains(x)]
            strings_view(r@).contains(x) <==> strings_view(found@).contains(x),
{
    let ghost fv = strings_view(found@);
    let mut names: Vec<String> = Vec::new();
    let mut i: usize = 0;
    while i < found.len()
        invariant
            fv == strings_view(found@),
            i <= found@.len(),
            strictly_sorted(strings_view(names@)),
            forall|x: Seq<char>|
                #![trigger strings_view(names@).contains(x)]
                #![trigger fv.take(i as int).contains(x)]
                strings_view(names@).contains(x) <==> fv.take(i as int).contains(x),
        decreases found@.len() - i,
    {
        let x = &found[i];
        let ghost s = strings_view(names@);
        let mut p: usize = 0;
        while p < names.len()
            invariant
                s == strings_view(names@),
                p <= names@.len(),
                forall|k: int| 0 <= k < p ==> seq_lt(#[trigger] s[k], x@),
            ensures
                p <= names@.len(),
                forall|k: int| 0 <= k < p ==> seq_lt(#[trigger] s[k], x@),
                p == names@.len() || !seq_lt(s[p as int], x@),
            decreases names@.len() - p,
        {
            if !str_lt(names[p].as_str(), x.as_str()) {
                break;
            }
            p = p + 1;
        }
        let ghost f1 = fv.take(i as int);
        let ghost f2 = fv.take(i + 1);
        proof {
            assert(f2 =~= f1.push(x@));
        }
        if p < names.len() && str_eq(names[p].as_str(), x.as_str()) {
            proof {
                assert(s[p as int] == x@);
                assert forall|y: Seq<char>| s.contains(y) <==> f2.contains(y) by {
                    if f2.contains(y) && !f1.contains(y) {
                        let k = choose|k: int| 0 <= k < i + 1 && f2[k] == y;
                        if k < i {
                            assert(f1[k] == y);
                        }
                        assert(s[p as int] == y);
                    }
                    if f1.contains(y) {
                        let k = choose|k: int| 0 <= k < i && f1[k] == y;
                        assert(f2[k] == y);
                    }
                }
            }
        } else {
            let ghost xv = x@;
            names.insert(p, x.clone());
            proof {
                let t = strings_view(names@);
                assert(t =~= s.insert(p as int, xv));
                if p < s.len() {
                    crate::text::lemma_seq_lt_total(s[p as int], xv);
                    assert(seq_lt(xv, s[p as int]));
                }
                assert forall|a: int, b: int| 0 <= a < b < t.len() implies seq_lt(
                    #[trigger] t[a],
                    #[trigger] t[b],
                ) by {
                    if b < p {
                    } else if a > p {
                        assert(t[a] == s[a - 1]);
                        assert(t[b] == s[b - 1]);
                    } else if b == p {
                        assert(t[a] == s[a]);
                    } else if a == p {
                        assert(t[b] == s[b - 1]);
                        if b - 1 > p {
                            crate::text::lemma_seq_lt_trans(xv, s[p as int], s[b - 1]);
                        }
                    } else {
                        assert(t[a] == s[a]);
                        assert(t[b] == s[b - 1]);
                    }
                }
                assert forall|y: Seq<char>| t.contains(y) <==> f2.contains(y) by {
                    if t.contains(y) {
                        let k = choose|k: int| 0 <= k < t.len() && t[k] == y;
                        if k < p {
                            assert(s[k] == y);
                        } else if k > p {
                            assert(s[k - 1] == y);
                        } else {
                            assert(f2[i as int] == y);
                        }
                    }
                    if f2.contains(y) {
                        let k = choose|k: int| 0 <= k < i + 1 && f2[k] == y;
                        if k < i {
                            assert(f1[k] == y);
                            assert(s.contains(y));
                            let m = choose|m: int| 0 <= m < s.len() && s[m] == y;
                            if m < p {
                                assert(t[m] == y);
                            } else {
                                assert(t[m + 1] == y);
                            }
                        } else {
                            assert(t[p as int] == y);
                        }
                    }
                    if f1.contains(y) {
                        let k = choose|k: int| 0 <= k < i && f1[k] == y;
                        assert(f2[k] == y);
                    }
                }
            }
        }
        i = i + 1;
    }
    assert(fv.take(found@.len() as int) =~= fv);
    names
}


pub open spec fn fnv_offset() -> u64 {
    14695981039346656037
}

pub open spec fn fnv_prime() -> u64 {
    1099511628211
}

/// One step of FNV-1a: xor in the byte, then multiply by the prime modulo 2^64.
pub open spec fn fnv_step(h: u64, b: u8) -> u64 {
    (((h ^ (b as u64)) as nat * fnv_prime() as nat) % 0x1_0000_0000_0000_0000) as u64
}

/// The 64-bit FNV-1a hash of `data`.
pub open spec fn fnv1a_spec(data: Seq<u8>) -> u64
    decreases data.len(),
{
    if data.len() == 0 {
        fnv_offset()
    } else {
        fnv_step(fnv1a_spec(data.drop_last()), data.last())
    }
}

/// The eight bytes of `x`, least significant first.
pub open spec fn le_bytes64(x: u64) -> Seq<u8> {
    seq![
        x as u8,
        (x >> 8u64) as u8,
        (x >> 16u64) as u8,
        (x >> 24u64) as u8,
        (x >> 32u64) as u8,
        (x >> 40u64) as u8,
        (x >> 48u64) as u8,
        (x >> 56u64) as u8,
    ]
}

/// The four bytes of `x`, least significant first.
pub open spec fn le_bytes32(x: u32) -> Seq<u8> {
    seq![x as u8, (x >> 8u32) as u8, (x >> 16u32) as u8, (x >> 24u32) as u8]
}

/// The number that four bytes write, least significant first.
pub open spec fn from_le_bytes32(b: Seq<u8>) -> u32
    recommends
        b.len() >= 4,
{
    (b[0] as int + b[1] as int * 256 + b[2] as int * 65536 + b[3] as int * 16777216) as u32
}

/// The key of the compiled program of the shader directory `dir` whose
/// vertex and fragment sources were modified at `vert_ns` and `frag_ns`
/// nanoseconds after the epoch: the FNV-1a hash of the directory's UTF-8
/// bytes followed by the two times' bytes.
pub open spec fn cache_key_spec(dir: Seq<char>, vert_ns: u64, frag_ns: u64) -> u64 {
    fnv1a_spec(vstd::utf8::encode_utf8(dir) + le_bytes64(vert_ns) + le_bytes64(frag_ns))
}

/// The lowercase hexadecimal digit for `d < 16`.
pub open spec fn hex_digit(d: nat) -> char {
    seq!['0', '1', '2', '3', '4', '5', '6', '7', '8', '9', 'a', 'b', 'c', 'd', 'e', 'f'][d as int]
}

/// The last `n` hexadecimal digits of `k`, zero-padded.
pub open spec fn hex_str(k: nat, n: nat) -> Seq<char>
    decreases n,
{
    if n == 0 {
        Seq::empty()
    } else {
        hex_str(k / 16, (n - 1) as nat).push(hex_digit(k % 16))
    }
}

/// The cache file name of the program with key `key`: 16 lowercase
/// hexadecimal digits and `.bin`.
pub open spec fn cache_file_name_spec(key: u64) -> Seq<char> {
    hex_str(key as nat, 16) + lit_dot_bin()
}

/// A cached program as stored: its binary format's four bytes, then the binary.
pub open spec fn program_cache_encode_spec(format: u32, binary: Seq<u8>) -> Seq<u8> {
    le_bytes32(format) + binary
}

/// The binary format and the binary that a cache file holds; none when it
/// is shorter than four bytes.
pub open spec fn program_cache_decode_spec(data: Seq<u8>) -> Option<(u32, Seq<u8>)> {
    if data.len() < 4 {
        None
    } else {
        Some((from_le_bytes32(data), data.skip(4)))
    }
}

/// The 64-bit FNV-1a hash of `data`.
pub fn fnv1a(data: &[u8]) -> (r: u64)
    ensures
        r == fnv1a_spec(data@),
{
    let mut h: u64 = 14695981039346656037;
    let mut i: usize = 0;
    assert(data@.take(0) =~= Seq::<u8>::empty());
    while i < data.len()
        invariant
            i <= data@.len(),
            h == fnv1a_spec(data@.take(i as int)),
        decreases data@.len() - i,
    {
        let b = data[i];
        proof {
            assert(data@.take(i + 1).drop_last() =~= data@.take(i as int));
            assert(data@.take(i + 1).last() == b);
        }
        h = h ^ (b as u64);
        h = h.wrapping_mul(1099511628211);
        i = i + 1;
    }
    assert(data@.take(data@.len() as int) =~= data@);
    h
}

fn push_le64(buf: &mut Vec<u8>, x: u64)
    ensures
        final(buf)@ == old(buf)@ + le_bytes64(x),
{
    buf.push(x as u8);
    buf.push((x >> 8) as u8);
    buf.push((x >> 16) as u8);
    buf.push((x >> 24) as u8);
    buf.push((x >> 32) as u8);
    buf.push((x >> 40) as u8);
    buf.push((x >> 48) as u8);
    buf.push((x >> 56) as u8);
    assert(buf@ =~= old(buf)@ + le_bytes64(x));
}

/// The key of the compiled program of the shader directory `dir`, given the
/// modification times of its two sources in nanoseconds.
pub fn shader_cache_key(dir: &str, vert_ns: u64, frag_ns: u64) -> (r: u64)
    ensures
        r == cache_key_spec(dir@, vert_ns, frag_ns),
{
    let mut buf = dir.as_bytes_vec();
    push_le64(&mut buf, vert_ns);
    push_le64(&mut buf, frag_ns);
    fnv1a(buf.as_slice())
}

/// The cache file name of the program with key `key`.
pub fn cache_file_name(key: u64) -> (r: String)
    ensures
        r@ == cache_file_name_spec(key),
{
    let digits_lit = "0123456789abcdef";
    proof {
        reveal_strlit("0123456789abcdef");
        reveal_strlit(".bin");
        assert(digits_lit@ =~= seq![
            '0',
            '1',
            '2',
            '3',
            '4',
            '5',
            '6',
            '7',
            '8',
            '9',
            'a',
            'b',
            'c',
            'd',
            'e',
            'f',
        ]);
        assert(".bin"@ =~= lit_dot_bin());
    }
    // Digits are gathered least significant first.
    let mut ds: Vec<u8> = Vec::new();
    let mut m: u64 = key;
    let mut j: usize = 0;
    assert(hex_str(key as nat, 16) =~= hex_str(key as nat, 16) + Seq::<char>::empty());
    while j < 16
        invariant
            j <= 16,
            ds@.len() == j,
            forall|k: int| 0 <= k < ds@.len() ==> ds@[k] < 16,
            hex_str(key as nat, 16) == hex_str(m as nat, (16 - j) as nat) + Seq::new(
                ds@.len(),
                |k: int| hex_digit(ds@[ds@.len() - 1 - k] as nat),
            ),
        decreases 16 - j,
    {
        let d = (m % 16) as u8;
        let ghost old_ds = ds@;
        let ghost mm = m as nat;
        ds.push(d);
        proof {
            let n = (16 - j) as nat;
            assert(hex_str(mm, n) == hex_str(mm / 16, (n - 1) as nat).push(hex_digit(mm % 16)));
            let tail_old = Seq::new(old_ds.len(), |k: int| hex_digit(old_ds[old_ds.len() - 1 - k] as nat));
            let tail_new = Seq::new(ds@.len(), |k: int| hex_digit(ds@[ds@.len() - 1 - k] as nat));
            assert(tail_new =~= seq![hex_digit(mm % 16)] + tail_old);
            assert(hex_str(mm / 16, (n - 1) as nat).push(hex_digit(mm % 16)) + tail_old =~= hex_str(
                mm / 16,
                (n - 1) as nat,
            ) + tail_new);
        }
        m = m / 16;
        j = j + 1;
    }
    proof {
        assert(hex_str(m as nat, 0) =~= Seq::<char>::empty());
    }
    let mut r = String::new();
    let mut i: usize = 16;
    while i > 0
        invariant
            i <= 16,
            ds@.len() == 16,
            forall|k: int| 0 <= k < ds@.len() ==> ds@[k] < 16,
            digits_lit@ =~= seq![
                '0',
                '1',
                '2',
                '3',
                '4',
                '5',
                '6',
                '7',
                '8',
                '9',
                'a',
                'b',
                'c',
                'd',
                'e',
                'f',
            ],
            r@ == Seq::new((16 - i) as nat, |k: int| hex_digit(ds@[ds@.len() - 1 - k] as nat)),
        decreases i,
    {
        let d = ds[i - 1] as usize;
        let piece = digits_lit.substring_char(d, d + 1);
        r.append(piece);
        proof {
            assert(piece@ =~= seq![hex_digit(d as nat)]);
            assert(r@ =~= Seq::new(
                (16 - (i - 1)) as nat,
                |k: int| hex_digit(ds@[ds@.len() - 1 - k] as nat),
            ));
        }
        i = i - 1;
    }
    assert(r@ =~= hex_str(key as nat, 16));
    r.append(".bin");
    r
}

/// A cached program as stored: its binary format's four bytes, then the binary.
pub fn program_cache_encode(format: u32, binary: &[u8]) -> (r: Vec<u8>)
    ensures
        r@ == program_cache_encode_spec(format, binary@),
{
    let mut r: Vec<u8> = Vec::new();
    r.push(format as u8);
    r.push((format >> 8) as u8);
    r.push((format >> 16) as u8);
    r.push((format >> 24) as u8);
    let mut i: usize = 0;
    while i < binary.len()
        invariant
            i <= binary@.len(),
            r@ == le_bytes32(format) + binary@.take(i as int),
        decreases binary@.len() - i,
    {
        r.push(binary[i]);
        assert(binary@.take(i + 1) =~= binary@.take(i as int).push(binary@[i as int]));
        i = i + 1;
    }
    assert(binary@.take(binary@.len() as int) =~= binary@);
    r
}

/// The binary format and the binary that a cache file's bytes hold; `None`
/// when there are fewer than four bytes.
pub fn program_cache_decode(data: &[u8]) -> (r: Option<(u32, Vec<u8>)>)
    ensures
        match r {
            Some((f, b)) => program_cache_decode_spec(data@) == Some((f, b@)),
            None => program_cache_decode_spec(data@) is None,
        },
{
    if data.len() < 4 {
        return None;
    }
    let format = data[0] as u32 + data[1] as u32 * 256 + data[2] as u32 * 65536 + data[3] as u32
        * 16777216;
    let mut b: Vec<u8> = Vec::new();
    let mut i: usize = 4;
    while i < data.len()
        invariant
            4 <= i <= data@.len(),
            b@ == data@.subrange(4, i as int),
        decreases data@.len() - i,
    {
        b.push(data[i]);
        assert(data@.subrange(4, i + 1) =~= data@.subrange(4, i as int).push(data@[i as int]));
        i = i + 1;
    }
    assert(data@.skip(4) =~= data@.subrange(4, data@.len() as int));
    Some((format, b))
}


/// The two textures that every output draws from: the image shown, and the
/// one a transition goes to (the same texture when none is pending). Each
/// operation answers which texture, if any, is to be deleted.
#[derive(Clone, Copy, Debug, PartialEq, Eq, Structural)]
pub struct TextureSlots {
    pub current: u32,
    pub next: u32,
}

/// The slots after `set_initial(tex)`, and the texture to delete.
pub open spec fn set_initial_spec(s: TextureSlots, tex: u32) -> (TextureSlots, Option<u32>) {
    (TextureSlots { current: tex, next: tex }, Some(s.current))
}

/// The slots after `upload_new(tex)`, and the texture to delete: a pending
/// image that was never shown is dropped.
pub open spec fn upload_new_spec(s: TextureSlots, tex: u32) -> (TextureSlots, Option<u32>) {
    (
        TextureSlots { current: s.current, next: tex },
        if s.next != s.current {
            Some(s.next)
        } else {
            None
        },
    )
}

/// The slots after `commit`, and the texture to delete: the image that was
/// shown gives way to the pending one.
pub open spec fn commit_spec(s: TextureSlots) -> (TextureSlots, Option<u32>) {
    if s.current == s.next {
        (s, None)
    } else {
        (TextureSlots { current: s.next, next: s.next }, Some(s.current))
    }
}

/// The textures that the slots hold.
pub open spec fn live_textures(s: TextureSlots) -> Set<u32> {
    set![s.current, s.next]
}

impl TextureSlots {
    /// Both slots on the placeholder texture `placeholder`.
    pub fn new(placeholder: u32) -> (r: Self)
        ensures
            r.current == placeholder,
            r.next == placeholder,
    {
        TextureSlots { current: placeholder, next: placeholder }
    }

    /// Shows `tex` at once; answers the texture to delete.
    pub fn set_initial(&mut self, tex: u32) -> (deleted: Option<u32>)
        ensures
            (*final(self), deleted) == set_initial_spec(*old(self), tex),
    {
        let old_current = self.current;
        self.current = tex;
        self.next = tex;
        Some(old_current)
    }

    /// Makes `tex` the pending image; answers the texture to delete.
    pub fn upload_new(&mut self, tex: u32) -> (deleted: Option<u32>)
        ensures
            (*final(self), deleted) == upload_new_spec(*old(self), tex),
    {
        let d = if self.next != self.current {
            Some(self.next)
        } else {
            None
        };
        self.next = tex;
        d
    }

    /// Shows the pending image; answers the texture to delete.
    pub fn commit(&mut self) -> (deleted: Option<u32>)
        ensures
            (*final(self), deleted) == commit_spec(*old(self)),
    {
        if self.current == self.next {
            return None;
        }
        let d = self.current;
        self.current = self.next;
        Some(d)
    }

    /// The textures to delete when the slots are dropped: each held one once.
    pub fn release_all(&self) -> (r: Vec<u32>)
        ensures
            r@.to_set() == live_textures(*self),
            r@.no_duplicates(),
    {
        let mut v = Vec::new();
        v.push(self.current);
        if self.next != self.current {
            v.push(self.next);
        }
        proof {
            assert(v@[0] == self.current);
            if self.next != self.current {
                assert(v@[1] == self.next);
            }
            assert forall|x: u32| v@.to_set().contains(x) <==> live_textures(*self).contains(x) by {
                if x == self.next {
                    if self.next != self.current {
                        assert(v@[1] == x);
                    } else {
                        assert(v@[0] == x);
                    }
                }
            }
            assert(v@.to_set() =~= live_textures(*self));
        }
        v
    }
}


/// Seconds a transition lasts when the profile names no duration.
pub const DEFAULT_TRANSITION_SECS: i32 = 2;

/// What the renderers are told to draw with.
pub struct RenderConfig {
    pub constant_shader_dir: String,
    pub transition_shader_dir: String,
    /// A transition shader other than `default` is chosen.
    pub uses_transition: bool,
    /// A constant shader other than `default` is chosen, so frames keep coming.
    pub uses_animated_constant: bool,
    /// Whole seconds that a transition lasts.
    pub transition_secs: i32,
    pub scaling: String,
}

/// The shader name in force: the override, else the profile's, else `default`.
pub open spec fn shader_name_spec(override_name: Option<Seq<char>>, configured: Option<String>) -> Seq<char> {
    match override_name {
        Some(n) => n,
        None => match configured {
            Some(c) => c@,
            None => lit_default(),
        },
    }
}

/// The render configuration of the profile `active` under the shader
/// overrides, with the two shader directories already resolved.
pub open spec fn render_config_ok(
    r: RenderConfig,
    active: Config,
    override_constant: Option<Seq<char>>,
    override_transition: Option<Seq<char>>,
    constant_dir: Seq<char>,
    transition_dir: Seq<char>,
) -> bool {
    &&& r.constant_shader_dir@ == constant_dir
    &&& r.transition_shader_dir@ == transition_dir
    &&& r.uses_transition == (shader_name_spec(override_transition, active.transition_shader)
        != lit_default())
    &&& r.uses_animated_constant == (shader_name_spec(override_constant, active.constant_shader)
        != lit_default())
    &&& r.transition_secs == match active.transition_duration {
        Some(d) => d,
        None => 2,
    }
    &&& r.scaling@ == active.scaling@
}

fn shader_name<'a>(override_name: Option<&'a str>, configured: &'a Option<String>) -> (r: &'a str)
    ensures
        r@ == shader_name_spec(opt_view(override_name), *configured),
{
    match override_name {
        Some(n) => n,
        None => match configured {
            Some(c) => c.as_str(),
            None => {
                proof {
                    reveal_strlit("default");
                    assert("default"@ =~= lit_default());
                }
                "default"
            },
        },
    }
}

fn is_default_shader(n: &str) -> (r: bool)
    ensures
        r == (n@ == lit_default()),
{
    proof {
        reveal_strlit("default");
        assert("default"@ =~= lit_default());
    }
    str_eq(n, "default")
}

/// The render configuration of the profile `active` under the shader
/// overrides, given the directories that the chosen shaders resolve to.
pub fn render_config_from(
    active: &Config,
    override_constant: Option<&str>,
    override_transition: Option<&str>,
    constant_dir: String,
    transition_dir: String,
) -> (r: RenderConfig)
    ensures
        render_config_ok(
            r,
            *active,
            opt_view(override_constant),
            opt_view(override_transition),
            constant_dir@,
            transition_dir@,
        ),
{
    let constant_name = shader_name(override_constant, &active.constant_shader);
    let transition_name = shader_name(override_transition, &active.transition_shader);
    RenderConfig {
        constant_shader_dir: constant_dir,
        transition_shader_dir: transition_dir,
        uses_transition: !is_default_shader(transition_name),
        uses_animated_constant: !is_default_shader(constant_name),
        transition_secs: match active.transition_duration {
            Some(d) => d,
            None => DEFAULT_TRANSITION_SECS,
        },
        scaling: active.scaling.clone(),
    }
}

/// The render configuration of the profile `active` under the shader
/// overrides, each shader resolved under the user's shader directory `base`.
pub fn build_render_config(
    active: &Config,
    override_constant: Option<&str>,
    override_transition: Option<&str>,
    base: &str,
) -> (r: RenderConfig)
    ensures
        exists|pc: Seq<bool>, pt: Seq<bool>|
            pc.len() == 3 && pt.len() == 3 && render_config_ok(
                r,
                *active,
                opt_view(override_constant),
                opt_view(override_transition),
                pick_shader_dir_spec(
                    shader_candidates_spec(
                        base@,
                        lit_constant(),
                        shader_name_spec(opt_view(override_constant), active.constant_shader),
                    ),
                    pc,
                ),
                pick_shader_dir_spec(
                    shader_candidates_spec(
                        base@,
                        lit_transition(),
                        shader_name_spec(opt_view(override_transition), active.transition_shader),
                    ),
                    pt,
                ),
            ),
{
    let constant_name = shader_name(override_constant, &active.constant_shader);
    let transition_name = shader_name(override_transition, &active.transition_shader);
    let cdir = resolve_shader_dir(base, kind_dir(ShaderKind::Constant), constant_name);
    let tdir = resolve_shader_dir(base, kind_dir(ShaderKind::Transition), transition_name);
    render_config_from(active, override_constant, override_transition, cdir, tdir)
}

/// Whether a renderer is in a transition after a frame, given whether it was
/// before and whether the frame found the transition's full time elapsed.
pub open spec fn frame_transitioning(was: bool, elapsed_done: bool) -> bool {
    was && !elapsed_done
}

/// Whether a renderer is in a transition after frames whose elapsed-time
/// checks were `dones`, in order, starting from `was`.
pub open spec fn transitioning_after(was: bool, dones: Seq<bool>) -> bool
    decreases dones.len(),
{
    if dones.len() == 0 {
        was
    } else {
        transitioning_after(frame_transitioning(was, dones[0]), dones.drop_first())
    }
}

/// Once a transition has begun, the renderer stays in it through every
/// frame that finds less than its full time elapsed, and the first frame
/// that finds it elapsed ends it for good: after any run of frames it is in
/// the transition exactly when none of them found the time elapsed. A
/// renderer not in a transition never enters one by drawing frames.
pub proof fn lemma_transition_frames(dones: Seq<bool>)
    ensures
        transitioning_after(true, dones) <==> (forall|i: int| 0 <= i < dones.len() ==> !dones[i]),
        !transitioning_after(false, dones),
    decreases dones.len(),
{
    if dones.len() > 0 {
        let rest = dones.drop_first();
        lemma_transition_frames(rest);
        if !dones[0] {
            assert forall|i: int| 0 <= i < dones.len() && (forall|k: int| 0 <= k < rest.len() ==> !rest[k])
                implies !dones[i] by {
                if i > 0 {
                    assert(dones[i] == rest[i - 1]);
                }
            }
            assert((forall|k: int| 0 <= k < dones.len() ==> !dones[k]) ==> (forall|k: int|
                0 <= k < rest.len() ==> !rest[k])) by {
                if forall|k: int| 0 <= k < dones.len() ==> !dones[k] {
                    assert forall|k: int| 0 <= k < rest.len() implies !rest[k] by {
                        assert(rest[k] == dones[k + 1]);
                    }
                }
            }
        }
    }
}

/// What one renderer knows of its shader programs: the directories they
/// were loaded from, and whether a transition is under way.
pub struct ShaderState {
    pub constant_shader: String,
    pub transition_shader: String,
    pub transitioning: bool,
}

/// What to do for one frame.
#[derive(Clone, Copy, Debug, PartialEq, Eq, Structural)]
pub struct FramePlan {
    /// Reload the constant program before drawing.
    pub reload_constant_before: bool,
    /// Draw the transition pass first.
    pub transition_pass: bool,
    /// Reload the constant program after drawing.
    pub reload_constant_after: bool,
    /// Ask for another frame.
    pub needs_more: bool,
}

impl ShaderState {
    /// A renderer's state right after it loaded the programs of `config`.
    pub fn new(config: &RenderConfig) -> (r: Self)
        ensures
            r.constant_shader@ == config.constant_shader_dir@,
            r.transition_shader@ == config.transition_shader_dir@,
            !r.transitioning,
    {
        ShaderState {
            constant_shader: config.constant_shader_dir.clone(),
            transition_shader: config.transition_shader_dir.clone(),
            transitioning: false,
        }
    }

    /// Starts a transition to the pending image; answers whether the
    /// transition program is to be reloaded first. Without a transition
    /// shader no transition starts.
    pub fn begin_transition(&mut self, config: &RenderConfig) -> (reload_transition: bool)
        ensures
            final(self).constant_shader@ == old(self).constant_shader@,
            !config.uses_transition ==> {
                &&& !reload_transition
                &&& !final(self).transitioning
                &&& final(self).transition_shader@ == old(self).transition_shader@
            },
            config.uses_transition ==> {
                &&& reload_transition == (old(self).transition_shader@
                    != config.transition_shader_dir@)
                &&& final(self).transitioning
                &&& final(self).transition_shader@ == config.transition_shader_dir@
            },
    {
        if !config.uses_transition {
            self.transitioning = false;
            return false;
        }
        let reload = !str_eq(self.transition_shader.as_str(), config.transition_shader_dir.as_str());
        if reload {
            self.transition_shader = config.transition_shader_dir.clone();
        }
        self.transitioning = true;
        reload
    }

    /// Plans one frame; `elapsed_done` tells whether the transition under way
    /// has lasted its full time.
    pub fn frame(&mut self, config: &RenderConfig, elapsed_done: bool) -> (r: FramePlan)
        ensures
            r.reload_constant_before == (!old(self).transitioning && old(self).constant_shader@
                != config.constant_shader_dir@),
            r.transition_pass == old(self).transitioning,
            r.reload_constant_after == (old(self).transitioning && elapsed_done
                && old(self).constant_shader@ != config.constant_shader_dir@),
            r.needs_more == (frame_transitioning(old(self).transitioning, elapsed_done)
                || config.uses_animated_constant),
            final(self).transitioning == frame_transitioning(old(self).transitioning, elapsed_done),
            final(self).transition_shader@ == old(self).transition_shader@,
            final(self).constant_shader@ == if r.reload_constant_before || r.reload_constant_after {
                config.constant_shader_dir@
            } else {
                old(self).constant_shader@
            },
    {
        let transitioning = self.transitioning;
        let differs = !str_eq(self.constant_shader.as_str(), config.constant_shader_dir.as_str());
        let before = !transitioning && differs;
        let after = transitioning && elapsed_done && differs;
        if before || after {
            self.constant_shader = config.constant_shader_dir.clone();
        }
        if transitioning && elapsed_done {
            self.transitioning = false;
        }
        FramePlan {
            reload_constant_before: before,
            transition_pass: transitioning,
            reload_constant_after: after,
            needs_more: (transitioning && !elapsed_done) || config.uses_animated_constant,
        }
    }

    /// Whether a transition is under way.
    pub fn is_transitioning(&self) -> (r: bool)
        ensures
            r == self.transitioning,
    {
        self.transitioning
    }
}


/// A cached program reads back as the binary format and binary written.
pub proof fn lemma_program_cache_round_trip(format: u32, binary: Seq<u8>)
    ensures
        program_cache_decode_spec(program_cache_encode_spec(format, binary)) == Some((format, binary)),
{
    let d = program_cache_encode_spec(format, binary);
    assert(d.skip(4) =~= binary);
    let b0 = format as u8;
    let b1 = (format >> 8u32) as u8;
    let b2 = (format >> 16u32) as u8;
    let b3 = (format >> 24u32) as u8;
    assert(d[0] == b0 && d[1] == b1 && d[2] == b2 && d[3] == b3);
    assert(b0 as u32 + b1 as u32 * 256 + b2 as u32 * 65536 + b3 as u32 * 16777216 == format)
        by (bit_vector)
        requires
            b0 == format as u8,
            b1 == (format >> 8u32) as u8,
            b2 == (format >> 16u32) as u8,
            b3 == (format >> 24u32) as u8,
    ;
}

pub open spec fn opt_set(o: Option<u32>) -> Set<u32> {
    match o {
        Some(t) => set![t],
        None => Set::empty(),
    }
}

/// Texture bookkeeping loses no texture and deletes none that is still
/// held: with a fresh texture `tex`, each operation's held textures and the
/// one it deletes are exactly those held before and `tex`, the deleted one
/// was held before, and it is held no more. (Showing an image at once is
/// stated for slots with no pending image, as it is used at start-up.)
pub proof fn lemma_texture_accounting(s: TextureSlots, tex: u32)
    requires
        !live_textures(s).contains(tex),
    ensures
        ({
            let (s2, d) = upload_new_spec(s, tex);
            &&& live_textures(s).insert(tex) == live_textures(s2) + opt_set(d)
            &&& live_textures(s2).disjoint(opt_set(d))
            &&& opt_set(d).subset_of(live_textures(s))
        }),
        ({
            let (s2, d) = commit_spec(s);
            &&& live_textures(s) == live_textures(s2) + opt_set(d)
            &&& live_textures(s2).disjoint(opt_set(d))
        }),
        s.current == s.next ==> ({
            let (s2, d) = set_initial_spec(s, tex);
            &&& live_textures(s).insert(tex) == live_textures(s2) + opt_set(d)
            &&& live_textures(s2).disjoint(opt_set(d))
        }),
{
    let (s2, d) = upload_new_spec(s, tex);
    assert(live_textures(s).insert(tex) =~= live_textures(s2) + opt_set(d));
    assert(live_textures(s2).disjoint(opt_set(d)));
    let (s3, d3) = commit_spec(s);
    assert(live_textures(s) =~= live_textures(s3) + opt_set(d3));
    if s.current == s.next {
        let (s4, d4) = set_initial_spec(s, tex);
        assert(live_textures(s).insert(tex) =~= live_textures(s4) + opt_set(d4));
    }
}


pub open spec fn lit_fill_scaling() -> Seq<char> {
    seq!['f', 'i', 'l', 'l']
}

pub open spec fn lit_fit_scaling() -> Seq<char> {
    seq!['f', 'i', 't']
}

/// How an image is brought to a display's size.
#[derive(Clone, Copy, Debug, PartialEq, Eq, Structural)]
pub enum ScalePlan {
    /// Unchanged: an empty image or display, or an unknown scaling.
    Keep,
    /// Cropped to the display's aspect ratio.
    Fill,
    /// Centred on a black canvas of the display's aspect ratio.
    Fit,
}

/// A rectangle of `w` by `h` pixels at offset (`x`, `y`).
#[derive(Clone, Copy, Debug, PartialEq, Eq, Structural)]
pub struct Rect {
    pub w: u32,
    pub h: u32,
    pub x: u32,
    pub y: u32,
}

/// The plan for the scaling named `scaling` of an `img_w` by `img_h` image on
/// a `disp_w` by `disp_h` display.
pub open spec fn scale_plan_spec(scaling: Seq<char>, img_w: u32, img_h: u32, disp_w: u32, disp_h: u32) -> ScalePlan {
    if disp_w == 0 || disp_h == 0 || img_w == 0 || img_h == 0 {
        ScalePlan::Keep
    } else if scaling == lit_fill_scaling() {
        ScalePlan::Fill
    } else if scaling == lit_fit_scaling() {
        ScalePlan::Fit
    } else {
        ScalePlan::Keep
    }
}

pub open spec fn sat_sub(a: u32, b: u32) -> u32 {
    if a > b {
        (a - b) as u32
    } else {
        0
    }
}

pub open spec fn min_u32(a: u32, b: u32) -> u32 {
    if a < b {
        a
    } else {
        b
    }
}

/// The crop of a fill: when the display is wider than the image, the full
/// width and `scaled` rows (at most all), centred vertically; otherwise the
/// full height and `scaled` columns, centred horizontally.
pub open spec fn fill_rect_spec(img_w: u32, img_h: u32, display_wider: bool, scaled: u32) -> Rect {
    if display_wider {
        Rect { w: img_w, h: min_u32(scaled, img_h), x: 0, y: sat_sub(img_h, scaled) / 2 }
    } else {
        Rect { w: min_u32(scaled, img_w), h: img_h, x: sat_sub(img_w, scaled) / 2, y: 0 }
    }
}

/// The canvas of a fit, and where the image goes on it: when the display is
/// wider than the image, `scaled` columns with the image centred
/// horizontally; otherwise `scaled` rows with it centred vertically.
pub open spec fn fit_rect_spec(img_w: u32, img_h: u32, display_wider: bool, scaled: u32) -> Rect {
    if display_wider {
        Rect { w: scaled, h: img_h, x: sat_sub(scaled, img_w) / 2, y: 0 }
    } else {
        Rect { w: img_w, h: scaled, x: 0, y: sat_sub(scaled, img_h) / 2 }
    }
}

/// How to scale an `img_w` by `img_h` image for a `disp_w` by `disp_h`
/// display under the scaling named `scaling`.
pub fn scale_plan(scaling: &str, img_w: u32, img_h: u32, disp_w: u32, disp_h: u32) -> (r: ScalePlan)
    ensures
        r == scale_plan_spec(scaling@, img_w, img_h, disp_w, disp_h),
{
    proof {
        reveal_strlit("fill");
        reveal_strlit("fit");
        assert("fill"@ =~= lit_fill_scaling());
        assert("fit"@ =~= lit_fit_scaling());
    }
    if disp_w == 0 || disp_h == 0 || img_w == 0 || img_h == 0 {
        ScalePlan::Keep
    } else if str_eq(scaling, "fill") {
        ScalePlan::Fill
    } else if str_eq(scaling, "fit") {
        ScalePlan::Fit
    } else {
        ScalePlan::Keep
    }
}

/// The crop of a fill, given whether the display is wider than the image and
/// the rounded size (`scaled`) that the other side comes to.
pub fn fill_rect(img_w: u32, img_h: u32, display_wider: bool, scaled: u32) -> (r: Rect)
    ensures
        r == fill_rect_spec(img_w, img_h, display_wider, scaled),
        r.x + r.w <= img_w,
        r.y + r.h <= img_h,
        display_wider ==> {
            &&& r.x == 0 && r.w == img_w
            &&& r.h == (if scaled < img_h { scaled } else { img_h })
            &&& r.h + 2 * r.y <= img_h <= r.h + 2 * r.y + 1
        },
        !display_wider ==> {
            &&& r.y == 0 && r.h == img_h
            &&& r.w == (if scaled < img_w { scaled } else { img_w })
            &&& r.w + 2 * r.x <= img_w <= r.w + 2 * r.x + 1
        },
{
    if display_wider {
        let y = img_h.saturating_sub(scaled) / 2;
        Rect { w: img_w, h: if scaled < img_h { scaled } else { img_h }, x: 0, y }
    } else {
        let x = img_w.saturating_sub(scaled) / 2;
        Rect { w: if scaled < img_w { scaled } else { img_w }, h: img_h, x, y: 0 }
    }
}

/// The canvas of a fit and the image's place on it, given whether the
/// display is wider than the image and the rounded size (`scaled`) of the
/// canvas's other side.
pub fn fit_rect(img_w: u32, img_h: u32, display_wider: bool, scaled: u32) -> (r: Rect)
    ensures
        r == fit_rect_spec(img_w, img_h, display_wider, scaled),
        display_wider ==> {
            &&& r.w == scaled && r.h == img_h && r.y == 0
            &&& img_w <= scaled ==> img_w + 2 * r.x <= scaled <= img_w + 2 * r.x + 1
            &&& scaled < img_w ==> r.x == 0
        },
        !display_wider ==> {
            &&& r.w == img_w && r.h == scaled && r.x == 0
            &&& img_h <= scaled ==> img_h + 2 * r.y <= scaled <= img_h + 2 * r.y + 1
            &&& scaled < img_h ==> r.y == 0
        },
{
    if display_wider {
        Rect { w: scaled, h: img_h, x: scaled.saturating_sub(img_w) / 2, y: 0 }
    } else {
        Rect { w: img_w, h: scaled, x: 0, y: scaled.saturating_sub(img_h) / 2 }
    }
}

/// A fill crops the image to the display's proportions and keeps its
/// middle: the crop spans the image's full width (when the display is wider)
/// or full height (otherwise), and the parts cut off on either side of it
/// differ by at most one pixel, the larger one after it.
pub proof fn lemma_fill_crop_centred(img_w: u32, img_h: u32, display_wider: bool, scaled: u32)
    ensures
        ({
            let r = fill_rect_spec(img_w, img_h, display_wider, scaled);
            &&& r.x + r.w <= img_w
            &&& r.y + r.h <= img_h
            &&& display_wider ==> r.w == img_w && r.x == 0 && r.y <= img_h - r.y - r.h <= r.y + 1
                && (scaled <= img_h ==> r.h == scaled)
            &&& !display_wider ==> r.h == img_h && r.y == 0 && r.x <= img_w - r.x - r.w <= r.x + 1
                && (scaled <= img_w ==> r.w == scaled)
        }),
{
}

/// A fit puts the whole image on a canvas of the display's proportions and
/// centres it: the canvas keeps the image's height (when the display is
/// wider) or width (otherwise), and the bars on either side of the image
/// differ by at most one pixel.
pub proof fn lemma_fit_image_centred(img_w: u32, img_h: u32, display_wider: bool, scaled: u32)
    ensures
        ({
            let r = fit_rect_spec(img_w, img_h, display_wider, scaled);
            &&& display_wider && img_w <= scaled ==> r.h == img_h && r.w == scaled && r.y == 0
                && r.x <= scaled - r.x - img_w <= r.x + 1
            &&& !display_wider && img_h <= scaled ==> r.w == img_w && r.h == scaled && r.x == 0
                && r.y <= scaled - r.y - img_h <= r.y + 1
        }),
{
}

} // verus!
