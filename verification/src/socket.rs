//! Where the daemon's control sockets live, and how a socket file name
//! tells which instance it belongs to.
use crate::config::parser::{opt_view, lit_default};
use crate::paths::{dot, dotdot, extension_of, file_name, join, lemma_file_name_join, name_ext, path_join};
use crate::text::{last_at, lemma_last_at_unique};
use crate::text::{decimal_str, ends_with, ends_with_str, starts_with, starts_with_str, str_eq, u64_to_decimal};
use vstd::prelude::*;

verus! {

pub open spec fn lit_run_user() -> Seq<char> {
    seq!['/', 'r', 'u', 'n', '/', 'u', 's', 'e', 'r', '/']
}

pub open spec fn lit_slash_wallerd() -> Seq<char> {
    seq!['/', 'w', 'a', 'l', 'l', 'e', 'r', 'd']
}

pub open spec fn lit_wallerd_dash() -> Seq<char> {
    seq!['w', 'a', 'l', 'l', 'e', 'r', 'd', '-']
}

pub open spec fn lit_dot_sock() -> Seq<char> {
    seq!['.', 's', 'o', 'c', 'k']
}

pub open spec fn lit_sock() -> Seq<char> {
    seq!['s', 'o', 'c', 'k']
}

pub open spec fn lit_wallerd_sock() -> Seq<char> {
    seq!['w', 'a', 'l', 'l', 'e', 'r', 'd', '.', 's', 'o', 'c', 'k']
}

/// The runtime directory: `$XDG_RUNTIME_DIR`, else `/run/user/<uid>`.
pub open spec fn runtime_dir_spec(var: Option<Seq<char>>, uid: u32) -> Seq<char> {
    match var {
        Some(v) => v,
        None => lit_run_user() + decimal_str(uid as nat),
    }
}

/// The directory of the sockets under the runtime directory `runtime`.
pub open spec fn socket_dir_spec(runtime: Seq<char>) -> Seq<char> {
    runtime + lit_slash_wallerd()
}

/// The file name of the socket of the instance `name`, or of the unnamed one.
pub open spec fn socket_file_spec(name: Option<Seq<char>>) -> Seq<char> {
    match name {
        Some(n) => lit_wallerd_dash() + n + lit_dot_sock(),
        None => lit_wallerd_sock(),
    }
}

/// The socket of the instance `name` under the runtime directory `runtime`.
pub open spec fn socket_path_spec(runtime: Seq<char>, name: Option<Seq<char>>) -> Seq<char> {
    socket_dir_spec(runtime) + seq!['/'] + socket_file_spec(name)
}

/// The instance that a file of the socket directory belongs to: `default` for
/// `wallerd.sock`, `<n>` for `wallerd-<n>.sock`; other files belong to none.
pub open spec fn instance_label_spec(n: Seq<char>) -> Option<Seq<char>> {
    if name_ext(n) != Some(lit_sock()) {
        None
    } else if n == lit_wallerd_sock() {
        Some(lit_default())
    } else if starts_with(n, lit_wallerd_dash()) && ends_with(n.skip(8), lit_dot_sock()) {
        Some(n.subrange(8, n.len() - 5))
    } else {
        None
    }
}

/// The instances found among the file names `names` of the socket
/// directory `dir`, in their order: each label with its socket's path.
pub open spec fn instances_spec(dir: Seq<char>, names: Seq<Seq<char>>) -> Seq<(Seq<char>, Seq<char>)>
    decreases names.len(),
{
    if names.len() == 0 {
        Seq::empty()
    } else {
        let prev = instances_spec(dir, names.drop_last());
        match instance_label_spec(names.last()) {
            Some(l) => prev.push((l, path_join(dir, names.last()))),
            None => prev,
        }
    }
}

pub open spec fn strings_view(v: Seq<String>) -> Seq<Seq<char>> {
    v.map_values(|s: String| s@)
}

pub open spec fn pairs_view(v: Seq<(String, String)>) -> Seq<(Seq<char>, Seq<char>)> {
    v.map_values(|p: (String, String)| (p.0@, p.1@))
}

/// The runtime directory, from the value of `XDG_RUNTIME_DIR` and the user id.
pub fn runtime_dir(var: Option<&str>, uid: u32) -> (r: String)
    ensures
        r@ == runtime_dir_spec(opt_view(var), uid),
{
    match var {
        Some(v) => v.to_owned(),
        None => {
            proof {
                reveal_strlit("/run/user/");
                assert("/run/user/"@ =~= lit_run_user());
            }
            let mut r = "/run/user/".to_owned();
            let d = u64_to_decimal(uid as u64);
            r.append(d.as_str());
            r
        },
    }
}

/// The directory of the sockets under the runtime directory `runtime`.
pub fn socket_dir(runtime: &str) -> (r: String)
    ensures
        r@ == socket_dir_spec(runtime@),
{
    proof {
        reveal_strlit("/wallerd");
        assert("/wallerd"@ =~= lit_slash_wallerd());
    }
    let mut r = runtime.to_owned();
    r.append("/wallerd");
    r
}

/// The socket of the instance `name`, or of the unnamed instance, under the
/// runtime directory `runtime`.
pub fn socket_path(runtime: &str, name: Option<&str>) -> (r: String)
    ensures
        r@ == socket_path_spec(runtime@, opt_view(name)),
{
    proof {
        reveal_strlit("/wallerd-");
        reveal_strlit(".sock");
        reveal_strlit("/wallerd.sock");
        assert("/wallerd-"@ =~= seq!['/'] + lit_wallerd_dash());
        assert(".sock"@ =~= lit_dot_sock());
        assert("/wallerd.sock"@ =~= seq!['/'] + lit_wallerd_sock());
    }
    let mut r = socket_dir(runtime);
    match name {
        Some(n) => {
            r.append("/wallerd-");
            r.append(n);
            r.append(".sock");
        },
        None => {
            r.append("/wallerd.sock");
        },
    }
    r
}

/// The instance that the socket file `fname` belongs to, if any.
pub fn instance_label(fname: &str) -> (r: Option<String>)
    ensures
        match r {
            Some(l) => instance_label_spec(fname@) == Some(l@),
            None => instance_label_spec(fname@) is None,
        },
{
    proof {
        reveal_strlit("sock");
        reveal_strlit("wallerd.sock");
        reveal_strlit("wallerd-");
        reveal_strlit(".sock");
        reveal_strlit("default");
        assert("sock"@ =~= lit_sock());
        assert("wallerd.sock"@ =~= lit_wallerd_sock());
        assert("wallerd-"@ =~= lit_wallerd_dash());
        assert(".sock"@ =~= lit_dot_sock());
        assert("default"@ =~= lit_default());
    }
    match extension_of(fname) {
        Some(e) => {
            if !str_eq(e, "sock") {
                return None;
            }
        },
        None => {
            return None;
        },
    }
    if str_eq(fname, "wallerd.sock") {
        return Some("default".to_owned());
    }
    if !starts_with_str(fname, "wallerd-") {
        return None;
    }
    let n = fname.unicode_len();
    let rest = fname.substring_char(8, n);
    assert(rest@ =~= fname@.skip(8));
    if !ends_with_str(rest, ".sock") {
        return None;
    }
    let label = fname.substring_char(8, n - 5);
    Some(label.to_owned())
}

/// The instances whose sockets are among the files `names` of the socket
/// directory `dir`: each label with its socket's path.
pub fn all_instances(dir: &str, names: &Vec<String>) -> (r: Vec<(String, String)>)
    ensures
        pairs_view(r@) == instances_spec(dir@, strings_view(names@)),
{
    let mut out: Vec<(String, String)> = Vec::new();
    let mut i: usize = 0;
    while i < names.len()
        invariant
            i <= names@.len(),
            pairs_view(out@) == instances_spec(dir@, strings_view(names@).take(i as int)),
        decreases names@.len() - i,
    {
        let ghost nv = strings_view(names@);
        proof {
            assert(nv.take(i + 1).drop_last() =~= nv.take(i as int));
            assert(nv.take(i + 1).last() == names@[i as int]@);
        }
        match instance_label(names[i].as_str()) {
            Some(label) => {
                let p = join(dir, names[i].as_str());
                let ghost old_out = out@;
                out.push((label, p));
                proof {
                    assert(pairs_view(out@) =~= pairs_view(old_out).push((label@, p@)));
                }
            },
            None => {},
        }
        i = i + 1;
    }
    assert(strings_view(names@).take(names@.len() as int) =~= strings_view(names@));
    out
}


/// The label under which an instance is listed: its name, or `default`.
pub open spec fn label_of(name: Option<Seq<char>>) -> Seq<char> {
    match name {
        Some(n) => n,
        None => lit_default(),
    }
}

/// Listing the socket directory finds each instance's socket under the
/// instance's own name (or `default` for the unnamed one), with the very
/// path the instance listens on; for names without a `/`.
pub proof fn lemma_instance_socket_found(runtime: Seq<char>, name: Option<Seq<char>>)
    requires
        name matches Some(n) ==> forall|k: int| 0 <= k < n.len() ==> n[k] != '/',
    ensures
        file_name(socket_path_spec(runtime, name)) == Some(socket_file_spec(name)),
        path_join(socket_dir_spec(runtime), socket_file_spec(name)) == socket_path_spec(runtime, name),
        instance_label_spec(socket_file_spec(name)) == Some(label_of(name)),
        instances_spec(socket_dir_spec(runtime), seq![socket_file_spec(name)]) == seq![
            (label_of(name), socket_path_spec(runtime, name)),
        ],
{
    let f = socket_file_spec(name);
    let dir = socket_dir_spec(runtime);
    assert(forall|k: int| 0 <= k < f.len() ==> f[k] != '/') by {
        match name {
            Some(n) => {
                assert forall|k: int| 0 <= k < f.len() implies f[k] != '/' by {
                    if k < 8 {
                        assert(f[k] == lit_wallerd_dash()[k]);
                    } else if k < 8 + n.len() {
                        assert(f[k] == n[k - 8]);
                    } else {
                        assert(f[k] == lit_dot_sock()[k - 8 - n.len()]);
                    }
                }
            },
            None => {},
        }
    }
    assert(f.len() >= 12);
    assert(f != dot());
    assert(f != dotdot());
    lemma_file_name_join(dir, f);
    assert(dir.last() == 'd');
    assert(f[0] == 'w');
    assert(path_join(dir, f) =~= socket_path_spec(runtime, name));
    // The extension is what follows the dot of `.sock`.
    let i = f.len() - 5;
    assert(f.subrange(i, f.len() as int) =~= lit_dot_sock()) by {
        match name {
            Some(n) => {},
            None => {},
        }
    }
    assert(f[i] == '.');
    assert(last_at(f, '.', i)) by {
        assert forall|k: int| i < k < f.len() implies f[k] != '.' by {
            assert(f[k] == f.subrange(i, f.len() as int)[k - i]);
        }
    }
    let j = choose|j: int| last_at(f, '.', j);
    lemma_last_at_unique(f, '.', i, j);
    assert(f.subrange(i + 1, f.len() as int) =~= lit_sock()) by {
        assert forall|k: int| 0 <= k < 4 implies f.subrange(i + 1, f.len() as int)[k] == lit_sock()[k] by {
            assert(f[i + 1 + k] == f.subrange(i, f.len() as int)[k + 1]);
        }
    }
    assert(name_ext(f) == Some(lit_sock()));
    match name {
        Some(n) => {
            assert(f.len() != lit_wallerd_sock().len());
            assert(f.subrange(0, 8) =~= lit_wallerd_dash());
            assert(f.skip(8) =~= n + lit_dot_sock());
            assert(f.skip(8).subrange(f.skip(8).len() - 5, f.skip(8).len() as int) =~= lit_dot_sock());
            assert(f.subrange(8, f.len() - 5) =~= n);
        },
        None => {},
    }
    let names = seq![f];
    assert(names.drop_last() =~= Seq::<Seq<char>>::empty());
    assert(instances_spec(dir, names.drop_last()) =~= Seq::<(Seq<char>, Seq<char>)>::empty());
}

/// A file that belongs to an instance is that instance's socket file:
/// `wallerd.sock` for `default`, else `wallerd-<label>.sock`.
proof fn lemma_label_file(n: Seq<char>, l: Seq<char>)
    requires
        instance_label_spec(n) == Some(l),
    ensures
        (n == socket_file_spec(None) && l == lit_default()) || n == socket_file_spec(Some(l)),
{
    if n != lit_wallerd_sock() {
        let r = n.skip(8);
        assert(n.subrange(0, 8) == lit_wallerd_dash());
        assert(r.subrange(r.len() - 5, r.len() as int) == lit_dot_sock());
        assert(l == n.subrange(8, n.len() - 5));
        assert forall|k: int| 0 <= k < n.len() implies n[k] == (lit_wallerd_dash() + l
            + lit_dot_sock())[k] by {
            if k < 8 {
                assert(n[k] == n.subrange(0, 8)[k]);
            } else if k < n.len() - 5 {
                assert(n[k] == l[k - 8]);
            } else {
                assert(n[k] == r[k - 8]);
                assert(r[k - 8] == r.subrange(r.len() - 5, r.len() as int)[k - 8 - (r.len() - 5)]);
            }
        }
        assert(n =~= lit_wallerd_dash() + l + lit_dot_sock());
    }
}

/// What the listing of `names` holds: every pair comes from a file among
/// `names` that belongs to an instance, labelled and joined to `dir`; and
/// every such file gives its pair.
proof fn lemma_instances_members(dir: Seq<char>, names: Seq<Seq<char>>)
    ensures
        forall|k: int|
            0 <= k < instances_spec(dir, names).len() ==> exists|i: int|
                0 <= i < names.len() && instance_label_spec(names[i]) == Some(
                    (#[trigger] instances_spec(dir, names)[k]).0,
                ) && instances_spec(dir, names)[k].1 == path_join(dir, names[i]),
        forall|i: int|
            0 <= i < names.len() && (#[trigger] instance_label_spec(names[i])) is Some
                ==> instances_spec(dir, names).contains(
                (instance_label_spec(names[i]).unwrap(), path_join(dir, names[i])),
            ),
    decreases names.len(),
{
    if names.len() > 0 {
        let prev_names = names.drop_last();
        lemma_instances_members(dir, prev_names);
        let prev = instances_spec(dir, prev_names);
        let inst = instances_spec(dir, names);
        assert forall|k: int| 0 <= k < inst.len() implies exists|i: int|
            0 <= i < names.len() && instance_label_spec(names[i]) == Some((#[trigger] inst[k]).0)
                && inst[k].1 == path_join(dir, names[i]) by {
            if k < prev.len() {
                assert(inst[k] == prev[k]);
                let i = choose|i: int|
                    0 <= i < prev_names.len() && instance_label_spec(prev_names[i]) == Some(
                        (#[trigger] prev[k]).0,
                    ) && prev[k].1 == path_join(dir, prev_names[i]);
                assert(names[i] == prev_names[i]);
            } else {
                assert(names[names.len() - 1] == names.last());
            }
        }
        assert forall|i: int|
            0 <= i < names.len() && (#[trigger] instance_label_spec(names[i])) is Some implies inst.contains(
            (instance_label_spec(names[i]).unwrap(), path_join(dir, names[i])),
        ) by {
            if i < names.len() - 1 {
                assert(names[i] == prev_names[i]);
                let x = (instance_label_spec(prev_names[i]).unwrap(), path_join(dir, prev_names[i]));
                assert(prev.contains(x));
                let k = choose|k: int| 0 <= k < prev.len() && prev[k] == x;
                assert(inst[k] == prev[k]);
            } else {
                assert(names[i] == names.last());
                assert(inst[inst.len() - 1] == (
                    instance_label_spec(names[i]).unwrap(),
                    path_join(dir, names[i]),
                ));
            }
        }
    }
}

/// Listing the socket directory gives exactly the running instances' own
/// sockets: every listed pair is `default` with the unnamed instance's
/// socket or a label with the socket that the instance of that name listens
/// on, and every instance's socket file present (names without a `/`) is
/// listed under the instance's label with that path.
pub proof fn lemma_all_instances_listing(runtime: Seq<char>, names: Seq<Seq<char>>)
    ensures
        forall|k: int|
            0 <= k < instances_spec(socket_dir_spec(runtime), names).len() ==> {
                let p = #[trigger] instances_spec(socket_dir_spec(runtime), names)[k];
                (p.0 == lit_default() && p.1 == socket_path_spec(runtime, None)) || p.1
                    == socket_path_spec(runtime, Some(p.0))
            },
        forall|name: Option<Seq<char>>|
            (name matches Some(n) ==> forall|k: int| 0 <= k < n.len() ==> n[k] != '/') && names.contains(
                #[trigger] socket_file_spec(name),
            ) ==> instances_spec(socket_dir_spec(runtime), names).contains(
                (label_of(name), socket_path_spec(runtime, name)),
            ),
{
    let dir = socket_dir_spec(runtime);
    let inst = instances_spec(dir, names);
    lemma_instances_members(dir, names);
    assert forall|k: int| 0 <= k < inst.len() implies {
        let p = #[trigger] inst[k];
        (p.0 == lit_default() && p.1 == socket_path_spec(runtime, None)) || p.1 == socket_path_spec(
            runtime,
            Some(p.0),
        )
    } by {
        let p = inst[k];
        let i = choose|i: int|
            0 <= i < names.len() && instance_label_spec(names[i]) == Some((#[trigger] inst[k]).0)
                && inst[k].1 == path_join(dir, names[i]);
        lemma_label_file(names[i], p.0);
        assert(dir.last() == 'd');
        if names[i] == socket_file_spec(None) && p.0 == lit_default() {
            assert(path_join(dir, names[i]) =~= socket_path_spec(runtime, None));
        } else {
            assert(names[i][0] == 'w');
            assert(path_join(dir, names[i]) =~= socket_path_spec(runtime, Some(p.0)));
        }
    }
    assert forall|name: Option<Seq<char>>|
        (name matches Some(n) ==> forall|k: int| 0 <= k < n.len() ==> n[k] != '/') && names.contains(
            #[trigger] socket_file_spec(name),
        ) implies inst.contains((label_of(name), socket_path_spec(runtime, name))) by {
        lemma_instance_socket_found(runtime, name);
        let i = choose|i: int| 0 <= i < names.len() && names[i] == socket_file_spec(name);
        assert(instance_label_spec(names[i]) is Some);
    }
}

} // verus!
