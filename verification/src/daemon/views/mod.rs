//! Views: how the images to show are picked and when they change.
//!
//! A folder view lists the images of its folder: the interval view by file
//! name, the time view by the number that each file stem reads as (0 when it
//! reads as none), then by name.
pub mod interval_view;
pub mod static_view;
pub mod time_view;

pub use interval_view::IntervalView;
pub use static_view::StaticView;
pub use time_view::TimeView;

use crate::config::parser::Config;
use crate::fsys::unix_time_secs;
use crate::paths::{extension_of, file_name, file_name_of, join, name_ext, name_stem, path_join, stem_of};
use crate::socket::strings_view;
use crate::text::{
    lemma_seq_lt_asym, lemma_seq_lt_irrefl, lemma_seq_lt_total, lemma_seq_lt_trans, parse_u64,
    parse_u64_str, seq_lt, str_eq, str_lt,
};
use vstd::prelude::*;
use vstd::view::View as _;

verus! {

broadcast use vstd::seq_lib::group_to_multiset_ensures;

/// What every view offers: the image to show first.
pub trait View {
    fn initial(&self) -> String;
}

pub open spec fn lit_png() -> Seq<char> {
    seq!['p', 'n', 'g']
}

pub open spec fn lit_jpg() -> Seq<char> {
    seq!['j', 'p', 'g']
}

pub open spec fn lit_jpeg() -> Seq<char> {
    seq!['j', 'p', 'e', 'g']
}

pub open spec fn lit_webp() -> Seq<char> {
    seq!['w', 'e', 'b', 'p']
}

pub open spec fn lit_bmp() -> Seq<char> {
    seq!['b', 'm', 'p']
}

pub open spec fn is_image_ext(e: Seq<char>) -> bool {
    e == lit_png() || e == lit_jpg() || e == lit_jpeg() || e == lit_webp() || e == lit_bmp()
}

/// A file name whose extension is one of the image extensions.
pub open spec fn is_image_name(n: Seq<char>) -> bool {
    match name_ext(n) {
        Some(e) => is_image_ext(e),
        None => false,
    }
}

/// A path whose file name is an image's.
pub open spec fn is_image_path(p: Seq<char>) -> bool {
    match file_name(p) {
        Some(n) => is_image_name(n),
        None => false,
    }
}

/// The number by which an image file is ordered: what its stem reads as,
/// else 0.
pub open spec fn image_key(n: Seq<char>) -> u64 {
    match parse_u64(name_stem(n)) {
        Some(v) => v,
        None => 0,
    }
}

/// `a` comes before `b` among the images of a folder.
pub open spec fn image_before(a: Seq<char>, b: Seq<char>) -> bool {
    image_key(a) < image_key(b) || (image_key(a) == image_key(b) && seq_lt(a, b))
}

/// `a` comes before `b` in a folder view: by number, then by name, when
/// `by_number`; else by name alone.
pub open spec fn view_before(by_number: bool, a: Seq<char>, b: Seq<char>) -> bool {
    if by_number {
        image_before(a, b)
    } else {
        seq_lt(a, b)
    }
}

/// No name in `s` comes before one earlier in it, in the order `by_number`
/// picks.
pub open spec fn view_sorted(by_number: bool, s: Seq<Seq<char>>) -> bool {
    forall|i: int, j: int|
        0 <= i < j < s.len() ==> !view_before(by_number, #[trigger] s[j], #[trigger] s[i])
}

/// Ordered as the time view orders its images: by number, then by name.
pub open spec fn images_sorted(s: Seq<Seq<char>>) -> bool {
    view_sorted(true, s)
}

/// Ordered by file name, as the interval view orders its images.
pub open spec fn names_sorted(s: Seq<Seq<char>>) -> bool {
    view_sorted(false, s)
}

/// The image files among `entries`, in their order.
pub open spec fn image_entries(entries: Seq<Seq<char>>) -> Seq<Seq<char>> {
    entries.filter(|n: Seq<char>| is_image_name(n))
}

/// The paths of the images `names` in `folder`.
pub open spec fn image_paths(folder: Seq<char>, names: Seq<Seq<char>>) -> Seq<Seq<char>> {
    names.map_values(|n: Seq<char>| path_join(folder, n))
}

/// No image comes before itself.
pub proof fn lemma_image_before_irrefl(a: Seq<char>)
    ensures
        !image_before(a, a),
{
    lemma_seq_lt_irrefl(a);
}

/// The image order is transitive.
pub proof fn lemma_image_before_trans(a: Seq<char>, b: Seq<char>, c: Seq<char>)
    requires
        image_before(a, b),
        image_before(b, c),
    ensures
        image_before(a, c),
{
    if image_key(a) == image_key(b) && image_key(b) == image_key(c) {
        lemma_seq_lt_trans(a, b, c);
    }
}

/// Of two different images, one comes before the other.
pub proof fn lemma_image_before_total(a: Seq<char>, b: Seq<char>)
    ensures
        a == b || image_before(a, b) || image_before(b, a),
{
    lemma_seq_lt_total(a, b);
}

/// Two images never come each before the other.
pub proof fn lemma_image_before_asym(a: Seq<char>, b: Seq<char>)
    requires
        image_before(a, b),
    ensures
        !image_before(b, a),
{
    if image_key(a) == image_key(b) {
        lemma_seq_lt_asym(a, b);
    }
}

proof fn lemma_view_before_trans(by_number: bool, a: Seq<char>, b: Seq<char>, c: Seq<char>)
    requires
        view_before(by_number, a, b),
        view_before(by_number, b, c),
    ensures
        view_before(by_number, a, c),
{
    if by_number {
        lemma_image_before_trans(a, b, c);
    } else {
        lemma_seq_lt_trans(a, b, c);
    }
}

proof fn lemma_view_before_total(by_number: bool, a: Seq<char>, b: Seq<char>)
    ensures
        a == b || view_before(by_number, a, b) || view_before(by_number, b, a),
{
    if by_number {
        lemma_image_before_total(a, b);
    } else {
        lemma_seq_lt_total(a, b);
    }
}

proof fn lemma_view_before_asym(by_number: bool, a: Seq<char>, b: Seq<char>)
    requires
        view_before(by_number, a, b),
    ensures
        !view_before(by_number, b, a),
{
    if by_number {
        lemma_image_before_asym(a, b);
    } else {
        lemma_seq_lt_asym(a, b);
    }
}

fn is_image_extension(e: &str) -> (r: bool)
    ensures
        r == is_image_ext(e@),
{
    proof {
        reveal_strlit("png");
        reveal_strlit("jpg");
        reveal_strlit("jpeg");
        reveal_strlit("webp");
        reveal_strlit("bmp");
        assert("png"@ =~= lit_png());
        assert("jpg"@ =~= lit_jpg());
        assert("jpeg"@ =~= lit_jpeg());
        assert("webp"@ =~= lit_webp());
        assert("bmp"@ =~= lit_bmp());
    }
    str_eq(e, "png") || str_eq(e, "jpg") || str_eq(e, "jpeg") || str_eq(e, "webp") || str_eq(
        e,
        "bmp",
    )
}

/// Whether the file name `name` is an image's.
pub fn is_image_file_name(name: &str) -> (r: bool)
    ensures
        r == is_image_name(name@),
{
    match extension_of(name) {
        Some(e) => is_image_extension(e),
        None => false,
    }
}

/// Whether `path` names an image file: its extension is `png`, `jpg`,
/// `jpeg`, `webp` or `bmp`.
pub fn is_image(path: &str) -> (r: bool)
    ensures
        r == is_image_path(path@),
{
    match file_name_of(path) {
        Some(n) => is_image_file_name(n),
        None => false,
    }
}

/// The number by which the image file `name` is ordered.
pub fn image_key_of(name: &str) -> (r: u64)
    ensures
        r == image_key(name@),
{
    match parse_u64_str(stem_of(name)) {
        Some(v) => v,
        None => 0,
    }
}

fn view_before_exec(by_number: bool, a: &str, b: &str) -> (r: bool)
    ensures
        r == view_before(by_number, a@, b@),
{
    if by_number {
        let ka = image_key_of(a);
        let kb = image_key_of(b);
        ka < kb || (ka == kb && str_lt(a, b))
    } else {
        str_lt(a, b)
    }
}

/// The images among `entries`, the file names of `folder`, in the order
/// `by_number` picks, each as its path in `folder`; with their names.
pub(crate) fn collect_images(folder: &str, entries: &Vec<String>, by_number: bool) -> (r: (
    Vec<String>,
    Ghost<Seq<Seq<char>>>,
))
    ensures
        view_sorted(by_number, r.1@),
        r.1@.to_multiset() == image_entries(strings_view(entries@)).to_multiset(),
        strings_view(r.0@) == image_paths(folder@, r.1@),
{
    let ghost ev = strings_view(entries@);
    let ghost pred = |n: Seq<char>| is_image_name(n);
    let mut names: Vec<String> = Vec::new();
    let mut i: usize = 0;
    assert(ev.take(0) =~= Seq::<Seq<char>>::empty());
    assert(strings_view(names@) =~= Seq::<Seq<char>>::empty());
    while i < entries.len()
        invariant
            ev == strings_view(entries@),
            pred == (|n: Seq<char>| is_image_name(n)),
            i <= entries@.len(),
            view_sorted(by_number, strings_view(names@)),
            strings_view(names@).to_multiset() == ev.take(i as int).filter(pred).to_multiset(),
        decreases entries@.len() - i,
    {
        let name = &entries[i];
        proof {
            assert(ev.take(i + 1) =~= ev.take(i as int).push(name@));
            ev.take(i as int).lemma_filter_push(name@, pred);
        }
        if is_image_file_name(name.as_str()) {
            let ghost s = strings_view(names@);
            let mut p: usize = 0;
            while p < names.len()
                invariant
                    s == strings_view(names@),
                    p <= names@.len(),
                    forall|k: int| 0 <= k < p ==> !view_before(by_number, name@, #[trigger] s[k]),
                ensures
                    p <= names@.len(),
                    forall|k: int| 0 <= k < p ==> !view_before(by_number, name@, #[trigger] s[k]),
                    p == names@.len() || view_before(by_number, name@, s[p as int]),
                decreases names@.len() - p,
            {
                if view_before_exec(by_number, name.as_str(), names[p].as_str()) {
                    break;
                }
                p = p + 1;
            }
            let ghost x = name@;
            names.insert(p, name.clone());
            proof {
                let t = strings_view(names@);
                assert(t =~= s.insert(p as int, x));
                vstd::seq_lib::to_multiset_insert(s, p as int, x);
                assert forall|a: int, b: int| 0 <= a < b < t.len() implies !view_before(
                    by_number,
                    #[trigger] t[b],
                    #[trigger] t[a],
                ) by {
                    if b < p {
                    } else if a > p {
                        assert(t[a] == s[a - 1]);
                        assert(t[b] == s[b - 1]);
                    } else if b == p {
                        assert(t[a] == s[a]);
                    } else if a == p {
                        assert(t[b] == s[b - 1]);
                        let m = b - 1;
                        // s[p] follows x and s[m] does not come before s[p].
                        assert(view_before(by_number, x, s[p as int]));
                        if m == p {
                            lemma_view_before_asym(by_number, x, s[m]);
                        } else {
                            assert(!view_before(by_number, s[m], s[p as int]));
                            lemma_view_before_total(by_number, s[m], s[p as int]);
                            if s[m] != s[p as int] {
                                lemma_view_before_trans(by_number, x, s[p as int], s[m]);
                            }
                            lemma_view_before_asym(by_number, x, s[m]);
                        }
                    } else {
                        assert(t[a] == s[a]);
                        assert(t[b] == s[b - 1]);
                    }
                }
            }
        }
        i = i + 1;
    }
    assert(ev.take(entries@.len() as int) =~= ev);
    let ghost names_v = strings_view(names@);
    let mut paths: Vec<String> = Vec::new();
    let mut k: usize = 0;
    while k < names.len()
        invariant
            names_v == strings_view(names@),
            k <= names@.len(),
            paths@.len() == k,
            forall|j: int| 0 <= j < k ==> paths@[j]@ == path_join(folder@, names_v[j]),
        decreases names@.len() - k,
    {
        paths.push(join(folder, names[k].as_str()));
        k = k + 1;
    }
    assert(strings_view(paths@) =~= image_paths(folder@, names_v));
    (paths, Ghost(names_v))
}

/// The local time of day, in seconds after midnight, at `unix_secs` seconds
/// since the epoch where local time is `utc_offset` seconds ahead of UTC.
pub open spec fn local_seconds_of_day(unix_secs: u64, utc_offset: i64) -> int {
    (unix_secs as int + utc_offset as int) % 86400
}

/// The local time of day, in seconds after midnight, at `unix_secs` seconds
/// since the epoch, local time being `utc_offset` seconds ahead of UTC.
pub fn seconds_of_day(unix_secs: u64, utc_offset: i64) -> (r: u64)
    ensures
        r == local_seconds_of_day(unix_secs, utc_offset),
{
    let day: u64 = unix_secs % 86400;
    let off: u64 = if utc_offset >= 0 {
        (utc_offset as u64) % 86400
    } else {
        let back: u64 = ((0i128 - utc_offset as i128) as u64) % 86400;
        if back == 0 {
            0
        } else {
            86400 - back
        }
    };
    proof {
        let o = utc_offset as int;
        assert(off as int == o % 86400) by {
            if o >= 0 {
            } else {
                let b = (-o) % 86400;
                assert(b == (-o) % 86400);
                if b == 0 {
                    assert(o % 86400 == 0) by (nonlinear_arith)
                        requires
                            (-o) % 86400 == 0,
                    ;
                } else {
                    assert(o % 86400 == 86400 - b) by (nonlinear_arith)
                        requires
                            b == (-o) % 86400,
                            b != 0,
                    ;
                }
            }
        }
        vstd::arithmetic::div_mod::lemma_add_mod_noop(unix_secs as int, o, 86400);
    }
    (day + off) % 86400
}

/// The local time of day now, in seconds after midnight, local time being
/// `utc_offset` seconds ahead of UTC. It depends on the clock; what holds of
/// every reading is that it is such a time of day for some moment.
pub fn seconds_since_midnight(utc_offset: i64) -> (r: u64)
    ensures
        r < 86400,
        exists|t: u64| call_ensures(unix_time_secs, (), t) && r == local_seconds_of_day(t, utc_offset),
{
    let clock = unix_time_secs;
    let t = clock();
    seconds_of_day(t, utc_offset)
}


pub open spec fn lit_time() -> Seq<char> {
    seq!['t', 'i', 'm', 'e']
}

pub open spec fn lit_interval() -> Seq<char> {
    seq!['i', 'n', 't', 'e', 'r', 'v', 'a', 'l']
}

/// Which view a profile asks for, with the seconds between images of an
/// `interval` view.
#[derive(Clone, Copy, Debug, PartialEq, Eq, Structural)]
pub enum ViewKind {
    Time,
    Interval(u64),
    Static,
}

/// The view that the `view` setting names: `time`, `interval` (every
/// `interval` seconds, 60 when unset), and `static` for anything else.
pub open spec fn view_kind_spec(view: Seq<char>, interval: Option<u64>) -> ViewKind {
    if view == lit_time() {
        ViewKind::Time
    } else if view == lit_interval() {
        ViewKind::Interval(
            match interval {
                Some(s) => s,
                None => 60,
            },
        )
    } else {
        ViewKind::Static
    }
}

/// Which view the profile `config` asks for.
pub fn view_kind(config: &Config) -> (r: ViewKind)
    ensures
        r == view_kind_spec(config.view@, config.interval),
{
    proof {
        reveal_strlit("time");
        reveal_strlit("interval");
        assert("time"@ =~= lit_time());
        assert("interval"@ =~= lit_interval());
    }
    if str_eq(config.view.as_str(), "time") {
        ViewKind::Time
    } else if str_eq(config.view.as_str(), "interval") {
        ViewKind::Interval(
            match config.interval {
                Some(s) => s,
                None => 60,
            },
        )
    } else {
        ViewKind::Static
    }
}

/// A view of any kind.
pub enum AnyView {
    Static(StaticView),
    Interval(IntervalView),
    Time(TimeView),
}

impl View for AnyView {
    fn initial(&self) -> (r: String)
        ensures
            match self {
                AnyView::Static(v) => r@ == v.path@,
                AnyView::Interval(v) => r@ == v.images_spec()[0],
                AnyView::Time(v) => r@ == v.images_spec()[v.start_spec()],
            },
    {
        match self {
            AnyView::Static(v) => v.initial(),
            AnyView::Interval(v) => v.initial(),
            AnyView::Time(v) => v.initial(),
        }
    }
}

/// The view that the profile `config` asks for, over `entries`, the file
/// names of the folder at its `path` (not read for a static view), local
/// time being `utc_offset` seconds ahead of UTC; `None` when a folder view
/// finds no image there.
pub fn build(config: &Config, entries: &Vec<String>, utc_offset: i64) -> (r: Option<AnyView>)
    ensures
        match view_kind_spec(config.view@, config.interval) {
            ViewKind::Static => r matches Some(AnyView::Static(v)) && v.path@ == config.path@,
            ViewKind::Interval(secs) => {
                &&& (r is None <==> image_entries(strings_view(entries@)).len() == 0)
                &&& r is None || (r matches Some(AnyView::Interval(v)) && {
                    &&& names_sorted(v.names_spec())
                    &&& v.names_spec().to_multiset() == image_entries(
                        strings_view(entries@),
                    ).to_multiset()
                    &&& v.images_spec() == image_paths(config.path@, v.names_spec())
                    &&& v.interval_spec() == secs
                })
            },
            ViewKind::Time => {
                &&& (r is None <==> image_entries(strings_view(entries@)).len() == 0)
                &&& r is None || (r matches Some(AnyView::Time(v)) && {
                    &&& images_sorted(v.names_spec())
                    &&& v.names_spec().to_multiset() == image_entries(
                        strings_view(entries@),
                    ).to_multiset()
                    &&& v.images_spec() == image_paths(config.path@, v.names_spec())
                    &&& v.interval_spec() == time_view::slot_secs(v.images_spec().len())
                    &&& exists|t: u64|
                        v.start_spec() == time_view::index_at(
                            v.images_spec().len(),
                            v.interval_spec(),
                            local_seconds_of_day(t, utc_offset) as u64,
                        )
                    &&& exists|t: u64|
                        call_ensures(unix_time_secs, (), t) && v.start_spec()
                            == time_view::index_at(
                            v.images_spec().len(),
                            v.interval_spec(),
                            local_seconds_of_day(t, utc_offset) as u64,
                        )
                })
            },
        },
{
    match view_kind(config) {
        ViewKind::Time => match TimeView::new(config.path.as_str(), entries, utc_offset) {
            Some(v) => Some(AnyView::Time(v)),
            None => None,
        },
        ViewKind::Interval(secs) => match IntervalView::new(config.path.as_str(), entries, secs) {
            Some(v) => Some(AnyView::Interval(v)),
            None => None,
        },
        ViewKind::Static => Some(AnyView::Static(StaticView { path: config.path.clone() })),
    }
}


/// The order of a folder's images is determined: two orderings of the same
/// names that both respect a view's order are the same sequence.
pub proof fn lemma_image_order_unique(by_number: bool, a: Seq<Seq<char>>, b: Seq<Seq<char>>)
    requires
        view_sorted(by_number, a),
        view_sorted(by_number, b),
        a.to_multiset() == b.to_multiset(),
    ensures
        a == b,
    decreases a.len(),
{
    a.to_multiset_ensures();
    b.to_multiset_ensures();
    if a.len() == 0 {
        assert(b.len() == 0);
        assert(a =~= b);
    } else {
        assert(b.len() == a.len());
        assert(a.contains(a[0]));
        assert(a.to_multiset().count(a[0]) > 0);
        assert(b.to_multiset().count(a[0]) > 0);
        assert(b.contains(a[0]));
        assert(b.contains(b[0]));
        assert(b.to_multiset().count(b[0]) > 0);
        assert(a.to_multiset().count(b[0]) > 0);
        assert(a.contains(b[0]));
        let j = choose|j: int| 0 <= j < b.len() && b[j] == a[0];
        let k = choose|k: int| 0 <= k < a.len() && a[k] == b[0];
        if a[0] != b[0] {
            assert(j > 0);
            assert(k > 0);
            assert(!view_before(by_number, b[j], b[0]));
            assert(!view_before(by_number, a[k], a[0]));
            lemma_view_before_total(by_number, a[0], b[0]);
        }
        vstd::seq_lib::to_multiset_remove(a, 0);
        vstd::seq_lib::to_multiset_remove(b, 0);
        assert(a.remove(0) =~= a.drop_first());
        assert(b.remove(0) =~= b.drop_first());
        let a1 = a.drop_first();
        let b1 = b.drop_first();
        assert(view_sorted(by_number, a1)) by {
            assert forall|x: int, y: int| 0 <= x < y < a1.len() implies !view_before(
                by_number,
                #[trigger] a1[y],
                #[trigger] a1[x],
            ) by {
                assert(a1[y] == a[y + 1] && a1[x] == a[x + 1]);
            }
        }
        assert(view_sorted(by_number, b1)) by {
            assert forall|x: int, y: int| 0 <= x < y < b1.len() implies !view_before(
                by_number,
                #[trigger] b1[y],
                #[trigger] b1[x],
            ) by {
                assert(b1[y] == b[y + 1] && b1[x] == b[x + 1]);
            }
        }
        lemma_image_order_unique(by_number, a1, b1);
        assert(a =~= b) by {
            assert forall|i: int| 0 <= i < a.len() implies a[i] == b[i] by {
                if i > 0 {
                    assert(a[i] == a1[i - 1]);
                    assert(b[i] == b1[i - 1]);
                }
            }
        }
    }
}

} // verus!
