//! The view that cycles through the images of a folder at a fixed rate.
use super::{collect_images, image_entries, image_paths, names_sorted};
use crate::socket::strings_view;
use vstd::prelude::*;

verus! {

/// Cycles through the images of a folder, one every `interval_secs` seconds.
pub struct IntervalView {
    images: Vec<String>,
    interval_secs: u64,
    names: Ghost<Seq<Seq<char>>>,
}

impl IntervalView {
    #[verifier::type_invariant]
    spec fn wf(self) -> bool {
        self.images@.len() > 0
    }

    /// The paths of the images, in the order they are shown.
    pub closed spec fn images_spec(self) -> Seq<Seq<char>> {
        strings_view(self.images@)
    }

    /// The file names of the images, in the order they are shown.
    pub closed spec fn names_spec(self) -> Seq<Seq<char>> {
        self.names@
    }

    pub closed spec fn interval_spec(self) -> u64 {
        self.interval_secs
    }

    /// The view of the folder `folder`, whose file names are `entries`, that
    /// shows a new image every `interval_secs` seconds, the images in the
    /// order of their file names; `None` when the folder holds no image.
    pub fn new(folder: &str, entries: &Vec<String>, interval_secs: u64) -> (r: Option<Self>)
        ensures
            r is None <==> image_entries(strings_view(entries@)).len() == 0,
            r matches Some(v) ==> {
                &&& names_sorted(v.names_spec())
                &&& v.names_spec().to_multiset() == image_entries(
                    strings_view(entries@),
                ).to_multiset()
                &&& v.images_spec() == image_paths(folder@, v.names_spec())
                &&& v.interval_spec() == interval_secs
            },
    {
        broadcast use vstd::seq_lib::group_to_multiset_ensures;

        let (images, names) = collect_images(folder, entries, false);
        proof {
            assert(strings_view(images@).len() == names@.len());
            names@.to_multiset_ensures();
            image_entries(strings_view(entries@)).to_multiset_ensures();
        }
        if images.len() == 0 {
            proof {
                assert(strings_view(images@).len() == names@.len());
                names@.to_multiset_ensures();
                image_entries(strings_view(entries@)).to_multiset_ensures();
            }
            return None;
        }
        Some(IntervalView { images, interval_secs, names })
    }

    /// How many images the view cycles through.
    pub fn len(&self) -> (r: usize)
        ensures
            r == self.images_spec().len(),
            r > 0,
    {
        proof {
            use_type_invariant(self);
        }
        self.images.len()
    }

    /// The path of the `i`-th image.
    pub fn image(&self, i: usize) -> (r: String)
        requires
            i < self.images_spec().len(),
        ensures
            r@ == self.images_spec()[i as int],
    {
        self.images[i].clone()
    }

    /// Seconds between two images.
    pub fn interval_secs(&self) -> (r: u64)
        ensures
            r == self.interval_spec(),
    {
        self.interval_secs
    }

    /// The image shown after the first interval.
    pub fn first_index(&self) -> (r: usize)
        ensures
            r == 1int % (self.images_spec().len() as int),
    {
        proof {
            use_type_invariant(self);
        }
        1 % self.images.len()
    }

    /// The image shown after the `i`-th.
    pub fn next_index(&self, i: usize) -> (r: usize)
        requires
            i < self.images_spec().len(),
        ensures
            r == (i + 1) % (self.images_spec().len() as int),
    {
        proof {
            use_type_invariant(self);
        }
        let n = self.images.len();
        (i + 1) % n
    }
}

impl super::View for IntervalView {
    /// The first image.
    fn initial(&self) -> (r: String)
        ensures
            r@ == self.images_spec()[0],
    {
        proof {
            use_type_invariant(self);
        }
        self.images[0].clone()
    }
}


/// The index of the image shown after `k` intervals: the first image at the
/// start, then the next one each time.
pub open spec fn after_steps(len: nat, k: nat) -> int
    decreases k,
{
    if k == 0 {
        0
    } else {
        (after_steps(len, (k - 1) as nat) + 1) % (len as int)
    }
}

/// An interval view shows its images in turn, the `k`-th interval showing
/// image `k mod len`, so each image once per round.
pub proof fn lemma_interval_cycle(len: nat, k: nat)
    requires
        len > 0,
    ensures
        after_steps(len, k) == (k as int) % (len as int),
    decreases k,
{
    if k > 0 {
        lemma_interval_cycle(len, (k - 1) as nat);
        let a = (k - 1) as int;
        let n = len as int;
        vstd::arithmetic::div_mod::lemma_add_mod_noop(a, 1, n);
        if n > 1 {
            vstd::arithmetic::div_mod::lemma_small_mod(1, n as nat);
        } else {
            assert(a % n == 0);
            assert((a + 1) % n == 0);
            assert(1int % n == 0);
        }
        assert((a % n + 1) % n == (a + 1) % n);
        assert(a + 1 == k as int);
    } else {
        vstd::arithmetic::div_mod::lemma_small_mod(0, len);
    }
}

} // verus!
