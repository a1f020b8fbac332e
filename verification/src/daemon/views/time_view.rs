//! The view that picks an image by the time of day, dividing the day evenly
//! among the images of a folder.
use super::{
    collect_images, image_entries, image_paths, images_sorted, local_seconds_of_day,
    seconds_since_midnight,
};
use crate::fsys::unix_time_secs;
use crate::socket::strings_view;
use vstd::prelude::*;

verus! {

/// The seconds that each of `count` images is shown for in a day.
pub open spec fn slot_secs(count: nat) -> u64 {
    if count == 0 || 86400nat / count < 1 {
        1
    } else {
        (86400nat / count) as u64
    }
}

/// The image shown `ssm` seconds after midnight: the slot that `ssm` falls
/// in, the last image keeping the seconds that remain after the last slot.
pub open spec fn index_at(count: nat, interval: u64, ssm: u64) -> int {
    let slot = (ssm / interval) as int;
    if slot < count - 1 {
        slot
    } else {
        count - 1
    }
}

/// Shows, at each moment of the day, the image whose share of the day it is.
pub struct TimeView {
    images: Vec<String>,
    start_index: usize,
    interval_secs: u64,
    names: Ghost<Seq<Seq<char>>>,
}

impl TimeView {
    #[verifier::type_invariant]
    spec fn wf(self) -> bool {
        &&& self.images@.len() > 0
        &&& self.start_index < self.images@.len()
        &&& self.interval_secs == slot_secs(self.images@.len())
    }

    /// The paths of the images, in the order of the day.
    pub closed spec fn images_spec(self) -> Seq<Seq<char>> {
        strings_view(self.images@)
    }

    /// The file names of the images, in the order of the day.
    pub closed spec fn names_spec(self) -> Seq<Seq<char>> {
        self.names@
    }

    pub closed spec fn interval_spec(self) -> u64 {
        self.interval_secs
    }

    pub closed spec fn start_spec(self) -> int {
        self.start_index as int
    }

    /// The view of the folder `folder`, whose file names are `entries`, at
    /// `ssm` seconds after midnight; `None` when the folder holds no image.
    pub fn at_time(folder: &str, entries: &Vec<String>, ssm: u64) -> (r: Option<Self>)
        requires
            ssm < 86400,
        ensures
            r is None <==> image_entries(strings_view(entries@)).len() == 0,
            r matches Some(v) ==> {
                &&& images_sorted(v.names_spec())
                &&& v.names_spec().to_multiset() == image_entries(
                    strings_view(entries@),
                ).to_multiset()
                &&& v.images_spec() == image_paths(folder@, v.names_spec())
                &&& v.interval_spec() == slot_secs(v.images_spec().len())
                &&& v.start_spec() == index_at(v.images_spec().len(), v.interval_spec(), ssm)
            },
    {
        broadcast use vstd::seq_lib::group_to_multiset_ensures;

        let (images, names) = collect_images(folder, entries, true);
        proof {
            assert(strings_view(images@).len() == names@.len());
            names@.to_multiset_ensures();
            image_entries(strings_view(entries@)).to_multiset_ensures();
        }
        let count = images.len();
        if count == 0 {
            proof {
                assert(strings_view(images@).len() == names@.len());
                names@.to_multiset_ensures();
                image_entries(strings_view(entries@)).to_multiset_ensures();
            }
            return None;
        }
        let c64 = count as u64;
        let q = 86400 / c64;
        let interval_secs = if q < 1 {
            1
        } else {
            q
        };
        let slot = ssm / interval_secs;
        let start_index = if slot < c64 - 1 {
            slot as usize
        } else {
            count - 1
        };
        Some(TimeView { images, start_index, interval_secs, names })
    }

    /// The view of the folder `folder`, whose file names are `entries`, now,
    /// local time being `utc_offset` seconds ahead of UTC; `None` when the
    /// folder holds no image.
    pub fn new(folder: &str, entries: &Vec<String>, utc_offset: i64) -> (r: Option<Self>)
        ensures
            r is None <==> image_entries(strings_view(entries@)).len() == 0,
            r matches Some(v) ==> {
                &&& images_sorted(v.names_spec())
                &&& v.names_spec().to_multiset() == image_entries(
                    strings_view(entries@),
                ).to_multiset()
                &&& v.images_spec() == image_paths(folder@, v.names_spec())
                &&& v.interval_spec() == slot_secs(v.images_spec().len())
                &&& exists|t: u64|
                    v.start_spec() == index_at(
                        v.images_spec().len(),
                        v.interval_spec(),
                        local_seconds_of_day(t, utc_offset) as u64,
                    )
                &&& exists|t: u64|
                    call_ensures(unix_time_secs, (), t) && v.start_spec() == index_at(
                        v.images_spec().len(),
                        v.interval_spec(),
                        local_seconds_of_day(t, utc_offset) as u64,
                    )
            },
    {
        let ssm = seconds_since_midnight(utc_offset);
        Self::at_time(folder, entries, ssm)
    }

    /// How many images share the day.
    pub fn len(&self) -> (r: usize)
        ensures
            r == self.images_spec().len(),
            r > 0,
    {
        proof {
            use_type_invariant(self);
        }
        self.images.len()
    }

    /// The path of the `i`-th image.
    pub fn image(&self, i: usize) -> (r: String)
        requires
            i < self.images_spec().len(),
        ensures
            r@ == self.images_spec()[i as int],
    {
        self.images[i].clone()
    }

    /// Seconds that each image is shown for.
    pub fn interval_secs(&self) -> (r: u64)
        ensures
            r == self.interval_spec(),
            r >= 1,
    {
        proof {
            use_type_invariant(self);
        }
        self.interval_secs
    }

    /// The image shown `ssm` seconds after midnight.
    pub fn index_at(&self, ssm: u64) -> (r: usize)
        requires
            ssm < 86400,
        ensures
            r == index_at(self.images_spec().len(), self.interval_spec(), ssm),
            r < self.images_spec().len(),
    {
        proof {
            use_type_invariant(self);
        }
        let slot = ssm / self.interval_secs;
        let last = self.images.len() - 1;
        if slot < last as u64 {
            slot as usize
        } else {
            last
        }
    }

    /// The image shown now, local time being `utc_offset` seconds ahead of
    /// UTC.
    pub fn current_index(&self, utc_offset: i64) -> (r: usize)
        ensures
            r < self.images_spec().len(),
            exists|t: u64|
                r == index_at(
                    self.images_spec().len(),
                    self.interval_spec(),
                    local_seconds_of_day(t, utc_offset) as u64,
                ),
            exists|t: u64|
                call_ensures(unix_time_secs, (), t) && r == index_at(
                    self.images_spec().len(),
                    self.interval_spec(),
                    local_seconds_of_day(t, utc_offset) as u64,
                ),
    {
        let ssm = seconds_since_midnight(utc_offset);
        self.index_at(ssm)
    }

    /// Seconds from `ssm` seconds after midnight until the next image is due:
    /// the end of the current slot, or midnight while the last image shows.
    pub fn secs_until_switch(&self, ssm: u64) -> (r: u64)
        ensures
            r == if ssm < 86400 && index_at(self.images_spec().len(), self.interval_spec(), ssm)
                == self.images_spec().len() - 1 {
                86400 - ssm
            } else {
                self.interval_spec() - ssm % self.interval_spec()
            },
            r >= 1,
    {
        proof {
            use_type_invariant(self);
        }
        if ssm < 86400 && self.index_at(ssm) == self.images.len() - 1 {
            86400 - ssm
        } else {
            self.interval_secs - ssm % self.interval_secs
        }
    }
}

impl super::View for TimeView {
    /// The image whose share of the day the view was made in.
    fn initial(&self) -> (r: String)
        ensures
            r@ == self.images_spec()[self.start_spec()],
    {
        proof {
            use_type_invariant(self);
        }
        self.images[self.start_index].clone()
    }
}


/// The day is divided evenly: with at most one image per second, image `i`
/// is shown for the `slot_secs` seconds that start `i * slot_secs` seconds
/// after midnight, and all of these fall within the day.
pub proof fn lemma_time_slots(count: nat, i: nat, ssm: u64)
    requires
        0 < count <= 86400,
        i < count,
        i * slot_secs(count) <= ssm < (i + 1) * slot_secs(count),
    ensures
        ssm < 86400,
        index_at(count, slot_secs(count), ssm) == i,
{
    let s = slot_secs(count) as int;
    assert(86400int / (count as int) >= 1) by (nonlinear_arith)
        requires
            0 < count <= 86400,
    ;
    assert(s == 86400int / (count as int));
    assert(count * s <= 86400) by (nonlinear_arith)
        requires
            s == 86400int / (count as int),
            count > 0,
    ;
    assert((i + 1) * s <= count * s) by (nonlinear_arith)
        requires
            i < count,
            s >= 1,
    ;
    assert(ssm as int / s == i) by (nonlinear_arith)
        requires
            i * s <= ssm < (i + 1) * s,
            s >= 1,
    ;
    assert((i as int) % (count as int) == i) by (nonlinear_arith)
        requires
            0 <= i < count,
    ;
}

/// The day ends on the last image: from the start of the last slot until
/// midnight, the seconds that the even division leaves over included, the
/// last image is shown.
pub proof fn lemma_last_image_ends_the_day(count: nat, ssm: u64)
    requires
        0 < count,
        (count - 1) * slot_secs(count) <= ssm < 86400,
    ensures
        index_at(count, slot_secs(count), ssm) == count - 1,
{
    let s = slot_secs(count) as int;
    assert(s >= 1);
    assert(ssm as int / s >= count - 1) by (nonlinear_arith)
        requires
            (count - 1) * s <= ssm,
            s >= 1,
            count >= 1,
    ;
}

/// Every image of a time view is shown at some moment of the day.
pub proof fn lemma_every_image_has_its_time(count: nat, i: nat)
    requires
        0 < count <= 86400,
        i < count,
    ensures
        exists|ssm: u64| ssm < 86400 && index_at(count, slot_secs(count), ssm) == i,
{
    let s = slot_secs(count) as int;
    assert(86400int / (count as int) >= 1) by (nonlinear_arith)
        requires
            0 < count <= 86400,
    ;
    assert(i * s < (i + 1) * s) by (nonlinear_arith)
        requires
            s >= 1,
    ;
    assert(count * s <= 86400) by (nonlinear_arith)
        requires
            s == 86400int / (count as int),
            count > 0,
    ;
    assert((i + 1) * s <= count * s) by (nonlinear_arith)
        requires
            i < count,
            s >= 1,
    ;
    assert(0 <= i * s) by (nonlinear_arith)
        requires
            s >= 1,
    ;
    let ssm = (i * s) as u64;
    lemma_time_slots(count, i, ssm);
}

/// The image shown at a time of day is the one whose slot holds that time:
/// its slot starts at or before the time, and, unless it is the last image,
/// the next slot starts after it.
pub proof fn lemma_index_at_slot(count: nat, interval: u64, ssm: u64)
    requires
        count > 0,
        interval >= 1,
    ensures
        0 <= index_at(count, interval, ssm) < count,
        index_at(count, interval, ssm) * interval <= ssm,
        index_at(count, interval, ssm) < count - 1 ==> ssm < (index_at(count, interval, ssm) + 1)
            * interval,
{
    let q = (ssm / interval) as int;
    assert(q * interval <= ssm && ssm < (q + 1) * interval) by (nonlinear_arith)
        requires
            q == ssm as int / interval as int,
            interval >= 1,
    ;
    let i = index_at(count, interval, ssm);
    if q >= count - 1 {
        assert(i * interval <= q * interval) by (nonlinear_arith)
            requires
                i <= q,
                interval >= 1,
        ;
    }
}

} // verus!
