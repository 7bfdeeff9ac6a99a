//! Locations engine: evenly spaced checkpoints through the text of a book,
//! as a stable scale of reading progress.

use crate::docs::EpubDoc;
use crate::layout::{section_lengths, section_lens};
use vstd::prelude::*;

verus! {

/// Default distance between checkpoints, in characters.
pub const DEFAULT_CHARS_PER_LOCATION: usize = 1200;

/// A checkpoint: a character offset of a spine item, with the length of the
/// item's text. Progress through the item is `char_offset / section_len`.
#[derive(Debug, Clone, Copy, PartialEq, Eq)]
pub struct LocationPoint {
    pub spine_index: usize,
    pub char_offset: usize,
    pub section_len: usize,
}

/// The checkpoints of a book.
#[derive(Debug)]
pub struct LocationsResult {
    pub total: usize,
    pub by_spine: Vec<usize>,
    pub locations: Vec<LocationPoint>,
}

/// The mathematical model of `Locations`.
pub struct LocationsView {
    pub total: usize,
    pub by_spine: Seq<usize>,
    pub locations: Seq<LocationPoint>,
}

impl View for LocationsResult {
    type V = LocationsView;

    open spec fn view(&self) -> LocationsView {
        LocationsView { total: self.total, by_spine: self.by_spine@, locations: self.locations@ }
    }
}

/// Number of checkpoints in a text of `len` characters: one for every full
/// `step` characters; none where `step` is 0.
pub open spec fn checkpoints_in(len: usize, step: usize) -> int {
    if step == 0 {
        0
    } else {
        len as int / step as int
    }
}

/// The checkpoints of spine item `spine_index`: at the offsets `step`,
/// `2 * step`, ... up to the length of its text.
pub open spec fn item_points(spine_index: int, len: usize, step: usize) -> Seq<LocationPoint> {
    Seq::new(
        checkpoints_in(len, step) as nat,
        |k: int|
            LocationPoint {
                spine_index: spine_index as usize,
                char_offset: ((k + 1) * step) as usize,
                section_len: len,
            },
    )
}

/// The checkpoints of the first `n` spine items, in spine order.
pub open spec fn points_upto(lens: Seq<usize>, step: usize, n: int) -> Seq<LocationPoint>
    decreases n,
{
    if n <= 0 || n > lens.len() {
        Seq::empty()
    } else {
        points_upto(lens, step, n - 1) + item_points(n - 1, lens[n - 1], step)
    }
}

/// The checkpoints of spine items of the given stripped lengths.
pub open spec fn locations_of(lens: Seq<usize>, step: usize) -> LocationsView {
    LocationsView {
        total: points_upto(lens, step, lens.len() as int).len() as usize,
        by_spine: Seq::new(lens.len(), |i: int| checkpoints_in(lens[i], step) as usize),
        locations: points_upto(lens, step, lens.len() as int),
    }
}

/// Computes the checkpoints of spine items of the given stripped lengths,
/// one every `chars_per_location` characters within each item.
pub fn locations_from_lengths(lens: &Vec<usize>, chars_per_location: usize) -> (r: LocationsResult)
    ensures
        r@ == locations_of(lens@, chars_per_location),
{
    let step = chars_per_location;
    let mut by_spine: Vec<usize> = Vec::new();
    let mut locations: Vec<LocationPoint> = Vec::new();
    let mut i: usize = 0;
    while i < lens.len()
        invariant
            i <= lens.len(),
            step == chars_per_location,
            by_spine@.len() == i,
            forall|k: int| 0 <= k < i ==> by_spine@[k] == checkpoints_in(lens@[k], step) as usize,
            locations@ == points_upto(lens@, step, i as int),
        decreases lens.len() - i,
    {
        let len = lens[i];
        let mut count: usize = 0;
        if step > 0 {
            let ghost before = locations@;
            let mut offset: usize = 0;
            assert(before + item_points(i as int, len, step).take(0) =~= before);
            while len - offset >= step
                invariant
                    step > 0,
                    offset <= len,
                    offset == count * step,
                    count <= checkpoints_in(len, step),
                    locations@ == before + item_points(i as int, len, step).take(count as int),
                decreases len - offset,
            {
                assert((count + 1) * step == offset + step) by (nonlinear_arith)
                    requires
                        offset == count * step,
                ;
                assert(count + 1 <= len as int / step as int) by (nonlinear_arith)
                    requires
                        (count + 1) * step <= len,
                        step > 0,
                ;
                offset += step;
                let p = LocationPoint { spine_index: i, char_offset: offset, section_len: len };
                assert(item_points(i as int, len, step)[count as int] == p);
                locations.push(p);
                assert(item_points(i as int, len, step).take(count as int).push(p)
                    =~= item_points(i as int, len, step).take(count + 1));
                assert(locations@ =~= before + item_points(i as int, len, step).take(count + 1));
                count += 1;
            }
            assert(count == checkpoints_in(len, step)) by (nonlinear_arith)
                requires
                    offset == count * step,
                    len - offset < step,
                    offset <= len,
                    step > 0,
                    checkpoints_in(len, step) == len as int / step as int,
            ;
            assert(item_points(i as int, len, step).take(count as int) =~= item_points(
                i as int,
                len,
                step,
            ));
        } else {
            assert(locations@ + item_points(i as int, len, step) =~= locations@);
        }
        by_spine.push(count);
        i += 1;
    }
    assert(by_spine@ =~= locations_of(lens@, step).by_spine);
    LocationsResult { total: locations.len(), by_spine, locations }
}

/// Computes the checkpoints of a book: within every spine item that is
/// HTML, one every `chars_per_location` characters of its stripped text.
pub fn compute_locations(doc: &EpubDoc, chars_per_location: usize) -> (r: LocationsResult)
    ensures
        r@ == locations_of(section_lens(doc@), chars_per_location),
{
    let lens = section_lengths(doc);
    locations_from_lengths(&lens, chars_per_location)
}

/// The number of checkpoints is the sum of the counts of the spine items.
pub proof fn lemma_locations_total(lens: Seq<usize>, step: usize, n: int)
    requires
        0 <= n <= lens.len(),
    ensures
        points_upto(lens, step, n).len() == count_sum(lens, step, n),
    decreases n,
{
    if n > 0 {
        lemma_locations_total(lens, step, n - 1);
    }
}

/// Sum of the checkpoint counts of the first `n` spine items.
pub open spec fn count_sum(lens: Seq<usize>, step: usize, n: int) -> int
    decreases n,
{
    if n <= 0 || n > lens.len() {
        0
    } else {
        count_sum(lens, step, n - 1) + checkpoints_in(lens[n - 1], step)
    }
}

} // verus!
