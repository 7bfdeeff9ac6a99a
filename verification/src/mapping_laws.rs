//! Laws that tie locations to the pages of a plan.

use crate::cfi_laws::lemma_offset_cfi_round_trip;
use crate::cfi::{cfi_of, cfi_text, offset_of};
use crate::layout::{
    lemma_page_at, lemma_pages_upto_len, page_counts, pages_before, pages_upto, plan_of,
    LayoutOptions, LayoutPlanView, PageRef,
};
use crate::mapping::{offset_cfi, page_holds, page_index_of, page_showing};
use vstd::prelude::*;

verus! {

/// The first page that shows an offset is `p` where `p` shows it and no
/// page before `p` does.
pub proof fn lemma_page_showing_at(
    pages: Seq<PageRef>,
    fixed: bool,
    spine: int,
    offset: int,
    from: int,
    p: int,
)
    requires
        0 <= from <= p < pages.len(),
        page_holds(pages[p], fixed, spine, offset),
        forall|j: int| from <= j < p ==> !page_holds(#[trigger] pages[j], fixed, spine, offset),
    ensures
        page_showing(pages, fixed, spine, offset, from) == p,
    decreases p - from,
{
    if from < p {
        lemma_page_showing_at(pages, fixed, spine, offset, from + 1, p);
    }
}

/// In a plan made from lengths, the location of an offset that page `p`
/// covers maps back to page `p`. The spine index and the offset must be
/// below 2^31, the range of a location's numbers.
pub proof fn lemma_offset_maps_to_its_page(
    lens: Seq<usize>,
    opts: LayoutOptions,
    fixed: bool,
    direction: Option<Seq<char>>,
    p: int,
    offset: int,
)
    requires
        lens.len() <= usize::MAX,
        0 <= p < plan_of(lens, opts, fixed, direction).pages.len(),
        plan_of(lens, opts, fixed, direction).pages[p].start_char <= offset < plan_of(
            lens,
            opts,
            fixed,
            direction,
        ).pages[p].end_char,
        plan_of(lens, opts, fixed, direction).pages[p].spine_index <= i32::MAX,
        offset <= i32::MAX,
    ensures
        page_index_of(
            plan_of(lens, opts, fixed, direction),
            cfi_text(
                offset_cfi(
                    plan_of(lens, opts, fixed, direction).pages[p].spine_index as int,
                    offset,
                ),
            ),
        ) == Some(p as usize),
{
    let plan = plan_of(lens, opts, fixed, direction);
    let pages = plan.pages;
    let spine = pages[p].spine_index as int;
    lemma_offset_cfi_round_trip(spine, offset);
    let c = offset_cfi(spine, offset);
    assert(offset_of(c) == Some((spine, offset)));
    lemma_pages_upto_len(lens, lens.len() as int);
    lemma_page_at(lens, lens.len() as int, p);
    assert forall|j: int| 0 <= j < p implies !page_holds(
        #[trigger] pages[j],
        fixed,
        spine,
        offset,
    ) by {
        lemma_page_at(lens, lens.len() as int, j);
    }
    lemma_page_showing_at(pages, fixed, spine, offset, 0, p);
}

} // verus!
