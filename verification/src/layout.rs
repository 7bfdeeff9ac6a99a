//! Layout engine: the spine as a list of page references, and their
//! arrangement in spreads.

use crate::docs::{resource_text_of_id, DocView, EpubDoc};
use crate::text::{
    chars_of, contains_chars, contains_seq, opt_view, str_eq, strip_tag_chars, stripped, views,
};
use vstd::prelude::*;

verus! {

/// How content flows in the viewport.
#[derive(Debug, Clone, Copy, PartialEq, Eq)]
pub enum FlowMode {
    Paginated,
    Scrolled,
}

/// How pages are arranged side by side.
#[derive(Debug, Clone, Copy, PartialEq, Eq)]
pub enum SpreadMode {
    /// Two pages side by side where the viewport is wide enough.
    Auto,
    /// One page at a time (the mode `none`).
    Single,
    /// Two pages side by side.
    Always,
}

/// Viewport and typography that a layout is computed for. Lengths are in
/// whole layout units.
#[derive(Debug, Clone, Copy, PartialEq, Eq)]
pub struct LayoutOptions {
    pub viewport_width: u32,
    pub viewport_height: u32,
    pub flow: FlowMode,
    pub spread: SpreadMode,
    pub avg_char_width: Option<u32>,
    pub line_height: Option<u32>,
    pub column_gap: Option<u32>,
    pub min_spread_width: Option<u32>,
}

impl Default for LayoutOptions {
    fn default() -> (r: Self)
        ensures
            r == (LayoutOptions {
                viewport_width: 1024,
                viewport_height: 768,
                flow: FlowMode::Paginated,
                spread: SpreadMode::Auto,
                avg_char_width: Some(8u32),
                line_height: Some(20u32),
                column_gap: Some(32u32),
                min_spread_width: Some(900u32),
            }),
    {
        LayoutOptions {
            viewport_width: 1024,
            viewport_height: 768,
            flow: FlowMode::Paginated,
            spread: SpreadMode::Auto,
            avg_char_width: Some(8),
            line_height: Some(20),
            column_gap: Some(32),
            min_spread_width: Some(900),
        }
    }
}

/// One page: a span of characters of one spine item.
#[derive(Debug, Clone, Copy, PartialEq, Eq)]
pub struct PageRef {
    pub global_index: usize,
    pub spine_index: usize,
    pub start_char: usize,
    pub end_char: usize,
}

/// One spread: the pages shown on the left and on the right.
#[derive(Debug, Clone, Copy, PartialEq, Eq)]
pub struct SpreadEntry {
    pub left: Option<usize>,
    pub right: Option<usize>,
}

/// The pages of a book and their arrangement.
#[derive(Debug)]
pub struct LayoutPlan {
    pub pages: Vec<PageRef>,
    pub pages_per_spine: Vec<usize>,
    pub total_pages: usize,
    pub spreads: Vec<SpreadEntry>,
    pub spread_mode: SpreadMode,
    pub reading_direction: Option<String>,
    pub is_fixed_layout: bool,
}

/// The mathematical model of `LayoutPlan`.
pub struct LayoutPlanView {
    pub pages: Seq<PageRef>,
    pub pages_per_spine: Seq<usize>,
    pub total_pages: usize,
    pub spreads: Seq<SpreadEntry>,
    pub spread_mode: SpreadMode,
    pub reading_direction: Option<Seq<char>>,
    pub is_fixed_layout: bool,
}

impl View for LayoutPlan {
    type V = LayoutPlanView;

    open spec fn view(&self) -> LayoutPlanView {
        LayoutPlanView {
            pages: self.pages@,
            pages_per_spine: self.pages_per_spine@,
            total_pages: self.total_pages,
            spreads: self.spreads@,
            spread_mode: self.spread_mode,
            reading_direction: opt_view(self.reading_direction),
            is_fixed_layout: self.is_fixed_layout,
        }
    }
}

/// Default of `min_spread_width`.
pub const DEFAULT_MIN_SPREAD_WIDTH: u32 = 900;

/// The spread mode in force: `Auto` becomes `Always` where the viewport is
/// at least `min_spread_width` wide (900 where none is given), else `Single`.
pub open spec fn resolved_mode(opts: LayoutOptions) -> SpreadMode {
    match opts.spread {
        SpreadMode::Single => SpreadMode::Single,
        SpreadMode::Always => SpreadMode::Always,
        SpreadMode::Auto => {
            let min = match opts.min_spread_width {
                Some(m) => m,
                None => DEFAULT_MIN_SPREAD_WIDTH,
            };
            if opts.viewport_width >= min {
                SpreadMode::Always
            } else {
                SpreadMode::Single
            }
        },
    }
}

/// The pages of the first `n` spine items: one page for each item of
/// non-zero length, spanning the whole item.
pub open spec fn pages_upto(lens: Seq<usize>, n: int) -> Seq<PageRef>
    decreases n,
{
    if n <= 0 || n > lens.len() {
        Seq::empty()
    } else if lens[n - 1] > 0 {
        pages_upto(lens, n - 1).push(
            PageRef {
                global_index: pages_upto(lens, n - 1).len() as usize,
                spine_index: (n - 1) as usize,
                start_char: 0,
                end_char: lens[n - 1],
            },
        )
    } else {
        pages_upto(lens, n - 1)
    }
}

/// Number of pages of each spine item: 1 for an item of non-zero length.
pub open spec fn page_counts(lens: Seq<usize>) -> Seq<usize> {
    Seq::new(
        lens.len(),
        |i: int|
            if lens[i] > 0 {
                1usize
            } else {
                0usize
            },
    )
}

/// The spreads of `total` pages. `Always` pairs the pages left then right,
/// with a last spread of one page where `total` is odd; any other mode puts
/// each page alone on the right.
pub open spec fn spreads_of(total: int, mode: SpreadMode) -> Seq<SpreadEntry> {
    if total <= 0 {
        Seq::empty()
    } else if mode == SpreadMode::Always {
        Seq::new(
            ((total + 1) / 2) as nat,
            |k: int|
                SpreadEntry {
                    left: Some((2 * k) as usize),
                    right: if 2 * k + 1 < total {
                        Some((2 * k + 1) as usize)
                    } else {
                        None
                    },
                },
        )
    } else {
        Seq::new(total as nat, |i: int| SpreadEntry { left: None, right: Some(i as usize) })
    }
}

/// The plan for spine items of the given stripped lengths.
pub open spec fn plan_of(
    lens: Seq<usize>,
    opts: LayoutOptions,
    fixed: bool,
    direction: Option<Seq<char>>,
) -> LayoutPlanView {
    let pages = pages_upto(lens, lens.len() as int);
    LayoutPlanView {
        pages,
        pages_per_spine: page_counts(lens),
        total_pages: pages.len() as usize,
        spreads: spreads_of(pages.len() as int, resolved_mode(opts)),
        spread_mode: resolved_mode(opts),
        reading_direction: direction,
        is_fixed_layout: fixed,
    }
}

/// Sum of the first `n` page counts.
pub open spec fn pages_before(counts: Seq<usize>, n: int) -> int
    decreases n,
{
    if n <= 0 {
        0
    } else if n > counts.len() {
        pages_before(counts, counts.len() as int)
    } else {
        pages_before(counts, n - 1) + counts[n - 1]
    }
}

/// The page indices that the first `n` spreads show, left before right.
pub open spec fn spread_pages(spreads: Seq<SpreadEntry>, n: int) -> Seq<usize>
    decreases n,
{
    if n <= 0 || n > spreads.len() {
        Seq::empty()
    } else {
        let prev = spread_pages(spreads, n - 1);
        let with_left = match spreads[n - 1].left {
            Some(l) => prev.push(l),
            None => prev,
        };
        match spreads[n - 1].right {
            Some(r) => with_left.push(r),
            None => with_left,
        }
    }
}

/// A plan whose parts agree: pages are numbered in order, each spans a
/// non-empty range, the pages of a spine item stand together in spine order
/// as the page counts say, and pages of one item do not overlap.
pub open spec fn plan_wf(p: LayoutPlanView) -> bool {
    &&& p.total_pages == p.pages.len()
    &&& pages_before(p.pages_per_spine, p.pages_per_spine.len() as int) == p.pages.len()
    &&& forall|k: int|
        0 <= k < p.pages.len() ==> {
            &&& (#[trigger] p.pages[k]).global_index == k
            &&& p.pages[k].start_char < p.pages[k].end_char
            &&& p.pages[k].spine_index < p.pages_per_spine.len()
            &&& pages_before(p.pages_per_spine, p.pages[k].spine_index as int) <= k
            &&& k < pages_before(p.pages_per_spine, p.pages[k].spine_index + 1)
        }
    &&& forall|j: int, k: int|
        0 <= j < k < p.pages.len() && p.pages[j].spine_index == p.pages[k].spine_index
            ==> p.pages[j].end_char <= p.pages[k].start_char
}

/// Whether the book is pre-paginated: its `rendition:layout` is the value
/// `pre-paginated`, letter for letter.
pub open spec fn is_fixed(d: DocView) -> bool {
    d.rendition_layout == Some("pre-paginated"@)
}

/// Stripped length of spine item `i`: the number of characters of its text
/// outside tags; `0` where the item names no resource, the resource is not
/// readable text, or its media type does not mention `html`.
pub open spec fn section_len(d: DocView, i: int) -> nat {
    if 0 <= i < d.spine.len() {
        match resource_text_of_id(d, d.spine[i].idref) {
            Some(p) => if contains_seq(p.1, "html"@) {
                stripped(p.0).len()
            } else {
                0
            },
            None => 0,
        }
    } else {
        0
    }
}

/// The stripped length of every spine item.
pub open spec fn section_lens(d: DocView) -> Seq<usize> {
    Seq::new(d.spine.len(), |i: int| section_len(d, i) as usize)
}

/// Resolves the requested spread mode against the viewport.
pub fn resolve_spread_mode(opts: &LayoutOptions) -> (r: SpreadMode)
    ensures
        r == resolved_mode(*opts),
{
    match opts.spread {
        SpreadMode::Single => SpreadMode::Single,
        SpreadMode::Always => SpreadMode::Always,
        SpreadMode::Auto => {
            let min = match opts.min_spread_width {
                Some(m) => m,
                None => DEFAULT_MIN_SPREAD_WIDTH,
            };
            if opts.viewport_width >= min {
                SpreadMode::Always
            } else {
                SpreadMode::Single
            }
        },
    }
}

/// Arranges `total` pages in spreads.
pub fn build_spreads(total: usize, mode: SpreadMode) -> (r: Vec<SpreadEntry>)
    ensures
        r@ == spreads_of(total as int, mode),
{
    let mut spreads: Vec<SpreadEntry> = Vec::new();
    match mode {
        SpreadMode::Always => {
            let mut i: usize = 0;
            while i < total
                invariant
                    i % 2 == 0,
                    i <= total + 1,
                    spreads@.len() == i / 2,
                    forall|k: int|
                        0 <= k < spreads@.len() ==> spreads@[k] == spreads_of(
                            total as int,
                            mode,
                        )[k],
                    mode == SpreadMode::Always,
                decreases total + 1 - i,
            {
                let right = if total - i > 1 {
                    Some(i + 1)
                } else {
                    None
                };
                spreads.push(SpreadEntry { left: Some(i), right });
                if total - i <= 1 {
                    assert(spreads@.len() == (total + 1) / 2);
                    assert(spreads@ =~= spreads_of(total as int, mode));
                    return spreads;
                }
                i += 2;
            }
            assert(spreads@ =~= spreads_of(total as int, mode));
        },
        _ => {
            let mut i: usize = 0;
            while i < total
                invariant
                    i <= total,
                    spreads@.len() == i,
                    forall|k: int|
                        0 <= k < i ==> spreads@[k] == (SpreadEntry {
                            left: None,
                            right: Some(k as usize),
                        }),
                decreases total - i,
            {
                spreads.push(SpreadEntry { left: None, right: Some(i) });
                i += 1;
            }
            assert(spreads@ =~= spreads_of(total as int, mode));
        },
    }
    spreads
}

/// There are as many pages as the page counts add up to, and no more than spine items.
pub proof fn lemma_pages_upto_len(lens: Seq<usize>, n: int)
    requires
        0 <= n <= lens.len(),
    ensures
        pages_upto(lens, n).len() <= n,
        pages_upto(lens, n).len() == pages_before(page_counts(lens), n),
    decreases n,
{
    if n > 0 {
        lemma_pages_upto_len(lens, n - 1);
    }
}

/// Builds the plan for spine items of the given stripped lengths: one page
/// for each item of non-zero length, spanning the whole item.
pub fn plan_from_lengths(
    lens: &Vec<usize>,
    opts: &LayoutOptions,
    is_fixed_layout: bool,
    reading_direction: Option<String>,
) -> (plan: LayoutPlan)
    ensures
        plan@ == plan_of(lens@, *opts, is_fixed_layout, opt_view(reading_direction)),
{
    let spread_mode = resolve_spread_mode(opts);
    let mut pages: Vec<PageRef> = Vec::new();
    let mut pages_per_spine: Vec<usize> = Vec::new();
    let mut global_index: usize = 0;
    let mut i: usize = 0;
    while i < lens.len()
        invariant
            i <= lens.len(),
            global_index == pages@.len(),
            global_index <= i,
            pages@ == pages_upto(lens@, i as int),
            pages_per_spine@ == page_counts(lens@).take(i as int),
        decreases lens.len() - i,
    {
        let len = lens[i];
        if len == 0 {
            pages_per_spine.push(0);
        } else {
            pages.push(PageRef { global_index, spine_index: i, start_char: 0, end_char: len });
            global_index += 1;
            pages_per_spine.push(1);
        }
        assert(pages_per_spine@ =~= page_counts(lens@).take(i + 1));
        i += 1;
    }
    assert(page_counts(lens@).take(lens@.len() as int) =~= page_counts(lens@));
    let spreads = build_spreads(global_index, spread_mode);
    LayoutPlan {
        total_pages: global_index,
        pages,
        pages_per_spine,
        spreads,
        spread_mode,
        reading_direction,
        is_fixed_layout,
    }
}

/// Whether the book declares a pre-paginated layout.
pub fn is_fixed_layout(doc: &EpubDoc) -> (r: bool)
    ensures
        r == is_fixed(doc@),
{
    match &doc.rendition_layout {
        Some(l) => str_eq(l.as_str(), "pre-paginated"),
        None => false,
    }
}

/// The stripped length of every spine item.
pub fn section_lengths(doc: &EpubDoc) -> (lens: Vec<usize>)
    ensures
        lens@ == section_lens(doc@),
{
    let html = chars_of("html");
    let mut lens: Vec<usize> = Vec::new();
    let mut i: usize = 0;
    while i < doc.spine.len()
        invariant
            i <= doc.spine.len(),
            html@ == "html"@,
            lens@.len() == i,
            forall|k: int| 0 <= k < i ==> lens@[k] as nat == section_len(doc@, k),
        decreases doc.spine.len() - i,
    {
        assert(doc@.spine[i as int] == doc.spine@[i as int]@);
        let len = match doc.get_resource_str(doc.spine[i].idref.as_str()) {
            Some((content, mime)) => {
                let m = chars_of(mime.as_str());
                if contains_chars(&m, &html) {
                    let c = chars_of(content.as_str());
                    strip_tag_chars(&c).len()
                } else {
                    0
                }
            },
            None => 0,
        };
        lens.push(len);
        i += 1;
    }
    assert(lens@ =~= section_lens(doc@));
    lens
}

/// Computes the layout plan of a book: one page for each spine item whose
/// HTML text is not empty, spanning its whole stripped text, arranged in
/// spreads as the options ask.
pub fn compute_layout(doc: &EpubDoc, opts: &LayoutOptions) -> (plan: LayoutPlan)
    ensures
        plan@ == plan_of(
            section_lens(doc@),
            *opts,
            is_fixed(doc@),
            doc@.page_progression_direction,
        ),
{
    let lens = section_lengths(doc);
    let fixed = is_fixed_layout(doc);
    plan_from_lengths(&lens, opts, fixed, doc.page_progression_direction.clone())
}

/// Every plan made from lengths is well formed.
pub proof fn lemma_plan_wf(
    lens: Seq<usize>,
    opts: LayoutOptions,
    fixed: bool,
    direction: Option<Seq<char>>,
)
    requires
        lens.len() <= usize::MAX,
    ensures
        plan_wf(plan_of(lens, opts, fixed, direction)),
        plan_of(lens, opts, fixed, direction).pages_per_spine.len() == lens.len(),
{
    let p = plan_of(lens, opts, fixed, direction);
    lemma_pages_upto_len(lens, lens.len() as int);
    assert forall|k: int| 0 <= k < p.pages.len() implies {
        &&& (#[trigger] p.pages[k]).global_index == k
        &&& p.pages[k].start_char < p.pages[k].end_char
        &&& p.pages[k].spine_index < p.pages_per_spine.len()
        &&& pages_before(p.pages_per_spine, p.pages[k].spine_index as int) <= k
        &&& k < pages_before(p.pages_per_spine, p.pages[k].spine_index + 1)
    } by {
        lemma_page_at(lens, lens.len() as int, k);
    }
    assert forall|j: int, k: int|
        0 <= j < k < p.pages.len() && p.pages[j].spine_index
            == p.pages[k].spine_index implies p.pages[j].end_char <= p.pages[k].start_char by {
        lemma_page_at(lens, lens.len() as int, j);
        lemma_page_at(lens, lens.len() as int, k);
        lemma_pages_before_mono(
            page_counts(lens),
            p.pages[j].spine_index + 1,
            p.pages[k].spine_index as int,
        );
    }
}

/// The number of pages before a spine item grows with the item.
pub proof fn lemma_pages_before_mono(counts: Seq<usize>, a: int, b: int)
    requires
        0 <= a,
        0 <= b <= counts.len(),
    ensures
        a <= b ==> pages_before(counts, a) <= pages_before(counts, b),
    decreases b,
{
    if a < b {
        lemma_pages_before_mono(counts, a, b - 1);
    }
}

/// Page `k` of the first `n` items is the page of one spine item of
/// non-zero length, numbered `k`, and `k` pages stand before that item.
pub proof fn lemma_page_at(lens: Seq<usize>, n: int, k: int)
    requires
        0 <= n <= lens.len() <= usize::MAX,
        0 <= k < pages_upto(lens, n).len(),
    ensures
        pages_upto(lens, n)[k].global_index == k,
        pages_upto(lens, n)[k].start_char == 0,
        pages_upto(lens, n)[k].end_char > 0,
        pages_upto(lens, n)[k].spine_index < n,
        pages_upto(lens, n)[k].end_char == lens[pages_upto(lens, n)[k].spine_index as int],
        pages_before(page_counts(lens), pages_upto(lens, n)[k].spine_index as int) == k,
        pages_before(page_counts(lens), pages_upto(lens, n)[k].spine_index + 1) == k + 1,
    decreases n,
{
    lemma_pages_upto_len(lens, n);
    if n > 0 {
        lemma_pages_upto_len(lens, n - 1);
        let prev = pages_upto(lens, n - 1);
        if k < prev.len() {
            lemma_page_at(lens, n - 1, k);
            if lens[n - 1] > 0 {
                assert(pages_upto(lens, n)[k] == prev[k]);
            }
        } else {
            assert(lens[n - 1] > 0);
            assert(k == prev.len());
        }
    }
}

/// In total the page counts give the number of pages, one count for each
/// spine item.
pub proof fn lemma_page_count_total(
    lens: Seq<usize>,
    opts: LayoutOptions,
    fixed: bool,
    direction: Option<Seq<char>>,
)
    requires
        lens.len() <= usize::MAX,
    ensures
        ({
            let p = plan_of(lens, opts, fixed, direction);
            &&& p.pages_per_spine.len() == lens.len()
            &&& pages_before(p.pages_per_spine, lens.len() as int) == p.total_pages
            &&& p.total_pages == p.pages.len()
            &&& p.total_pages <= lens.len()
        }),
{
    lemma_pages_upto_len(lens, lens.len() as int);
}

/// Where every spine item has text, the page counts add up to the length of
/// the spine.
pub proof fn lemma_all_sections_counted(
    lens: Seq<usize>,
    opts: LayoutOptions,
    fixed: bool,
    direction: Option<Seq<char>>,
)
    requires
        forall|i: int| 0 <= i < lens.len() ==> lens[i] > 0,
    ensures
        pages_before(
            plan_of(lens, opts, fixed, direction).pages_per_spine,
            lens.len() as int,
        ) == lens.len(),
{
    lemma_all_counted(lens, lens.len() as int);
}

/// Where every spine item has text, as many pages stand before an item as items do.
pub proof fn lemma_all_counted(lens: Seq<usize>, n: int)
    requires
        0 <= n <= lens.len(),
        forall|i: int| 0 <= i < lens.len() ==> lens[i] > 0,
    ensures
        pages_before(page_counts(lens), n) == n,
    decreases n,
{
    if n > 0 {
        lemma_all_counted(lens, n - 1);
    }
}

/// The spreads show every page index from `0` to `total - 1` exactly once,
/// in order.
pub proof fn lemma_spreads_cover(total: int, mode: SpreadMode)
    requires
        0 <= total <= usize::MAX,
    ensures
        spread_pages(spreads_of(total, mode), spreads_of(total, mode).len() as int) == Seq::new(
            total as nat,
            |i: int| i as usize,
        ),
{
    let s = spreads_of(total, mode);
    if total > 0 {
        if mode == SpreadMode::Always {
            lemma_paired_prefix(total, s, s.len() as int);
            assert(spread_pages(s, s.len() as int) =~= Seq::new(total as nat, |i: int| i as usize));
        } else {
            lemma_single_prefix(total, s, s.len() as int);
        }
    } else {
        assert(spread_pages(s, 0) =~= Seq::new(total as nat, |i: int| i as usize));
    }
}

/// Spreads of single pages show the pages in order.
pub proof fn lemma_single_prefix(total: int, s: Seq<SpreadEntry>, n: int)
    requires
        0 <= n <= s.len(),
        s.len() == total,
        total <= usize::MAX,
        forall|i: int|
            0 <= i < s.len() ==> s[i] == (SpreadEntry { left: None, right: Some(i as usize) }),
    ensures
        spread_pages(s, n) == Seq::new(n as nat, |i: int| i as usize),
    decreases n,
{
    if n > 0 {
        lemma_single_prefix(total, s, n - 1);
        assert(Seq::new((n - 1) as nat, |i: int| i as usize).push((n - 1) as usize) =~= Seq::new(
            n as nat,
            |i: int| i as usize,
        ));
    } else {
        assert(spread_pages(s, n) =~= Seq::new(n as nat, |i: int| i as usize));
    }
}

/// Spreads of paired pages show the pages in order.
pub proof fn lemma_paired_prefix(total: int, s: Seq<SpreadEntry>, n: int)
    requires
        0 < total <= usize::MAX,
        0 <= n <= s.len(),
        s == spreads_of(total, SpreadMode::Always),
    ensures
        spread_pages(s, n) == Seq::new(
            (if 2 * n <= total {
                2 * n
            } else {
                total
            }) as nat,
            |i: int| i as usize,
        ),
    decreases n,
{
    if n > 0 {
        lemma_paired_prefix(total, s, n - 1);
        let prev = spread_pages(s, n - 1);
        let k = n - 1;
        assert(s[k].left == Some((2 * k) as usize));
        assert(2 * k < total);
        if 2 * k + 1 < total {
            assert(prev.push((2 * k) as usize).push((2 * k + 1) as usize) =~= Seq::new(
                (2 * n) as nat,
                |i: int| i as usize,
            ));
        } else {
            assert(prev.push((2 * k) as usize) =~= Seq::new(total as nat, |i: int| i as usize));
        }
    } else {
        assert(spread_pages(s, n) =~= Seq::new(0nat, |i: int| i as usize));
    }
}

} // verus!
