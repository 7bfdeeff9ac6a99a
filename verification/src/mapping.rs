//! Mapping between locations, points and pages.

use crate::cfi::{
    cfi_of, cfi_text, format_cfi, offset_of, try_parse_cfi_to_offset, CFIComponent,
    CFIComponentView, CFIStep, CFIStepView, CFIView, CFI,
};
use crate::layout::{pages_before, LayoutPlan, LayoutPlanView, PageRef};
use crate::text::views;
use vstd::prelude::*;

verus! {

/// Size of the viewport, in whole layout units.
#[derive(Debug, Clone, Copy, PartialEq, Eq)]
pub struct Viewport {
    pub width: u32,
    pub height: u32,
}

/// A point of a spine item's rendering, in whole layout units.
#[derive(Debug, Clone, Copy, PartialEq, Eq)]
pub struct PointToCFIRequest {
    pub spine_index: usize,
    pub x: u32,
    pub y: u32,
    pub viewport: Viewport,
}

/// The location of a point.
#[derive(Debug)]
pub struct PointToCFIResponse {
    pub cfi: String,
}

/// A rectangle of a page, as wide as the page: it starts `top / scale` of
/// the page height below the top and is `height / scale` of it high.
#[derive(Debug, Clone, Copy, PartialEq, Eq)]
pub struct RectUnits {
    pub top: u128,
    pub height: u128,
    pub scale: u128,
}

/// The rectangles of a range on one page.
#[derive(Debug)]
pub struct PageRect {
    pub page_index: usize,
    pub rects: Vec<RectUnits>,
}

/// The mathematical model of `PageRect`.
pub struct PageRectView {
    pub page_index: usize,
    pub rects: Seq<RectUnits>,
}

impl View for PageRect {
    type V = PageRectView;

    open spec fn view(&self) -> PageRectView {
        PageRectView { page_index: self.page_index, rects: self.rects@ }
    }
}

/// A range of characters across spine items.
#[derive(Debug, Clone, Copy, PartialEq, Eq)]
pub struct CFIRangeRectsRequest {
    pub start_spine_index: usize,
    pub start_char_offset: usize,
    pub end_spine_index: usize,
    pub end_char_offset: usize,
    pub viewport: Viewport,
}

/// The 32-bit two's complement reading of an integer.
pub open spec fn wrapped(x: int) -> i32 {
    let m = x % 0x1_0000_0000;
    if m >= 0x8000_0000 {
        (m - 0x1_0000_0000) as i32
    } else {
        m as i32
    }
}

/// The location that stands for a character offset of a spine item: one
/// spine step with the spine index and the offset as terminal offset.
pub open spec fn offset_cfi(spine_index: int, char_offset: int) -> CFIView {
    CFIView {
        spine_path: CFIComponentView {
            steps: seq![CFIStepView { index: wrapped(spine_index), id: None }],
            terminal_offset: Some(wrapped(char_offset)),
        },
        content_path: None,
    }
}

/// Whether a page shows the given offset of the given spine item. In a
/// fixed layout the page of the item shows all of it.
pub open spec fn page_holds(p: PageRef, fixed: bool, spine: int, offset: int) -> bool {
    p.spine_index == spine && (fixed || p.start_char <= offset < p.end_char)
}

/// Index of the first page at or after `from` that shows the offset, or
/// `-1`.
pub open spec fn page_showing(pages: Seq<PageRef>, fixed: bool, spine: int, offset: int, from: int) -> int
    decreases pages.len() - from,
{
    if from < 0 || from >= pages.len() {
        -1
    } else if page_holds(pages[from], fixed, spine, offset) {
        from
    } else {
        page_showing(pages, fixed, spine, offset, from + 1)
    }
}

/// The global index of the page that shows the location `text`.
pub open spec fn page_index_of(plan: LayoutPlanView, text: Seq<char>) -> Option<usize> {
    match cfi_of(text) {
        Some(c) => match offset_of(c) {
            Some(p) => {
                let i = page_showing(plan.pages, plan.is_fixed_layout, p.0, p.1, 0);
                if 0 <= i < plan.pages.len() {
                    Some(plan.pages[i].global_index)
                } else {
                    None
                }
            },
            None => None,
        },
        None => None,
    }
}

/// Number of pages before the spine item `spine_index`.
pub open spec fn count_before(plan: LayoutPlanView, spine_index: int) -> int {
    pages_before(plan.pages_per_spine, spine_index)
}

/// Number of characters that a page spans, at least 1.
pub open spec fn span_of(p: PageRef) -> int {
    if p.end_char > p.start_char {
        p.end_char - p.start_char
    } else {
        1
    }
}

/// The page that a point lies on: the page `y / height` pages into its
/// spine item. `None` where the viewport has no height or there is no such
/// page.
pub open spec fn point_page(plan: LayoutPlanView, req: PointToCFIRequest) -> Option<int> {
    if req.viewport.height == 0 {
        None
    } else {
        let g = count_before(plan, req.spine_index as int) + req.y as int
            / req.viewport.height as int;
        if g < plan.pages.len() {
            Some(g)
        } else {
            None
        }
    }
}

/// The character offset of a point on its page: the start of the page plus
/// the share of its span that lies above the point.
pub open spec fn point_offset(p: PageRef, req: PointToCFIRequest) -> int {
    p.start_char + ((req.y as int % req.viewport.height as int) * span_of(p))
        / req.viewport.height as int
}

/// The rectangle that a range leaves on a page, if any. In a fixed layout,
/// or on a page without span, it is the whole page; else it is the part of
/// the page that the range covers, at least 2/1000 of the page high.
pub open spec fn rect_on(p: PageRef, fixed: bool, req: CFIRangeRectsRequest) -> Option<RectUnits> {
    if p.spine_index < req.start_spine_index || p.spine_index > req.end_spine_index {
        None
    } else if fixed || p.end_char <= p.start_char {
        Some(RectUnits { top: 0, height: 1, scale: 1 })
    } else {
        let len = p.end_char - p.start_char;
        let start = if p.spine_index == req.start_spine_index {
            req.start_char_offset
        } else {
            p.start_char
        };
        let end = if p.spine_index == req.end_spine_index {
            req.end_char_offset
        } else {
            p.end_char
        };
        let s = if start > p.start_char {
            start
        } else {
            p.start_char
        };
        let e = if end < p.end_char {
            end
        } else {
            p.end_char
        };
        if end <= p.start_char || start >= p.end_char || e <= s {
            None
        } else {
            Some(
                RectUnits {
                    top: (1000 * (s - p.start_char)) as u128,
                    height: (if 1000 * (e - s) < 2 * len {
                        2 * len
                    } else {
                        1000 * (e - s)
                    }) as u128,
                    scale: (1000 * len) as u128,
                },
            )
        }
    }
}

/// The rectangles that a range leaves on the first `n` pages.
pub open spec fn rects_upto(pages: Seq<PageRef>, fixed: bool, req: CFIRangeRectsRequest, n: int) -> Seq<
    PageRectView,
>
    decreases n,
{
    if n <= 0 || n > pages.len() {
        Seq::empty()
    } else {
        match rect_on(pages[n - 1], fixed, req) {
            Some(r) => rects_upto(pages, fixed, req, n - 1).push(
                PageRectView { page_index: pages[n - 1].global_index, rects: seq![r] },
            ),
            None => rects_upto(pages, fixed, req, n - 1),
        }
    }
}

/// The 32-bit two's complement reading of a number.
pub fn wrap_i32(x: usize) -> (r: i32)
    ensures
        r == wrapped(x as int),
{
    let m: u64 = (x as u64) % 0x1_0000_0000;
    if m >= 0x8000_0000 {
        let v: i64 = m as i64 - 0x1_0000_0000;
        v as i32
    } else {
        m as i32
    }
}

/// The canonical location of a character offset of a spine item.
pub fn offset_to_cfi(spine_index: usize, char_offset: usize) -> (r: String)
    ensures
        r@ == cfi_text(offset_cfi(spine_index as int, char_offset as int)),
{
    let mut steps: Vec<CFIStep> = Vec::new();
    steps.push(CFIStep { index: wrap_i32(spine_index), id: None });
    let spine_path = CFIComponent { steps, terminal_offset: Some(wrap_i32(char_offset)) };
    let cfi = CFI { spine_path, content_path: None };
    assert(views(cfi.spine_path.steps@) =~= seq![
        CFIStepView { index: wrapped(spine_index as int), id: None },
    ]);
    format_cfi(&cfi)
}

/// The global index of the page that shows a location: the first page of
/// its spine item whose span holds its offset; in a fixed layout, the first
/// page of its spine item. `None` where the text denotes no offset or no
/// page shows it.
pub fn cfi_to_page_index(layout: &LayoutPlan, cfi: &str) -> (r: Option<usize>)
    ensures
        r == page_index_of(layout@, cfi@),
{
    let (spine_index, char_offset) = match try_parse_cfi_to_offset(cfi) {
        Some(p) => p,
        None => {
            return None;
        },
    };
    let mut i: usize = 0;
    while i < layout.pages.len()
        invariant
            i <= layout.pages.len(),
            cfi_of(cfi@) is Some,
            offset_of(cfi_of(cfi@)->0) == Some((spine_index as int, char_offset as int)),
            page_showing(
                layout@.pages,
                layout@.is_fixed_layout,
                spine_index as int,
                char_offset as int,
                0,
            ) == page_showing(
                layout@.pages,
                layout@.is_fixed_layout,
                spine_index as int,
                char_offset as int,
                i as int,
            ),
        decreases layout.pages.len() - i,
    {
        let p = &layout.pages[i];
        if p.spine_index == spine_index && (layout.is_fixed_layout || (char_offset >= p.start_char
            && char_offset < p.end_char)) {
            return Some(p.global_index);
        }
        i += 1;
    }
    None
}

/// Number of pages before a spine item, where it fits the plan.
fn pages_before_spine(layout: &LayoutPlan, spine_index: usize, limit: usize) -> (r: Option<usize>)
    ensures
        match r {
            Some(n) => n as int == count_before(layout@, spine_index as int) && n <= limit,
            None => count_before(layout@, spine_index as int) > limit,
        },
{
    let counts = &layout.pages_per_spine;
    let stop = if spine_index < counts.len() {
        spine_index
    } else {
        counts.len()
    };
    let mut total: usize = 0;
    let mut i: usize = 0;
    while i < stop
        invariant
            i <= stop <= counts.len(),
            counts@ == layout@.pages_per_spine,
            pages_before(counts@, stop as int) == count_before(layout@, spine_index as int),
            total as int == pages_before(counts@, i as int),
            total <= limit,
        decreases stop - i,
    {
        let c = counts[i];
        if c > limit - total {
            proof {
                lemma_before_mono(counts@, i + 1, stop as int);
            }
            return None;
        }
        total += c;
        i += 1;
    }
    Some(total)
}

/// The number of pages before a spine item is not negative.
pub proof fn lemma_before_nonneg(counts: Seq<usize>, n: int)
    ensures
        pages_before(counts, n) >= 0,
{
    if n > counts.len() {
        lemma_before_mono(counts, 0, counts.len() as int);
    } else if n > 0 {
        lemma_before_mono(counts, 0, n);
    }
}

/// The number of pages before a spine item grows with the item.
pub proof fn lemma_before_mono(counts: Seq<usize>, a: int, b: int)
    requires
        0 <= a <= b <= counts.len(),
    ensures
        pages_before(counts, a) <= pages_before(counts, b),
    decreases b,
{
    if a < b {
        lemma_before_mono(counts, a, b - 1);
    }
}

/// The page that a point lies on.
pub fn find_page_index_for_point(layout: &LayoutPlan, req: &PointToCFIRequest) -> (r: Option<
    usize,
>)
    ensures
        match r {
            Some(g) => point_page(layout@, *req) == Some(g as int) && g < layout.pages.len(),
            None => point_page(layout@, *req) is None,
        },
{
    proof {
        lemma_before_nonneg(layout@.pages_per_spine, req.spine_index as int);
    }
    if req.viewport.height == 0 || layout.pages.len() == 0 {
        return None;
    }
    let page_in_spine: usize = (req.y / req.viewport.height) as usize;
    let last = layout.pages.len() - 1;
    match pages_before_spine(layout, req.spine_index, last) {
        Some(before) => {
            if page_in_spine <= last - before {
                Some(before + page_in_spine)
            } else {
                None
            }
        },
        None => None,
    }
}

/// The location of a point: the page is found from the spine item and the
/// height of the point, the offset from how far down the page the point
/// lies. `None` where no page lies there.
pub fn map_point_to_cfi(layout: &LayoutPlan, req: &PointToCFIRequest) -> (r: Option<
    PointToCFIResponse,
>)
    ensures
        match r {
            Some(resp) => {
                &&& point_page(layout@, *req) is Some
                &&& resp.cfi@ == cfi_text(
                    offset_cfi(
                        req.spine_index as int,
                        point_offset(layout@.pages[point_page(layout@, *req)->0], *req),
                    ),
                )
            },
            None => point_page(layout@, *req) is None,
        },
{
    let page_index = match find_page_index_for_point(layout, req) {
        Some(g) => g,
        None => {
            return None;
        },
    };
    let page = &layout.pages[page_index];
    let h: u128 = req.viewport.height as u128;
    let span: usize = if page.end_char > page.start_char {
        page.end_char - page.start_char
    } else {
        1
    };
    let rem: u128 = (req.y % req.viewport.height) as u128;
    assert(rem * (span as u128) <= 0xffff_ffff * 0xffff_ffff_ffff_ffff) by (nonlinear_arith)
        requires
            rem <= 0xffff_ffff,
            span <= 0xffff_ffff_ffff_ffff,
    ;
    let product: u128 = rem * (span as u128);
    let within: u128 = product / h;
    assert(within < span) by (nonlinear_arith)
        requires
            within as int == (rem as int * span as int) / (h as int),
            rem < h,
            h > 0,
            span >= 1,
    ;
    let char_offset: usize = page.start_char + within as usize;
    Some(PointToCFIResponse { cfi: offset_to_cfi(req.spine_index, char_offset) })
}

/// The rectangle that a range leaves on a page.
fn rect_for_page(page: &PageRef, fixed: bool, req: &CFIRangeRectsRequest) -> (r: Option<RectUnits>)
    ensures
        r == rect_on(*page, fixed, *req),
{
    if page.spine_index < req.start_spine_index || page.spine_index > req.end_spine_index {
        return None;
    }
    if fixed || page.end_char <= page.start_char {
        return Some(RectUnits { top: 0, height: 1, scale: 1 });
    }
    let len: u128 = (page.end_char - page.start_char) as u128;
    let start_char = if page.spine_index == req.start_spine_index {
        req.start_char_offset
    } else {
        page.start_char
    };
    let end_char = if page.spine_index == req.end_spine_index {
        req.end_char_offset
    } else {
        page.end_char
    };
    if end_char <= page.start_char || start_char >= page.end_char {
        return None;
    }
    let s = if start_char > page.start_char {
        start_char
    } else {
        page.start_char
    };
    let e = if end_char < page.end_char {
        end_char
    } else {
        page.end_char
    };
    if e <= s {
        return None;
    }
    let covered: u128 = 1000 * ((e - s) as u128);
    let least: u128 = 2 * len;
    Some(
        RectUnits {
            top: 1000 * ((s - page.start_char) as u128),
            height: if covered < least {
                least
            } else {
                covered
            },
            scale: 1000 * len,
        },
    )
}

/// The rectangles that a range of characters leaves on the pages: one for
/// each page of a spine item in the range that the range touches, in page
/// order.
pub fn map_range_to_rects(layout: &LayoutPlan, req: &CFIRangeRectsRequest) -> (out: Vec<PageRect>)
    ensures
        views(out@) == rects_upto(
            layout@.pages,
            layout@.is_fixed_layout,
            *req,
            layout@.pages.len() as int,
        ),
{
    let mut out: Vec<PageRect> = Vec::new();
    let mut i: usize = 0;
    assert(views(out@) =~= Seq::<PageRectView>::empty());
    while i < layout.pages.len()
        invariant
            i <= layout.pages.len(),
            views(out@) == rects_upto(layout@.pages, layout@.is_fixed_layout, *req, i as int),
        decreases layout.pages.len() - i,
    {
        let page = &layout.pages[i];
        match rect_for_page(page, layout.is_fixed_layout, req) {
            Some(r) => {
                let mut rects: Vec<RectUnits> = Vec::new();
                rects.push(r);
                assert(rects@ =~= seq![r]);
                let pr = PageRect { page_index: page.global_index, rects };
                proof {
                    crate::text::lemma_views_push(out@, pr);
                }
                out.push(pr);
            },
            None => {},
        }
        i += 1;
    }
    out
}

} // verus!
