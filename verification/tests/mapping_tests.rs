use epub_engine::layout::{plan_from_lengths, LayoutOptions, LayoutPlan, PageRef, SpreadMode};
use epub_engine::mapping::{
    cfi_to_page_index, find_page_index_for_point, map_point_to_cfi, map_range_to_rects,
    offset_to_cfi, CFIRangeRectsRequest, PointToCFIRequest, RectUnits, Viewport,
};

fn plan(lens: Vec<usize>, fixed: bool) -> LayoutPlan {
    plan_from_lengths(&lens, &LayoutOptions::default(), fixed, None)
}

fn point(spine_index: usize, y: u32, height: u32) -> PointToCFIRequest {
    PointToCFIRequest { spine_index, x: 0, y, viewport: Viewport { width: 800, height } }
}

#[test]
fn point_in_the_middle_of_a_page() {
    let p = plan(vec![1000], false);
    let resp = map_point_to_cfi(&p, &point(0, 250, 500)).unwrap();
    assert_eq!(resp.cfi, offset_to_cfi(0, 500));
    assert_eq!(resp.cfi, "epubcfi(/0:500)");
}

#[test]
fn point_outside_the_pages_has_no_location() {
    let p = plan(vec![1000], false);
    assert!(map_point_to_cfi(&p, &point(0, 500, 500)).is_none());
    assert!(map_point_to_cfi(&p, &point(1, 0, 500)).is_none());
    assert!(map_point_to_cfi(&p, &point(0, 10, 0)).is_none());
    assert_eq!(find_page_index_for_point(&p, &point(0, 499, 500)), Some(0));
}

#[test]
fn point_in_a_later_spine_item() {
    let p = plan(vec![100, 0, 250], false);
    // spine 2 is page 1: two spine items before it hold one page
    let resp = map_point_to_cfi(&p, &point(2, 100, 400)).unwrap();
    assert_eq!(resp.cfi, "epubcfi(/2:62)");
}

#[test]
fn location_maps_to_the_page_that_covers_it() {
    let p = plan(vec![100, 0, 250], false);
    assert_eq!(cfi_to_page_index(&p, &offset_to_cfi(0, 0)), Some(0));
    assert_eq!(cfi_to_page_index(&p, &offset_to_cfi(0, 99)), Some(0));
    assert_eq!(cfi_to_page_index(&p, &offset_to_cfi(0, 100)), None);
    assert_eq!(cfi_to_page_index(&p, &offset_to_cfi(1, 0)), None);
    assert_eq!(cfi_to_page_index(&p, &offset_to_cfi(2, 0)), Some(1));
    assert_eq!(cfi_to_page_index(&p, "not a location"), None);
}

#[test]
fn start_of_every_page_maps_to_that_page() {
    let p = plan(vec![7, 0, 3, 12, 0, 1], false);
    for page in &p.pages {
        let cfi = offset_to_cfi(page.spine_index, page.start_char);
        assert_eq!(cfi_to_page_index(&p, &cfi), Some(page.global_index));
    }
}

#[test]
fn fixed_layout_maps_to_the_page_of_the_spine_item() {
    let p = plan(vec![100, 250], true);
    assert_eq!(cfi_to_page_index(&p, &offset_to_cfi(1, 100000)), Some(1));
}

#[test]
fn range_leaves_a_rectangle_on_each_page_it_touches() {
    let p = plan(vec![100, 0, 200], false);
    let req = CFIRangeRectsRequest {
        start_spine_index: 0,
        start_char_offset: 50,
        end_spine_index: 2,
        end_char_offset: 20,
        viewport: Viewport { width: 800, height: 600 },
    };
    let rects = map_range_to_rects(&p, &req);
    assert_eq!(rects.len(), 2);
    assert_eq!(rects[0].page_index, 0);
    assert_eq!(rects[0].rects, vec![RectUnits { top: 50000, height: 50000, scale: 100000 }]);
    assert_eq!(rects[1].page_index, 1);
    assert_eq!(rects[1].rects, vec![RectUnits { top: 0, height: 20000, scale: 200000 }]);
}

#[test]
fn thin_rectangle_is_at_least_two_thousandths_high() {
    let p = plan(vec![10000], false);
    let req = CFIRangeRectsRequest {
        start_spine_index: 0,
        start_char_offset: 5,
        end_spine_index: 0,
        end_char_offset: 6,
        viewport: Viewport { width: 1, height: 1 },
    };
    let rects = map_range_to_rects(&p, &req);
    assert_eq!(rects[0].rects, vec![RectUnits { top: 5000, height: 20000, scale: 10000000 }]);
}

#[test]
fn range_in_fixed_layout_covers_whole_pages() {
    let p = plan(vec![100, 200], true);
    let req = CFIRangeRectsRequest {
        start_spine_index: 1,
        start_char_offset: 500,
        end_spine_index: 1,
        end_char_offset: 0,
        viewport: Viewport { width: 1, height: 1 },
    };
    let rects = map_range_to_rects(&p, &req);
    assert_eq!(rects.len(), 1);
    assert_eq!(rects[0].page_index, 1);
    assert_eq!(rects[0].rects, vec![RectUnits { top: 0, height: 1, scale: 1 }]);
}

#[test]
fn empty_range_leaves_no_rectangle() {
    let p = plan(vec![100], false);
    let req = CFIRangeRectsRequest {
        start_spine_index: 0,
        start_char_offset: 30,
        end_spine_index: 0,
        end_char_offset: 30,
        viewport: Viewport { width: 1, height: 1 },
    };
    assert!(map_range_to_rects(&p, &req).is_empty());
    let hand = LayoutPlan {
        pages: vec![PageRef { global_index: 0, spine_index: 0, start_char: 5, end_char: 5 }],
        pages_per_spine: vec![1],
        total_pages: 1,
        spreads: vec![],
        spread_mode: SpreadMode::Single,
        reading_direction: None,
        is_fixed_layout: false,
    };
    assert_eq!(map_range_to_rects(&hand, &req)[0].rects, vec![RectUnits { top: 0, height: 1, scale: 1 }]);
}
