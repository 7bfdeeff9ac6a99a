use epub_engine::layout::{
    build_spreads, plan_from_lengths, resolve_spread_mode, FlowMode, LayoutOptions, PageRef,
    SpreadEntry, SpreadMode,
};
use epub_engine::locations::{locations_from_lengths, LocationPoint};
use epub_engine::text::strip_tags;

fn options(spread: SpreadMode, width: u32) -> LayoutOptions {
    LayoutOptions { viewport_width: width, spread, ..LayoutOptions::default() }
}

#[test]
fn default_options() {
    let o = LayoutOptions::default();
    assert_eq!(o.viewport_width, 1024);
    assert_eq!(o.viewport_height, 768);
    assert_eq!(o.flow, FlowMode::Paginated);
    assert_eq!(o.spread, SpreadMode::Auto);
    assert_eq!(o.min_spread_width, Some(900));
}

#[test]
fn one_page_for_each_section_with_text() {
    let plan = plan_from_lengths(&vec![100, 0, 250], &LayoutOptions::default(), false, None);
    assert_eq!(plan.pages_per_spine, vec![1, 0, 1]);
    assert_eq!(plan.total_pages, 2);
    assert_eq!(
        plan.pages,
        vec![
            PageRef { global_index: 0, spine_index: 0, start_char: 0, end_char: 100 },
            PageRef { global_index: 1, spine_index: 2, start_char: 0, end_char: 250 },
        ]
    );
    assert!(!plan.is_fixed_layout);
}

#[test]
fn page_counts_add_up_to_total() {
    let lens = vec![3, 0, 0, 9, 1, 0];
    let plan = plan_from_lengths(&lens, &LayoutOptions::default(), true, Some("rtl".to_string()));
    assert_eq!(plan.pages_per_spine.len(), lens.len());
    assert_eq!(plan.pages_per_spine.iter().sum::<usize>(), plan.total_pages);
    assert_eq!(plan.pages.len(), plan.total_pages);
    assert_eq!(plan.reading_direction, Some("rtl".to_string()));
    assert!(plan.is_fixed_layout);
    let all = plan_from_lengths(&vec![5, 6, 7], &LayoutOptions::default(), false, None);
    assert_eq!(all.pages_per_spine.iter().sum::<usize>(), 3);
}

#[test]
fn spreads_pair_pages_in_always_mode() {
    assert_eq!(
        build_spreads(5, SpreadMode::Always),
        vec![
            SpreadEntry { left: Some(0), right: Some(1) },
            SpreadEntry { left: Some(2), right: Some(3) },
            SpreadEntry { left: Some(4), right: None },
        ]
    );
    assert_eq!(
        build_spreads(4, SpreadMode::Always),
        vec![
            SpreadEntry { left: Some(0), right: Some(1) },
            SpreadEntry { left: Some(2), right: Some(3) },
        ]
    );
    assert_eq!(build_spreads(0, SpreadMode::Always), vec![]);
}

#[test]
fn spreads_hold_single_pages_in_none_mode() {
    let spreads = build_spreads(5, SpreadMode::Single);
    assert_eq!(spreads.len(), 5);
    for (i, s) in spreads.iter().enumerate() {
        assert_eq!(*s, SpreadEntry { left: None, right: Some(i) });
    }
}

#[test]
fn spreads_show_each_page_once() {
    for total in 0..9usize {
        for mode in [SpreadMode::Always, SpreadMode::Single, SpreadMode::Auto] {
            let mut seen = Vec::new();
            for s in build_spreads(total, mode) {
                if let Some(l) = s.left {
                    seen.push(l);
                }
                if let Some(r) = s.right {
                    seen.push(r);
                }
            }
            assert_eq!(seen, (0..total).collect::<Vec<usize>>());
        }
    }
}

#[test]
fn auto_mode_follows_viewport_width() {
    assert_eq!(resolve_spread_mode(&options(SpreadMode::Auto, 900)), SpreadMode::Always);
    assert_eq!(resolve_spread_mode(&options(SpreadMode::Auto, 899)), SpreadMode::Single);
    assert_eq!(resolve_spread_mode(&options(SpreadMode::Single, 2000)), SpreadMode::Single);
    assert_eq!(resolve_spread_mode(&options(SpreadMode::Always, 10)), SpreadMode::Always);
    let mut o = options(SpreadMode::Auto, 500);
    o.min_spread_width = Some(400);
    assert_eq!(resolve_spread_mode(&o), SpreadMode::Always);
    o.min_spread_width = None;
    assert_eq!(resolve_spread_mode(&o), SpreadMode::Single);
}

#[test]
fn strip_tags_counts_text_outside_tags() {
    assert_eq!(strip_tags("<p>Hello <b>world</b></p>".to_string()), "Hello world");
    assert_eq!(strip_tags("a > b < c > d".to_string()), "a  b  d");
    assert_eq!(strip_tags("<br/>".to_string()), "");
    assert_eq!(strip_tags("h\u{e9}llo<i>\u{1F600}</i>".to_string()).chars().count(), 6);
}

#[test]
fn locations_every_step_characters() {
    let r = locations_from_lengths(&vec![2500, 0, 1199, 1200], 1200);
    assert_eq!(r.by_spine, vec![2, 0, 0, 1]);
    assert_eq!(r.total, 3);
    assert_eq!(
        r.locations,
        vec![
            LocationPoint { spine_index: 0, char_offset: 1200, section_len: 2500 },
            LocationPoint { spine_index: 0, char_offset: 2400, section_len: 2500 },
            LocationPoint { spine_index: 3, char_offset: 1200, section_len: 1200 },
        ]
    );
}

#[test]
fn locations_with_zero_step_are_none() {
    let r = locations_from_lengths(&vec![10, 20], 0);
    assert_eq!(r.total, 0);
    assert_eq!(r.by_spine, vec![0, 0]);
    assert!(r.locations.is_empty());
}
