use epub_engine::cfi::{
    format_cfi, format_component, format_range, parse, parse_component, parse_range,
    try_cfi_to_offset, try_parse_cfi_range_to_offsets, try_parse_cfi_to_offset, CFIComponent,
    CFIError, CFIRange, CFIStep, CFI,
};
use epub_engine::mapping::offset_to_cfi;

fn step(index: i32, id: Option<&str>) -> CFIStep {
    CFIStep { index, id: id.map(|s| s.to_string()) }
}

#[test]
fn offset_location_has_canonical_text() {
    assert_eq!(offset_to_cfi(4, 123), "epubcfi(/4:123)");
    assert_eq!(offset_to_cfi(0, 0), "epubcfi(/0:0)");
}

#[test]
fn canonical_text_reads_back_as_offset() {
    assert_eq!(try_parse_cfi_to_offset("epubcfi(/4:123)"), Some((4, 123)));
    assert_eq!(try_parse_cfi_to_offset(&offset_to_cfi(17, 9001)), Some((17, 9001)));
}

#[test]
fn range_call_form_reads_both_offsets() {
    assert_eq!(
        try_parse_cfi_range_to_offsets("epubcfi(range(/4:10,/4:20))"),
        Some(((4, 10), (4, 20)))
    );
}

#[test]
fn range_comma_form_reads_both_offsets() {
    assert_eq!(
        try_parse_cfi_range_to_offsets("epubcfi(/2:0,/2:10)"),
        Some(((2, 0), (2, 10)))
    );
}

#[test]
fn range_dots_form_reads_both_offsets() {
    assert_eq!(
        try_parse_cfi_range_to_offsets("epubcfi(/3:5)..epubcfi(/3:8)"),
        Some(((3, 5), (3, 8)))
    );
    assert_eq!(try_parse_cfi_range_to_offsets("/3:5../4:1"), Some(((3, 5), (4, 1))));
}

#[test]
fn text_without_wrapper_is_invalid() {
    assert_eq!(parse("/4:123").err(), Some(CFIError::Invalid));
    assert_eq!(parse("epubcfi(/4:123").err(), Some(CFIError::Invalid));
    assert_eq!(parse("").err(), Some(CFIError::Invalid));
    assert_eq!(parse("epubcfi(/x)").err(), Some(CFIError::Invalid));
}

#[test]
fn range_without_separator_is_invalid() {
    assert_eq!(parse_range("epubcfi(/4:1)").err(), Some(CFIError::Invalid));
    assert_eq!(parse_range("epubcfi(range(/4:1))").err(), Some(CFIError::Invalid));
    assert_eq!(parse_range("nothing").err(), Some(CFIError::Invalid));
}

#[test]
fn parse_reads_steps_ids_and_content_path() {
    let cfi = parse("  epubcfi(/6/4[chap01ref]!/4/2/2:7)  ").unwrap();
    assert_eq!(cfi.spine_path.steps.len(), 2);
    assert_eq!(cfi.spine_path.steps[0].index, 6);
    assert_eq!(cfi.spine_path.steps[0].id, None);
    assert_eq!(cfi.spine_path.steps[1].index, 4);
    assert_eq!(cfi.spine_path.steps[1].id, Some("chap01ref".to_string()));
    assert_eq!(cfi.spine_path.terminal_offset, None);
    let content = cfi.content_path.unwrap();
    assert_eq!(content.steps.len(), 3);
    assert_eq!(content.terminal_offset, Some(7));
}

#[test]
fn parse_drops_assertions() {
    let c = parse_component("/4/2:12;s=a").unwrap();
    assert_eq!(c.steps.len(), 2);
    assert_eq!(c.terminal_offset, Some(12));
    let d = parse_component("/4/2(1:0,0)/9").unwrap();
    assert_eq!(d.steps.iter().map(|s| s.index).collect::<Vec<i32>>(), vec![4, 2, 9]);
    assert_eq!(d.terminal_offset, None);
    let e = parse_component("/4:x").unwrap();
    assert_eq!(e.terminal_offset, None);
}

#[test]
fn parse_keeps_what_follows_an_assertion() {
    let c = parse_component("/4(a)/2:3").unwrap();
    assert_eq!(c.steps.iter().map(|s| s.index).collect::<Vec<i32>>(), vec![4, 2]);
    assert_eq!(c.terminal_offset, Some(3));
    assert_eq!(try_parse_cfi_to_offset("epubcfi(/4(a)/2:3)"), Some((4, 3)));
    let d = parse_component("/6(x)[id](y)/8(z):5(w);q").unwrap();
    assert_eq!(d.steps.len(), 2);
    assert_eq!(d.steps[0].id, Some("id".to_string()));
    assert_eq!(d.terminal_offset, Some(5));
    let open = parse_component("/4/2(never closed/9:1").unwrap();
    assert_eq!(open.steps.len(), 2);
    assert_eq!(open.terminal_offset, None);
    let cfi = parse("epubcfi(/6/4(a)!/2(b):7)").unwrap();
    assert_eq!(cfi.spine_path.steps.len(), 2);
    assert_eq!(cfi.content_path.unwrap().terminal_offset, Some(7));
}

#[test]
fn parse_component_rejects_bad_index() {
    assert_eq!(parse_component("/4/a").err(), Some(CFIError::Invalid));
    assert_eq!(parse_component("/99999999999").err(), Some(CFIError::Invalid));
    assert!(parse_component("/-3").is_ok());
}

#[test]
fn format_writes_components_joined_by_bang() {
    let cfi = CFI {
        spine_path: CFIComponent { steps: vec![step(6, None), step(4, Some("c1"))], terminal_offset: None },
        content_path: Some(CFIComponent { steps: vec![step(2, None)], terminal_offset: Some(-5) }),
    };
    assert_eq!(format_cfi(&cfi), "epubcfi(/6/4[c1]!/2:-5)");
    assert_eq!(format_component(&cfi.spine_path), "/6/4[c1]");
}

#[test]
fn format_then_parse_gives_the_location_back() {
    let cfi = CFI {
        spine_path: CFIComponent { steps: vec![step(6, None), step(4, Some("c1"))], terminal_offset: Some(3) },
        content_path: Some(CFIComponent { steps: vec![step(2, None)], terminal_offset: Some(44) }),
    };
    let back = parse(&format_cfi(&cfi)).unwrap();
    assert_eq!(format_cfi(&back), format_cfi(&cfi));
    assert_eq!(back.spine_path.steps[1].id, Some("c1".to_string()));
    assert_eq!(back.content_path.unwrap().terminal_offset, Some(44));
}

#[test]
fn format_range_has_one_wrapper() {
    let a = parse("epubcfi(/4:10)").unwrap();
    let b = parse("epubcfi(/4:20)").unwrap();
    let text = format_range(&CFIRange { start: a, end: b });
    assert_eq!(text, "epubcfi(/4:10,/4:20)");
    assert_eq!(try_parse_cfi_range_to_offsets(&text), Some(((4, 10), (4, 20))));
}

#[test]
fn offset_needs_step_and_terminal() {
    let no_terminal = parse("epubcfi(/4)").unwrap();
    assert_eq!(try_cfi_to_offset(&no_terminal), None);
    let no_step = parse("epubcfi(:4)").unwrap();
    assert_eq!(try_cfi_to_offset(&no_step), None);
    let negative = parse("epubcfi(/-2:-9)").unwrap();
    assert_eq!(try_cfi_to_offset(&negative), Some((0, 0)));
}

#[test]
fn offset_beyond_31_bits_wraps() {
    assert_eq!(offset_to_cfi(1, 2147483648), "epubcfi(/1:-2147483648)");
    assert_eq!(offset_to_cfi(1, 4294967297), "epubcfi(/1:1)");
}
