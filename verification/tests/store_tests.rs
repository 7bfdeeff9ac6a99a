use epub_engine::annotations::{
    annotations_file_name, locations_file_name, Annotation, AnnotationError, AnnotationKind,
    AnnotationStore, STORE_DIR_NAME,
};
use epub_engine::replacements::{ReplacementMode, ReplacementStrategy};
use epub_engine::resources::{bytes_to_data_uri, ResourceManager};
use epub_engine::shared::{BookData, BookKind, Cover, ErrorSeverity, Pdf};
use epub_engine::themes::{combine_css, font_face_from_resource, font_format, FontFace, ThemeRegistry};

fn note(id: &str, range: &str, text: Option<&str>) -> Annotation {
    Annotation {
        id: id.to_string(),
        kind: AnnotationKind::Highlight,
        cfi_range: range.to_string(),
        color: None,
        note: text.map(|s| s.to_string()),
    }
}

fn ids(store: &AnnotationStore) -> Vec<String> {
    store.list().into_iter().map(|a| a.id).collect()
}

#[test]
fn annotation_survives_reopening() {
    let mut store = AnnotationStore::new();
    store.add(note("x", "epubcfi(range(/2:0,/2:10))", None));
    let saved = store.list();
    let reopened = AnnotationStore::from_list(saved);
    let list = reopened.list();
    assert_eq!(list.len(), 1);
    assert_eq!(list[0].id, "x");
    assert_eq!(list[0].kind, AnnotationKind::Highlight);
    assert_eq!(list[0].cfi_range, "epubcfi(range(/2:0,/2:10))");
    assert_eq!(list[0].color, None);
    assert_eq!(list[0].note, None);
}

#[test]
fn adding_twice_is_adding_once() {
    let mut store = AnnotationStore::new();
    store.add(note("a", "r1", None));
    store.add(note("b", "r2", None));
    store.add(note("a", "r3", Some("again")));
    store.add(note("a", "r3", Some("again")));
    assert_eq!(ids(&store), vec!["a", "b"]);
    let list = store.list();
    assert_eq!(list[0].cfi_range, "r3");
    assert_eq!(list[0].note, Some("again".to_string()));
}

#[test]
fn removed_annotation_is_gone() {
    let mut store = AnnotationStore::new();
    store.add(note("a", "r1", None));
    store.add(note("b", "r2", None));
    store.add(note("c", "r3", None));
    assert!(store.remove("b"));
    assert_eq!(ids(&store), vec!["a", "c"]);
    assert!(!store.remove("b"));
    assert_eq!(ids(&store), vec!["a", "c"]);
}

#[test]
fn update_needs_an_annotation_with_the_id() {
    let mut store = AnnotationStore::new();
    store.add(note("a", "r1", None));
    assert_eq!(store.update(note("zz", "r9", None)), Err(AnnotationError::NotFound));
    assert_eq!(ids(&store), vec!["a"]);
    assert_eq!(store.update(note("a", "r2", None)), Ok(()));
    assert_eq!(store.list()[0].cfi_range, "r2");
}

#[test]
fn store_from_list_keeps_last_of_equal_ids() {
    let store = AnnotationStore::from_list(vec![note("a", "1", None), note("b", "2", None), note("a", "3", None)]);
    assert_eq!(ids(&store), vec!["a", "b"]);
    assert_eq!(store.list()[0].cfi_range, "3");
}

#[test]
fn saved_files_are_named_by_book() {
    assert_eq!(annotations_file_name(42), "42_annotations.json");
    assert_eq!(locations_file_name(0), "0_locations.json");
    assert_eq!(STORE_DIR_NAME, "rishi_store");
}

#[test]
fn replacement_mode_names() {
    assert_eq!(ReplacementMode::from_str("none"), Some(ReplacementMode::Keep));
    assert_eq!(ReplacementMode::from_str("base64"), Some(ReplacementMode::Base64));
    assert_eq!(ReplacementMode::from_str("blobUrl"), Some(ReplacementMode::BlobUrl));
    assert_eq!(ReplacementMode::from_str("blob"), Some(ReplacementMode::BlobUrl));
    assert_eq!(ReplacementMode::from_str("Base64"), None);
    assert_eq!(ReplacementMode::Keep.as_str(), "none");
    assert_eq!(ReplacementMode::Base64.as_str(), "base64");
    assert_eq!(ReplacementMode::BlobUrl.as_str(), "blobUrl");
}

#[test]
fn media_types_fall_into_classes() {
    let s = ReplacementStrategy {
        default: ReplacementMode::Base64,
        images: Some(ReplacementMode::BlobUrl),
        fonts: Some(ReplacementMode::Keep),
        stylesheets: Some(ReplacementMode::BlobUrl),
        scripts: Some(ReplacementMode::Keep),
    };
    assert_eq!(s.get_mode_for_mime("IMAGE/PNG"), ReplacementMode::BlobUrl);
    assert_eq!(s.get_mode_for_mime("image/font"), ReplacementMode::BlobUrl);
    assert_eq!(s.get_mode_for_mime("application/font-sfnt"), ReplacementMode::Keep);
    assert_eq!(s.get_mode_for_mime("application/x-woff"), ReplacementMode::Base64);
    assert_eq!(s.get_mode_for_mime("font/woff2"), ReplacementMode::Keep);
    assert_eq!(s.get_mode_for_mime("application/WOFF"), ReplacementMode::Keep);
    assert_eq!(s.get_mode_for_mime("x/ttf"), ReplacementMode::Keep);
    assert_eq!(s.get_mode_for_mime("x/otf"), ReplacementMode::Keep);
    assert_eq!(s.get_mode_for_mime("text/css"), ReplacementMode::BlobUrl);
    assert_eq!(s.get_mode_for_mime("text/css2"), ReplacementMode::Base64);
    assert_eq!(s.get_mode_for_mime("text/x-stylesheet"), ReplacementMode::BlobUrl);
    assert_eq!(s.get_mode_for_mime("text/JavaScript"), ReplacementMode::Keep);
    assert_eq!(s.get_mode_for_mime("application/ecmascript"), ReplacementMode::Keep);
    assert_eq!(s.get_mode_for_mime("application/xhtml+xml"), ReplacementMode::Base64);
    assert_eq!(s.mode_for_lowered("IMAGE/PNG"), ReplacementMode::Base64);
    let d = ReplacementStrategy::default();
    assert_eq!(d.default, ReplacementMode::Base64);
    assert_eq!(d.get_mode_for_mime("image/png"), ReplacementMode::Base64);
}

#[test]
fn data_uri_holds_base64() {
    assert_eq!(bytes_to_data_uri("text/plain", b"hello"), "data:text/plain;base64,aGVsbG8=");
    assert_eq!(bytes_to_data_uri("image/png", &[]), "data:image/png;base64,");
    assert_eq!(bytes_to_data_uri("a/b", &[0xfb, 0xff]), "data:a/b;base64,+/8=");
}

#[test]
fn resources_follow_the_strategy() {
    let mut m = ResourceManager::with_default();
    assert!(m.should_inline("image/png"));
    assert_eq!(m.transform_resource("a.png", "image/png", b"hello"), "data:image/png;base64,aGVsbG8=");
    m.set_strategy(ReplacementStrategy {
        default: ReplacementMode::Keep,
        images: Some(ReplacementMode::BlobUrl),
        fonts: None,
        stylesheets: None,
        scripts: None,
    });
    assert!(!m.should_inline("text/css"));
    assert!(m.should_inline("image/png"));
    assert_eq!(m.transform_resource("a.css", "text/css", b"hello"), "a.css");
    assert_eq!(m.transform_resource("a.png", "image/png", b"hello"), "data:image/png;base64,aGVsbG8=");
    assert_eq!(m.get_blob_url("a.png"), None);
    m.register_blob("a.png".to_string(), "blob:1".to_string());
    m.register_blob("b.png".to_string(), "blob:2".to_string());
    m.register_blob("a.png".to_string(), "blob:3".to_string());
    assert_eq!(m.get_blob_url("a.png"), Some("blob:3".to_string()));
    assert_eq!(m.blob_registry.len(), 2);
    assert_eq!(m.transform_resource("a.png", "image/png", b"hello"), "blob:3");
    assert_eq!(m.transform_checked("b.png", "Image/PNG", b"hello"), "blob:2");
    let fresh = ResourceManager::new(ReplacementStrategy::default());
    assert_eq!(fresh.strategy, ReplacementStrategy::default());
}

#[test]
fn themes_register_and_replace() {
    let mut r = ThemeRegistry::new();
    assert!(r.list().is_empty());
    r.register("dark".to_string(), "body{color:#fff}".to_string());
    r.register_with_font("serif".to_string(), "p{}".to_string(), Some("Georgia".to_string()), Some(400));
    r.register("dark".to_string(), "body{color:#eee}".to_string());
    let names: Vec<String> = r.list().into_iter().map(|t| t.name).collect();
    assert_eq!(names, vec!["dark", "serif"]);
    assert_eq!(r.get_css("dark"), Some("body{color:#eee}".to_string()));
    assert_eq!(r.get_css("light"), None);
    let data = r.get_theme_data("serif").unwrap();
    assert_eq!(data.css, "p{}");
    assert_eq!(data.font_family, Some("Georgia".to_string()));
    assert_eq!(data.font_weight, Some(400));
    assert!(r.get_theme_data("dark").unwrap().font_family.is_none());
    assert!(r.get_theme_data("none").is_none());
}

#[test]
fn font_rules_are_one_on_each_line() {
    let mut r = ThemeRegistry::new();
    assert_eq!(r.get_font_css(), "");
    r.register_font(FontFace { family: "A".to_string(), src: "url(a.woff)".to_string(), weight: None, style: None });
    assert_eq!(r.get_font_css(), "@font-face { font-family: 'A'; src: url(a.woff); }");
    r.register_font(FontFace {
        family: "B".to_string(),
        src: "url(b.ttf)".to_string(),
        weight: Some(700),
        style: Some("italic".to_string()),
    });
    assert_eq!(
        r.get_font_css(),
        "@font-face { font-family: 'A'; src: url(a.woff); }\n@font-face { font-family: 'B'; src: url(b.ttf); font-weight: 700; font-style: italic; }"
    );
}

#[test]
fn style_sheet_leaves_out_empty_parts() {
    assert_eq!(combine_css("g", "b", "t"), "g\nb\nt");
    assert_eq!(combine_css("", "b", "t"), "b\nt");
    assert_eq!(combine_css("g", "", "t"), "g\nt");
    assert_eq!(combine_css("g", "b", ""), "g\nb");
    assert_eq!(combine_css("", "", "t"), "t");
    assert_eq!(combine_css("", "", ""), "");
}

#[test]
fn font_format_follows_path_and_media_type() {
    assert_eq!(font_format("fonts/a.woff2", "application/octet-stream"), "woff2");
    assert_eq!(font_format("fonts/a.bin", "font/woff2"), "woff2");
    assert_eq!(font_format("fonts/a.woff", ""), "woff");
    assert_eq!(font_format("fonts/a.otf", ""), "opentype");
    assert_eq!(font_format("x", "application/vnd.ms-opentype"), "opentype");
    assert_eq!(font_format("fonts/a.ttf", "font/ttf"), "truetype");
    let f = font_face_from_resource("My Font", "Fonts/A.WOFF", "font/woff", b"hello");
    assert_eq!(f.family, "My Font");
    assert_eq!(f.src, "url(data:font/woff;base64,aGVsbG8=) format('woff')");
    assert_eq!(f.weight, None);
    assert_eq!(f.style, None);
}

#[test]
fn shared_records() {
    assert_eq!(BookKind::Epub.to_string(), "epub");
    assert_eq!(BookKind::Pdf.to_string(), "pdf");
    let b = BookData::new(
        "id".to_string(),
        "pdf".to_string(),
        vec![1, 2],
        Some("T".to_string()),
        None,
        Some("P".to_string()),
        "/a.pdf".to_string(),
        "1".to_string(),
        Some("fallback".to_string()),
    );
    assert_eq!(b.version, 0);
    assert_eq!(b.kind, "pdf");
    assert_eq!(b.cover, vec![1, 2]);
    assert_eq!(b.author, None);
    assert_eq!(b.publisher, Some("P".to_string()));
    assert_eq!(b.cover_kind, Some("fallback".to_string()));
    assert_eq!(Pdf::new("/a.pdf").path, "/a.pdf");
    assert_eq!(Cover::Normal(vec![]).label(), "normal");
    assert_eq!(Cover::Fallback(vec![1]).label(), "fallback");
    assert_eq!(ErrorSeverity::Warning.label(), "WARNING");
    assert_eq!(ErrorSeverity::Critical.label(), "CRITICAL");
}
