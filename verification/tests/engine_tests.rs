use epub_engine::annotations::{Annotation, AnnotationKind};
use epub_engine::archive::{ArchiveEntry, EpubArchive};
use epub_engine::archive::ArchiveError;
use epub_engine::docs::{DocError, EpubDoc};
use epub_engine::xml::XmlError;
use std::io::Write;
use epub_engine::engine::{error_of, first_page_of, Engine, EngineError};
use epub_engine::events::{
    ErrorEvent, EVENT_ERROR, EVENT_LOCATION_CHANGED, EVENT_PLAY, EVENT_RENDERED,
};
use epub_engine::inline::{get_html_with_inlined_css, inline_styles, is_external_ref};
use epub_engine::layout::{LayoutOptions, SpreadMode};
use epub_engine::links::{rewrite_attr, rewrite_tree, styles_after};
use epub_engine::mapping::{PointToCFIRequest, Viewport};
use epub_engine::player::{PlayerCommand, PlayingState};
use epub_engine::replacements::{ReplacementMode, ReplacementStrategy};
use epub_engine::shared::ErrorSeverity;
use epub_engine::themes::FontFace;
use epub_engine::xml::parse_xml;

const CONTAINER: &str = "<container><rootfiles><rootfile full-path=\"content.opf\"/></rootfiles></container>";

const PACKAGE: &str = "<package version=\"3.0\"><metadata/><manifest>\
<item id=\"a\" href=\"a.xhtml\" media-type=\"application/xhtml+xml\"/>\
<item id=\"b\" href=\"text/b.xhtml\" media-type=\"application/xhtml+xml\"/>\
<item id=\"css\" href=\"style/main.css\" media-type=\"text/css\"/>\
<item id=\"img\" href=\"i.png\" media-type=\"image/png\"/>\
</manifest><spine page-progression-direction=\"ltr\"><itemref idref=\"a\"/><itemref idref=\"img\"/><itemref idref=\"b\"/></spine></package>";

fn entries() -> Vec<ArchiveEntry> {
    let e = |name: &str, data: &[u8]| ArchiveEntry { name: name.to_string(), data: Some(data.to_vec()) };
    vec![
        e("META-INF/container.xml", CONTAINER.as_bytes()),
        e("content.opf", PACKAGE.as_bytes()),
        e("a.xhtml", b"<html><body><p>alpha beta</p></body></html>"),
        e(
            "text/b.xhtml",
            b"<?xml version=\"1.0\"?><html><HEAD profile=\"x\"><link rel=\"stylesheet\" href=\"../style/main.css\"/><link rel='alternate stylesheet' href='missing.css'><link rel=\"stylesheet\" href=\"https://example.org/x.css\"><link rel=\"icon\" href=\"../i.png\"></HEAD><body><head>again</head>BETA <?pi x?>gamma<unclosed",
        ),
        e("style/main.css", b"p { margin: 0 }"),
        e("i.png", &[0xff, 2, 3]),
    ]
}

fn doc() -> EpubDoc {
    EpubDoc::from_archive(EpubArchive::from_entries(entries())).unwrap()
}

fn note(id: &str) -> Annotation {
    Annotation {
        id: id.to_string(),
        kind: AnnotationKind::Underline,
        cfi_range: "epubcfi(range(/0:0,/0:5))".to_string(),
        color: Some("#ff0".to_string()),
        note: None,
    }
}

#[test]
fn books_get_ascending_handles() {
    let mut e = Engine::new();
    let a = e.open_book(doc(), vec![]).unwrap();
    let b = e.open_book(doc(), vec![note("n")]).unwrap();
    assert_eq!((a, b), (1, 2));
    assert_eq!(e.session(b).unwrap().annotations.list().len(), 1);
    assert_eq!(e.close_book(a), Ok(()));
    assert_eq!(e.close_book(a), Err(EngineError::BookNotFound));
    assert_eq!(e.session(a).err(), Some(EngineError::BookNotFound));
    assert!(e.session(b).is_ok());
    let c = e.open_book(doc(), vec![]).unwrap();
    assert_eq!(c, 3);
}

#[test]
fn open_reports_the_kind_of_failure() {
    let mut e = Engine::new();
    assert_eq!(e.open(b"not a zip", vec![]), Err(EngineError::BadArchive));
    assert_eq!(e.books.len(), 0);
    assert_eq!(EngineError::BadArchive.name(), "BadArchive");
    assert_eq!(EngineError::ProxyError(500).name(), "ProxyError");
    assert_eq!(EngineError::LayoutNotComputed.name(), "LayoutNotComputed");
    e.next_id = u64::MAX;
    assert_eq!(e.open_book(doc(), vec![]), None);
}

fn zip_of(entries: &[(&str, &[u8])]) -> Vec<u8> {
    let mut w = zip::write::ZipWriter::new(std::io::Cursor::new(Vec::new()));
    for (name, data) in entries {
        w.start_file(*name, zip::write::FileOptions::default()).unwrap();
        w.write_all(data).unwrap();
    }
    w.finish().unwrap().into_inner()
}

#[test]
fn open_from_bytes_reports_each_failure() {
    let mut e = Engine::new();
    let no_container = zip_of(&[("mimetype", b"application/epub+zip")]);
    assert_eq!(e.open(&no_container, vec![]), Err(EngineError::InvalidEpub));
    let bad_container = zip_of(&[("META-INF/container.xml", b"<container>")]);
    assert_eq!(e.open(&bad_container, vec![]), Err(EngineError::Xml));
    let good = zip_of(&[
        ("META-INF/container.xml", CONTAINER.as_bytes()),
        ("content.opf", PACKAGE.as_bytes()),
        ("a.xhtml", b"<p>alpha</p>"),
    ]);
    assert_eq!(e.open(&good, vec![note("k")]), Ok(1));
    assert_eq!(e.annotations_list(1).unwrap().len(), 1);
    e.next_id = u64::MAX;
    assert_eq!(e.open(&good, vec![]), Err(EngineError::RegistryPoisoned));
    assert_eq!(e.books.len(), 1);
}

#[test]
fn failures_to_open_have_names() {
    assert_eq!(error_of(DocError::ArchiveError(ArchiveError::BadArchive)), EngineError::BadArchive);
    assert_eq!(error_of(DocError::ArchiveError(ArchiveError::Io)), EngineError::Io);
    assert_eq!(error_of(DocError::ArchiveError(ArchiveError::Utf8)), EngineError::Utf8);
    assert_eq!(error_of(DocError::ArchiveError(ArchiveError::EntryMissing)), EngineError::InvalidEpub);
    assert_eq!(error_of(DocError::XmlError(XmlError::Malformed)), EngineError::Xml);
    assert_eq!(error_of(DocError::XmlError(XmlError::NoContent)), EngineError::Xml);
    assert_eq!(error_of(DocError::IOError), EngineError::Io);
    assert_eq!(error_of(DocError::InvalidEpub), EngineError::InvalidEpub);
    let names = [
        (EngineError::BookNotFound, "BookNotFound"),
        (EngineError::InvalidEpub, "InvalidEpub"),
        (EngineError::InvalidCfi, "InvalidCfi"),
        (EngineError::NoPageFound, "NoPageFound"),
        (EngineError::ResourceNotFound, "ResourceNotFound"),
        (EngineError::AnnotationNotFound, "AnnotationNotFound"),
        (EngineError::Io, "Io"),
        (EngineError::Xml, "Xml"),
        (EngineError::Utf8, "Utf8"),
        (EngineError::RegistryPoisoned, "RegistryPoisoned"),
    ];
    for (e, n) in names {
        assert_eq!(e.name(), n);
    }
}

#[test]
fn requests_need_a_layout() {
    let mut e = Engine::new();
    let id = e.open_book(doc(), vec![]).unwrap();
    assert_eq!(e.layout(id).err(), Some(EngineError::LayoutNotComputed));
    assert_eq!(e.layout(99).err(), Some(EngineError::BookNotFound));
    assert_eq!(e.cfi_page_index(id, "epubcfi(/0:0)"), Err(EngineError::LayoutNotComputed));
    assert_eq!(e.paragraphs(id, 0, 0).err(), Some(EngineError::LayoutNotComputed));
    assert_eq!(e.render_plan(id, 0, 1).err(), Some(EngineError::LayoutNotComputed));
    assert_eq!(e.compute_layout(99, &LayoutOptions::default()), Err(EngineError::BookNotFound));
    assert_eq!(e.compute_layout(id, &LayoutOptions::default()), Ok(2));
    let plan = e.layout(id).unwrap();
    assert_eq!(plan.pages_per_spine, vec![1, 0, 1]);
    assert_eq!(plan.pages[0].end_char, 10);
    assert_eq!(plan.spread_mode, SpreadMode::Always);
}

#[test]
fn locations_resolve_to_pages() {
    let mut e = Engine::new();
    let id = e.open_book(doc(), vec![]).unwrap();
    e.compute_layout(id, &LayoutOptions::default()).unwrap();
    assert_eq!(e.cfi_page_index(id, "epubcfi(/2:3)"), Ok(1));
    assert_eq!(e.cfi_page_index(id, "epubcfi(/0:9)"), Ok(0));
    assert_eq!(e.cfi_page_index(id, "epubcfi(/0:10)"), Err(EngineError::NoPageFound));
    assert_eq!(e.cfi_page_index(id, "epubcfi(/1:0)"), Err(EngineError::NoPageFound));
    assert_eq!(e.cfi_page_index(id, "garbage"), Err(EngineError::InvalidCfi));
    assert_eq!(e.cfi_page_index(id, "epubcfi(/2)"), Err(EngineError::InvalidCfi));
    assert_eq!(e.cfi_page_index(5, "epubcfi(/2:3)"), Err(EngineError::BookNotFound));
    let req = PointToCFIRequest { spine_index: 0, x: 0, y: 50, viewport: Viewport { width: 10, height: 100 } };
    assert_eq!(e.point_to_cfi(id, &req), Ok("epubcfi(/0:5)".to_string()));
    let off = PointToCFIRequest { spine_index: 0, x: 0, y: 250, viewport: Viewport { width: 10, height: 100 } };
    assert_eq!(e.point_to_cfi(id, &off), Err(EngineError::NoPageFound));
    assert_eq!(e.href_to_page_index(id, "text/b.xhtml#x"), Ok(1));
    assert_eq!(e.href_to_page_index(id, "i.png"), Err(EngineError::NoPageFound));
    assert_eq!(e.href_to_page_index(id, "style/main.css"), Err(EngineError::ResourceNotFound));
    assert_eq!(first_page_of(e.layout(id).unwrap(), 2), Some(1));
    assert_eq!(first_page_of(e.layout(id).unwrap(), 1), None);
}

#[test]
fn search_and_paragraphs_go_through_the_engine() {
    let mut e = Engine::new();
    let id = e.open_book(doc(), vec![]).unwrap();
    e.compute_layout(id, &LayoutOptions::default()).unwrap();
    let hits = e.search(id, "beta", 10).unwrap();
    assert_eq!(hits.len(), 2);
    assert_eq!(hits[0].cfi, "epubcfi(/0:6)");
    assert_eq!(hits[0].excerpt, "alpha beta\n\n");
    assert_eq!(hits[1].cfi, "epubcfi(/2:5)");
    assert_eq!(e.search(0, "beta", 10).err(), Some(EngineError::BookNotFound));
    let ps = e.paragraphs(id, 0, 0).unwrap();
    assert_eq!(ps.len(), 1);
    assert_eq!(ps[0].text, "alpha beta");
}

#[test]
fn annotations_belong_to_their_book() {
    let mut e = Engine::new();
    let a = e.open_book(doc(), vec![]).unwrap();
    let b = e.open_book(doc(), vec![]).unwrap();
    assert_eq!(e.annotations_add(a, note("x")), Ok(()));
    assert_eq!(e.annotations_add(a, note("x")), Ok(()));
    assert_eq!(e.annotations_add(a, note("y")), Ok(()));
    assert_eq!(e.annotations_list(a).unwrap().len(), 2);
    assert!(e.annotations_list(b).unwrap().is_empty());
    assert_eq!(e.annotations_update(a, note("z")), Err(EngineError::AnnotationNotFound));
    assert_eq!(e.annotations_update(b, note("x")), Err(EngineError::AnnotationNotFound));
    assert_eq!(e.annotations_update(9, note("x")), Err(EngineError::BookNotFound));
    let mut changed = note("y");
    changed.note = Some("hi".to_string());
    assert_eq!(e.annotations_update(a, changed), Ok(()));
    assert_eq!(e.annotations_list(a).unwrap()[1].note, Some("hi".to_string()));
    assert_eq!(e.annotations_remove(a, "x"), Ok(()));
    assert_eq!(e.annotations_remove(a, "x"), Ok(()));
    assert_eq!(e.annotations_remove(7, "x"), Err(EngineError::BookNotFound));
    let left: Vec<String> = e.annotations_list(a).unwrap().into_iter().map(|n| n.id).collect();
    assert_eq!(left, vec!["y"]);
}

#[test]
fn player_is_made_on_first_use() {
    let mut e = Engine::new();
    let id = e.open_book(doc(), vec![]).unwrap();
    let mut p = e.player(id).unwrap();
    assert_eq!((p.book_id, p.current_page_index, p.state), (id, 0, PlayingState::Stopped));
    p.play();
    p.set_page(1);
    e.set_player(id, p).unwrap();
    assert_eq!(e.player(id).unwrap(), p);
    assert_eq!(e.player(77).err(), Some(EngineError::BookNotFound));
}

#[test]
fn player_commands_go_through_the_engine() {
    let mut e = Engine::new();
    let id = e.open_book(doc(), vec![]).unwrap();
    assert_eq!(e.player_command(id, PlayerCommand::Play, 0).err(), Some(EngineError::LayoutNotComputed));
    assert_eq!(e.player_command(3, PlayerCommand::Play, 0).err(), Some(EngineError::BookNotFound));
    e.compute_layout(id, &LayoutOptions::default()).unwrap();
    let (p, event) = e.player_command(id, PlayerCommand::Play, 0).unwrap();
    assert_eq!(p.state, PlayingState::Playing);
    let event = event.unwrap();
    assert_eq!((event.book_id, event.page_index, event.paragraph_index), (id, 0, 0));
    assert_eq!(event.text, "alpha beta");
    assert_eq!(event.cfi_range, "epubcfi(range(/0:0,/0:10))");
    let (p, event) = e.player_command(id, PlayerCommand::Next, 0).unwrap();
    assert_eq!((p.current_page_index, p.current_paragraph_index), (1, 0));
    assert!(event.is_none());
    let (_, event) = e.player_command(id, PlayerCommand::Resume, 100).unwrap();
    assert!(event.is_none());
    let (p, _) = e.player_command(id, PlayerCommand::Stop, 0).unwrap();
    assert_eq!(e.player(id).unwrap(), p);
    let d = doc();
    let list = vec![
        epub_engine::nav::NavItem { label: "1".to_string(), href: "text/b.xhtml#p1".to_string(), children: vec![] },
        epub_engine::nav::NavItem { label: "2".to_string(), href: "nowhere.xhtml".to_string(), children: vec![] },
        epub_engine::nav::NavItem { label: "3".to_string(), href: "a.xhtml".to_string(), children: vec![] },
    ];
    assert_eq!(d.page_list_spine_indices(&list), vec![Some(2), None, Some(0)]);
}

#[test]
fn style_sheet_of_a_book() {
    let mut e = Engine::new();
    let id = e.open_book(doc(), vec![]).unwrap();
    assert_eq!(e.book_css(id), Ok("".to_string()));
    e.themes.register("dark".to_string(), "body{}".to_string());
    e.themes.register_font(FontFace { family: "F".to_string(), src: "url(f)".to_string(), weight: None, style: None });
    assert_eq!(e.book_css(id), Ok("@font-face { font-family: 'F'; src: url(f); }".to_string()));
    e.apply_theme(id, "dark").unwrap();
    e.set_book_font_css(id, "@font-face { own }").unwrap();
    assert_eq!(
        e.book_css(id),
        Ok("@font-face { font-family: 'F'; src: url(f); }\n@font-face { own }\nbody{}".to_string())
    );
    e.apply_theme(id, "unknown").unwrap();
    assert_eq!(e.book_css(id), Ok("@font-face { font-family: 'F'; src: url(f); }\n@font-face { own }".to_string()));
    assert_eq!(e.apply_theme(4, "dark"), Err(EngineError::BookNotFound));
    e.set_strategy(
        id,
        ReplacementStrategy { default: ReplacementMode::Keep, images: None, fonts: None, stylesheets: None, scripts: None },
    )
    .unwrap();
    assert_eq!(e.session(id).unwrap().resources.as_ref().unwrap().strategy.default, ReplacementMode::Keep);
}

#[test]
fn blobs_are_registered_for_a_book() {
    let mut e = Engine::new();
    let id = e.open_book(doc(), vec![]).unwrap();
    assert!(e.is_consistent());
    assert_eq!(e.register_blob(id, "i.png".to_string(), "blob:1".to_string()), Ok(()));
    assert_eq!(e.register_blob(id, "i.png".to_string(), "blob:2".to_string()), Ok(()));
    assert_eq!(e.register_blob(8, "i.png".to_string(), "blob:3".to_string()), Err(EngineError::BookNotFound));
    let manager = e.session(id).unwrap().resources.as_ref().unwrap();
    assert_eq!(manager.get_blob_url("i.png"), Some("blob:2".to_string()));
    assert_eq!(manager.strategy, ReplacementStrategy::default());
    e.next_id = 1;
    assert!(!e.is_consistent());
}

#[test]
fn render_plan_holds_a_window_of_pages() {
    let mut e = Engine::new();
    let id = e.open_book(doc(), vec![note("n")]).unwrap();
    e.compute_layout(id, &LayoutOptions::default()).unwrap();
    let all = e.render_plan(id, 0, 10).unwrap();
    assert_eq!(all.total_pages, 2);
    assert_eq!(all.pages.len(), 2);
    assert_eq!(all.theme_css, None);
    assert_eq!(all.annotations.len(), 1);
    assert_eq!(all.page_progression_direction, Some("ltr".to_string()));
    let one = e.render_plan(id, 1, 1).unwrap();
    assert_eq!(one.pages.len(), 1);
    assert_eq!(one.pages[0].global_index, 1);
    assert!(e.render_plan(id, 2, 5).unwrap().pages.is_empty());
    assert!(e.render_plan(id, 0, 0).unwrap().pages.is_empty());
    e.themes.register("t".to_string(), "x{}".to_string());
    e.apply_theme(id, "t").unwrap();
    assert_eq!(e.render_plan(id, 0, 1).unwrap().theme_css, Some("x{}".to_string()));
}

#[test]
fn style_sheets_are_inlined() {
    let d = doc();
    let html = get_html_with_inlined_css(&d, "b").unwrap();
    assert_eq!(
        html,
        "<html><HEAD profile=\"x\"><base href=\"text/b.xhtml\"><style>p { margin: 0 }</style><link rel='alternate stylesheet' href='missing.css'><link rel=\"stylesheet\" href=\"https://example.org/x.css\"><link rel=\"icon\" href=\"../i.png\"></HEAD><body><head>again</head>BETA gamma<unclosed"
    );
    assert!(get_html_with_inlined_css(&d, "none").is_none());
    assert!(get_html_with_inlined_css(&d, "img").is_none());
    let plain = inline_styles("no tags at all", "a.xhtml", &d.archive);
    assert_eq!(plain, "no tags at all");
    let relative = inline_styles("<link href='style/main.css' rel='StyleSheet'>", "a.xhtml", &d.archive);
    assert_eq!(relative, "<style>p { margin: 0 }</style>");
    assert!(is_external_ref(&"//cdn.example/x.css".chars().collect()));
    assert!(is_external_ref(&"http://x".chars().collect()));
    assert!(!is_external_ref(&"/x.css".chars().collect()));
}

#[test]
fn references_become_epub_addresses() {
    assert_eq!(rewrite_attr("OEBPS/t/a.xhtml", "img", "src", "../i/p.png"), "epub://OEBPS/i/p.png");
    assert_eq!(rewrite_attr("OEBPS/t/a.xhtml", "a", "href", "b.xhtml"), "epub://OEBPS/t/b.xhtml");
    assert_eq!(rewrite_attr("OEBPS/t/a.xhtml", "link", "href", "http://x/y.css"), "http://x/y.css");
    assert_eq!(rewrite_attr("OEBPS/t/a.xhtml", "image", "href", "c.svg"), "epub://OEBPS/t/c.svg");
    assert_eq!(rewrite_attr("OEBPS/t/a.xhtml", "img", "href", "c.svg"), "c.svg");
    assert_eq!(rewrite_attr("OEBPS/t/a.xhtml", "script", "src", "c.js"), "c.js");
    let css = vec!["a{}".to_string(), "b{}".to_string()];
    assert_eq!(styles_after("head", &css), css);
    assert!(styles_after("Head", &css).is_empty());
    assert!(styles_after("body", &css).is_empty());
    assert!(styles_after("head", &Vec::new()).is_empty());
    let tree = parse_xml(b"<html><body><a href=\"x.html\" title=\"t\">go<img src=\"../p.png\" alt=\"p\"/></a></body></html>").unwrap();
    let out = rewrite_tree("OEBPS/t/a.xhtml", &tree);
    let a = out.find("a").unwrap();
    assert_eq!(a.get_attr("href"), Some("epub://OEBPS/t/x.html".to_string()));
    assert_eq!(a.get_attr("title"), Some("t".to_string()));
    assert_eq!(a.text, Some("go".to_string()));
    assert_eq!(a.find("img").unwrap().get_attr("src"), Some("epub://OEBPS/p.png".to_string()));
    assert_eq!(a.find("img").unwrap().get_attr("alt"), Some("p".to_string()));
}

#[test]
fn error_records_have_log_and_console_lines() {
    let e = ErrorEvent::new("2024-01-02T03:04:05+00:00".to_string(), "parse", "bad spine", ErrorSeverity::Warning);
    assert_eq!(e.log_line(), "[2024-01-02T03:04:05+00:00] [Warning:parse] book_id=None - bad spine\n");
    assert_eq!(e.console_line(), "[WARNING:parse] bad spine");
    let e = e.with_book_id(12).with_context("{\"k\":1}".to_string());
    assert_eq!(e.book_id, Some(12));
    assert_eq!(
        e.log_line(),
        "[2024-01-02T03:04:05+00:00] [Warning:parse] book_id=Some(12) - bad spine | context: {\"k\":1}\n"
    );
    assert_eq!(EVENT_RENDERED, "rendition://rendered");
    assert_eq!(EVENT_LOCATION_CHANGED, "rendition://locationChanged");
    assert_eq!(EVENT_PLAY, "player://play");
    assert_eq!(EVENT_ERROR, "epub-error");
}
