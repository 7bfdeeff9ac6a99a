use epub_engine::archive::{ArchiveEntry, ArchiveError, EpubArchive};
use epub_engine::docs::{DocError, EpubDoc, EpubVersion};
use epub_engine::layout::{compute_layout, LayoutOptions, PageRef, SpreadMode};
use epub_engine::locations::compute_locations;
use epub_engine::mapping::{cfi_to_page_index, offset_to_cfi};
use epub_engine::player::{paragraphs_for_page, paragraphs_for_page_internal};
use epub_engine::search::search;
use epub_engine::shared::{Epub, ExtractError, Extractable};
use std::io::{Cursor, Write};
use zip::write::{FileOptions, ZipWriter};
use zip::CompressionMethod;

const CONTAINER: &str = r#"<?xml version="1.0" encoding="UTF-8"?>
<container version="1.0" xmlns="urn:oasis:names:tc:opendocument:xmlns:container">
  <rootfiles>
    <rootfile full-path="OEBPS/content.opf" media-type="application/oebps-package+xml"/>
  </rootfiles>
</container>"#;

const PACKAGE: &str = r##"<?xml version="1.0" encoding="UTF-8"?>
<package xmlns="http://www.idpf.org/2007/opf" version="3.0" unique-identifier="bookid">
  <metadata xmlns:dc="http://purl.org/dc/elements/1.1/" xmlns:opf="http://www.idpf.org/2007/opf">
    <dc:title id="t1" xml:lang="en">The Test Book</dc:title>
    <dc:creator id="c1">Ada Author</dc:creator>
    <dc:publisher>Test Press</dc:publisher>
    <dc:identifier id="other">urn:other</dc:identifier>
    <dc:identifier id="bookid">urn:uuid:1234</dc:identifier>
    <meta property="dcterms:modified">2024-01-02T03:04:05Z</meta>
    <meta property="rendition:layout">reflowable</meta>
    <meta property="rendition:spread">auto</meta>
    <meta refines="#c1" property="role" scheme="marc:relators">aut</meta>
    <meta refines="#c1" property="file-as">Author, Ada</meta>
    <meta name="cover" content="cover-img"/>
  </metadata>
  <manifest>
    <item id="ch1" href="text/ch1.xhtml" media-type="application/xhtml+xml"/>
    <item id="ch2" href="text/ch2.xhtml" media-type="application/xhtml+xml"/>
    <item id="ch3" href="text/ch3.xhtml" media-type="application/xhtml+xml"/>
    <item id="nav" href="nav.xhtml" media-type="application/xhtml+xml" properties="nav"/>
    <item id="ncx" href="toc.ncx" media-type="application/x-dtbncx+xml"/>
    <item id="cover-img" href="images/cover.png" media-type="image/png" properties="cover-image"/>
    <item id="broken" media-type="text/css"/>
  </manifest>
  <spine toc="ncx" page-progression-direction="rtl">
    <itemref idref="ch1"/>
    <itemref idref="ch2" linear="no"/>
    <itemref idref="ch3" id="last" properties="page-spread-left"/>
    <itemref/>
  </spine>
  <guide>
    <reference type="cover" title="Cover" href="text/ch1.xhtml"/>
    <other/>
  </guide>
  <bindings>
    <mediaType media-type="application/x-demo" handler="ch1"/>
    <mediaType media-type="application/x-none"/>
  </bindings>
  <collection role="index">
    <link href="text/ch3.xhtml"/>
    <link href="text/ch1.xhtml" rel="first"/>
  </collection>
</package>"##;

const NCX: &str = r#"<?xml version="1.0" encoding="UTF-8"?>
<ncx xmlns="http://www.daisy.org/z3986/2005/ncx/" version="2005-1">
  <docTitle><text>Contents</text></docTitle>
  <navMap>
    <navPoint id="n3" playOrder="3"><navLabel><text>Third</text></navLabel><content src="text/ch3.xhtml"/></navPoint>
    <navPoint id="n1" playOrder="1"><navLabel><text>First</text></navLabel><content src="text/ch1.xhtml"/>
      <navPoint id="n1b" playOrder="5"><navLabel><text>Inner B</text></navLabel><content src="text/ch1.xhtml#b"/></navPoint>
      <navPoint id="n1a" playOrder="2"><navLabel><text>Inner A</text></navLabel><content src="text/ch1.xhtml#a"/></navPoint>
    </navPoint>
    <navPoint id="nx"><navLabel><text>Unordered</text></navLabel><content src="text/ch2.xhtml"/></navPoint>
    <navPoint id="bad" playOrder="4"><navLabel><text>No content</text></navLabel></navPoint>
  </navMap>
</ncx>"#;

const NAV: &str = r#"<?xml version="1.0" encoding="UTF-8"?>
<html xmlns="http://www.w3.org/1999/xhtml" xmlns:epub="http://www.idpf.org/2007/ops">
<head><title>Nav</title></head>
<body>
  <nav epub:type="toc">
    <h1>Contents</h1>
    <ol>
      <li><a href="text/ch1.xhtml">One</a>
        <ol><li><a href="text/ch1.xhtml#s"><span>Sub</span></a></li></ol>
      </li>
      <li><span>no link</span></li>
      <li><a href="text/ch3.xhtml">Three</a></li>
    </ol>
  </nav>
  <nav epub:type="landmarks"><ol><li><a href="text/ch1.xhtml" epub:type="bodymatter">Start</a></li></ol></nav>
</body>
</html>"#;

fn chapter(text: &str) -> String {
    format!(
        "<?xml version=\"1.0\"?><html xmlns=\"http://www.w3.org/1999/xhtml\"><head><title></title></head><body>{}</body></html>",
        text
    )
}

fn sample_entries() -> Vec<(String, Vec<u8>)> {
    let first = format!("<p>{}</p><p>{}</p>", "a".repeat(57) + "Fox", "b".repeat(40));
    vec![
        ("mimetype".to_string(), b"application/epub+zip".to_vec()),
        ("META-INF/container.xml".to_string(), CONTAINER.as_bytes().to_vec()),
        ("OEBPS/content.opf".to_string(), PACKAGE.as_bytes().to_vec()),
        ("OEBPS/toc.ncx".to_string(), NCX.as_bytes().to_vec()),
        ("OEBPS/nav.xhtml".to_string(), NAV.as_bytes().to_vec()),
        ("OEBPS/text/ch1.xhtml".to_string(), chapter(&first).into_bytes()),
        ("OEBPS/text/ch2.xhtml".to_string(), chapter("<p></p>").into_bytes()),
        ("OEBPS/text/ch3.xhtml".to_string(), chapter(&format!("<p>{}</p>", "c fox C".repeat(35) + "12345")).into_bytes()),
        ("OEBPS/images/cover.png".to_string(), vec![0x89, b'P', b'N', b'G', 0xff, 0x00]),
    ]
}

fn zip_of(entries: &[(String, Vec<u8>)]) -> Vec<u8> {
    let mut w = ZipWriter::new(Cursor::new(Vec::new()));
    for (i, (name, data)) in entries.iter().enumerate() {
        let method = if i % 2 == 0 { CompressionMethod::Stored } else { CompressionMethod::Deflated };
        w.start_file(name.as_str(), FileOptions::default().compression_method(method)).unwrap();
        w.write_all(data).unwrap();
    }
    w.finish().unwrap().into_inner()
}

fn sample_doc() -> EpubDoc {
    EpubDoc::from_reader(&zip_of(&sample_entries())).unwrap()
}

fn doc_from(entries: Vec<(String, Vec<u8>)>) -> Result<EpubDoc, DocError> {
    let files = entries.into_iter().map(|(name, data)| ArchiveEntry { name, data: Some(data) }).collect();
    EpubDoc::from_archive(EpubArchive::from_entries(files))
}

#[test]
fn archive_reads_entries_of_a_zip() {
    let entries = sample_entries();
    let archive = EpubArchive::from_bytes(&zip_of(&entries)).unwrap();
    assert_eq!(archive.list_entries(), entries.iter().map(|e| e.0.clone()).collect::<Vec<_>>());
    assert_eq!(archive.get_entry("OEBPS/images/cover.png").unwrap(), entries[8].1);
    assert_eq!(archive.get_entry_as_str("mimetype").unwrap(), "application/epub+zip");
    assert_eq!(archive.get_entry("missing").err(), Some(ArchiveError::EntryMissing));
    assert_eq!(archive.get_entry_as_str("OEBPS/images/cover.png").err(), Some(ArchiveError::Utf8));
    assert!(archive.has_entry("OEBPS/toc.ncx"));
    assert!(!archive.has_entry("oebps/toc.ncx"));
}

#[test]
fn archive_rejects_bytes_that_are_no_zip() {
    assert_eq!(EpubArchive::from_bytes(b"this is not a zip").err(), Some(ArchiveError::BadArchive));
    assert_eq!(EpubArchive::from_bytes(&[]).err(), Some(ArchiveError::BadArchive));
    assert!(matches!(EpubDoc::from_reader(b"nope"), Err(DocError::ArchiveError(ArchiveError::BadArchive))));
}

#[test]
fn archive_reports_an_entry_that_cannot_be_read_when_it_is_asked_for() {
    let payload = b"0123456789abcdefghijklmnopqrstuvwxyz".to_vec();
    let mut w = ZipWriter::new(Cursor::new(Vec::new()));
    w.start_file("data.bin", FileOptions::default().compression_method(CompressionMethod::Stored)).unwrap();
    w.write_all(&payload).unwrap();
    w.start_file("fine.txt", FileOptions::default().compression_method(CompressionMethod::Stored)).unwrap();
    w.write_all(b"fine").unwrap();
    let mut bytes = w.finish().unwrap().into_inner();
    let at = bytes.windows(payload.len()).position(|win| win == &payload[..]).unwrap();
    bytes[at + 3] ^= 0xff;
    let archive = EpubArchive::from_bytes(&bytes).unwrap();
    assert_eq!(archive.list_entries(), vec!["data.bin".to_string(), "fine.txt".to_string()]);
    assert_eq!(archive.get_entry("data.bin").err(), Some(ArchiveError::Io));
    assert_eq!(archive.get_entry_as_str("data.bin").err(), Some(ArchiveError::Io));
    assert_eq!(archive.get_entry("fine.txt").unwrap(), b"fine".to_vec());
    assert!(archive.has_entry("data.bin"));
    assert!(archive.files[0].data.is_none());
}

#[test]
fn book_opens_beside_an_entry_that_cannot_be_read() {
    let mut entries = sample_entries();
    let payload = b"an unrelated entry that will be damaged".to_vec();
    entries.push(("OEBPS/extra.bin".to_string(), payload.clone()));
    let mut w = ZipWriter::new(Cursor::new(Vec::new()));
    for (name, data) in entries.iter() {
        w.start_file(name.as_str(), FileOptions::default().compression_method(CompressionMethod::Stored)).unwrap();
        w.write_all(data).unwrap();
    }
    let mut bytes = w.finish().unwrap().into_inner();
    let at = bytes.windows(payload.len()).position(|win| win == &payload[..]).unwrap();
    bytes[at] ^= 0xff;
    let doc = EpubDoc::from_reader(&bytes).unwrap();
    assert_eq!(doc.get_title(), Some("The Test Book".to_string()));
    assert_eq!(doc.get_resource_by_path("OEBPS/extra.bin"), None);
    assert_eq!(doc.archive.get_entry("OEBPS/extra.bin").err(), Some(ArchiveError::Io));
}

#[test]
fn book_does_not_open_where_a_needed_entry_cannot_be_read() {
    let mut files: Vec<ArchiveEntry> =
        sample_entries().into_iter().map(|(name, data)| ArchiveEntry { name, data: Some(data) }).collect();
    files[2].data = None;
    let r = EpubDoc::from_archive(EpubArchive::from_entries(files));
    assert!(matches!(r, Err(DocError::ArchiveError(ArchiveError::Io))));
    let mut files: Vec<ArchiveEntry> =
        sample_entries().into_iter().map(|(name, data)| ArchiveEntry { name, data: Some(data) }).collect();
    files[1].data = None;
    let r = EpubDoc::from_archive(EpubArchive::from_entries(files));
    assert!(matches!(r, Err(DocError::ArchiveError(ArchiveError::Io))));
}

#[test]
fn open_says_which_xml_failure_it_met() {
    let mut entries = sample_entries();
    entries[2].1 = b"<package><manifest></package>".to_vec();
    assert!(matches!(doc_from(entries), Err(DocError::XmlError(epub_engine::xml::XmlError::Malformed))));
    let mut entries = sample_entries();
    entries[1].1 = b"<?xml version=\"1.0\"?><!-- nothing -->".to_vec();
    assert!(matches!(
        doc_from(entries),
        Err(DocError::XmlError(epub_engine::xml::XmlError::Malformed))
            | Err(DocError::XmlError(epub_engine::xml::XmlError::NoContent))
    ));
}

#[test]
fn fixed_layout_needs_the_value_letter_for_letter() {
    let package = |layout: &str| {
        format!(
            "<package version=\"3.0\"><metadata><meta property=\"rendition:layout\">{}</meta></metadata><manifest><item id=\"a\" href=\"text/ch1.xhtml\" media-type=\"application/xhtml+xml\"/></manifest><spine><itemref idref=\"a\"/></spine></package>",
            layout
        )
        .into_bytes()
    };
    let mut entries = sample_entries();
    entries[2].1 = package("pre-paginated");
    let doc = doc_from(entries).unwrap();
    assert!(epub_engine::layout::is_fixed_layout(&doc));
    assert!(compute_layout(&doc, &LayoutOptions::default()).is_fixed_layout);
    for other in ["Pre-paginated", "PRE-PAGINATED", "pre-paginated ", "reflowable", ""] {
        let mut entries = sample_entries();
        entries[2].1 = package(other);
        let doc = doc_from(entries).unwrap();
        assert!(!epub_engine::layout::is_fixed_layout(&doc), "{:?}", other);
        assert!(!compute_layout(&doc, &LayoutOptions::default()).is_fixed_layout);
    }
}

#[test]
fn archive_last_entry_of_a_name_wins() {
    let a = EpubArchive::from_entries(vec![
        ArchiveEntry { name: "x".to_string(), data: Some(vec![1]) },
        ArchiveEntry { name: "x".to_string(), data: Some(vec![2]) },
    ]);
    assert_eq!(a.get_entry("x").unwrap(), vec![2]);
}

#[test]
fn open_reads_version_spine_and_resources() {
    let doc = sample_doc();
    assert!(matches!(doc.version, EpubVersion::Version3_0));
    assert_eq!(doc.root_file, "OEBPS/content.opf");
    assert_eq!(doc.root_base, "OEBPS");
    assert_eq!(doc.get_num_chapters(), 3);
    assert_eq!(doc.get_num_pages(), 3);
    assert_eq!(doc.spine[0].idref, "ch1");
    assert!(doc.spine[0].linear);
    assert!(!doc.spine[1].linear);
    assert_eq!(doc.spine[2].id, Some("last".to_string()));
    assert_eq!(doc.spine[2].properties, Some("page-spread-left".to_string()));
    assert_eq!(doc.resources.len(), 6);
    assert_eq!(doc.resources[0].id, "ch1");
    assert_eq!(doc.resources[0].item.path, "OEBPS/text/ch1.xhtml");
    assert_eq!(doc.get_resource_mime("cover-img"), Some("image/png".to_string()));
    assert_eq!(doc.get_resource_mime("broken"), None);
    assert_eq!(doc.get_resource_mime_by_path("OEBPS/toc.ncx"), Some("application/x-dtbncx+xml".to_string()));
    assert_eq!(doc.page_progression_direction, Some("rtl".to_string()));
    assert_eq!(doc.rendition_layout, Some("reflowable".to_string()));
    assert_eq!(doc.rendition_spread, Some("auto".to_string()));
    assert_eq!(doc.rendition_flow, None);
}

#[test]
fn open_reads_metadata_and_refinements() {
    let doc = sample_doc();
    assert_eq!(doc.get_title(), Some("The Test Book".to_string()));
    let title = doc.mdata("title").unwrap();
    assert_eq!(title.lang, Some("en".to_string()));
    assert_eq!(title.id, Some("t1".to_string()));
    let creator = doc.mdata("creator").unwrap();
    assert_eq!(creator.value, "Ada Author");
    assert_eq!(creator.refined.len(), 2);
    assert_eq!(creator.refinement("role").unwrap().value, "aut");
    assert_eq!(creator.refinement("role").unwrap().scheme, Some("marc:relators".to_string()));
    assert_eq!(creator.refinement("file-as").unwrap().value, "Author, Ada");
    assert!(creator.refinement("none").is_none());
    assert_eq!(doc.mdata("cover").unwrap().value, "cover-img");
    assert!(doc.mdata("role").is_none());
    assert_eq!(doc.unique_identifier, Some("urn:uuid:1234".to_string()));
    assert_eq!(doc.get_release_identifier(), Some("urn:uuid:1234@2024-01-02T03:04:05Z".to_string()));
    assert_eq!(doc.metadata.len(), 9);
}

#[test]
fn open_reads_guide_bindings_and_collections() {
    let doc = sample_doc();
    assert_eq!(doc.guides.len(), 1);
    assert_eq!(doc.guides[0].kind, Some("cover".to_string()));
    assert_eq!(doc.guides[0].href, Some("text/ch1.xhtml".to_string()));
    assert_eq!(doc.bindings.len(), 1);
    assert_eq!(doc.bindings[0].media_type, "application/x-demo");
    assert_eq!(doc.bindings[0].handler, "ch1");
    assert_eq!(doc.collections.len(), 1);
    assert_eq!(doc.collections[0].role, Some("index".to_string()));
    assert_eq!(doc.collections[0].links.len(), 2);
    assert_eq!(doc.collections[0].links[0].rel, None);
    assert_eq!(doc.collections[0].links[1].rel, Some("first".to_string()));
}

#[test]
fn open_reads_table_of_contents_in_play_order() {
    let doc = sample_doc();
    assert_eq!(doc.toc_title, "Contents");
    let labels: Vec<&str> = doc.toc.iter().map(|p| p.label.as_str()).collect();
    assert_eq!(labels, vec!["Unordered", "First", "Third"]);
    assert_eq!(doc.toc[0].play_order, None);
    assert_eq!(doc.toc[1].play_order, Some(1));
    assert_eq!(doc.toc[1].content, "OEBPS/text/ch1.xhtml");
    let inner: Vec<&str> = doc.toc[1].children.iter().map(|p| p.label.as_str()).collect();
    assert_eq!(inner, vec!["Inner A", "Inner B"]);
    assert_eq!(doc.resource_uri_to_chapter(&doc.toc[2].content), Some(2));
}

#[test]
fn navigation_document_lists() {
    let doc = sample_doc();
    assert_eq!(doc.get_nav_id(), Some("nav".to_string()));
    let nav = doc.get_nav_data().unwrap();
    assert_eq!(nav.toc.len(), 2);
    assert_eq!(nav.toc[0].label, "One");
    assert_eq!(nav.toc[0].href, "text/ch1.xhtml");
    assert_eq!(nav.toc[0].children.len(), 1);
    assert_eq!(nav.toc[0].children[0].label, "Sub");
    assert_eq!(nav.toc[0].children[0].href, "text/ch1.xhtml#s");
    assert_eq!(nav.toc[1].label, "Three");
    assert!(nav.page_list.is_empty());
    assert_eq!(nav.landmarks.len(), 1);
    assert_eq!(nav.landmarks[0].label, "Start");
}

#[test]
fn cover_is_the_resource_marked_cover_image() {
    let doc = sample_doc();
    assert_eq!(doc.get_cover_id(), Some("cover-img".to_string()));
    let (bytes, mime) = doc.get_cover().unwrap();
    assert_eq!(bytes, vec![0x89, b'P', b'N', b'G', 0xff, 0x00]);
    assert_eq!(mime, "image/png");
}

#[test]
fn resources_by_id_and_path() {
    let doc = sample_doc();
    assert_eq!(doc.get_resource_by_path("mimetype"), Some(b"application/epub+zip".to_vec()));
    assert_eq!(doc.get_resource_by_path("nothing"), None);
    assert_eq!(doc.get_resource_str_by_path("mimetype"), Some("application/epub+zip".to_string()));
    assert_eq!(doc.get_resource_str_by_path("OEBPS/images/cover.png"), None);
    let (text, mime) = doc.get_resource_str("ch2").unwrap();
    assert!(text.contains("<p></p>"));
    assert_eq!(mime, "application/xhtml+xml");
    assert!(doc.get_resource("unknown").is_none());
    assert!(doc.get_resource_str("cover-img").is_none());
    assert!(doc.get_resource("cover-img").is_some());
}

#[test]
fn current_chapter_moves_within_the_spine() {
    let mut doc = sample_doc();
    assert_eq!(doc.get_current_chapter(), 0);
    assert_eq!(doc.get_current_id(), Some("ch1".to_string()));
    assert_eq!(doc.get_current_path(), Some("OEBPS/text/ch1.xhtml".to_string()));
    assert_eq!(doc.get_current_mime(), Some("application/xhtml+xml".to_string()));
    assert!(!doc.go_prev());
    assert!(doc.go_next());
    assert!(doc.go_next());
    assert!(!doc.go_next());
    assert_eq!(doc.get_current_page(), 2);
    assert_eq!(doc.get_current_id(), Some("ch3".to_string()));
    assert!(doc.go_prev());
    assert_eq!(doc.get_current_chapter(), 1);
    assert!(doc.set_current_chapter(2));
    assert!(!doc.set_current_chapter(3));
    assert!(!doc.set_current_page(50));
    assert!(doc.set_current_page(0));
    assert!(doc.get_current().is_some());
    assert!(doc.get_current_str().unwrap().0.contains("bbbb"));
}

#[test]
fn href_resolves_to_spine_index() {
    let mut doc = sample_doc();
    assert_eq!(doc.href_to_spine_index("text/ch3.xhtml#frag"), Some(2));
    assert_eq!(doc.href_to_spine_index("text/ch1.xhtml"), Some(0));
    assert_eq!(doc.href_to_spine_index("nav.xhtml"), None);
    assert_eq!(doc.href_to_spine_index("text/none.xhtml"), None);
    assert_eq!(doc.resource_id_to_chapter("ch2"), Some(1));
    assert_eq!(doc.resource_id_to_chapter("nav"), None);
    assert_eq!(doc.convert_path_seps("a/b.css"), "OEBPS/a/b.css");
    doc.add_extra_css("body { color: red }");
    assert_eq!(doc.extra_css, vec!["body { color: red }".to_string()]);
}

#[test]
fn open_fails_without_container_package_manifest_or_spine() {
    let mut entries = sample_entries();
    entries.retain(|e| e.0 != "META-INF/container.xml");
    assert!(matches!(doc_from(entries), Err(DocError::InvalidEpub)));

    let mut entries = sample_entries();
    entries.retain(|e| e.0 != "OEBPS/content.opf");
    assert!(matches!(doc_from(entries), Err(DocError::InvalidEpub)));

    let mut entries = sample_entries();
    entries[2].1 = b"<package version=\"2.0\"><spine/></package>".to_vec();
    assert!(matches!(doc_from(entries), Err(DocError::InvalidEpub)));

    let mut entries = sample_entries();
    entries[2].1 = b"<package version=\"2.0\"><manifest/></package>".to_vec();
    assert!(matches!(doc_from(entries), Err(DocError::InvalidEpub)));

    let mut entries = sample_entries();
    entries[1].1 = b"<container><rootfiles/></container>".to_vec();
    assert!(matches!(doc_from(entries), Err(DocError::InvalidEpub)));

    let mut entries = sample_entries();
    entries[2].1 = b"<package><manifest></package>".to_vec();
    assert!(matches!(doc_from(entries), Err(DocError::XmlError(_))));
}

#[test]
fn open_treats_missing_metadata_as_empty() {
    let mut entries = sample_entries();
    entries[2].1 = b"<package version=\"2.0\"><manifest><item id=\"a\" href=\"a.html\" media-type=\"text/html\"/><item id=\"a\" href=\"b.html\" media-type=\"text/html\"/></manifest><spine><itemref idref=\"a\"/></spine></package>".to_vec();
    let doc = doc_from(entries).unwrap();
    assert!(matches!(doc.version, EpubVersion::Version2_0));
    assert!(doc.metadata.is_empty());
    assert!(doc.toc.is_empty());
    assert_eq!(doc.unique_identifier, None);
    assert_eq!(doc.get_cover_id(), None);
    assert_eq!(doc.get_nav_id(), None);
    assert!(doc.get_nav_data().is_none());
    assert_eq!(doc.resources.len(), 1);
    assert_eq!(doc.resources[0].item.path, "OEBPS/b.html");
    assert_eq!(doc.get_title(), None);
    assert_eq!(doc.get_release_identifier(), None);
}

#[test]
fn epub2_attributes_become_refinements() {
    let mut entries = sample_entries();
    entries[2].1 = br#"<package xmlns="http://www.idpf.org/2007/opf" version="2.0" unique-identifier="id">
<metadata xmlns:dc="http://purl.org/dc/elements/1.1/" xmlns:opf="http://www.idpf.org/2007/opf">
<dc:creator opf:role="aut" opf:file-as="B, A" id="x">A B</dc:creator>
<dc:identifier id="id" opf:scheme="ISBN">123</dc:identifier>
<meta name="cover" content="c"/>
</metadata>
<manifest><item id="c" href="c.jpg" media-type="image/jpeg"/></manifest><spine/></package>"#.to_vec();
    let doc = doc_from(entries).unwrap();
    let creator = doc.mdata("creator").unwrap();
    assert_eq!(creator.refined.len(), 2);
    assert_eq!(creator.refinement("role").unwrap().value, "aut");
    assert_eq!(creator.refinement("file-as").unwrap().value, "B, A");
    assert_eq!(doc.unique_identifier, Some("123".to_string()));
    assert_eq!(doc.get_cover_id(), Some("c".to_string()));
    assert!(doc.get_cover().is_none());
    assert_eq!(Epub::new("/books/a.epub").book_data(&doc).err(), Some(ExtractError::NoCover));
}

#[test]
fn layout_of_an_opened_book() {
    let doc = sample_doc();
    let plan = compute_layout(&doc, &LayoutOptions::default());
    assert_eq!(plan.pages_per_spine, vec![1, 0, 1]);
    assert_eq!(plan.total_pages, 2);
    assert_eq!(
        plan.pages,
        vec![
            PageRef { global_index: 0, spine_index: 0, start_char: 0, end_char: 100 },
            PageRef { global_index: 1, spine_index: 2, start_char: 0, end_char: 250 },
        ]
    );
    assert_eq!(plan.spread_mode, SpreadMode::Always);
    assert_eq!(plan.spreads.len(), 1);
    assert_eq!(plan.reading_direction, Some("rtl".to_string()));
    assert!(!plan.is_fixed_layout);
    assert_eq!(cfi_to_page_index(&plan, &offset_to_cfi(2, 249)), Some(1));
}

#[test]
fn locations_of_an_opened_book() {
    let doc = sample_doc();
    let r = compute_locations(&doc, 100);
    assert_eq!(r.by_spine, vec![1, 0, 2]);
    assert_eq!(r.total, 3);
    assert_eq!(r.locations[2].char_offset, 200);
    assert_eq!(r.locations[2].section_len, 250);
}

#[test]
fn search_finds_occurrences_without_regard_to_case() {
    let doc = sample_doc();
    let hits = search(&doc, "FOX", 50);
    assert_eq!(hits.len(), 36);
    assert_eq!(hits[0].cfi, "epubcfi(/0:57)");
    assert_eq!(hits[0].excerpt, "a".repeat(30) + "Fox\n\n" + &"b".repeat(28));
    assert_eq!(hits[1].cfi, "epubcfi(/2:2)");
    assert_eq!(hits[2].cfi, "epubcfi(/2:9)");
    let few = search(&doc, "fox", 3);
    assert_eq!(few.len(), 3);
    assert_eq!(few[2].cfi, "epubcfi(/2:9)");
    assert!(search(&doc, "fox", 0).is_empty());
    assert!(search(&doc, "", 10).is_empty());
    assert!(search(&doc, "absent", 10).is_empty());
}

#[test]
fn paragraphs_of_a_page() {
    let doc = sample_doc();
    let plan = compute_layout(&doc, &LayoutOptions::default());
    let all = paragraphs_for_page(&doc, &plan, 0, 0);
    assert_eq!(all.len(), 2);
    assert_eq!(all[0].text, "a".repeat(57) + "Fox");
    assert_eq!(all[0].cfi_range, "epubcfi(range(/0:0,/0:60))");
    assert_eq!(all[1].text, "b".repeat(40));
    assert_eq!(all[1].cfi_range, "epubcfi(range(/0:61,/0:100))");
    let long = paragraphs_for_page(&doc, &plan, 0, 50);
    assert_eq!(long.len(), 1);
    assert_eq!(long[0].cfi_range, "epubcfi(range(/0:0,/0:60))");
    assert!(paragraphs_for_page(&doc, &plan, 7, 0).is_empty());
}

#[test]
fn paragraphs_below_the_default_length_are_dropped() {
    let doc = sample_doc();
    let plan = compute_layout(&doc, &LayoutOptions::default());
    let kept = paragraphs_for_page_internal(&doc, &plan, 0);
    assert_eq!(kept.len(), 1);
    assert_eq!(kept[0].text, "a".repeat(57) + "Fox");
    assert_eq!(kept[0].cfi_range, "epubcfi(range(/0:0,/0:60))");
    for p in paragraphs_for_page_internal(&doc, &plan, 1) {
        assert!(p.text.chars().count() >= 50);
    }
    assert!(paragraphs_for_page_internal(&doc, &plan, 9).is_empty());
}

#[test]
fn library_entry_of_a_book() {
    let doc = sample_doc();
    let epub = Epub::new("abc");
    let entry = epub.extract(&doc).unwrap();
    assert_eq!(entry.id, "900150983cd24fb0d6963f7d28e17f72");
    assert_eq!(entry.kind, "epub");
    assert_eq!(entry.title, Some("The Test Book".to_string()));
    assert_eq!(entry.author, Some("Ada Author".to_string()));
    assert_eq!(entry.publisher, Some("Test Press".to_string()));
    assert_eq!(entry.file_path, "abc");
    assert_eq!(entry.current_location, "");
    assert_eq!(entry.cover, vec![0x89, b'P', b'N', b'G', 0xff, 0x00]);
    assert_eq!(entry.cover_kind, None);
    assert_eq!(entry.version, 0);
}
