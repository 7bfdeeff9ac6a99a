//! The opened book: package data, resources, spine and reading position.

use crate::archive::{
    archive_of, entry_data, entry_lookup, entry_text, ArchiveEntryView, ArchiveError, EpubArchive,
};
use crate::metadata::{metadata_of, read_metadata};
use crate::nav::{nav_data_of, parse_nav_document, NavData, NavDataView};
use crate::package::{
    find_resource, guides_of, read_guides, read_manifest, read_spine, read_unique_id,
    read_version, resource_index, resources_upto, spine_upto, unique_id_of, unique_ids,
    version_of,
};
use crate::packaging::{
    extras_of, parse_packaging_extras, Binding, BindingView, Collection, CollectionView,
};
use crate::paths::{join_path, joined_path, parent_of, parent_path, strip_fragment, without_fragment};
use crate::text::{
    chars_of, contains_word, extend_chars, has_word, lemma_views_push, opt_view, str_eq,
    string_of, views,
};
use crate::toc::{read_toc, read_toc_title, toc_of, toc_title_of};
use crate::xml::{
    attr_of, descendant_of, parse_xml, xml_failure, xml_tree, XmlError, XmlNode, XmlNodeView,
};
use vstd::prelude::*;

verus! {

/// Why a book could not be opened.
#[derive(Debug)]
pub enum DocError {
    ArchiveError(ArchiveError),
    XmlError(XmlError),
    IOError,
    InvalidEpub,
}

/// The `version` attribute of the package document.
#[derive(Debug)]
pub enum EpubVersion {
    Version2_0,
    Version3_0,
    Unknown(String),
}

/// The mathematical model of `EpubVersion`.
pub enum EpubVersionView {
    Version2_0,
    Version3_0,
    Unknown(Seq<char>),
}

impl View for EpubVersion {
    type V = EpubVersionView;

    open spec fn view(&self) -> EpubVersionView {
        match *self {
            EpubVersion::Version2_0 => EpubVersionView::Version2_0,
            EpubVersion::Version3_0 => EpubVersionView::Version3_0,
            EpubVersion::Unknown(s) => EpubVersionView::Unknown(s@),
        }
    }
}

/// An entry of the NCX table of contents.
#[derive(Debug)]
pub struct NavPoint {
    /// The title of this entry.
    pub label: String,
    /// Container path of the content it points to.
    pub content: String,
    /// Nested entries, ordered as this list is.
    pub children: Vec<NavPoint>,
    /// Position in reading order, where the document gives one.
    pub play_order: Option<usize>,
}

/// The mathematical model of `NavPoint`.
pub struct NavPointView {
    pub label: Seq<char>,
    pub content: Seq<char>,
    pub children: Seq<NavPointView>,
    pub play_order: Option<usize>,
}

/// The entry that a `NavPoint` stands for.
pub open spec fn navpoint_view(n: NavPoint) -> NavPointView
    decreases n,
{
    NavPointView {
        label: n.label@,
        content: n.content@,
        children: Seq::new(
            n.children@.len(),
            |i: int|
                if 0 <= i < n.children@.len() {
                    navpoint_view(n.children@[i])
                } else {
                    arbitrary()
                },
        ),
        play_order: n.play_order,
    }
}

impl View for NavPoint {
    type V = NavPointView;

    open spec fn view(&self) -> NavPointView {
        navpoint_view(*self)
    }
}

/// The model of a navigation point shows its fields as they are.
pub proof fn lemma_navpoint_view(n: NavPoint)
    ensures
        n@.children == views(n.children@),
        n@.label == n.label@,
        n@.content == n.content@,
        n@.play_order == n.play_order,
{
    assert(n@.children =~= views(n.children@));
}

/// A subexpression that refines a metadata item.
#[derive(Debug)]
pub struct MetadataRefinement {
    pub property: String,
    pub value: String,
    pub lang: Option<String>,
    pub scheme: Option<String>,
}

/// The mathematical model of `MetadataRefinement`.
pub struct MetadataRefinementView {
    pub property: Seq<char>,
    pub value: Seq<char>,
    pub lang: Option<Seq<char>>,
    pub scheme: Option<Seq<char>>,
}

impl View for MetadataRefinement {
    type V = MetadataRefinementView;

    open spec fn view(&self) -> MetadataRefinementView {
        MetadataRefinementView {
            property: self.property@,
            value: self.value@,
            lang: opt_view(self.lang),
            scheme: opt_view(self.scheme),
        }
    }
}

/// A metadata item of the package document.
#[derive(Debug)]
pub struct MetadataItem {
    pub id: Option<String>,
    pub property: String,
    pub value: String,
    pub lang: Option<String>,
    pub refined: Vec<MetadataRefinement>,
}

/// The mathematical model of `MetadataItem`.
pub struct MetadataItemView {
    pub id: Option<Seq<char>>,
    pub property: Seq<char>,
    pub value: Seq<char>,
    pub lang: Option<Seq<char>>,
    pub refined: Seq<MetadataRefinementView>,
}

impl View for MetadataItem {
    type V = MetadataItemView;

    open spec fn view(&self) -> MetadataItemView {
        MetadataItemView {
            id: opt_view(self.id),
            property: self.property@,
            value: self.value@,
            lang: opt_view(self.lang),
            refined: views(self.refined@),
        }
    }
}

/// Index of the first refinement at or after `from` with the given property,
/// or `-1`.
pub open spec fn refinement_index(
    refined: Seq<MetadataRefinementView>,
    property: Seq<char>,
    from: int,
) -> int
    decreases refined.len() - from,
{
    if from < 0 || from >= refined.len() {
        -1
    } else if refined[from].property == property {
        from
    } else {
        refinement_index(refined, property, from + 1)
    }
}

impl MetadataItem {
    /// The first refinement with the given property.
    pub fn refinement(&self, property: &str) -> (r: Option<&MetadataRefinement>)
        ensures
            match r {
                Some(x) => {
                    let i = refinement_index(self@.refined, property@, 0);
                    0 <= i < self.refined@.len() && *x == self.refined@[i]
                },
                None => refinement_index(self@.refined, property@, 0) == -1,
            },
    {
        let mut i: usize = 0;
        while i < self.refined.len()
            invariant
                i <= self.refined.len(),
                refinement_index(self@.refined, property@, 0) == refinement_index(
                    self@.refined,
                    property@,
                    i as int,
                ),
            decreases self.refined.len() - i,
        {
            assert(self@.refined[i as int] == self.refined@[i as int]@);
            if str_eq(self.refined[i].property.as_str(), property) {
                return Some(&self.refined[i]);
            }
            i += 1;
        }
        None
    }
}

/// An entry of the spine: a reference to a manifest item, in reading order.
#[derive(Debug)]
pub struct SpineItem {
    pub idref: String,
    pub id: Option<String>,
    pub properties: Option<String>,
    pub linear: bool,
}

/// The mathematical model of `SpineItem`.
pub struct SpineItemView {
    pub idref: Seq<char>,
    pub id: Option<Seq<char>>,
    pub properties: Option<Seq<char>>,
    pub linear: bool,
}

impl View for SpineItem {
    type V = SpineItemView;

    open spec fn view(&self) -> SpineItemView {
        SpineItemView {
            idref: self.idref@,
            id: opt_view(self.id),
            properties: opt_view(self.properties),
            linear: self.linear,
        }
    }
}

/// A manifest item: where a resource lies in the container and what it is.
#[derive(Debug)]
pub struct ResourceItem {
    pub path: String,
    pub mime: String,
    pub properties: Option<String>,
}

/// The mathematical model of `ResourceItem`.
pub struct ResourceItemView {
    pub path: Seq<char>,
    pub mime: Seq<char>,
    pub properties: Option<Seq<char>>,
}

impl View for ResourceItem {
    type V = ResourceItemView;

    open spec fn view(&self) -> ResourceItemView {
        ResourceItemView {
            path: self.path@,
            mime: self.mime@,
            properties: opt_view(self.properties),
        }
    }
}

/// A manifest item under its id.
#[derive(Debug)]
pub struct ResourceEntry {
    pub id: String,
    pub item: ResourceItem,
}

/// The mathematical model of `ResourceEntry`.
pub struct ResourceEntryView {
    pub id: Seq<char>,
    pub item: ResourceItemView,
}

impl View for ResourceEntry {
    type V = ResourceEntryView;

    open spec fn view(&self) -> ResourceEntryView {
        ResourceEntryView { id: self.id@, item: self.item@ }
    }
}

/// A reference of the EPUB 2 guide.
#[derive(Debug)]
pub struct GuideRef {
    pub kind: Option<String>,
    pub title: Option<String>,
    pub href: Option<String>,
}

/// The mathematical model of `GuideRef`.
pub struct GuideRefView {
    pub kind: Option<Seq<char>>,
    pub title: Option<Seq<char>>,
    pub href: Option<Seq<char>>,
}

impl View for GuideRef {
    type V = GuideRefView;

    open spec fn view(&self) -> GuideRefView {
        GuideRefView {
            kind: opt_view(self.kind),
            title: opt_view(self.title),
            href: opt_view(self.href),
        }
    }
}

/// The opened book.
///
/// Holds the entries of the container, what the package document declares,
/// and the current position in the spine.
#[derive(Debug)]
pub struct EpubDoc {
    /// The container.
    pub archive: EpubArchive,
    /// The current chapter: an index into the spine.
    pub current: usize,
    /// Version of the package document.
    pub version: EpubVersion,
    /// The reading order.
    pub spine: Vec<SpineItem>,
    /// The manifest: resources under distinct ids, in manifest order.
    pub resources: Vec<ResourceEntry>,
    /// The NCX table of contents.
    pub toc: Vec<NavPoint>,
    /// Title of the table of contents.
    pub toc_title: String,
    /// The metadata items, in document order.
    pub metadata: Vec<MetadataItem>,
    /// Directory of the package document.
    pub root_base: String,
    /// Path of the package document.
    pub root_file: String,
    /// Style sheets to add to every content document.
    pub extra_css: Vec<String>,
    /// The unique identifier.
    pub unique_identifier: Option<String>,
    /// The spine's page progression direction.
    pub page_progression_direction: Option<String>,
    /// The EPUB 2 guide.
    pub guides: Vec<GuideRef>,
    pub rendition_layout: Option<String>,
    pub rendition_flow: Option<String>,
    pub rendition_orientation: Option<String>,
    pub rendition_spread: Option<String>,
    /// The EPUB 3 bindings.
    pub bindings: Vec<Binding>,
    /// The EPUB 3 collections.
    pub collections: Vec<Collection>,
}

/// The mathematical model of `Doc`.
pub struct DocView {
    pub archive: Seq<ArchiveEntryView>,
    pub current: int,
    pub version: EpubVersionView,
    pub spine: Seq<SpineItemView>,
    pub resources: Seq<ResourceEntryView>,
    pub toc: Seq<NavPointView>,
    pub toc_title: Seq<char>,
    pub metadata: Seq<MetadataItemView>,
    pub root_base: Seq<char>,
    pub root_file: Seq<char>,
    pub extra_css: Seq<Seq<char>>,
    pub unique_identifier: Option<Seq<char>>,
    pub page_progression_direction: Option<Seq<char>>,
    pub guides: Seq<GuideRefView>,
    pub rendition_layout: Option<Seq<char>>,
    pub rendition_flow: Option<Seq<char>>,
    pub rendition_orientation: Option<Seq<char>>,
    pub rendition_spread: Option<Seq<char>>,
    pub bindings: Seq<BindingView>,
    pub collections: Seq<CollectionView>,
}

impl View for EpubDoc {
    type V = DocView;

    open spec fn view(&self) -> DocView {
        DocView {
            archive: self.archive@,
            current: self.current as int,
            version: self.version@,
            spine: views(self.spine@),
            resources: views(self.resources@),
            toc: views(self.toc@),
            toc_title: self.toc_title@,
            metadata: views(self.metadata@),
            root_base: self.root_base@,
            root_file: self.root_file@,
            extra_css: views(self.extra_css@),
            unique_identifier: opt_view(self.unique_identifier),
            page_progression_direction: opt_view(self.page_progression_direction),
            guides: views(self.guides@),
            rendition_layout: opt_view(self.rendition_layout),
            rendition_flow: opt_view(self.rendition_flow),
            rendition_orientation: opt_view(self.rendition_orientation),
            rendition_spread: opt_view(self.rendition_spread),
            bindings: views(self.bindings@),
            collections: views(self.collections@),
        }
    }
}

/// Why opening fails, as the contracts speak of it.
pub enum OpenFailure {
    /// The container could not be read.
    Archive(ArchiveError),
    /// The container file or the package document is no XML document.
    Xml(XmlError),
    /// The container holds no book.
    InvalidEpub,
}

/// Index of the first metadata item at or after `from` with the given
/// property, or `-1`.
pub open spec fn metadata_index(items: Seq<MetadataItemView>, property: Seq<char>, from: int) -> int
    decreases items.len() - from,
{
    if from < 0 || from >= items.len() {
        -1
    } else if items[from].property == property {
        from
    } else {
        metadata_index(items, property, from + 1)
    }
}

/// Value of the first metadata item with the given property.
pub open spec fn metadata_value(items: Seq<MetadataItemView>, property: Seq<char>) -> Option<
    Seq<char>,
> {
    let i = metadata_index(items, property, 0);
    if 0 <= i < items.len() {
        Some(items[i].value)
    } else {
        None
    }
}

/// Index of the first resource at or after `from` whose path is `path`, or
/// `-1`.
pub open spec fn path_index(list: Seq<ResourceEntryView>, path: Seq<char>, from: int) -> int
    decreases list.len() - from,
{
    if from < 0 || from >= list.len() {
        -1
    } else if list[from].item.path == path {
        from
    } else {
        path_index(list, path, from + 1)
    }
}

/// Index of the first resource at or after `from` whose properties list the
/// word `word`, or `-1`.
pub open spec fn property_index(list: Seq<ResourceEntryView>, word: Seq<char>, from: int) -> int
    decreases list.len() - from,
{
    if from < 0 || from >= list.len() {
        -1
    } else if list[from].item.properties is Some && has_word(
        list[from].item.properties->0,
        word,
    ) {
        from
    } else {
        property_index(list, word, from + 1)
    }
}

/// Index of the first spine item at or after `from` that refers to `idref`,
/// or `-1`.
pub open spec fn spine_position(spine: Seq<SpineItemView>, idref: Seq<char>, from: int) -> int
    decreases spine.len() - from,
{
    if from < 0 || from >= spine.len() {
        -1
    } else if spine[from].idref == idref {
        from
    } else {
        spine_position(spine, idref, from + 1)
    }
}

/// Id of the first resource whose properties list `word`.
pub open spec fn id_with_property(list: Seq<ResourceEntryView>, word: Seq<char>) -> Option<
    Seq<char>,
> {
    let i = property_index(list, word, 0);
    if 0 <= i < list.len() {
        Some(list[i].id)
    } else {
        None
    }
}

/// The id of the cover: in EPUB 3 the resource marked `cover-image`, else
/// the value of the `cover` metadata item.
pub open spec fn cover_id_of(d: DocView) -> Option<Seq<char>> {
    if d.version is Version3_0 {
        id_with_property(d.resources, "cover-image"@)
    } else {
        metadata_value(d.metadata, "cover"@)
    }
}

/// The id of the navigation document: in EPUB 3 the resource marked `nav`.
pub open spec fn nav_id_of(d: DocView) -> Option<Seq<char>> {
    if d.version is Version3_0 {
        id_with_property(d.resources, "nav"@)
    } else {
        None
    }
}

/// Bytes and media type of the resource with the given id.
pub open spec fn resource_of_id(d: DocView, id: Seq<char>) -> Option<(Seq<u8>, Seq<char>)> {
    let i = resource_index(d.resources, id, 0);
    if 0 <= i < d.resources.len() {
        match entry_data(d.archive, d.resources[i].item.path) {
            Some(b) => Some((b, d.resources[i].item.mime)),
            None => None,
        }
    } else {
        None
    }
}

/// Text and media type of the resource with the given id.
pub open spec fn resource_text_of_id(d: DocView, id: Seq<char>) -> Option<(Seq<char>, Seq<char>)> {
    let i = resource_index(d.resources, id, 0);
    if 0 <= i < d.resources.len() {
        match entry_text(d.archive, d.resources[i].item.path) {
            Some(t) => Some((t, d.resources[i].item.mime)),
            None => None,
        }
    } else {
        None
    }
}

/// Media type of the resource with the given id.
pub open spec fn mime_of_id(d: DocView, id: Seq<char>) -> Option<Seq<char>> {
    let i = resource_index(d.resources, id, 0);
    if 0 <= i < d.resources.len() {
        Some(d.resources[i].item.mime)
    } else {
        None
    }
}

/// Path of the resource with the given id.
pub open spec fn path_of_id(d: DocView, id: Seq<char>) -> Option<Seq<char>> {
    let i = resource_index(d.resources, id, 0);
    if 0 <= i < d.resources.len() {
        Some(d.resources[i].item.path)
    } else {
        None
    }
}

/// The id that the current spine item refers to.
pub open spec fn current_id_of(d: DocView) -> Option<Seq<char>> {
    if 0 <= d.current < d.spine.len() {
        Some(d.spine[d.current].idref)
    } else {
        None
    }
}

/// Spine position of the resource with the given id.
pub open spec fn chapter_of_id(d: DocView, id: Seq<char>) -> Option<int> {
    let i = spine_position(d.spine, id, 0);
    if 0 <= i < d.spine.len() {
        Some(i)
    } else {
        None
    }
}

/// Spine position of the resource at the given path.
pub open spec fn chapter_of_path(d: DocView, path: Seq<char>) -> Option<int> {
    let i = path_index(d.resources, path, 0);
    if 0 <= i < d.resources.len() {
        chapter_of_id(d, d.resources[i].id)
    } else {
        None
    }
}

/// The model of an optional value.
pub open spec fn bytes_pair_view(r: Option<(Vec<u8>, String)>) -> Option<(Seq<u8>, Seq<char>)> {
    match r {
        Some(p) => Some((p.0@, p.1@)),
        None => None,
    }
}

/// The model of an optional value.
pub open spec fn text_pair_view(r: Option<(String, String)>) -> Option<(Seq<char>, Seq<char>)> {
    match r {
        Some(p) => Some((p.0@, p.1@)),
        None => None,
    }
}

/// The model of an optional value.
pub open spec fn opt_bytes_view(r: Option<Vec<u8>>) -> Option<Seq<u8>> {
    match r {
        Some(b) => Some(b@),
        None => None,
    }
}

/// The model of an optional value.
pub open spec fn opt_index_view(r: Option<usize>) -> Option<int> {
    match r {
        Some(i) => Some(i as int),
        None => None,
    }
}

/// The model of an optional value.
pub open spec fn opt_nav_view(r: Option<NavData>) -> Option<NavDataView> {
    match r {
        Some(d) => Some(d@),
        None => None,
    }
}

/// The element tree of the NCX document that the spine names, where the
/// manifest lists it, the container holds it and it parses.
pub open spec fn ncx_tree(
    resources: Seq<ResourceEntryView>,
    entries: Seq<ArchiveEntryView>,
    toc_id: Option<Seq<char>>,
) -> Option<XmlNodeView> {
    match toc_id {
        Some(id) => {
            let i = resource_index(resources, id, 0);
            if 0 <= i < resources.len() {
                match entry_data(entries, resources[i].item.path) {
                    Some(b) => xml_tree(b),
                    None => None,
                }
            } else {
                None
            }
        },
        None => None,
    }
}

/// The book that a package document describes. It needs a manifest and a
/// spine; anything else that is missing comes out empty.
pub open spec fn package_of(
    root: XmlNodeView,
    root_file: Seq<char>,
    entries: Seq<ArchiveEntryView>,
) -> Result<DocView, OpenFailure> {
    let base = parent_of(root_file);
    match (descendant_of(root, "manifest"@), descendant_of(root, "spine"@)) {
        (Some(manifest), Some(spine)) => {
            let resources = resources_upto(
                manifest.children,
                base,
                manifest.children.len() as int,
            );
            let ncx = ncx_tree(resources, entries, attr_of(spine, "toc"@));
            let metadata = match descendant_of(root, "metadata"@) {
                Some(md) => metadata_of(md, version_of(root) is Version3_0),
                None => Seq::empty(),
            };
            let extras = extras_of(root);
            Ok(
                DocView {
                    archive: entries,
                    current: 0,
                    version: version_of(root),
                    spine: spine_upto(spine.children, spine.children.len() as int),
                    resources,
                    toc: match ncx {
                        Some(t) => toc_of(t, base),
                        None => Seq::empty(),
                    },
                    toc_title: match ncx {
                        Some(t) => toc_title_of(t),
                        None => Seq::empty(),
                    },
                    metadata,
                    root_base: base,
                    root_file,
                    extra_css: Seq::empty(),
                    unique_identifier: unique_id_of(metadata, attr_of(root, "unique-identifier"@)),
                    page_progression_direction: extras.page_progression_direction,
                    guides: guides_of(root),
                    rendition_layout: extras.rendition_layout,
                    rendition_flow: extras.rendition_flow,
                    rendition_orientation: extras.rendition_orientation,
                    rendition_spread: extras.rendition_spread,
                    bindings: extras.bindings,
                    collections: extras.collections,
                },
            )
        },
        _ => Err(OpenFailure::InvalidEpub),
    }
}

/// The path of the package document that a container file names.
pub open spec fn root_file_in(container: XmlNodeView) -> Option<Seq<char>> {
    match descendant_of(container, "rootfile"@) {
        Some(rf) => attr_of(rf, "full-path"@),
        None => None,
    }
}

/// What reading a document that opening needs yields: its element tree;
/// `InvalidEpub` where the container has no such entry, `Archive(Io)` where
/// the entry cannot be read, `Xml` where it is no XML document.
pub open spec fn needed_tree(entries: Seq<ArchiveEntryView>, name: Seq<char>) -> Result<
    XmlNodeView,
    OpenFailure,
> {
    match entry_lookup(entries, name) {
        Err(ArchiveError::EntryMissing) => Err(OpenFailure::InvalidEpub),
        Err(e) => Err(OpenFailure::Archive(e)),
        Ok(bytes) => match xml_tree(bytes) {
            Some(tree) => Ok(tree),
            None => Err(OpenFailure::Xml(xml_failure(bytes))),
        },
    }
}

/// The book that the entries of a container hold.
pub open spec fn doc_of(entries: Seq<ArchiveEntryView>) -> Result<DocView, OpenFailure> {
    match needed_tree(entries, "META-INF/container.xml"@) {
        Err(f) => Err(f),
        Ok(container) => match root_file_in(container) {
            None => Err(OpenFailure::InvalidEpub),
            Some(root_file) => match needed_tree(entries, root_file) {
                Err(f) => Err(f),
                Ok(root) => package_of(root, root_file, entries),
            },
        },
    }
}

/// The book that the bytes of a container hold.
pub open spec fn book_of(bytes: Seq<u8>) -> Result<DocView, OpenFailure> {
    match archive_of(bytes) {
        Err(e) => Err(OpenFailure::Archive(e)),
        Ok(entries) => doc_of(entries),
    }
}

/// The failure that an error stands for.
pub open spec fn failure_of(e: DocError) -> OpenFailure {
    match e {
        DocError::ArchiveError(a) => OpenFailure::Archive(a),
        DocError::XmlError(x) => OpenFailure::Xml(x),
        DocError::IOError => OpenFailure::Archive(ArchiveError::Io),
        DocError::InvalidEpub => OpenFailure::InvalidEpub,
    }
}

/// The model of an outcome.
pub open spec fn open_outcome(r: Result<EpubDoc, DocError>) -> Result<DocView, OpenFailure> {
    match r {
        Ok(d) => Ok(d@),
        Err(e) => Err(failure_of(e)),
    }
}

/// Reads the path of the package document out of the container file.
pub fn get_root_file(container: &XmlNode) -> (r: Option<String>)
    ensures
        opt_view(r) == root_file_in(container@),
{
    match container.find("rootfile") {
        Some(rf) => rf.get_attr("full-path"),
        None => None,
    }
}

impl EpubDoc {
    /// The resources have distinct ids and the current chapter lies in the
    /// spine (or is `0` where the spine is empty).
    pub open spec fn wf(&self) -> bool {
        &&& unique_ids(views(self.resources@))
        &&& (self.current < self.spine@.len() || self.current == 0)
    }

    /// Builds the book that a package document describes.
    ///
    /// `root` is the element tree of the package document found at
    /// `root_file`. Fails with `InvalidEpub` exactly when the document lacks
    /// a manifest or a spine.
    pub fn from_package(root: &XmlNode, root_file: &str, archive: EpubArchive) -> (r: Result<
        EpubDoc,
        DocError,
    >)
        ensures
            open_outcome(r) == package_of(root@, root_file@, archive@),
            r is Ok ==> r->Ok_0.wf(),
    {
        let root_base = parent_path(root_file);
        let manifest = match root.find("manifest") {
            Some(m) => m,
            None => {
                return Err(DocError::InvalidEpub);
            },
        };
        let spine_node = match root.find("spine") {
            Some(s) => s,
            None => {
                return Err(DocError::InvalidEpub);
            },
        };
        let version = read_version(root);
        let resources = read_manifest(manifest, root_base.as_str());
        let spine = read_spine(spine_node);
        let mut toc: Vec<NavPoint> = Vec::new();
        let mut toc_title = String::new();
        assert(views(toc@) =~= Seq::<NavPointView>::empty());
        let ncx: Option<XmlNode> = match spine_node.get_attr("toc") {
            Some(id) => match find_resource(&resources, id.as_str()) {
                Some(i) => {
                    assert(views(resources@)[i as int] == resources@[i as int]@);
                    match archive.get_entry(resources[i].item.path.as_str()) {
                        Ok(bytes) => match parse_xml(bytes.as_slice()) {
                            Ok(t) => Some(t),
                            Err(_) => None,
                        },
                        Err(_) => None,
                    }
                },
                None => None,
            },
            None => None,
        };
        match &ncx {
            Some(t) => {
                toc_title = read_toc_title(t);
                toc = read_toc(t, root_base.as_str());
            },
            None => {},
        }
        let is_v3 = match version {
            EpubVersion::Version3_0 => true,
            _ => false,
        };
        let metadata = match root.find("metadata") {
            Some(md) => read_metadata(md, is_v3),
            None => {
                let v: Vec<MetadataItem> = Vec::new();
                assert(views(v@) =~= Seq::<MetadataItemView>::empty());
                v
            },
        };
        let extras = parse_packaging_extras(root);
        let guides = read_guides(root);
        let uid = root.get_attr("unique-identifier");
        let unique_identifier = read_unique_id(&metadata, &uid);
        let extra_css: Vec<String> = Vec::new();
        assert(views(extra_css@) =~= Seq::<Seq<char>>::empty());
        let doc = EpubDoc {
            archive,
            current: 0,
            version,
            spine,
            resources,
            toc,
            toc_title,
            metadata,
            root_base,
            root_file: root_file.to_string(),
            extra_css,
            unique_identifier,
            page_progression_direction: extras.page_progression_direction,
            guides,
            rendition_layout: extras.rendition_layout,
            rendition_flow: extras.rendition_flow,
            rendition_orientation: extras.rendition_orientation,
            rendition_spread: extras.rendition_spread,
            bindings: extras.bindings,
            collections: extras.collections,
        };
        Ok(doc)
    }

    /// Reads a document that opening needs.
    fn read_needed(archive: &EpubArchive, name: &str) -> (r: Result<XmlNode, DocError>)
        ensures
            match r {
                Ok(t) => needed_tree(archive@, name@) == Ok::<XmlNodeView, OpenFailure>(t@),
                Err(e) => needed_tree(archive@, name@) == Err::<XmlNodeView, OpenFailure>(
                    failure_of(e),
                ),
            },
    {
        let bytes = match archive.get_entry(name) {
            Ok(b) => b,
            Err(ArchiveError::EntryMissing) => {
                return Err(DocError::InvalidEpub);
            },
            Err(e) => {
                return Err(DocError::ArchiveError(e));
            },
        };
        match parse_xml(bytes.as_slice()) {
            Ok(t) => Ok(t),
            Err(e) => Err(DocError::XmlError(e)),
        }
    }

    /// Opens the book held by the entries of a container.
    ///
    /// Fails with `InvalidEpub` where the container file, the package
    /// document it names, the manifest or the spine is missing; with
    /// `ArchiveError(Io)` where the container file or the package document
    /// cannot be read; and with `XmlError` where one of them is no XML
    /// document, `Malformed` or `NoContent` as the parser finds it.
    pub fn from_archive(archive: EpubArchive) -> (r: Result<EpubDoc, DocError>)
        ensures
            open_outcome(r) == doc_of(archive@),
            r is Ok ==> r->Ok_0.wf(),
    {
        let container = match EpubDoc::read_needed(&archive, "META-INF/container.xml") {
            Ok(t) => t,
            Err(e) => {
                return Err(e);
            },
        };
        let root_file = match get_root_file(&container) {
            Some(p) => p,
            None => {
                return Err(DocError::InvalidEpub);
            },
        };
        let root = match EpubDoc::read_needed(&archive, root_file.as_str()) {
            Ok(t) => t,
            Err(e) => {
                return Err(e);
            },
        };
        EpubDoc::from_package(&root, root_file.as_str(), archive)
    }

    /// Opens the book held in the bytes of a container.
    ///
    /// Fails with `ArchiveError(BadArchive)` where the bytes are no archive,
    /// and as `from_archive` does otherwise. An entry that cannot be read
    /// keeps the book from opening only where opening needs it.
    pub fn from_reader(reader: &[u8]) -> (r: Result<EpubDoc, DocError>)
        ensures
            open_outcome(r) == book_of(reader@),
            r is Ok ==> r->Ok_0.wf(),
    {
        match EpubArchive::from_bytes(reader) {
            Ok(archive) => EpubDoc::from_archive(archive),
            Err(e) => Err(DocError::ArchiveError(e)),
        }
    }
}

impl EpubDoc {
    /// Position of the first metadata item with the given property.
    fn metadata_position(&self, property: &str) -> (r: Option<usize>)
        ensures
            match r {
                Some(i) => i < self.metadata.len() && i as int == metadata_index(
                    self@.metadata,
                    property@,
                    0,
                ),
                None => metadata_index(self@.metadata, property@, 0) == -1,
            },
    {
        let mut i: usize = 0;
        while i < self.metadata.len()
            invariant
                i <= self.metadata.len(),
                metadata_index(self@.metadata, property@, 0) == metadata_index(
                    self@.metadata,
                    property@,
                    i as int,
                ),
            decreases self.metadata.len() - i,
        {
            assert(self@.metadata[i as int] == self.metadata@[i as int]@);
            if str_eq(self.metadata[i].property.as_str(), property) {
                return Some(i);
            }
            i += 1;
        }
        None
    }

    /// The first metadata item with the given property.
    pub fn mdata(&self, property: &str) -> (r: Option<&MetadataItem>)
        ensures
            match r {
                Some(m) => {
                    let i = metadata_index(self@.metadata, property@, 0);
                    0 <= i < self@.metadata.len() && m@ == self@.metadata[i]
                },
                None => metadata_index(self@.metadata, property@, 0) == -1,
            },
    {
        match self.metadata_position(property) {
            Some(i) => {
                assert(self@.metadata[i as int] == self.metadata@[i as int]@);
                Some(&self.metadata[i])
            },
            None => None,
        }
    }

    /// Value of the first metadata item with the given property.
    fn mdata_value(&self, property: &str) -> (r: Option<String>)
        ensures
            opt_view(r) == metadata_value(self@.metadata, property@),
    {
        match self.mdata(property) {
            Some(m) => Some(m.value.clone()),
            None => None,
        }
    }

    /// The primary title: the value of the first `title` item.
    pub fn get_title(&self) -> (r: Option<String>)
        ensures
            opt_view(r) == metadata_value(self@.metadata, "title"@),
    {
        self.mdata_value("title")
    }

    /// Id of the first resource whose properties list `word`.
    fn resource_with_property(&self, word: &str) -> (r: Option<String>)
        ensures
            opt_view(r) == id_with_property(self@.resources, word@),
    {
        let w = chars_of(word);
        let mut i: usize = 0;
        while i < self.resources.len()
            invariant
                i <= self.resources.len(),
                w@ == word@,
                property_index(self@.resources, word@, 0) == property_index(
                    self@.resources,
                    word@,
                    i as int,
                ),
            decreases self.resources.len() - i,
        {
            assert(self@.resources[i as int] == self.resources@[i as int]@);
            let hit = match &self.resources[i].item.properties {
                Some(ps) => {
                    let pv = chars_of(ps.as_str());
                    contains_word(&pv, &w)
                },
                None => false,
            };
            if hit {
                return Some(self.resources[i].id.clone());
            }
            i += 1;
        }
        None
    }

    /// Id of the cover. It need not name a resource.
    pub fn get_cover_id(&self) -> (r: Option<String>)
        ensures
            opt_view(r) == cover_id_of(self@),
    {
        match self.version {
            EpubVersion::Version3_0 => self.resource_with_property("cover-image"),
            _ => self.mdata_value("cover"),
        }
    }

    /// Id of the navigation document (EPUB 3 only).
    pub fn get_nav_id(&self) -> (r: Option<String>)
        ensures
            opt_view(r) == nav_id_of(self@),
    {
        match self.version {
            EpubVersion::Version3_0 => self.resource_with_property("nav"),
            _ => None,
        }
    }

    /// The navigation data of the book: what the navigation document
    /// holds, where the book has one that can be read and parsed.
    pub fn get_nav_data(&self) -> (r: Option<NavData>)
        ensures
            opt_nav_view(r) == match nav_id_of(self@) {
                Some(id) => match resource_of_id(self@, id) {
                    Some(p) => match xml_tree(p.0) {
                        Some(root) => Some(nav_data_of(root)),
                        None => None,
                    },
                    None => None,
                },
                None => None,
            },
    {
        let nav_id = match self.get_nav_id() {
            Some(id) => id,
            None => {
                return None;
            },
        };
        match self.get_resource(nav_id.as_str()) {
            Some((bytes, _mime)) => match parse_nav_document(bytes.as_slice()) {
                Ok(d) => Some(d),
                Err(_) => None,
            },
            None => None,
        }
    }

    /// Bytes and media type of the cover.
    pub fn get_cover(&self) -> (r: Option<(Vec<u8>, String)>)
        ensures
            bytes_pair_view(r) == match cover_id_of(self@) {
                Some(id) => resource_of_id(self@, id),
                None => None,
            },
    {
        match self.get_cover_id() {
            Some(cid) => self.get_resource(cid.as_str()),
            None => None,
        }
    }

    /// The release identifier: the unique identifier, `@`, and the value of
    /// `dcterms:modified`; `None` where either is missing.
    pub fn get_release_identifier(&self) -> (r: Option<String>)
        ensures
            opt_view(r) == match (
                self@.unique_identifier,
                metadata_value(self@.metadata, "dcterms:modified"@),
            ) {
                (Some(u), Some(m)) => Some(u + seq!['@'] + m),
                _ => None,
            },
    {
        match (&self.unique_identifier, self.mdata_value("dcterms:modified")) {
            (Some(u), Some(m)) => {
                let mut out = chars_of(u.as_str());
                out.push('@');
                let mv = chars_of(m.as_str());
                extend_chars(&mut out, &mv);
                assert(out@ =~= u@ + seq!['@'] + m@);
                Some(string_of(&out))
            },
            _ => None,
        }
    }

    /// Bytes of the container entry at `path`.
    pub fn get_resource_by_path(&self, path: &str) -> (r: Option<Vec<u8>>)
        ensures
            opt_bytes_view(r) == entry_data(self@.archive, path@),
    {
        match self.archive.get_entry(path) {
            Ok(b) => Some(b),
            Err(_) => None,
        }
    }

    /// Bytes and media type of the resource with the given id.
    pub fn get_resource(&self, id: &str) -> (r: Option<(Vec<u8>, String)>)
        ensures
            bytes_pair_view(r) == resource_of_id(self@, id@),
    {
        match find_resource(&self.resources, id) {
            Some(i) => {
                assert(self@.resources[i as int] == self.resources@[i as int]@);
                let mime = self.resources[i].item.mime.clone();
                match self.get_resource_by_path(self.resources[i].item.path.as_str()) {
                    Some(content) => Some((content, mime)),
                    None => None,
                }
            },
            None => None,
        }
    }

    /// Text of the container entry at `path`, where it is valid UTF-8.
    pub fn get_resource_str_by_path(&self, path: &str) -> (r: Option<String>)
        ensures
            opt_view(r) == entry_text(self@.archive, path@),
    {
        match self.archive.get_entry_as_str(path) {
            Ok(s) => Some(s),
            Err(_) => None,
        }
    }

    /// Text and media type of the resource with the given id.
    pub fn get_resource_str(&self, id: &str) -> (r: Option<(String, String)>)
        ensures
            text_pair_view(r) == resource_text_of_id(self@, id@),
    {
        match find_resource(&self.resources, id) {
            Some(i) => {
                assert(self@.resources[i as int] == self.resources@[i as int]@);
                let mime = self.resources[i].item.mime.clone();
                match self.get_resource_str_by_path(self.resources[i].item.path.as_str()) {
                    Some(content) => Some((content, mime)),
                    None => None,
                }
            },
            None => None,
        }
    }

    /// Media type of the resource with the given id.
    pub fn get_resource_mime(&self, id: &str) -> (r: Option<String>)
        ensures
            opt_view(r) == mime_of_id(self@, id@),
    {
        match find_resource(&self.resources, id) {
            Some(i) => {
                assert(self@.resources[i as int] == self.resources@[i as int]@);
                Some(self.resources[i].item.mime.clone())
            },
            None => None,
        }
    }

    /// Position of the first resource at `path`.
    fn resource_at_path(&self, path: &str) -> (r: Option<usize>)
        ensures
            match r {
                Some(i) => i < self.resources.len() && i as int == path_index(
                    self@.resources,
                    path@,
                    0,
                ),
                None => path_index(self@.resources, path@, 0) == -1,
            },
    {
        let mut i: usize = 0;
        while i < self.resources.len()
            invariant
                i <= self.resources.len(),
                path_index(self@.resources, path@, 0) == path_index(
                    self@.resources,
                    path@,
                    i as int,
                ),
            decreases self.resources.len() - i,
        {
            assert(self@.resources[i as int] == self.resources@[i as int]@);
            if str_eq(self.resources[i].item.path.as_str(), path) {
                return Some(i);
            }
            i += 1;
        }
        None
    }

    /// Media type of the first resource at `path`.
    pub fn get_resource_mime_by_path(&self, path: &str) -> (r: Option<String>)
        ensures
            opt_view(r) == ({
                let i = path_index(self@.resources, path@, 0);
                if 0 <= i < self@.resources.len() {
                    Some(self@.resources[i].item.mime)
                } else {
                    None
                }
            }),
    {
        match self.resource_at_path(path) {
            Some(i) => {
                assert(self@.resources[i as int] == self.resources@[i as int]@);
                Some(self.resources[i].item.mime.clone())
            },
            None => None,
        }
    }

    /// Bytes and media type of the current chapter.
    pub fn get_current(&self) -> (r: Option<(Vec<u8>, String)>)
        ensures
            bytes_pair_view(r) == match current_id_of(self@) {
                Some(id) => resource_of_id(self@, id),
                None => None,
            },
    {
        match self.get_current_id() {
            Some(id) => self.get_resource(id.as_str()),
            None => None,
        }
    }

    /// Text and media type of the current chapter.
    pub fn get_current_str(&self) -> (r: Option<(String, String)>)
        ensures
            text_pair_view(r) == match current_id_of(self@) {
                Some(id) => resource_text_of_id(self@, id),
                None => None,
            },
    {
        match self.get_current_id() {
            Some(id) => self.get_resource_str(id.as_str()),
            None => None,
        }
    }

    /// Media type of the current chapter.
    pub fn get_current_mime(&self) -> (r: Option<String>)
        ensures
            opt_view(r) == match current_id_of(self@) {
                Some(id) => mime_of_id(self@, id),
                None => None,
            },
    {
        match self.get_current_id() {
            Some(id) => self.get_resource_mime(id.as_str()),
            None => None,
        }
    }

    /// Container path of the current chapter.
    pub fn get_current_path(&self) -> (r: Option<String>)
        ensures
            opt_view(r) == match current_id_of(self@) {
                Some(id) => path_of_id(self@, id),
                None => None,
            },
    {
        match self.get_current_id() {
            Some(id) => match find_resource(&self.resources, id.as_str()) {
                Some(i) => {
                    assert(self@.resources[i as int] == self.resources@[i as int]@);
                    Some(self.resources[i].item.path.clone())
                },
                None => None,
            },
            None => None,
        }
    }

    /// Id that the current spine item refers to.
    pub fn get_current_id(&self) -> (r: Option<String>)
        ensures
            opt_view(r) == current_id_of(self@),
    {
        if self.current < self.spine.len() {
            assert(self@.spine[self.current as int] == self.spine@[self.current as int]@);
            Some(self.spine[self.current].idref.clone())
        } else {
            None
        }
    }

    /// Moves to the next chapter; `false`, and no move, at the last one.
    pub fn go_next(&mut self) -> (moved: bool)
        ensures
            moved == (old(self)@.current + 1 < old(self)@.spine.len()),
            final(self)@ == (DocView {
                current: if moved {
                    old(self)@.current + 1
                } else {
                    old(self)@.current
                },
                ..old(self)@
            }),
            old(self).wf() ==> final(self).wf(),
    {
        if self.spine.len() == 0 || self.current >= self.spine.len() - 1 {
            false
        } else {
            self.current += 1;
            true
        }
    }

    /// Moves to the previous chapter; `false`, and no move, at the first.
    pub fn go_prev(&mut self) -> (moved: bool)
        ensures
            moved == (old(self)@.current >= 1),
            final(self)@ == (DocView {
                current: if moved {
                    old(self)@.current - 1
                } else {
                    old(self)@.current
                },
                ..old(self)@
            }),
            old(self).wf() ==> final(self).wf(),
    {
        if self.current < 1 {
            false
        } else {
            self.current -= 1;
            true
        }
    }

    /// Number of chapters: the length of the spine.
    pub fn get_num_chapters(&self) -> (n: usize)
        ensures
            n == self@.spine.len(),
    {
        self.spine.len()
    }

    /// Number of chapters; the older name of `get_num_chapters`.
    pub fn get_num_pages(&self) -> (n: usize)
        ensures
            n == self@.spine.len(),
    {
        self.get_num_chapters()
    }

    /// The current chapter, counted from 0.
    pub fn get_current_chapter(&self) -> (n: usize)
        ensures
            n == self@.current,
    {
        self.current
    }

    /// The current chapter; the older name of `get_current_chapter`.
    pub fn get_current_page(&self) -> (n: usize)
        ensures
            n == self@.current,
    {
        self.get_current_chapter()
    }

    /// Makes chapter `n` the current one; `false`, and no change, where the
    /// spine has no chapter `n`.
    pub fn set_current_chapter(&mut self, n: usize) -> (moved: bool)
        ensures
            moved == (n < old(self)@.spine.len()),
            final(self)@ == (DocView {
                current: if moved {
                    n as int
                } else {
                    old(self)@.current
                },
                ..old(self)@
            }),
            old(self).wf() ==> final(self).wf(),
    {
        if n >= self.spine.len() {
            false
        } else {
            self.current = n;
            true
        }
    }

    /// Makes chapter `n` the current one; the older name of
    /// `set_current_chapter`.
    pub fn set_current_page(&mut self, n: usize) -> (moved: bool)
        ensures
            moved == (n < old(self)@.spine.len()),
            final(self)@ == (DocView {
                current: if moved {
                    n as int
                } else {
                    old(self)@.current
                },
                ..old(self)@
            }),
            old(self).wf() ==> final(self).wf(),
    {
        self.set_current_chapter(n)
    }

    /// Adds a style sheet to be injected into every content document.
    pub fn add_extra_css(&mut self, css: &str)
        ensures
            final(self)@ == (DocView {
                extra_css: old(self)@.extra_css.push(css@),
                ..old(self)@
            }),
            old(self).wf() ==> final(self).wf(),
    {
        let s = css.to_string();
        proof {
            lemma_views_push(self.extra_css@, s);
        }
        self.extra_css.push(s);
    }

    /// Spine position of the first resource at the path `uri`.
    pub fn resource_uri_to_chapter(&self, uri: &str) -> (r: Option<usize>)
        ensures
            opt_index_view(r) == chapter_of_path(self@, uri@),
    {
        match self.resource_at_path(uri) {
            Some(i) => {
                assert(self@.resources[i as int] == self.resources@[i as int]@);
                self.resource_id_to_chapter(self.resources[i].id.as_str())
            },
            None => None,
        }
    }

    /// Spine position of the first item that refers to the resource `uri`.
    pub fn resource_id_to_chapter(&self, uri: &str) -> (r: Option<usize>)
        ensures
            opt_index_view(r) == chapter_of_id(self@, uri@),
    {
        let mut i: usize = 0;
        while i < self.spine.len()
            invariant
                i <= self.spine.len(),
                spine_position(self@.spine, uri@, 0) == spine_position(
                    self@.spine,
                    uri@,
                    i as int,
                ),
            decreases self.spine.len() - i,
        {
            assert(self@.spine[i as int] == self.spine@[i as int]@);
            if str_eq(self.spine[i].idref.as_str(), uri) {
                return Some(i);
            }
            i += 1;
        }
        None
    }

    /// Spine position of the content that `href` points to: `href` without
    /// its fragment, resolved against the package directory.
    pub fn href_to_spine_index(&self, href: &str) -> (r: Option<usize>)
        ensures
            opt_index_view(r) == chapter_of_path(
                self@,
                joined_path(self@.root_base, without_fragment(href@)),
            ),
    {
        let path_str = strip_fragment(href);
        let abs_path = self.convert_path_seps(path_str.as_str());
        self.resource_uri_to_chapter(abs_path.as_str())
    }

    /// The spine position of each entry of a page list, `None` for an entry
    /// that points to nothing in the spine.
    pub fn page_list_spine_indices(&self, page_list: &Vec<crate::nav::NavItem>) -> (r: Vec<
        Option<usize>,
    >)
        ensures
            r@.len() == page_list@.len(),
            forall|k: int|
                0 <= k < r@.len() ==> opt_index_view(#[trigger] r@[k]) == chapter_of_path(
                    self@,
                    joined_path(self@.root_base, without_fragment(page_list@[k].href@)),
                ),
    {
        let mut out: Vec<Option<usize>> = Vec::new();
        let mut i: usize = 0;
        while i < page_list.len()
            invariant
                i <= page_list.len(),
                out@.len() == i,
                forall|k: int|
                    0 <= k < i ==> opt_index_view(#[trigger] out@[k]) == chapter_of_path(
                        self@,
                        joined_path(self@.root_base, without_fragment(page_list@[k].href@)),
                    ),
            decreases page_list.len() - i,
        {
            out.push(self.href_to_spine_index(page_list[i].href.as_str()));
            i += 1;
        }
        out
    }

    /// `href` resolved against the package directory, with forward slashes.
    pub fn convert_path_seps(&self, href: &str) -> (r: String)
        ensures
            r@ == joined_path(self@.root_base, href@),
    {
        join_path(self.root_base.as_str(), href)
    }
}

} // verus!
