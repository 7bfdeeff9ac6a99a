//! The engine: the registry of opened books with what is derived from
//! them, the theme registry and the speech queue, behind one value.

use crate::annotations::{
    added, added_all, annotation_index, has_id, removed, Annotation, AnnotationStore,
    AnnotationView,
};
use crate::archive::ArchiveError;
use crate::cfi::{cfi_of, cfi_text, offset_of, try_parse_cfi_to_offset};
use crate::docs::{
    book_of, chapter_of_path, DocError, DocView, EpubDoc, OpenFailure,
};
use crate::layout::{
    compute_layout, is_fixed, plan_of, section_lens, LayoutOptions, LayoutPlan, LayoutPlanView,
    PageRef,
};
use crate::mapping::{
    cfi_to_page_index, map_point_to_cfi, offset_cfi, page_index_of, page_showing, point_offset,
    point_page, PointToCFIRequest,
};
use crate::paths::{joined_path, without_fragment};
use crate::player::{
    after_command, paragraphs_for_page, paragraphs_of, ParagraphView, PlayerCommand, PlayerCore,
    PlayerEventView, PlayerParagraphEvent, PlayingState,
};
use crate::replacements::ReplacementStrategy;
use crate::resources::{ResourceManager, ResourceManagerView};
use crate::search::{hits_upto, search, SearchHit};
use crate::text::{lemma_views_push, opt_view, views};
use crate::themes::{
    combine_css, combined_css, font_rules, theme_index, ThemeRegistry, ThemeRegistryView,
};
use crate::tts::{TtsQueueState, TtsQueueView};
use vstd::prelude::*;

verus! {

/// Why a request to the engine failed.
#[derive(Debug, PartialEq, Eq)]
pub enum EngineError {
    /// The handle names no opened book.
    BookNotFound,
    /// The request needs a layout and none was computed.
    LayoutNotComputed,
    /// The container does not hold a book.
    InvalidEpub,
    /// The text is no location.
    InvalidCfi,
    /// No page lies at the point or shows the location.
    NoPageFound,
    /// No resource has the id or the path.
    ResourceNotFound,
    /// No annotation has the id.
    AnnotationNotFound,
    /// The speech proxy answered with this status.
    ProxyError(u16),
    Io,
    BadArchive,
    Xml,
    Utf8,
    /// A shared lock was left poisoned.
    RegistryPoisoned,
}

/// The error that the host is told when opening fails.
pub open spec fn open_error(f: OpenFailure) -> EngineError {
    match f {
        OpenFailure::Archive(ArchiveError::BadArchive) => EngineError::BadArchive,
        OpenFailure::Archive(ArchiveError::Io) => EngineError::Io,
        OpenFailure::Archive(ArchiveError::Utf8) => EngineError::Utf8,
        OpenFailure::Archive(ArchiveError::EntryMissing) => EngineError::InvalidEpub,
        OpenFailure::Xml(_) => EngineError::Xml,
        OpenFailure::InvalidEpub => EngineError::InvalidEpub,
    }
}

/// The error that the host is told for a failure to open a book.
pub fn error_of(e: DocError) -> (r: EngineError)
    ensures
        r == open_error(crate::docs::failure_of(e)),
{
    match e {
        DocError::ArchiveError(ArchiveError::BadArchive) => EngineError::BadArchive,
        DocError::ArchiveError(ArchiveError::Io) => EngineError::Io,
        DocError::ArchiveError(ArchiveError::Utf8) => EngineError::Utf8,
        DocError::ArchiveError(ArchiveError::EntryMissing) => EngineError::InvalidEpub,
        DocError::XmlError(_) => EngineError::Xml,
        DocError::IOError => EngineError::Io,
        DocError::InvalidEpub => EngineError::InvalidEpub,
    }
}

impl EngineError {
    /// The name of the kind of error, as the host is told it.
    pub fn name(&self) -> (r: &'static str)
        ensures
            r@ == (match *self {
                EngineError::BookNotFound => "BookNotFound"@,
                EngineError::LayoutNotComputed => "LayoutNotComputed"@,
                EngineError::InvalidEpub => "InvalidEpub"@,
                EngineError::InvalidCfi => "InvalidCfi"@,
                EngineError::NoPageFound => "NoPageFound"@,
                EngineError::ResourceNotFound => "ResourceNotFound"@,
                EngineError::AnnotationNotFound => "AnnotationNotFound"@,
                EngineError::ProxyError(_) => "ProxyError"@,
                EngineError::Io => "Io"@,
                EngineError::BadArchive => "BadArchive"@,
                EngineError::Xml => "Xml"@,
                EngineError::Utf8 => "Utf8"@,
                EngineError::RegistryPoisoned => "RegistryPoisoned"@,
            }),
    {
        match self {
            EngineError::BookNotFound => "BookNotFound",
            EngineError::LayoutNotComputed => "LayoutNotComputed",
            EngineError::InvalidEpub => "InvalidEpub",
            EngineError::InvalidCfi => "InvalidCfi",
            EngineError::NoPageFound => "NoPageFound",
            EngineError::ResourceNotFound => "ResourceNotFound",
            EngineError::AnnotationNotFound => "AnnotationNotFound",
            EngineError::ProxyError(_) => "ProxyError",
            EngineError::Io => "Io",
            EngineError::BadArchive => "BadArchive",
            EngineError::Xml => "Xml",
            EngineError::Utf8 => "Utf8",
            EngineError::RegistryPoisoned => "RegistryPoisoned",
        }
    }
}

/// An opened book with what is derived from it.
#[derive(Debug)]
pub struct BookSession {
    pub id: u64,
    pub doc: EpubDoc,
    pub layout: Option<LayoutPlan>,
    pub annotations: AnnotationStore,
    pub player: Option<PlayerCore>,
    pub resources: Option<ResourceManager>,
    pub active_theme: Option<String>,
    pub font_css: String,
}

/// The mathematical model of `Session`.
pub struct SessionView {
    pub id: u64,
    pub doc: DocView,
    pub layout: Option<LayoutPlanView>,
    pub annotations: Seq<AnnotationView>,
    pub player: Option<PlayerCore>,
    pub resources: Option<ResourceManagerView>,
    pub active_theme: Option<Seq<char>>,
    pub font_css: Seq<char>,
}

/// The model of an optional value.
pub open spec fn opt_plan_view(p: Option<LayoutPlan>) -> Option<LayoutPlanView> {
    match p {
        Some(x) => Some(x@),
        None => None,
    }
}

/// The model of an optional value.
pub open spec fn opt_manager_view(m: Option<ResourceManager>) -> Option<ResourceManagerView> {
    match m {
        Some(x) => Some(x@),
        None => None,
    }
}

impl View for BookSession {
    type V = SessionView;

    open spec fn view(&self) -> SessionView {
        SessionView {
            id: self.id,
            doc: self.doc@,
            layout: opt_plan_view(self.layout),
            annotations: self.annotations@,
            player: self.player,
            resources: opt_manager_view(self.resources),
            active_theme: opt_view(self.active_theme),
            font_css: self.font_css@,
        }
    }
}

/// The engine.
#[derive(Debug)]
pub struct Engine {
    /// The opened books, in the order in which they were opened.
    pub books: Vec<BookSession>,
    /// The handle of the book that is opened next.
    pub next_id: u64,
    pub themes: ThemeRegistry,
    pub tts: TtsQueueState,
}

/// The mathematical model of `Engine`.
pub struct EngineView {
    pub books: Seq<SessionView>,
    pub next_id: u64,
    pub themes: ThemeRegistryView,
    pub tts: TtsQueueView,
}

impl View for Engine {
    type V = EngineView;

    open spec fn view(&self) -> EngineView {
        EngineView {
            books: views(self.books@),
            next_id: self.next_id,
            themes: self.themes@,
            tts: self.tts@,
        }
    }
}

/// Index of the first session at or after `from` with the handle `id`, or
/// `-1`.
pub open spec fn session_index(books: Seq<SessionView>, id: u64, from: int) -> int
    decreases books.len() - from,
{
    if from < 0 || from >= books.len() {
        -1
    } else if books[from].id == id {
        from
    } else {
        session_index(books, id, from + 1)
    }
}

/// Whether a book with the handle is open.
pub open spec fn is_open(e: EngineView, id: u64) -> bool {
    session_index(e.books, id, 0) >= 0
}

/// The session of the book with the handle.
pub open spec fn session_of(e: EngineView, id: u64) -> SessionView {
    e.books[session_index(e.books, id, 0)]
}

/// The handles ascend in the order of opening and lie below the next one.
pub open spec fn registry_wf(e: EngineView) -> bool {
    &&& forall|i: int, j: int| 0 <= i < j < e.books.len() ==> e.books[i].id < e.books[j].id
    &&& forall|i: int| 0 <= i < e.books.len() ==> (#[trigger] e.books[i]).id < e.next_id
}

/// The engine with the session of `id` replaced by `s`.
pub open spec fn with_session(e: EngineView, id: u64, s: SessionView) -> EngineView {
    EngineView { books: e.books.update(session_index(e.books, id, 0), s), ..e }
}

/// The index found is that of the first session with the handle.
pub proof fn lemma_session_index(books: Seq<SessionView>, id: u64, from: int)
    requires
        0 <= from,
    ensures
        session_index(books, id, from) == -1 || (from <= session_index(books, id, from)
            < books.len() && books[session_index(books, id, from)].id == id),
        forall|k: int|
            from <= k < books.len() && (session_index(books, id, from) == -1 || k < session_index(
                books,
                id,
                from,
            )) ==> (#[trigger] books[k]).id != id,
    decreases books.len() - from,
{
    if from < books.len() && books[from].id != id {
        lemma_session_index(books, id, from + 1);
    }
}

/// A change to the session of an open book, which keeps its handle, keeps
/// the handles in order.
pub proof fn lemma_with_session_wf(e: EngineView, id: u64, s: SessionView)
    requires
        registry_wf(e),
        is_open(e, id),
        s.id == id,
    ensures
        registry_wf(with_session(e, id, s)),
        is_open(with_session(e, id, s), id),
        session_of(with_session(e, id, s), id) == s,
{
    lemma_session_index(e.books, id, 0);
    let i = session_index(e.books, id, 0);
    let after = with_session(e, id, s);
    assert forall|a: int, b: int| 0 <= a < b < after.books.len() implies after.books[a].id
        < after.books[b].id by {
        assert(after.books[a].id == e.books[a].id);
        assert(after.books[b].id == e.books[b].id);
    }
    assert forall|a: int| 0 <= a < after.books.len() implies (#[trigger] after.books[a]).id
        < after.next_id by {
        assert(after.books[a].id == e.books[a].id);
    }
    lemma_session_index(after.books, id, 0);
    assert forall|k: int| 0 <= k < i implies (#[trigger] after.books[k]).id != id by {
        assert(after.books[k] == e.books[k]);
    }
    assert(after.books[i].id == id);
}

/// A freshly opened book is found under its handle, and no other handle
/// changes its session.
pub proof fn lemma_opened_is_found(e: EngineView, s: SessionView)
    requires
        registry_wf(e),
        s.id == e.next_id,
    ensures
        session_index(e.books.push(s), s.id, 0) == e.books.len(),
        forall|id: u64|
            id != s.id ==> session_index(e.books.push(s), id, 0) == session_index(e.books, id, 0),
{
    lemma_session_index(e.books.push(s), s.id, 0);
    assert forall|k: int| 0 <= k < e.books.len() implies (#[trigger] e.books.push(s)[k]).id
        != s.id by {
        assert(e.books.push(s)[k] == e.books[k]);
    }
    assert(e.books.push(s)[e.books.len() as int].id == s.id);
    assert forall|id: u64| id != s.id implies session_index(e.books.push(s), id, 0)
        == session_index(e.books, id, 0) by {
        lemma_index_push(e.books, s, id, 0);
    }
}

/// A session added at the end does not change where other handles are found.
pub proof fn lemma_index_push(books: Seq<SessionView>, s: SessionView, id: u64, from: int)
    requires
        0 <= from <= books.len(),
        id != s.id,
    ensures
        session_index(books.push(s), id, from) == session_index(books, id, from),
    decreases books.len() - from,
{
    if from < books.len() {
        assert(books.push(s)[from] == books[from]);
        if books[from].id != id {
            lemma_index_push(books, s, id, from + 1);
        }
    } else {
        assert(books.push(s)[from] == s);
        assert(session_index(books.push(s), id, from + 1) == -1);
    }
}

/// The pages of a plan from `start` on, at most `count` of them.
pub open spec fn page_window(pages: Seq<PageRef>, start: int, count: int) -> Seq<PageRef> {
    if 0 <= start < pages.len() && count > 0 {
        pages.subrange(
            start,
            if start + count < pages.len() {
                start + count
            } else {
                pages.len() as int
            },
        )
    } else {
        Seq::empty()
    }
}

/// The style sheet of the theme that a book has applied; empty where it has
/// applied none or the theme is not registered.
pub open spec fn active_css(themes: ThemeRegistryView, active: Option<Seq<char>>) -> Seq<char> {
    match active {
        Some(name) => {
            let i = theme_index(themes.themes, name, 0);
            if 0 <= i < themes.themes.len() {
                themes.themes[i].css
            } else {
                Seq::empty()
            }
        },
        None => Seq::empty(),
    }
}

/// The whole style sheet of a book: global font rules, the book's font
/// rules, and the rules of its theme.
pub open spec fn book_css_of(e: EngineView, s: SessionView) -> Seq<char> {
    combined_css(
        font_rules(e.themes.global_fonts, e.themes.global_fonts.len() as int),
        s.font_css,
        active_css(e.themes, s.active_theme),
    )
}

/// The first page of a spine item.
pub fn first_page_of(plan: &LayoutPlan, spine: usize) -> (r: Option<usize>)
    ensures
        match r {
            Some(p) => 0 <= page_showing(plan@.pages, true, spine as int, 0, 0) < plan@.pages.len()
                && p == plan@.pages[page_showing(plan@.pages, true, spine as int, 0, 0)].global_index,
            None => page_showing(plan@.pages, true, spine as int, 0, 0) == -1,
        },
{
    let mut k: usize = 0;
    while k < plan.pages.len()
        invariant
            k <= plan.pages.len(),
            page_showing(plan@.pages, true, spine as int, 0, 0) == page_showing(
                plan@.pages,
                true,
                spine as int,
                0,
                k as int,
            ),
        decreases plan.pages.len() - k,
    {
        if plan.pages[k].spine_index == spine {
            return Some(plan.pages[k].global_index);
        }
        k += 1;
    }
    None
}

/// What the renderer needs to show a run of pages.
#[derive(Debug)]
pub struct RenderPlan {
    pub total_pages: usize,
    pub pages: Vec<PageRef>,
    pub theme_css: Option<String>,
    pub annotations: Vec<Annotation>,
    pub page_progression_direction: Option<String>,
}

impl Engine {
    /// An engine without books, themes and tasks.
    pub fn new() -> (e: Engine)
        ensures
            e@.books.len() == 0,
            e@.next_id == 1,
            e@.themes.themes.len() == 0,
            e@.tts.pending.len() == 0,
            registry_wf(e@),
    {
        let e = Engine {
            books: Vec::new(),
            next_id: 1,
            themes: ThemeRegistry::new(),
            tts: TtsQueueState::new(),
        };
        assert(views(e.books@) =~= Seq::<SessionView>::empty());
        e
    }

    /// Whether the handles ascend in the order of opening and lie below
    /// the next one, as they do unless the fields were changed by hand.
    pub fn is_consistent(&self) -> (r: bool)
        ensures
            r == registry_wf(self@),
    {
        let mut k: usize = 0;
        while k < self.books.len()
            invariant
                k <= self.books.len(),
                forall|i: int, j: int| 0 <= i < j < k ==> self@.books[i].id < self@.books[j].id,
                forall|i: int| 0 <= i < k ==> (#[trigger] self@.books[i]).id < self@.next_id,
            decreases self.books.len() - k,
        {
            assert(self@.books[k as int] == self.books@[k as int]@);
            if self.books[k].id >= self.next_id {
                return false;
            }
            if k > 0 {
                assert(self@.books[k - 1] == self.books@[k - 1]@);
                if self.books[k - 1].id >= self.books[k].id {
                    return false;
                }
                assert forall|i: int, j: int| 0 <= i < j < k + 1 implies self@.books[i].id
                    < self@.books[j].id by {
                    if j == k && i < k - 1 {
                        assert(self@.books[i].id < self@.books[k - 1].id);
                    }
                }
            }
            k += 1;
        }
        true
    }

    /// Position of the session with the handle.
    fn find(&self, id: u64) -> (r: Option<usize>)
        ensures
            match r {
                Some(i) => i < self.books.len() && i as int == session_index(self@.books, id, 0),
                None => session_index(self@.books, id, 0) == -1,
            },
    {
        let mut i: usize = 0;
        while i < self.books.len()
            invariant
                i <= self.books.len(),
                session_index(self@.books, id, 0) == session_index(self@.books, id, i as int),
            decreases self.books.len() - i,
        {
            assert(self@.books[i as int] == self.books@[i as int]@);
            if self.books[i].id == id {
                return Some(i);
            }
            i += 1;
        }
        None
    }

    /// Registers an opened book with the annotations saved for it, and
    /// gives it the next handle. `None`, and no change, where the handles
    /// are used up.
    pub fn open_book(&mut self, doc: EpubDoc, saved: Vec<Annotation>) -> (r: Option<u64>)
        requires
            registry_wf(old(self)@),
        ensures
            registry_wf(final(self)@),
            r is None <==> old(self)@.next_id == u64::MAX,
            r is None ==> final(self)@ == old(self)@,
            r is Some ==> {
                &&& r->0 == old(self)@.next_id
                &&& !is_open(old(self)@, r->0)
                &&& final(self)@ == (EngineView {
                    books: old(self)@.books.push(
                        SessionView {
                            id: r->0,
                            doc: doc@,
                            layout: None,
                            annotations: added_all(views(saved@), saved@.len() as int),
                            player: None,
                            resources: None,
                            active_theme: None,
                            font_css: Seq::empty(),
                        },
                    ),
                    next_id: (r->0 + 1) as u64,
                    ..old(self)@
                })
            },
    {
        if self.next_id == u64::MAX {
            return None;
        }
        let id = self.next_id;
        proof {
            lemma_session_index(self@.books, id, 0);
        }
        let session = BookSession {
            id,
            doc,
            layout: None,
            annotations: AnnotationStore::from_list(saved),
            player: None,
            resources: None,
            active_theme: None,
            font_css: String::new(),
        };
        proof {
            lemma_views_push(self.books@, session);
        }
        self.books.push(session);
        self.next_id = id + 1;
        Some(id)
    }

    /// Opens the book held in the bytes of a container and registers it.
    pub fn open(&mut self, container: &[u8], saved: Vec<Annotation>) -> (r: Result<
        u64,
        EngineError,
    >)
        requires
            registry_wf(old(self)@),
        ensures
            registry_wf(final(self)@),
            match book_of(container@) {
                Err(f) => r == Err::<u64, EngineError>(open_error(f)) && final(self)@ == old(
                    self,
                )@,
                Ok(d) => if old(self)@.next_id == u64::MAX {
                    r == Err::<u64, EngineError>(EngineError::RegistryPoisoned) && final(self)@
                        == old(self)@
                } else {
                    &&& r == Ok::<u64, EngineError>(old(self)@.next_id)
                    &&& final(self)@ == (EngineView {
                        books: old(self)@.books.push(
                            SessionView {
                                id: old(self)@.next_id,
                                doc: d,
                                layout: None,
                                annotations: added_all(views(saved@), saved@.len() as int),
                                player: None,
                                resources: None,
                                active_theme: None,
                                font_css: Seq::empty(),
                            },
                        ),
                        next_id: (old(self)@.next_id + 1) as u64,
                        ..old(self)@
                    })
                },
            },
    {
        match EpubDoc::from_reader(container) {
            Ok(doc) => match self.open_book(doc, saved) {
                Some(id) => Ok(id),
                None => Err(EngineError::RegistryPoisoned),
            },
            Err(e) => Err(error_of(e)),
        }
    }

    /// Closes a book: its session is dropped and its handle names no book
    /// any more. `BookNotFound`, and no change, where it is not open.
    pub fn close_book(&mut self, id: u64) -> (r: Result<(), EngineError>)
        requires
            registry_wf(old(self)@),
        ensures
            registry_wf(final(self)@),
            r is Ok <==> is_open(old(self)@, id),
            r is Err ==> r->Err_0 == EngineError::BookNotFound && final(self)@ == old(self)@,
            r is Ok ==> final(self)@ == (EngineView {
                books: old(self)@.books.remove(session_index(old(self)@.books, id, 0)),
                ..old(self)@
            }),
            r is Ok ==> !is_open(final(self)@, id),
    {
        match self.find(id) {
            Some(i) => {
                let ghost before = self@.books;
                let _gone = self.books.remove(i);
                assert(self@.books =~= before.remove(i as int));
                proof {
                    assert forall|a: int, b: int| 0 <= a < b < self@.books.len() implies self@.books[a].id
                        < self@.books[b].id by {
                        let a0 = if a < i { a } else { a + 1 };
                        let b0 = if b < i { b } else { b + 1 };
                        assert(self@.books[a] == before[a0]);
                        assert(self@.books[b] == before[b0]);
                    }
                    assert forall|a: int| 0 <= a < self@.books.len() implies (
                    #[trigger] self@.books[a]).id < self@.next_id by {
                        let a0 = if a < i { a } else { a + 1 };
                        assert(self@.books[a] == before[a0]);
                    }
                    lemma_session_index(self@.books, id, 0);
                    lemma_session_index(before, id, 0);
                    assert forall|k: int| 0 <= k < self@.books.len() implies (
                    #[trigger] self@.books[k]).id != id by {
                        if k < i {
                            assert(self@.books[k] == before[k]);
                            assert(before[k].id < before[i as int].id);
                        } else {
                            assert(self@.books[k] == before[k + 1]);
                            assert(before[i as int].id < before[k + 1].id);
                        }
                    }
                }
                Ok(())
            },
            None => Err(EngineError::BookNotFound),
        }
    }

    /// The session of a book.
    pub fn session(&self, id: u64) -> (r: Result<&BookSession, EngineError>)
        ensures
            r is Ok <==> is_open(self@, id),
            r is Ok ==> r->Ok_0@ == session_of(self@, id),
            r is Err ==> r->Err_0 == EngineError::BookNotFound,
    {
        match self.find(id) {
            Some(i) => {
                assert(self@.books[i as int] == self.books@[i as int]@);
                Ok(&self.books[i])
            },
            None => Err(EngineError::BookNotFound),
        }
    }

    /// Takes the session at `i` out of the registry for a change; `put` sets
    /// it back.
    fn take(&mut self, i: usize) -> (s: BookSession)
        requires
            i < old(self).books.len(),
        ensures
            s@ == old(self)@.books[i as int],
            final(self)@ == (EngineView { books: old(self)@.books.remove(i as int), ..old(self)@ }),
            final(self).books@.len() == old(self).books@.len() - 1,
    {
        let ghost before = self@.books;
        assert(before[i as int] == self.books@[i as int]@);
        let s = self.books.remove(i);
        assert(self@.books =~= before.remove(i as int));
        s
    }

    /// Sets a session back at `i`.
    fn put(&mut self, i: usize, s: BookSession)
        requires
            i <= old(self).books.len(),
        ensures
            final(self)@ == (EngineView { books: old(self)@.books.insert(i as int, s@), ..old(self)@ }),
            final(self).books@.len() == old(self).books@.len() + 1,
    {
        let ghost before = self@.books;
        self.books.insert(i, s);
        assert(self@.books =~= before.insert(i as int, s@));
    }

    /// Computes the layout of a book for the given options and keeps it for
    /// the requests that follow. Gives the number of pages.
    pub fn compute_layout(&mut self, id: u64, opts: &LayoutOptions) -> (r: Result<
        usize,
        EngineError,
    >)
        ensures
            registry_wf(old(self)@) ==> registry_wf(final(self)@),
            r is Ok <==> is_open(old(self)@, id),
            r is Err ==> r->Err_0 == EngineError::BookNotFound && final(self)@ == old(self)@,
            r is Ok ==> {
                let s = session_of(old(self)@, id);
                let plan = plan_of(
                    section_lens(s.doc),
                    *opts,
                    is_fixed(s.doc),
                    s.doc.page_progression_direction,
                );
                &&& final(self)@ == with_session(
                    old(self)@,
                    id,
                    SessionView { layout: Some(plan), ..s },
                )
                &&& r->Ok_0 == plan.total_pages
            },
    {
        match self.find(id) {
            Some(i) => {
                let ghost before = self@.books;
                let mut s = self.take(i);
                let plan = compute_layout(&s.doc, opts);
                let total = plan.total_pages;
                s.layout = Some(plan);
                self.put(i, s);
                assert(self@.books =~= before.update(i as int, s@));
                proof {
                    lemma_session_index(before, id, 0);
                    if registry_wf(old(self)@) {
                        lemma_with_session_wf(old(self)@, id, s@);
                    }
                }
                Ok(total)
            },
            None => Err(EngineError::BookNotFound),
        }
    }

    /// The layout of a book. `BookNotFound` where the book is not open,
    /// `LayoutNotComputed` where no layout was computed for it.
    pub fn layout(&self, id: u64) -> (r: Result<&LayoutPlan, EngineError>)
        ensures
            match r {
                Ok(p) => is_open(self@, id) && session_of(self@, id).layout == Some(p@),
                Err(e) => if is_open(self@, id) {
                    e == EngineError::LayoutNotComputed && session_of(self@, id).layout is None
                } else {
                    e == EngineError::BookNotFound
                },
            },
    {
        match self.find(id) {
            Some(i) => {
                assert(self@.books[i as int] == self.books@[i as int]@);
                match &self.books[i].layout {
                    Some(p) => Ok(p),
                    None => Err(EngineError::LayoutNotComputed),
                }
            },
            None => Err(EngineError::BookNotFound),
        }
    }

    /// The page that shows a location. `InvalidCfi` where the text denotes
    /// no offset, `NoPageFound` where no page shows it.
    pub fn cfi_page_index(&self, id: u64, cfi: &str) -> (r: Result<usize, EngineError>)
        ensures
            match r {
                Ok(p) => is_open(self@, id) && session_of(self@, id).layout is Some
                    && page_index_of(session_of(self@, id).layout->0, cfi@) == Some(p),
                Err(e) => if !is_open(self@, id) {
                    e == EngineError::BookNotFound
                } else if session_of(self@, id).layout is None {
                    e == EngineError::LayoutNotComputed
                } else if cfi_of(cfi@) is None || offset_of(cfi_of(cfi@)->0) is None {
                    e == EngineError::InvalidCfi
                } else {
                    e == EngineError::NoPageFound && page_index_of(
                        session_of(self@, id).layout->0,
                        cfi@,
                    ) is None
                },
            },
    {
        let plan = match self.layout(id) {
            Ok(p) => p,
            Err(e) => {
                return Err(e);
            },
        };
        if try_parse_cfi_to_offset(cfi).is_none() {
            return Err(EngineError::InvalidCfi);
        }
        match cfi_to_page_index(plan, cfi) {
            Some(p) => Ok(p),
            None => Err(EngineError::NoPageFound),
        }
    }

    /// The location of a point. `NoPageFound` where no page lies there.
    pub fn point_to_cfi(&self, id: u64, req: &PointToCFIRequest) -> (r: Result<String, EngineError>)
        ensures
            match r {
                Ok(cfi) => {
                    &&& is_open(self@, id)
                    &&& session_of(self@, id).layout is Some
                    &&& point_page(session_of(self@, id).layout->0, *req) is Some
                    &&& cfi@ == cfi_text(
                        offset_cfi(
                            req.spine_index as int,
                            point_offset(
                                session_of(self@, id).layout->0.pages[point_page(
                                    session_of(self@, id).layout->0,
                                    *req,
                                )->0],
                                *req,
                            ),
                        ),
                    )
                },
                Err(e) => if !is_open(self@, id) {
                    e == EngineError::BookNotFound
                } else if session_of(self@, id).layout is None {
                    e == EngineError::LayoutNotComputed
                } else {
                    e == EngineError::NoPageFound && point_page(
                        session_of(self@, id).layout->0,
                        *req,
                    ) is None
                },
            },
    {
        let plan = match self.layout(id) {
            Ok(p) => p,
            Err(e) => {
                return Err(e);
            },
        };
        match map_point_to_cfi(plan, req) {
            Some(resp) => Ok(resp.cfi),
            None => Err(EngineError::NoPageFound),
        }
    }

    /// The first page of the spine item that `href` points to.
    /// `ResourceNotFound` where `href` names no item of the spine,
    /// `NoPageFound` where the item has no page.
    pub fn href_to_page_index(&self, id: u64, href: &str) -> (r: Result<usize, EngineError>)
        ensures
            match r {
                Ok(p) => {
                    let s = session_of(self@, id);
                    let ch = chapter_of_path(
                        s.doc,
                        joined_path(s.doc.root_base, without_fragment(href@)),
                    );
                    &&& is_open(self@, id)
                    &&& s.layout is Some
                    &&& ch is Some
                    &&& 0 <= page_showing(s.layout->0.pages, true, ch->0, 0, 0) < s.layout->0.pages.len()
                    &&& p == s.layout->0.pages[page_showing(
                        s.layout->0.pages,
                        true,
                        ch->0,
                        0,
                        0,
                    )].global_index
                },
                Err(e) => if !is_open(self@, id) {
                    e == EngineError::BookNotFound
                } else if session_of(self@, id).layout is None {
                    e == EngineError::LayoutNotComputed
                } else {
                    let s = session_of(self@, id);
                    let ch = chapter_of_path(
                        s.doc,
                        joined_path(s.doc.root_base, without_fragment(href@)),
                    );
                    if ch is None {
                        e == EngineError::ResourceNotFound
                    } else {
                        e == EngineError::NoPageFound && page_showing(
                            s.layout->0.pages,
                            true,
                            ch->0,
                            0,
                            0,
                        ) == -1
                    }
                },
            },
    {
        let i = match self.find(id) {
            Some(i) => i,
            None => {
                return Err(EngineError::BookNotFound);
            },
        };
        assert(self@.books[i as int] == self.books@[i as int]@);
        let s = &self.books[i];
        let plan = match &s.layout {
            Some(p) => p,
            None => {
                return Err(EngineError::LayoutNotComputed);
            },
        };
        let spine = match s.doc.href_to_spine_index(href) {
            Some(x) => x,
            None => {
                return Err(EngineError::ResourceNotFound);
            },
        };
        match first_page_of(plan, spine) {
            Some(p) => Ok(p),
            None => Err(EngineError::NoPageFound),
        }
    }

    /// Searches a book.
    pub fn search(&self, id: u64, query: &str, max_results: usize) -> (r: Result<
        Vec<SearchHit>,
        EngineError,
    >)
        ensures
            r is Ok <==> is_open(self@, id),
            r is Err ==> r->Err_0 == EngineError::BookNotFound,
            r is Ok ==> views(r->Ok_0@) == hits_upto(
                session_of(self@, id).doc,
                query@,
                max_results as int,
                session_of(self@, id).doc.spine.len() as int,
            ) && r->Ok_0@.len() <= max_results,
    {
        match self.session(id) {
            Ok(s) => Ok(search(&s.doc, query, max_results)),
            Err(e) => Err(e),
        }
    }

    /// The paragraphs of a page of a book.
    pub fn paragraphs(&self, id: u64, page_index: usize, min_len: usize) -> (r: Result<
        Vec<crate::player::ParagraphResp>,
        EngineError,
    >)
        ensures
            match r {
                Ok(v) => is_open(self@, id) && session_of(self@, id).layout is Some && views(v@)
                    == paragraphs_of(
                    session_of(self@, id).doc,
                    session_of(self@, id).layout->0,
                    page_index as int,
                    min_len,
                ),
                Err(e) => if is_open(self@, id) {
                    e == EngineError::LayoutNotComputed && session_of(self@, id).layout is None
                } else {
                    e == EngineError::BookNotFound
                },
            },
    {
        let i = match self.find(id) {
            Some(i) => i,
            None => {
                return Err(EngineError::BookNotFound);
            },
        };
        assert(self@.books[i as int] == self.books@[i as int]@);
        let s = &self.books[i];
        match &s.layout {
            Some(plan) => Ok(paragraphs_for_page(&s.doc, plan, page_index, min_len)),
            None => Err(EngineError::LayoutNotComputed),
        }
    }

    /// A snapshot of the annotations of a book.
    pub fn annotations_list(&self, id: u64) -> (r: Result<Vec<Annotation>, EngineError>)
        ensures
            r is Ok <==> is_open(self@, id),
            r is Err ==> r->Err_0 == EngineError::BookNotFound,
            r is Ok ==> views(r->Ok_0@) == session_of(self@, id).annotations,
    {
        match self.session(id) {
            Ok(s) => Ok(s.annotations.list()),
            Err(e) => Err(e),
        }
    }

    /// Adds an annotation to a book, in place of the one that has its id.
    pub fn annotations_add(&mut self, id: u64, a: Annotation) -> (r: Result<(), EngineError>)
        ensures
            registry_wf(old(self)@) ==> registry_wf(final(self)@),
            r is Ok <==> is_open(old(self)@, id),
            r is Err ==> r->Err_0 == EngineError::BookNotFound && final(self)@ == old(self)@,
            r is Ok ==> final(self)@ == with_session(
                old(self)@,
                id,
                SessionView {
                    annotations: added(session_of(old(self)@, id).annotations, a@),
                    ..session_of(old(self)@, id)
                },
            ),
    {
        match self.find(id) {
            Some(i) => {
                let ghost before = self@.books;
                let mut s = self.take(i);
                s.annotations.add(a);
                self.put(i, s);
                assert(self@.books =~= before.update(i as int, s@));
                proof {
                    lemma_session_index(before, id, 0);
                    if registry_wf(old(self)@) {
                        lemma_with_session_wf(old(self)@, id, s@);
                    }
                }
                Ok(())
            },
            None => Err(EngineError::BookNotFound),
        }
    }

    /// Replaces the annotation of a book that has the id of `a`.
    /// `AnnotationNotFound`, and no change, where there is none.
    pub fn annotations_update(&mut self, id: u64, a: Annotation) -> (r: Result<(), EngineError>)
        ensures
            registry_wf(old(self)@) ==> registry_wf(final(self)@),
            match r {
                Ok(_) => {
                    let s = session_of(old(self)@, id);
                    &&& is_open(old(self)@, id)
                    &&& has_id(s.annotations, a@.id)
                    &&& final(self)@ == with_session(
                        old(self)@,
                        id,
                        SessionView {
                            annotations: s.annotations.update(
                                annotation_index(s.annotations, a@.id, 0),
                                a@,
                            ),
                            ..s
                        },
                    )
                },
                Err(e) => final(self)@ == old(self)@ && if is_open(old(self)@, id) {
                    e == EngineError::AnnotationNotFound && !has_id(
                        session_of(old(self)@, id).annotations,
                        a@.id,
                    )
                } else {
                    e == EngineError::BookNotFound
                },
            },
    {
        match self.find(id) {
            Some(i) => {
                let ghost before = self@.books;
                let mut s = self.take(i);
                let outcome = s.annotations.update(a);
                self.put(i, s);
                assert(self@.books =~= before.update(i as int, s@));
                proof {
                    lemma_session_index(before, id, 0);
                    if registry_wf(old(self)@) {
                        lemma_with_session_wf(old(self)@, id, s@);
                    }
                }
                match outcome {
                    Ok(()) => Ok(()),
                    Err(_) => {
                        assert(self@.books =~= before);
                        Err(EngineError::AnnotationNotFound)
                    },
                }
            },
            None => Err(EngineError::BookNotFound),
        }
    }

    /// Removes the annotation of a book that has the id. Removing an id
    /// that no annotation has changes nothing.
    pub fn annotations_remove(&mut self, id: u64, annotation_id: &str) -> (r: Result<
        (),
        EngineError,
    >)
        ensures
            registry_wf(old(self)@) ==> registry_wf(final(self)@),
            r is Ok <==> is_open(old(self)@, id),
            r is Err ==> r->Err_0 == EngineError::BookNotFound && final(self)@ == old(self)@,
            r is Ok ==> final(self)@ == with_session(
                old(self)@,
                id,
                SessionView {
                    annotations: removed(
                        session_of(old(self)@, id).annotations,
                        annotation_id@,
                        session_of(old(self)@, id).annotations.len() as int,
                    ),
                    ..session_of(old(self)@, id)
                },
            ),
    {
        match self.find(id) {
            Some(i) => {
                let ghost before = self@.books;
                let mut s = self.take(i);
                let _found = s.annotations.remove(annotation_id);
                self.put(i, s);
                assert(self@.books =~= before.update(i as int, s@));
                proof {
                    lemma_session_index(before, id, 0);
                    if registry_wf(old(self)@) {
                        lemma_with_session_wf(old(self)@, id, s@);
                    }
                }
                Ok(())
            },
            None => Err(EngineError::BookNotFound),
        }
    }

    /// The player of a book; one is made, stopped at the start, where the
    /// book has none.
    pub fn player(&mut self, id: u64) -> (r: Result<PlayerCore, EngineError>)
        ensures
            registry_wf(old(self)@) ==> registry_wf(final(self)@),
            r is Ok <==> is_open(old(self)@, id),
            r is Err ==> r->Err_0 == EngineError::BookNotFound && final(self)@ == old(self)@,
            r is Ok ==> {
                let s = session_of(old(self)@, id);
                let p = match s.player {
                    Some(p) => p,
                    None => PlayerCore {
                        book_id: id,
                        current_page_index: 0,
                        current_paragraph_index: 0,
                        state: PlayingState::Stopped,
                    },
                };
                &&& r->Ok_0 == p
                &&& final(self)@ == with_session(old(self)@, id, SessionView { player: Some(p), ..s })
            },
    {
        match self.find(id) {
            Some(i) => {
                let ghost before = self@.books;
                let mut s = self.take(i);
                let p = match s.player {
                    Some(p) => p,
                    None => PlayerCore::new(id),
                };
                s.player = Some(p);
                self.put(i, s);
                assert(self@.books =~= before.update(i as int, s@));
                proof {
                    lemma_session_index(before, id, 0);
                    if registry_wf(old(self)@) {
                        lemma_with_session_wf(old(self)@, id, s@);
                    }
                }
                Ok(p)
            },
            None => Err(EngineError::BookNotFound),
        }
    }

    /// Tells the player of a book what to do. The player is made where the
    /// book has none. Gives the player as it is afterwards and, after
    /// `Play` and `Resume`, the event for its current paragraph, where the
    /// page has one of at least `min_len` characters.
    pub fn player_command(&mut self, id: u64, command: PlayerCommand, min_len: usize) -> (r: Result<
        (PlayerCore, Option<PlayerParagraphEvent>),
        EngineError,
    >)
        ensures
            registry_wf(old(self)@) ==> registry_wf(final(self)@),
            match r {
                Ok(out) => {
                    let s = session_of(old(self)@, id);
                    let before = match s.player {
                        Some(p) => p,
                        None => PlayerCore {
                            book_id: id,
                            current_page_index: 0,
                            current_paragraph_index: 0,
                            state: PlayingState::Stopped,
                        },
                    };
                    let here = paragraphs_of(
                        s.doc,
                        s.layout->0,
                        before.current_page_index as int,
                        min_len,
                    );
                    let after = after_command(
                        before,
                        command,
                        here.len() as usize,
                        s.layout->0.total_pages,
                    );
                    let there = paragraphs_of(
                        s.doc,
                        s.layout->0,
                        after.current_page_index as int,
                        min_len,
                    );
                    &&& is_open(old(self)@, id)
                    &&& s.layout is Some
                    &&& out.0 == after
                    &&& final(self)@ == with_session(
                        old(self)@,
                        id,
                        SessionView { player: Some(after), ..s },
                    )
                    &&& match out.1 {
                        Some(e) => (command == PlayerCommand::Play || command
                            == PlayerCommand::Resume) && after.current_paragraph_index
                            < there.len() && e@ == (PlayerEventView {
                            book_id: after.book_id,
                            page_index: after.current_page_index,
                            paragraph_index: after.current_paragraph_index,
                            text: there[after.current_paragraph_index as int].text,
                            cfi_range: there[after.current_paragraph_index as int].cfi_range,
                        }),
                        None => !(command == PlayerCommand::Play || command
                            == PlayerCommand::Resume) || after.current_paragraph_index
                            >= there.len(),
                    }
                },
                Err(e) => final(self)@ == old(self)@ && if is_open(old(self)@, id) {
                    e == EngineError::LayoutNotComputed && session_of(old(self)@, id).layout
                        is None
                } else {
                    e == EngineError::BookNotFound
                },
            },
    {
        let i = match self.find(id) {
            Some(i) => i,
            None => {
                return Err(EngineError::BookNotFound);
            },
        };
        assert(self@.books[i as int] == self.books@[i as int]@);
        if self.books[i].layout.is_none() {
            return Err(EngineError::LayoutNotComputed);
        }
        let ghost before = self@.books;
        let mut s = self.take(i);
        let mut p = match s.player {
            Some(p) => p,
            None => PlayerCore::new(id),
        };
        let event = match &s.layout {
            Some(plan) => {
                let here = paragraphs_for_page(&s.doc, plan, p.current_page_index, min_len);
                assert(views(here@).len() == here@.len());
                let emit = p.apply(command, here.len(), plan.total_pages);
                if emit {
                    let there = paragraphs_for_page(&s.doc, plan, p.current_page_index, min_len);
                    assert(views(there@).len() == there@.len());
                    if p.current_paragraph_index < there.len() {
                        assert(views(there@)[p.current_paragraph_index as int]
                            == there@[p.current_paragraph_index as int]@);
                    }
                    p.current_event(&there)
                } else {
                    None
                }
            },
            None => None,
        };
        s.player = Some(p);
        self.put(i, s);
        assert(self@.books =~= before.update(i as int, s@));
        proof {
            lemma_session_index(before, id, 0);
            if registry_wf(old(self)@) {
                lemma_with_session_wf(old(self)@, id, s@);
            }
        }
        Ok((p, event))
    }

    /// Stores the state of the player of a book.
    pub fn set_player(&mut self, id: u64, p: PlayerCore) -> (r: Result<(), EngineError>)
        ensures
            registry_wf(old(self)@) ==> registry_wf(final(self)@),
            r is Ok <==> is_open(old(self)@, id),
            r is Err ==> r->Err_0 == EngineError::BookNotFound && final(self)@ == old(self)@,
            r is Ok ==> final(self)@ == with_session(
                old(self)@,
                id,
                SessionView { player: Some(p), ..session_of(old(self)@, id) },
            ),
    {
        match self.find(id) {
            Some(i) => {
                let ghost before = self@.books;
                let mut s = self.take(i);
                s.player = Some(p);
                self.put(i, s);
                assert(self@.books =~= before.update(i as int, s@));
                proof {
                    lemma_session_index(before, id, 0);
                    if registry_wf(old(self)@) {
                        lemma_with_session_wf(old(self)@, id, s@);
                    }
                }
                Ok(())
            },
            None => Err(EngineError::BookNotFound),
        }
    }

    /// Makes a theme the active one of a book. The name need not be
    /// registered yet.
    pub fn apply_theme(&mut self, id: u64, name: &str) -> (r: Result<(), EngineError>)
        ensures
            registry_wf(old(self)@) ==> registry_wf(final(self)@),
            r is Ok <==> is_open(old(self)@, id),
            r is Err ==> r->Err_0 == EngineError::BookNotFound && final(self)@ == old(self)@,
            r is Ok ==> final(self)@ == with_session(
                old(self)@,
                id,
                SessionView { active_theme: Some(name@), ..session_of(old(self)@, id) },
            ),
    {
        match self.find(id) {
            Some(i) => {
                let ghost before = self@.books;
                let mut s = self.take(i);
                s.active_theme = Some(name.to_string());
                self.put(i, s);
                assert(self@.books =~= before.update(i as int, s@));
                proof {
                    lemma_session_index(before, id, 0);
                    if registry_wf(old(self)@) {
                        lemma_with_session_wf(old(self)@, id, s@);
                    }
                }
                Ok(())
            },
            None => Err(EngineError::BookNotFound),
        }
    }

    /// Sets the font rules of a book.
    pub fn set_book_font_css(&mut self, id: u64, css: &str) -> (r: Result<(), EngineError>)
        ensures
            registry_wf(old(self)@) ==> registry_wf(final(self)@),
            r is Ok <==> is_open(old(self)@, id),
            r is Err ==> r->Err_0 == EngineError::BookNotFound && final(self)@ == old(self)@,
            r is Ok ==> final(self)@ == with_session(
                old(self)@,
                id,
                SessionView { font_css: css@, ..session_of(old(self)@, id) },
            ),
    {
        match self.find(id) {
            Some(i) => {
                let ghost before = self@.books;
                let mut s = self.take(i);
                s.font_css = css.to_string();
                self.put(i, s);
                assert(self@.books =~= before.update(i as int, s@));
                proof {
                    lemma_session_index(before, id, 0);
                    if registry_wf(old(self)@) {
                        lemma_with_session_wf(old(self)@, id, s@);
                    }
                }
                Ok(())
            },
            None => Err(EngineError::BookNotFound),
        }
    }

    /// The whole style sheet of a book: the global font rules, the book's
    /// font rules and the rules of its active theme, each on lines of its
    /// own.
    pub fn book_css(&self, id: u64) -> (r: Result<String, EngineError>)
        ensures
            r is Ok <==> is_open(self@, id),
            r is Err ==> r->Err_0 == EngineError::BookNotFound,
            r is Ok ==> r->Ok_0@ == book_css_of(self@, session_of(self@, id)),
    {
        let s = match self.session(id) {
            Ok(s) => s,
            Err(e) => {
                return Err(e);
            },
        };
        let global = self.themes.get_font_css();
        let theme = match &s.active_theme {
            Some(name) => match self.themes.get_css(name.as_str()) {
                Some(css) => css,
                None => String::new(),
            },
            None => String::new(),
        };
        Ok(combine_css(global.as_str(), s.font_css.as_str(), theme.as_str()))
    }

    /// Sets the replacement strategy of a book.
    pub fn set_strategy(&mut self, id: u64, strategy: ReplacementStrategy) -> (r: Result<
        (),
        EngineError,
    >)
        ensures
            registry_wf(old(self)@) ==> registry_wf(final(self)@),
            r is Ok <==> is_open(old(self)@, id),
            r is Err ==> r->Err_0 == EngineError::BookNotFound && final(self)@ == old(self)@,
            r is Ok ==> {
                let s = session_of(old(self)@, id);
                final(self)@ == with_session(
                    old(self)@,
                    id,
                    SessionView {
                        resources: Some(
                            ResourceManagerView {
                                strategy,
                                blobs: match s.resources {
                                    Some(m) => m.blobs,
                                    None => Seq::empty(),
                                },
                            },
                        ),
                        ..s
                    },
                )
            },
    {
        match self.find(id) {
            Some(i) => {
                let ghost before = self@.books;
                let mut s = self.take(i);
                let mut m = match s.resources {
                    Some(m) => m,
                    None => ResourceManager::new(strategy),
                };
                m.set_strategy(strategy);
                proof {
                    if before[i as int].resources is None {
                        assert(m@.blobs =~= Seq::empty());
                    }
                }
                s.resources = Some(m);
                self.put(i, s);
                assert(self@.books =~= before.update(i as int, s@));
                proof {
                    lemma_session_index(before, id, 0);
                    if registry_wf(old(self)@) {
                        lemma_with_session_wf(old(self)@, id, s@);
                    }
                }
                Ok(())
            },
            None => Err(EngineError::BookNotFound),
        }
    }

    /// Registers a blob URL for a resource path of a book, in place of the
    /// URL that the path had. A book without a strategy gets the default
    /// one.
    pub fn register_blob(&mut self, id: u64, path: String, url: String) -> (r: Result<
        (),
        EngineError,
    >)
        ensures
            registry_wf(old(self)@) ==> registry_wf(final(self)@),
            r is Ok <==> is_open(old(self)@, id),
            r is Err ==> r->Err_0 == EngineError::BookNotFound && final(self)@ == old(self)@,
            r is Ok ==> {
                let s = session_of(old(self)@, id);
                let before = match s.resources {
                    Some(m) => m,
                    None => ResourceManagerView {
                        blobs: Seq::empty(),
                        strategy: ReplacementStrategy {
                            default: crate::replacements::ReplacementMode::Base64,
                            images: None,
                            fonts: None,
                            stylesheets: None,
                            scripts: None,
                        },
                    },
                };
                final(self)@ == with_session(
                    old(self)@,
                    id,
                    SessionView {
                        resources: Some(
                            ResourceManagerView {
                                blobs: crate::resources::blob_put(before.blobs, path@, url@),
                                ..before
                            },
                        ),
                        ..s
                    },
                )
            },
    {
        match self.find(id) {
            Some(i) => {
                let ghost before = self@.books;
                let mut s = self.take(i);
                let mut m = match s.resources {
                    Some(m) => m,
                    None => {
                        let fresh = ResourceManager::with_default();
                        assert(fresh@.blobs =~= Seq::empty());
                        fresh
                    },
                };
                m.register_blob(path, url);
                s.resources = Some(m);
                self.put(i, s);
                assert(self@.books =~= before.update(i as int, s@));
                proof {
                    lemma_session_index(before, id, 0);
                    if registry_wf(old(self)@) {
                        lemma_with_session_wf(old(self)@, id, s@);
                    }
                }
                Ok(())
            },
            None => Err(EngineError::BookNotFound),
        }
    }

    /// What the renderer needs to show `count` pages from `start_page` on.
    pub fn render_plan(&self, id: u64, start_page: usize, count: usize) -> (r: Result<
        RenderPlan,
        EngineError,
    >)
        ensures
            match r {
                Ok(p) => {
                    let s = session_of(self@, id);
                    &&& is_open(self@, id)
                    &&& s.layout is Some
                    &&& p.total_pages == s.layout->0.total_pages
                    &&& p.pages@ == page_window(s.layout->0.pages, start_page as int, count as int)
                    &&& opt_view(p.theme_css) == (if book_css_of(self@, s).len() > 0 {
                        Some(book_css_of(self@, s))
                    } else {
                        None
                    })
                    &&& views(p.annotations@) == s.annotations
                    &&& opt_view(p.page_progression_direction)
                        == s.doc.page_progression_direction
                },
                Err(e) => if is_open(self@, id) {
                    e == EngineError::LayoutNotComputed && session_of(self@, id).layout is None
                } else {
                    e == EngineError::BookNotFound
                },
            },
    {
        let i = match self.find(id) {
            Some(i) => i,
            None => {
                return Err(EngineError::BookNotFound);
            },
        };
        assert(self@.books[i as int] == self.books@[i as int]@);
        let s = &self.books[i];
        let plan = match &s.layout {
            Some(p) => p,
            None => {
                return Err(EngineError::LayoutNotComputed);
            },
        };
        let mut pages: Vec<PageRef> = Vec::new();
        if start_page < plan.pages.len() && count > 0 {
            let end = if count < plan.pages.len() - start_page {
                start_page + count
            } else {
                plan.pages.len()
            };
            let mut k: usize = start_page;
            while k < end
                invariant
                    start_page <= k <= end <= plan.pages.len(),
                    pages@ == plan.pages@.subrange(start_page as int, k as int),
                decreases end - k,
            {
                pages.push(plan.pages[k]);
                assert(pages@ =~= plan.pages@.subrange(start_page as int, k + 1));
                k += 1;
            }
        } else {
            assert(pages@ =~= Seq::<PageRef>::empty());
        }
        let css = match self.book_css(id) {
            Ok(c) => c,
            Err(e) => {
                return Err(e);
            },
        };
        let theme_css = if crate::text::chars_of(css.as_str()).len() > 0 {
            Some(css)
        } else {
            None
        };
        Ok(
            RenderPlan {
                total_pages: plan.total_pages,
                pages,
                theme_css,
                annotations: s.annotations.list(),
                page_progression_direction: s.doc.page_progression_direction.clone(),
            },
        )
    }
}

} // verus!
