//! Playback cursor: the paragraphs of a page, and the state machine that
//! walks them.

use crate::cfi::body_text;
use crate::docs::{resource_text_of_id, DocView, EpubDoc};
use crate::layout::{LayoutPlan, LayoutPlanView, PageRef};
use crate::mapping::{offset_cfi, wrap_i32};
use crate::numbers::i64_text;
use crate::text::{
    chars_of, contains_chars, contains_seq, extend_chars, lemma_views_push, replace_all,
    replace_chars, split_char, split_on, string_of, strip_tag_chars, stripped, trim_chars,
    trimmed, views,
};
use vstd::prelude::*;

verus! {

/// Default of the least length of a paragraph, in characters.
pub const DEFAULT_MIN_PARAGRAPH_LEN: usize = 50;

/// Whether the player is playing.
#[derive(Debug, Clone, Copy, PartialEq, Eq)]
pub enum PlayingState {
    Playing,
    Paused,
    Stopped,
}

/// What a player is told to do.
#[derive(Debug, Clone, Copy, PartialEq, Eq)]
pub enum PlayerCommand {
    Play,
    Pause,
    Resume,
    Stop,
    Next,
    Prev,
    SetPage(usize),
}

/// The cursor of one book.
#[derive(Debug, Clone, Copy, PartialEq, Eq)]
pub struct PlayerCore {
    pub book_id: u64,
    pub current_page_index: usize,
    pub current_paragraph_index: usize,
    pub state: PlayingState,
}

/// A paragraph with the range of characters it covers.
#[derive(Debug)]
pub struct ParagraphResp {
    pub text: String,
    pub cfi_range: String,
}

/// The mathematical model of `Paragraph`.
pub struct ParagraphView {
    pub text: Seq<char>,
    pub cfi_range: Seq<char>,
}

impl View for ParagraphResp {
    type V = ParagraphView;

    open spec fn view(&self) -> ParagraphView {
        ParagraphView { text: self.text@, cfi_range: self.cfi_range@ }
    }
}

/// What the player emits when it plays a paragraph.
#[derive(Debug)]
pub struct PlayerParagraphEvent {
    pub book_id: u64,
    pub page_index: usize,
    pub paragraph_index: usize,
    pub text: String,
    pub cfi_range: String,
}

/// The mathematical model of `PlayerEvent`.
pub struct PlayerEventView {
    pub book_id: u64,
    pub page_index: usize,
    pub paragraph_index: usize,
    pub text: Seq<char>,
    pub cfi_range: Seq<char>,
}

impl View for PlayerParagraphEvent {
    type V = PlayerEventView;

    open spec fn view(&self) -> PlayerEventView {
        PlayerEventView {
            book_id: self.book_id,
            page_index: self.page_index,
            paragraph_index: self.paragraph_index,
            text: self.text@,
            cfi_range: self.cfi_range@,
        }
    }
}

/// Content with paragraph ends and line breaks turned into line feeds and
/// all tags removed.
pub open spec fn plain_text(content: Seq<char>) -> Seq<char> {
    stripped(
        replace_all(
            replace_all(
                replace_all(replace_all(content, "</p>"@, "\n\n"@), "<br>"@, "\n"@),
                "<br/>"@,
                "\n"@,
            ),
            "<br />"@,
            "\n"@,
        ),
    )
}

/// The paragraphs among the first `n` lines: each line without surrounding
/// white space, where that leaves at least one and at least `min_len`
/// characters.
pub open spec fn paragraphs_among(lines: Seq<Seq<char>>, min_len: usize, n: int) -> Seq<Seq<char>>
    decreases n,
{
    if n <= 0 || n > lines.len() {
        Seq::empty()
    } else {
        let t = trimmed(lines[n - 1]);
        if t.len() > 0 && t.len() >= min_len {
            paragraphs_among(lines, min_len, n - 1).push(t)
        } else {
            paragraphs_among(lines, min_len, n - 1)
        }
    }
}

/// The paragraphs of a content document.
pub open spec fn paragraph_texts(content: Seq<char>, min_len: usize) -> Seq<Seq<char>> {
    let lines = split_char(plain_text(content), '\n');
    paragraphs_among(lines, min_len, lines.len() as int)
}

/// The running character index at which paragraph `k` starts: the lengths
/// of the paragraphs before it, and one more for each.
pub open spec fn paragraph_start(parts: Seq<Seq<char>>, k: int) -> int
    decreases k,
{
    if k <= 0 || k > parts.len() {
        0
    } else {
        paragraph_start(parts, k - 1) + parts[k - 1].len() + 1
    }
}

/// The text of the range from offset `s` to offset `e` of a spine item.
pub open spec fn range_text_of(spine: int, s: int, e: int) -> Seq<char> {
    "epubcfi(range("@ + body_text(offset_cfi(spine, s)) + seq![','] + body_text(
        offset_cfi(spine, e),
    ) + "))"@
}

/// The paragraphs among the first `n` that a page shows: those whose span
/// of the running index meets the span of the page, each with the range of
/// the part of it that lies on the page.
pub open spec fn shown_upto(parts: Seq<Seq<char>>, page: PageRef, n: int) -> Seq<ParagraphView>
    decreases n,
{
    if n <= 0 || n > parts.len() {
        Seq::empty()
    } else {
        let start = paragraph_start(parts, n - 1);
        let end = start + parts[n - 1].len();
        if end <= page.start_char || start >= page.end_char {
            shown_upto(parts, page, n - 1)
        } else {
            let s = if start > page.start_char {
                start
            } else {
                page.start_char as int
            };
            let e = if end < page.end_char {
                end
            } else {
                page.end_char as int
            };
            shown_upto(parts, page, n - 1).push(
                ParagraphView {
                    text: parts[n - 1],
                    cfi_range: range_text_of(page.spine_index as int, s, e),
                },
            )
        }
    }
}

/// The paragraphs that a page shows of the content of its spine item.
pub open spec fn page_paragraphs(content: Seq<char>, page: PageRef, min_len: usize) -> Seq<
    ParagraphView,
> {
    let parts = paragraph_texts(content, min_len);
    shown_upto(parts, page, parts.len() as int)
}

/// The paragraphs of page `page_index` of a book: none where the plan has no
/// such page, the spine no such item, or the item no readable HTML text.
pub open spec fn paragraphs_of(d: DocView, plan: LayoutPlanView, page_index: int, min_len: usize) -> Seq<
    ParagraphView,
> {
    if 0 <= page_index < plan.pages.len() {
        let page = plan.pages[page_index];
        if page.spine_index < d.spine.len() {
            match resource_text_of_id(d, d.spine[page.spine_index as int].idref) {
                Some(p) => if contains_seq(p.1, "html"@) {
                    page_paragraphs(p.0, page, min_len)
                } else {
                    Seq::empty()
                },
                None => Seq::empty(),
            }
        } else {
            Seq::empty()
        }
    } else {
        Seq::empty()
    }
}

/// Paragraphs start in ascending order of the running index.
pub proof fn lemma_paragraph_start_mono(parts: Seq<Seq<char>>, a: int, b: int)
    requires
        0 <= a <= b <= parts.len(),
    ensures
        0 <= paragraph_start(parts, a) <= paragraph_start(parts, b),
    decreases b,
{
    if a < b {
        lemma_paragraph_start_mono(parts, a, b - 1);
    } else if a > 0 {
        lemma_paragraph_start_mono(parts, 0, a - 1);
        lemma_paragraph_start_mono(parts, a - 1, a - 1);
    }
}

/// Paragraphs that start at or after the end of the page are not shown.
pub proof fn lemma_none_shown_beyond(parts: Seq<Seq<char>>, page: PageRef, k: int, n: int)
    requires
        0 <= k <= n <= parts.len(),
        paragraph_start(parts, k) >= page.end_char,
    ensures
        shown_upto(parts, page, n) == shown_upto(parts, page, k),
    decreases n,
{
    if k < n {
        lemma_none_shown_beyond(parts, page, k, n - 1);
        lemma_paragraph_start_mono(parts, k, n - 1);
    }
}

/// The paragraphs of a content document: its lines without tags and
/// surrounding white space, where at least one and at least `min_len`
/// characters remain.
pub fn split_paragraphs(content: &str, min_len: usize) -> (r: Vec<Vec<char>>)
    ensures
        views(r@) == paragraph_texts(content@, min_len),
{
    let c = chars_of(content);
    let lf = chars_of("\n");
    let t1 = replace_chars(&c, &chars_of("</p>"), &chars_of("\n\n"));
    let t2 = replace_chars(&t1, &chars_of("<br>"), &lf);
    let t3 = replace_chars(&t2, &chars_of("<br/>"), &lf);
    let t4 = replace_chars(&t3, &chars_of("<br />"), &lf);
    let plain = strip_tag_chars(&t4);
    let lines = split_on(&plain, '\n');
    let mut parts: Vec<Vec<char>> = Vec::new();
    let mut i: usize = 0;
    assert(views(parts@) =~= Seq::<Seq<char>>::empty());
    while i < lines.len()
        invariant
            i <= lines.len(),
            views(parts@) == paragraphs_among(views(lines@), min_len, i as int),
        decreases lines.len() - i,
    {
        assert(views(lines@)[i as int] == lines@[i as int]@);
        let t = trim_chars(&lines[i]);
        if t.len() > 0 && t.len() >= min_len {
            proof {
                lemma_views_push(parts@, t);
            }
            parts.push(t);
        }
        i += 1;
    }
    parts
}

/// The text of the range from offset `s` to offset `e` of a spine item.
pub fn range_text(spine_index: usize, s: usize, e: usize) -> (r: String)
    ensures
        r@ == range_text_of(spine_index as int, s as int, e as int),
{
    let mut out = chars_of("epubcfi(range(");
    out.push('/');
    let a = i64_text(wrap_i32(spine_index) as i64);
    extend_chars(&mut out, &a);
    out.push(':');
    let b = i64_text(wrap_i32(s) as i64);
    extend_chars(&mut out, &b);
    out.push(',');
    out.push('/');
    extend_chars(&mut out, &a);
    out.push(':');
    let c = i64_text(wrap_i32(e) as i64);
    extend_chars(&mut out, &c);
    let close = chars_of("))");
    extend_chars(&mut out, &close);
    proof {
        lemma_offset_body(spine_index as int, s as int);
        lemma_offset_body(spine_index as int, e as int);
        assert(out@ =~= range_text_of(spine_index as int, s as int, e as int));
    }
    string_of(&out)
}

/// The body of an offset location is `/`, the spine index, `:` and the
/// offset.
pub proof fn lemma_offset_body(spine: int, off: int)
    ensures
        body_text(offset_cfi(spine, off)) == seq!['/'] + crate::numbers::int_text(
            crate::mapping::wrapped(spine) as int,
        ) + seq![':'] + crate::numbers::int_text(crate::mapping::wrapped(off) as int),
{
    let c = offset_cfi(spine, off);
    let steps = c.spine_path.steps;
    assert(crate::cfi::steps_text(steps, 0) =~= Seq::<char>::empty());
    assert(crate::cfi::steps_text(steps, 1) =~= crate::cfi::step_text(steps[0]));
    assert(crate::cfi::step_text(steps[0]) =~= seq!['/'] + crate::numbers::int_text(
        crate::mapping::wrapped(spine) as int,
    ));
    assert(body_text(c) =~= seq!['/'] + crate::numbers::int_text(
        crate::mapping::wrapped(spine) as int,
    ) + seq![':'] + crate::numbers::int_text(crate::mapping::wrapped(off) as int));
}

/// The paragraphs that a page shows of the given paragraphs of its spine
/// item.
pub fn paragraphs_on_page(parts: &Vec<Vec<char>>, page: &PageRef) -> (r: Vec<ParagraphResp>)
    ensures
        views(r@) == shown_upto(views(parts@), *page, parts@.len() as int),
{
    let ghost pv = views(parts@);
    let mut res: Vec<ParagraphResp> = Vec::new();
    let mut cum: usize = 0;
    let mut i: usize = 0;
    assert(views(res@) =~= Seq::<ParagraphView>::empty());
    while i < parts.len()
        invariant
            i <= parts.len(),
            pv == views(parts@),
            cum as int == paragraph_start(pv, i as int),
            views(res@) == shown_upto(pv, *page, i as int),
        decreases parts.len() - i,
    {
        assert(pv[i as int] == parts@[i as int]@);
        let len = parts[i].len();
        let start = cum;
        if start >= page.end_char {
            proof {
                lemma_none_shown_beyond(pv, *page, i as int, parts@.len() as int);
            }
            return res;
        }
        let reaches_end = len >= page.end_char - start;
        let shown = if page.start_char < start {
            true
        } else {
            len > page.start_char - start
        };
        if shown {
            let s_off = if start > page.start_char {
                start
            } else {
                page.start_char
            };
            let e_off = if reaches_end {
                page.end_char
            } else {
                start + len
            };
            let p = ParagraphResp {
                text: string_of(&parts[i]),
                cfi_range: range_text(page.spine_index, s_off, e_off),
            };
            proof {
                lemma_views_push(res@, p);
            }
            res.push(p);
        }
        if reaches_end {
            proof {
                lemma_none_shown_beyond(pv, *page, i + 1, parts@.len() as int);
            }
            return res;
        }
        cum = start + len + 1;
        i += 1;
    }
    res
}

/// The paragraphs of a page of a book, each at least `min_len` characters
/// long.
pub fn paragraphs_for_page(
    doc: &EpubDoc,
    plan: &LayoutPlan,
    page_index: usize,
    min_len: usize,
) -> (r: Vec<ParagraphResp>)
    ensures
        views(r@) == paragraphs_of(doc@, plan@, page_index as int, min_len),
{
    let none: Vec<ParagraphResp> = Vec::new();
    assert(views(none@) =~= Seq::<ParagraphView>::empty());
    if page_index >= plan.pages.len() {
        return none;
    }
    let p = &plan.pages[page_index];
    if p.spine_index >= doc.spine.len() {
        return none;
    }
    assert(doc@.spine[p.spine_index as int] == doc.spine@[p.spine_index as int]@);
    match doc.get_resource_str(doc.spine[p.spine_index].idref.as_str()) {
        Some((content, mime)) => {
            let m = chars_of(mime.as_str());
            let html = chars_of("html");
            if !contains_chars(&m, &html) {
                return none;
            }
            let parts = split_paragraphs(content.as_str(), min_len);
            paragraphs_on_page(&parts, p)
        },
        None => none,
    }
}

/// The paragraphs of a page of a book, each at least as long as the default
/// of the least length.
pub fn paragraphs_for_page_internal(doc: &EpubDoc, plan: &LayoutPlan, page_index: usize) -> (r: Vec<
    ParagraphResp,
>)
    ensures
        views(r@) == paragraphs_of(doc@, plan@, page_index as int, DEFAULT_MIN_PARAGRAPH_LEN),
{
    paragraphs_for_page(doc, plan, page_index, DEFAULT_MIN_PARAGRAPH_LEN)
}

/// The page that follows `page` among `total_pages`, or `page` itself at
/// the end.
pub open spec fn page_after(page: usize, total_pages: usize) -> usize {
    if page + 1 < total_pages {
        (page + 1) as usize
    } else {
        page
    }
}

/// The player after a command, on a page with `paragraphs_on_page`
/// paragraphs in a book of `total_pages` pages.
pub open spec fn after_command(
    p: PlayerCore,
    command: PlayerCommand,
    paragraphs_on_page: usize,
    total_pages: usize,
) -> PlayerCore {
    match command {
        PlayerCommand::Play => PlayerCore { state: PlayingState::Playing, ..p },
        PlayerCommand::Pause => PlayerCore { state: PlayingState::Paused, ..p },
        PlayerCommand::Resume => PlayerCore { state: PlayingState::Playing, ..p },
        PlayerCommand::Stop => PlayerCore {
            state: PlayingState::Stopped,
            current_paragraph_index: 0,
            ..p
        },
        PlayerCommand::Next => if p.current_paragraph_index + 1 < paragraphs_on_page {
            PlayerCore { current_paragraph_index: (p.current_paragraph_index + 1) as usize, ..p }
        } else {
            PlayerCore {
                current_page_index: page_after(p.current_page_index, total_pages),
                current_paragraph_index: 0,
                ..p
            }
        },
        PlayerCommand::Prev => if p.current_paragraph_index > 0 {
            PlayerCore { current_paragraph_index: (p.current_paragraph_index - 1) as usize, ..p }
        } else {
            PlayerCore {
                current_page_index: if p.current_page_index > 0 {
                    (p.current_page_index - 1) as usize
                } else {
                    0
                },
                current_paragraph_index: 0,
                ..p
            }
        },
        PlayerCommand::SetPage(page) => PlayerCore {
            current_page_index: page,
            current_paragraph_index: 0,
            ..p
        },
    }
}

impl PlayerCore {
    /// A stopped player at the first paragraph of the first page.
    pub fn new(book_id: u64) -> (p: PlayerCore)
        ensures
            p == (PlayerCore {
                book_id,
                current_page_index: 0,
                current_paragraph_index: 0,
                state: PlayingState::Stopped,
            }),
    {
        PlayerCore {
            book_id,
            current_page_index: 0,
            current_paragraph_index: 0,
            state: PlayingState::Stopped,
        }
    }

    /// Starts playing at the current paragraph.
    pub fn play(&mut self)
        ensures
            *final(self) == (PlayerCore { state: PlayingState::Playing, ..*old(self) }),
    {
        self.state = PlayingState::Playing;
    }

    /// Pauses; the position stays.
    pub fn pause(&mut self)
        ensures
            *final(self) == (PlayerCore { state: PlayingState::Paused, ..*old(self) }),
    {
        self.state = PlayingState::Paused;
    }

    /// Plays on from the current paragraph.
    pub fn resume(&mut self)
        ensures
            *final(self) == (PlayerCore { state: PlayingState::Playing, ..*old(self) }),
    {
        self.state = PlayingState::Playing;
    }

    /// Stops and goes back to the first paragraph of the page.
    pub fn stop(&mut self)
        ensures
            *final(self) == (PlayerCore {
                state: PlayingState::Stopped,
                current_paragraph_index: 0,
                ..*old(self)
            }),
    {
        self.state = PlayingState::Stopped;
        self.current_paragraph_index = 0;
    }

    /// Goes to the next paragraph of the page, which has
    /// `paragraphs_on_page` of them; after the last one, to the first
    /// paragraph of the next page, or of this page where it is the last of
    /// `total_pages`.
    pub fn next(&mut self, paragraphs_on_page: usize, total_pages: usize)
        ensures
            *final(self) == (if old(self).current_paragraph_index + 1 < paragraphs_on_page {
                PlayerCore {
                    current_paragraph_index: (old(self).current_paragraph_index + 1) as usize,
                    ..*old(self)
                }
            } else {
                PlayerCore {
                    current_page_index: page_after(old(self).current_page_index, total_pages),
                    current_paragraph_index: 0,
                    ..*old(self)
                }
            }),
    {
        if self.current_paragraph_index < paragraphs_on_page && self.current_paragraph_index + 1
            < paragraphs_on_page {
            self.current_paragraph_index += 1;
        } else {
            if self.current_page_index < total_pages && self.current_page_index + 1 < total_pages {
                self.current_page_index += 1;
            }
            self.current_paragraph_index = 0;
        }
    }

    /// Goes to the previous paragraph of the page; before the first one, to
    /// the first paragraph of the previous page, or of this page where it is
    /// the first.
    pub fn prev(&mut self)
        ensures
            *final(self) == (if old(self).current_paragraph_index > 0 {
                PlayerCore {
                    current_paragraph_index: (old(self).current_paragraph_index - 1) as usize,
                    ..*old(self)
                }
            } else {
                PlayerCore {
                    current_page_index: if old(self).current_page_index > 0 {
                        (old(self).current_page_index - 1) as usize
                    } else {
                        0
                    },
                    current_paragraph_index: 0,
                    ..*old(self)
                }
            }),
    {
        if self.current_paragraph_index > 0 {
            self.current_paragraph_index -= 1;
        } else {
            if self.current_page_index > 0 {
                self.current_page_index -= 1;
            }
            self.current_paragraph_index = 0;
        }
    }

    /// Goes to the first paragraph of page `page`; the state stays.
    pub fn set_page(&mut self, page: usize)
        ensures
            *final(self) == (PlayerCore {
                current_page_index: page,
                current_paragraph_index: 0,
                ..*old(self)
            }),
    {
        self.current_page_index = page;
        self.current_paragraph_index = 0;
    }

    /// Does what a command says, on a page with `paragraphs_on_page`
    /// paragraphs in a book of `total_pages` pages, and says whether the
    /// current paragraph is to be emitted: after `Play` and `Resume`.
    pub fn apply(&mut self, command: PlayerCommand, paragraphs_on_page: usize, total_pages: usize) -> (emit: bool)
        ensures
            *final(self) == after_command(*old(self), command, paragraphs_on_page, total_pages),
            emit == (command == PlayerCommand::Play || command == PlayerCommand::Resume),
    {
        match command {
            PlayerCommand::Play => {
                self.play();
                true
            },
            PlayerCommand::Pause => {
                self.pause();
                false
            },
            PlayerCommand::Resume => {
                self.resume();
                true
            },
            PlayerCommand::Stop => {
                self.stop();
                false
            },
            PlayerCommand::Next => {
                self.next(paragraphs_on_page, total_pages);
                false
            },
            PlayerCommand::Prev => {
                self.prev();
                false
            },
            PlayerCommand::SetPage(p) => {
                self.set_page(p);
                false
            },
        }
    }

    /// The event for the current paragraph, given the paragraphs of the
    /// current page; `None` where the page has no such paragraph.
    pub fn current_event(&self, paragraphs: &Vec<ParagraphResp>) -> (r: Option<
        PlayerParagraphEvent,
    >)
        ensures
            match r {
                Some(e) => self.current_paragraph_index < paragraphs@.len() && e@ == (PlayerEventView {
                    book_id: self.book_id,
                    page_index: self.current_page_index,
                    paragraph_index: self.current_paragraph_index,
                    text: paragraphs@[self.current_paragraph_index as int]@.text,
                    cfi_range: paragraphs@[self.current_paragraph_index as int]@.cfi_range,
                }),
                None => self.current_paragraph_index >= paragraphs@.len(),
            },
    {
        if self.current_paragraph_index < paragraphs.len() {
            let p = &paragraphs[self.current_paragraph_index];
            Some(
                PlayerParagraphEvent {
                    book_id: self.book_id,
                    page_index: self.current_page_index,
                    paragraph_index: self.current_paragraph_index,
                    text: p.text.clone(),
                    cfi_range: p.cfi_range.clone(),
                },
            )
        } else {
            None
        }
    }
}

} // verus!
