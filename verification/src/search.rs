//! Full-text search: case-insensitive occurrences of a query in the text
//! of the spine items, each with its location and an excerpt.

use crate::cfi::cfi_text;
use crate::docs::{resource_text_of_id, DocView, EpubDoc};
use crate::mapping::{offset_cfi, offset_to_cfi};
use crate::text::{
    chars_of, contains_chars, contains_seq, find_from, find_in, lemma_find_from_bounds,
    lemma_views_push, lowercase, lowercase_of, matches_at, replace_all, replace_chars, slice_of,
    string_of, strip_tag_chars, stripped, views,
};
use vstd::prelude::*;

verus! {

/// Default of the greatest number of hits.
pub const DEFAULT_MAX_RESULTS: usize = 50;

/// Number of characters of an excerpt on each side of the match.
pub const EXCERPT_MARGIN: usize = 30;

/// One occurrence of the query.
#[derive(Debug)]
pub struct SearchHit {
    /// The location of the occurrence.
    pub cfi: String,
    /// The text around the occurrence.
    pub excerpt: String,
}

/// The mathematical model of `SearchHit`.
pub struct SearchHitView {
    pub cfi: Seq<char>,
    pub excerpt: Seq<char>,
}

impl View for SearchHit {
    type V = SearchHitView;

    open spec fn view(&self) -> SearchHitView {
        SearchHitView { cfi: self.cfi@, excerpt: self.excerpt@ }
    }
}

/// The text that is searched: the content with paragraph ends and line
/// breaks turned into line feeds and all tags removed.
pub open spec fn searchable(content: Seq<char>) -> Seq<char> {
    stripped(
        replace_all(
            replace_all(
                replace_all(replace_all(content, "</p>"@, "\n\n"@), "<br>"@, "\n"@),
                "<br/>"@,
                "\n"@,
            ),
            "<br />"@,
            "\n"@,
        ),
    )
}

/// The positions of up to `limit` occurrences of `q` in `hay` from `from`
/// on, from left to right and without overlap. An empty query occurs
/// nowhere.
pub open spec fn occurrences(hay: Seq<char>, q: Seq<char>, from: int, limit: int) -> Seq<int>
    decreases hay.len() - from,
{
    let p = find_from(hay, q, from);
    if limit <= 0 || q.len() == 0 || from < 0 || p < from || p + q.len() > hay.len() {
        Seq::empty()
    } else {
        seq![p] + occurrences(hay, q, p + q.len(), limit - 1)
    }
}

/// The excerpt of an occurrence at `pos` of a query of `qlen` characters:
/// the text from 30 characters before the occurrence to 30 characters after
/// it, as far as the text reaches.
pub open spec fn excerpt_of(text: Seq<char>, pos: int, qlen: int) -> Seq<char> {
    let a = if pos > EXCERPT_MARGIN {
        pos - EXCERPT_MARGIN
    } else {
        0
    };
    let b = if pos + qlen + EXCERPT_MARGIN < text.len() {
        pos + qlen + EXCERPT_MARGIN
    } else {
        text.len() as int
    };
    if 0 <= a <= b <= text.len() {
        text.subrange(a, b)
    } else {
        Seq::empty()
    }
}

/// The hits at the first `n` of the given positions of a spine item.
pub open spec fn hits_at(
    spine: int,
    text: Seq<char>,
    qlen: int,
    positions: Seq<int>,
    n: int,
) -> Seq<SearchHitView>
    decreases n,
{
    if n <= 0 || n > positions.len() {
        Seq::empty()
    } else {
        hits_at(spine, text, qlen, positions, n - 1).push(
            SearchHitView {
                cfi: cfi_text(offset_cfi(spine, positions[n - 1])),
                excerpt: excerpt_of(text, positions[n - 1], qlen),
            },
        )
    }
}

/// The hits of a query in a spine item: up to `limit` occurrences of the
/// lower-cased query `q` in the lower-cased text `hay`, with excerpts from
/// the text itself.
pub open spec fn item_hits(spine: int, text: Seq<char>, hay: Seq<char>, q: Seq<char>, limit: int) -> Seq<
    SearchHitView,
> {
    let positions = occurrences(hay, q, 0, limit);
    hits_at(spine, text, q.len() as int, positions, positions.len() as int)
}

/// The text of spine item `i` that is searched, where the item is readable
/// HTML.
pub open spec fn item_text(d: DocView, i: int) -> Option<Seq<char>> {
    if 0 <= i < d.spine.len() {
        match resource_text_of_id(d, d.spine[i].idref) {
            Some(p) => if contains_seq(p.1, "html"@) {
                Some(searchable(p.0))
            } else {
                None
            },
            None => None,
        }
    } else {
        None
    }
}

/// The hits of a query in the first `n` spine items, at most `max` of them.
pub open spec fn hits_upto(d: DocView, query: Seq<char>, max: int, n: int) -> Seq<SearchHitView>
    decreases n,
{
    if n <= 0 || n > d.spine.len() {
        Seq::empty()
    } else {
        let prev = hits_upto(d, query, max, n - 1);
        match item_text(d, n - 1) {
            Some(text) => prev + item_hits(
                n - 1,
                text,
                lowercase_of(text),
                lowercase_of(query),
                max - prev.len(),
            ),
            None => prev,
        }
    }
}

/// Every occurrence found is one, none lies before the start, and there are no more than asked for.
pub proof fn lemma_occurrences(hay: Seq<char>, q: Seq<char>, from: int, limit: int)
    requires
        0 <= from,
    ensures
        occurrences(hay, q, from, limit).len() <= limit || occurrences(hay, q, from, limit).len()
            == 0,
        forall|k: int|
            0 <= k < occurrences(hay, q, from, limit).len() ==> {
                &&& from <= #[trigger] occurrences(hay, q, from, limit)[k]
                &&& matches_at(hay, q, occurrences(hay, q, from, limit)[k])
            },
    decreases hay.len() - from,
{
    let p = find_from(hay, q, from);
    lemma_find_from_bounds(hay, q, from);
    if limit <= 0 || q.len() == 0 || p < from || p + q.len() > hay.len() {
    } else {
        lemma_occurrences(hay, q, p + q.len(), limit - 1);
        let rest = occurrences(hay, q, p + q.len(), limit - 1);
        let all = occurrences(hay, q, from, limit);
        assert forall|k: int| 0 <= k < all.len() implies {
            &&& from <= #[trigger] all[k]
            &&& matches_at(hay, q, all[k])
        } by {
            if k > 0 {
                assert(all[k] == rest[k - 1]);
            }
        }
    }
}

/// A search never yields more hits than asked for.
pub proof fn lemma_hits_bounded(d: DocView, query: Seq<char>, max: int, n: int)
    requires
        0 <= max,
    ensures
        hits_upto(d, query, max, n).len() <= max,
    decreases n,
{
    if n <= 0 || n > d.spine.len() {
    } else {
        lemma_hits_bounded(d, query, max, n - 1);
        let prev = hits_upto(d, query, max, n - 1);
        match item_text(d, n - 1) {
            Some(text) => {
                lemma_occurrences(lowercase_of(text), lowercase_of(query), 0, max - prev.len());
                let positions = occurrences(
                    lowercase_of(text),
                    lowercase_of(query),
                    0,
                    max - prev.len(),
                );
                lemma_hits_at_len(
                    n - 1,
                    text,
                    lowercase_of(query).len() as int,
                    positions,
                    positions.len() as int,
                );
            },
            None => {},
        }
    }
}

/// There is one hit for each position.
pub proof fn lemma_hits_at_len(spine: int, text: Seq<char>, qlen: int, positions: Seq<int>, n: int)
    requires
        0 <= n <= positions.len(),
    ensures
        hits_at(spine, text, qlen, positions, n).len() == n,
    decreases n,
{
    if n > 0 {
        lemma_hits_at_len(spine, text, qlen, positions, n - 1);
    }
}

/// Hit `k` of the first `n` positions is the hit at position `k`.
pub proof fn lemma_hit_at(spine: int, text: Seq<char>, qlen: int, positions: Seq<int>, n: int, k: int)
    requires
        0 <= k < n <= positions.len(),
    ensures
        hits_at(spine, text, qlen, positions, n).len() == n,
        hits_at(spine, text, qlen, positions, n)[k] == (SearchHitView {
            cfi: cfi_text(offset_cfi(spine, positions[k])),
            excerpt: excerpt_of(text, positions[k], qlen),
        }),
    decreases n,
{
    lemma_hits_at_len(spine, text, qlen, positions, n);
    lemma_hits_at_len(spine, text, qlen, positions, n - 1);
    if k < n - 1 {
        lemma_hit_at(spine, text, qlen, positions, n - 1, k);
    }
}

/// Every hit in a spine item is at an occurrence of the query: its location
/// is that of a position at which the lower-cased query stands in the
/// lower-cased text.
pub proof fn lemma_hits_are_occurrences(
    spine: int,
    text: Seq<char>,
    hay: Seq<char>,
    q: Seq<char>,
    limit: int,
    k: int,
)
    requires
        0 <= k < item_hits(spine, text, hay, q, limit).len(),
    ensures
        k < occurrences(hay, q, 0, limit).len(),
        matches_at(hay, q, occurrences(hay, q, 0, limit)[k]),
        item_hits(spine, text, hay, q, limit)[k].cfi == cfi_text(
            offset_cfi(spine, occurrences(hay, q, 0, limit)[k]),
        ),
{
    let positions = occurrences(hay, q, 0, limit);
    lemma_hits_at_len(spine, text, q.len() as int, positions, positions.len() as int);
    lemma_occurrences(hay, q, 0, limit);
    lemma_hit_at(spine, text, q.len() as int, positions, positions.len() as int, k);
}

/// The text of a content document that is searched.
pub fn searchable_text(content: &str) -> (r: Vec<char>)
    ensures
        r@ == searchable(content@),
{
    let c = chars_of(content);
    let lf = chars_of("\n");
    let t1 = replace_chars(&c, &chars_of("</p>"), &chars_of("\n\n"));
    let t2 = replace_chars(&t1, &chars_of("<br>"), &lf);
    let t3 = replace_chars(&t2, &chars_of("<br/>"), &lf);
    let t4 = replace_chars(&t3, &chars_of("<br />"), &lf);
    strip_tag_chars(&t4)
}

/// The excerpt of an occurrence.
fn excerpt(text: &Vec<char>, pos: usize, qlen: usize) -> (r: String)
    ensures
        r@ == excerpt_of(text@, pos as int, qlen as int),
{
    let a: usize = if pos > EXCERPT_MARGIN {
        pos - EXCERPT_MARGIN
    } else {
        0
    };
    let b: usize = if pos < text.len() && qlen < text.len() - pos && EXCERPT_MARGIN < text.len()
        - pos - qlen {
        pos + qlen + EXCERPT_MARGIN
    } else {
        text.len()
    };
    if a <= b {
        let v = slice_of(text, a, b);
        string_of(&v)
    } else {
        String::new()
    }
}

/// The hits of a lower-cased query in one spine item, given the text that
/// is searched and its lower-casing: up to `limit` occurrences from left to
/// right, without overlap.
pub fn search_item(
    spine_index: usize,
    text: &Vec<char>,
    hay: &Vec<char>,
    q: &Vec<char>,
    limit: usize,
) -> (r: Vec<SearchHit>)
    ensures
        views(r@) == item_hits(spine_index as int, text@, hay@, q@, limit as int),
        r@.len() <= limit,
{
    let mut out: Vec<SearchHit> = Vec::new();
    let ghost all = occurrences(hay@, q@, 0, limit as int);
    let ghost mut done: Seq<int> = Seq::empty();
    let mut from: usize = 0;
    assert(views(out@) =~= Seq::<SearchHitView>::empty());
    if q.len() == 0 {
        return out;
    }
    proof {
        assert(done + occurrences(hay@, q@, 0, limit as int) =~= all);
    }
    while out.len() < limit
        invariant
            from <= hay.len(),
            q.len() > 0,
            out@.len() <= limit,
            done.len() == out@.len(),
            done + occurrences(hay@, q@, from as int, limit - out@.len()) == all,
            views(out@) == hits_at(spine_index as int, text@, q@.len() as int, done, done.len() as int),
            all == occurrences(hay@, q@, 0, limit as int),
        decreases hay.len() - from,
    {
        match find_in(hay, q, from) {
            Some(p) => {
                proof {
                    lemma_find_from_bounds(hay@, q@, from as int);
                }
                let hit = SearchHit {
                    cfi: offset_to_cfi(spine_index, p),
                    excerpt: excerpt(text, p, q.len()),
                };
                proof {
                    let rest = occurrences(hay@, q@, p + q@.len(), limit - out@.len() - 1);
                    assert(done + (seq![p as int] + rest) =~= done.push(p as int) + rest);
                    lemma_views_push(out@, hit);
                    lemma_hits_prefix(
                        spine_index as int,
                        text@,
                        q@.len() as int,
                        done,
                        done.push(p as int),
                        done.len() as int,
                    );
                    done = done.push(p as int);
                }
                out.push(hit);
                from = p + q.len();
            },
            None => {
                proof {
                    assert(done + Seq::<int>::empty() =~= done);
                }
                return out;
            },
        }
    }
    proof {
        assert(done + Seq::<int>::empty() =~= done);
    }
    out
}

/// The hits at the first `n` positions depend on those positions only.
pub proof fn lemma_hits_prefix(
    spine: int,
    text: Seq<char>,
    qlen: int,
    a: Seq<int>,
    b: Seq<int>,
    n: int,
)
    requires
        0 <= n <= a.len(),
        n <= b.len(),
        forall|k: int| 0 <= k < n ==> a[k] == b[k],
    ensures
        hits_at(spine, text, qlen, a, n) == hits_at(spine, text, qlen, b, n),
    decreases n,
{
    if n > 0 {
        lemma_hits_prefix(spine, text, qlen, a, b, n - 1);
    }
}

/// Searches a book for a query, without regard to case.
///
/// The spine items that are readable HTML are searched in spine order, each
/// from left to right without overlap, until `max_results` hits are found.
/// A hit holds the location of the occurrence in the lower-cased text and
/// the text around it. The number of hits never exceeds `max_results`.
pub fn search(doc: &EpubDoc, query: &str, max_results: usize) -> (r: Vec<SearchHit>)
    ensures
        views(r@) == hits_upto(doc@, query@, max_results as int, doc@.spine.len() as int),
        r@.len() <= max_results,
{
    let lowered_query = lowercase(query);
    let q = chars_of(lowered_query.as_str());
    let html = chars_of("html");
    let mut results: Vec<SearchHit> = Vec::new();
    let mut i: usize = 0;
    assert(views(results@) =~= Seq::<SearchHitView>::empty());
    while i < doc.spine.len()
        invariant
            i <= doc.spine.len(),
            q@ == lowercase_of(query@),
            html@ == "html"@,
            results@.len() <= max_results,
            views(results@) == hits_upto(doc@, query@, max_results as int, i as int),
        decreases doc.spine.len() - i,
    {
        assert(doc@.spine[i as int] == doc.spine@[i as int]@);
        match doc.get_resource_str(doc.spine[i].idref.as_str()) {
            Some((content, mime)) => {
                let m = chars_of(mime.as_str());
                if contains_chars(&m, &html) {
                    let text = searchable_text(content.as_str());
                    let text_string = string_of(&text);
                    let lowered = lowercase(text_string.as_str());
                    let hay = chars_of(lowered.as_str());
                    let mut found = search_item(i, &text, &hay, &q, max_results - results.len());
                    let ghost before = views(results@);
                    let ghost fv = views(found@);
                    append_hits(&mut results, &mut found);
                    assert(views(results@) == before + fv);
                }
            },
            None => {},
        }
        i += 1;
    }
    results
}

/// Moves the hits of `src` behind those of `dst`.
fn append_hits(dst: &mut Vec<SearchHit>, src: &mut Vec<SearchHit>)
    ensures
        views(final(dst)@) == views(old(dst)@) + views(old(src)@),
        final(dst)@.len() == old(dst)@.len() + old(src)@.len(),
{
    dst.append(src);
    assert(views(dst@) =~= views(old(dst)@) + views(old(src)@));
}

} // verus!
