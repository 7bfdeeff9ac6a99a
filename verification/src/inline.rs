//! HTML inlining: a content document with its style sheets inside it, a
//! base address in its head, and without processing instructions.

use crate::archive::{entry_text, ArchiveEntryView, EpubArchive};
use crate::docs::{path_of_id, DocView, EpubDoc};
use crate::package::find_resource;
use crate::paths::{resolve_chars, resolved_path, without_fragment};
use crate::text::{
    chars_eq_ignore_case, chars_of, contains_word_ignore_case, eq_ignore_case, extend_chars,
    find_from, find_in, has_prefix, has_word_ignore_case, index_of_char, is_space,
    is_space_char, lemma_find_from_bounds, next_char, opt_view, slice_of, split_char, split_on,
    starts_with, string_of, views,
};
use vstd::prelude::*;

verus! {

/// Whether a reference leaves the container: it starts with `http://`,
/// `https://` or `//`.
pub open spec fn is_external(h: Seq<char>) -> bool {
    has_prefix(h, "http://"@) || has_prefix(h, "https://"@) || has_prefix(h, "//"@)
}

/// Whether `c` ends the name of a tag.
pub open spec fn ends_name(c: char) -> bool {
    is_space(c) || c == '/' || c == '>'
}

/// Index of the first character at or after `from` that ends the name of
/// the tag, or `tag.len()`.
pub open spec fn name_end(tag: Seq<char>, from: int) -> int
    decreases tag.len() - from,
{
    if from < 0 || from >= tag.len() {
        tag.len() as int
    } else if ends_name(tag[from]) {
        from
    } else {
        name_end(tag, from + 1)
    }
}

/// The name of a tag: what follows its `<` up to white space, `/` or `>`.
pub open spec fn tag_name(tag: Seq<char>) -> Seq<char> {
    if 1 <= name_end(tag, 1) <= tag.len() {
        tag.subrange(1, name_end(tag, 1))
    } else {
        Seq::empty()
    }
}

/// The value of an attribute written with the given quote: what stands
/// between the quotes of the first `name=` that follows white space.
pub open spec fn quoted_value(tag: Seq<char>, name: Seq<char>, quote: char) -> Option<Seq<char>> {
    let key = name + seq!['=', quote];
    let p = find_from(tag, key, 0);
    let start = p + key.len();
    let end = next_char(tag, quote, start);
    if 1 <= p && start <= tag.len() && is_space(tag[p - 1]) && start <= end < tag.len() {
        Some(tag.subrange(start, end))
    } else {
        None
    }
}

/// The value of an attribute of a tag, in double or in single quotes.
pub open spec fn tag_attr(tag: Seq<char>, name: Seq<char>) -> Option<Seq<char>> {
    match quoted_value(tag, name, '"') {
        Some(v) => Some(v),
        None => quoted_value(tag, name, '\''),
    }
}

/// The reference of a tag that links a style sheet of the container: the
/// `href` of a `link` whose `rel` lists `stylesheet`, unless it is
/// external.
pub open spec fn stylesheet_href(tag: Seq<char>) -> Option<Seq<char>> {
    if eq_ignore_case(tag_name(tag), "link"@) {
        match (tag_attr(tag, "rel"@), tag_attr(tag, "href"@)) {
            (Some(rel), Some(h)) => if has_word_ignore_case(rel, "stylesheet"@) && !is_external(
                h,
            ) {
                Some(h)
            } else {
                None
            },
            _ => None,
        }
    } else {
        None
    }
}

/// The text of the style sheet that a tag links, where the container
/// holds it as text.
pub open spec fn linked_style(entries: Seq<ArchiveEntryView>, doc_path: Seq<char>, tag: Seq<char>) -> Option<
    Seq<char>,
> {
    match stylesheet_href(tag) {
        Some(h) => entry_text(entries, resolved_path(doc_path, without_fragment(h))),
        None => None,
    }
}

/// The tag that gives a document its base address.
pub open spec fn base_tag(doc_path: Seq<char>) -> Seq<char> {
    "<base href=\""@ + doc_path + "\">"@
}

/// Whether a tag is a processing instruction or an XML declaration.
pub open spec fn is_instruction(tag: Seq<char>) -> bool {
    tag.len() >= 2 && tag[1] == '?'
}

/// Whether a tag opens the head of a document.
pub open spec fn opens_head(tag: Seq<char>) -> bool {
    eq_ignore_case(tag_name(tag), "head"@)
}

/// The document from position `i` on, inlined. A tag runs from `<` to the
/// next `>`. Processing instructions are dropped; the first tag that opens
/// the head is followed by the base tag, unless `based` says that one was
/// written; a tag that links a style sheet held by the container becomes a
/// `style` element with the sheet's text; everything else stays.
pub open spec fn inlined_from(
    s: Seq<char>,
    entries: Seq<ArchiveEntryView>,
    doc_path: Seq<char>,
    based: bool,
    i: int,
) -> Seq<char>
    decreases s.len() - i,
{
    if i < 0 || i >= s.len() {
        Seq::empty()
    } else if s[i] == '<' {
        let close = next_char(s, '>', i);
        if close < i || close >= s.len() {
            s.subrange(i, s.len() as int)
        } else {
            let tag = s.subrange(i, close + 1);
            if is_instruction(tag) {
                inlined_from(s, entries, doc_path, based, close + 1)
            } else if opens_head(tag) && !based {
                tag + base_tag(doc_path) + inlined_from(s, entries, doc_path, true, close + 1)
            } else {
                match linked_style(entries, doc_path, tag) {
                    Some(css) => "<style>"@ + css + "</style>"@ + inlined_from(
                        s,
                        entries,
                        doc_path,
                        based,
                        close + 1,
                    ),
                    None => tag + inlined_from(s, entries, doc_path, based, close + 1),
                }
            }
        }
    } else {
        seq![s[i]] + inlined_from(s, entries, doc_path, based, i + 1)
    }
}

/// A content document, inlined.
pub open spec fn inlined(s: Seq<char>, entries: Seq<ArchiveEntryView>, doc_path: Seq<char>) -> Seq<
    char,
> {
    inlined_from(s, entries, doc_path, false, 0)
}

/// The name of a tag.
fn read_tag_name(tag: &Vec<char>) -> (r: Vec<char>)
    ensures
        r@ == tag_name(tag@),
{
    if tag.len() < 1 {
        return Vec::new();
    }
    let mut e: usize = 1;
    while e < tag.len() && !(is_space_char(tag[e]) || tag[e] == '/' || tag[e] == '>')
        invariant
            1 <= e <= tag.len(),
            name_end(tag@, 1) == name_end(tag@, e as int),
        decreases tag.len() - e,
    {
        e += 1;
    }
    slice_of(tag, 1, e)
}

/// The value of an attribute written with the given quote.
fn read_quoted(tag: &Vec<char>, name: &str, quote: char) -> (r: Option<Vec<char>>)
    ensures
        match r {
            Some(v) => quoted_value(tag@, name@, quote) == Some(v@),
            None => quoted_value(tag@, name@, quote) is None,
        },
{
    let mut key = chars_of(name);
    key.push('=');
    key.push(quote);
    assert(key@ =~= name@ + seq!['=', quote]);
    match find_in(tag, &key, 0) {
        Some(p) => {
            proof {
                lemma_find_from_bounds(tag@, key@, 0);
                assert(crate::text::matches_at(tag@, key@, p as int));
            }
            if p < 1 || !is_space_char(tag[p - 1]) {
                return None;
            }
            let tag_len = tag.len();
            assert(p + key.len() <= tag_len);
            let start = p + key.len();
            let end = index_of_char(tag, quote, start);
            if end < tag.len() {
                Some(slice_of(tag, start, end))
            } else {
                None
            }
        },
        None => None,
    }
}

/// The value of an attribute of a tag.
fn read_tag_attr(tag: &Vec<char>, name: &str) -> (r: Option<Vec<char>>)
    ensures
        match r {
            Some(v) => tag_attr(tag@, name@) == Some(v@),
            None => tag_attr(tag@, name@) is None,
        },
{
    match read_quoted(tag, name, '"') {
        Some(v) => Some(v),
        None => read_quoted(tag, name, '\''),
    }
}

/// Whether a reference leaves the container.
pub fn is_external_ref(h: &Vec<char>) -> (r: bool)
    ensures
        r == is_external(h@),
{
    starts_with(h, &chars_of("http://")) || starts_with(h, &chars_of("https://")) || starts_with(
        h,
        &chars_of("//"),
    )
}

/// The text of the style sheet that a tag links.
fn read_linked_style(archive: &EpubArchive, doc_path: &Vec<char>, tag: &Vec<char>) -> (r: Option<
    String,
>)
    ensures
        opt_view(r) == linked_style(archive@, doc_path@, tag@),
{
    let name = read_tag_name(tag);
    if !chars_eq_ignore_case(&name, &chars_of("link")) {
        return None;
    }
    match (read_tag_attr(tag, "rel"), read_tag_attr(tag, "href")) {
        (Some(rel), Some(h)) => {
            if contains_word_ignore_case(&rel, &chars_of("stylesheet")) && !is_external_ref(&h) {
                let parts = split_on(&h, '#');
                assert(views(parts@)[0] == parts@[0]@);
                let target = resolve_chars(doc_path, &parts[0]);
                let target_path = string_of(&target);
                match archive.get_entry_as_str(target_path.as_str()) {
                    Ok(css) => Some(css),
                    Err(_) => None,
                }
            } else {
                None
            }
        },
        _ => None,
    }
}

/// Inlines a content document found at `doc_path` of the container.
///
/// Processing instructions and XML declarations are dropped. The tag that
/// opens the head is followed by a `base` tag with the document's path.
/// Each `link` to a style sheet that the container holds is replaced by a
/// `style` element with the sheet's text; links that leave the container
/// stay as they are.
pub fn inline_styles(html: &str, doc_path: &str, archive: &EpubArchive) -> (r: String)
    ensures
        r@ == inlined(html@, archive@, doc_path@),
{
    let s = chars_of(html);
    let path = chars_of(doc_path);
    let mut out: Vec<char> = Vec::new();
    let mut based = false;
    let mut i: usize = 0;
    assert(out@ + inlined(s@, archive@, path@) =~= inlined(s@, archive@, path@));
    while i < s.len()
        invariant
            i <= s.len(),
            s@ == html@,
            path@ == doc_path@,
            out@ + inlined_from(s@, archive@, path@, based, i as int) == inlined(
                s@,
                archive@,
                path@,
            ),
        decreases s.len() - i,
    {
        let ghost before = out@;
        if s[i] == '<' {
            let close = index_of_char(&s, '>', i);
            if close >= s.len() {
                let rest = slice_of(&s, i, s.len());
                extend_chars(&mut out, &rest);
                return string_of(&out);
            }
            let tag = slice_of(&s, i, close + 1);
            let ghost rest_based = inlined_from(s@, archive@, path@, based, close + 1);
            if tag.len() >= 2 && tag[1] == '?' {
            } else if !based && chars_eq_ignore_case(&read_tag_name(&tag), &chars_of("head")) {
                extend_chars(&mut out, &tag);
                extend_chars(&mut out, &chars_of("<base href=\""));
                extend_chars(&mut out, &path);
                extend_chars(&mut out, &chars_of("\">"));
                based = true;
                proof {
                    let rest = inlined_from(s@, archive@, path@, true, close + 1);
                    assert(out@ + rest =~= before + (tag@ + base_tag(path@) + rest));
                }
            } else {
                match read_linked_style(archive, &path, &tag) {
                    Some(css) => {
                        extend_chars(&mut out, &chars_of("<style>"));
                        extend_chars(&mut out, &chars_of(css.as_str()));
                        extend_chars(&mut out, &chars_of("</style>"));
                        assert(out@ + rest_based =~= before + ("<style>"@ + css@ + "</style>"@
                            + rest_based));
                    },
                    None => {
                        extend_chars(&mut out, &tag);
                        assert(out@ + rest_based =~= before + (tag@ + rest_based));
                    },
                }
            }
            i = close + 1;
        } else {
            out.push(s[i]);
            assert(out@ + inlined_from(s@, archive@, path@, based, i + 1) =~= before + (seq![
                s@[i as int],
            ] + inlined_from(s@, archive@, path@, based, i + 1)));
            i += 1;
        }
    }
    assert(out@ + Seq::<char>::empty() =~= out@);
    string_of(&out)
}

/// The content document of a book with the given id, inlined.
pub open spec fn inlined_resource(d: DocView, id: Seq<char>) -> Option<Seq<char>> {
    match path_of_id(d, id) {
        Some(path) => match entry_text(d.archive, path) {
            Some(html) => Some(inlined(html, d.archive, path)),
            None => None,
        },
        None => None,
    }
}

/// The content document of a book with the given id, with its style sheets
/// inlined. `None` where the book has no such resource or it is no text.
pub fn get_html_with_inlined_css(doc: &EpubDoc, id: &str) -> (r: Option<String>)
    ensures
        opt_view(r) == inlined_resource(doc@, id@),
{
    match find_resource(&doc.resources, id) {
        Some(i) => {
            assert(doc@.resources[i as int] == doc.resources@[i as int]@);
            let path = doc.resources[i].item.path.clone();
            match doc.get_resource_str_by_path(path.as_str()) {
                Some(html) => Some(inline_styles(html.as_str(), path.as_str(), &doc.archive)),
                None => None,
            }
        },
        None => None,
    }
}

} // verus!
