//! Container paths: forward-slash separated, relative to the container root.

use crate::text::{
    chars_of, extend_chars, has_prefix, last_char, last_index_of_char, slice_of,
    split_char, split_on, starts_with, string_of, views,
};
use vstd::prelude::*;

verus! {

/// `href` resolved against the directory `base`: `href` itself where it is
/// absolute or `base` is empty, else `base`, a slash where `base` does not
/// end in one, and `href`.
pub open spec fn joined_path(base: Seq<char>, href: Seq<char>) -> Seq<char> {
    if (href.len() > 0 && href[0] == '/') || base.len() == 0 {
        href
    } else if base.last() == '/' {
        base + href
    } else {
        base + seq!['/'] + href
    }
}

/// The directory of `path`: what precedes its last slash, the root itself
/// where that slash is the first character, and nothing where there is none.
pub open spec fn parent_of(path: Seq<char>) -> Seq<char> {
    let i = last_char(path, '/', path.len() as int);
    if i < 0 {
        Seq::empty()
    } else if i == 0 {
        seq!['/']
    } else {
        path.subrange(0, i)
    }
}

/// `href` without its fragment: what precedes the first `#`.
pub open spec fn without_fragment(href: Seq<char>) -> Seq<char> {
    split_char(href, '#')[0]
}

/// The named components among the first `n` pieces of a path: empty pieces
/// and `.` are dropped.
pub open spec fn named_parts(pieces: Seq<Seq<char>>, n: int) -> Seq<Seq<char>>
    decreases n,
{
    if n <= 0 || n > pieces.len() {
        Seq::empty()
    } else if pieces[n - 1].len() == 0 || pieces[n - 1] == seq!['.'] {
        named_parts(pieces, n - 1)
    } else {
        named_parts(pieces, n - 1).push(pieces[n - 1])
    }
}

/// The components of a directory after walking the first `n` pieces of a
/// relative reference from it: `..` leaves a directory, a name enters one,
/// empty pieces and `.` stay.
pub open spec fn walked(dir: Seq<Seq<char>>, pieces: Seq<Seq<char>>, n: int) -> Seq<Seq<char>>
    decreases n,
{
    if n <= 0 || n > pieces.len() {
        dir
    } else {
        let prev = walked(dir, pieces, n - 1);
        let p = pieces[n - 1];
        if p.len() == 0 || p == seq!['.'] {
            prev
        } else if p == seq!['.', '.'] {
            if prev.len() > 0 {
                prev.drop_last()
            } else {
                prev
            }
        } else {
            prev.push(p)
        }
    }
}

/// The first `n` components joined by slashes.
pub open spec fn slashed(parts: Seq<Seq<char>>, n: int) -> Seq<char>
    decreases n,
{
    if n <= 0 || n > parts.len() {
        Seq::empty()
    } else if n == 1 {
        parts[0]
    } else {
        slashed(parts, n - 1) + seq!['/'] + parts[n - 1]
    }
}

/// The container path that the reference `append` made from the document
/// at `path` points to: the reference walked from the document's directory.
pub open spec fn resolved_path(path: Seq<char>, append: Seq<char>) -> Seq<char> {
    let own = named_parts(split_char(path, '/'), split_char(path, '/').len() as int);
    let dir = if own.len() > 0 {
        own.drop_last()
    } else {
        own
    };
    let target = walked(dir, split_char(append, '/'), split_char(append, '/').len() as int);
    let rooted: Seq<char> = if path.len() > 0 && path[0] == '/' {
        seq!['/']
    } else {
        Seq::empty()
    };
    rooted + slashed(target, target.len() as int)
}

/// The `epub://` address of the reference `append` made from the document at
/// `path`. References that start with `http` are kept as they are.
pub open spec fn epub_uri(path: Seq<char>, append: Seq<char>) -> Seq<char> {
    if has_prefix(append, "http"@) {
        append
    } else {
        "epub://"@ + resolved_path(path, append)
    }
}

/// Resolves `href` against the directory `base`.
pub fn join_path(base: &str, href: &str) -> (r: String)
    ensures
        r@ == joined_path(base@, href@),
{
    let b = chars_of(base);
    let h = chars_of(href);
    if (h.len() > 0 && h[0] == '/') || b.len() == 0 {
        return string_of(&h);
    }
    let mut out = b;
    if out[out.len() - 1] != '/' {
        out.push('/');
    }
    extend_chars(&mut out, &h);
    string_of(&out)
}

/// The directory of `path`.
pub fn parent_path(path: &str) -> (r: String)
    ensures
        r@ == parent_of(path@),
{
    let p = chars_of(path);
    match last_index_of_char(&p, '/') {
        None => String::new(),
        Some(i) => {
            if i == 0 {
                let mut v: Vec<char> = Vec::new();
                v.push('/');
                assert(v@ =~= seq!['/']);
                string_of(&v)
            } else {
                let v = slice_of(&p, 0, i);
                string_of(&v)
            }
        },
    }
}

/// `href` without its fragment.
pub fn strip_fragment(href: &str) -> (r: String)
    ensures
        r@ == without_fragment(href@),
{
    let h = chars_of(href);
    let parts = split_on(&h, '#');
    assert(views(parts@)[0] == parts@[0]@);
    string_of(&parts[0])
}

/// The named components of the pieces of a path.
fn collect_named(pieces: &Vec<Vec<char>>) -> (r: Vec<Vec<char>>)
    ensures
        views(r@) == named_parts(views(pieces@), pieces@.len() as int),
{
    let mut out: Vec<Vec<char>> = Vec::new();
    let mut i: usize = 0;
    assert(views(out@) =~= Seq::<Seq<char>>::empty());
    while i < pieces.len()
        invariant
            i <= pieces.len(),
            views(out@) == named_parts(views(pieces@), i as int),
        decreases pieces.len() - i,
    {
        let p = &pieces[i];
        assert(views(pieces@)[i as int] == p@);
        let is_dot = p.len() == 1 && p[0] == '.';
        assert(is_dot == (p@ == seq!['.'])) by {
            if is_dot {
                assert(p@ =~= seq!['.']);
            }
        }
        if p.len() > 0 && !is_dot {
            let c = slice_of(p, 0, p.len());
            assert(c@ == p@);
            let ghost before = views(out@);
            out.push(c);
            assert(views(out@) =~= before.push(c@));
        }
        i += 1;
    }
    out
}

/// Walks the pieces of a relative reference from a directory.
fn walk(dir: Vec<Vec<char>>, pieces: &Vec<Vec<char>>) -> (r: Vec<Vec<char>>)
    ensures
        views(r@) == walked(views(dir@), views(pieces@), pieces@.len() as int),
{
    let mut out = dir;
    let mut i: usize = 0;
    while i < pieces.len()
        invariant
            i <= pieces.len(),
            views(out@) == walked(views(dir@), views(pieces@), i as int),
        decreases pieces.len() - i,
    {
        let p = &pieces[i];
        assert(views(pieces@)[i as int] == p@);
        let is_dot = p.len() == 1 && p[0] == '.';
        let is_up = p.len() == 2 && p[0] == '.' && p[1] == '.';
        assert(is_dot == (p@ == seq!['.'])) by {
            if is_dot {
                assert(p@ =~= seq!['.']);
            }
        }
        assert(is_up == (p@ == seq!['.', '.'])) by {
            if is_up {
                assert(p@ =~= seq!['.', '.']);
            }
        }
        let ghost before = views(out@);
        if p.len() == 0 || is_dot {
        } else if is_up {
            if out.len() > 0 {
                out.pop();
                assert(views(out@) =~= before.drop_last());
            }
        } else {
            let c = slice_of(p, 0, p.len());
            assert(c@ == p@);
            out.push(c);
            assert(views(out@) =~= before.push(c@));
        }
        i += 1;
    }
    out
}

/// Joins components by slashes.
fn join_parts(parts: &Vec<Vec<char>>) -> (r: Vec<char>)
    ensures
        r@ == slashed(views(parts@), parts@.len() as int),
{
    let mut out: Vec<char> = Vec::new();
    let mut i: usize = 0;
    while i < parts.len()
        invariant
            i <= parts.len(),
            out@ == slashed(views(parts@), i as int),
        decreases parts.len() - i,
    {
        assert(views(parts@)[i as int] == parts@[i as int]@);
        if i > 0 {
            let ghost before = out@;
            out.push('/');
            assert(out@ =~= before + seq!['/']);
        } else {
            assert(out@ + parts@[0]@ =~= parts@[0]@);
        }
        extend_chars(&mut out, &parts[i]);
        i += 1;
    }
    out
}

/// The container path that the reference `append` made from the document
/// at `path` points to.
pub fn resolve_chars(p: &Vec<char>, a: &Vec<char>) -> (r: Vec<char>)
    ensures
        r@ == resolved_path(p@, a@),
{
    let own_pieces = split_on(p, '/');
    let mut dir = collect_named(&own_pieces);
    if dir.len() > 0 {
        let ghost before = views(dir@);
        dir.pop();
        assert(views(dir@) =~= before.drop_last());
    }
    let pieces = split_on(a, '/');
    let target = walk(dir, &pieces);
    let mut out: Vec<char> = Vec::new();
    if p.len() > 0 && p[0] == '/' {
        out.push('/');
        assert(out@ =~= seq!['/']);
    }
    let tail = join_parts(&target);
    extend_chars(&mut out, &tail);
    out
}

/// The container path that the reference `append` made from the document
/// at `path` points to.
pub fn resolve_path(path: &str, append: &str) -> (r: String)
    ensures
        r@ == resolved_path(path@, append@),
{
    let out = resolve_chars(&chars_of(path), &chars_of(append));
    string_of(&out)
}

/// The `epub://` address of the reference `append` made from the document at
/// `path`: the reference walked from the document's directory. References
/// that start with `http` are returned unchanged.
pub fn build_epub_uri(path: &str, append: &str) -> (r: String)
    ensures
        r@ == epub_uri(path@, append@),
{
    let a = chars_of(append);
    let http = chars_of("http");
    if starts_with(&a, &http) {
        return string_of(&a);
    }
    let p = chars_of(path);
    let mut out = chars_of("epub://");
    let tail = resolve_chars(&p, &a);
    extend_chars(&mut out, &tail);
    string_of(&out)
}

} // verus!
