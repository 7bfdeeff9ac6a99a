//! NCX table of contents: navigation points in play order.

use crate::docs::{lemma_navpoint_view, NavPoint, NavPointView};
use crate::numbers::{parse_usize, usize_value};
use crate::paths::{join_path, joined_path};
use crate::text::{chars_of, lemma_views_push, views};
use crate::xml::{attr_of, descendant_of, lemma_node_children, XmlNode, XmlNodeView};
use vstd::prelude::*;

verus! {

/// Rank by which navigation points are ordered: points without a play order
/// come first.
pub open spec fn rank(p: Option<usize>) -> int {
    match p {
        Some(n) => n as int,
        None => -1,
    }
}

/// Index of the first point at or after `from` whose rank is at least `r`,
/// or `s.len()`.
pub open spec fn first_at_least(s: Seq<NavPointView>, r: int, from: int) -> int
    decreases s.len() - from,
{
    if from < 0 || from >= s.len() {
        s.len() as int
    } else if rank(s[from].play_order) >= r {
        from
    } else {
        first_at_least(s, r, from + 1)
    }
}

/// The points in ascending rank; points of equal rank keep their order.
pub open spec fn sorted_points(s: Seq<NavPointView>) -> Seq<NavPointView>
    decreases s.len(),
{
    if s.len() == 0 {
        Seq::empty()
    } else {
        let rest = sorted_points(s.subrange(1, s.len() as int));
        rest.insert(first_at_least(rest, rank(s[0].play_order), 0), s[0])
    }
}

/// Whether the ranks ascend.
pub open spec fn ascending(s: Seq<NavPointView>) -> bool {
    forall|i: int, j: int| 0 <= i < j < s.len() ==> rank(s[i].play_order) <= rank(s[j].play_order)
}

/// The index found is that of the first point of at least the rank.
pub proof fn lemma_first_at_least(s: Seq<NavPointView>, r: int, from: int)
    requires
        0 <= from <= s.len(),
    ensures
        from <= first_at_least(s, r, from) <= s.len(),
        forall|k: int| from <= k < first_at_least(s, r, from) ==> rank(s[k].play_order) < r,
        first_at_least(s, r, from) < s.len() ==> rank(s[first_at_least(s, r, from)].play_order)
            >= r,
    decreases s.len() - from,
{
    if from < s.len() && rank(s[from].play_order) < r {
        lemma_first_at_least(s, r, from + 1);
    }
}

/// Sorting keeps every point and puts the ranks in ascending order.
pub proof fn lemma_sorted_points(s: Seq<NavPointView>)
    ensures
        sorted_points(s).len() == s.len(),
        ascending(sorted_points(s)),
        sorted_points(s).to_multiset() == s.to_multiset(),
    decreases s.len(),
{
    if s.len() > 0 {
        let tail = s.subrange(1, s.len() as int);
        lemma_sorted_points(tail);
        let rest = sorted_points(tail);
        let r = rank(s[0].play_order);
        let p = first_at_least(rest, r, 0);
        lemma_first_at_least(rest, r, 0);
        let out = rest.insert(p, s[0]);
        assert forall|i: int, j: int| 0 <= i < j < out.len() implies rank(out[i].play_order)
            <= rank(out[j].play_order) by {
            if i < p && j == p {
            } else if i < p && j > p {
                assert(out[i] == rest[i]);
                assert(out[j] == rest[j - 1]);
            } else if i == p {
                assert(out[j] == rest[j - 1]);
                assert(rank(rest[p].play_order) >= r);
                if j - 1 > p {
                    assert(rank(rest[p].play_order) <= rank(rest[j - 1].play_order));
                }
            } else if i > p {
                assert(out[i] == rest[i - 1]);
                assert(out[j] == rest[j - 1]);
            } else {
                assert(out[i] == rest[i]);
                assert(out[j] == rest[j]);
            }
        }
        vstd::seq_lib::to_multiset_insert(rest, p, s[0]);
        assert(s =~= seq![s[0]] + tail);
        vstd::seq_lib::lemma_multiset_commutative(seq![s[0]], tail);
        assert(seq![s[0]] =~= Seq::<NavPointView>::empty().push(s[0]));
        vstd::seq_lib::to_multiset_build(Seq::<NavPointView>::empty(), s[0]);
        assert(Seq::<NavPointView>::empty().to_multiset() =~= vstd::multiset::Multiset::empty())
            by {
            Seq::<NavPointView>::empty().to_multiset_ensures();
        }
        assert(out.to_multiset() =~= s.to_multiset());
    } else {
        assert(s =~= Seq::<NavPointView>::empty());
    }
}

/// The label of a navigation point: the text of the first child of its first
/// `navLabel` descendant.
pub open spec fn point_label(item: XmlNodeView) -> Option<Seq<char>> {
    match descendant_of(item, "navLabel"@) {
        Some(l) => if l.children.len() > 0 {
            l.children[0].text
        } else {
            None
        },
        None => None,
    }
}

/// The content path of a navigation point: the `src` of its first `content`
/// descendant, resolved against `base`.
pub open spec fn point_content(item: XmlNodeView, base: Seq<char>) -> Option<Seq<char>> {
    match descendant_of(item, "content"@) {
        Some(c) => match attr_of(c, "src"@) {
            Some(p) => Some(joined_path(base, p)),
            None => None,
        },
        None => None,
    }
}

/// The play order of a navigation point, where `playOrder` is a number.
pub open spec fn point_order(item: XmlNodeView) -> Option<usize> {
    match attr_of(item, "playOrder"@) {
        Some(t) => match usize_value(t) {
            Some(v) => Some(v as usize),
            None => None,
        },
        None => None,
    }
}

/// The points that the first `n` children declare, in document order: one for
/// each `navPoint` that has a label and a content path.
pub open spec fn raw_points(children: Seq<XmlNodeView>, base: Seq<char>, n: int) -> Seq<
    NavPointView,
>
    decreases children, n,
{
    if n <= 0 || n > children.len() {
        Seq::empty()
    } else {
        let item = children[n - 1];
        if item.name.local_name == "navPoint"@ && point_content(item, base) is Some && point_label(
            item,
        ) is Some {
            raw_points(children, base, n - 1).push(
                NavPointView {
                    label: point_label(item)->0,
                    content: point_content(item, base)->0,
                    children: nav_points(item.children, base),
                    play_order: point_order(item),
                },
            )
        } else {
            raw_points(children, base, n - 1)
        }
    }
}

/// The navigation points under a list of elements, in play order at every
/// level.
pub open spec fn nav_points(children: Seq<XmlNodeView>, base: Seq<char>) -> Seq<NavPointView>
    decreases children, children.len() + 1,
{
    sorted_points(raw_points(children, base, children.len() as int))
}

/// The title of an NCX document: the text of the first child of `docTitle`.
pub open spec fn toc_title_of(root: XmlNodeView) -> Seq<char> {
    match descendant_of(root, "docTitle"@) {
        Some(dt) => if dt.children.len() > 0 {
            match dt.children[0].text {
                Some(t) => t,
                None => Seq::empty(),
            }
        } else {
            Seq::empty()
        },
        None => Seq::empty(),
    }
}

/// The table of contents of an NCX document: the points under `navMap`.
pub open spec fn toc_of(root: XmlNodeView, base: Seq<char>) -> Seq<NavPointView> {
    match descendant_of(root, "navMap"@) {
        Some(m) => nav_points(m.children, base),
        None => Seq::empty(),
    }
}

/// Orders points by play order, keeping the order of equal ones.
pub fn sort_points(points: Vec<NavPoint>) -> (r: Vec<NavPoint>)
    ensures
        views(r@) == sorted_points(views(points@)),
{
    let ghost orig = views(points@);
    let mut rest = points;
    let mut out: Vec<NavPoint> = Vec::new();
    assert(views(out@) =~= Seq::<NavPointView>::empty());
    assert(orig.subrange(orig.len() as int, orig.len() as int) =~= Seq::<NavPointView>::empty());
    while rest.len() > 0
        invariant
            rest@.len() <= orig.len(),
            views(rest@) == orig.take(rest@.len() as int),
            views(out@) == sorted_points(orig.subrange(rest@.len() as int, orig.len() as int)),
        decreases rest.len(),
    {
        let ghost before = views(rest@);
        let ghost sorted = views(out@);
        let n = rest.len();
        let x = rest.pop().unwrap();
        assert(views(rest@) =~= before.drop_last());
        assert(before[n - 1] == x@);
        proof {
            lemma_navpoint_view(x);
        }
        let mut p: usize = 0;
        while p < out.len() && less_than(&out[p].play_order, &x.play_order)
            invariant
                p <= out.len(),
                sorted == views(out@),
                first_at_least(sorted, rank(x.play_order), 0) == first_at_least(
                    sorted,
                    rank(x.play_order),
                    p as int,
                ),
            decreases out.len() - p,
        {
            assert(sorted[p as int] == out@[p as int]@);
            proof {
                lemma_navpoint_view(out@[p as int]);
            }
            p += 1;
        }
        proof {
            if p < out.len() {
                assert(sorted[p as int] == out@[p as int]@);
                lemma_navpoint_view(out@[p as int]);
            }
            let suffix = orig.subrange(n - 1, orig.len() as int);
            assert(suffix[0] == x@);
            assert(suffix.subrange(1, suffix.len() as int) =~= orig.subrange(
                n as int,
                orig.len() as int,
            ));
        }
        out.insert(p, x);
        assert(views(out@) =~= sorted.insert(p as int, x@));
        assert(views(rest@) =~= orig.take(n - 1));
    }
    assert(orig.subrange(0, orig.len() as int) =~= orig);
    out
}

/// Whether `a` ranks strictly below `b`.
fn less_than(a: &Option<usize>, b: &Option<usize>) -> (r: bool)
    ensures
        r == (rank(*a) < rank(*b)),
{
    match (a, b) {
        (None, None) => false,
        (None, Some(_)) => true,
        (Some(_), None) => false,
        (Some(x), Some(y)) => *x < *y,
    }
}

/// The label of a navigation point.
fn read_label(item: &XmlNode) -> (r: Option<String>)
    ensures
        crate::text::opt_view(r) == point_label(item@),
{
    match item.find("navLabel") {
        Some(l) => {
            proof {
                lemma_node_children(*l);
            }
            if l.children.len() > 0 {
                assert(l@.children[0] == l.children@[0]@);
                proof {
                    lemma_node_children(l.children@[0]);
                }
                l.children[0].text.clone()
            } else {
                None
            }
        },
        None => None,
    }
}

/// The content path of a navigation point.
fn read_content_path(item: &XmlNode, base: &str) -> (r: Option<String>)
    ensures
        crate::text::opt_view(r) == point_content(item@, base@),
{
    match item.find("content") {
        Some(c) => match c.get_attr("src") {
            Some(p) => Some(join_path(base, p.as_str())),
            None => None,
        },
        None => None,
    }
}

/// The play order of a navigation point.
fn read_order(item: &XmlNode) -> (r: Option<usize>)
    ensures
        r == point_order(item@),
{
    match item.get_attr("playOrder") {
        Some(t) => {
            let v = chars_of(t.as_str());
            parse_usize(&v)
        },
        None => None,
    }
}

/// The navigation points under `parent`, in play order at every level.
/// Content paths are resolved against `base`.
pub fn get_navpoints(parent: &XmlNode, base: &str) -> (r: Vec<NavPoint>)
    ensures
        views(r@) == nav_points(parent@.children, base@),
    decreases parent,
{
    proof {
        lemma_node_children(*parent);
    }
    let mut navpoints: Vec<NavPoint> = Vec::new();
    let mut i: usize = 0;
    assert(views(navpoints@) =~= Seq::<NavPointView>::empty());
    while i < parent.children.len()
        invariant
            i <= parent.children.len(),
            parent@.children == views(parent.children@),
            views(navpoints@) == raw_points(parent@.children, base@, i as int),
        decreases parent.children.len() - i,
    {
        let item = &parent.children[i];
        assert(parent@.children[i as int] == item@);
        if item.is_named("navPoint") {
            let play_order = read_order(item);
            let content = read_content_path(item, base);
            let label = read_label(item);
            match (content, label) {
                (Some(content_path), Some(label_text)) => {
                    let point = NavPoint {
                        label: label_text,
                        content: content_path,
                        children: get_navpoints(item, base),
                        play_order,
                    };
                    proof {
                        lemma_navpoint_view(point);
                        lemma_views_push(navpoints@, point);
                    }
                    navpoints.push(point);
                },
                _ => {},
            }
        }
        i += 1;
    }
    sort_points(navpoints)
}

/// The title of an NCX document.
pub fn read_toc_title(root: &XmlNode) -> (r: String)
    ensures
        r@ == toc_title_of(root@),
{
    match root.find("docTitle") {
        Some(dt) => {
            proof {
                lemma_node_children(*dt);
            }
            if dt.children.len() > 0 {
                assert(dt@.children[0] == dt.children@[0]@);
                proof {
                    lemma_node_children(dt.children@[0]);
                }
                match &dt.children[0].text {
                    Some(t) => t.clone(),
                    None => String::new(),
                }
            } else {
                String::new()
            }
        },
        None => String::new(),
    }
}

/// The table of contents of an NCX document.
pub fn read_toc(root: &XmlNode, base: &str) -> (r: Vec<NavPoint>)
    ensures
        views(r@) == toc_of(root@, base@),
{
    match root.find("navMap") {
        Some(m) => get_navpoints(m, base),
        None => {
            let v: Vec<NavPoint> = Vec::new();
            assert(views(v@) =~= Seq::<NavPointView>::empty());
            v
        },
    }
}

} // verus!
