//! Link rewriting: the references of a content document, turned into
//! `epub://` addresses.

use crate::paths::{build_epub_uri, epub_uri};
use crate::text::{lemma_views_push, opt_view, str_eq, views};
use crate::xml::{
    copy_name, lemma_node_children, XmlAttr, XmlAttrView, XmlNode, XmlNodeView,
};
use vstd::prelude::*;

verus! {

/// Whether an attribute of an element holds a reference to a resource:
/// `href` of `link`, `image` and `a`, and `src` of `img`.
pub open spec fn is_reference(element: Seq<char>, attr: Seq<char>) -> bool {
    ((element == "link"@ || element == "image"@ || element == "a"@) && attr == "href"@) || (element
        == "img"@ && attr == "src"@)
}

/// The value that an attribute gets in the document at `path`: the
/// `epub://` address of a reference, and the value itself otherwise.
pub open spec fn rewritten_value(
    path: Seq<char>,
    element: Seq<char>,
    attr: Seq<char>,
    value: Seq<char>,
) -> Seq<char> {
    if is_reference(element, attr) {
        epub_uri(path, value)
    } else {
        value
    }
}

/// The first `n` attributes of an element, rewritten.
pub open spec fn rewritten_attrs(path: Seq<char>, element: Seq<char>, attrs: Seq<XmlAttrView>) -> Seq<
    XmlAttrView,
> {
    Seq::new(
        attrs.len(),
        |i: int|
            XmlAttrView {
                name: attrs[i].name,
                value: rewritten_value(path, element, attrs[i].name.local_name, attrs[i].value),
            },
    )
}

/// An element tree with every reference rewritten.
pub open spec fn rewritten(path: Seq<char>, n: XmlNodeView) -> XmlNodeView
    decreases n,
{
    XmlNodeView {
        name: n.name,
        attrs: rewritten_attrs(path, n.name.local_name, n.attrs),
        children: Seq::new(
            n.children.len(),
            |i: int|
                if 0 <= i < n.children.len() {
                    rewritten(path, n.children[i])
                } else {
                    arbitrary()
                },
        ),
        text: n.text,
    }
}

/// The style sheets that are written right after the opening tag of an
/// element: all the extra ones after the opening of `head`, in their order,
/// and none after any other.
pub open spec fn styles_after_opening(element: Seq<char>, extra_css: Seq<Seq<char>>) -> Seq<
    Seq<char>,
> {
    if element == "head"@ {
        extra_css
    } else {
        Seq::empty()
    }
}

/// The style sheets to write, each as a `style` element, right after the
/// opening tag of an element.
pub fn styles_after(element: &str, extra_css: &Vec<String>) -> (r: Vec<String>)
    ensures
        views(r@) == styles_after_opening(element@, views(extra_css@)),
{
    let mut out: Vec<String> = Vec::new();
    assert(views(out@) =~= Seq::<Seq<char>>::empty());
    if !str_eq(element, "head") {
        return out;
    }
    let mut i: usize = 0;
    assert(views(out@) =~= views(extra_css@).take(0));
    while i < extra_css.len()
        invariant
            i <= extra_css.len(),
            views(out@) == views(extra_css@).take(i as int),
        decreases extra_css.len() - i,
    {
        let c = extra_css[i].clone();
        proof {
            lemma_views_push(out@, c);
            assert(views(extra_css@)[i as int] == extra_css@[i as int]@);
            assert(views(extra_css@).take(i as int).push(c@) =~= views(extra_css@).take(i + 1));
        }
        out.push(c);
        i += 1;
    }
    assert(views(extra_css@).take(extra_css@.len() as int) =~= views(extra_css@));
    out
}

/// The value that an attribute gets in the document at `path`.
pub fn rewrite_attr(path: &str, element: &str, attr: &str, value: &str) -> (r: String)
    ensures
        r@ == rewritten_value(path@, element@, attr@, value@),
{
    let href = str_eq(attr, "href");
    let reference = ((str_eq(element, "link") || str_eq(element, "image") || str_eq(element, "a"))
        && href) || (str_eq(element, "img") && str_eq(attr, "src"));
    if reference {
        build_epub_uri(path, value)
    } else {
        value.to_string()
    }
}

/// An element tree of the document at `path` with every reference turned
/// into an `epub://` address.
pub fn rewrite_tree(path: &str, node: &XmlNode) -> (r: XmlNode)
    ensures
        r@ == rewritten(path@, node@),
    decreases node,
{
    proof {
        lemma_node_children(*node);
    }
    let mut attrs: Vec<XmlAttr> = Vec::new();
    let mut i: usize = 0;
    let ghost want = rewritten_attrs(path@, node@.name.local_name, node@.attrs);
    assert(views(attrs@) =~= want.take(0));
    while i < node.attrs.len()
        invariant
            i <= node.attrs.len(),
            node@.attrs == views(node.attrs@),
            node@.name == node.name@,
            want == rewritten_attrs(path@, node@.name.local_name, node@.attrs),
            views(attrs@) == want.take(i as int),
        decreases node.attrs.len() - i,
    {
        let a = &node.attrs[i];
        assert(node@.attrs[i as int] == a@);
        let x = XmlAttr {
            name: copy_name(&a.name),
            value: rewrite_attr(
                path,
                node.name.local_name.as_str(),
                a.name.local_name.as_str(),
                a.value.as_str(),
            ),
        };
        proof {
            lemma_views_push(attrs@, x);
            assert(want.take(i as int).push(x@) =~= want.take(i + 1));
        }
        attrs.push(x);
        i += 1;
    }
    assert(want.take(want.len() as int) =~= want);
    let mut children: Vec<XmlNode> = Vec::new();
    let mut k: usize = 0;
    let ghost kids = rewritten(path@, node@).children;
    assert(views(children@) =~= kids.take(0));
    while k < node.children.len()
        invariant
            k <= node.children.len(),
            node@.children == views(node.children@),
            kids == rewritten(path@, node@).children,
            views(children@) == kids.take(k as int),
        decreases node.children.len() - k,
    {
        let child = &node.children[k];
        assert(node@.children[k as int] == child@);
        let c = rewrite_tree(path, child);
        proof {
            lemma_views_push(children@, c);
            assert(kids.take(k as int).push(c@) =~= kids.take(k + 1));
        }
        children.push(c);
        k += 1;
    }
    assert(kids.take(kids.len() as int) =~= kids);
    let out = XmlNode { name: copy_name(&node.name), attrs, children, text: node.text.clone() };
    proof {
        lemma_node_children(out);
        assert(out@.children =~= kids);
    }
    out
}

} // verus!
