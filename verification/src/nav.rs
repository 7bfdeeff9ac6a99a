//! EPUB 3 navigation document: table of contents, page list and landmarks.

use crate::text::{chars_of, contains_word_ignore_case, has_word_ignore_case, lemma_views_push, views};
use crate::xml::{
    attr_ns_from, attr_of, descendant_of, lemma_node_children, parse_xml, xml_failure, xml_tree,
    XmlError, XmlNode, XmlNodeView,
};
use vstd::prelude::*;

verus! {

/// An entry of a navigation list.
#[derive(Debug)]
pub struct NavItem {
    pub label: String,
    pub href: String,
    pub children: Vec<NavItem>,
}

/// The mathematical model of `NavItem`.
pub struct NavItemView {
    pub label: Seq<char>,
    pub href: Seq<char>,
    pub children: Seq<NavItemView>,
}

/// The entry that a `NavItem` stands for.
pub open spec fn nav_item_view(n: NavItem) -> NavItemView
    decreases n,
{
    NavItemView {
        label: n.label@,
        href: n.href@,
        children: Seq::new(
            n.children@.len(),
            |i: int|
                if 0 <= i < n.children@.len() {
                    nav_item_view(n.children@[i])
                } else {
                    arbitrary()
                },
        ),
    }
}

impl View for NavItem {
    type V = NavItemView;

    open spec fn view(&self) -> NavItemView {
        nav_item_view(*self)
    }
}

/// The model of a navigation entry shows its fields as they are.
pub proof fn lemma_nav_item_view(n: NavItem)
    ensures
        n@.children == views(n.children@),
        n@.label == n.label@,
        n@.href == n.href@,
{
    assert(n@.children =~= views(n.children@));
}

/// The three lists of a navigation document.
#[derive(Debug)]
pub struct NavData {
    pub toc: Vec<NavItem>,
    pub page_list: Vec<NavItem>,
    pub landmarks: Vec<NavItem>,
}

/// The mathematical model of `NavData`.
pub struct NavDataView {
    pub toc: Seq<NavItemView>,
    pub page_list: Seq<NavItemView>,
    pub landmarks: Seq<NavItemView>,
}

impl View for NavData {
    type V = NavDataView;

    open spec fn view(&self) -> NavDataView {
        NavDataView {
            toc: views(self.toc@),
            page_list: views(self.page_list@),
            landmarks: views(self.landmarks@),
        }
    }
}

/// Namespace of the `epub:type` attribute.
pub open spec fn ops_namespace() -> Seq<char> {
    "http://www.idpf.org/2007/ops"@
}

/// The label that an anchor gives: its own text, else the text of its first
/// `span` descendant.
pub open spec fn anchor_label(a: XmlNodeView) -> Option<Seq<char>> {
    match a.text {
        Some(t) => Some(t),
        None => match descendant_of(a, "span"@) {
            Some(span) => span.text,
            None => None,
        },
    }
}

/// The `href` of the last anchor among the first `n` children that has one;
/// empty where there is none.
pub open spec fn item_href(kids: Seq<XmlNodeView>, n: int) -> Seq<char>
    decreases n,
{
    if n <= 0 || n > kids.len() {
        Seq::empty()
    } else if kids[n - 1].name.local_name == "a"@ && attr_of(kids[n - 1], "href"@) is Some {
        attr_of(kids[n - 1], "href"@)->0
    } else {
        item_href(kids, n - 1)
    }
}

/// The label of the last anchor among the first `n` children that gives one;
/// empty where there is none.
pub open spec fn item_label(kids: Seq<XmlNodeView>, n: int) -> Seq<char>
    decreases n,
{
    if n <= 0 || n > kids.len() {
        Seq::empty()
    } else if kids[n - 1].name.local_name == "a"@ && anchor_label(kids[n - 1]) is Some {
        anchor_label(kids[n - 1])->0
    } else {
        item_label(kids, n - 1)
    }
}

/// The entries of the last `ol` among the first `n` children.
pub open spec fn item_nested(kids: Seq<XmlNodeView>, n: int) -> Seq<NavItemView>
    decreases kids, n,
{
    if n <= 0 || n > kids.len() {
        Seq::empty()
    } else if kids[n - 1].name.local_name == "ol"@ {
        nav_items(kids[n - 1].children, kids[n - 1].children.len() as int)
    } else {
        item_nested(kids, n - 1)
    }
}

/// The entries that the first `n` children of a list give: one for each `li`
/// that holds an anchor with a non-empty `href`.
pub open spec fn nav_items(children: Seq<XmlNodeView>, n: int) -> Seq<NavItemView>
    decreases children, n,
{
    if n <= 0 || n > children.len() {
        Seq::empty()
    } else {
        let li = children[n - 1];
        let href = item_href(li.children, li.children.len() as int);
        if li.name.local_name == "li"@ && href.len() > 0 {
            nav_items(children, n - 1).push(
                NavItemView {
                    label: item_label(li.children, li.children.len() as int),
                    href,
                    children: item_nested(li.children, li.children.len() as int),
                },
            )
        } else {
            nav_items(children, n - 1)
        }
    }
}

/// Whether `n` is a `nav` element whose `epub:type` lists `kind`.
pub open spec fn is_nav_of(n: XmlNodeView, kind: Seq<char>) -> bool {
    n.name.local_name == "nav"@ && match attr_ns_from(n.attrs, "type"@, ops_namespace(), 0) {
        Some(t) => has_word_ignore_case(t, kind),
        None => false,
    }
}

/// First `nav` element of the given kind among `nodes[from..]` and their
/// descendants, in document order.
pub open spec fn nav_in(nodes: Seq<XmlNodeView>, kind: Seq<char>, from: int) -> Option<XmlNodeView>
    decreases nodes, nodes.len() - from,
{
    if from < 0 || from >= nodes.len() {
        None
    } else if is_nav_of(nodes[from], kind) {
        Some(nodes[from])
    } else {
        match nav_under(nodes[from], kind) {
            Some(n) => Some(n),
            None => nav_in(nodes, kind, from + 1),
        }
    }
}

/// First `nav` descendant of `n` of the given kind.
pub open spec fn nav_under(n: XmlNodeView, kind: Seq<char>) -> Option<XmlNodeView>
    decreases n, 0int,
{
    nav_in(n.children, kind, 0)
}

/// The entries of the navigation list of the given kind: those of the first
/// `ol` under the first matching `nav`.
pub open spec fn nav_list(root: XmlNodeView, kind: Seq<char>) -> Seq<NavItemView> {
    match nav_under(root, kind) {
        Some(nav) => match descendant_of(nav, "ol"@) {
            Some(ol) => nav_items(ol.children, ol.children.len() as int),
            None => Seq::empty(),
        },
        None => Seq::empty(),
    }
}

/// The navigation data of a document.
pub open spec fn nav_data_of(root: XmlNodeView) -> NavDataView {
    NavDataView {
        toc: nav_list(root, "toc"@),
        page_list: nav_list(root, "page-list"@),
        landmarks: nav_list(root, "landmarks"@),
    }
}

/// Value of the attribute with the given local name and namespace.
pub fn get_attr_ns(node: &XmlNode, local: &str, ns: &str) -> (r: Option<String>)
    ensures
        crate::text::opt_view(r) == attr_ns_from(node@.attrs, local@, ns@, 0),
{
    node.get_attr_ns(local, ns)
}

/// The label that an anchor gives.
fn read_anchor_label(a: &XmlNode) -> (r: Option<String>)
    ensures
        crate::text::opt_view(r) == anchor_label(a@),
{
    match &a.text {
        Some(t) => Some(t.clone()),
        None => match a.find("span") {
            Some(span) => span.text.clone(),
            None => None,
        },
    }
}

/// Label, target and nested entries that the children of an `li` give.
fn read_list_item(li: &XmlNode) -> (r: (String, String, Vec<NavItem>))
    ensures
        r.0@ == item_label(li@.children, li@.children.len() as int),
        r.1@ == item_href(li@.children, li@.children.len() as int),
        views(r.2@) == item_nested(li@.children, li@.children.len() as int),
    decreases li, 0int,
{
    proof {
        lemma_node_children(*li);
    }
    let mut label: String = String::new();
    let mut href: String = String::new();
    let mut nested: Vec<NavItem> = Vec::new();
    let mut k: usize = 0;
    assert(views(nested@) =~= Seq::<NavItemView>::empty());
    while k < li.children.len()
        invariant
            k <= li.children.len(),
            li@.children == views(li.children@),
            label@ == item_label(li@.children, k as int),
            href@ == item_href(li@.children, k as int),
            views(nested@) == item_nested(li@.children, k as int),
        decreases li.children.len() - k,
    {
        let li_child = &li.children[k];
        assert(li@.children[k as int] == li_child@);
        if li_child.is_named("a") {
            match li_child.get_attr("href") {
                Some(h) => {
                    href = h;
                },
                None => {},
            }
            match read_anchor_label(li_child) {
                Some(t) => {
                    label = t;
                },
                None => {},
            }
            proof {
                reveal_strlit("a");
                reveal_strlit("ol");
                assert("a"@.len() != "ol"@.len());
                assert(item_nested(li@.children, k + 1) == item_nested(li@.children, k as int));
            }
        } else if li_child.is_named("ol") {
            nested = collect_nav_items(li_child);
            assert(item_nested(li@.children, k + 1) == nav_items(li_child@.children, li_child@.children.len() as int));
        } else {
            assert(item_nested(li@.children, k + 1) == item_nested(li@.children, k as int));
        }
        k += 1;
    }
    (label, href, nested)
}

/// The entries of a list element: one for each `li` that holds an anchor
/// with a non-empty `href`, with the entries of its nested list.
pub fn collect_nav_items(list_node: &XmlNode) -> (items: Vec<NavItem>)
    ensures
        views(items@) == nav_items(list_node@.children, list_node@.children.len() as int),
    decreases list_node, 1int,
{
    proof {
        lemma_node_children(*list_node);
    }
    let mut items: Vec<NavItem> = Vec::new();
    let mut i: usize = 0;
    assert(views(items@) =~= Seq::<NavItemView>::empty());
    while i < list_node.children.len()
        invariant
            i <= list_node.children.len(),
            list_node@.children == views(list_node.children@),
            views(items@) == nav_items(list_node@.children, i as int),
        decreases list_node.children.len() - i,
    {
        let li = &list_node.children[i];
        assert(list_node@.children[i as int] == li@);
        if li.is_named("li") {
            let (label, href, nested) = read_list_item(li);
            if chars_of(href.as_str()).len() > 0 {
                let item = NavItem { label, href, children: nested };
                proof {
                    lemma_nav_item_view(item);
                    lemma_views_push(items@, item);
                }
                items.push(item);
            }
        }
        i += 1;
    }
    items
}

/// First `nav` descendant of `root` whose `epub:type` lists `nav_type`.
pub fn find_nav_of_type<'a>(root: &'a XmlNode, nav_type: &str) -> (r: Option<&'a XmlNode>)
    ensures
        match r {
            Some(n) => nav_under(root@, nav_type@) == Some(n@),
            None => nav_under(root@, nav_type@) is None,
        },
    decreases root,
{
    proof {
        lemma_node_children(*root);
    }
    let want = chars_of(nav_type);
    let mut i: usize = 0;
    while i < root.children.len()
        invariant
            i <= root.children.len(),
            want@ == nav_type@,
            root@.children == views(root.children@),
            nav_under(root@, nav_type@) == nav_in(root@.children, nav_type@, i as int),
        decreases root.children.len() - i,
    {
        let child = &root.children[i];
        assert(root@.children[i as int] == child@);
        if child.is_named("nav") {
            match child.get_attr_ns("type", "http://www.idpf.org/2007/ops") {
                Some(t) => {
                    let tv = chars_of(t.as_str());
                    if contains_word_ignore_case(&tv, &want) {
                        return Some(child);
                    }
                },
                None => {},
            }
        }
        match find_nav_of_type(child, nav_type) {
            Some(found) => {
                return Some(found);
            },
            None => {},
        }
        i += 1;
    }
    None
}

/// The entries of the navigation list of the given kind.
fn read_nav_list(root: &XmlNode, kind: &str) -> (r: Vec<NavItem>)
    ensures
        views(r@) == nav_list(root@, kind@),
{
    let found = match find_nav_of_type(root, kind) {
        Some(nav) => nav.find("ol"),
        None => None,
    };
    match found {
        Some(ol) => collect_nav_items(ol),
        None => {
            let v: Vec<NavItem> = Vec::new();
            assert(views(v@) =~= Seq::<NavItemView>::empty());
            v
        },
    }
}

/// The navigation data held in an element tree.
pub fn nav_data_from_tree(root: &XmlNode) -> (r: NavData)
    ensures
        r@ == nav_data_of(root@),
{
    NavData {
        toc: read_nav_list(root, "toc"),
        page_list: read_nav_list(root, "page-list"),
        landmarks: read_nav_list(root, "landmarks"),
    }
}

/// The model of an outcome.
pub open spec fn nav_outcome(r: Result<NavData, XmlError>) -> Option<NavDataView> {
    match r {
        Ok(d) => Some(d@),
        Err(_) => None,
    }
}

/// Parses a navigation document.
///
/// Succeeds exactly when the bytes are an XML document with an element; a
/// list that the document lacks comes out empty.
pub fn parse_nav_document(bytes: &[u8]) -> (r: Result<NavData, XmlError>)
    ensures
        nav_outcome(r) == match xml_tree(bytes@) {
            Some(root) => Some(nav_data_of(root)),
            None => None,
        },
        r is Err ==> r->Err_0 == xml_failure(bytes@),
{
    match parse_xml(bytes) {
        Ok(root) => Ok(nav_data_from_tree(&root)),
        Err(e) => Err(e),
    }
}

} // verus!
