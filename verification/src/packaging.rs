//! Package extras: reading direction, rendition properties, bindings and
//! collections of the package document.

use crate::text::{lemma_views_push, opt_view, views};
use crate::xml::{attr_of, descendant_of, lemma_node_children, XmlNode, XmlNodeView};
use vstd::prelude::*;

verus! {

/// A media-type handler of the EPUB 3 bindings.
#[derive(Debug)]
pub struct Binding {
    pub media_type: String,
    pub handler: String,
}

/// The mathematical model of `Binding`.
pub struct BindingView {
    pub media_type: Seq<char>,
    pub handler: Seq<char>,
}

impl View for Binding {
    type V = BindingView;

    open spec fn view(&self) -> BindingView {
        BindingView { media_type: self.media_type@, handler: self.handler@ }
    }
}

/// A link of a collection.
#[derive(Debug)]
pub struct CollectionLink {
    pub href: Option<String>,
    pub rel: Option<String>,
}

/// The mathematical model of `CollectionLink`.
pub struct CollectionLinkView {
    pub href: Option<Seq<char>>,
    pub rel: Option<Seq<char>>,
}

impl View for CollectionLink {
    type V = CollectionLinkView;

    open spec fn view(&self) -> CollectionLinkView {
        CollectionLinkView { href: opt_view(self.href), rel: opt_view(self.rel) }
    }
}

/// A collection of the package document.
#[derive(Debug)]
pub struct Collection {
    pub role: Option<String>,
    pub links: Vec<CollectionLink>,
}

/// The mathematical model of `Collection`.
pub struct CollectionView {
    pub role: Option<Seq<char>>,
    pub links: Seq<CollectionLinkView>,
}

impl View for Collection {
    type V = CollectionView;

    open spec fn view(&self) -> CollectionView {
        CollectionView { role: opt_view(self.role), links: views(self.links@) }
    }
}

/// What the package document says beyond manifest, spine and metadata.
#[derive(Debug)]
pub struct PackagingExtras {
    pub page_progression_direction: Option<String>,
    pub rendition_layout: Option<String>,
    pub rendition_flow: Option<String>,
    pub rendition_orientation: Option<String>,
    pub rendition_spread: Option<String>,
    pub bindings: Vec<Binding>,
    pub collections: Vec<Collection>,
}

/// The mathematical model of `PackagingExtras`.
pub struct PackagingExtrasView {
    pub page_progression_direction: Option<Seq<char>>,
    pub rendition_layout: Option<Seq<char>>,
    pub rendition_flow: Option<Seq<char>>,
    pub rendition_orientation: Option<Seq<char>>,
    pub rendition_spread: Option<Seq<char>>,
    pub bindings: Seq<BindingView>,
    pub collections: Seq<CollectionView>,
}

impl View for PackagingExtras {
    type V = PackagingExtrasView;

    open spec fn view(&self) -> PackagingExtrasView {
        PackagingExtrasView {
            page_progression_direction: opt_view(self.page_progression_direction),
            rendition_layout: opt_view(self.rendition_layout),
            rendition_flow: opt_view(self.rendition_flow),
            rendition_orientation: opt_view(self.rendition_orientation),
            rendition_spread: opt_view(self.rendition_spread),
            bindings: views(self.bindings@),
            collections: views(self.collections@),
        }
    }
}

/// The `page-progression-direction` of the first `spine` element.
pub open spec fn direction_of(root: XmlNodeView) -> Option<Seq<char>> {
    match descendant_of(root, "spine"@) {
        Some(spine) => attr_of(spine, "page-progression-direction"@),
        None => None,
    }
}

/// Whether `n` is a `meta` element whose `property` is `prop`.
pub open spec fn is_meta_for(n: XmlNodeView, prop: Seq<char>) -> bool {
    n.name.local_name == "meta"@ && attr_of(n, "property"@) == Some(prop)
}

/// Text of the last `meta` element among the first `n` children that carries
/// the property `prop`; `None` where there is none or it has no text.
pub open spec fn meta_text(children: Seq<XmlNodeView>, prop: Seq<char>, n: int) -> Option<Seq<char>>
    decreases n,
{
    if n <= 0 || n > children.len() {
        None
    } else if is_meta_for(children[n - 1], prop) {
        children[n - 1].text
    } else {
        meta_text(children, prop, n - 1)
    }
}

/// The rendition property `prop` of a package document.
pub open spec fn rendition_of(root: XmlNodeView, prop: Seq<char>) -> Option<Seq<char>> {
    match descendant_of(root, "metadata"@) {
        Some(md) => meta_text(md.children, prop, md.children.len() as int),
        None => None,
    }
}

/// The binding that a child of `bindings` declares, if it is a `mediaType`
/// element with both attributes.
pub open spec fn binding_of(n: XmlNodeView) -> Option<BindingView> {
    if n.name.local_name == "mediaType"@ {
        match (attr_of(n, "media-type"@), attr_of(n, "handler"@)) {
            (Some(mt), Some(h)) => Some(BindingView { media_type: mt, handler: h }),
            _ => None,
        }
    } else {
        None
    }
}

/// The bindings declared by the first `n` children.
pub open spec fn bindings_upto(children: Seq<XmlNodeView>, n: int) -> Seq<BindingView>
    decreases n,
{
    if n <= 0 || n > children.len() {
        Seq::empty()
    } else {
        match binding_of(children[n - 1]) {
            Some(b) => bindings_upto(children, n - 1).push(b),
            None => bindings_upto(children, n - 1),
        }
    }
}

/// The bindings of a package document.
pub open spec fn bindings_of(root: XmlNodeView) -> Seq<BindingView> {
    match descendant_of(root, "bindings"@) {
        Some(b) => bindings_upto(b.children, b.children.len() as int),
        None => Seq::empty(),
    }
}

/// The links among the first `n` children of a collection.
pub open spec fn links_upto(children: Seq<XmlNodeView>, n: int) -> Seq<CollectionLinkView>
    decreases n,
{
    if n <= 0 || n > children.len() {
        Seq::empty()
    } else if children[n - 1].name.local_name == "link"@ {
        links_upto(children, n - 1).push(
            CollectionLinkView {
                href: attr_of(children[n - 1], "href"@),
                rel: attr_of(children[n - 1], "rel"@),
            },
        )
    } else {
        links_upto(children, n - 1)
    }
}

/// The collections among the first `n` children of the package element.
/// Nested collections are not followed.
pub open spec fn collections_upto(children: Seq<XmlNodeView>, n: int) -> Seq<CollectionView>
    decreases n,
{
    if n <= 0 || n > children.len() {
        Seq::empty()
    } else if children[n - 1].name.local_name == "collection"@ {
        collections_upto(children, n - 1).push(
            CollectionView {
                role: attr_of(children[n - 1], "role"@),
                links: links_upto(children[n - 1].children, children[n - 1].children.len() as int),
            },
        )
    } else {
        collections_upto(children, n - 1)
    }
}

/// The extras of a package document.
pub open spec fn extras_of(root: XmlNodeView) -> PackagingExtrasView {
    PackagingExtrasView {
        page_progression_direction: direction_of(root),
        rendition_layout: rendition_of(root, "rendition:layout"@),
        rendition_flow: rendition_of(root, "rendition:flow"@),
        rendition_orientation: rendition_of(root, "rendition:orientation"@),
        rendition_spread: rendition_of(root, "rendition:spread"@),
        bindings: bindings_of(root),
        collections: collections_upto(root.children, root.children.len() as int),
    }
}

/// Text of the last `meta` child of `md` that carries the property `prop`.
fn read_meta_text(md: &XmlNode, prop: &str) -> (r: Option<String>)
    ensures
        opt_view(r) == meta_text(md@.children, prop@, md@.children.len() as int),
{
    proof {
        lemma_node_children(*md);
    }
    let mut out: Option<String> = None;
    let mut i: usize = 0;
    while i < md.children.len()
        invariant
            i <= md.children.len(),
            md@.children == views(md.children@),
            opt_view(out) == meta_text(md@.children, prop@, i as int),
        decreases md.children.len() - i,
    {
        let item = &md.children[i];
        assert(md@.children[i as int] == item@);
        if item.is_named("meta") {
            match item.get_attr("property") {
                Some(p) => {
                    if crate::text::str_eq(p.as_str(), prop) {
                        out = item.text.clone();
                    }
                },
                None => {},
            }
        }
        i += 1;
    }
    out
}

/// The links of a collection element.
fn read_links(node: &XmlNode) -> (r: Vec<CollectionLink>)
    ensures
        views(r@) == links_upto(node@.children, node@.children.len() as int),
{
    proof {
        lemma_node_children(*node);
    }
    let mut links: Vec<CollectionLink> = Vec::new();
    let mut i: usize = 0;
    assert(views(links@) =~= Seq::<CollectionLinkView>::empty());
    while i < node.children.len()
        invariant
            i <= node.children.len(),
            node@.children == views(node.children@),
            views(links@) == links_upto(node@.children, i as int),
        decreases node.children.len() - i,
    {
        let link = &node.children[i];
        assert(node@.children[i as int] == link@);
        if link.is_named("link") {
            let l = CollectionLink { href: link.get_attr("href"), rel: link.get_attr("rel") };
            proof {
                lemma_views_push(links@, l);
            }
            links.push(l);
        }
        i += 1;
    }
    links
}

/// The bindings under a `bindings` element.
fn read_bindings(node: &XmlNode) -> (r: Vec<Binding>)
    ensures
        views(r@) == bindings_upto(node@.children, node@.children.len() as int),
{
    proof {
        lemma_node_children(*node);
    }
    let mut out: Vec<Binding> = Vec::new();
    let mut i: usize = 0;
    assert(views(out@) =~= Seq::<BindingView>::empty());
    while i < node.children.len()
        invariant
            i <= node.children.len(),
            node@.children == views(node.children@),
            views(out@) == bindings_upto(node@.children, i as int),
        decreases node.children.len() - i,
    {
        let item = &node.children[i];
        assert(node@.children[i as int] == item@);
        if item.is_named("mediaType") {
            match (item.get_attr("media-type"), item.get_attr("handler")) {
                (Some(mt), Some(h)) => {
                    let b = Binding { media_type: mt, handler: h };
                    proof {
                        lemma_views_push(out@, b);
                    }
                    out.push(b);
                },
                _ => {},
            }
        }
        i += 1;
    }
    out
}

/// Reads the extras of a package document: the spine's reading direction,
/// the four rendition properties, the bindings and the top-level collections.
pub fn parse_packaging_extras(root: &XmlNode) -> (extras: PackagingExtras)
    ensures
        extras@ == extras_of(root@),
{
    let page_progression_direction = match root.find("spine") {
        Some(spine) => spine.get_attr("page-progression-direction"),
        None => None,
    };
    let mut rendition_layout: Option<String> = None;
    let mut rendition_flow: Option<String> = None;
    let mut rendition_orientation: Option<String> = None;
    let mut rendition_spread: Option<String> = None;
    match root.find("metadata") {
        Some(md) => {
            rendition_layout = read_meta_text(md, "rendition:layout");
            rendition_flow = read_meta_text(md, "rendition:flow");
            rendition_orientation = read_meta_text(md, "rendition:orientation");
            rendition_spread = read_meta_text(md, "rendition:spread");
        },
        None => {},
    }
    let bindings = match root.find("bindings") {
        Some(b) => read_bindings(b),
        None => {
            let v: Vec<Binding> = Vec::new();
            assert(views(v@) =~= Seq::<BindingView>::empty());
            v
        },
    };
    proof {
        lemma_node_children(*root);
    }
    let mut collections: Vec<Collection> = Vec::new();
    let mut i: usize = 0;
    assert(views(collections@) =~= Seq::<CollectionView>::empty());
    while i < root.children.len()
        invariant
            i <= root.children.len(),
            root@.children == views(root.children@),
            views(collections@) == collections_upto(root@.children, i as int),
        decreases root.children.len() - i,
    {
        let node = &root.children[i];
        assert(root@.children[i as int] == node@);
        if node.is_named("collection") {
            let c = Collection { role: node.get_attr("role"), links: read_links(node) };
            proof {
                lemma_views_push(collections@, c);
            }
            collections.push(c);
        }
        i += 1;
    }
    PackagingExtras {
        page_progression_direction,
        rendition_layout,
        rendition_flow,
        rendition_orientation,
        rendition_spread,
        bindings,
        collections,
    }
}

} // verus!
