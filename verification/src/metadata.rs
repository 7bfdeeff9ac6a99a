//! Metadata of the package document: Dublin Core elements, `meta` elements
//! and the refinements attached to them.

use crate::docs::{
    MetadataItem, MetadataItemView, MetadataRefinement, MetadataRefinementView,
};
use crate::text::{
    chars_eq, chars_eq_ignore_case, chars_of, eq_ignore_case, lemma_views_push, opt_view,
    slice_of, str_eq, string_of, views,
};
use crate::xml::{attr_of, lemma_node_children, XmlAttr, XmlAttrView, XmlNode, XmlNodeView};
use vstd::prelude::*;

verus! {

/// Namespace of the Dublin Core elements.
pub open spec fn dc_namespace() -> Seq<char> {
    "http://purl.org/dc/elements/1.1/"@
}

/// Namespace of the package document.
pub open spec fn opf_namespace() -> Seq<char> {
    "http://www.idpf.org/2007/opf"@
}

/// A refinement waiting for the item whose id is `target`.
pub struct Pending {
    pub target: String,
    pub refinement: MetadataRefinement,
}

/// The mathematical model of `Pending`.
pub struct PendingView {
    pub target: Seq<char>,
    pub refinement: MetadataRefinementView,
}

impl View for Pending {
    type V = PendingView;

    open spec fn view(&self) -> PendingView {
        PendingView { target: self.target@, refinement: self.refinement@ }
    }
}

/// The refinements that the first `n` attributes give to an EPUB 2 Dublin
/// Core element: one for each attribute in the package namespace.
pub open spec fn attr_refinements(attrs: Seq<XmlAttrView>, n: int) -> Seq<MetadataRefinementView>
    decreases n,
{
    if n <= 0 || n > attrs.len() {
        Seq::empty()
    } else if attrs[n - 1].name.namespace == Some(opf_namespace()) {
        attr_refinements(attrs, n - 1).push(
            MetadataRefinementView {
                property: attrs[n - 1].name.local_name,
                value: attrs[n - 1].value,
                lang: None,
                scheme: None,
            },
        )
    } else {
        attr_refinements(attrs, n - 1)
    }
}

/// The text of an element, empty where it has none.
pub open spec fn text_or_empty(n: XmlNodeView) -> Seq<char> {
    match n.text {
        Some(t) => t,
        None => Seq::empty(),
    }
}

/// Whether `n` is a Dublin Core element.
pub open spec fn is_dc(n: XmlNodeView) -> bool {
    n.name.namespace == Some(dc_namespace())
}

/// Whether `n` is a `meta` element of the package namespace.
pub open spec fn is_opf_meta(n: XmlNodeView) -> bool {
    n.name.namespace == Some(opf_namespace()) && eq_ignore_case(n.name.local_name, "meta"@)
}

/// Whether `n` is a `meta` element that refines another item.
pub open spec fn is_refinement(n: XmlNodeView) -> bool {
    !is_dc(n) && is_opf_meta(n) && attr_of(n, "property"@) is Some && attr_of(n, "refines"@)
        is Some
}

/// The id that a `refines` value points to: the value without one leading
/// `#`.
pub open spec fn refines_target(refines: Seq<char>) -> Seq<char> {
    if refines.len() > 0 && refines[0] == '#' {
        refines.subrange(1, refines.len() as int)
    } else {
        refines
    }
}

/// The metadata item, without refinements attached by id, that an element
/// of the metadata section declares, if it declares one.
pub open spec fn item_of(n: XmlNodeView, is_v3: bool) -> Option<MetadataItemView> {
    if is_dc(n) {
        Some(
            MetadataItemView {
                id: attr_of(n, "id"@),
                property: n.name.local_name,
                value: text_or_empty(n),
                lang: attr_of(n, "lang"@),
                refined: if is_v3 {
                    Seq::empty()
                } else {
                    attr_refinements(n.attrs, n.attrs.len() as int)
                },
            },
        )
    } else if is_opf_meta(n) {
        if attr_of(n, "property"@) is Some {
            if attr_of(n, "refines"@) is Some {
                None
            } else {
                Some(
                    MetadataItemView {
                        id: attr_of(n, "id"@),
                        property: attr_of(n, "property"@)->0,
                        value: text_or_empty(n),
                        lang: attr_of(n, "lang"@),
                        refined: Seq::empty(),
                    },
                )
            }
        } else if attr_of(n, "name"@) is Some && attr_of(n, "content"@) is Some {
            Some(
                MetadataItemView {
                    id: None,
                    property: attr_of(n, "name"@)->0,
                    value: attr_of(n, "content"@)->0,
                    lang: None,
                    refined: Seq::empty(),
                },
            )
        } else {
            None
        }
    } else {
        None
    }
}

/// The refinement that a refining `meta` element declares, with its target.
pub open spec fn pending_of(n: XmlNodeView) -> PendingView {
    PendingView {
        target: refines_target(attr_of(n, "refines"@)->0),
        refinement: MetadataRefinementView {
            property: attr_of(n, "property"@)->0,
            value: text_or_empty(n),
            lang: attr_of(n, "lang"@),
            scheme: attr_of(n, "scheme"@),
        },
    }
}

/// The items declared by the first `n` children, in document order.
pub open spec fn items_upto(children: Seq<XmlNodeView>, is_v3: bool, n: int) -> Seq<
    MetadataItemView,
>
    decreases n,
{
    if n <= 0 || n > children.len() {
        Seq::empty()
    } else {
        match item_of(children[n - 1], is_v3) {
            Some(item) => items_upto(children, is_v3, n - 1).push(item),
            None => items_upto(children, is_v3, n - 1),
        }
    }
}

/// The refinements declared by the first `n` children, in document order.
pub open spec fn pending_upto(children: Seq<XmlNodeView>, n: int) -> Seq<PendingView>
    decreases n,
{
    if n <= 0 || n > children.len() {
        Seq::empty()
    } else if is_refinement(children[n - 1]) {
        pending_upto(children, n - 1).push(pending_of(children[n - 1]))
    } else {
        pending_upto(children, n - 1)
    }
}

/// The refinements among the first `n` pending ones that point to `target`.
pub open spec fn refinements_for(pending: Seq<PendingView>, target: Seq<char>, n: int) -> Seq<
    MetadataRefinementView,
>
    decreases n,
{
    if n <= 0 || n > pending.len() {
        Seq::empty()
    } else if pending[n - 1].target == target {
        refinements_for(pending, target, n - 1).push(pending[n - 1].refinement)
    } else {
        refinements_for(pending, target, n - 1)
    }
}

/// Whether one of the first `n` items has the id `id`.
pub open spec fn id_taken(items: Seq<MetadataItemView>, id: Seq<char>, n: int) -> bool
    decreases n,
{
    if n <= 0 || n > items.len() {
        false
    } else {
        items[n - 1].id == Some(id) || id_taken(items, id, n - 1)
    }
}

/// Item `k` with the refinements that point to its id attached. Where
/// several items share an id, the first of them gets the refinements.
pub open spec fn attached(items: Seq<MetadataItemView>, pending: Seq<PendingView>, k: int) -> MetadataItemView {
    let item = items[k];
    match item.id {
        Some(id) => if id_taken(items, id, k) {
            item
        } else {
            MetadataItemView {
                refined: item.refined + refinements_for(pending, id, pending.len() as int),
                ..item
            }
        },
        None => item,
    }
}

/// The metadata of a metadata section.
pub open spec fn metadata_of(elem: XmlNodeView, is_v3: bool) -> Seq<MetadataItemView> {
    let items = items_upto(elem.children, is_v3, elem.children.len() as int);
    let pending = pending_upto(elem.children, elem.children.len() as int);
    Seq::new(items.len(), |k: int| attached(items, pending, k))
}

/// The refinements that the attributes of an EPUB 2 Dublin Core element give.
fn read_attr_refinements(attrs: &Vec<XmlAttr>) -> (r: Vec<MetadataRefinement>)
    ensures
        views(r@) == attr_refinements(views(attrs@), attrs@.len() as int),
{
    let mut out: Vec<MetadataRefinement> = Vec::new();
    let mut i: usize = 0;
    assert(views(out@) =~= Seq::<MetadataRefinementView>::empty());
    while i < attrs.len()
        invariant
            i <= attrs.len(),
            views(out@) == attr_refinements(views(attrs@), i as int),
        decreases attrs.len() - i,
    {
        let a = &attrs[i];
        assert(views(attrs@)[i as int] == a@);
        let in_opf = match &a.name.namespace {
            Some(ns) => str_eq(ns.as_str(), "http://www.idpf.org/2007/opf"),
            None => false,
        };
        if in_opf {
            let r = MetadataRefinement {
                property: a.name.local_name.clone(),
                value: a.value.clone(),
                lang: None,
                scheme: None,
            };
            proof {
                lemma_views_push(out@, r);
            }
            out.push(r);
        }
        i += 1;
    }
    out
}

/// The text of an element, empty where it has none.
fn read_text(n: &XmlNode) -> (r: String)
    ensures
        r@ == text_or_empty(n@),
{
    match &n.text {
        Some(t) => t.clone(),
        None => String::new(),
    }
}

/// Whether the element lies in the given namespace.
fn in_namespace(n: &XmlNode, ns: &str) -> (r: bool)
    ensures
        r == (n@.name.namespace == Some(ns@)),
{
    match &n.name.namespace {
        Some(u) => str_eq(u.as_str(), ns),
        None => false,
    }
}

/// The id that a `refines` value points to.
fn read_target(refines: &String) -> (r: String)
    ensures
        r@ == refines_target(refines@),
{
    let v = chars_of(refines.as_str());
    if v.len() > 0 && v[0] == '#' {
        let t = slice_of(&v, 1, v.len());
        string_of(&t)
    } else {
        string_of(&v)
    }
}

/// What one element of the metadata section declares: an item, a pending
/// refinement, or nothing.
fn read_element(item: &XmlNode, is_v3: bool) -> (r: (Option<MetadataItem>, Option<Pending>))
    ensures
        match r.0 {
            Some(m) => item_of(item@, is_v3) == Some(m@),
            None => item_of(item@, is_v3) is None,
        },
        match r.1 {
            Some(p) => is_refinement(item@) && p@ == pending_of(item@),
            None => !is_refinement(item@),
        },
{
    proof {
        lemma_node_children(*item);
    }
    if in_namespace(item, "http://purl.org/dc/elements/1.1/") {
        let refined = if is_v3 {
            let v: Vec<MetadataRefinement> = Vec::new();
            assert(views(v@) =~= Seq::<MetadataRefinementView>::empty());
            v
        } else {
            read_attr_refinements(&item.attrs)
        };
        let m = MetadataItem {
            id: item.get_attr("id"),
            property: item.name.local_name.clone(),
            value: read_text(item),
            lang: item.get_attr("lang"),
            refined,
        };
        return (Some(m), None);
    }
    let local = chars_of(item.name.local_name.as_str());
    let meta = chars_of("meta");
    if in_namespace(item, "http://www.idpf.org/2007/opf") && chars_eq_ignore_case(&local, &meta) {
        match item.get_attr("property") {
            Some(property) => {
                let value = read_text(item);
                let lang = item.get_attr("lang");
                match item.get_attr("refines") {
                    Some(refines) => {
                        let p = Pending {
                            target: read_target(&refines),
                            refinement: MetadataRefinement {
                                property,
                                value,
                                lang,
                                scheme: item.get_attr("scheme"),
                            },
                        };
                        (None, Some(p))
                    },
                    None => {
                        let refined: Vec<MetadataRefinement> = Vec::new();
                        assert(views(refined@) =~= Seq::<MetadataRefinementView>::empty());
                        let m = MetadataItem {
                            id: item.get_attr("id"),
                            property,
                            value,
                            lang,
                            refined,
                        };
                        (Some(m), None)
                    },
                }
            },
            None => {
                match (item.get_attr("name"), item.get_attr("content")) {
                    (Some(property), Some(value)) => {
                        let refined: Vec<MetadataRefinement> = Vec::new();
                        assert(views(refined@) =~= Seq::<MetadataRefinementView>::empty());
                        let m = MetadataItem { id: None, property, value, lang: None, refined };
                        (Some(m), None)
                    },
                    _ => (None, None),
                }
            },
        }
    } else {
        (None, None)
    }
}

/// A copy of a refinement.
fn copy_refinement(r: &MetadataRefinement) -> (c: MetadataRefinement)
    ensures
        c@ == r@,
{
    MetadataRefinement {
        property: r.property.clone(),
        value: r.value.clone(),
        lang: r.lang.clone(),
        scheme: r.scheme.clone(),
    }
}

/// Whether one of the first `n` items has the id `id`.
fn is_id_taken(items: &Vec<MetadataItem>, id: &String, n: usize) -> (r: bool)
    requires
        n <= items.len(),
    ensures
        r == id_taken(views(items@), id@, n as int),
{
    let mut i: usize = 0;
    while i < n
        invariant
            i <= n <= items.len(),
            !id_taken(views(items@), id@, i as int),
        decreases n - i,
    {
        assert(views(items@)[i as int] == items@[i as int]@);
        let same = match &items[i].id {
            Some(x) => str_eq(x.as_str(), id.as_str()),
            None => false,
        };
        if same {
            proof {
                lemma_id_taken(views(items@), id@, i as int, n as int);
            }
            return true;
        }
        i += 1;
    }
    false
}

/// An id that an item has is taken.
pub proof fn lemma_id_taken(items: Seq<MetadataItemView>, id: Seq<char>, i: int, n: int)
    requires
        0 <= i < n <= items.len(),
        items[i].id == Some(id),
    ensures
        id_taken(items, id, n),
    decreases n,
{
    if n - 1 > i {
        lemma_id_taken(items, id, i, n - 1);
    }
}

/// Appends to `refined` the pending refinements that point to `target`.
fn attach(refined: &mut Vec<MetadataRefinement>, pending: &Vec<Pending>, target: &String)
    ensures
        views(final(refined)@) == views(old(refined)@) + refinements_for(
            views(pending@),
            target@,
            pending@.len() as int,
        ),
{
    let mut i: usize = 0;
    assert(views(refined@) + Seq::<MetadataRefinementView>::empty() =~= views(refined@));
    while i < pending.len()
        invariant
            i <= pending.len(),
            views(refined@) == views(old(refined)@) + refinements_for(
                views(pending@),
                target@,
                i as int,
            ),
        decreases pending.len() - i,
    {
        assert(views(pending@)[i as int] == pending@[i as int]@);
        if str_eq(pending[i].target.as_str(), target.as_str()) {
            let c = copy_refinement(&pending[i].refinement);
            proof {
                lemma_views_push(refined@, c);
                let prev = refinements_for(views(pending@), target@, i as int);
                assert((views(old(refined)@) + prev).push(c@) =~= views(old(refined)@) + prev.push(
                    c@,
                ));
            }
            refined.push(c);
        }
        i += 1;
    }
}

/// Reads the metadata section: every Dublin Core element and every primary
/// or legacy `meta` element becomes an item, in document order; refining
/// `meta` elements are attached to the first item that has the id they
/// point to. `is_v3` says whether the package declares version 3.0.
pub fn read_metadata(elem: &XmlNode, is_v3: bool) -> (r: Vec<MetadataItem>)
    ensures
        views(r@) == metadata_of(elem@, is_v3),
{
    proof {
        lemma_node_children(*elem);
    }
    let mut items: Vec<MetadataItem> = Vec::new();
    let mut pending: Vec<Pending> = Vec::new();
    let mut i: usize = 0;
    assert(views(items@) =~= Seq::<MetadataItemView>::empty());
    assert(views(pending@) =~= Seq::<PendingView>::empty());
    while i < elem.children.len()
        invariant
            i <= elem.children.len(),
            elem@.children == views(elem.children@),
            views(items@) == items_upto(elem@.children, is_v3, i as int),
            views(pending@) == pending_upto(elem@.children, i as int),
        decreases elem.children.len() - i,
    {
        let child = &elem.children[i];
        assert(elem@.children[i as int] == child@);
        let (m, p) = read_element(child, is_v3);
        match m {
            Some(item) => {
                proof {
                    lemma_views_push(items@, item);
                }
                items.push(item);
            },
            None => {},
        }
        match p {
            Some(x) => {
                proof {
                    lemma_views_push(pending@, x);
                }
                pending.push(x);
            },
            None => {},
        }
        i += 1;
    }
    let ghost raw = views(items@);
    let ghost pv = views(pending@);
    let mut out: Vec<MetadataItem> = Vec::new();
    let n = items.len();
    let mut k: usize = 0;
    while k < n
        invariant
            k <= n,
            n == items.len(),
            raw == views(items@),
            pv == views(pending@),
            out@.len() == k,
            forall|j: int| 0 <= j < k ==> (#[trigger] out@[j])@ == attached(raw, pv, j),
        decreases n - k,
    {
        let it = &items[k];
        assert(raw[k as int] == it@);
        let mut refined: Vec<MetadataRefinement> = Vec::new();
        let mut q: usize = 0;
        assert(views(refined@) =~= views(it.refined@).take(0));
        while q < it.refined.len()
            invariant
                q <= it.refined.len(),
                views(refined@) == views(it.refined@).take(q as int),
            decreases it.refined.len() - q,
        {
            let c = copy_refinement(&it.refined[q]);
            proof {
                lemma_views_push(refined@, c);
                assert(views(it.refined@).take(q as int).push(c@) =~= views(it.refined@).take(
                    q + 1,
                ));
            }
            refined.push(c);
            q += 1;
        }
        assert(views(it.refined@).take(it.refined@.len() as int) =~= views(it.refined@));
        match &it.id {
            Some(id) => {
                if !is_id_taken(&items, id, k) {
                    attach(&mut refined, &pending, id);
                }
            },
            None => {},
        }
        let done = MetadataItem {
            id: it.id.clone(),
            property: it.property.clone(),
            value: it.value.clone(),
            lang: it.lang.clone(),
            refined,
        };
        assert(done@ == attached(raw, pv, k as int));
        out.push(done);
        k += 1;
    }
    assert(views(out@) =~= metadata_of(elem@, is_v3));
    out
}

} // verus!
