//! Package document: version, manifest, spine, guide and unique identifier.

use crate::docs::{
    EpubVersion, EpubVersionView, GuideRef, GuideRefView, MetadataItem, MetadataItemView,
    ResourceEntry, ResourceEntryView, ResourceItem, ResourceItemView, SpineItem, SpineItemView,
};
use crate::paths::{join_path, joined_path};
use crate::text::{lemma_views_push, opt_view, str_eq, views};
use crate::xml::{attr_of, descendant_of, lemma_node_children, XmlNode, XmlNodeView};
use vstd::prelude::*;

verus! {

/// The version that the package element declares.
pub open spec fn version_of(root: XmlNodeView) -> EpubVersionView {
    match attr_of(root, "version"@) {
        Some(v) => if v == "2.0"@ {
            EpubVersionView::Version2_0
        } else if v == "3.0"@ {
            EpubVersionView::Version3_0
        } else {
            EpubVersionView::Unknown(v)
        },
        None => EpubVersionView::Unknown("Unknown"@),
    }
}

/// The resource that a manifest child declares: it needs `id`, `href` and
/// `media-type`. The path is `href` resolved against `base`.
pub open spec fn resource_of(item: XmlNodeView, base: Seq<char>) -> Option<ResourceEntryView> {
    match (attr_of(item, "id"@), attr_of(item, "href"@), attr_of(item, "media-type"@)) {
        (Some(id), Some(href), Some(mime)) => Some(
            ResourceEntryView {
                id,
                item: ResourceItemView {
                    path: joined_path(base, href),
                    mime,
                    properties: attr_of(item, "properties"@),
                },
            },
        ),
        _ => None,
    }
}

/// Index of the first resource at or after `from` whose id is `id`, or `-1`.
pub open spec fn resource_index(list: Seq<ResourceEntryView>, id: Seq<char>, from: int) -> int
    decreases list.len() - from,
{
    if from < 0 || from >= list.len() {
        -1
    } else if list[from].id == id {
        from
    } else {
        resource_index(list, id, from + 1)
    }
}

/// `list` with `e` stored under its id: in place of the resource that had
/// the id, else at the end.
pub open spec fn resource_put(list: Seq<ResourceEntryView>, e: ResourceEntryView) -> Seq<
    ResourceEntryView,
> {
    let i = resource_index(list, e.id, 0);
    if 0 <= i < list.len() {
        list.update(i, e)
    } else {
        list.push(e)
    }
}

/// The resources that the first `n` manifest children declare.
pub open spec fn resources_upto(children: Seq<XmlNodeView>, base: Seq<char>, n: int) -> Seq<
    ResourceEntryView,
>
    decreases n,
{
    if n <= 0 || n > children.len() {
        Seq::empty()
    } else {
        match resource_of(children[n - 1], base) {
            Some(e) => resource_put(resources_upto(children, base, n - 1), e),
            None => resources_upto(children, base, n - 1),
        }
    }
}

/// No two resources share an id.
pub open spec fn unique_ids(list: Seq<ResourceEntryView>) -> bool {
    forall|i: int, j: int| 0 <= i < j < list.len() ==> list[i].id != list[j].id
}

/// The index found is that of the first resource with the id.
pub proof fn lemma_resource_index(list: Seq<ResourceEntryView>, id: Seq<char>, from: int)
    requires
        0 <= from,
    ensures
        resource_index(list, id, from) == -1 || (from <= resource_index(list, id, from)
            < list.len() && list[resource_index(list, id, from)].id == id),
        forall|k: int|
            from <= k < list.len() && (resource_index(list, id, from) == -1 || k < resource_index(
                list,
                id,
                from,
            )) ==> list[k].id != id,
    decreases list.len() - from,
{
    if from < list.len() && list[from].id != id {
        lemma_resource_index(list, id, from + 1);
    }
}

/// Storing a resource keeps the ids distinct.
pub proof fn lemma_put_unique(list: Seq<ResourceEntryView>, e: ResourceEntryView)
    requires
        unique_ids(list),
    ensures
        unique_ids(resource_put(list, e)),
{
    lemma_resource_index(list, e.id, 0);
}

/// The resources of a manifest have distinct ids.
pub proof fn lemma_resources_unique(children: Seq<XmlNodeView>, base: Seq<char>, n: int)
    ensures
        unique_ids(resources_upto(children, base, n)),
    decreases n,
{
    if n <= 0 || n > children.len() {
    } else {
        lemma_resources_unique(children, base, n - 1);
        match resource_of(children[n - 1], base) {
            Some(e) => {
                lemma_put_unique(resources_upto(children, base, n - 1), e);
            },
            None => {},
        }
    }
}

/// The spine item that a spine child declares: it needs `idref`; it is
/// linear unless `linear` is given and is not `yes`.
pub open spec fn spine_item_of(item: XmlNodeView) -> Option<SpineItemView> {
    match attr_of(item, "idref"@) {
        Some(idref) => Some(
            SpineItemView {
                idref,
                id: attr_of(item, "id"@),
                properties: attr_of(item, "properties"@),
                linear: match attr_of(item, "linear"@) {
                    Some(l) => l == "yes"@,
                    None => true,
                },
            },
        ),
        None => None,
    }
}

/// The spine items that the first `n` spine children declare, in order.
pub open spec fn spine_upto(children: Seq<XmlNodeView>, n: int) -> Seq<SpineItemView>
    decreases n,
{
    if n <= 0 || n > children.len() {
        Seq::empty()
    } else {
        match spine_item_of(children[n - 1]) {
            Some(s) => spine_upto(children, n - 1).push(s),
            None => spine_upto(children, n - 1),
        }
    }
}

/// The guide references among the first `n` guide children.
pub open spec fn guides_upto(children: Seq<XmlNodeView>, n: int) -> Seq<GuideRefView>
    decreases n,
{
    if n <= 0 || n > children.len() {
        Seq::empty()
    } else if children[n - 1].name.local_name == "reference"@ {
        guides_upto(children, n - 1).push(
            GuideRefView {
                kind: attr_of(children[n - 1], "type"@),
                title: attr_of(children[n - 1], "title"@),
                href: attr_of(children[n - 1], "href"@),
            },
        )
    } else {
        guides_upto(children, n - 1)
    }
}

/// The guide of a package document.
pub open spec fn guides_of(root: XmlNodeView) -> Seq<GuideRefView> {
    match descendant_of(root, "guide"@) {
        Some(g) => guides_upto(g.children, g.children.len() as int),
        None => Seq::empty(),
    }
}

/// Index of the first `identifier` item at or after `from` that has the id
/// `uid`, or any id where `uid` is `None`; `-1` where there is none.
pub open spec fn identifier_index(
    items: Seq<MetadataItemView>,
    uid: Option<Seq<char>>,
    from: int,
) -> int
    decreases items.len() - from,
{
    if from < 0 || from >= items.len() {
        -1
    } else if items[from].property == "identifier"@ && (uid is None || items[from].id == uid) {
        from
    } else {
        identifier_index(items, uid, from + 1)
    }
}

/// The unique identifier of a package: the value of the `identifier` item
/// that the package's `unique-identifier` names, or of the first one where
/// it names none.
pub open spec fn unique_id_of(items: Seq<MetadataItemView>, uid: Option<Seq<char>>) -> Option<
    Seq<char>,
> {
    let i = identifier_index(items, uid, 0);
    if 0 <= i < items.len() {
        Some(items[i].value)
    } else {
        None
    }
}

/// Reads the version that the package element declares.
pub fn read_version(root: &XmlNode) -> (r: EpubVersion)
    ensures
        r@ == version_of(root@),
{
    match root.get_attr("version") {
        Some(v) => {
            if str_eq(v.as_str(), "2.0") {
                EpubVersion::Version2_0
            } else if str_eq(v.as_str(), "3.0") {
                EpubVersion::Version3_0
            } else {
                EpubVersion::Unknown(v)
            }
        },
        None => EpubVersion::Unknown("Unknown".to_string()),
    }
}

/// Position of the resource with the given id.
pub fn find_resource(list: &Vec<ResourceEntry>, id: &str) -> (r: Option<usize>)
    ensures
        match r {
            Some(i) => i < list.len() && i as int == resource_index(views(list@), id@, 0),
            None => resource_index(views(list@), id@, 0) == -1,
        },
{
    let mut i: usize = 0;
    while i < list.len()
        invariant
            i <= list.len(),
            resource_index(views(list@), id@, 0) == resource_index(views(list@), id@, i as int),
        decreases list.len() - i,
    {
        assert(views(list@)[i as int] == list@[i as int]@);
        if str_eq(list[i].id.as_str(), id) {
            return Some(i);
        }
        i += 1;
    }
    None
}

/// Stores a resource under its id, replacing the one that had the id.
pub fn put_resource(list: &mut Vec<ResourceEntry>, e: ResourceEntry)
    ensures
        views(final(list)@) == resource_put(views(old(list)@), e@),
{
    let ghost before = views(list@);
    match find_resource(list, e.id.as_str()) {
        Some(i) => {
            list[i] = e;
            assert(views(list@) =~= before.update(i as int, e@));
        },
        None => {
            list.push(e);
            assert(views(list@) =~= before.push(e@));
        },
    }
}

/// Reads the manifest: one resource for each child that has `id`, `href`
/// and `media-type`; a later child replaces an earlier one with its id.
pub fn read_manifest(manifest: &XmlNode, base: &str) -> (r: Vec<ResourceEntry>)
    ensures
        views(r@) == resources_upto(manifest@.children, base@, manifest@.children.len() as int),
        unique_ids(views(r@)),
{
    proof {
        lemma_node_children(*manifest);
        lemma_resources_unique(manifest@.children, base@, manifest@.children.len() as int);
    }
    let mut out: Vec<ResourceEntry> = Vec::new();
    let mut i: usize = 0;
    assert(views(out@) =~= Seq::<ResourceEntryView>::empty());
    while i < manifest.children.len()
        invariant
            i <= manifest.children.len(),
            manifest@.children == views(manifest.children@),
            views(out@) == resources_upto(manifest@.children, base@, i as int),
        decreases manifest.children.len() - i,
    {
        let item = &manifest.children[i];
        assert(manifest@.children[i as int] == item@);
        match (item.get_attr("id"), item.get_attr("href"), item.get_attr("media-type")) {
            (Some(id), Some(href), Some(mime)) => {
                let e = ResourceEntry {
                    id,
                    item: ResourceItem {
                        path: join_path(base, href.as_str()),
                        mime,
                        properties: item.get_attr("properties"),
                    },
                };
                put_resource(&mut out, e);
            },
            _ => {},
        }
        i += 1;
    }
    out
}

/// Reads the spine: one item for each child that has `idref`, in order.
pub fn read_spine(spine: &XmlNode) -> (r: Vec<SpineItem>)
    ensures
        views(r@) == spine_upto(spine@.children, spine@.children.len() as int),
{
    proof {
        lemma_node_children(*spine);
    }
    let mut out: Vec<SpineItem> = Vec::new();
    let mut i: usize = 0;
    assert(views(out@) =~= Seq::<SpineItemView>::empty());
    while i < spine.children.len()
        invariant
            i <= spine.children.len(),
            spine@.children == views(spine.children@),
            views(out@) == spine_upto(spine@.children, i as int),
        decreases spine.children.len() - i,
    {
        let item = &spine.children[i];
        assert(spine@.children[i as int] == item@);
        match item.get_attr("idref") {
            Some(idref) => {
                let linear = match item.get_attr("linear") {
                    Some(l) => str_eq(l.as_str(), "yes"),
                    None => true,
                };
                let s = SpineItem {
                    idref,
                    id: item.get_attr("id"),
                    properties: item.get_attr("properties"),
                    linear,
                };
                proof {
                    lemma_views_push(out@, s);
                }
                out.push(s);
            },
            None => {},
        }
        i += 1;
    }
    out
}

/// Reads the guide of a package document.
pub fn read_guides(root: &XmlNode) -> (r: Vec<GuideRef>)
    ensures
        views(r@) == guides_of(root@),
{
    let mut out: Vec<GuideRef> = Vec::new();
    assert(views(out@) =~= Seq::<GuideRefView>::empty());
    match root.find("guide") {
        Some(guide) => {
            proof {
                lemma_node_children(*guide);
            }
            let mut i: usize = 0;
            while i < guide.children.len()
                invariant
                    i <= guide.children.len(),
                    guide@.children == views(guide.children@),
                    views(out@) == guides_upto(guide@.children, i as int),
                decreases guide.children.len() - i,
            {
                let item = &guide.children[i];
                assert(guide@.children[i as int] == item@);
                if item.is_named("reference") {
                    let g = GuideRef {
                        kind: item.get_attr("type"),
                        title: item.get_attr("title"),
                        href: item.get_attr("href"),
                    };
                    proof {
                        lemma_views_push(out@, g);
                    }
                    out.push(g);
                }
                i += 1;
            }
            out
        },
        None => out,
    }
}

/// Finds the unique identifier among the metadata items.
pub fn read_unique_id(items: &Vec<MetadataItem>, uid: &Option<String>) -> (r: Option<String>)
    ensures
        opt_view(r) == unique_id_of(views(items@), opt_view(*uid)),
{
    let mut i: usize = 0;
    while i < items.len()
        invariant
            i <= items.len(),
            identifier_index(views(items@), opt_view(*uid), 0) == identifier_index(
                views(items@),
                opt_view(*uid),
                i as int,
            ),
        decreases items.len() - i,
    {
        let d = &items[i];
        assert(views(items@)[i as int] == d@);
        if str_eq(d.property.as_str(), "identifier") {
            let id_ok = match uid {
                None => true,
                Some(u) => match &d.id {
                    Some(x) => str_eq(x.as_str(), u.as_str()),
                    None => false,
                },
            };
            if id_ok {
                return Some(d.value.clone());
            }
        }
        i += 1;
    }
    None
}

} // verus!
