//! Annotation store: the annotations of one book, under distinct ids.

use crate::numbers::u64_text;
use crate::text::{chars_of, extend_chars, lemma_views_push, opt_view, str_eq, string_of, views};
use vstd::prelude::*;

verus! {

/// Directory of the saved annotations, below the temporary directory.
pub const STORE_DIR_NAME: &'static str = "rishi_store";

/// What an annotation marks its range with.
#[derive(Debug, Clone, Copy, PartialEq, Eq)]
pub enum AnnotationKind {
    Highlight,
    Underline,
    Mark,
}

/// An annotation of a range of a book.
#[derive(Debug)]
pub struct Annotation {
    pub id: String,
    pub kind: AnnotationKind,
    pub cfi_range: String,
    pub color: Option<String>,
    pub note: Option<String>,
}

/// The mathematical model of `Annotation`.
pub struct AnnotationView {
    pub id: Seq<char>,
    pub kind: AnnotationKind,
    pub cfi_range: Seq<char>,
    pub color: Option<Seq<char>>,
    pub note: Option<Seq<char>>,
}

impl View for Annotation {
    type V = AnnotationView;

    open spec fn view(&self) -> AnnotationView {
        AnnotationView {
            id: self.id@,
            kind: self.kind,
            cfi_range: self.cfi_range@,
            color: opt_view(self.color),
            note: opt_view(self.note),
        }
    }
}

/// The saved form of the annotations of a book.
#[derive(Debug)]
pub struct AnnotationsPayload {
    pub annotations: Vec<Annotation>,
}

/// The saved form of the location counts of a book.
#[derive(Debug)]
pub struct LocationsPayload {
    pub total: usize,
    pub by_spine: Vec<usize>,
}

/// Why a change to the store failed.
#[derive(Debug, PartialEq, Eq)]
pub enum AnnotationError {
    /// No annotation has the id.
    NotFound,
}

/// The annotations of one book, in the order in which their ids were first
/// added.
#[derive(Debug)]
pub struct AnnotationStore {
    pub items: Vec<Annotation>,
}

impl View for AnnotationStore {
    type V = Seq<AnnotationView>;

    open spec fn view(&self) -> Seq<AnnotationView> {
        views(self.items@)
    }
}

/// Index of the first annotation at or after `from` with the id `id`, or
/// `-1`.
pub open spec fn annotation_index(items: Seq<AnnotationView>, id: Seq<char>, from: int) -> int
    decreases items.len() - from,
{
    if from < 0 || from >= items.len() {
        -1
    } else if items[from].id == id {
        from
    } else {
        annotation_index(items, id, from + 1)
    }
}

/// Whether an annotation has the id `id`.
pub open spec fn has_id(items: Seq<AnnotationView>, id: Seq<char>) -> bool {
    annotation_index(items, id, 0) >= 0
}

/// No two annotations share an id.
pub open spec fn distinct_ids(items: Seq<AnnotationView>) -> bool {
    forall|i: int, j: int| 0 <= i < j < items.len() ==> items[i].id != items[j].id
}

/// The annotations after `a` is added: in place of the one that had its id,
/// else at the end.
pub open spec fn added(items: Seq<AnnotationView>, a: AnnotationView) -> Seq<AnnotationView> {
    let i = annotation_index(items, a.id, 0);
    if 0 <= i < items.len() {
        items.update(i, a)
    } else {
        items.push(a)
    }
}

/// The first `n` annotations without those that have the id `id`.
pub open spec fn removed(items: Seq<AnnotationView>, id: Seq<char>, n: int) -> Seq<AnnotationView>
    decreases n,
{
    if n <= 0 || n > items.len() {
        Seq::empty()
    } else if items[n - 1].id == id {
        removed(items, id, n - 1)
    } else {
        removed(items, id, n - 1).push(items[n - 1])
    }
}

/// The index found is that of the first annotation with the id.
pub proof fn lemma_annotation_index(items: Seq<AnnotationView>, id: Seq<char>, from: int)
    requires
        0 <= from,
    ensures
        annotation_index(items, id, from) == -1 || (from <= annotation_index(items, id, from)
            < items.len() && items[annotation_index(items, id, from)].id == id),
        forall|k: int|
            from <= k < items.len() && (annotation_index(items, id, from) == -1 || k
                < annotation_index(items, id, from)) ==> (#[trigger] items[k]).id != id,
    decreases items.len() - from,
{
    if from < items.len() && items[from].id != id {
        lemma_annotation_index(items, id, from + 1);
    }
}

/// Adding keeps the ids distinct, and the added annotation is in the store
/// under its id.
pub proof fn lemma_added(items: Seq<AnnotationView>, a: AnnotationView)
    requires
        distinct_ids(items),
    ensures
        distinct_ids(added(items, a)),
        0 <= annotation_index(added(items, a), a.id, 0) < added(items, a).len(),
        added(items, a)[annotation_index(added(items, a), a.id, 0)] == a,
{
    lemma_annotation_index(items, a.id, 0);
    let after = added(items, a);
    lemma_annotation_index(after, a.id, 0);
    let i = annotation_index(items, a.id, 0);
    if 0 <= i < items.len() {
        assert(after[i] == a);
        assert forall|k: int| 0 <= k < after.len() && k != i implies (#[trigger] after[k]).id
            != a.id by {
            assert(after[k] == items[k]);
        }
    } else {
        assert(after[items.len() as int] == a);
        assert forall|k: int| 0 <= k < items.len() implies (#[trigger] after[k]).id != a.id by {
            assert(after[k] == items[k]);
        }
    }
}

/// Adding an annotation twice is adding it once.
pub proof fn lemma_add_idempotent(items: Seq<AnnotationView>, a: AnnotationView)
    ensures
        added(added(items, a), a) == added(items, a),
{
    lemma_annotation_index(items, a.id, 0);
    let once = added(items, a);
    lemma_annotation_index(once, a.id, 0);
    let i = annotation_index(items, a.id, 0);
    if 0 <= i < items.len() {
        assert(once[i].id == a.id);
        assert forall|k: int| 0 <= k < i implies (#[trigger] once[k]).id != a.id by {
            assert(once[k] == items[k]);
        }
        assert(annotation_index(once, a.id, 0) == i);
        assert(once.update(i, a) =~= once);
    } else {
        let n = items.len() as int;
        assert(once[n].id == a.id);
        assert forall|k: int| 0 <= k < n implies (#[trigger] once[k]).id != a.id by {
            assert(once[k] == items[k]);
        }
        assert(annotation_index(once, a.id, 0) == n);
        assert(once.update(n, a) =~= once);
    }
}

/// After removal no annotation has the removed id.
pub proof fn lemma_removed(items: Seq<AnnotationView>, id: Seq<char>, n: int)
    requires
        0 <= n <= items.len(),
    ensures
        forall|k: int|
            0 <= k < removed(items, id, n).len() ==> (#[trigger] removed(items, id, n)[k]).id
                != id,
        removed(items, id, n).len() <= n,
        forall|k: int|
            0 <= k < removed(items, id, n).len() ==> exists|j: int|
                0 <= j < n && items[j] == #[trigger] removed(items, id, n)[k],
        distinct_ids(items) ==> distinct_ids(removed(items, id, n)),
    decreases n,
{
    if n > 0 {
        lemma_removed(items, id, n - 1);
        let prev = removed(items, id, n - 1);
        let cur = removed(items, id, n);
        if items[n - 1].id != id {
            assert forall|k: int| 0 <= k < cur.len() implies exists|j: int|
                0 <= j < n && items[j] == #[trigger] cur[k] by {
                if k < prev.len() {
                    assert(cur[k] == prev[k]);
                    let j = choose|j: int| 0 <= j < n - 1 && items[j] == prev[k];
                    assert(items[j] == cur[k]);
                } else {
                    assert(items[n - 1] == cur[k]);
                }
            }
            if distinct_ids(items) {
                assert forall|a: int, b: int| 0 <= a < b < cur.len() implies cur[a].id
                    != cur[b].id by {
                    if b < prev.len() {
                        assert(cur[a] == prev[a] && cur[b] == prev[b]);
                    } else {
                        assert(cur[a] == prev[a]);
                        let j = choose|j: int| 0 <= j < n - 1 && items[j] == prev[a];
                        assert(items[j].id != items[n - 1].id);
                    }
                }
            }
        } else {
            assert forall|k: int| 0 <= k < cur.len() implies exists|j: int|
                0 <= j < n && items[j] == #[trigger] cur[k] by {
                let j = choose|j: int| 0 <= j < n - 1 && items[j] == prev[k];
                assert(items[j] == cur[k]);
            }
        }
    }
}

/// After an annotation is added and its id removed, the store holds no
/// annotation with that id, and so not the annotation.
pub proof fn lemma_add_then_remove(items: Seq<AnnotationView>, a: AnnotationView)
    ensures
        !has_id(
            removed(added(items, a), a.id, added(items, a).len() as int),
            a.id,
        ),
        forall|k: int|
            0 <= k < removed(added(items, a), a.id, added(items, a).len() as int).len()
                ==> #[trigger] removed(added(items, a), a.id, added(items, a).len() as int)[k]
                != a,
{
    let after = added(items, a);
    lemma_removed(after, a.id, after.len() as int);
    let left = removed(after, a.id, after.len() as int);
    lemma_annotation_index(left, a.id, 0);
}

/// A copy of an annotation.
pub fn copy_annotation(a: &Annotation) -> (c: Annotation)
    ensures
        c@ == a@,
{
    Annotation {
        id: a.id.clone(),
        kind: a.kind,
        cfi_range: a.cfi_range.clone(),
        color: a.color.clone(),
        note: a.note.clone(),
    }
}

impl AnnotationStore {
    /// An empty store.
    pub fn new() -> (s: AnnotationStore)
        ensures
            s@.len() == 0,
            distinct_ids(s@),
    {
        let s = AnnotationStore { items: Vec::new() };
        assert(views(s.items@) =~= Seq::<AnnotationView>::empty());
        s
    }

    /// A store with the given annotations, added in order: of annotations
    /// that share an id the last one stays.
    pub fn from_list(list: Vec<Annotation>) -> (s: AnnotationStore)
        ensures
            distinct_ids(s@),
            s@ == added_all(views(list@), list@.len() as int),
    {
        let mut s = AnnotationStore::new();
        let mut rest = list;
        let ghost orig = views(rest@);
        let total = rest.len();
        let mut i: usize = 0;
        proof {
            assert(s@ =~= added_all(orig, 0));
            assert(orig.subrange(0, total as int) =~= orig);
        }
        while i < total
            invariant
                i <= total,
                total == orig.len(),
                rest@.len() == total - i,
                views(rest@) == orig.subrange(i as int, total as int),
                s@ == added_all(orig, i as int),
                distinct_ids(s@),
            decreases total - i,
        {
            let ghost rv = views(rest@);
            assert(rv[0] == rest@[0]@);
            let a = rest.remove(0);
            assert(views(rest@) =~= rv.remove(0));
            assert(rv.remove(0) =~= orig.subrange(i + 1, total as int));
            assert(a@ == orig[i as int]);
            proof {
                lemma_added(s@, a@);
            }
            s.add(a);
            i += 1;
        }
        s
    }

    /// A snapshot of the annotations.
    pub fn list(&self) -> (r: Vec<Annotation>)
        ensures
            views(r@) == self@,
    {
        let mut out: Vec<Annotation> = Vec::new();
        let mut i: usize = 0;
        assert(views(out@) =~= self@.take(0));
        while i < self.items.len()
            invariant
                i <= self.items.len(),
                views(out@) == self@.take(i as int),
            decreases self.items.len() - i,
        {
            let c = copy_annotation(&self.items[i]);
            proof {
                lemma_views_push(out@, c);
                assert(self@[i as int] == self.items@[i as int]@);
                assert(self@.take(i as int).push(c@) =~= self@.take(i + 1));
            }
            out.push(c);
            i += 1;
        }
        assert(self@.take(self@.len() as int) =~= self@);
        out
    }

    /// Position of the annotation with the id `id`.
    fn find(&self, id: &str) -> (r: Option<usize>)
        ensures
            match r {
                Some(i) => i < self.items.len() && i as int == annotation_index(self@, id@, 0),
                None => annotation_index(self@, id@, 0) == -1,
            },
    {
        let mut i: usize = 0;
        while i < self.items.len()
            invariant
                i <= self.items.len(),
                annotation_index(self@, id@, 0) == annotation_index(self@, id@, i as int),
            decreases self.items.len() - i,
        {
            assert(self@[i as int] == self.items@[i as int]@);
            if str_eq(self.items[i].id.as_str(), id) {
                return Some(i);
            }
            i += 1;
        }
        None
    }

    /// Adds an annotation: in place of the one that has its id, else at the
    /// end.
    pub fn add(&mut self, a: Annotation)
        ensures
            final(self)@ == added(old(self)@, a@),
            distinct_ids(old(self)@) ==> distinct_ids(final(self)@),
    {
        let ghost before = views(self.items@);
        proof {
            if distinct_ids(before) {
                lemma_added(before, a@);
            }
        }
        match self.find(a.id.as_str()) {
            Some(i) => {
                self.items[i] = a;
                assert(views(self.items@) =~= before.update(i as int, a@));
            },
            None => {
                self.items.push(a);
                assert(views(self.items@) =~= before.push(a@));
            },
        }
    }

    /// Replaces the annotation that has the id of `a`; `NotFound`, and no
    /// change, where there is none.
    pub fn update(&mut self, a: Annotation) -> (r: Result<(), AnnotationError>)
        ensures
            r is Ok <==> has_id(old(self)@, a@.id),
            r is Ok ==> final(self)@ == old(self)@.update(
                annotation_index(old(self)@, a@.id, 0),
                a@,
            ),
            r is Err ==> final(self)@ == old(self)@ && r->Err_0 == AnnotationError::NotFound,
            distinct_ids(old(self)@) ==> distinct_ids(final(self)@),
    {
        let ghost before = views(self.items@);
        proof {
            lemma_annotation_index(before, a@.id, 0);
        }
        match self.find(a.id.as_str()) {
            Some(i) => {
                self.items[i] = a;
                assert(views(self.items@) =~= before.update(i as int, a@));
                Ok(())
            },
            None => Err(AnnotationError::NotFound),
        }
    }

    /// Removes the annotations that have the id `id`, and says whether
    /// there was one. The others keep their order.
    pub fn remove(&mut self, id: &str) -> (found: bool)
        ensures
            final(self)@ == removed(old(self)@, id@, old(self)@.len() as int),
            found == has_id(old(self)@, id@),
            !has_id(final(self)@, id@),
            distinct_ids(old(self)@) ==> distinct_ids(final(self)@),
    {
        let found = self.find(id).is_some();
        let ghost orig = views(self.items@);
        let mut kept: Vec<Annotation> = Vec::new();
        let mut rest: Vec<Annotation> = Vec::new();
        std::mem::swap(&mut self.items, &mut rest);
        let total = rest.len();
        let mut i: usize = 0;
        assert(views(kept@) =~= Seq::<AnnotationView>::empty());
        assert(orig.subrange(0, total as int) =~= orig);
        while i < total
            invariant
                i <= total,
                total == orig.len(),
                rest@.len() == total - i,
                views(rest@) == orig.subrange(i as int, total as int),
                views(kept@) == removed(orig, id@, i as int),
            decreases total - i,
        {
            let ghost rv = views(rest@);
            assert(rv[0] == rest@[0]@);
            let a = rest.remove(0);
            assert(views(rest@) =~= rv.remove(0));
            assert(rv.remove(0) =~= orig.subrange(i + 1, total as int));
            assert(a@ == orig[i as int]);
            if !str_eq(a.id.as_str(), id) {
                proof {
                    lemma_views_push(kept@, a);
                }
                kept.push(a);
            }
            i += 1;
        }
        self.items = kept;
        proof {
            lemma_removed(orig, id@, orig.len() as int);
            lemma_annotation_index(self@, id@, 0);
        }
        found
    }
}

/// The first `n` annotations of a list, added one after another to an empty
/// store.
pub open spec fn added_all(list: Seq<AnnotationView>, n: int) -> Seq<AnnotationView>
    decreases n,
{
    if n <= 0 || n > list.len() {
        Seq::empty()
    } else {
        added(added_all(list, n - 1), list[n - 1])
    }
}

/// Name of the file that holds the annotations of a book:
/// `<book id>_annotations.json`.
pub fn annotations_file_name(book_id: u64) -> (r: String)
    ensures
        r@ == crate::numbers::nat_digits(book_id as int) + "_annotations.json"@,
{
    let mut out = u64_text(book_id);
    extend_chars(&mut out, &chars_of("_annotations.json"));
    string_of(&out)
}

/// Name of the file that holds the location counts of a book:
/// `<book id>_locations.json`.
pub fn locations_file_name(book_id: u64) -> (r: String)
    ensures
        r@ == crate::numbers::nat_digits(book_id as int) + "_locations.json"@,
{
    let mut out = u64_text(book_id);
    extend_chars(&mut out, &chars_of("_locations.json"));
    string_of(&out)
}

} // verus!
