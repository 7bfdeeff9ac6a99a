//! Resource transformer: turns a resource into what the renderer is given
//! for it.

use crate::replacements::{mode_of, ReplacementMode, ReplacementStrategy};
use crate::text::{
    chars_of, extend_chars, lemma_views_push, lowercase_of, opt_view, str_eq, string_of, views,
};
use base64::engine::general_purpose::STANDARD;
use base64::Engine;
use vstd::prelude::*;

verus! {

/// The standard base64 text of bytes, with padding.
pub uninterp spec fn base64_of(bytes: Seq<u8>) -> Seq<char>;

/// Largest input that fits the encoder's size computation.
pub open spec fn encodable(len: nat) -> bool {
    len <= usize::MAX / 2
}

/// `base64::engine::general_purpose::STANDARD.encode`: the base64 text of
/// the bytes in the standard alphabet with padding. The encoder panics
/// where the size of its output overflows, which the bound on the input
/// excludes.
#[verifier::external_body]
fn base64_encode(bytes: &[u8]) -> (r: String)
    requires
        encodable(bytes@.len()),
    ensures
        r@ == base64_of(bytes@),
{
    STANDARD.encode(bytes)
}

/// The `data:` URI of bytes of a media type.
pub open spec fn data_uri_of(mime: Seq<char>, bytes: Seq<u8>) -> Seq<char> {
    "data:"@ + mime + ";base64,"@ + base64_of(bytes)
}

/// The `data:` URI of bytes of a media type:
/// `data:<mime>;base64,<bytes in base64>`.
pub fn bytes_to_data_uri(mime: &str, bytes: &[u8]) -> (r: String)
    requires
        encodable(bytes@.len()),
    ensures
        r@ == data_uri_of(mime@, bytes@),
{
    let b64 = base64_encode(bytes);
    let mut out = chars_of("data:");
    extend_chars(&mut out, &chars_of(mime));
    extend_chars(&mut out, &chars_of(";base64,"));
    extend_chars(&mut out, &chars_of(b64.as_str()));
    assert(out@ =~= data_uri_of(mime@, bytes@));
    string_of(&out)
}

/// A blob URL registered for a resource path.
#[derive(Debug)]
pub struct BlobEntry {
    pub path: String,
    pub url: String,
}

/// The mathematical model of `BlobEntry`.
pub struct BlobEntryView {
    pub path: Seq<char>,
    pub url: Seq<char>,
}

impl View for BlobEntry {
    type V = BlobEntryView;

    open spec fn view(&self) -> BlobEntryView {
        BlobEntryView { path: self.path@, url: self.url@ }
    }
}

/// The transformer of one book: its strategy and the blob URLs registered
/// so far, at most one for each path.
#[derive(Debug)]
pub struct ResourceManager {
    pub blob_registry: Vec<BlobEntry>,
    pub strategy: ReplacementStrategy,
}

/// The mathematical model of `ResourceManager`.
pub struct ResourceManagerView {
    pub blobs: Seq<BlobEntryView>,
    pub strategy: ReplacementStrategy,
}

impl View for ResourceManager {
    type V = ResourceManagerView;

    open spec fn view(&self) -> ResourceManagerView {
        ResourceManagerView { blobs: views(self.blob_registry@), strategy: self.strategy }
    }
}

/// Index of the first blob at or after `from` registered for `path`, or
/// `-1`.
pub open spec fn blob_index(blobs: Seq<BlobEntryView>, path: Seq<char>, from: int) -> int
    decreases blobs.len() - from,
{
    if from < 0 || from >= blobs.len() {
        -1
    } else if blobs[from].path == path {
        from
    } else {
        blob_index(blobs, path, from + 1)
    }
}

/// The blob URL registered for `path`.
pub open spec fn blob_url_of(blobs: Seq<BlobEntryView>, path: Seq<char>) -> Option<Seq<char>> {
    let i = blob_index(blobs, path, 0);
    if 0 <= i < blobs.len() {
        Some(blobs[i].url)
    } else {
        None
    }
}

/// The registry with `url` registered for `path`, in place of the URL that
/// `path` had.
pub open spec fn blob_put(blobs: Seq<BlobEntryView>, path: Seq<char>, url: Seq<char>) -> Seq<
    BlobEntryView,
> {
    let i = blob_index(blobs, path, 0);
    if 0 <= i < blobs.len() {
        blobs.update(i, BlobEntryView { path, url })
    } else {
        blobs.push(BlobEntryView { path, url })
    }
}

/// What the renderer is given for a resource whose media type lower-cases
/// to `lowered`: the path itself, a `data:` URI, or the registered blob
/// URL, with the `data:` URI where none is registered.
pub open spec fn transformed(
    m: ResourceManagerView,
    path: Seq<char>,
    mime: Seq<char>,
    lowered: Seq<char>,
    bytes: Seq<u8>,
) -> Seq<char> {
    match mode_of(m.strategy, lowered) {
        ReplacementMode::Keep => path,
        ReplacementMode::Base64 => data_uri_of(mime, bytes),
        ReplacementMode::BlobUrl => match blob_url_of(m.blobs, path) {
            Some(u) => u,
            None => data_uri_of(mime, bytes),
        },
    }
}

/// The index found is that of the first blob registered for the path.
pub proof fn lemma_blob_index(blobs: Seq<BlobEntryView>, path: Seq<char>, from: int)
    requires
        0 <= from,
    ensures
        blob_index(blobs, path, from) == -1 || (from <= blob_index(blobs, path, from)
            < blobs.len() && blobs[blob_index(blobs, path, from)].path == path),
        forall|k: int|
            from <= k < blobs.len() && (blob_index(blobs, path, from) == -1 || k < blob_index(
                blobs,
                path,
                from,
            )) ==> (#[trigger] blobs[k]).path != path,
    decreases blobs.len() - from,
{
    if from < blobs.len() && blobs[from].path != path {
        lemma_blob_index(blobs, path, from + 1);
    }
}

/// No two blobs are registered for one path.
pub open spec fn distinct_paths(blobs: Seq<BlobEntryView>) -> bool {
    forall|i: int, j: int| 0 <= i < j < blobs.len() ==> blobs[i].path != blobs[j].path
}

/// Registering a blob keeps the paths distinct.
pub proof fn lemma_blob_put(blobs: Seq<BlobEntryView>, path: Seq<char>, url: Seq<char>)
    requires
        distinct_paths(blobs),
    ensures
        distinct_paths(blob_put(blobs, path, url)),
{
    lemma_blob_index(blobs, path, 0);
}

/// A URL that was registered for a path is the one found for it.
pub proof fn lemma_registered_is_found(blobs: Seq<BlobEntryView>, path: Seq<char>, url: Seq<char>)
    ensures
        blob_url_of(blob_put(blobs, path, url), path) == Some(url),
{
    lemma_blob_index(blobs, path, 0);
    let after = blob_put(blobs, path, url);
    lemma_blob_index(after, path, 0);
    let i = blob_index(blobs, path, 0);
    if 0 <= i < blobs.len() {
        assert(after[i].path == path);
        assert forall|k: int| 0 <= k < i implies (#[trigger] after[k]).path != path by {
            assert(after[k] == blobs[k]);
        }
    } else {
        assert(after[blobs.len() as int].path == path);
        assert forall|k: int| 0 <= k < blobs.len() implies (#[trigger] after[k]).path != path by {
            assert(after[k] == blobs[k]);
        }
    }
}

impl ResourceManager {
    /// A transformer with the given strategy and no blob URLs.
    pub fn new(strategy: ReplacementStrategy) -> (r: ResourceManager)
        ensures
            r@.strategy == strategy,
            r@.blobs.len() == 0,
    {
        let r = ResourceManager { blob_registry: Vec::new(), strategy };
        assert(views(r.blob_registry@) =~= Seq::<BlobEntryView>::empty());
        r
    }

    /// A transformer with the default strategy: everything in base64.
    pub fn with_default() -> (r: ResourceManager)
        ensures
            r@.strategy == (ReplacementStrategy {
                default: ReplacementMode::Base64,
                images: None,
                fonts: None,
                stylesheets: None,
                scripts: None,
            }),
            r@.blobs.len() == 0,
    {
        ResourceManager::new(ReplacementStrategy::default())
    }

    /// Replaces the strategy.
    pub fn set_strategy(&mut self, strategy: ReplacementStrategy)
        ensures
            final(self)@ == (ResourceManagerView { strategy, ..old(self)@ }),
    {
        self.strategy = strategy;
    }

    /// Position of the blob registered for `path`.
    fn find_blob(&self, path: &str) -> (r: Option<usize>)
        ensures
            match r {
                Some(i) => i < self.blob_registry.len() && i as int == blob_index(
                    self@.blobs,
                    path@,
                    0,
                ),
                None => blob_index(self@.blobs, path@, 0) == -1,
            },
    {
        let mut i: usize = 0;
        while i < self.blob_registry.len()
            invariant
                i <= self.blob_registry.len(),
                blob_index(self@.blobs, path@, 0) == blob_index(self@.blobs, path@, i as int),
            decreases self.blob_registry.len() - i,
        {
            assert(self@.blobs[i as int] == self.blob_registry@[i as int]@);
            if str_eq(self.blob_registry[i].path.as_str(), path) {
                return Some(i);
            }
            i += 1;
        }
        None
    }

    /// Registers a blob URL for a path, in place of the one it had.
    pub fn register_blob(&mut self, path: String, blob_url: String)
        ensures
            final(self)@ == (ResourceManagerView {
                blobs: blob_put(old(self)@.blobs, path@, blob_url@),
                ..old(self)@
            }),
            distinct_paths(old(self)@.blobs) ==> distinct_paths(final(self)@.blobs),
    {
        let ghost before = views(self.blob_registry@);
        proof {
            if distinct_paths(before) {
                lemma_blob_put(before, path@, blob_url@);
            }
        }
        let e = BlobEntry { path, url: blob_url };
        match self.find_blob(e.path.as_str()) {
            Some(i) => {
                self.blob_registry[i] = e;
                assert(views(self.blob_registry@) =~= before.update(i as int, e@));
            },
            None => {
                self.blob_registry.push(e);
                assert(views(self.blob_registry@) =~= before.push(e@));
            },
        }
    }

    /// The blob URL registered for a path.
    pub fn get_blob_url(&self, path: &str) -> (r: Option<String>)
        ensures
            opt_view(r) == blob_url_of(self@.blobs, path@),
    {
        match self.find_blob(path) {
            Some(i) => {
                assert(self@.blobs[i as int] == self.blob_registry@[i as int]@);
                Some(self.blob_registry[i].url.clone())
            },
            None => None,
        }
    }

    /// What the renderer is given for a resource.
    pub fn transform_resource(&self, path: &str, mime: &str, bytes: &[u8]) -> (r: String)
        requires
            encodable(bytes@.len()),
        ensures
            r@ == transformed(self@, path@, mime@, lowercase_of(mime@), bytes@),
    {
        let mode = self.strategy.get_mode_for_mime(mime);
        match mode {
            ReplacementMode::Keep => path.to_string(),
            ReplacementMode::Base64 => bytes_to_data_uri(mime, bytes),
            ReplacementMode::BlobUrl => match self.get_blob_url(path) {
                Some(u) => u,
                None => bytes_to_data_uri(mime, bytes),
            },
        }
    }

    /// What the renderer is given for a resource of any size: as
    /// `transform_resource` says, and the path itself where the bytes are
    /// too many to encode.
    pub fn transform_checked(&self, path: &str, mime: &str, bytes: &[u8]) -> (r: String)
        ensures
            r@ == (if encodable(bytes@.len()) {
                transformed(self@, path@, mime@, lowercase_of(mime@), bytes@)
            } else {
                path@
            }),
    {
        if bytes.len() <= usize::MAX / 2 {
            self.transform_resource(path, mime, bytes)
        } else {
            path.to_string()
        }
    }

    /// Whether resources of a media type are handed out inline: in base64
    /// or as a blob URL.
    pub fn should_inline(&self, mime: &str) -> (r: bool)
        ensures
            r == (mode_of(self@.strategy, lowercase_of(mime@)) != ReplacementMode::Keep),
    {
        let mode = self.strategy.get_mode_for_mime(mime);
        match mode {
            ReplacementMode::Base64 => true,
            ReplacementMode::BlobUrl => true,
            ReplacementMode::Keep => false,
        }
    }
}

} // verus!
