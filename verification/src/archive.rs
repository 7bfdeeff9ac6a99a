//! Archive reader: the entries of an EPUB container, by name.

use crate::text::{chars_eq, chars_of, lemma_views_push, views};
use std::io::Cursor;
use std::io::Read;
use vstd::prelude::*;
use vstd::utf8::{decode_utf8, valid_utf8};
use zip::ZipArchive;

verus! {

/// One named entry of a container, with its uncompressed bytes, or `None`
/// where they cannot be read.
#[derive(Debug)]
pub struct ArchiveEntry {
    pub name: String,
    pub data: Option<Vec<u8>>,
}

/// The mathematical model of `ArchiveEntry`.
pub struct ArchiveEntryView {
    pub name: Seq<char>,
    pub data: Option<Seq<u8>>,
}

/// The model of optional bytes.
pub open spec fn opt_data_view(d: Option<Vec<u8>>) -> Option<Seq<u8>> {
    match d {
        Some(b) => Some(b@),
        None => None,
    }
}

impl View for ArchiveEntry {
    type V = ArchiveEntryView;

    open spec fn view(&self) -> ArchiveEntryView {
        ArchiveEntryView { name: self.name@, data: opt_data_view(self.data) }
    }
}

/// Why the container could not be read.
#[derive(Debug, PartialEq, Eq)]
pub enum ArchiveError {
    /// No entry has the requested name.
    EntryMissing,
    /// The bytes are not a readable archive.
    BadArchive,
    /// An entry is listed but its data could not be read.
    Io,
    /// An entry was asked for as text and is not valid UTF-8.
    Utf8,
}

/// The entries of an opened container, in directory order. Names are
/// container-absolute and use forward slashes.
#[derive(Debug)]
pub struct EpubArchive {
    pub files: Vec<ArchiveEntry>,
}

impl View for EpubArchive {
    type V = Seq<ArchiveEntryView>;

    open spec fn view(&self) -> Seq<ArchiveEntryView> {
        views(self.files@)
    }
}

/// Number of entries that the archive library finds in a container, or
/// `None` where it rejects the container.
pub uninterp spec fn zip_count(bytes: Seq<u8>) -> Option<nat>;

/// Name of the entry at a directory index, or `None` where the archive
/// library cannot find the entry.
pub uninterp spec fn zip_entry_name(bytes: Seq<u8>, index: nat) -> Option<Seq<char>>;

/// Uncompressed data of the entry at a directory index, or `None` where the
/// archive library cannot produce them.
pub uninterp spec fn zip_entry_data(bytes: Seq<u8>, index: nat) -> Option<Seq<u8>>;

/// The model of an outcome.
pub open spec fn count_outcome(r: Option<usize>) -> Option<nat> {
    match r {
        Some(n) => Some(n as nat),
        None => None,
    }
}

/// The model of an outcome.
pub open spec fn name_outcome(r: Option<String>) -> Option<Seq<char>> {
    match r {
        Some(s) => Some(s@),
        None => None,
    }
}

/// Opens the bytes with `zip::ZipArchive::new` and returns `len()`: the
/// number of entries in the central directory, or `None` where the archive
/// is rejected.
#[verifier::external_body]
fn zip_len(bytes: &[u8]) -> (r: Option<usize>)
    ensures
        count_outcome(r) == zip_count(bytes@),
{
    ZipArchive::new(Cursor::new(bytes)).ok().map(|a| a.len())
}

/// Opens the bytes with `zip::ZipArchive::new`, takes the entry at `index`
/// with `by_index_raw`, which does not decompress, and returns its
/// `name()`; `None` where either step fails.
#[verifier::external_body]
fn zip_name(bytes: &[u8], index: usize) -> (r: Option<String>)
    ensures
        name_outcome(r) == zip_entry_name(bytes@, index as nat),
{
    let mut archive = ZipArchive::new(Cursor::new(bytes)).ok()?;
    let file = archive.by_index_raw(index).ok()?;
    Some(file.name().to_string())
}

/// Opens the bytes with `zip::ZipArchive::new`, takes the entry at `index`
/// with `by_index_decrypt` and the empty password, which hands a refused
/// entry back as a value, and reads it to its end: the uncompressed data,
/// or `None` where any of the steps fails or the entry is refused.
#[verifier::external_body]
fn zip_read(bytes: &[u8], index: usize) -> (r: Option<Vec<u8>>)
    ensures
        opt_data_view(r) == zip_entry_data(bytes@, index as nat),
{
    let mut archive = ZipArchive::new(Cursor::new(bytes)).ok()?;
    let mut file = archive.by_index_decrypt(index, b"").ok()?.ok()?;
    let mut data = Vec::new();
    file.read_to_end(&mut data).ok()?;
    Some(data)
}

/// `String::from_utf8`: the text that the bytes encode, exactly when they
/// are valid UTF-8.
#[verifier::external_body]
fn utf8_to_string(bytes: &[u8]) -> (r: Option<String>)
    ensures
        r is Some <==> valid_utf8(bytes@),
        r is Some ==> r->0@ == decode_utf8(bytes@),
{
    String::from_utf8(bytes.to_vec()).ok()
}

/// The first `n` entries of a container: one for each directory index at
/// which an entry is found, with its data where they can be read.
pub open spec fn entries_upto(bytes: Seq<u8>, n: nat) -> Seq<ArchiveEntryView>
    decreases n,
{
    if n == 0 {
        Seq::empty()
    } else {
        match zip_entry_name(bytes, (n - 1) as nat) {
            Some(name) => entries_upto(bytes, (n - 1) as nat).push(
                ArchiveEntryView { name, data: zip_entry_data(bytes, (n - 1) as nat) },
            ),
            None => entries_upto(bytes, (n - 1) as nat),
        }
    }
}

/// What opening a container yields: its entries, or `BadArchive` where the
/// bytes are no archive. An entry whose data cannot be read does not keep
/// the container from opening.
pub open spec fn archive_of(bytes: Seq<u8>) -> Result<Seq<ArchiveEntryView>, ArchiveError> {
    match zip_count(bytes) {
        None => Err(ArchiveError::BadArchive),
        Some(n) => Ok(entries_upto(bytes, n)),
    }
}

/// Index of the last entry among the first `n` whose name is `name`, or `-1`.
pub open spec fn entry_index(entries: Seq<ArchiveEntryView>, name: Seq<char>, n: int) -> int
    decreases n,
{
    if n <= 0 || n > entries.len() {
        -1
    } else if entries[n - 1].name == name {
        n - 1
    } else {
        entry_index(entries, name, n - 1)
    }
}

/// What asking for the entry called `name` yields: its data, `EntryMissing`
/// where there is no such entry, `Io` where its data cannot be read.
pub open spec fn entry_lookup(entries: Seq<ArchiveEntryView>, name: Seq<char>) -> Result<
    Seq<u8>,
    ArchiveError,
> {
    let i = entry_index(entries, name, entries.len() as int);
    if 0 <= i < entries.len() {
        match entries[i].data {
            Some(d) => Ok(d),
            None => Err(ArchiveError::Io),
        }
    } else {
        Err(ArchiveError::EntryMissing)
    }
}

/// What asking for the entry called `name` as text yields: its text, and
/// `Utf8` where its data are not valid UTF-8.
pub open spec fn text_lookup(entries: Seq<ArchiveEntryView>, name: Seq<char>) -> Result<
    Seq<char>,
    ArchiveError,
> {
    match entry_lookup(entries, name) {
        Ok(d) => if valid_utf8(d) {
            Ok(decode_utf8(d))
        } else {
            Err(ArchiveError::Utf8)
        },
        Err(e) => Err(e),
    }
}

/// The data of the entry called `name`, where it is there and can be read.
pub open spec fn entry_data(entries: Seq<ArchiveEntryView>, name: Seq<char>) -> Option<Seq<u8>> {
    match entry_lookup(entries, name) {
        Ok(d) => Some(d),
        Err(_) => None,
    }
}

/// The text of the entry called `name`, where it is there and is text.
pub open spec fn entry_text(entries: Seq<ArchiveEntryView>, name: Seq<char>) -> Option<Seq<char>> {
    match text_lookup(entries, name) {
        Ok(t) => Some(t),
        Err(_) => None,
    }
}

/// The model of an outcome.
pub open spec fn archive_outcome(r: Result<EpubArchive, ArchiveError>) -> Result<
    Seq<ArchiveEntryView>,
    ArchiveError,
> {
    match r {
        Ok(a) => Ok(a@),
        Err(e) => Err(e),
    }
}

/// The model of an outcome.
pub open spec fn bytes_result(r: Result<Vec<u8>, ArchiveError>) -> Result<Seq<u8>, ArchiveError> {
    match r {
        Ok(d) => Ok(d@),
        Err(e) => Err(e),
    }
}

/// The model of an outcome.
pub open spec fn text_result(r: Result<String, ArchiveError>) -> Result<Seq<char>, ArchiveError> {
    match r {
        Ok(d) => Ok(d@),
        Err(e) => Err(e),
    }
}

/// A copy of a byte vector.
pub fn copy_bytes(v: &Vec<u8>) -> (r: Vec<u8>)
    ensures
        r@ == v@,
{
    let mut out: Vec<u8> = Vec::new();
    let mut i: usize = 0;
    while i < v.len()
        invariant
            i <= v.len(),
            out@ == v@.take(i as int),
        decreases v.len() - i,
    {
        out.push(v[i]);
        assert(v@.take(i as int).push(v@[i as int]) == v@.take(i + 1));
        i += 1;
    }
    assert(v@.take(v.len() as int) == v@);
    out
}

impl EpubArchive {
    /// An archive made of the given entries.
    pub fn from_entries(files: Vec<ArchiveEntry>) -> (a: EpubArchive)
        ensures
            a@ == views(files@),
    {
        EpubArchive { files }
    }

    /// Opens a container held in memory and reads its entries.
    ///
    /// Fails with `BadArchive` exactly where the bytes are no archive. An
    /// entry whose data cannot be read is kept without data: asking for it
    /// gives `Io`.
    pub fn from_bytes(bytes: &[u8]) -> (r: Result<EpubArchive, ArchiveError>)
        ensures
            archive_outcome(r) == archive_of(bytes@),
    {
        let n = match zip_len(bytes) {
            Some(n) => n,
            None => {
                return Err(ArchiveError::BadArchive);
            },
        };
        let mut files: Vec<ArchiveEntry> = Vec::new();
        let mut i: usize = 0;
        proof {
            assert(views(files@) =~= Seq::<ArchiveEntryView>::empty());
        }
        while i < n
            invariant
                i <= n,
                zip_count(bytes@) == Some(n as nat),
                entries_upto(bytes@, i as nat) == views(files@),
            decreases n - i,
        {
            match zip_name(bytes, i) {
                Some(name) => {
                    let e = ArchiveEntry { name, data: zip_read(bytes, i) };
                    proof {
                        lemma_views_push(files@, e);
                    }
                    files.push(e);
                },
                None => {},
            }
            i += 1;
        }
        Ok(EpubArchive { files })
    }

    /// Names of the entries, in directory order.
    pub fn list_entries(&self) -> (r: Vec<String>)
        ensures
            r@.len() == self@.len(),
            forall|i: int| 0 <= i < r@.len() ==> (#[trigger] r@[i])@ == self@[i].name,
    {
        let mut out: Vec<String> = Vec::new();
        let mut i: usize = 0;
        while i < self.files.len()
            invariant
                i <= self.files.len(),
                out@.len() == i,
                forall|k: int| 0 <= k < i ==> (#[trigger] out@[k])@ == self@[k].name,
            decreases self.files.len() - i,
        {
            out.push(self.files[i].name.clone());
            i += 1;
        }
        out
    }

    /// Position of the entry called `name`.
    fn index_of(&self, name: &str) -> (r: Option<usize>)
        ensures
            match r {
                Some(i) => i < self.files.len() && i as int == entry_index(
                    self@,
                    name@,
                    self@.len() as int,
                ),
                None => entry_index(self@, name@, self@.len() as int) == -1,
            },
    {
        let want = chars_of(name);
        let mut n: usize = self.files.len();
        while n > 0
            invariant
                n <= self.files.len(),
                want@ == name@,
                entry_index(self@, name@, self@.len() as int) == entry_index(
                    self@,
                    name@,
                    n as int,
                ),
            decreases n,
        {
            let have = chars_of(self.files[n - 1].name.as_str());
            assert(self@[n - 1] == self.files@[n - 1]@);
            if chars_eq(&have, &want) {
                return Some(n - 1);
            }
            n -= 1;
        }
        None
    }

    /// The bytes of the entry called `name`; `EntryMissing` where there is
    /// none, `Io` where its data could not be read.
    pub fn get_entry(&self, name: &str) -> (r: Result<Vec<u8>, ArchiveError>)
        ensures
            bytes_result(r) == entry_lookup(self@, name@),
    {
        match self.index_of(name) {
            Some(i) => {
                assert(self@[i as int] == self.files@[i as int]@);
                match &self.files[i].data {
                    Some(d) => Ok(copy_bytes(d)),
                    None => Err(ArchiveError::Io),
                }
            },
            None => Err(ArchiveError::EntryMissing),
        }
    }

    /// The entry called `name` as text; `EntryMissing` where there is none,
    /// `Io` where its data could not be read, `Utf8` where they are not
    /// valid UTF-8.
    pub fn get_entry_as_str(&self, name: &str) -> (r: Result<String, ArchiveError>)
        ensures
            text_result(r) == text_lookup(self@, name@),
    {
        match self.index_of(name) {
            Some(i) => {
                assert(self@[i as int] == self.files@[i as int]@);
                match &self.files[i].data {
                    Some(d) => match utf8_to_string(d.as_slice()) {
                        Some(s) => Ok(s),
                        None => Err(ArchiveError::Utf8),
                    },
                    None => Err(ArchiveError::Io),
                }
            },
            None => Err(ArchiveError::EntryMissing),
        }
    }

    /// Whether an entry called `name` exists.
    pub fn has_entry(&self, name: &str) -> (r: bool)
        ensures
            r == (entry_index(self@, name@, self@.len() as int) >= 0),
    {
        self.index_of(name).is_some()
    }
}

} // verus!
