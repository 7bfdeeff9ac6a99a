//! Records that the engine shares with its host: the entry of a book in
//! the library, and the plain data that travels with requests.

use crate::docs::{cover_id_of, metadata_value, resource_of_id, DocView, EpubDoc};
use crate::text::{opt_view, views};
use vstd::prelude::*;
use vstd::string::StringSliceAdditionalSpecFns;

verus! {

/// The kind of a book file.
#[derive(Debug, Clone, Copy, PartialEq, Eq)]
pub enum BookKind {
    Epub,
    Pdf,
}

impl BookKind {
    /// The name of the kind: `epub` or `pdf`.
    pub fn to_string(self) -> (r: String)
        ensures
            r@ == (match self {
                BookKind::Epub => "epub"@,
                BookKind::Pdf => "pdf"@,
            }),
    {
        match self {
            BookKind::Epub => "epub".to_string(),
            BookKind::Pdf => "pdf".to_string(),
        }
    }
}

/// The entry of a book in the library.
#[derive(Debug)]
pub struct BookData {
    pub id: String,
    pub kind: String,
    pub cover: Vec<u8>,
    pub title: Option<String>,
    pub author: Option<String>,
    pub publisher: Option<String>,
    pub file_path: String,
    pub current_location: String,
    pub cover_kind: Option<String>,
    pub version: u32,
}

/// The mathematical model of `BookData`.
pub struct BookDataView {
    pub id: Seq<char>,
    pub kind: Seq<char>,
    pub cover: Seq<u8>,
    pub title: Option<Seq<char>>,
    pub author: Option<Seq<char>>,
    pub publisher: Option<Seq<char>>,
    pub file_path: Seq<char>,
    pub current_location: Seq<char>,
    pub cover_kind: Option<Seq<char>>,
    pub version: u32,
}

impl View for BookData {
    type V = BookDataView;

    open spec fn view(&self) -> BookDataView {
        BookDataView {
            id: self.id@,
            kind: self.kind@,
            cover: self.cover@,
            title: opt_view(self.title),
            author: opt_view(self.author),
            publisher: opt_view(self.publisher),
            file_path: self.file_path@,
            current_location: self.current_location@,
            cover_kind: opt_view(self.cover_kind),
            version: self.version,
        }
    }
}

impl BookData {
    /// An entry at version 0.
    pub fn new(
        id: String,
        kind: String,
        cover: Vec<u8>,
        title: Option<String>,
        author: Option<String>,
        publisher: Option<String>,
        file_path: String,
        current_location: String,
        cover_kind: Option<String>,
    ) -> (r: BookData)
        ensures
            r@ == (BookDataView {
                id: id@,
                kind: kind@,
                cover: cover@,
                title: opt_view(title),
                author: opt_view(author),
                publisher: opt_view(publisher),
                file_path: file_path@,
                current_location: current_location@,
                cover_kind: opt_view(cover_kind),
                version: 0,
            }),
    {
        BookData {
            id,
            kind,
            cover,
            title,
            author,
            cover_kind,
            publisher,
            file_path,
            current_location,
            version: 0,
        }
    }
}

/// Why no entry could be made for a book.
#[derive(Debug, PartialEq, Eq)]
pub enum ExtractError {
    /// The book has no cover that can be read.
    NoCover,
}

/// The lowercase hexadecimal MD5 digest of bytes.
pub uninterp spec fn md5_hex_of(data: Seq<u8>) -> Seq<char>;

/// `md5::compute` of the input, written with the digest's `LowerHex`
/// format: the lowercase hexadecimal text of the MD5 digest.
#[verifier::external_body]
fn md5_hex(data: &[u8]) -> (r: String)
    ensures
        r@ == md5_hex_of(data@),
{
    format!("{:x}", md5::compute(data))
}


/// An EPUB file at a path.
#[derive(Debug)]
pub struct Epub {
    pub path: String,
}

/// The library entry of the book opened from the file at `path`.
pub open spec fn entry_of(path: Seq<char>, d: DocView) -> Result<BookDataView, ExtractError> {
    match cover_id_of(d) {
        Some(id) => match resource_of_id(d, id) {
            Some(c) => Ok(
                BookDataView {
                    id: md5_hex_of(vstd::utf8::encode_utf8(path)),
                    kind: "epub"@,
                    cover: c.0,
                    title: metadata_value(d.metadata, "title"@),
                    author: metadata_value(d.metadata, "creator"@),
                    publisher: metadata_value(d.metadata, "publisher"@),
                    file_path: path,
                    current_location: Seq::empty(),
                    cover_kind: None,
                    version: 0,
                },
            ),
            None => Err(ExtractError::NoCover),
        },
        None => Err(ExtractError::NoCover),
    }
}

/// The model of an outcome.
pub open spec fn entry_outcome(r: Result<BookData, ExtractError>) -> Result<
    BookDataView,
    ExtractError,
> {
    match r {
        Ok(b) => Ok(b@),
        Err(e) => Err(e),
    }
}

/// What can give the library entry of an opened book.
pub trait Extractable {
    /// The entry that `extract` gives for a book, or why it gives none.
    spec fn entry(&self, doc: DocView) -> Result<BookDataView, ExtractError>;

    /// The library entry of a book.
    fn extract(&self, doc: &EpubDoc) -> (r: Result<BookData, ExtractError>)
        ensures
            entry_outcome(r) == self.entry(doc@),
    ;
}

impl Epub {
    /// The EPUB file at `path`.
    pub fn new(path: &str) -> (r: Epub)
        ensures
            r.path@ == path@,
    {
        Epub { path: path.to_string() }
    }

    /// The library entry of the book, given the book as opened from the
    /// file: its cover, title, creator and publisher, under the MD5 digest
    /// of the path as id. Fails with `NoCover` exactly when the book has no
    /// readable cover.
    pub fn book_data(&self, doc: &EpubDoc) -> (r: Result<BookData, ExtractError>)
        ensures
            entry_outcome(r) == entry_of(self.path@, doc@),
    {
        let cover = match doc.get_cover() {
            Some((bytes, _mime)) => bytes,
            None => {
                return Err(ExtractError::NoCover);
            },
        };
        let title = doc.get_title();
        let author = match doc.mdata("creator") {
            Some(m) => Some(m.value.clone()),
            None => None,
        };
        let publisher = match doc.mdata("publisher") {
            Some(m) => Some(m.value.clone()),
            None => None,
        };
        let id = md5_hex(self.path.as_str().as_bytes());
        Ok(
            BookData::new(
                id,
                BookKind::Epub.to_string(),
                cover,
                title,
                author,
                publisher,
                self.path.clone(),
                String::new(),
                None,
            ),
        )
    }
}

impl Extractable for Epub {
    open spec fn entry(&self, doc: DocView) -> Result<BookDataView, ExtractError> {
        entry_of(self.path@, doc)
    }

    fn extract(&self, doc: &EpubDoc) -> (r: Result<BookData, ExtractError>) {
        self.book_data(doc)
    }
}

/// A PDF file at a path.
#[derive(Debug)]
pub struct Pdf {
    pub path: String,
}

impl Pdf {
    /// The PDF file at `path`.
    pub fn new(path: &str) -> (r: Pdf)
        ensures
            r.path@ == path@,
    {
        Pdf { path: path.to_string() }
    }
}

/// The cover of a book: its own, or one made in its place.
#[derive(Debug)]
pub enum Cover {
    Normal(Vec<u8>),
    Fallback(Vec<u8>),
}

impl Cover {
    /// The name of the kind of cover: `normal` or `fallback`.
    pub fn label(&self) -> (r: &'static str)
        ensures
            r@ == (match *self {
                Cover::Normal(_) => "normal"@,
                Cover::Fallback(_) => "fallback"@,
            }),
    {
        match self {
            Cover::Normal(_) => "normal",
            Cover::Fallback(_) => "fallback",
        }
    }
}

/// Where a chunk of text comes from.
#[derive(Debug, Clone, Copy, PartialEq, Eq)]
pub struct Metadata {
    pub id: u64,
    pub page_number: usize,
    pub book_id: u32,
}

/// A chunk of text to embed, with where it comes from.
#[derive(Debug)]
pub struct EmbedParam {
    pub text: String,
    pub metadata: Metadata,
}

/// A signed-in user.
#[derive(Debug)]
pub struct User {
    pub id: String,
    pub first_name: Option<String>,
    pub last_name: Option<String>,
    pub full_name: Option<String>,
    pub username: Option<String>,
    pub image_url: Option<String>,
    pub has_image: bool,
    pub last_sign_in_at: Option<i64>,
    pub external_id: Option<String>,
}

/// How grave an event is.
#[derive(Debug, Clone, Copy, PartialEq, Eq)]
pub enum ErrorSeverity {
    Debug,
    Info,
    Warning,
    Error,
    Critical,
}

impl ErrorSeverity {
    /// The tag of the severity in a log line.
    pub fn label(&self) -> (r: &'static str)
        ensures
            r@ == (match *self {
                ErrorSeverity::Debug => "DEBUG"@,
                ErrorSeverity::Info => "INFO"@,
                ErrorSeverity::Warning => "WARNING"@,
                ErrorSeverity::Error => "ERROR"@,
                ErrorSeverity::Critical => "CRITICAL"@,
            }),
    {
        match self {
            ErrorSeverity::Debug => "DEBUG",
            ErrorSeverity::Info => "INFO",
            ErrorSeverity::Warning => "WARNING",
            ErrorSeverity::Error => "ERROR",
            ErrorSeverity::Critical => "CRITICAL",
        }
    }
}

} // verus!
