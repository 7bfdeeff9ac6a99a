//! An EPUB reading engine.
//!
//! The engine turns a packaged EPUB into a navigable, paginated and
//! annotatable document for a rendering front end:
//!
//! - `archive`, `xml`: the container and the element trees of its documents;
//! - `package`, `metadata`, `toc`, `nav`, `packaging`, `docs`: the package
//!   document and the opened book;
//! - `cfi`, `cfi_laws`: content-location identifiers;
//! - `layout`, `locations`, `mapping`, `mapping_laws`: pages, spreads,
//!   checkpoints, and the mapping between locations, points and pages;
//! - `search`, `player`: full-text search and the playback cursor;
//! - `annotations`, `themes`, `replacements`, `resources`, `inline`, `links`:
//!   what the host adds to and takes from a book;
//! - `tts`: the speech request queue and the address of cached audio;
//! - `engine`, `events`, `shared`: the registry of opened books and what the
//!   host is told;
//! - `text`, `numbers`, `paths`: character sequences, decimal numbers and
//!   container paths.
//!
//! Functions are verified against their contracts; the few that call into
//! an outside library say in their documentation what is taken on trust.
//! Contracts are stated over mathematical models: `Seq<char>` for text, and
//! a `View` for each record.

pub mod annotations;
pub mod archive;
pub mod cfi;
pub mod cfi_laws;
pub mod docs;
pub mod engine;
pub mod events;
pub mod inline;
pub mod layout;
pub mod links;
pub mod locations;
pub mod mapping;
pub mod mapping_laws;
pub mod metadata;
pub mod nav;
pub mod numbers;
pub mod package;
pub mod packaging;
pub mod paths;
pub mod player;
pub mod replacements;
pub mod resources;
pub mod search;
pub mod shared;
pub mod text;
pub mod themes;
pub mod toc;
pub mod tts;
pub mod xml;
