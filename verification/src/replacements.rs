//! Replacement strategy: how the resources of a book are handed to the
//! renderer, by class of media type.

use crate::text::{
    chars_eq, chars_of, contains_chars, contains_seq, ends_with, has_prefix, has_suffix,
    lowercase, lowercase_of, starts_with, str_eq,
};
use vstd::prelude::*;

verus! {

/// How a resource is handed out.
#[derive(Debug, Clone, Copy, PartialEq, Eq)]
pub enum ReplacementMode {
    /// The path of the resource, as it is (the mode `none`).
    Keep,
    /// A `data:` URI with the bytes in base64.
    Base64,
    /// A blob URL registered at run time.
    BlobUrl,
}

impl ReplacementMode {
    /// The mode that a name denotes: `none`, `base64`, and `blobUrl` or
    /// `blob`.
    pub fn from_str(s: &str) -> (r: Option<ReplacementMode>)
        ensures
            r == (if s@ == "none"@ {
                Some(ReplacementMode::Keep)
            } else if s@ == "base64"@ {
                Some(ReplacementMode::Base64)
            } else if s@ == "blobUrl"@ || s@ == "blob"@ {
                Some(ReplacementMode::BlobUrl)
            } else {
                None
            }),
    {
        if str_eq(s, "none") {
            Some(ReplacementMode::Keep)
        } else if str_eq(s, "base64") {
            Some(ReplacementMode::Base64)
        } else if str_eq(s, "blobUrl") || str_eq(s, "blob") {
            Some(ReplacementMode::BlobUrl)
        } else {
            None
        }
    }

    /// The name of the mode.
    pub fn as_str(&self) -> (r: &'static str)
        ensures
            r@ == (match *self {
                ReplacementMode::Keep => "none"@,
                ReplacementMode::Base64 => "base64"@,
                ReplacementMode::BlobUrl => "blobUrl"@,
            }),
    {
        match self {
            ReplacementMode::Keep => "none",
            ReplacementMode::Base64 => "base64",
            ReplacementMode::BlobUrl => "blobUrl",
        }
    }
}

/// The mode of each class of resources; a class without a mode of its own
/// takes the default.
#[derive(Debug, Clone, Copy, PartialEq, Eq)]
pub struct ReplacementStrategy {
    pub default: ReplacementMode,
    pub images: Option<ReplacementMode>,
    pub fonts: Option<ReplacementMode>,
    pub stylesheets: Option<ReplacementMode>,
    pub scripts: Option<ReplacementMode>,
}

impl Default for ReplacementStrategy {
    fn default() -> (r: Self)
        ensures
            r == (ReplacementStrategy {
                default: ReplacementMode::Base64,
                images: None,
                fonts: None,
                stylesheets: None,
                scripts: None,
            }),
    {
        ReplacementStrategy {
            default: ReplacementMode::Base64,
            images: None,
            fonts: None,
            stylesheets: None,
            scripts: None,
        }
    }
}

/// The class of a lower-cased media type.
pub enum MimeClass {
    Image,
    Font,
    Stylesheet,
    Script,
    Other,
}

/// The class of a lower-cased media type: images start with `image/`; fonts
/// mention `font` or end in `/woff`, `/woff2`, `/ttf` or `/otf`; style sheets
/// are `text/css` or mention `stylesheet`; scripts mention `javascript` or
/// `ecmascript`. The first class that fits is taken.
pub open spec fn class_of(m: Seq<char>) -> MimeClass {
    if has_prefix(m, "image/"@) {
        MimeClass::Image
    } else if contains_seq(m, "font"@) || has_suffix(m, "/woff"@) || has_suffix(m, "/woff2"@)
        || has_suffix(m, "/ttf"@) || has_suffix(m, "/otf"@) {
        MimeClass::Font
    } else if m == "text/css"@ || contains_seq(m, "stylesheet"@) {
        MimeClass::Stylesheet
    } else if contains_seq(m, "javascript"@) || contains_seq(m, "ecmascript"@) {
        MimeClass::Script
    } else {
        MimeClass::Other
    }
}

/// The mode of a class, or the default where it has none.
pub open spec fn or_default(m: Option<ReplacementMode>, d: ReplacementMode) -> ReplacementMode {
    match m {
        Some(x) => x,
        None => d,
    }
}

/// The mode that a strategy gives to a lower-cased media type.
pub open spec fn mode_of(s: ReplacementStrategy, lowered: Seq<char>) -> ReplacementMode {
    match class_of(lowered) {
        MimeClass::Image => or_default(s.images, s.default),
        MimeClass::Font => or_default(s.fonts, s.default),
        MimeClass::Stylesheet => or_default(s.stylesheets, s.default),
        MimeClass::Script => or_default(s.scripts, s.default),
        MimeClass::Other => s.default,
    }
}

fn pick(m: Option<ReplacementMode>, d: ReplacementMode) -> (r: ReplacementMode)
    ensures
        r == or_default(m, d),
{
    match m {
        Some(x) => x,
        None => d,
    }
}

impl ReplacementStrategy {
    /// The mode for a media type that is already in lower case.
    pub fn mode_for_lowered(&self, lowered: &str) -> (r: ReplacementMode)
        ensures
            r == mode_of(*self, lowered@),
    {
        let m = chars_of(lowered);
        if starts_with(&m, &chars_of("image/")) {
            return pick(self.images, self.default);
        }
        if contains_chars(&m, &chars_of("font")) || ends_with(&m, &chars_of("/woff")) || ends_with(
            &m,
            &chars_of("/woff2"),
        ) || ends_with(&m, &chars_of("/ttf")) || ends_with(&m, &chars_of("/otf")) {
            return pick(self.fonts, self.default);
        }
        if chars_eq(&m, &chars_of("text/css")) || contains_chars(&m, &chars_of("stylesheet")) {
            return pick(self.stylesheets, self.default);
        }
        if contains_chars(&m, &chars_of("javascript")) || contains_chars(
            &m,
            &chars_of("ecmascript"),
        ) {
            return pick(self.scripts, self.default);
        }
        self.default
    }

    /// The mode for a media type: that of the class of its lower-casing.
    pub fn get_mode_for_mime(&self, mime: &str) -> (r: ReplacementMode)
        ensures
            r == mode_of(*self, lowercase_of(mime@)),
    {
        let mime_lower = lowercase(mime);
        self.mode_for_lowered(mime_lower.as_str())
    }
}

} // verus!
