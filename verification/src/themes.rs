//! Theme and font registry: named style sheets and the `@font-face` rules
//! that go with them.

use crate::numbers::{nat_digits, u64_text};
use crate::resources::{bytes_to_data_uri, data_uri_of, encodable};
use crate::text::{
    chars_of, contains_chars, contains_seq, ends_with, extend_chars, has_suffix, lemma_views_push,
    lowercase, lowercase_of, opt_view, str_eq, string_of, views,
};
use vstd::prelude::*;

verus! {

/// A named theme.
#[derive(Debug)]
pub struct Theme {
    pub name: String,
    pub css: String,
    pub font_family: Option<String>,
    pub font_weight: Option<u16>,
}

/// The mathematical model of `Theme`.
pub struct ThemeView {
    pub name: Seq<char>,
    pub css: Seq<char>,
    pub font_family: Option<Seq<char>>,
    pub font_weight: Option<u16>,
}

impl View for Theme {
    type V = ThemeView;

    open spec fn view(&self) -> ThemeView {
        ThemeView {
            name: self.name@,
            css: self.css@,
            font_family: opt_view(self.font_family),
            font_weight: self.font_weight,
        }
    }
}

/// A font face.
#[derive(Debug)]
pub struct FontFace {
    pub family: String,
    pub src: String,
    pub weight: Option<u16>,
    pub style: Option<String>,
}

/// The mathematical model of `FontFace`.
pub struct FontFaceView {
    pub family: Seq<char>,
    pub src: Seq<char>,
    pub weight: Option<u16>,
    pub style: Option<Seq<char>>,
}

impl View for FontFace {
    type V = FontFaceView;

    open spec fn view(&self) -> FontFaceView {
        FontFaceView {
            family: self.family@,
            src: self.src@,
            weight: self.weight,
            style: opt_view(self.style),
        }
    }
}

/// What a theme holds beside its name.
#[derive(Debug)]
pub struct ThemeData {
    pub css: String,
    pub font_family: Option<String>,
    pub font_weight: Option<u16>,
}

/// The registry: themes under distinct names, in the order in which the
/// names were first registered, and the global font faces.
#[derive(Debug)]
pub struct ThemeRegistry {
    pub themes: Vec<Theme>,
    pub global_fonts: Vec<FontFace>,
}

/// The mathematical model of `ThemeRegistry`.
pub struct ThemeRegistryView {
    pub themes: Seq<ThemeView>,
    pub global_fonts: Seq<FontFaceView>,
}

impl View for ThemeRegistry {
    type V = ThemeRegistryView;

    open spec fn view(&self) -> ThemeRegistryView {
        ThemeRegistryView { themes: views(self.themes@), global_fonts: views(self.global_fonts@) }
    }
}

/// Index of the first theme at or after `from` with the given name, or
/// `-1`.
pub open spec fn theme_index(themes: Seq<ThemeView>, name: Seq<char>, from: int) -> int
    decreases themes.len() - from,
{
    if from < 0 || from >= themes.len() {
        -1
    } else if themes[from].name == name {
        from
    } else {
        theme_index(themes, name, from + 1)
    }
}

/// The themes with `t` registered: in place of the theme that had its name,
/// else at the end.
pub open spec fn theme_put(themes: Seq<ThemeView>, t: ThemeView) -> Seq<ThemeView> {
    let i = theme_index(themes, t.name, 0);
    if 0 <= i < themes.len() {
        themes.update(i, t)
    } else {
        themes.push(t)
    }
}

/// No two themes share a name.
pub open spec fn distinct_names(themes: Seq<ThemeView>) -> bool {
    forall|i: int, j: int| 0 <= i < j < themes.len() ==> themes[i].name != themes[j].name
}

/// The index found is that of the first theme with the name.
pub proof fn lemma_theme_index(themes: Seq<ThemeView>, name: Seq<char>, from: int)
    requires
        0 <= from,
    ensures
        theme_index(themes, name, from) == -1 || (from <= theme_index(themes, name, from)
            < themes.len() && themes[theme_index(themes, name, from)].name == name),
        forall|k: int|
            from <= k < themes.len() && (theme_index(themes, name, from) == -1 || k < theme_index(
                themes,
                name,
                from,
            )) ==> (#[trigger] themes[k]).name != name,
    decreases themes.len() - from,
{
    if from < themes.len() && themes[from].name != name {
        lemma_theme_index(themes, name, from + 1);
    }
}

/// Registering a theme keeps the names distinct.
pub proof fn lemma_theme_put(themes: Seq<ThemeView>, t: ThemeView)
    requires
        distinct_names(themes),
    ensures
        distinct_names(theme_put(themes, t)),
{
    lemma_theme_index(themes, t.name, 0);
}

/// The `@font-face` rule of a font face.
pub open spec fn font_rule(f: FontFaceView) -> Seq<char> {
    "@font-face { font-family: '"@ + f.family + "'; src: "@ + f.src + ";"@ + (match f.weight {
        Some(w) => " font-weight: "@ + nat_digits(w as int) + ";"@,
        None => Seq::empty(),
    }) + (match f.style {
        Some(s) => " font-style: "@ + s + ";"@,
        None => Seq::empty(),
    }) + " }"@
}

/// The rules of the first `n` font faces, one on each line.
pub open spec fn font_rules(fonts: Seq<FontFaceView>, n: int) -> Seq<char>
    decreases n,
{
    if n <= 0 || n > fonts.len() {
        Seq::empty()
    } else if n == 1 {
        font_rule(fonts[0])
    } else {
        font_rules(fonts, n - 1) + seq!['\n'] + font_rule(fonts[n - 1])
    }
}

/// `a` and `b` on separate lines; an empty part is left out.
pub open spec fn joined_lines(a: Seq<char>, b: Seq<char>) -> Seq<char> {
    if a.len() == 0 {
        b
    } else if b.len() == 0 {
        a
    } else {
        a + seq!['\n'] + b
    }
}

/// The style sheet of a book: the global font rules, the book's own font
/// rules and the theme's rules, each on lines of its own; empty parts are
/// left out.
pub open spec fn combined_css(global: Seq<char>, book: Seq<char>, theme: Seq<char>) -> Seq<char> {
    joined_lines(joined_lines(global, book), theme)
}

/// The `format()` of a font, from its lower-cased path and media type:
/// `woff2`, `woff` and `opentype` where either names them, else `truetype`.
pub open spec fn font_format_of(path: Seq<char>, mime: Seq<char>) -> Seq<char> {
    if has_suffix(path, ".woff2"@) || contains_seq(mime, "woff2"@) {
        "woff2"@
    } else if has_suffix(path, ".woff"@) || contains_seq(mime, "woff"@) {
        "woff"@
    } else if has_suffix(path, ".otf"@) || contains_seq(mime, "otf"@) || contains_seq(
        mime,
        "opentype"@,
    ) {
        "opentype"@
    } else {
        "truetype"@
    }
}

/// The `src` of a font that is embedded as a `data:` URI.
pub open spec fn embedded_src(mime: Seq<char>, bytes: Seq<u8>, format: Seq<char>) -> Seq<char> {
    "url("@ + data_uri_of(mime, bytes) + ") format('"@ + format + "')"@
}

/// Appends the rule of a font face.
fn push_font_rule(out: &mut Vec<char>, f: &FontFace)
    ensures
        final(out)@ == old(out)@ + font_rule(f@),
{
    let ghost start = out@;
    extend_chars(out, &chars_of("@font-face { font-family: '"));
    extend_chars(out, &chars_of(f.family.as_str()));
    extend_chars(out, &chars_of("'; src: "));
    extend_chars(out, &chars_of(f.src.as_str()));
    extend_chars(out, &chars_of(";"));
    let ghost head = "@font-face { font-family: '"@ + f@.family + "'; src: "@ + f@.src + ";"@;
    assert(out@ =~= start + head);
    let ghost w_part: Seq<char> = match f.weight {
        Some(w) => " font-weight: "@ + nat_digits(w as int) + ";"@,
        None => Seq::empty(),
    };
    match f.weight {
        Some(w) => {
            extend_chars(out, &chars_of(" font-weight: "));
            extend_chars(out, &u64_text(w as u64));
            extend_chars(out, &chars_of(";"));
        },
        None => {},
    }
    assert(out@ =~= start + (head + w_part));
    let ghost s_part: Seq<char> = match f@.style {
        Some(s) => " font-style: "@ + s + ";"@,
        None => Seq::empty(),
    };
    match &f.style {
        Some(s) => {
            extend_chars(out, &chars_of(" font-style: "));
            extend_chars(out, &chars_of(s.as_str()));
            extend_chars(out, &chars_of(";"));
        },
        None => {},
    }
    assert(out@ =~= start + (head + w_part + s_part));
    extend_chars(out, &chars_of(" }"));
    assert(out@ =~= start + (head + w_part + s_part + " }"@));
}

/// The style sheet of a book from its three parts.
pub fn combine_css(global_font_css: &str, book_font_css: &str, theme_css: &str) -> (r: String)
    ensures
        r@ == combined_css(global_font_css@, book_font_css@, theme_css@),
{
    let a = chars_of(global_font_css);
    let b = chars_of(book_font_css);
    let c = chars_of(theme_css);
    let ab = join_lines(a, &b);
    let abc = join_lines(ab, &c);
    string_of(&abc)
}

fn join_lines(a: Vec<char>, b: &Vec<char>) -> (r: Vec<char>)
    ensures
        r@ == joined_lines(a@, b@),
{
    let mut out = a;
    if out.len() == 0 {
        extend_chars(&mut out, b);
        assert(out@ =~= b@);
    } else if b.len() > 0 {
        out.push('\n');
        extend_chars(&mut out, b);
        assert(out@ =~= a@ + seq!['\n'] + b@);
    }
    out
}

/// The `format()` of a font, from its lower-cased path and media type.
pub fn font_format(lowered_path: &str, lowered_mime: &str) -> (r: &'static str)
    ensures
        r@ == font_format_of(lowered_path@, lowered_mime@),
{
    let p = chars_of(lowered_path);
    let m = chars_of(lowered_mime);
    if ends_with(&p, &chars_of(".woff2")) || contains_chars(&m, &chars_of("woff2")) {
        "woff2"
    } else if ends_with(&p, &chars_of(".woff")) || contains_chars(&m, &chars_of("woff")) {
        "woff"
    } else if ends_with(&p, &chars_of(".otf")) || contains_chars(&m, &chars_of("otf"))
        || contains_chars(&m, &chars_of("opentype")) {
        "opentype"
    } else {
        "truetype"
    }
}

/// The font face of a font resource of a book, embedded as a `data:` URI of
/// its bytes, with the format that its path and media type name.
pub fn font_face_from_resource(family: &str, path: &str, mime: &str, bytes: &[u8]) -> (r: FontFace)
    requires
        encodable(bytes@.len()),
    ensures
        r@ == (FontFaceView {
            family: family@,
            src: embedded_src(
                mime@,
                bytes@,
                font_format_of(lowercase_of(path@), lowercase_of(mime@)),
            ),
            weight: None,
            style: None,
        }),
{
    let lp = lowercase(path);
    let lm = lowercase(mime);
    let format = font_format(lp.as_str(), lm.as_str());
    let uri = bytes_to_data_uri(mime, bytes);
    let mut src = chars_of("url(");
    extend_chars(&mut src, &chars_of(uri.as_str()));
    extend_chars(&mut src, &chars_of(") format('"));
    extend_chars(&mut src, &chars_of(format));
    extend_chars(&mut src, &chars_of("')"));
    assert(src@ =~= embedded_src(
        mime@,
        bytes@,
        font_format_of(lowercase_of(path@), lowercase_of(mime@)),
    ));
    FontFace { family: family.to_string(), src: string_of(&src), weight: None, style: None }
}

impl ThemeRegistry {
    /// An empty registry.
    pub fn new() -> (r: ThemeRegistry)
        ensures
            r@.themes.len() == 0,
            r@.global_fonts.len() == 0,
    {
        let r = ThemeRegistry { themes: Vec::new(), global_fonts: Vec::new() };
        assert(views(r.themes@) =~= Seq::<ThemeView>::empty());
        assert(views(r.global_fonts@) =~= Seq::<FontFaceView>::empty());
        r
    }

    /// The registered themes.
    pub fn list(&self) -> (r: Vec<Theme>)
        ensures
            views(r@) == self@.themes,
    {
        let mut out: Vec<Theme> = Vec::new();
        let mut i: usize = 0;
        assert(views(out@) =~= self@.themes.take(0));
        while i < self.themes.len()
            invariant
                i <= self.themes.len(),
                views(out@) == self@.themes.take(i as int),
            decreases self.themes.len() - i,
        {
            let t = &self.themes[i];
            let c = Theme {
                name: t.name.clone(),
                css: t.css.clone(),
                font_family: t.font_family.clone(),
                font_weight: t.font_weight,
            };
            proof {
                lemma_views_push(out@, c);
                assert(self@.themes[i as int] == t@);
                assert(self@.themes.take(i as int).push(c@) =~= self@.themes.take(i + 1));
            }
            out.push(c);
            i += 1;
        }
        assert(self@.themes.take(self@.themes.len() as int) =~= self@.themes);
        out
    }

    /// Position of the theme with the given name.
    fn find(&self, name: &str) -> (r: Option<usize>)
        ensures
            match r {
                Some(i) => i < self.themes.len() && i as int == theme_index(
                    self@.themes,
                    name@,
                    0,
                ),
                None => theme_index(self@.themes, name@, 0) == -1,
            },
    {
        let mut i: usize = 0;
        while i < self.themes.len()
            invariant
                i <= self.themes.len(),
                theme_index(self@.themes, name@, 0) == theme_index(self@.themes, name@, i as int),
            decreases self.themes.len() - i,
        {
            assert(self@.themes[i as int] == self.themes@[i as int]@);
            if str_eq(self.themes[i].name.as_str(), name) {
                return Some(i);
            }
            i += 1;
        }
        None
    }

    /// Registers a theme without a font, in place of the theme that has
    /// the name.
    pub fn register(&mut self, name: String, css: String)
        ensures
            final(self)@ == (ThemeRegistryView {
                themes: theme_put(
                    old(self)@.themes,
                    ThemeView { name: name@, css: css@, font_family: None, font_weight: None },
                ),
                ..old(self)@
            }),
            distinct_names(old(self)@.themes) ==> distinct_names(final(self)@.themes),
    {
        self.register_with_font(name, css, None, None);
    }

    /// Registers a theme, in place of the theme that has the name.
    pub fn register_with_font(
        &mut self,
        name: String,
        css: String,
        font_family: Option<String>,
        font_weight: Option<u16>,
    )
        ensures
            final(self)@ == (ThemeRegistryView {
                themes: theme_put(
                    old(self)@.themes,
                    ThemeView {
                        name: name@,
                        css: css@,
                        font_family: opt_view(font_family),
                        font_weight,
                    },
                ),
                ..old(self)@
            }),
            distinct_names(old(self)@.themes) ==> distinct_names(final(self)@.themes),
    {
        let ghost before = views(self.themes@);
        let t = Theme { name, css, font_family, font_weight };
        proof {
            if distinct_names(before) {
                lemma_theme_put(before, t@);
            }
        }
        match self.find(t.name.as_str()) {
            Some(i) => {
                self.themes[i] = t;
                assert(views(self.themes@) =~= before.update(i as int, t@));
            },
            None => {
                self.themes.push(t);
                assert(views(self.themes@) =~= before.push(t@));
            },
        }
    }

    /// The style sheet of the theme with the given name.
    pub fn get_css(&self, name: &str) -> (r: Option<String>)
        ensures
            opt_view(r) == ({
                let i = theme_index(self@.themes, name@, 0);
                if 0 <= i < self@.themes.len() {
                    Some(self@.themes[i].css)
                } else {
                    None
                }
            }),
    {
        match self.find(name) {
            Some(i) => {
                assert(self@.themes[i as int] == self.themes@[i as int]@);
                Some(self.themes[i].css.clone())
            },
            None => None,
        }
    }

    /// What the theme with the given name holds.
    pub fn get_theme_data(&self, name: &str) -> (r: Option<ThemeData>)
        ensures
            match r {
                Some(d) => {
                    let i = theme_index(self@.themes, name@, 0);
                    &&& 0 <= i < self@.themes.len()
                    &&& d.css@ == self@.themes[i].css
                    &&& opt_view(d.font_family) == self@.themes[i].font_family
                    &&& d.font_weight == self@.themes[i].font_weight
                },
                None => theme_index(self@.themes, name@, 0) == -1,
            },
    {
        match self.find(name) {
            Some(i) => {
                assert(self@.themes[i as int] == self.themes@[i as int]@);
                let t = &self.themes[i];
                Some(
                    ThemeData {
                        css: t.css.clone(),
                        font_family: t.font_family.clone(),
                        font_weight: t.font_weight,
                    },
                )
            },
            None => None,
        }
    }

    /// Adds a global font face.
    pub fn register_font(&mut self, font: FontFace)
        ensures
            final(self)@ == (ThemeRegistryView {
                global_fonts: old(self)@.global_fonts.push(font@),
                ..old(self)@
            }),
    {
        proof {
            lemma_views_push(self.global_fonts@, font);
        }
        self.global_fonts.push(font);
    }

    /// The `@font-face` rules of the global font faces, one on each line.
    pub fn get_font_css(&self) -> (r: String)
        ensures
            r@ == font_rules(self@.global_fonts, self@.global_fonts.len() as int),
    {
        let mut out: Vec<char> = Vec::new();
        let mut i: usize = 0;
        while i < self.global_fonts.len()
            invariant
                i <= self.global_fonts.len(),
                out@ == font_rules(self@.global_fonts, i as int),
            decreases self.global_fonts.len() - i,
        {
            assert(self@.global_fonts[i as int] == self.global_fonts@[i as int]@);
            let ghost before = out@;
            if i > 0 {
                out.push('\n');
                assert(out@ =~= before + seq!['\n']);
            } else {
                assert(out@ + font_rule(self@.global_fonts[0]) =~= font_rule(
                    self@.global_fonts[0],
                ));
            }
            push_font_rule(&mut out, &self.global_fonts[i]);
            i += 1;
        }
        string_of(&out)
    }
}

} // verus!
