//! Content-location identifiers: grammar, canonical text, and the
//! (spine, character offset) reading of a location.

use crate::numbers::{i32_value, i64_text, int_text, parse_i32};
use crate::text::{
    chars_of, ends_with, extend_chars, find_from, find_in, has_prefix, has_suffix, index_of_char,
    last_char, last_index_of_char, lemma_views_push, next_char, opt_view, slice_of, split_char,
    split_on, starts_with, string_of, trim_chars, trimmed, views,
};
use vstd::prelude::*;

verus! {

/// Why a text is no location.
#[derive(Debug, PartialEq, Eq)]
pub enum CFIError {
    /// The text does not follow the grammar.
    Invalid,
}

/// One step of a path: a child index and an optional element id.
#[derive(Debug)]
pub struct CFIStep {
    pub index: i32,
    pub id: Option<String>,
}

/// The mathematical model of `CFIStep`.
pub struct CFIStepView {
    pub index: i32,
    pub id: Option<Seq<char>>,
}

impl View for CFIStep {
    type V = CFIStepView;

    open spec fn view(&self) -> CFIStepView {
        CFIStepView { index: self.index, id: opt_view(self.id) }
    }
}

/// A path: steps and an optional terminal character offset.
#[derive(Debug)]
pub struct CFIComponent {
    pub steps: Vec<CFIStep>,
    pub terminal_offset: Option<i32>,
}

/// The mathematical model of `CFIComponent`.
pub struct CFIComponentView {
    pub steps: Seq<CFIStepView>,
    pub terminal_offset: Option<i32>,
}

impl View for CFIComponent {
    type V = CFIComponentView;

    open spec fn view(&self) -> CFIComponentView {
        CFIComponentView { steps: views(self.steps@), terminal_offset: self.terminal_offset }
    }
}

/// The model of an optional value.
pub open spec fn opt_component_view(c: Option<CFIComponent>) -> Option<CFIComponentView> {
    match c {
        Some(x) => Some(x@),
        None => None,
    }
}

/// A location: a path to a spine item and an optional path into its content.
#[derive(Debug)]
pub struct CFI {
    pub spine_path: CFIComponent,
    pub content_path: Option<CFIComponent>,
}

/// The mathematical model of `CFI`.
pub struct CFIView {
    pub spine_path: CFIComponentView,
    pub content_path: Option<CFIComponentView>,
}

impl View for CFI {
    type V = CFIView;

    open spec fn view(&self) -> CFIView {
        CFIView {
            spine_path: self.spine_path@,
            content_path: opt_component_view(self.content_path),
        }
    }
}

/// A range: a start and an end location.
#[derive(Debug)]
pub struct CFIRange {
    pub start: CFI,
    pub end: CFI,
}

/// The mathematical model of `CFIRange`.
pub struct CFIRangeView {
    pub start: CFIView,
    pub end: CFIView,
}

impl View for CFIRange {
    type V = CFIRangeView;

    open spec fn view(&self) -> CFIRangeView {
        CFIRangeView { start: self.start@, end: self.end@ }
    }
}

/// What stands before the first `c` in `s`; all of `s` where it holds none.
pub open spec fn before_char(s: Seq<char>, c: char) -> Seq<char> {
    if 0 <= next_char(s, c, 0) <= s.len() {
        s.subrange(0, next_char(s, c, 0))
    } else {
        s
    }
}

/// `s` without its closing brackets at the end.
pub open spec fn without_closing(s: Seq<char>, n: int) -> Seq<char>
    decreases n,
{
    if n <= 0 || n > s.len() {
        Seq::empty()
    } else if s[n - 1] == ']' {
        without_closing(s, n - 1)
    } else {
        s.subrange(0, n)
    }
}

/// The step that a non-empty path segment denotes: a decimal index, then
/// optionally `[`, an id and closing brackets.
pub open spec fn step_of(seg: Seq<char>) -> Option<CFIStepView> {
    let b = next_char(seg, '[', 0);
    let num = before_char(seg, '[');
    let id = if 0 <= b < seg.len() {
        Some(without_closing(seg.subrange(b + 1, seg.len() as int), seg.len() - b - 1))
    } else {
        None
    };
    match i32_value(num) {
        Some(v) => Some(CFIStepView { index: v as i32, id }),
        None => None,
    }
}

/// The steps that the first `n` segments denote; empty segments are
/// skipped. `None` where a segment denotes no step.
pub open spec fn steps_upto(segs: Seq<Seq<char>>, n: int) -> Option<Seq<CFIStepView>>
    decreases n,
{
    if n <= 0 || n > segs.len() {
        Some(Seq::empty())
    } else {
        match steps_upto(segs, n - 1) {
            None => None,
            Some(prev) => if segs[n - 1].len() == 0 {
                Some(prev)
            } else {
                match step_of(segs[n - 1]) {
                    Some(s) => Some(prev.push(s)),
                    None => None,
                }
            },
        }
    }
}

/// The terminal offset that the text after the last colon denotes: the
/// decimal number before the first `;`, if it is one.
pub open spec fn terminal_of(t: Seq<char>) -> Option<i32> {
    match i32_value(before_char(t, ';')) {
        Some(v) => Some(v as i32),
        None => None,
    }
}

/// Whether position `n` of `s` lies inside an assertion in parentheses: the
/// last parenthesis before it, if any, is an opening one.
pub open spec fn in_assertion(s: Seq<char>, n: int) -> bool
    decreases n,
{
    if n <= 0 || n > s.len() {
        false
    } else if s[n - 1] == '(' {
        true
    } else if s[n - 1] == ')' {
        false
    } else {
        in_assertion(s, n - 1)
    }
}

/// The first `n` characters of `s` without assertions: every character
/// that is no parenthesis and lies outside `(...)`.
pub open spec fn plain_upto(s: Seq<char>, n: int) -> Seq<char>
    decreases n,
{
    if n <= 0 || n > s.len() {
        Seq::empty()
    } else if s[n - 1] != '(' && s[n - 1] != ')' && !in_assertion(s, n - 1) {
        plain_upto(s, n - 1).push(s[n - 1])
    } else {
        plain_upto(s, n - 1)
    }
}

/// `s` without its assertions in parentheses. What follows an assertion
/// stays; an assertion that is left open runs to the end.
pub open spec fn without_assertions(s: Seq<char>) -> Seq<char> {
    plain_upto(s, s.len() as int)
}

/// The component that a text denotes. Assertions in parentheses are
/// removed, as is white space around the rest; the text after the last
/// colon gives the terminal offset; the segments between slashes give the
/// steps.
pub open spec fn component_of(text: Seq<char>) -> Option<CFIComponentView> {
    let cleaned = trimmed(without_assertions(text));
    let colon = last_char(cleaned, ':', cleaned.len() as int);
    let path = if 0 <= colon < cleaned.len() {
        cleaned.subrange(0, colon)
    } else {
        cleaned
    };
    let terminal = if 0 <= colon < cleaned.len() {
        terminal_of(cleaned.subrange(colon + 1, cleaned.len() as int))
    } else {
        None
    };
    match steps_upto(split_char(path, '/'), split_char(path, '/').len() as int) {
        Some(steps) => Some(CFIComponentView { steps, terminal_offset: terminal }),
        None => None,
    }
}

/// The location that the text between `epubcfi(` and `)` denotes: a spine
/// component, then optionally `!` and a content component.
pub open spec fn body_of(inner: Seq<char>) -> Option<CFIView> {
    let parts = split_char(inner, '!');
    match component_of(parts[0]) {
        None => None,
        Some(spine) => if parts.len() >= 2 && parts[1].len() > 0 {
            match component_of(parts[1]) {
                Some(content) => Some(CFIView { spine_path: spine, content_path: Some(content) }),
                None => None,
            }
        } else {
            Some(CFIView { spine_path: spine, content_path: None })
        },
    }
}

/// Whether a text is wrapped in `epubcfi(` and `)`.
pub open spec fn is_wrapped(s: Seq<char>) -> bool {
    has_prefix(s, "epubcfi("@) && has_suffix(s, seq![')']) && s.len() >= 9
}

/// The location that a text denotes: white space around it is dropped, and
/// the rest must be `epubcfi(`, a body and `)`.
pub open spec fn cfi_of(input: Seq<char>) -> Option<CFIView> {
    let s = trimmed(input);
    if is_wrapped(s) {
        body_of(s.subrange(8, s.len() - 1))
    } else {
        None
    }
}

/// The location that an endpoint of a range denotes: either a wrapped
/// location or a bare body.
pub open spec fn endpoint_of(text: Seq<char>) -> Option<CFIView> {
    if is_wrapped(trimmed(text)) {
        cfi_of(text)
    } else {
        body_of(trimmed(text))
    }
}

/// The range between two endpoints.
pub open spec fn range_from(a: Seq<char>, b: Seq<char>) -> Option<CFIRangeView> {
    match (endpoint_of(a), endpoint_of(b)) {
        (Some(start), Some(end)) => Some(CFIRangeView { start, end }),
        _ => None,
    }
}

/// Whether a text has the form `epubcfi(range(...))`.
pub open spec fn is_range_call(s: Seq<char>) -> bool {
    has_prefix(s, "epubcfi(range("@) && has_suffix(s, "))"@) && s.len() >= 16
}

/// The range that a text denotes, in one of three forms:
/// `epubcfi(range(<start>,<end>))`, `epubcfi(<start>,<end>)` and
/// `<start>..<end>`.
pub open spec fn range_of(input: Seq<char>) -> Option<CFIRangeView> {
    if is_range_call(input) {
        let body = input.subrange(14, input.len() - 2);
        let parts = split_char(body, ',');
        if parts.len() >= 2 {
            range_from(parts[0], parts[1])
        } else {
            None
        }
    } else {
        let inner = input.subrange(8, input.len() - 1);
        let comma = next_char(inner, ',', 0);
        if is_wrapped(input) && 0 <= comma < inner.len() {
            range_from(inner.subrange(0, comma), inner.subrange(comma + 1, inner.len() as int))
        } else {
            let dots = find_from(input, ".."@, 0);
            if 0 <= dots && dots + 2 <= input.len() {
                range_from(input.subrange(0, dots), input.subrange(dots + 2, input.len() as int))
            } else {
                None
            }
        }
    }
}

/// The text of a step.
pub open spec fn step_text(s: CFIStepView) -> Seq<char> {
    seq!['/'] + int_text(s.index as int) + match s.id {
        Some(id) => seq!['['] + id + seq![']'],
        None => Seq::empty(),
    }
}

/// The text of the first `n` steps.
pub open spec fn steps_text(steps: Seq<CFIStepView>, n: int) -> Seq<char>
    decreases n,
{
    if n <= 0 || n > steps.len() {
        Seq::empty()
    } else {
        steps_text(steps, n - 1) + step_text(steps[n - 1])
    }
}

/// The text of a component: its steps, then `:` and the terminal offset
/// where it has one.
pub open spec fn component_text(c: CFIComponentView) -> Seq<char> {
    steps_text(c.steps, c.steps.len() as int) + match c.terminal_offset {
        Some(off) => seq![':'] + int_text(off as int),
        None => Seq::empty(),
    }
}

/// The text of a location without its wrapper: the components joined by
/// `!`.
pub open spec fn body_text(c: CFIView) -> Seq<char> {
    component_text(c.spine_path) + match c.content_path {
        Some(content) => seq!['!'] + component_text(content),
        None => Seq::empty(),
    }
}

/// The canonical text of a location.
pub open spec fn cfi_text(c: CFIView) -> Seq<char> {
    "epubcfi("@ + body_text(c) + seq![')']
}

/// The canonical text of a range: both bodies in one wrapper.
pub open spec fn range_text(r: CFIRangeView) -> Seq<char> {
    "epubcfi("@ + body_text(r.start) + seq![','] + body_text(r.end) + seq![')']
}

/// A number clamped below at zero.
pub open spec fn clamped(v: i32) -> int {
    if v < 0 {
        0
    } else {
        v as int
    }
}

/// The (spine index, character offset) that a location stands for: the
/// index of its first spine step and its spine terminal offset, each
/// clamped at zero. `None` where either is missing.
pub open spec fn offset_of(c: CFIView) -> Option<(int, int)> {
    if c.spine_path.steps.len() > 0 && c.spine_path.terminal_offset is Some {
        Some((clamped(c.spine_path.steps[0].index), clamped(c.spine_path.terminal_offset->0)))
    } else {
        None
    }
}

/// The model of an outcome.
pub open spec fn cfi_outcome(r: Result<CFI, CFIError>) -> Option<CFIView> {
    match r {
        Ok(c) => Some(c@),
        Err(_) => None,
    }
}

/// The model of an outcome.
pub open spec fn range_outcome(r: Result<CFIRange, CFIError>) -> Option<CFIRangeView> {
    match r {
        Ok(c) => Some(c@),
        Err(_) => None,
    }
}

/// The model of an outcome.
pub open spec fn component_outcome(r: Result<CFIComponent, CFIError>) -> Option<CFIComponentView> {
    match r {
        Ok(c) => Some(c@),
        Err(_) => None,
    }
}

/// The model of an optional value.
pub open spec fn pair_view(r: Option<(usize, usize)>) -> Option<(int, int)> {
    match r {
        Some(p) => Some((p.0 as int, p.1 as int)),
        None => None,
    }
}

/// What stands before the first `c`.
fn take_before(s: &Vec<char>, c: char) -> (r: Vec<char>)
    ensures
        r@ == before_char(s@, c),
{
    let j = index_of_char(s, c, 0);
    let r = slice_of(s, 0, j);
    proof {
        if j == s.len() {
            assert(s@.subrange(0, s@.len() as int) =~= s@);
        }
    }
    r
}

/// `s` without its closing brackets at the end.
fn drop_closing(s: &Vec<char>) -> (r: Vec<char>)
    ensures
        r@ == without_closing(s@, s@.len() as int),
{
    let mut n: usize = s.len();
    while n > 0 && s[n - 1] == ']'
        invariant
            n <= s.len(),
            without_closing(s@, s@.len() as int) == without_closing(s@, n as int),
        decreases n,
    {
        n -= 1;
    }
    slice_of(s, 0, n)
}

/// `s` without its assertions in parentheses.
fn strip_assertions(s: &Vec<char>) -> (r: Vec<char>)
    ensures
        r@ == without_assertions(s@),
{
    let mut out: Vec<char> = Vec::new();
    let mut inside = false;
    let mut i: usize = 0;
    while i < s.len()
        invariant
            i <= s.len(),
            inside == in_assertion(s@, i as int),
            out@ == plain_upto(s@, i as int),
        decreases s.len() - i,
    {
        let ch = s[i];
        if ch == '(' {
            inside = true;
        } else if ch == ')' {
            inside = false;
        } else if !inside {
            out.push(ch);
        }
        i += 1;
    }
    out
}

/// Reads one non-empty path segment.
fn parse_step(seg: &Vec<char>) -> (r: Option<CFIStep>)
    ensures
        match r {
            Some(s) => step_of(seg@) == Some(s@),
            None => step_of(seg@) is None,
        },
{
    let b = index_of_char(seg, '[', 0);
    let num = take_before(seg, '[');
    let id = if b < seg.len() {
        let rest = slice_of(seg, b + 1, seg.len());
        let trimmed_rest = drop_closing(&rest);
        Some(string_of(&trimmed_rest))
    } else {
        None
    };
    match parse_i32(&num) {
        Some(v) => Some(CFIStep { index: v, id }),
        None => None,
    }
}

/// Reads one component of a location.
pub fn parse_component(component: &str) -> (r: Result<CFIComponent, CFIError>)
    ensures
        component_outcome(r) == component_of(component@),
{
    let text = chars_of(component);
    parse_component_chars(&text)
}

/// Reads one component of a location from its characters.
fn parse_component_chars(text: &Vec<char>) -> (r: Result<CFIComponent, CFIError>)
    ensures
        component_outcome(r) == component_of(text@),
{
    let head = strip_assertions(text);
    let cleaned = trim_chars(&head);
    let (path, terminal_offset) = match last_index_of_char(&cleaned, ':') {
        Some(colon) => {
            let p = slice_of(&cleaned, 0, colon);
            let t = slice_of(&cleaned, colon + 1, cleaned.len());
            let digits = take_before(&t, ';');
            (p, parse_i32(&digits))
        },
        None => {
            let p = slice_of(&cleaned, 0, cleaned.len());
            assert(p@ == cleaned@);
            (p, None)
        },
    };
    let segs = split_on(&path, '/');
    let mut steps: Vec<CFIStep> = Vec::new();
    let mut i: usize = 0;
    assert(views(steps@) =~= Seq::<CFIStepView>::empty());
    while i < segs.len()
        invariant
            i <= segs.len(),
            views(segs@) == split_char(path@, '/'),
            steps_upto(views(segs@), i as int) == Some(views(steps@)),
            component_of(text@) == (match steps_upto(views(segs@), segs@.len() as int) {
                Some(all) => Some(CFIComponentView { steps: all, terminal_offset }),
                None => None,
            }),
        decreases segs.len() - i,
    {
        assert(views(segs@)[i as int] == segs@[i as int]@);
        if segs[i].len() > 0 {
            match parse_step(&segs[i]) {
                Some(s) => {
                    proof {
                        lemma_views_push(steps@, s);
                    }
                    steps.push(s);
                },
                None => {
                    proof {
                        lemma_steps_fail(views(segs@), i as int, segs@.len() as int);
                    }
                    return Err(CFIError::Invalid);
                },
            }
        }
        i += 1;
    }
    Ok(CFIComponent { steps, terminal_offset })
}

/// Where one segment denotes no step, the segments denote no steps.
pub proof fn lemma_steps_fail(segs: Seq<Seq<char>>, i: int, n: int)
    requires
        0 <= i < n <= segs.len(),
        segs[i].len() > 0,
        step_of(segs[i]) is None,
    ensures
        steps_upto(segs, n) is None,
    decreases n,
{
    if n - 1 > i {
        lemma_steps_fail(segs, i, n - 1);
    }
}

/// Reads the text between `epubcfi(` and `)`.
fn parse_body(inner: &Vec<char>) -> (r: Result<CFI, CFIError>)
    ensures
        cfi_outcome(r) == body_of(inner@),
{
    let parts = split_on(inner, '!');
    assert(views(parts@)[0] == parts@[0]@);
    let spine_path = match parse_component_chars(&parts[0]) {
        Ok(c) => c,
        Err(e) => {
            return Err(e);
        },
    };
    if parts.len() >= 2 {
        assert(views(parts@)[1] == parts@[1]@);
        if parts[1].len() > 0 {
            return match parse_component_chars(&parts[1]) {
                Ok(c) => Ok(CFI { spine_path, content_path: Some(c) }),
                Err(e) => Err(e),
            };
        }
    }
    Ok(CFI { spine_path, content_path: None })
}

/// Whether the characters are wrapped in `epubcfi(` and `)`.
fn has_wrapper(s: &Vec<char>) -> (r: bool)
    ensures
        r == is_wrapped(s@),
{
    let prefix = chars_of("epubcfi(");
    let mut suffix: Vec<char> = Vec::new();
    suffix.push(')');
    assert(suffix@ =~= seq![')']);
    starts_with(s, &prefix) && ends_with(s, &suffix) && s.len() >= 9
}

/// Reads a location from its characters.
fn parse_chars(input: &Vec<char>) -> (r: Result<CFI, CFIError>)
    ensures
        cfi_outcome(r) == cfi_of(input@),
{
    let s = trim_chars(input);
    if !has_wrapper(&s) {
        return Err(CFIError::Invalid);
    }
    let inner = slice_of(&s, 8, s.len() - 1);
    parse_body(&inner)
}

/// Reads a location.
///
/// Succeeds exactly on the texts that denote a location; `Invalid`
/// otherwise.
pub fn parse(input: &str) -> (r: Result<CFI, CFIError>)
    ensures
        cfi_outcome(r) == cfi_of(input@),
{
    let v = chars_of(input);
    parse_chars(&v)
}

/// Reads one endpoint of a range.
fn parse_endpoint(text: &Vec<char>) -> (r: Result<CFI, CFIError>)
    ensures
        cfi_outcome(r) == endpoint_of(text@),
{
    let s = trim_chars(text);
    if has_wrapper(&s) {
        parse_chars(text)
    } else {
        parse_body(&s)
    }
}

/// Reads both endpoints of a range.
fn parse_endpoints(a: &Vec<char>, b: &Vec<char>) -> (r: Result<CFIRange, CFIError>)
    ensures
        range_outcome(r) == range_from(a@, b@),
{
    let start = match parse_endpoint(a) {
        Ok(c) => c,
        Err(e) => {
            return Err(e);
        },
    };
    match parse_endpoint(b) {
        Ok(end) => Ok(CFIRange { start, end }),
        Err(e) => Err(e),
    }
}

/// Reads a range in one of its three forms.
///
/// Succeeds exactly on the texts that denote a range; `Invalid` otherwise.
pub fn parse_range(input: &str) -> (r: Result<CFIRange, CFIError>)
    ensures
        range_outcome(r) == range_of(input@),
{
    let s = chars_of(input);
    let call = chars_of("epubcfi(range(");
    let close = chars_of("))");
    proof {
        reveal_strlit("epubcfi(range(");
        reveal_strlit("))");
        reveal_strlit("..");
        reveal_strlit("epubcfi(");
    }
    if starts_with(&s, &call) && ends_with(&s, &close) && s.len() >= 16 {
        let body = slice_of(&s, 14, s.len() - 2);
        let parts = split_on(&body, ',');
        if parts.len() >= 2 {
            assert(views(parts@)[0] == parts@[0]@);
            assert(views(parts@)[1] == parts@[1]@);
            return parse_endpoints(&parts[0], &parts[1]);
        }
        return Err(CFIError::Invalid);
    }
    if has_wrapper(&s) {
        let inner = slice_of(&s, 8, s.len() - 1);
        let comma = index_of_char(&inner, ',', 0);
        if comma < inner.len() {
            let lhs = slice_of(&inner, 0, comma);
            let rhs = slice_of(&inner, comma + 1, inner.len());
            return parse_endpoints(&lhs, &rhs);
        }
    }
    let dots = chars_of("..");
    match find_in(&s, &dots, 0) {
        Some(d) => {
            proof {
                crate::text::lemma_find_from_bounds(s@, dots@, 0);
            }
            let lhs = slice_of(&s, 0, d);
            let rhs = slice_of(&s, d + 2, s.len());
            parse_endpoints(&lhs, &rhs)
        },
        None => Err(CFIError::Invalid),
    }
}

/// Appends the text of a component.
fn push_component(out: &mut Vec<char>, c: &CFIComponent)
    ensures
        final(out)@ == old(out)@ + component_text(c@),
{
    let mut i: usize = 0;
    assert(out@ + Seq::<char>::empty() =~= out@);
    while i < c.steps.len()
        invariant
            i <= c.steps.len(),
            out@ == old(out)@ + steps_text(views(c.steps@), i as int),
        decreases c.steps.len() - i,
    {
        let step = &c.steps[i];
        assert(views(c.steps@)[i as int] == step@);
        let ghost before = out@;
        out.push('/');
        let digits = i64_text(step.index as i64);
        extend_chars(out, &digits);
        match &step.id {
            Some(id) => {
                out.push('[');
                let idv = chars_of(id.as_str());
                extend_chars(out, &idv);
                out.push(']');
                assert(out@ =~= before + step_text(step@));
            },
            None => {
                assert(out@ =~= before + step_text(step@));
            },
        }
        assert(out@ =~= old(out)@ + (steps_text(views(c.steps@), i as int) + step_text(step@)));
        i += 1;
    }
    match c.terminal_offset {
        Some(off) => {
            let ghost before = out@;
            out.push(':');
            let digits = i64_text(off as i64);
            extend_chars(out, &digits);
            assert(out@ =~= old(out)@ + component_text(c@));
        },
        None => {
            assert(out@ =~= old(out)@ + component_text(c@));
        },
    }
}

/// The text of a component.
pub fn format_component(c: &CFIComponent) -> (r: String)
    ensures
        r@ == component_text(c@),
{
    let mut out: Vec<char> = Vec::new();
    push_component(&mut out, c);
    assert(out@ =~= component_text(c@));
    string_of(&out)
}

/// Appends the text of a location without its wrapper.
fn push_body(out: &mut Vec<char>, cfi: &CFI)
    ensures
        final(out)@ == old(out)@ + body_text(cfi@),
{
    push_component(out, &cfi.spine_path);
    match &cfi.content_path {
        Some(content) => {
            out.push('!');
            push_component(out, content);
            assert(out@ =~= old(out)@ + body_text(cfi@));
        },
        None => {
            assert(out@ =~= old(out)@ + body_text(cfi@));
        },
    }
}

/// The canonical text of a location: its components joined by `!`, wrapped
/// in `epubcfi(` and `)`.
pub fn format_cfi(cfi: &CFI) -> (r: String)
    ensures
        r@ == cfi_text(cfi@),
{
    let mut out = chars_of("epubcfi(");
    push_body(&mut out, cfi);
    out.push(')');
    assert(out@ =~= cfi_text(cfi@));
    string_of(&out)
}

/// The canonical text of a range: `epubcfi(<start>,<end>)`, the endpoints
/// without wrappers of their own.
pub fn format_range(range: &CFIRange) -> (r: String)
    ensures
        r@ == range_text(range@),
{
    let mut out = chars_of("epubcfi(");
    push_body(&mut out, &range.start);
    out.push(',');
    push_body(&mut out, &range.end);
    out.push(')');
    assert(out@ =~= range_text(range@));
    string_of(&out)
}

/// The (spine index, character offset) that a location stands for.
pub fn try_cfi_to_offset(cfi: &CFI) -> (r: Option<(usize, usize)>)
    ensures
        pair_view(r) == offset_of(cfi@),
{
    if cfi.spine_path.steps.len() == 0 {
        return None;
    }
    assert(views(cfi.spine_path.steps@)[0] == cfi.spine_path.steps@[0]@);
    let index = cfi.spine_path.steps[0].index;
    let spine_idx: usize = if index < 0 {
        0
    } else {
        index as usize
    };
    match cfi.spine_path.terminal_offset {
        Some(off) => {
            let char_off: usize = if off < 0 {
                0
            } else {
                off as usize
            };
            Some((spine_idx, char_off))
        },
        None => None,
    }
}

/// The (spine index, character offset) that a text stands for, where it
/// denotes a location that has both.
pub fn try_parse_cfi_to_offset(s: &str) -> (r: Option<(usize, usize)>)
    ensures
        pair_view(r) == match cfi_of(s@) {
            Some(c) => offset_of(c),
            None => None,
        },
{
    match parse(s) {
        Ok(cfi) => try_cfi_to_offset(&cfi),
        Err(_) => None,
    }
}

/// The model of an optional value.
pub open spec fn pairs_view(r: Option<((usize, usize), (usize, usize))>) -> Option<
    ((int, int), (int, int)),
> {
    match r {
        Some(p) => Some(((p.0.0 as int, p.0.1 as int), (p.1.0 as int, p.1.1 as int))),
        None => None,
    }
}

/// The offsets of both endpoints of the range that a text denotes.
pub fn try_parse_cfi_range_to_offsets(s: &str) -> (r: Option<((usize, usize), (usize, usize))>)
    ensures
        pairs_view(r) == match range_of(s@) {
            Some(range) => match (offset_of(range.start), offset_of(range.end)) {
                (Some(a), Some(b)) => Some((a, b)),
                _ => None,
            },
            None => None,
        },
{
    match parse_range(s) {
        Ok(range) => {
            let start = try_cfi_to_offset(&range.start);
            let end = try_cfi_to_offset(&range.end);
            match (start, end) {
                (Some(a), Some(b)) => Some((a, b)),
                _ => None,
            }
        },
        Err(_) => None,
    }
}

} // verus!
