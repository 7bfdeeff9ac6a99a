//! XML reader: a token stream from the XML parser, and the owned element
//! tree built from it.

use crate::text::{chars_eq, chars_of, extend_chars, str_eq, lemma_views_empty, lemma_views_push, opt_view, string_of, views};
use vstd::prelude::*;
use xml::reader::EventReader;
use xml::reader::XmlEvent::{
    CData, Characters, Comment, EndDocument, EndElement, ProcessingInstruction, StartDocument,
    StartElement, Whitespace,
};

verus! {

/// A qualified name: local part and optional namespace URI.
#[derive(Debug)]
pub struct XmlName {
    pub local_name: String,
    pub namespace: Option<String>,
}

/// The mathematical model of `XmlName`.
pub struct XmlNameView {
    pub local_name: Seq<char>,
    pub namespace: Option<Seq<char>>,
}

impl View for XmlName {
    type V = XmlNameView;

    open spec fn view(&self) -> XmlNameView {
        XmlNameView { local_name: self.local_name@, namespace: opt_view(self.namespace) }
    }
}

impl XmlName {
    /// A name from its parts.
    pub fn new(local_name: String, namespace: Option<String>) -> (r: XmlName)
        ensures
            r.local_name == local_name,
            r.namespace == namespace,
    {
        XmlName { local_name, namespace }
    }
}

/// One attribute of an element.
#[derive(Debug)]
pub struct XmlAttr {
    pub name: XmlName,
    pub value: String,
}

/// The mathematical model of `XmlAttr`.
pub struct XmlAttrView {
    pub name: XmlNameView,
    pub value: Seq<char>,
}

impl View for XmlAttr {
    type V = XmlAttrView;

    open spec fn view(&self) -> XmlAttrView {
        XmlAttrView { name: self.name@, value: self.value@ }
    }
}

impl XmlAttr {
    /// An attribute from the parts of its name and its value.
    pub fn new(local_name: String, namespace: Option<String>, value: String) -> (r: XmlAttr)
        ensures
            r.name.local_name == local_name,
            r.name.namespace == namespace,
            r.value == value,
    {
        XmlAttr { name: XmlName { local_name, namespace }, value }
    }
}

/// One event of the XML parser.
#[derive(Debug)]
pub enum XmlToken {
    /// An opening tag.
    Start { name: XmlName, attrs: Vec<XmlAttr> },
    /// A closing tag.
    End,
    /// Character data that is not only white space.
    Text(String),
    /// A CDATA section.
    CData(String),
    /// The start or end of the document, a processing instruction, a
    /// comment, or white space.
    Other,
}

/// The mathematical model of `XmlToken`.
pub enum XmlTokenView {
    Start { name: XmlNameView, attrs: Seq<XmlAttrView> },
    End,
    Text(Seq<char>),
    CData(Seq<char>),
    Other,
}

impl View for XmlToken {
    type V = XmlTokenView;

    open spec fn view(&self) -> XmlTokenView {
        match *self {
            XmlToken::Start { name, attrs } => XmlTokenView::Start {
                name: name@,
                attrs: views(attrs@),
            },
            XmlToken::End => XmlTokenView::End,
            XmlToken::Text(s) => XmlTokenView::Text(s@),
            XmlToken::CData(s) => XmlTokenView::CData(s@),
            XmlToken::Other => XmlTokenView::Other,
        }
    }
}

/// Why an XML document could not be read.
#[derive(Debug)]
pub enum XmlError {
    /// The parser rejected the input.
    Malformed,
    /// The document holds no element.
    NoContent,
}

/// An element with its attributes, child elements and direct character data.
#[derive(Debug)]
pub struct XmlNode {
    pub name: XmlName,
    pub attrs: Vec<XmlAttr>,
    pub children: Vec<XmlNode>,
    pub text: Option<String>,
}

/// The mathematical model of `XmlNode`.
pub struct XmlNodeView {
    pub name: XmlNameView,
    pub attrs: Seq<XmlAttrView>,
    pub children: Seq<XmlNodeView>,
    pub text: Option<Seq<char>>,
}

/// The element tree that an `XmlNode` stands for.
pub open spec fn node_view(n: XmlNode) -> XmlNodeView
    decreases n,
{
    XmlNodeView {
        name: n.name@,
        attrs: views(n.attrs@),
        children: Seq::new(
            n.children@.len(),
            |i: int|
                if 0 <= i < n.children@.len() {
                    node_view(n.children@[i])
                } else {
                    arbitrary()
                },
        ),
        text: opt_view(n.text),
    }
}

impl View for XmlNode {
    type V = XmlNodeView;

    open spec fn view(&self) -> XmlNodeView {
        node_view(*self)
    }
}

/// The token stream that the XML parser yields for a document, or `None`
/// where it rejects the document.
pub uninterp spec fn xml_tokens(bytes: Seq<u8>) -> Option<Seq<XmlTokenView>>;

/// The model of an outcome.
pub open spec fn tokens_outcome(r: Result<Vec<XmlToken>, XmlError>) -> Option<Seq<XmlTokenView>> {
    match r {
        Ok(v) => Some(views(v@)),
        Err(_) => None,
    }
}

/// Runs `xml::reader::EventReader` over the whole input and hands its events
/// out one for one: opening and closing tags, character data and CDATA with
/// their fields; the document's start and end, processing instructions,
/// comments and white space as `Other`. The result is the parser's event
/// stream for these bytes; any parser error gives `Malformed`.
#[verifier::external_body]
fn read_tokens(bytes: &[u8]) -> (r: Result<Vec<XmlToken>, XmlError>)
    ensures
        tokens_outcome(r) == xml_tokens(bytes@),
        r is Err ==> r->Err_0 is Malformed,
{
    EventReader::new(bytes).into_iter().map(|ev| Ok(match ev.map_err(|_| XmlError::Malformed)? {
        StartElement { name: n, attributes: at, .. } => XmlToken::Start {
            name: XmlName::new(n.local_name, n.namespace),
            attrs: at.into_iter().map(|a| XmlAttr::new(a.name.local_name, a.name.namespace, a.value)).collect(),
        },
        EndElement { .. } => XmlToken::End,
        Characters(s) => XmlToken::Text(s),
        CData(s) => XmlToken::CData(s),
        StartDocument { .. } => XmlToken::Other,
        EndDocument => XmlToken::Other,
        ProcessingInstruction { .. } => XmlToken::Other,
        Comment(_) => XmlToken::Other,
        Whitespace(_) => XmlToken::Other,
    })).collect()
}

/// Concatenation of optional character data.
pub open spec fn join_text(a: Option<Seq<char>>, b: Option<Seq<char>>) -> Option<Seq<char>> {
    match (a, b) {
        (None, _) => b,
        (Some(x), None) => Some(x),
        (Some(x), Some(y)) => Some(x + y),
    }
}

/// What an element holds: child elements, direct character data, and the
/// position just after the element's closing tag.
pub struct ContentView {
    pub children: Seq<XmlNodeView>,
    pub text: Option<Seq<char>>,
    pub end: int,
}

/// The content of the element whose opening tag ends just before `pos`. An
/// element left open at the end of the stream is closed there.
pub open spec fn content_at(toks: Seq<XmlTokenView>, pos: int) -> ContentView
    decreases toks.len() - pos,
{
    if pos < 0 || pos >= toks.len() {
        ContentView { children: Seq::empty(), text: None, end: toks.len() as int }
    } else {
        match toks[pos] {
            XmlTokenView::End => ContentView { children: Seq::empty(), text: None, end: pos + 1 },
            XmlTokenView::Start { name, attrs } => {
                let inner = content_at(toks, pos + 1);
                let child = XmlNodeView {
                    name,
                    attrs,
                    children: inner.children,
                    text: inner.text,
                };
                if inner.end <= pos || inner.end > toks.len() {
                    ContentView { children: seq![child], text: None, end: toks.len() as int }
                } else {
                    let rest = content_at(toks, inner.end);
                    ContentView {
                        children: seq![child] + rest.children,
                        text: rest.text,
                        end: rest.end,
                    }
                }
            },
            XmlTokenView::Text(t) => {
                let rest = content_at(toks, pos + 1);
                ContentView {
                    children: rest.children,
                    text: join_text(Some(t), rest.text),
                    end: rest.end,
                }
            },
            XmlTokenView::CData(t) => {
                let rest = content_at(toks, pos + 1);
                ContentView {
                    children: rest.children,
                    text: join_text(Some(t), rest.text),
                    end: rest.end,
                }
            },
            XmlTokenView::Other => content_at(toks, pos + 1),
        }
    }
}

/// The content of an element ends after it starts, and within the stream.
pub proof fn lemma_content_end(toks: Seq<XmlTokenView>, pos: int)
    requires
        0 <= pos,
    ensures
        pos < toks.len() ==> pos < content_at(toks, pos).end <= toks.len(),
        pos >= toks.len() ==> content_at(toks, pos).end == toks.len(),
    decreases toks.len() - pos,
{
    if pos < toks.len() {
        match toks[pos] {
            XmlTokenView::End => {},
            XmlTokenView::Start { name, attrs } => {
                lemma_content_end(toks, pos + 1);
                let inner = content_at(toks, pos + 1);
                if inner.end > pos {
                    lemma_content_end(toks, inner.end);
                }
            },
            XmlTokenView::Text(t) => {
                lemma_content_end(toks, pos + 1);
            },
            XmlTokenView::CData(t) => {
                lemma_content_end(toks, pos + 1);
            },
            XmlTokenView::Other => {
                lemma_content_end(toks, pos + 1);
            },
        }
    }
}

/// Index of the first opening tag at or after `from`, or `toks.len()`.
pub open spec fn first_start(toks: Seq<XmlTokenView>, from: int) -> int
    decreases toks.len() - from,
{
    if from < 0 || from >= toks.len() {
        toks.len() as int
    } else if toks[from] is Start {
        from
    } else {
        first_start(toks, from + 1)
    }
}

/// The document element of a token stream: the first element opened, with
/// everything up to its closing tag.
pub open spec fn tree_of(toks: Seq<XmlTokenView>) -> Option<XmlNodeView> {
    let i = first_start(toks, 0);
    if 0 <= i < toks.len() && toks[i] is Start {
        let inner = content_at(toks, i + 1);
        Some(
            XmlNodeView {
                name: toks[i]->Start_name,
                attrs: toks[i]->Start_attrs,
                children: inner.children,
                text: inner.text,
            },
        )
    } else {
        None
    }
}

/// The element tree of an XML document, or `None` where the parser rejects it
/// or it holds no element.
pub open spec fn xml_tree(bytes: Seq<u8>) -> Option<XmlNodeView> {
    match xml_tokens(bytes) {
        Some(toks) => tree_of(toks),
        None => None,
    }
}

/// The model of an element shows its fields as they are.
pub proof fn lemma_node_children(n: XmlNode)
    ensures
        n@.children == views(n.children@),
        n@.name == n.name@,
        n@.attrs == views(n.attrs@),
        n@.text == opt_view(n.text),
{
    assert(n@.children =~= views(n.children@));
}

/// A copy of a name.
pub fn copy_name(n: &XmlName) -> (r: XmlName)
    ensures
        r@ == n@,
{
    XmlName { local_name: n.local_name.clone(), namespace: n.namespace.clone() }
}

/// A copy of an attribute list.
pub fn copy_attrs(a: &Vec<XmlAttr>) -> (r: Vec<XmlAttr>)
    ensures
        views(r@) == views(a@),
{
    let mut out: Vec<XmlAttr> = Vec::new();
    let mut i: usize = 0;
    while i < a.len()
        invariant
            i <= a.len(),
            views(out@) == views(a@).take(i as int),
        decreases a.len() - i,
    {
        let x = XmlAttr { name: copy_name(&a[i].name), value: a[i].value.clone() };
        proof {
            lemma_views_push(out@, x);
            assert(views(a@).take(i as int).push(x@) =~= views(a@).take(i + 1));
        }
        out.push(x);
        i += 1;
    }
    assert(views(a@).take(a.len() as int) =~= views(a@));
    out
}

/// What an element holds, as read from the token stream.
pub struct Content {
    pub children: Vec<XmlNode>,
    pub text: Option<String>,
    pub end: usize,
}

impl View for Content {
    type V = ContentView;

    open spec fn view(&self) -> ContentView {
        ContentView { children: views(self.children@), text: opt_view(self.text), end: self.end as int }
    }
}

/// What precedes `pos` joined with what `rest` says of the tokens from `pos`.
pub open spec fn joined(kids: Seq<XmlNodeView>, text: Option<Seq<char>>, rest: ContentView) -> ContentView {
    ContentView { children: kids + rest.children, text: join_text(text, rest.text), end: rest.end }
}

/// Appends character data to what an element has collected so far.
fn append_text(text: Option<String>, t: &String) -> (r: Option<String>)
    ensures
        opt_view(r) == join_text(opt_view(text), Some(t@)),
{
    match text {
        None => Some(t.clone()),
        Some(prev) => {
            let mut v = chars_of(prev.as_str());
            let w = chars_of(t.as_str());
            extend_chars(&mut v, &w);
            Some(string_of(&v))
        },
    }
}

/// Reads the content of one element from the token stream.
pub fn read_content(toks: &Vec<XmlToken>, start: usize) -> (r: Content)
    requires
        start <= toks.len(),
    ensures
        r@ == content_at(views(toks@), start as int),
        start <= r.end <= toks.len(),
    decreases toks.len() - start,
{
    let ghost tv = views(toks@);
    let mut kids: Vec<XmlNode> = Vec::new();
    let mut text: Option<String> = None;
    let mut pos: usize = start;
    proof {
        lemma_views_empty::<XmlNode>();
        assert(Seq::<XmlNodeView>::empty() + content_at(tv, start as int).children =~= content_at(
            tv,
            start as int,
        ).children);
    }
    loop
        invariant
            tv == views(toks@),
            start <= pos <= toks.len(),
            joined(views(kids@), opt_view(text), content_at(tv, pos as int)) == content_at(
                tv,
                start as int,
            ),
        decreases toks.len() - pos,
    {
        if pos >= toks.len() {
            assert(views(kids@) + Seq::<XmlNodeView>::empty() =~= views(kids@));
            return Content { children: kids, text, end: pos };
        }
        assert(tv[pos as int] == toks@[pos as int]@);
        match &toks[pos] {
            XmlToken::End => {
                assert(views(kids@) + Seq::<XmlNodeView>::empty() =~= views(kids@));
                return Content { children: kids, text, end: pos + 1 };
            },
            XmlToken::Start { name, attrs } => {
                let inner = read_content(toks, pos + 1);
                let node = XmlNode {
                    name: copy_name(name),
                    attrs: copy_attrs(attrs),
                    children: inner.children,
                    text: inner.text,
                };
                proof {
                    lemma_content_end(tv, pos + 1);
                    lemma_node_children(node);
                    lemma_views_push(kids@, node);
                    let rest = content_at(tv, inner.end as int);
                    assert(views(kids@).push(node@) + rest.children =~= views(kids@) + (seq![
                        node@,
                    ] + rest.children));
                    if inner.end as int >= toks.len() {
                        assert(seq![node@] + rest.children =~= seq![node@]);
                    }
                }
                kids.push(node);
                pos = inner.end;
            },
            XmlToken::Text(t) => {
                let ghost old_text = opt_view(text);
                text = append_text(text, t);
                proof {
                    let rest = content_at(tv, pos + 1);
                    lemma_join_assoc(old_text, t@, rest.text);
                }
                pos += 1;
            },
            XmlToken::CData(t) => {
                let ghost old_text = opt_view(text);
                text = append_text(text, t);
                proof {
                    let rest = content_at(tv, pos + 1);
                    lemma_join_assoc(old_text, t@, rest.text);
                }
                pos += 1;
            },
            XmlToken::Other => {
                pos += 1;
            },
        }
    }
}

/// Joining character data does not depend on the grouping.
pub proof fn lemma_join_assoc(a: Option<Seq<char>>, t: Seq<char>, r: Option<Seq<char>>)
    ensures
        join_text(join_text(a, Some(t)), r) == join_text(a, join_text(Some(t), r)),
{
    match (a, r) {
        (Some(x), Some(y)) => {
            assert((x + t) + y =~= x + (t + y));
        },
        _ => {},
    }
}

/// Builds the document element from a token stream.
pub fn build_tree(toks: &Vec<XmlToken>) -> (r: Result<XmlNode, XmlError>)
    ensures
        match r {
            Ok(n) => tree_of(views(toks@)) == Some(n@),
            Err(e) => tree_of(views(toks@)) is None && e is NoContent,
        },
{
    let ghost tv = views(toks@);
    let mut i: usize = 0;
    while i < toks.len()
        invariant
            i <= toks.len(),
            tv == views(toks@),
            first_start(tv, 0) == first_start(tv, i as int),
        decreases toks.len() - i,
    {
        assert(tv[i as int] == toks@[i as int]@);
        match &toks[i] {
            XmlToken::Start { name, attrs } => {
                let inner = read_content(toks, i + 1);
                let node = XmlNode {
                    name: copy_name(name),
                    attrs: copy_attrs(attrs),
                    children: inner.children,
                    text: inner.text,
                };
                proof {
                    lemma_node_children(node);
                }
                return Ok(node);
            },
            _ => {},
        }
        i += 1;
    }
    Err(XmlError::NoContent)
}

/// Value of the first attribute in `attrs[from..]` whose local name is
/// `name`, whatever its namespace.
pub open spec fn attr_from(attrs: Seq<XmlAttrView>, name: Seq<char>, from: int) -> Option<Seq<char>>
    decreases attrs.len() - from,
{
    if from < 0 || from >= attrs.len() {
        None
    } else if attrs[from].name.local_name == name {
        Some(attrs[from].value)
    } else {
        attr_from(attrs, name, from + 1)
    }
}

/// Value of the first attribute of `n` whose local name is `name`.
pub open spec fn attr_of(n: XmlNodeView, name: Seq<char>) -> Option<Seq<char>> {
    attr_from(n.attrs, name, 0)
}

/// Value of the first attribute in `attrs[from..]` with the given local name
/// and namespace.
pub open spec fn attr_ns_from(
    attrs: Seq<XmlAttrView>,
    name: Seq<char>,
    ns: Seq<char>,
    from: int,
) -> Option<Seq<char>>
    decreases attrs.len() - from,
{
    if from < 0 || from >= attrs.len() {
        None
    } else if attrs[from].name.local_name == name && attrs[from].name.namespace == Some(ns) {
        Some(attrs[from].value)
    } else {
        attr_ns_from(attrs, name, ns, from + 1)
    }
}

/// First element with local name `name` among `nodes[from..]` and their
/// descendants, in document order.
pub open spec fn find_in(nodes: Seq<XmlNodeView>, name: Seq<char>, from: int) -> Option<XmlNodeView>
    decreases nodes, nodes.len() - from,
{
    if from < 0 || from >= nodes.len() {
        None
    } else if nodes[from].name.local_name == name {
        Some(nodes[from])
    } else {
        match descendant_of(nodes[from], name) {
            Some(n) => Some(n),
            None => find_in(nodes, name, from + 1),
        }
    }
}

/// First descendant of `n` with local name `name`, in document order.
pub open spec fn descendant_of(n: XmlNodeView, name: Seq<char>) -> Option<XmlNodeView>
    decreases n, 0int,
{
    find_in(n.children, name, 0)
}

impl XmlNode {
    /// Value of the first attribute with the given local name, in any
    /// namespace.
    pub fn get_attr(&self, name: &str) -> (r: Option<String>)
        ensures
            opt_view(r) == attr_of(self@, name@),
    {
        let want = chars_of(name);
        let mut i: usize = 0;
        while i < self.attrs.len()
            invariant
                i <= self.attrs.len(),
                want@ == name@,
                attr_of(self@, name@) == attr_from(self@.attrs, name@, i as int),
                self@.attrs == views(self.attrs@),
            decreases self.attrs.len() - i,
        {
            let local = chars_of(self.attrs[i].name.local_name.as_str());
            assert(self@.attrs[i as int] == self.attrs@[i as int]@);
            if chars_eq(&local, &want) {
                return Some(self.attrs[i].value.clone());
            }
            i += 1;
        }
        None
    }

    /// Value of the first attribute with the given local name and namespace.
    pub fn get_attr_ns(&self, name: &str, ns: &str) -> (r: Option<String>)
        ensures
            opt_view(r) == attr_ns_from(self@.attrs, name@, ns@, 0),
    {
        let mut i: usize = 0;
        while i < self.attrs.len()
            invariant
                i <= self.attrs.len(),
                attr_ns_from(self@.attrs, name@, ns@, 0) == attr_ns_from(
                    self@.attrs,
                    name@,
                    ns@,
                    i as int,
                ),
                self@.attrs == views(self.attrs@),
            decreases self.attrs.len() - i,
        {
            assert(self@.attrs[i as int] == self.attrs@[i as int]@);
            let a = &self.attrs[i];
            let same_ns = match &a.name.namespace {
                Some(u) => str_eq(u.as_str(), ns),
                None => false,
            };
            if same_ns && str_eq(a.name.local_name.as_str(), name) {
                return Some(a.value.clone());
            }
            i += 1;
        }
        None
    }

    /// Whether the element's local name is `name`.
    pub fn is_named(&self, name: &str) -> (r: bool)
        ensures
            r == (self@.name.local_name == name@),
    {
        str_eq(self.name.local_name.as_str(), name)
    }

    /// First descendant with the given local name, in document order.
    pub fn find(&self, name: &str) -> (r: Option<&XmlNode>)
        ensures
            match r {
                Some(n) => descendant_of(self@, name@) == Some(n@),
                None => descendant_of(self@, name@) is None,
            },
        decreases self,
    {
        proof {
            lemma_node_children(*self);
        }
        let mut i: usize = 0;
        while i < self.children.len()
            invariant
                i <= self.children.len(),
                self@.children == views(self.children@),
                descendant_of(self@, name@) == find_in(self@.children, name@, i as int),
            decreases self.children.len() - i,
        {
            assert(self@.children[i as int] == self.children@[i as int]@);
            let child = &self.children[i];
            if child.is_named(name) {
                return Some(child);
            }
            match child.find(name) {
                Some(n) => {
                    return Some(n);
                },
                None => {},
            }
            i += 1;
        }
        None
    }
}

/// Why a document has no element tree: `Malformed` where the parser rejects
/// it, `NoContent` where it holds no element.
pub open spec fn xml_failure(bytes: Seq<u8>) -> XmlError {
    if xml_tokens(bytes) is None {
        XmlError::Malformed
    } else {
        XmlError::NoContent
    }
}

/// Outcome of reading a document, as a view.
pub open spec fn tree_outcome(r: Result<XmlNode, XmlError>) -> Option<XmlNodeView> {
    match r {
        Ok(n) => Some(n@),
        Err(_) => None,
    }
}

/// Parses an XML document into its element tree.
///
/// Fails with `Malformed` where the parser rejects the input and with
/// `NoContent` where the input holds no element.
pub fn parse_xml(bytes: &[u8]) -> (r: Result<XmlNode, XmlError>)
    ensures
        tree_outcome(r) == xml_tree(bytes@),
        r is Err ==> r->Err_0 == xml_failure(bytes@),
{
    match read_tokens(bytes) {
        Ok(toks) => build_tree(&toks),
        Err(e) => Err(e),
    }
}

} // verus!
