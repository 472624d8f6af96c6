//! Reading a WADL document into its parsed form.
use vstd::prelude::*;
use vstd::string::*;
use crate::ast::{
    Application, Doc, Grammar, Link, Method, Param, ParamStyle, Representation,
    RepresentationDef, RepresentationRef, Request, Resource, ResourceType, ResourceTypeRef,
    Resources, Response,
};
use crate::iri::{iri_reference_valid, IriReference};
use crate::media::{media_text, mime_parsed, MediaType};
use crate::model::{
    definitions_view, docs_view, links_view, options_view, params_view, representations_view,
    resources_view, responses_view, methods_view, type_refs_view, ApplicationView, DocView,
    LinkView, MethodView, OptionsView, ParamView, RepresentationDefView, RepresentationView,
    RequestView, ResourceTypeView, ResourceView, ResourcesView, ResponseView, TypeRefView,
};
use crate::options::Options;
use crate::text::{
    chars_of, opt_text, parse_i32, rows, slice_of, spec_parse_i32, spec_split, split_on, str_eq,
    string_of,
};
use crate::url::{url_parsed, Url};
use crate::xml::{spec_attribute, xml_parsed, XmlElement, XmlNode};

verus! {

/// The namespace of WADL documents.
pub const WADL_NS: &'static str = "http://wadl.dev.java.net/2009/02";

/// What kind of failure stopped the reading of a document.
#[derive(Debug, Clone, Copy, PartialEq, Eq, Structural)]
pub enum ErrorKind {
    /// The document is not well-formed XML.
    Xml,
    /// An attribute that must hold a URL holds none.
    Url,
    /// An attribute that must hold a media type holds none.
    Mime,
    /// An attribute that must hold an IRI reference holds none.
    Iri,
    /// An element lacks an attribute it must have, or holds what it may not hold.
    Invalid,
}

/// A failure to read a document.
#[derive(Debug)]
pub enum Error {
    /// The document is not well-formed XML.
    Xml(xmltree::ParseError),
    /// An attribute that must hold a URL holds none.
    Url(url::ParseError),
    /// An attribute that must hold a media type holds none.
    Mime(mime::FromStrError),
    /// An attribute that must hold an IRI reference holds none.
    Iri,
    /// An element lacks an attribute it must have, or holds what it may not hold.
    Invalid(String),
}

/// `Display` of `xmltree::ParseError` writes the error in words.
#[verifier::external_body]
fn xml_error_text(e: &xmltree::ParseError) -> String {
    format!("{}", e)
}

/// `Display` of `mime::FromStrError` writes the error in words.
#[verifier::external_body]
fn mime_error_text(e: &mime::FromStrError) -> String {
    format!("{}", e)
}

impl Error {
    /// The kind of the failure.
    pub open spec fn kind(&self) -> ErrorKind {
        match self {
            Error::Xml(_) => ErrorKind::Xml,
            Error::Url(_) => ErrorKind::Url,
            Error::Mime(_) => ErrorKind::Mime,
            Error::Iri => ErrorKind::Iri,
            Error::Invalid(_) => ErrorKind::Invalid,
        }
    }

    /// The kind of the failure.
    pub fn error_kind(&self) -> (r: ErrorKind)
        ensures
            r == self.kind(),
    {
        match self {
            Error::Xml(_) => ErrorKind::Xml,
            Error::Url(_) => ErrorKind::Url,
            Error::Mime(_) => ErrorKind::Mime,
            Error::Iri => ErrorKind::Iri,
            Error::Invalid(_) => ErrorKind::Invalid,
        }
    }

    /// The words that begin the message for each kind of failure.
    pub open spec fn spec_message_prefix(kind: ErrorKind) -> Seq<char> {
        match kind {
            ErrorKind::Xml => "XML error: "@,
            ErrorKind::Url => "URL error: "@,
            ErrorKind::Mime => "MIME error: "@,
            ErrorKind::Iri => "IRI error: "@,
            ErrorKind::Invalid => "Invalid document: "@,
        }
    }

    /// The failure in words: its kind, a colon, and what the parser that failed says.
    pub fn message(&self) -> (r: String)
        ensures
            Self::spec_message_prefix(self.kind()).is_prefix_of(r@),
    {
        match self {
            Error::Xml(e) => crate::text::cat2("XML error: ", xml_error_text(e).as_str()),
            Error::Url(e) => crate::text::cat2("URL error: ", crate::url::error_text(e).as_str()),
            Error::Mime(e) => crate::text::cat2("MIME error: ", mime_error_text(e).as_str()),
            Error::Iri => crate::text::cat2("IRI error: ", "not an IRI reference"),
            Error::Invalid(what) => crate::text::cat2("Invalid document: ", what.as_str()),
        }
    }
}

fn invalid(what: &str) -> (r: Error)
    ensures
        r.kind() == ErrorKind::Invalid,
{
    Error::Invalid(String::from_str(what))
}

/// The text of an attribute.
pub open spec fn attr_text(e: XmlElement, name: Seq<char>) -> Option<Seq<char>> {
    opt_text(spec_attribute(e.attributes@, name))
}

fn attr<'a>(e: &'a XmlElement, name: &str) -> (r: Option<&'a String>)
    ensures
        (match r {
            Some(s) => Some(s@),
            None => None,
        }) == attr_text(*e, name@),
{
    e.attribute(name)
}

fn attr_owned(e: &XmlElement, name: &str) -> (r: Option<String>)
    ensures
        opt_text(r) == attr_text(*e, name@),
{
    match e.attribute(name) {
        Some(s) => Some(s.clone()),
        None => None,
    }
}

/// Whether an attribute says `true`.
pub open spec fn attr_flag(e: XmlElement, name: Seq<char>) -> bool {
    attr_text(e, name) == Some("true"@)
}

fn flag(e: &XmlElement, name: &str) -> (r: bool)
    ensures
        r == attr_flag(*e, name@),
{
    match e.attribute(name) {
        Some(s) => str_eq(s.as_str(), "true"),
        None => false,
    }
}

/// The element behind a node, where the node is an element of the given name.
pub open spec fn named_element(node: XmlNode, name: Seq<char>) -> Option<XmlElement> {
    match node {
        XmlNode::Element(e) => if e.name@ == name {
            Some(e)
        } else {
            None
        },
        _ => None,
    }
}

fn as_named<'a>(node: &'a XmlNode, name: &str) -> (r: Option<&'a XmlElement>)
    ensures
        (match r {
            Some(e) => Some(*e),
            None => None,
        }) == named_element(*node, name@),
{
    match node {
        XmlNode::Element(e) => if e.is_named(name) {
            Some(e)
        } else {
            None
        },
        _ => None,
    }
}

/// The items so far before the items still to come, or the failure to come.
pub open spec fn prepend<V>(acc: Seq<V>, rest: Result<Seq<V>, ErrorKind>) -> Result<
    Seq<V>,
    ErrorKind,
> {
    match rest {
        Ok(r) => Ok(acc + r),
        Err(k) => Err(k),
    }
}

/// The content of documentation: the text of its text nodes and the markup of its
/// elements, in their order. An element that cannot be written as markup is a failure.
pub open spec fn spec_doc_content(nodes: Seq<XmlNode>) -> Result<Seq<char>, ErrorKind>
    decreases nodes.len(),
{
    if nodes.len() == 0 {
        Ok(Seq::empty())
    } else {
        match (match nodes[0] {
            XmlNode::Text(t) => Ok(t@),
            XmlNode::Element(e) => match e.spec_markup() {
                Some(m) => Ok(m),
                None => Err(ErrorKind::Invalid),
            },
            _ => Ok(Seq::<char>::empty()),
        }) {
            Err(k) => Err(k),
            Ok(first) => match spec_doc_content(nodes.skip(1)) {
                Err(k) => Err(k),
                Ok(rest) => Ok(first + rest),
            },
        }
    }
}

fn doc_content(nodes: &Vec<XmlNode>) -> (r: Result<String, Error>)
    ensures
        match r {
            Ok(s) => Ok(s@),
            Err(e) => Err(e.kind()),
        } == spec_doc_content(nodes@),
{
    let mut out = String::new();
    let mut i: usize = 0;
    assert(nodes@.skip(0) =~= nodes@);
    while i < nodes.len()
        invariant
            i <= nodes.len(),
            spec_doc_content(nodes@) == (match spec_doc_content(nodes@.skip(i as int)) {
                Ok(rest) => Ok(out@ + rest),
                Err(k) => Err(k),
            }),
        decreases nodes.len() - i,
    {
        let ghost rest = nodes@.skip(i as int);
        assert(rest[0] == nodes@[i as int]);
        assert(rest.skip(1) =~= nodes@.skip(i + 1));
        let ghost before = out@;
        let ghost mut first = Seq::<char>::empty();
        match &nodes[i] {
            XmlNode::Text(t) => {
                proof {
                    first = t@;
                }
                out.append(t.as_str());
            },
            XmlNode::Element(e) => match e.markup() {
                Some(m) => {
                    proof {
                        first = m@;
                    }
                    out.append(m.as_str());
                },
                None => {
                    assert(spec_doc_content(rest) == Err::<Seq<char>, ErrorKind>(
                        ErrorKind::Invalid,
                    ));
                    return Err(invalid("an element in documentation cannot be written"));
                },
            },
            _ => {
                assert(out@ =~= before + Seq::<char>::empty());
            },
        }
        proof {
            assert(out@ == before + first);
            if let Ok(t) = spec_doc_content(rest.skip(1)) {
                assert(spec_doc_content(rest) == Ok::<Seq<char>, ErrorKind>(first + t));
                assert(before + (first + t) =~= out@ + t);
            } else {
                assert(spec_doc_content(rest) is Err);
            }
        }
        i = i + 1;
    }
    assert(out@ + Seq::<char>::empty() =~= out@);
    Ok(out)
}

/// What a `doc` element says: its title, its language, its content, and the namespace of
/// names without a prefix where it is in one, which must be a URL.
#[verifier::opaque]
pub open spec fn spec_parse_doc(e: XmlElement) -> Result<DocView, ErrorKind> {
    match spec_doc_content(e.children@) {
        Err(k) => Err(k),
        Ok(content) => match e.spec_namespace(""@) {
            None => Ok(
                DocView {
                    title: attr_text(e, "title"@),
                    lang: attr_text(e, "lang"@),
                    content,
                    xmlns: None,
                },
            ),
            Some(ns) => match url_parsed(ns) {
                None => Err(ErrorKind::Url),
                Some(u) => Ok(
                    DocView {
                        title: attr_text(e, "title"@),
                        lang: attr_text(e, "lang"@),
                        content,
                        xmlns: Some(u),
                    },
                ),
            },
        },
    }
}

/// Reads a `doc` element.
pub fn parse_doc(e: &XmlElement) -> (r: Result<Doc, Error>)
    ensures
        match r {
            Ok(d) => Ok(d@),
            Err(e) => Err(e.kind()),
        } == spec_parse_doc(*e),
{
    reveal(spec_parse_doc);
    let content = match doc_content(&e.children) {
        Ok(c) => c,
        Err(e) => {
            return Err(e);
        },
    };
    let xmlns = match e.namespace("") {
        None => None,
        Some(ns) => match Url::parse(ns.as_str()) {
            Ok(u) => Some(u),
            Err(e) => {
                return Err(Error::Url(e));
            },
        },
    };
    Ok(Doc { title: attr_owned(e, "title"), lang: attr_owned(e, "lang"), content, xmlns })
}

/// What the `doc` children of an element say, in their order.
pub open spec fn spec_parse_docs(nodes: Seq<XmlNode>) -> Result<Seq<DocView>, ErrorKind>
    decreases nodes.len(),
{
    if nodes.len() == 0 {
        Ok(Seq::empty())
    } else {
        match named_element(nodes[0], "doc"@) {
            None => spec_parse_docs(nodes.skip(1)),
            Some(e) => match spec_parse_doc(e) {
                Err(k) => Err(k),
                Ok(d) => prepend(seq![d], spec_parse_docs(nodes.skip(1))),
            },
        }
    }
}

/// Reads the `doc` children of an element.
pub fn parse_docs(element: &XmlElement) -> (r: Result<Vec<Doc>, Error>)
    ensures
        match r {
            Ok(v) => Ok(docs_view(v@)),
            Err(e) => Err(e.kind()),
        } == spec_parse_docs(element.children@),
{
    let nodes = &element.children;
    let mut out: Vec<Doc> = Vec::new();
    let mut i: usize = 0;
    assert(nodes@.skip(0) =~= nodes@);
    assert(docs_view(out@) =~= Seq::<DocView>::empty());
    while i < nodes.len()
        invariant
            i <= nodes.len(),
            nodes == &element.children,
            spec_parse_docs(nodes@) == prepend(
                docs_view(out@),
                spec_parse_docs(nodes@.skip(i as int)),
            ),
        decreases nodes.len() - i,
    {
        let ghost rest = nodes@.skip(i as int);
        assert(rest[0] == nodes@[i as int]);
        assert(rest.skip(1) =~= nodes@.skip(i + 1));
        match as_named(&nodes[i], "doc") {
            None => {},
            Some(e) => match parse_doc(e) {
                Err(e) => {
                    assert(spec_parse_docs(rest) == Err::<Seq<DocView>, ErrorKind>(e.kind()));
                    return Err(e);
                },
                Ok(d) => {
                    proof {
                        if let Ok(t) = spec_parse_docs(rest.skip(1)) {
                            assert(docs_view(out@) + (seq![d@] + t) =~= docs_view(out@.push(d)) + t);
                        }
                    }
                    out.push(d);
                },
            },
        }
        i = i + 1;
    }
    assert(docs_view(out@) + Seq::<DocView>::empty() =~= docs_view(out@));
    Ok(out)
}

/// The one documentation of an item that may have one: more than one is a failure.
pub open spec fn spec_single_doc(docs: Result<Seq<DocView>, ErrorKind>) -> Result<
    Option<DocView>,
    ErrorKind,
> {
    match docs {
        Err(k) => Err(k),
        Ok(d) => if d.len() == 0 {
            Ok(None)
        } else if d.len() == 1 {
            Ok(Some(d[0]))
        } else {
            Err(ErrorKind::Invalid)
        },
    }
}

/// Reads the one `doc` child that an element may have.
pub fn single_doc(element: &XmlElement) -> (r: Result<Option<Doc>, Error>)
    ensures
        match r {
            Ok(d) => Ok(crate::model::opt_doc_view(d)),
            Err(e) => Err(e.kind()),
        } == spec_single_doc(spec_parse_docs(element.children@)),
{
    let mut docs = match parse_docs(element) {
        Ok(d) => d,
        Err(e) => {
            return Err(e);
        },
    };
    if docs.len() == 0 {
        Ok(None)
    } else if docs.len() == 1 {
        let ghost v = docs_view(docs@);
        assert(v[0] == docs@[0]@);
        let d = docs.pop();
        Ok(d)
    } else {
        Err(invalid("more than one doc where one is allowed"))
    }
}


/// What a text says as a reference to a resource type: nothing where it is empty, an id
/// after `#`, and else a link, which must be a URL.
pub open spec fn spec_type_ref(text: Seq<char>) -> Result<TypeRefView, ErrorKind> {
    if text.len() == 0 {
        Ok(TypeRefView::Empty)
    } else if text[0] == '#' {
        Ok(TypeRefView::Id(text.skip(1)))
    } else {
        match url_parsed(text) {
            Some(u) => Ok(TypeRefView::Link(u)),
            None => Err(ErrorKind::Url),
        }
    }
}

fn type_ref(text: &str) -> (r: Result<ResourceTypeRef, Error>)
    ensures
        match r {
            Ok(t) => Ok(t@),
            Err(e) => Err(e.kind()),
        } == spec_type_ref(text@),
{
    match ResourceTypeRef::parse(text) {
        Ok(t) => Ok(t),
        Err(e) => Err(Error::Url(e)),
    }
}

/// What a `link` element says: the resource type it names, where it names one, its two
/// relations and its documentation.
#[verifier::opaque]
pub open spec fn spec_parse_link(e: XmlElement) -> Result<LinkView, ErrorKind> {
    match (match attr_text(e, "resource_type"@) {
        Some(t) => match spec_type_ref(t) {
            Ok(r) => Ok(Some(r)),
            Err(k) => Err(k),
        },
        None => Ok(None),
    }) {
        Err(k) => Err(k),
        Ok(resource_type) => match spec_single_doc(spec_parse_docs(e.children@)) {
            Err(k) => Err(k),
            Ok(doc) => Ok(
                LinkView {
                    resource_type,
                    relation: attr_text(e, "rel"@),
                    reverse_relation: attr_text(e, "rev"@),
                    doc,
                },
            ),
        },
    }
}

/// Reads a `link` element.
pub fn parse_link(e: &XmlElement) -> (r: Result<Link, Error>)
    ensures
        match r {
            Ok(l) => Ok(l@),
            Err(e) => Err(e.kind()),
        } == spec_parse_link(*e),
{
    reveal(spec_parse_link);
    let resource_type = match attr(e, "resource_type") {
        Some(t) => match type_ref(t.as_str()) {
            Ok(r) => Some(r),
            Err(e) => {
                return Err(e);
            },
        },
        None => None,
    };
    let doc = match single_doc(e) {
        Ok(d) => d,
        Err(e) => {
            return Err(e);
        },
    };
    Ok(
        Link {
            resource_type,
            relation: attr_owned(e, "rel"),
            reverse_relation: attr_owned(e, "rev"),
            doc,
        },
    )
}

/// What the `link` children of an element say, in their order.
pub open spec fn spec_parse_links(nodes: Seq<XmlNode>) -> Result<Seq<LinkView>, ErrorKind>
    decreases nodes.len(),
{
    if nodes.len() == 0 {
        Ok(Seq::empty())
    } else {
        match named_element(nodes[0], "link"@) {
            None => spec_parse_links(nodes.skip(1)),
            Some(e) => match spec_parse_link(e) {
                Err(k) => Err(k),
                Ok(d) => prepend(seq![d], spec_parse_links(nodes.skip(1))),
            },
        }
    }
}

/// Reads the `link` children of an element.
pub fn parse_links(element: &XmlElement) -> (r: Result<Vec<Link>, Error>)
    ensures
        match r {
            Ok(v) => Ok(links_view(v@)),
            Err(e) => Err(e.kind()),
        } == spec_parse_links(element.children@),
{
    let nodes = &element.children;
    let mut out: Vec<Link> = Vec::new();
    let mut i: usize = 0;
    assert(nodes@.skip(0) =~= nodes@);
    assert(links_view(out@) =~= Seq::<LinkView>::empty());
    while i < nodes.len()
        invariant
            i <= nodes.len(),
            nodes == &element.children,
            spec_parse_links(nodes@) == prepend(
                links_view(out@),
                spec_parse_links(nodes@.skip(i as int)),
            ),
        decreases nodes.len() - i,
    {
        let ghost rest = nodes@.skip(i as int);
        assert(rest[0] == nodes@[i as int]);
        assert(rest.skip(1) =~= nodes@.skip(i + 1));
        match as_named(&nodes[i], "link") {
            None => {},
            Some(e) => match parse_link(e) {
                Err(e) => {
                    assert(spec_parse_links(rest) == Err::<Seq<LinkView>, ErrorKind>(e.kind()));
                    return Err(e);
                },
                Ok(d) => {
                    proof {
                        if let Ok(t) = spec_parse_links(rest.skip(1)) {
                            assert(links_view(out@) + (seq![d@] + t) =~= links_view(out@.push(d)) + t);
                        }
                    }
                    out.push(d);
                },
            },
        }
        i = i + 1;
    }
    assert(links_view(out@) + Seq::<LinkView>::empty() =~= links_view(out@));
    Ok(out)
}

/// A set of options after one more value is permitted.
pub open spec fn spec_options_insert(o: OptionsView, key: Seq<char>, media: Option<Seq<char>>) -> OptionsView {
    OptionsView {
        keys: if o.map.contains_key(key) {
            o.keys
        } else {
            o.keys.push(key)
        },
        map: o.map.insert(key, media),
    }
}

/// What an `option` element says: a value, which it must have, and the media type that
/// the value stands for where it names one, which must be a media type.
#[verifier::opaque]
pub open spec fn spec_parse_option(e: XmlElement) -> Result<(Seq<char>, Option<Seq<char>>), ErrorKind> {
    match attr_text(e, "mediaType"@) {
        Some(m) => match mime_parsed(m) {
            None => Err(ErrorKind::Mime),
            Some(media) => match attr_text(e, "value"@) {
                Some(v) => Ok((v, Some(media))),
                None => Err(ErrorKind::Invalid),
            },
        },
        None => match attr_text(e, "value"@) {
            Some(v) => Ok((v, None)),
            None => Err(ErrorKind::Invalid),
        },
    }
}

/// The set of options after the `option` children of an element are permitted, in
/// their order.
pub open spec fn spec_options_from(acc: OptionsView, nodes: Seq<XmlNode>) -> Result<
    OptionsView,
    ErrorKind,
>
    decreases nodes.len(),
{
    if nodes.len() == 0 {
        Ok(acc)
    } else {
        match named_element(nodes[0], "option"@) {
            None => spec_options_from(acc, nodes.skip(1)),
            Some(e) => match spec_parse_option(e) {
                Err(k) => Err(k),
                Ok((key, media)) => spec_options_from(
                    spec_options_insert(acc, key, media),
                    nodes.skip(1),
                ),
            },
        }
    }
}

/// The options that the `option` children of an element give: none where there is no
/// such child.
pub open spec fn spec_parse_options(nodes: Seq<XmlNode>) -> Result<Option<OptionsView>, ErrorKind> {
    match spec_options_from(
        OptionsView { keys: Seq::empty(), map: Map::empty() },
        nodes,
    ) {
        Err(k) => Err(k),
        Ok(o) => if o.keys.len() == 0 {
            Ok(None)
        } else {
            Ok(Some(o))
        },
    }
}

/// The options of a parameter that may have none, by their values.
pub open spec fn opt_options_view(o: Option<Options>) -> Option<OptionsView> {
    match o {
        Some(o) => Some(options_view(o)),
        None => None,
    }
}

fn parse_option(e: &XmlElement) -> (r: Result<(String, Option<MediaType>), Error>)
    ensures
        match r {
            Ok(p) => Ok((p.0@, media_text(p.1))),
            Err(e) => Err(e.kind()),
        } == spec_parse_option(*e),
{
    reveal(spec_parse_option);
    let media = match attr(e, "mediaType") {
        Some(m) => match MediaType::parse(m.as_str()) {
            Ok(media) => Some(media),
            Err(e) => {
                return Err(Error::Mime(e));
            },
        },
        None => None,
    };
    match attr_owned(e, "value") {
        Some(v) => Ok((v, media)),
        None => Err(invalid("an option without a value")),
    }
}

/// Reads the options that the `option` children of an element give.
pub fn parse_options(element: &XmlElement) -> (r: Result<Option<Options>, Error>)
    ensures
        match r {
            Ok(o) => Ok(opt_options_view(o)),
            Err(e) => Err(e.kind()),
        } == spec_parse_options(element.children@),
{
    let nodes = &element.children;
    let mut out = Options::new();
    let ghost empty = OptionsView { keys: Seq::empty(), map: Map::empty() };
    let mut i: usize = 0;
    assert(nodes@.skip(0) =~= nodes@);
    while i < nodes.len()
        invariant
            i <= nodes.len(),
            nodes == &element.children,
            empty == (OptionsView { keys: Seq::empty(), map: Map::empty() }),
            spec_options_from(empty, nodes@) == spec_options_from(
                options_view(out),
                nodes@.skip(i as int),
            ),
        decreases nodes.len() - i,
    {
        let ghost rest = nodes@.skip(i as int);
        assert(rest[0] == nodes@[i as int]);
        assert(rest.skip(1) =~= nodes@.skip(i + 1));
        match as_named(&nodes[i], "option") {
            None => {},
            Some(e) => match parse_option(e) {
                Err(e) => {
                    assert(spec_options_from(options_view(out), rest) == Err::<
                        OptionsView,
                        ErrorKind,
                    >(e.kind()));
                    return Err(e);
                },
                Ok((key, media)) => {
                    out.insert(key, media);
                },
            },
        }
        i = i + 1;
    }
    if out.is_empty() {
        Ok(None)
    } else {
        Ok(Some(out))
    }
}

/// The style that a text names.
pub open spec fn spec_style(text: Option<Seq<char>>) -> Option<ParamStyle> {
    if text == Some("plain"@) {
        Some(ParamStyle::Plain)
    } else if text == Some("matrix"@) {
        Some(ParamStyle::Matrix)
    } else if text == Some("query"@) {
        Some(ParamStyle::Query)
    } else if text == Some("header"@) {
        Some(ParamStyle::Header)
    } else if text == Some("template"@) {
        Some(ParamStyle::Template)
    } else {
        None
    }
}

fn style_of(e: &XmlElement) -> (r: Option<ParamStyle>)
    ensures
        r == spec_style(attr_text(*e, "style"@)),
{
    match attr(e, "style") {
        None => None,
        Some(s) => {
            let text = s.as_str();
            if str_eq(text, "plain") {
                Some(ParamStyle::Plain)
            } else if str_eq(text, "matrix") {
                Some(ParamStyle::Matrix)
            } else if str_eq(text, "query") {
                Some(ParamStyle::Query)
            } else if str_eq(text, "header") {
                Some(ParamStyle::Header)
            } else if str_eq(text, "template") {
                Some(ParamStyle::Template)
            } else {
                None
            }
        },
    }
}

/// The text of an attribute, or the empty text where the element has no such attribute.
pub open spec fn attr_or_empty(e: XmlElement, name: Seq<char>) -> Seq<char> {
    match attr_text(e, name) {
        Some(t) => t,
        None => Seq::empty(),
    }
}

fn attr_or_new(e: &XmlElement, name: &str) -> (r: String)
    ensures
        r@ == attr_or_empty(*e, name@),
{
    match attr(e, name) {
        Some(t) => t.clone(),
        None => String::new(),
    }
}

/// What a `param` element says. It must name one of the five styles and have a name; its
/// declared type is empty where it gives none; it is required, or repeating, where the
/// attribute says `true`.
#[verifier::opaque]
pub open spec fn spec_parse_param(e: XmlElement) -> Result<ParamView, ErrorKind> {
    match spec_style(attr_text(e, "style"@)) {
        None => Err(ErrorKind::Invalid),
        Some(style) => match spec_parse_options(e.children@) {
            Err(k) => Err(k),
            Ok(options) => match spec_parse_links(e.children@) {
                Err(k) => Err(k),
                Ok(links) => match attr_text(e, "name"@) {
                    None => Err(ErrorKind::Invalid),
                    Some(name) => match spec_single_doc(spec_parse_docs(e.children@)) {
                        Err(k) => Err(k),
                        Ok(doc) => Ok(
                            ParamView {
                                style,
                                id: attr_text(e, "id"@),
                                name,
                                declared_type: attr_or_empty(e, "type"@),
                                path: attr_text(e, "path"@),
                                required: attr_flag(e, "required"@),
                                repeating: attr_flag(e, "repeating"@),
                                fixed: attr_text(e, "fixed"@),
                                doc,
                                links,
                                options,
                            },
                        ),
                    },
                },
            },
        },
    }
}

/// Reads a `param` element.
pub fn parse_param(e: &XmlElement) -> (r: Result<Param, Error>)
    ensures
        match r {
            Ok(p) => Ok(p@),
            Err(e) => Err(e.kind()),
        } == spec_parse_param(*e),
{
    reveal(spec_parse_param);
    let style = match style_of(e) {
        Some(s) => s,
        None => {
            return Err(invalid("a param without a known style"));
        },
    };
    let options = match parse_options(e) {
        Ok(o) => o,
        Err(e) => {
            return Err(e);
        },
    };
    let links = match parse_links(e) {
        Ok(l) => l,
        Err(e) => {
            return Err(e);
        },
    };
    let name = match attr_owned(e, "name") {
        Some(n) => n,
        None => {
            return Err(invalid("a param without a name"));
        },
    };
    let doc = match single_doc(e) {
        Ok(d) => d,
        Err(e) => {
            return Err(e);
        },
    };
    Ok(
        Param {
            style,
            id: attr_owned(e, "id"),
            name,
            declared_type: attr_or_new(e, "type"),
            path: attr_owned(e, "path"),
            required: flag(e, "required"),
            repeating: flag(e, "repeating"),
            fixed: attr_owned(e, "fixed"),
            doc,
            links,
            options,
        },
    )
}

/// What the `param` children of an element say, in their order.
pub open spec fn spec_parse_params(nodes: Seq<XmlNode>) -> Result<Seq<ParamView>, ErrorKind>
    decreases nodes.len(),
{
    if nodes.len() == 0 {
        Ok(Seq::empty())
    } else {
        match named_element(nodes[0], "param"@) {
            None => spec_parse_params(nodes.skip(1)),
            Some(e) => match spec_parse_param(e) {
                Err(k) => Err(k),
                Ok(d) => prepend(seq![d], spec_parse_params(nodes.skip(1))),
            },
        }
    }
}

/// Reads the `param` children of an element.
pub fn parse_params(element: &XmlElement) -> (r: Result<Vec<Param>, Error>)
    ensures
        match r {
            Ok(v) => Ok(params_view(v@)),
            Err(e) => Err(e.kind()),
        } == spec_parse_params(element.children@),
{
    let nodes = &element.children;
    let mut out: Vec<Param> = Vec::new();
    let mut i: usize = 0;
    assert(nodes@.skip(0) =~= nodes@);
    assert(params_view(out@) =~= Seq::<ParamView>::empty());
    while i < nodes.len()
        invariant
            i <= nodes.len(),
            nodes == &element.children,
            spec_parse_params(nodes@) == prepend(
                params_view(out@),
                spec_parse_params(nodes@.skip(i as int)),
            ),
        decreases nodes.len() - i,
    {
        let ghost rest = nodes@.skip(i as int);
        assert(rest[0] == nodes@[i as int]);
        assert(rest.skip(1) =~= nodes@.skip(i + 1));
        match as_named(&nodes[i], "param") {
            None => {},
            Some(e) => match parse_param(e) {
                Err(e) => {
                    assert(spec_parse_params(rest) == Err::<Seq<ParamView>, ErrorKind>(e.kind()));
                    return Err(e);
                },
                Ok(d) => {
                    proof {
                        if let Ok(t) = spec_parse_params(rest.skip(1)) {
                            assert(params_view(out@) + (seq![d@] + t) =~= params_view(out@.push(d)) + t);
                        }
                    }
                    out.push(d);
                },
            },
        }
        i = i + 1;
    }
    assert(params_view(out@) + Seq::<ParamView>::empty() =~= params_view(out@));
    Ok(out)
}

/// What a `representation` element says. With an `href` it is a reference: by id after
/// `#`, else by link, which must be a URL. Without, it is a definition.
#[verifier::opaque]
pub open spec fn spec_parse_representation(e: XmlElement) -> Result<RepresentationView, ErrorKind> {
    match attr_text(e, "href"@) {
        Some(href) => if href.len() > 0 && href[0] == '#' {
            Ok(RepresentationView::ReferenceId(href.skip(1)))
        } else {
            match url_parsed(href) {
                Some(u) => Ok(RepresentationView::ReferenceLink(u)),
                None => Err(ErrorKind::Url),
            }
        },
        None => match (match attr_text(e, "mediaType"@) {
            Some(m) => match mime_parsed(m) {
                Some(media) => Ok(Some(media)),
                None => Err(ErrorKind::Mime),
            },
            None => Ok(None),
        }) {
            Err(k) => Err(k),
            Ok(media_type) => match spec_parse_docs(e.children@) {
                Err(k) => Err(k),
                Ok(docs) => match spec_parse_params(e.children@) {
                    Err(k) => Err(k),
                    Ok(params) => Ok(
                        RepresentationView::Definition(
                            RepresentationDefView {
                                id: attr_text(e, "id"@),
                                media_type,
                                element: attr_text(e, "element"@),
                                profile: attr_text(e, "profile"@),
                                docs,
                                params,
                            },
                        ),
                    ),
                },
            },
        },
    }
}

/// Reads a `representation` element.
pub fn parse_representation(e: &XmlElement) -> (r: Result<Representation, Error>)
    ensures
        match r {
            Ok(p) => Ok(p@),
            Err(e) => Err(e.kind()),
        } == spec_parse_representation(*e),
{
    reveal(spec_parse_representation);
    match attr(e, "href") {
        Some(href) => {
            let chars = chars_of(href.as_str());
            if chars.len() > 0 && chars[0] == '#' {
                let rest = slice_of(&chars, 1, chars.len());
                assert(rest@ =~= href@.skip(1));
                Ok(Representation::Reference(RepresentationRef::Id(string_of(&rest))))
            } else {
                match Url::parse(href.as_str()) {
                    Ok(u) => Ok(Representation::Reference(RepresentationRef::Link(u))),
                    Err(e) => Err(Error::Url(e)),
                }
            }
        },
        None => {
            let media_type = match attr(e, "mediaType") {
                Some(m) => match MediaType::parse(m.as_str()) {
                    Ok(media) => Some(media),
                    Err(e) => {
                        return Err(Error::Mime(e));
                    },
                },
                None => None,
            };
            let docs = match parse_docs(e) {
                Ok(d) => d,
                Err(e) => {
                    return Err(e);
                },
            };
            let params = match parse_params(e) {
                Ok(p) => p,
                Err(e) => {
                    return Err(e);
                },
            };
            Ok(
                Representation::Definition(
                    RepresentationDef {
                        id: attr_owned(e, "id"),
                        media_type,
                        element: attr_owned(e, "element"),
                        profile: attr_owned(e, "profile"),
                        docs,
                        params,
                    },
                ),
            )
        },
    }
}

/// What the `representation` children of an element say, in their order.
pub open spec fn spec_parse_representations(nodes: Seq<XmlNode>) -> Result<Seq<RepresentationView>, ErrorKind>
    decreases nodes.len(),
{
    if nodes.len() == 0 {
        Ok(Seq::empty())
    } else {
        match named_element(nodes[0], "representation"@) {
            None => spec_parse_representations(nodes.skip(1)),
            Some(e) => match spec_parse_representation(e) {
                Err(k) => Err(k),
                Ok(d) => prepend(seq![d], spec_parse_representations(nodes.skip(1))),
            },
        }
    }
}

/// Reads the `representation` children of an element.
pub fn parse_representations(element: &XmlElement) -> (r: Result<Vec<Representation>, Error>)
    ensures
        match r {
            Ok(v) => Ok(representations_view(v@)),
            Err(e) => Err(e.kind()),
        } == spec_parse_representations(element.children@),
{
    let nodes = &element.children;
    let mut out: Vec<Representation> = Vec::new();
    let mut i: usize = 0;
    assert(nodes@.skip(0) =~= nodes@);
    assert(representations_view(out@) =~= Seq::<RepresentationView>::empty());
    while i < nodes.len()
        invariant
            i <= nodes.len(),
            nodes == &element.children,
            spec_parse_representations(nodes@) == prepend(
                representations_view(out@),
                spec_parse_representations(nodes@.skip(i as int)),
            ),
        decreases nodes.len() - i,
    {
        let ghost rest = nodes@.skip(i as int);
        assert(rest[0] == nodes@[i as int]);
        assert(rest.skip(1) =~= nodes@.skip(i + 1));
        match as_named(&nodes[i], "representation") {
            None => {},
            Some(e) => match parse_representation(e) {
                Err(e) => {
                    assert(spec_parse_representations(rest) == Err::<Seq<RepresentationView>, ErrorKind>(e.kind()));
                    return Err(e);
                },
                Ok(d) => {
                    proof {
                        if let Ok(t) = spec_parse_representations(rest.skip(1)) {
                            assert(representations_view(out@) + (seq![d@] + t) =~= representations_view(out@.push(d)) + t);
                        }
                    }
                    out.push(d);
                },
            },
        }
        i = i + 1;
    }
    assert(representations_view(out@) + Seq::<RepresentationView>::empty() =~= representations_view(out@));
    Ok(out)
}

/// What a `response` element says. Its status, where it names one, must be a number.
#[verifier::opaque]
pub open spec fn spec_parse_response(e: XmlElement) -> Result<ResponseView, ErrorKind> {
    match spec_parse_docs(e.children@) {
        Err(k) => Err(k),
        Ok(docs) => match spec_parse_representations(e.children@) {
            Err(k) => Err(k),
            Ok(representations) => match (match attr_text(e, "status"@) {
                Some(s) => match spec_parse_i32(s) {
                    Some(n) => Ok(Some(n)),
                    None => Err(ErrorKind::Invalid),
                },
                None => Ok(None),
            }) {
                Err(k) => Err(k),
                Ok(status) => match spec_parse_params(e.children@) {
                    Err(k) => Err(k),
                    Ok(params) => Ok(ResponseView { docs, params, status, representations }),
                },
            },
        },
    }
}

/// Reads a `response` element.
pub fn parse_response(e: &XmlElement) -> (r: Result<Response, Error>)
    ensures
        match r {
            Ok(p) => Ok(p@),
            Err(e) => Err(e.kind()),
        } == spec_parse_response(*e),
{
    reveal(spec_parse_response);
    let docs = match parse_docs(e) {
        Ok(d) => d,
        Err(e) => {
            return Err(e);
        },
    };
    let representations = match parse_representations(e) {
        Ok(d) => d,
        Err(e) => {
            return Err(e);
        },
    };
    let status = match attr(e, "status") {
        Some(s) => match parse_i32(s.as_str()) {
            Some(n) => Some(n),
            None => {
                return Err(invalid("a status that is no number"));
            },
        },
        None => None,
    };
    let params = match parse_params(e) {
        Ok(d) => d,
        Err(e) => {
            return Err(e);
        },
    };
    Ok(Response { docs, params, status, representations })
}

/// What the `response` children of an element say, in their order.
pub open spec fn spec_parse_responses(nodes: Seq<XmlNode>) -> Result<Seq<ResponseView>, ErrorKind>
    decreases nodes.len(),
{
    if nodes.len() == 0 {
        Ok(Seq::empty())
    } else {
        match named_element(nodes[0], "response"@) {
            None => spec_parse_responses(nodes.skip(1)),
            Some(e) => match spec_parse_response(e) {
                Err(k) => Err(k),
                Ok(d) => prepend(seq![d], spec_parse_responses(nodes.skip(1))),
            },
        }
    }
}

/// Reads the `response` children of an element.
pub fn parse_responses(element: &XmlElement) -> (r: Result<Vec<Response>, Error>)
    ensures
        match r {
            Ok(v) => Ok(responses_view(v@)),
            Err(e) => Err(e.kind()),
        } == spec_parse_responses(element.children@),
{
    let nodes = &element.children;
    let mut out: Vec<Response> = Vec::new();
    let mut i: usize = 0;
    assert(nodes@.skip(0) =~= nodes@);
    assert(responses_view(out@) =~= Seq::<ResponseView>::empty());
    while i < nodes.len()
        invariant
            i <= nodes.len(),
            nodes == &element.children,
            spec_parse_responses(nodes@) == prepend(
                responses_view(out@),
                spec_parse_responses(nodes@.skip(i as int)),
            ),
        decreases nodes.len() - i,
    {
        let ghost rest = nodes@.skip(i as int);
        assert(rest[0] == nodes@[i as int]);
        assert(rest.skip(1) =~= nodes@.skip(i + 1));
        match as_named(&nodes[i], "response") {
            None => {},
            Some(e) => match parse_response(e) {
                Err(e) => {
                    assert(spec_parse_responses(rest) == Err::<Seq<ResponseView>, ErrorKind>(e.kind()));
                    return Err(e);
                },
                Ok(d) => {
                    proof {
                        if let Ok(t) = spec_parse_responses(rest.skip(1)) {
                            assert(responses_view(out@) + (seq![d@] + t) =~= responses_view(out@.push(d)) + t);
                        }
                    }
                    out.push(d);
                },
            },
        }
        i = i + 1;
    }
    assert(responses_view(out@) + Seq::<ResponseView>::empty() =~= responses_view(out@));
    Ok(out)
}

/// What a `request` element says.
#[verifier::opaque]
pub open spec fn spec_parse_request(e: XmlElement) -> Result<RequestView, ErrorKind> {
    match spec_parse_docs(e.children@) {
        Err(k) => Err(k),
        Ok(docs) => match spec_parse_params(e.children@) {
            Err(k) => Err(k),
            Ok(params) => match spec_parse_representations(e.children@) {
                Err(k) => Err(k),
                Ok(representations) => Ok(RequestView { docs, params, representations }),
            },
        },
    }
}

/// Reads a `request` element.
pub fn parse_request(e: &XmlElement) -> (r: Result<Request, Error>)
    ensures
        match r {
            Ok(p) => Ok(p@),
            Err(e) => Err(e.kind()),
        } == spec_parse_request(*e),
{
    reveal(spec_parse_request);
    let docs = match parse_docs(e) {
        Ok(d) => d,
        Err(e) => {
            return Err(e);
        },
    };
    let params = match parse_params(e) {
        Ok(d) => d,
        Err(e) => {
            return Err(e);
        },
    };
    let representations = match parse_representations(e) {
        Ok(d) => d,
        Err(e) => {
            return Err(e);
        },
    };
    Ok(Request { docs, params, representations })
}

/// The first child of the given name.
pub open spec fn spec_first_named(nodes: Seq<XmlNode>, name: Seq<char>) -> Option<XmlElement>
    decreases nodes.len(),
{
    if nodes.len() == 0 {
        None
    } else {
        match named_element(nodes[0], name) {
            Some(e) => Some(e),
            None => spec_first_named(nodes.skip(1), name),
        }
    }
}

fn first_named<'a>(element: &'a XmlElement, name: &str) -> (r: Option<&'a XmlElement>)
    ensures
        (match r {
            Some(e) => Some(*e),
            None => None,
        }) == spec_first_named(element.children@, name@),
{
    let nodes = &element.children;
    let mut i: usize = 0;
    assert(nodes@.skip(0) =~= nodes@);
    while i < nodes.len()
        invariant
            i <= nodes.len(),
            nodes == &element.children,
            spec_first_named(nodes@, name@) == spec_first_named(nodes@.skip(i as int), name@),
        decreases nodes.len() - i,
    {
        let ghost rest = nodes@.skip(i as int);
        assert(rest[0] == nodes@[i as int]);
        assert(rest.skip(1) =~= nodes@.skip(i + 1));
        match as_named(&nodes[i], name) {
            Some(e) => {
                return Some(e);
            },
            None => {},
        }
        i = i + 1;
    }
    None
}

/// What a `method` element says: its id and its name, empty where it gives none, what its
/// first `request` child says, or an empty request, its responses and its documentation.
#[verifier::opaque]
pub open spec fn spec_parse_method(e: XmlElement) -> Result<MethodView, ErrorKind> {
    match (match spec_first_named(e.children@, "request"@) {
        Some(r) => spec_parse_request(r),
        None => Ok(
            RequestView { docs: Seq::empty(), params: Seq::empty(), representations: Seq::empty() },
        ),
    }) {
        Err(k) => Err(k),
        Ok(request) => match spec_parse_responses(e.children@) {
            Err(k) => Err(k),
            Ok(responses) => match spec_parse_docs(e.children@) {
                Err(k) => Err(k),
                Ok(docs) => Ok(
                    MethodView {
                        id: attr_or_empty(e, "id"@),
                        name: attr_or_empty(e, "name"@),
                        docs,
                        request,
                        responses,
                    },
                ),
            },
        },
    }
}

/// Reads a `method` element.
pub fn parse_method(e: &XmlElement) -> (r: Result<Method, Error>)
    ensures
        match r {
            Ok(p) => Ok(p@),
            Err(e) => Err(e.kind()),
        } == spec_parse_method(*e),
{
    reveal(spec_parse_method);
    let request = match first_named(e, "request") {
        Some(r) => match parse_request(r) {
            Ok(q) => q,
            Err(e) => {
                return Err(e);
            },
        },
        None => {
            let q = Request { docs: Vec::new(), params: Vec::new(), representations: Vec::new() };
            assert(docs_view(q.docs@) =~= Seq::<DocView>::empty());
            assert(params_view(q.params@) =~= Seq::<ParamView>::empty());
            assert(representations_view(q.representations@) =~= Seq::<RepresentationView>::empty());
            q
        },
    };
    let responses = match parse_responses(e) {
        Ok(d) => d,
        Err(e) => {
            return Err(e);
        },
    };
    let docs = match parse_docs(e) {
        Ok(d) => d,
        Err(e) => {
            return Err(e);
        },
    };
    Ok(
        Method {
            id: attr_or_new(e, "id"),
            name: attr_or_new(e, "name"),
            docs,
            request,
            responses,
        },
    )
}

/// What the `method` children of an element say, in their order.
pub open spec fn spec_parse_methods(nodes: Seq<XmlNode>) -> Result<Seq<MethodView>, ErrorKind>
    decreases nodes.len(),
{
    if nodes.len() == 0 {
        Ok(Seq::empty())
    } else {
        match named_element(nodes[0], "method"@) {
            None => spec_parse_methods(nodes.skip(1)),
            Some(e) => match spec_parse_method(e) {
                Err(k) => Err(k),
                Ok(d) => prepend(seq![d], spec_parse_methods(nodes.skip(1))),
            },
        }
    }
}

/// Reads the `method` children of an element.
pub fn parse_methods(element: &XmlElement) -> (r: Result<Vec<Method>, Error>)
    ensures
        match r {
            Ok(v) => Ok(methods_view(v@)),
            Err(e) => Err(e.kind()),
        } == spec_parse_methods(element.children@),
{
    let nodes = &element.children;
    let mut out: Vec<Method> = Vec::new();
    let mut i: usize = 0;
    assert(nodes@.skip(0) =~= nodes@);
    assert(methods_view(out@) =~= Seq::<MethodView>::empty());
    while i < nodes.len()
        invariant
            i <= nodes.len(),
            nodes == &element.children,
            spec_parse_methods(nodes@) == prepend(
                methods_view(out@),
                spec_parse_methods(nodes@.skip(i as int)),
            ),
        decreases nodes.len() - i,
    {
        let ghost rest = nodes@.skip(i as int);
        assert(rest[0] == nodes@[i as int]);
        assert(rest.skip(1) =~= nodes@.skip(i + 1));
        match as_named(&nodes[i], "method") {
            None => {},
            Some(e) => match parse_method(e) {
                Err(e) => {
                    assert(spec_parse_methods(rest) == Err::<Seq<MethodView>, ErrorKind>(e.kind()));
                    return Err(e);
                },
                Ok(d) => {
                    proof {
                        if let Ok(t) = spec_parse_methods(rest.skip(1)) {
                            assert(methods_view(out@) + (seq![d@] + t) =~= methods_view(out@.push(d)) + t);
                        }
                    }
                    out.push(d);
                },
            },
        }
        i = i + 1;
    }
    assert(methods_view(out@) + Seq::<MethodView>::empty() =~= methods_view(out@));
    Ok(out)
}


/// What the parts of a `type` attribute say, each as a reference to a resource type.
pub open spec fn spec_type_refs(parts: Seq<Seq<char>>) -> Result<Seq<TypeRefView>, ErrorKind>
    decreases parts.len(),
{
    if parts.len() == 0 {
        Ok(Seq::empty())
    } else {
        match spec_type_ref(parts[0]) {
            Err(k) => Err(k),
            Ok(t) => prepend(seq![t], spec_type_refs(parts.skip(1))),
        }
    }
}

/// The types that a resource claims: the parts of its `type` attribute between spaces,
/// or the one empty reference where it has no such attribute.
pub open spec fn spec_resource_types(e: XmlElement) -> Result<Seq<TypeRefView>, ErrorKind> {
    spec_type_refs(spec_split(attr_or_empty(e, "type"@), ' '))
}

fn resource_types(e: &XmlElement) -> (r: Result<Vec<ResourceTypeRef>, Error>)
    ensures
        match r {
            Ok(v) => Ok(type_refs_view(v@)),
            Err(e) => Err(e.kind()),
        } == spec_resource_types(*e),
{
    let text = attr_or_new(e, "type");
    let chars = chars_of(text.as_str());
    let parts = split_on(&chars, ' ');
    let ghost all = rows(parts@);
    let mut out: Vec<ResourceTypeRef> = Vec::new();
    let mut i: usize = 0;
    assert(all.skip(0) =~= all);
    assert(type_refs_view(out@) =~= Seq::<TypeRefView>::empty());
    while i < parts.len()
        invariant
            i <= parts.len(),
            all == rows(parts@),
            all == spec_split(attr_or_empty(*e, "type"@), ' '),
            spec_type_refs(all) == prepend(type_refs_view(out@), spec_type_refs(all.skip(i as int))),
        decreases parts.len() - i,
    {
        let ghost rest = all.skip(i as int);
        assert(rest[0] == parts@[i as int]@);
        assert(rest.skip(1) =~= all.skip(i + 1));
        let part = string_of(&parts[i]);
        match type_ref(part.as_str()) {
            Err(e) => {
                assert(spec_type_refs(rest) == Err::<Seq<TypeRefView>, ErrorKind>(e.kind()));
                return Err(e);
            },
            Ok(t) => {
                proof {
                    if let Ok(tail) = spec_type_refs(rest.skip(1)) {
                        assert(type_refs_view(out@) + (seq![t@] + tail) =~= type_refs_view(
                            out@.push(t),
                        ) + tail);
                    }
                }
                out.push(t);
            },
        }
        i = i + 1;
    }
    assert(type_refs_view(out@) + Seq::<TypeRefView>::empty() =~= type_refs_view(out@));
    Ok(out)
}

/// The media type of the query of a resource: what its `queryType` attribute names,
/// which must be a media type, or that of URL-encoded forms.
pub open spec fn spec_query_type(e: XmlElement) -> Result<Seq<char>, ErrorKind> {
    match mime_parsed(
        match attr_text(e, "queryType"@) {
            Some(t) => t,
            None => "application/x-www-form-urlencoded"@,
        },
    ) {
        Some(m) => Ok(m),
        None => Err(ErrorKind::Mime),
    }
}

fn query_type(e: &XmlElement) -> (r: Result<MediaType, Error>)
    ensures
        match r {
            Ok(m) => Ok(m@),
            Err(e) => Err(e.kind()),
        } == spec_query_type(*e),
{
    let parsed = match attr(e, "queryType") {
        Some(t) => MediaType::parse(t.as_str()),
        None => MediaType::parse("application/x-www-form-urlencoded"),
    };
    match parsed {
        Ok(m) => Ok(m),
        Err(e) => Err(Error::Mime(e)),
    }
}

/// What a `resource` element says, its sub-resources included.
pub open spec fn spec_parse_resource(e: XmlElement) -> Result<ResourceView, ErrorKind>
    decreases e,
{
    match spec_resource_types(e) {
        Err(k) => Err(k),
        Ok(types) => match spec_query_type(e) {
            Err(k) => Err(k),
            Ok(query_type) => match spec_parse_docs(e.children@) {
                Err(k) => Err(k),
                Ok(docs) => match spec_parse_methods(e.children@) {
                    Err(k) => Err(k),
                    Ok(methods) => match spec_parse_resources(e.children@) {
                        Err(k) => Err(k),
                        Ok(subresources) => match spec_parse_params(e.children@) {
                            Err(k) => Err(k),
                            Ok(params) => Ok(
                                ResourceView {
                                    id: attr_text(e, "id"@),
                                    path: attr_text(e, "path"@),
                                    types,
                                    query_type,
                                    methods,
                                    docs,
                                    subresources,
                                    params,
                                },
                            ),
                        },
                    },
                },
            },
        },
    }
}

/// What the `resource` children of an element say, in their order.
pub open spec fn spec_parse_resources(nodes: Seq<XmlNode>) -> Result<Seq<ResourceView>, ErrorKind>
    decreases nodes,
{
    if nodes.len() == 0 {
        Ok(Seq::empty())
    } else {
        match nodes[0] {
            XmlNode::Element(e) => if e.name@ == "resource"@ {
                match spec_parse_resource(e) {
                    Err(k) => Err(k),
                    Ok(d) => prepend(seq![d], spec_parse_resources(nodes.skip(1))),
                }
            } else {
                spec_parse_resources(nodes.skip(1))
            },
            _ => spec_parse_resources(nodes.skip(1)),
        }
    }
}

/// The plain values of a list with one more resource are those of the list with one more.
pub proof fn lemma_resources_view_push(v: Seq<Resource>, r: Resource)
    ensures
        resources_view(v.push(r)) == resources_view(v).push(r@),
{
    assert(v.push(r).drop_last() =~= v);
}

/// Reads a `resource` element, its sub-resources included.
pub fn parse_resource(e: &XmlElement) -> (r: Result<Resource, Error>)
    ensures
        match r {
            Ok(p) => Ok(p@),
            Err(e) => Err(e.kind()),
        } == spec_parse_resource(*e),
    decreases e,
{
    let types = match resource_types(e) {
        Ok(d) => d,
        Err(e) => {
            return Err(e);
        },
    };
    let query = match query_type(e) {
        Ok(d) => d,
        Err(e) => {
            return Err(e);
        },
    };
    let docs = match parse_docs(e) {
        Ok(d) => d,
        Err(e) => {
            return Err(e);
        },
    };
    let methods = match parse_methods(e) {
        Ok(d) => d,
        Err(e) => {
            return Err(e);
        },
    };
    let subresources = match parse_resources(e) {
        Ok(d) => d,
        Err(e) => {
            return Err(e);
        },
    };
    let params = match parse_params(e) {
        Ok(d) => d,
        Err(e) => {
            return Err(e);
        },
    };
    Ok(
        Resource {
            id: attr_owned(e, "id"),
            path: attr_owned(e, "path"),
            types,
            query_type: query,
            methods,
            docs,
            subresources,
            params,
        },
    )
}

/// Reads the `resource` children of an element.
pub fn parse_resources(element: &XmlElement) -> (r: Result<Vec<Resource>, Error>)
    ensures
        match r {
            Ok(v) => Ok(resources_view(v@)),
            Err(e) => Err(e.kind()),
        } == spec_parse_resources(element.children@),
    decreases element, 0nat,
{
    let nodes = &element.children;
    let mut out: Vec<Resource> = Vec::new();
    let mut i: usize = 0;
    assert(nodes@.skip(0) =~= nodes@);
    while i < nodes.len()
        invariant
            i <= nodes.len(),
            nodes == &element.children,
            spec_parse_resources(nodes@) == prepend(
                resources_view(out@),
                spec_parse_resources(nodes@.skip(i as int)),
            ),
        decreases nodes.len() - i,
    {
        let ghost rest = nodes@.skip(i as int);
        assert(rest[0] == nodes@[i as int]);
        assert(rest.skip(1) =~= nodes@.skip(i + 1));
        match &nodes[i] {
            XmlNode::Element(e) => {
                if e.is_named("resource") {
                    match parse_resource(e) {
                        Err(e) => {
                            assert(spec_parse_resources(rest) == Err::<
                                Seq<ResourceView>,
                                ErrorKind,
                            >(e.kind()));
                            return Err(e);
                        },
                        Ok(d) => {
                            proof {
                                lemma_resources_view_push(out@, d);
                                if let Ok(t) = spec_parse_resources(rest.skip(1)) {
                                    assert(resources_view(out@) + (seq![d@] + t)
                                        =~= resources_view(out@).push(d@) + t);
                                }
                            }
                            out.push(d);
                        },
                    }
                }
            },
            _ => {},
        }
        i = i + 1;
    }
    assert(resources_view(out@) + Seq::<ResourceView>::empty() =~= resources_view(out@));
    Ok(out)
}


/// What a `resource_type` element says. It must have an id.
#[verifier::opaque]
pub open spec fn spec_parse_resource_type(e: XmlElement) -> Result<ResourceTypeView, ErrorKind> {
    match attr_text(e, "id"@) {
        None => Err(ErrorKind::Invalid),
        Some(id) => match spec_query_type(e) {
            Err(k) => Err(k),
            Ok(query_type) => match spec_parse_docs(e.children@) {
                Err(k) => Err(k),
                Ok(docs) => match spec_parse_methods(e.children@) {
                    Err(k) => Err(k),
                    Ok(methods) => match spec_parse_resources(e.children@) {
                        Err(k) => Err(k),
                        Ok(subresources) => match spec_parse_params(e.children@) {
                            Err(k) => Err(k),
                            Ok(params) => Ok(
                                ResourceTypeView {
                                    id,
                                    query_type,
                                    methods,
                                    docs,
                                    subresources,
                                    params,
                                },
                            ),
                        },
                    },
                },
            },
        },
    }
}

/// Reads a `resource_type` element.
pub fn parse_resource_type(e: &XmlElement) -> (r: Result<ResourceType, Error>)
    ensures
        match r {
            Ok(p) => Ok(p@),
            Err(e) => Err(e.kind()),
        } == spec_parse_resource_type(*e),
{
    reveal(spec_parse_resource_type);
    let id = match attr_owned(e, "id") {
        Some(id) => id,
        None => {
            return Err(invalid("a resource type without an id"));
        },
    };
    let query = match query_type(e) {
        Ok(d) => d,
        Err(e) => {
            return Err(e);
        },
    };
    let docs = match parse_docs(e) {
        Ok(d) => d,
        Err(e) => {
            return Err(e);
        },
    };
    let methods = match parse_methods(e) {
        Ok(d) => d,
        Err(e) => {
            return Err(e);
        },
    };
    let subresources = match parse_resources(e) {
        Ok(d) => d,
        Err(e) => {
            return Err(e);
        },
    };
    let params = match parse_params(e) {
        Ok(d) => d,
        Err(e) => {
            return Err(e);
        },
    };
    Ok(ResourceType { id, query_type: query, methods, docs, subresources, params })
}

/// What an `include` element of the grammars says: where the grammar is, which it must
/// say, by an IRI reference.
#[verifier::opaque]
pub open spec fn spec_parse_include(e: XmlElement) -> Result<Seq<char>, ErrorKind> {
    match attr_text(e, "href"@) {
        None => Err(ErrorKind::Invalid),
        Some(href) => if iri_reference_valid(href) {
            Ok(href)
        } else {
            Err(ErrorKind::Iri)
        },
    }
}

/// A grammar by where it is.
pub open spec fn grammar_view(g: Grammar) -> Seq<char> {
    g.href@
}

/// Reads an `include` element of the grammars.
pub fn parse_include(e: &XmlElement) -> (r: Result<Grammar, Error>)
    ensures
        match r {
            Ok(g) => Ok(grammar_view(g)),
            Err(e) => Err(e.kind()),
        } == spec_parse_include(*e),
{
    reveal(spec_parse_include);
    match attr(e, "href") {
        None => Err(invalid("an include without an href")),
        Some(href) => match IriReference::parse(href.as_str()) {
            Some(i) => Ok(Grammar { href: i }),
            None => Err(Error::Iri),
        },
    }
}

/// What the `include` children of a `grammars` element say, in their order.
pub open spec fn spec_parse_includes(nodes: Seq<XmlNode>) -> Result<Seq<Seq<char>>, ErrorKind>
    decreases nodes.len(),
{
    if nodes.len() == 0 {
        Ok(Seq::empty())
    } else {
        match named_element(nodes[0], "include"@) {
            None => spec_parse_includes(nodes.skip(1)),
            Some(e) => match spec_parse_include(e) {
                Err(k) => Err(k),
                Ok(d) => prepend(seq![d], spec_parse_includes(nodes.skip(1))),
            },
        }
    }
}

/// Reads the `include` children of a `grammars` element.
pub fn parse_includes(element: &XmlElement) -> (r: Result<Vec<Grammar>, Error>)
    ensures
        match r {
            Ok(v) => Ok(crate::model::grammars_view(v@)),
            Err(e) => Err(e.kind()),
        } == spec_parse_includes(element.children@),
{
    let nodes = &element.children;
    let mut out: Vec<Grammar> = Vec::new();
    let mut i: usize = 0;
    assert(nodes@.skip(0) =~= nodes@);
    assert(crate::model::grammars_view(out@) =~= Seq::<Seq<char>>::empty());
    while i < nodes.len()
        invariant
            i <= nodes.len(),
            nodes == &element.children,
            spec_parse_includes(nodes@) == prepend(
                crate::model::grammars_view(out@),
                spec_parse_includes(nodes@.skip(i as int)),
            ),
        decreases nodes.len() - i,
    {
        let ghost rest = nodes@.skip(i as int);
        assert(rest[0] == nodes@[i as int]);
        assert(rest.skip(1) =~= nodes@.skip(i + 1));
        match as_named(&nodes[i], "include") {
            None => {},
            Some(e) => match parse_include(e) {
                Err(e) => {
                    assert(spec_parse_includes(rest) == Err::<Seq<Seq<char>>, ErrorKind>(e.kind()));
                    return Err(e);
                },
                Ok(d) => {
                    proof {
                        if let Ok(t) = spec_parse_includes(rest.skip(1)) {
                            assert(crate::model::grammars_view(out@) + (seq![grammar_view(d)] + t) =~= crate::model::grammars_view(out@.push(d)) + t);
                        }
                    }
                    out.push(d);
                },
            },
        }
        i = i + 1;
    }
    assert(crate::model::grammars_view(out@) + Seq::<Seq<char>>::empty() =~= crate::model::grammars_view(out@));
    Ok(out)
}

/// What a `representation` element at the top of a document says: it must be a definition.
#[verifier::opaque]
pub open spec fn spec_parse_definition(e: XmlElement) -> Result<RepresentationDefView, ErrorKind> {
    match spec_parse_representation(e) {
        Err(k) => Err(k),
        Ok(RepresentationView::Definition(d)) => Ok(d),
        Ok(_) => Err(ErrorKind::Invalid),
    }
}

/// Reads a `representation` element that must be a definition.
pub fn parse_definition(e: &XmlElement) -> (r: Result<RepresentationDef, Error>)
    ensures
        match r {
            Ok(d) => Ok(d@),
            Err(e) => Err(e.kind()),
        } == spec_parse_definition(*e),
{
    reveal(spec_parse_definition);
    match parse_representation(e) {
        Err(e) => Err(e),
        Ok(Representation::Definition(d)) => Ok(d),
        Ok(Representation::Reference(_)) => Err(
            invalid("a reference to a representation at the top of the document"),
        ),
    }
}

/// What the `representation` children of the root say, in their order.
pub open spec fn spec_parse_definitions(nodes: Seq<XmlNode>) -> Result<Seq<RepresentationDefView>, ErrorKind>
    decreases nodes.len(),
{
    if nodes.len() == 0 {
        Ok(Seq::empty())
    } else {
        match named_element(nodes[0], "representation"@) {
            None => spec_parse_definitions(nodes.skip(1)),
            Some(e) => match spec_parse_definition(e) {
                Err(k) => Err(k),
                Ok(d) => prepend(seq![d], spec_parse_definitions(nodes.skip(1))),
            },
        }
    }
}

/// Reads the `representation` children of the root, which must be definitions.
pub fn parse_definitions(element: &XmlElement) -> (r: Result<Vec<RepresentationDef>, Error>)
    ensures
        match r {
            Ok(v) => Ok(definitions_view(v@)),
            Err(e) => Err(e.kind()),
        } == spec_parse_definitions(element.children@),
{
    let nodes = &element.children;
    let mut out: Vec<RepresentationDef> = Vec::new();
    let mut i: usize = 0;
    assert(nodes@.skip(0) =~= nodes@);
    assert(definitions_view(out@) =~= Seq::<RepresentationDefView>::empty());
    while i < nodes.len()
        invariant
            i <= nodes.len(),
            nodes == &element.children,
            spec_parse_definitions(nodes@) == prepend(
                definitions_view(out@),
                spec_parse_definitions(nodes@.skip(i as int)),
            ),
        decreases nodes.len() - i,
    {
        let ghost rest = nodes@.skip(i as int);
        assert(rest[0] == nodes@[i as int]);
        assert(rest.skip(1) =~= nodes@.skip(i + 1));
        match as_named(&nodes[i], "representation") {
            None => {},
            Some(e) => match parse_definition(e) {
                Err(e) => {
                    assert(spec_parse_definitions(rest) == Err::<Seq<RepresentationDefView>, ErrorKind>(e.kind()));
                    return Err(e);
                },
                Ok(d) => {
                    proof {
                        if let Ok(t) = spec_parse_definitions(rest.skip(1)) {
                            assert(definitions_view(out@) + (seq![d@] + t) =~= definitions_view(out@.push(d)) + t);
                        }
                    }
                    out.push(d);
                },
            },
        }
        i = i + 1;
    }
    assert(definitions_view(out@) + Seq::<RepresentationDefView>::empty() =~= definitions_view(out@));
    Ok(out)
}

/// What the children of the root say about resources, grammars and resource types.
pub struct TopView {
    pub resources: Seq<ResourcesView>,
    pub grammars: Seq<Seq<char>>,
    pub resource_types: Seq<ResourceTypeView>,
}

/// The base of a group of resources: what its `base` attribute names, which must be a URL.
pub open spec fn spec_base(e: XmlElement) -> Result<Option<Seq<char>>, ErrorKind> {
    match attr_text(e, "base"@) {
        None => Ok(None),
        Some(b) => match url_parsed(b) {
            Some(u) => Ok(Some(u)),
            None => Err(ErrorKind::Url),
        },
    }
}

/// What a `resources` element says: its resources and its base.
#[verifier::opaque]
pub open spec fn spec_parse_group(e: XmlElement) -> Result<ResourcesView, ErrorKind> {
    match spec_parse_resources(e.children@) {
        Err(k) => Err(k),
        Ok(resources) => match spec_base(e) {
            Err(k) => Err(k),
            Ok(base) => Ok(ResourcesView { base, resources }),
        },
    }
}

/// Reads a `resources` element.
pub fn parse_group(e: &XmlElement) -> (r: Result<Resources, Error>)
    ensures
        match r {
            Ok(g) => Ok(g@),
            Err(e) => Err(e.kind()),
        } == spec_parse_group(*e),
{
    reveal(spec_parse_group);
    let resources = match parse_resources(e) {
        Ok(d) => d,
        Err(e) => {
            return Err(e);
        },
    };
    let base = match attr(e, "base") {
        None => None,
        Some(b) => match Url::parse(b.as_str()) {
            Ok(u) => Some(u),
            Err(e) => {
                return Err(Error::Url(e));
            },
        },
    };
    Ok(Resources { base, resources })
}

/// One child of the root is read: a `resources` element adds a group of resources, a
/// `grammars` element its includes, a `resource_type` element a resource type, and any
/// other child nothing.
#[verifier::opaque]
pub open spec fn spec_top_step(acc: TopView, node: XmlNode) -> Result<TopView, ErrorKind> {
    match node {
        XmlNode::Element(e) => if e.name@ == "resources"@ {
            match spec_parse_group(e) {
                Err(k) => Err(k),
                Ok(g) => Ok(
                    TopView {
                        resources: acc.resources.push(g),
                        grammars: acc.grammars,
                        resource_types: acc.resource_types,
                    },
                ),
            }
        } else if e.name@ == "grammars"@ {
            match spec_parse_includes(e.children@) {
                Err(k) => Err(k),
                Ok(gs) => Ok(
                    TopView {
                        resources: acc.resources,
                        grammars: acc.grammars + gs,
                        resource_types: acc.resource_types,
                    },
                ),
            }
        } else if e.name@ == "resource_type"@ {
            match spec_parse_resource_type(e) {
                Err(k) => Err(k),
                Ok(t) => Ok(
                    TopView {
                        resources: acc.resources,
                        grammars: acc.grammars,
                        resource_types: acc.resource_types.push(t),
                    },
                ),
            }
        } else {
            Ok(acc)
        },
        _ => Ok(acc),
    }
}

/// The children of the root are read in their order.
pub open spec fn spec_top_from(acc: TopView, nodes: Seq<XmlNode>) -> Result<TopView, ErrorKind>
    decreases nodes.len(),
{
    if nodes.len() == 0 {
        Ok(acc)
    } else {
        match spec_top_step(acc, nodes[0]) {
            Err(k) => Err(k),
            Ok(next) => spec_top_from(next, nodes.skip(1)),
        }
    }
}

/// Nothing read yet.
pub open spec fn empty_top() -> TopView {
    TopView { resources: Seq::empty(), grammars: Seq::empty(), resource_types: Seq::empty() }
}

/// The document that a tree of elements holds: the documentation, the groups of
/// resources, the grammars, the resource types and the representations that the children
/// of the root give. Children of other names say nothing, whatever the name of the root.
/// The first failure, in this order and in the order of the document, is the failure of
/// the whole.
#[verifier::opaque]
pub open spec fn spec_parse_application(root: XmlElement) -> Result<ApplicationView, ErrorKind> {
    match spec_parse_docs(root.children@) {
        Err(k) => Err(k),
        Ok(docs) => match spec_top_from(empty_top(), root.children@) {
            Err(k) => Err(k),
            Ok(top) => match spec_parse_definitions(root.children@) {
                Err(k) => Err(k),
                Ok(representations) => Ok(
                    ApplicationView {
                        resources: top.resources,
                        resource_types: top.resource_types,
                        docs,
                        grammars: top.grammars,
                        representations,
                    },
                ),
            },
        },
    }
}

/// What was read of the children of the root, by its values.
pub open spec fn top_view(resources: Seq<Resources>, grammars: Seq<Grammar>, types: Seq<ResourceType>) -> TopView {
    TopView {
        resources: crate::model::groups_view(resources),
        grammars: crate::model::grammars_view(grammars),
        resource_types: crate::model::resource_types_view(types),
    }
}

fn top_of(root: &XmlElement) -> (r: Result<(Vec<Resources>, Vec<Grammar>, Vec<ResourceType>), Error>)
    ensures
        match r {
            Ok(t) => Ok(top_view(t.0@, t.1@, t.2@)),
            Err(e) => Err(e.kind()),
        } == spec_top_from(empty_top(), root.children@),
{
    let nodes = &root.children;
    let mut resources: Vec<Resources> = Vec::new();
    let mut grammars: Vec<Grammar> = Vec::new();
    let mut resource_types: Vec<ResourceType> = Vec::new();
    let mut i: usize = 0;
    assert(nodes@.skip(0) =~= nodes@);
    assert(crate::model::groups_view(resources@) =~= Seq::<ResourcesView>::empty());
    assert(crate::model::grammars_view(grammars@) =~= Seq::<Seq<char>>::empty());
    assert(crate::model::resource_types_view(resource_types@) =~= Seq::<ResourceTypeView>::empty());
    while i < nodes.len()
        invariant
            i <= nodes.len(),
            nodes == &root.children,
            spec_top_from(empty_top(), nodes@) == spec_top_from(
                top_view(resources@, grammars@, resource_types@),
                nodes@.skip(i as int),
            ),
        decreases nodes.len() - i,
    {
        let ghost rest = nodes@.skip(i as int);
        let ghost acc = top_view(resources@, grammars@, resource_types@);
        reveal(spec_top_step);
        assert(rest[0] == nodes@[i as int]);
        assert(rest.skip(1) =~= nodes@.skip(i + 1));
        match &nodes[i] {
            XmlNode::Element(e) => {
                if e.is_named("resources") {
                    match parse_group(e) {
                        Err(e) => {
                            assert(spec_top_from(acc, rest) == Err::<TopView, ErrorKind>(e.kind()));
                            return Err(e);
                        },
                        Ok(g) => {
                            assert(crate::model::groups_view(resources@.push(g))
                                =~= crate::model::groups_view(resources@).push(g@));
                            resources.push(g);
                        },
                    }
                } else if e.is_named("grammars") {
                    match parse_includes(e) {
                        Err(e) => {
                            assert(spec_top_from(acc, rest) == Err::<TopView, ErrorKind>(e.kind()));
                            return Err(e);
                        },
                        Ok(gs) => {
                            let mut gs = gs;
                            assert(crate::model::grammars_view(grammars@ + gs@)
                                =~= crate::model::grammars_view(grammars@)
                                + crate::model::grammars_view(gs@));
                            grammars.append(&mut gs);
                        },
                    }
                } else if e.is_named("resource_type") {
                    match parse_resource_type(e) {
                        Err(e) => {
                            assert(spec_top_from(acc, rest) == Err::<TopView, ErrorKind>(e.kind()));
                            return Err(e);
                        },
                        Ok(t) => {
                            assert(crate::model::resource_types_view(resource_types@.push(t))
                                =~= crate::model::resource_types_view(resource_types@).push(t@));
                            resource_types.push(t);
                        },
                    }
                }
            },
            _ => {},
        }
        i = i + 1;
    }
    Ok((resources, grammars, resource_types))
}

/// Reads the document that a tree of elements holds.
pub fn application_from_xml(root: &XmlElement) -> (r: Result<Application, Error>)
    ensures
        match r {
            Ok(app) => Ok(app@),
            Err(e) => Err(e.kind()),
        } == spec_parse_application(*root),
{
    reveal(spec_parse_application);
    let docs = match parse_docs(root) {
        Ok(d) => d,
        Err(e) => {
            return Err(e);
        },
    };
    let (resources, grammars, resource_types) = match top_of(root) {
        Ok(t) => t,
        Err(e) => {
            return Err(e);
        },
    };
    let representations = match parse_definitions(root) {
        Ok(d) => d,
        Err(e) => {
            return Err(e);
        },
    };
    Ok(Application { resources, resource_types, docs, grammars, representations })
}

/// What the bytes of a document say: they must hold well-formed XML, and the tree of its
/// elements a document.
pub open spec fn spec_parse(bytes: Seq<u8>) -> Result<ApplicationView, ErrorKind> {
    match xml_parsed(bytes) {
        None => Err(ErrorKind::Xml),
        Some(root) => spec_parse_application(root),
    }
}

/// Reads a WADL document.
pub fn parse(bytes: &[u8]) -> (r: Result<Application, Error>)
    ensures
        match r {
            Ok(app) => Ok(app@),
            Err(e) => Err(e.kind()),
        } == spec_parse(bytes@),
{
    match XmlElement::parse(bytes) {
        Err(e) => Err(Error::Xml(e)),
        Ok(root) => application_from_xml(&root),
    }
}

/// Reads a WADL document from its bytes.
pub fn parse_bytes(bytes: &[u8]) -> (r: Result<Application, Error>)
    ensures
        match r {
            Ok(app) => Ok(app@),
            Err(e) => Err(e.kind()),
        } == spec_parse(bytes@),
{
    parse(bytes)
}

/// Reads a WADL document from its text.
pub fn parse_string(s: &str) -> (r: Result<Application, Error>)
    ensures
        match r {
            Ok(app) => Ok(app@),
            Err(e) => Err(e.kind()),
        } == spec_parse(s.spec_bytes()),
{
    parse(s.as_bytes())
}


/// The number of children of the given name.
pub open spec fn spec_count_named(nodes: Seq<XmlNode>, name: Seq<char>) -> nat
    decreases nodes.len(),
{
    if nodes.len() == 0 {
        0
    } else if named_element(nodes[0], name) is Some {
        1 + spec_count_named(nodes.skip(1), name)
    } else {
        spec_count_named(nodes.skip(1), name)
    }
}

/// A document that is read has as many methods under an element as the element has
/// `method` children.
pub proof fn lemma_methods_are_counted(nodes: Seq<XmlNode>)
    requires
        spec_parse_methods(nodes) is Ok,
    ensures
        spec_parse_methods(nodes)->Ok_0.len() == spec_count_named(nodes, "method"@),
    decreases nodes.len(),
{
    if nodes.len() > 0 {
        match named_element(nodes[0], "method"@) {
            None => {
                lemma_methods_are_counted(nodes.skip(1));
            },
            Some(e) => {
                lemma_methods_are_counted(nodes.skip(1));
            },
        }
    }
}

/// A document that is read has as many resources under an element as the element has
/// `resource` children.
pub proof fn lemma_resources_are_counted(nodes: Seq<XmlNode>)
    requires
        spec_parse_resources(nodes) is Ok,
    ensures
        spec_parse_resources(nodes)->Ok_0.len() == spec_count_named(nodes, "resource"@),
    decreases nodes.len(),
{
    if nodes.len() > 0 {
        lemma_resources_are_counted(nodes.skip(1));
    }
}

proof fn lemma_groups_are_counted_from(acc: TopView, nodes: Seq<XmlNode>)
    requires
        spec_top_from(acc, nodes) is Ok,
    ensures
        spec_top_from(acc, nodes)->Ok_0.resources.len() == acc.resources.len() + spec_count_named(
            nodes,
            "resources"@,
        ),
        spec_top_from(acc, nodes)->Ok_0.resource_types.len() == acc.resource_types.len()
            + spec_count_named(nodes, "resource_type"@),
    decreases nodes.len(),
{
    reveal(spec_top_step);
    reveal_strlit("resources");
    reveal_strlit("grammars");
    reveal_strlit("resource_type");
    assert("resources"@.len() != "resource_type"@.len());
    assert("grammars"@.len() != "resource_type"@.len());
    if nodes.len() > 0 {
        let next = spec_top_step(acc, nodes[0])->Ok_0;
        lemma_groups_are_counted_from(next, nodes.skip(1));
    }
}

/// A document that is read has as many groups of resources as the root has `resources`
/// children, each with as many resources as that child has `resource` children, and as
/// many resource types as the root has `resource_type` children.
pub proof fn lemma_document_counts(root: XmlElement)
    requires
        spec_parse_application(root) is Ok,
    ensures
        spec_parse_application(root)->Ok_0.resources.len() == spec_count_named(
            root.children@,
            "resources"@,
        ),
        spec_parse_application(root)->Ok_0.resource_types.len() == spec_count_named(
            root.children@,
            "resource_type"@,
        ),
{
    reveal(spec_parse_application);
    lemma_groups_are_counted_from(empty_top(), root.children@);
}

/// A group of resources that is read has as many resources as the element has
/// `resource` children.
pub proof fn lemma_group_counts(e: XmlElement)
    requires
        spec_parse_group(e) is Ok,
    ensures
        spec_parse_group(e)->Ok_0.resources.len() == spec_count_named(e.children@, "resource"@),
{
    reveal(spec_parse_group);
    lemma_resources_are_counted(e.children@);
}

/// A resource that is read has as many methods as the element has `method` children,
/// and as many sub-resources as it has `resource` children.
pub proof fn lemma_resource_counts(e: XmlElement)
    requires
        spec_parse_resource(e) is Ok,
    ensures
        spec_parse_resource(e)->Ok_0.methods.len() == spec_count_named(e.children@, "method"@),
        spec_parse_resource(e)->Ok_0.subresources.len() == spec_count_named(
            e.children@,
            "resource"@,
        ),
{
    lemma_methods_are_counted(e.children@);
    lemma_resources_are_counted(e.children@);
}

} // verus!
