//! XML documents as trees of elements.
use vstd::prelude::*;
use vstd::string::*;
use crate::text::str_eq;

verus! {

/// The error of the `xmltree` crate's parser.
#[verifier::external_type_specification]
#[verifier::external_body]
pub struct ExXmlParseError(xmltree::ParseError);

/// An element of the `xmltree` crate.
#[verifier::external_type_specification]
#[verifier::external_body]
pub struct ExXmlTreeElement(xmltree::Element);

/// An attribute of an element: its local name and its value.
#[derive(Debug)]
pub struct XmlAttribute {
    pub name: String,
    pub value: String,
}

/// An element: its local name, its attributes in document order and its children. The
/// element of the `xmltree` crate that it was read from is kept, for what only that crate
/// can tell of it: its markup and its namespaces.
#[derive(Debug)]
pub struct XmlElement {
    pub name: String,
    pub attributes: Vec<XmlAttribute>,
    pub children: Vec<XmlNode>,
    /// The element of the `xmltree` crate that this one was read from.
    pub source: xmltree::Element,
}

/// A child of an element.
#[derive(Debug)]
pub enum XmlNode {
    /// An element.
    Element(XmlElement),
    /// A comment.
    Comment(String),
    /// A section of character data.
    CData(String),
    /// Text.
    Text(String),
    /// A processing instruction: its name and its data.
    ProcessingInstruction(String, Option<String>),
}

/// The root element of the document that the bytes hold, `None` where they hold none.
pub uninterp spec fn xml_parsed(bytes: Seq<u8>) -> Option<XmlElement>;

/// What an element of the `xmltree` crate holds: its name, its attributes and its
/// children.
pub uninterp spec fn xml_tree(e: xmltree::Element) -> XmlElement;

/// An element of the `xmltree` crate written out as a document of its own, `None` where
/// it cannot be written.
pub uninterp spec fn element_markup(e: xmltree::Element) -> Option<Seq<char>>;

/// The namespace that a prefix stands for at an element of the `xmltree` crate, `None`
/// where it stands for none.
pub uninterp spec fn element_namespace(e: xmltree::Element, prefix: Seq<char>) -> Option<
    Seq<char>,
>;

/// `xmltree::Element::parse` reads a document and gives its root element. The contract
/// names the tree that the bytes hold: it is what the element that comes back holds.
#[verifier::external_body]
fn read_document(bytes: &[u8]) -> (r: Result<xmltree::Element, xmltree::ParseError>)
    ensures
        match r {
            Ok(e) => xml_parsed(bytes@) == Some(xml_tree(e)),
            Err(_) => xml_parsed(bytes@) is None,
        },
{
    xmltree::Element::parse(bytes)
}

/// Copies what an element of the `xmltree` crate holds, field by field and child by
/// child, and keeps a copy of the element itself.
#[verifier::external_body]
fn element_of(e: &xmltree::Element) -> (r: XmlElement)
    ensures
        r == xml_tree(*e),
{
    XmlElement {
        name: e.name.clone(),
        attributes: e.attributes.iter().map(|(k, v)| XmlAttribute { name: k.clone(), value: v.clone() }).collect(),
        children: e.children.iter().map(|c| match c {
            xmltree::XMLNode::Element(x) => XmlNode::Element(element_of(x)),
            xmltree::XMLNode::Comment(t) => XmlNode::Comment(t.clone()),
            xmltree::XMLNode::CData(t) => XmlNode::CData(t.clone()),
            xmltree::XMLNode::Text(t) => XmlNode::Text(t.clone()),
            xmltree::XMLNode::ProcessingInstruction(n, d) => XmlNode::ProcessingInstruction(n.clone(), d.clone()),
        }).collect(),
        source: e.clone(),
    }
}

/// `xmltree::Element::write` writes an element out as a document of its own. The result
/// is that document as text, `None` where the element cannot be written. The contract
/// only names the result.
#[verifier::external_body]
fn markup_of(e: &xmltree::Element) -> (r: Option<String>)
    ensures
        crate::text::opt_text(r) == element_markup(*e),
{
    let mut b: Vec<u8> = Vec::new();
    e.write(&mut b).ok().and(String::from_utf8(b).ok())
}

/// `xml::namespace::Namespace::get` gives the namespace that a prefix stands for among
/// the namespaces of an element, of which there may be none. The contract only names the
/// result.
#[verifier::external_body]
fn namespace_of(e: &xmltree::Element, prefix: &str) -> (r: Option<String>)
    ensures
        crate::text::opt_text(r) == element_namespace(*e, prefix@),
{
    e.namespaces.as_ref().and_then(|n| n.get(prefix)).map(String::from)
}

/// The value of the first attribute of the given name.
pub open spec fn spec_attribute(attributes: Seq<XmlAttribute>, name: Seq<char>) -> Option<String>
    decreases attributes.len(),
{
    if attributes.len() == 0 {
        None
    } else if attributes[0].name@ == name {
        Some(attributes[0].value)
    } else {
        spec_attribute(attributes.skip(1), name)
    }
}

impl XmlElement {
    /// Reads a document.
    pub fn parse(bytes: &[u8]) -> (r: Result<XmlElement, xmltree::ParseError>)
        ensures
            match r {
                Ok(e) => xml_parsed(bytes@) == Some(e),
                Err(_) => xml_parsed(bytes@) is None,
            },
    {
        match read_document(bytes) {
            Ok(e) => Ok(element_of(&e)),
            Err(e) => Err(e),
        }
    }

    /// The element written out again as markup, `None` where it cannot be written.
    pub open spec fn spec_markup(&self) -> Option<Seq<char>> {
        element_markup(self.source)
    }

    /// The namespace that a prefix stands for at this element.
    pub open spec fn spec_namespace(&self, prefix: Seq<char>) -> Option<Seq<char>> {
        element_namespace(self.source, prefix)
    }

    /// The element written out again as markup, `None` where it cannot be written.
    pub fn markup(&self) -> (r: Option<String>)
        ensures
            crate::text::opt_text(r) == self.spec_markup(),
    {
        markup_of(&self.source)
    }

    /// The namespace that a prefix stands for at this element; the empty prefix asks
    /// for the namespace of names without a prefix.
    pub fn namespace(&self, prefix: &str) -> (r: Option<String>)
        ensures
            crate::text::opt_text(r) == self.spec_namespace(prefix@),
    {
        namespace_of(&self.source, prefix)
    }

    /// The value of an attribute.
    pub fn attribute(&self, name: &str) -> (r: Option<&String>)
        ensures
            match r {
                Some(v) => spec_attribute(self.attributes@, name@) == Some(*v),
                None => spec_attribute(self.attributes@, name@) is None,
            },
    {
        let mut i: usize = 0;
        assert(self.attributes@.skip(0) =~= self.attributes@);
        while i < self.attributes.len()
            invariant
                i <= self.attributes.len(),
                spec_attribute(self.attributes@, name@) == spec_attribute(
                    self.attributes@.skip(i as int),
                    name@,
                ),
            decreases self.attributes.len() - i,
        {
            if str_eq(self.attributes[i].name.as_str(), name) {
                return Some(&self.attributes[i].value);
            }
            assert(self.attributes@.skip(i as int).skip(1) =~= self.attributes@.skip(i + 1));
            i = i + 1;
        }
        None
    }

    /// Whether this element has the given local name.
    pub fn is_named(&self, name: &str) -> (r: bool)
        ensures
            r == (self.name@ == name@),
    {
        str_eq(self.name.as_str(), name)
    }
}

} // verus!
