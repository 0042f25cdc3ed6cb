//! XML documents as the replies of the service hold them.
//!
//! The text is read by `xmltree`; what the library reads of the result is
//! held in [`XmlElement`], on which the lookups are verified. The model of an
//! element is an [`XmlTree`], in which the attributes are a mapping.

use crate::signature::{map_of, pairs_of};
use crate::text::{occurrences, occurs_at_most, str_eq};
use vstd::prelude::*;
use vstd::string::*;

verus! {

/// A node below an element.
#[derive(Debug)]
pub enum XmlNode {
    Element(XmlElement),
    Comment(String),
    CData(String),
    Text(String),
    ProcessingInstruction(String, Option<String>),
}

/// An element with its attributes and the nodes below it.
#[derive(Debug)]
pub struct XmlElement {
    pub name: String,
    pub attributes: Vec<(String, String)>,
    pub children: Vec<XmlNode>,
}

/// The model of a node.
pub enum XmlItem {
    Element(XmlTree),
    Comment(Seq<char>),
    CData(Seq<char>),
    Text(Seq<char>),
    ProcessingInstruction(Seq<char>, Option<Seq<char>>),
}

/// The model of an element.
pub struct XmlTree {
    pub name: Seq<char>,
    pub attributes: Map<Seq<char>, Seq<char>>,
    pub children: Seq<XmlItem>,
}

/// The first element among `items` that bears `name`.
pub open spec fn element_named(items: Seq<XmlItem>, name: Seq<char>) -> Option<XmlTree>
    decreases items.len(),
{
    if items.len() == 0 {
        None
    } else {
        match items[0] {
            XmlItem::Element(tree) if tree.name == name => Some(tree),
            _ => element_named(items.drop_first(), name),
        }
    }
}

/// Whether an item is character data, plain or in a CDATA section.
pub open spec fn is_character_data(item: XmlItem) -> bool {
    item is Text || item is CData
}

/// The character data of an item, empty for the other kinds.
pub open spec fn character_data(item: XmlItem) -> Seq<char> {
    match item {
        XmlItem::Text(s) => s,
        XmlItem::CData(s) => s,
        _ => Seq::empty(),
    }
}

/// The character data of `items`, joined in their order.
pub open spec fn joined_text(items: Seq<XmlItem>) -> Seq<char>
    decreases items.len(),
{
    if items.len() == 0 {
        Seq::empty()
    } else {
        joined_text(items.drop_last()) + character_data(items.last())
    }
}

impl XmlTree {
    /// The first child element of a name.
    pub open spec fn child(self, name: Seq<char>) -> Option<XmlTree> {
        element_named(self.children, name)
    }

    /// The text directly below the element: its character data joined, or
    /// nothing where it has none.
    pub open spec fn text(self) -> Option<Seq<char>> {
        if exists|i: int|
            0 <= i < self.children.len() && is_character_data(#[trigger] self.children[i]) {
            Some(joined_text(self.children))
        } else {
            None
        }
    }

    /// The value of an attribute.
    pub open spec fn attribute(self, name: Seq<char>) -> Option<Seq<char>> {
        if self.attributes.dom().contains(name) {
            Some(self.attributes[name])
        } else {
            None
        }
    }
}

impl View for XmlNode {
    type V = XmlItem;

    open spec fn view(&self) -> XmlItem
        decreases self,
    {
        match self {
            XmlNode::Element(element) => XmlItem::Element(element.view()),
            XmlNode::Comment(s) => XmlItem::Comment(s@),
            XmlNode::CData(s) => XmlItem::CData(s@),
            XmlNode::Text(s) => XmlItem::Text(s@),
            XmlNode::ProcessingInstruction(name, data) => XmlItem::ProcessingInstruction(
                name@,
                match data {
                    Some(s) => Some(s@),
                    None => None,
                },
            ),
        }
    }
}

impl View for XmlElement {
    type V = XmlTree;

    open spec fn view(&self) -> XmlTree
        decreases self,
    {
        XmlTree {
            name: self.name@,
            attributes: map_of(pairs_of(self.attributes@)),
            children: Seq::new(
                self.children@.len(),
                |i: int|
                    if 0 <= i < self.children@.len() {
                        self.children@[i].view()
                    } else {
                        arbitrary()
                    },
            ),
        }
    }
}

impl XmlElement {
    /// The first child element of a name.
    pub fn get_child(&self, name: &str) -> (found: Option<&XmlElement>)
        ensures
            match found {
                Some(element) => self@.child(name@) == Some(element@),
                None => self@.child(name@) is None,
            },
    {
        let ghost items = self@.children;
        let mut i: usize = 0;
        assert(items.skip(0) =~= items);
        while i < self.children.len()
            invariant
                i <= self.children.len(),
                items == self@.children,
                element_named(items, name@) == element_named(items.skip(i as int), name@),
            decreases self.children.len() - i,
        {
            assert(items.skip(i as int).drop_first() =~= items.skip(i + 1));
            assert(items.skip(i as int)[0] == self.children@[i as int]@);
            match &self.children[i] {
                XmlNode::Element(element) => {
                    if str_eq(element.name.as_str(), name) {
                        return Some(element);
                    }
                },
                _ => {},
            }
            i += 1;
        }
        None
    }

    /// The text directly below the element: its character data joined, or
    /// nothing where it has none.
    pub fn get_text(&self) -> (text: Option<String>)
        ensures
            match text {
                Some(s) => self@.text() == Some(s@),
                None => self@.text() is None,
            },
    {
        let ghost items = self@.children;
        let mut joined = String::new();
        let mut any = false;
        let mut i: usize = 0;
        while i < self.children.len()
            invariant
                i <= self.children.len(),
                items == self@.children,
                joined@ == joined_text(items.take(i as int)),
                any == (exists|j: int| 0 <= j < i && is_character_data(#[trigger] items[j])),
            decreases self.children.len() - i,
        {
            assert(items.take(i + 1).drop_last() =~= items.take(i as int));
            match &self.children[i] {
                XmlNode::Text(s) => {
                    joined.append(s.as_str());
                    any = true;
                },
                XmlNode::CData(s) => {
                    joined.append(s.as_str());
                    any = true;
                },
                _ => {},
            }
            i += 1;
        }
        assert(items.take(i as int) =~= items);
        if any {
            Some(joined)
        } else {
            None
        }
    }

    /// The value of an attribute.
    pub fn attribute(&self, name: &str) -> (value: Option<&String>)
        ensures
            match value {
                Some(v) => self@.attribute(name@) == Some(v@),
                None => self@.attribute(name@) is None,
            },
    {
        let ghost pairs = pairs_of(self.attributes@);
        let mut i: usize = self.attributes.len();
        assert(pairs.take(i as int) =~= pairs);
        while i > 0 && !str_eq(self.attributes[i - 1].0.as_str(), name)
            invariant
                i <= self.attributes.len(),
                pairs == pairs_of(self.attributes@),
                map_of(pairs).dom().contains(name@) == map_of(
                    pairs.take(i as int),
                ).dom().contains(name@),
                map_of(pairs)[name@] == map_of(pairs.take(i as int))[name@],
            decreases i,
        {
            assert(pairs.take(i as int).drop_last() =~= pairs.take(i - 1));
            i -= 1;
        }
        if i > 0 {
            Some(&self.attributes[i - 1].1)
        } else {
            None
        }
    }
}

/// `xmltree::Element`, of which nothing is known but what
/// [`xml_document`] says of the element that a text gives.
#[verifier::external_type_specification]
#[verifier::external_body]
pub struct ExElement(xmltree::Element);

/// What a text holds as `xmltree` reads it: the root element of the
/// document, or the words of the error that `xmltree` reports.
pub uninterp spec fn xml_document(text: Seq<char>) -> Result<XmlTree, Seq<char>>;

/// Takes an `xmltree::Element` apart: its name, its attributes as the pairs
/// of its map, and its children in their order, each by its variant.
#[verifier::external_body]
fn xml_from_element(element: xmltree::Element) -> (converted: XmlElement) {
    let node = |node: xmltree::XMLNode| match node {
        xmltree::XMLNode::Element(inner) => XmlNode::Element(xml_from_element(inner)),
        xmltree::XMLNode::Comment(s) => XmlNode::Comment(s),
        xmltree::XMLNode::CData(s) => XmlNode::CData(s),
        xmltree::XMLNode::Text(s) => XmlNode::Text(s),
        xmltree::XMLNode::ProcessingInstruction(a, b) => XmlNode::ProcessingInstruction(a, b),
    };
    XmlElement {
        name: element.name,
        attributes: element.attributes.into_iter().collect(),
        children: element.children.into_iter().map(node).collect(),
    }
}

/// The most opening angle brackets in a text that is read.
pub const MAX_MARKUP: usize = 256;

/// Whether a document type declaration starts at a place of a text.
pub open spec fn declaration_at(text: Seq<char>, i: int) -> bool {
    0 <= i && i + 2 < text.len() && text[i] == '<' && text[i + 1] == '!' && text[i + 2] == 'D'
}

/// Whether a text is plain enough to be read: it holds no more than
/// [`MAX_MARKUP`] opening angle brackets and no document type declaration.
pub open spec fn is_plain(text: Seq<char>) -> bool {
    &&& occurrences(text, '<') <= MAX_MARKUP
    &&& forall|i: int| !declaration_at(text, i)
}

/// Whether a text holds no document type declaration.
fn declares_nothing(text: &str) -> (none: bool)
    ensures
        none == forall|i: int| !declaration_at(text@, i),
{
    let mut matched: u8 = 0;
    for c in it: text.chars()
        invariant
            it.seq() == text@,
            matched <= 2,
            forall|i: int| i + 2 < it.index() ==> !declaration_at(text@, i),
            matched == 1 <==> it.index() >= 1 && text@[it.index() - 1] == '<',
            matched == 2 <==> it.index() >= 2 && text@[it.index() - 2] == '<'
                && text@[it.index() - 1] == '!',
    {
        if matched == 2 && c == 'D' {
            assert(declaration_at(text@, it.index() - 2));
            return false;
        }
        if c == '<' {
            matched = 1;
        } else if matched == 1 && c == '!' {
            matched = 2;
        } else {
            matched = 0;
        }
    }
    true
}

/// Whether a text is plain enough to be read.
pub fn check_plain(text: &str) -> (plain: bool)
    ensures
        plain == is_plain(text@),
{
    occurs_at_most(text, '<', MAX_MARKUP) && declares_nothing(text)
}

/// `xmltree::Element::parse` on the bytes of a text: the root element of the
/// document, or the error in the words of its `Display`. The parser descends
/// once for each element that is open, and nothing in it bounds that depth;
/// `requires` keeps to texts in which the depth is bounded: no more than
/// [`MAX_MARKUP`] elements start in a text with that many opening angle
/// brackets, unless the text declares entities that hold more, which only a
/// document type declaration can do.
#[verifier::external_body]
fn parse_xml(text: &str) -> (document: Result<XmlElement, String>)
    requires
        is_plain(text@),
    ensures
        match document {
            Ok(root) => xml_document(text@) == Ok::<XmlTree, Seq<char>>(root@),
            Err(message) => xml_document(text@) == Err::<XmlTree, Seq<char>>(message@),
        },
{
    match xmltree::Element::parse(text.as_bytes()) {
        Ok(root) => Ok(xml_from_element(root)),
        Err(error) => Err(error.to_string()),
    }
}

/// What a text gives when it is read as XML: the root element of its
/// document or the words of an error. A text that is not plain is an error
/// without being read.
pub open spec fn xml_reading(text: Seq<char>) -> Result<XmlTree, Seq<char>> {
    if is_plain(text) {
        xml_document(text)
    } else {
        Err("Markup beyond what is read"@)
    }
}

/// Reads a text as XML.
pub fn read_xml(text: &str) -> (document: Result<XmlElement, String>)
    ensures
        match document {
            Ok(root) => xml_reading(text@) == Ok::<XmlTree, Seq<char>>(root@),
            Err(message) => xml_reading(text@) == Err::<XmlTree, Seq<char>>(message@),
        },
{
    if check_plain(text) {
        parse_xml(text)
    } else {
        Err(String::from_str("Markup beyond what is read"))
    }
}

} // verus!
