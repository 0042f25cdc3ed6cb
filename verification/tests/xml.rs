use offline_scrobbler::xml::{check_plain, read_xml, XmlElement, XmlNode, MAX_MARKUP};

fn element(name: &str, attributes: Vec<(&str, &str)>, children: Vec<XmlNode>) -> XmlElement {
    XmlElement {
        name: name.to_string(),
        attributes: attributes
            .into_iter()
            .map(|(name, value)| (name.to_string(), value.to_string()))
            .collect(),
        children,
    }
}

#[test]
fn get_child_finds_the_first_element_of_a_name() {
    let root = element(
        "root",
        vec![],
        vec![
            XmlNode::Text("key".to_string()),
            XmlNode::Comment("key".to_string()),
            XmlNode::Element(element("other", vec![], vec![])),
            XmlNode::Element(element("key", vec![("n", "1")], vec![])),
            XmlNode::Element(element("key", vec![("n", "2")], vec![])),
        ],
    );
    let found = root.get_child("key").unwrap();
    assert_eq!(found.attribute("n"), Some(&"1".to_string()));
    assert!(root.get_child("missing").is_none());
    assert!(root.get_child("root").is_none());
}

#[test]
fn get_text_joins_character_data() {
    let root = element(
        "root",
        vec![],
        vec![
            XmlNode::Text("a".to_string()),
            XmlNode::Element(element("x", vec![], vec![XmlNode::Text("inner".to_string())])),
            XmlNode::CData("b".to_string()),
            XmlNode::Comment("not text".to_string()),
            XmlNode::ProcessingInstruction("pi".to_string(), Some("data".to_string())),
            XmlNode::Text("c".to_string()),
        ],
    );
    assert_eq!(root.get_text(), Some("abc".to_string()));
}

#[test]
fn get_text_is_nothing_without_character_data() {
    let empty = element("root", vec![], vec![]);
    assert_eq!(empty.get_text(), None);
    let no_text = element(
        "root",
        vec![],
        vec![XmlNode::Comment("c".to_string()), XmlNode::Element(element("x", vec![], vec![]))],
    );
    assert_eq!(no_text.get_text(), None);
    let empty_text = element("root", vec![], vec![XmlNode::Text(String::new())]);
    assert_eq!(empty_text.get_text(), Some(String::new()));
}

#[test]
fn attribute_gives_the_value_of_a_name() {
    let root = element("root", vec![("accepted", "1"), ("ignored", "0")], vec![]);
    assert_eq!(root.attribute("accepted"), Some(&"1".to_string()));
    assert_eq!(root.attribute("ignored"), Some(&"0".to_string()));
    assert_eq!(root.attribute("other"), None);
}

#[test]
fn plain_texts_have_little_markup_and_no_declaration() {
    assert!(check_plain(""));
    assert!(check_plain("<a><b/></a>"));
    assert!(check_plain("<?xml version=\"1.0\"?><a/>"));
    assert!(check_plain("<!-- c --><a><![CDATA[x]]></a>"));
    assert!(check_plain("<!"));
    assert!(check_plain("<! D"));
    assert!(check_plain("!D<"));
    assert!(!check_plain("<!D"));
    assert!(!check_plain("<!DOCTYPE a><a/>"));
    assert!(!check_plain("<a/><<!D"));
    assert!(check_plain(&"<".repeat(MAX_MARKUP)));
    assert!(!check_plain(&"<".repeat(MAX_MARKUP + 1)));
    assert_eq!(MAX_MARKUP, 256);
}

#[test]
fn read_xml_gives_the_root_with_what_is_below() {
    let root = read_xml("<?xml version=\"1.0\"?><a x=\"1\" y=\"2\">t<b>inner</b><!-- c --><![CDATA[u]]><?pi d?></a>").unwrap();
    assert_eq!(root.name, "a");
    assert_eq!(root.attribute("x"), Some(&"1".to_string()));
    assert_eq!(root.attribute("y"), Some(&"2".to_string()));
    assert_eq!(root.attributes.len(), 2);
    assert_eq!(root.get_text(), Some("tu".to_string()));
    assert_eq!(root.get_child("b").unwrap().get_text(), Some("inner".to_string()));
    assert!(root.children.iter().any(|node| matches!(node, XmlNode::Comment(text) if text == " c ")));
    assert!(root
        .children
        .iter()
        .any(|node| matches!(node, XmlNode::ProcessingInstruction(name, Some(data)) if name == "pi" && data == "d")));
}

#[test]
fn read_xml_gives_the_words_of_an_error() {
    assert!(read_xml("").is_err());
    assert!(read_xml("<a>").is_err());
    assert!(read_xml("<a></b>").is_err());
    assert!(read_xml("plain words").is_err());
    assert_eq!(read_xml("<!DOCTYPE a><a/>").unwrap_err(), "Markup beyond what is read");
}
