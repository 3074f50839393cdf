use command_lines::html::tools::{escape_html_attr, escape_html_text, is_void_element, is_void_name};
use command_lines::node::{Node, NodeName, NodeType};

#[test]
fn escape_text_rewrites_all_special_characters() {
    assert_eq!(
        escape_html_text("<a href='x'>&\"</a>"),
        "&lt;a href=&#39;x&#39;&gt;&amp;&quot;&lt;/a&gt;"
    );
}

#[test]
fn escape_text_keeps_plain_text() {
    assert_eq!(escape_html_text("hello, 世界"), "hello, 世界");
    assert_eq!(escape_html_text(""), "");
}

#[test]
fn escape_attr_keeps_angle_brackets() {
    assert_eq!(escape_html_attr("a<b>\"c'&"), "a<b>&quot;c&#39;&amp;");
}

#[test]
fn escaped_text_has_no_markup_characters() {
    let out = escape_html_text("<<>>\"'");
    assert!(!out.contains('<') && !out.contains('>') && !out.contains('"') && !out.contains('\''));
}

#[test]
fn void_elements_ignore_case() {
    assert!(is_void_element("br"));
    assert!(is_void_element("BR"));
    assert!(is_void_element("Meta"));
    assert!(is_void_element("wbr"));
    assert!(!is_void_element("div"));
    assert!(!is_void_element(""));
    assert!(!is_void_element("brr"));
}

#[test]
fn void_element_lowercases_unicode() {
    // U+212A KELVIN SIGN lowercases to an ASCII 'k'.
    assert!(is_void_element("LIN\u{212A}"));
    assert!(!is_void_name("LIN\u{212A}"));
}

#[test]
fn void_name_is_case_sensitive() {
    assert!(is_void_name("img"));
    assert!(!is_void_name("IMG"));
}

#[test]
fn node_names_and_labels() {
    assert_eq!(NodeName::Title.to_string(), "title");
    assert_eq!(NodeName::A.as_str(), "a");
    assert_eq!(NodeName::default().as_str(), "div");
    assert_eq!(NodeType::Text.label(), "文本节点");
    assert!(NodeType::default() == NodeType::Element);
}

#[test]
fn empty_element_renders_open_and_close_tags() {
    assert_eq!(Node::new_node(NodeName::Div).to_html(), "<div></div>");
}

#[test]
fn text_node_renders_escaped_text() {
    assert_eq!(Node::new_text("a<b & c".to_string()).to_html(), "a&lt;b &amp; c");
}

#[test]
fn meta_is_void() {
    let mut meta = Node::new_node(NodeName::Meta);
    meta.attr_insert("charset", "UTF-8");
    meta.append_child(Node::new_text("ignored".to_string()));
    assert_eq!(meta.to_html(), "<meta charset=\"UTF-8\">");
}

#[test]
fn children_render_in_append_order() {
    let mut div = Node::new_node(NodeName::Div);
    div.append_child(Node::new_node(NodeName::Span));
    div.append_child(Node::new_text("x".to_string()));
    div.append_child(Node::new_node(NodeName::P));
    assert_eq!(div.to_html(), "<div><span></span>x<p></p></div>");
}

#[test]
fn attributes_render_in_first_set_order_and_are_replaced_in_place() {
    let mut a = Node::new_node(NodeName::A);
    a.attr_insert("style", "color: blue;");
    a.attr_insert("href", "/x");
    a.attr_insert("style", "color: red;");
    assert_eq!(a.to_html(), "<a style=\"color: red;\" href=\"/x\"></a>");
}

#[test]
fn attribute_values_are_written_as_given() {
    let mut p = Node::new_node(NodeName::P);
    p.attr_insert("title", "a<b");
    assert_eq!(p.to_html(), "<p title=\"a<b\"></p>");
}

#[test]
fn nested_document() {
    let mut html = Node::new_node(NodeName::Html);
    let mut head = Node::new_node(NodeName::Head);
    let mut title = Node::new_node(NodeName::Title);
    title.append_child(Node::new_text("t".to_string()));
    head.append_child(title);
    html.append_child(head);
    let mut body = Node::new_node(NodeName::Body);
    body.append_child(Node::new_text("b".to_string()));
    html.append_child(body);
    assert_eq!(
        html.to_html(),
        "<html><head><title>t</title></head><body>b</body></html>"
    );
}
