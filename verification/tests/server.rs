use command_lines::elements::base::BaseNode;
use command_lines::elements::node::Element;
use command_lines::server::listing::{to_nodes, EntryKind, ListingEntry};
use command_lines::server::routes::static_candidates;
use command_lines::tools::{file_headers, make_response_parts};
use command_lines::ResponseHtml;

#[test]
fn routes_try_static_files_then_the_fallback() {
    assert!(static_candidates("/").is_empty());
    assert_eq!(static_candidates("/404"), vec!["404.html", "nothing.html"]);
    assert_eq!(static_candidates("/favicon.ico"), vec!["favicon.ico", "nothing.html"]);
    assert_eq!(static_candidates("/a.txt"), vec!["nothing.html"]);
    assert_eq!(static_candidates(""), vec!["nothing.html"]);
}

#[test]
fn html_headers() {
    let h = make_response_parts("html");
    assert_eq!(h.len(), 2);
    assert_eq!(h.get("content-type").unwrap(), "text/html");
    assert_eq!(h.get("cache-control").unwrap(), "max-age=3600, public");
    let names: Vec<&str> = h.keys().map(|k| k.as_str()).collect();
    assert_eq!(names, vec!["content-type", "cache-control"]);
}

#[test]
fn icon_headers() {
    let h = make_response_parts("ico");
    assert_eq!(h.len(), 2);
    assert_eq!(h.get("content-type").unwrap(), "image/x-icon");
    assert_eq!(h.get("accept-ranges").unwrap(), "bytes");
}

#[test]
fn other_extensions_get_no_headers() {
    assert!(make_response_parts("txt").is_empty());
    assert!(make_response_parts("HTML").is_empty());
}

#[test]
fn file_headers_add_the_length_last() {
    let h = file_headers("html", 1234);
    assert_eq!(h.len(), 3);
    assert_eq!(h.get("content-length").unwrap(), "1234");
    let names: Vec<&str> = h.keys().map(|k| k.as_str()).collect();
    assert_eq!(names, vec!["content-type", "cache-control", "content-length"]);
    let empty = file_headers("txt", 0);
    assert_eq!(empty.len(), 1);
    assert_eq!(empty.get("content-length").unwrap(), "0");
}

#[test]
fn response_body() {
    assert_eq!(ResponseHtml {}.body(), "hello world");
}

#[test]
fn listing_page() {
    let entries = vec![
        ListingEntry { name: "a.txt".to_string(), kind: EntryKind::File },
        ListingEntry { name: "dir".to_string(), kind: EntryKind::Dir },
        ListingEntry { name: "link".to_string(), kind: EntryKind::Other },
    ];
    let html = to_nodes(&entries);
    let expected = [
        "<html><head><title>vans</title><meta charset=\"UTF-8\"></head>",
        "<body><div>上一级</div>",
        "<div style=\"display: grid; grid-template-columns: 1fr 1fr 1fr;grid-row-gap: 3px;grid-column-gap: 10px;border: 2px solid cyan;\">",
        "<a style=\"color: blue;\" href=\"/a.txt\">a.txt</a>",
        "<div style=\"color: red;\">dir</div>",
        "</div></body></html>",
    ]
    .join("");
    assert_eq!(html, expected);
}

#[test]
fn listing_escapes_names_in_text() {
    let entries = vec![ListingEntry { name: "<x>".to_string(), kind: EntryKind::Dir }];
    assert!(to_nodes(&entries).contains("<div style=\"color: red;\">&lt;x&gt;</div>"));
}

#[test]
fn elements_keep_upper_case_names_and_child_order() {
    let mut root = Element::new("div");
    assert_eq!(root.name(), "DIV");
    assert!(root.last_child().is_none());
    root.append_child(Element::new("span"));
    root.append_child(Element::new("p"));
    assert_eq!(root.last_child().unwrap().name(), "P");
    root.set_attributes(vec![("class".to_string(), "name".to_string())]);
    assert_eq!(root.last_child().unwrap().name(), "P");
    assert_eq!(Element::new("straße").name(), "STRASSE");
}

#[test]
fn base_node_holds_its_name() {
    assert_eq!(BaseNode::new("div".to_string()).node_name(), "div");
}
