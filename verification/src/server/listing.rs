//! The HTML page that lists the entries of a directory.
use vstd::prelude::*;
use crate::html::node::{html_of, set_attribute, has_key, Node, NodeName, NodeType, NodeView};

verus! {

/// What a directory entry is.
#[derive(Clone, Copy, PartialEq, Eq, Structural)]
pub enum EntryKind {
    File,
    Dir,
    /// Neither a file nor a directory, such as a dangling link.
    Other,
}

/// A directory entry: its file name and what it is.
pub struct ListingEntry {
    pub name: String,
    pub kind: EntryKind,
}

/// The style of the grid that holds the entries.
pub open spec fn grid_style() -> Seq<char> {
    "display: grid; grid-template-columns: 1fr 1fr 1fr;grid-row-gap: 3px;grid-column-gap: 10px;border: 2px solid cyan;"@
}

/// A text node holding `s`.
pub open spec fn text_view(s: Seq<char>) -> NodeView {
    NodeView {
        node_type: NodeType::Text,
        node_name: NodeName::Div,
        node_value: Some(s),
        attributes: seq![],
        children: seq![],
    }
}

/// An element with the given tag, attributes and children.
pub open spec fn element_view(
    name: NodeName,
    attributes: Seq<(Seq<char>, Seq<char>)>,
    children: Seq<NodeView>,
) -> NodeView {
    NodeView { node_type: NodeType::Element, node_name: name, node_value: None, attributes, children }
}

/// The node for one entry: a file is a blue link to `/name`, a directory is
/// a red block, and anything else is left out.
pub open spec fn entry_node(name: Seq<char>, kind: EntryKind) -> Option<NodeView> {
    match kind {
        EntryKind::File => Some(
            element_view(
                NodeName::A,
                seq![("style"@, "color: blue;"@), ("href"@, seq!['/'] + name)],
                seq![text_view(name)],
            ),
        ),
        EntryKind::Dir => Some(
            element_view(NodeName::Div, seq![("style"@, "color: red;"@)], seq![text_view(name)]),
        ),
        EntryKind::Other => None,
    }
}

/// The nodes of the entries, in order.
pub open spec fn entry_nodes(es: Seq<(Seq<char>, EntryKind)>) -> Seq<NodeView>
    decreases es.len(),
{
    if es.len() == 0 {
        seq![]
    } else {
        let prev = entry_nodes(es.drop_last());
        match entry_node(es.last().0, es.last().1) {
            Some(n) => prev.push(n),
            None => prev,
        }
    }
}

/// The entries as names and kinds.
pub open spec fn entries_view(entries: Seq<ListingEntry>) -> Seq<(Seq<char>, EntryKind)> {
    entries.map_values(|e: ListingEntry| (e.name@, e.kind))
}

/// The listing page: a head with the title `vans` and a UTF-8 charset, and a
/// body with an "up one level" block and the grid of entries.
pub open spec fn listing_page(es: Seq<(Seq<char>, EntryKind)>) -> NodeView {
    let title = element_view(NodeName::Title, seq![], seq![text_view("vans"@)]);
    let meta = element_view(NodeName::Meta, seq![("charset"@, "UTF-8"@)], seq![]);
    let head = element_view(NodeName::Head, seq![], seq![title, meta]);
    let up = element_view(NodeName::Div, seq![], seq![text_view("上一级"@)]);
    let grid = element_view(NodeName::Div, seq![("style"@, grid_style())], entry_nodes(es));
    let body = element_view(NodeName::Body, seq![], seq![up, grid]);
    element_view(NodeName::Html, seq![], seq![head, body])
}

/// A new key goes last when the attributes are empty.
proof fn lemma_first_attribute(key: Seq<char>, value: Seq<char>)
    ensures
        set_attribute(seq![], key, value) == seq![(key, value)],
{
    assert(!has_key(seq![], key));
    assert(seq![].push((key, value)) =~= seq![(key, value)]);
}

/// A key that differs from the only one present goes after it.
proof fn lemma_second_attribute(a: (Seq<char>, Seq<char>), key: Seq<char>, value: Seq<char>)
    requires
        a.0 != key,
    ensures
        set_attribute(seq![a], key, value) == seq![a, (key, value)],
{
    assert(!has_key(seq![a], key));
    assert(seq![a].push((key, value)) =~= seq![a, (key, value)]);
}

/// The HTML page that lists the given directory entries.
pub fn to_nodes(entries: &Vec<ListingEntry>) -> (r: String)
    ensures
        r@ == html_of(listing_page(entries_view(entries@))),
{
    let ghost es = entries_view(entries@);
    proof {
        reveal_strlit("style");
        reveal_strlit("href");
        reveal_strlit("/");
        assert("/"@ =~= seq!['/']);
        assert("style"@[0] != "href"@[0]);
        lemma_first_attribute("style"@, grid_style());
    }
    let mut container = Node::new_node(NodeName::Div);
    container.attr_insert(
        "style",
        "display: grid; grid-template-columns: 1fr 1fr 1fr;grid-row-gap: 3px;grid-column-gap: 10px;border: 2px solid cyan;",
    );
    assert(es.take(0) =~= Seq::<(Seq<char>, EntryKind)>::empty());
    let n = entries.len();
    for i in 0..n
        invariant
            n == entries@.len(),
            es == entries_view(entries@),
            "style"@ != "href"@,
            "/"@ == seq!['/'],
            container.is_detached(),
            container@ == element_view(
                NodeName::Div,
                seq![("style"@, grid_style())],
                entry_nodes(es.take(i as int)),
            ),
    {
        proof {
            assert(es.take(i + 1).drop_last() =~= es.take(i as int));
            assert(es.take(i + 1).last() == es[i as int]);
            assert(es[i as int] == (entries@[i as int].name@, entries@[i as int].kind));
        }
        let ghost before = container@;
        match entries[i].kind {
            EntryKind::File => {
                let mut node = Node::new_node(NodeName::A);
                let text_node = Node::new_text(entries[i].name.clone());
                node.append_child(text_node);
                proof {
                    lemma_first_attribute("style"@, "color: blue;"@);
                }
                node.attr_insert("style", "color: blue;");
                let mut href = String::from_str("/");
                href.append(entries[i].name.as_str());
                proof {
                    lemma_second_attribute(("style"@, "color: blue;"@), "href"@, href@);
                }
                node.attr_insert("href", href.as_str());
                assert(node@.children =~= seq![text_view(entries@[i as int].name@)]);
                container.append_child(node);
            },
            EntryKind::Dir => {
                let mut node = Node::new_node(NodeName::Div);
                let text_node = Node::new_text(entries[i].name.clone());
                node.append_child(text_node);
                proof {
                    lemma_first_attribute("style"@, "color: red;"@);
                }
                node.attr_insert("style", "color: red;");
                assert(node@.children =~= seq![text_view(entries@[i as int].name@)]);
                container.append_child(node);
            },
            EntryKind::Other => {},
        }
        assert(container@ == element_view(
            NodeName::Div,
            seq![("style"@, grid_style())],
            entry_nodes(es.take(i + 1)),
        ));
    }
    assert(es.take(n as int) =~= es);
    let mut html = Node::new_node(NodeName::Html);
    let mut head = Node::new_node(NodeName::Head);
    let mut title = Node::new_node(NodeName::Title);
    let mut meta = Node::new_node(NodeName::Meta);
    proof {
        lemma_first_attribute("charset"@, "UTF-8"@);
    }
    meta.attr_insert("charset", "UTF-8");
    title.append_child(Node::new_text(String::from_str("vans")));
    let ghost title_view = title@;
    assert(title_view == element_view(NodeName::Title, seq![], seq![text_view("vans"@)])) by {
        assert(title_view.children =~= seq![text_view("vans"@)]);
    }
    let ghost meta_view = meta@;
    head.append_child(title);
    head.append_child(meta);
    let ghost head_view = head@;
    assert(head_view.children =~= seq![title_view, meta_view]);
    html.append_child(head);
    let mut body = Node::new_node(NodeName::Body);
    let mut head_route = Node::new_node(NodeName::Div);
    head_route.append_child(Node::new_text(String::from_str("上一级")));
    let ghost up_view = head_route@;
    assert(up_view.children =~= seq![text_view("上一级"@)]);
    let ghost grid_view = container@;
    body.append_child(head_route);
    body.append_child(container);
    let ghost body_view = body@;
    assert(body_view.children =~= seq![up_view, grid_view]);
    html.append_child(body);
    assert(html@.children =~= seq![head_view, body_view]);
    assert(html@ =~= listing_page(es));
    html.to_html()
}

/// How many entries are files or directories.
pub open spec fn listed_count(es: Seq<(Seq<char>, EntryKind)>) -> nat
    decreases es.len(),
{
    if es.len() == 0 {
        0
    } else {
        listed_count(es.drop_last()) + if es.last().1 == EntryKind::Other {
            0nat
        } else {
            1nat
        }
    }
}

/// The grid holds one node per file or directory, and none for anything else.
pub proof fn law_grid_lists_files_and_dirs(es: Seq<(Seq<char>, EntryKind)>)
    ensures
        entry_nodes(es).len() == listed_count(es),
    decreases es.len(),
{
    if es.len() > 0 {
        law_grid_lists_files_and_dirs(es.drop_last());
    }
}

} // verus!
