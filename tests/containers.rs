use wysiwyg::{
    utf16, ContainerNode, ContainerNodeKind, DomHandle, DomNode, InlineFormatType, ListType,
    MentionDetector,
};

fn container_with_handle(raw_handle: &[usize]) -> ContainerNode {
    let mut node = ContainerNode::new(utf16("div"), ContainerNodeKind::Generic, None, Vec::new());
    let handle = DomHandle::from_raw(raw_handle.to_vec());
    node.set_handle(handle);
    node
}

fn text_node(content: &str) -> DomNode {
    DomNode::new_text(utf16(content))
}

fn html(node: &DomNode) -> String {
    String::from_utf16(&node.to_html()).unwrap()
}

#[test]
fn adding_a_child_sets_the_correct_handle() {
    let mut node = container_with_handle(&[4, 5, 4]);

    // Append some children to a node
    node.append_child(text_node("0"));
    node.append_child(text_node("1"));
    node.append_child(text_node("2"));

    let text_node0 = &node.children()[0];
    let text_node1 = &node.children()[1];
    let text_node2 = &node.children()[2];

    // Nodes got inserted in the right places
    assert_eq!(text_node0.to_html(), utf16("0"));
    assert_eq!(text_node1.to_html(), utf16("1"));
    assert_eq!(text_node2.to_html(), utf16("2"));

    // And they have the right handles
    assert_eq!(text_node0.handle().raw(), &[4, 5, 4, 0]);
    assert_eq!(text_node1.handle().raw(), &[4, 5, 4, 1]);
    assert_eq!(text_node2.handle().raw(), &[4, 5, 4, 2]);
}

#[test]
fn removing_a_child_sets_the_correct_handles_after() {
    let mut node = container_with_handle(&[4, 5, 4]);
    node.append_child(text_node("0"));
    node.append_child(text_node("1"));
    node.append_child(text_node("2"));
    node.append_child(text_node("3"));

    // Remove 2 children from a node (reverse order to make indices nice)
    node.remove_child(2);
    node.remove_child(0);

    let text_node1 = &node.children()[0];
    let text_node3 = &node.children()[1];

    // The right nodes got deleted
    assert_eq!(text_node1.to_html(), utf16("1"));
    assert_eq!(text_node3.to_html(), utf16("3"));

    // And they have the right handles
    assert_eq!(text_node1.handle().raw(), &[4, 5, 4, 0]);
    assert_eq!(text_node3.handle().raw(), &[4, 5, 4, 1]);
}

#[test]
fn replacing_child_updates_the_relevant_handles() {
    let mut node = container_with_handle(&[4, 5, 4]);

    node.append_child(text_node("0"));
    node.append_child(text_node("1"));
    node.append_child(text_node("2"));

    // Replace the middle child with three new ones
    node.replace_child(1, vec![text_node("1a"), text_node("1b"), text_node("1c")]);

    let text_node0 = &node.children()[0];
    let text_node1a = &node.children()[1];
    let text_node1b = &node.children()[2];
    let text_node1c = &node.children()[3];
    let text_node2 = &node.children()[4];

    // The new nodes got inserted in the right places
    assert_eq!(text_node0.to_html(), utf16("0"));
    assert_eq!(text_node1a.to_html(), utf16("1a"));
    assert_eq!(text_node1b.to_html(), utf16("1b"));
    assert_eq!(text_node1c.to_html(), utf16("1c"));
    assert_eq!(text_node2.to_html(), utf16("2"));

    assert_eq!(text_node0.handle().raw(), &[4, 5, 4, 0]);

    // The new children got inserted with the right handles
    assert_eq!(text_node1a.handle().raw(), &[4, 5, 4, 1]);
    assert_eq!(text_node1b.handle().raw(), &[4, 5, 4, 2]);
    assert_eq!(text_node1c.handle().raw(), &[4, 5, 4, 3]);

    // The previous node 2 was updated because it has moved to the right
    assert_eq!(text_node2.handle().raw(), &[4, 5, 4, 4]);
}

#[test]
fn replace_child_returns_the_handles_after_the_new_children() {
    let mut node = container_with_handle(&[]);
    node.append_child(text_node("0"));
    node.append_child(text_node("1"));
    node.append_child(text_node("2"));
    let handles = node.replace_child(0, vec![text_node("a"), text_node("b")]);
    assert_eq!(handles.len(), 2);
    assert_eq!(handles[0].raw(), &[2]);
    assert_eq!(handles[1].raw(), &[3]);
}

#[test]
fn inserting_a_child_moves_the_later_ones() {
    let mut node = container_with_handle(&[1]);
    node.append_child(text_node("a"));
    node.append_child(text_node("c"));
    node.insert_child(1, text_node("b"));
    assert_eq!(node.children()[1].to_html(), utf16("b"));
    assert_eq!(node.children()[2].handle().raw(), &[1, 2]);
}

#[test]
fn nested_containers_get_handles_all_the_way_down() {
    let bold = ContainerNode::new_formatting(InlineFormatType::Bold, vec![text_node("b")]);
    let mut root = container_with_handle(&[]);
    root.append_child(text_node("a"));
    root.append_child(DomNode::Container(bold));
    let inner = root.children()[1].lookup_node(&vec![0]).unwrap();
    assert_eq!(inner.handle().raw(), &[1, 0]);
    let found = DomNode::Container(root);
    let leaf = found.lookup_node(&vec![1, 0]).unwrap();
    assert_eq!(leaf.handle().raw(), &[1, 0]);
    assert!(found.lookup_node(&vec![2]).is_none());
    assert!(found.lookup_node(&vec![0, 0]).is_none());
}

#[test]
fn container_html_and_text_length() {
    let link = ContainerNode::new_link(utf16("https://x.org"), vec![text_node("x")]);
    let list = ContainerNode::new_list(
        ListType::Unordered,
        vec![DomNode::Container(ContainerNode::new_list_item(utf16("li"), vec![text_node("i")]))],
    );
    let root = DomNode::Container(ContainerNode::new(
        utf16(""),
        ContainerNodeKind::Generic,
        None,
        vec![
            text_node("a & "),
            DomNode::Container(link),
            DomNode::new_line_break(),
            DomNode::Container(list),
        ],
    ));
    assert_eq!(
        html(&root),
        "a &amp; <a href=\"https://x.org\">x</a><br /><ul><li>i</li></ul>"
    );
    assert_eq!(root.text_len(), 7);
    assert_eq!(root.to_raw_text(), utf16("a & x\ni"));
}

#[test]
fn last_space_of_a_container_is_non_breaking() {
    let em = ContainerNode::new_formatting(InlineFormatType::Italic, vec![text_node("a ")]);
    assert_eq!(html(&DomNode::Container(em)), "<em>a&nbsp;</em>");
}

#[test]
fn formatting_containers_from_tags() {
    let b = ContainerNode::new_formatting_from_tag("b", Vec::new()).unwrap();
    assert!(b.is_formatting_node());
    assert_eq!(*b.name(), utf16("b"));
    assert!(matches!(b.kind(), ContainerNodeKind::Formatting(InlineFormatType::Bold)));
    assert!(ContainerNode::new_formatting_from_tag("p", Vec::new()).is_none());
}

#[test]
fn list_kinds_and_empty_items() {
    let mut list = ContainerNode::new_list(ListType::Ordered, Vec::new());
    assert!(list.is_list_of_type(ListType::Ordered));
    assert!(!list.is_list_of_type(ListType::Unordered));
    assert!(list.is_structure_node());
    list.set_list_type(ListType::Unordered);
    assert!(list.is_list_of_type(ListType::Unordered));
    let empty = ContainerNode::new_list_item(utf16("li"), vec![text_node("\u{200B}")]);
    assert!(empty.is_list_item());
    assert!(empty.is_empty_list_item());
    let full = ContainerNode::new_list_item(utf16("li"), vec![text_node("\u{200B}a")]);
    assert!(!full.is_empty_list_item());
    let link = ContainerNode::new_link(utf16("u"), Vec::new());
    assert_eq!(link.attributes().as_ref().unwrap()[0].0, utf16("href"));
}

#[test]
fn mention_detector_can_be_made() {
    let _detector = MentionDetector::new();
}
