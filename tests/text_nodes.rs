use wysiwyg::{utf16, CharType, Direction, DomHandle, HtmlFormatter, TextNode};

#[test]
fn offset_is_inside_node_end_of_node() {
    let test_node = TextNode::from(utf16("test"));
    assert!(!test_node.offset_is_inside_node(4, &Direction::Forwards));
    assert!(test_node.offset_is_inside_node(4, &Direction::Backwards))
}

#[test]
fn offset_is_inside_node_start_of_node() {
    let test_node = TextNode::from(utf16("test"));
    assert!(test_node.offset_is_inside_node(0, &Direction::Forwards));
    assert!(!test_node.offset_is_inside_node(0, &Direction::Backwards));
}

#[test]
fn offset_is_inside_node_middle_of_node() {
    let test_node = TextNode::from(utf16("test"));
    assert!(test_node.offset_is_inside_node(2, &Direction::Forwards));
    assert!(test_node.offset_is_inside_node(2, &Direction::Backwards));
}

#[test]
fn leading_zwsp_is_added_once_and_removed_once() {
    let mut node = TextNode::from(utf16("ab"));
    assert!(node.add_leading_zwsp());
    assert_eq!(*node.data(), utf16("\u{200B}ab"));
    assert!(!node.add_leading_zwsp());
    assert!(node.remove_leading_zwsp());
    assert_eq!(*node.data(), utf16("ab"));
    assert!(!node.remove_leading_zwsp());
}

#[test]
fn blank_text_holds_only_spaces() {
    assert!(TextNode::from(utf16(" \t\n")).is_blank());
    assert!(!TextNode::from(utf16(" a ")).is_blank());
    assert!(TextNode::from(utf16("")).is_empty());
    assert!(!TextNode::from(utf16("a")).is_empty());
}

#[test]
fn char_types_next_to_an_offset() {
    let node = TextNode::from(utf16("a ,"));
    assert_eq!(node.char_type_at_offset(0, &Direction::Forwards), Some(CharType::Other));
    assert_eq!(node.char_type_at_offset(2, &Direction::Backwards), Some(CharType::Whitespace));
    assert_eq!(node.char_type_at_offset(3, &Direction::Backwards), Some(CharType::Punctuation));
    assert_eq!(node.char_type_at_offset(3, &Direction::Forwards), None);
    assert_eq!(node.char_type_at_offset(0, &Direction::Backwards), None);
}

#[test]
fn text_node_keeps_its_handle() {
    let mut node = TextNode::from(utf16("x"));
    assert!(!node.handle().is_set());
    node.set_handle(DomHandle::from_raw(vec![1, 2]));
    assert_eq!(*node.handle().raw(), vec![1, 2]);
}

fn html_of(node: &TextNode, is_last: bool) -> String {
    let mut f = HtmlFormatter::new();
    node.fmt_html(&mut f, is_last);
    String::from_utf16(&f.finish()).unwrap()
}

#[test]
fn text_html_escapes_markup() {
    let node = TextNode::from(utf16("a < b && c > d"));
    assert_eq!(html_of(&node, false), "a &lt; b &amp;&amp; c &gt; d");
}

#[test]
fn text_html_keeps_runs_of_spaces() {
    let node = TextNode::from(utf16("a     b"));
    assert_eq!(html_of(&node, false), "a&nbsp;&nbsp;&nbsp;&nbsp; b");
}

#[test]
fn trailing_space_of_last_text_is_non_breaking() {
    let node = TextNode::from(utf16("a "));
    assert_eq!(html_of(&node, true), "a&nbsp;");
    assert_eq!(html_of(&node, false), "a ");
}
