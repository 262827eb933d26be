use wysiwyg::{
    find_range, utf16, ContainerNode, ContainerNodeKind, DomHandle, DomLocation, DomNode,
    InlineFormatType,
};

fn sample_root() -> DomNode {
    let bold =
        ContainerNode::new_formatting(InlineFormatType::Bold, vec![DomNode::new_text(utf16("cd"))]);
    let mut root = DomNode::Container(ContainerNode::new(
        utf16(""),
        ContainerNodeKind::Generic,
        None,
        vec![DomNode::new_text(utf16("ab")), DomNode::Container(bold)],
    ));
    root.set_handle(DomHandle::from_raw(vec![]));
    root
}

fn summary(l: &DomLocation) -> (Vec<usize>, usize, usize, usize, usize, bool) {
    (l.node_handle.raw().clone(), l.position, l.start_offset, l.end_offset, l.length, l.is_leaf)
}

#[test]
fn a_range_across_nodes_gives_every_node_it_meets() {
    let root = sample_root();
    let range = find_range(&root, 1, 3);
    let got: Vec<_> = range.locations.iter().map(summary).collect();
    assert_eq!(
        got,
        vec![
            (vec![], 0, 1, 3, 4, false),
            (vec![0], 0, 1, 2, 2, true),
            (vec![1], 2, 0, 1, 2, false),
            (vec![1, 0], 2, 0, 1, 2, true),
        ]
    );
}

#[test]
fn a_cursor_between_leaves_meets_both() {
    let root = sample_root();
    let range = find_range(&root, 2, 2);
    let got: Vec<_> = range.locations.iter().map(summary).collect();
    assert_eq!(
        got,
        vec![
            (vec![], 0, 2, 2, 4, false),
            (vec![0], 0, 2, 2, 2, true),
            (vec![1], 2, 0, 0, 2, false),
            (vec![1, 0], 2, 0, 0, 2, true),
        ]
    );
}

#[test]
fn a_range_inside_one_leaf_skips_the_others() {
    let root = sample_root();
    let range = find_range(&root, 3, 4);
    let got: Vec<_> = range.locations.iter().map(summary).collect();
    assert_eq!(
        got,
        vec![
            (vec![], 0, 3, 4, 4, false),
            (vec![1], 2, 1, 2, 2, false),
            (vec![1, 0], 2, 1, 2, 2, true),
        ]
    );
}

#[test]
fn location_helpers() {
    let l = DomLocation::new(DomHandle::from_raw(vec![0]), 5, 0, 3, 3, true);
    assert!(l.is_start());
    assert!(l.is_end());
    assert!(l.is_covered());
    assert_eq!(l.index_in_dom(), 5);
    let r = DomLocation::new(DomHandle::from_raw(vec![0]), 5, 1, 2, 3, true).reversed();
    assert_eq!((r.start_offset, r.end_offset), (2, 1));
    assert!(!r.is_covered());
}
