use wysiwyg::{adjust_handles_for_delete, starts_with, DomHandle};

#[test]
fn starts_with_works() {
    let h0123 = DomHandle::from_raw(vec![0, 1, 2, 3]);
    let h012 = DomHandle::from_raw(vec![0, 1, 2]);
    let h123 = DomHandle::from_raw(vec![1, 2, 3]);
    let h = DomHandle::from_raw(vec![]);

    assert!(starts_with(&h0123, &h012));
    assert!(!starts_with(&h012, &h0123));
    assert!(starts_with(&h012, &h012));
    assert!(starts_with(&h012, &h));
    assert!(!starts_with(&h123, &h012));
    assert!(!starts_with(&h012, &h123));
}

#[test]
fn can_adjust_handles_when_removing_nodes() {
    let mut handles = vec![
        DomHandle::from_raw(vec![1, 2, 3]),    // Ignored because before
        DomHandle::from_raw(vec![2, 3, 4, 5]), // Deleted because inside
        DomHandle::from_raw(vec![3, 4, 5]),    // Adjusted because after
        DomHandle::from_raw(vec![3]),          // Adjusted because after
    ];

    let to_delete = DomHandle::from_raw(vec![2]);

    adjust_handles_for_delete(&mut handles, &to_delete);

    assert_eq!(*handles[0].raw(), vec![1, 2, 3]);
    assert_eq!(*handles[1].raw(), vec![2, 4, 5]);
    assert_eq!(*handles[2].raw(), vec![2]);
    assert_eq!(handles.len(), 3);
}

#[test]
fn can_adjust_handles_when_removing_nested_nodes() {
    let mut handles = vec![
        DomHandle::from_raw(vec![0, 9, 1, 2, 3]),
        DomHandle::from_raw(vec![0, 9, 2, 3, 4, 5]),
        DomHandle::from_raw(vec![0, 9, 3, 4, 5]),
        DomHandle::from_raw(vec![0, 9, 3]),
    ];

    let to_delete = DomHandle::from_raw(vec![0, 9, 2]);

    adjust_handles_for_delete(&mut handles, &to_delete);

    assert_eq!(*handles[0].raw(), vec![0, 9, 1, 2, 3]);
    assert_eq!(*handles[1].raw(), vec![0, 9, 2, 4, 5]);
    assert_eq!(*handles[2].raw(), vec![0, 9, 2]);
    assert_eq!(handles.len(), 3);
}

#[test]
fn handle_navigation_is_path_arithmetic() {
    let h = DomHandle::from_raw(vec![0, 3, 2]);
    assert!(h.is_set());
    assert!(!h.is_root());
    assert!(h.has_parent());
    assert_eq!(h.index_in_parent(), 2);
    assert_eq!(h.depth(), 3);
    assert_eq!(*h.parent_handle().raw(), vec![0, 3]);
    assert_eq!(*h.child_handle(7).raw(), vec![0, 3, 2, 7]);
    assert_eq!(*h.next_sibling().raw(), vec![0, 3, 3]);
    assert_eq!(*h.prev_sibling().raw(), vec![0, 3, 1]);
    assert_eq!(*h.sub_handle_up_to(1).raw(), vec![0]);
}

#[test]
fn root_and_unset_handles() {
    let root = DomHandle::from_raw(vec![]);
    assert!(root.is_root());
    assert!(!root.has_parent());
    assert!(!DomHandle::new_unset().is_set());
}
