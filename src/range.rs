use vstd::prelude::*;
use crate::dom_handle::DomHandle;
use crate::dom_node::{collect_locations, node_locations, node_text_len, DomNode};

verus! {

broadcast use vstd::std_specs::vec::group_vec_axioms;

/// A node that a range touches: its handle, the position of its first code
/// unit in the document, where the range starts and ends inside it, its
/// length, and whether it is a leaf.
#[derive(Debug)]
pub struct DomLocation {
    pub node_handle: DomHandle,
    pub position: usize,
    pub start_offset: usize,
    pub end_offset: usize,
    pub length: usize,
    pub is_leaf: bool,
}

/// The mathematical value of a `DomLocation`.
pub struct LocationView {
    pub handle: Option<Seq<usize>>,
    pub position: int,
    pub start_offset: int,
    pub end_offset: int,
    pub length: int,
    pub is_leaf: bool,
}

impl View for DomLocation {
    type V = LocationView;

    open spec fn view(&self) -> LocationView {
        LocationView {
            handle: self.node_handle@,
            position: self.position as int,
            start_offset: self.start_offset as int,
            end_offset: self.end_offset as int,
            length: self.length as int,
            is_leaf: self.is_leaf,
        }
    }
}

pub open spec fn clamp_to(x: int, lo: int, hi: int) -> int {
    if x < lo {
        lo
    } else if x > hi {
        hi
    } else {
        x
    }
}

/// The location of node `n`, which starts at `pos`, in the range `s..e`.
pub open spec fn location_of(n: DomNode, pos: int, s: int, e: int) -> LocationView {
    let len = node_text_len(n);
    LocationView {
        handle: n.handle_spec(),
        position: pos,
        start_offset: clamp_to(s - pos, 0, len),
        end_offset: clamp_to(e - pos, 0, len),
        length: len,
        is_leaf: !(n is Container),
    }
}

/// Whether the text of a node at `pos..pos + len` meets the range `s..e`,
/// ends included.
pub open spec fn touches(pos: int, len: int, s: int, e: int) -> bool {
    pos <= e && s <= pos + len
}

pub open spec fn location_views(v: Seq<DomLocation>) -> Seq<LocationView> {
    v.map_values(|l: DomLocation| l@)
}

impl DomLocation {
    pub fn new(
        node_handle: DomHandle,
        position: usize,
        start_offset: usize,
        end_offset: usize,
        length: usize,
        is_leaf: bool,
    ) -> (r: DomLocation)
        ensures
            r@ == (LocationView {
                handle: node_handle@,
                position: position as int,
                start_offset: start_offset as int,
                end_offset: end_offset as int,
                length: length as int,
                is_leaf,
            }),
    {
        DomLocation { node_handle, position, start_offset, end_offset, length, is_leaf }
    }

    /// Where the range starts in the document, from this location.
    pub fn index_in_dom(&self) -> (r: usize)
        requires
            self.position + self.start_offset <= usize::MAX,
        ensures
            r == self.position + self.start_offset,
    {
        self.position + self.start_offset
    }

    /// This location with its two offsets swapped.
    pub fn reversed(&self) -> (r: DomLocation)
        ensures
            r@ == (LocationView {
                start_offset: self@.end_offset,
                end_offset: self@.start_offset,
                ..self@
            }),
    {
        DomLocation {
            node_handle: self.node_handle.duplicate(),
            position: self.position,
            start_offset: self.end_offset,
            end_offset: self.start_offset,
            length: self.length,
            is_leaf: self.is_leaf,
        }
    }

    /// Whether the range runs on to the end of this node.
    pub fn is_start(&self) -> (r: bool)
        ensures
            r == (self.end_offset == self.length),
    {
        self.end_offset == self.length
    }

    /// Whether the range runs back to the start of this node.
    pub fn is_end(&self) -> (r: bool)
        ensures
            r == (self.start_offset == 0),
    {
        self.start_offset == 0
    }

    /// Whether the range covers this node whole.
    pub fn is_covered(&self) -> (r: bool)
        ensures
            r == (self.start_offset == 0 && self.end_offset == self.length),
    {
        self.is_start() && self.is_end()
    }
}

/// The nodes of a range.
#[derive(Debug)]
pub struct MultipleNodesRange {
    pub locations: Vec<DomLocation>,
}

/// Resolves the range `start..end` of code units in the tree under `root`:
/// one location for each node whose text meets the range, ends included, in
/// document order.
pub fn find_range(root: &DomNode, start: usize, end: usize) -> (r: MultipleNodesRange)
    requires
        node_text_len(*root) <= usize::MAX,
    ensures
        location_views(r.locations@) == node_locations(*root, 0, start as int, end as int),
{
    let mut out: Vec<DomLocation> = Vec::new();
    collect_locations(root, 0, start, end, &mut out);
    assert(location_views(Seq::<DomLocation>::empty()) =~= Seq::<LocationView>::empty());
    assert(location_views(out@) =~= node_locations(*root, 0, start as int, end as int));
    MultipleNodesRange { locations: out }
}

} // verus!
