use vstd::prelude::*;

verus! {

/// The place of a node in a document tree: the index of each child taken
/// on the way down from the root, or unset while the node is not yet placed.
#[derive(Clone, Debug)]
pub struct DomHandle {
    path: Option<Vec<usize>>,
}

impl View for DomHandle {
    type V = Option<Seq<usize>>;

    closed spec fn view(&self) -> Option<Seq<usize>> {
        match self.path {
            Some(p) => Some(p@),
            None => None,
        }
    }
}

/// The path of a set handle.
pub open spec fn path_of(h: DomHandle) -> Seq<usize> {
    h@->Some_0
}

/// Whether `prefix` is the start of `path`.
pub open spec fn is_prefix(prefix: Seq<usize>, path: Seq<usize>) -> bool {
    prefix.len() <= path.len() && path.subrange(0, prefix.len() as int) == prefix
}

fn copy_path(v: &Vec<usize>) -> (r: Vec<usize>)
    ensures
        r@ == v@,
{
    let mut r: Vec<usize> = Vec::with_capacity(v.len());
    let mut i: usize = 0;
    while i < v.len()
        invariant
            i <= v@.len(),
            r@ == v@.subrange(0, i as int),
        decreases v@.len() - i,
    {
        r.push(v[i]);
        i = i + 1;
        assert(r@ =~= v@.subrange(0, i as int));
    }
    assert(r@ =~= v@);
    r
}

impl DomHandle {
    /// A handle with the given path.
    pub fn from_raw(path: Vec<usize>) -> (r: DomHandle)
        ensures
            r@ == Some(path@),
    {
        DomHandle { path: Some(path) }
    }

    /// A handle that is not placed yet.
    pub fn new_unset() -> (r: DomHandle)
        ensures
            r@ is None,
    {
        DomHandle { path: None }
    }

    /// A copy of this handle.
    pub fn duplicate(&self) -> (r: DomHandle)
        ensures
            r@ == self@,
    {
        match &self.path {
            Some(p) => DomHandle { path: Some(copy_path(p)) },
            None => DomHandle { path: None },
        }
    }

    pub fn is_set(&self) -> (r: bool)
        ensures
            r == self@ is Some,
    {
        self.path.is_some()
    }

    /// Whether this is the handle of the root.
    pub fn is_root(&self) -> (r: bool)
        requires
            self@ is Some,
        ensures
            r == (path_of(*self).len() == 0),
    {
        self.raw().len() == 0
    }

    /// The handle of this node's parent.
    pub fn parent_handle(&self) -> (r: DomHandle)
        requires
            self@ is Some,
            path_of(*self).len() > 0,
        ensures
            r@ == Some(path_of(*self).drop_last()),
    {
        let mut new_path = copy_path(self.raw());
        new_path.pop();
        DomHandle::from_raw(new_path)
    }

    /// The handle of this node's child at `child_index`.
    pub fn child_handle(&self, child_index: usize) -> (r: DomHandle)
        requires
            self@ is Some,
        ensures
            r@ == Some(path_of(*self).push(child_index)),
    {
        let mut new_path = copy_path(self.raw());
        new_path.push(child_index);
        DomHandle::from_raw(new_path)
    }

    /// Whether this node has a parent, that is, it is not the root.
    pub fn has_parent(&self) -> (r: bool)
        requires
            self@ is Some,
        ensures
            r == (path_of(*self).len() > 0),
    {
        self.raw().len() > 0
    }

    /// This node's index among its parent's children.
    pub fn index_in_parent(&self) -> (r: usize)
        requires
            self@ is Some,
            path_of(*self).len() > 0,
        ensures
            r == path_of(*self).last(),
    {
        let p = self.raw();
        p[p.len() - 1]
    }

    /// The handle of the next sibling.
    pub fn next_sibling(&self) -> (r: DomHandle)
        requires
            self@ is Some,
            path_of(*self).len() > 0,
            path_of(*self).last() < usize::MAX,
        ensures
            r@ == Some(path_of(*self).drop_last().push((path_of(*self).last() + 1) as usize)),
    {
        let i = self.index_in_parent();
        self.parent_handle().child_handle(i + 1)
    }

    /// The handle of the previous sibling.
    pub fn prev_sibling(&self) -> (r: DomHandle)
        requires
            self@ is Some,
            path_of(*self).len() > 0,
            path_of(*self).last() > 0,
        ensures
            r@ == Some(path_of(*self).drop_last().push((path_of(*self).last() - 1) as usize)),
    {
        let i = self.index_in_parent();
        self.parent_handle().child_handle(i - 1)
    }

    /// How deep the node lies: 0 for the root.
    pub fn depth(&self) -> (r: usize)
        requires
            self@ is Some,
        ensures
            r == path_of(*self).len(),
    {
        self.raw().len()
    }

    /// The handle of this node's ancestor at `depth`.
    pub fn sub_handle_up_to(&self, depth: usize) -> (r: DomHandle)
        requires
            self@ is Some,
            depth <= path_of(*self).len(),
        ensures
            r@ == Some(path_of(*self).subrange(0, depth as int)),
    {
        let p = self.raw();
        let mut r: Vec<usize> = Vec::with_capacity(depth);
        let mut i: usize = 0;
        while i < depth
            invariant
                i <= depth <= p@.len(),
                p@ == path_of(*self),
                r@ == p@.subrange(0, i as int),
            decreases depth - i,
        {
            r.push(p[i]);
            i = i + 1;
            assert(r@ =~= p@.subrange(0, i as int));
        }
        DomHandle::from_raw(r)
    }

    /// The path of this handle.
    pub fn raw(&self) -> (r: &Vec<usize>)
        requires
            self@ is Some,
        ensures
            r@ == path_of(*self),
    {
        match &self.path {
            Some(p) => p,
            None => {
                assert(false);
                unreached()
            },
        }
    }
}

/// Whether `subject` lies at or under `object`: the path of `object` begins
/// the path of `subject`.
pub fn starts_with(subject: &DomHandle, object: &DomHandle) -> (r: bool)
    requires
        subject@ is Some,
        object@ is Some,
    ensures
        r == is_prefix(path_of(*object), path_of(*subject)),
{
    let s = subject.raw();
    let o = object.raw();
    if s.len() < o.len() {
        return false;
    }
    let mut i: usize = 0;
    while i < o.len()
        invariant
            s@ == path_of(*subject),
            o@ == path_of(*object),
            o@.len() <= s@.len(),
            i <= o@.len(),
            forall|k: int| 0 <= k < i ==> s@[k] == o@[k],
        decreases o@.len() - i,
    {
        if s[i] != o[i] {
            assert(s@.subrange(0, o@.len() as int)[i as int] != o@[i as int]);
            return false;
        }
        i = i + 1;
    }
    assert(s@.subrange(0, o@.len() as int) =~= o@);
    true
}

/// What deleting the node at `deleted` makes of the handle `h`: none when
/// `h` lies at or under the deleted node; one index less at the deleted
/// node's depth when `h` lies under a later sibling; else unchanged.
pub open spec fn adjusted_for_delete(h: Seq<usize>, deleted: Seq<usize>) -> Option<Seq<usize>> {
    let p = (deleted.len() - 1) as int;
    if is_prefix(deleted, h) {
        None
    } else if is_prefix(deleted.drop_last(), h) && h.len() > p && h[p] > deleted.last() {
        Some(h.update(p, (h[p] - 1) as usize))
    } else {
        Some(h)
    }
}

/// The handles that remain after deleting `deleted`, adjusted and in order.
pub open spec fn handles_after_delete(hs: Seq<Seq<usize>>, deleted: Seq<usize>) -> Seq<Seq<usize>>
    decreases hs.len(),
{
    if hs.len() == 0 {
        Seq::empty()
    } else {
        let rest = handles_after_delete(hs.drop_last(), deleted);
        match adjusted_for_delete(hs.last(), deleted) {
            Some(h) => rest.push(h),
            None => rest,
        }
    }
}

/// The paths of a sequence of set handles.
pub open spec fn paths_of(hs: Seq<DomHandle>) -> Seq<Seq<usize>> {
    hs.map_values(|h: DomHandle| path_of(h))
}

/// Brings `handles` up to date after the node at `deleted` was removed:
/// handles at or under it go, handles under its later siblings move one
/// place back.
pub fn adjust_handles_for_delete(handles: &mut Vec<DomHandle>, deleted: &DomHandle)
    requires
        forall|i: int| 0 <= i < old(handles)@.len() ==> (#[trigger] old(handles)@[i])@ is Some,
        deleted@ is Some,
        path_of(*deleted).len() > 0,
    ensures
        paths_of(final(handles)@) == handles_after_delete(paths_of(old(handles)@), path_of(*deleted)),
        forall|i: int| 0 <= i < final(handles)@.len() ==> (#[trigger] final(handles)@[i])@ is Some,
{
    let ghost d = path_of(*deleted);
    let ghost hs0 = old(handles)@;
    let parent = deleted.parent_handle();
    let deleted_index = deleted.index_in_parent();
    let depth = parent.depth();
    let mut kept: Vec<DomHandle> = Vec::new();
    let mut i: usize = 0;
    while i < handles.len()
        invariant
            handles@ == hs0,
            deleted@ is Some,
            d == path_of(*deleted),
            d.len() > 0,
            parent@ == Some(d.drop_last()),
            deleted_index == d.last(),
            depth == d.len() - 1,
            i <= hs0.len(),
            forall|k: int| 0 <= k < hs0.len() ==> (#[trigger] hs0[k])@ is Some,
            forall|k: int| 0 <= k < kept@.len() ==> (#[trigger] kept@[k])@ is Some,
            paths_of(kept@) == handles_after_delete(paths_of(hs0.subrange(0, i as int)), d),
        decreases hs0.len() - i,
    {
        let h = &handles[i];
        proof {
            assert(paths_of(hs0.subrange(0, i + 1)).drop_last() =~= paths_of(
                hs0.subrange(0, i as int),
            ));
            assert(paths_of(hs0.subrange(0, i + 1)).last() == path_of(hs0[i as int]));
        }
        if starts_with(h, deleted) {
        } else if starts_with(h, &parent) && h.depth() > depth && h.raw()[depth]
            > deleted_index {
            let mut p = copy_path(h.raw());
            let v = p[depth];
            p.set(depth, v - 1);
            let ghost before = kept@;
            kept.push(DomHandle::from_raw(p));
            proof {
                assert(paths_of(kept@) =~= paths_of(before).push(
                    path_of(hs0[i as int]).update(depth as int, (v - 1) as usize),
                ));
            }
        } else {
            let ghost before = kept@;
            kept.push(h.duplicate());
            proof {
                assert(paths_of(kept@) =~= paths_of(before).push(path_of(hs0[i as int])));
            }
        }
        i = i + 1;
    }
    assert(hs0.subrange(0, hs0.len() as int) =~= hs0);
    *handles = kept;
}

} // verus!
