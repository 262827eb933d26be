use vstd::prelude::*;
use crate::document::attr_views;
use crate::dom_handle::{path_of, DomHandle};
use crate::format_type::{format_of_tag, tag_units_of, InlineFormatType};
use crate::unicode::{copy_units, utf16, utf16_units, NEWLINE, ZWSP};
use crate::range::{clamp_to, location_of, location_views, touches, DomLocation, LocationView};
use crate::html_formatter::{html_char_unit, nbsp_entities, text_html, HtmlChar, HtmlFormatter};
use crate::text_node::TextNode;

verus! {

broadcast use vstd::std_specs::vec::group_vec_axioms;

/// What a container is.
#[derive(Debug)]
pub enum ContainerNodeKind {
    Generic,
    Formatting(InlineFormatType),
    Link(Vec<u16>),
    List,
    ListItem,
    Paragraph,
}

/// A node that holds other nodes.
#[derive(Debug)]
pub struct ContainerNode {
    name: Vec<u16>,
    kind: ContainerNodeKind,
    attrs: Option<Vec<(Vec<u16>, Vec<u16>)>>,
    children: Vec<DomNode>,
    handle: DomHandle,
}

/// A hard line break.
#[derive(Debug)]
pub struct LineBreakNode {
    handle: DomHandle,
}

/// A node of a document tree.
#[derive(Debug)]
pub enum DomNode {
    Container(ContainerNode),
    Text(TextNode),
    LineBreak(LineBreakNode),
}

/// The number of code units that a node counts for: its text, one for a
/// line break, and for a container the sum over its children.
pub closed spec fn node_text_len(n: DomNode) -> int
    decreases n,
{
    match n {
        DomNode::Container(c) => children_text_len(c, c.children@.len() as int),
        DomNode::Text(t) => t.text().len() as int,
        DomNode::LineBreak(_) => 1,
    }
}

/// The line break that the child at `i` counts for after its text: one for a
/// paragraph that a sibling follows.
pub closed spec fn gap_after(c: ContainerNode, i: int) -> int {
    if 0 <= i < c.children@.len() - 1 && (c.children@[i] matches DomNode::Container(p)
        && p.kind is Paragraph) {
        1
    } else {
        0
    }
}

/// The number of code units that the first `k` children of `c` count for.
pub closed spec fn children_text_len(c: ContainerNode, k: int) -> int
    decreases c, k,
{
    if k <= 0 || k > c.children@.len() {
        0
    } else {
        children_text_len(c, k - 1) + node_text_len(c.children@[k - 1]) + gap_after(c, k - 1)
    }
}

/// The kind of a list.
#[derive(PartialEq, Eq, Structural, Debug, Clone, Copy)]
pub enum ListType {
    Ordered,
    Unordered,
}

/// The tag of each kind of list, in code units: `ol` or `ul`.
pub open spec fn list_tag_units(t: ListType) -> Seq<u16> {
    match t {
        ListType::Ordered => seq![0x6Fu16, 0x6C],
        ListType::Unordered => seq![0x75u16, 0x6C],
    }
}

impl ListType {
    pub fn tag_units(&self) -> (r: Vec<u16>)
        ensures
            r@ == list_tag_units(*self),
    {
        let r = match self {
            ListType::Ordered => vec![0x6Fu16, 0x6C],
            ListType::Unordered => vec![0x75u16, 0x6C],
        };
        assert(r@ =~= list_tag_units(*self));
        r
    }
}

pub(crate) fn write_attrs(formatter: &mut HtmlFormatter, attrs: &Vec<(Vec<u16>, Vec<u16>)>)
    requires
        old(formatter).wf(),
    ensures
        final(formatter).wf(),
        final(formatter)@ == old(formatter)@ + attrs_html(
            attr_views(attrs@),
        ),
{
    let ghost a = attr_views(attrs@);
    let mut i: usize = 0;
    while i < attrs.len()
        invariant
            i <= attrs@.len(),
            a == attr_views(attrs@),
            formatter.wf(),
            formatter@ == old(formatter)@ + attrs_html(a.subrange(0, i as int)),
        decreases attrs@.len() - i,
    {
        let ghost before = formatter@;
        let (name, value) = &attrs[i];
        formatter.write_char(HtmlChar::Space);
        formatter.write(name.as_slice());
        formatter.write_char(HtmlChar::Equal);
        formatter.write_char(HtmlChar::Quote);
        formatter.write(value.as_slice());
        formatter.write_char(HtmlChar::Quote);
        proof {
            assert(a.subrange(0, i + 1).drop_last() =~= a.subrange(0, i as int));
            assert(a.subrange(0, i + 1).last() == (name@, value@));
            assert(formatter@ =~= old(formatter)@ + attrs_html(a.subrange(0, i + 1)));
        }
        i = i + 1;
    }
    assert(a.subrange(0, attrs@.len() as int) =~= a);
}

fn units_equal(a: &Vec<u16>, b: &Vec<u16>) -> (r: bool)
    ensures
        r == (a@ == b@),
{
    if a.len() != b.len() {
        return false;
    }
    let mut i: usize = 0;
    while i < a.len()
        invariant
            a@.len() == b@.len(),
            i <= a@.len(),
            forall|k: int| 0 <= k < i ==> a@[k] == b@[k],
        decreases a@.len() - i,
    {
        if a[i] != b[i] {
            return false;
        }
        i = i + 1;
    }
    assert(a@ =~= b@);
    true
}

impl LineBreakNode {
    /// A line break that is not placed in a tree yet.
    pub fn new() -> (r: LineBreakNode)
        ensures
            r.handle_spec() is None,
    {
        LineBreakNode { handle: DomHandle::new_unset() }
    }

    pub closed spec fn handle_spec(&self) -> Option<Seq<usize>> {
        self.handle@
    }
}

impl ContainerNode {
    pub closed spec fn name_spec(&self) -> Seq<u16> {
        self.name@
    }

    pub closed spec fn kind_spec(&self) -> ContainerNodeKind {
        self.kind
    }

    /// The attributes, each a name and a value.
    pub closed spec fn attrs_spec(&self) -> Option<Seq<(Seq<u16>, Seq<u16>)>> {
        match self.attrs {
            Some(a) => Some(attr_views(a@)),
            None => None,
        }
    }

    /// A container that is not placed in a tree yet.
    pub fn new(
        name: Vec<u16>,
        kind: ContainerNodeKind,
        attrs: Option<Vec<(Vec<u16>, Vec<u16>)>>,
        children: Vec<DomNode>,
    ) -> (r: ContainerNode)
        ensures
            r.name_spec() == name@,
            r.kind_spec() == kind,
            r.attrs_spec() == match attrs {
                Some(a) => Some(attr_views(a@)),
                None => None,
            },
            r.children_spec() == children@,
            r.handle_spec() is None,
    {
        ContainerNode { name, kind, attrs, children, handle: DomHandle::new_unset() }
    }

    /// A container of the format `format`, named by its canonical tag.
    pub fn new_formatting(format: InlineFormatType, children: Vec<DomNode>) -> (r: ContainerNode)
        ensures
            r.name_spec() == tag_units_of(format),
            r.kind_spec() == ContainerNodeKind::Formatting(format),
            r.attrs_spec() is None,
            r.children_spec() == children@,
            r.handle_spec() is None,
    {
        ContainerNode {
            name: format.tag_units(),
            kind: ContainerNodeKind::Formatting(format),
            attrs: None,
            children,
            handle: DomHandle::new_unset(),
        }
    }

    /// A container of the format that the tag `format` names, if it names
    /// one; the container keeps the tag as its name.
    pub fn new_formatting_from_tag(format: &str, children: Vec<DomNode>) -> (r: Option<ContainerNode>)
        ensures
            r is Some <==> format_of_tag(format@) is Some,
            r matches Some(c) ==> c.name_spec() == utf16_units(format@) && c.kind_spec()
                == ContainerNodeKind::Formatting(format_of_tag(format@)->Some_0) && c.attrs_spec() is None
                && c.children_spec() == children@ && c.handle_spec() is None,
    {
        match InlineFormatType::from_tag(format) {
            Some(f) => Some(
                ContainerNode {
                    name: utf16(format),
                    kind: ContainerNodeKind::Formatting(f),
                    attrs: None,
                    children,
                    handle: DomHandle::new_unset(),
                },
            ),
            None => None,
        }
    }

    /// A list of the kind `list_type`.
    pub fn new_list(list_type: ListType, children: Vec<DomNode>) -> (r: ContainerNode)
        ensures
            r.name_spec() == list_tag_units(list_type),
            r.kind_spec() == ContainerNodeKind::List,
            r.attrs_spec() is None,
            r.children_spec() == children@,
            r.handle_spec() is None,
    {
        ContainerNode {
            name: list_type.tag_units(),
            kind: ContainerNodeKind::List,
            attrs: None,
            children,
            handle: DomHandle::new_unset(),
        }
    }

    /// An item of a list.
    pub fn new_list_item(item_name: Vec<u16>, children: Vec<DomNode>) -> (r: ContainerNode)
        ensures
            r.name_spec() == item_name@,
            r.kind_spec() == ContainerNodeKind::ListItem,
            r.attrs_spec() is None,
            r.children_spec() == children@,
            r.handle_spec() is None,
    {
        ContainerNode {
            name: item_name,
            kind: ContainerNodeKind::ListItem,
            attrs: None,
            children,
            handle: DomHandle::new_unset(),
        }
    }

    /// A link to `url`: an `a` container whose `href` is the url.
    pub fn new_link(url: Vec<u16>, children: Vec<DomNode>) -> (r: ContainerNode)
        ensures
            r.name_spec() == seq![0x61u16],
            r.kind_spec() matches ContainerNodeKind::Link(u) && u@ == url@,
            r.attrs_spec() == Some(seq![(seq![0x68u16, 0x72, 0x65, 0x66], url@)]),
            r.children_spec() == children@,
            r.handle_spec() is None,
    {
        let kind_url = copy_units(&url);
        let r = ContainerNode {
            name: vec![0x61u16],
            kind: ContainerNodeKind::Link(kind_url),
            attrs: Some(vec![(vec![0x68u16, 0x72, 0x65, 0x66], url)]),
            children,
            handle: DomHandle::new_unset(),
        };
        assert(r.name@ =~= seq![0x61u16]);
        assert(r.attrs_spec()->Some_0 =~= seq![(seq![0x68u16, 0x72, 0x65, 0x66], url@)]);
        r
    }

    pub fn handle(&self) -> (r: DomHandle)
        ensures
            r@ == self.handle_spec(),
    {
        self.handle.duplicate()
    }

    pub fn name(&self) -> (r: &Vec<u16>)
        ensures
            r@ == self.name_spec(),
    {
        &self.name
    }

    pub fn attributes(&self) -> (r: &Option<Vec<(Vec<u16>, Vec<u16>)>>)
        ensures
            r is Some <==> self.attrs_spec() is Some,
            r matches Some(a) ==> attr_views(a@)
                == self.attrs_spec()->Some_0,
    {
        &self.attrs
    }

    pub fn children(&self) -> (r: &Vec<DomNode>)
        ensures
            r@ == self.children_spec(),
    {
        &self.children
    }

    pub fn kind(&self) -> (r: &ContainerNodeKind)
        ensures
            *r == self.kind_spec(),
    {
        &self.kind
    }

    pub fn is_list_item(&self) -> (r: bool)
        ensures
            r == self.kind_spec() is ListItem,
    {
        matches!(self.kind, ContainerNodeKind::ListItem)
    }

    /// Whether this is a list or a list item.
    pub fn is_structure_node(&self) -> (r: bool)
        ensures
            r == (self.kind_spec() is List || self.kind_spec() is ListItem),
    {
        matches!(self.kind, ContainerNodeKind::List | ContainerNodeKind::ListItem)
    }

    pub fn is_formatting_node(&self) -> (r: bool)
        ensures
            r == self.kind_spec() is Formatting,
    {
        matches!(self.kind, ContainerNodeKind::Formatting(_))
    }

    /// Whether this is a list of the kind `list_type`, as its tag says.
    pub fn is_list_of_type(&self, list_type: ListType) -> (r: bool)
        ensures
            r == (self.kind_spec() is List && self.name_spec() == list_tag_units(list_type)),
    {
        match self.kind {
            ContainerNodeKind::List => units_equal(&self.name, &list_type.tag_units()),
            _ => false,
        }
    }

    /// Makes this list one of the kind `list_type`.
    pub fn set_list_type(&mut self, list_type: ListType)
        requires
            old(self).kind_spec() is List,
        ensures
            final(self).name_spec() == list_tag_units(list_type),
            final(self).kind_spec() == old(self).kind_spec(),
            final(self).attrs_spec() == old(self).attrs_spec(),
            final(self).children_spec() == old(self).children_spec(),
            final(self).handle_spec() == old(self).handle_spec(),
    {
        self.name = list_type.tag_units();
    }

    /// Places the container at `handle`, and each node under it accordingly.
    pub fn set_handle(&mut self, handle: DomHandle)
        requires
            handle@ is Some,
        ensures
            handles_valid(DomNode::Container(*final(self)), path_of(handle)),
            same_content(DomNode::Container(*final(self)), DomNode::Container(*old(self))),
        decreases *old(self),
    {
        let ghost path = path_of(handle);
        self.handle = handle;
        let n = self.children.len();
        let mut i: usize = 0;
        assert forall|k: int| 0 <= k < n implies same_content(
            #[trigger] self.children@[k],
            old(self).children@[k],
        ) by {
            lemma_same_content_refl(self.children@[k]);
        }
        while i < n
            invariant
                n == self.children@.len() == old(self).children@.len(),
                i <= n,
                self.handle@ == Some(path),
                self.name == old(self).name,
                self.kind == old(self).kind,
                self.attrs == old(self).attrs,
                forall|k: int| 0 <= k < i ==> handles_valid(#[trigger] self.children@[k], path.push(k as usize)),
                forall|k: int| 0 <= k < n ==> same_content(#[trigger] self.children@[k], old(self).children@[k]),
                forall|k: int| i <= k < n ==> #[trigger] self.children@[k] == old(self).children@[k],
            decreases n - i,
        {
            let h = self.handle.child_handle(i);
            self.children[i].set_handle(h);
            i = i + 1;
        }
    }

    /// Whether every node under this container has the handle of its place.
    pub open spec fn handles_ok(&self) -> bool {
        &&& self.handle_spec() is Some
        &&& handles_valid(DomNode::Container(*self), self.handle_spec()->Some_0)
    }

    /// Gives the children from `from` on the handles of their places.
    fn rehandle_from(&mut self, from: usize)
        requires
            old(self).handle_spec() is Some,
            from <= old(self).children@.len(),
            forall|k: int|
                0 <= k < from ==> handles_valid(
                    #[trigger] old(self).children@[k],
                    old(self).handle_spec()->Some_0.push(k as usize),
                ),
        ensures
            final(self).handles_ok(),
            final(self).handle == old(self).handle,
            final(self).name == old(self).name,
            final(self).kind == old(self).kind,
            final(self).attrs == old(self).attrs,
            final(self).children@.len() == old(self).children@.len(),
            forall|k: int| 0 <= k < from ==> #[trigger] final(self).children@[k] == old(self).children@[k],
            forall|k: int|
                from <= k < old(self).children@.len() ==> same_content(
                    #[trigger] final(self).children@[k],
                    old(self).children@[k],
                ),
    {
        let ghost path = self.handle_spec()->Some_0;
        let n = self.children.len();
        let mut i: usize = from;
        while i < n
            invariant
                n == self.children@.len() == old(self).children@.len(),
                from <= i <= n,
                self.handle == old(self).handle,
                self.handle@ == Some(path),
                self.name == old(self).name,
                self.kind == old(self).kind,
                self.attrs == old(self).attrs,
                forall|k: int| 0 <= k < i ==> handles_valid(#[trigger] self.children@[k], path.push(k as usize)),
                forall|k: int| 0 <= k < from ==> #[trigger] self.children@[k] == old(self).children@[k],
                forall|k: int| from <= k < i ==> same_content(#[trigger] self.children@[k], old(self).children@[k]),
                forall|k: int| i <= k < n ==> #[trigger] self.children@[k] == old(self).children@[k],
            decreases n - i,
        {
            let h = self.handle.child_handle(i);
            self.children[i].set_handle(h);
            i = i + 1;
        }
    }

    /// Adds `child` after the last child; returns its handle.
    pub fn append_child(&mut self, child: DomNode) -> (r: DomHandle)
        requires
            old(self).handles_ok(),
        ensures
            final(self).handles_ok(),
            final(self).handle_spec() == old(self).handle_spec(),
            final(self).children_spec().len() == old(self).children_spec().len() + 1,
            forall|k: int|
                0 <= k < old(self).children_spec().len() ==> #[trigger] final(self).children_spec()[k]
                    == old(self).children_spec()[k],
            same_content(final(self).children_spec().last(), child),
            r@ == Some(old(self).handle_spec()->Some_0.push(old(self).children_spec().len() as usize)),
    {
        let n = self.children.len();
        self.children.push(child);
        self.rehandle_from(n);
        self.handle.child_handle(n)
    }

    /// Takes out the child at `index`; the later children move one place
    /// back.
    pub fn remove_child(&mut self, index: usize) -> (r: DomNode)
        requires
            old(self).handles_ok(),
            index < old(self).children_spec().len(),
        ensures
            final(self).handles_ok(),
            final(self).handle_spec() == old(self).handle_spec(),
            r == old(self).children_spec()[index as int],
            final(self).children_spec().len() == old(self).children_spec().len() - 1,
            forall|k: int| 0 <= k < index ==> #[trigger] final(self).children_spec()[k] == old(self).children_spec()[k],
            forall|k: int|
                index <= k < final(self).children_spec().len() ==> same_content(
                    #[trigger] final(self).children_spec()[k],
                    old(self).children_spec()[k + 1],
                ),
    {
        let ghost path = self.handle_spec()->Some_0;
        let r = self.children.remove(index);
        assert forall|k: int| 0 <= k < index implies handles_valid(
            #[trigger] self.children@[k],
            path.push(k as usize),
        ) by {
            assert(self.children@[k] == old(self).children@[k]);
        }
        self.rehandle_from(index);
        r
    }

    /// Puts `node` at `index`; the later children move one place on.
    pub fn insert_child(&mut self, index: usize, node: DomNode)
        requires
            old(self).handles_ok(),
            index <= old(self).children_spec().len(),
        ensures
            final(self).handles_ok(),
            final(self).handle_spec() == old(self).handle_spec(),
            final(self).children_spec().len() == old(self).children_spec().len() + 1,
            forall|k: int| 0 <= k < index ==> #[trigger] final(self).children_spec()[k] == old(self).children_spec()[k],
            same_content(final(self).children_spec()[index as int], node),
            forall|k: int|
                index < k < final(self).children_spec().len() ==> same_content(
                    #[trigger] final(self).children_spec()[k],
                    old(self).children_spec()[k - 1],
                ),
    {
        let ghost path = self.handle_spec()->Some_0;
        self.children.insert(index, node);
        assert forall|k: int| 0 <= k < index implies handles_valid(
            #[trigger] self.children@[k],
            path.push(k as usize),
        ) by {
            assert(self.children@[k] == old(self).children@[k]);
        }
        self.rehandle_from(index);
    }

    /// Replaces the child at `index` with `nodes`; returns the handles of
    /// the children after them.
    pub fn replace_child(&mut self, index: usize, nodes: Vec<DomNode>) -> (r: Vec<DomHandle>)
        requires
            old(self).handles_ok(),
            index < old(self).children_spec().len(),
            old(self).children_spec().len() + nodes@.len() <= usize::MAX,
        ensures
            final(self).handles_ok(),
            final(self).handle_spec() == old(self).handle_spec(),
            final(self).children_spec().len() == old(self).children_spec().len() - 1 + nodes@.len(),
            forall|k: int| 0 <= k < index ==> #[trigger] final(self).children_spec()[k] == old(self).children_spec()[k],
            forall|k: int|
                index <= k < index + nodes@.len() ==> same_content(
                    #[trigger] final(self).children_spec()[k],
                    nodes@[k - index],
                ),
            forall|k: int|
                index + nodes@.len() <= k < final(self).children_spec().len() ==> same_content(
                    #[trigger] final(self).children_spec()[k],
                    old(self).children_spec()[k - nodes@.len() + 1],
                ),
            r@.len() == final(self).children_spec().len() - index - nodes@.len(),
            forall|j: int|
                0 <= j < r@.len() ==> (#[trigger] r@[j])@ == Some(
                    old(self).handle_spec()->Some_0.push((index + nodes@.len() + j) as usize),
                ),
    {
        let ghost path = self.handle_spec()->Some_0;
        let ghost old_children = self.children@;
        let m = nodes.len();
        self.children.remove(index);
        let ghost given = nodes@;
        let mut rest = nodes;
        let mut i: usize = 0;
        while i < m
            invariant
                m == rest@.len() + i,
                given == nodes@,
                i <= m,
                self.handle == old(self).handle,
                self.name == old(self).name,
                self.kind == old(self).kind,
                self.attrs == old(self).attrs,
                old_children == old(self).children@,
                index < old_children.len(),
                old_children.len() + m <= usize::MAX,
                self.children@.len() == old_children.len() - 1 + i,
                forall|k: int| 0 <= k < index ==> #[trigger] self.children@[k] == old_children[k],
                forall|k: int| index <= k < index + i ==> #[trigger] self.children@[k] == given[k - index],
                forall|k: int| index + i <= k < self.children@.len() ==> #[trigger] self.children@[k] == old_children[k - i + 1],
                forall|k: int| 0 <= k < rest@.len() ==> #[trigger] rest@[k] == given[k + i],
            decreases m - i,
        {
            let node = rest.remove(0);
            self.children.insert(index + i, node);
            i = i + 1;
        }
        let ghost mid = self.children@;
        assert forall|k: int| 0 <= k < index implies handles_valid(
            #[trigger] self.children@[k],
            path.push(k as usize),
        ) by {
            assert(self.children@[k] == old_children[k]);
        }
        self.rehandle_from(index);
        let n = self.children.len();
        let mut handles: Vec<DomHandle> = Vec::new();
        let mut j: usize = index + m;
        while j < n
            invariant
                index + m <= j <= n,
                n == self.children@.len(),
                self.handle@ == Some(path),
                handles@.len() == j - index - m,
                forall|t: int|
                    0 <= t < handles@.len() ==> (#[trigger] handles@[t])@ == Some(
                        path.push((index + m + t) as usize),
                    ),
            decreases n - j,
        {
            handles.push(self.handle.child_handle(j));
            j = j + 1;
        }
        handles
    }

    /// The line break that the child at `i` counts for after its text.
    fn gap_after(&self, i: usize) -> (r: usize)
        requires
            i < self.children@.len(),
        ensures
            r == gap_after(*self, i as int),
    {
        if i < self.children.len() - 1 {
            match &self.children[i] {
                DomNode::Container(p) => match p.kind {
                    ContainerNodeKind::Paragraph => 1,
                    _ => 0,
                },
                _ => 0,
            }
        } else {
            0
        }
    }

    /// The number of code units of text under this container: a paragraph
    /// that a sibling follows counts one more, for its line break.
    pub fn text_len(&self) -> (r: usize)
        requires
            node_text_len(DomNode::Container(*self)) <= usize::MAX,
        ensures
            r == node_text_len(DomNode::Container(*self)),
        decreases *self,
    {
        let n = self.children.len();
        let mut sum: usize = 0;
        let mut i: usize = 0;
        proof {
            lemma_children_text_len_mono(*self, n as int);
        }
        while i < n
            invariant
                n == self.children@.len(),
                i <= n,
                sum == children_text_len(*self, i as int),
                children_text_len(*self, n as int) <= usize::MAX,
                forall|j: int| 0 <= j <= n ==> children_text_len(*self, j) <= children_text_len(*self, n as int),
            decreases n - i,
        {
            proof {
                lemma_node_text_len_nonneg(self.children@[i as int]);
                lemma_children_text_len_mono(*self, i as int);
                assert(children_text_len(*self, i + 1) == children_text_len(*self, i as int)
                    + node_text_len(self.children@[i as int]) + gap_after(*self, i as int));
            }
            let l = self.children[i].text_len();
            let g = self.gap_after(i);
            sum = sum + l + g;
            i = i + 1;
        }
        sum
    }

    /// The plain text under this container.
    pub fn to_raw_text(&self) -> (r: Vec<u16>)
        ensures
            r@ == node_raw_text(DomNode::Container(*self)),
        decreases *self,
    {
        let n = self.children.len();
        let mut r: Vec<u16> = Vec::new();
        let mut i: usize = 0;
        while i < n
            invariant
                n == self.children@.len(),
                i <= n,
                r@ == children_raw_text(*self, i as int),
            decreases n - i,
        {
            let mut t = self.children[i].to_raw_text();
            r.append(&mut t);
            if self.gap_after(i) == 1 {
                r.push(NEWLINE);
            }
            i = i + 1;
            assert(r@ =~= children_raw_text(*self, i as int));
        }
        r
    }

    /// Whether this is a list item that holds no text but a zero-width
    /// space, if that.
    pub fn is_empty_list_item(&self) -> (r: bool)
        ensures
            r == (self.kind_spec() is ListItem && (node_raw_text(DomNode::Container(*self)).len()
                == 0 || node_raw_text(DomNode::Container(*self)) == seq![ZWSP])),
    {
        match self.kind {
            ContainerNodeKind::ListItem => {
                let t = self.to_raw_text();
                if t.len() == 0 {
                    true
                } else if t.len() == 1 && t[0] == ZWSP {
                    assert(t@ =~= seq![ZWSP]);
                    true
                } else {
                    false
                }
            },
            _ => false,
        }
    }

    /// Writes the container as HTML: its tag with its attributes around the
    /// HTML of its children; a container without a name writes only its
    /// children.
    pub fn fmt_html(&self, formatter: &mut HtmlFormatter)
        requires
            old(formatter).wf(),
        ensures
            final(formatter).wf(),
            final(formatter)@ == old(formatter)@ + node_html(DomNode::Container(*self), true),
        decreases *self,
    {
        let named = self.name.len() > 0;
        if named {
            formatter.write_char(HtmlChar::Lt);
            formatter.write(self.name.as_slice());
            match &self.attrs {
                Some(attrs) => write_attrs(formatter, attrs),
                None => {},
            }
            formatter.write_char(HtmlChar::Gt);
        }
        let ghost opened = formatter@;
        let n = self.children.len();
        let mut i: usize = 0;
        while i < n
            invariant
                n == self.children@.len(),
                i <= n,
                formatter.wf(),
                formatter@ == opened + children_html(*self, i as int),
            decreases n - i,
        {
            self.children[i].fmt_html(formatter, i + 1 == n);
            i = i + 1;
        }
        if named {
            formatter.write_char(HtmlChar::Lt);
            formatter.write_char(HtmlChar::ForwardSlash);
            formatter.write(self.name.as_slice());
            formatter.write_char(HtmlChar::Gt);
        }
        proof {
            let attrs_part = container_attrs_html(*self);
            if named {
                assert(final(formatter)@ =~= old(formatter)@ + (seq![html_char_unit(HtmlChar::Lt)]
                    + self.name@ + attrs_part + seq![html_char_unit(HtmlChar::Gt)] + children_html(
                    *self,
                    n as int,
                ) + seq![html_char_unit(HtmlChar::Lt), html_char_unit(HtmlChar::ForwardSlash)]
                    + self.name@ + seq![html_char_unit(HtmlChar::Gt)]));
            } else {
                assert(opened == old(formatter)@);
            }
        }
    }

    pub closed spec fn children_spec(&self) -> Seq<DomNode> {
        self.children@
    }

    pub closed spec fn handle_spec(&self) -> Option<Seq<usize>> {
        self.handle@
    }
}

impl DomNode {
    /// A text node that is not placed in a tree yet.
    pub fn new_text(data: Vec<u16>) -> (r: DomNode)
        ensures
            r matches DomNode::Text(t) && t.text() == data@ && t.node_handle() is None,
    {
        DomNode::Text(TextNode::from(data))
    }

    /// A line break that is not placed in a tree yet.
    pub fn new_line_break() -> (r: DomNode)
        ensures
            r is LineBreak,
            r.handle_spec() is None,
    {
        DomNode::LineBreak(LineBreakNode::new())
    }

    pub fn is_text_node(&self) -> (r: bool)
        ensures
            r == self is Text,
    {
        matches!(self, DomNode::Text(_))
    }

    pub fn handle(&self) -> (r: DomHandle)
        ensures
            r@ == self.handle_spec(),
    {
        match self {
            DomNode::Container(c) => c.handle(),
            DomNode::Text(t) => t.handle(),
            DomNode::LineBreak(l) => l.handle.duplicate(),
        }
    }

    /// The plain text of the node.
    pub fn to_raw_text(&self) -> (r: Vec<u16>)
        ensures
            r@ == node_raw_text(*self),
        decreases *self,
    {
        match self {
            DomNode::Container(c) => c.to_raw_text(),
            DomNode::Text(t) => t.to_raw_text(),
            DomNode::LineBreak(_) => {
                let r = vec![NEWLINE];
                assert(r@ =~= seq![NEWLINE]);
                r
            },
        }
    }

    /// The node that the relative path `path` leads to from this one.
    pub fn lookup_node(&self, path: &Vec<usize>) -> (r: Option<&DomNode>)
        ensures
            r is None <==> node_at(*self, path@) is None,
            r matches Some(n) ==> node_at(*self, path@) == Some(*n),
    {
        let mut cur: &DomNode = self;
        let mut i: usize = 0;
        assert(path@.skip(0) =~= path@);
        while i < path.len()
            invariant
                i <= path@.len(),
                node_at(*self, path@) == node_at(*cur, path@.skip(i as int)),
            decreases path@.len() - i,
        {
            assert(path@.skip(i as int).skip(1) =~= path@.skip(i + 1));
            assert(path@.skip(i as int)[0] == path@[i as int]);
            match cur {
                DomNode::Container(c) => {
                    if path[i] < c.children.len() {
                        cur = &c.children[path[i]];
                    } else {
                        return None;
                    }
                },
                _ => {
                    return None;
                },
            }
            i = i + 1;
        }
        Some(cur)
    }

    /// The number of code units of text in the node: a line break counts one.
    pub fn text_len(&self) -> (r: usize)
        requires
            node_text_len(*self) <= usize::MAX,
        ensures
            r == node_text_len(*self),
        decreases *self,
    {
        match self {
            DomNode::Container(c) => c.text_len(),
            DomNode::Text(t) => t.text_len(),
            DomNode::LineBreak(_) => 1,
        }
    }

    /// Writes the node as HTML; `is_last` says whether it ends its parent.
    pub fn fmt_html(&self, formatter: &mut HtmlFormatter, is_last: bool)
        requires
            old(formatter).wf(),
        ensures
            final(formatter).wf(),
            final(formatter)@ == old(formatter)@ + node_html(*self, is_last),
        decreases *self,
    {
        match self {
            DomNode::Container(c) => c.fmt_html(formatter),
            DomNode::Text(t) => t.fmt_html(formatter, is_last),
            DomNode::LineBreak(_) => {
                formatter.write_vec(vec![0x3Cu16, 0x62, 0x72, 0x20, 0x2F, 0x3E]);
                assert(final(formatter)@ =~= old(formatter)@ + line_break_html());
            },
        }
    }

    /// The node as HTML, with each non-breaking space as `&nbsp;`.
    pub fn to_html(&self) -> (r: Vec<u16>)
        ensures
            r@ == nbsp_entities(node_html(*self, true)),
    {
        let mut f = HtmlFormatter::new();
        self.fmt_html(&mut f, true);
        assert(f@ =~= node_html(*self, true));
        f.finish()
    }

    /// Places the node at `handle`, and each node under it accordingly.
    pub fn set_handle(&mut self, handle: DomHandle)
        requires
            handle@ is Some,
        ensures
            handles_valid(*final(self), path_of(handle)),
            same_content(*final(self), *old(self)),
        decreases *old(self),
    {
        match self {
            DomNode::Container(c) => c.set_handle(handle),
            DomNode::Text(t) => t.set_handle(handle),
            DomNode::LineBreak(l) => l.handle = handle,
        }
    }

    /// Where the node stands in its tree.
    pub open spec fn handle_spec(&self) -> Option<Seq<usize>> {
        match self {
            DomNode::Container(c) => c.handle_spec(),
            DomNode::Text(t) => t.node_handle(),
            DomNode::LineBreak(l) => l.handle_spec(),
        }
    }
}

/// The units of `<br />`.
pub open spec fn line_break_html() -> Seq<u16> {
    seq![0x3Cu16, 0x62, 0x72, 0x20, 0x2F, 0x3E]
}

/// The attributes as HTML: each as ` name="value"`.
pub open spec fn attrs_html(a: Seq<(Seq<u16>, Seq<u16>)>) -> Seq<u16>
    decreases a.len(),
{
    if a.len() == 0 {
        Seq::empty()
    } else {
        attrs_html(a.drop_last()) + seq![html_char_unit(HtmlChar::Space)] + a.last().0 + seq![
            html_char_unit(HtmlChar::Equal),
            html_char_unit(HtmlChar::Quote),
        ] + a.last().1 + seq![html_char_unit(HtmlChar::Quote)]
    }
}

/// The HTML of a container's attributes.
pub closed spec fn container_attrs_html(c: ContainerNode) -> Seq<u16> {
    match c.attrs {
        Some(a) => attrs_html(attr_views(a@)),
        None => Seq::empty(),
    }
}

/// The HTML of a node, before non-breaking spaces become entities;
/// `is_last` says whether the node ends its parent.
pub closed spec fn node_html(n: DomNode, is_last: bool) -> Seq<u16>
    decreases n,
{
    match n {
        DomNode::Container(c) => if c.name@.len() == 0 {
            children_html(c, c.children@.len() as int)
        } else {
            seq![html_char_unit(HtmlChar::Lt)] + c.name@ + container_attrs_html(c) + seq![
                html_char_unit(HtmlChar::Gt),
            ] + children_html(c, c.children@.len() as int)
                + seq![html_char_unit(HtmlChar::Lt), html_char_unit(HtmlChar::ForwardSlash)]
                + c.name@ + seq![html_char_unit(HtmlChar::Gt)]
        },
        DomNode::Text(t) => text_html(t.text(), is_last),
        DomNode::LineBreak(_) => line_break_html(),
    }
}

/// The HTML of the first `k` children of `c`.
pub closed spec fn children_html(c: ContainerNode, k: int) -> Seq<u16>
    decreases c, k,
{
    if k <= 0 || k > c.children@.len() {
        Seq::empty()
    } else {
        children_html(c, k - 1) + node_html(c.children@[k - 1], k == c.children@.len())
    }
}

/// The plain text of a node: a line break reads as a line feed.
pub closed spec fn node_raw_text(n: DomNode) -> Seq<u16>
    decreases n,
{
    match n {
        DomNode::Container(c) => children_raw_text(c, c.children@.len() as int),
        DomNode::Text(t) => t.text(),
        DomNode::LineBreak(_) => seq![NEWLINE],
    }
}

/// The plain text of the first `k` children of `c`.
pub closed spec fn children_raw_text(c: ContainerNode, k: int) -> Seq<u16>
    decreases c, k,
{
    if k <= 0 || k > c.children@.len() {
        Seq::empty()
    } else {
        children_raw_text(c, k - 1) + node_raw_text(c.children@[k - 1]) + if gap_after(c, k - 1)
            == 1 {
            seq![NEWLINE]
        } else {
            Seq::empty()
        }
    }
}

/// Nodes with the same content write the same HTML.
pub proof fn lemma_same_content_html(a: DomNode, b: DomNode, x: bool)
    requires
        same_content(a, b),
    ensures
        node_html(a, x) == node_html(b, x),
    decreases a,
{
    if let DomNode::Container(ca) = a {
        if let DomNode::Container(cb) = b {
            lemma_same_children_html(ca, cb, ca.children@.len() as int);
        }
    }
}

proof fn lemma_same_children_html(ca: ContainerNode, cb: ContainerNode, k: int)
    requires
        same_content(DomNode::Container(ca), DomNode::Container(cb)),
        0 <= k <= ca.children@.len(),
    ensures
        children_html(ca, k) == children_html(cb, k),
    decreases ca, k,
{
    if k > 0 {
        lemma_same_children_html(ca, cb, k - 1);
        lemma_same_content_html(
            ca.children@[k - 1],
            cb.children@[k - 1],
            k == ca.children@.len(),
        );
    }
}

/// Nodes with the same content hold the same plain text.
pub proof fn lemma_same_content_raw_text(a: DomNode, b: DomNode)
    requires
        same_content(a, b),
    ensures
        node_raw_text(a) == node_raw_text(b),
    decreases a,
{
    if let DomNode::Container(ca) = a {
        if let DomNode::Container(cb) = b {
            lemma_same_children_raw_text(ca, cb, ca.children@.len() as int);
        }
    }
}

proof fn lemma_same_children_raw_text(ca: ContainerNode, cb: ContainerNode, k: int)
    requires
        same_content(DomNode::Container(ca), DomNode::Container(cb)),
        0 <= k <= ca.children@.len(),
    ensures
        children_raw_text(ca, k) == children_raw_text(cb, k),
    decreases ca, k,
{
    if k > 0 {
        lemma_same_children_raw_text(ca, cb, k - 1);
        lemma_same_content_raw_text(ca.children@[k - 1], cb.children@[k - 1]);
        assert(gap_after(ca, k - 1) == gap_after(cb, k - 1));
    }
}

/// A node's text length is the length of its plain text.
pub proof fn lemma_text_len_is_raw_len(n: DomNode)
    ensures
        node_text_len(n) == node_raw_text(n).len(),
    decreases n,
{
    if let DomNode::Container(c) = n {
        lemma_children_len_is_raw_len(c, c.children@.len() as int);
    }
}

proof fn lemma_children_len_is_raw_len(c: ContainerNode, k: int)
    requires
        0 <= k <= c.children@.len(),
    ensures
        children_text_len(c, k) == children_raw_text(c, k).len(),
    decreases c, k,
{
    if k > 0 {
        lemma_children_len_is_raw_len(c, k - 1);
        lemma_text_len_is_raw_len(c.children@[k - 1]);
    }
}

pub proof fn lemma_node_text_len_nonneg(n: DomNode)
    ensures
        node_text_len(n) >= 0,
    decreases n,
{
    if let DomNode::Container(c) = n {
        lemma_children_text_len_mono(c, c.children@.len() as int);
    }
}

proof fn lemma_children_text_len_mono(c: ContainerNode, k: int)
    requires
        0 <= k <= c.children@.len(),
    ensures
        forall|j: int| 0 <= j <= k ==> children_text_len(c, j) <= children_text_len(c, k),
        children_text_len(c, k) >= 0,
    decreases c, k,
{
    if 0 < k {
        lemma_children_text_len_mono(c, k - 1);
        lemma_node_text_len_nonneg(c.children@[k - 1]);
    }
}

/// The text lengths of a container's children add up, from zero to the
/// container's own length.
pub proof fn lemma_children_len_bounds(c: ContainerNode)
    ensures
        children_text_len(c, c.children_spec().len() as int) == node_text_len(DomNode::Container(c)),
        forall|j: int|
            0 <= j <= c.children_spec().len() ==> #[trigger] children_text_len(c, j) <= children_text_len(
                c,
                c.children_spec().len() as int,
            ),
        forall|j: int| 0 <= j <= c.children_spec().len() ==> #[trigger] children_text_len(c, j) >= 0,
{
    assert(c.children_spec() == c.children@);
    lemma_children_text_len_mono(c, c.children@.len() as int);
    assert forall|j: int| 0 <= j <= c.children_spec().len() implies #[trigger] children_text_len(c, j) >= 0 by {
        lemma_children_text_len_mono(c, j);
    }
}

/// One more child adds its length.
pub proof fn lemma_children_len_step(c: ContainerNode, k: int)
    requires
        0 <= k < c.children_spec().len(),
    ensures
        children_text_len(c, k + 1) == children_text_len(c, k) + node_text_len(c.children_spec()[k])
            + gap_after(c, k),
        0 <= gap_after(c, k) <= 1,
{
}

/// Every node under `n` has the handle of its place, `n` itself standing
/// at `path`.
pub closed spec fn handles_valid(n: DomNode, path: Seq<usize>) -> bool
    decreases n,
{
    &&& n.handle_spec() == Some(path)
    &&& match n {
        DomNode::Container(c) => forall|i: int|
            0 <= i < c.children@.len() ==> handles_valid(
                #[trigger] c.children@[i],
                path.push(i as usize),
            ),
        _ => true,
    }
}

/// The node that the relative path `path` reaches from `n`.
pub closed spec fn node_at(n: DomNode, path: Seq<usize>) -> Option<DomNode>
    decreases path.len(),
{
    if path.len() == 0 {
        Some(n)
    } else {
        match n {
            DomNode::Container(c) => if path[0] < c.children@.len() {
                node_at(c.children@[path[0] as int], path.skip(1))
            } else {
                None
            },
            _ => None,
        }
    }
}

/// Two nodes hold the same content, their handles aside.
pub closed spec fn same_content(a: DomNode, b: DomNode) -> bool
    decreases a,
{
    match a {
        DomNode::Container(x) => match b {
            DomNode::Container(y) => {
                &&& x.name == y.name
                &&& x.kind == y.kind
                &&& x.attrs == y.attrs
                &&& x.children@.len() == y.children@.len()
                &&& forall|i: int|
                    0 <= i < x.children@.len() ==> same_content(
                        #[trigger] x.children@[i],
                        y.children@[i],
                    )
            },
            _ => false,
        },
        DomNode::Text(x) => match b {
            DomNode::Text(y) => x.text() == y.text(),
            _ => false,
        },
        DomNode::LineBreak(_) => b is LineBreak,
    }
}

proof fn lemma_same_content_refl(a: DomNode)
    ensures
        same_content(a, a),
    decreases a,
{
    if let DomNode::Container(x) = a {
        assert forall|i: int| 0 <= i < x.children@.len() implies same_content(
            #[trigger] x.children@[i],
            x.children@[i],
        ) by {
            lemma_same_content_refl(x.children@[i]);
        }
    }
}

/// Handles name their nodes: in a tree whose handles are valid, the node
/// that a path reaches from the root has that path as its handle.
pub proof fn lemma_handle_names_its_node(n: DomNode, p: Seq<usize>, q: Seq<usize>)
    requires
        handles_valid(n, p),
        node_at(n, q) is Some,
    ensures
        node_at(n, q)->Some_0.handle_spec() == Some(p + q),
    decreases q.len(),
{
    if q.len() == 0 {
        assert(p + q =~= p);
    } else {
        match n {
            DomNode::Container(c) => {
                let i = q[0] as int;
                assert(handles_valid(c.children@[i], p.push(q[0])));
                lemma_handle_names_its_node(c.children@[i], p.push(q[0]), q.skip(1));
                assert(p.push(q[0]) + q.skip(1) =~= p + q);
            },
            _ => {},
        }
    }
}

/// The locations that the range `s..e` gives in the tree under `n`, which
/// starts at `pos`: each node whose text meets the range, a container
/// before its children, in document order.
pub closed spec fn node_locations(n: DomNode, pos: int, s: int, e: int) -> Seq<LocationView>
    decreases n,
{
    let own = if touches(pos, node_text_len(n), s, e) {
        seq![location_of(n, pos, s, e)]
    } else {
        Seq::empty()
    };
    match n {
        DomNode::Container(c) => own + children_locations(
            c,
            c.children_spec().len() as int,
            pos,
            s,
            e,
        ),
        _ => own,
    }
}

/// The locations under the first `k` children of `c`, which starts at `pos`.
pub closed spec fn children_locations(c: ContainerNode, k: int, pos: int, s: int, e: int) -> Seq<
    LocationView,
>
    decreases c, k,
{
    if k <= 0 || k > c.children_spec().len() {
        Seq::empty()
    } else {
        children_locations(c, k - 1, pos, s, e) + node_locations(
            c.children_spec()[k - 1],
            pos + children_text_len(c, k - 1),
            s,
            e,
        )
    }
}

fn clamp_exec(x: usize, pos: usize, len: usize) -> (r: usize)
    ensures
        r == clamp_to(x - pos, 0, len as int),
{
    if x < pos {
        0
    } else if x - pos > len {
        len
    } else {
        x - pos
    }
}

pub(crate) fn collect_locations(n: &DomNode, pos: usize, s: usize, e: usize, out: &mut Vec<DomLocation>)
    requires
        pos + node_text_len(*n) <= usize::MAX,
    ensures
        location_views(final(out)@) == location_views(old(out)@) + node_locations(*n, pos as int, s as int, e as int),
    decreases *n,
{
    proof {
        lemma_node_text_len_nonneg(*n);
    }
    let len = n.text_len();
    let ghost before = out@;
    let ghost own = if touches(pos as int, len as int, s as int, e as int) {
        seq![location_of(*n, pos as int, s as int, e as int)]
    } else {
        Seq::<LocationView>::empty()
    };
    if pos <= e && s <= pos + len {
        let loc = DomLocation::new(
            n.handle(),
            pos,
            clamp_exec(s, pos, len),
            clamp_exec(e, pos, len),
            len,
            !matches!(n, DomNode::Container(_)),
        );
        out.push(loc);
    }
    assert(location_views(out@) =~= location_views(before) + own);
    match n {
        DomNode::Container(c) => {
            c.collect_child_locations(pos, s, e, out);
            assert(location_views(out@) =~= location_views(before) + own + children_locations(
                *c,
                c.children@.len() as int,
                pos as int,
                s as int,
                e as int,
            ));
        },
        _ => {},
    }
}

impl ContainerNode {
    /// Appends the locations under this container's children, the
    /// container starting at `pos`.
    fn collect_child_locations(&self, pos: usize, s: usize, e: usize, out: &mut Vec<DomLocation>)
        requires
            pos + node_text_len(DomNode::Container(*self)) <= usize::MAX,
        ensures
            location_views(final(out)@) == location_views(old(out)@) + children_locations(
                *self,
                self.children@.len() as int,
                pos as int,
                s as int,
                e as int,
            ),
        decreases *self,
    {
        let ghost mid = out@;
        let k = self.children.len();
        let mut i: usize = 0;
        let mut child_pos: usize = pos;
        proof {
            lemma_children_len_bounds(*self);
        }
        assert(location_views(out@) =~= location_views(mid) + children_locations(
            *self,
            0,
            pos as int,
            s as int,
            e as int,
        ));
        while i < k
            invariant
                k == self.children@.len(),
                i <= k,
                child_pos == pos + children_text_len(*self, i as int),
                pos + children_text_len(*self, k as int) <= usize::MAX,
                forall|j: int|
                    0 <= j <= k ==> #[trigger] children_text_len(*self, j) <= children_text_len(
                        *self,
                        k as int,
                    ),
                forall|j: int| 0 <= j <= k ==> #[trigger] children_text_len(*self, j) >= 0,
                location_views(out@) == location_views(mid) + children_locations(
                    *self,
                    i as int,
                    pos as int,
                    s as int,
                    e as int,
                ),
            decreases k - i,
        {
            proof {
                lemma_children_len_step(*self, i as int);
                lemma_node_text_len_nonneg(self.children@[i as int]);
            }
            let ghost before = out@;
            collect_locations(&self.children[i], child_pos, s, e, out);
            let l = self.children[i].text_len();
            let g = self.gap_after(i);
            child_pos = child_pos + l + g;
            i = i + 1;
            assert(location_views(out@) =~= location_views(mid) + children_locations(
                *self,
                i as int,
                pos as int,
                s as int,
                e as int,
            ));
        }
    }
}

} // verus!
