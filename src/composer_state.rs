use vstd::prelude::*;
use crate::document::{attr_views, link_views, LinkTarget, LinkTargetView};
use crate::unicode::units_between;
use crate::format_type::{
    extended, flipped_by, has_format, plain_formats, with_format, Formats, InlineFormatType,
};

verus! {

/// A document and its selection: the text in UTF-16 code units, the formats
/// of each unit, the selection's two ends (in either order), the formats
/// that the next insertion at the cursor flips, and the targets of the links
/// that units refer to.
#[derive(Debug)]
pub struct ComposerState {
    pub text: Vec<u16>,
    pub formats: Vec<Formats>,
    pub start: usize,
    pub end: usize,
    pub toggled_formats: Formats,
    pub links: Vec<LinkTarget>,
}

/// The mathematical value of a `ComposerState`.
pub struct StateView {
    pub text: Seq<u16>,
    pub formats: Seq<Formats>,
    pub start: int,
    pub end: int,
    pub toggled_formats: Formats,
    pub links: Seq<LinkTargetView>,
}

impl View for ComposerState {
    type V = StateView;

    open spec fn view(&self) -> StateView {
        StateView {
            text: self.text@,
            formats: self.formats@,
            start: self.start as int,
            end: self.end as int,
            toggled_formats: self.toggled_formats,
            links: link_views(self.links@),
        }
    }
}

/// Each unit has its formats, each link that a unit refers to has a target,
/// and the selection lies within the text.
pub open spec fn state_wf(s: StateView) -> bool {
    &&& s.text.len() == s.formats.len()
    &&& 0 <= s.start <= s.text.len()
    &&& 0 <= s.end <= s.text.len()
    &&& forall|k: int|
        0 <= k < s.formats.len() ==> ((#[trigger] s.formats[k]).link is Some ==> s.formats[k].link->Some_0
            < s.links.len())
}

pub open spec fn min_int(a: int, b: int) -> int {
    if a <= b {
        a
    } else {
        b
    }
}

pub open spec fn max_int(a: int, b: int) -> int {
    if a <= b {
        b
    } else {
        a
    }
}

/// The selection's lower end.
pub open spec fn sel_start(s: StateView) -> int {
    min_int(s.start, s.end)
}

/// The selection's upper end.
pub open spec fn sel_end(s: StateView) -> int {
    max_int(s.start, s.end)
}

/// The formats that text inserted over `start..end` takes before the toggles:
/// those of the first unit replaced, or else of the unit before the cursor,
/// or else of the first unit.
pub open spec fn inherited_formats(s: StateView, start: int, end: int) -> Formats {
    if start < end {
        s.formats[start]
    } else if start > 0 {
        s.formats[start - 1]
    } else if s.formats.len() > 0 {
        s.formats[0]
    } else {
        plain_formats()
    }
}

/// The link that text inserted over `start..end` belongs to: the link of
/// the unit after the range, where the range starts inside that same link.
pub open spec fn inserted_link(s: StateView, start: int, end: int) -> Option<usize> {
    if end < s.formats.len() && s.formats[end].link is Some && ((start < end && s.formats[start].link
        == s.formats[end].link) || (0 < start && s.formats[start - 1].link == s.formats[end].link)) {
        s.formats[end].link
    } else {
        None
    }
}

/// The formats that text inserted over `start..end` takes.
pub open spec fn inserted_formats(s: StateView, start: int, end: int) -> Formats {
    Formats {
        link: inserted_link(s, start, end),
        ..flipped_by(inherited_formats(s, start, end), s.toggled_formats)
    }
}

/// The state after `new` replaced the units `start..end`: the cursor after
/// the new text, and no format toggled.
pub open spec fn with_text_replaced(s: StateView, start: int, end: int, new: Seq<u16>) -> StateView {
    let fs = inserted_formats(s, start, end);
    StateView {
        text: s.text.subrange(0, start) + new + s.text.skip(end),
        formats: s.formats.subrange(0, start) + Seq::new(new.len(), |i: int| fs) + s.formats.skip(
            end,
        ),
        start: start + new.len(),
        end: start + new.len(),
        toggled_formats: plain_formats(),
        links: s.links,
    }
}

/// Whether every unit in `start..end` carries the format `f`.
pub open spec fn all_have_format(fs: Seq<Formats>, start: int, end: int, f: InlineFormatType) -> bool {
    forall|k: int| start <= k < end ==> has_format(#[trigger] fs[k], f)
}

/// The formats after `f` was set on or off over `start..end`.
pub open spec fn formats_set(fs: Seq<Formats>, start: int, end: int, f: InlineFormatType, on: bool) -> Seq<
    Formats,
> {
    Seq::new(
        fs.len(),
        |k: int|
            if start <= k < end {
                if on {
                    extended(fs[k], f)
                } else {
                    with_format(fs[k], f, None)
                }
            } else {
                fs[k]
            },
    )
}

/// The toggles with the format `f` flipped.
pub open spec fn toggles_flipped(t: Formats, f: InlineFormatType) -> Formats {
    with_format(
        t,
        f,
        if has_format(t, f) {
            None
        } else {
            Some(0)
        },
    )
}

/// The state after the format command `f`. Over a selection, the format is
/// taken away where every selected unit carries it, and else given to all
/// of them; the text and the selection stay. At a cursor, the format is
/// toggled for the next insertion.
pub open spec fn with_format_applied(s: StateView, f: InlineFormatType) -> StateView {
    let a = sel_start(s);
    let b = sel_end(s);
    if a < b {
        StateView {
            formats: formats_set(s.formats, a, b, f, !all_have_format(s.formats, a, b, f)),
            ..s
        }
    } else {
        StateView { toggled_formats: toggles_flipped(s.toggled_formats, f), ..s }
    }
}

/// The link next to the cursor: that of the unit before it, or else that of
/// the unit after it.
pub open spec fn link_at_cursor(s: StateView) -> Option<usize> {
    let c = s.start;
    if 0 < c <= s.formats.len() && s.formats[c - 1].link is Some {
        s.formats[c - 1].link
    } else if 0 <= c < s.formats.len() && s.formats[c].link is Some {
        s.formats[c].link
    } else {
        None
    }
}

/// The link that the whole selection belongs to, if there is one.
pub open spec fn selected_link(s: StateView) -> Option<usize> {
    let a = sel_start(s);
    let b = sel_end(s);
    if a < b {
        if s.formats[a].link is Some && forall|k: int| a <= k < b ==> (#[trigger] s.formats[k]).link
            == s.formats[a].link {
            s.formats[a].link
        } else {
            None
        }
    } else {
        link_at_cursor(s)
    }
}

/// The formats with the units `a..b` put in the link `id`.
pub open spec fn formats_linked(fs: Seq<Formats>, a: int, b: int, id: Option<usize>) -> Seq<Formats> {
    Seq::new(
        fs.len(),
        |k: int|
            if a <= k < b {
                Formats { link: id, ..fs[k] }
            } else {
                fs[k]
            },
    )
}

/// The state after a link to `url` was set. Where the selection lies in one
/// link, that link now leads to `url`. Else the selected units form a new
/// link to it, cut out of any link they were in. At a cursor nothing changes.
pub open spec fn with_link_set(s: StateView, url: Seq<u16>) -> StateView {
    let a = sel_start(s);
    let b = sel_end(s);
    if a < b && selected_link(s) is Some {
        StateView {
            links: s.links.update(
                selected_link(s)->Some_0 as int,
                LinkTargetView { url, ..s.links[selected_link(s)->Some_0 as int] },
            ),
            ..s
        }
    } else if a < b {
        StateView {
            formats: formats_linked(s.formats, a, b, Some(s.links.len() as usize)),
            links: s.links.push(LinkTargetView { url, attributes: Seq::empty() }),
            ..s
        }
    } else {
        s
    }
}

/// The state after `text`, linked to `target`, replaced the selection.
pub open spec fn with_linked_text(s: StateView, target: LinkTargetView, text: Seq<u16>) -> StateView {
    let a = sel_start(s);
    let r = with_text_replaced(s, a, sel_end(s), text);
    if text.len() == 0 {
        r
    } else {
        StateView {
            formats: formats_linked(r.formats, a, a + text.len(), Some(r.links.len() as usize)),
            links: r.links.push(target),
            ..r
        }
    }
}

/// Whether the selection meets the link `id`: a selected unit belongs to
/// it, or, at a cursor, it is the link next to the cursor.
pub open spec fn link_touched(s: StateView, id: usize) -> bool {
    let a = sel_start(s);
    let b = sel_end(s);
    if a < b {
        exists|k: int| a <= k < b && #[trigger] s.formats[k].link == Some(id)
    } else {
        link_at_cursor(s) == Some(id)
    }
}

/// The state after every link that the selection meets was taken away,
/// whole, from all of its units.
pub open spec fn with_links_removed(s: StateView) -> StateView {
    StateView {
        formats: Seq::new(
            s.formats.len(),
            |k: int|
                if s.formats[k].link is Some && link_touched(s, s.formats[k].link->Some_0) {
                    Formats { link: None, ..s.formats[k] }
                } else {
                    s.formats[k]
                },
        ),
        ..s
    }
}

/// The empty document.
pub open spec fn empty_state() -> StateView {
    StateView {
        text: Seq::empty(),
        formats: Seq::empty(),
        start: 0,
        end: 0,
        toggled_formats: plain_formats(),
        links: Seq::empty(),
    }
}

fn copy_formats(v: &Vec<Formats>, start: usize, end: usize) -> (r: Vec<Formats>)
    requires
        start <= end <= v@.len(),
    ensures
        r@ == v@.subrange(start as int, end as int),
{
    let mut r: Vec<Formats> = Vec::new();
    let mut i: usize = start;
    while i < end
        invariant
            start <= i <= end <= v@.len(),
            r@ == v@.subrange(start as int, i as int),
        decreases end - i,
    {
        r.push(v[i]);
        i = i + 1;
        assert(r@ =~= v@.subrange(start as int, i as int));
    }
    r
}

fn copy_attributes(v: &Vec<(Vec<u16>, Vec<u16>)>) -> (r: Vec<(Vec<u16>, Vec<u16>)>)
    ensures
        attr_views(r@) == attr_views(v@),
{
    let mut r: Vec<(Vec<u16>, Vec<u16>)> = Vec::new();
    let mut i: usize = 0;
    while i < v.len()
        invariant
            i <= v@.len(),
            r@.len() == i,
            attr_views(r@) == attr_views(v@).subrange(0, i as int),
        decreases v@.len() - i,
    {
        let name = units_between(&v[i].0, 0, v[i].0.len());
        let value = units_between(&v[i].1, 0, v[i].1.len());
        assert(v@[i as int].0@.subrange(0, v@[i as int].0@.len() as int) =~= v@[i as int].0@);
        assert(v@[i as int].1@.subrange(0, v@[i as int].1@.len() as int) =~= v@[i as int].1@);
        let ghost before = r@;
        r.push((name, value));
        assert forall|j: int| 0 <= j <= i implies #[trigger] attr_views(r@)[j] == attr_views(
            v@,
        )[j] by {
            if j < i {
                assert(r@[j] == before[j]);
                assert(attr_views(before)[j] == attr_views(v@).subrange(0, i as int)[j]);
            }
        }
        i = i + 1;
        assert(attr_views(r@) =~= attr_views(v@).subrange(0, i as int));
    }
    assert(attr_views(v@).subrange(0, v@.len() as int) =~= attr_views(v@));
    r
}

/// A copy of a link target.
pub(crate) fn copy_link_target(v: &LinkTarget) -> (r: LinkTarget)
    ensures
        r@ == v@,
{
    let url = units_between(&v.url, 0, v.url.len());
    assert(v.url@.subrange(0, v.url@.len() as int) =~= v.url@);
    LinkTarget { url, attributes: copy_attributes(&v.attributes) }
}

fn copy_links(v: &Vec<LinkTarget>) -> (r: Vec<LinkTarget>)
    ensures
        link_views(r@) == link_views(v@),
{
    let mut r: Vec<LinkTarget> = Vec::new();
    let mut i: usize = 0;
    while i < v.len()
        invariant
            i <= v@.len(),
            r@.len() == i,
            link_views(r@) == link_views(v@).subrange(0, i as int),
        decreases v@.len() - i,
    {
        let u = copy_link_target(&v[i]);
        let ghost before = r@;
        r.push(u);
        assert forall|j: int| 0 <= j <= i implies #[trigger] link_views(r@)[j] == link_views(
            v@,
        )[j] by {
            if j < i {
                assert(r@[j] == before[j]);
                assert(link_views(before)[j] == link_views(v@).subrange(0, i as int)[j]);
            }
        }
        i = i + 1;
        assert(link_views(r@) =~= link_views(v@).subrange(0, i as int));
    }
    assert(link_views(v@).subrange(0, v@.len() as int) =~= link_views(v@));
    r
}

impl ComposerState {
    /// The empty document, with the cursor at its start.
    pub fn new() -> (r: ComposerState)
        ensures
            r@ == empty_state(),
    {
        let r = ComposerState {
            text: Vec::new(),
            formats: Vec::new(),
            start: 0,
            end: 0,
            toggled_formats: Formats::plain(),
            links: Vec::new(),
        };
        assert(r@.text =~= Seq::<u16>::empty());
        assert(r@.formats =~= Seq::<Formats>::empty());
        assert(r@.links =~= Seq::<LinkTargetView>::empty());
        r
    }

    /// A copy of this state.
    pub fn snapshot(&self) -> (r: ComposerState)
        ensures
            r@ == self@,
    {
        let text = units_between(&self.text, 0, self.text.len());
        let formats = copy_formats(&self.formats, 0, self.formats.len());
        assert(self.text@.subrange(0, self.text@.len() as int) =~= self.text@);
        assert(self.formats@.subrange(0, self.formats@.len() as int) =~= self.formats@);
        let links = copy_links(&self.links);
        ComposerState {
            text,
            formats,
            start: self.start,
            end: self.end,
            toggled_formats: self.toggled_formats,
            links,
        }
    }

    /// The selection's ends, the lower first.
    pub fn safe_selection(&self) -> (r: (usize, usize))
        ensures
            r.0 == sel_start(self@),
            r.1 == sel_end(self@),
    {
        if self.start <= self.end {
            (self.start, self.end)
        } else {
            (self.end, self.start)
        }
    }

    /// Replaces the units `start..end` with `new`, leaving the cursor after it.
    #[verifier::rlimit(60)]
    pub fn replace_range(&mut self, new: &Vec<u16>, start: usize, end: usize)
        requires
            state_wf(old(self)@),
            start <= end <= old(self)@.text.len(),
            old(self)@.text.len() + new@.len() <= usize::MAX,
        ensures
            final(self)@ == with_text_replaced(old(self)@, start as int, end as int, new@),
            state_wf(final(self)@),
    {
        let n = self.text.len();
        let fs = if start < end {
            self.formats[start]
        } else if start > 0 {
            self.formats[start - 1]
        } else if n > 0 {
            self.formats[0]
        } else {
            Formats::plain()
        };
        let link = if end < n && self.formats[end].link.is_some() && ((start < end
            && self.formats[start].link == self.formats[end].link) || (0 < start && self.formats[start
            - 1].link == self.formats[end].link)) {
            self.formats[end].link
        } else {
            None
        };
        let mut fs = fs.flipped_by(&self.toggled_formats);
        fs.link = link;
        let mut text = units_between(&self.text, 0, start);
        let mut formats = copy_formats(&self.formats, 0, start);
        let mut i: usize = 0;
        while i < new.len()
            invariant
                i <= new@.len(),
                start <= end <= n == self.text@.len() == self.formats@.len(),
                n + new@.len() <= usize::MAX,
                text@ == self.text@.subrange(0, start as int) + new@.subrange(0, i as int),
                formats@ == self.formats@.subrange(0, start as int) + Seq::new(
                    i as nat,
                    |k: int| fs,
                ),
            decreases new@.len() - i,
        {
            text.push(new[i]);
            formats.push(fs);
            i = i + 1;
            assert(text@ =~= self.text@.subrange(0, start as int) + new@.subrange(0, i as int));
            assert(formats@ =~= self.formats@.subrange(0, start as int) + Seq::new(
                i as nat,
                |k: int| fs,
            ));
        }
        let mut rest_text = units_between(&self.text, end, n);
        let mut rest_formats = copy_formats(&self.formats, end, n);
        text.append(&mut rest_text);
        formats.append(&mut rest_formats);
        proof {
            assert(new@.subrange(0, new@.len() as int) =~= new@);
            assert(self.text@.subrange(end as int, n as int) =~= self.text@.skip(end as int));
            assert(self.formats@.subrange(end as int, n as int) =~= self.formats@.skip(
                end as int,
            ));
        }
        let ghost old_view = self@;
        self.text = text;
        self.formats = formats;
        self.start = start + new.len();
        self.end = start + new.len();
        self.toggled_formats = Formats::plain();
        assert(self@.text =~= with_text_replaced(old_view, start as int, end as int, new@).text);
        assert(self@.formats =~= with_text_replaced(
            old_view,
            start as int,
            end as int,
            new@,
        ).formats);
    }

    /// Whether every unit in `start..end` carries the format `f`.
    pub fn all_have_format(&self, start: usize, end: usize, f: InlineFormatType) -> (r: bool)
        requires
            start <= end <= self@.formats.len(),
        ensures
            r == all_have_format(self@.formats, start as int, end as int, f),
    {
        let mut i: usize = start;
        while i < end
            invariant
                start <= i <= end <= self.formats@.len(),
                all_have_format(self.formats@, start as int, i as int, f),
            decreases end - i,
        {
            if !self.formats[i].has(f) {
                return false;
            }
            i = i + 1;
        }
        true
    }

    /// The link next to the cursor.
    pub fn link_at_cursor(&self) -> (r: Option<usize>)
        requires
            state_wf(self@),
        ensures
            r == link_at_cursor(self@),
    {
        let c = self.start;
        if 0 < c && self.formats[c - 1].link.is_some() {
            self.formats[c - 1].link
        } else if c < self.formats.len() && self.formats[c].link.is_some() {
            self.formats[c].link
        } else {
            None
        }
    }

    /// The link that the whole selection belongs to, if there is one.
    pub fn selected_link(&self) -> (r: Option<usize>)
        requires
            state_wf(self@),
        ensures
            r == selected_link(self@),
    {
        let (a, b) = self.safe_selection();
        if a < b {
            let first = self.formats[a].link;
            if first.is_none() {
                return None;
            }
            let mut i: usize = a;
            while i < b
                invariant
                    state_wf(self@),
                    a == sel_start(self@),
                    b == sel_end(self@),
                    a <= i <= b,
                    first == self@.formats[a as int].link,
                    forall|k: int| a <= k < i ==> (#[trigger] self@.formats[k]).link == first,
                decreases b - i,
            {
                if self.formats[i].link != first {
                    return None;
                }
                i = i + 1;
            }
            first
        } else {
            self.link_at_cursor()
        }
    }

    /// Puts the units `a..b` in a new link to `target`.
    pub fn link_units(&mut self, a: usize, b: usize, target: LinkTarget)
        requires
            state_wf(old(self)@),
            a <= b <= old(self)@.text.len(),
        ensures
            state_wf(final(self)@),
            final(self)@ == (StateView {
                formats: formats_linked(
                    old(self)@.formats,
                    a as int,
                    b as int,
                    Some(old(self)@.links.len() as usize),
                ),
                links: old(self)@.links.push(target@),
                ..old(self)@
            }),
    {
        let id = self.links.len();
        let ghost old_formats = self.formats@;
        let mut i: usize = a;
        while i < b
            invariant
                a <= i <= b <= self.formats@.len(),
                self.formats@.len() == old_formats.len(),
                old_formats == old(self).formats@,
                id == old(self).links@.len(),
                self.text == old(self).text,
                self.start == old(self).start,
                self.end == old(self).end,
                self.toggled_formats == old(self).toggled_formats,
                self.links == old(self).links,
                forall|k: int|
                    0 <= k < old_formats.len() ==> #[trigger] self.formats@[k] == if a <= k < i {
                        Formats { link: Some(id), ..old_formats[k] }
                    } else {
                        old_formats[k]
                    },
            decreases b - i,
        {
            let mut fs = self.formats[i];
            fs.link = Some(id);
            self.formats.set(i, fs);
            i = i + 1;
        }
        let ghost before = self.links@;
        self.links.push(target);
        assert(link_views(self.links@) =~= link_views(before).push(target@));
        assert(self.formats@ =~= formats_linked(old_formats, a as int, b as int, Some(id)));
    }

    /// Sets a link to `url` on the selection, or retargets the one link it
    /// lies in; does nothing at a cursor.
    pub fn set_link(&mut self, url: Vec<u16>)
        requires
            state_wf(old(self)@),
        ensures
            state_wf(final(self)@),
            final(self)@ == with_link_set(old(self)@, url@),
    {
        let (a, b) = self.safe_selection();
        if a == b {
            return;
        }
        match self.selected_link() {
            Some(id) => {
                let ghost before = self.links@;
                let ghost u = url@;
                let attributes = copy_attributes(&self.links[id].attributes);
                let target = LinkTarget { url, attributes };
                self.links.set(id, target);
                assert(link_views(self.links@) =~= link_views(before).update(
                    id as int,
                    LinkTargetView { url: u, ..link_views(before)[id as int] },
                ));
            },
            None => {
                if a < b {
                    self.link_units(a, b, LinkTarget { url, attributes: Vec::new() });
                    assert(attr_views(Seq::<(Vec<u16>, Vec<u16>)>::empty()) =~= Seq::<
                        (Seq<u16>, Seq<u16>),
                    >::empty());
                }
            },
        }
    }

    /// Takes away every link that the selection meets.
    pub fn remove_links(&mut self)
        requires
            state_wf(old(self)@),
        ensures
            state_wf(final(self)@),
            final(self)@ == with_links_removed(old(self)@),
    {
        let (a, b) = self.safe_selection();
        let n = self.links.len();
        let mut touched: Vec<bool> = Vec::new();
        let mut j: usize = 0;
        while j < n
            invariant
                j <= n == self.links@.len(),
                touched@.len() == j,
                forall|t: int| 0 <= t < j ==> !(#[trigger] touched@[t]),
            decreases n - j,
        {
            touched.push(false);
            j = j + 1;
        }
        if a < b {
            let mut i: usize = a;
            while i < b
                invariant
                    state_wf(self@),
                    a == sel_start(self@),
                    b == sel_end(self@),
                    a <= i <= b,
                    n == self.links@.len(),
                    touched@.len() == n,
                    forall|t: int|
                        0 <= t < n ==> (#[trigger] touched@[t] <==> exists|k: int|
                            a <= k < i && #[trigger] self@.formats[k].link == Some(t as usize)),
                decreases b - i,
            {
                match self.formats[i].link {
                    Some(id) => {
                        touched.set(id, true);
                    },
                    None => {},
                }
                i = i + 1;
                assert forall|t: int| 0 <= t < n implies (#[trigger] touched@[t] <==> exists|k: int|
                    a <= k < i && #[trigger] self@.formats[k].link == Some(t as usize)) by {
                    if touched@[t] && self@.formats[i - 1].link != Some(t as usize) {
                        let k = choose|k: int|
                            a <= k < i - 1 && #[trigger] self@.formats[k].link == Some(t as usize);
                        assert(a <= k < i);
                    }
                    if exists|k: int| a <= k < i && #[trigger] self@.formats[k].link == Some(t as usize) {
                        if self@.formats[i - 1].link != Some(t as usize) {
                            let k = choose|k: int|
                                a <= k < i && #[trigger] self@.formats[k].link == Some(t as usize);
                            assert(k < i - 1);
                        }
                    }
                }
            }
        } else {
            match self.link_at_cursor() {
                Some(id) => {
                    touched.set(id, true);
                },
                None => {},
            }
        }
        assert forall|t: int| 0 <= t < n implies (#[trigger] touched@[t] == link_touched(
            self@,
            t as usize,
        )) by {}
        let ghost old_formats = self.formats@;
        let ghost sv = self@;
        let len = self.formats.len();
        let mut i: usize = 0;
        while i < len
            invariant
                i <= len == self.formats@.len() == old_formats.len(),
                sv == old(self)@,
                old_formats == sv.formats,
                state_wf(sv),
                n == sv.links.len(),
                touched@.len() == n,
                forall|t: int| 0 <= t < n ==> #[trigger] touched@[t] == link_touched(sv, t as usize),
                self.text == old(self).text,
                self.start == old(self).start,
                self.end == old(self).end,
                self.toggled_formats == old(self).toggled_formats,
                self.links == old(self).links,
                forall|k: int|
                    0 <= k < len ==> #[trigger] self.formats@[k] == if k < i && old_formats[k].link is Some
                        && link_touched(sv, old_formats[k].link->Some_0) {
                        Formats { link: None, ..old_formats[k] }
                    } else {
                        old_formats[k]
                    },
            decreases len - i,
        {
            let fs = self.formats[i];
            match fs.link {
                Some(id) => {
                    if touched[id] {
                        let mut g = fs;
                        g.link = None;
                        self.formats.set(i, g);
                    }
                },
                None => {},
            }
            i = i + 1;
        }
        assert(self@.formats =~= with_links_removed(sv).formats);
    }

    /// Applies the format command `f` to this state.
    pub fn apply_format(&mut self, f: InlineFormatType)
        requires
            state_wf(old(self)@),
        ensures
            final(self)@ == with_format_applied(old(self)@, f),
            state_wf(final(self)@),
    {
        let (a, b) = self.safe_selection();
        if a < b {
            let on = !self.all_have_format(a, b, f);
            let ghost old_formats = self.formats@;
            let mut i: usize = a;
            while i < b
                invariant
                    a <= i <= b <= self.formats@.len(),
                    self.formats@.len() == old_formats.len(),
                    old_formats == old(self).formats@,
                    self.text == old(self).text,
                    self.start == old(self).start,
                    self.end == old(self).end,
                    self.toggled_formats == old(self).toggled_formats,
                    self.links == old(self).links,
                    forall|k: int|
                        0 <= k < old_formats.len() ==> #[trigger] self.formats@[k] == if a <= k
                            < i {
                            if on {
                                extended(old_formats[k], f)
                            } else {
                                with_format(old_formats[k], f, None)
                            }
                        } else {
                            old_formats[k]
                        },
                decreases b - i,
            {
                let fs = if on {
                    self.formats[i].extended(f)
                } else {
                    self.formats[i].with(f, None)
                };
                self.formats.set(i, fs);
                i = i + 1;
            }
            assert(self.formats@ =~= formats_set(old_formats, a as int, b as int, f, on));
        } else {
            let t = self.toggled_formats;
            self.toggled_formats = t.with(
                f,
                if t.has(f) {
                    None
                } else {
                    Some(0)
                },
            );
        }
    }
}

} // verus!
