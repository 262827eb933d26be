use vstd::prelude::*;
use vstd::slice::slice_subrange;
use crate::unicode::{NBSP, SPACE};

verus! {

/// A character of HTML markup that the formatter writes by name.
#[derive(PartialEq, Eq, Structural, Debug, Clone, Copy)]
pub enum HtmlChar {
    Equal,
    ForwardSlash,
    Gt,
    Lt,
    Quote,
    Space,
}

/// The code unit of each markup character.
pub open spec fn html_char_unit(c: HtmlChar) -> u16 {
    match c {
        HtmlChar::Equal => 0x3D,
        HtmlChar::ForwardSlash => 0x2F,
        HtmlChar::Gt => 0x3E,
        HtmlChar::Lt => 0x3C,
        HtmlChar::Quote => 0x22,
        HtmlChar::Space => 0x20,
    }
}

/// The units that HTML text writes for one unit of plain text: the
/// ampersand and the angle brackets become entities.
pub open spec fn escape_unit(u: u16) -> Seq<u16> {
    if u == 0x26 {
        seq![0x26u16, 0x61, 0x6D, 0x70, 0x3B]
    } else if u == 0x3C {
        seq![0x26u16, 0x6C, 0x74, 0x3B]
    } else if u == 0x3E {
        seq![0x26u16, 0x67, 0x74, 0x3B]
    } else {
        seq![u]
    }
}

/// Plain text escaped for HTML.
pub open spec fn escape_text(t: Seq<u16>) -> Seq<u16>
    decreases t.len(),
{
    if t.len() == 0 {
        Seq::empty()
    } else {
        escape_text(t.drop_last()) + escape_unit(t.last())
    }
}

/// Each pair of spaces, from the left, becomes two non-breaking spaces, so
/// that a run of spaces renders as wide as it was typed.
pub open spec fn pair_spaces(t: Seq<u16>) -> Seq<u16>
    decreases t.len(),
{
    if t.len() == 0 {
        Seq::empty()
    } else if t.len() >= 2 && t[0] == SPACE && t[1] == SPACE {
        seq![NBSP, NBSP] + pair_spaces(t.skip(2))
    } else {
        seq![t[0]] + pair_spaces(t.skip(1))
    }
}

/// A space that ends the last text of its parent becomes non-breaking.
pub open spec fn trailing_nbsp(t: Seq<u16>, is_last: bool) -> Seq<u16> {
    if is_last && t.len() > 0 && t.last() == SPACE {
        t.update(t.len() - 1, NBSP)
    } else {
        t
    }
}

/// The HTML of a text node, before non-breaking spaces become entities.
pub open spec fn text_html(t: Seq<u16>, is_last: bool) -> Seq<u16> {
    trailing_nbsp(pair_spaces(escape_text(t)), is_last)
}

/// The units of `&nbsp;`.
pub open spec fn nbsp_entity() -> Seq<u16> {
    seq![0x26u16, 0x6E, 0x62, 0x73, 0x70, 0x3B]
}

/// Every non-breaking space written as the entity `&nbsp;`.
pub open spec fn nbsp_entities(t: Seq<u16>) -> Seq<u16>
    decreases t.len(),
{
    if t.len() == 0 {
        Seq::empty()
    } else {
        nbsp_entities(t.drop_last()) + if t.last() == NBSP {
            nbsp_entity()
        } else {
            seq![t.last()]
        }
    }
}

fn push_all(out: &mut Vec<u16>, s: &[u16])
    ensures
        final(out)@ == old(out)@ + s@,
{
    let mut i: usize = 0;
    while i < s.len()
        invariant
            i <= s@.len(),
            out@ == old(out)@ + s@.subrange(0, i as int),
        decreases s@.len() - i,
    {
        out.push(s[i]);
        i = i + 1;
        assert(out@ =~= old(out)@ + s@.subrange(0, i as int));
    }
    assert(s@.subrange(0, s@.len() as int) =~= s@);
}

fn push_escaped(out: &mut Vec<u16>, u: u16)
    ensures
        final(out)@ == old(out)@ + escape_unit(u),
{
    if u == 0x26 {
        push_all(out, &[0x26u16, 0x61, 0x6D, 0x70, 0x3B]);
    } else if u == 0x3C {
        push_all(out, &[0x26u16, 0x6C, 0x74, 0x3B]);
    } else if u == 0x3E {
        push_all(out, &[0x26u16, 0x67, 0x74, 0x3B]);
    } else {
        out.push(u);
    }
    assert(final(out)@ =~= old(out)@ + escape_unit(u));
}

/// Escapes plain text for HTML.
pub fn escape_html_text(t: &[u16]) -> (r: Vec<u16>)
    ensures
        r@ == escape_text(t@),
{
    let mut out: Vec<u16> = Vec::new();
    let mut i: usize = 0;
    while i < t.len()
        invariant
            i <= t@.len(),
            out@ == escape_text(t@.subrange(0, i as int)),
        decreases t@.len() - i,
    {
        assert(t@.subrange(0, i + 1).drop_last() =~= t@.subrange(0, i as int));
        push_escaped(&mut out, t[i]);
        i = i + 1;
    }
    assert(t@.subrange(0, t@.len() as int) =~= t@);
    out
}

/// Writes each pair of spaces, from the left, as two non-breaking spaces.
pub fn pair_spaces_in(t: &[u16]) -> (r: Vec<u16>)
    ensures
        r@ == pair_spaces(t@),
{
    let mut out: Vec<u16> = Vec::new();
    let mut i: usize = 0;
    assert(t@.skip(0) =~= t@);
    assert(out@ + pair_spaces(t@) =~= pair_spaces(t@));
    while i < t.len()
        invariant
            i <= t@.len(),
            out@ + pair_spaces(t@.skip(i as int)) == pair_spaces(t@),
        decreases t@.len() - i,
    {
        let ghost rest = t@.skip(i as int);
        if i + 1 < t.len() && t[i] == SPACE && t[i + 1] == SPACE {
            assert(rest.skip(2) =~= t@.skip(i + 2));
            out.push(NBSP);
            out.push(NBSP);
            i = i + 2;
        } else {
            assert(rest.skip(1) =~= t@.skip(i + 1));
            out.push(t[i]);
            i = i + 1;
        }
    }
    assert(t@.skip(i as int) =~= Seq::<u16>::empty());
    assert(out@ + Seq::<u16>::empty() =~= out@);
    out
}

/// The HTML of a text node's units; `is_last` says whether the node ends
/// its parent.
pub fn text_to_html(t: &[u16], is_last: bool) -> (r: Vec<u16>)
    ensures
        r@ == text_html(t@, is_last),
{
    let escaped = escape_html_text(t);
    let mut r = pair_spaces_in(escaped.as_slice());
    let n = r.len();
    if is_last && n > 0 && r[n - 1] == SPACE {
        r.set(n - 1, NBSP);
    }
    r
}

struct KnownCharData {
    equal: u16,
    forward_slash: u16,
    gt: u16,
    lt: u16,
    quote: u16,
    space: u16,
}

impl KnownCharData {
    spec fn is_standard(&self) -> bool {
        self.equal == html_char_unit(HtmlChar::Equal) && self.forward_slash == html_char_unit(
            HtmlChar::ForwardSlash,
        ) && self.gt == html_char_unit(HtmlChar::Gt) && self.lt == html_char_unit(HtmlChar::Lt)
            && self.quote == html_char_unit(HtmlChar::Quote) && self.space == html_char_unit(
            HtmlChar::Space,
        )
    }

    fn new() -> (r: KnownCharData)
        ensures
            r.is_standard(),
    {
        KnownCharData {
            equal: 0x3D,
            forward_slash: 0x2F,
            gt: 0x3E,
            lt: 0x3C,
            quote: 0x22,
            space: 0x20,
        }
    }
}

/// A buffer of UTF-16 code units that HTML is written into.
pub struct HtmlFormatter {
    chars: Vec<u16>,
    known_char_data: KnownCharData,
}

impl View for HtmlFormatter {
    type V = Seq<u16>;

    closed spec fn view(&self) -> Seq<u16> {
        self.chars@
    }
}

impl HtmlFormatter {
    /// The formatter's constant data is as `new` made it.
    pub closed spec fn wf(&self) -> bool {
        self.known_char_data.is_standard()
    }

    pub fn new() -> (r: HtmlFormatter)
        ensures
            r.wf(),
            r@ == Seq::<u16>::empty(),
    {
        HtmlFormatter { chars: Vec::new(), known_char_data: KnownCharData::new() }
    }

    /// The units written from `start` to `end`.
    pub fn chars_at(&self, start: usize, end: usize) -> (r: &[u16])
        requires
            start <= end <= self@.len(),
        ensures
            r@ == self@.subrange(start as int, end as int),
    {
        slice_subrange(self.chars.as_slice(), start, end)
    }

    /// The units written from `start` on.
    pub fn chars_from(&self, start: usize) -> (r: &[u16])
        requires
            start <= self@.len(),
        ensures
            r@ == self@.skip(start as int),
    {
        slice_subrange(self.chars.as_slice(), start, self.chars.len())
    }

    pub fn write_char(&mut self, c: HtmlChar)
        requires
            old(self).wf(),
        ensures
            final(self).wf(),
            final(self)@ == old(self)@.push(html_char_unit(c)),
    {
        let u = match c {
            HtmlChar::Equal => self.known_char_data.equal,
            HtmlChar::ForwardSlash => self.known_char_data.forward_slash,
            HtmlChar::Gt => self.known_char_data.gt,
            HtmlChar::Lt => self.known_char_data.lt,
            HtmlChar::Quote => self.known_char_data.quote,
            HtmlChar::Space => self.known_char_data.space,
        };
        self.chars.push(u);
    }

    pub fn write(&mut self, slice: &[u16])
        requires
            old(self).wf(),
        ensures
            final(self).wf(),
            final(self)@ == old(self)@ + slice@,
    {
        push_all(&mut self.chars, slice);
    }

    pub fn write_char_at(&mut self, pos: usize, c: u16)
        requires
            old(self).wf(),
            pos <= old(self)@.len(),
        ensures
            final(self).wf(),
            final(self)@ == old(self)@.insert(pos as int, c),
    {
        self.chars.insert(pos, c);
    }

    pub fn write_at(&mut self, pos: usize, slice: &[u16])
        requires
            old(self).wf(),
            pos <= old(self)@.len(),
        ensures
            final(self).wf(),
            final(self)@ == old(self)@.subrange(0, pos as int) + slice@ + old(self)@.skip(
                pos as int,
            ),
    {
        self.write_at_range(pos, pos, slice);
    }

    /// Replaces the units from `start` to `end` with `slice`.
    pub fn write_at_range(&mut self, start: usize, end: usize, slice: &[u16])
        requires
            old(self).wf(),
            start <= end <= old(self)@.len(),
        ensures
            final(self).wf(),
            final(self)@ == old(self)@.subrange(0, start as int) + slice@ + old(self)@.skip(
                end as int,
            ),
    {
        let mut out: Vec<u16> = Vec::new();
        push_all(&mut out, slice_subrange(self.chars.as_slice(), 0, start));
        push_all(&mut out, slice);
        push_all(&mut out, slice_subrange(self.chars.as_slice(), end, self.chars.len()));
        assert(self.chars@.subrange(end as int, self.chars@.len() as int) =~= self.chars@.skip(
            end as int,
        ));
        self.chars = out;
    }

    pub fn write_vec(&mut self, chars: Vec<u16>)
        requires
            old(self).wf(),
        ensures
            final(self).wf(),
            final(self)@ == old(self)@ + chars@,
    {
        let mut chars = chars;
        self.chars.append(&mut chars);
    }

    /// The HTML written, with each non-breaking space as `&nbsp;`.
    pub fn finish(self) -> (r: Vec<u16>)
        ensures
            r@ == nbsp_entities(self@),
    {
        let t = &self.chars;
        let mut out: Vec<u16> = Vec::new();
        let mut i: usize = 0;
        while i < t.len()
            invariant
                i <= t@.len(),
                out@ == nbsp_entities(t@.subrange(0, i as int)),
            decreases t@.len() - i,
        {
            assert(t@.subrange(0, i + 1).drop_last() =~= t@.subrange(0, i as int));
            if t[i] == NBSP {
                push_all(&mut out, &[0x26u16, 0x6E, 0x62, 0x73, 0x70, 0x3B]);
            } else {
                out.push(t[i]);
            }
            i = i + 1;
            assert(out@ =~= nbsp_entities(t@.subrange(0, i as int)));
        }
        assert(t@.subrange(0, t@.len() as int) =~= t@);
        out
    }

    pub fn len(&self) -> (r: usize)
        ensures
            r == self@.len(),
    {
        self.chars.len()
    }
}

} // verus!
