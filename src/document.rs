use vstd::prelude::*;
use crate::format_type::{plain_formats, tag_units_of, Formats, InlineFormatType};
use crate::html_formatter::{html_char_unit, nbsp_entities, text_html, HtmlChar, HtmlFormatter};
use crate::dom_node::{attrs_html, write_attrs};
use crate::text_node::TextNode;
use crate::unicode::{units_between, NEWLINE};

verus! {

pub open spec fn open_tag(f: InlineFormatType) -> Seq<u16> {
    seq![html_char_unit(HtmlChar::Lt)] + tag_units_of(f) + seq![html_char_unit(HtmlChar::Gt)]
}

pub open spec fn close_tag(f: InlineFormatType) -> Seq<u16> {
    seq![html_char_unit(HtmlChar::Lt), html_char_unit(HtmlChar::ForwardSlash)] + tag_units_of(f)
        + seq![html_char_unit(HtmlChar::Gt)]
}

/// A container that text stands in: an inline format, or a link by its
/// index in the table of link targets.
#[derive(PartialEq, Eq, Structural, Debug, Clone, Copy)]
pub enum Tag {
    Format(InlineFormatType),
    Link(usize),
}

/// The format `f`, where its level is `r`.
pub open spec fn tag_at(o: Option<u8>, r: int, f: InlineFormatType) -> Seq<Tag> {
    if o is Some && o->Some_0 as int == r {
        seq![Tag::Format(f)]
    } else {
        Seq::empty()
    }
}

/// The formats at level `r`, in the order bold, italic, strike-through,
/// underline, inline code.
pub open spec fn level_tags(fs: Formats, r: int) -> Seq<Tag> {
    tag_at(fs.bold, r, InlineFormatType::Bold) + tag_at(fs.italic, r, InlineFormatType::Italic)
        + tag_at(fs.strike_through, r, InlineFormatType::StrikeThrough) + tag_at(
        fs.underline,
        r,
        InlineFormatType::Underline,
    ) + tag_at(fs.inline_code, r, InlineFormatType::InlineCode)
}

/// The formats of the levels below `r`, outermost first.
pub open spec fn format_stack(fs: Formats, r: int) -> Seq<Tag>
    decreases r,
{
    if r <= 0 {
        Seq::empty()
    } else {
        format_stack(fs, r - 1) + level_tags(fs, r - 1)
    }
}

/// The containers that a unit stands in, outermost first: its link, then
/// its formats by level.
pub open spec fn tag_stack(fs: Formats, n_links: int) -> Seq<Tag> {
    (if fs.link is Some && fs.link->Some_0 < n_links {
        seq![Tag::Link(fs.link->Some_0)]
    } else {
        Seq::empty()
    }) + format_stack(fs, 256)
}

/// How far two stacks agree, counting from `i`.
pub open spec fn common_from(a: Seq<Tag>, b: Seq<Tag>, i: int) -> int
    decreases a.len() - i,
{
    if 0 <= i < a.len() && i < b.len() && a[i] == b[i] {
        common_from(a, b, i + 1)
    } else {
        i
    }
}

/// The number of outer containers that two stacks share.
pub open spec fn common_len(a: Seq<Tag>, b: Seq<Tag>) -> int {
    common_from(a, b, 0)
}

/// Whether the stack `a` begins the stack `b`.
pub open spec fn tags_prefix(a: Seq<Tag>, b: Seq<Tag>) -> bool {
    a.len() <= b.len() && b.subrange(0, a.len() as int) == a
}

/// The opening tag of a container.
pub open spec fn tag_open(t: Tag, links: Seq<LinkTargetView>) -> Seq<u16> {
    match t {
        Tag::Format(f) => open_tag(f),
        Tag::Link(id) => if id < links.len() {
            anchor_start() + links[id as int].url + seq![0x22u16] + attrs_html(
                links[id as int].attributes,
            ) + seq![0x3Eu16]
        } else {
            Seq::empty()
        },
    }
}

/// The closing tag of a container.
pub open spec fn tag_close(t: Tag, links: Seq<LinkTargetView>) -> Seq<u16> {
    match t {
        Tag::Format(f) => close_tag(f),
        Tag::Link(id) => if id < links.len() {
            seq![0x3Cu16, 0x2F, 0x61, 0x3E]
        } else {
            Seq::empty()
        },
    }
}

/// The opening tags of the containers of `s` from `from` on, outermost first.
pub open spec fn opens(s: Seq<Tag>, from: int, links: Seq<LinkTargetView>) -> Seq<u16>
    decreases s.len() - from,
{
    if from < 0 || from >= s.len() {
        Seq::empty()
    } else {
        tag_open(s[from], links) + opens(s, from + 1, links)
    }
}

/// The closing tags of the containers of `s` from `to` on, innermost first.
pub open spec fn closes(s: Seq<Tag>, to: int, links: Seq<LinkTargetView>) -> Seq<u16>
    decreases s.len(),
{
    if s.len() <= to || s.len() == 0 {
        Seq::empty()
    } else {
        tag_close(s.last(), links) + closes(s.drop_last(), to, links)
    }
}

/// Where the run of units before `j` that carry the same formats as unit
/// `i` ends.
pub open spec fn format_run_end(f: Seq<Formats>, i: int, j: int) -> int
    decreases j - i,
{
    if 0 <= i && i + 1 < j && j <= f.len() && f[i + 1] == f[i] {
        format_run_end(f, i + 1, j)
    } else {
        i + 1
    }
}

/// The units of `<a href="`.
pub open spec fn anchor_start() -> Seq<u16> {
    seq![0x3Cu16, 0x61, 0x20, 0x68, 0x72, 0x65, 0x66, 0x3D, 0x22]
}

/// Whether the text of the run that ends at `k` is the last of its parent:
/// the paragraph ends there, or the next run leaves the run's innermost
/// container.
pub open spec fn ends_parent(f: Seq<Formats>, k: int, j: int, s: Seq<Tag>, n_links: int) -> bool {
    k >= j || !tags_prefix(s, tag_stack(f[k], n_links))
}

/// The HTML of the runs from unit `i` up to unit `j`, with the containers
/// `open` open before them and closed after them. Each run closes the
/// containers that it does not share with the run before it, and opens
/// its own.
pub open spec fn html_between(
    t: Seq<u16>,
    f: Seq<Formats>,
    i: int,
    j: int,
    links: Seq<LinkTargetView>,
    open: Seq<Tag>,
) -> Seq<u16>
    decreases j - i,
{
    if i < 0 || i >= j || j > f.len() {
        closes(open, 0, links)
    } else {
        let k = format_run_end(f, i, j);
        if k <= i || k > j {
            closes(open, 0, links)
        } else {
            let s = tag_stack(f[i], links.len() as int);
            let c = common_len(open, s);
            closes(open, c, links) + opens(s, c, links) + text_html(
                t.subrange(i, k),
                ends_parent(f, k, j, s, links.len() as int),
            ) + html_between(t, f, k, j, links, s)
        }
    }
}

/// Where the paragraph that starts at `i` ends: at the next line break, or
/// at the end of the text.
pub open spec fn next_break(t: Seq<u16>, i: int) -> int
    decreases t.len() - i,
{
    if i < 0 || i >= t.len() {
        t.len() as int
    } else if t[i] == NEWLINE {
        i
    } else {
        next_break(t, i + 1)
    }
}

/// The units of `<p>`.
pub open spec fn p_open() -> Seq<u16> {
    seq![0x3Cu16, 0x70, 0x3E]
}

/// The units of `</p>`.
pub open spec fn p_close() -> Seq<u16> {
    seq![0x3Cu16, 0x2F, 0x70, 0x3E]
}

/// The HTML of the paragraphs from the one that starts at `i` on: each
/// inside `<p>` and `</p>`, the line breaks between them unwritten.
pub open spec fn paragraphs_html(t: Seq<u16>, f: Seq<Formats>, i: int, links: Seq<LinkTargetView>) -> Seq<u16>
    decreases t.len() - i,
{
    if i < 0 || i > t.len() {
        Seq::empty()
    } else {
        let j = next_break(t, i);
        p_open() + html_between(t, f, i, j, links, Seq::empty()) + p_close() + if i <= j < t.len() {
            paragraphs_html(t, f, j + 1, links)
        } else {
            Seq::empty()
        }
    }
}

/// The HTML of a document of units `t` whose formats are `f`: its runs as
/// they are, or, once a line break splits it, its paragraphs.
pub open spec fn document_html(t: Seq<u16>, f: Seq<Formats>, links: Seq<LinkTargetView>) -> Seq<u16> {
    nbsp_entities(
        if next_break(t, 0) < t.len() {
            paragraphs_html(t, f, 0, links)
        } else {
            html_between(t, f, 0, t.len() as int, links, Seq::empty())
        },
    )
}

/// The target of a link, and the further attributes that its tag carries.
#[derive(Debug)]
pub struct LinkTarget {
    pub url: Vec<u16>,
    pub attributes: Vec<(Vec<u16>, Vec<u16>)>,
}

/// The mathematical value of a `LinkTarget`.
pub struct LinkTargetView {
    pub url: Seq<u16>,
    pub attributes: Seq<(Seq<u16>, Seq<u16>)>,
}

/// The value of a list of attributes.
pub open spec fn attr_views(a: Seq<(Vec<u16>, Vec<u16>)>) -> Seq<(Seq<u16>, Seq<u16>)> {
    a.map_values(|p: (Vec<u16>, Vec<u16>)| (p.0@, p.1@))
}

impl View for LinkTarget {
    type V = LinkTargetView;

    open spec fn view(&self) -> LinkTargetView {
        LinkTargetView { url: self.url@, attributes: attr_views(self.attributes@) }
    }
}

/// The view of a table of link targets.
pub open spec fn link_views(links: Seq<LinkTarget>) -> Seq<LinkTargetView> {
    links.map_values(|u: LinkTarget| u@)
}

pub proof fn lemma_format_run_end_bounds(f: Seq<Formats>, i: int, j: int)
    requires
        0 <= i < j <= f.len(),
    ensures
        i < format_run_end(f, i, j) <= j,
    decreases j - i,
{
    if i + 1 < j && f[i + 1] == f[i] {
        lemma_format_run_end_bounds(f, i + 1, j);
    }
}

pub(crate) fn find_format_run_end(f: &Vec<Formats>, i: usize, j: usize) -> (r: usize)
    requires
        i < j <= f@.len(),
    ensures
        r == format_run_end(f@, i as int, j as int),
        i < r <= j,
{
    let mut k: usize = i;
    while k + 1 < j && f[k + 1] == f[i]
        invariant
            i <= k < j <= f@.len(),
            f@[k as int] == f@[i as int],
            format_run_end(f@, k as int, j as int) == format_run_end(f@, i as int, j as int),
        decreases j - k,
    {
        k = k + 1;
    }
    proof {
        lemma_format_run_end_bounds(f@, i as int, j as int);
    }
    k + 1
}

pub proof fn lemma_next_break_bounds(t: Seq<u16>, i: int)
    requires
        0 <= i <= t.len(),
    ensures
        i <= next_break(t, i) <= t.len(),
        next_break(t, i) < t.len() ==> t[next_break(t, i)] == NEWLINE,
    decreases t.len() - i,
{
    if i < t.len() && t[i] != NEWLINE {
        lemma_next_break_bounds(t, i + 1);
    }
}

pub(crate) fn find_next_break(t: &Vec<u16>, i: usize) -> (r: usize)
    requires
        i <= t@.len(),
    ensures
        r == next_break(t@, i as int),
        i <= r <= t@.len(),
{
    let mut k: usize = i;
    while k < t.len() && t[k] != NEWLINE
        invariant
            i <= k <= t@.len(),
            next_break(t@, k as int) == next_break(t@, i as int),
        decreases t@.len() - k,
    {
        k = k + 1;
    }
    proof {
        lemma_next_break_bounds(t@, i as int);
    }
    k
}

fn write_tag(out: &mut HtmlFormatter, f: InlineFormatType, closing: bool)
    requires
        old(out).wf(),
    ensures
        final(out).wf(),
        closing ==> final(out)@ == old(out)@ + close_tag(f),
        !closing ==> final(out)@ == old(out)@ + open_tag(f),
{
    out.write_char(HtmlChar::Lt);
    if closing {
        out.write_char(HtmlChar::ForwardSlash);
    }
    let tag = f.tag_units();
    out.write(tag.as_slice());
    out.write_char(HtmlChar::Gt);
    proof {
        if closing {
            assert(final(out)@ =~= old(out)@ + close_tag(f));
        } else {
            assert(final(out)@ =~= old(out)@ + open_tag(f));
        }
    }
}

fn push_tag_at(out: &mut Vec<Tag>, o: Option<u8>, r: u16, f: InlineFormatType)
    requires
        r < 256,
    ensures
        final(out)@ == old(out)@ + tag_at(o, r as int, f),
{
    match o {
        Some(l) => {
            if l as u16 == r {
                out.push(Tag::Format(f));
                assert(final(out)@ =~= old(out)@ + tag_at(o, r as int, f));
            } else {
                assert(old(out)@ + Seq::<Tag>::empty() =~= old(out)@);
            }
        },
        None => {
            assert(old(out)@ + Seq::<Tag>::empty() =~= old(out)@);
        },
    }
}

/// The containers that a unit stands in, outermost first.
pub(crate) fn tag_stack_of(fs: Formats, n_links: usize) -> (r: Vec<Tag>)
    ensures
        r@ == tag_stack(fs, n_links as int),
{
    let mut out: Vec<Tag> = Vec::new();
    match fs.link {
        Some(id) => {
            if id < n_links {
                out.push(Tag::Link(id));
            }
        },
        None => {},
    }
    let ghost head = out@;
    let mut r: u16 = 0;
    assert(head + format_stack(fs, 0) =~= head);
    while r < 256
        invariant
            r <= 256,
            out@ == head + format_stack(fs, r as int),
        decreases 256 - r,
    {
        let ghost before = out@;
        push_tag_at(&mut out, fs.bold, r, InlineFormatType::Bold);
        push_tag_at(&mut out, fs.italic, r, InlineFormatType::Italic);
        push_tag_at(&mut out, fs.strike_through, r, InlineFormatType::StrikeThrough);
        push_tag_at(&mut out, fs.underline, r, InlineFormatType::Underline);
        push_tag_at(&mut out, fs.inline_code, r, InlineFormatType::InlineCode);
        assert(out@ =~= before + level_tags(fs, r as int));
        r = r + 1;
        assert(out@ =~= head + format_stack(fs, r as int));
    }
    assert(out@ =~= tag_stack(fs, n_links as int));
    out
}

fn common_len_of(a: &Vec<Tag>, b: &Vec<Tag>) -> (r: usize)
    ensures
        r == common_len(a@, b@),
        r <= a@.len(),
        r <= b@.len(),
        a@.subrange(0, r as int) == b@.subrange(0, r as int),
{
    let mut i: usize = 0;
    while i < a.len() && i < b.len() && a[i] == b[i]
        invariant
            i <= a@.len(),
            i <= b@.len(),
            common_from(a@, b@, i as int) == common_from(a@, b@, 0),
            a@.subrange(0, i as int) == b@.subrange(0, i as int),
        decreases a@.len() - i,
    {
        assert(a@.subrange(0, i + 1) =~= a@.subrange(0, i as int).push(a@[i as int]));
        assert(b@.subrange(0, i + 1) =~= b@.subrange(0, i as int).push(b@[i as int]));
        i = i + 1;
    }
    i
}

fn tags_prefix_of(a: &Vec<Tag>, b: &Vec<Tag>) -> (r: bool)
    ensures
        r == tags_prefix(a@, b@),
{
    let c = common_len_of(a, b);
    if c == a.len() {
        assert(a@.subrange(0, c as int) =~= a@);
        true
    } else {
        proof {
            if tags_prefix(a@, b@) {
                lemma_common_from_prefix(a@, b@, 0);
            }
        }
        false
    }
}

proof fn lemma_common_from_prefix(a: Seq<Tag>, b: Seq<Tag>, i: int)
    requires
        0 <= i <= a.len(),
        tags_prefix(a, b),
    ensures
        common_from(a, b, i) == a.len(),
    decreases a.len() - i,
{
    if i < a.len() {
        assert(b.subrange(0, a.len() as int)[i] == b[i]);
        lemma_common_from_prefix(a, b, i + 1);
    }
}

fn write_tag_open(out: &mut HtmlFormatter, t: Tag, links: &Vec<LinkTarget>)
    requires
        old(out).wf(),
    ensures
        final(out).wf(),
        final(out)@ == old(out)@ + tag_open(t, link_views(links@)),
{
    match t {
        Tag::Format(f) => write_tag(out, f, false),
        Tag::Link(id) => {
            if id < links.len() {
                out.write_vec(vec![0x3Cu16, 0x61, 0x20, 0x68, 0x72, 0x65, 0x66, 0x3D, 0x22]);
                out.write(links[id].url.as_slice());
                out.write_vec(vec![0x22u16]);
                write_attrs(out, &links[id].attributes);
                out.write_vec(vec![0x3Eu16]);
                assert(final(out)@ =~= old(out)@ + tag_open(t, link_views(links@)));
            } else {
                assert(old(out)@ + Seq::<u16>::empty() =~= old(out)@);
            }
        },
    }
}

fn write_tag_close(out: &mut HtmlFormatter, t: Tag, links: &Vec<LinkTarget>)
    requires
        old(out).wf(),
    ensures
        final(out).wf(),
        final(out)@ == old(out)@ + tag_close(t, link_views(links@)),
{
    match t {
        Tag::Format(f) => write_tag(out, f, true),
        Tag::Link(id) => {
            if id < links.len() {
                out.write_vec(vec![0x3Cu16, 0x2F, 0x61, 0x3E]);
                assert(final(out)@ =~= old(out)@ + tag_close(t, link_views(links@)));
            } else {
                assert(old(out)@ + Seq::<u16>::empty() =~= old(out)@);
            }
        },
    }
}

/// Writes the opening tags of `s` from `from` on.
fn write_opens(out: &mut HtmlFormatter, s: &Vec<Tag>, from: usize, links: &Vec<LinkTarget>)
    requires
        old(out).wf(),
        from <= s@.len(),
    ensures
        final(out).wf(),
        final(out)@ == old(out)@ + opens(s@, from as int, link_views(links@)),
{
    let ghost lv = link_views(links@);
    let mut i: usize = from;
    assert(out@ + opens(s@, from as int, lv) =~= old(out)@ + opens(s@, from as int, lv));
    while i < s.len()
        invariant
            from <= i <= s@.len(),
            lv == link_views(links@),
            out.wf(),
            out@ + opens(s@, i as int, lv) == old(out)@ + opens(s@, from as int, lv),
        decreases s@.len() - i,
    {
        let ghost before = out@;
        write_tag_open(out, s[i], links);
        assert(out@ + opens(s@, i + 1, lv) =~= before + opens(s@, i as int, lv));
        i = i + 1;
    }
    assert(out@ + opens(s@, i as int, lv) =~= out@);
}

/// Closes the containers of `open` from `to` on, innermost first, and takes
/// them off it.
fn write_closes(out: &mut HtmlFormatter, open: &mut Vec<Tag>, to: usize, links: &Vec<LinkTarget>)
    requires
        old(out).wf(),
        to <= old(open)@.len(),
    ensures
        final(out).wf(),
        final(out)@ == old(out)@ + closes(old(open)@, to as int, link_views(links@)),
        final(open)@ == old(open)@.subrange(0, to as int),
{
    let ghost lv = link_views(links@);
    assert(out@ + closes(open@, to as int, lv) =~= old(out)@ + closes(old(open)@, to as int, lv));
    while open.len() > to
        invariant
            to <= open@.len() <= old(open)@.len(),
            open@ == old(open)@.subrange(0, open@.len() as int),
            lv == link_views(links@),
            out.wf(),
            out@ + closes(open@, to as int, lv) == old(out)@ + closes(old(open)@, to as int, lv),
        decreases open@.len(),
    {
        let ghost before_out = out@;
        let ghost before = open@;
        let t = open.pop().unwrap();
        write_tag_close(out, t, links);
        assert(before.last() == t);
        assert(before.drop_last() =~= open@);
        assert(out@ + closes(open@, to as int, lv) =~= before_out + closes(before, to as int, lv));
        assert(open@ =~= old(open)@.subrange(0, open@.len() as int));
    }
    assert(out@ + closes(open@, to as int, lv) =~= out@);
}

/// Writes the runs of units from `i` up to `j`, which ends their parent.
fn write_between(
    out: &mut HtmlFormatter,
    text: &Vec<u16>,
    formats: &Vec<Formats>,
    links: &Vec<LinkTarget>,
    i: usize,
    j: usize,
)
    requires
        old(out).wf(),
        text@.len() == formats@.len(),
        i <= j <= formats@.len(),
    ensures
        final(out).wf(),
        final(out)@ == old(out)@ + html_between(
            text@,
            formats@,
            i as int,
            j as int,
            link_views(links@),
            Seq::empty(),
        ),
{
    let ghost lv = link_views(links@);
    let n = links.len();
    let mut open: Vec<Tag> = Vec::new();
    let mut k: usize = i;
    assert(open@ =~= Seq::<Tag>::empty());
    assert(out@ + html_between(text@, formats@, k as int, j as int, lv, open@) =~= old(out)@
        + html_between(text@, formats@, i as int, j as int, lv, Seq::empty()));
    while k < j
        invariant
            text@.len() == formats@.len(),
            i <= k <= j <= formats@.len(),
            lv == link_views(links@),
            n == lv.len(),
            out.wf(),
            out@ + html_between(text@, formats@, k as int, j as int, lv, open@) == old(out)@
                + html_between(text@, formats@, i as int, j as int, lv, Seq::empty()),
        decreases j - k,
    {
        let m = find_format_run_end(formats, k, j);
        let ghost before = out@;
        let ghost old_open = open@;
        let s = tag_stack_of(formats[k], n);
        let c = common_len_of(&open, &s);
        write_closes(out, &mut open, c, links);
        write_opens(out, &s, c, links);
        let last = if m >= j {
            true
        } else {
            let next = tag_stack_of(formats[m], n);
            !tags_prefix_of(&s, &next)
        };
        let node = TextNode::from(units_between(text, k, m));
        node.fmt_html(out, last);
        proof {
            let rest = html_between(text@, formats@, m as int, j as int, lv, s@);
            assert(last == ends_parent(formats@, m as int, j as int, s@, n as int));
            assert(html_between(text@, formats@, k as int, j as int, lv, old_open) == closes(
                old_open,
                c as int,
                lv,
            ) + opens(s@, c as int, lv) + text_html(
                text@.subrange(k as int, m as int),
                last,
            ) + rest);
            assert(out@ + rest =~= before + html_between(
                text@,
                formats@,
                k as int,
                j as int,
                lv,
                old_open,
            ));
        }
        open = s;
        k = m;
    }
    let ghost before = out@;
    let ghost old_open = open@;
    write_closes(out, &mut open, 0, links);
    assert(html_between(text@, formats@, k as int, j as int, lv, old_open) == closes(
        old_open,
        0,
        lv,
    ));
}

fn write_p(out: &mut HtmlFormatter, closing: bool)
    requires
        old(out).wf(),
    ensures
        final(out).wf(),
        closing ==> final(out)@ == old(out)@ + p_close(),
        !closing ==> final(out)@ == old(out)@ + p_open(),
{
    out.write_char(HtmlChar::Lt);
    if closing {
        out.write_char(HtmlChar::ForwardSlash);
    }
    out.write_vec(vec![0x70u16]);
    out.write_char(HtmlChar::Gt);
    proof {
        if closing {
            assert(final(out)@ =~= old(out)@ + p_close());
        } else {
            assert(final(out)@ =~= old(out)@ + p_open());
        }
    }
}

/// Writes a document as HTML: each unit stands inside its link and its
/// formats, nested by level; neighbouring runs share the containers they
/// have in common. Once a line break splits the text, each paragraph stands
/// inside `<p>` and `</p>`.
pub fn document_to_html(text: &Vec<u16>, formats: &Vec<Formats>, links: &Vec<LinkTarget>) -> (r: Vec<
    u16,
>)
    requires
        text@.len() == formats@.len(),
    ensures
        r@ == document_html(text@, formats@, link_views(links@)),
{
    let mut out = HtmlFormatter::new();
    let n = text.len();
    let first = find_next_break(text, 0);
    if first == n {
        write_between(&mut out, text, formats, links, 0, n);
        assert(out@ =~= html_between(text@, formats@, 0, n as int, link_views(links@), Seq::empty()));
        return out.finish();
    }
    let mut i: usize = 0;
    assert(out@ + paragraphs_html(text@, formats@, 0, link_views(links@)) =~= paragraphs_html(text@, formats@, 0, link_views(links@)));
    loop
        invariant_except_break
            out@ + paragraphs_html(text@, formats@, i as int, link_views(links@)) == paragraphs_html(text@, formats@, 0, link_views(links@)),
        invariant
            n == formats@.len() == text@.len(),
            i <= n,
            out.wf(),
        ensures
            out.wf(),
            out@ == paragraphs_html(text@, formats@, 0, link_views(links@)),
        decreases n + 1 - i,
    {
        let ghost before = out@;
        let j = write_paragraph(&mut out, text, formats, links, i);
        proof {
            lemma_paragraphs_step(text@, formats@, i as int, link_views(links@));
        }
        if j < n {
            assert(out@ + paragraphs_html(text@, formats@, j + 1, link_views(links@)) =~= before + paragraphs_html(text@, formats@, i as int, link_views(links@)));
            i = j + 1;
        } else {
            assert(out@ =~= before + paragraphs_html(text@, formats@, i as int, link_views(links@)));
            break;
        }
    }
    out.finish()
}

proof fn lemma_paragraphs_step(t: Seq<u16>, f: Seq<Formats>, i: int, links: Seq<LinkTargetView>)
    requires
        0 <= i <= t.len(),
    ensures
        next_break(t, i) < t.len() ==> paragraphs_html(t, f, i, links) == p_open() + html_between(
            t,
            f,
            i,
            next_break(t, i),
            links,
            Seq::empty(),
        ) + p_close() + paragraphs_html(t, f, next_break(t, i) + 1, links),
        next_break(t, i) >= t.len() ==> paragraphs_html(t, f, i, links) == p_open() + html_between(
            t,
            f,
            i,
            next_break(t, i),
            links,
            Seq::empty(),
        ) + p_close(),
{
    lemma_next_break_bounds(t, i);
    let j = next_break(t, i);
    if j >= t.len() {
        assert(p_open() + html_between(t, f, i, j, links, Seq::empty()) + p_close() + Seq::<u16>::empty()
            =~= p_open() + html_between(t, f, i, j, links, Seq::empty()) + p_close());
    }
}

/// Writes the paragraph that starts at `i`; returns where it ends.
fn write_paragraph(
    out: &mut HtmlFormatter,
    text: &Vec<u16>,
    formats: &Vec<Formats>,
    links: &Vec<LinkTarget>,
    i: usize,
) -> (r: usize)
    requires
        old(out).wf(),
        text@.len() == formats@.len(),
        i <= text@.len(),
    ensures
        final(out).wf(),
        r == next_break(text@, i as int),
        i <= r <= text@.len(),
        final(out)@ == old(out)@ + (p_open() + html_between(text@, formats@, i as int, r as int, link_views(links@), Seq::empty())
            + p_close()),
{
    let j = find_next_break(text, i);
    write_p(out, false);
    write_between(out, text, formats, links, i, j);
    write_p(out, true);
    assert(final(out)@ =~= old(out)@ + (p_open() + html_between(text@, formats@, i as int, j as int, link_views(links@), Seq::empty())
        + p_close()));
    j
}

} // verus!
