use vstd::prelude::*;
use crate::char_type::{char_type_of_point, char_type_of_code_point, CharType};
use crate::delete_text::Direction;
use crate::dom_handle::DomHandle;
use crate::html_formatter::{text_html, text_to_html, HtmlFormatter};
use crate::unicode::{copy_units, ZWSP};

verus! {

/// A run of text in a document tree.
#[derive(Debug)]
pub struct TextNode {
    data: Vec<u16>,
    handle: DomHandle,
}

/// Space as `is_blank` sees it: a plain space, a tab, a line feed, a
/// vertical tab, a form feed or a carriage return.
pub open spec fn is_blank_unit(u: u16) -> bool {
    u == 0x20 || (0x09 <= u && u <= 0x0D)
}

impl TextNode {
    /// The text's code units.
    pub closed spec fn text(&self) -> Seq<u16> {
        self.data@
    }

    /// Where the node stands in its tree.
    pub closed spec fn node_handle(&self) -> Option<Seq<usize>> {
        self.handle@
    }

    /// A text node that is not placed in a tree yet.
    pub fn from(data: Vec<u16>) -> (r: TextNode)
        ensures
            r.text() == data@,
            r.node_handle() is None,
    {
        TextNode { data, handle: DomHandle::new_unset() }
    }

    pub fn data(&self) -> (r: &Vec<u16>)
        ensures
            r@ == self.text(),
    {
        &self.data
    }

    pub fn set_data(&mut self, data: Vec<u16>)
        ensures
            final(self).text() == data@,
            final(self).node_handle() == old(self).node_handle(),
    {
        self.data = data;
    }

    pub fn handle(&self) -> (r: DomHandle)
        ensures
            r@ == self.node_handle(),
    {
        self.handle.duplicate()
    }

    pub fn set_handle(&mut self, handle: DomHandle)
        ensures
            final(self).node_handle() == handle@,
            final(self).text() == old(self).text(),
    {
        self.handle = handle;
    }

    /// The number of code units in the text.
    pub fn text_len(&self) -> (r: usize)
        ensures
            r == self.text().len(),
    {
        self.data.len()
    }

    /// Whether the text holds only spaces and control white space.
    pub fn is_blank(&self) -> (r: bool)
        ensures
            r == forall|i: int| 0 <= i < self.text().len() ==> is_blank_unit(#[trigger] self.text()[i]),
    {
        let mut i: usize = 0;
        while i < self.data.len()
            invariant
                i <= self.data@.len(),
                forall|k: int| 0 <= k < i ==> is_blank_unit(#[trigger] self.data@[k]),
            decreases self.data@.len() - i,
        {
            let u = self.data[i];
            if !(u == 0x20 || (0x09 <= u && u <= 0x0D)) {
                assert(!is_blank_unit(self.text()[i as int]));
                return false;
            }
            i = i + 1;
        }
        true
    }

    /// Puts a zero-width space at the start unless one is there; says
    /// whether it did.
    pub fn add_leading_zwsp(&mut self) -> (r: bool)
        ensures
            r == !(old(self).text().len() > 0 && old(self).text()[0] == ZWSP),
            r ==> final(self).text() == seq![ZWSP] + old(self).text(),
            !r ==> final(self).text() == old(self).text(),
            final(self).node_handle() == old(self).node_handle(),
    {
        if self.data.len() > 0 && self.data[0] == ZWSP {
            false
        } else {
            self.data.insert(0, ZWSP);
            assert(self.data@ =~= seq![ZWSP] + old(self).text());
            true
        }
    }

    /// Takes away a zero-width space at the start if one is there; says
    /// whether it did.
    pub fn remove_leading_zwsp(&mut self) -> (r: bool)
        ensures
            r == (old(self).text().len() > 0 && old(self).text()[0] == ZWSP),
            r ==> final(self).text() == old(self).text().skip(1),
            !r ==> final(self).text() == old(self).text(),
            final(self).node_handle() == old(self).node_handle(),
    {
        if self.data.len() > 0 && self.data[0] == ZWSP {
            self.data.remove(0);
            assert(self.data@ =~= old(self).text().skip(1));
            true
        } else {
            false
        }
    }

    /// The class of the unit next to the cursor at `offset`, looking in
    /// `direction`; none where the text ends that way.
    pub fn char_type_at_offset(&self, offset: usize, direction: &Direction) -> (r: Option<CharType>)
        ensures
            *direction is Forwards ==> r == if offset < self.text().len() {
                Some(char_type_of_point(self.text()[offset as int] as u32))
            } else {
                None::<CharType>
            },
            *direction is Backwards ==> r == if 0 < offset <= self.text().len() {
                Some(char_type_of_point(self.text()[offset - 1] as u32))
            } else {
                None::<CharType>
            },
    {
        match direction {
            Direction::Forwards => {
                if offset < self.data.len() {
                    Some(char_type_of_code_point(self.data[offset] as u32))
                } else {
                    None
                }
            },
            Direction::Backwards => {
                if 0 < offset && offset <= self.data.len() {
                    Some(char_type_of_code_point(self.data[offset - 1] as u32))
                } else {
                    None
                }
            },
        }
    }

    /// Whether a cursor at `current_offset`, moving in `direction`, still
    /// has this node's text ahead of it.
    pub fn offset_is_inside_node(&self, current_offset: usize, direction: &Direction) -> (r: bool)
        ensures
            *direction is Forwards ==> r == (current_offset < self.text().len()),
            *direction is Backwards ==> r == (current_offset > 0),
    {
        match direction {
            Direction::Forwards => current_offset < self.data.len(),
            Direction::Backwards => current_offset > 0,
        }
    }

    pub fn is_empty(&self) -> (r: bool)
        ensures
            r == (self.text().len() == 0),
    {
        self.data.len() == 0
    }

    /// A copy of the text's units.
    pub fn to_raw_text(&self) -> (r: Vec<u16>)
        ensures
            r@ == self.text(),
    {
        copy_units(&self.data)
    }

    /// Writes the text as HTML; `is_last_node_in_parent` says whether it
    /// ends its parent.
    pub fn fmt_html(&self, formatter: &mut HtmlFormatter, is_last_node_in_parent: bool)
        requires
            old(formatter).wf(),
        ensures
            final(formatter).wf(),
            final(formatter)@ == old(formatter)@ + text_html(self.text(), is_last_node_in_parent),
    {
        let html = text_to_html(self.data.as_slice(), is_last_node_in_parent);
        formatter.write_vec(html);
    }
}

} // verus!
