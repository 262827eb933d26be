use vstd::prelude::*;
use crate::composer_state::{
    all_have_format, empty_state, inserted_formats, link_at_cursor, max_int, min_int, sel_end,
    sel_start, selected_link, state_wf, with_format_applied, with_link_set, with_linked_text,
    with_links_removed, with_text_replaced, ComposerState, StateView,
};
use crate::composer_update::{
    ComposerUpdate, LinkAction, MenuAction, MenuState, MenuStateUpdate, PatternKey,
    SuggestionPattern, TextUpdate,
};
use crate::delete_text::{
    class_of_unit, word_class_of, word_deletion_range, word_range, Direction, WordClass,
};
use crate::document::{attr_views, document_html, document_to_html, LinkTarget, LinkTargetView};
use crate::format_type::{lemma_flipped_has, has_format, ActionState, ComposerAction, InlineFormatType};
use crate::unicode::{
    copy_units, find_next_char_len, find_previous_char_len, grapheme_len_after, grapheme_len_before, NEWLINE,
};

verus! {

/// The mathematical value of a `ComposerModel`: the current state, the
/// states that undo brings back (the last first), and those that redo
/// brings back (the last first).
pub struct ModelView {
    pub state: StateView,
    pub undo: Seq<StateView>,
    pub redo: Seq<StateView>,
}

/// Every state of the model, current or kept for undo and redo, is well
/// formed.
pub open spec fn model_wf(m: ModelView) -> bool {
    &&& state_wf(m.state)
    &&& forall|i: int| 0 <= i < m.undo.len() ==> state_wf(#[trigger] m.undo[i])
    &&& forall|i: int| 0 <= i < m.redo.len() ==> state_wf(#[trigger] m.redo[i])
}

/// The model after an edit that led to the state `s`: the state before it
/// can be undone to, and nothing is left to redo.
pub open spec fn after_edit(m: ModelView, s: StateView) -> ModelView {
    ModelView { state: s, undo: m.undo.push(m.state), redo: Seq::empty() }
}

/// The model after undo: the last undo state comes back and the current one
/// can be redone.
pub open spec fn after_undo(m: ModelView) -> ModelView {
    if m.undo.len() == 0 {
        m
    } else {
        ModelView { state: m.undo.last(), undo: m.undo.drop_last(), redo: m.redo.push(m.state) }
    }
}

/// The model after redo: the last redo state comes back and the current one
/// can be undone.
pub open spec fn after_redo(m: ModelView) -> ModelView {
    if m.redo.len() == 0 {
        m
    } else {
        ModelView { state: m.redo.last(), undo: m.undo.push(m.state), redo: m.redo.drop_last() }
    }
}

/// The number of toolbar actions.
pub const ACTION_COUNT: usize = 14;

/// The toolbar actions, in the order in which they are reported.
pub open spec fn action_at(i: int) -> ComposerAction {
    if i == 0 {
        ComposerAction::Bold
    } else if i == 1 {
        ComposerAction::Italic
    } else if i == 2 {
        ComposerAction::StrikeThrough
    } else if i == 3 {
        ComposerAction::Underline
    } else if i == 4 {
        ComposerAction::InlineCode
    } else if i == 5 {
        ComposerAction::Link
    } else if i == 6 {
        ComposerAction::Undo
    } else if i == 7 {
        ComposerAction::Redo
    } else if i == 8 {
        ComposerAction::OrderedList
    } else if i == 9 {
        ComposerAction::UnorderedList
    } else if i == 10 {
        ComposerAction::Indent
    } else if i == 11 {
        ComposerAction::Unindent
    } else if i == 12 {
        ComposerAction::CodeBlock
    } else {
        ComposerAction::Quote
    }
}

/// Whether the format `f` holds where the selection is: on every selected
/// unit, or, at a cursor, on what typing would insert.
pub open spec fn format_active(s: StateView, f: InlineFormatType) -> bool {
    if sel_start(s) < sel_end(s) {
        all_have_format(s.formats, sel_start(s), sel_end(s), f)
    } else {
        has_format(inserted_formats(s, sel_start(s), sel_start(s)), f)
    }
}

/// Whether the selection lies in links: every selected unit belongs to one,
/// or, at a cursor, a link is next to it.
pub open spec fn link_active(s: StateView) -> bool {
    if sel_start(s) < sel_end(s) {
        forall|k: int| sel_start(s) <= k < sel_end(s) ==> (#[trigger] s.formats[k]).link is Some
    } else {
        link_at_cursor(s) is Some
    }
}

/// A format's toolbar state: reversed where it holds.
pub open spec fn format_state(s: StateView, f: InlineFormatType) -> ActionState {
    if format_active(s, f) {
        ActionState::Reversed
    } else {
        ActionState::Enabled
    }
}

/// The state of each toolbar action. A format, or a link, is reversed where
/// it already holds; undo and redo are disabled with nothing to take back.
/// The block actions (lists, indenting, code blocks, quotes) are disabled:
/// a document of paragraphs of formatted runs holds no blocks of those kinds.
pub open spec fn action_state_of(m: ModelView, a: ComposerAction) -> ActionState {
    match a {
        ComposerAction::Bold => format_state(m.state, InlineFormatType::Bold),
        ComposerAction::Italic => format_state(m.state, InlineFormatType::Italic),
        ComposerAction::StrikeThrough => format_state(m.state, InlineFormatType::StrikeThrough),
        ComposerAction::Underline => format_state(m.state, InlineFormatType::Underline),
        ComposerAction::InlineCode => format_state(m.state, InlineFormatType::InlineCode),
        ComposerAction::Link => if link_active(m.state) {
            ActionState::Reversed
        } else {
            ActionState::Enabled
        },
        ComposerAction::Undo => if m.undo.len() == 0 {
            ActionState::Disabled
        } else {
            ActionState::Enabled
        },
        ComposerAction::Redo => if m.redo.len() == 0 {
            ActionState::Disabled
        } else {
            ActionState::Enabled
        },
        _ => ActionState::Disabled,
    }
}

/// The state of each toolbar action, in the order of `action_at`.
pub open spec fn action_states_of(m: ModelView) -> Seq<ActionState> {
    Seq::new(ACTION_COUNT as nat, |i: int| action_state_of(m, action_at(i)))
}

/// Each toolbar action with its state.
pub open spec fn menu_pairs(states: Seq<ActionState>) -> Seq<(ComposerAction, ActionState)> {
    Seq::new(states.len(), |i: int| (action_at(i), states[i]))
}

/// The toolbar report: nothing where the states are those last reported
/// (unless a report is asked for), else every action's state.
pub open spec fn menu_reported(
    ms: MenuState,
    shown_before: Seq<ActionState>,
    m: ModelView,
    always: bool,
) -> bool {
    if !always && action_states_of(m) == shown_before {
        ms is Keep
    } else {
        ms matches MenuState::Update(u) && u.action_states@ == menu_pairs(action_states_of(m))
    }
}

/// Whether a unit ends a token: white space or a line break.
pub open spec fn is_token_break(u: u16) -> bool {
    class_of_unit(u) == WordClass::Whitespace || class_of_unit(u) == WordClass::Newline
}

/// Where the token that ends at `c` starts.
pub open spec fn token_start(t: Seq<u16>, c: int) -> int
    decreases c,
{
    if 0 < c <= t.len() && !is_token_break(t[c - 1]) {
        token_start(t, c - 1)
    } else {
        c
    }
}

/// The key that a unit opens a suggestion with, if any.
pub open spec fn pattern_key_of(u: u16) -> Option<PatternKey> {
    if u == 0x40 {
        Some(PatternKey::At)
    } else if u == 0x23 {
        Some(PatternKey::Hash)
    } else if u == 0x2F {
        Some(PatternKey::Slash)
    } else {
        None
    }
}

/// The suggestion at a cursor: the token that ends at the cursor, when it
/// starts with a key; its key, start and end.
pub open spec fn suggestion_at(s: StateView) -> Option<(PatternKey, int, int)> {
    if s.start != s.end {
        None
    } else {
        let w = token_start(s.text, s.start);
        if w < s.start && pattern_key_of(s.text[w]) is Some {
            Some((pattern_key_of(s.text[w])->Some_0, w, s.start))
        } else {
            None
        }
    }
}

/// The suggestion report for the state `s`.
pub open spec fn action_reported(a: MenuAction, s: StateView) -> bool {
    match suggestion_at(s) {
        Some(p) => a matches MenuAction::Suggestion(sp) && sp.key == p.0 && sp.start == p.1
            && sp.end == p.2 && sp.text@ == s.text.subrange(p.1 + 1, p.2),
        None => a is NoAction,
    }
}

/// Whether setting a link changes anything: only over a selection.
pub open spec fn link_changes(s: StateView) -> bool {
    sel_start(s) < sel_end(s)
}

/// The update after a command that changed the content: the whole HTML and
/// the selection, with the toolbar report.
pub open spec fn content_reported(
    r: ComposerUpdate,
    m: ModelView,
    shown_before: Seq<ActionState>,
    always: bool,
) -> bool {
    &&& r.text_update matches TextUpdate::ReplaceAll(ra)
    &&& ra.replacement_html@ == document_html(m.state.text, m.state.formats, m.state.links)
    &&& ra.start == m.state.start
    &&& ra.end == m.state.end
    &&& menu_reported(r.menu_state, shown_before, m, always)
    &&& action_reported(r.menu_action, m.state)
}

/// `x`, cut at `n`.
pub open spec fn clamp(x: int, n: int) -> int {
    min_int(x, n)
}

/// The state after the units between `start` and `end`, taken in either
/// order and cut at the end of the text, were replaced by `new`.
pub open spec fn with_range_replaced(s: StateView, start: int, end: int, new: Seq<u16>) -> StateView {
    with_text_replaced(
        s,
        clamp(min_int(start, end), s.text.len() as int),
        clamp(max_int(start, end), s.text.len() as int),
        new,
    )
}

/// The range that backspace removes: the selection, or the character
/// before the cursor.
pub open spec fn backspace_range(s: StateView) -> (int, int) {
    if sel_start(s) < sel_end(s) {
        (sel_start(s), sel_end(s))
    } else if s.start == 0 {
        (0, 0)
    } else {
        (s.start - grapheme_len_before(s.text, s.start), s.start)
    }
}

/// The range that delete removes: the selection, or the character after
/// the cursor.
pub open spec fn delete_range(s: StateView) -> (int, int) {
    if sel_start(s) < sel_end(s) {
        (sel_start(s), sel_end(s))
    } else if s.start == s.text.len() {
        (s.start, s.start)
    } else {
        (s.start, s.start + grapheme_len_after(s.text, s.start))
    }
}

/// The range that deleting a word in direction `dir` removes: the
/// selection, or the word next to the cursor.
pub open spec fn word_delete_range(s: StateView, dir: Direction) -> (int, int) {
    if sel_start(s) < sel_end(s) {
        (sel_start(s), sel_end(s))
    } else {
        word_range(s.text, s.start, dir)
    }
}

/// The model after a command that removes the range `r`: unchanged when the
/// range is empty.
pub open spec fn after_removing(m: ModelView, r: (int, int)) -> ModelView {
    if r.0 < r.1 {
        after_edit(m, with_text_replaced(m.state, r.0, r.1, Seq::empty()))
    } else {
        m
    }
}

/// Redo takes back an undo: after `undo` then `redo` the model is as it was.
pub proof fn lemma_undo_then_redo(m: ModelView)
    requires
        m.undo.len() > 0,
    ensures
        after_redo(after_undo(m)) == m,
{
    let u = after_undo(m);
    assert(u.redo.last() == m.state);
    assert(u.undo.push(u.state) =~= m.undo);
    assert(u.redo.drop_last() =~= m.redo);
}

/// Undo takes back a redo: after `redo` then `undo` the model is as it was.
pub proof fn lemma_redo_then_undo(m: ModelView)
    requires
        m.redo.len() > 0,
    ensures
        after_undo(after_redo(m)) == m,
{
    let r = after_redo(m);
    assert(r.undo.last() == m.state);
    assert(r.undo.drop_last() =~= m.undo);
    assert(r.redo.push(r.state) =~= m.redo);
}

/// Undo takes back an edit: after any edit then `undo`, the state and the
/// undo history are as before the edit, and the edit can be redone.
pub proof fn lemma_edit_then_undo(m: ModelView, s: StateView)
    ensures
        after_undo(after_edit(m, s)).state == m.state,
        after_undo(after_edit(m, s)).undo == m.undo,
        after_undo(after_edit(m, s)).redo == seq![s],
{
    let e = after_edit(m, s);
    assert(e.undo.drop_last() =~= m.undo);
    assert(e.redo.push(s) =~= seq![s]);
}

/// A format command keeps the text and the selection: the selection covers
/// the same characters afterwards.
pub proof fn lemma_format_keeps_text_and_selection(s: StateView, f: InlineFormatType)
    ensures
        with_format_applied(s, f).text == s.text,
        with_format_applied(s, f).start == s.start,
        with_format_applied(s, f).end == s.end,
        with_format_applied(s, f).formats.len() == s.formats.len(),
{
}

/// A format command given twice leaves the state as it was, where no
/// selected unit carries the format (at a cursor, where it is not toggled):
/// the format is added inside the others, then taken away.
pub proof fn lemma_format_twice(s: StateView, f: InlineFormatType)
    requires
        state_wf(s),
        forall|k: int| sel_start(s) <= k < sel_end(s) ==> !has_format(#[trigger] s.formats[k], f),
        sel_start(s) == sel_end(s) ==> !has_format(s.toggled_formats, f),
    ensures
        with_format_applied(with_format_applied(s, f), f) == s,
{
    let a = sel_start(s);
    let b = sel_end(s);
    let once = with_format_applied(s, f);
    let twice = with_format_applied(once, f);
    if a < b {
        assert(!all_have_format(s.formats, a, b, f)) by {
            assert(!has_format(s.formats[a], f));
        }
        assert forall|k: int| a <= k < b implies has_format(#[trigger] once.formats[k], f) by {
            match f {
                InlineFormatType::Bold => {},
                InlineFormatType::Italic => {},
                InlineFormatType::StrikeThrough => {},
                InlineFormatType::Underline => {},
                InlineFormatType::InlineCode => {},
            }
        }
        assert(all_have_format(once.formats, a, b, f));
        assert forall|k: int| 0 <= k < s.formats.len() implies twice.formats[k] == s.formats[k] by {
            if a <= k < b {
                assert(!has_format(s.formats[k], f));
                match f {
                    InlineFormatType::Bold => {},
                    InlineFormatType::Italic => {},
                    InlineFormatType::StrikeThrough => {},
                    InlineFormatType::Underline => {},
                    InlineFormatType::InlineCode => {},
                }
            }
        }
        assert(twice.formats =~= s.formats);
    } else {
        match f {
            InlineFormatType::Bold => {},
            InlineFormatType::Italic => {},
            InlineFormatType::StrikeThrough => {},
            InlineFormatType::Underline => {},
            InlineFormatType::InlineCode => {},
        }
    }
}

/// The composer: a document with its selection, its undo and redo history,
/// and the toolbar states last reported.
#[derive(Debug)]
pub struct ComposerModel {
    state: ComposerState,
    previous_states: Vec<ComposerState>,
    next_states: Vec<ComposerState>,
    action_states: Vec<ActionState>,
}

/// The values of a sequence of states.
pub open spec fn state_views(v: Seq<ComposerState>) -> Seq<StateView> {
    v.map_values(|s: ComposerState| s@)
}

impl View for ComposerModel {
    type V = ModelView;

    closed spec fn view(&self) -> ModelView {
        ModelView {
            state: self.state@,
            undo: state_views(self.previous_states@),
            redo: state_views(self.next_states@),
        }
    }
}

fn all_actions() -> (r: Vec<ComposerAction>)
    ensures
        r@ == Seq::new(ACTION_COUNT as nat, |i: int| action_at(i)),
{
    let r = vec![
        ComposerAction::Bold,
        ComposerAction::Italic,
        ComposerAction::StrikeThrough,
        ComposerAction::Underline,
        ComposerAction::InlineCode,
        ComposerAction::Link,
        ComposerAction::Undo,
        ComposerAction::Redo,
        ComposerAction::OrderedList,
        ComposerAction::UnorderedList,
        ComposerAction::Indent,
        ComposerAction::Unindent,
        ComposerAction::CodeBlock,
        ComposerAction::Quote,
    ];
    assert(r@ =~= Seq::new(ACTION_COUNT as nat, |i: int| action_at(i)));
    r
}

impl ComposerModel {
    /// The model's states are well formed.
    pub closed spec fn wf(&self) -> bool {
        model_wf(self@)
    }

    /// The toolbar states last reported.
    pub closed spec fn shown(&self) -> Seq<ActionState> {
        self.action_states@
    }

    /// An empty composer, with nothing to undo or redo.
    pub fn new() -> (r: ComposerModel)
        ensures
            r.wf(),
            r@ == (ModelView { state: empty_state(), undo: Seq::empty(), redo: Seq::empty() }),
            r.shown() == action_states_of(r@),
    {
        let mut m = ComposerModel {
            state: ComposerState::new(),
            previous_states: Vec::new(),
            next_states: Vec::new(),
            action_states: Vec::new(),
        };
        assert(m@.undo =~= Seq::<StateView>::empty());
        assert(m@.redo =~= Seq::<StateView>::empty());
        m.compute_menu_state(true);
        m
    }

    /// A composer at the state `state`, with nothing to undo or redo.
    pub fn from_state(state: ComposerState) -> (r: ComposerModel)
        requires
            state_wf(state@),
        ensures
            r.wf(),
            r@ == (ModelView { state: state@, undo: Seq::empty(), redo: Seq::empty() }),
            r.shown() == action_states_of(r@),
    {
        let mut m = ComposerModel {
            state,
            previous_states: Vec::new(),
            next_states: Vec::new(),
            action_states: Vec::new(),
        };
        assert(m@.undo =~= Seq::<StateView>::empty());
        assert(m@.redo =~= Seq::<StateView>::empty());
        m.compute_menu_state(true);
        m
    }

    /// The current state.
    pub fn get_current_state(&self) -> (r: &ComposerState)
        ensures
            r@ == self@.state,
    {
        &self.state
    }

    /// The state of the toolbar action `a`.
    pub fn action_state(&self, a: ComposerAction) -> (r: ActionState)
        requires
            self.wf(),
        ensures
            r == action_state_of(self@, a),
    {
        match a {
            ComposerAction::Bold => self.format_state(InlineFormatType::Bold),
            ComposerAction::Italic => self.format_state(InlineFormatType::Italic),
            ComposerAction::StrikeThrough => self.format_state(InlineFormatType::StrikeThrough),
            ComposerAction::Underline => self.format_state(InlineFormatType::Underline),
            ComposerAction::InlineCode => self.format_state(InlineFormatType::InlineCode),
            ComposerAction::Link => if self.link_active() {
                ActionState::Reversed
            } else {
                ActionState::Enabled
            },
            ComposerAction::Undo => if self.previous_states.len() == 0 {
                ActionState::Disabled
            } else {
                ActionState::Enabled
            },
            ComposerAction::Redo => if self.next_states.len() == 0 {
                ActionState::Disabled
            } else {
                ActionState::Enabled
            },
            _ => ActionState::Disabled,
        }
    }

    fn link_active(&self) -> (r: bool)
        requires
            self.wf(),
        ensures
            r == link_active(self@.state),
    {
        let (a, b) = self.state.safe_selection();
        if a < b {
            let mut i: usize = a;
            while i < b
                invariant
                    self.wf(),
                    a == sel_start(self@.state),
                    b == sel_end(self@.state),
                    a <= i <= b,
                    forall|k: int| a <= k < i ==> (#[trigger] self@.state.formats[k]).link is Some,
                decreases b - i,
            {
                if self.state.formats[i].link.is_none() {
                    return false;
                }
                i = i + 1;
            }
            true
        } else {
            self.state.link_at_cursor().is_some()
        }
    }

    /// What the link button would do: edit the link that the selection lies
    /// in, else link the selection, else make a link with its own text.
    pub fn get_link_action(&self) -> (r: LinkAction)
        requires
            self.wf(),
        ensures
            selected_link(self@.state) matches Some(id) ==> r matches LinkAction::Edit(url) && url@
                == self@.state.links[id as int].url,
            selected_link(self@.state) is None && sel_start(self@.state) < sel_end(self@.state)
                ==> r is Create,
            selected_link(self@.state) is None && sel_start(self@.state) == sel_end(self@.state)
                ==> r is CreateWithText,
    {
        match self.state.selected_link() {
            Some(id) => {
                let url = copy_units(&self.state.links[id].url);
                LinkAction::Edit(url)
            },
            None => {
                let (a, b) = self.state.safe_selection();
                if a < b {
                    LinkAction::Create
                } else {
                    LinkAction::CreateWithText
                }
            },
        }
    }

    /// Links the selection to `url`, or retargets the one link it lies in;
    /// does nothing at a cursor.
    pub fn set_link(&mut self, url: Vec<u16>) -> (r: ComposerUpdate)
        requires
            old(self).wf(),
        ensures
            final(self).wf(),
            link_changes(old(self)@.state) ==> final(self)@ == after_edit(
                old(self)@,
                with_link_set(old(self)@.state, url@),
            ) && content_reported(r, final(self)@, old(self).shown(), false),
            !link_changes(old(self)@.state) ==> final(self)@ == old(self)@ && r.text_update is Keep
                && r.menu_state is Keep && r.menu_action is Keep && final(self).shown() == old(self).shown(),
    {
        let (a, b) = self.state.safe_selection();
        if a == b {
            return ComposerUpdate::keep();
        }
        self.push_state_to_history();
        self.state.set_link(url);
        self.create_update_replace_all(false)
    }

    /// Replaces the selection with `text`, linked to `url`.
    pub fn set_link_with_text(&mut self, url: Vec<u16>, text: Vec<u16>) -> (r: ComposerUpdate)
        requires
            old(self).wf(),
            old(self)@.state.text.len() + text@.len() <= usize::MAX,
        ensures
            final(self).wf(),
            final(self)@ == after_edit(
                old(self)@,
                with_linked_text(
                    old(self)@.state,
                    LinkTargetView { url: url@, attributes: Seq::empty() },
                    text@,
                ),
            ),
            content_reported(r, final(self)@, old(self).shown(), false),
    {
        let (a, b) = self.state.safe_selection();
        self.push_state_to_history();
        let n = text.len();
        self.state.replace_range(&text, a, b);
        if n > 0 {
            self.state.link_units(a, a + n, LinkTarget { url, attributes: Vec::new() });
            assert(attr_views(Seq::<(Vec<u16>, Vec<u16>)>::empty()) =~= Seq::<
                (Seq<u16>, Seq<u16>),
            >::empty());
        }
        self.create_update_replace_all(false)
    }

    /// Replaces the text of a suggestion with `text`, linked to `url`: a
    /// mention, whose link tag carries `attributes` besides its target.
    pub fn set_link_suggestion(
        &mut self,
        url: Vec<u16>,
        text: Vec<u16>,
        suggestion: &SuggestionPattern,
        attributes: Vec<(Vec<u16>, Vec<u16>)>,
    ) -> (r: ComposerUpdate)
        requires
            old(self).wf(),
            old(self)@.state.text.len() + text@.len() <= usize::MAX,
        ensures
            final(self).wf(),
            final(self)@ == after_edit(
                old(self)@,
                with_linked_text(
                    StateView {
                        start: clamp(suggestion.start as int, old(self)@.state.text.len() as int),
                        end: clamp(suggestion.end as int, old(self)@.state.text.len() as int),
                        ..old(self)@.state
                    },
                    LinkTargetView { url: url@, attributes: attr_views(attributes@) },
                    text@,
                ),
            ),
            content_reported(r, final(self)@, old(self).shown(), false),
    {
        let len = self.state.text.len();
        self.push_state_to_history();
        self.state.start = if suggestion.start <= len {
            suggestion.start
        } else {
            len
        };
        self.state.end = if suggestion.end <= len {
            suggestion.end
        } else {
            len
        };
        let (a, b) = self.state.safe_selection();
        let n = text.len();
        self.state.replace_range(&text, a, b);
        if n > 0 {
            self.state.link_units(a, a + n, LinkTarget { url, attributes });
        }
        self.create_update_replace_all(false)
    }

    /// Takes away, whole, every link that the selection meets.
    pub fn remove_links(&mut self) -> (r: ComposerUpdate)
        requires
            old(self).wf(),
        ensures
            final(self).wf(),
            final(self)@ == after_edit(old(self)@, with_links_removed(old(self)@.state)),
            content_reported(r, final(self)@, old(self).shown(), false),
    {
        self.push_state_to_history();
        self.state.remove_links();
        self.create_update_replace_all(false)
    }

    fn format_state(&self, f: InlineFormatType) -> (r: ActionState)
        requires
            self.wf(),
        ensures
            r == format_state(self@.state, f),
    {
        let (s, e) = self.state.safe_selection();
        let active = if s < e {
            self.state.all_have_format(s, e, f)
        } else {
            let n = self.state.text.len();
            let fs = if s > 0 {
                self.state.formats[s - 1]
            } else if n > 0 {
                self.state.formats[0]
            } else {
                crate::format_type::Formats::plain()
            };
            proof {
                lemma_flipped_has(fs, self.state.toggled_formats, f);
            }
            fs.has(f) != self.state.toggled_formats.has(f)
        };
        if active {
            ActionState::Reversed
        } else {
            ActionState::Enabled
        }
    }

    fn compute_action_states(&self) -> (r: Vec<ActionState>)
        requires
            self.wf(),
        ensures
            r@ == action_states_of(self@),
    {
        let actions = all_actions();
        let mut r: Vec<ActionState> = Vec::new();
        let mut i: usize = 0;
        while i < ACTION_COUNT
            invariant
                self.wf(),
                actions@ == Seq::new(ACTION_COUNT as nat, |i: int| action_at(i)),
                i <= ACTION_COUNT,
                r@ == action_states_of(self@).subrange(0, i as int),
            decreases ACTION_COUNT - i,
        {
            let st = self.action_state(actions[i]);
            r.push(st);
            i = i + 1;
            assert(r@ =~= action_states_of(self@).subrange(0, i as int));
        }
        assert(r@ =~= action_states_of(self@));
        r
    }

    /// Works out the toolbar states and the report of them: nothing where
    /// they are unchanged since the last report, unless `always`.
    fn compute_menu_state(&mut self, always: bool) -> (r: MenuState)
        requires
            old(self).wf(),
        ensures
            final(self)@ == old(self)@,
            final(self).wf(),
            final(self).shown() == action_states_of(final(self)@),
            menu_reported(r, old(self).shown(), final(self)@, always),
    {
        let states = self.compute_action_states();
        let mut same = states.len() == self.action_states.len();
        let mut i: usize = 0;
        while same && i < states.len()
            invariant
                i <= states@.len(),
                same ==> states@.len() == self.action_states@.len(),
                same ==> forall|k: int| 0 <= k < i ==> states@[k] == self.action_states@[k],
                !same ==> states@ != self.action_states@,
            decreases states@.len() - i,
        {
            if states[i] != self.action_states[i] {
                same = false;
            }
            i = i + 1;
        }
        if same {
            assert(states@ =~= self.action_states@);
        }
        if !always && same {
            return MenuState::Keep;
        }
        let actions = all_actions();
        let mut pairs: Vec<(ComposerAction, ActionState)> = Vec::new();
        let mut k: usize = 0;
        while k < ACTION_COUNT
            invariant
                states@ == action_states_of(self@),
                actions@ == Seq::new(ACTION_COUNT as nat, |i: int| action_at(i)),
                k <= ACTION_COUNT,
                pairs@ == menu_pairs(states@).subrange(0, k as int),
            decreases ACTION_COUNT - k,
        {
            pairs.push((actions[k], states[k]));
            k = k + 1;
            assert(pairs@ =~= menu_pairs(states@).subrange(0, k as int));
        }
        assert(pairs@ =~= menu_pairs(states@));
        self.action_states = states;
        MenuState::Update(MenuStateUpdate { action_states: pairs })
    }

    /// The suggestion at the cursor, if any.
    fn compute_menu_action(&self) -> (r: MenuAction)
        requires
            self.wf(),
        ensures
            action_reported(r, self@.state),
    {
        let c = self.state.start;
        if c != self.state.end {
            return MenuAction::NoAction;
        }
        let t = &self.state.text;
        let mut w: usize = c;
        while w > 0 && !matches!(word_class_of(t[w - 1]), WordClass::Whitespace | WordClass::Newline)
            invariant
                w <= c <= t@.len(),
                token_start(t@, w as int) == token_start(t@, c as int),
            decreases w,
        {
            w = w - 1;
        }
        if w == c {
            return MenuAction::NoAction;
        }
        let u = t[w];
        let key = if u == 0x40 {
            PatternKey::At
        } else if u == 0x23 {
            PatternKey::Hash
        } else if u == 0x2F {
            PatternKey::Slash
        } else {
            return MenuAction::NoAction;
        };
        let mut text: Vec<u16> = Vec::new();
        let mut k: usize = w + 1;
        while k < c
            invariant
                w < c <= t@.len(),
                w + 1 <= k <= c,
                text@ == t@.subrange(w + 1, k as int),
            decreases c - k,
        {
            text.push(t[k]);
            k = k + 1;
            assert(text@ =~= t@.subrange(w + 1, k as int));
        }
        MenuAction::Suggestion(SuggestionPattern { key, text, start: w, end: c })
    }

    /// Replaces the text of a suggestion with `new_text`.
    pub fn replace_text_suggestion(&mut self, new_text: Vec<u16>, suggestion: &SuggestionPattern) -> (r:
        ComposerUpdate)
        requires
            old(self).wf(),
            old(self)@.state.text.len() + new_text@.len() <= usize::MAX,
        ensures
            final(self).wf(),
            final(self)@ == after_edit(
                old(self)@,
                with_range_replaced(
                    old(self)@.state,
                    suggestion.start as int,
                    suggestion.end as int,
                    new_text@,
                ),
            ),
            content_reported(r, final(self)@, old(self).shown(), false),
    {
        self.replace_text_in(new_text, suggestion.start, suggestion.end)
    }

    fn create_update_replace_all(&mut self, always: bool) -> (r: ComposerUpdate)
        requires
            old(self).wf(),
        ensures
            final(self)@ == old(self)@,
            final(self).wf(),
            final(self).shown() == action_states_of(final(self)@),
            content_reported(r, final(self)@, old(self).shown(), always),
    {
        let html = document_to_html(&self.state.text, &self.state.formats, &self.state.links);
        let menu = self.compute_menu_state(always);
        let action = self.compute_menu_action();
        ComposerUpdate::replace_all(html, self.state.start, self.state.end, menu, action)
    }

    /// Keeps the current state for undo and forgets what could be redone.
    fn push_state_to_history(&mut self)
        requires
            old(self).wf(),
        ensures
            final(self)@ == after_edit(old(self)@, old(self)@.state),
            final(self).wf(),
            final(self).shown() == old(self).shown(),
    {
        let snapshot = self.state.snapshot();
        self.previous_states.push(snapshot);
        self.next_states = Vec::new();
        assert(state_views(self.previous_states@) =~= state_views(old(self).previous_states@).push(
            old(self).state@,
        ));
        assert(state_views(self.next_states@) =~= Seq::<StateView>::empty());
    }

    /// Replaces the selection with `new_text`.
    pub fn replace_text(&mut self, new_text: Vec<u16>) -> (r: ComposerUpdate)
        requires
            old(self).wf(),
            old(self)@.state.text.len() + new_text@.len() <= usize::MAX,
        ensures
            final(self).wf(),
            final(self)@ == after_edit(
                old(self)@,
                with_text_replaced(
                    old(self)@.state,
                    sel_start(old(self)@.state),
                    sel_end(old(self)@.state),
                    new_text@,
                ),
            ),
            content_reported(r, final(self)@, old(self).shown(), false),
    {
        let (s, e) = self.state.safe_selection();
        self.push_state_to_history();
        self.do_replace_text_in(&new_text, s, e)
    }

    /// Replaces the units between `start` and `end` (in either order, cut
    /// at the end of the text) with `new_text`.
    pub fn replace_text_in(&mut self, new_text: Vec<u16>, start: usize, end: usize) -> (r:
        ComposerUpdate)
        requires
            old(self).wf(),
            old(self)@.state.text.len() + new_text@.len() <= usize::MAX,
        ensures
            final(self).wf(),
            final(self)@ == after_edit(
                old(self)@,
                with_range_replaced(old(self)@.state, start as int, end as int, new_text@),
            ),
            content_reported(r, final(self)@, old(self).shown(), false),
    {
        let n = self.state.text.len();
        let lo = if start <= end {
            start
        } else {
            end
        };
        let hi = if start <= end {
            end
        } else {
            start
        };
        let lo = if lo <= n {
            lo
        } else {
            n
        };
        let hi = if hi <= n {
            hi
        } else {
            n
        };
        self.push_state_to_history();
        self.do_replace_text_in(&new_text, lo, hi)
    }

    /// Replaces the units `start..end` without touching the history.
    fn do_replace_text_in(&mut self, new_text: &Vec<u16>, start: usize, end: usize) -> (r:
        ComposerUpdate)
        requires
            old(self).wf(),
            start <= end <= old(self)@.state.text.len(),
            old(self)@.state.text.len() + new_text@.len() <= usize::MAX,
        ensures
            final(self).wf(),
            final(self)@ == (ModelView {
                state: with_text_replaced(old(self)@.state, start as int, end as int, new_text@),
                ..old(self)@
            }),
            content_reported(r, final(self)@, old(self).shown(), false),
    {
        self.state.replace_range(new_text, start, end);
        self.create_update_replace_all(false)
    }

    /// Ends the paragraph at the cursor, in place of the selection: the
    /// text after it starts a new paragraph, and the cursor moves to that
    /// start.
    pub fn enter(&mut self) -> (r: ComposerUpdate)
        requires
            old(self).wf(),
            old(self)@.state.text.len() + 1 <= usize::MAX,
        ensures
            final(self).wf(),
            final(self)@ == after_edit(
                old(self)@,
                with_text_replaced(
                    old(self)@.state,
                    sel_start(old(self)@.state),
                    sel_end(old(self)@.state),
                    seq![NEWLINE],
                ),
            ),
            content_reported(r, final(self)@, old(self).shown(), false),
    {
        let brk = vec![NEWLINE];
        assert(brk@ =~= seq![NEWLINE]);
        self.replace_text(brk)
    }

    /// Removes the units between `start` and `end` (in either order, cut at
    /// the end of the text).
    pub fn delete_in(&mut self, start: usize, end: usize) -> (r: ComposerUpdate)
        requires
            old(self).wf(),
        ensures
            final(self).wf(),
            final(self)@ == after_edit(
                old(self)@,
                with_range_replaced(old(self)@.state, start as int, end as int, Seq::empty()),
            ),
            content_reported(r, final(self)@, old(self).shown(), false),
    {
        proof {
            assert(self.state.text@.len() == self.state.text.len());
        }
        let empty: Vec<u16> = Vec::new();
        self.replace_text_in(empty, start, end)
    }

    /// Removes the range `start..end` as an edit, or changes nothing where
    /// it is empty.
    fn remove_range(&mut self, start: usize, end: usize) -> (r: ComposerUpdate)
        requires
            old(self).wf(),
            start <= end <= old(self)@.state.text.len(),
        ensures
            final(self).wf(),
            final(self)@ == after_removing(old(self)@, (start as int, end as int)),
            start < end ==> content_reported(r, final(self)@, old(self).shown(), false),
            start == end ==> r.text_update is Keep && r.menu_state is Keep && r.menu_action is Keep
                && final(self).shown()
                == old(self).shown(),
    {
        if start == end {
            return ComposerUpdate::keep();
        }
        proof {
            assert(self.state.text@.len() == self.state.text.len());
        }
        self.push_state_to_history();
        let empty: Vec<u16> = Vec::new();
        self.do_replace_text_in(&empty, start, end)
    }

    /// Removes the selection, or else the character before the cursor; does
    /// nothing at the start of the text.
    pub fn backspace(&mut self) -> (r: ComposerUpdate)
        requires
            old(self).wf(),
        ensures
            final(self).wf(),
            final(self)@ == after_removing(old(self)@, backspace_range(old(self)@.state)),
            backspace_range(old(self)@.state).0 < backspace_range(old(self)@.state).1
                ==> content_reported(r, final(self)@, old(self).shown(), false),
            backspace_range(old(self)@.state).0 == backspace_range(old(self)@.state).1
                ==> r.text_update is Keep && r.menu_state is Keep && r.menu_action is Keep
                && final(self).shown() == old(self).shown(),
    {
        let (s, e) = self.state.safe_selection();
        if s < e {
            self.remove_range(s, e)
        } else if s == 0 {
            ComposerUpdate::keep()
        } else {
            let len = find_previous_char_len(s, &self.state.text);
            self.remove_range(s - len, s)
        }
    }

    /// Removes the selection, or else the character after the cursor; does
    /// nothing at the end of the text.
    pub fn delete(&mut self) -> (r: ComposerUpdate)
        requires
            old(self).wf(),
        ensures
            final(self).wf(),
            final(self)@ == after_removing(old(self)@, delete_range(old(self)@.state)),
            delete_range(old(self)@.state).0 < delete_range(old(self)@.state).1
                ==> content_reported(r, final(self)@, old(self).shown(), false),
            delete_range(old(self)@.state).0 == delete_range(old(self)@.state).1
                ==> r.text_update is Keep && r.menu_state is Keep && r.menu_action is Keep
                && final(self).shown() == old(self).shown(),
    {
        let (s, e) = self.state.safe_selection();
        if s < e {
            self.remove_range(s, e)
        } else if s == self.state.text.len() {
            ComposerUpdate::keep()
        } else {
            let len = find_next_char_len(s, &self.state.text);
            self.remove_range(s, s + len)
        }
    }

    fn delete_word_towards(&mut self, dir: Direction) -> (r: ComposerUpdate)
        requires
            old(self).wf(),
        ensures
            final(self).wf(),
            final(self)@ == after_removing(old(self)@, word_delete_range(old(self)@.state, dir)),
            word_delete_range(old(self)@.state, dir).0 < word_delete_range(old(self)@.state, dir).1
                ==> content_reported(r, final(self)@, old(self).shown(), false),
            word_delete_range(old(self)@.state, dir).0 == word_delete_range(
                old(self)@.state,
                dir,
            ).1 ==> r.text_update is Keep && r.menu_state is Keep && r.menu_action is Keep
                && final(self).shown() == old(self).shown(),
    {
        let (s, e) = self.state.safe_selection();
        if s < e {
            self.remove_range(s, e)
        } else {
            let (a, b) = word_deletion_range(&self.state.text, s, &dir);
            self.remove_range(a, b)
        }
    }

    /// Removes the selection, or else the word before the cursor.
    pub fn backspace_word(&mut self) -> (r: ComposerUpdate)
        requires
            old(self).wf(),
        ensures
            final(self).wf(),
            final(self)@ == after_removing(
                old(self)@,
                word_delete_range(old(self)@.state, Direction::Backwards),
            ),
            word_delete_range(old(self)@.state, Direction::Backwards).0 < word_delete_range(
                old(self)@.state,
                Direction::Backwards,
            ).1 ==> content_reported(r, final(self)@, old(self).shown(), false),
            word_delete_range(old(self)@.state, Direction::Backwards).0 == word_delete_range(
                old(self)@.state,
                Direction::Backwards,
            ).1 ==> r.text_update is Keep && r.menu_state is Keep && r.menu_action is Keep
                && final(self).shown() == old(self).shown(),
    {
        self.delete_word_towards(Direction::Backwards)
    }

    /// Removes the selection, or else the word after the cursor.
    pub fn delete_word(&mut self) -> (r: ComposerUpdate)
        requires
            old(self).wf(),
        ensures
            final(self).wf(),
            final(self)@ == after_removing(
                old(self)@,
                word_delete_range(old(self)@.state, Direction::Forwards),
            ),
            word_delete_range(old(self)@.state, Direction::Forwards).0 < word_delete_range(
                old(self)@.state,
                Direction::Forwards,
            ).1 ==> content_reported(r, final(self)@, old(self).shown(), false),
            word_delete_range(old(self)@.state, Direction::Forwards).0 == word_delete_range(
                old(self)@.state,
                Direction::Forwards,
            ).1 ==> r.text_update is Keep && r.menu_state is Keep && r.menu_action is Keep
                && final(self).shown() == old(self).shown(),
    {
        self.delete_word_towards(Direction::Forwards)
    }

    /// The format command `f`: over a selection, sets or clears the format;
    /// at a cursor, toggles it for the next insertion.
    pub fn format(&mut self, f: InlineFormatType) -> (r: ComposerUpdate)
        requires
            old(self).wf(),
        ensures
            final(self).wf(),
            final(self)@ == after_edit(old(self)@, with_format_applied(old(self)@.state, f)),
            content_reported(r, final(self)@, old(self).shown(), false),
    {
        self.push_state_to_history();
        self.state.apply_format(f);
        self.create_update_replace_all(false)
    }

    pub fn bold(&mut self) -> (r: ComposerUpdate)
        requires
            old(self).wf(),
        ensures
            final(self).wf(),
            final(self)@ == after_edit(
                old(self)@,
                with_format_applied(old(self)@.state, InlineFormatType::Bold),
            ),
            content_reported(r, final(self)@, old(self).shown(), false),
    {
        self.format(InlineFormatType::Bold)
    }

    pub fn italic(&mut self) -> (r: ComposerUpdate)
        requires
            old(self).wf(),
        ensures
            final(self).wf(),
            final(self)@ == after_edit(
                old(self)@,
                with_format_applied(old(self)@.state, InlineFormatType::Italic),
            ),
            content_reported(r, final(self)@, old(self).shown(), false),
    {
        self.format(InlineFormatType::Italic)
    }

    pub fn strike_through(&mut self) -> (r: ComposerUpdate)
        requires
            old(self).wf(),
        ensures
            final(self).wf(),
            final(self)@ == after_edit(
                old(self)@,
                with_format_applied(old(self)@.state, InlineFormatType::StrikeThrough),
            ),
            content_reported(r, final(self)@, old(self).shown(), false),
    {
        self.format(InlineFormatType::StrikeThrough)
    }

    pub fn underline(&mut self) -> (r: ComposerUpdate)
        requires
            old(self).wf(),
        ensures
            final(self).wf(),
            final(self)@ == after_edit(
                old(self)@,
                with_format_applied(old(self)@.state, InlineFormatType::Underline),
            ),
            content_reported(r, final(self)@, old(self).shown(), false),
    {
        self.format(InlineFormatType::Underline)
    }

    pub fn inline_code(&mut self) -> (r: ComposerUpdate)
        requires
            old(self).wf(),
        ensures
            final(self).wf(),
            final(self)@ == after_edit(
                old(self)@,
                with_format_applied(old(self)@.state, InlineFormatType::InlineCode),
            ),
            content_reported(r, final(self)@, old(self).shown(), false),
    {
        self.format(InlineFormatType::InlineCode)
    }

    /// Brings back the state before the last edit; does nothing when there
    /// is none.
    pub fn undo(&mut self) -> (r: ComposerUpdate)
        requires
            old(self).wf(),
        ensures
            final(self).wf(),
            final(self)@ == after_undo(old(self)@),
            old(self)@.undo.len() > 0 ==> content_reported(r, final(self)@, old(self).shown(), false),
            old(self)@.undo.len() == 0 ==> r.text_update is Keep && r.menu_state is Keep && r.menu_action is Keep
                && final(self).shown() == old(self).shown(),
    {
        match self.previous_states.pop() {
            None => ComposerUpdate::keep(),
            Some(prev) => {
                proof {
                    assert(state_views(self.previous_states@) =~= old(self)@.undo.drop_last());
                    assert(prev@ == old(self)@.undo.last());
                }
                let cur = self.state.snapshot();
                self.state = prev;
                self.next_states.push(cur);
                assert(state_views(self.next_states@) =~= old(self)@.redo.push(old(self)@.state));
                self.create_update_replace_all(false)
            },
        }
    }

    /// Brings back the state that the last undo left; does nothing when
    /// there is none.
    pub fn redo(&mut self) -> (r: ComposerUpdate)
        requires
            old(self).wf(),
        ensures
            final(self).wf(),
            final(self)@ == after_redo(old(self)@),
            old(self)@.redo.len() > 0 ==> content_reported(r, final(self)@, old(self).shown(), false),
            old(self)@.redo.len() == 0 ==> r.text_update is Keep && r.menu_state is Keep && r.menu_action is Keep
                && final(self).shown() == old(self).shown(),
    {
        match self.next_states.pop() {
            None => ComposerUpdate::keep(),
            Some(next) => {
                proof {
                    assert(state_views(self.next_states@) =~= old(self)@.redo.drop_last());
                    assert(next@ == old(self)@.redo.last());
                }
                let cur = self.state.snapshot();
                self.state = next;
                self.previous_states.push(cur);
                assert(state_views(self.previous_states@) =~= old(self)@.undo.push(
                    old(self)@.state,
                ));
                self.create_update_replace_all(false)
            },
        }
    }

    /// Moves the selection to `start..end`, each end cut at the end of the
    /// text; toggled formats are dropped.
    pub fn select(&mut self, start: usize, end: usize) -> (r: ComposerUpdate)
        requires
            old(self).wf(),
        ensures
            final(self).wf(),
            final(self)@ == (ModelView {
                state: StateView {
                    start: clamp(start as int, old(self)@.state.text.len() as int),
                    end: clamp(end as int, old(self)@.state.text.len() as int),
                    toggled_formats: crate::format_type::plain_formats(),
                    ..old(self)@.state
                },
                ..old(self)@
            }),
            r.text_update matches TextUpdate::Select(s) && s.start == final(self)@.state.start
                && s.end == final(self)@.state.end,
            menu_reported(r.menu_state, old(self).shown(), final(self)@, false),
            action_reported(r.menu_action, final(self)@.state),
    {
        let n = self.state.text.len();
        self.state.start = if start <= n {
            start
        } else {
            n
        };
        self.state.end = if end <= n {
            end
        } else {
            n
        };
        self.state.toggled_formats = crate::format_type::Formats::plain();
        let menu = self.compute_menu_state(false);
        let action = self.compute_menu_action();
        ComposerUpdate::select(self.state.start, self.state.end, menu, action)
    }

    /// Empties the document and forgets the history.
    pub fn clear(&mut self) -> (r: ComposerUpdate)
        requires
            old(self).wf(),
        ensures
            final(self).wf(),
            final(self)@ == (ModelView {
                state: empty_state(),
                undo: Seq::empty(),
                redo: Seq::empty(),
            }),
            content_reported(r, final(self)@, old(self).shown(), true),
    {
        self.state = ComposerState::new();
        self.previous_states = Vec::new();
        self.next_states = Vec::new();
        assert(self@.undo =~= Seq::<StateView>::empty());
        assert(self@.redo =~= Seq::<StateView>::empty());
        self.create_update_replace_all(true)
    }

    /// The selection's two ends, as they were set.
    pub fn get_selection(&self) -> (r: (usize, usize))
        ensures
            r.0 == self@.state.start,
            r.1 == self@.state.end,
    {
        (self.state.start, self.state.end)
    }

    /// The document as HTML.
    pub fn get_content_as_html(&self) -> (r: Vec<u16>)
        requires
            self.wf(),
        ensures
            r@ == document_html(self@.state.text, self@.state.formats, self@.state.links),
    {
        document_to_html(&self.state.text, &self.state.formats, &self.state.links)
    }

    /// The document's text without formats.
    pub fn get_content_as_plain_text(&self) -> (r: Vec<u16>)
        ensures
            r@ == self@.state.text,
    {
        self.state.snapshot().text
    }

    /// The state of every toolbar action.
    pub fn action_states(&self) -> (r: Vec<(ComposerAction, ActionState)>)
        requires
            self.wf(),
        ensures
            r@ == menu_pairs(action_states_of(self@)),
    {
        let states = self.compute_action_states();
        let actions = all_actions();
        let mut pairs: Vec<(ComposerAction, ActionState)> = Vec::new();
        let mut k: usize = 0;
        while k < ACTION_COUNT
            invariant
                states@ == action_states_of(self@),
                actions@ == Seq::new(ACTION_COUNT as nat, |i: int| action_at(i)),
                k <= ACTION_COUNT,
                pairs@ == menu_pairs(states@).subrange(0, k as int),
            decreases ACTION_COUNT - k,
        {
            pairs.push((actions[k], states[k]));
            k = k + 1;
            assert(pairs@ =~= menu_pairs(states@).subrange(0, k as int));
        }
        assert(pairs@ =~= menu_pairs(states@));
        pairs
    }
}

} // verus!
