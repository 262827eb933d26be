use vstd::prelude::*;
use crate::format_type::{ActionState, ComposerAction};

verus! {

/// The whole content to show, as HTML, and the selection in it.
#[derive(Debug)]
pub struct ReplaceAll {
    pub replacement_html: Vec<u16>,
    pub start: usize,
    pub end: usize,
}

/// A selection to show, the content being unchanged.
#[derive(Debug)]
pub struct Selection {
    pub start: usize,
    pub end: usize,
}

/// What the host has to change in the text it shows.
#[derive(Debug)]
pub enum TextUpdate {
    Keep,
    ReplaceAll(ReplaceAll),
    Select(Selection),
}

/// The state of every toolbar action.
#[derive(Debug)]
pub struct MenuStateUpdate {
    pub action_states: Vec<(ComposerAction, ActionState)>,
}

/// What the host has to change in its toolbar.
#[derive(Debug)]
pub enum MenuState {
    Keep,
    Update(MenuStateUpdate),
}

/// The character that opens a suggestion: `@`, `#` or `/`.
#[derive(PartialEq, Eq, Structural, Debug, Clone, Copy)]
pub enum PatternKey {
    At,
    Hash,
    Slash,
}

/// A token at the cursor that the host may offer completions for: its key,
/// the text after the key, and the code units it spans.
#[derive(Debug)]
pub struct SuggestionPattern {
    pub key: PatternKey,
    pub text: Vec<u16>,
    pub start: usize,
    pub end: usize,
}

/// What the host has to change in its suggestions.
#[derive(Debug)]
pub enum MenuAction {
    Keep,
    NoAction,
    Suggestion(SuggestionPattern),
}

/// What the link button would do: make a link with its own text, link the
/// selection, edit the link at the selection (whose target is given), or
/// nothing.
#[derive(Debug)]
pub enum LinkAction {
    CreateWithText,
    Create,
    Edit(Vec<u16>),
    Disabled,
}

/// What a command changed, for the host to show.
#[derive(Debug)]
pub struct ComposerUpdate {
    pub text_update: TextUpdate,
    pub menu_state: MenuState,
    pub menu_action: MenuAction,
}

impl ComposerUpdate {
    /// Nothing to change.
    pub fn keep() -> (r: ComposerUpdate)
        ensures
            r.text_update is Keep,
            r.menu_state is Keep,
            r.menu_action is Keep,
    {
        ComposerUpdate {
            text_update: TextUpdate::Keep,
            menu_state: MenuState::Keep,
            menu_action: MenuAction::Keep,
        }
    }

    pub fn replace_all(
        replacement_html: Vec<u16>,
        start: usize,
        end: usize,
        menu_state: MenuState,
        menu_action: MenuAction,
    ) -> (r: ComposerUpdate)
        ensures
            r.text_update matches TextUpdate::ReplaceAll(ra) && ra.replacement_html@
                == replacement_html@ && ra.start == start && ra.end == end,
            r.menu_state == menu_state,
            r.menu_action == menu_action,
    {
        ComposerUpdate {
            text_update: TextUpdate::ReplaceAll(ReplaceAll { replacement_html, start, end }),
            menu_state,
            menu_action,
        }
    }

    pub fn select(start: usize, end: usize, menu_state: MenuState, menu_action: MenuAction) -> (r:
        ComposerUpdate)
        ensures
            r.text_update matches TextUpdate::Select(s) && s.start == start && s.end == end,
            r.menu_state == menu_state,
            r.menu_action == menu_action,
    {
        ComposerUpdate {
            text_update: TextUpdate::Select(Selection { start, end }),
            menu_state,
            menu_action,
        }
    }
}

} // verus!
