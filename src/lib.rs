//! The engine of a rich-text message composer: text in UTF-16 code units,
//! node handles and document trees, word classification, HTML output and
//! the editing model with its undo history and toolbar states.

mod char_type;
mod composer_model;
mod composer_state;
mod composer_update;
mod delete_text;
mod document;
mod dom_handle;
mod dom_node;
mod format_type;
mod html_formatter;
mod mention_detector;
mod range;
mod text_node;
mod unicode;

pub use char_type::{get_char_type, CharType};
pub use composer_model::{
    lemma_edit_then_undo, lemma_format_keeps_text_and_selection, lemma_format_twice,
    lemma_redo_then_undo, lemma_undo_then_redo, ComposerModel,
};
pub use composer_state::ComposerState;
pub use composer_update::{
    ComposerUpdate, LinkAction, MenuAction, MenuState, MenuStateUpdate, PatternKey, ReplaceAll, Selection,
    SuggestionPattern, TextUpdate,
};
pub use delete_text::{
    get_end_index_of_run, lemma_word_backwards_stops_at_line_break,
    lemma_word_forwards_stops_at_line_break, word_deletion_range, Direction, WordClass,
};
pub use document::{document_to_html, LinkTarget, Tag};
pub use dom_handle::{adjust_handles_for_delete, starts_with, DomHandle};
pub use dom_node::{
    lemma_handle_names_its_node, lemma_same_content_html, lemma_same_content_raw_text,
    lemma_text_len_is_raw_len, ContainerNode, ContainerNodeKind, DomNode, LineBreakNode,
    ListType,
};
pub use format_type::{ActionState, ComposerAction, Formats, InlineFormatType};
pub use html_formatter::{escape_html_text, text_to_html, HtmlChar, HtmlFormatter};
pub use mention_detector::MentionDetector;
pub use range::{find_range, DomLocation, MultipleNodesRange};
pub use text_node::TextNode;
pub use unicode::{utf16, utf16_to_string};
