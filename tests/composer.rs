use wysiwyg::{
    document_to_html, get_end_index_of_run, utf16, word_deletion_range, ActionState,
    ComposerAction, ComposerModel, ComposerState, ComposerUpdate, Direction, Formats, MenuAction, MenuState,
    LinkTarget, PatternKey, TextUpdate,
};

fn html(model: &ComposerModel) -> String {
    String::from_utf16(&model.get_content_as_html()).unwrap()
}

fn text(model: &ComposerModel) -> String {
    String::from_utf16(&model.get_content_as_plain_text()).unwrap()
}

fn state_of(model: &ComposerModel, action: ComposerAction) -> ActionState {
    let states = model.action_states();
    states.iter().find(|(a, _)| *a == action).unwrap().1
}

fn model_with(t: &str) -> ComposerModel {
    let mut model = ComposerModel::new();
    model.replace_text(utf16(t));
    model
}

#[test]
fn bolding_a_selection_wraps_it() {
    let mut model = model_with("foo");
    model.select(1, 2);
    let update = model.bold();
    assert_eq!(html(&model), "f<strong>o</strong>o");
    assert_eq!(model.get_selection(), (1, 2));
    assert_eq!(state_of(&model, ComposerAction::Bold), ActionState::Reversed);
    assert_eq!(state_of(&model, ComposerAction::Redo), ActionState::Disabled);
    match update.text_update {
        TextUpdate::ReplaceAll(r) => {
            assert_eq!(String::from_utf16(&r.replacement_html).unwrap(), "f<strong>o</strong>o");
            assert_eq!(r.start, 1);
            assert_eq!(r.end, 2);
        }
        _ => panic!("Expected to receive a ReplaceAll response"),
    }
}

#[test]
fn bolding_a_partly_bold_selection_extends_the_format() {
    let mut model = model_with("hello world");
    model.select(6, 11);
    model.bold();
    model.select(0, 9);
    model.bold();
    assert_eq!(html(&model), "<strong>hello world</strong>");
    assert_eq!(model.get_selection(), (0, 9));
}

#[test]
fn bolding_a_bold_selection_removes_the_format() {
    let mut model = model_with("abc");
    model.select(0, 3);
    model.bold();
    model.select(1, 2);
    model.bold();
    assert_eq!(html(&model), "<strong>a</strong>b<strong>c</strong>");
}

#[test]
fn formatting_twice_restores_the_html() {
    let mut model = model_with("one two");
    model.select(2, 5);
    let before = html(&model);
    model.italic();
    assert_eq!(html(&model), "on<em>e t</em>wo");
    model.italic();
    assert_eq!(html(&model), before);
    assert_eq!(model.get_selection(), (2, 5));
}

#[test]
fn typing_over_a_selection_takes_the_first_unit_formats() {
    let mut model = model_with("hello world");
    model.select(6, 11);
    model.italic();
    model.select(0, 9);
    model.replace_text(utf16("Z"));
    assert_eq!(html(&model), "Z<em>ld</em>");
    assert_eq!(model.get_selection(), (1, 1));
}

#[test]
fn typing_inside_formatted_text_keeps_the_format() {
    let mut model = model_with("AAABBBCCC");
    model.select(3, 6);
    model.bold();
    model.select(5, 5);
    model.replace_text(utf16("Z"));
    assert_eq!(html(&model), "AAA<strong>BBZB</strong>CCC");
}

#[test]
fn toggled_format_applies_to_the_next_insertion() {
    let mut model = model_with("a");
    model.bold();
    assert_eq!(state_of(&model, ComposerAction::Bold), ActionState::Reversed);
    model.replace_text(utf16("b"));
    assert_eq!(html(&model), "a<strong>b</strong>");
    assert_eq!(state_of(&model, ComposerAction::Bold), ActionState::Reversed);
}

#[test]
fn formats_nest_in_the_order_they_were_applied() {
    let mut model = model_with("x");
    model.select(0, 1);
    model.underline();
    model.strike_through();
    model.inline_code();
    model.italic();
    model.bold();
    assert_eq!(
        html(&model),
        "<u><del><code><em><strong>x</strong></em></code></del></u>"
    );
}

#[test]
fn html_escapes_text_and_keeps_spaces() {
    let model = model_with("a<b  c ");
    assert_eq!(html(&model), "a&lt;b&nbsp;&nbsp;c&nbsp;");
}

#[test]
fn document_html_of_plain_runs() {
    let text = utf16("ab");
    let mut bold = Formats::plain();
    bold.bold = Some(0);
    let formats = vec![Formats::plain(), bold];
    assert_eq!(
        String::from_utf16(&document_to_html(&text, &formats, &Vec::new())).unwrap(),
        "a<strong>b</strong>"
    );
    let mut linked = Formats::plain();
    linked.link = Some(0);
    let formats = vec![linked, bold];
    assert_eq!(
        String::from_utf16(&document_to_html(
            &text,
            &formats,
            &vec![LinkTarget { url: utf16("x"), attributes: vec![(utf16("data-k"), utf16("v"))] }],
        )).unwrap(),
        "<a href=\"x\" data-k=\"v\">a</a><strong>b</strong>"
    );
}

#[test]
fn undo_and_redo_move_between_states() {
    let mut model = model_with("a");
    model.replace_text(utf16("b"));
    assert_eq!(text(&model), "ab");
    model.undo();
    assert_eq!(text(&model), "a");
    assert_eq!(state_of(&model, ComposerAction::Redo), ActionState::Enabled);
    model.redo();
    assert_eq!(text(&model), "ab");
    assert_eq!(model.get_selection(), (2, 2));
    model.undo();
    model.undo();
    assert_eq!(text(&model), "");
    assert_eq!(state_of(&model, ComposerAction::Undo), ActionState::Disabled);
    let update = model.undo();
    assert!(matches!(update.text_update, TextUpdate::Keep));
}

#[test]
fn an_edit_empties_the_redo_history() {
    let mut model = model_with("a");
    model.undo();
    model.replace_text(utf16("c"));
    assert_eq!(state_of(&model, ComposerAction::Redo), ActionState::Disabled);
    let update = model.redo();
    assert!(matches!(update.text_update, TextUpdate::Keep));
    assert_eq!(text(&model), "c");
}

#[test]
fn undo_restores_formatting() {
    let mut model = model_with("abc");
    model.select(0, 3);
    model.bold();
    model.undo();
    assert_eq!(html(&model), "abc");
    assert_eq!(model.get_selection(), (0, 3));
}

#[test]
fn clear_empties_content_and_history() {
    let mut model = model_with("abc");
    model.clear();
    assert_eq!(text(&model), "");
    assert_eq!(state_of(&model, ComposerAction::Undo), ActionState::Disabled);
}

#[test]
fn new_model_reports_action_states() {
    let model = ComposerModel::new();
    let states = model.action_states();
    assert_eq!(states.len(), 14);
    assert_eq!(state_of(&model, ComposerAction::Bold), ActionState::Enabled);
    assert_eq!(state_of(&model, ComposerAction::Undo), ActionState::Disabled);
    assert_eq!(state_of(&model, ComposerAction::Indent), ActionState::Disabled);
    assert_eq!(state_of(&model, ComposerAction::Unindent), ActionState::Disabled);
    assert_eq!(state_of(&model, ComposerAction::Quote), ActionState::Disabled);
    assert_eq!(state_of(&model, ComposerAction::Link), ActionState::Enabled);
}

#[test]
fn unchanged_menu_is_not_reported_again() {
    let mut model = model_with("abc");
    model.select(1, 1);
    let update = model.select(2, 2);
    assert!(matches!(update.menu_state, MenuState::Keep));
    match update.text_update {
        TextUpdate::Select(s) => assert_eq!((s.start, s.end), (2, 2)),
        _ => panic!("Expected a selection update"),
    }
    let update = model.bold();
    assert!(matches!(update.menu_state, MenuState::Update(_)));
}

#[test]
fn keep_update_changes_nothing() {
    let update = ComposerUpdate::keep();
    assert!(matches!(update.text_update, TextUpdate::Keep));
    assert!(matches!(update.menu_state, MenuState::Keep));
}

#[test]
fn backspace_word_removes_words_then_spaces_with_words() {
    let mut model = model_with("hello   world");
    model.backspace_word();
    assert_eq!(text(&model), "hello   ");
    model.backspace_word();
    assert_eq!(text(&model), "");
    let update = model.backspace_word();
    assert!(matches!(update.text_update, TextUpdate::Keep));
}

#[test]
fn backspace_word_removes_a_punctuation_run() {
    let mut model = model_with("abc.,;");
    model.backspace_word();
    assert_eq!(text(&model), "abc");
}

#[test]
fn backspace_word_removes_a_line_break_alone() {
    let mut model = model_with("abc\ndef");
    model.select(4, 4);
    model.backspace_word();
    assert_eq!(text(&model), "abcdef");
}

#[test]
fn backspace_word_takes_spaces_with_the_line_break_before_them() {
    let mut model = model_with("abc \n  x");
    model.select(7, 7);
    model.backspace_word();
    assert_eq!(text(&model), "abc x");
}

#[test]
fn delete_word_removes_words_forwards() {
    let mut model = model_with("hello, world");
    model.select(0, 0);
    model.delete_word();
    assert_eq!(text(&model), ", world");
    model.delete_word();
    assert_eq!(text(&model), " world");
    model.delete_word();
    assert_eq!(text(&model), "");
    let update = model.delete_word();
    assert!(matches!(update.text_update, TextUpdate::Keep));
}

#[test]
fn word_deletion_with_a_selection_removes_the_selection() {
    let mut model = model_with("hello world");
    model.select(2, 4);
    model.delete_word();
    assert_eq!(text(&model), "heo world");
}

#[test]
fn run_ends_and_line_breaks() {
    let t = utf16("ab  \ncd");
    assert_eq!(get_end_index_of_run(&t, 4, &Direction::Backwards), (2, false));
    assert_eq!(get_end_index_of_run(&t, 2, &Direction::Forwards), (4, true));
    assert_eq!(get_end_index_of_run(&t, 7, &Direction::Backwards), (5, true));
    assert_eq!(word_deletion_range(&t, 4, &Direction::Backwards), (0, 4));
    assert_eq!(word_deletion_range(&t, 2, &Direction::Forwards), (2, 5));
    assert_eq!(word_deletion_range(&t, 0, &Direction::Backwards), (0, 0));
    assert_eq!(word_deletion_range(&t, 7, &Direction::Forwards), (7, 7));
}

#[test]
fn direction_steps() {
    assert_eq!(Direction::Forwards.increment(3), 4);
    assert_eq!(Direction::Backwards.increment(3), 2);
    assert_eq!(Direction::Forwards.decrement(3), 2);
    assert_eq!(Direction::Backwards.decrement(3), 4);
}

#[test]
fn enter_splits_the_paragraph_at_the_cursor() {
    let mut model = model_with("Test lines");
    model.select(4, 4);
    model.enter();
    assert_eq!(html(&model), "<p>Test</p><p> lines</p>");
    assert_eq!(model.get_selection(), (5, 5));
}

#[test]
fn enter_at_the_end_starts_an_empty_paragraph() {
    let mut model = model_with("a");
    model.enter();
    assert_eq!(html(&model), "<p>a</p><p></p>");
    model.replace_text(utf16("b "));
    assert_eq!(html(&model), "<p>a</p><p>b&nbsp;</p>");
}

#[test]
fn enter_over_a_selection_replaces_it() {
    let mut model = model_with("abcd");
    model.select(1, 3);
    model.enter();
    assert_eq!(html(&model), "<p>a</p><p>d</p>");
    model.undo();
    assert_eq!(html(&model), "abcd");
}

#[test]
fn formats_stay_inside_their_paragraphs() {
    let mut model = model_with("ab");
    model.select(1, 1);
    model.enter();
    model.select(0, 3);
    model.bold();
    assert_eq!(html(&model), "<p><strong>a</strong></p><p><strong>b</strong></p>");
}

#[test]
fn backspace_at_a_paragraph_start_joins_paragraphs() {
    let mut model = model_with("ab");
    model.select(1, 1);
    model.enter();
    model.backspace();
    assert_eq!(html(&model), "ab");
}

fn suggestion_of(update: &ComposerUpdate) -> Option<(PatternKey, String, usize, usize)> {
    match &update.menu_action {
        MenuAction::Suggestion(s) => {
            Some((s.key, String::from_utf16(&s.text).unwrap(), s.start, s.end))
        }
        _ => None,
    }
}

#[test]
fn typing_a_mention_key_reports_a_suggestion() {
    let mut model = ComposerModel::new();
    let update = model.replace_text(utf16("hi @ali"));
    assert_eq!(suggestion_of(&update), Some((PatternKey::At, "ali".to_string(), 3, 7)));
    let update = model.replace_text(utf16(" "));
    assert!(matches!(update.menu_action, MenuAction::NoAction));
}

#[test]
fn hash_and_slash_patterns_are_reported() {
    let mut model = ComposerModel::new();
    let update = model.replace_text(utf16("#room"));
    assert_eq!(suggestion_of(&update), Some((PatternKey::Hash, "room".to_string(), 0, 5)));
    let mut model = ComposerModel::new();
    let update = model.replace_text(utf16("/"));
    assert_eq!(suggestion_of(&update), Some((PatternKey::Slash, "".to_string(), 0, 1)));
}

#[test]
fn a_key_inside_a_word_is_no_suggestion() {
    let mut model = ComposerModel::new();
    let update = model.replace_text(utf16("a@b"));
    assert!(matches!(update.menu_action, MenuAction::NoAction));
    let update = model.select(0, 2);
    assert!(matches!(update.menu_action, MenuAction::NoAction));
}

#[test]
fn a_suggestion_is_replaced_by_its_completion() {
    let mut model = ComposerModel::new();
    let update = model.replace_text(utf16("hi @al"));
    let suggestion = match update.menu_action {
        MenuAction::Suggestion(s) => s,
        _ => panic!("Expected a suggestion"),
    };
    model.replace_text_suggestion(utf16("Alice "), &suggestion);
    assert_eq!(text(&model), "hi Alice ");
    assert_eq!(model.get_selection(), (9, 9));
}

#[test]
fn a_model_can_start_from_a_state() {
    let mut bold = Formats::plain();
    bold.bold = Some(0);
    let state = ComposerState {
        text: utf16("ab"),
        formats: vec![bold, bold],
        start: 2,
        end: 2,
        toggled_formats: Formats::plain(),
        links: Vec::new(),
    };
    let model = ComposerModel::from_state(state);
    assert_eq!(html(&model), "<strong>ab</strong>");
    assert_eq!(model.get_current_state().start, 2);
    assert_eq!(state_of(&model, ComposerAction::Bold), ActionState::Reversed);
}

#[test]
fn zero_width_spaces_form_a_word_class_of_their_own() {
    let mut model = model_with("ab\u{200B}\u{200B}");
    model.backspace_word();
    assert_eq!(text(&model), "ab");
}

#[test]
fn bolding_across_italic_nests_inside_it() {
    // {hello <em>wor}|ld</em>
    let mut model = model_with("hello world");
    model.select(6, 11);
    model.italic();
    model.select(0, 9);
    model.bold();
    // the space that ends the bold text is written non-breaking
    assert_eq!(html(&model), "<strong>hello&nbsp;</strong><em><strong>wor</strong>ld</em>");
}

#[test]
fn italic_inside_bold_keeps_one_bold_container() {
    let mut model = model_with("abc");
    model.select(0, 3);
    model.bold();
    model.select(1, 2);
    model.italic();
    assert_eq!(html(&model), "<strong>a<em>b</em>c</strong>");
}

#[test]
fn typing_inside_nested_formats_keeps_their_order() {
    let mut model = model_with("abc");
    model.select(0, 3);
    model.italic();
    model.bold();
    model.select(2, 2);
    model.replace_text(utf16("Z"));
    assert_eq!(html(&model), "<em><strong>abZc</strong></em>");
}
