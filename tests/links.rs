use wysiwyg::{utf16, ActionState, ComposerAction, ComposerModel, LinkAction, TextUpdate};

fn html(model: &ComposerModel) -> String {
    String::from_utf16(&model.get_content_as_html()).unwrap()
}

fn model_with(t: &str) -> ComposerModel {
    let mut model = ComposerModel::new();
    model.replace_text(utf16(t));
    model
}

fn link_state(model: &ComposerModel) -> ActionState {
    model.action_states().iter().find(|(a, _)| *a == ComposerAction::Link).unwrap().1
}

#[test]
fn set_link_wraps_the_selection() {
    let mut model = model_with("hello world");
    model.select(0, 5);
    model.set_link(utf16("https://element.io"));
    assert_eq!(html(&model), "<a href=\"https://element.io\">hello</a> world");
    assert_eq!(model.get_selection(), (0, 5));
    assert_eq!(link_state(&model), ActionState::Reversed);
}

#[test]
fn set_link_inside_a_link_retargets_the_whole_link() {
    let mut model = model_with("link_text");
    model.select(0, 9);
    model.set_link(utf16("A"));
    model.select(5, 9);
    model.set_link(utf16("B"));
    assert_eq!(html(&model), "<a href=\"B\">link_text</a>");
    assert_eq!(model.get_selection(), (5, 9));
}

#[test]
fn set_link_at_a_cursor_next_to_a_link_does_nothing() {
    let mut model = model_with("test_link");
    model.select(0, 9);
    model.set_link(utf16("https://matrix.org"));
    model.select(9, 9);
    let update = model.set_link(utf16("https://element.io"));
    assert!(matches!(update.text_update, TextUpdate::Keep));
    model.select(0, 0);
    model.set_link(utf16("https://element.io"));
    assert_eq!(html(&model), "<a href=\"https://matrix.org\">test_link</a>");
}

#[test]
fn set_link_at_a_cursor_without_a_link_does_nothing() {
    let mut model = model_with("test");
    let update = model.set_link(utf16("https://element.io"));
    assert!(matches!(update.text_update, TextUpdate::Keep));
    assert_eq!(html(&model), "test");
}

#[test]
fn set_link_starting_inside_a_link_cuts_it() {
    let mut model = model_with("test_link test");
    model.select(0, 9);
    model.set_link(utf16("https://element.io"));
    model.select(5, 14);
    model.set_link(utf16("https://matrix.org"));
    assert_eq!(
        html(&model),
        "<a href=\"https://element.io\">test_</a><a href=\"https://matrix.org\">link test</a>"
    );
}

#[test]
fn set_link_around_links_makes_one_link() {
    let mut model = model_with("X A B Y");
    model.select(2, 3);
    model.set_link(utf16("linkA"));
    model.select(4, 5);
    model.set_link(utf16("linkB"));
    model.select(0, 7);
    model.set_link(utf16("https://matrix.org"));
    assert_eq!(html(&model), "<a href=\"https://matrix.org\">X A B Y</a>");
}

#[test]
fn typing_at_the_end_of_a_link_leaves_it() {
    let mut model = model_with("link");
    model.select(0, 4);
    model.set_link(utf16("u"));
    model.select(4, 4);
    model.replace_text(utf16("x"));
    assert_eq!(html(&model), "<a href=\"u\">link</a>x");
}

#[test]
fn typing_inside_a_link_extends_it() {
    let mut model = model_with("link");
    model.select(0, 4);
    model.set_link(utf16("u"));
    model.select(2, 2);
    model.replace_text(utf16("x"));
    assert_eq!(html(&model), "<a href=\"u\">lixnk</a>");
}

#[test]
fn remove_links_takes_away_every_link_met_whole() {
    let mut model = model_with("one two three");
    model.select(0, 3);
    model.set_link(utf16("a"));
    model.select(8, 13);
    model.set_link(utf16("b"));
    model.select(1, 2);
    model.remove_links();
    assert_eq!(html(&model), "one two <a href=\"b\">three</a>");
    model.select(2, 10);
    model.remove_links();
    assert_eq!(html(&model), "one two three");
}

#[test]
fn set_link_with_text_inserts_linked_text() {
    let mut model = ComposerModel::new();
    model.set_link_with_text(utf16("https://element.io"), utf16("text"));
    assert_eq!(html(&model), "<a href=\"https://element.io\">text</a>");
    assert_eq!(model.get_selection(), (4, 4));
}

#[test]
fn link_actions_follow_the_selection() {
    let mut model = model_with("ab cd");
    assert!(matches!(model.get_link_action(), LinkAction::CreateWithText));
    model.select(0, 2);
    assert!(matches!(model.get_link_action(), LinkAction::Create));
    model.set_link(utf16("u"));
    match model.get_link_action() {
        LinkAction::Edit(url) => assert_eq!(url, utf16("u")),
        _ => panic!("Expected to edit the link"),
    }
    model.select(1, 4);
    assert!(matches!(model.get_link_action(), LinkAction::Create));
    assert_eq!(link_state(&model), ActionState::Enabled);
}

#[test]
fn links_hold_formatted_text() {
    let mut model = model_with("ab");
    model.select(1, 2);
    model.bold();
    model.select(0, 2);
    model.set_link(utf16("u"));
    assert_eq!(html(&model), "<a href=\"u\">a<strong>b</strong></a>");
}

#[test]
fn undo_takes_back_a_link() {
    let mut model = model_with("ab");
    model.select(0, 2);
    model.set_link(utf16("u"));
    model.undo();
    assert_eq!(html(&model), "ab");
}

#[test]
fn a_suggestion_becomes_a_link() {
    let mut model = ComposerModel::new();
    let update = model.replace_text(utf16("hi @al"));
    let suggestion = match update.menu_action {
        wysiwyg::MenuAction::Suggestion(s) => s,
        _ => panic!("Expected a suggestion"),
    };
    model.set_link_suggestion(
        utf16("https://matrix.to/#/@alice"),
        utf16("Alice"),
        &suggestion,
        vec![(utf16("contenteditable"), utf16("false"))],
    );
    assert_eq!(
        html(&model),
        "hi <a href=\"https://matrix.to/#/@alice\" contenteditable=\"false\">Alice</a>"
    );
    assert_eq!(model.get_selection(), (8, 8));
    model.undo();
    assert_eq!(html(&model), "hi @al");
    assert_eq!(model.get_selection(), (6, 6));
}
