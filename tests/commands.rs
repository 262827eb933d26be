use wysiwyg::{utf16, ComposerModel, InlineFormatType};

fn html(model: &ComposerModel) -> String {
    String::from_utf16(&model.get_content_as_html()).unwrap()
}

fn model_with(t: &str) -> ComposerModel {
    let mut model = ComposerModel::new();
    model.replace_text(utf16(t));
    model
}

/// "hello world" with "world" in bold.
fn hello_bold_world() -> ComposerModel {
    let mut model = model_with("hello world");
    model.select(6, 11);
    model.bold();
    model
}

#[test]
fn set_link_to_empty_selection() {
    // This use case should never happen but in case it would...
    let mut model = model_with("test");
    model.set_link(utf16("https://element.io"));
    assert_eq!(html(&model), "test");
    assert_eq!(model.get_selection(), (4, 4));
}

#[test]
fn set_link_wraps_selection_in_link_tag() {
    let mut model = model_with("hello world");
    model.select(0, 5);
    model.set_link(utf16("https://element.io"));
    assert_eq!(html(&model), "<a href=\"https://element.io\">hello</a> world");
}

#[test]
fn formatting_several_nodes_works_with_same_format() {
    let mut model = hello_bold_world();
    model.select(0, 9);
    model.format(InlineFormatType::Bold);
    assert_eq!(html(&model), "<strong>hello world</strong>");
}

#[test]
fn formatting_several_nodes_works_with_same_format_rev() {
    let mut model = hello_bold_world();
    model.select(9, 0);
    model.format(InlineFormatType::Bold);
    assert_eq!(html(&model), "<strong>hello world</strong>");
}

#[test]
fn test_new_line_in_plain_text() {
    let mut model = model_with("Test lines");
    model.select(4, 4);
    model.enter();
    assert_eq!(html(&model), "<p>Test</p><p> lines</p>");
    assert_eq!(model.get_selection(), (5, 5));
}

#[test]
fn test_new_line_at_start() {
    let mut model = model_with("Test lines");
    model.select(0, 0);
    model.enter();
    assert_eq!(html(&model), "<p></p><p>Test lines</p>");
    assert_eq!(model.get_selection(), (1, 1));
}

#[test]
fn test_new_line_at_end() {
    let mut model = model_with("Test lines");
    model.enter();
    assert_eq!(html(&model), "<p>Test lines</p><p></p>");
    assert_eq!(model.get_selection(), (11, 11));
}

#[test]
fn typing_a_character_when_spanning_two_tags_extends_the_first_tag() {
    // before<strong>bo{ld</strong>aft}|er
    let mut model = model_with("beforeboldafter");
    model.select(6, 10);
    model.bold();
    model.select(8, 13);
    model.replace_text(utf16("Z"));
    assert_eq!(html(&model), "before<strong>boZ</strong>er");
    assert_eq!(model.get_selection(), (9, 9));
}

#[test]
fn typing_a_character_when_spanning_two_whole_tags_extends_the_first_tag() {
    // before<strong>{bold</strong>after}|
    let mut model = model_with("beforeboldafter");
    model.select(6, 10);
    model.bold();
    model.select(6, 15);
    model.replace_text(utf16("Z"));
    assert_eq!(html(&model), "before<strong>Z</strong>");
}

#[test]
fn typing_a_character_when_spanning_two_separate_identical_tags_joins_them() {
    // <strong>bo{ld</strong> plain <strong>BO}|LD</strong>
    let mut model = model_with("bold plain BOLD");
    model.select(0, 4);
    model.bold();
    model.select(11, 15);
    model.bold();
    model.select(2, 13);
    model.replace_text(utf16("Z"));
    assert_eq!(html(&model), "<strong>boZLD</strong>");
}

#[test]
fn typing_that_empties_an_end_tag_deletes_it() {
    // 00{00<strong>1111}|</strong>
    let mut model = model_with("00001111");
    model.select(4, 8);
    model.bold();
    model.select(2, 8);
    model.replace_text(utf16("Z"));
    assert_eq!(html(&model), "00Z");
}

#[test]
fn typing_when_spanning_whole_open_tags_moves_their_start_forwards() {
    // {00<strong>1<em>22}|</em>3</strong>44
    let mut model = model_with("00122344");
    model.select(2, 6);
    model.bold();
    model.select(3, 5);
    model.italic();
    model.select(0, 5);
    model.replace_text(utf16("Z"));
    assert_eq!(html(&model), "Z<strong>3</strong>44");
}
