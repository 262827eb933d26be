use wysiwyg::{utf16, ComposerModel};

/// Builds a composer from plain text in which `|` marks the cursor and
/// `{`, `}` the other end of a selection.
fn cm(marked: &str) -> ComposerModel {
    let mut text: Vec<u16> = Vec::new();
    let mut cursor = 0;
    let mut open = None;
    let mut close = None;
    for c in marked.chars() {
        match c {
            '|' => cursor = text.len(),
            '{' => open = Some(text.len()),
            '}' => close = Some(text.len()),
            _ => {
                let mut buf = [0u16; 2];
                text.extend_from_slice(c.encode_utf16(&mut buf));
            }
        }
    }
    let mut model = ComposerModel::new();
    model.replace_text(text);
    match (open, close) {
        (Some(o), Some(c)) if cursor == c => model.select(o, c),
        (Some(o), Some(c)) if cursor == o => model.select(c, o),
        _ => model.select(cursor, cursor),
    };
    model
}

/// The plain text with the selection marked as `cm` reads it.
fn tx(model: &ComposerModel) -> String {
    let text = model.get_content_as_plain_text();
    let (start, end) = model.get_selection();
    let mut out: Vec<u16> = Vec::new();
    for i in 0..=text.len() {
        if start == end && i == end {
            out.extend(utf16("|"));
        } else if start < end && i == start {
            out.extend(utf16("{"));
        } else if start < end && i == end {
            out.extend(utf16("}|"));
        } else if start > end && i == end {
            out.extend(utf16("|{"));
        } else if start > end && i == start {
            out.extend(utf16("}"));
        }
        if i < text.len() {
            out.push(text[i]);
        }
    }
    String::from_utf16(&out).unwrap()
}

fn replace_text(model: &mut ComposerModel, new_text: &str) {
    model.replace_text(utf16(new_text));
}

#[test]
fn typing_a_character_into_an_empty_box_appends_it() {
    let mut model = cm("|");
    replace_text(&mut model, "v");
    assert_eq!(tx(&model), "v|");
}

#[test]
fn typing_a_character_at_the_end_appends_it() {
    let mut model = cm("abc|");
    replace_text(&mut model, "d");
    assert_eq!(tx(&model), "abcd|");
}

#[test]
fn typing_a_character_in_the_middle_inserts_it() {
    let mut model = cm("|abc");
    replace_text(&mut model, "Z");
    assert_eq!(tx(&model), "Z|abc");
}

#[test]
fn replacing_a_selection_past_the_end_is_harmless() {
    let mut model = cm("|");
    model.select(7, 7);
    replace_text(&mut model, "Z");
    assert_eq!(tx(&model), "Z|");
}

#[test]
fn replacing_a_selection_with_a_character() {
    let mut model = cm("abc{def}|ghi");
    replace_text(&mut model, "Z");
    assert_eq!(tx(&model), "abcZ|ghi");
}

#[test]
fn replacing_a_backwards_selection_with_a_character() {
    let mut model = cm("abc|{def}ghi");
    replace_text(&mut model, "Z");
    assert_eq!(tx(&model), "abcZ|ghi");
}

#[test]
fn typing_a_character_after_a_multi_codepoint_character() {
    // Woman Astronaut:
    // Woman+Dark Skin Tone+Zero Width Joiner+Rocket
    let mut model = cm("\u{1F469}\u{1F3FF}\u{200D}\u{1F680}|");
    replace_text(&mut model, "Z");
    assert_eq!(tx(&model), "\u{1F469}\u{1F3FF}\u{200D}\u{1F680}Z|");
}

#[test]
fn typing_a_character_in_a_range_inserts_it() {
    let mut model = cm("0123456789|");
    let new_text = utf16("654");
    model.replace_text_in(new_text, 4, 7);
    assert_eq!(tx(&model), "0123654|789");
}

#[test]
fn can_replace_text_in_an_empty_composer_model() {
    let mut cm = ComposerModel::new();
    cm.replace_text(utf16("foo"));
    assert_eq!(tx(&cm), "foo|");
}

#[test]
fn selecting_ascii_characters() {
    let mut model = cm("abcdefgh|");
    model.select(0, 1);
    assert_eq!(tx(&model), "{a}|bcdefgh");

    model.select(1, 3);
    assert_eq!(tx(&model), "a{bc}|defgh");

    model.select(4, 8);
    assert_eq!(tx(&model), "abcd{efgh}|");
}

#[test]
fn selecting_single_utf16_code_unit_characters() {
    let mut model = cm("\u{03A9}\u{03A9}\u{03A9}|");

    model.select(0, 1);
    assert_eq!(tx(&model), "{\u{03A9}}|\u{03A9}\u{03A9}");

    model.select(0, 3);
    assert_eq!(tx(&model), "{\u{03A9}\u{03A9}\u{03A9}}|");

    model.select(1, 2);
    assert_eq!(tx(&model), "\u{03A9}{\u{03A9}}|\u{03A9}");
}

#[test]
fn selecting_multiple_utf16_code_unit_characters() {
    let mut model = cm("\u{1F4A9}\u{1F4A9}\u{1F4A9}|");

    model.select(0, 2);
    assert_eq!(tx(&model), "{\u{1F4A9}}|\u{1F4A9}\u{1F4A9}");

    model.select(0, 6);
    assert_eq!(tx(&model), "{\u{1F4A9}\u{1F4A9}\u{1F4A9}}|");

    model.select(2, 4);
    assert_eq!(tx(&model), "\u{1F4A9}{\u{1F4A9}}|\u{1F4A9}");
}

#[test]
fn selecting_complex_characters() {
    let mut model = cm("aaa\u{03A9}bbb\u{1F469}\u{1F3FF}\u{200D}\u{1F680}ccc|");

    model.select(0, 3);
    assert_eq!(
        tx(&model),
        "{aaa}|\u{03A9}bbb\u{1F469}\u{1F3FF}\u{200D}\u{1F680}ccc"
    );

    model.select(0, 4);
    assert_eq!(
        tx(&model),
        "{aaa\u{03A9}}|bbb\u{1F469}\u{1F3FF}\u{200D}\u{1F680}ccc"
    );

    model.select(7, 14);
    assert_eq!(
        tx(&model),
        "aaa\u{03A9}bbb{\u{1F469}\u{1F3FF}\u{200D}\u{1F680}}|ccc"
    );

    model.select(7, 15);
    assert_eq!(
        tx(&model),
        "aaa\u{03A9}bbb{\u{1F469}\u{1F3FF}\u{200D}\u{1F680}c}|cc"
    );
}

#[test]
fn backspace_at_the_start_does_nothing() {
    let mut model = cm("|abc");
    model.backspace();
    assert_eq!(tx(&model), "|abc");
}

#[test]
fn backspace_removes_the_character_before_the_cursor() {
    let mut model = cm("ab|c");
    model.backspace();
    assert_eq!(tx(&model), "a|c");
}

#[test]
fn backspace_removes_a_whole_surrogate_pair() {
    let mut model = cm("a\u{1F4A9}|");
    model.backspace();
    assert_eq!(tx(&model), "a|");
}

#[test]
fn backspace_removes_the_selection() {
    let mut model = cm("a{bc}|d");
    model.backspace();
    assert_eq!(tx(&model), "a|d");
}

#[test]
fn delete_at_the_end_does_nothing() {
    let mut model = cm("abc|");
    model.delete();
    assert_eq!(tx(&model), "abc|");
}

#[test]
fn delete_removes_the_character_after_the_cursor() {
    let mut model = cm("a|\u{1F4A9}b");
    model.delete();
    assert_eq!(tx(&model), "a|b");
}

#[test]
fn delete_in_removes_a_range_in_either_order() {
    let mut model = cm("abcdef|");
    model.delete_in(4, 1);
    assert_eq!(tx(&model), "a|ef");
}

#[test]
fn backspace_removes_a_whole_emoji_sequence() {
    // Woman Astronaut:
    // Woman+Dark Skin Tone+Zero Width Joiner+Rocket
    let mut model = cm("\u{1F469}\u{1F3FF}\u{200D}\u{1F680}|");
    model.backspace();
    assert_eq!(tx(&model), "|");
}

#[test]
fn delete_removes_a_whole_emoji_sequence() {
    let mut model = cm("a|\u{1F469}\u{1F3FF}\u{200D}\u{1F680}b");
    model.delete();
    assert_eq!(tx(&model), "a|b");
}

#[test]
fn backspace_removes_a_letter_with_its_accent() {
    let mut model = cm("ae\u{0301}|");
    model.backspace();
    assert_eq!(tx(&model), "a|");
}

#[test]
fn backspace_stops_at_the_previous_character() {
    let mut model = cm("\u{1F469}\u{1F680}|");
    model.backspace();
    assert_eq!(tx(&model), "\u{1F469}|");
}

#[test]
fn backspace_removes_a_whole_flag() {
    // Regional indicators U and A: one flag
    let mut model = cm("a\u{1F1FA}\u{1F1E6}|");
    model.backspace();
    assert_eq!(tx(&model), "a|");
}

#[test]
fn backspace_removes_a_line_feed_with_its_carriage_return() {
    let mut model = cm("a\r\n|");
    model.backspace();
    assert_eq!(tx(&model), "a|");
}
