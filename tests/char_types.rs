use wysiwyg::{get_char_type, CharType};

#[test]
fn get_char_type_for_whitespace() {
    // space
    assert_eq!(get_char_type('\u{0020}'), CharType::Whitespace);
    // no break space
    assert_eq!(get_char_type('\u{00A0}'), CharType::Whitespace);
    // zero width space
    assert_eq!(get_char_type('\u{200B}'), CharType::ZWSP);
}

#[test]
fn get_char_type_for_punctuation() {
    assert_eq!(get_char_type('='), CharType::Punctuation);
    assert_eq!(get_char_type('-'), CharType::Punctuation);
    assert_eq!(get_char_type('_'), CharType::Punctuation);
    assert_eq!(get_char_type('$'), CharType::Punctuation);
    assert_eq!(get_char_type('#'), CharType::Punctuation);
    assert_eq!(get_char_type('@'), CharType::Punctuation);
    assert_eq!(get_char_type('.'), CharType::Punctuation);
    assert_eq!(get_char_type(','), CharType::Punctuation);
}

#[test]
fn get_char_type_for_other() {
    assert_eq!(get_char_type('1'), CharType::Other);
    assert_eq!(get_char_type('Q'), CharType::Other);
    assert_eq!(get_char_type('z'), CharType::Other);
}

#[test]
fn pound_sign_counts_as_punctuation() {
    assert_eq!(get_char_type('£'), CharType::Punctuation);
}

#[test]
fn tabs_and_ideographic_space_are_whitespace() {
    assert_eq!(get_char_type('\t'), CharType::Whitespace);
    assert_eq!(get_char_type('\u{3000}'), CharType::Whitespace);
}

#[test]
fn letters_outside_ascii_are_other() {
    assert_eq!(get_char_type('\u{03A9}'), CharType::Other);
    assert_eq!(get_char_type('\u{1F4A9}'), CharType::Other);
}
