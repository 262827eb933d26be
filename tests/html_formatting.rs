use wysiwyg::{escape_html_text, utf16, utf16_to_string, HtmlChar, HtmlFormatter, InlineFormatType};

#[test]
fn formatter_writes_markup_and_text() {
    let mut f = HtmlFormatter::new();
    f.write_char(HtmlChar::Lt);
    f.write(&utf16("a"));
    f.write_char(HtmlChar::Space);
    f.write(&utf16("href"));
    f.write_char(HtmlChar::Equal);
    f.write_char(HtmlChar::Quote);
    f.write_vec(utf16("x"));
    f.write_char(HtmlChar::Quote);
    f.write_char(HtmlChar::Gt);
    f.write_char(HtmlChar::Lt);
    f.write_char(HtmlChar::ForwardSlash);
    f.write(&utf16("a"));
    f.write_char(HtmlChar::Gt);
    assert_eq!(f.len(), 16);
    assert_eq!(f.chars_from(11).to_vec(), utf16("></a>"));
    assert_eq!(f.chars_at(1, 2).to_vec(), utf16("a"));
    assert_eq!(String::from_utf16(&f.finish()).unwrap(), "<a href=\"x\"></a>");
}

#[test]
fn formatter_inserts_at_positions() {
    let mut f = HtmlFormatter::new();
    f.write(&utf16("ac"));
    f.write_char_at(1, utf16("b")[0]);
    f.write_at(0, &utf16("<"));
    f.write_at_range(1, 2, &utf16("AA"));
    assert_eq!(String::from_utf16(&f.finish()).unwrap(), "<AAbc");
}

#[test]
fn finish_writes_non_breaking_spaces_as_entities() {
    let mut f = HtmlFormatter::new();
    f.write(&utf16("a\u{A0}b"));
    assert_eq!(String::from_utf16(&f.finish()).unwrap(), "a&nbsp;b");
}

#[test]
fn escaping_replaces_ampersand_and_brackets() {
    assert_eq!(escape_html_text(&utf16("<&>x")), utf16("&lt;&amp;&gt;x"));
}

#[test]
fn utf16_round_trips_through_strings() {
    let units = utf16("a\u{1F4A9}b");
    assert_eq!(units.len(), 4);
    assert_eq!(utf16_to_string(&units), Some("a\u{1F4A9}b".to_string()));
    assert_eq!(utf16_to_string(&vec![0xD83D, 0x0]), None);
}

#[test]
fn format_tags_and_names() {
    assert_eq!(InlineFormatType::Bold.tag(), "strong");
    assert_eq!(InlineFormatType::Italic.tag(), "em");
    assert_eq!(InlineFormatType::StrikeThrough.tag(), "del");
    assert_eq!(InlineFormatType::Underline.tag(), "u");
    assert_eq!(InlineFormatType::InlineCode.tag(), "code");
    assert_eq!(InlineFormatType::from_tag("b"), Some(InlineFormatType::Bold));
    assert_eq!(InlineFormatType::from_tag("em"), Some(InlineFormatType::Italic));
    assert_eq!(InlineFormatType::from_tag("del"), Some(InlineFormatType::StrikeThrough));
    assert_eq!(InlineFormatType::from_tag("p"), None);
    assert_eq!(InlineFormatType::Underline.tag_units(), utf16("u"));
}
