use aicli::error::AppError;
use aicli::json::read_first_choice;
use aicli::json::read_list_field;
use aicli::json::read_text_field;
use aicli::json::read_utf8;
use aicli::json::read_utf8_lossy;
use aicli::json::write_list;
use aicli::json::write_literal;
use aicli::json::write_object_one;
use aicli::json::write_object_two;
use aicli::text::chars_of;
use aicli::text::split_lines;
use aicli::text::string_of;
use aicli::text::trimmed;
use aicli::text::trimmed_end;
use aicli::text::trimmed_start;

#[test]
fn literals_are_quoted_and_escaped() {
    assert_eq!(write_literal("plain"), "\"plain\"");
    assert_eq!(write_literal("a\"b\\c\nd\te\u{1}"), "\"a\\\"b\\\\c\\nd\\te\\u0001\"");
    assert_eq!(write_literal(""), "\"\"");
    assert_eq!(write_literal("\u{e9}\u{1F600}"), "\"\u{e9}\u{1F600}\"");
}

#[test]
fn objects_and_lists_are_written_compactly() {
    assert_eq!(write_object_one("k", "v"), "{\"k\":\"v\"}");
    assert_eq!(write_object_two("a", "1", "b", "2"), "{\"a\":\"1\",\"b\":\"2\"}");
    assert_eq!(write_list(&vec![]), "[]");
    assert_eq!(write_list(&vec!["x".to_string()]), "[\"x\"]");
    assert_eq!(write_list(&vec!["x".to_string(), "y\"".to_string()]), "[\"x\",\"y\\\"\"]");
}

#[test]
fn what_is_written_reads_back() {
    let text = write_object_two("uuid", "id \"1\"", "content", "line one\nline two");
    assert_eq!(read_text_field(text.as_bytes(), "uuid"), Ok(Some("id \"1\"".to_string())));
    assert_eq!(
        read_text_field(text.as_bytes(), "content"),
        Ok(Some("line one\nline two".to_string()))
    );
    let list = format!("{{\"models\":{}}}", write_list(&vec!["a:b".to_string(), "c".to_string()]));
    assert_eq!(
        read_list_field(list.as_bytes(), "models"),
        Ok(Some(vec!["a:b".to_string(), "c".to_string()]))
    );
}

#[test]
fn fields_that_are_missing_or_of_another_type_read_as_none() {
    assert_eq!(read_text_field(b"{\"a\":\"x\"}", "b"), Ok(None));
    assert_eq!(read_text_field(b"{\"a\":1}", "a"), Ok(None));
    assert_eq!(read_text_field(b"[1,2]", "a"), Ok(None));
    assert_eq!(read_list_field(b"{\"a\":\"x\"}", "a"), Ok(None));
    assert_eq!(read_list_field(b"{\"a\":[1]}", "a"), Ok(None));
    assert_eq!(read_list_field(b"{\"a\":[]}", "a"), Ok(Some(vec![])));
    assert!(matches!(read_text_field(b"{", "a"), Err(AppError::JsonError(_))));
    assert!(matches!(read_list_field(b"", "a"), Err(AppError::JsonError(_))));
}

#[test]
fn the_first_choice_is_found_along_its_path() {
    assert_eq!(
        read_first_choice(b"{\"choices\":[{\"message\":{\"role\":\"assistant\",\"content\":\"hi\"}}]}"),
        Ok(Some("hi".to_string()))
    );
    assert_eq!(read_first_choice(b"{\"choices\":[{\"message\":{}}]}"), Ok(None));
    assert_eq!(read_first_choice(b"{}"), Ok(None));
    assert!(matches!(read_first_choice(b"nope"), Err(AppError::JsonError(_))));
}

#[test]
fn utf8_is_read_strictly_or_leniently() {
    assert_eq!(read_utf8("gr\u{fc}n".as_bytes()), Ok("gr\u{fc}n".to_string()));
    assert!(matches!(read_utf8(b"a\xffb"), Err(AppError::Utf8Error(_))));
    assert_eq!(read_utf8_lossy("gr\u{fc}n".as_bytes()), "gr\u{fc}n");
    assert_eq!(read_utf8_lossy(b"a\xffb"), "a\u{fffd}b");
}

fn lines(text: &str) -> Vec<String> {
    split_lines(&chars_of(text)).iter().map(string_of).collect()
}

#[test]
fn a_text_with_k_line_feeds_has_k_plus_one_lines() {
    assert_eq!(lines(""), vec![""]);
    assert_eq!(lines("a"), vec!["a"]);
    assert_eq!(lines("a\n"), vec!["a", ""]);
    assert_eq!(lines("a\n\nb\r\n"), vec!["a", "", "b\r", ""]);
    assert_eq!(lines("\n"), vec!["", ""]);
}

#[test]
fn trimming_cuts_unicode_white_space() {
    let text = chars_of("\u{3000}\t a b \u{a0}\n");
    assert_eq!(string_of(&trimmed(&text)), "a b");
    assert_eq!(string_of(&trimmed_start(&text)), "a b \u{a0}\n");
    assert_eq!(string_of(&trimmed_end(&text)), "\u{3000}\t a b");
    for sample in ["", "   ", " x", "x ", "\u{200b}x\u{200b}", "\u{85}y\u{2028}"] {
        assert_eq!(string_of(&trimmed(&chars_of(sample))), sample.trim());
        assert_eq!(string_of(&trimmed_start(&chars_of(sample))), sample.trim_start());
        assert_eq!(string_of(&trimmed_end(&chars_of(sample))), sample.trim_end());
    }
    for code in 0..0x3100u32 {
        if let Some(c) = char::from_u32(code) {
            assert_eq!(aicli::text::char_is_space(c), c.is_whitespace(), "{code:#x}");
        }
    }
}
