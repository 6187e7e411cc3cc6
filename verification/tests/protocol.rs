use aicli::ids::Uuid;
use aicli::protocol::block_positions;
use aicli::protocol::check_times_read_back;
use aicli::protocol::format_chat_log;
use aicli::protocol::parse_chat_file;
use aicli::protocol::parse_chat_text;
use aicli::protocol::truncate_after_last_user;
use aicli::time::Timestamp;
use aicli::types::ChatLog;
use aicli::types::Interaction;

fn at(text: &str) -> Timestamp {
    Timestamp::parse_rfc3339(text).unwrap()
}

#[test]
fn test_new_format_parse_and_format_roundtrip() {
    let original_content = "::>uuid: 550e8400-e29b-41d4-a716-446655440000
::>title: Test Chat
::>status: failed
::>model: deepseek:chat
::>system: You are a test assistant.
This is a multi-line prompt.

::>created_at: 2023-01-01T12:00:00Z
::>attach: image.png : image/png
::>user: Hello there.
This is a multi-line user question.

::>created_at: 2023-01-01T12:01:00Z
::>response: General Kenobi.

::>created_at: 2023-01-01T12:02:00Z
::>error: Something went wrong.
And here are the details.
";

    let log = parse_chat_file(original_content).expect("Parsing failed");

    assert_eq!(log.uuid.to_text(), "550e8400-e29b-41d4-a716-446655440000");
    assert_eq!(log.title, "Test Chat");
    assert_eq!(log.status.as_deref(), Some("failed"));
    assert_eq!(
        log.system_prompt.as_deref(),
        Some("You are a test assistant.\nThis is a multi-line prompt.")
    );
    assert_eq!(log.interactions.len(), 4);

    let user_interaction = &log.interactions[1];
    if let Interaction::User { content, .. } = user_interaction {
        assert_eq!(content, "Hello there.\nThis is a multi-line user question.");
    } else {
        panic!("Expected user interaction, found {:?}", user_interaction);
    }

    let formatted_content = format_chat_log(&log);
    let re_parsed_log = parse_chat_file(&formatted_content).expect("Re-parsing failed");

    assert_eq!(
        log, re_parsed_log,
        "The formatted content did not parse back to the original struct."
    );
}

#[test]
fn parse_reads_every_field() {
    let text = "::>uuid: 550e8400-e29b-41d4-a716-446655440000\n::>title:   Demo  \n::>model: a:b\n\n::>created_at: 2023-01-01T12:00:00Z\n::>attach: image.png : image/png\n::>user: Hello\nmore\n\n::>created_at: 2023-01-01T12:01:00+01:00\n::>response: Hi.  \n";
    let log = parse_chat_text(text, at("2000-01-01T00:00:00Z")).unwrap();
    assert_eq!(
        log,
        ChatLog {
            uuid: Uuid::from_u128(0x550e8400_e29b_41d4_a716_446655440000),
            title: "Demo".to_string(),
            model: Some("a:b".to_string()),
            status: Some("local".to_string()),
            system_prompt: None,
            interactions: vec![
                Interaction::Attachment {
                    filename: "image.png".to_string(),
                    mime_type: "image/png".to_string(),
                },
                Interaction::User {
                    content: "Hello\nmore".to_string(),
                    created_at: Timestamp::from_unix(1672574400, 0).unwrap(),
                },
                Interaction::Ai {
                    content: "Hi.".to_string(),
                    created_at: Timestamp::from_unix(1672574460 - 3600, 0).unwrap(),
                },
            ],
        }
    );
}

#[test]
fn format_writes_the_exact_text() {
    let log = ChatLog {
        uuid: Uuid::from_u128(0x550e8400_e29b_41d4_a716_446655440000),
        title: "Demo".to_string(),
        model: Some("a:b".to_string()),
        status: Some("pending".to_string()),
        system_prompt: Some("Be brief.\n".to_string()),
        interactions: vec![
            Interaction::Attachment {
                filename: "f.txt".to_string(),
                mime_type: "text/plain".to_string(),
            },
            Interaction::User {
                content: "Hello  ".to_string(),
                created_at: Timestamp::from_unix(1672574400, 0).unwrap(),
            },
        ],
    };
    assert_eq!(
        format_chat_log(&log),
        "::>uuid: 550e8400-e29b-41d4-a716-446655440000\n::>title: Demo\n::>status: pending\n::>model: a:b\n::>system: Be brief.\n\n::>created_at: 2023-01-01T12:00:00+00:00\n::>attach: f.txt : text/plain\n::>user: Hello\n"
    );
}

#[test]
fn format_of_a_bare_log_ends_after_the_title() {
    let log = ChatLog {
        uuid: Uuid::from_u128(1),
        title: "T".to_string(),
        model: None,
        status: None,
        system_prompt: None,
        interactions: vec![],
    };
    assert_eq!(
        format_chat_log(&log),
        "::>uuid: 00000000-0000-0000-0000-000000000001\n::>title: T\n"
    );
}

#[test]
fn parse_refuses_a_missing_uuid() {
    let r = parse_chat_text("::>title: x\n", at("2000-01-01T00:00:00Z"));
    assert!(matches!(r, Err(aicli::error::AppError::ParseError(_))));
}

#[test]
fn parse_refuses_a_malformed_uuid() {
    let r = parse_chat_text("::>uuid: not-a-uuid\n", at("2000-01-01T00:00:00Z"));
    assert!(matches!(r, Err(aicli::error::AppError::ParseError(_))));
}

#[test]
fn parse_refuses_a_block_without_a_turn_tag() {
    let text = "::>uuid: 550e8400-e29b-41d4-a716-446655440000\n\n::>created_at: 2023-01-01T12:00:00Z\nstray words\n";
    let r = parse_chat_text(text, at("2000-01-01T00:00:00Z"));
    assert!(matches!(r, Err(aicli::error::AppError::ParseError(_))));
}

#[test]
fn parse_skips_a_block_of_time_lines_only() {
    let text = "::>uuid: 550e8400-e29b-41d4-a716-446655440000\n\n::>created_at: 2023-01-01T12:00:00Z\n\n::>user: x\n";
    let now = at("2000-01-01T00:00:00Z");
    let log = parse_chat_text(text, now).unwrap();
    assert_eq!(
        log.interactions,
        vec![Interaction::User { content: "x".to_string(), created_at: now }]
    );
}

#[test]
fn parse_defaults_a_bad_time_to_now() {
    let text = "::>uuid: 550e8400-e29b-41d4-a716-446655440000\n\n::>created_at: yesterday\n::>error: boom\n";
    let now = at("2001-02-03T04:05:06.5Z");
    let log = parse_chat_text(text, now).unwrap();
    assert_eq!(
        log.interactions,
        vec![Interaction::Error { reason: "boom".to_string(), created_at: now }]
    );
}

#[test]
fn a_second_system_tag_starts_the_prompt_anew() {
    let text = "::>uuid: 550e8400-e29b-41d4-a716-446655440000\n::>system: one\ntwo\n::>system: three\nfour\n::>title: T\nfive\n";
    let log = parse_chat_text(text, at("2000-01-01T00:00:00Z")).unwrap();
    assert_eq!(log.system_prompt.as_deref(), Some("three\nfour"));
    assert_eq!(log.title, "T");
}

#[test]
fn truncate_drops_what_follows_the_last_user_turn() {
    let t = at("2023-01-01T12:00:00Z");
    let user = Interaction::User { content: "q".to_string(), created_at: t };
    let ai = Interaction::Ai { content: "a".to_string(), created_at: t };
    let err = Interaction::Error { reason: "e".to_string(), created_at: t };
    let mut log = ChatLog::new("t".to_string());
    log.interactions = vec![user.clone(), ai.clone(), user.clone(), ai.clone(), err.clone()];
    truncate_after_last_user(&mut log);
    assert_eq!(log.interactions, vec![user.clone(), ai.clone(), user.clone()]);
    let once = log.clone();
    truncate_after_last_user(&mut log);
    assert_eq!(log, once);
}

#[test]
fn truncate_leaves_a_log_without_user_turns() {
    let t = at("2023-01-01T12:00:00Z");
    let ai = Interaction::Ai { content: "a".to_string(), created_at: t };
    let mut log = ChatLog::new("t".to_string());
    log.interactions = vec![ai.clone(), ai.clone()];
    let before = log.clone();
    truncate_after_last_user(&mut log);
    assert_eq!(log, before);
}

#[test]
fn roundtrip_keeps_blank_and_indented_content_lines() {
    let text = "::>uuid: 550e8400-e29b-41d4-a716-446655440000\n::>title:\n::>system:\n  indented\n \n\n::>created_at: 2016-12-31T23:59:60Z\n::>user:\n  code\n\t\n::>user: not a tag\n\n\n::>response: \n";
    let now = at("2000-01-01T00:00:00Z");
    let log = parse_chat_text(text, now).unwrap();
    assert_eq!(log.title, "");
    assert_eq!(log.system_prompt.as_deref(), Some("\n  indented"));
    assert_eq!(log.interactions.len(), 2);
    let again = parse_chat_text(&format_chat_log(&log), at("2011-01-01T00:00:00Z")).unwrap();
    assert_eq!(again.interactions.len(), 2);
    assert_eq!(again.title, log.title);
    assert_eq!(again.system_prompt, log.system_prompt);
    match (&log.interactions[0], &again.interactions[0]) {
        (
            Interaction::User { content: a, created_at: ta },
            Interaction::User { content: b, created_at: tb },
        ) => {
            assert_eq!(a, "\n  code\n\t\n::>user: not a tag");
            assert_eq!(a, b);
            assert_eq!(ta, tb);
        }
        _ => panic!("expected two user turns"),
    }
}

#[test]
fn a_log_whose_times_read_back_is_written_as_it_was_read() {
    let text = "::>uuid: 550e8400-e29b-41d4-a716-446655440000\n::>status: done\n::>system: s\n\n::>created_at: 2023-01-01T12:00:00.25Z\n::>attach: a : b\n::>attach: c : d\n::>user: q\n\n::>created_at: 1999-12-31T23:59:59-05:00\n::>error: e\n";
    let log = parse_chat_text(text, at("2000-01-01T00:00:00Z")).unwrap();
    assert!(check_times_read_back(&log));
    let written = format_chat_log(&log);
    assert_eq!(parse_chat_text(&written, at("2010-01-01T00:00:00Z")).unwrap(), log);
    assert_eq!(format_chat_log(&parse_chat_text(&written, at("2010-01-01T00:00:00Z")).unwrap()), written);
}

#[test]
fn a_time_out_of_range_breaks_the_round_trip() {
    let text = "::>uuid: 550e8400-e29b-41d4-a716-446655440000\n\n::>created_at: 0000-01-01T00:00:00+01:00\n::>user: q\n";
    let now = at("2000-01-01T00:00:00Z");
    let log = parse_chat_text(text, now).unwrap();
    assert!(!check_times_read_back(&log));
    let again = parse_chat_text(&format_chat_log(&log), now).unwrap();
    assert_ne!(again, log);
    assert_eq!(again.interactions, vec![Interaction::User { content: "q".to_string(), created_at: now }]);
}

#[test]
fn block_positions_are_the_lines_of_the_turn_tags() {
    let text = "::>uuid: x\n\n::>created_at: t\n::>user: a\nmore\n\n::>response: b\n\n::>error: c\n ::>user: indented\n";
    assert_eq!(block_positions(text), vec![3, 6, 8]);
    assert_eq!(block_positions(""), Vec::<usize>::new());
}

#[test]
fn attachments_of_a_block_without_a_turn_wait_for_the_next_turn() {
    let text = "::>uuid: 550e8400-e29b-41d4-a716-446655440000\n\n::>attach: a.png : image/png\n\n::>created_at: 2023-01-01T12:00:00Z\n::>attach: b.txt : text/plain\n::>attach: malformed\n::>user: see both\n";
    let log = parse_chat_text(text, at("2000-01-01T00:00:00Z")).unwrap();
    assert_eq!(
        log.interactions,
        vec![
            Interaction::Attachment { filename: "a.png".to_string(), mime_type: "image/png".to_string() },
            Interaction::Attachment { filename: "b.txt".to_string(), mime_type: "text/plain".to_string() },
            Interaction::User { content: "see both".to_string(), created_at: at("2023-01-01T12:00:00Z") },
        ]
    );
    let again = parse_chat_text(&format_chat_log(&log), at("2011-01-01T00:00:00Z")).unwrap();
    assert_eq!(again, log);
}

#[test]
fn parse_refuses_attachments_without_a_turn_after_them() {
    let text = "::>uuid: 550e8400-e29b-41d4-a716-446655440000\n\n::>user: q\n\n::>attach: a.png : image/png\n";
    let r = parse_chat_text(text, at("2000-01-01T00:00:00Z"));
    assert!(matches!(r, Err(aicli::error::AppError::ParseError(_))));
}
