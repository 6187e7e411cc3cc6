use aicli::ids::Uuid;
use aicli::protocol::format_chat_log;
use aicli::protocol::parse_chat_text;
use aicli::time::Timestamp;
use aicli::types::ChatLog;
use aicli::types::Interaction;

/// The reader written with the string tools of the standard library: the
/// header ends at the first blank line that a tag follows, the body is split
/// at blank lines.
fn read_with_std(content: &str, now: Timestamp) -> Option<ChatLog> {
    let (header, body) = match content.find("\n\n::>") {
        Some(pos) => {
            let (h, b) = content.split_at(pos);
            (h, b.trim_start())
        }
        None => (content.trim(), ""),
    };

    let mut uuid = None;
    let mut title = "Untitled".to_string();
    let mut model = None;
    let mut status = Some("local".to_string());
    let mut prompt: Option<Vec<&str>> = None;
    let mut in_prompt = false;
    for line in header.split('\n') {
        if line.is_empty() {
            continue;
        }
        if line.starts_with("::>") {
            in_prompt = false;
            if let Some(v) = line.strip_prefix("::>uuid:") {
                uuid = Some(Uuid::parse_str(v.trim())?);
            } else if let Some(v) = line.strip_prefix("::>title:") {
                title = v.trim().to_string();
            } else if let Some(v) = line.strip_prefix("::>model:") {
                model = Some(v.trim().to_string());
            } else if let Some(v) = line.strip_prefix("::>status:") {
                status = Some(v.trim().to_string());
            } else if let Some(v) = line.strip_prefix("::>system:") {
                prompt = Some(vec![v.trim_start()]);
                in_prompt = true;
            }
        } else if in_prompt {
            if let Some(lines) = prompt.as_mut() {
                lines.push(line);
            }
        }
    }

    let mut interactions = Vec::new();
    let mut waiting = Vec::new();
    if !body.is_empty() {
        for block in body.split("\n\n") {
            let mut created = None;
            let mut kind = None;
            let mut lines: Vec<&str> = Vec::new();
            let mut stray = false;
            for line in block.split('\n') {
                if kind.is_some() {
                    lines.push(line);
                } else if let Some(v) = line.strip_prefix("::>created_at:") {
                    created = Some(Timestamp::parse_rfc3339(v.trim()).unwrap_or(now));
                } else if let Some(v) = line.strip_prefix("::>attach:") {
                    let parts: Vec<&str> = v.split(':').map(str::trim).collect();
                    if parts.len() == 2 {
                        waiting.push(Interaction::Attachment {
                            filename: parts[0].to_string(),
                            mime_type: parts[1].to_string(),
                        });
                    }
                } else if let Some(v) = line.strip_prefix("::>user:") {
                    kind = Some(0);
                    lines.push(v.trim_start());
                } else if let Some(v) = line.strip_prefix("::>response:") {
                    kind = Some(1);
                    lines.push(v.trim_start());
                } else if let Some(v) = line.strip_prefix("::>error:") {
                    kind = Some(2);
                    lines.push(v.trim_start());
                } else if !line.trim().is_empty() {
                    stray = true;
                }
            }
            let content = lines.join("\n").trim_end().to_string();
            let created_at = created.unwrap_or(now);
            let turn = match kind {
                Some(0) => Interaction::User { content, created_at },
                Some(1) => Interaction::Ai { content, created_at },
                Some(_) => Interaction::Error { reason: content, created_at },
                None if stray => return None,
                None => continue,
            };
            interactions.append(&mut waiting);
            interactions.push(turn);
        }
    }
    if !waiting.is_empty() {
        return None;
    }
    Some(ChatLog {
        uuid: uuid?,
        title,
        model,
        status,
        system_prompt: prompt.map(|lines| lines.join("\n").trim_end().to_string()),
        interactions,
    })
}

const TOKENS: [&str; 10] = [
    "\n",
    "\n",
    "::>uuid: 550e8400-e29b-41d4-a716-446655440000",
    "::>system: s ",
    "::>user: u ",
    "::>attach: a : b",
    "::>created_at: 2023-01-01T12:00:00Z",
    "x",
    " ",
    "::>title: t",
];

fn compare_all(length: usize, tokens: &[&str]) -> usize {
    let now = Timestamp::from_unix(1_000_000_000, 0).unwrap();
    let later = Timestamp::from_unix(1_000_000_001, 0).unwrap();
    let mut accepted = 0;
    let mut choice = vec![0usize; length];
    loop {
        let text: String = choice.iter().map(|&i| tokens[i]).collect();
        let expected = read_with_std(&text, now);
        let read = parse_chat_text(&text, now).ok();
        assert_eq!(read, expected, "{text:?}");
        if let Some(log) = read {
            accepted += 1;
            let written = format_chat_log(&log);
            assert_eq!(parse_chat_text(&written, later).ok(), Some(log), "{text:?}");
        }
        let mut at = 0;
        while at < length {
            choice[at] += 1;
            if choice[at] < tokens.len() {
                break;
            }
            choice[at] = 0;
            at += 1;
        }
        if at == length {
            return accepted;
        }
    }
}

#[test]
fn the_reader_agrees_with_the_standard_string_tools_on_short_texts() {
    let mut accepted = 0;
    for length in 0..=4 {
        accepted += compare_all(length, &TOKENS);
    }
    assert!(accepted > 100);
}

#[test]
fn the_reader_agrees_with_the_standard_string_tools_on_bodies() {
    let head = "::>uuid: 550e8400-e29b-41d4-a716-446655440000\n\n::>user: first";
    let tokens = ["\n", "\n", "::>response: r", "::>attach: a : b", "::>attach: c", "y ", "", "::>created_at: later"];
    let now = Timestamp::from_unix(1_000_000_000, 0).unwrap();
    let mut accepted = 0;
    let mut choice = [0usize; 5];
    loop {
        let mut text = head.to_string();
        for &i in &choice {
            text.push_str(tokens[i]);
        }
        let expected = read_with_std(&text, now);
        let read = parse_chat_text(&text, now).ok();
        assert_eq!(read, expected, "{text:?}");
        if let Some(log) = read {
            accepted += 1;
            assert_eq!(parse_chat_text(&format_chat_log(&log), now).ok(), Some(log), "{text:?}");
        }
        let mut at = 0;
        while at < choice.len() {
            choice[at] += 1;
            if choice[at] < tokens.len() {
                break;
            }
            choice[at] = 0;
            at += 1;
        }
        if at == choice.len() {
            break;
        }
    }
    assert!(accepted > 1000);
}
