use aicli::config::AiServerDetail;
use aicli::config::ConcurrencyConfig;
use aicli::config::Config;
use aicli::config::DatabaseConfig;
use aicli::config::ModelEntry;
use aicli::config::NamedServer;
use aicli::config::ServerConfig;
use aicli::config::StorageConfig;
use aicli::error::AppError;
use aicli::gateway::create_client;
use aicli::gateway::AiMessage;
use aicli::gateway::OpenAiClient;
use aicli::ids::Uuid;
use aicli::protocol::parse_chat_text;
use aicli::task::status_after_all;
use aicli::task::AiTask;
use aicli::task::TaskEvent;
use aicli::task::TaskRow;
use aicli::task::TaskStatus;
use aicli::time::Timestamp;
use aicli::types::ChatLog;
use aicli::types::Interaction;
use aicli::worker::convert_chat_log_to_ai_messages;
use aicli::worker::finish_task;
use aicli::worker::prepare_task;
use aicli::worker::WorkerPool;

const ID: &str = "550e8400-e29b-41d4-a716-446655440000";

fn at(secs: i64) -> Timestamp {
    Timestamp::from_unix(secs, 0).unwrap()
}

fn server(name: &str, server_type: &str, models: &[(&str, &str)]) -> NamedServer {
    NamedServer {
        name: name.to_string(),
        detail: AiServerDetail {
            server_type: server_type.to_string(),
            url: format!("https://{name}.example/v1"),
            token: format!("{name}-token"),
            model_list: models
                .iter()
                .map(|(d, m)| ModelEntry { display_name: d.to_string(), model: m.to_string() })
                .collect(),
        },
    }
}

fn config() -> Config {
    Config {
        server: ServerConfig {
            servers: vec![
                server("openai", "openai", &[("gpt", "gpt-4o"), ("mini", "gpt-4o-mini")]),
                server("deepseek", "openai", &[("chat", "deepseek-chat")]),
                server("gem", "gemini", &[("pro", "gemini-pro")]),
            ],
            default: "deepseek:chat".to_string(),
            ssl_cert: None,
            ssl_key: None,
        },
        database: DatabaseConfig { path: "data/db.sqlite".to_string() },
        storage: StorageConfig {
            chat_dir: "data/chats".to_string(),
            attachment_dir: "data/attachments".to_string(),
        },
        concurrency: ConcurrencyConfig { max_concurrent_tasks: 2 },
    }
}

fn message(role: &str, content: &str) -> AiMessage {
    AiMessage { role: role.to_string(), content: content.to_string() }
}

#[test]
fn a_submitted_prompt_gets_exactly_one_response_block() {
    let text = format!("::>uuid: {ID}\n::>title: Demo\n\n::>created_at: 2023-01-01T12:00:00Z\n::>user: Hello\n");
    let plan = prepare_task(&text, &config(), at(5)).unwrap();
    assert_eq!(plan.messages, vec![message("user", "Hello")]);
    assert_eq!(plan.client.model, "deepseek-chat");
    let mut log = plan.log;
    let outcome = finish_task(&mut log, Ok("Hi there.".to_string()), at(1672574460));
    assert_eq!(outcome.event, TaskEvent::Succeed);
    assert_eq!(outcome.error_message, None);
    assert_eq!(log.status.as_deref(), Some("completed"));
    assert_eq!(log.interactions.len(), 2);
    assert_eq!(
        outcome.transcript,
        format!("::>uuid: {ID}\n::>title: Demo\n::>status: completed\n::>model: deepseek:chat\n\n\n::>created_at: 2023-01-01T12:00:00+00:00\n::>user: Hello\n\n::>created_at: 2023-01-01T12:01:00+00:00\n::>response: Hi there.\n")
    );
    assert_eq!(outcome.transcript.matches("::>response:").count(), 1);
    let mut row = TaskRow::new(&log, "127.0.0.1", at(1));
    assert!(row.apply(TaskEvent::Start, None, at(2)));
    assert!(row.apply(outcome.event, outcome.error_message, at(3)));
    assert_eq!(row.status, TaskStatus::Completed);
}

#[test]
fn a_resent_transcript_is_cut_after_its_last_user_turn() {
    let text = format!("::>uuid: {ID}\n::>system: Be brief.\n\n::>user: one\n\n::>response: two\n\n::>error: three\n\n::>attach: f : m\n::>user: four\n\n::>response: stale\n\n::>error: stale too\n");
    let now = at(9);
    let plan = prepare_task(&text, &config(), now).unwrap();
    let full = parse_chat_text(&text, now).unwrap();
    assert_eq!(plan.log.interactions, full.interactions[..5].to_vec());
    assert!(matches!(plan.log.interactions.last(), Some(Interaction::User { content, .. }) if content == "four"));
    assert_eq!(
        plan.messages,
        vec![
            message("system", "Be brief."),
            message("user", "one"),
            message("assistant", "two"),
            message("user", "four"),
        ]
    );
}

#[test]
fn a_failed_call_is_recorded_as_an_error_entry() {
    let text = format!("::>uuid: {ID}\n\n::>created_at: 2023-01-01T12:00:00Z\n::>user: Hello\n");
    let plan = prepare_task(&text, &config(), at(5)).unwrap();
    let mut log = plan.log;
    let before = log.interactions.clone();
    let failure = AppError::AiServiceError("upstream timed out".to_string());
    let outcome = finish_task(&mut log, Err(failure), at(1672574460));
    assert_eq!(outcome.event, TaskEvent::Fail);
    assert_eq!(outcome.error_message.as_deref(), Some("AI service error: upstream timed out"));
    assert_eq!(log.status.as_deref(), Some("failed"));
    assert_eq!(&log.interactions[..1], &before[..]);
    assert_eq!(
        log.interactions[1],
        Interaction::Error {
            reason: "AI service error: upstream timed out".to_string(),
            created_at: at(1672574460),
        }
    );
    assert!(outcome.transcript.ends_with("\n\n::>created_at: 2023-01-01T12:01:00+00:00\n::>error: AI service error: upstream timed out\n"));
}

#[test]
fn a_task_that_cannot_be_sent_fails_early() {
    assert!(matches!(prepare_task("no transcript", &config(), at(1)), Err(AppError::ParseError(_))));
    let unknown = format!("::>uuid: {ID}\n::>model: nowhere:chat\n\n::>user: Hello\n");
    assert!(matches!(prepare_task(&unknown, &config(), at(1)), Err(AppError::ConfigError(_))));
    let nothing = format!("::>uuid: {ID}\n\n::>error: only an error\n");
    assert!(matches!(prepare_task(&nothing, &config(), at(1)), Err(AppError::AiServiceError(_))));
    let no_messages_but_bad_model = format!("::>uuid: {ID}\n::>model: bad\n");
    assert!(matches!(
        prepare_task(&no_messages_but_bad_model, &config(), at(1)),
        Err(AppError::ConfigError(_))
    ));
}

#[test]
fn a_system_prompt_alone_is_something_to_send() {
    let text = format!("::>uuid: {ID}\n::>model: openai:mini\n::>system: Say hello.\n");
    let plan = prepare_task(&text, &config(), at(1)).unwrap();
    assert_eq!(plan.messages, vec![message("system", "Say hello.")]);
    assert_eq!(
        plan.client,
        OpenAiClient {
            api_url: "https://openai.example/v1".to_string(),
            api_key: "openai-token".to_string(),
            model: "gpt-4o-mini".to_string(),
        }
    );
}

#[test]
fn errors_and_attachments_are_never_sent() {
    let t = at(1);
    let mut log = ChatLog::new("t".to_string());
    log.interactions = vec![
        Interaction::Attachment { filename: "f".to_string(), mime_type: "m".to_string() },
        Interaction::User { content: "q".to_string(), created_at: t },
        Interaction::Error { reason: "e".to_string(), created_at: t },
        Interaction::Ai { content: "a".to_string(), created_at: t },
    ];
    assert_eq!(
        convert_chat_log_to_ai_messages(&log),
        vec![message("user", "q"), message("assistant", "a")]
    );
    log.interactions.clear();
    assert_eq!(convert_chat_log_to_ai_messages(&log), vec![]);
}

#[test]
fn a_model_identifier_names_a_server_and_a_model() {
    let c = config();
    assert_eq!(create_client(&c, "openai:gpt").unwrap().model, "gpt-4o");
    assert_eq!(create_client(&c, "deepseek:chat").unwrap().api_url, "https://deepseek.example/v1");
    for bad in ["openai", "", ":gpt", "openai:", "openai:nope", "nope:gpt", "gem:pro", "openai:gpt:x"] {
        assert!(matches!(create_client(&c, bad), Err(AppError::ConfigError(_))), "{bad}");
    }
}

#[test]
fn the_models_on_offer_are_sorted_with_the_default_first() {
    let mut c = config();
    assert_eq!(c.model_names(), vec!["openai:gpt", "openai:mini", "deepseek:chat", "gem:pro"]);
    c.server.default = "openai:gpt".to_string();
    assert_eq!(c.available_models(), vec!["openai:gpt", "deepseek:chat", "gem:pro", "openai:mini"]);
    c.server.default = "not:there".to_string();
    assert_eq!(c.available_models(), vec!["deepseek:chat", "gem:pro", "openai:gpt", "openai:mini"]);
}

#[test]
fn the_request_body_lists_model_and_messages() {
    let client = OpenAiClient::new("https://x/v1", "key", "gpt-4o");
    assert_eq!(
        client.request_body(&vec![message("system", "Be \"brief\"."), message("user", "a\nb")]),
        "{\"model\":\"gpt-4o\",\"messages\":[{\"role\":\"system\",\"content\":\"Be \\\"brief\\\".\"},{\"role\":\"user\",\"content\":\"a\\nb\"}]}"
    );
    assert_eq!(client.request_body(&vec![]), "{\"model\":\"gpt-4o\",\"messages\":[]}");
    let parsed: serde_json::Value =
        serde_json::from_str(&client.request_body(&vec![message("user", "hi")])).unwrap();
    assert_eq!(parsed["messages"][0]["content"], "hi");
}

#[test]
fn the_answer_is_the_first_choice_of_the_response() {
    let body = b"{\"choices\":[{\"message\":{\"content\":\"first\"}},{\"message\":{\"content\":\"second\"}}]}";
    assert_eq!(OpenAiClient::read_response(true, "200 OK", body), Ok("first".to_string()));
    assert_eq!(
        OpenAiClient::read_response(false, "429 Too Many Requests", b"slow down"),
        Err(AppError::AiServiceError(
            "API request failed with status 429 Too Many Requests: slow down".to_string()
        ))
    );
    assert_eq!(
        OpenAiClient::read_response(true, "200 OK", b"{\"choices\":[]}"),
        Err(AppError::AiServiceError("No content in AI response".to_string()))
    );
    assert!(matches!(
        OpenAiClient::read_response(true, "200 OK", b"<html>"),
        Err(AppError::AiServiceError(_))
    ));
}

#[test]
fn a_task_moves_forward_only() {
    let (start, succeed, fail, resend) =
        (TaskEvent::Start, TaskEvent::Succeed, TaskEvent::Fail, TaskEvent::Resend);
    let (pending, processing, completed, failed) =
        (TaskStatus::Pending, TaskStatus::Processing, TaskStatus::Completed, TaskStatus::Failed);
    let table = [
        (pending, start, Some(processing)),
        (pending, succeed, None),
        (pending, fail, Some(failed)),
        (processing, start, None),
        (processing, succeed, Some(completed)),
        (processing, fail, Some(failed)),
        (completed, start, None),
        (completed, succeed, None),
        (completed, fail, None),
        (failed, start, None),
        (failed, succeed, None),
        (failed, fail, None),
    ];
    for (status, event, next) in table {
        assert_eq!(status.next(event), next);
    }
    for status in [pending, processing, completed, failed] {
        assert_eq!(status.next(resend), Some(pending));
    }
    assert_eq!(status_after_all(pending, &[start, start, succeed, fail, start]), completed);
    assert_eq!(status_after_all(pending, &[start, fail, succeed]), failed);
    assert_eq!(status_after_all(failed, &[start, resend, start]), processing);
}

#[test]
fn statuses_have_their_stored_names() {
    for (status, name) in [
        (TaskStatus::Pending, "pending"),
        (TaskStatus::Processing, "processing"),
        (TaskStatus::Completed, "completed"),
        (TaskStatus::Failed, "failed"),
    ] {
        assert_eq!(status.as_str(), name);
        assert_eq!(TaskStatus::from_name(name), Some(status));
    }
    assert_eq!(TaskStatus::from_name("Pending"), None);
    assert_eq!(TaskStatus::from_name(""), None);
}

#[test]
fn a_row_keeps_the_times_of_its_moves() {
    let mut log = ChatLog::new("Title".to_string());
    log.uuid = Uuid::from_u128(7);
    let mut row = TaskRow::new(&log, "10.0.0.1", at(100));
    assert_eq!(
        row,
        TaskRow {
            uuid: Uuid::from_u128(7),
            title: "Title".to_string(),
            client_ip: "10.0.0.1".to_string(),
            status: TaskStatus::Pending,
            model_used: String::new(),
            created_at: at(100),
            processing_at: None,
            finished_at: None,
            error_message: None,
        }
    );
    assert_eq!(row.last_change(), at(100));
    assert!(!row.apply(TaskEvent::Succeed, None, at(101)));
    assert_eq!(row.status, TaskStatus::Pending);
    assert!(row.apply(TaskEvent::Start, None, at(102)));
    assert_eq!((row.status, row.processing_at, row.finished_at), (TaskStatus::Processing, Some(at(102)), None));
    assert_eq!(row.last_change(), at(102));
    assert!(row.apply(TaskEvent::Fail, Some("boom".to_string()), at(103)));
    assert_eq!((row.status, row.finished_at), (TaskStatus::Failed, Some(at(103))));
    assert_eq!(row.last_change(), at(103));
    assert_eq!(row.error_message.as_deref(), Some("boom"));
    assert!(!row.apply(TaskEvent::Start, None, at(104)));
    assert!(row.apply(TaskEvent::Resend, None, at(105)));
    assert_eq!((row.status, row.error_message.clone()), (TaskStatus::Pending, None));
    assert_eq!((row.processing_at, row.finished_at), (Some(at(102)), Some(at(103))));
    log.model = Some("openai:gpt".to_string());
    assert_eq!(TaskRow::new(&log, "", at(1)).model_used, "openai:gpt");
}

fn task(n: u128) -> AiTask {
    AiTask { uuid: Uuid::from_u128(n), client_ip: "ip".to_string(), username: "u".to_string() }
}

#[test]
fn never_more_tasks_run_than_the_pool_allows() {
    let limit = 3;
    let mut pool = WorkerPool::new(limit);
    let mut started = Vec::new();
    let mut most = 0;
    for n in 0..10 {
        let (next, start) = pool.submit(task(n));
        pool = next;
        started.extend(start);
        assert!(pool.running() <= limit);
        most = most.max(pool.running());
    }
    assert_eq!(most, limit);
    assert_eq!(started, vec![task(0), task(1), task(2)]);
    assert_eq!((pool.running(), pool.waiting()), (3, 7));
    for n in 3..10 {
        let (next, start) = pool.finish();
        pool = next;
        assert_eq!(start, Some(task(n)));
        assert_eq!(pool.running(), limit);
    }
    for left in (0..3).rev() {
        let (next, start) = pool.finish();
        pool = next;
        assert_eq!(start, None);
        assert_eq!((pool.running(), pool.waiting()), (left, 0));
    }
    let (pool, start) = pool.finish();
    assert_eq!((start, pool.running(), pool.limit()), (None, 0, 3));
}

#[test]
fn a_pool_without_slots_starts_nothing() {
    let (pool, start) = WorkerPool::new(0).submit(task(1));
    assert_eq!((start, pool.running(), pool.waiting()), (None, 0, 1));
}
