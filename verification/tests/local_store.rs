use aicli::error::AppError;
use aicli::ids::Uuid;
use aicli::local_store::creation_time_or;
use aicli::local_store::may_resend;
use aicli::local_store::sync_decision;
use aicli::local_store::LocalSessionInfo;
use aicli::local_store::LocalStore;
use aicli::local_store::RemoteTask;
use aicli::local_store::SyncAction;
use aicli::local_store::SyncStatus;
use aicli::log_view::LogEntry;
use aicli::log_view::LogLevel;
use aicli::log_view::LogView;
use aicli::sorting::chars_le;
use aicli::sorting::sort_strings;
use aicli::time::Timestamp;
use aicli::types::ChatLog;
use aicli::types::Interaction;
use aicli::users::public_key_from_file;
use aicli::users::User;

fn at(secs: i64) -> Timestamp {
    Timestamp::from_unix(secs, 0).unwrap()
}

fn log(id: u128, title: &str) -> ChatLog {
    let mut log = ChatLog::new(title.to_string());
    log.uuid = Uuid::from_u128(id);
    log
}

fn remote(id: u128, status: &str, error: Option<&str>) -> RemoteTask {
    RemoteTask {
        uuid: Uuid::from_u128(id),
        title: "remote title".to_string(),
        status: status.to_string(),
        created_at: at(1),
        updated_at: Some(at(50)),
        error_message: error.map(str::to_string),
    }
}

fn store_with(statuses: &[(u128, SyncStatus)]) -> LocalStore {
    let mut store = LocalStore::new();
    for (id, status) in statuses {
        store.save_session(&log(*id, "t"), *status, at(10), at(*id as i64));
    }
    store
}

#[test]
fn saving_adds_a_session_once_and_updates_it_after() {
    let mut store = LocalStore::new();
    store.save_session(&log(1, "first"), SyncStatus::Local, at(10), at(5));
    assert_eq!(
        store.index,
        vec![LocalSessionInfo {
            uuid: Uuid::from_u128(1),
            title: "first".to_string(),
            created_at: at(5),
            updated_at: at(10),
            sync_status: SyncStatus::Local,
            remote_status: None,
        }]
    );
    store.update_session_status(Uuid::from_u128(1), SyncStatus::Pending, Some("pending".to_string())).unwrap();
    store.save_session(&log(1, "renamed"), SyncStatus::Modified, at(20), at(99));
    assert_eq!(store.index.len(), 1);
    let info = &store.index[0];
    assert_eq!((info.title.as_str(), info.created_at, info.updated_at), ("renamed", at(5), at(20)));
    assert_eq!(info.sync_status, SyncStatus::Modified);
    assert_eq!(info.remote_status.as_deref(), Some("pending"));
    assert!(store.is_wf());
}

#[test]
fn a_refresh_maps_the_server_status() {
    let mut store = store_with(&[
        (1, SyncStatus::Pending),
        (2, SyncStatus::Pending),
        (3, SyncStatus::Pending),
        (4, SyncStatus::Pending),
        (5, SyncStatus::Done),
    ]);
    let changed = store.update_from_remote_list(&vec![
        remote(1, "pending", None),
        remote(2, "processing", None),
        remote(3, "completed", None),
        remote(4, "failed", Some("boom")),
        remote(5, "archived", None),
        remote(6, "completed", None),
    ]);
    assert!(changed);
    let seen: Vec<(SyncStatus, Option<&str>)> =
        store.index.iter().map(|i| (i.sync_status, i.remote_status.as_deref())).collect();
    assert_eq!(
        seen,
        vec![
            (SyncStatus::Pending, Some("pending")),
            (SyncStatus::Processing, Some("processing")),
            (SyncStatus::Done, Some("completed")),
            (SyncStatus::Failed, Some("failed: boom")),
            (SyncStatus::Done, Some("archived")),
        ]
    );
    assert!(!store.update_from_remote_list(&vec![remote(2, "processing", None)]));
}

#[test]
fn a_refresh_never_touches_unsent_edits() {
    for status in [SyncStatus::Local, SyncStatus::Modified] {
        let mut store = store_with(&[(1, status)]);
        let before = store.index.clone();
        assert!(!store.update_from_remote_list(&vec![remote(1, "completed", None)]));
        assert_eq!(store.index, before);
    }
}

#[test]
fn the_status_of_an_unknown_session_cannot_be_set() {
    let mut store = store_with(&[(1, SyncStatus::Local)]);
    let before = store.index.clone();
    assert!(matches!(
        store.update_session_status(Uuid::from_u128(2), SyncStatus::Pending, None),
        Err(AppError::ParseError(_))
    ));
    assert_eq!(store.index, before);
    assert!(matches!(store.require(Uuid::from_u128(2)), Err(AppError::ParseError(_))));
    assert_eq!(store.require(Uuid::from_u128(1)), Ok(0));
    store.update_session_status(Uuid::from_u128(1), SyncStatus::Pending, None).unwrap();
    assert_eq!((store.index[0].sync_status, store.index[0].remote_status.clone()), (SyncStatus::Pending, None));
}

#[test]
fn deleting_forgets_one_session() {
    let mut store = store_with(&[(1, SyncStatus::Local), (2, SyncStatus::Done), (3, SyncStatus::Failed)]);
    store.delete_session(Uuid::from_u128(2));
    assert_eq!(store.index.iter().map(|i| i.uuid.value).collect::<Vec<_>>(), vec![1, 3]);
    store.delete_session(Uuid::from_u128(2));
    assert_eq!(store.index.len(), 2);
    assert_eq!(store.find(Uuid::from_u128(3)), Some(1));
    assert_eq!(store.find(Uuid::from_u128(2)), None);
}

#[test]
fn sessions_are_listed_newest_first() {
    let store = store_with(&[(3, SyncStatus::Local), (9, SyncStatus::Local), (1, SyncStatus::Local), (5, SyncStatus::Local)]);
    let listed: Vec<u128> = store.list_sessions().iter().map(|i| i.uuid.value).collect();
    assert_eq!(listed, vec![9, 5, 3, 1]);
    assert!(LocalStore::new().list_sessions().is_empty());
}

#[test]
fn a_doubled_identifier_is_noticed() {
    let mut store = store_with(&[(1, SyncStatus::Local), (2, SyncStatus::Local)]);
    assert!(store.is_wf());
    let copy = store.index[0].clone();
    store.index.push(copy);
    assert!(!store.is_wf());
}

#[test]
fn local_writes_make_a_session_local_or_modified() {
    assert_eq!(SyncStatus::after_local_write(false), SyncStatus::Local);
    assert_eq!(SyncStatus::after_local_write(true), SyncStatus::Modified);
    assert_eq!(SyncStatus::after_upload(), SyncStatus::Pending);
    assert_eq!(SyncStatus::after_download(false), SyncStatus::Finish);
    assert_eq!(SyncStatus::after_download(true), SyncStatus::Failed);
    assert_eq!(SyncStatus::Done.from_remote("completed"), SyncStatus::Done);
    assert_eq!(SyncStatus::Done.from_remote("pending"), SyncStatus::Pending);
    assert_eq!(SyncStatus::Conflict.from_remote("unknown"), SyncStatus::Conflict);
}

#[test]
fn a_new_session_starts_with_a_placeholder_prompt() {
    let mut store = LocalStore::new();
    let log = store.create_new_template("Plan".to_string(), at(7));
    assert_eq!(log.title, "Plan");
    assert_eq!(log.status.as_deref(), Some("local"));
    assert_eq!(
        log.interactions,
        vec![Interaction::User { content: "Replace this with your prompt.".to_string(), created_at: at(7) }]
    );
    assert_eq!(store.index.len(), 1);
    let info = &store.index[0];
    assert_eq!((info.uuid, info.sync_status, info.created_at, info.updated_at), (log.uuid, SyncStatus::Local, at(7), at(7)));
}

#[test]
fn appending_and_preparing_mark_a_session_modified() {
    let mut store = LocalStore::new();
    let mut log = store.create_new_template("Plan".to_string(), at(7));
    store.update_session_status(log.uuid, SyncStatus::Finish, None).unwrap();
    log.interactions.push(Interaction::Ai { content: "answer".to_string(), created_at: at(8) });
    let log = store.append_prompt(log, "next".to_string(), at(9));
    assert_eq!(log.interactions.len(), 3);
    assert_eq!(log.interactions[2], Interaction::User { content: "next".to_string(), created_at: at(9) });
    assert_eq!((store.index[0].sync_status, store.index[0].updated_at), (SyncStatus::Modified, at(9)));
    let mut log = log;
    log.interactions.push(Interaction::Error { reason: "stale".to_string(), created_at: at(10) });
    store.update_session_status(log.uuid, SyncStatus::Failed, None).unwrap();
    let log = store.prepare_for_run(log, at(11));
    assert_eq!(log.interactions.len(), 3);
    assert_eq!((store.index[0].sync_status, store.index[0].updated_at), (SyncStatus::Modified, at(11)));
    assert_eq!(store.index[0].created_at, at(7));
}

#[test]
fn a_download_finishes_a_session_or_fails_it() {
    let text = "::>uuid: 00000000-0000-0000-0000-000000000004\n::>title: Fetched\n\n::>created_at: 1970-01-01T00:00:03Z\n::>user: q\n";
    let mut store = LocalStore::new();
    let log = store.update_from_remote(text, &remote(4, "completed", None), at(60)).unwrap();
    assert_eq!(log.uuid, Uuid::from_u128(4));
    assert_eq!(
        store.index,
        vec![LocalSessionInfo {
            uuid: Uuid::from_u128(4),
            title: "Fetched".to_string(),
            created_at: at(3),
            updated_at: at(50),
            sync_status: SyncStatus::Finish,
            remote_status: None,
        }]
    );
    store.update_from_remote(text, &remote(4, "failed", None), at(60)).unwrap();
    assert_eq!(store.index[0].sync_status, SyncStatus::Failed);
    let mut task = remote(4, "completed", Some("boom"));
    task.updated_at = None;
    store.update_from_remote(text, &task, at(61)).unwrap();
    assert_eq!((store.index[0].sync_status, store.index[0].updated_at), (SyncStatus::Failed, at(61)));
    let before = store.index.clone();
    assert!(matches!(
        store.update_from_remote("garbage", &remote(4, "completed", None), at(62)),
        Err(AppError::ParseError(_))
    ));
    assert_eq!(store.index, before);
}

#[test]
fn the_newer_side_wins_a_sync() {
    assert_eq!(sync_decision(Some(at(2)), Some(at(1))), Ok(SyncAction::Upload));
    assert_eq!(sync_decision(Some(at(1)), Some(at(2))), Ok(SyncAction::Download));
    assert_eq!(sync_decision(Some(at(1)), Some(at(1))), Ok(SyncAction::Nothing));
    assert_eq!(sync_decision(Some(at(1)), None), Ok(SyncAction::Upload));
    assert_eq!(sync_decision(None, Some(at(1))), Ok(SyncAction::Download));
    assert!(matches!(sync_decision(None, None), Err(AppError::NetworkError(_))));
    let early = Timestamp::from_unix(1, 5).unwrap();
    let late = Timestamp::from_unix(1, 6).unwrap();
    assert_eq!(sync_decision(Some(late), Some(early)), Ok(SyncAction::Upload));
}

#[test]
fn only_failed_sessions_are_resent() {
    let mut store = store_with(&[(1, SyncStatus::Failed), (2, SyncStatus::Done), (3, SyncStatus::Pending)]);
    store.index[2].remote_status = Some("failed: boom".to_string());
    store.index[1].remote_status = Some("not failed".to_string());
    assert!(may_resend(&store.index[0]));
    assert!(!may_resend(&store.index[1]));
    assert!(may_resend(&store.index[2]));
}

#[test]
fn the_creation_time_is_that_of_the_first_turn() {
    let mut l = log(1, "t");
    assert_eq!(creation_time_or(&l, at(9)), at(9));
    l.interactions.push(Interaction::Attachment { filename: "f".to_string(), mime_type: "m".to_string() });
    assert_eq!(creation_time_or(&l, at(9)), at(9));
    l.interactions[0] = Interaction::Error { reason: "e".to_string(), created_at: at(4) };
    assert_eq!(creation_time_or(&l, at(9)), at(4));
    assert_eq!(l.get_creation_time(), at(4));
    assert!(!l.is_finished_correctly());
    l.interactions.push(Interaction::Ai { content: "a".to_string(), created_at: at(5) });
    assert!(l.is_finished_correctly());
    assert!(!log(2, "empty").is_finished_correctly());
}

fn entry(message: &str) -> LogEntry {
    LogEntry { timestamp: "12:00:00".to_string(), level: LogLevel::Info, message: message.to_string() }
}

fn messages(view: &LogView) -> Vec<&str> {
    view.entries.iter().map(|e| e.message.as_str()).collect()
}

#[test]
fn a_log_view_keeps_the_last_entries() {
    let mut view = LogView::new(3);
    assert_eq!(view.max_entries, 3);
    assert!(view.entries.is_empty());
    for m in ["a", "b", "c"] {
        view.add_entry(entry(m));
    }
    assert_eq!(messages(&view), vec!["a", "b", "c"]);
    view.add_entry(entry("d"));
    assert_eq!(messages(&view), vec!["b", "c", "d"]);
    let mut none = LogView::new(0);
    none.add_entry(entry("x"));
    none.add_entry(entry("y"));
    assert_eq!(messages(&none), vec!["y"]);
}

#[test]
fn strings_sort_by_their_characters() {
    let items: Vec<String> = ["b", "ab", "", "a", "B", "abc", "a", "\u{e9}", "z"].iter().map(|s| s.to_string()).collect();
    let mut expected = items.clone();
    expected.sort();
    assert_eq!(sort_strings(&items), expected);
    let chars = |s: &str| s.chars().collect::<Vec<char>>();
    assert!(chars_le(&chars("a"), &chars("ab")));
    assert!(!chars_le(&chars("ab"), &chars("a")));
    assert!(chars_le(&chars("ab"), &chars("ab")));
    assert!(chars_le(&chars("Z"), &chars("a")));
}

#[test]
fn a_public_key_file_is_trimmed_and_must_hold_a_key() {
    assert_eq!(public_key_from_file("  key text \n"), Ok("key text".to_string()));
    assert!(matches!(public_key_from_file(" \n\t"), Err(AppError::ConfigError(_))));
    assert!(matches!(public_key_from_file(""), Err(AppError::ConfigError(_))));
    let mut user = User::new("alice".to_string(), "k1".to_string(), at(1));
    assert_eq!((user.created_at, user.key_modified_at, user.last_seen_at), (at(1), at(1), None));
    user.set_key("k2".to_string(), at(2));
    user.seen(at(3));
    assert_eq!(
        user,
        User {
            username: "alice".to_string(),
            public_key: "k2".to_string(),
            created_at: at(1),
            key_modified_at: at(2),
            last_seen_at: Some(at(3)),
        }
    );
}

#[test]
fn a_session_from_outside_is_registered_once() {
    let mut store = LocalStore::new();
    let mut found = log(8, "found on disk");
    found.interactions.push(Interaction::User { content: "q".to_string(), created_at: at(3) });
    assert!(store.register_external_session(&found, at(20)));
    assert_eq!(
        store.index,
        vec![LocalSessionInfo {
            uuid: Uuid::from_u128(8),
            title: "found on disk".to_string(),
            created_at: at(3),
            updated_at: at(20),
            sync_status: SyncStatus::Local,
            remote_status: None,
        }]
    );
    store.update_session_status(Uuid::from_u128(8), SyncStatus::Done, None).unwrap();
    let before = store.index.clone();
    assert!(!store.register_external_session(&found, at(30)));
    assert_eq!(store.index, before);
}
