//! The client's session index and its sync-state machine. The files
//! themselves are the caller's business; here is what the index says.

use crate::error::AppError;
use crate::ids::Uuid;
use crate::text::chars_of;
use crate::text::has_prefix;
use crate::text::starts_with;
use crate::text::str_eq;
use crate::time::Timestamp;
use crate::protocol::parse_chat_text;
use crate::protocol::parse_spec;
use crate::protocol::truncate_after_last_user;
use crate::protocol::truncate_spec;
use crate::types::ChatLog;
use crate::types::ChatLogView;
use crate::types::Interaction;
use crate::types::InteractionView;
use vstd::seq_lib::to_multiset_build;
use vstd::seq_lib::to_multiset_insert;
use vstd::prelude::*;
use vstd::string::StringExecFns;

verus! {

/// How a local session stands with respect to the server.
#[derive(Debug, Clone, Copy, PartialEq, Eq, Structural)]
pub enum SyncStatus {
    /// Never sent.
    Local,
    /// Edited after it was last sent.
    Modified,
    /// Sent; the server has not taken it up.
    Pending,
    /// The server is working on it.
    Processing,
    /// The server completed it; the result was not fetched yet.
    Done,
    /// The server failed on it.
    Failed,
    /// The result was fetched.
    Finish,
    /// Reserved.
    Conflict,
}

impl SyncStatus {
    /// Whether the session holds local edits that no upload has carried yet.
    pub open spec fn is_unsent(self) -> bool {
        self == SyncStatus::Local || self == SyncStatus::Modified
    }

    /// The status that a server status name maps to in a metadata refresh;
    /// an unknown name leaves `self`.
    pub open spec fn refreshed(self, remote: Seq<char>) -> SyncStatus {
        if remote == "pending"@ {
            SyncStatus::Pending
        } else if remote == "processing"@ {
            SyncStatus::Processing
        } else if remote == "completed"@ {
            SyncStatus::Done
        } else if remote == "failed"@ {
            SyncStatus::Failed
        } else {
            self
        }
    }

    /// The status that a server status name maps to in a metadata refresh.
    pub fn from_remote(self, remote: &str) -> (r: SyncStatus)
        ensures
            r == self.refreshed(remote@),
    {
        if str_eq(remote, "pending") {
            SyncStatus::Pending
        } else if str_eq(remote, "processing") {
            SyncStatus::Processing
        } else if str_eq(remote, "completed") {
            SyncStatus::Done
        } else if str_eq(remote, "failed") {
            SyncStatus::Failed
        } else {
            self
        }
    }

    /// The status after a local write: a new session is local, a write to a
    /// session that exists makes it modified, whatever it was.
    pub fn after_local_write(existed: bool) -> (r: SyncStatus)
        ensures
            r == if existed {
                SyncStatus::Modified
            } else {
                SyncStatus::Local
            },
            r.is_unsent(),
    {
        if existed {
            SyncStatus::Modified
        } else {
            SyncStatus::Local
        }
    }

    /// The status after a successful upload.
    pub fn after_upload() -> (r: SyncStatus)
        ensures
            r == SyncStatus::Pending,
    {
        SyncStatus::Pending
    }

    /// The status after the full content was fetched: failed where the
    /// fetched record carries an error, finished otherwise.
    pub fn after_download(has_error: bool) -> (r: SyncStatus)
        ensures
            r == if has_error {
                SyncStatus::Failed
            } else {
                SyncStatus::Finish
            },
    {
        if has_error {
            SyncStatus::Failed
        } else {
            SyncStatus::Finish
        }
    }
}

/// What the index knows of one session.
#[derive(Debug, Clone, PartialEq, Eq)]
pub struct LocalSessionInfo {
    pub uuid: Uuid,
    pub title: String,
    pub created_at: Timestamp,
    pub updated_at: Timestamp,
    pub sync_status: SyncStatus,
    pub remote_status: Option<String>,
}

/// The mathematical value of a [`LocalSessionInfo`].
pub struct SessionView {
    pub uuid: Uuid,
    pub title: Seq<char>,
    pub created_at: Timestamp,
    pub updated_at: Timestamp,
    pub sync_status: SyncStatus,
    pub remote_status: Option<Seq<char>>,
}

impl View for LocalSessionInfo {
    type V = SessionView;

    open spec fn view(&self) -> SessionView {
        SessionView {
            uuid: self.uuid,
            title: self.title@,
            created_at: self.created_at,
            updated_at: self.updated_at,
            sync_status: self.sync_status,
            remote_status: match self.remote_status {
                Some(s) => Some(s@),
                None => None,
            },
        }
    }
}

/// What the server says of one task.
#[derive(Debug, Clone, PartialEq, Eq)]
pub struct RemoteTask {
    pub uuid: Uuid,
    pub title: String,
    pub status: String,
    pub created_at: Timestamp,
    pub updated_at: Option<Timestamp>,
    pub error_message: Option<String>,
}

/// The remote status shown for a task: its error, where it has one, behind
/// `failed: `, its status name otherwise.
pub open spec fn remote_label(task: RemoteTask) -> Seq<char> {
    match task.error_message {
        Some(error) => "failed: "@ + error@,
        None => task.status@,
    }
}

/// One session after a metadata refresh with what the server says of it. A
/// session with unsent local edits is left alone. Otherwise the remote
/// status shown becomes the task's label and the sync status follows the
/// server's status name.
pub open spec fn refreshed_session(info: SessionView, task: RemoteTask) -> SessionView {
    if info.sync_status.is_unsent() {
        info
    } else {
        SessionView {
            remote_status: Some(remote_label(task)),
            sync_status: info.sync_status.refreshed(task.status@),
            ..info
        }
    }
}

/// The values of the entries of an index.
pub open spec fn sessions_view(index: Seq<LocalSessionInfo>) -> Seq<SessionView> {
    index.map_values(|i: LocalSessionInfo| i@)
}

/// The position of the session with this identifier, or `-1`.
pub open spec fn session_index(index: Seq<SessionView>, uuid: Uuid) -> int
    decreases index.len(),
{
    if index.len() == 0 {
        -1
    } else if index.last().uuid == uuid {
        index.len() - 1
    } else {
        session_index(index.drop_last(), uuid)
    }
}

/// Whether no identifier occurs twice.
pub open spec fn distinct(index: Seq<SessionView>) -> bool {
    forall|i: int, j: int| 0 <= i < j < index.len() ==> index[i].uuid != index[j].uuid
}

/// Where a found session stands.
pub proof fn lemma_session_index(index: Seq<SessionView>, uuid: Uuid)
    ensures
        -1 <= session_index(index, uuid) < index.len(),
        session_index(index, uuid) >= 0 ==> index[session_index(index, uuid)].uuid == uuid,
        session_index(index, uuid) < 0 ==> forall|i: int|
            0 <= i < index.len() ==> (#[trigger] index[i]).uuid != uuid,
    decreases index.len(),
{
    if index.len() > 0 && index.last().uuid != uuid {
        lemma_session_index(index.drop_last(), uuid);
        assert forall|i: int| 0 <= i < index.len() && session_index(index, uuid) < 0 implies (
        #[trigger] index[i]).uuid != uuid by {
            if i < index.len() - 1 {
                assert(index.drop_last()[i] == index[i]);
            }
        }
    }
}

/// The index after a metadata refresh with one task.
pub open spec fn refreshed_index(index: Seq<SessionView>, task: RemoteTask) -> Seq<SessionView> {
    let at = session_index(index, task.uuid);
    if at >= 0 {
        index.update(at, refreshed_session(index[at], task))
    } else {
        index
    }
}

/// The index after a metadata refresh with the tasks, in order.
pub open spec fn refreshed_with(index: Seq<SessionView>, tasks: Seq<RemoteTask>) -> Seq<SessionView>
    decreases tasks.len(),
{
    if tasks.len() == 0 {
        index
    } else {
        refreshed_index(refreshed_with(index, tasks.drop_last()), tasks.last())
    }
}

/// The index after a session was saved: its entry has the title, the time of
/// change and the status; a session that the index did not know is added at
/// the end, created at `created_at` and without a remote status.
pub open spec fn with_saved(
    index: Seq<SessionView>,
    uuid: Uuid,
    title: Seq<char>,
    status: SyncStatus,
    updated_at: Timestamp,
    created_at: Timestamp,
) -> Seq<SessionView> {
    let at = session_index(index, uuid);
    if at < 0 {
        index.push(
            SessionView {
                uuid,
                title,
                created_at,
                updated_at,
                sync_status: status,
                remote_status: None,
            },
        )
    } else {
        index.update(at, SessionView { title, updated_at, sync_status: status, ..index[at] })
    }
}

/// Whether a metadata refresh with the tasks, in order, changes an entry at
/// some step.
pub open spec fn refresh_changes(index: Seq<SessionView>, tasks: Seq<RemoteTask>) -> bool
    decreases tasks.len(),
{
    if tasks.len() == 0 {
        false
    } else {
        let before = refreshed_with(index, tasks.drop_last());
        refresh_changes(index, tasks.drop_last()) || refreshed_index(before, tasks.last())
            != before
    }
}

/// What to do to bring a session and its remote copy together.
#[derive(Debug, Clone, Copy, PartialEq, Eq, Structural)]
pub enum SyncAction {
    Upload,
    Download,
    Nothing,
}

/// Which side wins, by the time of the last change: the strictly newer one;
/// a side that does not exist loses; equal times need nothing. `None` where
/// neither side exists.
pub open spec fn sync_choice(local: Option<Timestamp>, remote: Option<Timestamp>) -> Option<
    SyncAction,
> {
    match (local, remote) {
        (Some(l), Some(r)) => Some(
            if r.precedes(l) {
                SyncAction::Upload
            } else if l.precedes(r) {
                SyncAction::Download
            } else {
                SyncAction::Nothing
            },
        ),
        (Some(_), None) => Some(SyncAction::Upload),
        (None, Some(_)) => Some(SyncAction::Download),
        (None, None) => None,
    }
}

/// Decides between upload and download by the times of the last change. A
/// session that exists on neither side is a `NetworkError`.
pub fn sync_decision(local: Option<Timestamp>, remote: Option<Timestamp>) -> (r: Result<
    SyncAction,
    AppError,
>)
    ensures
        match r {
            Ok(action) => sync_choice(local, remote) == Some(action),
            Err(e) => sync_choice(local, remote) is None && e is NetworkError,
        },
{
    match (local, remote) {
        (Some(l), Some(r)) => Ok(
            if r.is_before(&l) {
                SyncAction::Upload
            } else if l.is_before(&r) {
                SyncAction::Download
            } else {
                SyncAction::Nothing
            },
        ),
        (Some(_), None) => Ok(SyncAction::Upload),
        (None, Some(_)) => Ok(SyncAction::Download),
        (None, None) => Err(
            AppError::NetworkError(String::from_str("Session not found locally or on server.")),
        ),
    }
}

/// Whether a resend is in order: the session failed, or the remote status
/// shown begins with `failed`.
pub fn may_resend(info: &LocalSessionInfo) -> (r: bool)
    ensures
        r == (info.sync_status == SyncStatus::Failed || (info.remote_status matches Some(s)
            && has_prefix(s@, "failed"@))),
{
    if info.sync_status == SyncStatus::Failed {
        return true;
    }
    match &info.remote_status {
        Some(s) => starts_with(&chars_of(s.as_str()), "failed"),
        None => false,
    }
}

/// The index of the client's sessions. No identifier occurs twice.
pub struct LocalStore {
    pub index: Vec<LocalSessionInfo>,
}

impl View for LocalStore {
    type V = Seq<SessionView>;

    open spec fn view(&self) -> Seq<SessionView> {
        sessions_view(self.index@)
    }
}

impl LocalStore {
    /// Whether no identifier occurs twice.
    pub open spec fn wf(self) -> bool {
        distinct(self@)
    }

    /// An empty index.
    pub fn new() -> (store: LocalStore)
        ensures
            store@.len() == 0,
            store.wf(),
    {
        LocalStore { index: Vec::new() }
    }

    /// Whether no identifier occurs twice.
    pub fn is_wf(&self) -> (r: bool)
        ensures
            r == self.wf(),
    {
        let mut j: usize = 0;
        while j < self.index.len()
            invariant
                j <= self.index.len(),
                forall|a: int, b: int| 0 <= a < b < j ==> self@[a].uuid != self@[b].uuid,
            decreases self.index.len() - j,
        {
            let mut i: usize = 0;
            while i < j
                invariant
                    i <= j < self.index.len(),
                    forall|a: int| 0 <= a < i ==> self@[a].uuid != self@[j as int].uuid,
                decreases j - i,
            {
                if self.index[i].uuid == self.index[j].uuid {
                    assert(self@[i as int].uuid == self@[j as int].uuid);
                    return false;
                }
                i += 1;
            }
            j += 1;
        }
        true
    }

    /// The position of the session with this identifier.
    pub fn find(&self, uuid: Uuid) -> (r: Option<usize>)
        ensures
            match r {
                Some(at) => at == session_index(self@, uuid) && at < self.index.len(),
                None => session_index(self@, uuid) == -1,
            },
    {
        let ghost all = self@;
        let mut n: usize = self.index.len();
        assert(all.take(n as int) =~= all);
        while n > 0
            invariant
                n <= self.index.len(),
                all == self@,
                session_index(all, uuid) == session_index(all.take(n as int), uuid),
            decreases n,
        {
            assert(all.take(n as int).drop_last() =~= all.take(n - 1));
            if self.index[n - 1].uuid == uuid {
                return Some(n - 1);
            }
            n -= 1;
        }
        None
    }

    /// Records that a session was saved: its entry gets the log's title, the
    /// given time of change and the given status. A session that the index
    /// did not know is added, created at `created_at` and without a remote
    /// status.
    pub fn save_session(
        &mut self,
        log: &ChatLog,
        new_status: SyncStatus,
        updated_at: Timestamp,
        created_at: Timestamp,
    )
        requires
            old(self).wf(),
        ensures
            final(self).wf(),
            final(self)@ == with_saved(
                old(self)@,
                log.uuid,
                log.title@,
                new_status,
                updated_at,
                created_at,
            ),
    {
        proof {
            lemma_session_index(self@, log.uuid);
        }
        let ghost before = self@;
        match self.find(log.uuid) {
            Some(at) => {
                let mut entry = self.index.remove(at);
                entry.title = String::from_str(log.title.as_str());
                entry.updated_at = updated_at;
                entry.sync_status = new_status;
                self.index.insert(at, entry);
                assert(self@ =~= before.update(
                    at as int,
                    SessionView {
                        title: log.title@,
                        updated_at,
                        sync_status: new_status,
                        ..before[at as int]
                    },
                ));
            },
            None => {
                self.index.push(
                    LocalSessionInfo {
                        uuid: log.uuid,
                        title: String::from_str(log.title.as_str()),
                        created_at,
                        updated_at,
                        sync_status: new_status,
                        remote_status: None,
                    },
                );
                assert(self@ =~= before.push(
                    SessionView {
                        uuid: log.uuid,
                        title: log.title@,
                        created_at,
                        updated_at,
                        sync_status: new_status,
                        remote_status: None,
                    },
                ));
            },
        }
    }

    /// Sets the sync status of a session, and its remote status where one is
    /// given. A session that the index does not know is a `ParseError`, and
    /// nothing changes.
    pub fn update_session_status(
        &mut self,
        uuid: Uuid,
        sync_status: SyncStatus,
        remote_status: Option<String>,
    ) -> (r: Result<(), AppError>)
        requires
            old(self).wf(),
        ensures
            final(self).wf(),
            ({
                let at = session_index(old(self)@, uuid);
                if at < 0 {
                    r matches Err(e) && e is ParseError && final(self)@ == old(self)@
                } else {
                    r is Ok && final(self)@ == old(self)@.update(
                        at,
                        SessionView {
                            sync_status,
                            remote_status: match remote_status {
                                Some(s) => Some(s@),
                                None => old(self)@[at].remote_status,
                            },
                            ..old(self)@[at]
                        },
                    )
                }
            }),
    {
        proof {
            lemma_session_index(self@, uuid);
        }
        let ghost before = self@;
        match self.find(uuid) {
            Some(at) => {
                let mut entry = self.index.remove(at);
                entry.sync_status = sync_status;
                if let Some(s) = remote_status {
                    entry.remote_status = Some(s);
                }
                self.index.insert(at, entry);
                assert(self@ =~= before.update(
                    at as int,
                    SessionView {
                        sync_status,
                        remote_status: match remote_status {
                            Some(s) => Some(s@),
                            None => before[at as int].remote_status,
                        },
                        ..before[at as int]
                    },
                ));
                Ok(())
            },
            None => Err(
                AppError::ParseError(
                    String::from_str("Cannot update status for non-existent session"),
                ),
            ),
        }
    }

    /// Forgets a session. An identifier that the index does not know changes
    /// nothing.
    pub fn delete_session(&mut self, uuid: Uuid)
        requires
            old(self).wf(),
        ensures
            final(self).wf(),
            session_index(final(self)@, uuid) == -1,
            ({
                let at = session_index(old(self)@, uuid);
                if at < 0 {
                    final(self)@ == old(self)@
                } else {
                    final(self)@ == old(self)@.remove(at)
                }
            }),
    {
        proof {
            lemma_session_index(self@, uuid);
        }
        let ghost before = self@;
        if let Some(at) = self.find(uuid) {
            self.index.remove(at);
            assert(self@ =~= before.remove(at as int));
        }
        proof {
            lemma_session_index(self@, uuid);
            if session_index(self@, uuid) >= 0 {
                let k = session_index(self@, uuid);
                let at = session_index(before, uuid);
                if k < at {
                    assert(before[k].uuid == uuid);
                } else {
                    assert(before[k + 1].uuid == uuid);
                }
            }
        }
    }

    /// Refreshes the index with what the server says of its tasks. Sessions
    /// with unsent local edits are never touched; tasks that the index does
    /// not know are passed over. The result tells whether anything changed.
    pub fn update_from_remote_list(&mut self, remote_tasks: &Vec<RemoteTask>) -> (changed: bool)
        requires
            old(self).wf(),
        ensures
            final(self).wf(),
            final(self)@ == refreshed_with(old(self)@, remote_tasks@),
            changed == refresh_changes(old(self)@, remote_tasks@),
            !changed ==> final(self)@ == old(self)@,
    {
        let mut changed = false;
        let mut k: usize = 0;
        while k < remote_tasks.len()
            invariant
                k <= remote_tasks.len(),
                self.wf(),
                self@ == refreshed_with(old(self)@, remote_tasks@.take(k as int)),
                changed == refresh_changes(old(self)@, remote_tasks@.take(k as int)),
                !changed ==> self@ == old(self)@,
            decreases remote_tasks.len() - k,
        {
            let task = &remote_tasks[k];
            proof {
                assert(remote_tasks@.take(k + 1).drop_last() =~= remote_tasks@.take(k as int));
                lemma_session_index(self@, task.uuid);
            }
            let ghost before = self@;
            if let Some(at) = self.find(task.uuid) {
                if !(self.index[at].sync_status == SyncStatus::Local
                    || self.index[at].sync_status == SyncStatus::Modified) {
                    let mut entry = self.index.remove(at);
                    let label = match &task.error_message {
                        Some(error) => String::from_str("failed: ").concat(error.as_str()),
                        None => String::from_str(task.status.as_str()),
                    };
                    let same_label = match &entry.remote_status {
                        Some(s) => str_eq(s.as_str(), label.as_str()),
                        None => false,
                    };
                    let status = entry.sync_status.from_remote(task.status.as_str());
                    let differs = !same_label || status != entry.sync_status;
                    if differs {
                        changed = true;
                    }
                    entry.remote_status = Some(label);
                    entry.sync_status = status;
                    self.index.insert(at, entry);
                    proof {
                        let after = refreshed_session(before[at as int], *task);
                        assert(self@ =~= before.update(at as int, after));
                        assert(differs == (after != before[at as int]));
                        if !differs {
                            assert(before.update(at as int, after) =~= before);
                        } else {
                            assert(before.update(at as int, after)[at as int] != before[at as int]);
                        }
                    }
                } else {
                    assert(before =~= before.update(
                        at as int,
                        refreshed_session(before[at as int], *task),
                    ));
                }
            }
            k += 1;
        }
        assert(remote_tasks@.take(remote_tasks.len() as int) =~= remote_tasks@);
        changed
    }
}

/// A metadata refresh never touches a session with unsent local edits.
pub proof fn lemma_refresh_keeps_unsent(info: SessionView, task: RemoteTask)
    requires
        info.sync_status.is_unsent(),
    ensures
        refreshed_session(info, task) == info,
{
}

/// A metadata refresh with one task keeps every identifier in its place.
pub proof fn lemma_refresh_keeps_ids(index: Seq<SessionView>, task: RemoteTask)
    ensures
        refreshed_index(index, task).len() == index.len(),
        forall|i: int|
            0 <= i < index.len() ==> (#[trigger] refreshed_index(index, task)[i]).uuid
                == index[i].uuid,
        forall|i: int|
            0 <= i < index.len() && index[i].sync_status.is_unsent() ==> #[trigger] refreshed_index(
                index,
                task,
            )[i] == index[i],
{
    lemma_session_index(index, task.uuid);
}

/// The time a log was created at: that of its first interaction, or
/// `fallback` where it has none or begins with an attachment.
pub open spec fn creation_time(log: ChatLogView, fallback: Timestamp) -> Timestamp {
    if log.interactions.len() == 0 {
        fallback
    } else {
        match log.interactions[0] {
            InteractionView::User { created_at, .. } => created_at,
            InteractionView::Ai { created_at, .. } => created_at,
            InteractionView::Error { created_at, .. } => created_at,
            InteractionView::Attachment { .. } => fallback,
        }
    }
}

/// The time a log was created at.
pub fn creation_time_or(log: &ChatLog, fallback: Timestamp) -> (t: Timestamp)
    ensures
        t == creation_time(log@, fallback),
{
    if log.interactions.len() == 0 {
        return fallback;
    }
    match &log.interactions[0] {
        Interaction::User { created_at, .. } => *created_at,
        Interaction::Ai { created_at, .. } => *created_at,
        Interaction::Error { created_at, .. } => *created_at,
        Interaction::Attachment { .. } => fallback,
    }
}

/// Whether the sessions stand newest first by their time of creation.
pub open spec fn newest_first(sessions: Seq<SessionView>) -> bool {
    forall|i: int, j: int|
        0 <= i < j < sessions.len() ==> !sessions[i].created_at.precedes(sessions[j].created_at)
}

/// The log after the user's prompt was appended at time `now`.
pub open spec fn with_prompt(log: ChatLogView, prompt: Seq<char>, now: Timestamp) -> ChatLogView {
    ChatLogView {
        interactions: log.interactions.push(
            InteractionView::User { content: prompt, created_at: now },
        ),
        ..log
    }
}

/// Whether the server's record of a task carries an error.
pub open spec fn carries_error(task: RemoteTask) -> bool {
    task.error_message is Some || task.status@ == "failed"@
}

impl LocalStore {
    /// The sessions, the newest first.
    pub fn list_sessions(&self) -> (sessions: Vec<LocalSessionInfo>)
        ensures
            newest_first(sessions_view(sessions@)),
            sessions_view(sessions@).to_multiset() == self@.to_multiset(),
            sessions@.len() == self@.len(),
    {
        let ghost all = self@;
        let mut out: Vec<LocalSessionInfo> = Vec::new();
        let mut i: usize = 0;
        assert(sessions_view(out@) =~= all.take(0));
        while i < self.index.len()
            invariant
                i <= self.index.len(),
                all == self@,
                newest_first(sessions_view(out@)),
                sessions_view(out@).to_multiset() == all.take(i as int).to_multiset(),
                out@.len() == i,
            decreases self.index.len() - i,
        {
            let entry = &self.index[i];
            let item = LocalSessionInfo {
                uuid: entry.uuid,
                title: String::from_str(entry.title.as_str()),
                created_at: entry.created_at,
                updated_at: entry.updated_at,
                sync_status: entry.sync_status,
                remote_status: match &entry.remote_status {
                    Some(s) => Some(String::from_str(s.as_str())),
                    None => None,
                },
            };
            assert(item@ == all[i as int]);
            let ghost before = sessions_view(out@);
            let mut j: usize = 0;
            while j < out.len() && !out[j].created_at.is_before(&item.created_at)
                invariant
                    j <= out.len(),
                    before == sessions_view(out@),
                    forall|k: int| 0 <= k < j ==> !before[k].created_at.precedes(item.created_at),
                decreases out.len() - j,
            {
                j += 1;
            }
            proof {
                to_multiset_insert(before, j as int, item@);
                to_multiset_build(all.take(i as int), item@);
                assert(all.take(i + 1) =~= all.take(i as int).push(item@));
            }
            out.insert(j, item);
            proof {
                let after = sessions_view(out@);
                assert(after =~= before.insert(j as int, item@));
                assert forall|a: int, b: int| 0 <= a < b < after.len() implies !after[a].created_at.precedes(
                    after[b].created_at,
                ) by {
                    if a < j && b > j {
                        assert(after[a] == before[a]);
                        assert(after[b] == before[b - 1]);
                    } else if a < j && b == j {
                        assert(after[a] == before[a]);
                    } else if a < j {
                        assert(after[a] == before[a] && after[b] == before[b]);
                    } else if a == j {
                        assert(after[b] == before[b - 1]);
                        assert(before[j as int].created_at.precedes(item.created_at));
                        if b - 1 > j {
                            assert(!before[j as int].created_at.precedes(before[b - 1].created_at));
                        }
                    } else {
                        assert(after[a] == before[a - 1] && after[b] == before[b - 1]);
                    }
                }
            }
            i += 1;
        }
        assert(all.take(self.index.len() as int) =~= all);
        out
    }

    /// The position of a session that must be known; a `ParseError` where it
    /// is not.
    pub fn require(&self, uuid: Uuid) -> (r: Result<usize, AppError>)
        ensures
            match r {
                Ok(at) => at == session_index(self@, uuid) && at < self.index.len(),
                Err(e) => session_index(self@, uuid) == -1 && e is ParseError,
            },
    {
        match self.find(uuid) {
            Some(at) => Ok(at),
            None => Err(
                AppError::ParseError(String::from_str("Session not found in local index.")),
            ),
        }
    }

    /// Takes a session whose file exists into the index, as a local one
    /// changed at time `now`. A session that the index knows is left as it
    /// is. The result tells whether the session was added.
    pub fn register_external_session(&mut self, log: &ChatLog, now: Timestamp) -> (added: bool)
        requires
            old(self).wf(),
        ensures
            final(self).wf(),
            added == (session_index(old(self)@, log.uuid) < 0),
            final(self)@ == if added {
                old(self)@.push(
                    SessionView {
                        uuid: log.uuid,
                        title: log.title@,
                        created_at: creation_time(log@, now),
                        updated_at: now,
                        sync_status: SyncStatus::Local,
                        remote_status: None,
                    },
                )
            } else {
                old(self)@
            },
    {
        match self.find(log.uuid) {
            Some(_) => false,
            None => {
                let created_at = creation_time_or(log, now);
                self.save_session(log, SyncStatus::Local, now, created_at);
                true
            },
        }
    }

    /// Starts a new local session with a placeholder prompt, written at time
    /// `now`, and records it as local.
    pub fn create_new_template(&mut self, title: String, now: Timestamp) -> (log: ChatLog)
        requires
            old(self).wf(),
        ensures
            final(self).wf(),
            log@.title == title@,
            log@.status == Some("local"@),
            log@.model is None,
            log@.system_prompt is None,
            log@.interactions == seq![
                InteractionView::User {
                    content: "Replace this with your prompt."@,
                    created_at: now,
                },
            ],
            final(self)@ == with_saved(old(self)@, log.uuid, title@, SyncStatus::Local, now, now),
    {
        let mut log = ChatLog::new(title);
        let turn = Interaction::User {
            content: String::from_str("Replace this with your prompt."),
            created_at: now,
        };
        let ghost before = log.interactions@;
        log.interactions.push(turn);
        proof {
            crate::protocol::lemma_interactions_view_push(before, turn);
            assert(log@.interactions =~= seq![turn@]);
        }
        self.save_session(&log, SyncStatus::Local, now, now);
        log
    }

    /// Appends a user prompt to a session at time `now` and records the
    /// session as modified, whatever it was.
    pub fn append_prompt(&mut self, log: ChatLog, prompt: String, now: Timestamp) -> (r: ChatLog)
        requires
            old(self).wf(),
        ensures
            final(self).wf(),
            r@ == with_prompt(log@, prompt@, now),
            final(self)@ == with_saved(
                old(self)@,
                log.uuid,
                log.title@,
                SyncStatus::Modified,
                now,
                creation_time(r@, now),
            ),
    {
        let mut log = log;
        let turn = Interaction::User { content: prompt, created_at: now };
        let ghost before = log.interactions@;
        log.interactions.push(turn);
        proof {
            crate::protocol::lemma_interactions_view_push(before, turn);
        }
        let created_at = creation_time_or(&log, now);
        self.save_session(&log, SyncStatus::Modified, now, created_at);
        log
    }

    /// Makes a session ready to run: what follows its last user turn is cut,
    /// and the session is recorded as modified at time `now`.
    pub fn prepare_for_run(&mut self, log: ChatLog, now: Timestamp) -> (r: ChatLog)
        requires
            old(self).wf(),
        ensures
            final(self).wf(),
            r@ == truncate_spec(log@),
            final(self)@ == with_saved(
                old(self)@,
                log.uuid,
                log.title@,
                SyncStatus::Modified,
                now,
                creation_time(r@, now),
            ),
    {
        let mut log = log;
        truncate_after_last_user(&mut log);
        let created_at = creation_time_or(&log, now);
        self.save_session(&log, SyncStatus::Modified, now, created_at);
        log
    }

    /// Takes over a transcript fetched from the server. The session is
    /// recorded as failed where the server's record carries an error, and as
    /// finished otherwise; its time of change is the server's, or `now`
    /// where the server gives none. A transcript that is refused is a
    /// `ParseError`, and nothing changes.
    pub fn update_from_remote(&mut self, content: &str, task: &RemoteTask, now: Timestamp) -> (r:
        Result<ChatLog, AppError>)
        requires
            old(self).wf(),
        ensures
            final(self).wf(),
            match r {
                Ok(log) => parse_spec(content@, now) == Some(log@) && final(self)@ == with_saved(
                    old(self)@,
                    log.uuid,
                    log.title@,
                    if carries_error(*task) {
                        SyncStatus::Failed
                    } else {
                        SyncStatus::Finish
                    },
                    match task.updated_at {
                        Some(t) => t,
                        None => now,
                    },
                    creation_time(log@, now),
                ),
                Err(e) => parse_spec(content@, now) is None && e is ParseError && final(self)@
                    == old(self)@,
            },
    {
        let log = match parse_chat_text(content, now) {
            Ok(log) => log,
            Err(e) => {
                return Err(e);
            },
        };
        let has_error = task.error_message.is_some() || str_eq(task.status.as_str(), "failed");
        let updated_at = match task.updated_at {
            Some(t) => t,
            None => now,
        };
        let created_at = creation_time_or(&log, now);
        self.save_session(&log, SyncStatus::after_download(has_error), updated_at, created_at);
        Ok(log)
    }
}

} // verus!
