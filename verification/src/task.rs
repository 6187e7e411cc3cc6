//! The task lifecycle: the status of a task, the events that move it, and
//! the row that records it.

use crate::ids::Uuid;
use crate::text::str_eq;
use crate::time::Timestamp;
use crate::types::ChatLog;
use vstd::prelude::*;
use vstd::string::StringExecFns;

verus! {

/// Where a task stands.
#[derive(PartialEq, Eq, Structural, Debug, Clone, Copy)]
pub enum TaskStatus {
    Pending,
    Processing,
    Completed,
    Failed,
}

/// What can happen to a task.
#[derive(PartialEq, Eq, Structural, Debug, Clone, Copy)]
pub enum TaskEvent {
    /// A worker takes the task up.
    Start,
    /// The provider answered.
    Succeed,
    /// The provider failed, or processing broke off.
    Fail,
    /// The client sent the transcript again.
    Resend,
}

impl TaskStatus {
    /// The name of the status as it is stored and sent.
    pub open spec fn name(self) -> Seq<char> {
        match self {
            TaskStatus::Pending => "pending"@,
            TaskStatus::Processing => "processing"@,
            TaskStatus::Completed => "completed"@,
            TaskStatus::Failed => "failed"@,
        }
    }

    /// How far along the lifecycle the status is.
    pub open spec fn rank(self) -> nat {
        match self {
            TaskStatus::Pending => 0,
            TaskStatus::Processing => 1,
            TaskStatus::Completed => 2,
            TaskStatus::Failed => 2,
        }
    }

    /// The status after an event, or `None` where the event cannot happen in
    /// this status. A task starts only when pending and succeeds only when
    /// processing; it can fail until it is finished; a resend takes it back
    /// to pending from anywhere.
    pub open spec fn after(self, event: TaskEvent) -> Option<TaskStatus> {
        match event {
            TaskEvent::Start => if self == TaskStatus::Pending {
                Some(TaskStatus::Processing)
            } else {
                None
            },
            TaskEvent::Succeed => if self == TaskStatus::Processing {
                Some(TaskStatus::Completed)
            } else {
                None
            },
            TaskEvent::Fail => if self == TaskStatus::Pending || self == TaskStatus::Processing {
                Some(TaskStatus::Failed)
            } else {
                None
            },
            TaskEvent::Resend => Some(TaskStatus::Pending),
        }
    }

    /// The name of the status as it is stored and sent.
    pub fn as_str(self) -> (name: &'static str)
        ensures
            name@ == self.name(),
    {
        match self {
            TaskStatus::Pending => "pending",
            TaskStatus::Processing => "processing",
            TaskStatus::Completed => "completed",
            TaskStatus::Failed => "failed",
        }
    }

    /// The status with the given name, if it is one.
    pub fn from_name(name: &str) -> (r: Option<TaskStatus>)
        ensures
            match r {
                Some(status) => status.name() == name@,
                None => forall|s: TaskStatus| s.name() != name@,
            },
    {
        if str_eq(name, "pending") {
            Some(TaskStatus::Pending)
        } else if str_eq(name, "processing") {
            Some(TaskStatus::Processing)
        } else if str_eq(name, "completed") {
            Some(TaskStatus::Completed)
        } else if str_eq(name, "failed") {
            Some(TaskStatus::Failed)
        } else {
            None
        }
    }

    /// The status after an event, or `None` where the event cannot happen in
    /// this status.
    pub fn next(self, event: TaskEvent) -> (r: Option<TaskStatus>)
        ensures
            r == self.after(event),
    {
        match event {
            TaskEvent::Start => match self {
                TaskStatus::Pending => Some(TaskStatus::Processing),
                _ => None,
            },
            TaskEvent::Succeed => match self {
                TaskStatus::Processing => Some(TaskStatus::Completed),
                _ => None,
            },
            TaskEvent::Fail => match self {
                TaskStatus::Pending => Some(TaskStatus::Failed),
                TaskStatus::Processing => Some(TaskStatus::Failed),
                _ => None,
            },
            TaskEvent::Resend => Some(TaskStatus::Pending),
        }
    }
}

/// The statuses that a task goes through when the events happen in order,
/// starting from `start`; an event that cannot happen leaves the status as it
/// is. The result holds the status after each event.
pub open spec fn status_trace(start: TaskStatus, events: Seq<TaskEvent>) -> Seq<TaskStatus>
    decreases events.len(),
{
    if events.len() == 0 {
        Seq::empty()
    } else {
        let before = status_trace(start, events.drop_last());
        let current = if before.len() == 0 {
            start
        } else {
            before.last()
        };
        before.push(
            match current.after(events.last()) {
                Some(next) => next,
                None => current,
            },
        )
    }
}

/// The status of a task after the events happened in order, starting from
/// `start`; an event that cannot happen leaves the status as it is.
pub fn status_after_all(start: TaskStatus, events: &[TaskEvent]) -> (status: TaskStatus)
    ensures
        status == if events@.len() == 0 {
            start
        } else {
            status_trace(start, events@).last()
        },
{
    let mut status = start;
    let mut i: usize = 0;
    assert(events@.take(0).len() == 0);
    while i < events.len()
        invariant
            i <= events.len(),
            status == if i == 0 {
                start
            } else {
                status_trace(start, events@.take(i as int)).last()
            },
        decreases events.len() - i,
    {
        proof {
            assert(events@.take(i + 1).drop_last() =~= events@.take(i as int));
            lemma_trace_len(start, events@.take(i as int));
        }
        if let Some(next) = status.next(events[i]) {
            status = next;
        }
        i += 1;
    }
    assert(events@.take(events.len() as int) =~= events@);
    status
}

/// Every event but a resend moves a task strictly forward, and only a resend
/// takes a failed task back to pending.
pub proof fn lemma_status_moves_forward(status: TaskStatus, event: TaskEvent)
    ensures
        event != TaskEvent::Resend ==> (status.after(event) matches Some(next) ==> status.rank()
            < next.rank()),
        status == TaskStatus::Failed && status.after(event) == Some(TaskStatus::Pending) ==> event
            == TaskEvent::Resend,
        status.after(TaskEvent::Resend) == Some(TaskStatus::Pending),
{
}

/// Without a resend the status never goes back: over any run of events the
/// rank of the status does not fall, and between two different statuses of
/// the run it rises. So the statuses seen are a subsequence of pending,
/// processing, then completed or failed.
pub proof fn lemma_trace_is_monotone(start: TaskStatus, events: Seq<TaskEvent>, i: int, j: int)
    requires
        forall|k: int| 0 <= k < events.len() ==> events[k] != TaskEvent::Resend,
        0 <= i <= j < events.len(),
    ensures
        status_trace(start, events).len() == events.len(),
        start.rank() <= status_trace(start, events)[i].rank(),
        status_trace(start, events)[i].rank() <= status_trace(start, events)[j].rank(),
        status_trace(start, events)[i] != status_trace(start, events)[j] ==> status_trace(
            start,
            events,
        )[i].rank() < status_trace(start, events)[j].rank(),
    decreases events.len(),
{
    let before = status_trace(start, events.drop_last());
    lemma_trace_len(start, events);
    lemma_trace_len(start, events.drop_last());
    assert forall|k: int| 0 <= k < events.drop_last().len() implies events.drop_last()[k]
        != TaskEvent::Resend by {
        assert(events.drop_last()[k] == events[k]);
    }
    if j < events.len() - 1 {
        lemma_trace_is_monotone(start, events.drop_last(), i, j);
    } else if i < j {
        lemma_trace_is_monotone(start, events.drop_last(), i, j - 1);
    } else if j > 0 {
        lemma_trace_is_monotone(start, events.drop_last(), j - 1, j - 1);
    }
}

/// A trace holds one status per event.
pub proof fn lemma_trace_len(start: TaskStatus, events: Seq<TaskEvent>)
    ensures
        status_trace(start, events).len() == events.len(),
    decreases events.len(),
{
    if events.len() > 0 {
        lemma_trace_len(start, events.drop_last());
    }
}

/// One unit of work for the worker pool.
#[derive(Debug, Clone, PartialEq, Eq)]
pub struct AiTask {
    pub uuid: Uuid,
    pub client_ip: String,
    pub username: String,
}

/// The record of a task in the task store.
#[derive(Debug, Clone, PartialEq, Eq)]
pub struct TaskRow {
    pub uuid: Uuid,
    pub title: String,
    pub client_ip: String,
    pub status: TaskStatus,
    pub model_used: String,
    pub created_at: Timestamp,
    pub processing_at: Option<Timestamp>,
    pub finished_at: Option<Timestamp>,
    pub error_message: Option<String>,
}

impl TaskRow {
    /// The row of a newly submitted transcript: pending, with the model the
    /// transcript asks for, or none.
    pub fn new(log: &ChatLog, client_ip: &str, created_at: Timestamp) -> (row: TaskRow)
        ensures
            row.uuid == log.uuid,
            row.title@ == log.title@,
            row.client_ip@ == client_ip@,
            row.status == TaskStatus::Pending,
            row.model_used@ == match log.model {
                Some(model) => model@,
                None => Seq::<char>::empty(),
            },
            row.created_at == created_at,
            row.processing_at is None,
            row.finished_at is None,
            row.error_message is None,
    {
        let model_used = match &log.model {
            Some(model) => String::from_str(model.as_str()),
            None => String::new(),
        };
        TaskRow {
            uuid: log.uuid,
            title: String::from_str(log.title.as_str()),
            client_ip: String::from_str(client_ip),
            status: TaskStatus::Pending,
            model_used,
            created_at,
            processing_at: None,
            finished_at: None,
            error_message: None,
        }
    }

    /// When the row last changed: when the task finished, else when
    /// processing began, else when the row was created.
    pub fn last_change(&self) -> (t: Timestamp)
        ensures
            t == match (self.finished_at, self.processing_at) {
                (Some(finished), _) => finished,
                (None, Some(began)) => began,
                (None, None) => self.created_at,
            },
    {
        match (self.finished_at, self.processing_at) {
            (Some(finished), _) => finished,
            (None, Some(began)) => began,
            (None, None) => self.created_at,
        }
    }

    /// Records an event at time `now`. An event that cannot happen in the
    /// current status changes nothing and gives `false`. Otherwise the status
    /// moves on, the time of the move is kept (when processing began, when the
    /// task finished), and the error message becomes `error_message`: a
    /// message for a failure, none otherwise, so a resend clears it.
    pub fn apply(&mut self, event: TaskEvent, error_message: Option<String>, now: Timestamp) -> (applied:
        bool)
        ensures
            applied == old(self).status.after(event) is Some,
            !applied ==> *final(self) == *old(self),
            applied ==> {
                &&& final(self).status == old(self).status.after(event)->Some_0
                &&& final(self).error_message == error_message
                &&& final(self).processing_at == if final(self).status == TaskStatus::Processing {
                    Some(now)
                } else {
                    old(self).processing_at
                }
                &&& final(self).finished_at == if final(self).status == TaskStatus::Completed
                    || final(self).status == TaskStatus::Failed {
                    Some(now)
                } else {
                    old(self).finished_at
                }
                &&& final(self).uuid == old(self).uuid
                &&& final(self).title == old(self).title
                &&& final(self).client_ip == old(self).client_ip
                &&& final(self).model_used == old(self).model_used
                &&& final(self).created_at == old(self).created_at
            },
    {
        match self.status.next(event) {
            Some(next) => {
                self.status = next;
                self.error_message = error_message;
                match next {
                    TaskStatus::Processing => {
                        self.processing_at = Some(now);
                    },
                    TaskStatus::Completed => {
                        self.finished_at = Some(now);
                    },
                    TaskStatus::Failed => {
                        self.finished_at = Some(now);
                    },
                    TaskStatus::Pending => {},
                }
                true
            },
            None => false,
        }
    }
}

} // verus!
