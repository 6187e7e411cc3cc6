//! The worker side of a task: what is sent to the provider, what is recorded
//! when it answers or fails, and how many tasks may run at once.

use crate::config::Config;
use crate::error::AppError;
use crate::gateway::create_client;
use crate::gateway::resolve_model;
use crate::gateway::AiMessage;
use crate::gateway::messages_view;
use crate::gateway::Endpoint;
use crate::gateway::MessageView;
use crate::gateway::OpenAiClient;
use crate::protocol::format_chat_log;
use crate::protocol::last_user;
use crate::protocol::lemma_last_user;
use crate::protocol::truncated;
use crate::protocol::format_spec;
use crate::protocol::parse_chat_text;
use crate::protocol::parse_spec;
use crate::protocol::truncate_after_last_user;
use crate::protocol::truncate_spec;
use crate::task::AiTask;
use crate::task::TaskEvent;
use crate::time::Timestamp;
use crate::types::ChatLog;
use crate::types::ChatLogView;
use crate::types::Interaction;
use crate::types::InteractionView;
use vstd::prelude::*;
use vstd::string::StringExecFns;

verus! {

/// The messages that the turns stand for, in order: a user turn is a `user`
/// message, a model turn an `assistant` message; errors and attachments are
/// never sent.
pub open spec fn turn_messages(items: Seq<InteractionView>) -> Seq<MessageView>
    decreases items.len(),
{
    if items.len() == 0 {
        Seq::empty()
    } else {
        let before = turn_messages(items.drop_last());
        match items.last() {
            InteractionView::User { content, .. } => before.push(
                MessageView { role: "user"@, content },
            ),
            InteractionView::Ai { content, .. } => before.push(
                MessageView { role: "assistant"@, content },
            ),
            _ => before,
        }
    }
}

/// The provider request for a log: the system prompt, where there is one, as
/// a `system` message, then the messages of the turns.
pub open spec fn log_messages(log: ChatLogView) -> Seq<MessageView> {
    (match log.system_prompt {
        Some(prompt) => seq![MessageView { role: "system"@, content: prompt }],
        None => Seq::empty(),
    }) + turn_messages(log.interactions)
}

/// Once a log is cut after its last user turn, the request ends with that
/// turn: nothing that came after it is sent.
pub proof fn lemma_request_ends_with_last_user(items: Seq<InteractionView>)
    requires
        last_user(items) >= 0,
    ensures
        items[last_user(items)] is User,
        turn_messages(truncated(items)).len() > 0,
        turn_messages(truncated(items)).last() == (MessageView {
            role: "user"@,
            content: items[last_user(items)]->User_content,
        }),
{
    lemma_last_user(items);
    let cut = truncated(items);
    assert(cut.last() == items[last_user(items)]);
}

/// The messages to send to the provider for a log.
pub fn convert_chat_log_to_ai_messages(log: &ChatLog) -> (messages: Vec<AiMessage>)
    ensures
        messages_view(messages@) == log_messages(log@),
{
    let mut messages: Vec<AiMessage> = Vec::new();
    if let Some(prompt) = &log.system_prompt {
        messages.push(
            AiMessage { role: String::from_str("system"), content: String::from_str(prompt.as_str()) },
        );
    }
    let ghost head = messages_view(messages@);
    assert(head =~= (match log@.system_prompt {
        Some(prompt) => seq![MessageView { role: "system"@, content: prompt }],
        None => Seq::empty(),
    }));
    assert(messages_view(messages@) =~= head + turn_messages(log@.interactions.take(0)));
    let mut i: usize = 0;
    while i < log.interactions.len()
        invariant
            i <= log.interactions.len(),
            messages_view(messages@) == head + turn_messages(log@.interactions.take(i as int)),
        decreases log.interactions.len() - i,
    {
        proof {
            let items = log@.interactions;
            assert(items.take(i + 1).drop_last() =~= items.take(i as int));
            assert(items.take(i + 1).last() == log.interactions@[i as int]@);
        }
        let ghost before = messages_view(messages@);
        match &log.interactions[i] {
            Interaction::User { content, .. } => {
                messages.push(
                    AiMessage {
                        role: String::from_str("user"),
                        content: String::from_str(content.as_str()),
                    },
                );
                assert(messages_view(messages@) =~= before.push(messages@.last()@));
            },
            Interaction::Ai { content, .. } => {
                messages.push(
                    AiMessage {
                        role: String::from_str("assistant"),
                        content: String::from_str(content.as_str()),
                    },
                );
                assert(messages_view(messages@) =~= before.push(messages@.last()@));
            },
            _ => {},
        }
        assert(messages_view(messages@) =~= head + turn_messages(
            log@.interactions.take(i + 1),
        ));
        i += 1;
    }
    assert(log@.interactions.take(log.interactions.len() as int) =~= log@.interactions);
    messages
}

/// What is to be sent for a task: the log as it will be answered, the
/// provider endpoint, and the messages.
pub struct TaskPlan {
    pub log: ChatLog,
    pub client: OpenAiClient,
    pub messages: Vec<AiMessage>,
}

/// The log that a task works on: what follows the last user turn is cut, and
/// a log that names no model gets the default one.
pub open spec fn working_log(log: ChatLogView, default_model: Seq<char>) -> ChatLogView {
    ChatLogView {
        model: match log.model {
            Some(model) => Some(model),
            None => Some(default_model),
        },
        ..truncate_spec(log)
    }
}

/// Why a task cannot be sent, if it cannot.
pub enum PlanFailure {
    /// The transcript is refused.
    Parse,
    /// The model identifier maps to no configured endpoint.
    Config,
    /// There is nothing to send.
    NoMessages,
}

/// What preparing a task gives: the working log, the endpoint and the
/// messages, or the first failure in the order transcript, model, messages.
pub open spec fn plan_spec(content: Seq<char>, config: Config, now: Timestamp) -> Result<
    (ChatLogView, Endpoint, Seq<MessageView>),
    PlanFailure,
> {
    match parse_spec(content, now) {
        None => Err(PlanFailure::Parse),
        Some(parsed) => {
            let log = working_log(parsed, config.server.default@);
            match resolve_model(config, log.model->Some_0) {
                None => Err(PlanFailure::Config),
                Some(endpoint) => if log_messages(log).len() == 0 {
                    Err(PlanFailure::NoMessages)
                } else {
                    Ok((log, endpoint, log_messages(log)))
                },
            }
        },
    }
}

/// Prepares a task from its transcript: reads it, cuts what follows the last
/// user turn, settles the model and its endpoint, and makes the messages.
/// Fails with a `ParseError` for a refused transcript, a `ConfigError` for a
/// model that maps to no endpoint, and an `AiServiceError` where there is
/// nothing to send.
pub fn prepare_task(content: &str, config: &Config, now: Timestamp) -> (r: Result<TaskPlan, AppError>)
    ensures
        match r {
            Ok(plan) => plan_spec(content@, *config, now) == Ok::<_, PlanFailure>(
                (
                    plan.log@,
                    Endpoint {
                        api_url: plan.client.api_url@,
                        api_key: plan.client.api_key@,
                        model: plan.client.model@,
                    },
                    messages_view(plan.messages@),
                ),
            ),
            Err(e) => match plan_spec(content@, *config, now) {
                Ok(_) => false,
                Err(PlanFailure::Parse) => e is ParseError,
                Err(PlanFailure::Config) => e is ConfigError,
                Err(PlanFailure::NoMessages) => e is AiServiceError,
            },
        },
{
    let mut log = match parse_chat_text(content, now) {
        Ok(log) => log,
        Err(e) => {
            return Err(e);
        },
    };
    truncate_after_last_user(&mut log);
    if log.model.is_none() {
        log.model = Some(String::from_str(config.server.default.as_str()));
    }
    let client = match &log.model {
        Some(model) => match create_client(config, model.as_str()) {
            Ok(client) => client,
            Err(e) => {
                return Err(e);
            },
        },
        None => {
            return Err(AppError::ConfigError(String::from_str("No model is set")));
        },
    };
    let messages = convert_chat_log_to_ai_messages(&log);
    if messages.len() == 0 {
        return Err(
            AppError::AiServiceError(String::from_str("No messages to send to the AI provider")),
        );
    }
    Ok(TaskPlan { log, client, messages })
}

/// What is recorded when a task ends.
pub struct TaskOutcome {
    /// `Succeed` or `Fail`.
    pub event: TaskEvent,
    /// The error text of a failed task.
    pub error_message: Option<String>,
    /// The transcript to write back.
    pub transcript: String,
}

/// The log after the provider answered with `content` at time `now`.
pub open spec fn answered(log: ChatLogView, content: Seq<char>, now: Timestamp) -> ChatLogView {
    ChatLogView {
        status: Some("completed"@),
        interactions: log.interactions.push(InteractionView::Ai { content, created_at: now }),
        ..log
    }
}

/// The log after the provider failed for `reason` at time `now`.
pub open spec fn failed(log: ChatLogView, reason: Seq<char>, now: Timestamp) -> ChatLogView {
    ChatLogView {
        status: Some("failed"@),
        interactions: log.interactions.push(InteractionView::Error { reason, created_at: now }),
        ..log
    }
}

/// Records the end of a task in its log. An answer is appended as a model
/// turn and the log is completed; a failure is appended as an error entry
/// with the error's text and the log is failed. Either way the earlier
/// interactions stay, and the transcript of the new log is handed back.
pub fn finish_task(log: &mut ChatLog, answer: Result<String, AppError>, now: Timestamp) -> (outcome:
    TaskOutcome)
    ensures
        match answer {
            Ok(content) => {
                &&& final(log)@ == answered(old(log)@, content@, now)
                &&& outcome.event == TaskEvent::Succeed
                &&& outcome.error_message is None
            },
            Err(e) => {
                &&& final(log)@ == failed(old(log)@, e.display(), now)
                &&& outcome.event == TaskEvent::Fail
                &&& outcome.error_message matches Some(text) && text@ == e.display()
            },
        },
        outcome.transcript@ == format_spec(final(log)@),
{
    let ghost before = log.interactions@;
    match answer {
        Ok(content) => {
            let turn = Interaction::Ai { content, created_at: now };
            log.interactions.push(turn);
            log.status = Some(String::from_str("completed"));
            proof {
                crate::protocol::lemma_interactions_view_push(before, turn);
            }
            TaskOutcome {
                event: TaskEvent::Succeed,
                error_message: None,
                transcript: format_chat_log(log),
            }
        },
        Err(e) => {
            let turn = Interaction::Error { reason: e.to_text(), created_at: now };
            log.interactions.push(turn);
            log.status = Some(String::from_str("failed"));
            proof {
                crate::protocol::lemma_interactions_view_push(before, turn);
            }
            TaskOutcome {
                event: TaskEvent::Fail,
                error_message: Some(e.to_text()),
                transcript: format_chat_log(log),
            }
        },
    }
}

/// Admission control for the worker pool: at most `limit` tasks run at once,
/// the others wait in arrival order.
pub struct WorkerPool {
    limit: usize,
    running: usize,
    waiting: Vec<AiTask>,
}

impl WorkerPool {
    #[verifier::type_invariant]
    spec fn bounded(self) -> bool {
        self.running <= self.limit && (self.waiting@.len() > 0 ==> self.running == self.limit)
    }

    /// The most tasks that may run at once.
    pub closed spec fn limit_spec(self) -> nat {
        self.limit as nat
    }

    /// The number of tasks running now.
    pub closed spec fn running_spec(self) -> nat {
        self.running as nat
    }

    /// The tasks that wait, the oldest first.
    pub closed spec fn waiting_spec(self) -> Seq<AiTask> {
        self.waiting@
    }

    /// An idle pool that runs at most `limit` tasks at once.
    pub fn new(limit: usize) -> (pool: WorkerPool)
        ensures
            pool.limit_spec() == limit,
            pool.running_spec() == 0,
            pool.waiting_spec().len() == 0,
    {
        WorkerPool { limit, running: 0, waiting: Vec::new() }
    }

    /// The most tasks that may run at once.
    pub fn limit(&self) -> (n: usize)
        ensures
            n == self.limit_spec(),
    {
        self.limit
    }

    /// The number of tasks running now.
    pub fn running(&self) -> (n: usize)
        ensures
            n == self.running_spec(),
            n <= self.limit_spec(),
    {
        proof {
            use_type_invariant(self);
        }
        self.running
    }

    /// The number of tasks that wait.
    pub fn waiting(&self) -> (n: usize)
        ensures
            n == self.waiting_spec().len(),
    {
        self.waiting.len()
    }

    /// A task arrives. Where a slot is free the task is handed back to be
    /// started and counts as running; otherwise it waits behind the others.
    pub fn submit(self, task: AiTask) -> (r: (WorkerPool, Option<AiTask>))
        ensures
            r.0.limit_spec() == self.limit_spec(),
            r.0.running_spec() <= r.0.limit_spec(),
            if self.running_spec() < self.limit_spec() {
                &&& r.1 == Some(task)
                &&& r.0.running_spec() == self.running_spec() + 1
                &&& r.0.waiting_spec() == self.waiting_spec()
            } else {
                &&& r.1 is None
                &&& r.0.running_spec() == self.running_spec()
                &&& r.0.waiting_spec() == self.waiting_spec().push(task)
            },
    {
        proof {
            use_type_invariant(&self);
        }
        let WorkerPool { limit, running, waiting } = self;
        if running < limit {
            (WorkerPool { limit, running: running + 1, waiting }, Some(task))
        } else {
            let mut waiting = waiting;
            waiting.push(task);
            (WorkerPool { limit, running, waiting }, None)
        }
    }

    /// A running task ended. Where a task waits, the oldest one is handed
    /// back to be started in the freed slot; otherwise one slot less is in
    /// use. Without a running task nothing changes.
    pub fn finish(self) -> (r: (WorkerPool, Option<AiTask>))
        ensures
            r.0.limit_spec() == self.limit_spec(),
            r.0.running_spec() <= r.0.limit_spec(),
            if self.running_spec() == 0 {
                &&& r.1 is None
                &&& r.0.running_spec() == 0
                &&& r.0.waiting_spec() == self.waiting_spec()
            } else if self.waiting_spec().len() > 0 {
                &&& r.1 == Some(self.waiting_spec()[0])
                &&& r.0.running_spec() == self.running_spec()
                &&& r.0.waiting_spec() == self.waiting_spec().skip(1)
            } else {
                &&& r.1 is None
                &&& r.0.running_spec() == self.running_spec() - 1
                &&& r.0.waiting_spec() == self.waiting_spec()
            },
    {
        proof {
            use_type_invariant(&self);
        }
        let WorkerPool { limit, running, waiting } = self;
        if running == 0 {
            (WorkerPool { limit, running, waiting }, None)
        } else if waiting.len() > 0 {
            let mut waiting = waiting;
            let ghost before = waiting@;
            let task = waiting.remove(0);
            assert(waiting@ =~= before.skip(1));
            (WorkerPool { limit, running, waiting }, Some(task))
        } else {
            (WorkerPool { limit, running: running - 1, waiting }, None)
        }
    }
}

} // verus!
