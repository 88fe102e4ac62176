//! The conversation loop as a state machine. One step takes what happened outside (the model
//! answered, the frontend reported, the judge sorted, the user decided, a tool made progress)
//! and says what the caller has to do next. The caller performs these actions in their order
//! and comes back with the next event.
use vstd::prelude::*;
use crate::agent::{tool_position, FrontendToolView};
use crate::ids::{occurrences, without_first};
use crate::message::{
    response_ids, AgentEventView, MessageContentView, MessageView, Role,
    ToolConfirmationRequestView, ToolRequestView,
};
use crate::permission::{ids_of, Permission, PermissionCheckResultView, PermissionConfirmation};
use crate::tool::{execution_error, text_result, ToolCallView, ToolResultView};

verus! {

/// What stands for the result of a request that the user or the judge declined.
pub const DECLINED_RESPONSE: &'static str =
    "The user has declined to run this tool. DO NOT attempt to call this tool again. If there are no alternative methods to proceed, clearly explain the situation and STOP.";

/// What stands for the result of a request that was not run because the mode is `chat`.
pub const CHAT_MODE_TOOL_SKIPPED_RESPONSE: &'static str =
    "Let the user know the tool call was skipped in Goose chat mode. DO NOT apologize for skipping the tool call. DO NOT say sorry. Provide an explanation of what the tool call would do, structured as a plan for the user. Again, DO NOT apologize. **Example Plan:**\n 1. **Identify Task Scope** - Determine the purpose and expected outcome.\n 2. **Outline Steps** - Break down the steps.\n If needed, adjust the explanation based on user preferences or questions.";

/// What the caller is told where the model's context length was exceeded.
pub const CONTEXT_LENGTH_EXCEEDED_TEXT: &'static str =
    "The context length of the model has been exceeded. Please start a new session and try again.";

/// What the user is asked before a tool that needs approval is called.
pub const CONFIRMATION_PROMPT: &'static str =
    "Goose would like to call the above tool, do you allow?";

/// The mode in which no tool is run.
pub const CHAT_MODE: &'static str = "chat";

/// What the caller is told where the model failed otherwise.
pub open spec fn provider_error_text(error: Seq<char>) -> Seq<char> {
    "Ran into this error: "@ + error
        + ".\n\nPlease retry if you think this is a transient or recoverable error."@
}

/// What the caller is told where the metering hook rejected the turn.
pub open spec fn metering_error_text(error: Seq<char>) -> Seq<char> {
    "Failed to pay service fee in agent loop: "@ + error
}

/// How the model failed. `Other` carries the text of the error.
#[derive(Debug, PartialEq, Eq)]
pub enum ProviderError {
    ContextLengthExceeded(String),
    Other(String),
}

pub enum ProviderErrorView {
    ContextLengthExceeded(Seq<char>),
    Other(Seq<char>),
}

impl View for ProviderError {
    type V = ProviderErrorView;

    open spec fn view(&self) -> ProviderErrorView {
        match self {
            ProviderError::ContextLengthExceeded(s) => ProviderErrorView::ContextLengthExceeded(s@),
            ProviderError::Other(s) => ProviderErrorView::Other(s@),
        }
    }
}

/// Where the loop stands.
#[derive(Clone, Copy, Debug, PartialEq, Eq, Structural)]
pub enum Phase {
    /// The model was asked; its answer is awaited.
    Generating,
    /// The frontend runs its tools; the result of the first open request is awaited.
    Frontend,
    /// The permission judge sorts the remaining requests.
    Judging,
    /// The user decides on the first request that needs approval.
    Approving,
    /// The dispatched calls run; their items are awaited.
    Collecting,
    /// The loop has ended.
    Done,
}

/// What happened outside.
pub enum EventView {
    /// The model answered and the metering hook took the usage.
    Response(MessageView),
    /// The model failed.
    ProviderFailed(ProviderErrorView),
    /// The metering hook rejected the usage.
    MeteringRejected(Seq<char>),
    /// The frontend reported the result of a tool.
    ToolResult { id: Seq<char>, result: ToolResultView },
    /// The judge sorted the remaining requests; `enable_extension_ids` names those that ask to
    /// enable an extension.
    Permissions { sorted: PermissionCheckResultView, enable_extension_ids: Seq<Seq<char>> },
    /// The user decided on a request.
    Confirmation { id: Seq<char>, confirmation: PermissionConfirmation },
    /// A running call sent a notification.
    Notification { id: Seq<char>, message: Seq<char> },
    /// A running call ended.
    Finished { id: Seq<char>, result: ToolResultView },
    /// The caller gives up.
    Abort,
}

/// What the caller has to do.
pub enum ActionView {
    /// Ask the model for its next answer.
    CallProvider,
    /// Hand an event to whoever reads the loop's output.
    Emit(AgentEventView),
    /// Let other work run.
    Yield,
    /// Tell the router's selector that a tool was called.
    RecordToolCall(Seq<char>),
    /// Come back with the result that the frontend supplies for this request.
    AwaitToolResult(Seq<char>),
    /// Have the judge sort the remaining requests.
    CheckPermissions,
    /// Dispatch this call and queue its stream.
    Dispatch { id: Seq<char>, tool_call: ToolCallView },
    /// Come back with the confirmation that the user supplies for this request.
    AwaitConfirmation(Seq<char>),
    /// Remember that the user always allows this tool.
    RememberAlwaysAllow(Seq<char>),
    /// Run the queued streams together and come back with each item.
    Collect,
    /// Recompute the tools and the system prompt.
    RefreshTools,
    /// Stop.
    Finish,
}

/// The state of the loop.
pub struct ReplyView {
    pub mode: Seq<char>,
    pub phase: Phase,
    /// The conversation up to the current turn.
    pub history: Seq<MessageView>,
    /// The model's answer of the current turn.
    pub response: MessageView,
    /// The tool-response message of the current turn.
    pub accumulator: MessageView,
    /// The frontend's requests that have no result yet.
    pub frontend: Seq<ToolRequestView>,
    /// The other requests, until the judge has sorted them.
    pub remaining: Seq<ToolRequestView>,
    /// The requests that need approval and have no decision yet.
    pub approval: Seq<ToolRequestView>,
    /// The requests that ask to enable an extension.
    pub enable_ids: Seq<Seq<char>>,
    /// The calls that were dispatched and have not ended.
    pub in_flight: Seq<Seq<char>>,
    /// Whether no call that asked to enable an extension has failed.
    pub all_install_successful: bool,
}

/// Whether the content is a request for a tool of the frontend.
pub open spec fn is_frontend_request(c: MessageContentView, tools: Seq<FrontendToolView>) -> bool {
    c matches MessageContentView::ToolRequest(r) && r.tool_call matches Ok(call) && tool_position(
        tools,
        call.name,
    ) is Some
}

/// The requests among `content` that are for a tool of the frontend.
pub open spec fn frontend_requests(
    content: Seq<MessageContentView>,
    tools: Seq<FrontendToolView>,
) -> Seq<ToolRequestView>
    decreases content.len(),
{
    if content.len() == 0 {
        Seq::empty()
    } else {
        let rest = frontend_requests(content.drop_last(), tools);
        match content.last() {
            MessageContentView::ToolRequest(r) => if is_frontend_request(content.last(), tools) {
                rest.push(r)
            } else {
                rest
            },
            _ => rest,
        }
    }
}

/// The requests among `content` that are not for a tool of the frontend.
pub open spec fn remaining_requests(
    content: Seq<MessageContentView>,
    tools: Seq<FrontendToolView>,
) -> Seq<ToolRequestView>
    decreases content.len(),
{
    if content.len() == 0 {
        Seq::empty()
    } else {
        let rest = remaining_requests(content.drop_last(), tools);
        match content.last() {
            MessageContentView::ToolRequest(r) => if is_frontend_request(content.last(), tools) {
                rest
            } else {
                rest.push(r)
            },
            _ => rest,
        }
    }
}

/// The content without the requests for tools of the frontend.
pub open spec fn filtered_content(
    content: Seq<MessageContentView>,
    tools: Seq<FrontendToolView>,
) -> Seq<MessageContentView>
    decreases content.len(),
{
    if content.len() == 0 {
        Seq::empty()
    } else {
        let rest = filtered_content(content.drop_last(), tools);
        if is_frontend_request(content.last(), tools) {
            rest
        } else {
            rest.push(content.last())
        }
    }
}

/// The names of the tools that the well-formed requests among `requests` call.
pub open spec fn called_names(requests: Seq<ToolRequestView>) -> Seq<Seq<char>>
    decreases requests.len(),
{
    if requests.len() == 0 {
        Seq::empty()
    } else {
        let rest = called_names(requests.drop_last());
        match requests.last().tool_call {
            Ok(call) => rest.push(call.name),
            Err(_) => rest,
        }
    }
}

/// One `RecordToolCall` for each name.
pub open spec fn record_actions(names: Seq<Seq<char>>) -> Seq<ActionView> {
    Seq::new(names.len(), |i: int| ActionView::RecordToolCall(names[i]))
}

/// The message with `result` as the answer to each of `requests`, in their order.
pub open spec fn answer_all(
    message: MessageView,
    requests: Seq<ToolRequestView>,
    result: ToolResultView,
) -> MessageView
    decreases requests.len(),
{
    if requests.len() == 0 {
        message
    } else {
        answer_all(message, requests.drop_last(), result).with_tool_response(
            requests.last().id,
            result,
        )
    }
}

/// The message with the answer to each approved request that cannot be dispatched because its
/// call did not parse: the answer is that error.
pub open spec fn answer_unparsed(message: MessageView, approved: Seq<ToolRequestView>) -> MessageView
    decreases approved.len(),
{
    if approved.len() == 0 {
        message
    } else {
        let rest = answer_unparsed(message, approved.drop_last());
        match approved.last().tool_call {
            Ok(_) => rest,
            Err(e) => rest.with_tool_response(approved.last().id, Err(e)),
        }
    }
}

/// The ids of the approved requests that are dispatched.
pub open spec fn dispatched_ids(approved: Seq<ToolRequestView>) -> Seq<Seq<char>>
    decreases approved.len(),
{
    if approved.len() == 0 {
        Seq::empty()
    } else {
        let rest = dispatched_ids(approved.drop_last());
        match approved.last().tool_call {
            Ok(_) => rest.push(approved.last().id),
            Err(_) => rest,
        }
    }
}

/// One `Dispatch` for each approved request whose call parsed.
pub open spec fn dispatch_actions(approved: Seq<ToolRequestView>) -> Seq<ActionView>
    decreases approved.len(),
{
    if approved.len() == 0 {
        Seq::empty()
    } else {
        let rest = dispatch_actions(approved.drop_last());
        match approved.last().tool_call {
            Ok(call) => rest.push(ActionView::Dispatch { id: approved.last().id, tool_call: call }),
            Err(_) => rest,
        }
    }
}

/// The message that asks the frontend to run a tool.
pub open spec fn frontend_request_message(request: ToolRequestView, now: i64) -> MessageView {
    MessageView::empty(Role::Assistant, now).with(MessageContentView::FrontendToolRequest(request))
}

/// The message that asks the user whether a tool may be called.
pub open spec fn confirmation_message(id: Seq<char>, call: ToolCallView, now: i64) -> MessageView {
    MessageView::empty(Role::User, now).with(
        MessageContentView::ToolConfirmationRequest(
            ToolConfirmationRequestView {
                id,
                tool_name: call.name,
                arguments: call.arguments,
                prompt: Some(CONFIRMATION_PROMPT@),
            },
        ),
    )
}

/// The message that ends the loop after the model failed.
pub open spec fn terminal_message(error: ProviderErrorView, now: i64) -> MessageView {
    match error {
        ProviderErrorView::ContextLengthExceeded(_) => MessageView::empty(Role::Assistant, now).with(
            MessageContentView::ContextLengthExceeded(CONTEXT_LENGTH_EXCEEDED_TEXT@),
        ),
        ProviderErrorView::Other(e) => MessageView::empty(Role::Assistant, now).with(
            MessageContentView::Text(provider_error_text(e)),
        ),
    }
}

impl ReplyView {
    /// The loop before its first turn.
    pub open spec fn start(mode: Seq<char>, history: Seq<MessageView>) -> ReplyView {
        ReplyView {
            mode,
            phase: Phase::Generating,
            history,
            response: MessageView::empty(Role::Assistant, 0),
            accumulator: MessageView::empty(Role::User, 0),
            frontend: Seq::empty(),
            remaining: Seq::empty(),
            approval: Seq::empty(),
            enable_ids: Seq::empty(),
            in_flight: Seq::empty(),
            all_install_successful: true,
        }
    }

    /// The ids of the requests of this turn that have no answer yet.
    pub open spec fn outstanding(self) -> Seq<Seq<char>> {
        ids_of(self.frontend) + ids_of(self.remaining) + ids_of(self.approval) + self.in_flight
    }

    /// The ids of the requests of this turn that have their answer.
    pub open spec fn answered(self) -> Seq<Seq<char>> {
        response_ids(self.accumulator.content)
    }

    /// Whether a turn is under way.
    pub open spec fn in_turn(self) -> bool {
        self.phase != Phase::Generating && self.phase != Phase::Done
    }

    /// The turn ends: the tools are refreshed where that is due, the tool-response message is
    /// handed out, the model's answer and the tool-response message join the conversation, and
    /// the model is asked again.
    pub open spec fn finish_turn(self, refresh: bool) -> (ReplyView, Seq<ActionView>) {
        (
            ReplyView {
                phase: Phase::Generating,
                history: self.history.push(self.response).push(self.accumulator),
                ..self
            },
            (if refresh {
                seq![ActionView::RefreshTools]
            } else {
                Seq::empty()
            }) + seq![
                ActionView::Emit(AgentEventView::Message(self.accumulator)),
                ActionView::Yield,
                ActionView::CallProvider,
            ],
        )
    }

    /// Goes on with the requests that need approval: the user is asked about the first of them.
    /// One whose call did not parse is answered with that error and passed over. When none is
    /// left, the dispatched calls are collected, and where none was dispatched the turn ends.
    pub open spec fn settle_approval(self, now: i64) -> (ReplyView, Seq<ActionView>)
        decreases self.approval.len(),
    {
        if self.approval.len() == 0 {
            if self.in_flight.len() == 0 {
                self.finish_turn(self.all_install_successful)
            } else {
                (ReplyView { phase: Phase::Collecting, ..self }, seq![ActionView::Collect])
            }
        } else {
            let head = self.approval.first();
            match head.tool_call {
                Ok(call) => (
                    ReplyView { phase: Phase::Approving, ..self },
                    seq![
                        ActionView::Emit(
                            AgentEventView::Message(confirmation_message(head.id, call, now)),
                        ),
                        ActionView::AwaitConfirmation(head.id),
                    ],
                ),
                Err(e) => (ReplyView {
                    approval: self.approval.drop_first(),
                    accumulator: self.accumulator.with_tool_response(head.id, Err(e)),
                    ..self
                }).settle_approval(now),
            }
        }
    }

    /// Goes on with the frontend's requests: the frontend is asked to run the first of them.
    /// When none is left, the remaining requests are all answered as skipped in chat mode,
    /// which ends the turn, and are handed to the judge in every other mode.
    pub open spec fn settle_frontend(self, now: i64) -> (ReplyView, Seq<ActionView>) {
        if self.frontend.len() > 0 {
            let head = self.frontend.first();
            (
                ReplyView { phase: Phase::Frontend, ..self },
                seq![
                    ActionView::Emit(AgentEventView::Message(frontend_request_message(head, now))),
                    ActionView::AwaitToolResult(head.id),
                ],
            )
        } else if self.mode == CHAT_MODE@ {
            (ReplyView {
                accumulator: answer_all(
                    self.accumulator,
                    self.remaining,
                    text_result(CHAT_MODE_TOOL_SKIPPED_RESPONSE@),
                ),
                remaining: Seq::empty(),
                ..self
            }).finish_turn(false)
        } else {
            (ReplyView { phase: Phase::Judging, ..self }, seq![ActionView::CheckPermissions])
        }
    }

    /// The model answered.
    pub open spec fn on_response(
        self,
        response: MessageView,
        tools: Seq<FrontendToolView>,
        has_selector: bool,
        now: i64,
    ) -> (ReplyView, Seq<ActionView>) {
        let frontend = frontend_requests(response.content, tools);
        let remaining = remaining_requests(response.content, tools);
        let filtered = MessageView { content: filtered_content(response.content, tools), ..response };
        let first = (if has_selector {
            record_actions(called_names(frontend) + called_names(remaining))
        } else {
            Seq::empty()
        }) + seq![ActionView::Emit(AgentEventView::Message(filtered)), ActionView::Yield];
        if frontend.len() + remaining.len() == 0 {
            (ReplyView { phase: Phase::Done, ..self }, first.push(ActionView::Finish))
        } else {
            let (next, actions) = (ReplyView {
                response,
                accumulator: MessageView::empty(Role::User, now),
                frontend,
                remaining,
                approval: Seq::empty(),
                enable_ids: Seq::empty(),
                in_flight: Seq::empty(),
                all_install_successful: true,
                ..self
            }).settle_frontend(now);
            (next, first + actions)
        }
    }

    /// The judge sorted the remaining requests. The approved ones are dispatched, the denied
    /// ones are answered as declined, and the user is asked about the others.
    pub open spec fn on_permissions(
        self,
        result: PermissionCheckResultView,
        enable_extension_ids: Seq<Seq<char>>,
        now: i64,
    ) -> (ReplyView, Seq<ActionView>) {
        let (next, actions) = (ReplyView {
            accumulator: answer_all(
                answer_unparsed(self.accumulator, result.approved),
                result.denied,
                text_result(DECLINED_RESPONSE@),
            ),
            remaining: Seq::empty(),
            approval: result.needs_approval,
            enable_ids: enable_extension_ids,
            in_flight: dispatched_ids(result.approved),
            ..self
        }).settle_approval(now);
        (next, dispatch_actions(result.approved) + actions)
    }

    /// The user decided on the first request that needs approval.
    pub open spec fn on_confirmation(self, confirmation: PermissionConfirmation, now: i64) -> (
        ReplyView,
        Seq<ActionView>,
    ) {
        let head = self.approval.first();
        let rest = ReplyView { approval: self.approval.drop_first(), ..self };
        match head.tool_call {
            Ok(call) => if confirmation.allows() {
                let (next, actions) = (ReplyView {
                    in_flight: self.in_flight.push(head.id),
                    ..rest
                }).settle_approval(now);
                (
                    next,
                    seq![ActionView::Dispatch { id: head.id, tool_call: call }] + (
                    if confirmation.permission == Permission::AlwaysAllow {
                        seq![ActionView::RememberAlwaysAllow(call.name)]
                    } else {
                        Seq::empty()
                    }) + actions,
                )
            } else {
                (ReplyView {
                    accumulator: self.accumulator.with_tool_response(
                        head.id,
                        text_result(DECLINED_RESPONSE@),
                    ),
                    ..rest
                }).settle_approval(now)
            },
            Err(e) => (ReplyView {
                accumulator: self.accumulator.with_tool_response(head.id, Err(e)),
                ..rest
            }).settle_approval(now),
        }
    }

    /// A running call ended.
    pub open spec fn on_finished(self, id: Seq<char>, result: ToolResultView) -> (
        ReplyView,
        Seq<ActionView>,
    ) {
        let next = ReplyView {
            in_flight: without_first(self.in_flight, id),
            accumulator: self.accumulator.with_tool_response(id, result),
            all_install_successful: self.all_install_successful && !(self.enable_ids.contains(id)
                && result is Err),
            ..self
        };
        if next.in_flight.len() == 0 {
            next.finish_turn(next.all_install_successful)
        } else {
            (next, Seq::empty())
        }
    }

    /// One step of the loop. An event that the phase does not wait for changes nothing and asks
    /// for nothing.
    pub open spec fn step(
        self,
        event: EventView,
        tools: Seq<FrontendToolView>,
        has_selector: bool,
        now: i64,
    ) -> (ReplyView, Seq<ActionView>) {
        match event {
            EventView::Abort => (ReplyView { phase: Phase::Done, ..self }, Seq::empty()),
            EventView::Response(response) if self.phase == Phase::Generating => self.on_response(
                response,
                tools,
                has_selector,
                now,
            ),
            EventView::ProviderFailed(error) if self.phase == Phase::Generating => (
                ReplyView { phase: Phase::Done, ..self },
                seq![
                    ActionView::Emit(AgentEventView::Message(terminal_message(error, now))),
                    ActionView::Finish,
                ],
            ),
            EventView::MeteringRejected(error) if self.phase == Phase::Generating => (
                ReplyView { phase: Phase::Done, ..self },
                seq![
                    ActionView::Emit(
                        AgentEventView::Message(
                            MessageView::empty(Role::Assistant, now).with(
                                MessageContentView::Text(metering_error_text(error)),
                            ),
                        ),
                    ),
                    ActionView::Finish,
                ],
            ),
            EventView::ToolResult { id, result } if self.phase == Phase::Frontend
                && self.frontend.len() > 0 && self.frontend.first().id == id => (ReplyView {
                frontend: self.frontend.drop_first(),
                accumulator: self.accumulator.with_tool_response(id, result),
                ..self
            }).settle_frontend(now),
            EventView::Permissions { sorted, enable_extension_ids } if self.phase
                == Phase::Judging => self.on_permissions(sorted, enable_extension_ids, now),
            EventView::Confirmation { id, confirmation } if self.phase == Phase::Approving
                && self.approval.len() > 0 && self.approval.first().id == id => self.on_confirmation(
                confirmation,
                now,
            ),
            EventView::Notification { id, message } if self.phase == Phase::Collecting
                && self.in_flight.contains(id) => (
                self,
                seq![ActionView::Emit(AgentEventView::McpNotification((id, message)))],
            ),
            EventView::Finished { id, result } if self.phase == Phase::Collecting
                && self.in_flight.contains(id) => self.on_finished(id, result),
            _ => (self, Seq::empty()),
        }
    }
}

impl ReplyView {
    /// The loop after a sequence of events, each taken at the time `now`, and all that was
    /// asked for on the way, in order.
    pub open spec fn run(
        self,
        events: Seq<EventView>,
        tools: Seq<FrontendToolView>,
        has_selector: bool,
        now: i64,
    ) -> (ReplyView, Seq<ActionView>)
        decreases events.len(),
    {
        if events.len() == 0 {
            (self, Seq::empty())
        } else {
            let (mid, earlier) = self.run(events.drop_last(), tools, has_selector, now);
            let (next, later) = mid.step(events.last(), tools, has_selector, now);
            (next, earlier + later)
        }
    }
}

/// The events that the items of the running calls are, in the order in which the merged
/// stream delivered them.
pub open spec fn item_events(items: Seq<(Seq<char>, ToolItemView)>) -> Seq<EventView> {
    Seq::new(
        items.len(),
        |i: int|
            match items[i].1 {
                ToolItemView::Message(message) => EventView::Notification {
                    id: items[i].0,
                    message,
                },
                ToolItemView::Result(result) => EventView::Finished { id: items[i].0, result },
            },
    )
}

/// One item of a running call.
pub enum ToolItemView {
    Message(Seq<char>),
    Result(ToolResultView),
}

} // verus!
