//! The conversation loop, run step by step on the caller's events.
use vstd::prelude::*;
use crate::agent::Agent;
use crate::catalog::same_text;
use crate::extension::join3;
use crate::ids::{contains_id, id_views, occurrences, remove_first};
use crate::message::{AgentEvent, JsonRpcMessage, Message, MessageContent, ToolRequest};
use crate::permission::{ids_of, PermissionCheckResult, PermissionConfirmation, Permission};
use crate::stream::ToolStreamItem;
use crate::tool::{make_text_result, result_view, ToolCall, ToolResult};
use crate::turn::{
    answer_all, answer_unparsed, called_names, dispatch_actions, dispatched_ids, filtered_content,
    frontend_requests, item_events, record_actions, remaining_requests, ActionView, EventView,
    Phase, ProviderError, ReplyView, ToolItemView, CHAT_MODE, CHAT_MODE_TOOL_SKIPPED_RESPONSE, CONFIRMATION_PROMPT,
    CONTEXT_LENGTH_EXCEEDED_TEXT, DECLINED_RESPONSE,
};

verus! {

/// What happened outside.
#[derive(Debug, PartialEq, Eq)]
pub enum Event {
    /// The model answered and the metering hook took the usage.
    Response(Message),
    /// The model failed.
    ProviderFailed(ProviderError),
    /// The metering hook rejected the usage; its error is carried as text.
    MeteringRejected(String),
    /// The frontend reported the result of a tool.
    ToolResult { id: String, result: ToolResult },
    /// The judge sorted the remaining requests.
    Permissions { sorted: PermissionCheckResult, enable_extension_ids: Vec<String> },
    /// The user decided on a request.
    Confirmation { id: String, confirmation: PermissionConfirmation },
    /// A running call sent a notification or ended.
    ToolItem { id: String, item: ToolStreamItem<ToolResult> },
    /// The caller gives up.
    Abort,
}

impl View for Event {
    type V = EventView;

    open spec fn view(&self) -> EventView {
        match self {
            Event::Response(m) => EventView::Response(m@),
            Event::ProviderFailed(e) => EventView::ProviderFailed(e@),
            Event::MeteringRejected(e) => EventView::MeteringRejected(e@),
            Event::ToolResult { id, result } => EventView::ToolResult {
                id: id@,
                result: result_view(*result),
            },
            Event::Permissions { sorted, enable_extension_ids } => EventView::Permissions {
                sorted: sorted@,
                enable_extension_ids: id_views(enable_extension_ids@),
            },
            Event::Confirmation { id, confirmation } => EventView::Confirmation {
                id: id@,
                confirmation: *confirmation,
            },
            Event::ToolItem { id, item } => match item {
                ToolStreamItem::Message(m) => EventView::Notification { id: id@, message: m@ },
                ToolStreamItem::Result(r) => EventView::Finished {
                    id: id@,
                    result: result_view(*r),
                },
            },
            Event::Abort => EventView::Abort,
        }
    }
}

/// What the caller has to do.
#[derive(Debug, PartialEq, Eq)]
pub enum Action {
    /// Ask the model for its next answer.
    CallProvider,
    /// Hand an event to whoever reads the loop's output.
    Emit(AgentEvent),
    /// Let other work run.
    Yield,
    /// Tell the router's selector that a tool was called.
    RecordToolCall(String),
    /// Come back with the result that the frontend supplies for this request.
    AwaitToolResult(String),
    /// Have the judge sort the remaining requests.
    CheckPermissions,
    /// Dispatch this call and queue its stream.
    Dispatch { id: String, tool_call: ToolCall },
    /// Come back with the confirmation that the user supplies for this request.
    AwaitConfirmation(String),
    /// Remember that the user always allows this tool.
    RememberAlwaysAllow(String),
    /// Run the queued streams together and come back with each item.
    Collect,
    /// Recompute the tools and the system prompt.
    RefreshTools,
    /// Stop.
    Finish,
}

impl View for Action {
    type V = ActionView;

    open spec fn view(&self) -> ActionView {
        match self {
            Action::CallProvider => ActionView::CallProvider,
            Action::Emit(e) => ActionView::Emit(e@),
            Action::Yield => ActionView::Yield,
            Action::RecordToolCall(n) => ActionView::RecordToolCall(n@),
            Action::AwaitToolResult(id) => ActionView::AwaitToolResult(id@),
            Action::CheckPermissions => ActionView::CheckPermissions,
            Action::Dispatch { id, tool_call } => ActionView::Dispatch {
                id: id@,
                tool_call: tool_call@,
            },
            Action::AwaitConfirmation(id) => ActionView::AwaitConfirmation(id@),
            Action::RememberAlwaysAllow(n) => ActionView::RememberAlwaysAllow(n@),
            Action::Collect => ActionView::Collect,
            Action::RefreshTools => ActionView::RefreshTools,
            Action::Finish => ActionView::Finish,
        }
    }
}

impl DeepView for Action {
    type V = ActionView;

    open spec fn deep_view(&self) -> ActionView {
        self@
    }
}

/// Puts one more action at the end of the list.
fn push_action(actions: &mut Vec<Action>, action: Action)
    ensures
        final(actions).deep_view() == old(actions).deep_view().push(action@),
{
    actions.push(action);
    assert(actions.deep_view() =~= old(actions).deep_view().push(action@));
}

/// Takes the first request off the list.
fn take_first(requests: &mut Vec<ToolRequest>) -> (head: ToolRequest)
    requires
        old(requests).len() > 0,
    ensures
        head@ == old(requests).deep_view().first(),
        final(requests).deep_view() == old(requests).deep_view().drop_first(),
        final(requests).len() == old(requests).len() - 1,
{
    let head = requests.remove(0);
    assert(requests.deep_view() =~= old(requests).deep_view().drop_first());
    head
}

/// The conversation loop.
pub struct Reply {
    mode: String,
    phase: Phase,
    history: Vec<Message>,
    response: Message,
    accumulator: Message,
    frontend: Vec<ToolRequest>,
    remaining: Vec<ToolRequest>,
    approval: Vec<ToolRequest>,
    enable_ids: Vec<String>,
    in_flight: Vec<String>,
    all_install_successful: bool,
}

impl View for Reply {
    type V = ReplyView;

    closed spec fn view(&self) -> ReplyView {
        ReplyView {
            mode: self.mode@,
            phase: self.phase,
            history: self.history.deep_view(),
            response: self.response@,
            accumulator: self.accumulator@,
            frontend: self.frontend.deep_view(),
            remaining: self.remaining.deep_view(),
            approval: self.approval.deep_view(),
            enable_ids: id_views(self.enable_ids@),
            in_flight: id_views(self.in_flight@),
            all_install_successful: self.all_install_successful,
        }
    }
}

impl Reply {
    /// While a turn is under way, each request of the turn is either answered or open, as
    /// often as the model made it.
    pub open spec fn wf(&self) -> bool {
        self@.inv()
    }

    /// The loop before its first turn, on the conversation so far. The caller begins by asking
    /// the model.
    pub fn new(messages: Vec<Message>, mode: String) -> (reply: Reply)
        ensures
            reply.wf(),
            reply@ == ReplyView::start(mode@, messages.deep_view()),
    {
        let reply = Reply {
            mode,
            phase: Phase::Generating,
            history: messages,
            response: Message::assistant(0),
            accumulator: Message::user(0),
            frontend: Vec::new(),
            remaining: Vec::new(),
            approval: Vec::new(),
            enable_ids: Vec::new(),
            in_flight: Vec::new(),
            all_install_successful: true,
        };
        assert(reply@.frontend =~= Seq::empty());
        assert(reply@.remaining =~= Seq::empty());
        assert(reply@.approval =~= Seq::empty());
        assert(reply@.enable_ids =~= Seq::empty());
        assert(reply@.in_flight =~= Seq::empty());
        reply
    }

    /// Where the loop stands.
    pub fn phase(&self) -> (phase: Phase)
        ensures
            phase == self@.phase,
    {
        self.phase
    }

    /// The mode that the loop runs in.
    pub fn mode(&self) -> (mode: String)
        ensures
            mode@ == self@.mode,
    {
        self.mode.clone()
    }

    /// The conversation up to the current turn.
    pub fn messages(&self) -> (messages: Vec<Message>)
        ensures
            messages.deep_view() == self@.history,
    {
        clone_messages(&self.history)
    }

    /// The tool-response message of the current turn, as far as it has grown.
    pub fn tool_response(&self) -> (message: Message)
        ensures
            message@ == self@.accumulator,
    {
        self.accumulator.clone()
    }

    /// The requests that the judge has to sort.
    pub fn remaining_requests(&self) -> (requests: Vec<ToolRequest>)
        ensures
            requests.deep_view() == self@.remaining,
    {
        clone_requests(&self.remaining)
    }

    /// The ids of the calls that were dispatched and have not ended.
    pub fn in_flight(&self) -> (ids: Vec<String>)
        ensures
            id_views(ids@) == self@.in_flight,
    {
        clone_ids(&self.in_flight)
    }
}

/// Copies a list of messages.
pub fn clone_messages(messages: &Vec<Message>) -> (copy: Vec<Message>)
    ensures
        copy.deep_view() == messages.deep_view(),
{
    let mut copy: Vec<Message> = Vec::new();
    let mut i: usize = 0;
    while i < messages.len()
        invariant
            0 <= i <= messages.len(),
            copy@.len() == i,
            forall|j: int| 0 <= j < i ==> (#[trigger] copy@[j])@ == messages@[j]@,
        decreases messages.len() - i,
    {
        copy.push(messages[i].clone());
        i += 1;
    }
    assert(copy.deep_view() =~= messages.deep_view());
    copy
}

/// Copies a list of requests.
pub fn clone_requests(requests: &Vec<ToolRequest>) -> (copy: Vec<ToolRequest>)
    ensures
        copy.deep_view() == requests.deep_view(),
{
    let mut copy: Vec<ToolRequest> = Vec::new();
    let mut i: usize = 0;
    while i < requests.len()
        invariant
            0 <= i <= requests.len(),
            copy@.len() == i,
            forall|j: int| 0 <= j < i ==> (#[trigger] copy@[j])@ == requests@[j]@,
        decreases requests.len() - i,
    {
        copy.push(requests[i].clone());
        i += 1;
    }
    assert(copy.deep_view() =~= requests.deep_view());
    copy
}

/// Copies a list of ids.
pub fn clone_ids(ids: &Vec<String>) -> (copy: Vec<String>)
    ensures
        id_views(copy@) == id_views(ids@),
{
    let mut copy: Vec<String> = Vec::new();
    let mut i: usize = 0;
    while i < ids.len()
        invariant
            0 <= i <= ids.len(),
            copy@.len() == i,
            forall|j: int| 0 <= j < i ==> (#[trigger] copy@[j])@ == ids@[j]@,
        decreases ids.len() - i,
    {
        copy.push(ids[i].clone());
        i += 1;
    }
    assert(id_views(copy@) =~= id_views(ids@));
    copy
}

/// Puts `text` as the answer to each of `requests` at the end of the message.
pub fn answer_each(message: &mut Message, requests: &Vec<ToolRequest>, text: &str)
    ensures
        final(message)@ == answer_all(
            old(message)@,
            requests.deep_view(),
            crate::tool::text_result(text@),
        ),
{
    let ghost all = requests.deep_view();
    let ghost result = crate::tool::text_result(text@);
    let mut i: usize = 0;
    assert(all.take(0) =~= Seq::empty());
    while i < requests.len()
        invariant
            0 <= i <= requests.len(),
            all == requests.deep_view(),
            result == crate::tool::text_result(text@),
            message@ == answer_all(old(message)@, all.take(i as int), result),
        decreases requests.len() - i,
    {
        assert(all.take(i + 1).drop_last() =~= all.take(i as int));
        assert(all.take(i + 1).last() == requests@[i as int]@);
        message.add_tool_response(requests[i].id.clone(), make_text_result(text));
        i += 1;
    }
    assert(all.take(i as int) =~= all);
}

/// How often `id` occurs in `ids`.
pub fn count_id(ids: &Vec<String>, id: &str) -> (n: usize)
    ensures
        n == occurrences(id_views(ids@), id@),
{
    let wanted = String::from_str(id);
    let ghost all = id_views(ids@);
    let mut n: usize = 0;
    let mut i: usize = 0;
    assert(all.take(0) =~= Seq::empty());
    while i < ids.len()
        invariant
            0 <= i <= ids.len(),
            all == id_views(ids@),
            wanted@ == id@,
            n == occurrences(all.take(i as int), id@),
            n <= i,
        decreases ids.len() - i,
    {
        assert(all.take(i + 1).drop_last() =~= all.take(i as int));
        assert(all.take(i + 1).last() == ids@[i as int]@);
        if ids[i] == wanted {
            n += 1;
        }
        i += 1;
    }
    assert(all.take(i as int) =~= all);
    n
}

/// Puts the ids of `requests` at the end of `ids`.
fn collect_ids(ids: &mut Vec<String>, requests: &Vec<ToolRequest>)
    ensures
        id_views(final(ids)@) == id_views(old(ids)@) + ids_of(requests.deep_view()),
{
    let mut i: usize = 0;
    let ghost all = ids_of(requests.deep_view());
    assert(id_views(ids@) =~= id_views(old(ids)@) + all.take(0));
    while i < requests.len()
        invariant
            0 <= i <= requests.len(),
            all == ids_of(requests.deep_view()),
            id_views(ids@) == id_views(old(ids)@) + all.take(i as int),
        decreases requests.len() - i,
    {
        let ghost before = id_views(ids@);
        ids.push(requests[i].id.clone());
        assert(id_views(ids@) =~= before.push(requests@[i as int].id@));
        assert(all.take(i + 1) =~= all.take(i as int).push(requests@[i as int].id@));
        assert(id_views(ids@) =~= id_views(old(ids)@) + all.take(i + 1));
        i += 1;
    }
    assert(all.take(i as int) =~= all);
}

/// Whether each id stands in `a` as often as in `b`.
pub fn same_ids(a: &Vec<String>, b: &Vec<String>) -> (same: bool)
    ensures
        same == (forall|id: Seq<char>|
            occurrences(id_views(a@), id) == occurrences(id_views(b@), id)),
{
    let mut i: usize = 0;
    while i < a.len()
        invariant
            0 <= i <= a.len(),
            forall|j: int|
                0 <= j < i ==> occurrences(id_views(a@), #[trigger] id_views(a@)[j]) == occurrences(
                    id_views(b@),
                    id_views(a@)[j],
                ),
        decreases a.len() - i,
    {
        let left = count_id(a, a[i].as_str());
        let right = count_id(b, a[i].as_str());
        if left != right {
            assert(id_views(a@)[i as int] == a@[i as int]@);
            return false;
        }
        assert(id_views(a@)[i as int] == a@[i as int]@);
        i += 1;
    }
    let mut k: usize = 0;
    while k < b.len()
        invariant
            0 <= k <= b.len(),
            forall|j: int|
                0 <= j < a.len() ==> occurrences(id_views(a@), #[trigger] id_views(a@)[j])
                    == occurrences(id_views(b@), id_views(a@)[j]),
            forall|j: int|
                0 <= j < k ==> occurrences(id_views(a@), #[trigger] id_views(b@)[j]) == occurrences(
                    id_views(b@),
                    id_views(b@)[j],
                ),
        decreases b.len() - k,
    {
        let left = count_id(a, b[k].as_str());
        let right = count_id(b, b[k].as_str());
        if left != right {
            assert(id_views(b@)[k as int] == b@[k as int]@);
            return false;
        }
        assert(id_views(b@)[k as int] == b@[k as int]@);
        k += 1;
    }
    proof {
        assert forall|id: Seq<char>|
            occurrences(id_views(a@), id) == occurrences(id_views(b@), id) by {
            crate::ids::lemma_occurrences_contains(id_views(a@), id);
            crate::ids::lemma_occurrences_contains(id_views(b@), id);
            if id_views(a@).contains(id) {
                let j = choose|j: int| 0 <= j < id_views(a@).len() && id_views(a@)[j] == id;
                assert(occurrences(id_views(a@), id_views(a@)[j]) == occurrences(
                    id_views(b@),
                    id_views(a@)[j],
                ));
            } else if id_views(b@).contains(id) {
                let j = choose|j: int| 0 <= j < id_views(b@).len() && id_views(b@)[j] == id;
                assert(occurrences(id_views(a@), id_views(b@)[j]) == occurrences(
                    id_views(b@),
                    id_views(b@)[j],
                ));
            }
        }
    }
    true
}

impl PermissionCheckResult {
    /// Whether the judge has sorted each of `requests` into exactly one of its three lists, and
    /// nothing else.
    pub fn sorts_requests(&self, requests: &Vec<ToolRequest>) -> (sorted: bool)
        ensures
            sorted == self@.sorts(requests.deep_view()),
    {
        let mut all: Vec<String> = Vec::new();
        collect_ids(&mut all, &self.approved);
        collect_ids(&mut all, &self.denied);
        collect_ids(&mut all, &self.needs_approval);
        let mut wanted: Vec<String> = Vec::new();
        collect_ids(&mut wanted, requests);
        proof {
            crate::laws::lemma_ids_concat(self@.approved + self@.denied, self@.needs_approval);
            crate::laws::lemma_ids_concat(self@.approved, self@.denied);
            assert(id_views(all@) =~= ids_of(self@.all()));
            assert(id_views(wanted@) =~= ids_of(requests.deep_view()));
        }
        same_ids(&all, &wanted)
    }
}

impl Agent {
    /// Splits the model's requests into those for tools of the frontend and the others, and
    /// gives the model's answer without the requests for the frontend.
    pub fn categorize_tool_requests(&self, response: &Message) -> (out: (
        Vec<ToolRequest>,
        Vec<ToolRequest>,
        Message,
    ))
        ensures
            out.0.deep_view() == frontend_requests(response@.content, self.frontend_tools()),
            out.1.deep_view() == remaining_requests(response@.content, self.frontend_tools()),
            out.2@ == (crate::message::MessageView {
                content: filtered_content(response@.content, self.frontend_tools()),
                ..response@
            }),
    {
        let ghost content = response@.content;
        let ghost tools = self.frontend_tools();
        let mut frontend: Vec<ToolRequest> = Vec::new();
        let mut remaining: Vec<ToolRequest> = Vec::new();
        let mut filtered: Vec<MessageContent> = Vec::new();
        let mut i: usize = 0;
        assert(content.take(0) =~= Seq::empty());
        assert(frontend.deep_view() =~= Seq::empty());
        assert(remaining.deep_view() =~= Seq::empty());
        assert(filtered.deep_view() =~= Seq::empty());
        while i < response.content.len()
            invariant
                0 <= i <= response.content.len(),
                content == response@.content,
                content.len() == response.content.len(),
                tools == self.frontend_tools(),
                frontend.deep_view() == frontend_requests(content.take(i as int), tools),
                remaining.deep_view() == remaining_requests(content.take(i as int), tools),
                filtered.deep_view() == filtered_content(content.take(i as int), tools),
            decreases response.content.len() - i,
        {
            let part = &response.content[i];
            assert(content.take(i + 1).drop_last() =~= content.take(i as int));
            assert(content.take(i + 1).last() == part@);
            let ghost f0 = frontend.deep_view();
            let ghost r0 = remaining.deep_view();
            let ghost c0 = filtered.deep_view();
            let for_frontend = match part {
                MessageContent::ToolRequest(request) => match &request.tool_call {
                    Ok(call) => self.is_frontend_tool(call.name.as_str()),
                    Err(_) => false,
                },
                _ => false,
            };
            assert(for_frontend == crate::turn::is_frontend_request(part@, tools));
            match part {
                MessageContent::ToolRequest(request) => {
                    if for_frontend {
                        frontend.push(request.clone());
                        assert(frontend.deep_view() =~= f0.push(request@));
                    } else {
                        remaining.push(request.clone());
                        assert(remaining.deep_view() =~= r0.push(request@));
                    }
                },
                _ => {},
            }
            if !for_frontend {
                filtered.push(part.clone());
                assert(filtered.deep_view() =~= c0.push(part@));
            }
            i += 1;
        }
        assert(content.take(i as int) =~= content);
        (frontend, remaining, Message { role: response.role, created: response.created, content: filtered })
    }
}

/// Puts one `RecordToolCall` for each well-formed request at the end of the list.
fn record_calls(actions: &mut Vec<Action>, requests: &Vec<ToolRequest>)
    ensures
        final(actions).deep_view() == old(actions).deep_view() + record_actions(
            called_names(requests.deep_view()),
        ),
{
    let ghost all = requests.deep_view();
    let ghost base = actions.deep_view();
    let mut i: usize = 0;
    assert(all.take(0) =~= Seq::empty());
    assert(actions.deep_view() =~= base + record_actions(called_names(all.take(0))));
    while i < requests.len()
        invariant
            0 <= i <= requests.len(),
            all == requests.deep_view(),
            base == old(actions).deep_view(),
            actions.deep_view() == base + record_actions(called_names(all.take(i as int))),
        decreases requests.len() - i,
    {
        assert(all.take(i + 1).drop_last() =~= all.take(i as int));
        assert(all.take(i + 1).last() == requests@[i as int]@);
        match &requests[i].tool_call {
            Ok(call) => {
                push_action(actions, Action::RecordToolCall(call.name.clone()));
                assert(actions.deep_view() =~= base + record_actions(
                    called_names(all.take(i + 1)),
                ));
            },
            Err(_) => {},
        }
        i += 1;
    }
    assert(all.take(i as int) =~= all);
}

impl Reply {
    /// Ends the turn.
    fn finish_turn(&mut self, refresh: bool, actions: &mut Vec<Action>)
        ensures
            final(self)@ == old(self)@.finish_turn(refresh).0,
            final(actions).deep_view() == old(actions).deep_view() + old(self)@.finish_turn(
                refresh,
            ).1,
    {
        if refresh {
            push_action(actions, Action::RefreshTools);
        }
        push_action(actions, Action::Emit(AgentEvent::Message(self.accumulator.clone())));
        push_action(actions, Action::Yield);
        push_action(actions, Action::CallProvider);
        self.history.push(self.response.clone());
        self.history.push(self.accumulator.clone());
        self.phase = Phase::Generating;
        assert(self.history.deep_view() =~= old(self).history.deep_view().push(
            old(self).response@,
        ).push(old(self).accumulator@));
        assert(actions.deep_view() =~= old(actions).deep_view() + old(self)@.finish_turn(
            refresh,
        ).1);
    }

    /// Goes on with the requests that need approval.
    fn settle_approval(&mut self, now: i64, actions: &mut Vec<Action>)
        ensures
            final(self)@ == old(self)@.settle_approval(now).0,
            final(actions).deep_view() == old(actions).deep_view() + old(self)@.settle_approval(
                now,
            ).1,
    {
        loop
            invariant
                self@.settle_approval(now) == old(self)@.settle_approval(now),
                actions.deep_view() == old(actions).deep_view(),
            decreases self.approval.len(),
        {
            if self.approval.len() == 0 {
                if self.in_flight.len() == 0 {
                    self.finish_turn(self.all_install_successful, actions);
                } else {
                    self.phase = Phase::Collecting;
                    push_action(actions, Action::Collect);
                    assert(actions.deep_view() =~= old(actions).deep_view() + old(
                        self,
                    )@.settle_approval(now).1);
                }
                return ;
            }
            let parsed = match &self.approval[0].tool_call {
                Ok(call) => Some(call.clone()),
                Err(_) => None,
            };
            match parsed {
                Some(call) => {
                    let id = self.approval[0].id.clone();
                    let message = Message::user(now).with_tool_confirmation_request(
                        id.clone(),
                        call.name,
                        call.arguments,
                        Some(String::from_str(CONFIRMATION_PROMPT)),
                    );
                    push_action(actions, Action::Emit(AgentEvent::Message(message)));
                    push_action(actions, Action::AwaitConfirmation(id));
                    self.phase = Phase::Approving;
                    assert(actions.deep_view() =~= old(actions).deep_view() + old(
                        self,
                    )@.settle_approval(now).1);
                    return ;
                },
                None => {
                    let head = take_first(&mut self.approval);
                    match head.tool_call {
                        Err(e) => {
                            self.accumulator.add_tool_response(head.id, Err(e));
                        },
                        Ok(_) => {
                            proof {
                                assert(false);
                            }
                        },
                    }
                },
            }
        }
    }

    /// Goes on with the frontend's requests.
    fn settle_frontend(&mut self, now: i64, actions: &mut Vec<Action>)
        ensures
            final(self)@ == old(self)@.settle_frontend(now).0,
            final(actions).deep_view() == old(actions).deep_view() + old(self)@.settle_frontend(
                now,
            ).1,
    {
        if self.frontend.len() > 0 {
            let head = self.frontend[0].clone();
            let id = head.id.clone();
            let message = Message::assistant(now).with_frontend_tool_request(
                head.id,
                head.tool_call,
            );
            push_action(actions, Action::Emit(AgentEvent::Message(message)));
            push_action(actions, Action::AwaitToolResult(id));
            self.phase = Phase::Frontend;
            assert(actions.deep_view() =~= old(actions).deep_view() + old(self)@.settle_frontend(
                now,
            ).1);
        } else if same_text(self.mode.as_str(), CHAT_MODE) {
            answer_each(&mut self.accumulator, &self.remaining, CHAT_MODE_TOOL_SKIPPED_RESPONSE);
            self.remaining = Vec::new();
            assert(self.remaining.deep_view() =~= Seq::empty());
            self.finish_turn(false, actions);
        } else {
            self.phase = Phase::Judging;
            push_action(actions, Action::CheckPermissions);
            assert(actions.deep_view() =~= old(actions).deep_view() + old(self)@.settle_frontend(
                now,
            ).1);
        }
    }
}

/// Goes through the approved requests: one whose call parsed is dispatched, one whose call
/// did not parse is answered with that error.
fn dispatch_approved(
    accumulator: &mut Message,
    approved: &Vec<ToolRequest>,
    flight: &mut Vec<String>,
    actions: &mut Vec<Action>,
)
    requires
        old(flight).len() == 0,
    ensures
        final(accumulator)@ == answer_unparsed(old(accumulator)@, approved.deep_view()),
        id_views(final(flight)@) == dispatched_ids(approved.deep_view()),
        final(actions).deep_view() == old(actions).deep_view() + dispatch_actions(
            approved.deep_view(),
        ),
{
    let ghost all = approved.deep_view();
    let ghost base = actions.deep_view();
    let mut i: usize = 0;
    assert(all.take(0) =~= Seq::empty());
    assert(id_views(flight@) =~= dispatched_ids(all.take(0)));
    assert(actions.deep_view() =~= base + dispatch_actions(all.take(0)));
    while i < approved.len()
        invariant
            0 <= i <= approved.len(),
            all == approved.deep_view(),
            base == old(actions).deep_view(),
            accumulator@ == answer_unparsed(old(accumulator)@, all.take(i as int)),
            id_views(flight@) == dispatched_ids(all.take(i as int)),
            actions.deep_view() == base + dispatch_actions(all.take(i as int)),
        decreases approved.len() - i,
    {
        assert(all.take(i + 1).drop_last() =~= all.take(i as int));
        assert(all.take(i + 1).last() == approved@[i as int]@);
        let id = approved[i].id.clone();
        match &approved[i].tool_call {
            Ok(call) => {
                let ghost before = id_views(flight@);
                flight.push(id.clone());
                assert(id_views(flight@) =~= before.push(id@));
                push_action(actions, Action::Dispatch { id, tool_call: call.clone() });
                assert(actions.deep_view() =~= base + dispatch_actions(all.take(i + 1)));
            },
            Err(e) => {
                accumulator.add_tool_response(id, Err(e.clone()));
            },
        }
        i += 1;
    }
    assert(all.take(i as int) =~= all);
}

impl Reply {
    /// Whether the judge's sorting can be taken up: it has each of the remaining requests in
    /// exactly one of its lists.
    pub fn sorted_by(&self, sorted: &PermissionCheckResult) -> (ok: bool)
        ensures
            ok == sorted@.sorts(self@.remaining),
    {
        sorted.sorts_requests(&self.remaining)
    }

    /// The model answered.
    fn on_response(&mut self, agent: &Agent, response: Message, now: i64) -> (actions: Vec<
        Action,
    >)
        ensures
            final(self)@ == old(self)@.on_response(
                response@,
                agent.frontend_tools(),
                agent.selector() is Some,
                now,
            ).0,
            actions.deep_view() == old(self)@.on_response(
                response@,
                agent.frontend_tools(),
                agent.selector() is Some,
                now,
            ).1,
    {
        let mut actions: Vec<Action> = Vec::new();
        assert(actions.deep_view() =~= Seq::empty());
        let (frontend, remaining, filtered) = agent.categorize_tool_requests(&response);
        if agent.has_router_tool_selector() {
            record_calls(&mut actions, &frontend);
            record_calls(&mut actions, &remaining);
            assert(actions.deep_view() =~= record_actions(
                called_names(frontend.deep_view()) + called_names(remaining.deep_view()),
            ));
        }
        push_action(&mut actions, Action::Emit(AgentEvent::Message(filtered)));
        push_action(&mut actions, Action::Yield);
        let ghost first = actions.deep_view();
        assert(first =~= (if agent.selector() is Some {
            record_actions(called_names(frontend.deep_view()) + called_names(remaining.deep_view()))
        } else {
            Seq::empty()
        }) + seq![
            ActionView::Emit(crate::message::AgentEventView::Message(filtered@)),
            ActionView::Yield,
        ]);
        if frontend.len() == 0 && remaining.len() == 0 {
            self.phase = Phase::Done;
            push_action(&mut actions, Action::Finish);
        } else {
            self.response = response;
            self.accumulator = Message::user(now);
            self.frontend = frontend;
            self.remaining = remaining;
            self.approval = Vec::new();
            self.enable_ids = Vec::new();
            self.in_flight = Vec::new();
            self.all_install_successful = true;
            assert(self@.approval =~= Seq::empty());
            assert(self@.enable_ids =~= Seq::empty());
            assert(self@.in_flight =~= Seq::empty());
            self.settle_frontend(now, &mut actions);
        }
        actions
    }

    /// The judge sorted the remaining requests.
    fn on_permissions(
        &mut self,
        sorted: PermissionCheckResult,
        enable_extension_ids: Vec<String>,
        now: i64,
    ) -> (actions: Vec<Action>)
        ensures
            final(self)@ == old(self)@.on_permissions(
                sorted@,
                id_views(enable_extension_ids@),
                now,
            ).0,
            actions.deep_view() == old(self)@.on_permissions(
                sorted@,
                id_views(enable_extension_ids@),
                now,
            ).1,
    {
        let mut actions: Vec<Action> = Vec::new();
        let mut flight: Vec<String> = Vec::new();
        assert(actions.deep_view() =~= Seq::empty());
        dispatch_approved(&mut self.accumulator, &sorted.approved, &mut flight, &mut actions);
        answer_each(&mut self.accumulator, &sorted.denied, DECLINED_RESPONSE);
        self.remaining = Vec::new();
        self.approval = sorted.needs_approval;
        self.enable_ids = enable_extension_ids;
        self.in_flight = flight;
        assert(self@.remaining =~= Seq::empty());
        let ghost mid = self@;
        self.settle_approval(now, &mut actions);
        assert(actions.deep_view() =~= dispatch_actions(sorted@.approved) + mid.settle_approval(
            now,
        ).1);
        actions
    }

    /// The user decided on the first request that needs approval.
    fn on_confirmation(&mut self, confirmation: PermissionConfirmation, now: i64) -> (actions:
        Vec<Action>)
        requires
            old(self)@.approval.len() > 0,
        ensures
            final(self)@ == old(self)@.on_confirmation(confirmation, now).0,
            actions.deep_view() == old(self)@.on_confirmation(confirmation, now).1,
    {
        let mut actions: Vec<Action> = Vec::new();
        assert(actions.deep_view() =~= Seq::empty());
        let head = take_first(&mut self.approval);
        match head.tool_call {
            Ok(call) => {
                if confirmation.is_allowed() {
                    let ghost before = self@.in_flight;
                    self.in_flight.push(head.id.clone());
                    assert(self@.in_flight =~= before.push(head.id@));
                    let name = call.name.clone();
                    push_action(&mut actions, Action::Dispatch { id: head.id, tool_call: call });
                    match confirmation.permission {
                        Permission::AlwaysAllow => {
                            push_action(&mut actions, Action::RememberAlwaysAllow(name));
                        },
                        _ => {},
                    }
                    self.settle_approval(now, &mut actions);
                    assert(actions.deep_view() =~= old(self)@.on_confirmation(confirmation, now).1);
                } else {
                    self.accumulator.add_tool_response(
                        head.id,
                        make_text_result(DECLINED_RESPONSE),
                    );
                    self.settle_approval(now, &mut actions);
                    assert(actions.deep_view() =~= old(self)@.on_confirmation(confirmation, now).1);
                }
            },
            Err(e) => {
                self.accumulator.add_tool_response(head.id, Err(e));
                self.settle_approval(now, &mut actions);
                assert(actions.deep_view() =~= old(self)@.on_confirmation(confirmation, now).1);
            },
        }
        actions
    }

    /// A running call ended.
    fn on_finished(&mut self, id: String, result: ToolResult) -> (actions: Vec<Action>)
        ensures
            final(self)@ == old(self)@.on_finished(id@, result_view(result)).0,
            actions.deep_view() == old(self)@.on_finished(id@, result_view(result)).1,
    {
        let mut actions: Vec<Action> = Vec::new();
        assert(actions.deep_view() =~= Seq::empty());
        remove_first(&mut self.in_flight, id.as_str());
        let failed = result.is_err();
        if failed && contains_id(&self.enable_ids, id.as_str()) {
            self.all_install_successful = false;
        }
        self.accumulator.add_tool_response(id, result);
        if self.in_flight.len() == 0 {
            self.finish_turn(self.all_install_successful, &mut actions);
            assert(actions.deep_view() =~= old(self)@.on_finished(id@, result_view(result)).1);
        }
        actions
    }

    /// The loop ends with one message to the caller.
    fn end_with(&mut self, message: Message) -> (actions: Vec<Action>)
        ensures
            final(self)@ == (ReplyView { phase: Phase::Done, ..old(self)@ }),
            actions.deep_view() == seq![
                ActionView::Emit(crate::message::AgentEventView::Message(message@)),
                ActionView::Finish,
            ],
    {
        let mut actions: Vec<Action> = Vec::new();
        assert(actions.deep_view() =~= Seq::empty());
        self.phase = Phase::Done;
        push_action(&mut actions, Action::Emit(AgentEvent::Message(message)));
        push_action(&mut actions, Action::Finish);
        assert(actions.deep_view() =~= seq![
            ActionView::Emit(crate::message::AgentEventView::Message(message@)),
            ActionView::Finish,
        ]);
        actions
    }

    /// Takes one event and says what the caller has to do next, in that order. An event that
    /// the phase does not wait for changes nothing and asks for nothing.
    ///
    /// The sorting of the judge has to hold each remaining request in exactly one of its lists;
    /// `sorted_by` tests that.
    pub fn step(&mut self, agent: &Agent, event: Event, now: i64) -> (actions: Vec<Action>)
        requires
            old(self).wf(),
            old(self)@.accepts(event@),
        ensures
            final(self).wf(),
            final(self)@ == old(self)@.step(
                event@,
                agent.frontend_tools(),
                agent.selector() is Some,
                now,
            ).0,
            actions.deep_view() == old(self)@.step(
                event@,
                agent.frontend_tools(),
                agent.selector() is Some,
                now,
            ).1,
    {
        let nothing: Vec<Action> = Vec::new();
        assert(nothing.deep_view() =~= Seq::empty());
        proof {
            crate::laws::law_each_request_answered_once(
                self@,
                event@,
                agent.frontend_tools(),
                agent.selector() is Some,
                now,
            );
        }
        match event {
            Event::Abort => {
                self.phase = Phase::Done;
                nothing
            },
            Event::Response(response) => {
                match self.phase {
                    Phase::Generating => self.on_response(agent, response, now),
                    _ => nothing,
                }
            },
            Event::ProviderFailed(error) => {
                match self.phase {
                    Phase::Generating => {
                        let message = match error {
                            ProviderError::ContextLengthExceeded(_) => Message::assistant(
                                now,
                            ).with_context_length_exceeded(
                                String::from_str(CONTEXT_LENGTH_EXCEEDED_TEXT),
                            ),
                            ProviderError::Other(e) => Message::assistant(now).with_text(
                                join3(
                                    "Ran into this error: ",
                                    e.as_str(),
                                    ".\n\nPlease retry if you think this is a transient or recoverable error.",
                                ),
                            ),
                        };
                        self.end_with(message)
                    },
                    _ => nothing,
                }
            },
            Event::MeteringRejected(error) => {
                match self.phase {
                    Phase::Generating => {
                        let text = join3(
                            "Failed to pay service fee in agent loop: ",
                            error.as_str(),
                            "",
                        );
                        proof {
                            reveal_strlit("");
                            assert(text@ =~= crate::turn::metering_error_text(error@));
                        }
                        self.end_with(Message::assistant(now).with_text(text))
                    },
                    _ => nothing,
                }
            },
            Event::ToolResult { id, result } => {
                let awaited = match self.phase {
                    Phase::Frontend => self.frontend.len() > 0 && same_text(
                        self.frontend[0].id.as_str(),
                        id.as_str(),
                    ),
                    _ => false,
                };
                if awaited {
                    let mut actions: Vec<Action> = Vec::new();
                    assert(actions.deep_view() =~= Seq::empty());
                    take_first(&mut self.frontend);
                    self.accumulator.add_tool_response(id, result);
                    let ghost mid = self@;
                    self.settle_frontend(now, &mut actions);
                    assert(actions.deep_view() =~= mid.settle_frontend(now).1);
                    actions
                } else {
                    nothing
                }
            },
            Event::Permissions { sorted, enable_extension_ids } => {
                match self.phase {
                    Phase::Judging => self.on_permissions(sorted, enable_extension_ids, now),
                    _ => nothing,
                }
            },
            Event::Confirmation { id, confirmation } => {
                let awaited = match self.phase {
                    Phase::Approving => self.approval.len() > 0 && same_text(
                        self.approval[0].id.as_str(),
                        id.as_str(),
                    ),
                    _ => false,
                };
                if awaited {
                    self.on_confirmation(confirmation, now)
                } else {
                    nothing
                }
            },
            Event::ToolItem { id, item } => {
                let running = match self.phase {
                    Phase::Collecting => contains_id(&self.in_flight, id.as_str()),
                    _ => false,
                };
                if running {
                    match item {
                        ToolStreamItem::Message(message) => {
                            let mut actions: Vec<Action> = Vec::new();
                            assert(actions.deep_view() =~= Seq::empty());
                            push_action(
                                &mut actions,
                                Action::Emit(AgentEvent::McpNotification((id, message))),
                            );
                            assert(actions.deep_view() =~= seq![
                                ActionView::Emit(
                                    crate::message::AgentEventView::McpNotification(
                                        (id@, message@),
                                    ),
                                ),
                            ]);
                            actions
                        },
                        ToolStreamItem::Result(result) => self.on_finished(id, result),
                    }
                } else {
                    nothing
                }
            },
        }
    }
}

/// The view of one item of a running call.
pub open spec fn item_view(item: ToolStreamItem<ToolResult>) -> ToolItemView {
    match item {
        ToolStreamItem::Message(m) => ToolItemView::Message(m@),
        ToolStreamItem::Result(r) => ToolItemView::Result(result_view(r)),
    }
}

/// The views of the items of the running calls.
pub open spec fn item_views(items: Seq<(String, ToolStreamItem<ToolResult>)>) -> Seq<
    (Seq<char>, ToolItemView),
> {
    Seq::new(items.len(), |i: int| (items[i].0@, item_view(items[i].1)))
}

impl Reply {
    /// Takes the items that the merged stream of the running calls delivered, one after the
    /// other: each notification is handed on under the id of its call, and each result is
    /// folded into the tool-response message. The turn ends with the result of the last
    /// running call; what comes after that is passed over.
    pub fn collect(
        &mut self,
        agent: &Agent,
        items: Vec<(String, ToolStreamItem<ToolResult>)>,
        now: i64,
    ) -> (actions: Vec<Action>)
        requires
            old(self).wf(),
        ensures
            final(self).wf(),
            final(self)@ == old(self)@.run(
                item_events(item_views(items@)),
                agent.frontend_tools(),
                agent.selector() is Some,
                now,
            ).0,
            actions.deep_view() == old(self)@.run(
                item_events(item_views(items@)),
                agent.frontend_tools(),
                agent.selector() is Some,
                now,
            ).1,
    {
        let ghost events = item_events(item_views(items@));
        let ghost tools = agent.frontend_tools();
        let ghost has_selector = agent.selector() is Some;
        let ghost total = items@.len();
        assert(total <= usize::MAX) by {
            assert(items.len() == total);
        }
        let mut actions: Vec<Action> = Vec::new();
        let mut rest = crate::lists::reversed(items);
        let mut n: usize = 0;
        assert(actions.deep_view() =~= Seq::empty());
        assert(events.take(0) =~= Seq::empty());
        while rest.len() > 0
            invariant
                self.wf(),
                events == item_events(item_views(items@)),
                tools == agent.frontend_tools(),
                has_selector == (agent.selector() is Some),
                total == items@.len(),
                total <= usize::MAX,
                0 <= n <= total,
                rest@.len() == total - n,
                forall|j: int| 0 <= j < rest@.len() ==> rest@[j] == items@[total - 1 - j],
                self@ == old(self)@.run(events.take(n as int), tools, has_selector, now).0,
                actions.deep_view() == old(self)@.run(
                    events.take(n as int),
                    tools,
                    has_selector,
                    now,
                ).1,
            decreases rest.len(),
        {
            let (id, item) = rest.pop().unwrap();
            assert((id, item) == items@[n as int]);
            assert(events.take(n + 1).drop_last() =~= events.take(n as int));
            assert(events.take(n + 1).last() == events[n as int]);
            let event = Event::ToolItem { id, item };
            assert(event@ == events[n as int]);
            let ghost before = actions.deep_view();
            let mut more = self.step(agent, event, now);
            let ghost added = more.deep_view();
            append_actions(&mut actions, &mut more);
            assert(actions.deep_view() =~= before + added);
            n += 1;
        }
        assert(events.take(n as int) =~= events);
        actions
    }
}

/// Moves the actions of `more` to the end of `actions`.
fn append_actions(actions: &mut Vec<Action>, more: &mut Vec<Action>)
    ensures
        final(actions).deep_view() == old(actions).deep_view() + old(more).deep_view(),
{
    let ghost base = actions.deep_view();
    let ghost added = more.deep_view();
    actions.append(more);
    assert(actions.deep_view() =~= base + added);
}

} // verus!
