//! What holds of every run of the conversation loop.
use vstd::prelude::*;
use crate::agent::FrontendToolView;
use crate::ids::{
    lemma_occurrences_concat, lemma_occurrences_contains, lemma_occurrences_drop_first,
    lemma_without_first, occurrences,
};
use crate::message::{
    response_ids, tool_requests, AgentEventView, MessageContentView, MessageView, ToolRequestView,
    ToolResponseView,
};
use crate::permission::{ids_of, PermissionCheckResultView, PermissionConfirmation};
use crate::tool::{text_result, ToolResultView};
use crate::turn::{
    answer_all, answer_unparsed, dispatch_actions, dispatched_ids, filtered_content,
    frontend_requests, record_actions, remaining_requests, terminal_message, ActionView, EventView,
    Phase, ProviderErrorView, ReplyView, CONTEXT_LENGTH_EXCEEDED_TEXT, DECLINED_RESPONSE,
};

verus! {

/// Whether `actions` dispatch a call for the request `id`.
pub open spec fn dispatches(actions: Seq<ActionView>, id: Seq<char>) -> bool {
    exists|i: int|
        0 <= i < actions.len() && (#[trigger] actions[i] matches ActionView::Dispatch {
            id: d,
            ..
        } && d == id)
}

/// Whether `actions` hand out a notification of the request `id`.
pub open spec fn notifies(actions: Seq<ActionView>, id: Seq<char>) -> bool {
    exists|i: int|
        0 <= i < actions.len() && (#[trigger] actions[i] matches ActionView::Emit(
            AgentEventView::McpNotification(n),
        ) && n.0 == id)
}

/// Whether `actions` ask to recompute the tools and the system prompt.
pub open spec fn refreshes(actions: Seq<ActionView>) -> bool {
    exists|i: int| 0 <= i < actions.len() && #[trigger] actions[i] is RefreshTools
}

/// Whether `actions` ask the model for an answer.
pub open spec fn calls_provider(actions: Seq<ActionView>) -> bool {
    exists|i: int| 0 <= i < actions.len() && #[trigger] actions[i] is CallProvider
}

/// Whether `longer` begins with `shorter`.
spec fn extends(longer: Seq<MessageContentView>, shorter: Seq<MessageContentView>) -> bool {
    shorter.len() <= longer.len() && longer.take(shorter.len() as int) == shorter
}

impl ReplyView {
    /// The ids of the requests that the model made in the current turn.
    pub open spec fn issued(self) -> Seq<Seq<char>> {
        ids_of(tool_requests(self.response.content))
    }

    /// How often `id` stands among the answered and the open requests together.
    pub open spec fn tally(self, id: Seq<char>) -> nat {
        occurrences(self.answered(), id) + occurrences(self.outstanding(), id)
    }

    /// Which lists can hold requests in which phase.
    pub open spec fn shape(self) -> bool {
        match self.phase {
            Phase::Frontend => self.approval.len() == 0 && self.in_flight.len() == 0,
            Phase::Judging => self.frontend.len() == 0 && self.approval.len() == 0
                && self.in_flight.len() == 0,
            Phase::Approving => self.frontend.len() == 0 && self.remaining.len() == 0
                && self.approval.len() > 0,
            Phase::Collecting => self.frontend.len() == 0 && self.remaining.len() == 0
                && self.approval.len() == 0 && self.in_flight.len() > 0,
            _ => true,
        }
    }

    /// What every step keeps: while a turn is under way, each request of the turn is either
    /// answered or open, as often as the model made it.
    pub open spec fn inv(self) -> bool {
        &&& self.shape()
        &&& self.in_turn() ==> forall|id: Seq<char>|
            self.tally(id) == occurrences(self.issued(), id)
    }

    /// Whether `event` is one that the judge's sorting has to be checked for, and passes.
    pub open spec fn accepts(self, event: EventView) -> bool {
        event matches EventView::Permissions { sorted, .. } ==> self.phase == Phase::Judging
            ==> sorted.sorts(self.remaining)
    }
}

proof fn lemma_ids_push(requests: Seq<ToolRequestView>, request: ToolRequestView)
    ensures
        ids_of(requests.push(request)) == ids_of(requests).push(request.id),
{
    assert(ids_of(requests.push(request)) =~= ids_of(requests).push(request.id));
}

proof fn lemma_ids_drop_last(requests: Seq<ToolRequestView>)
    requires
        requests.len() > 0,
    ensures
        ids_of(requests) == ids_of(requests.drop_last()).push(requests.last().id),
{
    assert(ids_of(requests) =~= ids_of(requests.drop_last()).push(requests.last().id));
}

proof fn lemma_ids_drop_first(requests: Seq<ToolRequestView>)
    requires
        requests.len() > 0,
    ensures
        ids_of(requests.drop_first()) == ids_of(requests).drop_first(),
        ids_of(requests).first() == requests.first().id,
{
    assert(ids_of(requests.drop_first()) =~= ids_of(requests).drop_first());
}

pub(crate) proof fn lemma_ids_concat(a: Seq<ToolRequestView>, b: Seq<ToolRequestView>)
    ensures
        ids_of(a + b) == ids_of(a) + ids_of(b),
{
    assert(ids_of(a + b) =~= ids_of(a) + ids_of(b));
}

proof fn lemma_occurrences_push(ids: Seq<Seq<char>>, x: Seq<char>, id: Seq<char>)
    ensures
        occurrences(ids.push(x), id) == occurrences(ids, id) + if x == id {
            1nat
        } else {
            0nat
        },
{
    assert(ids.push(x).drop_last() =~= ids);
}

proof fn lemma_response_ids_with(message: MessageView, part: MessageContentView)
    ensures
        response_ids(message.with(part).content) == match part {
            MessageContentView::ToolResponse(r) => response_ids(message.content).push(r.id),
            _ => response_ids(message.content),
        },
{
    assert(message.with(part).content.drop_last() =~= message.content);
}

/// The model's requests are split between the frontend and the rest: each id stands in the
/// two lists together as often as among the requests.
proof fn lemma_categorized(
    content: Seq<MessageContentView>,
    tools: Seq<FrontendToolView>,
    id: Seq<char>,
)
    ensures
        occurrences(ids_of(frontend_requests(content, tools)), id) + occurrences(
            ids_of(remaining_requests(content, tools)),
            id,
        ) == occurrences(ids_of(tool_requests(content)), id),
    decreases content.len(),
{
    if content.len() > 0 {
        lemma_categorized(content.drop_last(), tools, id);
        match content.last() {
            MessageContentView::ToolRequest(r) => {
                lemma_ids_push(frontend_requests(content.drop_last(), tools), r);
                lemma_ids_push(remaining_requests(content.drop_last(), tools), r);
                lemma_ids_push(tool_requests(content.drop_last()), r);
                lemma_occurrences_push(
                    ids_of(frontend_requests(content.drop_last(), tools)),
                    r.id,
                    id,
                );
                lemma_occurrences_push(
                    ids_of(remaining_requests(content.drop_last(), tools)),
                    r.id,
                    id,
                );
                lemma_occurrences_push(ids_of(tool_requests(content.drop_last())), r.id, id);
            },
            _ => {},
        }
    } else {
        assert(ids_of(Seq::<ToolRequestView>::empty()) =~= Seq::<Seq<char>>::empty());
    }
}

/// Answering a list of requests adds their ids, in order, to the ids that are answered, and
/// keeps what the message held.
proof fn lemma_answer_all(
    message: MessageView,
    requests: Seq<ToolRequestView>,
    result: ToolResultView,
)
    ensures
        response_ids(answer_all(message, requests, result).content) == response_ids(
            message.content,
        ) + ids_of(requests),
        extends(answer_all(message, requests, result).content, message.content),
        answer_all(message, requests, result).role == message.role,
        answer_all(message, requests, result).created == message.created,
        forall|i: int|
            0 <= i < requests.len() ==> answer_all(message, requests, result).content.contains(
                MessageContentView::ToolResponse(
                    ToolResponseView { id: (#[trigger] requests[i]).id, tool_result: result },
                ),
            ),
    decreases requests.len(),
{
    let out = answer_all(message, requests, result);
    if requests.len() == 0 {
        assert(response_ids(message.content) + ids_of(requests) =~= response_ids(message.content));
        assert(out.content.take(message.content.len() as int) =~= message.content);
    } else {
        let before = answer_all(message, requests.drop_last(), result);
        lemma_answer_all(message, requests.drop_last(), result);
        let part = MessageContentView::ToolResponse(
            ToolResponseView { id: requests.last().id, tool_result: result },
        );
        lemma_response_ids_with(before, part);
        lemma_ids_drop_last(requests);
        assert(response_ids(out.content) =~= response_ids(message.content) + ids_of(requests));
        assert(out.content.take(message.content.len() as int) =~= before.content.take(
            message.content.len() as int,
        ));
        assert forall|i: int| 0 <= i < requests.len() implies out.content.contains(
            MessageContentView::ToolResponse(
                ToolResponseView { id: (#[trigger] requests[i]).id, tool_result: result },
            ),
        ) by {
            if i < requests.len() - 1 {
                let wanted = MessageContentView::ToolResponse(
                    ToolResponseView { id: requests.drop_last()[i].id, tool_result: result },
                );
                assert(before.content.contains(wanted));
                let k = choose|k: int| 0 <= k < before.content.len() && before.content[k] == wanted;
                assert(out.content[k] == wanted);
            } else {
                assert(out.content[out.content.len() - 1] == part);
            }
        }
    }
}

/// Of the approved requests, those whose call parsed are dispatched and the others are
/// answered: each id goes to exactly one of the two.
proof fn lemma_answer_unparsed(
    message: MessageView,
    approved: Seq<ToolRequestView>,
    id: Seq<char>,
)
    ensures
        occurrences(response_ids(answer_unparsed(message, approved).content), id) + occurrences(
            dispatched_ids(approved),
            id,
        ) == occurrences(response_ids(message.content), id) + occurrences(ids_of(approved), id),
        extends(answer_unparsed(message, approved).content, message.content),
        answer_unparsed(message, approved).role == message.role,
        answer_unparsed(message, approved).created == message.created,
        dispatches(dispatch_actions(approved), id) ==> occurrences(ids_of(approved), id) > 0,
        !notifies(dispatch_actions(approved), id),
        !calls_provider(dispatch_actions(approved)),
        !refreshes(dispatch_actions(approved)),
    decreases approved.len(),
{
    let out = answer_unparsed(message, approved);
    if approved.len() == 0 {
        assert(out.content.take(message.content.len() as int) =~= message.content);
        assert(ids_of(approved) =~= Seq::<Seq<char>>::empty());
    } else {
        let before = answer_unparsed(message, approved.drop_last());
        lemma_answer_unparsed(message, approved.drop_last(), id);
        lemma_ids_drop_last(approved);
        lemma_occurrences_push(ids_of(approved.drop_last()), approved.last().id, id);
        let earlier = dispatch_actions(approved.drop_last());
        let all = dispatch_actions(approved);
        match approved.last().tool_call {
            Ok(call) => {
                lemma_occurrences_push(dispatched_ids(approved.drop_last()), approved.last().id, id);
                if dispatches(all, id) {
                    let i = choose|i: int|
                        0 <= i < all.len() && (#[trigger] all[i] matches ActionView::Dispatch {
                            id: d,
                            ..
                        } && d == id);
                    if i < earlier.len() {
                        assert(earlier[i] == all[i]);
                    }
                }
                if notifies(all, id) {
                    let i = choose|i: int|
                        0 <= i < all.len() && (#[trigger] all[i] matches ActionView::Emit(
                            AgentEventView::McpNotification(n),
                        ) && n.0 == id);
                    assert(earlier[i] == all[i]);
                }
                if calls_provider(all) {
                    let i = choose|i: int| 0 <= i < all.len() && #[trigger] all[i] is CallProvider;
                    assert(earlier[i] == all[i]);
                }
                if refreshes(all) {
                    let i = choose|i: int| 0 <= i < all.len() && #[trigger] all[i] is RefreshTools;
                    assert(earlier[i] == all[i]);
                }
            },
            Err(e) => {
                let part = MessageContentView::ToolResponse(
                    ToolResponseView { id: approved.last().id, tool_result: Err(e) },
                );
                lemma_response_ids_with(before, part);
                lemma_occurrences_push(response_ids(before.content), approved.last().id, id);
                assert(out.content.take(message.content.len() as int) =~= before.content.take(
                    message.content.len() as int,
                ));
            },
        }
    }
}

/// What the step that ends a turn leaves and asks for: no request of the turn is open any
/// more, and the last three actions hand out the tool-response message, yield, and ask the
/// model again.
pub open spec fn closes_turn(next: ReplyView, actions: Seq<ActionView>) -> bool {
    &&& next.frontend.len() == 0
    &&& next.remaining.len() == 0
    &&& next.approval.len() == 0
    &&& next.in_flight.len() == 0
    &&& actions.len() >= 3
    &&& actions[actions.len() - 3] == ActionView::Emit(AgentEventView::Message(next.accumulator))
    &&& actions[actions.len() - 2] == ActionView::Yield
    &&& actions[actions.len() - 1] == ActionView::CallProvider
}

proof fn lemma_closes_after(lead: Seq<ActionView>, next: ReplyView, tail: Seq<ActionView>)
    requires
        closes_turn(next, tail),
    ensures
        closes_turn(next, lead + tail),
{
    let all = lead + tail;
    assert(all[all.len() - 3] == tail[tail.len() - 3]);
    assert(all[all.len() - 2] == tail[tail.len() - 2]);
    assert(all[all.len() - 1] == tail[tail.len() - 1]);
}

/// Whether none of `actions` dispatches a call, hands out a notification or asks the model.
spec fn passive(actions: Seq<ActionView>) -> bool {
    forall|i: int|
        0 <= i < actions.len() ==> !((#[trigger] actions[i]) is Dispatch) && !(actions[i] matches ActionView::Emit(
            AgentEventView::McpNotification(_),
        ))
}

proof fn lemma_passive(actions: Seq<ActionView>, id: Seq<char>)
    requires
        passive(actions),
    ensures
        !dispatches(actions, id),
        !notifies(actions, id),
{
}

proof fn lemma_concat_quiet(a: Seq<ActionView>, b: Seq<ActionView>, id: Seq<char>)
    ensures
        dispatches(a + b, id) <==> dispatches(a, id) || dispatches(b, id),
        notifies(a + b, id) <==> notifies(a, id) || notifies(b, id),
        calls_provider(a + b) <==> calls_provider(a) || calls_provider(b),
        refreshes(a + b) <==> refreshes(a) || refreshes(b),
{
    let all = a + b;
    if refreshes(all) {
        let i = choose|i: int| 0 <= i < all.len() && #[trigger] all[i] is RefreshTools;
        if i < a.len() {
            assert(a[i] == all[i]);
        } else {
            assert(b[i - a.len()] == all[i]);
        }
    }
    if refreshes(a) {
        let i = choose|i: int| 0 <= i < a.len() && #[trigger] a[i] is RefreshTools;
        assert(all[i] == a[i]);
    }
    if refreshes(b) {
        let i = choose|i: int| 0 <= i < b.len() && #[trigger] b[i] is RefreshTools;
        assert(all[i + a.len()] == b[i]);
    }
    if dispatches(all, id) {
        let i = choose|i: int|
            0 <= i < all.len() && (#[trigger] all[i] matches ActionView::Dispatch { id: d, .. } && d
                == id);
        if i < a.len() {
            assert(a[i] == all[i]);
        } else {
            assert(b[i - a.len()] == all[i]);
        }
    }
    if dispatches(a, id) {
        let i = choose|i: int|
            0 <= i < a.len() && (#[trigger] a[i] matches ActionView::Dispatch { id: d, .. } && d
                == id);
        assert(all[i] == a[i]);
    }
    if dispatches(b, id) {
        let i = choose|i: int|
            0 <= i < b.len() && (#[trigger] b[i] matches ActionView::Dispatch { id: d, .. } && d
                == id);
        assert(all[i + a.len()] == b[i]);
    }
    if notifies(all, id) {
        let i = choose|i: int|
            0 <= i < all.len() && (#[trigger] all[i] matches ActionView::Emit(
                AgentEventView::McpNotification(n),
            ) && n.0 == id);
        if i < a.len() {
            assert(a[i] == all[i]);
        } else {
            assert(b[i - a.len()] == all[i]);
        }
    }
    if notifies(a, id) {
        let i = choose|i: int|
            0 <= i < a.len() && (#[trigger] a[i] matches ActionView::Emit(
                AgentEventView::McpNotification(n),
            ) && n.0 == id);
        assert(all[i] == a[i]);
    }
    if notifies(b, id) {
        let i = choose|i: int|
            0 <= i < b.len() && (#[trigger] b[i] matches ActionView::Emit(
                AgentEventView::McpNotification(n),
            ) && n.0 == id);
        assert(all[i + a.len()] == b[i]);
    }
    if calls_provider(all) {
        let i = choose|i: int| 0 <= i < all.len() && #[trigger] all[i] is CallProvider;
        if i < a.len() {
            assert(a[i] == all[i]);
        } else {
            assert(b[i - a.len()] == all[i]);
        }
    }
    if calls_provider(a) {
        let i = choose|i: int| 0 <= i < a.len() && #[trigger] a[i] is CallProvider;
        assert(all[i] == a[i]);
    }
    if calls_provider(b) {
        let i = choose|i: int| 0 <= i < b.len() && #[trigger] b[i] is CallProvider;
        assert(all[i + a.len()] == b[i]);
    }
}

proof fn lemma_extends_chain(
    a: Seq<MessageContentView>,
    b: Seq<MessageContentView>,
    c: Seq<MessageContentView>,
)
    requires
        extends(a, b),
        extends(b, c),
    ensures
        extends(a, c),
        forall|x: MessageContentView| c.contains(x) ==> a.contains(x),
{
    assert(a.take(c.len() as int) =~= b.take(c.len() as int));
    assert forall|x: MessageContentView| c.contains(x) implies a.contains(x) by {
        let i = choose|i: int| 0 <= i < c.len() && c[i] == x;
        assert(a.take(c.len() as int)[i] == x);
        assert(a[i] == x);
    }
}

proof fn lemma_extends_with(message: MessageView, part: MessageContentView)
    ensures
        extends(message.with(part).content, message.content),
        message.with(part).content.contains(part),
{
    assert(message.with(part).content.take(message.content.len() as int) =~= message.content);
    assert(message.with(part).content[message.content.len() as int] == part);
}

proof fn lemma_extends_self(content: Seq<MessageContentView>)
    ensures
        extends(content, content),
{
    assert(content.take(content.len() as int) =~= content);
}

impl ReplyView {
    /// The tally, list by list.
    proof fn lemma_tally(self, id: Seq<char>)
        ensures
            self.tally(id) == occurrences(self.answered(), id) + occurrences(
                ids_of(self.frontend),
                id,
            ) + occurrences(ids_of(self.remaining), id) + occurrences(ids_of(self.approval), id)
                + occurrences(self.in_flight, id),
    {
        lemma_occurrences_concat(
            ids_of(self.frontend) + ids_of(self.remaining) + ids_of(self.approval),
            self.in_flight,
            id,
        );
        lemma_occurrences_concat(
            ids_of(self.frontend) + ids_of(self.remaining),
            ids_of(self.approval),
            id,
        );
        lemma_occurrences_concat(ids_of(self.frontend), ids_of(self.remaining), id);
    }

    /// What the end of a turn leaves.
    proof fn lemma_finish_turn(self, refresh: bool)
        ensures
            ({
                let (next, actions) = self.finish_turn(refresh);
                &&& passive(actions)
                &&& calls_provider(actions)
                &&& next.phase == Phase::Generating
                &&& next.history == self.history.push(self.response).push(self.accumulator)
                &&& next.accumulator == self.accumulator
                &&& next.response == self.response
                &&& next.shape()
                &&& self.frontend.len() + self.remaining.len() + self.approval.len()
                    + self.in_flight.len() == 0 ==> closes_turn(next, actions)
                &&& refreshes(actions) ==> refresh
            }),
    {
        let (next, actions) = self.finish_turn(refresh);
        assert(actions[actions.len() - 1] is CallProvider);
    }

    /// What going on with the approvals leaves: no call is dispatched by it and no
    /// notification handed out; what was answered stays answered; and each request is still
    /// either answered or open, or, where the turn has ended, answered.
    proof fn lemma_settle_approval(self, now: i64)
        requires
            self.frontend.len() == 0,
            self.remaining.len() == 0,
        ensures
            ({
                let (next, actions) = self.settle_approval(now);
                &&& passive(actions)
                &&& next.response == self.response
                &&& next.mode == self.mode
                &&& next.shape()
                &&& extends(next.accumulator.content, self.accumulator.content)
                &&& next.phase == Phase::Approving || next.phase == Phase::Collecting || next.phase
                    == Phase::Generating
                &&& next.phase != Phase::Generating ==> next.history == self.history && !calls_provider(
                    actions,
                ) && forall|id: Seq<char>| next.tally(id) == self.tally(id)
                &&& next.phase == Phase::Generating ==> next.history == self.history.push(
                    self.response,
                ).push(next.accumulator) && forall|id: Seq<char>|
                    occurrences(next.answered(), id) == self.tally(id)
                &&& next.phase == Phase::Generating ==> closes_turn(next, actions)
                &&& refreshes(actions) ==> self.all_install_successful
            }),
        decreases self.approval.len(),
    {
        let (next, actions) = self.settle_approval(now);
        lemma_extends_self(self.accumulator.content);
        if self.approval.len() == 0 {
            if self.in_flight.len() == 0 {
                self.lemma_finish_turn(self.all_install_successful);
                assert forall|id: Seq<char>| occurrences(next.answered(), id) == self.tally(
                    id,
                ) by {
                    self.lemma_tally(id);
                    assert(ids_of(Seq::<ToolRequestView>::empty()) =~= Seq::<Seq<char>>::empty());
                    assert(ids_of(self.frontend) =~= Seq::<Seq<char>>::empty());
                    assert(ids_of(self.remaining) =~= Seq::<Seq<char>>::empty());
                    assert(ids_of(self.approval) =~= Seq::<Seq<char>>::empty());
                }
            } else {
                assert(actions[0] is Collect);
                assert forall|id: Seq<char>| next.tally(id) == self.tally(id) by {}
                assert(!calls_provider(actions));
            }
        } else {
            let head = self.approval.first();
            match head.tool_call {
                Ok(call) => {
                    assert forall|id: Seq<char>| next.tally(id) == self.tally(id) by {}
                    assert(!calls_provider(actions));
                },
                Err(e) => {
                    let part = MessageContentView::ToolResponse(
                        ToolResponseView { id: head.id, tool_result: Err(e) },
                    );
                    let mid = ReplyView {
                        approval: self.approval.drop_first(),
                        accumulator: self.accumulator.with_tool_response(head.id, Err(e)),
                        ..self
                    };
                    mid.lemma_settle_approval(now);
                    lemma_extends_with(self.accumulator, part);
                    lemma_extends_chain(
                        next.accumulator.content,
                        mid.accumulator.content,
                        self.accumulator.content,
                    );
                    assert forall|id: Seq<char>| mid.tally(id) == self.tally(id) by {
                        mid.lemma_tally(id);
                        self.lemma_tally(id);
                        lemma_response_ids_with(self.accumulator, part);
                        lemma_occurrences_push(self.answered(), head.id, id);
                        lemma_ids_drop_first(self.approval);
                        lemma_occurrences_drop_first(ids_of(self.approval), id);
                    }
                },
            }
        }
    }
}

/// What one step leaves behind, seen from the state before it: the conversation is as it was,
/// or the turn has ended and the model's answer and the tool-response message have joined it.
pub open spec fn advanced(before: ReplyView, next: ReplyView) -> bool {
    ||| next.history == before.history
    ||| next.phase == Phase::Generating && next.history == before.history.push(next.response).push(
        next.accumulator,
    ) && forall|id: Seq<char>|
        occurrences(response_ids(next.accumulator.content), id) == occurrences(
            ids_of(tool_requests(next.response.content)),
            id,
        )
}

impl ReplyView {
    /// What going on with the frontend's requests leaves.
    proof fn lemma_settle_frontend(self, now: i64)
        requires
            self.approval.len() == 0,
            self.in_flight.len() == 0,
        ensures
            ({
                let (next, actions) = self.settle_frontend(now);
                &&& passive(actions)
                &&& next.response == self.response
                &&& next.shape()
                &&& extends(next.accumulator.content, self.accumulator.content)
                &&& next.phase == Phase::Frontend || next.phase == Phase::Judging || next.phase
                    == Phase::Generating
                &&& next.phase != Phase::Generating ==> next.history == self.history && !calls_provider(
                    actions,
                ) && forall|id: Seq<char>| next.tally(id) == self.tally(id)
                &&& next.phase == Phase::Generating ==> next.history == self.history.push(
                    self.response,
                ).push(next.accumulator) && forall|id: Seq<char>|
                    occurrences(next.answered(), id) == self.tally(id)
                &&& next.phase == Phase::Generating ==> closes_turn(next, actions)
                &&& !refreshes(actions)
            }),
    {
        let (next, actions) = self.settle_frontend(now);
        lemma_extends_self(self.accumulator.content);
        if self.frontend.len() > 0 {
            assert forall|id: Seq<char>| next.tally(id) == self.tally(id) by {}
            assert(!calls_provider(actions));
        } else if self.mode == crate::turn::CHAT_MODE@ {
            let skipped = text_result(crate::turn::CHAT_MODE_TOOL_SKIPPED_RESPONSE@);
            let mid = ReplyView {
                accumulator: answer_all(self.accumulator, self.remaining, skipped),
                remaining: Seq::empty(),
                ..self
            };
            mid.lemma_finish_turn(false);
            lemma_answer_all(self.accumulator, self.remaining, skipped);
            assert forall|id: Seq<char>| occurrences(next.answered(), id) == self.tally(id) by {
                self.lemma_tally(id);
                lemma_occurrences_concat(self.answered(), ids_of(self.remaining), id);
                assert(ids_of(self.frontend) =~= Seq::<Seq<char>>::empty());
                assert(ids_of(self.approval) =~= Seq::<Seq<char>>::empty());
            }
        } else {
            assert forall|id: Seq<char>| next.tally(id) == self.tally(id) by {}
            assert(actions[0] is CheckPermissions);
            assert(!calls_provider(actions));
        }
    }

    /// The state in which the judge's sorting is taken up.
    spec fn sorted_into(
        self,
        sorted: PermissionCheckResultView,
        enable_extension_ids: Seq<Seq<char>>,
    ) -> ReplyView {
        ReplyView {
            accumulator: answer_all(
                answer_unparsed(self.accumulator, sorted.approved),
                sorted.denied,
                text_result(DECLINED_RESPONSE@),
            ),
            remaining: Seq::empty(),
            approval: sorted.needs_approval,
            enable_ids: enable_extension_ids,
            in_flight: dispatched_ids(sorted.approved),
            ..self
        }
    }

    /// Taking up the judge's sorting leaves each request either answered or open.
    proof fn lemma_sorted_into(
        self,
        sorted: PermissionCheckResultView,
        enable_extension_ids: Seq<Seq<char>>,
        id: Seq<char>,
    )
        requires
            self.phase == Phase::Judging,
            self.shape(),
            sorted.sorts(self.remaining),
        ensures
            self.sorted_into(sorted, enable_extension_ids).tally(id) == self.tally(id),
            extends(
                self.sorted_into(sorted, enable_extension_ids).accumulator.content,
                self.accumulator.content,
            ),
            occurrences(ids_of(self.remaining), id) == occurrences(ids_of(sorted.approved), id)
                + occurrences(ids_of(sorted.denied), id) + occurrences(
                ids_of(sorted.needs_approval),
                id,
            ),
    {
        let mid = self.sorted_into(sorted, enable_extension_ids);
        let declined = text_result(DECLINED_RESPONSE@);
        let first = answer_unparsed(self.accumulator, sorted.approved);
        lemma_answer_unparsed(self.accumulator, sorted.approved, id);
        lemma_answer_all(first, sorted.denied, declined);
        lemma_extends_chain(mid.accumulator.content, first.content, self.accumulator.content);
        mid.lemma_tally(id);
        self.lemma_tally(id);
        lemma_occurrences_concat(response_ids(first.content), ids_of(sorted.denied), id);
        lemma_ids_concat(sorted.approved + sorted.denied, sorted.needs_approval);
        lemma_ids_concat(sorted.approved, sorted.denied);
        lemma_occurrences_concat(
            ids_of(sorted.approved) + ids_of(sorted.denied),
            ids_of(sorted.needs_approval),
            id,
        );
        lemma_occurrences_concat(ids_of(sorted.approved), ids_of(sorted.denied), id);
        assert(ids_of(Seq::<ToolRequestView>::empty()) =~= Seq::<Seq<char>>::empty());
        assert(ids_of(self.frontend) =~= Seq::<Seq<char>>::empty());
        assert(ids_of(self.approval) =~= Seq::<Seq<char>>::empty());
        assert(self.in_flight =~= Seq::<Seq<char>>::empty());
        assert(occurrences(ids_of(sorted.all()), id) == occurrences(ids_of(self.remaining), id));
    }
}

/// A step that goes through the state `mid`, in which each request is answered or open, and
/// then either stays in the turn or ends it with each request answered, has advanced.
proof fn lemma_advanced(before: ReplyView, mid: ReplyView, next: ReplyView)
    requires
        mid.history == before.history,
        forall|id: Seq<char>| mid.tally(id) == occurrences(mid.issued(), id),
        next.response == mid.response,
        next.phase != Phase::Generating ==> next.history == mid.history,
        next.phase == Phase::Generating ==> next.history == mid.history.push(mid.response).push(
            next.accumulator,
        ) && forall|id: Seq<char>| occurrences(next.answered(), id) == mid.tally(id),
    ensures
        advanced(before, next),
{
    if next.phase == Phase::Generating {
        assert forall|id: Seq<char>|
            occurrences(response_ids(next.accumulator.content), id) == occurrences(
                ids_of(tool_requests(next.response.content)),
                id,
            ) by {
            assert(occurrences(next.answered(), id) == mid.tally(id));
            assert(mid.tally(id) == occurrences(mid.issued(), id));
        }
    }
}

/// Every step keeps the loop's invariant. Where a step ends a turn, the tool-response message
/// that joins the conversation answers each request that the model made in that turn exactly
/// as often as the model made it: once where the ids of the requests differ, and no other id
/// is answered.
pub proof fn law_each_request_answered_once(
    before: ReplyView,
    event: EventView,
    tools: Seq<FrontendToolView>,
    has_selector: bool,
    now: i64,
)
    requires
        before.inv(),
        before.accepts(event),
    ensures
        before.step(event, tools, has_selector, now).0.inv(),
        advanced(before, before.step(event, tools, has_selector, now).0),
{
    let (next, actions) = before.step(event, tools, has_selector, now);
    match event {
        EventView::Response(response) => {
            if before.phase == Phase::Generating {
                let frontend = frontend_requests(response.content, tools);
                let remaining = remaining_requests(response.content, tools);
                if frontend.len() + remaining.len() > 0 {
                    let mid = ReplyView {
                        response,
                        accumulator: MessageView::empty(crate::message::Role::User, now),
                        frontend,
                        remaining,
                        approval: Seq::empty(),
                        enable_ids: Seq::empty(),
                        in_flight: Seq::empty(),
                        all_install_successful: true,
                        ..before
                    };
                    mid.lemma_settle_frontend(now);
                    assert forall|id: Seq<char>| mid.tally(id) == occurrences(
                        mid.issued(),
                        id,
                    ) by {
                        mid.lemma_tally(id);
                        lemma_categorized(response.content, tools, id);
                        assert(ids_of(Seq::<ToolRequestView>::empty()) =~= Seq::<
                            Seq<char>,
                        >::empty());
                    }
                    assert(next == mid.settle_frontend(now).0);
                    lemma_advanced(before, mid, next);
                }
            }
        },
        EventView::ToolResult { id: answered, result } => {
            if before.phase == Phase::Frontend && before.frontend.len() > 0
                && before.frontend.first().id == answered {
                let part = MessageContentView::ToolResponse(
                    ToolResponseView { id: answered, tool_result: result },
                );
                let mid = ReplyView {
                    frontend: before.frontend.drop_first(),
                    accumulator: before.accumulator.with_tool_response(answered, result),
                    ..before
                };
                mid.lemma_settle_frontend(now);
                assert forall|id: Seq<char>| mid.tally(id) == before.tally(id) by {
                    mid.lemma_tally(id);
                    before.lemma_tally(id);
                    lemma_response_ids_with(before.accumulator, part);
                    lemma_occurrences_push(before.answered(), answered, id);
                    lemma_ids_drop_first(before.frontend);
                    lemma_occurrences_drop_first(ids_of(before.frontend), id);
                }
                assert forall|id: Seq<char>| mid.tally(id) == occurrences(mid.issued(), id) by {
                    assert(mid.tally(id) == before.tally(id));
                }
                lemma_advanced(before, mid, next);
            }
        },
        EventView::Permissions { sorted, enable_extension_ids } => {
            if before.phase == Phase::Judging {
                let mid = before.sorted_into(sorted, enable_extension_ids);
                mid.lemma_settle_approval(now);
                assert forall|id: Seq<char>| mid.tally(id) == before.tally(id) by {
                    before.lemma_sorted_into(sorted, enable_extension_ids, id);
                }
                assert(next == mid.settle_approval(now).0);
                assert forall|id: Seq<char>| mid.tally(id) == occurrences(mid.issued(), id) by {
                    assert(mid.tally(id) == before.tally(id));
                }
                lemma_advanced(before, mid, next);
            }
        },
        EventView::Confirmation { id: decided, confirmation } => {
            if before.phase == Phase::Approving && before.approval.len() > 0
                && before.approval.first().id == decided {
                before.lemma_on_confirmation(confirmation, now);
            }
        },
        EventView::Finished { id: ended, result } => {
            if before.phase == Phase::Collecting && before.in_flight.contains(ended) {
                before.lemma_on_finished(ended, result);
            }
        },
        _ => {},
    }
}

impl ReplyView {
    /// The state in which the user's decision on the first request is taken up.
    spec fn decided(self, confirmation: PermissionConfirmation) -> ReplyView {
        let head = self.approval.first();
        let rest = ReplyView { approval: self.approval.drop_first(), ..self };
        match head.tool_call {
            Ok(call) => if confirmation.allows() {
                ReplyView { in_flight: self.in_flight.push(head.id), ..rest }
            } else {
                ReplyView {
                    accumulator: self.accumulator.with_tool_response(
                        head.id,
                        text_result(DECLINED_RESPONSE@),
                    ),
                    ..rest
                }
            },
            Err(e) => ReplyView {
                accumulator: self.accumulator.with_tool_response(head.id, Err(e)),
                ..rest
            },
        }
    }

    proof fn lemma_decided(self, confirmation: PermissionConfirmation, id: Seq<char>)
        requires
            self.approval.len() > 0,
        ensures
            self.decided(confirmation).tally(id) == self.tally(id),
            extends(self.decided(confirmation).accumulator.content, self.accumulator.content),
    {
        let head = self.approval.first();
        let mid = self.decided(confirmation);
        mid.lemma_tally(id);
        self.lemma_tally(id);
        lemma_ids_drop_first(self.approval);
        lemma_occurrences_drop_first(ids_of(self.approval), id);
        lemma_occurrences_push(self.in_flight, head.id, id);
        lemma_occurrences_push(self.answered(), head.id, id);
        lemma_extends_self(self.accumulator.content);
        match head.tool_call {
            Ok(call) => {
                if !confirmation.allows() {
                    let part = MessageContentView::ToolResponse(
                        ToolResponseView {
                            id: head.id,
                            tool_result: text_result(DECLINED_RESPONSE@),
                        },
                    );
                    lemma_response_ids_with(self.accumulator, part);
                    lemma_extends_with(self.accumulator, part);
                }
            },
            Err(e) => {
                let part = MessageContentView::ToolResponse(
                    ToolResponseView { id: head.id, tool_result: Err(e) },
                );
                lemma_response_ids_with(self.accumulator, part);
                lemma_extends_with(self.accumulator, part);
            },
        }
    }

    proof fn lemma_on_confirmation(self, confirmation: PermissionConfirmation, now: i64)
        requires
            self.inv(),
            self.phase == Phase::Approving,
        ensures
            self.on_confirmation(confirmation, now).0.inv(),
            advanced(self, self.on_confirmation(confirmation, now).0),
            self.on_confirmation(confirmation, now).0 == self.decided(confirmation).settle_approval(
                now,
            ).0,
    {
        let mid = self.decided(confirmation);
        mid.lemma_settle_approval(now);
        assert forall|id: Seq<char>| mid.tally(id) == self.tally(id) by {
            self.lemma_decided(confirmation, id);
        }
        assert forall|id: Seq<char>| mid.tally(id) == occurrences(mid.issued(), id) by {
            assert(mid.tally(id) == self.tally(id));
        }
        lemma_advanced(self, mid, mid.settle_approval(now).0);
    }

    proof fn lemma_on_finished(self, ended: Seq<char>, result: ToolResultView)
        requires
            self.inv(),
            self.phase == Phase::Collecting,
            self.in_flight.contains(ended),
        ensures
            self.on_finished(ended, result).0.inv(),
            advanced(self, self.on_finished(ended, result).0),
    {
        let part = MessageContentView::ToolResponse(
            ToolResponseView { id: ended, tool_result: result },
        );
        let mid = ReplyView {
            in_flight: crate::ids::without_first(self.in_flight, ended),
            accumulator: self.accumulator.with_tool_response(ended, result),
            all_install_successful: self.all_install_successful && !(self.enable_ids.contains(
                ended,
            ) && result is Err),
            ..self
        };
        assert forall|id: Seq<char>| mid.tally(id) == self.tally(id) by {
            mid.lemma_tally(id);
            self.lemma_tally(id);
            lemma_response_ids_with(self.accumulator, part);
            lemma_occurrences_push(self.answered(), ended, id);
            lemma_without_first(self.in_flight, ended, id);
        }
        lemma_without_first(self.in_flight, ended, ended);
        assert forall|id: Seq<char>| mid.tally(id) == occurrences(mid.issued(), id) by {
            assert(mid.tally(id) == self.tally(id));
        }
        if mid.in_flight.len() == 0 {
            mid.lemma_finish_turn(mid.all_install_successful);
            let next = mid.finish_turn(mid.all_install_successful).0;
            assert forall|id: Seq<char>| occurrences(next.answered(), id) == mid.tally(id) by {
                mid.lemma_tally(id);
                assert(ids_of(mid.frontend) =~= Seq::<Seq<char>>::empty());
                assert(ids_of(mid.remaining) =~= Seq::<Seq<char>>::empty());
                assert(ids_of(mid.approval) =~= Seq::<Seq<char>>::empty());
            }
            lemma_advanced(self, mid, next);
        }
    }
}

/// A message that was extended answers each request at least as often as before.
proof fn lemma_answers_stay(
    longer: Seq<MessageContentView>,
    shorter: Seq<MessageContentView>,
    id: Seq<char>,
)
    requires
        extends(longer, shorter),
    ensures
        occurrences(response_ids(longer), id) >= occurrences(response_ids(shorter), id),
    decreases longer.len(),
{
    if longer.len() > shorter.len() {
        let rest = longer.drop_last();
        assert(rest.take(shorter.len() as int) =~= longer.take(shorter.len() as int));
        lemma_answers_stay(rest, shorter, id);
        match longer.last() {
            MessageContentView::ToolResponse(r) => {
                lemma_occurrences_push(response_ids(rest), r.id, id);
            },
            _ => {},
        }
    } else {
        assert(longer.take(shorter.len() as int) =~= longer);
    }
}

/// When the model fails because its context length is exceeded, the step hands out the one
/// fixed message and stops: nothing else is asked for, and the loop has ended.
pub proof fn law_context_length_exceeded_ends(
    before: ReplyView,
    detail: Seq<char>,
    tools: Seq<FrontendToolView>,
    has_selector: bool,
    now: i64,
)
    requires
        before.phase == Phase::Generating,
    ensures
        before.step(
            EventView::ProviderFailed(ProviderErrorView::ContextLengthExceeded(detail)),
            tools,
            has_selector,
            now,
        ) == (
            ReplyView { phase: Phase::Done, ..before },
            seq![
                ActionView::Emit(
                    AgentEventView::Message(
                        MessageView::empty(crate::message::Role::Assistant, now).with(
                            MessageContentView::ContextLengthExceeded(CONTEXT_LENGTH_EXCEEDED_TEXT@),
                        ),
                    ),
                ),
                ActionView::Finish,
            ],
        ),
{
}

/// Once the loop has ended, no event moves it and no step asks for anything: in particular
/// the model is not asked again.
pub proof fn law_done_is_final(
    before: ReplyView,
    event: EventView,
    tools: Seq<FrontendToolView>,
    has_selector: bool,
    now: i64,
)
    requires
        before.phase == Phase::Done,
    ensures
        before.step(event, tools, has_selector, now) == (before, Seq::<ActionView>::empty()),
{
}

/// The model is asked only by the step that starts the loop's next turn: a step that asks it
/// has ended a turn.
pub proof fn law_provider_called_between_turns(
    before: ReplyView,
    event: EventView,
    tools: Seq<FrontendToolView>,
    has_selector: bool,
    now: i64,
)
    requires
        before.inv(),
        calls_provider(before.step(event, tools, has_selector, now).1),
    ensures
        before.step(event, tools, has_selector, now).0.phase == Phase::Generating,
        before.step(event, tools, has_selector, now).0.history.len() == before.history.len() + 2,
{
    let (next, actions) = before.step(event, tools, has_selector, now);
    let i = choose|i: int| 0 <= i < actions.len() && #[trigger] actions[i] is CallProvider;
    match event {
        EventView::Response(response) => {
            if before.phase == Phase::Generating {
                let frontend = frontend_requests(response.content, tools);
                let remaining = remaining_requests(response.content, tools);
                let names = crate::turn::called_names(frontend) + crate::turn::called_names(
                    remaining,
                );
                let first = (if has_selector {
                    record_actions(names)
                } else {
                    Seq::empty()
                }) + seq![
                    ActionView::Emit(
                        AgentEventView::Message(
                            MessageView {
                                content: filtered_content(response.content, tools),
                                ..response
                            },
                        ),
                    ),
                    ActionView::Yield,
                ];
                assert(!calls_provider(first)) by {
                    if calls_provider(first) {
                        let k = choose|k: int| 0 <= k < first.len() && #[trigger] first[k] is CallProvider;
                        if has_selector && k < names.len() {
                            assert(first[k] == record_actions(names)[k]);
                        }
                    }
                }
                if frontend.len() + remaining.len() > 0 {
                    let mid = ReplyView {
                        response,
                        accumulator: MessageView::empty(crate::message::Role::User, now),
                        frontend,
                        remaining,
                        approval: Seq::empty(),
                        enable_ids: Seq::empty(),
                        in_flight: Seq::empty(),
                        all_install_successful: true,
                        ..before
                    };
                    mid.lemma_settle_frontend(now);
                    lemma_concat_quiet(first, mid.settle_frontend(now).1, Seq::empty());
                } else {
                    assert(actions == first.push(ActionView::Finish));
                    if i < first.len() {
                        assert(first[i] is CallProvider);
                    }
                }
            }
        },
        EventView::ToolResult { id: answered, result } => {
            if before.phase == Phase::Frontend && before.frontend.len() > 0
                && before.frontend.first().id == answered {
                let mid = ReplyView {
                    frontend: before.frontend.drop_first(),
                    accumulator: before.accumulator.with_tool_response(answered, result),
                    ..before
                };
                mid.lemma_settle_frontend(now);
            }
        },
        EventView::Permissions { sorted, enable_extension_ids } => {
            if before.phase == Phase::Judging {
                let mid = before.sorted_into(sorted, enable_extension_ids);
                mid.lemma_settle_approval(now);
                lemma_answer_unparsed(before.accumulator, sorted.approved, Seq::empty());
                lemma_concat_quiet(
                    dispatch_actions(sorted.approved),
                    mid.settle_approval(now).1,
                    Seq::empty(),
                );
            }
        },
        EventView::Confirmation { id: decided, confirmation } => {
            if before.phase == Phase::Approving && before.approval.len() > 0
                && before.approval.first().id == decided {
                let mid = before.decided(confirmation);
                mid.lemma_settle_approval(now);
                let tail = mid.settle_approval(now).1;
                let head = before.approval.first();
                match head.tool_call {
                    Ok(call) => {
                        if confirmation.allows() {
                            let lead = seq![ActionView::Dispatch { id: head.id, tool_call: call }]
                                + (if confirmation.permission
                                == crate::permission::Permission::AlwaysAllow {
                                seq![ActionView::RememberAlwaysAllow(call.name)]
                            } else {
                                Seq::empty()
                            });
                            assert(actions == lead + tail);
                            lemma_concat_quiet(lead, tail, Seq::empty());
                            assert(!calls_provider(lead));
                        }
                    },
                    Err(e) => {},
                }
            }
        },
        EventView::Finished { id: ended, result } => {
            if before.phase == Phase::Collecting && before.in_flight.contains(ended) {
                let mid = ReplyView {
                    in_flight: crate::ids::without_first(before.in_flight, ended),
                    accumulator: before.accumulator.with_tool_response(ended, result),
                    all_install_successful: before.all_install_successful && !(
                    before.enable_ids.contains(ended) && result is Err),
                    ..before
                };
                mid.lemma_finish_turn(mid.all_install_successful);
            }
        },
        _ => {},
    }
}

/// When the judge's sorting is taken up, each denied request is answered with the fixed
/// declined response. No notification is handed out by that step, and where the model gave the
/// id of the denied request to no other request of the turn, no call is dispatched for it.
pub proof fn law_denied_requests_are_declined(
    before: ReplyView,
    sorted: PermissionCheckResultView,
    enable_extension_ids: Seq<Seq<char>>,
    tools: Seq<FrontendToolView>,
    has_selector: bool,
    now: i64,
    i: int,
)
    requires
        before.inv(),
        before.phase == Phase::Judging,
        sorted.sorts(before.remaining),
        0 <= i < sorted.denied.len(),
    ensures
        ({
            let (next, actions) = before.step(
                EventView::Permissions { sorted, enable_extension_ids },
                tools,
                has_selector,
                now,
            );
            let id = sorted.denied[i].id;
            &&& next.accumulator.content.contains(
                MessageContentView::ToolResponse(
                    ToolResponseView { id, tool_result: text_result(DECLINED_RESPONSE@) },
                ),
            )
            &&& occurrences(next.answered(), id) >= 1
            &&& !notifies(actions, id)
            &&& occurrences(before.issued(), id) <= 1 ==> !dispatches(actions, id)
        }),
{
    let id = sorted.denied[i].id;
    let declined = text_result(DECLINED_RESPONSE@);
    let mid = before.sorted_into(sorted, enable_extension_ids);
    let first = answer_unparsed(before.accumulator, sorted.approved);
    let (next, tail) = mid.settle_approval(now);
    mid.lemma_settle_approval(now);
    lemma_answer_all(first, sorted.denied, declined);
    lemma_extends_self(mid.accumulator.content);
    lemma_extends_chain(next.accumulator.content, mid.accumulator.content, mid.accumulator.content);
    lemma_answer_unparsed(before.accumulator, sorted.approved, id);
    lemma_passive(tail, id);
    lemma_concat_quiet(dispatch_actions(sorted.approved), tail, id);
    before.lemma_sorted_into(sorted, enable_extension_ids, id);
    before.lemma_tally(id);
    assert(ids_of(sorted.denied)[i] == id);
    lemma_occurrences_contains(ids_of(sorted.denied), id);
    assert(before.tally(id) == occurrences(before.issued(), id));
    lemma_occurrences_concat(response_ids(first.content), ids_of(sorted.denied), id);
    lemma_answers_stay(next.accumulator.content, mid.accumulator.content, id);
}

/// A request that has its answer is never dispatched after that and none of its notifications
/// is handed out, and it keeps its answer, provided that the model gave its id to no other
/// request of the turn. A denied request has its answer from the step that takes up the judge's
/// sorting, and a request that the user declines from the step that takes up the decision.
pub proof fn law_answered_requests_stay_silent(
    before: ReplyView,
    event: EventView,
    tools: Seq<FrontendToolView>,
    has_selector: bool,
    now: i64,
    id: Seq<char>,
)
    requires
        before.inv(),
        before.accepts(event),
        before.in_turn(),
        before.answered().contains(id),
        occurrences(before.issued(), id) <= 1,
    ensures
        ({
            let (next, actions) = before.step(event, tools, has_selector, now);
            &&& !dispatches(actions, id)
            &&& !notifies(actions, id)
            &&& occurrences(response_ids(next.accumulator.content), id) >= 1
        }),
{
    let (next, actions) = before.step(event, tools, has_selector, now);
    lemma_occurrences_contains(before.answered(), id);
    before.lemma_tally(id);
    assert(before.tally(id) == occurrences(before.issued(), id));
    lemma_extends_self(before.accumulator.content);
    lemma_answers_stay(before.accumulator.content, before.accumulator.content, id);
    match event {
        EventView::ToolResult { id: answered, result } => {
            if before.phase == Phase::Frontend && before.frontend.len() > 0
                && before.frontend.first().id == answered {
                let part = MessageContentView::ToolResponse(
                    ToolResponseView { id: answered, tool_result: result },
                );
                let mid = ReplyView {
                    frontend: before.frontend.drop_first(),
                    accumulator: before.accumulator.with_tool_response(answered, result),
                    ..before
                };
                mid.lemma_settle_frontend(now);
                lemma_passive(actions, id);
                lemma_extends_with(before.accumulator, part);
                lemma_extends_chain(
                    next.accumulator.content,
                    mid.accumulator.content,
                    before.accumulator.content,
                );
                lemma_answers_stay(next.accumulator.content, before.accumulator.content, id);
            }
        },
        EventView::Permissions { sorted, enable_extension_ids } => {
            if before.phase == Phase::Judging {
                let mid = before.sorted_into(sorted, enable_extension_ids);
                let tail = mid.settle_approval(now).1;
                mid.lemma_settle_approval(now);
                before.lemma_sorted_into(sorted, enable_extension_ids, id);
                lemma_answer_unparsed(before.accumulator, sorted.approved, id);
                lemma_passive(tail, id);
                lemma_concat_quiet(dispatch_actions(sorted.approved), tail, id);
                lemma_extends_chain(
                    next.accumulator.content,
                    mid.accumulator.content,
                    before.accumulator.content,
                );
                lemma_answers_stay(next.accumulator.content, before.accumulator.content, id);
            }
        },
        EventView::Confirmation { id: decided, confirmation } => {
            if before.phase == Phase::Approving && before.approval.len() > 0
                && before.approval.first().id == decided {
                let mid = before.decided(confirmation);
                let tail = mid.settle_approval(now).1;
                let head = before.approval.first();
                mid.lemma_settle_approval(now);
                before.lemma_decided(confirmation, id);
                lemma_passive(tail, id);
                lemma_ids_drop_first(before.approval);
                lemma_occurrences_drop_first(ids_of(before.approval), id);
                assert(head.id != id);
                lemma_extends_chain(
                    next.accumulator.content,
                    mid.accumulator.content,
                    before.accumulator.content,
                );
                lemma_answers_stay(next.accumulator.content, before.accumulator.content, id);
                match head.tool_call {
                    Ok(call) => {
                        if confirmation.allows() {
                            let lead = seq![ActionView::Dispatch { id: head.id, tool_call: call }]
                                + (if confirmation.permission
                                == crate::permission::Permission::AlwaysAllow {
                                seq![ActionView::RememberAlwaysAllow(call.name)]
                            } else {
                                Seq::empty()
                            });
                            assert(actions == lead + tail);
                            lemma_concat_quiet(lead, tail, id);
                            assert(!dispatches(lead, id));
                            assert(!notifies(lead, id));
                        }
                    },
                    Err(e) => {},
                }
            }
        },
        EventView::Notification { id: sender, message } => {
            if before.phase == Phase::Collecting && before.in_flight.contains(sender) {
                lemma_occurrences_contains(before.in_flight, id);
                assert(sender != id);
            }
        },
        EventView::Finished { id: ended, result } => {
            if before.phase == Phase::Collecting && before.in_flight.contains(ended) {
                let part = MessageContentView::ToolResponse(
                    ToolResponseView { id: ended, tool_result: result },
                );
                let mid = ReplyView {
                    in_flight: crate::ids::without_first(before.in_flight, ended),
                    accumulator: before.accumulator.with_tool_response(ended, result),
                    all_install_successful: before.all_install_successful && !(
                    before.enable_ids.contains(ended) && result is Err),
                    ..before
                };
                mid.lemma_finish_turn(mid.all_install_successful);
                lemma_extends_with(before.accumulator, part);
                lemma_answers_stay(mid.accumulator.content, before.accumulator.content, id);
                if mid.in_flight.len() == 0 {
                    lemma_passive(actions, id);
                }
            }
        },
        _ => {},
    }
}

/// The tool-response message of a turn is handed out by the step that ends the turn, and by
/// then every request of the turn has its answer and every dispatched call has ended: no
/// request is open and no call is running. That step hands the message out, yields, and asks
/// the model again, in this order and as its last actions.
pub proof fn law_turn_closes_after_every_call(
    before: ReplyView,
    event: EventView,
    tools: Seq<FrontendToolView>,
    has_selector: bool,
    now: i64,
)
    requires
        before.inv(),
        calls_provider(before.step(event, tools, has_selector, now).1),
    ensures
        closes_turn(
            before.step(event, tools, has_selector, now).0,
            before.step(event, tools, has_selector, now).1,
        ),
{
    let (next, actions) = before.step(event, tools, has_selector, now);
    law_provider_called_between_turns(before, event, tools, has_selector, now);
    match event {
        EventView::Response(response) => {
            if before.phase == Phase::Generating {
                let frontend = frontend_requests(response.content, tools);
                let remaining = remaining_requests(response.content, tools);
                if frontend.len() + remaining.len() > 0 {
                    let mid = ReplyView {
                        response,
                        accumulator: MessageView::empty(crate::message::Role::User, now),
                        frontend,
                        remaining,
                        approval: Seq::empty(),
                        enable_ids: Seq::empty(),
                        in_flight: Seq::empty(),
                        all_install_successful: true,
                        ..before
                    };
                    mid.lemma_settle_frontend(now);
                    let tail = mid.settle_frontend(now).1;
                    let lead = actions.take(actions.len() - tail.len());
                    assert(actions =~= lead + tail);
                    lemma_closes_after(lead, next, tail);
                }
            }
        },
        EventView::ToolResult { id: answered, result } => {
            if before.phase == Phase::Frontend && before.frontend.len() > 0
                && before.frontend.first().id == answered {
                let mid = ReplyView {
                    frontend: before.frontend.drop_first(),
                    accumulator: before.accumulator.with_tool_response(answered, result),
                    ..before
                };
                mid.lemma_settle_frontend(now);
            }
        },
        EventView::Permissions { sorted, enable_extension_ids } => {
            if before.phase == Phase::Judging {
                let mid = before.sorted_into(sorted, enable_extension_ids);
                mid.lemma_settle_approval(now);
                lemma_closes_after(dispatch_actions(sorted.approved), next, mid.settle_approval(now).1);
            }
        },
        EventView::Confirmation { id: decided, confirmation } => {
            if before.phase == Phase::Approving && before.approval.len() > 0
                && before.approval.first().id == decided {
                let mid = before.decided(confirmation);
                mid.lemma_settle_approval(now);
                let tail = mid.settle_approval(now).1;
                let lead = actions.take(actions.len() - tail.len());
                assert(actions =~= lead + tail);
                lemma_closes_after(lead, next, tail);
            }
        },
        EventView::Finished { id: ended, result } => {
            if before.phase == Phase::Collecting && before.in_flight.contains(ended) {
                let mid = ReplyView {
                    in_flight: crate::ids::without_first(before.in_flight, ended),
                    accumulator: before.accumulator.with_tool_response(ended, result),
                    all_install_successful: before.all_install_successful && !(
                    before.enable_ids.contains(ended) && result is Err),
                    ..before
                };
                mid.lemma_finish_turn(mid.all_install_successful);
            }
        },
        _ => {},
    }
}

/// No call bypasses the permission gate: a step dispatches a call only for a request that the
/// judge approved, in the step that takes up the judge's sorting, or for the request that the
/// user has just allowed.
pub proof fn law_dispatch_needs_permission(
    before: ReplyView,
    event: EventView,
    tools: Seq<FrontendToolView>,
    has_selector: bool,
    now: i64,
    id: Seq<char>,
)
    requires
        before.inv(),
        dispatches(before.step(event, tools, has_selector, now).1, id),
    ensures
        match event {
            EventView::Permissions { sorted, .. } => before.phase == Phase::Judging
                && occurrences(ids_of(sorted.approved), id) > 0,
            EventView::Confirmation { id: decided, confirmation } => before.phase
                == Phase::Approving && decided == id && confirmation.allows(),
            _ => false,
        },
{
    let (next, actions) = before.step(event, tools, has_selector, now);
    match event {
        EventView::Response(response) => {
            if before.phase == Phase::Generating {
                let frontend = frontend_requests(response.content, tools);
                let remaining = remaining_requests(response.content, tools);
                let names = crate::turn::called_names(frontend) + crate::turn::called_names(
                    remaining,
                );
                let first = (if has_selector {
                    record_actions(names)
                } else {
                    Seq::empty()
                }) + seq![
                    ActionView::Emit(
                        AgentEventView::Message(
                            MessageView {
                                content: filtered_content(response.content, tools),
                                ..response
                            },
                        ),
                    ),
                    ActionView::Yield,
                ];
                assert(!dispatches(first, id)) by {
                    if dispatches(first, id) {
                        let k = choose|k: int|
                            0 <= k < first.len() && (#[trigger] first[k] matches ActionView::Dispatch {
                                id: d,
                                ..
                            } && d == id);
                        if has_selector && k < names.len() {
                            assert(first[k] == record_actions(names)[k]);
                        }
                    }
                }
                if frontend.len() + remaining.len() > 0 {
                    let mid = ReplyView {
                        response,
                        accumulator: MessageView::empty(crate::message::Role::User, now),
                        frontend,
                        remaining,
                        approval: Seq::empty(),
                        enable_ids: Seq::empty(),
                        in_flight: Seq::empty(),
                        all_install_successful: true,
                        ..before
                    };
                    mid.lemma_settle_frontend(now);
                    lemma_passive(mid.settle_frontend(now).1, id);
                    lemma_concat_quiet(first, mid.settle_frontend(now).1, id);
                } else {
                    let last = seq![ActionView::Finish];
                    assert(actions =~= first + last);
                    lemma_concat_quiet(first, last, id);
                }
            }
        },
        EventView::ToolResult { id: answered, result } => {
            if before.phase == Phase::Frontend && before.frontend.len() > 0
                && before.frontend.first().id == answered {
                let mid = ReplyView {
                    frontend: before.frontend.drop_first(),
                    accumulator: before.accumulator.with_tool_response(answered, result),
                    ..before
                };
                mid.lemma_settle_frontend(now);
                lemma_passive(actions, id);
            }
        },
        EventView::Permissions { sorted, enable_extension_ids } => {
            if before.phase == Phase::Judging {
                let mid = before.sorted_into(sorted, enable_extension_ids);
                mid.lemma_settle_approval(now);
                lemma_passive(mid.settle_approval(now).1, id);
                lemma_answer_unparsed(before.accumulator, sorted.approved, id);
                lemma_concat_quiet(dispatch_actions(sorted.approved), mid.settle_approval(now).1, id);
            }
        },
        EventView::Confirmation { id: decided, confirmation } => {
            if before.phase == Phase::Approving && before.approval.len() > 0
                && before.approval.first().id == decided {
                let mid = before.decided(confirmation);
                mid.lemma_settle_approval(now);
                let tail = mid.settle_approval(now).1;
                lemma_passive(tail, id);
                let head = before.approval.first();
                match head.tool_call {
                    Ok(call) => {
                        if confirmation.allows() {
                            let lead = seq![ActionView::Dispatch { id: head.id, tool_call: call }]
                                + (if confirmation.permission
                                == crate::permission::Permission::AlwaysAllow {
                                seq![ActionView::RememberAlwaysAllow(call.name)]
                            } else {
                                Seq::empty()
                            });
                            assert(actions == lead + tail);
                            lemma_concat_quiet(lead, tail, id);
                            let k = choose|k: int|
                                0 <= k < lead.len() && (
                                #[trigger] lead[k] matches ActionView::Dispatch { id: d, .. } && d
                                    == id);
                            assert(k == 0);
                        }
                    },
                    Err(e) => {},
                }
            }
        },
        EventView::Finished { id: ended, result } => {
            if before.phase == Phase::Collecting && before.in_flight.contains(ended) {
                let mid = ReplyView {
                    in_flight: crate::ids::without_first(before.in_flight, ended),
                    accumulator: before.accumulator.with_tool_response(ended, result),
                    all_install_successful: before.all_install_successful && !(
                    before.enable_ids.contains(ended) && result is Err),
                    ..before
                };
                mid.lemma_finish_turn(mid.all_install_successful);
                if mid.in_flight.len() == 0 {
                    lemma_passive(actions, id);
                }
            }
        },
        _ => {},
    }
}

/// The tools and the system prompt are recomputed only at the end of a turn in which no call
/// that asked to enable an extension has failed: once such a call has failed, no later step of
/// the turn asks for the refresh, and the failure of such a call is noted by the step that
/// takes up its result.
pub proof fn law_failed_install_suppresses_refresh(
    before: ReplyView,
    event: EventView,
    tools: Seq<FrontendToolView>,
    has_selector: bool,
    now: i64,
)
    requires
        before.inv(),
        before.in_turn(),
    ensures
        ({
            let (next, actions) = before.step(event, tools, has_selector, now);
            &&& refreshes(actions) ==> next.all_install_successful && before.all_install_successful
            &&& !before.all_install_successful && !(event is Abort) ==> !next.all_install_successful
            &&& event matches EventView::Finished { id, result } ==> before.phase
                == Phase::Collecting && before.in_flight.contains(id) && before.enable_ids.contains(
                id,
            ) && result is Err ==> !next.all_install_successful && !refreshes(actions)
        }),
{
    let (next, actions) = before.step(event, tools, has_selector, now);
    match event {
        EventView::ToolResult { id: answered, result } => {
            if before.phase == Phase::Frontend && before.frontend.len() > 0
                && before.frontend.first().id == answered {
                let mid = ReplyView {
                    frontend: before.frontend.drop_first(),
                    accumulator: before.accumulator.with_tool_response(answered, result),
                    ..before
                };
                mid.lemma_settle_frontend(now);
                mid.lemma_settle_frontend_keeps(now);
            }
        },
        EventView::Permissions { sorted, enable_extension_ids } => {
            if before.phase == Phase::Judging {
                let mid = before.sorted_into(sorted, enable_extension_ids);
                mid.lemma_settle_approval(now);
                mid.lemma_settle_approval_keeps(now);
                lemma_answer_unparsed(before.accumulator, sorted.approved, Seq::empty());
                lemma_concat_quiet(
                    dispatch_actions(sorted.approved),
                    mid.settle_approval(now).1,
                    Seq::empty(),
                );
            }
        },
        EventView::Confirmation { id: decided, confirmation } => {
            if before.phase == Phase::Approving && before.approval.len() > 0
                && before.approval.first().id == decided {
                let mid = before.decided(confirmation);
                mid.lemma_settle_approval(now);
                mid.lemma_settle_approval_keeps(now);
                let tail = mid.settle_approval(now).1;
                let head = before.approval.first();
                match head.tool_call {
                    Ok(call) => {
                        if confirmation.allows() {
                            let lead = seq![ActionView::Dispatch { id: head.id, tool_call: call }]
                                + (if confirmation.permission
                                == crate::permission::Permission::AlwaysAllow {
                                seq![ActionView::RememberAlwaysAllow(call.name)]
                            } else {
                                Seq::empty()
                            });
                            assert(actions == lead + tail);
                            lemma_concat_quiet(lead, tail, Seq::empty());
                            assert(!refreshes(lead));
                        }
                    },
                    Err(e) => {},
                }
            }
        },
        EventView::Finished { id: ended, result } => {
            if before.phase == Phase::Collecting && before.in_flight.contains(ended) {
                let mid = ReplyView {
                    in_flight: crate::ids::without_first(before.in_flight, ended),
                    accumulator: before.accumulator.with_tool_response(ended, result),
                    all_install_successful: before.all_install_successful && !(
                    before.enable_ids.contains(ended) && result is Err),
                    ..before
                };
                mid.lemma_finish_turn(mid.all_install_successful);
            }
        },
        _ => {},
    }
}

impl ReplyView {
    /// Going on with the approvals leaves the note on failed installs as it is.
    proof fn lemma_settle_approval_keeps(self, now: i64)
        ensures
            self.settle_approval(now).0.all_install_successful == self.all_install_successful,
        decreases self.approval.len(),
    {
        if self.approval.len() > 0 {
            let head = self.approval.first();
            match head.tool_call {
                Ok(call) => {},
                Err(e) => {
                    (ReplyView {
                        approval: self.approval.drop_first(),
                        accumulator: self.accumulator.with_tool_response(head.id, Err(e)),
                        ..self
                    }).lemma_settle_approval_keeps(now);
                },
            }
        }
    }

    /// Going on with the frontend's requests leaves the note on failed installs as it is.
    proof fn lemma_settle_frontend_keeps(self, now: i64)
        ensures
            self.settle_frontend(now).0.all_install_successful == self.all_install_successful,
    {
    }
}

/// Whether the result of the call `id` is among `events`.
pub open spec fn has_finished(events: Seq<EventView>, id: Seq<char>) -> bool {
    exists|i: int|
        0 <= i < events.len() && (#[trigger] events[i] matches EventView::Finished { id: d, .. }
            && d == id)
}

/// Whether each of `events` is an item of a running call.
pub open spec fn all_tool_items(events: Seq<EventView>) -> bool {
    forall|i: int|
        0 <= i < events.len() ==> (#[trigger] events[i]) is Notification || events[i] is Finished
}

/// The notifications that the call `id` sent before its result, in their order.
pub open spec fn notes_before_result(events: Seq<EventView>, id: Seq<char>) -> Seq<Seq<char>>
    decreases events.len(),
{
    if events.len() == 0 {
        Seq::empty()
    } else {
        let earlier = notes_before_result(events.drop_last(), id);
        match events.last() {
            EventView::Notification { id: d, message } => if d == id && !has_finished(
                events.drop_last(),
                id,
            ) {
                earlier.push(message)
            } else {
                earlier
            },
            _ => earlier,
        }
    }
}

/// The notifications of the call `id` that `actions` hand out, in their order.
pub open spec fn notifications_of(actions: Seq<ActionView>, id: Seq<char>) -> Seq<Seq<char>>
    decreases actions.len(),
{
    if actions.len() == 0 {
        Seq::empty()
    } else {
        let earlier = notifications_of(actions.drop_last(), id);
        match actions.last() {
            ActionView::Emit(AgentEventView::McpNotification(n)) => if n.0 == id {
                earlier.push(n.1)
            } else {
                earlier
            },
            _ => earlier,
        }
    }
}

proof fn lemma_notifications_concat(a: Seq<ActionView>, b: Seq<ActionView>, id: Seq<char>)
    ensures
        notifications_of(a + b, id) == notifications_of(a, id) + notifications_of(b, id),
    decreases b.len(),
{
    if b.len() == 0 {
        assert(a + b =~= a);
        assert(notifications_of(a, id) + notifications_of(b, id) =~= notifications_of(a, id));
    } else {
        assert((a + b).drop_last() =~= a + b.drop_last());
        assert((a + b).last() == b.last());
        lemma_notifications_concat(a, b.drop_last(), id);
        assert(notifications_of(a + b, id) =~= notifications_of(a, id) + notifications_of(b, id));
    }
}

proof fn lemma_notifications_passive(actions: Seq<ActionView>, id: Seq<char>)
    requires
        passive(actions),
    ensures
        notifications_of(actions, id) == Seq::<Seq<char>>::empty(),
    decreases actions.len(),
{
    if actions.len() > 0 {
        assert(passive(actions.drop_last())) by {
            assert forall|i: int| 0 <= i < actions.drop_last().len() implies !((
            #[trigger] actions.drop_last()[i]) is Dispatch) && !(actions.drop_last()[i] matches ActionView::Emit(
                AgentEventView::McpNotification(_),
            )) by {
                assert(actions.drop_last()[i] == actions[i]);
            }
        }
        lemma_notifications_passive(actions.drop_last(), id);
        assert(actions.last() == actions[actions.len() - 1]);
    }
}

/// Where the collecting stands for the call `id` after some of the items: as long as its
/// result has not come the call runs, and after that it does not.
spec fn collecting_for(state: ReplyView, events: Seq<EventView>, id: Seq<char>) -> bool {
    if has_finished(events, id) {
        state.phase == Phase::Collecting ==> occurrences(state.in_flight, id) == 0
    } else {
        state.phase == Phase::Collecting && occurrences(state.in_flight, id) == 1
    }
}

proof fn lemma_collecting(
    before: ReplyView,
    events: Seq<EventView>,
    tools: Seq<FrontendToolView>,
    has_selector: bool,
    now: i64,
    id: Seq<char>,
)
    requires
        before.phase == Phase::Collecting,
        occurrences(before.in_flight, id) == 1,
        all_tool_items(events),
    ensures
        ({
            let (next, actions) = before.run(events, tools, has_selector, now);
            &&& next.phase == Phase::Collecting || next.phase == Phase::Generating
            &&& collecting_for(next, events, id)
            &&& notifications_of(actions, id) == notes_before_result(events, id)
        }),
    decreases events.len(),
{
    if events.len() > 0 {
        let prefix = events.drop_last();
        let event = events.last();
        assert(all_tool_items(prefix)) by {
            assert forall|i: int| 0 <= i < prefix.len() implies (#[trigger] prefix[i]) is Notification
                || prefix[i] is Finished by {
                assert(prefix[i] == events[i]);
            }
        }
        lemma_collecting(before, prefix, tools, has_selector, now, id);
        let (mid, earlier) = before.run(prefix, tools, has_selector, now);
        let (next, later) = mid.step(event, tools, has_selector, now);
        lemma_notifications_concat(earlier, later, id);
        lemma_occurrences_contains(mid.in_flight, id);
        assert(event == events[events.len() - 1]);
        if has_finished(prefix, id) {
            let i = choose|i: int|
                0 <= i < prefix.len() && (#[trigger] prefix[i] matches EventView::Finished {
                    id: d,
                    ..
                } && d == id);
            assert(events[i] == prefix[i]);
        }
        match event {
            EventView::Notification { id: sender, message } => {
                if has_finished(events, id) && !has_finished(prefix, id) {
                    let i = choose|i: int|
                        0 <= i < events.len() && (#[trigger] events[i] matches EventView::Finished {
                            id: d,
                            ..
                        } && d == id);
                    assert(prefix[i] == events[i]);
                }
                if mid.phase == Phase::Collecting && mid.in_flight.contains(sender) {
                    assert(later.drop_last() =~= Seq::empty());
                    assert(notifications_of(later.drop_last(), id) =~= Seq::<Seq<char>>::empty());
                    assert(notifications_of(earlier, id) + notifications_of(later, id)
                        =~= notes_before_result(events, id));
                } else {
                    assert(notifications_of(earlier, id) + notifications_of(later, id)
                        =~= notes_before_result(events, id));
                }
            },
            EventView::Finished { id: ended, result } => {
                if mid.phase == Phase::Collecting && mid.in_flight.contains(ended) {
                    let after = ReplyView {
                        in_flight: crate::ids::without_first(mid.in_flight, ended),
                        accumulator: mid.accumulator.with_tool_response(ended, result),
                        all_install_successful: mid.all_install_successful && !(
                        mid.enable_ids.contains(ended) && result is Err),
                        ..mid
                    };
                    after.lemma_finish_turn(after.all_install_successful);
                    lemma_without_first(mid.in_flight, ended, id);
                    if after.in_flight.len() == 0 {
                        lemma_notifications_passive(later, id);
                        lemma_occurrences_contains(after.in_flight, id);
                    } else {
                        assert(later =~= Seq::empty());
                    }
                }
                if ended == id {
                    assert(events[events.len() - 1] matches EventView::Finished { id: d, .. } && d
                        == id);
                } else if has_finished(events, id) && !has_finished(prefix, id) {
                    let i = choose|i: int|
                        0 <= i < events.len() && (#[trigger] events[i] matches EventView::Finished {
                            id: d,
                            ..
                        } && d == id);
                    assert(prefix[i] == events[i]);
                }
                assert(notifications_of(earlier, id) + notifications_of(later, id)
                    =~= notes_before_result(events, id));
            },
            _ => {},
        }
    }
}

/// While the dispatched calls run, the notifications of each call are handed out in the order
/// in which they come, whatever the other calls deliver in between, and none is handed out
/// after the call's result has come.
pub proof fn law_notifications_in_order_until_result(
    before: ReplyView,
    events: Seq<EventView>,
    tools: Seq<FrontendToolView>,
    has_selector: bool,
    now: i64,
    id: Seq<char>,
)
    requires
        before.phase == Phase::Collecting,
        occurrences(before.in_flight, id) == 1,
        all_tool_items(events),
    ensures
        notifications_of(before.run(events, tools, has_selector, now).1, id)
            == notes_before_result(events, id),
{
    lemma_collecting(before, events, tools, has_selector, now, id);
}

proof fn lemma_run_keeps(
    before: ReplyView,
    events: Seq<EventView>,
    tools: Seq<FrontendToolView>,
    has_selector: bool,
    now: i64,
)
    requires
        before.inv(),
        before.phase == Phase::Collecting,
        all_tool_items(events),
    ensures
        ({
            let next = before.run(events, tools, has_selector, now).0;
            &&& next.inv()
            &&& next.phase == Phase::Collecting ==> forall|x: Seq<char>|
                next.in_flight.contains(x) ==> before.in_flight.contains(x)
        }),
    decreases events.len(),
{
    if events.len() > 0 {
        let prefix = events.drop_last();
        let event = events.last();
        assert(all_tool_items(prefix)) by {
            assert forall|i: int| 0 <= i < prefix.len() implies (#[trigger] prefix[i]) is Notification
                || prefix[i] is Finished by {
                assert(prefix[i] == events[i]);
            }
        }
        assert(event == events[events.len() - 1]);
        lemma_run_keeps(before, prefix, tools, has_selector, now);
        lemma_collecting_phase(before, prefix, tools, has_selector, now);
        let mid = before.run(prefix, tools, has_selector, now).0;
        let next = mid.step(event, tools, has_selector, now).0;
        law_each_request_answered_once(mid, event, tools, has_selector, now);
        match event {
            EventView::Finished { id: ended, result } => {
                if mid.phase == Phase::Collecting && mid.in_flight.contains(ended)
                    && next.phase == Phase::Collecting {
                    assert forall|x: Seq<char>| next.in_flight.contains(x) implies before.in_flight.contains(
                        x,
                    ) by {
                        lemma_without_first(mid.in_flight, ended, x);
                        lemma_occurrences_contains(mid.in_flight, x);
                        lemma_occurrences_contains(next.in_flight, x);
                    }
                }
            },
            _ => {},
        }
    }
}

proof fn lemma_collecting_phase(
    before: ReplyView,
    events: Seq<EventView>,
    tools: Seq<FrontendToolView>,
    has_selector: bool,
    now: i64,
)
    requires
        before.phase == Phase::Collecting,
        all_tool_items(events),
    ensures
        ({
            let next = before.run(events, tools, has_selector, now).0;
            next.phase == Phase::Collecting || next.phase == Phase::Generating
        }),
    decreases events.len(),
{
    if events.len() > 0 {
        let prefix = events.drop_last();
        assert(all_tool_items(prefix)) by {
            assert forall|i: int| 0 <= i < prefix.len() implies (#[trigger] prefix[i]) is Notification
                || prefix[i] is Finished by {
                assert(prefix[i] == events[i]);
            }
        }
        assert(events.last() == events[events.len() - 1]);
        lemma_collecting_phase(before, prefix, tools, has_selector, now);
    }
}

/// The collecting of a turn ends exactly when the result of every dispatched call has come:
/// until then the loop waits for more items, and with the last result the turn ends.
pub proof fn law_collecting_ends_with_the_last_result(
    before: ReplyView,
    events: Seq<EventView>,
    tools: Seq<FrontendToolView>,
    has_selector: bool,
    now: i64,
)
    requires
        before.inv(),
        before.phase == Phase::Collecting,
        forall|id: Seq<char>| occurrences(before.in_flight, id) <= 1,
        all_tool_items(events),
    ensures
        ({
            let next = before.run(events, tools, has_selector, now).0;
            &&& next.phase == Phase::Collecting || next.phase == Phase::Generating
            &&& next.phase == Phase::Generating <==> forall|id: Seq<char>|
                before.in_flight.contains(id) ==> has_finished(events, id)
        }),
{
    let next = before.run(events, tools, has_selector, now).0;
    lemma_collecting_phase(before, events, tools, has_selector, now);
    lemma_run_keeps(before, events, tools, has_selector, now);
    assert forall|id: Seq<char>| before.in_flight.contains(id) implies collecting_for(
        next,
        events,
        id,
    ) by {
        lemma_occurrences_contains(before.in_flight, id);
        assert(occurrences(before.in_flight, id) <= 1);
        lemma_collecting(before, events, tools, has_selector, now, id);
    }
    if next.phase == Phase::Collecting {
        let x = next.in_flight[0];
        assert(next.in_flight.contains(x));
        assert(before.in_flight.contains(x));
        lemma_occurrences_contains(next.in_flight, x);
        assert(collecting_for(next, events, x));
        assert(!has_finished(events, x));
    } else {
        assert forall|id: Seq<char>| before.in_flight.contains(id) implies has_finished(
            events,
            id,
        ) by {
            assert(collecting_for(next, events, id));
        }
    }
}

} // verus!
