use goose_agent::agent::{Agent, RouterToolSelectionStrategy};
use goose_agent::catalog::Tool;
use goose_agent::extension::ExtensionConfig;
use goose_agent::message::{
    AgentEvent, JsonRpcMessage, Message, MessageContent, Role, ToolRequest, ToolResponse,
};
use goose_agent::permission::{
    Permission, PermissionCheckResult, PermissionConfirmation, PrincipalType,
};
use goose_agent::reply::{same_ids, Action, Event, Reply};
use goose_agent::setup::SelectorSetup;
use goose_agent::stream::ToolStreamItem;
use goose_agent::tool::{Content, ToolCall, ToolError};
use goose_agent::turn::{
    Phase, CHAT_MODE_TOOL_SKIPPED_RESPONSE, CONFIRMATION_PROMPT, CONTEXT_LENGTH_EXCEEDED_TEXT,
    DECLINED_RESPONSE,
};

fn tool_request(id: &str, name: &str) -> ToolRequest {
    ToolRequest { id: id.to_string(), tool_call: Ok(ToolCall::new(name.to_string(), "{}".to_string())) }
}

fn broken_request(id: &str) -> ToolRequest {
    ToolRequest { id: id.to_string(), tool_call: Err(ToolError::InvalidParameters("bad json".to_string())) }
}

fn response_with(requests: &[ToolRequest]) -> Message {
    let mut message = Message::assistant(1).with_text("working".to_string());
    for r in requests {
        let call = match &r.tool_call {
            Ok(c) => Ok(c.clone()),
            Err(e) => Err(e.clone()),
        };
        message = message.with_tool_request(r.id.clone(), call);
    }
    message
}

fn text(s: &str) -> Result<Vec<Content>, ToolError> {
    Ok(vec![Content::Text(s.to_string())])
}

fn answer(id: &str, result: Result<Vec<Content>, ToolError>) -> MessageContent {
    MessageContent::ToolResponse(ToolResponse { id: id.to_string(), tool_result: result })
}

fn sorted(approved: Vec<ToolRequest>, needs_approval: Vec<ToolRequest>, denied: Vec<ToolRequest>) -> Event {
    Event::Permissions {
        sorted: PermissionCheckResult { approved, needs_approval, denied },
        enable_extension_ids: vec![],
    }
}

fn confirm(id: &str, permission: Permission) -> Event {
    Event::Confirmation {
        id: id.to_string(),
        confirmation: PermissionConfirmation { principal_type: PrincipalType::Tool, permission },
    }
}

fn finished(id: &str, result: Result<Vec<Content>, ToolError>) -> Event {
    Event::ToolItem { id: id.to_string(), item: ToolStreamItem::Result(result) }
}

fn notification(id: &str, text: &str) -> Event {
    Event::ToolItem {
        id: id.to_string(),
        item: ToolStreamItem::Message(JsonRpcMessage { text: text.to_string() }),
    }
}

fn dispatched(actions: &[Action]) -> Vec<String> {
    actions
        .iter()
        .filter_map(|a| match a {
            Action::Dispatch { id, .. } => Some(id.clone()),
            _ => None,
        })
        .collect()
}

fn response_ids(message: &Message) -> Vec<String> {
    message
        .content
        .iter()
        .filter_map(|c| match c {
            MessageContent::ToolResponse(r) => Some(r.id.clone()),
            _ => None,
        })
        .collect()
}

fn auto() -> Reply {
    Reply::new(vec![Message::user(0).with_text("hi".to_string())], "auto".to_string())
}

#[test]
fn chat_mode_skips_every_request() {
    let agent = Agent::new();
    let mut reply = Reply::new(vec![], "chat".to_string());
    let response = response_with(&[tool_request("a", "shell"), tool_request("b", "edit")]);
    let actions = reply.step(&agent, Event::Response(response), 7);
    assert!(dispatched(&actions).is_empty());
    assert!(!actions.iter().any(|a| matches!(a, Action::CheckPermissions | Action::RefreshTools)));
    assert_eq!(reply.phase(), Phase::Generating);
    let history = reply.messages();
    assert_eq!(history.len(), 2);
    assert_eq!(history[0], response_with(&[tool_request("a", "shell"), tool_request("b", "edit")]));
    assert_eq!(
        history[1],
        Message {
            role: Role::User,
            created: 7,
            content: vec![
                answer("a", text(CHAT_MODE_TOOL_SKIPPED_RESPONSE)),
                answer("b", text(CHAT_MODE_TOOL_SKIPPED_RESPONSE)),
            ],
        }
    );
    assert_eq!(actions.len(), 5);
    assert_eq!(
        actions[0],
        Action::Emit(AgentEvent::Message(response_with(&[tool_request("a", "shell"), tool_request("b", "edit")])))
    );
    assert_eq!(actions[1], Action::Yield);
    assert_eq!(actions[2], Action::Emit(AgentEvent::Message(reply.messages()[1].clone())));
    assert_eq!(actions[3], Action::Yield);
    assert_eq!(actions[4], Action::CallProvider);
}

#[test]
fn a_response_without_requests_ends_the_loop() {
    let agent = Agent::new();
    let mut reply = auto();
    let actions = reply.step(&agent, Event::Response(Message::assistant(1).with_text("done".to_string())), 2);
    assert_eq!(
        actions,
        vec![
            Action::Emit(AgentEvent::Message(Message::assistant(1).with_text("done".to_string()))),
            Action::Yield,
            Action::Finish,
        ]
    );
    assert_eq!(reply.phase(), Phase::Done);
    assert_eq!(reply.messages().len(), 1);
}

#[test]
fn context_length_exceeded_yields_one_message_and_ends() {
    let agent = Agent::new();
    let mut reply = auto();
    let actions = reply.step(
        &agent,
        Event::ProviderFailed(goose_agent::turn::ProviderError::ContextLengthExceeded("too long".to_string())),
        9,
    );
    assert_eq!(
        actions,
        vec![
            Action::Emit(AgentEvent::Message(Message {
                role: Role::Assistant,
                created: 9,
                content: vec![MessageContent::ContextLengthExceeded(
                    CONTEXT_LENGTH_EXCEEDED_TEXT.to_string()
                )],
            })),
            Action::Finish,
        ]
    );
    assert_eq!(reply.phase(), Phase::Done);
    let later = vec![
        Event::Response(response_with(&[tool_request("a", "shell")])),
        Event::ProviderFailed(goose_agent::turn::ProviderError::Other("x".to_string())),
        Event::MeteringRejected("x".to_string()),
        finished("a", text("x")),
        notification("a", "{}"),
        confirm("a", Permission::AllowOnce),
        Event::ToolResult { id: "a".to_string(), result: text("x") },
        sorted(vec![], vec![], vec![]),
        Event::Abort,
    ];
    for event in later {
        assert_eq!(reply.step(&agent, event, 10), vec![]);
        assert_eq!(reply.phase(), Phase::Done);
    }
    assert_eq!(reply.messages().len(), 1);
}

#[test]
fn another_provider_error_is_reported_with_its_text() {
    let agent = Agent::new();
    let mut reply = auto();
    let actions = reply.step(
        &agent,
        Event::ProviderFailed(goose_agent::turn::ProviderError::Other("rate limit".to_string())),
        3,
    );
    assert_eq!(
        actions,
        vec![
            Action::Emit(AgentEvent::Message(Message::assistant(3).with_text(
                "Ran into this error: rate limit.\n\nPlease retry if you think this is a transient or recoverable error."
                    .to_string()
            ))),
            Action::Finish,
        ]
    );
    assert_eq!(reply.phase(), Phase::Done);
}

#[test]
fn a_rejected_metering_ends_the_loop() {
    let agent = Agent::new();
    let mut reply = auto();
    let actions = reply.step(&agent, Event::MeteringRejected("no funds".to_string()), 3);
    assert_eq!(
        actions,
        vec![
            Action::Emit(AgentEvent::Message(
                Message::assistant(3).with_text("Failed to pay service fee in agent loop: no funds".to_string())
            )),
            Action::Finish,
        ]
    );
    assert_eq!(reply.phase(), Phase::Done);
}

#[test]
fn a_full_turn_answers_each_request_once() {
    let agent = Agent::new();
    let mut reply = auto();
    let requests = [
        tool_request("a", "shell"),
        tool_request("b", "edit"),
        tool_request("c", "rm"),
        tool_request("d", "write"),
        tool_request("e", "fetch"),
    ];
    let actions = reply.step(&agent, Event::Response(response_with(&requests)), 5);
    assert_eq!(actions.last(), Some(&Action::CheckPermissions));
    assert_eq!(reply.phase(), Phase::Judging);
    assert_eq!(reply.remaining_requests(), requests.to_vec());

    let judged = PermissionCheckResult {
        approved: vec![tool_request("a", "shell"), tool_request("e", "fetch")],
        needs_approval: vec![tool_request("b", "edit"), tool_request("d", "write")],
        denied: vec![tool_request("c", "rm")],
    };
    assert!(reply.sorted_by(&judged));
    let actions = reply.step(
        &agent,
        Event::Permissions { sorted: judged, enable_extension_ids: vec![] },
        6,
    );
    assert_eq!(dispatched(&actions), vec!["a".to_string(), "e".to_string()]);
    assert_eq!(reply.phase(), Phase::Approving);
    assert_eq!(reply.tool_response().content, vec![answer("c", text(DECLINED_RESPONSE))]);
    assert_eq!(actions.len(), 4);
    assert_eq!(
        actions[2],
        Action::Emit(AgentEvent::Message(Message::user(6).with_tool_confirmation_request(
            "b".to_string(),
            "edit".to_string(),
            "{}".to_string(),
            Some(CONFIRMATION_PROMPT.to_string()),
        )))
    );
    assert_eq!(actions[3], Action::AwaitConfirmation("b".to_string()));

    // a confirmation for another request is not what the loop waits for
    assert_eq!(reply.step(&agent, confirm("d", Permission::AllowOnce), 7), vec![]);
    // nor is anything from a running call taken before the approvals are through
    assert_eq!(reply.step(&agent, finished("a", text("early")), 7), vec![]);

    let actions = reply.step(&agent, confirm("b", Permission::DenyOnce), 8);
    assert!(dispatched(&actions).is_empty());
    assert_eq!(actions.last(), Some(&Action::AwaitConfirmation("d".to_string())));

    let actions = reply.step(&agent, confirm("d", Permission::AlwaysAllow), 9);
    assert_eq!(
        actions,
        vec![
            Action::Dispatch { id: "d".to_string(), tool_call: ToolCall::new("write".to_string(), "{}".to_string()) },
            Action::RememberAlwaysAllow("write".to_string()),
            Action::Collect,
        ]
    );
    assert_eq!(reply.phase(), Phase::Collecting);
    assert_eq!(reply.in_flight(), vec!["a".to_string(), "e".to_string(), "d".to_string()]);

    // denied and declined requests make no sound
    assert_eq!(reply.step(&agent, notification("c", "{\"n\":1}"), 10), vec![]);
    assert_eq!(reply.step(&agent, notification("b", "{\"n\":1}"), 10), vec![]);
    assert_eq!(reply.step(&agent, finished("c", text("late")), 10), vec![]);
    assert_eq!(reply.step(&agent, finished("zzz", text("late")), 10), vec![]);

    assert_eq!(
        reply.step(&agent, notification("e", "{\"n\":1}"), 10),
        vec![Action::Emit(AgentEvent::McpNotification((
            "e".to_string(),
            JsonRpcMessage { text: "{\"n\":1}".to_string() }
        )))]
    );
    assert_eq!(reply.step(&agent, finished("e", text("fetched")), 11), vec![]);
    // once a call has ended, nothing more of it is handed out
    assert_eq!(reply.step(&agent, notification("e", "{\"n\":2}"), 11), vec![]);
    assert_eq!(reply.step(&agent, finished("e", text("again")), 11), vec![]);
    assert_eq!(reply.step(&agent, finished("a", Err(ToolError::NotFound("shell".to_string()))), 12), vec![]);
    let actions = reply.step(&agent, finished("d", text("written")), 13);

    let expected = Message {
        role: Role::User,
        created: 5,
        content: vec![
            answer("c", text(DECLINED_RESPONSE)),
            answer("b", text(DECLINED_RESPONSE)),
            answer("e", text("fetched")),
            answer("a", Err(ToolError::NotFound("shell".to_string()))),
            answer("d", text("written")),
        ],
    };
    assert_eq!(
        actions,
        vec![
            Action::RefreshTools,
            Action::Emit(AgentEvent::Message(expected.clone())),
            Action::Yield,
            Action::CallProvider,
        ]
    );
    assert_eq!(reply.phase(), Phase::Generating);
    let history = reply.messages();
    assert_eq!(history.len(), 3);
    assert_eq!(history[1], response_with(&requests));
    assert_eq!(history[2], expected);
    let mut answered = response_ids(&history[2]);
    answered.sort();
    assert_eq!(answered, vec!["a", "b", "c", "d", "e"]);
}

#[test]
fn denied_requests_never_reach_the_dispatcher() {
    let agent = Agent::new();
    let mut reply = auto();
    let requests = [tool_request("a", "shell"), tool_request("b", "rm")];
    reply.step(&agent, Event::Response(response_with(&requests)), 1);
    let actions = reply.step(&agent, sorted(vec![], vec![], requests.to_vec()), 2);
    assert!(dispatched(&actions).is_empty());
    assert!(!actions.iter().any(|a| matches!(a, Action::Emit(AgentEvent::McpNotification(_)))));
    // nothing was dispatched, so the turn ends at once
    assert_eq!(reply.phase(), Phase::Generating);
    assert_eq!(
        reply.messages()[2].content,
        vec![answer("a", text(DECLINED_RESPONSE)), answer("b", text(DECLINED_RESPONSE))]
    );
    assert_eq!(reply.step(&agent, notification("a", "{}"), 3), vec![]);
}

#[test]
fn a_failed_install_suppresses_the_refresh() {
    for (result, refreshed) in [(text("installed"), true), (Err(ToolError::ExecutionError("no".to_string())), false)] {
        let agent = Agent::new();
        let mut reply = auto();
        let requests = [tool_request("a", "platform__manage_extensions"), tool_request("b", "shell")];
        reply.step(&agent, Event::Response(response_with(&requests)), 1);
        reply.step(
            &agent,
            Event::Permissions {
                sorted: PermissionCheckResult {
                    approved: vec![tool_request("b", "shell")],
                    needs_approval: vec![tool_request("a", "platform__manage_extensions")],
                    denied: vec![],
                },
                enable_extension_ids: vec!["a".to_string()],
            },
            2,
        );
        reply.step(&agent, confirm("a", Permission::AllowOnce), 3);
        reply.step(&agent, finished("a", result), 4);
        let actions = reply.step(&agent, finished("b", Err(ToolError::ExecutionError("other".to_string()))), 5);
        assert_eq!(actions.contains(&Action::RefreshTools), refreshed);
        assert_eq!(actions.last(), Some(&Action::CallProvider));
    }
}

#[test]
fn an_approved_request_that_did_not_parse_is_answered_with_its_error() {
    let agent = Agent::new();
    let mut reply = auto();
    let requests = [broken_request("a"), broken_request("b"), tool_request("c", "shell")];
    reply.step(&agent, Event::Response(response_with(&requests)), 1);
    let actions = reply.step(
        &agent,
        sorted(vec![broken_request("a"), tool_request("c", "shell")], vec![broken_request("b")], vec![]),
        2,
    );
    assert_eq!(dispatched(&actions), vec!["c".to_string()]);
    assert_eq!(actions.last(), Some(&Action::Collect));
    assert_eq!(
        reply.tool_response().content,
        vec![
            answer("a", Err(ToolError::InvalidParameters("bad json".to_string()))),
            answer("b", Err(ToolError::InvalidParameters("bad json".to_string()))),
        ]
    );
    reply.step(&agent, finished("c", text("ok")), 3);
    assert_eq!(response_ids(&reply.messages()[2]), vec!["a", "b", "c"]);
}

#[test]
fn frontend_requests_wait_for_the_frontend() {
    let mut agent = Agent::new();
    agent.add_extension(ExtensionConfig::Frontend {
        name: "ui".to_string(),
        tools: vec![Tool::new("ui__pick", "", "{}")],
        instructions: None,
        bundled: None,
    });
    let mut reply = auto();
    let requests = [tool_request("a", "shell"), tool_request("f", "ui__pick")];
    let actions = reply.step(&agent, Event::Response(response_with(&requests)), 1);
    // the frontend's request is filtered out of what is shown
    assert_eq!(
        actions[0],
        Action::Emit(AgentEvent::Message(response_with(&[tool_request("a", "shell")])))
    );
    assert_eq!(actions[1], Action::Yield);
    assert_eq!(
        actions[2],
        Action::Emit(AgentEvent::Message(Message::assistant(1).with_frontend_tool_request(
            "f".to_string(),
            Ok(ToolCall::new("ui__pick".to_string(), "{}".to_string())),
        )))
    );
    assert_eq!(actions[3], Action::AwaitToolResult("f".to_string()));
    assert_eq!(actions.len(), 4);
    assert_eq!(reply.phase(), Phase::Frontend);
    assert_eq!(reply.step(&agent, Event::ToolResult { id: "a".to_string(), result: text("x") }, 2), vec![]);
    let actions = reply.step(&agent, Event::ToolResult { id: "f".to_string(), result: text("red") }, 2);
    assert_eq!(actions, vec![Action::CheckPermissions]);
    assert_eq!(reply.remaining_requests(), vec![tool_request("a", "shell")]);
    assert_eq!(reply.tool_response().content, vec![answer("f", text("red"))]);
}

#[test]
fn calls_are_recorded_where_a_selector_is_configured() {
    let mut agent = Agent::new();
    agent.add_extension(ExtensionConfig::Frontend {
        name: "ui".to_string(),
        tools: vec![Tool::new("ui__pick", "", "{}")],
        instructions: None,
        bundled: None,
    });
    let requests = [tool_request("a", "shell"), broken_request("x"), tool_request("f", "ui__pick")];
    let mut reply = auto();
    let actions = reply.step(&agent, Event::Response(response_with(&requests)), 1);
    assert!(!actions.iter().any(|a| matches!(a, Action::RecordToolCall(_))));
    assert_eq!(
        agent.update_router_tool_selector(Some(RouterToolSelectionStrategy::Llm), SelectorSetup::Ready),
        Ok(())
    );
    let mut reply = auto();
    let actions = reply.step(&agent, Event::Response(response_with(&requests)), 1);
    assert_eq!(actions[0], Action::RecordToolCall("ui__pick".to_string()));
    assert_eq!(actions[1], Action::RecordToolCall("shell".to_string()));
    assert!(matches!(actions[2], Action::Emit(_)));
}

#[test]
fn the_judge_has_to_sort_every_request() {
    let agent = Agent::new();
    let mut reply = auto();
    let requests = [tool_request("a", "shell"), tool_request("b", "rm")];
    reply.step(&agent, Event::Response(response_with(&requests)), 1);
    let judged = |approved: &[&str], needs: &[&str], denied: &[&str]| PermissionCheckResult {
        approved: approved.iter().map(|i| tool_request(i, "t")).collect(),
        needs_approval: needs.iter().map(|i| tool_request(i, "t")).collect(),
        denied: denied.iter().map(|i| tool_request(i, "t")).collect(),
    };
    assert!(reply.sorted_by(&judged(&["a"], &[], &["b"])));
    assert!(reply.sorted_by(&judged(&[], &["b", "a"], &[])));
    assert!(!reply.sorted_by(&judged(&["a"], &[], &[])));
    assert!(!reply.sorted_by(&judged(&["a"], &["a"], &["b"])));
    assert!(!reply.sorted_by(&judged(&["a", "b"], &[], &["c"])));
    assert!(!reply.sorted_by(&judged(&[], &[], &[])));
    assert!(same_ids(&vec![], &vec![]));
    assert!(same_ids(&vec!["x".to_string(), "y".to_string(), "x".to_string()], &vec!["y".to_string(), "x".to_string(), "x".to_string()]));
    assert!(!same_ids(&vec!["x".to_string(), "y".to_string()], &vec!["y".to_string(), "y".to_string()]));
}

#[test]
fn abort_ends_the_loop_in_any_phase() {
    let agent = Agent::new();
    let mut reply = auto();
    reply.step(&agent, Event::Response(response_with(&[tool_request("a", "shell")])), 1);
    assert_eq!(reply.phase(), Phase::Judging);
    assert_eq!(reply.step(&agent, Event::Abort, 2), vec![]);
    assert_eq!(reply.phase(), Phase::Done);
}

#[test]
fn a_second_turn_starts_from_an_empty_tool_response() {
    let agent = Agent::new();
    let mut reply = auto();
    reply.step(&agent, Event::Response(response_with(&[tool_request("a", "shell")])), 1);
    reply.step(&agent, sorted(vec![tool_request("a", "shell")], vec![], vec![]), 2);
    reply.step(&agent, finished("a", text("one")), 3);
    assert_eq!(reply.phase(), Phase::Generating);
    reply.step(&agent, Event::Response(response_with(&[tool_request("a", "shell")])), 4);
    reply.step(&agent, sorted(vec![tool_request("a", "shell")], vec![], vec![]), 5);
    reply.step(&agent, finished("a", text("two")), 6);
    let history = reply.messages();
    assert_eq!(history.len(), 5);
    assert_eq!(history[2].content, vec![answer("a", text("one"))]);
    assert_eq!(history[4].content, vec![answer("a", text("two"))]);
    assert_eq!(history[4].created, 4);
}

#[test]
fn reply_runs_in_auto_mode_by_default() {
    let agent = Agent::new();
    assert_eq!(agent.reply(vec![], None).mode(), "auto");
    assert_eq!(agent.reply(vec![], Some("smart_approve".to_string())).mode(), "smart_approve");
    let reply = agent.reply(vec![Message::user(1)], Some("chat".to_string()));
    assert_eq!(reply.phase(), Phase::Generating);
    assert_eq!(reply.messages(), vec![Message::user(1)]);
}

#[test]
fn collecting_takes_the_merged_items_in_order() {
    let agent = Agent::new();
    let mut reply = auto();
    let requests = [tool_request("a", "shell"), tool_request("b", "edit")];
    reply.step(&agent, Event::Response(response_with(&requests)), 1);
    let actions = reply.step(&agent, sorted(requests.to_vec(), vec![], vec![]), 2);
    assert_eq!(actions.last(), Some(&Action::Collect));
    let note = |id: &str, text: &str| {
        (id.to_string(), ToolStreamItem::Message(JsonRpcMessage { text: text.to_string() }))
    };
    let done = |id: &str, s: &str| (id.to_string(), ToolStreamItem::Result(text(s)));
    let emitted = |id: &str, text: &str| {
        Action::Emit(AgentEvent::McpNotification((id.to_string(), JsonRpcMessage { text: text.to_string() })))
    };
    let actions = reply.collect(
        &agent,
        vec![
            note("a", "a1"),
            note("b", "b1"),
            note("a", "a2"),
            done("a", "A"),
            note("a", "a3"),
            note("c", "c1"),
            note("b", "b2"),
        ],
        3,
    );
    assert_eq!(actions, vec![emitted("a", "a1"), emitted("b", "b1"), emitted("a", "a2"), emitted("b", "b2")]);
    assert_eq!(reply.phase(), Phase::Collecting);
    assert_eq!(reply.in_flight(), vec!["b".to_string()]);
    assert_eq!(reply.collect(&agent, vec![], 4), vec![]);
    let actions = reply.collect(&agent, vec![note("b", "b3"), done("b", "B"), note("b", "b4"), done("a", "again")], 5);
    assert_eq!(actions.len(), 5);
    assert_eq!(actions[0], emitted("b", "b3"));
    assert_eq!(actions[1], Action::RefreshTools);
    assert_eq!(actions[3], Action::Yield);
    assert_eq!(actions[4], Action::CallProvider);
    assert_eq!(reply.phase(), Phase::Generating);
    assert_eq!(reply.messages()[2].content, vec![answer("a", text("A")), answer("b", text("B"))]);
}
