use goose_agent::extension::{join3, ExtensionConfig};
use goose_agent::ids::{contains_id, remove_first};
use goose_agent::message::{
    Message, MessageContent, Role, ToolConfirmationRequest, ToolRequest, ToolResponse,
};
use goose_agent::permission::PermissionCheckResult;
use goose_agent::reply::{answer_each, clone_ids, clone_messages, clone_requests, count_id};
use goose_agent::tool::{
    clone_contents, clone_result, make_text_result, Content, ToolCall, ToolError,
};

fn ids(list: &[&str]) -> Vec<String> {
    list.iter().map(|s| s.to_string()).collect()
}

#[test]
fn errors_carry_their_message() {
    assert_eq!(ToolError::InvalidParameters("a".to_string()).message(), "a");
    assert_eq!(ToolError::ExecutionError("b".to_string()).message(), "b");
    assert_eq!(ToolError::SchemaError("c".to_string()).message(), "c");
    assert_eq!(ToolError::NotFound("d".to_string()).message(), "d");
    assert_eq!(ToolError::NotFound("d".to_string()).clone(), ToolError::NotFound("d".to_string()));
}

#[test]
fn content_and_results_are_copied_whole() {
    let contents = vec![
        Content::text("t"),
        Content::Image { data: "AAAA".to_string(), mime_type: "image/png".to_string() },
        Content::Resource { uri: "file:///x".to_string(), text: "x".to_string() },
    ];
    assert_eq!(contents[0], Content::Text("t".to_string()));
    assert_eq!(clone_contents(&contents), contents);
    assert_eq!(clone_contents(&vec![]), vec![]);
    assert_eq!(clone_result(&Ok(clone_contents(&contents))), Ok(contents));
    let failed = Err(ToolError::SchemaError("s".to_string()));
    assert_eq!(clone_result(&failed), failed);
    assert_eq!(make_text_result("hello"), Ok(vec![Content::Text("hello".to_string())]));
}

#[test]
fn messages_grow_at_their_end() {
    let call = ToolCall::new("shell".to_string(), "{\"c\":1}".to_string());
    let message = Message::assistant(5)
        .with_text("one".to_string())
        .with_tool_request("r1".to_string(), Ok(call.clone()))
        .with_tool_response("r1".to_string(), make_text_result("done"))
        .with_tool_confirmation_request("r2".to_string(), "rm".to_string(), "{}".to_string(), None)
        .with_frontend_tool_request("r3".to_string(), Err(ToolError::NotFound("x".to_string())))
        .with_context_length_exceeded("too long".to_string())
        .with_content(MessageContent::Text("last".to_string()));
    assert_eq!(
        message,
        Message {
            role: Role::Assistant,
            created: 5,
            content: vec![
                MessageContent::Text("one".to_string()),
                MessageContent::ToolRequest(ToolRequest { id: "r1".to_string(), tool_call: Ok(call) }),
                MessageContent::ToolResponse(ToolResponse {
                    id: "r1".to_string(),
                    tool_result: Ok(vec![Content::Text("done".to_string())]),
                }),
                MessageContent::ToolConfirmationRequest(ToolConfirmationRequest {
                    id: "r2".to_string(),
                    tool_name: "rm".to_string(),
                    arguments: "{}".to_string(),
                    prompt: None,
                }),
                MessageContent::FrontendToolRequest(ToolRequest {
                    id: "r3".to_string(),
                    tool_call: Err(ToolError::NotFound("x".to_string())),
                }),
                MessageContent::ContextLengthExceeded("too long".to_string()),
                MessageContent::Text("last".to_string()),
            ],
        }
    );
    assert_eq!(message.clone(), message);
    assert_eq!(clone_messages(&vec![message.clone(), Message::user(1)]), vec![message, Message::user(1)]);
    assert_eq!(Message::user(9), Message { role: Role::User, created: 9, content: vec![] });
}

#[test]
fn a_message_takes_answers_in_place() {
    let mut message = Message::user(1);
    message.add_tool_response("a".to_string(), Err(ToolError::ExecutionError("e".to_string())));
    let requests = vec![
        ToolRequest { id: "b".to_string(), tool_call: Err(ToolError::NotFound("n".to_string())) },
        ToolRequest { id: "c".to_string(), tool_call: Ok(ToolCall::new("t".to_string(), "{}".to_string())) },
    ];
    answer_each(&mut message, &requests, "skipped");
    answer_each(&mut message, &vec![], "never");
    let answered: Vec<(String, Result<Vec<Content>, ToolError>)> = message
        .content
        .iter()
        .map(|c| match c {
            MessageContent::ToolResponse(r) => (r.id.clone(), clone_result(&r.tool_result)),
            other => panic!("unexpected {:?}", other),
        })
        .collect();
    assert_eq!(
        answered,
        vec![
            ("a".to_string(), Err(ToolError::ExecutionError("e".to_string()))),
            ("b".to_string(), Ok(vec![Content::Text("skipped".to_string())])),
            ("c".to_string(), Ok(vec![Content::Text("skipped".to_string())])),
        ]
    );
    assert_eq!(clone_requests(&requests), requests);
}

#[test]
fn ids_are_counted_and_taken_out() {
    let list = ids(&["a", "b", "a", "c", "a"]);
    assert_eq!(count_id(&list, "a"), 3);
    assert_eq!(count_id(&list, "b"), 1);
    assert_eq!(count_id(&list, "z"), 0);
    assert_eq!(count_id(&vec![], "a"), 0);
    assert!(contains_id(&list, "c"));
    assert!(!contains_id(&list, "z"));
    assert!(!contains_id(&vec![], "a"));
    let mut list = list;
    remove_first(&mut list, "a");
    assert_eq!(list, ids(&["b", "a", "c", "a"]));
    remove_first(&mut list, "a");
    assert_eq!(list, ids(&["b", "c", "a"]));
    remove_first(&mut list, "z");
    assert_eq!(list, ids(&["b", "c", "a"]));
    remove_first(&mut list, "a");
    remove_first(&mut list, "b");
    remove_first(&mut list, "c");
    assert!(list.is_empty());
    assert_eq!(clone_ids(&ids(&["x", "y"])), ids(&["x", "y"]));
}

#[test]
fn the_judge_sorts_by_id() {
    let request = |id: &str| ToolRequest {
        id: id.to_string(),
        tool_call: Ok(ToolCall::new("t".to_string(), "{}".to_string())),
    };
    let sorted = PermissionCheckResult {
        approved: vec![request("a")],
        needs_approval: vec![request("c")],
        denied: vec![request("b")],
    };
    assert!(sorted.sorts_requests(&vec![request("c"), request("b"), request("a")]));
    assert!(!sorted.sorts_requests(&vec![request("c"), request("b")]));
    assert!(!sorted.sorts_requests(&vec![request("c"), request("b"), request("a"), request("a")]));
    let nothing = PermissionCheckResult { approved: vec![], needs_approval: vec![], denied: vec![] };
    assert!(nothing.sorts_requests(&vec![]));
    assert!(!nothing.sorts_requests(&vec![request("a")]));
}

#[test]
fn texts_are_joined() {
    assert_eq!(join3("a", "b", "c"), "abc");
    assert_eq!(join3("", "", ""), "");
    assert_eq!(join3("The extension '", "\u{e9}t\u{e9}", "' is here"), "The extension '\u{e9}t\u{e9}' is here");
    let config = ExtensionConfig::Remote { name: "dev".to_string(), config: "{}".to_string() };
    assert_eq!(config.name(), "dev");
    let frontend = ExtensionConfig::Frontend {
        name: "ui".to_string(),
        tools: vec![],
        instructions: None,
        bundled: None,
    };
    assert_eq!(frontend.name(), "ui");
}
