use goose_agent::agent::{Agent, FrontendTool, RouterToolSelectionStrategy, DEFAULT_FRONTEND_INSTRUCTIONS};
use goose_agent::catalog::{
    find_tool, list_resources_tool, llm_search_tool, manage_extensions_tool, read_resource_tool,
    same_text, search_available_extensions_tool, vector_search_tool, Tool, RECENT_TOOL_CALLS,
};
use goose_agent::channel::{Channel, CHANNEL_CAPACITY};
use goose_agent::extension::ExtensionConfig;
use goose_agent::permission::{Permission, PermissionConfirmation, PrincipalType};
use goose_agent::prompts::{prompt_outcome, tools_info, ToolInfo};
use goose_agent::setup::{parse_strategy, strategy_from_lowercase, ExtensionStep, SelectorSetup};
use goose_agent::tool::{Content, ToolError};

fn tool(name: &str) -> Tool {
    Tool::new(name, "does something", "{\"type\":\"object\",\"properties\":{}}")
}

fn names(tools: &[Tool]) -> Vec<String> {
    tools.iter().map(|t| t.name.clone()).collect()
}

fn allow(permission: Permission) -> PermissionConfirmation {
    PermissionConfirmation { principal_type: PrincipalType::Tool, permission }
}

#[test]
fn a_new_agent_is_empty() {
    let agent = Agent::new();
    assert_eq!(agent.get_tool_stats(), None);
    assert!(!agent.has_router_tool_selector());
    assert_eq!(agent.router_tool_selection_strategy(), None);
    assert_eq!(agent.get_frontend_instructions(), None);
    assert!(agent.get_frontend_tools().is_empty());
    assert!(!agent.is_frontend_tool("anything"));
    assert_eq!(agent.get_frontend_tool("anything"), None);
    let mut other = Agent::default();
    assert_eq!(other.get_tool_stats(), None);
    assert_eq!(other.next_confirmation("a"), None);
    assert_eq!(other.next_tool_result("a"), None);
    assert!(other.get_frontend_tools().is_empty());
}

#[test]
fn a_frontend_extension_registers_its_tools() {
    let mut agent = Agent::new();
    let step = agent.add_extension(ExtensionConfig::Frontend {
        name: "ui".to_string(),
        tools: vec![tool("pick"), tool("show"), Tool::new("pick", "second", "{}")],
        instructions: None,
        bundled: Some(true),
    });
    assert_eq!(step, ExtensionStep::Done(Ok(())));
    assert!(agent.is_frontend_tool("pick"));
    assert!(agent.is_frontend_tool("show"));
    assert!(!agent.is_frontend_tool("hide"));
    assert_eq!(
        agent.get_frontend_tool("pick"),
        Some(FrontendTool { name: "pick".to_string(), tool: Tool::new("pick", "second", "{}") })
    );
    assert_eq!(names(&agent.get_frontend_tools().into_iter().map(|t| t.tool).collect::<Vec<_>>()), vec!["pick", "show"]);
    assert_eq!(agent.get_frontend_instructions(), Some(DEFAULT_FRONTEND_INSTRUCTIONS.to_string()));
    let step = agent.add_extension(ExtensionConfig::Frontend {
        name: "ui2".to_string(),
        tools: vec![],
        instructions: Some("ask first".to_string()),
        bundled: None,
    });
    assert_eq!(step, ExtensionStep::Done(Ok(())));
    assert_eq!(agent.get_frontend_instructions(), Some("ask first".to_string()));
    assert_eq!(agent.get_frontend_tools().len(), 2);
}

#[test]
fn a_frontend_extension_is_indexed_where_a_router_is_active() {
    let mut agent = Agent::new();
    agent.update_router_tool_selector(Some(RouterToolSelectionStrategy::Vector), SelectorSetup::Ready).unwrap();
    let step = agent.add_extension(ExtensionConfig::Frontend {
        name: "ui".to_string(),
        tools: vec![tool("pick")],
        instructions: None,
        bundled: None,
    });
    assert_eq!(
        step,
        ExtensionStep::UpdateIndex { extension_name: "ui".to_string(), action: "add".to_string() }
    );
}

#[test]
fn prefixed_tools_end_with_the_frontend_tools() {
    let mut agent = Agent::new();
    assert_eq!(names(&agent.get_prefixed_tools(vec![tool("dev__shell")])), vec!["dev__shell"]);
    agent.add_extension(ExtensionConfig::Frontend {
        name: "ui".to_string(),
        tools: vec![tool("pick"), tool("show")],
        instructions: None,
        bundled: None,
    });
    assert_eq!(
        names(&agent.get_prefixed_tools(vec![tool("dev__shell"), tool("dev__edit")])),
        vec!["dev__shell", "dev__edit", "pick", "show"]
    );
    assert_eq!(names(&agent.get_prefixed_tools(vec![])), vec!["pick", "show"]);
}

#[test]
fn list_tools_adds_the_platform_tools() {
    let agent = Agent::new();
    let all = agent.list_tools(None, vec![tool("dev__shell")], true);
    assert_eq!(
        all,
        vec![
            tool("dev__shell"),
            search_available_extensions_tool(),
            manage_extensions_tool(),
            read_resource_tool(),
            list_resources_tool(),
        ]
    );
    assert_eq!(
        names(&agent.list_tools(None, vec![tool("dev__shell")], false)),
        vec!["dev__shell", "platform__search_available_extensions", "platform__manage_extensions"]
    );
    assert_eq!(
        names(&agent.list_tools(Some("platform".to_string()), vec![], true)),
        vec![
            "platform__search_available_extensions",
            "platform__manage_extensions",
            "platform__read_resource",
            "platform__list_resources"
        ]
    );
    assert_eq!(names(&agent.list_tools(Some("dev".to_string()), vec![tool("dev__shell")], true)), vec!["dev__shell"]);
    assert_eq!(names(&agent.list_tools(Some("Platform".to_string()), vec![], true)), Vec::<String>::new());
}

#[test]
fn the_router_catalog_holds_the_search_tool_and_recent_calls() {
    let agent = Agent::new();
    let known = vec![tool("dev__shell"), tool("dev__edit"), Tool::new("dev__shell", "shadowed", "{}")];
    let recent = vec![
        "dev__edit".to_string(),
        "gone__tool".to_string(),
        "dev__shell".to_string(),
        "dev__edit".to_string(),
        "router__vector_search".to_string(),
    ];
    let listed = agent.list_tools_for_router(
        Some(RouterToolSelectionStrategy::Vector),
        Some(recent.clone()),
        Some(known.clone()),
    );
    assert_eq!(listed, vec![vector_search_tool(), tool("dev__edit"), tool("dev__shell")]);
    let listed = agent.list_tools_for_router(Some(RouterToolSelectionStrategy::Llm), None, Some(known.clone()));
    assert_eq!(listed, vec![llm_search_tool()]);
    let listed = agent.list_tools_for_router(Some(RouterToolSelectionStrategy::Llm), Some(recent.clone()), None);
    assert_eq!(listed, vec![llm_search_tool()]);
    let listed = agent.list_tools_for_router(None, Some(recent), Some(known));
    assert_eq!(names(&listed), vec!["dev__edit", "dev__shell"]);
    assert_eq!(agent.list_tools_for_router(None, None, None), vec![]);
    assert_eq!(RECENT_TOOL_CALLS, 20);
}

#[test]
fn an_extension_tool_named_like_the_search_tool_is_not_listed_twice() {
    let agent = Agent::new();
    let known = vec![Tool::new("router__vector_search", "an extension's", "{}")];
    let listed = agent.list_tools_for_router(
        Some(RouterToolSelectionStrategy::Vector),
        Some(vec!["router__vector_search".to_string()]),
        Some(known),
    );
    assert_eq!(listed, vec![vector_search_tool()]);
}

#[test]
fn find_tool_gives_the_first_of_a_name() {
    let tools = vec![tool("a"), tool("b"), tool("a")];
    assert_eq!(find_tool(&tools, "a"), Some(0));
    assert_eq!(find_tool(&tools, "b"), Some(1));
    assert_eq!(find_tool(&tools, "c"), None);
    assert_eq!(find_tool(&vec![], "a"), None);
    assert!(same_text("", ""));
    assert!(!same_text("a", "A"));
}

#[test]
fn the_strategy_is_read_whatever_its_case() {
    assert_eq!(parse_strategy("vector"), Some(RouterToolSelectionStrategy::Vector));
    assert_eq!(parse_strategy("VECTOR"), Some(RouterToolSelectionStrategy::Vector));
    assert_eq!(parse_strategy("Llm"), Some(RouterToolSelectionStrategy::Llm));
    assert_eq!(parse_strategy("default"), None);
    assert_eq!(parse_strategy(""), None);
    assert_eq!(parse_strategy(" vector"), None);
    assert_eq!(strategy_from_lowercase("VECTOR"), None);
    assert_eq!(strategy_from_lowercase("llm"), Some(RouterToolSelectionStrategy::Llm));
}

#[test]
fn the_selector_is_set_only_after_a_good_setup() {
    let mut agent = Agent::new();
    assert_eq!(agent.update_router_tool_selector(None, SelectorSetup::Ready), Ok(()));
    assert_eq!(agent.router_tool_selection_strategy(), None);
    assert_eq!(
        agent.update_router_tool_selector(
            Some(RouterToolSelectionStrategy::Vector),
            SelectorSetup::CreateFailed("no db".to_string())
        ),
        Err("Failed to create tool selector: no db".to_string())
    );
    assert_eq!(agent.router_tool_selection_strategy(), None);
    assert_eq!(
        agent.update_router_tool_selector(
            Some(RouterToolSelectionStrategy::Vector),
            SelectorSetup::IndexFailed("index".to_string())
        ),
        Err("index".to_string())
    );
    assert!(!agent.has_router_tool_selector());
    assert_eq!(agent.update_router_tool_selector(Some(RouterToolSelectionStrategy::Llm), SelectorSetup::Ready), Ok(()));
    assert_eq!(agent.router_tool_selection_strategy(), Some(RouterToolSelectionStrategy::Llm));
    assert_eq!(
        agent.update_router_tool_selector(
            Some(RouterToolSelectionStrategy::Vector),
            SelectorSetup::CreateFailed("x".to_string())
        ),
        Err("Failed to create tool selector: x".to_string())
    );
    assert_eq!(agent.router_tool_selection_strategy(), Some(RouterToolSelectionStrategy::Llm));
}

#[test]
fn confirmations_are_matched_by_id() {
    let mut agent = Agent::new();
    assert_eq!(agent.next_confirmation("a"), None);
    assert_eq!(agent.handle_confirmation("b".to_string(), allow(Permission::DenyOnce)), Ok(()));
    assert_eq!(agent.handle_confirmation("a".to_string(), allow(Permission::AllowOnce)), Ok(()));
    assert_eq!(agent.handle_confirmation("a".to_string(), allow(Permission::Cancel)), Ok(()));
    assert_eq!(agent.next_confirmation("c"), None);
    assert_eq!(agent.next_confirmation("a"), Some(allow(Permission::AllowOnce)));
    assert_eq!(agent.next_confirmation("b"), Some(allow(Permission::DenyOnce)));
    assert_eq!(agent.next_confirmation("b"), None);
    assert_eq!(agent.next_confirmation("a"), Some(allow(Permission::Cancel)));
    assert_eq!(agent.next_confirmation("a"), None);
    assert!(allow(Permission::AllowOnce).is_allowed());
    assert!(allow(Permission::AlwaysAllow).is_allowed());
    assert!(!allow(Permission::Cancel).is_allowed());
    assert!(!allow(Permission::DenyOnce).is_allowed());
}

#[test]
fn a_full_channel_turns_the_sender_away() {
    let mut agent = Agent::new();
    for i in 0..32 {
        assert_eq!(agent.handle_confirmation(format!("r{}", i), allow(Permission::AllowOnce)), Ok(()));
    }
    assert_eq!(
        agent.handle_confirmation("r32".to_string(), allow(Permission::DenyOnce)),
        Err(("r32".to_string(), allow(Permission::DenyOnce)))
    );
    assert_eq!(agent.next_confirmation("r32"), None);
    assert_eq!(agent.next_confirmation("r7"), Some(allow(Permission::AllowOnce)));
    assert_eq!(agent.handle_confirmation("r32".to_string(), allow(Permission::DenyOnce)), Ok(()));
    assert_eq!(agent.next_confirmation("r32"), Some(allow(Permission::DenyOnce)));
    assert_eq!(CHANNEL_CAPACITY, 32);
}

#[test]
fn tool_results_are_matched_by_id() {
    let mut agent = Agent::new();
    let ok = |s: &str| -> Result<Vec<Content>, ToolError> { Ok(vec![Content::Text(s.to_string())]) };
    assert_eq!(agent.handle_tool_result("x".to_string(), ok("1")), Ok(()));
    assert_eq!(agent.handle_tool_result("y".to_string(), Err(ToolError::NotFound("y".to_string()))), Ok(()));
    assert_eq!(agent.next_tool_result("y"), Some(Err(ToolError::NotFound("y".to_string()))));
    assert_eq!(agent.next_tool_result("y"), None);
    assert_eq!(agent.next_tool_result("x"), Some(ok("1")));
    for i in 0..32 {
        assert_eq!(agent.handle_tool_result(format!("r{}", i), ok("r")), Ok(()));
    }
    assert_eq!(agent.handle_tool_result("late".to_string(), ok("r")), Err(("late".to_string(), ok("r"))));
}

#[test]
fn a_channel_keeps_the_order_of_the_others() {
    let mut channel: Channel<u8> = Channel::new(3);
    assert!(channel.has_room());
    assert_eq!(channel.send("a".to_string(), 1), Ok(()));
    assert_eq!(channel.send("b".to_string(), 2), Ok(()));
    assert_eq!(channel.send("a".to_string(), 3), Ok(()));
    assert!(!channel.has_room());
    assert_eq!(channel.send("c".to_string(), 4), Err(("c".to_string(), 4)));
    assert_eq!(channel.len(), 3);
    assert_eq!(channel.take("a"), Some(1));
    assert_eq!(channel.take("a"), Some(3));
    assert_eq!(channel.take("a"), None);
    assert_eq!(channel.take("b"), Some(2));
    assert_eq!(channel.len(), 0);
    let mut closed: Channel<u8> = Channel::new(0);
    assert_eq!(closed.send("a".to_string(), 1), Err(("a".to_string(), 1)));
}

#[test]
fn the_prompt_is_asked_of_the_first_extension_that_offers_it() {
    let agent = Agent::new();
    let listed = || {
        Ok(vec![
            ("dev".to_string(), vec!["review".to_string(), "plan".to_string()]),
            ("docs".to_string(), vec![]),
            ("ops".to_string(), vec!["deploy".to_string(), "plan".to_string()]),
        ])
    };
    assert_eq!(agent.get_prompt("plan", listed()), Ok("dev".to_string()));
    assert_eq!(agent.get_prompt("deploy", listed()), Ok("ops".to_string()));
    assert_eq!(agent.get_prompt("nope", listed()), Err("Prompt 'nope' not found".to_string()));
    assert_eq!(agent.get_prompt("plan", Ok(vec![])), Err("Prompt 'plan' not found".to_string()));
    assert_eq!(
        agent.get_prompt("plan", Err("offline".to_string())),
        Err("Failed to list prompts: offline".to_string())
    );
    assert_eq!(prompt_outcome(Ok(5)), Ok(5));
    assert_eq!(prompt_outcome::<u8>(Err("bad args".to_string())), Err("Failed to get prompt: bad args".to_string()));
}

#[test]
fn tools_are_described_with_their_parameters() {
    let tools = vec![
        Tool::new(
            "dev__shell",
            "runs a command",
            "{\"type\":\"object\",\"properties\":{\"timeout\":{\"type\":\"integer\"},\"command\":{\"type\":\"string\"}}}",
        ),
        Tool::new("dev__now", "tells the time", "{\"type\":\"object\"}"),
        Tool::new("dev__odd", "has no schema", "not json"),
        Tool::new("dev__flat", "", "{\"properties\":[1,2]}"),
    ];
    assert_eq!(
        tools_info(&tools),
        vec![
            ToolInfo::new("dev__shell", "runs a command", vec!["command".to_string(), "timeout".to_string()]),
            ToolInfo::new("dev__now", "tells the time", vec![]),
            ToolInfo::new("dev__odd", "has no schema", vec![]),
            ToolInfo::new("dev__flat", "", vec![]),
        ]
    );
    assert_eq!(tools_info(&vec![]), vec![]);
}

#[test]
fn the_router_catalog_takes_twenty_recent_calls_at_most() {
    let agent = Agent::new();
    let known: Vec<Tool> = (0..30).map(|i| tool(&format!("dev__t{}", i))).collect();
    let recent: Vec<String> = (0..25).map(|i| format!("dev__t{}", i)).collect();
    let listed = agent.list_tools_for_router(
        Some(RouterToolSelectionStrategy::Vector),
        Some(recent.clone()),
        Some(known.clone()),
    );
    assert_eq!(listed.len(), 21);
    assert_eq!(listed[0], vector_search_tool());
    assert_eq!(names(&listed[1..]), recent[..20].to_vec());
    let listed = agent.list_tools_for_router(None, Some(recent[..20].to_vec()), Some(known));
    assert_eq!(names(&listed), recent[..20].to_vec());
}
