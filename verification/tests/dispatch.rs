use goose_agent::agent::{Agent, RouterToolSelectionStrategy};
use goose_agent::catalog::{
    is_platform_tool, Tool, PLATFORM_LIST_RESOURCES_TOOL_NAME, PLATFORM_MANAGE_EXTENSIONS_TOOL_NAME,
    PLATFORM_READ_RESOURCE_TOOL_NAME, PLATFORM_SEARCH_AVAILABLE_EXTENSIONS_TOOL_NAME,
    ROUTER_LLM_SEARCH_TOOL_NAME, ROUTER_VECTOR_SEARCH_TOOL_NAME,
};
use goose_agent::dispatch::{
    extension_outcome, or_empty, route, selection_outcome, Dispatch, Route,
};
use goose_agent::extension::{
    ExtensionConfig, ManageAction, ManageEvent, ManageExtensions, ManageStage,
};
use goose_agent::setup::{ExtensionStep, SelectorSetup};
use goose_agent::tool::{Content, ToolCall, ToolError};

fn call(name: &str, arguments: &str) -> ToolCall {
    ToolCall::new(name.to_string(), arguments.to_string())
}

fn frontend(names: &[&str]) -> ExtensionConfig {
    ExtensionConfig::Frontend {
        name: "ui".to_string(),
        tools: names.iter().map(|n| Tool::new(n, "a frontend tool", "{}")).collect(),
        instructions: None,
        bundled: None,
    }
}

fn with_router(agent: &mut Agent) {
    let set = agent.update_router_tool_selector(
        Some(RouterToolSelectionStrategy::Vector),
        SelectorSetup::Ready,
    );
    assert_eq!(set, Ok(()));
}

fn text(s: &str) -> Result<Vec<Content>, ToolError> {
    Ok(vec![Content::Text(s.to_string())])
}

fn failure(s: &str) -> Result<Vec<Content>, ToolError> {
    Err(ToolError::ExecutionError(s.to_string()))
}

#[test]
fn third_dispatch_of_the_same_call_is_refused() {
    let mut agent = Agent::new();
    agent.configure_tool_monitor(Some(2));
    for _ in 0..2 {
        let (id, dispatch) = agent.dispatch_tool_call(call("dev__shell", "{\"c\":1}"), "r".to_string());
        assert_eq!(id, "r");
        assert_eq!(dispatch, Dispatch::Extension(call("dev__shell", "{\"c\":1}")));
    }
    let (id, dispatch) = agent.dispatch_tool_call(call("dev__shell", "{\"c\":1}"), "r3".to_string());
    assert_eq!(id, "r3");
    assert_eq!(
        dispatch,
        Dispatch::Refused(ToolError::ExecutionError(
            "Tool call rejected: exceeded maximum allowed repetitions".to_string()
        ))
    );
    assert_eq!(agent.get_tool_stats(), Some(vec![("dev__shell:{\"c\":1}".to_string(), 3u32)]));
}

#[test]
fn a_refused_platform_call_is_not_routed() {
    let mut agent = Agent::new();
    agent.configure_tool_monitor(Some(0));
    let (_, dispatch) = agent.dispatch_tool_call(
        call(PLATFORM_MANAGE_EXTENSIONS_TOOL_NAME, "{\"action\":\"enable\",\"extension_name\":\"X\"}"),
        "r".to_string(),
    );
    assert!(matches!(dispatch, Dispatch::Refused(_)));
}

#[test]
fn without_a_monitor_nothing_is_counted() {
    let mut agent = Agent::new();
    for _ in 0..10 {
        let (_, dispatch) = agent.dispatch_tool_call(call("dev__shell", "{}"), "r".to_string());
        assert!(matches!(dispatch, Dispatch::Extension(_)));
    }
    assert_eq!(agent.get_tool_stats(), None);
    agent.reset_tool_monitor();
    assert_eq!(agent.get_tool_stats(), None);
}

#[test]
fn reset_tool_monitor_clears_the_counts() {
    let mut agent = Agent::new();
    agent.configure_tool_monitor(Some(1));
    agent.dispatch_tool_call(call("dev__shell", "{}"), "r".to_string());
    agent.reset_tool_monitor();
    assert_eq!(agent.get_tool_stats(), Some(vec![]));
    let (_, dispatch) = agent.dispatch_tool_call(call("dev__shell", "{}"), "r".to_string());
    assert!(matches!(dispatch, Dispatch::Extension(_)));
}

#[test]
fn platform_names_win_over_frontend_tools() {
    let mut agent = Agent::new();
    agent.add_extension(frontend(&[
        PLATFORM_MANAGE_EXTENSIONS_TOOL_NAME,
        PLATFORM_READ_RESOURCE_TOOL_NAME,
        PLATFORM_LIST_RESOURCES_TOOL_NAME,
        PLATFORM_SEARCH_AVAILABLE_EXTENSIONS_TOOL_NAME,
    ]));
    assert!(agent.is_frontend_tool(PLATFORM_READ_RESOURCE_TOOL_NAME));
    let (_, d) = agent.dispatch_tool_call(
        call(PLATFORM_MANAGE_EXTENSIONS_TOOL_NAME, "{\"action\":\"disable\",\"extension_name\":\"X\"}"),
        "1".to_string(),
    );
    assert_eq!(
        d,
        Dispatch::ManageExtensions { action: "disable".to_string(), extension_name: "X".to_string() }
    );
    let (_, d) = agent.dispatch_tool_call(call(PLATFORM_READ_RESOURCE_TOOL_NAME, "{\"uri\":\"u\"}"), "2".to_string());
    assert_eq!(d, Dispatch::ReadResource { arguments: "{\"uri\":\"u\"}".to_string() });
    let (_, d) = agent.dispatch_tool_call(call(PLATFORM_LIST_RESOURCES_TOOL_NAME, "{}"), "3".to_string());
    assert_eq!(d, Dispatch::ListResources { arguments: "{}".to_string() });
    let (_, d) = agent.dispatch_tool_call(call(PLATFORM_SEARCH_AVAILABLE_EXTENSIONS_TOOL_NAME, "{}"), "4".to_string());
    assert_eq!(d, Dispatch::SearchAvailableExtensions);
}

#[test]
fn route_tries_the_handlers_in_order() {
    for frontend in [false, true] {
        for selector in [false, true] {
            assert_eq!(route("platform__manage_extensions", frontend, selector), Route::ManageExtensions);
            assert_eq!(route("platform__read_resource", frontend, selector), Route::ReadResource);
            assert_eq!(route("platform__list_resources", frontend, selector), Route::ListResources);
            assert_eq!(
                route("platform__search_available_extensions", frontend, selector),
                Route::SearchAvailableExtensions
            );
        }
    }
    assert_eq!(route("router__vector_search", true, true), Route::Frontend);
    assert_eq!(route("router__vector_search", false, true), Route::SelectTools);
    assert_eq!(route("router__llm_search", false, true), Route::SelectTools);
    assert_eq!(route("router__llm_search", false, false), Route::NoSelector);
    assert_eq!(route("dev__shell", true, false), Route::Frontend);
    assert_eq!(route("dev__shell", false, true), Route::Extension);
    assert_eq!(route("", false, false), Route::Extension);
    assert!(is_platform_tool("platform__read_resource"));
    assert!(!is_platform_tool("platform__read_resources"));
    assert!(!is_platform_tool(ROUTER_VECTOR_SEARCH_TOOL_NAME));
}

#[test]
fn frontend_tools_are_left_to_the_frontend() {
    let mut agent = Agent::new();
    agent.add_extension(frontend(&["ui__pick_color"]));
    let (_, d) = agent.dispatch_tool_call(call("ui__pick_color", "{}"), "1".to_string());
    assert_eq!(d, Dispatch::Frontend(failure("Frontend tool execution required")));
}

#[test]
fn search_tools_need_a_selector() {
    let mut agent = Agent::new();
    let (_, d) = agent.dispatch_tool_call(call(ROUTER_VECTOR_SEARCH_TOOL_NAME, "{\"query\":\"q\"}"), "1".to_string());
    assert_eq!(d, Dispatch::Refused(ToolError::ExecutionError("No tool selector available".to_string())));
    let (_, d) = agent.dispatch_tool_call(call(ROUTER_LLM_SEARCH_TOOL_NAME, "{}"), "1".to_string());
    assert_eq!(d, Dispatch::Refused(ToolError::ExecutionError("No tool selector available".to_string())));
    with_router(&mut agent);
    let (_, d) = agent.dispatch_tool_call(call(ROUTER_VECTOR_SEARCH_TOOL_NAME, "{\"query\":\"q\"}"), "2".to_string());
    assert_eq!(d, Dispatch::SelectTools { arguments: "{\"query\":\"q\"}".to_string() });
}

#[test]
fn selection_and_extension_outcomes() {
    assert_eq!(selection_outcome(Ok(vec![Content::Text("t".to_string())])), text("t"));
    assert_eq!(selection_outcome(Err("boom".to_string())), failure("Failed to select tools: boom"));
    assert_eq!(extension_outcome(Ok(text("done"))), text("done"));
    assert_eq!(extension_outcome(Ok(failure("inner"))), failure("inner"));
    assert_eq!(extension_outcome(Err("no such tool".to_string())), failure("no such tool"));
}

#[test]
fn manage_extensions_reads_its_two_strings() {
    let mut agent = Agent::new();
    let (_, d) = agent.dispatch_tool_call(
        call(PLATFORM_MANAGE_EXTENSIONS_TOOL_NAME, "{\"action\":\"enable\",\"extension_name\":\"X\"}"),
        "1".to_string(),
    );
    assert_eq!(d, Dispatch::ManageExtensions { action: "enable".to_string(), extension_name: "X".to_string() });
    let (_, d) = agent.dispatch_tool_call(
        call(PLATFORM_MANAGE_EXTENSIONS_TOOL_NAME, "{\"action\":7,\"other\":\"X\"}"),
        "1".to_string(),
    );
    assert_eq!(d, Dispatch::ManageExtensions { action: "".to_string(), extension_name: "".to_string() });
    let (_, d) = agent.dispatch_tool_call(call(PLATFORM_MANAGE_EXTENSIONS_TOOL_NAME, "no json"), "1".to_string());
    assert_eq!(d, Dispatch::ManageExtensions { action: "".to_string(), extension_name: "".to_string() });
    assert_eq!(or_empty(None), "");
    assert_eq!(or_empty(Some("x".to_string())), "x");
}

fn remote(name: &str) -> ExtensionConfig {
    ExtensionConfig::Remote { name: name.to_string(), config: "{\"type\":\"stdio\"}".to_string() }
}

#[test]
fn enabling_a_stored_extension_installs_it_and_indexes_its_tools() {
    let mut agent = Agent::new();
    with_router(&mut agent);
    let (id, dispatch) = agent.dispatch_tool_call(
        call("platform__manage_extensions", "{\"action\":\"enable\",\"extension_name\":\"X\"}"),
        "req".to_string(),
    );
    let (action, extension_name) = match dispatch {
        Dispatch::ManageExtensions { action, extension_name } => (action, extension_name),
        other => panic!("unexpected {:?}", other),
    };
    let (id, mut handling, first) = agent.manage_extensions(action, extension_name, id);
    assert_eq!(id, "req");
    assert_eq!(first, ManageAction::LookupConfig("X".to_string()));
    assert_eq!(handling.current_stage(), ManageStage::LookingUp);
    let next = handling.step(ManageEvent::Config(Ok(Some(remote("X")))));
    assert_eq!(next, Some(ManageAction::AddExtension(remote("X"))));
    let next = handling.step(ManageEvent::Added(Ok(())));
    assert_eq!(
        next,
        Some(ManageAction::UpdateIndex { extension_name: "X".to_string(), action: "add".to_string() })
    );
    assert_eq!(handling.current_stage(), ManageStage::Indexing);
    let next = handling.step(ManageEvent::Indexed(Ok(())));
    assert_eq!(
        next,
        Some(ManageAction::Finish(text("The extension 'X' has been installed successfully")))
    );
    assert_eq!(handling.current_stage(), ManageStage::Finished);
    assert_eq!(handling.step(ManageEvent::Indexed(Ok(()))), None);
}

#[test]
fn enabling_without_a_router_touches_no_index() {
    let (mut handling, first) = ManageExtensions::start("enable".to_string(), "X".to_string(), false);
    assert_eq!(first, ManageAction::LookupConfig("X".to_string()));
    handling.step(ManageEvent::Config(Ok(Some(remote("X")))));
    assert_eq!(
        handling.step(ManageEvent::Added(Ok(()))),
        Some(ManageAction::Finish(text("The extension 'X' has been installed successfully")))
    );
}

#[test]
fn any_action_but_disable_enables() {
    let (_, first) = ManageExtensions::start("".to_string(), "X".to_string(), false);
    assert_eq!(first, ManageAction::LookupConfig("X".to_string()));
    let (_, first) = ManageExtensions::start("Disable".to_string(), "X".to_string(), false);
    assert_eq!(first, ManageAction::LookupConfig("X".to_string()));
}

#[test]
fn disabling_removes_at_once() {
    let (mut handling, first) = ManageExtensions::start("disable".to_string(), "X".to_string(), false);
    assert_eq!(first, ManageAction::RemoveExtension("X".to_string()));
    assert_eq!(handling.current_stage(), ManageStage::Removing);
    assert_eq!(handling.step(ManageEvent::Added(Ok(()))), None);
    assert_eq!(handling.current_stage(), ManageStage::Removing);
    assert_eq!(
        handling.step(ManageEvent::Removed(Ok(()))),
        Some(ManageAction::Finish(text("The extension 'X' has been disabled successfully")))
    );
}

#[test]
fn disabling_with_a_router_takes_the_tools_out_of_the_index() {
    let (mut handling, _) = ManageExtensions::start("disable".to_string(), "X".to_string(), true);
    assert_eq!(
        handling.step(ManageEvent::Removed(Ok(()))),
        Some(ManageAction::UpdateIndex { extension_name: "X".to_string(), action: "remove".to_string() })
    );
    assert_eq!(
        handling.step(ManageEvent::Indexed(Ok(()))),
        Some(ManageAction::Finish(text("The extension 'X' has been disabled successfully")))
    );
}

#[test]
fn a_failed_removal_is_the_answer() {
    let (mut handling, _) = ManageExtensions::start("disable".to_string(), "X".to_string(), true);
    assert_eq!(
        handling.step(ManageEvent::Removed(Err("not running".to_string()))),
        Some(ManageAction::Finish(failure("not running")))
    );
    assert_eq!(handling.current_stage(), ManageStage::Finished);
}

#[test]
fn an_unknown_extension_is_not_found() {
    let (mut handling, _) = ManageExtensions::start("enable".to_string(), "X".to_string(), true);
    assert_eq!(
        handling.step(ManageEvent::Config(Ok(None))),
        Some(ManageAction::Finish(failure(
            "Extension 'X' not found. Please check the extension name and try again."
        )))
    );
}

#[test]
fn a_failed_lookup_is_told_apart_from_not_found() {
    let (mut handling, _) = ManageExtensions::start("enable".to_string(), "X".to_string(), true);
    assert_eq!(
        handling.step(ManageEvent::Config(Err("disk".to_string()))),
        Some(ManageAction::Finish(failure("Failed to get extension config: disk")))
    );
}

#[test]
fn a_failed_install_is_the_answer_and_nothing_is_indexed() {
    let (mut handling, _) = ManageExtensions::start("enable".to_string(), "X".to_string(), true);
    handling.step(ManageEvent::Config(Ok(Some(remote("X")))));
    assert_eq!(
        handling.step(ManageEvent::Added(Err("spawn failed".to_string()))),
        Some(ManageAction::Finish(failure("spawn failed")))
    );
    assert_eq!(handling.step(ManageEvent::Indexed(Ok(()))), None);
}

#[test]
fn a_failed_index_update_is_surfaced_alone() {
    let (mut handling, _) = ManageExtensions::start("enable".to_string(), "X".to_string(), true);
    handling.step(ManageEvent::Config(Ok(Some(remote("X")))));
    handling.step(ManageEvent::Added(Ok(())));
    assert_eq!(
        handling.step(ManageEvent::Indexed(Err("db down".to_string()))),
        Some(ManageAction::Finish(failure("Failed to update vector index: db down")))
    );
}

#[test]
fn add_and_remove_extension_follow_the_registry() {
    let mut agent = Agent::new();
    assert_eq!(agent.add_extension(remote("X")), ExtensionStep::Install(remote("X")));
    assert_eq!(agent.extension_added("X", Ok(())), ExtensionStep::Done(Ok(())));
    assert_eq!(agent.remove_extension("X", Ok(())), ExtensionStep::Done(Ok(())));
    with_router(&mut agent);
    assert_eq!(
        agent.extension_added("X", Ok(())),
        ExtensionStep::UpdateIndex { extension_name: "X".to_string(), action: "add".to_string() }
    );
    assert_eq!(
        agent.remove_extension("X", Ok(())),
        ExtensionStep::UpdateIndex { extension_name: "X".to_string(), action: "remove".to_string() }
    );
    assert_eq!(
        agent.remove_extension("X", Err("gone".to_string())),
        ExtensionStep::Done(Err(goose_agent::extension::ExtensionError::Registry("gone".to_string())))
    );
    assert_eq!(
        goose_agent::setup::extension_indexed("X", Err("db".to_string())),
        Err(goose_agent::extension::ExtensionError::SetupError(
            "Failed to index tools for extension X: db".to_string()
        ))
    );
    assert_eq!(goose_agent::setup::extension_indexed("X", Ok(())), Ok(()));
    assert_eq!(
        goose_agent::setup::removal_indexed(Err("db".to_string())),
        Err(goose_agent::extension::ExtensionError::Index("db".to_string()))
    );
    assert_eq!(goose_agent::setup::removal_indexed(Ok(())), Ok(()));
}
