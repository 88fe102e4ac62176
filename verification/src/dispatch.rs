//! Where a tool call goes: the order in which the engine's own tools, the frontend's tools, the
//! router's search tools and the extensions are tried.
use vstd::prelude::*;
use crate::catalog::{
    is_platform_name, same_text, PLATFORM_LIST_RESOURCES_TOOL_NAME,
    PLATFORM_MANAGE_EXTENSIONS_TOOL_NAME, PLATFORM_READ_RESOURCE_TOOL_NAME,
    PLATFORM_SEARCH_AVAILABLE_EXTENSIONS_TOOL_NAME, ROUTER_LLM_SEARCH_TOOL_NAME,
    ROUTER_VECTOR_SEARCH_TOOL_NAME,
};
use crate::extension::join3;
use crate::tool::{
    execution_error, result_view, Content, ToolCall, ToolCallView, ToolError, ToolErrorView,
    ToolResult, ToolResultView,
};

verus! {

/// The handler that a call of some name goes to.
#[derive(Clone, Copy, Debug, PartialEq, Eq, Structural)]
pub enum Route {
    ManageExtensions,
    ReadResource,
    ListResources,
    SearchAvailableExtensions,
    /// The call is for a tool of the frontend, which has to run it.
    Frontend,
    /// The call is for a search tool of the router, and a selector is there.
    SelectTools,
    /// The call is for a search tool of the router, and no selector is there.
    NoSelector,
    /// The call goes to the extensions.
    Extension,
}

impl Route {
    /// The four handlers of the engine's own tools.
    pub open spec fn is_platform(self) -> bool {
        self == Route::ManageExtensions || self == Route::ReadResource || self
            == Route::ListResources || self == Route::SearchAvailableExtensions
    }
}

/// The handler for a call of `name`; the first match wins. `is_frontend` says whether the
/// frontend has registered a tool of that name, `has_selector` whether a router selector is
/// configured.
pub open spec fn classify(name: Seq<char>, is_frontend: bool, has_selector: bool) -> Route {
    if name == PLATFORM_MANAGE_EXTENSIONS_TOOL_NAME@ {
        Route::ManageExtensions
    } else if name == PLATFORM_READ_RESOURCE_TOOL_NAME@ {
        Route::ReadResource
    } else if name == PLATFORM_LIST_RESOURCES_TOOL_NAME@ {
        Route::ListResources
    } else if name == PLATFORM_SEARCH_AVAILABLE_EXTENSIONS_TOOL_NAME@ {
        Route::SearchAvailableExtensions
    } else if is_frontend {
        Route::Frontend
    } else if name == ROUTER_VECTOR_SEARCH_TOOL_NAME@ || name == ROUTER_LLM_SEARCH_TOOL_NAME@ {
        if has_selector {
            Route::SelectTools
        } else {
            Route::NoSelector
        }
    } else {
        Route::Extension
    }
}

/// Finds the handler for a call of `name`.
pub fn route(name: &str, is_frontend: bool, has_selector: bool) -> (to: Route)
    ensures
        to == classify(name@, is_frontend, has_selector),
{
    if same_text(name, PLATFORM_MANAGE_EXTENSIONS_TOOL_NAME) {
        Route::ManageExtensions
    } else if same_text(name, PLATFORM_READ_RESOURCE_TOOL_NAME) {
        Route::ReadResource
    } else if same_text(name, PLATFORM_LIST_RESOURCES_TOOL_NAME) {
        Route::ListResources
    } else if same_text(name, PLATFORM_SEARCH_AVAILABLE_EXTENSIONS_TOOL_NAME) {
        Route::SearchAvailableExtensions
    } else if is_frontend {
        Route::Frontend
    } else if same_text(name, ROUTER_VECTOR_SEARCH_TOOL_NAME) || same_text(
        name,
        ROUTER_LLM_SEARCH_TOOL_NAME,
    ) {
        if has_selector {
            Route::SelectTools
        } else {
            Route::NoSelector
        }
    } else {
        Route::Extension
    }
}

/// A call named after one of the engine's own tools goes to the engine's handler for it,
/// whether or not the frontend or an extension offers a tool of the same name; and no other
/// name reaches one of these handlers.
pub proof fn law_platform_names_win(name: Seq<char>, is_frontend: bool, has_selector: bool)
    ensures
        is_platform_name(name) <==> classify(name, is_frontend, has_selector).is_platform(),
        is_platform_name(name) ==> classify(name, is_frontend, has_selector) == classify(
            name,
            !is_frontend,
            !has_selector,
        ),
{
}

/// What the model is told about a call that the repetition monitor turned away.
pub const REPETITION_ERROR: &'static str =
    "Tool call rejected: exceeded maximum allowed repetitions";

/// What stands for the result of a call that the frontend has to run.
pub const FRONTEND_REQUIRED_ERROR: &'static str = "Frontend tool execution required";

/// What the model is told where a search tool is called and no selector is configured.
pub const NO_SELECTOR_ERROR: &'static str = "No tool selector available";

/// What the model is told where the selector failed.
pub open spec fn selection_failed_text(error: Seq<char>) -> Seq<char> {
    "Failed to select tools: "@ + error
}

/// What is to be done with one tool call.
#[derive(Debug, PartialEq, Eq)]
pub enum Dispatch {
    /// Nothing is called: the call has failed with this error.
    Refused(ToolError),
    /// Nothing is called here: the frontend runs the tool, and until it reports, this stands
    /// for the result.
    Frontend(ToolResult),
    /// Enable or disable an extension.
    ManageExtensions { action: String, extension_name: String },
    /// Ask the extensions to read a resource.
    ReadResource { arguments: String },
    /// Ask the extensions to list their resources.
    ListResources { arguments: String },
    /// Ask the extensions which of them could be enabled.
    SearchAvailableExtensions,
    /// Ask the router's selector for tools.
    SelectTools { arguments: String },
    /// Hand the call to the extensions.
    Extension(ToolCall),
}

pub enum DispatchView {
    Refused(ToolErrorView),
    Frontend(ToolResultView),
    ManageExtensions { action: Seq<char>, extension_name: Seq<char> },
    ReadResource { arguments: Seq<char> },
    ListResources { arguments: Seq<char> },
    SearchAvailableExtensions,
    SelectTools { arguments: Seq<char> },
    Extension(ToolCallView),
}

impl View for Dispatch {
    type V = DispatchView;

    open spec fn view(&self) -> DispatchView {
        match self {
            Dispatch::Refused(e) => DispatchView::Refused(e@),
            Dispatch::Frontend(r) => DispatchView::Frontend(result_view(*r)),
            Dispatch::ManageExtensions { action, extension_name } => DispatchView::ManageExtensions {
                action: action@,
                extension_name: extension_name@,
            },
            Dispatch::ReadResource { arguments } => DispatchView::ReadResource {
                arguments: arguments@,
            },
            Dispatch::ListResources { arguments } => DispatchView::ListResources {
                arguments: arguments@,
            },
            Dispatch::SearchAvailableExtensions => DispatchView::SearchAvailableExtensions,
            Dispatch::SelectTools { arguments } => DispatchView::SelectTools {
                arguments: arguments@,
            },
            Dispatch::Extension(call) => DispatchView::Extension(call@),
        }
    }
}

/// The string under `key` in the arguments, or the empty string.
pub open spec fn member_or_empty(member: Option<Seq<char>>) -> Seq<char> {
    match member {
        Some(s) => s,
        None => Seq::empty(),
    }
}

/// What is to be done with a call that the monitor let pass, given its handler and the two
/// strings that the manage-extensions tool reads from its arguments.
pub open spec fn plan(
    to: Route,
    call: ToolCallView,
    action: Option<Seq<char>>,
    extension_name: Option<Seq<char>>,
) -> DispatchView {
    match to {
        Route::ManageExtensions => DispatchView::ManageExtensions {
            action: member_or_empty(action),
            extension_name: member_or_empty(extension_name),
        },
        Route::ReadResource => DispatchView::ReadResource { arguments: call.arguments },
        Route::ListResources => DispatchView::ListResources { arguments: call.arguments },
        Route::SearchAvailableExtensions => DispatchView::SearchAvailableExtensions,
        Route::Frontend => DispatchView::Frontend(execution_error(FRONTEND_REQUIRED_ERROR@)),
        Route::SelectTools => DispatchView::SelectTools { arguments: call.arguments },
        Route::NoSelector => DispatchView::Refused(
            ToolErrorView::ExecutionError(NO_SELECTOR_ERROR@),
        ),
        Route::Extension => DispatchView::Extension(call),
    }
}

/// The string, or the empty string.
pub fn or_empty(member: Option<String>) -> (text: String)
    ensures
        text@ == member_or_empty(member.deep_view()),
{
    match member {
        Some(s) => s,
        None => String::new(),
    }
}

/// Says what is to be done with a call that the monitor let pass.
pub fn plan_call(
    to: Route,
    call: ToolCall,
    action: Option<String>,
    extension_name: Option<String>,
) -> (dispatch: Dispatch)
    ensures
        dispatch@ == plan(to, call@, action.deep_view(), extension_name.deep_view()),
{
    match to {
        Route::ManageExtensions => Dispatch::ManageExtensions {
            action: or_empty(action),
            extension_name: or_empty(extension_name),
        },
        Route::ReadResource => Dispatch::ReadResource { arguments: call.arguments },
        Route::ListResources => Dispatch::ListResources { arguments: call.arguments },
        Route::SearchAvailableExtensions => Dispatch::SearchAvailableExtensions,
        Route::Frontend => Dispatch::Frontend(
            Err(ToolError::ExecutionError(String::from_str(FRONTEND_REQUIRED_ERROR))),
        ),
        Route::SelectTools => Dispatch::SelectTools { arguments: call.arguments },
        Route::NoSelector => Dispatch::Refused(
            ToolError::ExecutionError(String::from_str(NO_SELECTOR_ERROR)),
        ),
        Route::Extension => Dispatch::Extension(call),
    }
}

/// The outcome of a call to the router's search tool, from what the selector answered: its
/// tools are the call's content; its failure fails the call.
pub fn selection_outcome(selected: Result<Vec<Content>, String>) -> (outcome: ToolResult)
    ensures
        match selected {
            Ok(tools) => outcome == Ok::<Vec<Content>, ToolError>(tools),
            Err(e) => result_view(outcome) == execution_error(selection_failed_text(e@)),
        },
{
    match selected {
        Ok(tools) => Ok(tools),
        Err(e) => {
            let text = join3("Failed to select tools: ", e.as_str(), "");
            proof {
                reveal_strlit("");
                assert(text@ =~= selection_failed_text(e@));
            }
            Err(ToolError::ExecutionError(text))
        },
    }
}

/// The outcome of a call that was handed to the extensions, from what they answered: their
/// failure to take the call is the call's failure in execution.
pub fn extension_outcome(answered: Result<ToolResult, String>) -> (outcome: ToolResult)
    ensures
        match answered {
            Ok(result) => outcome == result,
            Err(e) => result_view(outcome) == execution_error(e@),
        },
{
    match answered {
        Ok(result) => result,
        Err(e) => Err(ToolError::ExecutionError(e)),
    }
}

} // verus!
