//! The tools that the engine itself provides, and the description of a tool as the model sees it.
use vstd::prelude::*;

verus! {

pub const PLATFORM_READ_RESOURCE_TOOL_NAME: &'static str = "platform__read_resource";

pub const PLATFORM_LIST_RESOURCES_TOOL_NAME: &'static str = "platform__list_resources";

pub const PLATFORM_SEARCH_AVAILABLE_EXTENSIONS_TOOL_NAME: &'static str =
    "platform__search_available_extensions";

pub const PLATFORM_MANAGE_EXTENSIONS_TOOL_NAME: &'static str = "platform__manage_extensions";

pub const ROUTER_VECTOR_SEARCH_TOOL_NAME: &'static str = "router__vector_search";

pub const ROUTER_LLM_SEARCH_TOOL_NAME: &'static str = "router__llm_search";

/// Whether `a` and `b` hold the same characters.
pub fn same_text(a: &str, b: &str) -> (same: bool)
    ensures
        same == (a@ == b@),
{
    let left = String::from_str(a);
    let right = String::from_str(b);
    left == right
}

/// A tool as the model sees it. `input_schema` is JSON text.
#[derive(Debug, PartialEq, Eq)]
pub struct Tool {
    pub name: String,
    pub description: String,
    pub input_schema: String,
}

pub struct ToolView {
    pub name: Seq<char>,
    pub description: Seq<char>,
    pub input_schema: Seq<char>,
}

impl View for Tool {
    type V = ToolView;

    open spec fn view(&self) -> ToolView {
        ToolView {
            name: self.name@,
            description: self.description@,
            input_schema: self.input_schema@,
        }
    }
}

impl DeepView for Tool {
    type V = ToolView;

    open spec fn deep_view(&self) -> ToolView {
        self@
    }
}

impl Clone for Tool {
    fn clone(&self) -> (copy: Tool)
        ensures
            copy@ == self@,
    {
        Tool {
            name: self.name.clone(),
            description: self.description.clone(),
            input_schema: self.input_schema.clone(),
        }
    }
}

impl Tool {
    pub fn new(name: &str, description: &str, input_schema: &str) -> (tool: Tool)
        ensures
            tool@ == (ToolView {
                name: name@,
                description: description@,
                input_schema: input_schema@,
            }),
    {
        Tool {
            name: String::from_str(name),
            description: String::from_str(description),
            input_schema: String::from_str(input_schema),
        }
    }
}

/// Whether a tool of that name is engine-provided: such a name is never looked up among the
/// frontend tools or the extensions.
pub open spec fn is_platform_name(name: Seq<char>) -> bool {
    ||| name == PLATFORM_MANAGE_EXTENSIONS_TOOL_NAME@
    ||| name == PLATFORM_READ_RESOURCE_TOOL_NAME@
    ||| name == PLATFORM_LIST_RESOURCES_TOOL_NAME@
    ||| name == PLATFORM_SEARCH_AVAILABLE_EXTENSIONS_TOOL_NAME@
}

pub fn is_platform_tool(name: &str) -> (platform: bool)
    ensures
        platform == is_platform_name(name@),
{
    same_text(name, PLATFORM_MANAGE_EXTENSIONS_TOOL_NAME) || same_text(
        name,
        PLATFORM_READ_RESOURCE_TOOL_NAME,
    ) || same_text(name, PLATFORM_LIST_RESOURCES_TOOL_NAME) || same_text(
        name,
        PLATFORM_SEARCH_AVAILABLE_EXTENSIONS_TOOL_NAME,
    )
}

pub const SEARCH_AVAILABLE_EXTENSIONS_DESCRIPTION: &'static str =
    "Searches for additional extensions available to help complete tasks. Use this tool when you are unable to find a specific feature or functionality you need to complete your task, or when standard approaches are not working. These extensions might provide the exact tools needed to solve your problem.";

pub const MANAGE_EXTENSIONS_DESCRIPTION: &'static str =
    "Tool to manage extensions and tools in the current context. Enable or disable extensions to help complete tasks. Enable or disable an extension by providing the extension name.";

pub const READ_RESOURCE_DESCRIPTION: &'static str =
    "Read a resource from an extension. Resources allow extensions to share data that provide context to the model, such as files, database schemas, or application-specific information.";

pub const LIST_RESOURCES_DESCRIPTION: &'static str =
    "List resources from an extension or from all extensions. Resources allow extensions to share data that provide context to the model.";

pub const VECTOR_SEARCH_DESCRIPTION: &'static str =
    "Searches for relevant tools based on the user's messages. Format a query to search for the most relevant tools. Pay attention to the keywords in the user's messages, especially the last message and potential tools they are asking for.";

pub const LLM_SEARCH_DESCRIPTION: &'static str =
    "Searches for relevant tools based on the user's messages. Format a query to search for the most relevant tools based on the user's messages. Pay attention to the keywords in the user's messages, especially the last message and potential tools they are asking for.";

pub const NO_PARAMETERS_SCHEMA: &'static str =
    "{\"type\":\"object\",\"required\":[],\"properties\":{}}";

pub const MANAGE_EXTENSIONS_SCHEMA: &'static str =
    "{\"type\":\"object\",\"required\":[\"action\",\"extension_name\"],\"properties\":{\"action\":{\"type\":\"string\",\"description\":\"The action to perform\",\"enum\":[\"enable\",\"disable\"]},\"extension_name\":{\"type\":\"string\",\"description\":\"The name of the extension to enable\"}}}";

pub const READ_RESOURCE_SCHEMA: &'static str =
    "{\"type\":\"object\",\"required\":[\"uri\"],\"properties\":{\"uri\":{\"type\":\"string\",\"description\":\"Resource URI\"},\"extension_name\":{\"type\":\"string\",\"description\":\"Optional extension name\"}}}";

pub const LIST_RESOURCES_SCHEMA: &'static str =
    "{\"type\":\"object\",\"properties\":{\"extension_name\":{\"type\":\"string\",\"description\":\"Optional extension name\"}}}";

pub const SEARCH_SCHEMA: &'static str =
    "{\"type\":\"object\",\"required\":[\"query\"],\"properties\":{\"query\":{\"type\":\"string\",\"description\":\"The query to search for the most relevant tools based on the user's messages\"},\"k\":{\"type\":\"integer\",\"description\":\"The number of tools to retrieve (defaults to 5)\",\"default\":5},\"extension_name\":{\"type\":\"string\",\"description\":\"Optional extension name to filter tools by\"}}}";

/// How many recent tool calls the selector is asked for when the router's catalog is built.
pub const RECENT_TOOL_CALLS: usize = 20;

/// The name under which the engine's own tools are listed as an extension.
pub const PLATFORM_EXTENSION_NAME: &'static str = "platform";

pub open spec fn search_available_extensions_view() -> ToolView {
    ToolView {
        name: PLATFORM_SEARCH_AVAILABLE_EXTENSIONS_TOOL_NAME@,
        description: SEARCH_AVAILABLE_EXTENSIONS_DESCRIPTION@,
        input_schema: NO_PARAMETERS_SCHEMA@,
    }
}

pub open spec fn manage_extensions_view() -> ToolView {
    ToolView {
        name: PLATFORM_MANAGE_EXTENSIONS_TOOL_NAME@,
        description: MANAGE_EXTENSIONS_DESCRIPTION@,
        input_schema: MANAGE_EXTENSIONS_SCHEMA@,
    }
}

pub open spec fn read_resource_view() -> ToolView {
    ToolView {
        name: PLATFORM_READ_RESOURCE_TOOL_NAME@,
        description: READ_RESOURCE_DESCRIPTION@,
        input_schema: READ_RESOURCE_SCHEMA@,
    }
}

pub open spec fn list_resources_view() -> ToolView {
    ToolView {
        name: PLATFORM_LIST_RESOURCES_TOOL_NAME@,
        description: LIST_RESOURCES_DESCRIPTION@,
        input_schema: LIST_RESOURCES_SCHEMA@,
    }
}

pub open spec fn vector_search_view() -> ToolView {
    ToolView {
        name: ROUTER_VECTOR_SEARCH_TOOL_NAME@,
        description: VECTOR_SEARCH_DESCRIPTION@,
        input_schema: SEARCH_SCHEMA@,
    }
}

pub open spec fn llm_search_view() -> ToolView {
    ToolView {
        name: ROUTER_LLM_SEARCH_TOOL_NAME@,
        description: LLM_SEARCH_DESCRIPTION@,
        input_schema: SEARCH_SCHEMA@,
    }
}

pub fn search_available_extensions_tool() -> (tool: Tool)
    ensures
        tool@ == search_available_extensions_view(),
{
    Tool::new(
        PLATFORM_SEARCH_AVAILABLE_EXTENSIONS_TOOL_NAME,
        SEARCH_AVAILABLE_EXTENSIONS_DESCRIPTION,
        NO_PARAMETERS_SCHEMA,
    )
}

pub fn manage_extensions_tool() -> (tool: Tool)
    ensures
        tool@ == manage_extensions_view(),
{
    Tool::new(
        PLATFORM_MANAGE_EXTENSIONS_TOOL_NAME,
        MANAGE_EXTENSIONS_DESCRIPTION,
        MANAGE_EXTENSIONS_SCHEMA,
    )
}

pub fn read_resource_tool() -> (tool: Tool)
    ensures
        tool@ == read_resource_view(),
{
    Tool::new(PLATFORM_READ_RESOURCE_TOOL_NAME, READ_RESOURCE_DESCRIPTION, READ_RESOURCE_SCHEMA)
}

pub fn list_resources_tool() -> (tool: Tool)
    ensures
        tool@ == list_resources_view(),
{
    Tool::new(PLATFORM_LIST_RESOURCES_TOOL_NAME, LIST_RESOURCES_DESCRIPTION, LIST_RESOURCES_SCHEMA)
}

pub fn vector_search_tool() -> (tool: Tool)
    ensures
        tool@ == vector_search_view(),
{
    Tool::new(ROUTER_VECTOR_SEARCH_TOOL_NAME, VECTOR_SEARCH_DESCRIPTION, SEARCH_SCHEMA)
}

pub fn llm_search_tool() -> (tool: Tool)
    ensures
        tool@ == llm_search_view(),
{
    Tool::new(ROUTER_LLM_SEARCH_TOOL_NAME, LLM_SEARCH_DESCRIPTION, SEARCH_SCHEMA)
}

/// The engine's own tools as they are listed: the two that manage extensions, and the two
/// that reach resources where an extension offers resources.
pub open spec fn platform_tools(supports_resources: bool) -> Seq<ToolView> {
    seq![search_available_extensions_view(), manage_extensions_view()] + if supports_resources {
        seq![read_resource_view(), list_resources_view()]
    } else {
        Seq::empty()
    }
}

/// The tools that are listed for an extension, or for all: those of the extensions, and behind
/// them the engine's own where all are asked for or the extension `platform`.
pub open spec fn listed_tools(
    extension_name: Option<Seq<char>>,
    prefixed_tools: Seq<ToolView>,
    supports_resources: bool,
) -> Seq<ToolView> {
    if extension_name is None || extension_name == Some(PLATFORM_EXTENSION_NAME@) {
        prefixed_tools + platform_tools(supports_resources)
    } else {
        prefixed_tools
    }
}

/// The first position in `tools` of a tool named `name`, or `None`.
pub open spec fn first_named(tools: Seq<ToolView>, name: Seq<char>) -> Option<int>
    decreases tools.len(),
{
    if tools.len() == 0 {
        None
    } else if tools.first().name == name {
        Some(0)
    } else {
        match first_named(tools.drop_first(), name) {
            Some(i) => Some(i + 1),
            None => None,
        }
    }
}

pub proof fn lemma_first_named(tools: Seq<ToolView>, name: Seq<char>)
    ensures
        match first_named(tools, name) {
            Some(i) => 0 <= i < tools.len() && tools[i].name == name && forall|j: int|
                0 <= j < i ==> (#[trigger] tools[j]).name != name,
            None => forall|j: int| 0 <= j < tools.len() ==> (#[trigger] tools[j]).name != name,
        },
    decreases tools.len(),
{
    if tools.len() > 0 && tools.first().name != name {
        let rest = tools.drop_first();
        lemma_first_named(rest, name);
        match first_named(rest, name) {
            Some(i) => {
                assert forall|j: int| 0 <= j < i + 1 implies (#[trigger] tools[j]).name != name by {
                    if j > 0 {
                        assert(tools[j] == rest[j - 1]);
                    }
                }
            },
            None => {
                assert forall|j: int| 0 <= j < tools.len() implies (#[trigger] tools[j]).name
                    != name by {
                    if j > 0 {
                        assert(tools[j] == rest[j - 1]);
                    }
                }
            },
        }
    }
}

/// Finds the first tool named `name`.
pub fn find_tool(tools: &Vec<Tool>, name: &str) -> (at: Option<usize>)
    ensures
        match first_named(tools.deep_view(), name@) {
            Some(i) => at matches Some(k) && k as int == i && i < tools.len(),
            None => at is None,
        },
{
    let mut i: usize = 0;
    while i < tools.len()
        invariant
            0 <= i <= tools.len(),
            forall|j: int| 0 <= j < i ==> (#[trigger] tools.deep_view()[j]).name != name@,
        decreases tools.len() - i,
    {
        if same_text(tools[i].name.as_str(), name) {
            proof {
                assert(tools.deep_view()[i as int].name == name@);
                lemma_first_named(tools.deep_view(), name@);
            }
            return Some(i);
        }
        i += 1;
    }
    proof {
        lemma_first_named(tools.deep_view(), name@);
    }
    None
}

/// The listed tools with those of the recently called names behind them: a name adds the first
/// extension tool of that name, unless no extension has such a tool or a tool of that name is
/// listed already.
pub open spec fn with_recent_calls(
    listed: Seq<ToolView>,
    recent_calls: Seq<Seq<char>>,
    extension_tools: Seq<ToolView>,
) -> Seq<ToolView>
    decreases recent_calls.len(),
{
    if recent_calls.len() == 0 {
        listed
    } else {
        let before = with_recent_calls(listed, recent_calls.drop_last(), extension_tools);
        match first_named(extension_tools, recent_calls.last()) {
            Some(i) => if first_named(before, recent_calls.last()) is Some {
                before
            } else {
                before.push(extension_tools[i])
            },
            None => before,
        }
    }
}

} // verus!
