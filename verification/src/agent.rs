//! The agent: the state that the engine keeps between turns, and the decisions it takes on it.
use vstd::prelude::*;
use crate::catalog::{same_text, Tool, ToolView};
use crate::channel::{first_with, Channel, CHANNEL_CAPACITY};
use crate::dispatch::{
    classify, plan, plan_call, route, Dispatch, DispatchView, Route, REPETITION_ERROR,
};
use crate::json::{json_string_member, string_member};
use crate::monitor::{admits, count_in, record, ToolMonitor};
use crate::permission::PermissionConfirmation;
use crate::tool::{ToolCall, ToolError, ToolErrorView, ToolResult};

verus! {

/// How the router narrows the tools that the model sees.
#[derive(Clone, Copy, Debug, PartialEq, Eq, Structural)]
pub enum RouterToolSelectionStrategy {
    Vector,
    Llm,
}

/// A tool that the frontend runs.
#[derive(Debug, PartialEq, Eq)]
pub struct FrontendTool {
    pub name: String,
    pub tool: Tool,
}

pub struct FrontendToolView {
    pub name: Seq<char>,
    pub tool: ToolView,
}

impl View for FrontendTool {
    type V = FrontendToolView;

    open spec fn view(&self) -> FrontendToolView {
        FrontendToolView { name: self.name@, tool: self.tool@ }
    }
}

impl DeepView for FrontendTool {
    type V = FrontendToolView;

    open spec fn deep_view(&self) -> FrontendToolView {
        self@
    }
}

impl Clone for FrontendTool {
    fn clone(&self) -> (copy: FrontendTool)
        ensures
            copy@ == self@,
    {
        FrontendTool { name: self.name.clone(), tool: self.tool.clone() }
    }
}

/// The position of the tool registered under `name`, or `None`.
pub open spec fn tool_position(tools: Seq<FrontendToolView>, name: Seq<char>) -> Option<int>
    decreases tools.len(),
{
    if tools.len() == 0 {
        None
    } else if tools.last().name == name {
        Some(tools.len() - 1)
    } else {
        tool_position(tools.drop_last(), name)
    }
}

/// The table after `tool` was registered: it takes the place of a tool registered under the
/// same name, and else it is added at the end.
pub open spec fn register(tools: Seq<FrontendToolView>, tool: FrontendToolView) -> Seq<
    FrontendToolView,
> {
    match tool_position(tools, tool.name) {
        Some(i) => tools.update(i, tool),
        None => tools.push(tool),
    }
}

/// No two tools of the table are registered under the same name.
pub open spec fn distinct_names(tools: Seq<FrontendToolView>) -> bool {
    forall|i: int, j: int|
        0 <= i < j < tools.len() ==> (#[trigger] tools[i]).name != (#[trigger] tools[j]).name
}

pub proof fn lemma_tool_position(tools: Seq<FrontendToolView>, name: Seq<char>)
    ensures
        match tool_position(tools, name) {
            Some(i) => 0 <= i < tools.len() && tools[i].name == name && forall|j: int|
                i < j < tools.len() ==> (#[trigger] tools[j]).name != name,
            None => forall|j: int| 0 <= j < tools.len() ==> (#[trigger] tools[j]).name != name,
        },
    decreases tools.len(),
{
    if tools.len() > 0 && tools.last().name != name {
        lemma_tool_position(tools.drop_last(), name);
        assert forall|j: int| 0 <= j < tools.len() - 1 implies tools[j] == tools.drop_last()[j] by {}
    }
}

/// Registering a tool keeps the names of the table distinct.
pub proof fn lemma_register_distinct(tools: Seq<FrontendToolView>, tool: FrontendToolView)
    requires
        distinct_names(tools),
    ensures
        distinct_names(register(tools, tool)),
        tool_position(register(tools, tool), tool.name) is Some,
{
    lemma_tool_position(tools, tool.name);
    let after = register(tools, tool);
    assert forall|a: int, b: int| 0 <= a < b < after.len() implies (#[trigger] after[a]).name != (
    #[trigger] after[b]).name by {
        if b < tools.len() {
            assert(after[a].name == tools[a].name);
            assert(after[b].name == tools[b].name);
        } else {
            assert(after[a] == tools[a]);
        }
    }
    lemma_tool_position(after, tool.name);
    match tool_position(tools, tool.name) {
        Some(i) => {
            assert(after[i].name == tool.name);
        },
        None => {
            assert(after[tools.len() as int].name == tool.name);
        },
    }
}

/// The state that the engine keeps between turns.
pub struct Agent {
    pub(crate) frontend_tools: Vec<FrontendTool>,
    pub(crate) frontend_instructions: Option<String>,
    pub(crate) confirmations: Channel<PermissionConfirmation>,
    pub(crate) tool_results: Channel<ToolResult>,
    pub(crate) tool_monitor: Option<ToolMonitor>,
    pub(crate) router_tool_selector: Option<RouterToolSelectionStrategy>,
}

/// The instructions that stand for a frontend extension that brings none.
pub const DEFAULT_FRONTEND_INSTRUCTIONS: &'static str =
    "The following tools are provided directly by the frontend and will be executed by the frontend when called.";

impl Agent {
    /// The tools of the frontend, in the order in which their names were first registered.
    pub open(crate) spec fn frontend_tools(&self) -> Seq<FrontendToolView> {
        self.frontend_tools.deep_view()
    }

    /// The instructions of the frontend.
    pub open(crate) spec fn frontend_instructions(&self) -> Option<Seq<char>> {
        self.frontend_instructions.deep_view()
    }

    /// The confirmations that were supplied and not yet consumed, oldest first.
    pub open(crate) spec fn confirmations(&self) -> Seq<(String, PermissionConfirmation)> {
        self.confirmations@
    }

    /// The results of frontend tools that were supplied and not yet consumed, oldest first.
    pub open(crate) spec fn tool_results(&self) -> Seq<(String, ToolResult)> {
        self.tool_results@
    }

    /// The repetition monitor, where one is configured.
    pub open(crate) spec fn monitor(&self) -> Option<ToolMonitor> {
        self.tool_monitor
    }

    /// The strategy of the router's selector, where one is configured.
    pub open(crate) spec fn selector(&self) -> Option<RouterToolSelectionStrategy> {
        self.router_tool_selector
    }

    /// Whether the frontend has registered a tool under `name`.
    pub open spec fn has_frontend_tool(&self, name: Seq<char>) -> bool {
        tool_position(self.frontend_tools(), name) is Some
    }

    /// What the agent keeps: a monitor that is well-formed, two channels of capacity 32, and a
    /// table of frontend tools without a repeated name.
    pub open(crate) spec fn wf(&self) -> bool {
        &&& self.confirmations.wf()
        &&& self.confirmations.bound() == CHANNEL_CAPACITY
        &&& self.tool_results.wf()
        &&& self.tool_results.bound() == CHANNEL_CAPACITY
        &&& distinct_names(self.frontend_tools())
        &&& self.tool_monitor matches Some(m) ==> m.wf()
    }

    /// An agent without monitor, selector or frontend tools, with empty channels.
    pub fn new() -> (agent: Agent)
        ensures
            agent.wf(),
            agent.frontend_tools() == Seq::<FrontendToolView>::empty(),
            agent.frontend_instructions() is None,
            agent.confirmations() == Seq::<(String, PermissionConfirmation)>::empty(),
            agent.tool_results() == Seq::<(String, ToolResult)>::empty(),
            agent.monitor() is None,
            agent.selector() is None,
    {
        let agent = Agent {
            frontend_tools: Vec::new(),
            frontend_instructions: None,
            confirmations: Channel::new(CHANNEL_CAPACITY),
            tool_results: Channel::new(CHANNEL_CAPACITY),
            tool_monitor: None,
            router_tool_selector: None,
        };
        assert(agent.frontend_tools() =~= Seq::<FrontendToolView>::empty());
        agent
    }

    /// Whether every part of the agent but the monitor is the same in `self` and `other`.
    pub open spec fn same_but_monitor(&self, other: &Agent) -> bool {
        &&& self.frontend_tools() == other.frontend_tools()
        &&& self.frontend_instructions() == other.frontend_instructions()
        &&& self.confirmations() == other.confirmations()
        &&& self.tool_results() == other.tool_results()
        &&& self.selector() == other.selector()
    }

    /// Installs a fresh repetition monitor with the given maximum; earlier counts are gone.
    pub fn configure_tool_monitor(&mut self, max_repetitions: Option<u32>)
        requires
            old(self).wf(),
        ensures
            final(self).wf(),
            final(self).same_but_monitor(old(self)),
            final(self).monitor() matches Some(m) && m@ == Seq::<(Seq<char>, nat)>::empty()
                && m.max() == max_repetitions,
    {
        self.tool_monitor = Some(ToolMonitor::new(max_repetitions));
    }

    /// The counts of the monitor, or `None` where none is configured.
    pub fn get_tool_stats(&self) -> (stats: Option<Vec<(String, u32)>>)
        ensures
            match self.monitor() {
                Some(m) => stats matches Some(s) && crate::monitor::records_of(s@) == m@,
                None => stats is None,
            },
    {
        match &self.tool_monitor {
            Some(monitor) => Some(monitor.get_stats()),
            None => None,
        }
    }

    /// Clears the counts of the monitor, where one is configured.
    pub fn reset_tool_monitor(&mut self)
        requires
            old(self).wf(),
        ensures
            final(self).wf(),
            final(self).same_but_monitor(old(self)),
            match old(self).monitor() {
                Some(before) => final(self).monitor() matches Some(m) && m@ == Seq::<
                    (Seq<char>, nat),
                >::empty() && m.max() == before.max(),
                None => final(self).monitor() is None,
            },
    {
        match &mut self.tool_monitor {
            Some(monitor) => {
                monitor.reset();
            },
            None => {},
        }
    }

    /// Whether the frontend has registered a tool under `name`.
    pub fn is_frontend_tool(&self, name: &str) -> (found: bool)
        ensures
            found == self.has_frontend_tool(name@),
    {
        self.find_frontend_tool(name).is_some()
    }

    /// The position of the frontend tool registered under `name`.
    pub(crate) fn find_frontend_tool(&self, name: &str) -> (at: Option<usize>)
        ensures
            at.is_some() == self.has_frontend_tool(name@),
            at matches Some(i) ==> tool_position(self.frontend_tools(), name@) == Some(i as int)
                && i < self.frontend_tools.len(),
    {
        let mut i: usize = self.frontend_tools.len();
        let ghost tools = self.frontend_tools();
        proof {
            assert(tools.take(tools.len() as int) =~= tools);
        }
        while i > 0
            invariant
                0 <= i <= self.frontend_tools.len(),
                tools == self.frontend_tools(),
                tools.len() == self.frontend_tools.len(),
                tool_position(tools, name@) == tool_position(tools.take(i as int), name@),
            decreases i,
        {
            i -= 1;
            assert(tools.take(i + 1).last() == tools[i as int]);
            assert(tools.take(i + 1).drop_last() =~= tools.take(i as int));
            if same_text(self.frontend_tools[i].name.as_str(), name) {
                return Some(i);
            }
        }
        None
    }

    /// The frontend tool registered under `name`.
    pub fn get_frontend_tool(&self, name: &str) -> (tool: Option<FrontendTool>)
        ensures
            match tool_position(self.frontend_tools(), name@) {
                Some(i) => tool matches Some(t) && t@ == self.frontend_tools()[i],
                None => tool is None,
            },
    {
        match self.find_frontend_tool(name) {
            Some(i) => {
                Some(self.frontend_tools[i].clone())
            },
            None => None,
        }
    }
}

/// Whether the monitor, where one is configured, turns a call of this fingerprint away.
pub open spec fn turned_away(monitor: Option<ToolMonitor>, fingerprint: Seq<char>) -> bool {
    match monitor {
        Some(m) => !admits(m.count_of(fingerprint), m.max()),
        None => false,
    }
}

/// Whether `after` is `before` with one more occurrence of `fingerprint` recorded.
pub open spec fn recorded(
    before: Option<ToolMonitor>,
    after: Option<ToolMonitor>,
    fingerprint: Seq<char>,
) -> bool {
    match before {
        Some(m) => after matches Some(n) && n@ == record(m@, fingerprint) && n.max() == m.max(),
        None => after is None,
    }
}

impl Agent {
    /// Decides what is to be done with one tool call.
    ///
    /// The call is first shown to the repetition monitor, which counts it whatever comes of it.
    /// A call beyond the limit is refused. Every other call goes to the first handler that
    /// matches its name: the engine's own tools, then the tools of the frontend, then the search
    /// tools of the router, then the extensions.
    pub fn dispatch_tool_call(&mut self, tool_call: ToolCall, request_id: String) -> (out: (
        String,
        Dispatch,
    ))
        requires
            old(self).wf(),
        ensures
            final(self).wf(),
            final(self).same_but_monitor(old(self)),
            out.0 == request_id,
            recorded(old(self).monitor(), final(self).monitor(), tool_call.spec_fingerprint()),
            turned_away(old(self).monitor(), tool_call.spec_fingerprint()) ==> out.1@
                == DispatchView::Refused(ToolErrorView::ExecutionError(REPETITION_ERROR@)),
            !turned_away(old(self).monitor(), tool_call.spec_fingerprint()) ==> out.1@ == plan(
                classify(
                    tool_call.name@,
                    old(self).has_frontend_tool(tool_call.name@),
                    old(self).selector() is Some,
                ),
                tool_call@,
                json_string_member(tool_call.arguments@, "action"@),
                json_string_member(tool_call.arguments@, "extension_name"@),
            ),
    {
        let allowed = match &mut self.tool_monitor {
            Some(monitor) => monitor.check_tool_call(&tool_call),
            None => true,
        };
        if !allowed {
            return (
                request_id,
                Dispatch::Refused(ToolError::ExecutionError(String::from_str(REPETITION_ERROR))),
            );
        }
        let is_frontend = self.is_frontend_tool(tool_call.name.as_str());
        let to = route(tool_call.name.as_str(), is_frontend, self.router_tool_selector.is_some());
        let dispatch = match to {
            Route::ManageExtensions => {
                let extension_name = string_member(tool_call.arguments.as_str(), "extension_name");
                let action = string_member(tool_call.arguments.as_str(), "action");
                plan_call(to, tool_call, action, extension_name)
            },
            _ => plan_call(to, tool_call, None, None),
        };
        (request_id, dispatch)
    }

    /// Takes a confirmation from the user for the request `request_id`. While 32 confirmations
    /// wait, none is taken and this one is handed back: its sender has to wait.
    pub fn handle_confirmation(
        &mut self,
        request_id: String,
        confirmation: PermissionConfirmation,
    ) -> (sent: Result<(), (String, PermissionConfirmation)>)
        requires
            old(self).wf(),
        ensures
            final(self).wf(),
            final(self).frontend_tools() == old(self).frontend_tools(),
            final(self).frontend_instructions() == old(self).frontend_instructions(),
            final(self).tool_results() == old(self).tool_results(),
            final(self).monitor() == old(self).monitor(),
            final(self).selector() == old(self).selector(),
            old(self).confirmations().len() < CHANNEL_CAPACITY ==> sent is Ok && final(self).confirmations() == old(self).confirmations().push((request_id, confirmation)),
            old(self).confirmations().len() >= CHANNEL_CAPACITY ==> sent == Err::<
                (),
                (String, PermissionConfirmation),
            >((request_id, confirmation)) && final(self).confirmations() == old(self).confirmations(),
    {
        self.confirmations.send(request_id, confirmation)
    }

    /// Takes the result of a tool that the frontend ran for the request `id`. While 32 results
    /// wait, none is taken and this one is handed back: its sender has to wait.
    pub fn handle_tool_result(&mut self, id: String, result: ToolResult) -> (sent: Result<
        (),
        (String, ToolResult),
    >)
        requires
            old(self).wf(),
        ensures
            final(self).wf(),
            final(self).frontend_tools() == old(self).frontend_tools(),
            final(self).frontend_instructions() == old(self).frontend_instructions(),
            final(self).confirmations() == old(self).confirmations(),
            final(self).monitor() == old(self).monitor(),
            final(self).selector() == old(self).selector(),
            old(self).tool_results().len() < CHANNEL_CAPACITY ==> sent is Ok && final(self).tool_results() == old(self).tool_results().push((id, result)),
            old(self).tool_results().len() >= CHANNEL_CAPACITY ==> sent == Err::<
                (),
                (String, ToolResult),
            >((id, result)) && final(self).tool_results() == old(self).tool_results(),
    {
        self.tool_results.send(id, result)
    }

    /// Hands out the oldest confirmation that waits for the request `request_id`, whatever was
    /// supplied before it for other requests; those keep their order. `None` where none waits.
    pub fn next_confirmation(&mut self, request_id: &str) -> (taken: Option<
        PermissionConfirmation,
    >)
        requires
            old(self).wf(),
        ensures
            final(self).wf(),
            final(self).frontend_tools() == old(self).frontend_tools(),
            final(self).frontend_instructions() == old(self).frontend_instructions(),
            final(self).tool_results() == old(self).tool_results(),
            final(self).monitor() == old(self).monitor(),
            final(self).selector() == old(self).selector(),
            match first_with(old(self).confirmations(), request_id@) {
                Some(i) => taken == Some(old(self).confirmations()[i].1) && final(self).confirmations() == old(self).confirmations().remove(i),
                None => taken is None && final(self).confirmations() == old(self).confirmations(),
            },
    {
        self.confirmations.take(request_id)
    }

    /// Hands out the oldest result that the frontend supplied for the request `id`; the others
    /// keep their order. `None` where none waits.
    pub fn next_tool_result(&mut self, id: &str) -> (taken: Option<ToolResult>)
        requires
            old(self).wf(),
        ensures
            final(self).wf(),
            final(self).frontend_tools() == old(self).frontend_tools(),
            final(self).frontend_instructions() == old(self).frontend_instructions(),
            final(self).confirmations() == old(self).confirmations(),
            final(self).monitor() == old(self).monitor(),
            final(self).selector() == old(self).selector(),
            match first_with(old(self).tool_results(), id@) {
                Some(i) => taken == Some(old(self).tool_results()[i].1) && final(self).tool_results() == old(self).tool_results().remove(i),
                None => taken is None && final(self).tool_results() == old(self).tool_results(),
            },
    {
        self.tool_results.take(id)
    }
}

impl Agent {
    /// Whether a router selector is configured.
    pub fn has_router_tool_selector(&self) -> (configured: bool)
        ensures
            configured == (self.selector() is Some),
    {
        self.router_tool_selector.is_some()
    }

    /// The strategy of the router selector, where one is configured.
    pub fn router_tool_selection_strategy(&self) -> (strategy: Option<
        RouterToolSelectionStrategy,
    >)
        ensures
            strategy == self.selector(),
    {
        self.router_tool_selector
    }
}

impl Agent {
    /// The instructions of the frontend, where a frontend extension was added.
    pub fn get_frontend_instructions(&self) -> (instructions: Option<String>)
        ensures
            instructions.deep_view() == self.frontend_instructions(),
    {
        match &self.frontend_instructions {
            Some(text) => Some(text.clone()),
            None => None,
        }
    }

    /// The tools of the frontend, in the order in which their names were first registered.
    pub fn get_frontend_tools(&self) -> (tools: Vec<FrontendTool>)
        ensures
            tools.deep_view() == self.frontend_tools(),
    {
        let mut tools: Vec<FrontendTool> = Vec::new();
        let mut i: usize = 0;
        while i < self.frontend_tools.len()
            invariant
                0 <= i <= self.frontend_tools.len(),
                tools@.len() == i,
                forall|j: int| 0 <= j < i ==> (#[trigger] tools@[j])@ == self.frontend_tools@[j]@,
            decreases self.frontend_tools.len() - i,
        {
            tools.push(self.frontend_tools[i].clone());
            i += 1;
        }
        assert(tools.deep_view() =~= self.frontend_tools());
        tools
    }
}

impl Default for Agent {
    /// The same as `Agent::new`.
    fn default() -> (agent: Agent)
        ensures
            agent.wf(),
            agent.frontend_tools() == Seq::<FrontendToolView>::empty(),
            agent.frontend_instructions() is None,
            agent.confirmations() == Seq::<(String, PermissionConfirmation)>::empty(),
            agent.tool_results() == Seq::<(String, ToolResult)>::empty(),
            agent.monitor() is None,
            agent.selector() is None,
    {
        Agent::new()
    }
}

} // verus!
