//! Setting the agent up: its tools, its extensions, its router, and the loop for a reply.
use vstd::prelude::*;
use crate::agent::{
    distinct_names, lemma_register_distinct, register, Agent, FrontendTool, FrontendToolView,
    RouterToolSelectionStrategy, DEFAULT_FRONTEND_INSTRUCTIONS,
};
use crate::catalog::{
    find_tool, list_resources_tool, list_resources_view, listed_tools, llm_search_tool,
    llm_search_view, manage_extensions_tool, platform_tools, read_resource_tool, same_text,
    search_available_extensions_tool, vector_search_tool, vector_search_view, with_recent_calls,
    Tool, ToolView, PLATFORM_EXTENSION_NAME, RECENT_TOOL_CALLS,
};
use crate::extension::{
    index_setup_text, is_disable, join3, ExtensionConfig, ExtensionError, ManageAction,
    ManageExtensions, ManageStage,
};
use crate::ids::id_views;
use crate::message::Message;
use crate::reply::Reply;
use crate::turn::ReplyView;

verus! {

/// The tools of the table, in its order.
pub open spec fn tools_of(table: Seq<FrontendToolView>) -> Seq<ToolView> {
    Seq::new(table.len(), |i: int| table[i].tool)
}

/// The table after each of `tools` was registered under its own name, in their order.
pub open spec fn register_all(table: Seq<FrontendToolView>, tools: Seq<ToolView>) -> Seq<
    FrontendToolView,
>
    decreases tools.len(),
{
    if tools.len() == 0 {
        table
    } else {
        register(
            register_all(table, tools.drop_last()),
            FrontendToolView { name: tools.last().name, tool: tools.last() },
        )
    }
}

pub proof fn lemma_register_all_distinct(table: Seq<FrontendToolView>, tools: Seq<ToolView>)
    requires
        distinct_names(table),
    ensures
        distinct_names(register_all(table, tools)),
    decreases tools.len(),
{
    if tools.len() > 0 {
        lemma_register_all_distinct(table, tools.drop_last());
        lemma_register_distinct(
            register_all(table, tools.drop_last()),
            FrontendToolView { name: tools.last().name, tool: tools.last() },
        );
    }
}

/// The name of a strategy in the configuration, in lower case.
pub open spec fn strategy_of(lowered: Seq<char>) -> Option<RouterToolSelectionStrategy> {
    if lowered == "vector"@ {
        Some(RouterToolSelectionStrategy::Vector)
    } else if lowered == "llm"@ {
        Some(RouterToolSelectionStrategy::Llm)
    } else {
        None
    }
}

/// What `str::to_lowercase` makes of a text.
pub uninterp spec fn lowercase(text: Seq<char>) -> Seq<char>;

/// Trusted: `str::to_lowercase` of std. The contract only gives the outcome its name,
/// `lowercase`.
#[verifier::external_body]
fn to_lowercase(text: &str) -> (lowered: String)
    ensures
        lowered@ == lowercase(text@),
{
    text.to_lowercase()
}

/// The strategy that a configured name in lower case stands for: `vector`, `llm`, or none.
pub fn strategy_from_lowercase(lowered: &str) -> (strategy: Option<RouterToolSelectionStrategy>)
    ensures
        strategy == strategy_of(lowered@),
{
    if same_text(lowered, "vector") {
        Some(RouterToolSelectionStrategy::Vector)
    } else if same_text(lowered, "llm") {
        Some(RouterToolSelectionStrategy::Llm)
    } else {
        None
    }
}

/// The strategy that a configured name stands for, whatever its case.
pub fn parse_strategy(configured: &str) -> (strategy: Option<RouterToolSelectionStrategy>)
    ensures
        strategy == strategy_of(lowercase(configured@)),
{
    let lowered = to_lowercase(configured);
    strategy_from_lowercase(lowered.as_str())
}

/// The mode that the loop runs in where none is configured.
pub const DEFAULT_MODE: &'static str = "auto";

/// What came of setting up a router selector.
#[derive(Debug, PartialEq, Eq)]
pub enum SelectorSetup {
    /// The selector was made and the engine's own tools are in its index.
    Ready,
    /// The selector could not be made.
    CreateFailed(String),
    /// The selector was made, but the engine's own tools could not be indexed.
    IndexFailed(String),
}

/// What the caller is told where the selector could not be made.
pub open spec fn create_failed_text(error: Seq<char>) -> Seq<char> {
    "Failed to create tool selector: "@ + error
}

/// What is to be done next while an extension is added or removed.
#[derive(Debug, PartialEq, Eq)]
pub enum ExtensionStep {
    /// Ask the registry to add the extension.
    Install(ExtensionConfig),
    /// Ask the router's index to add or remove the tools of the extension.
    UpdateIndex { extension_name: String, action: String },
    /// Nothing: this is the outcome.
    Done(Result<(), ExtensionError>),
}

impl ExtensionStep {
    /// The step asks the index to add or remove the tools of the extension `name`.
    pub open spec fn updates_index(self, name: Seq<char>, how: Seq<char>) -> bool {
        self matches ExtensionStep::UpdateIndex { extension_name, action } && extension_name@
            == name && action@ == how
    }

    /// The step is the successful outcome.
    pub open spec fn succeeds(self) -> bool {
        self matches ExtensionStep::Done(Ok(_))
    }

    /// The step is the outcome that the registry failed with `error`.
    pub open spec fn fails_in_registry(self, error: Seq<char>) -> bool {
        self matches ExtensionStep::Done(Err(ExtensionError::Registry(e))) && e@ == error
    }
}

/// The step after the registry has added or removed an extension: its failure is the outcome,
/// and after its success the index follows where a router is active.
pub open spec fn after_registry(
    step: ExtensionStep,
    extension_name: Seq<char>,
    outcome: Result<(), String>,
    router_active: bool,
    how: Seq<char>,
) -> bool {
    match outcome {
        Err(e) => step.fails_in_registry(e@),
        Ok(_) => if router_active {
            step.updates_index(extension_name, how)
        } else {
            step.succeeds()
        },
    }
}

impl Agent {
    /// Whether every part of the agent but the frontend's tools and instructions is the same
    /// in `self` and `other`.
    pub open spec fn same_but_frontend(&self, other: &Agent) -> bool {
        &&& self.confirmations() == other.confirmations()
        &&& self.tool_results() == other.tool_results()
        &&& self.monitor() == other.monitor()
        &&& self.selector() == other.selector()
    }

    /// All tools: those of the extensions as the registry gave them, then those of the
    /// frontend.
    pub fn get_prefixed_tools(&self, extension_tools: Vec<Tool>) -> (tools: Vec<Tool>)
        ensures
            tools.deep_view() == extension_tools.deep_view() + tools_of(self.frontend_tools()),
    {
        let mut tools = extension_tools;
        let ghost base = tools.deep_view();
        let ghost table = self.frontend_tools();
        let mut i: usize = 0;
        assert(tools.deep_view() =~= base + tools_of(table).take(0));
        while i < self.frontend_tools.len()
            invariant
                0 <= i <= self.frontend_tools.len(),
                table == self.frontend_tools(),
                table.len() == self.frontend_tools.len(),
                tools.deep_view() == base + tools_of(table).take(i as int),
            decreases self.frontend_tools.len() - i,
        {
            let ghost before = tools.deep_view();
            let tool = self.frontend_tools[i].tool.clone();
            tools.push(tool);
            assert(tools.deep_view() =~= before.push(tool@));
            assert(tools_of(table).take(i + 1) =~= tools_of(table).take(i as int).push(
                table[i as int].tool,
            ));
            assert(tools.deep_view() =~= base + tools_of(table).take(i + 1));
            i += 1;
        }
        assert(tools_of(table).take(i as int) =~= tools_of(table));
        tools
    }

    /// The tools that are listed for an extension, or for all of them. `prefixed_tools` is
    /// what the registry lists for `extension_name`.
    pub fn list_tools(
        &self,
        extension_name: Option<String>,
        prefixed_tools: Vec<Tool>,
        supports_resources: bool,
    ) -> (tools: Vec<Tool>)
        ensures
            tools.deep_view() == listed_tools(
                extension_name.deep_view(),
                prefixed_tools.deep_view(),
                supports_resources,
            ),
    {
        let mut tools = prefixed_tools;
        let ghost base = tools.deep_view();
        let with_platform = match &extension_name {
            None => true,
            Some(name) => same_text(name.as_str(), PLATFORM_EXTENSION_NAME),
        };
        if with_platform {
            let search = search_available_extensions_tool();
            let manage = manage_extensions_tool();
            tools.push(search);
            tools.push(manage);
            if supports_resources {
                let read = read_resource_tool();
                let list = list_resources_tool();
                tools.push(read);
                tools.push(list);
            }
            assert(tools.deep_view() =~= base + platform_tools(supports_resources));
        }
        tools
    }

    /// The tools that the model sees while a router narrows the catalog: the search tool of
    /// the strategy, and behind it the extension tools that were called recently, 20 at most.
    /// `recent_calls` is what the selector gave as recent calls, `extension_tools` what the
    /// registry lists; each is `None` where it could not be had.
    pub fn list_tools_for_router(
        &self,
        strategy: Option<RouterToolSelectionStrategy>,
        recent_calls: Option<Vec<String>>,
        extension_tools: Option<Vec<Tool>>,
    ) -> (tools: Vec<Tool>)
        ensures
            tools.deep_view() == router_tools(
                strategy,
                match recent_calls {
                    Some(r) => Some(id_views(r@)),
                    None => None,
                },
                extension_tools.deep_view(),
            ),
    {
        let mut tools: Vec<Tool> = Vec::new();
        assert(tools.deep_view() =~= Seq::empty());
        match strategy {
            Some(RouterToolSelectionStrategy::Vector) => {
                let tool = vector_search_tool();
                tools.push(tool);
                assert(tools.deep_view() =~= seq![vector_search_view()]);
            },
            Some(RouterToolSelectionStrategy::Llm) => {
                let tool = llm_search_tool();
                tools.push(tool);
                assert(tools.deep_view() =~= seq![llm_search_view()]);
            },
            None => {},
        }
        match (recent_calls, extension_tools) {
            (Some(recent), Some(known)) => {
                let ghost base = tools.deep_view();
                let ghost names = id_views(recent@);
                let mut i: usize = 0;
                assert(names.take(0) =~= Seq::empty());
                while i < recent.len() && i < RECENT_TOOL_CALLS
                    invariant
                        0 <= i <= recent.len(),
                        i <= RECENT_TOOL_CALLS,
                        names == id_views(recent@),
                        tools.deep_view() == with_recent_calls(
                            base,
                            names.take(i as int),
                            known.deep_view(),
                        ),
                    decreases recent.len() - i,
                {
                    assert(names.take(i + 1).drop_last() =~= names.take(i as int));
                    assert(names.take(i + 1).last() == recent@[i as int]@);
                    let name = recent[i].as_str();
                    match find_tool(&known, name) {
                        Some(k) => {
                            if find_tool(&tools, name).is_none() {
                                let ghost before = tools.deep_view();
                                let tool = known[k].clone();
                                tools.push(tool);
                                assert(tools.deep_view() =~= before.push(known.deep_view()[k as int]));
                            }
                        },
                        None => {},
                    }
                    i += 1;
                }
                assert(names.take(i as int) =~= most_recent(names));
            },
            _ => {},
        }
        tools
    }

    /// Sets the router's selector after it was set up for the configured strategy. Without a
    /// strategy nothing is set up and nothing changes; a failed setup changes nothing either.
    pub fn update_router_tool_selector(
        &mut self,
        strategy: Option<RouterToolSelectionStrategy>,
        setup: SelectorSetup,
    ) -> (outcome: Result<(), String>)
        requires
            old(self).wf(),
        ensures
            final(self).wf(),
            final(self).same_but_selector(old(self)),
            match (strategy, setup) {
                (None, _) => outcome is Ok && final(self).selector() == old(self).selector(),
                (Some(s), SelectorSetup::Ready) => outcome is Ok && final(self).selector() == Some(
                    s,
                ),
                (Some(_), SelectorSetup::CreateFailed(e)) => outcome matches Err(text) && text@
                    == create_failed_text(e@) && final(self).selector() == old(self).selector(),
                (Some(_), SelectorSetup::IndexFailed(e)) => outcome matches Err(text) && text@
                    == e@ && final(self).selector() == old(self).selector(),
            },
    {
        match strategy {
            None => Ok(()),
            Some(s) => match setup {
                SelectorSetup::Ready => {
                    self.router_tool_selector = Some(s);
                    Ok(())
                },
                SelectorSetup::CreateFailed(e) => {
                    let text = join3("Failed to create tool selector: ", e.as_str(), "");
                    proof {
                        reveal_strlit("");
                        assert(text@ =~= create_failed_text(e@));
                    }
                    Err(text)
                },
                SelectorSetup::IndexFailed(e) => Err(e),
            },
        }
    }

    /// Whether every part of the agent but the selector is the same in `self` and `other`.
    pub open spec fn same_but_selector(&self, other: &Agent) -> bool {
        &&& self.frontend_tools() == other.frontend_tools()
        &&& self.frontend_instructions() == other.frontend_instructions()
        &&& self.confirmations() == other.confirmations()
        &&& self.tool_results() == other.tool_results()
        &&& self.monitor() == other.monitor()
    }

    /// The step after the registry has added or removed the extension `extension_name`.
    fn after_registry(&self, extension_name: &str, outcome: Result<(), String>, how: &str) -> (step:
        ExtensionStep)
        ensures
            after_registry(step, extension_name@, outcome, self.selector() is Some, how@),
    {
        match outcome {
            Err(e) => ExtensionStep::Done(Err(ExtensionError::Registry(e))),
            Ok(_) => {
                if self.router_tool_selector.is_some() {
                    ExtensionStep::UpdateIndex {
                        extension_name: String::from_str(extension_name),
                        action: String::from_str(how),
                    }
                } else {
                    ExtensionStep::Done(Ok(()))
                }
            },
        }
    }

    /// Adds an extension. The tools of a frontend extension are registered here, with its
    /// instructions or the default ones, and the index follows where a router is active. Any
    /// other extension has to be installed by the registry first.
    pub fn add_extension(&mut self, extension: ExtensionConfig) -> (step: ExtensionStep)
        requires
            old(self).wf(),
        ensures
            final(self).wf(),
            final(self).same_but_frontend(old(self)),
            match extension {
                ExtensionConfig::Frontend { name, tools, instructions, .. } => {
                    &&& final(self).frontend_tools() == register_all(
                        old(self).frontend_tools(),
                        tools.deep_view(),
                    )
                    &&& final(self).frontend_instructions() == Some(
                        match instructions {
                            Some(text) => text@,
                            None => DEFAULT_FRONTEND_INSTRUCTIONS@,
                        },
                    )
                    &&& after_registry(
                        step,
                        name@,
                        Ok::<(), String>(()),
                        old(self).selector() is Some,
                        "add"@,
                    )
                },
                ExtensionConfig::Remote { .. } => {
                    &&& final(self).frontend_tools() == old(self).frontend_tools()
                    &&& final(self).frontend_instructions() == old(self).frontend_instructions()
                    &&& step == ExtensionStep::Install(extension)
                },
            },
    {
        match extension {
            ExtensionConfig::Frontend { name, tools, instructions, bundled } => {
                let ghost table = self.frontend_tools();
                let ghost all = tools.deep_view();
                let mut i: usize = 0;
                assert(all.take(0) =~= Seq::empty());
                while i < tools.len()
                    invariant
                        0 <= i <= tools.len(),
                        all == tools.deep_view(),
                        table == old(self).frontend_tools(),
                        self.wf(),
                        self.same_but_frontend(old(self)),
                        self.frontend_instructions() == old(self).frontend_instructions(),
                        self.frontend_tools() == register_all(table, all.take(i as int)),
                    decreases tools.len() - i,
                {
                    assert(all.take(i + 1).drop_last() =~= all.take(i as int));
                    assert(all.take(i + 1).last() == tools@[i as int]@);
                    let tool = tools[i].clone();
                    self.register_frontend_tool(FrontendTool { name: tool.name.clone(), tool });
                    i += 1;
                }
                assert(all.take(i as int) =~= all);
                self.frontend_instructions = match instructions {
                    Some(text) => Some(text),
                    None => Some(String::from_str(DEFAULT_FRONTEND_INSTRUCTIONS)),
                };
                self.after_registry(name.as_str(), Ok(()), "add")
            },
            ExtensionConfig::Remote { name, config } => ExtensionStep::Install(
                ExtensionConfig::Remote { name, config },
            ),
        }
    }

    /// Registers one frontend tool under its name.
    fn register_frontend_tool(&mut self, tool: FrontendTool)
        requires
            old(self).wf(),
        ensures
            final(self).wf(),
            final(self).same_but_frontend(old(self)),
            final(self).frontend_instructions() == old(self).frontend_instructions(),
            final(self).frontend_tools() == register(old(self).frontend_tools(), tool@),
    {
        proof {
            lemma_register_distinct(self.frontend_tools(), tool@);
        }
        let ghost before = self.frontend_tools();
        match self.find_frontend_tool(tool.name.as_str()) {
            Some(i) => {
                self.frontend_tools.set(i, tool);
                assert(self.frontend_tools() =~= before.update(i as int, tool@));
            },
            None => {
                self.frontend_tools.push(tool);
                assert(self.frontend_tools() =~= before.push(tool@));
            },
        }
    }

    /// The step after the registry was asked to install an extension.
    pub fn extension_added(&self, extension_name: &str, outcome: Result<(), String>) -> (step:
        ExtensionStep)
        ensures
            after_registry(step, extension_name@, outcome, self.selector() is Some, "add"@),
    {
        self.after_registry(extension_name, outcome, "add")
    }

    /// The step after the registry was asked to remove the extension `name`.
    pub fn remove_extension(&self, name: &str, outcome: Result<(), String>) -> (step:
        ExtensionStep)
        ensures
            after_registry(step, name@, outcome, self.selector() is Some, "remove"@),
    {
        self.after_registry(name, outcome, "remove")
    }

    /// The loop for one reply, on the conversation so far. Without a configured mode the loop
    /// runs in mode `auto`.
    pub fn reply(&self, messages: Vec<Message>, mode: Option<String>) -> (reply: Reply)
        ensures
            reply.wf(),
            reply@ == ReplyView::start(
                match mode {
                    Some(m) => m@,
                    None => DEFAULT_MODE@,
                },
                messages.deep_view(),
            ),
    {
        match mode {
            Some(m) => Reply::new(messages, m),
            None => Reply::new(messages, String::from_str(DEFAULT_MODE)),
        }
    }
}

/// The tools that the model sees while a router narrows the catalog.
pub open spec fn router_tools(
    strategy: Option<RouterToolSelectionStrategy>,
    recent_calls: Option<Seq<Seq<char>>>,
    extension_tools: Option<Seq<ToolView>>,
) -> Seq<ToolView> {
    let base = match strategy {
        Some(RouterToolSelectionStrategy::Vector) => seq![vector_search_view()],
        Some(RouterToolSelectionStrategy::Llm) => seq![llm_search_view()],
        None => Seq::empty(),
    };
    match (recent_calls, extension_tools) {
        (Some(recent), Some(known)) => with_recent_calls(base, most_recent(recent), known),
        _ => base,
    }
}

/// The names that count as recent calls: the first 20 of what the selector gave.
pub open spec fn most_recent(recent_calls: Seq<Seq<char>>) -> Seq<Seq<char>> {
    if recent_calls.len() <= RECENT_TOOL_CALLS {
        recent_calls
    } else {
        recent_calls.take(RECENT_TOOL_CALLS as int)
    }
}

/// The catalog of the router holds its search tool, where a strategy is set, and at most 20
/// tools more.
pub proof fn law_router_catalog_is_bounded(
    strategy: Option<RouterToolSelectionStrategy>,
    recent_calls: Option<Seq<Seq<char>>>,
    extension_tools: Option<Seq<ToolView>>,
)
    ensures
        router_tools(strategy, recent_calls, extension_tools).len() <= RECENT_TOOL_CALLS + 1,
        strategy is None ==> router_tools(strategy, recent_calls, extension_tools).len()
            <= RECENT_TOOL_CALLS,
{
    let base = match strategy {
        Some(RouterToolSelectionStrategy::Vector) => seq![vector_search_view()],
        Some(RouterToolSelectionStrategy::Llm) => seq![llm_search_view()],
        None => Seq::empty(),
    };
    match (recent_calls, extension_tools) {
        (Some(recent), Some(known)) => {
            lemma_with_recent_calls_len(base, most_recent(recent), known);
        },
        _ => {},
    }
}

/// Each recent name adds one tool at most.
proof fn lemma_with_recent_calls_len(
    listed: Seq<ToolView>,
    recent_calls: Seq<Seq<char>>,
    extension_tools: Seq<ToolView>,
)
    ensures
        with_recent_calls(listed, recent_calls, extension_tools).len() <= listed.len()
            + recent_calls.len(),
    decreases recent_calls.len(),
{
    if recent_calls.len() > 0 {
        lemma_with_recent_calls_len(listed, recent_calls.drop_last(), extension_tools);
    }
}

/// The outcome of adding an extension after the index was asked to take its tools: a failure
/// of the index is a setup error that names the extension; the extension stays added.
pub fn extension_indexed(extension_name: &str, outcome: Result<(), String>) -> (done: Result<
    (),
    ExtensionError,
>)
    ensures
        match outcome {
            Ok(_) => done is Ok,
            Err(e) => done matches Err(ExtensionError::SetupError(text)) && text@
                == index_setup_text(extension_name@, e@),
        },
{
    match outcome {
        Ok(_) => Ok(()),
        Err(e) => {
            let mut text = join3("Failed to index tools for extension ", extension_name, ": ");
            text.append(e.as_str());
            Err(ExtensionError::SetupError(text))
        },
    }
}

/// The outcome of removing an extension after the index was asked to drop its tools: a
/// failure of the index is the outcome; the extension stays removed.
pub fn removal_indexed(outcome: Result<(), String>) -> (done: Result<(), ExtensionError>)
    ensures
        match outcome {
            Ok(_) => done is Ok,
            Err(e) => done matches Err(ExtensionError::Index(text)) && text@ == e@,
        },
{
    match outcome {
        Ok(_) => Ok(()),
        Err(e) => Err(ExtensionError::Index(e)),
    }
}

impl Agent {
    /// Begins to enable or disable an extension on the model's request: says what to ask
    /// first, and hands out the handling that takes the answers.
    pub fn manage_extensions(&self, action: String, extension_name: String, request_id: String) -> (out:
        (String, ManageExtensions, ManageAction))
        ensures
            out.0 == request_id,
            out.1.action() == action@,
            out.1.extension_name() == extension_name@,
            out.1.router_enabled() == (self.selector() is Some),
            is_disable(action@) ==> out.1.stage() == ManageStage::Removing && out.2.removes(
                extension_name@,
            ),
            !is_disable(action@) ==> out.1.stage() == ManageStage::LookingUp && out.2.looks_up(
                extension_name@,
            ),
    {
        let (handling, first) = ManageExtensions::start(
            action,
            extension_name,
            self.router_tool_selector.is_some(),
        );
        (request_id, handling, first)
    }
}

} // verus!
