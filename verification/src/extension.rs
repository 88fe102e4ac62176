//! Enabling and disabling extensions on the model's request: what to ask of the extension
//! registry, the store of configurations and the router's index, in which order, and what to
//! answer the model.
use vstd::prelude::*;
use crate::catalog::{same_text, Tool};
use crate::tool::{
    execution_error, result_view, text_result, ToolError, ToolResult, ToolResultView,
};

verus! {

/// The configuration of an extension. Of an extension that the engine does not run itself only
/// the name is read here; `config` carries the rest as JSON text.
#[derive(Debug, PartialEq, Eq)]
pub enum ExtensionConfig {
    Frontend { name: String, tools: Vec<Tool>, instructions: Option<String>, bundled: Option<bool> },
    Remote { name: String, config: String },
}

impl ExtensionConfig {
    /// The name of the extension.
    pub open spec fn spec_name(&self) -> Seq<char> {
        match self {
            ExtensionConfig::Frontend { name, .. } => name@,
            ExtensionConfig::Remote { name, .. } => name@,
        }
    }

    pub fn name(&self) -> (name: String)
        ensures
            name@ == self.spec_name(),
    {
        match self {
            ExtensionConfig::Frontend { name, .. } => name.clone(),
            ExtensionConfig::Remote { name, .. } => name.clone(),
        }
    }
}

/// Why an extension could not be set up.
#[derive(Debug, PartialEq, Eq)]
pub enum ExtensionError {
    /// The registry failed to add or remove the extension.
    Registry(String),
    /// The extension was added, but its tools could not be indexed.
    SetupError(String),
    /// The extension was removed, but its tools could not be taken out of the index.
    Index(String),
}

/// `a`, then `b`, then `c`.
pub fn join3(a: &str, b: &str, c: &str) -> (joined: String)
    ensures
        joined@ == a@ + b@ + c@,
{
    let mut joined = String::from_str(a);
    joined.append(b);
    joined.append(c);
    joined
}

/// What the model is told after an extension was disabled.
pub open spec fn disabled_text(extension_name: Seq<char>) -> Seq<char> {
    "The extension '"@ + extension_name + "' has been disabled successfully"@
}

/// What the model is told after an extension was installed.
pub open spec fn installed_text(extension_name: Seq<char>) -> Seq<char> {
    "The extension '"@ + extension_name + "' has been installed successfully"@
}

/// What the model is told where no configuration is stored under the name.
pub open spec fn not_found_text(extension_name: Seq<char>) -> Seq<char> {
    "Extension '"@ + extension_name
        + "' not found. Please check the extension name and try again."@
}

/// What the model is told where the store of configurations failed.
pub open spec fn lookup_failed_text(error: Seq<char>) -> Seq<char> {
    "Failed to get extension config: "@ + error
}

/// What the model is told where the router's index could not be updated.
pub open spec fn index_failed_text(error: Seq<char>) -> Seq<char> {
    "Failed to update vector index: "@ + error
}

/// What a caller of `add_extension` is told where the tools could not be indexed.
pub open spec fn index_setup_text(extension_name: Seq<char>, error: Seq<char>) -> Seq<char> {
    "Failed to index tools for extension "@ + extension_name + ": "@ + error
}

/// Whether the action asks to disable the extension. Every other action asks to enable it.
pub open spec fn is_disable(action: Seq<char>) -> bool {
    action == "disable"@
}

/// What the index is asked to do with the tools of an extension after `action`.
pub open spec fn index_action(action: Seq<char>) -> Seq<char> {
    if is_disable(action) {
        "remove"@
    } else {
        "add"@
    }
}

/// What the model is told after `action` succeeded on the extension.
pub open spec fn success_text(action: Seq<char>, extension_name: Seq<char>) -> Seq<char> {
    if is_disable(action) {
        disabled_text(extension_name)
    } else {
        installed_text(extension_name)
    }
}

/// Where the handling of one request to manage an extension stands.
#[derive(Clone, Copy, Debug, PartialEq, Eq, Structural)]
pub enum ManageStage {
    /// The registry was asked to remove the extension.
    Removing,
    /// The store was asked for the configuration.
    LookingUp,
    /// The registry was asked to add the extension.
    Installing,
    /// The extension was added or removed; the index was asked to follow.
    Indexing,
    /// The model has its answer.
    Finished,
}

/// What the engine asks for next.
#[derive(Debug, PartialEq, Eq)]
pub enum ManageAction {
    RemoveExtension(String),
    LookupConfig(String),
    AddExtension(ExtensionConfig),
    UpdateIndex { extension_name: String, action: String },
    Finish(ToolResult),
}

impl ManageAction {
    /// The action ends the handling with `result` as the answer for the model.
    pub open spec fn finishes_with(self, result: ToolResultView) -> bool {
        self matches ManageAction::Finish(r) && result_view(r) == result
    }

    /// The action asks the registry to remove the extension `name`.
    pub open spec fn removes(self, name: Seq<char>) -> bool {
        self matches ManageAction::RemoveExtension(n) && n@ == name
    }

    /// The action asks the store for the configuration of `name`.
    pub open spec fn looks_up(self, name: Seq<char>) -> bool {
        self matches ManageAction::LookupConfig(n) && n@ == name
    }

    /// The action asks the index to add or remove the tools of the extension `name`.
    pub open spec fn updates_index(self, name: Seq<char>, how: Seq<char>) -> bool {
        self matches ManageAction::UpdateIndex { extension_name, action } && extension_name@
            == name && action@ == how
    }
}

/// What came back from the collaborator that was asked. An error carries its text.
#[derive(Debug, PartialEq, Eq)]
pub enum ManageEvent {
    Removed(Result<(), String>),
    Config(Result<Option<ExtensionConfig>, String>),
    Added(Result<(), String>),
    Indexed(Result<(), String>),
}

/// The handling of one request to manage an extension.
pub struct ManageExtensions {
    action: String,
    extension_name: String,
    router_enabled: bool,
    stage: ManageStage,
}

impl ManageExtensions {
    pub closed spec fn action(&self) -> Seq<char> {
        self.action@
    }

    pub closed spec fn extension_name(&self) -> Seq<char> {
        self.extension_name@
    }

    pub closed spec fn router_enabled(&self) -> bool {
        self.router_enabled
    }

    pub closed spec fn stage(&self) -> ManageStage {
        self.stage
    }

    /// Whether `event` is the answer that this stage waits for.
    pub open spec fn awaits(&self, event: ManageEvent) -> bool {
        match (self.stage(), event) {
            (ManageStage::Removing, ManageEvent::Removed(_)) => true,
            (ManageStage::LookingUp, ManageEvent::Config(_)) => true,
            (ManageStage::Installing, ManageEvent::Added(_)) => true,
            (ManageStage::Indexing, ManageEvent::Indexed(_)) => true,
            _ => false,
        }
    }

    /// The stage as plain value.
    pub fn current_stage(&self) -> (stage: ManageStage)
        ensures
            stage == self.stage(),
    {
        self.stage
    }

    /// Begins: `disable` removes the extension at once; any other action first looks up the
    /// stored configuration of that name.
    pub fn start(action: String, extension_name: String, router_enabled: bool) -> (started: (
        ManageExtensions,
        ManageAction,
    ))
        ensures
            started.0.action() == action@,
            started.0.extension_name() == extension_name@,
            started.0.router_enabled() == router_enabled,
            is_disable(action@) ==> started.0.stage() == ManageStage::Removing
                && started.1.removes(extension_name@),
            !is_disable(action@) ==> started.0.stage() == ManageStage::LookingUp
                && started.1.looks_up(extension_name@),
    {
        let name = extension_name.clone();
        if same_text(action.as_str(), "disable") {
            (
                ManageExtensions {
                    action,
                    extension_name,
                    router_enabled,
                    stage: ManageStage::Removing,
                },
                ManageAction::RemoveExtension(name),
            )
        } else {
            (
                ManageExtensions {
                    action,
                    extension_name,
                    router_enabled,
                    stage: ManageStage::LookingUp,
                },
                ManageAction::LookupConfig(name),
            )
        }
    }

    /// The answer for the model after the extension was added or removed.
    fn success(&self) -> (result: ToolResult)
        ensures
            result_view(result) == text_result(success_text(self.action(), self.extension_name())),
    {
        let text = if same_text(self.action.as_str(), "disable") {
            join3("The extension '", self.extension_name.as_str(), "' has been disabled successfully")
        } else {
            join3(
                "The extension '",
                self.extension_name.as_str(),
                "' has been installed successfully",
            )
        };
        crate::tool::make_text_result(text.as_str())
    }

    /// After the registry added or removed the extension: its failure is the answer; after its
    /// success the index follows where a router is active, and else the success is the answer.
    fn after_change(&mut self, outcome: Result<(), String>) -> (next: ManageAction)
        ensures
            final(self).action() == old(self).action(),
            final(self).extension_name() == old(self).extension_name(),
            final(self).router_enabled() == old(self).router_enabled(),
            match outcome {
                Err(e) => final(self).stage() == ManageStage::Finished && next.finishes_with(
                    execution_error(e@),
                ),
                Ok(_) => if old(self).router_enabled() {
                    final(self).stage() == ManageStage::Indexing && next.updates_index(
                        old(self).extension_name(),
                        index_action(old(self).action()),
                    )
                } else {
                    final(self).stage() == ManageStage::Finished && next.finishes_with(
                        text_result(success_text(old(self).action(), old(self).extension_name())),
                    )
                },
            },
    {
        match outcome {
            Err(e) => {
                self.stage = ManageStage::Finished;
                ManageAction::Finish(Err(ToolError::ExecutionError(e)))
            },
            Ok(_) => {
                if self.router_enabled {
                    self.stage = ManageStage::Indexing;
                    let action = if same_text(self.action.as_str(), "disable") {
                        String::from_str("remove")
                    } else {
                        String::from_str("add")
                    };
                    ManageAction::UpdateIndex { extension_name: self.extension_name.clone(), action }
                } else {
                    self.stage = ManageStage::Finished;
                    ManageAction::Finish(self.success())
                }
            },
        }
    }

    /// Takes the answer of the collaborator that was asked and says what to do next. An answer
    /// that the stage does not wait for changes nothing and yields `None`.
    ///
    /// The index is asked only after the registry has added or removed the extension. Where the
    /// index then fails, the model is told of that failure alone; the extension stays as the
    /// registry left it.
    pub fn step(&mut self, event: ManageEvent) -> (next: Option<ManageAction>)
        ensures
            final(self).action() == old(self).action(),
            final(self).extension_name() == old(self).extension_name(),
            final(self).router_enabled() == old(self).router_enabled(),
            !old(self).awaits(event) ==> next is None && final(self).stage() == old(self).stage(),
            old(self).awaits(event) ==> next is Some,
            old(self).awaits(event) ==> match event {
                ManageEvent::Config(Ok(Some(config))) => final(self).stage()
                    == ManageStage::Installing && next == Some(ManageAction::AddExtension(config)),
                ManageEvent::Config(Ok(None)) => final(self).stage() == ManageStage::Finished
                    && next.unwrap().finishes_with(
                    execution_error(not_found_text(old(self).extension_name())),
                ),
                ManageEvent::Config(Err(e)) => final(self).stage() == ManageStage::Finished
                    && next.unwrap().finishes_with(execution_error(lookup_failed_text(e@))),
                ManageEvent::Removed(Err(e)) | ManageEvent::Added(Err(e)) => final(self).stage()
                    == ManageStage::Finished && next.unwrap().finishes_with(execution_error(e@)),
                ManageEvent::Removed(Ok(_)) | ManageEvent::Added(Ok(_)) => if old(
                    self,
                ).router_enabled() {
                    final(self).stage() == ManageStage::Indexing && next.unwrap().updates_index(
                        old(self).extension_name(),
                        index_action(old(self).action()),
                    )
                } else {
                    final(self).stage() == ManageStage::Finished && next.unwrap().finishes_with(
                        text_result(success_text(old(self).action(), old(self).extension_name())),
                    )
                },
                ManageEvent::Indexed(Err(e)) => final(self).stage() == ManageStage::Finished
                    && next.unwrap().finishes_with(execution_error(index_failed_text(e@))),
                ManageEvent::Indexed(Ok(_)) => final(self).stage() == ManageStage::Finished
                    && next.unwrap().finishes_with(
                    text_result(success_text(old(self).action(), old(self).extension_name())),
                ),
            },
    {
        match (self.stage, event) {
            (ManageStage::Removing, ManageEvent::Removed(outcome)) => Some(
                self.after_change(outcome),
            ),
            (ManageStage::Installing, ManageEvent::Added(outcome)) => Some(
                self.after_change(outcome),
            ),
            (ManageStage::LookingUp, ManageEvent::Config(found)) => {
                match found {
                    Ok(Some(config)) => {
                        self.stage = ManageStage::Installing;
                        Some(ManageAction::AddExtension(config))
                    },
                    Ok(None) => {
                        self.stage = ManageStage::Finished;
                        let text = join3(
                            "Extension '",
                            self.extension_name.as_str(),
                            "' not found. Please check the extension name and try again.",
                        );
                        Some(ManageAction::Finish(Err(ToolError::ExecutionError(text))))
                    },
                    Err(e) => {
                        self.stage = ManageStage::Finished;
                        let text = join3("Failed to get extension config: ", e.as_str(), "");
                        proof {
                            reveal_strlit("");
                            assert(text@ =~= lookup_failed_text(e@));
                        }
                        Some(ManageAction::Finish(Err(ToolError::ExecutionError(text))))
                    },
                }
            },
            (ManageStage::Indexing, ManageEvent::Indexed(outcome)) => {
                self.stage = ManageStage::Finished;
                match outcome {
                    Ok(_) => Some(ManageAction::Finish(self.success())),
                    Err(e) => {
                        let text = join3("Failed to update vector index: ", e.as_str(), "");
                        proof {
                            reveal_strlit("");
                            assert(text@ =~= index_failed_text(e@));
                        }
                        Some(ManageAction::Finish(Err(ToolError::ExecutionError(text))))
                    },
                }
            },
            _ => None,
        }
    }
}

} // verus!
