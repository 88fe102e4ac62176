//! Finding the extension that offers a prompt, and describing the tools for planning.
use vstd::prelude::*;
use crate::agent::Agent;
use crate::catalog::{same_text, Tool, ToolView};
use crate::extension::join3;
use crate::ids::{contains_id, id_views};

verus! {

/// The first position in `prompts` of an extension that offers a prompt named `name`.
/// Each entry is the name of an extension with the names of its prompts.
pub open spec fn offering(prompts: Seq<(Seq<char>, Seq<Seq<char>>)>, name: Seq<char>) -> Option<
    int,
>
    decreases prompts.len(),
{
    if prompts.len() == 0 {
        None
    } else if prompts.first().1.contains(name) {
        Some(0)
    } else {
        match offering(prompts.drop_first(), name) {
            Some(i) => Some(i + 1),
            None => None,
        }
    }
}

/// The views of the listed prompts.
pub open spec fn prompt_views(prompts: Seq<(String, Vec<String>)>) -> Seq<
    (Seq<char>, Seq<Seq<char>>),
> {
    Seq::new(prompts.len(), |i: int| (prompts[i].0@, id_views(prompts[i].1@)))
}

pub proof fn lemma_offering(prompts: Seq<(Seq<char>, Seq<Seq<char>>)>, name: Seq<char>)
    ensures
        match offering(prompts, name) {
            Some(i) => 0 <= i < prompts.len() && prompts[i].1.contains(name) && forall|j: int|
                0 <= j < i ==> !(#[trigger] prompts[j]).1.contains(name),
            None => forall|j: int| 0 <= j < prompts.len() ==> !(#[trigger] prompts[j]).1.contains(name),
        },
    decreases prompts.len(),
{
    if prompts.len() > 0 && !prompts.first().1.contains(name) {
        let rest = prompts.drop_first();
        lemma_offering(rest, name);
        match offering(rest, name) {
            Some(i) => {
                assert forall|j: int| 0 <= j < i + 1 implies !(#[trigger] prompts[j]).1.contains(
                    name,
                ) by {
                    if j > 0 {
                        assert(prompts[j] == rest[j - 1]);
                    }
                }
            },
            None => {
                assert forall|j: int| 0 <= j < prompts.len() implies !(
                #[trigger] prompts[j]).1.contains(name) by {
                    if j > 0 {
                        assert(prompts[j] == rest[j - 1]);
                    }
                }
            },
        }
    }
}

/// What the caller is told where the prompts could not be listed.
pub open spec fn list_failed_text(error: Seq<char>) -> Seq<char> {
    "Failed to list prompts: "@ + error
}

/// What the caller is told where the extension failed to give the prompt.
pub open spec fn get_failed_text(error: Seq<char>) -> Seq<char> {
    "Failed to get prompt: "@ + error
}

/// What the caller is told where no extension offers the prompt.
pub open spec fn prompt_not_found_text(name: Seq<char>) -> Seq<char> {
    "Prompt '"@ + name + "' not found"@
}

impl Agent {
    /// The extension to ask for the prompt `name`: the first of the listed extensions that
    /// offers a prompt of that name. `listed` is what the registry lists, extension by
    /// extension, or its failure.
    pub fn get_prompt(&self, name: &str, listed: Result<Vec<(String, Vec<String>)>, String>) -> (extension:
        Result<String, String>)
        ensures
            match listed {
                Err(e) => extension matches Err(text) && text@ == list_failed_text(e@),
                Ok(prompts) => match offering(prompt_views(prompts@), name@) {
                    Some(i) => extension matches Ok(found) && found@ == prompts@[i].0@,
                    None => extension matches Err(text) && text@ == prompt_not_found_text(name@),
                },
            },
    {
        match listed {
            Err(e) => {
                let text = join3("Failed to list prompts: ", e.as_str(), "");
                proof {
                    reveal_strlit("");
                    assert(text@ =~= list_failed_text(e@));
                }
                Err(text)
            },
            Ok(prompts) => {
                let ghost views = prompt_views(prompts@);
                let mut i: usize = 0;
                while i < prompts.len()
                    invariant
                        0 <= i <= prompts.len(),
                        listed == Ok::<Vec<(String, Vec<String>)>, String>(prompts),
                        views == prompt_views(prompts@),
                        forall|j: int| 0 <= j < i ==> !(#[trigger] views[j]).1.contains(name@),
                    decreases prompts.len() - i,
                {
                    if contains_id(&prompts[i].1, name) {
                        proof {
                            assert(views[i as int].1 == id_views(prompts@[i as int].1@));
                            assert(views[i as int].1.contains(name@));
                            lemma_offering(views, name@);
                            let k = offering(views, name@).unwrap();
                            if k < i {
                                assert(!views[k].1.contains(name@));
                            }
                            if k > i {
                                assert(!views[i as int].1.contains(name@));
                            }
                        }
                        return Ok(prompts[i].0.clone());
                    }
                    i += 1;
                }
                proof {
                    lemma_offering(views, name@);
                }
                Err(join3("Prompt '", name, "' not found"))
            },
        }
    }
}

/// The outcome of asking the extension for the prompt: its failure is reported as such.
pub fn prompt_outcome<T>(got: Result<T, String>) -> (outcome: Result<T, String>)
    ensures
        match got {
            Ok(prompt) => outcome == Ok::<T, String>(prompt),
            Err(e) => outcome matches Err(text) && text@ == get_failed_text(e@),
        },
{
    match got {
        Ok(prompt) => Ok(prompt),
        Err(e) => {
            let text = join3("Failed to get prompt: ", e.as_str(), "");
            proof {
                reveal_strlit("");
                assert(text@ =~= get_failed_text(e@));
            }
            Err(text)
        },
    }
}

/// The names of the members of the object that the JSON schema `schema` holds under
/// `properties`, in the order in which `serde_json` keeps them; none where there is no such
/// object.
pub uninterp spec fn json_property_names(schema: Seq<char>) -> Seq<Seq<char>>;

/// Trusted: `serde_json::from_str` into a `serde_json::Value`, then `Value::get` with
/// `properties`, `Value::as_object` and `Map::keys`. The contract only gives the outcome its
/// name, `json_property_names`.
#[verifier::external_body]
fn property_names(schema: &str) -> (names: Vec<String>)
    ensures
        id_views(names@) == json_property_names(schema@),
{
    match serde_json::from_str::<serde_json::Value>(schema) {
        Ok(value) => match value.get("properties") {
            Some(properties) => match properties.as_object() {
                Some(members) => members.keys().cloned().collect(),
                None => Vec::new(),
            },
            None => Vec::new(),
        },
        Err(_) => Vec::new(),
    }
}

/// What the planner is told of a tool.
#[derive(Debug, PartialEq, Eq)]
pub struct ToolInfo {
    pub name: String,
    pub description: String,
    pub parameters: Vec<String>,
}

pub struct ToolInfoView {
    pub name: Seq<char>,
    pub description: Seq<char>,
    pub parameters: Seq<Seq<char>>,
}

impl View for ToolInfo {
    type V = ToolInfoView;

    open spec fn view(&self) -> ToolInfoView {
        ToolInfoView {
            name: self.name@,
            description: self.description@,
            parameters: id_views(self.parameters@),
        }
    }
}

impl ToolInfo {
    pub fn new(name: &str, description: &str, parameters: Vec<String>) -> (info: ToolInfo)
        ensures
            info@ == (ToolInfoView {
                name: name@,
                description: description@,
                parameters: id_views(parameters@),
            }),
    {
        ToolInfo {
            name: String::from_str(name),
            description: String::from_str(description),
            parameters,
        }
    }
}

/// What the planner is told of one tool: its name, its description, and the names of its
/// parameters.
pub open spec fn info_of(tool: ToolView) -> ToolInfoView {
    ToolInfoView {
        name: tool.name,
        description: tool.description,
        parameters: json_property_names(tool.input_schema),
    }
}

/// Describes each tool for the planner, in the order of the tools.
pub fn tools_info(tools: &Vec<Tool>) -> (infos: Vec<ToolInfo>)
    ensures
        infos@.len() == tools@.len(),
        forall|i: int| 0 <= i < tools@.len() ==> (#[trigger] infos@[i])@ == info_of(tools@[i]@),
{
    let mut infos: Vec<ToolInfo> = Vec::new();
    let mut i: usize = 0;
    while i < tools.len()
        invariant
            0 <= i <= tools.len(),
            infos@.len() == i,
            forall|j: int| 0 <= j < i ==> (#[trigger] infos@[j])@ == info_of(tools@[j]@),
        decreases tools.len() - i,
    {
        let parameters = property_names(tools[i].input_schema.as_str());
        infos.push(ToolInfo::new(tools[i].name.as_str(), tools[i].description.as_str(), parameters));
        i += 1;
    }
    infos
}

} // verus!
