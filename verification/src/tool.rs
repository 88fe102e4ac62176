//! The values that travel with a tool call: the call itself, the content it yields and the error
//! it may end in. Each has a view that holds sequences of characters in place of strings; the
//! contracts of the engine are stated over these views.
use vstd::prelude::*;

verus! {

/// A named, argument-bearing request to invoke one capability. `arguments` is JSON text.
#[derive(Debug, PartialEq, Eq)]
pub struct ToolCall {
    pub name: String,
    pub arguments: String,
}

pub struct ToolCallView {
    pub name: Seq<char>,
    pub arguments: Seq<char>,
}

impl View for ToolCall {
    type V = ToolCallView;

    open spec fn view(&self) -> ToolCallView {
        ToolCallView { name: self.name@, arguments: self.arguments@ }
    }
}

impl DeepView for ToolCall {
    type V = ToolCallView;

    open spec fn deep_view(&self) -> ToolCallView {
        self@
    }
}

impl Clone for ToolCall {
    fn clone(&self) -> (copy: ToolCall)
        ensures
            copy@ == self@,
    {
        ToolCall { name: self.name.clone(), arguments: self.arguments.clone() }
    }
}

impl ToolCall {
    pub fn new(name: String, arguments: String) -> (call: ToolCall)
        ensures
            call.name == name,
            call.arguments == arguments,
    {
        ToolCall { name, arguments }
    }
}

/// Why a tool call failed.
#[derive(Debug, PartialEq, Eq)]
pub enum ToolError {
    InvalidParameters(String),
    ExecutionError(String),
    SchemaError(String),
    NotFound(String),
}

pub enum ToolErrorView {
    InvalidParameters(Seq<char>),
    ExecutionError(Seq<char>),
    SchemaError(Seq<char>),
    NotFound(Seq<char>),
}

impl View for ToolError {
    type V = ToolErrorView;

    open spec fn view(&self) -> ToolErrorView {
        match self {
            ToolError::InvalidParameters(s) => ToolErrorView::InvalidParameters(s@),
            ToolError::ExecutionError(s) => ToolErrorView::ExecutionError(s@),
            ToolError::SchemaError(s) => ToolErrorView::SchemaError(s@),
            ToolError::NotFound(s) => ToolErrorView::NotFound(s@),
        }
    }
}

impl DeepView for ToolError {
    type V = ToolErrorView;

    open spec fn deep_view(&self) -> ToolErrorView {
        self@
    }
}

impl Clone for ToolError {
    fn clone(&self) -> (copy: ToolError)
        ensures
            copy@ == self@,
    {
        match self {
            ToolError::InvalidParameters(s) => ToolError::InvalidParameters(s.clone()),
            ToolError::ExecutionError(s) => ToolError::ExecutionError(s.clone()),
            ToolError::SchemaError(s) => ToolError::SchemaError(s.clone()),
            ToolError::NotFound(s) => ToolError::NotFound(s.clone()),
        }
    }
}

impl ToolError {
    /// The message the error carries.
    pub fn message(&self) -> (text: String)
        ensures
            text@ == match self@ {
                ToolErrorView::InvalidParameters(s) => s,
                ToolErrorView::ExecutionError(s) => s,
                ToolErrorView::SchemaError(s) => s,
                ToolErrorView::NotFound(s) => s,
            },
    {
        match self {
            ToolError::InvalidParameters(s) => s.clone(),
            ToolError::ExecutionError(s) => s.clone(),
            ToolError::SchemaError(s) => s.clone(),
            ToolError::NotFound(s) => s.clone(),
        }
    }
}

/// One piece of what a tool call yields.
#[derive(Debug, PartialEq, Eq)]
pub enum Content {
    Text(String),
    Image { data: String, mime_type: String },
    Resource { uri: String, text: String },
}

pub enum ContentView {
    Text(Seq<char>),
    Image { data: Seq<char>, mime_type: Seq<char> },
    Resource { uri: Seq<char>, text: Seq<char> },
}

impl View for Content {
    type V = ContentView;

    open spec fn view(&self) -> ContentView {
        match self {
            Content::Text(s) => ContentView::Text(s@),
            Content::Image { data, mime_type } => ContentView::Image {
                data: data@,
                mime_type: mime_type@,
            },
            Content::Resource { uri, text } => ContentView::Resource { uri: uri@, text: text@ },
        }
    }
}

impl DeepView for Content {
    type V = ContentView;

    open spec fn deep_view(&self) -> ContentView {
        self@
    }
}

impl Clone for Content {
    fn clone(&self) -> (copy: Content)
        ensures
            copy@ == self@,
    {
        match self {
            Content::Text(s) => Content::Text(s.clone()),
            Content::Image { data, mime_type } => Content::Image {
                data: data.clone(),
                mime_type: mime_type.clone(),
            },
            Content::Resource { uri, text } => Content::Resource {
                uri: uri.clone(),
                text: text.clone(),
            },
        }
    }
}

impl Content {
    /// A piece of text.
    pub fn text(s: &str) -> (content: Content)
        ensures
            content@ == ContentView::Text(s@),
    {
        Content::Text(String::from_str(s))
    }
}

/// What a tool call ends in: the content it yielded, or the error it failed with.
pub type ToolResult = Result<Vec<Content>, ToolError>;

pub type ToolResultView = Result<Seq<ContentView>, ToolErrorView>;

/// The view of a result.
pub open spec fn result_view(result: ToolResult) -> ToolResultView {
    match result {
        Ok(contents) => Ok(contents.deep_view()),
        Err(e) => Err(e@),
    }
}

/// The result that holds one piece of text.
pub open spec fn text_result(text: Seq<char>) -> ToolResultView {
    Ok(seq![ContentView::Text(text)])
}

/// The result of a call that failed in execution with `message`.
pub open spec fn execution_error(message: Seq<char>) -> ToolResultView {
    Err(ToolErrorView::ExecutionError(message))
}

/// Copies a list of content.
pub fn clone_contents(contents: &Vec<Content>) -> (copy: Vec<Content>)
    ensures
        copy.deep_view() == contents.deep_view(),
{
    let mut copy: Vec<Content> = Vec::new();
    let mut i: usize = 0;
    while i < contents.len()
        invariant
            0 <= i <= contents.len(),
            copy@.len() == i,
            forall|j: int| 0 <= j < i ==> (#[trigger] copy@[j])@ == contents@[j]@,
        decreases contents.len() - i,
    {
        copy.push(contents[i].clone());
        i += 1;
    }
    assert(copy.deep_view() =~= contents.deep_view());
    copy
}

/// Copies a result.
pub fn clone_result(result: &ToolResult) -> (copy: ToolResult)
    ensures
        result_view(copy) == result_view(*result),
{
    match result {
        Ok(contents) => Ok(clone_contents(contents)),
        Err(e) => Err(e.clone()),
    }
}

/// Makes the result that holds one piece of text.
pub fn make_text_result(text: &str) -> (result: ToolResult)
    ensures
        result_view(result) == text_result(text@),
{
    let mut contents: Vec<Content> = Vec::new();
    contents.push(Content::text(text));
    assert(contents.deep_view() =~= seq![ContentView::Text(text@)]);
    Ok(contents)
}

} // verus!
