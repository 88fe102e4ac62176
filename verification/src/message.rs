//! Conversation messages and the events the engine hands to its caller.
use vstd::prelude::*;
use crate::tool::{
    clone_result, result_view, ToolCall, ToolCallView, ToolError, ToolErrorView, ToolResult,
    ToolResultView,
};

verus! {

/// The view of a call that may have failed to parse.
pub open spec fn call_view(call: Result<ToolCall, ToolError>) -> Result<
    ToolCallView,
    ToolErrorView,
> {
    match call {
        Ok(c) => Ok(c@),
        Err(e) => Err(e@),
    }
}

/// One tool invocation that the model asked for. `id` is unique within its turn.
#[derive(Debug, PartialEq, Eq)]
pub struct ToolRequest {
    pub id: String,
    pub tool_call: Result<ToolCall, ToolError>,
}

pub struct ToolRequestView {
    pub id: Seq<char>,
    pub tool_call: Result<ToolCallView, ToolErrorView>,
}

impl View for ToolRequest {
    type V = ToolRequestView;

    open spec fn view(&self) -> ToolRequestView {
        ToolRequestView { id: self.id@, tool_call: call_view(self.tool_call) }
    }
}

impl DeepView for ToolRequest {
    type V = ToolRequestView;

    open spec fn deep_view(&self) -> ToolRequestView {
        self@
    }
}

impl Clone for ToolRequest {
    fn clone(&self) -> (copy: ToolRequest)
        ensures
            copy@ == self@,
    {
        let tool_call = match &self.tool_call {
            Ok(c) => Ok(c.clone()),
            Err(e) => Err(e.clone()),
        };
        ToolRequest { id: self.id.clone(), tool_call }
    }
}

/// The answer to one tool request.
#[derive(Debug, PartialEq, Eq)]
pub struct ToolResponse {
    pub id: String,
    pub tool_result: ToolResult,
}

pub struct ToolResponseView {
    pub id: Seq<char>,
    pub tool_result: ToolResultView,
}

impl View for ToolResponse {
    type V = ToolResponseView;

    open spec fn view(&self) -> ToolResponseView {
        ToolResponseView { id: self.id@, tool_result: result_view(self.tool_result) }
    }
}

impl DeepView for ToolResponse {
    type V = ToolResponseView;

    open spec fn deep_view(&self) -> ToolResponseView {
        self@
    }
}

impl Clone for ToolResponse {
    fn clone(&self) -> (copy: ToolResponse)
        ensures
            copy@ == self@,
    {
        ToolResponse { id: self.id.clone(), tool_result: clone_result(&self.tool_result) }
    }
}

/// A question to the user whether a tool may be called.
#[derive(Debug, PartialEq, Eq)]
pub struct ToolConfirmationRequest {
    pub id: String,
    pub tool_name: String,
    pub arguments: String,
    pub prompt: Option<String>,
}

pub struct ToolConfirmationRequestView {
    pub id: Seq<char>,
    pub tool_name: Seq<char>,
    pub arguments: Seq<char>,
    pub prompt: Option<Seq<char>>,
}

impl View for ToolConfirmationRequest {
    type V = ToolConfirmationRequestView;

    open spec fn view(&self) -> ToolConfirmationRequestView {
        ToolConfirmationRequestView {
            id: self.id@,
            tool_name: self.tool_name@,
            arguments: self.arguments@,
            prompt: self.prompt.deep_view(),
        }
    }
}

impl Clone for ToolConfirmationRequest {
    fn clone(&self) -> (copy: ToolConfirmationRequest)
        ensures
            copy@ == self@,
    {
        let prompt = match &self.prompt {
            Some(p) => Some(p.clone()),
            None => None,
        };
        ToolConfirmationRequest {
            id: self.id.clone(),
            tool_name: self.tool_name.clone(),
            arguments: self.arguments.clone(),
            prompt,
        }
    }
}

/// One part of a message.
#[derive(Debug, PartialEq, Eq)]
pub enum MessageContent {
    Text(String),
    ToolRequest(ToolRequest),
    ToolResponse(ToolResponse),
    ToolConfirmationRequest(ToolConfirmationRequest),
    FrontendToolRequest(ToolRequest),
    ContextLengthExceeded(String),
}

pub enum MessageContentView {
    Text(Seq<char>),
    ToolRequest(ToolRequestView),
    ToolResponse(ToolResponseView),
    ToolConfirmationRequest(ToolConfirmationRequestView),
    FrontendToolRequest(ToolRequestView),
    ContextLengthExceeded(Seq<char>),
}

impl View for MessageContent {
    type V = MessageContentView;

    open spec fn view(&self) -> MessageContentView {
        match self {
            MessageContent::Text(s) => MessageContentView::Text(s@),
            MessageContent::ToolRequest(r) => MessageContentView::ToolRequest(r@),
            MessageContent::ToolResponse(r) => MessageContentView::ToolResponse(r@),
            MessageContent::ToolConfirmationRequest(r) => MessageContentView::ToolConfirmationRequest(
                r@,
            ),
            MessageContent::FrontendToolRequest(r) => MessageContentView::FrontendToolRequest(r@),
            MessageContent::ContextLengthExceeded(s) => MessageContentView::ContextLengthExceeded(
                s@,
            ),
        }
    }
}

impl DeepView for MessageContent {
    type V = MessageContentView;

    open spec fn deep_view(&self) -> MessageContentView {
        self@
    }
}

impl Clone for MessageContent {
    fn clone(&self) -> (copy: MessageContent)
        ensures
            copy@ == self@,
    {
        match self {
            MessageContent::Text(s) => MessageContent::Text(s.clone()),
            MessageContent::ToolRequest(r) => MessageContent::ToolRequest(r.clone()),
            MessageContent::ToolResponse(r) => MessageContent::ToolResponse(r.clone()),
            MessageContent::ToolConfirmationRequest(r) => MessageContent::ToolConfirmationRequest(
                r.clone(),
            ),
            MessageContent::FrontendToolRequest(r) => MessageContent::FrontendToolRequest(
                r.clone(),
            ),
            MessageContent::ContextLengthExceeded(s) => MessageContent::ContextLengthExceeded(
                s.clone(),
            ),
        }
    }
}

/// Who speaks in a message.
#[derive(Clone, Copy, Debug, PartialEq, Eq, Structural)]
pub enum Role {
    User,
    Assistant,
}

/// One message of the conversation. `created` is the time it was made at, in seconds.
#[derive(Debug, PartialEq, Eq)]
pub struct Message {
    pub role: Role,
    pub created: i64,
    pub content: Vec<MessageContent>,
}

pub struct MessageView {
    pub role: Role,
    pub created: i64,
    pub content: Seq<MessageContentView>,
}

impl View for Message {
    type V = MessageView;

    open spec fn view(&self) -> MessageView {
        MessageView { role: self.role, created: self.created, content: self.content.deep_view() }
    }
}

impl DeepView for Message {
    type V = MessageView;

    open spec fn deep_view(&self) -> MessageView {
        self@
    }
}

impl MessageView {
    /// The message with one more part at its end.
    pub open spec fn with(self, part: MessageContentView) -> MessageView {
        MessageView { content: self.content.push(part), ..self }
    }

    /// The message with the answer to request `id` at its end.
    pub open spec fn with_tool_response(self, id: Seq<char>, result: ToolResultView) -> MessageView {
        self.with(MessageContentView::ToolResponse(ToolResponseView { id, tool_result: result }))
    }

    /// The message without parts.
    pub open spec fn empty(role: Role, created: i64) -> MessageView {
        MessageView { role, created, content: Seq::empty() }
    }
}

/// The ids of the tool responses among `content`, in their order.
pub open spec fn response_ids(content: Seq<MessageContentView>) -> Seq<Seq<char>>
    decreases content.len(),
{
    if content.len() == 0 {
        Seq::empty()
    } else {
        match content.last() {
            MessageContentView::ToolResponse(r) => response_ids(content.drop_last()).push(r.id),
            _ => response_ids(content.drop_last()),
        }
    }
}

/// The tool requests among `content`, in their order.
pub open spec fn tool_requests(content: Seq<MessageContentView>) -> Seq<ToolRequestView>
    decreases content.len(),
{
    if content.len() == 0 {
        Seq::empty()
    } else {
        match content.last() {
            MessageContentView::ToolRequest(r) => tool_requests(content.drop_last()).push(r),
            _ => tool_requests(content.drop_last()),
        }
    }
}

impl Clone for Message {
    fn clone(&self) -> (copy: Message)
        ensures
            copy@ == self@,
    {
        let mut content: Vec<MessageContent> = Vec::new();
        let mut i: usize = 0;
        while i < self.content.len()
            invariant
                0 <= i <= self.content.len(),
                content@.len() == i,
                forall|j: int| 0 <= j < i ==> (#[trigger] content@[j])@ == self.content@[j]@,
            decreases self.content.len() - i,
        {
            content.push(self.content[i].clone());
            i += 1;
        }
        assert(content.deep_view() =~= self.content.deep_view());
        Message { role: self.role, created: self.created, content }
    }
}

impl Message {
    /// An empty message of the user, made at `created`.
    pub fn user(created: i64) -> (message: Message)
        ensures
            message@ == MessageView::empty(Role::User, created),
    {
        let message = Message { role: Role::User, created, content: Vec::new() };
        assert(message.content.deep_view() =~= Seq::empty());
        message
    }

    /// An empty message of the assistant, made at `created`.
    pub fn assistant(created: i64) -> (message: Message)
        ensures
            message@ == MessageView::empty(Role::Assistant, created),
    {
        let message = Message { role: Role::Assistant, created, content: Vec::new() };
        assert(message.content.deep_view() =~= Seq::empty());
        message
    }

    /// The message with one more part at its end.
    pub fn with_content(self, part: MessageContent) -> (message: Message)
        ensures
            message@ == self@.with(part@),
    {
        let mut message = self;
        message.content.push(part);
        assert(message.content.deep_view() =~= self.content.deep_view().push(part@));
        message
    }

    /// The message with a piece of text at its end.
    pub fn with_text(self, text: String) -> (message: Message)
        ensures
            message@ == self@.with(MessageContentView::Text(text@)),
    {
        self.with_content(MessageContent::Text(text))
    }

    /// The message with a tool request at its end.
    pub fn with_tool_request(self, id: String, tool_call: Result<ToolCall, ToolError>) -> (message:
        Message)
        ensures
            message@ == self@.with(
                MessageContentView::ToolRequest(
                    ToolRequestView { id: id@, tool_call: call_view(tool_call) },
                ),
            ),
    {
        self.with_content(MessageContent::ToolRequest(ToolRequest { id, tool_call }))
    }

    /// The message with the answer to request `id` at its end.
    pub fn with_tool_response(self, id: String, result: ToolResult) -> (message: Message)
        ensures
            message@ == self@.with_tool_response(id@, result_view(result)),
    {
        self.with_content(MessageContent::ToolResponse(ToolResponse { id, tool_result: result }))
    }

    /// The message with a question to the user at its end.
    pub fn with_tool_confirmation_request(
        self,
        id: String,
        tool_name: String,
        arguments: String,
        prompt: Option<String>,
    ) -> (message: Message)
        ensures
            message@ == self@.with(
                MessageContentView::ToolConfirmationRequest(
                    ToolConfirmationRequestView {
                        id: id@,
                        tool_name: tool_name@,
                        arguments: arguments@,
                        prompt: prompt.deep_view(),
                    },
                ),
            ),
    {
        self.with_content(
            MessageContent::ToolConfirmationRequest(
                ToolConfirmationRequest { id, tool_name, arguments, prompt },
            ),
        )
    }

    /// The message with a request to the frontend at its end.
    pub fn with_frontend_tool_request(
        self,
        id: String,
        tool_call: Result<ToolCall, ToolError>,
    ) -> (message: Message)
        ensures
            message@ == self@.with(
                MessageContentView::FrontendToolRequest(
                    ToolRequestView { id: id@, tool_call: call_view(tool_call) },
                ),
            ),
    {
        self.with_content(MessageContent::FrontendToolRequest(ToolRequest { id, tool_call }))
    }

    /// The message with the notice that the context length was exceeded at its end.
    pub fn with_context_length_exceeded(self, text: String) -> (message: Message)
        ensures
            message@ == self@.with(MessageContentView::ContextLengthExceeded(text@)),
    {
        self.with_content(MessageContent::ContextLengthExceeded(text))
    }
}

/// A protocol message that a tool sent while it ran, as JSON text.
#[derive(Debug, PartialEq, Eq)]
pub struct JsonRpcMessage {
    pub text: String,
}

impl View for JsonRpcMessage {
    type V = Seq<char>;

    open spec fn view(&self) -> Seq<char> {
        self.text@
    }
}

impl DeepView for JsonRpcMessage {
    type V = Seq<char>;

    open spec fn deep_view(&self) -> Seq<char> {
        self@
    }
}

/// What the engine hands to its caller.
#[derive(Debug, PartialEq, Eq)]
pub enum AgentEvent {
    Message(Message),
    McpNotification((String, JsonRpcMessage)),
}

pub enum AgentEventView {
    Message(MessageView),
    McpNotification((Seq<char>, Seq<char>)),
}

impl View for AgentEvent {
    type V = AgentEventView;

    open spec fn view(&self) -> AgentEventView {
        match self {
            AgentEvent::Message(m) => AgentEventView::Message(m@),
            AgentEvent::McpNotification(n) => AgentEventView::McpNotification((n.0@, n.1@)),
        }
    }
}

impl DeepView for AgentEvent {
    type V = AgentEventView;

    open spec fn deep_view(&self) -> AgentEventView {
        self@
    }
}

impl Message {
    /// Puts the answer to request `id` at the end of the message.
    pub fn add_tool_response(&mut self, id: String, result: ToolResult)
        ensures
            final(self)@ == old(self)@.with_tool_response(id@, result_view(result)),
    {
        let part = MessageContent::ToolResponse(ToolResponse { id, tool_result: result });
        self.content.push(part);
        assert(self.content.deep_view() =~= old(self).content.deep_view().push(part@));
    }
}

} // verus!
