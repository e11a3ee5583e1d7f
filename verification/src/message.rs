//! The canonical, provider-agnostic conversation model: messages, their
//! content items, tool calls, tool results, and the tools a provider is told
//! about.  Each type has a mathematical mirror that the contracts speak of.
use vstd::prelude::*;
use vstd::string::*;
use crate::json::{JsonValue, JsonV, json_view};

verus! {

/// A conversational role.
#[derive(Debug, Clone, Copy, PartialEq, Eq, Structural)]
pub enum Role {
    User,
    Assistant,
}

/// A failure around a tool invocation.
#[derive(Debug, PartialEq)]
pub enum ToolError {
    /// The model named a tool that does not exist or has an invalid name.
    NotFound(String),
    /// The tool ran and failed.
    ExecutionError(String),
}

/// The mirror of `ToolError`.
#[verifier::ext_equal]
pub enum ToolErrorV {
    NotFound(Seq<char>),
    ExecutionError(Seq<char>),
}

impl View for ToolError {
    type V = ToolErrorV;

    open spec fn view(&self) -> ToolErrorV {
        match self {
            ToolError::NotFound(s) => ToolErrorV::NotFound(s@),
            ToolError::ExecutionError(s) => ToolErrorV::ExecutionError(s@),
        }
    }
}

/// The text a tool error reads as, mirrored by `error_text`.
pub open spec fn spec_error_text(e: ToolErrorV) -> Seq<char> {
    match e {
        ToolErrorV::NotFound(s) => "Tool not found: "@ + s,
        ToolErrorV::ExecutionError(s) => "Execution failed: "@ + s,
    }
}

impl ToolError {
    /// The text this error reads as.
    pub fn error_text(&self) -> (r: String)
        ensures
            r@ == spec_error_text(self@),
    {
        match self {
            ToolError::NotFound(s) => {
                let mut r = String::new();
                r.append("Tool not found: ");
                r.append(s.as_str());
                r
            },
            ToolError::ExecutionError(s) => {
                let mut r = String::new();
                r.append("Execution failed: ");
                r.append(s.as_str());
                r
            },
        }
    }
}

/// A model-issued tool invocation.
#[derive(Debug, PartialEq)]
pub struct ToolCall {
    pub name: String,
    pub arguments: JsonValue,
}

/// The mirror of `ToolCall`.
#[verifier::ext_equal]
pub struct ToolCallV {
    pub name: Seq<char>,
    pub arguments: JsonV,
}

impl View for ToolCall {
    type V = ToolCallV;

    open spec fn view(&self) -> ToolCallV {
        ToolCallV { name: self.name@, arguments: json_view(&self.arguments) }
    }
}

impl ToolCall {
    /// A tool call with the given name and arguments.
    pub fn new(name: &str, arguments: JsonValue) -> (r: ToolCall)
        ensures
            r@.name == name@,
            r@.arguments == json_view(&arguments),
    {
        ToolCall { name: name.to_owned(), arguments }
    }
}

/// One item of a tool result, optionally scoped to an audience.
#[derive(Debug, PartialEq)]
pub enum Content {
    Text { text: String, audience: Option<Vec<Role>> },
    Image { mime_type: String, data: String, audience: Option<Vec<Role>> },
}

/// The mirror of `Content`.
#[verifier::ext_equal]
pub enum ContentV {
    Text { text: Seq<char>, audience: Option<Seq<Role>> },
    Image { mime_type: Seq<char>, data: Seq<char>, audience: Option<Seq<Role>> },
}

impl View for Content {
    type V = ContentV;

    open spec fn view(&self) -> ContentV {
        match self {
            Content::Text { text, audience } => ContentV::Text {
                text: text@,
                audience: match audience {
                    Some(a) => Some(a@),
                    None => None,
                },
            },
            Content::Image { mime_type, data, audience } => ContentV::Image {
                mime_type: mime_type@,
                data: data@,
                audience: match audience {
                    Some(a) => Some(a@),
                    None => None,
                },
            },
        }
    }
}

/// The audience of a mirrored content item.
pub open spec fn spec_audience(c: ContentV) -> Option<Seq<Role>> {
    match c {
        ContentV::Text { audience, .. } => audience,
        ContentV::Image { audience, .. } => audience,
    }
}

/// The same content item with its audience annotation removed.
pub open spec fn spec_unannotated(c: ContentV) -> ContentV {
    match c {
        ContentV::Text { text, .. } => ContentV::Text { text, audience: None },
        ContentV::Image { mime_type, data, .. } => ContentV::Image {
            mime_type,
            data,
            audience: None,
        },
    }
}

/// May the assistant see this content item?  True when the audience is unset
/// or names the assistant.
pub open spec fn spec_visible_to_assistant(c: ContentV) -> bool {
    match spec_audience(c) {
        None => true,
        Some(a) => a.contains(Role::Assistant),
    }
}

impl Content {
    /// The audience this item is scoped to, if any.
    pub fn audience<'a>(&'a self) -> (r: Option<&'a Vec<Role>>)
        ensures
            match r {
                Some(a) => spec_audience(self@) == Some(a@),
                None => spec_audience(self@) is None,
            },
    {
        match self {
            Content::Text { audience, .. } => audience.as_ref(),
            Content::Image { audience, .. } => audience.as_ref(),
        }
    }

    /// Whether the assistant may see this item.
    pub fn visible_to_assistant(&self) -> (r: bool)
        ensures
            r == spec_visible_to_assistant(self@),
    {
        match self.audience() {
            None => true,
            Some(roles) => {
                let mut i: usize = 0;
                let n = roles.len();
                while i < n
                    invariant
                        n == roles@.len(),
                        i <= n,
                        spec_audience(self@) == Some(roles@),
                        forall|j: int| 0 <= j < i ==> roles@[j] != Role::Assistant,
                    decreases n - i,
                {
                    if roles[i] == Role::Assistant {
                        return true;
                    }
                    i = i + 1;
                }
                false
            },
        }
    }

    /// This item's payload with the audience annotation removed.
    pub fn unannotated(&self) -> (r: Content)
        ensures
            r@ == spec_unannotated(self@),
    {
        match self {
            Content::Text { text, .. } => Content::Text { text: text.clone(), audience: None },
            Content::Image { mime_type, data, .. } => Content::Image {
                mime_type: mime_type.clone(),
                data: data.clone(),
                audience: None,
            },
        }
    }
}

/// One item of a message's content.
#[derive(Debug, PartialEq)]
pub enum MessageContent {
    Text { text: String },
    ToolRequest { id: String, tool_call: Result<ToolCall, ToolError> },
    ToolResponse { id: String, tool_result: Result<Vec<Content>, ToolError> },
}

/// The mirror of `MessageContent`.
#[verifier::ext_equal]
pub enum MessageContentV {
    Text { text: Seq<char> },
    ToolRequest { id: Seq<char>, tool_call: Result<ToolCallV, ToolErrorV> },
    ToolResponse { id: Seq<char>, tool_result: Result<Seq<ContentV>, ToolErrorV> },
}

impl View for MessageContent {
    type V = MessageContentV;

    open spec fn view(&self) -> MessageContentV {
        match self {
            MessageContent::Text { text } => MessageContentV::Text { text: text@ },
            MessageContent::ToolRequest { id, tool_call } => MessageContentV::ToolRequest {
                id: id@,
                tool_call: match tool_call {
                    Ok(c) => Ok(c@),
                    Err(e) => Err(e@),
                },
            },
            MessageContent::ToolResponse { id, tool_result } => MessageContentV::ToolResponse {
                id: id@,
                tool_result: match tool_result {
                    Ok(items) => Ok(Seq::new(items@.len(), |i: int| items@[i]@)),
                    Err(e) => Err(e@),
                },
            },
        }
    }
}

impl MessageContent {
    /// A plain text item.
    pub fn text(text: String) -> (r: MessageContent)
        ensures
            r@ == (MessageContentV::Text { text: text@ }),
    {
        MessageContent::Text { text }
    }

    /// A tool request, successful or failed.
    pub fn tool_request(id: String, tool_call: Result<ToolCall, ToolError>) -> (r: MessageContent)
        ensures
            r@ == (MessageContentV::ToolRequest {
                id: id@,
                tool_call: match tool_call {
                    Ok(c) => Ok(c@),
                    Err(e) => Err(e@),
                },
            }),
    {
        MessageContent::ToolRequest { id, tool_call }
    }
}

/// One canonical conversation message.
#[derive(Debug, PartialEq)]
pub struct Message {
    pub role: Role,
    pub created: i64,
    pub content: Vec<MessageContent>,
}

/// The mirror of `Message`.
#[verifier::ext_equal]
pub struct MessageV {
    pub role: Role,
    pub created: int,
    pub content: Seq<MessageContentV>,
}

impl View for Message {
    type V = MessageV;

    open spec fn view(&self) -> MessageV {
        MessageV {
            role: self.role,
            created: self.created as int,
            content: Seq::new(self.content@.len(), |i: int| self.content@[i]@),
        }
    }
}

/// A capability advertised to the provider, described by a JSON schema.
#[derive(Debug, PartialEq)]
pub struct Tool {
    pub name: String,
    pub description: String,
    pub input_schema: JsonValue,
}

/// The mirror of `Tool`.
#[verifier::ext_equal]
pub struct ToolV {
    pub name: Seq<char>,
    pub description: Seq<char>,
    pub input_schema: JsonV,
}

impl View for Tool {
    type V = ToolV;

    open spec fn view(&self) -> ToolV {
        ToolV {
            name: self.name@,
            description: self.description@,
            input_schema: json_view(&self.input_schema),
        }
    }
}

impl Tool {
    /// A tool with the given name, description and input schema.
    pub fn new(name: &str, description: &str, input_schema: JsonValue) -> (r: Tool)
        ensures
            r@.name == name@,
            r@.description == description@,
            r@.input_schema == json_view(&input_schema),
    {
        Tool { name: name.to_owned(), description: description.to_owned(), input_schema }
    }
}

} // verus!
