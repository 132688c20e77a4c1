//! Chat-completion requests, described as plain values; the caller turns
//! them into the requests of its client library.

use vstd::prelude::*;

verus! {

/// Who a message of a chat comes from.
#[derive(Debug, Clone, Copy, PartialEq, Eq, Structural)]
pub enum Role {
    System,
    User,
}

/// One message of a chat.
#[derive(Debug)]
pub struct ChatMessage {
    pub role: Role,
    pub content: String,
}

/// The form that the reply must take: any JSON object, or JSON that follows
/// a schema, which the caller supplies, under a name and a description and
/// with or without strict adherence.
#[derive(Debug)]
pub enum ReplyFormat {
    JsonObject,
    JsonSchema { name: String, description: String, strict: bool },
}

/// A chat-completion request: the model, the messages in order, the form
/// of the reply, and the cap on the reply's tokens, if any.
#[derive(Debug)]
pub struct ChatRequest {
    pub model: String,
    pub messages: Vec<ChatMessage>,
    pub format: ReplyFormat,
    pub max_tokens: Option<u32>,
}

/// The mathematical value of a `ReplyFormat`.
pub enum ReplyFormatView {
    JsonObject,
    JsonSchema { name: Seq<char>, description: Seq<char>, strict: bool },
}

/// The mathematical value of a `ChatRequest`.
pub struct ChatRequestView {
    pub model: Seq<char>,
    pub messages: Seq<(Role, Seq<char>)>,
    pub format: ReplyFormatView,
    pub max_tokens: Option<u32>,
}

impl View for ChatRequest {
    type V = ChatRequestView;

    open spec fn view(&self) -> ChatRequestView {
        ChatRequestView {
            model: self.model@,
            messages: self.messages@.map_values(|m: ChatMessage| (m.role, m.content@)),
            format: match self.format {
                ReplyFormat::JsonObject => ReplyFormatView::JsonObject,
                ReplyFormat::JsonSchema { name, description, strict } => ReplyFormatView::JsonSchema {
                    name: name@,
                    description: description@,
                    strict,
                },
            },
            max_tokens: self.max_tokens,
        }
    }
}

/// A request of a system message and then a user message.
pub fn system_then_user(
    model: &str,
    system: String,
    user: &str,
    format: ReplyFormat,
    max_tokens: Option<u32>,
) -> (r: ChatRequest)
    ensures
        r.model@ == model@,
        r.messages@.map_values(|m: ChatMessage| (m.role, m.content@)) == seq![
            (Role::System, system@),
            (Role::User, user@),
        ],
        r.format == format,
        r.max_tokens == max_tokens,
{
    let mut messages: Vec<ChatMessage> = Vec::new();
    let ghost system_text = system@;
    messages.push(ChatMessage { role: Role::System, content: system });
    messages.push(ChatMessage { role: Role::User, content: String::from_str(user) });
    assert(messages@.map_values(|m: ChatMessage| (m.role, m.content@)) =~= seq![
        (Role::System, system_text),
        (Role::User, user@),
    ]);
    ChatRequest { model: String::from_str(model), messages, format, max_tokens }
}

} // verus!
