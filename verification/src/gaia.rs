//! Answers to GAIA benchmark questions: the prompt, the structured output,
//! and how the first choice of a chat reply is read.

use vstd::prelude::*;
use crate::chat::{system_then_user, ChatRequest, ReplyFormat, ReplyFormatView, Role};

verus! {

/// The system prompt for GAIA questions.
pub const GAIA_PROMPT: &'static str = "You are a general AI assistant. I will ask you a question.\nFirst, determine if you can solve this problem with your current capabilities and set \"is_solvable\" accordingly.\nIf you can solve it, set \"is_solvable\" to true and provide your answer in \"final_answer\".\nIf you cannot solve it, set \"is_solvable\" to false and explain why in \"unsolvable_reason\".\nYour final answer should be a number OR as few words as possible OR a comma-separated list of numbers and/or strings.\nIf you are asked for a number, don't use a comma to write your number neither use units such as $ or percent sign unless specified.\nIf you are asked for a string, don't use articles, neither abbreviations (e.g., for cities), and write the digits in plain text.\nIf you are asked for a comma-separated list, apply the above rules depending on whether the element is a number or a string.\n";

/// The structured answer to a GAIA question.
#[derive(Debug)]
pub struct GaiaOutput {
    pub is_solvable: bool,
    pub unsolvable_reason: String,
    pub final_answer: String,
}

/// What the first choice of a chat reply holds: whether the model stopped
/// because of its content filter, and the content of its message.
pub struct ChoiceOutcome {
    pub content_filtered: bool,
    pub content: Option<String>,
}

/// How a chat reply is read: a refusal already has its answer; otherwise
/// the content is the JSON text of the answer.
#[derive(Debug)]
pub enum GaiaReply {
    Answer(GaiaOutput),
    Json(String),
}

/// Reads the first choice of a chat reply (`None` when the reply has no
/// choice): a choice stopped by the content filter is an unsolvable answer
/// with the reason `Model refuse to answer` and an empty final answer; a
/// choice without content is an error; otherwise its content is the JSON of
/// the answer.
pub fn read_first_choice(first: Option<ChoiceOutcome>) -> (r: Result<GaiaReply, String>)
    ensures
        match first {
            None => r matches Err(m) && m@ == "No choices in response"@,
            Some(c) => if c.content_filtered {
                r matches Ok(GaiaReply::Answer(o)) && !o.is_solvable && o.unsolvable_reason@
                    == "Model refuse to answer"@ && o.final_answer@ == Seq::<char>::empty()
            } else {
                match c.content {
                    None => r matches Err(m) && m@ == "No content in response"@,
                    Some(s) => r matches Ok(GaiaReply::Json(t)) && t == s,
                }
            },
        },
{
    match first {
        None => Err(String::from_str("No choices in response")),
        Some(c) => {
            if c.content_filtered {
                Ok(
                    GaiaReply::Answer(
                        GaiaOutput {
                            is_solvable: false,
                            unsolvable_reason: String::from_str("Model refuse to answer"),
                            final_answer: String::new(),
                        },
                    ),
                )
            } else {
                match c.content {
                    None => Err(String::from_str("No content in response")),
                    Some(s) => Ok(GaiaReply::Json(s)),
                }
            }
        },
    }
}

/// The request for a GAIA question: the system text, then the question;
/// the reply must follow the schema of `GaiaOutput` strictly, under the
/// name `gaia_output`; no cap on its tokens.
pub fn gaia_request(model: &str, system: &str, prompt: &str) -> (r: ChatRequest)
    ensures
        r@.model == model@,
        r@.messages == seq![(Role::System, system@), (Role::User, prompt@)],
        r@.format == (ReplyFormatView::JsonSchema {
            name: "gaia_output"@,
            description: "GAIA problem solving output"@,
            strict: true,
        }),
        r@.max_tokens == None::<u32>,
{
    let format = ReplyFormat::JsonSchema {
        name: String::from_str("gaia_output"),
        description: String::from_str("GAIA problem solving output"),
        strict: true,
    };
    system_then_user(model, String::from_str(system), prompt, format, None)
}

} // verus!
