//! The action plan that the planning assistant returns, and the prompt
//! and reply handling around it.

use vstd::prelude::*;
use crate::chat::{system_then_user, ChatRequest, ReplyFormat, ReplyFormatView, Role};

verus! {

/// A plan to reach a goal: its steps in order, how hard it is overall, and
/// the estimated minutes.
#[derive(Debug)]
pub struct ActionPlan {
    pub goal: String,
    pub steps: Vec<ActionStep>,
    pub difficulty: Difficulty,
    pub estimated_minutes: u32,
}

/// One step of a plan: its number, what to do, and the tool that may help.
#[derive(Debug)]
pub struct ActionStep {
    pub index: u8,
    pub description: String,
    pub tool_hint: Option<String>,
}

/// How hard a plan is.
#[derive(Debug, Clone, Copy, PartialEq, Eq, Structural)]
pub enum Difficulty {
    Easy,
    Medium,
    Hard,
}

/// The text of the system prompt before the JSON schema.
pub open spec fn system_prompt_head() -> Seq<char> {
    "你是一个全能型智能助手和行动规划助手。\n\n用户会提出技术、学习、旅行、生活、工作、问题排查或其他类型的需求。\n你需要理解用户的目标，并将其转换为清晰、可执行的行动计划。\n\n你必须只返回一个合法的 JSON 对象，不要返回 Markdown、代码块、\n解释、标题、注释、<think> 标签或任何 JSON 之外的内容。\n\nJSON 结构必须是：\n    "@
}

/// The text of the system prompt after the JSON schema.
pub open spec fn system_prompt_tail() -> Seq<char> {
    "\n\n字段要求：\n- goal：一句话概括用户目标。\n- steps：按执行顺序生成步骤。\n- index：整数，从 1 开始连续递增。\n- description：具体、清晰、可执行。\n- tool_hint：需要工具时填写字符串，否则返回 null。\n- difficulty：只能是 Easy、Medium 或 Hard。\n- estimated_minutes：非负整数，表示预计完成分钟数。\n\n不要增加其他字段，不要遗漏任何顶层字段，不要把数字写成字符串。"@
}

/// The system prompt of the planning assistant, with the JSON schema of
/// `ActionPlan` (as text) in its place.
pub fn build_system_prompt(schema: &str) -> (r: String)
    ensures
        r@ == system_prompt_head() + schema@ + system_prompt_tail(),
{
    let mut prompt = String::from_str("你是一个全能型智能助手和行动规划助手。\n\n用户会提出技术、学习、旅行、生活、工作、问题排查或其他类型的需求。\n你需要理解用户的目标，并将其转换为清晰、可执行的行动计划。\n\n你必须只返回一个合法的 JSON 对象，不要返回 Markdown、代码块、\n解释、标题、注释、<think> 标签或任何 JSON 之外的内容。\n\nJSON 结构必须是：\n    ");
    prompt.append(schema);
    prompt.append("\n\n字段要求：\n- goal：一句话概括用户目标。\n- steps：按执行顺序生成步骤。\n- index：整数，从 1 开始连续递增。\n- description：具体、清晰、可执行。\n- tool_hint：需要工具时填写字符串，否则返回 null。\n- difficulty：只能是 Easy、Medium 或 Hard。\n- estimated_minutes：非负整数，表示预计完成分钟数。\n\n不要增加其他字段，不要遗漏任何顶层字段，不要把数字写成字符串。");
    prompt
}

/// The text of a chat reply: the content of its first choice. The contents
/// of the choices are given in order, `None` for a choice without content.
pub fn first_choice_content(contents: Vec<Option<String>>) -> (r: Result<String, String>)
    ensures
        match r {
            Ok(s) => contents.len() > 0 && contents@[0] == Some(s),
            Err(m) => m@ == "No content in response"@ && (contents.len() == 0 || contents@[0]
                is None),
        },
{
    let mut contents = contents;
    if contents.len() == 0 {
        return Err(String::from_str("No content in response"));
    }
    let first = contents.remove(0);
    match first {
        Some(s) => Ok(s),
        None => Err(String::from_str("No content in response")),
    }
}

/// The request of the planning assistant: the system prompt with the
/// schema, then the user's prompt; any JSON object as the reply, of at most
/// 2048 tokens.
pub fn planning_request(model: &str, schema: &str, prompt: &str) -> (r: ChatRequest)
    ensures
        r@.model == model@,
        r@.messages == seq![
            (Role::System, system_prompt_head() + schema@ + system_prompt_tail()),
            (Role::User, prompt@),
        ],
        r@.format == ReplyFormatView::JsonObject,
        r@.max_tokens == Some(2048u32),
{
    system_then_user(model, build_system_prompt(schema), prompt, ReplyFormat::JsonObject, Some(2048))
}

} // verus!
