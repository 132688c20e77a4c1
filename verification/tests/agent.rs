use std::collections::HashMap;

use ai_agent::action_plan::{build_system_prompt, first_choice_content, planning_request};
use ai_agent::chat::{ReplyFormat, Role};
use ai_agent::gaia::{gaia_request, read_first_choice, ChoiceOutcome, GaiaReply, GAIA_PROMPT};
use ai_agent::mcp_client::{join_text_blocks, Endpoint, McpTransport};

#[test]
fn text_blocks_are_joined_by_lines() {
    assert_eq!(join_text_blocks(&vec![]), "");
    assert_eq!(join_text_blocks(&vec![None]), "");
    assert_eq!(
        join_text_blocks(&vec![Some("a".to_string()), None, Some("b".to_string()), Some("".to_string())]),
        "a\nb\n"
    );
}

#[test]
fn transports_choose_the_endpoint() {
    let mut envs = HashMap::new();
    envs.insert("K".to_string(), "V".to_string());
    let stdio = McpTransport::Stdio { command: "srv".to_string(), args: vec!["-x".to_string()], envs };
    match stdio.endpoint() {
        Endpoint::ChildProcess { command, args, envs } => {
            assert_eq!(command, "srv");
            assert_eq!(args, vec!["-x".to_string()]);
            assert_eq!(envs.get("K").map(|v| v.as_str()), Some("V"));
        }
        Endpoint::StreamableHttp { .. } => panic!("expected a child process"),
    }
    let sse = McpTransport::Sse { url: "http://s/mcp".to_string(), headers: HashMap::new() };
    match sse.endpoint() {
        Endpoint::StreamableHttp { url } => assert_eq!(url, "http://s/mcp"),
        Endpoint::ChildProcess { .. } => panic!("expected http"),
    }
    let http = McpTransport::Http { url: "http://h/mcp".to_string(), headers: HashMap::new() };
    assert!(matches!(http.endpoint(), Endpoint::StreamableHttp { url } if url == "http://h/mcp"));
}

#[test]
fn system_prompt_embeds_the_schema() {
    let p = build_system_prompt("{\"type\":\"object\"}");
    assert!(p.starts_with("你是一个全能型智能助手和行动规划助手。"));
    assert!(p.contains("JSON 结构必须是：\n    {\"type\":\"object\"}\n\n字段要求："));
    assert!(p.ends_with("不要把数字写成字符串。"));
}

#[test]
fn first_choice_content_is_the_reply() {
    assert_eq!(first_choice_content(vec![Some("x".to_string()), Some("y".to_string())]), Ok("x".to_string()));
    assert_eq!(first_choice_content(vec![None, Some("y".to_string())]), Err("No content in response".to_string()));
    assert_eq!(first_choice_content(vec![]), Err("No content in response".to_string()));
}

#[test]
fn gaia_choices_are_read() {
    assert!(GAIA_PROMPT.starts_with("You are a general AI assistant."));
    assert_eq!(read_first_choice(None).unwrap_err(), "No choices in response");
    let refused = read_first_choice(Some(ChoiceOutcome { content_filtered: true, content: Some("x".to_string()) }));
    match refused.unwrap() {
        GaiaReply::Answer(o) => {
            assert!(!o.is_solvable);
            assert_eq!(o.unsolvable_reason, "Model refuse to answer");
            assert_eq!(o.final_answer, "");
        }
        GaiaReply::Json(_) => panic!("expected a refusal"),
    }
    let empty = read_first_choice(Some(ChoiceOutcome { content_filtered: false, content: None }));
    assert_eq!(empty.unwrap_err(), "No content in response");
    let json = read_first_choice(Some(ChoiceOutcome { content_filtered: false, content: Some("{}".to_string()) }));
    assert!(matches!(json.unwrap(), GaiaReply::Json(t) if t == "{}"));
}

#[test]
fn chat_requests_are_described() {
    let r = planning_request("m", "{}", "plan a trip");
    assert_eq!(r.model, "m");
    assert_eq!(r.messages.len(), 2);
    assert_eq!(r.messages[0].role, Role::System);
    assert_eq!(r.messages[0].content, build_system_prompt("{}"));
    assert_eq!(r.messages[1].role, Role::User);
    assert_eq!(r.messages[1].content, "plan a trip");
    assert!(matches!(r.format, ReplyFormat::JsonObject));
    assert_eq!(r.max_tokens, Some(2048));

    let g = gaia_request("m2", "sys", "q");
    assert_eq!(g.model, "m2");
    assert_eq!(g.messages[0].content, "sys");
    assert_eq!(g.messages[1].content, "q");
    assert_eq!(g.max_tokens, None);
    match g.format {
        ReplyFormat::JsonSchema { name, description, strict } => {
            assert_eq!(name, "gaia_output");
            assert_eq!(description, "GAIA problem solving output");
            assert!(strict);
        }
        ReplyFormat::JsonObject => panic!("expected a schema"),
    }
}
