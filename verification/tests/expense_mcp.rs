use ai_agent::expense_mcp::{create_body, respond, update_body, BodyValue, ExpenseServer, HttpMethod, HttpReply};

fn pairs(q: &[(String, String)]) -> Vec<(&str, &str)> {
    q.iter().map(|(a, b)| (a.as_str(), b.as_str())).collect()
}

#[test]
fn defaults_and_urls() {
    let s = ExpenseServer::new(None, None);
    let r = s.get_expense_request("7");
    assert_eq!(r.method, HttpMethod::Get);
    assert_eq!(r.url, "http://localhost:3000/expenses/7");
    assert_eq!(r.api_key, "dev-secret-key");
    assert!(r.query.is_empty());

    let s = ExpenseServer::new(Some("http://h:1".to_string()), Some("k".to_string()));
    let r = s.delete_expense_request("3");
    assert_eq!(r.method, HttpMethod::Delete);
    assert_eq!(r.url, "http://h:1/expenses/3");
    assert_eq!(r.api_key, "k");
    let r = s.update_expense_request("3");
    assert_eq!(r.method, HttpMethod::Put);
    assert_eq!(r.url, "http://h:1/expenses/3");
    let r = s.create_expense_request();
    assert_eq!(r.method, HttpMethod::Post);
    assert_eq!(r.url, "http://h:1/expenses");
}

#[test]
fn queries_hold_only_the_given_filters() {
    let s = ExpenseServer::new(Some("http://h".to_string()), None);
    let r = s.list_expenses_request(None, None);
    assert_eq!(r.url, "http://h/expenses");
    assert!(r.query.is_empty());
    let r = s.list_expenses_request(Some("Food".to_string()), Some("2026-08".to_string()));
    assert_eq!(pairs(&r.query), vec![("category", "Food"), ("month", "2026-08")]);
    let r = s.list_expenses_request(None, Some("2026-08".to_string()));
    assert_eq!(pairs(&r.query), vec![("month", "2026-08")]);
    let r = s.get_summary_request(Some("2026-08".to_string()));
    assert_eq!(r.url, "http://h/expenses/summary");
    assert_eq!(pairs(&r.query), vec![("month", "2026-08")]);
    assert!(s.get_summary_request(None).query.is_empty());
}

#[test]
fn replies_become_tool_answers() {
    let ok = HttpReply { status: 200, status_text: "200 OK".to_string(), body: Ok("[]".to_string()) };
    assert_eq!(respond(Ok(ok)), Ok("[]".to_string()));
    let created = HttpReply { status: 201, status_text: "201 Created".to_string(), body: Ok("{}".to_string()) };
    assert_eq!(respond(Ok(created)), Ok("{}".to_string()));
    let missing = HttpReply {
        status: 404,
        status_text: "404 Not Found".to_string(),
        body: Ok("{\"error\":\"expense not found\"}".to_string()),
    };
    assert_eq!(
        respond(Ok(missing)),
        Err("expense-tracker-api 返回了 404 Not Found: {\"error\":\"expense not found\"}".to_string())
    );
    let unreadable = HttpReply { status: 200, status_text: "200 OK".to_string(), body: Err("eof".to_string()) };
    assert_eq!(respond(Ok(unreadable)), Ok("读取响应内容失败: eof".to_string()));
    assert_eq!(
        respond(Err("connection refused".to_string())),
        Err("请求 expense-tracker-api 失败: connection refused".to_string())
    );
}

#[test]
fn update_body_holds_only_the_given_fields() {
    assert!(update_body(None, None, None, None).is_empty());
    let fields = update_body(None, Some(15.0f64.to_bits()), None, Some("2026-08-04".to_string()));
    let names: Vec<&str> = fields.iter().map(|f| f.name.as_str()).collect();
    assert_eq!(names, vec!["amount", "date"]);
    assert_eq!(fields[0].value, BodyValue::Number(15.0f64.to_bits()));
    assert_eq!(fields[1].value, BodyValue::Text("2026-08-04".to_string()));
    let all = create_body("Lunch".to_string(), 12.5f64.to_bits(), "Food".to_string(), "2026-08-03".to_string());
    let names: Vec<&str> = all.iter().map(|f| f.name.as_str()).collect();
    assert_eq!(names, vec!["description", "amount", "category", "date"]);
    assert_eq!(all[0].value, BodyValue::Text("Lunch".to_string()));
}
