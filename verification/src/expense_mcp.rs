//! The MCP bridge to the expense API: which HTTP request each tool sends,
//! and what the tool answers for the API's reply. Sending the requests and
//! encoding the bodies is left to the caller.

use vstd::prelude::*;

verus! {

/// The HTTP methods that the bridge uses.
#[derive(Debug, Clone, Copy, PartialEq, Eq, Structural)]
pub enum HttpMethod {
    Get,
    Post,
    Put,
    Delete,
}

/// A request to the expense API: method, full URL, the key sent as
/// `x-api-key`, and the query pairs in order.
#[derive(Debug)]
pub struct ApiRequest {
    pub method: HttpMethod,
    pub url: String,
    pub api_key: String,
    pub query: Vec<(String, String)>,
}

/// The mathematical value of an `ApiRequest`.
pub struct ApiRequestView {
    pub method: HttpMethod,
    pub url: Seq<char>,
    pub api_key: Seq<char>,
    pub query: Seq<(Seq<char>, Seq<char>)>,
}

/// The characters of a sequence of string pairs.
pub open spec fn pair_views(s: Seq<(String, String)>) -> Seq<(Seq<char>, Seq<char>)> {
    s.map_values(|p: (String, String)| (p.0@, p.1@))
}

impl View for ApiRequest {
    type V = ApiRequestView;

    open spec fn view(&self) -> ApiRequestView {
        ApiRequestView {
            method: self.method,
            url: self.url@,
            api_key: self.api_key@,
            query: pair_views(self.query@),
        }
    }
}

/// The query of a listing: a `category` pair when a category is given,
/// then a `month` pair when a month is given.
pub open spec fn list_query(category: Option<Seq<char>>, month: Option<Seq<char>>) -> Seq<
    (Seq<char>, Seq<char>),
> {
    let c: Seq<(Seq<char>, Seq<char>)> = match category {
        Some(c) => seq![("category"@, c)],
        None => Seq::empty(),
    };
    let m: Seq<(Seq<char>, Seq<char>)> = match month {
        Some(m) => seq![("month"@, m)],
        None => Seq::empty(),
    };
    c + m
}

/// The characters of an optional string.
pub open spec fn opt_view(o: Option<String>) -> Option<Seq<char>> {
    match o {
        Some(s) => Some(s@),
        None => None,
    }
}

/// The URL base and the key that the bridge uses for every request.
pub struct ExpenseServer {
    base_url: String,
    api_key: String,
}

/// The mathematical value of an `ExpenseServer`.
pub struct ExpenseServerView {
    pub base_url: Seq<char>,
    pub api_key: Seq<char>,
}

impl View for ExpenseServer {
    type V = ExpenseServerView;

    closed spec fn view(&self) -> ExpenseServerView {
        ExpenseServerView { base_url: self.base_url@, api_key: self.api_key@ }
    }
}

impl ExpenseServer {
    /// A bridge to the API at `base_url` with `api_key`; an absent setting
    /// falls back to `http://localhost:3000` and `dev-secret-key`.
    pub fn new(base_url: Option<String>, api_key: Option<String>) -> (s: ExpenseServer)
        ensures
            s@.base_url == (match opt_view(base_url) {
                Some(u) => u,
                None => "http://localhost:3000"@,
            }),
            s@.api_key == (match opt_view(api_key) {
                Some(k) => k,
                None => "dev-secret-key"@,
            }),
    {
        let base_url = match base_url {
            Some(u) => u,
            None => String::from_str("http://localhost:3000"),
        };
        let api_key = match api_key {
            Some(k) => k,
            None => String::from_str("dev-secret-key"),
        };
        ExpenseServer { base_url, api_key }
    }

    fn request(&self, method: HttpMethod, path: &str, query: Vec<(String, String)>) -> (r:
        ApiRequest)
        ensures
            r@ == (ApiRequestView {
                method,
                url: self@.base_url + path@,
                api_key: self@.api_key,
                query: pair_views(query@),
            }),
    {
        let mut url = self.base_url.clone();
        url.append(path);
        ApiRequest { method, url, api_key: self.api_key.clone(), query }
    }

    fn item_request(&self, method: HttpMethod, id: &str) -> (r: ApiRequest)
        ensures
            r@ == (ApiRequestView {
                method,
                url: self@.base_url + "/expenses/"@ + id@,
                api_key: self@.api_key,
                query: Seq::empty(),
            }),
    {
        let mut url = self.base_url.clone();
        url.append("/expenses/");
        url.append(id);
        let query: Vec<(String, String)> = Vec::new();
        assert(pair_views(query@) =~= Seq::empty());
        ApiRequest { method, url, api_key: self.api_key.clone(), query }
    }

    /// The request of the `list_expenses` tool: `GET /expenses` with the
    /// filters that were given.
    pub fn list_expenses_request(&self, category: Option<String>, month: Option<String>) -> (r:
        ApiRequest)
        ensures
            r@ == (ApiRequestView {
                method: HttpMethod::Get,
                url: self@.base_url + "/expenses"@,
                api_key: self@.api_key,
                query: list_query(opt_view(category), opt_view(month)),
            }),
    {
        let ghost c = opt_view(category);
        let ghost m = opt_view(month);
        let mut query: Vec<(String, String)> = Vec::new();
        match category {
            Some(c) => query.push((String::from_str("category"), c)),
            None => {},
        }
        match month {
            Some(m) => query.push((String::from_str("month"), m)),
            None => {},
        }
        assert(pair_views(query@) =~= list_query(c, m));
        self.request(HttpMethod::Get, "/expenses", query)
    }

    /// The request of the `get_expense` tool: `GET /expenses/{id}`.
    pub fn get_expense_request(&self, id: &str) -> (r: ApiRequest)
        ensures
            r@ == (ApiRequestView {
                method: HttpMethod::Get,
                url: self@.base_url + "/expenses/"@ + id@,
                api_key: self@.api_key,
                query: Seq::empty(),
            }),
    {
        self.item_request(HttpMethod::Get, id)
    }

    /// The request of the `create_expense` tool: `POST /expenses`, whose
    /// body is the tool's parameters.
    pub fn create_expense_request(&self) -> (r: ApiRequest)
        ensures
            r@ == (ApiRequestView {
                method: HttpMethod::Post,
                url: self@.base_url + "/expenses"@,
                api_key: self@.api_key,
                query: Seq::empty(),
            }),
    {
        let query: Vec<(String, String)> = Vec::new();
        assert(pair_views(query@) =~= Seq::empty());
        self.request(HttpMethod::Post, "/expenses", query)
    }

    /// The request of the `update_expense` tool: `PUT /expenses/{id}`, whose
    /// body holds only the fields that were given.
    pub fn update_expense_request(&self, id: &str) -> (r: ApiRequest)
        ensures
            r@ == (ApiRequestView {
                method: HttpMethod::Put,
                url: self@.base_url + "/expenses/"@ + id@,
                api_key: self@.api_key,
                query: Seq::empty(),
            }),
    {
        self.item_request(HttpMethod::Put, id)
    }

    /// The request of the `delete_expense` tool: `DELETE /expenses/{id}`.
    pub fn delete_expense_request(&self, id: &str) -> (r: ApiRequest)
        ensures
            r@ == (ApiRequestView {
                method: HttpMethod::Delete,
                url: self@.base_url + "/expenses/"@ + id@,
                api_key: self@.api_key,
                query: Seq::empty(),
            }),
    {
        self.item_request(HttpMethod::Delete, id)
    }

    /// The request of the `get_summary` tool: `GET /expenses/summary`, with
    /// a `month` pair when a month is given.
    pub fn get_summary_request(&self, month: Option<String>) -> (r: ApiRequest)
        ensures
            r@ == (ApiRequestView {
                method: HttpMethod::Get,
                url: self@.base_url + "/expenses/summary"@,
                api_key: self@.api_key,
                query: list_query(None, opt_view(month)),
            }),
    {
        let ghost m = opt_view(month);
        let mut query: Vec<(String, String)> = Vec::new();
        match month {
            Some(m) => query.push((String::from_str("month"), m)),
            None => {},
        }
        assert(pair_views(query@) =~= list_query(None, m));
        self.request(HttpMethod::Get, "/expenses/summary", query)
    }
}

/// A reply of the expense API: its status code, the status as text (code
/// and reason), and its body, or the reason the body could not be read.
#[derive(Debug)]
pub struct HttpReply {
    pub status: u16,
    pub status_text: String,
    pub body: Result<String, String>,
}

/// The status code is a success (2xx).
pub open spec fn is_success(status: u16) -> bool {
    200 <= status <= 299
}

/// The body as the tool reports it: the text, or a note that it could not be
/// read.
pub open spec fn body_text(body: Result<String, String>) -> Seq<char> {
    match body {
        Ok(b) => b@,
        Err(e) => "读取响应内容失败: "@ + e@,
    }
}

/// The answer of a tool: the API's body on a success; otherwise an error
/// message that carries the status and the body, or the reason the request
/// failed.
pub open spec fn tool_answer(outcome: Result<HttpReply, String>) -> Result<Seq<char>, Seq<char>> {
    match outcome {
        Ok(reply) => if is_success(reply.status) {
            Ok(body_text(reply.body))
        } else {
            Err("expense-tracker-api 返回了 "@ + reply.status_text@ + ": "@ + body_text(reply.body))
        },
        Err(e) => Err("请求 expense-tracker-api 失败: "@ + e@),
    }
}

/// The answer of a tool to the outcome of its request.
pub fn respond(outcome: Result<HttpReply, String>) -> (r: Result<String, String>)
    ensures
        tool_answer(outcome) == (match r {
            Ok(s) => Ok::<Seq<char>, Seq<char>>(s@),
            Err(s) => Err::<Seq<char>, Seq<char>>(s@),
        }),
{
    match outcome {
        Ok(reply) => {
            let ghost b = body_text(reply.body);
            let body = match reply.body {
                Ok(b) => b,
                Err(e) => {
                    let mut t = String::from_str("读取响应内容失败: ");
                    t.append(e.as_str());
                    t
                },
            };
            assert(body@ == b);
            if 200 <= reply.status && reply.status <= 299 {
                Ok(body)
            } else {
                let mut m = String::from_str("expense-tracker-api 返回了 ");
                m.append(reply.status_text.as_str());
                m.append(": ");
                m.append(body.as_str());
                Err(m)
            }
        },
        Err(e) => {
            let mut m = String::from_str("请求 expense-tracker-api 失败: ");
            m.append(e.as_str());
            Err(m)
        },
    }
}

/// A value in a JSON body: text, or a number given by the bit pattern of
/// its IEEE-754 binary64 value.
#[derive(Debug, PartialEq)]
pub enum BodyValue {
    Text(String),
    Number(u64),
}

/// The mathematical value of a `BodyValue`.
pub enum BodyValueView {
    Text(Seq<char>),
    Number(u64),
}

/// One field of a JSON body.
#[derive(Debug)]
pub struct BodyField {
    pub name: String,
    pub value: BodyValue,
}

/// The names and values of the fields of a body.
pub open spec fn field_views(fields: Seq<BodyField>) -> Seq<(Seq<char>, BodyValueView)> {
    fields.map_values(
        |f: BodyField|
            (
                f.name@,
                match f.value {
                    BodyValue::Text(t) => BodyValueView::Text(t@),
                    BodyValue::Number(n) => BodyValueView::Number(n),
                },
            ),
    )
}

/// A text field when the value is given, nothing otherwise.
pub open spec fn text_field(name: Seq<char>, value: Option<Seq<char>>) -> Seq<
    (Seq<char>, BodyValueView),
> {
    match value {
        Some(t) => seq![(name, BodyValueView::Text(t))],
        None => Seq::empty(),
    }
}

/// A number field when the value is given, nothing otherwise.
pub open spec fn number_field(name: Seq<char>, value: Option<u64>) -> Seq<
    (Seq<char>, BodyValueView),
> {
    match value {
        Some(n) => seq![(name, BodyValueView::Number(n))],
        None => Seq::empty(),
    }
}

/// The fields of an expense body, in the order description, amount,
/// category, date, each only when it is given.
pub open spec fn expense_fields(
    description: Option<Seq<char>>,
    amount_bits: Option<u64>,
    category: Option<Seq<char>>,
    date: Option<Seq<char>>,
) -> Seq<(Seq<char>, BodyValueView)> {
    text_field("description"@, description) + number_field("amount"@, amount_bits) + text_field(
        "category"@,
        category,
    ) + text_field("date"@, date)
}

fn push_text(fields: &mut Vec<BodyField>, name: &str, value: Option<String>)
    ensures
        field_views(final(fields)@) == field_views(old(fields)@) + text_field(
            name@,
            opt_view(value),
        ),
{
    let ghost before = field_views(fields@);
    match value {
        Some(t) => {
            let ghost tv = t@;
            fields.push(BodyField { name: String::from_str(name), value: BodyValue::Text(t) });
            assert(field_views(fields@) =~= before + seq![(name@, BodyValueView::Text(tv))]);
        },
        None => {
            assert(field_views(fields@) =~= before + Seq::empty());
        },
    }
}

/// The body of the `update_expense` tool: only the fields that were given,
/// so that the API leaves the others as they are.
pub fn update_body(
    description: Option<String>,
    amount_bits: Option<u64>,
    category: Option<String>,
    date: Option<String>,
) -> (fields: Vec<BodyField>)
    ensures
        field_views(fields@) == expense_fields(
            opt_view(description),
            amount_bits,
            opt_view(category),
            opt_view(date),
        ),
{
    let mut fields: Vec<BodyField> = Vec::new();
    assert(field_views(fields@) =~= Seq::empty());
    push_text(&mut fields, "description", description);
    let ghost before = field_views(fields@);
    match amount_bits {
        Some(n) => {
            fields.push(BodyField { name: String::from_str("amount"), value: BodyValue::Number(n) });
            assert(field_views(fields@) =~= before + seq![("amount"@, BodyValueView::Number(n))]);
        },
        None => {
            assert(field_views(fields@) =~= before + Seq::empty());
        },
    }
    push_text(&mut fields, "category", category);
    push_text(&mut fields, "date", date);
    fields
}

/// The body of the `create_expense` tool: all four fields.
pub fn create_body(description: String, amount_bits: u64, category: String, date: String) -> (fields:
    Vec<BodyField>)
    ensures
        field_views(fields@) == expense_fields(
            Some(description@),
            Some(amount_bits),
            Some(category@),
            Some(date@),
        ),
{
    update_body(Some(description), Some(amount_bits), Some(category), Some(date))
}

/// Every 2xx reply is a success and nothing else is: a reply's answer is
/// `Ok` exactly when its status is from 200 to 299, and then it is the
/// body as read; a request that failed is answered with an error.
pub proof fn law_every_2xx_reply_is_a_success(outcome: Result<HttpReply, String>)
    ensures
        outcome matches Ok(reply) ==> ((tool_answer(outcome) is Ok) <==> (200 <= reply.status
            && reply.status <= 299)),
        outcome matches Ok(reply) ==> (200 <= reply.status && reply.status <= 299 ==> (
        reply.body matches Ok(b) ==> tool_answer(outcome) == Ok::<Seq<char>, Seq<char>>(b@))),
        outcome is Err ==> tool_answer(outcome) is Err,
{
}

} // verus!
