//! The expense-tracking API: its records, its request validation, and the
//! state that the handlers read and change. Each handler is specified by a
//! function of `AppStateView` that gives its result (and, for the handlers
//! that change the state, the next state).

use vstd::prelude::*;
use crate::text::{
    decimal, decimal_string, has_prefix, starts_with, str_eq, to_lowercase, unicode_lowercase,
};

verus! {

/// Whether chrono's `NaiveDate::parse_from_str` accepts these characters
/// under the format `%Y-%m-%d`.
pub uninterp spec fn naive_date_accepts_ymd(s: Seq<char>) -> bool;

/// Calls `chrono::NaiveDate::parse_from_str(s, "%Y-%m-%d")` and reports
/// whether it returned `Ok`. Trusted: the answer is `naive_date_accepts_ymd`
/// of the argument's characters; which strings chrono accepts is not restated.
#[verifier::external_body]
fn parse_ymd(s: &str) -> (ok: bool)
    ensures
        ok == naive_date_accepts_ymd(s@),
{
    chrono::NaiveDate::parse_from_str(s, "%Y-%m-%d").is_ok()
}

/// The errors that the API answers with.
#[derive(Debug, Clone, Copy, PartialEq, Eq, Structural)]
pub enum ApiError {
    /// A date that is not a `YYYY-MM-DD` calendar date.
    InvalidDate,
    /// A month that is not a `YYYY-MM` month.
    InvalidMonth,
    /// An amount that is infinite, not a number, or below zero.
    InvalidAmount,
    /// A missing or wrong `x-api-key`, or a server without a key.
    Unauthorized,
    /// No expense has the requested id.
    NotFound,
}

impl ApiError {
    /// The HTTP status code of the error.
    pub open spec fn status_code(self) -> u16 {
        match self {
            ApiError::InvalidDate | ApiError::InvalidMonth | ApiError::InvalidAmount => 400,
            ApiError::Unauthorized => 401,
            ApiError::NotFound => 404,
        }
    }

    /// The text of the error's body.
    pub open spec fn message_text(self) -> Seq<char> {
        match self {
            ApiError::InvalidDate => "date must use YYYY-MM-DD format"@,
            ApiError::InvalidMonth => "month must use YYYY-MM format"@,
            ApiError::InvalidAmount => "amount must be a finite non-negative number"@,
            ApiError::Unauthorized => "invalid or missing x-api-key"@,
            ApiError::NotFound => "expense not found"@,
        }
    }

    /// The HTTP status code of the error.
    pub fn status(&self) -> (code: u16)
        ensures
            code == self.status_code(),
    {
        match self {
            ApiError::InvalidDate | ApiError::InvalidMonth | ApiError::InvalidAmount => 400,
            ApiError::Unauthorized => 401,
            ApiError::NotFound => 404,
        }
    }

    /// The text of the error's body.
    pub fn message(&self) -> (m: String)
        ensures
            m@ == self.message_text(),
    {
        match self {
            ApiError::InvalidDate => String::from_str("date must use YYYY-MM-DD format"),
            ApiError::InvalidMonth => String::from_str("month must use YYYY-MM format"),
            ApiError::InvalidAmount => String::from_str(
                "amount must be a finite non-negative number",
            ),
            ApiError::Unauthorized => String::from_str("invalid or missing x-api-key"),
            ApiError::NotFound => String::from_str("expense not found"),
        }
    }
}

/// One recorded expense. The amount is held as the bit pattern of its
/// IEEE-754 binary64 value (`f64::to_bits`): the API stores and returns it
/// and checks its validity, but does no arithmetic on it.
#[derive(Debug)]
pub struct Expense {
    pub id: String,
    pub description: String,
    pub amount_bits: u64,
    pub category: String,
    pub date: String,
}

/// The mathematical value of an `Expense`.
pub struct ExpenseView {
    pub id: Seq<char>,
    pub description: Seq<char>,
    pub amount_bits: u64,
    pub category: Seq<char>,
    pub date: Seq<char>,
}

impl View for Expense {
    type V = ExpenseView;

    open spec fn view(&self) -> ExpenseView {
        ExpenseView {
            id: self.id@,
            description: self.description@,
            amount_bits: self.amount_bits,
            category: self.category@,
            date: self.date@,
        }
    }
}

impl Expense {
    /// A copy of the expense.
    pub fn cloned(&self) -> (r: Expense)
        ensures
            r@ == self@,
    {
        Expense {
            id: self.id.clone(),
            description: self.description.clone(),
            amount_bits: self.amount_bits,
            category: self.category.clone(),
            date: self.date.clone(),
        }
    }
}

impl PartialEq for Expense {
    fn eq(&self, other: &Expense) -> (r: bool) {
        self.id == other.id && self.description == other.description && self.amount_bits
            == other.amount_bits && self.category == other.category && self.date == other.date
    }
}

impl vstd::std_specs::cmp::PartialEqSpecImpl for Expense {
    open spec fn obeys_eq_spec() -> bool {
        true
    }

    open spec fn eq_spec(&self, other: &Expense) -> bool {
        self@ == other@
    }
}

/// The values of a sequence of expenses.
pub open spec fn views(s: Seq<Expense>) -> Seq<ExpenseView> {
    s.map_values(|e: Expense| e@)
}

/// The characters of an optional string slice.
pub open spec fn opt_str_view(o: Option<&str>) -> Option<Seq<char>> {
    match o {
        Some(s) => Some(s@),
        None => None,
    }
}

/// The characters of an optional string.
pub open spec fn opt_string_view(o: Option<String>) -> Option<Seq<char>> {
    match o {
        Some(s) => Some(s@),
        None => None,
    }
}

/// An amount, given by the bit pattern of an IEEE-754 binary64 value, is
/// finite and not below zero: its exponent field (bits 52 to 62) is not all
/// ones, which would make it infinite or not a number, and its sign bit is
/// clear, or it is negative zero, which compares equal to zero.
pub open spec fn amount_is_valid(bits: u64) -> bool {
    &&& (bits / 0x10_0000_0000_0000) % 0x800 != 0x7ff
    &&& (bits < 0x8000_0000_0000_0000 || bits == 0x8000_0000_0000_0000)
}

/// The character is an ASCII decimal digit.
pub open spec fn is_ascii_digit(c: char) -> bool {
    '0' <= c && c <= '9'
}

/// The characters have the form `YYYY-MM`: four ASCII digits, a hyphen and
/// two ASCII digits.
pub open spec fn has_month_form(s: Seq<char>) -> bool {
    &&& s.len() == 7
    &&& is_ascii_digit(s[0]) && is_ascii_digit(s[1]) && is_ascii_digit(s[2]) && is_ascii_digit(s[3])
    &&& s[4] == '-'
    &&& is_ascii_digit(s[5]) && is_ascii_digit(s[6])
}

/// The characters have the form `YYYY-MM-DD`: a `YYYY-MM` month, a hyphen
/// and two ASCII digits.
pub open spec fn has_date_form(s: Seq<char>) -> bool {
    &&& s.len() == 10
    &&& has_month_form(s.take(7))
    &&& s[7] == '-'
    &&& is_ascii_digit(s[8]) && is_ascii_digit(s[9])
}

/// A date is valid when it has the form `YYYY-MM-DD` and chrono reads it as
/// `%Y-%m-%d`, which it does for calendar dates only.
pub open spec fn date_is_valid(date: Seq<char>) -> bool {
    has_date_form(date) && naive_date_accepts_ymd(date)
}

/// A month is valid when it has the form `YYYY-MM` and chrono reads it,
/// followed by `-01`, as `%Y-%m-%d`.
pub open spec fn month_is_valid(month: Seq<char>) -> bool {
    has_month_form(month) && naive_date_accepts_ymd(month + seq!['-', '0', '1'])
}

fn digit_at(s: &str, i: usize) -> (r: bool)
    requires
        i < s@.len(),
    ensures
        r == is_ascii_digit(s@[i as int]),
{
    let c = s.get_char(i);
    '0' <= c && c <= '9'
}

/// Whether the string has the form `YYYY-MM`.
pub fn month_form(s: &str) -> (r: bool)
    ensures
        r == has_month_form(s@),
{
    if s.unicode_len() != 7 {
        return false;
    }
    digit_at(s, 0) && digit_at(s, 1) && digit_at(s, 2) && digit_at(s, 3) && s.get_char(4) == '-'
        && digit_at(s, 5) && digit_at(s, 6)
}

/// Whether the string has the form `YYYY-MM-DD`.
pub fn date_form(s: &str) -> (r: bool)
    ensures
        r == has_date_form(s@),
{
    if s.unicode_len() != 10 {
        return false;
    }
    let r = digit_at(s, 0) && digit_at(s, 1) && digit_at(s, 2) && digit_at(s, 3) && s.get_char(4)
        == '-' && digit_at(s, 5) && digit_at(s, 6) && s.get_char(7) == '-' && digit_at(s, 8)
        && digit_at(s, 9);
    assert(s@.take(7)[0] == s@[0] && s@.take(7)[1] == s@[1] && s@.take(7)[2] == s@[2]
        && s@.take(7)[3] == s@[3] && s@.take(7)[4] == s@[4] && s@.take(7)[5] == s@[5]
        && s@.take(7)[6] == s@[6]);
    r
}

/// What the API answers to a date, given whether chrono read it.
pub fn date_verdict(parsed: bool) -> (r: Result<(), ApiError>)
    ensures
        r == (if parsed { Ok(()) } else { Err(ApiError::InvalidDate) }),
{
    if parsed {
        Ok(())
    } else {
        Err(ApiError::InvalidDate)
    }
}

/// What the API answers to a month, given whether chrono read it.
pub fn month_verdict(parsed: bool) -> (r: Result<(), ApiError>)
    ensures
        r == (if parsed { Ok(()) } else { Err(ApiError::InvalidMonth) }),
{
    if parsed {
        Ok(())
    } else {
        Err(ApiError::InvalidMonth)
    }
}

/// Checks a `YYYY-MM-DD` date: its form, then that it is a calendar date.
pub fn validate_date(date: &str) -> (r: Result<(), ApiError>)
    ensures
        r == (if date_is_valid(date@) { Ok(()) } else { Err(ApiError::InvalidDate) }),
{
    if !date_form(date) {
        return Err(ApiError::InvalidDate);
    }
    date_verdict(parse_ymd(date))
}

/// Checks a `YYYY-MM` month: its form, then, by reading it as the first day
/// of that month, that it is a calendar month.
pub fn validate_month(month: &str) -> (r: Result<(), ApiError>)
    ensures
        r == (if month_is_valid(month@) { Ok(()) } else { Err(ApiError::InvalidMonth) }),
{
    if !month_form(month) {
        return Err(ApiError::InvalidMonth);
    }
    let mut day = String::from_str(month);
    day.append("-01");
    proof {
        reveal_strlit("-01");
        assert(day@ =~= month@ + seq!['-', '0', '1']);
    }
    month_verdict(parse_ymd(day.as_str()))
}

/// Checks that an amount is finite and not below zero.
pub fn validate_amount(amount_bits: u64) -> (r: Result<(), ApiError>)
    ensures
        r == (if amount_is_valid(amount_bits) { Ok(()) } else { Err(ApiError::InvalidAmount) }),
{
    let exponent = (amount_bits / 0x10_0000_0000_0000) % 0x800;
    if exponent != 0x7ff && amount_bits <= 0x8000_0000_0000_0000 {
        Ok(())
    } else {
        Err(ApiError::InvalidAmount)
    }
}

/// An expense passes the filters of a listing: its category equals the
/// wanted one after lowercasing both, and its date starts with the wanted
/// month. An absent filter passes everything.
pub open spec fn list_matches(
    e: ExpenseView,
    category: Option<Seq<char>>,
    month: Option<Seq<char>>,
) -> bool {
    &&& match category {
        Some(c) => unicode_lowercase(e.category) == unicode_lowercase(c),
        None => true,
    }
    &&& match month {
        Some(m) => has_prefix(e.date, m),
        None => true,
    }
}

/// The expenses that pass the filters of a listing, in their order.
pub open spec fn listed(
    s: Seq<ExpenseView>,
    category: Option<Seq<char>>,
    month: Option<Seq<char>>,
) -> Seq<ExpenseView>
    decreases s.len(),
{
    if s.len() == 0 {
        Seq::empty()
    } else {
        let rest = listed(s.drop_last(), category, month);
        if list_matches(s.last(), category, month) {
            rest.push(s.last())
        } else {
            rest
        }
    }
}

/// The expenses of a month (of all months when none is given), in their order.
pub open spec fn in_month(s: Seq<ExpenseView>, month: Option<Seq<char>>) -> Seq<ExpenseView>
    decreases s.len(),
{
    if s.len() == 0 {
        Seq::empty()
    } else {
        let rest = in_month(s.drop_last(), month);
        let keep = match month {
            Some(m) => has_prefix(s.last().date, m),
            None => true,
        };
        if keep {
            rest.push(s.last())
        } else {
            rest
        }
    }
}

/// The expenses whose id differs from `id`, in their order.
pub open spec fn without_id(s: Seq<ExpenseView>, id: Seq<char>) -> Seq<ExpenseView>
    decreases s.len(),
{
    if s.len() == 0 {
        Seq::empty()
    } else {
        let rest = without_id(s.drop_last(), id);
        if s.last().id != id {
            rest.push(s.last())
        } else {
            rest
        }
    }
}

/// Some expense has the id.
pub open spec fn has_id(s: Seq<ExpenseView>, id: Seq<char>) -> bool {
    exists|i: int| 0 <= i < s.len() && #[trigger] s[i].id == id
}

/// `i` is the position of the first expense with the id.
pub open spec fn is_first_with_id(s: Seq<ExpenseView>, id: Seq<char>, i: int) -> bool {
    &&& 0 <= i < s.len()
    &&& s[i].id == id
    &&& forall|j: int| 0 <= j < i ==> #[trigger] s[j].id != id
}

/// The position of the first expense with the id (meaningful when there is one).
pub open spec fn first_index(s: Seq<ExpenseView>, id: Seq<char>) -> int {
    choose|i: int| is_first_with_id(s, id, i)
}

/// An expense with the given fields replaced; an absent field is kept.
pub open spec fn patched(
    e: ExpenseView,
    description: Option<Seq<char>>,
    amount_bits: Option<u64>,
    category: Option<Seq<char>>,
    date: Option<Seq<char>>,
) -> ExpenseView {
    ExpenseView {
        id: e.id,
        description: match description {
            Some(d) => d,
            None => e.description,
        },
        amount_bits: match amount_bits {
            Some(a) => a,
            None => e.amount_bits,
        },
        category: match category {
            Some(c) => c,
            None => e.category,
        },
        date: match date {
            Some(d) => d,
            None => e.date,
        },
    }
}

/// The categories of the expenses, each once, in the order of their first
/// appearance.
pub open spec fn categories_in_order(s: Seq<ExpenseView>) -> Seq<Seq<char>>
    decreases s.len(),
{
    if s.len() == 0 {
        Seq::empty()
    } else {
        let rest = categories_in_order(s.drop_last());
        if rest.contains(s.last().category) {
            rest
        } else {
            rest.push(s.last().category)
        }
    }
}

/// The id is the decimal notation of one of the numbers 1 to `created`.
pub open spec fn is_issued_id(id: Seq<char>, created: nat) -> bool {
    exists|k: nat| 1 <= k <= created && #[trigger] decimal(k) == id
}

/// The mathematical value of the state of the API: the expenses, the id
/// counter, the key, and how many expenses have been created so far (which
/// the counter follows until it wraps around).
pub struct AppStateView {
    pub expenses: Seq<ExpenseView>,
    pub next_id: u64,
    pub api_key: Seq<char>,
    pub created: nat,
}

impl AppStateView {
    /// A request is authorized when it carries the server's key and the
    /// server has a non-empty key.
    pub open spec fn authorized(self, provided: Option<Seq<char>>) -> bool {
        provided == Some(self.api_key) && self.api_key.len() > 0
    }

    /// The answer to a listing request.
    pub open spec fn list(
        self,
        provided: Option<Seq<char>>,
        category: Option<Seq<char>>,
        month: Option<Seq<char>>,
    ) -> Result<Seq<ExpenseView>, ApiError> {
        if !self.authorized(provided) {
            Err(ApiError::Unauthorized)
        } else if month is Some && !month_is_valid(month->0) {
            Err(ApiError::InvalidMonth)
        } else {
            Ok(listed(self.expenses, category, month))
        }
    }

    /// The answer to a request for one expense.
    pub open spec fn get(self, provided: Option<Seq<char>>, id: Seq<char>) -> Result<
        ExpenseView,
        ApiError,
    > {
        if !self.authorized(provided) {
            Err(ApiError::Unauthorized)
        } else if has_id(self.expenses, id) {
            Ok(self.expenses[first_index(self.expenses, id)])
        } else {
            Err(ApiError::NotFound)
        }
    }

    /// The next state and the answer of a creation request: the new expense
    /// takes the decimal notation of the id counter, which then advances
    /// (wrapping around at the end of `u64`).
    pub open spec fn create(
        self,
        provided: Option<Seq<char>>,
        description: Seq<char>,
        amount_bits: u64,
        category: Seq<char>,
        date: Seq<char>,
    ) -> (AppStateView, Result<ExpenseView, ApiError>) {
        if !self.authorized(provided) {
            (self, Err(ApiError::Unauthorized))
        } else if !date_is_valid(date) {
            (self, Err(ApiError::InvalidDate))
        } else if !amount_is_valid(amount_bits) {
            (self, Err(ApiError::InvalidAmount))
        } else {
            let e = ExpenseView {
                id: decimal(self.next_id as nat),
                description,
                amount_bits,
                category,
                date,
            };
            (
                AppStateView {
                    expenses: self.expenses.push(e),
                    next_id: self.next_id.wrapping_add(1),
                    api_key: self.api_key,
                    created: self.created + 1,
                },
                Ok(e),
            )
        }
    }

    /// The next state and the answer of an update request: the first
    /// expense with the id gets the given fields.
    pub open spec fn update(
        self,
        provided: Option<Seq<char>>,
        id: Seq<char>,
        description: Option<Seq<char>>,
        amount_bits: Option<u64>,
        category: Option<Seq<char>>,
        date: Option<Seq<char>>,
    ) -> (AppStateView, Result<ExpenseView, ApiError>) {
        if !self.authorized(provided) {
            (self, Err(ApiError::Unauthorized))
        } else if amount_bits is Some && !amount_is_valid(amount_bits->0) {
            (self, Err(ApiError::InvalidAmount))
        } else if date is Some && !date_is_valid(date->0) {
            (self, Err(ApiError::InvalidDate))
        } else if !has_id(self.expenses, id) {
            (self, Err(ApiError::NotFound))
        } else {
            let i = first_index(self.expenses, id);
            let e = patched(self.expenses[i], description, amount_bits, category, date);
            (AppStateView { expenses: self.expenses.update(i, e), ..self }, Ok(e))
        }
    }

    /// The next state and the answer of a deletion request: every expense
    /// with the id goes.
    pub open spec fn delete(self, provided: Option<Seq<char>>, id: Seq<char>) -> (
        AppStateView,
        Result<(), ApiError>,
    ) {
        if !self.authorized(provided) {
            (self, Err(ApiError::Unauthorized))
        } else if !has_id(self.expenses, id) {
            (self, Err(ApiError::NotFound))
        } else {
            (AppStateView { expenses: without_id(self.expenses, id), ..self }, Ok(()))
        }
    }

    /// The expenses that a summary request adds up, or its error.
    pub open spec fn summary(self, provided: Option<Seq<char>>, month: Option<Seq<char>>) -> Result<
        Seq<ExpenseView>,
        ApiError,
    > {
        if !self.authorized(provided) {
            Err(ApiError::Unauthorized)
        } else if month is Some && !month_is_valid(month->0) {
            Err(ApiError::InvalidMonth)
        } else {
            Ok(in_month(self.expenses, month))
        }
    }

    /// Every id is the decimal notation of a number that the counter has
    /// already handed out, and no two expenses share an id.
    pub open spec fn ids_well_formed(self) -> bool {
        &&& forall|i: int|
            0 <= i < self.expenses.len() ==> #[trigger] is_issued_id(self.expenses[i].id, self.created)
        &&& forall|i: int, j: int|
            0 <= i < j < self.expenses.len() ==> #[trigger] self.expenses[i].id
                != #[trigger] self.expenses[j].id
    }

    /// What every state of the API satisfies: until `u64::MAX` expenses
    /// have been created, the counter is one past the number created, and
    /// the ids are well formed.
    pub open spec fn consistent(self) -> bool {
        self.created < u64::MAX ==> {
            &&& self.next_id == self.created + 1
            &&& self.ids_well_formed()
        }
    }
}

/// The state of the API: the recorded expenses in their order of creation,
/// the next id to hand out, and the key that requests must carry.
pub struct AppState {
    expenses: Vec<Expense>,
    next_id: u64,
    api_key: String,
    created: Ghost<nat>,
}

impl View for AppState {
    type V = AppStateView;

    closed spec fn view(&self) -> AppStateView {
        AppStateView {
            expenses: views(self.expenses@),
            next_id: self.next_id,
            api_key: self.api_key@,
            created: self.created@,
        }
    }
}

impl AppState {
    /// Every state of the API is consistent.
    #[verifier::type_invariant]
    closed spec fn is_consistent(self) -> bool {
        self@.consistent()
    }

    /// An empty state: no expenses, none created yet, ids counted from 1,
    /// and an empty key, which authorizes nothing.
    pub fn new() -> (s: AppState)
        ensures
            s@.expenses == Seq::<ExpenseView>::empty(),
            s@.next_id == 1,
            s@.api_key == Seq::<char>::empty(),
            s@.created == 0,
            s@.consistent(),
    {
        let s = AppState {
            expenses: Vec::new(),
            next_id: 1,
            api_key: String::new(),
            created: Ghost(0),
        };
        assert(s@.expenses =~= Seq::<ExpenseView>::empty());
        s
    }

    /// The same state with the given key.
    pub fn with_api_key(self, api_key: String) -> (s: AppState)
        ensures
            s@ == (AppStateView { api_key: api_key@, ..self@ }),
            s@.consistent(),
    {
        proof {
            use_type_invariant(&self);
        }
        AppState { api_key, ..self }
    }

    /// Checks the key that a request carries.
    pub fn authorize(&self, provided: Option<&str>) -> (r: Result<(), ApiError>)
        ensures
            r == (if self@.authorized(opt_str_view(provided)) {
                Ok(())
            } else {
                Err(ApiError::Unauthorized)
            }),
            self@.consistent(),
    {
        proof {
            use_type_invariant(self);
        }
        let key = self.api_key.as_str();
        match provided {
            Some(p) => {
                if str_eq(p, key) && !key.is_empty() {
                    Ok(())
                } else {
                    Err(ApiError::Unauthorized)
                }
            },
            None => Err(ApiError::Unauthorized),
        }
    }
}

/// The first expense with the id is at `i`, so `first_index` names `i`.
pub proof fn lemma_first_index_unique(s: Seq<ExpenseView>, id: Seq<char>, i: int)
    requires
        is_first_with_id(s, id, i),
    ensures
        first_index(s, id) == i,
        has_id(s, id),
{
    let w = first_index(s, id);
    assert(is_first_with_id(s, id, w));
    if w < i {
        assert(s[w].id != id);
    } else if w > i {
        assert(s[i].id != id);
    }
}

/// When some expense has the id, there is a first one.
pub proof fn lemma_first_index_exists(s: Seq<ExpenseView>, id: Seq<char>)
    requires
        has_id(s, id),
    ensures
        is_first_with_id(s, id, first_index(s, id)),
    decreases s.len(),
{
    let p = s.drop_last();
    if has_id(p, id) {
        lemma_first_index_exists(p, id);
        let i = first_index(p, id);
        assert(is_first_with_id(s, id, i)) by {
            assert forall|j: int| 0 <= j < i implies #[trigger] s[j].id != id by {
                assert(p[j] == s[j]);
            }
            assert(p[i] == s[i]);
        }
    } else {
        let i = s.len() - 1;
        assert(is_first_with_id(s, id, i)) by {
            let w = choose|w: int| 0 <= w < s.len() && #[trigger] s[w].id == id;
            if w < i {
                assert(p[w] == s[w]);
            }
            assert forall|j: int| 0 <= j < i implies #[trigger] s[j].id != id by {
                assert(p[j] == s[j]);
            }
        }
    }
}

/// Dropping the expenses with an id keeps the sequence as it is when no
/// expense has the id, and shortens it otherwise.
pub proof fn lemma_without_id(s: Seq<ExpenseView>, id: Seq<char>)
    ensures
        without_id(s, id).len() <= s.len(),
        !has_id(s, id) ==> without_id(s, id) == s,
        has_id(s, id) ==> without_id(s, id).len() < s.len(),
    decreases s.len(),
{
    if s.len() > 0 {
        let p = s.drop_last();
        lemma_without_id(p, id);
        if has_id(p, id) {
            let w = choose|w: int| 0 <= w < p.len() && #[trigger] p[w].id == id;
            assert(s[w] == p[w]);
        }
        if !has_id(s, id) {
            assert(!has_id(p, id)) by {
                if has_id(p, id) {
                    let w = choose|w: int| 0 <= w < p.len() && #[trigger] p[w].id == id;
                    assert(s[w] == p[w]);
                }
            }
            assert(s.last().id != id) by {
                assert(s[s.len() - 1] == s.last());
            }
            assert(p.push(s.last()) =~= s);
        } else {
            if !has_id(p, id) {
                let w = choose|w: int| 0 <= w < s.len() && #[trigger] s[w].id == id;
                if w < s.len() - 1 {
                    assert(p[w] == s[w]);
                }
                assert(s.last() == s[s.len() - 1]);
            }
        }
    }
}

/// The characters of each string in a sequence.
pub open spec fn string_views(s: Seq<String>) -> Seq<Seq<char>> {
    s.map_values(|x: String| x@)
}

/// What a summary reports, with the amounts held as bit patterns: the
/// amounts of the expenses it adds up, in their order; the categories of
/// those expenses, each once, in order of first appearance; and, for each
/// amount, the position of its expense's category. The total is the sum of
/// `amounts`; the sum for a category is the sum of the amounts that point
/// at it.
#[derive(Debug)]
pub struct SpendingBreakdown {
    pub amounts: Vec<u64>,
    pub categories: Vec<String>,
    pub category_of: Vec<usize>,
}

/// The mathematical value of a `SpendingBreakdown`.
pub struct BreakdownView {
    pub amounts: Seq<u64>,
    pub categories: Seq<Seq<char>>,
    pub category_of: Seq<usize>,
}

impl View for SpendingBreakdown {
    type V = BreakdownView;

    open spec fn view(&self) -> BreakdownView {
        BreakdownView {
            amounts: self.amounts@,
            categories: string_views(self.categories@),
            category_of: self.category_of@,
        }
    }
}

/// The amounts of a sequence of expenses.
pub open spec fn amounts_of(m: Seq<ExpenseView>) -> Seq<u64> {
    m.map_values(|e: ExpenseView| e.amount_bits)
}

/// `b` is the breakdown of the expenses `m`.
pub open spec fn is_breakdown_of(b: BreakdownView, m: Seq<ExpenseView>) -> bool {
    &&& b.amounts == amounts_of(m)
    &&& b.categories == categories_in_order(m)
    &&& b.category_of.len() == m.len()
    &&& forall|i: int|
        0 <= i < m.len() ==> (#[trigger] b.category_of[i]) < b.categories.len()
            && b.categories[b.category_of[i] as int] == m[i].category
}

/// No category appears twice in `categories_in_order`.
pub proof fn lemma_categories_distinct(m: Seq<ExpenseView>)
    ensures
        categories_in_order(m).no_duplicates(),
    decreases m.len(),
{
    if m.len() > 0 {
        lemma_categories_distinct(m.drop_last());
    }
}

/// The position of the first expense with the id, if any.
fn find_index(expenses: &Vec<Expense>, id: &str) -> (r: Option<usize>)
    ensures
        match r {
            Some(i) => is_first_with_id(views(expenses@), id@, i as int),
            None => !has_id(views(expenses@), id@),
        },
{
    let mut i: usize = 0;
    while i < expenses.len()
        invariant
            i <= expenses.len(),
            forall|j: int| 0 <= j < i ==> #[trigger] views(expenses@)[j].id != id@,
        decreases expenses.len() - i,
    {
        if str_eq(expenses[i].id.as_str(), id) {
            return Some(i);
        }
        i += 1;
    }
    None
}

/// The position of a category among the categories, if it is there.
fn position_of(categories: &Vec<String>, category: &String) -> (r: Option<usize>)
    ensures
        match r {
            Some(j) => j < categories.len() && categories@[j as int]@ == category@,
            None => !string_views(categories@).contains(category@),
        },
{
    let mut j: usize = 0;
    while j < categories.len()
        invariant
            j <= categories.len(),
            forall|t: int| 0 <= t < j ==> #[trigger] string_views(categories@)[t] != category@,
        decreases categories.len() - j,
    {
        if categories[j] == *category {
            return Some(j);
        }
        j += 1;
    }
    None
}

impl AppState {
    /// Lists the expenses, optionally those of one category (compared
    /// without regard to case) and of one `YYYY-MM` month.
    pub fn list_expenses(
        &self,
        provided: Option<&str>,
        category: Option<&str>,
        month: Option<&str>,
    ) -> (r: Result<Vec<Expense>, ApiError>)
        ensures
            match r {
                Ok(v) => self@.list(opt_str_view(provided), opt_str_view(category), opt_str_view(month))
                    == Ok::<Seq<ExpenseView>, ApiError>(views(v@)),
                Err(e) => self@.list(opt_str_view(provided), opt_str_view(category), opt_str_view(month))
                    == Err::<Seq<ExpenseView>, ApiError>(e),
            },
            self@.consistent(),
    {
        match self.authorize(provided) {
            Err(e) => return Err(e),
            Ok(()) => {},
        }
        match month {
            Some(m) => match validate_month(m) {
                Err(e) => return Err(e),
                Ok(()) => {},
            },
            None => {},
        }
        let wanted: Option<String> = match category {
            Some(c) => Some(to_lowercase(c)),
            None => None,
        };
        let ghost all = self@.expenses;
        let ghost cat = opt_str_view(category);
        let ghost mon = opt_str_view(month);
        let n = self.expenses.len();
        let mut out: Vec<Expense> = Vec::new();
        let mut i: usize = 0;
        while i < n
            invariant
                n == self.expenses.len(),
                all == views(self.expenses@),
                i <= n,
                cat == opt_str_view(category),
                mon == opt_str_view(month),
                wanted is None <==> category is None,
                wanted is Some ==> wanted->0@ == unicode_lowercase(category->0@),
                views(out@) == listed(all.take(i as int), cat, mon),
            decreases n - i,
        {
            let e = &self.expenses[i];
            let cat_ok = match &wanted {
                Some(w) => {
                    let lc = to_lowercase(e.category.as_str());
                    lc == *w
                },
                None => true,
            };
            let month_ok = match month {
                Some(m) => starts_with(e.date.as_str(), m),
                None => true,
            };
            let ghost before = out@;
            proof {
                assert(all.take(i + 1).drop_last() =~= all.take(i as int));
                assert(all.take(i + 1).last() == all[i as int]);
                assert(all[i as int] == e@);
            }
            if cat_ok && month_ok {
                out.push(e.cloned());
                assert(views(out@) =~= views(before).push(e@));
            }
            i += 1;
        }
        assert(all.take(n as int) =~= all);
        Ok(out)
    }

    /// Gets the first expense with the id.
    pub fn get_expense(&self, provided: Option<&str>, id: &str) -> (r: Result<Expense, ApiError>)
        ensures
            match r {
                Ok(e) => self@.get(opt_str_view(provided), id@) == Ok::<ExpenseView, ApiError>(e@),
                Err(err) => self@.get(opt_str_view(provided), id@) == Err::<ExpenseView, ApiError>(
                    err,
                ),
            },
            self@.consistent(),
    {
        match self.authorize(provided) {
            Err(e) => return Err(e),
            Ok(()) => {},
        }
        match find_index(&self.expenses, id) {
            Some(i) => {
                proof {
                    lemma_first_index_unique(self@.expenses, id@, i as int);
                }
                Ok(self.expenses[i].cloned())
            },
            None => Err(ApiError::NotFound),
        }
    }

    /// Records a new expense under the next id, after checking its date and
    /// then its amount.
    pub fn create_expense(
        &mut self,
        provided: Option<&str>,
        description: String,
        amount_bits: u64,
        category: String,
        date: String,
    ) -> (r: Result<Expense, ApiError>)
        ensures
            ({
                let (s, res) = old(self)@.create(
                    opt_str_view(provided),
                    description@,
                    amount_bits,
                    category@,
                    date@,
                );
                &&& final(self)@ == s
                &&& match r {
                    Ok(e) => res == Ok::<ExpenseView, ApiError>(e@),
                    Err(err) => res == Err::<ExpenseView, ApiError>(err),
                }
            }),
            final(self)@.consistent(),
    {
        match self.authorize(provided) {
            Err(e) => return Err(e),
            Ok(()) => {},
        }
        match validate_date(date.as_str()) {
            Err(e) => return Err(e),
            Ok(()) => {},
        }
        match validate_amount(amount_bits) {
            Err(e) => return Err(e),
            Ok(()) => {},
        }
        proof {
            use_type_invariant(&*self);
            crate::expense_laws::law_create_keeps_consistent(
                self@,
                opt_str_view(provided),
                description@,
                amount_bits,
                category@,
                date@,
            );
        }
        let ghost before = self@;
        let id = decimal_string(self.next_id);
        let next_id = self.next_id.wrapping_add(1);
        let expense = Expense { id, description, amount_bits, category, date };
        let r = expense.cloned();
        let mut expenses: Vec<Expense> = Vec::new();
        std::mem::swap(&mut expenses, &mut self.expenses);
        let mut api_key = String::new();
        std::mem::swap(&mut api_key, &mut self.api_key);
        let ghost kept = expenses@;
        expenses.push(expense);
        assert(views(expenses@) =~= views(kept).push(r@));
        let created = Ghost(self.created@ + 1);
        *self = AppState { expenses, next_id, api_key, created };
        Ok(r)
    }

    /// Replaces the given fields of the first expense with the id, after
    /// checking the amount and then the date.
    pub fn update_expense(
        &mut self,
        provided: Option<&str>,
        id: &str,
        description: Option<String>,
        amount_bits: Option<u64>,
        category: Option<String>,
        date: Option<String>,
    ) -> (r: Result<Expense, ApiError>)
        ensures
            ({
                let (s, res) = old(self)@.update(
                    opt_str_view(provided),
                    id@,
                    opt_string_view(description),
                    amount_bits,
                    opt_string_view(category),
                    opt_string_view(date),
                );
                &&& final(self)@ == s
                &&& match r {
                    Ok(e) => res == Ok::<ExpenseView, ApiError>(e@),
                    Err(err) => res == Err::<ExpenseView, ApiError>(err),
                }
            }),
            final(self)@.consistent(),
    {
        match self.authorize(provided) {
            Err(e) => return Err(e),
            Ok(()) => {},
        }
        match amount_bits {
            Some(a) => match validate_amount(a) {
                Err(e) => return Err(e),
                Ok(()) => {},
            },
            None => {},
        }
        match &date {
            Some(d) => match validate_date(d.as_str()) {
                Err(e) => return Err(e),
                Ok(()) => {},
            },
            None => {},
        }
        match find_index(&self.expenses, id) {
            None => Err(ApiError::NotFound),
            Some(i) => {
                proof {
                    lemma_first_index_unique(self@.expenses, id@, i as int);
                }
                let ghost before = self.expenses@;
                let mut e = self.expenses[i].cloned();
                match description {
                    Some(d) => e.description = d,
                    None => {},
                }
                match amount_bits {
                    Some(a) => e.amount_bits = a,
                    None => {},
                }
                match category {
                    Some(c) => e.category = c,
                    None => {},
                }
                match date {
                    Some(d) => e.date = d,
                    None => {},
                }
                let r = e.cloned();
                proof {
                    use_type_invariant(&*self);
                    crate::expense_laws::law_update_keeps_consistent(
                        self@,
                        opt_str_view(provided),
                        id@,
                        opt_string_view(description),
                        amount_bits,
                        opt_string_view(category),
                        opt_string_view(date),
                    );
                }
                let mut expenses: Vec<Expense> = Vec::new();
                std::mem::swap(&mut expenses, &mut self.expenses);
                expenses.set(i, e);
                assert(views(expenses@) =~= views(before).update(i as int, r@));
                self.expenses = expenses;
                Ok(r)
            },
        }
    }

    /// Deletes every expense with the id.
    pub fn delete_expense(&mut self, provided: Option<&str>, id: &str) -> (r: Result<(), ApiError>)
        ensures
            ({
                let (s, res) = old(self)@.delete(opt_str_view(provided), id@);
                final(self)@ == s && r == res
            }),
            final(self)@.consistent(),
    {
        match self.authorize(provided) {
            Err(e) => return Err(e),
            Ok(()) => {},
        }
        let ghost all = self@.expenses;
        let n = self.expenses.len();
        let mut kept: Vec<Expense> = Vec::new();
        let mut i: usize = 0;
        while i < n
            invariant
                n == self.expenses.len(),
                all == views(self.expenses@),
                i <= n,
                views(kept@) == without_id(all.take(i as int), id@),
            decreases n - i,
        {
            let e = &self.expenses[i];
            let ghost before = kept@;
            proof {
                assert(all.take(i + 1).drop_last() =~= all.take(i as int));
                assert(all.take(i + 1).last() == all[i as int]);
                assert(all[i as int] == e@);
            }
            if !str_eq(e.id.as_str(), id) {
                kept.push(e.cloned());
                assert(views(kept@) =~= views(before).push(e@));
            }
            i += 1;
        }
        assert(all.take(n as int) =~= all);
        proof {
            lemma_without_id(all, id@);
            use_type_invariant(&*self);
            crate::expense_laws::law_delete_keeps_consistent(self@, opt_str_view(provided), id@);
        }
        let kept_len = kept.len();
        self.expenses = kept;
        if kept_len == n {
            Err(ApiError::NotFound)
        } else {
            Ok(())
        }
    }

    /// The breakdown of the expenses of a `YYYY-MM` month (of all months
    /// when none is given), from which the total and the sum per category
    /// are added up.
    pub fn get_summary(&self, provided: Option<&str>, month: Option<&str>) -> (r: Result<
        SpendingBreakdown,
        ApiError,
    >)
        ensures
            match r {
                Ok(b) => self@.summary(opt_str_view(provided), opt_str_view(month)) matches Ok(m)
                    && is_breakdown_of(b@, m),
                Err(e) => self@.summary(opt_str_view(provided), opt_str_view(month)) == Err::<
                    Seq<ExpenseView>,
                    ApiError,
                >(e),
            },
            self@.consistent(),
    {
        match self.authorize(provided) {
            Err(e) => return Err(e),
            Ok(()) => {},
        }
        match month {
            Some(m) => match validate_month(m) {
                Err(e) => return Err(e),
                Ok(()) => {},
            },
            None => {},
        }
        let ghost all = self@.expenses;
        let ghost mon = opt_str_view(month);
        let n = self.expenses.len();
        let mut amounts: Vec<u64> = Vec::new();
        let mut categories: Vec<String> = Vec::new();
        let mut category_of: Vec<usize> = Vec::new();
        proof {
            assert(all.take(0) =~= Seq::<ExpenseView>::empty());
            assert(amounts@ =~= amounts_of(Seq::<ExpenseView>::empty()));
            assert(string_views(categories@) =~= Seq::<Seq<char>>::empty());
        }
        let mut i: usize = 0;
        while i < n
            invariant
                n == self.expenses.len(),
                all == views(self.expenses@),
                i <= n,
                mon == opt_str_view(month),
                is_breakdown_of(
                    BreakdownView {
                        amounts: amounts@,
                        categories: string_views(categories@),
                        category_of: category_of@,
                    },
                    in_month(all.take(i as int), mon),
                ),
            decreases n - i,
        {
            let e = &self.expenses[i];
            let ghost m0 = in_month(all.take(i as int), mon);
            let ghost cats0 = string_views(categories@);
            let ghost of0 = category_of@;
            let ghost am0 = amounts@;
            proof {
                assert(all.take(i + 1).drop_last() =~= all.take(i as int));
                assert(all.take(i + 1).last() == all[i as int]);
                assert(all[i as int] == e@);
            }
            let keep = match month {
                Some(m) => starts_with(e.date.as_str(), m),
                None => true,
            };
            if keep {
                let ghost m1 = m0.push(e@);
                assert(in_month(all.take(i + 1), mon) == m1);
                assert(m1.drop_last() =~= m0);
                assert(m1.last() == e@);
                let j = match position_of(&categories, &e.category) {
                    Some(j) => {
                        assert(cats0[j as int] == e.category@);
                        assert(cats0.contains(e.category@));
                        j
                    },
                    None => {
                        let c = e.category.clone();
                        categories.push(c);
                        assert(string_views(categories@) =~= cats0.push(e.category@));
                        categories.len() - 1
                    },
                };
                amounts.push(e.amount_bits);
                category_of.push(j);
                assert(amounts@ =~= amounts_of(m1));
                assert forall|k: int| 0 <= k < m1.len() implies (#[trigger] category_of@[k])
                    < string_views(categories@).len() && string_views(categories@)[category_of@[k] as int]
                    == m1[k].category by {
                    if k < m0.len() {
                        assert(category_of@[k] == of0[k]);
                        assert(m1[k] == m0[k]);
                    }
                }
            } else {
                assert(in_month(all.take(i + 1), mon) == m0);
            }
            i += 1;
        }
        assert(all.take(n as int) =~= all);
        Ok(SpendingBreakdown { amounts, categories, category_of })
    }
}

} // verus!
