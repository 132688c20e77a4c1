//! Laws of the expense API, stated over the functions of `AppStateView`
//! that specify its handlers.

use vstd::prelude::*;
use crate::expense_api::{
    amount_is_valid, categories_in_order, is_breakdown_of, lemma_categories_distinct,
    lemma_without_id, BreakdownView, date_is_valid, first_index, has_id, in_month, is_first_with_id, is_issued_id,
    lemma_first_index_exists, lemma_first_index_unique, list_matches, listed, month_is_valid,
    naive_date_accepts_ymd, without_id, ApiError, AppStateView, ExpenseView,
};
use crate::text::{decimal, lemma_decimal_injective, unicode_lowercase};

verus! {

/// A request without the server's key is refused with `Unauthorized` by
/// every handler, and changes nothing.
pub proof fn law_unauthorized_requests_are_refused(
    s: AppStateView,
    provided: Option<Seq<char>>,
    id: Seq<char>,
    description: Seq<char>,
    amount_bits: u64,
    category: Seq<char>,
    date: Seq<char>,
    new_description: Option<Seq<char>>,
    new_amount_bits: Option<u64>,
    new_category: Option<Seq<char>>,
    new_date: Option<Seq<char>>,
    filter_category: Option<Seq<char>>,
    month: Option<Seq<char>>,
)
    requires
        !s.authorized(provided),
    ensures
        s.list(provided, filter_category, month) == Err::<Seq<ExpenseView>, ApiError>(
            ApiError::Unauthorized,
        ),
        s.get(provided, id) == Err::<ExpenseView, ApiError>(ApiError::Unauthorized),
        s.summary(provided, month) == Err::<Seq<ExpenseView>, ApiError>(ApiError::Unauthorized),
        s.create(provided, description, amount_bits, category, date) == (
            s,
            Err::<ExpenseView, ApiError>(ApiError::Unauthorized),
        ),
        s.update(provided, id, new_description, new_amount_bits, new_category, new_date) == (
            s,
            Err::<ExpenseView, ApiError>(ApiError::Unauthorized),
        ),
        s.delete(provided, id) == (s, Err::<(), ApiError>(ApiError::Unauthorized)),
{
}

/// A refused creation, update or deletion leaves the state as it was.
pub proof fn law_refused_changes_keep_the_state(
    s: AppStateView,
    provided: Option<Seq<char>>,
    id: Seq<char>,
    description: Seq<char>,
    amount_bits: u64,
    category: Seq<char>,
    date: Seq<char>,
    new_description: Option<Seq<char>>,
    new_amount_bits: Option<u64>,
    new_category: Option<Seq<char>>,
    new_date: Option<Seq<char>>,
)
    ensures
        s.create(provided, description, amount_bits, category, date).1 is Err ==> s.create(
            provided,
            description,
            amount_bits,
            category,
            date,
        ).0 == s,
        s.update(provided, id, new_description, new_amount_bits, new_category, new_date).1 is Err
            ==> s.update(provided, id, new_description, new_amount_bits, new_category, new_date).0
            == s,
        s.delete(provided, id).1 is Err ==> s.delete(provided, id).0 == s,
{
}

/// Reading an expense right after creating it gives back the created
/// expense, as long as fewer than `u64::MAX` expenses had been created.
pub proof fn law_get_after_create(
    s: AppStateView,
    provided: Option<Seq<char>>,
    description: Seq<char>,
    amount_bits: u64,
    category: Seq<char>,
    date: Seq<char>,
)
    requires
        s.consistent(),
        s.created < u64::MAX,
    ensures
        ({
            let (s2, r) = s.create(provided, description, amount_bits, category, date);
            r is Ok ==> s2.get(provided, r->Ok_0.id) == r
        }),
{
    let (s2, r) = s.create(provided, description, amount_bits, category, date);
    if r is Ok {
        let e = r->Ok_0;
        let n = s.expenses.len() as int;
        assert(s2.expenses[n] == e);
        assert forall|j: int| 0 <= j < n implies #[trigger] s2.expenses[j].id != e.id by {
            assert(s2.expenses[j] == s.expenses[j]);
            assert(is_issued_id(s.expenses[j].id, s.created));
            let k = choose|k: nat| 1 <= k <= s.created && #[trigger] decimal(k) == s.expenses[j].id;
            if s.expenses[j].id == e.id {
                lemma_decimal_injective(k, s.next_id as nat);
            }
        }
        assert(is_first_with_id(s2.expenses, e.id, n));
        lemma_first_index_unique(s2.expenses, e.id, n);
    }
}

/// A successful creation hands out the decimal notation of one more than
/// the number created before, and counts it; a refused one changes
/// nothing. This holds while fewer than `u64::MAX` expenses have been
/// created.
pub proof fn law_create_counts_up(
    s: AppStateView,
    provided: Option<Seq<char>>,
    description: Seq<char>,
    amount_bits: u64,
    category: Seq<char>,
    date: Seq<char>,
)
    requires
        s.consistent(),
        s.created < u64::MAX,
    ensures
        ({
            let (s2, r) = s.create(provided, description, amount_bits, category, date);
            &&& r is Ok ==> r->Ok_0.id == decimal(s.created + 1) && s2.created == s.created + 1
            &&& r is Err ==> s2 == s
        }),
{
}

/// Creating an expense keeps the state consistent.
pub proof fn law_create_keeps_consistent(
    s: AppStateView,
    provided: Option<Seq<char>>,
    description: Seq<char>,
    amount_bits: u64,
    category: Seq<char>,
    date: Seq<char>,
)
    requires
        s.consistent(),
    ensures
        s.create(provided, description, amount_bits, category, date).0.consistent(),
{
    let (s2, r) = s.create(provided, description, amount_bits, category, date);
    if r is Ok && s2.created < u64::MAX {
        let e = r->Ok_0;
        let n = s.expenses.len() as int;
        assert(s.next_id == s.created + 1);
        assert(s2.next_id == s2.created + 1);
        assert forall|i: int| 0 <= i < s2.expenses.len() implies #[trigger] is_issued_id(
            s2.expenses[i].id,
            s2.created,
        ) by {
            if i < n {
                assert(s2.expenses[i] == s.expenses[i]);
                assert(is_issued_id(s.expenses[i].id, s.created));
                let k = choose|k: nat| 1 <= k <= s.created && #[trigger] decimal(k) == s.expenses[i].id;
                assert(decimal(k) == s2.expenses[i].id);
            } else {
                assert(decimal(s.created + 1) == s2.expenses[i].id);
            }
        }
        assert forall|i: int, j: int| 0 <= i < j < s2.expenses.len() implies #[trigger] s2.expenses[i].id
            != #[trigger] s2.expenses[j].id by {
            if j < n {
                assert(s2.expenses[i] == s.expenses[i]);
                assert(s2.expenses[j] == s.expenses[j]);
            } else {
                assert(s2.expenses[i] == s.expenses[i]);
                assert(is_issued_id(s.expenses[i].id, s.created));
                let k = choose|k: nat| 1 <= k <= s.created && #[trigger] decimal(k) == s.expenses[i].id;
                if s.expenses[i].id == e.id {
                    lemma_decimal_injective(k, s.created + 1);
                }
            }
        }
    }
}

/// An update keeps every id and the count, so it keeps the state
/// consistent.
pub proof fn law_update_keeps_consistent(
    s: AppStateView,
    provided: Option<Seq<char>>,
    id: Seq<char>,
    description: Option<Seq<char>>,
    amount_bits: Option<u64>,
    category: Option<Seq<char>>,
    date: Option<Seq<char>>,
)
    requires
        s.consistent(),
    ensures
        s.update(provided, id, description, amount_bits, category, date).0.consistent(),
        s.update(provided, id, description, amount_bits, category, date).0.created == s.created,
{
    let (s2, r) = s.update(provided, id, description, amount_bits, category, date);
    if r is Ok && s.created < u64::MAX {
        lemma_first_index_exists(s.expenses, id);
        assert forall|i: int| 0 <= i < s2.expenses.len() implies #[trigger] s2.expenses[i].id
            == s.expenses[i].id by {}
        assert forall|i: int| 0 <= i < s2.expenses.len() implies #[trigger] is_issued_id(
            s2.expenses[i].id,
            s2.created,
        ) by {
            assert(s2.expenses[i].id == s.expenses[i].id);
            assert(is_issued_id(s.expenses[i].id, s.created));
        }
        assert forall|i: int, j: int| 0 <= i < j < s2.expenses.len() implies #[trigger] s2.expenses[i].id
            != #[trigger] s2.expenses[j].id by {
            assert(s2.expenses[i].id == s.expenses[i].id);
            assert(s2.expenses[j].id == s.expenses[j].id);
        }
    }
}


/// Every expense left after dropping an id is one of the original expenses
/// and has another id; and distinct ids stay distinct.
pub proof fn lemma_without_id_members(s: Seq<ExpenseView>, id: Seq<char>)
    ensures
        forall|i: int|
            0 <= i < without_id(s, id).len() ==> s.contains(#[trigger] without_id(s, id)[i])
                && without_id(s, id)[i].id != id,
        (forall|i: int, j: int|
            0 <= i < j < s.len() ==> #[trigger] s[i].id != #[trigger] s[j].id) ==> (forall|
            i: int,
            j: int,
        |
            0 <= i < j < without_id(s, id).len() ==> #[trigger] without_id(s, id)[i].id
                != #[trigger] without_id(s, id)[j].id),
    decreases s.len(),
{
    if s.len() > 0 {
        let p = s.drop_last();
        lemma_without_id_members(p, id);
        let wp = without_id(p, id);
        let w = without_id(s, id);
        assert forall|i: int| 0 <= i < w.len() implies s.contains(#[trigger] w[i]) && w[i].id
            != id by {
            if i < wp.len() {
                assert(w[i] == wp[i]);
                assert(p.contains(wp[i]));
                let t = choose|t: int| 0 <= t < p.len() && p[t] == wp[i];
                assert(s[t] == p[t]);
            } else {
                assert(w[i] == s.last());
                assert(s[s.len() - 1] == s.last());
            }
        }
        if forall|i: int, j: int| 0 <= i < j < s.len() ==> #[trigger] s[i].id != #[trigger] s[j].id {
            assert forall|i: int, j: int| 0 <= i < j < p.len() implies #[trigger] p[i].id
                != #[trigger] p[j].id by {
                assert(p[i] == s[i]);
                assert(p[j] == s[j]);
            }
            assert forall|i: int, j: int| 0 <= i < j < w.len() implies #[trigger] w[i].id
                != #[trigger] w[j].id by {
                if j < wp.len() {
                    assert(w[i] == wp[i]);
                    assert(w[j] == wp[j]);
                } else {
                    assert(w[i] == wp[i]);
                    assert(w[j] == s.last());
                    assert(p.contains(wp[i]));
                    let t = choose|t: int| 0 <= t < p.len() && p[t] == wp[i];
                    assert(s[t] == p[t]);
                    assert(s[s.len() - 1] == s.last());
                }
            }
        }
    }
}

/// A deletion keeps the count, and keeps the state consistent.
pub proof fn law_delete_keeps_consistent(s: AppStateView, provided: Option<Seq<char>>, id: Seq<char>)
    requires
        s.consistent(),
    ensures
        s.delete(provided, id).0.consistent(),
        s.delete(provided, id).0.created == s.created,
{
    let (s2, r) = s.delete(provided, id);
    if r is Ok && s.created < u64::MAX {
        lemma_without_id_members(s.expenses, id);
        let w = s2.expenses;
        assert forall|i: int| 0 <= i < w.len() implies #[trigger] is_issued_id(w[i].id, s2.created) by {
            assert(s.expenses.contains(w[i]));
            let t = choose|t: int| 0 <= t < s.expenses.len() && s.expenses[t] == w[i];
            assert(is_issued_id(s.expenses[t].id, s.created));
        }
    }
}

/// After a deletion succeeds, no expense has the id: reading it gives
/// `NotFound`, and so does deleting it again.
pub proof fn law_get_after_delete(s: AppStateView, provided: Option<Seq<char>>, id: Seq<char>)
    ensures
        ({
            let (s2, r) = s.delete(provided, id);
            r is Ok ==> {
                &&& s2.get(provided, id) == Err::<ExpenseView, ApiError>(ApiError::NotFound)
                &&& s2.delete(provided, id) == (s2, Err::<(), ApiError>(ApiError::NotFound))
            }
        }),
{
    let (s2, r) = s.delete(provided, id);
    if r is Ok {
        lemma_without_id_members(s.expenses, id);
        let w = s2.expenses;
        if has_id(w, id) {
            let i = choose|i: int| 0 <= i < w.len() && #[trigger] w[i].id == id;
            assert(w[i].id != id);
        }
    }
}

/// Reading an expense right after updating it gives back the updated
/// expense.
pub proof fn law_get_after_update(
    s: AppStateView,
    provided: Option<Seq<char>>,
    id: Seq<char>,
    description: Option<Seq<char>>,
    amount_bits: Option<u64>,
    category: Option<Seq<char>>,
    date: Option<Seq<char>>,
)
    ensures
        ({
            let (s2, r) = s.update(provided, id, description, amount_bits, category, date);
            r is Ok ==> s2.get(provided, id) == r
        }),
{
    let (s2, r) = s.update(provided, id, description, amount_bits, category, date);
    if r is Ok {
        lemma_first_index_exists(s.expenses, id);
        let i = first_index(s.expenses, id);
        assert forall|j: int| 0 <= j < i implies #[trigger] s2.expenses[j].id != id by {
            assert(s2.expenses[j] == s.expenses[j]);
        }
        assert(is_first_with_id(s2.expenses, id, i));
        lemma_first_index_unique(s2.expenses, id, i);
    }
}

/// The month filter of a listing without a category is the month filter of
/// a summary.
pub proof fn lemma_in_month_is_listed(s: Seq<ExpenseView>, month: Option<Seq<char>>)
    ensures
        in_month(s, month) == listed(s, None, month),
    decreases s.len(),
{
    if s.len() > 0 {
        lemma_in_month_is_listed(s.drop_last(), month);
    }
}

/// A summary adds up exactly the expenses that a listing with the same
/// month and no category shows, and refuses the same requests.
pub proof fn law_summary_adds_up_the_listing(
    s: AppStateView,
    provided: Option<Seq<char>>,
    month: Option<Seq<char>>,
)
    ensures
        s.summary(provided, month) == s.list(provided, None, month),
{
    lemma_in_month_is_listed(s.expenses, month);
}

/// Two category filters that lowercase alike pick the same expenses.
pub proof fn lemma_listed_case_blind(
    s: Seq<ExpenseView>,
    c1: Seq<char>,
    c2: Seq<char>,
    month: Option<Seq<char>>,
)
    requires
        unicode_lowercase(c1) == unicode_lowercase(c2),
    ensures
        listed(s, Some(c1), month) == listed(s, Some(c2), month),
    decreases s.len(),
{
    if s.len() > 0 {
        lemma_listed_case_blind(s.drop_last(), c1, c2, month);
    }
}

/// The category filter of a listing does not depend on case: two
/// categories that lowercase alike give the same answer.
pub proof fn law_category_filter_ignores_case(
    s: AppStateView,
    provided: Option<Seq<char>>,
    c1: Seq<char>,
    c2: Seq<char>,
    month: Option<Seq<char>>,
)
    requires
        unicode_lowercase(c1) == unicode_lowercase(c2),
    ensures
        s.list(provided, Some(c1), month) == s.list(provided, Some(c2), month),
{
    lemma_listed_case_blind(s.expenses, c1, c2, month);
}

/// A request to the API, as its handlers receive it.
pub enum Request {
    List {
        provided: Option<Seq<char>>,
        filter_category: Option<Seq<char>>,
        month: Option<Seq<char>>,
    },
    Get { provided: Option<Seq<char>>, id: Seq<char> },
    Summary { provided: Option<Seq<char>>, month: Option<Seq<char>> },
    Create {
        provided: Option<Seq<char>>,
        description: Seq<char>,
        amount_bits: u64,
        category: Seq<char>,
        date: Seq<char>,
    },
    Update {
        provided: Option<Seq<char>>,
        id: Seq<char>,
        new_description: Option<Seq<char>>,
        new_amount_bits: Option<u64>,
        new_category: Option<Seq<char>>,
        new_date: Option<Seq<char>>,
    },
    Delete { provided: Option<Seq<char>>, id: Seq<char> },
}

/// The state after one request.
pub open spec fn step(s: AppStateView, r: Request) -> AppStateView {
    match r {
        Request::Create { provided, description, amount_bits, category, date } => s.create(
            provided,
            description,
            amount_bits,
            category,
            date,
        ).0,
        Request::Update {
            provided,
            id,
            new_description,
            new_amount_bits,
            new_category,
            new_date,
        } => s.update(provided, id, new_description, new_amount_bits, new_category, new_date).0,
        Request::Delete { provided, id } => s.delete(provided, id).0,
        _ => s,
    }
}

/// The id that a request hands out: that of the expense a successful
/// creation returns.
pub open spec fn handed_out(s: AppStateView, r: Request) -> Option<Seq<char>> {
    match r {
        Request::Create { provided, description, amount_bits, category, date } => match s.create(
            provided,
            description,
            amount_bits,
            category,
            date,
        ).1 {
            Ok(e) => Some(e.id),
            Err(_) => None,
        },
        _ => None,
    }
}

/// The state after the requests, one after another.
pub open spec fn run(s: AppStateView, requests: Seq<Request>) -> AppStateView
    decreases requests.len(),
{
    if requests.len() == 0 {
        s
    } else {
        step(run(s, requests.drop_last()), requests.last())
    }
}

/// The ids that the requests hand out, in order.
pub open spec fn ids_handed_out(s: AppStateView, requests: Seq<Request>) -> Seq<Seq<char>>
    decreases requests.len(),
{
    if requests.len() == 0 {
        Seq::empty()
    } else {
        let before = ids_handed_out(s, requests.drop_last());
        match handed_out(run(s, requests.drop_last()), requests.last()) {
            Some(id) => before.push(id),
            None => before,
        }
    }
}

/// Over any sequence of requests, successful creations included, refused
/// ones and deletions too: the state stays consistent (so the stored ids
/// stay pairwise distinct), every successful creation is counted, and,
/// until `u64::MAX` expenses have been created, the k-th successful
/// creation hands out the decimal notation of the count before plus k.
/// From a fresh state that is "1", "2", "3", and so on: no id is ever
/// handed out twice.
pub proof fn law_ids_count_up(s: AppStateView, requests: Seq<Request>)
    requires
        s.consistent(),
    ensures
        run(s, requests).consistent(),
        run(s, requests).created == s.created + ids_handed_out(s, requests).len(),
        run(s, requests).created < u64::MAX ==> forall|i: int|
            0 <= i < ids_handed_out(s, requests).len() ==> #[trigger] ids_handed_out(s, requests)[i]
                == decimal((s.created + i + 1) as nat),
    decreases requests.len(),
{
    if requests.len() > 0 {
        let p = requests.drop_last();
        law_ids_count_up(s, p);
        let before = run(s, p);
        let ids = ids_handed_out(s, p);
        match requests.last() {
            Request::Create { provided, description, amount_bits, category, date } => {
                law_create_keeps_consistent(before, provided, description, amount_bits, category, date);
                if before.created < u64::MAX {
                    law_create_counts_up(before, provided, description, amount_bits, category, date);
                }
                let all = ids_handed_out(s, requests);
                if run(s, requests).created < u64::MAX {
                    assert forall|i: int| 0 <= i < all.len() implies #[trigger] all[i] == decimal(
                        (s.created + i + 1) as nat,
                    ) by {
                        if i < ids.len() {
                            assert(all[i] == ids[i]);
                        }
                    }
                }
            },
            Request::Update {
                provided,
                id,
                new_description,
                new_amount_bits,
                new_category,
                new_date,
            } => {
                law_update_keeps_consistent(
                    before,
                    provided,
                    id,
                    new_description,
                    new_amount_bits,
                    new_category,
                    new_date,
                );
            },
            Request::Delete { provided, id } => {
                law_delete_keeps_consistent(before, provided, id);
            },
            _ => {},
        }
    }
}

/// A month is accepted exactly when it is written as four ASCII digits, a
/// hyphen and two ASCII digits, and the first day of that month is a date
/// that chrono reads as `%Y-%m-%d`. So every month of a calendar year is
/// accepted, however many days it has.
pub proof fn law_month_is_accepted_by_its_first_day(m: Seq<char>)
    ensures
        month_is_valid(m) <==> {
            &&& m.len() == 7
            &&& m[4] == '-'
            &&& forall|i: int| 0 <= i < 7 && i != 4 ==> '0' <= #[trigger] m[i] && m[i] <= '9'
            &&& naive_date_accepts_ymd(m + seq!['-', '0', '1'])
        },
{
    if m.len() == 7 && m[4] == '-' && (forall|i: int|
        0 <= i < 7 && i != 4 ==> '0' <= #[trigger] m[i] && m[i] <= '9') {
        assert('0' <= m[0] && m[0] <= '9');
        assert('0' <= m[1] && m[1] <= '9');
        assert('0' <= m[2] && m[2] <= '9');
        assert('0' <= m[3] && m[3] <= '9');
        assert('0' <= m[5] && m[5] <= '9');
        assert('0' <= m[6] && m[6] <= '9');
    }
}

/// A date is accepted exactly when it is written as four ASCII digits, a
/// hyphen, two ASCII digits, a hyphen and two ASCII digits, and chrono
/// reads it as a calendar date with `%Y-%m-%d`. Any two digits may stand
/// for the day; chrono alone decides which days exist.
pub proof fn law_date_is_accepted_by_its_form_and_chrono(d: Seq<char>)
    ensures
        date_is_valid(d) <==> {
            &&& d.len() == 10
            &&& d[4] == '-'
            &&& d[7] == '-'
            &&& forall|i: int| 0 <= i < 10 && i != 4 && i != 7 ==> '0' <= #[trigger] d[i] && d[i] <= '9'
            &&& naive_date_accepts_ymd(d)
        },
{
    if d.len() == 10 {
        let t = d.take(7);
        assert(t[0] == d[0] && t[1] == d[1] && t[2] == d[2] && t[3] == d[3] && t[4] == d[4]
            && t[5] == d[5] && t[6] == d[6]);
        if d[4] == '-' && d[7] == '-' && (forall|i: int|
            0 <= i < 10 && i != 4 && i != 7 ==> '0' <= #[trigger] d[i] && d[i] <= '9') {
            assert('0' <= d[0] && d[0] <= '9');
            assert('0' <= d[1] && d[1] <= '9');
            assert('0' <= d[2] && d[2] <= '9');
            assert('0' <= d[3] && d[3] <= '9');
            assert('0' <= d[5] && d[5] <= '9');
            assert('0' <= d[6] && d[6] <= '9');
            assert('0' <= d[8] && d[8] <= '9');
            assert('0' <= d[9] && d[9] <= '9');
        }
        if date_is_valid(d) {
            assert forall|i: int| 0 <= i < 10 && i != 4 && i != 7 implies '0' <= #[trigger] d[i]
                && d[i] <= '9' by {
                if i < 7 {
                    assert(t[i] == d[i]);
                }
            }
        }
    }
}

/// For an authorized request, a listing or a summary of a month is refused
/// exactly when a creation dated the first day of that month would be
/// refused for its date: a month is valid when its first day is.
pub proof fn law_month_valid_when_its_first_day_is(
    s: AppStateView,
    provided: Option<Seq<char>>,
    category: Option<Seq<char>>,
    m: Seq<char>,
    description: Seq<char>,
    amount_bits: u64,
    expense_category: Seq<char>,
)
    requires
        provided == Some(s.api_key),
        s.api_key.len() > 0,
    ensures
        (s.list(provided, category, Some(m)) is Ok) <==> (s.create(
            provided,
            description,
            amount_bits,
            expense_category,
            m + seq!['-', '0', '1'],
        ).1 != Err::<ExpenseView, ApiError>(ApiError::InvalidDate)),
        (s.summary(provided, Some(m)) is Ok) <==> (s.list(provided, category, Some(m)) is Ok),
        (s.list(provided, category, Some(m)) is Err) ==> s.list(provided, category, Some(m))
            == Err::<Seq<ExpenseView>, ApiError>(ApiError::InvalidMonth),
{
    law_month_is_accepted_by_its_first_day(m);
    let d = m + seq!['-', '0', '1'];
    law_date_is_accepted_by_its_form_and_chrono(d);
    if d.len() == 10 {
        assert(d[4] == m[4]);
        assert(d[7] == '-');
        assert(d[8] == '0' && d[9] == '1');
        assert forall|i: int| 0 <= i < 7 implies #[trigger] d[i] == m[i] by {}
    }
}

/// For an authorized request with a valid amount, a creation is refused
/// for its date exactly when the date is not four ASCII digits, a hyphen,
/// two ASCII digits, a hyphen and two ASCII digits that chrono reads as a
/// calendar date; otherwise it succeeds and stores the expense with that
/// date.
pub proof fn law_create_accepts_every_calendar_date(
    s: AppStateView,
    provided: Option<Seq<char>>,
    description: Seq<char>,
    amount_bits: u64,
    category: Seq<char>,
    d: Seq<char>,
)
    requires
        provided == Some(s.api_key),
        s.api_key.len() > 0,
        (amount_bits / 0x10_0000_0000_0000) % 0x800 != 0x7ff,
        amount_bits <= 0x8000_0000_0000_0000,
    ensures
        ({
            let (s2, r) = s.create(provided, description, amount_bits, category, d);
            let well_written = {
                &&& d.len() == 10
                &&& d[4] == '-'
                &&& d[7] == '-'
                &&& forall|i: int|
                    0 <= i < 10 && i != 4 && i != 7 ==> '0' <= #[trigger] d[i] && d[i] <= '9'
            };
            &&& (well_written && naive_date_accepts_ymd(d)) ==> (r is Ok && r->Ok_0.date == d
                && s2.expenses == s.expenses.push(r->Ok_0))
            &&& !(well_written && naive_date_accepts_ymd(d)) ==> r == Err::<ExpenseView, ApiError>(
                ApiError::InvalidDate,
            )
        }),
{
    law_date_is_accepted_by_its_form_and_chrono(d);
}

/// The filter that a listing states by hand is `Seq::filter` with the same
/// condition.
proof fn lemma_listed_is_filter(
    s: Seq<ExpenseView>,
    category: Option<Seq<char>>,
    month: Option<Seq<char>>,
    pred: spec_fn(ExpenseView) -> bool,
)
    requires
        forall|e: ExpenseView| #[trigger] pred(e) == list_matches(e, category, month),
    ensures
        listed(s, category, month) == s.filter(pred),
    decreases s.len(),
{
    reveal(Seq::filter);
    if s.len() > 0 {
        lemma_listed_is_filter(s.drop_last(), category, month, pred);
    }
}

/// A listing answers exactly the recorded expenses, in their order, whose
/// category equals the wanted one once both are lowercased (every category
/// when none is wanted) and whose date begins with the wanted month (every
/// date when none is wanted).
pub proof fn law_listing_keeps_exactly_the_matching_expenses(
    s: AppStateView,
    provided: Option<Seq<char>>,
    category: Option<Seq<char>>,
    month: Option<Seq<char>>,
)
    ensures
        s.list(provided, category, month) is Ok ==> s.list(provided, category, month)->Ok_0
            == s.expenses.filter(
            |e: ExpenseView|
                (match category {
                    Some(c) => unicode_lowercase(e.category) == unicode_lowercase(c),
                    None => true,
                }) && (match month {
                    Some(m) => m.is_prefix_of(e.date),
                    None => true,
                }),
        ),
{
    let pred = |e: ExpenseView|
        (match category {
            Some(c) => unicode_lowercase(e.category) == unicode_lowercase(c),
            None => true,
        }) && (match month {
            Some(m) => m.is_prefix_of(e.date),
            None => true,
        });
    assert forall|e: ExpenseView| #[trigger] pred(e) == list_matches(e, category, month) by {
        match month {
            Some(m) => {
                if m.len() <= e.date.len() {
                    assert(m.is_prefix_of(e.date) == (e.date.subrange(0, m.len() as int) == m));
                }
            },
            None => {},
        }
    }
    lemma_listed_is_filter(s.expenses, category, month, pred);
}

/// A successful update changes only the first expense with the id, and in
/// it only the fields that are given: each absent field keeps its value,
/// each given field takes the given value, and the id stays. Nothing else
/// of the state changes.
pub proof fn law_update_changes_only_the_given_fields(
    s: AppStateView,
    provided: Option<Seq<char>>,
    id: Seq<char>,
    description: Option<Seq<char>>,
    amount_bits: Option<u64>,
    category: Option<Seq<char>>,
    date: Option<Seq<char>>,
)
    ensures
        ({
            let (s2, r) = s.update(provided, id, description, amount_bits, category, date);
            r is Ok ==> exists|i: int|
                #![trigger s.expenses[i]]
                {
                    let old_e = s.expenses[i];
                    let e = r->Ok_0;
                    &&& 0 <= i < s.expenses.len()
                    &&& old_e.id == id
                    &&& forall|j: int| 0 <= j < i ==> #[trigger] s.expenses[j].id != id
                    &&& s2.expenses == s.expenses.update(i, e)
                    &&& s2.next_id == s.next_id && s2.api_key == s.api_key && s2.created
                        == s.created
                    &&& e.id == old_e.id
                    &&& (description is None ==> e.description == old_e.description)
                    &&& (description matches Some(x) ==> e.description == x)
                    &&& (amount_bits is None ==> e.amount_bits == old_e.amount_bits)
                    &&& (amount_bits matches Some(x) ==> e.amount_bits == x)
                    &&& (category is None ==> e.category == old_e.category)
                    &&& (category matches Some(x) ==> e.category == x)
                    &&& (date is None ==> e.date == old_e.date)
                    &&& (date matches Some(x) ==> e.date == x)
                }
        }),
{
    let (s2, r) = s.update(provided, id, description, amount_bits, category, date);
    if r is Ok {
        lemma_first_index_exists(s.expenses, id);
        let i = first_index(s.expenses, id);
        assert(is_first_with_id(s.expenses, id, i));
    }
}

/// A request is let through exactly when it carries the server's key and
/// that key is not empty; every other request is answered `Unauthorized`
/// by each handler, and leaves the state as it was.
pub proof fn law_only_the_server_key_is_accepted(
    s: AppStateView,
    provided: Option<Seq<char>>,
    id: Seq<char>,
    description: Seq<char>,
    amount_bits: u64,
    category: Seq<char>,
    date: Seq<char>,
    new_description: Option<Seq<char>>,
    new_amount_bits: Option<u64>,
    new_category: Option<Seq<char>>,
    new_date: Option<Seq<char>>,
    filter_category: Option<Seq<char>>,
    month: Option<Seq<char>>,
)
    ensures
        ({
            let key_ok = provided == Some(s.api_key) && s.api_key.len() > 0;
            let refused = Err::<ExpenseView, ApiError>(ApiError::Unauthorized);
            &&& (s.list(provided, filter_category, month) == Err::<Seq<ExpenseView>, ApiError>(
                ApiError::Unauthorized)) <==> !key_ok
            &&& (s.summary(provided, month) == Err::<Seq<ExpenseView>, ApiError>(
                ApiError::Unauthorized)) <==> !key_ok
            &&& (s.get(provided, id) == refused) <==> !key_ok
            &&& (s.create(provided, description, amount_bits, category, date).1 == refused)
                <==> !key_ok
            &&& (s.update(provided, id, new_description, new_amount_bits, new_category, new_date).1
                == refused) <==> !key_ok
            &&& (s.delete(provided, id).1 == Err::<(), ApiError>(ApiError::Unauthorized))
                <==> !key_ok
            &&& !key_ok ==> s.create(provided, description, amount_bits, category, date).0 == s
            &&& !key_ok ==> s.update(
                provided,
                id,
                new_description,
                new_amount_bits,
                new_category,
                new_date,
            ).0 == s
            &&& !key_ok ==> s.delete(provided, id).0 == s
        }),
{
}

/// For an authorized request, reading an id finds the first recorded
/// expense with that id, and is `NotFound` exactly when none has it.
pub proof fn law_get_finds_the_first_expense_with_the_id(
    s: AppStateView,
    provided: Option<Seq<char>>,
    id: Seq<char>,
)
    requires
        provided == Some(s.api_key),
        s.api_key.len() > 0,
    ensures
        (s.get(provided, id) == Err::<ExpenseView, ApiError>(ApiError::NotFound)) <==> (forall|
            i: int,
        | 0 <= i < s.expenses.len() ==> #[trigger] s.expenses[i].id != id),
        forall|i: int|
            0 <= i < s.expenses.len() && #[trigger] s.expenses[i].id == id && (forall|j: int|
                0 <= j < i ==> #[trigger] s.expenses[j].id != id) ==> s.get(provided, id)
                == Ok::<ExpenseView, ApiError>(s.expenses[i]),
{
    assert forall|i: int|
        0 <= i < s.expenses.len() && #[trigger] s.expenses[i].id == id && (forall|j: int|
            0 <= j < i ==> #[trigger] s.expenses[j].id != id) implies s.get(provided, id) == Ok::<
        ExpenseView,
        ApiError,
    >(s.expenses[i]) by {
        assert(is_first_with_id(s.expenses, id, i));
        lemma_first_index_unique(s.expenses, id, i);
    }
    if has_id(s.expenses, id) {
        let w = choose|w: int| 0 <= w < s.expenses.len() && #[trigger] s.expenses[w].id == id;
        assert(s.expenses[w].id == id);
    }
}

/// For an authorized request, a deletion removes exactly the expenses with
/// the id, keeping the others in order, and is `NotFound` (changing
/// nothing) exactly when none has it.
pub proof fn law_delete_removes_exactly_that_id(
    s: AppStateView,
    provided: Option<Seq<char>>,
    id: Seq<char>,
)
    requires
        provided == Some(s.api_key),
        s.api_key.len() > 0,
    ensures
        ({
            let (s2, r) = s.delete(provided, id);
            &&& s2.expenses == s.expenses.filter(|e: ExpenseView| e.id != id)
            &&& s2.next_id == s.next_id && s2.api_key == s.api_key && s2.created == s.created
            &&& (r == Err::<(), ApiError>(ApiError::NotFound)) <==> (forall|i: int|
                0 <= i < s.expenses.len() ==> #[trigger] s.expenses[i].id != id)
            &&& r is Err ==> r == Err::<(), ApiError>(ApiError::NotFound)
        }),
{
    let pred = |e: ExpenseView| e.id != id;
    lemma_without_id_is_filter(s.expenses, id, pred);
    lemma_without_id(s.expenses, id);
    if has_id(s.expenses, id) {
        let w = choose|w: int| 0 <= w < s.expenses.len() && #[trigger] s.expenses[w].id == id;
        assert(s.expenses[w].id == id);
    }
}

proof fn lemma_without_id_is_filter(
    s: Seq<ExpenseView>,
    id: Seq<char>,
    pred: spec_fn(ExpenseView) -> bool,
)
    requires
        forall|e: ExpenseView| #[trigger] pred(e) == (e.id != id),
    ensures
        without_id(s, id) == s.filter(pred),
    decreases s.len(),
{
    reveal(Seq::filter);
    if s.len() > 0 {
        lemma_without_id_is_filter(s.drop_last(), id, pred);
    }
}

/// For an authorized request with a finite, non-negative amount and a date
/// written `YYYY-MM-DD` that chrono reads, a creation records the given
/// fields under the decimal notation of the counter, appends the expense,
/// and advances the counter by one (wrapping at the end of `u64`).
pub proof fn law_create_records_the_given_expense(
    s: AppStateView,
    provided: Option<Seq<char>>,
    description: Seq<char>,
    amount_bits: u64,
    category: Seq<char>,
    d: Seq<char>,
)
    requires
        provided == Some(s.api_key),
        s.api_key.len() > 0,
        amount_bits < 0x7ff0_0000_0000_0000 || amount_bits == 0x8000_0000_0000_0000,
        d.len() == 10,
        d[4] == '-',
        d[7] == '-',
        forall|i: int| 0 <= i < 10 && i != 4 && i != 7 ==> '0' <= #[trigger] d[i] && d[i] <= '9',
        naive_date_accepts_ymd(d),
    ensures
        ({
            let (s2, r) = s.create(provided, description, amount_bits, category, d);
            let e = ExpenseView {
                id: decimal(s.next_id as nat),
                description,
                amount_bits,
                category,
                date: d,
            };
            &&& r == Ok::<ExpenseView, ApiError>(e)
            &&& s2.expenses == s.expenses.push(e)
            &&& s2.next_id == (if s.next_id == u64::MAX { 0 } else { s.next_id + 1 })
            &&& s2.api_key == s.api_key
        }),
{
    law_date_is_accepted_by_its_form_and_chrono(d);
    law_amount_is_a_finite_non_negative_double(amount_bits);
}

/// An amount is valid exactly when its bit pattern is that of a
/// non-negative finite double (the patterns below that of positive
/// infinity, `0x7ff0_0000_0000_0000`) or of negative zero.
pub proof fn law_amount_is_a_finite_non_negative_double(bits: u64)
    ensures
        amount_is_valid(bits) <==> (bits < 0x7ff0_0000_0000_0000 || bits
            == 0x8000_0000_0000_0000),
{
    assert(((bits / 0x10_0000_0000_0000) % 0x800 != 0x7ff && (bits < 0x8000_0000_0000_0000 || bits
        == 0x8000_0000_0000_0000)) <==> (bits < 0x7ff0_0000_0000_0000 || bits
        == 0x8000_0000_0000_0000)) by (bit_vector);
}

/// Every category that `categories_in_order` lists is the category of one
/// of the expenses.
proof fn lemma_categories_come_from_expenses(m: Seq<ExpenseView>)
    ensures
        forall|j: int|
            0 <= j < categories_in_order(m).len() ==> exists|i: int|
                0 <= i < m.len() && #[trigger] m[i].category == #[trigger] categories_in_order(
                    m,
                )[j],
    decreases m.len(),
{
    if m.len() > 0 {
        let p = m.drop_last();
        lemma_categories_come_from_expenses(p);
        let c = categories_in_order(m);
        let cp = categories_in_order(p);
        assert forall|j: int| 0 <= j < c.len() implies exists|i: int|
            0 <= i < m.len() && #[trigger] m[i].category == #[trigger] c[j] by {
            if j < cp.len() {
                assert(c[j] == cp[j]);
                let i = choose|i: int| 0 <= i < p.len() && #[trigger] p[i].category == cp[j];
                assert(m[i] == p[i]);
            } else {
                assert(m[m.len() - 1].category == c[j]);
            }
        }
    }
}

/// A breakdown lists one amount per expense, that expense's amount, in
/// order; each amount points at its expense's category; the categories are
/// distinct, and each is the category of some expense.
pub proof fn law_breakdown_accounts_for_every_expense(b: BreakdownView, m: Seq<ExpenseView>)
    requires
        is_breakdown_of(b, m),
    ensures
        b.amounts.len() == m.len(),
        forall|i: int| 0 <= i < m.len() ==> #[trigger] b.amounts[i] == m[i].amount_bits,
        b.category_of.len() == m.len(),
        forall|i: int|
            0 <= i < m.len() ==> (#[trigger] b.category_of[i]) < b.categories.len()
                && b.categories[b.category_of[i] as int] == m[i].category,
        forall|j: int, k: int|
            0 <= j < k < b.categories.len() ==> #[trigger] b.categories[j]
                != #[trigger] b.categories[k],
        forall|j: int|
            0 <= j < b.categories.len() ==> exists|i: int|
                0 <= i < m.len() && #[trigger] m[i].category == #[trigger] b.categories[j],
{
    lemma_categories_distinct(m);
    lemma_categories_come_from_expenses(m);
}

} // verus!
