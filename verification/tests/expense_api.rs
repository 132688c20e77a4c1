use ai_agent::expense_api::{
    validate_amount, validate_date, validate_month, ApiError, AppState, SpendingBreakdown,
};

const KEY: &str = "test-key";

fn state() -> AppState {
    AppState::new().with_api_key("test-key".to_string())
}

fn create(
    s: &mut AppState,
    description: &str,
    amount: f64,
    category: &str,
    date: &str,
) -> Result<ai_agent::expense_api::Expense, ApiError> {
    s.create_expense(
        Some(KEY),
        description.to_string(),
        amount.to_bits(),
        category.to_string(),
        date.to_string(),
    )
}

fn total(b: &SpendingBreakdown) -> f64 {
    let mut t = 0.0;
    for a in &b.amounts {
        t += f64::from_bits(*a);
    }
    t
}

#[test]
fn rejects_requests_without_the_api_key() {
    let s = state();
    let r = s.list_expenses(None, None, None);
    assert_eq!(r.unwrap_err().status(), 401);
}

#[test]
fn supports_create_list_get_update_delete_and_summary() {
    let mut s = state();
    let created = create(&mut s, "Lunch", 12.5, "Food", "2026-08-03").unwrap();
    assert_eq!(created.id, "1");

    let list = s.list_expenses(Some(KEY), Some("food"), Some("2026-08")).unwrap();
    assert_eq!(list.len(), 1);

    let got = s.get_expense(Some(KEY), "1");
    assert!(got.is_ok());

    let updated = s
        .update_expense(Some(KEY), "1", None, Some(15.0f64.to_bits()), None, None)
        .unwrap();
    assert_eq!(f64::from_bits(updated.amount_bits), 15.0);

    let summary = s.get_summary(Some(KEY), Some("2026-08")).unwrap();
    assert_eq!(total(&summary), 15.0);

    assert_eq!(s.delete_expense(Some(KEY), "1"), Ok(()));

    let missing = s.get_expense(Some(KEY), "1");
    assert_eq!(missing.unwrap_err().status(), 404);
}

#[test]
fn empty_key_authorizes_nothing() {
    let mut s = AppState::new();
    assert_eq!(s.list_expenses(Some(""), None, None).unwrap_err(), ApiError::Unauthorized);
    assert_eq!(
        s.create_expense(Some(""), "x".to_string(), 1.0f64.to_bits(), "c".to_string(), "2026-01-01".to_string())
            .unwrap_err(),
        ApiError::Unauthorized
    );
    assert_eq!(s.get_summary(None, None).unwrap_err(), ApiError::Unauthorized);
}

#[test]
fn wrong_key_is_refused_and_changes_nothing() {
    let mut s = state();
    create(&mut s, "Lunch", 12.5, "Food", "2026-08-03").unwrap();
    assert_eq!(s.delete_expense(Some("other"), "1"), Err(ApiError::Unauthorized));
    assert_eq!(
        s.update_expense(Some("test-keyx"), "1", Some("x".to_string()), None, None, None).unwrap_err(),
        ApiError::Unauthorized
    );
    assert_eq!(s.get_expense(Some(KEY), "1").unwrap().description, "Lunch");
}

#[test]
fn ids_count_up_in_decimal() {
    let mut s = state();
    for i in 1..=12u32 {
        let e = create(&mut s, "d", 1.0, "c", "2026-01-01").unwrap();
        assert_eq!(e.id, i.to_string());
    }
    assert_eq!(s.get_expense(Some(KEY), "12").unwrap().id, "12");
    assert_eq!(s.get_expense(Some(KEY), "012").unwrap_err(), ApiError::NotFound);
}

#[test]
fn get_after_create_returns_the_created_expense() {
    let mut s = state();
    create(&mut s, "Bus", 2.0, "Travel", "2026-07-01").unwrap();
    let e = create(&mut s, "Tea", 3.5, "Food", "2026-07-02").unwrap();
    assert_eq!(s.get_expense(Some(KEY), &e.id).unwrap(), e);
}

#[test]
fn create_checks_the_date_before_the_amount() {
    let mut s = state();
    assert_eq!(create(&mut s, "x", -1.0, "c", "2026-13-01").unwrap_err(), ApiError::InvalidDate);
    assert_eq!(create(&mut s, "x", -1.0, "c", "2026-01-01").unwrap_err(), ApiError::InvalidAmount);
    assert_eq!(create(&mut s, "x", f64::NAN, "c", "2026-01-01").unwrap_err(), ApiError::InvalidAmount);
    assert_eq!(s.list_expenses(Some(KEY), None, None).unwrap().len(), 0);
    // a refused creation does not use up an id
    assert_eq!(create(&mut s, "x", 1.0, "c", "2026-01-01").unwrap().id, "1");
}

#[test]
fn update_checks_the_amount_before_the_date() {
    let mut s = state();
    create(&mut s, "Lunch", 12.5, "Food", "2026-08-03").unwrap();
    let r = s.update_expense(Some(KEY), "1", None, Some(f64::INFINITY.to_bits()), None, Some("bad".to_string()));
    assert_eq!(r.unwrap_err(), ApiError::InvalidAmount);
    let r = s.update_expense(Some(KEY), "1", None, Some(1.0f64.to_bits()), None, Some("bad".to_string()));
    assert_eq!(r.unwrap_err(), ApiError::InvalidDate);
    let r = s.update_expense(Some(KEY), "9", None, None, None, None);
    assert_eq!(r.unwrap_err(), ApiError::NotFound);
}

#[test]
fn update_changes_only_the_given_fields() {
    let mut s = state();
    create(&mut s, "Lunch", 12.5, "Food", "2026-08-03").unwrap();
    let e = s
        .update_expense(Some(KEY), "1", Some("Dinner".to_string()), None, None, Some("2026-08-04".to_string()))
        .unwrap();
    assert_eq!(e.description, "Dinner");
    assert_eq!(e.date, "2026-08-04");
    assert_eq!(e.category, "Food");
    assert_eq!(f64::from_bits(e.amount_bits), 12.5);
    assert_eq!(s.get_expense(Some(KEY), "1").unwrap(), e);
}

#[test]
fn delete_twice_reports_not_found() {
    let mut s = state();
    create(&mut s, "Lunch", 12.5, "Food", "2026-08-03").unwrap();
    create(&mut s, "Tea", 1.5, "Food", "2026-08-04").unwrap();
    assert_eq!(s.delete_expense(Some(KEY), "1"), Ok(()));
    assert_eq!(s.delete_expense(Some(KEY), "1"), Err(ApiError::NotFound));
    let left = s.list_expenses(Some(KEY), None, None).unwrap();
    assert_eq!(left.len(), 1);
    assert_eq!(left[0].id, "2");
}

#[test]
fn listing_filters_by_category_without_case_and_by_month_prefix() {
    let mut s = state();
    create(&mut s, "a", 1.0, "Food", "2026-08-03").unwrap();
    create(&mut s, "b", 2.0, "FOOD", "2026-09-03").unwrap();
    create(&mut s, "c", 3.0, "Travel", "2026-08-10").unwrap();
    assert_eq!(s.list_expenses(Some(KEY), Some("fOoD"), None).unwrap().len(), 2);
    assert_eq!(s.list_expenses(Some(KEY), None, Some("2026-08")).unwrap().len(), 2);
    let both = s.list_expenses(Some(KEY), Some("food"), Some("2026-08")).unwrap();
    assert_eq!(both.len(), 1);
    assert_eq!(both[0].description, "a");
    assert_eq!(s.list_expenses(Some(KEY), Some("drink"), None).unwrap().len(), 0);
    assert_eq!(
        s.list_expenses(Some(KEY), None, Some("2026-13")).unwrap_err(),
        ApiError::InvalidMonth
    );
}

#[test]
fn summary_groups_amounts_by_exact_category() {
    let mut s = state();
    create(&mut s, "a", 1.0, "Food", "2026-08-03").unwrap();
    create(&mut s, "b", 2.0, "Travel", "2026-08-04").unwrap();
    create(&mut s, "c", 4.0, "Food", "2026-08-05").unwrap();
    create(&mut s, "d", 8.0, "food", "2026-08-06").unwrap();
    create(&mut s, "e", 16.0, "Food", "2026-09-01").unwrap();
    let b = s.get_summary(Some(KEY), Some("2026-08")).unwrap();
    assert_eq!(b.categories, vec!["Food".to_string(), "Travel".to_string(), "food".to_string()]);
    assert_eq!(b.category_of, vec![0, 1, 0, 2]);
    assert_eq!(total(&b), 15.0);
    let all = s.get_summary(Some(KEY), None).unwrap();
    assert_eq!(total(&all), 31.0);
    assert_eq!(s.get_summary(Some(KEY), Some("2026/08")).unwrap_err(), ApiError::InvalidMonth);
}

#[test]
fn amount_validation_follows_the_float_value() {
    assert_eq!(validate_amount(0.0f64.to_bits()), Ok(()));
    assert_eq!(validate_amount((-0.0f64).to_bits()), Ok(()));
    assert_eq!(validate_amount(12.5f64.to_bits()), Ok(()));
    assert_eq!(validate_amount(f64::MAX.to_bits()), Ok(()));
    assert_eq!(validate_amount(f64::MIN_POSITIVE.to_bits()), Ok(()));
    assert_eq!(validate_amount((-1.0f64).to_bits()), Err(ApiError::InvalidAmount));
    assert_eq!(validate_amount(f64::INFINITY.to_bits()), Err(ApiError::InvalidAmount));
    assert_eq!(validate_amount(f64::NEG_INFINITY.to_bits()), Err(ApiError::InvalidAmount));
    assert_eq!(validate_amount(f64::NAN.to_bits()), Err(ApiError::InvalidAmount));
    assert_eq!(validate_amount((-f64::MIN_POSITIVE).to_bits()), Err(ApiError::InvalidAmount));
}

#[test]
fn dates_and_months_are_read_by_chrono() {
    assert_eq!(validate_date("2026-08-03"), Ok(()));
    assert_eq!(validate_date("2024-02-29"), Ok(()));
    assert_eq!(validate_date("2026-02-30"), Err(ApiError::InvalidDate));
    assert_eq!(validate_date("03/08/2026"), Err(ApiError::InvalidDate));
    assert_eq!(validate_date(""), Err(ApiError::InvalidDate));
    assert_eq!(validate_month("2026-08"), Ok(()));
    assert_eq!(validate_month("2026-13"), Err(ApiError::InvalidMonth));
    assert_eq!(validate_month("2026"), Err(ApiError::InvalidMonth));
}

#[test]
fn dates_and_months_must_have_the_documented_form() {
    assert_eq!(validate_month("2026-8"), Err(ApiError::InvalidMonth));
    assert_eq!(validate_month(" 2026-08"), Err(ApiError::InvalidMonth));
    assert_eq!(validate_month("+2026-08"), Err(ApiError::InvalidMonth));
    assert_eq!(validate_month("2026-08-03"), Err(ApiError::InvalidMonth));
    assert_eq!(validate_month("２０２６-08"), Err(ApiError::InvalidMonth));
    assert_eq!(validate_date("2026-8-3"), Err(ApiError::InvalidDate));
    assert_eq!(validate_date(" 2026-08-03"), Err(ApiError::InvalidDate));
    assert_eq!(validate_date("+2026-08-03"), Err(ApiError::InvalidDate));
    assert_eq!(validate_date("2026-08-03 "), Err(ApiError::InvalidDate));
    assert_eq!(validate_date("2026/08/03"), Err(ApiError::InvalidDate));
    let mut s = state();
    assert_eq!(s.list_expenses(Some(KEY), None, Some("2026-8")).unwrap_err(), ApiError::InvalidMonth);
    assert_eq!(create(&mut s, "x", 1.0, "c", "2026-8-3").unwrap_err(), ApiError::InvalidDate);
}

#[test]
fn ids_are_never_reused() {
    let mut s = state();
    assert_eq!(create(&mut s, "a", 1.0, "c", "2026-01-01").unwrap().id, "1");
    assert_eq!(create(&mut s, "b", 1.0, "c", "2026-01-01").unwrap().id, "2");
    assert_eq!(s.delete_expense(Some(KEY), "1"), Ok(()));
    assert_eq!(create(&mut s, "c", 1.0, "c", "2026-01-01").unwrap().id, "3");
    let ids: Vec<String> = s.list_expenses(Some(KEY), None, None).unwrap().into_iter().map(|e| e.id).collect();
    assert_eq!(ids, vec!["2".to_string(), "3".to_string()]);
}

#[test]
fn errors_carry_status_and_message() {
    assert_eq!(ApiError::InvalidDate.status(), 400);
    assert_eq!(ApiError::InvalidDate.message(), "date must use YYYY-MM-DD format");
    assert_eq!(ApiError::InvalidMonth.message(), "month must use YYYY-MM format");
    assert_eq!(ApiError::InvalidAmount.message(), "amount must be a finite non-negative number");
    assert_eq!(ApiError::Unauthorized.status(), 401);
    assert_eq!(ApiError::Unauthorized.message(), "invalid or missing x-api-key");
    assert_eq!(ApiError::NotFound.status(), 404);
    assert_eq!(ApiError::NotFound.message(), "expense not found");
}
