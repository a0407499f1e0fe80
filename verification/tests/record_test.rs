use chrono::{Datelike, NaiveDate};
use rust_decimal::Decimal;
use whiterabbit::account::AccountType;
use whiterabbit::error::{ErrorKind, SharedErrorKind};
use whiterabbit::record::event::{RecordCreated, RecordDeleted, RecordEvent, RecordUpdated};
use whiterabbit::record::input::{AmountInput, CostInput, RecordInput, RecordItemInput};
use whiterabbit::record::{Amount, Cost, Record, RecordItemKind, RecordItems};

fn day(y: i32, m: u32, d: u32) -> i32 {
    NaiveDate::from_ymd_opt(y, m, d).unwrap().num_days_from_ce()
}

fn now() -> i64 {
    chrono::Utc::now().timestamp_micros()
}

fn amount(s: &str) -> AmountInput {
    AmountInput::from_text(s)
}

fn dec_amount(d: Decimal, unit: &str) -> AmountInput {
    AmountInput(format!("{} {}", d, unit))
}

fn txn(t: AccountType, a: &str) -> RecordItemInput {
    RecordItemInput { account_type: t, kind: RecordItemKind::Transaction, amount: amount(a), ..Default::default() }
}

fn txn_price(t: AccountType, a: &str, p: &str) -> RecordItemInput {
    RecordItemInput { price: Some(amount(p)), ..txn(t, a) }
}

fn dec_txn(t: AccountType, d: Decimal, unit: &str) -> RecordItemInput {
    RecordItemInput {
        account_type: t,
        kind: RecordItemKind::Transaction,
        amount: dec_amount(d, unit),
        ..Default::default()
    }
}

fn record_of(items: Vec<RecordItemInput>) -> Record {
    Record::try_from_input(RecordInput { items, ..Default::default() }).unwrap()
}

fn sorted(v: &[String]) -> Vec<String> {
    let mut v = v.to_vec();
    v.sort();
    v
}

fn same_record(a: &Record, b: &Record) -> bool {
    a.id == b.id
        && a.version == b.version
        && a.created_at == b.created_at
        && a.last_modified_at == b.last_modified_at
        && a.journal_id == b.journal_id
        && a.date == b.date
        && format!("{:?}", a.items) == format!("{:?}", b.items)
        && a.description == b.description
        && sorted(&a.tags) == sorted(&b.tags)
        && a.payee == b.payee
}

// ── Balance (text amounts) ───────────────────────────────────────

#[test]
fn test_test_is_balanced_simple_balanced() {
    let items = vec![
        RecordItemInput {
            account_id: "asset-1".to_string(),
            account_type: AccountType::Asset,
            kind: RecordItemKind::Transaction,
            amount: amount("100 USD"),
            description: "Transaction for asset-1".to_string(),
            ..Default::default()
        },
        RecordItemInput {
            account_id: "equity-1".to_string(),
            account_type: AccountType::Equity,
            kind: RecordItemKind::Transaction,
            amount: amount("100 USD"),
            description: "Transaction for equity-1".to_string(),
            ..Default::default()
        },
    ];
    let record = Record::try_from_input(RecordInput {
        id: "test-record-id".to_string(),
        journal_id: "test-journal-id".to_string(),
        date: day(2024, 1, 1),
        items,
        description: "Simple balanced transaction".to_string(),
        payee: "Test Payee".to_string(),
        ..Default::default()
    })
    .unwrap();
    assert_eq!(record.is_balanced(), Some(true));
}

#[test]
fn test_test_is_balanced_complex_balanced() {
    let record = record_of(vec![
        RecordItemInput { description: "Transaction for asset-1".to_string(), ..txn(AccountType::Asset, "200 USD") },
        txn(AccountType::Expense, "50 USD"),
        txn(AccountType::Liability, "100 USD"),
        txn(AccountType::Equity, "100 USD"),
        txn(AccountType::Income, "50 USD"),
    ]);
    assert_eq!(record.is_balanced(), Some(true));
}

#[test]
fn test_test_is_balanced_unbalanced() {
    let record = record_of(vec![
        txn(AccountType::Asset, "200 USD"),
        txn(AccountType::Expense, "50 USD"),
        txn(AccountType::Liability, "100 USD"),
        txn(AccountType::Equity, "100 USD"),
        txn(AccountType::Income, "40 USD"),
    ]);
    assert_eq!(record.is_balanced(), Some(false));
}

#[test]
fn test_test_is_balanced_with_price_conversion() {
    let record = record_of(vec![
        txn_price(AccountType::Asset, "400 USD", "1.09 CAD"),
        txn(AccountType::Equity, "436 CAD"),
    ]);
    assert_eq!(record.is_balanced(), Some(true));
}

#[test]
fn test_test_is_balanced_multiple_same_account_type() {
    let record = record_of(vec![
        txn(AccountType::Asset, "100 USD"),
        txn(AccountType::Asset, "200 USD"),
        txn(AccountType::Equity, "300 USD"),
    ]);
    assert_eq!(record.is_balanced(), Some(true));
}

#[test]
fn test_test_is_balanced_with_decimal_precision() {
    let record = record_of(vec![
        txn(AccountType::Asset, "100.50 USD"),
        txn(AccountType::Expense, "50.25 USD"),
        txn(AccountType::Liability, "75.25 USD"),
        txn(AccountType::Equity, "50.00 USD"),
        txn(AccountType::Income, "25.50 USD"),
    ]);
    assert_eq!(record.is_balanced(), Some(true));
}

#[test]
fn test_test_is_balanced_zero_values() {
    let record = record_of(vec![txn(AccountType::Asset, "100 USD"), txn(AccountType::Equity, "100 USD")]);
    assert_eq!(record.is_balanced(), Some(true));
}

#[test]
fn test_test_is_balanced_returns_none_for_validations() {
    let record = record_of(vec![RecordItemInput {
        account_type: AccountType::Asset,
        kind: RecordItemKind::Validation,
        amount: amount("100 USD"),
        ..Default::default()
    }]);
    assert_eq!(record.is_balanced(), None);
}

#[test]
fn test_test_is_balanced_with_mixed_price_conversions() {
    let record = record_of(vec![
        txn_price(AccountType::Asset, "100 USD", "1.50 EUR"),
        txn(AccountType::Asset, "50 EUR"),
        txn(AccountType::Equity, "200 EUR"),
    ]);
    assert_eq!(record.is_balanced(), Some(true));
}

// ── Balance (decimal amounts) ────────────────────────────────────

#[test]
fn record_test_test_is_balanced_simple_balanced() {
    let record = Record::try_from_input(RecordInput {
        id: "test-record-id".to_string(),
        journal_id: "test-journal-id".to_string(),
        date: day(2024, 1, 1),
        items: vec![
            RecordItemInput { account_id: "asset-1".to_string(), description: "Transaction for asset-1".to_string(), ..dec_txn(AccountType::Asset, Decimal::new(100, 0), "USD") },
            RecordItemInput { account_id: "equity-1".to_string(), description: "Transaction for equity-1".to_string(), ..dec_txn(AccountType::Equity, Decimal::new(100, 0), "USD") },
        ],
        description: "Simple balanced transaction".to_string(),
        payee: "Test Payee".to_string(),
        ..Default::default()
    })
    .unwrap();
    assert_eq!(record.is_balanced(), Some(true));
}

#[test]
fn record_test_test_is_balanced_complex_balanced() {
    let record = record_of(vec![
        dec_txn(AccountType::Asset, Decimal::new(200, 0), "USD"),
        dec_txn(AccountType::Expense, Decimal::new(50, 0), "USD"),
        dec_txn(AccountType::Liability, Decimal::new(100, 0), "USD"),
        dec_txn(AccountType::Equity, Decimal::new(100, 0), "USD"),
        dec_txn(AccountType::Income, Decimal::new(50, 0), "USD"),
    ]);
    assert_eq!(record.is_balanced(), Some(true));
}

#[test]
fn record_test_test_is_balanced_unbalanced() {
    let record = record_of(vec![
        dec_txn(AccountType::Asset, Decimal::new(200, 0), "USD"),
        dec_txn(AccountType::Expense, Decimal::new(50, 0), "USD"),
        dec_txn(AccountType::Liability, Decimal::new(100, 0), "USD"),
        dec_txn(AccountType::Equity, Decimal::new(100, 0), "USD"),
        dec_txn(AccountType::Income, Decimal::new(40, 0), "USD"),
    ]);
    assert_eq!(record.is_balanced(), Some(false));
}

#[test]
fn record_test_test_is_balanced_with_price_conversion() {
    let record = record_of(vec![
        RecordItemInput { price: Some(dec_amount(Decimal::new(109, 2), "CAD")), ..dec_txn(AccountType::Asset, Decimal::new(400, 0), "USD") },
        dec_txn(AccountType::Equity, Decimal::new(436, 0), "CAD"),
    ]);
    assert_eq!(record.is_balanced(), Some(true));
}

#[test]
fn record_test_test_is_balanced_multiple_same_account_type() {
    let record = record_of(vec![
        dec_txn(AccountType::Asset, Decimal::new(100, 0), "USD"),
        dec_txn(AccountType::Asset, Decimal::new(200, 0), "USD"),
        dec_txn(AccountType::Equity, Decimal::new(300, 0), "USD"),
    ]);
    assert_eq!(record.is_balanced(), Some(true));
}

#[test]
fn record_test_test_is_balanced_with_decimal_precision() {
    let record = record_of(vec![
        dec_txn(AccountType::Asset, Decimal::new(10050, 2), "USD"),
        dec_txn(AccountType::Expense, Decimal::new(5025, 2), "USD"),
        dec_txn(AccountType::Liability, Decimal::new(7525, 2), "USD"),
        dec_txn(AccountType::Equity, Decimal::new(5000, 2), "USD"),
        dec_txn(AccountType::Income, Decimal::new(2550, 2), "USD"),
    ]);
    assert_eq!(record.is_balanced(), Some(true));
}

#[test]
fn record_test_test_is_balanced_zero_values() {
    let record = record_of(vec![
        dec_txn(AccountType::Asset, Decimal::new(100, 0), "USD"),
        dec_txn(AccountType::Equity, Decimal::new(100, 0), "USD"),
    ]);
    assert_eq!(record.is_balanced(), Some(true));
}

#[test]
fn record_test_test_is_balanced_returns_none_for_validations() {
    let record = record_of(vec![RecordItemInput {
        kind: RecordItemKind::Validation,
        ..dec_txn(AccountType::Asset, Decimal::new(100, 0), "USD")
    }]);
    assert_eq!(record.is_balanced(), None);
}

#[test]
fn record_test_test_is_balanced_with_mixed_price_conversions() {
    let record = record_of(vec![
        RecordItemInput { price: Some(dec_amount(Decimal::new(150, 2), "EUR")), ..dec_txn(AccountType::Asset, Decimal::new(100, 0), "USD") },
        dec_txn(AccountType::Asset, Decimal::new(50, 0), "EUR"),
        dec_txn(AccountType::Equity, Decimal::new(200, 0), "EUR"),
    ]);
    assert_eq!(record.is_balanced(), Some(true));
}

#[test]
fn test_is_balanced_sums_every_posting_of_a_type() {
    // Assets are summed over all their postings, wherever they stand.
    let record = record_of(vec![
        txn(AccountType::Asset, "100 USD"),
        txn(AccountType::Equity, "50 USD"),
        txn(AccountType::Asset, "50 USD"),
    ]);
    assert_eq!(record.is_balanced(), Some(false));
    let record = record_of(vec![
        txn(AccountType::Asset, "100 USD"),
        txn(AccountType::Equity, "300 USD"),
        txn(AccountType::Asset, "200 USD"),
    ]);
    assert_eq!(record.is_balanced(), Some(true));
    let record = record_of(vec![
        txn(AccountType::Asset, "200 USD"),
        txn(AccountType::Expense, "50 USD"),
        txn(AccountType::Liability, "100 USD"),
        txn(AccountType::Equity, "100 USD"),
        txn(AccountType::Income, "40 USD"),
    ]);
    assert_eq!(record.is_balanced(), Some(false));
}

// ── Errors ───────────────────────────────────────────────────────

#[test]
fn test_error_empty_items_returns_non_empty_with_context() {
    let err = Record::try_from_input(RecordInput { items: vec![], ..Default::default() }).unwrap_err();
    assert_eq!(err.error, ErrorKind::Shared(SharedErrorKind::NonEmpty));
    assert_eq!(err.context.resource_type.as_deref(), Some(Record::ENTITY_TYPE));
    assert_eq!(err.context.field.as_deref(), Some("items"));
}

#[test]
fn test_error_negative_amount_returns_non_negative_with_context() {
    let err = Record::try_from_input(RecordInput { items: vec![txn(AccountType::Asset, "-100 USD")], ..Default::default() })
        .unwrap_err();
    assert!(matches!(err.error, ErrorKind::Shared(SharedErrorKind::NonNegative { .. })));
    assert_eq!(err.context.resource_type.as_deref(), Some(Amount::TYPE));
    assert_eq!(err.context.field.as_deref(), Some("amount"));
    match &err.error {
        ErrorKind::Shared(SharedErrorKind::NonNegative { actual }) => assert!(actual.contains("-100")),
        other => panic!("expected NonNegative, got {other:?}"),
    }
}

#[test]
fn test_error_missing_unit_returns_invalid_format() {
    let err = Record::try_from_input(RecordInput { items: vec![txn(AccountType::Asset, "100")], ..Default::default() })
        .unwrap_err();
    assert!(matches!(err.error, ErrorKind::Shared(SharedErrorKind::InvalidFormat { .. })));
}

#[test]
fn test_error_bad_number_names_the_word() {
    let err = Record::try_from_input(RecordInput { items: vec![txn(AccountType::Asset, "abc USD")], ..Default::default() })
        .unwrap_err();
    assert_eq!(err.error, ErrorKind::Shared(SharedErrorKind::InvalidFormat { value: "abc".to_string() }));
}

#[test]
fn test_error_mixed_item_kinds_returns_conflicting_values() {
    let err = Record::try_from_input(RecordInput {
        items: vec![
            txn(AccountType::Asset, "100 USD"),
            RecordItemInput { kind: RecordItemKind::Validation, ..txn(AccountType::Asset, "100 USD") },
        ],
        ..Default::default()
    })
    .unwrap_err();
    assert!(matches!(err.error, ErrorKind::Shared(SharedErrorKind::ConflictingValues { .. })));
    assert_eq!(err.context.resource_type.as_deref(), Some(Record::ENTITY_TYPE));
    assert_eq!(err.context.field.as_deref(), Some("items"));
    match &err.error {
        ErrorKind::Shared(SharedErrorKind::ConflictingValues { values }) => {
            assert!(values.iter().any(|v| v.contains("Transaction")));
            assert!(values.iter().any(|v| v.contains("Validation")));
        }
        other => panic!("expected ConflictingValues, got {other:?}"),
    }
}

#[test]
fn test_shared_error_kind_default_status_codes() {
    assert_eq!(SharedErrorKind::NonEmpty.default_status(), 422);
    assert_eq!(SharedErrorKind::NonNegative { actual: String::new() }.default_status(), 422);
    assert_eq!(SharedErrorKind::NotFound.default_status(), 404);
    assert_eq!(SharedErrorKind::Unauthorized.default_status(), 401);
    assert_eq!(SharedErrorKind::Forbidden.default_status(), 403);
    assert_eq!(SharedErrorKind::Conflict.default_status(), 409);
    assert_eq!(SharedErrorKind::Internal.default_status(), 500);
}

#[test]
fn test_error_builder_chaining_preserves_all_fields() {
    let err = SharedErrorKind::NonEmpty
        .into_error()
        .with_resource_type("TestResource")
        .with_field("test_field")
        .with_detail("extra info".to_string());
    assert_eq!(err.error, ErrorKind::Shared(SharedErrorKind::NonEmpty));
    assert_eq!(err.context.resource_type.as_deref(), Some("TestResource"));
    assert_eq!(err.context.field.as_deref(), Some("test_field"));
    assert_eq!(err.context.detail.as_deref(), Some("extra info"));
}

#[test]
fn test_costs_parse_as_date_reference_or_fail() {
    let record = record_of(vec![
        RecordItemInput {
            cost: vec![
                CostInput::from_text("2024-01-02"),
                CostInput::from_text("lot-7"),
                CostInput::from_text("lot-7"),
            ],
            ..txn(AccountType::Asset, "1 USD")
        },
        txn(AccountType::Equity, "1 USD"),
    ]);
    match &record.items {
        RecordItems::Transactions(t) => {
            assert_eq!(t[0].cost.len(), 2);
            assert!(matches!(t[0].cost[0], Cost::Date(d) if d == day(2024, 1, 2)));
            assert!(matches!(&t[0].cost[1], Cost::Reference(r) if r == "lot-7"));
        }
        _ => panic!("expected transactions"),
    }
    let err = Record::try_from_input(RecordInput {
        items: vec![RecordItemInput { cost: vec![CostInput::from_text("  ")], ..txn(AccountType::Asset, "1 USD") }],
        ..Default::default()
    })
    .unwrap_err();
    assert!(matches!(err.error, ErrorKind::Shared(SharedErrorKind::InvalidFormat { .. })));
}

#[test]
fn test_costs_parse_the_price_form() {
    let record = record_of(vec![
        RecordItemInput {
            cost: vec![CostInput::from_text("183.07 USD"), CostInput::from_text("lot 7")],
            ..txn(AccountType::Asset, "10 IVV")
        },
        txn(AccountType::Equity, "10 IVV"),
    ]);
    match &record.items {
        RecordItems::Transactions(t) => {
            assert!(matches!(&t[0].cost[0], Cost::Price(a)
                if a.unit == "USD" && a.amount.mantissa == 18307 && a.amount.scale == 2));
            assert!(matches!(&t[0].cost[1], Cost::Reference(r) if r == "lot 7"));
        }
        _ => panic!("expected transactions"),
    }
    let err = Record::try_from_input(RecordInput {
        items: vec![RecordItemInput { cost: vec![CostInput::from_text("-1 USD")], ..txn(AccountType::Asset, "1 USD") }],
        ..Default::default()
    })
    .unwrap_err();
    assert!(matches!(err.error, ErrorKind::Shared(SharedErrorKind::NonNegative { .. })));
}

#[test]
fn test_item_descriptions_are_trimmed() {
    let record = record_of(vec![RecordItemInput { description: "  lunch ".to_string(), ..txn(AccountType::Expense, "5 USD") }]);
    match &record.items {
        RecordItems::Transactions(t) => assert_eq!(t[0].description, "lunch"),
        _ => panic!("expected transactions"),
    }
}

// ── Apply ────────────────────────────────────────────────────────

fn default_record() -> Record {
    Record::try_from_input(RecordInput {
        id: "seed".to_string(),
        journal_id: "j".to_string(),
        date: day(2024, 1, 1),
        items: vec![RecordItemInput {
            account_id: "acc".to_string(),
            account_type: AccountType::Asset,
            kind: RecordItemKind::Transaction,
            amount: amount("100 USD"),
            description: String::new(),
            ..Default::default()
        }],
        description: "Seed".to_string(),
        ..Default::default()
    })
    .unwrap()
}

fn sample_created_event(created_at: i64) -> RecordCreated {
    let record = default_record();
    RecordCreated {
        id: "r-new".to_string(),
        journal_id: "j-new".to_string(),
        date: day(2024, 6, 15),
        items: record.items.clone(),
        description: "Created".to_string(),
        tags: vec!["tag1".to_string()],
        payee: "Cafe".to_string(),
        created_at,
    }
}

#[test]
fn record_test_apply_created_overwrites_all_fields() {
    let mut record = default_record();
    let t = now();
    record.apply(&RecordEvent::Created(sample_created_event(t)));
    assert_eq!(record.id, "r-new");
    assert_eq!(record.journal_id, "j-new");
    assert_eq!(record.date, day(2024, 6, 15));
    assert_eq!(record.description, "Created");
    assert_eq!(record.payee, "Cafe");
    assert_eq!(record.tags.len(), 1);
    assert_eq!(record.created_at, Some(t));
}

#[test]
fn record_test_apply_updated_patches_changed_fields() {
    let mut record = default_record();
    let new_date = day(2024, 7, 1);
    let t = now();
    let id = record.id.clone();
    record.apply(&RecordEvent::Updated(RecordUpdated {
        id,
        date: Some(new_date),
        items: None,
        description: Some("Updated".to_string()),
        tags: None,
        payee: Some("New Payee".to_string()),
        last_modified_at: t,
    }));
    assert_eq!(record.date, new_date);
    assert_eq!(record.description, "Updated");
    assert_eq!(record.payee, "New Payee");
    assert_eq!(record.last_modified_at, Some(t));
}

#[test]
fn record_test_apply_updated_leaves_unset_fields_unchanged() {
    let mut record = default_record();
    let old_date = record.date;
    let old_payee = record.payee.clone();
    let id = record.id.clone();
    record.apply(&RecordEvent::Updated(RecordUpdated {
        id,
        date: None,
        items: None,
        description: Some("Only desc changed".to_string()),
        tags: None,
        payee: None,
        last_modified_at: now(),
    }));
    assert_eq!(record.date, old_date);
    assert_eq!(record.payee, old_payee);
    assert_eq!(record.description, "Only desc changed");
}

#[test]
fn record_test_apply_deleted_is_noop() {
    let mut record = default_record();
    let before = record.clone();
    let id = record.id.clone();
    record.apply(&RecordEvent::Deleted(RecordDeleted { id }));
    assert!(same_record(&record, &before));
}

#[test]
fn record_test_apply_is_deterministic() {
    let mut a = default_record();
    let mut b = a.clone();
    let event = RecordEvent::Updated(RecordUpdated {
        id: a.id.clone(),
        date: Some(day(2024, 12, 25)),
        items: None,
        description: Some("Same".to_string()),
        tags: None,
        payee: None,
        last_modified_at: now(),
    });
    a.apply(&event);
    b.apply(&event);
    assert!(same_record(&a, &b));
}

#[test]
fn record_test_apply_multi_event_fold() {
    let mut record = default_record();
    let t1 = now();
    let t2 = now();
    let events = vec![
        RecordEvent::Created(sample_created_event(t1)),
        RecordEvent::Updated(RecordUpdated {
            id: "r-new".to_string(),
            date: Some(day(2024, 8, 1)),
            items: None,
            description: Some("Final".to_string()),
            tags: Some(vec!["final".to_string()]),
            payee: None,
            last_modified_at: t2,
        }),
    ];
    for event in &events {
        record.apply(event);
    }
    assert_eq!(record.id, "r-new");
    assert_eq!(record.date, day(2024, 8, 1));
    assert_eq!(record.description, "Final");
    assert!(record.tags.iter().any(|t| t == "final"));
    assert_eq!(record.created_at, Some(t1));
    assert_eq!(record.last_modified_at, Some(t2));
}

#[test]
fn test_record_event_type_returns_expected_strings() {
    assert_eq!(RecordEvent::Created(sample_created_event(now())).event_type(), "whiterabbit::event::RecordCreated");
    assert_eq!(
        RecordEvent::Updated(RecordUpdated {
            id: "r".to_string(),
            date: None,
            items: None,
            description: None,
            tags: None,
            payee: None,
            last_modified_at: now(),
        })
        .event_type(),
        "whiterabbit::event::RecordUpdated"
    );
    assert_eq!(RecordEvent::Deleted(RecordDeleted { id: "r".to_string() }).event_type(), "whiterabbit::event::RecordDeleted");
}
