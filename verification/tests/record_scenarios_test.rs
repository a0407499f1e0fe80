use chrono::{Datelike, NaiveDate};
use whiterabbit::account::command::{AccountCommand, AccountCommandArchive, AccountCommandCreate};
use whiterabbit::account::event::AccountEvent;
use whiterabbit::account::service::AccountService;
use whiterabbit::account::{Account, AccountInput, AccountType};
use whiterabbit::error::{ErrorKind, SharedErrorKind};
use whiterabbit::inmemory::account::InMemoryAccountRepository;
use whiterabbit::inmemory::record::InMemoryRecordRepository;
use whiterabbit::inmemory::InMemorySession;
use whiterabbit::record::command::{
    RecordCommand, RecordCommandBatch, RecordCommandCreate, RecordCommandItem, RecordCommandUpdate,
};
use whiterabbit::record::event::RecordEvent;
use whiterabbit::record::repository::RecordRepository;
use whiterabbit::record::service::RecordService;
use whiterabbit::record::specification::RecordSpecification;
use whiterabbit::record::{RecordItemKind, RecordItems};

type TestRecordService = RecordService<InMemoryRecordRepository, InMemoryAccountRepository>;

fn new_service() -> (TestRecordService, InMemorySession) {
    (RecordService::new(InMemoryRecordRepository, InMemoryAccountRepository), InMemorySession::new())
}

fn date(y: i32, m: u32, d: u32) -> i32 {
    NaiveDate::from_ymd_opt(y, m, d).unwrap().num_days_from_ce()
}

fn insert_root(sess: &mut InMemorySession, journal_id: &str, t: AccountType) -> String {
    let id = format!("{journal_id}-{}", t.to_display_string());
    let account = Account::try_from_input(AccountInput {
        id: id.clone(),
        journal_id: journal_id.to_string(),
        account_type: t,
        name: t.to_display_string(),
        ..Default::default()
    })
    .unwrap();
    sess.accounts.push(account);
    id
}

fn find_created_id(events: &[AccountEvent], name: &str) -> String {
    events
        .iter()
        .find_map(|e| match e {
            AccountEvent::Created(c) if c.name == name => Some(c.id.clone()),
            _ => None,
        })
        .unwrap_or_else(|| panic!("no Created event with name '{name}'"))
}

/// A journal with asset, expense and equity roots and one child each:
/// (journal, asset child, expense child, equity child).
fn setup_accounts(sess: &mut InMemorySession) -> (String, String, String, String) {
    let jid = "j1".to_string();
    let asset_root = insert_root(sess, &jid, AccountType::Asset);
    let expense_root = insert_root(sess, &jid, AccountType::Expense);
    let equity_root = insert_root(sess, &jid, AccountType::Equity);
    let account_service = AccountService::new(InMemoryAccountRepository);
    let mut child = |parent: String, name: &str| {
        let r = account_service
            .handle(
                sess,
                AccountCommand::Create(AccountCommandCreate {
                    journal_id: jid.clone(),
                    parent_id: parent,
                    name: name.to_string(),
                    description: String::new(),
                    tags: vec![],
                }),
            )
            .unwrap();
        find_created_id(&r.events, name)
    };
    let asset_id = child(asset_root, "Cash");
    let expense_id = child(expense_root, "Food");
    let equity_id = child(equity_root, "Opening");
    (jid, asset_id, expense_id, equity_id)
}

fn created_id(events: &[RecordEvent]) -> String {
    events
        .iter()
        .find_map(|e| match e {
            RecordEvent::Created(c) => Some(c.id.clone()),
            _ => None,
        })
        .expect("no Created event found")
}

fn transaction_item(account_id: &str, amount: &str) -> RecordCommandItem {
    RecordCommandItem {
        account_id: account_id.to_string(),
        amount: amount.to_string(),
        description: String::new(),
        price: None,
        cost: vec![],
    }
}

fn create_cmd(journal_id: &str, items: Vec<RecordCommandItem>) -> RecordCommandCreate {
    RecordCommandCreate {
        journal_id: journal_id.to_string(),
        date: date(2024, 1, 15),
        kind: RecordItemKind::Transaction,
        items,
        description: "Test record".to_string(),
        tags: vec![],
        payee: String::new(),
    }
}

fn dated(journal_id: &str, d: i32, items: Vec<RecordCommandItem>, payee: &str) -> RecordCommandCreate {
    RecordCommandCreate {
        date: d,
        description: String::new(),
        payee: payee.to_string(),
        ..create_cmd(journal_id, items)
    }
}

fn update_cmd(id: &str) -> RecordCommandUpdate {
    RecordCommandUpdate { id: id.to_string(), date: None, items: None, description: None, tags: None, payee: None }
}

fn empty_batch() -> RecordCommandBatch {
    RecordCommandBatch { create: vec![], update: vec![], delete: vec![] }
}

// ── Create ───────────────────────────────────────────────────────

#[test]
fn test_create_single_transaction_record() {
    let (service, mut sess) = new_service();
    let (jid, asset_id, expense_id, _) = setup_accounts(&mut sess);
    let events = service
        .handle(
            &mut sess,
            RecordCommand::Create(RecordCommandCreate {
                journal_id: jid.clone(),
                date: date(2024, 1, 15),
                kind: RecordItemKind::Transaction,
                items: vec![transaction_item(&asset_id, "100 USD"), transaction_item(&expense_id, "100 USD")],
                description: "Lunch".to_string(),
                tags: vec!["food".to_string()],
                payee: "Restaurant".to_string(),
            }),
        )
        .unwrap();
    assert_eq!(events.len(), 1);
    let RecordEvent::Created(c) = &events[0] else { panic!("expected Created event, got {:?}", events[0]) };
    assert_eq!(c.description, "Lunch");
    assert_eq!(c.payee, "Restaurant");
    assert_eq!(c.journal_id, jid);
}

#[test]
fn test_create_validation_record() {
    let (service, mut sess) = new_service();
    let (jid, asset_id, _, _) = setup_accounts(&mut sess);
    let events = service
        .handle(
            &mut sess,
            RecordCommand::Create(RecordCommandCreate {
                journal_id: jid.clone(),
                date: date(2024, 1, 31),
                kind: RecordItemKind::Validation,
                items: vec![RecordCommandItem {
                    account_id: asset_id.clone(),
                    amount: "500 USD".to_string(),
                    description: "Balance check".to_string(),
                    price: None,
                    cost: vec![],
                }],
                description: "Month-end validation".to_string(),
                tags: vec![],
                payee: String::new(),
            }),
        )
        .unwrap();
    assert_eq!(events.len(), 1);
    let RecordEvent::Created(c) = &events[0] else { panic!("expected Created") };
    assert!(matches!(c.items, RecordItems::Validations(_)));
}

#[test]
fn test_create_with_price() {
    let (service, mut sess) = new_service();
    let (jid, asset_id, _, equity_id) = setup_accounts(&mut sess);
    let events = service
        .handle(
            &mut sess,
            RecordCommand::Create(RecordCommandCreate {
                journal_id: jid.clone(),
                date: date(2024, 1, 15),
                kind: RecordItemKind::Transaction,
                items: vec![
                    RecordCommandItem {
                        account_id: asset_id.clone(),
                        amount: "400 USD".to_string(),
                        description: String::new(),
                        price: Some("1.09 CAD".to_string()),
                        cost: vec![],
                    },
                    transaction_item(&equity_id, "436 CAD"),
                ],
                description: "Currency exchange".to_string(),
                tags: vec![],
                payee: String::new(),
            }),
        )
        .unwrap();
    assert_eq!(events.len(), 1);
    let RecordEvent::Created(c) = &events[0] else { panic!("expected Created") };
    assert!(matches!(c.items, RecordItems::Transactions(_)));
}

#[test]
fn test_test_create_empty_batch_succeeds() {
    let (service, mut sess) = new_service();
    let events = service.handle(&mut sess, RecordCommand::Batch(empty_batch())).unwrap();
    assert!(events.is_empty());
}

#[test]
fn test_create_nonexistent_account_fails() {
    let (service, mut sess) = new_service();
    let (jid, asset_id, _, _) = setup_accounts(&mut sess);
    let err = service
        .handle(
            &mut sess,
            RecordCommand::Create(create_cmd(
                &jid,
                vec![transaction_item(&asset_id, "100 USD"), transaction_item("nonexistent", "100 USD")],
            )),
        )
        .unwrap_err();
    assert_eq!(err.error, ErrorKind::Shared(SharedErrorKind::NotFound));
}

#[test]
fn test_create_archived_account_conflicts() {
    let (service, mut sess) = new_service();
    let (jid, asset_id, expense_id, _) = setup_accounts(&mut sess);
    AccountService::new(InMemoryAccountRepository)
        .handle(
            &mut sess,
            AccountCommand::Archive(AccountCommandArchive { ids: vec![expense_id.clone()], archived_at: 1 }),
        )
        .unwrap();
    let err = service
        .handle(
            &mut sess,
            RecordCommand::Create(create_cmd(
                &jid,
                vec![transaction_item(&asset_id, "100 USD"), transaction_item(&expense_id, "100 USD")],
            )),
        )
        .unwrap_err();
    assert_eq!(err.error, ErrorKind::Shared(SharedErrorKind::Conflict));
}

#[test]
fn test_create_wrong_journal_fails() {
    let (service, mut sess) = new_service();
    let (_, asset_id, expense_id, _) = setup_accounts(&mut sess);
    let err = service
        .handle(
            &mut sess,
            RecordCommand::Create(create_cmd(
                "other-journal",
                vec![transaction_item(&asset_id, "100 USD"), transaction_item(&expense_id, "100 USD")],
            )),
        )
        .unwrap_err();
    assert!(matches!(err.error, ErrorKind::Mismatch { .. }));
}

#[test]
fn test_create_invalid_amount_format_fails() {
    let (service, mut sess) = new_service();
    let (jid, asset_id, _, _) = setup_accounts(&mut sess);
    let err = service
        .handle(&mut sess, RecordCommand::Create(create_cmd(&jid, vec![transaction_item(&asset_id, "not-a-number")])))
        .unwrap_err();
    assert!(matches!(err.error, ErrorKind::Shared(SharedErrorKind::InvalidFormat { .. })));
}

#[test]
fn test_create_without_items_fails() {
    let (service, mut sess) = new_service();
    let (jid, _, _, _) = setup_accounts(&mut sess);
    let err = service.handle(&mut sess, RecordCommand::Create(create_cmd(&jid, vec![]))).unwrap_err();
    assert_eq!(err.error, ErrorKind::Shared(SharedErrorKind::NonEmpty));
}

// ── Update ───────────────────────────────────────────────────────

fn create_one(service: &TestRecordService, sess: &mut InMemorySession, jid: &str, a: &str, b: &str) -> String {
    let events = service
        .handle(sess, RecordCommand::Create(create_cmd(jid, vec![transaction_item(a, "50 USD"), transaction_item(b, "50 USD")])))
        .unwrap();
    created_id(&events)
}

#[test]
fn test_update_description_and_date() {
    let (service, mut sess) = new_service();
    let (jid, asset_id, expense_id, _) = setup_accounts(&mut sess);
    let id = create_one(&service, &mut sess, &jid, &asset_id, &expense_id);
    let new_date = date(2024, 2, 1);
    let events = service
        .handle(
            &mut sess,
            RecordCommand::Update(RecordCommandUpdate {
                date: Some(new_date),
                description: Some("Updated description".to_string()),
                tags: Some(vec!["updated".to_string()]),
                payee: Some("New Payee".to_string()),
                ..update_cmd(&id)
            }),
        )
        .unwrap();
    assert_eq!(events.len(), 1);
    let RecordEvent::Updated(u) = &events[0] else { panic!("expected Updated") };
    assert_eq!(u.date, Some(new_date));
    assert_eq!(u.description.as_deref(), Some("Updated description"));
    assert_eq!(u.payee.as_deref(), Some("New Payee"));
}

#[test]
fn test_update_replace_items() {
    let (service, mut sess) = new_service();
    let (jid, asset_id, expense_id, equity_id) = setup_accounts(&mut sess);
    let id = create_one(&service, &mut sess, &jid, &asset_id, &expense_id);
    let events = service
        .handle(
            &mut sess,
            RecordCommand::Update(RecordCommandUpdate {
                items: Some(vec![transaction_item(&asset_id, "200 USD"), transaction_item(&equity_id, "200 USD")]),
                ..update_cmd(&id)
            }),
        )
        .unwrap();
    assert_eq!(events.len(), 1);
    let RecordEvent::Updated(u) = &events[0] else { panic!("expected Updated") };
    assert!(matches!(u.items, Some(RecordItems::Transactions(_))));
}

#[test]
fn test_update_keep_existing_items() {
    let (service, mut sess) = new_service();
    let (jid, asset_id, _, equity_id) = setup_accounts(&mut sess);
    let id = create_one(&service, &mut sess, &jid, &asset_id, &equity_id);
    let events = service
        .handle(
            &mut sess,
            RecordCommand::Update(RecordCommandUpdate {
                description: Some("Only description changed".to_string()),
                ..update_cmd(&id)
            }),
        )
        .unwrap();
    let RecordEvent::Updated(u) = &events[0] else { panic!("expected Updated") };
    assert_eq!(u.description.as_deref(), Some("Only description changed"));
    assert!(u.items.is_some());
}

#[test]
fn test_update_nonexistent_record_fails() {
    let (service, mut sess) = new_service();
    let err = service
        .handle(
            &mut sess,
            RecordCommand::Update(RecordCommandUpdate {
                description: Some("Whatever".to_string()),
                ..update_cmd("nonexistent")
            }),
        )
        .unwrap_err();
    assert_eq!(err.error, ErrorKind::Shared(SharedErrorKind::NotFound));
}

#[test]
fn test_update_duplicate_ids_fails() {
    let (service, mut sess) = new_service();
    let (jid, asset_id, expense_id, _) = setup_accounts(&mut sess);
    let id = create_one(&service, &mut sess, &jid, &asset_id, &expense_id);
    let err = service
        .handle(
            &mut sess,
            RecordCommand::Batch(RecordCommandBatch {
                create: vec![],
                update: vec![
                    RecordCommandUpdate { description: Some("First".to_string()), ..update_cmd(&id) },
                    RecordCommandUpdate { description: Some("Second".to_string()), ..update_cmd(&id) },
                ],
                delete: vec![],
            }),
        )
        .unwrap_err();
    assert_eq!(
        err.error,
        ErrorKind::Shared(SharedErrorKind::DuplicateValues { value: "id".to_string() })
    );
}

#[test]
fn test_test_update_empty_batch_succeeds() {
    let (service, mut sess) = new_service();
    assert!(service.handle(&mut sess, RecordCommand::Batch(empty_batch())).unwrap().is_empty());
}

// ── Delete ───────────────────────────────────────────────────────

#[test]
fn test_delete_existing_record() {
    let (service, mut sess) = new_service();
    let (jid, asset_id, expense_id, _) = setup_accounts(&mut sess);
    let id = create_one(&service, &mut sess, &jid, &asset_id, &expense_id);
    service.handle(&mut sess, RecordCommand::Delete(vec![id])).unwrap();
    assert!(sess.records.is_empty());
}

#[test]
fn test_record_delete_nonexistent_is_silent() {
    let (service, mut sess) = new_service();
    service.handle(&mut sess, RecordCommand::Delete(vec!["nonexistent".to_string()])).unwrap();
}

#[test]
fn test_record_delete_empty_batch_succeeds() {
    let (service, mut sess) = new_service();
    service.handle(&mut sess, RecordCommand::Delete(vec![])).unwrap();
}

// ── Batch ────────────────────────────────────────────────────────

#[test]
fn test_record_batch_empty_succeeds() {
    let (service, mut sess) = new_service();
    assert!(service.handle(&mut sess, RecordCommand::Batch(empty_batch())).unwrap().is_empty());
}

#[test]
fn test_record_batch_delete_create_update_together() {
    let (service, mut sess) = new_service();
    let (jid, asset_id, expense_id, equity_id) = setup_accounts(&mut sess);
    let events = service
        .handle(
            &mut sess,
            RecordCommand::Batch(RecordCommandBatch {
                create: vec![
                    create_cmd(&jid, vec![transaction_item(&asset_id, "10 USD"), transaction_item(&expense_id, "10 USD")]),
                    create_cmd(&jid, vec![transaction_item(&asset_id, "20 USD"), transaction_item(&expense_id, "20 USD")]),
                ],
                update: vec![],
                delete: vec![],
            }),
        )
        .unwrap();
    let ids: Vec<String> = events
        .iter()
        .filter_map(|e| match e {
            RecordEvent::Created(c) => Some(c.id.clone()),
            _ => None,
        })
        .collect();
    let to_delete_id = ids[0].clone();
    let to_update_id = ids[1].clone();
    let events = service
        .handle(
            &mut sess,
            RecordCommand::Batch(RecordCommandBatch {
                delete: vec![to_delete_id],
                create: vec![create_cmd(&jid, vec![transaction_item(&asset_id, "300 USD"), transaction_item(&equity_id, "300 USD")])],
                update: vec![RecordCommandUpdate {
                    description: Some("Batch updated".to_string()),
                    ..update_cmd(&to_update_id)
                }],
            }),
        )
        .unwrap();
    let updated_event = events
        .iter()
        .find_map(|e| match e {
            RecordEvent::Updated(u) if u.id == to_update_id => Some(u),
            _ => None,
        })
        .expect("no Updated event for to_update_id");
    assert_eq!(updated_event.description.as_deref(), Some("Batch updated"));
    assert_eq!(sess.records.len(), 2);
}

#[test]
fn test_record_batch_rollback_on_create_failure() {
    let (service, mut sess) = new_service();
    let (jid, asset_id, expense_id, _) = setup_accounts(&mut sess);
    let id = create_one(&service, &mut sess, &jid, &asset_id, &expense_id);
    let batch_result = service.handle(
        &mut sess,
        RecordCommand::Batch(RecordCommandBatch {
            delete: vec![id.clone()],
            create: vec![create_cmd(&jid, vec![])],
            update: vec![],
        }),
    );
    assert!(batch_result.is_err());
    let found = service.handle(
        &mut sess,
        RecordCommand::Update(RecordCommandUpdate { description: Some("Still here".to_string()), ..update_cmd(&id) }),
    );
    assert!(found.is_ok(), "Record should still exist after rollback");
}

#[test]
fn test_record_batch_rollback_on_update_failure() {
    let (service, mut sess) = new_service();
    let (jid, asset_id, expense_id, _) = setup_accounts(&mut sess);
    create_one(&service, &mut sess, &jid, &asset_id, &expense_id);
    let batch_result = service.handle(
        &mut sess,
        RecordCommand::Batch(RecordCommandBatch {
            delete: vec![],
            create: vec![create_cmd(&jid, vec![transaction_item(&asset_id, "100 USD"), transaction_item(&expense_id, "100 USD")])],
            update: vec![RecordCommandUpdate { description: Some("whatever".to_string()), ..update_cmd("nonexistent") }],
        }),
    );
    assert!(batch_result.is_err());
    assert_eq!(sess.records.len(), 1);
}

// ── Specifications ───────────────────────────────────────────────

fn two_records(service: &TestRecordService, sess: &mut InMemorySession, jid: &str, a: &str, b: &str) -> Vec<String> {
    let events = service
        .handle(
            sess,
            RecordCommand::Batch(RecordCommandBatch {
                create: vec![
                    create_cmd(jid, vec![transaction_item(a, "10 USD"), transaction_item(b, "10 USD")]),
                    create_cmd(jid, vec![transaction_item(a, "20 USD"), transaction_item(b, "20 USD")]),
                ],
                update: vec![],
                delete: vec![],
            }),
        )
        .unwrap();
    events
        .iter()
        .filter_map(|e| match e {
            RecordEvent::Created(c) => Some(c.id.clone()),
            _ => None,
        })
        .collect()
}

#[test]
fn test_record_spec_find_by_id() {
    let (service, mut sess) = new_service();
    let repo = InMemoryRecordRepository;
    let (jid, asset_id, expense_id, _) = setup_accounts(&mut sess);
    let ids = two_records(&service, &mut sess, &jid, &asset_id, &expense_id);
    let found = repo.find_all(&sess, &RecordSpecification::id(ids[0].clone()), None);
    assert_eq!(found.len(), 1);
    assert_eq!(found[0].id, ids[0]);
}

#[test]
fn test_record_spec_find_by_journal_id() {
    let (service, mut sess) = new_service();
    let repo = InMemoryRecordRepository;
    let (jid, asset_id, expense_id, _) = setup_accounts(&mut sess);
    create_one(&service, &mut sess, &jid, &asset_id, &expense_id);
    assert_eq!(repo.find_all(&sess, &RecordSpecification::journal_id(jid.clone()), None).len(), 1);
    assert!(repo.find_all(&sess, &RecordSpecification::journal_id("other".to_string()), None).is_empty());
}

#[test]
fn test_spec_find_by_account_id() {
    let (service, mut sess) = new_service();
    let repo = InMemoryRecordRepository;
    let (jid, asset_id, expense_id, equity_id) = setup_accounts(&mut sess);
    create_one(&service, &mut sess, &jid, &asset_id, &expense_id);
    create_one(&service, &mut sess, &jid, &asset_id, &equity_id);
    assert_eq!(repo.find_all(&sess, &RecordSpecification::account_id(asset_id.clone()), None).len(), 2);
    assert_eq!(repo.find_all(&sess, &RecordSpecification::account_id(expense_id.clone()), None).len(), 1);
}

#[test]
fn test_spec_find_by_date() {
    let (service, mut sess) = new_service();
    let repo = InMemoryRecordRepository;
    let (jid, asset_id, expense_id, _) = setup_accounts(&mut sess);
    let jan15 = date(2024, 1, 15);
    let feb1 = date(2024, 2, 1);
    create_one(&service, &mut sess, &jid, &asset_id, &expense_id);
    service
        .handle(
            &mut sess,
            RecordCommand::Create(dated(&jid, feb1, vec![transaction_item(&asset_id, "20 USD"), transaction_item(&expense_id, "20 USD")], "")),
        )
        .unwrap();
    assert_eq!(repo.find_all(&sess, &RecordSpecification::date(jan15), None).len(), 1);
    assert_eq!(repo.find_all(&sess, &RecordSpecification::date(feb1), None).len(), 1);
}

#[test]
fn test_spec_find_by_date_range() {
    let (service, mut sess) = new_service();
    let repo = InMemoryRecordRepository;
    let (jid, asset_id, expense_id, _) = setup_accounts(&mut sess);
    let (jan15, feb1, mar1) = (date(2024, 1, 15), date(2024, 2, 1), date(2024, 3, 1));
    for d in [jan15, feb1, mar1] {
        service
            .handle(
                &mut sess,
                RecordCommand::Create(dated(&jid, d, vec![transaction_item(&asset_id, "10 USD"), transaction_item(&expense_id, "10 USD")], "")),
            )
            .unwrap();
    }
    assert_eq!(repo.find_all(&sess, &RecordSpecification::date_from(feb1), None).len(), 2);
    assert_eq!(repo.find_all(&sess, &RecordSpecification::date_to(feb1), None).len(), 2);
    let spec = RecordSpecification::date_from(feb1).and(RecordSpecification::date_to(feb1));
    assert_eq!(repo.find_all(&sess, &spec, None).len(), 1);
}

fn payee_records(service: &TestRecordService, sess: &mut InMemorySession, jid: &str, a: &str, b: &str, payees: &[&str]) {
    let create = payees
        .iter()
        .enumerate()
        .map(|(i, p)| {
            let amount = format!("{} USD", 10 * (i + 1));
            dated(jid, date(2024, 1, 15 + i as u32), vec![transaction_item(a, &amount), transaction_item(b, &amount)], p)
        })
        .collect();
    service
        .handle(sess, RecordCommand::Batch(RecordCommandBatch { create, update: vec![], delete: vec![] }))
        .unwrap();
}

#[test]
fn test_spec_find_by_payee() {
    let (service, mut sess) = new_service();
    let repo = InMemoryRecordRepository;
    let (jid, asset_id, expense_id, _) = setup_accounts(&mut sess);
    payee_records(&service, &mut sess, &jid, &asset_id, &expense_id, &["Cafe", "Grocery"]);
    assert_eq!(repo.find_all(&sess, &RecordSpecification::payee("Cafe".to_string()), None).len(), 1);
}

#[test]
fn test_record_spec_find_by_tag() {
    let (service, mut sess) = new_service();
    let repo = InMemoryRecordRepository;
    let (jid, asset_id, expense_id, _) = setup_accounts(&mut sess);
    service
        .handle(
            &mut sess,
            RecordCommand::Create(RecordCommandCreate {
                tags: vec!["food".to_string(), "lunch".to_string()],
                ..create_cmd(&jid, vec![transaction_item(&asset_id, "10 USD"), transaction_item(&expense_id, "10 USD")])
            }),
        )
        .unwrap();
    create_one(&service, &mut sess, &jid, &asset_id, &expense_id);
    assert_eq!(repo.find_all(&sess, &RecordSpecification::tag("food".to_string()), None).len(), 1);
    assert!(repo.find_all(&sess, &RecordSpecification::tag("nonexistent".to_string()), None).is_empty());
}

#[test]
fn test_spec_find_by_item_kind() {
    let (service, mut sess) = new_service();
    let repo = InMemoryRecordRepository;
    let (jid, asset_id, expense_id, _) = setup_accounts(&mut sess);
    create_one(&service, &mut sess, &jid, &asset_id, &expense_id);
    service
        .handle(
            &mut sess,
            RecordCommand::Create(RecordCommandCreate {
                journal_id: jid.clone(),
                date: date(2024, 1, 31),
                kind: RecordItemKind::Validation,
                items: vec![transaction_item(&asset_id, "500 USD")],
                description: String::new(),
                tags: vec![],
                payee: String::new(),
            }),
        )
        .unwrap();
    assert_eq!(repo.find_all(&sess, &RecordSpecification::item_kind(RecordItemKind::Transaction), None).len(), 1);
    assert_eq!(repo.find_all(&sess, &RecordSpecification::item_kind(RecordItemKind::Validation), None).len(), 1);
}

#[test]
fn test_record_spec_find_by_full_text() {
    let (service, mut sess) = new_service();
    let repo = InMemoryRecordRepository;
    let (jid, asset_id, expense_id, _) = setup_accounts(&mut sess);
    service
        .handle(
            &mut sess,
            RecordCommand::Batch(RecordCommandBatch {
                create: vec![
                    RecordCommandCreate {
                        description: "Lunch at the cafe".to_string(),
                        payee: "SomeCafe".to_string(),
                        ..create_cmd(&jid, vec![transaction_item(&asset_id, "10 USD"), transaction_item(&expense_id, "10 USD")])
                    },
                    RecordCommandCreate {
                        date: date(2024, 1, 16),
                        description: "Grocery shopping".to_string(),
                        tags: vec!["weekly".to_string()],
                        payee: "Supermarket".to_string(),
                        ..create_cmd(&jid, vec![transaction_item(&asset_id, "20 USD"), transaction_item(&expense_id, "20 USD")])
                    },
                ],
                update: vec![],
                delete: vec![],
            }),
        )
        .unwrap();
    assert_eq!(repo.find_all(&sess, &RecordSpecification::full_text("lunch".to_string()), None).len(), 1);
    assert_eq!(repo.find_all(&sess, &RecordSpecification::full_text("supermarket".to_string()), None).len(), 1);
    assert_eq!(repo.find_all(&sess, &RecordSpecification::full_text("weekly".to_string()), None).len(), 1);
}

#[test]
fn test_record_spec_all_and() {
    let (service, mut sess) = new_service();
    let repo = InMemoryRecordRepository;
    let (jid, asset_id, expense_id, _) = setup_accounts(&mut sess);
    let jan15 = date(2024, 1, 15);
    service
        .handle(
            &mut sess,
            RecordCommand::Batch(RecordCommandBatch {
                create: vec![
                    dated(&jid, jan15, vec![transaction_item(&asset_id, "10 USD"), transaction_item(&expense_id, "10 USD")], "Cafe"),
                    dated(&jid, jan15, vec![transaction_item(&asset_id, "20 USD"), transaction_item(&expense_id, "20 USD")], "Grocery"),
                ],
                update: vec![],
                delete: vec![],
            }),
        )
        .unwrap();
    let spec = RecordSpecification::date(jan15).and(RecordSpecification::payee("Cafe".to_string()));
    assert_eq!(repo.find_all(&sess, &spec, None).len(), 1);
}

#[test]
fn test_record_spec_any_or() {
    let (service, mut sess) = new_service();
    let repo = InMemoryRecordRepository;
    let (jid, asset_id, expense_id, _) = setup_accounts(&mut sess);
    payee_records(&service, &mut sess, &jid, &asset_id, &expense_id, &["Cafe", "Grocery", "Restaurant"]);
    let spec = RecordSpecification::payee("Cafe".to_string()).or(RecordSpecification::payee("Restaurant".to_string()));
    assert_eq!(repo.find_all(&sess, &spec, None).len(), 2);
}

#[test]
fn test_record_spec_not() {
    let (service, mut sess) = new_service();
    let repo = InMemoryRecordRepository;
    let (jid, asset_id, expense_id, _) = setup_accounts(&mut sess);
    payee_records(&service, &mut sess, &jid, &asset_id, &expense_id, &["Cafe", "Grocery"]);
    let found = repo.find_all(&sess, &RecordSpecification::payee("Cafe".to_string()).negate(), None);
    assert_eq!(found.len(), 1);
    assert_eq!(found[0].payee, "Grocery");
}

#[test]
fn test_record_spec_limit() {
    let (service, mut sess) = new_service();
    let repo = InMemoryRecordRepository;
    let (jid, asset_id, expense_id, _) = setup_accounts(&mut sess);
    for i in 0..5 {
        service
            .handle(
                &mut sess,
                RecordCommand::Create(dated(&jid, date(2024, 1, 15 + i), vec![transaction_item(&asset_id, "10 USD"), transaction_item(&expense_id, "10 USD")], "")),
            )
            .unwrap();
    }
    assert_eq!(repo.find_all(&sess, &RecordSpecification::journal_id(jid), Some(3)).len(), 3);
}
