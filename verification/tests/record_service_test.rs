use chrono::{Datelike, NaiveDate};
use whiterabbit::account::{Account, AccountInput, AccountType};
use whiterabbit::error::{ErrorKind, SharedErrorKind};
use whiterabbit::inmemory::account::InMemoryAccountRepository;
use whiterabbit::inmemory::record::InMemoryRecordRepository;
use whiterabbit::inmemory::InMemorySession;
use whiterabbit::record::command::{
    RecordCommand, RecordCommandBatch, RecordCommandCreate, RecordCommandItem, RecordCommandUpdate,
};
use whiterabbit::record::event::RecordEvent;
use whiterabbit::record::repository::RecordRepository;
use whiterabbit::record::service::RecordService;
use whiterabbit::record::specification::{RecordSpec, RecordSpecification};
use whiterabbit::record::{Record, RecordItemKind, RecordItems};

type Service = RecordService<InMemoryRecordRepository, InMemoryAccountRepository>;

fn day(y: i32, m: u32, d: u32) -> i32 {
    NaiveDate::from_ymd_opt(y, m, d).unwrap().num_days_from_ce()
}

fn account(id: &str, journal: &str, t: AccountType) -> Account {
    Account::try_from_input(AccountInput {
        id: id.to_string(),
        journal_id: journal.to_string(),
        account_type: t,
        name: id.to_string(),
        ..Default::default()
    })
    .unwrap()
}

fn setup() -> (Service, InMemorySession) {
    let mut sess = InMemorySession::new();
    sess.accounts.push(account("cash", "j1", AccountType::Asset));
    sess.accounts.push(account("equity", "j1", AccountType::Equity));
    sess.accounts.push(account("food", "j1", AccountType::Expense));
    sess.accounts.push(account("other", "j2", AccountType::Asset));
    (RecordService::new(InMemoryRecordRepository, InMemoryAccountRepository), sess)
}

fn item(account: &str, amount: &str) -> RecordCommandItem {
    RecordCommandItem { account_id: account.to_string(), amount: amount.to_string(), description: String::new(), price: None, cost: vec![] }
}

fn create(items: Vec<RecordCommandItem>) -> RecordCommandCreate {
    RecordCommandCreate {
        journal_id: "j1".to_string(),
        date: day(2024, 3, 1),
        kind: RecordItemKind::Transaction,
        items,
        description: "Lunch".to_string(),
        tags: vec!["meal".to_string()],
        payee: "Cafe".to_string(),
    }
}

fn update(id: &str) -> RecordCommandUpdate {
    RecordCommandUpdate { id: id.to_string(), date: None, items: None, description: None, tags: None, payee: None }
}

fn ids(v: &[&str]) -> Vec<String> {
    v.iter().map(|s| s.to_string()).collect()
}

fn find<'a>(sess: &'a InMemorySession, id: &str) -> Option<&'a Record> {
    sess.records.iter().find(|r| r.id == id)
}

#[test]
fn test_create_record_resolves_account_types() {
    let (service, mut sess) = setup();
    let events = service
        .create_at(&mut sess, vec![create(vec![item("food", "12.50 USD"), item("cash", "12.50 USD")])], &ids(&["r1"]), 5)
        .unwrap();
    assert_eq!(events.len(), 1);
    let RecordEvent::Created(e) = &events[0] else { panic!("expected Created") };
    assert_eq!(e.id, "r1");
    assert_eq!(e.created_at, 5);
    let r = find(&sess, "r1").unwrap();
    assert_eq!(r.created_at, None);
    assert_eq!(r.payee, "Cafe");
    match &r.items {
        RecordItems::Transactions(t) => {
            assert_eq!(t[0].account_type, AccountType::Expense);
            assert_eq!(t[1].account_type, AccountType::Asset);
        }
        _ => panic!("expected transactions"),
    }
}

#[test]
fn test_create_unbalanced_record_is_accepted() {
    let (service, mut sess) = setup();
    service.create_at(&mut sess, vec![create(vec![item("cash", "1 USD"), item("equity", "2 USD")])], &ids(&["r1"]), 5).unwrap();
    assert_eq!(find(&sess, "r1").unwrap().is_balanced(), Some(false));
}

#[test]
fn test_record_create_with_fresh_ids() {
    let (service, mut sess) = setup();
    let events = service.create(&mut sess, vec![create(vec![item("cash", "1 USD")])]).unwrap();
    assert_eq!(events.len(), 1);
    assert_eq!(sess.records.len(), 1);
}

#[test]
fn test_create_missing_account_fails() {
    let (service, mut sess) = setup();
    let err = service.create_at(&mut sess, vec![create(vec![item("ghost", "1 USD")])], &ids(&["r1"]), 5).unwrap_err();
    assert_eq!(err.error, ErrorKind::Shared(SharedErrorKind::NotFound));
    assert_eq!(err.context.field.as_deref(), Some("account_id"));
    assert_eq!(err.context.detail.as_deref(), Some("account ghost not found"));
    assert!(sess.records.is_empty());
}

#[test]
fn test_create_account_of_other_journal_fails() {
    let (service, mut sess) = setup();
    let err = service.create_at(&mut sess, vec![create(vec![item("other", "1 USD")])], &ids(&["r1"]), 5).unwrap_err();
    assert_eq!(err.error, ErrorKind::Mismatch { expected: "j1".to_string(), actual: "j2".to_string() });
    assert_eq!(err.context.resource_type.as_deref(), Some(Record::ENTITY_TYPE));
    assert_eq!(err.context.field.as_deref(), Some("journal_id"));
}

#[test]
fn test_create_archived_account_fails() {
    let (service, mut sess) = setup();
    sess.accounts[0].archived_at = Some(1);
    let err = service.create_at(&mut sess, vec![create(vec![item("cash", "1 USD")])], &ids(&["r1"]), 5).unwrap_err();
    assert_eq!(err.error, ErrorKind::Shared(SharedErrorKind::Conflict));
    assert_eq!(err.context.detail.as_deref(), Some("account cash is archived"));
}

#[test]
fn test_create_bad_amount_fails_and_stores_nothing() {
    let (service, mut sess) = setup();
    let err = service
        .create_at(
            &mut sess,
            vec![create(vec![item("cash", "1 USD")]), create(vec![item("cash", "one USD")])],
            &ids(&["r1", "r2"]),
            5,
        )
        .unwrap_err();
    assert_eq!(err.error, ErrorKind::Shared(SharedErrorKind::InvalidFormat { value: "one".to_string() }));
    assert!(sess.records.is_empty());
}

#[test]
fn test_create_empty_items_fails() {
    let (service, mut sess) = setup();
    let err = service.create_at(&mut sess, vec![create(vec![])], &ids(&["r1"]), 5).unwrap_err();
    assert_eq!(err.error, ErrorKind::Shared(SharedErrorKind::NonEmpty));
    assert_eq!(err.context.field.as_deref(), Some("items"));
}

#[test]
fn test_update_keeps_items_and_changes_fields() {
    let (service, mut sess) = setup();
    service
        .create_at(&mut sess, vec![create(vec![RecordCommandItem { price: Some("1.5 EUR".to_string()), cost: vec!["2024-01-01".to_string(), "lot".to_string(), "183.07 USD".to_string()], ..item("cash", "2.50 USD") }])], &ids(&["r1"]), 5)
        .unwrap();
    let before = format!("{:?}", find(&sess, "r1").unwrap().items);
    assert!(before.contains("Price"));
    let events = service
        .update_at(
            &mut sess,
            vec![RecordCommandUpdate { payee: Some("Bistro".to_string()), date: Some(day(2024, 3, 2)), ..update("r1") }],
            9,
        )
        .unwrap();
    let r = find(&sess, "r1").unwrap();
    assert_eq!(r.payee, "Bistro");
    assert_eq!(r.date, day(2024, 3, 2));
    assert_eq!(r.description, "Lunch");
    assert_eq!(format!("{:?}", r.items), before);
    // The stored modification time is kept; the event falls back to now.
    assert_eq!(r.last_modified_at, None);
    assert!(matches!(&events[0], RecordEvent::Updated(e) if e.last_modified_at == 9));
}

#[test]
fn test_update_replaces_items() {
    let (service, mut sess) = setup();
    service.create_at(&mut sess, vec![create(vec![item("cash", "1 USD")])], &ids(&["r1"]), 5).unwrap();
    service
        .update_at(&mut sess, vec![RecordCommandUpdate { items: Some(vec![item("food", "3 USD"), item("cash", "3 USD")]), ..update("r1") }], 9)
        .unwrap();
    match &find(&sess, "r1").unwrap().items {
        RecordItems::Transactions(t) => assert_eq!(t.len(), 2),
        _ => panic!("expected transactions"),
    }
}

#[test]
fn test_update_errors() {
    let (service, mut sess) = setup();
    service.create_at(&mut sess, vec![create(vec![item("cash", "1 USD")])], &ids(&["r1"]), 5).unwrap();
    let err = service.update_at(&mut sess, vec![update("r1"), update("r1")], 9).unwrap_err();
    assert_eq!(err.error, ErrorKind::Shared(SharedErrorKind::DuplicateValues { value: "id".to_string() }));
    let err = service.update_at(&mut sess, vec![update("zz")], 9).unwrap_err();
    assert_eq!(err.context.detail.as_deref(), Some("record zz not found"));
    let err = service
        .update_at(&mut sess, vec![RecordCommandUpdate { items: Some(vec![item("other", "1 USD")]), ..update("r1") }], 9)
        .unwrap_err();
    assert!(matches!(err.error, ErrorKind::Mismatch { .. }));
}

#[test]
fn test_delete_records() {
    let (service, mut sess) = setup();
    service.create_at(&mut sess, vec![create(vec![item("cash", "1 USD")]), create(vec![item("cash", "2 USD")])], &ids(&["r1", "r2"]), 5).unwrap();
    let events = service.delete(&mut sess, ids(&["r1", "r1", "zz"])).unwrap();
    assert_eq!(events.len(), 2);
    assert!(find(&sess, "r1").is_none());
    assert!(find(&sess, "r2").is_some());
    assert!(service.delete(&mut sess, vec![]).unwrap().is_empty());
}

#[test]
fn test_batch_order_and_rollback() {
    let (service, mut sess) = setup();
    service.create_at(&mut sess, vec![create(vec![item("cash", "1 USD")])], &ids(&["r1"]), 5).unwrap();
    let events = service
        .batch_at(
            &mut sess,
            RecordCommandBatch {
                create: vec![create(vec![item("food", "4 USD")])],
                update: vec![RecordCommandUpdate { description: Some("Dinner".to_string()), ..update("r2") }],
                delete: ids(&["r1"]),
            },
            &ids(&["r2"]),
            6,
        )
        .unwrap();
    assert_eq!(events.len(), 3);
    assert!(matches!(events[0], RecordEvent::Deleted(_)));
    assert!(matches!(events[1], RecordEvent::Created(_)));
    assert!(matches!(events[2], RecordEvent::Updated(_)));
    assert_eq!(find(&sess, "r2").unwrap().description, "Dinner");
    assert!(sess.snapshot.is_none());
    let err = service
        .batch_at(
            &mut sess,
            RecordCommandBatch { create: vec![], update: vec![update("zz")], delete: ids(&["r2"]) },
            &ids(&[]),
            7,
        )
        .unwrap_err();
    assert_eq!(err.error, ErrorKind::Shared(SharedErrorKind::NotFound));
    assert!(find(&sess, "r2").is_some());
}

#[test]
fn test_handle_dispatches() {
    let (service, mut sess) = setup();
    let events = service.handle_at(&mut sess, RecordCommand::Create(create(vec![item("cash", "1 USD")])), &ids(&["r1"]), 5).unwrap();
    assert_eq!(events.len(), 1);
    let events = service.handle(&mut sess, RecordCommand::Delete(ids(&["r1"]))).unwrap();
    assert_eq!(events.len(), 1);
    assert!(sess.records.is_empty());
    assert_eq!(RecordCommand::Delete(vec![]).command_type(), "whiterabbit::command::RecordCommandDelete");
}

fn found(sess: &InMemorySession, spec: &RecordSpec) -> Vec<String> {
    InMemoryRecordRepository.find_all(sess, spec, None).into_iter().map(|r| r.id).collect()
}

#[test]
fn test_record_spec_queries() {
    let (service, mut sess) = setup();
    service
        .create_at(
            &mut sess,
            vec![
                create(vec![item("cash", "1 USD")]),
                RecordCommandCreate { date: day(2024, 5, 1), payee: "Grocer".to_string(), tags: vec!["Food".to_string()], description: "Weekly shop".to_string(), ..create(vec![item("food", "2 USD")]) },
                RecordCommandCreate { kind: RecordItemKind::Validation, ..create(vec![item("cash", "5 USD")]) },
            ],
            &ids(&["r1", "r2", "r3"]),
            5,
        )
        .unwrap();
    assert_eq!(found(&sess, &RecordSpecification::id("r2".to_string())), vec!["r2"]);
    assert_eq!(found(&sess, &RecordSpecification::journal_id("j1".to_string())), vec!["r1", "r2", "r3"]);
    assert_eq!(found(&sess, &RecordSpecification::account_id("food".to_string())), vec!["r2"]);
    assert_eq!(found(&sess, &RecordSpecification::account_ids(ids(&["cash"]))), vec!["r1", "r3"]);
    assert_eq!(found(&sess, &RecordSpecification::date(day(2024, 5, 1))), vec!["r2"]);
    assert_eq!(found(&sess, &RecordSpecification::date_from(day(2024, 4, 1))), vec!["r2"]);
    assert_eq!(found(&sess, &RecordSpecification::date_to(day(2024, 4, 1))), vec!["r1", "r3"]);
    assert_eq!(found(&sess, &RecordSpecification::payee("grocer".to_string())), vec!["r2"]);
    assert_eq!(found(&sess, &RecordSpecification::tag("FOOD".to_string())), vec!["r2"]);
    assert_eq!(found(&sess, &RecordSpecification::item_kind(RecordItemKind::Validation)), vec!["r3"]);
    assert_eq!(found(&sess, &RecordSpecification::full_text(" weekly ".to_string())), vec!["r2"]);
    assert_eq!(found(&sess, &RecordSpecification::full_text("cafe".to_string())), vec!["r1", "r3"]);
}
