use whiterabbit::account::{Account, AccountInput, AccountType};
use whiterabbit::error::{ErrorKind, SharedErrorKind};
use whiterabbit::journal::{Journal, JournalInput};
use whiterabbit::record::input::{AmountInput, CostInput, RecordInput, RecordItemInput};
use whiterabbit::record::{Cost, Record, RecordItemKind, RecordItems};
use whiterabbit::seaorm::query::Column;
use whiterabbit::seaorm::record_rows::{
    item_rows_readable, parse_amount, reconstruct_items, ItemRow, RecordRow,
};
use whiterabbit::seaorm::rows::{
    plan_save, tag_rows, tag_rows_of_all, tags_of_owner, AccountRow, JournalRow, TagRow,
};
use whiterabbit::seaorm::{
    AccountTypeEnum, RecordKindEnum, SeaOrmAccountRepository, SeaOrmJournalRepository,
    SeaOrmRecordRepository,
};

fn strs(v: &[&str]) -> Vec<String> {
    v.iter().map(|s| s.to_string()).collect()
}

fn sorted(mut v: Vec<String>) -> Vec<String> {
    v.sort();
    v
}

fn account(id: &str, name: &str, tags: &[&str]) -> Account {
    Account::try_from_input(AccountInput {
        id: id.to_string(),
        journal_id: "j1".to_string(),
        parent_id: Some("root".to_string()),
        account_type: AccountType::Expense,
        name: name.to_string(),
        description: "spending".to_string(),
        tags: strs(tags),
        version: 3,
        created_at: Some(10),
        archived_at: Some(20),
        ..Default::default()
    })
    .unwrap()
}

#[test]
fn test_account_row_round_trip() {
    let a = account("a1", "Food", &["daily", "home"]);
    let b = account("a2", "Rent", &["home"]);
    let repo = SeaOrmAccountRepository;
    let rows = vec![repo.convert_to_active_model(&a), repo.convert_to_active_model(&b)];
    assert_eq!(rows[0].account_type, AccountTypeEnum::Expense);
    assert_eq!(rows[0].version, 3);
    let tags = tag_rows_of_all(&vec![a.clone(), b.clone()]);
    assert_eq!(tags.len(), 3);
    assert_eq!(tags[2].owner_id, "a2");
    let back = repo.convert_to_entities(&rows, &tags).unwrap();
    assert_eq!(back.len(), 2);
    for (x, y) in back.iter().zip([&a, &b]) {
        assert_eq!(x.id, y.id);
        assert_eq!(x.version, y.version);
        assert_eq!(x.created_at, y.created_at);
        assert_eq!(x.archived_at, y.archived_at);
        assert_eq!(x.journal_id, y.journal_id);
        assert_eq!(x.parent_id, y.parent_id);
        assert_eq!(x.account_type, y.account_type);
        assert_eq!(x.name, y.name);
        assert_eq!(x.description, y.description);
        assert_eq!(sorted(x.tags.clone()), sorted(y.tags.clone()));
    }
}

#[test]
fn test_account_row_blank_name_fails_and_tags_are_cleaned() {
    let repo = SeaOrmAccountRepository;
    let row = AccountRow {
        id: "a1".to_string(),
        version: 1,
        created_at: None,
        last_modified_at: None,
        archived_at: None,
        journal_id: "j1".to_string(),
        parent_id: None,
        account_type: AccountTypeEnum::Liability,
        name: "  ".to_string(),
        description: String::new(),
    };
    let err = repo.convert_to_entities(&vec![row], &vec![]).unwrap_err();
    assert_eq!(err.error, ErrorKind::Shared(SharedErrorKind::NonEmpty));

    let row = AccountRow { name: "Card".to_string(), ..AccountRow {
        id: "a1".to_string(),
        version: 1,
        created_at: None,
        last_modified_at: None,
        archived_at: None,
        journal_id: "j1".to_string(),
        parent_id: None,
        account_type: AccountTypeEnum::Liability,
        name: String::new(),
        description: String::new(),
    } };
    let tags = vec![
        TagRow { owner_id: "a1".to_string(), tag: "x".to_string() },
        TagRow { owner_id: "other".to_string(), tag: "y".to_string() },
        TagRow { owner_id: "a1".to_string(), tag: " ".to_string() },
        TagRow { owner_id: "a1".to_string(), tag: "x".to_string() },
    ];
    let a = repo.convert_to_entity(&row, &tags).unwrap();
    assert_eq!(a.account_type, AccountType::Liability);
    assert_eq!(a.tags, strs(&["x"]));
    assert_eq!(tags_of_owner(&tags, &"a1".to_string()), strs(&["x", " ", "x"]));
}

#[test]
fn test_temp_rows_keep_everything_but_the_name() {
    let a = account("a1", "Food", &[]);
    let row = SeaOrmAccountRepository.convert_to_temp_active_model(&a);
    assert!(row.name.starts_with("__temp__"));
    assert!(row.name.len() > 8);
    assert_eq!(row.id, "a1");
    assert_eq!(row.description, "spending");

    let j = Journal::try_from_input(JournalInput {
        id: "j1".to_string(),
        name: "Home".to_string(),
        ..Default::default()
    })
    .unwrap();
    let row = SeaOrmJournalRepository.convert_to_temp_active_model(&j);
    assert!(row.name.starts_with("__temp__"));
    assert_eq!(row.id, "j1");
}

#[test]
fn test_journal_row_round_trip() {
    let j = Journal::try_from_input(JournalInput {
        id: "j1".to_string(),
        name: "Home".to_string(),
        description: "family".to_string(),
        tags: strs(&["a", "b"]),
        version: 7,
        ..Default::default()
    })
    .unwrap();
    let repo = SeaOrmJournalRepository;
    let row: JournalRow = repo.convert_to_active_model(&j);
    let tags = tag_rows(&j.id, &j.tags);
    let back = repo.convert_to_entities(&vec![row], &tags).unwrap();
    assert_eq!(back[0].name, "Home");
    assert_eq!(back[0].version, 7);
    assert_eq!(back[0].description, "family");
    assert_eq!(sorted(back[0].tags.clone()), strs(&["a", "b"]));
}

#[test]
fn test_plan_save_splits_updates_and_inserts() {
    let es = vec![account("a1", "A", &[]), account("a2", "B", &[]), account("a3", "C", &[])];
    let (updates, inserts) = plan_save(&es, &strs(&["a3", "a1", "zz"]));
    assert_eq!(updates.iter().map(|a| a.id.clone()).collect::<Vec<_>>(), strs(&["a1", "a3"]));
    assert_eq!(inserts.iter().map(|a| a.id.clone()).collect::<Vec<_>>(), strs(&["a2"]));
}

#[test]
fn test_updatable_columns() {
    assert_eq!(
        SeaOrmAccountRepository.updatable_columns(),
        vec![
            Column::Version,
            Column::CreatedAt,
            Column::LastModifiedAt,
            Column::ArchivedAt,
            Column::Name,
            Column::Description
        ]
    );
    assert_eq!(
        SeaOrmRecordRepository.updatable_columns(),
        vec![
            Column::Version,
            Column::CreatedAt,
            Column::LastModifiedAt,
            Column::Date,
            Column::Description,
            Column::Payee
        ]
    );
}

fn txn_record() -> Record {
    Record::try_from_input(RecordInput {
        id: "r1".to_string(),
        payee: "Shop".to_string(),
        tags: strs(&["food"]),
        version: 2,
        items: vec![
            RecordItemInput {
                account_id: "cash".to_string(),
                account_type: AccountType::Asset,
                kind: RecordItemKind::Transaction,
                amount: AmountInput::from_text("12.50 USD"),
                price: Some(AmountInput::from_text("1.10 EUR")),
                cost: vec![CostInput::from_text("lot-1")],
                description: "paid".to_string(),
            },
            RecordItemInput {
                account_id: "food".to_string(),
                account_type: AccountType::Expense,
                kind: RecordItemKind::Transaction,
                amount: AmountInput::from_text("12.50 USD"),
                ..Default::default()
            },
        ],
        ..Default::default()
    })
    .unwrap()
}

#[test]
fn test_record_rows_round_trip() {
    let r = txn_record();
    let repo = SeaOrmRecordRepository;
    let row: RecordRow = repo.convert_to_active_model(&r);
    assert_eq!(row.kind, RecordKindEnum::Transaction);
    let items = repo.item_rows(&r);
    assert_eq!(items.len(), 2);
    assert_eq!(items[0].amount_number, "12.50");
    assert_eq!(items[0].amount_unit, "USD");
    assert_eq!(items[0].account_type.as_deref(), Some("Asset"));
    assert_eq!(items[0].price_number.as_deref(), Some("1.10"));
    assert_eq!(items[0].price_unit.as_deref(), Some("EUR"));
    assert!(matches!(items[0].costs.as_slice(), [Cost::Reference(s)] if s == "lot-1"));
    assert_eq!(items[1].account_type.as_deref(), Some("Expense"));
    assert!(items[1].price_number.is_none());
    assert_ne!(items[0].id, items[1].id);
    let tags = tag_rows(&r.id, &r.tags);
    let back = repo.convert_to_entities(&vec![row], &items, &tags).unwrap().unwrap();
    assert_eq!(back.len(), 1);
    assert_eq!(format!("{:?}", back[0].items), format!("{:?}", r.items));
    assert_eq!(back[0].payee, "Shop");
    assert_eq!(back[0].version, 2);
    assert_eq!(back[0].tags, strs(&["food"]));
}

fn item(record_id: &str, number: &str, unit: &str) -> ItemRow {
    ItemRow {
        id: "i".to_string(),
        record_id: record_id.to_string(),
        account_id: "acc".to_string(),
        account_type: None,
        amount_number: number.to_string(),
        amount_unit: unit.to_string(),
        description: String::new(),
        price_number: None,
        price_unit: None,
        costs: vec![],
    }
}

fn record_row(id: &str, kind: RecordKindEnum) -> RecordRow {
    RecordRow {
        id: id.to_string(),
        version: 0,
        created_at: None,
        last_modified_at: None,
        journal_id: "j1".to_string(),
        date: 738000,
        kind,
        description: String::new(),
        payee: String::new(),
    }
}

#[test]
fn test_reconstruct_items_reads_defaults() {
    let rows = vec![item("r1", "not a number", "USD")];
    let items = reconstruct_items(&RecordKindEnum::Transaction, &rows).unwrap();
    let RecordItems::Transactions(ts) = items else { panic!() };
    assert_eq!(ts[0].account_type, AccountType::Asset);
    assert_eq!(ts[0].amount.amount.mantissa, 0);
    assert!(ts[0].price.is_none());

    let mut unknown = item("r1", "5", "EUR");
    unknown.account_type = Some("Bogus".to_string());
    unknown.price_number = Some("2".to_string());
    let items = reconstruct_items(&RecordKindEnum::Transaction, &vec![unknown]).unwrap();
    let RecordItems::Transactions(ts) = items else { panic!() };
    assert_eq!(ts[0].account_type, AccountType::Asset);
    assert!(ts[0].price.is_none());

    let items = reconstruct_items(&RecordKindEnum::Validation, &vec![item("r1", "7", "USD")]).unwrap();
    assert!(matches!(items, RecordItems::Validations(v) if v.len() == 1));

    let err = reconstruct_items(&RecordKindEnum::Validation, &vec![]).unwrap_err();
    assert_eq!(err.error, ErrorKind::Shared(SharedErrorKind::NonEmpty));
    let a = parse_amount("3.5", "BTC");
    assert_eq!((a.amount.mantissa, a.amount.scale), (35, 1));
}

#[test]
fn test_record_rows_reading_stops_at_first_failure() {
    let repo = SeaOrmRecordRepository;
    let items = vec![item("r1", "1", "USD"), item("r3", "-1", "USD")];
    assert!(item_rows_readable(&vec![item("r1", "1", "USD")], RecordKindEnum::Validation));
    assert!(!item_rows_readable(&vec![item("r3", "-1", "USD")], RecordKindEnum::Validation));
    assert!(!item_rows_readable(&vec![item("r3", "1", " ")], RecordKindEnum::Validation));

    // r2 has no items: the error comes before r3's negative amount is read.
    let rows = vec![
        record_row("r1", RecordKindEnum::Validation),
        record_row("r2", RecordKindEnum::Validation),
        record_row("r3", RecordKindEnum::Validation),
    ];
    let r = repo.convert_to_entities(&rows, &items, &vec![]).unwrap();
    assert_eq!(r.unwrap_err().error, ErrorKind::Shared(SharedErrorKind::NonEmpty));

    // r3 comes first: its stored amount is negative, which the store never
    // holds, so nothing is read.
    let rows = vec![record_row("r3", RecordKindEnum::Validation), record_row("r2", RecordKindEnum::Validation)];
    assert!(repo.convert_to_entities(&rows, &items, &vec![]).is_none());

    let rows = vec![record_row("r1", RecordKindEnum::Validation)];
    let ok = repo.convert_to_entities(&rows, &items, &vec![]).unwrap().unwrap();
    assert_eq!(ok.len(), 1);
}
