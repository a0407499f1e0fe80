use whiterabbit::account::context::AccountContext;
use whiterabbit::account::event::{
    AccountArchived, AccountCreated, AccountDeleted, AccountEvent, AccountUpdated,
};
use whiterabbit::account::{Account, AccountInput, AccountType};
use whiterabbit::error::{ErrorKind, SharedErrorKind};
use whiterabbit::journal::{Journal, JournalInput};

fn input(id: &str, journal_id: &str, parent: Option<&str>, t: AccountType, name: &str) -> AccountInput {
    AccountInput {
        id: id.to_string(),
        journal_id: journal_id.to_string(),
        parent_id: parent.map(|p| p.to_string()),
        account_type: t,
        name: name.to_string(),
        ..Default::default()
    }
}

fn account(id: &str, parent: Option<&str>, t: AccountType, name: &str) -> Account {
    Account::try_from_input(input(id, "j", parent, t, name)).unwrap()
}

fn journal() -> Journal {
    Journal::try_from_input(JournalInput { name: "j".into(), ..Default::default() }).unwrap()
}

fn sorted(v: &[String]) -> Vec<String> {
    let mut v = v.to_vec();
    v.sort();
    v
}

fn same_account(a: &Account, b: &Account) -> bool {
    a.id == b.id
        && a.version == b.version
        && a.created_at == b.created_at
        && a.last_modified_at == b.last_modified_at
        && a.archived_at == b.archived_at
        && a.journal_id == b.journal_id
        && a.parent_id == b.parent_id
        && a.account_type == b.account_type
        && a.name == b.name
        && a.description == b.description
        && sorted(&a.tags) == sorted(&b.tags)
}

fn now() -> i64 {
    chrono::Utc::now().timestamp_micros()
}

// ── Input tests ──────────────────────────────────────────────────

#[test]
fn test_account_input_try_into_success() {
    let account = Account::try_from_input(AccountInput {
        id: "test-account-id".to_string(),
        journal_id: "test-journal-id".to_string(),
        account_type: AccountType::Asset,
        name: "Cash".to_string(),
        description: "Cash account".to_string(),
        ..Default::default()
    })
    .unwrap();
    assert_eq!(account.id, "test-account-id");
    assert_eq!(account.account_type, AccountType::Asset);
    assert!(format!("{:?}", account.name).contains("Cash"));
}

#[test]
fn test_account_input_with_tags() {
    let account = Account::try_from_input(AccountInput {
        id: "test-account-id".to_string(),
        journal_id: "test-journal-id".to_string(),
        account_type: AccountType::Expense,
        name: "Office Supplies".to_string(),
        tags: vec!["tag1".to_string(), "tag2".to_string()],
        ..Default::default()
    })
    .unwrap();
    assert_eq!(account.tags.len(), 2);
}

#[test]
fn test_account_input_with_parent_id() {
    let account = Account::try_from_input(AccountInput {
        id: "child-account-id".to_string(),
        journal_id: "test-journal-id".to_string(),
        parent_id: Some("parent-account-id".to_string()),
        account_type: AccountType::Asset,
        name: "Checking".to_string(),
        ..Default::default()
    })
    .unwrap();
    assert_eq!(account.parent_id.as_deref(), Some("parent-account-id"));
}

#[test]
fn test_test_error_empty_name_returns_non_empty_with_context() {
    let result = Account::try_from_input(AccountInput {
        id: "test-account-id".to_string(),
        journal_id: "test-journal-id".to_string(),
        account_type: AccountType::Asset,
        name: "".to_string(),
        ..Default::default()
    });
    let err = result.unwrap_err();
    assert_eq!(err.error, ErrorKind::Shared(SharedErrorKind::NonEmpty));
    assert_eq!(err.context.resource_type.as_deref(), Some(Account::ENTITY_TYPE));
    assert_eq!(err.context.field.as_deref(), Some("name"));
}

#[test]
fn test_account_type_default_is_asset() {
    assert_eq!(AccountType::default(), AccountType::Asset);
}

#[test]
fn test_account_input_blank_tags_are_dropped() {
    let account = Account::try_from_input(AccountInput {
        name: "Cash".to_string(),
        tags: vec!["a".to_string(), " ".to_string(), "a".to_string(), "".to_string()],
        ..Default::default()
    })
    .unwrap();
    assert_eq!(account.tags, vec!["a".to_string()]);
}

#[test]
fn test_account_blank_name_is_rejected() {
    let err = Account::try_from_input(input("a", "j", None, AccountType::Asset, " \t ")).unwrap_err();
    assert_eq!(err.error, ErrorKind::Shared(SharedErrorKind::NonEmpty));
}

#[test]
fn test_reserved_names_ignore_ascii_case() {
    assert!(Account::is_reserved_name("Asset"));
    assert!(Account::is_reserved_name("lIaBiLiTy"));
    assert!(Account::is_reserved_name("EQUITY"));
    assert!(Account::is_reserved_name("income"));
    assert!(Account::is_reserved_name("Expense"));
    assert!(!Account::is_reserved_name("Assets"));
    assert!(!Account::is_reserved_name(" Asset"));
    assert!(!Account::is_reserved_name(""));
}

#[test]
fn test_account_type_names() {
    assert_eq!(AccountType::Asset.to_display_string(), "Asset");
    assert_eq!(AccountType::Liability.to_display_string(), "Liability");
    assert_eq!(AccountType::Equity.to_display_string(), "Equity");
    assert_eq!(AccountType::Income.to_display_string(), "Income");
    assert_eq!(AccountType::Expense.to_display_string(), "Expense");
}

#[test]
fn test_is_root_and_is_archived() {
    let root = account("root", None, AccountType::Asset, "root");
    let mut child = account("child", Some("root"), AccountType::Asset, "child");
    assert!(root.is_root());
    assert!(!child.is_root());
    assert!(!child.is_archived());
    child.archived_at = Some(5);
    assert!(child.is_archived());
}

// ── Context validation tests ─────────────────────────────────────

#[test]
fn test_context_valid_three_level_chain() {
    let root = account("root", None, AccountType::Asset, "root");
    let mid = account("mid", Some("root"), AccountType::Asset, "mid");
    let leaf = account("leaf", Some("mid"), AccountType::Asset, "leaf");
    let ctx = AccountContext { entity: leaf, journal: journal(), accounts: vec![root, mid] };
    ctx.validate().unwrap();
}

#[test]
fn test_context_root_account_no_parent_is_valid() {
    let root = account("root", None, AccountType::Income, "root");
    let ctx = AccountContext { entity: root, journal: journal(), accounts: vec![] };
    ctx.validate().unwrap();
}

#[test]
fn test_context_mismatch_immediate_parent() {
    let root = account("root", None, AccountType::Asset, "root");
    let child = account("child", Some("root"), AccountType::Expense, "child");
    let ctx = AccountContext { entity: child, journal: journal(), accounts: vec![root] };
    let err = ctx.validate().unwrap_err();
    assert!(matches!(err.error, ErrorKind::Mismatch { .. }));
    assert_eq!(err.context.resource_type.as_deref(), Some(Account::ENTITY_TYPE));
    assert_eq!(err.context.field.as_deref(), Some("type"));
    match &err.error {
        ErrorKind::Mismatch { expected, actual } => {
            assert_eq!(expected, "Asset");
            assert_eq!(actual, "Expense");
        }
        other => panic!("expected Mismatch, got {other:?}"),
    }
}

#[test]
fn test_context_mismatch_deep_in_chain() {
    let root = account("root", None, AccountType::Asset, "root");
    let mid = account("mid", Some("root"), AccountType::Asset, "mid");
    let leaf = account("leaf", Some("mid"), AccountType::Liability, "leaf");
    let ctx = AccountContext { entity: leaf, journal: journal(), accounts: vec![root, mid] };
    let err = ctx.validate().unwrap_err();
    assert!(matches!(err.error, ErrorKind::Mismatch { .. }));
}

#[test]
fn test_context_parent_not_found() {
    let child = account("child", Some("nonexistent"), AccountType::Asset, "child");
    let ctx = AccountContext { entity: child, journal: journal(), accounts: vec![] };
    let err = ctx.validate().unwrap_err();
    assert_eq!(err.error, ErrorKind::Shared(SharedErrorKind::NotFound));
    assert_eq!(err.context.resource_type.as_deref(), Some(Account::ENTITY_TYPE));
    assert_eq!(err.context.field.as_deref(), Some("parent_id"));
}

#[test]
fn test_context_archived_parent_conflicts() {
    let mut root = account("root", None, AccountType::Asset, "root");
    root.archived_at = Some(1);
    let child = account("child", Some("root"), AccountType::Asset, "child");
    let ctx = AccountContext { entity: child, journal: journal(), accounts: vec![root] };
    let err = ctx.validate().unwrap_err();
    assert_eq!(err.error, ErrorKind::Shared(SharedErrorKind::Conflict));
    assert_eq!(err.context.field.as_deref(), Some("parent_id"));
}

#[test]
fn test_context_reserved_child_name_conflicts() {
    let root = account("root", None, AccountType::Asset, "root");
    let child = account("child", Some("root"), AccountType::Asset, "asset");
    let ctx = AccountContext { entity: child, journal: journal(), accounts: vec![root] };
    let err = ctx.validate().unwrap_err();
    assert_eq!(err.error, ErrorKind::Shared(SharedErrorKind::Conflict));
    assert_eq!(err.context.field.as_deref(), Some("name"));
}

// ── Apply tests ──────────────────────────────────────────────────

fn default_account() -> Account {
    Account::try_from_input(input("seed", "j", None, AccountType::Asset, "Seed")).unwrap()
}

#[test]
fn test_test_apply_created_overwrites_all_fields() {
    let mut account = default_account();
    let now = now();
    account.apply(&AccountEvent::Created(AccountCreated {
        id: "new-id".to_string(),
        journal_id: "j-new".to_string(),
        parent_id: Some("parent".to_string()),
        account_type: AccountType::Expense,
        name: "Food".to_string(),
        description: "Groceries".to_string(),
        tags: vec!["grocery".to_string()],
        created_at: now,
    }));
    assert_eq!(account.id, "new-id");
    assert_eq!(account.journal_id, "j-new");
    assert_eq!(account.parent_id.as_deref(), Some("parent"));
    assert_eq!(account.account_type, AccountType::Expense);
    assert_eq!(account.name, "Food");
    assert_eq!(account.description, "Groceries");
    assert_eq!(account.tags.len(), 1);
    assert_eq!(account.created_at, Some(now));
}

#[test]
fn test_test_apply_updated_patches_changed_fields() {
    let mut account = default_account();
    let now = now();
    let id = account.id.clone();
    account.apply(&AccountEvent::Updated(AccountUpdated {
        id,
        name: Some("Renamed".to_string()),
        description: None,
        tags: None,
        last_modified_at: now,
    }));
    assert_eq!(account.name, "Renamed");
    assert_eq!(account.description, "");
    assert_eq!(account.last_modified_at, Some(now));
}

#[test]
fn test_test_apply_updated_leaves_unset_fields_unchanged() {
    let mut account = default_account();
    let old_name = account.name.clone();
    let now = now();
    let id = account.id.clone();
    account.apply(&AccountEvent::Updated(AccountUpdated {
        id,
        name: None,
        description: Some("New desc".to_string()),
        tags: None,
        last_modified_at: now,
    }));
    assert_eq!(account.name, old_name);
    assert_eq!(account.description, "New desc");
}

#[test]
fn test_apply_archived_sets_archived_at() {
    let mut account = default_account();
    let now = now();
    let id = account.id.clone();
    account.apply(&AccountEvent::Archived(AccountArchived { id, archived_at: now }));
    assert_eq!(account.archived_at, Some(now));
}

#[test]
fn test_test_apply_deleted_is_noop() {
    let mut account = default_account();
    let before = account.clone();
    let id = account.id.clone();
    account.apply(&AccountEvent::Deleted(AccountDeleted { id }));
    assert!(same_account(&account, &before));
}

#[test]
fn test_test_apply_is_deterministic() {
    let mut a = default_account();
    let mut b = a.clone();
    let event = AccountEvent::Updated(AccountUpdated {
        id: a.id.clone(),
        name: Some("Deterministic".to_string()),
        description: Some("Same".to_string()),
        tags: Some(vec!["t".to_string()]),
        last_modified_at: now(),
    });
    a.apply(&event);
    b.apply(&event);
    assert!(same_account(&a, &b));
}

#[test]
fn test_test_apply_multi_event_fold() {
    let mut account = default_account();
    let t1 = now();
    let t2 = now();
    let t3 = now();
    let events = vec![
        AccountEvent::Created(AccountCreated {
            id: "a1".to_string(),
            journal_id: "j1".to_string(),
            parent_id: None,
            account_type: AccountType::Income,
            name: "Salary".to_string(),
            description: "Monthly".to_string(),
            tags: vec![],
            created_at: t1,
        }),
        AccountEvent::Updated(AccountUpdated {
            id: "a1".to_string(),
            name: Some("Consulting".to_string()),
            description: None,
            tags: Some(vec!["work".to_string()]),
            last_modified_at: t2,
        }),
        AccountEvent::Archived(AccountArchived { id: "a1".to_string(), archived_at: t3 }),
    ];
    for event in &events {
        account.apply(event);
    }
    assert_eq!(account.id, "a1");
    assert_eq!(account.name, "Consulting");
    assert_eq!(account.description, "Monthly");
    assert!(account.tags.iter().any(|t| t == "work"));
    assert_eq!(account.archived_at, Some(t3));
    assert_eq!(account.last_modified_at, Some(t2));
}

#[test]
fn test_event_type_returns_expected_strings() {
    let created = AccountEvent::Created(AccountCreated {
        id: "acc-1".to_string(),
        journal_id: "j-1".to_string(),
        parent_id: Some("root-1".to_string()),
        account_type: AccountType::Asset,
        name: "Cash".to_string(),
        description: "Main cash".to_string(),
        tags: vec!["liquid".to_string()],
        created_at: now(),
    });
    assert_eq!(created.event_type(), "whiterabbit::event::AccountCreated");
    assert_eq!(
        AccountEvent::Updated(AccountUpdated {
            id: "acc-1".to_string(),
            name: Some("New".to_string()),
            description: None,
            tags: None,
            last_modified_at: now(),
        })
        .event_type(),
        "whiterabbit::event::AccountUpdated"
    );
    assert_eq!(
        AccountEvent::Archived(AccountArchived { id: "acc-1".to_string(), archived_at: now() })
            .event_type(),
        "whiterabbit::event::AccountArchived"
    );
    assert_eq!(
        AccountEvent::Deleted(AccountDeleted { id: "acc-1".to_string() }).event_type(),
        "whiterabbit::event::AccountDeleted"
    );
}
