use whiterabbit::account::command::{
    AccountCommand, AccountCommandArchive, AccountCommandBatch, AccountCommandCreate,
    AccountCommandUpdate,
};
use whiterabbit::account::event::AccountEvent;
use whiterabbit::account::repository::AccountRepository;
use whiterabbit::account::service::AccountService;
use whiterabbit::account::specification::AccountSpecification;
use whiterabbit::account::{Account, AccountInput, AccountType};
use whiterabbit::error::{ErrorKind, SharedErrorKind};
use whiterabbit::inmemory::account::InMemoryAccountRepository;
use whiterabbit::inmemory::InMemorySession;

fn new_service() -> (AccountService<InMemoryAccountRepository>, InMemorySession) {
    (AccountService::new(InMemoryAccountRepository), InMemorySession::new())
}

fn insert_root(sess: &mut InMemorySession, id: &str, journal_id: &str, t: AccountType) {
    let account = Account::try_from_input(AccountInput {
        id: id.to_string(),
        journal_id: journal_id.to_string(),
        account_type: t,
        name: t.to_display_string(),
        ..Default::default()
    })
    .unwrap();
    sess.accounts.push(account);
}

fn create_cmd(journal_id: &str, parent_id: &str, name: &str) -> AccountCommandCreate {
    AccountCommandCreate {
        journal_id: journal_id.to_string(),
        parent_id: parent_id.to_string(),
        name: name.to_string(),
        description: String::new(),
        tags: vec![],
    }
}

fn ids(v: &[&str]) -> Vec<String> {
    v.iter().map(|s| s.to_string()).collect()
}

fn find<'a>(sess: &'a InMemorySession, id: &str) -> Option<&'a Account> {
    sess.accounts.iter().find(|a| a.id == id)
}

#[test]
fn test_create_single_account() {
    let (service, mut sess) = new_service();
    insert_root(&mut sess, "root", "j1", AccountType::Asset);
    let result = service
        .handle_at(&mut sess, AccountCommand::Create(create_cmd("j1", "root", "Cash")), &ids(&["cash"]), 7)
        .unwrap();
    assert_eq!(result.events.len(), 1);
    let AccountEvent::Created(e) = &result.events[0] else { panic!("expected Created") };
    assert_eq!(e.name, "Cash");
    assert_eq!(e.account_type, AccountType::Asset);
    assert_eq!(e.parent_id.as_deref(), Some("root"));
    assert_eq!(e.created_at, 7);
    assert_eq!(result.entities.len(), 1);
    assert_eq!(result.entities[0].id, "cash");
    let stored = find(&sess, "cash").unwrap();
    assert_eq!(stored.created_at, Some(7));
    assert_eq!(stored.version, 0);
    assert!(sess.snapshot.is_none());
}

#[test]
fn test_account_create_with_fresh_ids() {
    let (service, mut sess) = new_service();
    insert_root(&mut sess, "root", "j1", AccountType::Liability);
    let result = service.handle(&mut sess, AccountCommand::Create(create_cmd("j1", "root", "Card"))).unwrap();
    assert_eq!(result.entities.len(), 1);
    assert_eq!(result.entities[0].account_type, AccountType::Liability);
    assert_eq!(sess.accounts.len(), 2);
}

#[test]
fn test_create_reserved_name_fails() {
    let (service, mut sess) = new_service();
    insert_root(&mut sess, "root", "j1", AccountType::Asset);
    let err = service
        .handle_at(&mut sess, AccountCommand::Create(create_cmd("j1", "root", "Asset")), &ids(&["x"]), 1)
        .unwrap_err();
    assert_eq!(err.error, ErrorKind::Shared(SharedErrorKind::Conflict));
    assert_eq!(err.context.field.as_deref(), Some("name"));
    assert_eq!(err.context.detail.as_deref(), Some("'Asset' is a reserved root account name"));
    assert_eq!(sess.accounts.len(), 1);
}

#[test]
fn test_create_reserved_name_case_insensitive() {
    let (service, mut sess) = new_service();
    insert_root(&mut sess, "root", "j1", AccountType::Asset);
    let err = service
        .handle_at(&mut sess, AccountCommand::Create(create_cmd("j1", "root", "eXpEnSe")), &ids(&["x"]), 1)
        .unwrap_err();
    assert_eq!(err.error, ErrorKind::Shared(SharedErrorKind::Conflict));
}

#[test]
fn test_create_parent_not_found_fails() {
    let (service, mut sess) = new_service();
    let err = service
        .handle_at(&mut sess, AccountCommand::Create(create_cmd("j1", "missing", "Cash")), &ids(&["x"]), 1)
        .unwrap_err();
    assert_eq!(err.error, ErrorKind::Shared(SharedErrorKind::NotFound));
    assert_eq!(err.context.field.as_deref(), Some("parent_id"));
    assert_eq!(err.context.detail.as_deref(), Some("parent missing not found"));
}

#[test]
fn test_create_under_archived_parent_fails() {
    let (service, mut sess) = new_service();
    insert_root(&mut sess, "root", "j1", AccountType::Asset);
    sess.accounts[0].archived_at = Some(3);
    let err = service
        .handle_at(&mut sess, AccountCommand::Create(create_cmd("j1", "root", "Cash")), &ids(&["x"]), 1)
        .unwrap_err();
    assert_eq!(err.error, ErrorKind::Shared(SharedErrorKind::Conflict));
    assert_eq!(err.context.detail.as_deref(), Some("parent root is archived"));
}

#[test]
fn test_create_duplicate_sibling_name_fails() {
    let (service, mut sess) = new_service();
    insert_root(&mut sess, "root", "j1", AccountType::Asset);
    service
        .handle_at(&mut sess, AccountCommand::Create(create_cmd("j1", "root", "Cash")), &ids(&["a"]), 1)
        .unwrap();
    let err = service
        .handle_at(&mut sess, AccountCommand::Create(create_cmd("j1", "root", "  cash ")), &ids(&["b"]), 1)
        .unwrap_err();
    assert_eq!(err.error, ErrorKind::Shared(SharedErrorKind::DuplicateValues { value: "Cash".to_string() }));
    // In one batch, an exact repeat under one parent is refused too.
    let batch = AccountCommandBatch {
        create: vec![create_cmd("j1", "root", "Bank"), create_cmd("j1", "root", "Bank")],
        update: vec![],
        delete: vec![],
        archive: vec![],
    };
    let err = service.handle_at(&mut sess, AccountCommand::Batch(batch), &ids(&["c", "d"]), 1).unwrap_err();
    assert_eq!(err.error, ErrorKind::Shared(SharedErrorKind::DuplicateValues { value: "Bank".to_string() }));
}

#[test]
fn test_create_blank_name_fails() {
    let (service, mut sess) = new_service();
    insert_root(&mut sess, "root", "j1", AccountType::Asset);
    let err = service
        .handle_at(&mut sess, AccountCommand::Create(create_cmd("j1", "root", "   ")), &ids(&["x"]), 1)
        .unwrap_err();
    assert_eq!(err.error, ErrorKind::Shared(SharedErrorKind::NonEmpty));
}

#[test]
fn test_create_inherits_type_from_parent() {
    let (service, mut sess) = new_service();
    insert_root(&mut sess, "root", "j1", AccountType::Income);
    service
        .handle_at(&mut sess, AccountCommand::Create(create_cmd("j1", "root", "Salary")), &ids(&["s"]), 1)
        .unwrap();
    assert_eq!(find(&sess, "s").unwrap().account_type, AccountType::Income);
}

#[test]
fn test_update_account_name() {
    let (service, mut sess) = new_service();
    insert_root(&mut sess, "root", "j1", AccountType::Asset);
    service
        .handle_at(&mut sess, AccountCommand::Create(create_cmd("j1", "root", "Cash")), &ids(&["a"]), 1)
        .unwrap();
    let result = service
        .handle_at(
            &mut sess,
            AccountCommand::Update(AccountCommandUpdate {
                id: "a".to_string(),
                name: "Wallet".to_string(),
                description: Some("pocket".to_string()),
                tags: None,
            }),
            &ids(&[]),
            9,
        )
        .unwrap();
    let a = find(&sess, "a").unwrap();
    assert_eq!(a.name, "Wallet");
    assert_eq!(a.description, "pocket");
    assert_eq!(a.last_modified_at, Some(9));
    assert_eq!(a.parent_id.as_deref(), Some("root"));
    assert_eq!(result.entities.len(), 1);
    assert!(matches!(&result.events[0], AccountEvent::Updated(e) if e.name.as_deref() == Some("Wallet")));
}

#[test]
fn test_update_empty_name_keeps_name() {
    let (service, mut sess) = new_service();
    insert_root(&mut sess, "root", "j1", AccountType::Asset);
    service
        .handle_at(&mut sess, AccountCommand::Create(create_cmd("j1", "root", "Cash")), &ids(&["a"]), 1)
        .unwrap();
    service
        .handle_at(
            &mut sess,
            AccountCommand::Update(AccountCommandUpdate {
                id: "a".to_string(),
                name: String::new(),
                description: None,
                tags: Some(vec!["x".to_string()]),
            }),
            &ids(&[]),
            2,
        )
        .unwrap();
    let a = find(&sess, "a").unwrap();
    assert_eq!(a.name, "Cash");
    assert_eq!(a.tags, vec!["x".to_string()]);
}

#[test]
fn test_update_reserved_name_fails() {
    let (service, mut sess) = new_service();
    insert_root(&mut sess, "root", "j1", AccountType::Asset);
    service
        .handle_at(&mut sess, AccountCommand::Create(create_cmd("j1", "root", "Cash")), &ids(&["a"]), 1)
        .unwrap();
    let err = service
        .handle_at(
            &mut sess,
            AccountCommand::Update(AccountCommandUpdate {
                id: "a".to_string(),
                name: "income".to_string(),
                description: None,
                tags: None,
            }),
            &ids(&[]),
            2,
        )
        .unwrap_err();
    assert_eq!(err.error, ErrorKind::Shared(SharedErrorKind::Conflict));
    assert_eq!(find(&sess, "a").unwrap().name, "Cash");
}

#[test]
fn test_update_missing_account_fails() {
    let (service, mut sess) = new_service();
    let err = service
        .handle_at(
            &mut sess,
            AccountCommand::Update(AccountCommandUpdate {
                id: "nope".to_string(),
                name: String::new(),
                description: None,
                tags: None,
            }),
            &ids(&[]),
            2,
        )
        .unwrap_err();
    assert_eq!(err.error, ErrorKind::Shared(SharedErrorKind::NotFound));
    assert_eq!(err.context.detail.as_deref(), Some("account nope not found"));
}

#[test]
fn test_update_swap_sibling_names_succeeds() {
    let (service, mut sess) = new_service();
    insert_root(&mut sess, "root", "j1", AccountType::Asset);
    let batch = AccountCommandBatch {
        create: vec![create_cmd("j1", "root", "A"), create_cmd("j1", "root", "B")],
        update: vec![],
        delete: vec![],
        archive: vec![],
    };
    service.handle_at(&mut sess, AccountCommand::Batch(batch), &ids(&["a", "b"]), 1).unwrap();
    let swap = AccountCommandBatch {
        create: vec![],
        update: vec![
            AccountCommandUpdate { id: "a".to_string(), name: "B".to_string(), description: None, tags: None },
            AccountCommandUpdate { id: "b".to_string(), name: "A".to_string(), description: None, tags: None },
        ],
        delete: vec![],
        archive: vec![],
    };
    service.handle_at(&mut sess, AccountCommand::Batch(swap), &ids(&[]), 2).unwrap();
    assert_eq!(find(&sess, "a").unwrap().name, "B");
    assert_eq!(find(&sess, "b").unwrap().name, "A");
}

#[test]
fn test_update_kept_name_clashes_with_renamed_sibling() {
    let (service, mut sess) = new_service();
    insert_root(&mut sess, "root", "j1", AccountType::Asset);
    let batch = AccountCommandBatch {
        create: vec![create_cmd("j1", "root", "X"), create_cmd("j1", "root", "Y")],
        update: vec![],
        delete: vec![],
        archive: vec![],
    };
    service.handle_at(&mut sess, AccountCommand::Batch(batch), &ids(&["a", "b"]), 1).unwrap();
    let clash = AccountCommandBatch {
        create: vec![],
        update: vec![
            AccountCommandUpdate { id: "a".to_string(), name: String::new(), description: None, tags: None },
            AccountCommandUpdate { id: "b".to_string(), name: "X".to_string(), description: None, tags: None },
        ],
        delete: vec![],
        archive: vec![],
    };
    let err = service.handle_at(&mut sess, AccountCommand::Batch(clash), &ids(&[]), 2).unwrap_err();
    assert_eq!(err.error, ErrorKind::Shared(SharedErrorKind::DuplicateValues { value: "X".to_string() }));
    assert_eq!(find(&sess, "b").unwrap().name, "Y");
}

#[test]
fn test_delete_cascades_to_children() {
    let (service, mut sess) = new_service();
    insert_root(&mut sess, "root", "j1", AccountType::Asset);
    service
        .handle_at(&mut sess, AccountCommand::Create(create_cmd("j1", "root", "Bank")), &ids(&["bank"]), 1)
        .unwrap();
    service
        .handle_at(&mut sess, AccountCommand::Create(create_cmd("j1", "bank", "Checking")), &ids(&["chk"]), 1)
        .unwrap();
    let result = service.handle_at(&mut sess, AccountCommand::Delete(ids(&["bank"])), &ids(&[]), 2).unwrap();
    assert_eq!(result.events.len(), 2);
    assert!(result.events.iter().all(|e| matches!(e, AccountEvent::Deleted(_))));
    assert!(find(&sess, "bank").is_none());
    assert!(find(&sess, "chk").is_none());
    assert!(find(&sess, "root").is_some());
    assert!(result.entities.is_empty());
}

#[test]
fn test_delete_nonexistent_is_silent() {
    let (service, mut sess) = new_service();
    insert_root(&mut sess, "root", "j1", AccountType::Asset);
    let result = service.handle_at(&mut sess, AccountCommand::Delete(ids(&["ghost", "ghost"])), &ids(&[]), 2).unwrap();
    assert_eq!(result.events.len(), 1);
    assert_eq!(sess.accounts.len(), 1);
}

#[test]
fn test_archive_cascades_to_children() {
    let (service, mut sess) = new_service();
    insert_root(&mut sess, "root", "j1", AccountType::Asset);
    service
        .handle_at(&mut sess, AccountCommand::Create(create_cmd("j1", "root", "Bank")), &ids(&["bank"]), 1)
        .unwrap();
    service
        .handle_at(&mut sess, AccountCommand::Create(create_cmd("j1", "bank", "Checking")), &ids(&["chk"]), 1)
        .unwrap();
    let result = service
        .handle_at(
            &mut sess,
            AccountCommand::Archive(AccountCommandArchive { ids: ids(&["bank"]), archived_at: 50 }),
            &ids(&[]),
            2,
        )
        .unwrap();
    assert_eq!(result.events.len(), 2);
    assert_eq!(find(&sess, "bank").unwrap().archived_at, Some(50));
    assert_eq!(find(&sess, "chk").unwrap().archived_at, Some(50));
    assert_eq!(find(&sess, "root").unwrap().archived_at, None);
    assert_eq!(result.entities.len(), 2);
}

#[test]
fn test_archive_already_archived_is_noop() {
    let (service, mut sess) = new_service();
    insert_root(&mut sess, "root", "j1", AccountType::Asset);
    service
        .handle_at(&mut sess, AccountCommand::Create(create_cmd("j1", "root", "Bank")), &ids(&["bank"]), 1)
        .unwrap();
    service
        .handle_at(&mut sess, AccountCommand::Archive(AccountCommandArchive { ids: ids(&["bank"]), archived_at: 10 }), &ids(&[]), 2)
        .unwrap();
    let result = service
        .handle_at(&mut sess, AccountCommand::Archive(AccountCommandArchive { ids: ids(&["bank"]), archived_at: 20 }), &ids(&[]), 3)
        .unwrap();
    assert!(result.events.is_empty());
    assert_eq!(find(&sess, "bank").unwrap().archived_at, Some(10));
}

#[test]
fn test_batch_rollback_on_failure() {
    let (service, mut sess) = new_service();
    insert_root(&mut sess, "root", "j1", AccountType::Asset);
    service
        .handle_at(&mut sess, AccountCommand::Create(create_cmd("j1", "root", "Bank")), &ids(&["bank"]), 1)
        .unwrap();
    let batch = AccountCommandBatch {
        create: vec![create_cmd("j1", "root", "Liability")],
        update: vec![],
        delete: vec!["bank".to_string()],
        archive: vec![],
    };
    let err = service.handle_at(&mut sess, AccountCommand::Batch(batch), &ids(&["x"]), 2).unwrap_err();
    assert_eq!(err.error, ErrorKind::Shared(SharedErrorKind::Conflict));
    // The delete that ran first was rolled back.
    assert!(find(&sess, "bank").is_some());
    assert!(sess.snapshot.is_none());
}

#[test]
fn test_batch_order_delete_archive_create_update() {
    let (service, mut sess) = new_service();
    insert_root(&mut sess, "root", "j1", AccountType::Asset);
    service
        .handle_at(&mut sess, AccountCommand::Create(create_cmd("j1", "root", "Old")), &ids(&["old"]), 1)
        .unwrap();
    let batch = AccountCommandBatch {
        create: vec![create_cmd("j1", "root", "Old")],
        update: vec![AccountCommandUpdate { id: "new".to_string(), name: "Newer".to_string(), description: None, tags: None }],
        delete: vec!["old".to_string()],
        archive: vec![],
    };
    let result = service.handle_at(&mut sess, AccountCommand::Batch(batch), &ids(&["new"]), 5).unwrap();
    assert!(find(&sess, "old").is_none());
    assert_eq!(find(&sess, "new").unwrap().name, "Newer");
    assert_eq!(result.events.len(), 3);
    assert!(matches!(result.events[0], AccountEvent::Deleted(_)));
    assert!(matches!(result.events[1], AccountEvent::Created(_)));
    assert!(matches!(result.events[2], AccountEvent::Updated(_)));
    // The account created then updated is reported once.
    assert_eq!(result.entities.len(), 1);
}

#[test]
fn test_command_types() {
    assert_eq!(AccountCommand::Delete(vec![]).command_type(), "whiterabbit::command::AccountCommandDelete");
    assert_eq!(
        AccountCommand::Create(create_cmd("j", "p", "n")).command_type(),
        "whiterabbit::command::AccountCommandCreate"
    );
}

// ── Repository queries ───────────────────────────────────────────

fn seeded() -> InMemorySession {
    let (service, mut sess) = new_service();
    insert_root(&mut sess, "root", "j1", AccountType::Asset);
    insert_root(&mut sess, "root2", "j2", AccountType::Expense);
    let batch = AccountCommandBatch {
        create: vec![
            AccountCommandCreate { tags: vec!["daily".to_string()], description: "Coins and notes".to_string(), ..create_cmd("j1", "root", "Cash") },
            create_cmd("j1", "root", "Bank"),
            create_cmd("j2", "root2", "Food"),
        ],
        update: vec![],
        delete: vec![],
        archive: vec![AccountCommandArchive { ids: vec![], archived_at: 0 }],
    };
    service.handle_at(&mut sess, AccountCommand::Batch(batch), &ids(&["cash", "bank", "food"]), 1).unwrap();
    sess
}

fn found(sess: &InMemorySession, spec: &whiterabbit::account::specification::AccountSpec, limit: Option<usize>) -> Vec<String> {
    InMemoryAccountRepository.find_all(sess, spec, limit).into_iter().map(|a| a.id).collect()
}

#[test]
fn test_spec_find_by_id() {
    let sess = seeded();
    assert_eq!(found(&sess, &AccountSpecification::id("bank".to_string()), None), ids(&["bank"]));
    assert_eq!(found(&sess, &AccountSpecification::ids(ids(&["food", "cash", "zzz"])), None), ids(&["cash", "food"]));
}

#[test]
fn test_spec_find_by_journal_and_parent() {
    let sess = seeded();
    assert_eq!(found(&sess, &AccountSpecification::journal_id("j2".to_string()), None), ids(&["root2", "food"]));
    assert_eq!(found(&sess, &AccountSpecification::parent_id("root".to_string()), None), ids(&["cash", "bank"]));
    assert_eq!(found(&sess, &AccountSpecification::parent_ids(ids(&["root", "root2"])), None), ids(&["cash", "bank", "food"]));
}

#[test]
fn test_spec_find_by_name() {
    let sess = seeded();
    assert_eq!(found(&sess, &AccountSpecification::name("  cASH ".to_string()), None), ids(&["cash"]));
    assert_eq!(found(&sess, &AccountSpecification::names(ids(&["", "bank"])), None), ids(&["bank"]));
    assert!(found(&sess, &AccountSpecification::name("   ".to_string()), None).is_empty());
}

#[test]
fn test_spec_find_by_type_tag_and_text() {
    let sess = seeded();
    assert_eq!(found(&sess, &AccountSpecification::account_type(AccountType::Expense), None), ids(&["root2", "food"]));
    assert_eq!(found(&sess, &AccountSpecification::tag("daily".to_string()), None), ids(&["cash"]));
    assert!(found(&sess, &AccountSpecification::tag("DAILY".to_string()), None).is_empty());
    assert_eq!(found(&sess, &AccountSpecification::tags(ids(&["x", "daily"])), None), ids(&["cash"]));
    assert_eq!(found(&sess, &AccountSpecification::full_text(" NOTES ".to_string()), None), ids(&["cash"]));
    assert_eq!(found(&sess, &AccountSpecification::full_text("ai".to_string()), None), ids(&["cash"]));
}

#[test]
fn test_spec_archived_and_active() {
    let mut sess = seeded();
    let service = AccountService::new(InMemoryAccountRepository);
    service
        .handle_at(&mut sess, AccountCommand::Archive(AccountCommandArchive { ids: ids(&["bank"]), archived_at: 4 }), &ids(&[]), 4)
        .unwrap();
    assert_eq!(found(&sess, &AccountSpecification::archived(), None), ids(&["bank"]));
    assert_eq!(found(&sess, &AccountSpecification::active(), None), ids(&["root", "root2", "cash", "food"]));
}

#[test]
fn test_spec_all_any_not_and_limit() {
    let sess = seeded();
    let both = AccountSpecification::journal_id("j1".to_string()).and(AccountSpecification::name("bank".to_string()));
    assert_eq!(found(&sess, &both, None), ids(&["bank"]));
    let either = AccountSpecification::id("cash".to_string()).or(AccountSpecification::id("food".to_string()));
    assert_eq!(found(&sess, &either, None), ids(&["cash", "food"]));
    let not = AccountSpecification::journal_id("j1".to_string()).negate();
    assert_eq!(found(&sess, &not, None), ids(&["root2", "food"]));
    assert_eq!(found(&sess, &AccountSpecification::active(), Some(2)), ids(&["root", "root2"]));
    assert!(found(&sess, &AccountSpecification::active(), Some(0)).is_empty());
}

#[test]
fn test_repository_save_and_delete() {
    let mut sess = seeded();
    let repo = InMemoryAccountRepository;
    let mut cash = repo.find_all_by_ids(&sess, &ids(&["cash"])).pop().unwrap();
    cash.description = "changed".to_string();
    let saved = repo.save_all(&mut sess, &vec![cash]);
    assert_eq!(saved.len(), 1);
    assert_eq!(find(&sess, "cash").unwrap().description, "changed");
    assert_eq!(sess.accounts.len(), 5);
    let removed = repo.delete_all_by_ids(&mut sess, &ids(&["cash", "nope"]));
    assert_eq!(removed.len(), 1);
    assert_eq!(sess.accounts.len(), 4);
}

#[test]
fn test_session_rollback_restores_and_commit_keeps() {
    let mut sess = seeded();
    sess.begin();
    sess.accounts.clear();
    sess.rollback();
    assert_eq!(sess.accounts.len(), 5);
    assert!(sess.snapshot.is_none());
    sess.begin();
    sess.accounts.pop();
    sess.commit();
    assert_eq!(sess.accounts.len(), 4);
    sess.rollback();
    assert_eq!(sess.accounts.len(), 4);
}
