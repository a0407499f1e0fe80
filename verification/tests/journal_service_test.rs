use whiterabbit::account::AccountType;
use whiterabbit::error::{ErrorKind, SharedErrorKind};
use whiterabbit::inmemory::account::InMemoryAccountRepository;
use whiterabbit::inmemory::journal::InMemoryJournalRepository;
use whiterabbit::inmemory::InMemorySession;
use whiterabbit::journal::command::{
    JournalCommand, JournalCommandBatch, JournalCommandCreate, JournalCommandUpdate,
};
use whiterabbit::journal::event::JournalEvent;
use whiterabbit::journal::repository::JournalRepository;
use whiterabbit::journal::service::JournalService;
use whiterabbit::journal::specification::{JournalSpec, JournalSpecification};
use whiterabbit::journal::Journal;

type Service = JournalService<InMemoryJournalRepository, InMemoryAccountRepository>;

fn new_service() -> (Service, InMemorySession) {
    (JournalService::new(InMemoryJournalRepository, InMemoryAccountRepository), InMemorySession::new())
}

fn create(name: &str) -> JournalCommandCreate {
    JournalCommandCreate { name: name.to_string(), description: String::new(), tags: vec![] }
}

fn update(id: &str, name: &str) -> JournalCommandUpdate {
    JournalCommandUpdate { id: id.to_string(), name: name.to_string(), description: None, tags: None }
}

/// Six identifiers per journal: the journal's, then its five roots'.
fn ids_for(names: &[&str]) -> Vec<String> {
    let mut v = Vec::new();
    for n in names {
        v.push(n.to_string());
        for k in 0..5 {
            v.push(format!("{n}-root{k}"));
        }
    }
    v
}

fn batch(create: Vec<JournalCommandCreate>, update: Vec<JournalCommandUpdate>, delete: Vec<&str>) -> JournalCommand {
    JournalCommand::Batch(JournalCommandBatch {
        create,
        update,
        delete: delete.into_iter().map(|s| s.to_string()).collect(),
    })
}

fn find<'a>(sess: &'a InMemorySession, id: &str) -> Option<&'a Journal> {
    sess.journals.iter().find(|j| j.id == id)
}

fn setup(names: &[&str]) -> (Service, InMemorySession) {
    let (service, mut sess) = new_service();
    let cmds = names.iter().map(|n| create(n)).collect();
    service.handle_at(&mut sess, batch(cmds, vec![], vec![]), &ids_for(names), 1).unwrap();
    (service, sess)
}

#[test]
fn test_create_single_journal() {
    let (service, mut sess) = new_service();
    let result = service.handle_at(&mut sess, JournalCommand::Create(create("Personal")), &ids_for(&["p"]), 3).unwrap();
    assert_eq!(result.events.len(), 1);
    let JournalEvent::Created(e) = &result.events[0] else { panic!("expected Created") };
    assert_eq!(e.name, "Personal");
    assert_eq!(e.created_at, 3);
    assert_eq!(result.entities.len(), 1);
    assert_eq!(find(&sess, "p").unwrap().created_at, Some(3));
    // Five root accounts, one per type, named after it.
    let roots: Vec<_> = sess.accounts.iter().filter(|a| a.journal_id == "p").collect();
    assert_eq!(roots.len(), 5);
    let types = [AccountType::Asset, AccountType::Liability, AccountType::Equity, AccountType::Income, AccountType::Expense];
    for (a, t) in roots.iter().zip(types.iter()) {
        assert_eq!(a.account_type, *t);
        assert_eq!(a.name, t.to_display_string());
        assert!(a.parent_id.is_none());
    }
}

#[test]
fn test_journal_create_with_fresh_ids() {
    let (service, mut sess) = new_service();
    service.handle(&mut sess, JournalCommand::Create(create("Personal"))).unwrap();
    assert_eq!(sess.journals.len(), 1);
    assert_eq!(sess.accounts.len(), 5);
}

#[test]
fn test_create_batch_multiple_journals() {
    let (_, sess) = setup(&["a", "b", "c"]);
    assert_eq!(sess.journals.len(), 3);
    assert_eq!(sess.accounts.len(), 15);
}

#[test]
fn test_create_empty_batch_succeeds() {
    let (service, mut sess) = new_service();
    let result = service.handle_at(&mut sess, batch(vec![], vec![], vec![]), &vec![], 1).unwrap();
    assert!(result.events.is_empty());
    assert!(result.entities.is_empty());
}

#[test]
fn test_create_empty_name_fails() {
    let (service, mut sess) = new_service();
    let err = service.handle_at(&mut sess, JournalCommand::Create(create(" ")), &ids_for(&["x"]), 1).unwrap_err();
    assert_eq!(err.error, ErrorKind::Shared(SharedErrorKind::NonEmpty));
    assert_eq!(err.context.resource_type.as_deref(), Some(Journal::ENTITY_TYPE));
    assert!(sess.journals.is_empty());
    assert!(sess.accounts.is_empty());
}

#[test]
fn test_create_duplicate_names_within_batch_fails() {
    let (service, mut sess) = new_service();
    let err = service
        .handle_at(&mut sess, batch(vec![create("Same"), create("Same")], vec![], vec![]), &ids_for(&["a", "b"]), 1)
        .unwrap_err();
    assert_eq!(err.error, ErrorKind::Shared(SharedErrorKind::DuplicateValues { value: "Same".to_string() }));
}

#[test]
fn test_create_name_conflicts_with_existing_journal() {
    let (service, mut sess) = setup(&["Work"]);
    let err = service.handle_at(&mut sess, JournalCommand::Create(create(" work ")), &ids_for(&["w2"]), 1).unwrap_err();
    assert_eq!(err.error, ErrorKind::Shared(SharedErrorKind::DuplicateValues { value: "Work".to_string() }));
    assert_eq!(sess.journals.len(), 1);
}

#[test]
fn test_update_single_journal() {
    let (service, mut sess) = setup(&["a"]);
    let result = service
        .handle_at(
            &mut sess,
            JournalCommand::Update(JournalCommandUpdate {
                description: Some("desc".to_string()),
                tags: Some(vec!["t".to_string()]),
                ..update("a", "Renamed")
            }),
            &vec![],
            8,
        )
        .unwrap();
    let j = find(&sess, "a").unwrap();
    assert_eq!(j.name, "Renamed");
    assert_eq!(j.description, "desc");
    assert_eq!(j.tags, vec!["t".to_string()]);
    assert_eq!(j.last_modified_at, Some(8));
    assert_eq!(result.entities.len(), 1);
    assert!(matches!(&result.events[0], JournalEvent::Updated(e) if e.last_modified_at == 8));
}

#[test]
fn test_update_empty_name_keeps_existing() {
    let (service, mut sess) = setup(&["a"]);
    service.handle_at(&mut sess, JournalCommand::Update(update("a", "")), &vec![], 2).unwrap();
    assert_eq!(find(&sess, "a").unwrap().name, "a");
}

#[test]
fn test_update_nonexistent_id_fails() {
    let (service, mut sess) = new_service();
    let err = service.handle_at(&mut sess, JournalCommand::Update(update("nope", "x")), &vec![], 2).unwrap_err();
    assert_eq!(err.error, ErrorKind::Shared(SharedErrorKind::NotFound));
    assert_eq!(err.context.detail.as_deref(), Some("journal nope not found"));
}

#[test]
fn test_update_duplicate_ids_in_batch_fails() {
    let (service, mut sess) = setup(&["a"]);
    let err = service
        .handle_at(&mut sess, batch(vec![], vec![update("a", "x"), update("a", "y")], vec![]), &vec![], 2)
        .unwrap_err();
    assert_eq!(err.error, ErrorKind::Shared(SharedErrorKind::DuplicateValues { value: "id".to_string() }));
    assert_eq!(err.context.field.as_deref(), Some("id"));
}

#[test]
fn test_update_duplicate_new_names_in_batch_fails() {
    let (service, mut sess) = setup(&["a", "b"]);
    let err = service
        .handle_at(&mut sess, batch(vec![], vec![update("a", "x"), update("b", "x")], vec![]), &vec![], 2)
        .unwrap_err();
    assert_eq!(err.error, ErrorKind::Shared(SharedErrorKind::DuplicateValues { value: "x".to_string() }));
}

#[test]
fn test_update_name_conflicts_with_journal_not_in_batch() {
    let (service, mut sess) = setup(&["a", "b"]);
    let err = service.handle_at(&mut sess, JournalCommand::Update(update("a", "B")), &vec![], 2).unwrap_err();
    assert_eq!(err.error, ErrorKind::Shared(SharedErrorKind::DuplicateValues { value: "b".to_string() }));
    assert_eq!(find(&sess, "a").unwrap().name, "a");
}

#[test]
fn test_update_name_swap_is_allowed() {
    let (service, mut sess) = setup(&["a", "b"]);
    service.handle_at(&mut sess, batch(vec![], vec![update("a", "b"), update("b", "a")], vec![]), &vec![], 2).unwrap();
    assert_eq!(find(&sess, "a").unwrap().name, "b");
    assert_eq!(find(&sess, "b").unwrap().name, "a");
}

#[test]
fn test_update_rename_to_own_name_succeeds() {
    let (service, mut sess) = setup(&["a"]);
    service.handle_at(&mut sess, JournalCommand::Update(update("a", "A")), &vec![], 2).unwrap();
    assert_eq!(find(&sess, "a").unwrap().name, "A");
}

#[test]
fn test_delete_single_journal() {
    let (service, mut sess) = setup(&["a", "b"]);
    let result = service.handle_at(&mut sess, JournalCommand::Delete(vec!["a".to_string()]), &vec![], 2).unwrap();
    assert_eq!(result.events.len(), 1);
    assert!(find(&sess, "a").is_none());
    assert!(find(&sess, "b").is_some());
    // The root accounts of a deleted journal stay.
    assert_eq!(sess.accounts.len(), 10);
}

#[test]
fn test_delete_duplicate_and_unknown_ids() {
    let (service, mut sess) = setup(&["a"]);
    let result = service
        .handle_at(&mut sess, JournalCommand::Delete(vec!["a".to_string(), "a".to_string(), "zz".to_string()]), &vec![], 2)
        .unwrap();
    assert_eq!(result.events.len(), 2);
    assert!(sess.journals.is_empty());
}

#[test]
fn test_batch_delete_frees_name_for_create() {
    let (service, mut sess) = setup(&["Main"]);
    service.handle_at(&mut sess, batch(vec![create("Main")], vec![], vec!["Main"]), &ids_for(&["m2"]), 2).unwrap();
    assert!(find(&sess, "Main").is_none());
    assert_eq!(find(&sess, "m2").unwrap().name, "Main");
}

#[test]
fn test_batch_create_name_conflicts_with_update_name() {
    let (service, mut sess) = setup(&["a"]);
    let err = service
        .handle_at(&mut sess, batch(vec![create("X")], vec![update("a", "x")], vec![]), &ids_for(&["n"]), 2)
        .unwrap_err();
    assert_eq!(err.error, ErrorKind::Shared(SharedErrorKind::DuplicateValues { value: "X".to_string() }));
    assert!(find(&sess, "n").is_none());
    assert_eq!(sess.accounts.len(), 5);
}

#[test]
fn test_batch_result_deduplicates_by_id() {
    let (service, mut sess) = new_service();
    let result = service
        .handle_at(&mut sess, batch(vec![create("n")], vec![update("n", "renamed")], vec![]), &ids_for(&["n"]), 2)
        .unwrap();
    assert_eq!(result.entities.len(), 1);
    assert_eq!(result.entities[0].name, "renamed");
    assert_eq!(result.events.len(), 2);
}

#[test]
fn test_batch_rollback_on_update_failure() {
    let (service, mut sess) = setup(&["a"]);
    let err = service
        .handle_at(&mut sess, batch(vec![create("b")], vec![update("zz", "q")], vec!["a"]), &ids_for(&["b"]), 2)
        .unwrap_err();
    assert_eq!(err.error, ErrorKind::Shared(SharedErrorKind::NotFound));
    assert!(find(&sess, "a").is_some());
    assert!(find(&sess, "b").is_none());
    assert_eq!(sess.accounts.len(), 5);
}

fn found(sess: &InMemorySession, spec: &JournalSpec, limit: Option<usize>) -> Vec<String> {
    InMemoryJournalRepository.find_all(sess, spec, limit).into_iter().map(|j| j.id).collect()
}

#[test]
fn test_spec_queries() {
    let (service, mut sess) = setup(&["a", "b", "c"]);
    service
        .handle_at(
            &mut sess,
            JournalCommand::Update(JournalCommandUpdate {
                description: Some("Household budget".to_string()),
                tags: Some(vec!["Home".to_string()]),
                ..update("b", "")
            }),
            &vec![],
            2,
        )
        .unwrap();
    assert_eq!(found(&sess, &JournalSpecification::id("c".to_string()), None), vec!["c"]);
    assert_eq!(found(&sess, &JournalSpecification::ids(vec!["c".to_string(), "a".to_string()]), None), vec!["a", "c"]);
    assert_eq!(found(&sess, &JournalSpecification::name(" A ".to_string()), None), vec!["a"]);
    assert_eq!(found(&sess, &JournalSpecification::names(vec!["b".to_string(), "c".to_string()]), None), vec!["b", "c"]);
    assert_eq!(found(&sess, &JournalSpecification::tag("home".to_string()), None), vec!["b"]);
    assert_eq!(found(&sess, &JournalSpecification::tags(vec!["x".to_string(), "HOME".to_string()]), None), vec!["b"]);
    assert_eq!(found(&sess, &JournalSpecification::full_text("budget".to_string()), None), vec!["b"]);
    assert!(found(&sess, &JournalSpecification::full_text("zzz".to_string()), None).is_empty());
    let nested = JournalSpecification::id("a".to_string())
        .or(JournalSpecification::tag("home".to_string()))
        .and(JournalSpecification::name("a".to_string()).negate());
    assert_eq!(found(&sess, &nested, None), vec!["b"]);
    assert_eq!(found(&sess, &JournalSpecification::ids(vec!["a".to_string(), "b".to_string(), "c".to_string()]), Some(2)), vec!["a", "b"]);
}

#[test]
fn test_journal_command_types() {
    assert_eq!(JournalCommand::Create(create("x")).command_type(), "whiterabbit::command::JournalCommandCreate");
    assert_eq!(JournalCommand::Delete(vec![]).command_type(), "whiterabbit::command::JournalCommandDelete");
}
