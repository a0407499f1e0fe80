use std::collections::HashSet;
use whiterabbit::inmemory::account::InMemoryAccountRepository;
use whiterabbit::inmemory::journal::InMemoryJournalRepository;
use whiterabbit::inmemory::InMemorySession;
use whiterabbit::journal::command::{
    JournalCommand, JournalCommandBatch, JournalCommandCreate, JournalCommandUpdate,
};
use whiterabbit::journal::repository::JournalRepository;
use whiterabbit::journal::service::JournalService;
use whiterabbit::journal::specification::JournalSpecification;
use whiterabbit::journal::Journal;

type Service = JournalService<InMemoryJournalRepository, InMemoryAccountRepository>;

fn new_service() -> (Service, InMemorySession) {
    (JournalService::new(InMemoryJournalRepository, InMemoryAccountRepository), InMemorySession::new())
}

fn create_cmd(name: &str) -> JournalCommandCreate {
    JournalCommandCreate { name: name.to_string(), description: String::new(), tags: vec![] }
}

fn tagged(name: &str, description: &str, tags: &[&str]) -> JournalCommandCreate {
    JournalCommandCreate {
        name: name.to_string(),
        description: description.to_string(),
        tags: tags.iter().map(|t| t.to_string()).collect(),
    }
}

fn create(service: &Service, sess: &mut InMemorySession, cmds: Vec<JournalCommandCreate>) -> Vec<Journal> {
    service
        .handle(sess, JournalCommand::Batch(JournalCommandBatch { create: cmds, update: vec![], delete: vec![] }))
        .unwrap()
        .entities
}

fn names(js: &[Journal]) -> HashSet<String> {
    js.iter().map(|j| j.name.clone()).collect()
}

#[test]
fn test_update_none_fields_keep_existing() {
    let (service, mut sess) = new_service();
    let created = create(&service, &mut sess, vec![tagged("Journal", "Original desc", &["kept"])]);
    let id = created[0].id.clone();
    let updated = service
        .handle(
            &mut sess,
            JournalCommand::Update(JournalCommandUpdate {
                id,
                name: "Journal".to_string(),
                description: None,
                tags: None,
            }),
        )
        .unwrap()
        .entities;
    assert_eq!(updated[0].description, "Original desc");
    assert_eq!(updated[0].tags, vec!["kept".to_string()]);
}

#[test]
fn test_delete_batch_multiple_journals() {
    let (service, mut sess) = new_service();
    let created = create(&service, &mut sess, vec![create_cmd("A"), create_cmd("B"), create_cmd("C")]);
    let ids = created.iter().map(|j| j.id.clone()).collect();
    service.handle(&mut sess, JournalCommand::Delete(ids)).unwrap();
    assert!(sess.journals.is_empty());
}

#[test]
fn test_delete_mixed_existing_and_nonexistent_ids() {
    let (service, mut sess) = new_service();
    let created = create(&service, &mut sess, vec![create_cmd("Exists")]);
    let existing_id = created[0].id.clone();
    service.handle(&mut sess, JournalCommand::Delete(vec![existing_id, "fake".to_string()])).unwrap();
    assert!(sess.journals.is_empty());
}

#[test]
fn test_batch_delete_frees_name_for_update() {
    let (service, mut sess) = new_service();
    let created = create(&service, &mut sess, vec![create_cmd("TakenName"), create_cmd("ToRename")]);
    let taken_id = created.iter().find(|j| j.name == "TakenName").unwrap().id.clone();
    let rename_id = created.iter().find(|j| j.name == "ToRename").unwrap().id.clone();
    let result = service
        .handle(
            &mut sess,
            JournalCommand::Batch(JournalCommandBatch {
                delete: vec![taken_id],
                create: vec![],
                update: vec![JournalCommandUpdate {
                    id: rename_id.clone(),
                    name: "TakenName".to_string(),
                    description: None,
                    tags: None,
                }],
            }),
        )
        .unwrap();
    assert_eq!(result.entities.len(), 1);
    assert_eq!(result.entities[0].name, "TakenName");
}

#[test]
fn test_batch_rollback_on_create_failure() {
    let (service, mut sess) = new_service();
    let created = create(&service, &mut sess, vec![create_cmd("WillSurvive")]);
    let id = created[0].id.clone();
    let result = service.handle(
        &mut sess,
        JournalCommand::Batch(JournalCommandBatch {
            delete: vec![id],
            create: vec![create_cmd("Dup"), create_cmd("Dup")],
            update: vec![],
        }),
    );
    assert!(result.is_err());
    let again = service.handle(&mut sess, JournalCommand::Create(create_cmd("WillSurvive")));
    assert!(again.is_err(), "WillSurvive should still exist (rollback worked)");
}

#[test]
fn test_journal_spec_find_by_shared_tag_and_text() {
    let (service, mut sess) = new_service();
    let repo = InMemoryJournalRepository;
    create(
        &service,
        &mut sess,
        vec![
            tagged("Personal", "", &["finance", "personal"]),
            tagged("Business", "", &["finance", "business"]),
            create_cmd("NoTags"),
        ],
    );
    let found = repo.find_all(&sess, &JournalSpecification::tag("personal".to_string()), None);
    assert_eq!(found.len(), 1);
    assert_eq!(found[0].name, "Personal");
    assert_eq!(repo.find_all(&sess, &JournalSpecification::tag("finance".to_string()), None).len(), 2);

    let (service, mut sess) = new_service();
    create(
        &service,
        &mut sess,
        vec![
            tagged("My Ledger", "Tracks personal spending", &[]),
            tagged("Work", "Business expenses", &["spending"]),
            create_cmd("Empty"),
        ],
    );
    assert_eq!(repo.find_all(&sess, &JournalSpecification::full_text("ledger".to_string()), None).len(), 1);
    assert_eq!(repo.find_all(&sess, &JournalSpecification::full_text("personal".to_string()), None).len(), 1);
    assert_eq!(repo.find_all(&sess, &JournalSpecification::full_text("spending".to_string()), None).len(), 2);
    assert!(repo.find_all(&sess, &JournalSpecification::name("Nonexistent".to_string()), None).is_empty());
}

#[test]
fn test_spec_nested_combination() {
    let (service, mut sess) = new_service();
    let repo = InMemoryJournalRepository;
    create(
        &service,
        &mut sess,
        vec![tagged("Alpha", "", &["a"]), tagged("Beta", "", &["b"]), tagged("Gamma", "", &["a"])],
    );
    let spec = JournalSpecification::tag("a".to_string())
        .and(JournalSpecification::name("Alpha".to_string()))
        .or(JournalSpecification::name("Beta".to_string()));
    let found = repo.find_all(&sess, &spec, None);
    assert_eq!(found.len(), 2);
    let n = names(&found);
    assert!(n.contains("Alpha"));
    assert!(n.contains("Beta"));

    let found = repo.find_all(&sess, &JournalSpecification::name("Alpha".to_string()).negate(), None);
    let n = names(&found);
    assert_eq!(n.len(), 2);
    assert!(n.contains("Beta") && n.contains("Gamma"));
}

#[test]
fn test_update_kept_name_clashes_with_renamed_journal() {
    let (service, mut sess) = new_service();
    let created = create(&service, &mut sess, vec![create_cmd("X"), create_cmd("Y")]);
    let a = created.iter().find(|j| j.name == "X").unwrap().id.clone();
    let b = created.iter().find(|j| j.name == "Y").unwrap().id.clone();
    let err = service
        .handle(
            &mut sess,
            JournalCommand::Batch(JournalCommandBatch {
                create: vec![],
                update: vec![
                    JournalCommandUpdate { id: a, name: String::new(), description: None, tags: None },
                    JournalCommandUpdate { id: b, name: "X".to_string(), description: None, tags: None },
                ],
                delete: vec![],
            }),
        )
        .unwrap_err();
    assert_eq!(
        err.error,
        whiterabbit::error::ErrorKind::Shared(whiterabbit::error::SharedErrorKind::DuplicateValues {
            value: "X".to_string()
        })
    );
    assert_eq!(names(&sess.journals), ["X".to_string(), "Y".to_string()].into_iter().collect());
}
