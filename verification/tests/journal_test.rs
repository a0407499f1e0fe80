use whiterabbit::error::{ErrorKind, SharedErrorKind};
use whiterabbit::journal::event::{JournalCreated, JournalDeleted, JournalEvent, JournalUpdated};
use whiterabbit::journal::{Journal, JournalInput};

fn now() -> i64 {
    chrono::Utc::now().timestamp_micros()
}

fn sorted(v: &[String]) -> Vec<String> {
    let mut v = v.to_vec();
    v.sort();
    v
}

fn same_journal(a: &Journal, b: &Journal) -> bool {
    a.id == b.id
        && a.version == b.version
        && a.created_at == b.created_at
        && a.last_modified_at == b.last_modified_at
        && a.archived_at == b.archived_at
        && a.name == b.name
        && a.description == b.description
        && sorted(&a.tags) == sorted(&b.tags)
}

#[test]
fn test_journal_input_try_into_success() {
    let journal = Journal::try_from_input(JournalInput {
        id: "test-journal-id".to_string(),
        name: "My Journal".to_string(),
        description: "Personal ledger".to_string(),
        ..Default::default()
    })
    .unwrap();
    assert_eq!(journal.id, "test-journal-id");
    assert!(format!("{:?}", journal.name).contains("My Journal"));
}

#[test]
fn test_journal_input_with_tags() {
    let journal = Journal::try_from_input(JournalInput {
        id: "test-journal-id".to_string(),
        name: "Work Journal".to_string(),
        tags: vec!["business".to_string(), "2024".to_string()],
        ..Default::default()
    })
    .unwrap();
    assert_eq!(journal.tags.len(), 2);
}

#[test]
fn test_error_empty_name_returns_non_empty_with_context() {
    let err = Journal::try_from_input(JournalInput {
        id: "test-journal-id".to_string(),
        name: "".to_string(),
        ..Default::default()
    })
    .unwrap_err();
    assert_eq!(err.error, ErrorKind::Shared(SharedErrorKind::NonEmpty));
    assert_eq!(err.context.resource_type.as_deref(), Some(Journal::ENTITY_TYPE));
    assert_eq!(err.context.field.as_deref(), Some("name"));
}

fn default_journal() -> Journal {
    Journal::try_from_input(JournalInput {
        id: "seed".to_string(),
        name: "Seed".to_string(),
        ..Default::default()
    })
    .unwrap()
}

#[test]
fn test_apply_created_overwrites_all_fields() {
    let mut journal = default_journal();
    let now = now();
    journal.apply(&JournalEvent::Created(JournalCreated {
        id: "j-new".to_string(),
        name: "Personal".to_string(),
        description: "My ledger".to_string(),
        tags: vec!["finance".to_string()],
        created_at: now,
    }));
    assert_eq!(journal.id, "j-new");
    assert_eq!(journal.name, "Personal");
    assert_eq!(journal.description, "My ledger");
    assert_eq!(journal.tags.len(), 1);
    assert_eq!(journal.created_at, Some(now));
}

#[test]
fn test_apply_updated_patches_changed_fields() {
    let mut journal = default_journal();
    let now = now();
    let id = journal.id.clone();
    journal.apply(&JournalEvent::Updated(JournalUpdated {
        id,
        name: Some("Renamed".to_string()),
        description: None,
        tags: None,
        last_modified_at: now,
    }));
    assert_eq!(journal.name, "Renamed");
    assert_eq!(journal.last_modified_at, Some(now));
}

#[test]
fn test_apply_updated_leaves_unset_fields_unchanged() {
    let mut journal = default_journal();
    let old_name = journal.name.clone();
    let now = now();
    let id = journal.id.clone();
    journal.apply(&JournalEvent::Updated(JournalUpdated {
        id,
        name: None,
        description: Some("New desc".to_string()),
        tags: None,
        last_modified_at: now,
    }));
    assert_eq!(journal.name, old_name);
    assert_eq!(journal.description, "New desc");
}

#[test]
fn test_apply_deleted_is_noop() {
    let mut journal = default_journal();
    let before = journal.clone();
    let id = journal.id.clone();
    journal.apply(&JournalEvent::Deleted(JournalDeleted { id }));
    assert!(same_journal(&journal, &before));
}

#[test]
fn test_apply_is_deterministic() {
    let mut a = default_journal();
    let mut b = a.clone();
    let event = JournalEvent::Updated(JournalUpdated {
        id: a.id.clone(),
        name: Some("Same".to_string()),
        description: None,
        tags: None,
        last_modified_at: now(),
    });
    a.apply(&event);
    b.apply(&event);
    assert!(same_journal(&a, &b));
}

#[test]
fn test_apply_multi_event_fold() {
    let mut journal = default_journal();
    let t1 = now();
    let t2 = now();
    let events = vec![
        JournalEvent::Created(JournalCreated {
            id: "j1".to_string(),
            name: "First".to_string(),
            description: "Original".to_string(),
            tags: vec![],
            created_at: t1,
        }),
        JournalEvent::Updated(JournalUpdated {
            id: "j1".to_string(),
            name: Some("Second".to_string()),
            description: Some("Updated".to_string()),
            tags: Some(vec!["v2".to_string()]),
            last_modified_at: t2,
        }),
    ];
    for event in &events {
        journal.apply(event);
    }
    assert_eq!(journal.name, "Second");
    assert_eq!(journal.description, "Updated");
    assert!(journal.tags.iter().any(|t| t == "v2"));
    assert_eq!(journal.created_at, Some(t1));
    assert_eq!(journal.last_modified_at, Some(t2));
}

#[test]
fn event_type_returns_expected_strings() {
    let created = JournalEvent::Created(JournalCreated {
        id: "j-1".to_string(),
        name: "My Ledger".to_string(),
        description: "Personal".to_string(),
        tags: vec!["finance".to_string()],
        created_at: now(),
    });
    assert_eq!(created.event_type(), "whiterabbit::event::JournalCreated");
    assert_eq!(
        JournalEvent::Updated(JournalUpdated {
            id: "j-1".to_string(),
            name: Some("Renamed".to_string()),
            description: None,
            tags: None,
            last_modified_at: now(),
        })
        .event_type(),
        "whiterabbit::event::JournalUpdated"
    );
    assert_eq!(
        JournalEvent::Deleted(JournalDeleted { id: "j-1".to_string() }).event_type(),
        "whiterabbit::event::JournalDeleted"
    );
}
