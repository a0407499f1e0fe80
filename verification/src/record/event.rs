//! Events that record what happened to records.
use vstd::prelude::*;
use crate::account::event::none_blank;
use crate::common::tag_set_of;
use crate::record::{RecordItems, RecordView};

verus! {

/// A record was created, with its items fully resolved (account types
/// looked up, amounts parsed).
#[derive(Debug)]
pub struct RecordCreated {
    pub id: String,
    pub journal_id: String,
    pub date: i32,
    pub items: RecordItems,
    pub description: String,
    pub tags: Vec<String>,
    pub payee: String,
    pub created_at: i64,
}

/// Fields of a record were changed; `None` leaves a field as it was.
#[derive(Debug)]
pub struct RecordUpdated {
    pub id: String,
    pub date: Option<i32>,
    pub items: Option<RecordItems>,
    pub description: Option<String>,
    pub tags: Option<Vec<String>>,
    pub payee: Option<String>,
    pub last_modified_at: i64,
}

/// A record was deleted.
#[derive(Debug)]
pub struct RecordDeleted {
    pub id: String,
}

/// What happened to a record.
#[derive(Debug)]
pub enum RecordEvent {
    Created(RecordCreated),
    Updated(RecordUpdated),
    Deleted(RecordDeleted),
}

impl RecordEvent {
    /// The event carries valid tags: none is blank.
    pub open spec fn wf(&self) -> bool {
        match self {
            RecordEvent::Created(e) => none_blank(e.tags@),
            RecordEvent::Updated(e) => e.tags matches Some(t) ==> none_blank(t@),
            _ => true,
        }
    }

    /// The identifier of the record the event is about.
    pub open spec fn spec_id(&self) -> Seq<char> {
        match self {
            RecordEvent::Created(e) => e.id@,
            RecordEvent::Updated(e) => e.id@,
            RecordEvent::Deleted(e) => e.id@,
        }
    }

    /// The record that results from applying this event to `r`.
    pub open spec fn spec_apply(&self, r: RecordView) -> RecordView {
        match self {
            RecordEvent::Created(e) => RecordView {
                id: e.id@,
                journal_id: e.journal_id@,
                date: e.date,
                items: e.items@,
                description: e.description@,
                tags: tag_set_of(e.tags@),
                payee: e.payee@,
                created_at: Some(e.created_at),
                version: 0,
                ..r
            },
            RecordEvent::Updated(e) => RecordView {
                date: match e.date {
                    Some(d) => d,
                    None => r.date,
                },
                items: match e.items {
                    Some(i) => i@,
                    None => r.items,
                },
                description: match e.description {
                    Some(d) => d@,
                    None => r.description,
                },
                tags: match e.tags {
                    Some(t) => tag_set_of(t@),
                    None => r.tags,
                },
                payee: match e.payee {
                    Some(p) => p@,
                    None => r.payee,
                },
                last_modified_at: Some(e.last_modified_at),
                ..r
            },
            RecordEvent::Deleted(_) => r,
        }
    }

    /// The event's type name.
    pub open spec fn spec_event_type(&self) -> Seq<char> {
        match self {
            RecordEvent::Created(_) => "whiterabbit::event::RecordCreated"@,
            RecordEvent::Updated(_) => "whiterabbit::event::RecordUpdated"@,
            RecordEvent::Deleted(_) => "whiterabbit::event::RecordDeleted"@,
        }
    }

    /// The event's type name.
    pub fn event_type(&self) -> (r: &'static str)
        ensures
            r@ == self.spec_event_type(),
    {
        match self {
            RecordEvent::Created(_) => "whiterabbit::event::RecordCreated",
            RecordEvent::Updated(_) => "whiterabbit::event::RecordUpdated",
            RecordEvent::Deleted(_) => "whiterabbit::event::RecordDeleted",
        }
    }
}

} // verus!
