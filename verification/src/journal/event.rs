//! Events that record what happened to journals.
use vstd::prelude::*;
use crate::account::event::none_blank;
use crate::common::tag_set_of;
use crate::journal::JournalView;
use crate::text::is_blank;

verus! {

/// A journal was created.
#[derive(Debug)]
pub struct JournalCreated {
    pub id: String,
    pub name: String,
    pub description: String,
    pub tags: Vec<String>,
    pub created_at: i64,
}

/// Fields of a journal were changed; `None` leaves a field as it was.
#[derive(Debug)]
pub struct JournalUpdated {
    pub id: String,
    pub name: Option<String>,
    pub description: Option<String>,
    pub tags: Option<Vec<String>>,
    pub last_modified_at: i64,
}

/// A journal was deleted.
#[derive(Debug)]
pub struct JournalDeleted {
    pub id: String,
}

/// What happened to a journal.
#[derive(Debug)]
pub enum JournalEvent {
    Created(JournalCreated),
    Updated(JournalUpdated),
    Deleted(JournalDeleted),
}

impl JournalEvent {
    /// The event carries valid names and tags: none is blank.
    pub open spec fn wf(&self) -> bool {
        match self {
            JournalEvent::Created(e) => !is_blank(e.name@) && none_blank(e.tags@),
            JournalEvent::Updated(e) => (e.name matches Some(n) ==> !is_blank(n@)) && (
            e.tags matches Some(t) ==> none_blank(t@)),
            _ => true,
        }
    }

    /// The identifier of the journal the event is about.
    pub open spec fn spec_id(&self) -> Seq<char> {
        match self {
            JournalEvent::Created(e) => e.id@,
            JournalEvent::Updated(e) => e.id@,
            JournalEvent::Deleted(e) => e.id@,
        }
    }

    /// The journal that results from applying this event to `j`.
    pub open spec fn spec_apply(&self, j: JournalView) -> JournalView {
        match self {
            JournalEvent::Created(e) => JournalView {
                id: e.id@,
                name: e.name@,
                description: e.description@,
                tags: tag_set_of(e.tags@),
                created_at: Some(e.created_at),
                version: 0,
                ..j
            },
            JournalEvent::Updated(e) => JournalView {
                name: match e.name {
                    Some(n) => n@,
                    None => j.name,
                },
                description: match e.description {
                    Some(d) => d@,
                    None => j.description,
                },
                tags: match e.tags {
                    Some(t) => tag_set_of(t@),
                    None => j.tags,
                },
                last_modified_at: Some(e.last_modified_at),
                ..j
            },
            JournalEvent::Deleted(_) => j,
        }
    }

    /// The event's type name.
    pub open spec fn spec_event_type(&self) -> Seq<char> {
        match self {
            JournalEvent::Created(_) => "whiterabbit::event::JournalCreated"@,
            JournalEvent::Updated(_) => "whiterabbit::event::JournalUpdated"@,
            JournalEvent::Deleted(_) => "whiterabbit::event::JournalDeleted"@,
        }
    }

    /// The event's type name.
    pub fn event_type(&self) -> (r: &'static str)
        ensures
            r@ == self.spec_event_type(),
    {
        match self {
            JournalEvent::Created(_) => "whiterabbit::event::JournalCreated",
            JournalEvent::Updated(_) => "whiterabbit::event::JournalUpdated",
            JournalEvent::Deleted(_) => "whiterabbit::event::JournalDeleted",
        }
    }
}

} // verus!
