//! Journals: named ledgers; each holds a tree of accounts.
use vstd::prelude::*;
use crate::store::Entity;
use crate::common::{clone_strs, collect_tags, str_set, tag_set_of, tags_wf};
use crate::error::{shared_err, Error, SharedErrorKind, SharedErrorKindView};
use crate::text::{chars_of, is_blank, is_blank_chars};

pub mod command;
pub mod event;
pub mod repository;
pub mod service;
pub mod specification;

use event::JournalEvent;

verus! {

/// A journal: a named collection of accounts and records.
#[derive(Debug)]
pub struct Journal {
    pub id: String,
    pub version: usize,
    pub created_at: Option<i64>,
    pub last_modified_at: Option<i64>,
    pub archived_at: Option<i64>,
    pub name: String,
    pub description: String,
    pub tags: Vec<String>,
}

/// The mathematical form of a journal.
pub struct JournalView {
    pub id: Seq<char>,
    pub version: usize,
    pub created_at: Option<i64>,
    pub last_modified_at: Option<i64>,
    pub archived_at: Option<i64>,
    pub name: Seq<char>,
    pub description: Seq<char>,
    pub tags: Set<Seq<char>>,
}

impl View for Journal {
    type V = JournalView;

    open spec fn view(&self) -> JournalView {
        JournalView {
            id: self.id@,
            version: self.version,
            created_at: self.created_at,
            last_modified_at: self.last_modified_at,
            archived_at: self.archived_at,
            name: self.name@,
            description: self.description@,
            tags: str_set(self.tags@),
        }
    }
}

impl Clone for Journal {
    fn clone(&self) -> (r: Journal)
        ensures
            r@ == self@,
            r.tags@ == self.tags@,
    {
        Journal {
            id: self.id.clone(),
            version: self.version,
            created_at: self.created_at,
            last_modified_at: self.last_modified_at,
            archived_at: self.archived_at,
            name: self.name.clone(),
            description: self.description.clone(),
            tags: clone_strs(&self.tags),
        }
    }
}

/// The resource type of journals in errors.
pub open spec fn journal_resource() -> Seq<char> {
    "whiterabbit::domain::Journal"@
}

impl Journal {
    /// The resource type of journals in errors.
    pub const ENTITY_TYPE: &'static str = "whiterabbit::domain::Journal";

    /// A journal is well formed: its name is not blank and its tags are
    /// distinct and not blank.
    pub open spec fn wf(&self) -> bool {
        &&& !is_blank(self.name@)
        &&& tags_wf(self.tags@)
    }

    /// Builds a journal from its input: the name must not be blank, and
    /// blank or repeated tags are dropped.
    pub fn try_from_input(value: JournalInput) -> (r: Result<Journal, Error>)
        ensures
            is_blank(value.name@) ==> r is Err && r->Err_0@ == shared_err(
                SharedErrorKindView::NonEmpty,
                journal_resource(),
                "name"@,
            ),
            !is_blank(value.name@) ==> r is Ok && r->Ok_0@ == value.spec_journal() && r->Ok_0.wf(),
    {
        let name_chars = chars_of(value.name.as_str());
        if is_blank_chars(&name_chars) {
            return Err(
                SharedErrorKind::NonEmpty.into_error().with_resource_type(Journal::ENTITY_TYPE).with_field(
                    "name",
                ),
            );
        }
        let tags = collect_tags(&value.tags);
        Ok(
            Journal {
                id: value.id,
                version: value.version,
                created_at: value.created_at,
                last_modified_at: value.last_modified_at,
                archived_at: value.archived_at,
                name: value.name,
                description: value.description,
                tags,
            },
        )
    }

    /// Applies an event to this journal (event sourcing). `Created`
    /// overwrites the identity, content and creation time and resets the
    /// version; `Updated` overwrites the fields it carries and the
    /// modification time; `Deleted` changes nothing.
    pub fn apply(&mut self, event: &JournalEvent)
        requires
            event.wf(),
        ensures
            final(self)@ == event.spec_apply(old(self)@),
            old(self).wf() ==> final(self).wf(),
    {
        match event {
            JournalEvent::Created(e) => {
                self.id = e.id.clone();
                self.name = e.name.clone();
                self.description = e.description.clone();
                self.tags = collect_tags(&e.tags);
                self.created_at = Some(e.created_at);
                self.version = 0;
            },
            JournalEvent::Updated(e) => {
                match &e.name {
                    Some(name) => {
                        self.name = name.clone();
                    },
                    None => {},
                }
                match &e.description {
                    Some(desc) => {
                        self.description = desc.clone();
                    },
                    None => {},
                }
                match &e.tags {
                    Some(tags) => {
                        self.tags = collect_tags(tags);
                    },
                    None => {},
                }
                self.last_modified_at = Some(e.last_modified_at);
            },
            JournalEvent::Deleted(_) => {},
        }
    }
}

/// The fields of a journal before validation.
pub struct JournalInput {
    pub id: String,
    pub version: usize,
    pub created_at: Option<i64>,
    pub last_modified_at: Option<i64>,
    pub archived_at: Option<i64>,
    pub name: String,
    pub description: String,
    pub tags: Vec<String>,
}

impl Default for JournalInput {
    /// A journal with a fresh identifier, version 0, no times and nothing
    /// else.
    fn default() -> (r: JournalInput)
        ensures
            r.version == 0,
            r.created_at is None,
            r.last_modified_at is None,
            r.archived_at is None,
            r.name@ == Seq::<char>::empty(),
            r.description@ == Seq::<char>::empty(),
            r.tags@.len() == 0,
    {
        JournalInput {
            id: crate::runtime::new_id(),
            version: 0,
            created_at: None,
            last_modified_at: None,
            archived_at: None,
            name: String::new(),
            description: String::new(),
            tags: Vec::new(),
        }
    }
}

impl JournalInput {
    /// The journal this input describes once validated.
    pub open spec fn spec_journal(&self) -> JournalView {
        JournalView {
            id: self.id@,
            version: self.version,
            created_at: self.created_at,
            last_modified_at: self.last_modified_at,
            archived_at: self.archived_at,
            name: self.name@,
            description: self.description@,
            tags: tag_set_of(self.tags@),
        }
    }
}

impl Entity for Journal {
    open spec fn key(v: JournalView) -> Seq<char> {
        v.id
    }

    open spec fn inv(&self) -> bool {
        self.wf()
    }

    fn id(&self) -> (r: &String) {
        &self.id
    }

    fn duplicate(&self) -> (r: Journal) {
        self.clone()
    }
}

} // verus!
