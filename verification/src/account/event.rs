//! Events that record what happened to accounts.
use vstd::prelude::*;
use crate::account::{AccountType, AccountView};
use crate::common::tag_set_of;
use crate::error::opt_str_view;
use crate::text::is_blank;

verus! {

/// An account was created.
#[derive(Debug)]
pub struct AccountCreated {
    pub id: String,
    pub journal_id: String,
    pub parent_id: Option<String>,
    pub account_type: AccountType,
    pub name: String,
    pub description: String,
    pub tags: Vec<String>,
    pub created_at: i64,
}

/// Fields of an account were changed; `None` leaves a field as it was.
#[derive(Debug)]
pub struct AccountUpdated {
    pub id: String,
    pub name: Option<String>,
    pub description: Option<String>,
    pub tags: Option<Vec<String>>,
    pub last_modified_at: i64,
}

/// An account was archived.
#[derive(Debug)]
pub struct AccountArchived {
    pub id: String,
    pub archived_at: i64,
}

/// An account was deleted.
#[derive(Debug)]
pub struct AccountDeleted {
    pub id: String,
}

/// What happened to an account.
#[derive(Debug)]
pub enum AccountEvent {
    Created(AccountCreated),
    Updated(AccountUpdated),
    Archived(AccountArchived),
    Deleted(AccountDeleted),
}

/// None of the strings is blank.
pub open spec fn none_blank(v: Seq<String>) -> bool {
    forall|i: int| 0 <= i < v.len() ==> !is_blank(#[trigger] v[i]@)
}

impl AccountEvent {
    /// The event carries valid names and tags (as the service produces
    /// them): names and tags are not blank.
    pub open spec fn wf(&self) -> bool {
        match self {
            AccountEvent::Created(e) => !is_blank(e.name@) && none_blank(e.tags@),
            AccountEvent::Updated(e) => (e.name matches Some(n) ==> !is_blank(n@)) && (
            e.tags matches Some(t) ==> none_blank(t@)),
            _ => true,
        }
    }

    /// The account that results from applying this event to `a`.
    pub open spec fn spec_apply(&self, a: AccountView) -> AccountView {
        match self {
            AccountEvent::Created(e) => AccountView {
                id: e.id@,
                journal_id: e.journal_id@,
                parent_id: opt_str_view(e.parent_id),
                account_type: e.account_type,
                name: e.name@,
                description: e.description@,
                tags: tag_set_of(e.tags@),
                created_at: Some(e.created_at),
                version: 0,
                ..a
            },
            AccountEvent::Updated(e) => AccountView {
                name: match e.name {
                    Some(n) => n@,
                    None => a.name,
                },
                description: match e.description {
                    Some(d) => d@,
                    None => a.description,
                },
                tags: match e.tags {
                    Some(t) => tag_set_of(t@),
                    None => a.tags,
                },
                last_modified_at: Some(e.last_modified_at),
                ..a
            },
            AccountEvent::Archived(e) => AccountView { archived_at: Some(e.archived_at), ..a },
            AccountEvent::Deleted(_) => a,
        }
    }

    /// The event's type name.
    pub open spec fn spec_event_type(&self) -> Seq<char> {
        match self {
            AccountEvent::Created(_) => "whiterabbit::event::AccountCreated"@,
            AccountEvent::Updated(_) => "whiterabbit::event::AccountUpdated"@,
            AccountEvent::Archived(_) => "whiterabbit::event::AccountArchived"@,
            AccountEvent::Deleted(_) => "whiterabbit::event::AccountDeleted"@,
        }
    }

    /// The event's type name.
    pub fn event_type(&self) -> (r: &'static str)
        ensures
            r@ == self.spec_event_type(),
    {
        match self {
            AccountEvent::Created(_) => "whiterabbit::event::AccountCreated",
            AccountEvent::Updated(_) => "whiterabbit::event::AccountUpdated",
            AccountEvent::Archived(_) => "whiterabbit::event::AccountArchived",
            AccountEvent::Deleted(_) => "whiterabbit::event::AccountDeleted",
        }
    }

    /// The identifier of the account the event is about.
    pub open spec fn spec_id(&self) -> Seq<char> {
        match self {
            AccountEvent::Created(e) => e.id@,
            AccountEvent::Updated(e) => e.id@,
            AccountEvent::Archived(e) => e.id@,
            AccountEvent::Deleted(e) => e.id@,
        }
    }
}

} // verus!
