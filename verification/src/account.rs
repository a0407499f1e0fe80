//! Accounts: each journal holds a tree of accounts whose roots are the five
//! account types.
use vstd::prelude::*;
use crate::store::Entity;
use crate::common::{clone_opt_str, clone_strs, collect_tags, str_set, tag_set_of, tags_wf};
use crate::error::{opt_str_view, shared_err, Error, SharedErrorKind, SharedErrorKindView};
use crate::text::{
    chars_of, eq_ignore_ascii_case_chars, is_blank, is_blank_chars, lemma_not_blank,
    spec_eq_ignore_ascii_case,
};

pub mod command;
pub mod context;
pub mod event;
pub mod repository;
pub mod service;
pub mod specification;

use event::AccountEvent;

verus! {

/// The five account types; every account tree is rooted in one of them.
#[derive(Clone, Copy, Debug, PartialEq, Eq, Structural, Hash)]
pub enum AccountType {
    Asset,
    Liability,
    Equity,
    Income,
    Expense,
}

impl Default for AccountType {
    fn default() -> (r: AccountType)
        ensures
            r == AccountType::Asset,
    {
        AccountType::Asset
    }
}

/// The printed name of an account type.
pub open spec fn account_type_name(t: AccountType) -> Seq<char> {
    match t {
        AccountType::Asset => "Asset"@,
        AccountType::Liability => "Liability"@,
        AccountType::Equity => "Equity"@,
        AccountType::Income => "Income"@,
        AccountType::Expense => "Expense"@,
    }
}

/// No type name is blank.
pub proof fn lemma_type_name_not_blank(t: AccountType)
    ensures
        !is_blank(account_type_name(t)),
{
    reveal_strlit("Asset");
    reveal_strlit("Liability");
    reveal_strlit("Equity");
    reveal_strlit("Income");
    reveal_strlit("Expense");
    lemma_not_blank(account_type_name(t));
}

impl AccountType {
    /// The printed name of this type ("Asset", "Liability", ...).
    pub fn to_display_string(&self) -> (r: String)
        ensures
            r@ == account_type_name(*self),
    {
        match self {
            AccountType::Asset => "Asset".to_string(),
            AccountType::Liability => "Liability".to_string(),
            AccountType::Equity => "Equity".to_string(),
            AccountType::Income => "Income".to_string(),
            AccountType::Expense => "Expense".to_string(),
        }
    }
}

/// An account of a journal. Root accounts have no parent; every other
/// account has the type of its parent.
#[derive(Debug)]
pub struct Account {
    pub id: String,
    pub version: usize,
    pub created_at: Option<i64>,
    pub last_modified_at: Option<i64>,
    pub archived_at: Option<i64>,
    pub journal_id: String,
    pub parent_id: Option<String>,
    pub account_type: AccountType,
    pub name: String,
    pub description: String,
    pub tags: Vec<String>,
}

/// The mathematical form of an account.
pub struct AccountView {
    pub id: Seq<char>,
    pub version: usize,
    pub created_at: Option<i64>,
    pub last_modified_at: Option<i64>,
    pub archived_at: Option<i64>,
    pub journal_id: Seq<char>,
    pub parent_id: Option<Seq<char>>,
    pub account_type: AccountType,
    pub name: Seq<char>,
    pub description: Seq<char>,
    pub tags: Set<Seq<char>>,
}

impl View for Account {
    type V = AccountView;

    open spec fn view(&self) -> AccountView {
        AccountView {
            id: self.id@,
            version: self.version,
            created_at: self.created_at,
            last_modified_at: self.last_modified_at,
            archived_at: self.archived_at,
            journal_id: self.journal_id@,
            parent_id: opt_str_view(self.parent_id),
            account_type: self.account_type,
            name: self.name@,
            description: self.description@,
            tags: str_set(self.tags@),
        }
    }
}

impl Clone for Account {
    fn clone(&self) -> (r: Account)
        ensures
            r@ == self@,
            r.tags@ == self.tags@,
    {
        Account {
            id: self.id.clone(),
            version: self.version,
            created_at: self.created_at,
            last_modified_at: self.last_modified_at,
            archived_at: self.archived_at,
            journal_id: self.journal_id.clone(),
            parent_id: clone_opt_str(&self.parent_id),
            account_type: self.account_type,
            name: self.name.clone(),
            description: self.description.clone(),
            tags: clone_strs(&self.tags),
        }
    }
}

/// Whether `name` equals one of the five reserved root names, ignoring
/// ASCII case.
pub open spec fn spec_is_reserved_name(name: Seq<char>) -> bool {
    ||| spec_eq_ignore_ascii_case("Asset"@, name)
    ||| spec_eq_ignore_ascii_case("Liability"@, name)
    ||| spec_eq_ignore_ascii_case("Equity"@, name)
    ||| spec_eq_ignore_ascii_case("Income"@, name)
    ||| spec_eq_ignore_ascii_case("Expense"@, name)
}

/// The resource type of accounts in errors.
pub open spec fn account_resource() -> Seq<char> {
    "whiterabbit::domain::Account"@
}

impl Account {
    /// The resource type of accounts in errors.
    pub const ENTITY_TYPE: &'static str = "whiterabbit::domain::Account";

    /// An account is well formed: its name is not blank and its tags are
    /// distinct and not blank.
    pub open spec fn wf(&self) -> bool {
        &&& !is_blank(self.name@)
        &&& tags_wf(self.tags@)
    }

    /// Returns true if the given name is one of the reserved root names
    /// ("Asset", "Liability", "Equity", "Income", "Expense"), ignoring ASCII
    /// case.
    pub fn is_reserved_name(name: &str) -> (r: bool)
        ensures
            r == spec_is_reserved_name(name@),
    {
        let n = chars_of(name);
        eq_ignore_ascii_case_chars(&chars_of("Asset"), &n) || eq_ignore_ascii_case_chars(
            &chars_of("Liability"),
            &n,
        ) || eq_ignore_ascii_case_chars(&chars_of("Equity"), &n) || eq_ignore_ascii_case_chars(
            &chars_of("Income"),
            &n,
        ) || eq_ignore_ascii_case_chars(&chars_of("Expense"), &n)
    }

    /// Returns true if this account is archived.
    pub fn is_archived(&self) -> (r: bool)
        ensures
            r == (self.archived_at is Some),
    {
        self.archived_at.is_some()
    }

    /// Returns true if this is a root account (no parent).
    pub fn is_root(&self) -> (r: bool)
        ensures
            r == (self.parent_id is None),
    {
        self.parent_id.is_none()
    }

    /// Builds an account from its input: the name must not be blank, and
    /// blank or repeated tags are dropped.
    pub fn try_from_input(value: AccountInput) -> (r: Result<Account, Error>)
        ensures
            is_blank(value.name@) ==> r is Err && r->Err_0@ == shared_err(
                SharedErrorKindView::NonEmpty,
                account_resource(),
                "name"@,
            ),
            !is_blank(value.name@) ==> r is Ok && r->Ok_0@ == value.spec_account() && r->Ok_0.wf(),
    {
        let name_chars = chars_of(value.name.as_str());
        if is_blank_chars(&name_chars) {
            return Err(
                SharedErrorKind::NonEmpty.into_error().with_resource_type(Account::ENTITY_TYPE).with_field(
                    "name",
                ),
            );
        }
        let tags = collect_tags(&value.tags);
        Ok(
            Account {
                id: value.id,
                version: value.version,
                created_at: value.created_at,
                last_modified_at: value.last_modified_at,
                archived_at: value.archived_at,
                journal_id: value.journal_id,
                parent_id: value.parent_id,
                account_type: value.account_type,
                name: value.name,
                description: value.description,
                tags,
            },
        )
    }

    /// Applies an event to this account (event sourcing). `Created`
    /// overwrites the identity, content and creation time and resets the
    /// version; `Updated` overwrites the fields it carries and the
    /// modification time; `Archived` sets the archive time; `Deleted`
    /// changes nothing.
    pub fn apply(&mut self, event: &AccountEvent)
        requires
            event.wf(),
        ensures
            final(self)@ == event.spec_apply(old(self)@),
            old(self).wf() ==> final(self).wf(),
    {
        match event {
            AccountEvent::Created(e) => {
                self.id = e.id.clone();
                self.journal_id = e.journal_id.clone();
                self.parent_id = clone_opt_str(&e.parent_id);
                self.account_type = e.account_type;
                self.name = e.name.clone();
                self.description = e.description.clone();
                self.tags = collect_tags(&e.tags);
                self.created_at = Some(e.created_at);
                self.version = 0;
            },
            AccountEvent::Updated(e) => {
                match &e.name {
                    Some(name) => {
                        self.name = name.clone();
                    },
                    None => {},
                }
                match &e.description {
                    Some(desc) => {
                        self.description = desc.clone();
                    },
                    None => {},
                }
                match &e.tags {
                    Some(tags) => {
                        self.tags = collect_tags(tags);
                    },
                    None => {},
                }
                self.last_modified_at = Some(e.last_modified_at);
            },
            AccountEvent::Archived(e) => {
                self.archived_at = Some(e.archived_at);
            },
            AccountEvent::Deleted(_) => {},
        }
    }
}

/// The fields of an account before validation.
pub struct AccountInput {
    pub id: String,
    pub version: usize,
    pub created_at: Option<i64>,
    pub last_modified_at: Option<i64>,
    pub archived_at: Option<i64>,
    pub journal_id: String,
    pub parent_id: Option<String>,
    pub account_type: AccountType,
    pub name: String,
    pub description: String,
    pub tags: Vec<String>,
}

impl Default for AccountInput {
    /// An asset root account with a fresh identifier and journal, version
    /// 0, no times and nothing else.
    fn default() -> (r: AccountInput)
        ensures
            r.version == 0,
            r.created_at is None,
            r.last_modified_at is None,
            r.archived_at is None,
            r.parent_id is None,
            r.account_type == AccountType::Asset,
            r.name@ == Seq::<char>::empty(),
            r.description@ == Seq::<char>::empty(),
            r.tags@.len() == 0,
    {
        AccountInput {
            id: crate::runtime::new_id(),
            version: 0,
            created_at: None,
            last_modified_at: None,
            archived_at: None,
            journal_id: crate::runtime::new_id(),
            parent_id: None,
            account_type: AccountType::Asset,
            name: String::new(),
            description: String::new(),
            tags: Vec::new(),
        }
    }
}

impl AccountInput {
    /// The account this input describes once validated.
    pub open spec fn spec_account(&self) -> AccountView {
        AccountView {
            id: self.id@,
            version: self.version,
            created_at: self.created_at,
            last_modified_at: self.last_modified_at,
            archived_at: self.archived_at,
            journal_id: self.journal_id@,
            parent_id: opt_str_view(self.parent_id),
            account_type: self.account_type,
            name: self.name@,
            description: self.description@,
            tags: tag_set_of(self.tags@),
        }
    }
}

impl Entity for Account {
    open spec fn key(v: AccountView) -> Seq<char> {
        v.id
    }

    open spec fn inv(&self) -> bool {
        self.wf()
    }

    fn id(&self) -> (r: &String) {
        &self.id
    }

    fn duplicate(&self) -> (r: Account) {
        self.clone()
    }
}

} // verus!
