//! Conditions that select accounts.
use vstd::prelude::*;
use crate::account::{AccountType, AccountView};
use crate::common::{any_name_matches, any_tag_in, full_text_matches, str_set};
use crate::specification::SpecificationExpression;

verus! {

/// One condition on an account.
#[derive(Debug)]
pub enum AccountSpecification {
    /// The identifier is one of these.
    Id(Vec<String>),
    /// The journal is one of these.
    JournalId(Vec<String>),
    /// The parent is one of these (root accounts never match).
    ParentId(Vec<String>),
    /// Some of these names, trimmed and lower-cased, equals the lower-cased
    /// account name.
    Name(Vec<String>),
    /// The type is one of these.
    Type(Vec<AccountType>),
    /// Some tag of the account is one of these.
    Tag(Vec<String>),
    /// The trimmed, lower-cased query occurs in the lower-cased name,
    /// description or some tag.
    FullText(String),
    /// `true` = only archived accounts, `false` = only active ones.
    Archived(bool),
}

/// A composable condition on accounts.
pub type AccountSpec = SpecificationExpression<AccountSpecification>;

/// Whether an account satisfies one condition.
pub open spec fn account_leaf_matches(spec: AccountSpecification, a: AccountView) -> bool {
    match spec {
        AccountSpecification::Id(ids) => str_set(ids@).contains(a.id),
        AccountSpecification::JournalId(ids) => str_set(ids@).contains(a.journal_id),
        AccountSpecification::ParentId(ids) => match a.parent_id {
            Some(p) => str_set(ids@).contains(p),
            None => false,
        },
        AccountSpecification::Name(names) => any_name_matches(names@, a.name),
        AccountSpecification::Type(types) => types@.contains(a.account_type),
        AccountSpecification::Tag(tags) => any_tag_in(a.tags, str_set(tags@)),
        AccountSpecification::FullText(q) => full_text_matches(q@, a.name, a.description, a.tags),
        AccountSpecification::Archived(b) => if b {
            a.archived_at is Some
        } else {
            a.archived_at is None
        },
    }
}

impl AccountSpecification {
    /// Accounts with this identifier.
    pub fn id(id: String) -> (r: AccountSpec)
        ensures
            r matches SpecificationExpression::Leaf(AccountSpecification::Id(v)) && v@ == seq![id],
    {
        SpecificationExpression::Leaf(AccountSpecification::Id(vec![id]))
    }

    /// Accounts with one of these identifiers.
    pub fn ids(ids: Vec<String>) -> (r: AccountSpec)
        ensures
            r matches SpecificationExpression::Leaf(AccountSpecification::Id(v)) && v@ == ids@,
    {
        SpecificationExpression::Leaf(AccountSpecification::Id(ids))
    }

    /// Accounts of this journal.
    pub fn journal_id(id: String) -> (r: AccountSpec)
        ensures
            r matches SpecificationExpression::Leaf(AccountSpecification::JournalId(v)) && v@
                == seq![id],
    {
        SpecificationExpression::Leaf(AccountSpecification::JournalId(vec![id]))
    }

    /// Children of this account.
    pub fn parent_id(id: String) -> (r: AccountSpec)
        ensures
            r matches SpecificationExpression::Leaf(AccountSpecification::ParentId(v)) && v@
                == seq![id],
    {
        SpecificationExpression::Leaf(AccountSpecification::ParentId(vec![id]))
    }

    /// Children of one of these accounts.
    pub fn parent_ids(ids: Vec<String>) -> (r: AccountSpec)
        ensures
            r matches SpecificationExpression::Leaf(AccountSpecification::ParentId(v)) && v@
                == ids@,
    {
        SpecificationExpression::Leaf(AccountSpecification::ParentId(ids))
    }

    /// Accounts with this name (trimmed, ignoring case).
    pub fn name(name: String) -> (r: AccountSpec)
        ensures
            r matches SpecificationExpression::Leaf(AccountSpecification::Name(v)) && v@ == seq![
                name,
            ],
    {
        SpecificationExpression::Leaf(AccountSpecification::Name(vec![name]))
    }

    /// Accounts with one of these names (trimmed, ignoring case).
    pub fn names(names: Vec<String>) -> (r: AccountSpec)
        ensures
            r matches SpecificationExpression::Leaf(AccountSpecification::Name(v)) && v@ == names@,
    {
        SpecificationExpression::Leaf(AccountSpecification::Name(names))
    }

    /// Accounts of this type.
    pub fn account_type(t: AccountType) -> (r: AccountSpec)
        ensures
            r matches SpecificationExpression::Leaf(AccountSpecification::Type(v)) && v@ == seq![t],
    {
        SpecificationExpression::Leaf(AccountSpecification::Type(vec![t]))
    }

    /// Accounts with this tag.
    pub fn tag(tag: String) -> (r: AccountSpec)
        ensures
            r matches SpecificationExpression::Leaf(AccountSpecification::Tag(v)) && v@ == seq![tag],
    {
        SpecificationExpression::Leaf(AccountSpecification::Tag(vec![tag]))
    }

    /// Accounts with one of these tags.
    pub fn tags(tags: Vec<String>) -> (r: AccountSpec)
        ensures
            r matches SpecificationExpression::Leaf(AccountSpecification::Tag(v)) && v@ == tags@,
    {
        SpecificationExpression::Leaf(AccountSpecification::Tag(tags))
    }

    /// Accounts whose name, description or a tag contains the query.
    pub fn full_text(query: String) -> (r: AccountSpec)
        ensures
            r matches SpecificationExpression::Leaf(AccountSpecification::FullText(q)) && q == query,
    {
        SpecificationExpression::Leaf(AccountSpecification::FullText(query))
    }

    /// Archived accounts.
    pub fn archived() -> (r: AccountSpec)
        ensures
            r == SpecificationExpression::Leaf(AccountSpecification::Archived(true)),
    {
        SpecificationExpression::Leaf(AccountSpecification::Archived(true))
    }

    /// Active (not archived) accounts.
    pub fn active() -> (r: AccountSpec)
        ensures
            r == SpecificationExpression::Leaf(AccountSpecification::Archived(false)),
    {
        SpecificationExpression::Leaf(AccountSpecification::Archived(false))
    }
}

} // verus!
