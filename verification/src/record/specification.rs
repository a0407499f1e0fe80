//! Conditions that select records.
use vstd::prelude::*;
use crate::common::{
    any_lower_eq, any_tag_lower_in, contains_str, full_text_match, full_text_matches, lower_eq_any,
    str_set, tags_intersect_lower,
};
use crate::record::{Record, RecordItemKind, RecordItems, RecordView};
use crate::specification::{LeafSpecification, SpecificationExpression};

verus! {

/// One condition on a record.
#[derive(Debug)]
pub enum RecordSpecification {
    /// The identifier is one of these.
    Id(Vec<String>),
    /// The journal is one of these.
    JournalId(Vec<String>),
    /// Some item posts to one of these accounts.
    AccountId(Vec<String>),
    /// The date is one of these (days from the Common Era).
    Date(Vec<i32>),
    /// The date is this one or later.
    DateFrom(i32),
    /// The date is this one or earlier.
    DateTo(i32),
    /// The payee equals one of these, ignoring case.
    Payee(Vec<String>),
    /// Some tag equals one of these, ignoring case.
    Tag(Vec<String>),
    /// The items are of this kind.
    ItemKind(RecordItemKind),
    /// The trimmed, lower-cased query occurs in the lower-cased description,
    /// payee or some tag.
    FullText(String),
}

/// A composable condition on records.
pub type RecordSpec = SpecificationExpression<RecordSpecification>;

/// Whether a record satisfies one condition.
pub open spec fn record_leaf_matches(spec: RecordSpecification, r: RecordView) -> bool {
    match spec {
        RecordSpecification::Id(ids) => str_set(ids@).contains(r.id),
        RecordSpecification::JournalId(ids) => str_set(ids@).contains(r.journal_id),
        RecordSpecification::AccountId(ids) => exists|k: int|
            0 <= k < r.items.account_ids().len() && str_set(ids@).contains(
                #[trigger] r.items.account_ids()[k],
            ),
        RecordSpecification::Date(dates) => dates@.contains(r.date),
        RecordSpecification::DateFrom(d) => r.date >= d,
        RecordSpecification::DateTo(d) => r.date <= d,
        RecordSpecification::Payee(payees) => any_lower_eq(payees@, r.payee),
        RecordSpecification::Tag(tags) => any_tag_lower_in(r.tags, tags@),
        RecordSpecification::ItemKind(k) => r.items.kind() == k,
        RecordSpecification::FullText(q) => full_text_matches(q@, r.description, r.payee, r.tags),
    }
}

fn contains_date(dates: &Vec<i32>, d: i32) -> (r: bool)
    ensures
        r == dates@.contains(d),
{
    let n = dates.len();
    let mut i: usize = 0;
    while i < n
        invariant
            n == dates@.len(),
            i <= n,
            forall|k: int| 0 <= k < i ==> dates@[k] != d,
        decreases n - i,
    {
        if dates[i] == d {
            assert(dates@[i as int] == d);
            return true;
        }
        i = i + 1;
    }
    false
}

/// Whether some item posts to one of `ids`.
fn posts_to_any(items: &RecordItems, ids: &Vec<String>) -> (r: bool)
    ensures
        r == exists|k: int|
            0 <= k < items@.account_ids().len() && str_set(ids@).contains(
                #[trigger] items@.account_ids()[k],
            ),
{
    let ghost a = items@.account_ids();
    let n = match items {
        RecordItems::Transactions(t) => t.len(),
        RecordItems::Validations(v) => v.len(),
    };
    let mut i: usize = 0;
    while i < n
        invariant
            a == items@.account_ids(),
            n == a.len(),
            i <= n,
            forall|k: int| 0 <= k < i ==> !str_set(ids@).contains(#[trigger] a[k]),
        decreases n - i,
    {
        let id = match items {
            RecordItems::Transactions(t) => &t[i].account_id,
            RecordItems::Validations(v) => &v[i].account_id,
        };
        assert(id@ == a[i as int]);
        if contains_str(ids, id) {
            return true;
        }
        i = i + 1;
    }
    false
}

impl LeafSpecification<Record> for RecordSpecification {
    open spec fn spec_matches(&self, e: RecordView) -> bool {
        record_leaf_matches(*self, e)
    }

    /// Whether the record satisfies this condition.
    fn matches(&self, r: &Record) -> (b: bool) {
        match self {
            RecordSpecification::Id(ids) => contains_str(ids, &r.id),
            RecordSpecification::JournalId(ids) => contains_str(ids, &r.journal_id),
            RecordSpecification::AccountId(ids) => posts_to_any(&r.items, ids),
            RecordSpecification::Date(dates) => contains_date(dates, r.date),
            RecordSpecification::DateFrom(d) => r.date >= *d,
            RecordSpecification::DateTo(d) => r.date <= *d,
            RecordSpecification::Payee(payees) => lower_eq_any(payees, r.payee.as_str()),
            RecordSpecification::Tag(tags) => tags_intersect_lower(&r.tags, tags),
            RecordSpecification::ItemKind(k) => r.items.kind() == *k,
            RecordSpecification::FullText(q) => full_text_match(
                q.as_str(),
                r.description.as_str(),
                r.payee.as_str(),
                &r.tags,
            ),
        }
    }
}

impl RecordSpecification {
    /// Records with this identifier.
    pub fn id(id: String) -> (r: RecordSpec)
        ensures
            r matches SpecificationExpression::Leaf(RecordSpecification::Id(v)) && v@ == seq![id],
    {
        SpecificationExpression::Leaf(RecordSpecification::Id(vec![id]))
    }

    /// Records with one of these identifiers.
    pub fn ids(ids: Vec<String>) -> (r: RecordSpec)
        ensures
            r matches SpecificationExpression::Leaf(RecordSpecification::Id(v)) && v@ == ids@,
    {
        SpecificationExpression::Leaf(RecordSpecification::Id(ids))
    }

    /// Records of this journal.
    pub fn journal_id(id: String) -> (r: RecordSpec)
        ensures
            r matches SpecificationExpression::Leaf(RecordSpecification::JournalId(v)) && v@
                == seq![id],
    {
        SpecificationExpression::Leaf(RecordSpecification::JournalId(vec![id]))
    }

    /// Records that post to this account.
    pub fn account_id(id: String) -> (r: RecordSpec)
        ensures
            r matches SpecificationExpression::Leaf(RecordSpecification::AccountId(v)) && v@
                == seq![id],
    {
        SpecificationExpression::Leaf(RecordSpecification::AccountId(vec![id]))
    }

    /// Records that post to one of these accounts.
    pub fn account_ids(ids: Vec<String>) -> (r: RecordSpec)
        ensures
            r matches SpecificationExpression::Leaf(RecordSpecification::AccountId(v)) && v@
                == ids@,
    {
        SpecificationExpression::Leaf(RecordSpecification::AccountId(ids))
    }

    /// Records of this date.
    pub fn date(date: i32) -> (r: RecordSpec)
        ensures
            r matches SpecificationExpression::Leaf(RecordSpecification::Date(v)) && v@ == seq![
                date,
            ],
    {
        SpecificationExpression::Leaf(RecordSpecification::Date(vec![date]))
    }

    /// Records of one of these dates.
    pub fn dates(dates: Vec<i32>) -> (r: RecordSpec)
        ensures
            r matches SpecificationExpression::Leaf(RecordSpecification::Date(v)) && v@ == dates@,
    {
        SpecificationExpression::Leaf(RecordSpecification::Date(dates))
    }

    /// Records of this date or later.
    pub fn date_from(date: i32) -> (r: RecordSpec)
        ensures
            r == SpecificationExpression::Leaf(RecordSpecification::DateFrom(date)),
    {
        SpecificationExpression::Leaf(RecordSpecification::DateFrom(date))
    }

    /// Records of this date or earlier.
    pub fn date_to(date: i32) -> (r: RecordSpec)
        ensures
            r == SpecificationExpression::Leaf(RecordSpecification::DateTo(date)),
    {
        SpecificationExpression::Leaf(RecordSpecification::DateTo(date))
    }

    /// Records with this payee (ignoring case).
    pub fn payee(payee: String) -> (r: RecordSpec)
        ensures
            r matches SpecificationExpression::Leaf(RecordSpecification::Payee(v)) && v@ == seq![
                payee,
            ],
    {
        SpecificationExpression::Leaf(RecordSpecification::Payee(vec![payee]))
    }

    /// Records with one of these payees (ignoring case).
    pub fn payees(payees: Vec<String>) -> (r: RecordSpec)
        ensures
            r matches SpecificationExpression::Leaf(RecordSpecification::Payee(v)) && v@
                == payees@,
    {
        SpecificationExpression::Leaf(RecordSpecification::Payee(payees))
    }

    /// Records with this tag (ignoring case).
    pub fn tag(tag: String) -> (r: RecordSpec)
        ensures
            r matches SpecificationExpression::Leaf(RecordSpecification::Tag(v)) && v@ == seq![tag],
    {
        SpecificationExpression::Leaf(RecordSpecification::Tag(vec![tag]))
    }

    /// Records with one of these tags (ignoring case).
    pub fn tags(tags: Vec<String>) -> (r: RecordSpec)
        ensures
            r matches SpecificationExpression::Leaf(RecordSpecification::Tag(v)) && v@ == tags@,
    {
        SpecificationExpression::Leaf(RecordSpecification::Tag(tags))
    }

    /// Records whose items are of this kind.
    pub fn item_kind(kind: RecordItemKind) -> (r: RecordSpec)
        ensures
            r == SpecificationExpression::Leaf(RecordSpecification::ItemKind(kind)),
    {
        SpecificationExpression::Leaf(RecordSpecification::ItemKind(kind))
    }

    /// Records whose description, payee or a tag contains the query.
    pub fn full_text(query: String) -> (r: RecordSpec)
        ensures
            r matches SpecificationExpression::Leaf(RecordSpecification::FullText(q)) && q == query,
    {
        SpecificationExpression::Leaf(RecordSpecification::FullText(query))
    }
}

} // verus!
