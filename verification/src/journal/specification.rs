//! Conditions that select journals.
use vstd::prelude::*;
use crate::common::{
    any_name_matches, any_tag_lower_in, contains_str, full_text_match, full_text_matches,
    names_match, str_set, tags_intersect_lower,
};
use crate::journal::{Journal, JournalView};
use crate::specification::{LeafSpecification, SpecificationExpression};

verus! {

/// One condition on a journal.
#[derive(Debug)]
pub enum JournalSpecification {
    /// The identifier is one of these.
    Id(Vec<String>),
    /// Some of these names, trimmed and lower-cased, equals the lower-cased
    /// journal name.
    Name(Vec<String>),
    /// Some tag equals one of these, ignoring case.
    Tag(Vec<String>),
    /// The trimmed, lower-cased query occurs in the lower-cased name,
    /// description or some tag.
    FullText(String),
}

/// A composable condition on journals.
pub type JournalSpec = SpecificationExpression<JournalSpecification>;

/// Whether a journal satisfies one condition.
pub open spec fn journal_leaf_matches(spec: JournalSpecification, j: JournalView) -> bool {
    match spec {
        JournalSpecification::Id(ids) => str_set(ids@).contains(j.id),
        JournalSpecification::Name(names) => any_name_matches(names@, j.name),
        JournalSpecification::Tag(tags) => any_tag_lower_in(j.tags, tags@),
        JournalSpecification::FullText(q) => full_text_matches(q@, j.name, j.description, j.tags),
    }
}

impl LeafSpecification<Journal> for JournalSpecification {
    open spec fn spec_matches(&self, e: JournalView) -> bool {
        journal_leaf_matches(*self, e)
    }

    /// Whether the journal satisfies this condition.
    fn matches(&self, j: &Journal) -> (r: bool) {
        match self {
            JournalSpecification::Id(ids) => contains_str(ids, &j.id),
            JournalSpecification::Name(names) => names_match(names, j.name.as_str()),
            JournalSpecification::Tag(tags) => tags_intersect_lower(&j.tags, tags),
            JournalSpecification::FullText(q) => full_text_match(
                q.as_str(),
                j.name.as_str(),
                j.description.as_str(),
                &j.tags,
            ),
        }
    }
}

impl JournalSpecification {
    /// Journals with this identifier.
    pub fn id(id: String) -> (r: JournalSpec)
        ensures
            r matches SpecificationExpression::Leaf(JournalSpecification::Id(v)) && v@ == seq![id],
    {
        SpecificationExpression::Leaf(JournalSpecification::Id(vec![id]))
    }

    /// Journals with one of these identifiers.
    pub fn ids(ids: Vec<String>) -> (r: JournalSpec)
        ensures
            r matches SpecificationExpression::Leaf(JournalSpecification::Id(v)) && v@ == ids@,
    {
        SpecificationExpression::Leaf(JournalSpecification::Id(ids))
    }

    /// Journals with this name (trimmed, ignoring case).
    pub fn name(name: String) -> (r: JournalSpec)
        ensures
            r matches SpecificationExpression::Leaf(JournalSpecification::Name(v)) && v@ == seq![
                name,
            ],
    {
        SpecificationExpression::Leaf(JournalSpecification::Name(vec![name]))
    }

    /// Journals with one of these names (trimmed, ignoring case).
    pub fn names(names: Vec<String>) -> (r: JournalSpec)
        ensures
            r matches SpecificationExpression::Leaf(JournalSpecification::Name(v)) && v@ == names@,
    {
        SpecificationExpression::Leaf(JournalSpecification::Name(names))
    }

    /// Journals with this tag (ignoring case).
    pub fn tag(tag: String) -> (r: JournalSpec)
        ensures
            r matches SpecificationExpression::Leaf(JournalSpecification::Tag(v)) && v@ == seq![tag],
    {
        SpecificationExpression::Leaf(JournalSpecification::Tag(vec![tag]))
    }

    /// Journals with one of these tags (ignoring case).
    pub fn tags(tags: Vec<String>) -> (r: JournalSpec)
        ensures
            r matches SpecificationExpression::Leaf(JournalSpecification::Tag(v)) && v@ == tags@,
    {
        SpecificationExpression::Leaf(JournalSpecification::Tag(tags))
    }

    /// Journals whose name, description or a tag contains the query.
    pub fn full_text(query: String) -> (r: JournalSpec)
        ensures
            r matches SpecificationExpression::Leaf(JournalSpecification::FullText(q)) && q == query,
    {
        SpecificationExpression::Leaf(JournalSpecification::FullText(query))
    }
}

} // verus!
