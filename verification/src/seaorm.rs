//! The mapping between domain values and the columns of the SQL store:
//! account types and record kinds as the database spells them.
use vstd::prelude::*;
use crate::account::{account_type_name, AccountType};
use crate::account::specification::{AccountSpec, AccountSpecification};
use crate::error::strs_view;
use crate::journal::specification::{JournalSpec, JournalSpecification};
use crate::record::RecordItemKind;
use crate::record::specification::{RecordSpec, RecordSpecification};
use crate::text::{chars_equal, chars_of, concat3, lower_trim, query_key, spec_to_lowercase, to_lowercase};
use query::{
    account_type_values, any_of_three, any_of_two, cond_view, date_values, dates, group_of,
    lower_text_values, lowered, query_of, single, spec_to_condition, text_values, texts,
    type_values, Column, Condition, ConditionType, ConditionView, Filter, FilterView, Operand,
    QueryLeaf, SqlValue, SqlValueView, Table,
};

pub mod query;
pub mod record_rows;
pub mod rows;
pub mod semantics;

verus! {

/// Account types as the account table stores them.
#[derive(Clone, Copy, Debug, PartialEq, Eq, Structural)]
pub enum AccountTypeEnum {
    Asset,
    Liability,
    Equity,
    Income,
    Expense,
}

/// Record kinds as the record table stores them.
#[derive(Clone, Copy, Debug, PartialEq, Eq, Structural)]
pub enum RecordKindEnum {
    Transaction,
    Validation,
}

/// The account type a stored type stands for.
pub open spec fn type_of_enum(e: AccountTypeEnum) -> AccountType {
    match e {
        AccountTypeEnum::Asset => AccountType::Asset,
        AccountTypeEnum::Liability => AccountType::Liability,
        AccountTypeEnum::Equity => AccountType::Equity,
        AccountTypeEnum::Income => AccountType::Income,
        AccountTypeEnum::Expense => AccountType::Expense,
    }
}

/// The stored type of an account type.
pub open spec fn enum_of_type(t: AccountType) -> AccountTypeEnum {
    match t {
        AccountType::Asset => AccountTypeEnum::Asset,
        AccountType::Liability => AccountTypeEnum::Liability,
        AccountType::Equity => AccountTypeEnum::Equity,
        AccountType::Income => AccountTypeEnum::Income,
        AccountType::Expense => AccountTypeEnum::Expense,
    }
}

/// The account type a stored name stands for; an unknown name reads as
/// `Asset`, the default type.
pub open spec fn type_of_name(s: Seq<char>) -> AccountType {
    if s == "Asset"@ {
        AccountType::Asset
    } else if s == "Liability"@ {
        AccountType::Liability
    } else if s == "Equity"@ {
        AccountType::Equity
    } else if s == "Income"@ {
        AccountType::Income
    } else if s == "Expense"@ {
        AccountType::Expense
    } else {
        AccountType::Asset
    }
}

/// A pattern that matches every text containing `s`: `s` between two `%`.
pub open spec fn wildcard(s: Seq<char>) -> Seq<char> {
    seq!['%'] + s + seq!['%']
}

/// Puts a text between two `%`.
fn wildcard_of(s: &str) -> (r: String)
    ensures
        r@ == wildcard(s@),
{
    proof {
        reveal_strlit("%");
    }
    concat3("%", s, "%")
}

/// A comparison of a column, as stored, with a set of values.
pub open spec fn column_in(c: Column, v: Seq<SqlValueView>) -> ConditionView {
    single(ConditionType::Any, ConditionView::Filter(FilterView::In(Operand::Column(c), v)))
}

/// The ids of the rows whose side-table rows have one of the values.
pub open spec fn id_in_subquery(
    t: Table,
    owner: Column,
    o: Operand,
    v: Seq<SqlValueView>,
) -> ConditionView {
    single(
        ConditionType::Any,
        ConditionView::Filter(FilterView::InSubquery(Column::Id, t, owner, o, v)),
    )
}

/// A text search: the query, trimmed and lower-cased, occurs in one of two
/// lower-cased columns or in some lower-cased tag of the side table.
pub open spec fn text_search(a: Column, b: Column, t: Table, owner: Column, q: Seq<char>) -> ConditionView {
    let p = wildcard(query_key(q));
    ConditionView::Group(
        false,
        ConditionType::Any,
        seq![
            ConditionView::Filter(FilterView::Like(Operand::Lower(a), p)),
            ConditionView::Filter(FilterView::Like(Operand::Lower(b), p)),
            ConditionView::Filter(
                FilterView::LikeSubquery(Column::Id, t, owner, Operand::Lower(Column::Tag), p),
            ),
        ],
    )
}

/// Builds a text search.
fn text_search_of(a: Column, b: Column, t: Table, owner: Column, q: &str) -> (r: Condition)
    ensures
        cond_view(r) == text_search(a, b, t, owner, q@),
{
    let key = lower_trim(q);
    let p = wildcard_of(key.as_str());
    any_of_three(
        Filter::Like(Operand::Lower(a), p.clone()),
        Filter::Like(Operand::Lower(b), p.clone()),
        Filter::LikeSubquery(Column::Id, t, owner, Operand::Lower(Column::Tag), p),
    )
}

/// A search as the text is given: the query, lower-cased, occurs in one of
/// two lower-cased columns.
pub open spec fn lower_search(a: Column, b: Column, q: Seq<char>) -> ConditionView {
    let p = wildcard(spec_to_lowercase(q));
    ConditionView::Group(
        false,
        ConditionType::Any,
        seq![
            ConditionView::Filter(FilterView::Like(Operand::Lower(a), p)),
            ConditionView::Filter(FilterView::Like(Operand::Lower(b), p)),
        ],
    )
}

/// Builds a search on two lower-cased columns.
fn lower_search_of(a: Column, b: Column, q: &str) -> (r: Condition)
    ensures
        cond_view(r) == lower_search(a, b, q@),
{
    let key = to_lowercase(q);
    let p = wildcard_of(key.as_str());
    any_of_two(Filter::Like(Operand::Lower(a), p.clone()), Filter::Like(Operand::Lower(b), p))
}

/// The lower-cased column is one of the lower-cased values.
pub open spec fn lower_in(c: Column, v: Seq<Seq<char>>) -> ConditionView {
    single(
        ConditionType::Any,
        ConditionView::Filter(FilterView::In(Operand::Lower(c), texts(lowered(v)))),
    )
}

/// The query condition of one account condition: identifiers, journals and
/// parents by value; names and tags compared lower-cased; the full-text
/// query, lower-cased, searched in the lower-cased name and description;
/// archival by whether the archival time is set.
pub open spec fn account_leaf_query(spec: AccountSpecification) -> ConditionView {
    match spec {
        AccountSpecification::Id(ids) => column_in(Column::Id, texts(strs_view(ids@))),
        AccountSpecification::JournalId(ids) => column_in(
            Column::JournalId,
            texts(strs_view(ids@)),
        ),
        AccountSpecification::ParentId(ids) => column_in(Column::ParentId, texts(strs_view(ids@))),
        AccountSpecification::Name(names) => lower_in(Column::Name, strs_view(names@)),
        AccountSpecification::Type(types) => column_in(Column::Type, type_values(types@)),
        AccountSpecification::Tag(tags) => id_in_subquery(
            Table::AccountTag,
            Column::AccountId,
            Operand::Lower(Column::Tag),
            texts(lowered(strs_view(tags@))),
        ),
        AccountSpecification::FullText(q) => lower_search(Column::Name, Column::Description, q@),
        AccountSpecification::Archived(b) => single(
            ConditionType::All,
            ConditionView::Filter(
                if b {
                    FilterView::IsNotNull(Column::ArchivedAt)
                } else {
                    FilterView::IsNull(Column::ArchivedAt)
                },
            ),
        ),
    }
}

impl QueryLeaf for AccountSpecification {
    open spec fn spec_query(&self) -> ConditionView {
        account_leaf_query(*self)
    }

    fn to_condition(&self) -> (r: Condition) {
        SeaOrmAccountRepository.spec_leaf_to_condition(self)
    }
}

/// The query condition of one journal condition: identifiers by value;
/// names and tags compared lower-cased; the full-text query, lower-cased,
/// searched in the lower-cased name and description.
pub open spec fn journal_leaf_query(spec: JournalSpecification) -> ConditionView {
    match spec {
        JournalSpecification::Id(ids) => column_in(Column::Id, texts(strs_view(ids@))),
        JournalSpecification::Name(names) => lower_in(Column::Name, strs_view(names@)),
        JournalSpecification::Tag(tags) => id_in_subquery(
            Table::JournalTag,
            Column::JournalId,
            Operand::Lower(Column::Tag),
            texts(lowered(strs_view(tags@))),
        ),
        JournalSpecification::FullText(q) => lower_search(Column::Name, Column::Description, q@),
    }
}

impl QueryLeaf for JournalSpecification {
    open spec fn spec_query(&self) -> ConditionView {
        journal_leaf_query(*self)
    }

    fn to_condition(&self) -> (r: Condition) {
        SeaOrmJournalRepository.spec_leaf_to_condition(self)
    }
}

/// The stored kind of a record item kind.
pub open spec fn enum_of_kind(k: RecordItemKind) -> RecordKindEnum {
    match k {
        RecordItemKind::Transaction => RecordKindEnum::Transaction,
        RecordItemKind::Validation => RecordKindEnum::Validation,
    }
}

/// The query condition of one record condition: identifiers, journals and
/// dates by value; payees compared lower-cased; accounts through the item
/// table; tags, lower-cased, through the tag table; date bounds inclusive;
/// the item kind by the stored kind; the full-text query as a text search on
/// the description, the payee and the tags.
pub open spec fn record_leaf_query(spec: RecordSpecification) -> ConditionView {
    match spec {
        RecordSpecification::Id(ids) => column_in(Column::Id, texts(strs_view(ids@))),
        RecordSpecification::JournalId(ids) => column_in(Column::JournalId, texts(strs_view(ids@))),
        RecordSpecification::AccountId(ids) => id_in_subquery(
            Table::RecordItem,
            Column::RecordId,
            Operand::Column(Column::AccountId),
            texts(strs_view(ids@)),
        ),
        RecordSpecification::Date(ds) => column_in(Column::Date, dates(ds@)),
        RecordSpecification::DateFrom(d) => single(
            ConditionType::All,
            ConditionView::Filter(FilterView::Gte(Column::Date, SqlValueView::Date(d))),
        ),
        RecordSpecification::DateTo(d) => single(
            ConditionType::All,
            ConditionView::Filter(FilterView::Lte(Column::Date, SqlValueView::Date(d))),
        ),
        RecordSpecification::Payee(ps) => lower_in(Column::Payee, strs_view(ps@)),
        RecordSpecification::Tag(tags) => id_in_subquery(
            Table::RecordTag,
            Column::RecordId,
            Operand::Lower(Column::Tag),
            texts(lowered(strs_view(tags@))),
        ),
        RecordSpecification::ItemKind(k) => single(
            ConditionType::All,
            ConditionView::Filter(FilterView::Eq(Column::Kind, SqlValueView::Kind(enum_of_kind(k)))),
        ),
        RecordSpecification::FullText(q) => text_search(
            Column::Description,
            Column::Payee,
            Table::RecordTag,
            Column::RecordId,
            q@,
        ),
    }
}

impl QueryLeaf for RecordSpecification {
    open spec fn spec_query(&self) -> ConditionView {
        record_leaf_query(*self)
    }

    fn to_condition(&self) -> (r: Condition) {
        SeaOrmRecordRepository.spec_leaf_to_condition(self)
    }
}

/// The account repository backed by the SQL store.
pub struct SeaOrmAccountRepository;

impl SeaOrmAccountRepository {
    /// The query condition of one account condition.
    pub fn spec_leaf_to_condition(&self, spec: &AccountSpecification) -> (r: Condition)
        ensures
            cond_view(r) == account_leaf_query(*spec),
    {
        match spec {
            AccountSpecification::Id(ids) => group_of(
                ConditionType::Any,
                Filter::In(Operand::Column(Column::Id), text_values(ids)),
            ),
            AccountSpecification::JournalId(ids) => group_of(
                ConditionType::Any,
                Filter::In(Operand::Column(Column::JournalId), text_values(ids)),
            ),
            AccountSpecification::ParentId(ids) => group_of(
                ConditionType::Any,
                Filter::In(Operand::Column(Column::ParentId), text_values(ids)),
            ),
            AccountSpecification::Name(names) => group_of(
                ConditionType::Any,
                Filter::In(Operand::Lower(Column::Name), lower_text_values(names)),
            ),
            AccountSpecification::Type(types) => group_of(
                ConditionType::Any,
                Filter::In(Operand::Column(Column::Type), account_type_values(types)),
            ),
            AccountSpecification::Tag(tags) => group_of(
                ConditionType::Any,
                Filter::InSubquery(
                    Column::Id,
                    Table::AccountTag,
                    Column::AccountId,
                    Operand::Lower(Column::Tag),
                    lower_text_values(tags),
                ),
            ),
            AccountSpecification::FullText(q) => lower_search_of(
                Column::Name,
                Column::Description,
                q.as_str(),
            ),
            AccountSpecification::Archived(b) => if *b {
                group_of(ConditionType::All, Filter::IsNotNull(Column::ArchivedAt))
            } else {
                group_of(ConditionType::All, Filter::IsNull(Column::ArchivedAt))
            },
        }
    }

    /// The query condition of an account specification expression.
    pub fn spec_to_condition(&self, spec: &AccountSpec) -> (r: Condition)
        ensures
            cond_view(r) == query_of(*spec),
    {
        spec_to_condition(spec)
    }

    /// The columns that an update of an account row writes.
    pub fn updatable_columns(&self) -> (r: Vec<Column>)
        ensures
            r@ == seq![
                Column::Version,
                Column::CreatedAt,
                Column::LastModifiedAt,
                Column::ArchivedAt,
                Column::Name,
                Column::Description,
            ],
    {
        vec![
            Column::Version,
            Column::CreatedAt,
            Column::LastModifiedAt,
            Column::ArchivedAt,
            Column::Name,
            Column::Description,
        ]
    }

    /// The account type of a stored type.
    pub fn from_enum(e: &AccountTypeEnum) -> (r: AccountType)
        ensures
            r == type_of_enum(*e),
    {
        match e {
            AccountTypeEnum::Asset => AccountType::Asset,
            AccountTypeEnum::Liability => AccountType::Liability,
            AccountTypeEnum::Equity => AccountType::Equity,
            AccountTypeEnum::Income => AccountType::Income,
            AccountTypeEnum::Expense => AccountType::Expense,
        }
    }

    /// The stored type of an account type.
    pub fn to_enum(t: AccountType) -> (r: AccountTypeEnum)
        ensures
            r == enum_of_type(t),
    {
        match t {
            AccountType::Asset => AccountTypeEnum::Asset,
            AccountType::Liability => AccountTypeEnum::Liability,
            AccountType::Equity => AccountTypeEnum::Equity,
            AccountType::Income => AccountTypeEnum::Income,
            AccountType::Expense => AccountTypeEnum::Expense,
        }
    }
}

/// The journal repository backed by the SQL store.
pub struct SeaOrmJournalRepository;

impl SeaOrmJournalRepository {
    /// The query condition of one journal condition.
    pub fn spec_leaf_to_condition(&self, spec: &JournalSpecification) -> (r: Condition)
        ensures
            cond_view(r) == journal_leaf_query(*spec),
    {
        match spec {
            JournalSpecification::Id(ids) => group_of(
                ConditionType::Any,
                Filter::In(Operand::Column(Column::Id), text_values(ids)),
            ),
            JournalSpecification::Name(names) => group_of(
                ConditionType::Any,
                Filter::In(Operand::Lower(Column::Name), lower_text_values(names)),
            ),
            JournalSpecification::Tag(tags) => group_of(
                ConditionType::Any,
                Filter::InSubquery(
                    Column::Id,
                    Table::JournalTag,
                    Column::JournalId,
                    Operand::Lower(Column::Tag),
                    lower_text_values(tags),
                ),
            ),
            JournalSpecification::FullText(q) => lower_search_of(
                Column::Name,
                Column::Description,
                q.as_str(),
            ),
        }
    }

    /// The query condition of a journal specification expression.
    pub fn spec_to_condition(&self, spec: &JournalSpec) -> (r: Condition)
        ensures
            cond_view(r) == query_of(*spec),
    {
        spec_to_condition(spec)
    }
}

/// The record repository backed by the SQL store.
pub struct SeaOrmRecordRepository;

impl SeaOrmRecordRepository {
    /// The query condition of one record condition.
    pub fn spec_leaf_to_condition(&self, spec: &RecordSpecification) -> (r: Condition)
        ensures
            cond_view(r) == record_leaf_query(*spec),
    {
        match spec {
            RecordSpecification::Id(ids) => group_of(
                ConditionType::Any,
                Filter::In(Operand::Column(Column::Id), text_values(ids)),
            ),
            RecordSpecification::JournalId(ids) => group_of(
                ConditionType::Any,
                Filter::In(Operand::Column(Column::JournalId), text_values(ids)),
            ),
            RecordSpecification::AccountId(ids) => group_of(
                ConditionType::Any,
                Filter::InSubquery(
                    Column::Id,
                    Table::RecordItem,
                    Column::RecordId,
                    Operand::Column(Column::AccountId),
                    text_values(ids),
                ),
            ),
            RecordSpecification::Date(ds) => group_of(
                ConditionType::Any,
                Filter::In(Operand::Column(Column::Date), date_values(ds)),
            ),
            RecordSpecification::DateFrom(d) => group_of(
                ConditionType::All,
                Filter::Gte(Column::Date, SqlValue::Date(*d)),
            ),
            RecordSpecification::DateTo(d) => group_of(
                ConditionType::All,
                Filter::Lte(Column::Date, SqlValue::Date(*d)),
            ),
            RecordSpecification::Payee(ps) => group_of(
                ConditionType::Any,
                Filter::In(Operand::Lower(Column::Payee), lower_text_values(ps)),
            ),
            RecordSpecification::Tag(tags) => group_of(
                ConditionType::Any,
                Filter::InSubquery(
                    Column::Id,
                    Table::RecordTag,
                    Column::RecordId,
                    Operand::Lower(Column::Tag),
                    lower_text_values(tags),
                ),
            ),
            RecordSpecification::ItemKind(k) => group_of(
                ConditionType::All,
                Filter::Eq(Column::Kind, SqlValue::Kind(Self::to_kind_enum(*k))),
            ),
            RecordSpecification::FullText(q) => text_search_of(
                Column::Description,
                Column::Payee,
                Table::RecordTag,
                Column::RecordId,
                q.as_str(),
            ),
        }
    }

    /// The query condition of a record specification expression.
    pub fn spec_to_condition(&self, spec: &RecordSpec) -> (r: Condition)
        ensures
            cond_view(r) == query_of(*spec),
    {
        spec_to_condition(spec)
    }

    /// The columns that an update of a record row writes.
    pub fn updatable_columns(&self) -> (r: Vec<Column>)
        ensures
            r@ == seq![
                Column::Version,
                Column::CreatedAt,
                Column::LastModifiedAt,
                Column::Date,
                Column::Description,
                Column::Payee,
            ],
    {
        vec![
            Column::Version,
            Column::CreatedAt,
            Column::LastModifiedAt,
            Column::Date,
            Column::Description,
            Column::Payee,
        ]
    }

    /// The stored kind of a record item kind.
    pub fn to_kind_enum(kind: RecordItemKind) -> (r: RecordKindEnum)
        ensures
            r == enum_of_kind(kind),
    {
        match kind {
            RecordItemKind::Transaction => RecordKindEnum::Transaction,
            RecordItemKind::Validation => RecordKindEnum::Validation,
        }
    }

    /// The account type a stored name stands for; an unknown name reads as
    /// `Asset`.
    pub fn account_type_from_str(s: &str) -> (r: AccountType)
        ensures
            r == type_of_name(s@),
    {
        let c = chars_of(s);
        proof {
            reveal_strlit("Asset");
            reveal_strlit("Liability");
            reveal_strlit("Equity");
            reveal_strlit("Income");
            reveal_strlit("Expense");
        }
        if chars_equal(&c, &chars_of("Asset")) {
            AccountType::Asset
        } else if chars_equal(&c, &chars_of("Liability")) {
            AccountType::Liability
        } else if chars_equal(&c, &chars_of("Equity")) {
            AccountType::Equity
        } else if chars_equal(&c, &chars_of("Income")) {
            AccountType::Income
        } else if chars_equal(&c, &chars_of("Expense")) {
            AccountType::Expense
        } else {
            AccountType::Asset
        }
    }

    /// The name an account type is stored as.
    pub fn account_type_to_str(t: AccountType) -> (r: String)
        ensures
            r@ == account_type_name(t),
    {
        t.to_display_string()
    }
}

} // verus!
