//! What a query condition selects, read over one row of a table and the
//! tag rows that belong to it: the SQL store's `lower` taken as
//! `to_lowercase`, `LIKE '%k%'` as "contains `k`" for a `k` that holds
//! neither `%` nor `_`, and a NULL column as one that no comparison finds.
use vstd::prelude::*;
use crate::account::{Account, AccountView};
use crate::account::specification::{account_leaf_matches, AccountSpecification};
use crate::common::{
    full_text_matches, str_set, any_lower_eq, any_name_matches, any_tag_contains, any_tag_in, any_tag_lower_in,
};
use crate::error::strs_view;
use crate::journal::{Journal, JournalView};
use crate::record::{Record, RecordView};
use crate::record::specification::{record_leaf_matches, RecordSpecification};
use crate::seaorm::record_rows::{record_row, RecordRowView};
use crate::journal::specification::{journal_leaf_matches, JournalSpecification};
use crate::seaorm::query::{
    dates, lemma_queries_of, lowered, negated, queries_of, query_of, single, texts, type_values,
    Column, ConditionType, ConditionView, FilterView, Operand, SqlValueView, Table,
};
use crate::seaorm::rows::{account_row, journal_row, AccountRowView, JournalRowView};
use crate::seaorm::{
    lower_search, account_leaf_query, enum_of_kind, enum_of_type, journal_leaf_query, record_leaf_query, wildcard,
};
use crate::specification::{eval, eval_all, eval_any, SpecificationExpression};
use crate::text::{query_key, spec_contains, spec_to_lowercase, spec_trim};

verus! {

/// The text holds no `LIKE` wildcard (`%` or `_`).
pub open spec fn wildcard_free(k: Seq<char>) -> bool {
    forall|i: int| 0 <= i < k.len() ==> k[i] != '%' && k[i] != '_'
}

/// `LIKE` with a pattern `%k%`, `k` free of wildcards: the text contains
/// `k`. Other patterns select nothing here.
pub open spec fn like_holds(pattern: Seq<char>, s: Seq<char>) -> bool {
    let k = pattern.subrange(1, pattern.len() - 1);
    &&& pattern.len() >= 2
    &&& pattern[0] == '%'
    &&& pattern[pattern.len() - 1] == '%'
    &&& wildcard_free(k)
    &&& spec_contains(s, k)
}

/// The column an operand reads.
pub open spec fn operand_column(o: Operand) -> Column {
    match o {
        Operand::Column(c) => c,
        Operand::Lower(c) => c,
    }
}

/// A text as the operand compares it.
pub open spec fn operand_text(o: Operand, v: Seq<char>) -> Seq<char> {
    match o {
        Operand::Column(_) => v,
        Operand::Lower(_) => spec_to_lowercase(v),
    }
}

/// A value as the operand compares it: `lower` changes texts only.
pub open spec fn operand_value(o: Operand, v: SqlValueView) -> SqlValueView {
    match v {
        SqlValueView::Text(s) => SqlValueView::Text(operand_text(o, s)),
        _ => v,
    }
}

/// One row as a query reads it: the values of its columns that queries
/// compare, the columns that are not NULL, the side table of its tags with
/// the column that names the owner, its tags, and the accounts of the item
/// rows that belong to it (a record's; other rows have none).
pub struct RowRead {
    pub values: Map<Column, SqlValueView>,
    pub set: Set<Column>,
    pub side: Table,
    pub owner: Column,
    pub tags: Seq<Seq<char>>,
    pub items: Seq<Seq<char>>,
}

/// The side rows that a subquery on table `t`, matched by column `s` and
/// reading column `c`, finds for a row: its tags, or its items' accounts.
pub open spec fn side_rows(r: RowRead, t: Table, s: Column, c: Column) -> Option<Seq<Seq<char>>> {
    if t == r.side && s == r.owner && c == Column::Tag {
        Some(r.tags)
    } else if t == Table::RecordItem && s == Column::RecordId && c == Column::AccountId {
        Some(r.items)
    } else {
        None
    }
}

/// Whether a comparison holds of a row.
pub open spec fn filter_holds(f: FilterView, r: RowRead) -> bool {
    match f {
        FilterView::In(o, vs) => r.values.contains_key(operand_column(o)) && vs.contains(
            operand_value(o, r.values[operand_column(o)]),
        ),
        FilterView::InSubquery(c, t, s, o, vs) => c == Column::Id && match side_rows(
            r,
            t,
            s,
            operand_column(o),
        ) {
            Some(rows) => exists|k: int|
                0 <= k < rows.len() && vs.contains(
                    SqlValueView::Text(operand_text(o, #[trigger] rows[k])),
                ),
            None => false,
        },
        FilterView::LikeSubquery(c, t, s, o, p) => c == Column::Id && t == r.side && s == r.owner
            && operand_column(o) == Column::Tag && exists|k: int|
            0 <= k < r.tags.len() && like_holds(p, operand_text(o, #[trigger] r.tags[k])),
        FilterView::Like(o, p) => r.values.contains_key(operand_column(o)) && match r.values[operand_column(o)] {
            SqlValueView::Text(s) => like_holds(p, operand_text(o, s)),
            _ => false,
        },
        FilterView::IsNull(c) => !r.set.contains(c),
        FilterView::IsNotNull(c) => r.set.contains(c),
        FilterView::Gte(c, SqlValueView::Date(d)) => r.values.contains_key(c) && match r.values[c] {
            SqlValueView::Date(x) => x >= d,
            _ => false,
        },
        FilterView::Lte(c, SqlValueView::Date(d)) => r.values.contains_key(c) && match r.values[c] {
            SqlValueView::Date(x) => x <= d,
            _ => false,
        },
        FilterView::Eq(c, v) => r.values.contains_key(c) && r.values[c] == v,
        _ => false,
    }
}

/// Whether a condition holds of a row.
pub open spec fn cond_holds(c: ConditionView, r: RowRead) -> bool
    decreases c, 0int,
{
    match c {
        ConditionView::Group(neg, t, v) => {
            let h = match t {
                ConditionType::All => all_hold(v, r),
                ConditionType::Any => any_holds(v, r),
            };
            if neg {
                !h
            } else {
                h
            }
        },
        ConditionView::Filter(f) => filter_holds(f, r),
    }
}

/// Every condition of the sequence holds.
pub open spec fn all_hold(v: Seq<ConditionView>, r: RowRead) -> bool
    decreases v, v.len(),
{
    if v.len() == 0 {
        true
    } else {
        cond_holds(v[v.len() - 1], r) && all_hold(v.subrange(0, v.len() - 1), r)
    }
}

/// Some condition of the sequence holds.
pub open spec fn any_holds(v: Seq<ConditionView>, r: RowRead) -> bool
    decreases v, v.len(),
{
    if v.len() == 0 {
        false
    } else {
        cond_holds(v[v.len() - 1], r) || any_holds(v.subrange(0, v.len() - 1), r)
    }
}

/// A journal's row as a query reads it, with `tl` listing its tags.
pub open spec fn journal_read(row: JournalRowView, tl: Seq<Seq<char>>) -> RowRead {
    let values = map![
        Column::Id => SqlValueView::Text(row.id),
        Column::Name => SqlValueView::Text(row.name),
        Column::Description => SqlValueView::Text(row.description),
    ];
    RowRead {
        values,
        set: if row.archived_at is Some {
            values.dom().insert(Column::ArchivedAt)
        } else {
            values.dom()
        },
        side: Table::JournalTag,
        owner: Column::JournalId,
        tags: tl,
        items: Seq::empty(),
    }
}

/// An account's row as a query reads it, with `tl` listing its tags.
pub open spec fn account_read(row: AccountRowView, tl: Seq<Seq<char>>) -> RowRead {
    let base = map![
        Column::Id => SqlValueView::Text(row.id),
        Column::JournalId => SqlValueView::Text(row.journal_id),
        Column::Name => SqlValueView::Text(row.name),
        Column::Description => SqlValueView::Text(row.description),
        Column::Type => SqlValueView::AccountType(row.account_type),
    ];
    let values = match row.parent_id {
        Some(p) => base.insert(Column::ParentId, SqlValueView::Text(p)),
        None => base,
    };
    RowRead {
        values,
        set: if row.archived_at is Some {
            values.dom().insert(Column::ArchivedAt)
        } else {
            values.dom()
        },
        side: Table::AccountTag,
        owner: Column::AccountId,
        tags: tl,
        items: Seq::empty(),
    }
}

/// A name condition on which the table and the specification agree: the
/// lower-cased name is not empty and the names hold no surrounding
/// whitespace (the specification trims them, the table does not).
pub open spec fn names_fit(names: Seq<String>, name: Seq<char>) -> bool {
    &&& spec_to_lowercase(name).len() > 0
    &&& forall|i: int| 0 <= i < names.len() ==> spec_trim(#[trigger] names[i]@) == names[i]@
}

/// A full-text query on which the table and the specification agree: it
/// holds no surrounding whitespace (the specification trims it), it holds
/// no `%` or `_` once lower-cased (`LIKE` reads them as wildcards), and
/// a tag that contains it is not the only place it occurs (the
/// specification searches the tags, the table does not).
pub open spec fn search_fits(
    q: Seq<char>,
    name: Seq<char>,
    description: Seq<char>,
    tags: Set<Seq<char>>,
) -> bool {
    let key = spec_to_lowercase(q);
    &&& spec_trim(q) == q
    &&& wildcard_free(key)
    &&& any_tag_contains(tags, key) ==> spec_contains(spec_to_lowercase(name), key)
        || spec_contains(spec_to_lowercase(description), key)
}

/// The journal conditions of the expression on which the table and the
/// specification agree: name conditions and full-text queries that fit
/// the journal (see `names_fit` and `search_fits`).
pub open spec fn journal_fits(x: SpecificationExpression<JournalSpecification>, j: JournalView) -> bool
    decreases x, 0int,
{
    match x {
        SpecificationExpression::Leaf(l) => match l {
            JournalSpecification::Name(names) => names_fit(names@, j.name),
            JournalSpecification::FullText(q) => search_fits(q@, j.name, j.description, j.tags),
            _ => true,
        },
        SpecificationExpression::All(v) => journal_all_fit(v@, j),
        SpecificationExpression::Any(v) => journal_all_fit(v@, j),
        SpecificationExpression::Not(b) => journal_fits(*b, j),
    }
}

/// Every expression of the sequence fits the journal.
pub open spec fn journal_all_fit(v: Seq<SpecificationExpression<JournalSpecification>>, j: JournalView) -> bool
    decreases v, v.len(),
{
    if v.len() == 0 {
        true
    } else {
        journal_fits(v[v.len() - 1], j) && journal_all_fit(v.subrange(0, v.len() - 1), j)
    }
}

/// The text is its own lower-cased form.
pub open spec fn is_lower(s: Seq<char>) -> bool {
    spec_to_lowercase(s) == s
}

/// The account conditions of the expression on which the table and the
/// specification agree: name conditions and full-text queries that fit the
/// account (see `names_fit` and `search_fits`); a tag condition whose
/// tags, and the account's tags, are lower-case (the table ignores case
/// there, the specification does not).
pub open spec fn account_fits(x: SpecificationExpression<AccountSpecification>, a: AccountView) -> bool
    decreases x, 0int,
{
    match x {
        SpecificationExpression::Leaf(l) => match l {
            AccountSpecification::Name(names) => names_fit(names@, a.name),
            AccountSpecification::Tag(tags) => {
                &&& forall|i: int| 0 <= i < tags@.len() ==> is_lower(#[trigger] tags@[i]@)
                &&& forall|t: Seq<char>| #[trigger] a.tags.contains(t) ==> is_lower(t)
            },
            AccountSpecification::FullText(q) => search_fits(q@, a.name, a.description, a.tags),
            _ => true,
        },
        SpecificationExpression::All(v) => account_all_fit(v@, a),
        SpecificationExpression::Any(v) => account_all_fit(v@, a),
        SpecificationExpression::Not(b) => account_fits(*b, a),
    }
}

/// Every expression of the sequence fits the account.
pub open spec fn account_all_fit(v: Seq<SpecificationExpression<AccountSpecification>>, a: AccountView) -> bool
    decreases v, v.len(),
{
    if v.len() == 0 {
        true
    } else {
        account_fits(v[v.len() - 1], a) && account_all_fit(v.subrange(0, v.len() - 1), a)
    }
}

/// A text value is among the text values of `s` exactly when the text is
/// among `s`.
proof fn lemma_texts_contains(s: Seq<Seq<char>>, x: Seq<char>)
    ensures
        texts(s).contains(SqlValueView::Text(x)) <==> s.contains(x),
{
    if s.contains(x) {
        let i = choose|i: int| 0 <= i < s.len() && s[i] == x;
        assert(texts(s)[i] == SqlValueView::Text(x));
    }
    if texts(s).contains(SqlValueView::Text(x)) {
        let i = choose|i: int| 0 <= i < texts(s).len() && texts(s)[i] == SqlValueView::Text(x);
        assert(s[i] == x);
    }
}

/// `LIKE '%k%'` holds of a text exactly when the text contains `k`.
proof fn lemma_like_wildcard(k: Seq<char>, s: Seq<char>)
    requires
        wildcard_free(k),
    ensures
        like_holds(wildcard(k), s) == spec_contains(s, k),
{
    let p = wildcard(k);
    assert(p.subrange(1, p.len() - 1) =~= k);
}

/// A one-member group holds exactly when its member does.
proof fn lemma_single(t: ConditionType, c: ConditionView, r: RowRead)
    ensures
        cond_holds(single(t, c), r) == cond_holds(c, r),
{
    let v = seq![c];
    assert(v.subrange(0, 0) =~= Seq::<ConditionView>::empty());
    reveal_with_fuel(all_hold, 2);
    reveal_with_fuel(any_holds, 2);
    assert(all_hold(v, r) == cond_holds(c, r));
    assert(any_holds(v, r) == cond_holds(c, r));
}

/// A subquery finds a row when one of the row's side rows, as the operand
/// compares it, is among the values.
proof fn lemma_subquery_finds(
    t: Table,
    s: Column,
    o: Operand,
    vs: Seq<SqlValueView>,
    r: RowRead,
    rows: Seq<Seq<char>>,
    k: int,
)
    requires
        side_rows(r, t, s, operand_column(o)) == Some(rows),
        0 <= k < rows.len(),
        vs.contains(SqlValueView::Text(operand_text(o, rows[k]))),
    ensures
        filter_holds(FilterView::InSubquery(Column::Id, t, s, o, vs), r),
{
    let found = side_rows(r, t, s, operand_column(o))->Some_0;
    assert(found[k] == rows[k]);
    assert(exists|j: int|
        0 <= j < found.len() && vs.contains(SqlValueView::Text(operand_text(o, #[trigger] found[j]))));
}

/// A listed tag is in the set of listed tags.
proof fn lemma_listed(tl: Seq<Seq<char>>, k: int)
    requires
        0 <= k < tl.len(),
    ensures
        tl.to_set().contains(tl[k]),
{
    assert(tl.contains(tl[k]));
}

/// A name condition that fits: some lower-cased name is the lower-cased
/// name exactly when some name, trimmed and lower-cased, is.
proof fn lemma_name_in(names: Seq<String>, name: Seq<char>)
    requires
        names_fit(names, name),
    ensures
        lowered(strs_view(names)).contains(spec_to_lowercase(name)) == any_name_matches(names, name),
{
    let lv = lowered(strs_view(names));
    let ln = spec_to_lowercase(name);
    if lv.contains(ln) {
        let i = choose|i: int| 0 <= i < lv.len() && lv[i] == ln;
        assert(spec_trim(names[i]@) == names[i]@);
        assert(query_key(names[i]@) == ln);
    }
    if any_name_matches(names, name) {
        let i = choose|i: int|
            0 <= i < names.len() && query_key(#[trigger] names[i]@).len() > 0 && query_key(names[i]@)
                == ln;
        assert(spec_trim(names[i]@) == names[i]@);
        assert(lv[i] == ln);
    }
}

/// A search on two lower-cased texts selects a row exactly when the
/// specification's full-text query matches, for a query that fits.
proof fn lemma_lower_search(
    a: Column,
    b: Column,
    q: Seq<char>,
    r: RowRead,
    ta: Seq<char>,
    tb: Seq<char>,
    tags: Set<Seq<char>>,
)
    requires
        search_fits(q, ta, tb, tags),
        r.values.contains_key(a),
        r.values[a] == SqlValueView::Text(ta),
        r.values.contains_key(b),
        r.values[b] == SqlValueView::Text(tb),
    ensures
        cond_holds(lower_search(a, b, q), r) == full_text_matches(q, ta, tb, tags),
{
    let key = spec_to_lowercase(q);
    let p = wildcard(key);
    let f1 = ConditionView::Filter(FilterView::Like(Operand::Lower(a), p));
    let f2 = ConditionView::Filter(FilterView::Like(Operand::Lower(b), p));
    let v = seq![f1, f2];
    assert(v.subrange(0, 1) =~= seq![f1]);
    assert(seq![f1].subrange(0, 0) =~= Seq::<ConditionView>::empty());
    reveal_with_fuel(any_holds, 3);
    assert(any_holds(v, r) == (cond_holds(f1, r) || cond_holds(f2, r)));
    lemma_like_wildcard(key, spec_to_lowercase(ta));
    lemma_like_wildcard(key, spec_to_lowercase(tb));
    assert(query_key(q) == key);
}

/// A text search selects a row exactly when the query, trimmed and
/// lower-cased, occurs in one of the two lower-cased texts or in some
/// lower-cased tag.
proof fn lemma_text_search(
    a: Column,
    b: Column,
    t: Table,
    owner: Column,
    q: Seq<char>,
    r: RowRead,
    ta: Seq<char>,
    tb: Seq<char>,
    tags: Set<Seq<char>>,
)
    requires
        wildcard_free(query_key(q)),
        r.values.contains_key(a),
        r.values[a] == SqlValueView::Text(ta),
        r.values.contains_key(b),
        r.values[b] == SqlValueView::Text(tb),
        r.side == t,
        r.owner == owner,
        r.tags.to_set() == tags,
    ensures
        cond_holds(crate::seaorm::text_search(a, b, t, owner, q), r) == (spec_contains(
            spec_to_lowercase(ta),
            query_key(q),
        ) || spec_contains(spec_to_lowercase(tb), query_key(q)) || any_tag_contains(
            tags,
            query_key(q),
        )),
{
    let key = query_key(q);
    let p = wildcard(key);
    let f1 = ConditionView::Filter(FilterView::Like(Operand::Lower(a), p));
    let f2 = ConditionView::Filter(FilterView::Like(Operand::Lower(b), p));
    let fl = FilterView::LikeSubquery(Column::Id, t, owner, Operand::Lower(Column::Tag), p);
    let f3 = ConditionView::Filter(fl);
    let v = seq![f1, f2, f3];
    assert(v.subrange(0, 2) =~= seq![f1, f2]);
    assert(seq![f1, f2].subrange(0, 1) =~= seq![f1]);
    assert(seq![f1].subrange(0, 0) =~= Seq::<ConditionView>::empty());
    reveal_with_fuel(any_holds, 4);
    assert(any_holds(v, r) == (cond_holds(f1, r) || cond_holds(f2, r) || cond_holds(f3, r)));
    lemma_like_wildcard(key, spec_to_lowercase(ta));
    lemma_like_wildcard(key, spec_to_lowercase(tb));
    assert(cond_holds(f1, r) == spec_contains(spec_to_lowercase(ta), key));
    assert(cond_holds(f2, r) == spec_contains(spec_to_lowercase(tb), key));
    if filter_holds(fl, r) {
        let k = choose|k: int|
            0 <= k < r.tags.len() && like_holds(p, spec_to_lowercase(#[trigger] r.tags[k]));
        lemma_like_wildcard(key, spec_to_lowercase(r.tags[k]));
        lemma_listed(r.tags, k);
        assert(any_tag_contains(tags, key));
    }
    if any_tag_contains(tags, key) {
        let tg = choose|tg: Seq<char>|
            #[trigger] tags.contains(tg) && spec_contains(spec_to_lowercase(tg), key);
        assert(r.tags.contains(tg));
        let k = choose|k: int| 0 <= k < r.tags.len() && r.tags[k] == tg;
        lemma_like_wildcard(key, spec_to_lowercase(r.tags[k]));
        assert(filter_holds(fl, r));
    }
    assert(cond_holds(f3, r) == any_tag_contains(tags, key));
}

/// The query condition of one journal condition selects the journal's row
/// exactly when the journal satisfies the condition.
proof fn lemma_journal_leaf(l: JournalSpecification, jv: JournalView, tl: Seq<Seq<char>>)
    requires
        tl.to_set() == jv.tags,
        journal_fits(SpecificationExpression::Leaf(l), jv),
    ensures
        cond_holds(journal_leaf_query(l), journal_read(journal_row(jv), tl)) == journal_leaf_matches(
            l,
            jv,
        ),
        journal_leaf_query(l) is Group,
{
    let r = journal_read(journal_row(jv), tl);
    match l {
        JournalSpecification::Id(ids) => {
            let f = ConditionView::Filter(
                FilterView::In(Operand::Column(Column::Id), texts(strs_view(ids@))),
            );
            lemma_single(ConditionType::Any, f, r);
            lemma_texts_contains(strs_view(ids@), jv.id);
        },
        JournalSpecification::Name(names) => {
            let f = ConditionView::Filter(
                FilterView::In(Operand::Lower(Column::Name), texts(lowered(strs_view(names@)))),
            );
            lemma_single(ConditionType::Any, f, r);
            lemma_texts_contains(lowered(strs_view(names@)), spec_to_lowercase(jv.name));
            lemma_name_in(names@, jv.name);
        },
        JournalSpecification::Tag(tags) => {
            let lv = lowered(strs_view(tags@));
            let fl = FilterView::InSubquery(
                Column::Id,
                Table::JournalTag,
                Column::JournalId,
                Operand::Lower(Column::Tag),
                texts(lv),
            );
            lemma_single(ConditionType::Any, ConditionView::Filter(fl), r);
            assert(side_rows(r, Table::JournalTag, Column::JournalId, Column::Tag) == Some(tl));
            if filter_holds(fl, r) {
                let k = choose|k: int|
                    0 <= k < tl.len() && texts(lv).contains(
                        SqlValueView::Text(spec_to_lowercase(#[trigger] tl[k])),
                    );
                lemma_texts_contains(lv, spec_to_lowercase(tl[k]));
                let i = choose|i: int| 0 <= i < lv.len() && lv[i] == spec_to_lowercase(tl[k]);
                assert(spec_to_lowercase(tags@[i]@) == spec_to_lowercase(tl[k]));
                lemma_listed(tl, k);
                assert(any_lower_eq(tags@, tl[k]));
                assert(any_tag_lower_in(jv.tags, tags@));
            }
            if any_tag_lower_in(jv.tags, tags@) {
                let t = choose|t: Seq<char>| #[trigger] jv.tags.contains(t) && any_lower_eq(tags@, t);
                assert(tl.contains(t));
                let k = choose|k: int| 0 <= k < tl.len() && tl[k] == t;
                let i = choose|i: int|
                    0 <= i < tags@.len() && spec_to_lowercase(#[trigger] tags@[i]@)
                        == spec_to_lowercase(t);
                assert(lv[i] == spec_to_lowercase(tl[k]));
                lemma_texts_contains(lv, spec_to_lowercase(tl[k]));
                lemma_subquery_finds(
                    fl->InSubquery_1,
                    fl->InSubquery_2,
                    fl->InSubquery_3,
                    texts(lv),
                    r,
                    tl,
                    k,
                );
            }
        },
        JournalSpecification::FullText(q) => {
            lemma_lower_search(
                Column::Name,
                Column::Description,
                q@,
                r,
                jv.name,
                jv.description,
                jv.tags,
            );
        },
    }
}

/// The query condition of one account condition selects the account's row
/// exactly when the account satisfies the condition.
proof fn lemma_account_leaf(l: AccountSpecification, av: AccountView, tl: Seq<Seq<char>>)
    requires
        tl.to_set() == av.tags,
        account_fits(SpecificationExpression::Leaf(l), av),
    ensures
        cond_holds(account_leaf_query(l), account_read(account_row(av), tl)) == account_leaf_matches(
            l,
            av,
        ),
        account_leaf_query(l) is Group,
{
    let row = account_row(av);
    let r = account_read(row, tl);
    match l {
        AccountSpecification::Id(ids) => {
            let f = ConditionView::Filter(
                FilterView::In(Operand::Column(Column::Id), texts(strs_view(ids@))),
            );
            lemma_single(ConditionType::Any, f, r);
            lemma_texts_contains(strs_view(ids@), av.id);
        },
        AccountSpecification::JournalId(ids) => {
            let f = ConditionView::Filter(
                FilterView::In(Operand::Column(Column::JournalId), texts(strs_view(ids@))),
            );
            lemma_single(ConditionType::Any, f, r);
            lemma_texts_contains(strs_view(ids@), av.journal_id);
        },
        AccountSpecification::ParentId(ids) => {
            let f = ConditionView::Filter(
                FilterView::In(Operand::Column(Column::ParentId), texts(strs_view(ids@))),
            );
            lemma_single(ConditionType::Any, f, r);
            if let Some(p) = av.parent_id {
                lemma_texts_contains(strs_view(ids@), p);
            }
        },
        AccountSpecification::Name(names) => {
            let f = ConditionView::Filter(
                FilterView::In(Operand::Lower(Column::Name), texts(lowered(strs_view(names@)))),
            );
            lemma_single(ConditionType::Any, f, r);
            lemma_texts_contains(lowered(strs_view(names@)), spec_to_lowercase(av.name));
            lemma_name_in(names@, av.name);
        },
        AccountSpecification::Type(types) => {
            let f = ConditionView::Filter(
                FilterView::In(Operand::Column(Column::Type), type_values(types@)),
            );
            lemma_single(ConditionType::Any, f, r);
            let tv = SqlValueView::AccountType(enum_of_type(av.account_type));
            if types@.contains(av.account_type) {
                let i = choose|i: int| 0 <= i < types@.len() && types@[i] == av.account_type;
                assert(type_values(types@)[i] == tv);
            }
            if type_values(types@).contains(tv) {
                let i = choose|i: int| 0 <= i < type_values(types@).len() && type_values(types@)[i] == tv;
                assert(types@[i] == av.account_type);
            }
        },
        AccountSpecification::Tag(tags) => {
            let sv = strs_view(tags@);
            let lv = lowered(sv);
            let fl = FilterView::InSubquery(
                Column::Id,
                Table::AccountTag,
                Column::AccountId,
                Operand::Lower(Column::Tag),
                texts(lv),
            );
            lemma_single(ConditionType::Any, ConditionView::Filter(fl), r);
            assert(side_rows(r, Table::AccountTag, Column::AccountId, Column::Tag) == Some(tl));
            if filter_holds(fl, r) {
                let k = choose|k: int|
                    0 <= k < tl.len() && texts(lv).contains(
                        SqlValueView::Text(spec_to_lowercase(#[trigger] tl[k])),
                    );
                lemma_texts_contains(lv, spec_to_lowercase(tl[k]));
                let i = choose|i: int| 0 <= i < lv.len() && lv[i] == spec_to_lowercase(tl[k]);
                lemma_listed(tl, k);
                assert(is_lower(tags@[i]@));
                assert(is_lower(tl[k]));
                assert(sv[i] == tl[k]);
                assert(sv.contains(tl[k]));
                assert(any_tag_in(av.tags, sv.to_set()));
            }
            if any_tag_in(av.tags, sv.to_set()) {
                let t = choose|t: Seq<char>| #[trigger] av.tags.contains(t) && sv.to_set().contains(t);
                assert(tl.contains(t));
                let k = choose|k: int| 0 <= k < tl.len() && tl[k] == t;
                let i = choose|i: int| 0 <= i < sv.len() && sv[i] == t;
                assert(lv[i] == spec_to_lowercase(tl[k]));
                lemma_texts_contains(lv, spec_to_lowercase(tl[k]));
                lemma_subquery_finds(
                    fl->InSubquery_1,
                    fl->InSubquery_2,
                    fl->InSubquery_3,
                    texts(lv),
                    r,
                    tl,
                    k,
                );
            }
        },
        AccountSpecification::FullText(q) => {
            lemma_lower_search(
                Column::Name,
                Column::Description,
                q@,
                r,
                av.name,
                av.description,
                av.tags,
            );
        },
        AccountSpecification::Archived(b) => {
            let f = ConditionView::Filter(
                if b {
                    FilterView::IsNotNull(Column::ArchivedAt)
                } else {
                    FilterView::IsNull(Column::ArchivedAt)
                },
            );
            lemma_single(ConditionType::All, f, r);
            assert(!r.values.dom().contains(Column::ArchivedAt));
        },
    }
}

/// The query condition of a journal specification selects the journal's
/// row, read with the journal's tag rows, exactly when the journal
/// satisfies the specification; that is, the table finds what the
/// specification matches. It holds wherever the conditions fit the
/// journal (see `journal_fits`).
pub proof fn law_journal_query_selects_matches(
    x: SpecificationExpression<JournalSpecification>,
    jv: JournalView,
    tl: Seq<Seq<char>>,
)
    requires
        tl.to_set() == jv.tags,
        journal_fits(x, jv),
    ensures
        cond_holds(query_of(x), journal_read(journal_row(jv), tl)) == eval::<JournalSpecification, Journal>(x, jv),
        query_of(x) is Group,
    decreases x, 0int,
{
    let r = journal_read(journal_row(jv), tl);
    match x {
        SpecificationExpression::Leaf(l) => {
            lemma_journal_leaf(l, jv, tl);
        },
        SpecificationExpression::All(v) => {
            lemma_journal_members(v@, jv, tl);
        },
        SpecificationExpression::Any(v) => {
            lemma_journal_members(v@, jv, tl);
        },
        SpecificationExpression::Not(b) => {
            law_journal_query_selects_matches(*b, jv, tl);
            let inner = query_of(*b);
            assert(cond_holds(negated(inner), r) == !cond_holds(inner, r));
            lemma_single(ConditionType::All, negated(inner), r);
        },
    }
}

/// The members' query conditions, all together or any one of them, select
/// the journal's row exactly when the journal satisfies all, or some, of the
/// members.
proof fn lemma_journal_members(
    v: Seq<SpecificationExpression<JournalSpecification>>,
    jv: JournalView,
    tl: Seq<Seq<char>>,
)
    requires
        tl.to_set() == jv.tags,
        journal_all_fit(v, jv),
    ensures
        all_hold(queries_of(v), journal_read(journal_row(jv), tl)) == eval_all::<JournalSpecification, Journal>(v, jv),
        any_holds(queries_of(v), journal_read(journal_row(jv), tl)) == eval_any::<JournalSpecification, Journal>(v, jv),
    decreases v, v.len(),
{
    if v.len() > 0 {
        let p = v.subrange(0, v.len() - 1);
        lemma_journal_members(p, jv, tl);
        law_journal_query_selects_matches(v[v.len() - 1], jv, tl);
        lemma_queries_of(v);
        let q = queries_of(v);
        assert(q.subrange(0, q.len() - 1) =~= queries_of(p));
    }
}

/// The query condition of an account specification selects the account's
/// row, read with the account's tag rows, exactly when the account
/// satisfies the specification; that is, the table finds what the
/// specification matches. It holds wherever the conditions fit the
/// account (see `account_fits`).
pub proof fn law_account_query_selects_matches(
    x: SpecificationExpression<AccountSpecification>,
    av: AccountView,
    tl: Seq<Seq<char>>,
)
    requires
        tl.to_set() == av.tags,
        account_fits(x, av),
    ensures
        cond_holds(query_of(x), account_read(account_row(av), tl)) == eval::<AccountSpecification, Account>(x, av),
        query_of(x) is Group,
    decreases x, 0int,
{
    let r = account_read(account_row(av), tl);
    match x {
        SpecificationExpression::Leaf(l) => {
            lemma_account_leaf(l, av, tl);
        },
        SpecificationExpression::All(v) => {
            lemma_account_members(v@, av, tl);
        },
        SpecificationExpression::Any(v) => {
            lemma_account_members(v@, av, tl);
        },
        SpecificationExpression::Not(b) => {
            law_account_query_selects_matches(*b, av, tl);
            let inner = query_of(*b);
            assert(cond_holds(negated(inner), r) == !cond_holds(inner, r));
            lemma_single(ConditionType::All, negated(inner), r);
        },
    }
}

/// The members' query conditions, all together or any one of them, select
/// the account's row exactly when the account satisfies all, or some, of the
/// members.
proof fn lemma_account_members(
    v: Seq<SpecificationExpression<AccountSpecification>>,
    av: AccountView,
    tl: Seq<Seq<char>>,
)
    requires
        tl.to_set() == av.tags,
        account_all_fit(v, av),
    ensures
        all_hold(queries_of(v), account_read(account_row(av), tl)) == eval_all::<AccountSpecification, Account>(v, av),
        any_holds(queries_of(v), account_read(account_row(av), tl)) == eval_any::<AccountSpecification, Account>(v, av),
    decreases v, v.len(),
{
    if v.len() > 0 {
        let p = v.subrange(0, v.len() - 1);
        lemma_account_members(p, av, tl);
        law_account_query_selects_matches(v[v.len() - 1], av, tl);
        lemma_queries_of(v);
        let q = queries_of(v);
        assert(q.subrange(0, q.len() - 1) =~= queries_of(p));
    }
}

/// A record's row as a query reads it, with `tl` listing its tags and
/// `items` the accounts of its item rows.
pub open spec fn record_read(row: RecordRowView, tl: Seq<Seq<char>>, items: Seq<Seq<char>>) -> RowRead {
    let values = map![
        Column::Id => SqlValueView::Text(row.id),
        Column::JournalId => SqlValueView::Text(row.journal_id),
        Column::Date => SqlValueView::Date(row.date),
        Column::Kind => SqlValueView::Kind(row.kind),
        Column::Description => SqlValueView::Text(row.description),
        Column::Payee => SqlValueView::Text(row.payee),
    ];
    RowRead {
        values,
        set: values.dom(),
        side: Table::RecordTag,
        owner: Column::RecordId,
        tags: tl,
        items,
    }
}

/// The record conditions of the expression on which the table and the
/// specification agree: every full-text query is free of `%` and `_` once
/// trimmed and lower-cased.
pub open spec fn record_fits(x: SpecificationExpression<RecordSpecification>) -> bool
    decreases x, 0int,
{
    match x {
        SpecificationExpression::Leaf(l) => match l {
            RecordSpecification::FullText(q) => wildcard_free(query_key(q@)),
            _ => true,
        },
        SpecificationExpression::All(v) => record_all_fit(v@),
        SpecificationExpression::Any(v) => record_all_fit(v@),
        SpecificationExpression::Not(b) => record_fits(*b),
    }
}

/// Every expression of the sequence fits.
pub open spec fn record_all_fit(v: Seq<SpecificationExpression<RecordSpecification>>) -> bool
    decreases v, v.len(),
{
    if v.len() == 0 {
        true
    } else {
        record_fits(v[v.len() - 1]) && record_all_fit(v.subrange(0, v.len() - 1))
    }
}

/// The query condition of one record condition selects the record's row
/// exactly when the record satisfies the condition.
proof fn lemma_record_leaf(l: RecordSpecification, rv: RecordView, tl: Seq<Seq<char>>)
    requires
        tl.to_set() == rv.tags,
        record_fits(SpecificationExpression::Leaf(l)),
    ensures
        cond_holds(
            record_leaf_query(l),
            record_read(record_row(rv), tl, rv.items.account_ids()),
        ) == record_leaf_matches(l, rv),
        record_leaf_query(l) is Group,
{
    let items = rv.items.account_ids();
    let r = record_read(record_row(rv), tl, items);
    match l {
        RecordSpecification::Id(ids) => {
            let f = ConditionView::Filter(
                FilterView::In(Operand::Column(Column::Id), texts(strs_view(ids@))),
            );
            lemma_single(ConditionType::Any, f, r);
            lemma_texts_contains(strs_view(ids@), rv.id);
        },
        RecordSpecification::JournalId(ids) => {
            let f = ConditionView::Filter(
                FilterView::In(Operand::Column(Column::JournalId), texts(strs_view(ids@))),
            );
            lemma_single(ConditionType::Any, f, r);
            lemma_texts_contains(strs_view(ids@), rv.journal_id);
        },
        RecordSpecification::AccountId(ids) => {
            let sv = strs_view(ids@);
            let o = Operand::Column(Column::AccountId);
            let fl = FilterView::InSubquery(Column::Id, Table::RecordItem, Column::RecordId, o, texts(sv));
            lemma_single(ConditionType::Any, ConditionView::Filter(fl), r);
            assert(side_rows(r, Table::RecordItem, Column::RecordId, Column::AccountId) == Some(items));
            if filter_holds(fl, r) {
                let k = choose|k: int|
                    0 <= k < items.len() && texts(sv).contains(
                        SqlValueView::Text(operand_text(o, #[trigger] items[k])),
                    );
                lemma_texts_contains(sv, items[k]);
                assert(str_set(ids@).contains(items[k]));
            }
            if record_leaf_matches(l, rv) {
                let k = choose|k: int|
                    0 <= k < items.len() && str_set(ids@).contains(#[trigger] items[k]);
                lemma_texts_contains(sv, items[k]);
                lemma_subquery_finds(Table::RecordItem, Column::RecordId, o, texts(sv), r, items, k);
            }
        },
        RecordSpecification::Date(ds) => {
            let f = ConditionView::Filter(
                FilterView::In(Operand::Column(Column::Date), dates(ds@)),
            );
            lemma_single(ConditionType::Any, f, r);
            let dv = SqlValueView::Date(rv.date);
            if ds@.contains(rv.date) {
                let i = choose|i: int| 0 <= i < ds@.len() && ds@[i] == rv.date;
                assert(dates(ds@)[i] == dv);
            }
            if dates(ds@).contains(dv) {
                let i = choose|i: int| 0 <= i < dates(ds@).len() && dates(ds@)[i] == dv;
                assert(ds@[i] == rv.date);
            }
        },
        RecordSpecification::DateFrom(d) => {
            let f = ConditionView::Filter(FilterView::Gte(Column::Date, SqlValueView::Date(d)));
            lemma_single(ConditionType::All, f, r);
        },
        RecordSpecification::DateTo(d) => {
            let f = ConditionView::Filter(FilterView::Lte(Column::Date, SqlValueView::Date(d)));
            lemma_single(ConditionType::All, f, r);
        },
        RecordSpecification::Payee(ps) => {
            let lv = lowered(strs_view(ps@));
            let lp = spec_to_lowercase(rv.payee);
            let f = ConditionView::Filter(FilterView::In(Operand::Lower(Column::Payee), texts(lv)));
            lemma_single(ConditionType::Any, f, r);
            lemma_texts_contains(lv, lp);
            if lv.contains(lp) {
                let i = choose|i: int| 0 <= i < lv.len() && lv[i] == lp;
                assert(spec_to_lowercase(ps@[i]@) == lp);
                assert(any_lower_eq(ps@, rv.payee));
            }
            if any_lower_eq(ps@, rv.payee) {
                let i = choose|i: int|
                    0 <= i < ps@.len() && spec_to_lowercase(#[trigger] ps@[i]@) == lp;
                assert(lv[i] == lp);
            }
        },
        RecordSpecification::Tag(tags) => {
            let lv = lowered(strs_view(tags@));
            let o = Operand::Lower(Column::Tag);
            let fl = FilterView::InSubquery(Column::Id, Table::RecordTag, Column::RecordId, o, texts(lv));
            lemma_single(ConditionType::Any, ConditionView::Filter(fl), r);
            assert(side_rows(r, Table::RecordTag, Column::RecordId, Column::Tag) == Some(tl));
            if filter_holds(fl, r) {
                let k = choose|k: int|
                    0 <= k < tl.len() && texts(lv).contains(
                        SqlValueView::Text(operand_text(o, #[trigger] tl[k])),
                    );
                lemma_texts_contains(lv, spec_to_lowercase(tl[k]));
                let i = choose|i: int| 0 <= i < lv.len() && lv[i] == spec_to_lowercase(tl[k]);
                assert(spec_to_lowercase(tags@[i]@) == spec_to_lowercase(tl[k]));
                lemma_listed(tl, k);
                assert(any_lower_eq(tags@, tl[k]));
                assert(any_tag_lower_in(rv.tags, tags@));
            }
            if any_tag_lower_in(rv.tags, tags@) {
                let t = choose|t: Seq<char>| #[trigger] rv.tags.contains(t) && any_lower_eq(tags@, t);
                assert(tl.contains(t));
                let k = choose|k: int| 0 <= k < tl.len() && tl[k] == t;
                let i = choose|i: int|
                    0 <= i < tags@.len() && spec_to_lowercase(#[trigger] tags@[i]@)
                        == spec_to_lowercase(t);
                assert(lv[i] == spec_to_lowercase(tl[k]));
                lemma_texts_contains(lv, spec_to_lowercase(tl[k]));
                lemma_subquery_finds(Table::RecordTag, Column::RecordId, o, texts(lv), r, tl, k);
            }
        },
        RecordSpecification::ItemKind(k) => {
            let f = ConditionView::Filter(
                FilterView::Eq(Column::Kind, SqlValueView::Kind(enum_of_kind(k))),
            );
            lemma_single(ConditionType::All, f, r);
        },
        RecordSpecification::FullText(q) => {
            lemma_text_search(
                Column::Description,
                Column::Payee,
                Table::RecordTag,
                Column::RecordId,
                q@,
                r,
                rv.description,
                rv.payee,
                rv.tags,
            );
        },
    }
}

/// The query condition of a record specification selects the record's row,
/// read with the record's tag rows and item rows, exactly when the record
/// satisfies the specification; that is, the table finds what the
/// specification matches. It holds wherever every full-text query is free
/// of `%` and `_` (see `record_fits`).
pub proof fn law_record_query_selects_matches(
    x: SpecificationExpression<RecordSpecification>,
    rv: RecordView,
    tl: Seq<Seq<char>>,
)
    requires
        tl.to_set() == rv.tags,
        record_fits(x),
    ensures
        cond_holds(query_of(x), record_read(record_row(rv), tl, rv.items.account_ids()))
            == eval::<RecordSpecification, Record>(x, rv),
        query_of(x) is Group,
    decreases x, 0int,
{
    let r = record_read(record_row(rv), tl, rv.items.account_ids());
    match x {
        SpecificationExpression::Leaf(l) => {
            lemma_record_leaf(l, rv, tl);
        },
        SpecificationExpression::All(v) => {
            lemma_record_members(v@, rv, tl);
        },
        SpecificationExpression::Any(v) => {
            lemma_record_members(v@, rv, tl);
        },
        SpecificationExpression::Not(b) => {
            law_record_query_selects_matches(*b, rv, tl);
            let inner = query_of(*b);
            assert(cond_holds(negated(inner), r) == !cond_holds(inner, r));
            lemma_single(ConditionType::All, negated(inner), r);
        },
    }
}

/// The members' query conditions, all together or any one of them, select
/// the record's row exactly when the record satisfies all, or some, of the
/// members.
proof fn lemma_record_members(
    v: Seq<SpecificationExpression<RecordSpecification>>,
    rv: RecordView,
    tl: Seq<Seq<char>>,
)
    requires
        tl.to_set() == rv.tags,
        record_all_fit(v),
    ensures
        all_hold(queries_of(v), record_read(record_row(rv), tl, rv.items.account_ids()))
            == eval_all::<RecordSpecification, Record>(v, rv),
        any_holds(queries_of(v), record_read(record_row(rv), tl, rv.items.account_ids()))
            == eval_any::<RecordSpecification, Record>(v, rv),
    decreases v, v.len(),
{
    if v.len() > 0 {
        let p = v.subrange(0, v.len() - 1);
        lemma_record_members(p, rv, tl);
        law_record_query_selects_matches(v[v.len() - 1], rv, tl);
        lemma_queries_of(v);
        let q = queries_of(v);
        assert(q.subrange(0, q.len() - 1) =~= queries_of(p));
    }
}

} // verus!
