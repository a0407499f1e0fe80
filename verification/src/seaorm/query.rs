//! Query conditions for the SQL store, as plain values: what a selection
//! of accounts, journals or records asks of the rows of their tables.
use vstd::prelude::*;
use crate::account::AccountType;
use crate::error::strs_view;
use crate::seaorm::{enum_of_type, AccountTypeEnum, RecordKindEnum, SeaOrmAccountRepository};
use crate::specification::SpecificationExpression;
use crate::text::{spec_to_lowercase, to_lowercase};

verus! {

/// The columns that conditions test, over all tables.
#[derive(Clone, Copy, Debug, PartialEq, Eq, Structural)]
pub enum Column {
    Id,
    Version,
    CreatedAt,
    LastModifiedAt,
    JournalId,
    ParentId,
    Name,
    Description,
    Type,
    ArchivedAt,
    Date,
    Payee,
    Kind,
    Tag,
    AccountId,
    RecordId,
}

/// The side tables that subqueries read.
#[derive(Clone, Copy, Debug, PartialEq, Eq, Structural)]
pub enum Table {
    AccountTag,
    JournalTag,
    RecordTag,
    RecordItem,
}

/// A column as it is compared: as stored, or lower-cased.
#[derive(Clone, Copy, Debug, PartialEq, Eq, Structural)]
pub enum Operand {
    Column(Column),
    Lower(Column),
}

/// A value a column is compared with.
#[derive(Debug)]
pub enum SqlValue {
    Text(String),
    /// A date, as days from the Common Era.
    Date(i32),
    AccountType(AccountTypeEnum),
    Kind(RecordKindEnum),
}

/// The mathematical form of a value.
pub enum SqlValueView {
    Text(Seq<char>),
    Date(i32),
    AccountType(AccountTypeEnum),
    Kind(RecordKindEnum),
}

impl View for SqlValue {
    type V = SqlValueView;

    open spec fn view(&self) -> SqlValueView {
        match self {
            SqlValue::Text(s) => SqlValueView::Text(s@),
            SqlValue::Date(d) => SqlValueView::Date(*d),
            SqlValue::AccountType(t) => SqlValueView::AccountType(*t),
            SqlValue::Kind(k) => SqlValueView::Kind(*k),
        }
    }
}

/// The views of a sequence of values.
pub open spec fn values_view(v: Seq<SqlValue>) -> Seq<SqlValueView> {
    v.map_values(|x: SqlValue| x@)
}

/// One comparison.
#[derive(Debug)]
pub enum Filter {
    /// The operand is one of the values.
    In(Operand, Vec<SqlValue>),
    /// The column is among the `select` column of the rows of the table
    /// whose operand is one of the values.
    InSubquery(Column, Table, Column, Operand, Vec<SqlValue>),
    /// The column is among the `select` column of the rows of the table
    /// whose operand matches the pattern, as SQL `LIKE` matches.
    LikeSubquery(Column, Table, Column, Operand, String),
    /// The operand matches the pattern, as SQL `LIKE` matches.
    Like(Operand, String),
    IsNull(Column),
    IsNotNull(Column),
    /// The column is at least the value.
    Gte(Column, SqlValue),
    /// The column is at most the value.
    Lte(Column, SqlValue),
    /// The column equals the value.
    Eq(Column, SqlValue),
}

/// The mathematical form of a comparison.
pub enum FilterView {
    In(Operand, Seq<SqlValueView>),
    InSubquery(Column, Table, Column, Operand, Seq<SqlValueView>),
    LikeSubquery(Column, Table, Column, Operand, Seq<char>),
    Like(Operand, Seq<char>),
    IsNull(Column),
    IsNotNull(Column),
    Gte(Column, SqlValueView),
    Lte(Column, SqlValueView),
    Eq(Column, SqlValueView),
}

impl View for Filter {
    type V = FilterView;

    open spec fn view(&self) -> FilterView {
        match self {
            Filter::In(o, v) => FilterView::In(*o, values_view(v@)),
            Filter::InSubquery(c, t, s, o, v) => FilterView::InSubquery(
                *c,
                *t,
                *s,
                *o,
                values_view(v@),
            ),
            Filter::LikeSubquery(c, t, s, o, p) => FilterView::LikeSubquery(*c, *t, *s, *o, p@),
            Filter::Like(o, p) => FilterView::Like(*o, p@),
            Filter::IsNull(c) => FilterView::IsNull(*c),
            Filter::IsNotNull(c) => FilterView::IsNotNull(*c),
            Filter::Gte(c, x) => FilterView::Gte(*c, x@),
            Filter::Lte(c, x) => FilterView::Lte(*c, x@),
            Filter::Eq(c, x) => FilterView::Eq(*c, x@),
        }
    }
}

/// How the members of a group combine.
#[derive(Clone, Copy, Debug, PartialEq, Eq, Structural)]
pub enum ConditionType {
    /// Every member holds (true when there is none).
    All,
    /// Some member holds (false when there is none).
    Any,
}

/// A condition: a group of conditions, negated or not, or one comparison.
#[derive(Debug)]
pub enum Condition {
    /// `negated`, how the members combine, and the members.
    Group(bool, ConditionType, Vec<Condition>),
    Filter(Filter),
}

/// The mathematical form of a condition.
pub enum ConditionView {
    Group(bool, ConditionType, Seq<ConditionView>),
    Filter(FilterView),
}

/// The mathematical form of a condition.
pub open spec fn cond_view(c: Condition) -> ConditionView
    decreases c, 0int,
{
    match c {
        Condition::Group(n, t, v) => ConditionView::Group(n, t, conds_view(v@)),
        Condition::Filter(f) => ConditionView::Filter(f@),
    }
}

/// The mathematical forms of a sequence of conditions.
pub open spec fn conds_view(v: Seq<Condition>) -> Seq<ConditionView>
    decreases v, v.len(),
{
    if v.len() == 0 {
        Seq::empty()
    } else {
        conds_view(v.subrange(0, v.len() - 1)).push(cond_view(v[v.len() - 1]))
    }
}

/// `conds_view` keeps the length and maps each member.
pub proof fn lemma_conds_view(v: Seq<Condition>)
    ensures
        conds_view(v).len() == v.len(),
        forall|k: int| 0 <= k < v.len() ==> conds_view(v)[k] == cond_view(#[trigger] v[k]),
    decreases v.len(),
{
    if v.len() > 0 {
        let p = v.subrange(0, v.len() - 1);
        lemma_conds_view(p);
        assert forall|k: int| 0 <= k < p.len() implies p[k] == v[k] by {}
    }
}

/// A group that holds when its single member does.
pub open spec fn single(t: ConditionType, c: ConditionView) -> ConditionView {
    ConditionView::Group(false, t, seq![c])
}

/// The negation of a condition: a group with its flag flipped; a lone
/// comparison is wrapped in a negated group.
pub open spec fn negated(c: ConditionView) -> ConditionView {
    match c {
        ConditionView::Group(n, t, v) => ConditionView::Group(!n, t, v),
        ConditionView::Filter(f) => ConditionView::Group(true, ConditionType::All, seq![c]),
    }
}

/// A leaf condition that knows the query condition it stands for.
pub trait QueryLeaf: Sized {
    /// The query condition of this leaf.
    spec fn spec_query(&self) -> ConditionView;

    /// Builds the query condition of this leaf.
    fn to_condition(&self) -> (r: Condition)
        ensures
            cond_view(r) == self.spec_query(),
    ;
}

/// The query condition of a specification expression: a leaf gives its
/// own condition; "all of" and "any of" give a group of the members'
/// conditions; "not" gives the negated condition inside an "all" group.
pub open spec fn query_of<S: QueryLeaf>(x: SpecificationExpression<S>) -> ConditionView
    decreases x, 0int,
{
    match x {
        SpecificationExpression::Leaf(l) => l.spec_query(),
        SpecificationExpression::All(v) => ConditionView::Group(
            false,
            ConditionType::All,
            queries_of(v@),
        ),
        SpecificationExpression::Any(v) => ConditionView::Group(
            false,
            ConditionType::Any,
            queries_of(v@),
        ),
        SpecificationExpression::Not(b) => single(ConditionType::All, negated(query_of(*b))),
    }
}

/// The query conditions of a sequence of expressions.
pub open spec fn queries_of<S: QueryLeaf>(v: Seq<SpecificationExpression<S>>) -> Seq<ConditionView>
    decreases v, v.len(),
{
    if v.len() == 0 {
        Seq::empty()
    } else {
        queries_of(v.subrange(0, v.len() - 1)).push(query_of(v[v.len() - 1]))
    }
}

/// `queries_of` keeps the length and maps each member.
pub proof fn lemma_queries_of<S: QueryLeaf>(v: Seq<SpecificationExpression<S>>)
    ensures
        queries_of(v).len() == v.len(),
        forall|k: int| 0 <= k < v.len() ==> queries_of(v)[k] == query_of(#[trigger] v[k]),
    decreases v.len(),
{
    if v.len() > 0 {
        let p = v.subrange(0, v.len() - 1);
        lemma_queries_of(p);
        assert forall|k: int| 0 <= k < p.len() implies p[k] == v[k] by {}
    }
}

/// Negates a condition, as `not` on a query condition does.
pub fn negate_condition(c: Condition) -> (r: Condition)
    ensures
        cond_view(r) == negated(cond_view(c)),
{
    match c {
        Condition::Group(n, t, v) => {
            let ghost members = conds_view(v@);
            let r = Condition::Group(!n, t, v);
            assert(cond_view(r) == ConditionView::Group(!n, t, members));
            r
        },
        Condition::Filter(f) => {
            let ghost fv = cond_view(c);
            let v = vec![Condition::Filter(f)];
            proof {
                lemma_conds_view(v@);
                assert(conds_view(v@) =~= seq![fv]);
            }
            Condition::Group(true, ConditionType::All, v)
        },
    }
}

/// Builds the query conditions of a sequence of expressions, in order.
fn members_to_conditions<S: QueryLeaf>(v: &Vec<SpecificationExpression<S>>) -> (r: Vec<Condition>)
    ensures
        conds_view(r@) == queries_of(v@),
    decreases v,
{
    let mut out: Vec<Condition> = Vec::new();
    let n = v.len();
    let mut i: usize = 0;
    while i < n
        invariant
            n == v@.len(),
            i <= n,
            out@.len() == i,
            forall|k: int| 0 <= k < i ==> cond_view(#[trigger] out@[k]) == query_of(v@[k]),
        decreases n - i,
    {
        proof {
            assert(decreases_to!(*v => v@));
            assert(decreases_to!(v@ => v@[i as int]));
        }
        let c = spec_to_condition(&v[i]);
        out.push(c);
        i = i + 1;
    }
    proof {
        lemma_conds_view(out@);
        lemma_queries_of(v@);
        assert forall|k: int| 0 <= k < n implies conds_view(out@)[k] == queries_of(v@)[k] by {
            assert(cond_view(out@[k]) == query_of(v@[k]));
        }
        assert(conds_view(out@) =~= queries_of(v@));
    }
    out
}

/// Builds the query condition of a specification expression.
pub fn spec_to_condition<S: QueryLeaf>(spec: &SpecificationExpression<S>) -> (r: Condition)
    ensures
        cond_view(r) == query_of(*spec),
    decreases spec,
{
    match spec {
        SpecificationExpression::Leaf(l) => l.to_condition(),
        SpecificationExpression::All(v) => {
            proof {
                assert(decreases_to!(*spec => *v));
            }
            Condition::Group(false, ConditionType::All, members_to_conditions(v))
        },
        SpecificationExpression::Any(v) => {
            proof {
                assert(decreases_to!(*spec => *v));
            }
            Condition::Group(false, ConditionType::Any, members_to_conditions(v))
        },
        SpecificationExpression::Not(b) => {
            let inner = negate_condition(spec_to_condition(b));
            let ghost iv = cond_view(inner);
            let v = vec![inner];
            proof {
                lemma_conds_view(v@);
                assert(conds_view(v@) =~= seq![iv]);
            }
            Condition::Group(false, ConditionType::All, v)
        },
    }
}

/// Text values, one per string, in order.
pub open spec fn texts(s: Seq<Seq<char>>) -> Seq<SqlValueView> {
    s.map_values(|x: Seq<char>| SqlValueView::Text(x))
}

/// The lower-cased strings, in order.
pub open spec fn lowered(s: Seq<Seq<char>>) -> Seq<Seq<char>> {
    s.map_values(|x: Seq<char>| spec_to_lowercase(x))
}

/// Date values, one per date, in order.
pub open spec fn dates(s: Seq<i32>) -> Seq<SqlValueView> {
    s.map_values(|d: i32| SqlValueView::Date(d))
}

/// Stored account types, one per type, in order.
pub open spec fn type_values(s: Seq<AccountType>) -> Seq<SqlValueView> {
    s.map_values(|t: AccountType| SqlValueView::AccountType(enum_of_type(t)))
}

/// The strings as text values.
pub fn text_values(v: &Vec<String>) -> (r: Vec<SqlValue>)
    ensures
        values_view(r@) == texts(strs_view(v@)),
{
    let mut r: Vec<SqlValue> = Vec::new();
    let n = v.len();
    let mut i: usize = 0;
    while i < n
        invariant
            n == v@.len(),
            i <= n,
            r@.len() == i,
            forall|k: int| 0 <= k < i ==> (#[trigger] r@[k])@ == SqlValueView::Text(v@[k]@),
        decreases n - i,
    {
        r.push(SqlValue::Text(v[i].clone()));
        i = i + 1;
    }
    assert(values_view(r@) =~= texts(strs_view(v@)));
    r
}

/// The lower-cased strings as text values.
pub fn lower_text_values(v: &Vec<String>) -> (r: Vec<SqlValue>)
    ensures
        values_view(r@) == texts(lowered(strs_view(v@))),
{
    let mut r: Vec<SqlValue> = Vec::new();
    let n = v.len();
    let mut i: usize = 0;
    while i < n
        invariant
            n == v@.len(),
            i <= n,
            r@.len() == i,
            forall|k: int|
                0 <= k < i ==> (#[trigger] r@[k])@ == SqlValueView::Text(
                    spec_to_lowercase(v@[k]@),
                ),
        decreases n - i,
    {
        r.push(SqlValue::Text(to_lowercase(v[i].as_str())));
        i = i + 1;
    }
    assert(values_view(r@) =~= texts(lowered(strs_view(v@))));
    r
}

/// The dates as date values.
pub fn date_values(v: &Vec<i32>) -> (r: Vec<SqlValue>)
    ensures
        values_view(r@) == dates(v@),
{
    let mut r: Vec<SqlValue> = Vec::new();
    let n = v.len();
    let mut i: usize = 0;
    while i < n
        invariant
            n == v@.len(),
            i <= n,
            r@.len() == i,
            forall|k: int| 0 <= k < i ==> (#[trigger] r@[k])@ == SqlValueView::Date(v@[k]),
        decreases n - i,
    {
        r.push(SqlValue::Date(v[i]));
        i = i + 1;
    }
    assert(values_view(r@) =~= dates(v@));
    r
}

/// The account types as stored type values.
pub fn account_type_values(v: &Vec<AccountType>) -> (r: Vec<SqlValue>)
    ensures
        values_view(r@) == type_values(v@),
{
    let mut r: Vec<SqlValue> = Vec::new();
    let n = v.len();
    let mut i: usize = 0;
    while i < n
        invariant
            n == v@.len(),
            i <= n,
            r@.len() == i,
            forall|k: int|
                0 <= k < i ==> (#[trigger] r@[k])@ == SqlValueView::AccountType(
                    enum_of_type(v@[k]),
                ),
        decreases n - i,
    {
        r.push(SqlValue::AccountType(SeaOrmAccountRepository::to_enum(v[i])));
        i = i + 1;
    }
    assert(values_view(r@) =~= type_values(v@));
    r
}

/// A group of one comparison.
pub fn group_of(t: ConditionType, f: Filter) -> (r: Condition)
    ensures
        cond_view(r) == single(t, ConditionView::Filter(f@)),
{
    let ghost fv = f@;
    let v = vec![Condition::Filter(f)];
    proof {
        lemma_conds_view(v@);
        assert(conds_view(v@) =~= seq![ConditionView::Filter(fv)]);
    }
    Condition::Group(false, t, v)
}

/// An "any" group of two comparisons.
pub fn any_of_two(f: Filter, g: Filter) -> (r: Condition)
    ensures
        cond_view(r) == ConditionView::Group(
            false,
            ConditionType::Any,
            seq![ConditionView::Filter(f@), ConditionView::Filter(g@)],
        ),
{
    let ghost fv = f@;
    let ghost gv = g@;
    let v = vec![Condition::Filter(f), Condition::Filter(g)];
    proof {
        lemma_conds_view(v@);
        assert(conds_view(v@) =~= seq![ConditionView::Filter(fv), ConditionView::Filter(gv)]);
    }
    Condition::Group(false, ConditionType::Any, v)
}

/// An "any" group of three comparisons.
pub fn any_of_three(f: Filter, g: Filter, h: Filter) -> (r: Condition)
    ensures
        cond_view(r) == ConditionView::Group(
            false,
            ConditionType::Any,
            seq![ConditionView::Filter(f@), ConditionView::Filter(g@), ConditionView::Filter(h@)],
        ),
{
    let ghost fv = f@;
    let ghost gv = g@;
    let ghost hv = h@;
    let v = vec![Condition::Filter(f), Condition::Filter(g), Condition::Filter(h)];
    proof {
        lemma_conds_view(v@);
        assert(conds_view(v@) =~= seq![
            ConditionView::Filter(fv),
            ConditionView::Filter(gv),
            ConditionView::Filter(hv),
        ]);
    }
    Condition::Group(false, ConditionType::Any, v)
}

} // verus!
