//! Parsing record inputs: amounts written as `"<number> <unit>"`, cost
//! annotations, items and whole records.
use vstd::prelude::*;
use crate::account::AccountType;
use crate::common::{collect_tags, tag_set_of};
use crate::decimal::{
    decimal_eq, decimal_parse, decimal_to_string, from_parts, same_value, spec_decimal_parse,
    spec_decimal_to_string,
};
use crate::error::{
    err_view, shared_err, Error, ErrorKindView, ErrorView, SharedErrorKind, SharedErrorKindView,
};
use crate::record::{
    amount_resource, costs_view, record_resource, txns_view, vals_view, Amount, AmountView, Cost,
    CostView, Record, RecordItemKind, RecordItemTransaction, RecordItemValidation, RecordItems,
    RecordItemsView, RecordView, TransactionView, ValidationView,
};
use crate::runtime::{parse_date, spec_parse_date};
use crate::text::{
    chars_of, is_blank, is_blank_chars, spec_trim, split_words, string_from_chars, trim_chars,
    words,
};

verus! {

/// An amount as text, `"<number> <unit>"` (e.g. `"100 USD"`).
pub struct AmountInput(pub String);

/// A cost annotation as text: a date, a reference, or a price.
pub struct CostInput(pub String);

/// The amount that stands in for an amount nobody gave: zero of the
/// default unit.
pub open spec fn default_amount_text() -> Seq<char> {
    "0 DEFAULT_UNIT"@
}

impl AmountInput {
    /// The amount text as given.
    pub fn from_text(s: &str) -> (r: AmountInput)
        ensures
            r.0@ == s@,
    {
        AmountInput(s.to_string())
    }

    /// Zero of the default unit, `"0 DEFAULT_UNIT"`.
    pub fn default_amount() -> (r: AmountInput)
        ensures
            r.0@ == default_amount_text(),
    {
        AmountInput("0 DEFAULT_UNIT".to_string())
    }
}

impl Default for AmountInput {
    /// Zero of the default unit.
    fn default() -> (r: AmountInput)
        ensures
            r.0@ == default_amount_text(),
    {
        AmountInput::default_amount()
    }
}

impl CostInput {
    /// The cost text as given.
    pub fn from_text(s: &str) -> (r: CostInput)
        ensures
            r.0@ == s@,
    {
        CostInput(s.to_string())
    }
}

/// What parsing an amount text gives: it must be exactly two words, a
/// decimal and a unit; the decimal must not be negative.
pub open spec fn spec_parse_amount(s: Seq<char>) -> Result<AmountView, ErrorView> {
    let w = words(s);
    if w.len() != 2 {
        Err(err_view(ErrorKindView::Shared(SharedErrorKindView::InvalidFormat { value: s }), None, None, None))
    } else {
        match from_parts(spec_decimal_parse(w[0])) {
            None => Err(
                err_view(
                    ErrorKindView::Shared(SharedErrorKindView::InvalidFormat { value: w[0] }),
                    None,
                    None,
                    None,
                ),
            ),
            Some(d) => if is_blank(w[1]) {
                Err(shared_err(SharedErrorKindView::NonEmpty, amount_resource(), "unit"@))
            } else if d.spec_is_negative() {
                Err(
                    shared_err(
                        SharedErrorKindView::NonNegative {
                            actual: spec_decimal_to_string(d.mantissa, d.scale),
                        },
                        amount_resource(),
                        "amount"@,
                    ),
                )
            } else {
                Ok(AmountView { amount: d, unit: w[1] })
            },
        }
    }
}

/// A cost text has the form of a price: two words, the first a decimal.
pub open spec fn price_shaped(s: Seq<char>) -> bool {
    let w = words(s);
    w.len() == 2 && from_parts(spec_decimal_parse(w[0])) is Some
}

/// What parsing a cost text gives: a date if it parses as one; else, if it
/// has the form of a price (`<number> <unit>`), that price amount (or the
/// amount's error); else a reference if it is not blank; else the error of
/// parsing it as an amount.
pub open spec fn spec_parse_cost(s: Seq<char>) -> Result<CostView, ErrorView> {
    match spec_parse_date(s) {
        Some(d) => Ok(CostView::Date(d)),
        None => if !price_shaped(s) && !is_blank(s) {
            Ok(CostView::Reference(s))
        } else {
            match spec_parse_amount(s) {
                Ok(a) => Ok(CostView::Price(a)),
                Err(e) => Err(e),
            }
        },
    }
}

/// Whether a cost text has the form of a price.
pub fn is_price_shaped(s: &str) -> (r: bool)
    ensures
        r == price_shaped(s@),
{
    let cs = chars_of(s);
    let split = split_words(&cs);
    if split.len() != 2 {
        return false;
    }
    let number = string_from_chars(&split[0]);
    decimal_parse(number.as_str()).is_some()
}

/// Two costs are equal: same kind, and equal amounts (by value and unit),
/// dates or references.
pub open spec fn cost_equiv(a: CostView, b: CostView) -> bool {
    match (a, b) {
        (CostView::Price(x), CostView::Price(y)) => same_value(x.amount, y.amount) && x.unit
            == y.unit,
        (CostView::Date(x), CostView::Date(y)) => x == y,
        (CostView::Reference(x), CostView::Reference(y)) => x == y,
        _ => false,
    }
}

/// Some cost of `cs` equals `c`.
pub open spec fn has_equiv_cost(cs: Seq<CostView>, c: CostView) -> bool {
    exists|i: int| 0 <= i < cs.len() && cost_equiv(#[trigger] cs[i], c)
}

/// Parsing cost texts in order: the first error, or the set of costs
/// (a cost equal to an earlier one is dropped).
pub open spec fn spec_parse_costs(v: Seq<CostInput>) -> Result<Seq<CostView>, ErrorView>
    decreases v.len(),
{
    if v.len() == 0 {
        Ok(Seq::empty())
    } else {
        match spec_parse_costs(v.drop_last()) {
            Err(e) => Err(e),
            Ok(cs) => match spec_parse_cost(v.last().0@) {
                Err(e) => Err(e),
                Ok(c) => Ok(
                    if has_equiv_cost(cs, c) {
                        cs
                    } else {
                        cs.push(c)
                    },
                ),
            },
        }
    }
}

/// Parses an amount text.
pub fn parse_amount(input: &AmountInput) -> (r: Result<Amount, Error>)
    ensures
        match spec_parse_amount(input.0@) {
            Ok(a) => r is Ok && r->Ok_0@ == a && a.wf(),
            Err(e) => r is Err && r->Err_0@ == e,
        },
{
    let cs = chars_of(input.0.as_str());
    let split = split_words(&cs);
    if split.len() != 2 {
        return Err(SharedErrorKind::InvalidFormat { value: input.0.clone() }.into_error());
    }
    let number = string_from_chars(&split[0]);
    let parsed = decimal_parse(number.as_str());
    let d = match parsed {
        Some(d) => d,
        None => {
            return Err(SharedErrorKind::InvalidFormat { value: number }.into_error());
        },
    };
    if is_blank_chars(&split[1]) {
        return Err(
            SharedErrorKind::NonEmpty.into_error().with_resource_type(Amount::TYPE).with_field("unit"),
        );
    }
    if d.is_negative() {
        let actual = decimal_to_string(d);
        return Err(
            SharedErrorKind::NonNegative { actual }.into_error().with_resource_type(
                Amount::TYPE,
            ).with_field("amount"),
        );
    }
    let unit = string_from_chars(&split[1]);
    Ok(Amount { amount: d, unit })
}

/// Parses a cost text.
pub fn parse_cost(input: &CostInput) -> (r: Result<Cost, Error>)
    ensures
        match spec_parse_cost(input.0@) {
            Ok(c) => r is Ok && r->Ok_0@ == c && (c matches CostView::Price(a) ==> a.wf()),
            Err(e) => r is Err && r->Err_0@ == e,
        },
{
    match parse_date(input.0.as_str()) {
        Some(d) => Ok(Cost::Date(d)),
        None => {
            let cs = chars_of(input.0.as_str());
            if !is_price_shaped(input.0.as_str()) && !is_blank_chars(&cs) {
                Ok(Cost::Reference(input.0.clone()))
            } else {
                match parse_amount(&AmountInput(input.0.clone())) {
                    Ok(a) => Ok(Cost::Price(a)),
                    Err(e) => Err(e),
                }
            }
        },
    }
}

/// Whether two costs are equal.
pub fn costs_equal(a: &Cost, b: &Cost) -> (r: bool)
    requires
        a@ matches CostView::Price(x) ==> x.wf(),
        b@ matches CostView::Price(y) ==> y.wf(),
    ensures
        r == cost_equiv(a@, b@),
{
    match (a, b) {
        (Cost::Price(x), Cost::Price(y)) => decimal_eq(x.amount, y.amount) && x.unit == y.unit,
        (Cost::Date(x), Cost::Date(y)) => *x == *y,
        (Cost::Reference(x), Cost::Reference(y)) => *x == *y,
        _ => false,
    }
}

/// Price costs hold valid amounts.
pub open spec fn costs_wf(cs: Seq<CostView>) -> bool {
    forall|i: int| 0 <= i < cs.len() ==> (#[trigger] cs[i] matches CostView::Price(a) ==> a.wf())
}

proof fn lemma_parse_costs_err_extends(v: Seq<CostInput>, k: int)
    requires
        0 <= k <= v.len(),
        spec_parse_costs(v.subrange(0, k)) is Err,
    ensures
        spec_parse_costs(v) == spec_parse_costs(v.subrange(0, k)),
    decreases v.len() - k,
{
    if k < v.len() {
        let p = v.subrange(0, k + 1);
        assert(p.drop_last() =~= v.subrange(0, k));
        lemma_parse_costs_err_extends(v, k + 1);
    } else {
        assert(v.subrange(0, k) =~= v);
    }
}

/// Parses cost texts in order, stopping at the first error and dropping
/// costs equal to earlier ones.
pub fn parse_costs(v: &Vec<CostInput>) -> (r: Result<Vec<Cost>, Error>)
    ensures
        match spec_parse_costs(v@) {
            Ok(cs) => r is Ok && costs_view(r->Ok_0@) == cs && costs_wf(cs),
            Err(e) => r is Err && r->Err_0@ == e,
        },
{
    let n = v.len();
    let mut out: Vec<Cost> = Vec::new();
    let mut i: usize = 0;
    assert(v@.subrange(0, 0) =~= Seq::<CostInput>::empty());
    assert(costs_view(out@) =~= Seq::<CostView>::empty());
    while i < n
        invariant
            n == v@.len(),
            i <= n,
            spec_parse_costs(v@.subrange(0, i as int)) == Ok::<Seq<CostView>, ErrorView>(
                costs_view(out@),
            ),
            costs_wf(costs_view(out@)),
        decreases n - i,
    {
        let ghost p = v@.subrange(0, i + 1);
        assert(p.drop_last() =~= v@.subrange(0, i as int));
        let c = match parse_cost(&v[i]) {
            Ok(c) => c,
            Err(e) => {
                proof {
                    lemma_parse_costs_err_extends(v@, i + 1);
                }
                return Err(e);
            },
        };
        let m = out.len();
        let mut j: usize = 0;
        let mut found = false;
        while j < m
            invariant
                m == out@.len(),
                j <= m,
                costs_wf(costs_view(out@)),
                c@ matches CostView::Price(a) ==> a.wf(),
                !found ==> forall|k: int| 0 <= k < j ==> !cost_equiv(costs_view(out@)[k], c@),
                found ==> has_equiv_cost(costs_view(out@), c@),
            decreases m - j,
        {
            assert(costs_view(out@)[j as int] == out@[j as int]@);
            if costs_equal(&out[j], &c) {
                found = true;
                assert(cost_equiv(costs_view(out@)[j as int], c@));
            }
            j = j + 1;
        }
        if !found {
            let ghost before = out@;
            out.push(c);
            proof {
                assert(costs_view(out@) =~= costs_view(before).push(out@.last()@));
            }
        }
        i = i + 1;
    }
    assert(v@.subrange(0, n as int) =~= v@);
    Ok(out)
}

/// An item of a record before validation.
pub struct RecordItemInput {
    pub account_id: String,
    pub account_type: AccountType,
    pub kind: RecordItemKind,
    pub amount: AmountInput,
    pub description: String,
    pub price: Option<AmountInput>,
    pub cost: Vec<CostInput>,
}

impl Default for RecordItemInput {
    /// A transaction posting of zero of the default unit to a fresh asset
    /// account, with no description, price or costs.
    fn default() -> (r: RecordItemInput)
        ensures
            r.account_type == AccountType::Asset,
            r.kind == RecordItemKind::Transaction,
            r.amount.0@ == default_amount_text(),
            r.description@ == Seq::<char>::empty(),
            r.price is None,
            r.cost@.len() == 0,
    {
        RecordItemInput {
            account_id: crate::runtime::new_id(),
            account_type: AccountType::Asset,
            kind: RecordItemKind::Transaction,
            amount: AmountInput::default_amount(),
            description: String::new(),
            price: None,
            cost: Vec::new(),
        }
    }
}

/// What parsing a transaction item gives: its amount, then its price, then
/// its costs, stopping at the first error; the description is trimmed.
pub open spec fn spec_parse_transaction(item: RecordItemInput) -> Result<TransactionView, ErrorView> {
    match spec_parse_amount(item.amount.0@) {
        Err(e) => Err(e),
        Ok(a) => {
            let price: Result<Option<AmountView>, ErrorView> = match item.price {
                Some(p) => match spec_parse_amount(p.0@) {
                    Ok(pa) => Ok(Some(pa)),
                    Err(e) => Err(e),
                },
                None => Ok(None),
            };
            match price {
                Err(e) => Err(e),
                Ok(pr) => match spec_parse_costs(item.cost@) {
                    Err(e) => Err(e),
                    Ok(cs) => Ok(
                        TransactionView {
                            account_id: item.account_id@,
                            account_type: item.account_type,
                            amount: a,
                            price: pr,
                            cost: cs,
                            description: spec_trim(item.description@),
                        },
                    ),
                },
            }
        },
    }
}

/// What parsing a validation item gives: its amount; the description is
/// trimmed.
pub open spec fn spec_parse_validation(item: RecordItemInput) -> Result<ValidationView, ErrorView> {
    match spec_parse_amount(item.amount.0@) {
        Err(e) => Err(e),
        Ok(a) => Ok(
            ValidationView {
                account_id: item.account_id@,
                amount: a,
                description: spec_trim(item.description@),
            },
        ),
    }
}

/// Parsing transaction items in order: the first error, or all postings.
pub open spec fn spec_parse_transactions(v: Seq<RecordItemInput>) -> Result<Seq<TransactionView>, ErrorView>
    decreases v.len(),
{
    if v.len() == 0 {
        Ok(Seq::empty())
    } else {
        match spec_parse_transactions(v.drop_last()) {
            Err(e) => Err(e),
            Ok(ts) => match spec_parse_transaction(v.last()) {
                Err(e) => Err(e),
                Ok(t) => Ok(ts.push(t)),
            },
        }
    }
}

/// Parsing validation items in order: the first error, or all items.
pub open spec fn spec_parse_validations(v: Seq<RecordItemInput>) -> Result<Seq<ValidationView>, ErrorView>
    decreases v.len(),
{
    if v.len() == 0 {
        Ok(Seq::empty())
    } else {
        match spec_parse_validations(v.drop_last()) {
            Err(e) => Err(e),
            Ok(ts) => match spec_parse_validation(v.last()) {
                Err(e) => Err(e),
                Ok(t) => Ok(ts.push(t)),
            },
        }
    }
}

/// Every item has the given kind.
pub open spec fn all_of_kind(v: Seq<RecordItemInput>, k: RecordItemKind) -> bool {
    forall|i: int| 0 <= i < v.len() ==> (#[trigger] v[i]).kind == k
}

/// What parsing record items gives: they must not be empty and must all
/// be transactions or all validations.
pub open spec fn spec_parse_items(v: Seq<RecordItemInput>) -> Result<RecordItemsView, ErrorView> {
    if v.len() == 0 {
        Err(shared_err(SharedErrorKindView::NonEmpty, record_resource(), "items"@))
    } else if v[0].kind == RecordItemKind::Transaction && all_of_kind(v, RecordItemKind::Transaction) {
        match spec_parse_transactions(v) {
            Ok(ts) => Ok(RecordItemsView::Transactions(ts)),
            Err(e) => Err(e),
        }
    } else if v[0].kind == RecordItemKind::Validation && all_of_kind(v, RecordItemKind::Validation) {
        match spec_parse_validations(v) {
            Ok(vs) => Ok(RecordItemsView::Validations(vs)),
            Err(e) => Err(e),
        }
    } else {
        Err(
            shared_err(
                SharedErrorKindView::ConflictingValues { values: seq!["Transaction"@, "Validation"@] },
                record_resource(),
                "items"@,
            ),
        )
    }
}

/// Two lists of cost texts with the same texts.
pub open spec fn same_cost_texts(a: Seq<CostInput>, b: Seq<CostInput>) -> bool {
    &&& a.len() == b.len()
    &&& forall|i: int| 0 <= i < a.len() ==> #[trigger] a[i].0@ == b[i].0@
}

/// Two item inputs that agree on every field, by view.
pub open spec fn same_item_input(a: RecordItemInput, b: RecordItemInput) -> bool {
    &&& a.account_id@ == b.account_id@
    &&& a.account_type == b.account_type
    &&& a.kind == b.kind
    &&& a.amount.0@ == b.amount.0@
    &&& a.description@ == b.description@
    &&& match (a.price, b.price) {
        (Some(p), Some(q)) => p.0@ == q.0@,
        (None, None) => true,
        _ => false,
    }
    &&& same_cost_texts(a.cost@, b.cost@)
}

/// Two lists of item inputs that agree item by item.
pub open spec fn same_item_inputs(a: Seq<RecordItemInput>, b: Seq<RecordItemInput>) -> bool {
    &&& a.len() == b.len()
    &&& forall|i: int| 0 <= i < a.len() ==> same_item_input(#[trigger] a[i], b[i])
}

proof fn lemma_costs_same(a: Seq<CostInput>, b: Seq<CostInput>)
    requires
        same_cost_texts(a, b),
    ensures
        spec_parse_costs(a) == spec_parse_costs(b),
    decreases a.len(),
{
    if a.len() > 0 {
        let (x, y) = (a.drop_last(), b.drop_last());
        assert forall|i: int| 0 <= i < x.len() implies #[trigger] x[i].0@ == y[i].0@ by {
            assert(x[i] == a[i] && y[i] == b[i]);
        }
        lemma_costs_same(x, y);
        assert(a.last().0@ == b.last().0@);
    }
}

proof fn lemma_transactions_same(a: Seq<RecordItemInput>, b: Seq<RecordItemInput>)
    requires
        same_item_inputs(a, b),
    ensures
        spec_parse_transactions(a) == spec_parse_transactions(b),
    decreases a.len(),
{
    if a.len() > 0 {
        let (x, y) = (a.drop_last(), b.drop_last());
        assert forall|i: int| 0 <= i < x.len() implies same_item_input(#[trigger] x[i], y[i]) by {
            assert(x[i] == a[i] && y[i] == b[i]);
        }
        lemma_transactions_same(x, y);
        assert(same_item_input(a[a.len() - 1], b[b.len() - 1]));
        lemma_costs_same(a.last().cost@, b.last().cost@);
    }
}

proof fn lemma_validations_same(a: Seq<RecordItemInput>, b: Seq<RecordItemInput>)
    requires
        same_item_inputs(a, b),
    ensures
        spec_parse_validations(a) == spec_parse_validations(b),
    decreases a.len(),
{
    if a.len() > 0 {
        let (x, y) = (a.drop_last(), b.drop_last());
        assert forall|i: int| 0 <= i < x.len() implies same_item_input(#[trigger] x[i], y[i]) by {
            assert(x[i] == a[i] && y[i] == b[i]);
        }
        lemma_validations_same(x, y);
        assert(same_item_input(a[a.len() - 1], b[b.len() - 1]));
    }
}

/// Parsing depends only on what the inputs hold, by view.
pub proof fn lemma_items_same(a: Seq<RecordItemInput>, b: Seq<RecordItemInput>)
    requires
        same_item_inputs(a, b),
    ensures
        spec_parse_items(a) == spec_parse_items(b),
{
    if a.len() > 0 {
        assert(same_item_input(a[0], b[0]));
        assert(all_of_kind(a, RecordItemKind::Transaction) == all_of_kind(b, RecordItemKind::Transaction)) by {
            if all_of_kind(a, RecordItemKind::Transaction) {
                assert forall|i: int| 0 <= i < b.len() implies (#[trigger] b[i]).kind == RecordItemKind::Transaction by {
                    assert(same_item_input(a[i], b[i]));
                }
            }
            if all_of_kind(b, RecordItemKind::Transaction) {
                assert forall|i: int| 0 <= i < a.len() implies (#[trigger] a[i]).kind == RecordItemKind::Transaction by {
                    assert(same_item_input(a[i], b[i]));
                }
            }
        }
        assert(all_of_kind(a, RecordItemKind::Validation) == all_of_kind(b, RecordItemKind::Validation)) by {
            if all_of_kind(a, RecordItemKind::Validation) {
                assert forall|i: int| 0 <= i < b.len() implies (#[trigger] b[i]).kind == RecordItemKind::Validation by {
                    assert(same_item_input(a[i], b[i]));
                }
            }
            if all_of_kind(b, RecordItemKind::Validation) {
                assert forall|i: int| 0 <= i < a.len() implies (#[trigger] a[i]).kind == RecordItemKind::Validation by {
                    assert(same_item_input(a[i], b[i]));
                }
            }
        }
        lemma_transactions_same(a, b);
        lemma_validations_same(a, b);
    }
}

proof fn lemma_parse_transactions_err_extends(v: Seq<RecordItemInput>, k: int)
    requires
        0 <= k <= v.len(),
        spec_parse_transactions(v.subrange(0, k)) is Err,
    ensures
        spec_parse_transactions(v) == spec_parse_transactions(v.subrange(0, k)),
    decreases v.len() - k,
{
    if k < v.len() {
        let p = v.subrange(0, k + 1);
        assert(p.drop_last() =~= v.subrange(0, k));
        lemma_parse_transactions_err_extends(v, k + 1);
    } else {
        assert(v.subrange(0, k) =~= v);
    }
}

proof fn lemma_parse_validations_err_extends(v: Seq<RecordItemInput>, k: int)
    requires
        0 <= k <= v.len(),
        spec_parse_validations(v.subrange(0, k)) is Err,
    ensures
        spec_parse_validations(v) == spec_parse_validations(v.subrange(0, k)),
    decreases v.len() - k,
{
    if k < v.len() {
        let p = v.subrange(0, k + 1);
        assert(p.drop_last() =~= v.subrange(0, k));
        lemma_parse_validations_err_extends(v, k + 1);
    } else {
        assert(v.subrange(0, k) =~= v);
    }
}

/// Parses one transaction item.
pub fn parse_transaction(item: &RecordItemInput) -> (r: Result<RecordItemTransaction, Error>)
    ensures
        match spec_parse_transaction(*item) {
            Ok(t) => r is Ok && r->Ok_0@ == t && t.wf(),
            Err(e) => r is Err && r->Err_0@ == e,
        },
{
    let amount = match parse_amount(&item.amount) {
        Ok(a) => a,
        Err(e) => {
            return Err(e);
        },
    };
    let price = match &item.price {
        Some(p) => match parse_amount(p) {
            Ok(pa) => Some(pa),
            Err(e) => {
                return Err(e);
            },
        },
        None => None,
    };
    let cost = match parse_costs(&item.cost) {
        Ok(c) => c,
        Err(e) => {
            return Err(e);
        },
    };
    let desc = string_from_chars(&trim_chars(&chars_of(item.description.as_str())));
    Ok(
        RecordItemTransaction {
            account_id: item.account_id.clone(),
            account_type: item.account_type,
            amount,
            price,
            cost,
            description: desc,
        },
    )
}

/// Parses one validation item.
pub fn parse_validation(item: &RecordItemInput) -> (r: Result<RecordItemValidation, Error>)
    ensures
        match spec_parse_validation(*item) {
            Ok(t) => r is Ok && r->Ok_0@ == t && t.amount.wf(),
            Err(e) => r is Err && r->Err_0@ == e,
        },
{
    let amount = match parse_amount(&item.amount) {
        Ok(a) => a,
        Err(e) => {
            return Err(e);
        },
    };
    let desc = string_from_chars(&trim_chars(&chars_of(item.description.as_str())));
    Ok(RecordItemValidation { account_id: item.account_id.clone(), amount, description: desc })
}

/// Parses record items: they must not be empty and must all be
/// transactions or all validations; each amount, price and cost must parse.
pub fn parse_items(v: &Vec<RecordItemInput>) -> (r: Result<RecordItems, Error>)
    ensures
        match spec_parse_items(v@) {
            Ok(items) => r is Ok && r->Ok_0@ == items && items.wf(),
            Err(e) => r is Err && r->Err_0@ == e,
        },
{
    let n = v.len();
    if n == 0 {
        return Err(
            SharedErrorKind::NonEmpty.into_error().with_resource_type(Record::ENTITY_TYPE).with_field(
                "items",
            ),
        );
    }
    let first = v[0].kind;
    let mut all_same = true;
    let mut k: usize = 0;
    while k < n
        invariant
            n == v@.len(),
            k <= n,
            first == v@[0].kind,
            all_same == (forall|i: int| 0 <= i < k ==> (#[trigger] v@[i]).kind == first),
        decreases n - k,
    {
        if v[k].kind != first {
            all_same = false;
        }
        k = k + 1;
    }
    if !all_same {
        let values = vec![
            RecordItemKind::Transaction.to_display_string(),
            RecordItemKind::Validation.to_display_string(),
        ];
        proof {
            assert(crate::error::strs_view(values@) =~= seq!["Transaction"@, "Validation"@]);
        }
        return Err(
            SharedErrorKind::ConflictingValues { values }.into_error().with_resource_type(
                Record::ENTITY_TYPE,
            ).with_field("items"),
        );
    }
    assert(all_of_kind(v@, first));
    match first {
        RecordItemKind::Transaction => {
            let mut out: Vec<RecordItemTransaction> = Vec::new();
            let mut i: usize = 0;
            assert(v@.subrange(0, 0) =~= Seq::<RecordItemInput>::empty());
            assert(txns_view(out@) =~= Seq::<TransactionView>::empty());
            while i < n
                invariant
                    n == v@.len(),
                    i <= n,
                    all_of_kind(v@, RecordItemKind::Transaction),
                    spec_parse_transactions(v@.subrange(0, i as int)) == Ok::<
                        Seq<TransactionView>,
                        ErrorView,
                    >(txns_view(out@)),
                    forall|j: int| 0 <= j < out@.len() ==> (#[trigger] txns_view(out@)[j]).wf(),
                decreases n - i,
            {
                let ghost p = v@.subrange(0, i + 1);
                assert(p.drop_last() =~= v@.subrange(0, i as int));
                assert(p.last() == v@[i as int]);
                match parse_transaction(&v[i]) {
                    Ok(t) => {
                        let ghost before = out@;
                        out.push(t);
                        assert(txns_view(out@) =~= txns_view(before).push(out@.last()@));
                    },
                    Err(e) => {
                        proof {
                            assert(spec_parse_transactions(p) == Err::<Seq<TransactionView>, ErrorView>(e@));
                            lemma_parse_transactions_err_extends(v@, i + 1);
                            assert(all_of_kind(v@, RecordItemKind::Transaction));
                        }
                        return Err(e);
                    },
                }
                i = i + 1;
            }
            assert(v@.subrange(0, n as int) =~= v@);
            Ok(RecordItems::Transactions(out))
        },
        RecordItemKind::Validation => {
            let mut out: Vec<RecordItemValidation> = Vec::new();
            let mut i: usize = 0;
            assert(v@.subrange(0, 0) =~= Seq::<RecordItemInput>::empty());
            assert(vals_view(out@) =~= Seq::<ValidationView>::empty());
            while i < n
                invariant
                    n == v@.len(),
                    i <= n,
                    all_of_kind(v@, RecordItemKind::Validation),
                    spec_parse_validations(v@.subrange(0, i as int)) == Ok::<
                        Seq<ValidationView>,
                        ErrorView,
                    >(vals_view(out@)),
                    forall|j: int| 0 <= j < out@.len() ==> (#[trigger] vals_view(out@)[j]).amount.wf(),
                decreases n - i,
            {
                let ghost p = v@.subrange(0, i + 1);
                assert(p.drop_last() =~= v@.subrange(0, i as int));
                assert(p.last() == v@[i as int]);
                match parse_validation(&v[i]) {
                    Ok(t) => {
                        let ghost before = out@;
                        out.push(t);
                        assert(vals_view(out@) =~= vals_view(before).push(out@.last()@));
                    },
                    Err(e) => {
                        proof {
                            assert(spec_parse_validations(p) == Err::<Seq<ValidationView>, ErrorView>(e@));
                            lemma_parse_validations_err_extends(v@, i + 1);
                            assert(all_of_kind(v@, RecordItemKind::Validation));
                        }
                        return Err(e);
                    },
                }
                i = i + 1;
            }
            assert(v@.subrange(0, n as int) =~= v@);
            Ok(RecordItems::Validations(out))
        },
    }
}

/// The fields of a record before validation.
pub struct RecordInput {
    pub id: String,
    pub version: usize,
    pub created_at: Option<i64>,
    pub last_modified_at: Option<i64>,
    pub journal_id: String,
    pub date: i32,
    pub items: Vec<RecordItemInput>,
    pub description: String,
    pub tags: Vec<String>,
    pub payee: String,
}

/// The date a record has when none is given: 1970-01-01, as days from the
/// Common Era.
pub const DEFAULT_DATE: i32 = 719163;

impl Default for RecordInput {
    /// A record with a fresh identifier, version 0, no times, the default
    /// date and nothing else.
    fn default() -> (r: RecordInput)
        ensures
            r.version == 0,
            r.created_at is None,
            r.last_modified_at is None,
            r.date == DEFAULT_DATE,
            r.items@.len() == 0,
            r.description@ == Seq::<char>::empty(),
            r.tags@.len() == 0,
            r.payee@ == Seq::<char>::empty(),
    {
        RecordInput {
            id: crate::runtime::new_id(),
            version: 0,
            created_at: None,
            last_modified_at: None,
            journal_id: crate::runtime::new_id(),
            date: DEFAULT_DATE,
            items: Vec::new(),
            description: String::new(),
            tags: Vec::new(),
            payee: String::new(),
        }
    }
}

impl RecordInput {
    /// What validating the input gives: the items must parse; blank or
    /// repeated tags are dropped.
    pub open spec fn spec_record(&self) -> Result<RecordView, ErrorView> {
        match spec_parse_items(self.items@) {
            Err(e) => Err(e),
            Ok(items) => Ok(
                RecordView {
                    id: self.id@,
                    version: self.version,
                    created_at: self.created_at,
                    last_modified_at: self.last_modified_at,
                    journal_id: self.journal_id@,
                    date: self.date,
                    items,
                    description: self.description@,
                    tags: tag_set_of(self.tags@),
                    payee: self.payee@,
                },
            ),
        }
    }
}

impl Record {
    /// Builds a record from its input: the items must parse (see
    /// `parse_items`); blank or repeated tags are dropped.
    pub fn try_from_input(value: RecordInput) -> (r: Result<Record, Error>)
        ensures
            match value.spec_record() {
                Ok(rv) => r is Ok && r->Ok_0@ == rv && r->Ok_0.wf(),
                Err(e) => r is Err && r->Err_0@ == e,
            },
    {
        let items = match parse_items(&value.items) {
            Ok(items) => items,
            Err(e) => {
                return Err(e);
            },
        };
        let tags = collect_tags(&value.tags);
        Ok(
            Record {
                id: value.id,
                version: value.version,
                created_at: value.created_at,
                last_modified_at: value.last_modified_at,
                journal_id: value.journal_id,
                date: value.date,
                items,
                description: value.description,
                tags,
                payee: value.payee,
            },
        )
    }
}

} // verus!
