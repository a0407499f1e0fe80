//! Records: dated postings of amounts to accounts, either transactions
//! (which may balance) or validations of expected balances.
use vstd::prelude::*;
use crate::store::Entity;
use crate::account::AccountType;
use crate::common::{clone_strs, collect_tags, str_set, tags_wf};
use crate::decimal::{
    decimal_add, decimal_eq, decimal_mul, from_parts, same_value, spec_decimal_add,
    spec_decimal_mul, DecimalValue,
};
use crate::text::is_blank;

pub mod command;
pub mod event;
pub mod input;
pub mod repository;
pub mod service;
pub mod specification;

use event::RecordEvent;

verus! {

/// An amount of some unit (currency, stock symbol, commodity).
#[derive(Debug)]
pub struct Amount {
    pub amount: DecimalValue,
    pub unit: String,
}

/// The mathematical form of an amount.
pub struct AmountView {
    pub amount: DecimalValue,
    pub unit: Seq<char>,
}

impl View for Amount {
    type V = AmountView;

    open spec fn view(&self) -> AmountView {
        AmountView { amount: self.amount, unit: self.unit@ }
    }
}

impl AmountView {
    /// A valid amount: a decimal in range that is not negative, and a unit
    /// that is not blank.
    pub open spec fn wf(self) -> bool {
        &&& self.amount.wf()
        &&& !self.amount.spec_is_negative()
        &&& !is_blank(self.unit)
    }
}

impl Clone for Amount {
    fn clone(&self) -> (r: Amount)
        ensures
            r@ == self@,
    {
        Amount { amount: self.amount, unit: self.unit.clone() }
    }
}

impl Amount {
    /// The resource type of amounts in errors.
    pub const TYPE: &'static str = "whiterabbit::domain::Amount";
}

/// The resource type of amounts in errors.
pub open spec fn amount_resource() -> Seq<char> {
    "whiterabbit::domain::Amount"@
}

/// A cost annotation of a posting (the `{}` part in Beancount).
#[derive(Debug)]
pub enum Cost {
    Price(Amount),
    /// A date, as days from the Common Era.
    Date(i32),
    Reference(String),
}

/// The mathematical form of a cost.
pub enum CostView {
    Price(AmountView),
    Date(i32),
    Reference(Seq<char>),
}

impl View for Cost {
    type V = CostView;

    open spec fn view(&self) -> CostView {
        match self {
            Cost::Price(a) => CostView::Price(a@),
            Cost::Date(d) => CostView::Date(*d),
            Cost::Reference(r) => CostView::Reference(r@),
        }
    }
}

impl Clone for Cost {
    fn clone(&self) -> (r: Cost)
        ensures
            r@ == self@,
    {
        match self {
            Cost::Price(a) => Cost::Price(a.clone()),
            Cost::Date(d) => Cost::Date(*d),
            Cost::Reference(r) => Cost::Reference(r.clone()),
        }
    }
}

/// The kinds of costs.
#[derive(Clone, Copy, Debug, PartialEq, Eq, Structural, Hash)]
pub enum CostKind {
    Price,
    Date,
    Reference,
}

/// The kinds of record items.
#[derive(Clone, Copy, Debug, PartialEq, Eq, Structural, Hash)]
pub enum RecordItemKind {
    Transaction,
    Validation,
}

/// The printed name of a record item kind.
pub open spec fn item_kind_name(k: RecordItemKind) -> Seq<char> {
    match k {
        RecordItemKind::Transaction => "Transaction"@,
        RecordItemKind::Validation => "Validation"@,
    }
}

impl RecordItemKind {
    /// The printed name of this kind ("Transaction" or "Validation").
    pub fn to_display_string(&self) -> (r: String)
        ensures
            r@ == item_kind_name(*self),
    {
        match self {
            RecordItemKind::Transaction => "Transaction".to_string(),
            RecordItemKind::Validation => "Validation".to_string(),
        }
    }
}

/// The views of a sequence of costs.
pub open spec fn costs_view(v: Seq<Cost>) -> Seq<CostView> {
    v.map_values(|c: Cost| c@)
}

/// Clones a vector of costs, keeping every view.
pub fn clone_costs(v: &Vec<Cost>) -> (r: Vec<Cost>)
    ensures
        costs_view(r@) == costs_view(v@),
{
    let mut r: Vec<Cost> = Vec::new();
    let n = v.len();
    let mut i: usize = 0;
    while i < n
        invariant
            n == v@.len(),
            i <= n,
            costs_view(r@) == costs_view(v@.subrange(0, i as int)),
        decreases n - i,
    {
        let x = v[i].clone();
        let ghost before = r@;
        r.push(x);
        proof {
            assert(r@ == before.push(x));
            assert(costs_view(r@) =~= costs_view(before).push(x@));
            assert(v@.subrange(0, i + 1) =~= v@.subrange(0, i as int).push(v@[i as int]));
            assert(costs_view(v@.subrange(0, i + 1)) =~= costs_view(v@.subrange(0, i as int)).push(v@[i as int]@));
        }
        i = i + 1;
    }
    assert(v@.subrange(0, n as int) =~= v@);
    r
}

/// A posting of a transaction record.
#[derive(Debug)]
pub struct RecordItemTransaction {
    pub account_id: String,
    pub account_type: AccountType,
    pub amount: Amount,
    /// The `@` price part in Beancount.
    pub price: Option<Amount>,
    /// The `{}` cost part in Beancount.
    pub cost: Vec<Cost>,
    pub description: String,
}

/// The mathematical form of a transaction posting.
pub struct TransactionView {
    pub account_id: Seq<char>,
    pub account_type: AccountType,
    pub amount: AmountView,
    pub price: Option<AmountView>,
    pub cost: Seq<CostView>,
    pub description: Seq<char>,
}

pub open spec fn opt_amount_view(o: Option<Amount>) -> Option<AmountView> {
    match o {
        Some(a) => Some(a@),
        None => None,
    }
}

impl View for RecordItemTransaction {
    type V = TransactionView;

    open spec fn view(&self) -> TransactionView {
        TransactionView {
            account_id: self.account_id@,
            account_type: self.account_type,
            amount: self.amount@,
            price: opt_amount_view(self.price),
            cost: costs_view(self.cost@),
            description: self.description@,
        }
    }
}

impl Clone for RecordItemTransaction {
    fn clone(&self) -> (r: RecordItemTransaction)
        ensures
            r@ == self@,
    {
        RecordItemTransaction {
            account_id: self.account_id.clone(),
            account_type: self.account_type,
            amount: self.amount.clone(),
            price: match &self.price {
                Some(p) => Some(p.clone()),
                None => None,
            },
            cost: clone_costs(&self.cost),
            description: self.description.clone(),
        }
    }
}

/// The number a posting contributes to its account type: the amount, times
/// the price where there is one (`None` where the product overflows).
pub open spec fn spec_amount_number(t: TransactionView) -> Option<DecimalValue> {
    match t.price {
        Some(p) => from_parts(
            spec_decimal_mul(p.amount.mantissa, p.amount.scale, t.amount.amount.mantissa, t.amount.amount.scale),
        ),
        None => Some(t.amount.amount),
    }
}

impl TransactionView {
    /// The amount, the price and the price costs are valid amounts.
    pub open spec fn wf(self) -> bool {
        &&& self.amount.wf()
        &&& (self.price matches Some(p) ==> p.wf())
        &&& forall|i: int|
            0 <= i < self.cost.len() ==> (#[trigger] self.cost[i] matches CostView::Price(a) ==> a.wf())
    }
}

impl RecordItemTransaction {
    /// The posting's number: the amount times the price where there is one,
    /// or `None` where that product overflows.
    pub fn checked_amount_number(&self) -> (r: Option<DecimalValue>)
        requires
            self@.wf(),
        ensures
            r == spec_amount_number(self@),
            r matches Some(d) ==> d.wf(),
    {
        match &self.price {
            Some(p) => {
                let product = decimal_mul(p.amount, self.amount.amount);
                if product.is_none() {
                    return None;
                }
                Some(self.amount_number())
            },
            None => Some(self.amount_number()),
        }
    }

    /// The posting's number: the amount times the price where there is one.
    pub fn amount_number(&self) -> (r: DecimalValue)
        requires
            self@.wf(),
            spec_amount_number(self@) is Some,
        ensures
            Some(r) == spec_amount_number(self@),
            r.wf(),
    {
        match &self.price {
            Some(p) => decimal_mul(p.amount, self.amount.amount).unwrap(),
            None => self.amount.amount,
        }
    }
}

/// A validation item: the expected balance of an account.
#[derive(Debug)]
pub struct RecordItemValidation {
    pub account_id: String,
    pub amount: Amount,
    pub description: String,
}

/// The mathematical form of a validation item.
pub struct ValidationView {
    pub account_id: Seq<char>,
    pub amount: AmountView,
    pub description: Seq<char>,
}

impl View for RecordItemValidation {
    type V = ValidationView;

    open spec fn view(&self) -> ValidationView {
        ValidationView {
            account_id: self.account_id@,
            amount: self.amount@,
            description: self.description@,
        }
    }
}

impl Clone for RecordItemValidation {
    fn clone(&self) -> (r: RecordItemValidation)
        ensures
            r@ == self@,
    {
        RecordItemValidation {
            account_id: self.account_id.clone(),
            amount: self.amount.clone(),
            description: self.description.clone(),
        }
    }
}

/// The items of a record: all transactions or all validations, never empty.
#[derive(Debug)]
pub enum RecordItems {
    Transactions(Vec<RecordItemTransaction>),
    Validations(Vec<RecordItemValidation>),
}

/// The mathematical form of record items.
pub enum RecordItemsView {
    Transactions(Seq<TransactionView>),
    Validations(Seq<ValidationView>),
}

pub open spec fn txns_view(v: Seq<RecordItemTransaction>) -> Seq<TransactionView> {
    v.map_values(|t: RecordItemTransaction| t@)
}

pub open spec fn vals_view(v: Seq<RecordItemValidation>) -> Seq<ValidationView> {
    v.map_values(|t: RecordItemValidation| t@)
}

impl View for RecordItems {
    type V = RecordItemsView;

    open spec fn view(&self) -> RecordItemsView {
        match self {
            RecordItems::Transactions(t) => RecordItemsView::Transactions(txns_view(t@)),
            RecordItems::Validations(v) => RecordItemsView::Validations(vals_view(v@)),
        }
    }
}

impl RecordItemsView {
    /// The items are not empty and every amount is valid.
    pub open spec fn wf(self) -> bool {
        match self {
            RecordItemsView::Transactions(t) => t.len() > 0 && forall|i: int|
                0 <= i < t.len() ==> (#[trigger] t[i]).wf(),
            RecordItemsView::Validations(v) => v.len() > 0 && forall|i: int|
                0 <= i < v.len() ==> (#[trigger] v[i]).amount.wf(),
        }
    }

    /// The kind of the items.
    pub open spec fn kind(self) -> RecordItemKind {
        match self {
            RecordItemsView::Transactions(_) => RecordItemKind::Transaction,
            RecordItemsView::Validations(_) => RecordItemKind::Validation,
        }
    }

    /// The accounts the items post to, in order.
    pub open spec fn account_ids(self) -> Seq<Seq<char>> {
        match self {
            RecordItemsView::Transactions(t) => t.map_values(|x: TransactionView| x.account_id),
            RecordItemsView::Validations(v) => v.map_values(|x: ValidationView| x.account_id),
        }
    }
}

impl Clone for RecordItems {
    fn clone(&self) -> (r: RecordItems)
        ensures
            r@ == self@,
    {
        match self {
            RecordItems::Transactions(t) => {
                let mut r: Vec<RecordItemTransaction> = Vec::new();
                let n = t.len();
                let mut i: usize = 0;
                while i < n
                    invariant
                        n == t@.len(),
                        i <= n,
                        txns_view(r@) == txns_view(t@.subrange(0, i as int)),
                    decreases n - i,
                {
                    let x = t[i].clone();
                    let ghost before = r@;
                    r.push(x);
                    proof {
                        assert(r@ == before.push(x));
                        assert(txns_view(r@) =~= txns_view(before).push(x@));
                        assert(t@.subrange(0, i + 1) =~= t@.subrange(0, i as int).push(t@[i as int]));
                        assert(txns_view(t@.subrange(0, i + 1)) =~= txns_view(t@.subrange(0, i as int)).push(t@[i as int]@));
                    }
                    i = i + 1;
                }
                assert(t@.subrange(0, n as int) =~= t@);
                RecordItems::Transactions(r)
            },
            RecordItems::Validations(v) => {
                let mut r: Vec<RecordItemValidation> = Vec::new();
                let n = v.len();
                let mut i: usize = 0;
                while i < n
                    invariant
                        n == v@.len(),
                        i <= n,
                        vals_view(r@) == vals_view(v@.subrange(0, i as int)),
                    decreases n - i,
                {
                    let x = v[i].clone();
                    let ghost before = r@;
                    r.push(x);
                    proof {
                        assert(r@ == before.push(x));
                        assert(vals_view(r@) =~= vals_view(before).push(x@));
                        assert(v@.subrange(0, i + 1) =~= v@.subrange(0, i as int).push(v@[i as int]));
                        assert(vals_view(v@.subrange(0, i + 1)) =~= vals_view(v@.subrange(0, i as int)).push(v@[i as int]@));
                    }
                    i = i + 1;
                }
                assert(v@.subrange(0, n as int) =~= v@);
                RecordItems::Validations(r)
            },
        }
    }
}

impl RecordItems {
    /// The kind of the items.
    pub fn kind(&self) -> (r: RecordItemKind)
        ensures
            r == self@.kind(),
    {
        match self {
            RecordItems::Transactions(_) => RecordItemKind::Transaction,
            RecordItems::Validations(_) => RecordItemKind::Validation,
        }
    }
}

/// The zero decimal.
pub open spec fn dec_zero() -> DecimalValue {
    DecimalValue { mantissa: 0, scale: 0 }
}

/// The sum of the numbers of the postings of account type `ty`, added in
/// order to zero with `Decimal` addition; `None` where the number of any
/// posting (of whatever type) or a sum overflows.
pub open spec fn type_sum(ts: Seq<TransactionView>, ty: AccountType) -> Option<DecimalValue>
    decreases ts.len(),
{
    if ts.len() == 0 {
        Some(dec_zero())
    } else {
        let t = ts.last();
        match (type_sum(ts.drop_last(), ty), spec_amount_number(t)) {
            (Some(acc), Some(x)) => if t.account_type == ty {
                from_parts(spec_decimal_add(acc.mantissa, acc.scale, x.mantissa, x.scale))
            } else {
                Some(acc)
            },
            _ => None,
        }
    }
}

/// Adds two optional decimals with `Decimal` addition.
pub open spec fn add_opt(a: Option<DecimalValue>, b: Option<DecimalValue>) -> Option<DecimalValue> {
    match (a, b) {
        (Some(x), Some(y)) => from_parts(spec_decimal_add(x.mantissa, x.scale, y.mantissa, y.scale)),
        _ => None,
    }
}

/// The balance check of transaction postings: whether the sums of assets
/// and expenses equal those of liabilities, equity and income (a type
/// without postings counts zero); `None` where a product or a sum
/// overflows.
pub open spec fn spec_balance(ts: Seq<TransactionView>) -> Option<bool> {
    let lhs = add_opt(type_sum(ts, AccountType::Asset), type_sum(ts, AccountType::Expense));
    let rhs = add_opt(
        add_opt(type_sum(ts, AccountType::Liability), type_sum(ts, AccountType::Equity)),
        type_sum(ts, AccountType::Income),
    );
    match (lhs, rhs) {
        (Some(l), Some(r)) => Some(same_value(l, r)),
        _ => None,
    }
}

/// Once a prefix overflows, every longer prefix does.
proof fn lemma_type_sum_none_extends(s: Seq<TransactionView>, ty: AccountType, k: int)
    requires
        0 <= k <= s.len(),
        type_sum(s.subrange(0, k), ty) is None,
    ensures
        type_sum(s, ty) is None,
    decreases s.len() - k,
{
    if k < s.len() {
        let p = s.subrange(0, k + 1);
        assert(p.drop_last() =~= s.subrange(0, k));
        assert(type_sum(p, ty) is None);
        lemma_type_sum_none_extends(s, ty, k + 1);
    } else {
        assert(s.subrange(0, k) =~= s);
    }
}

/// Sums the numbers of the postings of one account type (`None` where a
/// product or a sum overflows).
pub fn compute_type_total(ts: &Vec<RecordItemTransaction>, ty: AccountType) -> (r: Option<DecimalValue>)
    requires
        forall|i: int| 0 <= i < ts@.len() ==> (#[trigger] ts@[i])@.wf(),
    ensures
        r == type_sum(txns_view(ts@), ty),
        r matches Some(d) ==> d.wf(),
{
    let n = ts.len();
    let mut acc = DecimalValue::zero();
    let mut i: usize = 0;
    assert(txns_view(ts@).subrange(0, 0) =~= Seq::<TransactionView>::empty());
    while i < n
        invariant
            n == ts@.len(),
            i <= n,
            forall|k: int| 0 <= k < ts@.len() ==> (#[trigger] ts@[k])@.wf(),
            type_sum(txns_view(ts@).subrange(0, i as int), ty) == Some(acc),
            acc.wf(),
        decreases n - i,
    {
        let t = &ts[i];
        let ghost prefix = txns_view(ts@).subrange(0, i + 1);
        assert(prefix.drop_last() =~= txns_view(ts@).subrange(0, i as int));
        assert(prefix.last() == t@);
        let x = match t.checked_amount_number() {
            Some(x) => x,
            None => {
                proof {
                    lemma_type_sum_none_extends(txns_view(ts@), ty, i + 1);
                }
                return None;
            },
        };
        if t.account_type == ty {
            match decimal_add(acc, x) {
                Some(sum) => {
                    acc = sum;
                },
                None => {
                    proof {
                        lemma_type_sum_none_extends(txns_view(ts@), ty, i + 1);
                    }
                    return None;
                },
            }
        }
        i = i + 1;
    }
    assert(txns_view(ts@).subrange(0, n as int) =~= txns_view(ts@));
    Some(acc)
}

/// The balance check of transaction postings; `None` where a product or a
/// sum overflows.
pub fn compute_balance(ts: &Vec<RecordItemTransaction>) -> (r: Option<bool>)
    requires
        forall|i: int| 0 <= i < ts@.len() ==> (#[trigger] ts@[i])@.wf(),
    ensures
        r == spec_balance(txns_view(ts@)),
{
    let assets = match compute_type_total(ts, AccountType::Asset) {
        Some(x) => x,
        None => {
            return None;
        },
    };
    let expenses = match compute_type_total(ts, AccountType::Expense) {
        Some(x) => x,
        None => {
            return None;
        },
    };
    let liabilities = match compute_type_total(ts, AccountType::Liability) {
        Some(x) => x,
        None => {
            return None;
        },
    };
    let equity = match compute_type_total(ts, AccountType::Equity) {
        Some(x) => x,
        None => {
            return None;
        },
    };
    let income = match compute_type_total(ts, AccountType::Income) {
        Some(x) => x,
        None => {
            return None;
        },
    };
    let lhs = match decimal_add(assets, expenses) {
        Some(l) => l,
        None => {
            return None;
        },
    };
    let le = match decimal_add(liabilities, equity) {
        Some(x) => x,
        None => {
            return None;
        },
    };
    let rhs = match decimal_add(le, income) {
        Some(x) => x,
        None => {
            return None;
        },
    };
    Some(decimal_eq(lhs, rhs))
}

/// A dated record of a journal.
#[derive(Debug)]
pub struct Record {
    pub id: String,
    pub version: usize,
    pub created_at: Option<i64>,
    pub last_modified_at: Option<i64>,
    pub journal_id: String,
    /// The date, as days from the Common Era. Validations are checked at the
    /// end of the day, after all the transactions of that day.
    pub date: i32,
    pub items: RecordItems,
    pub description: String,
    pub tags: Vec<String>,
    pub payee: String,
}

/// The mathematical form of a record.
pub struct RecordView {
    pub id: Seq<char>,
    pub version: usize,
    pub created_at: Option<i64>,
    pub last_modified_at: Option<i64>,
    pub journal_id: Seq<char>,
    pub date: i32,
    pub items: RecordItemsView,
    pub description: Seq<char>,
    pub tags: Set<Seq<char>>,
    pub payee: Seq<char>,
}

impl View for Record {
    type V = RecordView;

    open spec fn view(&self) -> RecordView {
        RecordView {
            id: self.id@,
            version: self.version,
            created_at: self.created_at,
            last_modified_at: self.last_modified_at,
            journal_id: self.journal_id@,
            date: self.date,
            items: self.items@,
            description: self.description@,
            tags: str_set(self.tags@),
            payee: self.payee@,
        }
    }
}

impl Clone for Record {
    fn clone(&self) -> (r: Record)
        ensures
            r@ == self@,
            r.tags@ == self.tags@,
    {
        Record {
            id: self.id.clone(),
            version: self.version,
            created_at: self.created_at,
            last_modified_at: self.last_modified_at,
            journal_id: self.journal_id.clone(),
            date: self.date,
            items: self.items.clone(),
            description: self.description.clone(),
            tags: clone_strs(&self.tags),
            payee: self.payee.clone(),
        }
    }
}

/// The resource type of records in errors.
pub open spec fn record_resource() -> Seq<char> {
    "whiterabbit::domain::Record"@
}

/// Whether the balance check of the record can be computed without
/// overflow (always so for validations).
pub open spec fn balance_computable(items: RecordItemsView) -> bool {
    match items {
        RecordItemsView::Transactions(t) => spec_balance(t) is Some,
        RecordItemsView::Validations(_) => true,
    }
}

/// Is the record balanced: assets + expenses = liabilities + equity +
/// income (`None` for validations).
pub open spec fn spec_is_balanced(items: RecordItemsView) -> Option<bool> {
    match items {
        RecordItemsView::Transactions(t) => spec_balance(t),
        RecordItemsView::Validations(_) => None,
    }
}

impl Record {
    /// The resource type of records in errors.
    pub const ENTITY_TYPE: &'static str = "whiterabbit::domain::Record";

    /// A record is well formed: its items are not empty, its amounts are
    /// valid, and its tags are distinct and not blank.
    pub open spec fn wf(&self) -> bool {
        &&& self.items@.wf()
        &&& tags_wf(self.tags@)
    }

    /// Is the transaction record balanced: assets + expenses = liabilities
    /// + equity + income, where each posting counts its amount times its
    /// price and each type counts the sum of all its postings. `None` for
    /// validations.
    pub fn is_balanced(&self) -> (r: Option<bool>)
        requires
            self.items@.wf(),
            balance_computable(self.items@),
        ensures
            r == spec_is_balanced(self.items@),
    {
        match &self.items {
            RecordItems::Transactions(ts) => {
                proof {
                    assert forall|i: int| 0 <= i < ts@.len() implies (#[trigger] ts@[i])@.wf() by {
                        assert(txns_view(ts@)[i] == ts@[i]@);
                    }
                }
                compute_balance(ts)
            },
            RecordItems::Validations(_) => None,
        }
    }

    /// The balance check where it can be computed: `None` where a product
    /// or a sum overflows, else `Some` of what `is_balanced` returns.
    pub fn checked_is_balanced(&self) -> (r: Option<Option<bool>>)
        requires
            self.items@.wf(),
        ensures
            r is Some <==> balance_computable(self.items@),
            r matches Some(b) ==> b == spec_is_balanced(self.items@),
    {
        match &self.items {
            RecordItems::Transactions(ts) => {
                proof {
                    assert forall|i: int| 0 <= i < ts@.len() implies (#[trigger] ts@[i])@.wf() by {
                        assert(txns_view(ts@)[i] == ts@[i]@);
                    }
                }
                match compute_balance(ts) {
                    Some(b) => Some(Some(b)),
                    None => None,
                }
            },
            RecordItems::Validations(_) => Some(None),
        }
    }

    /// Applies an event to this record (event sourcing). `Created`
    /// overwrites the identity, content and creation time and resets the
    /// version; `Updated` overwrites the fields it carries and the
    /// modification time; `Deleted` changes nothing.
    pub fn apply(&mut self, event: &RecordEvent)
        requires
            event.wf(),
        ensures
            final(self)@ == event.spec_apply(old(self)@),
    {
        match event {
            RecordEvent::Created(e) => {
                self.id = e.id.clone();
                self.journal_id = e.journal_id.clone();
                self.date = e.date;
                self.items = e.items.clone();
                self.description = e.description.clone();
                self.tags = collect_tags(&e.tags);
                self.payee = e.payee.clone();
                self.created_at = Some(e.created_at);
                self.version = 0;
            },
            RecordEvent::Updated(e) => {
                match e.date {
                    Some(d) => {
                        self.date = d;
                    },
                    None => {},
                }
                match &e.items {
                    Some(items) => {
                        self.items = items.clone();
                    },
                    None => {},
                }
                match &e.description {
                    Some(desc) => {
                        self.description = desc.clone();
                    },
                    None => {},
                }
                match &e.tags {
                    Some(tags) => {
                        self.tags = collect_tags(tags);
                    },
                    None => {},
                }
                match &e.payee {
                    Some(payee) => {
                        self.payee = payee.clone();
                    },
                    None => {},
                }
                self.last_modified_at = Some(e.last_modified_at);
            },
            RecordEvent::Deleted(_) => {},
        }
    }
}

impl Entity for Record {
    open spec fn key(v: RecordView) -> Seq<char> {
        v.id
    }

    open spec fn inv(&self) -> bool {
        self.wf()
    }

    fn id(&self) -> (r: &String) {
        &self.id
    }

    fn duplicate(&self) -> (r: Record) {
        self.clone()
    }
}

} // verus!
