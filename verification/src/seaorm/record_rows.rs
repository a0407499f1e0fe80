//! Record rows and item rows of the SQL store: how records are written to
//! them and read back from them.
use vstd::prelude::*;
use crate::account::{account_type_name, AccountType};
use crate::common::{clone_opt_str, collect_tags};
use crate::decimal::{
    decimal_parse, decimal_to_string, from_parts, spec_decimal_parse, spec_decimal_to_string,
    DecimalValue,
};
use crate::error::{
    opt_str_view, shared_err, Error, ErrorView, SharedErrorKind, SharedErrorKindView,
};
use crate::record::{
    clone_costs, costs_view, record_resource, Amount, AmountView, CostView, Record,
    RecordItemTransaction, RecordItemValidation, RecordItems, RecordItemsView, RecordView,
    TransactionView, ValidationView,
};
use crate::runtime::new_id;
use crate::seaorm::{enum_of_kind, type_of_name, RecordKindEnum, SeaOrmRecordRepository};
use crate::seaorm::rows::{
    owner_tags, tag_rows_view, tag_set, tags_of_owner, TagRow, TagRowView, Tagged,
};
use crate::text::{chars_of, is_blank, is_blank_chars};

verus! {

impl Tagged for Record {
    open spec fn tag_list(&self) -> Seq<String> {
        self.tags@
    }

    fn tags_ref(&self) -> (r: &Vec<String>) {
        &self.tags
    }
}

/// A row of the record table.
#[derive(Debug)]
pub struct RecordRow {
    pub id: String,
    pub version: i32,
    pub created_at: Option<i64>,
    pub last_modified_at: Option<i64>,
    pub journal_id: String,
    /// The date, as days from the Common Era.
    pub date: i32,
    pub kind: RecordKindEnum,
    pub description: String,
    pub payee: String,
}

/// The mathematical form of a record row.
pub struct RecordRowView {
    pub id: Seq<char>,
    pub version: i32,
    pub created_at: Option<i64>,
    pub last_modified_at: Option<i64>,
    pub journal_id: Seq<char>,
    pub date: i32,
    pub kind: RecordKindEnum,
    pub description: Seq<char>,
    pub payee: Seq<char>,
}

impl View for RecordRow {
    type V = RecordRowView;

    open spec fn view(&self) -> RecordRowView {
        RecordRowView {
            id: self.id@,
            version: self.version,
            created_at: self.created_at,
            last_modified_at: self.last_modified_at,
            journal_id: self.journal_id@,
            date: self.date,
            kind: self.kind,
            description: self.description@,
            payee: self.payee@,
        }
    }
}

/// A row of the item table: one posting or validation of a record. The
/// amounts are stored as printed decimals; the costs are kept as values
/// here (the store holds them as JSON, absent when there are none).
#[derive(Debug)]
pub struct ItemRow {
    pub id: String,
    pub record_id: String,
    pub account_id: String,
    pub account_type: Option<String>,
    pub amount_number: String,
    pub amount_unit: String,
    pub description: String,
    pub price_number: Option<String>,
    pub price_unit: Option<String>,
    pub costs: Vec<crate::record::Cost>,
}

/// The mathematical form of an item row.
pub struct ItemRowView {
    pub id: Seq<char>,
    pub record_id: Seq<char>,
    pub account_id: Seq<char>,
    pub account_type: Option<Seq<char>>,
    pub amount_number: Seq<char>,
    pub amount_unit: Seq<char>,
    pub description: Seq<char>,
    pub price_number: Option<Seq<char>>,
    pub price_unit: Option<Seq<char>>,
    pub costs: Seq<CostView>,
}

impl View for ItemRow {
    type V = ItemRowView;

    open spec fn view(&self) -> ItemRowView {
        ItemRowView {
            id: self.id@,
            record_id: self.record_id@,
            account_id: self.account_id@,
            account_type: opt_str_view(self.account_type),
            amount_number: self.amount_number@,
            amount_unit: self.amount_unit@,
            description: self.description@,
            price_number: opt_str_view(self.price_number),
            price_unit: opt_str_view(self.price_unit),
            costs: costs_view(self.costs@),
        }
    }
}

/// The views of a sequence of item rows.
pub open spec fn item_rows_view(v: Seq<ItemRow>) -> Seq<ItemRowView> {
    v.map_values(|r: ItemRow| r@)
}

/// The row that stores a record (its items and tags go to their own
/// tables); the version is cast to the column's type.
pub open spec fn record_row(r: RecordView) -> RecordRowView {
    RecordRowView {
        id: r.id,
        version: r.version as i32,
        created_at: r.created_at,
        last_modified_at: r.last_modified_at,
        journal_id: r.journal_id,
        date: r.date,
        kind: enum_of_kind(r.items.kind()),
        description: r.description,
        payee: r.payee,
    }
}

/// The printed form of a decimal.
pub open spec fn printed(d: DecimalValue) -> Seq<char> {
    spec_decimal_to_string(d.mantissa, d.scale)
}

/// An item row stores the posting `t` of record `record_id` (whatever its
/// own fresh identifier): the account type by name, the amount and the
/// price printed, the costs as they are.
pub open spec fn stores_transaction(row: ItemRowView, record_id: Seq<char>, t: TransactionView) -> bool {
    &&& row.record_id == record_id
    &&& row.account_id == t.account_id
    &&& row.account_type == Some(account_type_name(t.account_type))
    &&& row.amount_number == printed(t.amount.amount)
    &&& row.amount_unit == t.amount.unit
    &&& row.description == t.description
    &&& row.price_number == (match t.price {
        Some(p) => Some(printed(p.amount)),
        None => None,
    })
    &&& row.price_unit == (match t.price {
        Some(p) => Some(p.unit),
        None => None,
    })
    &&& row.costs == t.cost
}

/// An item row stores the validation `v` of record `record_id`: no account
/// type, price or costs.
pub open spec fn stores_validation(row: ItemRowView, record_id: Seq<char>, v: ValidationView) -> bool {
    &&& row.record_id == record_id
    &&& row.account_id == v.account_id
    &&& row.account_type is None
    &&& row.amount_number == printed(v.amount.amount)
    &&& row.amount_unit == v.amount.unit
    &&& row.description == v.description
    &&& row.price_number is None
    &&& row.price_unit is None
    &&& row.costs.len() == 0
}

/// The item rows store the items of record `record_id`, one row per item,
/// in order.
pub open spec fn stores_items(rows: Seq<ItemRowView>, record_id: Seq<char>, items: RecordItemsView) -> bool {
    match items {
        RecordItemsView::Transactions(ts) => rows.len() == ts.len() && forall|i: int|
            0 <= i < ts.len() ==> stores_transaction(#[trigger] rows[i], record_id, ts[i]),
        RecordItemsView::Validations(vs) => rows.len() == vs.len() && forall|i: int|
            0 <= i < vs.len() ==> stores_validation(#[trigger] rows[i], record_id, vs[i]),
    }
}

/// A stored decimal as it is read: what parsing gives, or zero where the
/// text does not parse.
pub open spec fn decimal_or_zero(s: Seq<char>) -> DecimalValue {
    match from_parts(spec_decimal_parse(s)) {
        Some(d) => d,
        None => DecimalValue { mantissa: 0, scale: 0 },
    }
}

/// A stored amount as it is read.
pub open spec fn amount_of_text(number: Seq<char>, unit: Seq<char>) -> AmountView {
    AmountView { amount: decimal_or_zero(number), unit }
}

/// A stored amount can be read: it is not negative and its unit is not
/// blank.
pub open spec fn amount_text_ok(number: Seq<char>, unit: Seq<char>) -> bool {
    &&& !decimal_or_zero(number).spec_is_negative()
    &&& !is_blank(unit)
}

/// A stored price as it is read: present when both its columns are.
pub open spec fn price_of_texts(n: Option<Seq<char>>, u: Option<Seq<char>>) -> Option<AmountView> {
    match (n, u) {
        (Some(n), Some(u)) => Some(amount_of_text(n, u)),
        _ => None,
    }
}

/// The amounts of an item row of a record of this kind can be read (the
/// price only counts for transactions).
pub open spec fn item_row_ok(row: ItemRowView, kind: RecordKindEnum) -> bool {
    &&& amount_text_ok(row.amount_number, row.amount_unit)
    &&& (kind == RecordKindEnum::Transaction ==> match (row.price_number, row.price_unit) {
        (Some(n), Some(u)) => amount_text_ok(n, u),
        _ => true,
    })
}

/// Every item row can be read.
pub open spec fn item_rows_ok(rows: Seq<ItemRowView>, kind: RecordKindEnum) -> bool {
    forall|i: int| 0 <= i < rows.len() ==> item_row_ok(#[trigger] rows[i], kind)
}

/// The posting an item row stands for; an account type that is missing
/// reads as `Asset`, the default.
pub open spec fn transaction_of_row(row: ItemRowView) -> TransactionView {
    TransactionView {
        account_id: row.account_id,
        account_type: match row.account_type {
            Some(s) => type_of_name(s),
            None => AccountType::Asset,
        },
        amount: amount_of_text(row.amount_number, row.amount_unit),
        price: price_of_texts(row.price_number, row.price_unit),
        cost: row.costs,
        description: row.description,
    }
}

/// The validation an item row stands for.
pub open spec fn validation_of_row(row: ItemRowView) -> ValidationView {
    ValidationView {
        account_id: row.account_id,
        amount: amount_of_text(row.amount_number, row.amount_unit),
        description: row.description,
    }
}

/// The error of a stored record without items.
pub open spec fn record_items_error() -> ErrorView {
    shared_err(SharedErrorKindView::NonEmpty, record_resource(), "items"@)
}

/// The items that item rows stand for, by the record's kind; an error
/// where there is none.
pub open spec fn items_of_rows(kind: RecordKindEnum, rows: Seq<ItemRowView>) -> Result<RecordItemsView, ErrorView> {
    if rows.len() == 0 {
        Err(record_items_error())
    } else {
        match kind {
            RecordKindEnum::Transaction => Ok(
                RecordItemsView::Transactions(rows.map_values(|r: ItemRowView| transaction_of_row(r))),
            ),
            RecordKindEnum::Validation => Ok(
                RecordItemsView::Validations(rows.map_values(|r: ItemRowView| validation_of_row(r))),
            ),
        }
    }
}

/// The item rows of one record, in row order.
pub open spec fn record_item_rows(rows: Seq<ItemRowView>, record_id: Seq<char>) -> Seq<ItemRowView>
    decreases rows.len(),
{
    if rows.len() == 0 {
        Seq::empty()
    } else {
        let p = record_item_rows(rows.drop_last(), record_id);
        if rows.last().record_id == record_id {
            p.push(rows.last())
        } else {
            p
        }
    }
}

/// The record that a row, its items and its tags stand for: blank and
/// repeated tags are dropped.
pub open spec fn record_of_row(row: RecordRowView, items: RecordItemsView, tags: Seq<Seq<char>>) -> RecordView {
    RecordView {
        id: row.id,
        version: row.version as usize,
        created_at: row.created_at,
        last_modified_at: row.last_modified_at,
        journal_id: row.journal_id,
        date: row.date,
        items,
        description: row.description,
        tags: tag_set(tags),
        payee: row.payee,
    }
}

/// Reads a stored amount.
pub fn parse_amount(number: &str, unit: &str) -> (r: Amount)
    requires
        amount_text_ok(number@, unit@),
    ensures
        r@ == amount_of_text(number@, unit@),
        r@.wf(),
{
    let amount = match decimal_parse(number) {
        Some(d) => d,
        None => DecimalValue::zero(),
    };
    Amount { amount, unit: unit.to_string() }
}

/// Whether a stored amount can be read.
pub fn amount_readable(number: &str, unit: &str) -> (r: bool)
    ensures
        r == amount_text_ok(number@, unit@),
{
    let negative = match decimal_parse(number) {
        Some(d) => d.is_negative(),
        None => false,
    };
    !negative && !is_blank_chars(&chars_of(unit))
}

/// Whether every item row of a record of this kind can be read.
pub fn item_rows_readable(rows: &Vec<ItemRow>, kind: RecordKindEnum) -> (r: bool)
    ensures
        r == item_rows_ok(item_rows_view(rows@), kind),
{
    let n = rows.len();
    let mut i: usize = 0;
    while i < n
        invariant
            n == rows@.len(),
            i <= n,
            forall|k: int| 0 <= k < i ==> item_row_ok(#[trigger] item_rows_view(rows@)[k], kind),
        decreases n - i,
    {
        let row = &rows[i];
        let amount_ok = amount_readable(row.amount_number.as_str(), row.amount_unit.as_str());
        let price_ok = match (&row.price_number, &row.price_unit) {
            (Some(n), Some(u)) => kind == RecordKindEnum::Validation || amount_readable(
                n.as_str(),
                u.as_str(),
            ),
            _ => true,
        };
        if !(amount_ok && price_ok) {
            assert(!item_row_ok(item_rows_view(rows@)[i as int], kind));
            return false;
        }
        assert(item_row_ok(item_rows_view(rows@)[i as int], kind));
        i = i + 1;
    }
    true
}

/// The item rows of one record, in row order.
pub fn item_rows_of(rows: &Vec<ItemRow>, record_id: &String) -> (r: Vec<ItemRow>)
    ensures
        item_rows_view(r@) == record_item_rows(item_rows_view(rows@), record_id@),
{
    let mut r: Vec<ItemRow> = Vec::new();
    let n = rows.len();
    let mut i: usize = 0;
    while i < n
        invariant
            n == rows@.len(),
            i <= n,
            item_rows_view(r@) == record_item_rows(
                item_rows_view(rows@.subrange(0, i as int)),
                record_id@,
            ),
        decreases n - i,
    {
        let ghost before = r@;
        proof {
            let s = item_rows_view(rows@.subrange(0, i + 1));
            assert(s.drop_last() =~= item_rows_view(rows@.subrange(0, i as int)));
            assert(s.last() == rows@[i as int]@);
        }
        if rows[i].record_id == *record_id {
            r.push(rows[i].clone());
            proof {
                assert(item_rows_view(r@) =~= item_rows_view(before).push(rows@[i as int]@));
            }
        }
        i = i + 1;
    }
    assert(rows@.subrange(0, n as int) =~= rows@);
    r
}

impl Clone for ItemRow {
    fn clone(&self) -> (r: ItemRow)
        ensures
            r@ == self@,
    {
        ItemRow {
            id: self.id.clone(),
            record_id: self.record_id.clone(),
            account_id: self.account_id.clone(),
            account_type: clone_opt_str(&self.account_type),
            amount_number: self.amount_number.clone(),
            amount_unit: self.amount_unit.clone(),
            description: self.description.clone(),
            price_number: clone_opt_str(&self.price_number),
            price_unit: clone_opt_str(&self.price_unit),
            costs: clone_costs(&self.costs),
        }
    }
}

impl SeaOrmRecordRepository {
    /// The row that stores a record.
    pub fn convert_to_active_model(&self, r: &Record) -> (row: RecordRow)
        ensures
            row@ == record_row(r@),
    {
        let kind = match &r.items {
            RecordItems::Transactions(_) => RecordKindEnum::Transaction,
            RecordItems::Validations(_) => RecordKindEnum::Validation,
        };
        RecordRow {
            id: r.id.clone(),
            version: r.version as i32,
            created_at: r.created_at,
            last_modified_at: r.last_modified_at,
            journal_id: r.journal_id.clone(),
            date: r.date,
            kind,
            description: r.description.clone(),
            payee: r.payee.clone(),
        }
    }

    /// The item rows that store the items of a record, one per item in
    /// order, each with a fresh identifier.
    pub fn item_rows(&self, r: &Record) -> (rows: Vec<ItemRow>)
        requires
            r.items@.wf(),
        ensures
            stores_items(item_rows_view(rows@), r.id@, r.items@),
    {
        let mut rows: Vec<ItemRow> = Vec::new();
        match &r.items {
            RecordItems::Transactions(ts) => {
                let n = ts.len();
                let mut i: usize = 0;
                while i < n
                    invariant
                        n == ts@.len(),
                        i <= n,
                        rows@.len() == i,
                        r.items@ == RecordItemsView::Transactions(crate::record::txns_view(ts@)),
                        r.items@.wf(),
                        forall|k: int|
                            0 <= k < i ==> stores_transaction(
                                (#[trigger] rows@[k])@,
                                r.id@,
                                ts@[k]@,
                            ),
                    decreases n - i,
                {
                    let t = &ts[i];
                    assert(crate::record::txns_view(ts@)[i as int] == t@);
                    assert(t@.wf());
                    let (price_number, price_unit) = match &t.price {
                        Some(p) => (Some(decimal_to_string(p.amount)), Some(p.unit.clone())),
                        None => (None, None),
                    };
                    rows.push(
                        ItemRow {
                            id: new_id(),
                            record_id: r.id.clone(),
                            account_id: t.account_id.clone(),
                            account_type: Some(SeaOrmRecordRepository::account_type_to_str(t.account_type)),
                            amount_number: decimal_to_string(t.amount.amount),
                            amount_unit: t.amount.unit.clone(),
                            description: t.description.clone(),
                            price_number,
                            price_unit,
                            costs: clone_costs(&t.cost),
                        },
                    );
                    i = i + 1;
                }
                proof {
                    assert forall|k: int| 0 <= k < n implies stores_transaction(
                        #[trigger] item_rows_view(rows@)[k],
                        r.id@,
                        crate::record::txns_view(ts@)[k],
                    ) by {
                        assert(item_rows_view(rows@)[k] == rows@[k]@);
                        assert(crate::record::txns_view(ts@)[k] == ts@[k]@);
                    }
                }
            },
            RecordItems::Validations(vs) => {
                let n = vs.len();
                let mut i: usize = 0;
                while i < n
                    invariant
                        n == vs@.len(),
                        i <= n,
                        rows@.len() == i,
                        r.items@ == RecordItemsView::Validations(crate::record::vals_view(vs@)),
                        r.items@.wf(),
                        forall|k: int|
                            0 <= k < i ==> stores_validation(
                                (#[trigger] rows@[k])@,
                                r.id@,
                                vs@[k]@,
                            ),
                    decreases n - i,
                {
                    let v = &vs[i];
                    assert(crate::record::vals_view(vs@)[i as int] == v@);
                    rows.push(
                        ItemRow {
                            id: new_id(),
                            record_id: r.id.clone(),
                            account_id: v.account_id.clone(),
                            account_type: None,
                            amount_number: decimal_to_string(v.amount.amount),
                            amount_unit: v.amount.unit.clone(),
                            description: v.description.clone(),
                            price_number: None,
                            price_unit: None,
                            costs: Vec::new(),
                        },
                    );
                    i = i + 1;
                }
                proof {
                    assert forall|k: int| 0 <= k < n implies stores_validation(
                        #[trigger] item_rows_view(rows@)[k],
                        r.id@,
                        crate::record::vals_view(vs@)[k],
                    ) by {
                        assert(item_rows_view(rows@)[k] == rows@[k]@);
                        assert(crate::record::vals_view(vs@)[k] == vs@[k]@);
                    }
                }
            },
        }
        rows
    }
}

/// The items that item rows stand for, by the record's kind; an error
/// where there is none.
pub fn reconstruct_items(kind: &RecordKindEnum, rows: &Vec<ItemRow>) -> (r: Result<RecordItems, Error>)
    requires
        item_rows_ok(item_rows_view(rows@), *kind),
    ensures
        match items_of_rows(*kind, item_rows_view(rows@)) {
            Ok(items) => r is Ok && r->Ok_0@ == items,
            Err(e) => r is Err && r->Err_0@ == e,
        },
{
    let n = rows.len();
    if n == 0 {
        return Err(
            SharedErrorKind::NonEmpty.into_error().with_resource_type(Record::ENTITY_TYPE).with_field(
                "items",
            ),
        );
    }
    match kind {
        RecordKindEnum::Transaction => {
            let mut ts: Vec<RecordItemTransaction> = Vec::new();
            let mut i: usize = 0;
            while i < n
                invariant
                    n == rows@.len(),
                    i <= n,
                    ts@.len() == i,
                    *kind == RecordKindEnum::Transaction,
                    item_rows_ok(item_rows_view(rows@), *kind),
                    forall|k: int|
                        0 <= k < i ==> (#[trigger] ts@[k])@ == transaction_of_row(rows@[k]@),
                decreases n - i,
            {
                let row = &rows[i];
                assert(item_rows_view(rows@)[i as int] == row@);
                assert(item_row_ok(row@, *kind));
                let account_type = match &row.account_type {
                    Some(s) => SeaOrmRecordRepository::account_type_from_str(s.as_str()),
                    None => AccountType::Asset,
                };
                let price = match (&row.price_number, &row.price_unit) {
                    (Some(pn), Some(pu)) => Some(parse_amount(pn.as_str(), pu.as_str())),
                    _ => None,
                };
                ts.push(
                    RecordItemTransaction {
                        account_id: row.account_id.clone(),
                        account_type,
                        amount: parse_amount(row.amount_number.as_str(), row.amount_unit.as_str()),
                        price,
                        cost: clone_costs(&row.costs),
                        description: row.description.clone(),
                    },
                );
                i = i + 1;
            }
            let r = RecordItems::Transactions(ts);
            proof {
                assert(crate::record::txns_view(ts@) =~= item_rows_view(rows@).map_values(
                    |x: ItemRowView| transaction_of_row(x),
                ));
            }
            Ok(r)
        },
        RecordKindEnum::Validation => {
            let mut vs: Vec<RecordItemValidation> = Vec::new();
            let mut i: usize = 0;
            while i < n
                invariant
                    n == rows@.len(),
                    i <= n,
                    vs@.len() == i,
                    item_rows_ok(item_rows_view(rows@), *kind),
                    forall|k: int|
                        0 <= k < i ==> (#[trigger] vs@[k])@ == validation_of_row(rows@[k]@),
                decreases n - i,
            {
                let row = &rows[i];
                assert(item_rows_view(rows@)[i as int] == row@);
                assert(item_row_ok(row@, *kind));
                vs.push(
                    RecordItemValidation {
                        account_id: row.account_id.clone(),
                        amount: parse_amount(row.amount_number.as_str(), row.amount_unit.as_str()),
                        description: row.description.clone(),
                    },
                );
                i = i + 1;
            }
            let r = RecordItems::Validations(vs);
            proof {
                assert(crate::record::vals_view(vs@) =~= item_rows_view(rows@).map_values(
                    |x: ItemRowView| validation_of_row(x),
                ));
            }
            Ok(r)
        },
    }
}

/// What reading one record row gives: the record, with its items and
/// tags, or the error of a record without items.
pub open spec fn read_record(
    row: RecordRowView,
    items: Seq<ItemRowView>,
    tags: Seq<TagRowView>,
) -> Result<RecordView, ErrorView> {
    match items_of_rows(row.kind, record_item_rows(items, row.id)) {
        Ok(its) => Ok(record_of_row(row, its, owner_tags(tags, row.id))),
        Err(e) => Err(e),
    }
}

/// The item rows of the record can be read.
pub open spec fn record_items_ok(row: RecordRowView, items: Seq<ItemRowView>) -> bool {
    item_rows_ok(record_item_rows(items, row.id), row.kind)
}

impl SeaOrmRecordRepository {
    /// The record that a row stands for, with the item rows and tag rows
    /// that belong to it; an error where it has no items.
    pub fn convert_to_entity(&self, row: &RecordRow, items: &Vec<ItemRow>, tags: &Vec<TagRow>) -> (r:
        Result<Record, Error>)
        requires
            record_items_ok(row@, item_rows_view(items@)),
        ensures
            match read_record(row@, item_rows_view(items@), tag_rows_view(tags@)) {
                Ok(v) => r is Ok && r->Ok_0@ == v,
                Err(e) => r is Err && r->Err_0@ == e,
            },
    {
        let own = item_rows_of(items, &row.id);
        let parsed = reconstruct_items(&row.kind, &own);
        match parsed {
            Err(e) => Err(e),
            Ok(its) => {
                let own_tags = tags_of_owner(tags, &row.id);
                Ok(
                    Record {
                        id: row.id.clone(),
                        version: row.version as usize,
                        created_at: row.created_at,
                        last_modified_at: row.last_modified_at,
                        journal_id: row.journal_id.clone(),
                        date: row.date,
                        items: its,
                        description: row.description.clone(),
                        tags: collect_tags(&own_tags),
                        payee: row.payee.clone(),
                    },
                )
            },
        }
    }

    /// The records that the rows stand for, in row order, reading each row
    /// in turn: `None` where the first row that cannot be read, or that has
    /// no items, has a stored amount that is negative or has a blank unit
    /// (there the store's content is corrupt); the error of the first row
    /// without items; otherwise every record.
    pub fn convert_to_entities(&self, rows: &Vec<RecordRow>, items: &Vec<ItemRow>, tags: &Vec<
        TagRow,
    >) -> (r: Option<Result<Vec<Record>, Error>>)
        ensures
            r is None <==> exists|i: int|
                0 <= i < rows@.len() && !record_items_ok(rows@[i]@, item_rows_view(items@))
                    && forall|k: int| 0 <= k < i ==> read_ok(#[trigger] rows@[k]@, item_rows_view(items@)),
            r matches Some(Err(e)) ==> e@ == record_items_error(),
            r matches Some(Ok(v)) ==> v@.len() == rows@.len() && forall|i: int|
                0 <= i < rows@.len() ==> read_ok(rows@[i]@, item_rows_view(items@)) && read_record(
                    rows@[i]@,
                    item_rows_view(items@),
                    tag_rows_view(tags@),
                ) == Ok::<RecordView, ErrorView>((#[trigger] v@[i])@),
            (forall|i: int| 0 <= i < rows@.len() ==> read_ok(#[trigger] rows@[i]@, item_rows_view(items@)))
                ==> r is Some && r->Some_0 is Ok,
    {
        let mut out: Vec<Record> = Vec::new();
        let n = rows.len();
        let mut i: usize = 0;
        while i < n
            invariant
                n == rows@.len(),
                i <= n,
                out@.len() == i,
                forall|k: int| 0 <= k < i ==> read_ok(#[trigger] rows@[k]@, item_rows_view(items@)),
                forall|k: int|
                    0 <= k < i ==> read_record(rows@[k]@, item_rows_view(items@), tag_rows_view(tags@))
                        == Ok::<RecordView, ErrorView>((#[trigger] out@[k])@),
            decreases n - i,
        {
            let own = item_rows_of(items, &rows[i].id);
            if !item_rows_readable(&own, rows[i].kind) {
                assert(!read_ok(rows@[i as int]@, item_rows_view(items@)));
                return None;
            }
            match self.convert_to_entity(&rows[i], items, tags) {
                Ok(rec) => {
                    out.push(rec);
                },
                Err(e) => {
                    return Some(Err(e));
                },
            }
            i = i + 1;
        }
        Some(Ok(out))
    }
}

/// A record row can be read and has items.
pub open spec fn read_ok(row: RecordRowView, items: Seq<ItemRowView>) -> bool {
    &&& record_items_ok(row, items)
    &&& record_item_rows(items, row.id).len() > 0
}

/// Every amount and price of the items reads back as the decimal it was
/// printed from (what `rust_decimal` gives when it parses what it printed).
pub open spec fn amounts_read_back(items: RecordItemsView) -> bool {
    match items {
        RecordItemsView::Transactions(ts) => forall|i: int|
            0 <= i < ts.len() ==> {
                &&& decimal_or_zero(printed((#[trigger] ts[i]).amount.amount)) == ts[i].amount.amount
                &&& (ts[i].price matches Some(p) ==> decimal_or_zero(printed(p.amount)) == p.amount)
            },
        RecordItemsView::Validations(vs) => forall|i: int|
            0 <= i < vs.len() ==> decimal_or_zero(printed((#[trigger] vs[i]).amount.amount))
                == vs[i].amount.amount,
    }
}

/// A stored account type name reads back as the type it names.
pub proof fn lemma_type_name_round_trip(t: AccountType)
    ensures
        type_of_name(account_type_name(t)) == t,
{
    reveal_strlit("Asset");
    reveal_strlit("Liability");
    reveal_strlit("Equity");
    reveal_strlit("Income");
    reveal_strlit("Expense");
    assert("Asset"@.len() == 5 && "Liability"@.len() == 9 && "Equity"@.len() == 6);
    assert("Income"@.len() == 6 && "Expense"@.len() == 7);
    match t {
        AccountType::Asset => {},
        AccountType::Liability => {
            assert("Liability"@ != "Asset"@);
        },
        AccountType::Equity => {
            assert("Equity"@ != "Asset"@);
            assert("Equity"@ != "Liability"@);
        },
        AccountType::Income => {
            assert("Income"@ != "Asset"@);
            assert("Income"@ != "Liability"@);
            assert("Income"@[0] != "Equity"@[0]);
            assert("Income"@ != "Equity"@);
        },
        AccountType::Expense => {
            assert("Expense"@ != "Asset"@);
            assert("Expense"@ != "Liability"@);
            assert("Expense"@ != "Equity"@);
            assert("Expense"@ != "Income"@);
        },
    }
}

/// Rows that all belong to one record are all its rows.
pub proof fn lemma_record_item_rows_all(rows: Seq<ItemRowView>, record_id: Seq<char>)
    requires
        forall|i: int| 0 <= i < rows.len() ==> (#[trigger] rows[i]).record_id == record_id,
    ensures
        record_item_rows(rows, record_id) == rows,
    decreases rows.len(),
{
    if rows.len() > 0 {
        let p = rows.drop_last();
        assert forall|i: int| 0 <= i < p.len() implies (#[trigger] p[i]).record_id == record_id by {
            assert(p[i] == rows[i]);
        }
        lemma_record_item_rows_all(p, record_id);
        assert(rows[rows.len() - 1] == rows.last());
        assert(p.push(rows.last()) =~= rows);
    }
}

/// The item rows that store well-formed items whose amounts read back can
/// be read, and give those items back.
pub proof fn lemma_items_round_trip(rows: Seq<ItemRowView>, record_id: Seq<char>, items: RecordItemsView)
    requires
        stores_items(rows, record_id, items),
        items.wf(),
        amounts_read_back(items),
    ensures
        item_rows_ok(record_item_rows(rows, record_id), enum_of_kind(items.kind())),
        items_of_rows(enum_of_kind(items.kind()), record_item_rows(rows, record_id)) == Ok::<
            RecordItemsView,
            ErrorView,
        >(items),
{
    match items {
        RecordItemsView::Transactions(ts) => {
            assert forall|i: int| 0 <= i < rows.len() implies (#[trigger] rows[i]).record_id
                == record_id by {
                assert(stores_transaction(rows[i], record_id, ts[i]));
            }
            lemma_record_item_rows_all(rows, record_id);
            assert forall|i: int| 0 <= i < rows.len() implies item_row_ok(
                #[trigger] rows[i],
                RecordKindEnum::Transaction,
            ) by {
                assert(stores_transaction(rows[i], record_id, ts[i]));
                assert(ts[i].wf());
            }
            assert forall|i: int| 0 <= i < rows.len() implies transaction_of_row(#[trigger] rows[i])
                == ts[i] by {
                assert(stores_transaction(rows[i], record_id, ts[i]));
                lemma_type_name_round_trip(ts[i].account_type);
            }
            assert(rows.map_values(|r: ItemRowView| transaction_of_row(r)) =~= ts);
        },
        RecordItemsView::Validations(vs) => {
            assert forall|i: int| 0 <= i < rows.len() implies (#[trigger] rows[i]).record_id
                == record_id by {
                assert(stores_validation(rows[i], record_id, vs[i]));
            }
            lemma_record_item_rows_all(rows, record_id);
            assert forall|i: int| 0 <= i < rows.len() implies item_row_ok(
                #[trigger] rows[i],
                RecordKindEnum::Validation,
            ) by {
                assert(stores_validation(rows[i], record_id, vs[i]));
            }
            assert forall|i: int| 0 <= i < rows.len() implies validation_of_row(#[trigger] rows[i])
                == vs[i] by {
                assert(stores_validation(rows[i], record_id, vs[i]));
            }
            assert(rows.map_values(|r: ItemRowView| validation_of_row(r)) =~= vs);
        },
    }
}

} // verus!
