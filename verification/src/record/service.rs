//! The record service: resolves the accounts a record posts to, validates
//! the items and stores the records.
use vstd::prelude::*;
use crate::account::{account_resource, Account, AccountView};
use crate::account::repository::AccountRepository;
use crate::common::{
    clone_strs, collect_tags, dedup_strs, first_from, lemma_first_from, lemma_first_from_before,
    lemma_str_set_contains, str_set, tag_set_of,
};
use crate::error::{
    err_view, shared_err, shared_err_detail, strs_view, Error, ErrorKind, ErrorKindView, ErrorView,
    SharedErrorKind, SharedErrorKindView,
};
use crate::inmemory::{InMemorySession, StoresView};
use crate::record::{record_resource, Record, RecordItemKind, RecordView};
use crate::record::command::{
    RecordCommand, RecordCommandBatch, RecordCommandCreate, RecordCommandItem, RecordCommandUpdate,
};
use crate::record::event::{RecordCreated, RecordDeleted, RecordEvent, RecordUpdated};
use crate::record::input::{
    lemma_items_same, same_item_input, same_item_inputs, spec_parse_items, AmountInput, CostInput,
    RecordInput, RecordItemInput,
};
use crate::record::repository::RecordRepository;
use crate::runtime::{new_id, now_micros};
use crate::store::{
    all_inv, find_by_id, key_in, key_not_in, lemma_filter_unique, lemma_lookup_filter, lookup,
    upsert_all, views, Entity,
};
use crate::text::concat3;

verus! {

broadcast use vstd::seq_lib::group_seq_properties;

/// The account an item posts to, if it exists.
pub open spec fn item_account(sa: Seq<AccountView>, item: RecordCommandItem) -> Option<AccountView> {
    lookup::<Account>(sa, item.account_id@)
}

/// Item `i` cannot be posted: its account is missing, belongs to another
/// journal, or is archived.
pub open spec fn item_unusable_at(
    sa: Seq<AccountView>,
    journal_id: Seq<char>,
    items: Seq<RecordCommandItem>,
) -> spec_fn(int) -> bool {
    |i: int|
        match item_account(sa, items[i]) {
            None => true,
            Some(a) => a.journal_id != journal_id || a.archived_at is Some,
        }
}

/// Why the items cannot be posted, if they cannot: for the first unusable
/// item, its account is missing; else it belongs to another journal; else
/// it is archived.
pub open spec fn resolve_error(
    sa: Seq<AccountView>,
    journal_id: Seq<char>,
    items: Seq<RecordCommandItem>,
) -> Option<ErrorView> {
    let n = items.len() as int;
    let k = first_from(0, n, item_unusable_at(sa, journal_id, items));
    if k < n {
        let id = items[k].account_id@;
        match item_account(sa, items[k]) {
            None => Some(
                shared_err_detail(
                    SharedErrorKindView::NotFound,
                    account_resource(),
                    "account_id"@,
                    "account "@ + id + " not found"@,
                ),
            ),
            Some(a) => if a.journal_id != journal_id {
                Some(
                    err_view(
                        ErrorKindView::Mismatch { expected: journal_id, actual: a.journal_id },
                        Some(record_resource()),
                        Some("journal_id"@),
                        None,
                    ),
                )
            } else {
                Some(
                    shared_err_detail(
                        SharedErrorKindView::Conflict,
                        account_resource(),
                        "account_id"@,
                        "account "@ + id + " is archived"@,
                    ),
                )
            },
        }
    } else {
        None
    }
}

/// `inp` is the input for command item `item` posting to account `a`.
pub open spec fn resolves_to(inp: RecordItemInput, item: RecordCommandItem, a: AccountView, kind: RecordItemKind) -> bool {
    &&& inp.account_id@ == item.account_id@
    &&& inp.account_type == a.account_type
    &&& inp.kind == kind
    &&& inp.amount.0@ == item.amount@
    &&& inp.description@ == item.description@
    &&& match (inp.price, item.price) {
        (Some(p), Some(q)) => p.0@ == q@,
        (None, None) => true,
        _ => false,
    }
    &&& inp.cost@.len() == item.cost@.len()
    &&& forall|k: int| 0 <= k < inp.cost@.len() ==> #[trigger] inp.cost@[k].0@ == item.cost@[k]@
}

/// `v` holds the inputs for the command items, in order.
pub open spec fn resolves_all(
    v: Seq<RecordItemInput>,
    sa: Seq<AccountView>,
    kind: RecordItemKind,
    items: Seq<RecordCommandItem>,
) -> bool {
    &&& v.len() == items.len()
    &&& forall|i: int|
        0 <= i < v.len() ==> resolves_to(#[trigger] v[i], items[i], item_account(sa, items[i])->0, kind)
}

/// Inputs for the command items (any that `resolves_all` describes: they
/// all parse alike).
pub open spec fn resolved_inputs(sa: Seq<AccountView>, kind: RecordItemKind, items: Seq<RecordCommandItem>) -> Seq<
    RecordItemInput,
> {
    choose|v: Seq<RecordItemInput>| resolves_all(v, sa, kind, items)
}

proof fn lemma_resolved_same(v: Seq<RecordItemInput>, sa: Seq<AccountView>, kind: RecordItemKind, items: Seq<RecordCommandItem>)
    requires
        resolves_all(v, sa, kind, items),
    ensures
        same_item_inputs(v, resolved_inputs(sa, kind, items)),
{
    let w = resolved_inputs(sa, kind, items);
    assert(resolves_all(w, sa, kind, items));
    assert forall|i: int| 0 <= i < v.len() implies same_item_input(#[trigger] v[i], w[i]) by {
        assert(resolves_to(v[i], items[i], item_account(sa, items[i])->0, kind));
        assert(resolves_to(w[i], items[i], item_account(sa, items[i])->0, kind));
        assert forall|k: int| 0 <= k < v[i].cost@.len() implies #[trigger] v[i].cost@[k].0@ == w[i].cost@[k].0@ by {
            assert(v[i].cost@[k].0@ == items[i].cost@[k]@);
            assert(w[i].cost@[k].0@ == items[i].cost@[k]@);
        }
    }
}

/// Looks up the accounts the items post to and builds the item inputs;
/// each account must exist, belong to `journal_id` and not be archived.
fn resolve_items<AR: AccountRepository>(
    account_repo: &AR,
    sess: &InMemorySession,
    journal_id: &String,
    kind: RecordItemKind,
    items: &Vec<RecordCommandItem>,
) -> (r: Result<Vec<RecordItemInput>, Error>)
    requires
        sess.wf(),
    ensures
        match resolve_error(sess@.accounts, journal_id@, items@) {
            Some(e) => r is Err && r->Err_0@ == e,
            None => r is Ok && resolves_all(r->Ok_0@, sess@.accounts, kind, items@),
        },
{
    let ghost sa = sess@.accounts;
    let ghost c = items@;
    let n = items.len();
    let mut ids: Vec<String> = Vec::new();
    let mut i: usize = 0;
    while i < n
        invariant
            n == c.len(),
            c == items@,
            i <= n,
            ids@.len() == i,
            forall|j: int| 0 <= j < i ==> (#[trigger] ids@[j])@ == c[j].account_id@,
        decreases n - i,
    {
        ids.push(items[i].account_id.clone());
        i = i + 1;
    }
    let accounts = account_repo.find_all_by_ids(sess, &ids);
    proof {
        lemma_filter_unique::<Account>(sa, key_in::<Account>(str_set(ids@)));
    }
    let mut out: Vec<RecordItemInput> = Vec::new();
    let mut i: usize = 0;
    while i < n
        invariant
            n == c.len(),
            c == items@,
            sa == sess@.accounts,
            sess.wf(),
            i <= n,
            ids@.len() == n,
            forall|j: int| 0 <= j < n ==> (#[trigger] ids@[j])@ == c[j].account_id@,
            views(accounts@) == sa.filter(key_in::<Account>(str_set(ids@))),
            crate::store::unique_keys::<Account>(views(accounts@)),
            forall|j: int| 0 <= j < i ==> !#[trigger] item_unusable_at(sa, journal_id@, c)(j),
            out@.len() == i,
            forall|j: int|
                0 <= j < i ==> resolves_to(#[trigger] out@[j], c[j], item_account(sa, c[j])->0, kind),
        decreases n - i,
    {
        let item = &items[i];
        proof {
            lemma_str_set_contains(ids@, c[i as int].account_id@);
            assert(ids@[i as int]@ == c[i as int].account_id@);
            lemma_lookup_filter::<Account>(sa, str_set(ids@), c[i as int].account_id@);
        }
        match find_by_id(&accounts, &item.account_id) {
            None => {
                proof {
                    lemma_first_from(0, n as int, item_unusable_at(sa, journal_id@, c), i as int);
                }
                return Err(
                    SharedErrorKind::NotFound.into_error().with_resource_type(
                        Account::ENTITY_TYPE,
                    ).with_field("account_id").with_detail(
                        concat3("account ", item.account_id.as_str(), " not found"),
                    ),
                );
            },
            Some(a) => {
                if a.journal_id != *journal_id {
                    proof {
                        lemma_first_from(0, n as int, item_unusable_at(sa, journal_id@, c), i as int);
                    }
                    return Err(
                        ErrorKind::mismatch(journal_id.clone(), a.journal_id.clone()).with_resource_type(
                            Record::ENTITY_TYPE,
                        ).with_field("journal_id"),
                    );
                }
                if a.archived_at.is_some() {
                    proof {
                        lemma_first_from(0, n as int, item_unusable_at(sa, journal_id@, c), i as int);
                    }
                    return Err(
                        SharedErrorKind::Conflict.into_error().with_resource_type(
                            Account::ENTITY_TYPE,
                        ).with_field("account_id").with_detail(
                            concat3("account ", item.account_id.as_str(), " is archived"),
                        ),
                    );
                }
                let mut cost: Vec<CostInput> = Vec::new();
                let m = item.cost.len();
                let mut k: usize = 0;
                while k < m
                    invariant
                        m == item.cost@.len(),
                        k <= m,
                        cost@.len() == k,
                        forall|q: int| 0 <= q < k ==> #[trigger] cost@[q].0@ == item.cost@[q]@,
                    decreases m - k,
                {
                    cost.push(CostInput(item.cost[k].clone()));
                    k = k + 1;
                }
                let price = match &item.price {
                    Some(p) => Some(AmountInput(p.clone())),
                    None => None,
                };
                let inp = RecordItemInput {
                    account_id: item.account_id.clone(),
                    account_type: a.account_type,
                    kind,
                    amount: AmountInput(item.amount.clone()),
                    description: item.description.clone(),
                    price,
                    cost,
                };
                let ghost before = out@;
                out.push(inp);
                proof {
                    assert forall|j: int| 0 <= j < i + 1 implies resolves_to(#[trigger] out@[j], c[j], item_account(sa, c[j])->0, kind) by {
                        if j < i {
                            assert(out@[j] == before[j]);
                        }
                    }
                }
            },
        }
        i = i + 1;
    }
    proof {
        lemma_first_from(0, n as int, item_unusable_at(sa, journal_id@, c), n as int);
    }
    Ok(out)
}

/// What validating a record with these fields gives: the items must parse.
pub open spec fn record_result(
    id: Seq<char>,
    version: usize,
    created_at: Option<i64>,
    last_modified_at: Option<i64>,
    journal_id: Seq<char>,
    date: i32,
    items: Seq<RecordItemInput>,
    description: Seq<char>,
    tags: Set<Seq<char>>,
    payee: Seq<char>,
) -> Result<RecordView, ErrorView> {
    match spec_parse_items(items) {
        Err(e) => Err(e),
        Ok(iv) => Ok(
            RecordView {
                id,
                version,
                created_at,
                last_modified_at,
                journal_id,
                date,
                items: iv,
                description,
                tags,
                payee,
            },
        ),
    }
}

/// The record command `cmd` creates with identifier `id`, or why it fails:
/// the accounts are resolved, then the items parsed. The record has no
/// creation time of its own; its event carries the time.
pub open spec fn created_record(sa: Seq<AccountView>, cmd: RecordCommandCreate, id: Seq<char>) -> Result<
    RecordView,
    ErrorView,
> {
    match resolve_error(sa, cmd.journal_id@, cmd.items@) {
        Some(e) => Err(e),
        None => record_result(
            id,
            0,
            None,
            None,
            cmd.journal_id@,
            cmd.date,
            resolved_inputs(sa, cmd.kind, cmd.items@),
            cmd.description@,
            tag_set_of(cmd.tags@),
            cmd.payee@,
        ),
    }
}

/// Command `i` fails.
pub open spec fn create_fails_at(sa: Seq<AccountView>, cmds: Seq<RecordCommandCreate>, ids: Seq<String>) -> spec_fn(
    int,
) -> bool {
    |i: int| created_record(sa, cmds[i], ids[i]@) is Err
}

/// The records the commands create, the `i`th with the `i`th identifier;
/// or the error of the first command that fails.
pub open spec fn records_created(sa: Seq<AccountView>, cmds: Seq<RecordCommandCreate>, ids: Seq<String>) -> Result<
    Seq<RecordView>,
    ErrorView,
> {
    let n = cmds.len() as int;
    let k = first_from(0, n, create_fails_at(sa, cmds, ids));
    if k < n {
        Err(created_record(sa, cmds[k], ids[k]@)->Err_0)
    } else {
        Ok(Seq::new(cmds.len(), |i: int| created_record(sa, cmds[i], ids[i]@)->Ok_0))
    }
}

/// The events say that each of `recs` was created at `now`, in order.
pub open spec fn record_creation_events(ev: Seq<RecordEvent>, recs: Seq<RecordView>, now: i64) -> bool {
    &&& ev.len() == recs.len()
    &&& forall|i: int|
        0 <= i < ev.len() ==> (#[trigger] ev[i] matches RecordEvent::Created(e) && {
            let r = recs[i];
            &&& e.id@ == r.id
            &&& e.journal_id@ == r.journal_id
            &&& e.date == r.date
            &&& e.items@ == r.items
            &&& e.description@ == r.description
            &&& str_set(e.tags@) == r.tags
            &&& e.payee@ == r.payee
            &&& e.created_at == now
        })
}

/// Checks record creations and builds the records.
fn plan_create<AR: AccountRepository>(
    account_repo: &AR,
    sess: &InMemorySession,
    cmds: &Vec<RecordCommandCreate>,
    new_ids: &Vec<String>,
    now: i64,
) -> (r: Result<(Vec<RecordEvent>, Vec<Record>), Error>)
    requires
        sess.wf(),
        new_ids@.len() >= cmds@.len(),
    ensures
        match records_created(sess@.accounts, cmds@, new_ids@) {
            Err(e) => r is Err && r->Err_0@ == e,
            Ok(recs) => r is Ok && views(r->Ok_0.1@) == recs && all_inv(r->Ok_0.1@)
                && record_creation_events(r->Ok_0.0@, recs, now),
        },
{
    let ghost sa = sess@.accounts;
    let ghost c = cmds@;
    let n = cmds.len();
    let mut records: Vec<Record> = Vec::new();
    let mut events: Vec<RecordEvent> = Vec::new();
    let mut i: usize = 0;
    while i < n
        invariant
            n == c.len(),
            c == cmds@,
            sa == sess@.accounts,
            sess.wf(),
            new_ids@.len() >= n,
            i <= n,
            forall|j: int| 0 <= j < i ==> !#[trigger] create_fails_at(sa, c, new_ids@)(j),
            records@.len() == i,
            all_inv(records@),
            forall|j: int| 0 <= j < i ==> (#[trigger] records@[j])@ == created_record(sa, c[j], new_ids@[j]@)->Ok_0,
            record_creation_events(events@, views(records@), now),
        decreases n - i,
    {
        let cmd = &cmds[i];
        let inputs = match resolve_items(account_repo, sess, &cmd.journal_id, cmd.kind, &cmd.items) {
            Err(e) => {
                proof {
                    lemma_first_from(0, n as int, create_fails_at(sa, c, new_ids@), i as int);
                }
                return Err(e);
            },
            Ok(v) => v,
        };
        proof {
            lemma_resolved_same(inputs@, sa, cmd.kind, cmd.items@);
            lemma_items_same(inputs@, resolved_inputs(sa, cmd.kind, cmd.items@));
        }
        let input = RecordInput {
            id: new_ids[i].clone(),
            version: 0,
            created_at: None,
            last_modified_at: None,
            journal_id: cmd.journal_id.clone(),
            date: cmd.date,
            items: inputs,
            description: cmd.description.clone(),
            tags: clone_strs(&cmd.tags),
            payee: cmd.payee.clone(),
        };
        match Record::try_from_input(input) {
            Err(e) => {
                proof {
                    lemma_first_from(0, n as int, create_fails_at(sa, c, new_ids@), i as int);
                }
                return Err(e);
            },
            Ok(record) => {
                let ghost before = records@;
                let ghost ev_before = events@;
                events.push(
                    RecordEvent::Created(
                        RecordCreated {
                            id: record.id.clone(),
                            journal_id: record.journal_id.clone(),
                            date: record.date,
                            items: record.items.clone(),
                            description: record.description.clone(),
                            tags: clone_strs(&record.tags),
                            payee: record.payee.clone(),
                            created_at: now,
                        },
                    ),
                );
                records.push(record);
                proof {
                    crate::store::lemma_views_push(before, records@.last());
                    assert forall|j: int| 0 <= j < records@.len() implies (#[trigger] records@[j]).inv() by {
                        if j < before.len() {
                            assert(records@[j] == before[j]);
                        }
                    }
                    let rv = views(records@);
                    assert forall|j: int| 0 <= j < events@.len() implies (#[trigger] events@[j] matches RecordEvent::Created(e) && {
                        let r = rv[j];
                        &&& e.id@ == r.id
                        &&& e.journal_id@ == r.journal_id
                        &&& e.date == r.date
                        &&& e.items@ == r.items
                        &&& e.description@ == r.description
                        &&& str_set(e.tags@) == r.tags
                        &&& e.payee@ == r.payee
                        &&& e.created_at == now
                    }) by {
                        if j < ev_before.len() {
                            assert(events@[j] == ev_before[j]);
                            assert(rv[j] == views(before)[j]);
                        }
                    }
                }
            },
        }
        i = i + 1;
    }
    proof {
        lemma_first_from(0, n as int, create_fails_at(sa, c, new_ids@), n as int);
        assert(views(records@) =~= records_created(sa, c, new_ids@)->Ok_0);
    }
    Ok((events, records))
}

/// Two commands update the same record.
pub open spec fn repeats_record_ids(cmds: Seq<RecordCommandUpdate>) -> bool {
    exists|i: int, j: int| 0 <= i < j < cmds.len() && #[trigger] cmds[i].id@ == #[trigger] cmds[j].id@
}

/// Command `i` names a record that does not exist.
pub open spec fn record_missing_at(sr: Seq<RecordView>, cmds: Seq<RecordCommandUpdate>) -> spec_fn(int) -> bool {
    |i: int| lookup::<Record>(sr, cmds[i].id@) is None
}

/// The record after command `cmd`, or why it fails. New items are resolved
/// against the record's journal and kind; without new items, the record
/// keeps its items unchanged. The modification time is kept.
pub open spec fn updated_record(sa: Seq<AccountView>, sr: Seq<RecordView>, cmd: RecordCommandUpdate) -> Result<
    RecordView,
    ErrorView,
> {
    let r = lookup::<Record>(sr, cmd.id@)->0;
    let date = match cmd.date {
        Some(d) => d,
        None => r.date,
    };
    let description = match cmd.description {
        Some(d) => d@,
        None => r.description,
    };
    let tags = match cmd.tags {
        Some(t) => tag_set_of(t@),
        None => r.tags,
    };
    let payee = match cmd.payee {
        Some(p) => p@,
        None => r.payee,
    };
    match cmd.items {
        Some(items) => match resolve_error(sa, r.journal_id, items@) {
            Some(e) => Err(e),
            None => record_result(
                r.id,
                r.version,
                r.created_at,
                r.last_modified_at,
                r.journal_id,
                date,
                resolved_inputs(sa, r.items.kind(), items@),
                description,
                tags,
                payee,
            ),
        },
        None => Ok(RecordView { date, description, tags, payee, ..r }),
    }
}

/// Command `i` fails.
pub open spec fn update_fails_at(sa: Seq<AccountView>, sr: Seq<RecordView>, cmds: Seq<RecordCommandUpdate>) -> spec_fn(
    int,
) -> bool {
    |i: int| updated_record(sa, sr, cmds[i]) is Err
}

/// The error for a record updated twice in one batch.
pub open spec fn record_repeated_id_error() -> ErrorView {
    shared_err(SharedErrorKindView::DuplicateValues { value: "id"@ }, record_resource(), "id"@)
}

/// The error for a record that does not exist.
pub open spec fn record_not_found_error(id: Seq<char>) -> ErrorView {
    shared_err_detail(
        SharedErrorKindView::NotFound,
        record_resource(),
        "id"@,
        "record "@ + id + " not found"@,
    )
}

/// The records after the commands, in command order; or why updating fails:
/// a record named twice; else the first missing record; else the first
/// command that fails.
pub open spec fn records_updated(sa: Seq<AccountView>, sr: Seq<RecordView>, cmds: Seq<RecordCommandUpdate>) -> Result<
    Seq<RecordView>,
    ErrorView,
> {
    let n = cmds.len() as int;
    let a = first_from(0, n, record_missing_at(sr, cmds));
    let b = first_from(0, n, update_fails_at(sa, sr, cmds));
    if n == 0 {
        Ok(Seq::empty())
    } else if repeats_record_ids(cmds) {
        Err(record_repeated_id_error())
    } else if a < n {
        Err(record_not_found_error(cmds[a].id@))
    } else if b < n {
        Err(updated_record(sa, sr, cmds[b])->Err_0)
    } else {
        Ok(Seq::new(cmds.len(), |i: int| updated_record(sa, sr, cmds[i])->Ok_0))
    }
}

/// The events say that each of `recs` now has all its fields, in order;
/// the time is the record's modification time, or `now` without one.
pub open spec fn record_update_events(ev: Seq<RecordEvent>, recs: Seq<RecordView>, now: i64) -> bool {
    &&& ev.len() == recs.len()
    &&& forall|i: int|
        0 <= i < ev.len() ==> (#[trigger] ev[i] matches RecordEvent::Updated(e) && {
            let r = recs[i];
            &&& e.id@ == r.id
            &&& e.date == Some(r.date)
            &&& e.items.is_some() && e.items->0@ == r.items
            &&& e.description.is_some() && e.description->0@ == r.description
            &&& e.tags.is_some() && str_set(e.tags->0@) == r.tags
            &&& e.payee.is_some() && e.payee->0@ == r.payee
            &&& e.last_modified_at == match r.last_modified_at {
                Some(t) => t,
                None => now,
            }
        })
}

/// Checks record updates and builds the updated records.
fn plan_update<R: RecordRepository, AR: AccountRepository>(
    repo: &R,
    account_repo: &AR,
    sess: &InMemorySession,
    cmds: &Vec<RecordCommandUpdate>,
    now: i64,
) -> (r: Result<(Vec<RecordEvent>, Vec<Record>), Error>)
    requires
        sess.wf(),
    ensures
        match records_updated(sess@.accounts, sess@.records, cmds@) {
            Err(e) => r is Err && r->Err_0@ == e,
            Ok(recs) => r is Ok && views(r->Ok_0.1@) == recs && all_inv(r->Ok_0.1@)
                && record_update_events(r->Ok_0.0@, recs, now),
        },
{
    let ghost sa = sess@.accounts;
    let ghost sr = sess@.records;
    let ghost c = cmds@;
    let n = cmds.len();
    if n == 0 {
        let u: Vec<Record> = Vec::new();
        assert(views(u@) =~= Seq::<RecordView>::empty());
        return Ok((Vec::new(), u));
    }
    let mut i: usize = 0;
    while i < n
        invariant
            n == c.len(),
            c == cmds@,
            i <= n,
            forall|a: int, b: int| 0 <= a < b < i ==> c[a].id@ != c[b].id@,
        decreases n - i,
    {
        let mut j: usize = 0;
        while j < i
            invariant
                n == c.len(),
                c == cmds@,
                i < n,
                j <= i,
                forall|a: int, b: int| 0 <= a < b < i ==> c[a].id@ != c[b].id@,
                forall|a: int| 0 <= a < j ==> c[a].id@ != c[i as int].id@,
            decreases i - j,
        {
            if cmds[j].id == cmds[i].id {
                proof {
                    assert(c[j as int].id@ == c[i as int].id@);
                    assert(repeats_record_ids(c));
                }
                return Err(
                    SharedErrorKind::DuplicateValues { value: "id".to_string() }.into_error().with_resource_type(
                        Record::ENTITY_TYPE,
                    ).with_field("id"),
                );
            }
            j = j + 1;
        }
        i = i + 1;
    }
    assert(!repeats_record_ids(c));
    let mut ids: Vec<String> = Vec::new();
    let mut i: usize = 0;
    while i < n
        invariant
            n == c.len(),
            c == cmds@,
            i <= n,
            ids@.len() == i,
            forall|j: int| 0 <= j < i ==> (#[trigger] ids@[j])@ == c[j].id@,
        decreases n - i,
    {
        ids.push(cmds[i].id.clone());
        i = i + 1;
    }
    let existing = repo.find_all_by_ids(sess, &ids);
    proof {
        lemma_filter_unique::<Record>(sr, key_in::<Record>(str_set(ids@)));
    }
    let mut i: usize = 0;
    while i < n
        invariant
            n == c.len(),
            c == cmds@,
            sr == sess@.records,
            sess.wf(),
            i <= n,
            ids@.len() == n,
            forall|j: int| 0 <= j < n ==> (#[trigger] ids@[j])@ == c[j].id@,
            views(existing@) == sr.filter(key_in::<Record>(str_set(ids@))),
            crate::store::unique_keys::<Record>(views(existing@)),
            !repeats_record_ids(c),
            forall|j: int| 0 <= j < i ==> !#[trigger] record_missing_at(sr, c)(j),
        decreases n - i,
    {
        proof {
            lemma_str_set_contains(ids@, c[i as int].id@);
            assert(ids@[i as int]@ == c[i as int].id@);
            lemma_lookup_filter::<Record>(sr, str_set(ids@), c[i as int].id@);
        }
        if find_by_id(&existing, &cmds[i].id).is_none() {
            proof {
                lemma_first_from(0, n as int, record_missing_at(sr, c), i as int);
            }
            return Err(
                SharedErrorKind::NotFound.into_error().with_resource_type(Record::ENTITY_TYPE).with_field(
                    "id",
                ).with_detail(concat3("record ", cmds[i].id.as_str(), " not found")),
            );
        }
        i = i + 1;
    }
    proof {
        lemma_first_from(0, n as int, record_missing_at(sr, c), n as int);
    }
    let mut records: Vec<Record> = Vec::new();
    let mut events: Vec<RecordEvent> = Vec::new();
    let mut i: usize = 0;
    while i < n
        invariant
            n == c.len(),
            c == cmds@,
            sa == sess@.accounts,
            sr == sess@.records,
            sess.wf(),
            i <= n,
            ids@.len() == n,
            forall|j: int| 0 <= j < n ==> (#[trigger] ids@[j])@ == c[j].id@,
            views(existing@) == sr.filter(key_in::<Record>(str_set(ids@))),
            crate::store::unique_keys::<Record>(views(existing@)),
            all_inv(existing@),
            !repeats_record_ids(c),
            first_from(0, n as int, record_missing_at(sr, c)) == n,
            forall|j: int| 0 <= j < i ==> !#[trigger] update_fails_at(sa, sr, c)(j),
            records@.len() == i,
            all_inv(records@),
            forall|j: int| 0 <= j < i ==> (#[trigger] records@[j])@ == updated_record(sa, sr, c[j])->Ok_0,
            record_update_events(events@, views(records@), now),
        decreases n - i,
    {
        let cmd = &cmds[i];
        proof {
            lemma_str_set_contains(ids@, c[i as int].id@);
            assert(ids@[i as int]@ == c[i as int].id@);
            lemma_lookup_filter::<Record>(sr, str_set(ids@), c[i as int].id@);
            lemma_first_from_before(0, n as int, record_missing_at(sr, c));
            assert(!record_missing_at(sr, c)(i as int));
        }
        let rec = find_by_id(&existing, &cmd.id).unwrap();
        let kind = rec.items.kind();
        let date = match cmd.date {
            Some(d) => d,
            None => rec.date,
        };
        let description = match &cmd.description {
            Some(d) => d.clone(),
            None => rec.description.clone(),
        };
        let payee = match &cmd.payee {
            Some(p) => p.clone(),
            None => rec.payee.clone(),
        };
        let built = match &cmd.items {
            Some(new_items) => match resolve_items(account_repo, sess, &rec.journal_id, kind, new_items) {
                Err(e) => Err(e),
                Ok(v) => {
                    proof {
                        lemma_resolved_same(v@, sa, kind, new_items@);
                        lemma_items_same(v@, resolved_inputs(sa, kind, new_items@));
                    }
                    let input = RecordInput {
                        id: rec.id.clone(),
                        version: rec.version,
                        created_at: rec.created_at,
                        last_modified_at: rec.last_modified_at,
                        journal_id: rec.journal_id.clone(),
                        date,
                        items: v,
                        description,
                        tags: match &cmd.tags {
                            Some(t) => clone_strs(t),
                            None => clone_strs(&rec.tags),
                        },
                        payee,
                    };
                    proof {
                        if cmd.tags is None {
                            assert(tag_set_of(rec.tags@) =~= str_set(rec.tags@));
                        }
                    }
                    Record::try_from_input(input)
                },
            },
            None => {
                let tags = match &cmd.tags {
                    Some(t) => collect_tags(t),
                    None => clone_strs(&rec.tags),
                };
                Ok(
                    Record {
                        id: rec.id.clone(),
                        version: rec.version,
                        created_at: rec.created_at,
                        last_modified_at: rec.last_modified_at,
                        journal_id: rec.journal_id.clone(),
                        date,
                        items: rec.items.clone(),
                        description,
                        tags,
                        payee,
                    },
                )
            },
        };
        match built {
            Err(e) => {
                proof {
                    lemma_first_from(0, n as int, update_fails_at(sa, sr, c), i as int);
                }
                return Err(e);
            },
            Ok(record) => {
                let ghost before = records@;
                let ghost ev_before = events@;
                let stamp = match record.last_modified_at {
                    Some(t) => t,
                    None => now,
                };
                events.push(
                    RecordEvent::Updated(
                        RecordUpdated {
                            id: record.id.clone(),
                            date: Some(record.date),
                            items: Some(record.items.clone()),
                            description: Some(record.description.clone()),
                            tags: Some(clone_strs(&record.tags)),
                            payee: Some(record.payee.clone()),
                            last_modified_at: stamp,
                        },
                    ),
                );
                records.push(record);
                proof {
                    crate::store::lemma_views_push(before, records@.last());
                    assert forall|j: int| 0 <= j < records@.len() implies (#[trigger] records@[j]).inv() by {
                        if j < before.len() {
                            assert(records@[j] == before[j]);
                        }
                    }
                    let rv = views(records@);
                    assert forall|j: int| 0 <= j < events@.len() implies (#[trigger] events@[j] matches RecordEvent::Updated(e) && {
                        let r = rv[j];
                        &&& e.id@ == r.id
                        &&& e.date == Some(r.date)
                        &&& e.items.is_some() && e.items->0@ == r.items
                        &&& e.description.is_some() && e.description->0@ == r.description
                        &&& e.tags.is_some() && str_set(e.tags->0@) == r.tags
                        &&& e.payee.is_some() && e.payee->0@ == r.payee
                        &&& e.last_modified_at == match r.last_modified_at {
                            Some(t) => t,
                            None => now,
                        }
                    }) by {
                        if j < ev_before.len() {
                            assert(events@[j] == ev_before[j]);
                            assert(rv[j] == views(before)[j]);
                        }
                    }
                }
            },
        }
        i = i + 1;
    }
    proof {
        lemma_first_from(0, n as int, update_fails_at(sa, sr, c), n as int);
        assert(views(records@) =~= records_updated(sa, sr, c)->Ok_0);
    }
    Ok((events, records))
}

/// The identifiers of the records that the events are about.
pub open spec fn record_event_ids(ev: Seq<RecordEvent>) -> Seq<Seq<char>> {
    ev.map_values(|e: RecordEvent| e.spec_id())
}

/// The events are deletions, one for each identifier of `c`.
pub open spec fn record_deletion_events(ev: Seq<RecordEvent>, c: Set<Seq<char>>) -> bool {
    &&& forall|i: int| 0 <= i < ev.len() ==> #[trigger] ev[i] is Deleted
    &&& record_event_ids(ev).no_duplicates()
    &&& record_event_ids(ev).to_set() == c
}

/// The records after deleting the ones with these identifiers.
pub open spec fn records_after_delete(sr: Seq<RecordView>, ids: Seq<String>) -> Seq<RecordView> {
    sr.filter(key_not_in::<Record>(str_set(ids)))
}

/// The records after creating records, or why that fails.
pub open spec fn records_after_create(
    sa: Seq<AccountView>,
    sr: Seq<RecordView>,
    cmds: Seq<RecordCommandCreate>,
    ids: Seq<String>,
) -> Result<Seq<RecordView>, ErrorView> {
    match records_created(sa, cmds, ids) {
        Err(e) => Err(e),
        Ok(recs) => Ok(upsert_all::<Record>(sr, recs)),
    }
}

/// The records after updating records, or why that fails.
pub open spec fn records_after_update(
    sa: Seq<AccountView>,
    sr: Seq<RecordView>,
    cmds: Seq<RecordCommandUpdate>,
) -> Result<Seq<RecordView>, ErrorView> {
    match records_updated(sa, sr, cmds) {
        Err(e) => Err(e),
        Ok(recs) => Ok(upsert_all::<Record>(sr, recs)),
    }
}

/// The records after a batch: delete, then create, then update; or the
/// first error.
pub open spec fn records_after_batch(
    sa: Seq<AccountView>,
    sr: Seq<RecordView>,
    b: RecordCommandBatch,
    ids: Seq<String>,
) -> Result<Seq<RecordView>, ErrorView> {
    match records_after_create(sa, records_after_delete(sr, b.delete@), b.create@, ids) {
        Err(e) => Err(e),
        Ok(s2) => records_after_update(sa, s2, b.update@),
    }
}

/// The events of a successful batch: deletions, creations, updates.
pub open spec fn record_batch_events(
    ev: Seq<RecordEvent>,
    sa: Seq<AccountView>,
    sr: Seq<RecordView>,
    b: RecordCommandBatch,
    ids: Seq<String>,
    now: i64,
) -> bool {
    let s1 = records_after_delete(sr, b.delete@);
    let s2 = records_after_create(sa, s1, b.create@, ids)->Ok_0;
    let k2 = ev.len() - b.update@.len();
    let k1 = k2 - b.create@.len();
    &&& k1 >= 0
    &&& record_deletion_events(ev.subrange(0, k1), str_set(b.delete@))
    &&& record_creation_events(ev.subrange(k1, k2), records_created(sa, b.create@, ids)->Ok_0, now)
    &&& record_update_events(ev.subrange(k2, ev.len() as int), records_updated(sa, s2, b.update@)->Ok_0, now)
}

/// The records after a command, or why it fails.
pub open spec fn record_command_outcome(
    sa: Seq<AccountView>,
    sr: Seq<RecordView>,
    command: RecordCommand,
    ids: Seq<String>,
) -> Result<Seq<RecordView>, ErrorView> {
    match command {
        RecordCommand::Create(c) => records_after_create(sa, sr, seq![c], ids),
        RecordCommand::Update(c) => records_after_update(sa, sr, seq![c]),
        RecordCommand::Delete(d) => Ok(records_after_delete(sr, d@)),
        RecordCommand::Batch(b) => records_after_batch(sa, sr, b, ids),
    }
}

/// The events of a successful command.
pub open spec fn record_command_events(
    ev: Seq<RecordEvent>,
    sa: Seq<AccountView>,
    sr: Seq<RecordView>,
    command: RecordCommand,
    ids: Seq<String>,
    now: i64,
) -> bool {
    match command {
        RecordCommand::Create(c) => record_creation_events(ev, records_created(sa, seq![c], ids)->Ok_0, now),
        RecordCommand::Update(c) => record_update_events(ev, records_updated(sa, sr, seq![c])->Ok_0, now),
        RecordCommand::Delete(d) => record_deletion_events(ev, str_set(d@)),
        RecordCommand::Batch(b) => record_batch_events(ev, sa, sr, b, ids, now),
    }
}

/// How many records a command creates.
pub open spec fn record_creations(command: RecordCommand) -> nat {
    match command {
        RecordCommand::Create(_) => 1,
        RecordCommand::Batch(b) => b.create@.len(),
        _ => 0,
    }
}

/// What handling `command` does: on an error nothing changes; otherwise
/// the records become the command's outcome (accounts and journals stay)
/// and the events are returned. Only a batch runs in a transaction of its
/// own, which it leaves closed.
pub open spec fn record_handled(
    before: StoresView,
    saved_before: Option<StoresView>,
    after: StoresView,
    saved_after: Option<StoresView>,
    command: RecordCommand,
    ids: Seq<String>,
    now: i64,
    r: Result<Vec<RecordEvent>, Error>,
) -> bool {
    &&& saved_after == (if command is Batch {
        None
    } else {
        saved_before
    })
    &&& match record_command_outcome(before.accounts, before.records, command, ids) {
        Err(e) => r is Err && r->Err_0@ == e && after == before,
        Ok(records) => r is Ok && after.records == records && after.accounts == before.accounts
            && after.journals == before.journals && record_command_events(
            r->Ok_0@,
            before.accounts,
            before.records,
            command,
            ids,
            now,
        ),
    }
}

/// What creating records with the identifiers `ids` at `now` does: on an
/// error nothing changes; otherwise the records are stored and announced.
pub open spec fn records_create_done(
    before: StoresView,
    after: StoresView,
    commands: Seq<RecordCommandCreate>,
    ids: Seq<String>,
    now: i64,
    r: Result<Vec<RecordEvent>, Error>,
) -> bool {
    match records_after_create(before.accounts, before.records, commands, ids) {
        Err(e) => r is Err && r->Err_0@ == e && after == before,
        Ok(sr) => r is Ok && after.records == sr && after.accounts == before.accounts
            && after.journals == before.journals && record_creation_events(
            r->Ok_0@,
            records_created(before.accounts, commands, ids)->Ok_0,
            now,
        ),
    }
}

/// What updating records at `now` does: on an error nothing changes;
/// otherwise the records are stored and announced.
pub open spec fn records_update_done(
    before: StoresView,
    after: StoresView,
    commands: Seq<RecordCommandUpdate>,
    now: i64,
    r: Result<Vec<RecordEvent>, Error>,
) -> bool {
    match records_after_update(before.accounts, before.records, commands) {
        Err(e) => r is Err && r->Err_0@ == e && after == before,
        Ok(sr) => r is Ok && after.records == sr && after.accounts == before.accounts
            && after.journals == before.journals && record_update_events(
            r->Ok_0@,
            records_updated(before.accounts, before.records, commands)->Ok_0,
            now,
        ),
    }
}

/// The record service.
pub struct RecordService<R: RecordRepository, AR: AccountRepository> {
    pub repository: R,
    pub account_repository: AR,
}

impl<R: RecordRepository, AR: AccountRepository> RecordService<R, AR> {
    /// A service over the given repositories.
    pub fn new(repository: R, account_repository: AR) -> (r: Self)
        ensures
            r.repository == repository,
            r.account_repository == account_repository,
    {
        RecordService { repository, account_repository }
    }

    /// Creates records, the `i`th with the `i`th identifier of `new_ids`;
    /// the events carry `now`. Balance is not enforced.
    pub fn create_at(
        &self,
        sess: &mut InMemorySession,
        commands: Vec<RecordCommandCreate>,
        new_ids: &Vec<String>,
        now: i64,
    ) -> (r: Result<Vec<RecordEvent>, Error>)
        requires
            old(sess).wf(),
            new_ids@.len() >= commands@.len(),
        ensures
            final(sess).wf(),
            final(sess).saved() == old(sess).saved(),
            final(sess)@.accounts == old(sess)@.accounts,
            final(sess)@.journals == old(sess)@.journals,
            match records_after_create(old(sess)@.accounts, old(sess)@.records, commands@, new_ids@) {
                Err(e) => r is Err && r->Err_0@ == e && final(sess)@ == old(sess)@,
                Ok(sr) => r is Ok && final(sess)@.records == sr && record_creation_events(
                    r->Ok_0@,
                    records_created(old(sess)@.accounts, commands@, new_ids@)->Ok_0,
                    now,
                ),
            },
    {
        match plan_create(&self.account_repository, sess, &commands, new_ids, now) {
            Err(e) => Err(e),
            Ok((events, records)) => {
                self.repository.save_all(sess, &records);
                Ok(events)
            },
        }
    }

    /// Updates records; new items are resolved and parsed again like on
    /// creation. The events carry the records' modification time, or `now`.
    pub fn update_at(&self, sess: &mut InMemorySession, commands: Vec<RecordCommandUpdate>, now: i64) -> (r:
        Result<Vec<RecordEvent>, Error>)
        requires
            old(sess).wf(),
        ensures
            final(sess).wf(),
            final(sess).saved() == old(sess).saved(),
            final(sess)@.accounts == old(sess)@.accounts,
            final(sess)@.journals == old(sess)@.journals,
            match records_after_update(old(sess)@.accounts, old(sess)@.records, commands@) {
                Err(e) => r is Err && r->Err_0@ == e && final(sess)@ == old(sess)@,
                Ok(sr) => r is Ok && final(sess)@.records == sr && record_update_events(
                    r->Ok_0@,
                    records_updated(old(sess)@.accounts, old(sess)@.records, commands@)->Ok_0,
                    now,
                ),
            },
    {
        match plan_update(&self.repository, &self.account_repository, sess, &commands, now) {
            Err(e) => Err(e),
            Ok((events, records)) => {
                self.repository.save_all(sess, &records);
                Ok(events)
            },
        }
    }

    /// Deletes records; identifiers of no record are ignored, and each
    /// distinct identifier gets one event.
    pub fn delete(&self, sess: &mut InMemorySession, ids: Vec<String>) -> (r: Result<Vec<RecordEvent>, Error>)
        requires
            old(sess).wf(),
        ensures
            final(sess).wf(),
            final(sess).saved() == old(sess).saved(),
            final(sess)@.accounts == old(sess)@.accounts,
            final(sess)@.journals == old(sess)@.journals,
            final(sess)@.records == records_after_delete(old(sess)@.records, ids@),
            r is Ok && record_deletion_events(r->Ok_0@, str_set(ids@)),
    {
        let distinct = dedup_strs(&ids);
        let mut events: Vec<RecordEvent> = Vec::new();
        let n = distinct.len();
        let mut i: usize = 0;
        while i < n
            invariant
                n == distinct@.len(),
                i <= n,
                events@.len() == i,
                forall|k: int| 0 <= k < i ==> #[trigger] events@[k] is Deleted,
                forall|k: int| 0 <= k < i ==> (#[trigger] events@[k]).spec_id() == distinct@[k]@,
            decreases n - i,
        {
            events.push(RecordEvent::Deleted(RecordDeleted { id: distinct[i].clone() }));
            i = i + 1;
        }
        assert(record_event_ids(events@) =~= strs_view(distinct@));
        self.repository.delete_all_by_ids(sess, &distinct);
        Ok(events)
    }

    /// Runs a batch inside the open transaction: delete, then create, then
    /// update.
    fn do_batch(
        &self,
        sess: &mut InMemorySession,
        b: RecordCommandBatch,
        new_ids: &Vec<String>,
        now: i64,
    ) -> (r: Result<Vec<RecordEvent>, Error>)
        requires
            old(sess).wf(),
            new_ids@.len() >= b.create@.len(),
        ensures
            final(sess).wf(),
            final(sess).saved() == old(sess).saved(),
            final(sess)@.accounts == old(sess)@.accounts,
            final(sess)@.journals == old(sess)@.journals,
            match records_after_batch(old(sess)@.accounts, old(sess)@.records, b, new_ids@) {
                Err(e) => r is Err && r->Err_0@ == e,
                Ok(sr) => r is Ok && final(sess)@.records == sr && record_batch_events(
                    r->Ok_0@,
                    old(sess)@.accounts,
                    old(sess)@.records,
                    b,
                    new_ids@,
                    now,
                ),
            },
    {
        let RecordCommandBatch { create, update, delete } = b;
        let mut events = match self.delete(sess, delete) {
            Ok(ev) => ev,
            Err(e) => {
                return Err(e);
            },
        };
        let ghost k1 = events@.len() as int;
        let ghost del_ev = events@;
        match self.create_at(sess, create, new_ids, now) {
            Err(e) => {
                return Err(e);
            },
            Ok(mut ev) => {
                let ghost ev0 = ev@;
                events.append(&mut ev);
                let ghost k2 = events@.len() as int;
                match self.update_at(sess, update, now) {
                    Err(e) => {
                        return Err(e);
                    },
                    Ok(mut ev2) => {
                        let ghost ev1 = ev2@;
                        events.append(&mut ev2);
                        proof {
                            let all = events@;
                            assert(all.subrange(0, k1) =~= del_ev);
                            assert(all.subrange(k1, k2) =~= ev0);
                            assert(all.subrange(k2, all.len() as int) =~= ev1);
                        }
                        Ok(events)
                    },
                }
            },
        }
    }

    /// Runs a batch in one transaction, at `now`, the `i`th created record
    /// with the `i`th identifier of `new_ids`: on an error the store is
    /// rolled back.
    pub fn batch_at(
        &self,
        sess: &mut InMemorySession,
        command: RecordCommandBatch,
        new_ids: &Vec<String>,
        now: i64,
    ) -> (r: Result<Vec<RecordEvent>, Error>)
        requires
            old(sess).wf(),
            new_ids@.len() >= command.create@.len(),
        ensures
            final(sess).wf(),
            final(sess).saved() is None,
            record_handled(
                old(sess)@,
                None,
                final(sess)@,
                final(sess).saved(),
                RecordCommand::Batch(command),
                new_ids@,
                now,
                r,
            ),
    {
        sess.begin();
        match self.do_batch(sess, command, new_ids, now) {
            Ok(events) => {
                sess.commit();
                Ok(events)
            },
            Err(e) => {
                sess.rollback();
                Err(e)
            },
        }
    }

    /// Creates records now, with fresh identifiers (see `create_at`).
    pub fn create(&self, sess: &mut InMemorySession, commands: Vec<RecordCommandCreate>) -> (r: Result<
        Vec<RecordEvent>,
        Error,
    >)
        requires
            old(sess).wf(),
        ensures
            final(sess).wf(),
            final(sess).saved() == old(sess).saved(),
            exists|ids: Seq<String>, now: i64|
                ids.len() >= commands@.len() && #[trigger] records_create_done(
                    old(sess)@,
                    final(sess)@,
                    commands@,
                    ids,
                    now,
                    r,
                ),
    {
        let now = now_micros();
        let ids = fresh_ids(commands.len());
        let ghost c = commands@;
        let r = self.create_at(sess, commands, &ids, now);
        assert(records_create_done(old(sess)@, sess@, c, ids@, now, r));
        r
    }

    /// Updates records now (see `update_at`).
    pub fn update(&self, sess: &mut InMemorySession, commands: Vec<RecordCommandUpdate>) -> (r: Result<
        Vec<RecordEvent>,
        Error,
    >)
        requires
            old(sess).wf(),
        ensures
            final(sess).wf(),
            final(sess).saved() == old(sess).saved(),
            exists|now: i64| #[trigger] records_update_done(old(sess)@, final(sess)@, commands@, now, r),
    {
        let now = now_micros();
        let ghost c = commands@;
        let r = self.update_at(sess, commands, now);
        assert(records_update_done(old(sess)@, sess@, c, now, r));
        r
    }

    /// Runs a batch now in one transaction, with fresh identifiers (see
    /// `batch_at`).
    pub fn batch(&self, sess: &mut InMemorySession, command: RecordCommandBatch) -> (r: Result<
        Vec<RecordEvent>,
        Error,
    >)
        requires
            old(sess).wf(),
        ensures
            final(sess).wf(),
            final(sess).saved() is None,
            exists|ids: Seq<String>, now: i64|
                ids.len() >= command.create@.len() && record_handled(
                    old(sess)@,
                    None,
                    final(sess)@,
                    final(sess).saved(),
                    RecordCommand::Batch(command),
                    ids,
                    now,
                    r,
                ),
    {
        let now = now_micros();
        let ids = fresh_ids(command.create.len());
        let ghost cmd = command;
        let r = self.batch_at(sess, command, &ids, now);
        assert(record_handled(old(sess)@, None, sess@, sess.saved(), RecordCommand::Batch(cmd), ids@, now, r));
        r
    }

    /// Handles a command at `now`, the `i`th created record with the `i`th
    /// identifier of `new_ids`.
    pub fn handle_at(
        &self,
        sess: &mut InMemorySession,
        command: RecordCommand,
        new_ids: &Vec<String>,
        now: i64,
    ) -> (r: Result<Vec<RecordEvent>, Error>)
        requires
            old(sess).wf(),
            new_ids@.len() >= record_creations(command),
        ensures
            final(sess).wf(),
            record_handled(
                old(sess)@,
                old(sess).saved(),
                final(sess)@,
                final(sess).saved(),
                command,
                new_ids@,
                now,
                r,
            ),
    {
        match command {
            RecordCommand::Create(c) => {
                let mut cmds = Vec::new();
                cmds.push(c);
                assert(cmds@ =~= seq![c]);
                self.create_at(sess, cmds, new_ids, now)
            },
            RecordCommand::Update(c) => {
                let mut cmds = Vec::new();
                cmds.push(c);
                assert(cmds@ =~= seq![c]);
                self.update_at(sess, cmds, now)
            },
            RecordCommand::Delete(d) => self.delete(sess, d),
            RecordCommand::Batch(b) => self.batch_at(sess, b, new_ids, now),
        }
    }

    /// Handles a command now, with fresh identifiers for created records
    /// (see `handle_at`).
    pub fn handle(&self, sess: &mut InMemorySession, command: RecordCommand) -> (r: Result<
        Vec<RecordEvent>,
        Error,
    >)
        requires
            old(sess).wf(),
        ensures
            final(sess).wf(),
            exists|ids: Seq<String>, now: i64|
                ids.len() >= record_creations(command) && record_handled(
                    old(sess)@,
                    old(sess).saved(),
                    final(sess)@,
                    final(sess).saved(),
                    command,
                    ids,
                    now,
                    r,
                ),
    {
        let now = now_micros();
        let count: usize = match &command {
            RecordCommand::Create(_) => 1,
            RecordCommand::Batch(b) => b.create.len(),
            _ => 0,
        };
        let ids = fresh_ids(count);
        let r = self.handle_at(sess, command, &ids, now);
        assert(record_handled(old(sess)@, old(sess).saved(), sess@, sess.saved(), command, ids@, now, r));
        r
    }
}

/// `count` fresh identifiers.
pub fn fresh_ids(count: usize) -> (r: Vec<String>)
    ensures
        r@.len() == count,
{
    let mut ids: Vec<String> = Vec::new();
    let mut i: usize = 0;
    while i < count
        invariant
            i <= count,
            ids@.len() == i,
        decreases count - i,
    {
        ids.push(new_id());
        i = i + 1;
    }
    ids
}

} // verus!
