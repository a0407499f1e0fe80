//! Properties of the library as a whole: how specifications combine, what
//! deleting and archiving do to account trees, what updates leave alone,
//! what creating a journal adds, and what the SQL rows give back.
use vstd::prelude::*;
use crate::account::{account_type_name, Account, AccountView};
use crate::account::command::{AccountCommandArchive, AccountCommandUpdate};
use crate::account::service::{
    after_archives, after_delete, archive_targets, archived_at, archived_by, children_closed,
    is_subtree_closure, lemma_subtree_closure_unique, subtree_closure, unarchived, update_error,
    updated_accounts, blank_create_at, create_error, name_key_matches, named_children,
    parent_unusable_at, repeated_name_at, reserved_at, sibling_taken_at,
};
use crate::common::str_set;
use crate::journal::{Journal, JournalView};
use crate::journal::command::JournalCommandUpdate;
use crate::journal::service::{
    created_roots, journal_after_delete, journal_update_error, name_taken_by, root_account,
    root_type, update_names,
};
use crate::specification::{
    eval, lemma_eval_all, lemma_eval_any, LeafSpecification, SpecificationExpression,
};
use crate::store::{
    key_in, key_not_in, keys, lemma_filter_unique, lemma_lookup_some, lemma_lookup_unique,
    lemma_upsert_all_existing, lemma_upsert_lookup, lookup, replaced, take_limit, unique_keys,
    upsert_all, views, all_inv, Entity,
};
use crate::record::Record;
use crate::record::{RecordItemKind, RecordItemsView, TransactionView};
use crate::record::command::RecordCommandCreate;
use crate::record::input::{
    all_of_kind, spec_parse_amount, spec_parse_items, spec_parse_transaction, spec_parse_transactions,
    RecordItemInput,
};
use crate::account::command::AccountCommandCreate;
use crate::account::spec_is_reserved_name;
use crate::common::lemma_first_from;
use crate::record::command::RecordCommandUpdate;
use crate::record::event::RecordEvent;
use crate::record::service::{
    created_record, item_account, record_missing_at, record_update_events, records_updated,
    repeats_record_ids, resolve_error, resolved_inputs, resolves_all, resolves_to, update_fails_at,
    updated_record,
};
use crate::common::lemma_first_from_before;
use crate::seaorm::record_rows::{
    amounts_read_back, lemma_items_round_trip, read_record, record_row, stores_items, ItemRowView,
};
use crate::seaorm::rows::{
    account_of_row, account_row, batch_tag_rows, journal_of_row, journal_row,
    lemma_batch_owner_tags, lemma_owner_tags_round_trip, lemma_tag_set_of_wf, owner_tag_rows,
    owner_tags,
};
use crate::error::{strs_view, ErrorView};
use crate::record::RecordView;
use crate::text::is_blank;

verus! {

broadcast use vstd::seq_lib::group_seq_properties;

/// `a.and(b)` holds exactly when both hold.
pub proof fn law_and_is_conjunction<S: LeafSpecification<E>, E: View>(
    a: SpecificationExpression<S>,
    b: SpecificationExpression<S>,
    r: SpecificationExpression<S>,
    e: E::V,
)
    requires
        r matches SpecificationExpression::All(v) && v@ == seq![a, b],
    ensures
        eval::<S, E>(r, e) == (eval::<S, E>(a, e) && eval::<S, E>(b, e)),
{
    let v = r->All_0;
    lemma_eval_all::<S, E>(v@, e);
    assert(v@[0] == a && v@[1] == b);
}

/// `a.or(b)` holds exactly when one of them holds.
pub proof fn law_or_is_disjunction<S: LeafSpecification<E>, E: View>(
    a: SpecificationExpression<S>,
    b: SpecificationExpression<S>,
    r: SpecificationExpression<S>,
    e: E::V,
)
    requires
        r matches SpecificationExpression::Any(v) && v@ == seq![a, b],
    ensures
        eval::<S, E>(r, e) == (eval::<S, E>(a, e) || eval::<S, E>(b, e)),
{
    let v = r->Any_0;
    lemma_eval_any::<S, E>(v@, e);
    assert(v@[0] == a && v@[1] == b);
    if eval::<S, E>(a, e) {
        assert(eval::<S, E>(v@[0], e));
    }
    if eval::<S, E>(b, e) {
        assert(eval::<S, E>(v@[1], e));
    }
}

/// `a.negate()` holds exactly when `a` does not.
pub proof fn law_negate_is_negation<S: LeafSpecification<E>, E: View>(
    a: SpecificationExpression<S>,
    r: SpecificationExpression<S>,
    e: E::V,
)
    requires
        r matches SpecificationExpression::Not(x) && *x == a,
    ensures
        eval::<S, E>(r, e) == !eval::<S, E>(a, e),
{
}

/// A search with a limit finds at most that many entries, each of which
/// satisfies the condition and is in the store.
pub proof fn law_limit_bounds_results<A>(s: Seq<A>, p: spec_fn(A) -> bool, n: usize)
    ensures
        take_limit(s.filter(p), Some(n)).len() <= n,
        forall|i: int|
            0 <= i < take_limit(s.filter(p), Some(n)).len() ==> p(
                #[trigger] take_limit(s.filter(p), Some(n))[i],
            ) && s.contains(take_limit(s.filter(p), Some(n))[i]),
{
    let f = s.filter(p);
    let t = take_limit(f, Some(n));
    assert forall|i: int| 0 <= i < t.len() implies p(#[trigger] t[i]) && s.contains(t[i]) by {
        assert(t[i] == f[i]);
        s.lemma_filter_pred(p, i);
        assert(f.contains(f[i]));
        s.lemma_filter_contains_rev(p, f[i]);
    }
}

/// The subtree closure exists: it is the intersection of every closed set
/// that holds the identifiers.
pub proof fn lemma_subtree_closure_exists(s: Seq<AccountView>, ids: Set<Seq<char>>)
    ensures
        is_subtree_closure(s, ids, subtree_closure(s, ids)),
{
    let c = Set::new(
        |x: Seq<char>|
            forall|d: Set<Seq<char>>|
                ids.subset_of(d) && #[trigger] children_closed(s, d) ==> d.contains(x),
    );
    assert(ids.subset_of(c));
    assert(children_closed(s, c)) by {
        assert forall|i: int|
            0 <= i < s.len() && (#[trigger] s[i]).parent_id is Some && c.contains(
                s[i].parent_id->0,
            ) implies c.contains(s[i].id) by {
            assert forall|d: Set<Seq<char>>|
                ids.subset_of(d) && #[trigger] children_closed(s, d) implies d.contains(s[i].id) by {
                assert(d.contains(s[i].parent_id->0));
            }
        }
    }
    assert(is_subtree_closure(s, ids, c));
    lemma_subtree_closure_unique(s, ids, c);
}

/// Deleting accounts removes the named accounts and all their descendants:
/// no remaining account is named, and none has a removed parent.
pub proof fn law_delete_cascades(s: Seq<AccountView>, ids: Seq<String>)
    ensures
        forall|i: int|
            0 <= i < after_delete(s, ids).len() ==> {
                let a = #[trigger] after_delete(s, ids)[i];
                &&& !str_set(ids).contains(a.id)
                &&& s.contains(a)
                &&& (a.parent_id matches Some(p) ==> !subtree_closure(s, str_set(ids)).contains(p))
            },
{
    let c = subtree_closure(s, str_set(ids));
    lemma_subtree_closure_exists(s, str_set(ids));
    let p = key_not_in::<Account>(c);
    let r = s.filter(p);
    assert forall|i: int| 0 <= i < r.len() implies {
        let a = #[trigger] r[i];
        &&& !str_set(ids).contains(a.id)
        &&& s.contains(a)
        &&& (a.parent_id matches Some(q) ==> !c.contains(q))
    } by {
        s.lemma_filter_pred(p, i);
        assert(r.contains(r[i]));
        s.lemma_filter_contains_rev(p, r[i]);
        let j = choose|j: int| 0 <= j < s.len() && s[j] == r[i];
        if r[i].parent_id is Some && c.contains(r[i].parent_id->0) {
            assert(children_closed(s, c));
            assert(s[j].parent_id is Some);
            assert(c.contains(s[j].id));
        }
    }
}

/// Deleting identifiers that no account has and that no account names as
/// its parent changes nothing.
pub proof fn law_delete_unknown_is_silent(s: Seq<AccountView>, ids: Seq<String>)
    requires
        forall|i: int| 0 <= i < s.len() ==> !str_set(ids).contains(#[trigger] s[i].id),
        forall|i: int|
            0 <= i < s.len() && (#[trigger] s[i]).parent_id is Some ==> !str_set(ids).contains(
                s[i].parent_id->0,
            ),
    ensures
        after_delete(s, ids) == s,
{
    let c = str_set(ids);
    assert(children_closed(s, c));
    assert(is_subtree_closure(s, c, c));
    lemma_subtree_closure_unique(s, c, c);
    lemma_filter_all(s, key_not_in::<Account>(c));
}

proof fn lemma_filter_all<A>(s: Seq<A>, p: spec_fn(A) -> bool)
    requires
        forall|i: int| 0 <= i < s.len() ==> p(#[trigger] s[i]),
    ensures
        s.filter(p) == s,
    decreases s.len(),
{
    reveal(Seq::filter);
    if s.len() > 0 {
        let t = s.drop_last();
        assert forall|i: int| 0 <= i < t.len() implies p(#[trigger] t[i]) by {
            assert(t[i] == s[i]);
        }
        lemma_filter_all(t, p);
        assert(p(s[s.len() - 1]));
        assert(t.push(s.last()) =~= s);
    }
}

/// Deleting journals that do not exist changes nothing.
pub proof fn law_journal_delete_unknown_is_silent(s: Seq<JournalView>, ids: Seq<String>)
    requires
        forall|i: int| 0 <= i < s.len() ==> !str_set(ids).contains(#[trigger] s[i].id),
    ensures
        journal_after_delete(s, ids) == s,
{
    lemma_filter_all(s, key_not_in::<Journal>(str_set(ids)));
}

/// Archiving archives, at the command's time, every account of the
/// subtree that was not archived yet; accounts already archived keep their
/// time, and every other account is left as it was.
pub proof fn law_archive_cascades(s: Seq<AccountView>, cmd: AccountCommandArchive)
    requires
        unique_keys::<Account>(s),
    ensures
        after_archives(s, seq![cmd]).len() == s.len(),
        forall|i: int|
            0 <= i < s.len() ==> #[trigger] after_archives(s, seq![cmd])[i] == (if subtree_closure(
                s,
                str_set(cmd.ids@),
            ).contains(s[i].id) && s[i].archived_at is None {
                AccountView { archived_at: Some(cmd.archived_at), ..s[i] }
            } else {
                s[i]
            }),
{
    let c = subtree_closure(s, str_set(cmd.ids@));
    let t = cmd.archived_at;
    let one = seq![cmd];
    assert(one.drop_last() =~= Seq::<AccountCommandArchive>::empty());
    assert(one.last() == cmd);
    let f1 = s.filter(key_in::<Account>(c));
    let f2 = f1.filter(unarchived());
    let u = f2.map_values(archived_at(t));
    assert(u == archive_targets(s, c, t));
    assert(after_archives(s, one.drop_last()) == s);
    assert(archived_by(s, cmd) == u);
    assert(after_archives(s, one) == upsert_all::<Account>(s, u));
    lemma_filter_unique::<Account>(s, key_in::<Account>(c));
    lemma_filter_unique::<Account>(f1, unarchived());
    // Entries of `u` are entries of `f2` with the same identifiers.
    assert forall|k: int| 0 <= k < u.len() implies #[trigger] u[k] == archived_at(t)(f2[k]) && u[k].id == f2[k].id by {}
    assert(unique_keys::<Account>(u)) by {
        assert forall|a: int, b: int| 0 <= a < u.len() && 0 <= b < u.len() && a != b implies Account::key(#[trigger] u[a]) != Account::key(#[trigger] u[b]) by {
            assert(u[a].id == f2[a].id && u[b].id == f2[b].id);
        }
    }
    // Every entry of `f2` is in `s`, in the subtree and not archived.
    assert forall|k: int| 0 <= k < f2.len() implies s.contains(#[trigger] f2[k]) && c.contains(f2[k].id) && f2[k].archived_at is None by {
        f1.lemma_filter_pred(unarchived(), k);
        assert(f2.contains(f2[k]));
        f1.lemma_filter_contains_rev(unarchived(), f2[k]);
        let j = choose|j: int| 0 <= j < f1.len() && f1[j] == f2[k];
        s.lemma_filter_pred(key_in::<Account>(c), j);
        assert(f1.contains(f1[j]));
        s.lemma_filter_contains_rev(key_in::<Account>(c), f1[j]);
    }
    assert forall|k: int| 0 <= k < u.len() implies #[trigger] lookup::<Account>(s, Account::key(u[k])) is Some by {
        assert(s.contains(f2[k]));
        let j = choose|j: int| 0 <= j < s.len() && s[j] == f2[k];
        crate::store::lemma_lookup_at::<Account>(s, j);
    }
    lemma_upsert_all_existing::<Account>(s, u);
    let r = replaced::<Account>(s, u);
    assert forall|i: int| 0 <= i < s.len() implies #[trigger] r[i] == (if c.contains(s[i].id) && s[i].archived_at is None {
        AccountView { archived_at: Some(t), ..s[i] }
    } else {
        s[i]
    }) by {
        lemma_lookup_unique::<Account>(u, s[i].id);
        if c.contains(s[i].id) && s[i].archived_at is None {
            s.lemma_filter_contains(key_in::<Account>(c), i);
            let j = choose|j: int| 0 <= j < f1.len() && f1[j] == s[i];
            f1.lemma_filter_contains(unarchived(), j);
            let k = choose|k: int| 0 <= k < f2.len() && f2[k] == s[i];
            assert(u[k].id == s[i].id);
        } else {
            assert forall|k: int| 0 <= k < u.len() implies Account::key(#[trigger] u[k]) != s[i].id by {
                if u[k].id == s[i].id {
                    assert(s.contains(f2[k]));
                    let j = choose|j: int| 0 <= j < s.len() && s[j] == f2[k];
                    assert(s[j].id == s[i].id);
                    assert(j == i);
                }
            }
        }
    }
}

/// An update changes neither the identifiers, the journals, the parents
/// nor the types of accounts: the tree keeps its shape. Only the updated
/// accounts change, in place.
pub proof fn law_update_keeps_tree(s: Seq<AccountView>, cmds: Seq<AccountCommandUpdate>, now: i64)
    requires
        unique_keys::<Account>(s),
        update_error(s, cmds) is None,
    ensures
        upsert_all::<Account>(s, updated_accounts(s, cmds, now)).len() == s.len(),
        forall|i: int|
            0 <= i < s.len() ==> {
                let b = #[trigger] upsert_all::<Account>(s, updated_accounts(s, cmds, now))[i];
                &&& b.id == s[i].id
                &&& b.journal_id == s[i].journal_id
                &&& b.parent_id == s[i].parent_id
                &&& b.account_type == s[i].account_type
                &&& b.created_at == s[i].created_at
                &&& b.archived_at == s[i].archived_at
            },
{
    let u = updated_accounts(s, cmds, now);
    let n = cmds.len() as int;
    crate::common::lemma_first_from_before(0, n, crate::account::service::missing_at(s, cmds));
    // Each updated account is the existing one with new fields.
    assert forall|k: int| 0 <= k < u.len() implies (#[trigger] u[k]).id == cmds[k].id@ && lookup::<Account>(s, cmds[k].id@) is Some by {
        assert(!crate::account::service::missing_at(s, cmds)(k));
        lemma_lookup_some::<Account>(s, cmds[k].id@);
    }
    assert forall|k: int| 0 <= k < u.len() implies #[trigger] lookup::<Account>(s, Account::key(u[k])) is Some by {
        assert(u[k].id == cmds[k].id@);
    }
    assert(!crate::account::service::repeats_ids(cmds));
    assert(unique_keys::<Account>(u)) by {
        assert forall|a: int, b: int| 0 <= a < u.len() && 0 <= b < u.len() && a != b implies Account::key(#[trigger] u[a]) != Account::key(#[trigger] u[b]) by {
            assert(u[a].id == cmds[a].id@ && u[b].id == cmds[b].id@);
            if a < b {
                assert(cmds[a].id@ != cmds[b].id@);
            } else {
                assert(cmds[b].id@ != cmds[a].id@);
            }
        }
    }
    lemma_upsert_all_existing::<Account>(s, u);
    let r = replaced::<Account>(s, u);
    assert forall|i: int| 0 <= i < s.len() implies {
        let b = #[trigger] r[i];
        &&& b.id == s[i].id
        &&& b.journal_id == s[i].journal_id
        &&& b.parent_id == s[i].parent_id
        &&& b.account_type == s[i].account_type
        &&& b.created_at == s[i].created_at
        &&& b.archived_at == s[i].archived_at
    } by {
        lemma_lookup_unique::<Account>(u, s[i].id);
        if exists|k: int| 0 <= k < u.len() && Account::key(#[trigger] u[k]) == s[i].id {
            let k = choose|k: int| 0 <= k < u.len() && Account::key(#[trigger] u[k]) == s[i].id;
            crate::store::lemma_lookup_at::<Account>(s, i);
            assert(lookup::<Account>(s, cmds[k].id@) == Some(s[i]));
        }
    }
}

/// Creating `n` journals adds five root accounts for each, in order: the
/// `k`th root of journal `i` has type `k` (asset, liability, equity,
/// income, expense), that type's name, no parent, and journal `i`'s
/// identifier.
pub proof fn law_journal_roots(n: int, ids: Seq<String>, now: i64, i: int, k: int)
    requires
        0 <= i < n,
        0 <= k < 5,
    ensures
        created_roots(n, ids, now).len() == 5 * n,
        created_roots(n, ids, now)[5 * i + k] == root_account(ids[6 * i]@, ids[6 * i + 1 + k]@, root_type(k), now),
        created_roots(n, ids, now)[5 * i + k].name == account_type_name(root_type(k)),
        created_roots(n, ids, now)[5 * i + k].parent_id is None,
    decreases n,
{
    lemma_roots_len(n, ids, now);
    if i < n - 1 {
        law_journal_roots(n - 1, ids, now, i, k);
        lemma_roots_len(n - 1, ids, now);
        assert(created_roots(n, ids, now) == created_roots(n - 1, ids, now) + crate::journal::service::roots_of(ids[6 * (n - 1)]@, ids, 6 * (n - 1) + 1, now));
    } else {
        lemma_roots_len(n - 1, ids, now);
    }
}

proof fn lemma_roots_len(n: int, ids: Seq<String>, now: i64)
    ensures
        n >= 0 ==> created_roots(n, ids, now).len() == 5 * n,
    decreases n,
{
    if n > 0 {
        lemma_roots_len(n - 1, ids, now);
    }
}

/// Journals may swap names in one update: renaming one journal to the
/// other's name and back succeeds when both exist, the names are distinct
/// and not blank, and no journal outside the pair has either name.
pub proof fn law_journal_name_swap(s: Seq<JournalView>, cmds: Seq<JournalCommandUpdate>)
    requires
        cmds.len() == 2,
        cmds[0].id@ != cmds[1].id@,
        lookup::<Journal>(s, cmds[0].id@) is Some,
        lookup::<Journal>(s, cmds[1].id@) is Some,
        cmds[0].name@ != cmds[1].name@,
        !is_blank(cmds[0].name@),
        !is_blank(cmds[1].name@),
        forall|i: int|
            0 <= i < s.len() && s[i].id != cmds[0].id@ && s[i].id != cmds[1].id@ ==> !name_taken_by(
                update_names(cmds),
            )(#[trigger] s[i]),
    ensures
        journal_update_error(s, cmds) is None,
{
    let n = 2int;
    assert(!crate::journal::service::repeats_journal_ids(cmds)) by {
        if crate::journal::service::repeats_journal_ids(cmds) {
            let (a, b) = choose|a: int, b: int| 0 <= a < b < cmds.len() && #[trigger] cmds[a].id@ == #[trigger] cmds[b].id@;
            assert(a == 0 && b == 1);
        }
    }
    crate::common::lemma_first_from(0, n, crate::journal::service::journal_missing_at(s, cmds), n);
    assert(!crate::journal::service::repeated_update_name_at(s, cmds)(1));
    crate::common::lemma_first_from(0, n, crate::journal::service::repeated_update_name_at(s, cmds), n);
    let f = s.filter(name_taken_by(update_names(cmds)));
    let q = key_not_in::<Journal>(crate::journal::service::journal_update_ids(cmds).to_set());
    assert forall|j: int| 0 <= j < f.len() implies !q(#[trigger] f[j]) by {
        s.lemma_filter_pred(name_taken_by(update_names(cmds)), j);
        assert(f.contains(f[j]));
        s.lemma_filter_contains_rev(name_taken_by(update_names(cmds)), f[j]);
        let i = choose|i: int| 0 <= i < s.len() && s[i] == f[j];
        let ids = crate::journal::service::journal_update_ids(cmds);
        if f[j].id == cmds[0].id@ {
            assert(ids[0] == cmds[0].id@);
        } else {
            assert(ids[1] == cmds[1].id@);
        }
    }
    crate::store::lemma_filter_none(f, q);
    assert(!crate::journal::service::blank_journal_update_at(cmds)(0));
    assert(!crate::journal::service::blank_journal_update_at(cmds)(1));
    crate::common::lemma_first_from(0, n, crate::journal::service::blank_journal_update_at(cmds), n);
}

/// What the SQL store gives back of an account batch that it saved: each
/// account's row, read with the tag rows written for the whole batch, stands
/// for that account again (identifiers distinct, versions within the
/// column's range).
pub proof fn law_account_rows_round_trip(es: Seq<Account>, i: int)
    requires
        unique_keys::<Account>(views(es)),
        all_inv(es),
        forall|k: int| 0 <= k < es.len() ==> (#[trigger] es[k]).version <= i32::MAX,
        0 <= i < es.len(),
    ensures
        !is_blank(account_row(es[i]@).name),
        account_of_row(account_row(es[i]@), owner_tags(batch_tag_rows(es), es[i]@.id)) == es[i]@,
{
    let a = es[i];
    assert(a.inv());
    lemma_batch_owner_tags(es, i);
    lemma_tag_set_of_wf(a.tags@);
    assert(a.version <= i32::MAX);
    assert((a.version as i32) as usize == a.version);
}

/// What the SQL store gives back of a journal batch that it saved: each
/// journal's row, read with the tag rows written for the whole batch,
/// stands for that journal again (identifiers distinct, versions within the
/// column's range).
pub proof fn law_journal_rows_round_trip(es: Seq<Journal>, i: int)
    requires
        unique_keys::<Journal>(views(es)),
        all_inv(es),
        forall|k: int| 0 <= k < es.len() ==> (#[trigger] es[k]).version <= i32::MAX,
        0 <= i < es.len(),
    ensures
        !is_blank(journal_row(es[i]@).name),
        journal_of_row(journal_row(es[i]@), owner_tags(batch_tag_rows(es), es[i]@.id)) == es[i]@,
{
    let j = es[i];
    assert(j.inv());
    lemma_batch_owner_tags(es, i);
    lemma_tag_set_of_wf(j.tags@);
    assert(j.version <= i32::MAX);
    assert((j.version as i32) as usize == j.version);
}

/// What the SQL store gives back of a record that it saved: the record
/// row, read with the item rows and tag rows written for the record, stands
/// for that record again, provided that each amount and price reads back as
/// the decimal it was printed from (the version within the column's
/// range).
pub proof fn law_record_rows_round_trip(r: Record, items: Seq<ItemRowView>)
    requires
        r.wf(),
        r.version <= i32::MAX,
        stores_items(items, r.id@, r.items@),
        amounts_read_back(r.items@),
    ensures
        read_record(record_row(r@), items, owner_tag_rows(r.id@, strs_view(r.tags@)))
            == Ok::<RecordView, ErrorView>(r@),
{
    lemma_items_round_trip(items, r.id@, r.items@);
    lemma_owner_tags_round_trip(r.id@, strs_view(r.tags@));
    lemma_tag_set_of_wf(r.tags@);
    assert((r.version as i32) as usize == r.version);
}

/// What a read gives back of a write: after a repository saves entities
/// with distinct identifiers into a store, each is found under its
/// identifier, every other identifier finds what it found before, and the
/// identifiers stay distinct.
pub proof fn law_save_then_find<E: Entity>(s: Seq<E::V>, u: Seq<E::V>, id: Seq<char>)
    requires
        unique_keys::<E>(s),
        unique_keys::<E>(u),
    ensures
        unique_keys::<E>(upsert_all::<E>(s, u)),
        forall|k: int|
            0 <= k < u.len() ==> lookup::<E>(upsert_all::<E>(s, u), E::key(#[trigger] u[k]))
                == Some(u[k]),
        (forall|k: int| 0 <= k < u.len() ==> E::key(#[trigger] u[k]) != id) ==> lookup::<E>(
            upsert_all::<E>(s, u),
            id,
        ) == lookup::<E>(s, id),
    decreases u.len(),
{
    if u.len() > 0 {
        let w = u.drop_last();
        let x = u.last();
        assert(unique_keys::<E>(w)) by {
            assert forall|a: int, b: int|
                0 <= a < w.len() && 0 <= b < w.len() && a != b implies E::key(#[trigger] w[a])
                != E::key(#[trigger] w[b]) by {
                assert(w[a] == u[a] && w[b] == u[b]);
            }
        }
        law_save_then_find::<E>(s, w, id);
        let t = upsert_all::<E>(s, w);
        lemma_upsert_lookup::<E>(t, x, id);
        assert forall|k: int| 0 <= k < u.len() implies lookup::<E>(
            upsert_all::<E>(s, u),
            E::key(#[trigger] u[k]),
        ) == Some(u[k]) by {
            law_save_then_find::<E>(s, w, E::key(u[k]));
            lemma_upsert_lookup::<E>(t, x, E::key(u[k]));
            if k < u.len() - 1 {
                assert(w[k] == u[k]);
                assert(E::key(u[k]) != E::key(u[u.len() - 1]));
            }
        }
        if forall|k: int| 0 <= k < u.len() ==> E::key(#[trigger] u[k]) != id {
            assert forall|k: int| 0 <= k < w.len() implies E::key(#[trigger] w[k]) != id by {
                assert(w[k] == u[k]);
            }
            assert(E::key(u[u.len() - 1]) != id);
        }
    }
}

/// What a repository's read gives back of its write: after `save_all` of
/// entities with distinct identifiers, the entries under their identifiers
/// (what `save_all` returns, and what `find_all_by_ids` finds for those
/// identifiers) are exactly those entities, each once.
pub proof fn law_save_all_then_find_all<E: Entity>(s: Seq<E::V>, u: Seq<E::V>)
    requires
        unique_keys::<E>(s),
        unique_keys::<E>(u),
    ensures
        unique_keys::<E>(upsert_all::<E>(s, u).filter(key_in::<E>(keys::<E>(u).to_set()))),
        forall|x: E::V|
            upsert_all::<E>(s, u).filter(key_in::<E>(keys::<E>(u).to_set())).contains(x)
                <==> u.contains(x),
{
    let t = upsert_all::<E>(s, u);
    let p = key_in::<E>(keys::<E>(u).to_set());
    let f = t.filter(p);
    law_save_then_find::<E>(s, u, Seq::empty());
    lemma_filter_unique::<E>(t, p);
    t.filter_lemma(p);
    assert forall|x: E::V| f.contains(x) implies u.contains(x) by {
        let i = choose|i: int| 0 <= i < f.len() && f[i] == x;
        assert(p(f[i]));
        let k = choose|k: int| 0 <= k < u.len() && keys::<E>(u)[k] == E::key(x);
        assert(E::key(u[k]) == E::key(x));
        t.lemma_filter_contains_rev(p, x);
        let j = choose|j: int| 0 <= j < t.len() && t[j] == x;
        lemma_lookup_unique::<E>(t, E::key(x));
        assert(lookup::<E>(t, E::key(u[k])) == Some(u[k]));
        assert(x == u[k]);
    }
    assert forall|x: E::V| u.contains(x) implies f.contains(x) by {
        let k = choose|k: int| 0 <= k < u.len() && u[k] == x;
        assert(lookup::<E>(t, E::key(u[k])) == Some(u[k]));
        let j = choose|j: int| 0 <= j < t.len() && E::key(#[trigger] t[j]) == E::key(u[k]);
        assert(t[j] == x);
        assert(keys::<E>(u)[k] == E::key(x));
        assert(keys::<E>(u).to_set().contains(E::key(x)));
        t.lemma_filter_contains(p, j);
    }
}

/// What a read gives back after a delete: no identifier deleted is found,
/// and every other identifier finds what it found before.
pub proof fn law_delete_then_find<E: Entity>(s: Seq<E::V>, ids: Set<Seq<char>>, id: Seq<char>)
    requires
        unique_keys::<E>(s),
    ensures
        ids.contains(id) ==> lookup::<E>(s.filter(key_not_in::<E>(ids)), id) is None,
        !ids.contains(id) ==> lookup::<E>(s.filter(key_not_in::<E>(ids)), id) == lookup::<E>(s, id),
{
    let p = key_not_in::<E>(ids);
    let f = s.filter(p);
    lemma_filter_unique::<E>(s, p);
    lemma_lookup_unique::<E>(f, id);
    lemma_lookup_unique::<E>(s, id);
    if ids.contains(id) {
        assert forall|i: int| 0 <= i < f.len() implies E::key(#[trigger] f[i]) != id by {
            s.filter_lemma(p);
            assert(p(f[i]));
        }
    } else {
        s.filter_lemma(p);
        if exists|i: int| 0 <= i < s.len() && E::key(#[trigger] s[i]) == id {
            let i = choose|i: int| 0 <= i < s.len() && E::key(#[trigger] s[i]) == id;
            s.lemma_filter_contains(p, i);
            let k = choose|k: int| 0 <= k < f.len() && f[k] == s[i];
            assert(E::key(f[k]) == id);
        } else {
            assert forall|k: int| 0 <= k < f.len() implies E::key(#[trigger] f[k]) != id by {
                assert(f.contains(f[k]));
                s.lemma_filter_contains_rev(p, f[k]);
            }
        }
    }
}

/// What a successful record update does to each record: the record named
/// by the command keeps its identity, journal, version and creation time;
/// its date is the command's date whenever the command gives one (whether
/// or not it also gives new items), and the stored date otherwise; the
/// same holds of the description and the payee; without new tags or new
/// items it keeps its tags or its items.
pub proof fn law_record_update_fields(
    sa: Seq<AccountView>,
    sr: Seq<RecordView>,
    cmds: Seq<RecordCommandUpdate>,
)
    requires
        records_updated(sa, sr, cmds) is Ok,
    ensures
        records_updated(sa, sr, cmds)->Ok_0.len() == cmds.len(),
        forall|i: int|
            0 <= i < cmds.len() ==> {
                let old = lookup::<Record>(sr, (#[trigger] cmds[i]).id@)->0;
                let r = records_updated(sa, sr, cmds)->Ok_0[i];
                &&& lookup::<Record>(sr, cmds[i].id@) is Some
                &&& r.id == old.id
                &&& r.journal_id == old.journal_id
                &&& r.version == old.version
                &&& r.created_at == old.created_at
                &&& r.date == match cmds[i].date {
                    Some(d) => d,
                    None => old.date,
                }
                &&& r.description == match cmds[i].description {
                    Some(d) => d@,
                    None => old.description,
                }
                &&& r.payee == match cmds[i].payee {
                    Some(p) => p@,
                    None => old.payee,
                }
                &&& cmds[i].tags is None ==> r.tags == old.tags
                &&& cmds[i].items is None ==> r.items == old.items
            },
{
    let n = cmds.len() as int;
    if n > 0 {
        lemma_first_from_before(0, n, record_missing_at(sr, cmds));
        lemma_first_from_before(0, n, update_fails_at(sa, sr, cmds));
        assert(!repeats_record_ids(cmds));
        let recs = records_updated(sa, sr, cmds)->Ok_0;
        assert forall|i: int| 0 <= i < n implies {
            let old = lookup::<Record>(sr, (#[trigger] cmds[i]).id@)->0;
            let r = recs[i];
            &&& lookup::<Record>(sr, cmds[i].id@) is Some
            &&& r.id == old.id
            &&& r.journal_id == old.journal_id
            &&& r.version == old.version
            &&& r.created_at == old.created_at
            &&& r.date == match cmds[i].date {
                Some(d) => d,
                None => old.date,
            }
            &&& r.description == match cmds[i].description {
                Some(d) => d@,
                None => old.description,
            }
            &&& r.payee == match cmds[i].payee {
                Some(p) => p@,
                None => old.payee,
            }
            &&& cmds[i].tags is None ==> r.tags == old.tags
            &&& cmds[i].items is None ==> r.items == old.items
        } by {
            assert(!record_missing_at(sr, cmds)(i));
            assert(!update_fails_at(sa, sr, cmds)(i));
            let u = updated_record(sa, sr, cmds[i]);
            assert(u is Ok);
            assert(recs[i] == u->Ok_0);
        }
    }
}

/// Replaying what a record update says: applying the `i`th event that the
/// record service emits for an update, to any record, gives that record
/// the `i`th updated record's identity-free fields: its date, its items,
/// its description and its payee.
pub proof fn law_record_update_events_replay(
    ev: Seq<RecordEvent>,
    recs: Seq<RecordView>,
    now: i64,
    old: RecordView,
    i: int,
)
    requires
        record_update_events(ev, recs, now),
        0 <= i < ev.len(),
    ensures
        ev[i].spec_apply(old).date == recs[i].date,
        ev[i].spec_apply(old).items == recs[i].items,
        ev[i].spec_apply(old).description == recs[i].description,
        ev[i].spec_apply(old).payee == recs[i].payee,
        ev[i].spec_apply(old).id == old.id,
{
    assert(ev[i] is Updated);
}

/// Parsing postings one by one: a successful parse gives one posting per
/// input, each what parsing that input alone gives.
proof fn lemma_parse_transactions_each(v: Seq<RecordItemInput>)
    requires
        spec_parse_transactions(v) is Ok,
    ensures
        spec_parse_transactions(v)->Ok_0.len() == v.len(),
        forall|i: int|
            0 <= i < v.len() ==> spec_parse_transaction(#[trigger] v[i]) == Ok::<
                TransactionView,
                ErrorView,
            >(spec_parse_transactions(v)->Ok_0[i]),
    decreases v.len(),
{
    if v.len() > 0 {
        let w = v.drop_last();
        lemma_parse_transactions_each(w);
        assert forall|i: int| 0 <= i < v.len() implies spec_parse_transaction(#[trigger] v[i])
            == Ok::<TransactionView, ErrorView>(spec_parse_transactions(v)->Ok_0[i]) by {
            if i < v.len() - 1 {
                assert(w[i] == v[i]);
            }
        }
    }
}

/// A created record carries its command's fields and postings: when
/// creating a transaction record succeeds, it has the given identifier and
/// the command's journal, date, description and payee, and posting `i`
/// posts to item `i`'s account the
/// amount item `i` gives, at the price item `i` gives (none exactly when
/// it gives none). `v` is the command's items written as item inputs, each
/// with its account's type: proofs cannot build strings, so the law takes
/// them.
pub proof fn law_record_create_keeps_postings(
    sa: Seq<AccountView>,
    cmd: RecordCommandCreate,
    id: Seq<char>,
    v: Seq<RecordItemInput>,
)
    requires
        cmd.kind == RecordItemKind::Transaction,
        v.len() == cmd.items@.len(),
        forall|i: int|
            0 <= i < v.len() ==> {
                let it = cmd.items@[i];
                &&& (#[trigger] v[i]).account_id@ == it.account_id@
                &&& v[i].account_type == lookup::<Account>(sa, it.account_id@)->0.account_type
                &&& v[i].kind == cmd.kind
                &&& v[i].amount.0@ == it.amount@
                &&& v[i].description@ == it.description@
                &&& match (v[i].price, it.price) {
                    (Some(p), Some(q)) => p.0@ == q@,
                    (None, None) => true,
                    _ => false,
                }
                &&& v[i].cost@.len() == it.cost@.len()
                &&& forall|k: int| 0 <= k < v[i].cost@.len() ==> #[trigger] v[i].cost@[k].0@ == it.cost@[k]@
            },
        created_record(sa, cmd, id) is Ok,
    ensures
        created_record(sa, cmd, id)->Ok_0.id == id,
        created_record(sa, cmd, id)->Ok_0.journal_id == cmd.journal_id@,
        created_record(sa, cmd, id)->Ok_0.date == cmd.date,
        created_record(sa, cmd, id)->Ok_0.description == cmd.description@,
        created_record(sa, cmd, id)->Ok_0.payee == cmd.payee@,
        created_record(sa, cmd, id)->Ok_0.items is Transactions,
        ({
            let ts = created_record(sa, cmd, id)->Ok_0.items->Transactions_0;
            ts.len() == cmd.items@.len() && forall|i: int|
            0 <= i < ts.len() ==> {
                let it = cmd.items@[i];
                &&& (#[trigger] ts[i]).account_id == it.account_id@
                &&& ts[i].amount == spec_parse_amount(it.amount@)->Ok_0
                &&& ts[i].price == match it.price {
                    Some(p) => Some(spec_parse_amount(p@)->Ok_0),
                    None => None,
                }
            }
        }),
{
    let items = cmd.items@;
    assert(resolves_all(v, sa, cmd.kind, items)) by {
        assert forall|i: int| 0 <= i < v.len() implies resolves_to(
            #[trigger] v[i],
            items[i],
            item_account(sa, items[i])->0,
            cmd.kind,
        ) by {}
    }
    let w = resolved_inputs(sa, cmd.kind, items);
    assert(resolves_all(w, sa, cmd.kind, items));
    assert(resolve_error(sa, cmd.journal_id@, items) is None);
    assert(spec_parse_items(w) is Ok);
    assert(w.len() > 0);
    assert(all_of_kind(w, RecordItemKind::Transaction)) by {
        assert forall|i: int| 0 <= i < w.len() implies (#[trigger] w[i]).kind
            == RecordItemKind::Transaction by {
            assert(resolves_to(w[i], items[i], item_account(sa, items[i])->0, cmd.kind));
        }
    }
    assert(w[0].kind == RecordItemKind::Transaction) by {
        assert(resolves_to(w[0], items[0], item_account(sa, items[0])->0, cmd.kind));
    }
    assert(spec_parse_transactions(w) is Ok);
    lemma_parse_transactions_each(w);
    let ts = spec_parse_transactions(w)->Ok_0;
    assert forall|i: int| 0 <= i < ts.len() implies {
        let it = items[i];
        &&& (#[trigger] ts[i]).account_id == it.account_id@
        &&& ts[i].amount == spec_parse_amount(it.amount@)->Ok_0
        &&& ts[i].price == match it.price {
            Some(p) => Some(spec_parse_amount(p@)->Ok_0),
            None => None,
        }
    } by {
        assert(resolves_to(w[i], items[i], item_account(sa, items[i])->0, cmd.kind));
        assert(spec_parse_transaction(w[i]) == Ok::<TransactionView, ErrorView>(ts[i]));
    }
}

/// Names of new accounts need only be unique among siblings: a create
/// batch is accepted when no name is reserved or blank, every parent exists
/// and is not archived, no two commands give both the same parent and the
/// same name, and no existing child of a command's parent has the
/// command's name (ignoring case and surrounding space). In particular two
/// commands with one name under different parents do not clash.
pub proof fn law_account_create_siblings_only(s: Seq<AccountView>, cmds: Seq<AccountCommandCreate>)
    requires
        forall|i: int|
            0 <= i < cmds.len() ==> !spec_is_reserved_name((#[trigger] cmds[i]).name@) && !is_blank(
                cmds[i].name@,
            ),
        forall|i: int|
            0 <= i < cmds.len() ==> (lookup::<Account>(s, (#[trigger] cmds[i]).parent_id@) is Some
                && lookup::<Account>(s, cmds[i].parent_id@)->0.archived_at is None),
        forall|i: int, j: int|
            0 <= i < j < cmds.len() ==> (#[trigger] cmds[i]).parent_id@ != (#[trigger] cmds[j]).parent_id@
                || cmds[i].name@ != cmds[j].name@,
        forall|i: int, k: int|
            0 <= i < cmds.len() && 0 <= k < s.len() && (#[trigger] s[k]).parent_id == Some(
                (#[trigger] cmds[i]).parent_id@,
            ) ==> !name_key_matches(cmds[i].name@, s[k].name),
    ensures
        create_error(s, cmds) is None,
{
    let n = cmds.len() as int;
    assert forall|j: int| 0 <= j < n implies !#[trigger] reserved_at(cmds)(j) by {
        assert(!spec_is_reserved_name(cmds[j].name@));
    }
    lemma_first_from(0, n, reserved_at(cmds), n);
    assert forall|j: int| 0 <= j < n implies !#[trigger] parent_unusable_at(s, cmds)(j) by {
        assert(lookup::<Account>(s, cmds[j].parent_id@) is Some);
    }
    lemma_first_from(0, n, parent_unusable_at(s, cmds), n);
    assert forall|j: int| 0 <= j < n implies !#[trigger] repeated_name_at(cmds)(j) by {
        if repeated_name_at(cmds)(j) {
            let k = choose|k: int|
                0 <= k < j && #[trigger] cmds[k].parent_id@ == cmds[j].parent_id@ && cmds[k].name@
                    == cmds[j].name@;
            assert(cmds[k].parent_id@ != cmds[j].parent_id@ || cmds[k].name@ != cmds[j].name@);
        }
    }
    lemma_first_from(0, n, repeated_name_at(cmds), n);
    assert forall|j: int| 0 <= j < n implies !#[trigger] sibling_taken_at(s, cmds)(j) by {
        let p = named_children(cmds[j].parent_id@, cmds[j].name@);
        let f = s.filter(p);
        s.filter_lemma(p);
        if f.len() > 0 {
            assert(p(f[0]));
            assert(f.contains(f[0]));
            s.lemma_filter_contains_rev(p, f[0]);
            let k = choose|k: int| 0 <= k < s.len() && s[k] == f[0];
            assert(!name_key_matches(cmds[j].name@, s[k].name));
        }
    }
    lemma_first_from(0, n, sibling_taken_at(s, cmds), n);
    assert forall|j: int| 0 <= j < n implies !#[trigger] blank_create_at(cmds)(j) by {
        assert(!is_blank(cmds[j].name@));
    }
    lemma_first_from(0, n, blank_create_at(cmds), n);
}

/// What an account update does to each account: the account named by the
/// command keeps its identity, journal, parent, type and archival; it takes
/// the command's name unless that is empty; it takes the command's
/// description, or keeps its own without one; without new tags it keeps
/// its tags, and with new tags it has exactly the non-blank ones; it was
/// modified at `now`.
pub proof fn law_account_update_fields(s: Seq<AccountView>, cmds: Seq<AccountCommandUpdate>, now: i64)
    ensures
        updated_accounts(s, cmds, now).len() == cmds.len(),
        forall|i: int|
            0 <= i < cmds.len() ==> {
                let old = lookup::<Account>(s, (#[trigger] cmds[i]).id@)->0;
                let u = updated_accounts(s, cmds, now)[i];
                &&& u.id == old.id
                &&& u.journal_id == old.journal_id
                &&& u.parent_id == old.parent_id
                &&& u.account_type == old.account_type
                &&& u.archived_at == old.archived_at
                &&& u.name == if cmds[i].name@.len() > 0 {
                    cmds[i].name@
                } else {
                    old.name
                }
                &&& u.description == match cmds[i].description {
                    Some(d) => d@,
                    None => old.description,
                }
                &&& cmds[i].tags is None ==> u.tags == old.tags
                &&& cmds[i].tags matches Some(t) ==> forall|x: Seq<char>|
                    u.tags.contains(x) <==> (!is_blank(x) && exists|k: int|
                        0 <= k < t@.len() && (#[trigger] t@[k])@ == x)
                &&& u.last_modified_at == Some(now)
            },
{
    assert forall|i: int| 0 <= i < cmds.len() implies {
        let old = lookup::<Account>(s, (#[trigger] cmds[i]).id@)->0;
        let u = updated_accounts(s, cmds, now)[i];
        cmds[i].tags matches Some(t) ==> forall|x: Seq<char>|
            u.tags.contains(x) <==> (!is_blank(x) && exists|k: int|
                0 <= k < t@.len() && (#[trigger] t@[k])@ == x)
    } by {
        if let Some(t) = cmds[i].tags {
            let u = updated_accounts(s, cmds, now)[i];
            assert forall|x: Seq<char>| u.tags.contains(x) <==> (!is_blank(x) && exists|k: int|
                0 <= k < t@.len() && (#[trigger] t@[k])@ == x) by {
                if exists|k: int| 0 <= k < t@.len() && (#[trigger] t@[k])@ == x {
                    let k = choose|k: int| 0 <= k < t@.len() && (#[trigger] t@[k])@ == x;
                    assert(strs_view(t@)[k] == x);
                }
                if str_set(t@).contains(x) {
                    let k = choose|k: int| 0 <= k < strs_view(t@).len() && strs_view(t@)[k] == x;
                    assert(t@[k]@ == x);
                }
            }
        }
    }
}

/// New items given to a record update replace its postings: when the
/// update of a transaction record succeeds with new items, posting `i` of
/// the updated record posts to item `i`'s account the amount item `i`
/// gives, at the price item `i` gives (none exactly when it gives none).
/// `v` is the new items written as item inputs, each with its account's
/// type: proofs cannot build strings, so the law takes them.
pub proof fn law_record_update_replaces_postings(
    sa: Seq<AccountView>,
    sr: Seq<RecordView>,
    cmd: RecordCommandUpdate,
    v: Seq<RecordItemInput>,
)
    requires
        cmd.items is Some,
        lookup::<Record>(sr, cmd.id@)->0.items is Transactions,
        v.len() == cmd.items->0@.len(),
        forall|i: int|
            0 <= i < v.len() ==> {
                let it = cmd.items->0@[i];
                &&& (#[trigger] v[i]).account_id@ == it.account_id@
                &&& v[i].account_type == lookup::<Account>(sa, it.account_id@)->0.account_type
                &&& v[i].kind == RecordItemKind::Transaction
                &&& v[i].amount.0@ == it.amount@
                &&& v[i].description@ == it.description@
                &&& match (v[i].price, it.price) {
                    (Some(p), Some(q)) => p.0@ == q@,
                    (None, None) => true,
                    _ => false,
                }
                &&& v[i].cost@.len() == it.cost@.len()
                &&& forall|k: int| 0 <= k < v[i].cost@.len() ==> #[trigger] v[i].cost@[k].0@ == it.cost@[k]@
            },
        updated_record(sa, sr, cmd) is Ok,
    ensures
        updated_record(sa, sr, cmd)->Ok_0.items is Transactions,
        ({
            let ts = updated_record(sa, sr, cmd)->Ok_0.items->Transactions_0;
            ts.len() == cmd.items->0@.len() && forall|i: int|
            0 <= i < ts.len() ==> {
                let it = cmd.items->0@[i];
                &&& (#[trigger] ts[i]).account_id == it.account_id@
                &&& ts[i].amount == spec_parse_amount(it.amount@)->Ok_0
                &&& ts[i].price == match it.price {
                    Some(p) => Some(spec_parse_amount(p@)->Ok_0),
                    None => None,
                }
            }
        }),
{
    let items = cmd.items->0@;
    let kind = lookup::<Record>(sr, cmd.id@)->0.items.kind();
    assert(kind == RecordItemKind::Transaction);
    assert(resolves_all(v, sa, kind, items)) by {
        assert forall|i: int| 0 <= i < v.len() implies resolves_to(
            #[trigger] v[i],
            items[i],
            item_account(sa, items[i])->0,
            kind,
        ) by {}
    }
    let w = resolved_inputs(sa, kind, items);
    assert(resolves_all(w, sa, kind, items));
    assert(spec_parse_items(w) is Ok);
    assert(w.len() > 0);
    assert(all_of_kind(w, RecordItemKind::Transaction)) by {
        assert forall|i: int| 0 <= i < w.len() implies (#[trigger] w[i]).kind
            == RecordItemKind::Transaction by {
            assert(resolves_to(w[i], items[i], item_account(sa, items[i])->0, kind));
        }
    }
    assert(w[0].kind == RecordItemKind::Transaction) by {
        assert(resolves_to(w[0], items[0], item_account(sa, items[0])->0, kind));
    }
    assert(spec_parse_transactions(w) is Ok);
    lemma_parse_transactions_each(w);
    let ts = spec_parse_transactions(w)->Ok_0;
    assert forall|i: int| 0 <= i < ts.len() implies {
        let it = items[i];
        &&& (#[trigger] ts[i]).account_id == it.account_id@
        &&& ts[i].amount == spec_parse_amount(it.amount@)->Ok_0
        &&& ts[i].price == match it.price {
            Some(p) => Some(spec_parse_amount(p@)->Ok_0),
            None => None,
        }
    } by {
        assert(resolves_to(w[i], items[i], item_account(sa, items[i])->0, kind));
        assert(spec_parse_transaction(w[i]) == Ok::<TransactionView, ErrorView>(ts[i]));
    }
}

} // verus!
