//! The account service: validates account commands against the store and
//! applies them in one transaction.
use vstd::prelude::*;
use crate::account::{
    account_resource, spec_is_reserved_name, Account, AccountInput, AccountType, AccountView,
};
use crate::account::command::{
    AccountCommand, AccountCommandArchive, AccountCommandBatch, AccountCommandCreate,
    AccountCommandUpdate,
};
use crate::account::event::{
    AccountArchived, AccountCreated, AccountDeleted, AccountEvent, AccountUpdated,
};
use crate::account::specification::{AccountSpec, account_leaf_matches};
use crate::common::{
    any_name_matches, first_from, lemma_first_from, lemma_first_from_before, lemma_str_set_contains,
    tag_set_of,
};
use crate::error::{
    shared_err, shared_err_detail, Error, ErrorView, SharedErrorKind, SharedErrorKindView,
};
use crate::specification::{eval, lemma_eval_all};
use crate::runtime::{new_id, now_micros};
use crate::text::{concat3, is_blank, query_key, spec_to_lowercase};
use crate::account::repository::AccountRepository;
use crate::account::specification::AccountSpecification;
use crate::common::{clone_strs, contains_str, dedup_strs, distinct_strs, insert_str, str_set};
use crate::error::{opt_str_view, strs_view};
use crate::common::clone_opt_str;
use crate::common::HandleResult;
use crate::inmemory::{InMemorySession, StoresView};
use crate::inmemory::account::ids_of;
use crate::store::{
    all_inv, find_by_id, key_in, key_not_in, keys, lemma_lookup_filter, lemma_filter_unique, lookup,
    lemma_lookup_some, satisfying, upsert_all, views, Entity,
};

verus! {

broadcast use vstd::seq_lib::group_seq_properties;

/// Every account whose parent is in `c` is in `c` too.
pub open spec fn children_closed(s: Seq<AccountView>, c: Set<Seq<char>>) -> bool {
    forall|i: int|
        0 <= i < s.len() && (#[trigger] s[i]).parent_id is Some && c.contains(
            s[i].parent_id->0,
        ) ==> c.contains(s[i].id)
}

/// `c` is the least set that holds `ids` and the children of its members:
/// the identifiers and all the descendants of the accounts they name.
pub open spec fn is_subtree_closure(s: Seq<AccountView>, ids: Set<Seq<char>>, c: Set<Seq<char>>) -> bool {
    &&& ids.subset_of(c)
    &&& children_closed(s, c)
    &&& forall|d: Set<Seq<char>>| ids.subset_of(d) && #[trigger] children_closed(s, d) ==> c.subset_of(d)
}

/// The identifiers and all descendants of the accounts they name.
pub open spec fn subtree_closure(s: Seq<AccountView>, ids: Set<Seq<char>>) -> Set<Seq<char>> {
    choose|c: Set<Seq<char>>| is_subtree_closure(s, ids, c)
}

/// There is one least closed set.
pub proof fn lemma_subtree_closure_unique(s: Seq<AccountView>, ids: Set<Seq<char>>, c: Set<Seq<char>>)
    requires
        is_subtree_closure(s, ids, c),
    ensures
        subtree_closure(s, ids) == c,
{
    let d = subtree_closure(s, ids);
    assert(is_subtree_closure(s, ids, d));
    assert(children_closed(s, c));
    assert(children_closed(s, d));
    assert(d.subset_of(c));
    assert(c.subset_of(d));
    assert(d =~= c);
}

/// The number of accounts whose identifier is not in `c`.
pub open spec fn outside_count(s: Seq<AccountView>, c: Set<Seq<char>>) -> nat
    decreases s.len(),
{
    if s.len() == 0 {
        0
    } else {
        outside_count(s.drop_last(), c) + (if c.contains(s.last().id) {
            0nat
        } else {
            1nat
        })
    }
}

proof fn lemma_outside_count_mono(s: Seq<AccountView>, c1: Set<Seq<char>>, c2: Set<Seq<char>>, i: int)
    requires
        c1.subset_of(c2),
    ensures
        outside_count(s, c2) <= outside_count(s, c1),
        0 <= i < s.len() && c2.contains(s[i].id) && !c1.contains(s[i].id) ==> outside_count(s, c2)
            < outside_count(s, c1),
    decreases s.len(),
{
    if s.len() > 0 {
        lemma_outside_count_mono(s.drop_last(), c1, c2, i);
    }
}

/// The identifiers and all descendants of the accounts they name, found by
/// asking the repository for the children of each new generation.
fn collect_subtree<R: AccountRepository>(repo: &R, sess: &InMemorySession, ids: &Vec<String>) -> (r:
    Vec<String>)
    requires
        sess.wf(),
    ensures
        is_subtree_closure(sess@.accounts, str_set(ids@), str_set(r@)),
        distinct_strs(r@),
{
    let ghost s = sess@.accounts;
    let ghost idset = str_set(ids@);
    let mut all = dedup_strs(ids);
    let mut frontier = clone_strs(&all);
    while frontier.len() > 0
        invariant
            sess.wf(),
            s == sess@.accounts,
            idset == str_set(ids@),
            distinct_strs(all@),
            idset.subset_of(str_set(all@)),
            str_set(frontier@).subset_of(str_set(all@)),
            forall|i: int|
                0 <= i < s.len() && (#[trigger] s[i]).parent_id is Some && str_set(all@).contains(
                    s[i].parent_id->0,
                ) && !str_set(frontier@).contains(s[i].parent_id->0) ==> str_set(all@).contains(
                    s[i].id,
                ),
            forall|d: Set<Seq<char>>|
                idset.subset_of(d) && #[trigger] children_closed(s, d) ==> str_set(all@).subset_of(
                    d,
                ),
        decreases outside_count(s, str_set(all@)), frontier@.len(),
    {
        let spec = AccountSpecification::parent_ids(clone_strs(&frontier));
        let children = repo.find_all(sess, &spec, None);
        let ghost p = crate::store::satisfying::<Account, AccountSpecification>(spec);
        let ghost cv = views(children@);
        let ghost all0 = str_set(all@);
        let ghost fr0 = str_set(frontier@);
        assert(cv == s.filter(p));
        assert forall|k: int| 0 <= k < cv.len() implies s.contains(#[trigger] cv[k]) && (
        cv[k].parent_id is Some && fr0.contains(cv[k].parent_id->0)) by {
            s.lemma_filter_pred(p, k);
            assert(s.filter(p).contains(cv[k]));
            s.lemma_filter_contains_rev(p, cv[k]);
        }
        assert forall|i: int|
            0 <= i < s.len() && (#[trigger] s[i]).parent_id is Some && fr0.contains(
                s[i].parent_id->0,
            ) implies cv.contains(s[i]) by {
            assert(p(s[i]));
            s.lemma_filter_contains(p, i);
        }
        let mut next: Vec<String> = Vec::new();
        let mut j: usize = 0;
        let m = children.len();
        while j < m
            invariant
                m == children@.len(),
                cv == views(children@),
                j <= m,
                distinct_strs(all@),
                all0.subset_of(str_set(all@)),
                str_set(all@) == all0 + str_set(next@),
                forall|k: int| 0 <= k < j ==> str_set(all@).contains(#[trigger] cv[k].id),
                forall|k: int| 0 <= k < next@.len() ==> !all0.contains(#[trigger] next@[k]@),
                forall|k: int|
                    0 <= k < next@.len() ==> exists|q: int|
                        0 <= q < cv.len() && #[trigger] next@[k]@ == cv[q].id,
            decreases m - j,
        {
            let cid = children[j].id.clone();
            assert(cv[j as int].id == cid@);
            if !contains_str(&all, &cid) {
                insert_str(&mut all, cid.clone());
                let ghost nb = next@;
                next.push(cid);
                proof {
                    crate::common::lemma_str_set_push(nb, cid);
                    assert(next@[nb.len() as int]@ == cv[j as int].id);
                    assert forall|k: int| 0 <= k < next@.len() implies exists|q: int|
                        0 <= q < cv.len() && #[trigger] next@[k]@ == cv[q].id by {
                        if k < nb.len() {
                            assert(next@[k] == nb[k]);
                        }
                    }
                    assert(str_set(all@) =~= all0 + str_set(next@));
                }
            } else {
                assert(str_set(all@).contains(cid@));
            }
            j = j + 1;
        }
        proof {
            // Every child of the old frontier is now in `all`.
            assert forall|i: int|
                0 <= i < s.len() && (#[trigger] s[i]).parent_id is Some && str_set(all@).contains(
                    s[i].parent_id->0,
                ) && !str_set(next@).contains(s[i].parent_id->0) implies str_set(all@).contains(
                s[i].id,
            ) by {
                let par = s[i].parent_id->0;
                if fr0.contains(par) {
                    assert(cv.contains(s[i]));
                    let k = choose|k: int| 0 <= k < cv.len() && cv[k] == s[i];
                    assert(str_set(all@).contains(cv[k].id));
                } else {
                    assert(all0.contains(par));
                }
            }
            // `all` stays inside every closed superset of `ids`.
            assert forall|d: Set<Seq<char>>|
                idset.subset_of(d) && #[trigger] children_closed(s, d) implies str_set(
                all@,
            ).subset_of(d) by {
                assert(all0.subset_of(d));
                assert forall|x: Seq<char>| str_set(next@).contains(x) implies d.contains(x) by {
                    crate::common::lemma_str_set_contains(next@, x);
                    let k = choose|k: int| 0 <= k < next@.len() && #[trigger] next@[k]@ == x;
                    let q = choose|q: int| 0 <= q < cv.len() && #[trigger] next@[k]@ == cv[q].id;
                    assert(s.contains(cv[q]));
                    let i = choose|i: int| 0 <= i < s.len() && s[i] == cv[q];
                    assert(s[i].parent_id is Some);
                    assert(d.contains(s[i].parent_id->0));
                }
            }
            assert(str_set(next@).subset_of(str_set(all@)));
            if next@.len() > 0 {
                let q = choose|q: int| 0 <= q < cv.len() && #[trigger] next@[0]@ == cv[q].id;
                assert(s.contains(cv[q]));
                let i = choose|i: int| 0 <= i < s.len() && s[i] == cv[q];
                lemma_outside_count_mono(s, all0, str_set(all@), i);
            } else {
                assert(str_set(all@) =~= all0);
            }
        }
        frontier = next;
    }
    proof {
        assert(str_set(frontier@) =~= Set::<Seq<char>>::empty());
    }
    all
}

/// The identifiers of the accounts that the events are about.
pub open spec fn event_ids(ev: Seq<AccountEvent>) -> Seq<Seq<char>> {
    ev.map_values(|e: AccountEvent| e.spec_id())
}

/// The events are deletions, one for each identifier of `c`.
pub open spec fn deletion_events(ev: Seq<AccountEvent>, c: Set<Seq<char>>) -> bool {
    &&& forall|i: int| 0 <= i < ev.len() ==> #[trigger] ev[i] is Deleted
    &&& event_ids(ev).no_duplicates()
    &&& event_ids(ev).to_set() == c
}

/// The account is not archived.
pub open spec fn unarchived() -> spec_fn(AccountView) -> bool {
    |a: AccountView| a.archived_at is None
}

/// The account archived at `t`.
pub open spec fn archived_at(t: i64) -> spec_fn(AccountView) -> AccountView {
    |a: AccountView| AccountView { archived_at: Some(t), ..a }
}

/// The accounts of `c` that are not archived yet, archived at `t`, in store
/// order.
pub open spec fn archive_targets(s: Seq<AccountView>, c: Set<Seq<char>>, t: i64) -> Seq<AccountView> {
    s.filter(key_in::<Account>(c)).filter(unarchived()).map_values(archived_at(t))
}

/// The events say that each of `targets` was archived at `t`, in order.
pub open spec fn archive_events(ev: Seq<AccountEvent>, targets: Seq<AccountView>, t: i64) -> bool {
    &&& ev.len() == targets.len()
    &&& forall|i: int|
        0 <= i < ev.len() ==> (#[trigger] ev[i] matches AccountEvent::Archived(e) && e.id@
            == targets[i].id && e.archived_at == t)
}

/// Deletes the accounts with the given identifiers and all their
/// descendants; identifiers of no account are ignored, and each deleted
/// identifier gets one event.
fn do_delete<R: AccountRepository>(repo: &R, sess: &mut InMemorySession, ids: &Vec<String>) -> (r:
    Vec<AccountEvent>)
    requires
        old(sess).wf(),
    ensures
        final(sess).wf(),
        final(sess)@.accounts == old(sess)@.accounts.filter(
            key_not_in::<Account>(subtree_closure(old(sess)@.accounts, str_set(ids@))),
        ),
        final(sess)@.journals == old(sess)@.journals,
        final(sess)@.records == old(sess)@.records,
        final(sess).saved() == old(sess).saved(),
        deletion_events(r@, subtree_closure(old(sess)@.accounts, str_set(ids@))),
{
    let all = collect_subtree(repo, sess, ids);
    proof {
        lemma_subtree_closure_unique(sess@.accounts, str_set(ids@), str_set(all@));
    }
    let mut events: Vec<AccountEvent> = Vec::new();
    let n = all.len();
    let mut i: usize = 0;
    while i < n
        invariant
            n == all@.len(),
            i <= n,
            events@.len() == i,
            forall|k: int| 0 <= k < i ==> #[trigger] events@[k] is Deleted,
            forall|k: int| 0 <= k < i ==> (#[trigger] events@[k]).spec_id() == all@[k]@,
        decreases n - i,
    {
        events.push(AccountEvent::Deleted(AccountDeleted { id: all[i].clone() }));
        i = i + 1;
    }
    assert(event_ids(events@) =~= strs_view(all@));
    repo.delete_all_by_ids(sess, &all);
    events
}

/// Archives the accounts with the given identifiers and all their
/// descendants at the command's time; accounts already archived keep their
/// time. Returns the events and the archived accounts.
fn do_archive<R: AccountRepository>(
    repo: &R,
    sess: &mut InMemorySession,
    cmd: &AccountCommandArchive,
) -> (r: (Vec<AccountEvent>, Vec<Account>))
    requires
        old(sess).wf(),
    ensures
        final(sess).wf(),
        final(sess)@.accounts == upsert_all::<Account>(
            old(sess)@.accounts,
            archive_targets(
                old(sess)@.accounts,
                subtree_closure(old(sess)@.accounts, str_set(cmd.ids@)),
                cmd.archived_at,
            ),
        ),
        final(sess)@.journals == old(sess)@.journals,
        final(sess)@.records == old(sess)@.records,
        final(sess).saved() == old(sess).saved(),
        views(r.1@) == archive_targets(
            old(sess)@.accounts,
            subtree_closure(old(sess)@.accounts, str_set(cmd.ids@)),
            cmd.archived_at,
        ),
        archive_events(
            r.0@,
            archive_targets(
                old(sess)@.accounts,
                subtree_closure(old(sess)@.accounts, str_set(cmd.ids@)),
                cmd.archived_at,
            ),
            cmd.archived_at,
        ),
{
    let ghost s = sess@.accounts;
    let all = collect_subtree(repo, sess, &cmd.ids);
    proof {
        lemma_subtree_closure_unique(s, str_set(cmd.ids@), str_set(all@));
    }
    let existing = repo.find_all_by_ids(sess, &all);
    let ghost ev = views(existing@);
    let ghost t = cmd.archived_at;
    let mut to_save: Vec<Account> = Vec::new();
    let mut events: Vec<AccountEvent> = Vec::new();
    let n = existing.len();
    let mut i: usize = 0;
    assert(ev.subrange(0, 0) =~= Seq::<AccountView>::empty());
    while i < n
        invariant
            n == existing@.len(),
            ev == views(existing@),
            t == cmd.archived_at,
            i <= n,
            all_inv(existing@),
            all_inv(to_save@),
            views(to_save@) == ev.subrange(0, i as int).filter(unarchived()).map_values(
                archived_at(t),
            ),
            archive_events(events@, views(to_save@), t),
        decreases n - i,
    {
        proof {
            assert(ev.subrange(0, i + 1) =~= ev.subrange(0, i as int).push(ev[i as int]));
            ev.subrange(0, i as int).lemma_filter_push(ev[i as int], unarchived());
        }
        if existing[i].archived_at.is_none() {
            let mut a = existing[i].clone();
            a.archived_at = Some(cmd.archived_at);
            let ghost before = to_save@;
            events.push(
                AccountEvent::Archived(
                    AccountArchived { id: a.id.clone(), archived_at: cmd.archived_at },
                ),
            );
            to_save.push(a);
            proof {
                crate::store::lemma_views_push(before, a);
                let f = ev.subrange(0, i as int).filter(unarchived());
                assert(f.push(ev[i as int]).map_values(archived_at(t)) =~= f.map_values(
                    archived_at(t),
                ).push(archived_at(t)(ev[i as int])));
                assert(all_inv(to_save@)) by {
                    assert forall|k: int| 0 <= k < to_save@.len() implies (
                    #[trigger] to_save@[k]).inv() by {
                        if k < before.len() {
                            assert(to_save@[k] == before[k]);
                        } else {
                            assert(existing@[i as int].inv());
                        }
                    }
                }
            }
        }
        i = i + 1;
    }
    assert(ev.subrange(0, n as int) =~= ev);
    repo.save_all(sess, &to_save);
    (events, to_save)
}

/// The error for a reserved root name.
pub open spec fn reserved_name_error(name: Seq<char>) -> ErrorView {
    shared_err_detail(
        SharedErrorKindView::Conflict,
        account_resource(),
        "name"@,
        "'"@ + name + "' is a reserved root account name"@,
    )
}

/// The error for a parent that does not exist.
pub open spec fn parent_not_found_error(id: Seq<char>) -> ErrorView {
    shared_err_detail(
        SharedErrorKindView::NotFound,
        account_resource(),
        "parent_id"@,
        "parent "@ + id + " not found"@,
    )
}

/// The error for a parent that is archived.
pub open spec fn parent_archived_error(id: Seq<char>) -> ErrorView {
    shared_err_detail(
        SharedErrorKindView::Conflict,
        account_resource(),
        "parent_id"@,
        "parent "@ + id + " is archived"@,
    )
}

/// The error for a name used twice among siblings.
pub open spec fn duplicate_name_error(name: Seq<char>) -> ErrorView {
    shared_err(SharedErrorKindView::DuplicateValues { value: name }, account_resource(), "name"@)
}

/// The error for a blank name.
pub open spec fn blank_name_error() -> ErrorView {
    shared_err(SharedErrorKindView::NonEmpty, account_resource(), "name"@)
}

fn reserved_name_err(name: &String) -> (r: Error)
    ensures
        r@ == reserved_name_error(name@),
{
    SharedErrorKind::Conflict.into_error().with_resource_type(Account::ENTITY_TYPE).with_field(
        "name",
    ).with_detail(concat3("'", name.as_str(), "' is a reserved root account name"))
}

fn duplicate_name_err(name: &String) -> (r: Error)
    ensures
        r@ == duplicate_name_error(name@),
{
    SharedErrorKind::DuplicateValues { value: name.clone() }.into_error().with_resource_type(
        Account::ENTITY_TYPE,
    ).with_field("name")
}

/// The query `q`, trimmed and lower-cased, is not empty and equals the
/// lower-cased `name`.
pub open spec fn name_key_matches(q: Seq<char>, name: Seq<char>) -> bool {
    query_key(q).len() > 0 && query_key(q) == spec_to_lowercase(name)
}

/// Children of `parent` whose name matches the query `name`.
pub open spec fn named_children(parent: Seq<char>, name: Seq<char>) -> spec_fn(AccountView) -> bool {
    |a: AccountView| a.parent_id == Some(parent) && name_key_matches(name, a.name)
}

/// The condition "child of `p`, named `n`".
fn named_children_spec(p: &String, n: &String) -> (r: AccountSpec)
    ensures
        satisfying::<Account, AccountSpecification>(r) == named_children(p@, n@),
{
    let r = AccountSpecification::parent_id(p.clone()).and(AccountSpecification::name(n.clone()));
    proof {
        let f = satisfying::<Account, AccountSpecification>(r);
        let g = named_children(p@, n@);
        let v = r->All_0;
        assert forall|a: AccountView| #[trigger] f(a) == g(a) by {
            lemma_eval_all::<AccountSpecification, Account>(v@, a);
            let x = v@[0];
            let y = v@[1];
            assert(eval::<AccountSpecification, Account>(x, a) == account_leaf_matches(x->Leaf_0, a));
            assert(eval::<AccountSpecification, Account>(y, a) == account_leaf_matches(y->Leaf_0, a));
            let ps = x->Leaf_0->ParentId_0;
            let ns = y->Leaf_0->Name_0;
            if a.parent_id is Some {
                lemma_str_set_contains(ps@, a.parent_id->0);
                if str_set(ps@).contains(a.parent_id->0) {
                    let k = choose|k: int| 0 <= k < ps@.len() && #[trigger] ps@[k]@ == a.parent_id->0;
                    assert(k == 0);
                } else {
                    assert(ps@[0]@ == p@);
                }
            }
            if any_name_matches(ns@, a.name) {
                let k = choose|k: int| 0 <= k < ns@.len() && query_key(#[trigger] ns@[k]@).len() > 0
                    && query_key(ns@[k]@) == spec_to_lowercase(a.name);
                assert(k == 0);
            }
            if name_key_matches(n@, a.name) {
                assert(ns@[0]@ == n@);
            }
        }
        assert(f =~= g);
    }
    r
}

/// Command `i` asks for a reserved root name.
pub open spec fn reserved_at(cmds: Seq<AccountCommandCreate>) -> spec_fn(int) -> bool {
    |i: int| spec_is_reserved_name(cmds[i].name@)
}

/// Command `i` names a parent that does not exist or is archived.
pub open spec fn parent_unusable_at(s: Seq<AccountView>, cmds: Seq<AccountCommandCreate>) -> spec_fn(
    int,
) -> bool {
    |i: int|
        match lookup::<Account>(s, cmds[i].parent_id@) {
            None => true,
            Some(p) => p.archived_at is Some,
        }
}

/// Command `i` repeats the parent and name of an earlier command.
pub open spec fn repeated_name_at(cmds: Seq<AccountCommandCreate>) -> spec_fn(int) -> bool {
    |i: int|
        exists|j: int|
            0 <= j < i && #[trigger] cmds[j].parent_id@ == cmds[i].parent_id@ && cmds[j].name@
                == cmds[i].name@
}

/// The existing children of command `i`'s parent whose name matches it.
pub open spec fn taken_siblings(s: Seq<AccountView>, cmd: AccountCommandCreate) -> Seq<AccountView> {
    s.filter(named_children(cmd.parent_id@, cmd.name@))
}

/// Command `i`'s name matches an existing sibling.
pub open spec fn sibling_taken_at(s: Seq<AccountView>, cmds: Seq<AccountCommandCreate>) -> spec_fn(
    int,
) -> bool {
    |i: int| taken_siblings(s, cmds[i]).len() > 0
}

/// Command `i`'s name is blank.
pub open spec fn blank_create_at(cmds: Seq<AccountCommandCreate>) -> spec_fn(int) -> bool {
    |i: int| is_blank(cmds[i].name@)
}

/// Why creating these accounts fails, if it does: the first command with a
/// reserved name; else the first whose parent is missing or archived; else
/// the first that repeats a sibling name of the batch; else the first whose
/// name an existing sibling has (ignoring case and surrounding space); else
/// the first with a blank name.
pub open spec fn create_error(s: Seq<AccountView>, cmds: Seq<AccountCommandCreate>) -> Option<
    ErrorView,
> {
    let n = cmds.len() as int;
    let a = first_from(0, n, reserved_at(cmds));
    let b = first_from(0, n, parent_unusable_at(s, cmds));
    let c = first_from(0, n, repeated_name_at(cmds));
    let d = first_from(0, n, sibling_taken_at(s, cmds));
    let e = first_from(0, n, blank_create_at(cmds));
    if a < n {
        Some(reserved_name_error(cmds[a].name@))
    } else if b < n {
        if lookup::<Account>(s, cmds[b].parent_id@) is None {
            Some(parent_not_found_error(cmds[b].parent_id@))
        } else {
            Some(parent_archived_error(cmds[b].parent_id@))
        }
    } else if c < n {
        Some(duplicate_name_error(cmds[c].name@))
    } else if d < n {
        Some(duplicate_name_error(taken_siblings(s, cmds[d])[0].name))
    } else if e < n {
        Some(blank_name_error())
    } else {
        None
    }
}

/// The account that command `cmd` creates with identifier `id` at `now`:
/// the type is the parent's, the tags are the non-blank ones.
pub open spec fn created_account(
    s: Seq<AccountView>,
    cmd: AccountCommandCreate,
    id: Seq<char>,
    now: i64,
) -> AccountView {
    AccountView {
        id,
        version: 0,
        created_at: Some(now),
        last_modified_at: None,
        archived_at: None,
        journal_id: cmd.journal_id@,
        parent_id: Some(cmd.parent_id@),
        account_type: lookup::<Account>(s, cmd.parent_id@)->0.account_type,
        name: cmd.name@,
        description: cmd.description@,
        tags: tag_set_of(cmd.tags@),
    }
}

/// The accounts the commands create, the `i`th with the `i`th identifier.
pub open spec fn created_accounts(
    s: Seq<AccountView>,
    cmds: Seq<AccountCommandCreate>,
    ids: Seq<String>,
    now: i64,
) -> Seq<AccountView> {
    Seq::new(cmds.len(), |i: int| created_account(s, cmds[i], ids[i]@, now))
}

/// The events say that each of `created` was created, in order.
pub open spec fn creation_events(ev: Seq<AccountEvent>, created: Seq<AccountView>) -> bool {
    &&& ev.len() == created.len()
    &&& forall|i: int|
        0 <= i < ev.len() ==> (#[trigger] ev[i] matches AccountEvent::Created(e) && {
            let a = created[i];
            &&& e.id@ == a.id
            &&& e.journal_id@ == a.journal_id
            &&& e.parent_id.is_some() && e.parent_id->0@ == a.parent_id->0
            &&& e.account_type == a.account_type
            &&& e.name@ == a.name
            &&& e.description@ == a.description
            &&& str_set(e.tags@) == a.tags
            &&& e.created_at == a.created_at->0
        })
}

/// Checks account creations against the store and builds the accounts and
/// events, the `i`th account with the `i`th identifier of `new_ids`.
fn plan_create<R: AccountRepository>(
    repo: &R,
    sess: &InMemorySession,
    cmds: &Vec<AccountCommandCreate>,
    new_ids: &Vec<String>,
    now: i64,
) -> (r: Result<(Vec<AccountEvent>, Vec<Account>), Error>)
    requires
        sess.wf(),
        new_ids@.len() >= cmds@.len(),
    ensures
        match create_error(sess@.accounts, cmds@) {
            Some(e) => r is Err && r->Err_0@ == e,
            None => r is Ok && {
                let created = created_accounts(sess@.accounts, cmds@, new_ids@, now);
                &&& views(r->Ok_0.1@) == created
                &&& all_inv(r->Ok_0.1@)
                &&& creation_events(r->Ok_0.0@, created)
            },
        },
{
    let ghost s = sess@.accounts;
    let ghost c = cmds@;
    let n = cmds.len();
    if n == 0 {
        let ghost empty = Seq::<AccountView>::empty();
        assert(created_accounts(s, c, new_ids@, now) =~= empty);
        let r: Vec<Account> = Vec::new();
        assert(views(r@) =~= empty);
        return Ok((Vec::new(), r));
    }
    // Reserved names.
    let mut i: usize = 0;
    while i < n
        invariant
            n == c.len(),
            c == cmds@,
            i <= n,
            forall|j: int| 0 <= j < i ==> !#[trigger] reserved_at(c)(j),
        decreases n - i,
    {
        if Account::is_reserved_name(cmds[i].name.as_str()) {
            proof {
                lemma_first_from(0, n as int, reserved_at(c), i as int);
            }
            return Err(reserved_name_err(&cmds[i].name));
        }
        i = i + 1;
    }
    proof {
        lemma_first_from(0, n as int, reserved_at(c), n as int);
    }
    // Parents exist and are active.
    let mut parent_ids: Vec<String> = Vec::new();
    let mut i: usize = 0;
    while i < n
        invariant
            n == c.len(),
            c == cmds@,
            i <= n,
            parent_ids@.len() == i,
            forall|j: int| 0 <= j < i ==> (#[trigger] parent_ids@[j])@ == c[j].parent_id@,
        decreases n - i,
    {
        parent_ids.push(cmds[i].parent_id.clone());
        i = i + 1;
    }
    let parents = repo.find_all_by_ids(sess, &parent_ids);
    proof {
        lemma_filter_unique::<Account>(s, key_in::<Account>(str_set(parent_ids@)));
    }
    let mut i: usize = 0;
    while i < n
        invariant
            n == c.len(),
            c == cmds@,
            s == sess@.accounts,
            sess.wf(),
            i <= n,
            parent_ids@.len() == n,
            forall|j: int| 0 <= j < n ==> (#[trigger] parent_ids@[j])@ == c[j].parent_id@,
            views(parents@) == s.filter(key_in::<Account>(str_set(parent_ids@))),
            crate::store::unique_keys::<Account>(views(parents@)),
            forall|j: int| 0 <= j < i ==> !#[trigger] parent_unusable_at(s, c)(j),
            first_from(0, n as int, reserved_at(c)) == n,
        decreases n - i,
    {
        proof {
            lemma_str_set_contains(parent_ids@, c[i as int].parent_id@);
            assert(parent_ids@[i as int]@ == c[i as int].parent_id@);
            crate::store::lemma_lookup_filter::<Account>(
                s,
                str_set(parent_ids@),
                c[i as int].parent_id@,
            );
        }
        match find_by_id(&parents, &cmds[i].parent_id) {
            None => {
                proof {
                    lemma_first_from(0, n as int, parent_unusable_at(s, c), i as int);
                }
                return Err(
                    SharedErrorKind::NotFound.into_error().with_resource_type(
                        Account::ENTITY_TYPE,
                    ).with_field("parent_id").with_detail(
                        concat3("parent ", cmds[i].parent_id.as_str(), " not found"),
                    ),
                );
            },
            Some(p) => {
                if p.archived_at.is_some() {
                    proof {
                        lemma_first_from(0, n as int, parent_unusable_at(s, c), i as int);
                    }
                    return Err(
                        SharedErrorKind::Conflict.into_error().with_resource_type(
                            Account::ENTITY_TYPE,
                        ).with_field("parent_id").with_detail(
                            concat3("parent ", cmds[i].parent_id.as_str(), " is archived"),
                        ),
                    );
                }
            },
        }
        i = i + 1;
    }
    proof {
        lemma_first_from(0, n as int, parent_unusable_at(s, c), n as int);
    }
    // Names repeated within the batch under one parent.
    let mut i: usize = 0;
    while i < n
        invariant
            n == c.len(),
            c == cmds@,
            i <= n,
            forall|j: int| 0 <= j < i ==> !#[trigger] repeated_name_at(c)(j),
            first_from(0, n as int, reserved_at(c)) == n,
            first_from(0, n as int, parent_unusable_at(s, c)) == n,
            s == sess@.accounts,
        decreases n - i,
    {
        let mut j: usize = 0;
        while j < i
            invariant
                n == c.len(),
                c == cmds@,
                i < n,
                j <= i,
                forall|k: int|
                    0 <= k < j ==> !(c[k].parent_id@ == c[i as int].parent_id@ && c[k].name@
                        == c[i as int].name@),
                forall|j: int| 0 <= j < i ==> !#[trigger] repeated_name_at(c)(j),
                first_from(0, n as int, reserved_at(c)) == n,
                first_from(0, n as int, parent_unusable_at(s, c)) == n,
                s == sess@.accounts,
            decreases i - j,
        {
            if cmds[j].parent_id == cmds[i].parent_id && cmds[j].name == cmds[i].name {
                proof {
                    assert(c[j as int].parent_id@ == c[i as int].parent_id@);
                    assert(repeated_name_at(c)(i as int));
                    lemma_first_from(0, n as int, repeated_name_at(c), i as int);
                }
                return Err(duplicate_name_err(&cmds[i].name));
            }
            j = j + 1;
        }
        assert(!repeated_name_at(c)(i as int));
        i = i + 1;
    }
    proof {
        lemma_first_from(0, n as int, repeated_name_at(c), n as int);
    }
    // Names taken by existing siblings.
    let mut i: usize = 0;
    while i < n
        invariant
            n == c.len(),
            c == cmds@,
            s == sess@.accounts,
            sess.wf(),
            i <= n,
            forall|j: int| 0 <= j < i ==> !#[trigger] sibling_taken_at(s, c)(j),
            first_from(0, n as int, reserved_at(c)) == n,
            first_from(0, n as int, parent_unusable_at(s, c)) == n,
            first_from(0, n as int, repeated_name_at(c)) == n,
        decreases n - i,
    {
        let spec = named_children_spec(&cmds[i].parent_id, &cmds[i].name);
        let found = repo.find_all(sess, &spec, Some(1));
        let ghost f = taken_siblings(s, c[i as int]);
        assert(s.filter(satisfying::<Account, AccountSpecification>(spec)) == f);
        if found.len() > 0 {
            proof {
                assert(views(found@)[0] == found@[0]@);
                assert(f.len() > 0);
                assert(views(found@)[0] == f[0]);
                lemma_first_from(0, n as int, sibling_taken_at(s, c), i as int);
            }
            return Err(duplicate_name_err(&found[0].name));
        }
        proof {
            assert(views(found@).len() == 0);
            if f.len() > 1 {
                assert(f.take(1).len() == 1);
            }
        }
        assert(f.len() == 0);
        i = i + 1;
    }
    proof {
        lemma_first_from(0, n as int, sibling_taken_at(s, c), n as int);
    }
    // Build the accounts.
    let mut created: Vec<Account> = Vec::new();
    let mut events: Vec<AccountEvent> = Vec::new();
    let mut i: usize = 0;
    while i < n
        invariant
            n == c.len(),
            c == cmds@,
            s == sess@.accounts,
            sess.wf(),
            new_ids@.len() >= n,
            i <= n,
            forall|j: int| 0 <= j < n ==> !#[trigger] parent_unusable_at(s, c)(j),
            parent_ids@.len() == n,
            forall|j: int| 0 <= j < n ==> (#[trigger] parent_ids@[j])@ == c[j].parent_id@,
            views(parents@) == s.filter(key_in::<Account>(str_set(parent_ids@))),
            crate::store::unique_keys::<Account>(views(parents@)),
            forall|j: int| 0 <= j < i ==> !#[trigger] blank_create_at(c)(j),
            first_from(0, n as int, reserved_at(c)) == n,
            first_from(0, n as int, parent_unusable_at(s, c)) == n,
            first_from(0, n as int, repeated_name_at(c)) == n,
            first_from(0, n as int, sibling_taken_at(s, c)) == n,
            created@.len() == i,
            all_inv(created@),
            forall|j: int|
                0 <= j < i ==> (#[trigger] created@[j])@ == created_account(s, c[j], new_ids@[j]@, now),
            creation_events(events@, views(created@)),
        decreases n - i,
    {
        let cmd = &cmds[i];
        proof {
            lemma_str_set_contains(parent_ids@, c[i as int].parent_id@);
            assert(parent_ids@[i as int]@ == c[i as int].parent_id@);
            crate::store::lemma_lookup_filter::<Account>(
                s,
                str_set(parent_ids@),
                c[i as int].parent_id@,
            );
            assert(!parent_unusable_at(s, c)(i as int));
        }
        let account_type = match find_by_id(&parents, &cmd.parent_id) {
            Some(p) => p.account_type,
            None => AccountType::Asset,
        };
        let input = AccountInput {
            id: new_ids[i].clone(),
            version: 0,
            created_at: Some(now),
            last_modified_at: None,
            archived_at: None,
            journal_id: cmd.journal_id.clone(),
            parent_id: Some(cmd.parent_id.clone()),
            account_type,
            name: cmd.name.clone(),
            description: cmd.description.clone(),
            tags: clone_strs(&cmd.tags),
        };
        match Account::try_from_input(input) {
            Err(e) => {
                proof {
                    lemma_first_from(0, n as int, blank_create_at(c), i as int);
                }
                return Err(e);
            },
            Ok(account) => {
                let ghost before = created@;
                let ghost ev_before = events@;
                events.push(
                    AccountEvent::Created(
                        AccountCreated {
                            id: account.id.clone(),
                            journal_id: account.journal_id.clone(),
                            parent_id: Some(cmd.parent_id.clone()),
                            account_type: account.account_type,
                            name: account.name.clone(),
                            description: account.description.clone(),
                            tags: clone_strs(&account.tags),
                            created_at: now,
                        },
                    ),
                );
                created.push(account);
                proof {
                    crate::store::lemma_views_push(before, created@.last());
                    assert forall|j: int| 0 <= j < created@.len() implies (#[trigger] created@[j]).inv() by {
                        if j < before.len() {
                            assert(created@[j] == before[j]);
                        }
                    }
                    let cv = views(created@);
                    assert forall|j: int| 0 <= j < events@.len() implies (#[trigger] events@[j] matches AccountEvent::Created(e) && {
                        let a = cv[j];
                        &&& e.id@ == a.id
                        &&& e.journal_id@ == a.journal_id
                        &&& e.parent_id.is_some() && e.parent_id->0@ == a.parent_id->0
                        &&& e.account_type == a.account_type
                        &&& e.name@ == a.name
                        &&& e.description@ == a.description
                        &&& str_set(e.tags@) == a.tags
                        &&& e.created_at == a.created_at->0
                    }) by {
                        if j < ev_before.len() {
                            assert(events@[j] == ev_before[j]);
                            assert(cv[j] == views(before)[j]);
                        }
                    }
                }
            },
        }
        i = i + 1;
    }
    proof {
        lemma_first_from(0, n as int, blank_create_at(c), n as int);
        assert(views(created@) =~= created_accounts(s, c, new_ids@, now));
    }
    Ok((events, created))
}

/// Creates accounts under existing parents, the `i`th with the `i`th
/// identifier of `new_ids`, at `now`.
fn do_create<R: AccountRepository>(
    repo: &R,
    sess: &mut InMemorySession,
    cmds: &Vec<AccountCommandCreate>,
    new_ids: &Vec<String>,
    now: i64,
) -> (r: Result<(Vec<AccountEvent>, Vec<Account>), Error>)
    requires
        old(sess).wf(),
        new_ids@.len() >= cmds@.len(),
    ensures
        final(sess).wf(),
        final(sess)@.journals == old(sess)@.journals,
        final(sess)@.records == old(sess)@.records,
        final(sess).saved() == old(sess).saved(),
        match create_error(old(sess)@.accounts, cmds@) {
            Some(e) => r is Err && r->Err_0@ == e && final(sess)@ == old(sess)@,
            None => r is Ok && {
                let created = created_accounts(old(sess)@.accounts, cmds@, new_ids@, now);
                &&& final(sess)@.accounts == upsert_all::<Account>(old(sess)@.accounts, created)
                &&& views(r->Ok_0.1@) == created
                &&& creation_events(r->Ok_0.0@, created)
            },
        },
{
    match plan_create(repo, sess, cmds, new_ids, now) {
        Err(e) => Err(e),
        Ok((events, created)) => {
            repo.save_all(sess, &created);
            Ok((events, created))
        },
    }
}

/// Two commands update the same account.
pub open spec fn repeats_ids(cmds: Seq<AccountCommandUpdate>) -> bool {
    exists|i: int, j: int| 0 <= i < j < cmds.len() && #[trigger] cmds[i].id@ == #[trigger] cmds[j].id@
}

/// The error for an account updated twice in one batch.
pub open spec fn repeated_id_error() -> ErrorView {
    shared_err(SharedErrorKindView::DuplicateValues { value: "id"@ }, account_resource(), "id"@)
}

/// The error for an account that does not exist.
pub open spec fn account_not_found_error(id: Seq<char>) -> ErrorView {
    shared_err_detail(
        SharedErrorKindView::NotFound,
        account_resource(),
        "id"@,
        "account "@ + id + " not found"@,
    )
}

/// Command `i` gives a new name that is reserved or that an earlier command
/// gives too.
pub open spec fn bad_new_name_at(cmds: Seq<AccountCommandUpdate>) -> spec_fn(int) -> bool {
    |i: int|
        cmds[i].name@.len() > 0 && (spec_is_reserved_name(cmds[i].name@) || exists|j: int|
            0 <= j < i && #[trigger] cmds[j].name@ == cmds[i].name@)
}

/// Command `i` names an account that does not exist.
pub open spec fn missing_at(s: Seq<AccountView>, cmds: Seq<AccountCommandUpdate>) -> spec_fn(
    int,
) -> bool {
    |i: int| lookup::<Account>(s, cmds[i].id@) is None
}

/// Existing siblings of the account of command `cmd`, outside the batch,
/// whose name matches the new name.
pub open spec fn rename_conflicts(
    s: Seq<AccountView>,
    cmds: Seq<AccountCommandUpdate>,
    cmd: AccountCommandUpdate,
) -> Seq<AccountView> {
    let parent = lookup::<Account>(s, cmd.id@)->0.parent_id->0;
    s.filter(named_children(parent, cmd.name@)).filter(
        key_not_in::<Account>(update_ids(cmds).to_set()),
    )
}

/// The identifiers the commands update.
pub open spec fn update_ids(cmds: Seq<AccountCommandUpdate>) -> Seq<Seq<char>> {
    cmds.map_values(|c: AccountCommandUpdate| c.id@)
}

/// Command `i` renames a child account to a name a sibling outside the
/// batch has.
pub open spec fn rename_taken_at(s: Seq<AccountView>, cmds: Seq<AccountCommandUpdate>) -> spec_fn(
    int,
) -> bool {
    |i: int|
        cmds[i].name@.len() > 0 && lookup::<Account>(s, cmds[i].id@)->0.parent_id is Some
            && rename_conflicts(s, cmds, cmds[i]).len() > 0
}

/// The name that command `cmd` leaves its account with: the new name, or
/// the account's own name where the new name is empty.
pub open spec fn account_resulting_name(s: Seq<AccountView>, cmd: AccountCommandUpdate) -> Seq<char> {
    if cmd.name@.len() > 0 {
        cmd.name@
    } else {
        lookup::<Account>(s, cmd.id@)->0.name
    }
}

/// The parent of the account of command `cmd`.
pub open spec fn updated_parent(s: Seq<AccountView>, cmd: AccountCommandUpdate) -> Option<Seq<char>> {
    lookup::<Account>(s, cmd.id@)->0.parent_id
}

/// Command `i` leaves a child account with the name that an earlier
/// command leaves a sibling with.
pub open spec fn sibling_clash_at(s: Seq<AccountView>, cmds: Seq<AccountCommandUpdate>) -> spec_fn(
    int,
) -> bool {
    |i: int|
        updated_parent(s, cmds[i]) is Some && exists|j: int|
            0 <= j < i && #[trigger] updated_parent(s, cmds[j]) == updated_parent(s, cmds[i])
                && account_resulting_name(s, cmds[j]) == account_resulting_name(s, cmds[i])
}

/// Command `i` gives a blank new name.
pub open spec fn blank_update_at(cmds: Seq<AccountCommandUpdate>) -> spec_fn(int) -> bool {
    |i: int| cmds[i].name@.len() > 0 && is_blank(cmds[i].name@)
}

/// Why updating fails, if it does: an account named twice; else the first
/// command whose new name is reserved or repeated; else the first that names
/// a missing account; else the first that renames to a name a sibling
/// outside the batch has; else the first that leaves its account with the
/// name an earlier command leaves a sibling with; else the first with a
/// blank new name.
pub open spec fn update_error(s: Seq<AccountView>, cmds: Seq<AccountCommandUpdate>) -> Option<
    ErrorView,
> {
    let n = cmds.len() as int;
    let a = first_from(0, n, bad_new_name_at(cmds));
    let b = first_from(0, n, missing_at(s, cmds));
    let c = first_from(0, n, rename_taken_at(s, cmds));
    let e = first_from(0, n, sibling_clash_at(s, cmds));
    let d = first_from(0, n, blank_update_at(cmds));
    if repeats_ids(cmds) {
        Some(repeated_id_error())
    } else if a < n {
        if spec_is_reserved_name(cmds[a].name@) {
            Some(reserved_name_error(cmds[a].name@))
        } else {
            Some(duplicate_name_error(cmds[a].name@))
        }
    } else if b < n {
        Some(account_not_found_error(cmds[b].id@))
    } else if c < n {
        Some(duplicate_name_error(rename_conflicts(s, cmds, cmds[c])[0].name))
    } else if e < n {
        Some(duplicate_name_error(account_resulting_name(s, cmds[e])))
    } else if d < n {
        Some(blank_name_error())
    } else {
        None
    }
}

/// The account after command `cmd` at `now`: an empty name keeps the name,
/// `None` keeps the description or the tags.
pub open spec fn updated_account(s: Seq<AccountView>, cmd: AccountCommandUpdate, now: i64) -> AccountView {
    let a = lookup::<Account>(s, cmd.id@)->0;
    AccountView {
        name: if cmd.name@.len() > 0 {
            cmd.name@
        } else {
            a.name
        },
        description: match cmd.description {
            Some(d) => d@,
            None => a.description,
        },
        tags: match cmd.tags {
            Some(t) => tag_set_of(t@),
            None => a.tags,
        },
        last_modified_at: Some(now),
        ..a
    }
}

/// The accounts after the commands, in command order.
pub open spec fn updated_accounts(s: Seq<AccountView>, cmds: Seq<AccountCommandUpdate>, now: i64) -> Seq<
    AccountView,
> {
    Seq::new(cmds.len(), |i: int| updated_account(s, cmds[i], now))
}

/// The events say that each of `updated` now has its name, description and
/// tags, in order.
pub open spec fn update_events(ev: Seq<AccountEvent>, updated: Seq<AccountView>, now: i64) -> bool {
    &&& ev.len() == updated.len()
    &&& forall|i: int|
        0 <= i < ev.len() ==> (#[trigger] ev[i] matches AccountEvent::Updated(e) && {
            let a = updated[i];
            &&& e.id@ == a.id
            &&& e.name.is_some() && e.name->0@ == a.name
            &&& e.description.is_some() && e.description->0@ == a.description
            &&& e.tags.is_some() && str_set(e.tags->0@) == a.tags
            &&& e.last_modified_at == now
        })
}

fn account_not_found_err(id: &String) -> (r: Error)
    ensures
        r@ == account_not_found_error(id@),
{
    SharedErrorKind::NotFound.into_error().with_resource_type(Account::ENTITY_TYPE).with_field(
        "id",
    ).with_detail(concat3("account ", id.as_str(), " not found"))
}

/// Checks account updates against the store and builds the updated accounts
/// and events.
fn plan_update<R: AccountRepository>(
    repo: &R,
    sess: &InMemorySession,
    cmds: &Vec<AccountCommandUpdate>,
    now: i64,
) -> (r: Result<(Vec<AccountEvent>, Vec<Account>), Error>)
    requires
        sess.wf(),
    ensures
        match update_error(sess@.accounts, cmds@) {
            Some(e) => r is Err && r->Err_0@ == e,
            None => r is Ok && {
                let updated = updated_accounts(sess@.accounts, cmds@, now);
                &&& views(r->Ok_0.1@) == updated
                &&& all_inv(r->Ok_0.1@)
                &&& update_events(r->Ok_0.0@, updated, now)
            },
        },
{
    let ghost s = sess@.accounts;
    let ghost c = cmds@;
    let n = cmds.len();
    // The same account twice.
    let mut i: usize = 0;
    while i < n
        invariant
            n == c.len(),
            c == cmds@,
            i <= n,
            forall|a: int, b: int| 0 <= a < b < i ==> c[a].id@ != c[b].id@,
        decreases n - i,
    {
        let mut j: usize = 0;
        while j < i
            invariant
                n == c.len(),
                c == cmds@,
                i < n,
                j <= i,
                forall|a: int, b: int| 0 <= a < b < i ==> c[a].id@ != c[b].id@,
                forall|a: int| 0 <= a < j ==> c[a].id@ != c[i as int].id@,
            decreases i - j,
        {
            if cmds[j].id == cmds[i].id {
                proof {
                    assert(c[j as int].id@ == c[i as int].id@);
                    assert(repeats_ids(c));
                }
                return Err(
                    SharedErrorKind::DuplicateValues { value: "id".to_string() }.into_error().with_resource_type(
                        Account::ENTITY_TYPE,
                    ).with_field("id"),
                );
            }
            j = j + 1;
        }
        i = i + 1;
    }
    assert(!repeats_ids(c));
    // New names: not reserved, not repeated.
    let mut i: usize = 0;
    while i < n
        invariant
            n == c.len(),
            c == cmds@,
            i <= n,
            !repeats_ids(c),
            forall|j: int| 0 <= j < i ==> !#[trigger] bad_new_name_at(c)(j),
        decreases n - i,
    {
        if cmds[i].name.unicode_len() > 0 {
            if Account::is_reserved_name(cmds[i].name.as_str()) {
                proof {
                    lemma_first_from(0, n as int, bad_new_name_at(c), i as int);
                }
                return Err(reserved_name_err(&cmds[i].name));
            }
            let mut j: usize = 0;
            while j < i
                invariant
                    n == c.len(),
                    c == cmds@,
                    i < n,
                    j <= i,
                    !repeats_ids(c),
                    c[i as int].name@.len() > 0,
                    !spec_is_reserved_name(c[i as int].name@),
                    forall|j: int| 0 <= j < i ==> !#[trigger] bad_new_name_at(c)(j),
                    forall|k: int| 0 <= k < j ==> c[k].name@ != c[i as int].name@,
                decreases i - j,
            {
                if cmds[j].name == cmds[i].name {
                    proof {
                        assert(c[j as int].name@ == c[i as int].name@);
                        assert(bad_new_name_at(c)(i as int));
                        lemma_first_from(0, n as int, bad_new_name_at(c), i as int);
                    }
                    return Err(duplicate_name_err(&cmds[i].name));
                }
                j = j + 1;
            }
            assert(!bad_new_name_at(c)(i as int));
        }
        i = i + 1;
    }
    proof {
        lemma_first_from(0, n as int, bad_new_name_at(c), n as int);
    }
    // Every account exists.
    let mut ids: Vec<String> = Vec::new();
    let mut i: usize = 0;
    while i < n
        invariant
            n == c.len(),
            c == cmds@,
            i <= n,
            ids@.len() == i,
            forall|j: int| 0 <= j < i ==> (#[trigger] ids@[j])@ == c[j].id@,
        decreases n - i,
    {
        ids.push(cmds[i].id.clone());
        i = i + 1;
    }
    proof {
        assert(strs_view(ids@) =~= update_ids(c));
    }
    let existing = repo.find_all_by_ids(sess, &ids);
    proof {
        lemma_filter_unique::<Account>(s, key_in::<Account>(str_set(ids@)));
    }
    let mut i: usize = 0;
    while i < n
        invariant
            n == c.len(),
            c == cmds@,
            s == sess@.accounts,
            sess.wf(),
            i <= n,
            ids@.len() == n,
            forall|j: int| 0 <= j < n ==> (#[trigger] ids@[j])@ == c[j].id@,
            views(existing@) == s.filter(key_in::<Account>(str_set(ids@))),
            crate::store::unique_keys::<Account>(views(existing@)),
            !repeats_ids(c),
            first_from(0, n as int, bad_new_name_at(c)) == n,
            forall|j: int| 0 <= j < i ==> !#[trigger] missing_at(s, c)(j),
        decreases n - i,
    {
        proof {
            lemma_str_set_contains(ids@, c[i as int].id@);
            assert(ids@[i as int]@ == c[i as int].id@);
            crate::store::lemma_lookup_filter::<Account>(s, str_set(ids@), c[i as int].id@);
        }
        if find_by_id(&existing, &cmds[i].id).is_none() {
            proof {
                lemma_first_from(0, n as int, missing_at(s, c), i as int);
            }
            return Err(account_not_found_err(&cmds[i].id));
        }
        i = i + 1;
    }
    proof {
        lemma_first_from(0, n as int, missing_at(s, c), n as int);
    }
    // New names taken by siblings outside the batch.
    let mut i: usize = 0;
    while i < n
        invariant
            n == c.len(),
            c == cmds@,
            s == sess@.accounts,
            sess.wf(),
            i <= n,
            ids@.len() == n,
            forall|j: int| 0 <= j < n ==> (#[trigger] ids@[j])@ == c[j].id@,
            strs_view(ids@) == update_ids(c),
            views(existing@) == s.filter(key_in::<Account>(str_set(ids@))),
            crate::store::unique_keys::<Account>(views(existing@)),
            !repeats_ids(c),
            first_from(0, n as int, bad_new_name_at(c)) == n,
            first_from(0, n as int, missing_at(s, c)) == n,
            forall|j: int| 0 <= j < i ==> !#[trigger] rename_taken_at(s, c)(j),
        decreases n - i,
    {
        proof {
            lemma_str_set_contains(ids@, c[i as int].id@);
            assert(ids@[i as int]@ == c[i as int].id@);
            crate::store::lemma_lookup_filter::<Account>(s, str_set(ids@), c[i as int].id@);
            lemma_first_from_before(0, n as int, missing_at(s, c));
            assert(!missing_at(s, c)(i as int));
        }
        if cmds[i].name.unicode_len() > 0 {
            let acc = find_by_id(&existing, &cmds[i].id);
            match acc {
                Some(a) => match &a.parent_id {
                    Some(parent) => {
                        let spec = named_children_spec(parent, &cmds[i].name);
                        let found = repo.find_all(sess, &spec, None);
                        let ghost q = key_not_in::<Account>(update_ids(c).to_set());
                        let ghost f = s.filter(named_children(parent@, c[i as int].name@));
                        assert(views(found@) == f);
                        let m = found.len();
                        let mut k: usize = 0;
                        while k < m
                            invariant
                                m == found@.len(),
                                f == views(found@),
                                k <= m,
                                strs_view(ids@) == update_ids(c),
                                forall|j: int| 0 <= j < k ==> !q(#[trigger] f[j]),
                                q == key_not_in::<Account>(update_ids(c).to_set()),
                                n == c.len(),
                                c == cmds@,
                                s == sess@.accounts,
                                i < n,
                                forall|j: int| 0 <= j < i ==> !#[trigger] rename_taken_at(s, c)(j),
                                c[i as int].name@.len() > 0,
                                lookup::<Account>(s, c[i as int].id@) == Some(a@),
                                a@.parent_id == Some(parent@),
                                f == s.filter(named_children(parent@, c[i as int].name@)),
                                ids@.len() == n,
                                !repeats_ids(c),
                                first_from(0, n as int, bad_new_name_at(c)) == n,
                                first_from(0, n as int, missing_at(s, c)) == n,
                            decreases m - k,
                        {
                            if !contains_str(&ids, found[k].id()) {
                                proof {
                                    assert(f[k as int] == found@[k as int]@);
                                    crate::store::lemma_filter_first(f, q, k as int);
                                    assert(rename_taken_at(s, c)(i as int));
                                    lemma_first_from(0, n as int, rename_taken_at(s, c), i as int);
                                }
                                return Err(duplicate_name_err(&found[k].name));
                            }
                            assert(f[k as int] == found@[k as int]@);
                            k = k + 1;
                        }
                        proof {
                            crate::store::lemma_filter_none(f, q);
                        }
                    },
                    None => {},
                },
                None => {},
            }
        }
        assert(!rename_taken_at(s, c)(i as int));
        i = i + 1;
    }
    proof {
        lemma_first_from(0, n as int, rename_taken_at(s, c), n as int);
    }
    // Resulting names repeated among siblings within the batch.
    let mut result_names: Vec<String> = Vec::new();
    let mut parents: Vec<Option<String>> = Vec::new();
    let mut i: usize = 0;
    while i < n
        invariant
            n == c.len(),
            c == cmds@,
            s == sess@.accounts,
            sess.wf(),
            i <= n,
            ids@.len() == n,
            forall|j: int| 0 <= j < n ==> (#[trigger] ids@[j])@ == c[j].id@,
            views(existing@) == s.filter(key_in::<Account>(str_set(ids@))),
            crate::store::unique_keys::<Account>(views(existing@)),
            first_from(0, n as int, missing_at(s, c)) == n,
            result_names@.len() == i,
            parents@.len() == i,
            forall|j: int|
                0 <= j < i ==> (#[trigger] result_names@[j])@ == account_resulting_name(s, c[j]),
            forall|j: int| 0 <= j < i ==> opt_str_view(#[trigger] parents@[j]) == updated_parent(s, c[j]),
        decreases n - i,
    {
        let cmd = &cmds[i];
        proof {
            lemma_str_set_contains(ids@, c[i as int].id@);
            assert(ids@[i as int]@ == c[i as int].id@);
            crate::store::lemma_lookup_filter::<Account>(s, str_set(ids@), c[i as int].id@);
            lemma_first_from_before(0, n as int, missing_at(s, c));
            assert(!missing_at(s, c)(i as int));
        }
        let a = find_by_id(&existing, &cmd.id).unwrap();
        if cmd.name.unicode_len() > 0 {
            result_names.push(cmd.name.clone());
        } else {
            result_names.push(a.name.clone());
        }
        parents.push(clone_opt_str(&a.parent_id));
        i = i + 1;
    }
    let mut i: usize = 0;
    while i < n
        invariant
            n == c.len(),
            c == cmds@,
            i <= n,
            result_names@.len() == n,
            parents@.len() == n,
            s == sess@.accounts,
            !repeats_ids(c),
            first_from(0, n as int, bad_new_name_at(c)) == n,
            first_from(0, n as int, missing_at(s, c)) == n,
            first_from(0, n as int, rename_taken_at(s, c)) == n,
            forall|j: int|
                0 <= j < n ==> (#[trigger] result_names@[j])@ == account_resulting_name(s, c[j]),
            forall|j: int| 0 <= j < n ==> opt_str_view(#[trigger] parents@[j]) == updated_parent(s, c[j]),
            forall|j: int| 0 <= j < i ==> !#[trigger] sibling_clash_at(s, c)(j),
        decreases n - i,
    {
        match &parents[i] {
            Some(pi) => {
                let mut j: usize = 0;
                while j < i
                    invariant
                        n == c.len(),
                        c == cmds@,
                        i < n,
                        j <= i,
                        result_names@.len() == n,
                        parents@.len() == n,
                        parents@[i as int] == Some(*pi),
                        s == sess@.accounts,
                        !repeats_ids(c),
                        first_from(0, n as int, bad_new_name_at(c)) == n,
                        first_from(0, n as int, missing_at(s, c)) == n,
                        first_from(0, n as int, rename_taken_at(s, c)) == n,
                        forall|j: int|
                            0 <= j < n ==> (#[trigger] result_names@[j])@ == account_resulting_name(
                                s,
                                c[j],
                            ),
                        forall|j: int|
                            0 <= j < n ==> opt_str_view(#[trigger] parents@[j]) == updated_parent(
                                s,
                                c[j],
                            ),
                        forall|k: int|
                            0 <= k < j ==> !(updated_parent(s, c[k]) == updated_parent(s, c[i as int])
                                && account_resulting_name(s, c[k]) == account_resulting_name(
                                s,
                                c[i as int],
                            )),
                        forall|j: int| 0 <= j < i ==> !#[trigger] sibling_clash_at(s, c)(j),
                    decreases i - j,
                {
                    proof {
                        assert(opt_str_view(parents@[j as int]) == updated_parent(s, c[j as int]));
                        assert(opt_str_view(parents@[i as int]) == updated_parent(s, c[i as int]));
                        assert(result_names@[j as int]@ == account_resulting_name(s, c[j as int]));
                        assert(result_names@[i as int]@ == account_resulting_name(s, c[i as int]));
                    }
                    let same_parent = match &parents[j] {
                        Some(pj) => *pj == *pi,
                        None => false,
                    };
                    if same_parent && result_names[j] == result_names[i] {
                        proof {
                            assert(sibling_clash_at(s, c)(i as int));
                            lemma_first_from(0, n as int, sibling_clash_at(s, c), i as int);
                        }
                        return Err(duplicate_name_err(&result_names[i]));
                    }
                    j = j + 1;
                }
                assert(!sibling_clash_at(s, c)(i as int));
            },
            None => {
                assert(opt_str_view(parents@[i as int]) == updated_parent(s, c[i as int]));
                assert(!sibling_clash_at(s, c)(i as int));
            },
        }
        i = i + 1;
    }
    proof {
        lemma_first_from(0, n as int, sibling_clash_at(s, c), n as int);
    }
    // Build the updated accounts.
    let mut updated: Vec<Account> = Vec::new();
    let mut events: Vec<AccountEvent> = Vec::new();
    let mut i: usize = 0;
    while i < n
        invariant
            n == c.len(),
            c == cmds@,
            s == sess@.accounts,
            sess.wf(),
            i <= n,
            ids@.len() == n,
            forall|j: int| 0 <= j < n ==> (#[trigger] ids@[j])@ == c[j].id@,
            views(existing@) == s.filter(key_in::<Account>(str_set(ids@))),
            crate::store::unique_keys::<Account>(views(existing@)),
            all_inv(existing@),
            !repeats_ids(c),
            first_from(0, n as int, bad_new_name_at(c)) == n,
            first_from(0, n as int, missing_at(s, c)) == n,
            first_from(0, n as int, rename_taken_at(s, c)) == n,
            first_from(0, n as int, sibling_clash_at(s, c)) == n,
            forall|j: int| 0 <= j < i ==> !#[trigger] blank_update_at(c)(j),
            updated@.len() == i,
            all_inv(updated@),
            forall|j: int| 0 <= j < i ==> (#[trigger] updated@[j])@ == updated_account(s, c[j], now),
            update_events(events@, views(updated@), now),
        decreases n - i,
    {
        let cmd = &cmds[i];
        proof {
            lemma_str_set_contains(ids@, c[i as int].id@);
            assert(ids@[i as int]@ == c[i as int].id@);
            crate::store::lemma_lookup_filter::<Account>(s, str_set(ids@), c[i as int].id@);
            lemma_first_from_before(0, n as int, missing_at(s, c));
            assert(!missing_at(s, c)(i as int));
        }
        let a = find_by_id(&existing, &cmd.id).unwrap();
        let name = if cmd.name.unicode_len() > 0 {
            cmd.name.clone()
        } else {
            a.name.clone()
        };
        let description = match &cmd.description {
            Some(d) => d.clone(),
            None => a.description.clone(),
        };
        let tags = match &cmd.tags {
            Some(t) => clone_strs(t),
            None => clone_strs(&a.tags),
        };
        let input = AccountInput {
            id: a.id.clone(),
            version: a.version,
            created_at: a.created_at,
            last_modified_at: Some(now),
            archived_at: a.archived_at,
            journal_id: a.journal_id.clone(),
            parent_id: crate::common::clone_opt_str(&a.parent_id),
            account_type: a.account_type,
            name,
            description,
            tags,
        };
        proof {
            if cmd.tags is None {
                assert(tag_set_of(a.tags@) =~= str_set(a.tags@));
            }
        }
        match Account::try_from_input(input) {
            Err(e) => {
                proof {
                    lemma_first_from(0, n as int, blank_update_at(c), i as int);
                }
                return Err(e);
            },
            Ok(account) => {
                let ghost before = updated@;
                let ghost ev_before = events@;
                events.push(
                    AccountEvent::Updated(
                        AccountUpdated {
                            id: account.id.clone(),
                            name: Some(account.name.clone()),
                            description: Some(account.description.clone()),
                            tags: Some(clone_strs(&account.tags)),
                            last_modified_at: now,
                        },
                    ),
                );
                updated.push(account);
                proof {
                    crate::store::lemma_views_push(before, updated@.last());
                    assert forall|j: int| 0 <= j < updated@.len() implies (#[trigger] updated@[j]).inv() by {
                        if j < before.len() {
                            assert(updated@[j] == before[j]);
                        }
                    }
                    let uv = views(updated@);
                    assert forall|j: int| 0 <= j < events@.len() implies (#[trigger] events@[j] matches AccountEvent::Updated(e) && {
                        let a = uv[j];
                        &&& e.id@ == a.id
                        &&& e.name.is_some() && e.name->0@ == a.name
                        &&& e.description.is_some() && e.description->0@ == a.description
                        &&& e.tags.is_some() && str_set(e.tags->0@) == a.tags
                        &&& e.last_modified_at == now
                    }) by {
                        if j < ev_before.len() {
                            assert(events@[j] == ev_before[j]);
                            assert(uv[j] == views(before)[j]);
                        }
                    }
                }
            },
        }
        i = i + 1;
    }
    proof {
        lemma_first_from(0, n as int, blank_update_at(c), n as int);
        assert(views(updated@) =~= updated_accounts(s, c, now));
    }
    Ok((events, updated))
}

/// Updates existing accounts at `now`.
fn do_update<R: AccountRepository>(
    repo: &R,
    sess: &mut InMemorySession,
    cmds: &Vec<AccountCommandUpdate>,
    now: i64,
) -> (r: Result<(Vec<AccountEvent>, Vec<Account>), Error>)
    requires
        old(sess).wf(),
    ensures
        final(sess).wf(),
        final(sess)@.journals == old(sess)@.journals,
        final(sess)@.records == old(sess)@.records,
        final(sess).saved() == old(sess).saved(),
        match update_error(old(sess)@.accounts, cmds@) {
            Some(e) => r is Err && r->Err_0@ == e && final(sess)@ == old(sess)@,
            None => r is Ok && {
                let updated = updated_accounts(old(sess)@.accounts, cmds@, now);
                &&& final(sess)@.accounts == upsert_all::<Account>(old(sess)@.accounts, updated)
                &&& views(r->Ok_0.1@) == updated
                &&& update_events(r->Ok_0.0@, updated, now)
            },
        },
{
    match plan_update(repo, sess, cmds, now) {
        Err(e) => Err(e),
        Ok((events, updated)) => {
            repo.save_all(sess, &updated);
            Ok((events, updated))
        },
    }
}

/// The store after deleting accounts and their descendants.
pub open spec fn after_delete(s: Seq<AccountView>, ids: Seq<String>) -> Seq<AccountView> {
    s.filter(key_not_in::<Account>(subtree_closure(s, str_set(ids))))
}

/// The accounts that one archive command archives.
pub open spec fn archived_by(s: Seq<AccountView>, cmd: AccountCommandArchive) -> Seq<AccountView> {
    archive_targets(s, subtree_closure(s, str_set(cmd.ids@)), cmd.archived_at)
}

/// The store after the archive commands, one after the other.
pub open spec fn after_archives(s: Seq<AccountView>, cmds: Seq<AccountCommandArchive>) -> Seq<AccountView>
    decreases cmds.len(),
{
    if cmds.len() == 0 {
        s
    } else {
        let t = after_archives(s, cmds.drop_last());
        upsert_all::<Account>(t, archived_by(t, cmds.last()))
    }
}

/// The identifiers the archive commands archive.
pub open spec fn archives_touched(s: Seq<AccountView>, cmds: Seq<AccountCommandArchive>) -> Set<Seq<char>>
    decreases cmds.len(),
{
    if cmds.len() == 0 {
        Set::empty()
    } else {
        let t = after_archives(s, cmds.drop_last());
        archives_touched(s, cmds.drop_last()) + keys::<Account>(archived_by(t, cmds.last())).to_set()
    }
}

/// The events of the archive commands, one command after the other.
pub open spec fn archives_events(ev: Seq<AccountEvent>, s: Seq<AccountView>, cmds: Seq<AccountCommandArchive>) -> bool
    decreases cmds.len(),
{
    if cmds.len() == 0 {
        ev.len() == 0
    } else {
        let t = after_archives(s, cmds.drop_last());
        let targets = archived_by(t, cmds.last());
        let k = ev.len() - targets.len();
        &&& k >= 0
        &&& archives_events(ev.subrange(0, k), s, cmds.drop_last())
        &&& archive_events(ev.subrange(k, ev.len() as int), targets, cmds.last().archived_at)
    }
}

/// The store after creating accounts, or why that fails.
pub open spec fn after_create(
    s: Seq<AccountView>,
    cmds: Seq<AccountCommandCreate>,
    ids: Seq<String>,
    now: i64,
) -> Result<Seq<AccountView>, ErrorView> {
    match create_error(s, cmds) {
        Some(e) => Err(e),
        None => Ok(upsert_all::<Account>(s, created_accounts(s, cmds, ids, now))),
    }
}

/// The store after updating accounts, or why that fails.
pub open spec fn after_update(s: Seq<AccountView>, cmds: Seq<AccountCommandUpdate>, now: i64) -> Result<
    Seq<AccountView>,
    ErrorView,
> {
    match update_error(s, cmds) {
        Some(e) => Err(e),
        None => Ok(upsert_all::<Account>(s, updated_accounts(s, cmds, now))),
    }
}

/// The store after a batch: delete, then archive, then create, then
/// update; or the first error.
pub open spec fn after_batch(s: Seq<AccountView>, b: AccountCommandBatch, ids: Seq<String>, now: i64) -> Result<
    Seq<AccountView>,
    ErrorView,
> {
    let s2 = after_archives(after_delete(s, b.delete@), b.archive@);
    match after_create(s2, b.create@, ids, now) {
        Err(e) => Err(e),
        Ok(s3) => after_update(s3, b.update@, now),
    }
}

/// The identifiers a successful batch archives, creates or updates.
pub open spec fn batch_touched(s: Seq<AccountView>, b: AccountCommandBatch, ids: Seq<String>, now: i64) -> Set<
    Seq<char>,
> {
    let s2 = after_archives(after_delete(s, b.delete@), b.archive@);
    archives_touched(after_delete(s, b.delete@), b.archive@) + keys::<Account>(
        created_accounts(s2, b.create@, ids, now),
    ).to_set() + update_ids(b.update@).to_set()
}

/// The events of a successful batch: deletions, then archivals, then
/// creations, then updates.
pub open spec fn batch_events(
    ev: Seq<AccountEvent>,
    s: Seq<AccountView>,
    b: AccountCommandBatch,
    ids: Seq<String>,
    now: i64,
) -> bool {
    let s1 = after_delete(s, b.delete@);
    let s2 = after_archives(s1, b.archive@);
    let s3 = upsert_all::<Account>(s2, created_accounts(s2, b.create@, ids, now));
    let k3 = ev.len() - b.update@.len();
    let k2 = k3 - b.create@.len();
    &&& k2 >= 0
    &&& exists|k1: int|
        0 <= k1 <= k2 && deletion_events(ev.subrange(0, k1), subtree_closure(s, str_set(b.delete@)))
            && archives_events(ev.subrange(k1, k2), s1, b.archive@)
    &&& creation_events(ev.subrange(k2, k3), created_accounts(s2, b.create@, ids, now))
    &&& update_events(ev.subrange(k3, ev.len() as int), updated_accounts(s3, b.update@, now), now)
}

/// Runs a batch: delete, then archive, then create, then update. Returns
/// the events and the identifiers archived, created or updated. On an error
/// the store may be half changed; the caller rolls back.
fn do_batch<R: AccountRepository>(
    repo: &R,
    sess: &mut InMemorySession,
    b: &AccountCommandBatch,
    new_ids: &Vec<String>,
    now: i64,
) -> (r: Result<(Vec<AccountEvent>, Vec<String>), Error>)
    requires
        old(sess).wf(),
        new_ids@.len() >= b.create@.len(),
    ensures
        final(sess).wf(),
        final(sess)@.journals == old(sess)@.journals,
        final(sess)@.records == old(sess)@.records,
        final(sess).saved() == old(sess).saved(),
        match after_batch(old(sess)@.accounts, *b, new_ids@, now) {
            Err(e) => r is Err && r->Err_0@ == e,
            Ok(s2) => r is Ok && final(sess)@.accounts == s2 && str_set(r->Ok_0.1@)
                == batch_touched(old(sess)@.accounts, *b, new_ids@, now) && batch_events(
                r->Ok_0.0@,
                old(sess)@.accounts,
                *b,
                new_ids@,
                now,
            ),
        },
{
    let ghost s = sess@.accounts;
    let mut events = do_delete(repo, sess, &b.delete);
    let ghost s1 = sess@.accounts;
    let ghost k1 = events@.len() as int;
    let ghost del_ev = events@;
    assert(s1 == after_delete(s, b.delete@));
    let mut touched: Vec<String> = Vec::new();
    let na = b.archive.len();
    let mut i: usize = 0;
    assert(b.archive@.subrange(0, 0) =~= Seq::<AccountCommandArchive>::empty());
    assert(events@.subrange(k1, events@.len() as int) =~= Seq::<AccountEvent>::empty());
    assert(str_set(touched@) =~= Set::<Seq<char>>::empty());
    while i < na
        invariant
            na == b.archive@.len(),
            i <= na,
            sess.wf(),
            sess@.journals == old(sess)@.journals,
            sess@.records == old(sess)@.records,
            sess.saved() == old(sess).saved(),
            s == old(sess)@.accounts,
            s1 == after_delete(s, b.delete@),
            sess@.accounts == after_archives(s1, b.archive@.subrange(0, i as int)),
            0 <= k1 <= events@.len(),
            events@.subrange(0, k1) == del_ev,
            deletion_events(del_ev, subtree_closure(s, str_set(b.delete@))),
            archives_events(events@.subrange(k1, events@.len() as int), s1, b.archive@.subrange(0, i as int)),
            str_set(touched@) == archives_touched(s1, b.archive@.subrange(0, i as int)),
        decreases na - i,
    {
        let ghost t = sess@.accounts;
        let ghost before = events@;
        let ghost tb = touched@;
        let (mut ev, arch) = do_archive(repo, sess, &b.archive[i]);
        let mut arch_ids = ids_of(&arch);
        let ghost ev0 = ev@;
        let ghost ai = arch_ids@;
        events.append(&mut ev);
        touched.append(&mut arch_ids);
        proof {
            let pre = b.archive@.subrange(0, i as int);
            let post = b.archive@.subrange(0, i + 1);
            assert(post.drop_last() =~= pre);
            assert(post.last() == b.archive@[i as int]);
            let targets = archived_by(t, b.archive@[i as int]);
            assert(events@.subrange(0, k1) =~= before.subrange(0, k1));
            let mid = events@.subrange(k1, events@.len() as int);
            assert(mid.subrange(0, mid.len() - targets.len()) =~= before.subrange(k1, before.len() as int));
            assert(mid.subrange(mid.len() - targets.len(), mid.len() as int) =~= ev0);
            crate::common::lemma_str_set_append(tb, ai);
        }
        i = i + 1;
    }
    assert(b.archive@.subrange(0, na as int) =~= b.archive@);
    let ghost s2 = sess@.accounts;
    let ghost k2 = events@.len() as int;
    let ghost before_create = events@;
    match do_create(repo, sess, &b.create, new_ids, now) {
        Err(e) => {
            return Err(e);
        },
        Ok((mut ev, created)) => {
            let mut created_ids = ids_of(&created);
            let ghost ev0 = ev@;
            let ghost tb = touched@;
            let ghost ci = created_ids@;
            events.append(&mut ev);
            touched.append(&mut created_ids);
            proof {
                crate::common::lemma_str_set_append(tb, ci);
                assert(events@.subrange(0, k2) =~= before_create);
                assert(events@.subrange(k2, events@.len() as int) =~= ev0);
            }
        },
    }
    let ghost s3 = sess@.accounts;
    let ghost k3 = events@.len() as int;
    let ghost before_update = events@;
    match do_update(repo, sess, &b.update, now) {
        Err(e) => {
            return Err(e);
        },
        Ok((mut ev, updated)) => {
            let mut updated_ids = ids_of(&updated);
            let ghost ev0 = ev@;
            let ghost tb = touched@;
            let ghost ui = updated_ids@;
            events.append(&mut ev);
            touched.append(&mut updated_ids);
            proof {
                crate::common::lemma_str_set_append(tb, ui);
                assert(events@.subrange(0, k3) =~= before_update);
                assert(events@.subrange(k3, events@.len() as int) =~= ev0);
                assert(keys::<Account>(views(updated@)).to_set() =~= update_ids(b.update@).to_set())
                    by {
                    assert(keys::<Account>(views(updated@)) =~= update_ids(b.update@)) by {
                        let uv = views(updated@);
                        assert forall|j: int| 0 <= j < uv.len() implies #[trigger] keys::<Account>(uv)[j]
                            == update_ids(b.update@)[j] by {
                            let u = b.update@[j];
                            lemma_first_from_before(0, b.update@.len() as int, missing_at(s3, b.update@));
                            assert(!missing_at(s3, b.update@)(j));
                            lemma_lookup_some::<Account>(s3, u.id@);
                        }
                    }
                }
                let ev_all = events@;
                assert(ev_all.subrange(0, k2).subrange(0, k1) =~= ev_all.subrange(0, k1));
                assert(ev_all.subrange(0, k1) =~= del_ev);
                assert(ev_all.subrange(k1, k2) =~= before_create.subrange(k1, k2));
                assert(ev_all.subrange(k2, k3) =~= before_update.subrange(k2, k3));
            }
        },
    }
    Ok((events, touched))
}

/// The accounts after a command, or why it fails.
pub open spec fn command_outcome(
    s: Seq<AccountView>,
    command: AccountCommand,
    ids: Seq<String>,
    now: i64,
) -> Result<Seq<AccountView>, ErrorView> {
    match command {
        AccountCommand::Create(c) => after_create(s, seq![c], ids, now),
        AccountCommand::Update(c) => after_update(s, seq![c], now),
        AccountCommand::Delete(d) => Ok(after_delete(s, d@)),
        AccountCommand::Archive(a) => Ok(after_archives(s, seq![a])),
        AccountCommand::Batch(b) => after_batch(s, b, ids, now),
    }
}

/// The identifiers a successful command creates, archives or updates.
pub open spec fn command_touched(
    s: Seq<AccountView>,
    command: AccountCommand,
    ids: Seq<String>,
    now: i64,
) -> Set<Seq<char>> {
    match command {
        AccountCommand::Create(c) => keys::<Account>(created_accounts(s, seq![c], ids, now)).to_set(),
        AccountCommand::Update(c) => update_ids(seq![c]).to_set(),
        AccountCommand::Delete(_) => Set::empty(),
        AccountCommand::Archive(a) => keys::<Account>(archived_by(s, a)).to_set(),
        AccountCommand::Batch(b) => batch_touched(s, b, ids, now),
    }
}

/// The events of a successful command.
pub open spec fn command_events(
    ev: Seq<AccountEvent>,
    s: Seq<AccountView>,
    command: AccountCommand,
    ids: Seq<String>,
    now: i64,
) -> bool {
    match command {
        AccountCommand::Create(c) => creation_events(ev, created_accounts(s, seq![c], ids, now)),
        AccountCommand::Update(c) => update_events(ev, updated_accounts(s, seq![c], now), now),
        AccountCommand::Delete(d) => deletion_events(ev, subtree_closure(s, str_set(d@))),
        AccountCommand::Archive(a) => archive_events(ev, archived_by(s, a), a.archived_at),
        AccountCommand::Batch(b) => batch_events(ev, s, b, ids, now),
    }
}

/// How many accounts a command creates.
pub open spec fn creations(command: AccountCommand) -> nat {
    match command {
        AccountCommand::Create(_) => 1,
        AccountCommand::Batch(b) => b.create@.len(),
        _ => 0,
    }
}

/// What handling `command` with the identifiers `ids` at `now` does to the
/// stores and returns: on an error nothing changes; otherwise the accounts
/// become the command's outcome, the result holds the stored accounts the
/// command created, archived or updated, and the events.
pub open spec fn handled(
    before: StoresView,
    after: StoresView,
    command: AccountCommand,
    ids: Seq<String>,
    now: i64,
    r: Result<HandleResult<Account, AccountEvent>, Error>,
) -> bool {
    match command_outcome(before.accounts, command, ids, now) {
        Err(e) => r is Err && r->Err_0@ == e && after == before,
        Ok(accounts) => r is Ok && {
            let res = r->Ok_0;
            &&& after.accounts == accounts
            &&& after.journals == before.journals
            &&& after.records == before.records
            &&& views(res.entities@) == accounts.filter(
                key_in::<Account>(command_touched(before.accounts, command, ids, now)),
            )
            &&& command_events(res.events@, before.accounts, command, ids, now)
        },
    }
}

/// The account service.
pub struct AccountService<R: AccountRepository> {
    pub repository: R,
}

impl<R: AccountRepository> AccountService<R> {
    /// A service over the given repository.
    pub fn new(repository: R) -> (r: Self)
        ensures
            r.repository == repository,
    {
        AccountService { repository }
    }

    /// Runs a command inside the open transaction; returns the events and
    /// the identifiers created, archived or updated.
    fn do_handle(
        &self,
        sess: &mut InMemorySession,
        command: AccountCommand,
        new_ids: &Vec<String>,
        now: i64,
    ) -> (r: Result<(Vec<AccountEvent>, Vec<String>), Error>)
        requires
            old(sess).wf(),
            new_ids@.len() >= creations(command),
        ensures
            final(sess).wf(),
            final(sess).saved() == old(sess).saved(),
            match command_outcome(old(sess)@.accounts, command, new_ids@, now) {
                Err(e) => r is Err && r->Err_0@ == e,
                Ok(accounts) => r is Ok && final(sess)@.accounts == accounts
                    && final(sess)@.journals == old(sess)@.journals && final(sess)@.records == old(
                    sess,
                )@.records && str_set(r->Ok_0.1@) == command_touched(
                    old(sess)@.accounts,
                    command,
                    new_ids@,
                    now,
                ) && command_events(r->Ok_0.0@, old(sess)@.accounts, command, new_ids@, now),
            },
    {
        let ghost s = sess@.accounts;
        let repo = &self.repository;
        match command {
            AccountCommand::Create(c) => {
                let mut cmds = Vec::new();
                cmds.push(c);
                assert(cmds@ =~= seq![c]);
                match do_create(repo, sess, &cmds, new_ids, now) {
                    Err(e) => Err(e),
                    Ok((events, created)) => {
                        let ids = ids_of(&created);
                        Ok((events, ids))
                    },
                }
            },
            AccountCommand::Update(c) => {
                let mut cmds = Vec::new();
                cmds.push(c);
                assert(cmds@ =~= seq![c]);
                match do_update(repo, sess, &cmds, now) {
                    Err(e) => Err(e),
                    Ok((events, updated)) => {
                        let ids = ids_of(&updated);
                        proof {
                            let u = cmds@[0];
                            lemma_first_from_before(0, 1, missing_at(s, cmds@));
                            assert(!missing_at(s, cmds@)(0));
                            lemma_lookup_some::<Account>(s, u.id@);
                            assert(keys::<Account>(views(updated@)) =~= update_ids(cmds@));
                        }
                        Ok((events, ids))
                    },
                }
            },
            AccountCommand::Delete(d) => {
                let events = do_delete(repo, sess, &d);
                let ids: Vec<String> = Vec::new();
                assert(str_set(ids@) =~= Set::<Seq<char>>::empty());
                Ok((events, ids))
            },
            AccountCommand::Archive(a) => {
                let (events, archived) = do_archive(repo, sess, &a);
                let ids = ids_of(&archived);
                proof {
                    let t = seq![a];
                    assert(t.drop_last() =~= Seq::<AccountCommandArchive>::empty());
                    assert(t.last() == a);
                    assert(after_archives(s, t.drop_last()) == s);
                    assert(after_archives(s, t) == upsert_all::<Account>(s, archived_by(s, a)));
                }
                Ok((events, ids))
            },
            AccountCommand::Batch(b) => do_batch(repo, sess, &b, new_ids, now),
        }
    }

    /// Handles a command at `now`, giving the `i`th created account the
    /// `i`th identifier of `new_ids`, in one transaction: on an error the
    /// store is rolled back.
    pub fn handle_at(
        &self,
        sess: &mut InMemorySession,
        command: AccountCommand,
        new_ids: &Vec<String>,
        now: i64,
    ) -> (r: Result<HandleResult<Account, AccountEvent>, Error>)
        requires
            old(sess).wf(),
            new_ids@.len() >= creations(command),
        ensures
            final(sess).wf(),
            final(sess).saved() is None,
            handled(old(sess)@, final(sess)@, command, new_ids@, now, r),
    {
        sess.begin();
        match self.do_handle(sess, command, new_ids, now) {
            Ok((events, touched)) => {
                sess.commit();
                let entities = self.repository.find_all_by_ids(sess, &touched);
                Ok(HandleResult { entities, events })
            },
            Err(e) => {
                sess.rollback();
                Err(e)
            },
        }
    }

    /// Handles a command now, with fresh identifiers for the accounts it
    /// creates (see `handle_at`).
    pub fn handle(&self, sess: &mut InMemorySession, command: AccountCommand) -> (r: Result<
        HandleResult<Account, AccountEvent>,
        Error,
    >)
        requires
            old(sess).wf(),
        ensures
            final(sess).wf(),
            final(sess).saved() is None,
            exists|ids: Seq<String>, now: i64|
                ids.len() >= creations(command) && handled(
                    old(sess)@,
                    final(sess)@,
                    command,
                    ids,
                    now,
                    r,
                ),
    {
        let now = now_micros();
        let count: usize = match &command {
            AccountCommand::Create(_) => 1,
            AccountCommand::Batch(b) => b.create.len(),
            _ => 0,
        };
        let mut ids: Vec<String> = Vec::new();
        let mut i: usize = 0;
        while i < count
            invariant
                i <= count,
                ids@.len() == i,
            decreases count - i,
        {
            ids.push(new_id());
            i = i + 1;
        }
        let r = self.handle_at(sess, command, &ids, now);
        assert(handled(old(sess)@, sess@, command, ids@, now, r));
        r
    }
}

} // verus!
