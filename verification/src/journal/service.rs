//! The journal service: validates journal commands against the store and
//! applies them in one transaction; a new journal gets its five root
//! accounts.
use vstd::prelude::*;
use crate::account::{
    account_type_name, lemma_type_name_not_blank, Account, AccountType, AccountView,
};
use crate::account::event::{AccountCreated, AccountEvent};
use crate::account::repository::AccountRepository;
use crate::common::{
    any_name_matches, clone_opt_str, clone_strs, contains_str, dedup_strs, first_from, lemma_first_from,
    lemma_first_from_before, lemma_str_set_append, lemma_str_set_contains, str_set, tag_set_of,
    HandleResult,
};
use crate::error::{
    opt_str_view, shared_err, shared_err_detail, strs_view, Error, ErrorView, SharedErrorKind,
    SharedErrorKindView,
};
use crate::inmemory::{InMemorySession, StoresView};
use crate::inmemory::account::ids_of;
use crate::journal::{journal_resource, Journal, JournalInput, JournalView};
use crate::journal::command::{
    JournalCommand, JournalCommandBatch, JournalCommandCreate, JournalCommandUpdate,
};
use crate::journal::event::{JournalCreated, JournalDeleted, JournalEvent, JournalUpdated};
use crate::journal::repository::JournalRepository;
use crate::journal::specification::JournalSpecification;
use crate::runtime::{new_id, now_micros};
use crate::store::{
    all_inv, find_by_id, key_in, key_not_in, keys, lemma_filter_unique, lemma_lookup_filter,
    lemma_lookup_some, lookup, satisfying, upsert_all, views, Entity,
};
use crate::text::{concat3, is_blank};

verus! {

broadcast use vstd::seq_lib::group_seq_properties;

/// The error for a journal name used twice.
pub open spec fn journal_name_taken_error(name: Seq<char>) -> ErrorView {
    shared_err(SharedErrorKindView::DuplicateValues { value: name }, journal_resource(), "name"@)
}

/// The error for a blank journal name.
pub open spec fn journal_blank_name_error() -> ErrorView {
    shared_err(SharedErrorKindView::NonEmpty, journal_resource(), "name"@)
}

/// The error for a journal updated twice in one batch.
pub open spec fn journal_repeated_id_error() -> ErrorView {
    shared_err(SharedErrorKindView::DuplicateValues { value: "id"@ }, journal_resource(), "id"@)
}

/// The error for a journal that does not exist.
pub open spec fn journal_not_found_error(id: Seq<char>) -> ErrorView {
    shared_err_detail(
        SharedErrorKindView::NotFound,
        journal_resource(),
        "id"@,
        "journal "@ + id + " not found"@,
    )
}

fn journal_name_taken_err(name: &String) -> (r: Error)
    ensures
        r@ == journal_name_taken_error(name@),
{
    SharedErrorKind::DuplicateValues { value: name.clone() }.into_error().with_resource_type(
        Journal::ENTITY_TYPE,
    ).with_field("name")
}

/// A journal whose name matches one of `names` (trimmed, ignoring case).
pub open spec fn name_taken_by(names: Seq<String>) -> spec_fn(JournalView) -> bool {
    |j: JournalView| any_name_matches(names, j.name)
}

/// The names the create commands ask for.
pub open spec fn create_names(cmds: Seq<JournalCommandCreate>) -> Seq<String> {
    cmds.map_values(|c: JournalCommandCreate| c.name)
}

/// The names the update commands give.
pub open spec fn update_names(cmds: Seq<JournalCommandUpdate>) -> Seq<String> {
    cmds.map_values(|c: JournalCommandUpdate| c.name)
}

/// The journals the update commands name.
pub open spec fn journal_update_ids(cmds: Seq<JournalCommandUpdate>) -> Seq<Seq<char>> {
    cmds.map_values(|c: JournalCommandUpdate| c.id@)
}

/// The condition "name matches one of `names`".
fn names_spec(names: Vec<String>) -> (r: crate::journal::specification::JournalSpec)
    ensures
        satisfying::<Journal, JournalSpecification>(r) == name_taken_by(names@),
{
    let r = JournalSpecification::names(names);
    proof {
        let f = satisfying::<Journal, JournalSpecification>(r);
        assert(f =~= name_taken_by(names@));
    }
    r
}

/// Command `i` repeats the name of an earlier command.
pub open spec fn repeated_create_name_at(cmds: Seq<JournalCommandCreate>) -> spec_fn(int) -> bool {
    |i: int| exists|j: int| 0 <= j < i && #[trigger] cmds[j].name@ == cmds[i].name@
}

/// Command `i` asks for a blank name.
pub open spec fn blank_journal_at(cmds: Seq<JournalCommandCreate>) -> spec_fn(int) -> bool {
    |i: int| is_blank(cmds[i].name@)
}

/// Why creating journals fails, if it does: the first command that repeats
/// an earlier name; else an existing journal that has one of the names
/// (ignoring case and surrounding space); else the first blank name.
pub open spec fn journal_create_error(s: Seq<JournalView>, cmds: Seq<JournalCommandCreate>) -> Option<
    ErrorView,
> {
    let n = cmds.len() as int;
    let a = first_from(0, n, repeated_create_name_at(cmds));
    let taken = s.filter(name_taken_by(create_names(cmds)));
    let b = first_from(0, n, blank_journal_at(cmds));
    if n == 0 {
        None
    } else if a < n {
        Some(journal_name_taken_error(cmds[a].name@))
    } else if taken.len() > 0 {
        Some(journal_name_taken_error(taken[0].name))
    } else if b < n {
        Some(journal_blank_name_error())
    } else {
        None
    }
}

/// The journal command `cmd` creates with identifier `id` at `now`.
pub open spec fn created_journal(cmd: JournalCommandCreate, id: Seq<char>, now: i64) -> JournalView {
    JournalView {
        id,
        version: 0,
        created_at: Some(now),
        last_modified_at: None,
        archived_at: None,
        name: cmd.name@,
        description: cmd.description@,
        tags: tag_set_of(cmd.tags@),
    }
}

/// The journals the commands create: the `i`th takes identifier `6 * i`.
pub open spec fn created_journals(cmds: Seq<JournalCommandCreate>, ids: Seq<String>, now: i64) -> Seq<
    JournalView,
> {
    Seq::new(cmds.len(), |i: int| created_journal(cmds[i], ids[6 * i]@, now))
}

/// The type of the `k`th root account.
pub open spec fn root_type(k: int) -> AccountType {
    if k == 0 {
        AccountType::Asset
    } else if k == 1 {
        AccountType::Liability
    } else if k == 2 {
        AccountType::Equity
    } else if k == 3 {
        AccountType::Income
    } else {
        AccountType::Expense
    }
}

/// The root account of type `t` of journal `jid`, created at `now`.
pub open spec fn root_account(jid: Seq<char>, id: Seq<char>, t: AccountType, now: i64) -> AccountView {
    AccountView {
        id,
        version: 0,
        created_at: Some(now),
        last_modified_at: None,
        archived_at: None,
        journal_id: jid,
        parent_id: None,
        account_type: t,
        name: account_type_name(t),
        description: Seq::empty(),
        tags: Set::empty(),
    }
}

/// The five root accounts of journal `jid`, with identifiers
/// `ids[base..base + 5]`.
pub open spec fn roots_of(jid: Seq<char>, ids: Seq<String>, base: int, now: i64) -> Seq<AccountView> {
    Seq::new(5, |k: int| root_account(jid, ids[base + k]@, root_type(k), now))
}

/// The root accounts of the first `n` created journals: journal `i` takes
/// identifier `6 * i` and its roots the five after it.
pub open spec fn created_roots(n: int, ids: Seq<String>, now: i64) -> Seq<AccountView>
    decreases n,
{
    if n <= 0 {
        Seq::empty()
    } else {
        created_roots(n - 1, ids, now) + roots_of(ids[6 * (n - 1)]@, ids, 6 * (n - 1) + 1, now)
    }
}

/// Every root account of a batch of created journals has its creation
/// time.
pub proof fn lemma_created_roots_times(n: int, ids: Seq<String>, now: i64)
    ensures
        forall|i: int|
            0 <= i < created_roots(n, ids, now).len() ==> (#[trigger] created_roots(n, ids, now)[i]).created_at
                == Some(now),
    decreases n,
{
    if n > 0 {
        lemma_created_roots_times(n - 1, ids, now);
        let a = created_roots(n - 1, ids, now);
        let b = roots_of(ids[6 * (n - 1)]@, ids, 6 * (n - 1) + 1, now);
        assert forall|i: int| 0 <= i < (a + b).len() implies (#[trigger] (a + b)[i]).created_at
            == Some(now) by {
            if i >= a.len() {
                assert((a + b)[i] == b[i - a.len()]);
            }
        }
    }
}

/// The events say that each root account of `roots` was created, in order.
pub open spec fn root_creation_events(ev: Seq<AccountEvent>, roots: Seq<AccountView>) -> bool {
    &&& ev.len() == roots.len()
    &&& forall|i: int|
        0 <= i < ev.len() ==> (#[trigger] ev[i] matches AccountEvent::Created(e) && {
            let a = roots[i];
            &&& e.id@ == a.id
            &&& e.journal_id@ == a.journal_id
            &&& opt_str_view(e.parent_id) == a.parent_id
            &&& e.account_type == a.account_type
            &&& e.name@ == a.name
            &&& e.description@ == a.description
            &&& str_set(e.tags@) == a.tags
            &&& e.created_at == a.created_at->0
        })
}

/// The creation events of newly created accounts, one per account, in
/// order.
fn root_events(roots: &Vec<Account>) -> (r: Vec<AccountEvent>)
    requires
        forall|i: int| 0 <= i < roots@.len() ==> (#[trigger] roots@[i])@.created_at is Some,
    ensures
        root_creation_events(r@, views(roots@)),
{
    let mut ev: Vec<AccountEvent> = Vec::new();
    let n = roots.len();
    let mut i: usize = 0;
    while i < n
        invariant
            n == roots@.len(),
            i <= n,
            forall|i: int| 0 <= i < roots@.len() ==> (#[trigger] roots@[i])@.created_at is Some,
            ev@.len() == i,
            forall|k: int|
                0 <= k < i ==> (#[trigger] ev@[k] matches AccountEvent::Created(e) && {
                    let a = roots@[k]@;
                    &&& e.id@ == a.id
                    &&& e.journal_id@ == a.journal_id
                    &&& opt_str_view(e.parent_id) == a.parent_id
                    &&& e.account_type == a.account_type
                    &&& e.name@ == a.name
                    &&& e.description@ == a.description
                    &&& str_set(e.tags@) == a.tags
                    &&& e.created_at == a.created_at->0
                }),
        decreases n - i,
    {
        let a = &roots[i];
        assert(roots@[i as int]@.created_at is Some);
        let created_at = match a.created_at {
            Some(t) => t,
            None => 0,
        };
        ev.push(
            AccountEvent::Created(
                AccountCreated {
                    id: a.id.clone(),
                    journal_id: a.journal_id.clone(),
                    parent_id: clone_opt_str(&a.parent_id),
                    account_type: a.account_type,
                    name: a.name.clone(),
                    description: a.description.clone(),
                    tags: clone_strs(&a.tags),
                    created_at,
                },
            ),
        );
        i = i + 1;
    }
    proof {
        assert forall|i: int| 0 <= i < ev@.len() implies (#[trigger] ev@[i] matches AccountEvent::Created(e) && {
            let a = views(roots@)[i];
            &&& e.id@ == a.id
            &&& e.journal_id@ == a.journal_id
            &&& opt_str_view(e.parent_id) == a.parent_id
            &&& e.account_type == a.account_type
            &&& e.name@ == a.name
            &&& e.description@ == a.description
            &&& str_set(e.tags@) == a.tags
            &&& e.created_at == a.created_at->0
        }) by {
            assert(views(roots@)[i] == roots@[i]@);
        }
    }
    ev
}

/// The events say that each of `created` was created, in order.
pub open spec fn journal_creation_events(ev: Seq<JournalEvent>, created: Seq<JournalView>) -> bool {
    &&& ev.len() == created.len()
    &&& forall|i: int|
        0 <= i < ev.len() ==> (#[trigger] ev[i] matches JournalEvent::Created(e) && {
            let j = created[i];
            &&& e.id@ == j.id
            &&& e.name@ == j.name
            &&& e.description@ == j.description
            &&& str_set(e.tags@) == j.tags
            &&& e.created_at == j.created_at->0
        })
}

/// The type of the `k`th root account.
fn root_type_at(k: usize) -> (r: AccountType)
    ensures
        r == root_type(k as int),
{
    if k == 0 {
        AccountType::Asset
    } else if k == 1 {
        AccountType::Liability
    } else if k == 2 {
        AccountType::Equity
    } else if k == 3 {
        AccountType::Income
    } else {
        AccountType::Expense
    }
}

/// The five root accounts of a journal.
fn build_roots(jid: &String, ids: &Vec<String>, base: usize, now: i64) -> (r: Vec<Account>)
    requires
        base + 5 <= ids@.len(),
    ensures
        views(r@) == roots_of(jid@, ids@, base as int, now),
        all_inv(r@),
{
    let mut r: Vec<Account> = Vec::new();
    let mut k: usize = 0;
    let total = ids.len();
    while k < 5
        invariant
            base + 5 <= ids@.len(),
            total == ids@.len(),
            k <= 5,
            r@.len() == k,
            all_inv(r@),
            forall|j: int| 0 <= j < k ==> (#[trigger] r@[j])@ == root_account(jid@, ids@[base + j]@, root_type(j), now),
        decreases 5 - k,
    {
        let t = root_type_at(k);
        let name = t.to_display_string();
        proof {
            lemma_type_name_not_blank(t);
        }
        let a = Account {
            id: ids[base + k].clone(),
            version: 0,
            created_at: Some(now),
            last_modified_at: None,
            archived_at: None,
            journal_id: jid.clone(),
            parent_id: None,
            account_type: t,
            name,
            description: String::new(),
            tags: Vec::new(),
        };
        proof {
            assert(str_set(a.tags@) =~= Set::<Seq<char>>::empty());
            assert(strs_view(a.tags@).no_duplicates());
        }
        let ghost before = r@;
        r.push(a);
        proof {
            assert forall|j: int| 0 <= j < r@.len() implies (#[trigger] r@[j]).inv() by {
                if j < before.len() {
                    assert(r@[j] == before[j]);
                }
            }
        }
        k = k + 1;
    }
    assert(views(r@) =~= roots_of(jid@, ids@, base as int, now));
    r
}

/// Checks journal creations and builds the journals, their root accounts
/// and the events.
fn plan_create<JR: JournalRepository>(
    repo: &JR,
    sess: &InMemorySession,
    cmds: &Vec<JournalCommandCreate>,
    new_ids: &Vec<String>,
    now: i64,
) -> (r: Result<(Vec<JournalEvent>, Vec<Journal>, Vec<Account>), Error>)
    requires
        sess.wf(),
        new_ids@.len() >= 6 * cmds@.len(),
    ensures
        match journal_create_error(sess@.journals, cmds@) {
            Some(e) => r is Err && r->Err_0@ == e,
            None => r is Ok && {
                let journals = created_journals(cmds@, new_ids@, now);
                &&& views(r->Ok_0.1@) == journals
                &&& all_inv(r->Ok_0.1@)
                &&& views(r->Ok_0.2@) == created_roots(cmds@.len() as int, new_ids@, now)
                &&& all_inv(r->Ok_0.2@)
                &&& journal_creation_events(r->Ok_0.0@, journals)
            },
        },
{
    let ghost s = sess@.journals;
    let ghost c = cmds@;
    let n = cmds.len();
    if n == 0 {
        let j: Vec<Journal> = Vec::new();
        let a: Vec<Account> = Vec::new();
        assert(views(j@) =~= created_journals(c, new_ids@, now));
        assert(views(a@) =~= created_roots(0, new_ids@, now));
        return Ok((Vec::new(), j, a));
    }
    // Names repeated within the batch.
    let mut i: usize = 0;
    while i < n
        invariant
            n == c.len(),
            c == cmds@,
            i <= n,
            forall|j: int| 0 <= j < i ==> !#[trigger] repeated_create_name_at(c)(j),
        decreases n - i,
    {
        let mut j: usize = 0;
        while j < i
            invariant
                n == c.len(),
                c == cmds@,
                i < n,
                j <= i,
                forall|k: int| 0 <= k < j ==> c[k].name@ != c[i as int].name@,
                forall|j: int| 0 <= j < i ==> !#[trigger] repeated_create_name_at(c)(j),
            decreases i - j,
        {
            if cmds[j].name == cmds[i].name {
                proof {
                    assert(c[j as int].name@ == c[i as int].name@);
                    assert(repeated_create_name_at(c)(i as int));
                    lemma_first_from(0, n as int, repeated_create_name_at(c), i as int);
                }
                return Err(journal_name_taken_err(&cmds[i].name));
            }
            j = j + 1;
        }
        assert(!repeated_create_name_at(c)(i as int));
        i = i + 1;
    }
    proof {
        lemma_first_from(0, n as int, repeated_create_name_at(c), n as int);
    }
    // Names taken by existing journals.
    let mut names: Vec<String> = Vec::new();
    let mut i: usize = 0;
    while i < n
        invariant
            n == c.len(),
            c == cmds@,
            i <= n,
            names@ == create_names(c).subrange(0, i as int),
        decreases n - i,
    {
        names.push(cmds[i].name.clone());
        i = i + 1;
        assert(names@ =~= create_names(c).subrange(0, i as int));
    }
    assert(names@ =~= create_names(c));
    let spec = names_spec(names);
    let found = repo.find_all(sess, &spec, Some(1));
    if found.len() > 0 {
        assert(views(found@)[0] == found@[0]@);
        return Err(journal_name_taken_err(&found[0].name));
    }
    proof {
        let f = s.filter(name_taken_by(create_names(c)));
        assert(views(found@).len() == 0);
        if f.len() > 1 {
            assert(f.take(1).len() == 1);
        }
    }
    // Build the journals and their roots.
    let mut journals: Vec<Journal> = Vec::new();
    let mut roots: Vec<Account> = Vec::new();
    let mut events: Vec<JournalEvent> = Vec::new();
    let mut i: usize = 0;
    assert(views(roots@) =~= created_roots(0, new_ids@, now));
    let total = new_ids.len();
    while i < n
        invariant
            total == new_ids@.len(),
            n == c.len(),
            c == cmds@,
            s == sess@.journals,
            new_ids@.len() >= 6 * n,
            i <= n,
            first_from(0, n as int, repeated_create_name_at(c)) == n,
            s.filter(name_taken_by(create_names(c))).len() == 0,
            forall|j: int| 0 <= j < i ==> !#[trigger] blank_journal_at(c)(j),
            journals@.len() == i,
            all_inv(journals@),
            forall|j: int| 0 <= j < i ==> (#[trigger] journals@[j])@ == created_journal(c[j], new_ids@[6 * j]@, now),
            views(roots@) == created_roots(i as int, new_ids@, now),
            all_inv(roots@),
            journal_creation_events(events@, views(journals@)),
        decreases n - i,
    {
        let cmd = &cmds[i];
        let input = JournalInput {
            id: new_ids[6 * i].clone(),
            version: 0,
            created_at: Some(now),
            last_modified_at: None,
            archived_at: None,
            name: cmd.name.clone(),
            description: cmd.description.clone(),
            tags: clone_strs(&cmd.tags),
        };
        match Journal::try_from_input(input) {
            Err(e) => {
                proof {
                    lemma_first_from(0, n as int, blank_journal_at(c), i as int);
                }
                return Err(e);
            },
            Ok(journal) => {
                let mut five = build_roots(&journal.id, new_ids, 6 * i + 1, now);
                let ghost rb = roots@;
                let ghost fv = five@;
                roots.append(&mut five);
                proof {
                    assert(views(roots@) =~= views(rb) + views(fv));
                    assert(created_roots(i + 1, new_ids@, now) == created_roots(i as int, new_ids@, now)
                        + roots_of(new_ids@[6 * i]@, new_ids@, 6 * i + 1, now));
                    assert forall|j: int| 0 <= j < roots@.len() implies (#[trigger] roots@[j]).inv() by {
                        if j < rb.len() {
                            assert(roots@[j] == rb[j]);
                        } else {
                            assert(roots@[j] == fv[j - rb.len()]);
                        }
                    }
                }
                let ghost before = journals@;
                let ghost ev_before = events@;
                events.push(
                    JournalEvent::Created(
                        JournalCreated {
                            id: journal.id.clone(),
                            name: journal.name.clone(),
                            description: journal.description.clone(),
                            tags: clone_strs(&journal.tags),
                            created_at: now,
                        },
                    ),
                );
                journals.push(journal);
                proof {
                    crate::store::lemma_views_push(before, journals@.last());
                    assert forall|j: int| 0 <= j < journals@.len() implies (#[trigger] journals@[j]).inv() by {
                        if j < before.len() {
                            assert(journals@[j] == before[j]);
                        }
                    }
                    let jv = views(journals@);
                    assert forall|j: int| 0 <= j < events@.len() implies (#[trigger] events@[j] matches JournalEvent::Created(e) && {
                        let x = jv[j];
                        &&& e.id@ == x.id
                        &&& e.name@ == x.name
                        &&& e.description@ == x.description
                        &&& str_set(e.tags@) == x.tags
                        &&& e.created_at == x.created_at->0
                    }) by {
                        if j < ev_before.len() {
                            assert(events@[j] == ev_before[j]);
                            assert(jv[j] == views(before)[j]);
                        }
                    }
                }
            },
        }
        i = i + 1;
    }
    proof {
        lemma_first_from(0, n as int, blank_journal_at(c), n as int);
        assert(views(journals@) =~= created_journals(c, new_ids@, now));
    }
    Ok((events, journals, roots))
}

/// Two commands update the same journal.
pub open spec fn repeats_journal_ids(cmds: Seq<JournalCommandUpdate>) -> bool {
    exists|i: int, j: int| 0 <= i < j < cmds.len() && #[trigger] cmds[i].id@ == #[trigger] cmds[j].id@
}

/// Command `i` names a journal that does not exist.
pub open spec fn journal_missing_at(s: Seq<JournalView>, cmds: Seq<JournalCommandUpdate>) -> spec_fn(int) -> bool {
    |i: int| lookup::<Journal>(s, cmds[i].id@) is None
}

/// The name that command `cmd` leaves its journal with: the new name, or
/// the journal's own name where the new name is empty.
pub open spec fn resulting_name(s: Seq<JournalView>, cmd: JournalCommandUpdate) -> Seq<char> {
    if cmd.name@.len() > 0 {
        cmd.name@
    } else {
        lookup::<Journal>(s, cmd.id@)->0.name
    }
}

/// Command `i` leaves its journal with the same name as an earlier command
/// leaves its own.
pub open spec fn repeated_update_name_at(s: Seq<JournalView>, cmds: Seq<JournalCommandUpdate>) -> spec_fn(
    int,
) -> bool {
    |i: int|
        exists|j: int|
            0 <= j < i && #[trigger] resulting_name(s, cmds[j]) == resulting_name(s, cmds[i])
}

/// Existing journals outside the batch whose name matches a new name.
pub open spec fn journal_rename_conflicts(s: Seq<JournalView>, cmds: Seq<JournalCommandUpdate>) -> Seq<JournalView> {
    s.filter(name_taken_by(update_names(cmds))).filter(
        key_not_in::<Journal>(journal_update_ids(cmds).to_set()),
    )
}

/// Command `i` gives a blank new name.
pub open spec fn blank_journal_update_at(cmds: Seq<JournalCommandUpdate>) -> spec_fn(int) -> bool {
    |i: int| cmds[i].name@.len() > 0 && is_blank(cmds[i].name@)
}

/// Why updating journals fails, if it does: a journal named twice; else the
/// first missing journal; else the first command that leaves its journal
/// with a name an earlier command leaves its own with; else a journal
/// outside the batch with one of the new names; else the first blank name.
pub open spec fn journal_update_error(s: Seq<JournalView>, cmds: Seq<JournalCommandUpdate>) -> Option<
    ErrorView,
> {
    let n = cmds.len() as int;
    let a = first_from(0, n, journal_missing_at(s, cmds));
    let b = first_from(0, n, repeated_update_name_at(s, cmds));
    let conflicts = journal_rename_conflicts(s, cmds);
    let d = first_from(0, n, blank_journal_update_at(cmds));
    if n == 0 {
        None
    } else if repeats_journal_ids(cmds) {
        Some(journal_repeated_id_error())
    } else if a < n {
        Some(journal_not_found_error(cmds[a].id@))
    } else if b < n {
        Some(journal_name_taken_error(resulting_name(s, cmds[b])))
    } else if conflicts.len() > 0 {
        Some(journal_name_taken_error(conflicts[0].name))
    } else if d < n {
        Some(journal_blank_name_error())
    } else {
        None
    }
}

/// The journal after command `cmd` at `now`.
pub open spec fn updated_journal(s: Seq<JournalView>, cmd: JournalCommandUpdate, now: i64) -> JournalView {
    let j = lookup::<Journal>(s, cmd.id@)->0;
    JournalView {
        name: if cmd.name@.len() > 0 {
            cmd.name@
        } else {
            j.name
        },
        description: match cmd.description {
            Some(d) => d@,
            None => j.description,
        },
        tags: match cmd.tags {
            Some(t) => tag_set_of(t@),
            None => j.tags,
        },
        last_modified_at: Some(now),
        ..j
    }
}

/// The journals after the commands, in command order.
pub open spec fn updated_journals(s: Seq<JournalView>, cmds: Seq<JournalCommandUpdate>, now: i64) -> Seq<
    JournalView,
> {
    Seq::new(cmds.len(), |i: int| updated_journal(s, cmds[i], now))
}

/// The events say that each of `updated` now has its name, description and
/// tags, in order.
pub open spec fn journal_update_events(ev: Seq<JournalEvent>, updated: Seq<JournalView>, now: i64) -> bool {
    &&& ev.len() == updated.len()
    &&& forall|i: int|
        0 <= i < ev.len() ==> (#[trigger] ev[i] matches JournalEvent::Updated(e) && {
            let j = updated[i];
            &&& e.id@ == j.id
            &&& e.name.is_some() && e.name->0@ == j.name
            &&& e.description.is_some() && e.description->0@ == j.description
            &&& e.tags.is_some() && str_set(e.tags->0@) == j.tags
            &&& e.last_modified_at == now
        })
}

/// Checks journal updates and builds the updated journals and the events.
fn plan_update<JR: JournalRepository>(
    repo: &JR,
    sess: &InMemorySession,
    cmds: &Vec<JournalCommandUpdate>,
    now: i64,
) -> (r: Result<(Vec<JournalEvent>, Vec<Journal>), Error>)
    requires
        sess.wf(),
    ensures
        match journal_update_error(sess@.journals, cmds@) {
            Some(e) => r is Err && r->Err_0@ == e,
            None => r is Ok && {
                let updated = updated_journals(sess@.journals, cmds@, now);
                &&& views(r->Ok_0.1@) == updated
                &&& all_inv(r->Ok_0.1@)
                &&& journal_update_events(r->Ok_0.0@, updated, now)
            },
        },
{
    let ghost s = sess@.journals;
    let ghost c = cmds@;
    let n = cmds.len();
    if n == 0 {
        let u: Vec<Journal> = Vec::new();
        assert(views(u@) =~= updated_journals(s, c, now));
        return Ok((Vec::new(), u));
    }
    // The same journal twice.
    let mut i: usize = 0;
    while i < n
        invariant
            n == c.len(),
            c == cmds@,
            i <= n,
            forall|a: int, b: int| 0 <= a < b < i ==> c[a].id@ != c[b].id@,
        decreases n - i,
    {
        let mut j: usize = 0;
        while j < i
            invariant
                n == c.len(),
                c == cmds@,
                i < n,
                j <= i,
                forall|a: int, b: int| 0 <= a < b < i ==> c[a].id@ != c[b].id@,
                forall|a: int| 0 <= a < j ==> c[a].id@ != c[i as int].id@,
            decreases i - j,
        {
            if cmds[j].id == cmds[i].id {
                proof {
                    assert(c[j as int].id@ == c[i as int].id@);
                    assert(repeats_journal_ids(c));
                }
                return Err(
                    SharedErrorKind::DuplicateValues { value: "id".to_string() }.into_error().with_resource_type(
                        Journal::ENTITY_TYPE,
                    ).with_field("id"),
                );
            }
            j = j + 1;
        }
        i = i + 1;
    }
    assert(!repeats_journal_ids(c));
    // Every journal exists.
    let mut ids: Vec<String> = Vec::new();
    let mut i: usize = 0;
    while i < n
        invariant
            n == c.len(),
            c == cmds@,
            i <= n,
            ids@.len() == i,
            forall|j: int| 0 <= j < i ==> (#[trigger] ids@[j])@ == c[j].id@,
        decreases n - i,
    {
        ids.push(cmds[i].id.clone());
        i = i + 1;
    }
    assert(strs_view(ids@) =~= journal_update_ids(c));
    let existing = repo.find_all_by_ids(sess, &ids);
    proof {
        lemma_filter_unique::<Journal>(s, key_in::<Journal>(str_set(ids@)));
    }
    let mut i: usize = 0;
    while i < n
        invariant
            n == c.len(),
            c == cmds@,
            s == sess@.journals,
            sess.wf(),
            i <= n,
            ids@.len() == n,
            forall|j: int| 0 <= j < n ==> (#[trigger] ids@[j])@ == c[j].id@,
            views(existing@) == s.filter(key_in::<Journal>(str_set(ids@))),
            crate::store::unique_keys::<Journal>(views(existing@)),
            !repeats_journal_ids(c),
            forall|j: int| 0 <= j < i ==> !#[trigger] journal_missing_at(s, c)(j),
        decreases n - i,
    {
        proof {
            lemma_str_set_contains(ids@, c[i as int].id@);
            assert(ids@[i as int]@ == c[i as int].id@);
            lemma_lookup_filter::<Journal>(s, str_set(ids@), c[i as int].id@);
        }
        if find_by_id(&existing, &cmds[i].id).is_none() {
            proof {
                lemma_first_from(0, n as int, journal_missing_at(s, c), i as int);
            }
            return Err(
                SharedErrorKind::NotFound.into_error().with_resource_type(Journal::ENTITY_TYPE).with_field(
                    "id",
                ).with_detail(concat3("journal ", cmds[i].id.as_str(), " not found")),
            );
        }
        i = i + 1;
    }
    proof {
        lemma_first_from(0, n as int, journal_missing_at(s, c), n as int);
    }
    // Resulting names repeated within the batch.
    let mut result_names: Vec<String> = Vec::new();
    let mut i: usize = 0;
    while i < n
        invariant
            n == c.len(),
            c == cmds@,
            s == sess@.journals,
            sess.wf(),
            i <= n,
            ids@.len() == n,
            forall|j: int| 0 <= j < n ==> (#[trigger] ids@[j])@ == c[j].id@,
            views(existing@) == s.filter(key_in::<Journal>(str_set(ids@))),
            crate::store::unique_keys::<Journal>(views(existing@)),
            first_from(0, n as int, journal_missing_at(s, c)) == n,
            result_names@.len() == i,
            forall|j: int| 0 <= j < i ==> (#[trigger] result_names@[j])@ == resulting_name(s, c[j]),
        decreases n - i,
    {
        let cmd = &cmds[i];
        proof {
            lemma_str_set_contains(ids@, c[i as int].id@);
            assert(ids@[i as int]@ == c[i as int].id@);
            lemma_lookup_filter::<Journal>(s, str_set(ids@), c[i as int].id@);
            lemma_first_from_before(0, n as int, journal_missing_at(s, c));
            assert(!journal_missing_at(s, c)(i as int));
        }
        let j = find_by_id(&existing, &cmd.id).unwrap();
        if cmd.name.unicode_len() > 0 {
            result_names.push(cmd.name.clone());
        } else {
            result_names.push(j.name.clone());
        }
        i = i + 1;
    }
    let mut i: usize = 0;
    while i < n
        invariant
            n == c.len(),
            c == cmds@,
            i <= n,
            !repeats_journal_ids(c),
            s == sess@.journals,
            first_from(0, n as int, journal_missing_at(s, c)) == n,
            result_names@.len() == n,
            forall|j: int| 0 <= j < n ==> (#[trigger] result_names@[j])@ == resulting_name(s, c[j]),
            forall|j: int| 0 <= j < i ==> !#[trigger] repeated_update_name_at(s, c)(j),
        decreases n - i,
    {
        let mut j: usize = 0;
        while j < i
            invariant
                n == c.len(),
                c == cmds@,
                i < n,
                j <= i,
                !repeats_journal_ids(c),
                s == sess@.journals,
                first_from(0, n as int, journal_missing_at(s, c)) == n,
                result_names@.len() == n,
                forall|j: int| 0 <= j < n ==> (#[trigger] result_names@[j])@ == resulting_name(s, c[j]),
                forall|k: int| 0 <= k < j ==> resulting_name(s, c[k]) != resulting_name(s, c[i as int]),
                forall|j: int| 0 <= j < i ==> !#[trigger] repeated_update_name_at(s, c)(j),
            decreases i - j,
        {
            if result_names[j] == result_names[i] {
                proof {
                    assert(result_names@[j as int]@ == resulting_name(s, c[j as int]));
                    assert(result_names@[i as int]@ == resulting_name(s, c[i as int]));
                    assert(repeated_update_name_at(s, c)(i as int));
                    lemma_first_from(0, n as int, repeated_update_name_at(s, c), i as int);
                }
                return Err(journal_name_taken_err(&result_names[i]));
            }
            proof {
                assert(result_names@[j as int]@ == resulting_name(s, c[j as int]));
                assert(result_names@[i as int]@ == resulting_name(s, c[i as int]));
            }
            j = j + 1;
        }
        assert(!repeated_update_name_at(s, c)(i as int));
        i = i + 1;
    }
    proof {
        lemma_first_from(0, n as int, repeated_update_name_at(s, c), n as int);
    }
    // New names taken by journals outside the batch.
    let mut names: Vec<String> = Vec::new();
    let mut i: usize = 0;
    while i < n
        invariant
            n == c.len(),
            c == cmds@,
            i <= n,
            names@ == update_names(c).subrange(0, i as int),
        decreases n - i,
    {
        names.push(cmds[i].name.clone());
        i = i + 1;
        assert(names@ =~= update_names(c).subrange(0, i as int));
    }
    assert(names@ =~= update_names(c));
    let spec = names_spec(names);
    let found = repo.find_all(sess, &spec, None);
    let ghost q = key_not_in::<Journal>(journal_update_ids(c).to_set());
    let ghost f = s.filter(name_taken_by(update_names(c)));
    assert(views(found@) == f);
    let m = found.len();
    let mut k: usize = 0;
    while k < m
        invariant
            m == found@.len(),
            f == views(found@),
            k <= m,
            strs_view(ids@) == journal_update_ids(c),
            forall|j: int| 0 <= j < k ==> !q(#[trigger] f[j]),
            q == key_not_in::<Journal>(journal_update_ids(c).to_set()),
            n == c.len(),
            n > 0,
            c == cmds@,
            s == sess@.journals,
            !repeats_journal_ids(c),
            first_from(0, n as int, journal_missing_at(s, c)) == n,
            first_from(0, n as int, repeated_update_name_at(s, c)) == n,
            f == s.filter(name_taken_by(update_names(c))),
        decreases m - k,
    {
        if !contains_str(&ids, found[k].id()) {
            proof {
                assert(f[k as int] == found@[k as int]@);
                crate::store::lemma_filter_first(f, q, k as int);
            }
            return Err(journal_name_taken_err(&found[k].name));
        }
        assert(f[k as int] == found@[k as int]@);
        k = k + 1;
    }
    proof {
        crate::store::lemma_filter_none(f, q);
    }
    // Build the updated journals.
    let mut updated: Vec<Journal> = Vec::new();
    let mut events: Vec<JournalEvent> = Vec::new();
    let mut i: usize = 0;
    while i < n
        invariant
            n == c.len(),
            c == cmds@,
            s == sess@.journals,
            sess.wf(),
            i <= n,
            ids@.len() == n,
            forall|j: int| 0 <= j < n ==> (#[trigger] ids@[j])@ == c[j].id@,
            views(existing@) == s.filter(key_in::<Journal>(str_set(ids@))),
            crate::store::unique_keys::<Journal>(views(existing@)),
            all_inv(existing@),
            !repeats_journal_ids(c),
            first_from(0, n as int, journal_missing_at(s, c)) == n,
            first_from(0, n as int, repeated_update_name_at(s, c)) == n,
            journal_rename_conflicts(s, c).len() == 0,
            forall|j: int| 0 <= j < i ==> !#[trigger] blank_journal_update_at(c)(j),
            updated@.len() == i,
            all_inv(updated@),
            forall|j: int| 0 <= j < i ==> (#[trigger] updated@[j])@ == updated_journal(s, c[j], now),
            journal_update_events(events@, views(updated@), now),
        decreases n - i,
    {
        let cmd = &cmds[i];
        proof {
            lemma_str_set_contains(ids@, c[i as int].id@);
            assert(ids@[i as int]@ == c[i as int].id@);
            lemma_lookup_filter::<Journal>(s, str_set(ids@), c[i as int].id@);
            lemma_first_from_before(0, n as int, journal_missing_at(s, c));
            assert(!journal_missing_at(s, c)(i as int));
        }
        let j = find_by_id(&existing, &cmd.id).unwrap();
        let name = if cmd.name.unicode_len() > 0 {
            cmd.name.clone()
        } else {
            j.name.clone()
        };
        let description = match &cmd.description {
            Some(d) => d.clone(),
            None => j.description.clone(),
        };
        let tags = match &cmd.tags {
            Some(t) => clone_strs(t),
            None => clone_strs(&j.tags),
        };
        let input = JournalInput {
            id: j.id.clone(),
            version: j.version,
            created_at: j.created_at,
            last_modified_at: Some(now),
            archived_at: j.archived_at,
            name,
            description,
            tags,
        };
        proof {
            if cmd.tags is None {
                assert(tag_set_of(j.tags@) =~= str_set(j.tags@));
            }
        }
        match Journal::try_from_input(input) {
            Err(e) => {
                proof {
                    lemma_first_from(0, n as int, blank_journal_update_at(c), i as int);
                }
                return Err(e);
            },
            Ok(journal) => {
                let ghost before = updated@;
                let ghost ev_before = events@;
                events.push(
                    JournalEvent::Updated(
                        JournalUpdated {
                            id: journal.id.clone(),
                            name: Some(journal.name.clone()),
                            description: Some(journal.description.clone()),
                            tags: Some(clone_strs(&journal.tags)),
                            last_modified_at: now,
                        },
                    ),
                );
                updated.push(journal);
                proof {
                    crate::store::lemma_views_push(before, updated@.last());
                    assert forall|j: int| 0 <= j < updated@.len() implies (#[trigger] updated@[j]).inv() by {
                        if j < before.len() {
                            assert(updated@[j] == before[j]);
                        }
                    }
                    let uv = views(updated@);
                    assert forall|j: int| 0 <= j < events@.len() implies (#[trigger] events@[j] matches JournalEvent::Updated(e) && {
                        let x = uv[j];
                        &&& e.id@ == x.id
                        &&& e.name.is_some() && e.name->0@ == x.name
                        &&& e.description.is_some() && e.description->0@ == x.description
                        &&& e.tags.is_some() && str_set(e.tags->0@) == x.tags
                        &&& e.last_modified_at == now
                    }) by {
                        if j < ev_before.len() {
                            assert(events@[j] == ev_before[j]);
                            assert(uv[j] == views(before)[j]);
                        }
                    }
                }
            },
        }
        i = i + 1;
    }
    proof {
        lemma_first_from(0, n as int, blank_journal_update_at(c), n as int);
        assert(views(updated@) =~= updated_journals(s, c, now));
    }
    Ok((events, updated))
}

/// The identifiers of the journals that the events are about.
pub open spec fn journal_event_ids(ev: Seq<JournalEvent>) -> Seq<Seq<char>> {
    ev.map_values(|e: JournalEvent| e.spec_id())
}

/// The events are deletions, one for each identifier of `c`.
pub open spec fn journal_deletion_events(ev: Seq<JournalEvent>, c: Set<Seq<char>>) -> bool {
    &&& forall|i: int| 0 <= i < ev.len() ==> #[trigger] ev[i] is Deleted
    &&& journal_event_ids(ev).no_duplicates()
    &&& journal_event_ids(ev).to_set() == c
}

/// The stores after creating journals and their root accounts, or why that
/// fails.
pub open spec fn journal_after_create(
    sj: Seq<JournalView>,
    sa: Seq<AccountView>,
    cmds: Seq<JournalCommandCreate>,
    ids: Seq<String>,
    now: i64,
) -> Result<(Seq<JournalView>, Seq<AccountView>), ErrorView> {
    match journal_create_error(sj, cmds) {
        Some(e) => Err(e),
        None => Ok(
            (
                upsert_all::<Journal>(sj, created_journals(cmds, ids, now)),
                upsert_all::<Account>(sa, created_roots(cmds.len() as int, ids, now)),
            ),
        ),
    }
}

/// The journals after updating them, or why that fails.
pub open spec fn journal_after_update(sj: Seq<JournalView>, cmds: Seq<JournalCommandUpdate>, now: i64) -> Result<
    Seq<JournalView>,
    ErrorView,
> {
    match journal_update_error(sj, cmds) {
        Some(e) => Err(e),
        None => Ok(upsert_all::<Journal>(sj, updated_journals(sj, cmds, now))),
    }
}

/// The journals after deleting the ones with these identifiers.
pub open spec fn journal_after_delete(sj: Seq<JournalView>, ids: Seq<String>) -> Seq<JournalView> {
    sj.filter(key_not_in::<Journal>(str_set(ids)))
}

/// The stores after a batch: delete, then create, then update; or the
/// first error.
pub open spec fn journal_after_batch(
    sj: Seq<JournalView>,
    sa: Seq<AccountView>,
    b: JournalCommandBatch,
    ids: Seq<String>,
    now: i64,
) -> Result<(Seq<JournalView>, Seq<AccountView>), ErrorView> {
    match journal_after_create(journal_after_delete(sj, b.delete@), sa, b.create@, ids, now) {
        Err(e) => Err(e),
        Ok((s2, a2)) => match journal_after_update(s2, b.update@, now) {
            Err(e) => Err(e),
            Ok(s3) => Ok((s3, a2)),
        },
    }
}

/// The events of a successful batch: deletions, creations, updates.
pub open spec fn journal_batch_events(
    ev: Seq<JournalEvent>,
    sj: Seq<JournalView>,
    b: JournalCommandBatch,
    ids: Seq<String>,
    now: i64,
) -> bool {
    let s1 = journal_after_delete(sj, b.delete@);
    let s2 = upsert_all::<Journal>(s1, created_journals(b.create@, ids, now));
    let k2 = ev.len() - b.update@.len();
    let k1 = k2 - b.create@.len();
    &&& k1 >= 0
    &&& journal_deletion_events(ev.subrange(0, k1), str_set(b.delete@))
    &&& journal_creation_events(ev.subrange(k1, k2), created_journals(b.create@, ids, now))
    &&& journal_update_events(ev.subrange(k2, ev.len() as int), updated_journals(s2, b.update@, now), now)
}

/// The stores after a command, or why it fails.
pub open spec fn journal_command_outcome(
    sj: Seq<JournalView>,
    sa: Seq<AccountView>,
    command: JournalCommand,
    ids: Seq<String>,
    now: i64,
) -> Result<(Seq<JournalView>, Seq<AccountView>), ErrorView> {
    match command {
        JournalCommand::Create(c) => journal_after_create(sj, sa, seq![c], ids, now),
        JournalCommand::Update(c) => match journal_after_update(sj, seq![c], now) {
            Err(e) => Err(e),
            Ok(s2) => Ok((s2, sa)),
        },
        JournalCommand::Delete(d) => Ok((journal_after_delete(sj, d@), sa)),
        JournalCommand::Batch(b) => journal_after_batch(sj, sa, b, ids, now),
    }
}

/// The journals a successful command creates or updates.
pub open spec fn journal_command_touched(command: JournalCommand, ids: Seq<String>, now: i64) -> Set<
    Seq<char>,
> {
    match command {
        JournalCommand::Create(c) => keys::<Journal>(created_journals(seq![c], ids, now)).to_set(),
        JournalCommand::Update(c) => journal_update_ids(seq![c]).to_set(),
        JournalCommand::Delete(_) => Set::empty(),
        JournalCommand::Batch(b) => keys::<Journal>(created_journals(b.create@, ids, now)).to_set()
            + journal_update_ids(b.update@).to_set(),
    }
}

/// The events of a successful command.
pub open spec fn journal_command_events(
    ev: Seq<JournalEvent>,
    sj: Seq<JournalView>,
    command: JournalCommand,
    ids: Seq<String>,
    now: i64,
) -> bool {
    match command {
        JournalCommand::Create(c) => journal_creation_events(ev, created_journals(seq![c], ids, now)),
        JournalCommand::Update(c) => journal_update_events(ev, updated_journals(sj, seq![c], now), now),
        JournalCommand::Delete(d) => journal_deletion_events(ev, str_set(d@)),
        JournalCommand::Batch(b) => journal_batch_events(ev, sj, b, ids, now),
    }
}

/// How many identifiers a command needs: six per created journal (the
/// journal and its five roots).
pub open spec fn journal_ids_needed(command: JournalCommand) -> nat {
    match command {
        JournalCommand::Create(_) => 6,
        JournalCommand::Batch(b) => 6 * b.create@.len(),
        _ => 0,
    }
}

/// What handling `command` does to the stores and returns: on an error
/// nothing changes; otherwise journals and accounts become the command's
/// outcome (records stay), and the result holds the stored journals the
/// command created or updated, and the journal events.
pub open spec fn journal_handled(
    before: StoresView,
    after: StoresView,
    command: JournalCommand,
    ids: Seq<String>,
    now: i64,
    r: Result<HandleResult<Journal, JournalEvent>, Error>,
) -> bool {
    match journal_command_outcome(before.journals, before.accounts, command, ids, now) {
        Err(e) => r is Err && r->Err_0@ == e && after == before,
        Ok((journals, accounts)) => r is Ok && {
            let res = r->Ok_0;
            &&& after.journals == journals
            &&& after.accounts == accounts
            &&& after.records == before.records
            &&& views(res.entities@) == journals.filter(
                key_in::<Journal>(journal_command_touched(command, ids, now)),
            )
            &&& journal_command_events(res.events@, before.journals, command, ids, now)
        },
    }
}

/// The journal service.
pub struct JournalService<JR: JournalRepository, AR: AccountRepository> {
    pub journal_repo: JR,
    pub account_repo: AR,
}

impl<JR: JournalRepository, AR: AccountRepository> JournalService<JR, AR> {
    /// A service over the given repositories.
    pub fn new(journal_repo: JR, account_repo: AR) -> (r: Self)
        ensures
            r.journal_repo == journal_repo,
            r.account_repo == account_repo,
    {
        JournalService { journal_repo, account_repo }
    }

    /// Creates journals, each with its five root accounts.
    fn do_create(
        &self,
        sess: &mut InMemorySession,
        cmds: &Vec<JournalCommandCreate>,
        new_ids: &Vec<String>,
        now: i64,
    ) -> (r: Result<(Vec<JournalEvent>, Vec<String>, Vec<AccountEvent>), Error>)
        requires
            old(sess).wf(),
            new_ids@.len() >= 6 * cmds@.len(),
        ensures
            final(sess).wf(),
            final(sess).saved() == old(sess).saved(),
            final(sess)@.records == old(sess)@.records,
            match journal_after_create(old(sess)@.journals, old(sess)@.accounts, cmds@, new_ids@, now) {
                Err(e) => r is Err && r->Err_0@ == e && final(sess)@ == old(sess)@,
                Ok((sj, sa)) => r is Ok && final(sess)@.journals == sj && final(sess)@.accounts == sa
                    && str_set(r->Ok_0.1@) == keys::<Journal>(created_journals(cmds@, new_ids@, now)).to_set()
                    && journal_creation_events(r->Ok_0.0@, created_journals(cmds@, new_ids@, now))
                    && root_creation_events(r->Ok_0.2@, created_roots(cmds@.len() as int, new_ids@, now)),
            },
    {
        match plan_create(&self.journal_repo, sess, cmds, new_ids, now) {
            Err(e) => Err(e),
            Ok((events, journals, roots)) => {
                proof {
                    lemma_created_roots_times(cmds@.len() as int, new_ids@, now);
                    assert forall|i: int| 0 <= i < roots@.len() implies (#[trigger] roots@[i])@.created_at
                        is Some by {
                        assert(views(roots@)[i] == roots@[i]@);
                    }
                }
                let account_events = root_events(&roots);
                self.journal_repo.save_all(sess, &journals);
                self.account_repo.save_all(sess, &roots);
                let ids = ids_of(&journals);
                Ok((events, ids, account_events))
            },
        }
    }

    /// Updates journals.
    fn do_update(
        &self,
        sess: &mut InMemorySession,
        cmds: &Vec<JournalCommandUpdate>,
        now: i64,
    ) -> (r: Result<(Vec<JournalEvent>, Vec<String>), Error>)
        requires
            old(sess).wf(),
        ensures
            final(sess).wf(),
            final(sess).saved() == old(sess).saved(),
            final(sess)@.records == old(sess)@.records,
            final(sess)@.accounts == old(sess)@.accounts,
            match journal_after_update(old(sess)@.journals, cmds@, now) {
                Err(e) => r is Err && r->Err_0@ == e && final(sess)@ == old(sess)@,
                Ok(sj) => r is Ok && final(sess)@.journals == sj && str_set(r->Ok_0.1@)
                    == journal_update_ids(cmds@).to_set() && journal_update_events(
                    r->Ok_0.0@,
                    updated_journals(old(sess)@.journals, cmds@, now),
                    now,
                ),
            },
    {
        let ghost s = sess@.journals;
        match plan_update(&self.journal_repo, sess, cmds, now) {
            Err(e) => Err(e),
            Ok((events, updated)) => {
                self.journal_repo.save_all(sess, &updated);
                let ids = ids_of(&updated);
                proof {
                    assert(keys::<Journal>(views(updated@)) =~= journal_update_ids(cmds@)) by {
                        let uv = views(updated@);
                        assert forall|j: int| 0 <= j < uv.len() implies #[trigger] keys::<Journal>(uv)[j]
                            == journal_update_ids(cmds@)[j] by {
                            let u = cmds@[j];
                            lemma_first_from_before(0, cmds@.len() as int, journal_missing_at(s, cmds@));
                            assert(!journal_missing_at(s, cmds@)(j));
                            lemma_lookup_some::<Journal>(s, u.id@);
                        }
                    }
                }
                Ok((events, ids))
            },
        }
    }

    /// Deletes journals; identifiers of no journal are ignored, and each
    /// distinct identifier gets one event.
    fn do_delete(&self, sess: &mut InMemorySession, ids: &Vec<String>) -> (r: Vec<JournalEvent>)
        requires
            old(sess).wf(),
        ensures
            final(sess).wf(),
            final(sess).saved() == old(sess).saved(),
            final(sess)@.records == old(sess)@.records,
            final(sess)@.accounts == old(sess)@.accounts,
            final(sess)@.journals == journal_after_delete(old(sess)@.journals, ids@),
            journal_deletion_events(r@, str_set(ids@)),
    {
        let distinct = dedup_strs(ids);
        let mut events: Vec<JournalEvent> = Vec::new();
        let n = distinct.len();
        let mut i: usize = 0;
        while i < n
            invariant
                n == distinct@.len(),
                i <= n,
                events@.len() == i,
                forall|k: int| 0 <= k < i ==> #[trigger] events@[k] is Deleted,
                forall|k: int| 0 <= k < i ==> (#[trigger] events@[k]).spec_id() == distinct@[k]@,
            decreases n - i,
        {
            events.push(JournalEvent::Deleted(JournalDeleted { id: distinct[i].clone() }));
            i = i + 1;
        }
        assert(journal_event_ids(events@) =~= strs_view(distinct@));
        self.journal_repo.delete_all_by_ids(sess, &distinct);
        events
    }

    /// Runs a batch: delete, then create, then update. On an error the
    /// store may be half changed; the caller rolls back.
    fn do_batch(
        &self,
        sess: &mut InMemorySession,
        b: &JournalCommandBatch,
        new_ids: &Vec<String>,
        now: i64,
    ) -> (r: Result<(Vec<JournalEvent>, Vec<String>), Error>)
        requires
            old(sess).wf(),
            new_ids@.len() >= 6 * b.create@.len(),
        ensures
            final(sess).wf(),
            final(sess).saved() == old(sess).saved(),
            final(sess)@.records == old(sess)@.records,
            match journal_after_batch(old(sess)@.journals, old(sess)@.accounts, *b, new_ids@, now) {
                Err(e) => r is Err && r->Err_0@ == e,
                Ok((sj, sa)) => r is Ok && final(sess)@.journals == sj && final(sess)@.accounts == sa
                    && str_set(r->Ok_0.1@) == keys::<Journal>(created_journals(b.create@, new_ids@, now)).to_set()
                    + journal_update_ids(b.update@).to_set() && journal_batch_events(
                    r->Ok_0.0@,
                    old(sess)@.journals,
                    *b,
                    new_ids@,
                    now,
                ),
            },
    {
        let mut events = self.do_delete(sess, &b.delete);
        let ghost k1 = events@.len() as int;
        let ghost del_ev = events@;
        match self.do_create(sess, &b.create, new_ids, now) {
            Err(e) => {
                return Err(e);
            },
            Ok((mut ev, mut created_ids, _)) => {
                let ghost ev0 = ev@;
                let ghost before = events@;
                events.append(&mut ev);
                let ghost k2 = events@.len() as int;
                let ghost before_update = events@;
                match self.do_update(sess, &b.update, now) {
                    Err(e) => {
                        return Err(e);
                    },
                    Ok((mut ev2, mut updated_ids)) => {
                        let ghost ev1 = ev2@;
                        let ghost ci = created_ids@;
                        let ghost ui = updated_ids@;
                        events.append(&mut ev2);
                        created_ids.append(&mut updated_ids);
                        proof {
                            lemma_str_set_append(ci, ui);
                            let all = events@;
                            assert(all.subrange(0, k1) =~= del_ev);
                            assert(all.subrange(k1, k2) =~= ev0);
                            assert(all.subrange(k2, all.len() as int) =~= ev1);
                        }
                        Ok((events, created_ids))
                    },
                }
            },
        }
    }

    /// Runs a command inside the open transaction.
    fn do_handle(
        &self,
        sess: &mut InMemorySession,
        command: JournalCommand,
        new_ids: &Vec<String>,
        now: i64,
    ) -> (r: Result<(Vec<JournalEvent>, Vec<String>), Error>)
        requires
            old(sess).wf(),
            new_ids@.len() >= journal_ids_needed(command),
        ensures
            final(sess).wf(),
            final(sess).saved() == old(sess).saved(),
            match journal_command_outcome(old(sess)@.journals, old(sess)@.accounts, command, new_ids@, now) {
                Err(e) => r is Err && r->Err_0@ == e,
                Ok((sj, sa)) => r is Ok && final(sess)@.journals == sj && final(sess)@.accounts == sa
                    && final(sess)@.records == old(sess)@.records && str_set(r->Ok_0.1@)
                    == journal_command_touched(command, new_ids@, now) && journal_command_events(
                    r->Ok_0.0@,
                    old(sess)@.journals,
                    command,
                    new_ids@,
                    now,
                ),
            },
    {
        match command {
            JournalCommand::Create(c) => {
                let mut cmds = Vec::new();
                cmds.push(c);
                assert(cmds@ =~= seq![c]);
                match self.do_create(sess, &cmds, new_ids, now) {
                    Err(e) => Err(e),
                    Ok((ev, ids, _)) => Ok((ev, ids)),
                }
            },
            JournalCommand::Update(c) => {
                let mut cmds = Vec::new();
                cmds.push(c);
                assert(cmds@ =~= seq![c]);
                self.do_update(sess, &cmds, now)
            },
            JournalCommand::Delete(d) => {
                let events = self.do_delete(sess, &d);
                let ids: Vec<String> = Vec::new();
                assert(str_set(ids@) =~= Set::<Seq<char>>::empty());
                Ok((events, ids))
            },
            JournalCommand::Batch(b) => self.do_batch(sess, &b, new_ids, now),
        }
    }

    /// Handles a command at `now` in one transaction, taking identifiers
    /// from `new_ids` (six per created journal: the journal, then its five
    /// roots); on an error the store is rolled back.
    pub fn handle_at(
        &self,
        sess: &mut InMemorySession,
        command: JournalCommand,
        new_ids: &Vec<String>,
        now: i64,
    ) -> (r: Result<HandleResult<Journal, JournalEvent>, Error>)
        requires
            old(sess).wf(),
            new_ids@.len() >= journal_ids_needed(command),
        ensures
            final(sess).wf(),
            final(sess).saved() is None,
            journal_handled(old(sess)@, final(sess)@, command, new_ids@, now, r),
    {
        sess.begin();
        match self.do_handle(sess, command, new_ids, now) {
            Ok((events, touched)) => {
                sess.commit();
                let entities = self.journal_repo.find_all_by_ids(sess, &touched);
                Ok(HandleResult { entities, events })
            },
            Err(e) => {
                sess.rollback();
                Err(e)
            },
        }
    }

    /// Handles a command now, with fresh identifiers (see `handle_at`).
    pub fn handle(&self, sess: &mut InMemorySession, command: JournalCommand) -> (r: Result<
        HandleResult<Journal, JournalEvent>,
        Error,
    >)
        requires
            old(sess).wf(),
            journal_ids_needed(command) <= usize::MAX,
        ensures
            final(sess).wf(),
            final(sess).saved() is None,
            exists|ids: Seq<String>, now: i64|
                ids.len() >= journal_ids_needed(command) && journal_handled(
                    old(sess)@,
                    final(sess)@,
                    command,
                    ids,
                    now,
                    r,
                ),
    {
        let now = now_micros();
        let per_create: usize = 6;
        let count: usize = match &command {
            JournalCommand::Create(_) => per_create,
            JournalCommand::Batch(b) => per_create * b.create.len(),
            _ => 0,
        };
        let mut ids: Vec<String> = Vec::new();
        let mut i: usize = 0;
        while i < count
            invariant
                i <= count,
                ids@.len() == i,
            decreases count - i,
        {
            ids.push(new_id());
            i = i + 1;
        }
        let r = self.handle_at(sess, command, &ids, now);
        assert(journal_handled(old(sess)@, sess@, command, ids@, now, r));
        r
    }
}

} // verus!
