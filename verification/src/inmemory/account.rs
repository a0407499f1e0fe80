//! Accounts in the in-memory store.
use vstd::prelude::*;
use crate::account::{Account, AccountType, AccountView};
use crate::account::repository::AccountRepository;
use crate::account::specification::{account_leaf_matches, AccountSpec, AccountSpecification};
use crate::common::{contains_str, full_text_match, names_match, str_set, tags_intersect};
use crate::inmemory::InMemorySession;
use crate::specification::LeafSpecification;
use crate::store::{
    keys, remove_ids, satisfying, select_by_ids, select_matching, upsert_many, views, Entity,
};

verus! {

/// Whether `types` holds `t`.
fn contains_type(types: &Vec<AccountType>, t: AccountType) -> (r: bool)
    ensures
        r == types@.contains(t),
{
    let n = types.len();
    let mut i: usize = 0;
    while i < n
        invariant
            n == types@.len(),
            i <= n,
            forall|k: int| 0 <= k < i ==> types@[k] != t,
        decreases n - i,
    {
        if types[i] == t {
            assert(types@[i as int] == t);
            return true;
        }
        i = i + 1;
    }
    false
}

/// The identifiers of a sequence of entities, in order.
pub fn ids_of<E: Entity>(es: &Vec<E>) -> (r: Vec<String>)
    ensures
        str_set(r@) == keys::<E>(views(es@)).to_set(),
{
    let mut r: Vec<String> = Vec::new();
    let n = es.len();
    let mut i: usize = 0;
    while i < n
        invariant
            n == es@.len(),
            i <= n,
            r@.len() == i,
            forall|k: int| 0 <= k < i ==> (#[trigger] r@[k])@ == E::key(es@[k]@),
        decreases n - i,
    {
        r.push(es[i].id().clone());
        i = i + 1;
    }
    proof {
        let a = str_set(r@);
        let b = keys::<E>(views(es@)).to_set();
        assert forall|x: Seq<char>| a.contains(x) <==> b.contains(x) by {
            if a.contains(x) {
                let k = choose|k: int| 0 <= k < crate::error::strs_view(r@).len()
                    && crate::error::strs_view(r@)[k] == x;
                assert(keys::<E>(views(es@))[k] == x);
            }
            if b.contains(x) {
                let k = choose|k: int| 0 <= k < keys::<E>(views(es@)).len() && keys::<E>(
                    views(es@),
                )[k] == x;
                assert(crate::error::strs_view(r@)[k] == x);
            }
        }
        assert(a =~= b);
    }
    r
}

/// The in-memory account repository.
pub struct InMemoryAccountRepository;

impl InMemoryAccountRepository {
    /// Whether an account satisfies one condition.
    pub fn satisfies_leaf(&self, a: &Account, spec: &AccountSpecification) -> (r: bool)
        ensures
            r == account_leaf_matches(*spec, a@),
    {
        match spec {
            AccountSpecification::Id(ids) => contains_str(ids, &a.id),
            AccountSpecification::JournalId(ids) => contains_str(ids, &a.journal_id),
            AccountSpecification::ParentId(ids) => match &a.parent_id {
                Some(p) => contains_str(ids, p),
                None => false,
            },
            AccountSpecification::Name(names) => names_match(names, a.name.as_str()),
            AccountSpecification::Type(types) => contains_type(types, a.account_type),
            AccountSpecification::Tag(tags) => tags_intersect(&a.tags, tags),
            AccountSpecification::FullText(q) => full_text_match(
                q.as_str(),
                a.name.as_str(),
                a.description.as_str(),
                &a.tags,
            ),
            AccountSpecification::Archived(b) => if *b {
                a.archived_at.is_some()
            } else {
                a.archived_at.is_none()
            },
        }
    }

    /// Whether an account satisfies a specification expression.
    pub fn satisfies(&self, a: &Account, spec: &AccountSpec) -> (r: bool)
        ensures
            r == satisfying::<Account, AccountSpecification>(*spec)(a@),
    {
        spec.evaluate(a)
    }
}

impl LeafSpecification<Account> for AccountSpecification {
    open spec fn spec_matches(&self, e: AccountView) -> bool {
        account_leaf_matches(*self, e)
    }

    fn matches(&self, e: &Account) -> (r: bool) {
        InMemoryAccountRepository.satisfies_leaf(e, self)
    }
}

impl AccountRepository for InMemoryAccountRepository {
    fn find_all_by_ids(&self, sess: &InMemorySession, ids: &Vec<String>) -> (r: Vec<Account>) {
        select_by_ids(&sess.accounts, ids)
    }

    fn find_all(&self, sess: &InMemorySession, spec: &AccountSpec, limit: Option<usize>) -> (r:
        Vec<Account>) {
        select_matching(&sess.accounts, spec, limit)
    }

    fn save_all(&self, sess: &mut InMemorySession, entities: &Vec<Account>) -> (r: Vec<Account>) {
        upsert_many(&mut sess.accounts, entities);
        let ids = ids_of(entities);
        select_by_ids(&sess.accounts, &ids)
    }

    fn delete_all_by_ids(&self, sess: &mut InMemorySession, ids: &Vec<String>) -> (r: Vec<
        Account,
    >) {
        let removed = select_by_ids(&sess.accounts, ids);
        remove_ids(&mut sess.accounts, ids);
        removed
    }
}

} // verus!
