//! Where accounts are kept.
use vstd::prelude::*;
use crate::account::Account;
use crate::account::specification::{AccountSpec, AccountSpecification};
use crate::common::str_set;
use crate::inmemory::InMemorySession;
use crate::store::{all_inv, key_in, key_not_in, keys, satisfying, take_limit, upsert_all, views};

verus! {

/// Reads and writes accounts in a session.
pub trait AccountRepository {
    /// The accounts with one of the identifiers, in store order.
    fn find_all_by_ids(&self, sess: &InMemorySession, ids: &Vec<String>) -> (r: Vec<Account>)
        requires
            sess.wf(),
        ensures
            views(r@) == sess@.accounts.filter(key_in::<Account>(str_set(ids@))),
            all_inv(r@),
    ;

    /// The first `limit` accounts that satisfy `spec` (all of them without a
    /// limit), in store order.
    fn find_all(&self, sess: &InMemorySession, spec: &AccountSpec, limit: Option<usize>) -> (r:
        Vec<Account>)
        requires
            sess.wf(),
        ensures
            views(r@) == take_limit(
                sess@.accounts.filter(satisfying::<Account, AccountSpecification>(*spec)),
                limit,
            ),
            all_inv(r@),
    ;

    /// Stores each account in turn, replacing the one with its identifier;
    /// returns the stored accounts with those identifiers.
    fn save_all(&self, sess: &mut InMemorySession, entities: &Vec<Account>) -> (r: Vec<Account>)
        requires
            old(sess).wf(),
            all_inv(entities@),
        ensures
            final(sess).wf(),
            final(sess)@.accounts == upsert_all::<Account>(old(sess)@.accounts, views(entities@)),
            final(sess)@.journals == old(sess)@.journals,
            final(sess)@.records == old(sess)@.records,
            final(sess).saved() == old(sess).saved(),
            views(r@) == final(sess)@.accounts.filter(
                key_in::<Account>(keys::<Account>(views(entities@)).to_set()),
            ),
    ;

    /// Removes the accounts with one of the identifiers; returns the removed
    /// ones.
    fn delete_all_by_ids(&self, sess: &mut InMemorySession, ids: &Vec<String>) -> (r: Vec<
        Account,
    >)
        requires
            old(sess).wf(),
        ensures
            final(sess).wf(),
            final(sess)@.accounts == old(sess)@.accounts.filter(
                key_not_in::<Account>(str_set(ids@)),
            ),
            final(sess)@.journals == old(sess)@.journals,
            final(sess)@.records == old(sess)@.records,
            final(sess).saved() == old(sess).saved(),
            views(r@) == old(sess)@.accounts.filter(key_in::<Account>(str_set(ids@))),
    ;
}

} // verus!
