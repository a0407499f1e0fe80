//! Where journals are kept.
use vstd::prelude::*;
use crate::journal::Journal;
use crate::journal::specification::{JournalSpec, JournalSpecification};
use crate::common::str_set;
use crate::inmemory::InMemorySession;
use crate::store::{all_inv, key_in, key_not_in, keys, satisfying, take_limit, upsert_all, views};

verus! {

/// Reads and writes journals in a session.
pub trait JournalRepository {
    /// The journals with one of the identifiers, in store order.
    fn find_all_by_ids(&self, sess: &InMemorySession, ids: &Vec<String>) -> (r: Vec<Journal>)
        requires
            sess.wf(),
        ensures
            views(r@) == sess@.journals.filter(key_in::<Journal>(str_set(ids@))),
            all_inv(r@),
    ;

    /// The first `limit` journals that satisfy `spec` (all of them without a
    /// limit), in store order.
    fn find_all(&self, sess: &InMemorySession, spec: &JournalSpec, limit: Option<usize>) -> (r:
        Vec<Journal>)
        requires
            sess.wf(),
        ensures
            views(r@) == take_limit(
                sess@.journals.filter(satisfying::<Journal, JournalSpecification>(*spec)),
                limit,
            ),
            all_inv(r@),
    ;

    /// Stores each journal in turn, replacing the one with its identifier;
    /// returns the stored journals with those identifiers.
    fn save_all(&self, sess: &mut InMemorySession, entities: &Vec<Journal>) -> (r: Vec<Journal>)
        requires
            old(sess).wf(),
            all_inv(entities@),
        ensures
            final(sess).wf(),
            final(sess)@.journals == upsert_all::<Journal>(old(sess)@.journals, views(entities@)),
            final(sess)@.accounts == old(sess)@.accounts,
            final(sess)@.records == old(sess)@.records,
            final(sess).saved() == old(sess).saved(),
            views(r@) == final(sess)@.journals.filter(
                key_in::<Journal>(keys::<Journal>(views(entities@)).to_set()),
            ),
    ;

    /// Removes the journals with one of the identifiers; returns the removed
    /// ones.
    fn delete_all_by_ids(&self, sess: &mut InMemorySession, ids: &Vec<String>) -> (r: Vec<
        Journal,
    >)
        requires
            old(sess).wf(),
        ensures
            final(sess).wf(),
            final(sess)@.journals == old(sess)@.journals.filter(
                key_not_in::<Journal>(str_set(ids@)),
            ),
            final(sess)@.accounts == old(sess)@.accounts,
            final(sess)@.records == old(sess)@.records,
            final(sess).saved() == old(sess).saved(),
            views(r@) == old(sess)@.journals.filter(key_in::<Journal>(str_set(ids@))),
    ;
}

} // verus!
