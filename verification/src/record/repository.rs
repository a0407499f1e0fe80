//! Where records are kept.
use vstd::prelude::*;
use crate::record::Record;
use crate::record::specification::{RecordSpec, RecordSpecification};
use crate::common::str_set;
use crate::inmemory::InMemorySession;
use crate::store::{all_inv, key_in, key_not_in, keys, satisfying, take_limit, upsert_all, views};

verus! {

/// Reads and writes records in a session.
pub trait RecordRepository {
    /// The records with one of the identifiers, in store order.
    fn find_all_by_ids(&self, sess: &InMemorySession, ids: &Vec<String>) -> (r: Vec<Record>)
        requires
            sess.wf(),
        ensures
            views(r@) == sess@.records.filter(key_in::<Record>(str_set(ids@))),
            all_inv(r@),
    ;

    /// The first `limit` records that satisfy `spec` (all of them without a
    /// limit), in store order.
    fn find_all(&self, sess: &InMemorySession, spec: &RecordSpec, limit: Option<usize>) -> (r:
        Vec<Record>)
        requires
            sess.wf(),
        ensures
            views(r@) == take_limit(
                sess@.records.filter(satisfying::<Record, RecordSpecification>(*spec)),
                limit,
            ),
            all_inv(r@),
    ;

    /// Stores each journal in turn, replacing the one with its identifier;
    /// returns the stored records with those identifiers.
    fn save_all(&self, sess: &mut InMemorySession, entities: &Vec<Record>) -> (r: Vec<Record>)
        requires
            old(sess).wf(),
            all_inv(entities@),
        ensures
            final(sess).wf(),
            final(sess)@.records == upsert_all::<Record>(old(sess)@.records, views(entities@)),
            final(sess)@.accounts == old(sess)@.accounts,
            final(sess)@.journals == old(sess)@.journals,
            final(sess).saved() == old(sess).saved(),
            views(r@) == final(sess)@.records.filter(
                key_in::<Record>(keys::<Record>(views(entities@)).to_set()),
            ),
    ;

    /// Removes the records with one of the identifiers; returns the removed
    /// ones.
    fn delete_all_by_ids(&self, sess: &mut InMemorySession, ids: &Vec<String>) -> (r: Vec<
        Record,
    >)
        requires
            old(sess).wf(),
        ensures
            final(sess).wf(),
            final(sess)@.records == old(sess)@.records.filter(
                key_not_in::<Record>(str_set(ids@)),
            ),
            final(sess)@.accounts == old(sess)@.accounts,
            final(sess)@.journals == old(sess)@.journals,
            final(sess).saved() == old(sess).saved(),
            views(r@) == old(sess)@.records.filter(key_in::<Record>(str_set(ids@))),
    ;
}

} // verus!
