//! Records in the in-memory store.
use vstd::prelude::*;
use crate::inmemory::account::ids_of;
use crate::inmemory::InMemorySession;
use crate::record::Record;
use crate::record::repository::RecordRepository;
use crate::record::specification::{RecordSpec, RecordSpecification};
use crate::specification::LeafSpecification;
use crate::store::{remove_ids, select_by_ids, select_matching, upsert_many};

verus! {

/// The in-memory record repository.
pub struct InMemoryRecordRepository;

impl InMemoryRecordRepository {
    /// Whether a record satisfies one condition.
    pub fn satisfies_leaf(&self, r: &Record, spec: &RecordSpecification) -> (b: bool)
        ensures
            b == crate::record::specification::record_leaf_matches(*spec, r@),
    {
        spec.matches(r)
    }
}

impl RecordRepository for InMemoryRecordRepository {
    fn find_all_by_ids(&self, sess: &InMemorySession, ids: &Vec<String>) -> (r: Vec<Record>) {
        select_by_ids(&sess.records, ids)
    }

    fn find_all(&self, sess: &InMemorySession, spec: &RecordSpec, limit: Option<usize>) -> (r:
        Vec<Record>) {
        select_matching(&sess.records, spec, limit)
    }

    fn save_all(&self, sess: &mut InMemorySession, entities: &Vec<Record>) -> (r: Vec<Record>) {
        upsert_many(&mut sess.records, entities);
        let ids = ids_of(entities);
        select_by_ids(&sess.records, &ids)
    }

    fn delete_all_by_ids(&self, sess: &mut InMemorySession, ids: &Vec<String>) -> (r: Vec<
        Record,
    >) {
        let removed = select_by_ids(&sess.records, ids);
        remove_ids(&mut sess.records, ids);
        removed
    }
}

} // verus!
