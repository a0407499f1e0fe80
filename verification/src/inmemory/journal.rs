//! Journals in the in-memory store.
use vstd::prelude::*;
use crate::inmemory::account::ids_of;
use crate::inmemory::InMemorySession;
use crate::journal::Journal;
use crate::journal::repository::JournalRepository;
use crate::journal::specification::JournalSpec;
use crate::store::{remove_ids, select_by_ids, select_matching, upsert_many};

verus! {

/// The in-memory journal repository.
pub struct InMemoryJournalRepository;

impl JournalRepository for InMemoryJournalRepository {
    fn find_all_by_ids(&self, sess: &InMemorySession, ids: &Vec<String>) -> (r: Vec<Journal>) {
        select_by_ids(&sess.journals, ids)
    }

    fn find_all(&self, sess: &InMemorySession, spec: &JournalSpec, limit: Option<usize>) -> (r:
        Vec<Journal>) {
        select_matching(&sess.journals, spec, limit)
    }

    fn save_all(&self, sess: &mut InMemorySession, entities: &Vec<Journal>) -> (r: Vec<Journal>) {
        upsert_many(&mut sess.journals, entities);
        let ids = ids_of(entities);
        select_by_ids(&sess.journals, &ids)
    }

    fn delete_all_by_ids(&self, sess: &mut InMemorySession, ids: &Vec<String>) -> (r: Vec<
        Journal,
    >) {
        let removed = select_by_ids(&sess.journals, ids);
        remove_ids(&mut sess.journals, ids);
        removed
    }
}

} // verus!
