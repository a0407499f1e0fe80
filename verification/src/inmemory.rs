//! An in-memory store for accounts, journals and records, with a
//! transaction that can be rolled back.
use vstd::prelude::*;
use crate::account::{Account, AccountView};
use crate::journal::{Journal, JournalView};
use crate::record::{Record, RecordView};
use crate::store::{copy_all, store_wf, views};

pub mod account;
pub mod journal;
pub mod record;

verus! {

/// The stores as they were when a transaction began.
pub struct StoreSnapshot {
    pub accounts: Vec<Account>,
    pub journals: Vec<Journal>,
    pub records: Vec<Record>,
}

/// The mathematical form of the stores.
pub struct StoresView {
    pub accounts: Seq<AccountView>,
    pub journals: Seq<JournalView>,
    pub records: Seq<RecordView>,
}

impl View for StoreSnapshot {
    type V = StoresView;

    open spec fn view(&self) -> StoresView {
        StoresView {
            accounts: views(self.accounts@),
            journals: views(self.journals@),
            records: views(self.records@),
        }
    }
}

/// A session over the in-memory stores. `begin` takes a snapshot,
/// `rollback` restores it and `commit` drops it.
pub struct InMemorySession {
    pub accounts: Vec<Account>,
    pub journals: Vec<Journal>,
    pub records: Vec<Record>,
    pub snapshot: Option<StoreSnapshot>,
}

impl View for InMemorySession {
    type V = StoresView;

    /// The current contents of the stores.
    open spec fn view(&self) -> StoresView {
        StoresView {
            accounts: views(self.accounts@),
            journals: views(self.journals@),
            records: views(self.records@),
        }
    }
}

/// The three stores are well formed.
pub open spec fn stores_wf(accounts: Seq<Account>, journals: Seq<Journal>, records: Seq<Record>) -> bool {
    &&& store_wf(accounts)
    &&& store_wf(journals)
    &&& store_wf(records)
}

impl InMemorySession {
    /// Every store, and the snapshot if there is one, is well formed.
    pub open spec fn wf(&self) -> bool {
        &&& stores_wf(self.accounts@, self.journals@, self.records@)
        &&& (self.snapshot matches Some(s) ==> stores_wf(s.accounts@, s.journals@, s.records@))
    }

    /// The snapshot's contents, if a transaction is open.
    pub open spec fn saved(&self) -> Option<StoresView> {
        match self.snapshot {
            Some(s) => Some(s@),
            None => None,
        }
    }

    /// An empty session with no open transaction.
    pub fn new() -> (r: InMemorySession)
        ensures
            r.wf(),
            r@.accounts.len() == 0,
            r@.journals.len() == 0,
            r@.records.len() == 0,
            r.saved() is None,
    {
        InMemorySession {
            accounts: Vec::new(),
            journals: Vec::new(),
            records: Vec::new(),
            snapshot: None,
        }
    }

    /// Begins a transaction: the current contents are saved.
    pub fn begin(&mut self)
        requires
            old(self).wf(),
        ensures
            final(self).wf(),
            final(self)@ == old(self)@,
            final(self).saved() == Some(old(self)@),
    {
        let s = StoreSnapshot {
            accounts: copy_all(&self.accounts),
            journals: copy_all(&self.journals),
            records: copy_all(&self.records),
        };
        self.snapshot = Some(s);
    }

    /// Commits the transaction: the contents stay and the snapshot is
    /// dropped.
    pub fn commit(&mut self)
        requires
            old(self).wf(),
        ensures
            final(self).wf(),
            final(self)@ == old(self)@,
            final(self).saved() is None,
    {
        self.snapshot = None;
    }

    /// Rolls the transaction back: the contents become what they were at
    /// `begin`. Without an open transaction nothing changes.
    pub fn rollback(&mut self)
        requires
            old(self).wf(),
        ensures
            final(self).wf(),
            final(self).saved() is None,
            match old(self).saved() {
                Some(s) => final(self)@ == s,
                None => final(self)@ == old(self)@,
            },
    {
        let taken = self.snapshot.take();
        match taken {
            Some(s) => {
                self.accounts = s.accounts;
                self.journals = s.journals;
                self.records = s.records;
            },
            None => {},
        }
    }
}

} // verus!
