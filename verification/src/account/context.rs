//! Checks of an account against its journal and the accounts around it.
use vstd::prelude::*;
use crate::account::{
    account_resource, account_type_name, spec_is_reserved_name, Account, AccountView,
};
use crate::error::{
    err_view, shared_err_detail, Error, ErrorKind, ErrorKindView, ErrorView, SharedErrorKind,
    SharedErrorKindView,
};
use crate::journal::Journal;
use crate::text::concat3;

verus! {

/// The views of a sequence of accounts.
pub open spec fn accounts_view(v: Seq<Account>) -> Seq<AccountView> {
    v.map_values(|a: Account| a@)
}

/// The first account of `accs` with the given identifier.
pub open spec fn find_account(accs: Seq<AccountView>, id: Seq<char>) -> Option<AccountView>
    decreases accs.len(),
{
    if accs.len() == 0 {
        None
    } else if accs[0].id == id {
        Some(accs[0])
    } else {
        find_account(accs.drop_first(), id)
    }
}

/// The index of the first account of `accs` with the given identifier.
pub open spec fn find_index(accs: Seq<AccountView>, id: Seq<char>) -> int
    decreases accs.len(),
{
    if accs.len() == 0 {
        -1
    } else if accs[0].id == id {
        0
    } else {
        let k = find_index(accs.drop_first(), id);
        if k < 0 {
            -1
        } else {
            k + 1
        }
    }
}

pub proof fn lemma_find_account_index(accs: Seq<AccountView>, id: Seq<char>)
    ensures
        -1 <= find_index(accs, id) < accs.len(),
        find_index(accs, id) >= 0 ==> find_account(accs, id) == Some(accs[find_index(accs, id)])
            && accs[find_index(accs, id)].id == id,
        find_index(accs, id) >= 0 ==> forall|j: int|
            0 <= j < find_index(accs, id) ==> accs[j].id != id,
        find_index(accs, id) < 0 ==> find_account(accs, id) is None && forall|j: int|
            0 <= j < accs.len() ==> accs[j].id != id,
    decreases accs.len(),
{
    if accs.len() > 0 && accs[0].id != id {
        lemma_find_account_index(accs.drop_first(), id);
        let t = accs.drop_first();
        assert forall|j: int| 1 <= j < accs.len() implies accs[j] == t[j - 1] by {}
    }
}

/// Looks up the first account with the given identifier.
pub fn lookup_account<'a>(accs: &'a Vec<Account>, id: &String) -> (r: Option<&'a Account>)
    ensures
        match find_account(accounts_view(accs@), id@) {
            Some(a) => r is Some && r->Some_0@ == a,
            None => r is None,
        },
{
    let n = accs.len();
    let mut i: usize = 0;
    proof {
        lemma_find_account_index(accounts_view(accs@), id@);
    }
    while i < n
        invariant
            n == accs@.len(),
            i <= n,
            forall|j: int| 0 <= j < i ==> accs@[j].id@ != id@,
            -1 <= find_index(accounts_view(accs@), id@) < n,
            find_index(accounts_view(accs@), id@) >= 0 ==> find_account(accounts_view(accs@), id@)
                == Some(accounts_view(accs@)[find_index(accounts_view(accs@), id@)])
                && accounts_view(accs@)[find_index(accounts_view(accs@), id@)].id == id@,
            find_index(accounts_view(accs@), id@) >= 0 ==> forall|j: int|
                0 <= j < find_index(accounts_view(accs@), id@) ==> accounts_view(accs@)[j].id
                    != id@,
            find_index(accounts_view(accs@), id@) < 0 ==> find_account(accounts_view(accs@), id@)
                is None,
        decreases n - i,
    {
        if accs[i].id == *id {
            proof {
                let k = find_index(accounts_view(accs@), id@);
                assert(accounts_view(accs@)[i as int].id == id@);
                if k < 0 {
                    assert(forall|j: int| 0 <= j < accs@.len() ==> accounts_view(accs@)[j].id != id@) by {
                        lemma_find_account_index(accounts_view(accs@), id@);
                    }
                    assert(false);
                }
                if k > i {
                    assert(accounts_view(accs@)[i as int].id != id@);
                }
                assert(k == i);
            }
            return Some(&accs[i]);
        }
        assert(accounts_view(accs@)[i as int].id != id@);
        i = i + 1;
    }
    proof {
        let k = find_index(accounts_view(accs@), id@);
        if k >= 0 {
            assert(accs@[k].id@ != id@);
        }
    }
    None
}

/// The outcome of walking up the parent chain from `cur` with at most
/// `fuel` steps: `None` when the fuel runs out first; an error when a
/// parent is missing or has another type; `Ok` at a root.
pub open spec fn ancestors_check(accs: Seq<AccountView>, cur: AccountView, fuel: nat) -> Option<
    Result<(), ErrorView>,
>
    decreases fuel,
{
    match cur.parent_id {
        None => Some(Ok(())),
        Some(pid) => match find_account(accs, pid) {
            None => Some(
                Err(
                    shared_err_detail(
                        SharedErrorKindView::NotFound,
                        account_resource(),
                        "parent_id"@,
                        "parent "@ + pid + " not found"@,
                    ),
                ),
            ),
            Some(parent) => if cur.account_type != parent.account_type {
                Some(
                    Err(
                        err_view(
                            ErrorKindView::Mismatch {
                                expected: account_type_name(parent.account_type),
                                actual: account_type_name(cur.account_type),
                            },
                            Some(account_resource()),
                            Some("type"@),
                            Some("must match parent "@ + pid + " type"@),
                        ),
                    ),
                )
            } else if fuel == 0 {
                None
            } else {
                ancestors_check(accs, parent, (fuel - 1) as nat)
            },
        },
    }
}

/// The walk up the parent chain from `cur` ends (at a root, a missing
/// parent or a type mismatch) rather than going round a cycle forever.
pub open spec fn ancestors_walk_ends(accs: Seq<AccountView>, cur: AccountView) -> bool {
    exists|n: nat| #[trigger] ancestors_check(accs, cur, n) is Some
}

/// The result of the walk up the parent chain, once it ends.
pub open spec fn ancestors_result(accs: Seq<AccountView>, cur: AccountView) -> Result<(), ErrorView> {
    let n = choose|n: nat| #[trigger] ancestors_check(accs, cur, n) is Some;
    ancestors_check(accs, cur, n)->Some_0
}

/// What validating a new or changed account against the other accounts
/// gives: every ancestor has its type, the parent is not archived, and a
/// non-root account does not use a reserved root name.
pub open spec fn spec_validate(accs: Seq<AccountView>, entity: AccountView) -> Result<(), ErrorView> {
    match ancestors_result(accs, entity) {
        Err(e) => Err(e),
        Ok(()) => {
            if entity.parent_id is Some && find_account(accs, entity.parent_id->Some_0) is Some
                && find_account(accs, entity.parent_id->Some_0)->Some_0.archived_at is Some {
                Err(
                    shared_err_detail(
                        SharedErrorKindView::Conflict,
                        account_resource(),
                        "parent_id"@,
                        "parent "@ + entity.parent_id->Some_0
                            + " is archived; cannot create child under archived account"@,
                    ),
                )
            } else if entity.parent_id is Some && spec_is_reserved_name(entity.name) {
                Err(
                    shared_err_detail(
                        SharedErrorKindView::Conflict,
                        account_resource(),
                        "name"@,
                        "'"@ + entity.name + "' is a reserved root account name"@,
                    ),
                )
            } else {
                Ok(())
            }
        },
    }
}

/// An account with the journal and the accounts it is checked against.
pub struct AccountContext {
    pub entity: Account,
    pub journal: Journal,
    /// The other accounts, looked up by identifier (the first with an
    /// identifier counts).
    pub accounts: Vec<Account>,
}

impl AccountContext {
    /// Checks the account: every ancestor must have the same account type,
    /// the parent must not be archived, and an account with a parent must
    /// not use a reserved root name.
    pub fn validate(&self) -> (r: Result<(), Error>)
        requires
            ancestors_walk_ends(accounts_view(self.accounts@), self.entity@),
        ensures
            match spec_validate(accounts_view(self.accounts@), self.entity@) {
                Ok(()) => r is Ok,
                Err(e) => r is Err && r->Err_0@ == e,
            },
    {
        match self.validate_type_matches_ancestors() {
            Ok(()) => {},
            Err(e) => {
                return Err(e);
            },
        }
        match self.validate_parent_not_archived() {
            Ok(()) => {},
            Err(e) => {
                return Err(e);
            },
        }
        self.validate_name_not_reserved()
    }

    /// Walks the parent chain: every ancestor must have the same account
    /// type, and every parent must exist.
    fn validate_type_matches_ancestors(&self) -> (r: Result<(), Error>)
        requires
            ancestors_walk_ends(accounts_view(self.accounts@), self.entity@),
        ensures
            match ancestors_result(accounts_view(self.accounts@), self.entity@) {
                Ok(()) => r is Ok,
                Err(e) => r is Err && r->Err_0@ == e,
            },
    {
        let ghost accs = accounts_view(self.accounts@);
        let ghost n0 = choose|n: nat| #[trigger] ancestors_check(accs, self.entity@, n) is Some;
        let ghost mut fuel: nat = n0;
        let mut current = &self.entity;
        loop
            invariant
                accs == accounts_view(self.accounts@),
                ancestors_check(accs, current@, fuel) is Some,
                ancestors_check(accs, current@, fuel) == ancestors_check(accs, self.entity@, n0),
                ancestors_check(accs, self.entity@, n0) is Some,
                ancestors_result(accs, self.entity@) == ancestors_check(accs, self.entity@, n0)->Some_0,
            decreases fuel,
        {
            match &current.parent_id {
                None => {
                    return Ok(());
                },
                Some(parent_id) => {
                    let parent = match lookup_account(&self.accounts, parent_id) {
                        Some(p) => p,
                        None => {
                            return Err(
                                SharedErrorKind::NotFound.into_error().with_resource_type(
                                    Account::ENTITY_TYPE,
                                ).with_field("parent_id").with_detail(
                                    concat3("parent ", parent_id.as_str(), " not found"),
                                ),
                            );
                        },
                    };
                    if current.account_type != parent.account_type {
                        let e = ErrorKind::mismatch(
                            parent.account_type.to_display_string(),
                            current.account_type.to_display_string(),
                        ).with_resource_type(Account::ENTITY_TYPE).with_field("type").with_detail(
                            concat3("must match parent ", parent_id.as_str(), " type"),
                        );
                        return Err(e);
                    }
                    proof {
                        fuel = (fuel - 1) as nat;
                    }
                    current = parent;
                },
            }
        }
    }

    /// The parent account, if it is known, must not be archived.
    fn validate_parent_not_archived(&self) -> (r: Result<(), Error>)
        ensures
            ({
                let accs = accounts_view(self.accounts@);
                let entity = self.entity@;
                if entity.parent_id is Some && find_account(accs, entity.parent_id->Some_0) is Some
                    && find_account(accs, entity.parent_id->Some_0)->Some_0.archived_at is Some {
                    r is Err && r->Err_0@ == shared_err_detail(
                        SharedErrorKindView::Conflict,
                        account_resource(),
                        "parent_id"@,
                        "parent "@ + entity.parent_id->Some_0
                            + " is archived; cannot create child under archived account"@,
                    )
                } else {
                    r is Ok
                }
            }),
    {
        match &self.entity.parent_id {
            Some(parent_id) => match lookup_account(&self.accounts, parent_id) {
                Some(parent) => {
                    if parent.is_archived() {
                        return Err(
                            SharedErrorKind::Conflict.into_error().with_resource_type(
                                Account::ENTITY_TYPE,
                            ).with_field("parent_id").with_detail(
                                concat3(
                                    "parent ",
                                    parent_id.as_str(),
                                    " is archived; cannot create child under archived account",
                                ),
                            ),
                        );
                    }
                    Ok(())
                },
                None => Ok(()),
            },
            None => Ok(()),
        }
    }

    /// An account with a parent must not use one of the reserved root
    /// names; root accounts are exempt (they carry those names).
    fn validate_name_not_reserved(&self) -> (r: Result<(), Error>)
        ensures
            ({
                let entity = self.entity@;
                if entity.parent_id is Some && spec_is_reserved_name(entity.name) {
                    r is Err && r->Err_0@ == shared_err_detail(
                        SharedErrorKindView::Conflict,
                        account_resource(),
                        "name"@,
                        "'"@ + entity.name + "' is a reserved root account name"@,
                    )
                } else {
                    r is Ok
                }
            }),
    {
        if self.entity.parent_id.is_some() && Account::is_reserved_name(self.entity.name.as_str()) {
            return Err(
                SharedErrorKind::Conflict.into_error().with_resource_type(Account::ENTITY_TYPE).with_field(
                    "name",
                ).with_detail(concat3("'", self.entity.name.as_str(), "' is a reserved root account name")),
            );
        }
        Ok(())
    }
}

} // verus!
