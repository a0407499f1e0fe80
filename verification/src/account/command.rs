//! Requests to change accounts.
use vstd::prelude::*;

verus! {

/// Creates an account under an existing parent; the type comes from the
/// parent. Root accounts are made by the system, never by this command.
#[derive(Debug)]
pub struct AccountCommandCreate {
    pub journal_id: String,
    pub parent_id: String,
    pub name: String,
    pub description: String,
    pub tags: Vec<String>,
}

/// Changes an account. An empty `name` keeps the name; `None` keeps the
/// description or the tags. Parent and type never change.
#[derive(Debug)]
pub struct AccountCommandUpdate {
    pub id: String,
    pub name: String,
    pub description: Option<String>,
    pub tags: Option<Vec<String>>,
}

/// Archives accounts and all their descendants.
#[derive(Debug)]
pub struct AccountCommandArchive {
    pub ids: Vec<String>,
    /// Microseconds since the Unix epoch.
    pub archived_at: i64,
}

/// Several changes at once, applied as delete, archive, create, update.
#[derive(Debug)]
pub struct AccountCommandBatch {
    pub create: Vec<AccountCommandCreate>,
    pub update: Vec<AccountCommandUpdate>,
    pub delete: Vec<String>,
    pub archive: Vec<AccountCommandArchive>,
}

/// A request to change accounts.
#[derive(Debug)]
pub enum AccountCommand {
    Create(AccountCommandCreate),
    Update(AccountCommandUpdate),
    /// Deletes accounts and all their descendants.
    Delete(Vec<String>),
    Archive(AccountCommandArchive),
    Batch(AccountCommandBatch),
}

impl AccountCommand {
    /// The command's type name.
    pub fn command_type(&self) -> (r: &'static str)
        ensures
            r@ == (match self {
                AccountCommand::Create(_) => "whiterabbit::command::AccountCommandCreate"@,
                AccountCommand::Update(_) => "whiterabbit::command::AccountCommandUpdate"@,
                AccountCommand::Delete(_) => "whiterabbit::command::AccountCommandDelete"@,
                AccountCommand::Archive(_) => "whiterabbit::command::AccountCommandArchive"@,
                AccountCommand::Batch(_) => "whiterabbit::command::AccountCommandBatch"@,
            }),
    {
        match self {
            AccountCommand::Create(_) => "whiterabbit::command::AccountCommandCreate",
            AccountCommand::Update(_) => "whiterabbit::command::AccountCommandUpdate",
            AccountCommand::Delete(_) => "whiterabbit::command::AccountCommandDelete",
            AccountCommand::Archive(_) => "whiterabbit::command::AccountCommandArchive",
            AccountCommand::Batch(_) => "whiterabbit::command::AccountCommandBatch",
        }
    }
}

} // verus!
