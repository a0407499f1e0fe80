//! Requests to change records.
use vstd::prelude::*;
use crate::record::RecordItemKind;

verus! {

/// One posting of a record command. The account's type is not given: the
/// service looks the account up.
#[derive(Debug)]
pub struct RecordCommandItem {
    pub account_id: String,
    /// The amount as `"<number> <unit>"`, such as `"100 USD"`.
    pub amount: String,
    pub description: String,
    /// The `@` price as `"<number> <unit>"`, such as `"1.09 CAD"`.
    pub price: Option<String>,
    /// The `{}` costs: each is read as a date, a reference or a price.
    pub cost: Vec<String>,
}

/// Creates a record.
#[derive(Debug)]
pub struct RecordCommandCreate {
    pub journal_id: String,
    /// Days from the Common Era.
    pub date: i32,
    pub kind: RecordItemKind,
    pub items: Vec<RecordCommandItem>,
    pub description: String,
    pub tags: Vec<String>,
    pub payee: String,
}

/// Changes a record; `None` keeps a field. The journal and the kind never
/// change; new items replace all items.
#[derive(Debug)]
pub struct RecordCommandUpdate {
    pub id: String,
    pub date: Option<i32>,
    pub items: Option<Vec<RecordCommandItem>>,
    pub description: Option<String>,
    pub tags: Option<Vec<String>>,
    pub payee: Option<String>,
}

/// Several changes at once, applied as delete, create, update.
#[derive(Debug)]
pub struct RecordCommandBatch {
    pub create: Vec<RecordCommandCreate>,
    pub update: Vec<RecordCommandUpdate>,
    pub delete: Vec<String>,
}

/// A request to change records.
#[derive(Debug)]
pub enum RecordCommand {
    Create(RecordCommandCreate),
    Update(RecordCommandUpdate),
    /// Deletes records; identifiers of no record are ignored.
    Delete(Vec<String>),
    Batch(RecordCommandBatch),
}

impl RecordCommand {
    /// The command's type name.
    pub fn command_type(&self) -> (r: &'static str)
        ensures
            r@ == (match self {
                RecordCommand::Create(_) => "whiterabbit::command::RecordCommandCreate"@,
                RecordCommand::Update(_) => "whiterabbit::command::RecordCommandUpdate"@,
                RecordCommand::Delete(_) => "whiterabbit::command::RecordCommandDelete"@,
                RecordCommand::Batch(_) => "whiterabbit::command::RecordCommandBatch"@,
            }),
    {
        match self {
            RecordCommand::Create(_) => "whiterabbit::command::RecordCommandCreate",
            RecordCommand::Update(_) => "whiterabbit::command::RecordCommandUpdate",
            RecordCommand::Delete(_) => "whiterabbit::command::RecordCommandDelete",
            RecordCommand::Batch(_) => "whiterabbit::command::RecordCommandBatch",
        }
    }
}

} // verus!
