//! Requests to change journals.
use vstd::prelude::*;

verus! {

/// Creates a journal with its five root accounts.
#[derive(Debug)]
pub struct JournalCommandCreate {
    pub name: String,
    pub description: String,
    pub tags: Vec<String>,
}

/// Changes a journal. An empty `name` keeps the name; `None` keeps the
/// description or the tags.
#[derive(Debug)]
pub struct JournalCommandUpdate {
    pub id: String,
    pub name: String,
    pub description: Option<String>,
    pub tags: Option<Vec<String>>,
}

/// Several changes at once, applied as delete, create, update.
#[derive(Debug)]
pub struct JournalCommandBatch {
    pub create: Vec<JournalCommandCreate>,
    pub update: Vec<JournalCommandUpdate>,
    pub delete: Vec<String>,
}

/// A request to change journals.
#[derive(Debug)]
pub enum JournalCommand {
    Create(JournalCommandCreate),
    Update(JournalCommandUpdate),
    /// Deletes journals; identifiers of no journal are ignored.
    Delete(Vec<String>),
    Batch(JournalCommandBatch),
}

impl JournalCommand {
    /// The command's type name.
    pub fn command_type(&self) -> (r: &'static str)
        ensures
            r@ == (match self {
                JournalCommand::Create(_) => "whiterabbit::command::JournalCommandCreate"@,
                JournalCommand::Update(_) => "whiterabbit::command::JournalCommandUpdate"@,
                JournalCommand::Delete(_) => "whiterabbit::command::JournalCommandDelete"@,
                JournalCommand::Batch(_) => "whiterabbit::command::JournalCommandBatch"@,
            }),
    {
        match self {
            JournalCommand::Create(_) => "whiterabbit::command::JournalCommandCreate",
            JournalCommand::Update(_) => "whiterabbit::command::JournalCommandUpdate",
            JournalCommand::Delete(_) => "whiterabbit::command::JournalCommandDelete",
            JournalCommand::Batch(_) => "whiterabbit::command::JournalCommandBatch",
        }
    }
}

} // verus!
