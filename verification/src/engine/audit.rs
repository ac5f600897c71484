//! The local audit trail: which action touched which key of which
//! environment, and when; never a value.
use vstd::prelude::*;
use crate::db::AuditLogRecord;

verus! {

/// The actions recorded in the audit trail.
#[derive(Debug, Clone, Copy, PartialEq, Eq, Structural)]
pub enum AuditAction {
    /// `envy set` (stored as `set`).
    SetKey,
    Get,
    Rm,
    Run,
}

/// The stored form of an action.
pub open spec fn action_text(a: AuditAction) -> Seq<char> {
    match a {
        AuditAction::SetKey => "set"@,
        AuditAction::Get => "get"@,
        AuditAction::Rm => "rm"@,
        AuditAction::Run => "run"@,
    }
}

impl AuditAction {
    /// Lowercase string form stored in the `audit_logs.action` column.
    pub fn as_str(self) -> (s: &'static str)
        ensures
            s@ == action_text(self),
    {
        match self {
            AuditAction::SetKey => "set",
            AuditAction::Get => "get",
            AuditAction::Rm => "rm",
            AuditAction::Run => "run",
        }
    }
}

/// One row of the audit trail, ready for display.
#[derive(Debug, Clone)]
pub struct AuditEntry {
    /// Lowercase environment label the action was performed against.
    pub environment: String,
    /// The recorded action.
    pub action: String,
    /// Secret key name touched, or `None` for whole-environment actions (`run`).
    pub key: Option<String>,
    /// Unix epoch (UTC, seconds) the action was recorded.
    pub created_at: i64,
}

/// Turns the store's audit rows into display entries, keeping their order
/// (newest first, as the store returns them).
pub fn audit_entries(rows: Vec<AuditLogRecord>) -> (r: Vec<AuditEntry>)
    ensures
        r@.len() == rows@.len(),
        forall|i: int| 0 <= i < rows@.len() ==> {
            &&& (#[trigger] r@[i]).environment == rows@[i].environment_name
            &&& r@[i].action == rows@[i].action
            &&& r@[i].key == rows@[i].key
            &&& r@[i].created_at == rows@[i].created_at
        },
{
    let mut out: Vec<AuditEntry> = Vec::new();
    let mut i: usize = 0;
    while i < rows.len()
        invariant
            0 <= i <= rows@.len(),
            out@.len() == i,
            forall|k: int| 0 <= k < i ==> {
                &&& (#[trigger] out@[k]).environment == rows@[k].environment_name
                &&& out@[k].action == rows@[k].action
                &&& out@[k].key == rows@[k].key
                &&& out@[k].created_at == rows@[k].created_at
            },
        decreases rows@.len() - i,
    {
        let row = &rows[i];
        out.push(
            AuditEntry {
                environment: row.environment_name.clone(),
                action: row.action.clone(),
                key: match &row.key {
                    Some(k) => Some(k.clone()),
                    None => None,
                },
                created_at: row.created_at,
            },
        );
        i += 1;
    }
    out
}

} // verus!
