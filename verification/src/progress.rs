//! Progress records and the cadence at which they are reported.

use vstd::prelude::*;
use vstd::string::StringExecFns;
use crate::text::decimal;
use crate::text::push_decimal;

verus! {

/// The model of a progress record.
pub struct ProgressModel {
    pub total: nat,
    pub processed: nat,
    pub succeeded: nat,
    pub failed: nat,
    pub status: Seq<char>,
}

/// A snapshot of an operation: how many records there are, how many were
/// processed, with which outcome, and a message on the current phase.
#[derive(Debug, PartialEq, Eq)]
pub struct ImportProgress {
    pub total: u32,
    pub processed: u32,
    pub succeeded: u32,
    pub failed: u32,
    pub status: String,
}

impl View for ImportProgress {
    type V = ProgressModel;

    open spec fn view(&self) -> ProgressModel {
        ProgressModel {
            total: self.total as nat,
            processed: self.processed as nat,
            succeeded: self.succeeded as nat,
            failed: self.failed as nat,
            status: self.status@,
        }
    }
}

impl Clone for ImportProgress {
    fn clone(&self) -> (out: Self)
        ensures
            out@ == self@,
    {
        ImportProgress {
            total: self.total,
            processed: self.processed,
            succeeded: self.succeeded,
            failed: self.failed,
            status: self.status.clone(),
        }
    }
}

/// The phase of a batch operation.
#[derive(Debug, Clone, Copy, PartialEq, Eq)]
pub enum Phase {
    Preparing,
    AnalyzingSchema,
    PreparingStatement,
    Inserting,
    Committing,
    Done,
    Failed,
}

/// Whether the counters agree: every processed record either succeeded or
/// failed, and no more records were processed than there are.
pub open spec fn consistent(progress: ProgressModel) -> bool {
    &&& progress.processed == progress.succeeded + progress.failed
    &&& progress.processed <= progress.total
}

/// Whether a snapshot is due after `processed` of `total` records: at every
/// tenth record and at the last one.
pub open spec fn report_due(processed: nat, total: nat) -> bool {
    processed % 10 == 0 || processed == total
}

/// Decides whether a snapshot is due after `processed` of `total` records.
pub fn should_report(processed: u32, total: u32) -> (due: bool)
    ensures
        due == report_due(processed as nat, total as nat),
{
    processed % 10 == 0 || processed == total
}

/// The message on the records processed so far.
pub open spec fn advance_status(processed: nat, total: nat) -> Seq<char> {
    "Progression: "@ + decimal(processed) + "/"@ + decimal(total) + " objets traités"@
}

/// The closing message of an import.
pub open spec fn import_summary(succeeded: nat, failed: nat) -> Seq<char> {
    "Importation terminée. Succès: "@ + decimal(succeeded) + ", Échecs: "@ + decimal(failed)
}

/// The closing message of an update.
pub open spec fn update_summary(succeeded: nat, failed: nat, not_found: nat) -> Seq<char> {
    "Mise à jour terminée. Succès: "@ + decimal(succeeded) + ", Échecs: "@ + decimal(failed)
        + ", Non trouvés: "@ + decimal(not_found)
}

/// Builds the message on the records processed so far.
pub fn advance_message(processed: u32, total: u32) -> (out: String)
    ensures
        out@ == advance_status(processed as nat, total as nat),
{
    let mut out = String::new();
    out.append("Progression: ");
    push_decimal(&mut out, processed as u64);
    out.append("/");
    push_decimal(&mut out, total as u64);
    out.append(" objets traités");
    assert(out@ =~= advance_status(processed as nat, total as nat));
    out
}

/// Builds the closing message of an import.
pub fn import_message(succeeded: u32, failed: u32) -> (out: String)
    ensures
        out@ == import_summary(succeeded as nat, failed as nat),
{
    let mut out = String::new();
    out.append("Importation terminée. Succès: ");
    push_decimal(&mut out, succeeded as u64);
    out.append(", Échecs: ");
    push_decimal(&mut out, failed as u64);
    assert(out@ =~= import_summary(succeeded as nat, failed as nat));
    out
}

/// Builds the closing message of an update.
pub fn update_message(succeeded: u32, failed: u32, not_found: u32) -> (out: String)
    ensures
        out@ == update_summary(succeeded as nat, failed as nat, not_found as nat),
{
    let mut out = String::new();
    out.append("Mise à jour terminée. Succès: ");
    push_decimal(&mut out, succeeded as u64);
    out.append(", Échecs: ");
    push_decimal(&mut out, failed as u64);
    out.append(", Non trouvés: ");
    push_decimal(&mut out, not_found as u64);
    assert(out@ =~= update_summary(succeeded as nat, failed as nat, not_found as nat));
    out
}

/// A snapshot with the given counters and message.
pub fn snapshot(total: u32, processed: u32, succeeded: u32, failed: u32, status: &str) -> (out:
    ImportProgress)
    ensures
        out@ == (ProgressModel {
            total: total as nat,
            processed: processed as nat,
            succeeded: succeeded as nat,
            failed: failed as nat,
            status: status@,
        }),
{
    ImportProgress { total, processed, succeeded, failed, status: status.to_owned() }
}

} // verus!
