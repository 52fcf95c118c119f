//! The wording of the status lines.

use crate::clock::{clock_label, clock_label_string, Stamp};
use crate::text::{decimal, decimal_string};
use vstd::prelude::*;

verus! {

/// The line written when a scan is sent off.
pub open spec fn scan_started_line(at: Stamp) -> Seq<char> {
    clock_label(at) + " - scan started "@
}

/// The line written when a timed scan has come back after `secs` seconds.
pub open spec fn scan_completed_line(at: Stamp, secs: nat) -> Seq<char> {
    clock_label(at) + " - scan completed ("@ + decimal(secs) + "s)"@
}

/// The line written when results come back and no scan was being timed.
pub open spec fn scan_untimed_line() -> Seq<char> {
    "Scan completed"@
}

/// The line written for an error reported from the background.
pub open spec fn error_line(cause: Seq<char>) -> Seq<char> {
    "Error: "@ + cause
}

/// The line written when a directory tree was removed.
pub open spec fn deleted_line(path: Seq<char>) -> Seq<char> {
    "Deleted: "@ + path
}

/// The line written when a removal failed.
pub open spec fn delete_failed_line(path: Seq<char>, cause: Seq<char>) -> Seq<char> {
    "Failed to delete "@ + path + ": "@ + cause
}

/// The line written on entering a child directory.
pub open spec fn entered_line(path: Seq<char>) -> Seq<char> {
    "Entered "@ + path
}

/// The line written on going up to the parent directory.
pub open spec fn up_line(path: Seq<char>) -> Seq<char> {
    "Up to "@ + path
}

/// The line written when there is no parent to go up to.
pub open spec fn at_root_line() -> Seq<char> {
    "Already at filesystem root"@
}

/// The line written when a deletion was called off.
pub open spec fn cancelled_line() -> Seq<char> {
    "Deletion cancelled"@
}

fn prefixed(prefix: &str, text: &String) -> (line: String)
    ensures
        line@ == prefix@ + text@,
{
    let mut line = String::from_str(prefix);
    line.append(text.as_str());
    line
}

pub fn scan_started_text(at: &Stamp) -> (line: String)
    ensures
        line@ == scan_started_line(*at),
{
    let mut line = clock_label_string(at);
    line.append(" - scan started ");
    line
}

pub fn scan_completed_text(at: &Stamp, secs: u128) -> (line: String)
    ensures
        line@ == scan_completed_line(*at, secs as nat),
{
    let mut line = clock_label_string(at);
    line.append(" - scan completed (");
    let count = decimal_string(secs);
    line.append(count.as_str());
    line.append("s)");
    line
}

pub fn scan_untimed_text() -> (line: String)
    ensures
        line@ == scan_untimed_line(),
{
    String::from_str("Scan completed")
}

pub fn error_text(cause: &String) -> (line: String)
    ensures
        line@ == error_line(cause@),
{
    prefixed("Error: ", cause)
}

pub fn deleted_text(path: &String) -> (line: String)
    ensures
        line@ == deleted_line(path@),
{
    prefixed("Deleted: ", path)
}

pub fn delete_failed_text(path: &String, cause: &String) -> (line: String)
    ensures
        line@ == delete_failed_line(path@, cause@),
{
    let mut line = prefixed("Failed to delete ", path);
    line.append(": ");
    line.append(cause.as_str());
    line
}

pub fn entered_text(path: &String) -> (line: String)
    ensures
        line@ == entered_line(path@),
{
    prefixed("Entered ", path)
}

pub fn up_text(path: &String) -> (line: String)
    ensures
        line@ == up_line(path@),
{
    prefixed("Up to ", path)
}

pub fn at_root_text() -> (line: String)
    ensures
        line@ == at_root_line(),
{
    String::from_str("Already at filesystem root")
}

pub fn cancelled_text() -> (line: String)
    ensures
        line@ == cancelled_line(),
{
    String::from_str("Deletion cancelled")
}

} // verus!
