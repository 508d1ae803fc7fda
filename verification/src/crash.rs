//! The text of a crash report and the name of the file it is written to.
//! Catching the panic and writing the file stay with the application.

use crate::hash::{spec_decimal, to_decimal};
use vstd::prelude::*;

verus! {

/// The report written when the program panics.
pub open spec fn spec_crash_report(
    version: Seq<char>,
    timestamp: u64,
    message: Seq<char>,
    location: Seq<char>,
    backtrace: Seq<char>,
) -> Seq<char> {
    "FerroCopy Crash Report\n=====================\nVersion: "@ + version
        + "\nTimestamp (unix): "@ + spec_decimal(timestamp as nat)
        + "\nPanic: "@ + message
        + "\nLocation: "@ + location
        + "\n\nBacktrace:\n"@ + backtrace + "\n"@
}

/// Builds the crash report: version, time of the crash (seconds since the
/// Unix epoch), the panic's message and place, and the backtrace.
pub fn crash_report(version: &str, timestamp: u64, message: &str, location: &str, backtrace: &str) -> (r: String)
    ensures
        r@ == spec_crash_report(version@, timestamp, message@, location@, backtrace@),
{
    let mut r = "FerroCopy Crash Report\n=====================\nVersion: ".to_string();
    r.append(version);
    r.append("\nTimestamp (unix): ");
    let ts = to_decimal(timestamp as u128);
    r.append(ts.as_str());
    r.append("\nPanic: ");
    r.append(message);
    r.append("\nLocation: ");
    r.append(location);
    r.append("\n\nBacktrace:\n");
    r.append(backtrace);
    r.append("\n");
    r
}

/// The place of a panic: its file and line.
pub fn panic_location(file: &str, line: u32) -> (r: String)
    ensures
        r@ == file@ + ":"@ + spec_decimal(line as nat),
{
    let mut r = file.to_string();
    r.append(":");
    let l = to_decimal(line as u128);
    r.append(l.as_str());
    r
}

/// The name of the file a crash report at `timestamp` goes to.
pub fn crash_file_name(timestamp: u64) -> (r: String)
    ensures
        r@ == "ferrocopy_crash_"@ + spec_decimal(timestamp as nat) + ".txt"@,
{
    let mut r = "ferrocopy_crash_".to_string();
    let ts = to_decimal(timestamp as u128);
    r.append(ts.as_str());
    r.append(".txt");
    r
}

} // verus!
