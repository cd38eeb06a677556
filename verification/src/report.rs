//! The sidecar hash report.
//!
//! The report's field order and labels are part of the forensic artifact:
//! existing case files are matched against it, so the exact text matters and
//! is pinned down here. The values come from the digest engine; writing the
//! file is I/O and happens outside this library.

use vstd::prelude::*;
use vstd::string::StringExecFns;

verus! {

/// The exact text of the report for one completed session. `algo_label` is
/// the algorithm's display name (for example an uppercased `SHA256`).
pub open spec fn spec_report(
    algo_label: Seq<char>,
    standard_hash: Seq<char>,
    binding_hash: Seq<char>,
    target_filename: Seq<char>,
    timestamp: Seq<char>,
) -> Seq<char> {
    "--- STANDARD HASH (Bit-for-bit content) ---\n"@ + algo_label + ": "@ + standard_hash
        + "\n\n--- CUSTOM FORENSIC HASH (Binding) ---\nMethod: "@ + algo_label
        + "(Content + FileName + Timestamp)\nHash:   "@ + binding_hash
        + "\n\n--- METADATA ---\nTarget FileName: "@ + target_filename
        + "\nNTP Timestamp:   "@ + timestamp + "\n"@
}

/// Renders the report for one completed session, label for label as the
/// existing case files expect it.
pub fn format_hash_report(
    algo_label: &str,
    standard_hash: &str,
    binding_hash: &str,
    target_filename: &str,
    timestamp: &str,
) -> (r: String)
    ensures
        r@ == spec_report(algo_label@, standard_hash@, binding_hash@, target_filename@,
            timestamp@),
{
    let mut out = "--- STANDARD HASH (Bit-for-bit content) ---\n".to_owned();
    out.append(algo_label);
    out.append(": ");
    out.append(standard_hash);
    out.append("\n\n--- CUSTOM FORENSIC HASH (Binding) ---\nMethod: ");
    out.append(algo_label);
    out.append("(Content + FileName + Timestamp)\nHash:   ");
    out.append(binding_hash);
    out.append("\n\n--- METADATA ---\nTarget FileName: ");
    out.append(target_filename);
    out.append("\nNTP Timestamp:   ");
    out.append(timestamp);
    out.append("\n");
    assert(out@ =~= spec_report(algo_label@, standard_hash@, binding_hash@, target_filename@,
        timestamp@));
    out
}

} // verus!
