//! The results of export and regeneration commands, and the text the CLI
//! prints for an export.

use vstd::prelude::*;

use crate::text::{decimal, push_decimal};

verus! {

/// What an STL export produced.
#[derive(Debug, Clone, PartialEq, Eq)]
pub struct ExportSummary {
    pub format: String,
    pub triangles: usize,
    pub output: String,
}

/// What regenerating a part produced.
#[derive(Debug, Clone, PartialEq, Eq)]
pub struct DocumentRegeneration {
    pub kernel: String,
    pub regenerated: Vec<String>,
    pub skipped_suppressed: Vec<String>,
    pub triangles: usize,
}

/// The lines printed for an export: output path, format and triangle count.
pub open spec fn export_summary_text(output: Seq<char>, format: Seq<char>, triangles: nat) -> Seq<char> {
    "exported: "@ + output + "\nformat: "@ + format + "\ntriangles: "@ + decimal(triangles) + "\n"@
}

impl ExportSummary {
    /// The text the CLI prints for this export.
    pub fn summary_text(&self) -> (s: String)
        ensures
            s@ == export_summary_text(self.output@, self.format@, self.triangles as nat),
    {
        let mut s = "exported: ".to_owned();
        s.push_str(self.output.as_str());
        s.push_str("\nformat: ");
        s.push_str(self.format.as_str());
        s.push_str("\ntriangles: ");
        push_decimal(&mut s, self.triangles as u64);
        s.push_str("\n");
        s
    }
}

} // verus!
