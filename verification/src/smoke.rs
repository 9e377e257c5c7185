//! The desktop binary's headless command line, and the checks of its
//! acceptance run that do not touch the filesystem.

use vstd::prelude::*;

use crate::error::OpenCadError;

verus! {

/// The kind of design a document holds.
#[derive(Debug, Clone, Copy, PartialEq, Eq, Structural)]
pub enum DocumentKind {
    Part,
    Assembly,
    Drawing,
}

/// The name of a document kind, as its `Debug` form writes it.
pub open spec fn kind_name(kind: DocumentKind) -> Seq<char> {
    match kind {
        DocumentKind::Part => "Part"@,
        DocumentKind::Assembly => "Assembly"@,
        DocumentKind::Drawing => "Drawing"@,
    }
}

fn kind_text(kind: DocumentKind) -> (s: &'static str)
    ensures
        s@ == kind_name(kind),
{
    match kind {
        DocumentKind::Part => "Part",
        DocumentKind::Assembly => "Assembly",
        DocumentKind::Drawing => "Drawing",
    }
}

/// Accept only part documents for `operation`.
pub fn ensure_part_document(kind: DocumentKind, operation: &str) -> (r: Result<(), OpenCadError>)
    ensures
        r is Ok <==> kind == DocumentKind::Part,
        r matches Err(e) ==> e matches OpenCadError::Validation(m) && m@ == operation@
            + " supports only DocumentKind::Part, got "@ + kind_name(kind),
{
    if kind != DocumentKind::Part {
        let mut message = operation.to_owned();
        message.push_str(" supports only DocumentKind::Part, got ");
        message.push_str(kind_text(kind));
        return Err(OpenCadError::Validation(message));
    }
    Ok(())
}

/// What the desktop binary does with its command-line arguments.
#[derive(Debug, Clone, PartialEq, Eq)]
pub enum HeadlessCommand {
    /// Print the version and exit successfully.
    Version,
    /// Run the acceptance flow on a copy of `source` made in `work_dir`.
    SmokeTest { source: String, work_dir: String },
    /// Print the usage of `--smoke-test` and exit with status 2.
    SmokeUsage,
    /// Start the graphical interface.
    Gui,
}

/// Route the desktop binary's arguments: `--version` or `-V` alone prints
/// the version, `--smoke-test <source> <work-dir>` runs the acceptance flow,
/// any other use of `--smoke-test` is a usage error, and anything else
/// starts the interface.
pub fn headless_command(args: &[String]) -> (c: HeadlessCommand)
    ensures
        args@.len() == 1 && (args@[0]@ == "--version"@ || args@[0]@ == "-V"@) ==> c == HeadlessCommand::Version,
        args@.len() == 3 && args@[0]@ == "--smoke-test"@ ==> (c matches HeadlessCommand::SmokeTest { source, work_dir }
            && source@ == args@[1]@ && work_dir@ == args@[2]@),
        args@.len() >= 1 && args@.len() != 3 && args@[0]@ == "--smoke-test"@ ==> c == HeadlessCommand::SmokeUsage,
        !(args@.len() == 1 && (args@[0]@ == "--version"@ || args@[0]@ == "-V"@)) && !(args@.len() >= 1
            && args@[0]@ == "--smoke-test"@) ==> c == HeadlessCommand::Gui,
{
    proof {
        reveal_strlit("--version");
        reveal_strlit("-V");
        reveal_strlit("--smoke-test");
        assert("--version"@.len() != "--smoke-test"@.len());
        assert("-V"@.len() != "--smoke-test"@.len());
    }
    if args.len() == 0 {
        return HeadlessCommand::Gui;
    }
    let flag = args[0].as_str();
    if args.len() == 1 && (flag.eq("--version") || flag.eq("-V")) {
        return HeadlessCommand::Version;
    }
    if flag.eq("--smoke-test") {
        if args.len() == 3 {
            return HeadlessCommand::SmokeTest { source: args[1].clone(), work_dir: args[2].clone() };
        }
        return HeadlessCommand::SmokeUsage;
    }
    HeadlessCommand::Gui
}

/// What one step of the desktop acceptance run observed.
#[derive(Debug, Clone, PartialEq, Eq)]
pub enum SmokeEvidence {
    /// The copied document was inspected.
    Inspected { name: String, features: usize },
    /// A preview was rendered.
    Previewed { triangles: usize, vertices: usize, png_base64: String },
    /// The width parameter was read before the edit: whether it was found,
    /// whether it has a length value, and its expression.
    WidthBefore { found: bool, has_length: bool, expr: String },
    /// The width parameter was read after the edit.
    WidthAfter { found: bool, has_length: bool },
    /// The part was regenerated.
    Regenerated { regenerated: usize, triangles: usize },
    /// The preview centre was picked.
    Picked { triangles: usize, selected: bool, highlight_segments: usize },
    /// The part was exported to STL.
    Exported { triangles: usize, is_file: bool, size: u64 },
    /// The source fixture was read again and compared with its first snapshot.
    SourceRechecked { unchanged: bool },
}

/// The failure message for the evidence of a step, or `None` when the step
/// succeeded.
pub open spec fn smoke_failure(e: SmokeEvidence) -> Option<Seq<char>> {
    match e {
        SmokeEvidence::Inspected { name, features } => if name@.len() == 0 || features == 0 {
            Some("desktop smoke document must contain a named feature model"@)
        } else {
            None
        },
        SmokeEvidence::Previewed { triangles, vertices, png_base64 } => if triangles == 0 || vertices == 0
            || png_base64@.len() == 0 {
            Some("desktop smoke preview did not produce geometry and an image"@)
        } else {
            None
        },
        SmokeEvidence::WidthBefore { found, has_length, expr } => if !found {
            Some("desktop smoke requires param:width"@)
        } else if !has_length {
            Some("desktop smoke param:width has no length value"@)
        } else if expr@ != "80 mm"@ {
            Some("desktop smoke expected param:width to start at 80 mm, got '"@ + expr@ + "'"@)
        } else {
            None
        },
        SmokeEvidence::WidthAfter { found, has_length } => if !found {
            Some("edited param:width disappeared"@)
        } else if !has_length {
            Some("edited param:width has no length value"@)
        } else {
            None
        },
        SmokeEvidence::Regenerated { regenerated, triangles } => if regenerated == 0 || triangles == 0 {
            Some("desktop smoke regeneration did not produce feature and mesh evidence"@)
        } else {
            None
        },
        SmokeEvidence::Picked { triangles, selected, highlight_segments } => if triangles == 0 || !selected
            || highlight_segments == 0 {
            Some("desktop smoke pick did not select geometry with highlight evidence"@)
        } else {
            None
        },
        SmokeEvidence::Exported { triangles, is_file, size } => if triangles == 0 || !is_file || size <= 84 {
            Some("desktop smoke export did not produce a non-empty binary STL"@)
        } else {
            None
        },
        SmokeEvidence::SourceRechecked { unchanged } => if !unchanged {
            Some("desktop smoke modified the source fixture"@)
        } else {
            None
        },
    }
}

/// Judge the evidence of one step of the acceptance run.
pub fn check_smoke_evidence(evidence: &SmokeEvidence) -> (r: Result<(), OpenCadError>)
    ensures
        match smoke_failure(*evidence) {
            None => r is Ok,
            Some(m) => r matches Err(OpenCadError::Validation(x)) && x@ == m,
        },
{
    match evidence {
        SmokeEvidence::Inspected { name, features } => {
            if name.unicode_len() == 0 || *features == 0 {
                return Err(OpenCadError::validation("desktop smoke document must contain a named feature model"));
            }
        },
        SmokeEvidence::Previewed { triangles, vertices, png_base64 } => {
            if *triangles == 0 || *vertices == 0 || png_base64.unicode_len() == 0 {
                return Err(OpenCadError::validation("desktop smoke preview did not produce geometry and an image"));
            }
        },
        SmokeEvidence::WidthBefore { found, has_length, expr } => {
            if !*found {
                return Err(OpenCadError::validation("desktop smoke requires param:width"));
            }
            if !*has_length {
                return Err(OpenCadError::validation("desktop smoke param:width has no length value"));
            }
            if !expr.as_str().eq("80 mm") {
                let mut m = "desktop smoke expected param:width to start at 80 mm, got '".to_owned();
                m.push_str(expr.as_str());
                m.push_str("'");
                return Err(OpenCadError::Validation(m));
            }
        },
        SmokeEvidence::WidthAfter { found, has_length } => {
            if !*found {
                return Err(OpenCadError::validation("edited param:width disappeared"));
            }
            if !*has_length {
                return Err(OpenCadError::validation("edited param:width has no length value"));
            }
        },
        SmokeEvidence::Regenerated { regenerated, triangles } => {
            if *regenerated == 0 || *triangles == 0 {
                return Err(OpenCadError::validation(
                    "desktop smoke regeneration did not produce feature and mesh evidence",
                ));
            }
        },
        SmokeEvidence::Picked { triangles, selected, highlight_segments } => {
            if *triangles == 0 || !*selected || *highlight_segments == 0 {
                return Err(OpenCadError::validation(
                    "desktop smoke pick did not select geometry with highlight evidence",
                ));
            }
        },
        SmokeEvidence::Exported { triangles, is_file, size } => {
            if *triangles == 0 || !*is_file || *size <= 84 {
                return Err(OpenCadError::validation("desktop smoke export did not produce a non-empty binary STL"));
            }
        },
        SmokeEvidence::SourceRechecked { unchanged } => {
            if !*unchanged {
                return Err(OpenCadError::validation("desktop smoke modified the source fixture"));
            }
        },
    }
    Ok(())
}

/// What decoding `text` as standard, padded base64 gives: the bytes, or the
/// decoder's error message.
pub uninterp spec fn standard_base64(text: Seq<char>) -> Result<Seq<u8>, Seq<char>>;

/// `base64::engine::general_purpose::STANDARD.decode`: the result is the
/// named function `standard_base64` of the text, the error as the decoder's
/// `Display` text; nothing else is claimed of the decoding.
#[verifier::external_body]
fn decode_standard_base64(text: &str) -> (r: Result<Vec<u8>, String>)
    ensures
        match standard_base64(text@) {
            Ok(bytes) => r matches Ok(b) && b@ == bytes,
            Err(message) => r matches Err(m) && m@ == message,
        },
{
    match base64::Engine::decode(&base64::engine::general_purpose::STANDARD, text) {
        Ok(bytes) => Ok(bytes),
        Err(err) => Err(err.to_string()),
    }
}

/// The PNG bytes of a rendered preview, decoded from its base64 text.
pub fn decode_preview_png(png_base64: &str) -> (r: Result<Vec<u8>, OpenCadError>)
    ensures
        match standard_base64(png_base64@) {
            Ok(bytes) => r matches Ok(b) && b@ == bytes,
            Err(message) => r matches Err(OpenCadError::Validation(m)) && m@ == "invalid preview base64: "@ + message,
        },
{
    match decode_standard_base64(png_base64) {
        Ok(bytes) => Ok(bytes),
        Err(message) => {
            let mut m = "invalid preview base64: ".to_owned();
            m.push_str(message.as_str());
            Err(OpenCadError::Validation(m))
        },
    }
}

/// A step of the acceptance run passes exactly on evidence that the work was
/// done: what `check_smoke_evidence` accepts is what shows a named model with
/// features, a preview with geometry and an image, the width found with a
/// length (first at 80 mm), regenerated features with mesh triangles, a pick
/// that selected geometry with highlight segments, a non-empty binary STL
/// file, and an untouched source fixture.
pub proof fn lemma_accepted_evidence_is_real(evidence: SmokeEvidence, r: Result<(), OpenCadError>)
    requires
        match smoke_failure(evidence) {
            None => r is Ok,
            Some(m) => r matches Err(OpenCadError::Validation(x)) && x@ == m,
        },
    ensures
        r is Ok <==> match evidence {
            SmokeEvidence::Inspected { name, features } => name@.len() > 0 && features > 0,
            SmokeEvidence::Previewed { triangles, vertices, png_base64 } => triangles > 0 && vertices > 0
                && png_base64@.len() > 0,
            SmokeEvidence::WidthBefore { found, has_length, expr } => found && has_length && expr@ == "80 mm"@,
            SmokeEvidence::WidthAfter { found, has_length } => found && has_length,
            SmokeEvidence::Regenerated { regenerated, triangles } => regenerated > 0 && triangles > 0,
            SmokeEvidence::Picked { triangles, selected, highlight_segments } => triangles > 0 && selected
                && highlight_segments > 0,
            SmokeEvidence::Exported { triangles, is_file, size } => triangles > 0 && is_file && size > 84,
            SmokeEvidence::SourceRechecked { unchanged } => unchanged,
        },
        r is Err ==> r matches Err(OpenCadError::Validation(_)),
{
}

/// Regeneration evidence without mesh triangles, or without regenerated
/// features, is refused with the regeneration message.
pub proof fn lemma_regeneration_needs_features_and_mesh(regenerated: usize, triangles: usize, r: Result<(), OpenCadError>)
    requires
        match smoke_failure(SmokeEvidence::Regenerated { regenerated, triangles }) {
            None => r is Ok,
            Some(m) => r matches Err(OpenCadError::Validation(x)) && x@ == m,
        },
        regenerated == 0 || triangles == 0,
    ensures
        r matches Err(OpenCadError::Validation(x)) && x@
            == "desktop smoke regeneration did not produce feature and mesh evidence"@,
{
}

} // verus!
