//! The plugin host's rules: which request a plugin accepts, which formats
//! the built-in importer reads, and what happens to a plugin's answer (a
//! returned patch is validated and, unless this is a dry run, applied;
//! returned bytes are written to the output path when one was given).

use vstd::prelude::*;

use crate::error::OpenCadError;

verus! {

/// A parsed JSON document, as serde_json represents it.
#[verifier::external_type_specification]
#[verifier::external_body]
pub struct ExJsonValue(serde_json::Value);

/// What `serde_json` gives for `text`: the parsed value when it accepts the
/// text, and otherwise the text of its error (which names the line and
/// column where parsing stopped).
pub uninterp spec fn json_parse(text: Seq<char>) -> Result<serde_json::Value, Seq<char>>;

/// `serde_json::from_str` into a `serde_json::Value`.  Trusted: the outcome
/// is `json_parse` of the text, a rejection carrying its error's `Display`
/// text; both depend on the text alone.
#[verifier::external_body]
fn parse_json_value(text: &str) -> (r: Result<serde_json::Value, String>)
    ensures
        match r {
            Ok(v) => json_parse(text@) matches Ok(w) && w == v,
            Err(m) => json_parse(text@) matches Err(d) && d == m@,
        },
{
    match serde_json::from_str::<serde_json::Value>(text) {
        Ok(value) => Ok(value),
        Err(err) => Err(err.to_string()),
    }
}

/// Parse the text of a plugin request: the value `serde_json` parses from
/// it, or a validation error that carries the parser's message.
pub fn parse_plugin_request(text: &str) -> (r: Result<serde_json::Value, OpenCadError>)
    ensures
        match json_parse(text@) {
            Ok(value) => r matches Ok(v) && v == value,
            Err(detail) => r matches Err(OpenCadError::Validation(m)) && m@ == "invalid plugin request JSON: "@
                + detail,
        },
{
    match parse_json_value(text) {
        Ok(value) => Ok(value),
        Err(detail) => {
            let mut message = "invalid plugin request JSON: ".to_owned();
            message.push_str(detail.as_str());
            Err(OpenCadError::Validation(message))
        },
    }
}

/// The host's next step after a plugin invocation.
#[derive(Debug, Clone, PartialEq, Eq)]
pub enum PluginFollowUp {
    /// Validate the returned patch against the document, and apply and save
    /// it when `apply` is set.
    ValidatePatch { apply: bool },
    /// Write the returned bytes to `path`.
    WriteOutput { path: String },
    /// Nothing more to do.
    Nothing,
}

/// Decide the follow-up for an invocation that returned a patch
/// (`returned_patch`) or bytes (`returned_data`).
pub fn plugin_follow_up(
    returned_patch: bool,
    returned_data: bool,
    dry_run: bool,
    output: Option<&str>,
) -> (r: Result<PluginFollowUp, OpenCadError>)
    ensures
        returned_patch && output is Some ==> (r matches Err(OpenCadError::Validation(m)) && m@
            == "patch plugin invocation cannot use an output path"@),
        returned_patch && output is None ==> r == Ok::<PluginFollowUp, OpenCadError>(
            PluginFollowUp::ValidatePatch { apply: !dry_run },
        ),
        !returned_patch && returned_data && output is Some ==> (r matches Ok(
            PluginFollowUp::WriteOutput { path },
        ) && path@ == output.unwrap()@),
        !returned_patch && !(returned_data && output is Some) ==> r == Ok::<
            PluginFollowUp,
            OpenCadError,
        >(PluginFollowUp::Nothing),
{
    if returned_patch {
        if output.is_some() {
            return Err(OpenCadError::validation("patch plugin invocation cannot use an output path"));
        }
        return Ok(PluginFollowUp::ValidatePatch { apply: !dry_run });
    }
    if returned_data {
        if let Some(path) = output {
            return Ok(PluginFollowUp::WriteOutput { path: path.to_owned() });
        }
    }
    Ok(PluginFollowUp::Nothing)
}

/// What a plugin does.
#[derive(Debug, Clone, Copy, PartialEq, Eq, Structural)]
pub enum PluginKind {
    Feature,
    Importer,
    Exporter,
}

/// The name of a plugin kind, as its `Debug` form writes it.
pub open spec fn plugin_kind_name(kind: PluginKind) -> Seq<char> {
    match kind {
        PluginKind::Feature => "Feature"@,
        PluginKind::Importer => "Importer"@,
        PluginKind::Exporter => "Exporter"@,
    }
}

fn plugin_kind_text(kind: PluginKind) -> (s: &'static str)
    ensures
        s@ == plugin_kind_name(kind),
{
    match kind {
        PluginKind::Feature => "Feature",
        PluginKind::Importer => "Importer",
        PluginKind::Exporter => "Exporter",
    }
}

/// A plugin is invoked only with a request of its own kind.
pub fn check_request_kind(plugin_id: &str, plugin_kind: PluginKind, request_kind: PluginKind) -> (r: Result<(), OpenCadError>)
    ensures
        r is Ok <==> plugin_kind == request_kind,
        r matches Err(e) ==> (e matches OpenCadError::Validation(m) && m@ == "plugin '"@ + plugin_id@
            + "' requires a "@ + plugin_kind_name(plugin_kind) + " request"@),
{
    if plugin_kind != request_kind {
        let mut m = "plugin '".to_owned();
        m.push_str(plugin_id);
        m.push_str("' requires a ");
        m.push_str(plugin_kind_text(plugin_kind));
        m.push_str(" request");
        return Err(OpenCadError::Validation(m));
    }
    Ok(())
}

/// The built-in importer reads DesignPatch JSON, named either by its own
/// format name or by its media type.
pub fn check_importer_format(format: &str) -> (r: Result<(), OpenCadError>)
    ensures
        r is Ok <==> (format@ == "designpatch-json"@ || format@ == "application/json"@),
        r matches Err(e) ==> (e matches OpenCadError::Validation(m) && m@ == "unsupported importer format '"@
            + format@ + "'"@),
{
    if !format.eq("designpatch-json") && !format.eq("application/json") {
        let mut m = "unsupported importer format '".to_owned();
        m.push_str(format);
        m.push_str("'");
        return Err(OpenCadError::Validation(m));
    }
    Ok(())
}

} // verus!
