//! Child part references inside an assembly.

use vstd::prelude::*;
use vstd::utf8::encode_utf8;

use crate::error::OpenCadError;
use crate::id::{ComponentId, DocumentId};
use crate::text::{is_blank, is_unicode_whitespace, str_contains_char, str_is_blank};

verus! {

/// Whether a component references a part or nested assembly document.
#[derive(Debug, Clone, Copy, PartialEq, Eq, Structural)]
pub enum ComponentSourceKind {
    Part,
    Assembly,
}

/// Reference to an external part document loaded at regeneration time.
#[derive(Debug, Clone)]
pub struct Component {
    pub id: ComponentId,
    /// Path to the child `.ocad` / `.ocad.d`, relative to the assembly directory.
    pub source_path: String,
    pub source_doc: DocumentId,
    pub source_kind: ComponentSourceKind,
}

/// The kind of one component of a filesystem path, as `Path::components`
/// reports it.
#[derive(Debug, Clone, Copy, PartialEq, Eq, Structural)]
pub enum PathPart {
    Prefix,
    RootDir,
    CurDir,
    ParentDir,
    Normal,
}

/// The kinds of the components that `std::path::Path::components` yields for
/// a path, in order.
pub uninterp spec fn path_parts(path: Seq<char>) -> Seq<PathPart>;

/// `std::path::Path::components`, each component reduced to its kind.
///
/// Claimed: the result is the named function `path_parts` of the path text;
/// nothing else is said of how the standard library splits a path.
#[verifier::external_body]
fn path_component_kinds(path: &str) -> (parts: Vec<PathPart>)
    ensures
        parts@ == path_parts(path@),
{
    std::path::Path::new(path).components().map(|c| match c {
        std::path::Component::Prefix(_) => PathPart::Prefix,
        std::path::Component::RootDir => PathPart::RootDir,
        std::path::Component::CurDir => PathPart::CurDir,
        std::path::Component::ParentDir => PathPart::ParentDir,
        std::path::Component::Normal(_) => PathPart::Normal,
    }).collect()
}

/// `path` with every backslash replaced by a forward slash.
pub open spec fn normalize_separators(path: Seq<char>) -> Seq<char> {
    path.map_values(|c: char| if c == '\\' { '/' } else { c })
}

/// A component that may not occur in a child path: a parent step, a root, or
/// a drive prefix.
pub open spec fn is_forbidden_part(p: PathPart) -> bool {
    p == PathPart::ParentDir || p == PathPart::RootDir || p == PathPart::Prefix
}

/// Whether the path text starts like an absolute path: with a slash, or with
/// a drive letter (its second byte is `:`).
pub open spec fn looks_absolute(normalized: Seq<char>) -> bool {
    ||| (normalized.len() > 0 && normalized[0] == '/')
    ||| (encode_utf8(normalized).len() > 1 && encode_utf8(normalized)[1] == 0x3Au8)
}

/// The lexical checks on a child path, given the kinds of its components.
pub open spec fn source_path_verdict(path: Seq<char>, parts: Seq<PathPart>) -> Option<Seq<char>> {
    let normalized = normalize_separators(path);
    if is_blank(normalized) || normalized.contains('\0') {
        Some("component source path must be a non-empty relative path"@)
    } else if looks_absolute(normalized) {
        Some("component source path '"@ + path + "' must be relative"@)
    } else if exists|i: int| 0 <= i < parts.len() && is_forbidden_part(#[trigger] parts[i]) {
        Some("component source path '"@ + path + "' contains a forbidden path component"@)
    } else {
        None
    }
}

/// `path` with backslashes replaced by forward slashes.
fn normalize_path(path: &str) -> (r: String)
    ensures
        r@ == normalize_separators(path@),
{
    let n = path.unicode_len();
    let mut out = String::new();
    let mut i: usize = 0;
    while i < n
        invariant
            n == path@.len(),
            i <= n,
            out@ =~= normalize_separators(path@.subrange(0, i as int)),
        decreases n - i,
    {
        let c = path.get_char(i);
        if c == '\\' {
            out.push('/');
        } else {
            out.push(c);
        }
        i = i + 1;
    }
    assert(path@.subrange(0, n as int) =~= path@);
    out
}

/// A validation error whose message is `prefix`, the path, then `suffix`.
fn path_error(prefix: &str, path: &str, suffix: &str) -> (e: OpenCadError)
    ensures
        e matches OpenCadError::Validation(m) && m@ == prefix@ + path@ + suffix@,
{
    let mut m = prefix.to_owned();
    m.push_str(path);
    m.push_str(suffix);
    OpenCadError::Validation(m)
}

impl Component {
    /// A component referencing a part document.
    pub fn new(id: ComponentId, source_path: &str, source_doc: DocumentId) -> (c: Self)
        ensures
            c.id == id,
            c.source_path@ == source_path@,
            c.source_doc == source_doc,
            c.source_kind == ComponentSourceKind::Part,
    {
        Component {
            id,
            source_path: source_path.to_owned(),
            source_doc,
            source_kind: ComponentSourceKind::Part,
        }
    }

    /// The lexical checks on a child path, with the kinds of the components
    /// of its normalized form given.
    pub fn check_source_path(source_path: &str, parts: &Vec<PathPart>) -> (r: Result<(), OpenCadError>)
        ensures
            match source_path_verdict(source_path@, parts@) {
                None => r is Ok,
                Some(msg) => r matches Err(OpenCadError::Validation(m)) && m@ == msg,
            },
    {
        let normalized = normalize_path(source_path);
        let ns = normalized.as_str();
        if str_is_blank(ns) || str_contains_char(ns, '\0') {
            return Err(OpenCadError::validation(
                "component source path must be a non-empty relative path",
            ));
        }
        let bytes = ns.as_bytes();
        let starts_with_slash = ns.unicode_len() > 0 && ns.get_char(0) == '/';
        if starts_with_slash || (bytes.len() > 1 && bytes[1] == 0x3Au8) {
            return Err(path_error("component source path '", source_path, "' must be relative"));
        }
        assert(!looks_absolute(ns@));
        let n = parts.len();
        let mut i: usize = 0;
        while i < n
            invariant
                n == parts@.len(),
                i <= n,
                forall|j: int| 0 <= j < i ==> !is_forbidden_part(#[trigger] parts@[j]),
                normalize_separators(source_path@) == ns@,
                !is_blank(ns@),
                !ns@.contains('\0'),
                !looks_absolute(ns@),
            decreases n - i,
        {
            let p = parts[i];
            if p == PathPart::ParentDir || p == PathPart::RootDir || p == PathPart::Prefix {
                assert(is_forbidden_part(parts@[i as int]));
                return Err(
                    path_error(
                        "component source path '",
                        source_path,
                        "' contains a forbidden path component",
                    ),
                );
            }
            i = i + 1;
        }
        Ok(())
    }

    /// Validate the lexical form of a child path before it is joined to an
    /// assembly root: it must be non-empty and relative, and may not contain
    /// parent, root, or drive-prefix components.
    pub fn validate_source_path(source_path: &str) -> (r: Result<(), OpenCadError>)
        ensures
            match source_path_verdict(
                source_path@,
                path_parts(normalize_separators(source_path@)),
            ) {
                None => r is Ok,
                Some(msg) => r matches Err(OpenCadError::Validation(m)) && m@ == msg,
            },
    {
        let normalized = normalize_path(source_path);
        let parts = path_component_kinds(normalized.as_str());
        Self::check_source_path(source_path, &parts)
    }
}

/// A child path that passes the lexical checks is a non-blank relative
/// path that starts with neither kind of slash, holds no NUL, and has no
/// parent step, root or drive prefix among its components.
pub proof fn lemma_accepted_source_path_is_relative_child(
    path: Seq<char>,
    parts: Seq<PathPart>,
    r: Result<(), OpenCadError>,
)
    requires
        match source_path_verdict(path, parts) {
            None => r is Ok,
            Some(msg) => r matches Err(OpenCadError::Validation(m)) && m@ == msg,
        },
        r is Ok,
    ensures
        !is_blank(path),
        path[0] != '/' && path[0] != '\\',
        !path.contains('\0'),
        forall|i: int|
            0 <= i < parts.len() ==> #[trigger] parts[i] != PathPart::ParentDir && parts[i] != PathPart::RootDir
                && parts[i] != PathPart::Prefix,
{
    let normalized = normalize_separators(path);
    assert(!is_blank(normalized));
    if is_blank(path) {
        assert forall|k: int| 0 <= k < normalized.len() implies is_unicode_whitespace(#[trigger] normalized[k]) by {
            assert(is_unicode_whitespace(path[k]));
        }
    }
    assert(path.len() > 0);
    assert(normalized[0] != '/');
    if path.contains('\0') {
        let k = choose|k: int| 0 <= k < path.len() && path[k] == '\0';
        assert(normalized[k] == '\0');
    }
    assert forall|i: int| 0 <= i < parts.len() implies #[trigger] parts[i] != PathPart::ParentDir && parts[i]
        != PathPart::RootDir && parts[i] != PathPart::Prefix by {
        assert(!is_forbidden_part(parts[i]));
    }
}

} // verus!
