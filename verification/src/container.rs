//! The file layout of a document container: which serialized part of a
//! document is stored under which path, how the checksum manifest covers
//! them, and how a part is looked up again.

use vstd::prelude::*;

use crate::checksums::{
    adjacent_in_order, lemma_lookup_unique, all_entries_hold, file_paths, files_view, first_smaller_at, lemma_computed_manifest_verifies,
    lemma_paths_in_order, lookup, manifest_entries, paths_in_order, paths_unique, ChecksumManifest,
};
use crate::error::OpenCadError;

verus! {

/// The container manifest.
pub const MANIFEST_FILE: &'static str = "manifest.ocad.json";
/// The document metadata envelope.
pub const DOCUMENT_FILE: &'static str = "document.ocad.json";
/// The checksum manifest of all other files.
pub const CHECKSUMS_FILE: &'static str = "checksums.json";
/// The parameter graph.
pub const PARAMETERS_FILE: &'static str = "graph/parameters.json";
/// The sketches.
pub const SKETCHES_FILE: &'static str = "graph/sketches.json";
/// The sketch constraints, by sketch.
pub const CONSTRAINTS_FILE: &'static str = "graph/constraints.json";
/// The drawings.
pub const DRAWINGS_FILE: &'static str = "graph/drawings.json";
/// The feature graph and its nodes.
pub const FEATURES_FILE: &'static str = "graph/features.json";
/// The assemblies.
pub const ASSEMBLIES_FILE: &'static str = "graph/assemblies.json";
/// The materials.
pub const MATERIALS_FILE: &'static str = "graph/materials.json";
/// The semantic topology references.
pub const SEMANTIC_REFS_FILE: &'static str = "graph/semantic_refs.json";

/// The serialized parts of a document, one canonical JSON text each.
#[derive(Debug, Clone, PartialEq, Eq)]
pub struct DocumentParts {
    pub manifest: Vec<u8>,
    pub document: Vec<u8>,
    pub parameters: Vec<u8>,
    pub sketches: Vec<u8>,
    pub constraints: Vec<u8>,
    pub drawings: Vec<u8>,
    pub features: Vec<u8>,
    pub assemblies: Vec<u8>,
    pub materials: Vec<u8>,
    pub semantic_refs: Vec<u8>,
}

/// The files of a container, in path order, before the checksum manifest
/// is added.
pub open spec fn layout_spec(p: DocumentParts) -> Seq<(Seq<char>, Seq<u8>)> {
    seq![
        (DOCUMENT_FILE@, p.document@),
        (ASSEMBLIES_FILE@, p.assemblies@),
        (CONSTRAINTS_FILE@, p.constraints@),
        (DRAWINGS_FILE@, p.drawings@),
        (FEATURES_FILE@, p.features@),
        (MATERIALS_FILE@, p.materials@),
        (PARAMETERS_FILE@, p.parameters@),
        (SEMANTIC_REFS_FILE@, p.semantic_refs@),
        (SKETCHES_FILE@, p.sketches@),
        (MANIFEST_FILE@, p.manifest@),
    ]
}

/// The files of a container for `parts`, in path order, and the checksum
/// manifest that covers them; the manifest itself is stored under
/// [`CHECKSUMS_FILE`].
pub fn layout_document_files(parts: DocumentParts) -> (r: (Vec<(String, Vec<u8>)>, ChecksumManifest))
    ensures
        files_view(r.0@) == layout_spec(parts),
        r.1.algorithm@ == "sha256"@,
        crate::checksums::entries_view(r.1.files@) == manifest_entries(layout_spec(parts)),
        paths_in_order(file_paths(layout_spec(parts))),
        r.1.well_formed(),
        stores_parts(files_view(r.0@), parts),
{
    let ghost p = parts;
    let DocumentParts {
        manifest,
        document,
        parameters,
        sketches,
        constraints,
        drawings,
        features,
        assemblies,
        materials,
        semantic_refs,
    } = parts;
    let mut files: Vec<(String, Vec<u8>)> = Vec::new();
    files.push((DOCUMENT_FILE.to_owned(), document));
    files.push((ASSEMBLIES_FILE.to_owned(), assemblies));
    files.push((CONSTRAINTS_FILE.to_owned(), constraints));
    files.push((DRAWINGS_FILE.to_owned(), drawings));
    files.push((FEATURES_FILE.to_owned(), features));
    files.push((MATERIALS_FILE.to_owned(), materials));
    files.push((PARAMETERS_FILE.to_owned(), parameters));
    files.push((SEMANTIC_REFS_FILE.to_owned(), semantic_refs));
    files.push((SKETCHES_FILE.to_owned(), sketches));
    files.push((MANIFEST_FILE.to_owned(), manifest));
    assert(files_view(files@) =~= layout_spec(p));
    proof {
        lemma_layout_in_order(p);
        lemma_layout_stores_each_part(p);
    }
    let checksums = ChecksumManifest::compute(&files);
    (files, checksums)
}

/// The bytes stored under `path`, which must be present.
pub fn required_file<'a>(files: &'a Vec<(String, Vec<u8>)>, path: &str) -> (r: Result<&'a Vec<u8>, OpenCadError>)
    ensures
        match lookup(files_view(files@), path@) {
            Some(bytes) => r matches Ok(b) && b@ == bytes,
            None => r matches Err(OpenCadError::NotFound(m)) && m@ == "missing file '"@ + path@ + "'"@,
        },
{
    match crate::checksums::find_file(files, path) {
        Some(bytes) => Ok(bytes),
        None => {
            let mut m = "missing file '".to_owned();
            m.push_str(path);
            m.push_str("'");
            Err(OpenCadError::NotFound(m))
        },
    }
}

/// Whether `files` hold each part of `p` under that part's own path.
pub open spec fn stores_parts(files: Seq<(Seq<char>, Seq<u8>)>, p: DocumentParts) -> bool {
    &&& lookup(files, MANIFEST_FILE@) == Some(p.manifest@)
    &&& lookup(files, DOCUMENT_FILE@) == Some(p.document@)
    &&& lookup(files, PARAMETERS_FILE@) == Some(p.parameters@)
    &&& lookup(files, SKETCHES_FILE@) == Some(p.sketches@)
    &&& lookup(files, CONSTRAINTS_FILE@) == Some(p.constraints@)
    &&& lookup(files, DRAWINGS_FILE@) == Some(p.drawings@)
    &&& lookup(files, FEATURES_FILE@) == Some(p.features@)
    &&& lookup(files, ASSEMBLIES_FILE@) == Some(p.assemblies@)
    &&& lookup(files, MATERIALS_FILE@) == Some(p.materials@)
    &&& lookup(files, SEMANTIC_REFS_FILE@) == Some(p.semantic_refs@)
}

/// Every part of a document is stored under its own path: looking a part's
/// path up in the container's files gives back exactly that part.
pub proof fn lemma_layout_stores_each_part(p: DocumentParts)
    ensures
        stores_parts(layout_spec(p), p),
{
    lemma_layout_verifies(p);
    let l = layout_spec(p);
    assert forall|k: int| 0 <= k < l.len() implies lookup(l, #[trigger] l[k].0) == Some(l[k].1) by {
        lemma_lookup_unique(l, k);
    }
    assert(lookup(l, l[0].0) == Some(l[0].1));
    assert(lookup(l, l[1].0) == Some(l[1].1));
    assert(lookup(l, l[2].0) == Some(l[2].1));
    assert(lookup(l, l[3].0) == Some(l[3].1));
    assert(lookup(l, l[4].0) == Some(l[4].1));
    assert(lookup(l, l[5].0) == Some(l[5].1));
    assert(lookup(l, l[6].0) == Some(l[6].1));
    assert(lookup(l, l[7].0) == Some(l[7].1));
    assert(lookup(l, l[8].0) == Some(l[8].1));
    assert(lookup(l, l[9].0) == Some(l[9].1));
}

/// The container's paths come in strictly increasing order, as the keys of a
/// map keyed by path do.
pub proof fn lemma_layout_in_order(p: DocumentParts)
    ensures
        paths_in_order(file_paths(layout_spec(p))),
{
    reveal_strlit("document.ocad.json");
    reveal_strlit("graph/assemblies.json");
    reveal_strlit("graph/constraints.json");
    reveal_strlit("graph/drawings.json");
    reveal_strlit("graph/features.json");
    reveal_strlit("graph/materials.json");
    reveal_strlit("graph/parameters.json");
    reveal_strlit("graph/semantic_refs.json");
    reveal_strlit("graph/sketches.json");
    reveal_strlit("manifest.ocad.json");
    let paths = file_paths(layout_spec(p));
    assert(first_smaller_at(paths[0], paths[1], 0));
    assert(first_smaller_at(paths[1], paths[2], 6));
    assert(first_smaller_at(paths[2], paths[3], 6));
    assert(first_smaller_at(paths[3], paths[4], 6));
    assert(first_smaller_at(paths[4], paths[5], 6));
    assert(first_smaller_at(paths[5], paths[6], 6));
    assert(first_smaller_at(paths[6], paths[7], 6));
    assert(first_smaller_at(paths[7], paths[8], 7));
    assert(first_smaller_at(paths[8], paths[9], 0));
    assert forall|k: int| 0 <= k < paths.len() - 1 implies #[trigger] adjacent_in_order(paths, k) by {
        assert(0 <= k <= 8);
    }
    lemma_paths_in_order(paths);
}

/// The container layout stores every part under its own path, so the
/// checksum manifest computed for it verifies against it.
pub proof fn lemma_layout_verifies(p: DocumentParts)
    ensures
        paths_unique(layout_spec(p)),
        all_entries_hold(manifest_entries(layout_spec(p)), layout_spec(p)),
{
    reveal_strlit("document.ocad.json");
    reveal_strlit("graph/assemblies.json");
    reveal_strlit("graph/constraints.json");
    reveal_strlit("graph/drawings.json");
    reveal_strlit("graph/features.json");
    reveal_strlit("graph/materials.json");
    reveal_strlit("graph/parameters.json");
    reveal_strlit("graph/semantic_refs.json");
    reveal_strlit("graph/sketches.json");
    reveal_strlit("manifest.ocad.json");
    let l = layout_spec(p);
    assert forall|i: int, j: int| 0 <= i < j < l.len() implies l[i].0 != l[j].0 by {
        if l[i].0.len() == l[j].0.len() {
            assert(l[i].0[6] != l[j].0[6] || l[i].0[7] != l[j].0[7] || l[i].0[0] != l[j].0[0]);
        }
    }
    lemma_computed_manifest_verifies(l);
}

} // verus!
