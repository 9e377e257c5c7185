use opencad::checksums::{sha256_hex, ChecksumManifest};
use opencad::component::{Component, ComponentSourceKind};
use opencad::container::{layout_document_files, required_file, DocumentParts};
use opencad::error::OpenCadError;
use opencad::id::{ComponentId, DocumentId};
use opencad::stl::stl_header;
use opencad::stl::binary_stl_bytes;

fn files(entries: &[(&str, &[u8])]) -> Vec<(String, Vec<u8>)> {
    entries.iter().map(|(path, bytes)| (path.to_string(), bytes.to_vec())).collect()
}

#[test]
fn sha256_is_deterministic() {
    let a = sha256_hex(b"opencad");
    let b = sha256_hex(b"opencad");
    assert_eq!(a, b);
    assert_eq!(a.len(), 64);
}

#[test]
fn sha256_hex_matches_known_digests() {
    assert_eq!(sha256_hex(b""), "e3b0c44298fc1c149afbf4c8996fb92427ae41e4649b934ca495991b7852b855");
    assert_eq!(sha256_hex(b"abc"), "ba7816bf8f01cfea414140de5dae2223b00361a396177a9cb410ff61f20015ad");
}

#[test]
fn checksum_manifest_round_trip() {
    let files = files(&[("graph/sketches.json", br#"{"sketches":[]}"#)]);
    let manifest = ChecksumManifest::compute(&files);
    manifest.verify(&files).expect("verify");
}

#[test]
fn manifest_lists_every_file_with_its_checksum() {
    let files = files(&[("a.json", b"{}"), ("b.json", b"[]")]);
    let manifest = ChecksumManifest::compute(&files);
    assert_eq!(manifest.algorithm, "sha256");
    assert_eq!(manifest.files.len(), 2);
    assert_eq!(manifest.files[0].0, "a.json");
    assert_eq!(manifest.files[0].1, sha256_hex(b"{}"));
    assert_eq!(manifest.files[1].0, "b.json");
}

#[test]
fn tampered_file_fails_verification() {
    let original = files(&[("graph/sketches.json", br#"{"sketches":[1]}"#)]);
    let manifest = ChecksumManifest::compute(&original);
    let tampered = files(&[("graph/sketches.json", br#"{"sketches":[]}"#)]);
    match manifest.verify(&tampered) {
        Err(OpenCadError::ChecksumMismatch { expected, actual }) => {
            assert_eq!(expected, sha256_hex(br#"{"sketches":[1]}"#));
            assert_eq!(actual, sha256_hex(br#"{"sketches":[]}"#));
        }
        _ => panic!("tampered bytes must fail"),
    }
}

#[test]
fn missing_file_fails_verification() {
    let original = files(&[("checked.json", b"1")]);
    let manifest = ChecksumManifest::compute(&original);
    let error = manifest.verify(&files(&[("other.json", b"1")])).expect_err("missing");
    assert_eq!(error.to_message(), "validation failed: checksum entry missing file 'checked.json'");
}

#[test]
fn stl_header_holds_the_name_then_zeros() {
    let header = stl_header("box");
    assert_eq!(&header[..3], b"box");
    assert!(header[3..].iter().all(|b| *b == 0));
    let long = "x".repeat(100);
    let header = stl_header(&long);
    assert!(header.iter().all(|b| *b == b'x'));
}

#[test]
fn source_path_rejects_absolute_and_parent_paths() {
    assert!(Component::validate_source_path("../outside.ocad.d").is_err());
    assert!(Component::validate_source_path("/tmp/outside.ocad.d").is_err());
    assert!(Component::validate_source_path("C:/outside.ocad.d").is_err());
    assert!(Component::validate_source_path("parts/bracket.ocad.d").is_ok());
}

#[test]
fn source_path_errors_name_the_rule() {
    let error = Component::validate_source_path("  ").expect_err("blank");
    assert_eq!(
        error.to_message(),
        "validation failed: component source path must be a non-empty relative path"
    );
    let error = Component::validate_source_path("parts\\..\\x").expect_err("parent");
    assert_eq!(
        error.to_message(),
        "validation failed: component source path 'parts\\..\\x' contains a forbidden path component"
    );
}

#[test]
fn component_new_references_a_part() {
    let component = Component::new(
        ComponentId::new("component:bracket"),
        "parts/bracket.ocad.d",
        DocumentId::new("doc:bracket_001"),
    );
    assert_eq!(component.source_kind, ComponentSourceKind::Part);
    assert_eq!(component.source_path, "parts/bracket.ocad.d");
    assert_eq!(component.id.as_str(), "component:bracket");
    assert_eq!(component.source_doc.as_str(), "doc:bracket_001");
}

#[test]
fn binary_stl_lays_out_header_count_and_records() {
    let one = 1.0f32.to_bits();
    let vertices = [[0, 0, 0], [one, 0, 0], [0, one, 0]];
    let normals = [[0, 0, one]];
    let bytes = binary_stl_bytes("box", &vertices, &[0, 1, 2], &normals).expect("stl");
    assert_eq!(bytes.len(), 84 + 50);
    assert_eq!(&bytes[..3], b"box");
    assert_eq!(u32::from_le_bytes(bytes[80..84].try_into().unwrap()), 1);
    assert_eq!(f32::from_le_bytes(bytes[92..96].try_into().unwrap()), 1.0);
    assert_eq!(f32::from_le_bytes(bytes[108..112].try_into().unwrap()), 1.0);
    assert_eq!(&bytes[132..134], &[0, 0]);
}

#[test]
fn binary_stl_refuses_partial_meshes() {
    for indices in [&[][..], &[0, 1][..], &[0, 1, 2, 0][..]] {
        let error = binary_stl_bytes("m", &[[0, 0, 0]; 3], indices, &[]).expect_err("partial");
        assert_eq!(error.to_message(), "validation failed: mesh must contain at least one triangle");
    }
}

#[test]
fn export_summary_prints_path_format_and_count() {
    let summary = opencad::export::ExportSummary { format: "stl".into(), triangles: 1204, output: "out/bracket.stl".into() };
    assert_eq!(summary.summary_text(), "exported: out/bracket.stl\nformat: stl\ntriangles: 1204\n");
}

#[test]
fn container_layout_orders_files_by_path_and_checksums_them() {
    let parts = DocumentParts {
        manifest: b"m".to_vec(),
        document: b"d".to_vec(),
        parameters: b"p".to_vec(),
        sketches: b"s".to_vec(),
        constraints: b"c".to_vec(),
        drawings: b"w".to_vec(),
        features: b"f".to_vec(),
        assemblies: b"a".to_vec(),
        materials: b"t".to_vec(),
        semantic_refs: b"r".to_vec(),
    };
    let (files, manifest) = layout_document_files(parts);
    let paths: Vec<&str> = files.iter().map(|(p, _)| p.as_str()).collect();
    let mut sorted = paths.clone();
    sorted.sort();
    assert_eq!(paths, sorted);
    assert_eq!(paths.len(), 10);
    manifest.verify(&files).expect("layout verifies");
    assert_eq!(required_file(&files, "graph/sketches.json").unwrap(), &b"s".to_vec());
    assert_eq!(required_file(&files, "graph/drawings.json").unwrap(), &b"w".to_vec());
    let error = required_file(&files, "graph/views.json").expect_err("missing");
    assert_eq!(error.to_message(), "not found: missing file 'graph/views.json'");
}
