use opencad::document::DocumentMetadata;
use opencad::id::{DocumentId, TopoRefId};
use opencad::refs::{edge_selector_for_face_ref, EdgeSelection, GeometricFingerprint, TopoRef};
use opencad::topology::TopoRefKind;
use opencad::parameters::{is_angle_parameter, parameter_hints};
use opencad::smoke::{
    check_smoke_evidence, decode_preview_png, ensure_part_document, headless_command, DocumentKind,
    HeadlessCommand, SmokeEvidence,
};

#[test]
fn angle_parameters_are_recognised_by_name() {
    assert!(is_angle_parameter("revolve_angle"));
    assert!(is_angle_parameter("twist_deg"));
    assert!(is_angle_parameter("sweep_rad"));
    assert!(!is_angle_parameter("width"));
    assert!(!is_angle_parameter("rad_width"));
    assert!(!is_angle_parameter("_de"));
}

#[test]
fn parameter_hints_follow_the_kind_of_parameter() {
    let (unit, example) = parameter_hints("revolve_angle");
    assert_eq!(unit.as_deref(), Some("deg or rad"));
    assert_eq!(example.as_deref(), Some("180 deg"));
    let (unit, example) = parameter_hints("width");
    assert_eq!(unit.as_deref(), Some("mm, m, or names"));
    assert_eq!(example.as_deref(), Some("80 mm"));
}

#[test]
fn metadata_records_the_creating_version() {
    let metadata = DocumentMetadata::new(DocumentId::new("doc:test"), "Test Part");
    assert_eq!(metadata.name, "Test Part");
    assert_eq!(metadata.id.as_str(), "doc:test");
    assert_eq!(metadata.created_with, "OpenCAD 0.1.0");
}

#[test]
fn only_part_documents_are_accepted() {
    for kind in [DocumentKind::Assembly, DocumentKind::Drawing] {
        let error = ensure_part_document(kind, "smoke").expect_err("non-part kind");
        assert!(error.to_message().contains("only DocumentKind::Part"));
    }
    ensure_part_document(DocumentKind::Part, "smoke").expect("part kind");
    let error = ensure_part_document(DocumentKind::Drawing, "desktop smoke").expect_err("drawing");
    assert_eq!(
        error.to_message(),
        "validation failed: desktop smoke supports only DocumentKind::Part, got Drawing"
    );
}

#[test]
fn identity_excludes_kernel_and_geometric_hints() {
    let mut first = TopoRef::face(TopoRefId::new("ref:face:base_top"), "feature:extrude", "top");
    first.semantic.intent = Some("mounting face".into());
    let mut second = first.clone();
    second.geometric_fingerprint = Some(GeometricFingerprint {
        surface_type: "brep_face".into(),
        kernel_face_id: Some(42),
        kernel_edge_id: None,
        area_range_bits: Some([0.01f64.to_bits(), 0.02f64.to_bits()]),
        bbox_hint_bits: Some([[0; 3], [0.01f64.to_bits(); 3]]),
        adjacent_feature_ids: vec!["feature:fillet".into()],
    });
    second.semantic.normal_hint_bits = Some([0, 0, 1.0f64.to_bits()]);
    assert_eq!(first.identity(), second.identity());
    assert_eq!(first.identity(), first.semantic_identity());
    assert_ne!(first, second);
}

#[test]
fn kernel_references_carry_their_kernel_ids() {
    let face = TopoRef::kernel_face(TopoRefId::new("ref:face:bracket_top"), "feature:extrude_base", "top", 42, [0, 0, 1.0f64.to_bits()]);
    assert_eq!(face.kernel_face_id(), Some(42));
    assert_eq!(face.kernel_edge_id(), None);
    assert_eq!(face.kind, TopoRefKind::Face);
    assert_eq!(face.identity().created_by, "feature:extrude_base");
    let edge = TopoRef::kernel_edge(TopoRefId::new("ref:edge:e"), "feature:f", "rim", 7, [1, 2, 3], [4, 5, 6]);
    assert_eq!(edge.kernel_edge_id(), Some(7));
    assert_eq!(edge.kernel_face_id(), None);
    assert_eq!(edge.geometric_fingerprint.as_ref().unwrap().bbox_hint_bits, Some([[1, 2, 3], [4, 5, 6]]));
    let plain = TopoRef::edge(TopoRefId::new("ref:edge:p"), "feature:f", "rim");
    assert_eq!(plain.kernel_edge_id(), None);
}

#[test]
fn desktop_arguments_route_to_version_smoke_or_gui() {
    let args = |v: &[&str]| v.iter().map(|s| s.to_string()).collect::<Vec<_>>();
    assert_eq!(headless_command(&args(&["--version"])), HeadlessCommand::Version);
    assert_eq!(headless_command(&args(&["-V"])), HeadlessCommand::Version);
    assert_eq!(
        headless_command(&args(&["--smoke-test", "src.ocad.d", "work"])),
        HeadlessCommand::SmokeTest { source: "src.ocad.d".into(), work_dir: "work".into() }
    );
    assert_eq!(headless_command(&args(&["--smoke-test", "src.ocad.d"])), HeadlessCommand::SmokeUsage);
    assert_eq!(headless_command(&args(&["--smoke-test"])), HeadlessCommand::SmokeUsage);
    assert_eq!(headless_command(&args(&["--version", "extra"])), HeadlessCommand::Gui);
    assert_eq!(headless_command(&args(&[])), HeadlessCommand::Gui);
}

#[test]
fn smoke_evidence_is_judged_step_by_step() {
    let fails = |e: SmokeEvidence| check_smoke_evidence(&e).expect_err("failure").to_message();
    assert!(check_smoke_evidence(&SmokeEvidence::Inspected { name: "Bracket".into(), features: 3 }).is_ok());
    assert_eq!(
        fails(SmokeEvidence::Inspected { name: String::new(), features: 3 }),
        "validation failed: desktop smoke document must contain a named feature model"
    );
    assert_eq!(
        fails(SmokeEvidence::WidthBefore { found: true, has_length: true, expr: "90 mm".into() }),
        "validation failed: desktop smoke expected param:width to start at 80 mm, got '90 mm'"
    );
    assert!(check_smoke_evidence(&SmokeEvidence::WidthBefore { found: true, has_length: true, expr: "80 mm".into() }).is_ok());
    assert_eq!(
        fails(SmokeEvidence::WidthAfter { found: false, has_length: true }),
        "validation failed: edited param:width disappeared"
    );
    assert_eq!(
        fails(SmokeEvidence::Exported { triangles: 12, is_file: true, size: 84 }),
        "validation failed: desktop smoke export did not produce a non-empty binary STL"
    );
    assert!(check_smoke_evidence(&SmokeEvidence::Exported { triangles: 12, is_file: true, size: 684 }).is_ok());
    assert_eq!(
        fails(SmokeEvidence::Picked { triangles: 10, selected: false, highlight_segments: 4 }),
        "validation failed: desktop smoke pick did not select geometry with highlight evidence"
    );
    assert_eq!(
        fails(SmokeEvidence::SourceRechecked { unchanged: false }),
        "validation failed: desktop smoke modified the source fixture"
    );
}

#[test]
fn preview_png_is_decoded_from_standard_base64() {
    assert_eq!(decode_preview_png("aGVsbG8=").expect("decoded"), b"hello".to_vec());
    let error = decode_preview_png("!!!!").expect_err("invalid");
    assert_eq!(error.to_message(), "validation failed: invalid preview base64: Invalid symbol 33, offset 0.");
}

#[test]
fn face_ref_without_kernel_id_falls_back_to_top_perimeter() {
    let refs = vec![TopoRef::face(TopoRefId::new("ref:face:bracket_top"), "feature:extrude_base", "top")];
    let selector = edge_selector_for_face_ref(&refs, "ref:face:bracket_top", None).expect("selector");
    assert_eq!(selector, EdgeSelection::TopPerimeter);
}

#[test]
fn face_refs_resolve_to_kernel_faces_or_fail_when_unknown() {
    let refs = vec![TopoRef::face(TopoRefId::new("ref:face:side"), "feature:extrude_base", "side")];
    assert_eq!(
        edge_selector_for_face_ref(&refs, "ref:face:side", Some(42)).unwrap(),
        EdgeSelection::FacePerimeter { kernel_face_id: 42 }
    );
    assert_eq!(edge_selector_for_face_ref(&refs, "ref:face:side", None).unwrap(), EdgeSelection::Fallback);
    assert_eq!(edge_selector_for_face_ref(&refs, "  ", Some(1)).unwrap(), EdgeSelection::Fallback);
    let error = edge_selector_for_face_ref(&refs, "ref:face:gone", None).expect_err("unknown");
    assert_eq!(error.to_message(), "not found: topo ref 'ref:face:gone'");
}
