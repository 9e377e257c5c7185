use opencad::hidden_line::{is_tessellation_diagonal, mesh_edges, MeshEdge};
use opencad::sketch_loop::{
    chain_profile_lines, close_profile_loop, find_profile, profile_loop_points, LoopOutcome, LoopTrace, ProfileName,
    SketchLine,
};

fn edge(start: u32, end: u32, triangles: &[usize]) -> MeshEdge {
    MeshEdge { start, end, triangles: triangles.to_vec() }
}

#[test]
fn shared_edges_list_both_triangles_in_order() {
    // Two triangles of a quad sharing the diagonal 0-2.
    let edges = mesh_edges(&[0, 1, 2, 0, 2, 3]);
    assert_eq!(
        edges,
        vec![
            edge(0, 1, &[0]),
            edge(0, 2, &[0, 1]),
            edge(0, 3, &[1]),
            edge(1, 2, &[0]),
            edge(2, 3, &[1]),
        ]
    );
}

#[test]
fn trailing_indices_and_empty_meshes_have_no_extra_edges() {
    assert!(mesh_edges(&[]).is_empty());
    assert!(mesh_edges(&[4, 5]).is_empty());
    let edges = mesh_edges(&[2, 1, 0, 7]);
    assert_eq!(edges, vec![edge(0, 1, &[0]), edge(0, 2, &[0]), edge(1, 2, &[0])]);
}

#[test]
fn degenerate_triangle_lists_its_repeated_side_twice() {
    let edges = mesh_edges(&[3, 3, 5]);
    assert_eq!(edges, vec![edge(3, 3, &[0]), edge(3, 5, &[0, 0])]);
}



fn line(id: &str, start: &str, end: &str) -> SketchLine {
    SketchLine { id: id.into(), start: start.into(), end: end.into() }
}

fn ids(v: &[&str]) -> Vec<String> {
    v.iter().map(|s| s.to_string()).collect()
}

#[test]
fn rectangle_lines_chain_into_a_closed_loop() {
    // The profile lists the edges out of order and one of them reversed.
    let lines = vec![
        line("l1", "p1", "p2"),
        line("l3", "p4", "p3"),
        line("l2", "p2", "p3"),
        line("l4", "p4", "p1"),
    ];
    let trace = chain_profile_lines(&lines, &ids(&["l1", "l3", "l2", "l4"])).expect("trace");
    assert_eq!(trace.outcome, LoopOutcome::Closed);
    assert_eq!(trace.points, ids(&["p1", "p2", "p3", "p4", "p1"]));
}

#[test]
fn open_and_unknown_profiles_are_reported() {
    let lines = vec![line("a", "p1", "p2"), line("b", "p2", "p3")];
    let trace = chain_profile_lines(&lines, &ids(&["a", "b"])).expect("trace");
    assert_eq!(trace.outcome, LoopOutcome::NotClosed);
    assert_eq!(trace.points, ids(&["p1", "p2", "p3"]));

    let error = chain_profile_lines(&lines, &ids(&["a", "zz"])).expect_err("missing line");
    assert_eq!(error.to_message(), "not found: line 'zz'");
    let error = chain_profile_lines(&lines, &[]).expect_err("empty profile");
    assert_eq!(error.to_message(), "validation failed: profile has no line entities");
}

#[test]
fn later_lines_with_the_same_id_win() {
    let lines = vec![line("a", "x", "y"), line("a", "p1", "p2"), line("b", "p2", "p1")];
    let trace = chain_profile_lines(&lines, &ids(&["a", "b"])).expect("trace");
    assert_eq!(trace.points, ids(&["p1", "p2", "p1"]));
    assert_eq!(trace.outcome, LoopOutcome::Closed);
}

#[test]
fn profiles_are_found_by_reference_id_or_outer_name() {
    let profiles = vec![
        ProfileName { id: "profile:0".into(), profile_ref: None },
        ProfileName { id: "profile:1".into(), profile_ref: Some("sketch:base/hole".into()) },
    ];
    assert_eq!(find_profile(&profiles, "sketch:base", "sketch:base/hole").unwrap(), 1);
    assert_eq!(find_profile(&profiles, "sketch:base", "profile:1").unwrap(), 1);
    assert_eq!(find_profile(&profiles, "sketch:base", "sketch:base/profile:outer").unwrap(), 0);
    let error = find_profile(&profiles, "sketch:base", "nope").expect_err("missing");
    assert_eq!(error.to_message(), "not found: profile 'nope'");
}

#[test]
fn closed_loop_drops_the_repeated_first_point() {
    let lines = vec![
        line("l1", "p1", "p2"),
        line("l3", "p4", "p3"),
        line("l2", "p2", "p3"),
        line("l4", "p4", "p1"),
    ];
    let points = profile_loop_points(&lines, &ids(&["l1", "l3", "l2", "l4"])).expect("loop");
    assert_eq!(points, ids(&["p1", "p2", "p3", "p4"]));
}

#[test]
fn open_or_overlong_chains_are_not_loops() {
    let lines = vec![line("a", "p1", "p2"), line("b", "p2", "p3")];
    let error = profile_loop_points(&lines, &ids(&["a", "b"])).expect_err("open chain");
    assert_eq!(error.to_message(), "validation failed: profile loop does not close on the first point");

    let too_long = LoopTrace { points: ids(&["p1", "p2", "p3", "p2"]), outcome: LoopOutcome::TooLong };
    let error = close_profile_loop(too_long).expect_err("too long");
    assert_eq!(error.to_message(), "validation failed: profile loop traversal did not close cleanly");

    let single = LoopTrace { points: ids(&["p1"]), outcome: LoopOutcome::Closed };
    assert_eq!(close_profile_loop(single).expect("single point"), ids(&["p1"]));
}

#[test]
fn only_edges_inside_one_face_are_tessellation_diagonals() {
    assert!(is_tessellation_diagonal(true, &[7, 7], &[0, 1]));
    assert!(!is_tessellation_diagonal(true, &[1, 2], &[0, 1]));
    assert!(!is_tessellation_diagonal(false, &[], &[0, 1]));
    assert!(!is_tessellation_diagonal(true, &[7, 7, 7], &[0, 1, 2]));
    assert!(!is_tessellation_diagonal(true, &[7], &[0]));
}

#[test]
fn profile_to_solved_rectangle() {
    // An 80 x 60 rectangle sketch: four corners joined by four lines,
    // found through the sketch's outer profile name.
    let lines = vec![
        line("ent:e0", "ent:c0", "ent:c1"),
        line("ent:e1", "ent:c1", "ent:c2"),
        line("ent:e2", "ent:c2", "ent:c3"),
        line("ent:e3", "ent:c3", "ent:c0"),
    ];
    let profiles = vec![ProfileName { id: "profile:0".into(), profile_ref: None }];
    assert_eq!(find_profile(&profiles, "sketch:base", "sketch:base/profile:outer").unwrap(), 0);
    let points = profile_loop_points(&lines, &ids(&["ent:e0", "ent:e1", "ent:e2", "ent:e3"])).expect("solved");
    assert_eq!(points.len(), 4);
    assert_eq!(points, ids(&["ent:c0", "ent:c1", "ent:c2", "ent:c3"]));
}
