use opencad::animate::{check_animation_output, feature_stage_index};
use opencad::args::{parse_cli_args, parse_patch_args, PluginCliCommand};
use opencad::error::OpenCadError;
use opencad::image::RenderImage;
use opencad::review::{comparison_frames, ReviewGifLabels, SemanticChange};
use opencad::plugin::{
    check_importer_format, check_request_kind, parse_plugin_request, plugin_follow_up, PluginFollowUp, PluginKind,
};

#[test]
fn feature_stage_sequence_reaches_every_milestone() {
    let stages = (0..18)
        .map(|frame| feature_stage_index(frame, 18, 9))
        .collect::<std::collections::BTreeSet<_>>();
    assert_eq!(stages, (0..9).collect());
    assert_eq!(feature_stage_index(17, 18, 9), 8);
}

#[test]
fn stage_index_degenerate_inputs_show_the_first_stage() {
    assert_eq!(feature_stage_index(5, 1, 9), 0);
    assert_eq!(feature_stage_index(5, 10, 1), 0);
    assert_eq!(feature_stage_index(5, 10, 0), 0);
    assert_eq!(feature_stage_index(9, 10, 4), 3);
    assert_eq!(feature_stage_index(40, 10, 4), 3);
}

#[test]
fn parse_patch_args_reads_flags() {
    let args = parse_patch_args(&["bracket.ocad.d", "width.patch.json", "--dry-run", "--geometry"])
        .expect("parse");
    assert!(args.options.dry_run);
    assert!(args.options.geometry);
    assert!(!args.options.json);
    assert_eq!(args.doc_path, "bracket.ocad.d");
    assert_eq!(args.patch_path, "width.patch.json");
}

#[test]
fn parse_patch_args_requires_two_paths() {
    match parse_patch_args(&["only.ocad.d", "--json"]) {
        Err(OpenCadError::Validation(message)) => assert!(message.starts_with("usage: opencad patch")),
        _ => panic!("missing patch path must be rejected"),
    }
}

#[test]
fn cli_plugin_routes_parse_list_and_invoke_options() {
    assert_eq!(
        parse_cli_args(&["list".into(), "--json".into()]).expect("list args"),
        PluginCliCommand::List { json: true }
    );
    assert_eq!(
        parse_cli_args(&[
            "invoke".into(),
            "example.bracket-feature".into(),
            "bracket.ocad.d".into(),
            "request.json".into(),
            "--dry-run".into(),
            "--output".into(),
            "out.json".into(),
            "--json".into(),
        ])
        .expect("invoke args"),
        PluginCliCommand::Invoke {
            plugin_id: "example.bracket-feature".into(),
            doc_path: "bracket.ocad.d".into(),
            request_path: "request.json".into(),
            dry_run: true,
            output: Some("out.json".into()),
            json: true,
        }
    );
}

#[test]
fn cli_plugin_rejects_dangling_output_and_unknown_commands() {
    assert!(parse_cli_args(&[
        "invoke".into(),
        "id".into(),
        "doc".into(),
        "req".into(),
        "--output".into(),
    ])
    .is_err());
    assert!(parse_cli_args(&["explode".into()]).is_err());
    assert!(parse_cli_args(&[]).is_err());
}

fn image(width: u32, height: u32, color: [u8; 4]) -> RenderImage {
    let mut rgba = Vec::with_capacity((width * height * 4) as usize);
    for _ in 0..width * height {
        rgba.extend_from_slice(&color);
    }
    RenderImage { width, height, rgba, non_background_pixels: (width * height) as usize }
}

#[test]
fn labels_use_semantic_values_and_effect_results() {
    let changes = vec![
        SemanticChange::ParameterChanged {
            id: "param:width".into(),
            before: "80 mm".into(),
            after: "100 mm".into(),
        },
        SemanticChange::MassChanged { before: "76.50 g".into(), after: "84.10 g".into() },
    ];
    let labels = ReviewGifLabels::from_review(&changes, &[true]);
    assert_eq!(labels.parameter_change, "WIDTH  80 MM > 100 MM");
    assert_eq!(labels.mass_change.as_deref(), Some("MASS  76.50 G > 84.10 G"));
    assert_eq!(labels.checks, "1/1 CHECKS PASS");
    assert!(labels.checks_passed);
}

#[test]
fn labels_without_changes_or_checks_use_fallback_captions() {
    let labels = ReviewGifLabels::from_review(&[SemanticChange::Other], &[]);
    assert_eq!(labels.before_parameter, "ORIGINAL DESIGN");
    assert_eq!(labels.after_parameter, "PATCHED DESIGN");
    assert_eq!(labels.parameter_change, "SEMANTIC CHANGE VERIFIED");
    assert_eq!(labels.mass_change, None);
    assert_eq!(labels.checks, "VALIDATION COMPLETE");
    assert!(labels.checks_passed);

    let changes = vec![SemanticChange::ParameterChanged {
        id: "sketch:base:hole_dia-top".into(),
        before: "6 mm".into(),
        after: "8 mm".into(),
    }];
    let labels = ReviewGifLabels::from_review(&changes, &[true, false, true]);
    assert_eq!(labels.before_parameter, "HOLE DIA TOP  6 MM");
    assert_eq!(labels.checks, "2/3 CHECKS PASS / REVIEW");
    assert!(!labels.checks_passed);
}

#[test]
fn comparison_is_a_five_second_four_stage_story() {
    let before = image(160, 200, [10, 20, 30, 255]);
    let after = image(160, 200, [70, 80, 90, 255]);
    let labels = ReviewGifLabels {
        before_parameter: "WIDTH  80 MM".into(),
        after_parameter: "WIDTH  100 MM".into(),
        parameter_change: "WIDTH  80 MM > 100 MM".into(),
        mass_change: Some("MASS  76.50 G > 84.10 G".into()),
        checks: "2/2 CHECKS PASS".into(),
        checks_passed: true,
    };
    let frames = comparison_frames(&before, &after, &labels, 4).expect("frames");
    assert_eq!(frames.len(), 20);
    assert_ne!(frames[0], before);
    assert_ne!(frames[8], after);
    let split = frames.last().expect("split frame");
    assert_eq!(split.rgba[((110 * 160 + 20) * 4) as usize], 10);
    assert_eq!(split.rgba[((110 * 160 + 140) * 4) as usize], 70);
}

#[test]
fn comparison_rejects_incompatible_images() {
    let before = image(160, 200, [0, 0, 0, 255]);
    let after = image(161, 200, [0, 0, 0, 255]);
    let labels = ReviewGifLabels {
        before_parameter: String::new(),
        after_parameter: String::new(),
        parameter_change: String::new(),
        mass_change: None,
        checks: String::new(),
        checks_passed: true,
    };
    let error = comparison_frames(&before, &after, &labels, 8).expect_err("mismatched images must fail");
    assert!(error.to_message().contains("identical pixel dimensions"));
}

#[test]
fn comparison_rejects_zero_frame_rate() {
    let before = image(20, 20, [0, 0, 0, 255]);
    let after = image(20, 20, [1, 1, 1, 255]);
    let labels = ReviewGifLabels {
        before_parameter: String::new(),
        after_parameter: String::new(),
        parameter_change: String::new(),
        mass_change: None,
        checks: String::new(),
        checks_passed: false,
    };
    let error = comparison_frames(&before, &after, &labels, 0).expect_err("zero fps must fail");
    assert_eq!(error.to_message(), "validation failed: review GIF frame rate must be positive");
}

#[test]
fn wipe_stage_moves_the_after_image_in_from_the_left() {
    let before = image(100, 200, [10, 10, 10, 255]);
    let after = image(100, 200, [90, 90, 90, 255]);
    let labels = ReviewGifLabels {
        before_parameter: String::new(),
        after_parameter: String::new(),
        parameter_change: String::new(),
        mass_change: None,
        checks: String::new(),
        checks_passed: true,
    };
    let frames = comparison_frames(&before, &after, &labels, 1).expect("frames");
    assert_eq!(frames.len(), 5);
    // Frame 1 wipes half way: boundary at column 50 of row 100.
    let wipe = &frames[1];
    assert_eq!(wipe.rgba[((100 * 100 + 10) * 4) as usize], 90);
    assert_eq!(wipe.rgba[((100 * 100 + 90) * 4) as usize], 10);
    // The after stage keeps the after image's pixel count.
    assert_eq!(frames[2].non_background_pixels, 100 * 200);
}

fn number_flags(args: &[String]) -> Vec<bool> {
    args.iter().map(|a| a.parse::<f32>().is_ok()).collect()
}

#[test]
fn parses_animation_options() {
    let args = [
        "--frames",
        "24",
        "--fps",
        "8",
        "--orbit-deg",
        "180",
        "--pitch-deg",
        "30",
        "--show-sketch",
    ]
    .map(str::to_string);
    let options = opencad::animate::parse_animation_flags(&args, &number_flags(&args)).expect("options");
    assert_eq!(options.frame_count, Some(24));
    assert_eq!(options.frames_per_second, Some(8));
    assert_eq!(options.orbit_degrees.as_deref().map(|t| t.parse::<f32>().unwrap()), Some(180.0));
    assert_eq!(options.pitch_degrees.as_deref().map(|t| t.parse::<f32>().unwrap()), Some(30.0));
    assert!(options.show_sketch);
}

#[test]
fn rejects_unknown_animation_option() {
    let args = ["--random-camera".to_string(), "1".to_string()];
    assert!(opencad::animate::parse_animation_flags(&args, &number_flags(&args)).is_err());
}

#[test]
fn animation_flag_errors_name_the_flag() {
    let check = |args: &[&str], expected: &str| {
        let args: Vec<String> = args.iter().map(|a| a.to_string()).collect();
        let error = opencad::animate::parse_animation_flags(&args, &number_flags(&args)).expect_err("error");
        assert_eq!(error.to_message(), format!("validation failed: {expected}"));
    };
    check(&["--random-camera", "1"], "unknown animation option '--random-camera'");
    check(&["--frames"], "--frames requires a numeric value");
    check(&["--fps", "fast"], "--fps requires an integer");
    check(&["--width", "-3"], "--width requires an integer");
    check(&["--height", "4294967296"], "--height requires an integer");
    check(&["--orbit-deg", "half"], "--orbit-deg requires a number in degrees");
    let args: Vec<String> = ["--width", "+640", "--width", "800"].iter().map(|a| a.to_string()).collect();
    let flags = opencad::animate::parse_animation_flags(&args, &number_flags(&args)).expect("flags");
    assert_eq!(flags.width_px, Some(800));
    assert_eq!(flags.height_px, None);
}

#[test]
fn plugin_answers_are_followed_up_by_kind() {
    assert_eq!(plugin_follow_up(true, false, false, None).unwrap(), PluginFollowUp::ValidatePatch { apply: true });
    assert_eq!(plugin_follow_up(true, false, true, None).unwrap(), PluginFollowUp::ValidatePatch { apply: false });
    let error = plugin_follow_up(true, false, false, Some("out.json")).expect_err("patch with output");
    assert_eq!(error.to_message(), "validation failed: patch plugin invocation cannot use an output path");
    assert_eq!(
        plugin_follow_up(false, true, false, Some("out.json")).unwrap(),
        PluginFollowUp::WriteOutput { path: "out.json".into() }
    );
    assert_eq!(plugin_follow_up(false, true, false, None).unwrap(), PluginFollowUp::Nothing);
}

#[test]
fn plugins_take_requests_of_their_own_kind_only() {
    assert!(check_request_kind("example.bracket-feature", PluginKind::Feature, PluginKind::Feature).is_ok());
    let error = check_request_kind("example.json-exporter", PluginKind::Exporter, PluginKind::Feature).expect_err("kind");
    assert_eq!(error.to_message(), "validation failed: plugin 'example.json-exporter' requires a Exporter request");
}

#[test]
fn builtin_importer_reads_designpatch_json_only() {
    assert!(check_importer_format("designpatch-json").is_ok());
    assert!(check_importer_format("application/json").is_ok());
    let error = check_importer_format("step").expect_err("format");
    assert_eq!(error.to_message(), "validation failed: unsupported importer format 'step'");
}

#[test]
fn bare_plugin_list_prints_text_and_rejects_other_flags() {
    assert_eq!(
        parse_cli_args(&["list".into()]).expect("bare list"),
        PluginCliCommand::List { json: false }
    );
    assert_eq!(
        parse_cli_args(&["list".into(), "--json".into(), "--json".into()]).expect("repeated flag"),
        PluginCliCommand::List { json: true }
    );
    match parse_cli_args(&["list".into(), "--verbose".into()]) {
        Err(OpenCadError::Validation(message)) => assert_eq!(message, "usage: opencad plugin list [--json]"),
        _ => panic!("unknown list option must be rejected"),
    }
}

#[test]
fn animation_output_must_be_a_gif_in_any_case() {
    assert!(check_animation_output("out/orbit.gif").is_ok());
    assert!(check_animation_output("ORBIT.GIF").is_ok());
    match check_animation_output("orbit.png") {
        Err(OpenCadError::Validation(message)) => assert_eq!(message, "animation output must use .gif"),
        _ => panic!("non-gif output must be rejected"),
    }
    assert!(check_animation_output("gif").is_err());
}

#[test]
fn plugin_requests_must_be_json() {
    let value = parse_plugin_request("{\"kind\": \"feature\", \"width\": 80}").expect("valid request");
    assert_eq!(value["kind"], "feature");
    assert_eq!(value["width"], 80);
    match parse_plugin_request("{\"kind\": ") {
        Err(OpenCadError::Validation(message)) => {
            assert!(message.starts_with("invalid plugin request JSON: "));
            assert!(message.contains("line 1"));
        }
        _ => panic!("truncated JSON must be rejected"),
    }
}
