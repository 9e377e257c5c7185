//! Frame scheduling for feature-build animations: which modelling milestone
//! each frame of the animation shows.

use vstd::prelude::*;

use crate::error::OpenCadError;
use crate::text::{ascii_lower, has_suffix, parse_u32_text, str_ends_with, to_ascii_lower, u32_text_value};

verus! {

/// The milestone shown by frame `frame_index` of `frame_count` frames when the
/// build has `stage_count` milestones: milestones advance evenly across the
/// frames, and the last milestone is never exceeded.
pub open spec fn stage_of(frame_index: int, frame_count: int, stage_count: int) -> int {
    if stage_count <= 1 || frame_count <= 1 {
        0
    } else {
        let even = frame_index * stage_count / frame_count;
        if even < stage_count - 1 { even } else { stage_count - 1 }
    }
}

/// The milestone index for a frame of a feature-build animation.
pub fn feature_stage_index(frame_index: u32, frame_count: u32, stage_count: usize) -> (r: usize)
    ensures
        r == stage_of(frame_index as int, frame_count as int, stage_count as int),
{
    if stage_count <= 1 || frame_count <= 1 {
        return 0;
    }
    let fi = frame_index as u128;
    let sc = stage_count as u128;
    assert(fi * sc <= 0xffff_ffff * 0xffff_ffff_ffff_ffff) by (nonlinear_arith)
        requires fi <= 0xffff_ffff, sc <= 0xffff_ffff_ffff_ffff;
    let product: u128 = fi * sc;
    let even: u128 = product / frame_count as u128;
    let last = stage_count - 1;
    if even < last as u128 {
        even as usize
    } else {
        last
    }
}

/// Whether an animation may be written to `output`: its name ends in
/// `.gif`, in any letter case.
pub open spec fn is_gif_output(output: Seq<char>) -> bool {
    has_suffix(output.map_values(|c: char| ascii_lower(c)), ".gif"@)
}

/// Check that an animation is written to a GIF file.
pub fn check_animation_output(output: &str) -> (r: Result<(), OpenCadError>)
    ensures
        r is Ok <==> is_gif_output(output@),
        r matches Err(e) ==> (e matches OpenCadError::Validation(m) && m@ == "animation output must use .gif"@),
{
    let lower = to_ascii_lower(output);
    if !str_ends_with(lower.as_str(), ".gif") {
        return Err(OpenCadError::validation("animation output must use .gif"));
    }
    Ok(())
}

/// Every milestone index lies within the milestones.
pub proof fn lemma_stage_in_range(frame_index: int, frame_count: int, stage_count: int)
    requires
        frame_index >= 0,
        frame_count >= 0,
        stage_count >= 1,
    ensures
        0 <= stage_of(frame_index, frame_count, stage_count) < stage_count,
{
    if stage_count > 1 && frame_count > 1 {
        assert(frame_index * stage_count >= 0) by (nonlinear_arith)
            requires frame_index >= 0, stage_count >= 1;
        assert(frame_index * stage_count / frame_count >= 0) by (nonlinear_arith)
            requires frame_index * stage_count >= 0, frame_count > 1;
    }
}

/// Later frames never show an earlier milestone.
pub proof fn lemma_stage_monotone(a: int, b: int, frame_count: int, stage_count: int)
    requires
        0 <= a <= b,
        frame_count >= 0,
        stage_count >= 1,
    ensures
        stage_of(a, frame_count, stage_count) <= stage_of(b, frame_count, stage_count),
{
    if stage_count > 1 && frame_count > 1 {
        assert(a * stage_count <= b * stage_count) by (nonlinear_arith)
            requires a <= b, stage_count >= 1;
        assert(a * stage_count / frame_count <= b * stage_count / frame_count) by (nonlinear_arith)
            requires a * stage_count <= b * stage_count, frame_count > 1;
    }
}

/// Whether some frame of the animation shows milestone `s`.
pub open spec fn stage_reached(frame_count: int, stage_count: int, s: int) -> bool {
    exists|f: int| 0 <= f < frame_count && #[trigger] stage_of(f, frame_count, stage_count) == s
}

/// When there are at least as many frames as milestones, every milestone is
/// shown by some frame, and the last frame shows the last milestone.
pub proof fn lemma_every_stage_reached(frame_count: int, stage_count: int)
    requires
        1 <= stage_count <= frame_count,
    ensures
        forall|s: int| 0 <= s < stage_count ==> #[trigger] stage_reached(frame_count, stage_count, s),
        stage_of(frame_count - 1, frame_count, stage_count) == stage_count - 1,
{
    assert forall|s: int| 0 <= s < stage_count implies #[trigger] stage_reached(frame_count, stage_count, s) by {
        if stage_count == 1 || frame_count == 1 {
            assert(stage_of(0, frame_count, stage_count) == s);
        } else {
            let f = (s * frame_count + stage_count - 1) / stage_count;
            assert(f * stage_count >= s * frame_count && f * stage_count < (s + 1) * frame_count && 0 <= f < frame_count) by (nonlinear_arith)
                requires
                    f == (s * frame_count + stage_count - 1) / stage_count,
                    0 <= s < stage_count,
                    2 <= stage_count <= frame_count,
            ;
            assert(f * stage_count / frame_count == s) by (nonlinear_arith)
                requires
                    f * stage_count >= s * frame_count,
                    f * stage_count < (s + 1) * frame_count,
                    frame_count > 0,
            ;
            assert(stage_of(f, frame_count, stage_count) == s);
        }
    }
    if stage_count > 1 {
        assert((frame_count - 1) * stage_count / frame_count >= stage_count - 1) by (nonlinear_arith)
            requires 2 <= stage_count <= frame_count;
        lemma_stage_in_range(frame_count - 1, frame_count, stage_count);
    }
}

/// The settings given by `opencad animate` flags; `None` leaves a setting at
/// its default.  Angles are kept as the text given, already checked to be a
/// number.
#[derive(Debug, Clone, PartialEq, Eq)]
pub struct AnimationFlags {
    pub frame_count: Option<u32>,
    pub frames_per_second: Option<u32>,
    pub width_px: Option<u32>,
    pub height_px: Option<u32>,
    pub orbit_degrees: Option<String>,
    pub pitch_degrees: Option<String>,
    pub show_sketch: bool,
}

/// The abstract content of [`AnimationFlags`].
pub struct FlagsView {
    pub frame_count: Option<u32>,
    pub frames_per_second: Option<u32>,
    pub width_px: Option<u32>,
    pub height_px: Option<u32>,
    pub orbit_degrees: Option<Seq<char>>,
    pub pitch_degrees: Option<Seq<char>>,
    pub show_sketch: bool,
}

/// The text of an optional string.
pub open spec fn opt_chars(o: Option<String>) -> Option<Seq<char>> {
    match o {
        Some(s) => Some(s@),
        None => None,
    }
}

/// The abstract content of parsed flags.
pub open spec fn flags_view(f: AnimationFlags) -> FlagsView {
    FlagsView {
        frame_count: f.frame_count,
        frames_per_second: f.frames_per_second,
        width_px: f.width_px,
        height_px: f.height_px,
        orbit_degrees: opt_chars(f.orbit_degrees),
        pitch_degrees: opt_chars(f.pitch_degrees),
        show_sketch: f.show_sketch,
    }
}

/// No flag given.
pub open spec fn no_flags() -> FlagsView {
    FlagsView {
        frame_count: None,
        frames_per_second: None,
        width_px: None,
        height_px: None,
        orbit_degrees: None,
        pitch_degrees: None,
        show_sketch: false,
    }
}

/// Reading the flags from position `i` on, where `numbers[k]` says whether
/// argument `k` reads as a number.  `--show-sketch` stands alone; every other
/// flag takes the next argument as its value: `--frames`, `--fps`, `--width`
/// and `--height` an unsigned integer, `--orbit-deg` and `--pitch-deg` a
/// number of degrees.  A later flag overrides an earlier one.  The error is the
/// message of the first flag that cannot be read.
pub open spec fn animation_scan(args: Seq<Seq<char>>, numbers: Seq<bool>, i: int, st: FlagsView) -> Result<
    FlagsView,
    Seq<char>,
>
    decreases args.len() - i,
{
    if i < 0 || i >= args.len() {
        Ok(st)
    } else if args[i] == "--show-sketch"@ {
        animation_scan(args, numbers, i + 1, FlagsView { show_sketch: true, ..st })
    } else if i + 1 >= args.len() {
        Err(args[i] + " requires a numeric value"@)
    } else {
        let flag = args[i];
        let value = args[i + 1];
        if flag == "--frames"@ || flag == "--fps"@ || flag == "--width"@ || flag == "--height"@ {
            match u32_text_value(value) {
                None => Err(flag + " requires an integer"@),
                Some(v) => animation_scan(
                    args,
                    numbers,
                    i + 2,
                    if flag == "--frames"@ {
                        FlagsView { frame_count: Some(v), ..st }
                    } else if flag == "--fps"@ {
                        FlagsView { frames_per_second: Some(v), ..st }
                    } else if flag == "--width"@ {
                        FlagsView { width_px: Some(v), ..st }
                    } else {
                        FlagsView { height_px: Some(v), ..st }
                    },
                ),
            }
        } else if flag == "--orbit-deg"@ || flag == "--pitch-deg"@ {
            if numbers[i + 1] {
                animation_scan(
                    args,
                    numbers,
                    i + 2,
                    if flag == "--orbit-deg"@ {
                        FlagsView { orbit_degrees: Some(value), ..st }
                    } else {
                        FlagsView { pitch_degrees: Some(value), ..st }
                    },
                )
            } else {
                Err(flag + " requires a number in degrees"@)
            }
        } else {
            Err("unknown animation option '"@ + flag + "'"@)
        }
    }
}

/// The texts of the arguments.
pub open spec fn arg_chars(args: Seq<String>) -> Seq<Seq<char>> {
    args.map_values(|a: String| a@)
}

/// A validation error whose message is `flag` followed by `suffix`.
fn flag_suffix_error(flag: &str, suffix: &str) -> (e: OpenCadError)
    ensures
        e matches OpenCadError::Validation(m) && m@ == flag@ + suffix@,
{
    let mut m = flag.to_owned();
    m.push_str(suffix);
    OpenCadError::Validation(m)
}

/// A validation error whose message is `prefix`, `flag`, then `suffix`.
fn flag_error(prefix: &str, flag: &str, suffix: &str) -> (e: OpenCadError)
    ensures
        e matches OpenCadError::Validation(m) && m@ == prefix@ + flag@ + suffix@,
{
    let mut m = prefix.to_owned();
    m.push_str(flag);
    m.push_str(suffix);
    OpenCadError::Validation(m)
}

/// Read the `opencad animate` flags.  `numbers[k]` tells whether argument `k`
/// reads as a floating-point number, which decides the angle flags.
pub fn parse_animation_flags(args: &[String], numbers: &[bool]) -> (r: Result<AnimationFlags, OpenCadError>)
    requires
        numbers@.len() == args@.len(),
    ensures
        match animation_scan(arg_chars(args@), numbers@, 0, no_flags()) {
            Ok(v) => r matches Ok(f) && flags_view(f) == v,
            Err(msg) => r matches Err(OpenCadError::Validation(m)) && m@ == msg,
        },
{
    let ghost texts = arg_chars(args@);
    let n = args.len();
    let mut flags = AnimationFlags {
        frame_count: None,
        frames_per_second: None,
        width_px: None,
        height_px: None,
        orbit_degrees: None,
        pitch_degrees: None,
        show_sketch: false,
    };
    let mut index: usize = 0;
    proof {
        reveal_strlit("--show-sketch");
        reveal_strlit("--frames");
        reveal_strlit("--fps");
        reveal_strlit("--width");
        reveal_strlit("--height");
        reveal_strlit("--orbit-deg");
        reveal_strlit("--pitch-deg");
    }
    while index < n
        invariant
            n == args@.len(),
            numbers@.len() == n,
            texts == arg_chars(args@),
            index <= n + 1,
            animation_scan(texts, numbers@, 0, no_flags()) == animation_scan(
                texts,
                numbers@,
                index as int,
                flags_view(flags),
            ),
        decreases n + 1 - index,
    {
        let flag: &str = args[index].as_str();
        assert(flag@ == texts[index as int]);
        if flag.eq("--show-sketch") {
            flags.show_sketch = true;
            index = index + 1;
        } else if index + 1 >= n {
            return Err(flag_suffix_error(flag, " requires a numeric value"));
        } else {
            let value: &str = args[index + 1].as_str();
            assert(value@ == texts[index + 1]);
            if flag.eq("--frames") || flag.eq("--fps") || flag.eq("--width") || flag.eq("--height") {
                match parse_u32_text(value) {
                    None => {
                        return Err(flag_suffix_error(flag, " requires an integer"));
                    },
                    Some(v) => {
                        if flag.eq("--frames") {
                            flags.frame_count = Some(v);
                        } else if flag.eq("--fps") {
                            flags.frames_per_second = Some(v);
                        } else if flag.eq("--width") {
                            flags.width_px = Some(v);
                        } else {
                            flags.height_px = Some(v);
                        }
                    },
                }
            } else if flag.eq("--orbit-deg") || flag.eq("--pitch-deg") {
                if !numbers[index + 1] {
                    return Err(flag_suffix_error(flag, " requires a number in degrees"));
                }
                if flag.eq("--orbit-deg") {
                    flags.orbit_degrees = Some(value.to_owned());
                } else {
                    flags.pitch_degrees = Some(value.to_owned());
                }
            } else {
                return Err(flag_error("unknown animation option '", flag, "'"));
            }
            index = index + 2;
        }
    }
    Ok(flags)
}

/// Reading flags that are followed by more arguments goes through the first
/// flags as it would alone, then carries on from where they ended with the
/// settings they gave.
proof fn lemma_scan_extend(
    args: Seq<Seq<char>>,
    numbers: Seq<bool>,
    tail: Seq<Seq<char>>,
    tail_numbers: Seq<bool>,
    i: int,
    st: FlagsView,
)
    requires
        numbers.len() == args.len(),
        0 <= i <= args.len(),
        animation_scan(args, numbers, i, st) is Ok,
    ensures
        animation_scan(args, numbers, i, st) matches Ok(f) ==> animation_scan(
            args + tail,
            numbers + tail_numbers,
            i,
            st,
        ) == animation_scan(args + tail, numbers + tail_numbers, args.len() as int, f),
    decreases args.len() - i,
{
    let full = args + tail;
    let nums = numbers + tail_numbers;
    if i < args.len() {
        assert(full[i] == args[i]);
        if args[i] == "--show-sketch"@ {
            lemma_scan_extend(args, numbers, tail, tail_numbers, i + 1, FlagsView { show_sketch: true, ..st });
        } else {
            assert(i + 1 < args.len());
            assert(full[i + 1] == args[i + 1]);
            assert(nums[i + 1] == numbers[i + 1]);
            let flag = args[i];
            let value = args[i + 1];
            if flag == "--frames"@ || flag == "--fps"@ || flag == "--width"@ || flag == "--height"@ {
                let v = u32_text_value(value)->0;
                let next = if flag == "--frames"@ {
                    FlagsView { frame_count: Some(v), ..st }
                } else if flag == "--fps"@ {
                    FlagsView { frames_per_second: Some(v), ..st }
                } else if flag == "--width"@ {
                    FlagsView { width_px: Some(v), ..st }
                } else {
                    FlagsView { height_px: Some(v), ..st }
                };
                lemma_scan_extend(args, numbers, tail, tail_numbers, i + 2, next);
            } else {
                let next = if flag == "--orbit-deg"@ {
                    FlagsView { orbit_degrees: Some(value), ..st }
                } else {
                    FlagsView { pitch_degrees: Some(value), ..st }
                };
                lemma_scan_extend(args, numbers, tail, tail_numbers, i + 2, next);
            }
        }
    }
}

/// The flag names, each told apart from the others.
proof fn lemma_flag_names_differ()
    ensures
        "--frames"@ != "--fps"@,
        "--frames"@ != "--width"@,
        "--frames"@ != "--height"@,
        "--fps"@ != "--width"@,
        "--fps"@ != "--height"@,
        "--width"@ != "--height"@,
        "--frames"@ != "--show-sketch"@,
        "--fps"@ != "--show-sketch"@,
        "--width"@ != "--show-sketch"@,
        "--height"@ != "--show-sketch"@,
{
    reveal_strlit("--frames");
    reveal_strlit("--fps");
    reveal_strlit("--width");
    reveal_strlit("--height");
    reveal_strlit("--show-sketch");
    assert("--frames"@[2] != "--height"@[2]);
    assert("--fps"@.len() == 5);
    assert("--width"@.len() == 7);
    assert("--frames"@.len() == 8);
    assert("--show-sketch"@.len() == 13);
}

/// `--width v`, given after flags that read as `f`, sets the width to `v`
/// and leaves every other setting, the height included, as `f` has it.
pub proof fn lemma_width_flag_sets_width(args: Seq<Seq<char>>, numbers: Seq<bool>, value: Seq<char>, b0: bool, b1: bool)
    requires
        numbers.len() == args.len(),
        animation_scan(args, numbers, 0, no_flags()) is Ok,
        u32_text_value(value) is Some,
    ensures
        animation_scan(args, numbers, 0, no_flags()) matches Ok(f) && animation_scan(
            args + seq!["--width"@, value],
            numbers + seq![b0, b1],
            0,
            no_flags(),
        ) matches Ok(g) && g == (FlagsView { width_px: u32_text_value(value), ..f }),
{
    lemma_flag_names_differ();
    lemma_scan_extend(args, numbers, seq!["--width"@, value], seq![b0, b1], 0, no_flags());
    let full = args + seq!["--width"@, value];
    let nums = numbers + seq![b0, b1];
    let n = args.len() as int;
    assert(full[n] == "--width"@);
    assert(full[n + 1] == value);
    let f = animation_scan(args, numbers, 0, no_flags())->Ok_0;
    let g = FlagsView { width_px: u32_text_value(value), ..f };
    assert(animation_scan(full, nums, n + 2, g) == Ok::<FlagsView, Seq<char>>(g));
    assert(animation_scan(full, nums, n, f) == animation_scan(full, nums, n + 2, g));
}

/// `--height v`, given after flags that read as `f`, sets the height to `v`
/// and leaves every other setting, the width included, as `f` has it.
pub proof fn lemma_height_flag_sets_height(args: Seq<Seq<char>>, numbers: Seq<bool>, value: Seq<char>, b0: bool, b1: bool)
    requires
        numbers.len() == args.len(),
        animation_scan(args, numbers, 0, no_flags()) is Ok,
        u32_text_value(value) is Some,
    ensures
        animation_scan(args, numbers, 0, no_flags()) matches Ok(f) && animation_scan(
            args + seq!["--height"@, value],
            numbers + seq![b0, b1],
            0,
            no_flags(),
        ) matches Ok(g) && g == (FlagsView { height_px: u32_text_value(value), ..f }),
{
    lemma_flag_names_differ();
    lemma_scan_extend(args, numbers, seq!["--height"@, value], seq![b0, b1], 0, no_flags());
    let full = args + seq!["--height"@, value];
    let nums = numbers + seq![b0, b1];
    let n = args.len() as int;
    assert(full[n] == "--height"@);
    assert(full[n + 1] == value);
    let f = animation_scan(args, numbers, 0, no_flags())->Ok_0;
    let g = FlagsView { height_px: u32_text_value(value), ..f };
    assert(animation_scan(full, nums, n + 2, g) == Ok::<FlagsView, Seq<char>>(g));
    assert(animation_scan(full, nums, n, f) == animation_scan(full, nums, n + 2, g));
}

/// `--frames v`, given after flags that read as `f`, sets the frame count to
/// `v` and leaves every other setting as `f` has it.
pub proof fn lemma_frames_flag_sets_frame_count(args: Seq<Seq<char>>, numbers: Seq<bool>, value: Seq<char>, b0: bool, b1: bool)
    requires
        numbers.len() == args.len(),
        animation_scan(args, numbers, 0, no_flags()) is Ok,
        u32_text_value(value) is Some,
    ensures
        animation_scan(args, numbers, 0, no_flags()) matches Ok(f) && animation_scan(
            args + seq!["--frames"@, value],
            numbers + seq![b0, b1],
            0,
            no_flags(),
        ) matches Ok(g) && g == (FlagsView { frame_count: u32_text_value(value), ..f }),
{
    lemma_flag_names_differ();
    lemma_scan_extend(args, numbers, seq!["--frames"@, value], seq![b0, b1], 0, no_flags());
    let full = args + seq!["--frames"@, value];
    let nums = numbers + seq![b0, b1];
    let n = args.len() as int;
    assert(full[n] == "--frames"@);
    assert(full[n + 1] == value);
    let f = animation_scan(args, numbers, 0, no_flags())->Ok_0;
    let g = FlagsView { frame_count: u32_text_value(value), ..f };
    assert(animation_scan(full, nums, n + 2, g) == Ok::<FlagsView, Seq<char>>(g));
    assert(animation_scan(full, nums, n, f) == animation_scan(full, nums, n + 2, g));
}

/// `--fps v`, given after flags that read as `f`, sets the frame rate to `v`
/// and leaves every other setting as `f` has it.
pub proof fn lemma_fps_flag_sets_frame_rate(args: Seq<Seq<char>>, numbers: Seq<bool>, value: Seq<char>, b0: bool, b1: bool)
    requires
        numbers.len() == args.len(),
        animation_scan(args, numbers, 0, no_flags()) is Ok,
        u32_text_value(value) is Some,
    ensures
        animation_scan(args, numbers, 0, no_flags()) matches Ok(f) && animation_scan(
            args + seq!["--fps"@, value],
            numbers + seq![b0, b1],
            0,
            no_flags(),
        ) matches Ok(g) && g == (FlagsView { frames_per_second: u32_text_value(value), ..f }),
{
    lemma_flag_names_differ();
    lemma_scan_extend(args, numbers, seq!["--fps"@, value], seq![b0, b1], 0, no_flags());
    let full = args + seq!["--fps"@, value];
    let nums = numbers + seq![b0, b1];
    let n = args.len() as int;
    assert(full[n] == "--fps"@);
    assert(full[n + 1] == value);
    let f = animation_scan(args, numbers, 0, no_flags())->Ok_0;
    let g = FlagsView { frames_per_second: u32_text_value(value), ..f };
    assert(animation_scan(full, nums, n + 2, g) == Ok::<FlagsView, Seq<char>>(g));
    assert(animation_scan(full, nums, n, f) == animation_scan(full, nums, n + 2, g));
}

/// The angle flag names, told apart from each other and from the rest.
proof fn lemma_angle_flag_names_differ()
    ensures
        "--orbit-deg"@ != "--pitch-deg"@,
        "--orbit-deg"@ != "--frames"@,
        "--orbit-deg"@ != "--fps"@,
        "--orbit-deg"@ != "--width"@,
        "--orbit-deg"@ != "--height"@,
        "--orbit-deg"@ != "--show-sketch"@,
        "--pitch-deg"@ != "--frames"@,
        "--pitch-deg"@ != "--fps"@,
        "--pitch-deg"@ != "--width"@,
        "--pitch-deg"@ != "--height"@,
        "--pitch-deg"@ != "--show-sketch"@,
{
    reveal_strlit("--orbit-deg");
    reveal_strlit("--pitch-deg");
    reveal_strlit("--frames");
    reveal_strlit("--fps");
    reveal_strlit("--width");
    reveal_strlit("--height");
    reveal_strlit("--show-sketch");
    assert("--orbit-deg"@[2] != "--pitch-deg"@[2]);
    assert("--orbit-deg"@.len() == 11);
    assert("--pitch-deg"@.len() == 11);
    assert("--fps"@.len() == 5);
    assert("--width"@.len() == 7);
    assert("--frames"@.len() == 8);
    assert("--height"@.len() == 8);
    assert("--show-sketch"@.len() == 13);
}

/// `--orbit-deg v`, with `v` a number, given after flags that read as `f`,
/// sets the orbit angle to the text `v` and leaves every other setting, the
/// pitch included, as `f` has it.
pub proof fn lemma_orbit_flag_sets_orbit(args: Seq<Seq<char>>, numbers: Seq<bool>, value: Seq<char>, b0: bool)
    requires
        numbers.len() == args.len(),
        animation_scan(args, numbers, 0, no_flags()) is Ok,
    ensures
        animation_scan(args, numbers, 0, no_flags()) matches Ok(f) && animation_scan(
            args + seq!["--orbit-deg"@, value],
            numbers + seq![b0, true],
            0,
            no_flags(),
        ) matches Ok(g) && g == (FlagsView { orbit_degrees: Some(value), ..f }),
{
    lemma_angle_flag_names_differ();
    lemma_scan_extend(args, numbers, seq!["--orbit-deg"@, value], seq![b0, true], 0, no_flags());
    let full = args + seq!["--orbit-deg"@, value];
    let nums = numbers + seq![b0, true];
    let n = args.len() as int;
    assert(full[n] == "--orbit-deg"@);
    assert(full[n + 1] == value);
    assert(nums[n + 1]);
    let f = animation_scan(args, numbers, 0, no_flags())->Ok_0;
    let g = FlagsView { orbit_degrees: Some(value), ..f };
    assert(animation_scan(full, nums, n + 2, g) == Ok::<FlagsView, Seq<char>>(g));
    assert(animation_scan(full, nums, n, f) == animation_scan(full, nums, n + 2, g));
}

/// `--pitch-deg v`, with `v` a number, given after flags that read as `f`,
/// sets the pitch angle to the text `v` and leaves every other setting, the
/// orbit included, as `f` has it.
pub proof fn lemma_pitch_flag_sets_pitch(args: Seq<Seq<char>>, numbers: Seq<bool>, value: Seq<char>, b0: bool)
    requires
        numbers.len() == args.len(),
        animation_scan(args, numbers, 0, no_flags()) is Ok,
    ensures
        animation_scan(args, numbers, 0, no_flags()) matches Ok(f) && animation_scan(
            args + seq!["--pitch-deg"@, value],
            numbers + seq![b0, true],
            0,
            no_flags(),
        ) matches Ok(g) && g == (FlagsView { pitch_degrees: Some(value), ..f }),
{
    lemma_angle_flag_names_differ();
    lemma_scan_extend(args, numbers, seq!["--pitch-deg"@, value], seq![b0, true], 0, no_flags());
    let full = args + seq!["--pitch-deg"@, value];
    let nums = numbers + seq![b0, true];
    let n = args.len() as int;
    assert(full[n] == "--pitch-deg"@);
    assert(full[n + 1] == value);
    assert(nums[n + 1]);
    let f = animation_scan(args, numbers, 0, no_flags())->Ok_0;
    let g = FlagsView { pitch_degrees: Some(value), ..f };
    assert(animation_scan(full, nums, n + 2, g) == Ok::<FlagsView, Seq<char>>(g));
    assert(animation_scan(full, nums, n, f) == animation_scan(full, nums, n + 2, g));
}

/// `--show-sketch`, given after flags that read as `f`, turns the sketch
/// overlay on and leaves every other setting as `f` has it.
pub proof fn lemma_show_sketch_flag(args: Seq<Seq<char>>, numbers: Seq<bool>, b0: bool)
    requires
        numbers.len() == args.len(),
        animation_scan(args, numbers, 0, no_flags()) is Ok,
    ensures
        animation_scan(args, numbers, 0, no_flags()) matches Ok(f) && animation_scan(
            args.push("--show-sketch"@),
            numbers.push(b0),
            0,
            no_flags(),
        ) matches Ok(g) && g == (FlagsView { show_sketch: true, ..f }),
{
    lemma_scan_extend(args, numbers, seq!["--show-sketch"@], seq![b0], 0, no_flags());
    assert(args.push("--show-sketch"@) =~= args + seq!["--show-sketch"@]);
    assert(numbers.push(b0) =~= numbers + seq![b0]);
    let full = args + seq!["--show-sketch"@];
    let nums = numbers + seq![b0];
    let n = args.len() as int;
    assert(full[n] == "--show-sketch"@);
    let f = animation_scan(args, numbers, 0, no_flags())->Ok_0;
    let g = FlagsView { show_sketch: true, ..f };
    assert(animation_scan(full, nums, n + 1, g) == Ok::<FlagsView, Seq<char>>(g));
    assert(animation_scan(full, nums, n, f) == animation_scan(full, nums, n + 1, g));
}

/// An argument that names no animation flag is refused with its name: after
/// flags that read without error, an unknown option followed by a value is
/// reported as unknown.
pub proof fn lemma_unknown_flag_refused(args: Seq<Seq<char>>, numbers: Seq<bool>, flag: Seq<char>, value: Seq<char>, b0: bool, b1: bool)
    requires
        numbers.len() == args.len(),
        animation_scan(args, numbers, 0, no_flags()) is Ok,
        flag != "--show-sketch"@,
        flag != "--frames"@,
        flag != "--fps"@,
        flag != "--width"@,
        flag != "--height"@,
        flag != "--orbit-deg"@,
        flag != "--pitch-deg"@,
    ensures
        animation_scan(args + seq![flag, value], numbers + seq![b0, b1], 0, no_flags()) == Err::<FlagsView, Seq<char>>(
            "unknown animation option '"@ + flag + "'"@,
        ),
{
    lemma_scan_extend(args, numbers, seq![flag, value], seq![b0, b1], 0, no_flags());
    let full = args + seq![flag, value];
    let n = args.len() as int;
    assert(full[n] == flag);
    assert(full[n + 1] == value);
}

} // verus!
