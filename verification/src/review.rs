//! Deterministic review images for design patches: captions derived from the
//! semantic diff, and the frame sequence that tells the before/after story.

use vstd::prelude::*;

use crate::image::{RenderImage, copy_region, copy_region_spec, duplicate, fill_rect, fill_rect_spec};
use crate::font::{draw_text, draw_text_spec, text_width, text_width_spec};
use crate::error::OpenCadError;
use crate::text::{ascii_upper, decimal, push_decimal, to_ascii_upper};


verus! {

/// One semantic change of a design diff that the review captions describe.
#[derive(Debug, Clone)]
pub enum SemanticChange {
    ParameterChanged { id: String, before: String, after: String },
    MassChanged { before: String, after: String },
    Other,
}

/// The captions of a review image sequence.
#[derive(Debug, Clone, PartialEq, Eq)]
pub struct ReviewGifLabels {
    pub before_parameter: String,
    pub after_parameter: String,
    pub parameter_change: String,
    pub mass_change: Option<String>,
    pub checks: String,
    pub checks_passed: bool,
}

/// The text after the last `:` of `id` (all of `id` when it has none).
pub open spec fn last_segment(id: Seq<char>) -> Seq<char>
    decreases id.len(),
{
    if id.len() == 0 {
        id
    } else if id.last() == ':' {
        Seq::empty()
    } else {
        last_segment(id.drop_last()).push(id.last())
    }
}

/// Underscores and hyphens shown as spaces.
pub open spec fn spaced(s: Seq<char>) -> Seq<char> {
    s.map_values(|c: char| if c == '_' || c == '-' { ' ' } else { c })
}

/// ASCII upper-casing of every character.
pub open spec fn upper(s: Seq<char>) -> Seq<char> {
    s.map_values(|c: char| ascii_upper(c))
}

/// The display name of a parameter id: its last segment, spaced, upper-cased.
pub open spec fn parameter_display_name(id: Seq<char>) -> Seq<char> {
    upper(spaced(last_segment(id)))
}

/// Whether `i` is the position of the first parameter change.
pub open spec fn is_first_parameter_change(changes: Seq<SemanticChange>, i: int) -> bool {
    0 <= i < changes.len() && changes[i] is ParameterChanged && forall|j: int|
        0 <= j < i ==> !(#[trigger] changes[j] is ParameterChanged)
}

/// Whether `i` is the position of the first mass change.
pub open spec fn is_first_mass_change(changes: Seq<SemanticChange>, i: int) -> bool {
    0 <= i < changes.len() && changes[i] is MassChanged && forall|j: int|
        0 <= j < i ==> !(#[trigger] changes[j] is MassChanged)
}

/// Number of passed checks.
pub open spec fn count_passed(passed: Seq<bool>) -> nat
    decreases passed.len(),
{
    if passed.len() == 0 {
        0
    } else {
        count_passed(passed.drop_last()) + if passed.last() { 1nat } else { 0nat }
    }
}

/// The checks caption: `VALIDATION COMPLETE` without checks, otherwise
/// `passed/total CHECKS PASS`, with ` / REVIEW` when some failed.
pub open spec fn checks_caption(passed: nat, total: nat) -> Seq<char> {
    if total == 0 {
        "VALIDATION COMPLETE"@
    } else if passed == total {
        decimal(passed) + "/"@ + decimal(total) + " CHECKS PASS"@
    } else {
        decimal(passed) + "/"@ + decimal(total) + " CHECKS PASS / REVIEW"@
    }
}

/// The text of `s` after its last `:`.
fn last_segment_of(id: &str) -> (r: String)
    ensures
        r@ == last_segment(id@),
{
    let n = id.unicode_len();
    let mut start: usize = 0;
    let mut i: usize = 0;
    while i < n
        invariant
            n == id@.len(),
            i <= n,
            start <= i,
            last_segment(id@.subrange(0, i as int)) == id@.subrange(start as int, i as int),
        decreases n - i,
    {
        let c = id.get_char(i);
        let ghost prefix = id@.subrange(0, i as int);
        assert(id@.subrange(0, i + 1).drop_last() =~= prefix);
        if c == ':' {
            start = i + 1;
            assert(id@.subrange(start as int, i + 1) =~= Seq::<char>::empty());
        } else {
            assert(id@.subrange(start as int, i + 1) =~= id@.subrange(start as int, i as int).push(c));
        }
        i = i + 1;
    }
    assert(id@.subrange(0, n as int) =~= id@);
    id.substring_char(start, n).to_owned()
}

/// `s` with underscores and hyphens replaced by spaces.
fn spaced_of(s: &str) -> (r: String)
    ensures
        r@ == spaced(s@),
{
    let n = s.unicode_len();
    let mut out = String::new();
    let mut i: usize = 0;
    while i < n
        invariant
            n == s@.len(),
            i <= n,
            out@ =~= spaced(s@.subrange(0, i as int)),
        decreases n - i,
    {
        let c = s.get_char(i);
        if c == '_' || c == '-' {
            out.push(' ');
        } else {
            out.push(c);
        }
        i = i + 1;
    }
    assert(s@.subrange(0, n as int) =~= s@);
    out
}

/// The display name of a parameter id.
fn display_name(id: &str) -> (r: String)
    ensures
        r@ == parameter_display_name(id@),
{
    let segment = last_segment_of(id);
    let spaced_name = spaced_of(segment.as_str());
    let r = to_ascii_upper(spaced_name.as_str());
    r
}

/// The checks caption for `passed` of `total` checks.
fn checks_caption_of(passed: usize, total: usize) -> (r: String)
    ensures
        r@ == checks_caption(passed as nat, total as nat),
{
    if total == 0 {
        return "VALIDATION COMPLETE".to_owned();
    }
    let mut r = String::new();
    push_decimal(&mut r, passed as u64);
    r.push_str("/");
    push_decimal(&mut r, total as u64);
    if passed == total {
        r.push_str(" CHECKS PASS");
    } else {
        r.push_str(" CHECKS PASS / REVIEW");
    }
    r
}

impl ReviewGifLabels {
    /// Captions for a reviewed diff: the first parameter change names the
    /// before, after and change captions; the first mass change gives the mass
    /// caption; the effect results give the checks caption.
    pub fn from_review(changes: &[SemanticChange], effects_passed: &[bool]) -> (l: Self)
        ensures
            (forall|i: int| 0 <= i < changes@.len() ==> !(#[trigger] changes@[i] is ParameterChanged))
                ==> {
                &&& l.before_parameter@ == "ORIGINAL DESIGN"@
                &&& l.after_parameter@ == "PATCHED DESIGN"@
                &&& l.parameter_change@ == "SEMANTIC CHANGE VERIFIED"@
            },
            forall|i: int|
                #![trigger is_first_parameter_change(changes@, i)]
                is_first_parameter_change(changes@, i) ==> (changes@[i] matches SemanticChange::ParameterChanged { id, before, after } && {
                    let name = parameter_display_name(id@);
                    &&& l.before_parameter@ == name + "  "@ + upper(before@)
                    &&& l.after_parameter@ == name + "  "@ + upper(after@)
                    &&& l.parameter_change@ == name + "  "@ + upper(before@) + " > "@ + upper(after@)
                }),
            (forall|i: int| 0 <= i < changes@.len() ==> !(#[trigger] changes@[i] is MassChanged)) ==> l.mass_change is None,
            forall|i: int|
                #![trigger is_first_mass_change(changes@, i)]
                is_first_mass_change(changes@, i) ==> (changes@[i] matches SemanticChange::MassChanged { before, after } && l.mass_change matches Some(m) && m@ == "MASS  "@ + upper(before@) + " > "@ + upper(after@)),
            l.checks_passed == (count_passed(effects_passed@) == effects_passed@.len()),
            l.checks@ == checks_caption(count_passed(effects_passed@), effects_passed@.len()),
    {
        let n = changes.len();
        let mut before_parameter = "ORIGINAL DESIGN".to_owned();
        let mut after_parameter = "PATCHED DESIGN".to_owned();
        let mut parameter_change = "SEMANTIC CHANGE VERIFIED".to_owned();
        let mut i: usize = 0;
        let mut found = false;
        while i < n && !found
            invariant
                n == changes@.len(),
                i <= n,
                !found ==> forall|j: int| 0 <= j < i ==> !(#[trigger] changes@[j] is ParameterChanged),
                !found ==> before_parameter@ == "ORIGINAL DESIGN"@ && after_parameter@ == "PATCHED DESIGN"@ && parameter_change@ == "SEMANTIC CHANGE VERIFIED"@,
                found ==> i >= 1 && is_first_parameter_change(changes@, i - 1) && (changes@[i - 1] matches SemanticChange::ParameterChanged { id, before, after } && {
                    let name = parameter_display_name(id@);
                    &&& before_parameter@ == name + "  "@ + upper(before@)
                    &&& after_parameter@ == name + "  "@ + upper(after@)
                    &&& parameter_change@ == name + "  "@ + upper(before@) + " > "@ + upper(after@)
                }),
            decreases n - i + if found { 0int } else { 1int },
        {
            match &changes[i] {
                SemanticChange::ParameterChanged { id, before, after } => {
                    let name = display_name(id.as_str());
                    let before_upper = to_ascii_upper(before.as_str());
                    let after_upper = to_ascii_upper(after.as_str());
                    let mut b = name.clone();
                    b.push_str("  ");
                    b.push_str(before_upper.as_str());
                    let mut a = name.clone();
                    a.push_str("  ");
                    a.push_str(after_upper.as_str());
                    let mut c = name;
                    c.push_str("  ");
                    c.push_str(before_upper.as_str());
                    c.push_str(" > ");
                    c.push_str(after_upper.as_str());
                    before_parameter = b;
                    after_parameter = a;
                    parameter_change = c;
                    found = true;
                },
                _ => {},
            }
            i = i + 1;
        }
        proof {
            if found {
                assert forall|k: int| #[trigger] is_first_parameter_change(changes@, k) implies k == i - 1 by {
                    if k < i - 1 {
                        assert(!(changes@[k] is ParameterChanged));
                    }
                    if k > i - 1 {
                        assert(!(changes@[i - 1] is ParameterChanged));
                    }
                }
            }
        }
        let mut mass_change: Option<String> = None;
        let mut m: usize = 0;
        while m < n && mass_change.is_none()
            invariant
                n == changes@.len(),
                m <= n,
                mass_change is None ==> forall|j: int| 0 <= j < m ==> !(#[trigger] changes@[j] is MassChanged),
                mass_change matches Some(text) ==> m >= 1 && is_first_mass_change(changes@, m - 1) && (changes@[m - 1] matches SemanticChange::MassChanged { before, after } && text@ == "MASS  "@ + upper(before@) + " > "@ + upper(after@)),
            decreases n - m + if mass_change is None { 1int } else { 0int },
        {
            match &changes[m] {
                SemanticChange::MassChanged { before, after } => {
                    let mut text = "MASS  ".to_owned();
                    let bu = to_ascii_upper(before.as_str());
                    let au = to_ascii_upper(after.as_str());
                    text.push_str(bu.as_str());
                    text.push_str(" > ");
                    text.push_str(au.as_str());
                    mass_change = Some(text);
                },
                _ => {},
            }
            m = m + 1;
        }
        proof {
            if mass_change is Some {
                assert forall|k: int| #[trigger] is_first_mass_change(changes@, k) implies k == m - 1 by {
                    if k < m - 1 {
                        assert(!(changes@[k] is MassChanged));
                    }
                    if k > m - 1 {
                        assert(!(changes@[m - 1] is MassChanged));
                    }
                }
            }
        }
        let total = effects_passed.len();
        let mut passed: usize = 0;
        let mut e: usize = 0;
        while e < total
            invariant
                total == effects_passed@.len(),
                e <= total,
                passed <= e,
                passed == count_passed(effects_passed@.subrange(0, e as int)),
            decreases total - e,
        {
            assert(effects_passed@.subrange(0, e + 1).drop_last() =~= effects_passed@.subrange(0, e as int));
            if effects_passed[e] {
                passed = passed + 1;
            }
            e = e + 1;
        }
        assert(effects_passed@.subrange(0, total as int) =~= effects_passed@);
        let checks = checks_caption_of(passed, total);
        ReviewGifLabels {
            before_parameter,
            after_parameter,
            parameter_change,
            mass_change,
            checks,
            checks_passed: passed == total,
        }
    }
}

/// Caption text colour.
pub const INK: [u8; 3] = [236, 244, 255];
/// Secondary caption colour.
pub const MUTED: [u8; 3] = [166, 181, 204];
/// Accent of the design before the change.
pub const BLUE: [u8; 3] = [65, 168, 255];
/// Accent of work in progress and of failed checks.
pub const AMBER: [u8; 3] = [255, 172, 82];
/// Accent of verified results.
pub const GREEN: [u8; 3] = [83, 210, 145];
/// Background of the header and footer panels.
pub const PANEL: [u8; 3] = [12, 18, 29];

/// `a - b`, or zero when `b` exceeds `a`.
pub open spec fn sat_sub(a: int, b: int) -> int {
    if a >= b { a - b } else { 0 }
}

/// A frame the drawing helpers can work on: its buffer matches its
/// dimensions and one row of bytes fits in a `u32`.
pub open spec fn drawable(frame: &RenderImage) -> bool {
    frame.wf() && frame.width * 4 <= u32::MAX
}

/// The pixels after drawing a badge: a translucent box sized to `text` at
/// `(x, y)`, with `text` in the panel colour inside it.
pub open spec fn badge_spec(rgba: Seq<u8>, w: int, x: int, y: int, text: Seq<char>, color: [u8; 3]) -> Seq<u8> {
    let boxed = fill_rect_spec(rgba, w, x, y, text_width_spec(text.len(), 2) + 16, 25, color, 225);
    draw_text_spec(boxed, w, text, x + 8, y + 6, 2, PANEL)
}

/// The pixels after drawing the header: a dark panel with an accent rule,
/// the product title, and a badge naming the stage at the right edge.
pub open spec fn chrome_spec(rgba: Seq<u8>, w: int, stage: Seq<char>, accent: [u8; 3]) -> Seq<u8> {
    let panel = fill_rect_spec(rgba, w, 0, 0, w, 48, PANEL, 225);
    let ruled = fill_rect_spec(panel, w, 0, 47, w, 1, accent, 255);
    let titled = draw_text_spec(ruled, w, "MUSUBICAD / DESIGN PATCH REVIEW"@, 20, 17, 2, INK);
    badge_spec(titled, w, sat_sub(w, text_width_spec(stage.len(), 2) + 24 + 18), 11, stage, accent)
}

/// The pixels after drawing the footer: a dark panel along the bottom 68
/// rows with an accent bar, the primary caption and the secondary caption.
pub open spec fn footer_spec(
    rgba: Seq<u8>,
    w: int,
    h: int,
    primary: Seq<char>,
    secondary: Seq<char>,
    accent: [u8; 3],
) -> Seq<u8> {
    let top = sat_sub(h, 68);
    let panel = fill_rect_spec(rgba, w, 0, top, w, 68, PANEL, 225);
    let barred = fill_rect_spec(panel, w, 0, top, 7, 68, accent, 255);
    let first = draw_text_spec(barred, w, primary, 22, top + 13, 2, INK);
    draw_text_spec(first, w, secondary, 22, top + 40, 1, MUTED)
}

/// Draw a badge with `text` at `(x, y)`.
fn badge(frame: &mut RenderImage, x: u32, y: u32, text: &str, color: [u8; 3])
    requires
        drawable(old(frame)),
        text@.len() <= 64,
        x + 64 <= u32::MAX,
        y <= 64,
    ensures
        drawable(final(frame)),
        final(frame).width == old(frame).width,
        final(frame).height == old(frame).height,
        final(frame).non_background_pixels == old(frame).non_background_pixels,
        final(frame).rgba@ == badge_spec(old(frame).rgba@, old(frame).width as int, x as int, y as int, text@, color),
{
    let width = text_width(text, 2) + 16;
    fill_rect(frame, x, y, width, 25, color, 225);
    draw_text(frame, x + 8, y + 6, text, 2, PANEL);
}

/// Draw the header naming `stage` in the `accent` colour.
fn decorate_chrome(frame: &mut RenderImage, stage: &str, accent: [u8; 3])
    requires
        drawable(old(frame)),
        stage@.len() <= 64,
    ensures
        drawable(final(frame)),
        final(frame).width == old(frame).width,
        final(frame).height == old(frame).height,
        final(frame).non_background_pixels == old(frame).non_background_pixels,
        final(frame).rgba@ == chrome_spec(old(frame).rgba@, old(frame).width as int, stage@, accent),
{
    let w = frame.width;
    fill_rect(frame, 0, 0, w, 48, PANEL, 225);
    fill_rect(frame, 0, 47, w, 1, accent, 255);
    draw_text(frame, 20, 17, "MUSUBICAD / DESIGN PATCH REVIEW", 2, INK);
    let badge_width = text_width(stage, 2) + 24;
    badge(frame, w.saturating_sub(badge_width + 18), 11, stage, accent);
}

/// Draw the footer with the two captions.
fn draw_footer(frame: &mut RenderImage, primary: &str, secondary: &str, accent: [u8; 3])
    requires
        drawable(old(frame)),
    ensures
        drawable(final(frame)),
        final(frame).width == old(frame).width,
        final(frame).height == old(frame).height,
        final(frame).non_background_pixels == old(frame).non_background_pixels,
        final(frame).rgba@ == footer_spec(
            old(frame).rgba@,
            old(frame).width as int,
            old(frame).height as int,
            primary@,
            secondary@,
            accent,
        ),
{
    let w = frame.width;
    let top = frame.height.saturating_sub(68);
    fill_rect(frame, 0, top, w, 68, PANEL, 225);
    fill_rect(frame, 0, top, 7, 68, accent, 255);
    draw_text(frame, 22, top + 13, primary, 2, INK);
    draw_text(frame, 22, top + 40, secondary, 1, MUTED);
}

/// The pixels of a single-image frame: header, then footer.
pub open spec fn single_spec(
    rgba: Seq<u8>,
    w: int,
    h: int,
    stage: Seq<char>,
    primary: Seq<char>,
    secondary: Seq<char>,
    accent: [u8; 3],
) -> Seq<u8> {
    footer_spec(chrome_spec(rgba, w, stage, accent), w, h, primary, secondary, accent)
}

/// The column where a wipe `numerator/denominator` of the way across an
/// image `w` wide stands.
pub open spec fn wipe_boundary(w: int, numerator: int, denominator: int) -> int {
    w * numerator / denominator
}

/// The pixels of a wipe frame: the after image left of the boundary, the
/// before image right of it, and an amber seam along the boundary.
pub open spec fn wipe_spec(
    before: Seq<u8>,
    after: Seq<u8>,
    w: int,
    h: int,
    numerator: int,
    denominator: int,
) -> Seq<u8> {
    let boundary = wipe_boundary(w, numerator, denominator);
    let copied = copy_region_spec(before, after, w, 0, boundary);
    fill_rect_spec(copied, w, sat_sub(boundary, 3), 48, 6, sat_sub(h, 116), AMBER, 235)
}

/// The accent of a result: green when every check passed, amber otherwise.
pub open spec fn result_accent(checks_passed: bool) -> [u8; 3] {
    if checks_passed { GREEN } else { AMBER }
}

/// The secondary caption of the comparison frame: the mass change when
/// there is one, the checks caption otherwise.
pub open spec fn split_caption(labels: ReviewGifLabels) -> Seq<char> {
    match labels.mass_change {
        Some(m) => m@,
        None => labels.checks@,
    }
}

/// The pixels of the side-by-side frame: before on the left half, after on
/// the right half, a divider, both halves badged, and the change captions.
pub open spec fn split_spec(before: Seq<u8>, after: Seq<u8>, w: int, h: int, labels: ReviewGifLabels) -> Seq<u8> {
    let middle = w / 2;
    let copied = copy_region_spec(before, after, w, middle, w);
    let divided = fill_rect_spec(copied, w, sat_sub(middle, 2), 48, 4, sat_sub(h, 116), INK, 230);
    let headed = chrome_spec(divided, w, "VERIFIED DIFF"@, GREEN);
    let left = badge_spec(headed, w, 18, 62, "BEFORE"@, BLUE);
    let right = badge_spec(left, w, middle + 18, 62, "AFTER"@, GREEN);
    footer_spec(right, w, h, labels.parameter_change@, split_caption(labels), result_accent(labels.checks_passed))
}

/// Decorate `frame` with the header and footer.
fn decorate_single(mut frame: RenderImage, stage: &str, primary: &str, secondary: &str, accent: [u8; 3]) -> (r: RenderImage)
    requires
        drawable(&frame),
        stage@.len() <= 64,
    ensures
        drawable(&r),
        r.width == frame.width,
        r.height == frame.height,
        r.non_background_pixels == frame.non_background_pixels,
        r.rgba@ == single_spec(frame.rgba@, frame.width as int, frame.height as int, stage@, primary@, secondary@, accent),
{
    decorate_chrome(&mut frame, stage, accent);
    draw_footer(&mut frame, primary, secondary, accent);
    frame
}

/// The wipe frame `numerator/denominator` of the way from `before` to `after`.
fn wipe_frame(before: &RenderImage, after: &RenderImage, numerator: u64, denominator: u64) -> (r: RenderImage)
    requires
        drawable(before),
        after.rgba@.len() == before.rgba@.len(),
        numerator <= denominator,
        0 < denominator <= u32::MAX + 1,
    ensures
        drawable(&r),
        r.width == before.width,
        r.height == before.height,
        r.non_background_pixels == before.non_background_pixels,
        r.rgba@ == wipe_spec(before.rgba@, after.rgba@, before.width as int, before.height as int, numerator as int, denominator as int),
{
    let mut frame = duplicate(before);
    let w = before.width as u64;
    proof {
        assert(w * numerator <= w * denominator) by (nonlinear_arith)
            requires numerator <= denominator;
        assert(w * denominator <= 0x4000_0000 * 0x1_0000_0000) by (nonlinear_arith)
            requires w <= 0x4000_0000, denominator <= 0x1_0000_0000;
        assert((w * numerator) as int / (denominator as int) <= w) by (nonlinear_arith)
            requires w * numerator <= w * denominator, denominator > 0;
    }
    let boundary = (w * numerator / denominator) as u32;
    let content_height = frame.height.saturating_sub(116);
    copy_region(after, &mut frame, 0, boundary);
    fill_rect(&mut frame, boundary.saturating_sub(3), 48, 6, content_height, AMBER, 235);
    frame
}

/// The side-by-side comparison frame.
fn split_frame(before: &RenderImage, after: &RenderImage, labels: &ReviewGifLabels) -> (r: RenderImage)
    requires
        drawable(before),
        after.rgba@.len() == before.rgba@.len(),
    ensures
        drawable(&r),
        r.width == before.width,
        r.height == before.height,
        r.non_background_pixels == before.non_background_pixels,
        r.rgba@ == split_spec(before.rgba@, after.rgba@, before.width as int, before.height as int, *labels),
{
    let mut frame = duplicate(before);
    let middle = frame.width / 2;
    let width = frame.width;
    let content_height = frame.height.saturating_sub(116);
    copy_region(after, &mut frame, middle, width);
    fill_rect(&mut frame, middle.saturating_sub(2), 48, 4, content_height, INK, 230);
    proof {
        reveal_strlit("VERIFIED DIFF");
        reveal_strlit("BEFORE");
        reveal_strlit("AFTER");
    }
    decorate_chrome(&mut frame, "VERIFIED DIFF", GREEN);
    badge(&mut frame, 18, 62, "BEFORE", BLUE);
    badge(&mut frame, middle + 18, 62, "AFTER", GREEN);
    let secondary = match &labels.mass_change {
        Some(m) => m.as_str(),
        None => labels.checks.as_str(),
    };
    let accent = if labels.checks_passed { GREEN } else { AMBER };
    draw_footer(&mut frame, labels.parameter_change.as_str(), secondary, accent);
    frame
}

/// The pixels of frame `i` of the review story at `fps` frames per second:
/// one second of the before image, one second wiping across to the after
/// image, one second of the after image, and two seconds side by side.
pub open spec fn story_pixels(
    before: Seq<u8>,
    after: Seq<u8>,
    w: int,
    h: int,
    labels: ReviewGifLabels,
    fps: int,
    i: int,
) -> Seq<u8> {
    if i < fps {
        single_spec(before, w, h, "BEFORE"@, labels.before_parameter@, "DESIGN GRAPH SOURCE"@, BLUE)
    } else if i < 2 * fps {
        footer_spec(
            chrome_spec(wipe_spec(before, after, w, h, i - fps + 1, fps + 1), w, "DRY RUN + REGEN"@, AMBER),
            w,
            h,
            labels.parameter_change@,
            "TRANSACTIONAL / SOURCE UNCHANGED"@,
            AMBER,
        )
    } else if i < 3 * fps {
        single_spec(after, w, h, "AFTER"@, labels.after_parameter@, labels.checks@, result_accent(labels.checks_passed))
    } else {
        split_spec(before, after, w, h, labels)
    }
}

/// Frame `i` of the story: the dimensions of the inputs, the pixel count of
/// the image it was drawn from, and the story's pixels.
pub open spec fn story_frame(
    frame: RenderImage,
    before: RenderImage,
    after: RenderImage,
    labels: ReviewGifLabels,
    fps: int,
    i: int,
) -> bool {
    &&& frame.width == before.width
    &&& frame.height == before.height
    &&& frame.non_background_pixels == if 2 * fps <= i < 3 * fps {
        after.non_background_pixels
    } else {
        before.non_background_pixels
    }
    &&& frame.rgba@ == story_pixels(
        before.rgba@,
        after.rgba@,
        before.width as int,
        before.height as int,
        labels,
        fps,
        i,
    )
}

/// The review story from `before` to `after`: five seconds of frames at
/// `frames_per_second`.  Images of different sizes and a zero frame rate are
/// refused.
#[verifier::loop_isolation(false)]
pub fn comparison_frames(
    before: &RenderImage,
    after: &RenderImage,
    labels: &ReviewGifLabels,
    frames_per_second: u32,
) -> (r: Result<Vec<RenderImage>, OpenCadError>)
    requires
        before.width == after.width && before.height == after.height && frames_per_second > 0 ==> {
            &&& before.wf()
            &&& after.wf()
            &&& before.width * 4 <= u32::MAX
        },
    ensures
        match r {
            Ok(frames) => {
                &&& before.width == after.width
                &&& before.height == after.height
                &&& frames_per_second > 0
                &&& frames@.len() == 5 * frames_per_second
                &&& forall|i: int|
                    0 <= i < frames@.len() ==> #[trigger] story_frame(
                        frames@[i],
                        *before,
                        *after,
                        *labels,
                        frames_per_second as int,
                        i,
                    )
            },
            Err(e) => e matches OpenCadError::Validation(m) && if before.width != after.width
                || before.height != after.height {
                m@ == "review GIF images must have identical pixel dimensions"@
            } else {
                frames_per_second == 0 && m@ == "review GIF frame rate must be positive"@
            },
        },
{
    if before.width != after.width || before.height != after.height {
        return Err(OpenCadError::validation("review GIF images must have identical pixel dimensions"));
    }
    if frames_per_second == 0 {
        return Err(OpenCadError::validation("review GIF frame rate must be positive"));
    }
    proof {
        reveal_strlit("BEFORE");
        reveal_strlit("AFTER");
        reveal_strlit("DRY RUN + REGEN");
    }
    let fps = frames_per_second;
    let ghost f = fps as int;
    let mut frames: Vec<RenderImage> = Vec::new();
    let mut k: u32 = 0;
    while k < fps
        invariant
            k <= fps,
            f == fps,
            frames@.len() == k,
            forall|i: int| 0 <= i < frames@.len() ==> #[trigger] story_frame(frames@[i], *before, *after, *labels, f, i),
        decreases fps - k,
    {
        let frame = decorate_single(
            duplicate(before),
            "BEFORE",
            labels.before_parameter.as_str(),
            "DESIGN GRAPH SOURCE",
            BLUE,
        );
        frames.push(frame);
        k = k + 1;
    }
    let mut k: u32 = 0;
    while k < fps
        invariant
            k <= fps,
            f == fps,
            frames@.len() == f + k,
            forall|i: int| 0 <= i < frames@.len() ==> #[trigger] story_frame(frames@[i], *before, *after, *labels, f, i),
        decreases fps - k,
    {
        let mut frame = wipe_frame(before, after, k as u64 + 1, fps as u64 + 1);
        decorate_chrome(&mut frame, "DRY RUN + REGEN", AMBER);
        draw_footer(&mut frame, labels.parameter_change.as_str(), "TRANSACTIONAL / SOURCE UNCHANGED", AMBER);
        frames.push(frame);
        k = k + 1;
    }
    let accent = if labels.checks_passed { GREEN } else { AMBER };
    let mut k: u32 = 0;
    while k < fps
        invariant
            k <= fps,
            f == fps,
            accent == result_accent(labels.checks_passed),
            frames@.len() == 2 * f + k,
            forall|i: int| 0 <= i < frames@.len() ==> #[trigger] story_frame(frames@[i], *before, *after, *labels, f, i),
        decreases fps - k,
    {
        let frame = decorate_single(
            duplicate(after),
            "AFTER",
            labels.after_parameter.as_str(),
            labels.checks.as_str(),
            accent,
        );
        frames.push(frame);
        k = k + 1;
    }
    let total: u64 = fps as u64 * 2;
    let mut k: u64 = 0;
    while k < total
        invariant
            k <= total,
            total == 2 * f,
            f == fps,
            frames@.len() == 3 * f + k,
            forall|i: int| 0 <= i < frames@.len() ==> #[trigger] story_frame(frames@[i], *before, *after, *labels, f, i),
        decreases total - k,
    {
        frames.push(split_frame(before, after, labels));
        k = k + 1;
    }
    Ok(frames)
}

/// The side-by-side frames of the story carry the mass change when there is
/// one, where the checks caption would otherwise stand: they are exactly the
/// frames drawn for the same captions without a mass change and with the mass
/// change given as the checks caption.
pub proof fn lemma_split_frames_show_mass_change(
    before: Seq<u8>,
    after: Seq<u8>,
    w: int,
    h: int,
    labels: ReviewGifLabels,
    mass: String,
    fps: int,
    i: int,
)
    requires
        labels.mass_change == Some(mass),
        0 < fps,
        3 * fps <= i,
    ensures
        story_pixels(before, after, w, h, labels, fps, i) == story_pixels(
            before,
            after,
            w,
            h,
            ReviewGifLabels { mass_change: None, checks: mass, ..labels },
            fps,
            i,
        ),
{
}

/// When there is a mass change, the checks caption does not show in the
/// side-by-side frames: captions that differ only in it give the same frames.
pub proof fn lemma_split_frames_ignore_checks_with_mass_change(
    before: Seq<u8>,
    after: Seq<u8>,
    w: int,
    h: int,
    labels: ReviewGifLabels,
    checks: String,
    fps: int,
    i: int,
)
    requires
        labels.mass_change is Some,
        0 < fps,
        3 * fps <= i,
    ensures
        story_pixels(before, after, w, h, labels, fps, i) == story_pixels(
            before,
            after,
            w,
            h,
            ReviewGifLabels { checks, ..labels },
            fps,
            i,
        ),
{
}

/// The first second of the story shows the before image with the before
/// caption only: the after image and every other caption leave it unchanged.
pub proof fn lemma_before_frames_show_only_before(
    before: Seq<u8>,
    after: Seq<u8>,
    other_after: Seq<u8>,
    w: int,
    h: int,
    labels: ReviewGifLabels,
    other: ReviewGifLabels,
    fps: int,
    i: int,
)
    requires
        0 <= i < fps,
        other.before_parameter == labels.before_parameter,
    ensures
        story_pixels(before, after, w, h, labels, fps, i) == story_pixels(before, other_after, w, h, other, fps, i),
{
}

/// The wipe frames caption the parameter change only: every other caption
/// leaves them unchanged.
pub proof fn lemma_wipe_frames_show_parameter_change(
    before: Seq<u8>,
    after: Seq<u8>,
    w: int,
    h: int,
    labels: ReviewGifLabels,
    other: ReviewGifLabels,
    fps: int,
    i: int,
)
    requires
        fps <= i < 2 * fps,
        other.parameter_change == labels.parameter_change,
    ensures
        story_pixels(before, after, w, h, labels, fps, i) == story_pixels(before, after, w, h, other, fps, i),
{
}

/// The third second of the story shows the after image with its caption,
/// the checks caption and the checks' outcome only: the before image, the
/// before caption, the parameter change and the mass change leave it
/// unchanged.
pub proof fn lemma_after_frames_show_only_after(
    before: Seq<u8>,
    other_before: Seq<u8>,
    after: Seq<u8>,
    w: int,
    h: int,
    labels: ReviewGifLabels,
    other: ReviewGifLabels,
    fps: int,
    i: int,
)
    requires
        2 * fps <= i < 3 * fps,
        other.after_parameter == labels.after_parameter,
        other.checks == labels.checks,
        other.checks_passed == labels.checks_passed,
    ensures
        story_pixels(before, after, w, h, labels, fps, i) == story_pixels(other_before, after, w, h, other, fps, i),
{
}

/// The side-by-side frames do not show the before and after captions of the
/// parameter: captions that differ only in those give the same frames.
pub proof fn lemma_split_frames_ignore_parameter_values(
    before: Seq<u8>,
    after: Seq<u8>,
    w: int,
    h: int,
    labels: ReviewGifLabels,
    other: ReviewGifLabels,
    fps: int,
    i: int,
)
    requires
        0 < fps,
        3 * fps <= i,
        other.parameter_change == labels.parameter_change,
        other.mass_change == labels.mass_change,
        other.checks == labels.checks,
        other.checks_passed == labels.checks_passed,
    ensures
        story_pixels(before, after, w, h, labels, fps, i) == story_pixels(before, after, w, h, other, fps, i),
{
    assert(split_caption(labels) == split_caption(other));
    assert(split_spec(before, after, w, h, labels) == split_spec(before, after, w, h, other));
}

/// The last segment of an id is the longest end of it without a `:`: it
/// ends the id, holds no `:`, and is all of the id or follows a `:`.
pub proof fn lemma_last_segment_is_tail_after_colon(id: Seq<char>)
    ensures
        last_segment(id).len() <= id.len(),
        last_segment(id) == id.subrange(id.len() - last_segment(id).len(), id.len() as int),
        !last_segment(id).contains(':'),
        last_segment(id).len() == id.len() || id[id.len() - last_segment(id).len() - 1] == ':',
    decreases id.len(),
{
    if id.len() > 0 && id.last() != ':' {
        let rest = id.drop_last();
        lemma_last_segment_is_tail_after_colon(rest);
        let seg = last_segment(rest);
        assert(id.subrange(id.len() - seg.len() - 1, id.len() as int) =~= rest.subrange(
            rest.len() - seg.len(),
            rest.len() as int,
        ).push(id.last()));
        assert forall|k: int| 0 <= k < seg.push(id.last()).len() implies seg.push(id.last())[k] != ':' by {
            if k < seg.len() {
                assert(!seg.contains(':'));
                assert(seg[k] != ':');
            }
        }
        if seg.len() < rest.len() {
            assert(id[id.len() - seg.len() - 2] == rest[rest.len() - seg.len() - 1]);
        }
    } else if id.len() > 0 {
        assert(id.subrange(id.len() as int, id.len() as int) =~= Seq::<char>::empty());
    } else {
        assert(id.subrange(0, 0) =~= id);
    }
}

/// The passed count never exceeds the checks, and equals them exactly when
/// every check passed.
pub proof fn lemma_count_passed_full_iff_all_passed(passed: Seq<bool>)
    ensures
        count_passed(passed) <= passed.len(),
        count_passed(passed) == passed.len() <==> forall|i: int| 0 <= i < passed.len() ==> #[trigger] passed[i],
    decreases passed.len(),
{
    if passed.len() > 0 {
        let rest = passed.drop_last();
        lemma_count_passed_full_iff_all_passed(rest);
        if count_passed(passed) == passed.len() {
            assert forall|i: int| 0 <= i < passed.len() implies #[trigger] passed[i] by {
                if i < rest.len() {
                    assert(rest[i] == passed[i]);
                }
            }
        }
        if forall|i: int| 0 <= i < passed.len() ==> #[trigger] passed[i] {
            assert forall|i: int| 0 <= i < rest.len() implies #[trigger] rest[i] by {
                assert(passed[i]);
            }
            assert(passed[passed.len() - 1]);
        }
    }
}

} // verus!
