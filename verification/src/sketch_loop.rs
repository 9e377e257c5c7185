//! Ordering the lines of a closed sketch profile into a loop of points.
//!
//! The lines are chained end to end, starting with the profile's first line;
//! each next line is the first remaining one that touches the current end.

use indexmap::IndexMap;
use vstd::prelude::*;

use crate::error::OpenCadError;

verus! {

/// A line entity of a sketch: its id and the ids of its end points.
#[derive(Debug, Clone, PartialEq, Eq)]
pub struct SketchLine {
    pub id: String,
    pub start: String,
    pub end: String,
}

/// How the chaining of a profile's lines ended.
#[derive(Debug, Clone, Copy, PartialEq, Eq, Structural)]
pub enum LoopOutcome {
    /// The chain came back to its first point.
    Closed,
    /// No remaining line touches the current end.
    NotClosed,
    /// The chain visited more points than the profile has lines, plus one.
    TooLong,
}

/// The point ids visited while chaining, in order, and how chaining ended.
#[derive(Debug, Clone, PartialEq, Eq)]
pub struct LoopTrace {
    pub points: Vec<String>,
    pub outcome: LoopOutcome,
}

/// A line as its end point ids.
pub type Ends = (Seq<char>, Seq<char>);

/// The lines of a sketch as (id, start, end) texts.
pub open spec fn lines_view(lines: Seq<SketchLine>) -> Seq<(Seq<char>, Seq<char>, Seq<char>)> {
    lines.map_values(|l: SketchLine| (l.id@, l.start@, l.end@))
}

/// The position of the line with id `id` among the first `n` lines: the
/// last one of that id, as a map keyed by id keeps it.
pub open spec fn line_position(lines: Seq<(Seq<char>, Seq<char>, Seq<char>)>, id: Seq<char>, n: int) -> Option<int>
    decreases n,
{
    if n <= 0 {
        None
    } else if lines[n - 1].0 == id {
        Some(n - 1)
    } else {
        line_position(lines, id, n - 1)
    }
}

/// The index of the first line in `remaining` that touches `p`.
pub open spec fn first_touching(remaining: Seq<Ends>, p: Seq<char>, n: int) -> Option<int>
    decreases n,
{
    if n <= 0 {
        None
    } else {
        match first_touching(remaining, p, n - 1) {
            Some(i) => Some(i),
            None => if remaining[n - 1].0 == p || remaining[n - 1].1 == p {
                Some(n - 1)
            } else {
                None
            },
        }
    }
}

/// Chaining from `current` with the lines `remaining` left, having visited
/// `visits`: stop when back at `start`, when nothing touches the current end,
/// or when more than `limit` points have been visited.
pub open spec fn chain(start: Seq<char>, current: Seq<char>, remaining: Seq<Ends>, visits: Seq<Seq<char>>, limit: int) -> (
    Seq<Seq<char>>,
    LoopOutcome,
)
    decreases remaining.len(),
{
    if current == start {
        (visits, LoopOutcome::Closed)
    } else {
        match first_touching(remaining, current, remaining.len() as int) {
            None => (visits, LoopOutcome::NotClosed),
            Some(i) => {
                let next = if remaining[i].0 == current { remaining[i].1 } else { remaining[i].0 };
                let visited = visits.push(next);
                if visited.len() > limit {
                    (visited, LoopOutcome::TooLong)
                } else {
                    proof {
                        lemma_first_touching(remaining, current, remaining.len() as int);
                    }
                    chain(start, next, remaining.remove(i), visited, limit)
                }
            },
        }
    }
}

/// The line `first_touching` finds touches `p` and no earlier line does;
/// when it finds none, no line touches `p`.
pub proof fn lemma_first_touching(remaining: Seq<Ends>, p: Seq<char>, n: int)
    requires
        0 <= n <= remaining.len(),
    ensures
        first_touching(remaining, p, n) matches Some(i) ==> 0 <= i < n && (remaining[i].0 == p
            || remaining[i].1 == p) && forall|j: int| 0 <= j < i ==> !(remaining[j].0 == p || remaining[j].1 == p),
        first_touching(remaining, p, n) is None ==> forall|j: int| 0 <= j < n ==> !(remaining[j].0 == p
            || remaining[j].1 == p),
    decreases n,
{
    if n > 0 {
        lemma_first_touching(remaining, p, n - 1);
    }
}

/// The ends of the profile's lines, in profile order, once every id has
/// been found.
pub open spec fn profile_ends(lines: Seq<(Seq<char>, Seq<char>, Seq<char>)>, ids: Seq<Seq<char>>) -> Seq<Ends> {
    ids.map_values(|id: Seq<char>| {
        let k = line_position(lines, id, lines.len() as int).unwrap();
        (lines[k].1, lines[k].2)
    })
}

/// The first profile id that names no line, if any.
pub open spec fn first_missing(lines: Seq<(Seq<char>, Seq<char>, Seq<char>)>, ids: Seq<Seq<char>>) -> Option<int> {
    if exists|i: int| 0 <= i < ids.len() && line_position(lines, #[trigger] ids[i], lines.len() as int) is None {
        Some(choose|i: int| 0 <= i < ids.len() && line_position(lines, #[trigger] ids[i], lines.len() as int) is None
            && forall|j: int| 0 <= j < i ==> line_position(lines, #[trigger] ids[j], lines.len() as int) is Some)
    } else {
        None
    }
}

/// The trace of chaining the lines of a profile.
pub open spec fn profile_chain(ends: Seq<Ends>) -> (Seq<Seq<char>>, LoopOutcome) {
    chain(ends[0].0, ends[0].1, ends.drop_first(), seq![ends[0].0, ends[0].1], ends.len() + 1int)
}

/// A found position is a line of that id among the first `n`.
proof fn lemma_line_position(lines: Seq<(Seq<char>, Seq<char>, Seq<char>)>, id: Seq<char>, n: int)
    requires
        n <= lines.len(),
    ensures
        line_position(lines, id, n) matches Some(k) ==> 0 <= k < n && lines[k].0 == id,
    decreases n,
{
    if n > 0 {
        lemma_line_position(lines, id, n - 1);
    }
}

/// An insertion-ordered hash map of `indexmap`.
#[verifier::external_type_specification]
#[verifier::external_body]
#[verifier::reject_recursive_types(K)]
#[verifier::reject_recursive_types(V)]
#[verifier::reject_recursive_types(S)]
pub struct ExIndexMap<K, V, S>(IndexMap<K, V, S>);

/// The lines of a sketch indexed by id, each id mapped to a line position.
pub type LineIndex = IndexMap<String, usize>;

/// What a line index holds: line ids, as text, to line positions.
pub uninterp spec fn line_index_contents(index: LineIndex) -> Map<Seq<char>, usize>;

/// `IndexMap::new`.  Trusted: the new map holds nothing.
#[verifier::external_body]
fn new_line_index() -> (fresh: LineIndex)
    ensures
        line_index_contents(fresh).dom() == Set::<Seq<char>>::empty(),
{
    IndexMap::new()
}

/// `IndexMap::insert`.  Trusted: afterwards `id` maps to `position`, which
/// replaces any earlier value of `id`, and every other entry is unchanged.
#[verifier::external_body]
fn line_index_insert(index: &mut LineIndex, id: String, position: usize)
    ensures
        line_index_contents(*final(index)) == line_index_contents(*old(index)).insert(id@, position),
{
    index.insert(id, position);
}

/// `IndexMap::get`.  Trusted: the value stored under `id`, if there is one.
#[verifier::external_body]
fn line_index_get(index: &LineIndex, id: &str) -> (r: Option<usize>)
    ensures
        match r {
            Some(k) => line_index_contents(*index).contains_key(id@) && line_index_contents(*index)[id@] == k,
            None => !line_index_contents(*index).contains_key(id@),
        },
{
    index.get(id).copied()
}

/// Whether `m` maps each id to the position of the last of the first `n`
/// lines with that id, and holds no other id.
pub open spec fn indexes_lines(m: Map<Seq<char>, usize>, lines: Seq<(Seq<char>, Seq<char>, Seq<char>)>, n: int) -> bool {
    forall|id: Seq<char>|
        #![trigger m.dom().contains(id)]
        #![trigger line_position(lines, id, n)]
        match line_position(lines, id, n) {
            Some(k) => m.contains_key(id) && m[id] == k,
            None => !m.contains_key(id),
        }
}

/// Index the sketch's lines by id; a later line with the same id replaces an
/// earlier one.
fn build_line_index(lines: &[SketchLine]) -> (index: LineIndex)
    ensures
        indexes_lines(line_index_contents(index), lines_view(lines@), lines@.len() as int),
{
    let ghost all = lines_view(lines@);
    let n = lines.len();
    let mut index = new_line_index();
    let mut i: usize = 0;
    while i < n
        invariant
            n == lines@.len(),
            all == lines_view(lines@),
            i <= n,
            indexes_lines(line_index_contents(index), all, i as int),
        decreases n - i,
    {
        let ghost before = line_index_contents(index);
        assert(all[i as int] == (lines@[i as int].id@, lines@[i as int].start@, lines@[i as int].end@));
        line_index_insert(&mut index, lines[i].id.clone(), i);
        proof {
            let after = line_index_contents(index);
            assert forall|id: Seq<char>| match #[trigger] line_position(all, id, i + 1) {
                Some(k) => after.contains_key(id) && after[id] == k,
                None => !after.contains_key(id),
            } by {
                if id != all[i as int].0 {
                    assert(line_position(all, id, i + 1) == line_position(all, id, i as int));
                    assert(before.dom().contains(id) == after.dom().contains(id));
                }
            }
        }
        i = i + 1;
    }
    index
}

/// The position of the line called `id`, looked up in the sketch's index.
fn find_line(index: &LineIndex, lines: &[SketchLine], id: &str) -> (r: Option<usize>)
    requires
        indexes_lines(line_index_contents(*index), lines_view(lines@), lines@.len() as int),
    ensures
        match line_position(lines_view(lines@), id@, lines@.len() as int) {
            Some(k) => r == Some(k as usize),
            None => r is None,
        },
{
    let r = line_index_get(index, id);
    assert(line_index_contents(*index).dom().contains(id@) == line_index_contents(*index).contains_key(id@));
    r
}

/// The position of the first line of `remaining` touching `p`.
fn find_touching(remaining: &Vec<(String, String)>, p: &str) -> (r: Option<usize>)
    ensures
        match first_touching(ends_view(remaining@), p@, remaining@.len() as int) {
            Some(i) => r == Some(i as usize),
            None => r is None,
        },
{
    let ghost ends = ends_view(remaining@);
    let n = remaining.len();
    let mut i: usize = 0;
    proof {
        lemma_first_touching(ends, p@, n as int);
    }
    while i < n
        invariant
            n == remaining@.len(),
            ends == ends_view(remaining@),
            i <= n,
            forall|j: int| 0 <= j < i ==> !(ends[j].0 == p@ || ends[j].1 == p@),
            first_touching(ends, p@, n as int) matches Some(k) ==> i <= k && 0 <= k < n && (ends[k].0
                == p@ || ends[k].1 == p@) && forall|j: int| 0 <= j < k ==> !(ends[j].0 == p@ || ends[j].1 == p@),
            first_touching(ends, p@, n as int) is None ==> forall|j: int| 0 <= j < n ==> !(ends[j].0 == p@
                || ends[j].1 == p@),
        decreases n - i,
    {
        assert(ends[i as int] == (remaining@[i as int].0@, remaining@[i as int].1@));
        if remaining[i].0.as_str().eq(p) || remaining[i].1.as_str().eq(p) {
            return Some(i);
        }
        i = i + 1;
    }
    None
}

/// The ends of owned line copies.
pub open spec fn ends_view(remaining: Seq<(String, String)>) -> Seq<Ends> {
    remaining.map_values(|e: (String, String)| (e.0@, e.1@))
}

/// The texts of a list of strings.
pub open spec fn texts(v: Seq<String>) -> Seq<Seq<char>> {
    v.map_values(|s: String| s@)
}

/// Chain the lines named by `profile_ids` (looked up among the sketch's
/// `lines`) into the sequence of point ids they visit.  A profile id that
/// names no line, and a profile without lines, are refused.
pub fn chain_profile_lines(lines: &[SketchLine], profile_ids: &[String]) -> (r: Result<LoopTrace, OpenCadError>)
    ensures
        ({
            let lv = lines_view(lines@);
            let ids = texts(profile_ids@);
            match first_missing(lv, ids) {
                Some(i) => r matches Err(OpenCadError::NotFound(m)) && m@ == "line '"@ + ids[i] + "'"@,
                None => if ids.len() == 0 {
                    r matches Err(OpenCadError::Validation(m)) && m@ == "profile has no line entities"@
                } else {
                    r matches Ok(trace) && (texts(trace.points@), trace.outcome) == profile_chain(profile_ends(lv, ids))
                },
            }
        }),
{
    let ghost lv = lines_view(lines@);
    let ghost ids = texts(profile_ids@);
    let index = build_line_index(lines);
    let n = profile_ids.len();
    let mut ends: Vec<(String, String)> = Vec::new();
    let mut i: usize = 0;
    while i < n
        invariant
            n == profile_ids@.len(),
            lv == lines_view(lines@),
            indexes_lines(line_index_contents(index), lv, lv.len() as int),
            ids == texts(profile_ids@),
            i <= n,
            forall|j: int| 0 <= j < i ==> line_position(lv, #[trigger] ids[j], lv.len() as int) is Some,
            ends_view(ends@) =~= profile_ends(lv, ids.subrange(0, i as int)),
        decreases n - i,
    {
        let id = profile_ids[i].as_str();
        assert(id@ == ids[i as int]);
        proof {
            lemma_line_position(lv, ids[i as int], lv.len() as int);
        }
        match find_line(&index, lines, id) {
            None => {
                proof {
                    assert(line_position(lv, ids[i as int], lv.len() as int) is None);
                    assert(first_missing(lv, ids) == Some(i as int)) by {
                        let c = choose|c: int| 0 <= c < ids.len() && line_position(lv, #[trigger] ids[c], lv.len() as int) is None
                            && forall|j: int| 0 <= j < c ==> line_position(lv, #[trigger] ids[j], lv.len() as int) is Some;
                        if c < i {
                        } else if c > i {
                            assert(line_position(lv, ids[i as int], lv.len() as int) is Some);
                        }
                    }
                }
                let mut m = "line '".to_owned();
                m.push_str(id);
                m.push_str("'");
                return Err(OpenCadError::NotFound(m));
            },
            Some(k) => {
                let ghost before = ends@;
                ends.push((lines[k].start.clone(), lines[k].end.clone()));
                proof {
                    let prefix = ids.subrange(0, i as int);
                    assert(ids.subrange(0, i + 1) =~= prefix.push(ids[i as int]));
                    assert(lv[k as int] == (lines@[k as int].id@, lines@[k as int].start@, lines@[k as int].end@));
                    assert(ends_view(ends@) =~= ends_view(before).push((lines@[k as int].start@, lines@[k as int].end@)));
                    assert(profile_ends(lv, prefix.push(ids[i as int])) =~= profile_ends(lv, prefix).push(
                        (lv[k as int].1, lv[k as int].2),
                    ));
                }
            },
        }
        i = i + 1;
    }
    assert(ids.subrange(0, n as int) =~= ids);
    assert(first_missing(lv, ids) is None);
    if n == 0 {
        return Err(OpenCadError::validation("profile has no line entities"));
    }
    let ghost all_ends = ends_view(ends@);
    let start = ends[0].0.clone();
    let first_end = ends[0].1.clone();
    let mut points: Vec<String> = Vec::new();
    points.push(start.clone());
    points.push(first_end.clone());
    let mut current = first_end;
    let mut remaining = ends;
    remaining.remove(0);
    assert(ends_view(remaining@) =~= all_ends.drop_first());
    assert(texts(points@) =~= seq![all_ends[0].0, all_ends[0].1]);
    let ghost goal = profile_chain(all_ends);
    let mut outcome = LoopOutcome::NotClosed;
    let mut done = false;
    while !done
        invariant
            n == all_ends.len(),
            n >= 1,
            start@ == all_ends[0].0,
            goal == profile_chain(all_ends),
            !done ==> goal == chain(start@, current@, ends_view(remaining@), texts(points@), n + 1),
            done ==> goal == (texts(points@), outcome),
            points@.len() >= 2,
            !done ==> points@.len() <= n + 1,
        decreases remaining@.len() + if done { 0int } else { 1int },
    {
        let ghost rv = ends_view(remaining@);
        let ghost cur = current@;
        let ghost pts = texts(points@);
        proof {
            lemma_first_touching(rv, current@, rv.len() as int);
        }
        if current.as_str().eq(start.as_str()) {
            outcome = LoopOutcome::Closed;
            done = true;
        } else {
            let cur_str = current.as_str();
            assert(cur_str@ == cur);
            let remaining_len = remaining.len();
            let found = find_touching(&remaining, cur_str);
            assert(rv.len() == remaining_len);
            assert(found matches Some(k) ==> first_touching(rv, cur, rv.len() as int) == Some(k as int));
            match found {
                None => {
                    outcome = LoopOutcome::NotClosed;
                    done = true;
                },
                Some(idx) => {
                    let line = remaining.remove(idx);
                    assert(ends_view(remaining@) =~= rv.remove(idx as int));
                    assert(rv[idx as int] == (line.0@, line.1@));
                    if line.0.as_str().eq(current.as_str()) {
                        current = line.1;
                    } else {
                        current = line.0;
                    }
                    let ghost before = points@;
                    points.push(current.clone());
                    assert(texts(points@) =~= texts(before).push(current@));
                    proof {
                        let next = if rv[idx as int].0 == cur { rv[idx as int].1 } else { rv[idx as int].0 };
                        assert(current@ == next);
                        assert(cur != start@);
                        assert(first_touching(rv, cur, rv.len() as int) == Some(idx as int));
                        assert(chain(start@, cur, rv, pts, n + 1) == (if pts.push(next).len() > n + 1 {
                            (pts.push(next), LoopOutcome::TooLong)
                        } else {
                            chain(start@, next, rv.remove(idx as int), pts.push(next), n + 1)
                        }));
                    }
                    if points.len() - 1 > n {
                        outcome = LoopOutcome::TooLong;
                        done = true;
                    }
                },
            }
        }
    }
    Ok(LoopTrace { points, outcome })
}

/// The points of a closed loop: a chain that came back to its first point
/// visits it twice, and the repeated point at the end is dropped.
pub open spec fn loop_points(points: Seq<Seq<char>>) -> Seq<Seq<char>> {
    if points.len() > 1 && points.last() == points[0] {
        points.drop_last()
    } else {
        points
    }
}

/// What a chaining trace gives: the loop's points when it closed, and an
/// error saying how it failed otherwise.
pub open spec fn close_loop_spec(
    points: Seq<Seq<char>>,
    outcome: LoopOutcome,
    r: Result<Vec<String>, OpenCadError>,
) -> bool {
    match outcome {
        LoopOutcome::Closed => r matches Ok(v) && texts(v@) == loop_points(points),
        LoopOutcome::NotClosed => r matches Err(OpenCadError::Validation(m)) && m@
            == "profile loop does not close on the first point"@,
        LoopOutcome::TooLong => r matches Err(OpenCadError::Validation(m)) && m@
            == "profile loop traversal did not close cleanly"@,
    }
}

/// Turn a chaining trace into the points of the loop, or the error that says
/// why the profile does not form one.
pub fn close_profile_loop(trace: LoopTrace) -> (r: Result<Vec<String>, OpenCadError>)
    ensures
        close_loop_spec(texts(trace.points@), trace.outcome, r),
{
    let LoopTrace { points, outcome } = trace;
    match outcome {
        LoopOutcome::TooLong => Err(OpenCadError::validation("profile loop traversal did not close cleanly")),
        LoopOutcome::NotClosed => Err(OpenCadError::validation("profile loop does not close on the first point")),
        LoopOutcome::Closed => {
            let ghost before = texts(points@);
            let mut points = points;
            let n = points.len();
            if n > 1 && points[n - 1].as_str().eq(points[0].as_str()) {
                points.pop();
                assert(texts(points@) =~= before.drop_last());
            } else {
                assert(n > 1 ==> before.last() != before[0]);
            }
            Ok(points)
        },
    }
}

/// The point ids of the loop that the profile's lines form, in order, each
/// once: the chaining of `chain_profile_lines` followed by its closing.
pub fn profile_loop_points(lines: &[SketchLine], profile_ids: &[String]) -> (r: Result<Vec<String>, OpenCadError>)
    ensures
        ({
            let lv = lines_view(lines@);
            let ids = texts(profile_ids@);
            match first_missing(lv, ids) {
                Some(i) => r matches Err(OpenCadError::NotFound(m)) && m@ == "line '"@ + ids[i] + "'"@,
                None => if ids.len() == 0 {
                    r matches Err(OpenCadError::Validation(m)) && m@ == "profile has no line entities"@
                } else {
                    close_loop_spec(profile_chain(profile_ends(lv, ids)).0, profile_chain(profile_ends(lv, ids)).1, r)
                },
            }
        }),
{
    let trace = chain_profile_lines(lines, profile_ids)?;
    close_profile_loop(trace)
}

/// The names of a sketch profile: its id and its optional external reference.
#[derive(Debug, Clone, PartialEq, Eq)]
pub struct ProfileName {
    pub id: String,
    pub profile_ref: Option<String>,
}

/// Whether `wanted` names profile `p` of the sketch `sketch_id`: by its
/// reference, by its id, or as the sketch's outer profile (which every
/// profile of the sketch answers to).
pub open spec fn names_profile(p: ProfileName, sketch_id: Seq<char>, wanted: Seq<char>) -> bool {
    (p.profile_ref matches Some(r) && r@ == wanted) || p.id@ == wanted || sketch_id + "/profile:outer"@ == wanted
}

/// The position of the first profile that `profile_ref` names.
pub fn find_profile(profiles: &[ProfileName], sketch_id: &str, profile_ref: &str) -> (r: Result<usize, OpenCadError>)
    ensures
        match r {
            Ok(k) => k < profiles@.len() && names_profile(profiles@[k as int], sketch_id@, profile_ref@)
                && forall|j: int| 0 <= j < k ==> !names_profile(#[trigger] profiles@[j], sketch_id@, profile_ref@),
            Err(e) => (forall|j: int| 0 <= j < profiles@.len() ==> !names_profile(#[trigger] profiles@[j], sketch_id@, profile_ref@))
                && (e matches OpenCadError::NotFound(m) && m@ == "profile '"@ + profile_ref@ + "'"@),
        },
{
    let mut outer = sketch_id.to_owned();
    outer.push_str("/profile:outer");
    let is_outer = outer.as_str().eq(profile_ref);
    let n = profiles.len();
    let mut k: usize = 0;
    while k < n
        invariant
            n == profiles@.len(),
            k <= n,
            is_outer == (sketch_id@ + "/profile:outer"@ == profile_ref@),
            forall|j: int| 0 <= j < k ==> !names_profile(#[trigger] profiles@[j], sketch_id@, profile_ref@),
        decreases n - k,
    {
        let by_ref = match &profiles[k].profile_ref {
            Some(r) => r.as_str().eq(profile_ref),
            None => false,
        };
        if by_ref || profiles[k].id.as_str().eq(profile_ref) || is_outer {
            return Ok(k);
        }
        k = k + 1;
    }
    let mut m = "profile '".to_owned();
    m.push_str(profile_ref);
    m.push_str("'");
    Err(OpenCadError::NotFound(m))
}

/// Whether some line of `lines` joins points `a` and `b`, in either
/// direction.
pub open spec fn joined(a: Seq<char>, b: Seq<char>, lines: Seq<Ends>) -> bool {
    exists|j: int| 0 <= j < lines.len() && #[trigger] lines[j] == (a, b) || 0 <= j < lines.len() && lines[j] == (b, a)
}

/// Whether the `k`-th and the next point are joined by a line.
pub open spec fn step_joined(points: Seq<Seq<char>>, k: int, lines: Seq<Ends>) -> bool {
    joined(points[k], points[k + 1], lines)
}

/// Whether every point of `points` is joined to the next by a line.
pub open spec fn walks_lines(points: Seq<Seq<char>>, lines: Seq<Ends>) -> bool {
    forall|k: int| 0 <= k < points.len() - 1 ==> #[trigger] step_joined(points, k, lines)
}

/// Chaining keeps walking along lines: each point it visits is joined to the
/// one before by a line, it only uses lines it was given, and it reports the
/// loop closed only when it is back at the start.
proof fn lemma_chain_walks_lines(
    start: Seq<char>,
    current: Seq<char>,
    remaining: Seq<Ends>,
    visits: Seq<Seq<char>>,
    limit: int,
    lines: Seq<Ends>,
)
    requires
        visits.len() >= 1,
        visits.last() == current,
        walks_lines(visits, lines),
        forall|i: int| 0 <= i < remaining.len() ==> lines.contains(#[trigger] remaining[i]),
    ensures
        walks_lines(chain(start, current, remaining, visits, limit).0, lines),
        chain(start, current, remaining, visits, limit).0.len() >= visits.len(),
        chain(start, current, remaining, visits, limit).0.subrange(0, visits.len() as int) == visits,
        chain(start, current, remaining, visits, limit).1 == LoopOutcome::Closed ==> chain(
            start,
            current,
            remaining,
            visits,
            limit,
        ).0.last() == start,
    decreases remaining.len(),
{
    if current != start {
        lemma_first_touching(remaining, current, remaining.len() as int);
        match first_touching(remaining, current, remaining.len() as int) {
            None => {
                assert(visits.subrange(0, visits.len() as int) =~= visits);
            },
            Some(i) => {
                let next = if remaining[i].0 == current { remaining[i].1 } else { remaining[i].0 };
                let visited = visits.push(next);
                assert(lines.contains(remaining[i]));
                let j = choose|j: int| 0 <= j < lines.len() && lines[j] == remaining[i];
                assert forall|k: int| 0 <= k < visited.len() - 1 implies #[trigger] step_joined(visited, k, lines) by {
                    if k < visits.len() - 1 {
                        assert(step_joined(visits, k, lines));
                        assert(visited[k] == visits[k] && visited[k + 1] == visits[k + 1]);
                    } else {
                        assert(visited[k] == current && visited[k + 1] == next);
                        if remaining[i].0 == current {
                            assert(lines[j] == (current, next));
                        } else {
                            assert(lines[j] == (next, current));
                        }
                    }
                }
                if visited.len() > limit {
                    assert(visited.subrange(0, visits.len() as int) =~= visits);
                } else {
                    let rest = remaining.remove(i);
                    assert forall|k: int| 0 <= k < rest.len() implies lines.contains(#[trigger] rest[k]) by {
                        if k < i {
                            assert(rest[k] == remaining[k]);
                        } else {
                            assert(rest[k] == remaining[k + 1]);
                        }
                    }
                    lemma_chain_walks_lines(start, next, rest, visited, limit, lines);
                    let out = chain(start, next, rest, visited, limit).0;
                    assert(out.subrange(0, visits.len() as int) =~= out.subrange(0, visited.len() as int).subrange(
                        0,
                        visits.len() as int,
                    ));
                    assert(visited.subrange(0, visits.len() as int) =~= visits);
                }
            },
        }
    } else {
        assert(visits.subrange(0, visits.len() as int) =~= visits);
    }
}

/// The points of a profile's chain walk along its lines: they start with the
/// first line's two ends, each point is joined to the next by one of the
/// profile's lines, and a closed chain ends where it started.
pub proof fn lemma_profile_chain_walks_lines(ends: Seq<Ends>)
    requires
        ends.len() >= 1,
    ensures
        profile_chain(ends).0.len() >= 2,
        profile_chain(ends).0[0] == ends[0].0,
        profile_chain(ends).0[1] == ends[0].1,
        walks_lines(profile_chain(ends).0, ends),
        profile_chain(ends).1 == LoopOutcome::Closed ==> profile_chain(ends).0.last() == ends[0].0,
{
    let visits = seq![ends[0].0, ends[0].1];
    let remaining = ends.drop_first();
    assert forall|k: int| 0 <= k < visits.len() - 1 implies #[trigger] step_joined(visits, k, ends) by {
        assert(ends[0] == (visits[0], visits[1]));
    }
    assert forall|i: int| 0 <= i < remaining.len() implies ends.contains(#[trigger] remaining[i]) by {
        assert(remaining[i] == ends[i + 1]);
    }
    lemma_chain_walks_lines(ends[0].0, ends[0].1, remaining, visits, ends.len() + 1int, ends);
    let out = profile_chain(ends).0;
    assert(out.subrange(0, 2)[0] == out[0]);
    assert(out.subrange(0, 2)[1] == out[1]);
}

} // verus!
