//! The edge structure of a triangle mesh used by hidden-line drawing: every
//! undirected edge of the mesh with the triangles it borders, in edge order.

use std::collections::BTreeMap;

use vstd::laws_cmp::obeys_cmp;
use vstd::prelude::*;
use vstd::std_specs::iter::IteratorSpec;

verus! {

/// Visibility of a projected drawing edge.
#[derive(Debug, Clone, Copy, PartialEq, Eq, Structural)]
pub enum LineVisibility {
    /// The edge is not occluded from the selected projection.
    Visible,
    /// The edge is behind another mesh triangle.
    Hidden,
}

/// An undirected mesh edge, its smaller vertex index first, with the indices
/// of the triangles that have it as a side, in triangle order (a triangle
/// with the edge on two sides is listed twice).
#[derive(Debug, Clone, PartialEq, Eq)]
pub struct MeshEdge {
    pub start: u32,
    pub end: u32,
    pub triangles: Vec<usize>,
}

/// The undirected edge between two vertices: the smaller index first.
pub open spec fn edge_key(a: u32, b: u32) -> (u32, u32) {
    if a <= b { (a, b) } else { (b, a) }
}

/// The number of triangle sides in an index buffer: three for every complete
/// triple of indices; trailing indices that do not form a triangle are ignored.
pub open spec fn side_count(indices: Seq<u32>) -> int {
    ((indices.len() / 3) * 3) as int
}

/// Side `s` of the mesh: side `s % 3` of triangle `s / 3`, joining corner
/// `s % 3` to the next corner.
pub open spec fn side_key(indices: Seq<u32>, s: int) -> (u32, u32) {
    let t = s / 3;
    let k = s % 3;
    edge_key(indices[3 * t + k], indices[3 * t + (k + 1) % 3])
}

/// Strict lexicographic order of edges.
pub open spec fn key_less(x: (u32, u32), y: (u32, u32)) -> bool {
    x.0 < y.0 || (x.0 == y.0 && x.1 < y.1)
}

/// The triangles of the first `n` sides that have `key` as a side, in side
/// order.
pub open spec fn adjacency(indices: Seq<u32>, n: int, key: (u32, u32)) -> Seq<usize>
    decreases n,
{
    if n <= 0 {
        Seq::empty()
    } else if side_key(indices, n - 1) == key {
        adjacency(indices, n - 1, key).push(((n - 1) / 3) as usize)
    } else {
        adjacency(indices, n - 1, key)
    }
}

/// The key of an edge.
pub open spec fn key_of(e: MeshEdge) -> (u32, u32) {
    (e.start, e.end)
}

/// Whether one of the first `n` sides is `key`.
pub open spec fn is_side(indices: Seq<u32>, n: int, key: (u32, u32)) -> bool {
    exists|s: int| 0 <= s < n && #[trigger] side_key(indices, s) == key
}

/// Whether some edge of `edges` is `key`.
pub open spec fn has_edge(edges: Seq<MeshEdge>, key: (u32, u32)) -> bool {
    exists|i: int| 0 <= i < edges.len() && key_of(#[trigger] edges[i]) == key
}

/// Whether `edges` lists, in strictly increasing order, exactly the edges of
/// the first `n` sides, each with its triangles.
pub open spec fn edges_of_sides(indices: Seq<u32>, n: int, edges: Seq<MeshEdge>) -> bool {
    &&& forall|i: int, j: int| 0 <= i < j < edges.len() ==> key_less(key_of(#[trigger] edges[i]), key_of(#[trigger] edges[j]))
    &&& forall|s: int| 0 <= s < n ==> #[trigger] has_edge(edges, side_key(indices, s))
    &&& forall|i: int| 0 <= i < edges.len() ==> #[trigger] is_side(indices, n, key_of(edges[i]))
    &&& forall|i: int| 0 <= i < edges.len() ==> (#[trigger] edges[i]).triangles@ == adjacency(indices, n, key_of(edges[i]))
}

/// A key that is none of the first `n` sides borders no triangle there.
proof fn lemma_adjacency_empty(indices: Seq<u32>, n: int, key: (u32, u32))
    requires
        !is_side(indices, n, key),
    ensures
        adjacency(indices, n, key) == Seq::<usize>::empty(),
    decreases n,
{
    if n > 0 {
        assert(!is_side(indices, n - 1, key)) by {
            if is_side(indices, n - 1, key) {
                let s = choose|s: int| 0 <= s < n - 1 && #[trigger] side_key(indices, s) == key;
                assert(0 <= s < n && side_key(indices, s) == key);
            }
        }
        assert(side_key(indices, n - 1) != key);
        lemma_adjacency_empty(indices, n - 1, key);
    }
}

/// The key of side `s`.
fn side_of(indices: &[u32], s: usize) -> (key: (u32, u32))
    requires
        s < side_count(indices@),
    ensures
        key == side_key(indices@, s as int),
{
    let t = s / 3;
    let k = s % 3;
    assert(3 * t + 2 < indices@.len()) by (nonlinear_arith)
        requires
            t == s / 3,
            s < (indices@.len() / 3) * 3,
    ;
    let next = if k == 2 { 0 } else { k + 1 };
    let a = indices[3 * t + k];
    let b = indices[3 * t + next];
    if a <= b { (a, b) } else { (b, a) }
}

/// Edges, as pairs of vertex indices, are compared as `Ord` specifies.
pub open spec fn edge_order_obeyed() -> bool {
    obeys_cmp::<(u32, u32)>()
}

/// Pairs of `u32` are compared as `Ord` specifies.
proof fn lemma_edge_order_obeyed()
    ensures
        edge_order_obeyed(),
{
    broadcast use vstd::laws_cmp::group_laws_cmp;
}

/// Every undirected edge of the triangles in `indices` (three indices per
/// triangle), in increasing order of (smaller vertex, larger vertex), each with
/// the triangles that border it.  The edges are gathered in a `BTreeMap`
/// keyed by edge, which also lists them in order.
pub fn mesh_edges(indices: &[u32]) -> (edges: Vec<MeshEdge>)
    ensures
        edges_of_sides(indices@, side_count(indices@), edges@),
{
    broadcast use vstd::std_specs::btree::group_btree_axioms;

    proof {
        lemma_edge_order_obeyed();
    }
    let n = indices.len() / 3 * 3;
    let mut by_edge: BTreeMap<(u32, u32), Vec<usize>> = BTreeMap::new();
    let mut s: usize = 0;
    while s < n
        invariant
            n == side_count(indices@),
            s <= n,
            edge_order_obeyed(),
            forall|key: (u32, u32)| #[trigger] by_edge@.contains_key(key) <==> is_side(indices@, s as int, key),
            forall|key: (u32, u32)|
                by_edge@.contains_key(key) ==> (#[trigger] by_edge@[key])@ == adjacency(indices@, s as int, key),
        decreases n - s,
    {
        let key = side_of(indices, s);
        let t = s / 3;
        let ghost before = by_edge@;
        let mut triangles = match by_edge.remove(&key) {
            Some(found) => found,
            None => {
                proof {
                    lemma_adjacency_empty(indices@, s as int, key);
                }
                Vec::new()
            },
        };
        assert(triangles@ == adjacency(indices@, s as int, key));
        triangles.push(t);
        by_edge.insert(key, triangles);
        proof {
            let after = by_edge@;
            assert(after == before.insert(key, after[key]));
            assert forall|k: (u32, u32)| #[trigger] after.contains_key(k) <==> is_side(indices@, s + 1, k) by {
                if k != key {
                    if is_side(indices@, s + 1, k) {
                        let w = choose|w: int| 0 <= w < s + 1 && #[trigger] side_key(indices@, w) == k;
                        assert(0 <= w < s && side_key(indices@, w) == k);
                    }
                    if is_side(indices@, s as int, k) {
                        let w = choose|w: int| 0 <= w < s && #[trigger] side_key(indices@, w) == k;
                        assert(0 <= w < s + 1 && side_key(indices@, w) == k);
                    }
                } else {
                    assert(side_key(indices@, s as int) == k);
                }
            }
            assert forall|k: (u32, u32)| after.contains_key(k) implies (#[trigger] after[k])@ == adjacency(
                indices@,
                s + 1,
                k,
            ) by {
                if k != key {
                    assert(before.contains_key(k));
                }
            }
        }
        s = s + 1;
    }
    let ghost m = by_edge@;
    let entries = by_edge.iter();
    let ghost listed = entries;
    let mut edges: Vec<MeshEdge> = Vec::new();
    for item in it: entries
        invariant
            it.seq() == listed.remaining(),
            edges@.len() == it.index(),
            forall|i: int|
                0 <= i < it.index() ==> key_of(#[trigger] edges@[i]) == *it.seq()[i].0 && edges@[i].triangles@
                    == (*it.seq()[i].1)@,
    {
        let (key, triangles) = item;
        edges.push(MeshEdge { start: key.0, end: key.1, triangles: triangles.clone() });
    }
    proof {
        let items = listed.remaining();
        let keys = items.map_values(|kv: (&(u32, u32), &Vec<usize>)| *kv.0);
        assert(items == vstd::std_specs::btree::spec_btree_map_iter(&by_edge).remaining());
        assert(edges@.len() == items.len());
        lemma_sorted_edge_keys(keys);
        assert forall|i: int, j: int| 0 <= i < j < edges@.len() implies key_less(
            key_of(#[trigger] edges@[i]),
            key_of(#[trigger] edges@[j]),
        ) by {
            assert(key_of(edges@[i]) == keys[i]);
            assert(key_of(edges@[j]) == keys[j]);
        }
        assert forall|w: int| 0 <= w < n implies #[trigger] has_edge(edges@, side_key(indices@, w)) by {
            let k = side_key(indices@, w);
            assert(is_side(indices@, n as int, k));
            assert(m.contains_key(k));
            assert(items.contains((&k, &m[k])));
            let i = choose|i: int| 0 <= i < items.len() && items[i] == (&k, &m[k]);
            assert(key_of(edges@[i]) == k);
        }
        assert forall|i: int| 0 <= i < edges@.len() implies is_side(indices@, n as int, key_of(#[trigger] edges@[i]))
            && edges@[i].triangles@ == adjacency(indices@, n as int, key_of(edges@[i])) by {
            assert(m.contains_key(*items[i].0));
            assert(m[*items[i].0] == *items[i].1);
            assert(key_of(edges@[i]) == *items[i].0);
            assert(edges@[i].triangles@ == (*items[i].1)@);
        }
        assert(edges_of_sides(indices@, n as int, edges@));
    }
    edges
}

/// Keys that a `BTreeMap` lists in increasing order are in strictly
/// increasing lexicographic order.
proof fn lemma_sorted_edge_keys(keys: Seq<(u32, u32)>)
    requires
        edge_order_obeyed(),
        vstd::std_specs::btree::increasing_seq(keys),
    ensures
        forall|i: int, j: int| 0 <= i < j < keys.len() ==> key_less(#[trigger] keys[i], #[trigger] keys[j]),
{
    broadcast use vstd::std_specs::btree::group_btree_axioms;

    assert forall|i: int, j: int| 0 <= i < j < keys.len() implies key_less(#[trigger] keys[i], #[trigger] keys[j]) by {
        assert(vstd::std_specs::cmp::OrdSpec::cmp_spec(&keys[i], &keys[j]) is Less);
    }
}

/// Whether an edge bordered by the triangles `adjacent` is only a diagonal
/// of the tessellation: it borders exactly two triangles, the mesh records
/// which face each triangle belongs to, and both lie on the same face.  Such
/// edges are not drawn.
pub fn is_tessellation_diagonal(has_face_ids: bool, triangle_face_ids: &[u32], adjacent: &[usize]) -> (r: bool)
    requires
        has_face_ids && adjacent@.len() == 2 ==> adjacent@[0] < triangle_face_ids@.len()
            && adjacent@[1] < triangle_face_ids@.len(),
    ensures
        r == (adjacent@.len() == 2 && has_face_ids && triangle_face_ids@[adjacent@[0] as int]
            == triangle_face_ids@[adjacent@[1] as int]),
{
    adjacent.len() == 2 && has_face_ids && triangle_face_ids[adjacent[0]] == triangle_face_ids[adjacent[1]]
}

} // verus!
