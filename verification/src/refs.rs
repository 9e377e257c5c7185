//! Semantic topology references: a stable id naming a face, edge or vertex by
//! what created it and the role it plays, with optional geometric hints for
//! finding it again after regeneration.
//!
//! Geometric hints are floating-point values; they are carried here as the
//! bit patterns of their `f64` values and never interpreted.

use vstd::prelude::*;

use crate::error::OpenCadError;
use crate::id::TopoRefId;
use crate::text::{is_blank, str_is_blank};
use crate::topology::TopoRefKind;

verus! {

/// What a reference names, in terms of the modelling history.
#[derive(Debug, Clone, PartialEq, Eq)]
pub struct TopoRefSemantic {
    pub created_by: String,
    pub role: Option<String>,
    /// Bit patterns of the normal hint's `f64` components.
    pub normal_hint_bits: Option<[u64; 3]>,
    pub intent: Option<String>,
}

/// Geometric fingerprint used to recover a reference; the float fields hold
/// the bit patterns of their `f64` values.
#[derive(Debug, Clone, PartialEq, Eq)]
pub struct GeometricFingerprint {
    pub surface_type: String,
    pub kernel_face_id: Option<u64>,
    pub kernel_edge_id: Option<u64>,
    pub area_range_bits: Option<[u64; 2]>,
    pub bbox_hint_bits: Option<[[u64; 3]; 2]>,
    pub adjacent_feature_ids: Vec<String>,
}

/// Semantic topological reference with optional geometric fingerprint.
#[derive(Debug, Clone, PartialEq, Eq)]
pub struct TopoRef {
    pub ref_id: TopoRefId,
    pub kind: TopoRefKind,
    pub semantic: TopoRefSemantic,
    pub geometric_fingerprint: Option<GeometricFingerprint>,
    pub fallback_query: Option<String>,
}

/// Stable identity of a semantic topology reference: its id, kind, producer,
/// role and intent.
#[derive(Debug, PartialEq, Eq)]
pub struct TopoRefIdentity {
    pub ref_id: TopoRefId,
    pub kind: TopoRefKind,
    pub created_by: String,
    pub role: Option<String>,
    pub intent: Option<String>,
}

/// The abstract content of an identity.
pub struct IdentityView {
    pub ref_id: Seq<char>,
    pub kind: TopoRefKind,
    pub created_by: Seq<char>,
    pub role: Option<Seq<char>>,
    pub intent: Option<Seq<char>>,
}

/// The text of an optional string.
pub open spec fn opt_view(o: Option<String>) -> Option<Seq<char>> {
    match o {
        Some(s) => Some(s@),
        None => None,
    }
}

/// The abstract content of an identity value.
pub open spec fn identity_view(i: TopoRefIdentity) -> IdentityView {
    IdentityView {
        ref_id: i.ref_id.view(),
        kind: i.kind,
        created_by: i.created_by@,
        role: opt_view(i.role),
        intent: opt_view(i.intent),
    }
}

/// The identity of a reference: everything but its regeneration hints.
pub open spec fn identity_of(t: TopoRef) -> IdentityView {
    IdentityView {
        ref_id: t.ref_id.view(),
        kind: t.kind,
        created_by: t.semantic.created_by@,
        role: opt_view(t.semantic.role),
        intent: opt_view(t.semantic.intent),
    }
}

fn copy_opt(o: &Option<String>) -> (r: Option<String>)
    ensures
        opt_view(r) == opt_view(*o),
{
    match o {
        Some(s) => Some(s.clone()),
        None => None,
    }
}

/// A fingerprint naming a kernel entity of the given surface type.
fn kernel_fingerprint(
    surface_type: &str,
    kernel_face_id: Option<u64>,
    kernel_edge_id: Option<u64>,
    bbox_hint_bits: Option<[[u64; 3]; 2]>,
) -> (f: GeometricFingerprint)
    ensures
        f.surface_type@ == surface_type@,
        f.kernel_face_id == kernel_face_id,
        f.kernel_edge_id == kernel_edge_id,
        f.area_range_bits is None,
        f.bbox_hint_bits == bbox_hint_bits,
        f.adjacent_feature_ids@.len() == 0,
{
    GeometricFingerprint {
        surface_type: surface_type.to_owned(),
        kernel_face_id,
        kernel_edge_id,
        area_range_bits: None,
        bbox_hint_bits,
        adjacent_feature_ids: Vec::new(),
    }
}

impl TopoRef {
    /// A reference to a face by its producer and role, without hints.
    pub fn face(ref_id: TopoRefId, created_by: &str, role: &str) -> (t: Self)
        ensures
            t.ref_id == ref_id,
            t.kind == TopoRefKind::Face,
            t.semantic.created_by@ == created_by@,
            opt_view(t.semantic.role) == Some(role@),
            t.semantic.normal_hint_bits is None,
            t.semantic.intent is None,
            t.geometric_fingerprint is None,
            t.fallback_query is None,
    {
        TopoRef {
            ref_id,
            kind: TopoRefKind::Face,
            semantic: TopoRefSemantic {
                created_by: created_by.to_owned(),
                role: Some(role.to_owned()),
                normal_hint_bits: None,
                intent: None,
            },
            geometric_fingerprint: None,
            fallback_query: None,
        }
    }

    /// A reference to a kernel face, with its kernel id and normal hint.
    pub fn kernel_face(
        ref_id: TopoRefId,
        created_by: &str,
        role: &str,
        kernel_face_id: u64,
        normal_hint_bits: [u64; 3],
    ) -> (t: Self)
        ensures
            t.ref_id == ref_id,
            t.kind == TopoRefKind::Face,
            t.semantic.created_by@ == created_by@,
            opt_view(t.semantic.role) == Some(role@),
            t.semantic.normal_hint_bits == Some(normal_hint_bits),
            t.semantic.intent is None,
            t.geometric_fingerprint matches Some(f) && f.surface_type@ == "brep_face"@
                && f.kernel_face_id == Some(kernel_face_id) && f.kernel_edge_id is None
                && f.area_range_bits is None && f.bbox_hint_bits is None
                && f.adjacent_feature_ids@.len() == 0,
            t.fallback_query is None,
    {
        TopoRef {
            ref_id,
            kind: TopoRefKind::Face,
            semantic: TopoRefSemantic {
                created_by: created_by.to_owned(),
                role: Some(role.to_owned()),
                normal_hint_bits: Some(normal_hint_bits),
                intent: None,
            },
            geometric_fingerprint: Some(kernel_fingerprint("brep_face", Some(kernel_face_id), None, None)),
            fallback_query: None,
        }
    }

    /// A reference to an edge by its producer and role, without hints.
    pub fn edge(ref_id: TopoRefId, created_by: &str, role: &str) -> (t: Self)
        ensures
            t.ref_id == ref_id,
            t.kind == TopoRefKind::Edge,
            t.semantic.created_by@ == created_by@,
            opt_view(t.semantic.role) == Some(role@),
            t.semantic.normal_hint_bits is None,
            t.semantic.intent is None,
            t.geometric_fingerprint is None,
            t.fallback_query is None,
    {
        TopoRef {
            ref_id,
            kind: TopoRefKind::Edge,
            semantic: TopoRefSemantic {
                created_by: created_by.to_owned(),
                role: Some(role.to_owned()),
                normal_hint_bits: None,
                intent: None,
            },
            geometric_fingerprint: None,
            fallback_query: None,
        }
    }

    /// A reference to a kernel edge, with its kernel id and its midpoint and
    /// tangent hints (stored as the two rows of the box hint).
    pub fn kernel_edge(
        ref_id: TopoRefId,
        created_by: &str,
        role: &str,
        kernel_edge_id: u64,
        midpoint_hint_bits: [u64; 3],
        tangent_hint_bits: [u64; 3],
    ) -> (t: Self)
        ensures
            t.ref_id == ref_id,
            t.kind == TopoRefKind::Edge,
            t.semantic.created_by@ == created_by@,
            opt_view(t.semantic.role) == Some(role@),
            t.semantic.normal_hint_bits is None,
            t.semantic.intent is None,
            t.geometric_fingerprint matches Some(f) && f.surface_type@ == "brep_edge"@
                && f.kernel_face_id is None && f.kernel_edge_id == Some(kernel_edge_id)
                && f.area_range_bits is None && f.bbox_hint_bits == Some([midpoint_hint_bits, tangent_hint_bits])
                && f.adjacent_feature_ids@.len() == 0,
            t.fallback_query is None,
    {
        TopoRef {
            ref_id,
            kind: TopoRefKind::Edge,
            semantic: TopoRefSemantic {
                created_by: created_by.to_owned(),
                role: Some(role.to_owned()),
                normal_hint_bits: None,
                intent: None,
            },
            geometric_fingerprint: Some(
                kernel_fingerprint("brep_edge", None, Some(kernel_edge_id), Some([midpoint_hint_bits, tangent_hint_bits])),
            ),
            fallback_query: None,
        }
    }

    /// The kernel face id of the fingerprint, if any.
    pub fn kernel_face_id(&self) -> (r: Option<u64>)
        ensures
            r == match self.geometric_fingerprint {
                Some(f) => f.kernel_face_id,
                None => None,
            },
    {
        match &self.geometric_fingerprint {
            Some(f) => f.kernel_face_id,
            None => None,
        }
    }

    /// The kernel edge id of the fingerprint, if any.
    pub fn kernel_edge_id(&self) -> (r: Option<u64>)
        ensures
            r == match self.geometric_fingerprint {
                Some(f) => f.kernel_edge_id,
                None => None,
            },
    {
        match &self.geometric_fingerprint {
            Some(f) => f.kernel_edge_id,
            None => None,
        }
    }

    /// The stable semantic identity, excluding regeneration hints.
    pub fn identity(&self) -> (i: TopoRefIdentity)
        ensures
            identity_view(i) == identity_of(*self),
    {
        TopoRefIdentity {
            ref_id: self.ref_id.clone(),
            kind: self.kind,
            created_by: self.semantic.created_by.clone(),
            role: copy_opt(&self.semantic.role),
            intent: copy_opt(&self.semantic.intent),
        }
    }

    /// The stable semantic identity (an alias of [`TopoRef::identity`] that
    /// names its semantic nature at call sites).
    pub fn semantic_identity(&self) -> (i: TopoRefIdentity)
        ensures
            identity_view(i) == identity_of(*self),
    {
        self.identity()
    }
}

/// Two references that agree on id, kind, producer, role and intent have the
/// same identity, whatever their kernel ids, fingerprints and normal hints.
pub proof fn lemma_identity_ignores_hints(a: TopoRef, b: TopoRef)
    requires
        a.ref_id.view() == b.ref_id.view(),
        a.kind == b.kind,
        a.semantic.created_by@ == b.semantic.created_by@,
        opt_view(a.semantic.role) == opt_view(b.semantic.role),
        opt_view(a.semantic.intent) == opt_view(b.semantic.intent),
    ensures
        identity_of(a) == identity_of(b),
{
}

/// Which edges a fillet or chamfer on a referenced face takes.
#[derive(Debug, Clone, Copy, PartialEq, Eq, Structural)]
pub enum EdgeSelection {
    /// The selector the feature would use without a face reference.
    Fallback,
    /// The perimeter of the kernel face the reference resolves to.
    FacePerimeter { kernel_face_id: u64 },
    /// The perimeter of the top face.
    TopPerimeter,
}

/// Whether `i` is the first reference with id `id`.
pub open spec fn is_first_ref(refs: Seq<TopoRef>, id: Seq<char>, i: int) -> bool {
    0 <= i < refs.len() && refs[i].ref_id.view() == id && forall|j: int| 0 <= j < i ==> (#[trigger] refs[j]).ref_id.view() != id
}

/// The edge selection for a face reference: none is needed for a blank
/// reference; otherwise the reference must exist, and it selects the
/// perimeter of the kernel face it resolves to (`resolved_face`, when the
/// face history resolves it), else the top perimeter for a reference in the
/// `top` role, else the fallback.
pub fn edge_selector_for_face_ref(refs: &[TopoRef], face_ref: &str, resolved_face: Option<u64>) -> (r: Result<
    EdgeSelection,
    OpenCadError,
>)
    ensures
        is_blank(face_ref@) ==> r == Ok::<EdgeSelection, OpenCadError>(EdgeSelection::Fallback),
        !is_blank(face_ref@) && (forall|j: int| 0 <= j < refs@.len() ==> (#[trigger] refs@[j]).ref_id.view() != face_ref@)
            ==> (r matches Err(OpenCadError::NotFound(m)) && m@ == "topo ref '"@ + face_ref@ + "'"@),
        forall|i: int| #![trigger is_first_ref(refs@, face_ref@, i)] !is_blank(face_ref@) && is_first_ref(refs@, face_ref@, i) ==> r
            == Ok::<EdgeSelection, OpenCadError>(match resolved_face {
            Some(id) => EdgeSelection::FacePerimeter { kernel_face_id: id },
            None => if opt_view(refs@[i].semantic.role) == Some("top"@) {
                EdgeSelection::TopPerimeter
            } else {
                EdgeSelection::Fallback
            },
        }),
{
    if str_is_blank(face_ref) {
        return Ok(EdgeSelection::Fallback);
    }
    let n = refs.len();
    let mut i: usize = 0;
    while i < n
        invariant
            n == refs@.len(),
            i <= n,
            !is_blank(face_ref@),
            forall|j: int| 0 <= j < i ==> (#[trigger] refs@[j]).ref_id.view() != face_ref@,
        decreases n - i,
    {
        if refs[i].ref_id.as_str().eq(face_ref) {
            proof {
                assert forall|k: int| #[trigger] is_first_ref(refs@, face_ref@, k) implies k == i by {
                    if k < i {
                    } else if k > i {
                        assert(refs@[i as int].ref_id.view() == face_ref@);
                    }
                }
            }
            if let Some(id) = resolved_face {
                return Ok(EdgeSelection::FacePerimeter { kernel_face_id: id });
            }
            let top = match &refs[i].semantic.role {
                Some(role) => role.as_str().eq("top"),
                None => false,
            };
            if top {
                return Ok(EdgeSelection::TopPerimeter);
            }
            return Ok(EdgeSelection::Fallback);
        }
        i = i + 1;
    }
    let mut m = "topo ref '".to_owned();
    m.push_str(face_ref);
    m.push_str("'");
    Err(OpenCadError::NotFound(m))
}

} // verus!
