//! The binary STL file format: an 80-byte header, the triangle count, then
//! one 50-byte record per triangle.  Coordinates arrive as the bit patterns
//! of their 32-bit floats.

use vstd::prelude::*;
use vstd::utf8::encode_utf8;

use crate::error::OpenCadError;

verus! {

/// The 80-byte header: the UTF-8 bytes of the name, cut to 80 bytes, then
/// zero padding.
pub open spec fn stl_header_bytes(name: Seq<char>) -> Seq<u8> {
    let bytes = encode_utf8(name);
    Seq::new(80, |i: int| if i < bytes.len() { bytes[i] } else { 0u8 })
}

/// The binary STL header carrying `name`.
pub fn stl_header(name: &str) -> (header: [u8; 80])
    ensures
        header@ == stl_header_bytes(name@),
{
    let mut header = [0u8; 80];
    let bytes = name.as_bytes();
    let len = if bytes.len() < 80 { bytes.len() } else { 80 };
    let mut i: usize = 0;
    while i < len
        invariant
            len <= 80,
            len <= bytes@.len(),
            bytes@ == encode_utf8(name@),
            len == bytes@.len() || len == 80,
            i <= len,
            header@.len() == 80,
            forall|k: int| 0 <= k < i ==> header@[k] == bytes@[k],
            forall|k: int| i <= k < 80 ==> header@[k] == 0,
        decreases len - i,
    {
        header[i] = bytes[i];
        i = i + 1;
    }
    assert(header@ =~= stl_header_bytes(name@));
    header
}

/// The four little-endian bytes of `x`.
pub open spec fn le32(x: u32) -> Seq<u8> {
    seq![
        (x % 256) as u8,
        ((x / 256) % 256) as u8,
        ((x / 65536) % 256) as u8,
        (x / 16777216) as u8,
    ]
}

/// The twelve bytes of a vector of three 32-bit values.
pub open spec fn vec3_bytes(v: [u32; 3]) -> Seq<u8> {
    le32(v[0]) + le32(v[1]) + le32(v[2])
}

/// The record of triangle `t`: its normal, its three corners, and a zero
/// attribute word.
pub open spec fn triangle_record(
    vertices: Seq<[u32; 3]>,
    indices: Seq<u32>,
    normals: Seq<[u32; 3]>,
    t: int,
) -> Seq<u8> {
    vec3_bytes(normals[t]) + vec3_bytes(vertices[indices[3 * t] as int]) + vec3_bytes(
        vertices[indices[3 * t + 1] as int],
    ) + vec3_bytes(vertices[indices[3 * t + 2] as int]) + seq![0u8, 0u8]
}

/// The records of the first `n` triangles.
pub open spec fn triangle_records(
    vertices: Seq<[u32; 3]>,
    indices: Seq<u32>,
    normals: Seq<[u32; 3]>,
    n: int,
) -> Seq<u8>
    decreases n,
{
    if n <= 0 {
        Seq::empty()
    } else {
        triangle_records(vertices, indices, normals, n - 1) + triangle_record(vertices, indices, normals, n - 1)
    }
}

/// Whether the index buffer holds at least one triangle and only whole
/// triangles.
pub open spec fn whole_triangles(indices: Seq<u32>) -> bool {
    indices.len() >= 3 && indices.len() % 3 == 0
}

/// A binary STL file: the header, the triangle count (kept to its low 32
/// bits), then the triangle records.
pub open spec fn binary_stl(name: Seq<char>, vertices: Seq<[u32; 3]>, indices: Seq<u32>, normals: Seq<[u32; 3]>) -> Seq<u8> {
    let count = indices.len() / 3;
    stl_header_bytes(name) + le32((count as int % 0x1_0000_0000) as u32) + triangle_records(vertices, indices, normals, count as int)
}

/// Append the little-endian bytes of `x`.
fn push_le32(out: &mut Vec<u8>, x: u32)
    ensures
        final(out)@ == old(out)@ + le32(x),
{
    out.push((x % 256) as u8);
    out.push(((x / 256) % 256) as u8);
    out.push(((x / 65536) % 256) as u8);
    out.push((x / 16777216) as u8);
    assert(final(out)@ =~= old(out)@ + le32(x));
}

/// Append the bytes of a three-component vector.
fn push_vec3(out: &mut Vec<u8>, v: [u32; 3])
    ensures
        final(out)@ == old(out)@ + vec3_bytes(v),
{
    push_le32(out, v[0]);
    push_le32(out, v[1]);
    push_le32(out, v[2]);
    assert(final(out)@ =~= old(out)@ + vec3_bytes(v));
}

/// The binary STL file for a mesh named `name`: `vertices` holds each
/// corner's coordinates, `indices` three corners per triangle, `normals`
/// each triangle's normal.  A mesh without triangles, or with a partial
/// triangle, is refused.
pub fn binary_stl_bytes(
    name: &str,
    vertices: &[[u32; 3]],
    indices: &[u32],
    normals: &[[u32; 3]],
) -> (r: Result<Vec<u8>, OpenCadError>)
    requires
        whole_triangles(indices@) ==> {
            &&& normals@.len() == indices@.len() / 3
            &&& forall|i: int| 0 <= i < indices@.len() ==> (#[trigger] indices@[i]) < vertices@.len()
        },
    ensures
        match r {
            Ok(bytes) => {
                &&& whole_triangles(indices@)
                &&& bytes@ == binary_stl(name@, vertices@, indices@, normals@)
                &&& bytes@.len() == 84 + 50 * (indices@.len() / 3)
            },
            Err(e) => !whole_triangles(indices@) && (e matches OpenCadError::Validation(m) && m@
                == "mesh must contain at least one triangle"@),
        },
{
    let n = indices.len();
    if n < 3 || n % 3 != 0 {
        return Err(OpenCadError::validation("mesh must contain at least one triangle"));
    }
    let count = n / 3;
    let mut out: Vec<u8> = Vec::new();
    let header = stl_header(name);
    let mut h: usize = 0;
    while h < 80
        invariant
            h <= 80,
            header@ == stl_header_bytes(name@),
            out@ == header@.subrange(0, h as int),
        decreases 80 - h,
    {
        out.push(header[h]);
        h = h + 1;
        assert(out@ =~= header@.subrange(0, h as int));
    }
    let low = (count as u64 % 0x1_0000_0000) as u32;
    push_le32(&mut out, low);
    let ghost prefix = out@;
    assert(prefix.len() == 84);
    assert(prefix =~= stl_header_bytes(name@) + le32((count as int % 0x1_0000_0000) as u32));
    let mut t: usize = 0;
    while t < count
        invariant
            count == indices@.len() / 3,
            n == indices@.len(),
            n == 3 * count,
            normals@.len() == count,
            forall|i: int| 0 <= i < indices@.len() ==> (#[trigger] indices@[i]) < vertices@.len(),
            t <= count,
            out@ == prefix + triangle_records(vertices@, indices@, normals@, t as int),
            out@.len() == 84 + 50 * t,
        decreases count - t,
    {
        let a = indices[3 * t] as usize;
        let b = indices[3 * t + 1] as usize;
        let c = indices[3 * t + 2] as usize;
        let ghost before = out@;
        push_vec3(&mut out, normals[t]);
        push_vec3(&mut out, vertices[a]);
        push_vec3(&mut out, vertices[b]);
        push_vec3(&mut out, vertices[c]);
        out.push(0);
        out.push(0);
        assert(out@ =~= before + triangle_record(vertices@, indices@, normals@, t as int));
        t = t + 1;
        assert(out@ =~= prefix + triangle_records(vertices@, indices@, normals@, t as int));
    }
    Ok(out)
}

/// The little-endian number in the four bytes of `b` from position `at`.
pub open spec fn le32_at(b: Seq<u8>, at: int) -> int {
    b[at] + 256 * b[at + 1] + 65536 * b[at + 2] + 16777216 * b[at + 3]
}

/// Word `w` (four bytes) of the record of triangle `t` in a binary STL file.
pub open spec fn record_word(file: Seq<u8>, t: int, w: int) -> int {
    le32_at(file, 84 + 50 * t + 4 * w)
}

/// Component `k` of the normal of triangle `t` in a binary STL file.
pub open spec fn normal_word(file: Seq<u8>, t: int, k: int) -> int {
    record_word(file, t, k)
}

/// Component `k` of corner `c` of triangle `t` in a binary STL file.
pub open spec fn corner_word(file: Seq<u8>, t: int, c: int, k: int) -> int {
    record_word(file, t, 3 + 3 * c + k)
}

/// The two attribute bytes closing the record of triangle `t`.
pub open spec fn attribute_bytes(file: Seq<u8>, t: int) -> (u8, u8) {
    (file[84 + 50 * t + 48], file[84 + 50 * t + 49])
}

/// Four little-endian bytes read back as the number they were written from.
proof fn lemma_le32_reads_back(x: u32)
    ensures
        le32(x).len() == 4,
        le32_at(le32(x), 0) == x,
{
    let b = le32(x);
    assert(x == x % 256 + 256 * ((x / 256) % 256) + 65536 * ((x / 65536) % 256) + 16777216 * (x / 16777216)) by (nonlinear_arith);
    assert(b[0] == x % 256);
    assert(b[1] == (x / 256) % 256);
    assert(b[2] == (x / 65536) % 256);
    assert(b[3] == x / 16777216);
}

/// The records of `n` triangles are 50 bytes each, in triangle order.
proof fn lemma_records_layout(vertices: Seq<[u32; 3]>, indices: Seq<u32>, normals: Seq<[u32; 3]>, n: int)
    requires
        n >= 0,
    ensures
        triangle_records(vertices, indices, normals, n).len() == 50 * n,
        forall|t: int|
            0 <= t < n ==> #[trigger] triangle_records(vertices, indices, normals, n).subrange(50 * t, 50 * t + 50)
                == triangle_record(vertices, indices, normals, t),
    decreases n,
{
    if n > 0 {
        lemma_records_layout(vertices, indices, normals, n - 1);
        let before = triangle_records(vertices, indices, normals, n - 1);
        let last = triangle_record(vertices, indices, normals, n - 1);
        let all = triangle_records(vertices, indices, normals, n);
        assert(all == before + last);
        assert(last.len() == 50);
        assert forall|t: int| 0 <= t < n implies #[trigger] all.subrange(50 * t, 50 * t + 50) == triangle_record(
            vertices,
            indices,
            normals,
            t,
        ) by {
            if t < n - 1 {
                assert(all.subrange(50 * t, 50 * t + 50) =~= before.subrange(50 * t, 50 * t + 50));
            } else {
                assert(all.subrange(50 * t, 50 * t + 50) =~= last);
            }
        }
    }
}

/// Word `w` of a triangle's record, with `w` among the twelve words, reads
/// back as the value written there.
proof fn lemma_record_word(rec: Seq<u8>, values: Seq<u32>, w: int)
    requires
        values.len() == 12,
        rec == vec3_bytes([values[0], values[1], values[2]]) + vec3_bytes([values[3], values[4], values[5]])
            + vec3_bytes([values[6], values[7], values[8]]) + vec3_bytes([values[9], values[10], values[11]])
            + seq![0u8, 0u8],
        0 <= w < 12,
    ensures
        le32_at(rec, 4 * w) == values[w],
        rec.len() == 50,
        rec[48] == 0 && rec[49] == 0,
{
    let words = le32(values[0]) + le32(values[1]) + le32(values[2]) + le32(values[3]) + le32(values[4]) + le32(values[5])
        + le32(values[6]) + le32(values[7]) + le32(values[8]) + le32(values[9]) + le32(values[10]) + le32(values[11]);
    assert(rec =~= words + seq![0u8, 0u8]);
    lemma_le32_reads_back(values[w]);
    assert(rec.subrange(4 * w, 4 * w + 4) =~= le32(values[w]));
    assert(rec[4 * w] == le32(values[w])[0]);
    assert(rec[4 * w + 1] == le32(values[w])[1]);
    assert(rec[4 * w + 2] == le32(values[w])[2]);
    assert(rec[4 * w + 3] == le32(values[w])[3]);
}

/// The twelve words of the record of triangle `t`: its normal, then its
/// three corners.
pub open spec fn record_values(vertices: Seq<[u32; 3]>, indices: Seq<u32>, normals: Seq<[u32; 3]>, t: int) -> Seq<u32> {
    let a = vertices[indices[3 * t] as int];
    let b = vertices[indices[3 * t + 1] as int];
    let c = vertices[indices[3 * t + 2] as int];
    seq![normals[t][0], normals[t][1], normals[t][2], a[0], a[1], a[2], b[0], b[1], b[2], c[0], c[1], c[2]]
}

/// The record of triangle `t` sits at byte `84 + 50 t` of the file and reads
/// back as its twelve words and a zero attribute.
proof fn lemma_record_in_file(name: Seq<char>, vertices: Seq<[u32; 3]>, indices: Seq<u32>, normals: Seq<[u32; 3]>, t: int)
    requires
        whole_triangles(indices),
        0 <= t < indices.len() / 3,
    ensures
        forall|w: int|
            0 <= w < 12 ==> #[trigger] record_word(binary_stl(name, vertices, indices, normals), t, w) == record_values(
                vertices,
                indices,
                normals,
                t,
            )[w],
        attribute_bytes(binary_stl(name, vertices, indices, normals), t) == (0u8, 0u8),
{
    let file = binary_stl(name, vertices, indices, normals);
    let n = indices.len() / 3;
    let header = stl_header_bytes(name);
    let count = le32((n as int % 0x1_0000_0000) as u32);
    let records = triangle_records(vertices, indices, normals, n as int);
    lemma_records_layout(vertices, indices, normals, n as int);
    assert(file == header + count + records);
    let values = record_values(vertices, indices, normals, t);
    let rec = triangle_record(vertices, indices, normals, t);
    assert(records.subrange(50 * t, 50 * t + 50) == rec);
    assert([values[0], values[1], values[2]] =~= normals[t]);
    assert([values[3], values[4], values[5]] =~= vertices[indices[3 * t] as int]);
    assert([values[6], values[7], values[8]] =~= vertices[indices[3 * t + 1] as int]);
    assert([values[9], values[10], values[11]] =~= vertices[indices[3 * t + 2] as int]);
    assert(0 <= 50 * t && 50 * t + 50 <= records.len()) by (nonlinear_arith)
        requires
            0 <= t < n,
            records.len() == 50 * n,
    ;
    let base = 84 + 50 * t;
    assert forall|j: int| 0 <= j < 50 implies file[base + j] == rec[j] by {
        assert(file[base + j] == records[50 * t + j]);
        assert(records.subrange(50 * t, 50 * t + 50)[j] == records[50 * t + j]);
    }
    assert forall|w: int| 0 <= w < 12 implies #[trigger] record_word(file, t, w) == values[w] by {
        lemma_record_word(rec, values, w);
        assert(file[base + 4 * w] == rec[4 * w]);
        assert(file[base + 4 * w + 1] == rec[4 * w + 1]);
        assert(file[base + 4 * w + 2] == rec[4 * w + 2]);
        assert(file[base + 4 * w + 3] == rec[4 * w + 3]);
    }
    lemma_record_word(rec, values, 0);
    assert(file[base + 48] == rec[48]);
    assert(file[base + 49] == rec[49]);
}

/// A binary STL file reads back as the mesh it was written from: after the
/// 80-byte header, the triangle count (its low 32 bits), then for each
/// triangle in order its normal, its three corners in index order, and a
/// zero attribute word.
pub proof fn lemma_stl_reads_back(name: Seq<char>, vertices: Seq<[u32; 3]>, indices: Seq<u32>, normals: Seq<[u32; 3]>)
    requires
        whole_triangles(indices),
        normals.len() == indices.len() / 3,
        forall|i: int| 0 <= i < indices.len() ==> (#[trigger] indices[i]) < vertices.len(),
    ensures
        ({
            let file = binary_stl(name, vertices, indices, normals);
            let n = indices.len() / 3;
            &&& file.len() == 84 + 50 * n
            &&& file.subrange(0, 80) == stl_header_bytes(name)
            &&& le32_at(file, 80) == n % 0x1_0000_0000
            &&& forall|t: int, k: int| 0 <= t < n && 0 <= k < 3 ==> #[trigger] normal_word(file, t, k) == normals[t][k]
            &&& forall|t: int, c: int, k: int|
                0 <= t < n && 0 <= c < 3 && 0 <= k < 3 ==> #[trigger] corner_word(file, t, c, k)
                    == vertices[indices[3 * t + c] as int][k]
            &&& forall|t: int| 0 <= t < n ==> #[trigger] attribute_bytes(file, t) == (0u8, 0u8)
        }),
{
    let file = binary_stl(name, vertices, indices, normals);
    let n = indices.len() / 3;
    let header = stl_header_bytes(name);
    let count = le32((n as int % 0x1_0000_0000) as u32);
    let records = triangle_records(vertices, indices, normals, n as int);
    lemma_records_layout(vertices, indices, normals, n as int);
    lemma_le32_reads_back((n as int % 0x1_0000_0000) as u32);
    assert(file == header + count + records);
    assert(file.subrange(0, 80) =~= header);
    assert(file[80] == count[0] && file[81] == count[1] && file[82] == count[2] && file[83] == count[3]);
    assert forall|t: int, k: int| 0 <= t < n && 0 <= k < 3 implies #[trigger] normal_word(file, t, k) == normals[t][k] by {
        lemma_record_in_file(name, vertices, indices, normals, t);
        assert(record_word(file, t, k) == record_values(vertices, indices, normals, t)[k]);
    }
    assert forall|t: int, c: int, k: int| 0 <= t < n && 0 <= c < 3 && 0 <= k < 3 implies #[trigger] corner_word(file, t, c, k)
        == vertices[indices[3 * t + c] as int][k] by {
        lemma_record_in_file(name, vertices, indices, normals, t);
        assert(record_word(file, t, 3 + 3 * c + k) == record_values(vertices, indices, normals, t)[3 + 3 * c + k]);
    }
    assert forall|t: int| 0 <= t < n implies #[trigger] attribute_bytes(file, t) == (0u8, 0u8) by {
        lemma_record_in_file(name, vertices, indices, normals, t);
    }
}

} // verus!
