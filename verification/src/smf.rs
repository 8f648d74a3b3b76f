//! The mesh file format (`.smf`): a marker byte, the vertex count and an
//! index count as little-endian `u32`, then the vertex data; and the
//! assembly of a mesh's vertex data from the primitives of a model.
//!
//! Vertex attributes are `f32` values; here each is held as its IEEE-754
//! bit pattern (`f32::to_bits`), which is what the file stores.
use vstd::prelude::*;
use vstd::bytes::{spec_u32_from_le_bytes, spec_u32_to_le_bytes, u32_from_le_bytes, u32_to_le_bytes};
use vstd::slice::{slice_subrange, slice_to_vec};
use crate::bvh::{Vec3Bits, words_bytes, words_to_bytes};

verus! {

/// The byte that every mesh file begins with.
pub const SMF_MARKER: u8 = 0b10110000;

/// Length of the header that precedes the vertex data.
pub const SMF_HEADER_LEN: usize = 9;

/// The bytes of a mesh file with `vertex_count` vertices whose data is
/// `vertex_data` (the index count is written as 0).
pub open spec fn smf_bytes(vertex_count: u32, vertex_data: Seq<u8>) -> Seq<u8> {
    seq![SMF_MARKER] + spec_u32_to_le_bytes(vertex_count) + spec_u32_to_le_bytes(0) + vertex_data
}

/// The content of a mesh file with `vertex_count` vertices and the given
/// vertex data.
pub fn smf_payload(vertex_count: u32, vertex_data: &[u8]) -> (r: Vec<u8>)
    ensures
        r@ == smf_bytes(vertex_count, vertex_data@),
{
    let mut payload: Vec<u8> = Vec::new();
    payload.push(SMF_MARKER);
    let mut c = u32_to_le_bytes(vertex_count);
    payload.append(&mut c);
    let mut z = u32_to_le_bytes(0);
    payload.append(&mut z);
    let mut i: usize = 0;
    let ghost head = payload@;
    while i < vertex_data.len()
        invariant
            i <= vertex_data@.len(),
            head == seq![SMF_MARKER] + spec_u32_to_le_bytes(vertex_count) + spec_u32_to_le_bytes(0),
            payload@ == head + vertex_data@.subrange(0, i as int),
        decreases vertex_data@.len() - i,
    {
        payload.push(vertex_data[i]);
        proof {
            assert(vertex_data@.subrange(0, i + 1) =~= vertex_data@.subrange(0, i as int).push(
                vertex_data@[i as int],
            ));
        }
        i = i + 1;
    }
    proof {
        assert(vertex_data@.subrange(0, vertex_data@.len() as int) =~= vertex_data@);
    }
    payload
}

/// Why a mesh file could not be read.
#[derive(Clone, Copy, Debug, PartialEq, Eq)]
pub enum SmfError {
    /// Shorter than the header, or not beginning with the marker byte.
    TooShort,
    /// The header declares more vertex data than the file holds.
    MissingVertexData,
}

impl SmfError {
    /// The message of the error.
    pub fn message(&self) -> (r: String)
        ensures
            r@ == match self {
                SmfError::TooShort => "failed to parse smf file: file too short"@,
                SmfError::MissingVertexData => "declared more vertex thata than exists"@,
            },
    {
        match self {
            SmfError::TooShort => String::from_str("failed to parse smf file: file too short"),
            SmfError::MissingVertexData => String::from_str("declared more vertex thata than exists"),
        }
    }
}

/// The vertices of a mesh file: their count and their data.
#[derive(Clone, Debug, PartialEq, Eq)]
pub struct SmfMesh {
    pub vertex_count: u32,
    pub vertex_data: Vec<u8>,
}

/// The vertex count that the header of `d` declares.
pub open spec fn smf_declared_count(d: Seq<u8>) -> u32 {
    spec_u32_from_le_bytes(d.subrange(1, 5))
}

/// What reading the mesh file `d` with `stride` bytes per vertex gives:
/// the declared vertex count and that many vertices' data, which follows
/// the header; bytes after it are ignored.
pub open spec fn smf_parse(d: Seq<u8>, stride: nat) -> Result<(u32, Seq<u8>), SmfError> {
    if d.len() < SMF_HEADER_LEN || d[0] != SMF_MARKER {
        Err(SmfError::TooShort)
    } else {
        let n = smf_declared_count(d);
        let size = n * stride;
        if d.len() < SMF_HEADER_LEN + size {
            Err(SmfError::MissingVertexData)
        } else {
            Ok((n, d.subrange(SMF_HEADER_LEN as int, SMF_HEADER_LEN + size)))
        }
    }
}

/// Whether `r` is the result that `smf_parse` describes.
pub open spec fn smf_result_matches(r: Result<SmfMesh, SmfError>, e: Result<(u32, Seq<u8>), SmfError>) -> bool {
    match (r, e) {
        (Ok(m), Ok((n, data))) => m.vertex_count == n && m.vertex_data@ == data,
        (Err(a), Err(b)) => a == b,
        _ => false,
    }
}

/// Reads the mesh file `data` whose vertices take `stride` bytes each. The
/// size of the declared vertex data is compared with the file's length
/// exactly, so no stride is too large: a header that declares more data
/// than any file could hold is missing its vertex data.
pub fn parse_smf(data: &[u8], stride: u64) -> (r: Result<SmfMesh, SmfError>)
    ensures
        smf_result_matches(r, smf_parse(data@, stride as nat)),
{
    if data.len() < SMF_HEADER_LEN || data[0] != SMF_MARKER {
        return Err(SmfError::TooShort);
    }
    let count = u32_from_le_bytes(slice_subrange(data, 1, 5));
    assert((count as u128) * (stride as u128) <= 0xFFFF_FFFE_FFFF_FFFF_0000_0001u128) by (nonlinear_arith)
        requires
            count <= u32::MAX,
            stride <= u64::MAX,
    ;
    let size: u128 = (count as u128) * (stride as u128);
    assert(size == count * stride) by (nonlinear_arith)
        requires
            size == (count as u128) * (stride as u128),
    ;
    if (data.len() as u128) < (SMF_HEADER_LEN as u128) + size {
        return Err(SmfError::MissingVertexData);
    }
    let end: usize = SMF_HEADER_LEN + (size as usize);
    let body = slice_subrange(data, SMF_HEADER_LEN, end);
    Ok(SmfMesh { vertex_count: count, vertex_data: slice_to_vec(body) })
}

/// What the hierarchy builder reads from the mesh file `d` with `stride`
/// bytes per vertex: the declared vertex count and that many vertices'
/// data, without looking at the marker byte; `None` where the file is
/// shorter than its header or than the vertex data it declares.
pub open spec fn smf_vertices(d: Seq<u8>, stride: nat) -> Option<(u32, Seq<u8>)> {
    if d.len() < SMF_HEADER_LEN {
        None
    } else {
        let n = smf_declared_count(d);
        let size = n * stride;
        if d.len() < SMF_HEADER_LEN + size {
            None
        } else {
            Some((n, d.subrange(SMF_HEADER_LEN as int, SMF_HEADER_LEN + size)))
        }
    }
}

/// Reads the vertices of the mesh file `data` as the hierarchy builder
/// does (see `smf_vertices`): any first byte is accepted.
pub fn read_smf_vertices(data: &[u8], stride: u64) -> (r: Option<SmfMesh>)
    ensures
        match smf_vertices(data@, stride as nat) {
            Some((n, d)) => r matches Some(m) && m.vertex_count == n && m.vertex_data@ == d,
            None => r is None,
        },
{
    if data.len() < SMF_HEADER_LEN {
        return None;
    }
    let count = u32_from_le_bytes(slice_subrange(data, 1, 5));
    assert((count as u128) * (stride as u128) <= 0xFFFF_FFFE_FFFF_FFFF_0000_0001u128) by (nonlinear_arith)
        requires
            count <= u32::MAX,
            stride <= u64::MAX,
    ;
    let size: u128 = (count as u128) * (stride as u128);
    assert(size == count * stride) by (nonlinear_arith)
        requires
            size == (count as u128) * (stride as u128),
    ;
    if (data.len() as u128) < (SMF_HEADER_LEN as u128) + size {
        return None;
    }
    let end: usize = SMF_HEADER_LEN + (size as usize);
    let body = slice_subrange(data, SMF_HEADER_LEN, end);
    Some(SmfMesh { vertex_count: count, vertex_data: slice_to_vec(body) })
}

/// A mesh file written for some vertices reads back as those vertices:
/// the vertex count that was written, and the vertex data that was
/// written, given that it holds `stride` bytes for each vertex.
pub proof fn lemma_smf_round_trip(vertex_count: u32, vertex_data: Seq<u8>, stride: nat)
    requires
        vertex_data.len() == vertex_count * stride,
    ensures
        smf_parse(smf_bytes(vertex_count, vertex_data), stride) == Ok::<(u32, Seq<u8>), SmfError>(
            (vertex_count, vertex_data),
        ),
{
    vstd::bytes::lemma_auto_spec_u32_to_from_le_bytes();
    let d = smf_bytes(vertex_count, vertex_data);
    let c = spec_u32_to_le_bytes(vertex_count);
    let z = spec_u32_to_le_bytes(0);
    assert(c.len() == 4);
    assert(z.len() == 4);
    assert(d.subrange(1, 5) =~= c);
    assert(d.subrange(SMF_HEADER_LEN as int, SMF_HEADER_LEN + vertex_data.len()) =~= vertex_data);
}


/// Texture coordinates, each held as the bit pattern of its `f32` value.
#[derive(Clone, Copy, Debug, PartialEq, Eq)]
pub struct Vec2Bits {
    pub x: u32,
    pub y: u32,
}

/// The vertex attributes of one primitive of a model: positions, and
/// where the model has them, texture coordinates, normals and an index
/// list.
#[derive(Clone, Debug)]
pub struct PrimitiveData {
    pub positions: Vec<Vec3Bits>,
    pub tex_coords: Option<Vec<Vec2Bits>>,
    pub normals: Option<Vec<Vec3Bits>>,
    pub indices: Option<Vec<u32>>,
}

/// Bit pattern of `1.0f32`.
pub const ONE_BITS: u32 = 0x3F80_0000;

/// The vertices that a primitive emits, in order: those its index list
/// names, or all its positions where it has no index list.
pub open spec fn vertex_order(p: PrimitiveData) -> Seq<int> {
    match p.indices {
        Some(ix) => Seq::new(ix@.len(), |k: int| ix@[k] as int),
        None => Seq::new(p.positions@.len(), |k: int| k),
    }
}

/// Whether every vertex that `p` emits has a position, and texture
/// coordinates and a normal where `p` has those lists.
pub open spec fn primitive_fits(p: PrimitiveData) -> bool {
    forall|k: int|
        0 <= k < vertex_order(p).len() ==> {
            let i = #[trigger] vertex_order(p)[k];
            &&& 0 <= i < p.positions@.len()
            &&& p.tex_coords matches Some(t) ==> i < t@.len()
            &&& p.normals matches Some(n) ==> i < n@.len()
        }
}

/// The eight words of vertex `i` of `p`: position, texture coordinates
/// (0, 0 where `p` has none) and normal (0, 1, 0 where `p` has none).
pub open spec fn vertex_words(p: PrimitiveData, i: int) -> Seq<u32> {
    let pos = p.positions@[i];
    let uv = match p.tex_coords {
        Some(t) => seq![t@[i].x, t@[i].y],
        None => seq![0u32, 0u32],
    };
    let nrm = match p.normals {
        Some(n) => seq![n@[i].x, n@[i].y, n@[i].z],
        None => seq![0u32, ONE_BITS, 0u32],
    };
    seq![pos.x, pos.y, pos.z] + uv + nrm
}

/// The words of the vertices `order` of `p`, vertex after vertex.
pub open spec fn order_words(p: PrimitiveData, order: Seq<int>) -> Seq<u32>
    decreases order.len(),
{
    if order.len() == 0 {
        Seq::empty()
    } else {
        order_words(p, order.drop_last()) + vertex_words(p, order.last())
    }
}

/// The words of all vertices that the primitives `ps` emit, primitive
/// after primitive.
pub open spec fn mesh_words(ps: Seq<PrimitiveData>) -> Seq<u32>
    decreases ps.len(),
{
    if ps.len() == 0 {
        Seq::empty()
    } else {
        mesh_words(ps.drop_last()) + order_words(ps.last(), vertex_order(ps.last()))
    }
}

/// The number of vertices that the primitives `ps` emit.
pub open spec fn mesh_vertex_count(ps: Seq<PrimitiveData>) -> nat
    decreases ps.len(),
{
    if ps.len() == 0 {
        0
    } else {
        mesh_vertex_count(ps.drop_last()) + vertex_order(ps.last()).len()
    }
}

proof fn lemma_mesh_vertex_count_prefix(ps: Seq<PrimitiveData>, i: int)
    requires
        0 <= i <= ps.len(),
    ensures
        mesh_vertex_count(ps.subrange(0, i)) <= mesh_vertex_count(ps),
    decreases ps.len() - i,
{
    if i < ps.len() {
        lemma_mesh_vertex_count_prefix(ps, i + 1);
        assert(ps.subrange(0, i + 1).drop_last() =~= ps.subrange(0, i));
    } else {
        assert(ps.subrange(0, i) =~= ps);
    }
}

proof fn lemma_vertex_words_len(p: PrimitiveData, i: int)
    ensures
        vertex_words(p, i).len() == 8,
{
}

proof fn lemma_order_words_len(p: PrimitiveData, o: Seq<int>)
    ensures
        order_words(p, o).len() == 8 * o.len(),
    decreases o.len(),
{
    if o.len() > 0 {
        lemma_order_words_len(p, o.drop_last());
        lemma_vertex_words_len(p, o.last());
    }
}

proof fn lemma_order_words_at(p: PrimitiveData, o: Seq<int>, k: int)
    requires
        0 <= k < o.len(),
    ensures
        order_words(p, o).subrange(8 * k, 8 * k + 8) == vertex_words(p, o[k]),
    decreases o.len(),
{
    let pre = o.drop_last();
    lemma_order_words_len(p, pre);
    lemma_vertex_words_len(p, o.last());
    let w = order_words(p, o);
    assert(w == order_words(p, pre) + vertex_words(p, o.last()));
    if k == o.len() - 1 {
        assert(w.subrange(8 * k, 8 * k + 8) =~= vertex_words(p, o[k]));
    } else {
        lemma_order_words_at(p, pre, k);
        assert(pre[k] == o[k]);
        assert(w.subrange(8 * k, 8 * k + 8) =~= order_words(p, pre).subrange(8 * k, 8 * k + 8));
    }
}

/// The mesh file of one primitive holds its vertices in the order of its
/// index list (or of its positions where it has none): the eight words of
/// the `k`-th vertex emitted are those of the vertex that the `k`-th index
/// names, so every triangle keeps its winding and its place. They are its
/// position, its texture coordinates (0, 0 without any), and its normal
/// (0, 1.0, 0 without any).
pub proof fn lemma_mesh_vertex_order(p: PrimitiveData, k: int)
    requires
        0 <= k < match p.indices {
            Some(ix) => ix@.len() as int,
            None => p.positions@.len() as int,
        },
    ensures
        ({
            let i = match p.indices {
                Some(ix) => ix@[k] as int,
                None => k,
            };
            let w = mesh_words(seq![p]);
            &&& w[8 * k] == p.positions@[i].x
            &&& w[8 * k + 1] == p.positions@[i].y
            &&& w[8 * k + 2] == p.positions@[i].z
            &&& w[8 * k + 3] == match p.tex_coords {
                Some(t) => t@[i].x,
                None => 0u32,
            }
            &&& w[8 * k + 4] == match p.tex_coords {
                Some(t) => t@[i].y,
                None => 0u32,
            }
            &&& w[8 * k + 5] == match p.normals {
                Some(n) => n@[i].x,
                None => 0u32,
            }
            &&& w[8 * k + 6] == match p.normals {
                Some(n) => n@[i].y,
                None => ONE_BITS,
            }
            &&& w[8 * k + 7] == match p.normals {
                Some(n) => n@[i].z,
                None => 0u32,
            }
        }),
        mesh_words(seq![p]).len() == 8 * match p.indices {
            Some(ix) => ix@.len() as int,
            None => p.positions@.len() as int,
        },
        mesh_words(seq![p]).subrange(8 * k, 8 * k + 8) == vertex_words(
            p,
            match p.indices {
                Some(ix) => ix@[k] as int,
                None => k,
            },
        ),
{
    let one = seq![p];
    assert(one.drop_last() =~= Seq::<PrimitiveData>::empty());
    assert(one.last() == p);
    let o = vertex_order(p);
    assert(mesh_words(one.drop_last()) == Seq::<u32>::empty());
    assert(mesh_words(one) == mesh_words(one.drop_last()) + order_words(p, o));
    assert(mesh_words(one) =~= order_words(p, o));
    lemma_order_words_len(p, o);
    lemma_order_words_at(p, o, k);
    let i = o[k];
    assert(i == match p.indices {
        Some(ix) => ix@[k] as int,
        None => k,
    });
    let w = mesh_words(one);
    let vw = vertex_words(p, i);
    assert forall|j: int| 0 <= j < 8 implies w[8 * k + j] == vw[j] by {
        assert(w.subrange(8 * k, 8 * k + 8)[j] == w[8 * k + j]);
    }
    assert(w[8 * k] == vw[0] && w[8 * k + 1] == vw[1] && w[8 * k + 2] == vw[2]);
    assert(w[8 * k + 3] == vw[3] && w[8 * k + 4] == vw[4]);
    assert(w[8 * k + 5] == vw[5] && w[8 * k + 6] == vw[6] && w[8 * k + 7] == vw[7]);
}

fn push_vertex(out: &mut Vec<u32>, p: &PrimitiveData, i: usize)
    requires
        i < p.positions@.len(),
        p.tex_coords matches Some(t) ==> i < t@.len(),
        p.normals matches Some(n) ==> i < n@.len(),
    ensures
        final(out)@ == old(out)@ + vertex_words(*p, i as int),
{
    let pos = p.positions[i];
    out.push(pos.x);
    out.push(pos.y);
    out.push(pos.z);
    match &p.tex_coords {
        Some(t) => {
            out.push(t[i].x);
            out.push(t[i].y);
        },
        None => {
            out.push(0);
            out.push(0);
        },
    }
    match &p.normals {
        Some(n) => {
            out.push(n[i].x);
            out.push(n[i].y);
            out.push(n[i].z);
        },
        None => {
            out.push(0);
            out.push(ONE_BITS);
            out.push(0);
        },
    }
    proof {
        assert(final(out)@ =~= old(out)@ + vertex_words(*p, i as int));
    }
}

fn push_primitive(out: &mut Vec<u32>, p: &PrimitiveData)
    requires
        primitive_fits(*p),
    ensures
        final(out)@ == old(out)@ + order_words(*p, vertex_order(*p)),
{
    let ghost order = vertex_order(*p);
    let n = match &p.indices {
        Some(ix) => ix.len(),
        None => p.positions.len(),
    };
    let mut k: usize = 0;
    while k < n
        invariant
            order == vertex_order(*p),
            n == order.len(),
            primitive_fits(*p),
            k <= n,
            out@ == old(out)@ + order_words(*p, order.subrange(0, k as int)),
        decreases n - k,
    {
        let i = match &p.indices {
            Some(ix) => ix[k] as usize,
            None => k,
        };
        assert(i == order[k as int]);
        push_vertex(out, p, i);
        proof {
            assert(order.subrange(0, k + 1).drop_last() =~= order.subrange(0, k as int));
        }
        k = k + 1;
    }
    proof {
        assert(order.subrange(0, n as int) =~= order);
    }
}

/// The content of the mesh file made of the primitives `primitives`, or
/// `None` where they emit no vertex.
pub fn mesh_smf(primitives: &[PrimitiveData]) -> (r: Option<Vec<u8>>)
    requires
        forall|k: int| 0 <= k < primitives@.len() ==> primitive_fits(#[trigger] primitives@[k]),
        mesh_vertex_count(primitives@) <= u32::MAX,
    ensures
        mesh_vertex_count(primitives@) == 0 ==> r is None,
        mesh_vertex_count(primitives@) > 0 ==> (r matches Some(b) && b@ == smf_bytes(
            mesh_vertex_count(primitives@) as u32,
            words_bytes(mesh_words(primitives@)),
        )),
{
    let mut vertices: Vec<u32> = Vec::new();
    let mut vertex_count: u32 = 0;
    let mut j: usize = 0;
    while j < primitives.len()
        invariant
            j <= primitives@.len(),
            forall|k: int| 0 <= k < primitives@.len() ==> primitive_fits(#[trigger] primitives@[k]),
            mesh_vertex_count(primitives@) <= u32::MAX,
            vertices@ == mesh_words(primitives@.subrange(0, j as int)),
            vertex_count == mesh_vertex_count(primitives@.subrange(0, j as int)),
        decreases primitives@.len() - j,
    {
        let p = &primitives[j];
        proof {
            assert(primitives@.subrange(0, j + 1).drop_last() =~= primitives@.subrange(0, j as int));
            lemma_mesh_vertex_count_prefix(primitives@, j + 1);
        }
        push_primitive(&mut vertices, p);
        let emitted = match &p.indices {
            Some(ix) => ix.len(),
            None => p.positions.len(),
        };
        vertex_count = vertex_count + emitted as u32;
        j = j + 1;
    }
    proof {
        assert(primitives@.subrange(0, primitives@.len() as int) =~= primitives@);
    }
    if vertex_count == 0 {
        return None;
    }
    let bytes = words_to_bytes(vertices.as_slice());
    Some(smf_payload(vertex_count, bytes.as_slice()))
}

/// Whether `c` is alphanumeric in the sense of `char::is_alphanumeric`
/// (Unicode alphabetic or numeric).
pub uninterp spec fn alphanumeric(c: char) -> bool;

/// `char::is_alphanumeric`: the result is the Unicode property of `c`,
/// which depends on `c` alone; among ASCII characters exactly the letters
/// and digits have it. Other characters' answers are left to the Unicode
/// tables.
#[verifier::external_body]
fn char_is_alphanumeric(c: char) -> (b: bool)
    ensures
        b == alphanumeric(c),
        (c as u32) < 128 ==> (b <==> ('a' <= c <= 'z' || 'A' <= c <= 'Z' || '0' <= c <= '9')),
{
    c.is_alphanumeric()
}

/// A mesh name with every character that is not alphanumeric turned into
/// `_`, as used for its file name.
pub open spec fn safe_name(s: Seq<char>) -> Seq<char> {
    Seq::new(s.len(), |i: int| if alphanumeric(s[i]) { s[i] } else { '_' })
}

/// An ASCII letter or digit.
pub open spec fn ascii_alphanumeric(c: char) -> bool {
    'a' <= c <= 'z' || 'A' <= c <= 'Z' || '0' <= c <= '9'
}

/// The file name stem of the mesh named `raw_name`; an ASCII character
/// stays where it is a letter or digit and becomes `_` otherwise.
pub fn safe_mesh_name(raw_name: &str) -> (r: String)
    ensures
        r@ == safe_name(raw_name@),
        forall|i: int|
            0 <= i < raw_name@.len() && (raw_name@[i] as u32) < 128 ==> #[trigger] r@[i] == if ascii_alphanumeric(
                raw_name@[i],
            ) {
                raw_name@[i]
            } else {
                '_'
            },
{
    let v = crate::text::chars_of(raw_name);
    let mut r = String::new();
    let mut i: usize = 0;
    while i < v.len()
        invariant
            v@ == raw_name@,
            i <= v@.len(),
            r@ == safe_name(raw_name@).subrange(0, i as int),
            forall|k: int|
                0 <= k < i && (raw_name@[k] as u32) < 128 ==> #[trigger] r@[k] == if ascii_alphanumeric(
                    raw_name@[k],
                ) {
                    raw_name@[k]
                } else {
                    '_'
                },
        decreases v@.len() - i,
    {
        let c = v[i];
        if char_is_alphanumeric(c) {
            crate::text::push_char(&mut r, c);
        } else {
            crate::text::push_char(&mut r, '_');
        }
        proof {
            assert(r@ =~= safe_name(raw_name@).subrange(0, i + 1));
        }
        i = i + 1;
    }
    proof {
        assert(safe_name(raw_name@).subrange(0, v@.len() as int) =~= safe_name(raw_name@));
    }
    r
}

} // verus!
