//! Bounding volume hierarchies of the game's meshes: the node records, the
//! file that stores the nodes of all meshes with the root of each mesh,
//! and the merging of the nodes of one mesh into the shared node list.
//!
//! A node's bounding box is made of `f32` coordinates; here each of them is
//! held as its IEEE-754 bit pattern (`f32::to_bits`), which is what the
//! file stores.
use vstd::prelude::*;
use vstd::bytes::{spec_u32_from_le_bytes, spec_u32_to_le_bytes, u32_from_le_bytes, u32_to_le_bytes};
use vstd::slice::slice_subrange;

verus! {

/// A point or extent in space, each coordinate held as the bit pattern of
/// its `f32` value.
#[derive(Clone, Copy, Debug, PartialEq, Eq)]
pub struct Vec3Bits {
    pub x: u32,
    pub y: u32,
    pub z: u32,
}

/// A node of a bounding volume hierarchy. A leaf (`tri_count > 0`) covers
/// the triangles `left_first .. left_first + tri_count`; an inner node has
/// its children at `left_first` and `left_first + 1`.
#[derive(Clone, Copy, Debug, PartialEq, Eq)]
pub struct BvhNode {
    pub aabb_min: Vec3Bits,
    pub left_first: u32,
    pub aabb_max: Vec3Bits,
    pub tri_count: u32,
}

/// The eight 32-bit words of a node, in the order of its fields.
pub open spec fn node_words(n: BvhNode) -> Seq<u32> {
    seq![
        n.aabb_min.x,
        n.aabb_min.y,
        n.aabb_min.z,
        n.left_first,
        n.aabb_max.x,
        n.aabb_max.y,
        n.aabb_max.z,
        n.tri_count,
    ]
}

/// The words of a list of nodes, node after node.
pub open spec fn nodes_words(s: Seq<BvhNode>) -> Seq<u32>
    decreases s.len(),
{
    if s.len() == 0 {
        Seq::empty()
    } else {
        nodes_words(s.drop_last()) + node_words(s.last())
    }
}

/// Little-endian bytes of a list of words.
pub open spec fn words_bytes(ws: Seq<u32>) -> Seq<u8>
    decreases ws.len(),
{
    if ws.len() == 0 {
        Seq::empty()
    } else {
        words_bytes(ws.drop_last()) + spec_u32_to_le_bytes(ws.last())
    }
}

/// The words of a hierarchy file: the node count, the nodes, the root
/// count and the roots. Counts are written as `u32`, cut to their low 32
/// bits.
pub open spec fn bvh_words(nodes: Seq<BvhNode>, roots: Seq<u32>) -> Seq<u32> {
    seq![nodes.len() as u32] + nodes_words(nodes) + seq![roots.len() as u32] + roots
}

/// The bytes of a hierarchy file.
pub open spec fn bvh_bytes(nodes: Seq<BvhNode>, roots: Seq<u32>) -> Seq<u8> {
    words_bytes(bvh_words(nodes, roots))
}

/// The word of `d` that begins at byte `4 * k`.
pub open spec fn word_at(d: Seq<u8>, k: int) -> u32 {
    spec_u32_from_le_bytes(d.subrange(4 * k, 4 * k + 4))
}

/// The node count that a hierarchy file declares.
pub open spec fn declared_nodes(d: Seq<u8>) -> nat {
    word_at(d, 0) as nat
}

/// The root count that a hierarchy file declares after its nodes.
pub open spec fn declared_roots(d: Seq<u8>) -> nat {
    word_at(d, (1 + 8 * declared_nodes(d)) as int) as nat
}

/// Whether `d` holds both counts and everything they declare.
pub open spec fn bvh_data_complete(d: Seq<u8>) -> bool {
    &&& d.len() >= 4
    &&& d.len() >= 4 * (2 + 8 * declared_nodes(d))
    &&& d.len() >= 4 * (2 + 8 * declared_nodes(d) + declared_roots(d))
}

/// Node `i` of a hierarchy file.
pub open spec fn node_at(d: Seq<u8>, i: int) -> BvhNode {
    let b = 1 + 8 * i;
    BvhNode {
        aabb_min: Vec3Bits { x: word_at(d, b), y: word_at(d, b + 1), z: word_at(d, b + 2) },
        left_first: word_at(d, b + 3),
        aabb_max: Vec3Bits { x: word_at(d, b + 4), y: word_at(d, b + 5), z: word_at(d, b + 6) },
        tri_count: word_at(d, b + 7),
    }
}

/// Root `j` of a hierarchy file.
pub open spec fn root_at(d: Seq<u8>, j: int) -> u32 {
    word_at(d, 2 + 8 * declared_nodes(d) as int + j)
}

/// The nodes of all meshes and the index of each mesh's root node.
#[derive(Clone, Debug, PartialEq, Eq)]
pub struct LoadedBvhData {
    pub mega_nodes: Vec<BvhNode>,
    pub bvh_roots: Vec<u32>,
}

/// Whether `r` holds what the complete hierarchy file `d` stores.
pub open spec fn is_loaded_from(r: LoadedBvhData, d: Seq<u8>) -> bool {
    &&& r.mega_nodes@.len() == declared_nodes(d)
    &&& r.bvh_roots@.len() == declared_roots(d)
    &&& forall|i: int| 0 <= i < r.mega_nodes@.len() ==> #[trigger] r.mega_nodes@[i] == node_at(d, i)
    &&& forall|j: int| 0 <= j < r.bvh_roots@.len() ==> #[trigger] r.bvh_roots@[j] == root_at(d, j)
}

fn push_word(out: &mut Vec<u8>, w: u32)
    ensures
        final(out)@ == old(out)@ + spec_u32_to_le_bytes(w),
{
    let mut b = u32_to_le_bytes(w);
    out.append(&mut b);
}

fn push_node_words(ws: &mut Vec<u32>, n: &BvhNode)
    ensures
        final(ws)@ == old(ws)@ + node_words(*n),
{
    ws.push(n.aabb_min.x);
    ws.push(n.aabb_min.y);
    ws.push(n.aabb_min.z);
    ws.push(n.left_first);
    ws.push(n.aabb_max.x);
    ws.push(n.aabb_max.y);
    ws.push(n.aabb_max.z);
    ws.push(n.tri_count);
    proof {
        assert(final(ws)@ =~= old(ws)@ + node_words(*n));
    }
}

/// The little-endian bytes of `ws`, word after word.
pub fn words_to_bytes(ws: &[u32]) -> (out: Vec<u8>)
    ensures
        out@ == words_bytes(ws@),
{
    let mut out: Vec<u8> = Vec::new();
    let mut k: usize = 0;
    while k < ws.len()
        invariant
            k <= ws@.len(),
            out@ == words_bytes(ws@.subrange(0, k as int)),
        decreases ws@.len() - k,
    {
        push_word(&mut out, ws[k]);
        proof {
            assert(ws@.subrange(0, k + 1).drop_last() =~= ws@.subrange(0, k as int));
        }
        k = k + 1;
    }
    proof {
        assert(ws@.subrange(0, ws@.len() as int) =~= ws@);
    }
    out
}

/// The content of the hierarchy file that stores `mega_nodes` and
/// `bvh_roots`. Every word is written in little-endian byte order. A copy
/// of the words' memory (as `bytemuck::cast_slice` gives it) has the
/// machine's own byte order instead: the two agree on little-endian
/// targets, the engine's, and differ on a big-endian one, where this file
/// keeps the little-endian order.
pub fn bvh_payload(mega_nodes: &[BvhNode], bvh_roots: &[u32]) -> (r: Vec<u8>)
    ensures
        r@ == bvh_bytes(mega_nodes@, bvh_roots@),
{
    let mut ws: Vec<u32> = Vec::new();
    ws.push(mega_nodes.len() as u32);
    let mut i: usize = 0;
    while i < mega_nodes.len()
        invariant
            i <= mega_nodes@.len(),
            ws@ == seq![mega_nodes@.len() as u32] + nodes_words(mega_nodes@.subrange(0, i as int)),
        decreases mega_nodes@.len() - i,
    {
        push_node_words(&mut ws, &mega_nodes[i]);
        proof {
            let p = mega_nodes@.subrange(0, i + 1);
            assert(p.drop_last() =~= mega_nodes@.subrange(0, i as int));
            assert(ws@ =~= seq![mega_nodes@.len() as u32] + nodes_words(p));
        }
        i = i + 1;
    }
    proof {
        assert(mega_nodes@.subrange(0, mega_nodes@.len() as int) =~= mega_nodes@);
    }
    ws.push(bvh_roots.len() as u32);
    let mut j: usize = 0;
    let ghost head = ws@;
    while j < bvh_roots.len()
        invariant
            j <= bvh_roots@.len(),
            head == seq![mega_nodes@.len() as u32] + nodes_words(mega_nodes@) + seq![bvh_roots@.len() as u32],
            ws@ == head + bvh_roots@.subrange(0, j as int),
        decreases bvh_roots@.len() - j,
    {
        ws.push(bvh_roots[j]);
        proof {
            assert(bvh_roots@.subrange(0, j + 1) =~= bvh_roots@.subrange(0, j as int).push(
                bvh_roots@[j as int],
            ));
        }
        j = j + 1;
    }
    proof {
        assert(bvh_roots@.subrange(0, bvh_roots@.len() as int) =~= bvh_roots@);
        assert(ws@ =~= bvh_words(mega_nodes@, bvh_roots@));
    }
    words_to_bytes(ws.as_slice())
}


proof fn lemma_words_bytes_len(ws: Seq<u32>)
    ensures
        words_bytes(ws).len() == 4 * ws.len(),
    decreases ws.len(),
{
    vstd::bytes::lemma_auto_spec_u32_to_from_le_bytes();
    if ws.len() > 0 {
        lemma_words_bytes_len(ws.drop_last());
        assert(spec_u32_to_le_bytes(ws.last()).len() == 4);
    }
}

proof fn lemma_word_at_words_bytes(ws: Seq<u32>, k: int)
    requires
        0 <= k < ws.len(),
    ensures
        word_at(words_bytes(ws), k) == ws[k],
    decreases ws.len(),
{
    vstd::bytes::lemma_auto_spec_u32_to_from_le_bytes();
    let p = ws.drop_last();
    let e = spec_u32_to_le_bytes(ws.last());
    lemma_words_bytes_len(p);
    assert(e.len() == 4);
    let d = words_bytes(ws);
    assert(d == words_bytes(p) + e);
    if k == ws.len() - 1 {
        assert(d.subrange(4 * k, 4 * k + 4) =~= e);
    } else {
        lemma_word_at_words_bytes(p, k);
        assert(d.subrange(4 * k, 4 * k + 4) =~= words_bytes(p).subrange(4 * k, 4 * k + 4));
    }
}

proof fn lemma_nodes_words(s: Seq<BvhNode>)
    ensures
        nodes_words(s).len() == 8 * s.len(),
        forall|i: int, j: int|
            0 <= i < s.len() && 0 <= j < 8 ==> #[trigger] nodes_words(s)[8 * i + j] == node_words(
                s[i],
            )[j],
    decreases s.len(),
{
    if s.len() > 0 {
        let p = s.drop_last();
        lemma_nodes_words(p);
        assert forall|i: int, j: int|
            0 <= i < s.len() && 0 <= j < 8 implies #[trigger] nodes_words(s)[8 * i + j]
            == node_words(s[i])[j] by {
            if i < s.len() - 1 {
                assert(nodes_words(p)[8 * i + j] == node_words(p[i])[j]);
            }
        }
    }
}

/// A hierarchy file written for some nodes and roots is complete, and
/// reading it gives back those nodes and roots, in order, as long as
/// each count fits in the `u32` that stores it.
pub proof fn lemma_bvh_round_trip(nodes: Seq<BvhNode>, roots: Seq<u32>)
    requires
        nodes.len() <= u32::MAX,
        roots.len() <= u32::MAX,
    ensures
        bvh_data_complete(bvh_bytes(nodes, roots)),
        declared_nodes(bvh_bytes(nodes, roots)) == nodes.len(),
        declared_roots(bvh_bytes(nodes, roots)) == roots.len(),
        forall|i: int| 0 <= i < nodes.len() ==> #[trigger] node_at(bvh_bytes(nodes, roots), i) == nodes[i],
        forall|j: int| 0 <= j < roots.len() ==> #[trigger] root_at(bvh_bytes(nodes, roots), j) == roots[j],
{
    let ws = bvh_words(nodes, roots);
    let d = bvh_bytes(nodes, roots);
    let n = nodes.len() as int;
    lemma_nodes_words(nodes);
    lemma_words_bytes_len(ws);
    assert(ws.len() == 2 + 8 * n + roots.len());
    assert(ws[0] == n as u32);
    lemma_word_at_words_bytes(ws, 0);
    assert(declared_nodes(d) == n);
    assert(ws[1 + 8 * n] == roots.len() as u32);
    lemma_word_at_words_bytes(ws, 1 + 8 * n);
    assert(declared_roots(d) == roots.len());
    assert forall|i: int| 0 <= i < nodes.len() implies #[trigger] node_at(d, i) == nodes[i] by {
        let b = 1 + 8 * i;
        assert forall|j: int| 0 <= j < 8 implies word_at(d, b + j) == node_words(nodes[i])[j] by {
            lemma_word_at_words_bytes(ws, b + j);
            assert(ws[b + j] == nodes_words(nodes)[8 * i + j]);
        }
        assert(word_at(d, b) == node_words(nodes[i])[0]);
        assert(word_at(d, b + 1) == node_words(nodes[i])[1]);
        assert(word_at(d, b + 2) == node_words(nodes[i])[2]);
        assert(word_at(d, b + 3) == node_words(nodes[i])[3]);
        assert(word_at(d, b + 4) == node_words(nodes[i])[4]);
        assert(word_at(d, b + 5) == node_words(nodes[i])[5]);
        assert(word_at(d, b + 6) == node_words(nodes[i])[6]);
        assert(word_at(d, b + 7) == node_words(nodes[i])[7]);
    }
    assert forall|j: int| 0 <= j < roots.len() implies #[trigger] root_at(d, j) == roots[j] by {
        lemma_word_at_words_bytes(ws, 2 + 8 * n + j);
    }
}


fn read_word(data: &[u8], k: usize) -> (w: u32)
    requires
        4 * k + 4 <= data@.len(),
    ensures
        w == word_at(data@, k as int),
{
    let len = data.len();
    assert(4 * k + 4 <= len);
    let a = 4 * k;
    u32_from_le_bytes(slice_subrange(data, a, a + 4))
}

/// Whether `data` holds both counts of a hierarchy file and everything
/// they declare.
pub fn bvh_data_is_complete(data: &[u8]) -> (b: bool)
    ensures
        b == bvh_data_complete(data@),
{
    if data.len() < 4 {
        return false;
    }
    let n = read_word(data, 0) as u64;
    let len = data.len() as u64;
    let need_nodes: u64 = 4 * (2 + 8 * n);
    if len < need_nodes {
        return false;
    }
    let m = read_word(data, (1 + 8 * n) as usize) as u64;
    let need_roots: u64 = 4 * (2 + 8 * n + m);
    len >= need_roots
}

/// The nodes and roots stored in the complete hierarchy file `data`, each
/// word read in little-endian byte order (see `bvh_payload`); the bytes
/// need no particular alignment in memory.
pub fn load_bvh_data(data: &[u8]) -> (r: LoadedBvhData)
    requires
        bvh_data_complete(data@),
    ensures
        is_loaded_from(r, data@),
{
    let len = data.len();
    let n = read_word(data, 0) as usize;
    let mut mega_nodes: Vec<BvhNode> = Vec::new();
    let mut i: usize = 0;
    while i < n
        invariant
            bvh_data_complete(data@),
            len == data@.len(),
            n == declared_nodes(data@),
            i <= n,
            mega_nodes@.len() == i,
            forall|k: int| 0 <= k < i ==> #[trigger] mega_nodes@[k] == node_at(data@, k),
        decreases n - i,
    {
        let b = 1 + 8 * i;
        let node = BvhNode {
            aabb_min: Vec3Bits {
                x: read_word(data, b),
                y: read_word(data, b + 1),
                z: read_word(data, b + 2),
            },
            left_first: read_word(data, b + 3),
            aabb_max: Vec3Bits {
                x: read_word(data, b + 4),
                y: read_word(data, b + 5),
                z: read_word(data, b + 6),
            },
            tri_count: read_word(data, b + 7),
        };
        mega_nodes.push(node);
        i = i + 1;
    }
    let m = read_word(data, 1 + 8 * n) as usize;
    let mut bvh_roots: Vec<u32> = Vec::new();
    let mut j: usize = 0;
    while j < m
        invariant
            bvh_data_complete(data@),
            len == data@.len(),
            n == declared_nodes(data@),
            m == declared_roots(data@),
            j <= m,
            bvh_roots@.len() == j,
            forall|k: int| 0 <= k < j ==> #[trigger] bvh_roots@[k] == root_at(data@, k),
        decreases m - j,
    {
        bvh_roots.push(read_word(data, 2 + 8 * n + j));
        j = j + 1;
    }
    LoadedBvhData { mega_nodes, bvh_roots }
}

/// What is read from a hierarchy file is what was written to it: the same
/// nodes and the same roots, in order, as long as each count fits in the
/// `u32` that stores it.
pub proof fn lemma_load_after_save(nodes: Seq<BvhNode>, roots: Seq<u32>, loaded: LoadedBvhData)
    requires
        nodes.len() <= u32::MAX,
        roots.len() <= u32::MAX,
        is_loaded_from(loaded, bvh_bytes(nodes, roots)),
    ensures
        loaded.mega_nodes@ == nodes,
        loaded.bvh_roots@ == roots,
{
    lemma_bvh_round_trip(nodes, roots);
    let d = bvh_bytes(nodes, roots);
    assert(loaded.mega_nodes@ =~= nodes) by {
        assert forall|i: int| 0 <= i < nodes.len() implies loaded.mega_nodes@[i] == nodes[i] by {
            assert(loaded.mega_nodes@[i] == node_at(d, i));
            assert(node_at(d, i) == nodes[i]);
        }
    }
    assert(loaded.bvh_roots@ =~= roots) by {
        assert forall|j: int| 0 <= j < roots.len() implies loaded.bvh_roots@[j] == roots[j] by {
            assert(loaded.bvh_roots@[j] == root_at(d, j));
            assert(root_at(d, j) == roots[j]);
        }
    }
}


/// A node of one mesh's hierarchy moved into the shared node list: a leaf
/// points `tri_offset` triangles further, an inner node `node_offset`
/// nodes further.
pub open spec fn relocated(n: BvhNode, tri_offset: u32, node_offset: u32) -> BvhNode {
    if n.tri_count > 0 {
        BvhNode { left_first: (n.left_first + tri_offset) as u32, ..n }
    } else {
        BvhNode { left_first: (n.left_first + node_offset) as u32, ..n }
    }
}

/// Whether every node of `local` can be moved by the offsets without its
/// index leaving the range of `u32`.
pub open spec fn relocation_fits(local: Seq<BvhNode>, tri_offset: u32, node_offset: u32) -> bool {
    forall|i: int|
        0 <= i < local.len() ==> (if (#[trigger] local[i]).tri_count > 0 {
            local[i].left_first + tri_offset <= u32::MAX
        } else {
            local[i].left_first + node_offset <= u32::MAX
        })
}

/// The node list after the nodes `local` of one mesh were moved behind
/// `before`.
pub open spec fn merged_nodes(before: Seq<BvhNode>, local: Seq<BvhNode>, tri_offset: u32, node_offset: u32) -> Seq<BvhNode> {
    before + Seq::new(local.len(), |i: int| relocated(local[i], tri_offset, node_offset))
}

/// The vertices, nodes and roots of all meshes merged so far. Each
/// triangle takes 24 words of `mega_vertices`: three vertices of eight
/// `f32` values (position, texture coordinates, normal), held as bits.
#[derive(Clone, Debug)]
pub struct MegaGeometry {
    pub mega_vertices: Vec<u32>,
    pub mega_nodes: Vec<BvhNode>,
    pub vertex_count: usize,
    pub bvh_roots: Vec<u32>,
}

/// Number of words of vertex data per triangle.
pub const TRIANGLE_WORDS: usize = 24;

impl MegaGeometry {
    /// Nothing merged yet.
    pub fn new() -> (g: MegaGeometry)
        ensures
            g.mega_vertices@.len() == 0,
            g.mega_nodes@.len() == 0,
            g.vertex_count == 0,
            g.bvh_roots@.len() == 0,
    {
        MegaGeometry {
            mega_vertices: Vec::new(),
            mega_nodes: Vec::new(),
            vertex_count: 0,
            bvh_roots: Vec::new(),
        }
    }

    /// Index of the first triangle that the next merged mesh gets.
    pub open spec fn next_triangle(self) -> u32 {
        (self.mega_vertices@.len() / TRIANGLE_WORDS as nat) as u32
    }

    /// Index of the first node that the next merged mesh gets.
    pub open spec fn next_node(self) -> u32 {
        self.mega_nodes@.len() as u32
    }

    /// Merges one mesh: its hierarchy `local_nodes`, whose leaves count
    /// triangles from 0 and whose inner nodes count nodes from 0, the words
    /// of its triangles in the order the leaves refer to them, and its
    /// vertex count. The mesh's root becomes the next root; its nodes are
    /// moved behind the nodes merged before, and its triangles behind the
    /// triangles merged before.
    pub fn add_mesh(&mut self, local_nodes: &[BvhNode], triangle_words: &[u32], vertex_count: usize)
        requires
            relocation_fits(local_nodes@, old(self).next_triangle(), old(self).next_node()),
            old(self).vertex_count + vertex_count <= usize::MAX,
        ensures
            final(self).bvh_roots@ == old(self).bvh_roots@.push(old(self).next_node()),
            final(self).mega_nodes@ == merged_nodes(
                old(self).mega_nodes@,
                local_nodes@,
                old(self).next_triangle(),
                old(self).next_node(),
            ),
            final(self).mega_vertices@ == old(self).mega_vertices@ + triangle_words@,
            final(self).vertex_count == old(self).vertex_count + vertex_count,
    {
        let tri_offset = #[verifier::truncate] ((self.mega_vertices.len() / TRIANGLE_WORDS) as u32);
        let node_offset = #[verifier::truncate] (self.mega_nodes.len() as u32);
        self.bvh_roots.push(node_offset);
        let ghost start = self.mega_nodes@;
        let mut i: usize = 0;
        while i < local_nodes.len()
            invariant
                i <= local_nodes@.len(),
                tri_offset == old(self).next_triangle(),
                node_offset == old(self).next_node(),
                relocation_fits(local_nodes@, tri_offset, node_offset),
                self.bvh_roots@ == old(self).bvh_roots@.push(node_offset),
                self.mega_vertices@ == old(self).mega_vertices@,
                self.vertex_count == old(self).vertex_count,
                start == old(self).mega_nodes@,
                self.mega_nodes@ == start + Seq::new(
                    i as nat,
                    |k: int| relocated(local_nodes@[k], tri_offset, node_offset),
                ),
            decreases local_nodes@.len() - i,
        {
            let mut node = local_nodes[i];
            proof {
                assert(local_nodes@[i as int] == node);
            }
            if node.tri_count > 0 {
                node.left_first = node.left_first + tri_offset;
            } else {
                node.left_first = node.left_first + node_offset;
            }
            self.mega_nodes.push(node);
            proof {
                assert(self.mega_nodes@ =~= start + Seq::new(
                    (i + 1) as nat,
                    |k: int| relocated(local_nodes@[k], tri_offset, node_offset),
                ));
            }
            i = i + 1;
        }
        let ghost vstart = self.mega_vertices@;
        let mut j: usize = 0;
        while j < triangle_words.len()
            invariant
                j <= triangle_words@.len(),
                self.mega_vertices@ == vstart + triangle_words@.subrange(0, j as int),
                vstart == old(self).mega_vertices@,
                self.bvh_roots@ == old(self).bvh_roots@.push(old(self).next_node()),
                self.mega_nodes@ == old(self).mega_nodes@ + Seq::new(
                    local_nodes@.len(),
                    |k: int| relocated(local_nodes@[k], old(self).next_triangle(), old(self).next_node()),
                ),
                self.vertex_count == old(self).vertex_count,
            decreases triangle_words@.len() - j,
        {
            self.mega_vertices.push(triangle_words[j]);
            proof {
                assert(triangle_words@.subrange(0, j + 1) =~= triangle_words@.subrange(0, j as int).push(
                    triangle_words@[j as int],
                ));
            }
            j = j + 1;
        }
        proof {
            assert(triangle_words@.subrange(0, triangle_words@.len() as int) =~= triangle_words@);
        }
        self.vertex_count = self.vertex_count + vertex_count;
    }
}


/// A node with no bounds yet (all coordinates 0.0) and no triangles.
pub open spec fn empty_node() -> BvhNode {
    BvhNode {
        aabb_min: Vec3Bits { x: 0, y: 0, z: 0 },
        left_first: 0,
        aabb_max: Vec3Bits { x: 0, y: 0, z: 0 },
        tri_count: 0,
    }
}

/// `n` pointing at `left_first` with `tri_count` triangles.
pub open spec fn with_span(n: BvhNode, left_first: int, tri_count: int) -> BvhNode {
    BvhNode { left_first: left_first as u32, tri_count: tri_count as u32, ..n }
}

/// Splitting node `idx`, which covers the `count` triangles from `first`,
/// when `used` nodes are taken: a node with more than two triangles gets
/// the next two free nodes as children, the first covering the first
/// `count / 2` triangles and the second the rest, and each child is split
/// in turn, the first before the second. Gives the nodes and the number
/// of nodes taken afterwards.
pub open spec fn split_spec(nodes: Seq<BvhNode>, idx: int, first: int, count: int, used: int) -> (Seq<BvhNode>, int)
    decreases count,
{
    if count <= 2 {
        (nodes, used)
    } else {
        let h = count / 2;
        let n1 = nodes.update(idx, with_span(nodes[idx], used, 0)).update(
            used,
            with_span(nodes[used], first, h),
        ).update(used + 1, with_span(nodes[used + 1], first + h, count - h));
        let r = split_spec(n1, used, first, h, used + 2);
        split_spec(r.0, used + 1, first + h, count - h, r.1)
    }
}

/// The nodes of the hierarchy over `n` triangles before their bounds are
/// computed: room for `2 * n` nodes, the root covering all triangles, the
/// root split, and the list cut to the nodes taken.
pub open spec fn bvh_layout(n: int) -> Seq<BvhNode> {
    let start = Seq::new((2 * n) as nat, |i: int| empty_node()).update(0, with_span(empty_node(), 0, n));
    let r = split_spec(start, 0, 0, n, 1);
    r.0.subrange(0, r.1)
}

/// Whether node `idx` of `nodes` roots a hierarchy over the `count`
/// triangles from `first` whose other nodes lie in `lo .. hi`: a node with
/// at most two triangles is a leaf that names them; any other node has no
/// triangles of its own and points at two children stored one after the
/// other, the first covering the first half (`count / 2`) of its triangles
/// and the second the rest, with their own descendants stored after both.
pub open spec fn is_subtree(nodes: Seq<BvhNode>, idx: int, first: int, count: int, lo: int, hi: int) -> bool
    decreases count,
{
    &&& 0 <= idx < nodes.len()
    &&& if count <= 2 {
        nodes[idx].left_first == first && nodes[idx].tri_count == count
    } else {
        let c = nodes[idx].left_first as int;
        &&& nodes[idx].tri_count == 0
        &&& lo <= c
        &&& c + 1 < hi
        &&& hi <= nodes.len()
        &&& is_subtree(nodes, c, first, count / 2, c + 2, hi)
        &&& is_subtree(nodes, c + 1, first + count / 2, count - count / 2, c + 2, hi)
    }
}

proof fn lemma_split_frame(nodes: Seq<BvhNode>, idx: int, first: int, count: int, used: int)
    requires
        count >= 1,
        0 <= idx < used,
        used + 2 * count - 2 <= nodes.len(),
    ensures
        split_spec(nodes, idx, first, count, used).0.len() == nodes.len(),
        used <= split_spec(nodes, idx, first, count, used).1 <= used + 2 * count - 2,
        forall|k: int|
            0 <= k < nodes.len() && k != idx && (k < used || k >= split_spec(
                nodes,
                idx,
                first,
                count,
                used,
            ).1) ==> #[trigger] split_spec(nodes, idx, first, count, used).0[k] == nodes[k],
        count > 2 ==> split_spec(nodes, idx, first, count, used).0[idx] == with_span(
            nodes[idx],
            used,
            0,
        ),
        count <= 2 ==> split_spec(nodes, idx, first, count, used).0 == nodes,
    decreases count,
{
    if count > 2 {
        let h = count / 2;
        let n1 = nodes.update(idx, with_span(nodes[idx], used, 0)).update(
            used,
            with_span(nodes[used], first, h),
        ).update(used + 1, with_span(nodes[used + 1], first + h, count - h));
        lemma_split_frame(n1, used, first, h, used + 2);
        let r = split_spec(n1, used, first, h, used + 2);
        lemma_split_frame(r.0, used + 1, first + h, count - h, r.1);
    }
}

proof fn lemma_subtree_frame(
    a: Seq<BvhNode>,
    b: Seq<BvhNode>,
    idx: int,
    first: int,
    count: int,
    lo: int,
    hi: int,
)
    requires
        is_subtree(a, idx, first, count, lo, hi),
        idx < b.len(),
        b[idx] == a[idx],
        count > 2 ==> hi <= b.len(),
        forall|k: int| lo <= k < hi ==> #[trigger] b[k] == a[k],
    ensures
        is_subtree(b, idx, first, count, lo, hi),
    decreases count,
{
    if count > 2 {
        let c = a[idx].left_first as int;
        lemma_subtree_frame(a, b, c, first, count / 2, c + 2, hi);
        lemma_subtree_frame(a, b, c + 1, first + count / 2, count - count / 2, c + 2, hi);
    }
}

proof fn lemma_subtree_widen(a: Seq<BvhNode>, idx: int, first: int, count: int, lo: int, hi: int, lo2: int, hi2: int)
    requires
        is_subtree(a, idx, first, count, lo, hi),
        lo2 <= lo,
        hi <= hi2 <= a.len(),
    ensures
        is_subtree(a, idx, first, count, lo2, hi2),
    decreases count,
{
    if count > 2 {
        let c = a[idx].left_first as int;
        lemma_subtree_widen(a, c, first, count / 2, c + 2, hi, c + 2, hi2);
        lemma_subtree_widen(a, c + 1, first + count / 2, count - count / 2, c + 2, hi, c + 2, hi2);
    }
}

proof fn lemma_split_subtree(nodes: Seq<BvhNode>, idx: int, first: int, count: int, used: int)
    requires
        count >= 1,
        0 <= idx < used,
        used + 2 * count - 2 <= nodes.len(),
        nodes.len() <= u32::MAX,
        0 <= first,
        first + count <= u32::MAX,
        nodes[idx].left_first == first,
        nodes[idx].tri_count == count,
    ensures
        is_subtree(
            split_spec(nodes, idx, first, count, used).0,
            idx,
            first,
            count,
            used,
            split_spec(nodes, idx, first, count, used).1,
        ),
    decreases count,
{
    lemma_split_frame(nodes, idx, first, count, used);
    if count > 2 {
        let h = count / 2;
        let n1 = nodes.update(idx, with_span(nodes[idx], used, 0)).update(
            used,
            with_span(nodes[used], first, h),
        ).update(used + 1, with_span(nodes[used + 1], first + h, count - h));
        lemma_split_frame(n1, used, first, h, used + 2);
        lemma_split_subtree(n1, used, first, h, used + 2);
        let r1 = split_spec(n1, used, first, h, used + 2);
        let n2 = r1.0;
        let u1 = r1.1;
        assert(n2[used + 1] == n1[used + 1]);
        lemma_split_frame(n2, used + 1, first + h, count - h, u1);
        lemma_split_subtree(n2, used + 1, first + h, count - h, u1);
        let r2 = split_spec(n2, used + 1, first + h, count - h, u1);
        let ns = r2.0;
        let u2 = r2.1;
        assert(ns == split_spec(nodes, idx, first, count, used).0);
        assert forall|k: int| used + 2 <= k < u1 implies #[trigger] ns[k] == n2[k] by {}
        assert(ns[used] == n2[used]);
        lemma_subtree_frame(n2, ns, used, first, h, used + 2, u1);
        lemma_subtree_widen(ns, used, first, h, used + 2, u1, used + 2, u2);
        lemma_subtree_widen(ns, used + 1, first + h, count - h, u1, u2, used + 2, u2);
        assert(ns[idx] == with_span(nodes[idx], used, 0));
    }
}

/// The nodes that `layout_bvh_nodes(n)` gives form a hierarchy over the
/// triangles `0 .. n` rooted at node 0, with at most `2 * n - 1` nodes.
pub proof fn lemma_layout_is_hierarchy(n: int)
    requires
        1 <= n,
        2 * n <= u32::MAX,
    ensures
        is_subtree(bvh_layout(n), 0, 0, n, 1, bvh_layout(n).len() as int),
        1 <= bvh_layout(n).len() <= 2 * n - 1,
{
    let start = Seq::new((2 * n) as nat, |i: int| empty_node()).update(0, with_span(empty_node(), 0, n));
    lemma_split_frame(start, 0, 0, n, 1);
    lemma_split_subtree(start, 0, 0, n, 1);
    let r = split_spec(start, 0, 0, n, 1);
    let out = r.0.subrange(0, r.1);
    assert(out == bvh_layout(n));
    assert forall|k: int| 1 <= k < r.1 implies #[trigger] out[k] == r.0[k] by {}
    lemma_subtree_frame(r.0, out, 0, 0, n, 1, r.1);
}

fn subdivide(
    node_idx: usize,
    nodes: &mut Vec<BvhNode>,
    nodes_used: &mut usize,
    Ghost(first): Ghost<int>,
    Ghost(count): Ghost<int>,
)
    requires
        count >= 1,
        node_idx < *old(nodes_used),
        *old(nodes_used) + 2 * count - 2 <= old(nodes)@.len(),
        old(nodes)@.len() <= u32::MAX,
        0 <= first,
        first + count <= u32::MAX,
        old(nodes)@[node_idx as int].left_first == first,
        old(nodes)@[node_idx as int].tri_count == count,
    ensures
        final(nodes)@ == split_spec(old(nodes)@, node_idx as int, first, count, *old(nodes_used) as int).0,
        *final(nodes_used) == split_spec(old(nodes)@, node_idx as int, first, count, *old(nodes_used) as int).1,
    decreases count,
{
    proof {
        lemma_split_frame(nodes@, node_idx as int, first, count, *nodes_used as int);
    }
    let node = nodes[node_idx];
    if node.tri_count <= 2 {
        return;
    }
    let first_tri = node.left_first as usize;
    let tri_count = node.tri_count as usize;
    let mid = first_tri + tri_count / 2;
    let left_count = mid - first_tri;
    let right_count = tri_count - left_count;
    let left_child_idx = *nodes_used;
    *nodes_used = *nodes_used + 2;
    let mut parent = nodes[node_idx];
    parent.left_first = left_child_idx as u32;
    parent.tri_count = 0;
    nodes.set(node_idx, parent);
    let mut left = nodes[left_child_idx];
    left.left_first = first_tri as u32;
    left.tri_count = left_count as u32;
    nodes.set(left_child_idx, left);
    let mut right = nodes[left_child_idx + 1];
    right.left_first = mid as u32;
    right.tri_count = right_count as u32;
    nodes.set(left_child_idx + 1, right);
    let ghost n1 = nodes@;
    proof {
        assert(n1 =~= old(nodes)@.update(
            node_idx as int,
            with_span(old(nodes)@[node_idx as int], left_child_idx as int, 0),
        ).update(
            left_child_idx as int,
            with_span(old(nodes)@[left_child_idx as int], first, count / 2),
        ).update(
            left_child_idx + 1,
            with_span(old(nodes)@[left_child_idx + 1], first + count / 2, count - count / 2),
        ));
        lemma_split_frame(n1, left_child_idx as int, first, count / 2, left_child_idx + 2);
    }
    subdivide(left_child_idx, nodes, nodes_used, Ghost(first), Ghost(count / 2));
    subdivide(
        left_child_idx + 1,
        nodes,
        nodes_used,
        Ghost(first + count / 2),
        Ghost(count - count / 2),
    );
}

/// The nodes of the hierarchy over `num_tris` triangles before their
/// bounds are computed (see `lemma_layout_is_hierarchy`): the part of a
/// mesh's hierarchy that the triangles' coordinates do not decide. The
/// bounds of each node, and the order of the triangles in the range that
/// each inner node splits, are left to the caller.
pub fn layout_bvh_nodes(num_tris: usize) -> (r: Vec<BvhNode>)
    requires
        1 <= num_tris,
        2 * num_tris <= u32::MAX,
    ensures
        r@ == bvh_layout(num_tris as int),
{
    let zero = BvhNode {
        aabb_min: Vec3Bits { x: 0, y: 0, z: 0 },
        left_first: 0,
        aabb_max: Vec3Bits { x: 0, y: 0, z: 0 },
        tri_count: 0,
    };
    let total = 2 * num_tris;
    let mut nodes: Vec<BvhNode> = Vec::new();
    let mut i: usize = 0;
    while i < total
        invariant
            i <= total,
            total == 2 * num_tris,
            zero == empty_node(),
            nodes@ == Seq::new(i as nat, |k: int| empty_node()),
        decreases total - i,
    {
        nodes.push(zero);
        proof {
            assert(nodes@ =~= Seq::new((i + 1) as nat, |k: int| empty_node()));
        }
        i = i + 1;
    }
    let mut root = zero;
    root.tri_count = num_tris as u32;
    nodes.set(0, root);
    let mut nodes_used: usize = 1;
    proof {
        assert(nodes@ =~= Seq::new((2 * num_tris) as nat, |k: int| empty_node()).update(
            0,
            with_span(empty_node(), 0, num_tris as int),
        ));
    }
    subdivide(0, &mut nodes, &mut nodes_used, Ghost(0), Ghost(num_tris as int));
    proof {
        lemma_split_frame(
            Seq::new((2 * num_tris) as nat, |k: int| empty_node()).update(
                0,
                with_span(empty_node(), 0, num_tris as int),
            ),
            0,
            0,
            num_tris as int,
            1,
        );
    }
    nodes.truncate(nodes_used);
    nodes
}


proof fn lemma_relocated_subtree(
    before: Seq<BvhNode>,
    local: Seq<BvhNode>,
    tri_offset: u32,
    idx: int,
    first: int,
    count: int,
    lo: int,
    hi: int,
)
    requires
        is_subtree(local, idx, first, count, lo, hi),
        count >= 1,
        relocation_fits(local, tri_offset, before.len() as u32),
        before.len() <= u32::MAX,
    ensures
        is_subtree(
            merged_nodes(before, local, tri_offset, before.len() as u32),
            before.len() + idx,
            tri_offset + first,
            count,
            before.len() + lo,
            before.len() + hi,
        ),
    decreases count,
{
    let off = before.len() as u32;
    let m = merged_nodes(before, local, tri_offset, off);
    let nd = local[idx];
    assert(m[before.len() + idx] == relocated(nd, tri_offset, off));
    if nd.tri_count > 0 {
        assert(nd.left_first + tri_offset <= u32::MAX);
        assert(m[before.len() + idx].left_first == nd.left_first + tri_offset);
    } else {
        assert(nd.left_first + off <= u32::MAX);
        assert(m[before.len() + idx].left_first == nd.left_first + off);
    }
    assert(m[before.len() + idx].tri_count == nd.tri_count);
    assert(m.len() == before.len() + local.len());
    if count > 2 {
        let c = local[idx].left_first as int;
        lemma_relocated_subtree(before, local, tri_offset, c, first, count / 2, c + 2, hi);
        lemma_relocated_subtree(
            before,
            local,
            tri_offset,
            c + 1,
            first + count / 2,
            count - count / 2,
            c + 2,
            hi,
        );
    }
}

/// Moving a mesh's hierarchy behind the nodes merged before keeps it a
/// hierarchy: its root, at the first new node, covers the mesh's
/// triangles at their new place behind the triangles merged before.
pub proof fn lemma_merged_hierarchy(before: Seq<BvhNode>, local: Seq<BvhNode>, n: int, tri_offset: u32)
    requires
        is_subtree(local, 0, 0, n, 1, local.len() as int),
        n >= 1,
        relocation_fits(local, tri_offset, before.len() as u32),
        before.len() <= u32::MAX,
    ensures
        is_subtree(
            merged_nodes(before, local, tri_offset, before.len() as u32),
            before.len() as int,
            tri_offset as int,
            n,
            before.len() + 1int,
            before.len() + local.len() as int,
        ),
{
    lemma_relocated_subtree(before, local, tri_offset, 0, 0, n, 1, local.len() as int);
}


/// The triangles under node `i` of `nodes`, as (first, count): a leaf
/// names them; an inner node covers those of its two children, which come
/// after it. A node whose children do not come after it is given none.
pub open spec fn node_span(nodes: Seq<BvhNode>, i: int) -> (int, int)
    decreases nodes.len() - i,
{
    if i < 0 || i >= nodes.len() {
        (0, 0)
    } else if nodes[i].tri_count > 0 {
        (nodes[i].left_first as int, nodes[i].tri_count as int)
    } else {
        let c = nodes[i].left_first as int;
        if c <= i || c + 1 >= nodes.len() {
            (0, 0)
        } else {
            (node_span(nodes, c).0, node_span(nodes, c).1 + node_span(nodes, c + 1).1)
        }
    }
}

/// Whether the two children of every inner node of `nodes` come after it.
pub open spec fn children_follow(nodes: Seq<BvhNode>) -> bool {
    forall|i: int|
        0 <= i < nodes.len() && (#[trigger] nodes[i]).tri_count == 0 ==> i < nodes[i].left_first
            && nodes[i].left_first + 1 < nodes.len()
}

/// The span of every node of `nodes` (see `node_span`), worked out from
/// the last node to the first; `None` where the children of an inner node
/// do not come after it, or a node's count passes `u32::MAX`.
pub fn node_spans(nodes: &Vec<BvhNode>) -> (r: Option<Vec<(u32, u32)>>)
    ensures
        r is Some <==> children_follow(nodes@) && forall|i: int|
            0 <= i < nodes@.len() ==> (#[trigger] node_span(nodes@, i)).1 <= u32::MAX,
        r matches Some(s) ==> s@.len() == nodes@.len() && forall|i: int|
            0 <= i < nodes@.len() ==> s@[i] == (
                (#[trigger] node_span(nodes@, i)).0 as u32,
                node_span(nodes@, i).1 as u32,
            ),
{
    let n = nodes.len();
    let mut spans: Vec<(u32, u32)> = Vec::new();
    let mut k: usize = 0;
    while k < n
        invariant
            k <= n,
            spans@.len() == k,
        decreases n - k,
    {
        spans.push((0, 0));
        k = k + 1;
    }
    let mut idx: usize = n;
    while idx > 0
        invariant
            idx <= n,
            n == nodes@.len(),
            spans@.len() == n,
            forall|j: int|
                idx <= j < n ==> 0 <= (#[trigger] node_span(nodes@, j)).0 <= u32::MAX && node_span(nodes@, j).1
                    <= u32::MAX && 0 <= node_span(nodes@, j).1 && spans@[j] == (
                    node_span(nodes@, j).0 as u32,
                    node_span(nodes@, j).1 as u32,
                ),
            forall|j: int|
                idx <= j < n && (#[trigger] nodes@[j]).tri_count == 0 ==> j < nodes@[j].left_first
                    && nodes@[j].left_first + 1 < n,
        decreases idx,
    {
        idx = idx - 1;
        let node = nodes[idx];
        let ghost i = idx as int;
        if node.tri_count > 0 {
            spans.set(idx, (node.left_first, node.tri_count));
            proof {
                assert(node_span(nodes@, i) == (node.left_first as int, node.tri_count as int));
            }
        } else {
            let c = node.left_first as usize;
            if c <= idx || c >= n - 1 {
                proof {
                    assert(nodes@[i].tri_count == 0);
                }
                return None;
            }
            let a = spans[c];
            let b = spans[c + 1];
            proof {
                assert(node_span(nodes@, c as int).1 <= u32::MAX);
                assert(node_span(nodes@, c + 1).1 <= u32::MAX);
                assert(node_span(nodes@, i) == (
                    node_span(nodes@, c as int).0,
                    node_span(nodes@, c as int).1 + node_span(nodes@, c + 1).1,
                ));
            }
            let sum: u64 = a.1 as u64 + b.1 as u64;
            if sum > 0xffff_ffffu64 {
                proof {
                    assert(node_span(nodes@, i).1 > u32::MAX);
                }
                return None;
            }
            spans.set(idx, (a.0, sum as u32));
        }
    }
    Some(spans)
}


proof fn lemma_subtree_span(nodes: Seq<BvhNode>, idx: int, first: int, count: int, lo: int, hi: int)
    requires
        is_subtree(nodes, idx, first, count, lo, hi),
        idx < lo,
        1 <= count,
    ensures
        node_span(nodes, idx) == (first, count),
    decreases count,
{
    if count > 2 {
        let c = nodes[idx].left_first as int;
        lemma_subtree_span(nodes, c, first, count / 2, c + 2, hi);
        lemma_subtree_span(nodes, c + 1, first + count / 2, count - count / 2, c + 2, hi);
    }
}

/// The root of the hierarchy that `layout_bvh_nodes(n)` lays out covers
/// all `n` triangles, from the first.
pub proof fn lemma_layout_root_span(n: int)
    requires
        1 <= n,
        2 * n <= u32::MAX,
    ensures
        node_span(bvh_layout(n), 0) == (0int, n),
{
    lemma_layout_is_hierarchy(n);
    lemma_subtree_span(bvh_layout(n), 0, 0, n, 1, bvh_layout(n).len() as int);
}

} // verus!
