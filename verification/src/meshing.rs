//! Face-culled mesh building: for every non-transparent voxel of a chunk,
//! each of its six faces becomes one quad (4 vertices, 6 indices, 4 packed
//! visual words) exactly when the adjacent position is transparent —
//! consulting resolved neighbor views across chunk borders, with a missing
//! neighbor counting as transparent.
//!
//! Vertex positions are in half-voxel units (see `face`): corner `j` of
//! the cell at local position `p` sits at `2*p + offset(face, j)`.

use vstd::prelude::*;
use crate::pos::Vec3i;
use crate::voxel::{VoxelType, spec_face_index};
use crate::voxel_map::{in_chunk, in_chunk_pos, CHUNK_SIZE_CUBED};
use crate::chunk::{Chunk, spec_transparent_at};
use crate::face::{
    VoxelFace, spec_normal, spec_face_of_index, spec_color_intensity, spec_uv,
    spec_quad_index_offset, spec_vertex_offset, quad_index_offset, uv_corner,
};

verus! {

/// The local x coordinate of the cell with storage index `i`.
pub open spec fn cell_x(i: int) -> int {
    (i / 1024) % 32
}

/// The local y coordinate of the cell with storage index `i`.
pub open spec fn cell_y(i: int) -> int {
    i % 32
}

/// The local z coordinate of the cell with storage index `i`.
pub open spec fn cell_z(i: int) -> int {
    (i / 32) % 32
}

/// Whether the mesh of chunk `c` shows face `d` of the cell at local
/// position `(x, y, z)`: the cell is solid and the position one step
/// outward is transparent.
pub open spec fn face_visible(c: Chunk, x: int, y: int, z: int, d: int) -> bool {
    let n = spec_normal(spec_face_of_index(d));
    &&& !(c.voxels.at(x, y, z) is Air)
    &&& spec_transparent_at(c, x + n.x, y + n.y, z + n.z)
}

/// The quads emitted for the cell with storage index `i`, among its first
/// `f` faces in face order.
pub open spec fn cell_quads_upto(c: Chunk, i: int, f: int) -> Seq<(Vec3i, VoxelFace)>
    decreases f,
{
    if f <= 0 {
        Seq::empty()
    } else {
        cell_quads_upto(c, i, f - 1) + if face_visible(c, cell_x(i), cell_y(i), cell_z(i), f - 1) {
            seq![
                (
                    Vec3i { x: cell_x(i) as i32, y: cell_y(i) as i32, z: cell_z(i) as i32 },
                    spec_face_of_index(f - 1),
                ),
            ]
        } else {
            Seq::empty()
        }
    }
}

/// The quads emitted for the first `i` cells in scan order.
pub open spec fn quads_upto(c: Chunk, i: int) -> Seq<(Vec3i, VoxelFace)>
    decreases i,
{
    if i <= 0 {
        Seq::empty()
    } else {
        quads_upto(c, i - 1) + cell_quads_upto(c, i - 1, 6)
    }
}

/// Every quad of the chunk's mesh, in scan order.
pub open spec fn mesh_quads(c: Chunk) -> Seq<(Vec3i, VoxelFace)> {
    quads_upto(c, 32768)
}

/// Vertex `j` of a quad, in half-voxel units.
pub open spec fn quad_vertex(q: (Vec3i, VoxelFace), j: int) -> Vec3i {
    let off = spec_vertex_offset(q.1, j);
    Vec3i {
        x: (2 * q.0.x + off.x) as i32,
        y: (2 * q.0.y + off.y) as i32,
        z: (2 * q.0.z + off.z) as i32,
    }
}

/// The packed visual word of vertex `j` of a face of a voxel: texture
/// index in the high field, then the face's color intensity, then the UV
/// corner selector.
pub open spec fn vertex_data_word(vt: VoxelType, face: VoxelFace, j: int) -> u32 {
    let fi = spec_face_index(vt, face);
    let ci = spec_color_intensity(face);
    let uv = spec_uv(j);
    (64 * fi + 4 * ci + 2 * uv.0 + uv.1) as u32
}

/// The vertex positions of a quad sequence, four per quad.
pub open spec fn positions_of(qs: Seq<(Vec3i, VoxelFace)>) -> Seq<Vec3i>
    decreases qs.len(),
{
    if qs.len() == 0 {
        Seq::empty()
    } else {
        positions_of(qs.drop_last()) + Seq::new(4, |j: int| quad_vertex(qs.last(), j))
    }
}

/// The packed visual words of a quad sequence, four per quad; the voxel
/// type of each quad is read from the chunk.
pub open spec fn data_of(c: Chunk, qs: Seq<(Vec3i, VoxelFace)>) -> Seq<u32>
    decreases qs.len(),
{
    if qs.len() == 0 {
        Seq::empty()
    } else {
        data_of(c, qs.drop_last()) + Seq::new(
            4,
            |j: int| vertex_data_word(c.voxels.at_pos(qs.last().0), qs.last().1, j),
        )
    }
}

/// The triangle indices of a quad sequence, six per quad in the fixed
/// winding pattern, each offset by the quad's vertex base.
pub open spec fn indices_of(qs: Seq<(Vec3i, VoxelFace)>) -> Seq<u32>
    decreases qs.len(),
{
    if qs.len() == 0 {
        Seq::empty()
    } else {
        indices_of(qs.drop_last()) + Seq::new(
            6,
            |j: int| (4 * (qs.len() - 1) + spec_quad_index_offset(j)) as u32,
        )
    }
}

/// Each quad contributes four vertices, four words and six indices.
pub proof fn lemma_flat_lens(c: Chunk, qs: Seq<(Vec3i, VoxelFace)>)
    ensures
        positions_of(qs).len() == 4 * qs.len(),
        data_of(c, qs).len() == 4 * qs.len(),
        indices_of(qs).len() == 6 * qs.len(),
    decreases qs.len(),
{
    if qs.len() > 0 {
        lemma_flat_lens(c, qs.drop_last());
    }
}

/// Appending one quad appends its four vertices, four words and six
/// indices.
proof fn lemma_flat_push(c: Chunk, qs: Seq<(Vec3i, VoxelFace)>, q: (Vec3i, VoxelFace))
    ensures
        positions_of(qs.push(q)) == positions_of(qs) + Seq::new(4, |j: int| quad_vertex(q, j)),
        data_of(c, qs.push(q)) == data_of(c, qs) + Seq::new(
            4,
            |j: int| vertex_data_word(c.voxels.at_pos(q.0), q.1, j),
        ),
        indices_of(qs.push(q)) == indices_of(qs) + Seq::new(
            6,
            |j: int| (4 * qs.len() + spec_quad_index_offset(j)) as u32,
        ),
{
    assert(qs.push(q).drop_last() =~= qs);
    assert(qs.push(q).last() == q);
}

/// At most one quad per face is emitted for a cell.
proof fn lemma_cell_quads_len(c: Chunk, i: int, f: int)
    requires
        f >= 0,
    ensures
        cell_quads_upto(c, i, f).len() <= f,
    decreases f,
{
    if f > 0 {
        lemma_cell_quads_len(c, i, f - 1);
    }
}

/// At most six quads per cell are emitted.
proof fn lemma_quads_upto_len(c: Chunk, i: int)
    requires
        i >= 0,
    ensures
        quads_upto(c, i).len() <= 6 * i,
    decreases i,
{
    if i > 0 {
        lemma_quads_upto_len(c, i - 1);
        lemma_cell_quads_len(c, i - 1, 6);
    }
}

/// Mesh building is idempotent: any two rebuilds from an unchanged chunk
/// and unchanged neighbor set — that is, any two results meeting the
/// contract of `generate_chunk_mesh` for the same chunk — carry identical
/// vertex, index and visual-data sequences.
pub proof fn lemma_mesh_rebuild_identical(c: Chunk, m1: MeshData, m2: MeshData)
    requires
        m1.positions@ == positions_of(mesh_quads(c)),
        m1.data@ == data_of(c, mesh_quads(c)),
        m1.indices@ == indices_of(mesh_quads(c)),
        m2.positions@ == positions_of(mesh_quads(c)),
        m2.data@ == data_of(c, mesh_quads(c)),
        m2.indices@ == indices_of(mesh_quads(c)),
    ensures
        m1.positions@ == m2.positions@,
        m1.data@ == m2.data@,
        m1.indices@ == m2.indices@,
{
}

/// Every cell of the grid is air (positions outside the cube read as air
/// by definition).
pub open spec fn all_air(m: crate::voxel_map::VoxelMap) -> bool {
    forall|x: int, y: int, z: int| #[trigger] m.at(x, y, z) is Air
}

/// Two neighbor slots that the transparency field cannot tell apart: both
/// absent, both holding the same cells, or one absent and the other
/// entirely air.
pub open spec fn slot_like_air(
    a: Option<crate::voxel_map::VoxelMap>,
    b: Option<crate::voxel_map::VoxelMap>,
) -> bool {
    match (a, b) {
        (Option::None, Option::None) => true,
        (Option::Some(x), Option::Some(y)) => x.data@ == y.data@,
        (Option::None, Option::Some(y)) => all_air(y),
        (Option::Some(x), Option::None) => all_air(x),
    }
}

/// Two chunks with the same cells whose neighbor slots differ only as
/// "absent" versus "present and all air" have the same transparency field:
/// the default for a missing neighbor matches a transparent one.
pub proof fn lemma_transparency_agrees(c1: Chunk, c2: Chunk)
    requires
        c1.voxels.data@ == c2.voxels.data@,
        forall|d: int|
            0 <= d < 6 ==> slot_like_air(
                #[trigger] c1.neighbors.slot(d),
                c2.neighbors.slot(d),
            ),
    ensures
        forall|x: int, y: int, z: int|
            #[trigger] spec_transparent_at(c1, x, y, z) == spec_transparent_at(c2, x, y, z),
{
    assert forall|x: int, y: int, z: int|
        #[trigger] spec_transparent_at(c1, x, y, z) == spec_transparent_at(c2, x, y, z) by {
        if !in_chunk(x, y, z) {
            let d = crate::chunk::spec_face_dir(
                crate::chunk::spec_wrap(x),
                crate::chunk::spec_wrap(y),
                crate::chunk::spec_wrap(z),
            );
            if d != -1 {
                assert(slot_like_air(c1.neighbors.slot(d), c2.neighbors.slot(d)));
            }
        }
    }
}

/// The quads of one cell agree between two chunks whose cells and
/// transparency fields agree.
proof fn lemma_cell_quads_agree(c1: Chunk, c2: Chunk, i: int, f: int)
    requires
        c1.voxels.data@ == c2.voxels.data@,
        forall|x: int, y: int, z: int|
            #[trigger] spec_transparent_at(c1, x, y, z) == spec_transparent_at(c2, x, y, z),
    ensures
        cell_quads_upto(c1, i, f) == cell_quads_upto(c2, i, f),
    decreases f,
{
    if f > 0 {
        lemma_cell_quads_agree(c1, c2, i, f - 1);
    }
}

/// The quad sequences agree between two chunks whose cells and
/// transparency fields agree.
proof fn lemma_quads_agree(c1: Chunk, c2: Chunk, i: int)
    requires
        c1.voxels.data@ == c2.voxels.data@,
        forall|x: int, y: int, z: int|
            #[trigger] spec_transparent_at(c1, x, y, z) == spec_transparent_at(c2, x, y, z),
    ensures
        quads_upto(c1, i) == quads_upto(c2, i),
    decreases i,
{
    if i > 0 {
        lemma_quads_agree(c1, c2, i - 1);
        lemma_cell_quads_agree(c1, c2, i - 1, 6);
    }
}

/// The visual words agree between two chunks with the same cells, over any
/// one quad sequence.
proof fn lemma_data_agrees(c1: Chunk, c2: Chunk, qs: Seq<(Vec3i, VoxelFace)>)
    requires
        c1.voxels.data@ == c2.voxels.data@,
    ensures
        data_of(c1, qs) == data_of(c2, qs),
    decreases qs.len(),
{
    if qs.len() > 0 {
        lemma_data_agrees(c1, c2, qs.drop_last());
        assert(data_of(c1, qs) =~= data_of(c2, qs));
    }
}

/// Meshing a chunk with a neighbor absent emits exactly the faces that
/// meshing it with that neighbor present and entirely air emits: the
/// "missing neighbor is transparent" default shows the same boundary
/// faces as a resident all-air neighbor.
pub proof fn lemma_missing_neighbor_matches_air(c1: Chunk, c2: Chunk)
    requires
        c1.voxels.data@ == c2.voxels.data@,
        forall|d: int|
            0 <= d < 6 ==> slot_like_air(
                #[trigger] c1.neighbors.slot(d),
                c2.neighbors.slot(d),
            ),
    ensures
        mesh_quads(c1) == mesh_quads(c2),
        positions_of(mesh_quads(c1)) == positions_of(mesh_quads(c2)),
        data_of(c1, mesh_quads(c1)) == data_of(c2, mesh_quads(c2)),
        indices_of(mesh_quads(c1)) == indices_of(mesh_quads(c2)),
{
    lemma_transparency_agrees(c1, c2);
    lemma_quads_agree(c1, c2, 32768);
    lemma_data_agrees(c1, c2, mesh_quads(c1));
}

/// The vertex/index/visual buffers of one chunk's rebuilt mesh.
#[derive(Debug, Clone)]
pub struct MeshData {
    pub indices: Vec<u32>,
    pub positions: Vec<Vec3i>,
    pub data: Vec<u32>,
}

impl MeshData {
    /// Empty buffers.
    pub fn new() -> (r: MeshData)
        ensures
            r.indices@ == Seq::<u32>::empty(),
            r.positions@ == Seq::<Vec3i>::empty(),
            r.data@ == Seq::<u32>::empty(),
    {
        MeshData { indices: Vec::new(), positions: Vec::new(), data: Vec::new() }
    }
}

/// Append one quad for face `face` of the voxel of type `voxel_type` at
/// local position `position`: six indices over the existing vertex count,
/// then four vertices with their packed visual words.
pub fn add_face(mesh_data: &mut MeshData, voxel_type: VoxelType, position: Vec3i, face: VoxelFace)
    requires
        in_chunk_pos(position),
        old(mesh_data).positions.len() + 4 <= 0xffff_fffb,
    ensures
        final(mesh_data).positions@ == old(mesh_data).positions@ + Seq::new(
            4,
            |j: int| quad_vertex((position, face), j),
        ),
        final(mesh_data).data@ == old(mesh_data).data@ + Seq::new(
            4,
            |j: int| vertex_data_word(voxel_type, face, j),
        ),
        final(mesh_data).indices@ == old(mesh_data).indices@ + Seq::new(
            6,
            |j: int| (old(mesh_data).positions@.len() + spec_quad_index_offset(j)) as u32,
        ),
{
    let indices_offset = mesh_data.positions.len() as u32;
    let face_index = voxel_type.get_face_index(face);
    let face_color_intensity = face.color_intensity();

    let mut i: usize = 0;
    while i < 6
        invariant
            i <= 6,
            indices_offset == old(mesh_data).positions@.len(),
            mesh_data.positions == old(mesh_data).positions,
            mesh_data.data == old(mesh_data).data,
            indices_offset + 4 <= 0xffff_ffff,
            mesh_data.indices@ == old(mesh_data).indices@ + Seq::new(
                i as nat,
                |j: int| (indices_offset + spec_quad_index_offset(j)) as u32,
            ),
        decreases 6 - i,
    {
        let off = quad_index_offset(i);
        mesh_data.indices.push(indices_offset + off);
        proof {
            assert(mesh_data.indices@ =~= old(mesh_data).indices@ + Seq::new(
                (i + 1) as nat,
                |j: int| (indices_offset + spec_quad_index_offset(j)) as u32,
            ));
        }
        i += 1;
    }

    let mut i: usize = 0;
    while i < 4
        invariant
            i <= 4,
            in_chunk_pos(position),
            indices_offset == old(mesh_data).positions@.len(),
            mesh_data.indices@ == old(mesh_data).indices@ + Seq::new(
                6,
                |j: int| (indices_offset + spec_quad_index_offset(j)) as u32,
            ),
            old(mesh_data).positions@.len() + 4 <= 0xffff_fffb,
            face_index == spec_face_index(voxel_type, face),
            face_color_intensity == spec_color_intensity(face),
            mesh_data.positions@ == old(mesh_data).positions@ + Seq::new(
                i as nat,
                |j: int| quad_vertex((position, face), j),
            ),
            mesh_data.data@ == old(mesh_data).data@ + Seq::new(
                i as nat,
                |j: int| vertex_data_word(voxel_type, face, j),
            ),
        decreases 4 - i,
    {
        let off = face.vertex_offset(i);
        let vertex = Vec3i {
            x: 2 * position.x + off.x,
            y: 2 * position.y + off.y,
            z: 2 * position.z + off.z,
        };
        mesh_data.positions.push(vertex);

        let uv = uv_corner(i);
        let word = (face_index << 6) | (face_color_intensity << 2) | (uv.0 << 1) | uv.1;
        proof {
            let fi = face_index;
            let ci = face_color_intensity;
            let u = uv.0;
            let v = uv.1;
            assert((fi << 6) | (ci << 2) | (u << 1) | v == 64 * fi + 4 * ci + 2 * u + v)
                by (bit_vector)
                requires
                    fi < 4u32,
                    ci < 8u32,
                    u < 2u32,
                    v < 2u32,
            ;
        }
        mesh_data.data.push(word);
        proof {
            assert(mesh_data.positions@ =~= old(mesh_data).positions@ + Seq::new(
                (i + 1) as nat,
                |j: int| quad_vertex((position, face), j),
            ));
            assert(mesh_data.data@ =~= old(mesh_data).data@ + Seq::new(
                (i + 1) as nat,
                |j: int| vertex_data_word(voxel_type, face, j),
            ));
        }
        i += 1;
    }
    proof {
        assert(mesh_data.positions@ =~= old(mesh_data).positions@ + Seq::new(
            4,
            |j: int| quad_vertex((position, face), j),
        ));
        assert(mesh_data.data@ =~= old(mesh_data).data@ + Seq::new(
            4,
            |j: int| vertex_data_word(voxel_type, face, j),
        ));
        assert(mesh_data.indices@ =~= old(mesh_data).indices@ + Seq::new(
            6,
            |j: int| (old(mesh_data).positions@.len() + spec_quad_index_offset(j)) as u32,
        ));
    }
}

/// Build the mesh of a chunk against its resolved neighbor views: exactly
/// the quads of `mesh_quads`, in scan order. Rebuilding from an unchanged
/// chunk and unchanged neighbor set yields identical buffers, since each
/// buffer is a function of the chunk value alone.
pub fn generate_chunk_mesh(chunk: &Chunk) -> (r: MeshData)
    requires
        chunk.wf(),
    ensures
        r.positions@ == positions_of(mesh_quads(*chunk)),
        r.data@ == data_of(*chunk, mesh_quads(*chunk)),
        r.indices@ == indices_of(mesh_quads(*chunk)),
{
    let mut mesh_data = MeshData::new();
    let mut idx: usize = 0;
    while idx < CHUNK_SIZE_CUBED
        invariant
            idx <= 32768,
            chunk.wf(),
            mesh_data.positions@ == positions_of(quads_upto(*chunk, idx as int)),
            mesh_data.data@ == data_of(*chunk, quads_upto(*chunk, idx as int)),
            mesh_data.indices@ == indices_of(quads_upto(*chunk, idx as int)),
        decreases 32768 - idx,
    {
        let position = unflatten_cell(idx);
        let voxel_type = chunk.get_voxel(position);

        let ghost base_quads = quads_upto(*chunk, idx as int);
        proof {
            lemma_quads_upto_len(*chunk, idx as int);
        }

        let mut f: usize = 0;
        while f < 6
            invariant
                f <= 6,
                idx < 32768,
                chunk.wf(),
                position.x == cell_x(idx as int),
                position.y == cell_y(idx as int),
                position.z == cell_z(idx as int),
                in_chunk_pos(position),
                voxel_type == chunk.voxels.at_pos(position),
                base_quads == quads_upto(*chunk, idx as int),
                base_quads.len() <= 6 * idx,
                mesh_data.positions@ == positions_of(
                    base_quads + cell_quads_upto(*chunk, idx as int, f as int),
                ),
                mesh_data.data@ == data_of(
                    *chunk,
                    base_quads + cell_quads_upto(*chunk, idx as int, f as int),
                ),
                mesh_data.indices@ == indices_of(
                    base_quads + cell_quads_upto(*chunk, idx as int, f as int),
                ),
            decreases 6 - f,
        {
            let ghost qs = base_quads + cell_quads_upto(*chunk, idx as int, f as int);
            let face = VoxelFace::from_index(f);
            let normal = face.normal();
            let neighbor_position = position.offset(normal);
            if !voxel_type.is_transparent() && chunk.is_transparent_at(neighbor_position) {
                proof {
                    lemma_cell_quads_len(*chunk, idx as int, f as int);
                    lemma_flat_lens(*chunk, qs);
                }
                add_face(&mut mesh_data, voxel_type, position, face);
                proof {
                    let q = (position, face);
                    assert(face_visible(*chunk, cell_x(idx as int), cell_y(idx as int), cell_z(
                        idx as int), f as int));
                    assert(cell_quads_upto(*chunk, idx as int, f + 1 as int) =~= cell_quads_upto(
                        *chunk, idx as int, f as int).push(q));
                    assert(base_quads + cell_quads_upto(*chunk, idx as int, f + 1 as int) =~= qs.push(
                        q));
                    lemma_flat_push(*chunk, qs, q);
                    assert(mesh_data.positions@ =~= positions_of(qs.push(q)));
                    assert(mesh_data.data@ =~= data_of(*chunk, qs.push(q)));
                    assert(mesh_data.indices@ =~= indices_of(qs.push(q)));
                }
            } else {
                proof {
                    assert(!face_visible(*chunk, cell_x(idx as int), cell_y(idx as int), cell_z(
                        idx as int), f as int));
                    assert(cell_quads_upto(*chunk, idx as int, f + 1 as int) =~= cell_quads_upto(
                        *chunk, idx as int, f as int));
                    assert(base_quads + cell_quads_upto(*chunk, idx as int, f + 1 as int) =~= qs);
                }
            }
            f += 1;
        }
        proof {
            assert(quads_upto(*chunk, idx + 1 as int) == quads_upto(*chunk, idx as int)
                + cell_quads_upto(*chunk, idx as int, 6));
        }
        idx += 1;
    }
    mesh_data
}

/// An empty mesh: the placeholder attached to a chunk awaiting its first
/// real mesh.
pub fn generate_empty_chunk_mesh() -> (r: MeshData)
    ensures
        r.indices@ == Seq::<u32>::empty(),
        r.positions@ == Seq::<Vec3i>::empty(),
        r.data@ == Seq::<u32>::empty(),
{
    MeshData::new()
}

/// The local position of the cell with storage index `idx`, as the mesh
/// scan visits it.
fn unflatten_cell(idx: usize) -> (r: Vec3i)
    requires
        idx < 32768,
    ensures
        r.x == cell_x(idx as int),
        r.y == cell_y(idx as int),
        r.z == cell_z(idx as int),
        in_chunk_pos(r),
{
    crate::voxel_map::unflatten(idx)
}

} // verus!
