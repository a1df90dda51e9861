//! Meshes as the GPU draws them.

pub mod draw;

use vstd::prelude::*;
use crate::assets::{AssetId, PrepareAsset, PrepareAssetError};
use crate::camera::{CameraID, RenderOn};
use crate::command::{bevy_topology_to_citro, Primitive, PrimitiveTopology};
use crate::gpu_buffer::{LinearBuffer, LinearPool};
use crate::math::{Mat4, Vec2, Vec3, Vec4};
use crate::pipeline::{register, Format, Register, VertexAttribute, VertexAttrs};

verus! {

/// One vertex of a mesh.
#[derive(Debug, Clone, Copy, PartialEq, Eq, Structural)]
pub struct MeshVertex {
    pub pos: Vec3,
    pub uv: Vec2,
    pub normal: Vec3,
    pub tangent: Vec3,
}

/// The attribute that feeds register `n` with `count` floats.
pub open spec fn float_attribute(n: nat, count: u8) -> VertexAttribute {
    VertexAttribute { register: register(n), format: Format::Float, count }
}

/// The layout of [`MeshVertex`]: position, texture coordinate, normal and
/// tangent, in registers 0 to 3.
pub open spec fn mesh_layout() -> Seq<VertexAttribute> {
    seq![
        float_attribute(0, 3),
        float_attribute(1, 2),
        float_attribute(2, 3),
        float_attribute(3, 3),
    ]
}

/// The attribute that feeds register `n` with `count` floats.
pub fn float_loader(n: u16, count: u8) -> (attr: VertexAttribute)
    requires
        n < 16,
    ensures
        attr == float_attribute(n as nat, count),
{
    VertexAttribute { register: Register::new(n).unwrap(), format: Format::Float, count }
}

impl MeshVertex {
    /// How a [`MeshVertex`] lies in memory.
    pub fn vert_attrs() -> (layout: VertexAttrs)
        ensures
            layout.wf(),
            layout@ == mesh_layout(),
    {
        let mut layout = VertexAttrs::default();
        let p = layout.add_attr(&float_loader(0, 3));
        let u = layout.add_attr(&float_loader(1, 2));
        let n = layout.add_attr(&float_loader(2, 3));
        let t = layout.add_attr(&float_loader(3, 3));
        assert(layout@ =~= mesh_layout());
        layout
    }
}

/// Whether a mesh is drawn vertex after vertex or by a list of indices.
#[derive(Debug)]
pub enum BufKind {
    Array,
    Elements { index_buf: LinearBuffer<u16> },
}

/// A mesh that was prepared for the GPU.
#[derive(Debug)]
pub struct GpuMesh {
    pub vert_buf: LinearBuffer<MeshVertex>,
    pub nb_verts: u32,
    pub indices: BufKind,
    pub prim_kind: Primitive,
}

/// A mesh that is to be drawn in this frame.
#[derive(Debug)]
pub struct ExtractedMesh {
    pub mesh: AssetId,
    pub transform: Mat4,
    pub material: AssetId,
    pub render_on: RenderOn,
}

/// The meshes that are to be drawn in this frame, in the order in which
/// they are drawn.
#[derive(Debug)]
pub struct ExtractedMeshes {
    pub extracted: Vec<ExtractedMesh>,
}

impl Default for ExtractedMeshes {
    fn default() -> (meshes: ExtractedMeshes)
        ensures
            meshes.extracted@ == Seq::<ExtractedMesh>::empty(),
    {
        ExtractedMeshes { extracted: Vec::new() }
    }
}

/// The indices of a mesh, as the host engine keeps them.
#[derive(Debug)]
pub enum Indices {
    U16(Vec<u16>),
    U32(Vec<u32>),
}

/// A mesh as the host engine keeps it.
#[derive(Debug)]
pub struct MeshData {
    pub positions: Option<Vec<Vec3>>,
    pub uvs: Option<Vec<Vec2>>,
    pub normals: Option<Vec<Vec3>>,
    /// The tangents; the GPU is given the first three components of each.
    pub tangents: Option<Vec<Vec4>>,
    pub indices: Option<Indices>,
    pub topology: PrimitiveTopology,
}

/// Why a mesh cannot be prepared for the GPU.
#[derive(Debug, Clone, Copy, PartialEq, Eq, Structural)]
pub enum MeshError {
    /// The mesh has no positions.
    MissingPositions,
    /// The mesh has no normals.
    MissingNormals,
    /// The mesh has vertices, but no texture coordinates.
    MissingUvs,
    /// An attribute has fewer entries than the mesh has positions.
    AttributeTooShort,
    /// The mesh has more vertices than can be counted.
    TooManyVertices,
    /// The GPU cannot draw meshes of this topology.
    UnsupportedTopology,
    /// An index does not fit the sixteen bits that the GPU reads.
    IndexTooLarge { index: u32 },
    /// The linear pool cannot hold the mesh.
    OutOfLinearMemory,
}

/// The vertex of `data` at place `i`. A mesh without tangents has the zero
/// tangent everywhere.
pub open spec fn vertex_at(data: MeshData, i: int) -> MeshVertex {
    MeshVertex {
        pos: data.positions->Some_0@[i],
        uv: data.uvs->Some_0@[i],
        normal: data.normals->Some_0@[i],
        tangent: match data.tangents {
            Some(tangents) => Vec3 { x: tangents@[i].x, y: tangents@[i].y, z: tangents@[i].z },
            None => Vec3 { x: 0, y: 0, z: 0 },
        },
    }
}

/// The vertices of `data`.
pub open spec fn vertices_of(data: MeshData) -> Seq<MeshVertex> {
    Seq::new(data.positions->Some_0@.len(), |i: int| vertex_at(data, i))
}

/// The first index of `indices` that does not fit sixteen bits, if there is
/// one.
pub open spec fn first_large_index(indices: Seq<u32>) -> Option<u32>
    decreases indices.len(),
{
    if indices.len() == 0 {
        None
    } else if indices[0] > u16::MAX {
        Some(indices[0])
    } else {
        first_large_index(indices.drop_first())
    }
}

/// What is wrong with `data`, if anything. The first thing found wrong
/// decides.
pub open spec fn mesh_fault(data: MeshData) -> Option<MeshError> {
    if data.positions is None {
        Some(MeshError::MissingPositions)
    } else if data.normals is None {
        Some(MeshError::MissingNormals)
    } else {
        let n = data.positions->Some_0@.len();
        if n > u32::MAX {
            Some(MeshError::TooManyVertices)
        } else if n > 0 && data.uvs is None {
            Some(MeshError::MissingUvs)
        } else if (data.uvs is Some && data.uvs->Some_0@.len() < n) || data.normals->Some_0@.len()
            < n || (data.tangents is Some && data.tangents->Some_0@.len() < n) {
            Some(MeshError::AttributeTooShort)
        } else if bevy_topology_to_citro_spec(data.topology) is None {
            Some(MeshError::UnsupportedTopology)
        } else {
            match data.indices {
                Some(Indices::U32(indices)) => match first_large_index(indices@) {
                    Some(index) => Some(MeshError::IndexTooLarge { index }),
                    None => None,
                },
                _ => None,
            }
        }
    }
}

/// The primitive that the GPU draws a mesh of the given topology with.
pub open spec fn bevy_topology_to_citro_spec(topology: PrimitiveTopology) -> Option<Primitive> {
    match topology {
        PrimitiveTopology::TriangleList => Some(Primitive::Triangles),
        PrimitiveTopology::TriangleStrip => Some(Primitive::TriangleStrip),
        _ => None,
    }
}

/// The indices of `data` as the GPU reads them, if it has any.
pub open spec fn indices_of(data: MeshData) -> Option<Seq<u16>> {
    match data.indices {
        Some(Indices::U16(indices)) => Some(indices@),
        Some(Indices::U32(indices)) => Some(indices@.map_values(|index: u32| index as u16)),
        None => None,
    }
}

/// Whether `mesh` is `data`, prepared.
pub open spec fn is_prepared(data: MeshData, mesh: GpuMesh) -> bool {
    &&& mesh.vert_buf@ == vertices_of(data)
    &&& mesh.nb_verts == data.positions->Some_0@.len()
    &&& Some(mesh.prim_kind) == bevy_topology_to_citro_spec(data.topology)
    &&& match mesh.indices {
        BufKind::Array => indices_of(data) is None,
        BufKind::Elements { index_buf } => indices_of(data) == Some(index_buf@),
    }
}

/// The buffers of `mesh`.
pub open spec fn buffers_of(mesh: GpuMesh) -> Set<u64> {
    match mesh.indices {
        BufKind::Array => set![mesh.vert_buf.id()],
        BufKind::Elements { index_buf } => set![mesh.vert_buf.id(), index_buf.id()],
    }
}

/// The bytes that the buffers of a prepared `data` take.
pub open spec fn bytes_of(data: MeshData) -> nat {
    LinearBuffer::<MeshVertex>::bytes_for(data.positions->Some_0@.len()) + (match indices_of(
        data,
    ) {
        Some(indices) => LinearBuffer::<u16>::bytes_for(indices.len()),
        None => 0,
    })
}

/// Whether `pool` can hold the buffers of a prepared `data`: it has the
/// bytes for them, and a number for each.
pub open spec fn mesh_fits(data: MeshData, pool: LinearPool) -> bool {
    &&& pool.used_bytes() + bytes_of(data) <= pool.capacity_bytes()
    &&& pool.numbers_left() >= (if indices_of(data) is Some {
        2int
    } else {
        1int
    })
}

fn first_large(indices: &Vec<u32>) -> (found: Option<u32>)
    ensures
        found == first_large_index(indices@),
{
    let n: usize = indices.len();
    let mut i: usize = 0;
    assert(indices@.subrange(0, n as int) =~= indices@);
    while i < n
        invariant
            i <= n,
            n == indices@.len(),
            first_large_index(indices@) == first_large_index(indices@.subrange(i as int, n as int)),
        decreases n - i,
    {
        let ghost rest = indices@.subrange(i as int, n as int);
        assert(rest[0] == indices@[i as int]);
        assert(rest.drop_first() =~= indices@.subrange(i + 1, n as int));
        if indices[i] > 0xffff {
            return Some(indices[i]);
        }
        i += 1;
    }
    None
}

impl MeshData {
    /// What is wrong with the mesh, if anything.
    pub fn fault(&self) -> (fault: Option<MeshError>)
        ensures
            fault == mesh_fault(*self),
    {
        let positions = match &self.positions {
            Some(positions) => positions,
            None => {
                return Some(MeshError::MissingPositions);
            },
        };
        let normals = match &self.normals {
            Some(normals) => normals,
            None => {
                return Some(MeshError::MissingNormals);
            },
        };
        let n: usize = positions.len();
        if n > 0xffff_ffff {
            return Some(MeshError::TooManyVertices);
        }
        match &self.uvs {
            Some(uvs) => {
                if uvs.len() < n {
                    return Some(MeshError::AttributeTooShort);
                }
            },
            None => {
                if n > 0 {
                    return Some(MeshError::MissingUvs);
                }
            },
        }
        if normals.len() < n {
            return Some(MeshError::AttributeTooShort);
        }
        match &self.tangents {
            Some(tangents) => {
                if tangents.len() < n {
                    return Some(MeshError::AttributeTooShort);
                }
            },
            None => {},
        }
        if bevy_topology_to_citro(self.topology).is_none() {
            return Some(MeshError::UnsupportedTopology);
        }
        match &self.indices {
            Some(Indices::U32(indices)) => match first_large(indices) {
                Some(index) => Some(MeshError::IndexTooLarge { index }),
                None => None,
            },
            _ => None,
        }
    }
}

fn narrow(indices: &Vec<u32>) -> (r: Result<Vec<u16>, MeshError>)
    ensures
        match first_large_index(indices@) {
            Some(index) => r == Err::<Vec<u16>, MeshError>(MeshError::IndexTooLarge { index }),
            None => r is Ok && r->Ok_0@ == indices@.map_values(|index: u32| index as u16),
        },
{
    let n: usize = indices.len();
    let mut out: Vec<u16> = Vec::new();
    let mut i: usize = 0;
    assert(indices@.subrange(0, n as int) =~= indices@);
    while i < n
        invariant
            i <= n,
            n == indices@.len(),
            out@.len() == i,
            forall|j: int| 0 <= j < i ==> (#[trigger] indices@[j]) <= 0xffff,
            forall|j: int| 0 <= j < i ==> (#[trigger] out@[j]) == indices@[j] as u16,
            first_large_index(indices@) == first_large_index(indices@.subrange(i as int, n as int)),
        decreases n - i,
    {
        let ghost rest = indices@.subrange(i as int, n as int);
        assert(rest[0] == indices@[i as int]);
        assert(rest.drop_first() =~= indices@.subrange(i + 1, n as int));
        let index = indices[i];
        if index > 0xffff {
            return Err(MeshError::IndexTooLarge { index });
        }
        let short: u16 = index as u16;
        out.push(short);
        assert(out@[i as int] == indices@[i as int] as u16);
        i += 1;
    }
    assert(out@ =~= indices@.map_values(|index: u32| index as u16));
    Ok(out)
}

fn assemble(data: &MeshData) -> (r: Result<Vec<MeshVertex>, MeshError>)
    ensures
        match r {
            Ok(vertices) => {
                &&& data.positions is Some
                &&& data.normals is Some
                &&& data.positions->Some_0@.len() <= u32::MAX
                &&& vertices@ == vertices_of(*data)
                &&& (mesh_fault(*data) is None || mesh_fault(*data)
                    == Some(MeshError::UnsupportedTopology) || mesh_fault(*data) matches Some(
                    MeshError::IndexTooLarge { .. },
                ))
            },
            Err(e) => mesh_fault(*data) == Some(e) && e != MeshError::UnsupportedTopology && !(
            e matches MeshError::IndexTooLarge { .. }),
        },
{
    let positions = match &data.positions {
        Some(positions) => positions,
        None => {
            return Err(MeshError::MissingPositions);
        },
    };
    let normals = match &data.normals {
        Some(normals) => normals,
        None => {
            return Err(MeshError::MissingNormals);
        },
    };
    let n: usize = positions.len();
    if n > 0xffff_ffff {
        return Err(MeshError::TooManyVertices);
    }
    let mut vertices: Vec<MeshVertex> = Vec::new();
    if n == 0 {
        assert(vertices@ =~= vertices_of(*data));
        return Ok(vertices);
    }
    let uvs = match &data.uvs {
        Some(uvs) => uvs,
        None => {
            return Err(MeshError::MissingUvs);
        },
    };
    if uvs.len() < n || normals.len() < n {
        return Err(MeshError::AttributeTooShort);
    }
    match &data.tangents {
        Some(tangents) => {
            if tangents.len() < n {
                return Err(MeshError::AttributeTooShort);
            }
        },
        None => {},
    }
    let mut i: usize = 0;
    while i < n
        invariant
            i <= n,
            n == positions@.len(),
            data.positions == Some(*positions),
            data.normals == Some(*normals),
            data.uvs == Some(*uvs),
            uvs@.len() >= n,
            normals@.len() >= n,
            data.tangents is Some ==> data.tangents->Some_0@.len() >= n,
            vertices@.len() == i,
            forall|j: int| 0 <= j < i ==> vertices@[j] == vertex_at(*data, j),
        decreases n - i,
    {
        let tangent = match &data.tangents {
            Some(tangents) => Vec3 { x: tangents[i].x, y: tangents[i].y, z: tangents[i].z },
            None => Vec3 { x: 0, y: 0, z: 0 },
        };
        vertices.push(MeshVertex { pos: positions[i], uv: uvs[i], normal: normals[i], tangent });
        i += 1;
    }
    assert(vertices@ =~= vertices_of(*data));
    Ok(vertices)
}

impl GpuMesh {
    /// Prepares `data` for the GPU: its vertices and, if it has any, its
    /// indices are copied into buffers of `pool`.
    ///
    /// A mesh with a fault is refused with that fault. A mesh that the pool
    /// cannot hold is refused as well; the pool then holds what it held
    /// before. Every other mesh is prepared.
    pub fn prepare(data: &MeshData, pool: &mut LinearPool) -> (r: Result<GpuMesh, MeshError>)
        requires
            old(pool).wf(),
        ensures
            final(pool).wf(),
            final(pool).capacity_bytes() == old(pool).capacity_bytes(),
            r is Ok <==> mesh_fault(*data) is None && mesh_fits(*data, *old(pool)),
            match r {
                Ok(mesh) => {
                    &&& mesh_fault(*data) is None
                    &&& is_prepared(*data, mesh)
                    &&& forall|x: u64|
                        final(pool).holds(x) == (old(pool).holds(x) || buffers_of(mesh).contains(x))
                    &&& forall|x: u64| buffers_of(mesh).contains(x) ==> !old(pool).issued(x)
                    &&& final(pool).used_bytes() == old(pool).used_bytes() + bytes_of(*data)
                },
                Err(e) => {
                    &&& forall|x: u64| final(pool).holds(x) == old(pool).holds(x)
                    &&& final(pool).used_bytes() == old(pool).used_bytes()
                    &&& match mesh_fault(*data) {
                        Some(fault) => e == fault,
                        None => e == MeshError::OutOfLinearMemory,
                    }
                },
            },
    {
        let vertices = match assemble(data) {
            Ok(vertices) => vertices,
            Err(e) => {
                return Err(e);
            },
        };
        let prim_kind = match bevy_topology_to_citro(data.topology) {
            Some(prim_kind) => prim_kind,
            None => {
                return Err(MeshError::UnsupportedTopology);
            },
        };
        let narrowed: Option<Vec<u16>> = match &data.indices {
            Some(Indices::U32(wide)) => match narrow(wide) {
                Ok(indices) => Some(indices),
                Err(e) => {
                    return Err(e);
                },
            },
            _ => None,
        };
        let nb_verts: u32 = vertices.len() as u32;
        let vert_buf = match LinearBuffer::new(pool, vertices.as_slice()) {
            Ok(vert_buf) => vert_buf,
            Err(_) => {
                return Err(MeshError::OutOfLinearMemory);
            },
        };
        let index_buf = match &data.indices {
            Some(Indices::U16(indices)) => LinearBuffer::new(pool, indices.as_slice()),
            Some(Indices::U32(_)) => match &narrowed {
                Some(indices) => LinearBuffer::new(pool, indices.as_slice()),
                None => {
                    assert(false);
                    return Err(MeshError::OutOfLinearMemory);
                },
            },
            None => {
                let mesh = GpuMesh { vert_buf, nb_verts, indices: BufKind::Array, prim_kind };
                assert(buffers_of(mesh) =~= set![mesh.vert_buf.id()]);
                return Ok(mesh);
            },
        };
        match index_buf {
            Ok(index_buf) => {
                let mesh = GpuMesh {
                    vert_buf,
                    nb_verts,
                    indices: BufKind::Elements { index_buf },
                    prim_kind,
                };
                assert(buffers_of(mesh) =~= set![mesh.vert_buf.id(), index_buf.id()]);
                Ok(mesh)
            },
            Err(_) => {
                proof {
                    if old(pool).holds(vert_buf.id()) {
                        old(pool).lemma_live_is_issued(vert_buf.id());
                    }
                }
                pool.release(vert_buf);
                Err(MeshError::OutOfLinearMemory)
            },
        }
    }
}

/// What preparing the mesh `data` does: a mesh with a fault is rejected, a
/// mesh that the pool cannot hold is handed back as it is, and else the mesh
/// is prepared.
pub open spec fn mesh_prepared(
    data: MeshData,
    before: LinearPool,
    after: LinearPool,
    r: Result<GpuMesh, PrepareAssetError<MeshData>>,
) -> bool {
    &&& after.capacity_bytes() == before.capacity_bytes()
    &&& match r {
        Ok(mesh) => {
            &&& mesh_fault(data) is None
            &&& mesh_fits(data, before)
            &&& is_prepared(data, mesh)
            &&& forall|x: u64| after.holds(x) == (before.holds(x) || buffers_of(mesh).contains(x))
            &&& forall|x: u64| buffers_of(mesh).contains(x) ==> !before.issued(x)
            &&& after.used_bytes() == before.used_bytes() + bytes_of(data)
        },
        Err(PrepareAssetError::RetryNextUpdate(back)) => {
            &&& back == data
            &&& mesh_fault(data) is None
            &&& !mesh_fits(data, before)
            &&& forall|x: u64| after.holds(x) == before.holds(x)
            &&& after.used_bytes() == before.used_bytes()
        },
        Err(PrepareAssetError::Rejected) => {
            &&& mesh_fault(data) is Some
            &&& forall|x: u64| after.holds(x) == before.holds(x)
            &&& after.used_bytes() == before.used_bytes()
        },
    }
}

impl PrepareAsset for MeshData {
    type ExtractedAsset = MeshData;

    type PreparedAsset = GpuMesh;

    type Param = LinearPool;

    open spec fn ready(param: LinearPool) -> bool {
        param.wf()
    }

    open spec fn prepared(
        extracted: MeshData,
        before: LinearPool,
        after: LinearPool,
        r: Result<GpuMesh, PrepareAssetError<MeshData>>,
    ) -> bool {
        mesh_prepared(extracted, before, after, r)
    }

    fn prepare_asset_3ds(extracted: MeshData, param: &mut LinearPool) -> (r: Result<
        GpuMesh,
        PrepareAssetError<MeshData>,
    >) {
        match GpuMesh::prepare(&extracted, param) {
            Ok(mesh) => Ok(mesh),
            Err(MeshError::OutOfLinearMemory) => Err(PrepareAssetError::RetryNextUpdate(extracted)),
            Err(_) => Err(PrepareAssetError::Rejected),
        }
    }
}

/// A mesh that is to be drawn, as the world has it.
#[derive(Debug)]
pub struct QueriedMesh {
    pub mesh: AssetId,
    pub material: AssetId,
    pub transform: Mat4,
    /// Whether any camera can see the mesh.
    pub visible: bool,
    /// The cameras that show the mesh; the first camera if none is named.
    pub render_on: Option<RenderOn>,
}

/// The place of the last of `meshes` that wears `material`; -1 if none
/// does.
pub open spec fn last_wearing(meshes: Seq<ExtractedMesh>, material: AssetId) -> int
    decreases meshes.len(),
{
    if meshes.len() == 0 {
        -1
    } else if meshes.last().material == material {
        meshes.len() - 1
    } else {
        last_wearing(meshes.drop_last(), material)
    }
}

/// Where a mesh of `material` joins `meshes`: behind the last one that wears
/// the same material, or behind all of them if none does.
pub open spec fn place_for(meshes: Seq<ExtractedMesh>, material: AssetId) -> int {
    if last_wearing(meshes, material) < 0 {
        meshes.len() as int
    } else {
        last_wearing(meshes, material) + 1
    }
}

/// The mesh `queried` as it is drawn.
pub open spec fn extracted_of(queried: QueriedMesh) -> ExtractedMesh {
    ExtractedMesh {
        mesh: queried.mesh,
        transform: queried.transform,
        material: queried.material,
        render_on: match queried.render_on {
            Some(render_on) => render_on,
            None => RenderOn::Only(CameraID(0)),
        },
    }
}

/// The meshes of `query` in the order in which they are drawn: those that
/// are visible, each behind the last one before it that wears the same
/// material.
pub open spec fn grouped(query: Seq<QueriedMesh>) -> Seq<ExtractedMesh>
    decreases query.len(),
{
    if query.len() == 0 {
        Seq::empty()
    } else {
        let before = grouped(query.drop_last());
        if query.last().visible {
            before.insert(place_for(before, query.last().material), extracted_of(query.last()))
        } else {
            before
        }
    }
}

proof fn lemma_last_wearing(meshes: Seq<ExtractedMesh>, material: AssetId)
    ensures
        -1 <= last_wearing(meshes, material) < meshes.len(),
        last_wearing(meshes, material) >= 0 ==> meshes[last_wearing(meshes, material)].material
            == material,
        forall|i: int|
            last_wearing(meshes, material) < i < meshes.len() ==> (#[trigger] meshes[i]).material
                != material,
    decreases meshes.len(),
{
    if meshes.len() > 0 && meshes.last().material != material {
        lemma_last_wearing(meshes.drop_last(), material);
        assert forall|i: int| last_wearing(meshes, material) < i < meshes.len() implies (
        #[trigger] meshes[i]).material != material by {
            if i < meshes.len() - 1 {
                assert(meshes.drop_last()[i] == meshes[i]);
            }
        }
        if last_wearing(meshes, material) >= 0 {
            assert(meshes.drop_last()[last_wearing(meshes, material)] == meshes[last_wearing(
                meshes,
                material,
            )]);
        }
    }
}

proof fn lemma_last_wearing_is(meshes: Seq<ExtractedMesh>, material: AssetId, at: int)
    requires
        -1 <= at < meshes.len(),
        at >= 0 ==> meshes[at].material == material,
        forall|i: int| at < i < meshes.len() ==> (#[trigger] meshes[i]).material != material,
    ensures
        last_wearing(meshes, material) == at,
    decreases meshes.len(),
{
    if meshes.len() > 0 {
        if meshes.last().material == material {
            assert(at == meshes.len() - 1);
        } else {
            assert forall|i: int| at < i < meshes.drop_last().len() implies (
            #[trigger] meshes.drop_last()[i]).material != material by {
                assert(meshes.drop_last()[i] == meshes[i]);
            }
            if at >= 0 {
                assert(meshes.drop_last()[at] == meshes[at]);
            }
            lemma_last_wearing_is(meshes.drop_last(), material, at);
        }
    }
}

impl ExtractedMeshes {
    /// Where a mesh of `material` joins the meshes.
    fn place(&self, material: AssetId) -> (at: usize)
        ensures
            at == place_for(self.extracted@, material),
            at <= self.extracted@.len(),
    {
        let n: usize = self.extracted.len();
        let mut i: usize = n;
        while i > 0
            invariant
                i <= n,
                n == self.extracted@.len(),
                forall|j: int| i <= j < n ==> (#[trigger] self.extracted@[j]).material != material,
            decreases i,
        {
            if self.extracted[i - 1].material == material {
                proof {
                    lemma_last_wearing_is(self.extracted@, material, i - 1);
                }
                return i;
            }
            i -= 1;
        }
        proof {
            lemma_last_wearing_is(self.extracted@, material, -1);
        }
        n
    }
}

/// Takes the meshes of the frame from the world: `extracted` holds the
/// visible ones, meshes of one material side by side.
pub fn extract_meshes(extracted: &mut ExtractedMeshes, query: Vec<QueriedMesh>)
    ensures
        final(extracted).extracted@ == grouped(query@),
{
    extracted.extracted.clear();
    for queried in iter: query
        invariant
            iter.seq() == query@,
            extracted.extracted@ == grouped(query@.take(iter.index() as int)),
    {
        let ghost i = iter.index() as int;
        let ghost upto = query@.take(i + 1);
        assert(upto.drop_last() =~= query@.take(i));
        assert(upto.last() == query@[i]);
        if queried.visible {
            let render_on = match queried.render_on {
                Some(render_on) => render_on,
                None => RenderOn::default(),
            };
            let add = ExtractedMesh {
                mesh: queried.mesh,
                transform: queried.transform,
                material: queried.material,
                render_on,
            };
            let at = extracted.place(queried.material);
            extracted.extracted.insert(at, add);
        }
    }
    assert(query@.take(query@.len() as int) =~= query@);
}

/// Whether the meshes of one material stand side by side in `meshes`.
pub open spec fn side_by_side(meshes: Seq<ExtractedMesh>) -> bool {
    forall|i: int, j: int, k: int|
        0 <= i < j < k < meshes.len() && (#[trigger] meshes[i]).material == (
        #[trigger] meshes[k]).material ==> (#[trigger] meshes[j]).material == meshes[i].material
}

proof fn lemma_insert_side_by_side(meshes: Seq<ExtractedMesh>, add: ExtractedMesh)
    requires
        side_by_side(meshes),
    ensures
        side_by_side(meshes.insert(place_for(meshes, add.material), add)),
{
    lemma_last_wearing(meshes, add.material);
    let at = place_for(meshes, add.material);
    let after = meshes.insert(at, add);
    assert forall|i: int, j: int, k: int|
        0 <= i < j < k < after.len() && (#[trigger] after[i]).material == (
        #[trigger] after[k]).material implies (#[trigger] after[j]).material
        == after[i].material by {
        let oi = if i < at {
            i
        } else {
            i - 1
        };
        let oj = if j < at {
            j
        } else {
            j - 1
        };
        let ok = if k < at {
            k
        } else {
            k - 1
        };
        if i != at {
            assert(after[i] == meshes[oi]);
        }
        if j != at {
            assert(after[j] == meshes[oj]);
        }
        if k != at {
            assert(after[k] == meshes[ok]);
        }
        if i == at {
            // the new mesh stands behind every mesh of its material
            assert(meshes[ok].material != add.material);
        } else if k == at {
            // every mesh between one of its material and the new one wears it
            if at > 0 && last_wearing(meshes, add.material) >= 0 {
                let last = last_wearing(meshes, add.material);
                if oj < last {
                    assert(meshes[oi].material == meshes[last].material);
                }
            } else {
                assert(meshes[oi].material != add.material);
            }
        } else if j == at {
            if oi < at && ok >= at {
                if last_wearing(meshes, add.material) >= 0 {
                    let last = last_wearing(meshes, add.material);
                    if oi < last {
                        assert(meshes[oi].material == meshes[ok].material);
                        assert(meshes[last].material == meshes[oi].material);
                    }
                } else {
                    // the new mesh stands behind all
                }
            }
        } else {
            if oi < oj && oj < ok {
                assert(meshes[oj].material == meshes[oi].material);
            }
        }
    }
}

/// The meshes of one material are drawn one after the other, so that the
/// material has to be handed to the GPU only once.
pub proof fn lemma_grouped_side_by_side(query: Seq<QueriedMesh>)
    ensures
        side_by_side(grouped(query)),
    decreases query.len(),
{
    if query.len() > 0 {
        lemma_grouped_side_by_side(query.drop_last());
        if query.last().visible {
            lemma_insert_side_by_side(grouped(query.drop_last()), extracted_of(query.last()));
        }
    }
}

} // verus!
