//! The sector map container.
//!
//! A map file is a header followed by sector records, all integers
//! little-endian:
//!
//! ```text
//! header   magic "MIME" (4 bytes), version (u32), number of sectors (u64)
//! sector   floor mesh, ceiling mesh, wall mesh
//! mesh     number of vertices (u64), number of indices (u64),
//!          the vertices, the indices (u32 each)
//! vertex   x, y, z, red, green, blue (binary32 each)
//! ```
//!
//! The functions named `*_at`, `*_end` and `*_fault` say what the bytes at an
//! offset hold; [`decoded`] puts them together, and [`parse`] computes it.

use vstd::prelude::*;
use crate::mesh::{MeshData, MeshModel, Vertex};
use crate::wire::{read_u32_le, read_u64_le, u32_le, u64_le};

verus! {

/// The first four bytes of a map file, `MIME`, read as a little-endian
/// integer.
pub const MAGIC: u32 = 0x454d_494d;

/// The one version of the container that holds sector records.
pub const VERSION: u32 = 1;

/// Bytes in the file header.
pub const HEADER_LEN: usize = 16;

/// Bytes in the two counts that open a mesh record.
pub const MESH_HEADER_LEN: usize = 16;

/// Bytes in one vertex.
pub const VERTEX_LEN: usize = 24;

/// Bytes in one index.
pub const INDEX_LEN: usize = 4;

/// Why a map could not be loaded.
#[derive(Clone, Copy, Debug, PartialEq, Eq)]
pub enum LoadError {
    /// The file ends before a header, a count or a section is complete.
    Truncated,
    /// The file does not start with the magic bytes.
    BadMagic,
    /// The header names a version other than [`VERSION`].
    UnsupportedVersion,
    /// A mesh declares more indices than one draw call can address.
    TooManyIndices,
    /// A floor or wall mesh holds no whole triangle to collide with.
    NoTriangles,
    /// An index names a vertex that its mesh does not have.
    IndexOutOfRange,
    /// Bytes follow the last sector record.
    TrailingData,
}

/// What one sector record holds.
pub struct SectorModel {
    pub floor: MeshModel,
    pub ceiling: MeshModel,
    pub wall: MeshModel,
}

impl SectorModel {
    /// What the loader asks of a sector record: every index of its three
    /// meshes names a vertex of the same mesh, no mesh holds more indices
    /// than one draw call can address, and floor and wall each hold a
    /// triangle.
    pub open spec fn well_formed(self) -> bool {
        &&& self.floor.indices_in_range()
        &&& self.ceiling.indices_in_range()
        &&& self.wall.indices_in_range()
        &&& self.floor.indices.len() <= u32::MAX
        &&& self.ceiling.indices.len() <= u32::MAX
        &&& self.wall.indices.len() <= u32::MAX
        &&& self.floor.triangle_count() >= 1
        &&& self.wall.triangle_count() >= 1
    }
}

/// What is wrong with what a mesh holds, if anything. A `solid` mesh is one
/// that the player collides with, and needs a triangle.
pub open spec fn mesh_content_fault(mesh: MeshModel, solid: bool) -> Option<LoadError> {
    if mesh.indices.len() > u32::MAX {
        Some(LoadError::TooManyIndices)
    } else if solid && mesh.indices.len() < 3 {
        Some(LoadError::NoTriangles)
    } else if !mesh.indices_in_range() {
        Some(LoadError::IndexOutOfRange)
    } else {
        None
    }
}

/// What is wrong with a sector record, if anything: the first fault among
/// its meshes. Floor and wall are solid, the ceiling is not.
pub open spec fn record_fault(record: SectorModel) -> Option<LoadError> {
    if mesh_content_fault(record.floor, true) is Some {
        mesh_content_fault(record.floor, true)
    } else if mesh_content_fault(record.ceiling, false) is Some {
        mesh_content_fault(record.ceiling, false)
    } else {
        mesh_content_fault(record.wall, true)
    }
}

/// What is wrong with a list of sector records, if anything: the fault of
/// the first record that has one.
pub open spec fn records_fault(records: Seq<SectorModel>) -> Option<LoadError>
    decreases records.len(),
{
    if records.len() == 0 {
        None
    } else if records_fault(records.drop_last()) is Some {
        records_fault(records.drop_last())
    } else {
        record_fault(records.last())
    }
}

/// One sector record as it is kept in memory.
#[derive(Clone, Debug, PartialEq, Eq)]
pub struct SourceSector {
    pub floor: MeshData,
    pub ceiling: MeshData,
    pub wall: MeshData,
}

impl View for SourceSector {
    type V = SectorModel;

    open spec fn view(&self) -> SectorModel {
        SectorModel { floor: self.floor@, ceiling: self.ceiling@, wall: self.wall@ }
    }
}

/// The records of a list of sectors.
pub open spec fn sector_models(sectors: Seq<SourceSector>) -> Seq<SectorModel> {
    Seq::new(sectors.len(), |k: int| sectors[k]@)
}

/// The vertex whose 24 bytes start at `at`.
pub open spec fn vertex_at(bytes: Seq<u8>, at: int) -> Vertex {
    Vertex {
        position: [u32_le(bytes, at), u32_le(bytes, at + 4), u32_le(bytes, at + 8)],
        color: [u32_le(bytes, at + 12), u32_le(bytes, at + 16), u32_le(bytes, at + 20)],
    }
}

/// The number of vertices that the mesh record at `at` declares.
pub open spec fn vertex_count_at(bytes: Seq<u8>, at: int) -> nat {
    u64_le(bytes, at) as nat
}

/// The number of indices that the mesh record at `at` declares.
pub open spec fn index_count_at(bytes: Seq<u8>, at: int) -> nat {
    u64_le(bytes, at + 8) as nat
}

/// The offset just behind the mesh record that starts at `at`.
#[verifier::opaque]
pub open spec fn mesh_end(bytes: Seq<u8>, at: int) -> int {
    at + MESH_HEADER_LEN + VERTEX_LEN * vertex_count_at(bytes, at) + INDEX_LEN * index_count_at(
        bytes,
        at,
    )
}

/// The mesh whose record starts at `at`.
#[verifier::opaque]
pub open spec fn mesh_at(bytes: Seq<u8>, at: int) -> MeshModel {
    let vertices = at + MESH_HEADER_LEN;
    let indices = vertices + VERTEX_LEN * vertex_count_at(bytes, at);
    MeshModel {
        vertices: Seq::new(
            vertex_count_at(bytes, at),
            |i: int| vertex_at(bytes, vertices + VERTEX_LEN * i),
        ),
        indices: Seq::new(index_count_at(bytes, at), |i: int| u32_le(bytes, indices + INDEX_LEN * i)),
    }
}

/// What is wrong with the mesh record at `at`, if anything: it is cut
/// short, it declares more indices than a draw call can address, or what it
/// holds is at fault.
#[verifier::opaque]
pub open spec fn mesh_fault(bytes: Seq<u8>, at: int, solid: bool) -> Option<LoadError> {
    if at + MESH_HEADER_LEN > bytes.len() {
        Some(LoadError::Truncated)
    } else if index_count_at(bytes, at) > u32::MAX {
        Some(LoadError::TooManyIndices)
    } else if mesh_end(bytes, at) > bytes.len() {
        Some(LoadError::Truncated)
    } else {
        mesh_content_fault(mesh_at(bytes, at), solid)
    }
}

/// The offset just behind the sector record that starts at `at`.
pub open spec fn sector_end(bytes: Seq<u8>, at: int) -> int {
    mesh_end(bytes, mesh_end(bytes, mesh_end(bytes, at)))
}

/// The sector whose record starts at `at`: floor, ceiling and wall, in that
/// order.
pub open spec fn sector_at(bytes: Seq<u8>, at: int) -> SectorModel {
    let ceiling = mesh_end(bytes, at);
    let wall = mesh_end(bytes, ceiling);
    SectorModel {
        floor: mesh_at(bytes, at),
        ceiling: mesh_at(bytes, ceiling),
        wall: mesh_at(bytes, wall),
    }
}

/// What is wrong with the sector record at `at`, if anything: the first
/// fault among its meshes. Floor and wall are solid, the ceiling is not.
pub open spec fn sector_fault(bytes: Seq<u8>, at: int) -> Option<LoadError> {
    let ceiling = mesh_end(bytes, at);
    let wall = mesh_end(bytes, ceiling);
    if mesh_fault(bytes, at, true) is Some {
        mesh_fault(bytes, at, true)
    } else if mesh_fault(bytes, ceiling, false) is Some {
        mesh_fault(bytes, ceiling, false)
    } else {
        mesh_fault(bytes, wall, true)
    }
}

/// The offset at which sector record number `k` starts, counting from zero.
pub open spec fn sector_start(bytes: Seq<u8>, k: nat) -> int
    decreases k,
{
    if k == 0 {
        HEADER_LEN as int
    } else {
        sector_end(bytes, sector_start(bytes, (k - 1) as nat))
    }
}

/// The first fault among the first `count` sector records, if there is one.
pub open spec fn sectors_fault(bytes: Seq<u8>, count: nat) -> Option<LoadError>
    decreases count,
{
    if count == 0 {
        None
    } else if sectors_fault(bytes, (count - 1) as nat) is Some {
        sectors_fault(bytes, (count - 1) as nat)
    } else {
        sector_fault(bytes, sector_start(bytes, (count - 1) as nat))
    }
}

/// What is wrong with the file header, if anything.
pub open spec fn header_fault(bytes: Seq<u8>) -> Option<LoadError> {
    if bytes.len() < HEADER_LEN {
        Some(LoadError::Truncated)
    } else if u32_le(bytes, 0) != MAGIC {
        Some(LoadError::BadMagic)
    } else if u32_le(bytes, 4) != VERSION {
        Some(LoadError::UnsupportedVersion)
    } else {
        None
    }
}

/// The number of sectors that the header declares.
pub open spec fn declared_sectors(bytes: Seq<u8>) -> nat {
    u64_le(bytes, 8) as nat
}

/// What is wrong with the file, if anything: a fault of the header, else the
/// first fault among the declared sectors, else bytes left over behind the
/// last of them.
pub open spec fn file_fault(bytes: Seq<u8>) -> Option<LoadError> {
    if header_fault(bytes) is Some {
        header_fault(bytes)
    } else if sectors_fault(bytes, declared_sectors(bytes)) is Some {
        sectors_fault(bytes, declared_sectors(bytes))
    } else if sector_start(bytes, declared_sectors(bytes)) != bytes.len() {
        Some(LoadError::TrailingData)
    } else {
        None
    }
}

/// The sectors of the file, in file order.
pub open spec fn file_sectors(bytes: Seq<u8>) -> Seq<SectorModel> {
    Seq::new(declared_sectors(bytes), |k: int| sector_at(bytes, sector_start(bytes, k as nat)))
}

/// What a map file holds: its sectors, or the reason why it is no map.
pub open spec fn decoded(bytes: Seq<u8>) -> Result<Seq<SectorModel>, LoadError> {
    match file_fault(bytes) {
        Some(fault) => Err(fault),
        None => Ok(file_sectors(bytes)),
    }
}

/// Once a sector record is at fault, so is every longer run of records, with
/// the same fault.
pub proof fn lemma_fault_persists(bytes: Seq<u8>, short: nat, long: nat)
    requires
        short <= long,
        sectors_fault(bytes, short) is Some,
    ensures
        sectors_fault(bytes, long) == sectors_fault(bytes, short),
    decreases long - short,
{
    if short < long {
        lemma_fault_persists(bytes, short, (long - 1) as nat);
    }
}

/// A record is well formed exactly if nothing is wrong with it.
pub proof fn lemma_well_formed_is_faultless(record: SectorModel)
    ensures
        record.well_formed() <==> record_fault(record) is None,
{
}

/// A list of records is without fault exactly if each of them is well
/// formed.
pub proof fn lemma_faultless_records(records: Seq<SectorModel>)
    ensures
        records_fault(records) is None <==> forall|k: int|
            0 <= k < records.len() ==> (#[trigger] records[k]).well_formed(),
    decreases records.len(),
{
    if records.len() > 0 {
        let shorter = records.drop_last();
        lemma_faultless_records(shorter);
        lemma_well_formed_is_faultless(records.last());
        if records_fault(records) is None {
            assert forall|k: int| 0 <= k < records.len() implies (
            #[trigger] records[k]).well_formed() by {
                if k < shorter.len() {
                    assert(shorter[k] == records[k]);
                }
            }
        } else {
            if forall|k: int| 0 <= k < records.len() ==> (#[trigger] records[k]).well_formed() {
                assert forall|k: int| 0 <= k < shorter.len() implies (
                #[trigger] shorter[k]).well_formed() by {
                    assert(shorter[k] == records[k]);
                }
                assert(records.last() == records[records.len() - 1]);
            }
        }
    }
}

/// Where no sector record among the first `count` is at fault, none of them
/// is at fault by itself.
pub proof fn lemma_sound_sectors(bytes: Seq<u8>, count: nat, k: nat)
    requires
        sectors_fault(bytes, count) is None,
        k < count,
    ensures
        sector_fault(bytes, sector_start(bytes, k)) is None,
    decreases count,
{
    if k + 1 < count {
        lemma_sound_sectors(bytes, (count - 1) as nat, k);
    }
}

/// A sector record that is not at fault is well formed.
pub proof fn lemma_sound_sector_well_formed(bytes: Seq<u8>, at: int)
    requires
        sector_fault(bytes, at) is None,
    ensures
        sector_at(bytes, at).well_formed(),
{
    reveal(mesh_fault);
    reveal(mesh_at);
    let ceiling = mesh_end(bytes, at);
    let wall = mesh_end(bytes, ceiling);
    assert(mesh_fault(bytes, at, true) is None);
    assert(mesh_fault(bytes, ceiling, false) is None);
    assert(mesh_fault(bytes, wall, true) is None);
}

/// Every map file that decodes holds as many sectors as its header
/// declares, and each of them is well formed.
pub proof fn lemma_decoded_well_formed(bytes: Seq<u8>)
    requires
        decoded(bytes) is Ok,
    ensures
        decoded(bytes).unwrap().len() == declared_sectors(bytes),
        forall|k: int|
            0 <= k < decoded(bytes).unwrap().len() ==> (#[trigger] decoded(
                bytes,
            ).unwrap()[k]).well_formed(),
{
    let sectors = decoded(bytes).unwrap();
    assert(file_fault(bytes) is None);
    assert(sectors == file_sectors(bytes));
    assert forall|k: int| 0 <= k < sectors.len() implies (#[trigger] sectors[k]).well_formed() by {
        lemma_sound_sectors(bytes, declared_sectors(bytes), k as nat);
        lemma_sound_sector_well_formed(bytes, sector_start(bytes, k as nat));
    }
}

/// Reads the vertex at offset `at`.
fn parse_vertex(bytes: &[u8], at: usize) -> (vertex: Vertex)
    requires
        at + VERTEX_LEN <= bytes@.len(),
    ensures
        vertex == vertex_at(bytes@, at as int),
{
    let _len: usize = bytes.len();
    let vertex = Vertex {
        position: [read_u32_le(bytes, at), read_u32_le(bytes, at + 4), read_u32_le(bytes, at + 8)],
        color: [
            read_u32_le(bytes, at + 12),
            read_u32_le(bytes, at + 16),
            read_u32_le(bytes, at + 20),
        ],
    };
    assert(vertex.position == vertex_at(bytes@, at as int).position);
    assert(vertex.color == vertex_at(bytes@, at as int).color);
    vertex
}

/// Reads the mesh record at offset `at`, and hands back the mesh with the
/// offset behind it.
fn parse_mesh(bytes: &[u8], at: usize, solid: bool) -> (parsed: Result<(MeshData, usize), LoadError>)
    requires
        at <= bytes@.len(),
    ensures
        match mesh_fault(bytes@, at as int, solid) {
            Some(fault) => parsed == Err::<(MeshData, usize), LoadError>(fault),
            None => parsed matches Ok((mesh, next)) && mesh@ == mesh_at(bytes@, at as int) && next
                == mesh_end(bytes@, at as int) && next <= bytes@.len(),
        },
{
    reveal(mesh_end);
    reveal(mesh_at);
    reveal(mesh_fault);
    let len: usize = bytes.len();
    if len - at < MESH_HEADER_LEN {
        return Err(LoadError::Truncated);
    }
    let vertex_count: u64 = read_u64_le(bytes, at);
    let index_count: u64 = read_u64_le(bytes, at + 8);
    if index_count > u32::MAX as u64 {
        return Err(LoadError::TooManyIndices);
    }
    let body: usize = at + MESH_HEADER_LEN;
    let room: usize = len - body;
    if vertex_count > (room / VERTEX_LEN) as u64 {
        return Err(LoadError::Truncated);
    }
    let vertices_len: usize = VERTEX_LEN * (vertex_count as usize);
    let index_base: usize = body + vertices_len;
    if index_count > ((room - vertices_len) / INDEX_LEN) as u64 {
        return Err(LoadError::Truncated);
    }
    let next: usize = index_base + INDEX_LEN * (index_count as usize);
    if solid && index_count < 3 {
        return Err(LoadError::NoTriangles);
    }
    let ghost model = mesh_at(bytes@, at as int);
    let mut vertices: Vec<Vertex> = Vec::new();
    let mut i: usize = 0;
    while i < vertex_count as usize
        invariant
            i <= vertex_count,
            body + VERTEX_LEN * vertex_count <= bytes@.len() <= usize::MAX,
            model == mesh_at(bytes@, at as int),
            body == at + MESH_HEADER_LEN,
            vertex_count == vertex_count_at(bytes@, at as int),
            vertices@ == model.vertices.take(i as int),
        decreases vertex_count - i,
    {
        reveal(mesh_at);
        let vertex = parse_vertex(bytes, body + VERTEX_LEN * i);
        assert(vertex == model.vertices[i as int]);
        vertices.push(vertex);
        i += 1;
    }
    assert(vertices@ == model.vertices);
    let mut indices: Vec<u32> = Vec::new();
    let mut j: usize = 0;
    while j < index_count as usize
        invariant
            j <= index_count,
            index_base + INDEX_LEN * index_count <= bytes@.len() <= usize::MAX,
            model == mesh_at(bytes@, at as int),
            index_base == at + MESH_HEADER_LEN + VERTEX_LEN * vertex_count,
            vertex_count == vertex_count_at(bytes@, at as int),
            index_count == index_count_at(bytes@, at as int),
            indices@ == model.indices.take(j as int),
            forall|k: int| 0 <= k < j ==> (#[trigger] model.indices[k]) < vertex_count,
            !model.indices_in_range() ==> mesh_fault(bytes@, at as int, solid) == Some(
                LoadError::IndexOutOfRange,
            ),
        decreases index_count - j,
    {
        reveal(mesh_at);
        let index: u32 = read_u32_le(bytes, index_base + INDEX_LEN * j);
        assert(index == model.indices[j as int]);
        if index as u64 >= vertex_count {
            assert(!model.indices_in_range());
            return Err(LoadError::IndexOutOfRange);
        }
        indices.push(index);
        j += 1;
    }
    assert(indices@ == model.indices);
    Ok((MeshData { vertices, indices }, next))
}

/// Reads the sector record at offset `at`, and hands back the sector with
/// the offset behind it.
fn parse_sector(bytes: &[u8], at: usize) -> (parsed: Result<(SourceSector, usize), LoadError>)
    requires
        at <= bytes@.len(),
    ensures
        match sector_fault(bytes@, at as int) {
            Some(fault) => parsed == Err::<(SourceSector, usize), LoadError>(fault),
            None => parsed matches Ok((sector, next)) && sector@ == sector_at(bytes@, at as int)
                && next == sector_end(bytes@, at as int) && next <= bytes@.len(),
        },
{
    let (floor, ceiling_at) = match parse_mesh(bytes, at, true) {
        Ok(found) => found,
        Err(fault) => { return Err(fault); },
    };
    let (ceiling, wall_at) = match parse_mesh(bytes, ceiling_at, false) {
        Ok(found) => found,
        Err(fault) => { return Err(fault); },
    };
    let (wall, next) = match parse_mesh(bytes, wall_at, true) {
        Ok(found) => found,
        Err(fault) => { return Err(fault); },
    };
    Ok((SourceSector { floor, ceiling, wall }, next))
}

/// Decodes a map file into its sector records.
///
/// Succeeds exactly on the files that [`file_fault`] finds nothing wrong
/// with, and names the first fault of any other.
pub fn parse(bytes: &[u8]) -> (parsed: Result<Vec<SourceSector>, LoadError>)
    ensures
        match decoded(bytes@) {
            Ok(sectors) => parsed matches Ok(found) && sector_models(found@) == sectors,
            Err(fault) => parsed == Err::<Vec<SourceSector>, LoadError>(fault),
        },
{
    let len: usize = bytes.len();
    if len < HEADER_LEN {
        return Err(LoadError::Truncated);
    }
    if read_u32_le(bytes, 0) != MAGIC {
        return Err(LoadError::BadMagic);
    }
    if read_u32_le(bytes, 4) != VERSION {
        return Err(LoadError::UnsupportedVersion);
    }
    let declared: u64 = read_u64_le(bytes, 8);
    let mut sectors: Vec<SourceSector> = Vec::new();
    let mut at: usize = HEADER_LEN;
    let mut k: u64 = 0;
    while k < declared
        invariant
            k <= declared,
            declared == declared_sectors(bytes@),
            header_fault(bytes@) is None,
            at <= bytes@.len(),
            at == sector_start(bytes@, k as nat),
            sectors_fault(bytes@, k as nat) is None,
            sectors@.len() == k,
            sector_models(sectors@) == file_sectors(bytes@).take(k as int),
        decreases declared - k,
    {
        match parse_sector(bytes, at) {
            Ok((sector, next)) => {
                assert(sector@ == file_sectors(bytes@)[k as int]);
                sectors.push(sector);
                assert(sector_models(sectors@) == file_sectors(bytes@).take(k + 1));
                at = next;
                k += 1;
            },
            Err(fault) => {
                proof {
                    assert(sectors_fault(bytes@, (k + 1) as nat) == Some(fault));
                    lemma_fault_persists(bytes@, (k + 1) as nat, declared as nat);
                }
                return Err(fault);
            },
        }
    }
    if at != len {
        return Err(LoadError::TrailingData);
    }
    assert(sector_models(sectors@) == file_sectors(bytes@));
    Ok(sectors)
}

} // verus!
