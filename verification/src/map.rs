//! The loaded map: sectors with their render meshes and collision meshes.

use vstd::prelude::*;
use crate::collision::{
    collider_of,
    lemma_collision_points_scaled,
    lemma_collision_triangles_in_range,
    CollisionMesh,
    CollisionModel,
};
use crate::encode::{encodable, encoded, lemma_round_trip};
use crate::format::{
    decoded,
    declared_sectors,
    lemma_decoded_well_formed,
    lemma_faultless_records,
    mesh_content_fault,
    parse,
    record_fault,
    records_fault,
    sector_models,
    LoadError,
    SectorModel,
    SourceSector,
};
use crate::mesh::{MeshData, MeshModel};
use crate::scalar::is_quarter_of;

verus! {

/// What a sector of a loaded map holds: three render meshes, and the
/// collision meshes of floor and wall. The ceiling is not collidable.
pub struct SectorView {
    pub floor_mesh: MeshModel,
    pub ceiling_mesh: MeshModel,
    pub wall_mesh: MeshModel,
    pub floor_collider: CollisionModel,
    pub wall_collider: CollisionModel,
}

impl SectorView {
    /// The record that the sector was made from.
    pub open spec fn record(self) -> SectorModel {
        SectorModel { floor: self.floor_mesh, ceiling: self.ceiling_mesh, wall: self.wall_mesh }
    }

    /// The sector's meshes are well formed, and its collision meshes are
    /// those of its floor and wall.
    pub open spec fn valid(self) -> bool {
        &&& self.record().well_formed()
        &&& self.floor_collider == collider_of(self.floor_mesh)
        &&& self.wall_collider == collider_of(self.wall_mesh)
    }
}

/// The sector that a record gives: the render meshes as they are, and the
/// collision meshes derived from floor and wall.
pub open spec fn assembled(record: SectorModel) -> SectorView {
    SectorView {
        floor_mesh: record.floor,
        ceiling_mesh: record.ceiling,
        wall_mesh: record.wall,
        floor_collider: collider_of(record.floor),
        wall_collider: collider_of(record.wall),
    }
}

/// The map that a list of records gives, sector by sector.
pub open spec fn assembled_map(records: Seq<SectorModel>) -> Seq<SectorView> {
    Seq::new(records.len(), |k: int| assembled(records[k]))
}

/// One region of the map. It is made once, from a well-formed record, and
/// read from then on.
#[derive(Debug)]
pub struct Sector {
    floor_mesh: MeshData,
    ceiling_mesh: MeshData,
    wall_mesh: MeshData,
    floor_collider: CollisionMesh,
    wall_collider: CollisionMesh,
}

impl View for Sector {
    type V = SectorView;

    closed spec fn view(&self) -> SectorView {
        SectorView {
            floor_mesh: self.floor_mesh@,
            ceiling_mesh: self.ceiling_mesh@,
            wall_mesh: self.wall_mesh@,
            floor_collider: self.floor_collider@,
            wall_collider: self.wall_collider@,
        }
    }
}

impl Sector {
    #[verifier::type_invariant]
    spec fn inv(self) -> bool {
        self@.valid()
    }

    /// Builds the sector of a well-formed record.
    pub(crate) fn assemble(record: SourceSector) -> (sector: Sector)
        requires
            record@.well_formed(),
        ensures
            sector@ == assembled(record@),
    {
        let floor_collider = CollisionMesh::from_mesh(&record.floor);
        let wall_collider = CollisionMesh::from_mesh(&record.wall);
        Sector {
            floor_mesh: record.floor,
            ceiling_mesh: record.ceiling,
            wall_mesh: record.wall,
            floor_collider,
            wall_collider,
        }
    }

    /// The render mesh of the floor.
    pub fn floor_mesh(&self) -> (mesh: &MeshData)
        ensures
            mesh@ == self@.floor_mesh,
            self@.valid(),
    {
        proof {
            use_type_invariant(self);
        }
        &self.floor_mesh
    }

    /// The render mesh of the ceiling.
    pub fn ceiling_mesh(&self) -> (mesh: &MeshData)
        ensures
            mesh@ == self@.ceiling_mesh,
            self@.valid(),
    {
        proof {
            use_type_invariant(self);
        }
        &self.ceiling_mesh
    }

    /// The render mesh of the walls.
    pub fn wall_mesh(&self) -> (mesh: &MeshData)
        ensures
            mesh@ == self@.wall_mesh,
            self@.valid(),
    {
        proof {
            use_type_invariant(self);
        }
        &self.wall_mesh
    }

    /// The collision mesh of the floor.
    pub fn floor_collider(&self) -> (collider: &CollisionMesh)
        ensures
            collider@ == self@.floor_collider,
            self@.valid(),
    {
        proof {
            use_type_invariant(self);
        }
        &self.floor_collider
    }

    /// The collision mesh of the walls.
    pub fn wall_collider(&self) -> (collider: &CollisionMesh)
        ensures
            collider@ == self@.wall_collider,
            self@.valid(),
    {
        proof {
            use_type_invariant(self);
        }
        &self.wall_collider
    }
}

/// An ordered collection of sectors. It owns all their geometry.
#[derive(Debug)]
pub struct SectorMap {
    sectors: Vec<Sector>,
}

impl View for SectorMap {
    type V = Seq<SectorView>;

    closed spec fn view(&self) -> Seq<SectorView> {
        Seq::new(self.sectors@.len(), |k: int| self.sectors@[k]@)
    }
}

impl SectorMap {
    /// The number of sectors.
    pub fn len(&self) -> (count: usize)
        ensures
            count == self@.len(),
    {
        self.sectors.len()
    }

    /// Sector number `k`, counting from zero.
    pub fn sector(&self, k: usize) -> (sector: &Sector)
        requires
            k < self@.len(),
        ensures
            sector@ == self@[k as int],
            sector@.valid(),
    {
        let sector = &self.sectors[k];
        proof {
            use_type_invariant(sector);
        }
        sector
    }
}

/// Checks what a mesh holds.
fn check_mesh(mesh: &MeshData, solid: bool) -> (fault: Option<LoadError>)
    ensures
        fault == mesh_content_fault(mesh@, solid),
{
    let count: usize = mesh.indices.len();
    if count > u32::MAX as usize {
        Some(LoadError::TooManyIndices)
    } else if solid && count < 3 {
        Some(LoadError::NoTriangles)
    } else if !mesh.indices_in_range() {
        Some(LoadError::IndexOutOfRange)
    } else {
        None
    }
}

/// Checks a sector record.
fn check_record(record: &SourceSector) -> (fault: Option<LoadError>)
    ensures
        fault == record_fault(record@),
{
    let floor = check_mesh(&record.floor, true);
    if floor.is_some() {
        return floor;
    }
    let ceiling = check_mesh(&record.ceiling, false);
    if ceiling.is_some() {
        return ceiling;
    }
    check_mesh(&record.wall, true)
}

/// Checks a list of sector records, in order.
fn first_fault(records: &Vec<SourceSector>) -> (fault: Option<LoadError>)
    ensures
        fault == records_fault(sector_models(records@)),
{
    let ghost models = sector_models(records@);
    let mut c: usize = 0;
    while c < records.len()
        invariant
            c <= records@.len(),
            models == sector_models(records@),
            records_fault(models.take(c as int)) is None,
        decreases records@.len() - c,
    {
        let fault = check_record(&records[c]);
        proof {
            let run = models.take(c + 1);
            assert(run.drop_last() == models.take(c as int));
            assert(run.last() == records@[c as int]@);
            assert(records_fault(run) == fault);
        }
        if fault.is_some() {
            proof {
                lemma_records_fault_persists(models, c + 1);
            }
            return fault;
        }
        c += 1;
    }
    assert(models.take(c as int) == models);
    None
}

impl SectorMap {
    /// Builds a map from sector records.
    ///
    /// Succeeds exactly if every record is well formed, with one sector for
    /// each record, in order; else the fault of the first record that has
    /// one is handed back, and no map.
    pub fn from_records(records: Vec<SourceSector>) -> (made: Result<SectorMap, LoadError>)
        ensures
            match records_fault(sector_models(records@)) {
                Some(fault) => made == Err::<SectorMap, LoadError>(fault),
                None => made matches Ok(map) && map@ == assembled_map(sector_models(records@)),
            },
    {
        let fault = first_fault(&records);
        if fault.is_some() {
            return Err(fault.unwrap());
        }
        let mut records = records;
        let ghost models = sector_models(records@);
        let count: usize = records.len();
        proof {
            lemma_faultless_records(models);
        }
        let mut sectors: Vec<Sector> = Vec::new();
        let mut k: usize = count;
        // Records are taken from the back, so that each is moved out of the
        // list without a copy; the sectors are put in order afterwards.
        while k > 0
            invariant
                k <= count,
                count == models.len(),
                records@.len() == k,
                sector_models(records@) == models.take(k as int),
                forall|i: int| 0 <= i < count ==> (#[trigger] models[i]).well_formed(),
                sectors@.len() == count - k,
                forall|i: int|
                    0 <= i < sectors@.len() ==> (#[trigger] sectors@[i])@ == assembled(
                        models[count - 1 - i],
                    ),
            decreases k,
        {
            let ghost before = records@;
            let record = records.pop().unwrap();
            k -= 1;
            assert(record@ == sector_models(before)[k as int]);
            assert(record@ == models[k as int]);
            let sector = Sector::assemble(record);
            sectors.push(sector);
            assert(sector_models(records@) == models.take(k as int));
        }
        let mut ordered: Vec<Sector> = Vec::new();
        let mut n: usize = count;
        while n > 0
            invariant
                n <= count,
                count == models.len(),
                sectors@.len() == n,
                ordered@.len() == count - n,
                forall|i: int|
                    0 <= i < sectors@.len() ==> (#[trigger] sectors@[i])@ == assembled(
                        models[count - 1 - i],
                    ),
                forall|i: int|
                    0 <= i < ordered@.len() ==> (#[trigger] ordered@[i])@ == assembled(models[i]),
            decreases n,
        {
            let sector = sectors.pop().unwrap();
            n -= 1;
            ordered.push(sector);
        }
        let map = SectorMap { sectors: ordered };
        assert(map@ == assembled_map(models));
        Ok(map)
    }
}

/// Once a record of a list is at fault, so is every longer run of the
/// list, with the same fault.
proof fn lemma_records_fault_persists(records: Seq<SectorModel>, short: int)
    requires
        0 <= short <= records.len(),
        records_fault(records.take(short)) is Some,
    ensures
        records_fault(records) == records_fault(records.take(short)),
    decreases records.len() - short,
{
    if short == records.len() {
        assert(records.take(short) == records);
    } else {
        let shorter = records.drop_last();
        assert(shorter.take(short) == records.take(short));
        lemma_records_fault_persists(shorter, short);
    }
}

/// Loads a map from the bytes of a map file.
///
/// Succeeds exactly on the files that [`decoded`] accepts, with one sector
/// for each record of the file, in file order; any other file is refused
/// with its first fault, and no part of it is handed back.
pub fn load_map(data: &[u8]) -> (loaded: Result<SectorMap, LoadError>)
    ensures
        match decoded(data@) {
            Ok(records) => loaded matches Ok(map) && map@ == assembled_map(records),
            Err(fault) => loaded == Err::<SectorMap, LoadError>(fault),
        },
{
    let records = match parse(data) {
        Ok(records) => records,
        Err(fault) => { return Err(fault); },
    };
    proof {
        lemma_decoded_well_formed(data@);
        lemma_faultless_records(sector_models(records@));
    }
    SectorMap::from_records(records)
}

/// In every valid sector, each index of each render mesh names a vertex of
/// that mesh, each corner of each collision triangle names a point of its
/// collision mesh, and floor and wall each have a triangle to collide with.
pub proof fn lemma_valid_sector_indices(sector: SectorView)
    requires
        sector.valid(),
    ensures
        sector.floor_mesh.indices_in_range(),
        sector.ceiling_mesh.indices_in_range(),
        sector.wall_mesh.indices_in_range(),
        sector.floor_collider.triangles_in_range(),
        sector.wall_collider.triangles_in_range(),
        sector.floor_collider.triangles.len() >= 1,
        sector.wall_collider.triangles.len() >= 1,
{
    lemma_collision_triangles_in_range(sector.floor_mesh);
    lemma_collision_triangles_in_range(sector.wall_mesh);
}

/// Every sector of a map loaded from a file is valid, and so has all its
/// indices in range.
pub proof fn lemma_loaded_indices_valid(bytes: Seq<u8>, k: int)
    requires
        decoded(bytes) is Ok,
        0 <= k < decoded(bytes).unwrap().len(),
    ensures
        ({
            let sector = assembled_map(decoded(bytes).unwrap())[k];
            &&& sector.valid()
            &&& sector.floor_mesh.indices_in_range()
            &&& sector.ceiling_mesh.indices_in_range()
            &&& sector.wall_mesh.indices_in_range()
            &&& sector.floor_collider.triangles_in_range()
            &&& sector.wall_collider.triangles_in_range()
            &&& sector.floor_collider.triangles.len() >= 1
            &&& sector.wall_collider.triangles.len() >= 1
        }),
{
    lemma_decoded_well_formed(bytes);
    let record = decoded(bytes).unwrap()[k];
    assert(record.well_formed());
    lemma_valid_sector_indices(assembled(record));
}

/// A loaded map has exactly the sectors that the file's header declares.
pub proof fn lemma_loaded_sector_count(bytes: Seq<u8>)
    requires
        decoded(bytes) is Ok,
    ensures
        assembled_map(decoded(bytes).unwrap()).len() == declared_sectors(bytes),
{
    lemma_decoded_well_formed(bytes);
}

/// A file written for encodable sectors loads, and the loaded map has one
/// sector for each of them, in order, with the render meshes as they were
/// written and a triangle in every floor and wall.
pub proof fn lemma_written_map_loads(sectors: Seq<SectorModel>)
    requires
        encodable(sectors),
    ensures
        decoded(encoded(sectors)) is Ok,
        assembled_map(decoded(encoded(sectors)).unwrap()) == assembled_map(sectors),
        assembled_map(sectors).len() == sectors.len(),
        forall|k: int|
            0 <= k < sectors.len() ==> {
                &&& (#[trigger] assembled_map(sectors)[k]).valid()
                &&& assembled_map(sectors)[k].record() == sectors[k]
                &&& assembled_map(sectors)[k].floor_collider.triangles.len() >= 1
                &&& assembled_map(sectors)[k].wall_collider.triangles.len() >= 1
            },
{
    lemma_round_trip(sectors);
    assert forall|k: int| 0 <= k < sectors.len() implies {
        &&& (#[trigger] assembled_map(sectors)[k]).valid()
        &&& assembled_map(sectors)[k].record() == sectors[k]
        &&& assembled_map(sectors)[k].floor_collider.triangles.len() >= 1
        &&& assembled_map(sectors)[k].wall_collider.triangles.len() >= 1
    } by {
        assert(sectors[k].well_formed());
    }
}

/// In every valid sector, each collision mesh has one point for each vertex
/// of its render mesh, and each coordinate of the point is the binary32
/// quotient of the vertex's coordinate by the unit factor.
pub proof fn lemma_sector_units_consistent(sector: SectorView, i: int, axis: int)
    requires
        sector.valid(),
        0 <= axis < 3,
    ensures
        sector.floor_collider.points.len() == sector.floor_mesh.vertices.len(),
        sector.wall_collider.points.len() == sector.wall_mesh.vertices.len(),
        0 <= i < sector.floor_mesh.vertices.len() ==> is_quarter_of(
            sector.floor_collider.points[i][axis],
            sector.floor_mesh.vertices[i].position[axis],
        ),
        0 <= i < sector.wall_mesh.vertices.len() ==> is_quarter_of(
            sector.wall_collider.points[i][axis],
            sector.wall_mesh.vertices[i].position[axis],
        ),
{
    if 0 <= i < sector.floor_mesh.vertices.len() {
        lemma_collision_points_scaled(sector.floor_mesh, i, axis);
    }
    if 0 <= i < sector.wall_mesh.vertices.len() {
        lemma_collision_points_scaled(sector.wall_mesh, i, axis);
    }
}

} // verus!
