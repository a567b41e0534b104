//! Writing a map file, and the proof that what was written is read back.
//!
//! Every field of the container is a whole number of 32-bit words, so a
//! file is written as a list of words and then laid out byte by byte.

use vstd::prelude::*;
use crate::format::{
    declared_sectors,
    decoded,
    lemma_decoded_well_formed,
    file_fault,
    file_sectors,
    header_fault,
    index_count_at,
    mesh_at,
    mesh_end,
    mesh_fault,
    sector_at,
    sector_end,
    sector_fault,
    sector_models,
    sector_start,
    sectors_fault,
    vertex_at,
    vertex_count_at,
    LoadError,
    SectorModel,
    SourceSector,
    MAGIC,
    VERSION,
};
use crate::memory::{byte_of, little_endian};
use crate::mesh::{vertex_words, MeshData, MeshModel};
use crate::wire::{u32_le, u64_le};

verus! {

/// The low half of a count.
pub open spec fn low_word(n: nat) -> u32 {
    (n % 0x1_0000_0000) as u32
}

/// The high half of a count.
pub open spec fn high_word(n: nat) -> u32 {
    (n / 0x1_0000_0000 % 0x1_0000_0000) as u32
}

/// The words of a mesh record: the two counts, the vertices, the indices.
pub open spec fn mesh_words(mesh: MeshModel) -> Seq<u32> {
    seq![
        low_word(mesh.vertices.len()),
        high_word(mesh.vertices.len()),
        low_word(mesh.indices.len()),
        high_word(mesh.indices.len()),
    ] + vertex_words(mesh.vertices) + mesh.indices
}

/// The words of a sector record: floor, ceiling, wall.
pub open spec fn sector_words(sector: SectorModel) -> Seq<u32> {
    mesh_words(sector.floor) + mesh_words(sector.ceiling) + mesh_words(sector.wall)
}

/// The words of a run of sector records.
pub open spec fn sectors_words(sectors: Seq<SectorModel>) -> Seq<u32>
    decreases sectors.len(),
{
    if sectors.len() == 0 {
        Seq::<u32>::empty()
    } else {
        sectors_words(sectors.drop_last()) + sector_words(sectors.last())
    }
}

/// The words of a map file: the header, then the sectors.
pub open spec fn file_words(sectors: Seq<SectorModel>) -> Seq<u32> {
    seq![MAGIC, VERSION, low_word(sectors.len()), high_word(sectors.len())] + sectors_words(sectors)
}

/// The map file that holds `sectors`.
pub open spec fn encoded(sectors: Seq<SectorModel>) -> Seq<u8> {
    little_endian(file_words(sectors))
}

/// What can be written and read back: every sector is well formed, and
/// every count fits its field.
pub open spec fn encodable(sectors: Seq<SectorModel>) -> bool {
    &&& sectors.len() <= u64::MAX
    &&& forall|k: int|
        0 <= k < sectors.len() ==> {
            &&& (#[trigger] sectors[k]).well_formed()
            &&& sectors[k].floor.vertices.len() <= u64::MAX
            &&& sectors[k].ceiling.vertices.len() <= u64::MAX
            &&& sectors[k].wall.vertices.len() <= u64::MAX
        }
}

/// Appends a count as two words.
fn push_count(words: &mut Vec<u32>, n: usize)
    ensures
        final(words)@ == old(words)@ + seq![low_word(n as nat), high_word(n as nat)],
{
    let wide: u64 = n as u64;
    words.push((wide % 0x1_0000_0000) as u32);
    words.push((wide / 0x1_0000_0000) as u32);
}

/// Appends a mesh record.
fn push_mesh(words: &mut Vec<u32>, mesh: &MeshData)
    ensures
        final(words)@ == old(words)@ + mesh_words(mesh@),
{
    let ghost start = words@;
    push_count(words, mesh.vertices.len());
    push_count(words, mesh.indices.len());
    let ghost counts = seq![
        low_word(mesh@.vertices.len()),
        high_word(mesh@.vertices.len()),
        low_word(mesh@.indices.len()),
        high_word(mesh@.indices.len()),
    ];
    assert(words@ == start + counts);
    let mut i: usize = 0;
    while i < mesh.vertices.len()
        invariant
            i <= mesh.vertices@.len(),
            words@ == start + counts + vertex_words(mesh@.vertices).take(6 * i),
        decreases mesh.vertices@.len() - i,
    {
        let v = &mesh.vertices[i];
        let ghost all = vertex_words(mesh@.vertices);
        proof {
            assert(all[6 * i] == v.position[0]);
            assert(all[6 * i + 1] == v.position[1]);
            assert(all[6 * i + 2] == v.position[2]);
            assert(all[6 * i + 3] == v.color[0]);
            assert(all[6 * i + 4] == v.color[1]);
            assert(all[6 * i + 5] == v.color[2]);
        }
        words.push(v.position[0]);
        words.push(v.position[1]);
        words.push(v.position[2]);
        words.push(v.color[0]);
        words.push(v.color[1]);
        words.push(v.color[2]);
        i += 1;
        assert(words@ == start + counts + all.take(6 * i));
    }
    assert(vertex_words(mesh@.vertices).take(6 * i) == vertex_words(mesh@.vertices));
    let mut j: usize = 0;
    while j < mesh.indices.len()
        invariant
            j <= mesh.indices@.len(),
            words@ == start + counts + vertex_words(mesh@.vertices) + mesh@.indices.take(j as int),
        decreases mesh.indices@.len() - j,
    {
        words.push(mesh.indices[j]);
        j += 1;
    }
    assert(mesh@.indices.take(j as int) == mesh@.indices);
    assert(words@ == start + mesh_words(mesh@));
}

/// Lays words out as bytes, each word least significant byte first.
fn words_to_bytes(words: &Vec<u32>) -> (bytes: Vec<u8>)
    ensures
        bytes@ == little_endian(words@),
{
    let mut bytes: Vec<u8> = Vec::new();
    let mut i: usize = 0;
    while i < words.len()
        invariant
            i <= words@.len(),
            bytes@ == little_endian(words@.take(i as int)),
        decreases words@.len() - i,
    {
        let w: u32 = words[i];
        let ghost before = bytes@;
        bytes.push((w % 0x100) as u8);
        bytes.push((w / 0x100 % 0x100) as u8);
        bytes.push((w / 0x1_0000 % 0x100) as u8);
        bytes.push((w / 0x100_0000 % 0x100) as u8);
        i += 1;
        proof {
            let grown = little_endian(words@.take(i as int));
            assert(bytes@.len() == grown.len());
            assert forall|k: int| 0 <= k < grown.len() implies bytes@[k] == grown[k] by {
                if k < before.len() {
                    assert(before[k] == little_endian(words@.take(i - 1))[k]);
                    assert(words@.take(i - 1)[k / 4] == words@.take(i as int)[k / 4]);
                } else {
                    assert(k / 4 == i - 1);
                }
            }
            assert(bytes@ == grown);
        }
    }
    assert(words@.take(i as int) == words@);
    bytes
}

/// Writes the map file that holds `sectors`.
///
/// Where the sectors are [`encodable`], [`lemma_round_trip`] shows that the
/// file decodes to the same sectors.
pub fn encode(sectors: &Vec<SourceSector>) -> (bytes: Vec<u8>)
    ensures
        bytes@ == encoded(sector_models(sectors@)),
{
    let ghost models = sector_models(sectors@);
    let mut words: Vec<u32> = Vec::new();
    words.push(MAGIC);
    words.push(VERSION);
    push_count(&mut words, sectors.len());
    let ghost header = seq![MAGIC, VERSION, low_word(models.len()), high_word(models.len())];
    assert(words@ == header);
    let mut k: usize = 0;
    while k < sectors.len()
        invariant
            k <= sectors@.len(),
            models == sector_models(sectors@),
            words@ == header + sectors_words(models.take(k as int)),
        decreases sectors@.len() - k,
    {
        let sector = &sectors[k];
        let ghost before = words@;
        push_mesh(&mut words, &sector.floor);
        push_mesh(&mut words, &sector.ceiling);
        push_mesh(&mut words, &sector.wall);
        k += 1;
        proof {
            let run = models.take(k as int);
            assert(run.drop_last() == models.take(k - 1));
            assert(run.last() == sector@);
            assert(words@ == before + sector_words(sector@));
            assert(words@ == header + sectors_words(run));
        }
    }
    assert(models.take(k as int) == models);
    words_to_bytes(&words)
}

/// `part` stands in `words` from index `at` on.
pub open spec fn holds_at(words: Seq<u32>, at: int, part: Seq<u32>) -> bool {
    &&& 0 <= at
    &&& at + part.len() <= words.len()
    &&& forall|j: int| at <= j < at + part.len() ==> (#[trigger] words[j]) == part[j - at]
}

/// The word at index `i` is read back from the bytes at offset `4 * i`.
proof fn lemma_read_word(words: Seq<u32>, i: int)
    requires
        0 <= i < words.len(),
    ensures
        u32_le(little_endian(words), 4 * i) == words[i],
        little_endian(words).len() == 4 * words.len(),
{
    reveal(u32_le);
    let bytes = little_endian(words);
    let w = words[i];
    assert(bytes[4 * i] == byte_of(w, 0));
    assert(bytes[4 * i + 1] == byte_of(w, 1));
    assert(bytes[4 * i + 2] == byte_of(w, 2));
    assert(bytes[4 * i + 3] == byte_of(w, 3));
}

/// A count written as two words is read back from the bytes at the offset
/// of the first.
proof fn lemma_read_count(words: Seq<u32>, i: int, n: nat)
    requires
        0 <= i,
        i + 1 < words.len(),
        words[i] == low_word(n),
        words[i + 1] == high_word(n),
        n <= u64::MAX,
    ensures
        u64_le(little_endian(words), 4 * i) == n,
{
    lemma_read_word(words, i);
    lemma_read_word(words, i + 1);
}

/// A part of a part stands where it stands in the part.
proof fn lemma_holds_within(words: Seq<u32>, at: int, whole: Seq<u32>, skip: int, part: Seq<u32>)
    requires
        holds_at(words, at, whole),
        0 <= skip,
        skip + part.len() <= whole.len(),
        forall|j: int| 0 <= j < part.len() ==> part[j] == whole[skip + j],
    ensures
        holds_at(words, at + skip, part),
{
    assert forall|j: int| at + skip <= j < at + skip + part.len() implies (#[trigger] words[j])
        == part[j - (at + skip)] by {
        assert(part[j - (at + skip)] == whole[skip + (j - (at + skip))]);
    }
}

/// Word number `j` of a part that stands at `at` is read back from the
/// bytes at offset `4 * (at + j)`.
proof fn lemma_part_word(words: Seq<u32>, at: int, part: Seq<u32>, j: int)
    requires
        holds_at(words, at, part),
        0 <= j < part.len(),
    ensures
        u32_le(little_endian(words), 4 * (at + j)) == part[j],
{
    lemma_read_word(words, at + j);
    assert(words[at + j] == part[at + j - at]);
}

/// The counts of a mesh record that stands in the words of a file are read
/// back, and the record ends where its words end.
proof fn lemma_mesh_counts_read_back(words: Seq<u32>, at: int, mesh: MeshModel)
    requires
        holds_at(words, at, mesh_words(mesh)),
        mesh.vertices.len() <= u64::MAX,
        mesh.indices.len() <= u64::MAX,
    ensures
        vertex_count_at(little_endian(words), 4 * at) == mesh.vertices.len(),
        index_count_at(little_endian(words), 4 * at) == mesh.indices.len(),
        mesh_end(little_endian(words), 4 * at) == 4 * (at + mesh_words(mesh).len()),
        mesh_words(mesh).len() == 4 + 6 * mesh.vertices.len() + mesh.indices.len(),
        little_endian(words).len() == 4 * words.len(),
{
    reveal(mesh_end);
    let bytes = little_endian(words);
    let part = mesh_words(mesh);
    assert(words[at] == part[0]);
    assert(words[at + 1] == part[1]);
    assert(words[at + 2] == part[2]);
    assert(words[at + 3] == part[3]);
    lemma_read_count(words, at, mesh.vertices.len());
    lemma_read_count(words, at + 2, mesh.indices.len());
    assert(u64_le(bytes, 4 * at + 8) == mesh.indices.len());
}

/// Vertex number `i` of a mesh record that stands in the words of a file is
/// read back.
proof fn lemma_mesh_vertex_read_back(words: Seq<u32>, at: int, mesh: MeshModel, i: int)
    requires
        holds_at(words, at, mesh_words(mesh)),
        0 <= i < mesh.vertices.len(),
    ensures
        vertex_at(little_endian(words), 4 * at + 16 + 24 * i) == mesh.vertices[i],
{
    let bytes = little_endian(words);
    let part = mesh_words(mesh);
    let all = vertex_words(mesh.vertices);
    let v = vertex_at(bytes, 4 * at + 16 + 24 * i);
    let base = 4 + 6 * i;
    lemma_part_word(words, at, part, base);
    lemma_part_word(words, at, part, base + 1);
    lemma_part_word(words, at, part, base + 2);
    lemma_part_word(words, at, part, base + 3);
    lemma_part_word(words, at, part, base + 4);
    lemma_part_word(words, at, part, base + 5);
    assert(part[base] == all[6 * i] && all[6 * i] == mesh.vertices[i].position[0]);
    assert(part[base + 1] == all[6 * i + 1] && all[6 * i + 1] == mesh.vertices[i].position[1]);
    assert(part[base + 2] == all[6 * i + 2] && all[6 * i + 2] == mesh.vertices[i].position[2]);
    assert(part[base + 3] == all[6 * i + 3] && all[6 * i + 3] == mesh.vertices[i].color[0]);
    assert(part[base + 4] == all[6 * i + 4] && all[6 * i + 4] == mesh.vertices[i].color[1]);
    assert(part[base + 5] == all[6 * i + 5] && all[6 * i + 5] == mesh.vertices[i].color[2]);
    assert(4 * (at + base) == 4 * at + 16 + 24 * i);
    assert(4 * (at + (base + 1)) == 4 * at + 16 + 24 * i + 4);
    assert(4 * (at + (base + 2)) == 4 * at + 16 + 24 * i + 8);
    assert(4 * (at + (base + 3)) == 4 * at + 16 + 24 * i + 12);
    assert(4 * (at + (base + 4)) == 4 * at + 16 + 24 * i + 16);
    assert(4 * (at + (base + 5)) == 4 * at + 16 + 24 * i + 20);
    assert(v.position =~= mesh.vertices[i].position);
    assert(v.color =~= mesh.vertices[i].color);
}

/// Index number `i` of a mesh record that stands in the words of a file is
/// read back.
proof fn lemma_mesh_index_read_back(words: Seq<u32>, at: int, mesh: MeshModel, i: int)
    requires
        holds_at(words, at, mesh_words(mesh)),
        0 <= i < mesh.indices.len(),
    ensures
        u32_le(little_endian(words), 4 * at + 16 + 24 * mesh.vertices.len() + 4 * i)
            == mesh.indices[i],
{
    let part = mesh_words(mesh);
    let j = 4 + 6 * mesh.vertices.len() + i;
    lemma_part_word(words, at, part, j);
    assert(part[j] == mesh.indices[i]);
    assert(4 * (at + j) == 4 * at + 16 + 24 * mesh.vertices.len() + 4 * i);
}

/// A mesh record that stands in the words of a file is read back from its
/// bytes as it was written.
proof fn lemma_mesh_read_back(words: Seq<u32>, at: int, mesh: MeshModel, solid: bool)
    requires
        holds_at(words, at, mesh_words(mesh)),
        mesh.vertices.len() <= u64::MAX,
        mesh.indices.len() <= u32::MAX,
        mesh.indices_in_range(),
        solid ==> mesh.indices.len() >= 3,
    ensures
        mesh_fault(little_endian(words), 4 * at, solid) is None,
        mesh_at(little_endian(words), 4 * at) == mesh,
        mesh_end(little_endian(words), 4 * at) == 4 * (at + mesh_words(mesh).len()),
{
    let bytes = little_endian(words);
    lemma_mesh_counts_read_back(words, at, mesh);
    let read = mesh_at(bytes, 4 * at);
    assert(read == mesh) by {
        reveal(mesh_at);
        assert(read.vertices.len() == mesh.vertices.len());
        assert(read.indices.len() == mesh.indices.len());
        assert forall|i: int| 0 <= i < mesh.vertices.len() implies read.vertices[i]
            == mesh.vertices[i] by {
            lemma_mesh_vertex_read_back(words, at, mesh, i);
        }
        assert forall|i: int| 0 <= i < mesh.indices.len() implies read.indices[i]
            == mesh.indices[i] by {
            lemma_mesh_index_read_back(words, at, mesh, i);
        }
        assert(read.vertices =~= mesh.vertices);
        assert(read.indices =~= mesh.indices);
    }
    assert(mesh_fault(bytes, 4 * at, solid) is None) by {
        reveal(mesh_fault);
    }
}

/// A sector record that stands in the words of a file is read back from
/// its bytes as it was written.
proof fn lemma_sector_read_back(words: Seq<u32>, at: int, sector: SectorModel)
    requires
        holds_at(words, at, sector_words(sector)),
        sector.well_formed(),
        sector.floor.vertices.len() <= u64::MAX,
        sector.ceiling.vertices.len() <= u64::MAX,
        sector.wall.vertices.len() <= u64::MAX,
    ensures
        sector_fault(little_endian(words), 4 * at) is None,
        sector_at(little_endian(words), 4 * at) == sector,
        sector_end(little_endian(words), 4 * at) == 4 * (at + sector_words(sector).len()),
{
    let whole = sector_words(sector);
    let floor = mesh_words(sector.floor);
    let ceiling = mesh_words(sector.ceiling);
    let wall = mesh_words(sector.wall);
    lemma_holds_within(words, at, whole, 0, floor);
    lemma_holds_within(words, at, whole, floor.len() as int, ceiling);
    lemma_holds_within(words, at, whole, (floor.len() + ceiling.len()) as int, wall);
    lemma_mesh_read_back(words, at, sector.floor, true);
    lemma_mesh_read_back(words, at + floor.len(), sector.ceiling, false);
    lemma_mesh_read_back(words, at + floor.len() + ceiling.len(), sector.wall, true);
    assert(4 * (at + floor.len()) == 4 * at + 4 * floor.len());
}

/// The words of the first `k` sectors open the words of all of them.
proof fn lemma_words_prefix(sectors: Seq<SectorModel>, k: int)
    requires
        0 <= k <= sectors.len(),
    ensures
        sectors_words(sectors.take(k)).len() <= sectors_words(sectors).len(),
        sectors_words(sectors).take(sectors_words(sectors.take(k)).len() as int) == sectors_words(
            sectors.take(k),
        ),
    decreases sectors.len() - k,
{
    if k == sectors.len() {
        assert(sectors.take(k) == sectors);
    } else {
        let shorter = sectors.drop_last();
        lemma_words_prefix(shorter, k);
        assert(shorter.take(k) == sectors.take(k));
    }
}

/// Sector number `k` stands in the words of the file behind the header and
/// the sectors before it.
proof fn lemma_sector_in_file(sectors: Seq<SectorModel>, k: int)
    requires
        0 <= k < sectors.len(),
    ensures
        holds_at(
            file_words(sectors),
            (4 + sectors_words(sectors.take(k)).len()) as int,
            sector_words(sectors[k]),
        ),
        sectors_words(sectors.take(k + 1)).len() == sectors_words(sectors.take(k)).len()
            + sector_words(sectors[k]).len(),
{
    let run = sectors.take(k + 1);
    assert(run.drop_last() == sectors.take(k));
    assert(run.last() == sectors[k]);
    lemma_words_prefix(sectors, k + 1);
    let all = sectors_words(sectors);
    let before = sectors_words(sectors.take(k)).len();
    let part = sector_words(sectors[k]);
    assert forall|j: int| 4 + before <= j < 4 + before + part.len() implies (
    #[trigger] file_words(sectors)[j]) == part[j - (4 + before)] by {
        assert(file_words(sectors)[j] == all[j - 4]);
        assert(all.take(sectors_words(run).len() as int)[j - 4] == sectors_words(run)[j - 4]);
    }
}

/// The first `k` sectors of a written file are read back without fault, and
/// the next record starts behind them.
proof fn lemma_sectors_read_back(sectors: Seq<SectorModel>, k: nat)
    requires
        encodable(sectors),
        k <= sectors.len(),
    ensures
        sectors_fault(encoded(sectors), k) is None,
        sector_start(encoded(sectors), k) == 4 * (4 + sectors_words(sectors.take(k as int)).len()),
        k > 0 ==> sector_at(encoded(sectors), sector_start(encoded(sectors), (k - 1) as nat))
            == sectors[k - 1],
    decreases k,
{
    if k > 0 {
        let j = (k - 1) as nat;
        lemma_sectors_read_back(sectors, j);
        lemma_sector_in_file(sectors, j as int);
        assert(sectors[j as int].well_formed());
        lemma_sector_read_back(
            file_words(sectors),
            (4 + sectors_words(sectors.take(j as int)).len()) as int,
            sectors[j as int],
        );
    } else {
        assert(sectors.take(0).len() == 0);
    }
}

/// Writing and reading are inverse: the file written for encodable sectors
/// decodes, and decodes to those sectors.
pub proof fn lemma_round_trip(sectors: Seq<SectorModel>)
    requires
        encodable(sectors),
    ensures
        decoded(encoded(sectors)) == Ok::<Seq<SectorModel>, LoadError>(sectors),
{
    let words = file_words(sectors);
    let bytes = encoded(sectors);
    let n = sectors.len();
    lemma_read_word(words, 0);
    lemma_read_word(words, 1);
    lemma_read_count(words, 2, n);
    assert(header_fault(bytes) is None);
    assert(declared_sectors(bytes) == n);
    lemma_sectors_read_back(sectors, n);
    assert(sectors.take(n as int) == sectors);
    assert(sector_start(bytes, n) == bytes.len());
    assert(file_fault(bytes) is None);
    let read = file_sectors(bytes);
    assert forall|k: int| 0 <= k < n implies read[k] == sectors[k] by {
        lemma_sectors_read_back(sectors, (k + 1) as nat);
    }
    assert(read =~= sectors);
}

/// `bytes` holds `part` from offset `at` on, word by word.
pub open spec fn reads_as(bytes: Seq<u8>, at: int, part: Seq<u32>) -> bool {
    &&& 0 <= at
    &&& at + 4 * part.len() <= bytes.len()
    &&& forall|i: int| 0 <= i < part.len() ==> u32_le(bytes, at + 4 * i) == #[trigger] part[i]
}

/// The digits of a number written to the base 256 are read off it by
/// division and remainder.
proof fn lemma_digits(b0: int, b1: int, b2: int, b3: int)
    requires
        0 <= b0 < 0x100,
        0 <= b1 < 0x100,
        0 <= b2 < 0x100,
        0 <= b3 < 0x100,
    ensures
        ({
            let x = b0 + 0x100 * b1 + 0x1_0000 * b2 + 0x100_0000 * b3;
            &&& 0 <= x < 0x1_0000_0000
            &&& x % 0x100 == b0
            &&& x / 0x100 % 0x100 == b1
            &&& x / 0x1_0000 % 0x100 == b2
            &&& x / 0x100_0000 % 0x100 == b3
        }),
{
    let x = b0 + 0x100 * b1 + 0x1_0000 * b2 + 0x100_0000 * b3;
    assert(x / 0x100 == b1 + 0x100 * b2 + 0x1_0000 * b3);
    assert(x / 0x1_0000 == b2 + 0x100 * b3);
    assert(x / 0x100_0000 == b3);
}

/// Each byte of a word that was read is the byte that it was read from.
proof fn lemma_byte_of_read(bytes: Seq<u8>, at: int, c: int)
    requires
        0 <= at,
        at + 4 <= bytes.len(),
        0 <= c < 4,
    ensures
        byte_of(u32_le(bytes, at), c) == bytes[at + c],
{
    reveal(u32_le);
    lemma_digits(
        bytes[at] as int,
        bytes[at + 1] as int,
        bytes[at + 2] as int,
        bytes[at + 3] as int,
    );
}

/// The counts of a mesh that was read fit the fields that they were read
/// from.
proof fn lemma_read_counts_fit(bytes: Seq<u8>, at: int)
    ensures
        mesh_at(bytes, at).vertices.len() <= u64::MAX,
        mesh_at(bytes, at).indices.len() <= u64::MAX,
{
    reveal(mesh_at);
}

/// A count that was read is written as the two words that it was read
/// from.
proof fn lemma_count_words(bytes: Seq<u8>, at: int)
    ensures
        low_word(u64_le(bytes, at) as nat) == u32_le(bytes, at),
        high_word(u64_le(bytes, at) as nat) == u32_le(bytes, at + 4),
{
}

/// Two parts that are held one behind the other are held as one.
proof fn lemma_reads_joined(bytes: Seq<u8>, at: int, first: Seq<u32>, second: Seq<u32>)
    requires
        reads_as(bytes, at, first),
        reads_as(bytes, at + 4 * first.len(), second),
    ensures
        reads_as(bytes, at, first + second),
{
    let whole = first + second;
    assert forall|i: int| 0 <= i < whole.len() implies u32_le(bytes, at + 4 * i)
        == #[trigger] whole[i] by {
        if i < first.len() {
            assert(whole[i] == first[i]);
        } else {
            assert(whole[i] == second[i - first.len()]);
            assert(at + 4 * i == at + 4 * first.len() + 4 * (i - first.len()));
        }
    }
}

/// A mesh record without fault holds the words that its mesh is written
/// as.
proof fn lemma_mesh_is_its_words(bytes: Seq<u8>, at: int, solid: bool)
    requires
        0 <= at,
        mesh_fault(bytes, at, solid) is None,
    ensures
        reads_as(bytes, at, mesh_words(mesh_at(bytes, at))),
        mesh_end(bytes, at) == at + 4 * mesh_words(mesh_at(bytes, at)).len(),
        mesh_end(bytes, at) <= bytes.len(),
{
    reveal(mesh_fault);
    reveal(mesh_at);
    reveal(mesh_end);
    let mesh = mesh_at(bytes, at);
    let part = mesh_words(mesh);
    let vc = mesh.vertices.len();
    let ic = mesh.indices.len();
    let all = vertex_words(mesh.vertices);
    lemma_count_words(bytes, at);
    lemma_count_words(bytes, at + 8);
    assert(part.len() == 4 + 6 * vc + ic);
    assert forall|i: int| 0 <= i < part.len() implies u32_le(bytes, at + 4 * i)
        == #[trigger] part[i] by {
        if i < 4 {
        } else if i < 4 + 6 * vc {
            let j = i - 4;
            let v = j / 6;
            let c = j % 6;
            assert(part[i] == all[j]);
            assert(mesh.vertices[v] == vertex_at(bytes, at + 16 + 24 * v));
            assert(at + 4 * i == at + 16 + 24 * v + 4 * c);
        } else {
            let j = i - 4 - 6 * vc;
            assert(part[i] == mesh.indices[j]);
            assert(at + 4 * i == at + 16 + 24 * vc + 4 * j);
        }
    }
}

/// A sector record without fault holds the words that its sector is
/// written as.
proof fn lemma_sector_is_its_words(bytes: Seq<u8>, at: int)
    requires
        0 <= at,
        sector_fault(bytes, at) is None,
    ensures
        reads_as(bytes, at, sector_words(sector_at(bytes, at))),
        sector_end(bytes, at) == at + 4 * sector_words(sector_at(bytes, at)).len(),
        sector_end(bytes, at) <= bytes.len(),
{
    let sector = sector_at(bytes, at);
    let ceiling = mesh_end(bytes, at);
    lemma_mesh_is_its_words(bytes, at, true);
    let wall = mesh_end(bytes, ceiling);
    lemma_mesh_is_its_words(bytes, ceiling, false);
    lemma_mesh_is_its_words(bytes, wall, true);
    lemma_reads_joined(bytes, at, mesh_words(sector.floor), mesh_words(sector.ceiling));
    lemma_reads_joined(
        bytes,
        at,
        mesh_words(sector.floor) + mesh_words(sector.ceiling),
        mesh_words(sector.wall),
    );
}

/// The first `k` sector records of a file without fault hold the words
/// that their sectors are written as.
proof fn lemma_sectors_are_their_words(bytes: Seq<u8>, k: nat)
    requires
        bytes.len() >= 16,
        k <= declared_sectors(bytes),
        sectors_fault(bytes, k) is None,
    ensures
        reads_as(bytes, 16, sectors_words(file_sectors(bytes).take(k as int))),
        sector_start(bytes, k) == 16 + 4 * sectors_words(file_sectors(bytes).take(k as int)).len(),
        sector_start(bytes, k) <= bytes.len(),
    decreases k,
{
    let sectors = file_sectors(bytes);
    if k == 0 {
        assert(sectors.take(0).len() == 0);
    } else {
        let j = (k - 1) as nat;
        lemma_sectors_are_their_words(bytes, j);
        let at = sector_start(bytes, j);
        lemma_sector_is_its_words(bytes, at);
        let run = sectors.take(k as int);
        assert(run.drop_last() == sectors.take(j as int));
        assert(run.last() == sector_at(bytes, at));
        lemma_reads_joined(
            bytes,
            16,
            sectors_words(sectors.take(j as int)),
            sector_words(sector_at(bytes, at)),
        );
    }
}

/// Reading and writing are inverse: a file that decodes holds encodable
/// sectors, and is, byte for byte, the file that is written for them. With
/// [`lemma_round_trip`], the files that decode are exactly the files that
/// [`encoded`] gives for encodable sectors.
pub proof fn lemma_decoded_is_canonical(bytes: Seq<u8>)
    requires
        decoded(bytes) is Ok,
    ensures
        encodable(decoded(bytes).unwrap()),
        encoded(decoded(bytes).unwrap()) == bytes,
{
    let sectors = file_sectors(bytes);
    let n = declared_sectors(bytes);
    assert(file_fault(bytes) is None);
    assert(decoded(bytes).unwrap() == sectors);
    lemma_decoded_well_formed(bytes);
    assert forall|k: int| 0 <= k < sectors.len() implies {
        &&& (#[trigger] sectors[k]).floor.vertices.len() <= u64::MAX
        &&& sectors[k].ceiling.vertices.len() <= u64::MAX
        &&& sectors[k].wall.vertices.len() <= u64::MAX
    } by {
        let at = sector_start(bytes, k as nat);
        lemma_read_counts_fit(bytes, at);
        lemma_read_counts_fit(bytes, mesh_end(bytes, at));
        lemma_read_counts_fit(bytes, mesh_end(bytes, mesh_end(bytes, at)));
    }
    assert(encodable(sectors));
    lemma_sectors_are_their_words(bytes, n);
    assert(sectors.take(n as int) == sectors);
    let header = seq![MAGIC, VERSION, low_word(n), high_word(n)];
    lemma_count_words(bytes, 8);
    assert(reads_as(bytes, 0, header));
    lemma_reads_joined(bytes, 0, header, sectors_words(sectors));
    let words = file_words(sectors);
    assert(bytes.len() == 4 * words.len());
    let written = little_endian(words);
    assert forall|j: int| 0 <= j < bytes.len() implies written[j] == bytes[j] by {
        let i = j / 4;
        assert(u32_le(bytes, 0 + 4 * i) == words[i]);
        lemma_byte_of_read(bytes, 4 * i, j % 4);
    }
    assert(written =~= bytes);
}

/// What decoding accepts, said without reference to how it reads: a file
/// decodes to a list of sectors exactly if the sectors are encodable and the
/// file is the one written for them.
pub proof fn lemma_decoding_characterized(bytes: Seq<u8>, sectors: Seq<SectorModel>)
    ensures
        decoded(bytes) == Ok::<Seq<SectorModel>, LoadError>(sectors) <==> encodable(sectors)
            && bytes == encoded(sectors),
{
    if decoded(bytes) == Ok::<Seq<SectorModel>, LoadError>(sectors) {
        lemma_decoded_is_canonical(bytes);
    }
    if encodable(sectors) && bytes == encoded(sectors) {
        lemma_round_trip(sectors);
    }
}

} // verus!
