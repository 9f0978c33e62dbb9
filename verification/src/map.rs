use vstd::prelude::*;
use crate::scene::{Bits3, Entity, MeshType, mesh_code, mesh_from_code};
use crate::files::{
    file_stem, last_segment, lemma_last_index_of_at, map_name_of_file, map_name_of_entry,
    map_names_in,
};
use crate::text::{lemma_lex_order_total, lex_order, sort_strings, string_views};

verus! {

/// Newest `.mpht` format version; it is the one written.
pub const MAP_FORMAT_VERSION: u16 = 3;

/// Bytes before the first entity record: magic, version, entity count,
/// spawn position, spawn angles and 14 reserved bytes.
pub const MAP_HEADER_LEN: usize = 48;

/// Bytes of one entity record.
pub const ENTITY_RECORD_LEN: usize = 52;

/// Bit pattern of the `f32` value 28.0 (default spawn height).
pub const SPAWN_HEIGHT_BITS: u32 = 0x41E0_0000;

/// A map as stored on disk: its name (the file stem), spawn point, spawn
/// view angles (yaw, pitch, roll) and entities.
#[derive(Debug, Clone)]
pub struct MapData {
    pub name: String,
    pub spawn_position: Bits3,
    pub spawn_angles: Bits3,
    pub entities: Vec<Entity>,
}

/// Why a byte buffer is not a readable map.
#[derive(Debug, Clone, Copy, PartialEq, Eq, Structural)]
pub enum MapError {
    /// The data ends before the header or an announced entity record.
    Truncated,
    /// The data does not start with `MPHT`.
    BadMagic,
    /// The header names a format newer than this reader.
    UnsupportedVersion(u16),
}

// ---------------------------------------------------------------------
// The byte layout, as spec functions.
// ---------------------------------------------------------------------

pub open spec fn le_u16(v: u16) -> Seq<u8> {
    seq![(v % 256) as u8, (v / 256) as u8]
}

pub open spec fn le_u32(v: u32) -> Seq<u8> {
    seq![(v % 256) as u8, ((v / 256) % 256) as u8, ((v / 65536) % 256) as u8, (v / 16777216) as u8]
}

pub open spec fn bits3_bytes(b: Bits3) -> Seq<u8> {
    le_u32(b.x) + le_u32(b.y) + le_u32(b.z)
}

/// Bit 0 holds the collision flag, bits 1..7 the (7-bit) group id.
pub open spec fn collision_byte(has_collision: bool, group_id: u8) -> u8 {
    ((group_id % 128) * 2 + if has_collision { 1int } else { 0int }) as u8
}

pub open spec fn entity_bytes(e: Entity) -> Seq<u8> {
    bits3_bytes(e.position) + bits3_bytes(e.rotation) + bits3_bytes(e.scale) + bits3_bytes(e.color)
        + seq![
        mesh_code(e.mesh_type),
        (e.texture_index % 256) as u8,
        collision_byte(e.has_collision, e.group_id),
        0u8,
    ]
}

pub open spec fn entities_bytes(s: Seq<Entity>) -> Seq<u8>
    decreases s.len(),
{
    if s.len() == 0 {
        Seq::empty()
    } else {
        entities_bytes(s.drop_last()) + entity_bytes(s.last())
    }
}

pub open spec fn magic_bytes() -> Seq<u8> {
    seq![0x4Du8, 0x50u8, 0x48u8, 0x54u8]
}

pub open spec fn header_bytes(count: nat, spawn_position: Bits3, spawn_angles: Bits3) -> Seq<u8> {
    magic_bytes() + le_u16(MAP_FORMAT_VERSION) + le_u32(count as u32) + bits3_bytes(spawn_position)
        + bits3_bytes(spawn_angles) + Seq::new(14, |i: int| 0u8)
}

/// The file written for a map: header, then one record per entity. The
/// entity count is stored as a `u32` (truncated, as `len() as u32`).
pub open spec fn map_bytes(spawn_position: Bits3, spawn_angles: Bits3, entities: Seq<Entity>) -> Seq<u8> {
    header_bytes(entities.len(), spawn_position, spawn_angles) + entities_bytes(entities)
}

pub open spec fn read_u16(b: Seq<u8>, off: int) -> u16 {
    (b[off] + 256 * b[off + 1]) as u16
}

pub open spec fn read_u32(b: Seq<u8>, off: int) -> u32 {
    (b[off] + 256 * b[off + 1] + 65536 * b[off + 2] + 16777216 * b[off + 3]) as u32
}

pub open spec fn read_bits3(b: Seq<u8>, off: int) -> Bits3 {
    Bits3 { x: read_u32(b, off), y: read_u32(b, off + 4), z: read_u32(b, off + 8) }
}

pub open spec fn has_magic(b: Seq<u8>) -> bool {
    b[0] == 0x4Du8 && b[1] == 0x50u8 && b[2] == 0x48u8 && b[3] == 0x54u8
}

/// The entity stored in the record at `off`. Version 3 packs collision
/// (bit 0) and group (bits 1..7) in byte 50; version 2 stores a collision
/// flag there; older files carry neither (collision on, group 0).
pub open spec fn decode_entity(b: Seq<u8>, off: int, version: u16) -> Entity {
    let cb = b[off + 50];
    Entity {
        position: read_bits3(b, off),
        rotation: read_bits3(b, off + 12),
        scale: read_bits3(b, off + 24),
        mesh_type: mesh_from_code(b[off + 48]),
        color: read_bits3(b, off + 36),
        texture_index: b[off + 49] as usize,
        has_collision: if version >= 3 {
            cb % 2 == 1
        } else if version >= 2 {
            cb != 0
        } else {
            true
        },
        group_id: if version >= 3 {
            cb / 2
        } else {
            0
        },
    }
}

/// What reading a map file gives: the spawn position, spawn angles and
/// entities, or the first problem met while reading the file in order
/// (a read that runs past the end is `Truncated`). Bytes after the last
/// announced record are ignored.
pub open spec fn decode_file(b: Seq<u8>) -> Result<(Bits3, Bits3, Seq<Entity>), MapError> {
    if b.len() < 4 {
        Err(MapError::Truncated)
    } else if !has_magic(b) {
        Err(MapError::BadMagic)
    } else if b.len() < 6 {
        Err(MapError::Truncated)
    } else if read_u16(b, 4) > MAP_FORMAT_VERSION {
        Err(MapError::UnsupportedVersion(read_u16(b, 4)))
    } else if b.len() < MAP_HEADER_LEN + ENTITY_RECORD_LEN * read_u32(b, 6) {
        Err(MapError::Truncated)
    } else {
        Ok(
            (
                read_bits3(b, 10),
                read_bits3(b, 22),
                Seq::new(
                    read_u32(b, 6) as nat,
                    |i: int| decode_entity(b, MAP_HEADER_LEN + ENTITY_RECORD_LEN * i, read_u16(b, 4)),
                ),
            ),
        )
    }
}


/// The `count` entity records after the header, or `Truncated` when the
/// data ends before the last of them.
pub open spec fn records(b: Seq<u8>, count: u32, version: u16) -> Result<Seq<Entity>, MapError> {
    if count > 0 && b.len() < MAP_HEADER_LEN + ENTITY_RECORD_LEN * count {
        Err(MapError::Truncated)
    } else {
        Ok(
            Seq::new(
                count as nat,
                |i: int| decode_entity(b, MAP_HEADER_LEN + ENTITY_RECORD_LEN * i, version),
            ),
        )
    }
}

/// A buffer with the magic whose header ends before the fields that are
/// read next: the version (6 bytes), or, for a readable version, the spawn
/// angles (34 bytes).
pub open spec fn header_cut_short(b: Seq<u8>) -> bool {
    &&& b.len() >= 4
    &&& has_magic(b)
    &&& (b.len() < 6 || (read_u16(b, 4) <= MAP_FORMAT_VERSION && b.len() < 34))
}

/// What reading a map from an in-memory buffer gives: `BadMagic` when the
/// buffer does not start with `MPHT` (shorter ones included), the version
/// check, then the spawn point and angles and the announced records; only a
/// missing record is `Truncated`, so a header of 34 bytes or more with no
/// records is a map with no entities.
pub open spec fn decode_buffer(b: Seq<u8>) -> Result<(Bits3, Bits3, Seq<Entity>), MapError> {
    if b.len() < 4 || !has_magic(b) {
        Err(MapError::BadMagic)
    } else if read_u16(b, 4) > MAP_FORMAT_VERSION {
        Err(MapError::UnsupportedVersion(read_u16(b, 4)))
    } else {
        match records(b, read_u32(b, 6), read_u16(b, 4)) {
            Err(e) => Err(e),
            Ok(es) => Ok((read_bits3(b, 10), read_bits3(b, 22), es)),
        }
    }
}

/// On a buffer that holds a whole header, the buffer reader and the file
/// reader agree.
pub proof fn lemma_buffer_matches_file(b: Seq<u8>)
    requires
        b.len() >= MAP_HEADER_LEN,
    ensures
        decode_buffer(b) == decode_file(b),
{
}

// ---------------------------------------------------------------------
// Writing.
// ---------------------------------------------------------------------

fn push_le_u16(out: &mut Vec<u8>, v: u16)
    ensures
        final(out)@ == old(out)@ + le_u16(v),
{
    out.push((v % 256) as u8);
    out.push((v / 256) as u8);
    assert(final(out)@ =~= old(out)@ + le_u16(v));
}

fn push_le_u32(out: &mut Vec<u8>, v: u32)
    ensures
        final(out)@ == old(out)@ + le_u32(v),
{
    out.push((v % 256) as u8);
    out.push(((v / 256) % 256) as u8);
    out.push(((v / 65536) % 256) as u8);
    out.push((v / 16777216) as u8);
    assert(final(out)@ =~= old(out)@ + le_u32(v));
}

fn push_bits3(out: &mut Vec<u8>, b: Bits3)
    ensures
        final(out)@ == old(out)@ + bits3_bytes(b),
{
    push_le_u32(out, b.x);
    push_le_u32(out, b.y);
    push_le_u32(out, b.z);
    assert(final(out)@ =~= old(out)@ + bits3_bytes(b));
}

/// The packed collision byte of a version-3 entity record.
pub fn pack_collision_byte(has_collision: bool, group_id: u8) -> (b: u8)
    ensures
        b == collision_byte(has_collision, group_id),
{
    let flag: u8 = if has_collision { 1 } else { 0 };
    (group_id % 128) * 2 + flag
}

fn push_entity(out: &mut Vec<u8>, e: &Entity)
    ensures
        final(out)@ == old(out)@ + entity_bytes(*e),
{
    push_bits3(out, e.position);
    push_bits3(out, e.rotation);
    push_bits3(out, e.scale);
    push_bits3(out, e.color);
    out.push(e.mesh_type.to_byte());
    out.push((e.texture_index % 256) as u8);
    out.push(pack_collision_byte(e.has_collision, e.group_id));
    out.push(0u8);
    assert(final(out)@ =~= old(out)@ + entity_bytes(*e));
}

fn push_header(out: &mut Vec<u8>, count: usize, spawn_position: Bits3, spawn_angles: Bits3)
    ensures
        final(out)@ == old(out)@ + header_bytes(count as nat, spawn_position, spawn_angles),
{
    out.push(0x4Du8);
    out.push(0x50u8);
    out.push(0x48u8);
    out.push(0x54u8);
    push_le_u16(out, MAP_FORMAT_VERSION);
    push_le_u32(out, count as u32);
    push_bits3(out, spawn_position);
    push_bits3(out, spawn_angles);
    let ghost before_reserved = out@;
    let mut k: usize = 0;
    while k < 14
        invariant
            k <= 14,
            out@ == before_reserved + Seq::new(k as nat, |i: int| 0u8),
        decreases 14 - k,
    {
        out.push(0u8);
        k = k + 1;
        assert(out@ =~= before_reserved + Seq::new(k as nat, |i: int| 0u8));
    }
    assert(final(out)@ =~= old(out)@ + header_bytes(count as nat, spawn_position, spawn_angles));
}


// ---------------------------------------------------------------------
// Reading.
// ---------------------------------------------------------------------

fn read_u16_at(b: &[u8], off: usize) -> (v: u16)
    requires
        off + 2 <= b.len(),
    ensures
        v == read_u16(b@, off as int),
{
    (b[off] as u16) + (b[off + 1] as u16) * 256
}

fn read_u32_at(b: &[u8], off: usize) -> (v: u32)
    requires
        off + 4 <= b.len(),
    ensures
        v == read_u32(b@, off as int),
{
    (b[off] as u32) + (b[off + 1] as u32) * 256 + (b[off + 2] as u32) * 65536 + (b[off + 3] as u32)
        * 16777216
}

fn read_bits3_at(b: &[u8], off: usize) -> (v: Bits3)
    requires
        off + 12 <= b.len(),
    ensures
        v == read_bits3(b@, off as int),
{
    Bits3 { x: read_u32_at(b, off), y: read_u32_at(b, off + 4), z: read_u32_at(b, off + 8) }
}

fn read_entity_at(b: &[u8], off: usize, version: u16) -> (e: Entity)
    requires
        off + ENTITY_RECORD_LEN <= b.len(),
    ensures
        e == decode_entity(b@, off as int, version),
{
    let cb = b[off + 50];
    let (has_collision, group_id) = if version >= 3 {
        (cb % 2 == 1, cb / 2)
    } else if version >= 2 {
        (cb != 0, 0u8)
    } else {
        (true, 0u8)
    };
    Entity {
        position: read_bits3_at(b, off),
        rotation: read_bits3_at(b, off + 12),
        scale: read_bits3_at(b, off + 24),
        mesh_type: MeshType::from_byte(b[off + 48]),
        color: read_bits3_at(b, off + 36),
        texture_index: b[off + 49] as usize,
        has_collision,
        group_id,
    }
}

/// Reads the `count` records that follow the header.
fn read_records(bytes: &[u8], count: u32, version: u16) -> (res: Result<Vec<Entity>, MapError>)
    ensures
        match records(bytes@, count, version) {
            Ok(es) => res is Ok && res->Ok_0@ == es,
            Err(e) => res == Err::<Vec<Entity>, MapError>(e),
        },
{
    let len = bytes.len();
    let ghost want = Seq::new(
        count as nat,
        |k: int| decode_entity(bytes@, MAP_HEADER_LEN + ENTITY_RECORD_LEN * k, version),
    );
    let mut entities: Vec<Entity> = Vec::new();
    if count == 0 {
        assert(entities@ =~= want);
        return Ok(entities);
    }
    if len < MAP_HEADER_LEN {
        return Err(MapError::Truncated);
    }
    let mut offset: usize = MAP_HEADER_LEN;
    let mut i: u32 = 0;
    while i < count
        invariant
            len == bytes@.len(),
            len >= MAP_HEADER_LEN,
            count > 0,
            i <= count,
            offset == MAP_HEADER_LEN + ENTITY_RECORD_LEN * i,
            offset <= len,
            want == Seq::new(
                count as nat,
                |k: int| decode_entity(bytes@, MAP_HEADER_LEN + ENTITY_RECORD_LEN * k, version),
            ),
            entities@ == want.take(i as int),
        decreases count - i,
    {
        if len - offset < ENTITY_RECORD_LEN {
            return Err(MapError::Truncated);
        }
        let e = read_entity_at(bytes, offset, version);
        assert(want[i as int] == e);
        entities.push(e);
        offset = offset + ENTITY_RECORD_LEN;
        i = i + 1;
        assert(entities@ =~= want.take(i as int));
    }
    assert(entities@ =~= want);
    Ok(entities)
}

// ---------------------------------------------------------------------
// Maps and the maps directory.
// ---------------------------------------------------------------------

impl MapData {
    /// An empty map named `name`, spawning at (0, 28, 0) facing yaw 0.
    pub fn new(name: &str) -> (m: MapData)
        ensures
            m.name@ == name@,
            m.spawn_position == (Bits3 { x: 0, y: SPAWN_HEIGHT_BITS, z: 0 }),
            m.spawn_angles == (Bits3 { x: 0, y: 0, z: 0 }),
            m.entities@ == Seq::<Entity>::empty(),
    {
        MapData {
            name: name.to_owned(),
            spawn_position: Bits3 { x: 0, y: SPAWN_HEIGHT_BITS, z: 0 },
            spawn_angles: Bits3 { x: 0, y: 0, z: 0 },
            entities: Vec::new(),
        }
    }

    /// Appends an entity.
    pub fn add_entity(&mut self, entity: Entity)
        ensures
            final(self).entities@ == old(self).entities@.push(entity),
            final(self).name == old(self).name,
            final(self).spawn_position == old(self).spawn_position,
            final(self).spawn_angles == old(self).spawn_angles,
    {
        self.entities.push(entity);
    }

    /// Removes and returns the entity at `index`; `None` (and no change)
    /// when there is none.
    pub fn remove_entity(&mut self, index: usize) -> (r: Option<Entity>)
        ensures
            index < old(self).entities@.len() ==> r == Some(old(self).entities@[index as int])
                && final(self).entities@ == old(self).entities@.remove(index as int),
            index >= old(self).entities@.len() ==> r is None && final(self).entities@ == old(
                self,
            ).entities@,
            final(self).name == old(self).name,
            final(self).spawn_position == old(self).spawn_position,
            final(self).spawn_angles == old(self).spawn_angles,
    {
        if index < self.entities.len() {
            Some(self.entities.remove(index))
        } else {
            None
        }
    }
}

/// The maps directory, relative to the game's working directory.
pub const MAPS_DIR: &'static str = "assets/maps";

/// The map list and the name of the loaded map.
pub struct MapManager {
    pub current_map: String,
    pub available_maps: Vec<String>,
}

/// The sorted list of maps found among directory entries.
pub open spec fn map_list(entries: Seq<Seq<char>>) -> Seq<Seq<char>> {
    map_names_in(entries).sort_by(lex_order())
}

/// The map list is in order and holds exactly the stems of the `.mpht`
/// entries, each as often as it occurs.
pub proof fn lemma_map_list_sorted(entries: Seq<Seq<char>>)
    ensures
        vstd::relations::sorted_by(map_list(entries), lex_order()),
        map_list(entries).to_multiset() == map_names_in(entries).to_multiset(),
{
    lemma_lex_order_total();
    map_names_in(entries).lemma_sort_by_ensures(lex_order());
}

fn collect_map_names(entries: &Vec<String>) -> (names: Vec<String>)
    ensures
        string_views(names@) == map_names_in(string_views(entries@)),
{
    let n = entries.len();
    let mut names: Vec<String> = Vec::new();
    let mut i: usize = 0;
    while i < n
        invariant
            n == entries@.len(),
            i <= n,
            string_views(names@) == map_names_in(string_views(entries@).take(i as int)),
        decreases n - i,
    {
        let ghost before = names@;
        let ghost t = string_views(entries@).take(i + 1);
        assert(t.drop_last() =~= string_views(entries@).take(i as int));
        assert(t.last() == entries@[i as int]@);
        match map_name_of_file(entries[i].as_str()) {
            Some(s) => {
                names.push(s);
                assert(string_views(names@) =~= string_views(before).push(names@.last()@));
            },
            None => {},
        }
        i = i + 1;
    }
    assert(string_views(entries@).take(n as int) =~= string_views(entries@));
    names
}

impl MapManager {
    /// A manager with no map loaded and the list read from the entries of
    /// the maps directory.
    pub fn new(dir_entries: &Vec<String>) -> (m: MapManager)
        ensures
            m.current_map@ == Seq::<char>::empty(),
            string_views(m.available_maps@) == map_list(string_views(dir_entries@)),
    {
        let mut manager = MapManager { current_map: String::new(), available_maps: Vec::new() };
        manager.refresh_list(dir_entries);
        manager
    }

    /// Rebuilds the map list from the names of the entries of the maps
    /// directory: the stems of the `*.mpht` entries, sorted.
    pub fn refresh_list(&mut self, dir_entries: &Vec<String>)
        ensures
            string_views(final(self).available_maps@) == map_list(string_views(dir_entries@)),
            final(self).current_map == old(self).current_map,
    {
        let names = collect_map_names(dir_entries);
        self.available_maps = sort_strings(&names);
    }

    /// The file a map named `name` is stored in.
    pub fn map_path(name: &str) -> (p: String)
        ensures
            p@ == MAPS_DIR@ + seq!['/'] + name@ + seq!['.', 'm', 'p', 'h', 't'],
    {
        let mut p = MAPS_DIR.to_owned();
        p.append("/");
        p.append(name);
        p.append(".mpht");
        proof {
            reveal_strlit("/");
            reveal_strlit(".mpht");
        }
        p
    }

    /// The map read from the contents `bytes` of a map file, named `name`,
    /// or the first problem met while reading the file (exactly
    /// `decode_file`).
    pub fn decode_map_file(bytes: &[u8], name: &str) -> (res: Result<MapData, MapError>)
        ensures
            match decode_file(bytes@) {
                Ok((p, a, es)) => {
                    &&& res is Ok
                    &&& res->Ok_0.name@ == name@
                    &&& res->Ok_0.spawn_position == p
                    &&& res->Ok_0.spawn_angles == a
                    &&& res->Ok_0.entities@ == es
                },
                Err(e) => res == Err::<MapData, MapError>(e),
            },
    {
        let len = bytes.len();
        if len < 4 {
            return Err(MapError::Truncated);
        }
        if !(bytes[0] == 0x4Du8 && bytes[1] == 0x50u8 && bytes[2] == 0x48u8 && bytes[3] == 0x54u8) {
            return Err(MapError::BadMagic);
        }
        if len < 6 {
            return Err(MapError::Truncated);
        }
        let version = read_u16_at(bytes, 4);
        if version > MAP_FORMAT_VERSION {
            return Err(MapError::UnsupportedVersion(version));
        }
        if len < MAP_HEADER_LEN {
            return Err(MapError::Truncated);
        }
        let count = read_u32_at(bytes, 6);
        let spawn_position = read_bits3_at(bytes, 10);
        let spawn_angles = read_bits3_at(bytes, 22);
        match read_records(bytes, count, version) {
            Err(e) => Err(e),
            Ok(entities) => Ok(MapData { name: name.to_owned(), spawn_position, spawn_angles, entities }),
        }
    }

    /// The map held in the buffer `bytes`, named `name`, or why it cannot
    /// be read (exactly `decode_buffer`). A buffer that starts with the
    /// magic but ends inside the version or, for a readable version, before
    /// the spawn angles is outside what this reader takes.
    pub fn load_from_bytes(bytes: &[u8], name: &str) -> (res: Result<MapData, MapError>)
        requires
            !header_cut_short(bytes@),
        ensures
            match decode_buffer(bytes@) {
                Ok((p, a, es)) => {
                    &&& res is Ok
                    &&& res->Ok_0.name@ == name@
                    &&& res->Ok_0.spawn_position == p
                    &&& res->Ok_0.spawn_angles == a
                    &&& res->Ok_0.entities@ == es
                },
                Err(e) => res == Err::<MapData, MapError>(e),
            },
    {
        let len = bytes.len();
        if len < 4 || !(bytes[0] == 0x4Du8 && bytes[1] == 0x50u8 && bytes[2] == 0x48u8 && bytes[3]
            == 0x54u8) {
            return Err(MapError::BadMagic);
        }
        let version = read_u16_at(bytes, 4);
        if version > MAP_FORMAT_VERSION {
            return Err(MapError::UnsupportedVersion(version));
        }
        let count = read_u32_at(bytes, 6);
        let spawn_position = read_bits3_at(bytes, 10);
        let spawn_angles = read_bits3_at(bytes, 22);
        match read_records(bytes, count, version) {
            Err(e) => Err(e),
            Ok(entities) => Ok(MapData { name: name.to_owned(), spawn_position, spawn_angles, entities }),
        }
    }

    /// The bytes of the map file for `data` (format version 3).
    pub fn save_to_bytes(data: &MapData) -> (out: Vec<u8>)
        ensures
            out@ == map_bytes(data.spawn_position, data.spawn_angles, data.entities@),
    {
        let n = data.entities.len();
        let mut out: Vec<u8> = Vec::new();
        push_header(&mut out, n, data.spawn_position, data.spawn_angles);
        let ghost header = out@;
        let mut i: usize = 0;
        while i < n
            invariant
                n == data.entities@.len(),
                i <= n,
                out@ == header + entities_bytes(data.entities@.take(i as int)),
            decreases n - i,
        {
            let ghost prev = out@;
            push_entity(&mut out, &data.entities[i]);
            proof {
                let t = data.entities@.take(i + 1);
                assert(t.drop_last() =~= data.entities@.take(i as int));
                assert(t.last() == data.entities@[i as int]);
            }
            i = i + 1;
            assert(out@ =~= header + entities_bytes(data.entities@.take(i as int)));
        }
        assert(data.entities@.take(n as int) =~= data.entities@);
        out
    }
}

/// A map saved under a name loads back under that name: the stem of the
/// file `map_path(name)` is `name`, for any non-empty name without `/`.
pub proof fn lemma_map_file_stem(name: Seq<char>)
    requires
        name.len() > 0,
        !name.contains('/'),
    ensures
        file_stem(last_segment(MAPS_DIR@ + seq!['/'] + name + seq!['.', 'm', 'p', 'h', 't'])) == name,
{
    let ext = seq!['.', 'm', 'p', 'h', 't'];
    let dir = MAPS_DIR@;
    let p = dir + seq!['/'] + name + ext;
    let k = dir.len() as int;
    assert(p[k] == '/');
    assert forall|j: int| k < j < p.len() implies p[j] != '/' by {
        if j < k + 1 + name.len() {
            assert(p[j] == name[j - k - 1]);
        } else {
            assert(p[j] == ext[j - k - 1 - name.len()]);
        }
    }
    lemma_last_index_of_at(p, '/', k);
    let f = name + ext;
    assert(last_segment(p) =~= f);
    let d = name.len() as int;
    assert(f[d] == '.');
    assert forall|j: int| d < j < f.len() implies f[j] != '.' by {
        assert(f[j] == ext[j - d]);
    }
    lemma_last_index_of_at(f, '.', d);
    assert(f.len() >= 6);
    assert(f != seq!['.', '.']);
    assert(f.take(d) =~= name);
}

// ---------------------------------------------------------------------
// Round trip.
// ---------------------------------------------------------------------

/// An entity as it comes back from a file: the texture index is stored
/// in one byte and the group id in seven bits.
pub open spec fn stored_entity(e: Entity) -> Entity {
    Entity { texture_index: e.texture_index % 256, group_id: e.group_id % 128, ..e }
}

proof fn lemma_le_u32_read(v: u32)
    ensures
        read_u32(le_u32(v), 0) == v,
{
    let b = le_u32(v);
    assert(b[0] == v % 256);
    assert(b[1] == (v / 256) % 256);
    assert(b[2] == (v / 65536) % 256);
    assert(b[3] == v / 16777216);
}

proof fn lemma_bits3_read(x: Bits3)
    ensures
        read_bits3(bits3_bytes(x), 0) == x,
{
    let b = bits3_bytes(x);
    lemma_le_u32_read(x.x);
    lemma_le_u32_read(x.y);
    lemma_le_u32_read(x.z);
    assert(b.subrange(0, 4) =~= le_u32(x.x));
    assert(b.subrange(4, 8) =~= le_u32(x.y));
    assert(b.subrange(8, 12) =~= le_u32(x.z));
    assert(read_u32(b, 0) == read_u32(le_u32(x.x), 0));
    assert(read_u32(b, 4) == read_u32(le_u32(x.y), 0));
    assert(read_u32(b, 8) == read_u32(le_u32(x.z), 0));
}

/// Reading an entity record at `off` only looks at the 52 bytes there.
proof fn lemma_decode_entity_local(b: Seq<u8>, off: int, r: Seq<u8>, version: u16)
    requires
        0 <= off,
        off + 52 <= b.len(),
        b.subrange(off, off + 52) == r,
    ensures
        decode_entity(b, off, version) == decode_entity(r, 0, version),
{
    assert forall|j: int| 0 <= j < 52 implies #[trigger] r[j] == b[off + j] by {
        assert(b.subrange(off, off + 52)[j] == b[off + j]);
    }
    assert(read_bits3(b, off) == read_bits3(r, 0)) by {
        assert(r[0] == b[off] && r[1] == b[off + 1] && r[2] == b[off + 2] && r[3] == b[off + 3]);
        assert(r[4] == b[off + 4] && r[5] == b[off + 5] && r[6] == b[off + 6] && r[7] == b[off + 7]);
        assert(r[8] == b[off + 8] && r[9] == b[off + 9] && r[10] == b[off + 10] && r[11] == b[off + 11]);
    }
    assert(read_bits3(b, off + 12) == read_bits3(r, 12)) by {
        assert(r[12] == b[off + 12] && r[13] == b[off + 13] && r[14] == b[off + 14] && r[15] == b[off + 15]);
        assert(r[16] == b[off + 16] && r[17] == b[off + 17] && r[18] == b[off + 18] && r[19] == b[off + 19]);
        assert(r[20] == b[off + 20] && r[21] == b[off + 21] && r[22] == b[off + 22] && r[23] == b[off + 23]);
    }
    assert(read_bits3(b, off + 24) == read_bits3(r, 24)) by {
        assert(r[24] == b[off + 24] && r[25] == b[off + 25] && r[26] == b[off + 26] && r[27] == b[off + 27]);
        assert(r[28] == b[off + 28] && r[29] == b[off + 29] && r[30] == b[off + 30] && r[31] == b[off + 31]);
        assert(r[32] == b[off + 32] && r[33] == b[off + 33] && r[34] == b[off + 34] && r[35] == b[off + 35]);
    }
    assert(read_bits3(b, off + 36) == read_bits3(r, 36)) by {
        assert(r[36] == b[off + 36] && r[37] == b[off + 37] && r[38] == b[off + 38] && r[39] == b[off + 39]);
        assert(r[40] == b[off + 40] && r[41] == b[off + 41] && r[42] == b[off + 42] && r[43] == b[off + 43]);
        assert(r[44] == b[off + 44] && r[45] == b[off + 45] && r[46] == b[off + 46] && r[47] == b[off + 47]);
    }
    assert(r[48] == b[off + 48] && r[49] == b[off + 49] && r[50] == b[off + 50]);
}

proof fn lemma_read_bits3_prefix(a: Seq<u8>, b: Seq<u8>, off: int)
    requires
        0 <= off,
        off + 12 <= a.len(),
    ensures
        read_bits3(a + b, off) == read_bits3(a, off),
{
    let c = a + b;
    assert forall|j: int| 0 <= j < 12 implies #[trigger] c[off + j] == a[off + j] by {}
    assert(c[off] == a[off] && c[off + 1] == a[off + 1] && c[off + 2] == a[off + 2] && c[off + 3] == a[off + 3]);
    assert(c[off + 4] == a[off + 4] && c[off + 5] == a[off + 5] && c[off + 6] == a[off + 6] && c[off + 7] == a[off + 7]);
    assert(c[off + 8] == a[off + 8] && c[off + 9] == a[off + 9] && c[off + 10] == a[off + 10] && c[off + 11] == a[off + 11]);
}

proof fn lemma_read_bits3_suffix(a: Seq<u8>, b: Seq<u8>)
    requires
        12 <= b.len(),
    ensures
        read_bits3(a + b, a.len() as int) == read_bits3(b, 0),
{
    let c = a + b;
    let o = a.len() as int;
    assert forall|j: int| 0 <= j < 12 implies #[trigger] c[o + j] == b[j] by {}
    assert(c[o] == b[0] && c[o + 1] == b[1] && c[o + 2] == b[2] && c[o + 3] == b[3]);
    assert(c[o + 4] == b[4] && c[o + 5] == b[5] && c[o + 6] == b[6] && c[o + 7] == b[7]);
    assert(c[o + 8] == b[8] && c[o + 9] == b[9] && c[o + 10] == b[10] && c[o + 11] == b[11]);
}

#[verifier::spinoff_prover]
#[verifier::rlimit(40)]
proof fn lemma_entity_read(e: Entity)
    ensures
        entity_bytes(e).len() == 52,
        decode_entity(entity_bytes(e), 0, MAP_FORMAT_VERSION) == stored_entity(e),
{
    let p = bits3_bytes(e.position);
    let r = bits3_bytes(e.rotation);
    let s = bits3_bytes(e.scale);
    let c = bits3_bytes(e.color);
    let t = seq![
        mesh_code(e.mesh_type),
        (e.texture_index % 256) as u8,
        collision_byte(e.has_collision, e.group_id),
        0u8,
    ];
    let b = entity_bytes(e);
    assert(b == p + r + s + c + t);
    assert(read_bits3(b, 0) == e.position) by {
        lemma_bits3_read(e.position);
        lemma_read_bits3_prefix(p + r + s + c, t, 0);
        lemma_read_bits3_prefix(p + r + s, c, 0);
        lemma_read_bits3_prefix(p + r, s, 0);
        lemma_read_bits3_prefix(p, r, 0);
    }
    assert(read_bits3(b, 12) == e.rotation) by {
        lemma_bits3_read(e.rotation);
        lemma_read_bits3_prefix(p + r + s + c, t, 12);
        lemma_read_bits3_prefix(p + r + s, c, 12);
        lemma_read_bits3_prefix(p + r, s, 12);
        lemma_read_bits3_suffix(p, r);
    }
    assert(read_bits3(b, 24) == e.scale) by {
        lemma_bits3_read(e.scale);
        lemma_read_bits3_prefix(p + r + s + c, t, 24);
        lemma_read_bits3_prefix(p + r + s, c, 24);
        lemma_read_bits3_suffix(p + r, s);
    }
    assert(read_bits3(b, 36) == e.color) by {
        lemma_bits3_read(e.color);
        lemma_read_bits3_prefix(p + r + s + c, t, 36);
        lemma_read_bits3_suffix(p + r + s, c);
    }
    assert(b[48] == mesh_code(e.mesh_type));
    assert(b[49] == (e.texture_index % 256) as u8);
    assert(b[50] == collision_byte(e.has_collision, e.group_id));
    crate::scene::lemma_mesh_code_round_trip(e.mesh_type);
    assert(decode_entity(b, 0, MAP_FORMAT_VERSION) =~= stored_entity(e));
}

#[verifier::spinoff_prover]
#[verifier::rlimit(30)]
proof fn lemma_entities_bytes(s: Seq<Entity>)
    ensures
        entities_bytes(s).len() == 52 * s.len(),
        forall|i: int|
            0 <= i < s.len() ==> #[trigger] entities_bytes(s).subrange(52 * i, 52 * i + 52)
                == entity_bytes(s[i]),
    decreases s.len(),
{
    if s.len() > 0 {
        let init = s.drop_last();
        lemma_entities_bytes(init);
        lemma_entity_read(s.last());
        let x = entities_bytes(init);
        let y = entity_bytes(s.last());
        assert(entities_bytes(s) == x + y);
        assert forall|i: int| 0 <= i < s.len() implies #[trigger] entities_bytes(s).subrange(
            52 * i,
            52 * i + 52,
        ) == entity_bytes(s[i]) by {
            if i < s.len() - 1 {
                assert(init[i] == s[i]);
                assert((x + y).subrange(52 * i, 52 * i + 52) =~= x.subrange(52 * i, 52 * i + 52));
            } else {
                assert((x + y).subrange(52 * i, 52 * i + 52) =~= y);
            }
        }
    }
}

/// Writing a map and reading the bytes back gives the same spawn
/// position, spawn angles and entities, in order; each entity comes back
/// with its texture index modulo 256 and its group id modulo 128, which
/// is all a record holds. The file reader and the buffer reader both read
/// the bytes back this way. (Beyond `u32::MAX` entities the stored count
/// wraps, so the law is stated for counts that fit.)
pub proof fn lemma_map_round_trip(spawn_position: Bits3, spawn_angles: Bits3, entities: Seq<Entity>)
    requires
        entities.len() <= u32::MAX,
    ensures
        decode_file(map_bytes(spawn_position, spawn_angles, entities)) == Ok::<
            (Bits3, Bits3, Seq<Entity>),
            MapError,
        >((spawn_position, spawn_angles, entities.map_values(|e: Entity| stored_entity(e)))),
        decode_buffer(map_bytes(spawn_position, spawn_angles, entities)) == decode_file(
            map_bytes(spawn_position, spawn_angles, entities),
        ),
        !header_cut_short(map_bytes(spawn_position, spawn_angles, entities)),
{
    let n = entities.len();
    let m = magic_bytes();
    let v = le_u16(MAP_FORMAT_VERSION);
    let c = le_u32(n as u32);
    let pp = bits3_bytes(spawn_position);
    let aa = bits3_bytes(spawn_angles);
    let z = Seq::new(14, |i: int| 0u8);
    let h = header_bytes(n, spawn_position, spawn_angles);
    let eb = entities_bytes(entities);
    let b = map_bytes(spawn_position, spawn_angles, entities);
    assert(h == m + v + c + pp + aa + z);
    assert(h.len() == 48);
    lemma_entities_bytes(entities);
    assert(b == h + eb);
    assert(b.len() == 48 + 52 * n);
    assert(has_magic(b));
    assert(read_u16(b, 4) == MAP_FORMAT_VERSION) by {
        assert(b[4] == 3 && b[5] == 0);
    }
    assert(read_u32(b, 6) == n) by {
        lemma_le_u32_read(n as u32);
        assert(b[6] == c[0] && b[7] == c[1] && b[8] == c[2] && b[9] == c[3]);
    }
    assert(read_bits3(b, 10) == spawn_position) by {
        lemma_bits3_read(spawn_position);
        lemma_read_bits3_prefix(h, eb, 10);
        lemma_read_bits3_prefix(m + v + c + pp + aa, z, 10);
        lemma_read_bits3_prefix(m + v + c + pp, aa, 10);
        lemma_read_bits3_suffix(m + v + c, pp);
    }
    assert(read_bits3(b, 22) == spawn_angles) by {
        lemma_bits3_read(spawn_angles);
        lemma_read_bits3_prefix(h, eb, 22);
        lemma_read_bits3_prefix(m + v + c + pp + aa, z, 22);
        lemma_read_bits3_suffix(m + v + c + pp, aa);
    }
    let got = Seq::new(
        read_u32(b, 6) as nat,
        |i: int| decode_entity(b, MAP_HEADER_LEN + ENTITY_RECORD_LEN * i, read_u16(b, 4)),
    );
    let want = entities.map_values(|e: Entity| stored_entity(e));
    assert forall|i: int| 0 <= i < n implies #[trigger] got[i] == want[i] by {
        let off = 48 + 52 * i;
        assert(b.subrange(off, off + 52) =~= eb.subrange(52 * i, 52 * i + 52));
        lemma_decode_entity_local(b, off, entity_bytes(entities[i]), MAP_FORMAT_VERSION);
        lemma_entity_read(entities[i]);
    }
    assert(got =~= want);
    lemma_buffer_matches_file(b);
}

// ---------------------------------------------------------------------
// Record and header layout.
// ---------------------------------------------------------------------

/// The 52-byte entity record: position at bytes 0..12, rotation at 12..24,
/// scale at 24..36, colour at 36..48 (each component a little-endian
/// `u32`, in x, y, z order), then the mesh code, the texture index's low
/// byte, the collision/group byte (collision in bit 0, group in bits
/// 1..7) and a zero byte.
pub proof fn lemma_record_layout(e: Entity)
    ensures
        entity_bytes(e).len() == ENTITY_RECORD_LEN,
        entity_bytes(e).subrange(0, 4) == le_u32(e.position.x),
        entity_bytes(e).subrange(4, 8) == le_u32(e.position.y),
        entity_bytes(e).subrange(8, 12) == le_u32(e.position.z),
        entity_bytes(e).subrange(12, 16) == le_u32(e.rotation.x),
        entity_bytes(e).subrange(16, 20) == le_u32(e.rotation.y),
        entity_bytes(e).subrange(20, 24) == le_u32(e.rotation.z),
        entity_bytes(e).subrange(24, 28) == le_u32(e.scale.x),
        entity_bytes(e).subrange(28, 32) == le_u32(e.scale.y),
        entity_bytes(e).subrange(32, 36) == le_u32(e.scale.z),
        entity_bytes(e).subrange(36, 40) == le_u32(e.color.x),
        entity_bytes(e).subrange(40, 44) == le_u32(e.color.y),
        entity_bytes(e).subrange(44, 48) == le_u32(e.color.z),
        entity_bytes(e)[48] == mesh_code(e.mesh_type),
        entity_bytes(e)[49] == e.texture_index % 256,
        entity_bytes(e)[50] % 2 == (if e.has_collision { 1int } else { 0int }),
        entity_bytes(e)[50] / 2 == e.group_id % 128,
        entity_bytes(e)[51] == 0,
{
    let b = entity_bytes(e);
    let p = bits3_bytes(e.position);
    let r = bits3_bytes(e.rotation);
    let sc = bits3_bytes(e.scale);
    let c = bits3_bytes(e.color);
    let t = seq![
        mesh_code(e.mesh_type),
        (e.texture_index % 256) as u8,
        collision_byte(e.has_collision, e.group_id),
        0u8,
    ];
    assert(b == p + r + sc + c + t);
    assert(b.subrange(0, 4) =~= le_u32(e.position.x));
    assert(b.subrange(4, 8) =~= le_u32(e.position.y));
    assert(b.subrange(8, 12) =~= le_u32(e.position.z));
    assert(b.subrange(12, 16) =~= le_u32(e.rotation.x));
    assert(b.subrange(16, 20) =~= le_u32(e.rotation.y));
    assert(b.subrange(20, 24) =~= le_u32(e.rotation.z));
    assert(b.subrange(24, 28) =~= le_u32(e.scale.x));
    assert(b.subrange(28, 32) =~= le_u32(e.scale.y));
    assert(b.subrange(32, 36) =~= le_u32(e.scale.z));
    assert(b.subrange(36, 40) =~= le_u32(e.color.x));
    assert(b.subrange(40, 44) =~= le_u32(e.color.y));
    assert(b.subrange(44, 48) =~= le_u32(e.color.z));
    assert(b[48] == mesh_code(e.mesh_type));
    assert(b[50] == collision_byte(e.has_collision, e.group_id));
}

/// Reading a record at `off` takes the position from bytes 0..12 of the
/// record, the rotation from 12..24, the scale from 24..36 and the colour
/// from 36..48 (little-endian `u32` components), the mesh type from byte
/// 48, the texture index from byte 49, and collision and group from byte
/// 50 as the file's version says: bit 0 and bits 1..7 from version 3 on,
/// a non-zero collision byte and group 0 in version 2, collision on and
/// group 0 before.
pub proof fn lemma_record_fields(b: Seq<u8>, off: int, version: u16)
    ensures
        decode_entity(b, off, version).position == (Bits3 {
            x: read_u32(b, off),
            y: read_u32(b, off + 4),
            z: read_u32(b, off + 8),
        }),
        decode_entity(b, off, version).rotation == (Bits3 {
            x: read_u32(b, off + 12),
            y: read_u32(b, off + 16),
            z: read_u32(b, off + 20),
        }),
        decode_entity(b, off, version).scale == (Bits3 {
            x: read_u32(b, off + 24),
            y: read_u32(b, off + 28),
            z: read_u32(b, off + 32),
        }),
        decode_entity(b, off, version).color == (Bits3 {
            x: read_u32(b, off + 36),
            y: read_u32(b, off + 40),
            z: read_u32(b, off + 44),
        }),
        decode_entity(b, off, version).mesh_type == mesh_from_code(b[off + 48]),
        decode_entity(b, off, version).texture_index == b[off + 49],
        version >= 3 ==> decode_entity(b, off, version).has_collision == (b[off + 50] % 2 == 1)
            && decode_entity(b, off, version).group_id == b[off + 50] / 2,
        version == 2 ==> decode_entity(b, off, version).has_collision == (b[off + 50] != 0)
            && decode_entity(b, off, version).group_id == 0,
        version < 2 ==> decode_entity(b, off, version).has_collision
            && decode_entity(b, off, version).group_id == 0,
{
}

/// A little-endian `u32` reads back as the value written.
pub proof fn lemma_le_u32_reads_back(v: u32, b: Seq<u8>, off: int)
    requires
        0 <= off,
        off + 4 <= b.len(),
        b.subrange(off, off + 4) == le_u32(v),
    ensures
        read_u32(b, off) == v,
{
    assert(b[off] == le_u32(v)[0]);
    assert(b[off + 1] == le_u32(v)[1]);
    assert(b[off + 2] == le_u32(v)[2]);
    assert(b[off + 3] == le_u32(v)[3]);
    lemma_le_u32_read(v);
}

/// The file layout: `MPHT`, the version (little-endian `u16`), the entity
/// count (little-endian `u32`), the spawn position at bytes 10..22, the
/// spawn angles at 22..34, 14 zero bytes, then record `i` at
/// `48 + 52 * i`.
pub proof fn lemma_file_layout(spawn_position: Bits3, spawn_angles: Bits3, entities: Seq<Entity>)
    ensures
        map_bytes(spawn_position, spawn_angles, entities).len() == MAP_HEADER_LEN
            + ENTITY_RECORD_LEN * entities.len(),
        map_bytes(spawn_position, spawn_angles, entities).subrange(0, 4) == seq![
            'M' as u8,
            'P' as u8,
            'H' as u8,
            'T' as u8,
        ],
        map_bytes(spawn_position, spawn_angles, entities).subrange(4, 6) == le_u16(MAP_FORMAT_VERSION),
        map_bytes(spawn_position, spawn_angles, entities).subrange(6, 10) == le_u32(
            entities.len() as u32,
        ),
        map_bytes(spawn_position, spawn_angles, entities).subrange(10, 22) == bits3_bytes(
            spawn_position,
        ),
        map_bytes(spawn_position, spawn_angles, entities).subrange(22, 34) == bits3_bytes(
            spawn_angles,
        ),
        forall|k: int| 34 <= k < 48 ==> #[trigger] map_bytes(spawn_position, spawn_angles, entities)[k] == 0,
        forall|i: int|
            0 <= i < entities.len() ==> #[trigger] map_bytes(
                spawn_position,
                spawn_angles,
                entities,
            ).subrange(MAP_HEADER_LEN + ENTITY_RECORD_LEN * i, MAP_HEADER_LEN + ENTITY_RECORD_LEN * i
                + ENTITY_RECORD_LEN) == entity_bytes(entities[i]),
{
    let n = entities.len();
    let m = magic_bytes();
    let v = le_u16(MAP_FORMAT_VERSION);
    let c = le_u32(n as u32);
    let pp = bits3_bytes(spawn_position);
    let aa = bits3_bytes(spawn_angles);
    let z = Seq::new(14, |i: int| 0u8);
    let h = header_bytes(n, spawn_position, spawn_angles);
    let eb = entities_bytes(entities);
    let b = map_bytes(spawn_position, spawn_angles, entities);
    assert(h == m + v + c + pp + aa + z);
    lemma_entities_bytes(entities);
    assert(b == h + eb);
    assert(b.subrange(0, 4) =~= m);
    assert(m =~= seq!['M' as u8, 'P' as u8, 'H' as u8, 'T' as u8]);
    assert(b.subrange(4, 6) =~= v);
    assert(b.subrange(6, 10) =~= c);
    assert(b.subrange(10, 22) =~= pp);
    assert(b.subrange(22, 34) =~= aa);
    assert forall|k: int| 34 <= k < 48 implies #[trigger] b[k] == 0 by {
        assert(b[k] == z[k - 34]);
    }
    assert forall|i: int| 0 <= i < n implies #[trigger] b.subrange(48 + 52 * i, 48 + 52 * i + 52)
        == entity_bytes(entities[i]) by {
        assert(b.subrange(48 + 52 * i, 48 + 52 * i + 52) =~= eb.subrange(52 * i, 52 * i + 52));
    }
}

/// A file that reads takes its spawn position from bytes 10..22, its spawn
/// angles from 22..34, its entity count from bytes 6..10, and entity `i`
/// from the record at `48 + 52 * i`, read by the version at bytes 4..6.
pub proof fn lemma_file_fields(b: Seq<u8>)
    ensures
        decode_file(b) matches Ok((p, a, es)) ==> {
            &&& p == read_bits3(b, 10)
            &&& a == read_bits3(b, 22)
            &&& es.len() == read_u32(b, 6)
            &&& forall|i: int|
                0 <= i < es.len() ==> #[trigger] es[i] == decode_entity(
                    b,
                    MAP_HEADER_LEN + ENTITY_RECORD_LEN * i,
                    read_u16(b, 4),
                )
        },
        decode_buffer(b) matches Ok((p, a, es)) ==> {
            &&& p == read_bits3(b, 10)
            &&& a == read_bits3(b, 22)
            &&& es.len() == read_u32(b, 6)
            &&& forall|i: int|
                0 <= i < es.len() ==> #[trigger] es[i] == decode_entity(
                    b,
                    MAP_HEADER_LEN + ENTITY_RECORD_LEN * i,
                    read_u16(b, 4),
                )
        },
{
}

} // verus!
