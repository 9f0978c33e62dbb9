use vstd::prelude::*;
use crate::map::MapData;

verus! {

/// The three components of an `f32` vector, each held as its IEEE-754 bit
/// pattern (`f32::to_bits`), so that vectors can be stored, compared and
/// serialised exactly.
#[derive(Debug, Clone, Copy, PartialEq, Eq, Structural)]
pub struct Bits3 {
    pub x: u32,
    pub y: u32,
    pub z: u32,
}

/// The kind of brush an entity is drawn and collided as.
#[derive(Debug, Clone, Copy, PartialEq, Eq, Structural)]
pub enum MeshType {
    Cube,
    Floor,
    Sphere,
    Light,
    Wall,
    Metal,
    Glow,
    Ramp,
    CurvedRamp,
    Cylinder,
}

/// Byte code of a mesh type in the map file format.
pub open spec fn mesh_code(m: MeshType) -> u8 {
    match m {
        MeshType::Cube => 0,
        MeshType::Floor => 1,
        MeshType::Sphere => 2,
        MeshType::Light => 3,
        MeshType::Wall => 4,
        MeshType::Metal => 5,
        MeshType::Glow => 6,
        MeshType::Ramp => 7,
        MeshType::CurvedRamp => 8,
        MeshType::Cylinder => 9,
    }
}

/// Mesh type read back from a byte code; unknown codes read as `Cube`.
pub open spec fn mesh_from_code(b: u8) -> MeshType {
    if b == 1 {
        MeshType::Floor
    } else if b == 2 {
        MeshType::Sphere
    } else if b == 3 {
        MeshType::Light
    } else if b == 4 {
        MeshType::Wall
    } else if b == 5 {
        MeshType::Metal
    } else if b == 6 {
        MeshType::Glow
    } else if b == 7 {
        MeshType::Ramp
    } else if b == 8 {
        MeshType::CurvedRamp
    } else if b == 9 {
        MeshType::Cylinder
    } else {
        MeshType::Cube
    }
}

impl MeshType {
    /// The byte stored for this mesh type in a map file.
    pub fn to_byte(self) -> (b: u8)
        ensures
            b == mesh_code(self),
            b < 10,
    {
        match self {
            MeshType::Cube => 0,
            MeshType::Floor => 1,
            MeshType::Sphere => 2,
            MeshType::Light => 3,
            MeshType::Wall => 4,
            MeshType::Metal => 5,
            MeshType::Glow => 6,
            MeshType::Ramp => 7,
            MeshType::CurvedRamp => 8,
            MeshType::Cylinder => 9,
        }
    }

    /// The mesh type a map-file byte stands for (`Cube` for unknown bytes).
    pub fn from_byte(b: u8) -> (m: MeshType)
        ensures
            m == mesh_from_code(b),
    {
        match b {
            1 => MeshType::Floor,
            2 => MeshType::Sphere,
            3 => MeshType::Light,
            4 => MeshType::Wall,
            5 => MeshType::Metal,
            6 => MeshType::Glow,
            7 => MeshType::Ramp,
            8 => MeshType::CurvedRamp,
            9 => MeshType::Cylinder,
            _ => MeshType::Cube,
        }
    }
}

/// Reading back the byte written for a mesh type gives the same type.
pub proof fn lemma_mesh_code_round_trip(m: MeshType)
    ensures
        mesh_from_code(mesh_code(m)) == m,
{
}

/// Distinct mesh types are written as distinct bytes.
pub proof fn lemma_mesh_code_injective(a: MeshType, b: MeshType)
    ensures
        mesh_code(a) == mesh_code(b) ==> a == b,
{
}


/// A placed brush of a map or scene. Position, rotation (Euler angles),
/// scale and colour are `f32` triples held as bit patterns.
#[derive(Debug, Clone, Copy, PartialEq, Eq, Structural)]
pub struct Entity {
    pub position: Bits3,
    pub rotation: Bits3,
    pub scale: Bits3,
    pub mesh_type: MeshType,
    pub color: Bits3,
    pub texture_index: usize,
    pub has_collision: bool,
    pub group_id: u8,
}

/// The GPU mesh a mesh type is drawn with.
#[derive(Debug, Clone, Copy, PartialEq, Eq, Structural)]
pub enum MeshShape {
    Floor,
    Cube,
    Sphere,
    Ramp,
    CurvedRamp,
    Cylinder,
}

pub open spec fn shape_of(m: MeshType) -> MeshShape {
    match m {
        MeshType::Floor => MeshShape::Floor,
        MeshType::Sphere => MeshShape::Sphere,
        MeshType::Ramp => MeshShape::Ramp,
        MeshType::CurvedRamp => MeshShape::CurvedRamp,
        MeshType::Cylinder => MeshShape::Cylinder,
        _ => MeshShape::Cube,
    }
}

/// Emissive fixtures (`Light` and `Glow`) are point-light sources.
pub open spec fn is_light_source(m: MeshType) -> bool {
    m == MeshType::Light || m == MeshType::Glow
}

impl MeshType {
    /// The mesh this type is drawn with: cubes, walls, metal and light
    /// fixtures share the cube mesh.
    pub fn shape(self) -> (s: MeshShape)
        ensures
            s == shape_of(self),
    {
        match self {
            MeshType::Floor => MeshShape::Floor,
            MeshType::Cube | MeshType::Wall => MeshShape::Cube,
            MeshType::Sphere => MeshShape::Sphere,
            MeshType::Light | MeshType::Glow => MeshShape::Cube,
            MeshType::Metal => MeshShape::Cube,
            MeshType::Ramp => MeshShape::Ramp,
            MeshType::CurvedRamp => MeshShape::CurvedRamp,
            MeshType::Cylinder => MeshShape::Cylinder,
        }
    }

    /// Light fixtures are skipped in the shadow pass; every other type
    /// casts a shadow.
    pub fn casts_shadow(self) -> (b: bool)
        ensures
            b == !is_light_source(self),
    {
        !matches!(self, MeshType::Glow | MeshType::Light)
    }

    /// Whether entities of this type act as point lights.
    pub fn is_light_source(self) -> (b: bool)
        ensures
            b == is_light_source(self),
    {
        matches!(self, MeshType::Light | MeshType::Glow)
    }
}

pub open spec fn texture_slot(texture_index: usize, mesh: MeshType, texture_count: usize) -> usize {
    if texture_index < texture_count {
        texture_index
    } else if mesh == MeshType::Floor && texture_count > 1 {
        1
    } else {
        0
    }
}

/// The texture bind group an entity is drawn with: its own texture index
/// when that texture exists, otherwise the ground texture (slot 1) for
/// floors when there is one, otherwise the white fallback (slot 0).
pub fn select_texture(texture_index: usize, mesh: MeshType, texture_count: usize) -> (slot: usize)
    ensures
        slot == texture_slot(texture_index, mesh, texture_count),
        texture_count > 0 ==> slot < texture_count,
{
    if texture_index < texture_count {
        texture_index
    } else if mesh == MeshType::Floor && texture_count > 1 {
        1
    } else {
        0
    }
}

/// Maximum forward point lights supported by the shaders.
pub const MAX_POINT_LIGHTS: usize = 12;

/// Indices (in order) of the entities among the first `n` whose mesh type
/// is `kind`.
pub open spec fn indices_of_kind(s: Seq<Entity>, kind: MeshType, n: nat) -> Seq<usize>
    decreases n,
{
    if n == 0 {
        Seq::empty()
    } else {
        let r = indices_of_kind(s, kind, (n - 1) as nat);
        if s[n - 1].mesh_type == kind {
            r.push((n - 1) as usize)
        } else {
            r
        }
    }
}

pub open spec fn at_most<A>(s: Seq<A>, n: nat) -> Seq<A> {
    if s.len() <= n {
        s
    } else {
        s.take(n as int)
    }
}

/// The light sources of a scene, brightest first: `Glow` fixtures
/// (intensity 2.0) in scene order, then `Light` fixtures (intensity 1.2)
/// in scene order, cut to `MAX_POINT_LIGHTS`.
pub open spec fn point_light_indices(s: Seq<Entity>) -> Seq<usize> {
    at_most(
        indices_of_kind(s, MeshType::Glow, s.len()) + indices_of_kind(s, MeshType::Light, s.len()),
        MAX_POINT_LIGHTS as nat,
    )
}

proof fn lemma_indices_of_kind_props(s: Seq<Entity>, kind: MeshType, n: nat)
    requires
        n <= s.len(),
        s.len() <= usize::MAX,
    ensures
        indices_of_kind(s, kind, n).len() <= n,
        forall|j: int|
            0 <= j < indices_of_kind(s, kind, n).len() ==> {
                let k = #[trigger] indices_of_kind(s, kind, n)[j];
                &&& k < n
                &&& s[k as int].mesh_type == kind
            },
    decreases n,
{
    if n > 0 {
        let prev = indices_of_kind(s, kind, (n - 1) as nat);
        lemma_indices_of_kind_props(s, kind, (n - 1) as nat);
        assert forall|j: int| 0 <= j < indices_of_kind(s, kind, n).len() implies {
            let k = #[trigger] indices_of_kind(s, kind, n)[j];
            &&& k < n
            &&& s[k as int].mesh_type == kind
        } by {
            if j < prev.len() {
                assert(indices_of_kind(s, kind, n)[j] == prev[j]);
                let k = prev[j];
                assert(k < n - 1 && s[k as int].mesh_type == kind);
            } else {
            }
        }
    }
}

fn collect_indices_of_kind(entities: &Vec<Entity>, kind: MeshType, out: &mut Vec<usize>)
    ensures
        final(out)@ == old(out)@ + indices_of_kind(entities@, kind, entities@.len()),
{
    let ghost start = out@;
    let n = entities.len();
    let mut i: usize = 0;
    while i < n
        invariant
            n == entities@.len(),
            i <= n,
            out@ == start + indices_of_kind(entities@, kind, i as nat),
        decreases n - i,
    {
        if entities[i].mesh_type == kind {
            out.push(i);
        }
        i = i + 1;
        assert(out@ =~= start + indices_of_kind(entities@, kind, i as nat));
    }
}

/// The entities drawn and collided this frame.
pub struct Scene {
    pub entities: Vec<Entity>,
}

impl Scene {
    /// An empty scene.
    pub fn new() -> (s: Scene)
        ensures
            s.entities@ == Seq::<Entity>::empty(),
    {
        Scene { entities: Vec::new() }
    }

    /// Appends an entity.
    pub fn add_entity(&mut self, entity: Entity)
        ensures
            final(self).entities@ == old(self).entities@.push(entity),
    {
        self.entities.push(entity);
    }

    /// Replaces the scene's entities with those of a loaded map, in order.
    pub fn load_from_map(&mut self, map_data: &MapData)
        ensures
            final(self).entities@ == map_data.entities@,
    {
        self.entities.clear();
        let n = map_data.entities.len();
        let mut i: usize = 0;
        while i < n
            invariant
                n == map_data.entities@.len(),
                i <= n,
                self.entities@ == map_data.entities@.take(i as int),
            decreases n - i,
        {
            self.entities.push(map_data.entities[i]);
            i = i + 1;
            assert(self.entities@ =~= map_data.entities@.take(i as int));
        }
        assert(map_data.entities@.take(n as int) =~= map_data.entities@);
    }

    /// Indices of the entities that act as point lights this frame, in the
    /// order the renderer uploads them: all `Glow` fixtures, then all
    /// `Light` fixtures, each group in scene order, at most
    /// `MAX_POINT_LIGHTS` in all.
    pub fn collect_point_lights(&self) -> (idx: Vec<usize>)
        ensures
            idx@ == point_light_indices(self.entities@),
            idx@.len() <= MAX_POINT_LIGHTS,
            forall|j: int|
                0 <= j < idx@.len() ==> {
                    let k = #[trigger] idx@[j];
                    &&& k < self.entities@.len()
                    &&& is_light_source(self.entities@[k as int].mesh_type)
                },
    {
        let entities = &self.entities;
        let count = entities.len();
        let mut idx: Vec<usize> = Vec::new();
        collect_indices_of_kind(entities, MeshType::Glow, &mut idx);
        collect_indices_of_kind(entities, MeshType::Light, &mut idx);
        proof {
            assert(count == entities@.len());
            lemma_indices_of_kind_props(entities@, MeshType::Glow, entities@.len());
            lemma_indices_of_kind_props(entities@, MeshType::Light, entities@.len());
        }
        let ghost all = idx@;
        idx.truncate(MAX_POINT_LIGHTS);
        proof {
            assert forall|j: int| 0 <= j < all.len() implies {
                let k = #[trigger] all[j];
                &&& k < entities@.len()
                &&& is_light_source(entities@[k as int].mesh_type)
            } by {
                let g = indices_of_kind(entities@, MeshType::Glow, entities@.len());
                if j >= g.len() {
                    assert(all[j] == indices_of_kind(entities@, MeshType::Light, entities@.len())[j - g.len()]);
                } else {
                    assert(all[j] == g[j]);
                }
            }
        }
        idx
    }
}

/// Each mesh type that has a mesh of its own is drawn with it: floors,
/// spheres, ramps, curved ramps and cylinders; cubes, walls, metal and the
/// light fixtures are drawn with the cube mesh.
pub proof fn lemma_mesh_shapes(m: MeshType)
    ensures
        shape_of(MeshType::Floor) == MeshShape::Floor,
        shape_of(MeshType::Sphere) == MeshShape::Sphere,
        shape_of(MeshType::Ramp) == MeshShape::Ramp,
        shape_of(MeshType::CurvedRamp) == MeshShape::CurvedRamp,
        shape_of(MeshType::Cylinder) == MeshShape::Cylinder,
        shape_of(m) == MeshShape::Cube <==> (m == MeshType::Cube || m == MeshType::Wall || m
            == MeshType::Metal || m == MeshType::Light || m == MeshType::Glow),
{
}

} // verus!
