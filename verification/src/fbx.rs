//! Plain data of the FBX export: its target format and the NIF materials
//! and textures it carries over.

use vstd::prelude::*;

verus! {

/// Target FBX format.
#[derive(Debug, Clone, Copy, PartialEq, Eq, Structural)]
pub enum Format {
    /// Binary FBX.
    FbxBin,
    /// ASCII FBX.
    FbxAscii,
}

/// Material information.
#[derive(Debug, Clone)]
pub struct Material {
    /// Material name.
    pub name: String,
    /// Texture index; a negative value means that no texture is assigned.
    pub texture: i32,
}

/// Texture information.
#[derive(Debug, Clone)]
pub struct Texture {
    /// Diffuse texture path.
    pub diffuse: String,
    /// Normal texture path.
    pub normal: String,
    /// Glow texture path.
    pub glow: String,
    /// Specular texture path.
    pub specular: String,
}

/// A material's reference to a texture that does not exist.
#[derive(Debug, Clone, Copy, PartialEq, Eq, Structural)]
pub struct InvalidTextureIndex {
    pub index: usize,
}

impl Material {
    /// The texture a material uses among `texture_count` textures: none for
    /// a negative index, the index when it is in range, an error otherwise.
    pub fn texture_index(&self, texture_count: usize) -> (r: Result<Option<usize>, InvalidTextureIndex>)
        ensures
            self.texture < 0 ==> r == Ok::<Option<usize>, InvalidTextureIndex>(None),
            0 <= self.texture < texture_count ==> r == Ok::<Option<usize>, InvalidTextureIndex>(Some(self.texture as usize)),
            self.texture >= 0 && self.texture >= texture_count ==> r == Err::<Option<usize>, InvalidTextureIndex>(
                InvalidTextureIndex { index: self.texture as usize },
            ),
    {
        if self.texture < 0 {
            return Ok(None);
        }
        let index = self.texture as usize;
        if index >= texture_count {
            return Err(InvalidTextureIndex { index });
        }
        Ok(Some(index))
    }
}

/// One texture property with its file, unless the file name is empty.
pub open spec fn texture_slot(property: Seq<char>, file: Seq<char>) -> Seq<(Seq<char>, Seq<char>)> {
    if file.len() > 0 {
        seq![(property, file)]
    } else {
        Seq::empty()
    }
}

/// The texture properties a material connects, with the file of each, in
/// the order diffuse, normal, glow, specular; empty file names connect
/// nothing.
pub open spec fn texture_slots_spec(t: Texture) -> Seq<(Seq<char>, Seq<char>)> {
    texture_slot("DiffuseColor"@, t.diffuse@) + texture_slot("NormalMap"@, t.normal@) + texture_slot(
        "EmissiveColor"@,
        t.glow@,
    ) + texture_slot("SpecularColor"@, t.specular@)
}

/// The view of a property and file pair.
pub open spec fn slot_view(s: (&'static str, String)) -> (Seq<char>, Seq<char>) {
    (s.0@, s.1@)
}

/// Appends one texture property unless its file name is empty.
fn push_slot(slots: &mut Vec<(&'static str, String)>, property: &'static str, file: &String)
    ensures
        final(slots)@.map_values(|s: (&'static str, String)| slot_view(s)) == old(slots)@.map_values(
            |s: (&'static str, String)| slot_view(s),
        ) + texture_slot(property@, file@),
{
    if file.as_str().unicode_len() > 0 {
        slots.push((property, file.clone()));
    }
    assert(final(slots)@.map_values(|s: (&'static str, String)| slot_view(s)) =~= old(slots)@.map_values(
        |s: (&'static str, String)| slot_view(s),
    ) + texture_slot(property@, file@));
}

impl Texture {
    /// The texture properties to connect to a material and their files.
    pub fn slots(&self) -> (r: Vec<(&'static str, String)>)
        ensures
            r@.map_values(|s: (&'static str, String)| slot_view(s)) == texture_slots_spec(*self),
    {
        let mut slots: Vec<(&'static str, String)> = Vec::new();
        assert(slots@.map_values(|s: (&'static str, String)| slot_view(s)) =~= Seq::<(Seq<char>, Seq<char>)>::empty());
        push_slot(&mut slots, "DiffuseColor", &self.diffuse);
        push_slot(&mut slots, "NormalMap", &self.normal);
        push_slot(&mut slots, "EmissiveColor", &self.glow);
        push_slot(&mut slots, "SpecularColor", &self.specular);
        slots
    }
}

/// Why a mesh or its skin cannot be exported.
#[derive(Debug, Clone, Copy, PartialEq, Eq, Structural)]
pub enum MeshError {
    /// The position floats are not whole XYZ triplets.
    PositionCount { actual: usize },
    /// The normal floats do not match the vertex count.
    NormalCount { actual: usize, expected: usize },
    /// The UV floats do not match the vertex count.
    UvCount { actual: usize, expected: usize },
    /// The tangent floats do not match the vertex count.
    TangentCount { actual: usize, expected: usize },
    /// The indices are not whole triangles.
    IndexCount { actual: usize },
    /// A triangle names a vertex that does not exist.
    IndexOutOfRange { index: u32 },
    /// The skin has different numbers of bone indices and weights.
    SkinCountMismatch { indices: usize, weights: usize },
    /// The skin does not hold four influences per vertex.
    InfluenceCount { actual: usize, expected: usize },
    /// A vertex index does not fit FBX's 32-bit indices.
    VertexIndexRange { vertex: usize },
}

/// The first index that names no vertex, if any.
pub open spec fn first_bad_index(indices: Seq<u32>, vertex_count: int) -> Option<u32> {
    if exists|i: int| 0 <= i < indices.len() && indices[i] >= vertex_count {
        Some(indices[choose|i: int| 0 <= i < indices.len() && indices[i] >= vertex_count && forall|j: int| 0 <= j < i ==> indices[j] < vertex_count])
    } else {
        None
    }
}

/// The shape checks of a mesh, in order: whole position triplets; normals,
/// UVs and tangents either absent or one per vertex; whole triangles; every
/// index naming a vertex. Gives the vertex count.
pub open spec fn mesh_shape_spec(positions: nat, normals: nat, uvs: nat, tangents: nat, indices: Seq<u32>) -> Result<usize, MeshError> {
    let vc = positions / 3;
    if positions % 3 != 0 {
        Err(MeshError::PositionCount { actual: positions as usize })
    } else if normals != 0 && normals != vc * 3 {
        Err(MeshError::NormalCount { actual: normals as usize, expected: (vc * 3) as usize })
    } else if uvs != 0 && uvs != vc * 2 {
        Err(MeshError::UvCount { actual: uvs as usize, expected: (vc * 2) as usize })
    } else if tangents != 0 && tangents != vc * 3 {
        Err(MeshError::TangentCount { actual: tangents as usize, expected: (vc * 3) as usize })
    } else if indices.len() % 3 != 0 {
        Err(MeshError::IndexCount { actual: indices.len() as usize })
    } else {
        match first_bad_index(indices, vc as int) {
            Some(index) => Err(MeshError::IndexOutOfRange { index }),
            None => Ok(vc as usize),
        }
    }
}

/// Checks the shape of a mesh from the lengths of its float arrays and its
/// indices; gives its vertex count. See [`mesh_shape_spec`].
pub fn validate_mesh(positions: usize, normals: usize, uvs: usize, tangents: usize, indices: &[u32]) -> (r: Result<usize, MeshError>)
    ensures
        r == mesh_shape_spec(positions as nat, normals as nat, uvs as nat, tangents as nat, indices@),
{
    if positions % 3 != 0 {
        return Err(MeshError::PositionCount { actual: positions });
    }
    let vertex_count = positions / 3;
    if normals != 0 && normals != vertex_count * 3 {
        return Err(MeshError::NormalCount { actual: normals, expected: vertex_count * 3 });
    }
    if uvs != 0 && uvs != vertex_count * 2 {
        return Err(MeshError::UvCount { actual: uvs, expected: vertex_count * 2 });
    }
    if tangents != 0 && tangents != vertex_count * 3 {
        return Err(MeshError::TangentCount { actual: tangents, expected: vertex_count * 3 });
    }
    if indices.len() % 3 != 0 {
        return Err(MeshError::IndexCount { actual: indices.len() });
    }
    let mut i: usize = 0;
    while i < indices.len()
        invariant
            i <= indices@.len(),
            positions % 3 == 0,
            vertex_count == positions / 3,
            normals == 0 || normals == vertex_count * 3,
            uvs == 0 || uvs == vertex_count * 2,
            tangents == 0 || tangents == vertex_count * 3,
            indices@.len() % 3 == 0,
            forall|j: int| 0 <= j < i ==> indices@[j] < vertex_count,
        decreases indices@.len() - i,
    {
        if indices[i] as usize >= vertex_count {
            proof {
                let c = choose|k: int| 0 <= k < indices@.len() && indices@[k] >= vertex_count && forall|j: int| 0 <= j < k ==> indices@[j] < vertex_count;
                assert(0 <= c < indices@.len() && indices@[c] >= vertex_count && forall|j: int| 0 <= j < c ==> indices@[j] < vertex_count) by {
                    assert(indices@[i as int] >= vertex_count && forall|j: int| 0 <= j < i ==> indices@[j] < vertex_count);
                }
                if c < i {
                    assert(indices@[c] < vertex_count);
                }
                if c > i {
                    assert(indices@[i as int] < vertex_count);
                }
            }
            return Err(MeshError::IndexOutOfRange { index: indices[i] });
        }
        i = i + 1;
    }
    Ok(vertex_count)
}

/// Whether the influence at `offset` belongs to `bone` with a weight other
/// than zero (`weights` holds `f32` bit patterns; both zeros count as zero).
pub open spec fn is_influence(bone_indices: Seq<u16>, weights: Seq<u32>, offset: int, bone: usize) -> bool {
    bone_indices[offset] == bone && weights[offset] % 0x8000_0000 != 0
}

/// The influences of `bone` among the first `k` influence slots, as
/// (vertex, slot) pairs in slot order; four slots per vertex.
pub open spec fn influences_upto(bone_indices: Seq<u16>, weights: Seq<u32>, bone: usize, k: nat) -> Seq<(i32, usize)>
    decreases k,
{
    if k == 0 {
        Seq::empty()
    } else {
        let prev = influences_upto(bone_indices, weights, bone, (k - 1) as nat);
        let offset = k - 1;
        if is_influence(bone_indices, weights, offset, bone) {
            prev.push(((offset / 4) as i32, offset as usize))
        } else {
            prev
        }
    }
}

/// The vertices a skin bone influences, with the slot of each weight; the
/// skin must hold as many weights as bone indices, four per vertex, and
/// every vertex must fit a 32-bit index.
pub fn bone_influences(bone_indices: &[u16], weights: &[u32], vertex_count: usize, bone: usize) -> (r: Result<Vec<(i32, usize)>, MeshError>)
    requires
        vertex_count * 4 <= usize::MAX,
    ensures
        bone_indices@.len() != weights@.len() ==> r == Err::<Vec<(i32, usize)>, MeshError>(
            MeshError::SkinCountMismatch { indices: bone_indices@.len() as usize, weights: weights@.len() as usize },
        ),
        bone_indices@.len() == weights@.len() && bone_indices@.len() != vertex_count * 4 ==> r == Err::<Vec<(i32, usize)>, MeshError>(
            MeshError::InfluenceCount { actual: bone_indices@.len() as usize, expected: (vertex_count * 4) as usize },
        ),
        r matches Ok(v) ==> v@ == influences_upto(bone_indices@, weights@, bone, bone_indices@.len()),
        bone_indices@.len() == weights@.len() && bone_indices@.len() == vertex_count * 4 ==> (r is Ok <==> forall|k: int|
            0 <= k < bone_indices@.len() && #[trigger] is_influence(bone_indices@, weights@, k, bone) ==> k / 4 <= 0x7fff_ffff),
        r is Err && bone_indices@.len() == weights@.len() && bone_indices@.len() == vertex_count * 4
            ==> r matches Err(MeshError::VertexIndexRange { .. }),
        r matches Err(MeshError::VertexIndexRange { vertex }) ==> exists|k: int| 0 <= k < bone_indices@.len()
            && #[trigger] is_influence(bone_indices@, weights@, k, bone) && vertex == k / 4 && vertex > 0x7fff_ffff
            && forall|j: int| 0 <= j < k && #[trigger] is_influence(bone_indices@, weights@, j, bone) ==> j / 4 <= 0x7fff_ffff,
{
    if bone_indices.len() != weights.len() {
        return Err(MeshError::SkinCountMismatch { indices: bone_indices.len(), weights: weights.len() });
    }
    if bone_indices.len() != vertex_count * 4 {
        return Err(MeshError::InfluenceCount { actual: bone_indices.len(), expected: vertex_count * 4 });
    }
    let mut out: Vec<(i32, usize)> = Vec::new();
    let mut offset: usize = 0;
    while offset < bone_indices.len()
        invariant
            bone_indices@.len() == weights@.len(),
            bone_indices@.len() == vertex_count * 4,
            offset <= bone_indices@.len(),
            out@ == influences_upto(bone_indices@, weights@, bone, offset as nat),
            forall|j: int| 0 <= j < offset && #[trigger] is_influence(bone_indices@, weights@, j, bone) ==> j / 4 <= 0x7fff_ffff,
        decreases bone_indices@.len() - offset,
    {
        let w = weights[offset];
        let zero = w & 0x7fff_ffff;
        assert(zero == w % 0x8000_0000) by (bit_vector)
            requires
                zero == w & 0x7fff_ffff,
        ;
        if bone_indices[offset] as usize == bone && zero != 0 {
            let vertex = offset / 4;
            if vertex > 0x7fff_ffff {
                assert(is_influence(bone_indices@, weights@, offset as int, bone));
                return Err(MeshError::VertexIndexRange { vertex });
            }
            out.push((vertex as i32, offset));
        }
        offset = offset + 1;
    }
    Ok(out)
}

/// A material connects each texture that has a file name exactly once, to
/// its own property (diffuse to `DiffuseColor`, normal to `NormalMap`, glow
/// to `EmissiveColor`, specular to `SpecularColor`), and connects nothing
/// else.
pub proof fn lemma_texture_slots_connect_each_file(t: Texture)
    ensures
        forall|i: int| 0 <= i < texture_slots_spec(t).len() ==> {
            let s = #[trigger] texture_slots_spec(t)[i];
            ||| s == ("DiffuseColor"@, t.diffuse@) && t.diffuse@.len() > 0
            ||| s == ("NormalMap"@, t.normal@) && t.normal@.len() > 0
            ||| s == ("EmissiveColor"@, t.glow@) && t.glow@.len() > 0
            ||| s == ("SpecularColor"@, t.specular@) && t.specular@.len() > 0
        },
        t.diffuse@.len() > 0 ==> texture_slots_spec(t).contains(("DiffuseColor"@, t.diffuse@)),
        t.normal@.len() > 0 ==> texture_slots_spec(t).contains(("NormalMap"@, t.normal@)),
        t.glow@.len() > 0 ==> texture_slots_spec(t).contains(("EmissiveColor"@, t.glow@)),
        t.specular@.len() > 0 ==> texture_slots_spec(t).contains(("SpecularColor"@, t.specular@)),
        texture_slots_spec(t).len() == (if t.diffuse@.len() > 0 { 1int } else { 0 }) + (if t.normal@.len() > 0 { 1int } else { 0 })
            + (if t.glow@.len() > 0 { 1int } else { 0 }) + (if t.specular@.len() > 0 { 1int } else { 0 }),
        forall|i: int, j: int| 0 <= i < j < texture_slots_spec(t).len()
            ==> (#[trigger] texture_slots_spec(t)[i]).0 != (#[trigger] texture_slots_spec(t)[j]).0,
{
    reveal_strlit("DiffuseColor");
    reveal_strlit("NormalMap");
    reveal_strlit("EmissiveColor");
    reveal_strlit("SpecularColor");
    let d = texture_slot("DiffuseColor"@, t.diffuse@);
    let n = texture_slot("NormalMap"@, t.normal@);
    let g = texture_slot("EmissiveColor"@, t.glow@);
    let sp = texture_slot("SpecularColor"@, t.specular@);
    let r = texture_slots_spec(t);
    assert(r == d + n + g + sp);
    if t.diffuse@.len() > 0 {
        assert(r[0] == ("DiffuseColor"@, t.diffuse@));
    }
    if t.normal@.len() > 0 {
        assert(r[d.len() as int] == ("NormalMap"@, t.normal@));
    }
    if t.glow@.len() > 0 {
        assert(r[(d.len() + n.len()) as int] == ("EmissiveColor"@, t.glow@));
    }
    if t.specular@.len() > 0 {
        assert(r[(d.len() + n.len() + g.len()) as int] == ("SpecularColor"@, t.specular@));
    }
    assert forall|i: int| 0 <= i < r.len() implies {
        let s = #[trigger] r[i];
        ||| s == ("DiffuseColor"@, t.diffuse@) && t.diffuse@.len() > 0
        ||| s == ("NormalMap"@, t.normal@) && t.normal@.len() > 0
        ||| s == ("EmissiveColor"@, t.glow@) && t.glow@.len() > 0
        ||| s == ("SpecularColor"@, t.specular@) && t.specular@.len() > 0
    } by {
        if i < d.len() {
        } else if i < d.len() + n.len() {
        } else if i < d.len() + n.len() + g.len() {
        } else {
        }
    }
    assert forall|i: int, j: int| 0 <= i < j < r.len() implies (#[trigger] r[i]).0 != (#[trigger] r[j]).0 by {
        let ki: int = if i < d.len() { 0 } else if i < d.len() + n.len() { 1 } else if i < d.len() + n.len() + g.len() { 2 } else { 3 };
        let kj: int = if j < d.len() { 0 } else if j < d.len() + n.len() { 1 } else if j < d.len() + n.len() + g.len() { 2 } else { 3 };
        assert(d.len() <= 1 && n.len() <= 1 && g.len() <= 1 && sp.len() <= 1);
        assert(ki < kj);
        let names = seq!["DiffuseColor"@, "NormalMap"@, "EmissiveColor"@, "SpecularColor"@];
        assert(r[i].0 == names[ki]);
        assert(r[j].0 == names[kj]);
        assert(names[0][0] == 'D' && names[1][0] == 'N' && names[2][0] == 'E' && names[3][0] == 'S');
        assert(names[ki][0] != names[kj][0]);
    }
}

} // verus!
