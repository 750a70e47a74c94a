use serde_spline::fbx::{bone_influences, validate_mesh, InvalidTextureIndex, Material, MeshError, Texture};

#[test]
fn material_texture_index() {
    let m = |texture: i32| Material { name: "m".to_string(), texture };
    assert_eq!(m(-1).texture_index(3), Ok(None));
    assert_eq!(m(2).texture_index(3), Ok(Some(2)));
    assert_eq!(m(3).texture_index(3), Err(InvalidTextureIndex { index: 3 }));
}

#[test]
fn texture_slots_skip_empty_names() {
    let t = Texture { diffuse: "d.dds".into(), normal: String::new(), glow: "g.dds".into(), specular: String::new() };
    assert_eq!(t.slots(), vec![("DiffuseColor", "d.dds".to_string()), ("EmissiveColor", "g.dds".to_string())]);
    let empty = Texture { diffuse: String::new(), normal: String::new(), glow: String::new(), specular: String::new() };
    assert!(empty.slots().is_empty());
}

#[test]
fn mesh_shape_checks() {
    assert_eq!(validate_mesh(9, 9, 6, 0, &[0, 1, 2]), Ok(3));
    assert_eq!(validate_mesh(8, 0, 0, 0, &[]), Err(MeshError::PositionCount { actual: 8 }));
    assert_eq!(validate_mesh(9, 6, 0, 0, &[]), Err(MeshError::NormalCount { actual: 6, expected: 9 }));
    assert_eq!(validate_mesh(9, 0, 4, 0, &[]), Err(MeshError::UvCount { actual: 4, expected: 6 }));
    assert_eq!(validate_mesh(9, 0, 0, 3, &[]), Err(MeshError::TangentCount { actual: 3, expected: 9 }));
    assert_eq!(validate_mesh(9, 0, 0, 0, &[0, 1]), Err(MeshError::IndexCount { actual: 2 }));
    assert_eq!(validate_mesh(9, 0, 0, 0, &[0, 1, 3, 5, 0, 0]), Err(MeshError::IndexOutOfRange { index: 3 }));
}

#[test]
fn skin_influences_of_a_bone() {
    let one = 1.0f32.to_bits();
    let zero = 0.0f32.to_bits();
    let minus_zero = (-0.0f32).to_bits();
    let indices = [0u16, 1, 1, 0, 1, 1, 0, 0];
    let weights = [one, one, zero, one, minus_zero, one, one, one];
    assert_eq!(bone_influences(&indices, &weights, 2, 1).unwrap(), vec![(0, 1), (1, 5)]);
    assert_eq!(bone_influences(&indices, &weights, 2, 0).unwrap(), vec![(0, 0), (0, 3), (1, 6), (1, 7)]);
    assert_eq!(
        bone_influences(&indices, &weights[..7], 2, 0).unwrap_err(),
        MeshError::SkinCountMismatch { indices: 8, weights: 7 }
    );
    assert_eq!(bone_influences(&indices, &weights, 3, 0).unwrap_err(), MeshError::InfluenceCount { actual: 8, expected: 12 });
}
