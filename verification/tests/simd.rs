use serde_spline::spline::simd::{IVec4A16, QuatA16, UVec4A16, Vec4A16};

#[test]
fn raw_lanes_round_trip() {
    let v = Vec4A16::from_raw([1, 2, 3, 0x8000_0000]);
    assert_eq!(v.raw(), [1, 2, 3, 0x8000_0000]);
    assert_eq!(v.cast_i32().raw(), [1, 2, 3, i32::MIN]);
    assert_eq!(v.cast_u32().raw(), [1, 2, 3, 0x8000_0000]);
    assert_eq!(IVec4A16::from_raw([-1, 0, 1, 2]).raw(), [-1, 0, 1, 2]);
    assert_eq!(IVec4A16::from_raw([-1, 0, 1, 2]).cast_f32().raw(), [0xffff_ffff, 0, 1, 2]);
    assert_eq!(UVec4A16::from_raw([0xffff_ffff, 0, 1, 2]).cast_i32().to_array(), [-1, 0, 1, 2]);
    assert_eq!(UVec4A16::from_raw([5, 6, 7, 8]).cast_f32().raw(), [5, 6, 7, 8]);
}

#[test]
fn lane_operations() {
    let v = Vec4A16::from_raw([0xbf80_0000, 0x3f80_0000, 0x8000_0000, 0]);
    assert_eq!(v.abs().raw(), [0x3f80_0000, 0x3f80_0000, 0, 0]);
    assert_eq!(v.negated().raw(), [0x3f80_0000, 0xbf80_0000, 0, 0x8000_0000]);
    let other = Vec4A16::from_raw([1, 2, 3, 4]);
    let mask = IVec4A16::new(-1, 0, -1, 0);
    assert_eq!(v.select(other, mask).raw(), [1, 0x3f80_0000, 3, 0]);
    assert_eq!(IVec4A16::new(1, 2, 3, 4).cmp_eq(IVec4A16::new(1, 0, 3, 0)).to_array(), [-1, 0, -1, 0]);
    assert_eq!(IVec4A16::splat(7).to_array(), [7, 7, 7, 7]);
    assert_eq!(UVec4A16::new(1, 2, 3, 4).cmp_eq(UVec4A16::splat(2)).to_array(), [0, 0xffff_ffff, 0, 0]);
    assert_eq!(UVec4A16::new(0x8000_0000, 3, 0xffff_ffff, 0).mul_lo(UVec4A16::splat(2)).to_array(), [0, 6, 0xffff_fffe, 0]);
}

#[test]
fn quaternion_lanes() {
    assert_eq!(QuatA16::identity().into_vec4().raw(), [0, 0, 0, 0x3f80_0000]);
    let q = QuatA16::from_vec4(Vec4A16::from_raw([0x3f00_0000, 0, 0xbf00_0000, 0x3f00_0000]));
    assert_eq!(q.negated().into_vec4().raw(), [0xbf00_0000, 0x8000_0000, 0x3f00_0000, 0xbf00_0000]);
    assert_eq!(q.negated().negated().into_vec4().raw(), q.into_vec4().raw());
}
