//! Encoding of spline blocks from their stored (quantized) representation.
//!
//! The byte layout is the one read by [`super::de`]: per block the
//! transform masks, padding to 4, then per track the position, padding to 4,
//! the rotation, padding to 4 and the scale, and finally padding to 16.
//! Multi-byte values are written little-endian.

use vstd::prelude::*;

use super::de::{rotation_read_align, SplineDecompressor, vector_default, vector_type_array, vector_is_dynamic, vector_kind, vector_types, SplineError};
use super::math::{
    rotation_kind, AxisModel, PackedQuat, QuantizationType, QuatModel, RotationModel,
    SplineDynamicTrackQuat, SplineDynamicTrackVector, SplineTrackQuat, SplineTrackType,
    SplineTrackVector, TrackModel, TransformMask, TransformSplineBlock, TransformTrack,
    TransformType, VectorAxis, VectorModel, BlockModel,
};
use super::reader::align_up;

verus! {

// ---------------------------------------------------------------------------
// Byte-level writers
// ---------------------------------------------------------------------------

/// The little-endian bytes of a 16-bit value.
pub open spec fn ser_u16(v: u16) -> Seq<u8> {
    seq![(v % 0x100) as u8, (v / 0x100) as u8]
}

/// The little-endian bytes of a 32-bit value.
pub open spec fn ser_u32(v: u32) -> Seq<u8> {
    seq![
        (v % 0x100) as u8,
        ((v / 0x100) % 0x100) as u8,
        ((v / 0x10000) % 0x100) as u8,
        (v / 0x1000000) as u8,
    ]
}

/// The zero bytes that pad position `p` up to a multiple of `a`.
pub open spec fn padding(p: int, a: int) -> Seq<u8> {
    Seq::new((align_up(p, a) - p) as nat, |i: int| 0u8)
}

/// Appends a little-endian 16-bit value.
pub fn push_u16_le(out: &mut Vec<u8>, v: u16)
    ensures
        final(out)@ == old(out)@ + ser_u16(v),
{
    let lo = (v & 0xff) as u8;
    let hi = (v >> 8) as u8;
    assert(lo == v % 0x100 && hi == v / 0x100) by (bit_vector)
        requires
            lo == (v & 0xff) as u8,
            hi == (v >> 8) as u8,
    ;
    out.push(lo);
    out.push(hi);
    assert(final(out)@ =~= old(out)@ + ser_u16(v));
}

/// Appends a little-endian 32-bit value.
pub fn push_u32_le(out: &mut Vec<u8>, v: u32)
    ensures
        final(out)@ == old(out)@ + ser_u32(v),
{
    let b0 = (v & 0xff) as u8;
    let b1 = ((v >> 8) & 0xff) as u8;
    let b2 = ((v >> 16) & 0xff) as u8;
    let b3 = (v >> 24) as u8;
    assert(b0 == v % 0x100 && b1 == (v / 0x100) % 0x100 && b2 == (v / 0x10000) % 0x100 && b3 == v
        / 0x1000000) by (bit_vector)
        requires
            b0 == (v & 0xff) as u8,
            b1 == ((v >> 8) & 0xff) as u8,
            b2 == ((v >> 16) & 0xff) as u8,
            b3 == (v >> 24) as u8,
    ;
    out.push(b0);
    out.push(b1);
    out.push(b2);
    out.push(b3);
    assert(final(out)@ =~= old(out)@ + ser_u32(v));
}

/// Pads with zero bytes up to the next multiple of `alignment`; an
/// alignment of 0 or 1 leaves the output as it is.
pub fn align_to(out: &mut Vec<u8>, alignment: usize)
    ensures
        alignment <= 1 ==> final(out)@ == old(out)@,
        alignment > 1 ==> final(out)@ == old(out)@ + padding(old(out)@.len() as int, alignment as int),
{
    if alignment <= 1 {
        return;
    }
    let remainder = out.len() % alignment;
    let count: usize = if remainder == 0 { 0 } else { alignment - remainder };
    let ghost start = out@;
    let mut i: usize = 0;
    while i < count
        invariant
            i <= count,
            out@ =~= start + Seq::new(i as nat, |j: int| 0u8),
        decreases count - i,
    {
        out.push(0);
        i = i + 1;
    }
    assert(out@ =~= start + padding(start.len() as int, alignment as int));
}

/// Pads with zero bytes up to the next multiple of 4.
pub fn align4(out: &mut Vec<u8>)
    ensures
        final(out)@ == old(out)@ + padding(old(out)@.len() as int, 4),
{
    align_to(out, 4);
}

/// Pads with zero bytes up to the next multiple of 16.
pub fn align16(out: &mut Vec<u8>)
    ensures
        final(out)@ == old(out)@ + padding(old(out)@.len() as int, 16),
{
    align_to(out, 16);
}


/// Concatenation of byte sequences is associative.
pub proof fn lemma_append_assoc(a: Seq<u8>, b: Seq<u8>, c: Seq<u8>)
    ensures
        (a + b) + c == a + (b + c),
{
    assert((a + b) + c =~= a + (b + c));
}

/// Appends raw bytes.
pub fn push_bytes(out: &mut Vec<u8>, bytes: &[u8])
    ensures
        final(out)@ == old(out)@ + bytes@,
{
    let ghost start = out@;
    let mut i: usize = 0;
    while i < bytes.len()
        invariant
            i <= bytes@.len(),
            out@ =~= start + bytes@.subrange(0, i as int),
        decreases bytes@.len() - i,
    {
        out.push(bytes[i]);
        i = i + 1;
    }
    assert(bytes@.subrange(0, bytes@.len() as int) =~= bytes@);
}

// ---------------------------------------------------------------------------
// IEEE-754 single-precision predicates on bit patterns
// ---------------------------------------------------------------------------

/// The biased exponent field of an `f32` bit pattern.
pub open spec fn f32_exponent(bits: u32) -> u32 {
    ((bits / 0x80_0000) % 0x100) as u32
}

/// Whether an `f32` bit pattern is a NaN.
pub open spec fn f32_is_nan(bits: u32) -> bool {
    f32_exponent(bits) == 0xff && bits % 0x80_0000 != 0
}

/// Whether an `f32` bit pattern is finite (neither infinite nor NaN).
pub open spec fn f32_is_finite(bits: u32) -> bool {
    f32_exponent(bits) != 0xff
}

/// `==` on the `f32` values of two bit patterns: NaN equals nothing and the
/// two zeros are equal.
pub open spec fn f32_bits_eq(a: u32, b: u32) -> bool {
    !f32_is_nan(a) && !f32_is_nan(b) && (a == b || (a % 0x8000_0000 == 0 && b % 0x8000_0000 == 0))
}

/// An `f32` bit pattern is finite exactly when its magnitude (the pattern
/// without the sign bit) is below that of infinity, 0x7f80_0000; so the
/// sign never matters, and a NaN is exactly a magnitude above it. A
/// constant lane of any finite value, negative ones included, is written
/// as its four little-endian bytes.
pub proof fn lemma_finite_is_below_infinity(bits: u32, default: u32)
    ensures
        f32_is_finite(bits) <==> bits % 0x8000_0000 < 0x7f80_0000,
        f32_is_finite(bits) <==> f32_is_finite(bits ^ 0x8000_0000),
        f32_is_nan(bits) <==> bits % 0x8000_0000 > 0x7f80_0000,
        bits % 0x8000_0000 < 0x7f80_0000 ==> ser_static_lane(SplineTrackType::Static, bits, default) == Ok::<Seq<u8>, SplineError>(ser_u32(bits)),
{
    let e = f32_exponent(bits);
    let f = f32_exponent(bits ^ 0x8000_0000);
    assert((e != 0xff) == (bits % 0x8000_0000 < 0x7f80_0000)
        && (e != 0xff) == (f != 0xff)
        && ((e == 0xff && bits % 0x80_0000 != 0) == (bits % 0x8000_0000 > 0x7f80_0000))) by (bit_vector)
        requires
            e == ((bits / 0x80_0000) % 0x100) as u32,
            f == (((bits ^ 0x8000_0000) / 0x80_0000) % 0x100) as u32,
    ;
}

/// Whether an `f32` bit pattern is finite.
pub fn is_finite_bits(bits: u32) -> (r: bool)
    ensures
        r == f32_is_finite(bits),
{
    let e = (bits >> 23) & 0xff;
    assert(e == (bits / 0x80_0000) % 0x100) by (bit_vector)
        requires
            e == (bits >> 23) & 0xff,
    ;
    e != 0xff
}

/// `==` on the `f32` values of two bit patterns.
pub fn f32_bits_equal(a: u32, b: u32) -> (r: bool)
    ensures
        r == f32_bits_eq(a, b),
{
    let ea = (a >> 23) & 0xff;
    let eb = (b >> 23) & 0xff;
    let ma = a & 0x7f_ffff;
    let mb = b & 0x7f_ffff;
    let za = a & 0x7fff_ffff;
    let zb = b & 0x7fff_ffff;
    assert(ea == (a / 0x80_0000) % 0x100 && ma == a % 0x80_0000 && za == a % 0x8000_0000)
        by (bit_vector)
        requires
            ea == (a >> 23) & 0xff,
            ma == a & 0x7f_ffff,
            za == a & 0x7fff_ffff,
    ;
    assert(eb == (b / 0x80_0000) % 0x100 && mb == b % 0x80_0000 && zb == b % 0x8000_0000)
        by (bit_vector)
        requires
            eb == (b >> 23) & 0xff,
            mb == b & 0x7f_ffff,
            zb == b & 0x7fff_ffff,
    ;
    let nan_a = ea == 0xff && ma != 0;
    let nan_b = eb == 0xff && mb != 0;
    !nan_a && !nan_b && (a == b || (za == 0 && zb == 0))
}

// ---------------------------------------------------------------------------
// Static vectors
// ---------------------------------------------------------------------------

/// One lane of a vector without spline axes: a static axis stores its finite
/// value, an identity axis stores nothing and must hold the default.
pub open spec fn ser_static_lane(kind: SplineTrackType, v: u32, default: u32) -> Result<Seq<u8>, SplineError> {
    match kind {
        SplineTrackType::Static => if f32_is_finite(v) {
            Ok(ser_u32(v))
        } else {
            Err(SplineError::InvalidData("static vector contains a non-finite value"))
        },
        SplineTrackType::Identity => if f32_bits_eq(v, default) {
            Ok(Seq::empty())
        } else {
            Err(SplineError::InvalidData("identity vector component differs from its default value"))
        },
        SplineTrackType::Dynamic => Err(SplineError::InvalidData("static vector contains a dynamic mask component")),
    }
}

/// A vector without spline axes: its lanes in X/Y/Z order.
pub open spec fn ser_static_vector(mask: TransformMask, scale: bool, value: Seq<u32>) -> Result<Seq<u8>, SplineError> {
    let default = vector_default(scale);
    match ser_static_lane(vector_kind(mask, scale, 0), value[0], default) {
        Err(e) => Err(e),
        Ok(x) => match ser_static_lane(vector_kind(mask, scale, 1), value[1], default) {
            Err(e) => Err(e),
            Ok(y) => match ser_static_lane(vector_kind(mask, scale, 2), value[2], default) {
                Err(e) => Err(e),
                Ok(z) => Ok(x + y + z),
            },
        },
    }
}

/// Writes one lane of a vector without spline axes.
fn write_static_lane(out: &mut Vec<u8>, kind: SplineTrackType, v: u32, default: u32) -> (r: Result<(), SplineError>)
    ensures
        match ser_static_lane(kind, v, default) {
            Ok(b) => r is Ok && final(out)@ == old(out)@ + b,
            Err(e) => r == Err::<(), SplineError>(e) && final(out)@ == old(out)@,
        },
{
    match kind {
        SplineTrackType::Static => {
            if !is_finite_bits(v) {
                return Err(SplineError::InvalidData("static vector contains a non-finite value"));
            }
            push_u32_le(out, v);
            Ok(())
        },
        SplineTrackType::Identity => {
            if !f32_bits_equal(v, default) {
                return Err(SplineError::InvalidData("identity vector component differs from its default value"));
            }
            assert(out@ =~= old(out)@ + Seq::<u8>::empty());
            Ok(())
        },
        SplineTrackType::Dynamic => Err(SplineError::InvalidData("static vector contains a dynamic mask component")),
    }
}

/// Writes a vector without spline axes.
fn write_static_vector(out: &mut Vec<u8>, mask: TransformMask, scale: bool, value: &[u32; 4]) -> (r: Result<(), SplineError>)
    ensures
        match ser_static_vector(mask, scale, value@) {
            Ok(b) => r is Ok && final(out)@ == old(out)@ + b,
            Err(e) => r == Err::<(), SplineError>(e),
        },
{
    let types = vector_type_array(scale);
    let default: u32 = if scale { 0x3f80_0000 } else { 0 };
    let ghost o0 = out@;
    write_static_lane(out, mask.sub_track_type(types[0]), value[0], default)?;
    let ghost o1 = out@;
    write_static_lane(out, mask.sub_track_type(types[1]), value[1], default)?;
    let ghost o2 = out@;
    write_static_lane(out, mask.sub_track_type(types[2]), value[2], default)?;
    proof {
        let x = o1.subrange(o0.len() as int, o1.len() as int);
        assert(o1 =~= o0 + x);
        assert(out@ =~= o0 + (o1.subrange(o0.len() as int, o1.len() as int) + o2.subrange(o1.len() as int, o2.len() as int) + out@.subrange(o2.len() as int, out@.len() as int)));
    }
    Ok(())
}

// ---------------------------------------------------------------------------
// Dynamic vectors
// ---------------------------------------------------------------------------

/// Whether a stored axis has the shape its mask kind calls for.
pub open spec fn axis_matches(kind: SplineTrackType, axis: AxisModel) -> bool {
    match kind {
        SplineTrackType::Dynamic => axis is Dynamic,
        SplineTrackType::Static => axis is Static,
        SplineTrackType::Identity => axis is Identity,
    }
}

/// The control points of a stored axis (empty unless it is a spline axis).
pub open spec fn axis_values(axis: AxisModel) -> Seq<u16> {
    match axis {
        AxisModel::Dynamic { values, .. } => values,
        _ => Seq::empty(),
    }
}

/// The number of control points of the first spline axis.
pub open spec fn dynamic_count(mask: TransformMask, scale: bool, axes: Seq<AxisModel>) -> int {
    if vector_kind(mask, scale, 0) is Dynamic {
        axis_values(axes[0]).len() as int
    } else if vector_kind(mask, scale, 1) is Dynamic {
        axis_values(axes[1]).len() as int
    } else {
        axis_values(axes[2]).len() as int
    }
}

/// Whether a control point fits the scalar quantization.
pub open spec fn fits_quantization(v: u16, q: QuantizationType) -> bool {
    q is Bit8 ==> v < 0x100
}

/// The first problem with one axis of a spline vector holding `count`
/// control points per spline axis.
pub open spec fn axis_error(axis: AxisModel, count: int, q: QuantizationType) -> Option<SplineError> {
    match axis {
        AxisModel::Dynamic { min, max, values } => if values.len() != count {
            Some(SplineError::InvalidData("dynamic vector axes have different frame sample counts"))
        } else if !f32_is_finite(min) || !f32_is_finite(max) {
            Some(SplineError::InvalidData("cannot quantize a non-finite scalar"))
        } else if !(forall|i: int| 0 <= i < values.len() ==> fits_quantization(#[trigger] values[i], q)) {
            Some(SplineError::InvalidData("quantized control point exceeds its quantization"))
        } else {
            None
        },
        AxisModel::Static(v) => if !f32_is_finite(v) {
            Some(SplineError::InvalidData("static vector contains a non-finite value"))
        } else {
            None
        },
        AxisModel::Identity => None,
    }
}

#[verifier::opaque]
/// The first problem with a spline vector, if any: axes that disagree with
/// the mask, a control-point count outside `2..=65536`, an invalid axis, a
/// zero degree, or a knot vector whose length is not `count + degree + 1`.
pub open spec fn dynamic_vector_error(
    mask: TransformMask,
    scale: bool,
    q: QuantizationType,
    axes: Seq<AxisModel>,
    knots: Seq<u8>,
    degree: u8,
) -> Option<SplineError> {
    let n = dynamic_count(mask, scale, axes);
    if !(axis_matches(vector_kind(mask, scale, 0), axes[0]) && axis_matches(vector_kind(mask, scale, 1), axes[1])
        && axis_matches(vector_kind(mask, scale, 2), axes[2])) {
        Some(SplineError::InvalidData("vector axis does not match its mask"))
    } else if n == 0 {
        Some(SplineError::InvalidData("dynamic vector contains no frame samples"))
    } else if n == 1 {
        Some(SplineError::InvalidData("dynamic vector requires at least two frame samples"))
    } else if n > 0x1_0000 {
        Some(SplineError::InvalidData("too many vector spline frame samples"))
    } else if axis_error(axes[0], n, q) is Some {
        axis_error(axes[0], n, q)
    } else if axis_error(axes[1], n, q) is Some {
        axis_error(axes[1], n, q)
    } else if axis_error(axes[2], n, q) is Some {
        axis_error(axes[2], n, q)
    } else if degree == 0 {
        Some(SplineError::InvalidData("B-spline degree must not be zero"))
    } else if knots.len() != n + degree + 1 {
        Some(SplineError::InvalidData("B-spline knot count does not match frame sample count"))
    } else {
        None
    }
}

/// The per-axis data written after a vector spline header.
pub open spec fn ser_axis_header(axis: AxisModel) -> Seq<u8> {
    match axis {
        AxisModel::Dynamic { min, max, .. } => ser_u32(min) + ser_u32(max),
        AxisModel::Static(v) => ser_u32(v),
        AxisModel::Identity => Seq::empty(),
    }
}

/// The bytes of one quantized scalar: a byte for 8-bit quantization; for
/// 16-bit, the value and a zero reserved word.
pub open spec fn ser_scalar(v: u16, q: QuantizationType) -> Seq<u8> {
    if q is Bit8 {
        seq![v as u8]
    } else {
        ser_u16(v) + seq![0u8, 0u8]
    }
}

/// The bytes of axis `a` in control-point row `i` (nothing unless it is a
/// spline axis).
pub open spec fn row_piece(mask: TransformMask, scale: bool, axes: Seq<AxisModel>, q: QuantizationType, a: int, i: int) -> Seq<u8> {
    if vector_kind(mask, scale, a) is Dynamic {
        ser_scalar(axis_values(axes[a])[i], q)
    } else {
        Seq::empty()
    }
}

/// Control-point row `i`: one scalar per spline axis in X/Y/Z order.
pub open spec fn ser_row(mask: TransformMask, scale: bool, axes: Seq<AxisModel>, q: QuantizationType, i: int) -> Seq<u8> {
    row_piece(mask, scale, axes, q, 0, i) + row_piece(mask, scale, axes, q, 1, i) + row_piece(mask, scale, axes, q, 2, i)
}

/// The first `n` control-point rows.
pub open spec fn ser_rows(mask: TransformMask, scale: bool, axes: Seq<AxisModel>, q: QuantizationType, n: nat) -> Seq<u8>
    decreases n,
{
    if n == 0 {
        Seq::empty()
    } else {
        ser_rows(mask, scale, axes, q, (n - 1) as nat) + ser_row(mask, scale, axes, q, n - 1)
    }
}

#[verifier::opaque]
/// The bytes of a valid spline vector starting at position `p`: item count
/// minus one, degree, knots, padding to 4, the three axis headers, the
/// control-point rows and padding to 4.
pub open spec fn ser_dynamic_vector_bytes(
    mask: TransformMask,
    scale: bool,
    q: QuantizationType,
    axes: Seq<AxisModel>,
    knots: Seq<u8>,
    degree: u8,
    p: int,
) -> Seq<u8> {
    let n = dynamic_count(mask, scale, axes);
    let head = ser_u16((n - 1) as u16) + seq![degree] + knots;
    let body = ser_axis_header(axes[0]) + ser_axis_header(axes[1]) + ser_axis_header(axes[2]) + ser_rows(mask, scale, axes, q, n as nat);
    let before_body = head + padding(p + head.len(), 4);
    let before_tail = before_body + body;
    before_tail + padding(p + before_tail.len(), 4)
}

/// A spline vector: its bytes, or the first problem found.
pub open spec fn ser_dynamic_vector(
    mask: TransformMask,
    scale: bool,
    q: QuantizationType,
    axes: Seq<AxisModel>,
    knots: Seq<u8>,
    degree: u8,
    p: int,
) -> Result<Seq<u8>, SplineError> {
    match dynamic_vector_error(mask, scale, q, axes, knots, degree) {
        Some(e) => Err(e),
        None => Ok(ser_dynamic_vector_bytes(mask, scale, q, axes, knots, degree, p)),
    }
}

/// A position (`scale == false`) or scale vector starting at `p`.
pub open spec fn ser_vector(mask: TransformMask, scale: bool, q: QuantizationType, v: VectorModel, p: int) -> Result<Seq<u8>, SplineError> {
    match v {
        VectorModel::Static(value) => if vector_is_dynamic(mask, scale) {
            Err(SplineError::InvalidData("vector track is static while its mask contains a dynamic axis"))
        } else {
            ser_static_vector(mask, scale, value)
        },
        VectorModel::Dynamic { axes, knots, degree } => if !vector_is_dynamic(mask, scale) {
            Err(SplineError::InvalidData("vector track is dynamic while its mask contains no dynamic axis"))
        } else {
            ser_dynamic_vector(mask, scale, q, axes, knots, degree, p)
        },
    }
}

/// Checks one axis of a spline vector; see [`axis_error`].
fn check_axis(axis: &VectorAxis, count: usize, q: QuantizationType) -> (r: Option<SplineError>)
    ensures
        r == axis_error(axis@, count as int, q),
{
    match axis {
        VectorAxis::Dynamic { min, max, values } => {
            if values.len() != count {
                return Some(SplineError::InvalidData("dynamic vector axes have different frame sample counts"));
            }
            if !is_finite_bits(*min) || !is_finite_bits(*max) {
                return Some(SplineError::InvalidData("cannot quantize a non-finite scalar"));
            }
            if q == QuantizationType::Bit8 {
                let mut i: usize = 0;
                while i < values.len()
                    invariant
                        i <= values@.len(),
                        values@.len() == count,
                        f32_is_finite(*min) && f32_is_finite(*max),
                        axis@ == (AxisModel::Dynamic { min: *min, max: *max, values: values@ }),
                        q is Bit8,
                        forall|j: int| 0 <= j < i ==> fits_quantization(#[trigger] values@[j], q),
                    decreases values@.len() - i,
                {
                    if values[i] >= 0x100 {
                        assert(!fits_quantization(values@[i as int], q));
                        return Some(SplineError::InvalidData("quantized control point exceeds its quantization"));
                    }
                    i = i + 1;
                }
            }
            None
        },
        VectorAxis::Static(v) => {
            if !is_finite_bits(*v) {
                Some(SplineError::InvalidData("static vector contains a non-finite value"))
            } else {
                None
            }
        },
        VectorAxis::Identity => None,
    }
}

/// Whether a stored axis has the shape its mask kind calls for.
fn check_axis_shape(kind: SplineTrackType, axis: &VectorAxis) -> (r: bool)
    ensures
        r == axis_matches(kind, axis@),
{
    match (kind, axis) {
        (SplineTrackType::Dynamic, VectorAxis::Dynamic { .. }) => true,
        (SplineTrackType::Static, VectorAxis::Static(_)) => true,
        (SplineTrackType::Identity, VectorAxis::Identity) => true,
        _ => false,
    }
}

/// The number of control points of an axis.
fn axis_len(axis: &VectorAxis) -> (r: usize)
    ensures
        r == axis_values(axis@).len(),
{
    match axis {
        VectorAxis::Dynamic { values, .. } => values.len(),
        _ => 0,
    }
}

/// Validates a spline vector and returns its control-point count.
fn check_dynamic_vector(mask: TransformMask, scale: bool, q: QuantizationType, track: &SplineDynamicTrackVector) -> (r: Result<usize, SplineError>)
    ensures
        match dynamic_vector_error(mask, scale, q, track.tracks@.map_values(|a: VectorAxis| a@), track.knots@, track.degree) {
            Some(e) => r == Err::<usize, SplineError>(e),
            None => r == Ok::<usize, SplineError>(dynamic_count(mask, scale, track.tracks@.map_values(|a: VectorAxis| a@)) as usize),
        },
{
    proof {
        reveal(dynamic_vector_error);
    }
    let ghost axes = track.tracks@.map_values(|a: VectorAxis| a@);
    assert(axes[0] == track.tracks[0]@ && axes[1] == track.tracks[1]@ && axes[2] == track.tracks[2]@);
    let types = vector_type_array(scale);
    let k0 = mask.sub_track_type(types[0]);
    let k1 = mask.sub_track_type(types[1]);
    let k2 = mask.sub_track_type(types[2]);
    if !(check_axis_shape(k0, &track.tracks[0]) && check_axis_shape(k1, &track.tracks[1]) && check_axis_shape(k2, &track.tracks[2])) {
        return Err(SplineError::InvalidData("vector axis does not match its mask"));
    }
    let n = if k0 == SplineTrackType::Dynamic {
        axis_len(&track.tracks[0])
    } else if k1 == SplineTrackType::Dynamic {
        axis_len(&track.tracks[1])
    } else {
        axis_len(&track.tracks[2])
    };
    if n == 0 {
        return Err(SplineError::InvalidData("dynamic vector contains no frame samples"));
    }
    if n == 1 {
        return Err(SplineError::InvalidData("dynamic vector requires at least two frame samples"));
    }
    if n > 0x1_0000 {
        return Err(SplineError::InvalidData("too many vector spline frame samples"));
    }
    if let Some(e) = check_axis(&track.tracks[0], n, q) {
        return Err(e);
    }
    if let Some(e) = check_axis(&track.tracks[1], n, q) {
        return Err(e);
    }
    if let Some(e) = check_axis(&track.tracks[2], n, q) {
        return Err(e);
    }
    if track.degree == 0 {
        return Err(SplineError::InvalidData("B-spline degree must not be zero"));
    }
    if track.knots.len() != n + track.degree as usize + 1 {
        return Err(SplineError::InvalidData("B-spline knot count does not match frame sample count"));
    }
    Ok(n)
}

/// Writes the per-axis data that follows a vector spline header.
fn write_axis_header(out: &mut Vec<u8>, axis: &VectorAxis)
    ensures
        final(out)@ == old(out)@ + ser_axis_header(axis@),
{
    match axis {
        VectorAxis::Dynamic { min, max, .. } => {
            push_u32_le(out, *min);
            push_u32_le(out, *max);
            assert(final(out)@ =~= old(out)@ + ser_axis_header(axis@));
        },
        VectorAxis::Static(v) => push_u32_le(out, *v),
        VectorAxis::Identity => {
            assert(final(out)@ =~= old(out)@ + ser_axis_header(axis@));
        },
    }
}

/// Writes one quantized scalar.
fn write_scalar(out: &mut Vec<u8>, v: u16, q: QuantizationType)
    requires
        fits_quantization(v, q),
    ensures
        final(out)@ == old(out)@ + ser_scalar(v, q),
{
    if q == QuantizationType::Bit8 {
        out.push(v as u8);
        assert(final(out)@ =~= old(out)@ + ser_scalar(v, q));
    } else {
        push_u16_le(out, v);
        out.push(0);
        out.push(0);
        assert(final(out)@ =~= old(out)@ + ser_scalar(v, q));
    }
}

/// Writes the bytes of axis `a` in control-point row `i`.
fn write_row_piece(out: &mut Vec<u8>, kind: SplineTrackType, axis: &VectorAxis, q: QuantizationType, i: usize, Ghost(mask): Ghost<TransformMask>, Ghost(scale): Ghost<bool>, Ghost(axes): Ghost<Seq<AxisModel>>, Ghost(a): Ghost<int>)
    requires
        0 <= a < 3,
        axes.len() == 3,
        kind == vector_kind(mask, scale, a),
        axis@ == axes[a],
        axis_matches(kind, axis@),
        axis_error(axis@, axis_values(axis@).len() as int, q) is None,
        kind is Dynamic ==> i < axis_values(axis@).len(),
    ensures
        final(out)@ == old(out)@ + row_piece(mask, scale, axes, q, a, i as int),
{
    match axis {
        VectorAxis::Dynamic { values, .. } => {
            assert(kind is Dynamic);
            assert(fits_quantization(values@[i as int], q));
            write_scalar(out, values[i], q);
        },
        _ => {
            assert(final(out)@ =~= old(out)@ + row_piece(mask, scale, axes, q, a, i as int));
        },
    }
}

/// Writes control-point row `i` of a valid spline vector.
fn write_row(out: &mut Vec<u8>, kinds: [SplineTrackType; 3], tracks: &[VectorAxis; 3], q: QuantizationType, i: usize, Ghost(mask): Ghost<TransformMask>, Ghost(scale): Ghost<bool>, Ghost(axes): Ghost<Seq<AxisModel>>, Ghost(n): Ghost<int>)
    requires
        axes.len() == 3,
        axes[0] == tracks[0]@ && axes[1] == tracks[1]@ && axes[2] == tracks[2]@,
        kinds[0] == vector_kind(mask, scale, 0),
        kinds[1] == vector_kind(mask, scale, 1),
        kinds[2] == vector_kind(mask, scale, 2),
        axis_matches(kinds[0], axes[0]) && axis_matches(kinds[1], axes[1]) && axis_matches(kinds[2], axes[2]),
        axis_error(axes[0], n, q) is None && axis_error(axes[1], n, q) is None && axis_error(axes[2], n, q) is None,
        i < n,
    ensures
        final(out)@ == old(out)@ + ser_row(mask, scale, axes, q, i as int),
{
    let ghost o = out@;
    write_row_piece(out, kinds[0], &tracks[0], q, i, Ghost(mask), Ghost(scale), Ghost(axes), Ghost(0));
    let ghost o1 = out@;
    write_row_piece(out, kinds[1], &tracks[1], q, i, Ghost(mask), Ghost(scale), Ghost(axes), Ghost(1));
    let ghost o2 = out@;
    write_row_piece(out, kinds[2], &tracks[2], q, i, Ghost(mask), Ghost(scale), Ghost(axes), Ghost(2));
    assert(out@ =~= o + ser_row(mask, scale, axes, q, i as int));
}

/// Writes the first `n` control-point rows of a valid spline vector.
fn write_rows(out: &mut Vec<u8>, kinds: [SplineTrackType; 3], tracks: &[VectorAxis; 3], q: QuantizationType, n: usize, Ghost(mask): Ghost<TransformMask>, Ghost(scale): Ghost<bool>, Ghost(axes): Ghost<Seq<AxisModel>>)
    requires
        axes.len() == 3,
        axes[0] == tracks[0]@ && axes[1] == tracks[1]@ && axes[2] == tracks[2]@,
        kinds[0] == vector_kind(mask, scale, 0),
        kinds[1] == vector_kind(mask, scale, 1),
        kinds[2] == vector_kind(mask, scale, 2),
        axis_matches(kinds[0], axes[0]) && axis_matches(kinds[1], axes[1]) && axis_matches(kinds[2], axes[2]),
        axis_error(axes[0], n as int, q) is None && axis_error(axes[1], n as int, q) is None && axis_error(axes[2], n as int, q) is None,
    ensures
        final(out)@ == old(out)@ + ser_rows(mask, scale, axes, q, n as nat),
{
    let ghost before = out@;
    let mut item: usize = 0;
    while item < n
        invariant
            item <= n,
            axes.len() == 3,
            axes[0] == tracks[0]@ && axes[1] == tracks[1]@ && axes[2] == tracks[2]@,
            kinds[0] == vector_kind(mask, scale, 0),
            kinds[1] == vector_kind(mask, scale, 1),
            kinds[2] == vector_kind(mask, scale, 2),
            axis_matches(kinds[0], axes[0]) && axis_matches(kinds[1], axes[1]) && axis_matches(kinds[2], axes[2]),
            axis_error(axes[0], n as int, q) is None && axis_error(axes[1], n as int, q) is None && axis_error(axes[2], n as int, q) is None,
            out@ == before + ser_rows(mask, scale, axes, q, item as nat),
        decreases n - item,
    {
        let ghost o = out@;
        write_row(out, kinds, tracks, q, item, Ghost(mask), Ghost(scale), Ghost(axes), Ghost(n as int));
        assert(out@ =~= before + ser_rows(mask, scale, axes, q, (item + 1) as nat));
        item = item + 1;
    }
}

/// Writes a spline vector; nothing is written when it is invalid.
fn write_dynamic_vector(out: &mut Vec<u8>, mask: TransformMask, scale: bool, q: QuantizationType, track: &SplineDynamicTrackVector) -> (r: Result<(), SplineError>)
    requires
        q is Bit8 || q is Bit16,
    ensures
        match ser_dynamic_vector(mask, scale, q, track.tracks@.map_values(|a: VectorAxis| a@), track.knots@, track.degree, old(out)@.len() as int) {
            Ok(b) => r is Ok && final(out)@ == old(out)@ + b,
            Err(e) => r == Err::<(), SplineError>(e) && final(out)@ == old(out)@,
        },
{
    let ghost axes = track.tracks@.map_values(|a: VectorAxis| a@);
    assert(axes[0] == track.tracks[0]@ && axes[1] == track.tracks[1]@ && axes[2] == track.tracks[2]@);
    let n = check_dynamic_vector(mask, scale, q, track)?;
    let ghost start = out@;
    let types = vector_type_array(scale);
    let k0 = mask.sub_track_type(types[0]);
    let k1 = mask.sub_track_type(types[1]);
    let k2 = mask.sub_track_type(types[2]);
    assert(axis_matches(k0, axes[0]) && axis_matches(k1, axes[1]) && axis_matches(k2, axes[2])
        && axis_error(axes[0], n as int, q) is None && axis_error(axes[1], n as int, q) is None
        && axis_error(axes[2], n as int, q) is None && 2 <= n <= 0x1_0000) by {
        reveal(dynamic_vector_error);
    }
    push_u16_le(out, (n - 1) as u16);
    out.push(track.degree);
    push_bytes(out, track.knots.as_slice());
    let ghost o1 = out@;
    align4(out);
    let ghost o2 = out@;
    write_axis_header(out, &track.tracks[0]);
    write_axis_header(out, &track.tracks[1]);
    write_axis_header(out, &track.tracks[2]);
    let ghost oh = out@;
    write_rows(out, [k0, k1, k2], &track.tracks, q, n, Ghost(mask), Ghost(scale), Ghost(axes));
    let ghost o3 = out@;
    align4(out);
    proof {
        reveal(ser_dynamic_vector_bytes);
        let head = ser_u16((n - 1) as u16) + seq![track.degree] + track.knots@;
        assert(o1 =~= start + head);
        let before_body = head + padding((start.len() + head.len()) as int, 4);
        lemma_append_assoc(start, head, padding((start.len() + head.len()) as int, 4));
        assert(o2 == start + before_body);
        let hdrs = ser_axis_header(axes[0]) + ser_axis_header(axes[1]) + ser_axis_header(axes[2]);
        assert(oh =~= o2 + hdrs);
        let rows = ser_rows(mask, scale, axes, q, n as nat);
        lemma_append_assoc(o2, hdrs, rows);
        lemma_append_assoc(start, before_body, hdrs + rows);
        let before_tail = before_body + (hdrs + rows);
        assert(o3 == start + before_tail);
        lemma_append_assoc(start, before_tail, padding((start.len() + before_tail.len()) as int, 4));
        lemma_append_assoc(hdrs, rows, Seq::<u8>::empty());
        assert(hdrs + rows == ser_axis_header(axes[0]) + ser_axis_header(axes[1]) + ser_axis_header(axes[2]) + rows);
    }
    Ok(())
}

// ---------------------------------------------------------------------------
// Rotations
// ---------------------------------------------------------------------------

/// Whether quaternions of this quantization can be written.
pub open spec fn quat_writable(q: QuantizationType) -> bool {
    q is Bit40 || q is Bit48 || q is Uncompressed
}

/// One packed quaternion in the given quantization: its bytes, or the error
/// for a format without a writer or a quaternion of another format.
pub open spec fn ser_quat(quat: QuatModel, q: QuantizationType) -> Result<Seq<u8>, SplineError> {
    if !quat_writable(q) {
        Err(SplineError::InvalidData("quaternion quantization format is not supported by the encoder"))
    } else {
        match (q, quat) {
            (QuantizationType::Bit40, QuatModel::ThreeComp40(bytes)) => Ok(bytes),
            (QuantizationType::Bit48, QuatModel::ThreeComp48(x, y, z)) => Ok(ser_u16(x) + ser_u16(y) + ser_u16(z)),
            (QuantizationType::Uncompressed, QuatModel::Uncompressed(c)) => Ok(
                ser_u32(c[0]) + ser_u32(c[1]) + ser_u32(c[2]) + ser_u32(c[3]),
            ),
            _ => Err(SplineError::InvalidData("quaternion does not match its quantization")),
        }
    }
}

/// The bytes of quaternions that all have a writer.
pub open spec fn ser_quats(track: Seq<QuatModel>, q: QuantizationType) -> Seq<u8>
    decreases track.len(),
{
    if track.len() == 0 {
        Seq::empty()
    } else {
        ser_quats(track.drop_last(), q) + ser_quat(track.last(), q)->Ok_0
    }
}

/// The first problem with a quaternion spline, if any.
pub open spec fn dynamic_rotation_error(q: QuantizationType, track: Seq<QuatModel>, knots: Seq<u8>, degree: u8) -> Option<SplineError> {
    let n = track.len();
    if n == 0 {
        Some(SplineError::InvalidData("dynamic quaternion track contains no frame samples"))
    } else if n == 1 {
        Some(SplineError::InvalidData("dynamic quaternion track requires at least two frame samples"))
    } else if n > 0x1_0000 {
        Some(SplineError::InvalidData("too many quaternion spline frame samples"))
    } else if degree == 0 {
        Some(SplineError::InvalidData("B-spline degree must not be zero"))
    } else if knots.len() != n + degree + 1 {
        Some(SplineError::InvalidData("B-spline knot count does not match frame sample count"))
    } else if exists|i: int| 0 <= i < n && #[trigger] ser_quat(track[i], q) is Err {
        Some(ser_quat(track[choose|i: int| 0 <= i < n && #[trigger] ser_quat(track[i], q) is Err], q)->Err_0)
    } else {
        None
    }
}

/// A quaternion spline starting at `p`: item count minus one, degree,
/// knots, padding for the quantization and the packed quaternions.
pub open spec fn ser_dynamic_rotation(q: QuantizationType, track: Seq<QuatModel>, knots: Seq<u8>, degree: u8, p: int) -> Result<Seq<u8>, SplineError> {
    match dynamic_rotation_error(q, track, knots, degree) {
        Some(e) => Err(e),
        None => {
            let head = ser_u16((track.len() - 1) as u16) + seq![degree] + knots;
            Ok(head + padding(p + head.len(), rotation_read_align(q)) + ser_quats(track, q))
        },
    }
}

/// A rotation track starting at `p`.
pub open spec fn ser_rotation(mask: TransformMask, rotation: RotationModel, p: int) -> Result<Seq<u8>, SplineError> {
    match mask.spec_rotation_quantization() {
        Err(e) => Err(e),
        Ok(q) => {
            let kind = rotation_kind(mask.rotation_types);
            match rotation {
                RotationModel::Identity => if kind is Identity {
                    Ok(Seq::empty())
                } else {
                    Err(SplineError::InvalidData("rotation track is identity while its mask is not identity"))
                },
                RotationModel::Static(value) => if !(kind is Static) {
                    Err(SplineError::InvalidData("rotation track is static while its mask is not static"))
                } else {
                    match ser_quat(value, q) {
                        Err(e) => Err(e),
                        Ok(b) => Ok(padding(p, rotation_read_align(q)) + b),
                    }
                },
                RotationModel::Dynamic { track, knots, degree } => if !(kind is Dynamic) {
                    Err(SplineError::InvalidData("rotation track is dynamic while its mask is not dynamic"))
                } else {
                    ser_dynamic_rotation(q, track, knots, degree, p)
                },
            }
        },
    }
}

/// Whether a quaternion can be written in the given quantization.
fn quat_fits(quat: &PackedQuat, q: QuantizationType) -> (r: bool)
    ensures
        r == ser_quat(quat@, q) is Ok,
{
    match (q, quat) {
        (QuantizationType::Bit40, PackedQuat::ThreeComp40(_)) => true,
        (QuantizationType::Bit48, PackedQuat::ThreeComp48(_)) => true,
        (QuantizationType::Uncompressed, PackedQuat::Uncompressed(_)) => true,
        _ => false,
    }
}

/// Writes one packed quaternion; nothing is written when it cannot be.
fn write_quat(out: &mut Vec<u8>, quat: &PackedQuat, q: QuantizationType) -> (r: Result<(), SplineError>)
    ensures
        match ser_quat(quat@, q) {
            Ok(b) => r is Ok && final(out)@ == old(out)@ + b,
            Err(e) => r == Err::<(), SplineError>(e) && final(out)@ == old(out)@,
        },
{
    match q {
        QuantizationType::Bit40 | QuantizationType::Bit48 | QuantizationType::Uncompressed => {},
        _ => return Err(SplineError::InvalidData("quaternion quantization format is not supported by the encoder")),
    }
    match (q, quat) {
        (QuantizationType::Bit40, PackedQuat::ThreeComp40(v)) => {
            push_bytes(out, &v.bytes);
            Ok(())
        },
        (QuantizationType::Bit48, PackedQuat::ThreeComp48(v)) => {
            push_u16_le(out, v.x);
            push_u16_le(out, v.y);
            push_u16_le(out, v.z);
            assert(final(out)@ =~= old(out)@ + (ser_u16(v.x) + ser_u16(v.y) + ser_u16(v.z)));
            Ok(())
        },
        (QuantizationType::Uncompressed, PackedQuat::Uncompressed(c)) => {
            push_u32_le(out, c[0]);
            push_u32_le(out, c[1]);
            push_u32_le(out, c[2]);
            push_u32_le(out, c[3]);
            assert(final(out)@ =~= old(out)@ + (ser_u32(c@[0]) + ser_u32(c@[1]) + ser_u32(c@[2]) + ser_u32(c@[3])));
            Ok(())
        },
        _ => Err(SplineError::InvalidData("quaternion does not match its quantization")),
    }
}

/// Pads with zero bytes as required before quaternions of the given format.
pub fn align_rotation(out: &mut Vec<u8>, q: QuantizationType)
    ensures
        final(out)@ == old(out)@ + padding(old(out)@.len() as int, rotation_read_align(q)),
{
    let alignment: usize = match q {
        QuantizationType::Bit48 | QuantizationType::Bit16Quat => 2,
        QuantizationType::Bit32 | QuantizationType::Uncompressed => 4,
        _ => 1,
    };
    align_to(out, alignment);
    assert(out@ =~= old(out)@ + padding(old(out)@.len() as int, rotation_read_align(q)));
}

/// Writes a quaternion spline; nothing is written when it is invalid.
fn write_dynamic_rotation(out: &mut Vec<u8>, q: QuantizationType, track: &SplineDynamicTrackQuat) -> (r: Result<(), SplineError>)
    ensures
        match ser_dynamic_rotation(q, track.track@.map_values(|x: PackedQuat| x@), track.knots@, track.degree, old(out)@.len() as int) {
            Ok(b) => r is Ok && final(out)@ == old(out)@ + b,
            Err(e) => r == Err::<(), SplineError>(e) && final(out)@ == old(out)@,
        },
{
    let ghost quats = track.track@.map_values(|x: PackedQuat| x@);
    let n = track.track.len();
    if n == 0 {
        return Err(SplineError::InvalidData("dynamic quaternion track contains no frame samples"));
    }
    if n == 1 {
        return Err(SplineError::InvalidData("dynamic quaternion track requires at least two frame samples"));
    }
    if n > 0x1_0000 {
        return Err(SplineError::InvalidData("too many quaternion spline frame samples"));
    }
    if track.degree == 0 {
        return Err(SplineError::InvalidData("B-spline degree must not be zero"));
    }
    if track.knots.len() != n + track.degree as usize + 1 {
        return Err(SplineError::InvalidData("B-spline knot count does not match frame sample count"));
    }
    let mut i: usize = 0;
    while i < n
        invariant
            i <= n,
            n == track.track@.len(),
            quats == track.track@.map_values(|x: PackedQuat| x@),
            forall|j: int| 0 <= j < i ==> #[trigger] ser_quat(quats[j], q) is Ok,
            2 <= n <= 0x1_0000,
            track.degree != 0,
            track.knots@.len() == n + track.degree + 1,
        decreases n - i,
    {
        if !quat_fits(&track.track[i], q) {
            let ghost bad = quats[i as int];
            let mut scratch: Vec<u8> = Vec::new();
            let e = match write_quat(&mut scratch, &track.track[i], q) {
                Ok(()) => {
                    assert(false);
                    SplineError::InvalidData("quaternion does not match its quantization")
                },
                Err(e) => e,
            };
            proof {
                assert(ser_quat(quats[i as int], q) is Err);
                let c = choose|k: int| 0 <= k < n && #[trigger] ser_quat(quats[k], q) is Err;
                assert(ser_quat(quats[c], q) is Err);
                assert(ser_quat(quats[c], q) == ser_quat(quats[i as int], q));
            }
            return Err(e);
        }
        i = i + 1;
    }
    let ghost start = out@;
    push_u16_le(out, (n - 1) as u16);
    out.push(track.degree);
    push_bytes(out, track.knots.as_slice());
    let ghost o1 = out@;
    align_rotation(out, q);
    let ghost o2 = out@;
    let mut k: usize = 0;
    while k < n
        invariant
            k <= n,
            n == track.track@.len(),
            quats == track.track@.map_values(|x: PackedQuat| x@),
            forall|j: int| 0 <= j < n ==> #[trigger] ser_quat(quats[j], q) is Ok,
            out@ == o2 + ser_quats(quats.take(k as int), q),
        decreases n - k,
    {
        let ghost before = out@;
        let _ = write_quat(out, &track.track[k], q);
        proof {
            assert(quats.take(k + 1).drop_last() =~= quats.take(k as int));
            assert(quats.take(k + 1).last() == quats[k as int]);
            lemma_append_assoc(o2, ser_quats(quats.take(k as int), q), ser_quat(quats[k as int], q)->Ok_0);
        }
        k = k + 1;
    }
    proof {
        assert(quats.take(n as int) =~= quats);
        let head = ser_u16((n - 1) as u16) + seq![track.degree] + track.knots@;
        assert(o1 =~= start + head);
        lemma_append_assoc(start, head, padding(o1.len() as int, rotation_read_align(q)));
        lemma_append_assoc(start, head + padding(o1.len() as int, rotation_read_align(q)), ser_quats(quats, q));
    }
    Ok(())
}

/// Writes a rotation track; nothing is written when it is invalid.
fn write_rotation(out: &mut Vec<u8>, mask: TransformMask, rotation: &SplineTrackQuat) -> (r: Result<(), SplineError>)
    ensures
        match ser_rotation(mask, rotation@, old(out)@.len() as int) {
            Ok(b) => r is Ok && final(out)@ == old(out)@ + b,
            Err(e) => r == Err::<(), SplineError>(e) && final(out)@ == old(out)@,
        },
{
    let q = mask.rotation_quantization_type()?;
    let kind = mask.sub_track_type(TransformType::Rotation);
    match rotation {
        SplineTrackQuat::Identity => {
            if kind != SplineTrackType::Identity {
                return Err(SplineError::InvalidData("rotation track is identity while its mask is not identity"));
            }
            assert(final(out)@ =~= old(out)@ + Seq::<u8>::empty());
            Ok(())
        },
        SplineTrackQuat::Static(t) => {
            if kind != SplineTrackType::Static {
                return Err(SplineError::InvalidData("rotation track is static while its mask is not static"));
            }
            if !quat_fits(&t.value, q) {
                return write_quat(out, &t.value, q);
            }
            let ghost start = out@;
            align_rotation(out, q);
            let ghost o1 = out@;
            let _ = write_quat(out, &t.value, q);
            proof {
                lemma_append_assoc(start, padding(start.len() as int, rotation_read_align(q)), ser_quat(t.value@, q)->Ok_0);
            }
            Ok(())
        },
        SplineTrackQuat::Dynamic(t) => {
            if kind != SplineTrackType::Dynamic {
                return Err(SplineError::InvalidData("rotation track is dynamic while its mask is not dynamic"));
            }
            write_dynamic_rotation(out, q, t)
        },
    }
}

/// Writes a position or scale track; nothing is written when it is invalid.
fn write_vector(out: &mut Vec<u8>, mask: TransformMask, scale: bool, q: QuantizationType, v: &SplineTrackVector) -> (r: Result<(), SplineError>)
    requires
        q is Bit8 || q is Bit16,
    ensures
        match ser_vector(mask, scale, q, v@, old(out)@.len() as int) {
            Ok(b) => r is Ok && final(out)@ == old(out)@ + b,
            Err(e) => r == Err::<(), SplineError>(e) && final(out)@ == old(out)@,
        },
{
    let types = vector_type_array(scale);
    let dynamic = mask.sub_track_type(types[0]) == SplineTrackType::Dynamic
        || mask.sub_track_type(types[1]) == SplineTrackType::Dynamic
        || mask.sub_track_type(types[2]) == SplineTrackType::Dynamic;
    match v {
        SplineTrackVector::Static(t) => {
            if dynamic {
                return Err(SplineError::InvalidData("vector track is static while its mask contains a dynamic axis"));
            }
            let mut bytes: Vec<u8> = Vec::new();
            write_static_vector(&mut bytes, mask, scale, &t.value)?;
            assert(bytes@ =~= Seq::<u8>::empty() + bytes@);
            push_bytes(out, bytes.as_slice());
            Ok(())
        },
        SplineTrackVector::Dynamic(t) => {
            if !dynamic {
                return Err(SplineError::InvalidData("vector track is dynamic while its mask contains no dynamic axis"));
            }
            write_dynamic_vector(out, mask, scale, q, t)
        },
    }
}

// ---------------------------------------------------------------------------
// Tracks and blocks
// ---------------------------------------------------------------------------

/// A transform track starting at `p` (a multiple of 4): position, padding
/// to 4, rotation, padding to 4, scale.
#[verifier::opaque]
pub open spec fn ser_track(mask: TransformMask, t: TrackModel, p: int) -> Result<Seq<u8>, SplineError> {
    match mask.spec_position_quantization() {
        Err(e) => Err(e),
        Ok(pq) => match ser_vector(mask, false, pq, t.position, p) {
            Err(e) => Err(e),
            Ok(pos) => {
                let s1 = pos + padding(p + pos.len(), 4);
                match ser_rotation(mask, t.rotation, p + s1.len()) {
                    Err(e) => Err(e),
                    Ok(rot) => {
                        let s2 = s1 + rot;
                        let s3 = s2 + padding(p + s2.len(), 4);
                        match mask.spec_scale_quantization() {
                            Err(e) => Err(e),
                            Ok(sq) => match ser_vector(mask, true, sq, t.scale, p + s3.len()) {
                                Err(e) => Err(e),
                                Ok(sc) => Ok(s3 + sc),
                            },
                        }
                    },
                }
            },
        },
    }
}

/// The tracks of a block, one per mask, starting at `p`.
pub open spec fn ser_tracks(masks: Seq<TransformMask>, tracks: Seq<TrackModel>, p: int) -> Result<Seq<u8>, SplineError>
    decreases tracks.len(),
{
    if tracks.len() == 0 {
        Ok(Seq::empty())
    } else {
        match ser_tracks(masks.drop_last(), tracks.drop_last(), p) {
            Err(e) => Err(e),
            Ok(prev) => match ser_track(masks.last(), tracks.last(), p + prev.len()) {
                Err(e) => Err(e),
                Ok(t) => Ok(prev + t),
            },
        }
    }
}

/// The four bytes of a transform mask.
pub open spec fn ser_mask(m: TransformMask) -> Seq<u8> {
    seq![m.quantization_types, m.position_types, m.rotation_types, m.scale_types]
}

/// The bytes of a sequence of masks.
pub open spec fn ser_masks(masks: Seq<TransformMask>) -> Seq<u8>
    decreases masks.len(),
{
    if masks.len() == 0 {
        Seq::empty()
    } else {
        ser_masks(masks.drop_last()) + ser_mask(masks.last())
    }
}

/// A whole block: its masks, padding to 4, its tracks and padding to 16.
pub open spec fn ser_block(b: BlockModel) -> Result<Seq<u8>, SplineError> {
    if b.masks.len() != b.tracks.len() {
        Err(SplineError::InvalidData("mask count does not match track count"))
    } else {
        let head = ser_masks(b.masks);
        let start = head + padding(head.len() as int, 4);
        match ser_tracks(b.masks, b.tracks, start.len() as int) {
            Err(e) => Err(e),
            Ok(t) => Ok(start + t + padding((start.len() + t.len()) as int, 16)),
        }
    }
}

/// Writes one transform track; nothing is written when it is invalid.
#[verifier::spinoff_prover]
#[verifier::rlimit(40)]
fn write_track(out: &mut Vec<u8>, mask: TransformMask, track: &TransformTrack) -> (r: Result<(), SplineError>)
    ensures
        match ser_track(mask, track@, old(out)@.len() as int) {
            Ok(b) => r is Ok && final(out)@ == old(out)@ + b,
            Err(e) => r == Err::<(), SplineError>(e),
        },
{
    proof {
        reveal(ser_track);
    }
    let ghost start = out@;
    let pq = mask.position_quantization_type()?;
    write_vector(out, mask, false, pq, &track.position)?;
    let ghost o1 = out@;
    align4(out);
    let ghost o2 = out@;
    write_rotation(out, mask, &track.rotation)?;
    let ghost o3 = out@;
    align4(out);
    let ghost o4 = out@;
    let sq = mask.scale_quantization_type()?;
    write_vector(out, mask, true, sq, &track.scale)?;
    proof {
        let pos = o1.subrange(start.len() as int, o1.len() as int);
        assert(o1 =~= start + pos);
        let s1 = pos + padding(o1.len() as int, 4);
        lemma_append_assoc(start, pos, padding(o1.len() as int, 4));
        let rot = o3.subrange(o2.len() as int, o3.len() as int);
        assert(o3 =~= o2 + rot);
        lemma_append_assoc(start, s1, rot);
        let s2 = s1 + rot;
        lemma_append_assoc(start, s2, padding(o3.len() as int, 4));
        let s3 = s2 + padding(o3.len() as int, 4);
        let sc = out@.subrange(o4.len() as int, out@.len() as int);
        assert(out@ =~= o4 + sc);
        lemma_append_assoc(start, s3, sc);
    }
    Ok(())
}

/// Writes one track per mask, in order.
fn write_tracks(out: &mut Vec<u8>, masks: &Vec<TransformMask>, tracks: &Vec<TransformTrack>) -> (r: Result<(), SplineError>)
    requires
        masks@.len() == tracks@.len(),
    ensures
        match ser_tracks(masks@, tracks@.map_values(|t: TransformTrack| t@), old(out)@.len() as int) {
            Ok(b) => r is Ok && final(out)@ == old(out)@ + b,
            Err(e) => r == Err::<(), SplineError>(e),
        },
{
    let ghost start = out@;
    let ghost models = tracks@.map_values(|t: TransformTrack| t@);
    let ghost mut acc: Seq<u8> = Seq::empty();
    let mut k: usize = 0;
    assert(out@ =~= start + acc);
    assert(models.take(0).len() == 0);
    while k < tracks.len()
        invariant
            k <= tracks@.len(),
            masks@.len() == tracks@.len(),
            models == tracks@.map_values(|t: TransformTrack| t@),
            start == old(out)@,
            ser_tracks(masks@.take(k as int), models.take(k as int), start.len() as int) == Ok::<Seq<u8>, SplineError>(acc),
            out@ == start + acc,
        decreases tracks@.len() - k,
    {
        assert(masks@.take(k + 1).drop_last() =~= masks@.take(k as int));
        assert(models.take(k + 1).drop_last() =~= models.take(k as int));
        assert(masks@.take(k + 1).last() == masks@[k as int]);
        assert(models.take(k + 1).last() == tracks@[k as int]@);
        let ghost before = out@;
        assert(models[k as int] == tracks@[k as int]@);
        assert(before.len() == start.len() + acc.len());
        let res = write_track(out, masks[k], &tracks[k]);
        match res {
            Ok(()) => {},
            Err(e) => {
                proof {
                    assert(ser_track(masks@[k as int], tracks@[k as int]@, before.len() as int) == Err::<Seq<u8>, SplineError>(e));
                    assert(ser_tracks(masks@.take(k + 1), models.take(k + 1), start.len() as int) == Err::<Seq<u8>, SplineError>(e));
                    lemma_ser_tracks_prefix_err(masks@, models, k as int + 1, start.len() as int);
                }
                return Err(e);
            },
        }
        proof {
            let t = out@.subrange(before.len() as int, out@.len() as int);
            assert(t =~= ser_track(masks@[k as int], tracks@[k as int]@, before.len() as int)->Ok_0);
            assert(ser_tracks(masks@.take(k + 1).drop_last(), models.take(k + 1).drop_last(), start.len() as int) == Ok::<Seq<u8>, SplineError>(acc));
            assert(ser_tracks(masks@.take(k + 1), models.take(k + 1), start.len() as int) == Ok::<Seq<u8>, SplineError>(acc + t));
            lemma_append_assoc(start, acc, t);
            acc = acc + t;
        }
        k = k + 1;
    }
    assert(masks@.take(masks@.len() as int) =~= masks@);
    assert(models.take(models.len() as int) =~= models);
    Ok(())
}

/// A failure on a prefix of the tracks is the failure of the whole block.
proof fn lemma_ser_tracks_prefix_err(masks: Seq<TransformMask>, tracks: Seq<TrackModel>, n: int, p: int)
    requires
        masks.len() == tracks.len(),
        0 <= n <= tracks.len(),
        ser_tracks(masks.take(n), tracks.take(n), p) is Err,
    ensures
        ser_tracks(masks, tracks, p) == ser_tracks(masks.take(n), tracks.take(n), p),
    decreases tracks.len() - n,
{
    if n < tracks.len() {
        assert(masks.take(n + 1).drop_last() =~= masks.take(n));
        assert(tracks.take(n + 1).drop_last() =~= tracks.take(n));
        lemma_ser_tracks_prefix_err(masks, tracks, n + 1, p);
    } else {
        assert(masks.take(n) =~= masks);
        assert(tracks.take(n) =~= tracks);
    }
}

/// Encodes one block into a fresh buffer; see [`ser_block`].
pub fn encode_block(block: &TransformSplineBlock) -> (r: Result<Vec<u8>, SplineError>)
    ensures
        match ser_block(block@) {
            Ok(b) => r matches Ok(v) && v@ == b,
            Err(e) => r == Err::<Vec<u8>, SplineError>(e),
        },
{
    if block.masks.len() != block.tracks.len() {
        return Err(SplineError::InvalidData("mask count does not match track count"));
    }
    let mut out: Vec<u8> = Vec::new();
    let mut i: usize = 0;
    while i < block.masks.len()
        invariant
            i <= block.masks@.len(),
            out@ == ser_masks(block.masks@.take(i as int)),
        decreases block.masks@.len() - i,
    {
        let m = block.masks[i];
        out.push(m.quantization_types);
        out.push(m.position_types);
        out.push(m.rotation_types);
        out.push(m.scale_types);
        assert(block.masks@.take(i + 1).drop_last() =~= block.masks@.take(i as int));
        assert(out@ =~= ser_masks(block.masks@.take(i + 1)));
        i = i + 1;
    }
    assert(block.masks@.take(block.masks@.len() as int) =~= block.masks@);
    align4(&mut out);
    let ghost start = out@;
    write_tracks(&mut out, &block.masks, &block.tracks)?;
    let ghost o = out@;
    align16(&mut out);
    proof {
        let t = o.subrange(start.len() as int, o.len() as int);
        assert(o =~= start + t);
    }
    Ok(out)
}

// ---------------------------------------------------------------------------
// Whole animations
// ---------------------------------------------------------------------------

/// Encoded spline animation data.
#[derive(Clone, Debug)]
pub struct SplineEncodedData {
    /// The serialized blocks.
    pub data: Vec<u8>,
    /// The byte offset of every block in `data`.
    pub block_offsets: Vec<u32>,
}

/// The data and block offsets of a sequence of blocks, each block written
/// after padding to 4 at an offset that must fit in 32 bits.
pub open spec fn ser_blocks(blocks: Seq<BlockModel>) -> Result<(Seq<u8>, Seq<u32>), SplineError>
    decreases blocks.len(),
{
    if blocks.len() == 0 {
        Ok((Seq::empty(), Seq::empty()))
    } else {
        match ser_blocks(blocks.drop_last()) {
            Err(e) => Err(e),
            Ok((data, offsets)) => {
                let start = data + padding(data.len() as int, 4);
                if start.len() > u32::MAX {
                    Err(SplineError::InvalidData("encoded spline data is too large"))
                } else {
                    match ser_block(blocks.last()) {
                        Err(e) => Err(e),
                        Ok(b) => Ok((start + b, offsets.push(start.len() as u32))),
                    }
                }
            },
        }
    }
}

/// Whether every block has `n` masks and `n` tracks.
pub open spec fn equal_track_counts(blocks: Seq<BlockModel>, n: nat) -> bool {
    forall|i: int| 0 <= i < blocks.len() ==> #[trigger] blocks[i].masks.len() == n && blocks[i].tracks.len() == n
}

/// A whole animation: refused when it has no block or when its blocks do
/// not all have as many masks and tracks as the first block has tracks.
pub open spec fn ser_spline(blocks: Seq<BlockModel>) -> Result<(Seq<u8>, Seq<u32>), SplineError> {
    if blocks.len() == 0 {
        Err(SplineError::InvalidData("cannot encode empty spline data"))
    } else if !equal_track_counts(blocks, blocks[0].tracks.len()) {
        Err(SplineError::InvalidData("animation data blocks do not have equal transform track counts"))
    } else {
        ser_blocks(blocks)
    }
}

impl SplineDecompressor {
    /// Encodes all blocks; see [`ser_spline`].
    pub fn encode(&self) -> (r: Result<SplineEncodedData, SplineError>)
        ensures
            match ser_spline(self@) {
                Ok((d, o)) => r matches Ok(x) && x.data@ == d && x.block_offsets@ == o,
                Err(e) => r == Err::<SplineEncodedData, SplineError>(e),
            },
    {
        let ghost blocks = self@;
        if self.blocks.len() == 0 {
            return Err(SplineError::InvalidData("cannot encode empty spline data"));
        }
        let count = self.blocks[0].tracks.len();
        assert(blocks[0] == self.blocks@[0]@);
        assert(blocks[0].tracks.len() == count);
        let mut i: usize = 0;
        while i < self.blocks.len()
            invariant
                i <= self.blocks@.len(),
                blocks == self@,
                blocks.len() == self.blocks@.len(),
                count == blocks[0].tracks.len(),
                forall|j: int| 0 <= j < i ==> #[trigger] blocks[j].masks.len() == count && blocks[j].tracks.len() == count,
            decreases self.blocks@.len() - i,
        {
            assert(blocks[i as int] == self.blocks@[i as int]@);
            assert(blocks[i as int].masks.len() == self.blocks@[i as int].masks@.len());
            assert(blocks[i as int].tracks.len() == self.blocks@[i as int].tracks@.len());
            if self.blocks[i].masks.len() != count || self.blocks[i].tracks.len() != count {
                assert(!equal_track_counts(blocks, blocks[0].tracks.len()));
                return Err(SplineError::InvalidData("animation data blocks do not have equal transform track counts"));
            }
            i = i + 1;
        }
        let mut data: Vec<u8> = Vec::new();
        let mut block_offsets: Vec<u32> = Vec::new();
        let mut k: usize = 0;
        assert(blocks.take(0).len() == 0);
        while k < self.blocks.len()
            invariant
                k <= self.blocks@.len(),
                blocks == self@,
                blocks.len() == self.blocks@.len(),
                blocks.len() > 0,
                equal_track_counts(blocks, blocks[0].tracks.len()),
                ser_blocks(blocks.take(k as int)) == Ok::<(Seq<u8>, Seq<u32>), SplineError>((data@, block_offsets@)),
            decreases self.blocks@.len() - k,
        {
            assert(blocks.take(k + 1).drop_last() =~= blocks.take(k as int));
            assert(blocks.take(k + 1).last() == self.blocks@[k as int]@);
            align4(&mut data);
            if data.len() > u32::MAX as usize {
                proof {
                    lemma_ser_blocks_prefix_err(blocks, k as int + 1);
                }
                return Err(SplineError::InvalidData("encoded spline data is too large"));
            }
            let offset = data.len() as u32;
            let mut bytes = match encode_block(&self.blocks[k]) {
                Ok(b) => b,
                Err(e) => {
                    proof {
                        lemma_ser_blocks_prefix_err(blocks, k as int + 1);
                    }
                    return Err(e);
                },
            };
            block_offsets.push(offset);
            data.append(&mut bytes);
            k = k + 1;
        }
        assert(blocks.take(blocks.len() as int) =~= blocks);
        Ok(SplineEncodedData { data, block_offsets })
    }
}

/// A failure on a prefix of the blocks is the failure of the whole animation.
proof fn lemma_ser_blocks_prefix_err(blocks: Seq<BlockModel>, n: int)
    requires
        0 <= n <= blocks.len(),
        ser_blocks(blocks.take(n)) is Err,
    ensures
        ser_blocks(blocks) == ser_blocks(blocks.take(n)),
    decreases blocks.len() - n,
{
    if n < blocks.len() {
        assert(blocks.take(n + 1).drop_last() =~= blocks.take(n));
        lemma_ser_blocks_prefix_err(blocks, n + 1);
    } else {
        assert(blocks.take(n) =~= blocks);
    }
}

} // verus!
