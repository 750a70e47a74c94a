//! Decoding of spline-compressed animation blocks into their stored
//! (quantized) representation.

use vstd::prelude::*;

use vstd::slice::{slice_subrange, slice_to_vec};

use super::math::{
    quantization_code, rotation_kind, AxisModel, BlockModel, PackedQuat, QuantizationType,
    QuatModel, RotationModel, SplineDynamicTrackQuat, SplineDynamicTrackVector,
    SplineStaticTrack, SplineTrackQuat, SplineTrackType, SplineTrackVector, TrackModel,
    TransformMask, TransformSplineBlock, TransformTrack, TransformType, VectorAxis, VectorModel,
};
use super::packed::{Quat32, Quat40, Quat48};
use super::{rotation_align_spec, rotation_format};
use crate::text::{decimal, push_decimal, push_text};
use super::reader::{
    parse_align, parse_bytes, parse_skip, parse_u16, parse_u32, parse_u8, word16, word32,
    Endianness, Parsed, Reader,
};

verus! {

/// Errors reported while decoding a spline block.
#[derive(Clone, Copy, Debug, PartialEq, Eq)]
pub enum SplineError {
    /// The input ended before the requested number of bytes was available.
    UnexpectedEof,
    /// The input contains an invalid quantization type.
    InvalidQuantizationType(u8),
    /// The input contains an invalid spline degree.
    InvalidDegree(u8),
    /// The spline knot vector is malformed.
    InvalidKnotVector,
    /// The spline control-point count is invalid.
    InvalidControlPointCount,
    /// A spline evaluation index is outside the control-point array.
    InvalidControlPointIndex,
    /// The decompressed block does not contain the requested track.
    TrackOutOfRange,
    /// The input data cannot be represented by the spline format.
    InvalidData(&'static str),
    /// A block offset points past the end of the spline data.
    EmptySplineData,
}

/// The message text of a decoding error.
pub open spec fn spline_error_message(e: SplineError) -> Seq<char> {
    match e {
        SplineError::UnexpectedEof => "unexpected end of spline data"@,
        SplineError::InvalidQuantizationType(v) => "invalid quantization type: "@ + decimal(v as nat),
        SplineError::InvalidDegree(v) => "invalid spline degree: "@ + decimal(v as nat),
        SplineError::InvalidKnotVector => "invalid spline knot vector"@,
        SplineError::InvalidControlPointCount => "invalid spline control-point count"@,
        SplineError::InvalidControlPointIndex => "invalid spline control-point index"@,
        SplineError::TrackOutOfRange => "track index is out of range"@,
        SplineError::InvalidData(message) => message@,
        SplineError::EmptySplineData => "hkaSplineCompressedAnimation contains no spline data"@,
    }
}

impl SplineError {
    /// The message text of the error.
    pub fn message(&self) -> (r: String)
        ensures
            r@ == spline_error_message(*self),
    {
        let mut s = String::new();
        match self {
            SplineError::UnexpectedEof => push_text(&mut s, "unexpected end of spline data"),
            SplineError::InvalidQuantizationType(v) => {
                push_text(&mut s, "invalid quantization type: ");
                push_decimal(&mut s, *v as u64);
            },
            SplineError::InvalidDegree(v) => {
                push_text(&mut s, "invalid spline degree: ");
                push_decimal(&mut s, *v as u64);
            },
            SplineError::InvalidKnotVector => push_text(&mut s, "invalid spline knot vector"),
            SplineError::InvalidControlPointCount => push_text(&mut s, "invalid spline control-point count"),
            SplineError::InvalidControlPointIndex => push_text(&mut s, "invalid spline control-point index"),
            SplineError::TrackOutOfRange => push_text(&mut s, "track index is out of range"),
            SplineError::InvalidData(message) => push_text(&mut s, message),
            SplineError::EmptySplineData => push_text(&mut s, "hkaSplineCompressedAnimation contains no spline data"),
        }
        s
    }
}

// ---------------------------------------------------------------------------
// Specification of the block layout
// ---------------------------------------------------------------------------

/// The transform components of a position (`scale == false`) or scale vector.
pub open spec fn vector_types(scale: bool) -> Seq<TransformType> {
    if scale {
        seq![TransformType::ScaleX, TransformType::ScaleY, TransformType::ScaleZ]
    } else {
        seq![TransformType::PosX, TransformType::PosY, TransformType::PosZ]
    }
}

/// The kind of one axis of a position or scale vector.
pub open spec fn vector_kind(mask: TransformMask, scale: bool, axis: int) -> SplineTrackType {
    mask.spec_sub_track_type(vector_types(scale)[axis])
}

/// Whether any axis of a position or scale vector is a spline.
pub open spec fn vector_is_dynamic(mask: TransformMask, scale: bool) -> bool {
    vector_kind(mask, scale, 0) is Dynamic || vector_kind(mask, scale, 1) is Dynamic
        || vector_kind(mask, scale, 2) is Dynamic
}

/// The number of spline axes among the first `upto` axes.
pub open spec fn dynamic_rank(mask: TransformMask, scale: bool, upto: int) -> int {
    (if upto > 0 && vector_kind(mask, scale, 0) is Dynamic { 1int } else { 0int })
        + (if upto > 1 && vector_kind(mask, scale, 1) is Dynamic { 1int } else { 0int })
        + (if upto > 2 && vector_kind(mask, scale, 2) is Dynamic { 1int } else { 0int })
}

/// The bit pattern of the default value of a vector: 0.0 for position and
/// 1.0 for scale.
pub open spec fn vector_default(scale: bool) -> u32 {
    if scale { 0x3f80_0000 } else { 0 }
}

/// One lane of a static vector: a stored `f32` for a static axis, the
/// default otherwise.
pub open spec fn parse_static_lane(d: Seq<u8>, p: int, kind: SplineTrackType, default: u32, endian: Endianness) -> Parsed<u32> {
    if kind is Static {
        parse_u32(d, p, endian)
    } else {
        Ok((default, p))
    }
}

/// A vector without spline axes: the static axes' values in X/Y/Z order.
pub open spec fn parse_static_vector(d: Seq<u8>, p: int, mask: TransformMask, scale: bool, endian: Endianness) -> Parsed<VectorModel> {
    let default = vector_default(scale);
    match parse_static_lane(d, p, vector_kind(mask, scale, 0), default, endian) {
        Err(e) => Err(e),
        Ok((x, p1)) => match parse_static_lane(d, p1, vector_kind(mask, scale, 1), default, endian) {
            Err(e) => Err(e),
            Ok((y, p2)) => match parse_static_lane(d, p2, vector_kind(mask, scale, 2), default, endian) {
                Err(e) => Err(e),
                Ok((z, p3)) => Ok((VectorModel::Static(seq![x, y, z, 0u32]), p3)),
            },
        },
    }
}

/// A spline header: item count, degree and `items + degree + 2` knot bytes.
#[verifier::opaque]
pub open spec fn parse_spline_header(d: Seq<u8>, p: int, endian: Endianness) -> Parsed<(u16, u8, Seq<u8>)> {
    match parse_u16(d, p, endian) {
        Err(e) => Err(e),
        Ok((n, p1)) => match parse_u8(d, p1) {
            Err(e) => Err(e),
            Ok((degree, p2)) => match parse_bytes(d, p2, n + degree + 2) {
                Err(e) => Err(e),
                Ok((knots, p3)) => Ok(((n, degree, knots), p3)),
            },
        },
    }
}

/// The per-axis data following a vector spline header: the bounds of a
/// spline axis, the value of a static axis, nothing for an identity axis.
#[verifier::opaque]
pub open spec fn parse_axis_header(d: Seq<u8>, p: int, kind: SplineTrackType, endian: Endianness) -> Parsed<AxisModel> {
    match kind {
        SplineTrackType::Dynamic => match parse_u32(d, p, endian) {
            Err(e) => Err(e),
            Ok((min, p1)) => match parse_u32(d, p1, endian) {
                Err(e) => Err(e),
                Ok((max, p2)) => Ok((AxisModel::Dynamic { min, max, values: Seq::empty() }, p2)),
            },
        },
        SplineTrackType::Static => match parse_u32(d, p, endian) {
            Err(e) => Err(e),
            Ok((v, p1)) => Ok((AxisModel::Static(v), p1)),
        },
        SplineTrackType::Identity => Ok((AxisModel::Identity, p)),
    }
}

/// The stride of one quantized scalar control point: a byte for 8-bit
/// quantization; for 16-bit, the value and a reserved 16-bit word.
pub open spec fn scalar_size(quantization: QuantizationType) -> int {
    if quantization is Bit8 { 1 } else { 4 }
}

/// The quantized scalar stored at `pos`.
pub open spec fn scalar_at(d: Seq<u8>, pos: int, quantization: QuantizationType, endian: Endianness) -> u16 {
    if quantization is Bit8 {
        d[pos] as u16
    } else {
        word16(d[pos], d[pos + 1], endian)
    }
}

/// A spline-axis header given its control points; other axes are kept.
pub open spec fn fill_axis(header: AxisModel, values: Seq<u16>) -> AxisModel {
    match header {
        AxisModel::Dynamic { min, max, values: _ } => AxisModel::Dynamic { min, max, values },
        other => other,
    }
}

/// The control points of the spline axis `axis` (empty for other axes):
/// point `i` is stored at `p + i * stride + rank * size`, where `rank` counts
/// the spline axes before `axis` and `stride` is the size of one interleaved
/// row of all spline axes.
pub open spec fn axis_points(
    d: Seq<u8>,
    p: int,
    mask: TransformMask,
    scale: bool,
    quantization: QuantizationType,
    count: nat,
    axis: int,
    endian: Endianness,
) -> Seq<u16> {
    let size = scalar_size(quantization);
    let stride = dynamic_rank(mask, scale, 3) * size;
    if vector_kind(mask, scale, axis) is Dynamic {
        Seq::new(count, |i: int| scalar_at(d, p + i * stride + dynamic_rank(mask, scale, axis) * size, quantization, endian))
    } else {
        Seq::empty()
    }
}

/// `count` rows of interleaved control points, one quantized scalar per
/// spline axis in X/Y/Z order.
#[verifier::opaque]
pub open spec fn parse_control_points(
    d: Seq<u8>,
    p: int,
    mask: TransformMask,
    scale: bool,
    quantization: QuantizationType,
    count: nat,
    endian: Endianness,
) -> Parsed<(Seq<u16>, Seq<u16>, Seq<u16>)> {
    let end = p + count * (dynamic_rank(mask, scale, 3) * scalar_size(quantization));
    if end > d.len() {
        Err(SplineError::UnexpectedEof)
    } else {
        Ok((
            (
                axis_points(d, p, mask, scale, quantization, count, 0, endian),
                axis_points(d, p, mask, scale, quantization, count, 1, endian),
                axis_points(d, p, mask, scale, quantization, count, 2, endian),
            ),
            end,
        ))
    }
}

/// A vector with at least one spline axis: the shared spline header, the
/// per-axis data, the interleaved control points, then padding to 4.
pub open spec fn parse_dynamic_vector(
    d: Seq<u8>,
    p: int,
    mask: TransformMask,
    scale: bool,
    quantization: QuantizationType,
    endian: Endianness,
) -> Parsed<VectorModel> {
    match parse_spline_header(d, p, endian) {
        Err(e) => Err(e),
        Ok(((n, degree, knots), p1)) => match parse_align(d, p1, 4) {
            Err(e) => Err(e),
            Ok(p2) => match parse_axis_header(d, p2, vector_kind(mask, scale, 0), endian) {
                Err(e) => Err(e),
                Ok((a0, p3)) => match parse_axis_header(d, p3, vector_kind(mask, scale, 1), endian) {
                    Err(e) => Err(e),
                    Ok((a1, p4)) => match parse_axis_header(d, p4, vector_kind(mask, scale, 2), endian) {
                        Err(e) => Err(e),
                        Ok((a2, p5)) => match parse_control_points(d, p5, mask, scale, quantization, n as nat + 1, endian) {
                            Err(e) => Err(e),
                            Ok(((v0, v1, v2), p6)) => match parse_align(d, p6, 4) {
                                Err(e) => Err(e),
                                Ok(p7) => Ok((
                                    VectorModel::Dynamic {
                                        axes: seq![fill_axis(a0, v0), fill_axis(a1, v1), fill_axis(a2, v2)],
                                        knots,
                                        degree,
                                    },
                                    p7,
                                )),
                            },
                        },
                    },
                },
            },
        },
    }
}

/// A position or scale vector.
pub open spec fn parse_vector(
    d: Seq<u8>,
    p: int,
    mask: TransformMask,
    scale: bool,
    quantization: QuantizationType,
    endian: Endianness,
) -> Parsed<VectorModel> {
    if vector_is_dynamic(mask, scale) {
        parse_dynamic_vector(d, p, mask, scale, quantization, endian)
    } else {
        parse_static_vector(d, p, mask, scale, endian)
    }
}

/// Whether the decoder reads quaternions of this quantization.
pub open spec fn quat_supported(q: QuantizationType) -> bool {
    q is Bit32 || q is Bit40 || q is Bit48 || q is Uncompressed
}

/// The stored size of one quaternion.
pub open spec fn quat_size(q: QuantizationType) -> int {
    match q {
        QuantizationType::Bit32 => 4,
        QuantizationType::Bit40 => 5,
        QuantizationType::Bit48 => 6,
        QuantizationType::Uncompressed => 16,
        QuantizationType::Bit24 => 3,
        QuantizationType::Bit16Quat => 2,
        _ => 0,
    }
}

/// The quaternion stored at `pos`; formats without a decoder read as the
/// identity.
pub open spec fn quat_or_identity_at(d: Seq<u8>, pos: int, q: QuantizationType, endian: Endianness) -> QuatModel {
    if quat_supported(q) { quat_at(d, pos, q, endian) } else { QuatModel::Identity }
}

/// The padding applied before quaternion data.
pub open spec fn rotation_read_align(q: QuantizationType) -> int {
    match q {
        QuantizationType::Bit48 | QuantizationType::Bit16Quat => 2,
        QuantizationType::Bit32 | QuantizationType::Uncompressed => 4,
        _ => 1,
    }
}

/// The packed quaternion stored at `pos`.
pub open spec fn quat_at(d: Seq<u8>, pos: int, q: QuantizationType, endian: Endianness) -> QuatModel {
    match q {
        QuantizationType::Bit32 => QuatModel::Polar32(word32(d[pos], d[pos + 1], d[pos + 2], d[pos + 3], endian)),
        QuantizationType::Bit40 => QuatModel::ThreeComp40(d.subrange(pos, pos + 5)),
        QuantizationType::Bit48 => QuatModel::ThreeComp48(
            word16(d[pos], d[pos + 1], endian),
            word16(d[pos + 2], d[pos + 3], endian),
            word16(d[pos + 4], d[pos + 5], endian),
        ),
        QuantizationType::Uncompressed => QuatModel::Uncompressed(seq![
            word32(d[pos], d[pos + 1], d[pos + 2], d[pos + 3], endian),
            word32(d[pos + 4], d[pos + 5], d[pos + 6], d[pos + 7], endian),
            word32(d[pos + 8], d[pos + 9], d[pos + 10], d[pos + 11], endian),
            word32(d[pos + 12], d[pos + 13], d[pos + 14], d[pos + 15], endian),
        ]),
        _ => QuatModel::Identity,
    }
}

/// `count` consecutive quaternions. Formats without a decoder are an error
/// when `strict`, and otherwise read as identity quaternions over their
/// stored size (3 bytes for `Bit24`, 2 for `Bit16Quat`).
pub open spec fn parse_quats(
    d: Seq<u8>,
    p: int,
    q: QuantizationType,
    count: nat,
    endian: Endianness,
    strict: bool,
) -> Parsed<Seq<QuatModel>> {
    if !quat_supported(q) && strict && count > 0 {
        Err(SplineError::InvalidQuantizationType(quantization_code(q)))
    } else if p + count * quat_size(q) > d.len() {
        Err(SplineError::UnexpectedEof)
    } else {
        Ok((Seq::new(count, |i: int| quat_or_identity_at(d, p + i * quat_size(q), q, endian)), p + count * quat_size(q)))
    }
}

/// A rotation track: a spline header, padding and `items + 1` quaternions;
/// one padded quaternion for a static rotation; nothing for identity.
pub open spec fn parse_rotation(d: Seq<u8>, p: int, mask: TransformMask, endian: Endianness, strict: bool) -> Parsed<RotationModel> {
    match rotation_kind(mask.rotation_types) {
        SplineTrackType::Dynamic => match parse_spline_header(d, p, endian) {
            Err(e) => Err(e),
            Ok(((n, degree, knots), p1)) => match mask.spec_rotation_quantization() {
                Err(e) => Err(e),
                Ok(q) => match parse_align(d, p1, rotation_read_align(q)) {
                    Err(e) => Err(e),
                    Ok(p2) => match parse_quats(d, p2, q, n as nat + 1, endian, strict) {
                        Err(e) => Err(e),
                        Ok((track, p3)) => Ok((RotationModel::Dynamic { track, knots, degree }, p3)),
                    },
                },
            },
        },
        SplineTrackType::Static => match mask.spec_rotation_quantization() {
            Err(e) => Err(e),
            Ok(q) => match parse_align(d, p, rotation_read_align(q)) {
                Err(e) => Err(e),
                Ok(p1) => match parse_quat(d, p1, q, endian, strict) {
                    Err(e) => Err(e),
                    Ok((value, p2)) => Ok((RotationModel::Static(value), p2)),
                },
            },
        },
        SplineTrackType::Identity => Ok((RotationModel::Identity, p)),
    }
}

/// A transform track: position, rotation, padding to 4, scale.
#[verifier::opaque]
pub open spec fn parse_track(d: Seq<u8>, p: int, mask: TransformMask, endian: Endianness, strict: bool) -> Parsed<TrackModel> {
    match mask.spec_position_quantization() {
        Err(e) => Err(e),
        Ok(pq) => match parse_vector(d, p, mask, false, pq, endian) {
            Err(e) => Err(e),
            Ok((position, p1)) => match parse_rotation(d, p1, mask, endian, strict) {
                Err(e) => Err(e),
                Ok((rotation, p2)) => match parse_align(d, p2, 4) {
                    Err(e) => Err(e),
                    Ok(p3) => match mask.spec_scale_quantization() {
                        Err(e) => Err(e),
                        Ok(sq) => match parse_vector(d, p3, mask, true, sq, endian) {
                            Err(e) => Err(e),
                            Ok((scale, p4)) => Ok((TrackModel { position, rotation, scale }, p4)),
                        },
                    },
                },
            },
        },
    }
}

/// The tracks of a block, one per mask, in order.
pub open spec fn parse_tracks(d: Seq<u8>, p: int, masks: Seq<TransformMask>, endian: Endianness, strict: bool) -> Parsed<Seq<TrackModel>>
    decreases masks.len(),
{
    if masks.len() == 0 {
        Ok((Seq::empty(), p))
    } else {
        match parse_tracks(d, p, masks.drop_last(), endian, strict) {
            Err(e) => Err(e),
            Ok((tracks, q)) => match parse_track(d, q, masks.last(), endian, strict) {
                Err(e) => Err(e),
                Ok((t, q2)) => Ok((tracks.push(t), q2)),
            },
        }
    }
}

/// The transform mask stored at `pos`.
pub open spec fn mask_at(d: Seq<u8>, pos: int) -> TransformMask {
    TransformMask {
        quantization_types: d[pos],
        position_types: d[pos + 1],
        rotation_types: d[pos + 2],
        scale_types: d[pos + 3],
    }
}

/// A whole block: `num_tracks` masks, the float-track region, padding to 4
/// and the transform tracks. A mask region too large to address is an
/// [`SplineError::InvalidData`] when reading strictly and an
/// [`SplineError::UnexpectedEof`] otherwise.
pub open spec fn parse_block(d: Seq<u8>, num_tracks: nat, num_float_tracks: nat, endian: Endianness, strict: bool) -> Result<BlockModel, SplineError> {
    if num_tracks * 4 > usize::MAX {
        Err(if strict { SplineError::InvalidData("num tracks overflow multiply") } else { SplineError::UnexpectedEof })
    } else if num_tracks * 4 > d.len() {
        Err(SplineError::UnexpectedEof)
    } else {
        let masks = Seq::new(num_tracks, |i: int| mask_at(d, 4 * i));
        match parse_skip(d, (num_tracks * 4) as int, num_float_tracks as int) {
            Err(e) => Err(e),
            Ok(p1) => match parse_align(d, p1, 4) {
                Err(e) => Err(e),
                Ok(p2) => match parse_tracks(d, p2, masks, endian, strict) {
                    Err(e) => Err(e),
                    Ok((tracks, _)) => Ok(BlockModel { masks, tracks }),
                },
            },
        }
    }
}

/// All blocks, each decoded from its offset to the end of the data; an
/// offset past the end is [`SplineError::EmptySplineData`] when reading
/// strictly and [`SplineError::UnexpectedEof`] otherwise.
pub open spec fn parse_blocks(
    d: Seq<u8>,
    offsets: Seq<u32>,
    num_tracks: nat,
    num_float_tracks: nat,
    endian: Endianness,
    strict: bool,
) -> Result<Seq<BlockModel>, SplineError>
    decreases offsets.len(),
{
    if offsets.len() == 0 {
        Ok(Seq::empty())
    } else {
        match parse_blocks(d, offsets.drop_last(), num_tracks, num_float_tracks, endian, strict) {
            Err(e) => Err(e),
            Ok(blocks) => if offsets.last() > d.len() {
                Err(if strict { SplineError::EmptySplineData } else { SplineError::UnexpectedEof })
            } else {
                match parse_block(d.subrange(offsets.last() as int, d.len() as int), num_tracks, num_float_tracks, endian, strict) {
                    Err(e) => Err(e),
                    Ok(b) => Ok(blocks.push(b)),
                }
            },
        }
    }
}

/// One quaternion in the given format (see [`parse_quats`]).
pub open spec fn parse_quat(d: Seq<u8>, p: int, q: QuantizationType, endian: Endianness, strict: bool) -> Parsed<QuatModel> {
    if !quat_supported(q) && strict {
        Err(SplineError::InvalidQuantizationType(quantization_code(q)))
    } else if p + quat_size(q) > d.len() {
        Err(SplineError::UnexpectedEof)
    } else {
        Ok((quat_or_identity_at(d, p, q, endian), p + quat_size(q)))
    }
}

// ---------------------------------------------------------------------------
// Decoder
// ---------------------------------------------------------------------------

/// Reads one quaternion in the format selected by the mask.
fn read_quat(reader: &mut Reader<'_>, quantization: QuantizationType, endian: Endianness, strict: bool) -> (r: Result<PackedQuat, SplineError>)
    requires
        old(reader).inv(),
    ensures
        final(reader).inv(),
        final(reader).data@ == old(reader).data@,
        match parse_quat(old(reader).data@, old(reader).position as int, quantization, endian, strict) {
            Ok((v, q)) => r matches Ok(x) && x@ == v && final(reader).position == q,
            Err(e) => r == Err::<PackedQuat, SplineError>(e),
        },
{
    let ghost d = reader.data@;
    let ghost p = reader.position as int;
    match quantization {
        QuantizationType::Bit32 => {
            let value = reader.read_u32(endian)?;
            Ok(PackedQuat::Polar32(Quat32::new(value)))
        },
        QuantizationType::Bit40 => {
            let bytes = reader.read_array::<5>()?;
            Ok(PackedQuat::ThreeComp40(Quat40::new(bytes)))
        },
        QuantizationType::Bit48 => {
            let x = reader.read_u16(endian)?;
            let y = reader.read_u16(endian)?;
            let z = reader.read_u16(endian)?;
            Ok(PackedQuat::ThreeComp48(Quat48 { x, y, z }))
        },
        QuantizationType::Uncompressed => {
            let x = reader.read_u32(endian)?;
            let y = reader.read_u32(endian)?;
            let z = reader.read_u32(endian)?;
            let w = reader.read_u32(endian)?;
            let r = PackedQuat::Uncompressed([x, y, z, w]);
            assert(r@ == quat_at(d, p, quantization, endian)) by {
                assert([x, y, z, w]@ =~= quat_at(d, p, quantization, endian)->Uncompressed_0);
            }
            Ok(r)
        },
        _ => {
            if strict {
                return Err(SplineError::InvalidQuantizationType(quantization.code()));
            }
            let size: usize = match quantization {
                QuantizationType::Bit24 => 3,
                QuantizationType::Bit16Quat => 2,
                _ => 0,
            };
            reader.skip(size)?;
            Ok(PackedQuat::Identity)
        },
    }
}

/// Reads `count` consecutive quaternions.
fn read_quats(reader: &mut Reader<'_>, quantization: QuantizationType, count: usize, endian: Endianness, strict: bool) -> (r: Result<Vec<PackedQuat>, SplineError>)
    requires
        old(reader).inv(),
    ensures
        final(reader).inv(),
        final(reader).data@ == old(reader).data@,
        match parse_quats(old(reader).data@, old(reader).position as int, quantization, count as nat, endian, strict) {
            Ok((v, q)) => r matches Ok(x) && x@.map_values(|e: PackedQuat| e@) == v && final(reader).position == q,
            Err(e) => r == Err::<Vec<PackedQuat>, SplineError>(e),
        },
{
    let ghost d = reader.data@;
    let ghost p = reader.position as int;
    let ghost size = quat_size(quantization);
    let mut track: Vec<PackedQuat> = Vec::new();
    let mut i: usize = 0;
    while i < count
        invariant
            reader.inv(),
            reader.data@ == d,
            d == old(reader).data@,
            p == old(reader).position,
            size == quat_size(quantization),
            0 <= i <= count,
            track@.len() == i,
            reader.position == p + i * size,
            p + i * size <= d.len(),
            !quat_supported(quantization) ==> (!strict || i == 0),
            forall|j: int| 0 <= j < i ==> (#[trigger] track@[j])@ == quat_or_identity_at(d, p + j * size, quantization, endian),
        decreases count - i,
    {
        let ghost before = reader.position as int;
        let value = match read_quat(reader, quantization, endian, strict) {
            Ok(v) => v,
            Err(e) => {
                proof {
                    assert(parse_quat(d, before, quantization, endian, strict) is Err);
                    if quat_supported(quantization) || !strict {
                        assert(before + size > d.len());
                        assert(p + count * size > d.len()) by (nonlinear_arith)
                            requires
                                before + size > d.len(),
                                before == p + i * size,
                                i < count,
                                size >= 0,
                        ;
                    }
                }
                return Err(e);
            },
        };
        track.push(value);
        proof {
            assert(p + (i + 1) * size == p + i * size + size) by (nonlinear_arith);
        }
        i = i + 1;
    }
    proof {
        let v = Seq::new(count as nat, |j: int| quat_or_identity_at(d, p + j * size, quantization, endian));
        assert(track@.map_values(|e: PackedQuat| e@) =~= v);
    }
    Ok(track)
}

/// Reads a spline header: item count, degree and the knot bytes.
fn read_spline_header(reader: &mut Reader<'_>, endian: Endianness) -> (r: Result<(u16, u8, Vec<u8>), SplineError>)
    requires
        old(reader).inv(),
    ensures
        final(reader).inv(),
        final(reader).data@ == old(reader).data@,
        match parse_spline_header(old(reader).data@, old(reader).position as int, endian) {
            Ok(((n, degree, knots), q)) => r matches Ok((n2, degree2, knots2)) && n2 == n && degree2 == degree
                && knots2@ == knots && final(reader).position == q,
            Err(e) => r == Err::<(u16, u8, Vec<u8>), SplineError>(e),
        },
{
    proof {
        reveal(parse_spline_header);
    }
    let num_items = reader.read_u16(endian)?;
    let degree = reader.read_u8()?;
    let knot_count = num_items as usize + degree as usize + 2;
    let knots = slice_to_vec(reader.read_bytes(knot_count)?);
    Ok((num_items, degree, knots))
}

/// Skips the padding required before quaternions of the given format.
fn align_rotation(reader: &mut Reader<'_>, quantization: QuantizationType) -> (r: Result<(), SplineError>)
    requires
        old(reader).inv(),
    ensures
        final(reader).inv(),
        final(reader).data@ == old(reader).data@,
        match parse_align(old(reader).data@, old(reader).position as int, rotation_read_align(quantization)) {
            Ok(q) => r == Ok::<(), SplineError>(()) && final(reader).position == q,
            Err(e) => r == Err::<(), SplineError>(e),
        },
{
    match quantization {
        QuantizationType::Bit48 | QuantizationType::Bit16Quat => reader.align(2),
        QuantizationType::Bit32 | QuantizationType::Uncompressed => reader.align(4),
        _ => Ok(()),
    }
}

/// Reads a rotation track.
fn read_rotation_track(reader: &mut Reader<'_>, mask: TransformMask, endian: Endianness, strict: bool) -> (r: Result<SplineTrackQuat, SplineError>)
    requires
        old(reader).inv(),
    ensures
        final(reader).inv(),
        final(reader).data@ == old(reader).data@,
        match parse_rotation(old(reader).data@, old(reader).position as int, mask, endian, strict) {
            Ok((v, q)) => r matches Ok(x) && x@ == v && final(reader).position == q,
            Err(e) => r == Err::<SplineTrackQuat, SplineError>(e),
        },
{
    match mask.sub_track_type(TransformType::Rotation) {
        SplineTrackType::Dynamic => {
            let (num_items, degree, knots) = read_spline_header(reader, endian)?;
            let quantization = mask.rotation_quantization_type()?;
            align_rotation(reader, quantization)?;
            let track = read_quats(reader, quantization, num_items as usize + 1, endian, strict)?;
            Ok(SplineTrackQuat::Dynamic(SplineDynamicTrackQuat { track, knots, degree }))
        },
        SplineTrackType::Static => {
            let quantization = mask.rotation_quantization_type()?;
            align_rotation(reader, quantization)?;
            let value = read_quat(reader, quantization, endian, strict)?;
            Ok(SplineTrackQuat::Static(SplineStaticTrack { value }))
        },
        SplineTrackType::Identity => Ok(SplineTrackQuat::Identity),
    }
}

/// The transform components of a position or scale vector, as an array.
pub(crate) fn vector_type_array(scale: bool) -> (r: [TransformType; 3])
    ensures
        r@ == vector_types(scale),
{
    let r = if scale {
        [TransformType::ScaleX, TransformType::ScaleY, TransformType::ScaleZ]
    } else {
        [TransformType::PosX, TransformType::PosY, TransformType::PosZ]
    };
    assert(r@ =~= vector_types(scale));
    r
}

/// Reads one lane of a static vector.
fn read_static_lane(reader: &mut Reader<'_>, kind: SplineTrackType, default: u32, endian: Endianness) -> (r: Result<u32, SplineError>)
    requires
        old(reader).inv(),
    ensures
        final(reader).inv(),
        final(reader).data@ == old(reader).data@,
        match parse_static_lane(old(reader).data@, old(reader).position as int, kind, default, endian) {
            Ok((v, q)) => r == Ok::<u32, SplineError>(v) && final(reader).position == q,
            Err(e) => r == Err::<u32, SplineError>(e),
        },
{
    if kind == SplineTrackType::Static {
        reader.read_u32(endian)
    } else {
        Ok(default)
    }
}

/// Reads the per-axis data that follows a vector spline header.
fn read_axis_header(reader: &mut Reader<'_>, kind: SplineTrackType, endian: Endianness) -> (r: Result<VectorAxis, SplineError>)
    requires
        old(reader).inv(),
    ensures
        final(reader).inv(),
        final(reader).data@ == old(reader).data@,
        match parse_axis_header(old(reader).data@, old(reader).position as int, kind, endian) {
            Ok((v, q)) => r matches Ok(x) && x@ == v && final(reader).position == q,
            Err(e) => r == Err::<VectorAxis, SplineError>(e),
        },
{
    proof {
        reveal(parse_axis_header);
    }
    match kind {
        SplineTrackType::Dynamic => {
            let min = reader.read_u32(endian)?;
            let max = reader.read_u32(endian)?;
            let r = VectorAxis::Dynamic { min, max, values: Vec::new() };
            assert(r@ == AxisModel::Dynamic { min, max, values: Seq::<u16>::empty() }) by {
                assert(r->values@ =~= Seq::<u16>::empty());
            }
            Ok(r)
        },
        SplineTrackType::Static => {
            let v = reader.read_u32(endian)?;
            Ok(VectorAxis::Static(v))
        },
        SplineTrackType::Identity => Ok(VectorAxis::Identity),
    }
}

/// Reads one quantized scalar control point.
fn read_scalar(reader: &mut Reader<'_>, quantization: QuantizationType, endian: Endianness) -> (r: Result<u16, SplineError>)
    requires
        old(reader).inv(),
        quantization is Bit8 || quantization is Bit16,
    ensures
        final(reader).inv(),
        final(reader).data@ == old(reader).data@,
        old(reader).position + scalar_size(quantization) <= old(reader).data@.len() ==> r == Ok::<u16, SplineError>(
            scalar_at(old(reader).data@, old(reader).position as int, quantization, endian),
        ) && final(reader).position == old(reader).position + scalar_size(quantization),
        old(reader).position + scalar_size(quantization) > old(reader).data@.len() ==> r == Err::<u16, SplineError>(
            SplineError::UnexpectedEof,
        ),
{
    if quantization == QuantizationType::Bit8 {
        let v = reader.read_u8()?;
        Ok(v as u16)
    } else {
        let v = reader.read_u16(endian)?;
        reader.skip(2)?;
        Ok(v)
    }
}

/// Gives a spline-axis header its control points; other axes are kept.
fn fill_axis_values(header: VectorAxis, values: Vec<u16>) -> (r: VectorAxis)
    ensures
        r@ == fill_axis(header@, values@),
{
    match header {
        VectorAxis::Dynamic { min, max, values: _ } => VectorAxis::Dynamic { min, max, values },
        other => other,
    }
}

/// Reads `count` rows of interleaved control points.
fn read_control_points(
    reader: &mut Reader<'_>,
    mask: TransformMask,
    scale: bool,
    quantization: QuantizationType,
    count: usize,
    endian: Endianness,
) -> (r: Result<(Vec<u16>, Vec<u16>, Vec<u16>), SplineError>)
    requires
        old(reader).inv(),
        quantization is Bit8 || quantization is Bit16,
    ensures
        final(reader).inv(),
        final(reader).data@ == old(reader).data@,
        match parse_control_points(old(reader).data@, old(reader).position as int, mask, scale, quantization, count as nat, endian) {
            Ok(((a, b, c), q)) => r matches Ok((x, y, z)) && x@ == a && y@ == b && z@ == c && final(reader).position == q,
            Err(e) => r == Err::<(Vec<u16>, Vec<u16>, Vec<u16>), SplineError>(e),
        },
{
    proof {
        reveal(parse_control_points);
    }
    let ghost d = reader.data@;
    let ghost base = reader.position as int;
    let ghost size = scalar_size(quantization);
    let ghost r1 = dynamic_rank(mask, scale, 1) * size;
    let ghost r2 = dynamic_rank(mask, scale, 2) * size;
    let ghost stride = dynamic_rank(mask, scale, 3) * size;
    let types = vector_type_array(scale);
    let k0 = mask.sub_track_type(types[0]);
    let k1 = mask.sub_track_type(types[1]);
    let k2 = mask.sub_track_type(types[2]);
    let mut v0: Vec<u16> = Vec::new();
    let mut v1: Vec<u16> = Vec::new();
    let mut v2: Vec<u16> = Vec::new();
    let mut item: usize = 0;
    while item < count
        invariant
            reader.inv(),
            reader.data@ == d,
            d == old(reader).data@,
            base == old(reader).position,
            quantization is Bit8 || quantization is Bit16,
            size == scalar_size(quantization),
            k0 == vector_kind(mask, scale, 0),
            k1 == vector_kind(mask, scale, 1),
            k2 == vector_kind(mask, scale, 2),
            r1 == dynamic_rank(mask, scale, 1) * size,
            r2 == dynamic_rank(mask, scale, 2) * size,
            stride == dynamic_rank(mask, scale, 3) * size,
            item <= count,
            reader.position == base + item * stride,
            k0 is Dynamic ==> v0@ =~= Seq::new(item as nat, |i: int| scalar_at(d, base + i * stride + dynamic_rank(mask, scale, 0) * size, quantization, endian)),
            k1 is Dynamic ==> v1@ =~= Seq::new(item as nat, |i: int| scalar_at(d, base + i * stride + r1, quantization, endian)),
            k2 is Dynamic ==> v2@ =~= Seq::new(item as nat, |i: int| scalar_at(d, base + i * stride + r2, quantization, endian)),
            !(k0 is Dynamic) ==> v0@.len() == 0,
            !(k1 is Dynamic) ==> v1@.len() == 0,
            !(k2 is Dynamic) ==> v2@.len() == 0,
        decreases count - item,
    {
        proof {
            reveal(parse_control_points);
        }
        let ghost row = base + item * stride;
        assert(row + stride <= base + count * stride) by (nonlinear_arith)
            requires
                row == base + item * stride,
                item < count,
                stride >= 0,
        ;
        assert(row + stride == base + (item + 1) * stride) by (nonlinear_arith)
            requires
                row == base + item * stride,
        ;
        assert(dynamic_rank(mask, scale, 0) == 0);
        if k0 == SplineTrackType::Dynamic {
            let v = match read_scalar(reader, quantization, endian) {
                Ok(v) => v,
                Err(e) => return Err(e),
            };
            v0.push(v);
        }
        assert(reader.position == row + r1);
        if k1 == SplineTrackType::Dynamic {
            let v = match read_scalar(reader, quantization, endian) {
                Ok(v) => v,
                Err(e) => return Err(e),
            };
            v1.push(v);
        }
        assert(reader.position == row + r2);
        if k2 == SplineTrackType::Dynamic {
            let v = match read_scalar(reader, quantization, endian) {
                Ok(v) => v,
                Err(e) => return Err(e),
            };
            v2.push(v);
        }
        assert(reader.position == row + stride);
        item = item + 1;
    }
    proof {
        assert(v0@ =~= axis_points(d, base, mask, scale, quantization, count as nat, 0, endian));
        assert(v1@ =~= axis_points(d, base, mask, scale, quantization, count as nat, 1, endian));
        assert(v2@ =~= axis_points(d, base, mask, scale, quantization, count as nat, 2, endian));
    }
    Ok((v0, v1, v2))
}

/// Reads a vector that has at least one spline axis.
fn read_dynamic_vector_track(
    reader: &mut Reader<'_>,
    mask: TransformMask,
    quantization: QuantizationType,
    scale: bool,
    endian: Endianness,
) -> (r: Result<SplineTrackVector, SplineError>)
    requires
        old(reader).inv(),
        quantization is Bit8 || quantization is Bit16,
    ensures
        final(reader).inv(),
        final(reader).data@ == old(reader).data@,
        match parse_dynamic_vector(old(reader).data@, old(reader).position as int, mask, scale, quantization, endian) {
            Ok((v, q)) => r matches Ok(x) && x@ == v && final(reader).position == q,
            Err(e) => r == Err::<SplineTrackVector, SplineError>(e),
        },
{
    let (num_items, degree, knots) = read_spline_header(reader, endian)?;
    reader.align(4)?;
    let types = vector_type_array(scale);
    let h0 = read_axis_header(reader, mask.sub_track_type(types[0]), endian)?;
    let h1 = read_axis_header(reader, mask.sub_track_type(types[1]), endian)?;
    let h2 = read_axis_header(reader, mask.sub_track_type(types[2]), endian)?;
    let (v0, v1, v2) = read_control_points(reader, mask, scale, quantization, num_items as usize + 1, endian)?;
    reader.align(4)?;
    let a0 = fill_axis_values(h0, v0);
    let a1 = fill_axis_values(h1, v1);
    let a2 = fill_axis_values(h2, v2);
    let tracks = [a0, a1, a2];
    assert(tracks@.map_values(|a: VectorAxis| a@) =~= seq![a0@, a1@, a2@]);
    Ok(SplineTrackVector::Dynamic(SplineDynamicTrackVector { tracks, knots, degree }))
}

/// Reads a position or scale vector.
fn read_vector_track(
    reader: &mut Reader<'_>,
    mask: TransformMask,
    quantization: QuantizationType,
    scale: bool,
    endian: Endianness,
) -> (r: Result<SplineTrackVector, SplineError>)
    requires
        old(reader).inv(),
        quantization is Bit8 || quantization is Bit16,
    ensures
        final(reader).inv(),
        final(reader).data@ == old(reader).data@,
        match parse_vector(old(reader).data@, old(reader).position as int, mask, scale, quantization, endian) {
            Ok((v, q)) => r matches Ok(x) && x@ == v && final(reader).position == q,
            Err(e) => r == Err::<SplineTrackVector, SplineError>(e),
        },
{
    let types = vector_type_array(scale);
    let k0 = mask.sub_track_type(types[0]);
    let k1 = mask.sub_track_type(types[1]);
    let k2 = mask.sub_track_type(types[2]);
    if k0 == SplineTrackType::Dynamic || k1 == SplineTrackType::Dynamic || k2 == SplineTrackType::Dynamic {
        return read_dynamic_vector_track(reader, mask, quantization, scale, endian);
    }
    let default: u32 = if scale { 0x3f80_0000 } else { 0 };
    let x = read_static_lane(reader, k0, default, endian)?;
    let y = read_static_lane(reader, k1, default, endian)?;
    let z = read_static_lane(reader, k2, default, endian)?;
    let value = [x, y, z, 0u32];
    assert(value@ =~= seq![x, y, z, 0u32]);
    Ok(SplineTrackVector::Static(SplineStaticTrack { value }))
}

/// Reads one transform track: position, rotation, padding, scale.
fn read_transform_track(reader: &mut Reader<'_>, mask: TransformMask, endian: Endianness, strict: bool) -> (r: Result<TransformTrack, SplineError>)
    requires
        old(reader).inv(),
    ensures
        final(reader).inv(),
        final(reader).data@ == old(reader).data@,
        match parse_track(old(reader).data@, old(reader).position as int, mask, endian, strict) {
            Ok((v, q)) => r matches Ok(x) && x@ == v && final(reader).position == q,
            Err(e) => r == Err::<TransformTrack, SplineError>(e),
        },
{
    proof {
        reveal(parse_track);
    }
    let position_quantization = mask.position_quantization_type()?;
    let position = read_vector_track(reader, mask, position_quantization, false, endian)?;
    let rotation = read_rotation_track(reader, mask, endian, strict)?;
    reader.align(4)?;
    let scale_quantization = mask.scale_quantization_type()?;
    let scale = read_vector_track(reader, mask, scale_quantization, true, endian)?;
    Ok(TransformTrack { position, rotation, scale })
}

/// Reads one four-byte transform mask.
fn read_transform_mask(reader: &mut Reader<'_>) -> (r: Result<TransformMask, SplineError>)
    requires
        old(reader).inv(),
    ensures
        final(reader).inv(),
        final(reader).data@ == old(reader).data@,
        old(reader).position + 4 <= old(reader).data@.len() ==> r == Ok::<TransformMask, SplineError>(
            mask_at(old(reader).data@, old(reader).position as int),
        ) && final(reader).position == old(reader).position + 4,
        old(reader).position + 4 > old(reader).data@.len() ==> r == Err::<TransformMask, SplineError>(
            SplineError::UnexpectedEof,
        ),
{
    Ok(TransformMask {
        quantization_types: reader.read_u8()?,
        position_types: reader.read_u8()?,
        rotation_types: reader.read_u8()?,
        scale_types: reader.read_u8()?,
    })
}

/// Reads `count` consecutive transform masks.
fn read_masks(reader: &mut Reader<'_>, count: usize) -> (r: Result<Vec<TransformMask>, SplineError>)
    requires
        old(reader).inv(),
    ensures
        final(reader).inv(),
        final(reader).data@ == old(reader).data@,
        old(reader).position + count * 4 <= old(reader).data@.len() ==> (r matches Ok(m) && m@ =~= Seq::new(
            count as nat,
            |j: int| mask_at(old(reader).data@, old(reader).position + 4 * j),
        ) && final(reader).position == old(reader).position + count * 4),
        old(reader).position + count * 4 > old(reader).data@.len() ==> r == Err::<Vec<TransformMask>, SplineError>(
            SplineError::UnexpectedEof,
        ),
{
    let ghost d = reader.data@;
    let ghost base = reader.position as int;
    let mut masks: Vec<TransformMask> = Vec::new();
    let mut i: usize = 0;
    while i < count
        invariant
            reader.inv(),
            reader.data@ == d,
            d == old(reader).data@,
            base == old(reader).position,
            i <= count,
            reader.position == base + 4 * i,
            masks@ =~= Seq::new(i as nat, |j: int| mask_at(d, base + 4 * j)),
        decreases count - i,
    {
        let mask = match read_transform_mask(reader) {
            Ok(m) => m,
            Err(e) => {
                assert(base + count * 4 > d.len()) by (nonlinear_arith)
                    requires
                        base + 4 * i + 4 > d.len(),
                        i < count,
                ;
                return Err(e);
            },
        };
        masks.push(mask);
        i = i + 1;
    }
    Ok(masks)
}

/// Reads one transform track per mask, in order.
fn read_tracks(reader: &mut Reader<'_>, masks: &Vec<TransformMask>, endian: Endianness, strict: bool) -> (r: Result<Vec<TransformTrack>, SplineError>)
    requires
        old(reader).inv(),
    ensures
        final(reader).inv(),
        final(reader).data@ == old(reader).data@,
        match parse_tracks(old(reader).data@, old(reader).position as int, masks@, endian, strict) {
            Ok((v, q)) => r matches Ok(x) && x@.map_values(|t: TransformTrack| t@) == v && final(reader).position == q,
            Err(e) => r == Err::<Vec<TransformTrack>, SplineError>(e),
        },
{
    let ghost d = reader.data@;
    let ghost start = reader.position as int;
    let mut tracks: Vec<TransformTrack> = Vec::new();
    let mut k: usize = 0;
    assert(masks@.take(0) =~= Seq::<TransformMask>::empty());
    assert(tracks@.map_values(|t: TransformTrack| t@) =~= Seq::<TrackModel>::empty());
    while k < masks.len()
        invariant
            reader.inv(),
            reader.data@ == d,
            d == old(reader).data@,
            start == old(reader).position,
            k <= masks@.len(),
            parse_tracks(d, start, masks@.take(k as int), endian, strict) == Ok::<(Seq<TrackModel>, int), SplineError>(
                (tracks@.map_values(|t: TransformTrack| t@), reader.position as int),
            ),
        decreases masks@.len() - k,
    {
        assert(masks@.take(k + 1).drop_last() =~= masks@.take(k as int));
        assert(masks@.take(k + 1).last() == masks@[k as int]);
        let ghost before = tracks@.map_values(|t: TransformTrack| t@);
        let track = match read_transform_track(reader, masks[k], endian, strict) {
            Ok(t) => t,
            Err(e) => {
                proof {
                    lemma_parse_tracks_prefix_err(d, start, masks@, k as int + 1, endian, strict);
                }
                return Err(e);
            },
        };
        tracks.push(track);
        assert(tracks@.map_values(|t: TransformTrack| t@) =~= before.push(track@));
        k = k + 1;
    }
    assert(masks@.take(masks@.len() as int) =~= masks@);
    Ok(tracks)
}

/// A failure while parsing a prefix of the masks' tracks is the failure of
/// the whole sequence.
proof fn lemma_parse_tracks_prefix_err(d: Seq<u8>, p: int, masks: Seq<TransformMask>, n: int, endian: Endianness, strict: bool)
    requires
        0 <= n <= masks.len(),
        parse_tracks(d, p, masks.take(n), endian, strict) is Err,
    ensures
        parse_tracks(d, p, masks, endian, strict) == parse_tracks(d, p, masks.take(n), endian, strict),
    decreases masks.len() - n,
{
    if n < masks.len() {
        assert(masks.take(n + 1).drop_last() =~= masks.take(n));
        lemma_parse_tracks_prefix_err(d, p, masks, n + 1, endian, strict);
    } else {
        assert(masks.take(n) =~= masks);
    }
}

/// Decodes one block from the start of `data`; see [`parse_block`].
pub fn decode_block(data: &[u8], num_tracks: usize, num_float_tracks: usize, endian: Endianness, strict: bool) -> (r: Result<TransformSplineBlock, SplineError>)
    ensures
        match parse_block(data@, num_tracks as nat, num_float_tracks as nat, endian, strict) {
            Ok(b) => r matches Ok(x) && x@ == b,
            Err(e) => r == Err::<TransformSplineBlock, SplineError>(e),
        },
{
    if num_tracks.checked_mul(4).is_none() {
        return Err(if strict { SplineError::InvalidData("num tracks overflow multiply") } else { SplineError::UnexpectedEof });
    }
    let mut reader = Reader::new(data);
    let masks = read_masks(&mut reader, num_tracks)?;
    assert(masks@ =~= Seq::new(num_tracks as nat, |i: int| mask_at(data@, 4 * i)));
    reader.skip(num_float_tracks)?;
    reader.align(4)?;
    let tracks = read_tracks(&mut reader, &masks, endian, strict)?;
    Ok(TransformSplineBlock { masks, tracks })
}

impl TransformSplineBlock {
    /// Decodes one block from the start of `data` in little-endian byte
    /// order; quaternion formats without a decoder read as identity.
    pub fn decode(data: &[u8], num_tracks: usize, num_float_tracks: usize) -> (r: Result<Self, SplineError>)
        ensures
            match parse_block(data@, num_tracks as nat, num_float_tracks as nat, Endianness::Little, false) {
                Ok(b) => r matches Ok(x) && x@ == b,
                Err(e) => r == Err::<Self, SplineError>(e),
            },
    {
        decode_block(data, num_tracks, num_float_tracks, Endianness::Little, false)
    }

    /// Decodes one block from the start of `data` in the given byte order;
    /// quaternion formats without a decoder are an error.
    pub fn decode_endian(data: &[u8], num_tracks: usize, num_float_tracks: usize, endian: Endianness) -> (r: Result<Self, SplineError>)
        ensures
            match parse_block(data@, num_tracks as nat, num_float_tracks as nat, endian, true) {
                Ok(b) => r matches Ok(x) && x@ == b,
                Err(e) => r == Err::<Self, SplineError>(e),
            },
    {
        decode_block(data, num_tracks, num_float_tracks, endian, true)
    }
}

/// A decoded spline animation: its blocks in order.
#[derive(Clone, Debug)]
pub struct SplineDecompressor {
    pub blocks: Vec<TransformSplineBlock>,
}

impl View for SplineDecompressor {
    type V = Seq<BlockModel>;

    open spec fn view(&self) -> Seq<BlockModel> {
        self.blocks@.map_values(|b: TransformSplineBlock| b@)
    }
}

impl SplineDecompressor {
    /// Creates an animation without blocks.
    pub fn new() -> (r: Self)
        ensures
            r@ == Seq::<BlockModel>::empty(),
    {
        let r = SplineDecompressor { blocks: Vec::new() };
        assert(r@ =~= Seq::<BlockModel>::empty());
        r
    }

    /// Decodes one block per offset, each from its offset to the end of
    /// `data`, with the little-endian byte order; quaternion formats without
    /// a decoder read as identity. See [`parse_blocks`].
    pub fn decode(data: &[u8], block_offsets: &[u32], num_tracks: usize, num_float_tracks: usize) -> (r: Result<Self, SplineError>)
        ensures
            match parse_blocks(data@, block_offsets@, num_tracks as nat, num_float_tracks as nat, Endianness::Little, false) {
                Ok(b) => r matches Ok(x) && x@ == b,
                Err(e) => r == Err::<Self, SplineError>(e),
            },
    {
        let blocks = decode_blocks(data, block_offsets, num_tracks, num_float_tracks, Endianness::Little, false)?;
        Ok(SplineDecompressor { blocks })
    }
}

/// A decoded spline animation read with a chosen byte order, where
/// quaternion formats without a decoder are refused.
#[derive(Clone, Debug)]
pub struct SplineData {
    pub blocks: Vec<TransformSplineBlock>,
}

impl View for SplineData {
    type V = Seq<BlockModel>;

    open spec fn view(&self) -> Seq<BlockModel> {
        self.blocks@.map_values(|b: TransformSplineBlock| b@)
    }
}

impl SplineData {
    /// Creates an animation without blocks.
    pub fn new() -> (r: Self)
        ensures
            r@ == Seq::<BlockModel>::empty(),
    {
        let r = SplineData { blocks: Vec::new() };
        assert(r@ =~= Seq::<BlockModel>::empty());
        r
    }

    /// Decodes one block per offset, each from its offset to the end of
    /// `data`, in the given byte order; quaternion formats without a
    /// decoder are an error. See [`parse_blocks`].
    pub fn decode(data: &[u8], block_offsets: &[u32], num_tracks: usize, num_float_tracks: usize, endian: Endianness) -> (r: Result<Self, SplineError>)
        ensures
            match parse_blocks(data@, block_offsets@, num_tracks as nat, num_float_tracks as nat, endian, true) {
                Ok(b) => r matches Ok(x) && x@ == b,
                Err(e) => r == Err::<Self, SplineError>(e),
            },
    {
        let blocks = decode_blocks(data, block_offsets, num_tracks, num_float_tracks, endian, true)?;
        Ok(SplineData { blocks })
    }
}

/// Decodes one block per offset; see [`parse_blocks`].
pub fn decode_blocks(
    data: &[u8],
    block_offsets: &[u32],
    num_tracks: usize,
    num_float_tracks: usize,
    endian: Endianness,
    strict: bool,
) -> (r: Result<Vec<TransformSplineBlock>, SplineError>)
    ensures
        match parse_blocks(data@, block_offsets@, num_tracks as nat, num_float_tracks as nat, endian, strict) {
            Ok(b) => r matches Ok(x) && x@.map_values(|b: TransformSplineBlock| b@) == b,
            Err(e) => r == Err::<Vec<TransformSplineBlock>, SplineError>(e),
        },
{
    let ghost offs = block_offsets@;
    let mut blocks: Vec<TransformSplineBlock> = Vec::new();
    let mut i: usize = 0;
    assert(offs.take(0).len() == 0);
    assert(blocks@.map_values(|b: TransformSplineBlock| b@) =~= Seq::<BlockModel>::empty());
    while i < block_offsets.len()
        invariant
            i <= offs.len(),
            offs == block_offsets@,
            parse_blocks(data@, offs.take(i as int), num_tracks as nat, num_float_tracks as nat, endian, strict)
                == Ok::<Seq<BlockModel>, SplineError>(blocks@.map_values(|b: TransformSplineBlock| b@)),
        decreases offs.len() - i,
    {
        assert(offs.take(i + 1).drop_last() =~= offs.take(i as int));
        assert(offs.take(i + 1).last() == offs[i as int]);
        let offset = block_offsets[i] as usize;
        if offset > data.len() {
            proof {
                lemma_parse_blocks_prefix_err(data@, offs, i as int + 1, num_tracks as nat, num_float_tracks as nat, endian, strict);
            }
            return Err(if strict { SplineError::EmptySplineData } else { SplineError::UnexpectedEof });
        }
        let block_data = slice_subrange(data, offset, data.len());
        let block = match decode_block(block_data, num_tracks, num_float_tracks, endian, strict) {
            Ok(b) => b,
            Err(e) => {
                proof {
                    lemma_parse_blocks_prefix_err(data@, offs, i as int + 1, num_tracks as nat, num_float_tracks as nat, endian, strict);
                }
                return Err(e);
            },
        };
        let ghost before = blocks@.map_values(|b: TransformSplineBlock| b@);
        blocks.push(block);
        assert(blocks@.map_values(|b: TransformSplineBlock| b@) =~= before.push(block@));
        i = i + 1;
    }
    assert(offs.take(offs.len() as int) =~= offs);
    Ok(blocks)
}

/// A failure while decoding a prefix of the offsets' blocks is the failure
/// of the whole sequence.
proof fn lemma_parse_blocks_prefix_err(
    d: Seq<u8>,
    offsets: Seq<u32>,
    n: int,
    num_tracks: nat,
    num_float_tracks: nat,
    endian: Endianness,
    strict: bool,
)
    requires
        0 <= n <= offsets.len(),
        parse_blocks(d, offsets.take(n), num_tracks, num_float_tracks, endian, strict) is Err,
    ensures
        parse_blocks(d, offsets, num_tracks, num_float_tracks, endian, strict) == parse_blocks(
            d,
            offsets.take(n),
            num_tracks,
            num_float_tracks,
            endian,
            strict,
        ),
    decreases offsets.len() - n,
{
    if n < offsets.len() {
        assert(offsets.take(n + 1).drop_last() =~= offsets.take(n));
        lemma_parse_blocks_prefix_err(d, offsets, n + 1, num_tracks, num_float_tracks, endian, strict);
    } else {
        assert(offsets.take(n) =~= offsets);
    }
}

/// The padding the decoder (and the encoder) puts before quaternions is the
/// alignment of their format: 4 bytes for `Polar32` and `Uncompressed`, 2
/// for `ThreeComp48`, 1 for `ThreeComp40`, as
/// [`RotationQuantizationType::rotation_align`] gives it; and every
/// quaternion format's size is a multiple of its alignment, so each
/// quaternion of a spline stays aligned.
pub proof fn lemma_rotation_padding_is_format_alignment(q: QuantizationType)
    ensures
        rotation_format(q) is Some && rotation_align_spec(rotation_format(q)->Some_0) is Some
            ==> rotation_read_align(q) == rotation_align_spec(rotation_format(q)->Some_0)->Some_0,
        rotation_format(q) is Some ==> quat_size(q) > 0 && quat_size(q) % rotation_read_align(q) == 0,
        rotation_read_align(q) >= 1,
{
}

} // verus!
