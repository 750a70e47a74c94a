//! What the decoder reads back of what the encoder writes.

use vstd::prelude::*;

use super::de::{
    axis_points, dynamic_rank, fill_axis, parse_axis_header, parse_control_points,
    parse_dynamic_vector, parse_spline_header, parse_static_lane, parse_static_vector,
    parse_vector, quat_or_identity_at, scalar_at, scalar_size, vector_default, vector_is_dynamic, vector_kind,
    SplineError, parse_quat, parse_quats, parse_rotation, quat_at, quat_size, quat_supported,
    rotation_read_align, mask_at, parse_block, parse_blocks, parse_track, parse_tracks,
};
use super::math::{
    rotation_kind, AxisModel, QuantizationType, QuatModel, RotationModel, SplineTrackType,
    TransformMask, VectorModel, BlockModel, TrackModel,
};
use super::reader::{parse_align, parse_bytes, parse_u16, parse_u32, Endianness};
use super::ser::{
    f32_bits_eq, axis_error, axis_matches, axis_values, dynamic_count, dynamic_vector_error, fits_quantization,
    padding, row_piece, ser_axis_header, ser_dynamic_vector, ser_dynamic_vector_bytes, ser_row,
    ser_rows, ser_scalar, ser_static_lane, ser_static_vector, ser_u16, ser_u32, ser_vector,
    dynamic_rotation_error, quat_writable, ser_dynamic_rotation, ser_quat, ser_quats, ser_rotation,
    ser_block, ser_blocks, ser_mask, ser_masks, ser_spline, ser_track, ser_tracks, equal_track_counts,
};

verus! {

// ---------------------------------------------------------------------------
// Reading back primitive values
// ---------------------------------------------------------------------------

/// Whether `d` holds the bytes `w` at position `p`.
pub open spec fn holds_at(d: Seq<u8>, p: int, w: Seq<u8>) -> bool {
    0 <= p && p + w.len() <= d.len() && d.subrange(p, p + w.len()) == w
}

/// Bytes held at `p` in two consecutive parts are held part by part.
pub proof fn lemma_holds_split(d: Seq<u8>, p: int, a: Seq<u8>, b: Seq<u8>)
    requires
        holds_at(d, p, a + b),
    ensures
        holds_at(d, p, a),
        holds_at(d, p + a.len(), b),
{
    let w = a + b;
    assert forall|i: int| 0 <= i < w.len() implies d[p + i] == #[trigger] w[i] by {
        assert(d.subrange(p, p + w.len())[i] == w[i]);
    }
    assert forall|i: int| 0 <= i < a.len() implies d[p + i] == #[trigger] a[i] by {
        assert(w[i] == a[i]);
    }
    assert forall|i: int| 0 <= i < b.len() implies d[p + a.len() + i] == #[trigger] b[i] by {
        assert(w[a.len() + i] == b[i]);
    }
    assert(d.subrange(p, p + a.len()) =~= a);
    assert(d.subrange(p + a.len(), p + a.len() + b.len()) =~= b);
}

/// A little-endian 16-bit value reads back as itself.
pub proof fn lemma_read_u16(d: Seq<u8>, p: int, v: u16)
    requires
        holds_at(d, p, ser_u16(v)),
    ensures
        parse_u16(d, p, Endianness::Little) == Ok::<(u16, int), SplineError>((v, p + 2)),
{
    assert(d[p] == ser_u16(v)[0] && d[p + 1] == ser_u16(v)[1]);
    let b0 = (v % 0x100) as u8;
    let b1 = (v / 0x100) as u8;
    assert((b0 as nat + b1 as nat * 0x100) as u16 == v) by (nonlinear_arith)
        requires
            b0 == v % 0x100,
            b1 == v / 0x100,
    ;
}

/// A little-endian 32-bit value reads back as itself.
pub proof fn lemma_read_u32(d: Seq<u8>, p: int, v: u32)
    requires
        holds_at(d, p, ser_u32(v)),
    ensures
        parse_u32(d, p, Endianness::Little) == Ok::<(u32, int), SplineError>((v, p + 4)),
{
    let w = ser_u32(v);
    assert(d[p] == w[0] && d[p + 1] == w[1] && d[p + 2] == w[2] && d[p + 3] == w[3]);
    let b0 = (v % 0x100) as u8;
    let b1 = ((v / 0x100) % 0x100) as u8;
    let b2 = ((v / 0x10000) % 0x100) as u8;
    let b3 = (v / 0x1000000) as u8;
    assert(b0 + b1 * 0x100 + b2 * 0x10000 + b3 * 0x1000000 == v) by (bit_vector)
        requires
            b0 == v % 0x100,
            b1 == (v / 0x100) % 0x100,
            b2 == (v / 0x10000) % 0x100,
            b3 == v / 0x1000000,
    ;
}

/// Raw bytes read back as themselves.
pub proof fn lemma_read_bytes(d: Seq<u8>, p: int, w: Seq<u8>)
    requires
        holds_at(d, p, w),
    ensures
        parse_bytes(d, p, w.len() as int) == Ok::<(Seq<u8>, int), SplineError>((w, p + w.len())),
{
}

/// Padding is skipped by the matching alignment.
pub proof fn lemma_read_padding(d: Seq<u8>, p: int, a: int)
    requires
        a > 0,
        holds_at(d, p, padding(p, a)),
    ensures
        parse_align(d, p, a) == Ok::<int, SplineError>(p + padding(p, a).len()),
        (p + padding(p, a).len()) % a == 0,
        padding(p, a).len() < a,
{
    if p % a != 0 {
        vstd::arithmetic::div_mod::lemma_fundamental_div_mod(p, a);
        vstd::arithmetic::div_mod::lemma_mod_multiples_basic(p / a + 1, a);
        assert(p + (a - p % a) == (p / a + 1) * a) by (nonlinear_arith)
            requires
                p == a * (p / a) + p % a,
        ;
    }
}

// ---------------------------------------------------------------------------
// Vectors
// ---------------------------------------------------------------------------

/// A vector the decoder gives back exactly: a static vector's fourth lane
/// is zero and its identity axes hold exactly the default bit pattern (the
/// encoder also takes `-0.0` for a position default, which reads back as
/// `0.0`); a spline vector has three axes.
pub open spec fn vector_canonical(mask: TransformMask, scale: bool, v: VectorModel) -> bool {
    match v {
        VectorModel::Static(value) => {
            &&& value.len() == 4
            &&& value[3] == 0
            &&& forall|a: int| 0 <= a < 3 && #[trigger] vector_kind(mask, scale, a) is Identity ==> value[a] == vector_default(scale)
        },
        VectorModel::Dynamic { axes, .. } => axes.len() == 3,
    }
}

/// One lane of a vector without spline axes reads back.
proof fn lemma_static_lane_roundtrip(d: Seq<u8>, p: int, kind: SplineTrackType, v: u32, default: u32)
    requires
        ser_static_lane(kind, v, default) is Ok,
        holds_at(d, p, ser_static_lane(kind, v, default)->Ok_0),
        kind is Identity ==> v == default,
    ensures
        parse_static_lane(d, p, kind, default, Endianness::Little) == Ok::<(u32, int), SplineError>(
            (v, p + ser_static_lane(kind, v, default)->Ok_0.len()),
        ),
        ser_static_lane(kind, v, default)->Ok_0.len() % 4 == 0,
{
    if kind is Static {
        lemma_read_u32(d, p, v);
    }
}

/// A vector without spline axes reads back.
proof fn lemma_static_vector_roundtrip(d: Seq<u8>, p: int, mask: TransformMask, scale: bool, value: Seq<u32>)
    requires
        !vector_is_dynamic(mask, scale),
        vector_canonical(mask, scale, VectorModel::Static(value)),
        ser_static_vector(mask, scale, value) is Ok,
        holds_at(d, p, ser_static_vector(mask, scale, value)->Ok_0),
    ensures
        parse_static_vector(d, p, mask, scale, Endianness::Little) == Ok::<(VectorModel, int), SplineError>(
            (VectorModel::Static(value), p + ser_static_vector(mask, scale, value)->Ok_0.len()),
        ),
        ser_static_vector(mask, scale, value)->Ok_0.len() % 4 == 0,
{
    let default = vector_default(scale);
    let x = ser_static_lane(vector_kind(mask, scale, 0), value[0], default)->Ok_0;
    let y = ser_static_lane(vector_kind(mask, scale, 1), value[1], default)->Ok_0;
    let z = ser_static_lane(vector_kind(mask, scale, 2), value[2], default)->Ok_0;
    assert(vector_kind(mask, scale, 0) is Identity ==> value[0] == default);
    assert(vector_kind(mask, scale, 1) is Identity ==> value[1] == default);
    assert(vector_kind(mask, scale, 2) is Identity ==> value[2] == default);
    lemma_holds_split(d, p, x + y, z);
    lemma_holds_split(d, p, x, y);
    lemma_static_lane_roundtrip(d, p, vector_kind(mask, scale, 0), value[0], default);
    lemma_static_lane_roundtrip(d, p + x.len(), vector_kind(mask, scale, 1), value[1], default);
    lemma_static_lane_roundtrip(d, p + x.len() + y.len(), vector_kind(mask, scale, 2), value[2], default);
    assert(seq![value[0], value[1], value[2], 0u32] =~= value);
}

/// A quantized scalar reads back as itself.
proof fn lemma_scalar_roundtrip(d: Seq<u8>, pos: int, v: u16, q: QuantizationType)
    requires
        q is Bit8 || q is Bit16,
        fits_quantization(v, q),
        holds_at(d, pos, ser_scalar(v, q)),
    ensures
        scalar_at(d, pos, q, Endianness::Little) == v,
        ser_scalar(v, q).len() == scalar_size(q),
{
    if q is Bit8 {
        assert(d[pos] == ser_scalar(v, q)[0]);
    } else {
        lemma_holds_split(d, pos, ser_u16(v), seq![0u8, 0u8]);
        lemma_read_u16(d, pos, v);
    }
}

/// The facts about a spline vector's axes that its rows rely on.
pub open spec fn rows_ready(mask: TransformMask, scale: bool, axes: Seq<AxisModel>, q: QuantizationType, n: int) -> bool {
    &&& axes.len() == 3
    &&& q is Bit8 || q is Bit16
    &&& forall|a: int| 0 <= a < 3 ==> axis_matches(#[trigger] vector_kind(mask, scale, a), axes[a])
    &&& forall|a: int| 0 <= a < 3 ==> #[trigger] axis_error(axes[a], n, q) is None
}

/// The offset of axis `a`'s scalar within a row, and the row's length.
proof fn lemma_row_layout(mask: TransformMask, scale: bool, axes: Seq<AxisModel>, q: QuantizationType, n: int, i: int)
    requires
        rows_ready(mask, scale, axes, q, n),
        0 <= i < n,
    ensures
        ser_row(mask, scale, axes, q, i).len() == dynamic_rank(mask, scale, 3) * scalar_size(q),
        forall|a: int| 0 <= a < 3 ==> (#[trigger] row_piece(mask, scale, axes, q, a, i)).len() == (if vector_kind(mask, scale, a) is Dynamic { scalar_size(q) } else { 0 }),
{
    assert forall|a: int| 0 <= a < 3 implies (#[trigger] row_piece(mask, scale, axes, q, a, i)).len() == (if vector_kind(mask, scale, a) is Dynamic { scalar_size(q) } else { 0 }) by {
        assert(axis_matches(vector_kind(mask, scale, a), axes[a]));
        assert(axis_error(axes[a], n, q) is None);
    }
    assert(row_piece(mask, scale, axes, q, 0, i).len() >= 0);
    assert(row_piece(mask, scale, axes, q, 1, i).len() >= 0);
    assert(row_piece(mask, scale, axes, q, 2, i).len() >= 0);
}

/// `n` rows are `n` times the row length long, and row `i` starts at `i`
/// times the row length.
proof fn lemma_rows_layout(mask: TransformMask, scale: bool, axes: Seq<AxisModel>, q: QuantizationType, n: int, m: nat)
    requires
        rows_ready(mask, scale, axes, q, n),
        m <= n,
    ensures
        ser_rows(mask, scale, axes, q, m).len() == m * (dynamic_rank(mask, scale, 3) * scalar_size(q)),
        forall|i: int| 0 <= i < m ==> ser_rows(mask, scale, axes, q, m).subrange(
            i * (dynamic_rank(mask, scale, 3) * scalar_size(q)),
            i * (dynamic_rank(mask, scale, 3) * scalar_size(q)) + dynamic_rank(mask, scale, 3) * scalar_size(q),
        ) == #[trigger] ser_row(mask, scale, axes, q, i),
    decreases m,
{
    let stride = dynamic_rank(mask, scale, 3) * scalar_size(q);
    if m > 0 {
        let k = (m - 1) as nat;
        lemma_rows_layout(mask, scale, axes, q, n, k);
        lemma_row_layout(mask, scale, axes, q, n, k as int);
        let prev = ser_rows(mask, scale, axes, q, k);
        let row = ser_row(mask, scale, axes, q, k as int);
        assert(k * stride + stride == m * stride) by (nonlinear_arith)
            requires
                k + 1 == m,
        ;
        assert forall|i: int| 0 <= i < m implies ser_rows(mask, scale, axes, q, m).subrange(i * stride, i * stride + stride) == #[trigger] ser_row(mask, scale, axes, q, i) by {
            if i < k {
                assert(i * stride + stride <= k * stride) by (nonlinear_arith)
                    requires
                        i < k,
                        stride >= 0,
                ;
                assert(i * stride >= 0) by (nonlinear_arith)
                    requires
                        i >= 0,
                        stride >= 0,
                ;
                assert((prev + row).subrange(i * stride, i * stride + stride) =~= prev.subrange(i * stride, i * stride + stride));
            } else {
                assert((prev + row).subrange(i * stride, i * stride + stride) =~= row);
            }
        }
        assert(ser_rows(mask, scale, axes, q, m) == prev + row);
    } else {
        assert(m * stride == 0) by (nonlinear_arith)
            requires
                m == 0,
        ;
    }
}

/// The control points of `n` rows read back as each spline axis's values.
proof fn lemma_rows_roundtrip(d: Seq<u8>, p: int, mask: TransformMask, scale: bool, axes: Seq<AxisModel>, q: QuantizationType, n: nat)
    requires
        rows_ready(mask, scale, axes, q, n as int),
        holds_at(d, p, ser_rows(mask, scale, axes, q, n)),
    ensures
        ser_rows(mask, scale, axes, q, n).len() == n * (dynamic_rank(mask, scale, 3) * scalar_size(q)),
        forall|a: int| 0 <= a < 3 && vector_kind(mask, scale, a) is Dynamic ==> #[trigger] axis_points(d, p, mask, scale, q, n, a, Endianness::Little)
            == axis_values(axes[a]),
{
    let stride = dynamic_rank(mask, scale, 3) * scalar_size(q);
    let rows = ser_rows(mask, scale, axes, q, n);
    lemma_rows_layout(mask, scale, axes, q, n as int, n);
    assert forall|a: int| 0 <= a < 3 && vector_kind(mask, scale, a) is Dynamic implies #[trigger] axis_points(d, p, mask, scale, q, n, a, Endianness::Little)
        == axis_values(axes[a]) by {
        assert(axis_matches(vector_kind(mask, scale, a), axes[a]));
        assert(axis_error(axes[a], n as int, q) is None);
        let values = axis_values(axes[a]);
        assert forall|i: int| 0 <= i < n implies #[trigger] scalar_at(d, p + i * stride + dynamic_rank(mask, scale, a) * scalar_size(q), q, Endianness::Little) == values[i] by {
            let row = ser_row(mask, scale, axes, q, i);
            lemma_row_layout(mask, scale, axes, q, n as int, i);
            assert(i * stride + stride <= n * stride) by (nonlinear_arith)
                requires
                    i < n,
                    stride >= 0,
            ;
            assert(i * stride >= 0) by (nonlinear_arith)
                requires
                    i >= 0,
                    stride >= 0,
            ;
            assert(rows.subrange(i * stride, i * stride + stride) == row);
            assert(d.subrange(p + i * stride, p + i * stride + stride) =~= rows.subrange(i * stride, i * stride + stride)) by {
                assert forall|j: int| 0 <= j < stride implies #[trigger] d.subrange(p + i * stride, p + i * stride + stride)[j] == rows.subrange(i * stride, i * stride + stride)[j] by {
                    assert(d.subrange(p, p + rows.len())[i * stride + j] == rows[i * stride + j]);
                }
            }
            assert(holds_at(d, p + i * stride, row));
            let p0 = row_piece(mask, scale, axes, q, 0, i);
            let p1 = row_piece(mask, scale, axes, q, 1, i);
            let p2 = row_piece(mask, scale, axes, q, 2, i);
            lemma_holds_split(d, p + i * stride, p0 + p1, p2);
            lemma_holds_split(d, p + i * stride, p0, p1);
            assert(fits_quantization(values[i], q));
            if a == 0 {
                lemma_scalar_roundtrip(d, p + i * stride, values[i], q);
            } else if a == 1 {
                lemma_scalar_roundtrip(d, p + i * stride + p0.len(), values[i], q);
            } else {
                lemma_scalar_roundtrip(d, p + i * stride + p0.len() + p1.len(), values[i], q);
            }
        }
        assert(axis_points(d, p, mask, scale, q, n, a, Endianness::Little) =~= values);
    }
}

/// What the decoder makes of an axis header: a spline axis without its
/// control points yet.
pub open spec fn header_of(axis: AxisModel) -> AxisModel {
    match axis {
        AxisModel::Dynamic { min, max, .. } => AxisModel::Dynamic { min, max, values: Seq::empty() },
        other => other,
    }
}

/// An axis header reads back.
proof fn lemma_axis_header_roundtrip(d: Seq<u8>, pos: int, kind: SplineTrackType, axis: AxisModel)
    requires
        axis_matches(kind, axis),
        holds_at(d, pos, ser_axis_header(axis)),
    ensures
        parse_axis_header(d, pos, kind, Endianness::Little) == Ok::<(AxisModel, int), SplineError>(
            (header_of(axis), pos + ser_axis_header(axis).len()),
        ),
{
    reveal(parse_axis_header);
    match axis {
        AxisModel::Dynamic { min, max, .. } => {
            lemma_holds_split(d, pos, ser_u32(min), ser_u32(max));
            lemma_read_u32(d, pos, min);
            lemma_read_u32(d, pos + 4, max);
        },
        AxisModel::Static(v) => {
            lemma_read_u32(d, pos, v);
        },
        AxisModel::Identity => {},
    }
}

/// A valid spline vector's axes are ready to be written as rows.
proof fn lemma_rows_ready(mask: TransformMask, scale: bool, q: QuantizationType, axes: Seq<AxisModel>, knots: Seq<u8>, degree: u8)
    requires
        axes.len() == 3,
        q is Bit8 || q is Bit16,
        dynamic_vector_error(mask, scale, q, axes, knots, degree) is None,
    ensures
        rows_ready(mask, scale, axes, q, dynamic_count(mask, scale, axes)),
        2 <= dynamic_count(mask, scale, axes) <= 0x1_0000,
        knots.len() == dynamic_count(mask, scale, axes) + degree + 1,
{
    reveal(dynamic_vector_error);
    let n = dynamic_count(mask, scale, axes);
    assert forall|a: int| 0 <= a < 3 implies axis_matches(#[trigger] vector_kind(mask, scale, a), axes[a]) by {
        assert(a == 0 || a == 1 || a == 2);
    }
    assert forall|a: int| 0 <= a < 3 implies #[trigger] axis_error(axes[a], n, q) is None by {
        assert(a == 0 || a == 1 || a == 2);
    }
}

/// A spline header reads back.
proof fn lemma_spline_header_roundtrip(d: Seq<u8>, p: int, n: int, degree: u8, knots: Seq<u8>)
    requires
        2 <= n <= 0x1_0000,
        knots.len() == n + degree + 1,
        holds_at(d, p, ser_u16((n - 1) as u16) + seq![degree] + knots),
    ensures
        parse_spline_header(d, p, Endianness::Little) == Ok::<((u16, u8, Seq<u8>), int), SplineError>(
            (((n - 1) as u16, degree, knots), p + 3 + knots.len()),
        ),
{
    reveal(parse_spline_header);
    lemma_holds_split(d, p, ser_u16((n - 1) as u16) + seq![degree], knots);
    lemma_holds_split(d, p, ser_u16((n - 1) as u16), seq![degree]);
    lemma_read_u16(d, p, (n - 1) as u16);
    assert(d[p + 2] == degree) by {
        assert(d.subrange(p + 2, p + 3)[0] == seq![degree][0]);
    }
    lemma_read_bytes(d, p + 3, knots);
}

/// The axis headers and control points of a spline vector read back.
proof fn lemma_vector_body_roundtrip(d: Seq<u8>, q0: int, mask: TransformMask, scale: bool, q: QuantizationType, axes: Seq<AxisModel>, n: int)
    requires
        rows_ready(mask, scale, axes, q, n),
        n >= 0,
        holds_at(d, q0, ser_axis_header(axes[0]) + ser_axis_header(axes[1]) + ser_axis_header(axes[2]) + ser_rows(mask, scale, axes, q, n as nat)),
    ensures
        ({
            let h0 = ser_axis_header(axes[0]);
            let h1 = ser_axis_header(axes[1]);
            let h2 = ser_axis_header(axes[2]);
            let p5 = q0 + h0.len() + h1.len() + h2.len();
            let rows = ser_rows(mask, scale, axes, q, n as nat);
            &&& parse_axis_header(d, q0, vector_kind(mask, scale, 0), Endianness::Little) == Ok::<(AxisModel, int), SplineError>((header_of(axes[0]), q0 + h0.len()))
            &&& parse_axis_header(d, q0 + h0.len(), vector_kind(mask, scale, 1), Endianness::Little) == Ok::<(AxisModel, int), SplineError>((header_of(axes[1]), q0 + h0.len() + h1.len()))
            &&& parse_axis_header(d, q0 + h0.len() + h1.len(), vector_kind(mask, scale, 2), Endianness::Little) == Ok::<(AxisModel, int), SplineError>((header_of(axes[2]), p5))
            &&& parse_control_points(d, p5, mask, scale, q, n as nat, Endianness::Little) matches Ok(((v0, v1, v2), e))
                && e == p5 + rows.len()
                && fill_axis(header_of(axes[0]), v0) == axes[0]
                && fill_axis(header_of(axes[1]), v1) == axes[1]
                && fill_axis(header_of(axes[2]), v2) == axes[2]
        }),
{
    let h0 = ser_axis_header(axes[0]);
    let h1 = ser_axis_header(axes[1]);
    let h2 = ser_axis_header(axes[2]);
    let rows = ser_rows(mask, scale, axes, q, n as nat);
    lemma_holds_split(d, q0, h0 + h1 + h2, rows);
    lemma_holds_split(d, q0, h0 + h1, h2);
    lemma_holds_split(d, q0, h0, h1);
    assert(axis_matches(vector_kind(mask, scale, 0), axes[0]));
    assert(axis_matches(vector_kind(mask, scale, 1), axes[1]));
    assert(axis_matches(vector_kind(mask, scale, 2), axes[2]));
    lemma_axis_header_roundtrip(d, q0, vector_kind(mask, scale, 0), axes[0]);
    lemma_axis_header_roundtrip(d, q0 + h0.len(), vector_kind(mask, scale, 1), axes[1]);
    lemma_axis_header_roundtrip(d, q0 + h0.len() + h1.len(), vector_kind(mask, scale, 2), axes[2]);
    let p5 = q0 + h0.len() + h1.len() + h2.len();
    reveal(parse_control_points);
    lemma_rows_roundtrip(d, p5, mask, scale, axes, q, n as nat);
    let v0 = axis_points(d, p5, mask, scale, q, n as nat, 0, Endianness::Little);
    let v1 = axis_points(d, p5, mask, scale, q, n as nat, 1, Endianness::Little);
    let v2 = axis_points(d, p5, mask, scale, q, n as nat, 2, Endianness::Little);
    assert(fill_axis(header_of(axes[0]), v0) == axes[0]) by {
        if vector_kind(mask, scale, 0) is Dynamic {
            assert(v0 == axis_values(axes[0]));
        }
    }
    assert(fill_axis(header_of(axes[1]), v1) == axes[1]) by {
        if vector_kind(mask, scale, 1) is Dynamic {
            assert(v1 == axis_values(axes[1]));
        }
    }
    assert(fill_axis(header_of(axes[2]), v2) == axes[2]) by {
        if vector_kind(mask, scale, 2) is Dynamic {
            assert(v2 == axis_values(axes[2]));
        }
    }
}

/// A spline vector reads back, and ends on a multiple of 4.
proof fn lemma_dynamic_vector_roundtrip(
    d: Seq<u8>,
    p: int,
    mask: TransformMask,
    scale: bool,
    q: QuantizationType,
    axes: Seq<AxisModel>,
    knots: Seq<u8>,
    degree: u8,
)
    requires
        axes.len() == 3,
        q is Bit8 || q is Bit16,
        ser_dynamic_vector(mask, scale, q, axes, knots, degree, p) is Ok,
        holds_at(d, p, ser_dynamic_vector(mask, scale, q, axes, knots, degree, p)->Ok_0),
    ensures
        parse_dynamic_vector(d, p, mask, scale, q, Endianness::Little) == Ok::<(VectorModel, int), SplineError>(
            (
                VectorModel::Dynamic { axes, knots, degree },
                p + ser_dynamic_vector(mask, scale, q, axes, knots, degree, p)->Ok_0.len(),
            ),
        ),
        (p + ser_dynamic_vector(mask, scale, q, axes, knots, degree, p)->Ok_0.len()) % 4 == 0,
{
    lemma_rows_ready(mask, scale, q, axes, knots, degree);
    let n = dynamic_count(mask, scale, axes);
    let head = ser_u16((n - 1) as u16) + seq![degree] + knots;
    let pad1 = padding(p + head.len(), 4);
    let body = ser_axis_header(axes[0]) + ser_axis_header(axes[1]) + ser_axis_header(axes[2]) + ser_rows(mask, scale, axes, q, n as nat);
    let before_body = head + pad1;
    let before_tail = before_body + body;
    let pad2 = padding(p + before_tail.len(), 4);
    assert(ser_dynamic_vector(mask, scale, q, axes, knots, degree, p)->Ok_0 == before_tail + pad2) by {
        reveal(ser_dynamic_vector_bytes);
    }
    lemma_holds_split(d, p, before_tail, pad2);
    lemma_holds_split(d, p, before_body, body);
    lemma_holds_split(d, p, head, pad1);
    lemma_spline_header_roundtrip(d, p, n, degree, knots);
    lemma_read_padding(d, p + head.len(), 4);
    lemma_vector_body_roundtrip(d, p + before_body.len(), mask, scale, q, axes, n);
    lemma_read_padding(d, p + before_tail.len(), 4);
    let v = parse_control_points(d, p + before_body.len() + ser_axis_header(axes[0]).len() + ser_axis_header(axes[1]).len() + ser_axis_header(axes[2]).len(), mask, scale, q, n as nat, Endianness::Little)->Ok_0.0;
    assert(seq![fill_axis(header_of(axes[0]), v.0), fill_axis(header_of(axes[1]), v.1), fill_axis(header_of(axes[2]), v.2)] =~= axes);
}

/// A position or scale vector reads back; a vector starting on a multiple
/// of 4 ends on one.
#[verifier::spinoff_prover]
pub proof fn lemma_vector_roundtrip(d: Seq<u8>, p: int, mask: TransformMask, scale: bool, q: QuantizationType, v: VectorModel)
    requires
        p % 4 == 0,
        q is Bit8 || q is Bit16,
        vector_canonical(mask, scale, v),
        ser_vector(mask, scale, q, v, p) is Ok,
        holds_at(d, p, ser_vector(mask, scale, q, v, p)->Ok_0),
    ensures
        parse_vector(d, p, mask, scale, q, Endianness::Little) == Ok::<(VectorModel, int), SplineError>(
            (v, p + ser_vector(mask, scale, q, v, p)->Ok_0.len()),
        ),
        (p + ser_vector(mask, scale, q, v, p)->Ok_0.len()) % 4 == 0,
{
    match v {
        VectorModel::Static(value) => {
            assert(parse_vector(d, p, mask, scale, q, Endianness::Little) == parse_static_vector(d, p, mask, scale, Endianness::Little));
            assert(ser_vector(mask, scale, q, v, p) == ser_static_vector(mask, scale, value));
            lemma_static_vector_roundtrip(d, p, mask, scale, value);
        },
        VectorModel::Dynamic { axes, knots, degree } => {
            assert(parse_vector(d, p, mask, scale, q, Endianness::Little) == parse_dynamic_vector(d, p, mask, scale, q, Endianness::Little));
            assert(ser_vector(mask, scale, q, v, p) == ser_dynamic_vector(mask, scale, q, axes, knots, degree, p));
            lemma_dynamic_vector_roundtrip(d, p, mask, scale, q, axes, knots, degree);
        },
    }
}

// ---------------------------------------------------------------------------
// Rotations
// ---------------------------------------------------------------------------

/// A packed quaternion of the shape its type guarantees.
pub open spec fn quat_wf(quat: QuatModel) -> bool {
    match quat {
        QuatModel::ThreeComp40(bytes) => bytes.len() == 5,
        QuatModel::Uncompressed(c) => c.len() == 4,
        _ => true,
    }
}

/// A rotation track of the shape its type guarantees.
pub open spec fn rotation_wf(r: RotationModel) -> bool {
    match r {
        RotationModel::Static(v) => quat_wf(v),
        RotationModel::Dynamic { track, .. } => forall|i: int| 0 <= i < track.len() ==> quat_wf(#[trigger] track[i]),
        RotationModel::Identity => true,
    }
}

/// A written quaternion reads back.
proof fn lemma_quat_roundtrip(d: Seq<u8>, pos: int, quat: QuatModel, q: QuantizationType, strict: bool)
    requires
        quat_wf(quat),
        ser_quat(quat, q) is Ok,
        holds_at(d, pos, ser_quat(quat, q)->Ok_0),
    ensures
        ser_quat(quat, q)->Ok_0.len() == quat_size(q),
        quat_supported(q),
        quat_at(d, pos, q, Endianness::Little) == quat,
        parse_quat(d, pos, q, Endianness::Little, strict) == Ok::<(QuatModel, int), SplineError>((quat, pos + quat_size(q))),
{
    match quat {
        QuatModel::ThreeComp40(bytes) => {
            assert(d.subrange(pos, pos + 5) == bytes);
        },
        QuatModel::ThreeComp48(x, y, z) => {
            lemma_holds_split(d, pos, ser_u16(x) + ser_u16(y), ser_u16(z));
            lemma_holds_split(d, pos, ser_u16(x), ser_u16(y));
            lemma_read_u16(d, pos, x);
            lemma_read_u16(d, pos + 2, y);
            lemma_read_u16(d, pos + 4, z);
        },
        QuatModel::Uncompressed(c) => {
            let a = ser_u32(c[0]);
            let b = ser_u32(c[1]);
            let e = ser_u32(c[2]);
            let f = ser_u32(c[3]);
            lemma_holds_split(d, pos, a + b + e, f);
            lemma_holds_split(d, pos, a + b, e);
            lemma_holds_split(d, pos, a, b);
            lemma_read_u32(d, pos, c[0]);
            lemma_read_u32(d, pos + 4, c[1]);
            lemma_read_u32(d, pos + 8, c[2]);
            lemma_read_u32(d, pos + 12, c[3]);
            assert(seq![c[0], c[1], c[2], c[3]] =~= c);
        },
        _ => {},
    }
}

/// Written quaternions follow each other at a fixed stride.
proof fn lemma_quats_layout(track: Seq<QuatModel>, q: QuantizationType, m: int)
    requires
        0 <= m <= track.len(),
        forall|i: int| 0 <= i < track.len() ==> quat_wf(#[trigger] track[i]),
        forall|i: int| 0 <= i < track.len() ==> #[trigger] ser_quat(track[i], q) is Ok,
        quat_writable(q),
    ensures
        ser_quats(track.take(m), q).len() == m * quat_size(q),
        forall|i: int| 0 <= i < m ==> ser_quats(track.take(m), q).subrange(i * quat_size(q), i * quat_size(q) + quat_size(q))
            == ser_quat(#[trigger] track[i], q)->Ok_0,
    decreases m,
{
    let size = quat_size(q);
    if m > 0 {
        lemma_quats_layout(track, q, m - 1);
        let prev = ser_quats(track.take(m - 1), q);
        let last = ser_quat(track[m - 1], q)->Ok_0;
        assert(track.take(m).drop_last() =~= track.take(m - 1));
        assert(ser_quats(track.take(m), q) == prev + last);
        assert(last.len() == size) by {
            assert(ser_quat(track[m - 1], q) is Ok);
        }
        assert((m - 1) * size + size == m * size) by (nonlinear_arith);
        assert forall|i: int| 0 <= i < m implies (prev + last).subrange(i * size, i * size + size) == ser_quat(#[trigger] track[i], q)->Ok_0 by {
            if i < m - 1 {
                assert(i * size + size <= (m - 1) * size) by (nonlinear_arith)
                    requires
                        i < m - 1,
                        size >= 0,
                ;
                assert(i * size >= 0) by (nonlinear_arith)
                    requires
                        i >= 0,
                        size >= 0,
                ;
                assert((prev + last).subrange(i * size, i * size + size) =~= prev.subrange(i * size, i * size + size));
            } else {
                assert((prev + last).subrange(i * size, i * size + size) =~= last);
            }
        }
    } else {
        assert(track.take(0).len() == 0);
    }
}

/// Written quaternions read back.
proof fn lemma_quats_roundtrip(d: Seq<u8>, pos: int, track: Seq<QuatModel>, q: QuantizationType, strict: bool)
    requires
        forall|i: int| 0 <= i < track.len() ==> quat_wf(#[trigger] track[i]),
        forall|i: int| 0 <= i < track.len() ==> #[trigger] ser_quat(track[i], q) is Ok,
        quat_writable(q),
        holds_at(d, pos, ser_quats(track, q)),
    ensures
        parse_quats(d, pos, q, track.len(), Endianness::Little, strict) == Ok::<(Seq<QuatModel>, int), SplineError>(
            (track, pos + ser_quats(track, q).len()),
        ),
{
    let size = quat_size(q);
    lemma_quats_layout(track, q, track.len() as int);
    assert(track.take(track.len() as int) =~= track);
    let w = ser_quats(track, q);
    assert forall|i: int| 0 <= i < track.len() implies #[trigger] quat_at(d, pos + i * size, q, Endianness::Little) == track[i] by {
        assert(i * size + size <= track.len() * size) by (nonlinear_arith)
            requires
                i < track.len(),
                size >= 0,
        ;
        assert(i * size >= 0) by (nonlinear_arith)
            requires
                i >= 0,
                size >= 0,
        ;
        let piece = ser_quat(track[i], q)->Ok_0;
        assert(w.subrange(i * size, i * size + size) == piece);
        assert(d.subrange(pos + i * size, pos + i * size + size) =~= piece) by {
            assert forall|j: int| 0 <= j < size implies #[trigger] d.subrange(pos + i * size, pos + i * size + size)[j] == piece[j] by {
                assert(d.subrange(pos, pos + w.len())[i * size + j] == w[i * size + j]);
            }
        }
        lemma_quat_roundtrip(d, pos + i * size, track[i], q, strict);
    }
    assert(quat_supported(q));
    assert(Seq::new(track.len(), |i: int| quat_or_identity_at(d, pos + i * size, q, Endianness::Little)) =~= track);
}

/// The facts behind a valid quaternion spline.
proof fn lemma_dynamic_rotation_valid(q: QuantizationType, track: Seq<QuatModel>, knots: Seq<u8>, degree: u8)
    requires
        dynamic_rotation_error(q, track, knots, degree) is None,
    ensures
        2 <= track.len() <= 0x1_0000,
        knots.len() == track.len() + degree + 1,
        forall|i: int| 0 <= i < track.len() ==> #[trigger] ser_quat(track[i], q) is Ok,
        quat_writable(q),
{
    assert(ser_quat(track[0], q) is Ok);
}

/// A rotation track reads back.
pub proof fn lemma_rotation_roundtrip(d: Seq<u8>, p: int, mask: TransformMask, r: RotationModel, strict: bool)
    requires
        rotation_wf(r),
        ser_rotation(mask, r, p) is Ok,
        holds_at(d, p, ser_rotation(mask, r, p)->Ok_0),
    ensures
        parse_rotation(d, p, mask, Endianness::Little, strict) == Ok::<(RotationModel, int), SplineError>(
            (r, p + ser_rotation(mask, r, p)->Ok_0.len()),
        ),
{
    let q = mask.spec_rotation_quantization()->Ok_0;
    match r {
        RotationModel::Identity => {},
        RotationModel::Static(value) => {
            let b = ser_quat(value, q)->Ok_0;
            let pad = padding(p, rotation_read_align(q));
            lemma_holds_split(d, p, pad, b);
            lemma_read_padding(d, p, rotation_read_align(q));
            lemma_quat_roundtrip(d, p + pad.len(), value, q, strict);
        },
        RotationModel::Dynamic { track, knots, degree } => {
            lemma_dynamic_rotation_valid(q, track, knots, degree);
            let n = track.len() as int;
            let head = ser_u16((n - 1) as u16) + seq![degree] + knots;
            let pad = padding(p + head.len(), rotation_read_align(q));
            let body = ser_quats(track, q);
            lemma_holds_split(d, p, head + pad, body);
            lemma_holds_split(d, p, head, pad);
            lemma_spline_header_roundtrip(d, p, n, degree, knots);
            lemma_read_padding(d, p + head.len(), rotation_read_align(q));
            lemma_quats_roundtrip(d, p + head.len() + pad.len(), track, q, strict);
            assert((n - 1) as u16 as nat + 1 == n);
        },
    }
}

// ---------------------------------------------------------------------------
// Tracks and blocks
// ---------------------------------------------------------------------------

/// A track the decoder gives back exactly under its mask.
pub open spec fn track_canonical(mask: TransformMask, t: TrackModel) -> bool {
    &&& vector_canonical(mask, false, t.position)
    &&& rotation_wf(t.rotation)
    &&& vector_canonical(mask, true, t.scale)
}

/// A track starting on a multiple of 4 reads back and ends on one.
proof fn lemma_track_roundtrip(d: Seq<u8>, p: int, mask: TransformMask, t: TrackModel, strict: bool)
    requires
        p % 4 == 0,
        track_canonical(mask, t),
        ser_track(mask, t, p) is Ok,
        holds_at(d, p, ser_track(mask, t, p)->Ok_0),
    ensures
        parse_track(d, p, mask, Endianness::Little, strict) == Ok::<(TrackModel, int), SplineError>(
            (t, p + ser_track(mask, t, p)->Ok_0.len()),
        ),
        (p + ser_track(mask, t, p)->Ok_0.len()) % 4 == 0,
{
    reveal(ser_track);
    reveal(parse_track);
    let pq = mask.spec_position_quantization()->Ok_0;
    let sq = mask.spec_scale_quantization()->Ok_0;
    let pos = ser_vector(mask, false, pq, t.position, p)->Ok_0;
    let pad1 = padding(p + pos.len(), 4);
    let s1 = pos + pad1;
    let rot = ser_rotation(mask, t.rotation, p + s1.len())->Ok_0;
    let s2 = s1 + rot;
    let pad2 = padding(p + s2.len(), 4);
    let s3 = s2 + pad2;
    let sc = ser_vector(mask, true, sq, t.scale, p + s3.len())->Ok_0;
    assert(ser_track(mask, t, p)->Ok_0 == s3 + sc);
    lemma_holds_split(d, p, s3, sc);
    lemma_holds_split(d, p, s2, pad2);
    lemma_holds_split(d, p, s1, rot);
    lemma_holds_split(d, p, pos, pad1);
    lemma_vector_roundtrip(d, p, mask, false, pq, t.position);
    assert(pad1.len() == 0);
    lemma_rotation_roundtrip(d, p + s1.len(), mask, t.rotation, strict);
    lemma_read_padding(d, p + s2.len(), 4);
    lemma_vector_roundtrip(d, p + s3.len(), mask, true, sq, t.scale);
}

/// The tracks of a block, starting on a multiple of 4, read back.
proof fn lemma_tracks_roundtrip(d: Seq<u8>, p: int, masks: Seq<TransformMask>, tracks: Seq<TrackModel>, strict: bool)
    requires
        p % 4 == 0,
        masks.len() == tracks.len(),
        forall|i: int| 0 <= i < tracks.len() ==> track_canonical(#[trigger] masks[i], tracks[i]),
        ser_tracks(masks, tracks, p) is Ok,
        holds_at(d, p, ser_tracks(masks, tracks, p)->Ok_0),
    ensures
        parse_tracks(d, p, masks, Endianness::Little, strict) == Ok::<(Seq<TrackModel>, int), SplineError>(
            (tracks, p + ser_tracks(masks, tracks, p)->Ok_0.len()),
        ),
        (p + ser_tracks(masks, tracks, p)->Ok_0.len()) % 4 == 0,
    decreases tracks.len(),
{
    if tracks.len() > 0 {
        let ms = masks.drop_last();
        let ts = tracks.drop_last();
        let prev = ser_tracks(ms, ts, p)->Ok_0;
        let last = ser_track(masks.last(), tracks.last(), p + prev.len())->Ok_0;
        assert(ser_tracks(masks, tracks, p)->Ok_0 == prev + last);
        lemma_holds_split(d, p, prev, last);
        assert forall|i: int| 0 <= i < ts.len() implies track_canonical(#[trigger] ms[i], ts[i]) by {
            assert(track_canonical(masks[i], tracks[i]));
        }
        lemma_tracks_roundtrip(d, p, ms, ts, strict);
        assert(track_canonical(masks[masks.len() - 1], tracks[tracks.len() - 1]));
        lemma_track_roundtrip(d, p + prev.len(), masks.last(), tracks.last(), strict);
        assert(ts.push(tracks.last()) =~= tracks);
    } else {
        assert(tracks =~= Seq::<TrackModel>::empty());
    }
}

/// Mask `i` of written masks is held at `4 * i`.
proof fn lemma_masks_roundtrip(d: Seq<u8>, masks: Seq<TransformMask>)
    requires
        holds_at(d, 0, ser_masks(masks)),
    ensures
        ser_masks(masks).len() == 4 * masks.len(),
        forall|i: int| 0 <= i < masks.len() ==> mask_at(d, 4 * i) == #[trigger] masks[i],
    decreases masks.len(),
{
    if masks.len() > 0 {
        let prev = ser_masks(masks.drop_last());
        let m = masks.last();
        lemma_holds_split(d, 0, prev, ser_mask(m));
        lemma_masks_roundtrip(d, masks.drop_last());
        let k = masks.len() - 1;
        assert(d[4 * k] == ser_mask(m)[0] && d[4 * k + 1] == ser_mask(m)[1] && d[4 * k + 2] == ser_mask(m)[2]
            && d[4 * k + 3] == ser_mask(m)[3]) by {
            assert(d.subrange(4 * k, 4 * k + 4)[0] == ser_mask(m)[0]);
            assert(d.subrange(4 * k, 4 * k + 4)[1] == ser_mask(m)[1]);
            assert(d.subrange(4 * k, 4 * k + 4)[2] == ser_mask(m)[2]);
            assert(d.subrange(4 * k, 4 * k + 4)[3] == ser_mask(m)[3]);
        }
        assert forall|i: int| 0 <= i < masks.len() implies mask_at(d, 4 * i) == #[trigger] masks[i] by {
            if i < k {
                assert(masks.drop_last()[i] == masks[i]);
            }
        }
    }
}

/// A block the decoder gives back exactly: one mask per track and every
/// track canonical under its mask.
pub open spec fn block_canonical(b: BlockModel) -> bool {
    &&& b.masks.len() == b.tracks.len()
    &&& forall|i: int| 0 <= i < b.tracks.len() ==> track_canonical(#[trigger] b.masks[i], b.tracks[i])
}

/// A written block, held at the start of `d`, reads back without float
/// tracks.
pub proof fn lemma_block_roundtrip(d: Seq<u8>, b: BlockModel, strict: bool)
    requires
        block_canonical(b),
        b.masks.len() * 4 <= usize::MAX,
        ser_block(b) is Ok,
        holds_at(d, 0, ser_block(b)->Ok_0),
    ensures
        parse_block(d, b.masks.len(), 0, Endianness::Little, strict) == Ok::<BlockModel, SplineError>(b),
{
    let head = ser_masks(b.masks);
    let pad = padding(head.len() as int, 4);
    let start = head + pad;
    let t = ser_tracks(b.masks, b.tracks, start.len() as int)->Ok_0;
    let tail = padding((start.len() + t.len()) as int, 16);
    assert(ser_block(b)->Ok_0 == start + t + tail);
    lemma_holds_split(d, 0, start + t, tail);
    lemma_holds_split(d, 0, start, t);
    lemma_holds_split(d, 0, head, pad);
    lemma_masks_roundtrip(d, b.masks);
    assert(pad.len() == 0);
    lemma_tracks_roundtrip(d, start.len() as int, b.masks, b.tracks, strict);
    assert(Seq::new(b.masks.len(), |i: int| mask_at(d, 4 * i)) =~= b.masks);
}

/// Written blocks, held at the start of `d`, read back from their offsets.
proof fn lemma_blocks_roundtrip(d: Seq<u8>, blocks: Seq<BlockModel>, n: nat, strict: bool)
    requires
        forall|i: int| 0 <= i < blocks.len() ==> block_canonical(#[trigger] blocks[i]),
        forall|i: int| 0 <= i < blocks.len() ==> (#[trigger] blocks[i]).masks.len() == n,
        n * 4 <= usize::MAX,
        ser_blocks(blocks) is Ok,
        holds_at(d, 0, ser_blocks(blocks)->Ok_0.0),
    ensures
        parse_blocks(d, ser_blocks(blocks)->Ok_0.1, n, 0, Endianness::Little, strict) == Ok::<Seq<BlockModel>, SplineError>(blocks),
        ser_blocks(blocks)->Ok_0.1.len() == blocks.len(),
    decreases blocks.len(),
{
    if blocks.len() > 0 {
        let prefix = blocks.drop_last();
        let (data, offsets) = ser_blocks(prefix)->Ok_0;
        let start = data + padding(data.len() as int, 4);
        let b = ser_block(blocks.last())->Ok_0;
        assert(ser_blocks(blocks)->Ok_0 == (start + b, offsets.push(start.len() as u32)));
        lemma_holds_split(d, 0, start, b);
        lemma_holds_split(d, 0, data, padding(data.len() as int, 4));
        assert forall|i: int| 0 <= i < prefix.len() implies block_canonical(#[trigger] prefix[i]) && prefix[i].masks.len() == n by {
            assert(block_canonical(blocks[i]) && blocks[i].masks.len() == n);
        }
        lemma_blocks_roundtrip(d, prefix, n, strict);
        let k = blocks.len() - 1;
        assert(block_canonical(blocks[k]) && blocks[k].masks.len() == n);
        let rest = d.subrange(start.len() as int, d.len() as int);
        assert(holds_at(rest, 0, b)) by {
            assert(rest.subrange(0, b.len() as int) =~= d.subrange(start.len() as int, (start.len() + b.len()) as int));
        }
        lemma_block_roundtrip(rest, blocks.last(), strict);
        let offs = offsets.push(start.len() as u32);
        assert(offs.drop_last() =~= offsets);
        assert(prefix.push(blocks.last()) =~= blocks);
    } else {
        assert(blocks =~= Seq::<BlockModel>::empty());
    }
}

/// Decoding what the encoder wrote gives back the encoded animation: for
/// every animation that [`SplineDecompressor::encode`] accepts and whose
/// tracks are canonical (see [`track_canonical`]), decoding its data at its
/// block offsets, with as many tracks as the first block has and no float
/// tracks, gives back every block, whether formats without a decoder are
/// refused or not.
pub proof fn lemma_encode_then_decode(blocks: Seq<BlockModel>, strict: bool)
    requires
        forall|i: int| 0 <= i < blocks.len() ==> block_canonical(#[trigger] blocks[i]),
        blocks.len() > 0 ==> blocks[0].tracks.len() * 4 <= usize::MAX,
        ser_spline(blocks) is Ok,
    ensures
        parse_blocks(
            ser_spline(blocks)->Ok_0.0,
            ser_spline(blocks)->Ok_0.1,
            blocks[0].tracks.len(),
            0,
            Endianness::Little,
            strict,
        ) == Ok::<Seq<BlockModel>, SplineError>(blocks),
{
    let n = blocks[0].tracks.len();
    let d = ser_spline(blocks)->Ok_0.0;
    assert forall|i: int| 0 <= i < blocks.len() implies (#[trigger] blocks[i]).masks.len() == n by {
        assert(equal_track_counts(blocks, n));
    }
    assert(d.subrange(0, d.len() as int) =~= d);
    lemma_blocks_roundtrip(d, blocks, n, strict);
}

/// Every encoded block ends on a multiple of 16, so that the data of an
/// encoded animation is a whole number of 16-byte units and every block
/// starts on a multiple of 16.
pub proof fn lemma_encoded_alignment(blocks: Seq<BlockModel>)
    requires
        ser_blocks(blocks) is Ok,
    ensures
        ser_blocks(blocks)->Ok_0.0.len() % 16 == 0,
        ser_blocks(blocks)->Ok_0.1.len() == blocks.len(),
        forall|i: int| 0 <= i < blocks.len() ==> (#[trigger] ser_blocks(blocks)->Ok_0.1[i]) % 16 == 0,
    decreases blocks.len(),
{
    if blocks.len() > 0 {
        let prefix = blocks.drop_last();
        lemma_encoded_alignment(prefix);
        let (data, offsets) = ser_blocks(prefix)->Ok_0;
        let pad = padding(data.len() as int, 4);
        assert(pad.len() == 0) by {
            vstd::arithmetic::div_mod::lemma_mod_mod(data.len() as int, 4, 4);
            assert(data.len() % 4 == 0) by {
                vstd::arithmetic::div_mod::lemma_fundamental_div_mod(data.len() as int, 16);
                vstd::arithmetic::div_mod::lemma_mod_multiples_basic(4 * (data.len() / 16) as int, 4);
                assert(data.len() == 16 * (data.len() / 16) as int);
                assert(16 * (data.len() / 16) as int == (4 * (data.len() / 16) as int) * 4) by (nonlinear_arith);
            }
        }
        let start = data + pad;
        let b = ser_block(blocks.last())->Ok_0;
        let head = ser_masks(blocks.last().masks);
        let hstart = head + padding(head.len() as int, 4);
        let t = ser_tracks(blocks.last().masks, blocks.last().tracks, hstart.len() as int)->Ok_0;
        lemma_read_padding_len((hstart.len() + t.len()) as int, 16);
        assert(b.len() % 16 == 0);
        assert((start.len() + b.len()) % 16 == 0) by {
            vstd::arithmetic::div_mod::lemma_add_mod_noop(start.len() as int, b.len() as int, 16);
        }
        let offs = offsets.push(start.len() as u32);
        assert forall|i: int| 0 <= i < blocks.len() implies (#[trigger] offs[i]) % 16 == 0 by {
            if i < prefix.len() {
                assert(offs[i] == offsets[i]);
            }
        }
    }
}

/// Padding up to a multiple of `a` ends on a multiple of `a`.
proof fn lemma_read_padding_len(p: int, a: int)
    requires
        a > 0,
        p >= 0,
    ensures
        (p + padding(p, a).len()) % a == 0,
{
    if p % a != 0 {
        vstd::arithmetic::div_mod::lemma_fundamental_div_mod(p, a);
        vstd::arithmetic::div_mod::lemma_mod_multiples_basic(p / a + 1, a);
        assert(p + (a - p % a) == (p / a + 1) * a) by (nonlinear_arith)
            requires
                p == a * (p / a) + p % a,
        ;
    }
}

// ---------------------------------------------------------------------------
// Decoding what was written, for every block the encoder accepts
// ---------------------------------------------------------------------------

/// One lane of a constant vector as it is read back: the default on an
/// identity axis (nothing is stored there), the stored value otherwise.
pub open spec fn lane_as_read(mask: TransformMask, scale: bool, a: int, v: u32) -> u32 {
    if vector_kind(mask, scale, a) is Identity { vector_default(scale) } else { v }
}

/// A position or scale vector as it is read back: a constant vector keeps
/// its stored lanes, takes the default on identity axes and 0 in w (which
/// is not stored); a spline vector is unchanged.
pub open spec fn vector_as_read(mask: TransformMask, scale: bool, v: VectorModel) -> VectorModel {
    match v {
        VectorModel::Static(value) => VectorModel::Static(seq![
            lane_as_read(mask, scale, 0, value[0]),
            lane_as_read(mask, scale, 1, value[1]),
            lane_as_read(mask, scale, 2, value[2]),
            0u32,
        ]),
        VectorModel::Dynamic { .. } => v,
    }
}

/// A track as it is read back: its vectors as read, its rotation unchanged.
pub open spec fn track_as_read(mask: TransformMask, t: TrackModel) -> TrackModel {
    TrackModel {
        position: vector_as_read(mask, false, t.position),
        rotation: t.rotation,
        scale: vector_as_read(mask, true, t.scale),
    }
}

/// A block as it is read back: the same masks, every track as read.
pub open spec fn block_as_read(b: BlockModel) -> BlockModel {
    BlockModel {
        masks: b.masks,
        tracks: Seq::new(b.tracks.len(), |i: int| track_as_read(b.masks[i], b.tracks[i])),
    }
}

/// A vector of the shape its type guarantees: four lanes, or three axes.
pub open spec fn vector_shaped(v: VectorModel) -> bool {
    match v {
        VectorModel::Static(value) => value.len() == 4,
        VectorModel::Dynamic { axes, .. } => axes.len() == 3,
    }
}

/// A block whose tracks have the shapes their types guarantee.
pub open spec fn block_shaped(b: BlockModel) -> bool {
    forall|i: int| 0 <= i < b.tracks.len() ==> {
        &&& vector_shaped(#[trigger] b.tracks[i].position)
        &&& rotation_wf(b.tracks[i].rotation)
        &&& vector_shaped(b.tracks[i].scale)
    }
}

/// A vector and the vector as read are written alike, and the latter is
/// canonical.
proof fn lemma_vector_as_read(mask: TransformMask, scale: bool, q: QuantizationType, v: VectorModel, p: int)
    requires
        vector_shaped(v),
        ser_vector(mask, scale, q, v, p) is Ok,
    ensures
        ser_vector(mask, scale, q, vector_as_read(mask, scale, v), p) == ser_vector(mask, scale, q, v, p),
        vector_canonical(mask, scale, vector_as_read(mask, scale, v)),
{
    match v {
        VectorModel::Static(value) => {
            let w = vector_as_read(mask, scale, v)->Static_0;
            let default = vector_default(scale);
            assert(f32_bits_eq(default, default));
            assert forall|a: int| 0 <= a < 3 implies
                #[trigger] ser_static_lane(vector_kind(mask, scale, a), w[a], default)
                    == ser_static_lane(vector_kind(mask, scale, a), value[a], default)
                || ser_static_lane(vector_kind(mask, scale, a), value[a], default) is Err by {
            }
            assert(ser_static_lane(vector_kind(mask, scale, 0), w[0], default)
                == ser_static_lane(vector_kind(mask, scale, 0), value[0], default));
            assert(ser_static_lane(vector_kind(mask, scale, 1), w[1], default)
                == ser_static_lane(vector_kind(mask, scale, 1), value[1], default));
            assert(ser_static_lane(vector_kind(mask, scale, 2), w[2], default)
                == ser_static_lane(vector_kind(mask, scale, 2), value[2], default));
            assert forall|a: int| 0 <= a < 3 && #[trigger] vector_kind(mask, scale, a) is Identity implies w[a] == default by {
                assert(a == 0 || a == 1 || a == 2);
            }
        },
        VectorModel::Dynamic { .. } => {},
    }
}

/// A track and the track as read are written alike, and the latter is
/// canonical.
proof fn lemma_track_as_read(mask: TransformMask, t: TrackModel, p: int)
    requires
        vector_shaped(t.position),
        rotation_wf(t.rotation),
        vector_shaped(t.scale),
        ser_track(mask, t, p) is Ok,
    ensures
        ser_track(mask, track_as_read(mask, t), p) == ser_track(mask, t, p),
        track_canonical(mask, track_as_read(mask, t)),
{
    reveal(ser_track);
    let pq = mask.spec_position_quantization()->Ok_0;
    let sq = mask.spec_scale_quantization()->Ok_0;
    lemma_vector_as_read(mask, false, pq, t.position, p);
    let pos = ser_vector(mask, false, pq, t.position, p)->Ok_0;
    let s1 = pos + padding(p + pos.len(), 4);
    let rot = ser_rotation(mask, t.rotation, p + s1.len())->Ok_0;
    let s2 = s1 + rot;
    let s3 = s2 + padding(p + s2.len(), 4);
    lemma_vector_as_read(mask, true, sq, t.scale, p + s3.len());
}

/// The tracks of a block as read are written like the tracks themselves.
proof fn lemma_tracks_as_read(masks: Seq<TransformMask>, tracks: Seq<TrackModel>, p: int)
    requires
        masks.len() == tracks.len(),
        forall|i: int| 0 <= i < tracks.len() ==> {
            &&& vector_shaped(#[trigger] tracks[i].position)
            &&& rotation_wf(tracks[i].rotation)
            &&& vector_shaped(tracks[i].scale)
        },
        ser_tracks(masks, tracks, p) is Ok,
    ensures
        ser_tracks(masks, Seq::new(tracks.len(), |i: int| track_as_read(masks[i], tracks[i])), p) == ser_tracks(masks, tracks, p),
        forall|i: int| 0 <= i < tracks.len() ==> track_canonical(masks[i], #[trigger] track_as_read(masks[i], tracks[i])),
    decreases tracks.len(),
{
    let read = Seq::new(tracks.len(), |i: int| track_as_read(masks[i], tracks[i]));
    if tracks.len() > 0 {
        let n = tracks.len() - 1;
        let m0 = masks.drop_last();
        let t0 = tracks.drop_last();
        lemma_tracks_as_read(m0, t0, p);
        assert(read.drop_last() =~= Seq::new(t0.len(), |i: int| track_as_read(m0[i], t0[i])));
        let prev = ser_tracks(m0, t0, p)->Ok_0;
        lemma_track_as_read(masks[n], tracks[n], p + prev.len());
        assert(read.last() == track_as_read(masks.last(), tracks.last()));
        assert forall|i: int| 0 <= i < tracks.len() implies track_canonical(masks[i], #[trigger] track_as_read(masks[i], tracks[i])) by {
            if i < n {
                assert(m0[i] == masks[i] && t0[i] == tracks[i]);
                assert(track_canonical(m0[i], track_as_read(m0[i], t0[i])));
            }
        }
    }
}

/// A block as read is written like the block, and is canonical.
proof fn lemma_block_as_read(b: BlockModel)
    requires
        block_shaped(b),
        ser_block(b) is Ok,
    ensures
        ser_block(block_as_read(b)) == ser_block(b),
        block_canonical(block_as_read(b)),
{
    let head = ser_masks(b.masks);
    let start = head + padding(head.len() as int, 4);
    lemma_tracks_as_read(b.masks, b.tracks, start.len() as int);
    let r = block_as_read(b);
    assert forall|i: int| 0 <= i < r.tracks.len() implies track_canonical(#[trigger] r.masks[i], r.tracks[i]) by {
        assert(r.tracks[i] == track_as_read(b.masks[i], b.tracks[i]));
    }
}

/// Blocks as read are written like the blocks themselves.
proof fn lemma_blocks_as_read(blocks: Seq<BlockModel>)
    requires
        forall|i: int| 0 <= i < blocks.len() ==> block_shaped(#[trigger] blocks[i]),
        ser_blocks(blocks) is Ok,
    ensures
        ser_blocks(Seq::new(blocks.len(), |i: int| block_as_read(blocks[i]))) == ser_blocks(blocks),
        forall|i: int| 0 <= i < blocks.len() ==> block_canonical(#[trigger] block_as_read(blocks[i])),
    decreases blocks.len(),
{
    let read = Seq::new(blocks.len(), |i: int| block_as_read(blocks[i]));
    if blocks.len() > 0 {
        let n = blocks.len() - 1;
        let prefix = blocks.drop_last();
        lemma_blocks_as_read(prefix);
        assert(read.drop_last() =~= Seq::new(prefix.len(), |i: int| block_as_read(prefix[i])));
        lemma_block_as_read(blocks[n]);
        assert(read.last() == block_as_read(blocks.last()));
        assert forall|i: int| 0 <= i < blocks.len() implies block_canonical(#[trigger] block_as_read(blocks[i])) by {
            if i < n {
                assert(prefix[i] == blocks[i]);
            }
        }
    }
}

/// Decoding what the encoder wrote gives every block back as it is read:
/// for every animation that [`SplineDecompressor::encode`] accepts,
/// decoding its data at its block offsets, with as many tracks as the first
/// block has and no float tracks, succeeds (formats without a decoder
/// refused or not) and gives as many blocks, each with the same masks
/// byte for byte, the same rotations, the same spline vectors, and constant
/// vectors whose stored lanes are kept (see [`block_as_read`]); so every
/// position, rotation and scale keeps its kind.
pub proof fn lemma_decode_encoded(blocks: Seq<BlockModel>, strict: bool)
    requires
        forall|i: int| 0 <= i < blocks.len() ==> block_shaped(#[trigger] blocks[i]),
        blocks.len() > 0 ==> blocks[0].tracks.len() * 4 <= usize::MAX,
        ser_spline(blocks) is Ok,
    ensures
        parse_blocks(
            ser_spline(blocks)->Ok_0.0,
            ser_spline(blocks)->Ok_0.1,
            blocks[0].tracks.len(),
            0,
            Endianness::Little,
            strict,
        ) == Ok::<Seq<BlockModel>, SplineError>(Seq::new(blocks.len(), |i: int| block_as_read(blocks[i]))),
        forall|i: int| 0 <= i < blocks.len() ==> (#[trigger] block_as_read(blocks[i])).masks == blocks[i].masks
            && block_as_read(blocks[i]).tracks.len() == blocks[i].tracks.len(),
{
    let read = Seq::new(blocks.len(), |i: int| block_as_read(blocks[i]));
    let n = blocks[0].tracks.len();
    assert(equal_track_counts(blocks, n));
    lemma_blocks_as_read(blocks);
    assert(read[0].tracks.len() == n);
    assert(equal_track_counts(read, n)) by {
        assert forall|i: int| 0 <= i < read.len() implies #[trigger] read[i].masks.len() == n && read[i].tracks.len() == n by {
            assert(blocks[i].masks.len() == n && blocks[i].tracks.len() == n);
        }
    }
    assert(ser_spline(read) == ser_spline(blocks));
    assert forall|i: int| 0 <= i < read.len() implies block_canonical(#[trigger] read[i]) by {
        assert(read[i] == block_as_read(blocks[i]));
    }
    lemma_encode_then_decode(read, strict);
}

} // verus!
