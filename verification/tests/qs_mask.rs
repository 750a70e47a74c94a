use serde_spline::spline::de::SplineError;
use serde_spline::spline::qs_mask::{parse_qs_transform_mask, QsTransformMask};
use serde_spline::spline::reader::Reader;
use serde_spline::spline::{RotationQuantizationType, ScalarQuantizationType};

#[test]
fn qs_mask_splits_the_quantization_byte() {
    // position code 1, rotation code 2, scale code 0
    let m = QsTransformMask::from_bytes([0b00_0010_01, 0x07, 0xf0, 0x11]);
    assert_eq!(m.pos_q, ScalarQuantizationType::Bits16);
    assert_eq!(m.rot_q, RotationQuantizationType::ThreeComp48);
    assert_eq!(m.scale_q, ScalarQuantizationType::Bits8);
    assert_eq!((m.pos_flags, m.rot_flags, m.scale_flags), (0x07, 0xf0, 0x11));
}

#[test]
fn qs_mask_reads_unknown_codes_leniently() {
    // scalar code 3 reads as 16-bit, rotation code 9 as uncompressed
    let m = QsTransformMask::from_bytes([0b11_1001_11, 0, 0, 0]);
    assert_eq!(m.pos_q, ScalarQuantizationType::Bits16);
    assert_eq!(m.rot_q, RotationQuantizationType::Uncompressed);
    assert_eq!(m.scale_q, ScalarQuantizationType::Bits16);
    let m = QsTransformMask::from_bytes([0b00_0100_00, 0, 0, 0]);
    assert_eq!(m.rot_q, RotationQuantizationType::Straight16);
    assert_eq!(m.pos_q, ScalarQuantizationType::Bits8);
}

#[test]
fn qs_mask_parse_advances_or_fails_in_place() {
    let data = [0x04, 0x01, 0x02, 0x03, 0xaa];
    let mut r = Reader::new(&data);
    let m = parse_qs_transform_mask(&mut r).unwrap();
    assert_eq!(m.rot_q, RotationQuantizationType::ThreeComp40);
    assert_eq!((m.pos_flags, m.rot_flags, m.scale_flags), (1, 2, 3));
    assert_eq!(r.position, 4);
    assert!(matches!(parse_qs_transform_mask(&mut r), Err(SplineError::UnexpectedEof)));
    assert_eq!(r.position, 4);
}
