use serde_spline::spline::de::SplineError;
use serde_spline::spline::reader::{Endianness, Reader};

#[test]
fn reads_values_in_both_byte_orders() {
    let data = [0x01, 0x02, 0x03, 0x04, 0x05, 0x06, 0x07, 0x08, 0x09];
    let mut r = Reader::new(&data);
    assert_eq!(r.read_u8(), Ok(0x01));
    assert_eq!(r.read_u16(Endianness::Big), Ok(0x0203));
    assert_eq!(r.read_u16_le(), Ok(0x0504));
    assert_eq!(r.read_u32(Endianness::Big), Ok(0x0607_0809));
    assert_eq!(r.position, 9);
    assert_eq!(r.read_u8(), Err(SplineError::UnexpectedEof));
    assert_eq!(r.position, 9);
    let mut r = Reader::new(&data);
    assert_eq!(r.read_u32_le(), Ok(0x0403_0201));
    assert_eq!(r.read_u32(Endianness::Little), Ok(0x0807_0605));
    let mut r = Reader::new(&data);
    assert_eq!(r.read_u64_le(), Ok(0x0807_0605_0403_0201));
}

#[test]
fn failed_reads_leave_the_position() {
    let data = [1u8, 2, 3, 4, 5, 6, 7];
    let mut r = Reader::new(&data);
    r.skip(1).unwrap();
    assert_eq!(r.read_u64_le(), Err(SplineError::UnexpectedEof));
    assert_eq!(r.position, 1);
    assert_eq!(r.read_array::<7>(), Err(SplineError::UnexpectedEof));
    assert_eq!(r.read_array::<6>(), Ok([2, 3, 4, 5, 6, 7]));
    assert_eq!(r.skip(1), Err(SplineError::UnexpectedEof));
    assert_eq!(r.position, 7);
}

#[test]
fn align_and_bytes() {
    let data = [0u8; 10];
    let mut r = Reader::new(&data);
    r.align(4).unwrap();
    assert_eq!(r.position, 0);
    r.skip(1).unwrap();
    r.align(4).unwrap();
    assert_eq!(r.position, 4);
    r.skip(1).unwrap();
    r.align(2).unwrap();
    assert_eq!(r.position, 6);
    assert_eq!(r.align(16), Err(SplineError::UnexpectedEof));
    assert_eq!(r.position, 6);
    assert_eq!(r.read_bytes(4).unwrap(), &[0u8; 4]);
    assert_eq!(r.read_bytes(1), Err(SplineError::UnexpectedEof));
}
