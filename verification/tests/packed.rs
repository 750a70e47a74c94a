use serde_spline::spline::bits::Field;
use serde_spline::spline::packed::{Quat32, Quat40, Quat48};

#[test]
fn field_extracts_bits() {
    assert_eq!(Field::<0, 18>::new().extract(0xffff_ffff), 0x3ffff);
    assert_eq!(Field::<18, 10>::new().extract(0x0ffc_0000), 0x3ff);
    assert_eq!(Field::<28, 4>::new().extract(0xa000_0000), 0xa);
    assert_eq!(Field::<0, 32>::new().extract(0x1234_5678), 0x1234_5678);
    assert_eq!(Field::<4, 8>::new().extract(0x0000_0ab0), 0xab);
}

#[test]
fn quat32_fields() {
    let q = Quat32::new(0xf123_4567);
    assert_eq!(q.raw(), 0xf123_4567);
    assert_eq!(q.angle(), 0xf123_4567 & 0x3ffff);
    assert_eq!(q.radial(), (0xf123_4567 >> 18) & 0x3ff);
}

#[test]
fn quat40_fields() {
    // x = 0x321, y = 0x654, z = 0x987, index 2, negative.
    let q = Quat40::new([0x21, 0x43, 0x65, 0x87, 0x69]);
    assert_eq!(q.x(), 0x321);
    assert_eq!(q.y(), 0x654);
    assert_eq!(q.z(), 0x987);
    assert_eq!(q.result_shift(), 2);
    assert!(q.sign());
}

#[test]
fn quat40_pack_reads_back() {
    let q = Quat40::pack([0x321, 0x654, 0x987], 2, true);
    assert_eq!(q.bytes, [0x21, 0x43, 0x65, 0x87, 0x69]);
    for index in 0..4 {
        for negative in [false, true] {
            let q = Quat40::pack([4095, 0, 2049 + 4096], index, negative);
            assert_eq!((q.x(), q.y(), q.z()), (4095, 0, 2049));
            assert_eq!(q.result_shift(), index);
            assert_eq!(q.sign(), negative);
        }
    }
}

#[test]
fn quat48_fields_and_pack() {
    let q = Quat48 { x: 0x8001, y: 0x0002, z: 0x8003 };
    assert_eq!(q.result_shift(), 1);
    assert!(q.sign());
    let q = Quat48 { x: 0x0001, y: 0x8002, z: 0x0003 };
    assert_eq!(q.result_shift(), 2);
    assert!(!q.sign());
    for index in 0..4usize {
        for negative in [false, true] {
            let q = Quat48::pack([0x7fff, 0x1234, 0], index, negative);
            assert_eq!((q.x & 0x7fff, q.y & 0x7fff, q.z & 0x7fff), (0x7fff, 0x1234, 0));
            assert_eq!(q.result_shift() as usize, index);
            assert_eq!(q.sign(), negative);
        }
    }
}

#[test]
fn quat32_sign_bits_select_negated_components() {
    assert_eq!(Quat32::new(0).negated_components(), [false; 4]);
    assert_eq!(Quat32::new(0x5000_0000).negated_components(), [true, false, true, false]);
    assert_eq!(Quat32::new(0xA000_0000 | 0x0fff_ffff).negated_components(), [false, true, false, true]);
}

#[test]
fn quat40_places_the_reconstructed_component() {
    let shift2 = Quat40::new([0, 0, 0, 0, 0x20]);
    assert_eq!(shift2.result_shift(), 2);
    assert_eq!(shift2.place([1, 2, 3], 9), [1, 2, 9, 3]);
    let shift0 = Quat40::new([0, 0, 0, 0, 0x00]);
    assert_eq!(shift0.place([1, 2, 3], 9), [9, 1, 2, 3]);
    let shift3 = Quat40::new([0, 0, 0, 0, 0x30]);
    assert_eq!(shift3.place([1, 2, 3], 9), [1, 2, 3, 9]);
}

#[test]
fn quat48_centers_and_arranges_lanes() {
    let q = Quat48 { x: 0x8000 | 0x3fff, y: 0x0000, z: 0x8000 | 0x7fff };
    assert_eq!(q.centered_components(), [0, -0x3fff, 0x4000]);
    assert_eq!(q.result_shift(), 1);
    assert_eq!(q.arrange(['x', 'y', 'z', 'w']), ['z', 'y', 'w', 'x']);
    let q0 = Quat48 { x: 0, y: 0, z: 0 };
    assert_eq!(q0.arrange(['x', 'y', 'z', 'w']), ['z', 'y', 'x', 'w']);
    let q2 = Quat48 { x: 0, y: 0x8000, z: 0 };
    assert_eq!(q2.arrange(['x', 'y', 'z', 'w']), ['z', 'w', 'y', 'x']);
    let q3 = Quat48 { x: 0x8000, y: 0x8000, z: 0 };
    assert_eq!(q3.arrange(['x', 'y', 'z', 'w']), ['x', 'y', 'z', 'w']);
}
