use rvsim::reg::{FpRegFile, RegFile};

#[test]
fn x0_always_zero() {
    let mut rf = RegFile::new();
    rf.set(0, 0xDEADBEEF);
    assert_eq!(rf.get(0), 0);
}

#[test]
fn read_write_general() {
    let mut rf = RegFile::new();
    rf.set(1, 42);
    assert_eq!(rf.get(1), 42);
    rf.set(31, 0xFFFF_FFFF);
    assert_eq!(rf.get(31), 0xFFFF_FFFF);
}

#[test]
fn fp_f0_writable() {
    let mut fp = FpRegFile::new();
    fp.set(0, 0xDEAD_BEEF_CAFE_BABE);
    assert_eq!(fp.get(0), 0xDEAD_BEEF_CAFE_BABE);
}

#[test]
fn fp_read_write_f64() {
    let mut fp = FpRegFile::new();
    fp.set(1, 0x3FF0_0000_0000_0000); // 1.0f64
    assert_eq!(fp.get(1), 0x3FF0_0000_0000_0000);
}

#[test]
fn fp_nan_boxing() {
    let mut fp = FpRegFile::new();
    fp.set_f32(1, 0x3F80_0000); // 1.0f32
    assert_eq!(fp.get(1), 0xFFFF_FFFF_3F80_0000);
    assert_eq!(fp.get_f32(1), 0x3F80_0000);

    // Non-NaN-boxed value returns canonical NaN
    fp.set(2, 0x0000_0000_3F80_0000);
    assert_eq!(fp.get_f32(2), 0x7FC0_0000);
}

#[test]
fn registers_start_at_zero_and_writes_are_independent() {
    let mut rf = RegFile::default();
    for r in 0..32u8 {
        assert_eq!(rf.get(r), 0);
    }
    rf.set(5, 7);
    rf.set(6, 9);
    assert_eq!(rf.get(5), 7);
    assert_eq!(rf.get(6), 9);
    assert_eq!(rf.get(4), 0);
}
