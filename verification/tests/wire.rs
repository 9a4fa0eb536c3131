use pixelstream::wire::{get_le, put_le};

#[test]
fn put_le_writes_the_low_byte_first() {
    let mut out = Vec::new();
    put_le(&mut out, 0x0403_0201, 4);
    assert_eq!(out, vec![1, 2, 3, 4]);
}

#[test]
fn put_le_appends_to_what_is_there() {
    let mut out = vec![9, 9];
    put_le(&mut out, 0x0102, 8);
    assert_eq!(out, vec![9, 9, 2, 1, 0, 0, 0, 0, 0, 0]);
}

#[test]
fn put_le_of_the_largest_value() {
    let mut out = Vec::new();
    put_le(&mut out, u64::MAX, 8);
    assert_eq!(out, vec![255; 8]);
}

#[test]
fn put_le_drops_what_does_not_fit_the_width() {
    let mut out = Vec::new();
    put_le(&mut out, 0x0001_0203, 2);
    assert_eq!(out, vec![3, 2]);
}

#[test]
fn put_le_of_width_zero_writes_nothing() {
    let mut out = vec![7];
    put_le(&mut out, 5, 0);
    assert_eq!(out, vec![7]);
}

#[test]
fn get_le_reads_the_low_byte_first() {
    let bytes = [0xaa, 1, 2, 3, 4, 0xbb];
    assert_eq!(get_le(&bytes, 1, 4), 0x0403_0201);
}

#[test]
fn get_le_of_eight_bytes() {
    let bytes = [0, 0, 0, 0, 0, 0, 0, 0x80];
    assert_eq!(get_le(&bytes, 0, 8), 1u64 << 63);
    assert_eq!(get_le(&[255; 8], 0, 8), u64::MAX);
}

#[test]
fn get_le_of_width_zero_is_zero() {
    assert_eq!(get_le(&[1, 2, 3], 3, 0), 0);
}

#[test]
fn get_le_undoes_put_le() {
    for value in [0u64, 1, 255, 256, 65_535, 6_144, 0xdead_beef, u32::MAX as u64] {
        let mut out = Vec::new();
        put_le(&mut out, value, 4);
        assert_eq!(out.len(), 4);
        assert_eq!(get_le(&out, 0, 4), value);
    }
    for value in [0u64, 1 << 32, 0x0123_4567_89ab_cdef, u64::MAX] {
        let mut out = Vec::new();
        put_le(&mut out, value, 8);
        assert_eq!(out.len(), 8);
        assert_eq!(get_le(&out, 0, 8), value);
    }
}

#[test]
fn put_le_agrees_with_the_standard_library() {
    for value in [0u32, 1, 64, 32, 0x1234_5678, u32::MAX] {
        let mut out = Vec::new();
        put_le(&mut out, value as u64, 4);
        assert_eq!(out, value.to_le_bytes().to_vec());
    }
}
