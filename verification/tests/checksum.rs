use pngscan::bytes::{push_be32, read_be32};
use pngscan::{crc, make_crc_table, update_crc};

#[test]
fn crc_of_empty_buffer_is_zero() {
    assert_eq!(crc(&[]), 0x0000_0000);
}

#[test]
fn crc_of_check_string() {
    assert_eq!(crc(b"123456789"), 0xCBF4_3926);
}

#[test]
fn crc_of_single_bytes() {
    assert_eq!(crc(&[0x00]), 0xD202_EF8D);
    assert_eq!(crc(b"a"), 0xE8B7_BE43);
}

#[test]
fn crc_of_end_marker_tag() {
    assert_eq!(crc(b"IEND"), 0xAE42_6082);
}

#[test]
fn crc_of_sentence() {
    assert_eq!(
        crc(b"The quick brown fox jumps over the lazy dog"),
        0x414F_A339
    );
}

#[test]
fn update_crc_of_nothing_keeps_register() {
    assert_eq!(update_crc(0xFFFF_FFFF, &[]), 0xFFFF_FFFF);
    assert_eq!(update_crc(0x1234_5678, &[]), 0x1234_5678);
}

#[test]
fn update_crc_runs_over_pieces() {
    let whole = update_crc(0xFFFF_FFFF, b"123456789");
    let first = update_crc(0xFFFF_FFFF, b"1234");
    let both = update_crc(first, b"56789");
    assert_eq!(both, whole);
    assert_eq!(whole ^ 0xFFFF_FFFF, 0xCBF4_3926);
}

#[test]
fn table_agrees_with_free_functions() {
    let table = make_crc_table();
    assert_eq!(table.checksum(b"123456789"), 0xCBF4_3926);
    assert_eq!(table.checksum(&[]), 0);
    assert_eq!(
        table.update(0xFFFF_FFFF, b"IDAT"),
        update_crc(0xFFFF_FFFF, b"IDAT")
    );
}

#[test]
fn crc_changes_with_any_single_byte() {
    let intact: Vec<u8> = (0u8..40).collect();
    let good = crc(&intact);
    for at in 0..intact.len() {
        for delta in [1u8, 0x80, 0xFF] {
            let mut changed = intact.clone();
            changed[at] = changed[at].wrapping_add(delta);
            assert_ne!(crc(&changed), good);
        }
    }
}

#[test]
fn read_be32_reads_most_significant_first() {
    assert_eq!(read_be32(&[0x12, 0x34, 0x56, 0x78], 0), 0x1234_5678);
    assert_eq!(read_be32(&[9, 0, 0, 0, 10], 1), 10);
    assert_eq!(read_be32(&[0xFF, 0xFF, 0xFF, 0xFF], 0), u32::MAX);
}

#[test]
fn push_be32_writes_most_significant_first() {
    let mut out = vec![7u8];
    push_be32(&mut out, 0x1234_5678);
    assert_eq!(out, vec![7, 0x12, 0x34, 0x56, 0x78]);
    push_be32(&mut out, 0);
    assert_eq!(out.len(), 9);
    assert_eq!(read_be32(&out, 1), 0x1234_5678);
    assert_eq!(read_be32(&out, 5), 0);
}
