use jumon::checksum::{
    crc16_backwards, crc16_update, toggle_checksum_bits, verify_checksum_a, verify_checksum_b,
};

const BUFFER_A: [u8; 15] = [80, 201, 11, 162, 20, 59, 76, 153, 92, 18, 39, 151, 13, 82, 87];
const BUFFER_B: [u8; 13] = [246, 89, 3, 148, 231, 174, 1, 0, 52, 4, 210, 0, 0];

fn forwards(init: u16, data: &[u8]) -> u16 {
    let mut turned = data.to_vec();
    turned.reverse();
    crc16_backwards(init, &turned, turned.len())
}

#[test]
fn crc16_update_one_byte() {
    // one set bit at the bottom of the byte leaves the polynomial
    assert_eq!(crc16_update(0, 1), 0x1021);
    assert_eq!(crc16_update(0, 0), 0);
    assert_eq!(crc16_update(0, 0x80), 0x9188);
    assert_eq!(crc16_update(0x8000, 0), 0x9188);
}

#[test]
fn crc16_known_check_values() {
    assert_eq!(forwards(0, b"123456789"), 0x31c3);
    assert_eq!(forwards(0xffff, b"123456789"), 0x29b1);
    assert_eq!(forwards(0, &[1, 2, 3]), 0x6131);
}

#[test]
fn crc16_backwards_takes_last_byte_first() {
    assert_eq!(crc16_backwards(0, &[3, 2, 1], 3), 0x6131);
    assert_eq!(crc16_backwards(0, &[9, 3, 2, 1], 4), forwards(0, &[1, 2, 3, 9]));
    // only the first `end` bytes count
    assert_eq!(crc16_backwards(0, &[3, 2, 1, 77], 3), 0x6131);
    assert_eq!(crc16_backwards(0x1234, &[3, 2, 1], 0), 0x1234);
}

#[test]
fn checksum_a_of_a_valid_buffer() {
    assert_eq!(crc16_backwards(0, &BUFFER_A, 14), 0xc357);
    assert!(verify_checksum_a(&BUFFER_A));
}

#[test]
fn checksum_a_rejects_a_wrong_checksum_byte() {
    let mut buffer = BUFFER_A;
    buffer[14] = 86;
    assert!(!verify_checksum_a(&buffer));
    assert!(!verify_checksum_a(&[]));
}

#[test]
fn checksum_a_notices_every_single_bit_flip() {
    for byte in 0..14 {
        for bit in 0..8 {
            let mut buffer = BUFFER_A;
            buffer[byte] ^= 1 << bit;
            assert!(!verify_checksum_a(&buffer), "byte {} bit {}", byte, bit);
        }
    }
}

#[test]
fn checksum_a_notices_flips_in_another_buffer() {
    let mut base = [0u8; 15];
    for (i, byte) in base.iter_mut().enumerate().take(14) {
        *byte = (i * 37 + 11) as u8;
    }
    base[14] = (crc16_backwards(0, &base, 14) & 0xff) as u8;
    assert!(verify_checksum_a(&base));
    for byte in 0..14 {
        for bit in 0..8 {
            let mut buffer = base;
            buffer[byte] ^= 1 << bit;
            assert!(!verify_checksum_a(&buffer));
        }
    }
}

#[test]
fn checksum_b_of_a_valid_buffer() {
    let mut buffer = BUFFER_B.to_vec();
    assert!(verify_checksum_b(&mut buffer));
    assert_eq!(buffer, BUFFER_B.to_vec());
}

#[test]
fn checksum_b_exact_value() {
    // stored: top five bits of byte 0 are the high bits, low six bits of byte 8 the low bits
    let high = (BUFFER_B[0] >> 3) as u16;
    let low = (BUFFER_B[8] & 0x3f) as u16;
    assert_eq!((high << 6) | low, 1972);
    let mut cleared = BUFFER_B.to_vec();
    toggle_checksum_bits(&mut cleared, (BUFFER_B[0] & 0xf8, BUFFER_B[8] & 0x3f));
    assert_eq!(cleared, vec![6, 89, 3, 148, 231, 174, 1, 0, 0, 4, 210, 0, 0]);
    assert_eq!(crc16_backwards(13 * 0x0101, &cleared, 13), 0xcfb4);
    assert_eq!(0xcfb4 & 0x07ff, 1972);
}

#[test]
fn checksum_b_leaves_the_buffer_as_it_was() {
    let mut bad = BUFFER_B.to_vec();
    bad[3] ^= 0x10;
    let before = bad.clone();
    assert!(!verify_checksum_b(&mut bad));
    assert_eq!(bad, before);
}

#[test]
fn checksum_b_rejects_short_and_long_buffers() {
    let mut short = vec![0u8; 8];
    assert!(!verify_checksum_b(&mut short));
    assert_eq!(short, vec![0u8; 8]);
    let mut empty: Vec<u8> = Vec::new();
    assert!(!verify_checksum_b(&mut empty));
    let mut long = vec![0u8; 256];
    assert!(!verify_checksum_b(&mut long));
}

#[test]
fn checksum_b_depends_on_the_length() {
    let mut longer = BUFFER_B.to_vec();
    longer.push(0);
    assert!(!verify_checksum_b(&mut longer));
}

#[test]
fn toggle_checksum_bits_twice_restores() {
    for first in [0u8, 1, 0x80, 0xf8, 0xff, 0x5a] {
        for ninth in [0u8, 1, 0x3f, 0xc0, 0xff, 0xa5] {
            let mut buffer = vec![first, 1, 2, 3, 4, 5, 6, 7, ninth, 9];
            let before = buffer.clone();
            let saved = (first & 0xf8, ninth & 0x3f);
            toggle_checksum_bits(&mut buffer, saved);
            assert_eq!(buffer[0], first & 0x07);
            assert_eq!(buffer[8], ninth & 0xc0);
            assert_eq!(&buffer[1..8], &before[1..8]);
            toggle_checksum_bits(&mut buffer, saved);
            assert_eq!(buffer, before);
        }
    }
}

#[test]
fn checksum_b_takes_byte_0_as_the_high_bits() {
    // the same bits stored the other way round are not accepted
    let mut swapped = BUFFER_B.to_vec();
    let computed: u16 = 1972;
    swapped[0] = (swapped[0] & 0x07) | (((computed & 0x1f) as u8) << 3);
    swapped[8] = (swapped[8] & 0xc0) | ((computed >> 5) as u8);
    assert!(!verify_checksum_b(&mut swapped));
}
