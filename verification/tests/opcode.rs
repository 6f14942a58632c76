use yage_decoder::opcode::{decompose, Opcode};

#[test]
fn decompose_zero() {
    assert_eq!(decompose(0x00), Opcode { x: 0, y: 0, z: 0, p: 0, q: 0 });
}

#[test]
fn decompose_all_bits_set() {
    assert_eq!(decompose(0xFF), Opcode { x: 3, y: 7, z: 7, p: 3, q: 1 });
}

#[test]
fn decompose_prefix_byte() {
    // 0xCB = 11 001 011
    assert_eq!(decompose(0xCB), Opcode { x: 3, y: 1, z: 3, p: 0, q: 1 });
}

#[test]
fn decompose_load_from_memory() {
    // 0x7E = 01 111 110
    assert_eq!(decompose(0x7E), Opcode { x: 1, y: 7, z: 6, p: 3, q: 1 });
}

#[test]
fn decompose_single_fields() {
    assert_eq!(decompose(0x40), Opcode { x: 1, y: 0, z: 0, p: 0, q: 0 });
    assert_eq!(decompose(0x08), Opcode { x: 0, y: 1, z: 0, p: 0, q: 1 });
    assert_eq!(decompose(0x10), Opcode { x: 0, y: 2, z: 0, p: 1, q: 0 });
    assert_eq!(decompose(0x01), Opcode { x: 0, y: 0, z: 1, p: 0, q: 0 });
}

#[test]
fn from_byte_is_decompose() {
    for byte in 0..=255u8 {
        assert_eq!(Opcode::from(byte), decompose(byte));
    }
}

#[test]
fn into_opcode() {
    let opcode: Opcode = 0x3Eu8.into();
    assert_eq!(opcode, Opcode { x: 0, y: 7, z: 6, p: 3, q: 1 });
}

#[test]
fn fields_within_bit_ranges_for_every_byte() {
    for byte in 0..=255u8 {
        let o = decompose(byte);
        assert!(o.x <= 3);
        assert!(o.y <= 7);
        assert!(o.z <= 7);
        assert!(o.p <= 3);
        assert!(o.q <= 1);
    }
}

#[test]
fn p_and_q_are_the_halves_of_y_for_every_byte() {
    for byte in 0..=255u8 {
        let o = decompose(byte);
        assert_eq!(o.p * 2 + o.q, o.y);
        assert_eq!(o.p, o.y >> 1);
        assert_eq!(o.q, o.y % 2);
    }
}

#[test]
fn fields_give_the_byte_back() {
    for byte in 0..=255u8 {
        let o = decompose(byte);
        assert_eq!((o.x << 6) | (o.y << 3) | o.z, byte);
    }
}

#[test]
fn distinct_bytes_have_distinct_fields() {
    for a in 0..=255u8 {
        for b in 0..=255u8 {
            if a != b {
                assert_ne!(decompose(a), decompose(b));
            }
        }
    }
}
