//! Exercises the little-endian field decoders and the record parsers on
//! exact byte patterns.

use radar_core::bytes::{take_until_nul, u16_le_at, u32_le_at, u64_le_at};
use radar_core::game::{parse_carried_record, parse_pawn_record, PlayerPawnState};

#[test]
fn little_endian_decoding_is_exact() {
    let data = vec![0x01, 0x02, 0x03, 0x04, 0x05, 0x06, 0x07, 0x08, 0xff];
    assert_eq!(u16_le_at(&data, 0), 0x0201);
    assert_eq!(u16_le_at(&data, 7), 0xff08);
    assert_eq!(u32_le_at(&data, 0), 0x04030201);
    assert_eq!(u32_le_at(&data, 2), 0x06050403);
    assert_eq!(u64_le_at(&data, 0), 0x0807060504030201);
    assert_eq!(u64_le_at(&data, 1), 0xff08070605040302);
}

#[test]
fn nul_prefix_extraction() {
    assert_eq!(take_until_nul(&vec![]), Vec::<u8>::new());
    assert_eq!(take_until_nul(&vec![0, 65, 66]), Vec::<u8>::new());
    assert_eq!(take_until_nul(&vec![65, 66, 0, 67]), vec![65, 66]);
    assert_eq!(take_until_nul(&vec![65, 66, 67]), vec![65, 66, 67]);
}

#[test]
fn carried_record_fields_are_exact() {
    let mut b = vec![0u8; 20];
    b[0] = 1;
    b[4..8].copy_from_slice(&77u32.to_le_bytes());
    b[8..12].copy_from_slice(&(-5i32).to_le_bytes());
    b[12..16].copy_from_slice(&6i32.to_le_bytes());
    b[16..20].copy_from_slice(&7i32.to_le_bytes());
    let rec = parse_carried_record(&b);
    assert!(rec.bomb_planted);
    assert_eq!(rec.owner_handle, 77);
    assert_eq!((rec.position.x, rec.position.y, rec.position.z), (-5, 6, 7));
}

#[test]
fn pawn_record_name_stops_at_nul() {
    let mut b = vec![0u8; 68];
    b[0] = 1;
    b[36..41].copy_from_slice(b"eve\0x");
    match parse_pawn_record(&b, 12) {
        PlayerPawnState::Alive(info) => {
            assert_eq!(info.player_name, b"eve".to_vec());
            assert_eq!(info.pawn_entity_id, 12);
        },
        PlayerPawnState::Dead => panic!("expected alive"),
    }
}

#[test]
fn pawn_record_nonliving_state_byte_means_dead() {
    let mut b = vec![0u8; 68];
    b[0] = 2;
    assert!(matches!(parse_pawn_record(&b, 1), PlayerPawnState::Dead));
}
