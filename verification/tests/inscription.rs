use rarerankd::inscription::hex32;
use rarerankd::inscription::inscription_id_string;
use rarerankd::inscription::satpoint_string;
use rarerankd::inscription::txid_string;

/// The halves of the transaction id whose stored bytes are 0, 1, 2 and so on.
fn halves() -> (u128, u128) {
    let mut low = [0u8; 16];
    let mut high = [0u8; 16];
    for i in 0..16u8 {
        low[i as usize] = i;
        high[i as usize] = 16 + i;
    }
    (u128::from_le_bytes(low), u128::from_le_bytes(high))
}

const SHOWN: &str = "1f1e1d1c1b1a191817161514131211100f0e0d0c0b0a09080706050403020100";

#[test]
fn bytes_are_written_in_lower_case_hex() {
    let mut bytes = [0u8; 32];
    bytes[0] = 0xab;
    bytes[1] = 0x0f;
    bytes[31] = 0xf0;
    assert_eq!(hex32(bytes), format!("ab0f{}f0", "00".repeat(29)));
    assert_eq!(hex32([0xff; 32]), "ff".repeat(32));
    assert_eq!(hex32([0x9a; 32]), "9a".repeat(32));
}

#[test]
fn ids_are_shown_from_the_last_byte_on() {
    let (head, tail) = halves();
    assert_eq!(txid_string((head, tail, 3)), SHOWN);
    assert_eq!(inscription_id_string((head, tail, 0)), format!("{SHOWN}i0"));
    assert_eq!(
        inscription_id_string((head, tail, u32::MAX)),
        format!("{SHOWN}i4294967295")
    );
}

#[test]
fn the_halves_do_not_change_places() {
    assert_eq!(inscription_id_string((1, 0, 7)), format!("{}01i7", "00".repeat(31)));
    assert_eq!(
        inscription_id_string((0, 1, 7)),
        format!("{}01{}i7", "00".repeat(15), "00".repeat(16))
    );
}

#[test]
fn satpoints_are_shown_with_output_and_offset() {
    let (head, tail) = halves();
    assert_eq!(satpoint_string(((head, tail, 2), 546)), format!("{SHOWN}:2:546"));
    assert_eq!(
        satpoint_string(((0, 0, 0), u64::MAX)),
        format!("{}:0:18446744073709551615", "00".repeat(32))
    );
}

#[test]
fn different_ids_have_different_texts() {
    let ids = [(1, 0, 0), (0, 1, 0), (0, 0, 1), (0, 0, 11), (256, 0, 1), (u128::MAX, 0, 1), (0, u128::MAX, 1)];
    for a in ids {
        for b in ids {
            assert_eq!(inscription_id_string(a) == inscription_id_string(b), a == b);
            assert_eq!(txid_string(a) == txid_string(b), (a.0, a.1) == (b.0, b.1));
        }
    }
    assert_ne!(satpoint_string(((0, 0, 1), 11)), satpoint_string(((0, 0, 11), 1)));
}
