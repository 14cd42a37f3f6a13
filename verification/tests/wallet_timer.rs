use pipeshell::timer::{get_timer, timer_value};
use pipeshell::wallet::{address_to_hex, public_key_address, Wallet};

#[test]
fn wallet_derives_and_keeps_its_fields() {
    let mut key = vec![4u8];
    key.extend(0u8..64);
    let w = Wallet::new("sk".to_string(), "pk".to_string(), &key);
    assert_eq!(w.secret_key, "sk");
    assert_eq!(w.pub_key, "pk");
    assert_eq!(w.pub_address, address_to_hex(&public_key_address(&key)));
}

#[test]
fn wallet_display_lists_every_field() {
    let key = vec![
        4u8, 0, 0, 0, 0, 0, 0, 0, 0, 0, 0, 0, 0, 0, 0, 0, 0, 0, 0, 0, 0, 0, 0, 0, 0, 0, 0, 0, 0,
        0, 0, 0, 0, 0, 0, 0, 0, 0, 0, 0, 0, 0, 0, 0, 0, 0, 0, 0, 0, 0, 0, 0, 0, 0, 0, 0, 0, 0, 0,
        0, 0, 0, 0, 0, 0,
    ];
    let w = Wallet::new("sk".to_string(), "pk".to_string(), &key);
    let expected = format!(
        "Wallet:\n\tSecret Key: sk\n\tPublic Key: pk\n\tPublic Address: {}",
        w.pub_address
    );
    assert_eq!(w.to_display_string(), expected);
}

#[test]
fn timer_value_packs_seconds_above_nanoseconds() {
    assert_eq!(timer_value(0, 0), 0);
    assert_eq!(timer_value(1, 0), 1073741824);
    assert_eq!(timer_value(2, 3), 2147483651);
    assert_eq!(timer_value(0, 999_999_999), 999_999_999);
}

#[test]
fn get_timer_reads_a_nonzero_clock() {
    assert!(get_timer() > 0);
}

#[test]
fn address_is_the_tail_of_the_keccak_digest() {
    let mut key = vec![4u8];
    key.extend(0u8..64);
    let addr = public_key_address(&key);
    let digest = tiny_keccak::keccak256(&key[1..]);
    assert_eq!(addr, digest[12..].to_vec());
    assert_eq!(addr.len(), 20);
}

#[test]
fn address_hex_renders_two_digits_a_byte() {
    assert_eq!(address_to_hex(&Vec::new()), "0x");
    assert_eq!(address_to_hex(&vec![0x00, 0xab, 0xff]), "0x00abff");
    assert_eq!(address_to_hex(&vec![0x12, 0x34]), "0x1234");
}

#[test]
fn derived_address_renders_like_the_digest_tail() {
    let mut key = vec![4u8];
    key.extend(0u8..64);
    let rendered = address_to_hex(&public_key_address(&key));
    let digest = tiny_keccak::keccak256(&key[1..]);
    let expected: String =
        digest[12..].iter().fold("0x".to_string(), |acc, b| acc + &format!("{:02x}", b));
    assert_eq!(rendered, expected);
}

#[test]
fn different_keys_give_different_addresses() {
    let mut key_a = vec![4u8];
    key_a.extend(0u8..64);
    let mut key_b = vec![4u8];
    key_b.extend(1u8..65);
    assert_ne!(public_key_address(&key_a), public_key_address(&key_b));
}
