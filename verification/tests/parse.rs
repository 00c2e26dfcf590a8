//! Hexadecimal ids and addresses.

use dig_wallet_backend::engine::builder::decode_address;
use dig_wallet_backend::engine::parse::{
    encode_address, parse_asset_id, parse_hex32, parse_puzzle_hash,
};
use dig_wallet_backend::types::{Address, AssetId, Bytes32, Puzzlehash, WalletErrorCode};

#[test]
fn hex_ids_round_trip() {
    let id = Bytes32::new([0xab; 32]);
    let text = hex::encode(id.0);
    assert_eq!(parse_hex32(&text, "asset id").unwrap(), id);
    assert_eq!(parse_asset_id(&AssetId(text.clone())).unwrap(), id);
    assert_eq!(parse_puzzle_hash(&Puzzlehash(text.to_uppercase())).unwrap(), id);
}

#[test]
fn malformed_ids_are_labelled() {
    let odd = parse_hex32("abc", "asset id").unwrap_err();
    assert_eq!(odd.code, WalletErrorCode::InvalidInput);
    assert_eq!(odd.message, "bad asset id abc: Odd number of digits");
    let short = parse_puzzle_hash(&Puzzlehash("abcd".into())).unwrap_err();
    assert_eq!(short.message, "puzzle hash abcd is not 32 bytes");
    let prefixed = parse_asset_id(&AssetId(format!("0x{}", "ab".repeat(32)))).unwrap_err();
    assert_eq!(prefixed.code, WalletErrorCode::InvalidInput);
}

#[test]
fn addresses_round_trip() {
    let puzzle_hash = Bytes32::new([7; 32]);
    let address = encode_address(&puzzle_hash).unwrap();
    assert!(address.0.starts_with("xch1"));
    assert_eq!(decode_address(&address).unwrap(), puzzle_hash);
    let bad = decode_address(&Address("nonsense".into())).unwrap_err();
    assert_eq!(bad.code, WalletErrorCode::InvalidInput);
}
