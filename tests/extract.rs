use zeckit::extract::{
    display_parts, extract_address, extract_balance, extract_txid, parse_decimal, sync_status,
    wallet_ready, AddressKind, NotFound, SyncStatus, WalletBalance, MIN_ADDRESS_LEN,
};

const T_ADDR: &str = "tmJ1xYxP8XNTtCoDgvdmQPSrxh5qZJgy65Z";
const U_ADDR: &str = "uregtest1qz8m6c3v9vq2x7wz0h4kxg8ap2l6y3c5dmr0u6fjq7n9e4s2t8w5k3h7j0p6x9v4c2m8n5b1";

fn chars(s: &str) -> Vec<char> {
    s.chars().collect()
}

#[test]
fn transparent_address_found_after_marker() {
    let out = format!(
        "[\n  {{\n    \"address_index\": 0,\n    \"encoded_address\": \"{}\",\n    \"receivers\": 1\n  }}\n]\n",
        T_ADDR
    );
    let a = extract_address(&out, AddressKind::Transparent).unwrap();
    assert_eq!(a.encoded, T_ADDR);
    assert_eq!(a.kind, AddressKind::Transparent);
}

#[test]
fn short_token_is_rejected_and_scan_continues() {
    let out = format!(
        "\"encoded_address\": \"tmShort\"\n\"encoded_address\": \"{}\"\n",
        T_ADDR
    );
    let a = extract_address(&out, AddressKind::Transparent).unwrap();
    assert_eq!(a.encoded, T_ADDR);
    let only_short = "\"encoded_address\": \"tmShort\"\n";
    assert_eq!(extract_address(only_short, AddressKind::Transparent).unwrap_err(), NotFound);
}

#[test]
fn token_one_below_minimum_is_rejected() {
    let token: String = T_ADDR.chars().take(MIN_ADDRESS_LEN - 1).collect();
    let out = format!("\"encoded_address\": \"{}\"", token);
    assert!(extract_address(&out, AddressKind::Transparent).is_err());
    let token: String = T_ADDR.chars().take(MIN_ADDRESS_LEN).collect();
    let out = format!("\"encoded_address\": \"{}\"", token);
    assert_eq!(extract_address(&out, AddressKind::Transparent).unwrap().encoded, token);
}

#[test]
fn transparent_address_needs_marker() {
    let out = format!("address: {}\n", T_ADDR);
    assert!(extract_address(&out, AddressKind::Transparent).is_err());
}

#[test]
fn unified_address_found_without_marker() {
    let out = format!("[\n  {{\n    \"address\": \"{}\",\n    \"receivers\": \"orchard\"\n  }}\n]", U_ADDR);
    let a = extract_address(&out, AddressKind::Unified).unwrap();
    assert_eq!(a.encoded, U_ADDR);
    assert_eq!(a.kind, AddressKind::Unified);
}

#[test]
fn address_token_ends_at_space_and_crlf_line() {
    let out = format!("\"encoded_address\" {} trailing\r\n", T_ADDR);
    assert_eq!(extract_address(&out, AddressKind::Transparent).unwrap().encoded, T_ADDR);
}

#[test]
fn transparent_balance_display_is_one_and_a_half() {
    let out = "{\n  \"confirmed_transparent_balance\": 150_000_000,\n  \"confirmed_orchard_balance\": 0\n}\n";
    let b = extract_balance(out);
    assert_eq!(b, WalletBalance { transparent: 150_000_000, shielded: 0 });
    assert_eq!(display_parts(b.transparent), (1, 50_000_000));
    assert_eq!(b.transparent as f64 / 100_000_000.0, 1.5);
}

#[test]
fn balance_extraction_is_repeatable() {
    let out = "\"confirmed_transparent_balance\": 1_234,\n\"confirmed_orchard_balance\": 5,678\n";
    let first = extract_balance(out);
    let second = extract_balance(out);
    assert_eq!(first, second);
    assert_eq!(first, WalletBalance { transparent: 1234, shielded: 5678 });
}

#[test]
fn missing_balance_fields_are_zero() {
    assert_eq!(extract_balance(""), WalletBalance { transparent: 0, shielded: 0 });
    assert_eq!(
        extract_balance("no balances here\nat all"),
        WalletBalance { transparent: 0, shielded: 0 }
    );
}

#[test]
fn unparseable_balance_field_is_zero_and_independent() {
    let out = "\"confirmed_transparent_balance\": 42\n\"confirmed_orchard_balance\": \"pending\"\n";
    assert_eq!(extract_balance(out), WalletBalance { transparent: 42, shielded: 0 });
    let out = "\"confirmed_transparent_balance\": 99999999999999999999\n\"confirmed_orchard_balance\": 7\n";
    assert_eq!(extract_balance(out), WalletBalance { transparent: 0, shielded: 7 });
    let out = "confirmed_transparent_balance without a colon\n";
    assert_eq!(extract_balance(out).transparent, 0);
}

#[test]
fn txid_between_first_quotes_after_marker() {
    let out = "sending\n{\n  \"txid\": \"9f2c1a\"\n}\n";
    assert_eq!(extract_txid(out).unwrap(), "9f2c1a");
}

#[test]
fn txid_missing_marker_is_not_found() {
    assert_eq!(extract_txid("error: insufficient funds\n").unwrap_err(), NotFound);
}

#[test]
fn txid_marker_without_value_is_empty() {
    assert_eq!(extract_txid("\"txid\": null\n").unwrap(), "");
}

#[test]
fn sync_statuses() {
    assert_eq!(sync_status("Sync error: connection refused"), SyncStatus::Failed);
    assert_eq!(sync_status("sync is already running"), SyncStatus::AlreadyRunning);
    assert_eq!(sync_status("Sync error\nsync is already running"), SyncStatus::Failed);
    assert_eq!(sync_status("sync complete"), SyncStatus::Completed);
}

#[test]
fn wallet_ready_needs_address_listing() {
    let out = format!("\"encoded_address\": \"{}\"", T_ADDR);
    assert!(wallet_ready(&out));
    assert!(!wallet_ready("Error: could not connect"));
    assert!(!wallet_ready("tm only"));
}

#[test]
fn decimal_parsing() {
    assert_eq!(parse_decimal(&chars("123")), Some(123));
    assert_eq!(parse_decimal(&chars("")), None);
    assert_eq!(parse_decimal(&chars("12a")), None);
    assert_eq!(parse_decimal(&chars("18446744073709551615")), Some(u64::MAX));
    assert_eq!(parse_decimal(&chars("18446744073709551616")), None);
}

#[test]
fn display_parts_split_whole_and_fraction() {
    assert_eq!(display_parts(0), (0, 0));
    assert_eq!(display_parts(100_000_001), (1, 1));
    assert_eq!(display_parts(99_999_999), (0, 99_999_999));
}

#[test]
fn fixture_records() {
    let out = format!("\"address\": \"{}\"", U_ADDR);
    let f = zeckit::extract::BootstrapFixture::from_address(extract_address(&out, AddressKind::Unified).unwrap());
    assert_eq!(f.address, U_ADDR);
    assert_eq!(f.receivers, vec!["orchard".to_string()]);
    assert_eq!(f.kind_label(), "unified");
    let out = format!("\"encoded_address\": \"{}\"", T_ADDR);
    let f = zeckit::extract::BootstrapFixture::from_address(extract_address(&out, AddressKind::Transparent).unwrap());
    assert!(f.receivers.is_empty());
    assert_eq!(f.kind_label(), "transparent");
}
