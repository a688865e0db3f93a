use ledger_apdu_transport::bip44::{BIP44Path, BIP44PathError};

const HARDENED_BIT: u32 = 1 << 31;

fn le(v: u32) -> Vec<u8> {
    v.to_le_bytes().to_vec()
}

#[test]
fn create_derive_path() {
    let path_string = "m/44'/461'/0/0/0";

    let result = BIP44Path::from_string(path_string).unwrap();

    assert_eq!(result.0[0], (44 | HARDENED_BIT));
    assert_eq!(result.0[1], (461 | HARDENED_BIT));
    assert_eq!(result.0[2], 0);
    assert_eq!(result.0[3], 0);
    assert_eq!(result.0[4], 0);
}

#[test]
fn serialize_path() {
    let path_string = "m/44'/461'/0/0/0";

    let bip44_path = BIP44Path::from_string(path_string).unwrap();

    let path_serialized = bip44_path.serialize();

    let mut expected_result = Vec::new();
    expected_result.extend(le(44 | HARDENED_BIT));
    expected_result.extend(le(461 | HARDENED_BIT));
    expected_result.extend(le(0));
    expected_result.extend(le(0));
    expected_result.extend(le(0));

    assert_eq!(path_serialized, expected_result)
}

#[test]
fn error_missing_prefix() {
    let path_string = "44/44'/461'/0/0/0";

    let result_err = BIP44Path::from_string(path_string).unwrap_err();

    assert_eq!(result_err, BIP44PathError::MissingPrefix);
}

#[test]
fn error_invalid_length() {
    let path_string = "m/44'/461'/0/0";

    let result_err = BIP44Path::from_string(path_string).unwrap_err();

    assert_eq!(result_err, BIP44PathError::InvalidLength);
}

#[test]
fn error_invalid_integer() {
    let path_string = "m/44'/461'/a/0/0";

    let result_err = BIP44Path::from_string(path_string);

    println!("{:?}", result_err);

    assert!(result_err.is_err());
    assert!(matches!(result_err, Err(BIP44PathError::ParseIntError(_))));
}

#[test]
fn path_from_slice_and_testnet() {
    assert_eq!(BIP44Path::from_slice(&[1, 2, 3]).unwrap_err(), BIP44PathError::InvalidLength);
    let p = BIP44Path::from_slice(&[44 | HARDENED_BIT, 1 | HARDENED_BIT, 0, 0, 7]).unwrap();
    assert!(p.is_testnet());
    assert_eq!(p.0[4], 7);
    let p = BIP44Path::from_string("m/44'/461'/0/0/0").unwrap();
    assert!(!p.is_testnet());
}

#[test]
fn path_edge_cases() {
    assert_eq!(BIP44Path::from_string("").unwrap_err(), BIP44PathError::MissingPrefix);
    assert_eq!(BIP44Path::from_string("m").unwrap_err(), BIP44PathError::InvalidLength);
    assert!(matches!(
        BIP44Path::from_string("m/1/2/3/4/4294967296"),
        Err(BIP44PathError::ParseIntError(_))
    ));
    assert!(matches!(BIP44Path::from_string("m/1/2//4/5"), Err(BIP44PathError::ParseIntError(_))));
    let p = BIP44Path::from_string("m/+1/2'/3/4/4294967295").unwrap();
    assert_eq!(p.0, [1, 2 | HARDENED_BIT, 3, 4, u32::MAX]);
    assert_eq!(
        BIP44Path::from_string("m/1/2/3/4/5/6").unwrap_err(),
        BIP44PathError::InvalidLength
    );
}
