use std::fmt::Debug;

use ledger_apdu_transport::apdu::{ApduCmd, Decode, Encode};
use ledger_apdu_transport::apdus::{
    AppFlags, AppInfo, AppInfoGet, DeviceInfo, DeviceInfoGet, Empty, Generic, Version, VersionGet,
    VersionMode,
};
use ledger_apdu_transport::error::ApduError;

type Decoder<A> = fn(&[u8]) -> Result<(A, usize), ApduError>;

fn encode_decode_apdu<A: Encode + PartialEq + Debug>(buff: &mut [u8], apdu: &A, decode: Decoder<A>) {
    let n = apdu.encode(buff).unwrap();

    assert_eq!(n, apdu.encode_len().unwrap());

    let (decoded, used) = decode(&buff[..n]).unwrap();

    assert_eq!(used, n);
    assert_eq!(apdu, &decoded);
}

#[test]
fn app_info_get_apdu() {
    let apdu = AppInfoGet::default();

    let mut buff = [0u8; 128];
    encode_decode_apdu(&mut buff, &apdu, AppInfoGet::decode);
    let h = apdu.header();
    assert_eq!((h.cla, h.ins, h.p1, h.p2, h.len), (0xb0, 0x01, 0, 0, 0));
}

#[test]
fn app_info_apdu() {
    let name = "TEST NAME";
    let version = "TEST VERSION";

    let apdu = AppInfo::new(name, version, AppFlags::onboarded());

    let mut buff = [0u8; 128];
    encode_decode_apdu(&mut buff, &apdu, AppInfo::decode);
}

#[test]
fn device_info_get_apdu() {
    let apdu = DeviceInfoGet::default();

    let mut buff = [0u8; 128];
    encode_decode_apdu(&mut buff, &apdu, DeviceInfoGet::decode);
    let h = apdu.header();
    assert_eq!((h.cla, h.ins), (0xe0, 0x01));
}

#[test]
fn device_info_apdu() {
    let se = "SOME SE";
    let mcu = "SOME MCU";
    let flags = [12u8];
    let target = [0xab; 4];

    let apdu = DeviceInfo::new(target, se, mcu, &flags);

    let mut buff = [0u8; 128];
    encode_decode_apdu(&mut buff, &apdu, DeviceInfo::decode);
}

#[test]
fn version_get_apdu() {
    let apdu = VersionGet::<0x12>::default();

    let mut buff = [0u8; 128];
    encode_decode_apdu(&mut buff, &apdu, VersionGet::<0x12>::decode);
    let h = apdu.header();
    assert_eq!((h.cla, h.ins, h.len), (0x12, 0x00, 0));
}

#[test]
fn version_apdu() {
    // Test each mode
    let tests = &[
        Version::new(VersionMode::SingleByte, 10, 11, 12, false, [0x00; 4]),
        Version::new(VersionMode::SingleBytePlus, 10, 11, 12, false, [0xaa; 4]),
        Version::new(VersionMode::DoubleByte, 1010, 1011, 1012, false, [0x00; 4]),
        Version::new(VersionMode::DoubleBytePlus, 1010, 1011, 1012, false, [0xaa; 4]),
    ];

    for t in tests {
        let mut buff = [0u8; 128];
        encode_decode_apdu(&mut buff, t, Version::decode);
    }
}

#[test]
fn empty_and_generic_round_trip() {
    let mut buff = [0u8; 16];
    encode_decode_apdu(&mut buff, &Empty, Empty::decode);

    let g = Generic::new(0, 0, 0, 0, &[1, 2, 3]);
    let mut buff = [0u8; 3];
    encode_decode_apdu(&mut buff, &g, Generic::decode);
    let h = Generic::new(0x55, 0x02, 0x01, 0x00, &[1, 2, 3]).header();
    assert_eq!((h.cla, h.ins, h.p1, h.p2, h.len), (0x55, 0x02, 0x01, 0x00, 3));
}

#[test]
fn version_wire_bytes() {
    let v = Version::new(VersionMode::DoubleBytePlus, 1010, 1011, 1012, true, [1, 2, 3, 4]);
    let mut buff = [0u8; 16];
    let n = v.encode(&mut buff).unwrap();
    assert_eq!(&buff[..n], &[0x0c, 0x03, 0xF2, 0x03, 0xF3, 0x03, 0xF4, 1, 1, 2, 3, 4]);
    let v = Version::new(VersionMode::SingleByte, 1, 2, 3, false, [0; 4]);
    let n = v.encode(&mut buff).unwrap();
    assert_eq!(&buff[..n], &[0x04, 1, 2, 3]);
    assert_eq!(Version::decode(&[0x07, 0x01, 0x02, 0x00, 0x03, 0x00, 0x04]).unwrap().0.major, 0x0102);
}

#[test]
fn version_decode_errors() {
    assert_eq!(Version::decode(&[0x05, 1, 2, 3]), Err(ApduError::InvalidVersion(0x05)));
    assert_eq!(Version::decode(&[]), Err(ApduError::InvalidLength));
    assert_eq!(Version::decode(&[0x09, 1, 2, 3, 0]), Err(ApduError::InvalidLength));
    assert_eq!(VersionMode::try_from(0x0c), Ok(VersionMode::DoubleBytePlus));
    assert_eq!(VersionMode::try_from(0x0d), Err(0x0d));
}

#[test]
fn app_info_wire_bytes_and_errors() {
    let a = AppInfo::new("ab", "1", AppFlags::signed());
    let mut buff = [0u8; 16];
    let n = a.encode(&mut buff).unwrap();
    assert_eq!(&buff[..n], &[1, 2, b'a', b'b', 1, b'1', 1, 2]);
    assert_eq!(AppInfo::decode(&[2, 0, 0, 1, 0]), Err(ApduError::InvalidVersion(2)));
    assert_eq!(AppInfo::decode(&[1, 5, b'a']), Err(ApduError::InvalidLength));
    assert_eq!(AppInfo::decode(&[1, 1, 0xFF, 0, 1, 0]), Err(ApduError::Utf8));
    let mut small = [0u8; 4];
    assert_eq!(a.encode(&mut small), Err(ApduError::InvalidLength));
    assert_eq!(small, [0u8; 4]);
}

#[test]
fn app_flags_truncate() {
    assert_eq!(AppFlags::from_bits_truncate(0xFF).bits(), 0xF7);
    assert_eq!(AppFlags::recovery().bits(), 0x01);
    assert_eq!(AppFlags::pin_validated().bits(), 0xF0);
    let (a, _) = AppInfo::decode(&[1, 0, 0, 1, 0x0F]).unwrap();
    assert_eq!(a.flags.bits(), 0x07);
}

#[test]
fn device_info_wire_bytes_and_errors() {
    let d = DeviceInfo::new([1, 2, 3, 4], "é", "m", &[7, 8]);
    let mut buff = [0u8; 32];
    let n = d.encode(&mut buff).unwrap();
    assert_eq!(&buff[..n], &[1, 2, 3, 4, 2, 0xC3, 0xA9, 2, 7, 8, 1, b'm']);
    let (back, used) = DeviceInfo::decode(&buff[..n + 3]).unwrap();
    assert_eq!(used, n);
    assert_eq!(back.se_version, "é");
    assert_eq!(DeviceInfo::decode(&[1, 2, 3]), Err(ApduError::InvalidLength));
    assert_eq!(DeviceInfo::decode(&[1, 2, 3, 4, 1, 0xC3, 0, 0]), Err(ApduError::Utf8));
    assert_eq!(DeviceInfo::decode(&[1, 2, 3, 4, 0, 3, 0]), Err(ApduError::InvalidLength));
    let long = "x".repeat(256);
    let too_long = DeviceInfo::new([0; 4], &long, "", &[]);
    let mut big = [0u8; 512];
    assert_eq!(too_long.encode_len(), Err(ApduError::InvalidLength));
    assert_eq!(too_long.encode(&mut big), Err(ApduError::InvalidLength));
}
