//! Shared APDU definitions: the commands that every application answers, and the
//! payloads of their answers, each with a byte encoding that decodes back to it.
use vstd::prelude::*;
use vstd::utf8::{decode_utf8, encode_utf8, encode_utf8_decode_utf8, encode_utf8_valid_utf8, valid_utf8};

use crate::apdu::{ApduCmd, ApduHeader, Decode, Encode};
use crate::bytes::{be16, be16_bytes, copy_range, read_be_u16, write_be_u16, write_range};
use crate::error::ApduError;
use crate::text::{string_from_utf8, utf8_bytes};

verus! {

/// Largest length that a one-byte length prefix can announce.
pub const MAX_FIELD_LEN: usize = 255;

/// A field as it stands on the wire: its one-byte length, then its bytes.
pub open spec fn lv_bytes(f: Seq<u8>) -> Seq<u8> {
    seq![f.len() as u8] + f
}

/// The length-prefixed field of `b` whose length byte stands at `at`, if `b` holds all of it.
pub open spec fn lv_field(b: Seq<u8>, at: int) -> Option<Seq<u8>> {
    if 0 <= at < b.len() && at + 1 + b[at] <= b.len() {
        Some(b.subrange(at + 1, at + 1 + b[at]))
    } else {
        None
    }
}

/// The position just after the length-prefixed field whose length byte stands at `at`.
pub open spec fn lv_end(b: Seq<u8>, at: int) -> int {
    at + 1 + b[at]
}

/// The string field of `b` at `at`: missing bytes are a length error, bad UTF-8 a text error.
pub open spec fn text_field(b: Seq<u8>, at: int) -> Result<Seq<char>, ApduError> {
    match lv_field(b, at) {
        None => Err(ApduError::InvalidLength),
        Some(f) => if valid_utf8(f) {
            Ok(decode_utf8(f))
        } else {
            Err(ApduError::Utf8)
        },
    }
}

/// Reads the length-prefixed field whose length byte stands at `at`.
fn read_lv(buff: &[u8], at: usize) -> (r: Result<Vec<u8>, ApduError>)
    ensures
        match lv_field(buff@, at as int) {
            Some(f) => r is Ok && r->Ok_0@ == f,
            None => r == Err::<Vec<u8>, ApduError>(ApduError::InvalidLength),
        },
{
    if at >= buff.len() {
        return Err(ApduError::InvalidLength);
    }
    let n = buff[at] as usize;
    if n > buff.len() - at - 1 {
        return Err(ApduError::InvalidLength);
    }
    Ok(copy_range(buff, at + 1, at + 1 + n))
}

/// Reads the string field whose length byte stands at `at`.
fn read_text(buff: &[u8], at: usize) -> (r: Result<String, ApduError>)
    ensures
        match text_field(buff@, at as int) {
            Ok(s) => r is Ok && r->Ok_0@ == s,
            Err(e) => r == Err::<String, ApduError>(e),
        },
{
    let f = read_lv(buff, at)?;
    match string_from_utf8(f.as_slice()) {
        Some(s) => Ok(s),
        None => Err(ApduError::Utf8),
    }
}

/// Writes `f` with its length byte at `at`.
fn write_lv(buff: &mut [u8], at: usize, f: &[u8])
    requires
        f@.len() <= MAX_FIELD_LEN,
        at + 1 + f@.len() <= old(buff)@.len(),
    ensures
        final(buff)@ == old(buff)@.subrange(0, at as int) + lv_bytes(f@) + old(buff)@.subrange(
            at + 1 + f@.len(),
            old(buff)@.len() as int,
        ),
{
    buff[at] = f.len() as u8;
    write_range(buff, at + 1, f);
    assert(buff@ =~= old(buff)@.subrange(0, at as int) + lv_bytes(f@) + old(buff)@.subrange(
        at + 1 + f@.len(),
        old(buff)@.len() as int,
    ));
}

/// A length-prefixed field, read back from the bytes it was written to, is the same field.
proof fn lemma_lv_round_trip(pre: Seq<u8>, f: Seq<u8>, rest: Seq<u8>)
    requires
        f.len() <= MAX_FIELD_LEN,
    ensures
        ({
            let b = pre + lv_bytes(f) + rest;
            &&& lv_field(b, pre.len() as int) == Some(f)
            &&& lv_end(b, pre.len() as int) == pre.len() + 1 + f.len()
        }),
{
    let b = pre + lv_bytes(f) + rest;
    assert(b[pre.len() as int] == f.len() as u8);
    assert(b.subrange(pre.len() as int + 1, pre.len() + 1 + f.len() as int) =~= f);
}

/// A string field, read back from the bytes it was written to, is the same string.
proof fn lemma_text_round_trip(pre: Seq<u8>, s: Seq<char>, rest: Seq<u8>)
    requires
        encode_utf8(s).len() <= MAX_FIELD_LEN,
    ensures
        ({
            let b = pre + lv_bytes(encode_utf8(s)) + rest;
            &&& text_field(b, pre.len() as int) == Ok::<Seq<char>, ApduError>(s)
            &&& lv_end(b, pre.len() as int) == pre.len() + 1 + encode_utf8(s).len()
        }),
{
    lemma_lv_round_trip(pre, encode_utf8(s), rest);
    encode_utf8_valid_utf8(s);
    encode_utf8_decode_utf8(s);
}

/// Empty APDU for exchanges where no response data is expected.
#[derive(Clone, PartialEq, Default, Debug)]
pub struct Empty;

impl Encode for Empty {
    open spec fn spec_encodable(&self) -> bool {
        true
    }

    open spec fn spec_encode(&self) -> Seq<u8> {
        Seq::empty()
    }

    fn encode_len(&self) -> (r: Result<usize, ApduError>) {
        Ok(0)
    }

    fn encode(&self, buff: &mut [u8]) -> (r: Result<usize, ApduError>) {
        assert(old(buff)@.subrange(0, old(buff)@.len() as int) =~= old(buff)@);
        Ok(0)
    }
}

impl Decode for Empty {
    type Model = ();

    open spec fn spec_model(&self) -> () {
        ()
    }

    /// Nothing is read and nothing is consumed.
    open spec fn spec_decode(b: Seq<u8>) -> Result<((), nat), ApduError> {
        Ok(((), 0))
    }

    fn decode(buff: &[u8]) -> (r: Result<(Empty, usize), ApduError>) {
        Ok((Empty, 0))
    }
}

/// Generic APDU that passes its payload through, for commands built by hand.
#[derive(Clone, PartialEq, Debug)]
pub struct Generic {
    /// APDU application class
    pub cla: u8,
    /// APDU instruction
    pub ins: u8,
    /// p1 value if set
    pub p1: u8,
    /// p2 value if set
    pub p2: u8,
    /// Data to send
    pub data: Vec<u8>,
}

/// What a generic APDU holds: class, instruction, p1, p2, data.
pub type GenericView = (u8, u8, u8, u8, Seq<u8>);

impl View for Generic {
    type V = GenericView;

    open spec fn view(&self) -> GenericView {
        (self.cla, self.ins, self.p1, self.p2, self.data@)
    }
}

impl Decode for Generic {
    type Model = GenericView;

    open spec fn spec_model(&self) -> GenericView {
        self@
    }

    /// The payload is all of `b`, which is all consumed; the header fields, which are not
    /// part of the payload, are zero.
    open spec fn spec_decode(b: Seq<u8>) -> Result<(GenericView, nat), ApduError> {
        Ok(((0u8, 0u8, 0u8, 0u8, b), b.len()))
    }

    fn decode(buff: &[u8]) -> (r: Result<(Generic, usize), ApduError>) {
        let data = copy_range(buff, 0, buff.len());
        assert(data@ =~= buff@);
        Ok((Generic { cla: 0, ins: 0, p1: 0, p2: 0, data }, buff.len()))
    }
}

impl Generic {
    /// Create a new generic APDU.
    pub fn new(cla: u8, ins: u8, p1: u8, p2: u8, data: &[u8]) -> (r: Self)
        ensures
            r.cla == cla && r.ins == ins && r.p1 == p1 && r.p2 == p2,
            r.data@ == data@,
    {
        Generic { cla, ins, p1, p2, data: copy_range(data, 0, data.len()) }
    }
}

impl Encode for Generic {
    open spec fn spec_encodable(&self) -> bool {
        true
    }

    open spec fn spec_encode(&self) -> Seq<u8> {
        self.data@
    }

    fn encode_len(&self) -> (r: Result<usize, ApduError>) {
        Ok(self.data.len())
    }

    fn encode(&self, buff: &mut [u8]) -> (r: Result<usize, ApduError>) {
        if buff.len() < self.data.len() {
            return Err(ApduError::InvalidLength);
        }
        write_range(buff, 0, self.data.as_slice());
        assert(old(buff)@.subrange(0, 0) + self.data@ =~= self.data@);
        Ok(self.data.len())
    }
}

impl ApduCmd for Generic {
    open spec fn spec_header(&self) -> ApduHeader {
        ApduHeader {
            cla: self.cla,
            ins: self.ins,
            p1: self.p1,
            p2: self.p2,
            len: self.data@.len() as u8,
        }
    }

    fn header(&self) -> (r: ApduHeader) {
        ApduHeader {
            cla: self.cla,
            ins: self.ins,
            p1: self.p1,
            p2: self.p2,
            len: self.data.len() as u8,
        }
    }
}

/// Application info APDU command.
#[derive(Copy, Clone, PartialEq, Debug, Default)]
pub struct AppInfoGet {}

/// Class of the application info command.
pub const APP_INFO_CLA: u8 = 0xb0;

/// Instruction of the application info command.
pub const APP_INFO_INS: u8 = 0x01;

/// Device info APDU command.
#[derive(Copy, Clone, PartialEq, Debug, Default)]
pub struct DeviceInfoGet {}

/// Class of the device info command.
pub const DEVICE_INFO_CLA: u8 = 0xe0;

/// Instruction of the device info command.
pub const DEVICE_INFO_INS: u8 = 0x01;

/// Version APDU command; the class is chosen by the application.
#[derive(Copy, Clone, PartialEq, Debug, Default)]
pub struct VersionGet<const CLA: u8> {}

/// Instruction of the version command.
pub const VERSION_INS: u8 = 0x00;

impl Decode for AppInfo {
    type Model = AppInfoView;

    open spec fn spec_model(&self) -> AppInfoView {
        self@
    }

    open spec fn spec_decode(b: Seq<u8>) -> Result<(AppInfoView, nat), ApduError> {
        spec_decode_app_info(b)
    }

    /// Decode an application info APDU from the front of `buff`.
    fn decode(buff: &[u8]) -> (r: Result<(AppInfo, usize), ApduError>)
    {
        if buff.len() < 1 {
            return Err(ApduError::InvalidLength);
        }
        if buff[0] != APP_VERSION_FMT {
            return Err(ApduError::InvalidVersion(buff[0]));
        }
        let name = match read_text(buff, 1) {
            Ok(s) => s,
            Err(e) => return Err(e),
        };
        let i1 = 2 + buff[1] as usize;
        let version = match read_text(buff, i1) {
            Ok(s) => s,
            Err(e) => return Err(e),
        };
        let i2 = i1 + 1 + buff[i1] as usize;
        let f = match read_lv(buff, i2) {
            Ok(f) => f,
            Err(e) => return Err(e),
        };
        let flags = if f.len() == 0 {
            AppFlags::from_bits_truncate(0)
        } else {
            AppFlags::from_bits_truncate(f[0])
        };
        proof {
            assert(0u8 & 0xF7u8 == 0u8) by (bit_vector);
        }
        let n = i2 + 1 + buff[i2] as usize;
        Ok((AppInfo { name, version, flags }, n))
    }
}

impl Encode for AppInfoGet {
    open spec fn spec_encodable(&self) -> bool {
        true
    }

    open spec fn spec_encode(&self) -> Seq<u8> {
        Seq::empty()
    }

    fn encode_len(&self) -> (r: Result<usize, ApduError>) {
        Ok(0)
    }

    fn encode(&self, buff: &mut [u8]) -> (r: Result<usize, ApduError>) {
        assert(old(buff)@.subrange(0, old(buff)@.len() as int) =~= old(buff)@);
        Ok(0)
    }
}

impl ApduCmd for AppInfoGet {
    open spec fn spec_header(&self) -> ApduHeader {
        ApduHeader { cla: APP_INFO_CLA, ins: APP_INFO_INS, p1: 0, p2: 0, len: 0 }
    }

    fn header(&self) -> (r: ApduHeader) {
        ApduHeader { cla: APP_INFO_CLA, ins: APP_INFO_INS, p1: 0, p2: 0, len: 0 }
    }
}

impl AppInfoGet {
    /// Decodes the command's empty payload.
    pub fn decode(buff: &[u8]) -> (r: Result<(AppInfoGet, usize), ApduError>)
        ensures
            r is Ok && r->Ok_0.1 == 0,
    {
        Ok((AppInfoGet {  }, 0))
    }
}

impl Decode for DeviceInfo {
    type Model = DeviceInfoView;

    open spec fn spec_model(&self) -> DeviceInfoView {
        self@
    }

    open spec fn spec_decode(b: Seq<u8>) -> Result<(DeviceInfoView, nat), ApduError> {
        spec_decode_device_info(b)
    }

    /// Decode a device info APDU from the front of `buff`.
    fn decode(buff: &[u8]) -> (r: Result<(DeviceInfo, usize), ApduError>)
    {
        if buff.len() < 4 {
            return Err(ApduError::InvalidLength);
        }
        let target_id: [u8; 4] = [buff[0], buff[1], buff[2], buff[3]];
        assert(target_id@ =~= buff@.subrange(0, 4));
        let se_version = match read_text(buff, 4) {
            Ok(s) => s,
            Err(e) => return Err(e),
        };
        let i1 = 5 + buff[4] as usize;
        let flag = match read_lv(buff, i1) {
            Ok(f) => f,
            Err(e) => return Err(e),
        };
        let i2 = i1 + 1 + buff[i1] as usize;
        let mcu_version = match read_text(buff, i2) {
            Ok(s) => s,
            Err(e) => return Err(e),
        };
        let n = i2 + 1 + buff[i2] as usize;
        Ok((DeviceInfo { target_id, se_version, flag, mcu_version }, n))
    }
}

impl Encode for DeviceInfoGet {
    open spec fn spec_encodable(&self) -> bool {
        true
    }

    open spec fn spec_encode(&self) -> Seq<u8> {
        Seq::empty()
    }

    fn encode_len(&self) -> (r: Result<usize, ApduError>) {
        Ok(0)
    }

    fn encode(&self, buff: &mut [u8]) -> (r: Result<usize, ApduError>) {
        assert(old(buff)@.subrange(0, old(buff)@.len() as int) =~= old(buff)@);
        Ok(0)
    }
}

impl ApduCmd for DeviceInfoGet {
    open spec fn spec_header(&self) -> ApduHeader {
        ApduHeader { cla: DEVICE_INFO_CLA, ins: DEVICE_INFO_INS, p1: 0, p2: 0, len: 0 }
    }

    fn header(&self) -> (r: ApduHeader) {
        ApduHeader { cla: DEVICE_INFO_CLA, ins: DEVICE_INFO_INS, p1: 0, p2: 0, len: 0 }
    }
}

impl DeviceInfoGet {
    /// Decodes the command's empty payload.
    pub fn decode(buff: &[u8]) -> (r: Result<(DeviceInfoGet, usize), ApduError>)
        ensures
            r is Ok && r->Ok_0.1 == 0,
    {
        Ok((DeviceInfoGet {  }, 0))
    }
}

impl<const CLA: u8> Encode for VersionGet<CLA> {
    open spec fn spec_encodable(&self) -> bool {
        true
    }

    open spec fn spec_encode(&self) -> Seq<u8> {
        Seq::empty()
    }

    fn encode_len(&self) -> (r: Result<usize, ApduError>) {
        Ok(0)
    }

    fn encode(&self, buff: &mut [u8]) -> (r: Result<usize, ApduError>) {
        assert(old(buff)@.subrange(0, old(buff)@.len() as int) =~= old(buff)@);
        Ok(0)
    }
}

impl<const CLA: u8> ApduCmd for VersionGet<CLA> {
    open spec fn spec_header(&self) -> ApduHeader {
        ApduHeader { cla: CLA, ins: VERSION_INS, p1: 0, p2: 0, len: 0 }
    }

    fn header(&self) -> (r: ApduHeader) {
        ApduHeader { cla: CLA, ins: VERSION_INS, p1: 0, p2: 0, len: 0 }
    }
}

impl<const CLA: u8> VersionGet<CLA> {
    /// Decodes the command's empty payload.
    pub fn decode(buff: &[u8]) -> (r: Result<(VersionGet<CLA>, usize), ApduError>)
        ensures
            r is Ok && r->Ok_0.1 == 0,
    {
        Ok((VersionGet {  }, 0))
    }
}

/// Device information APDU response.
#[derive(Clone, PartialEq, Debug)]
pub struct DeviceInfo {
    /// Target ID
    pub target_id: [u8; 4],
    /// Secure Element Version
    pub se_version: String,
    /// Device Flag(s)
    pub flag: Vec<u8>,
    /// MCU Version
    pub mcu_version: String,
}

/// What a device info holds: target id, secure element version, flags, MCU version.
pub type DeviceInfoView = (Seq<u8>, Seq<char>, Seq<u8>, Seq<char>);

impl View for DeviceInfo {
    type V = DeviceInfoView;

    open spec fn view(&self) -> DeviceInfoView {
        (self.target_id@, self.se_version@, self.flag@, self.mcu_version@)
    }
}

/// The device info that `b` starts with, and how many bytes it takes.
pub open spec fn spec_decode_device_info(b: Seq<u8>) -> Result<(DeviceInfoView, nat), ApduError> {
    if b.len() < 4 {
        Err(ApduError::InvalidLength)
    } else {
        match text_field(b, 4) {
            Err(e) => Err(e),
            Ok(se) => {
                let i1 = lv_end(b, 4);
                match lv_field(b, i1) {
                    None => Err(ApduError::InvalidLength),
                    Some(flag) => {
                        let i2 = lv_end(b, i1);
                        match text_field(b, i2) {
                            Err(e) => Err(e),
                            Ok(mcu) => Ok(((b.subrange(0, 4), se, flag, mcu), lv_end(b, i2) as nat)),
                        }
                    },
                }
            },
        }
    }
}

impl DeviceInfo {
    /// Create a new device info APDU.
    pub fn new(target_id: [u8; 4], se_version: &str, mcu_version: &str, flag: &[u8]) -> (r: Self)
        ensures
            r@ == (target_id@, se_version@, flag@, mcu_version@),
    {
        DeviceInfo {
            target_id,
            se_version: se_version.to_owned(),
            flag: copy_range(flag, 0, flag.len()),
            mcu_version: mcu_version.to_owned(),
        }
    }

}

impl Encode for DeviceInfo {
    open spec fn spec_encodable(&self) -> bool {
        &&& encode_utf8(self.se_version@).len() <= MAX_FIELD_LEN
        &&& self.flag@.len() <= MAX_FIELD_LEN
        &&& encode_utf8(self.mcu_version@).len() <= MAX_FIELD_LEN
    }

    open spec fn spec_encode(&self) -> Seq<u8> {
        self.target_id@ + lv_bytes(encode_utf8(self.se_version@)) + lv_bytes(self.flag@) + lv_bytes(
            encode_utf8(self.mcu_version@),
        )
    }

    fn encode_len(&self) -> (r: Result<usize, ApduError>) {
        let se = utf8_bytes(self.se_version.as_str());
        let mcu = utf8_bytes(self.mcu_version.as_str());
        if se.len() > MAX_FIELD_LEN || self.flag.len() > MAX_FIELD_LEN || mcu.len() > MAX_FIELD_LEN {
            return Err(ApduError::InvalidLength);
        }
        Ok(4 + 1 + se.len() + 1 + self.flag.len() + 1 + mcu.len())
    }

    fn encode(&self, buff: &mut [u8]) -> (r: Result<usize, ApduError>) {
        let se = utf8_bytes(self.se_version.as_str());
        let mcu = utf8_bytes(self.mcu_version.as_str());
        if se.len() > MAX_FIELD_LEN || self.flag.len() > MAX_FIELD_LEN || mcu.len() > MAX_FIELD_LEN {
            return Err(ApduError::InvalidLength);
        }
        let n = 4 + 1 + se.len() + 1 + self.flag.len() + 1 + mcu.len();
        if buff.len() < n {
            return Err(ApduError::InvalidLength);
        }
        let ghost b0 = buff@;
        write_range(buff, 0, self.target_id.as_slice());
        write_lv(buff, 4, se.as_slice());
        let i1 = 5 + se.len();
        write_lv(buff, i1, self.flag.as_slice());
        let i2 = i1 + 1 + self.flag.len();
        write_lv(buff, i2, mcu.as_slice());
        assert(buff@ =~= self.spec_encode() + b0.subrange(n as int, b0.len() as int));
        Ok(n)
    }
}

/// Application information flags.
#[derive(Copy, Clone, PartialEq, Eq, Debug)]
pub struct AppFlags {
    bits: u8,
}

/// Every bit that some application flag uses.
pub const APP_FLAGS_ALL: u8 = 0xF7;

impl AppFlags {
    /// Recovery mode
    pub fn recovery() -> (r: AppFlags)
        ensures
            r.spec_bits() == 0x01,
    {
        AppFlags { bits: 0x01 }
    }

    /// Signed application
    pub fn signed() -> (r: AppFlags)
        ensures
            r.spec_bits() == 0x02,
    {
        AppFlags { bits: 0x02 }
    }

    /// User onboarded
    pub fn onboarded() -> (r: AppFlags)
        ensures
            r.spec_bits() == 0x04,
    {
        AppFlags { bits: 0x04 }
    }

    /// PIN validated
    pub fn pin_validated() -> (r: AppFlags)
        ensures
            r.spec_bits() == 0xF0,
    {
        AppFlags { bits: 0xF0 }
    }

    /// The bits of these flags.
    pub closed spec fn spec_bits(&self) -> u8 {
        self.bits
    }

    /// Flags are well formed when they use no bit outside the known flags.
    pub open spec fn wf(&self) -> bool {
        self.spec_bits() & APP_FLAGS_ALL == self.spec_bits()
    }

    /// The flags of `bits`, dropping the bits that no flag uses.
    pub fn from_bits_truncate(bits: u8) -> (r: AppFlags)
        ensures
            r.spec_bits() == bits & APP_FLAGS_ALL,
            r.wf(),
    {
        let r = AppFlags { bits: bits & APP_FLAGS_ALL };
        assert((bits & 0xF7u8) & 0xF7u8 == bits & 0xF7u8) by (bit_vector);
        r
    }

    /// The bits of these flags.
    pub fn bits(&self) -> (r: u8)
        ensures
            r == self.spec_bits(),
    {
        self.bits
    }
}

/// Application information APDU response.
#[derive(Clone, PartialEq, Debug)]
pub struct AppInfo {
    /// Application name
    pub name: String,
    /// Application version
    pub version: String,
    /// Application flags
    pub flags: AppFlags,
}

/// Format identifier that application info starts with.
pub const APP_VERSION_FMT: u8 = 1;

/// What an application info holds: name, version, flag bits.
pub type AppInfoView = (Seq<char>, Seq<char>, u8);

impl View for AppInfo {
    type V = AppInfoView;

    open spec fn view(&self) -> AppInfoView {
        (self.name@, self.version@, self.flags.spec_bits())
    }
}

/// The flags that the flags field announces: none when it is empty.
pub open spec fn spec_flags_of(f: Seq<u8>) -> u8 {
    if f.len() == 0 {
        0
    } else {
        f[0] & APP_FLAGS_ALL
    }
}

/// The application info that `b` starts with, and how many bytes it takes.
pub open spec fn spec_decode_app_info(b: Seq<u8>) -> Result<(AppInfoView, nat), ApduError> {
    if b.len() < 1 {
        Err(ApduError::InvalidLength)
    } else if b[0] != APP_VERSION_FMT {
        Err(ApduError::InvalidVersion(b[0]))
    } else {
        match text_field(b, 1) {
            Err(e) => Err(e),
            Ok(name) => {
                let i1 = lv_end(b, 1);
                match text_field(b, i1) {
                    Err(e) => Err(e),
                    Ok(version) => {
                        let i2 = lv_end(b, i1);
                        match lv_field(b, i2) {
                            None => Err(ApduError::InvalidLength),
                            Some(f) => Ok(((name, version, spec_flags_of(f)), lv_end(b, i2) as nat)),
                        }
                    },
                }
            },
        }
    }
}

impl AppInfo {
    /// Create a new application info APDU.
    pub fn new(name: &str, version: &str, flags: AppFlags) -> (r: Self)
        ensures
            r@ == (name@, version@, flags.spec_bits()),
    {
        AppInfo { name: name.to_owned(), version: version.to_owned(), flags }
    }

}

impl Encode for AppInfo {
    open spec fn spec_encodable(&self) -> bool {
        &&& encode_utf8(self.name@).len() <= MAX_FIELD_LEN
        &&& encode_utf8(self.version@).len() <= MAX_FIELD_LEN
    }

    open spec fn spec_encode(&self) -> Seq<u8> {
        seq![APP_VERSION_FMT] + lv_bytes(encode_utf8(self.name@)) + lv_bytes(
            encode_utf8(self.version@),
        ) + lv_bytes(seq![self.flags.spec_bits()])
    }

    fn encode_len(&self) -> (r: Result<usize, ApduError>) {
        let name = utf8_bytes(self.name.as_str());
        let version = utf8_bytes(self.version.as_str());
        if name.len() > MAX_FIELD_LEN || version.len() > MAX_FIELD_LEN {
            return Err(ApduError::InvalidLength);
        }
        Ok(1 + 1 + name.len() + 1 + version.len() + 2)
    }

    fn encode(&self, buff: &mut [u8]) -> (r: Result<usize, ApduError>) {
        let name = utf8_bytes(self.name.as_str());
        let version = utf8_bytes(self.version.as_str());
        if name.len() > MAX_FIELD_LEN || version.len() > MAX_FIELD_LEN {
            return Err(ApduError::InvalidLength);
        }
        let n = 1 + 1 + name.len() + 1 + version.len() + 2;
        if buff.len() < n {
            return Err(ApduError::InvalidLength);
        }
        let ghost b0 = buff@;
        buff[0] = APP_VERSION_FMT;
        write_lv(buff, 1, name.as_slice());
        let i1 = 2 + name.len();
        write_lv(buff, i1, version.as_slice());
        let i2 = i1 + 1 + version.len();
        let flags = [self.flags.bits()];
        write_lv(buff, i2, flags.as_slice());
        assert(flags@ =~= seq![self.flags.spec_bits()]);
        assert(buff@ =~= self.spec_encode() + b0.subrange(n as int, b0.len() as int));
        Ok(n)
    }
}

/// Version encoding mode.
#[derive(Copy, Clone, PartialEq, Eq, Debug, Structural)]
pub enum VersionMode {
    /// Single byte version numbers
    SingleByte,
    /// Two byte version numbers
    DoubleByte,
    /// Single byte version numbers with flags and target_id
    SingleBytePlus,
    /// Two byte version numbers with flags and target_id
    DoubleBytePlus,
}

impl VersionMode {
    /// The byte that announces each mode.
    pub open spec fn spec_byte(self) -> u8 {
        match self {
            VersionMode::SingleByte => 0x04,
            VersionMode::DoubleByte => 0x07,
            VersionMode::SingleBytePlus => 0x09,
            VersionMode::DoubleBytePlus => 0x0c,
        }
    }

    /// The mode that `b` announces, if any.
    pub open spec fn spec_of(b: u8) -> Option<VersionMode> {
        if b == 0x04 {
            Some(VersionMode::SingleByte)
        } else if b == 0x07 {
            Some(VersionMode::DoubleByte)
        } else if b == 0x09 {
            Some(VersionMode::SingleBytePlus)
        } else if b == 0x0c {
            Some(VersionMode::DoubleBytePlus)
        } else {
            None
        }
    }

    /// Whether the version numbers take one byte each.
    pub open spec fn single(self) -> bool {
        self is SingleByte || self is SingleBytePlus
    }

    /// Whether the lock flag and target id follow the version numbers.
    pub open spec fn plus(self) -> bool {
        self is SingleBytePlus || self is DoubleBytePlus
    }

    /// The byte that announces this mode.
    pub fn to_u8(self) -> (r: u8)
        ensures
            r == self.spec_byte(),
    {
        match self {
            VersionMode::SingleByte => 0x04,
            VersionMode::DoubleByte => 0x07,
            VersionMode::SingleBytePlus => 0x09,
            VersionMode::DoubleBytePlus => 0x0c,
        }
    }

    /// The mode that `b` announces; an unknown byte comes back unchanged.
    pub fn try_from(b: u8) -> (r: Result<VersionMode, u8>)
        ensures
            match VersionMode::spec_of(b) {
                Some(m) => r == Ok::<VersionMode, u8>(m),
                None => r == Err::<VersionMode, u8>(b),
            },
    {
        match b {
            0x04 => Ok(VersionMode::SingleByte),
            0x07 => Ok(VersionMode::DoubleByte),
            0x09 => Ok(VersionMode::SingleBytePlus),
            0x0c => Ok(VersionMode::DoubleBytePlus),
            _ => Err(b),
        }
    }
}

/// Application version APDU response.
#[derive(Copy, Clone, PartialEq, Debug)]
pub struct Version {
    /// Application Mode
    pub mode: VersionMode,
    /// Version Major
    pub major: u16,
    /// Version Minor
    pub minor: u16,
    /// Version Patch
    pub patch: u16,
    /// Device is locked
    pub locked: bool,
    /// Target ID
    pub target_id: [u8; 4],
}

/// What a version holds: mode, major, minor, patch, lock flag, target id.
pub type VersionView = (VersionMode, u16, u16, u16, bool, Seq<u8>);

impl View for Version {
    type V = VersionView;

    open spec fn view(&self) -> VersionView {
        (self.mode, self.major, self.minor, self.patch, self.locked, self.target_id@)
    }
}

/// The bytes of one version number in the width that `mode` gives it.
pub open spec fn spec_number_bytes(mode: VersionMode, v: u16) -> Seq<u8> {
    if mode.single() {
        seq![v as u8]
    } else {
        be16_bytes(v)
    }
}

/// The version number at `at` in the width that `mode` gives it.
pub open spec fn spec_number_at(mode: VersionMode, b: Seq<u8>, at: int) -> u16 {
    if mode.single() {
        b[at] as u16
    } else {
        be16(b[at], b[at + 1])
    }
}

/// How many bytes one version number takes in `mode`.
pub open spec fn spec_number_width(mode: VersionMode) -> int {
    if mode.single() {
        1
    } else {
        2
    }
}

/// How many bytes a version takes in `mode`.
pub open spec fn spec_version_len(mode: VersionMode) -> int {
    1 + 3 * spec_number_width(mode) + if mode.plus() {
        5int
    } else {
        0int
    }
}

/// The version that `b` starts with, and how many bytes it takes.
pub open spec fn spec_decode_version(b: Seq<u8>) -> Result<(VersionView, nat), ApduError> {
    if b.len() < 1 {
        Err(ApduError::InvalidLength)
    } else {
        match VersionMode::spec_of(b[0]) {
            None => Err(ApduError::InvalidVersion(b[0])),
            Some(m) => if b.len() < spec_version_len(m) {
                Err(ApduError::InvalidLength)
            } else {
                let w = spec_number_width(m);
                let at = 1 + 3 * w;
                let locked = m.plus() && b[at] != 0;
                let target = if m.plus() {
                    b.subrange(at + 1, at + 5)
                } else {
                    seq![0u8, 0u8, 0u8, 0u8]
                };
                Ok(
                    (
                        (
                            m,
                            spec_number_at(m, b, 1),
                            spec_number_at(m, b, 1 + w),
                            spec_number_at(m, b, 1 + 2 * w),
                            locked,
                            target,
                        ),
                        spec_version_len(m) as nat,
                    ),
                )
            },
        }
    }
}

impl Version {
    /// Create a new application version APDU.
    pub fn new(
        mode: VersionMode,
        major: u16,
        minor: u16,
        patch: u16,
        locked: bool,
        target_id: [u8; 4],
    ) -> (r: Self)
        ensures
            r@ == (mode, major, minor, patch, locked, target_id@),
    {
        Version { mode, major, minor, patch, locked, target_id }
    }

    /// A version can be told back from its bytes: numbers fit their width, and a mode
    /// without lock flag and target id holds neither.
    pub open spec fn wf(&self) -> bool {
        &&& self.mode.single() ==> self.major < 256 && self.minor < 256 && self.patch < 256
        &&& !self.mode.plus() ==> !self.locked && self.target_id@ == seq![0u8, 0u8, 0u8, 0u8]
    }

}

impl Decode for Version {
    type Model = VersionView;

    open spec fn spec_model(&self) -> VersionView {
        self@
    }

    open spec fn spec_decode(b: Seq<u8>) -> Result<(VersionView, nat), ApduError> {
        spec_decode_version(b)
    }

    /// Decode an application version APDU from the front of `buff`.
    fn decode(buff: &[u8]) -> (r: Result<(Version, usize), ApduError>)
    {
        if buff.len() < 1 {
            return Err(ApduError::InvalidLength);
        }
        let mode = match VersionMode::try_from(buff[0]) {
            Ok(m) => m,
            Err(b) => return Err(ApduError::InvalidVersion(b)),
        };
        let single = match mode {
            VersionMode::SingleByte | VersionMode::SingleBytePlus => true,
            _ => false,
        };
        let plus = match mode {
            VersionMode::SingleBytePlus | VersionMode::DoubleBytePlus => true,
            _ => false,
        };
        let w: usize = if single {
            1
        } else {
            2
        };
        let len: usize = 1 + 3 * w + if plus {
            5
        } else {
            0
        };
        if buff.len() < len {
            return Err(ApduError::InvalidLength);
        }
        let (major, minor, patch) = if single {
            (buff[1] as u16, buff[2] as u16, buff[3] as u16)
        } else {
            (read_be_u16(buff, 1), read_be_u16(buff, 3), read_be_u16(buff, 5))
        };
        let at = 1 + 3 * w;
        let (locked, target_id) = if plus {
            let t: [u8; 4] = [buff[at + 1], buff[at + 2], buff[at + 3], buff[at + 4]];
            assert(t@ =~= buff@.subrange(at + 1, at + 5));
            (buff[at] != 0, t)
        } else {
            let t: [u8; 4] = [0u8; 4];
            assert(t@ =~= seq![0u8, 0u8, 0u8, 0u8]);
            (false, t)
        };
        Ok((Version { mode, major, minor, patch, locked, target_id }, len))
    }
}

impl Encode for Version {
    open spec fn spec_encodable(&self) -> bool {
        true
    }

    open spec fn spec_encode(&self) -> Seq<u8> {
        seq![self.mode.spec_byte()] + spec_number_bytes(self.mode, self.major) + spec_number_bytes(
            self.mode,
            self.minor,
        ) + spec_number_bytes(self.mode, self.patch) + if self.mode.plus() {
            seq![
                if self.locked {
                    1u8
                } else {
                    0u8
                },
            ] + self.target_id@
        } else {
            Seq::empty()
        }
    }

    fn encode_len(&self) -> (r: Result<usize, ApduError>) {
        let mut len: usize = 1;
        len = len + match self.mode {
            VersionMode::SingleByte | VersionMode::SingleBytePlus => 3,
            VersionMode::DoubleByte | VersionMode::DoubleBytePlus => 6,
        };
        len = len + match self.mode {
            VersionMode::SingleBytePlus | VersionMode::DoubleBytePlus => 5,
            _ => 0,
        };
        Ok(len)
    }

    fn encode(&self, buff: &mut [u8]) -> (r: Result<usize, ApduError>) {
        let n = match self.encode_len() {
            Ok(n) => n,
            Err(e) => return Err(e),
        };
        if buff.len() < n {
            return Err(ApduError::InvalidLength);
        }
        let ghost b0 = buff@;
        buff[0] = self.mode.to_u8();
        let index: usize = match self.mode {
            VersionMode::SingleByte | VersionMode::SingleBytePlus => {
                buff[1] = self.major as u8;
                buff[2] = self.minor as u8;
                buff[3] = self.patch as u8;
                4
            },
            VersionMode::DoubleByte | VersionMode::DoubleBytePlus => {
                write_be_u16(buff, 1, self.major);
                write_be_u16(buff, 3, self.minor);
                write_be_u16(buff, 5, self.patch);
                7
            },
        };
        match self.mode {
            VersionMode::SingleBytePlus | VersionMode::DoubleBytePlus => {
                buff[index] = if self.locked {
                    1
                } else {
                    0
                };
                write_range(buff, index + 1, self.target_id.as_slice());
            },
            _ => {},
        }
        assert(buff@ =~= self.spec_encode() + b0.subrange(n as int, b0.len() as int));
        Ok(n)
    }
}

/// The number bytes of a version read back in the width they were written in.
proof fn lemma_number_round_trip(mode: VersionMode, v: u16, pre: Seq<u8>, rest: Seq<u8>)
    requires
        mode.single() ==> v < 256,
    ensures
        spec_number_at(mode, pre + spec_number_bytes(mode, v) + rest, pre.len() as int) == v,
{
    let b = pre + spec_number_bytes(mode, v) + rest;
    if mode.single() {
        assert(b[pre.len() as int] == v as u8);
    } else {
        assert(b[pre.len() as int] == (v / 256) as u8);
        assert(b[pre.len() as int + 1] == (v % 256) as u8);
        assert((v / 256) as int * 256 + (v % 256) as int == v) by (nonlinear_arith);
    }
}

/// A device info decodes back from its encoding, whatever follows it, and decoding
/// consumes exactly the bytes that encoding produced.
pub proof fn lemma_device_info_round_trip(x: DeviceInfo, rest: Seq<u8>)
    requires
        x.spec_encodable(),
    ensures
        spec_decode_device_info(x.spec_encode() + rest) == Ok::<(DeviceInfoView, nat), ApduError>(
            (x@, x.spec_encode().len()),
        ),
{
    let t = x.target_id@;
    let se = lv_bytes(encode_utf8(x.se_version@));
    let fl = lv_bytes(x.flag@);
    let mcu = lv_bytes(encode_utf8(x.mcu_version@));
    let b = x.spec_encode() + rest;
    assert(b =~= t + se + (fl + mcu + rest));
    lemma_text_round_trip(t, x.se_version@, fl + mcu + rest);
    assert(b =~= (t + se) + fl + (mcu + rest));
    lemma_lv_round_trip(t + se, x.flag@, mcu + rest);
    assert(b =~= (t + se + fl) + mcu + rest);
    lemma_text_round_trip(t + se + fl, x.mcu_version@, rest);
    assert(b.subrange(0, 4) =~= t);
}

/// An application info with well-formed flags decodes back from its encoding, whatever
/// follows it, and decoding consumes exactly the bytes that encoding produced.
pub proof fn lemma_app_info_round_trip(x: AppInfo, rest: Seq<u8>)
    requires
        x.spec_encodable(),
        x.flags.wf(),
    ensures
        spec_decode_app_info(x.spec_encode() + rest) == Ok::<(AppInfoView, nat), ApduError>(
            (x@, x.spec_encode().len()),
        ),
{
    let f = seq![APP_VERSION_FMT];
    let name = lv_bytes(encode_utf8(x.name@));
    let version = lv_bytes(encode_utf8(x.version@));
    let flags = lv_bytes(seq![x.flags.spec_bits()]);
    let b = x.spec_encode() + rest;
    assert(b =~= f + name + (version + flags + rest));
    lemma_text_round_trip(f, x.name@, version + flags + rest);
    assert(b =~= (f + name) + version + (flags + rest));
    lemma_text_round_trip(f + name, x.version@, flags + rest);
    assert(b =~= (f + name + version) + flags + rest);
    lemma_lv_round_trip(f + name + version, seq![x.flags.spec_bits()], rest);
}

/// A well-formed version decodes back from its encoding, whatever follows it, and
/// decoding consumes exactly the bytes that encoding produced.
pub proof fn lemma_version_round_trip(x: Version, rest: Seq<u8>)
    requires
        x.wf(),
    ensures
        spec_decode_version(x.spec_encode() + rest) == Ok::<(VersionView, nat), ApduError>(
            (x@, x.spec_encode().len()),
        ),
{
    let m = x.mode;
    let mb = seq![m.spec_byte()];
    let ma = spec_number_bytes(m, x.major);
    let mi = spec_number_bytes(m, x.minor);
    let pa = spec_number_bytes(m, x.patch);
    let tail = if m.plus() {
        seq![
            if x.locked {
                1u8
            } else {
                0u8
            },
        ] + x.target_id@
    } else {
        Seq::<u8>::empty()
    };
    let b = x.spec_encode() + rest;
    assert(b =~= mb + ma + (mi + pa + tail + rest));
    lemma_number_round_trip(m, x.major, mb, mi + pa + tail + rest);
    assert(b =~= (mb + ma) + mi + (pa + tail + rest));
    lemma_number_round_trip(m, x.minor, mb + ma, pa + tail + rest);
    assert(b =~= (mb + ma + mi) + pa + (tail + rest));
    lemma_number_round_trip(m, x.patch, mb + ma + mi, tail + rest);
    let w = spec_number_width(m);
    assert(b[0] == m.spec_byte());
    if m.plus() {
        assert(b.subrange(1 + 3 * w + 1, 1 + 3 * w + 5) =~= x.target_id@);
    } else {
        assert(x.target_id@ =~= seq![0u8, 0u8, 0u8, 0u8]);
    }
}

/// A generic payload decodes back from its encoding, and decoding consumes exactly the
/// bytes that encoding produced; the header fields are not part of the payload.
pub proof fn lemma_generic_round_trip(x: Generic)
    ensures
        <Generic as Decode>::spec_decode(x.spec_encode()) == Ok::<(GenericView, nat), ApduError>(
            ((0u8, 0u8, 0u8, 0u8, x.data@), x.spec_encode().len()),
        ),
        x.cla == 0 && x.ins == 0 && x.p1 == 0 && x.p2 == 0 ==> <Generic as Decode>::spec_decode(
            x.spec_encode(),
        ) == Ok::<(GenericView, nat), ApduError>((x@, x.spec_encode().len())),
{
}

/// An empty payload encodes to no bytes, and decoding it consumes none.
pub proof fn lemma_empty_round_trip(e: Empty, rest: Seq<u8>)
    ensures
        e.spec_encode().len() == 0,
        <Empty as Decode>::spec_decode(e.spec_encode() + rest) == Ok::<((), nat), ApduError>(
            (e.spec_model(), e.spec_encode().len()),
        ),
{
}

} // verus!
