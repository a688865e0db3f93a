//! Commands that every application answers (version, application info, device info)
//! and the chunked upload of a message too long for one command.
use vstd::prelude::*;
use vstd::utf8::{decode_utf8, valid_utf8};

use crate::apdu::{APDUAnswer, APDUCommand};
use crate::apdus::{lv_end, lv_field};
use crate::bytes::{be16, copy_range};
use crate::error::{
    lemma_code_injective, map_apdu_error_description, spec_error_description, ApduErrorCode,
};
use crate::exchange::{Exchange, SW_NO_ERROR};
use crate::text::string_from_utf8;

verus! {

/// Instruction of the version command.
pub const INS_GET_VERSION: u8 = 0x00;

/// Class of the application info command.
pub const CLA_APP_INFO: u8 = 0xb0;

/// Instruction of the application info command.
pub const INS_APP_INFO: u8 = 0x01;

/// Class of the device info command.
pub const CLA_DEVICE_INFO: u8 = 0xe0;

/// Instruction of the device info command.
pub const INS_DEVICE_INFO: u8 = 0x01;

/// Largest piece of a message that one chunk carries.
pub const USER_MESSAGE_CHUNK_SIZE: usize = 250;

/// Most chunks that one message may be split into.
pub const MAX_CHUNKS: usize = 255;

/// Chunk payload type, carried in `p1`.
#[derive(Copy, Clone, PartialEq, Eq, Debug, Structural)]
pub enum ChunkPayloadType {
    /// First chunk
    Init,
    /// Append chunk
    Add,
    /// Last chunk
    Last,
}

impl ChunkPayloadType {
    /// The `p1` value of each chunk type.
    pub open spec fn spec_value(self) -> u8 {
        match self {
            ChunkPayloadType::Init => 0x00,
            ChunkPayloadType::Add => 0x01,
            ChunkPayloadType::Last => 0x02,
        }
    }

    /// The `p1` value of this chunk type.
    pub fn value(self) -> (r: u8)
        ensures
            r == self.spec_value(),
    {
        match self {
            ChunkPayloadType::Init => 0x00,
            ChunkPayloadType::Add => 0x01,
            ChunkPayloadType::Last => 0x02,
        }
    }
}

/// Errors of the application commands.
#[derive(Clone, Debug, PartialEq, Eq)]
pub enum LedgerAppError<E> {
    /// This version is not supported
    InvalidVersion,
    /// The message cannot be empty
    InvalidEmptyMessage,
    /// Invalid payload type in chunk: the first command must be `Init`
    InvalidChunkPayloadType,
    /// The message is too big to be sent in chunks
    InvalidMessageSize,
    /// Public Key is invalid
    InvalidPK,
    /// No signature has been returned
    NoSignature,
    /// The signature is not valid
    InvalidSignature,
    /// The derivation is invalid
    InvalidDerivationPath,
    /// The transport failed
    TransportError(E),
    /// Crypto related errors
    Crypto,
    /// Utf8 related errors
    Utf8,
    /// Format ID error
    InvalidFormatID,
    /// A field of the answer announces more bytes than the answer holds
    InvalidLength,
    /// Could not encode string to hex
    HexEncode,
    /// Application specific error: a known status word and its text
    AppSpecific(u16, String),
    /// A status word other than success
    Unknown(u16),
}

/// An application: what its commands are sent with.
pub trait App {
    /// The application's APDU class.
    fn cla() -> u8;
}

/// Application version.
#[derive(Copy, Clone, Debug, PartialEq, Eq)]
pub struct Version {
    /// Application Mode
    pub mode: u8,
    /// Version Major
    pub major: u16,
    /// Version Minor
    pub minor: u16,
    /// Version Patch
    pub patch: u16,
    /// Device is locked
    pub locked: bool,
    /// Target ID
    pub target_id: [u8; 4],
}

/// What a version holds: mode, major, minor, patch, lock flag, target id.
pub type VersionView = (u8, u16, u16, u16, bool, Seq<u8>);

impl View for Version {
    type V = VersionView;

    open spec fn view(&self) -> VersionView {
        (self.mode, self.major, self.minor, self.patch, self.locked, self.target_id@)
    }
}

/// The version that a version answer's payload `d` announces; its length tells its shape.
pub open spec fn spec_parse_version(d: Seq<u8>) -> Option<VersionView> {
    let zero = seq![0u8, 0u8, 0u8, 0u8];
    if d.len() == 4 {
        Some((d[0], d[1] as u16, d[2] as u16, d[3] as u16, false, zero))
    } else if d.len() == 7 {
        Some((d[0], be16(d[1], d[2]), be16(d[3], d[4]), be16(d[5], d[6]), false, zero))
    } else if d.len() == 9 {
        Some((d[0], d[1] as u16, d[2] as u16, d[3] as u16, d[4] != 0, d.subrange(5, 9)))
    } else if d.len() == 12 {
        Some(
            (
                d[0],
                be16(d[1], d[2]),
                be16(d[3], d[4]),
                be16(d[5], d[6]),
                d[7] != 0,
                d.subrange(8, 12),
            ),
        )
    } else {
        None
    }
}

fn be_pair(hi: u8, lo: u8) -> (r: u16)
    ensures
        r == be16(hi, lo),
{
    hi as u16 * 256 + lo as u16
}

/// Parse the payload of a version answer; a length of none of the known shapes is an
/// `InvalidVersion`.
pub fn parse_version<E>(d: &[u8]) -> (r: Result<Version, LedgerAppError<E>>)
    ensures
        match spec_parse_version(d@) {
            Some(v) => r is Ok && r->Ok_0@ == v,
            None => r == Err::<Version, LedgerAppError<E>>(LedgerAppError::InvalidVersion),
        },
{
    let n = d.len();
    let v = if n == 4 {
        Version {
            mode: d[0],
            major: d[1] as u16,
            minor: d[2] as u16,
            patch: d[3] as u16,
            locked: false,
            target_id: [0u8; 4],
        }
    } else if n == 7 {
        Version {
            mode: d[0],
            major: be_pair(d[1], d[2]),
            minor: be_pair(d[3], d[4]),
            patch: be_pair(d[5], d[6]),
            locked: false,
            target_id: [0u8; 4],
        }
    } else if n == 9 {
        Version {
            mode: d[0],
            major: d[1] as u16,
            minor: d[2] as u16,
            patch: d[3] as u16,
            locked: d[4] != 0,
            target_id: [d[5], d[6], d[7], d[8]],
        }
    } else if n == 12 {
        Version {
            mode: d[0],
            major: be_pair(d[1], d[2]),
            minor: be_pair(d[3], d[4]),
            patch: be_pair(d[5], d[6]),
            locked: d[7] != 0,
            target_id: [d[8], d[9], d[10], d[11]],
        }
    } else {
        return Err(LedgerAppError::InvalidVersion);
    };
    assert(v.target_id@ =~= spec_parse_version(d@).unwrap().5);
    Ok(v)
}

/// Application information.
#[derive(Clone, Debug, PartialEq, Eq)]
pub struct AppInfo {
    /// Name of the application
    pub app_name: String,
    /// App version
    pub app_version: String,
    /// Flag length
    pub flag_len: u8,
    /// Flag value
    pub flags_value: u8,
    /// Flag Recovery
    pub flag_recovery: bool,
    /// Flag Signed MCU code
    pub flag_signed_mcu_code: bool,
    /// Flag Onboarded
    pub flag_onboarded: bool,
    /// Flag Pin Validated
    pub flag_pin_validated: bool,
}

/// What an application info holds: name, version, flag length, flag value.
pub type AppInfoView = (Seq<char>, Seq<char>, u8, u8);

impl View for AppInfo {
    type V = AppInfoView;

    open spec fn view(&self) -> AppInfoView {
        (self.app_name@, self.app_version@, self.flag_len, self.flags_value)
    }
}

impl AppInfo {
    /// Each flag is its bit of the flag value.
    pub open spec fn flags_consistent(&self) -> bool {
        &&& self.flag_recovery == (self.flags_value & 1 != 0)
        &&& self.flag_signed_mcu_code == (self.flags_value & 2 != 0)
        &&& self.flag_onboarded == (self.flags_value & 4 != 0)
        &&& self.flag_pin_validated == (self.flags_value & 128 != 0)
    }
}

/// The UTF-8 text of `b`, or a `Utf8` error.
pub open spec fn spec_text<E>(b: Seq<u8>) -> Result<Seq<char>, LedgerAppError<E>> {
    if valid_utf8(b) {
        Ok(decode_utf8(b))
    } else {
        Err(LedgerAppError::Utf8)
    }
}

/// The application info that an application info answer's payload `d` holds: format
/// byte 1, name and version each after their length byte, flag length, flag value.
/// Missing bytes are checked before the text of the fields.
pub open spec fn spec_parse_app_info<E>(d: Seq<u8>) -> Result<AppInfoView, LedgerAppError<E>> {
    if d.len() < 1 {
        Err(LedgerAppError::InvalidLength)
    } else if d[0] != 1 {
        Err(LedgerAppError::InvalidFormatID)
    } else {
        let i1 = lv_end(d, 1);
        let i2 = lv_end(d, i1);
        match (lv_field(d, 1), lv_field(d, i1)) {
            (Some(name), Some(version)) => if i2 + 2 > d.len() {
                Err(LedgerAppError::InvalidLength)
            } else {
                match (spec_text::<E>(name), spec_text::<E>(version)) {
                    (Ok(n), Ok(v)) => Ok((n, v, d[i2], d[i2 + 1])),
                    _ => Err(LedgerAppError::Utf8),
                }
            },
            _ => Err(LedgerAppError::InvalidLength),
        }
    }
}

/// The length-prefixed field of `d` whose length byte stands at `at`, or `InvalidLength`.
fn field<E>(d: &[u8], at: usize) -> (r: Result<Vec<u8>, LedgerAppError<E>>)
    ensures
        match lv_field(d@, at as int) {
            Some(f) => r is Ok && r->Ok_0@ == f,
            None => r == Err::<Vec<u8>, LedgerAppError<E>>(LedgerAppError::InvalidLength),
        },
{
    if at >= d.len() || d[at] as usize > d.len() - at - 1 {
        return Err(LedgerAppError::InvalidLength);
    }
    Ok(copy_range(d, at + 1, at + 1 + d[at] as usize))
}

/// The text of `b`, or a `Utf8` error.
fn text<E>(b: &[u8]) -> (r: Result<String, LedgerAppError<E>>)
    ensures
        match spec_text::<E>(b@) {
            Ok(s) => r is Ok && r->Ok_0@ == s,
            Err(e) => r == Err::<String, LedgerAppError<E>>(e),
        },
{
    match string_from_utf8(b) {
        Some(s) => Ok(s),
        None => Err(LedgerAppError::Utf8),
    }
}

/// Parse the payload of an application info answer.
pub fn parse_app_info<E>(d: &[u8]) -> (r: Result<AppInfo, LedgerAppError<E>>)
    ensures
        match spec_parse_app_info::<E>(d@) {
            Ok(v) => r is Ok && r->Ok_0@ == v && r->Ok_0.flags_consistent(),
            Err(e) => r == Err::<AppInfo, LedgerAppError<E>>(e),
        },
{
    if d.len() < 1 {
        return Err(LedgerAppError::InvalidLength);
    }
    if d[0] != 1 {
        return Err(LedgerAppError::InvalidFormatID);
    }
    let name = match field(d, 1) {
        Ok(f) => f,
        Err(e) => return Err(e),
    };
    let i1 = 2 + d[1] as usize;
    let version = match field(d, i1) {
        Ok(f) => f,
        Err(e) => return Err(e),
    };
    let i2 = i1 + 1 + d[i1] as usize;
    if i2 >= d.len() || d.len() - i2 < 2 {
        return Err(LedgerAppError::InvalidLength);
    }
    let flag_len = d[i2];
    let flags_value = d[i2 + 1];
    let app_name = match text(name.as_slice()) {
        Ok(s) => s,
        Err(e) => return Err(e),
    };
    let app_version = match text(version.as_slice()) {
        Ok(s) => s,
        Err(e) => return Err(e),
    };
    Ok(AppInfo {
        app_name,
        app_version,
        flag_len,
        flags_value,
        flag_recovery: (flags_value & 1) != 0,
        flag_signed_mcu_code: (flags_value & 2) != 0,
        flag_onboarded: (flags_value & 4) != 0,
        flag_pin_validated: (flags_value & 128) != 0,
    })
}

/// Device information.
#[derive(Clone, Debug, PartialEq, Eq)]
pub struct DeviceInfo {
    /// Target ID
    pub target_id: [u8; 4],
    /// Secure Element Version
    pub se_version: String,
    /// Device Flag
    pub flag: Vec<u8>,
    /// MCU Version
    pub mcu_version: String,
}

/// What a device info holds: target id, secure element version, flags, MCU version.
pub type DeviceInfoView = (Seq<u8>, Seq<char>, Seq<u8>, Seq<char>);

impl View for DeviceInfo {
    type V = DeviceInfoView;

    open spec fn view(&self) -> DeviceInfoView {
        (self.target_id@, self.se_version@, self.flag@, self.mcu_version@)
    }
}

/// A version string without the one zero byte that may end it.
pub open spec fn spec_trim_nul(b: Seq<u8>) -> Seq<u8> {
    if b.len() > 0 && b[b.len() - 1] == 0 {
        b.drop_last()
    } else {
        b
    }
}

/// The device info that a device info answer's payload `d` holds: target id, then
/// secure element version, flags and MCU version each after their length byte.
/// Missing bytes are checked before the text of the fields.
pub open spec fn spec_parse_device_info<E>(d: Seq<u8>) -> Result<DeviceInfoView, LedgerAppError<E>> {
    let i1 = lv_end(d, 4);
    let i2 = lv_end(d, i1);
    if d.len() < 4 {
        Err(LedgerAppError::InvalidLength)
    } else {
        match (lv_field(d, 4), lv_field(d, i1), lv_field(d, i2)) {
            (Some(se), Some(flag), Some(mcu)) => match (
                spec_text::<E>(se),
                spec_text::<E>(spec_trim_nul(mcu)),
            ) {
                (Ok(s), Ok(m)) => Ok((d.subrange(0, 4), s, flag, m)),
                _ => Err(LedgerAppError::Utf8),
            },
            _ => Err(LedgerAppError::InvalidLength),
        }
    }
}

/// Parse the payload of a device info answer.
pub fn parse_device_info<E>(d: &[u8]) -> (r: Result<DeviceInfo, LedgerAppError<E>>)
    ensures
        match spec_parse_device_info::<E>(d@) {
            Ok(v) => r is Ok && r->Ok_0@ == v,
            Err(e) => r == Err::<DeviceInfo, LedgerAppError<E>>(e),
        },
{
    if d.len() < 4 {
        return Err(LedgerAppError::InvalidLength);
    }
    let se = match field(d, 4) {
        Ok(f) => f,
        Err(e) => return Err(e),
    };
    let i1 = 5 + d[4] as usize;
    let flag = match field(d, i1) {
        Ok(f) => f,
        Err(e) => return Err(e),
    };
    let i2 = i1 + 1 + d[i1] as usize;
    let mut mcu = match field(d, i2) {
        Ok(f) => f,
        Err(e) => return Err(e),
    };
    if mcu.len() > 0 && mcu[mcu.len() - 1] == 0 {
        mcu.pop();
    }
    assert(mcu@ =~= spec_trim_nul(d@.subrange(i2 + 1, lv_end(d@, i2 as int))));
    let target_id: [u8; 4] = [d[0], d[1], d[2], d[3]];
    assert(target_id@ =~= d@.subrange(0, 4));
    let se_version = match text(se.as_slice()) {
        Ok(s) => s,
        Err(e) => return Err(e),
    };
    let mcu_version = match text(mcu.as_slice()) {
        Ok(s) => s,
        Err(e) => return Err(e),
    };
    Ok(DeviceInfo { target_id, se_version, flag, mcu_version })
}

/// Turn the status word of an answer into a result: success is `Ok`, a known status word is
/// `AppSpecific` with its text, an unknown one is `Unknown`.
pub fn handle_response_error<E>(response: &APDUAnswer) -> (r: Result<(), LedgerAppError<E>>)
    ensures
        ({
            let c = response.spec_retcode();
            &&& c == SW_NO_ERROR ==> r is Ok
            &&& c != SW_NO_ERROR && ApduErrorCode::is_known(c) ==> r is Err && r->Err_0 is AppSpecific
                && r->Err_0->AppSpecific_0 == c && r->Err_0->AppSpecific_1@
                == spec_error_description(c)@
            &&& !ApduErrorCode::is_known(c) ==> r == Err::<(), LedgerAppError<E>>(
                LedgerAppError::Unknown(c),
            )
        }),
{
    match response.error_code() {
        Ok(ApduErrorCode::NoError) => {
            assert(ApduErrorCode::is_known(response.spec_retcode())) by {
                assert(ApduErrorCode::NoError.spec_code() == response.spec_retcode());
            }
            Ok(())
        },
        Ok(err) => {
            let c = err.code();
            proof {
                lemma_code_injective(err, ApduErrorCode::NoError);
            }
            Err(LedgerAppError::AppSpecific(c, map_apdu_error_description(c).to_owned()))
        },
        Err(c) => {
            assert(ApduErrorCode::NoError.spec_code() == SW_NO_ERROR);
            Err(LedgerAppError::Unknown(c))
        },
    }
}

/// Like [`handle_response_error`], for answers that carry a signature: success without
/// payload is `NoSignature`, and an unknown status word is `AppSpecific` with the text of
/// an unknown error.
pub fn handle_response_error_signature<E>(response: &APDUAnswer) -> (r: Result<(), LedgerAppError<E>>)
    ensures
        ({
            let c = response.spec_retcode();
            &&& c == SW_NO_ERROR && response.spec_data().len() == 0 ==> r == Err::<
                (),
                LedgerAppError<E>,
            >(LedgerAppError::NoSignature)
            &&& c == SW_NO_ERROR && response.spec_data().len() > 0 ==> r is Ok
            &&& c != SW_NO_ERROR ==> r is Err && r->Err_0 is AppSpecific && r->Err_0->AppSpecific_0
                == c && r->Err_0->AppSpecific_1@ == spec_error_description(c)@
        }),
{
    match response.error_code() {
        Ok(ApduErrorCode::NoError) => {
            if response.data().len() == 0 {
                Err(LedgerAppError::NoSignature)
            } else {
                Ok(())
            }
        },
        Ok(err) => {
            let c = err.code();
            proof {
                lemma_code_injective(err, ApduErrorCode::NoError);
            }
            Err(LedgerAppError::AppSpecific(c, map_apdu_error_description(c).to_owned()))
        },
        Err(c) => {
            assert(ApduErrorCode::NoError.spec_code() == SW_NO_ERROR);
            Err(LedgerAppError::AppSpecific(c, map_apdu_error_description(c).to_owned()))
        },
    }
}

/// How many chunks a message of `n` bytes is split into.
pub open spec fn spec_chunk_count(n: nat) -> nat {
    n / 250 + if n % 250 == 0 {
        0nat
    } else {
        1nat
    }
}

/// The `i`-th chunk of `m`: the bytes from `250 * i` on, at most 250 of them.
pub open spec fn spec_chunk(m: Seq<u8>, i: int) -> Seq<u8> {
    let start = 250 * i;
    let end = if start + 250 <= m.len() {
        start + 250
    } else {
        m.len() as int
    };
    m.subrange(start, end)
}

/// The chunk type of the `i`-th of `count` chunks: `Last` for the last one, `Add` before.
pub open spec fn spec_chunk_type(i: int, count: nat) -> ChunkPayloadType {
    if i == count - 1 {
        ChunkPayloadType::Last
    } else {
        ChunkPayloadType::Add
    }
}

/// The first `k` chunks of `m`, joined.
pub open spec fn spec_join_chunks(m: Seq<u8>, k: nat) -> Seq<u8>
    decreases k,
{
    if k == 0 {
        Seq::empty()
    } else {
        spec_join_chunks(m, (k - 1) as nat) + spec_chunk(m, k - 1)
    }
}

/// Returns how many chunks a message of `n` bytes is split into.
pub fn chunk_count(n: usize) -> (r: usize)
    ensures
        r == spec_chunk_count(n as nat),
{
    n / USER_MESSAGE_CHUNK_SIZE + if n % USER_MESSAGE_CHUNK_SIZE == 0 {
        0
    } else {
        1
    }
}

/// The commands that carry `message` in chunks after the initial command: one per chunk,
/// in order, with the given class, instruction and `p2`, and `p1` telling `Add` from `Last`.
pub fn build_chunks(cla: u8, ins: u8, p2: u8, message: &[u8]) -> (r: Vec<APDUCommand>)
    ensures
        r@.len() == spec_chunk_count(message@.len()),
        forall|i: int|
            0 <= i < r@.len() ==> {
                &&& (#[trigger] r@[i]).cla == cla
                &&& r@[i].ins == ins
                &&& r@[i].p2 == p2
                &&& r@[i].p1 == spec_chunk_type(i, r@.len()).spec_value()
                &&& r@[i].data@ == spec_chunk(message@, i)
                &&& r@[i].wf()
            },
{
    let n = message.len();
    let count = chunk_count(n);
    let mut r: Vec<APDUCommand> = Vec::new();
    let mut start: usize = 0;
    while start < n
        invariant
            n == message@.len(),
            count == spec_chunk_count(n as nat),
            start == (if 250 * r@.len() <= n {
                250 * r@.len() as int
            } else {
                n as int
            }),
            start < n ==> r@.len() < count,
            start >= n ==> r@.len() == count,
            forall|i: int|
                0 <= i < r@.len() ==> {
                    &&& (#[trigger] r@[i]).cla == cla
                    &&& r@[i].ins == ins
                    &&& r@[i].p2 == p2
                    &&& r@[i].p1 == spec_chunk_type(i, count as nat).spec_value()
                    &&& r@[i].data@ == spec_chunk(message@, i)
                    &&& r@[i].wf()
                },
        decreases n - start,
    {
        let end = if n - start > USER_MESSAGE_CHUNK_SIZE {
            start + USER_MESSAGE_CHUNK_SIZE
        } else {
            n
        };
        let kind = if end == n {
            ChunkPayloadType::Last
        } else {
            ChunkPayloadType::Add
        };
        let ghost i = r@.len() as int;
        assert(start == 250 * i);
        assert(end == n <==> i == count - 1) by (nonlinear_arith)
            requires
                start == 250 * i,
                start < n,
                end == (if n - start > 250 {
                    start + 250
                } else {
                    n as int
                }),
                count == n / 250 + if n % 250 == 0 {
                    0int
                } else {
                    1int
                },
        ;
        r.push(
            APDUCommand { cla, ins, p1: kind.value(), p2, data: copy_range(message, start, end) },
        );
        start = end;
        proof {
            if end < n {
                assert(end == 250 * r@.len());
            } else {
                assert(250 * r@.len() >= n) by (nonlinear_arith)
                    requires
                        250 * i + 250 >= n,
                        r@.len() == i + 1,
                ;
            }
            if start < n {
                assert(r@.len() < count) by (nonlinear_arith)
                    requires
                        start == 250 * r@.len(),
                        start < n,
                        count == n / 250 + if n % 250 == 0 {
                            0int
                        } else {
                            1int
                        },
                ;
            }
        }
    }
    r
}

/// The chunks of a message, joined in order, give back the message; each chunk holds
/// between 1 and 250 bytes.
pub proof fn lemma_chunks_join(m: Seq<u8>)
    ensures
        spec_join_chunks(m, spec_chunk_count(m.len())) == m,
        forall|i: int|
            0 <= i < spec_chunk_count(m.len()) ==> 0 < (#[trigger] spec_chunk(m, i)).len() <= 250,
{
    let count = spec_chunk_count(m.len());
    assert forall|i: int| 0 <= i < count implies 0 < (#[trigger] spec_chunk(m, i)).len() <= 250 by {
        assert(250 * i < m.len()) by (nonlinear_arith)
            requires
                0 <= i < count,
                count == m.len() / 250 + if m.len() % 250 == 0 {
                    0int
                } else {
                    1int
                },
        ;
    }
    lemma_join_prefix(m, count);
    assert(250 * count >= m.len()) by (nonlinear_arith)
        requires
            count == m.len() / 250 + if m.len() % 250 == 0 {
                0int
            } else {
                1int
            },
    ;
    assert(m.subrange(0, m.len() as int) =~= m);
}

proof fn lemma_join_prefix(m: Seq<u8>, k: nat)
    requires
        k <= spec_chunk_count(m.len()),
    ensures
        spec_join_chunks(m, k) == m.subrange(
            0,
            if 250 * k <= m.len() {
                250 * k as int
            } else {
                m.len() as int
            },
        ),
    decreases k,
{
    if k == 0 {
        assert(m.subrange(0, 0) =~= Seq::<u8>::empty());
    } else {
        let km = (k - 1) as nat;
        lemma_join_prefix(m, km);
        assert(250 * km < m.len()) by (nonlinear_arith)
            requires
                km < spec_chunk_count(m.len()),
                spec_chunk_count(m.len()) == m.len() / 250 + if m.len() % 250 == 0 {
                    0nat
                } else {
                    1nat
                },
        ;
        let end = if 250 * k <= m.len() {
            250 * k as int
        } else {
            m.len() as int
        };
        assert(m.subrange(0, 250 * km as int) + m.subrange(250 * km as int, end) =~= m.subrange(0, end));
    }
}

/// Turn a version answer into a version: success is parsed, any other status word is
/// `Unknown` with that word.
pub fn version_from_answer<E>(answer: &APDUAnswer) -> (r: Result<Version, LedgerAppError<E>>)
    ensures
        answer.spec_retcode() != SW_NO_ERROR ==> r == Err::<Version, LedgerAppError<E>>(
            LedgerAppError::Unknown(answer.spec_retcode()),
        ),
        answer.spec_retcode() == SW_NO_ERROR ==> match spec_parse_version(answer.spec_data()) {
            Some(v) => r is Ok && r->Ok_0@ == v,
            None => r == Err::<Version, LedgerAppError<E>>(LedgerAppError::InvalidVersion),
        },
{
    let c = answer.retcode();
    if c != SW_NO_ERROR {
        return Err(LedgerAppError::Unknown(c));
    }
    parse_version(answer.data())
}

/// Turn an application info answer into application info: success is parsed, a known
/// status word is `AppSpecific` with its text, an unknown one is `Unknown`.
pub fn app_info_from_answer<E>(answer: &APDUAnswer) -> (r: Result<AppInfo, LedgerAppError<E>>)
    ensures
        ({
            let c = answer.spec_retcode();
            &&& c != SW_NO_ERROR && ApduErrorCode::is_known(c) ==> r is Err && r->Err_0 is AppSpecific
                && r->Err_0->AppSpecific_0 == c && r->Err_0->AppSpecific_1@
                == spec_error_description(c)@
            &&& !ApduErrorCode::is_known(c) ==> r == Err::<AppInfo, LedgerAppError<E>>(
                LedgerAppError::Unknown(c),
            )
            &&& c == SW_NO_ERROR ==> match spec_parse_app_info::<E>(answer.spec_data()) {
                Ok(v) => r is Ok && r->Ok_0@ == v && r->Ok_0.flags_consistent(),
                Err(e) => r == Err::<AppInfo, LedgerAppError<E>>(e),
            }
        }),
{
    match handle_response_error(answer) {
        Ok(()) => {},
        Err(e) => return Err(e),
    }
    parse_app_info(answer.data())
}

/// Turn a device info answer into device info: success is parsed, any other status word
/// is `Unknown` with that word.
pub fn device_info_from_answer<E>(answer: &APDUAnswer) -> (r: Result<DeviceInfo, LedgerAppError<E>>)
    ensures
        answer.spec_retcode() != SW_NO_ERROR ==> r == Err::<DeviceInfo, LedgerAppError<E>>(
            LedgerAppError::Unknown(answer.spec_retcode()),
        ),
        answer.spec_retcode() == SW_NO_ERROR ==> match spec_parse_device_info::<E>(
            answer.spec_data(),
        ) {
            Ok(v) => r is Ok && r->Ok_0@ == v,
            Err(e) => r == Err::<DeviceInfo, LedgerAppError<E>>(e),
        },
{
    let c = answer.retcode();
    if c != SW_NO_ERROR {
        return Err(LedgerAppError::Unknown(c));
    }
    parse_device_info(answer.data())
}

/// The version command of the application with class `cla`.
pub fn version_command(cla: u8) -> (c: APDUCommand)
    ensures
        c.cla == cla && c.ins == INS_GET_VERSION && c.p1 == 0 && c.p2 == 0,
        c.data@.len() == 0,
{
    APDUCommand { cla, ins: INS_GET_VERSION, p1: 0, p2: 0, data: Vec::new() }
}

/// The application info command.
pub fn app_info_command() -> (c: APDUCommand)
    ensures
        c.cla == CLA_APP_INFO && c.ins == INS_APP_INFO && c.p1 == 0 && c.p2 == 0,
        c.data@.len() == 0,
{
    APDUCommand { cla: CLA_APP_INFO, ins: INS_APP_INFO, p1: 0, p2: 0, data: Vec::new() }
}

/// The device info command.
pub fn device_info_command() -> (c: APDUCommand)
    ensures
        c.cla == CLA_DEVICE_INFO && c.ins == INS_DEVICE_INFO && c.p1 == 0 && c.p2 == 0,
        c.data@.len() == 0,
{
    APDUCommand { cla: CLA_DEVICE_INFO, ins: INS_DEVICE_INFO, p1: 0, p2: 0, data: Vec::new() }
}

/// Retrieve the application version; `cla` is the application's class.
pub fn get_version<E: Exchange>(cla: u8, transport: &E) -> (r: Result<Version, LedgerAppError<E::Error>>)
    ensures
        r is Ok ==> exists|a: APDUAnswer|
            a.spec_retcode() == SW_NO_ERROR && spec_parse_version(#[trigger] a.spec_data())
                == Some(r->Ok_0@),
{
    let command = version_command(cla);
    match transport.exchange(&command) {
        Ok(answer) => {
            let r = version_from_answer(&answer);
            assert(r is Ok ==> answer.spec_retcode() == SW_NO_ERROR && spec_parse_version(
                answer.spec_data(),
            ) == Some(r->Ok_0@));
            r
        },
        Err(e) => Err(LedgerAppError::TransportError(e)),
    }
}

/// Retrieve the application info.
pub fn get_app_info<E: Exchange>(transport: &E) -> (r: Result<AppInfo, LedgerAppError<E::Error>>)
    ensures
        r is Ok ==> r->Ok_0.flags_consistent() && exists|a: APDUAnswer|
            a.spec_retcode() == SW_NO_ERROR && spec_parse_app_info::<E::Error>(
                #[trigger] a.spec_data(),
            ) == Ok::<AppInfoView, LedgerAppError<E::Error>>(r->Ok_0@),
{
    let command = app_info_command();
    match transport.exchange(&command) {
        Ok(answer) => {
            let r = app_info_from_answer(&answer);
            assert(r is Ok ==> answer.spec_retcode() == SW_NO_ERROR && spec_parse_app_info::<
                E::Error,
            >(answer.spec_data()) == Ok::<AppInfoView, LedgerAppError<E::Error>>(r->Ok_0@));
            r
        },
        Err(e) => Err(LedgerAppError::TransportError(e)),
    }
}

/// Retrieve the device info; works in the dashboard only.
pub fn get_device_info<E: Exchange>(transport: &E) -> (r: Result<DeviceInfo, LedgerAppError<E::Error>>)
    ensures
        r is Ok ==> exists|a: APDUAnswer|
            a.spec_retcode() == SW_NO_ERROR && spec_parse_device_info::<E::Error>(
                #[trigger] a.spec_data(),
            ) == Ok::<DeviceInfoView, LedgerAppError<E::Error>>(r->Ok_0@),
{
    let command = device_info_command();
    match transport.exchange(&command) {
        Ok(answer) => {
            let r = device_info_from_answer(&answer);
            assert(r is Ok ==> answer.spec_retcode() == SW_NO_ERROR && spec_parse_device_info::<
                E::Error,
            >(answer.spec_data()) == Ok::<DeviceInfoView, LedgerAppError<E::Error>>(r->Ok_0@));
            r
        },
        Err(e) => Err(LedgerAppError::TransportError(e)),
    }
}

/// Checks a chunked upload before anything is sent: the message must not be empty, must
/// fit in 255 chunks, and the initial command must be tagged `Init`.
pub fn check_chunked_upload<E>(command: &APDUCommand, message: &[u8]) -> (r: Result<usize, LedgerAppError<E>>)
    ensures
        message@.len() == 0 ==> r == Err::<usize, LedgerAppError<E>>(
            LedgerAppError::InvalidEmptyMessage,
        ),
        message@.len() > 0 && spec_chunk_count(message@.len()) > MAX_CHUNKS ==> r == Err::<
            usize,
            LedgerAppError<E>,
        >(LedgerAppError::InvalidMessageSize),
        message@.len() > 0 && spec_chunk_count(message@.len()) <= MAX_CHUNKS && command.p1
            != ChunkPayloadType::Init.spec_value() ==> r == Err::<usize, LedgerAppError<E>>(
            LedgerAppError::InvalidChunkPayloadType,
        ),
        message@.len() > 0 && spec_chunk_count(message@.len()) <= MAX_CHUNKS && command.p1
            == ChunkPayloadType::Init.spec_value() ==> r == Ok::<usize, LedgerAppError<E>>(
            spec_chunk_count(message@.len()) as usize,
        ),
{
    let count = chunk_count(message.len());
    if count == 0 {
        return Err(LedgerAppError::InvalidEmptyMessage);
    }
    if count > MAX_CHUNKS {
        return Err(LedgerAppError::InvalidMessageSize);
    }
    if command.p1 != ChunkPayloadType::Init.value() {
        return Err(LedgerAppError::InvalidChunkPayloadType);
    }
    Ok(count)
}

/// Stream a long message in chunks: the initial command first, then one command per
/// chunk; stops at the first transport error or status word other than success, and
/// returns the answer to the last chunk.
pub fn send_chunks<E: Exchange>(transport: &E, command: &APDUCommand, message: &[u8]) -> (r: Result<
    APDUAnswer,
    LedgerAppError<E::Error>,
>)
    requires
        command.wf(),
    ensures
        message@.len() == 0 ==> r == Err::<APDUAnswer, LedgerAppError<E::Error>>(
            LedgerAppError::InvalidEmptyMessage,
        ),
        message@.len() > 0 && spec_chunk_count(message@.len()) > MAX_CHUNKS ==> r == Err::<
            APDUAnswer,
            LedgerAppError<E::Error>,
        >(LedgerAppError::InvalidMessageSize),
        message@.len() > 0 && spec_chunk_count(message@.len()) <= MAX_CHUNKS && command.p1
            != ChunkPayloadType::Init.spec_value() ==> r == Err::<
            APDUAnswer,
            LedgerAppError<E::Error>,
        >(LedgerAppError::InvalidChunkPayloadType),
        message@.len() > 0 && spec_chunk_count(message@.len()) <= MAX_CHUNKS && command.p1
            == ChunkPayloadType::Init.spec_value() ==> (r is Ok || r matches Err(
            LedgerAppError::TransportError(_),
        ) || r matches Err(LedgerAppError::AppSpecific(..)) || r matches Err(
            LedgerAppError::Unknown(_),
        )),
        r is Ok ==> r->Ok_0.spec_retcode() == SW_NO_ERROR,
{
    match check_chunked_upload::<E::Error>(command, message) {
        Ok(_) => {},
        Err(e) => return Err(e),
    }
    let mut response = match transport.exchange(command) {
        Ok(a) => a,
        Err(e) => return Err(LedgerAppError::TransportError(e)),
    };
    match handle_response_error::<E::Error>(&response) {
        Ok(()) => {},
        Err(e) => return Err(e),
    }
    let chunks = build_chunks(command.cla, command.ins, command.p2, message);
    let mut i: usize = 0;
    while i < chunks.len()
        invariant
            i <= chunks@.len(),
            message@.len() > 0,
            spec_chunk_count(message@.len()) <= MAX_CHUNKS,
            command.p1 == ChunkPayloadType::Init.spec_value(),
            response.spec_retcode() == SW_NO_ERROR,
            forall|j: int| 0 <= j < chunks@.len() ==> (#[trigger] chunks@[j]).wf(),
        decreases chunks@.len() - i,
    {
        response = match transport.exchange(&chunks[i]) {
            Ok(a) => a,
            Err(e) => return Err(LedgerAppError::TransportError(e)),
        };
        match handle_response_error::<E::Error>(&response) {
            Ok(()) => {},
            Err(e) => return Err(e),
        }
        i = i + 1;
    }
    Ok(response)
}

} // verus!
