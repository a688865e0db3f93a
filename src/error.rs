//! The status words a device ends its answers with, and the errors of encoding and decoding.
use vstd::prelude::*;

verus! {

/// Errors of encoding and decoding APDU payloads.
#[derive(Copy, Clone, Debug, PartialEq, Eq, Structural)]
pub enum ApduError {
    /// Invalid version / format identifier
    InvalidVersion(u8),
    /// Invalid UTF8 in string component
    Utf8,
    /// Invalid object length
    InvalidLength,
    /// Invalid object encoding
    InvalidEncoding,
    /// Error response from device (may be an [`ApduErrorCode`])
    ErrorCode(u16),
}

/// Well-known status words returned by a device at the end of every answer.
#[derive(Copy, Clone, Debug, PartialEq, Eq, Structural)]
pub enum ApduErrorCode {
    /// success
    NoError,
    /// error during apdu execution
    ExecutionError,
    /// apdu command wrong length
    WrongLength,
    /// empty apdu buffer
    EmptyBuffer,
    /// apdu buffer too small
    OutputBufferTooSmall,
    /// apdu parameters invalid
    DataInvalid,
    /// apdu preconditions not satisfied
    ConditionsNotSatisfied,
    /// apdu command not allowed
    CommandNotAllowed,
    /// apdu data field incorrect (bad key)
    BadKeyHandle,
    /// apdu p1 or p2 incorrect
    InvalidP1P2,
    /// apdu instruction not supported or invalid
    InsNotSupported,
    /// apdu class not supported or invalid
    ClaNotSupported,
    /// unknown apdu error
    Unknown,
    /// apdu sign verify error
    SignVerifyError,
}

/// The status words under the name the generic command set gives them.
pub type APDUErrorCodes = ApduErrorCode;

/// The text that goes with a status word, `[APDU_ERROR] Unknown` for an unrecognised one.
pub open spec fn spec_error_description(code: u16) -> &'static str {
    match code {
        0x9000 => "[APDU_CODE_OK] Success",
        0x6400 => "[APDU_CODE_EXECUTION_ERROR] No information given (NV-Ram not changed)",
        0x6700 => "[APDU_CODE_WRONG_LENGTH] Wrong length",
        0x6982 => "[APDU_CODE_EMPTY_BUFFER]",
        0x6983 => "[APDU_CODE_OUTPUT_BUFFER_TOO_SMALL]",
        0x6984 => "[APDU_CODE_DATA_INVALID] data reversibly blocked (invalidated)",
        0x6985 => "[APDU_CODE_CONDITIONS_NOT_SATISFIED] Conditions of use not satisfied",
        0x6986 => "[APDU_CODE_COMMAND_NOT_ALLOWED] Command not allowed (no current EF)",
        0x6A80 => "[APDU_CODE_BAD_KEY_HANDLE] The parameters in the data field are incorrect",
        0x6B00 => "[APDU_CODE_INVALIDP1P2] Wrong parameter(s) P1-P2",
        0x6D00 => "[APDU_CODE_INS_NOT_SUPPORTED] Instruction code not supported or invalid",
        0x6E00 => "[APDU_CODE_CLA_NOT_SUPPORTED] Class not supported",
        0x6F00 => "[APDU_CODE_UNKNOWN]",
        0x6F01 => "[APDU_CODE_SIGN_VERIFY_ERROR]",
        _ => "[APDU_ERROR] Unknown",
    }
}

/// Returns the text that goes with a status word.
pub fn map_apdu_error_description(code: u16) -> (r: &'static str)
    ensures
        r == spec_error_description(code),
{
    match code {
        0x9000 => "[APDU_CODE_OK] Success",
        0x6400 => "[APDU_CODE_EXECUTION_ERROR] No information given (NV-Ram not changed)",
        0x6700 => "[APDU_CODE_WRONG_LENGTH] Wrong length",
        0x6982 => "[APDU_CODE_EMPTY_BUFFER]",
        0x6983 => "[APDU_CODE_OUTPUT_BUFFER_TOO_SMALL]",
        0x6984 => "[APDU_CODE_DATA_INVALID] data reversibly blocked (invalidated)",
        0x6985 => "[APDU_CODE_CONDITIONS_NOT_SATISFIED] Conditions of use not satisfied",
        0x6986 => "[APDU_CODE_COMMAND_NOT_ALLOWED] Command not allowed (no current EF)",
        0x6A80 => "[APDU_CODE_BAD_KEY_HANDLE] The parameters in the data field are incorrect",
        0x6B00 => "[APDU_CODE_INVALIDP1P2] Wrong parameter(s) P1-P2",
        0x6D00 => "[APDU_CODE_INS_NOT_SUPPORTED] Instruction code not supported or invalid",
        0x6E00 => "[APDU_CODE_CLA_NOT_SUPPORTED] Class not supported",
        0x6F00 => "[APDU_CODE_UNKNOWN]",
        0x6F01 => "[APDU_CODE_SIGN_VERIFY_ERROR]",
        _ => "[APDU_ERROR] Unknown",
    }
}

impl ApduErrorCode {
    /// The 16-bit status word of each known code.
    pub open spec fn spec_code(self) -> u16 {
        match self {
            ApduErrorCode::NoError => 0x9000,
            ApduErrorCode::ExecutionError => 0x6400,
            ApduErrorCode::WrongLength => 0x6700,
            ApduErrorCode::EmptyBuffer => 0x6982,
            ApduErrorCode::OutputBufferTooSmall => 0x6983,
            ApduErrorCode::DataInvalid => 0x6984,
            ApduErrorCode::ConditionsNotSatisfied => 0x6985,
            ApduErrorCode::CommandNotAllowed => 0x6986,
            ApduErrorCode::BadKeyHandle => 0x6A80,
            ApduErrorCode::InvalidP1P2 => 0x6B00,
            ApduErrorCode::InsNotSupported => 0x6D00,
            ApduErrorCode::ClaNotSupported => 0x6E00,
            ApduErrorCode::Unknown => 0x6F00,
            ApduErrorCode::SignVerifyError => 0x6F01,
        }
    }

    /// A status word is known when some code carries it.
    pub open spec fn is_known(value: u16) -> bool {
        exists|c: ApduErrorCode| c.spec_code() == value
    }

    /// Returns the 16-bit status word of this code.
    pub fn code(self) -> (r: u16)
        ensures
            r == self.spec_code(),
    {
        match self {
            ApduErrorCode::NoError => 0x9000,
            ApduErrorCode::ExecutionError => 0x6400,
            ApduErrorCode::WrongLength => 0x6700,
            ApduErrorCode::EmptyBuffer => 0x6982,
            ApduErrorCode::OutputBufferTooSmall => 0x6983,
            ApduErrorCode::DataInvalid => 0x6984,
            ApduErrorCode::ConditionsNotSatisfied => 0x6985,
            ApduErrorCode::CommandNotAllowed => 0x6986,
            ApduErrorCode::BadKeyHandle => 0x6A80,
            ApduErrorCode::InvalidP1P2 => 0x6B00,
            ApduErrorCode::InsNotSupported => 0x6D00,
            ApduErrorCode::ClaNotSupported => 0x6E00,
            ApduErrorCode::Unknown => 0x6F00,
            ApduErrorCode::SignVerifyError => 0x6F01,
        }
    }

    /// Maps a status word to its known code; an unrecognised word comes back unchanged.
    pub fn try_from(value: u16) -> (r: Result<ApduErrorCode, u16>)
        ensures
            match r {
                Ok(c) => c.spec_code() == value,
                Err(v) => v == value && !Self::is_known(value),
            },
    {
        match value {
            0x9000 => Ok(ApduErrorCode::NoError),
            0x6400 => Ok(ApduErrorCode::ExecutionError),
            0x6700 => Ok(ApduErrorCode::WrongLength),
            0x6982 => Ok(ApduErrorCode::EmptyBuffer),
            0x6983 => Ok(ApduErrorCode::OutputBufferTooSmall),
            0x6984 => Ok(ApduErrorCode::DataInvalid),
            0x6985 => Ok(ApduErrorCode::ConditionsNotSatisfied),
            0x6986 => Ok(ApduErrorCode::CommandNotAllowed),
            0x6A80 => Ok(ApduErrorCode::BadKeyHandle),
            0x6B00 => Ok(ApduErrorCode::InvalidP1P2),
            0x6D00 => Ok(ApduErrorCode::InsNotSupported),
            0x6E00 => Ok(ApduErrorCode::ClaNotSupported),
            0x6F00 => Ok(ApduErrorCode::Unknown),
            0x6F01 => Ok(ApduErrorCode::SignVerifyError),
            _ => {
                assert(!Self::is_known(value)) by {
                    if Self::is_known(value) {
                        let c = choose|c: ApduErrorCode| c.spec_code() == value;
                        assert(c.spec_code() == value);
                    }
                }
                Err(value)
            },
        }
    }

    /// A short text for this code.
    pub fn description(self) -> (r: &'static str)
        ensures
            r == spec_error_description(self.spec_code()),
    {
        map_apdu_error_description(self.code())
    }
}

/// Each known code and its status word determine each other.
pub proof fn lemma_code_injective(a: ApduErrorCode, b: ApduErrorCode)
    ensures
        a.spec_code() == b.spec_code() <==> a == b,
{
}

} // verus!
