//! TCP framing: a command goes out after a 4-byte big-endian length; an answer comes back
//! as a 4-byte big-endian length of its payload, then the payload and the 2-byte status
//! word, which the length does not count.
use vstd::prelude::*;

use crate::apdu::{answer_payload, answer_status, APDUAnswer};
use crate::exchange::SW_NO_ERROR;
use crate::bytes::{be32, be32_bytes, extend_range, read_be_u32, write_be_u32};

verus! {

#[verifier::external_type_specification]
#[verifier::external_body]
pub struct ExIoError(std::io::Error);

/// Length of the prefix in front of every TCP message.
pub const TCP_PREFIX_LEN: usize = 4;

/// Errors of the TCP transport.
#[derive(Debug)]
pub enum Error {
    /// The socket failed
    Io(std::io::Error),
    /// The answer did not come in time
    Timeout,
    /// The length prefix of the answer was not read whole
    InvalidLength,
    /// The answer was too short for its status word
    InvalidAnswer,
    /// The command could not be encoded
    ApduError,
    /// The device answered with a status word other than success
    ErrorCode(u16),
}

/// Errors of connecting to a TCP device.
#[derive(Debug)]
pub enum LedgerTcpError {
    /// Connection refused error
    ConnectionRefused,
    /// The socket failed
    Io(std::io::Error),
    /// The connection was closed
    ConnectionClosed,
    /// A read would block
    ReadWouldBlock,
}

impl LedgerTcpError {
    /// The connection was refused.
    pub fn connection_refused() -> (r: LedgerTcpError)
        ensures
            r is ConnectionRefused,
    {
        LedgerTcpError::ConnectionRefused
    }

    /// The connection was closed.
    pub fn connection_closed() -> (r: LedgerTcpError)
        ensures
            r is ConnectionClosed,
    {
        LedgerTcpError::ConnectionClosed
    }

    /// A read would block.
    pub fn read_would_block() -> (r: LedgerTcpError)
        ensures
            r is ReadWouldBlock,
    {
        LedgerTcpError::ReadWouldBlock
    }
}

/// The bytes sent for a serialized command: its length, then the command.
pub open spec fn spec_tcp_request(apdu: Seq<u8>) -> Seq<u8> {
    be32_bytes(apdu.len() as u32) + apdu
}

/// Frames a serialized command for the wire.
pub fn frame_request(apdu_command: &[u8]) -> (r: Vec<u8>)
    requires
        apdu_command@.len() <= u32::MAX,
    ensures
        r@ == spec_tcp_request(apdu_command@),
{
    let n = apdu_command.len();
    let mut prefix: [u8; 4] = [0u8; 4];
    write_be_u32(&mut prefix, 0, n as u32);
    let mut r: Vec<u8> = Vec::new();
    extend_range(&mut r, prefix.as_slice(), 0, 4);
    extend_range(&mut r, apdu_command, 0, n);
    assert(r@ =~= spec_tcp_request(apdu_command@));
    r
}

/// How many bytes follow the answer's length prefix: the announced payload length plus the
/// two bytes of the status word. A prefix that was not read whole is an `InvalidLength`.
pub fn response_length(prefix: &[u8]) -> (r: Result<u64, Error>)
    ensures
        prefix@.len() != TCP_PREFIX_LEN ==> r matches Err(Error::InvalidLength),
        prefix@.len() == TCP_PREFIX_LEN ==> (r matches Ok(n) && n == be32(prefix@) + 2),
{
    if prefix.len() != TCP_PREFIX_LEN {
        return Err(Error::InvalidLength);
    }
    let n = read_be_u32(prefix, 0);
    assert(prefix@.subrange(0, 4) =~= prefix@);
    Ok(n as u64 + 2)
}

/// Interprets the bytes read after the length prefix as an answer: fewer than the two
/// bytes of a status word is an `InvalidAnswer`, a status word other than success is an
/// `ErrorCode` that carries it, and otherwise the answer is its payload and status word.
pub fn decode_response(body: Vec<u8>) -> (r: Result<APDUAnswer, Error>)
    ensures
        body@.len() < 2 ==> r matches Err(Error::InvalidAnswer),
        body@.len() >= 2 && answer_status(body@) != SW_NO_ERROR ==> (r matches Err(
            Error::ErrorCode(c),
        ) && c == answer_status(body@)),
        body@.len() >= 2 && answer_status(body@) == SW_NO_ERROR ==> (r matches Ok(a)
            && a.spec_data() == answer_payload(body@) && a.spec_retcode() == SW_NO_ERROR),
{
    match APDUAnswer::from_answer(body) {
        Ok(a) => {
            let c = a.retcode();
            if c != SW_NO_ERROR {
                Err(Error::ErrorCode(c))
            } else {
                Ok(a)
            }
        },
        Err(_) => Err(Error::InvalidAnswer),
    }
}

} // verus!
