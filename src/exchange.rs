//! The exchange contract that every transport implements, and the encode and decode
//! helpers that all transports share.
use vstd::prelude::*;

use crate::apdu::{
    answer_payload, answer_status, APDUAnswer, APDUCommand, ApduCmd, ApduHeader, Decode, Encode,
    APDU_HDR_LEN, MAX_APDU_DATA_LEN,
};
use crate::bytes::{copy_range, read_be_u16, write_range};
use crate::error::ApduError;

verus! {

/// Status word of a successful command.
pub const SW_NO_ERROR: u16 = 0x9000;

/// A transport: it sends one command to the device and returns its answer.
///
/// One exchange is one write of the command and one read of the answer. A transport
/// serialises concurrent callers, so that the bytes of two exchanges never interleave.
pub trait Exchange {
    /// Error defined by the transport.
    type Error;

    /// Send a command and retrieve its answer, or a transport error.
    fn exchange(&self, command: &APDUCommand) -> Result<APDUAnswer, Self::Error>
        requires
            command.wf(),
    ;
}

/// The bytes of a command as it is sent: its header, with the payload length, then the payload.
pub open spec fn spec_apdu_bytes(h: ApduHeader, payload: Seq<u8>) -> Seq<u8> {
    ApduHeader { len: payload.len() as u8, ..h }.spec_bytes() + payload
}

/// Encode a command, header and payload, into the front of `buff`; returns the number of
/// bytes written. Fails with `InvalidLength` when the payload cannot be encoded, is longer
/// than 255 bytes, or does not fit in `buff`.
pub fn apdu_encode<C: ApduCmd>(apdu: &C, buff: &mut [u8]) -> (r: Result<usize, ApduError>)
    ensures
        ({
            let p = apdu.spec_encode();
            if apdu.spec_encodable() && p.len() <= MAX_APDU_DATA_LEN && APDU_HDR_LEN + p.len()
                <= old(buff)@.len() {
                &&& r == Ok::<usize, ApduError>((APDU_HDR_LEN + p.len()) as usize)
                &&& final(buff)@.subrange(0, APDU_HDR_LEN + p.len()) == spec_apdu_bytes(
                    apdu.spec_header(),
                    p,
                )
                &&& final(buff)@.len() == old(buff)@.len()
                &&& final(buff)@.subrange(APDU_HDR_LEN + p.len(), old(buff)@.len() as int)
                    == old(buff)@.subrange(APDU_HDR_LEN + p.len(), old(buff)@.len() as int)
            } else {
                &&& r == Err::<usize, ApduError>(ApduError::InvalidLength)
                &&& final(buff)@ == old(buff)@
            }
        }),
{
    let n = match apdu.encode_len() {
        Ok(n) => n,
        Err(e) => return Err(e),
    };
    if n > MAX_APDU_DATA_LEN || buff.len() < APDU_HDR_LEN || buff.len() - APDU_HDR_LEN < n {
        return Err(ApduError::InvalidLength);
    }
    let hdr = apdu.header();
    let mut payload: Vec<u8> = vec![0u8; n];
    match apdu.encode(payload.as_mut_slice()) {
        Ok(_) => {},
        Err(e) => return Err(e),
    }
    assert(payload@ =~= apdu.spec_encode());
    hdr.encode(buff);
    write_range(buff, APDU_HDR_LEN, payload.as_slice());
    assert(ApduHeader { len: apdu.spec_encode().len() as u8, ..apdu.spec_header() } == hdr);
    assert(buff@.subrange(APDU_HDR_LEN + n, old(buff)@.len() as int) =~= old(buff)@.subrange(
        APDU_HDR_LEN + n,
        old(buff)@.len() as int,
    ));
    assert(buff@.subrange(0, APDU_HDR_LEN + n) =~= spec_apdu_bytes(
        apdu.spec_header(),
        apdu.spec_encode(),
    ));
    Ok(APDU_HDR_LEN + n)
}

/// Check the status word at the end of `buff` and return the payload before it.
/// A buffer without a full status word is an `InvalidLength`; a status word other than
/// success is an `ErrorCode` that carries it unchanged.
pub fn apdu_decode(buff: &[u8]) -> (r: Result<Vec<u8>, ApduError>)
    ensures
        buff@.len() < 2 ==> r == Err::<Vec<u8>, ApduError>(ApduError::InvalidLength),
        buff@.len() >= 2 && answer_status(buff@) != SW_NO_ERROR ==> r == Err::<
            Vec<u8>,
            ApduError,
        >(ApduError::ErrorCode(answer_status(buff@))),
        buff@.len() >= 2 && answer_status(buff@) == SW_NO_ERROR ==> r is Ok && r->Ok_0@
            == answer_payload(buff@),
{
    let n = buff.len();
    if n < 2 {
        return Err(ApduError::InvalidLength);
    }
    let retcode = read_be_u16(buff, n - 2);
    if retcode != SW_NO_ERROR {
        return Err(ApduError::ErrorCode(retcode));
    }
    Ok(copy_range(buff, 0, n - 2))
}

/// Check the status word at the end of `buff`, then decode the typed answer from the
/// payload before it. Errors of the status check are those of [`apdu_decode`]; errors of
/// decoding are returned unchanged.
pub fn apdu_decode_as<A: Decode>(buff: &[u8]) -> (r: Result<A, ApduError>)
    ensures
        buff@.len() < 2 ==> r == Err::<A, ApduError>(ApduError::InvalidLength),
        buff@.len() >= 2 && answer_status(buff@) != SW_NO_ERROR ==> r == Err::<A, ApduError>(
            ApduError::ErrorCode(answer_status(buff@)),
        ),
        buff@.len() >= 2 && answer_status(buff@) == SW_NO_ERROR ==> match A::spec_decode(
            answer_payload(buff@),
        ) {
            Ok((v, _)) => r is Ok && r->Ok_0.spec_model() == v,
            Err(e) => r == Err::<A, ApduError>(e),
        },
{
    let payload = match apdu_decode(buff) {
        Ok(p) => p,
        Err(e) => return Err(e),
    };
    match A::decode(payload.as_slice()) {
        Ok((answer, _)) => Ok(answer),
        Err(e) => Err(e),
    }
}

} // verus!
