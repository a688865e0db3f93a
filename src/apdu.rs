//! The APDU message model: a command with its 5-byte header, and an answer that
//! ends with a 16-bit status word.
use vstd::prelude::*;

use crate::bytes::{be16, copy_range, read_be_u16};
use crate::error::{ApduError, ApduErrorCode};

verus! {

/// Length of an encoded [`ApduHeader`].
pub const APDU_HDR_LEN: usize = 5;

/// Largest payload that one command can carry.
pub const MAX_APDU_DATA_LEN: usize = 255;

/// An APDU command.
#[derive(Debug, Clone)]
pub struct APDUCommand {
    /// APDU class
    pub cla: u8,
    /// APDU instruction
    pub ins: u8,
    /// First parameter of the instruction
    pub p1: u8,
    /// Second parameter of the instruction
    pub p2: u8,
    /// Payload of the instruction, can be empty
    pub data: Vec<u8>,
}

/// The wire form of a command: class, instruction, p1, p2, length, then the payload.
pub open spec fn command_bytes(cla: u8, ins: u8, p1: u8, p2: u8, data: Seq<u8>) -> Seq<u8> {
    seq![cla, ins, p1, p2, data.len() as u8] + data
}

impl APDUCommand {
    /// A command is valid when its payload fits the one-byte length field.
    pub open spec fn wf(&self) -> bool {
        self.data@.len() <= MAX_APDU_DATA_LEN
    }

    /// The wire form of this command.
    pub open spec fn spec_serialize(&self) -> Seq<u8> {
        command_bytes(self.cla, self.ins, self.p1, self.p2, self.data@)
    }

    /// Serialize this command to be sent to the device.
    pub fn serialize(&self) -> (r: Vec<u8>)
        requires
            self.wf(),
        ensures
            r@ == self.spec_serialize(),
    {
        let mut v: Vec<u8> = Vec::with_capacity(self.data.len() + APDU_HDR_LEN);
        v.push(self.cla);
        v.push(self.ins);
        v.push(self.p1);
        v.push(self.p2);
        v.push(self.data.len() as u8);
        let mut i: usize = 0;
        while i < self.data.len()
            invariant
                i <= self.data@.len(),
                v@ == seq![self.cla, self.ins, self.p1, self.p2, self.data@.len() as u8]
                    + self.data@.subrange(0, i as int),
            decreases self.data@.len() - i,
        {
            v.push(self.data[i]);
            i = i + 1;
        }
        assert(self.data@.subrange(0, i as int) =~= self.data@);
        v
    }
}

impl APDUCommand {
    /// Serialize this command, or fail with `InvalidLength` when its payload is longer than
    /// the one-byte length field can announce.
    pub fn try_serialize(&self) -> (r: Result<Vec<u8>, ApduError>)
        ensures
            self.wf() ==> r is Ok && r->Ok_0@ == self.spec_serialize(),
            !self.wf() ==> r == Err::<Vec<u8>, ApduError>(ApduError::InvalidLength),
    {
        if self.data.len() > MAX_APDU_DATA_LEN {
            return Err(ApduError::InvalidLength);
        }
        Ok(self.serialize())
    }
}

/// Error interpreting bytes as an APDU answer.
#[derive(Copy, Clone, Debug, PartialEq, Eq, Structural)]
pub enum APDUAnswerError {
    /// The answer was shorter than the two bytes of its status word.
    TooShort,
}

/// An APDU answer: a payload and the status word that followed it.
#[derive(Debug, Clone)]
pub struct APDUAnswer {
    data: Vec<u8>,
    retcode: u16,
}

/// The payload of a raw answer: all but its last two bytes.
pub open spec fn answer_payload(raw: Seq<u8>) -> Seq<u8> {
    raw.subrange(0, raw.len() - 2)
}

/// The status word of a raw answer: its last two bytes, most significant first.
pub open spec fn answer_status(raw: Seq<u8>) -> u16 {
    be16(raw[raw.len() - 2], raw[raw.len() - 1])
}

impl APDUAnswer {
    /// The payload of this answer.
    pub closed spec fn spec_data(&self) -> Seq<u8> {
        self.data@
    }

    /// The status word of this answer.
    pub closed spec fn spec_retcode(&self) -> u16 {
        self.retcode
    }

    /// Interprets `answer` as payload and status word; fails when it is shorter than two bytes.
    pub fn from_answer(answer: Vec<u8>) -> (r: Result<APDUAnswer, APDUAnswerError>)
        ensures
            answer@.len() < 2 ==> r == Err::<APDUAnswer, APDUAnswerError>(APDUAnswerError::TooShort),
            answer@.len() >= 2 ==> r is Ok && r->Ok_0.spec_data() == answer_payload(answer@)
                && r->Ok_0.spec_retcode() == answer_status(answer@),
    {
        let n = answer.len();
        if n < 2 {
            return Err(APDUAnswerError::TooShort);
        }
        let retcode = read_be_u16(answer.as_slice(), n - 2);
        let data = copy_range(answer.as_slice(), 0, n - 2);
        Ok(APDUAnswer { data, retcode })
    }

    /// Builds an answer from its parts.
    pub fn new(data: Vec<u8>, retcode: u16) -> (r: APDUAnswer)
        ensures
            r.spec_data() == data@,
            r.spec_retcode() == retcode,
    {
        APDUAnswer { data, retcode }
    }

    /// Returns the answer's payload.
    pub fn apdu_data(&self) -> (r: &[u8])
        ensures
            r@ == self.spec_data(),
    {
        self.data.as_slice()
    }

    /// Returns the answer's payload.
    pub fn data(&self) -> (r: &[u8])
        ensures
            r@ == self.spec_data(),
    {
        self.apdu_data()
    }

    /// Interprets the status word as an [`ApduErrorCode`], returning the raw word otherwise.
    pub fn error_code(&self) -> (r: Result<ApduErrorCode, u16>)
        ensures
            match r {
                Ok(c) => c.spec_code() == self.spec_retcode(),
                Err(v) => v == self.spec_retcode() && !ApduErrorCode::is_known(v),
            },
    {
        ApduErrorCode::try_from(self.retcode)
    }

    /// Returns the raw status word.
    pub fn retcode(&self) -> (r: u16)
        ensures
            r == self.spec_retcode(),
    {
        self.retcode
    }
}

/// APDU header.
#[derive(Copy, Clone, Debug, PartialEq, Eq, Structural)]
pub struct ApduHeader {
    /// Class
    pub cla: u8,
    /// Instruction
    pub ins: u8,
    /// Parameter one
    pub p1: u8,
    /// Parameter two
    pub p2: u8,
    /// Encoded data length
    pub len: u8,
}

impl ApduHeader {
    /// The five bytes of this header.
    pub open spec fn spec_bytes(&self) -> Seq<u8> {
        seq![self.cla, self.ins, self.p1, self.p2, self.len]
    }

    /// Encode the header into the first five bytes of `buff`.
    pub fn encode(&self, buff: &mut [u8])
        requires
            old(buff)@.len() >= APDU_HDR_LEN,
        ensures
            final(buff)@ == self.spec_bytes() + old(buff)@.subrange(
                APDU_HDR_LEN as int,
                old(buff)@.len() as int,
            ),
    {
        buff[0] = self.cla;
        buff[1] = self.ins;
        buff[2] = self.p1;
        buff[3] = self.p2;
        buff[4] = self.len;
        assert(buff@ =~= self.spec_bytes() + old(buff)@.subrange(
            APDU_HDR_LEN as int,
            old(buff)@.len() as int,
        ));
    }

    /// Decode a header from the first five bytes of `buff`.
    pub fn decode(&self, buff: &[u8]) -> (r: Self)
        requires
            buff@.len() >= APDU_HDR_LEN,
        ensures
            r.spec_bytes() == buff@.subrange(0, APDU_HDR_LEN as int),
    {
        let r = ApduHeader { cla: buff[0], ins: buff[1], p1: buff[2], p2: buff[3], len: buff[4] };
        assert(r.spec_bytes() =~= buff@.subrange(0, APDU_HDR_LEN as int));
        r
    }
}

/// A value with a fixed byte encoding.
pub trait Encode {
    /// Whether this value can be encoded at all (each length field fits its byte).
    spec fn spec_encodable(&self) -> bool;

    /// The bytes this value encodes to.
    spec fn spec_encode(&self) -> Seq<u8>;

    /// Compute the encoded length.
    fn encode_len(&self) -> (r: Result<usize, ApduError>)
        ensures
            self.spec_encodable() ==> r == Ok::<usize, ApduError>(self.spec_encode().len() as usize)
                && self.spec_encode().len() <= usize::MAX,
            !self.spec_encodable() ==> r == Err::<usize, ApduError>(ApduError::InvalidLength),
    ;

    /// Encode into the front of `buff`, returning the number of bytes written.
    fn encode(&self, buff: &mut [u8]) -> (r: Result<usize, ApduError>)
        ensures
            self.spec_encodable() && self.spec_encode().len() <= old(buff)@.len() ==> {
                &&& r == Ok::<usize, ApduError>(self.spec_encode().len() as usize)
                &&& final(buff)@ == self.spec_encode() + old(buff)@.subrange(
                    self.spec_encode().len() as int,
                    old(buff)@.len() as int,
                )
            },
            !(self.spec_encodable() && self.spec_encode().len() <= old(buff)@.len()) ==> {
                &&& r == Err::<usize, ApduError>(ApduError::InvalidLength)
                &&& final(buff)@ == old(buff)@
            },
    ;
}

/// A value that can be read back from the front of a byte buffer.
pub trait Decode: Sized {
    /// What a decoded value holds.
    type Model;

    /// What this value holds.
    spec fn spec_model(&self) -> Self::Model;

    /// The value that `b` starts with and how many bytes it takes, or why there is none.
    spec fn spec_decode(b: Seq<u8>) -> Result<(Self::Model, nat), ApduError>;

    /// Decode a value from the front of `buff`, returning it and the bytes it took.
    fn decode(buff: &[u8]) -> (r: Result<(Self, usize), ApduError>)
        ensures
            match Self::spec_decode(buff@) {
                Ok((v, n)) => r is Ok && r->Ok_0.0.spec_model() == v && r->Ok_0.1 == n,
                Err(e) => r == Err::<(Self, usize), ApduError>(e),
            },
    ;
}

/// An APDU command: a value with a header that says where it goes.
pub trait ApduCmd: Encode {
    /// The header of this command.
    spec fn spec_header(&self) -> ApduHeader;

    /// Fetch the APDU header for encoding.
    fn header(&self) -> (r: ApduHeader)
        ensures
            r == self.spec_header(),
            r.len == self.spec_encode().len() as u8,
    ;
}

/// A header decodes back from its encoding: five bytes determine the header they encode.
pub proof fn lemma_header_round_trip(h: ApduHeader, d: ApduHeader)
    requires
        d.spec_bytes() == h.spec_bytes(),
    ensures
        d == h,
{
    assert(d.spec_bytes()[0] == h.spec_bytes()[0]);
    assert(d.spec_bytes()[1] == h.spec_bytes()[1]);
    assert(d.spec_bytes()[2] == h.spec_bytes()[2]);
    assert(d.spec_bytes()[3] == h.spec_bytes()[3]);
    assert(d.spec_bytes()[4] == h.spec_bytes()[4]);
}

} // verus!
