//! USB HID framing: an APDU is split into fixed-size reports, each tagged with the
//! channel, a constant tag and a sequence index; the first report also carries the total
//! length. Reading reassembles an answer from such reports.
use vstd::prelude::*;

use crate::bytes::{be16, be16_bytes, copy_range, extend_range, read_be_u16};
use crate::apdu::{answer_payload, answer_status, APDUAnswer, APDUCommand};
use crate::error::spec_error_description;
use crate::exchange::SW_NO_ERROR;

verus! {

/// Vendor id of Ledger devices.
pub const LEDGER_VID: u16 = 0x2c97;

/// HID usage page of a Ledger device's APDU interface.
pub const LEDGER_USAGE_PAGE: u16 = 0xFFA0;

/// Channel that APDUs are exchanged on.
pub const LEDGER_CHANNEL: u16 = 0x0101;

/// Tag of every APDU report.
pub const LEDGER_TAG: u8 = 0x05;

/// Size of one report as it is read.
pub const LEDGER_PACKET_READ_SIZE: usize = 64;

/// Size of one report as it is written: a zero report id, then the 64-byte report.
pub const LEDGER_PACKET_WRITE_SIZE: usize = 65;

/// Bytes of the message that each report carries after its 5 header bytes.
pub const LEDGER_CHUNK_SIZE: usize = 59;

/// Read timeout of one report, as the device layer counts it.
pub const LEDGER_TIMEOUT: i32 = 10_000_000;

/// Largest message that the two-byte total length can announce.
pub const MAX_HID_MESSAGE_LEN: usize = 0xFFFF;

/// Text of an answer report that is too short for its header.
pub const ERR_INCOMPLETE_HEADER: &'static str = "Read error. Incomplete header";

/// Text of a report whose sequence index is not the next one.
pub const ERR_INVALID_SEQUENCE: &'static str = "Invalid sequence idx";

/// Text of a report that the device did not take whole.
pub const ERR_SHORT_WRITE: &'static str = "USB write error. Could not send whole message";

/// Text of an answer without a full status word.
pub const ERR_SHORT_RESPONSE: &'static str = "response was too short";

/// Text of reports that ended before the answer was complete.
pub const ERR_INCOMPLETE_ANSWER: &'static str = "Read error. Incomplete answer";

/// Text of a command too long for the two-byte total length.
pub const ERR_COMMAND_TOO_LONG: &'static str = "APDU command too long";

/// Errors of the HID transport.
#[derive(Clone, Debug, PartialEq, Eq)]
pub enum Error {
    /// No Ledger device was found
    DeviceNotFound,
    /// The framing or the device's reports went wrong
    Comm(&'static str),
    /// The device answered with a status word other than success: the word and its text
    Apdu(u16, &'static str),
    /// The device layer failed
    Hid(String),
}

/// Whether a device with this vendor id and usage page is a Ledger's APDU interface.
pub open spec fn spec_is_ledger(vendor_id: u16, usage_page: u16) -> bool {
    vendor_id == LEDGER_VID && usage_page == LEDGER_USAGE_PAGE
}

/// Whether a device with this vendor id and usage page is a Ledger's APDU interface.
pub fn is_ledger(vendor_id: u16, usage_page: u16) -> (r: bool)
    ensures
        r == spec_is_ledger(vendor_id, usage_page),
{
    vendor_id == LEDGER_VID && usage_page == LEDGER_USAGE_PAGE
}

/// The first of `devices`, given as vendor id and usage page, that is a Ledger.
pub fn first_ledger(devices: &[(u16, u16)]) -> (r: Result<usize, Error>)
    ensures
        match r {
            Ok(i) => i < devices@.len() && spec_is_ledger(devices@[i as int].0, devices@[i as int].1)
                && forall|j: int|
                0 <= j < i ==> !spec_is_ledger(#[trigger] devices@[j].0, devices@[j].1),
            Err(e) => e == Error::DeviceNotFound && forall|j: int|
                0 <= j < devices@.len() ==> !spec_is_ledger(#[trigger] devices@[j].0, devices@[j].1),
        },
{
    let mut i: usize = 0;
    while i < devices.len()
        invariant
            i <= devices@.len(),
            forall|j: int| 0 <= j < i ==> !spec_is_ledger(#[trigger] devices@[j].0, devices@[j].1),
        decreases devices@.len() - i,
    {
        if is_ledger(devices[i].0, devices[i].1) {
            return Ok(i);
        }
        i = i + 1;
    }
    Err(Error::DeviceNotFound)
}

/// The error for a status word other than success: the word itself and its text.
pub open spec fn spec_map_apdu_error(retcode: u16) -> Error {
    Error::Apdu(retcode, spec_error_description(retcode))
}

/// Returns the error for a status word other than success.
pub fn map_apdu_error(retcode: u16) -> (r: Error)
    ensures
        r == spec_map_apdu_error(retcode),
{
    Error::Apdu(retcode, crate::error::map_apdu_error_description(retcode))
}

/// The message that the reports of a command carry: its two-byte length, then the command.
pub open spec fn spec_hid_message(cmd: Seq<u8>) -> Seq<u8> {
    be16_bytes(cmd.len() as u16) + cmd
}

/// How many reports a message of `n` bytes takes.
pub open spec fn spec_report_count(n: nat) -> nat {
    n / 59 + if n % 59 == 0 {
        0nat
    } else {
        1nat
    }
}

/// The piece of `m` that report `i` carries.
pub open spec fn spec_report_piece(m: Seq<u8>, i: int) -> Seq<u8> {
    let start = 59 * i;
    let end = if start + 59 <= m.len() {
        start + 59
    } else {
        m.len() as int
    };
    m.subrange(start, end)
}

/// Report `i` of message `m` on `channel`: channel, tag, sequence index, the piece,
/// then zeros up to 64 bytes.
pub open spec fn spec_report(channel: u16, m: Seq<u8>, i: int) -> Seq<u8> {
    let piece = spec_report_piece(m, i);
    be16_bytes(channel) + seq![LEDGER_TAG] + be16_bytes(i as u16) + piece + Seq::new(
        (59 - piece.len()) as nat,
        |k: int| 0u8,
    )
}

/// Split a command into the reports that carry it on `channel`, each 64 bytes.
pub fn hid_reports(channel: u16, apdu_command: &[u8]) -> (r: Vec<Vec<u8>>)
    requires
        apdu_command@.len() <= MAX_HID_MESSAGE_LEN,
    ensures
        r@.len() == spec_report_count(spec_hid_message(apdu_command@).len()),
        forall|i: int|
            0 <= i < r@.len() ==> (#[trigger] r@[i])@ == spec_report(
                channel,
                spec_hid_message(apdu_command@),
                i,
            ),
        spec_packets(r@) == spec_reports(channel, apdu_command@),
{
    let n = apdu_command.len();
    let mut msg: Vec<u8> = Vec::with_capacity(n + 2);
    msg.push((n / 256) as u8);
    msg.push((n % 256) as u8);
    extend_range(&mut msg, apdu_command, 0, n);
    assert(msg@ =~= spec_hid_message(apdu_command@));
    let total = msg.len();
    let mut r: Vec<Vec<u8>> = Vec::new();
    let mut start: usize = 0;
    while start < total
        invariant
            total == msg@.len(),
            msg@ == spec_hid_message(apdu_command@),
            total <= MAX_HID_MESSAGE_LEN + 2,
            start == (if 59 * r@.len() <= total {
                59 * r@.len() as int
            } else {
                total as int
            }),
            r@.len() <= spec_report_count(total as nat),
            start >= total ==> r@.len() == spec_report_count(total as nat),
            forall|i: int|
                0 <= i < r@.len() ==> (#[trigger] r@[i])@ == spec_report(channel, msg@, i),
        decreases total - start,
    {
        let ghost i = r@.len() as int;
        assert(start == 59 * i);
        assert(i < spec_report_count(total as nat)) by (nonlinear_arith)
            requires
                start == 59 * i,
                start < total,
                spec_report_count(total as nat) == total / 59 + if total % 59 == 0 {
                    0nat
                } else {
                    1nat
                },
        ;
        let end = if total - start > LEDGER_CHUNK_SIZE {
            start + LEDGER_CHUNK_SIZE
        } else {
            total
        };
        let seq_idx = r.len();
        assert(seq_idx < 0x10000) by (nonlinear_arith)
            requires
                seq_idx == i,
                59 * i < total,
                total <= MAX_HID_MESSAGE_LEN + 2,
        ;
        let mut report: Vec<u8> = Vec::with_capacity(LEDGER_PACKET_READ_SIZE);
        report.push((channel / 256) as u8);
        report.push((channel % 256) as u8);
        report.push(LEDGER_TAG);
        report.push((seq_idx / 256) as u8);
        report.push((seq_idx % 256) as u8);
        extend_range(&mut report, msg.as_slice(), start, end);
        let ghost with_piece = report@;
        assert(with_piece.subrange(5, 5 + (end - start)) =~= msg@.subrange(start as int, end as int));
        while report.len() < LEDGER_PACKET_READ_SIZE
            invariant
                start <= end,
                end - start <= LEDGER_CHUNK_SIZE,
                5 + (end - start) <= report@.len() <= LEDGER_PACKET_READ_SIZE,
                report@.subrange(0, 5 + (end - start)) == with_piece,
                forall|k: int| 5 + (end - start) <= k < report@.len() ==> report@[k] == 0u8,
            decreases LEDGER_PACKET_READ_SIZE - report@.len(),
        {
            report.push(0u8);
        }
        let ghost piece = spec_report_piece(msg@, i);
        assert(piece =~= msg@.subrange(start as int, end as int));
        assert(report@.len() == 64);
        assert(report@.subrange(0, 5) =~= be16_bytes(channel) + seq![LEDGER_TAG] + be16_bytes(
            i as u16,
        ));
        assert(report@.subrange(5, 5 + piece.len() as int) =~= report@.subrange(
            0,
            5 + (end - start),
        ).subrange(5, 5 + (end - start)));
        assert(report@.subrange(5, 5 + piece.len() as int) =~= piece);
        assert(report@.subrange(5 + piece.len() as int, 64) =~= Seq::new(
            (59 - piece.len()) as nat,
            |k: int| 0u8,
        ));
        assert(report@ =~= report@.subrange(0, 5) + report@.subrange(5, 5 + piece.len() as int)
            + report@.subrange(5 + piece.len() as int, 64));
        assert(report@ =~= spec_report(channel, msg@, i));
        r.push(report);
        start = end;
        proof {
            if end >= total {
                assert(59 * r@.len() >= total) by (nonlinear_arith)
                    requires
                        59 * i + 59 >= total,
                        r@.len() == i + 1,
                ;
                assert(r@.len() == spec_report_count(total as nat)) by (nonlinear_arith)
                    requires
                        59 * r@.len() >= total,
                        59 * (r@.len() - 1) < total,
                        spec_report_count(total as nat) == total / 59 + if total % 59 == 0 {
                            0nat
                        } else {
                            1nat
                        },
                ;
            } else {
                assert(end == 59 * r@.len());
            }
        }
    }
    assert(spec_packets(r@) =~= spec_reports(channel, apdu_command@));
    r
}

/// The buffer written for one report: a zero report id, then the report.
pub fn write_buffer(report: &[u8]) -> (r: Vec<u8>)
    ensures
        r@ == seq![0u8] + report@,
{
    let mut r: Vec<u8> = Vec::new();
    r.push(0u8);
    extend_range(&mut r, report, 0, report.len());
    r
}

/// Checks what the device layer took of a report written to it: all of it, or the
/// exchange fails.
pub fn check_write(written: usize, len: usize) -> (r: Result<(), Error>)
    ensures
        written >= len ==> r is Ok,
        written < len ==> r == Err::<(), Error>(Error::Comm(ERR_SHORT_WRITE)),
{
    if written < len {
        return Err(Error::Comm(ERR_SHORT_WRITE));
    }
    Ok(())
}

/// Whether a report's channel and tag are the ones sent. Some platforms rewrite them, so
/// this is a consistency check only, never a reason to fail.
pub fn header_consistent(packet: &[u8], channel: u16) -> (r: bool)
    ensures
        r == (packet@.len() >= 3 && be16(packet@[0], packet@[1]) == channel && packet@[2]
            == LEDGER_TAG),
{
    packet.len() >= 3 && read_be_u16(packet, 0) == channel && packet[2] == LEDGER_TAG
}

/// Where a reassembly stands: the next sequence index, the announced length, the bytes
/// gathered so far, and whether the answer is complete.
pub struct HidReaderView {
    pub seq: nat,
    pub expected: nat,
    pub answer: Seq<u8>,
    pub done: bool,
}

/// The state before any report.
pub open spec fn spec_reader_start() -> HidReaderView {
    HidReaderView { seq: 0, expected: 0, answer: Seq::empty(), done: false }
}

/// One step of reassembly: the state after report `p`, or the text of the error it causes.
/// The header must be whole, the sequence index the next one; the first report announces
/// the total length; bytes past that length are dropped.
pub open spec fn spec_feed(s: HidReaderView, p: Seq<u8>) -> Result<HidReaderView, &'static str> {
    if s.done {
        Ok(s)
    } else if (s.seq == 0 && p.len() < 7) || p.len() < 5 {
        Err(ERR_INCOMPLETE_HEADER)
    } else if be16(p[3], p[4]) != s.seq {
        Err(ERR_INVALID_SEQUENCE)
    } else {
        let expected: nat = if s.seq == 0 {
            be16(p[5], p[6]) as nat
        } else {
            s.expected
        };
        let pos: int = if s.seq == 0 {
            7
        } else {
            5
        };
        let available = p.len() - pos;
        let missing = expected - s.answer.len();
        let take = if available < missing {
            available
        } else {
            missing
        };
        let answer = s.answer + p.subrange(pos, pos + take);
        let done = answer.len() >= expected;
        Ok(
            HidReaderView {
                seq: if done {
                    s.seq
                } else {
                    s.seq + 1
                },
                expected,
                answer,
                done,
            },
        )
    }
}

/// Reassembly over a sequence of reports: the state after all of them, or the first error.
pub open spec fn spec_feed_all(s: HidReaderView, ps: Seq<Seq<u8>>) -> Result<HidReaderView, &'static str>
    decreases ps.len(),
{
    if ps.len() == 0 {
        Ok(s)
    } else {
        match spec_feed(s, ps[0]) {
            Err(e) => Err(e),
            Ok(t) => spec_feed_all(t, ps.drop_first()),
        }
    }
}

/// Reassembles an answer from the reports read one after the other.
pub struct HidReader {
    seq: u32,
    expected: usize,
    answer: Vec<u8>,
    done: bool,
}

impl View for HidReader {
    type V = HidReaderView;

    closed spec fn view(&self) -> HidReaderView {
        HidReaderView {
            seq: self.seq as nat,
            expected: self.expected as nat,
            answer: self.answer@,
            done: self.done,
        }
    }
}

impl HidReader {
    /// The bounds that every reachable state keeps.
    pub open spec fn wf(&self) -> bool {
        &&& self@.seq <= 0x10000
        &&& self@.expected <= 0xFFFF
        &&& self@.answer.len() <= self@.expected
        &&& self@.seq == 0 && !self@.done ==> self@.answer.len() == 0
        &&& self@.seq > 0 && !self@.done ==> self@.answer.len() < self@.expected
    }

    /// A reader before any report.
    pub fn new() -> (r: HidReader)
        ensures
            r@ == spec_reader_start(),
            r.wf(),
    {
        let r = HidReader { seq: 0, expected: 0, answer: Vec::new(), done: false };
        assert(r@.answer =~= Seq::<u8>::empty());
        r
    }

    /// Takes in one report; `Ok(true)` once the answer is complete. On an error the state
    /// stays as it was.
    pub fn feed(&mut self, packet: &[u8]) -> (r: Result<bool, Error>)
        requires
            old(self).wf(),
        ensures
            final(self).wf(),
            match spec_feed(old(self)@, packet@) {
                Ok(s) => r == Ok::<bool, Error>(s.done) && final(self)@ == s,
                Err(m) => r == Err::<bool, Error>(Error::Comm(m)) && final(self)@ == old(self)@,
            },
            r == Ok::<bool, Error>(false) ==> final(self)@.seq == old(self)@.seq + 1,
    {
        if self.done {
            return Ok(true);
        }
        let n = packet.len();
        if (self.seq == 0 && n < 7) || n < 5 {
            return Err(Error::Comm(ERR_INCOMPLETE_HEADER));
        }
        let rcv_seq = read_be_u16(packet, 3);
        if rcv_seq as u32 != self.seq {
            return Err(Error::Comm(ERR_INVALID_SEQUENCE));
        }
        let pos: usize = if self.seq == 0 {
            self.expected = read_be_u16(packet, 5) as usize;
            7
        } else {
            5
        };
        let available = n - pos;
        assert(self.answer@.len() <= self.expected);
        let missing = self.expected - self.answer.len();
        let take = if available < missing {
            available
        } else {
            missing
        };
        extend_range(&mut self.answer, packet, pos, pos + take);
        if self.answer.len() >= self.expected {
            self.done = true;
            Ok(true)
        } else {
            self.seq = self.seq + 1;
            Ok(false)
        }
    }

    /// Whether the answer is complete.
    pub fn is_done(&self) -> (r: bool)
        ensures
            r == self@.done,
    {
        self.done
    }

    /// The bytes gathered so far.
    pub fn answer(&self) -> (r: &Vec<u8>)
        ensures
            r@ == self@.answer,
    {
        &self.answer
    }
}

/// The views of a sequence of reports.
pub open spec fn spec_packets(ps: Seq<Vec<u8>>) -> Seq<Seq<u8>> {
    ps.map_values(|p: Vec<u8>| p@)
}

/// Reassembly from a complete answer on stays where it is.
proof fn lemma_feed_all_done(s: HidReaderView, ps: Seq<Seq<u8>>)
    requires
        s.done,
    ensures
        spec_feed_all(s, ps) == Ok::<HidReaderView, &'static str>(s),
    decreases ps.len(),
{
    if ps.len() > 0 {
        lemma_feed_all_done(s, ps.drop_first());
    }
}

/// The answer that reports `ps` reassemble to: the bytes gathered once the announced length
/// is reached, the first report's error, or an error when the reports end too soon.
pub open spec fn spec_reassemble(ps: Seq<Seq<u8>>) -> Result<Seq<u8>, &'static str> {
    match spec_feed_all(spec_reader_start(), ps) {
        Err(e) => Err(e),
        Ok(s) => if s.done {
            Ok(s.answer)
        } else {
            Err(ERR_INCOMPLETE_ANSWER)
        },
    }
}

/// Reassembles an answer from reports read one after the other.
pub fn reassemble(packets: &Vec<Vec<u8>>) -> (r: Result<Vec<u8>, Error>)
    ensures
        match spec_reassemble(spec_packets(packets@)) {
            Ok(a) => r is Ok && r->Ok_0@ == a,
            Err(m) => r == Err::<Vec<u8>, Error>(Error::Comm(m)),
        },
{
    let ghost ps = spec_packets(packets@);
    let mut reader = HidReader::new();
    let mut i: usize = 0;
    assert(ps.subrange(0, ps.len() as int) =~= ps);
    while i < packets.len()
        invariant
            i <= packets@.len(),
            ps == spec_packets(packets@),
            reader.wf(),
            !reader@.done,
            spec_feed_all(spec_reader_start(), ps) == spec_feed_all(reader@, ps.subrange(i as int, ps.len() as int)),
        decreases packets@.len() - i,
    {
        let ghost before = reader@;
        assert(ps.subrange(i as int, ps.len() as int).drop_first() =~= ps.subrange(i + 1, ps.len() as int));
        match reader.feed(packets[i].as_slice()) {
            Ok(true) => {
                proof {
                    lemma_feed_all_done(reader@, ps.subrange(i + 1, ps.len() as int));
                }
                let answer = copy_range(reader.answer().as_slice(), 0, reader.answer().len());
                return Ok(answer);
            },
            Ok(false) => {},
            Err(e) => return Err(e),
        }
        i = i + 1;
    }
    assert(ps.subrange(i as int, ps.len() as int) =~= Seq::<Seq<u8>>::empty());
    Err(Error::Comm(ERR_INCOMPLETE_ANSWER))
}

/// An APDU command with its length field given explicitly.
#[derive(Debug)]
pub struct ApduCommand {
    /// Class
    pub cla: u8,
    /// Instruction
    pub ins: u8,
    /// First parameter
    pub p1: u8,
    /// Second parameter
    pub p2: u8,
    /// Length field, as sent
    pub length: u8,
    /// Payload
    pub data: Vec<u8>,
}

impl ApduCommand {
    /// The wire form of this command: the four header bytes, the length field, the payload.
    pub open spec fn spec_serialize(&self) -> Seq<u8> {
        seq![self.cla, self.ins, self.p1, self.p2, self.length] + self.data@
    }

    /// Serialize this command to be sent to the device.
    pub fn serialize(&self) -> (r: Vec<u8>)
        ensures
            r@ == self.spec_serialize(),
    {
        let mut v: Vec<u8> = Vec::new();
        v.push(self.cla);
        v.push(self.ins);
        v.push(self.p1);
        v.push(self.p2);
        v.push(self.length);
        extend_range(&mut v, self.data.as_slice(), 0, self.data.len());
        v
    }
}

/// An answer of the device: its payload and status word.
#[derive(Debug)]
pub struct ApduAnswer {
    /// Payload
    pub data: Vec<u8>,
    /// Status word
    pub retcode: u16,
}

/// Turns a reassembled answer into payload and status word; a status word other than
/// success is the error that goes with it.
pub fn answer_from_reply(answer: &Vec<u8>) -> (r: Result<ApduAnswer, Error>)
    ensures
        answer@.len() < 2 ==> r == Err::<ApduAnswer, Error>(Error::Comm(ERR_SHORT_RESPONSE)),
        answer@.len() >= 2 && answer_status(answer@) != SW_NO_ERROR ==> r == Err::<
            ApduAnswer,
            Error,
        >(spec_map_apdu_error(answer_status(answer@))),
        answer@.len() >= 2 && answer_status(answer@) == SW_NO_ERROR ==> r is Ok && r->Ok_0.data@
            == answer_payload(answer@) && r->Ok_0.retcode == SW_NO_ERROR,
{
    let n = answer.len();
    if n < 2 {
        return Err(Error::Comm(ERR_SHORT_RESPONSE));
    }
    let retcode = read_be_u16(answer.as_slice(), n - 2);
    if retcode != SW_NO_ERROR {
        return Err(map_apdu_error(retcode));
    }
    Ok(ApduAnswer { data: copy_range(answer.as_slice(), 0, n - 2), retcode })
}

/// The raw reports of one HID device: what the device layer offers.
pub trait HidDevice {
    /// Write one buffer; returns how many bytes the device took.
    fn write(&self, data: &[u8]) -> Result<usize, String>;

    /// Read one report, waiting at most `timeout`; returns the bytes read.
    fn read_timeout(&self, timeout: i32) -> Result<Vec<u8>, String>;
}

/// Reassembly over `ps` followed by `p` is reassembly over `ps`, then one more step.
proof fn lemma_feed_all_push(s: HidReaderView, ps: Seq<Seq<u8>>, p: Seq<u8>)
    ensures
        spec_feed_all(s, ps.push(p)) == match spec_feed_all(s, ps) {
            Ok(t) => spec_feed(t, p),
            Err(e) => Err(e),
        },
    decreases ps.len(),
{
    if ps.len() == 0 {
        assert(ps.push(p).drop_first() =~= Seq::<Seq<u8>>::empty());
        assert(ps.push(p)[0] == p);
        match spec_feed(s, p) {
            Ok(t) => {
                assert(spec_feed_all(t, Seq::<Seq<u8>>::empty()) == Ok::<HidReaderView, &'static str>(t));
            },
            Err(_) => {},
        }
    } else {
        assert(ps.push(p).drop_first() =~= ps.drop_first().push(p));
        assert(ps.push(p)[0] == ps[0]);
        match spec_feed(s, ps[0]) {
            Ok(t) => lemma_feed_all_push(t, ps.drop_first(), p),
            Err(_) => {},
        }
    }
}

/// Whether `a` is what some sequence of reports reassembles to.
pub open spec fn spec_received(a: Seq<u8>) -> bool {
    exists|ps: Seq<Seq<u8>>| spec_reassemble(ps) == Ok::<Seq<u8>, &'static str>(a)
}

/// The errors of the device layer and of the reports themselves.
pub open spec fn is_link_error(e: Error) -> bool {
    ||| e is Hid
    ||| e == Error::Comm(ERR_SHORT_WRITE)
    ||| e == Error::Comm(ERR_INCOMPLETE_HEADER)
    ||| e == Error::Comm(ERR_INVALID_SEQUENCE)
}

/// A Ledger device reached over HID.
///
/// The device is opened by the caller and handed in; it is owned here and closed when this
/// value is dropped or closed.
pub struct LedgerApp<D> {
    device: D,
    logging: bool,
    headers_consistent: bool,
}

impl<D: HidDevice> LedgerApp<D> {
    /// Whether exchanges are traced; tracing itself is left to the device layer.
    pub closed spec fn spec_logging(&self) -> bool {
        self.logging
    }

    /// The device this app talks to.
    pub closed spec fn spec_device(&self) -> D {
        self.device
    }

    /// Whether every report of the last answer carried the channel and tag that were sent.
    pub closed spec fn spec_headers_consistent(&self) -> bool {
        self.headers_consistent
    }

    /// Wraps an opened device; tracing is off.
    pub fn new(device: D) -> (r: Self)
        ensures
            !r.spec_logging(),
            r.spec_device() == device,
            r.spec_headers_consistent(),
    {
        LedgerApp { device, logging: false, headers_consistent: true }
    }

    /// Whether exchanges are traced.
    pub fn logging(&self) -> (r: bool)
        ensures
            r == self.spec_logging(),
    {
        self.logging
    }

    /// Turns tracing on or off; nothing else changes.
    pub fn set_logging(&mut self, val: bool)
        ensures
            final(self).spec_logging() == val,
            final(self).spec_device() == old(self).spec_device(),
            final(self).spec_headers_consistent() == old(self).spec_headers_consistent(),
    {
        self.logging = val;
    }

    /// Whether every report of the last answer carried the channel and tag that were sent.
    /// Some platforms rewrite them, so a mismatch is recorded here and is never an error.
    pub fn headers_consistent(&self) -> (r: bool)
        ensures
            r == self.spec_headers_consistent(),
    {
        self.headers_consistent
    }

    /// The device this app talks to.
    pub fn device(&self) -> (r: &D)
        ensures
            *r == self.spec_device(),
    {
        &self.device
    }

    /// Writes the reports of a command, each whole, in order; stops at the first failure.
    fn write_apdu(&self, channel: u16, apdu_command: &[u8]) -> (r: Result<(), Error>)
        requires
            apdu_command@.len() <= MAX_HID_MESSAGE_LEN,
        ensures
            r matches Err(e) ==> e is Hid || e == Error::Comm(ERR_SHORT_WRITE),
    {
        let reports = hid_reports(channel, apdu_command);
        let mut i: usize = 0;
        while i < reports.len()
            invariant
                i <= reports@.len(),
            decreases reports@.len() - i,
        {
            let buffer = write_buffer(reports[i].as_slice());
            let written = match self.device.write(buffer.as_slice()) {
                Ok(n) => n,
                Err(e) => return Err(Error::Hid(e)),
            };
            match check_write(written, buffer.len()) {
                Ok(()) => {},
                Err(e) => return Err(e),
            }
            i = i + 1;
        }
        Ok(())
    }

    /// Reads reports until the answer is complete; stops at the first error. Returns the
    /// answer that the reports read reassemble to, and whether all their headers carried
    /// the channel and tag sent.
    fn read_apdu(&self) -> (r: Result<(Vec<u8>, bool), Error>)
        ensures
            match r {
                Ok((a, _)) => spec_received(a@),
                Err(e) => is_link_error(e),
            },
    {
        let mut reader = HidReader::new();
        let mut consistent = true;
        let ghost mut ps: Seq<Seq<u8>> = Seq::empty();
        loop
            invariant
                reader.wf(),
                !reader@.done,
                spec_feed_all(spec_reader_start(), ps) == Ok::<HidReaderView, &'static str>(
                    reader@,
                ),
            decreases 0x10000 - reader@.seq,
        {
            let packet = match self.device.read_timeout(LEDGER_TIMEOUT) {
                Ok(p) => p,
                Err(e) => return Err(Error::Hid(e)),
            };
            consistent = consistent && header_consistent(packet.as_slice(), LEDGER_CHANNEL);
            let ghost before = reader@;
            let fed = reader.feed(packet.as_slice());
            proof {
                lemma_feed_all_push(spec_reader_start(), ps, packet@);
                ps = ps.push(packet@);
            }
            match fed {
                Ok(true) => {
                    let answer = copy_range(reader.answer().as_slice(), 0, reader.answer().len());
                    assert(spec_feed(before, packet@) == Ok::<HidReaderView, &'static str>(reader@));
                    assert(spec_feed_all(spec_reader_start(), ps) == Ok::<HidReaderView, &'static str>(reader@));
                    assert(reader@.done);
                    assert(answer@ =~= reader@.answer);
                    assert(spec_reassemble(ps) == Ok::<Seq<u8>, &'static str>(answer@));
                    return Ok((answer, consistent));
                },
                Ok(false) => {},
                Err(e) => return Err(e),
            }
        }
    }

    /// Exchange one serialized command for the device's raw answer.
    fn exchange_raw(&mut self, apdu_command: &[u8]) -> (r: Result<Vec<u8>, Error>)
        ensures
            apdu_command@.len() > MAX_HID_MESSAGE_LEN ==> r == Err::<Vec<u8>, Error>(
                Error::Comm(ERR_COMMAND_TOO_LONG),
            ),
            apdu_command@.len() <= MAX_HID_MESSAGE_LEN ==> match r {
                Ok(a) => spec_received(a@),
                Err(e) => is_link_error(e),
            },
            final(self).spec_logging() == old(self).spec_logging(),
            final(self).spec_device() == old(self).spec_device(),
    {
        if apdu_command.len() > MAX_HID_MESSAGE_LEN {
            return Err(Error::Comm(ERR_COMMAND_TOO_LONG));
        }
        match self.write_apdu(LEDGER_CHANNEL, apdu_command) {
            Ok(()) => {},
            Err(e) => return Err(e),
        }
        match self.read_apdu() {
            Ok((answer, consistent)) => {
                self.headers_consistent = consistent;
                Ok(answer)
            },
            Err(e) => Err(e),
        }
    }

    /// Sends a command and returns the device's answer; a status word other than success
    /// is the error that carries it. The exchange borrows the app exclusively, so the
    /// reports of two exchanges never interleave.
    pub fn exchange(&mut self, command: ApduCommand) -> (r: Result<ApduAnswer, Error>)
        ensures
            command.spec_serialize().len() > MAX_HID_MESSAGE_LEN ==> r == Err::<ApduAnswer, Error>(
                Error::Comm(ERR_COMMAND_TOO_LONG),
            ),
            command.spec_serialize().len() <= MAX_HID_MESSAGE_LEN ==> match r {
                Ok(a) => a.retcode == SW_NO_ERROR && exists|raw: Seq<u8>|
                    #[trigger] spec_received(raw) && raw.len() >= 2 && answer_status(raw)
                        == SW_NO_ERROR && a.data@ == answer_payload(raw),
                Err(e) => is_link_error(e) || e == Error::Comm(ERR_SHORT_RESPONSE) || (e is Apdu
                    && e->Apdu_0 != SW_NO_ERROR && e == spec_map_apdu_error(e->Apdu_0)),
            },
            final(self).spec_logging() == old(self).spec_logging(),
            final(self).spec_device() == old(self).spec_device(),
    {
        let serialized = command.serialize();
        let answer = match self.exchange_raw(serialized.as_slice()) {
            Ok(a) => a,
            Err(e) => return Err(e),
        };
        answer_from_reply(&answer)
    }

    /// Sends a command and returns the device's answer as payload and status word, whatever
    /// the status word; an answer shorter than a status word is a communication error.
    pub fn exchange_apdu(&mut self, command: &APDUCommand) -> (r: Result<APDUAnswer, Error>)
        requires
            command.wf(),
        ensures
            match r {
                Ok(a) => exists|raw: Seq<u8>|
                    #[trigger] spec_received(raw) && raw.len() >= 2 && a.spec_data()
                        == answer_payload(raw) && a.spec_retcode() == answer_status(raw),
                Err(e) => is_link_error(e) || e == Error::Comm(ERR_SHORT_RESPONSE),
            },
            final(self).spec_logging() == old(self).spec_logging(),
            final(self).spec_device() == old(self).spec_device(),
    {
        let serialized = command.serialize();
        let answer = match self.exchange_raw(serialized.as_slice()) {
            Ok(a) => a,
            Err(e) => return Err(e),
        };
        let ghost raw = answer@;
        match APDUAnswer::from_answer(answer) {
            Ok(a) => Ok(a),
            Err(_) => Err(Error::Comm(ERR_SHORT_RESPONSE)),
        }
    }

    /// Closes the device.
    pub fn close(self) {
    }
}

/// The reports that carry command `cmd` on `channel`.
pub open spec fn spec_reports(channel: u16, cmd: Seq<u8>) -> Seq<Seq<u8>> {
    let m = spec_hid_message(cmd);
    Seq::new(spec_report_count(m.len()), |i: int| spec_report(channel, m, i))
}

/// The state of reassembly after the first `k` reports of `cmd`.
spec fn spec_state_after(cmd: Seq<u8>, k: nat) -> HidReaderView {
    if k == 0 {
        spec_reader_start()
    } else {
        let got = 59 * k - 2;
        let done = got >= cmd.len();
        HidReaderView {
            seq: if done {
                (k - 1) as nat
            } else {
                k
            },
            expected: cmd.len(),
            answer: cmd.subrange(0, if done {
                cmd.len() as int
            } else {
                got
            }),
            done,
        }
    }
}

proof fn lemma_be16_round_trip(v: u16)
    ensures
        be16(be16_bytes(v)[0], be16_bytes(v)[1]) == v,
{
    assert((v / 256) as int * 256 + (v % 256) as int == v) by (nonlinear_arith);
}

/// Each report moves reassembly from the state after the reports before it to the next.
proof fn lemma_report_step(channel: u16, cmd: Seq<u8>, k: nat)
    requires
        cmd.len() <= MAX_HID_MESSAGE_LEN,
        59 * k < cmd.len() + 2,
    ensures
        !spec_state_after(cmd, k).done,
        spec_feed(
            spec_state_after(cmd, k),
            spec_report(channel, spec_hid_message(cmd), k as int),
        ) == Ok::<HidReaderView, &'static str>(spec_state_after(cmd, k + 1)),
{
    let m = spec_hid_message(cmd);
    let p = spec_report(channel, m, k as int);
    let piece = spec_report_piece(m, k as int);
    let s = spec_state_after(cmd, k);
    let n = cmd.len();
    assert(p.len() == 64);
    assert(p[3] == be16_bytes(k as u16)[0] && p[4] == be16_bytes(k as u16)[1]);
    lemma_be16_round_trip(k as u16);
    assert(k < 0x10000);
    assert(forall|j: int| 0 <= j < piece.len() ==> p[5 + j] == #[trigger] piece[j]);
    assert(forall|j: int| 0 <= j < piece.len() ==> #[trigger] piece[j] == m[59 * k + j]);
    if k == 0 {
        assert(p[5] == m[0] && p[6] == m[1]);
        lemma_be16_round_trip(n as u16);
        assert(be16(p[5], p[6]) == n);
        let take = if 57 < n {
            57
        } else {
            n as int
        };
        assert(p.subrange(7, 7 + take) =~= cmd.subrange(0, take));
        let next = spec_feed(s, p)->Ok_0;
        assert(next.answer =~= spec_state_after(cmd, 1).answer);
    } else {
        let got = 59 * k - 2;
        let missing = n - got;
        let take = if 59 < missing {
            59
        } else {
            missing
        };
        assert(p.subrange(5, 5 + take) =~= cmd.subrange(got, got + take));
        let next = spec_feed(s, p)->Ok_0;
        assert(next.answer =~= spec_state_after(cmd, k + 1).answer);
    }
}

proof fn lemma_reports_fold(channel: u16, cmd: Seq<u8>, k: nat)
    requires
        cmd.len() <= MAX_HID_MESSAGE_LEN,
        k <= spec_report_count(cmd.len() + 2),
    ensures
        ({
            let rs = spec_reports(channel, cmd);
            spec_feed_all(spec_state_after(cmd, k), rs.subrange(k as int, rs.len() as int)) == Ok::<
                HidReaderView,
                &'static str,
            >(spec_state_after(cmd, spec_report_count(cmd.len() + 2)))
        }),
    decreases spec_report_count(cmd.len() + 2) - k,
{
    let rs = spec_reports(channel, cmd);
    let count = spec_report_count(cmd.len() + 2);
    assert(rs.len() == count);
    if k < count {
        assert(59 * k < cmd.len() + 2) by (nonlinear_arith)
            requires
                k < count,
                count == (cmd.len() + 2) / 59 + if (cmd.len() + 2) % 59 == 0 {
                    0nat
                } else {
                    1nat
                },
        ;
        lemma_report_step(channel, cmd, k);
        lemma_reports_fold(channel, cmd, k + 1);
        assert(rs.subrange(k as int, rs.len() as int).drop_first() =~= rs.subrange(
            k as int + 1,
            rs.len() as int,
        ));
    } else {
        assert(rs.subrange(k as int, rs.len() as int) =~= Seq::<Seq<u8>>::empty());
    }
}

/// The reports that carry a command reassemble to exactly that command.
pub proof fn lemma_reports_reassemble(channel: u16, cmd: Seq<u8>)
    requires
        cmd.len() <= MAX_HID_MESSAGE_LEN,
    ensures
        spec_reassemble(spec_reports(channel, cmd)) == Ok::<Seq<u8>, &'static str>(cmd),
{
    let rs = spec_reports(channel, cmd);
    let count = spec_report_count(cmd.len() + 2);
    lemma_reports_fold(channel, cmd, 0);
    assert(rs.subrange(0, rs.len() as int) =~= rs);
    assert(count >= 1 && 59 * count >= cmd.len() + 2) by (nonlinear_arith)
        requires
            count == (cmd.len() + 2) / 59 + if (cmd.len() + 2) % 59 == 0 {
                0nat
            } else {
                1nat
            },
    ;
    assert(spec_state_after(cmd, count).answer =~= cmd);
}

/// How many data bytes a short item with this key carries: its low two bits, where 3 means 4.
pub open spec fn spec_short_item_len(key: u8) -> int {
    if key & 3 == 3 {
        4
    } else {
        (key & 3) as int
    }
}

/// The usage page that a HID report descriptor declares from position `i` on: the value of
/// the first Usage Page item (one byte, or two least significant first), 0 when there is
/// none, when its data are cut off, or when it carries another number of bytes. Long items
/// (key `0xFx`) take three bytes of header and the data length in their second byte.
pub open spec fn spec_usage_page_from(d: Seq<u8>, i: nat) -> u16
    decreases d.len() - i,
{
    if i >= d.len() {
        0
    } else {
        let key = d[i as int];
        if key & 0xFC == 0x04 {
            let n = spec_short_item_len(key);
            if n == 1 && i + 1 < d.len() {
                d[i as int + 1] as u16
            } else if n == 2 && i + 2 < d.len() {
                be16(d[i as int + 2], d[i as int + 1])
            } else {
                0
            }
        } else if key & 0xF0 == 0xF0 {
            let n: nat = if i + 1 < d.len() {
                d[i as int + 1] as nat
            } else {
                0
            };
            let next = i + n + 3;
            if next >= d.len() {
                0
            } else {
                spec_usage_page_from(d, next)
            }
        } else {
            let next = (i + spec_short_item_len(key) + 1) as nat;
            if next >= d.len() {
                0
            } else {
                spec_usage_page_from(d, next)
            }
        }
    }
}

/// The usage page that a HID report descriptor declares.
pub fn usage_page_from_descriptor(data: &[u8]) -> (r: u16)
    ensures
        r == spec_usage_page_from(data@, 0),
{
    let size = data.len();
    let mut i: usize = 0;
    while i < size
        invariant
            size == data@.len(),
            spec_usage_page_from(data@, i as nat) == spec_usage_page_from(data@, 0),
        decreases size - i,
    {
        let key = data[i];
        let short_len: usize = if key & 3 == 3 {
            4
        } else {
            (key & 3) as usize
        };
        if key & 0xFC == 0x04 {
            if short_len == 1 && size - i > 1 {
                return data[i + 1] as u16;
            } else if short_len == 2 && size - i > 2 {
                return data[i + 2] as u16 * 256 + data[i + 1] as u16;
            } else {
                return 0;
            }
        }
        let step: usize = if key & 0xF0 == 0xF0 {
            3 + if size - i > 1 {
                data[i + 1] as usize
            } else {
                0
            }
        } else {
            short_len + 1
        };
        if step >= size - i {
            return 0;
        }
        i = i + step;
    }
    0
}

} // verus!
