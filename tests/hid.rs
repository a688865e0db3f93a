use std::cell::RefCell;
use std::collections::VecDeque;

use ledger_apdu_transport::apdu::{APDUAnswer, APDUCommand};
use ledger_apdu_transport::common::get_device_info;
use ledger_apdu_transport::exchange::Exchange;
use ledger_apdu_transport::hid::{
    answer_from_reply, check_write, first_ledger, header_consistent, hid_reports, is_ledger,
    map_apdu_error, reassemble, usage_page_from_descriptor, write_buffer, ApduCommand, Error, HidDevice, HidReader, LedgerApp,
    LEDGER_CHANNEL,
};

/// A device that answers with the reports it was given and records what was written.
struct FakeDevice {
    written: RefCell<Vec<Vec<u8>>>,
    reports: RefCell<VecDeque<Vec<u8>>>,
}

impl FakeDevice {
    fn answering(answer: &[u8]) -> FakeDevice {
        let reports = hid_reports(LEDGER_CHANNEL, answer);
        FakeDevice { written: RefCell::new(Vec::new()), reports: RefCell::new(reports.into()) }
    }
}

impl HidDevice for FakeDevice {
    fn write(&self, data: &[u8]) -> Result<usize, String> {
        self.written.borrow_mut().push(data.to_vec());
        Ok(data.len())
    }

    fn read_timeout(&self, _timeout: i32) -> Result<Vec<u8>, String> {
        self.reports.borrow_mut().pop_front().ok_or_else(|| "timeout".to_string())
    }
}

/// A transport over one `LedgerApp`, taking it exclusively for each exchange.
struct Shared(RefCell<LedgerApp<FakeDevice>>);

impl Exchange for Shared {
    type Error = Error;

    fn exchange(&self, command: &APDUCommand) -> Result<APDUAnswer, Error> {
        self.0.borrow_mut().exchange_apdu(command)
    }
}

fn packet(seq: u16, total: Option<u16>, payload: &[u8]) -> Vec<u8> {
    let mut p = vec![0x01, 0x01, 0x05, (seq >> 8) as u8, seq as u8];
    if let Some(t) = total {
        p.push((t >> 8) as u8);
        p.push(t as u8);
    }
    p.extend_from_slice(payload);
    p
}

#[test]
fn lib_serialize() {
    let data = vec![0, 0, 0, 1, 0, 0, 0, 1];

    let command = ApduCommand {
        cla: 0x56,
        ins: 0x01,
        p1: 0x00,
        p2: 0x00,
        length: data.len() as u8,
        data,
    };

    let serialized_command = command.serialize();

    let expected = vec![86, 1, 0, 0, 8, 0, 0, 0, 1, 0, 0, 0, 1];

    assert_eq!(serialized_command, expected)
}

#[test]
fn lib_exchange() {
    let device = FakeDevice::answering(&[0x01, 0x02, 0x90, 0x00]);
    let mut ledger = LedgerApp::new(device);
    ledger.set_logging(true);
    assert!(ledger.logging());

    let command = ApduCommand {
        cla: 0x56,
        ins: 0x00,
        p1: 0x00,
        p2: 0x00,
        length: 0,
        data: Vec::new(),
    };

    let result = ledger.exchange(command).unwrap();
    println!("{:?}", result);
    assert_eq!(result.data, vec![0x01, 0x02]);
    assert_eq!(result.retcode, 0x9000);
    assert!(ledger.headers_consistent());
    let written = ledger.device().written.borrow();
    assert_eq!(written.len(), 1);
    assert_eq!(&written[0][..12], &[0x00, 0x01, 0x01, 0x05, 0x00, 0x00, 0x00, 0x05, 0x56, 0x00, 0x00, 0x00]);
    assert_eq!(written[0].len(), 65);
}

#[test]
fn exchange() {
    let info = [
        0x31, 0x10, 0x00, 0x04, 0x05, b'2', b'.', b'0', b'.', b'0', 0x04, 0xa6, 0x00, 0x00, 0x00,
        0x04, b'1', b'.', b'1', 0x00, 0x90, 0x00,
    ];
    let ledger = Shared(RefCell::new(LedgerApp::new(FakeDevice::answering(&info))));
    let result = get_device_info(&ledger).expect("Error during exchange");
    assert_eq!(result.target_id, [0x31, 0x10, 0x00, 0x04]);
    assert_eq!(result.se_version, "2.0.0");
    assert_eq!(result.flag, vec![0xa6, 0, 0, 0]);
    assert_eq!(result.mcu_version, "1.1");
}

#[test]
fn lib_exchange_error_status() {
    let mut ledger = LedgerApp::new(FakeDevice::answering(&[0x6E, 0x00]));
    let command = ApduCommand { cla: 0x56, ins: 0, p1: 0, p2: 0, length: 0, data: Vec::new() };
    assert_eq!(
        ledger.exchange(command).unwrap_err(),
        Error::Apdu(0x6E00, "[APDU_CODE_CLA_NOT_SUPPORTED] Class not supported")
    );
    let mut silent = LedgerApp::new(FakeDevice {
        written: RefCell::new(Vec::new()),
        reports: RefCell::new(VecDeque::new()),
    });
    let command = ApduCommand { cla: 0x56, ins: 0, p1: 0, p2: 0, length: 0, data: Vec::new() };
    assert_eq!(silent.exchange(command).unwrap_err(), Error::Hid("timeout".to_string()));
    let before = silent.device().written.borrow().len();
    let command = ApduCommand { cla: 0x56, ins: 0, p1: 0, p2: 0, length: 0, data: vec![0; 0xFFFF] };
    assert_eq!(silent.exchange(command).unwrap_err(), Error::Comm("APDU command too long"));
    assert_eq!(silent.device().written.borrow().len(), before);
}

#[test]
fn ledger_device_path() {
    let devices = [(0x1234, 0xFFA0), (0x2c97, 0x0001), (0x2c97, 0xFFA0), (0x2c97, 0xFFA0)];
    assert_eq!(first_ledger(&devices), Ok(2));
    assert!(is_ledger(0x2c97, 0xFFA0));
    assert!(!is_ledger(0x2c97, 0xF1D0));
}

#[test]
fn lib_ledger_device_path() {
    assert_eq!(first_ledger(&[(0x1234, 0xFFA0)]), Err(Error::DeviceNotFound));
    assert_eq!(first_ledger(&[]), Err(Error::DeviceNotFound));
}

#[test]
fn reports_of_a_short_command() {
    let reports = hid_reports(0x0101, &[0xe0, 0x01, 0x00, 0x00, 0x00]);
    assert_eq!(reports.len(), 1);
    let mut expected = vec![0x01, 0x01, 0x05, 0x00, 0x00, 0x00, 0x05, 0xe0, 0x01, 0x00, 0x00, 0x00];
    expected.resize(64, 0);
    assert_eq!(reports[0], expected);
    assert_eq!(write_buffer(&reports[0])[..3], [0x00, 0x01, 0x01]);
}

#[test]
fn reports_of_a_long_command_are_numbered_and_padded() {
    let cmd: Vec<u8> = (0..300u32).map(|i| i as u8).collect();
    let reports = hid_reports(0x0101, &cmd);
    // 302 bytes of message, 59 per report
    assert_eq!(reports.len(), 6);
    for (i, r) in reports.iter().enumerate() {
        assert_eq!(r.len(), 64);
        assert_eq!(&r[..5], &[0x01, 0x01, 0x05, 0x00, i as u8]);
    }
    assert_eq!(&reports[5][5..12], &cmd[293..300]);
    assert!(reports[5][12..].iter().all(|b| *b == 0));
    assert_eq!(reassemble(&reports), Ok(cmd));
}

#[test]
fn reassembly_of_three_hundred_bytes() {
    let payload: Vec<u8> = (0..300u32).map(|i| (i * 7) as u8).collect();
    let mut packets = vec![packet(0, Some(300), &payload[..60])];
    for s in 1..5u16 {
        let start = 60 * s as usize;
        packets.push(packet(s, None, &payload[start..start + 60]));
    }
    let answer = reassemble(&packets).unwrap();
    assert_eq!(answer.len(), 300);
    assert_eq!(answer, payload);
}

#[test]
fn reassembly_drops_bytes_past_the_length() {
    let packets = vec![packet(0, Some(3), &[1, 2, 3, 4, 5])];
    assert_eq!(reassemble(&packets), Ok(vec![1, 2, 3]));
}

#[test]
fn reassembly_rejects_a_skipped_index() {
    let payload = [0xAAu8; 300];
    let packets = vec![
        packet(0, Some(300), &payload[..60]),
        packet(1, None, &payload[60..120]),
        packet(3, None, &payload[120..180]),
        packet(4, None, &payload[180..240]),
    ];
    assert_eq!(reassemble(&packets), Err(Error::Comm("Invalid sequence idx")));
}

#[test]
fn reassembly_rejects_short_headers_and_early_end() {
    assert_eq!(reassemble(&vec![vec![0x01, 0x01, 0x05, 0, 0, 0]]), Err(Error::Comm("Read error. Incomplete header")));
    let mut reader = HidReader::new();
    assert_eq!(reader.feed(&packet(0, Some(10), &[1, 2, 3])), Ok(false));
    assert_eq!(reader.feed(&[0x01, 0x01, 0x05, 0x00]), Err(Error::Comm("Read error. Incomplete header")));
    assert_eq!(reader.feed(&packet(1, None, &[4, 5, 6, 7, 8, 9, 10])), Ok(true));
    assert_eq!(reader.answer(), &vec![1, 2, 3, 4, 5, 6, 7, 8, 9, 10]);
    assert_eq!(
        reassemble(&vec![packet(0, Some(10), &[1, 2, 3])]),
        Err(Error::Comm("Read error. Incomplete answer"))
    );
}

#[test]
fn channel_and_tag_check_is_advisory() {
    assert!(header_consistent(&packet(0, Some(0), &[]), 0x0101));
    let mut other = packet(0, Some(2), &[7, 8]);
    other[0] = 0x00;
    other[2] = 0x06;
    assert!(!header_consistent(&other, 0x0101));
    assert_eq!(reassemble(&vec![other]), Ok(vec![7, 8]));
}

#[test]
fn reply_status_words() {
    assert_eq!(answer_from_reply(&vec![0x90]).unwrap_err(), Error::Comm("response was too short"));
    assert_eq!(answer_from_reply(&vec![0x69, 0x82]).unwrap_err(), Error::Apdu(0x6982, "[APDU_CODE_EMPTY_BUFFER]"));
    assert_eq!(map_apdu_error(0x1234), Error::Apdu(0x1234, "[APDU_ERROR] Unknown"));
    assert_ne!(map_apdu_error(0x1234), map_apdu_error(0x1235));
    assert_eq!(answer_from_reply(&vec![0xEF, 0xBE]).unwrap_err(), Error::Apdu(0xEFBE, "[APDU_ERROR] Unknown"));
    let a = answer_from_reply(&vec![5, 0x90, 0x00]).unwrap();
    assert_eq!((a.data, a.retcode), (vec![5], 0x9000));
    assert_eq!(check_write(64, 65), Err(Error::Comm("USB write error. Could not send whole message")));
    assert_eq!(check_write(65, 65), Ok(()));
}

#[test]
fn generic_exchange_over_hid() {
    let mut ledger = LedgerApp::new(FakeDevice::answering(&[0x42, 0x90, 0x00]));
    let cmd = APDUCommand { cla: 0x11, ins: 0x22, p1: 0, p2: 0, data: vec![1, 2] };
    let answer = ledger.exchange_apdu(&cmd).unwrap();
    assert_eq!(answer.data(), &[0x42]);
    assert_eq!(answer.retcode(), 0x9000);
}

#[test]
fn usage_page_of_descriptors() {
    // Usage Page (0xFFA0), Usage (1), Collection
    assert_eq!(usage_page_from_descriptor(&[0x06, 0xA0, 0xFF, 0x09, 0x01, 0xA1, 0x01]), 0xFFA0);
    // Usage (1) first, then Usage Page (Generic Desktop)
    assert_eq!(usage_page_from_descriptor(&[0x09, 0x01, 0x05, 0x01]), 0x0001);
    // A long item is skipped whole
    assert_eq!(usage_page_from_descriptor(&[0xFE, 0x02, 0x00, 0x05, 0x05, 0x05, 0x0C]), 0x000C);
    assert_eq!(usage_page_from_descriptor(&[0x09, 0x01]), 0);
    assert_eq!(usage_page_from_descriptor(&[0x06, 0xA0]), 0);
    assert_eq!(usage_page_from_descriptor(&[]), 0);
}

#[test]
fn largest_command_round_trips_through_reports() {
    let cmd: Vec<u8> = (0..0xFFFFu32).map(|i| (i % 251) as u8).collect();
    let reports = hid_reports(LEDGER_CHANNEL, &cmd);
    assert_eq!(reports.len(), (0xFFFF + 2 + 58) / 59);
    assert_eq!(&reports[0][5..7], &[0xFF, 0xFF]);
    assert_eq!(reassemble(&reports), Ok(cmd));
}

#[test]
fn inconsistent_headers_are_recorded_not_fatal() {
    let mut reports = hid_reports(LEDGER_CHANNEL, &[0x07, 0x90, 0x00]);
    reports[0][0] = 0x00;
    let device = FakeDevice { written: RefCell::new(Vec::new()), reports: RefCell::new(reports.into()) };
    let mut ledger = LedgerApp::new(device);
    let command = ApduCommand { cla: 0x56, ins: 0, p1: 0, p2: 0, length: 0, data: Vec::new() };
    let answer = ledger.exchange(command).unwrap();
    assert_eq!(answer.data, vec![0x07]);
    assert!(!ledger.headers_consistent());
}
