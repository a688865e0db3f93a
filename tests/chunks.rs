use std::cell::RefCell;

use ledger_apdu_transport::apdu::{APDUAnswer, APDUCommand};
use ledger_apdu_transport::common::{
    app_info_command, app_info_from_answer, build_chunks, device_info_command, version_command, chunk_count, get_app_info, get_version,
    handle_response_error, handle_response_error_signature, parse_app_info, parse_device_info,
    parse_version, send_chunks, version_from_answer, ChunkPayloadType, LedgerAppError,
};
use ledger_apdu_transport::exchange::Exchange;

/// A transport that records each command and answers each with the next queued answer,
/// or with success once the queue is empty.
struct Recorder {
    sent: RefCell<Vec<APDUCommand>>,
    answers: RefCell<Vec<Vec<u8>>>,
}

impl Recorder {
    fn new(answers: Vec<Vec<u8>>) -> Recorder {
        Recorder { sent: RefCell::new(Vec::new()), answers: RefCell::new(answers) }
    }
}

impl Exchange for Recorder {
    type Error = String;

    fn exchange(&self, command: &APDUCommand) -> Result<APDUAnswer, String> {
        self.sent.borrow_mut().push(command.clone());
        let mut answers = self.answers.borrow_mut();
        let raw = if answers.is_empty() { vec![0x90, 0x00] } else { answers.remove(0) };
        APDUAnswer::from_answer(raw).map_err(|_| "short".to_string())
    }
}

fn init_command() -> APDUCommand {
    APDUCommand { cla: 0x55, ins: 0x02, p1: ChunkPayloadType::Init.value(), p2: 0x07, data: vec![1, 2] }
}

#[test]
fn chunks_of_625_bytes() {
    let message: Vec<u8> = (0..625u32).map(|i| i as u8).collect();
    let chunks = build_chunks(0x55, 0x02, 0x07, &message);
    assert_eq!(chunks.len(), 3);
    assert_eq!(chunks.iter().map(|c| c.p1).collect::<Vec<_>>(), vec![1, 1, 2]);
    assert_eq!(chunks.iter().map(|c| c.data.len()).collect::<Vec<_>>(), vec![250, 250, 125]);
    let joined: Vec<u8> = chunks.iter().flat_map(|c| c.data.clone()).collect();
    assert_eq!(joined, message);
    assert!(chunks.iter().all(|c| c.cla == 0x55 && c.ins == 0x02 && c.p2 == 0x07));
    assert_eq!(chunk_count(625), 3);
    assert_eq!(chunk_count(500), 2);
    assert_eq!(chunk_count(1), 1);
    assert_eq!(chunk_count(0), 0);
}

#[test]
fn send_chunks_sends_init_then_chunks() {
    let t = Recorder::new(vec![]);
    let message = vec![9u8; 625];
    let answer = send_chunks(&t, &init_command(), &message).unwrap();
    assert_eq!(answer.retcode(), 0x9000);
    let sent = t.sent.borrow();
    assert_eq!(sent.len(), 4);
    assert_eq!(sent[0].data, vec![1, 2]);
    assert_eq!(sent.iter().map(|c| c.p1).collect::<Vec<_>>(), vec![0, 1, 1, 2]);
    assert!(sent.iter().all(|c| c.p2 == 0x07));
}

#[test]
fn send_chunks_single_chunk_is_last() {
    let t = Recorder::new(vec![]);
    send_chunks(&t, &init_command(), &[1, 2, 3]).unwrap();
    let sent = t.sent.borrow();
    assert_eq!(sent.len(), 2);
    assert_eq!(sent[1].p1, ChunkPayloadType::Last.value());
    assert_eq!(sent[1].data, vec![1, 2, 3]);
}

#[test]
fn send_chunks_rejects_empty_message_without_io() {
    let t = Recorder::new(vec![]);
    let r = send_chunks(&t, &init_command(), &[]);
    assert_eq!(r.unwrap_err(), LedgerAppError::InvalidEmptyMessage);
    assert!(t.sent.borrow().is_empty());
}

#[test]
fn send_chunks_rejects_too_many_chunks_without_io() {
    let t = Recorder::new(vec![]);
    let message = vec![0u8; 255 * 250 + 1];
    assert_eq!(send_chunks(&t, &init_command(), &message).unwrap_err(), LedgerAppError::InvalidMessageSize);
    assert!(t.sent.borrow().is_empty());
    let message = vec![0u8; 255 * 250];
    assert!(send_chunks(&t, &init_command(), &message).is_ok());
    assert_eq!(t.sent.borrow().len(), 256);
}

#[test]
fn send_chunks_rejects_non_init_command_without_io() {
    let t = Recorder::new(vec![]);
    let mut cmd = init_command();
    cmd.p1 = ChunkPayloadType::Add.value();
    assert_eq!(send_chunks(&t, &cmd, &[1]).unwrap_err(), LedgerAppError::InvalidChunkPayloadType);
    assert!(t.sent.borrow().is_empty());
}

#[test]
fn send_chunks_stops_at_first_failure() {
    let t = Recorder::new(vec![vec![0x90, 0x00], vec![0x69, 0x85]]);
    let message = vec![0u8; 700];
    let err = send_chunks(&t, &init_command(), &message).unwrap_err();
    assert_eq!(
        err,
        LedgerAppError::AppSpecific(
            0x6985,
            "[APDU_CODE_CONDITIONS_NOT_SATISFIED] Conditions of use not satisfied".to_string()
        )
    );
    assert_eq!(t.sent.borrow().len(), 2);
    let t = Recorder::new(vec![vec![0xEF, 0xBE]]);
    assert_eq!(send_chunks(&t, &init_command(), &[1]).unwrap_err(), LedgerAppError::Unknown(0xEFBE));
    assert_eq!(t.sent.borrow().len(), 1);
}

#[test]
fn response_errors() {
    let ok = APDUAnswer::from_answer(vec![0x90, 0x00]).unwrap();
    assert_eq!(handle_response_error::<()>(&ok), Ok(()));
    assert_eq!(handle_response_error_signature::<()>(&ok), Err(LedgerAppError::NoSignature));
    let signed = APDUAnswer::from_answer(vec![1, 0x90, 0x00]).unwrap();
    assert_eq!(handle_response_error_signature::<()>(&signed), Ok(()));
    let unknown = APDUAnswer::from_answer(vec![0x12, 0x34]).unwrap();
    assert_eq!(handle_response_error::<()>(&unknown), Err(LedgerAppError::Unknown(0x1234)));
    assert_eq!(
        handle_response_error_signature::<()>(&unknown),
        Err(LedgerAppError::AppSpecific(0x1234, "[APDU_ERROR] Unknown".to_string()))
    );
    let wrong = APDUAnswer::from_answer(vec![0x67, 0x00]).unwrap();
    assert_eq!(
        handle_response_error::<()>(&wrong),
        Err(LedgerAppError::AppSpecific(0x6700, "[APDU_CODE_WRONG_LENGTH] Wrong length".to_string()))
    );
}

#[test]
fn version_answers() {
    let v = parse_version::<()>(&[0x00, 1, 2, 3]).unwrap();
    assert_eq!((v.mode, v.major, v.minor, v.patch, v.locked, v.target_id), (0, 1, 2, 3, false, [0; 4]));
    let v = parse_version::<()>(&[0x01, 0x01, 0x02, 0x00, 0x03, 0x00, 0x04]).unwrap();
    assert_eq!((v.major, v.minor, v.patch), (0x0102, 3, 4));
    let v = parse_version::<()>(&[0x00, 1, 2, 3, 1, 0x31, 0x10, 0x00, 0x04]).unwrap();
    assert_eq!((v.locked, v.target_id), (true, [0x31, 0x10, 0x00, 0x04]));
    let v = parse_version::<()>(&[0, 0, 1, 0, 2, 0, 3, 0, 9, 8, 7, 6]).unwrap();
    assert_eq!((v.major, v.minor, v.patch, v.locked, v.target_id), (1, 2, 3, false, [9, 8, 7, 6]));
    assert_eq!(parse_version::<()>(&[0, 1, 2, 3, 4]), Err(LedgerAppError::InvalidVersion));
    let failed = APDUAnswer::from_answer(vec![0x6D, 0x00]).unwrap();
    assert_eq!(version_from_answer::<()>(&failed), Err(LedgerAppError::Unknown(0x6D00)));
}

#[test]
fn version_and_app_info_over_a_transport() {
    let t = Recorder::new(vec![vec![0x00, 1, 2, 3, 0x90, 0x00]]);
    let v = get_version(0x55, &t).unwrap();
    assert_eq!((v.major, v.minor, v.patch), (1, 2, 3));
    assert_eq!((t.sent.borrow()[0].cla, t.sent.borrow()[0].ins), (0x55, 0x00));
    let t = Recorder::new(vec![vec![1, 3, b'A', b'p', b'p', 5, b'1', b'.', b'2', b'.', b'3', 1, 0x86, 0x90, 0x00]]);
    let a = get_app_info(&t).unwrap();
    assert_eq!(a.app_name, "App");
    assert_eq!(a.app_version, "1.2.3");
    assert_eq!((a.flag_len, a.flags_value), (1, 0x86));
    assert!(!a.flag_recovery && a.flag_signed_mcu_code && a.flag_onboarded && a.flag_pin_validated);
    assert_eq!((t.sent.borrow()[0].cla, t.sent.borrow()[0].ins), (0xb0, 0x01));
}

#[test]
fn app_info_answer_errors() {
    assert_eq!(parse_app_info::<()>(&[2, 0, 0, 1, 0]), Err(LedgerAppError::InvalidFormatID));
    assert_eq!(parse_app_info::<()>(&[1, 0, 0, 1]), Err(LedgerAppError::InvalidLength));
    assert_eq!(parse_app_info::<()>(&[1, 1, 0xFF, 0, 1, 0]), Err(LedgerAppError::Utf8));
    let failed = APDUAnswer::from_answer(vec![0x6E, 0x00]).unwrap();
    assert_eq!(
        app_info_from_answer::<()>(&failed),
        Err(LedgerAppError::AppSpecific(0x6E00, "[APDU_CODE_CLA_NOT_SUPPORTED] Class not supported".to_string()))
    );
}

#[test]
fn device_info_answer_errors() {
    assert_eq!(parse_device_info::<()>(&[1, 2, 3]).unwrap_err(), LedgerAppError::InvalidLength);
    assert_eq!(parse_device_info::<()>(&[1, 2, 3, 4, 1, 0xC3, 0, 0]).unwrap_err(), LedgerAppError::Utf8);
    let d = parse_device_info::<()>(&[1, 2, 3, 4, 0, 0, 0]).unwrap();
    assert_eq!((d.se_version.as_str(), d.flag.len(), d.mcu_version.as_str()), ("", 0, ""));
}

#[test]
fn common_commands() {
    let v = version_command(0x55);
    assert_eq!((v.cla, v.ins, v.p1, v.p2, v.data.len()), (0x55, 0x00, 0, 0, 0));
    let a = app_info_command();
    assert_eq!((a.cla, a.ins, a.p1, a.p2, a.data.len()), (0xb0, 0x01, 0, 0, 0));
    let d = device_info_command();
    assert_eq!((d.cla, d.ins, d.p1, d.p2, d.data.len()), (0xe0, 0x01, 0, 0, 0));
}
