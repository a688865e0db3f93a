use ledger_apdu_transport::apdu::APDUCommand;
use ledger_apdu_transport::http::{
    answer_from_hex, http_url, request_hex, LedgerSpeculosError, TransportSpeculosHttp, TransportZemuHttp,
};
use ledger_apdu_transport::tcp::{
    decode_response, frame_request, response_length, Error, LedgerTcpError,
};

#[test]
fn tcp_request_is_length_prefixed() {
    let cmd = APDUCommand { cla: 0xe0, ins: 0x01, p1: 0, p2: 0, data: vec![] };
    let framed = frame_request(&cmd.serialize());
    assert_eq!(framed, vec![0, 0, 0, 5, 0xe0, 0x01, 0, 0, 0]);
    let long = vec![0u8; 0x1_0203];
    assert_eq!(&frame_request(&long)[..4], &[0x00, 0x01, 0x02, 0x03]);
}

#[test]
fn tcp_response_length_counts_status_word() {
    assert_eq!(response_length(&[0, 0, 0, 4]).unwrap(), 6);
    assert_eq!(response_length(&[0, 0, 1, 0]).unwrap(), 258);
    assert_eq!(response_length(&[0xFF, 0xFF, 0xFF, 0xFF]).unwrap(), 0x1_0000_0001);
    assert!(matches!(response_length(&[0, 0, 4]), Err(Error::InvalidLength)));
}

#[test]
fn tcp_response_body() {
    let a = decode_response(vec![0xAB, 0x90, 0x00]).unwrap();
    assert_eq!(a.data(), &[0xAB]);
    assert_eq!(a.retcode(), 0x9000);
    assert!(matches!(decode_response(vec![0x90]), Err(Error::InvalidAnswer)));
    assert!(matches!(decode_response(vec![0xAB, 0x69, 0x85]), Err(Error::ErrorCode(0x6985))));
    assert!(matches!(decode_response(vec![0xEF, 0xBE]), Err(Error::ErrorCode(0xEFBE))));
}

#[test]
fn tcp_error_constructors() {
    assert!(matches!(LedgerTcpError::connection_refused(), LedgerTcpError::ConnectionRefused));
    assert!(matches!(LedgerTcpError::connection_closed(), LedgerTcpError::ConnectionClosed));
    assert!(matches!(LedgerTcpError::read_would_block(), LedgerTcpError::ReadWouldBlock));
}

#[test]
fn speculos_request_is_hex() {
    let cmd = APDUCommand { cla: 0xe0, ins: 0x01, p1: 0, p2: 0xAB, data: vec![0x0F, 0x10] };
    assert_eq!(request_hex(&cmd), "e00100ab020f10");
}

#[test]
fn speculos_answer_from_hex() {
    let a = answer_from_hex("DEad9000", false).unwrap();
    assert_eq!(a.data(), &[0xDE, 0xAD]);
    assert_eq!(a.retcode(), 0x9000);
    assert_eq!(answer_from_hex("9000", true).unwrap_err(), LedgerSpeculosError::ResponseError);
    assert_eq!(answer_from_hex("900", false).unwrap_err(), LedgerSpeculosError::ResponseError);
    assert_eq!(answer_from_hex("zz00", false).unwrap_err(), LedgerSpeculosError::ResponseError);
    assert_eq!(answer_from_hex("90", false).unwrap_err(), LedgerSpeculosError::ResponseError);
}

#[test]
fn simulator_urls() {
    let t = TransportSpeculosHttp::new("127.0.0.1", 5000);
    assert_eq!(t.url(), "http://127.0.0.1:5000/apdu");
    let z = TransportZemuHttp::new("localhost", 9998);
    assert_eq!(z.url(), "http://localhost:9998");
}

#[test]
fn url_of_host_and_port() {
    assert_eq!(http_url("h", 0, "/x"), "http://h:0/x");
    assert_eq!(http_url("10.0.0.1", 65535, ""), "http://10.0.0.1:65535");
}
