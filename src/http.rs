//! Device simulators reached over HTTP: a command goes out as lowercase hex text, the
//! answer comes back as hex text, or with an error.
use vstd::prelude::*;

use crate::apdu::{answer_payload, answer_status, APDUAnswer, APDUCommand};

verus! {

#[verifier::external_type_specification]
#[verifier::external_body]
pub struct ExFromHexError(hex::FromHexError);

/// Errors of the Speculos HTTP transport.
#[derive(Copy, Clone, Debug, PartialEq, Eq, Structural)]
pub enum LedgerSpeculosError {
    /// The request could not be sent
    InnerError,
    /// The answer was an error, or not a readable answer
    ResponseError,
}

/// Errors of the Zemu transports.
#[derive(Copy, Clone, Debug, PartialEq, Eq, Structural)]
pub enum LedgerZemuError {
    /// Could not connect
    ConnectError,
    /// The answer was an error, or not a readable answer
    ResponseError,
    /// The request could not be sent
    InnerError,
}

/// The character of a digit below 16: `0`-`9`, then `a`-`f`.
pub open spec fn spec_hex_digit(n: u8) -> char {
    if n < 10 {
        (n + 48) as char
    } else {
        (n + 87) as char
    }
}

/// The lowercase hex text of `b`: two digits per byte, most significant first.
pub open spec fn spec_hex(b: Seq<u8>) -> Seq<char>
    decreases b.len(),
{
    if b.len() == 0 {
        Seq::empty()
    } else {
        seq![spec_hex_digit(b[0] / 16), spec_hex_digit(b[0] % 16)] + spec_hex(b.drop_first())
    }
}

/// The value of a hex digit in either case, if `c` is one.
pub open spec fn spec_hex_value(c: char) -> Option<u8> {
    if '0' <= c <= '9' {
        Some((c as u32 - 48) as u8)
    } else if 'a' <= c <= 'f' {
        Some((c as u32 - 87) as u8)
    } else if 'A' <= c <= 'F' {
        Some((c as u32 - 55) as u8)
    } else {
        None
    }
}

/// The bytes that hex text `s` spells, two digits per byte; `None` for an odd length or a
/// character that is not a hex digit.
pub open spec fn spec_unhex(s: Seq<char>) -> Option<Seq<u8>>
    decreases s.len(),
{
    if s.len() == 0 {
        Some(Seq::empty())
    } else if s.len() < 2 {
        None
    } else {
        match (spec_hex_value(s[0]), spec_hex_value(s[1]), spec_unhex(s.subrange(2, s.len() as int))) {
            (Some(h), Some(l), Some(rest)) => Some(seq![(h * 16 + l) as u8] + rest),
            _ => None,
        }
    }
}

/// Relies on `hex::encode`: two lowercase hex digits for each byte.
#[verifier::external_body]
fn hex_encode(b: &[u8]) -> (r: String)
    ensures
        r@ == spec_hex(b@),
{
    hex::encode(b)
}

/// Relies on `hex::decode`: the bytes spelled by pairs of hex digits of either case; an
/// error for an odd length or any other character.
#[verifier::external_body]
fn hex_decode(s: &str) -> (r: Result<Vec<u8>, hex::FromHexError>)
    ensures
        r is Ok <==> spec_unhex(s@) is Some,
        r is Ok ==> r->Ok_0@ == spec_unhex(s@)->0,
{
    hex::decode(s)
}

/// The decimal digits of `n`, without leading zeros.
pub open spec fn spec_decimal_text(n: nat) -> Seq<char>
    decreases n,
{
    if n < 10 {
        seq![(n + 48) as char]
    } else {
        spec_decimal_text(n / 10) + seq![((n % 10) + 48) as char]
    }
}

/// Relies on `u16::to_string`: the decimal digits of `port`, without leading zeros.
#[verifier::external_body]
fn decimal_text(port: u16) -> (r: String)
    ensures
        r@ == spec_decimal_text(port as nat),
{
    port.to_string()
}

/// The address `http://host:port` followed by `path`.
pub fn http_url(host: &str, port: u16, path: &str) -> (r: String)
    ensures
        r@ == "http://"@ + host@ + ":"@ + spec_decimal_text(port as nat) + path@,
{
    let mut url = String::from_str("http://");
    url.append(host);
    url.append(":");
    let digits = decimal_text(port);
    url.append(digits.as_str());
    url.append(path);
    url
}

/// The hex text that carries a command to a simulator.
pub fn request_hex(command: &APDUCommand) -> (r: String)
    requires
        command.wf(),
    ensures
        r@ == spec_hex(command.spec_serialize()),
{
    let bytes = command.serialize();
    hex_encode(bytes.as_slice())
}

/// The answer a simulator sent as hex text: an error it reported, text that is not hex,
/// or bytes too short for a status word are a `ResponseError`.
pub fn answer_from_hex(data: &str, has_error: bool) -> (r: Result<APDUAnswer, LedgerSpeculosError>)
    ensures
        ({
            let raw = spec_unhex(data@);
            if has_error || raw is None || raw->0.len() < 2 {
                r == Err::<APDUAnswer, LedgerSpeculosError>(LedgerSpeculosError::ResponseError)
            } else {
                r is Ok && r->Ok_0.spec_data() == answer_payload(raw->0) && r->Ok_0.spec_retcode()
                    == answer_status(raw->0)
            }
        }),
{
    if has_error {
        return Err(LedgerSpeculosError::ResponseError);
    }
    let raw = match hex_decode(data) {
        Ok(b) => b,
        Err(_) => return Err(LedgerSpeculosError::ResponseError),
    };
    match APDUAnswer::from_answer(raw) {
        Ok(a) => Ok(a),
        Err(_) => Err(LedgerSpeculosError::ResponseError),
    }
}

/// A Speculos simulator reached over its HTTP API.
pub struct TransportSpeculosHttp {
    url: String,
}

impl TransportSpeculosHttp {
    /// The address that commands are posted to.
    pub closed spec fn spec_url(&self) -> Seq<char> {
        self.url@
    }

    /// The transport for the simulator at `host` and `port`; commands go to `/apdu`.
    pub fn new(host: &str, port: u16) -> (r: Self)
        ensures
            r.spec_url() == "http://"@ + host@ + ":"@ + spec_decimal_text(port as nat) + "/apdu"@,
    {
        TransportSpeculosHttp { url: http_url(host, port, "/apdu") }
    }

    /// The address that commands are posted to.
    pub fn url(&self) -> (r: &str)
        ensures
            r@ == self.spec_url(),
    {
        self.url.as_str()
    }
}

/// A Zemu simulator reached over HTTP.
pub struct TransportZemuHttp {
    url: String,
}

impl TransportZemuHttp {
    /// The address that commands are posted to.
    pub closed spec fn spec_url(&self) -> Seq<char> {
        self.url@
    }

    /// The transport for the simulator at `host` and `port`.
    pub fn new(host: &str, port: u16) -> (r: Self)
        ensures
            r.spec_url() == "http://"@ + host@ + ":"@ + spec_decimal_text(port as nat) + ""@,
    {
        TransportZemuHttp { url: http_url(host, port, "") }
    }

    /// The address that commands are posted to.
    pub fn url(&self) -> (r: &str)
        ensures
            r@ == self.spec_url(),
    {
        self.url.as_str()
    }
}

} // verus!
