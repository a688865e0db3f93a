//! BIP44 derivation paths: `m` followed by five indices, each hardened by a trailing `'`.
use vstd::prelude::*;

use crate::bytes::{le32_bytes, write_le_u32};

verus! {

#[verifier::external_type_specification]
#[verifier::external_body]
pub struct ExParseIntError(core::num::ParseIntError);

/// Bit that marks a hardened index.
pub const HARDENED_BIT: u32 = 0x8000_0000;

/// Number of indices in a BIP44 path.
pub const BIP44_LEN: usize = 5;

/// BIP44Path errors.
#[derive(Debug, PartialEq, Eq)]
pub enum BIP44PathError {
    /// Invalid length for a BIP44 path
    InvalidLength,
    /// The path does not start with `m`
    MissingPrefix,
    /// An index is not a number
    ParseIntError(core::num::ParseIntError),
}

/// The pieces of `s` between the occurrences of `sep`; there is always at least one.
pub open spec fn spec_split(s: Seq<char>, sep: char) -> Seq<Seq<char>>
    decreases s.len(),
{
    if s.len() == 0 {
        seq![Seq::empty()]
    } else {
        let rest = spec_split(s.drop_first(), sep);
        if s[0] == sep {
            seq![Seq::empty()] + rest
        } else {
            rest.update(0, seq![s[0]] + rest[0])
        }
    }
}

/// Whether `c` is a decimal digit.
pub open spec fn is_digit(c: char) -> bool {
    '0' <= c <= '9'
}

/// The value of a string of decimal digits.
pub open spec fn spec_decimal(s: Seq<char>) -> nat
    decreases s.len(),
{
    if s.len() == 0 {
        0
    } else {
        spec_decimal(s.drop_last()) * 10 + (s.last() as nat - '0' as nat) as nat
    }
}

/// The `u32` that `s` spells in decimal, after an optional `+`; `None` for an empty string,
/// a character other than a digit, or a value above `u32::MAX`.
pub open spec fn spec_parse_u32(s: Seq<char>) -> Option<u32> {
    let digits = if s.len() > 1 && s[0] == '+' {
        s.drop_first()
    } else {
        s
    };
    if digits.len() > 0 && (forall|i: int| 0 <= i < digits.len() ==> is_digit(#[trigger] digits[i]))
        && spec_decimal(digits) <= u32::MAX {
        Some(spec_decimal(digits) as u32)
    } else {
        None
    }
}

/// Relies on `str::split`: the pieces of `s` between the occurrences of `sep`, in order.
#[verifier::external_body]
fn split(s: &str, sep: char) -> (r: Vec<String>)
    ensures
        r@.map_values(|p: String| p@) == spec_split(s@, sep),
{
    s.split(sep).map(|p| p.to_string()).collect()
}

/// Relies on `u32::from_str`: decimal digits after an optional `+`, within range.
#[verifier::external_body]
fn parse_u32(s: &str) -> (r: Result<u32, core::num::ParseIntError>)
    ensures
        r is Ok <==> spec_parse_u32(s@) is Some,
        r is Ok ==> r->Ok_0 == spec_parse_u32(s@)->0,
{
    s.parse::<u32>()
}

/// The index that one component of a path spells: a number, hardened by a trailing `'`.
pub open spec fn spec_component(c: Seq<char>) -> Option<u32> {
    if c.len() > 0 && c.last() == '\'' {
        match spec_parse_u32(c.drop_last()) {
            Some(v) => Some(v | HARDENED_BIT),
            None => None,
        }
    } else {
        spec_parse_u32(c)
    }
}

/// A BIP44 derivation path.
#[derive(Debug)]
pub struct BIP44Path(pub [u32; 5]);

impl BIP44Path {
    /// The path made of `path`, which must hold exactly five indices.
    pub fn from_slice(path: &[u32]) -> (r: Result<BIP44Path, BIP44PathError>)
        ensures
            path@.len() != BIP44_LEN ==> r == Err::<BIP44Path, BIP44PathError>(
                BIP44PathError::InvalidLength,
            ),
            path@.len() == BIP44_LEN ==> r is Ok && r->Ok_0.0@ == path@,
    {
        if path.len() != BIP44_LEN {
            return Err(BIP44PathError::InvalidLength);
        }
        let a: [u32; 5] = [path[0], path[1], path[2], path[3], path[4]];
        assert(a@ =~= path@);
        Ok(BIP44Path(a))
    }

    /// Parses a path such as `m/44'/461'/0/0/0`: the first component must be `m`, every
    /// other one an index (a number that fits 32 bits, hardened by a trailing `'`), and
    /// there must be five indices. Prefix, then indices, then their count are checked.
    pub fn from_string(path: &str) -> (r: Result<BIP44Path, BIP44PathError>)
        ensures
            ({
                let parts = spec_split(path@, '/');
                let comps = parts.drop_first();
                if parts[0] != seq!['m'] {
                    r == Err::<BIP44Path, BIP44PathError>(BIP44PathError::MissingPrefix)
                } else if exists|i: int| 0 <= i < comps.len() && spec_component(#[trigger] comps[i]) is None {
                    r matches Err(BIP44PathError::ParseIntError(_))
                } else if comps.len() != BIP44_LEN {
                    r == Err::<BIP44Path, BIP44PathError>(BIP44PathError::InvalidLength)
                } else {
                    r is Ok && forall|i: int|
                        0 <= i < BIP44_LEN ==> r->Ok_0.0@[i] == spec_component(#[trigger] comps[i])->0
                }
            }),
    {
        let parts = split(path, '/');
        let ghost sp = spec_split(path@, '/');
        proof {
            lemma_split_nonempty(path@, '/');
            assert(parts@.len() == sp.len());
            assert(parts@[0]@ == sp[0]);
        }
        let first = parts[0].as_str();
        if !(first.unicode_len() == 1 && first.get_char(0) == 'm') {
            return Err(BIP44PathError::MissingPrefix);
        }
        assert(sp[0] =~= seq!['m']);
        let mut values: Vec<u32> = Vec::new();
        let mut i: usize = 1;
        while i < parts.len()
            invariant
                1 <= i <= parts@.len(),
                sp == spec_split(path@, '/'),
                sp[0] == seq!['m'],
                parts@.len() == sp.len(),
                forall|k: int| 0 <= k < parts@.len() ==> (#[trigger] parts@[k])@ == sp[k],
                values@.len() == i - 1,
                forall|k: int|
                    0 <= k < values@.len() ==> spec_component(#[trigger] sp.drop_first()[k]) == Some(
                        values@[k],
                    ),
            decreases parts@.len() - i,
        {
            let c = parts[i].as_str();
            let n = c.unicode_len();
            let hardened = n > 0 && c.get_char(n - 1) == '\'';
            let digits = if hardened {
                c.substring_char(0, n - 1)
            } else {
                c
            };
            proof {
                assert(sp.drop_first()[i - 1] == sp[i as int]);
                if hardened {
                    assert(digits@ =~= c@.drop_last());
                }
            }
            let v = match parse_u32(digits) {
                Ok(v) => v,
                Err(e) => {
                    assert(spec_component(sp.drop_first()[i - 1]) is None);
                    return Err(BIP44PathError::ParseIntError(e));
                },
            };
            values.push(
                if hardened {
                    v | HARDENED_BIT
                } else {
                    v
                },
            );
            i = i + 1;
        }
        BIP44Path::from_slice(values.as_slice())
    }

    /// The five indices, each as four bytes, least significant first.
    pub fn serialize(&self) -> (r: Vec<u8>)
        ensures
            r@ == le32_bytes(self.0[0]) + le32_bytes(self.0[1]) + le32_bytes(self.0[2]) + le32_bytes(
                self.0[3],
            ) + le32_bytes(self.0[4]),
    {
        let mut buf: [u8; 20] = [0u8; 20];
        write_le_u32(&mut buf, 0, self.0[0]);
        write_le_u32(&mut buf, 4, self.0[1]);
        write_le_u32(&mut buf, 8, self.0[2]);
        write_le_u32(&mut buf, 12, self.0[3]);
        write_le_u32(&mut buf, 16, self.0[4]);
        let mut r: Vec<u8> = Vec::new();
        crate::bytes::extend_range(&mut r, buf.as_slice(), 0, 20);
        assert(r@ =~= le32_bytes(self.0[0]) + le32_bytes(self.0[1]) + le32_bytes(self.0[2])
            + le32_bytes(self.0[3]) + le32_bytes(self.0[4]));
        r
    }

    /// Whether the coin type is the hardened 1 of test networks.
    pub fn is_testnet(&self) -> (r: bool)
        ensures
            r == (self.0[1] == (1u32 | HARDENED_BIT)),
    {
        self.0[1] == (1 | HARDENED_BIT)
    }
}

/// Splitting always yields at least one piece.
proof fn lemma_split_nonempty(s: Seq<char>, sep: char)
    ensures
        spec_split(s, sep).len() >= 1,
    decreases s.len(),
{
    if s.len() > 0 {
        lemma_split_nonempty(s.drop_first(), sep);
    }
}

} // verus!
