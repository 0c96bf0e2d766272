//! Reading numbers from text, in the radix that a prefix announces.
use vstd::prelude::*;
use crate::error::{Error, ErrorView};
use crate::{Address, ValueType};

verus! {

/// The value of the digit that the byte `b` stands for, if it is a digit or
/// a letter.
pub open spec fn digit_value(b: u8) -> Option<nat> {
    if 0x30 <= b <= 0x39 {
        Some((b - 0x30) as nat)
    } else if 0x61 <= b <= 0x7a {
        Some((b - 0x61 + 10) as nat)
    } else if 0x41 <= b <= 0x5a {
        Some((b - 0x41 + 10) as nat)
    } else {
        None
    }
}

/// The number that the first `upto` bytes spell in `radix`; `None` where one
/// of them is no digit of that radix.
pub open spec fn magnitude(bytes: Seq<u8>, radix: nat, upto: int) -> Option<nat>
    decreases upto,
{
    if upto <= 0 {
        Some(0)
    } else {
        match (magnitude(bytes, radix, upto - 1), digit_value(bytes[upto - 1])) {
            (Some(m), Some(d)) => if d < radix {
                Some(m * radix + d)
            } else {
                None
            },
            _ => None,
        }
    }
}

/// The non-negative number of at most `max` that `bytes` spell in `radix`:
/// digits, at least one, after an optional plus sign.
pub open spec fn spec_unsigned(bytes: Seq<u8>, radix: nat, max: nat) -> Option<nat> {
    let body = if bytes.len() > 0 && bytes[0] == 0x2b {
        bytes.skip(1)
    } else {
        bytes
    };
    if body.len() == 0 {
        None
    } else {
        match magnitude(body, radix, body.len() as int) {
            Some(m) => if m <= max {
                Some(m)
            } else {
                None
            },
            None => None,
        }
    }
}

/// The signed 64-bit number that `bytes` spell in `radix`: digits, at least
/// one, after an optional sign.
pub open spec fn spec_signed(bytes: Seq<u8>, radix: nat) -> Option<int> {
    if bytes.len() > 0 && bytes[0] == 0x2d {
        let body = bytes.skip(1);
        if body.len() == 0 {
            None
        } else {
            match magnitude(body, radix, body.len() as int) {
                Some(m) => if m <= 0x8000_0000_0000_0000 {
                    Some(-(m as int))
                } else {
                    None
                },
                None => None,
            }
        }
    } else {
        match spec_unsigned(bytes, radix, 0x7fff_ffff_ffff_ffff) {
            Some(m) => Some(m as int),
            None => None,
        }
    }
}

/// A number only grows with further digits.
pub proof fn lemma_magnitude_grows(bytes: Seq<u8>, radix: nat, from: int, upto: int)
    requires
        0 <= from <= upto,
        radix >= 1,
    ensures
        magnitude(bytes, radix, upto) is Some ==> magnitude(bytes, radix, from) is Some && magnitude(
            bytes,
            radix,
            from,
        )->0 <= magnitude(bytes, radix, upto)->0,
    decreases upto - from,
{
    if from < upto {
        lemma_magnitude_grows(bytes, radix, from, upto - 1);
        if magnitude(bytes, radix, upto) is Some {
            let m = magnitude(bytes, radix, upto - 1)->0;
            assert(m * radix >= m) by (nonlinear_arith)
                requires
                    radix >= 1,
                    m >= 0,
            ;
        }
    }
}

/// The digit that a byte stands for.
fn digit_of(b: u8) -> (r: Option<u8>)
    ensures
        match digit_value(b) {
            Some(d) => r == Some(d as u8) && d < 36,
            None => r is None,
        },
{
    if b >= 0x30 && b <= 0x39 {
        Some(b - 0x30)
    } else if b >= 0x61 && b <= 0x7a {
        Some(b - 0x61 + 10)
    } else if b >= 0x41 && b <= 0x5a {
        Some(b - 0x41 + 10)
    } else {
        None
    }
}

/// The number of at most `max` that the bytes from `start` on spell in `radix`.
fn read_magnitude(bytes: &[u8], start: usize, radix: u8, max: u64) -> (r: Option<u64>)
    requires
        start <= bytes@.len(),
        2 <= radix <= 36,
    ensures
        r == (match magnitude(bytes@.skip(start as int), radix as nat, bytes@.len() - start) {
            Some(m) => if m <= max {
                Some(m as u64)
            } else {
                None
            },
            None => None,
        }),
{
    let ghost body = bytes@.skip(start as int);
    let mut value: u128 = 0;
    let mut i: usize = start;
    while i < bytes.len()
        invariant
            start <= i <= bytes@.len(),
            2 <= radix <= 36,
            body == bytes@.skip(start as int),
            magnitude(body, radix as nat, i - start) == Some(value as nat),
            value <= max,
        decreases bytes.len() - i,
    {
        assert(body[i - start] == bytes@[i as int]);
        let digit = match digit_of(bytes[i]) {
            Some(d) => d,
            None => {
                proof {
                    if magnitude(body, radix as nat, body.len() as int) is Some {
                        lemma_magnitude_grows(body, radix as nat, i - start + 1, body.len() as int);
                    }
                }
                return None;
            },
        };
        if digit >= radix {
            proof {
                if magnitude(body, radix as nat, body.len() as int) is Some {
                    lemma_magnitude_grows(body, radix as nat, i - start + 1, body.len() as int);
                }
            }
            return None;
        }
        assert(value * (radix as u128) + (digit as u128) <= 0xffff_ffff_ffff_ffff * 36 + 36) by (nonlinear_arith)
            requires
                value <= 0xffff_ffff_ffff_ffff,
                radix <= 36,
                digit < 36,
        ;
        let next = value * (radix as u128) + (digit as u128);
        if next > max as u128 {
            proof {
                if magnitude(body, radix as nat, body.len() as int) is Some {
                    lemma_magnitude_grows(body, radix as nat, i - start + 1, body.len() as int);
                }
            }
            return None;
        }
        value = next;
        i += 1;
    }
    assert(i - start == body.len());
    Some(value as u64)
}

/// The radix that the prefix of `bytes` announces, and where the digits
/// begin: `0x` for sixteen, `0b` for two, `0o` for eight, else ten.
pub open spec fn spec_radix(bytes: Seq<u8>) -> (nat, int) {
    if bytes.len() >= 2 && bytes[0] == 0x30 && bytes[1] == 0x78 {
        (16, 2)
    } else if bytes.len() >= 2 && bytes[0] == 0x30 && bytes[1] == 0x62 {
        (2, 2)
    } else if bytes.len() >= 2 && bytes[0] == 0x30 && bytes[1] == 0x6f {
        (8, 2)
    } else {
        (10, 0)
    }
}

/// The unsigned number of at most `max` that `text` spells in the radix that
/// its prefix announces.
pub open spec fn spec_auto_unsigned(text: Seq<char>, max: nat) -> Option<nat> {
    let bytes = vstd::utf8::encode_utf8(text);
    let (radix, start) = spec_radix(bytes);
    spec_unsigned(bytes.skip(start), radix, max)
}

/// The signed number that `text` spells in the radix that its prefix announces.
pub open spec fn spec_auto_signed(text: Seq<char>) -> Option<int> {
    let bytes = vstd::utf8::encode_utf8(text);
    let (radix, start) = spec_radix(bytes);
    spec_signed(bytes.skip(start), radix)
}

/// The radix that the prefix of `bytes` announces, and where the digits begin.
fn radix_of(bytes: &[u8]) -> (r: (u8, usize))
    ensures
        (r.0 as nat, r.1 as int) == spec_radix(bytes@),
        r.1 <= bytes@.len(),
        2 <= r.0 <= 36,
{
    if bytes.len() >= 2 && bytes[0] == 0x30 {
        if bytes[1] == 0x78 {
            return (16, 2);
        } else if bytes[1] == 0x62 {
            return (2, 2);
        } else if bytes[1] == 0x6f {
            return (8, 2);
        }
    }
    (10, 0)
}

/// Reads the digits of an unsigned number from `start` on.
fn read_unsigned(bytes: &[u8], start: usize, radix: u8, max: u64) -> (r: Option<u64>)
    requires
        start <= bytes@.len(),
        2 <= radix <= 36,
    ensures
        r == (match spec_unsigned(bytes@.skip(start as int), radix as nat, max as nat) {
            Some(m) => Some(m as u64),
            None => None,
        }),
{
    let ghost rest = bytes@.skip(start as int);
    let from: usize = if start < bytes.len() && bytes[start] == 0x2b {
        start + 1
    } else {
        start
    };
    assert(start < bytes@.len() ==> rest[0] == bytes@[start as int]);
    assert(bytes@.skip(from as int) =~= if from > start {
        rest.skip(1)
    } else {
        rest
    });
    if from == bytes.len() {
        return None;
    }
    read_magnitude(bytes, from, radix, max)
}

/// Reads a value in the radix that the prefix of `s` announces.
pub fn auto_radix_value(s: &str) -> (r: Result<ValueType, Error>)
    ensures
        match spec_auto_signed(s@) {
            Some(v) => r == Ok::<ValueType, Error>(v as ValueType),
            None => r is Err && r->Err_0@ == ErrorView::ParseIntError(s@),
        },
{
    let bytes = s.as_bytes();
    let (radix, start) = radix_of(bytes);
    let ghost rest = bytes@.skip(start as int);
    let parsed = if start < bytes.len() && bytes[start] == 0x2d {
        assert(rest[0] == bytes@[start as int]);
        assert(bytes@.skip(start + 1) =~= rest.skip(1));
        if start + 1 == bytes.len() {
            None
        } else {
            match read_magnitude(bytes, start + 1, radix, 0x8000_0000_0000_0000) {
                Some(m) => {
                    if m == 0x8000_0000_0000_0000 {
                        Some(i64::MIN)
                    } else {
                        Some(-(m as i64))
                    }
                },
                None => None,
            }
        }
    } else {
        assert(start < bytes@.len() ==> rest[0] == bytes@[start as int]);
        match read_unsigned(bytes, start, radix, 0x7fff_ffff_ffff_ffff) {
            Some(m) => Some(m as i64),
            None => None,
        }
    };
    match parsed {
        Some(v) => Ok(v),
        None => Err(Error::ParseIntError(s.to_owned())),
    }
}

/// Reads an address in the radix that the prefix of `s` announces.
pub fn auto_radix_address(s: &str) -> (r: Result<Address, Error>)
    ensures
        match spec_auto_unsigned(s@, u64::MAX as nat) {
            Some(v) => r == Ok::<Address, Error>(v as Address),
            None => r is Err && r->Err_0@ == ErrorView::ParseIntError(s@),
        },
{
    let bytes = s.as_bytes();
    let (radix, start) = radix_of(bytes);
    match read_unsigned(bytes, start, radix, u64::MAX) {
        Some(v) => Ok(v),
        None => Err(Error::ParseIntError(s.to_owned())),
    }
}

/// Reads a count in the radix that the prefix of `s` announces.
pub fn auto_radix_usize(s: &str) -> (r: Result<usize, Error>)
    ensures
        match spec_auto_unsigned(s@, usize::MAX as nat) {
            Some(v) => r == Ok::<usize, Error>(v as usize),
            None => r is Err && r->Err_0@ == ErrorView::ParseIntError(s@),
        },
{
    let bytes = s.as_bytes();
    let (radix, start) = radix_of(bytes);
    match read_unsigned(bytes, start, radix, usize::MAX as u64) {
        Some(v) => Ok(v as usize),
        None => Err(Error::ParseIntError(s.to_owned())),
    }
}

} // verus!
