//! Reading the text of command-line values: unsigned integers (through std),
//! base58 hashes and public keys (through the Solana crates), and port ranges.

use std::num::ParseIntError;
use solana_hash::ParseHashError;
use solana_pubkey::ParsePubkeyError;
use vstd::prelude::*;
use crate::text::{bounded_text_value, is_digit, unsigned_text_value};

verus! {

/// `std::num::ParseIntError`, carried as an opaque value.
#[verifier::external_type_specification]
#[verifier::external_body]
pub struct ExParseIntError(ParseIntError);

/// `solana_hash::ParseHashError`, carried as an opaque value.
#[verifier::external_type_specification]
#[verifier::external_body]
pub struct ExParseHashError(ParseHashError);

/// `solana_pubkey::ParsePubkeyError` (the address crate's `ParseAddressError`),
/// carried as an opaque value.
#[verifier::external_type_specification]
#[verifier::external_body]
pub struct ExParsePubkeyError(ParsePubkeyError);

/// The kinds of `std::num::IntErrorKind` that unsigned parsing reports.
#[derive(Clone, Copy, Debug, PartialEq, Eq)]
pub enum IntTextError {
    Empty,
    InvalidDigit,
    PosOverflow,
    Other,
}

/// The kind that `ParseIntError::kind` reports for an error.
pub uninterp spec fn int_error_kind(e: ParseIntError) -> IntTextError;

/// Calls `ParseIntError::kind` and tells its variants apart; the result is
/// named `int_error_kind`.
#[verifier::external_body]
pub(crate) fn parse_error_kind(e: &ParseIntError) -> (k: IntTextError)
    ensures
        k == int_error_kind(*e),
{
    match e.kind() {
        std::num::IntErrorKind::Empty => IntTextError::Empty,
        std::num::IntErrorKind::InvalidDigit => IntTextError::InvalidDigit,
        std::num::IntErrorKind::PosOverflow => IntTextError::PosOverflow,
        _ => IntTextError::Other,
    }
}

/// The kind of error std's documentation fixes for refusing `s` as an
/// unsigned integer no greater than `max`, where it fixes one: `Empty` for
/// the empty text; `InvalidDigit` when the text after an optional `+` is
/// empty or does not start with a digit; `PosOverflow` for a well-formed
/// number above `max`. `None` elsewhere.
pub open spec fn documented_int_error(s: Seq<char>, max: nat) -> Option<IntTextError> {
    let d = if s.len() > 0 && s[0] == '+' {
        s.drop_first()
    } else {
        s
    };
    if s.len() == 0 {
        Some(IntTextError::Empty)
    } else if d.len() == 0 || !is_digit(d[0]) {
        Some(IntTextError::InvalidDigit)
    } else if unsigned_text_value(s) matches Some(v) && v > max {
        Some(IntTextError::PosOverflow)
    } else {
        None
    }
}

/// Calls `str::parse::<u16>`. std documents that the text must be an optional
/// `+` followed by decimal digits only; the contract claims the result is the
/// denoted value exactly when that value fits in a `u16`, and an error
/// otherwise, of the kind `documented_int_error` gives where the
/// documentation of `IntErrorKind` fixes it (empty text, a misplaced or lone
/// `+`, a number too large).
#[verifier::external_body]
pub(crate) fn parse_u16(s: &str) -> (r: Result<u16, ParseIntError>)
    ensures
        match r {
            Ok(v) => bounded_text_value(s@, u16::MAX as nat) == Some(v as nat),
            Err(e) => bounded_text_value(s@, u16::MAX as nat) is None && (documented_int_error(
                s@,
                u16::MAX as nat,
            ) matches Some(k) ==> int_error_kind(e) == k),
        },
{
    s.parse::<u16>()
}

/// Calls `str::parse::<u64>`; the contract is that of `parse_u16` with the
/// bound of `u64`.
#[verifier::external_body]
pub(crate) fn parse_u64(s: &str) -> (r: Result<u64, ParseIntError>)
    ensures
        match r {
            Ok(v) => bounded_text_value(s@, u64::MAX as nat) == Some(v as nat),
            Err(e) => bounded_text_value(s@, u64::MAX as nat) is None && (documented_int_error(
                s@,
                u64::MAX as nat,
            ) matches Some(k) ==> int_error_kind(e) == k),
        },
{
    s.parse::<u64>()
}

/// Calls `str::parse::<usize>`; the contract is that of `parse_u16` with the
/// bound of `usize`.
#[verifier::external_body]
pub(crate) fn parse_usize(s: &str) -> (r: Result<usize, ParseIntError>)
    ensures
        match r {
            Ok(v) => bounded_text_value(s@, usize::MAX as nat) == Some(v as nat),
            Err(e) => bounded_text_value(s@, usize::MAX as nat) is None && (documented_int_error(
                s@,
                usize::MAX as nat,
            ) matches Some(k) ==> int_error_kind(e) == k),
        },
{
    s.parse::<usize>()
}

/// The 32 bytes that `solana_hash::Hash::from_str` decodes from base58 text,
/// or `None` when it rejects the text.
pub uninterp spec fn hash_text_bytes(s: Seq<char>) -> Option<Seq<u8>>;

/// The 32 bytes that `solana_pubkey::Pubkey::from_str` decodes from base58
/// text, or `None` when it rejects the text.
pub uninterp spec fn pubkey_text_bytes(s: Seq<char>) -> Option<Seq<u8>>;

/// Calls `<solana_hash::Hash as FromStr>::from_str` and hands back the hash's
/// bytes. The contract ties the outcome to the text through
/// `hash_text_bytes`, and states what the source shows plainly: text longer
/// than 44 bytes (so more than 44 characters) is refused. Which error comes
/// back is not stated.
#[verifier::external_body]
pub(crate) fn hash_from_str(s: &str) -> (r: Result<[u8; 32], ParseHashError>)
    ensures
        r is Ok <==> hash_text_bytes(s@) is Some,
        r matches Ok(b) ==> hash_text_bytes(s@) == Some(b@),
        s@.len() > 44 ==> r is Err,
{
    match <solana_hash::Hash as std::str::FromStr>::from_str(s) {
        Ok(hash) => Ok(hash.to_bytes()),
        Err(e) => Err(e),
    }
}

/// Calls `<solana_pubkey::Pubkey as FromStr>::from_str` and hands back the
/// key's bytes. The contract ties the outcome to the text through
/// `pubkey_text_bytes`, and states that text longer than 44 bytes (so more
/// than 44 characters) is refused. Which error comes back is not stated.
#[verifier::external_body]
pub(crate) fn pubkey_from_str(s: &str) -> (r: Result<[u8; 32], ParsePubkeyError>)
    ensures
        r is Ok <==> pubkey_text_bytes(s@) is Some,
        r matches Ok(b) ==> pubkey_text_bytes(s@) == Some(b@),
        s@.len() > 44 ==> r is Err,
{
    match <solana_pubkey::Pubkey as std::str::FromStr>::from_str(s) {
        Ok(key) => Ok(key.to_bytes()),
        Err(e) => Err(e),
    }
}

/// The port that a text denotes, if it is a `u16` in decimal.
pub open spec fn port_text(s: Seq<char>) -> Option<u16> {
    match bounded_text_value(s, u16::MAX as nat) {
        Some(v) => Some(v as u16),
        None => None,
    }
}

/// `s` holds exactly one `-`, at position `k`.
pub open spec fn single_dash_at(s: Seq<char>, k: int) -> bool {
    &&& 0 <= k < s.len()
    &&& s[k] == '-'
    &&& forall|j: int| 0 <= j < s.len() && j != k ==> s[j] != '-'
}

/// The port range `MIN-MAX` that a text denotes: exactly one `-`, a port on
/// each side, and the first no greater than the second.
pub open spec fn port_range_text(s: Seq<char>) -> Option<(u16, u16)> {
    if exists|k: int| single_dash_at(s, k) {
        let k = choose|k: int| single_dash_at(s, k);
        match (port_text(s.subrange(0, k)), port_text(s.subrange(k + 1, s.len() as int))) {
            (Some(lo), Some(hi)) => if lo <= hi {
                Some((lo, hi))
            } else {
                None
            },
            _ => None,
        }
    } else {
        None
    }
}

/// Reads a port range such as `8000-10000`, as `solana_net_utils` does: the
/// text split at `-` must give exactly two ports, the first no greater than
/// the second.
pub fn parse_port_range(s: &str) -> (r: Option<(u16, u16)>)
    ensures
        r == port_range_text(s@),
{
    let n = s.unicode_len();
    let mut dashes: usize = 0;
    let mut first: usize = 0;
    let mut second: usize = 0;
    let mut i: usize = 0;
    while i < n
        invariant
            n == s@.len(),
            0 <= i <= n,
            dashes <= 2,
            dashes == 0 ==> forall|j: int| 0 <= j < i ==> s@[j] != '-',
            dashes == 1 ==> first < i && s@[first as int] == '-' && forall|j: int|
                0 <= j < i && j != first ==> s@[j] != '-',
            dashes == 2 ==> first < second < n && s@[first as int] == '-' && s@[second as int]
                == '-',
        decreases n - i,
    {
        if s.get_char(i) == '-' {
            if dashes == 0 {
                first = i;
                dashes = 1;
            } else if dashes == 1 {
                second = i;
                dashes = 2;
            }
        }
        i = i + 1;
    }
    if dashes != 1 {
        proof {
            if dashes == 2 {
                assert forall|k: int| !single_dash_at(s@, k) by {
                    if single_dash_at(s@, k) {
                        if k == first as int {
                            assert(s@[second as int] != '-');
                        } else {
                            assert(s@[first as int] != '-');
                        }
                    }
                }
            }
        }
        return None;
    }
    proof {
        assert(single_dash_at(s@, first as int));
        let k = choose|k: int| single_dash_at(s@, k);
        assert(k == first as int);
    }
    let lo = parse_u16(s.substring_char(0, first));
    let hi = parse_u16(s.substring_char(first + 1, n));
    match (lo, hi) {
        (Ok(lo), Ok(hi)) => if lo <= hi {
            Some((lo, hi))
        } else {
            None
        },
        _ => None,
    }
}

} // verus!
