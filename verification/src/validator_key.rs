//! Validator identities as textual keys: a hex string encoding a one-byte
//! algorithm tag followed by a fixed-length public key.  Tag 1 takes a
//! 32-byte key, tag 2 a 33-byte key; any other tag, a length mismatch, or a
//! string that is not hex is an invalid key.  Constructing the actual
//! cryptographic key object from the decoded bytes is the host's job.

use vstd::prelude::*;

use crate::errors::VaultError;

verus! {

/// Algorithm tag of a 32-byte key.
pub const KEY_TAG_32: u8 = 1;

/// Algorithm tag of a 33-byte key.
pub const KEY_TAG_33: u8 = 2;

/// Whether `c` is a hexadecimal digit, in either case.
pub open spec fn is_hex_digit(c: char) -> bool {
    ||| ('0' as u32) <= (c as u32) && (c as u32) <= ('9' as u32)
    ||| ('a' as u32) <= (c as u32) && (c as u32) <= ('f' as u32)
    ||| ('A' as u32) <= (c as u32) && (c as u32) <= ('F' as u32)
}

/// The numeric value of the hexadecimal digit `c`.
pub open spec fn hex_digit_value(c: char) -> int {
    if ('0' as u32) <= (c as u32) && (c as u32) <= ('9' as u32) {
        (c as u32) - ('0' as u32)
    } else if ('a' as u32) <= (c as u32) && (c as u32) <= ('f' as u32) {
        10 + (c as u32) - ('a' as u32)
    } else {
        10 + (c as u32) - ('A' as u32)
    }
}

/// Whether `s` is a well-formed hex string: an even number of hex digits.
pub open spec fn hex_well_formed(s: Seq<char>) -> bool {
    &&& s.len() % 2 == 0
    &&& forall|i: int| 0 <= i < s.len() ==> is_hex_digit(#[trigger] s[i])
}

/// The bytes a well-formed hex string encodes, two digits per byte.
pub open spec fn hex_decoded(s: Seq<char>) -> Seq<u8> {
    Seq::new(
        (s.len() / 2) as nat,
        |i: int| (16 * hex_digit_value(s[2 * i]) + hex_digit_value(s[2 * i + 1])) as u8,
    )
}

/// Whether `s` encodes a valid validator key: well-formed hex whose first
/// byte is a known algorithm tag followed by a key of that tag's length.
pub open spec fn valid_validator_key(s: Seq<char>) -> bool {
    &&& hex_well_formed(s)
    &&& s.len() > 0
    &&& {
        let bytes = hex_decoded(s);
        ||| (bytes[0] == KEY_TAG_32 && bytes.len() == 33)
        ||| (bytes[0] == KEY_TAG_33 && bytes.len() == 34)
    }
}

/// A decoded validator key: the algorithm tag and the raw key bytes.
#[derive(Debug, PartialEq, Eq)]
pub struct ValidatorKey {
    pub algorithm_tag: u8,
    pub key_bytes: Vec<u8>,
}

/// The numeric value of the hexadecimal digit `c`, or `None` when `c` is no
/// hex digit.
fn hex_digit_of(c: char) -> (r: Option<u8>)
    ensures
        r is Some <==> is_hex_digit(c),
        r is Some ==> r->0 as int == hex_digit_value(c),
{
    let x = c as u32;
    if '0' as u32 <= x && x <= '9' as u32 {
        Some((x - '0' as u32) as u8)
    } else if 'a' as u32 <= x && x <= 'f' as u32 {
        Some((x - 'a' as u32 + 10) as u8)
    } else if 'A' as u32 <= x && x <= 'F' as u32 {
        Some((x - 'A' as u32 + 10) as u8)
    } else {
        None
    }
}

/// Decode a hex string to bytes; a string that is not well-formed hex
/// decodes to nothing.
pub fn hex_decode(hex_str: &str) -> (r: Vec<u8>)
    ensures
        hex_well_formed(hex_str@) ==> r@ == hex_decoded(hex_str@),
        !hex_well_formed(hex_str@) ==> r@.len() == 0,
{
    let n = hex_str.unicode_len();
    let mut bytes: Vec<u8> = Vec::new();
    if n % 2 != 0 {
        return bytes;
    }
    let mut i: usize = 0;
    while i < n / 2
        invariant
            n == hex_str@.len(),
            n % 2 == 0,
            i <= n / 2,
            bytes@.len() == i,
            forall|k: int| 0 <= k < 2 * i ==> is_hex_digit(#[trigger] hex_str@[k]),
            forall|k: int|
                0 <= k < i ==> (#[trigger] bytes@[k]) as int == 16 * hex_digit_value(
                    hex_str@[2 * k],
                ) + hex_digit_value(hex_str@[2 * k + 1]),
        decreases n / 2 - i,
    {
        let hi = hex_str.get_char(2 * i);
        let lo = hex_str.get_char(2 * i + 1);
        let hv = match hex_digit_of(hi) {
            Some(v) => v,
            None => {
                return Vec::new();
            },
        };
        let lv = match hex_digit_of(lo) {
            Some(v) => v,
            None => {
                return Vec::new();
            },
        };
        bytes.push(hv * 16 + lv);
        i = i + 1;
    }
    proof {
        assert(bytes@ =~= hex_decoded(hex_str@));
    }
    bytes
}

/// Parse a validator key string into its algorithm tag and key bytes;
/// anything but a well-formed, correctly sized key is rejected.
pub fn parse_validator_key(validator_key: &str) -> (r: Result<ValidatorKey, VaultError>)
    ensures
        r is Ok <==> valid_validator_key(validator_key@),
        r is Ok ==> r->Ok_0.algorithm_tag == hex_decoded(validator_key@)[0]
            && r->Ok_0.key_bytes@ == hex_decoded(validator_key@).skip(1),
        r is Err ==> r->Err_0 == VaultError::InvalidValidatorKey,
{
    let mut bytes = hex_decode(validator_key);
    if bytes.len() == 0 {
        proof {
            if valid_validator_key(validator_key@) {
                assert(hex_decoded(validator_key@).len() > 0);
            }
        }
        return Err(VaultError::InvalidValidatorKey);
    }
    let algo_tag = bytes[0];
    if algo_tag == KEY_TAG_32 {
        if bytes.len() != 33 {
            return Err(VaultError::InvalidValidatorKey);
        }
    } else if algo_tag == KEY_TAG_33 {
        if bytes.len() != 34 {
            return Err(VaultError::InvalidValidatorKey);
        }
    } else {
        return Err(VaultError::InvalidValidatorKey);
    }
    bytes.remove(0);
    proof {
        assert(bytes@ =~= hex_decoded(validator_key@).skip(1));
    }
    Ok(ValidatorKey { algorithm_tag: algo_tag, key_bytes: bytes })
}

/// Whether `validator_key` encodes a valid validator key.
pub fn is_valid_validator_key(validator_key: &str) -> (r: bool)
    ensures
        r == valid_validator_key(validator_key@),
{
    parse_validator_key(validator_key).is_ok()
}

} // verus!
