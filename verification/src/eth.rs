//! Parsing of hexadecimal account addresses.
//!
//! An address arrives as forty hexadecimal digits, with or without a
//! leading `0x`, and decodes to twenty bytes.  The decoding itself is
//! done by the `hex` crate behind a trusted wrapper with an exact
//! contract.

use vstd::prelude::*;
use vstd::string::StringSliceAdditionalSpecFns;

verus! {

/// Whether `b` is the code of a hexadecimal digit.
pub open spec fn spec_is_hex_digit(b: u8) -> bool {
    ||| (48 <= b <= 57)  // '0' to '9'
    ||| (97 <= b <= 102)  // 'a' to 'f'
    ||| (65 <= b <= 70)  // 'A' to 'F'
}

/// The value of one hexadecimal digit code.
pub open spec fn spec_hex_val(b: u8) -> int {
    if 48 <= b <= 57 {
        b - 48
    } else if 97 <= b <= 102 {
        b - 97 + 10
    } else if 65 <= b <= 70 {
        b - 65 + 10
    } else {
        0
    }
}

/// Whether a byte string is well-formed hexadecimal: even length, every
/// byte a digit.
pub open spec fn spec_is_hex(s: Seq<u8>) -> bool {
    s.len() % 2 == 0 && forall|i: int| 0 <= i < s.len() ==> spec_is_hex_digit(#[trigger] s[i])
}

/// The bytes a well-formed hexadecimal string decodes to: two digits per
/// byte, high digit first.
pub open spec fn spec_hex_decode(s: Seq<u8>) -> Seq<u8> {
    Seq::new((s.len() / 2) as nat, |i: int| (spec_hex_val(s[2 * i]) * 16 + spec_hex_val(
        s[2 * i + 1],
    )) as u8)
}

/// Relies on `hex::decode`: succeeds exactly on an even number of
/// hexadecimal digits and yields one byte per digit pair, high digit
/// first.
#[verifier::external_body]
fn hex_decode(bytes: &[u8]) -> (r: Option<Vec<u8>>)
    ensures
        r is Some <==> spec_is_hex(bytes@),
        r matches Some(v) ==> v@ == spec_hex_decode(bytes@),
{
    hex::decode(bytes).ok()
}

/// The address bytes with any `0x` prefix stripped.
pub open spec fn spec_stripped(b: Seq<u8>) -> Seq<u8> {
    if b.len() >= 2 && b[0] == 48 && b[1] == 120 {
        b.subrange(2, b.len() as int)
    } else {
        b
    }
}

/// Parses a forty-digit hexadecimal account address, with or without a
/// leading `0x`, into its twenty bytes.
pub fn parse_eth_address(s: &str) -> (r: Option<Vec<u8>>)
    ensures
        r is Some <==> (spec_stripped(s.spec_bytes()).len() == 40 && spec_is_hex(
            spec_stripped(s.spec_bytes()),
        )),
        r matches Some(v) ==> v@ == spec_hex_decode(spec_stripped(s.spec_bytes())) && v@.len()
            == 20,
{
    let b = s.as_bytes();
    let n = b.len();

    let start: usize = if n >= 2 && b[0] == 48 && b[1] == 120 {
        2
    } else {
        0
    };

    if n - start != 40 {
        return None;
    }

    let mut stripped: Vec<u8> = Vec::new();
    let mut i: usize = start;
    while i < n
        invariant
            start <= i <= n,
            n == b@.len(),
            stripped@ == b@.subrange(start as int, i as int),
        decreases n - i,
    {
        proof {
            assert(b@.subrange(start as int, i + 1) =~= b@.subrange(start as int, i as int).push(
                b@[i as int],
            ));
        }
        stripped.push(b[i]);
        i = i + 1;
    }
    proof {
        assert(stripped@ =~= spec_stripped(s.spec_bytes()));
    }

    match hex_decode(stripped.as_slice()) {
        Some(v) => {
            proof {
                assert(v@.len() == 20);
            }
            Some(v)
        },
        None => None,
    }
}

} // verus!
