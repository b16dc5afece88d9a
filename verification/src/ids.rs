//! Identifier types for accounts and characters.
//!
//! Upstream identifies both by UUIDs; the core only ever compares them and
//! moves them around, so each is held as its 128-bit value. The hyphenated
//! text form (8-4-4-4-12 lowercase hex digits) is produced here for keys in
//! log lines and request paths.

use vstd::prelude::*;

use crate::text::ascii_to_string;

verus! {

/// Stable identifier of an account, the 128-bit value of its UUID.
#[derive(Clone, Copy, PartialEq, Eq, Structural, Debug, Hash)]
pub struct AccountId(pub u128);

/// Identifier of a character, namespaced per account; same shape as
/// [`AccountId`].
#[derive(Clone, Copy, PartialEq, Eq, Structural, Debug, Hash)]
pub struct CharacterId(pub u128);

/// The lowercase hex digit of a value below sixteen.
pub open spec fn spec_hex_digit(n: u128) -> char {
    if n == 0 {
        '0'
    } else if n == 1 {
        '1'
    } else if n == 2 {
        '2'
    } else if n == 3 {
        '3'
    } else if n == 4 {
        '4'
    } else if n == 5 {
        '5'
    } else if n == 6 {
        '6'
    } else if n == 7 {
        '7'
    } else if n == 8 {
        '8'
    } else if n == 9 {
        '9'
    } else if n == 10 {
        'a'
    } else if n == 11 {
        'b'
    } else if n == 12 {
        'c'
    } else if n == 13 {
        'd'
    } else if n == 14 {
        'e'
    } else {
        'f'
    }
}

/// The `j`-th hex digit of a 128-bit value, counting from the most
/// significant.
pub open spec fn spec_nibble(v: u128, j: int) -> u128
    recommends
        0 <= j < 32,
{
    (v >> (((31 - j) * 4) as u128)) & 0xf
}

/// Whether position `i` of the hyphenated form holds a hyphen.
pub open spec fn spec_hyphen_pos(i: int) -> bool {
    i == 8 || i == 13 || i == 18 || i == 23
}

/// Which hex digit stands at position `i` of the hyphenated form.
pub open spec fn spec_digit_index(i: int) -> int {
    if i < 8 {
        i
    } else if i < 13 {
        i - 1
    } else if i < 18 {
        i - 2
    } else if i < 23 {
        i - 3
    } else {
        i - 4
    }
}

/// The 36-character hyphenated form of a 128-bit identifier.
pub open spec fn spec_hyphenated(v: u128) -> Seq<char> {
    Seq::new(
        36,
        |i: int|
            if spec_hyphen_pos(i) {
                '-'
            } else {
                spec_hex_digit(spec_nibble(v, spec_digit_index(i)))
            },
    )
}

/// The ASCII byte of the lowercase hex digit of a value below sixteen.
fn hex_digit_byte(n: u8) -> (r: u8)
    requires
        n < 16,
    ensures
        r < 128,
        r as char == spec_hex_digit(n as u128),
{
    if n < 10 {
        48 + n
    } else {
        87 + n
    }
}

/// Formats a 128-bit identifier in the hyphenated form.
pub fn hyphenated_u128(v: u128) -> (r: String)
    ensures
        r@ == spec_hyphenated(v),
{
    let mut bytes: Vec<u8> = Vec::new();
    for i in 0..36usize
        invariant
            bytes@.len() == i,
            forall|t: int| 0 <= t < i ==> bytes@[t] < 128,
            forall|t: int| 0 <= t < i ==> bytes@[t] as char == spec_hyphenated(v)[t],
    {
        if i == 8 || i == 13 || i == 18 || i == 23 {
            bytes.push(45u8);
            proof {
                assert((45u8) as char == '-');
            }
        } else {
            let j: usize = if i < 8 {
                i
            } else if i < 13 {
                i - 1
            } else if i < 18 {
                i - 2
            } else if i < 23 {
                i - 3
            } else {
                i - 4
            };
            let shift: u128 = ((31 - j) * 4) as u128;
            let nib = ((v >> shift) & 0xf) as u8;
            proof {
                assert((v >> shift) & 0xf < 16) by (bit_vector);
            }
            bytes.push(hex_digit_byte(nib));
        }
    }
    let r = ascii_to_string(bytes);
    proof {
        assert(r@ =~= spec_hyphenated(v));
    }
    r
}

impl AccountId {
    /// The identifier's hyphenated text form.
    pub fn hyphenated(&self) -> (r: String)
        ensures
            r@ == spec_hyphenated(self.0),
    {
        hyphenated_u128(self.0)
    }
}

impl CharacterId {
    /// The identifier's hyphenated text form.
    pub fn hyphenated(&self) -> (r: String)
        ensures
            r@ == spec_hyphenated(self.0),
    {
        hyphenated_u128(self.0)
    }
}

} // verus!
