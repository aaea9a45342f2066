//! Document identifiers: 12-byte values written as 24 hexadecimal characters.

use vstd::prelude::*;

verus! {

/// One more than the largest value a 12-byte identifier can hold (16^24).
pub const OBJECT_ID_LIMIT: u128 = 0x1000000000000000000000000;

/// A 12-byte document identifier, held as its 96-bit value.
#[derive(Clone, Copy, PartialEq, Eq, Structural, Debug)]
pub struct ObjectId {
    pub value: u128,
}

impl ObjectId {
    /// A well-formed identifier fits in 12 bytes.
    pub open spec fn is_valid(self) -> bool {
        self.value < OBJECT_ID_LIMIT
    }
}

/// Why a string was rejected as an identifier: it did not have 24
/// characters, or a character at some position was not a hexadecimal digit.
#[derive(Clone, Copy, PartialEq, Eq, Structural, Debug)]
pub enum OidError {
    InvalidLength(usize),
    InvalidCharacter(char, usize),
}

/// The description `OidError::message` returns for each failure.
pub open spec fn oid_error_text(e: OidError) -> Seq<char> {
    match e {
        OidError::InvalidLength(_) => "invalid hex string length"@,
        OidError::InvalidCharacter(_, _) => "invalid character in hex string"@,
    }
}

impl OidError {
    /// A short description of the failure, used in HTTP error bodies.
    pub fn message(&self) -> (m: &'static str)
        ensures
            m@ == oid_error_text(*self),
    {
        match self {
            OidError::InvalidLength(_) => "invalid hex string length",
            OidError::InvalidCharacter(_, _) => "invalid character in hex string",
        }
    }
}

pub open spec fn is_hex_digit(c: char) -> bool {
    ||| '0' as int <= c as int <= '9' as int
    ||| 'a' as int <= c as int <= 'f' as int
    ||| 'A' as int <= c as int <= 'F' as int
}

pub open spec fn hex_digit_value(c: char) -> int {
    if '0' as int <= c as int <= '9' as int {
        c as int - '0' as int
    } else if 'a' as int <= c as int <= 'f' as int {
        10 + c as int - 'a' as int
    } else {
        10 + c as int - 'A' as int
    }
}

/// The value of a string of hexadecimal digits, most significant first.
pub open spec fn hex_value(s: Seq<char>) -> int
    decreases s.len(),
{
    if s.len() == 0 {
        0
    } else {
        16 * hex_value(s.drop_last()) + hex_digit_value(s.last())
    }
}

pub open spec fn pow16(n: nat) -> int
    decreases n,
{
    if n == 0 {
        1
    } else {
        16 * pow16((n - 1) as nat)
    }
}

proof fn lemma_pow16_positive(n: nat)
    ensures
        pow16(n) >= 1,
    decreases n,
{
    if n > 0 {
        lemma_pow16_positive((n - 1) as nat);
    }
}

proof fn lemma_pow16_is_object_id_limit()
    ensures
        pow16(24) == OBJECT_ID_LIMIT,
{
    reveal_with_fuel(pow16, 25);
}

proof fn lemma_pow16_increases(a: nat, b: nat)
    requires
        a <= b,
    ensures
        pow16(a) <= pow16(b),
        pow16(a) >= 1,
    decreases b,
{
    lemma_pow16_positive(a);
    if a < b {
        lemma_pow16_increases(a, (b - 1) as nat);
    }
}

/// A string that parses as an identifier: exactly 24 hexadecimal digits.
pub open spec fn valid_oid_str(s: Seq<char>) -> bool {
    s.len() == 24 && (forall|j: int| 0 <= j < 24 ==> is_hex_digit(#[trigger] s[j]))
}

/// The identifier a valid string denotes.
pub open spec fn oid_of_str(s: Seq<char>) -> ObjectId {
    ObjectId { value: hex_value(s) as u128 }
}

/// Decodes one hexadecimal digit; `None` exactly on non-digits.
fn hex_digit(c: char) -> (r: Option<u8>)
    ensures
        match r {
            Some(d) => is_hex_digit(c) && d as int == hex_digit_value(c) && d < 16,
            None => !is_hex_digit(c),
        },
{
    let u = c as u32;
    if u >= '0' as u32 && u <= '9' as u32 {
        Some((u - '0' as u32) as u8)
    } else if u >= 'a' as u32 && u <= 'f' as u32 {
        Some((10 + u - 'a' as u32) as u8)
    } else if u >= 'A' as u32 && u <= 'F' as u32 {
        Some((10 + u - 'A' as u32) as u8)
    } else {
        None
    }
}

impl ObjectId {
    /// Parses a 24-character hexadecimal string into an identifier.
    /// Accepts both upper- and lower-case digits; reports the length when it
    /// is not 24, otherwise the first offending character and its position.
    pub fn parse_str(s: &str) -> (r: Result<ObjectId, OidError>)
        ensures
            match r {
                Ok(oid) => valid_oid_str(s@) && oid == oid_of_str(s@) && oid.is_valid(),
                Err(OidError::InvalidLength(n)) => n == s@.len() && s@.len() != 24,
                Err(OidError::InvalidCharacter(c, i)) => s@.len() == 24 && i < 24 && !is_hex_digit(
                    s@[i as int],
                ) && c == s@[i as int] && (forall|j: int|
                    0 <= j < i ==> is_hex_digit(#[trigger] s@[j])),
            },
    {
        let n = s.unicode_len();
        if n != 24 {
            return Err(OidError::InvalidLength(n));
        }
        let mut value: u128 = 0;
        let mut i: usize = 0;
        proof {
            lemma_pow16_is_object_id_limit();
        }
        while i < 24
            invariant
                s@.len() == 24,
                i <= 24,
                forall|j: int| 0 <= j < i ==> is_hex_digit(#[trigger] s@[j]),
                value == hex_value(s@.take(i as int)),
                value < pow16(i as nat),
            decreases 24 - i,
        {
            let c = s.get_char(i);
            match hex_digit(c) {
                None => {
                    return Err(OidError::InvalidCharacter(c, i));
                },
                Some(d) => {
                    proof {
                        lemma_pow16_increases((i + 1) as nat, 24);
                        assert(s@.take(i + 1).drop_last() =~= s@.take(i as int));
                        assert(s@.take(i + 1).last() == s@[i as int]);
                    }
                    value = value * 16 + d as u128;
                },
            }
            i += 1;
        }
        proof {
            assert(s@.take(24) =~= s@);
        }
        Ok(ObjectId { value })
    }
}

} // verus!
