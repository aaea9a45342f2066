//! Startup configuration: where the store lives and where to listen.
//! The two values are read from the environment by the program around the
//! library; what they resolve to is decided here.

use vstd::prelude::*;
use vstd::string::StrSliceExecFns;

verus! {

/// The two settings the backend starts with.
#[derive(Debug)]
pub struct Config {
    pub database_url: String,
    pub port: u16,
}

pub open spec fn is_dec_digit(c: char) -> bool {
    '0' as int <= c as int <= '9' as int
}

pub open spec fn dec_digit_value(c: char) -> int {
    c as int - '0' as int
}

/// The value of a string of decimal digits, most significant first.
pub open spec fn dec_value(s: Seq<char>) -> int
    decreases s.len(),
{
    if s.len() == 0 {
        0
    } else {
        10 * dec_value(s.drop_last()) + dec_digit_value(s.last())
    }
}

/// The digits of a port text: a single leading `+` is allowed.
pub open spec fn port_digits(s: Seq<char>) -> Seq<char> {
    if s.len() >= 1 && s[0] == '+' {
        s.skip(1)
    } else {
        s
    }
}

/// The port a text denotes: at least one decimal digit after an optional
/// leading `+`, and a value of at most 65535; anything else denotes none.
pub open spec fn parsed_port(s: Seq<char>) -> Option<u16> {
    let d = port_digits(s);
    if d.len() >= 1 && (forall|j: int| 0 <= j < d.len() ==> is_dec_digit(#[trigger] d[j]))
        && dec_value(d) <= 65535 {
        Some(dec_value(d) as u16)
    } else {
        None
    }
}

proof fn lemma_dec_value_nonneg(d: Seq<char>)
    requires
        forall|j: int| 0 <= j < d.len() ==> is_dec_digit(#[trigger] d[j]),
    ensures
        dec_value(d) >= 0,
    decreases d.len(),
{
    if d.len() > 0 {
        lemma_dec_value_nonneg(d.drop_last());
    }
}

/// A prefix of a digit string never exceeds the whole string's value.
proof fn lemma_dec_value_prefix_le(d: Seq<char>, i: int)
    requires
        0 <= i <= d.len(),
        forall|j: int| 0 <= j < d.len() ==> is_dec_digit(#[trigger] d[j]),
    ensures
        dec_value(d.take(i)) <= dec_value(d),
    decreases d.len(),
{
    if i == d.len() {
        assert(d.take(i) =~= d);
    } else {
        lemma_dec_value_nonneg(d.drop_last());
        lemma_dec_value_prefix_le(d.drop_last(), i);
        assert(d.drop_last().take(i) =~= d.take(i));
    }
}

/// Decodes one decimal digit; `None` exactly on non-digits.
fn dec_digit(c: char) -> (r: Option<u8>)
    ensures
        match r {
            Some(v) => is_dec_digit(c) && v as int == dec_digit_value(c) && v < 10,
            None => !is_dec_digit(c),
        },
{
    let u = c as u32;
    if u >= '0' as u32 && u <= '9' as u32 {
        Some((u - '0' as u32) as u8)
    } else {
        None
    }
}

/// Parses a port number: an optional leading `+`, then decimal digits
/// valuing at most 65535.
pub fn parse_port(s: &str) -> (r: Option<u16>)
    ensures
        r == parsed_port(s@),
{
    let n = s.unicode_len();
    let start: usize = if n >= 1 && s.get_char(0) == '+' {
        1
    } else {
        0
    };
    let ghost d = port_digits(s@);
    proof {
        assert(d =~= s@.subrange(start as int, n as int));
    }
    if n == start {
        return None;
    }
    let mut value: u32 = 0;
    let mut i: usize = start;
    while i < n
        invariant
            start <= i <= n,
            n == s@.len(),
            d == port_digits(s@),
            d =~= s@.subrange(start as int, n as int),
            forall|j: int| 0 <= j < i - start ==> is_dec_digit(#[trigger] d[j]),
            value == dec_value(d.take(i - start)),
            value <= 65535,
        decreases n - i,
    {
        let c = s.get_char(i);
        let v = match dec_digit(c) {
            Some(v) => v,
            None => {
                proof {
                    assert(d[i - start] == s@[i as int]);
                }
                return None;
            },
        };
        proof {
            assert(d.take(i - start + 1).drop_last() =~= d.take(i - start));
            assert(d.take(i - start + 1).last() == d[i - start]);
            assert(d[i - start] == s@[i as int]);
        }
        let next = value * 10 + v as u32;
        if next > 65535 {
            proof {
                if forall|j: int| 0 <= j < d.len() ==> is_dec_digit(#[trigger] d[j]) {
                    lemma_dec_value_prefix_le(d, i - start + 1);
                }
            }
            return None;
        }
        value = next;
        i += 1;
    }
    proof {
        assert(d.take(d.len() as int) =~= d);
    }
    Some(value as u16)
}

impl Config {
    /// What two environment values resolve to: the given database URL or the
    /// in-memory default, and the given port text when it parses, else 8080.
    pub fn from_env_values(database_url: Option<String>, port: Option<String>) -> (c: Config)
        ensures
            (match database_url {
                Some(u) => c.database_url == u,
                None => c.database_url@ == "sqlite://:memory:"@,
            }),
            (match port {
                Some(p) => c.port == (match parsed_port(p@) {
                    Some(v) => v,
                    None => 8080u16,
                }),
                None => c.port == 8080,
            }),
    {
        let database_url = match database_url {
            Some(u) => u,
            None => "sqlite://:memory:".to_owned(),
        };
        let port_value: u16 = match port {
            Some(p) => match parse_port(p.as_str()) {
                Some(v) => v,
                None => 8080,
            },
            None => 8080,
        };
        Config { database_url, port: port_value }
    }
}

} // verus!
