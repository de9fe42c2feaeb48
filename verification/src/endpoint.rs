//! The remote endpoint and its resolution from plain inputs.
//!
//! The process around the bridge reads an environment override and the
//! machine's hostname; this module holds the logic that turns those plain
//! values into the endpoint and its connection URL.

use vstd::prelude::*;
use vstd::string::StrSliceExecFns;
use vstd::string::StringExecFns;

verus! {

/// The port used when no valid override is given.
pub const DEFAULT_PORT: u16 = 8647;

/// The remote peer of the bridge: a host name and a port, fixed once
/// resolved and consumed to build the connection URL.
pub struct Endpoint {
    pub host: String,
    pub port: u16,
}

/// The host the bridge connects to: an explicit override wins; otherwise
/// the name is derived from the machine's hostname, with a fixed fallback
/// when the hostname is not available as text.
pub open spec fn host_of(over_ride: Option<Seq<char>>, machine: Option<Seq<char>>) -> Seq<char> {
    match over_ride {
        Option::Some(h) => h,
        Option::None => {
            let base = match machine {
                Option::Some(m) => m,
                Option::None => "localhost"@,
            };
            "lima-"@ + base + "-sandbox"@
        },
    }
}

/// Resolves the remote host from the override (if any) and the machine's
/// hostname (if it could be read as text).
pub fn resolve_host(over_ride: Option<String>, machine: Option<String>) -> (r: String)
    ensures
        r@ == host_of(
            match over_ride {
                Option::Some(h) => Option::Some(h@),
                Option::None => Option::None,
            },
            match machine {
                Option::Some(m) => Option::Some(m@),
                Option::None => Option::None,
            },
        ),
{
    match over_ride {
        Option::Some(h) => h,
        Option::None => {
            let base = match machine {
                Option::Some(m) => m,
                Option::None => String::from_str("localhost"),
            };
            let mut r = String::from_str("lima-");
            r.append(base.as_str());
            r.append("-sandbox");
            r
        },
    }
}

/// Whether `c` is an ASCII decimal digit.
pub open spec fn is_dec_digit(c: char) -> bool {
    48 <= c as u32 <= 57
}

/// The value of a decimal digit; other characters count as zero.
pub open spec fn digit_val(c: char) -> nat {
    if is_dec_digit(c) {
        (c as u32 - 48) as nat
    } else {
        0
    }
}

/// The value of a sequence of decimal digits, most significant first.
pub open spec fn digits_value(s: Seq<char>) -> nat
    decreases s.len(),
{
    if s.len() == 0 {
        0
    } else {
        digits_value(s.drop_last()) * 10 + digit_val(s.last())
    }
}

pub open spec fn all_dec_digits(s: Seq<char>) -> bool {
    forall|i: int| 0 <= i < s.len() ==> is_dec_digit(#[trigger] s[i])
}

/// The digits of a decimal integer literal as a port override spells it:
/// everything after an optional leading plus sign.
pub open spec fn digits_part(s: Seq<char>) -> Seq<char> {
    if s.len() > 0 && s[0] == '+' {
        s.drop_first()
    } else {
        s
    }
}

/// Whether `s` spells a port: an optional plus sign, then one or more
/// decimal digits, with a value that fits in sixteen bits.
pub open spec fn is_port_str(s: Seq<char>) -> bool {
    let d = digits_part(s);
    d.len() > 0 && all_dec_digits(d) && digits_value(d) <= 65535
}

/// The port a valid port string spells.
pub open spec fn port_of(s: Seq<char>) -> nat {
    digits_value(digits_part(s))
}

/// A prefix of a digit sequence never has a larger value than the whole.
proof fn lemma_digits_value_take_le(d: Seq<char>, k: int)
    requires
        0 <= k <= d.len(),
    ensures
        digits_value(d.take(k)) <= digits_value(d),
    decreases d.len(),
{
    if k < d.len() {
        assert(d.drop_last().take(k) =~= d.take(k));
        lemma_digits_value_take_le(d.drop_last(), k);
    } else {
        assert(d.take(k) =~= d);
    }
}

/// Parses a port number the way the original override is read: an
/// optional leading plus sign, then decimal digits. Returns the port
/// exactly when `s` spells one, and nothing otherwise — on an empty
/// digit part, a non-digit character, or a value over 65535.
pub fn parse_port(s: &str) -> (r: Option<u16>)
    ensures
        r is Some <==> is_port_str(s@),
        r matches Some(p) ==> p as nat == port_of(s@),
{
    let n = s.unicode_len();
    let start: usize = if n > 0 && s.get_char(0) == '+' {
        1
    } else {
        0
    };
    let ghost d = digits_part(s@);
    proof {
        assert(d =~= s@.skip(start as int));
    }
    if n == start {
        return None;
    }
    let mut acc: u32 = 0;
    let mut i: usize = start;
    while i < n
        invariant
            start <= i <= n,
            n == s@.len(),
            start == 1 <==> (s@.len() > 0 && s@[0] == '+'),
            start <= 1,
            d == digits_part(s@),
            d =~= s@.skip(start as int),
            all_dec_digits(d.take(i - start)),
            acc <= 65535,
            acc as nat == digits_value(d.take(i - start)),
        decreases n - i,
    {
        let c = s.get_char(i);
        let u = c as u32;
        proof {
            assert(d[i - start] == s@[i as int]);
        }
        if u < 48 || u > 57 {
            proof {
                assert(!is_dec_digit(d[i - start]));
            }
            return None;
        }
        let next: u32 = acc * 10 + (u - 48);
        proof {
            assert(d.take(i + 1 - start).drop_last() =~= d.take(i - start));
            assert(d.take(i + 1 - start).last() == d[i - start]);
        }
        if next > 65535 {
            proof {
                lemma_digits_value_take_le(d, i + 1 - start);
                assert(digits_value(d.take(i + 1 - start)) == next);
            }
            return None;
        }
        acc = next;
        i = i + 1;
    }
    proof {
        assert(d.take(n - start) =~= d);
    }
    Some(acc as u16)
}

/// The port the bridge connects to: a valid override wins; any other
/// override, and none at all, fall back to the default.
pub fn resolve_port(over_ride: Option<String>) -> (r: u16)
    ensures
        (match over_ride {
            Option::Some(s) => if is_port_str(s@) {
                r as nat == port_of(s@)
            } else {
                r == DEFAULT_PORT
            },
            Option::None => r == DEFAULT_PORT,
        }),
{
    match over_ride {
        Option::Some(s) => match parse_port(s.as_str()) {
            Option::Some(p) => p,
            Option::None => DEFAULT_PORT,
        },
        Option::None => DEFAULT_PORT,
    }
}

/// The character of a decimal digit value.
pub open spec fn digit_char(d: nat) -> char {
    if d == 0 {
        '0'
    } else if d == 1 {
        '1'
    } else if d == 2 {
        '2'
    } else if d == 3 {
        '3'
    } else if d == 4 {
        '4'
    } else if d == 5 {
        '5'
    } else if d == 6 {
        '6'
    } else if d == 7 {
        '7'
    } else if d == 8 {
        '8'
    } else {
        '9'
    }
}

/// The decimal spelling of `n`, without sign or leading zeros.
pub open spec fn dec_digits(n: nat) -> Seq<char>
    decreases n,
{
    if n < 10 {
        seq![digit_char(n)]
    } else {
        dec_digits(n / 10).push(digit_char(n % 10))
    }
}

/// The one-character string of a decimal digit value.
fn digit_str(d: u16) -> (r: &'static str)
    requires
        d < 10,
    ensures
        r@ == seq![digit_char(d as nat)],
{
    let r: &'static str = match d {
        0 => "0",
        1 => "1",
        2 => "2",
        3 => "3",
        4 => "4",
        5 => "5",
        6 => "6",
        7 => "7",
        8 => "8",
        _ => "9",
    };
    proof {
        reveal_strlit("0");
        reveal_strlit("1");
        reveal_strlit("2");
        reveal_strlit("3");
        reveal_strlit("4");
        reveal_strlit("5");
        reveal_strlit("6");
        reveal_strlit("7");
        reveal_strlit("8");
        reveal_strlit("9");
        assert(r@ =~= seq![digit_char(d as nat)]);
    }
    r
}

/// Renders `n` in decimal, as the connection URL spells the port.
pub fn dec_str(n: u16) -> (r: String)
    ensures
        r@ == dec_digits(n as nat),
    decreases n,
{
    if n < 10 {
        digit_str(n).to_owned()
    } else {
        let mut r = dec_str(n / 10);
        r.append(digit_str(n % 10));
        proof {
            assert(r@ =~= dec_digits(n as nat));
        }
        r
    }
}

/// The connection URL of an endpoint: its host and port spliced into the
/// plain-transport scheme.
pub open spec fn url_of(host: Seq<char>, port: u16) -> Seq<char> {
    "ws://"@ + host + ":"@ + dec_digits(port as nat)
}

/// Builds the URL the transport connector dials for `ep`.
pub fn connection_url(ep: &Endpoint) -> (r: String)
    ensures
        r@ == url_of(ep.host@, ep.port),
{
    let mut r = String::from_str("ws://");
    r.append(ep.host.as_str());
    r.append(":");
    let digits = dec_str(ep.port);
    r.append(digits.as_str());
    r
}

} // verus!
