use vstd::prelude::*;

use crate::error::{ErrorKind, MachineError};
use crate::text::{
    chars_of, drop_end_while, lemma_drop_end_while_take, lemma_drop_while_skip, string_from,
    take_while,
};

verus! {

/// The port that an SSH target without one is reached at.
pub const DEFAULT_SSH_PORT: u16 = 22;

/// Whether `c` is an ASCII decimal digit.
pub open spec fn is_digit(c: char) -> bool {
    '0' <= c && c <= '9'
}

/// Every character of `s` is an ASCII decimal digit.
pub open spec fn all_digits(s: Seq<char>) -> bool {
    forall|i: int| 0 <= i < s.len() ==> is_digit(#[trigger] s[i])
}

/// The number that the decimal digits `s` write.
pub open spec fn digits_value(s: Seq<char>) -> nat
    decreases s.len(),
{
    if s.len() == 0 {
        0
    } else {
        digits_value(s.drop_last()) * 10 + ((s.last() as u32) - ('0' as u32)) as nat
    }
}

/// What `str::parse::<u16>` gives for `s`: an optional `+`, then decimal
/// digits that write a number of at most 65535.
pub open spec fn parse_u16_spec(s: Seq<char>) -> Option<u16> {
    let body = if s.len() > 0 && s[0] == '+' {
        s.drop_first()
    } else {
        s
    };
    if body.len() > 0 && all_digits(body) && digits_value(body) <= 65535 {
        Some(digits_value(body) as u16)
    } else {
        None
    }
}

/// A prefix of decimal digits writes no more than the whole.
proof fn lemma_digits_value_prefix(s: Seq<char>, i: int)
    requires
        0 <= i <= s.len(),
        all_digits(s),
    ensures
        digits_value(s.take(i)) <= digits_value(s),
    decreases s.len() - i,
{
    if i < s.len() {
        let t = s.drop_last();
        assert(all_digits(t)) by {
            assert forall|k: int| 0 <= k < t.len() implies is_digit(#[trigger] t[k]) by {
                assert(t[k] == s[k]);
            }
        }
        lemma_digits_value_prefix(t, i);
        assert(t.take(i) == s.take(i));
    } else {
        assert(s.take(i) == s);
    }
}

/// The value of the decimal digits `v[lo..hi]`, or `None` where it exceeds 65535.
fn digits_u16(v: &Vec<char>, lo: usize, hi: usize) -> (r: Option<u16>)
    requires
        lo <= hi <= v.len(),
        all_digits(v@.subrange(lo as int, hi as int)),
    ensures
        r is Some <==> digits_value(v@.subrange(lo as int, hi as int)) <= 65535,
        r matches Some(n) ==> n == digits_value(v@.subrange(lo as int, hi as int)),
{
    let ghost s = v@.subrange(lo as int, hi as int);
    let mut value: u32 = 0;
    let mut i: usize = lo;
    while i < hi
        invariant
            lo <= i <= hi <= v.len(),
            s == v@.subrange(lo as int, hi as int),
            all_digits(s),
            value == digits_value(s.take(i - lo)),
            value <= 65535,
        decreases hi - i,
    {
        let c = v[i];
        proof {
            assert(s[i - lo] == c);
            assert(s.take(i - lo + 1).drop_last() == s.take(i - lo));
            assert(s.take(i - lo + 1).last() == c);
        }
        let d = (c as u32) - ('0' as u32);
        let next = value * 10 + d;
        if next > 65535 {
            proof {
                lemma_digits_value_prefix(s, i - lo + 1);
            }
            return None;
        }
        value = next;
        i = i + 1;
    }
    assert(s.take(hi - lo) == s);
    Some(value as u16)
}

/// What `str::parse::<u16>` gives for `v[lo..hi]`.
pub fn parse_u16(v: &Vec<char>, lo: usize, hi: usize) -> (r: Option<u16>)
    requires
        lo <= hi <= v.len(),
    ensures
        r == parse_u16_spec(v@.subrange(lo as int, hi as int)),
{
    let ghost s = v@.subrange(lo as int, hi as int);
    let start = if lo < hi && v[lo] == '+' {
        lo + 1
    } else {
        lo
    };
    proof {
        if lo < hi && v@[lo as int] == '+' {
            assert(s[0] == v@[lo as int]);
            assert(s.drop_first() == v@.subrange(start as int, hi as int));
        } else {
            if lo < hi {
                assert(s[0] == v@[lo as int]);
            }
        }
    }
    let ghost body = v@.subrange(start as int, hi as int);
    assert(body == (if s.len() > 0 && s[0] == '+' { s.drop_first() } else { s }));
    if start == hi {
        return None;
    }
    let mut i: usize = start;
    while i < hi
        invariant
            start <= i <= hi <= v.len(),
            body == v@.subrange(start as int, hi as int),
            s == v@.subrange(lo as int, hi as int),
            body == (if s.len() > 0 && s[0] == '+' { s.drop_first() } else { s }),
            forall|k: int| start <= k < i ==> is_digit(#[trigger] v@[k]),
        decreases hi - i,
    {
        if !('0' <= v[i] && v[i] <= '9') {
            proof {
                assert(body[i - start] == v@[i as int]);
                assert(!all_digits(body));
            }
            return None;
        }
        i = i + 1;
    }
    proof {
        let body = v@.subrange(start as int, hi as int);
        assert forall|k: int| 0 <= k < body.len() implies is_digit(#[trigger] body[k]) by {
            assert(body[k] == v@[start + k]);
        }
    }
    digits_u16(v, start, hi)
}

/// The characters other than `c`.
pub open spec fn other_than(c: char) -> spec_fn(char) -> bool {
    |x: char| x != c
}

/// `s` split at its first `c`: what precedes it and what follows it.
pub open spec fn split_first(s: Seq<char>, c: char) -> Option<(Seq<char>, Seq<char>)> {
    let pre = take_while(s, other_than(c));
    if pre.len() < s.len() {
        Some((pre, s.skip(pre.len() as int + 1)))
    } else {
        None
    }
}

/// `s` split at its last `c`: what precedes it and what follows it.
pub open spec fn split_last(s: Seq<char>, c: char) -> Option<(Seq<char>, Seq<char>)> {
    let upto = drop_end_while(s, other_than(c));
    if upto.len() > 0 {
        Some((upto.drop_last(), s.skip(upto.len() as int)))
    } else {
        None
    }
}

/// The message of a target without `@`.
pub open spec fn no_user_message() -> Seq<char> {
    "Open Machines SSH target does not include a user"@
}

/// The message of a target with nothing before or after its `@`.
pub open spec fn invalid_target_message() -> Seq<char> {
    "Invalid Open Machines SSH target"@
}

/// The message of an empty port.
pub open spec fn empty_port_message() -> Seq<char> {
    "cannot parse integer from empty string"@
}

/// The message of a port beyond 65535.
pub open spec fn port_overflow_message() -> Seq<char> {
    "number too large to fit in target type"@
}

/// What an SSH target `user@host[:port]` stands for: its user, host and
/// port, 22 where the part after the last `:` is not all digits.
pub open spec fn ssh_target_spec(t: Seq<char>) -> Result<(Seq<char>, Seq<char>, u16), Seq<char>> {
    match split_first(t, '@') {
        None => Err(no_user_message()),
        Some((user, host_port)) => if user.len() == 0 || host_port.len() == 0 {
            Err(invalid_target_message())
        } else {
            match split_last(host_port, ':') {
                Some((host, port)) => if all_digits(port) {
                    if port.len() == 0 {
                        Err(empty_port_message())
                    } else if digits_value(port) > 65535 {
                        Err(port_overflow_message())
                    } else {
                        Ok((user, host, digits_value(port) as u16))
                    }
                } else {
                    Ok((user, host_port, DEFAULT_SSH_PORT))
                },
                None => Ok((user, host_port, DEFAULT_SSH_PORT)),
            }
        },
    }
}

/// Whether a parsed target is what `spec` describes; every failure is invalid data.
pub open spec fn matches_ssh_target(
    r: Result<(String, String, u16), MachineError>,
    spec: Result<(Seq<char>, Seq<char>, u16), Seq<char>>,
) -> bool {
    match (r, spec) {
        (Ok((u, h, p)), Ok((su, sh, sp))) => u@ == su && h@ == sh && p == sp,
        (Err(e), Err(msg)) => e.kind == ErrorKind::InvalidData && e.message@ == msg,
        _ => false,
    }
}

/// The user, host and port of an SSH target `user@host[:port]`.
pub fn parse_ssh_target(target: &str) -> (r: Result<(String, String, u16), MachineError>)
    ensures
        matches_ssh_target(r, ssh_target_spec(target@)),
{
    let v = chars_of(target);
    let ghost t = v@;
    let mut at: usize = 0;
    while at < v.len() && v[at] != '@'
        invariant
            at <= v.len(),
            forall|k: int| 0 <= k < at ==> #[trigger] v@[k] != '@',
        decreases v.len() - at,
    {
        at = at + 1;
    }
    proof {
        lemma_drop_while_skip(t, other_than('@'), at as int);
        if at == v.len() {
            assert(t.take(at as int) == t);
        }
    }
    if at == v.len() {
        return Err(MachineError::new(ErrorKind::InvalidData, String::from_str("Open Machines SSH target does not include a user")));
    }
    let n = v.len();
    proof {
        assert(t.skip(at + 1) == t.subrange(at + 1, n as int));
    }
    if at == 0 || at + 1 == n {
        return Err(MachineError::new(ErrorKind::InvalidData, String::from_str("Invalid Open Machines SSH target")));
    }
    let ghost hp = t.subrange(at + 1, n as int);
    let mut colon: usize = n;
    while colon > at + 1 && v[colon - 1] != ':'
        invariant
            at + 1 <= colon <= n == v.len(),
            forall|k: int| colon <= k < n ==> #[trigger] v@[k] != ':',
        decreases colon,
    {
        colon = colon - 1;
    }
    proof {
        let m = colon - (at + 1);
        assert forall|k: int| m <= k < hp.len() implies other_than(':')(#[trigger] hp[k]) by {
            assert(hp[k] == v@[k + at + 1]);
        }
        if m > 0 {
            assert(hp[m - 1] == v@[colon - 1]);
        }
        lemma_drop_end_while_take(hp, other_than(':'), m as int);
        if m > 0 {
            assert(hp.take(m as int).drop_last() == t.subrange(at + 1, colon - 1));
            assert(hp.skip(m as int) == t.subrange(colon as int, n as int));
        }
    }
    let user = string_from(&v, 0, at);
    if colon > at + 1 {
        let mut all: bool = true;
        let mut i: usize = colon;
        while i < n
            invariant
                colon <= i <= n == v.len(),
                all == (forall|k: int| colon <= k < i ==> is_digit(#[trigger] v@[k])),
            decreases n - i,
        {
            all = all && '0' <= v[i] && v[i] <= '9';
            i = i + 1;
        }
        proof {
            let port = t.subrange(colon as int, n as int);
            assert(all == all_digits(port)) by {
                if all {
                    assert forall|k: int| 0 <= k < port.len() implies is_digit(#[trigger] port[k]) by {
                        assert(port[k] == v@[colon + k]);
                    }
                } else {
                    let k = choose|k: int| colon <= k < n && !is_digit(#[trigger] v@[k]);
                    assert(port[k - colon] == v@[k]);
                }
            }
        }
        if all {
            if colon == n {
                return Err(MachineError::new(ErrorKind::InvalidData, String::from_str("cannot parse integer from empty string")));
            }
            match digits_u16(&v, colon, n) {
                Some(port) => {
                    let host = string_from(&v, at + 1, colon - 1);
                    return Ok((user, host, port));
                },
                None => {
                    return Err(MachineError::new(ErrorKind::InvalidData, String::from_str("number too large to fit in target type")));
                },
            }
        }
    }
    let host = string_from(&v, at + 1, n);
    Ok((user, host, DEFAULT_SSH_PORT))
}

} // verus!
