//! Parsing the port handshake: a freshly started worker announces the port
//! it bound in its first line of standard output, ending in
//! `... port <digits>.`. The reader accepts exactly the lines of that
//! shape — an arbitrary prefix, whitespace, the word `port`, whitespace, a
//! digit run, and a final full stop — and yields the digits' value.

use vstd::prelude::*;
use vstd::string::StrSliceExecFns;

verus! {

/// The whitespace characters the handshake pattern accepts between the
/// word `port` and the digits.
pub open spec fn is_space_char(c: char) -> bool {
    c == ' ' || c == '\t' || c == '\n' || c == '\r' || c == '\x0b' || c == '\x0c'
}

/// A decimal digit.
pub open spec fn is_digit_char(c: char) -> bool {
    '0' as u32 <= c as u32 <= '9' as u32
}

/// The value of one decimal digit character.
pub open spec fn digit_val(c: char) -> int {
    c as u32 - '0' as u32
}

/// The value of a run of decimal digit characters, most significant first.
pub open spec fn digits_value(s: Seq<char>) -> int
    decreases s.len(),
{
    if s.len() == 0 {
        0
    } else {
        digits_value(s.drop_last()) * 10 + digit_val(s.last())
    }
}

/// The handshake shape with the word `port` starting at `p` and the digit
/// run starting at `d`: some prefix, at least one whitespace character,
/// `port`, at least one whitespace character, at least one digit, and a
/// final `.` that ends the line.
pub open spec fn handshake_match_at(s: Seq<char>, p: int, d: int) -> bool {
    &&& 1 <= p
    &&& p + 4 < d
    &&& d < s.len() - 1
    &&& s[s.len() - 1] == '.'
    &&& is_space_char(s[p - 1])
    &&& s[p] == 'p'
    &&& s[p + 1] == 'o'
    &&& s[p + 2] == 'r'
    &&& s[p + 3] == 't'
    &&& forall|i: int| p + 4 <= i < d ==> is_space_char(s[i])
    &&& forall|i: int| d <= i < s.len() - 1 ==> is_digit_char(s[i])
}

/// Whether a line matches the handshake pattern at all.
pub open spec fn handshake_matches(s: Seq<char>) -> bool {
    exists|p: int, d: int| handshake_match_at(s, p, d)
}

/// The digit run of a matching line.
pub open spec fn handshake_digits(s: Seq<char>) -> Seq<char> {
    let (p, d) = choose|p: int, d: int| handshake_match_at(s, p, d);
    s.subrange(d, s.len() - 1)
}

/// The port a matching line announces.
pub open spec fn handshake_port(s: Seq<char>) -> int {
    digits_value(handshake_digits(s))
}

/// A whitespace character is not a digit.
proof fn lemma_space_not_digit(c: char)
    requires
        is_space_char(c),
    ensures
        !is_digit_char(c),
{
}

/// The handshake pattern matches a line in at most one way: the digit run
/// and the word `port` sit at unique positions.
pub proof fn lemma_match_unique(s: Seq<char>, p1: int, d1: int, p2: int, d2: int)
    requires
        handshake_match_at(s, p1, d1),
        handshake_match_at(s, p2, d2),
    ensures
        p1 == p2,
        d1 == d2,
{
    if d1 < d2 {
        assert(is_digit_char(s[d2 - 1]));
        assert(is_space_char(s[d2 - 1]));
        lemma_space_not_digit(s[d2 - 1]);
    }
    if d2 < d1 {
        assert(is_digit_char(s[d1 - 1]));
        assert(is_space_char(s[d1 - 1]));
        lemma_space_not_digit(s[d1 - 1]);
    }
    if p1 < p2 {
        assert(is_space_char(s[p2 + 3]));
        assert(s[p2 + 3] == 't');
    }
    if p2 < p1 {
        assert(is_space_char(s[p1 + 3]));
        assert(s[p1 + 3] == 't');
    }
}

/// Why no port could be read from a worker's standard output.
#[derive(Clone, Copy, Debug, PartialEq, Eq, Structural)]
pub enum HandshakeError {
    /// The worker closed its standard output before writing any line.
    NoLine,
    /// The first line does not match the handshake pattern.
    PatternMismatch,
    /// The line matches but its digits name a number too large for a port.
    PortOutOfRange,
}

/// What parsing a handshake line yields.
pub open spec fn parse_spec(s: Seq<char>) -> Result<usize, HandshakeError> {
    if !handshake_matches(s) {
        Err(HandshakeError::PatternMismatch)
    } else if handshake_port(s) > usize::MAX {
        Err(HandshakeError::PortOutOfRange)
    } else {
        Ok(handshake_port(s) as usize)
    }
}

/// A digit run's value does not shrink when more digits follow: the value
/// of a prefix bounds the value of the whole run.
proof fn lemma_digits_value_prefix(s: Seq<char>, k: int)
    requires
        0 <= k <= s.len(),
        forall|i: int| 0 <= i < s.len() ==> is_digit_char(s[i]),
    ensures
        digits_value(s) >= digits_value(s.take(k)),
        digits_value(s.take(k)) >= 0,
    decreases s.len() - k,
{
    if k == s.len() {
        assert(s.take(k) =~= s);
        lemma_digits_value_nonneg(s);
    } else {
        lemma_digits_value_prefix(s, k + 1);
        assert(s.take(k + 1).drop_last() =~= s.take(k));
        assert(s.take(k + 1).last() == s[k]);
        lemma_digits_value_nonneg(s.take(k));
    }
}

/// A run of digits has a nonnegative value.
proof fn lemma_digits_value_nonneg(s: Seq<char>)
    requires
        forall|i: int| 0 <= i < s.len() ==> is_digit_char(s[i]),
    ensures
        digits_value(s) >= 0,
    decreases s.len(),
{
    if s.len() > 0 {
        lemma_digits_value_nonneg(s.drop_last());
    }
}

/// Any match of the handshake pattern agrees with what the right-to-left
/// scan found: the digit run starts exactly at `d` and the word `port`
/// exactly at `w - 4`.
proof fn lemma_witness_pinned(s: Seq<char>, d: int, w: int, p2: int, d2: int)
    requires
        handshake_match_at(s, p2, d2),
        0 <= d <= s.len() - 1,
        forall|i: int| d <= i < s.len() - 1 ==> is_digit_char(s[i]),
        d == 0 || !is_digit_char(s[d - 1]),
        0 <= w <= d,
        forall|i: int| w <= i < d ==> is_space_char(s[i]),
        w == 0 || !is_space_char(s[w - 1]),
    ensures
        d2 == d,
        p2 == w - 4,
{
    if d2 > d {
        assert(is_digit_char(s[d2 - 1]));
        assert(is_space_char(s[d2 - 1]));
        lemma_space_not_digit(s[d2 - 1]);
    }
    if d2 < d {
        assert(is_digit_char(s[d - 1]));
    }
    assert(d2 == d);
    if p2 + 3 >= w {
        assert(is_space_char(s[p2 + 3]));
        assert(s[p2 + 3] == 't');
    }
    assert(p2 + 4 <= w);
    if p2 + 4 < w {
        assert(is_space_char(s[w - 1]));
    }
}

/// Tests for the whitespace the handshake pattern accepts.
fn is_space_c(c: char) -> (r: bool)
    ensures
        r == is_space_char(c),
{
    c == ' ' || c == '\t' || c == '\n' || c == '\r' || c == '\x0b' || c == '\x0c'
}

/// Tests for a decimal digit.
fn is_digit_c(c: char) -> (r: bool)
    ensures
        r == is_digit_char(c),
{
    let u = c as u32;
    48 <= u && u <= 57
}

/// Parses one line of worker output against the handshake pattern and
/// returns the announced port.
pub fn parse_handshake_line(line: &str) -> (r: Result<usize, HandshakeError>)
    ensures
        r == parse_spec(line@),
{
    let ghost s = line@;
    let n = line.unicode_len();
    if n < 8 {
        proof {
            assert forall|p: int, d: int| !handshake_match_at(s, p, d) by {}
        }
        return Err(HandshakeError::PatternMismatch);
    }
    if line.get_char(n - 1) != '.' {
        proof {
            assert forall|p: int, d: int| !handshake_match_at(s, p, d) by {}
        }
        return Err(HandshakeError::PatternMismatch);
    }
    // Scan the digit run backwards from just before the final `.`.
    let mut d: usize = n - 1;
    loop
        invariant
            s == line@,
            n == s.len(),
            8 <= n,
            d <= n - 1,
            forall|i: int| d <= i < n - 1 ==> is_digit_char(s[i]),
        ensures
            d <= n - 1,
            forall|i: int| d <= i < n - 1 ==> is_digit_char(s[i]),
            d == 0 || !is_digit_char(s[d - 1]),
        decreases d,
    {
        if d == 0 {
            break;
        }
        if !is_digit_c(line.get_char(d - 1)) {
            break;
        }
        d -= 1;
    }
    if d == n - 1 {
        proof {
            assert forall|p: int, d2: int| !handshake_match_at(s, p, d2) by {
                if handshake_match_at(s, p, d2) {
                    assert(is_digit_char(s[n - 2]));
                }
            }
        }
        return Err(HandshakeError::PatternMismatch);
    }
    if d == 0 {
        proof {
            assert forall|p: int, d2: int| !handshake_match_at(s, p, d2) by {
                if handshake_match_at(s, p, d2) {
                    if d2 > 0 {
                        assert(is_digit_char(s[d2 - 1]));
                        assert(is_space_char(s[d2 - 1]));
                        lemma_space_not_digit(s[d2 - 1]);
                    }
                }
            }
        }
        return Err(HandshakeError::PatternMismatch);
    }
    // Scan the whitespace run backwards from the digits.
    let mut w: usize = d;
    loop
        invariant
            s == line@,
            n == s.len(),
            8 <= n,
            w <= d <= n - 1,
            forall|i: int| w <= i < d ==> is_space_char(s[i]),
        ensures
            w <= d,
            forall|i: int| w <= i < d ==> is_space_char(s[i]),
            w == 0 || !is_space_char(s[w - 1]),
        decreases w,
    {
        if w == 0 {
            break;
        }
        if !is_space_c(line.get_char(w - 1)) {
            break;
        }
        w -= 1;
    }
    if w == d || w < 5 || !(line.get_char(w - 4) == 'p' && line.get_char(w - 3) == 'o'
        && line.get_char(w - 2) == 'r' && line.get_char(w - 1) == 't' && is_space_c(
        line.get_char(w - 5),
    )) {
        proof {
            assert forall|p2: int, d2: int| !handshake_match_at(s, p2, d2) by {
                if handshake_match_at(s, p2, d2) {
                    lemma_witness_pinned(s, d as int, w as int, p2, d2);
                }
            }
        }
        return Err(HandshakeError::PatternMismatch);
    }
    proof {
        assert(handshake_match_at(s, w - 4, d as int));
        assert(handshake_matches(s));
        let (cp, cd) = choose|p: int, d: int| handshake_match_at(s, p, d);
        lemma_witness_pinned(s, d as int, w as int, cp, cd);
        assert(handshake_digits(s) =~= s.subrange(d as int, n - 1));
    }
    let ghost run = s.subrange(d as int, n - 1);
    // Read the digits' value, most significant first.
    let mut val: usize = 0;
    let mut i: usize = d;
    while i < n - 1
        invariant
            s == line@,
            n == s.len(),
            8 <= n,
            d <= i <= n - 1,
            d < n - 1,
            run == s.subrange(d as int, n - 1),
            forall|k: int| 0 <= k < run.len() ==> is_digit_char(run[k]),
            val == digits_value(run.take(i - d)),
            handshake_matches(s),
            handshake_digits(s) == run,
        decreases n - 1 - i,
    {
        let c = line.get_char(i);
        let dv = (c as u32 - 48) as usize;
        proof {
            assert(is_digit_char(s[i as int]));
            assert(run[i - d] == s[i as int]);
            lemma_digits_value_prefix(run, i - d);
        }
        if val > (usize::MAX - dv) / 10 {
            proof {
                assert(run.take(i - d + 1).drop_last() =~= run.take(i - d));
                assert(run.take(i - d + 1).last() == run[i - d]);
                assert(digits_value(run.take(i - d + 1)) > usize::MAX);
                lemma_digits_value_prefix(run, i - d + 1);
            }
            return Err(HandshakeError::PortOutOfRange);
        }
        val = val * 10 + dv;
        proof {
            assert(run.take(i - d + 1).drop_last() =~= run.take(i - d));
            assert(run.take(i - d + 1).last() == run[i - d]);
        }
        i += 1;
    }
    proof {
        assert(run.take(i - d) =~= run);
    }
    Ok(val)
}

/// Printing a number in decimal and reading the digits back through the
/// handshake grammar yields the same number: the rendering is all digits
/// and its value is the number itself.
pub proof fn lemma_decimal_round_trip(n: nat)
    ensures
        forall|i: int|
            0 <= i < crate::text::decimal_chars(n).len() ==> is_digit_char(
                #[trigger] crate::text::decimal_chars(n)[i],
            ),
        digits_value(crate::text::decimal_chars(n)) == n,
    decreases n,
{
    let s = crate::text::decimal_chars(n);
    if n < 10 {
        assert(s == seq![crate::text::decimal_digit_char(n as int)]);
        assert(s.drop_last() =~= Seq::<char>::empty());
        assert(digits_value(Seq::<char>::empty()) == 0);
    } else {
        lemma_decimal_round_trip(n / 10);
        let prefix = crate::text::decimal_chars(n / 10);
        let c = crate::text::decimal_digit_char((n % 10) as int);
        assert(s == prefix.push(c));
        assert(s.drop_last() =~= prefix);
        assert(s.last() == c);
        assert forall|i: int| 0 <= i < s.len() implies is_digit_char(#[trigger] s[i]) by {
            if i < s.len() - 1 {
                assert(s[i] == prefix[i]);
            }
        }
    }
}

/// Reads the port from the first line of a worker's standard output, if
/// one was written at all.
pub fn read_port(line: Option<&String>) -> (r: Result<usize, HandshakeError>)
    ensures
        r == match line {
            None => Err::<usize, HandshakeError>(HandshakeError::NoLine),
            Some(l) => parse_spec(l@),
        },
{
    match line {
        None => Err(HandshakeError::NoLine),
        Some(l) => parse_handshake_line(l.as_str()),
    }
}

} // verus!
