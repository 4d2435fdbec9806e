use vstd::prelude::*;
use vstd::string::*;
use crate::text::{is_ws, trim_spec, trim_ws};

verus! {

// ---------------------------------------------------------------------------
// The port-announcement protocol
// ---------------------------------------------------------------------------

/// The literal token by which the worker announces its bound port on its
/// standard output.
pub open spec fn port_token() -> Seq<char> {
    seq!['S', 'E', 'R', 'V', 'E', 'R', '_', 'P', 'O', 'R', 'T', '=']
}

pub open spec fn token_at(s: Seq<char>, i: int) -> bool {
    0 <= i && i + port_token().len() <= s.len() && s.subrange(
        i,
        i + port_token().len() as int,
    ) == port_token()
}

pub open spec fn contains_port_token(s: Seq<char>) -> bool {
    exists|i: int| token_at(s, i)
}

// ---------------------------------------------------------------------------
// Decimal u16 parsing
// ---------------------------------------------------------------------------

pub open spec fn is_digit(c: char) -> bool {
    48 <= c as u32 && c as u32 <= 57
}

pub open spec fn digit_val(c: char) -> nat {
    (c as u32 - 48) as nat
}

pub open spec fn all_digits(s: Seq<char>) -> bool {
    forall|i: int| 0 <= i < s.len() ==> is_digit(s[i])
}

/// The value of a digit string, most significant digit first.
pub open spec fn digits_val(s: Seq<char>) -> nat
    decreases s.len(),
{
    if s.len() == 0 {
        0
    } else {
        digits_val(s.subrange(0, s.len() - 1)) * 10 + digit_val(s[s.len() - 1])
    }
}

/// The digit text of a number: everything after an optional leading `+`.
pub open spec fn parse_body(s: Seq<char>) -> Seq<char> {
    if s.len() > 0 && s[0] == '+' {
        s.subrange(1, s.len() as int)
    } else {
        s
    }
}

/// Unsigned 16-bit parsing as the standard library defines it: an optional
/// leading `+`, then one or more decimal digits whose value fits in 16 bits.
pub open spec fn parse_u16_spec(s: Seq<char>) -> Option<u16> {
    let body = parse_body(s);
    if body.len() > 0 && all_digits(body) && digits_val(body) <= 65535 {
        Some(digits_val(body) as u16)
    } else {
        None
    }
}

pub proof fn lemma_digits_val_prefix(s: Seq<char>, i: int)
    requires
        0 <= i <= s.len(),
    ensures
        digits_val(s.subrange(0, i)) <= digits_val(s),
    decreases s.len(),
{
    if i == s.len() {
        assert(s.subrange(0, i) =~= s);
    } else {
        let head = s.subrange(0, s.len() - 1);
        lemma_digits_val_prefix(head, i);
        assert(head.subrange(0, i) =~= s.subrange(0, i));
    }
}

// ---------------------------------------------------------------------------
// The parsed port of a line
// ---------------------------------------------------------------------------

/// Index of the last `=` in `s`, -1 when there is none.
pub open spec fn last_eq_index(s: Seq<char>) -> int
    decreases s.len(),
{
    if s.len() == 0 {
        -1
    } else if s[s.len() - 1] == '=' {
        s.len() - 1
    } else {
        last_eq_index(s.subrange(0, s.len() - 1))
    }
}

/// The port a line announces: when the line contains `SERVER_PORT=`, the
/// text after the last `=` is trimmed of whitespace and parsed as a u16;
/// a line with trailing `key=value` tokens therefore yields the value of
/// the last such token, and a parse failure yields no port. A line without
/// the token yields no port.
pub open spec fn port_of_line(s: Seq<char>) -> Option<u16> {
    if contains_port_token(s) {
        parse_u16_spec(trim_spec(s.subrange(last_eq_index(s) + 1, s.len() as int)))
    } else {
        None
    }
}

// ---------------------------------------------------------------------------
// Executable parsing
// ---------------------------------------------------------------------------

pub fn is_digit_exec(c: char) -> (r: bool)
    ensures
        r == is_digit(c),
{
    let u = c as u32;
    48 <= u && u <= 57
}

fn token_match_at(s: &str, i: usize, token: &str) -> (r: bool)
    requires
        i + token@.len() <= s@.len(),
    ensures
        r == (s@.subrange(i as int, i as int + token@.len() as int) == token@),
{
    let n = s.unicode_len();
    let m = token.unicode_len();
    let mut j: usize = 0;
    while j < m
        invariant
            0 <= j <= m,
            m == token@.len(),
            n == s@.len(),
            i + m <= n,
            forall|k: int| 0 <= k < j ==> s@[i + k] == token@[k],
        decreases m - j,
    {
        if s.get_char(i + j) != token.get_char(j) {
            proof {
                assert(s@.subrange(i as int, i as int + m as int)[j as int] != token@[j as int]);
            }
            return false;
        }
        j += 1;
    }
    proof {
        assert(s@.subrange(i as int, i as int + m as int) =~= token@);
    }
    true
}

/// Whether the line contains the literal announcement token.
pub fn line_contains_port_token(s: &str) -> (r: bool)
    ensures
        r == contains_port_token(s@),
{
    let token = "SERVER_PORT=";
    proof {
        reveal_strlit("SERVER_PORT=");
        assert(token@ =~= port_token());
    }
    let n = s.unicode_len();
    if n < 12 {
        proof {
            assert(forall|k: int| !token_at(s@, k));
        }
        return false;
    }
    let mut i: usize = 0;
    while i <= n - 12
        invariant
            12 <= n,
            0 <= i <= n,
            n == s@.len(),
            token@ == port_token(),
            token@.len() == 12,
            forall|k: int| 0 <= k < i ==> !token_at(s@, k),
        decreases n - i,
    {
        if token_match_at(s, i, token) {
            proof {
                assert(token_at(s@, i as int));
            }
            return true;
        }
        i += 1;
    }
    proof {
        assert(forall|k: int| token_at(s@, k) ==> 0 <= k && k + 12 <= s@.len() && k < i);
    }
    false
}

/// Parses a u16 as the standard library does: optional leading `+`, then
/// decimal digits, rejecting empty input, other characters and overflow.
pub fn parse_u16(s: &str) -> (r: Option<u16>)
    ensures
        r == parse_u16_spec(s@),
{
    let n = s.unicode_len();
    let start: usize = if n > 0 && s.get_char(0) == '+' {
        1
    } else {
        0
    };
    let ghost body = parse_body(s@);
    proof {
        assert(body =~= s@.subrange(start as int, n as int));
    }
    if start >= n {
        return None;
    }
    let mut acc: u32 = 0;
    let mut i: usize = start;
    while i < n
        invariant
            start <= i <= n,
            n == s@.len(),
            body == parse_body(s@),
            body == s@.subrange(start as int, n as int),
            acc <= 65535,
            all_digits(s@.subrange(start as int, i as int)),
            acc == digits_val(s@.subrange(start as int, i as int)),
        decreases n - i,
    {
        let c = s.get_char(i);
        if !is_digit_exec(c) {
            proof {
                assert(body[i - start] == c);
                assert(!all_digits(body));
            }
            return None;
        }
        let d = (c as u32) - 48;
        let acc2 = acc * 10 + d;
        proof {
            let pre = s@.subrange(start as int, i as int);
            let ext = s@.subrange(start as int, i as int + 1);
            assert(ext.subrange(0, ext.len() - 1) =~= pre);
            assert(ext[ext.len() - 1] == s@[i as int]);
            assert(digit_val(c) == d as nat);
            assert(digits_val(ext) == acc * 10 + digit_val(s@[i as int]));
        }
        if acc2 > 65535 {
            proof {
                lemma_digits_val_prefix(body, i as int + 1 - start);
                assert(body.subrange(0, i as int + 1 - start) =~= s@.subrange(
                    start as int,
                    i as int + 1,
                ));
                if all_digits(body) {
                    assert(digits_val(body) > 65535);
                }
            }
            return None;
        }
        acc = acc2;
        i += 1;
    }
    proof {
        assert(s@.subrange(start as int, n as int) == body);
    }
    Some(acc as u16)
}

/// Scans one decoded output line for a port announcement.
///
/// Returns the announced port exactly when the line contains
/// `SERVER_PORT=` and the whitespace-trimmed text after the last `=`
/// parses as a u16; returns nothing otherwise, leaving the registry
/// untouched by the caller.
pub fn parse_port_line(line: &str) -> (r: Option<u16>)
    ensures
        r == port_of_line(line@),
{
    if !line_contains_port_token(line) {
        return None;
    }
    let n = line.unicode_len();
    proof {
        assert(line@.subrange(0, n as int) =~= line@);
    }
    let mut j: usize = n;
    while j > 0 && line.get_char(j - 1) != '='
        invariant
            0 <= j <= n,
            n == line@.len(),
            forall|k: int| j <= k < n ==> line@[k] != '=',
            last_eq_index(line@) == last_eq_index(line@.subrange(0, j as int)),
        decreases j,
    {
        proof {
            let sub = line@.subrange(0, j as int);
            assert(sub[sub.len() - 1] == line@[j - 1]);
            assert(sub.subrange(0, sub.len() - 1) =~= line@.subrange(0, j as int - 1));
        }
        j -= 1;
    }
    proof {
        let i = choose|i: int| token_at(line@, i);
        assert(line@.subrange(i, i + 12)[11] == '=');
        assert(line@[i + 11] == '=');
        if j == 0 {
            // scanning found no '=', yet the token ends in one
            assert(false);
        }
        let sub = line@.subrange(0, j as int);
        assert(sub[sub.len() - 1] == line@[j - 1]);
        assert(last_eq_index(line@) == j - 1);
    }
    let seg = line.substring_char(j, n);
    let trimmed = trim_ws(seg);
    proof {
        assert(seg@ =~= line@.subrange(last_eq_index(line@) + 1, line@.len() as int));
    }
    parse_u16(trimmed)
}

// ---------------------------------------------------------------------------
// Laws of port detection
// ---------------------------------------------------------------------------

pub proof fn lemma_last_eq_append_no_eq(t: Seq<char>, d: Seq<char>)
    requires
        forall|k: int| 0 <= k < d.len() ==> d[k] != '=',
    ensures
        last_eq_index(t + d) == last_eq_index(t),
    decreases d.len(),
{
    if d.len() == 0 {
        assert(t + d =~= t);
    } else {
        let whole = t + d;
        assert(whole[whole.len() - 1] == d[d.len() - 1]);
        assert(whole.subrange(0, whole.len() - 1) =~= t + d.subrange(0, d.len() - 1));
        lemma_last_eq_append_no_eq(t, d.subrange(0, d.len() - 1));
    }
}

/// Law: a standard-output line formed of any prefix, the literal token
/// `SERVER_PORT=` and a valid decimal u16 announces exactly that port.
/// Lines without the token announce none.
pub proof fn lemma_port_announcement(prefix: Seq<char>, digits: Seq<char>)
    requires
        digits.len() > 0,
        all_digits(digits),
        digits_val(digits) <= 65535,
    ensures
        port_of_line(prefix + port_token() + digits) == Some(digits_val(digits) as u16),
{
    let line = prefix + port_token() + digits;
    let i = prefix.len() as int;
    assert(line.subrange(i, i + 12) =~= port_token());
    assert(token_at(line, i));
    assert(forall|k: int| 0 <= k < digits.len() ==> is_digit(digits[k]) && digits[k] != '=');
    lemma_last_eq_append_no_eq(prefix + port_token(), digits);
    let pt = prefix + port_token();
    assert(pt[pt.len() - 1] == '=');
    assert(last_eq_index(line) == pt.len() - 1);
    let seg = line.subrange(last_eq_index(line) + 1, line.len() as int);
    assert(seg =~= digits);
    assert(!is_ws(digits[0]));
    assert(crate::text::trim_start_spec(digits) == digits);
    assert(!is_ws(digits[digits.len() - 1]));
    assert(crate::text::trim_end_spec(digits) == digits);
    assert(trim_spec(digits) == digits);
    assert(digits[0] != '+');
}

/// Law: a line that does not contain the announcement token yields no port.
pub proof fn lemma_no_token_no_port(line: Seq<char>)
    requires
        !contains_port_token(line),
    ensures
        port_of_line(line) == None::<u16>,
{
}

} // verus!
