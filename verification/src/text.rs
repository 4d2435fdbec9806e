use vstd::prelude::*;
use vstd::string::*;

verus! {

// ---------------------------------------------------------------------------
// Character classes
// ---------------------------------------------------------------------------

/// ASCII whitespace, the class trimmed around parsed port digits and around
/// forwarded log context.
pub open spec fn is_ws(c: char) -> bool {
    c == ' ' || c == '\t' || c == '\r' || c == '\n'
}

pub fn is_ws_exec(c: char) -> (r: bool)
    ensures
        r == is_ws(c),
{
    c == ' ' || c == '\t' || c == '\r' || c == '\n'
}

/// A line break character: stripped or escaped by the log pipeline.
pub open spec fn is_line_break(c: char) -> bool {
    c == '\r' || c == '\n'
}

// ---------------------------------------------------------------------------
// Trimming
// ---------------------------------------------------------------------------

pub open spec fn trim_start_spec(s: Seq<char>) -> Seq<char>
    decreases s.len(),
{
    if s.len() > 0 && is_ws(s[0]) {
        trim_start_spec(s.subrange(1, s.len() as int))
    } else {
        s
    }
}

pub open spec fn trim_end_spec(s: Seq<char>) -> Seq<char>
    decreases s.len(),
{
    if s.len() > 0 && is_ws(s[s.len() - 1]) {
        trim_end_spec(s.subrange(0, s.len() - 1))
    } else {
        s
    }
}

/// Whitespace trimmed from both ends.
pub open spec fn trim_spec(s: Seq<char>) -> Seq<char> {
    trim_end_spec(trim_start_spec(s))
}

/// Returns the slice of `s` with leading and trailing ASCII whitespace removed.
pub fn trim_ws(s: &str) -> (r: &str)
    ensures
        r@ == trim_spec(s@),
{
    let n = s.unicode_len();
    proof {
        assert(s@.subrange(0, n as int) =~= s@);
    }
    let mut start: usize = 0;
    while start < n && is_ws_exec(s.get_char(start))
        invariant
            0 <= start <= n,
            n == s@.len(),
            trim_start_spec(s@) == trim_start_spec(s@.subrange(start as int, n as int)),
        decreases n - start,
    {
        proof {
            let sub = s@.subrange(start as int, n as int);
            assert(sub[0] == s@[start as int]);
            assert(sub.subrange(1, sub.len() as int) =~= s@.subrange(
                start as int + 1,
                n as int,
            ));
        }
        start += 1;
    }
    proof {
        let sub = s@.subrange(start as int, n as int);
        if sub.len() > 0 {
            assert(sub[0] == s@[start as int]);
        }
        assert(trim_start_spec(sub) == sub);
    }
    let mut end: usize = n;
    while end > start && is_ws_exec(s.get_char(end - 1))
        invariant
            start <= end <= n,
            n == s@.len(),
            trim_start_spec(s@) == s@.subrange(start as int, n as int),
            trim_end_spec(s@.subrange(start as int, n as int)) == trim_end_spec(
                s@.subrange(start as int, end as int),
            ),
        decreases end,
    {
        proof {
            let sub = s@.subrange(start as int, end as int);
            assert(sub[sub.len() - 1] == s@[end - 1]);
            assert(sub.subrange(0, sub.len() - 1) =~= s@.subrange(
                start as int,
                end as int - 1,
            ));
        }
        end -= 1;
    }
    proof {
        let sub = s@.subrange(start as int, end as int);
        if sub.len() > 0 {
            assert(sub[sub.len() - 1] == s@[end as int - 1]);
        }
        assert(trim_end_spec(sub) == sub);
    }
    s.substring_char(start, end)
}

/// Returns the slice of `s` with trailing ASCII whitespace removed.
pub fn trim_end_ws(s: &str) -> (r: &str)
    ensures
        r@ == trim_end_spec(s@),
{
    let n = s.unicode_len();
    proof {
        assert(s@.subrange(0, n as int) =~= s@);
    }
    let mut end: usize = n;
    while end > 0 && is_ws_exec(s.get_char(end - 1))
        invariant
            0 <= end <= n,
            n == s@.len(),
            trim_end_spec(s@) == trim_end_spec(s@.subrange(0, end as int)),
        decreases end,
    {
        proof {
            let sub = s@.subrange(0, end as int);
            assert(sub[sub.len() - 1] == s@[end - 1]);
            assert(sub.subrange(0, sub.len() - 1) =~= s@.subrange(0, end as int - 1));
        }
        end -= 1;
    }
    proof {
        let sub = s@.subrange(0, end as int);
        if sub.len() > 0 {
            assert(sub[sub.len() - 1] == s@[end as int - 1]);
        }
        assert(trim_end_spec(sub) == sub);
    }
    s.substring_char(0, end)
}

// ---------------------------------------------------------------------------
// Carriage-return stripping and trailing-newline trimming (write_line)
// ---------------------------------------------------------------------------

/// All carriage returns removed.
pub open spec fn strip_cr_spec(s: Seq<char>) -> Seq<char>
    decreases s.len(),
{
    if s.len() == 0 {
        Seq::<char>::empty()
    } else if s[0] == '\r' {
        strip_cr_spec(s.subrange(1, s.len() as int))
    } else {
        seq![s[0]] + strip_cr_spec(s.subrange(1, s.len() as int))
    }
}

/// Trailing newline characters removed.
pub open spec fn trim_nl_end_spec(s: Seq<char>) -> Seq<char>
    decreases s.len(),
{
    if s.len() > 0 && s[s.len() - 1] == '\n' {
        trim_nl_end_spec(s.subrange(0, s.len() - 1))
    } else {
        s
    }
}

/// Leading newline characters removed.
pub open spec fn trim_nl_start_spec(s: Seq<char>) -> Seq<char>
    decreases s.len(),
{
    if s.len() > 0 && s[0] == '\n' {
        trim_nl_start_spec(s.subrange(1, s.len() as int))
    } else {
        s
    }
}

/// The stored content of a raw line handed to the log writer: carriage
/// returns stripped, then newlines at either end removed, so a record
/// carries no line break beyond its own terminator.
pub open spec fn sanitize_spec(s: Seq<char>) -> Seq<char> {
    trim_nl_start_spec(trim_nl_end_spec(strip_cr_spec(s)))
}

pub proof fn lemma_strip_cr_push(s: Seq<char>, c: char)
    ensures
        strip_cr_spec(s.push(c)) == if c == '\r' {
            strip_cr_spec(s)
        } else {
            strip_cr_spec(s).push(c)
        },
    decreases s.len(),
{
    let p = s.push(c);
    if s.len() == 0 {
        assert(p.subrange(1, p.len() as int) =~= Seq::<char>::empty());
        if c != '\r' {
            assert(seq![p[0]] + strip_cr_spec(p.subrange(1, p.len() as int)) =~= strip_cr_spec(
                s,
            ).push(c));
        }
    } else {
        assert(p.subrange(1, p.len() as int) =~= s.subrange(1, s.len() as int).push(c));
        lemma_strip_cr_push(s.subrange(1, s.len() as int), c);
        if s[0] == '\r' {
        } else {
            if c == '\r' {
            } else {
                assert(seq![p[0]] + strip_cr_spec(s.subrange(1, s.len() as int)).push(c)
                    =~= (seq![s[0]] + strip_cr_spec(s.subrange(1, s.len() as int))).push(c));
            }
        }
    }
}

pub proof fn lemma_sanitize_drop_tail(s: Seq<char>)
    requires
        s.len() > 0,
        is_line_break(s[s.len() - 1]),
    ensures
        sanitize_spec(s) == sanitize_spec(s.subrange(0, s.len() - 1)),
{
    let head = s.subrange(0, s.len() - 1);
    assert(s =~= head.push(s[s.len() - 1]));
    lemma_strip_cr_push(head, s[s.len() - 1]);
    if s[s.len() - 1] == '\r' {
    } else {
        let stripped = strip_cr_spec(head).push('\n');
        assert(stripped.subrange(0, stripped.len() - 1) =~= strip_cr_spec(head));
    }
}

pub proof fn lemma_sanitize_no_tail(s: Seq<char>)
    requires
        s.len() == 0 || !is_line_break(s[s.len() - 1]),
    ensures
        sanitize_spec(s) == trim_nl_start_spec(strip_cr_spec(s)),
{
    if s.len() > 0 {
        let head = s.subrange(0, s.len() - 1);
        assert(s =~= head.push(s[s.len() - 1]));
        lemma_strip_cr_push(head, s[s.len() - 1]);
        let stripped = strip_cr_spec(head).push(s[s.len() - 1]);
        assert(stripped[stripped.len() - 1] == s[s.len() - 1]);
    }
}

pub proof fn lemma_sanitize_drop_head(s: Seq<char>)
    requires
        s.len() > 0,
        is_line_break(s[0]),
    ensures
        trim_nl_start_spec(strip_cr_spec(s)) == trim_nl_start_spec(
            strip_cr_spec(s.subrange(1, s.len() as int)),
        ),
{
    let rest = s.subrange(1, s.len() as int);
    if s[0] == '\r' {
    } else {
        let st = strip_cr_spec(s);
        assert(st == seq!['\n'] + strip_cr_spec(rest));
        assert(st[0] == '\n');
        assert(st.subrange(1, st.len() as int) =~= strip_cr_spec(rest));
    }
}

pub proof fn lemma_sanitize_no_head(s: Seq<char>)
    requires
        s.len() == 0 || !is_line_break(s[0]),
    ensures
        trim_nl_start_spec(strip_cr_spec(s)) == strip_cr_spec(s),
{
    if s.len() > 0 {
        let st = strip_cr_spec(s);
        assert(st == seq![s[0]] + strip_cr_spec(s.subrange(1, s.len() as int)));
        assert(st[0] == s[0]);
    }
}

/// Sanitizes one raw line: carriage returns removed, trailing newlines
/// dropped. An empty result means the line is to be discarded.
pub fn sanitize_line(s: &str) -> (r: String)
    ensures
        r@ == sanitize_spec(s@),
{
    let n = s.unicode_len();
    proof {
        assert(s@.subrange(0, n as int) =~= s@);
    }
    let mut end: usize = n;
    while end > 0 && (s.get_char(end - 1) == '\r' || s.get_char(end - 1) == '\n')
        invariant
            0 <= end <= n,
            n == s@.len(),
            sanitize_spec(s@) == sanitize_spec(s@.subrange(0, end as int)),
        decreases end,
    {
        proof {
            let sub = s@.subrange(0, end as int);
            assert(sub[sub.len() - 1] == s@[end - 1]);
            lemma_sanitize_drop_tail(sub);
            assert(sub.subrange(0, sub.len() - 1) =~= s@.subrange(0, end as int - 1));
        }
        end -= 1;
    }
    proof {
        let sub = s@.subrange(0, end as int);
        if sub.len() > 0 {
            assert(sub[sub.len() - 1] == s@[end - 1]);
        }
        lemma_sanitize_no_tail(sub);
    }
    let mut start: usize = 0;
    while start < end && (s.get_char(start) == '\r' || s.get_char(start) == '\n')
        invariant
            0 <= start <= end <= n,
            n == s@.len(),
            sanitize_spec(s@) == trim_nl_start_spec(
                strip_cr_spec(s@.subrange(start as int, end as int)),
            ),
        decreases end - start,
    {
        proof {
            let sub = s@.subrange(start as int, end as int);
            assert(sub[0] == s@[start as int]);
            lemma_sanitize_drop_head(sub);
            assert(sub.subrange(1, sub.len() as int) =~= s@.subrange(
                start as int + 1,
                end as int,
            ));
        }
        start += 1;
    }
    proof {
        let sub = s@.subrange(start as int, end as int);
        if sub.len() > 0 {
            assert(sub[0] == s@[start as int]);
        }
        lemma_sanitize_no_head(sub);
    }
    let mut out = String::new();
    let mut i: usize = start;
    while i < end
        invariant
            0 <= start <= i <= end <= n,
            n == s@.len(),
            out@ == strip_cr_spec(s@.subrange(start as int, i as int)),
        decreases end - i,
    {
        let c = s.get_char(i);
        proof {
            let pre = s@.subrange(start as int, i as int);
            assert(s@.subrange(start as int, i as int + 1) =~= pre.push(s@[i as int]));
            lemma_strip_cr_push(pre, s@[i as int]);
        }
        if c != '\r' {
            let piece = s.substring_char(i, i + 1);
            proof {
                assert(piece@ =~= seq![s@[i as int]]);
                assert(out@ + piece@ =~= out@.push(s@[i as int]));
            }
            out.append(piece);
        }
        i += 1;
    }
    out
}

// ---------------------------------------------------------------------------
// Line-break escaping (frontend log entries)
// ---------------------------------------------------------------------------

/// Carriage returns removed and each newline replaced by the two-character
/// escape `\n`, so a forwarded message stays on one record line.
pub open spec fn escape_nl_spec(s: Seq<char>) -> Seq<char>
    decreases s.len(),
{
    if s.len() == 0 {
        Seq::<char>::empty()
    } else {
        let rest = escape_nl_spec(s.subrange(1, s.len() as int));
        if s[0] == '\r' {
            rest
        } else if s[0] == '\n' {
            seq!['\\', 'n'] + rest
        } else {
            seq![s[0]] + rest
        }
    }
}

pub proof fn lemma_escape_nl_push(s: Seq<char>, c: char)
    ensures
        escape_nl_spec(s.push(c)) == if c == '\r' {
            escape_nl_spec(s)
        } else if c == '\n' {
            escape_nl_spec(s) + seq!['\\', 'n']
        } else {
            escape_nl_spec(s).push(c)
        },
    decreases s.len(),
{
    let p = s.push(c);
    if s.len() == 0 {
        assert(p.subrange(1, p.len() as int) =~= Seq::<char>::empty());
        if c == '\r' {
        } else if c == '\n' {
            assert(seq!['\\', 'n'] + escape_nl_spec(Seq::<char>::empty()) =~= escape_nl_spec(s)
                + seq!['\\', 'n']);
        } else {
            assert(seq![c] + escape_nl_spec(Seq::<char>::empty()) =~= escape_nl_spec(s).push(c));
        }
    } else {
        assert(p.subrange(1, p.len() as int) =~= s.subrange(1, s.len() as int).push(c));
        lemma_escape_nl_push(s.subrange(1, s.len() as int), c);
        let rest = escape_nl_spec(s.subrange(1, s.len() as int));
        if s[0] == '\r' {
        } else if s[0] == '\n' {
            if c == '\r' {
            } else if c == '\n' {
                assert(seq!['\\', 'n'] + (rest + seq!['\\', 'n']) =~= (seq!['\\', 'n'] + rest)
                    + seq!['\\', 'n']);
            } else {
                assert(seq!['\\', 'n'] + rest.push(c) =~= (seq!['\\', 'n'] + rest).push(c));
            }
        } else {
            if c == '\r' {
            } else if c == '\n' {
                assert(seq![s[0]] + (rest + seq!['\\', 'n']) =~= (seq![s[0]] + rest)
                    + seq!['\\', 'n']);
            } else {
                assert(seq![s[0]] + rest.push(c) =~= (seq![s[0]] + rest).push(c));
            }
        }
    }
}

/// Collapses line breaks in `s` to the literal escape `\n`, dropping
/// carriage returns.
pub fn escape_line_breaks(s: &str) -> (r: String)
    ensures
        r@ == escape_nl_spec(s@),
{
    let n = s.unicode_len();
    let mut out = String::new();
    let mut i: usize = 0;
    while i < n
        invariant
            0 <= i <= n,
            n == s@.len(),
            out@ == escape_nl_spec(s@.subrange(0, i as int)),
        decreases n - i,
    {
        let c = s.get_char(i);
        proof {
            let pre = s@.subrange(0, i as int);
            assert(s@.subrange(0, i as int + 1) =~= pre.push(s@[i as int]));
            lemma_escape_nl_push(pre, s@[i as int]);
        }
        if c == '\r' {
        } else if c == '\n' {
            let esc = "\\n";
            proof {
                reveal_strlit("\\n");
                assert(esc@ =~= seq!['\\', 'n']);
            }
            out.append(esc);
        } else {
            let piece = s.substring_char(i, i + 1);
            proof {
                assert(piece@ =~= seq![s@[i as int]]);
                assert(out@ + piece@ =~= out@.push(s@[i as int]));
            }
            out.append(piece);
        }
        i += 1;
    }
    proof {
        assert(s@.subrange(0, n as int) =~= s@);
    }
    out
}

// ---------------------------------------------------------------------------
// Decimal rendering
// ---------------------------------------------------------------------------

/// The decimal digit character for `d` (0 through 9).
pub open spec fn digit_char(d: nat) -> char {
    if d == 0 {
        '0'
    } else if d == 1 {
        '1'
    } else if d == 2 {
        '2'
    } else if d == 3 {
        '3'
    } else if d == 4 {
        '4'
    } else if d == 5 {
        '5'
    } else if d == 6 {
        '6'
    } else if d == 7 {
        '7'
    } else if d == 8 {
        '8'
    } else {
        '9'
    }
}

/// The decimal rendering of `n`, most significant digit first, no sign and
/// no leading zeros (a single `0` for zero).
pub open spec fn dec_spec(n: nat) -> Seq<char>
    decreases n,
{
    if n < 10 {
        seq![digit_char(n)]
    } else {
        dec_spec(n / 10) + seq![digit_char(n % 10)]
    }
}

fn digit_str(d: u8) -> (r: &'static str)
    requires
        d < 10,
    ensures
        r@ == seq![digit_char(d as nat)],
{
    proof {
        reveal_strlit("0");
        reveal_strlit("1");
        reveal_strlit("2");
        reveal_strlit("3");
        reveal_strlit("4");
        reveal_strlit("5");
        reveal_strlit("6");
        reveal_strlit("7");
        reveal_strlit("8");
        reveal_strlit("9");
    }
    let r = if d == 0 {
        "0"
    } else if d == 1 {
        "1"
    } else if d == 2 {
        "2"
    } else if d == 3 {
        "3"
    } else if d == 4 {
        "4"
    } else if d == 5 {
        "5"
    } else if d == 6 {
        "6"
    } else if d == 7 {
        "7"
    } else if d == 8 {
        "8"
    } else {
        "9"
    };
    proof {
        assert(r@ =~= seq![digit_char(d as nat)]);
    }
    r
}

/// Renders `n` in decimal.
pub fn u128_to_dec(n: u128) -> (r: String)
    ensures
        r@ == dec_spec(n as nat),
    decreases n,
{
    if n < 10 {
        String::from_str(digit_str(n as u8))
    } else {
        let mut r = u128_to_dec(n / 10);
        r.append(digit_str((n % 10) as u8));
        r
    }
}

// ---------------------------------------------------------------------------
// Prefix and suffix tests
// ---------------------------------------------------------------------------

pub open spec fn starts_with_spec(s: Seq<char>, p: Seq<char>) -> bool {
    p.len() <= s.len() && s.subrange(0, p.len() as int) == p
}

pub open spec fn ends_with_spec(s: Seq<char>, p: Seq<char>) -> bool {
    p.len() <= s.len() && s.subrange(s.len() - p.len(), s.len() as int) == p
}

pub fn str_starts_with(s: &str, p: &str) -> (r: bool)
    ensures
        r == starts_with_spec(s@, p@),
{
    let n = s.unicode_len();
    let m = p.unicode_len();
    if m > n {
        return false;
    }
    let mut j: usize = 0;
    while j < m
        invariant
            0 <= j <= m <= n,
            n == s@.len(),
            m == p@.len(),
            forall|k: int| 0 <= k < j ==> s@[k] == p@[k],
        decreases m - j,
    {
        if s.get_char(j) != p.get_char(j) {
            proof {
                assert(s@.subrange(0, m as int)[j as int] != p@[j as int]);
            }
            return false;
        }
        j += 1;
    }
    proof {
        assert(s@.subrange(0, m as int) =~= p@);
    }
    true
}

pub fn str_ends_with(s: &str, p: &str) -> (r: bool)
    ensures
        r == ends_with_spec(s@, p@),
{
    let n = s.unicode_len();
    let m = p.unicode_len();
    if m > n {
        return false;
    }
    let off = n - m;
    let mut j: usize = 0;
    while j < m
        invariant
            0 <= j <= m <= n,
            n == s@.len(),
            m == p@.len(),
            off == n - m,
            forall|k: int| 0 <= k < j ==> s@[off + k] == p@[k],
        decreases m - j,
    {
        if s.get_char(off + j) != p.get_char(j) {
            proof {
                assert(s@.subrange(off as int, n as int)[j as int] != p@[j as int]);
            }
            return false;
        }
        j += 1;
    }
    proof {
        assert(s@.subrange(off as int, n as int) =~= p@);
    }
    true
}

} // verus!
