//! The memory probe's parsing logic: turns the text of the system
//! memory-status source into a snapshot of available RAM and swap.
//!
//! The text is scanned line by line; the line labelled `MemAvailable:`
//! yields available RAM, the line labelled `SwapFree:` yields available
//! swap. Each matched line's second whitespace-separated token is read
//! as an unsigned integer in kibibytes and converted to bytes. An
//! unparsable value silently defaults to zero; this permissive policy is
//! deliberate, so the monitor stays live across transient format
//! irregularities.

use vstd::prelude::*;
use vstd::string::*;

verus! {

/// One point-in-time reading of available RAM and swap, in bytes.
#[derive(Clone, Copy, PartialEq, Eq, Structural, Debug)]
pub struct MemorySnapshot {
    pub available_ram_bytes: u64,
    pub available_swap_bytes: u64,
}

impl MemorySnapshot {
    /// The derived quantity the monitor compares against the threshold.
    pub open spec fn spec_total(&self) -> int {
        self.available_ram_bytes + self.available_swap_bytes
    }

    /// The sum of the two fields fits in a 64-bit value.
    pub open spec fn wf(&self) -> bool {
        self.spec_total() <= u64::MAX
    }

    /// Combined available RAM and swap in bytes.
    pub fn total_available(&self) -> (r: u64)
        requires
            self.wf(),
        ensures
            r == self.spec_total(),
    {
        self.available_ram_bytes + self.available_swap_bytes
    }
}

/// The whitespace that separates tokens on a memory-status line: the
/// characters with the Unicode White_Space property, as the standard
/// whitespace split accepts them.
pub open spec fn is_space(c: char) -> bool {
    let u = c as u32;
    (9 <= u && u <= 13) || u == 32 || u == 0x85 || u == 0xA0 || u == 0x1680 || (0x2000 <= u && u
        <= 0x200A) || u == 0x2028 || u == 0x2029 || u == 0x202F || u == 0x205F || u == 0x3000
}

/// ASCII decimal digit.
pub open spec fn is_digit(c: char) -> bool {
    48 <= c as u32 <= 57
}

/// Numeric value of an ASCII decimal digit.
pub open spec fn digit_val(c: char) -> nat {
    (c as u32 - 48) as nat
}

/// Drops the leading run of whitespace.
pub open spec fn skip_spaces(s: Seq<char>) -> Seq<char>
    decreases s.len(),
{
    if s.len() > 0 && is_space(s[0]) {
        skip_spaces(s.drop_first())
    } else {
        s
    }
}

/// The leading run of non-whitespace characters.
pub open spec fn take_token(s: Seq<char>) -> Seq<char>
    decreases s.len(),
{
    if s.len() > 0 && !is_space(s[0]) {
        seq![s[0]] + take_token(s.drop_first())
    } else {
        Seq::empty()
    }
}

/// Drops the leading run of non-whitespace characters.
pub open spec fn skip_token(s: Seq<char>) -> Seq<char>
    decreases s.len(),
{
    if s.len() > 0 && !is_space(s[0]) {
        skip_token(s.drop_first())
    } else {
        s
    }
}

/// The second whitespace-separated token of a line (empty if none).
pub open spec fn second_token(s: Seq<char>) -> Seq<char> {
    take_token(skip_spaces(skip_token(skip_spaces(s))))
}

/// Value of a digit string read in base ten.
pub open spec fn digits_val(s: Seq<char>) -> nat
    decreases s.len(),
{
    if s.len() == 0 {
        0
    } else {
        digits_val(s.drop_last()) * 10 + digit_val(s.last())
    }
}

/// Every character is an ASCII decimal digit.
pub open spec fn all_digits(s: Seq<char>) -> bool {
    forall|i: int| 0 <= i < s.len() ==> is_digit(s[i])
}

/// A token's numeric body: the token with an optional leading plus
/// sign removed, as the standard unsigned-integer parse accepts it.
pub open spec fn numeric_body(tok: Seq<char>) -> Seq<char> {
    if tok.len() > 0 && tok[0] == '+' {
        tok.drop_first()
    } else {
        tok
    }
}

/// Whether the token parses as an unsigned 64-bit integer: a nonempty
/// all-digit body (after an optional plus sign) whose value fits.
pub open spec fn parses_as_u64(tok: Seq<char>) -> bool {
    let b = numeric_body(tok);
    b.len() > 0 && all_digits(b) && digits_val(b) <= u64::MAX
}

/// The kibibyte count a memory-status line carries: its second token's
/// numeric value, or zero when the token is absent or does not parse.
pub open spec fn token_kb(line: Seq<char>) -> nat {
    let t = second_token(line);
    if parses_as_u64(t) {
        digits_val(numeric_body(t))
    } else {
        0
    }
}

/// Whether a line's value can be converted to bytes without overflow:
/// the byte count fits in a 64-bit value.
pub open spec fn line_ok(l: Seq<char>) -> bool {
    token_kb(l) * 1024 <= u64::MAX
}

proof fn lemma_skip_spaces_at(s: Seq<char>, i: int)
    requires
        0 <= i <= s.len(),
        forall|j: int| 0 <= j < i ==> is_space(s[j]),
        i == s.len() || !is_space(s[i]),
    ensures
        skip_spaces(s) == s.subrange(i, s.len() as int),
    decreases i,
{
    if i == 0 {
        assert(s.subrange(0, s.len() as int) =~= s);
    } else {
        let t = s.drop_first();
        assert(forall|j: int| 0 <= j < i - 1 ==> is_space(#[trigger] t[j]));
        lemma_skip_spaces_at(t, i - 1);
        assert(t.subrange(i - 1, t.len() as int) =~= s.subrange(i, s.len() as int));
    }
}

proof fn lemma_skip_token_at(s: Seq<char>, i: int)
    requires
        0 <= i <= s.len(),
        forall|j: int| 0 <= j < i ==> !is_space(s[j]),
        i == s.len() || is_space(s[i]),
    ensures
        skip_token(s) == s.subrange(i, s.len() as int),
    decreases i,
{
    if i == 0 {
        assert(s.subrange(0, s.len() as int) =~= s);
    } else {
        let t = s.drop_first();
        assert(forall|j: int| 0 <= j < i - 1 ==> !is_space(#[trigger] t[j]));
        lemma_skip_token_at(t, i - 1);
        assert(t.subrange(i - 1, t.len() as int) =~= s.subrange(i, s.len() as int));
    }
}

proof fn lemma_take_token_at(s: Seq<char>, i: int)
    requires
        0 <= i <= s.len(),
        forall|j: int| 0 <= j < i ==> !is_space(s[j]),
        i == s.len() || is_space(s[i]),
    ensures
        take_token(s) == s.subrange(0, i),
    decreases i,
{
    if i == 0 {
        assert(take_token(s) == s.subrange(0, 0));
    } else {
        let t = s.drop_first();
        assert(forall|j: int| 0 <= j < i - 1 ==> !is_space(#[trigger] t[j]));
        lemma_take_token_at(t, i - 1);
        assert(seq![s[0]] + t.subrange(0, i - 1) =~= s.subrange(0, i));
    }
}

/// Reading more digits never lowers the value.
proof fn lemma_digits_val_prefix_le(s: Seq<char>, i: int)
    requires
        0 <= i <= s.len(),
    ensures
        digits_val(s.subrange(0, i)) <= digits_val(s),
    decreases s.len() - i,
{
    if i == s.len() {
        assert(s.subrange(0, i) =~= s);
    } else {
        let t = s.subrange(0, i + 1);
        assert(t.drop_last() =~= s.subrange(0, i));
        assert(digits_val(s.subrange(0, i)) <= digits_val(t));
        lemma_digits_val_prefix_le(s, i + 1);
        assert(s.subrange(0, i + 1) == t);
    }
}

/// Whether `s` starts with the prefix `p`.
pub open spec fn spec_starts_with(s: Seq<char>, p: Seq<char>) -> bool {
    s.len() >= p.len() && s.subrange(0, p.len() as int) == p
}

/// Character-by-character prefix test.
fn str_starts_with(s: &str, p: &str) -> (r: bool)
    ensures
        r == spec_starts_with(s@, p@),
{
    let n = s.unicode_len();
    let m = p.unicode_len();
    if n < m {
        return false;
    }
    let mut i: usize = 0;
    while i < m
        invariant
            m <= n,
            n == s@.len(),
            m == p@.len(),
            i <= m,
            forall|j: int| 0 <= j < i ==> s@[j] == p@[j],
        decreases m - i,
    {
        if s.get_char(i) != p.get_char(i) {
            proof {
                assert(s@.subrange(0, m as int)[i as int] != p@[i as int]);
            }
            return false;
        }
        i = i + 1;
    }
    proof {
        assert(s@.subrange(0, m as int) =~= p@);
    }
    true
}

/// Scans the line for its second whitespace-separated token and parses
/// it as an unsigned kibibyte count, converted to bytes. Returns `None`
/// exactly when converting the value to bytes would overflow 64 bits;
/// `Some(0)` when the token is absent or fails to parse as a number,
/// mirroring the permissive default.
#[verifier::loop_isolation(false)]
pub fn parse_mem_line_checked(line: &str) -> (r: Option<u64>)
    ensures
        r == if line_ok(line@) {
            Some((token_kb(line@) * 1024) as u64)
        } else {
            None::<u64>
        },
{
    let s = line;
    let n = s.unicode_len();
    // First run of whitespace.
    let mut a: usize = 0;
    while a < n && is_space_exec(s.get_char(a))
        invariant
            n == s@.len(),
            a <= n,
            forall|j: int| 0 <= j < a ==> is_space(s@[j]),
        decreases n - a,
    {
        a = a + 1;
    }
    // First token.
    let mut b: usize = a;
    while b < n && !is_space_exec(s.get_char(b))
        invariant
            n == s@.len(),
            a <= b <= n,
            forall|j: int| a <= j < b ==> !is_space(s@[j]),
        decreases n - b,
    {
        b = b + 1;
    }
    // Whitespace between first and second token.
    let mut k: usize = b;
    while k < n && is_space_exec(s.get_char(k))
        invariant
            n == s@.len(),
            b <= k <= n,
            forall|j: int| b <= j < k ==> is_space(s@[j]),
        decreases n - k,
    {
        k = k + 1;
    }
    // Second token.
    let mut m: usize = k;
    while m < n && !is_space_exec(s.get_char(m))
        invariant
            n == s@.len(),
            k <= m <= n,
            forall|j: int| k <= j < m ==> !is_space(s@[j]),
        decreases n - m,
    {
        m = m + 1;
    }
    proof {
        lemma_second_token_bounds(s@, a as int, b as int, k as int, m as int);
    }
    if k == m {
        // No second token on the line: its value defaults to zero.
        proof {
            assert(second_token(s@).len() == 0);
            assert(token_kb(s@) == 0);
            assert(line_ok(s@));
        }
        return Some(0);
    }
    // Optional leading plus sign.
    let start: usize = if s.get_char(k) == '+' {
        k + 1
    } else {
        k
    };
    proof {
        assert(numeric_body(s@.subrange(k as int, m as int)) =~= s@.subrange(
            start as int,
            m as int,
        ));
    }
    let ghost body = s@.subrange(start as int, m as int);
    if start == m {
        // The token is a bare plus sign: no digits, defaults to zero.
        return Some(0);
    }
    // Parse the digit run, watching for 64-bit overflow.
    let mut acc: u64 = 0;
    let mut p: usize = start;
    while p < m
        invariant
            n == s@.len(),
            start <= p <= m <= n,
            body == s@.subrange(start as int, m as int),
            forall|j: int| start <= j < p ==> is_digit(s@[j]),
            acc == digits_val(s@.subrange(start as int, p as int)),
        decreases m - p,
    {
        let c = s.get_char(p);
        let u = c as u32;
        if !(48 <= u && u <= 57) {
            // A non-digit in the body: the parse fails, value defaults to zero.
            proof {
                assert(!is_digit(body[p - start]));
                assert(!all_digits(body));
                assert(token_kb(s@) == 0);
                assert(line_ok(s@));
            }
            return Some(0);
        }
        let d = (u - 48) as u64;
        proof {
            vstd::arithmetic::div_mod::lemma_fundamental_div_mod((u64::MAX - d) as int, 10);
            assert(s@.subrange(start as int, p + 1).drop_last() =~= s@.subrange(
                start as int,
                p as int,
            ));
        }
        if acc > (u64::MAX - d) / 10 {
            // The value cannot fit in 64 bits: the parse fails, value
            // defaults to zero.
            proof {
                assert(digits_val(s@.subrange(start as int, p + 1)) == acc * 10 + d);
                lemma_digits_val_prefix_le(body, p + 1 - start as int);
                assert(body.subrange(0, p + 1 - start as int) =~= s@.subrange(
                    start as int,
                    p + 1,
                ));
                assert(digits_val(body) > u64::MAX);
                assert(token_kb(s@) == 0);
                assert(line_ok(s@));
            }
            return Some(0);
        }
        acc = acc * 10 + d;
        p = p + 1;
    }
    proof {
        assert(body =~= s@.subrange(start as int, m as int));
    }
    // The token parsed: convert kibibytes to bytes unless that overflows.
    if acc > u64::MAX / 1024 {
        proof {
            vstd::arithmetic::div_mod::lemma_fundamental_div_mod(u64::MAX as int, 1024);
        }
        return None;
    }
    proof {
        vstd::arithmetic::div_mod::lemma_fundamental_div_mod(u64::MAX as int, 1024);
    }
    Some(acc * 1024)
}

/// Whitespace test on one character.
fn is_space_exec(c: char) -> (r: bool)
    ensures
        r == is_space(c),
{
    let u = c as u32;
    (9 <= u && u <= 13) || u == 32 || u == 0x85 || u == 0xA0 || u == 0x1680 || (0x2000 <= u && u
        <= 0x200A) || u == 0x2028 || u == 0x2029 || u == 0x202F || u == 0x205F || u == 0x3000
}

/// Ties the four scan positions to the token structure of the line:
/// the second token is exactly the characters from `k` to `m`.
proof fn lemma_second_token_bounds(s: Seq<char>, a: int, b: int, k: int, m: int)
    requires
        0 <= a <= b <= k <= m <= s.len(),
        forall|j: int| 0 <= j < a ==> is_space(s[j]),
        a == s.len() || !is_space(s[a]),
        forall|j: int| a <= j < b ==> !is_space(s[j]),
        b == s.len() || is_space(s[b]),
        forall|j: int| b <= j < k ==> is_space(s[j]),
        k == s.len() || !is_space(s[k]),
        forall|j: int| k <= j < m ==> !is_space(s[j]),
        m == s.len() || is_space(s[m]),
    ensures
        second_token(s) == s.subrange(k, m),
    decreases s.len(),
{
    let n = s.len() as int;
    lemma_skip_spaces_at(s, a);
    let s1 = s.subrange(a, n);
    assert(forall|j: int| 0 <= j < b - a ==> !is_space(#[trigger] s1[j]));
    lemma_skip_token_at(s1, b - a);
    assert(s1.subrange(b - a, s1.len() as int) =~= s.subrange(b, n));
    let s2 = s.subrange(b, n);
    assert(forall|j: int| 0 <= j < k - b ==> is_space(#[trigger] s2[j]));
    lemma_skip_spaces_at(s2, k - b);
    assert(s2.subrange(k - b, s2.len() as int) =~= s.subrange(k, n));
    let s3 = s.subrange(k, n);
    assert(forall|j: int| 0 <= j < m - k ==> !is_space(#[trigger] s3[j]));
    lemma_take_token_at(s3, m - k);
    assert(s3.subrange(0, m - k) =~= s.subrange(k, m));
}

/// Strips one trailing carriage return, as the line splitter does
/// before a line feed.
pub open spec fn strip_cr(l: Seq<char>) -> Seq<char> {
    if l.len() > 0 && l.last() == '\r' {
        l.drop_last()
    } else {
        l
    }
}

/// The standard line split, character by character from `pos`, with
/// `cur` the part of the current line already consumed: lines end at a
/// line feed (a carriage return directly before one is dropped), and a
/// final line needs no terminator, but an empty final line yields
/// nothing.
pub open spec fn split_lines_from(s: Seq<char>, pos: int, cur: Seq<char>) -> Seq<Seq<char>>
    decreases s.len() - pos,
{
    if pos < 0 || pos >= s.len() {
        if cur.len() == 0 {
            Seq::empty()
        } else {
            seq![cur]
        }
    } else if s[pos] == '\n' {
        seq![strip_cr(cur)] + split_lines_from(s, pos + 1, Seq::empty())
    } else {
        split_lines_from(s, pos + 1, cur.push(s[pos]))
    }
}

/// The lines of the text, as the standard line iterator yields them.
pub open spec fn split_lines(s: Seq<char>) -> Seq<Seq<char>> {
    split_lines_from(s, 0, Seq::empty())
}

/// Splits the text into its lines.
#[verifier::loop_isolation(false)]
fn split_lines_exec(s: &str) -> (r: Vec<String>)
    ensures
        r@.map_values(|l: String| l@) == split_lines(s@),
{
    let n = s.unicode_len();
    let mut out: Vec<String> = Vec::new();
    let mut start: usize = 0;
    let mut pos: usize = 0;
    proof {
        assert(s@.subrange(0, 0) =~= Seq::<char>::empty());
        assert(out@.map_values(|l: String| l@) =~= Seq::<Seq<char>>::empty());
        assert(Seq::<Seq<char>>::empty() + split_lines_from(s@, 0, Seq::<char>::empty())
            =~= split_lines_from(s@, 0, Seq::<char>::empty()));
    }
    while pos < n
        invariant
            n == s@.len(),
            start <= pos <= n,
            split_lines(s@) == out@.map_values(|l: String| l@) + split_lines_from(
                s@,
                pos as int,
                s@.subrange(start as int, pos as int),
            ),
        decreases n - pos,
    {
        let c = s.get_char(pos);
        if c == '\n' {
            let mut line_end = pos;
            if pos > start && s.get_char(pos - 1) == '\r' {
                line_end = pos - 1;
            }
            let line = s.substring_char(start, line_end);
            proof {
                assert(strip_cr(s@.subrange(start as int, pos as int)) =~= s@.subrange(
                    start as int,
                    line_end as int,
                ));
            }
            let ghost prev = out@;
            out.push(String::from_str(line));
            proof {
                assert(out@.map_values(|l: String| l@) =~= prev.map_values(|l: String| l@)
                    + seq![s@.subrange(start as int, line_end as int)]);
            }
            pos = pos + 1;
            start = pos;
            proof {
                assert(s@.subrange(start as int, pos as int) =~= Seq::<char>::empty());
            }
        } else {
            proof {
                assert(s@.subrange(start as int, pos + 1) =~= s@.subrange(
                    start as int,
                    pos as int,
                ).push(s@[pos as int]));
            }
            pos = pos + 1;
        }
    }
    if start < n {
        let line = s.substring_char(start, n);
        let ghost prev = out@;
        out.push(String::from_str(line));
        proof {
            assert(out@.map_values(|l: String| l@) =~= prev.map_values(|l: String| l@)
                + seq![s@.subrange(start as int, n as int)]);
        }
    }
    out
}

/// A line the probe reads available RAM from.
pub open spec fn is_mem_line(l: Seq<char>) -> bool {
    spec_starts_with(l, "MemAvailable:"@)
}

/// A line the probe reads available swap from.
pub open spec fn is_swap_line(l: Seq<char>) -> bool {
    spec_starts_with(l, "SwapFree:"@)
}

/// Every line the probe would read a value from can be converted to
/// bytes without overflow.
pub open spec fn all_matched_ok(ls: Seq<Seq<char>>) -> bool {
    forall|i: int|
        0 <= i < ls.len() ==> ((is_mem_line(#[trigger] ls[i]) || is_swap_line(ls[i]))
            ==> line_ok(ls[i]))
}

/// Available RAM in bytes: the value of the last RAM-labelled line,
/// zero if there is none.
pub open spec fn ram_of(ls: Seq<Seq<char>>) -> nat
    decreases ls.len(),
{
    if ls.len() == 0 {
        0
    } else if is_mem_line(ls.last()) {
        token_kb(ls.last()) * 1024
    } else {
        ram_of(ls.drop_last())
    }
}

/// Available swap in bytes: the value of the last swap-labelled line
/// (a RAM-labelled line is never read as swap), zero if there is none.
pub open spec fn swap_of(ls: Seq<Seq<char>>) -> nat
    decreases ls.len(),
{
    if ls.len() == 0 {
        0
    } else if is_mem_line(ls.last()) {
        swap_of(ls.drop_last())
    } else if is_swap_line(ls.last()) {
        token_kb(ls.last()) * 1024
    } else {
        swap_of(ls.drop_last())
    }
}

/// What parsing the whole memory-status text yields: a snapshot of the
/// last RAM and swap readings, or nothing when some matched line's
/// value cannot be converted to bytes.
pub open spec fn spec_parse_meminfo(text: Seq<char>) -> Option<MemorySnapshot> {
    let ls = split_lines(text);
    if all_matched_ok(ls) {
        Some(
            MemorySnapshot {
                available_ram_bytes: ram_of(ls) as u64,
                available_swap_bytes: swap_of(ls) as u64,
            },
        )
    } else {
        None
    }
}

/// Parses the text of the system memory-status source: scans each
/// line, reads available RAM from the last `MemAvailable:` line and
/// available swap from the last `SwapFree:` line, each defaulting to
/// zero when absent or unparsable. Returns `None` exactly when a
/// matched line's byte value overflows 64 bits, the one input on
/// which no defined reading exists.
#[verifier::loop_isolation(false)]
pub fn parse_meminfo(text: &str) -> (r: Option<MemorySnapshot>)
    ensures
        r == spec_parse_meminfo(text@),
{
    let lines = split_lines_exec(text);
    let ghost ls = split_lines(text@);
    let mut ram: u64 = 0;
    let mut swap: u64 = 0;
    let mut idx: usize = 0;
    while idx < lines.len()
        invariant
            lines@.map_values(|l: String| l@) == ls,
            idx <= lines.len(),
            all_matched_ok(ls.subrange(0, idx as int)),
            ram == ram_of(ls.subrange(0, idx as int)),
            swap == swap_of(ls.subrange(0, idx as int)),
        decreases lines.len() - idx,
    {
        let line: &String = &lines[idx];
        proof {
            assert(line@ == ls[idx as int]);
        }
        let matches_mem = str_starts_with(line.as_str(), "MemAvailable:");
        let matches_swap = if matches_mem {
            false
        } else {
            str_starts_with(line.as_str(), "SwapFree:")
        };
        if matches_mem || matches_swap {
            match parse_mem_line_checked(line.as_str()) {
                Some(v) => {
                    if matches_mem {
                        ram = v;
                    } else {
                        swap = v;
                    }
                },
                None => {
                    proof {
                        assert(!line_ok(ls[idx as int]));
                        assert(!all_matched_ok(ls));
                    }
                    return None;
                },
            }
        }
        proof {
            assert(ls.subrange(0, idx + 1).drop_last() =~= ls.subrange(0, idx as int));
            assert(ls.subrange(0, idx + 1).last() == ls[idx as int]);
        }
        idx = idx + 1;
    }
    proof {
        assert(ls.subrange(0, idx as int) =~= ls);
    }
    Some(MemorySnapshot { available_ram_bytes: ram, available_swap_bytes: swap })
}

/// Reads a memory-status line's value in bytes: the second
/// whitespace-separated token parsed as kibibytes times 1024, zero
/// when the token is absent or not a number.
pub fn parse_mem_line(line: &str) -> (r: u64)
    requires
        token_kb(line@) * 1024 <= u64::MAX,
    ensures
        r == token_kb(line@) * 1024,
{
    match parse_mem_line_checked(line) {
        Some(v) => v,
        None => {
            proof {
                assert(false);
            }
            0
        },
    }
}

} // verus!
