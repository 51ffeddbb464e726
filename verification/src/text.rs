//! Character-level building blocks shared by every label the UI shows:
//! decimal and hexadecimal numerals, zero padding, Unicode white space,
//! lines, comparison without ASCII case, and moving characters between
//! `str`, `Vec<char>` and `String`.
use vstd::prelude::*;

verus! {

/// Appends one character to a string (std `String::push`): the string's
/// characters afterwards are the old ones followed by `c`.
#[verifier::external_body]
pub(crate) fn push_char(s: &mut String, c: char)
    ensures
        final(s)@ == old(s)@.push(c),
{
    s.push(c);
}

/// The characters of a string slice, in order.
pub fn chars_of(s: &str) -> (out: Vec<char>)
    ensures
        out@ == s@,
{
    let mut out: Vec<char> = Vec::new();
    for c in it: s.chars()
        invariant
            out@ == it.seq().take(it.index() as int),
    {
        out.push(c);
    }
    out
}

/// Appends `chars[lo..hi]` to `s`.
pub fn push_chars(s: &mut String, chars: &Vec<char>, lo: usize, hi: usize)
    requires
        lo <= hi <= chars@.len(),
    ensures
        final(s)@ == old(s)@ + chars@.subrange(lo as int, hi as int),
{
    let mut i = lo;
    while i < hi
        invariant
            lo <= i <= hi <= chars@.len(),
            s@ == old(s)@ + chars@.subrange(lo as int, i as int),
        decreases hi - i,
    {
        push_char(s, chars[i]);
        assert(chars@.subrange(lo as int, i + 1) == chars@.subrange(lo as int, i as int).push(
            chars@[i as int],
        ));
        i = i + 1;
    }
}

/// A new string holding `chars[lo..hi]`.
pub fn string_from_chars(chars: &Vec<char>, lo: usize, hi: usize) -> (out: String)
    requires
        lo <= hi <= chars@.len(),
    ensures
        out@ == chars@.subrange(lo as int, hi as int),
{
    let mut out = String::new();
    push_chars(&mut out, chars, lo, hi);
    out
}

/// The ASCII digit for a value below ten.
pub open spec fn digit_char(d: nat) -> char {
    if d == 0 {
        '0'
    } else if d == 1 {
        '1'
    } else if d == 2 {
        '2'
    } else if d == 3 {
        '3'
    } else if d == 4 {
        '4'
    } else if d == 5 {
        '5'
    } else if d == 6 {
        '6'
    } else if d == 7 {
        '7'
    } else if d == 8 {
        '8'
    } else {
        '9'
    }
}

/// The upper-case hexadecimal digit for a value below sixteen.
pub open spec fn hex_digit_char(d: nat) -> char {
    if d < 10 {
        digit_char(d)
    } else if d == 10 {
        'A'
    } else if d == 11 {
        'B'
    } else if d == 12 {
        'C'
    } else if d == 13 {
        'D'
    } else if d == 14 {
        'E'
    } else {
        'F'
    }
}

/// `n` written in decimal, without leading zeros (`0` is written `0`):
/// what `format!("{n}")` writes for an unsigned integer.
pub open spec fn decimal(n: nat) -> Seq<char>
    decreases n,
{
    if n < 10 {
        seq![digit_char(n)]
    } else {
        decimal(n / 10).push(digit_char(n % 10))
    }
}

/// `n` written in upper-case hexadecimal without leading zeros: what
/// `format!("{n:X}")` writes.
pub open spec fn hex_upper(n: nat) -> Seq<char>
    decreases n,
{
    if n < 16 {
        seq![hex_digit_char(n)]
    } else {
        hex_upper(n / 16).push(hex_digit_char(n % 16))
    }
}

/// `count` copies of `c`.
pub open spec fn repeat_char(c: char, count: nat) -> Seq<char>
    decreases count,
{
    if count == 0 {
        Seq::empty()
    } else {
        repeat_char(c, (count - 1) as nat).push(c)
    }
}

/// `digits` left-padded with `'0'` to at least `width` characters, as the
/// `0` flag with a width does in `format!`.
pub open spec fn zero_padded(digits: Seq<char>, width: nat) -> Seq<char> {
    if digits.len() >= width {
        digits
    } else {
        repeat_char('0', (width - digits.len()) as nat) + digits
    }
}

/// `format!("{n:02}")`.
pub open spec fn two_digits(n: nat) -> Seq<char> {
    zero_padded(decimal(n), 2)
}

fn digit_of(d: u64) -> (c: char)
    requires
        d < 16,
    ensures
        c == hex_digit_char(d as nat),
{
    if d == 0 {
        '0'
    } else if d == 1 {
        '1'
    } else if d == 2 {
        '2'
    } else if d == 3 {
        '3'
    } else if d == 4 {
        '4'
    } else if d == 5 {
        '5'
    } else if d == 6 {
        '6'
    } else if d == 7 {
        '7'
    } else if d == 8 {
        '8'
    } else if d == 9 {
        '9'
    } else if d == 10 {
        'A'
    } else if d == 11 {
        'B'
    } else if d == 12 {
        'C'
    } else if d == 13 {
        'D'
    } else if d == 14 {
        'E'
    } else {
        'F'
    }
}

/// Appends `n` in decimal.
pub fn push_decimal(s: &mut String, n: u64)
    ensures
        final(s)@ == old(s)@ + decimal(n as nat),
    decreases n,
{
    if n >= 10 {
        push_decimal(s, n / 10);
    }
    let c = digit_of(n % 10);
    push_char(s, c);
    assert(decimal(n as nat) == if n < 10 {
        seq![digit_char(n as nat)]
    } else {
        decimal((n / 10) as nat).push(digit_char((n % 10) as nat))
    });
    if n < 10 {
        assert(old(s)@.push(c) == old(s)@ + seq![c]);
    } else {
        assert(s@ == old(s)@ + decimal((n / 10) as nat) + seq![c]);
    }
}

/// Appends `n` in decimal.
pub fn push_decimal_u128(s: &mut String, n: u128)
    ensures
        final(s)@ == old(s)@ + decimal(n as nat),
    decreases n,
{
    if n >= 10 {
        push_decimal_u128(s, n / 10);
    }
    let c = digit_of((n % 10) as u64);
    push_char(s, c);
    if n < 10 {
        assert(old(s)@.push(c) == old(s)@ + seq![c]);
    } else {
        assert(s@ == old(s)@ + decimal((n / 10) as nat) + seq![c]);
    }
}

/// `i` written in decimal, with a leading `-` when negative.
pub open spec fn signed_decimal(i: int) -> Seq<char> {
    if i < 0 {
        seq!['-'] + decimal((-i) as nat)
    } else {
        decimal(i as nat)
    }
}

/// Appends `i` in decimal, with a leading `-` when negative.
pub fn push_signed_decimal(s: &mut String, i: i128)
    ensures
        final(s)@ == old(s)@ + signed_decimal(i as int),
{
    if i < 0 {
        push_char(s, '-');
        let magnitude: u128 = if i == i128::MIN {
            0x8000_0000_0000_0000_0000_0000_0000_0000u128
        } else {
            (-i) as u128
        };
        push_decimal_u128(s, magnitude);
        assert(s@ == old(s)@ + (seq!['-'] + decimal((-i) as nat)));
    } else {
        push_decimal_u128(s, i as u128);
    }
}

/// Appends `n` in upper-case hexadecimal.
pub fn push_hex_upper(s: &mut String, n: u64)
    ensures
        final(s)@ == old(s)@ + hex_upper(n as nat),
    decreases n,
{
    if n >= 16 {
        push_hex_upper(s, n / 16);
    }
    let c = digit_of(n % 16);
    push_char(s, c);
    if n < 16 {
        assert(old(s)@.push(c) == old(s)@ + seq![c]);
    } else {
        assert(s@ == old(s)@ + hex_upper((n / 16) as nat) + seq![c]);
    }
}

/// Appends `count` copies of `c`.
pub fn push_repeated(s: &mut String, c: char, count: usize)
    ensures
        final(s)@ == old(s)@ + repeat_char(c, count as nat),
{
    let mut i: usize = 0;
    while i < count
        invariant
            i <= count,
            s@ == old(s)@ + repeat_char(c, i as nat),
        decreases count - i,
    {
        push_char(s, c);
        i = i + 1;
        assert(repeat_char(c, i as nat) == repeat_char(c, (i - 1) as nat).push(c));
    }
}

/// Number of digits `decimal` writes for `n`.
pub fn decimal_len(n: u64) -> (len: usize)
    ensures
        len == decimal(n as nat).len(),
        1 <= len <= 20,
    decreases n,
{
    proof {
        lemma_decimal_len_bound(n as nat);
    }
    if n < 10 {
        1
    } else {
        decimal_len(n / 10) + 1
    }
}

/// Number of digits `hex_upper` writes for `n`.
pub fn hex_len(n: u64) -> (len: usize)
    ensures
        len == hex_upper(n as nat).len(),
        1 <= len <= 16,
    decreases n,
{
    proof {
        lemma_hex_len_bound(n as nat);
    }
    if n < 16 {
        1
    } else {
        hex_len(n / 16) + 1
    }
}

proof fn lemma_decimal_len_bound(n: nat)
    requires
        n <= u64::MAX,
    ensures
        1 <= decimal(n).len() <= 20,
        n < 10000000000000000000 ==> decimal(n).len() <= 19,
        n < 1000000000000000000 ==> decimal(n).len() <= 18,
        n < 100000000000000000 ==> decimal(n).len() <= 17,
        n < 10000000000000000 ==> decimal(n).len() <= 16,
        n < 1000000000000000 ==> decimal(n).len() <= 15,
        n < 100000000000000 ==> decimal(n).len() <= 14,
        n < 10000000000000 ==> decimal(n).len() <= 13,
        n < 1000000000000 ==> decimal(n).len() <= 12,
        n < 100000000000 ==> decimal(n).len() <= 11,
        n < 10000000000 ==> decimal(n).len() <= 10,
        n < 1000000000 ==> decimal(n).len() <= 9,
        n < 100000000 ==> decimal(n).len() <= 8,
        n < 10000000 ==> decimal(n).len() <= 7,
        n < 1000000 ==> decimal(n).len() <= 6,
        n < 100000 ==> decimal(n).len() <= 5,
        n < 10000 ==> decimal(n).len() <= 4,
        n < 1000 ==> decimal(n).len() <= 3,
        n < 100 ==> decimal(n).len() <= 2,
        n < 10 ==> decimal(n).len() <= 1,
    decreases n,
{
    if n >= 10 {
        lemma_decimal_len_bound(n / 10);
    }
}

proof fn lemma_hex_len_bound(n: nat)
    requires
        n <= u64::MAX,
    ensures
        1 <= hex_upper(n).len() <= 16,
        n < 0x1000000000000000 ==> hex_upper(n).len() <= 15,
        n < 0x100000000000000 ==> hex_upper(n).len() <= 14,
        n < 0x10000000000000 ==> hex_upper(n).len() <= 13,
        n < 0x1000000000000 ==> hex_upper(n).len() <= 12,
        n < 0x100000000000 ==> hex_upper(n).len() <= 11,
        n < 0x10000000000 ==> hex_upper(n).len() <= 10,
        n < 0x1000000000 ==> hex_upper(n).len() <= 9,
        n < 0x100000000 ==> hex_upper(n).len() <= 8,
        n < 0x10000000 ==> hex_upper(n).len() <= 7,
        n < 0x1000000 ==> hex_upper(n).len() <= 6,
        n < 0x100000 ==> hex_upper(n).len() <= 5,
        n < 0x10000 ==> hex_upper(n).len() <= 4,
        n < 0x1000 ==> hex_upper(n).len() <= 3,
        n < 0x100 ==> hex_upper(n).len() <= 2,
        n < 0x10 ==> hex_upper(n).len() <= 1,
    decreases n,
{
    if n >= 16 {
        lemma_hex_len_bound(n / 16);
    }
}

/// Appends `n` in decimal, left-padded with zeros to `width` characters.
pub fn push_decimal_padded(s: &mut String, n: u64, width: usize)
    ensures
        final(s)@ == old(s)@ + zero_padded(decimal(n as nat), width as nat),
{
    let len = decimal_len(n);
    if len < width {
        push_repeated(s, '0', width - len);
    }
    push_decimal(s, n);
    assert(s@ == old(s)@ + zero_padded(decimal(n as nat), width as nat));
}

/// Appends `n` in upper-case hexadecimal, left-padded with zeros to `width`.
pub fn push_hex_padded(s: &mut String, n: u64, width: usize)
    ensures
        final(s)@ == old(s)@ + zero_padded(hex_upper(n as nat), width as nat),
{
    let len = hex_len(n);
    if len < width {
        push_repeated(s, '0', width - len);
    }
    push_hex_upper(s, n);
    assert(s@ == old(s)@ + zero_padded(hex_upper(n as nat), width as nat));
}

/// A character with the Unicode `White_Space` property: the characters
/// that `char::is_whitespace`, `str::trim` and `str::split_whitespace` treat
/// as space.
pub open spec fn is_white_space(c: char) -> bool {
    ||| '\u{9}' <= c <= '\u{d}'
    ||| c == ' '
    ||| c == '\u{85}'
    ||| c == '\u{a0}'
    ||| c == '\u{1680}'
    ||| '\u{2000}' <= c <= '\u{200a}'
    ||| c == '\u{2028}'
    ||| c == '\u{2029}'
    ||| c == '\u{202f}'
    ||| c == '\u{205f}'
    ||| c == '\u{3000}'
}

/// Executable `is_white_space`.
pub fn white_space(c: char) -> (b: bool)
    ensures
        b == is_white_space(c),
{
    ('\u{9}' <= c && c <= '\u{d}') || c == ' ' || c == '\u{85}' || c == '\u{a0}' || c
        == '\u{1680}' || ('\u{2000}' <= c && c <= '\u{200a}') || c == '\u{2028}' || c
        == '\u{2029}' || c == '\u{202f}' || c == '\u{205f}' || c == '\u{3000}'
}

/// An ASCII decimal digit.
pub open spec fn is_ascii_digit(c: char) -> bool {
    '0' <= c <= '9'
}

} // verus!

verus! {

/// `s` without trailing white space (`str::trim_end`).
pub open spec fn trim_end(s: Seq<char>) -> Seq<char>
    decreases s.len(),
{
    if s.len() > 0 && is_white_space(s.last()) {
        trim_end(s.drop_last())
    } else {
        s
    }
}

/// `s` without leading white space (`str::trim_start`).
pub open spec fn trim_start(s: Seq<char>) -> Seq<char>
    decreases s.len(),
{
    if s.len() > 0 && is_white_space(s[0]) {
        trim_start(s.drop_first())
    } else {
        s
    }
}

/// `s` without leading or trailing white space (`str::trim`).
pub open spec fn trim(s: Seq<char>) -> Seq<char> {
    trim_start(trim_end(s))
}

/// The index just past the last non-white-space character of `chars[..hi]`:
/// `trim_end(chars[..hi])` is `chars[..e]`.
pub fn trimmed_end(chars: &Vec<char>, hi: usize) -> (e: usize)
    requires
        hi <= chars@.len(),
    ensures
        e <= hi,
        trim_end(chars@.subrange(0, hi as int)) == chars@.subrange(0, e as int),
{
    let mut e = hi;
    while e > 0 && white_space(chars[e - 1])
        invariant
            e <= hi <= chars@.len(),
            trim_end(chars@.subrange(0, hi as int)) == trim_end(chars@.subrange(0, e as int)),
        decreases e,
    {
        assert(chars@.subrange(0, e as int).drop_last() =~= chars@.subrange(0, e - 1));
        e = e - 1;
    }
    e
}

/// The index of the first non-white-space character of `chars[lo..hi]`
/// (or `hi`): `trim_start(chars[lo..hi])` is `chars[b..hi]`.
pub fn trimmed_start(chars: &Vec<char>, lo: usize, hi: usize) -> (b: usize)
    requires
        lo <= hi <= chars@.len(),
    ensures
        lo <= b <= hi,
        trim_start(chars@.subrange(lo as int, hi as int)) == chars@.subrange(b as int, hi as int),
{
    let mut b = lo;
    while b < hi && white_space(chars[b])
        invariant
            lo <= b <= hi <= chars@.len(),
            trim_start(chars@.subrange(lo as int, hi as int)) == trim_start(
                chars@.subrange(b as int, hi as int),
            ),
        decreases hi - b,
    {
        assert(chars@.subrange(b as int, hi as int).drop_first() =~= chars@.subrange(
            b + 1,
            hi as int,
        ));
        b = b + 1;
    }
    b
}

/// The white-space separated words of `s` (`str::split_whitespace`).
pub open spec fn words(s: Seq<char>) -> Seq<Seq<char>>
    decreases s.len(),
{
    if s.len() == 0 {
        Seq::empty()
    } else if is_white_space(s.last()) {
        words(s.drop_last())
    } else {
        let w = words(s.drop_last());
        if s.len() >= 2 && !is_white_space(s[s.len() - 2]) {
            w.update(w.len() - 1, w.last().push(s.last()))
        } else {
            w.push(seq![s.last()])
        }
    }
}

/// `parts` joined with single spaces (`join(" ")`).
pub open spec fn join_with_space(parts: Seq<Seq<char>>) -> Seq<char>
    decreases parts.len(),
{
    if parts.len() == 0 {
        Seq::empty()
    } else if parts.len() == 1 {
        parts[0]
    } else {
        join_with_space(parts.drop_last()) + seq![' '] + parts.last()
    }
}

/// The words of `chars[lo..hi]` joined with single spaces.
pub fn join_words(chars: &Vec<char>, lo: usize, hi: usize) -> (out: Vec<char>)
    requires
        lo <= hi <= chars@.len(),
    ensures
        out@ == join_with_space(words(chars@.subrange(lo as int, hi as int))),
{
    let mut out: Vec<char> = Vec::new();
    let mut i = lo;
    while i < hi
        invariant
            lo <= i <= hi <= chars@.len(),
            out@ == join_with_space(words(chars@.subrange(lo as int, i as int))),
            (out@.len() == 0) == (words(chars@.subrange(lo as int, i as int)).len() == 0),
            i > lo && !is_white_space(chars@[i - 1]) ==> words(chars@.subrange(lo as int, i as int)).len() > 0,
        decreases hi - i,
    {
        let ghost pre = chars@.subrange(lo as int, i as int);
        let ghost cur = chars@.subrange(lo as int, i + 1);
        assert(cur.drop_last() =~= pre);
        let c = chars[i];
        if white_space(c) {
            assert(words(cur) == words(pre));
        } else {
            let ghost w = words(pre);
            if i > lo && !white_space(chars[i - 1]) {
                assert(cur[cur.len() - 2] == chars@[i - 1]);
                let ghost w2 = w.update(w.len() - 1, w.last().push(c));
                assert(words(cur) == w2);
                proof {
                    lemma_join_extend_last(w, c);
                }
                out.push(c);
            } else {
                assert(i > lo ==> cur[cur.len() - 2] == chars@[i - 1]);
                assert(words(cur) == w.push(seq![c]));
                if out.len() > 0 {
                    assert(w.push(seq![c]).drop_last() =~= w);
                    out.push(' ');
                    out.push(c);
                    assert(out@ =~= join_with_space(w) + seq![' '] + seq![c]);
                } else {
                    assert(w.len() == 0);
                    assert(w.push(seq![c]) =~= seq![seq![c]]);
                    out.push(c);
                    assert(out@ =~= seq![c]);
                }
            }
        }
        i = i + 1;
    }
    out
}

proof fn lemma_join_extend_last(w: Seq<Seq<char>>, c: char)
    requires
        w.len() > 0,
    ensures
        join_with_space(w.update(w.len() - 1, w.last().push(c))) == join_with_space(w).push(c),
{
    let w2 = w.update(w.len() - 1, w.last().push(c));
    if w.len() == 1 {
    } else {
        assert(w2.drop_last() =~= w.drop_last());
        assert(join_with_space(w2) =~= join_with_space(w).push(c));
    }
}

/// Whether two strings hold the same characters.
pub fn str_eq(a: &str, b: &str) -> (same: bool)
    ensures
        same == (a@ == b@),
{
    let x = chars_of(a);
    let y = chars_of(b);
    if x.len() != y.len() {
        return false;
    }
    let mut i: usize = 0;
    while i < x.len()
        invariant
            x@ == a@,
            y@ == b@,
            x@.len() == y@.len(),
            i <= x@.len(),
            forall|k: int| 0 <= k < i ==> x@[k] == y@[k],
        decreases x@.len() - i,
    {
        if x[i] != y[i] {
            assert(x@[i as int] != y@[i as int]);
            return false;
        }
        i = i + 1;
    }
    assert(x@ =~= y@);
    true
}


/// `c` in ASCII lower case.
pub open spec fn lower_ascii(c: char) -> char {
    if 'A' <= c <= 'Z' {
        (((c as u8) + 32) as u8) as char
    } else {
        c
    }
}

/// `a` and `b` are equal when ASCII letters are compared without case
/// (`str::eq_ignore_ascii_case`).
pub open spec fn ascii_case_eq(a: Seq<char>, b: Seq<char>) -> bool {
    a.len() == b.len() && forall|i: int| 0 <= i < a.len() ==> lower_ascii(#[trigger] a[i]) == lower_ascii(b[i])
}

pub(crate) fn to_lower_ascii(c: char) -> (l: char)
    ensures
        l == lower_ascii(c),
{
    if 'A' <= c && c <= 'Z' {
        ((c as u8) + 32) as char
    } else {
        c
    }
}

/// Compares two strings without the case of ASCII letters.
pub fn eq_ignore_ascii_case(a: &str, b: &str) -> (same: bool)
    ensures
        same == ascii_case_eq(a@, b@),
{
    let x = chars_of(a);
    let y = chars_of(b);
    if x.len() != y.len() {
        return false;
    }
    let mut i: usize = 0;
    while i < x.len()
        invariant
            x@ == a@,
            y@ == b@,
            x@.len() == y@.len(),
            i <= x@.len(),
            forall|k: int| 0 <= k < i ==> lower_ascii(#[trigger] x@[k]) == lower_ascii(y@[k]),
        decreases x@.len() - i,
    {
        if to_lower_ascii(x[i]) != to_lower_ascii(y[i]) {
            return false;
        }
        i = i + 1;
    }
    true
}


/// A line's text without the `\r` of a `\r\n` ending.
pub open spec fn without_cr(line: Seq<char>) -> Seq<char> {
    if line.len() > 0 && line.last() == '\r' {
        line.drop_last()
    } else {
        line
    }
}

/// The first `k` characters of `s` read as lines: the lines ended so far
/// (by `\n`, or `\r\n`), and the line being read.
pub open spec fn line_scan(s: Seq<char>, k: nat) -> (Seq<Seq<char>>, Seq<char>)
    decreases k,
{
    if k == 0 || k > s.len() {
        (Seq::empty(), Seq::empty())
    } else {
        let (done, current) = line_scan(s, (k - 1) as nat);
        if s[k - 1] == '\n' {
            (done.push(without_cr(current)), Seq::empty())
        } else {
            (done, current.push(s[k - 1]))
        }
    }
}

/// The lines of `s` as `str::lines` gives them: split at `\n` or
/// `\r\n`, with no empty line after a final line ending.
pub open spec fn lines_of(s: Seq<char>) -> Seq<Seq<char>> {
    let (done, current) = line_scan(s, s.len());
    if current.len() > 0 {
        done.push(current)
    } else {
        done
    }
}

/// Lines joined with `\n`.
pub open spec fn join_lines(lines: Seq<Seq<char>>) -> Seq<char>
    decreases lines.len(),
{
    if lines.len() == 0 {
        Seq::empty()
    } else if lines.len() == 1 {
        lines[0]
    } else {
        join_lines(lines.drop_last()) + seq!['\n'] + lines.last()
    }
}

/// The lines of `chars`, as `str::lines` gives them.
pub fn lines(chars: &Vec<char>) -> (out: Vec<Vec<char>>)
    ensures
        out@.map_values(|l: Vec<char>| l@) == lines_of(chars@),
{
    let mut done: Vec<Vec<char>> = Vec::new();
    let mut current: Vec<char> = Vec::new();
    let mut k: usize = 0;
    while k < chars.len()
        invariant
            k <= chars@.len(),
            (done@.map_values(|l: Vec<char>| l@), current@) == line_scan(chars@, k as nat),
        decreases chars@.len() - k,
    {
        let c = chars[k];
        if c == '\n' {
            let n = current.len();
            if n > 0 && current[n - 1] == '\r' {
                current.pop();
                assert(current@ =~= line_scan(chars@, k as nat).1.drop_last());
            }
            let line = current;
            current = Vec::new();
            done.push(line);
            assert(done@.map_values(|l: Vec<char>| l@) =~= line_scan(chars@, k as nat).0.push(
                without_cr(line_scan(chars@, k as nat).1),
            ));
        } else {
            current.push(c);
        }
        k = k + 1;
    }
    if current.len() > 0 {
        done.push(current);
        assert(done@.map_values(|l: Vec<char>| l@) =~= line_scan(chars@, k as nat).0.push(
            line_scan(chars@, k as nat).1,
        ));
    }
    done
}

} // verus!
