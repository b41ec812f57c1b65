//! Small verified helpers on text and bytes.

use vstd::prelude::*;
use vstd::string::StringSliceAdditionalSpecFns;
use vstd::string::StringExecFns;

verus! {

/// Whether two byte strings are equal.
pub fn bytes_eq(a: &[u8], b: &[u8]) -> (r: bool)
    ensures
        r == (a@ == b@),
{
    if a.len() != b.len() {
        return false;
    }
    let mut i: usize = 0;
    while i < a.len()
        invariant
            a@.len() == b@.len(),
            i <= a@.len(),
            forall|j: int| 0 <= j < i ==> a@[j] == b@[j],
        decreases a@.len() - i,
    {
        if a[i] != b[i] {
            return false;
        }
        i += 1;
    }
    assert(a@ =~= b@);
    true
}

/// Whether two strings are equal.
pub fn str_eq(a: &str, b: &str) -> (r: bool)
    ensures
        r == (a@ == b@),
{
    let r = bytes_eq(a.as_bytes(), b.as_bytes());
    proof {
        vstd::utf8::encode_utf8_decode_utf8(a@);
        vstd::utf8::encode_utf8_decode_utf8(b@);
    }
    r
}

/// Calls `String::push`, which appends one character.
#[verifier::external_body]
pub(crate) fn push_char(s: &mut String, c: char)
    ensures
        final(s)@ == old(s)@.push(c),
{
    s.push(c);
}

/// The character of a digit value below 16, in lower case.
pub open spec fn digit_char(d: nat) -> char {
    if d < 10 {
        (('0' as nat) + d) as char
    } else {
        (('a' as nat) + d - 10) as char
    }
}

/// The digits of a natural number in a base from 2 to 16, most significant
/// first, without leading zeros ("0" for zero).
pub open spec fn digits(n: nat, base: nat) -> Seq<char>
    recommends
        2 <= base <= 16,
    decreases n,
{
    if n < base || base < 2 {
        seq![digit_char(n)]
    } else {
        proof {
            lemma_div_smaller(n, base);
        }
        digits(n / base, base).push(digit_char(n % base))
    }
}

/// Decimal text of an integer, with a leading '-' when it is negative.
pub open spec fn dec(x: int) -> Seq<char> {
    if x < 0 {
        seq!['-'] + digits((-x) as nat, 10)
    } else {
        digits(x as nat, 10)
    }
}

/// Dividing by a base of two or more makes a number at least as large as
/// the base smaller.
pub proof fn lemma_div_smaller(n: nat, base: nat)
    by (nonlinear_arith)
    requires
        base >= 2,
        n >= base,
    ensures
        n / base < n,
{
}

/// The character of a digit value below 16, in lower case.
pub fn digit_of(d: u64) -> (c: char)
    requires
        d < 16,
    ensures
        c == digit_char(d as nat),
{
    if d < 10 {
        ((48 + d) as u8) as char
    } else {
        ((97 + d - 10) as u8) as char
    }
}

/// Appends the digits of `n` in `base`.
pub fn push_digits(s: &mut String, n: u64, base: u64)
    requires
        2 <= base <= 16,
    ensures
        final(s)@ == old(s)@ + digits(n as nat, base as nat),
    decreases n,
{
    if n < base {
        push_char(s, digit_of(n));
        assert(final(s)@ =~= old(s)@ + digits(n as nat, base as nat)) by {
            assert(digits(n as nat, base as nat) == seq![digit_char(n as nat)]);
        }
    } else {
        proof {
            lemma_div_smaller(n as nat, base as nat);
        }
        push_digits(s, n / base, base);
        push_char(s, digit_of(n % base));
        assert(s@ =~= old(s)@ + digits(n as nat, base as nat));
    }
}

/// Appends the decimal text of a signed integer.
pub fn push_i64(s: &mut String, x: i64)
    ensures
        final(s)@ == old(s)@ + dec(x as int),
{
    if x < 0 {
        push_char(s, '-');
        let m: u64 = if x == i64::MIN {
            9_223_372_036_854_775_808u64
        } else {
            (-x) as u64
        };
        push_digits(s, m, 10);
        assert(s@ =~= old(s)@ + dec(x as int));
    } else {
        push_digits(s, x as u64, 10);
    }
}

/// The two's-complement value of a signed 64-bit integer.
pub open spec fn as_u64_bits(x: i64) -> nat {
    if x < 0 {
        (x + 18446744073709551616) as nat
    } else {
        x as nat
    }
}

/// Appends "0x" and the lower-case hexadecimal digits of the 64-bit
/// two's-complement value of `x`, as the `{:#x}` format does.
pub fn push_hex_i64(s: &mut String, x: i64)
    ensures
        final(s)@ == old(s)@ + seq!['0', 'x'] + digits(as_u64_bits(x), 16),
{
    push_char(s, '0');
    push_char(s, 'x');
    let bits: u64 = if x < 0 {
        let y = (x as i128) + 18446744073709551616i128;
        y as u64
    } else {
        x as u64
    };
    push_digits(s, bits, 16);
    assert(s@ =~= old(s)@ + seq!['0', 'x'] + digits(as_u64_bits(x), 16));
}

/// Appends a string.
pub fn push_str(s: &mut String, t: &str)
    ensures
        final(s)@ == old(s)@ + t@,
{
    s.append(t);
}

/// The characters of a string.
pub fn chars_of(s: &str) -> (v: Vec<char>)
    ensures
        v@ == s@,
{
    broadcast use vstd::string::axiom_spec_iter;
    let mut v: Vec<char> = Vec::new();
    for c in it: s.chars()
        invariant
            v@ == it.seq().take(it.index() as int),
    {
        v.push(c);
    }
    v
}

/// A string of the first `n` of the given characters.
pub fn string_of_prefix(chars: &[char], n: usize) -> (s: String)
    requires
        n <= chars@.len(),
    ensures
        s@ == chars@.take(n as int),
{
    let mut s = String::new();
    let mut i: usize = 0;
    while i < n
        invariant
            i <= n <= chars@.len(),
            s@ == chars@.take(i as int),
        decreases n - i,
    {
        push_char(&mut s, chars[i]);
        i += 1;
        assert(s@ =~= chars@.take(i as int));
    }
    s
}

/// A string of the given characters.
pub fn string_of(chars: &[char]) -> (s: String)
    ensures
        s@ == chars@,
{
    let s = string_of_prefix(chars, chars.len());
    assert(chars@.take(chars@.len() as int) =~= chars@);
    s
}

/// Whether two character sequences are equal.
pub fn chars_eq(a: &[char], b: &[char]) -> (r: bool)
    ensures
        r == (a@ == b@),
{
    if a.len() != b.len() {
        return false;
    }
    let mut i: usize = 0;
    while i < a.len()
        invariant
            a@.len() == b@.len(),
            i <= a@.len(),
            forall|j: int| 0 <= j < i ==> a@[j] == b@[j],
        decreases a@.len() - i,
    {
        if a[i] != b[i] {
            return false;
        }
        i += 1;
    }
    assert(a@ =~= b@);
    true
}

/// The pieces of a text between occurrences of a separator, starting with
/// the piece `cur` already begun.
pub open spec fn split_from(s: Seq<char>, sep: char, cur: Seq<char>) -> Seq<Seq<char>>
    decreases s.len(),
{
    if s.len() == 0 {
        seq![cur]
    } else if s[0] == sep {
        seq![cur] + split_from(s.drop_first(), sep, Seq::empty())
    } else {
        split_from(s.drop_first(), sep, cur.push(s[0]))
    }
}

/// The pieces of a text between occurrences of a separator, as `str::split` gives them.
pub open spec fn split_view(s: Seq<char>, sep: char) -> Seq<Seq<char>> {
    split_from(s, sep, Seq::empty())
}

/// Splits a text at each occurrence of a separator.
pub fn split_chars(s: &[char], sep: char) -> (parts: Vec<Vec<char>>)
    ensures
        parts@.len() == split_view(s@, sep).len(),
        forall|i: int| 0 <= i < parts@.len() ==> #[trigger] parts@[i]@ == split_view(s@, sep)[i],
{
    let mut parts: Vec<Vec<char>> = Vec::new();
    let mut cur: Vec<char> = Vec::new();
    let mut i: usize = 0;
    let ghost done: Seq<Seq<char>> = Seq::empty();
    assert(s@.skip(0) =~= s@);
    assert(done + split_from(s@, sep, cur@) =~= split_view(s@, sep));
    while i < s.len()
        invariant
            i <= s@.len(),
            parts@.len() == done.len(),
            forall|x: int| 0 <= x < done.len() ==> #[trigger] parts@[x]@ == done[x],
            done + split_from(s@.skip(i as int), sep, cur@) == split_view(s@, sep),
        decreases s@.len() - i,
    {
        let c = s[i];
        assert(s@.skip(i as int).drop_first() =~= s@.skip(i + 1));
        assert(s@.skip(i as int)[0] == c);
        if c == sep {
            proof {
                assert(done.push(cur@) + split_from(s@.skip(i + 1), sep, Seq::empty()) =~= done
                    + split_from(s@.skip(i as int), sep, cur@));
                done = done.push(cur@);
            }
            parts.push(cur);
            cur = Vec::new();
        } else {
            cur.push(c);
        }
        i += 1;
    }
    proof {
        assert(s@.skip(i as int) =~= Seq::<char>::empty());
        done = done.push(cur@);
    }
    parts.push(cur);
    parts
}

/// Whether a character has the Unicode property White_Space, the white
/// space that `str::trim` removes.
pub open spec fn is_white_space(c: char) -> bool {
    ||| '\t' <= c <= '\r'
    ||| c == ' '
    ||| c == '\u{85}'
    ||| c == '\u{a0}'
    ||| c == '\u{1680}'
    ||| '\u{2000}' <= c <= '\u{200a}'
    ||| c == '\u{2028}'
    ||| c == '\u{2029}'
    ||| c == '\u{202f}'
    ||| c == '\u{205f}'
    ||| c == '\u{3000}'
}

/// A text without its leading white space.
pub open spec fn trimmed_start(s: Seq<char>) -> Seq<char>
    decreases s.len(),
{
    if s.len() > 0 && is_white_space(s[0]) {
        trimmed_start(s.drop_first())
    } else {
        s
    }
}

/// A text without its trailing white space.
pub open spec fn trimmed_end(s: Seq<char>) -> Seq<char>
    decreases s.len(),
{
    if s.len() > 0 && is_white_space(s.last()) {
        trimmed_end(s.drop_last())
    } else {
        s
    }
}

/// A text without the white space at its ends.
pub open spec fn trimmed(s: Seq<char>) -> Seq<char> {
    trimmed_end(trimmed_start(s))
}

/// Whether a character has the Unicode property White_Space.
pub fn white_space(c: char) -> (b: bool)
    ensures
        b == is_white_space(c),
{
    ('\t' <= c && c <= '\r') || c == ' ' || c == '\u{85}' || c == '\u{a0}' || c == '\u{1680}' || (
    '\u{2000}' <= c && c <= '\u{200a}') || c == '\u{2028}' || c == '\u{2029}' || c == '\u{202f}' || c
        == '\u{205f}' || c == '\u{3000}'
}

proof fn lemma_trimmed_start(s: Seq<char>, a: int)
    requires
        0 <= a <= s.len(),
        forall|i: int| 0 <= i < a ==> is_white_space(#[trigger] s[i]),
        a == s.len() || !is_white_space(s[a]),
    ensures
        trimmed_start(s) == s.skip(a),
    decreases a,
{
    if a == 0 {
        assert(s.skip(0) =~= s);
    } else {
        let t = s.drop_first();
        assert forall|i: int| 0 <= i < a - 1 implies is_white_space(#[trigger] t[i]) by {
            assert(t[i] == s[i + 1]);
        }
        if a - 1 < t.len() {
            assert(t[a - 1] == s[a]);
        }
        lemma_trimmed_start(t, a - 1);
        assert(t.skip(a - 1) =~= s.skip(a));
    }
}

proof fn lemma_trimmed_end(t: Seq<char>, b: int)
    requires
        0 <= b <= t.len(),
        forall|i: int| b <= i < t.len() ==> is_white_space(#[trigger] t[i]),
        b == 0 || !is_white_space(t[b - 1]),
    ensures
        trimmed_end(t) == t.take(b),
    decreases t.len() - b,
{
    if b == t.len() {
        assert(t.take(b) =~= t);
    } else {
        let u = t.drop_last();
        assert forall|i: int| b <= i < u.len() implies is_white_space(#[trigger] u[i]) by {
            assert(u[i] == t[i]);
        }
        if b > 0 {
            assert(u[b - 1] == t[b - 1]);
        }
        lemma_trimmed_end(u, b);
        assert(u.take(b) =~= t.take(b));
    }
}

/// A text without the characters with the Unicode property White_Space at
/// its ends, as `str::trim` gives it.
pub fn trim(s: &str) -> (r: String)
    ensures
        r@ == trimmed(s@),
{
    let chars = chars_of(s);
    let n = chars.len();
    let mut a: usize = 0;
    while a < n && white_space(chars[a])
        invariant
            a <= n == chars@.len(),
            forall|i: int| 0 <= i < a ==> is_white_space(#[trigger] chars@[i]),
        decreases n - a,
    {
        a += 1;
    }
    let mut b: usize = n;
    while b > a && white_space(chars[b - 1])
        invariant
            a <= b <= n == chars@.len(),
            forall|i: int| b <= i < n ==> is_white_space(#[trigger] chars@[i]),
        decreases b - a,
    {
        b -= 1;
    }
    let mut out: Vec<char> = Vec::new();
    let mut i: usize = a;
    while i < b
        invariant
            a <= i <= b <= chars@.len(),
            out@ == chars@.subrange(a as int, i as int),
        decreases b - i,
    {
        out.push(chars[i]);
        i += 1;
        assert(out@ =~= chars@.subrange(a as int, i as int));
    }
    proof {
        let sv = chars@;
        lemma_trimmed_start(sv, a as int);
        let t = sv.skip(a as int);
        assert forall|x: int| (b - a) <= x < t.len() implies is_white_space(#[trigger] t[x]) by {
            assert(t[x] == sv[a + x]);
        }
        if b > a {
            assert(t[b - a - 1] == sv[b - 1]);
        }
        lemma_trimmed_end(t, (b - a) as int);
        assert(t.take((b - a) as int) =~= sv.subrange(a as int, b as int));
    }
    string_of(&out)
}

/// A text in lower case, as `str::to_lowercase` gives it.
pub uninterp spec fn lowercased(s: Seq<char>) -> Seq<char>;

/// Calls `str::to_lowercase`, which maps each character to its lower-case
/// form; the result depends on the text alone.
#[verifier::external_body]
pub(crate) fn to_lowercase(s: &str) -> (r: String)
    ensures
        r@ == lowercased(s@),
{
    s.to_lowercase()
}

pub open spec fn pow16(e: nat) -> nat
    decreases e,
{
    if e == 0 {
        1
    } else {
        16 * pow16((e - 1) as nat)
    }
}

/// Eight lower-case hexadecimal digits of a `u32`, zero-padded, as `{:08x}` writes it.
pub open spec fn hex8_view(n: u32) -> Seq<char> {
    Seq::new(8, |k: int| digit_char(((n as nat / pow16((7 - k) as nat)) % 16) as nat))
}

fn pow16_exec(e: u64) -> (p: u64)
    requires
        e <= 7,
    ensures
        p == pow16(e as nat),
        1 <= p <= 268435456,
    decreases e,
{
    if e == 0 {
        1
    } else {
        let q = pow16_exec(e - 1);
        assert(pow16((e - 1) as nat) <= 16777216) by {
            reveal_with_fuel(pow16, 8);
            assert(pow16(0) == 1);
            assert(pow16(6) == 16777216);
        }
        16 * q
    }
}

/// Eight lower-case hexadecimal digits of a `u32`, zero-padded.
pub fn hex8(n: u32) -> (s: String)
    ensures
        s@ == hex8_view(n),
{
    let mut s = String::new();
    let mut k: u64 = 0;
    while k < 8
        invariant
            k <= 8,
            s@ == hex8_view(n).take(k as int),
        decreases 8 - k,
    {
        let p = pow16_exec(7 - k);
        let d = (n as u64 / p) % 16;
        push_char(&mut s, digit_of(d));
        k += 1;
        assert(s@ =~= hex8_view(n).take(k as int));
    }
    assert(hex8_view(n).take(8) =~= hex8_view(n));
    s
}

} // verus!
