//! Snapshot files: the detection score in a snapshot's name, which names
//! may be deleted, and the page of the listing that is shown.

use vstd::prelude::*;

use crate::text::{chars_eq, chars_of};

verus! {

/// The value of a decimal digit string.
pub open spec fn digits_value(s: Seq<char>) -> int
    decreases s.len(),
{
    if s.len() == 0 {
        0
    } else {
        10 * digits_value(s.drop_last()) + (s.last() as int - '0' as int)
    }
}

pub open spec fn is_digit(c: char) -> bool {
    '0' <= c <= '9'
}

/// A text without its leading `+`, if it has one.
pub open spec fn unsigned_body(s: Seq<char>) -> Seq<char> {
    if s.len() > 0 && s[0] == '+' {
        s.drop_first()
    } else {
        s
    }
}

/// Whether every character is a decimal digit.
pub open spec fn all_decimal(b: Seq<char>) -> bool {
    forall|i: int| 0 <= i < b.len() ==> is_digit(#[trigger] b[i])
}

/// What `str::parse::<u32>` accepts: an optional `+`, then one or more
/// decimal digits whose value fits 32 bits.
pub open spec fn parse_u32_view(s: Seq<char>) -> Option<u32> {
    if unsigned_body(s).len() > 0 && all_decimal(unsigned_body(s)) && digits_value(unsigned_body(s))
        <= u32::MAX {
        Some(digits_value(unsigned_body(s)) as u32)
    } else {
        None
    }
}

proof fn lemma_digits_value_nonneg(s: Seq<char>)
    requires
        forall|i: int| 0 <= i < s.len() ==> is_digit(#[trigger] s[i]),
    ensures
        digits_value(s) >= 0,
    decreases s.len(),
{
    if s.len() > 0 {
        lemma_digits_value_nonneg(s.drop_last());
    }
}

proof fn lemma_digits_value_grows(s: Seq<char>, c: char)
    requires
        forall|i: int| 0 <= i < s.len() ==> is_digit(#[trigger] s[i]),
        is_digit(c),
    ensures
        digits_value(s.push(c)) >= digits_value(s),
{
    lemma_digits_value_nonneg(s);
    assert(s.push(c).drop_last() =~= s);
}

/// Parses a decimal `u32` as `str::parse` does.
pub fn parse_u32(s: &[char]) -> (r: Option<u32>)
    ensures
        r == parse_u32_view(s@),
{
    let mut i: usize = 0;
    if s.len() > 0 && s[0] == '+' {
        i = 1;
    }
    let ghost body = unsigned_body(s@);
    assert(body =~= s@.skip(i as int));
    if i == s.len() {
        return None;
    }
    let mut value: u64 = 0;
    let mut k: usize = i;
    while k < s.len()
        invariant
            i <= k <= s@.len(),
            body == s@.skip(i as int),
            body == unsigned_body(s@),
            forall|m: int| 0 <= m < k - i ==> is_digit(#[trigger] body[m]),
            value == digits_value(body.take(k - i)),
            value <= u32::MAX,
        decreases s@.len() - k,
    {
        let c = s[k];
        if !('0' <= c && c <= '9') {
            assert(!is_digit(body[k - i]));
            assert(!all_decimal(body));
            return None;
        }
        let d = (c as u32 - '0' as u32) as u64;
        proof {
            assert(body.take(k - i + 1).drop_last() =~= body.take(k - i));
            assert(body.take(k - i + 1).last() == c);
        }
        let next = value * 10 + d;
        if next > 4294967295u64 {
            proof {
                assert forall|m: int| 0 <= m < k - i + 1 implies is_digit(
                    #[trigger] body.take(k - i + 1)[m],
                ) by {}
                lemma_digits_prefix_bound(body, k - i + 1);
                assert(digits_value(body.take(k - i + 1)) > u32::MAX);
                assert(parse_u32_view(s@) is None);
            }
            return None;
        }
        value = next;
        k += 1;
    }
    assert(body.take(k - i) =~= body);
    Some(value as u32)
}

proof fn lemma_digits_prefix_bound(body: Seq<char>, n: int)
    requires
        0 <= n <= body.len(),
        forall|m: int| 0 <= m < n ==> is_digit(#[trigger] body[m]),
    ensures
        (forall|m: int| 0 <= m < body.len() ==> is_digit(#[trigger] body[m])) ==> digits_value(body)
            >= digits_value(body.take(n)),
    decreases body.len() - n,
{
    if n < body.len() {
        if forall|m: int| 0 <= m < body.len() ==> is_digit(#[trigger] body[m]) {
            assert forall|m: int| 0 <= m < n implies is_digit(#[trigger] body.take(n)[m]) by {}
            lemma_digits_value_grows(body.take(n), body[n]);
            assert(body.take(n).push(body[n]) =~= body.take(n + 1));
            lemma_digits_prefix_bound(body, n + 1);
        }
    } else {
        assert(body.take(n) =~= body);
    }
}

/// The position of the first occurrence of a character at or after `from`, or -1.
pub open spec fn index_of_from(s: Seq<char>, c: char, from: int) -> int
    decreases s.len() - from,
{
    if from < 0 || from >= s.len() {
        -1
    } else if s[from] == c {
        from
    } else {
        index_of_from(s, c, from + 1)
    }
}

fn find_char_from(s: &[char], c: char, from: usize) -> (r: Option<usize>)
    ensures
        match r {
            Some(p) => p as int == index_of_from(s@, c, from as int) && p < s@.len(),
            None => index_of_from(s@, c, from as int) == -1,
        },
    decreases s@.len() - from,
{
    if from >= s.len() {
        None
    } else if s[from] == c {
        Some(from)
    } else {
        find_char_from(s, c, from + 1)
    }
}

/// The score in a snapshot's name `detection_<anything>_<score>.jpg`: the
/// name without `.jpg`, cut at its first two underscores, must start with
/// `detection`, and its third piece must read as a `u32`.
pub open spec fn score_view(name: Seq<char>) -> Option<u32> {
    let n = name.len();
    if n >= 4 && name.skip(n - 4) == ".jpg"@ {
        let stem = name.take(n - 4);
        let i = index_of_from(stem, '_', 0);
        let j = index_of_from(stem, '_', i + 1);
        if i >= 0 && j >= 0 && stem.take(i) == "detection"@ {
            parse_u32_view(stem.skip(j + 1))
        } else {
            None
        }
    } else {
        None
    }
}

proof fn lemma_index_of_from(s: Seq<char>, c: char, from: int)
    ensures
        index_of_from(s, c, from) == -1 || (from <= index_of_from(s, c, from) < s.len()),
    decreases s.len() - from,
{
    if 0 <= from < s.len() && s[from] != c {
        lemma_index_of_from(s, c, from + 1);
    }
}

/// The detection score in a snapshot's name, if it has one.
pub fn parse_score_from_filename(name: &str) -> (r: Option<u32>)
    ensures
        r == score_view(name@),
{
    let chars = chars_of(name);
    let n = chars.len();
    if n < 4 {
        return None;
    }
    let mut suffix: Vec<char> = Vec::new();
    let mut stem: Vec<char> = Vec::new();
    let mut k: usize = 0;
    while k < n
        invariant
            n == chars@.len(),
            n >= 4,
            k <= n,
            stem@ == chars@.take(if k < n - 4 { k as int } else { n - 4 }),
            suffix@ == chars@.subrange(n - 4, if k < n - 4 { n - 4 } else { k as int }),
        decreases n - k,
    {
        if k < n - 4 {
            stem.push(chars[k]);
        } else {
            suffix.push(chars[k]);
        }
        k += 1;
        assert(stem@ =~= chars@.take(if k < n - 4 { k as int } else { n - 4 }));
        assert(suffix@ =~= chars@.subrange(n - 4, if k < n - 4 { n - 4 } else { k as int }));
    }
    let jpg = chars_of(".jpg");
    assert(suffix@ =~= name@.skip(n - 4));
    if !chars_eq(suffix.as_slice(), jpg.as_slice()) {
        return None;
    }
    let ghost st = stem@;
    proof {
        lemma_index_of_from(st, '_', 0);
    }
    let i = match find_char_from(stem.as_slice(), '_', 0) {
        Some(i) => i,
        None => {
            return None;
        },
    };
    proof {
        lemma_index_of_from(st, '_', i + 1);
    }
    let j = match find_char_from(stem.as_slice(), '_', i + 1) {
        Some(j) => j,
        None => {
            return None;
        },
    };
    let mut first: Vec<char> = Vec::new();
    let mut third: Vec<char> = Vec::new();
    let mut m: usize = 0;
    while m < stem.len()
        invariant
            st == stem@,
            i < j < st.len(),
            m <= st.len(),
            first@ == st.take(if m < i { m as int } else { i as int }),
            third@ == st.subrange(j + 1, if m <= j { j + 1 } else { m as int }),
        decreases st.len() - m,
    {
        if m < i {
            first.push(stem[m]);
        } else if m > j {
            third.push(stem[m]);
        }
        m += 1;
        assert(first@ =~= st.take(if m < i { m as int } else { i as int }));
        assert(third@ =~= st.subrange(j + 1, if m <= j { j + 1 } else { m as int }));
    }
    assert(third@ =~= st.skip(j + 1));
    let detection = chars_of("detection");
    if !chars_eq(first.as_slice(), detection.as_slice()) {
        return None;
    }
    parse_u32(third.as_slice())
}

/// Whether a snapshot name may be used to delete a file: no slash, no
/// backslash and no `..` in it.
pub open spec fn safe_name_view(name: Seq<char>) -> bool {
    &&& forall|i: int| 0 <= i < name.len() ==> name[i] != '/' && name[i] != '\\'
    &&& forall|i: int| 0 <= i < name.len() - 1 ==> !(#[trigger] name[i] == '.' && name[i + 1] == '.')
}

/// Whether a snapshot name may be used to delete a file.
pub fn is_safe_snapshot_name(name: &str) -> (b: bool)
    ensures
        b == safe_name_view(name@),
{
    let chars = chars_of(name);
    let mut i: usize = 0;
    while i < chars.len()
        invariant
            chars@ == name@,
            i <= chars@.len(),
            forall|k: int| 0 <= k < i ==> chars@[k] != '/' && chars@[k] != '\\',
            forall|k: int| 0 <= k < i && k < chars@.len() - 1 ==> !(#[trigger] chars@[k] == '.' && chars@[k + 1] == '.'),
        decreases chars@.len() - i,
    {
        let c = chars[i];
        if c == '/' || c == '\\' {
            return false;
        }
        if c == '.' && i + 1 < chars.len() && chars[i + 1] == '.' {
            return false;
        }
        i += 1;
    }
    true
}

/// The part of a listing that is shown: from `offset` (0 by default), at
/// most `limit` entries (50 by default, 200 at most).
pub open spec fn page_view(offset: Option<usize>, limit: Option<usize>, total: nat) -> (int, int) {
    let o: int = match offset {
        Some(v) => v as int,
        None => 0,
    };
    let l: int = match limit {
        Some(v) => if v < 200 {
            v as int
        } else {
            200
        },
        None => 50,
    };
    let start = if o < total {
        o
    } else {
        total as int
    };
    let count = if l < total - start {
        l
    } else {
        total - start
    };
    (start, count)
}

/// A page starts at the offset (at the end when the offset is past it, at
/// the start when none is given), stays within the list, and shows no more
/// than the limit asked for, nor more than 200, nor more than 50 when no
/// limit is given; it falls short of those only at the end of the list.
pub proof fn lemma_page_bounds(offset: Option<usize>, limit: Option<usize>, total: nat)
    ensures
        ({
            let (start, count) = page_view(offset, limit, total);
            &&& 0 <= start <= total
            &&& 0 <= count
            &&& start + count <= total
            &&& offset is None ==> start == 0
            &&& offset is Some && offset->0 <= total ==> start == offset->0
            &&& offset is Some && offset->0 > total ==> start == total
            &&& count <= 200
            &&& limit is Some ==> count <= limit->0
            &&& limit is None ==> count <= 50
            &&& limit is Some ==> (count == limit->0 || count == 200 || start + count == total)
            &&& limit is None ==> (count == 50 || start + count == total)
        }),
{
}

/// The first entry shown and how many are shown, of `total`.
pub fn page(offset: Option<usize>, limit: Option<usize>, total: usize) -> (r: (usize, usize))
    ensures
        (r.0 as int, r.1 as int) == page_view(offset, limit, total as nat),
        r.0 + r.1 <= total,
{
    let o: usize = match offset {
        Some(v) => v,
        None => 0,
    };
    let l: usize = match limit {
        Some(v) => if v < 200 {
            v
        } else {
            200
        },
        None => 50,
    };
    let start = if o < total {
        o
    } else {
        total
    };
    let count = if l < total - start {
        l
    } else {
        total - start
    };
    (start, count)
}

/// Whether `order` lists every position of `keys` once, with keys from the
/// largest down, and positions with equal keys in the order they came.
pub open spec fn newest_first(keys: Seq<u64>, order: Seq<usize>) -> bool {
    &&& order.len() == keys.len()
    &&& forall|i: int| 0 <= i < order.len() ==> (#[trigger] order[i]) < keys.len()
    &&& forall|i: int, j: int| 0 <= i < j < order.len() ==> order[i] != order[j]
    &&& forall|i: int, j: int|
        0 <= i < j < order.len() ==> keys[order[i] as int] >= keys[order[j] as int]
    &&& forall|i: int, j: int|
        0 <= i < j < order.len() && keys[order[i] as int] == keys[order[j] as int] ==> order[i]
            < order[j]
}

/// The order in which snapshots are listed: newest first, as a stable sort
/// by modification time does it.
pub fn newest_first_order(mtimes: &[u64]) -> (order: Vec<usize>)
    ensures
        newest_first(mtimes@, order@),
{
    let mut res: Vec<usize> = Vec::new();
    let mut k: usize = 0;
    while k < mtimes.len()
        invariant
            k <= mtimes@.len(),
            res@.len() == k,
            forall|i: int| 0 <= i < res@.len() ==> (#[trigger] res@[i]) < k,
            forall|i: int, j: int| 0 <= i < j < res@.len() ==> res@[i] != res@[j],
            forall|i: int, j: int|
                0 <= i < j < res@.len() ==> mtimes@[res@[i] as int] >= mtimes@[res@[j] as int],
            forall|i: int, j: int|
                0 <= i < j < res@.len() && mtimes@[res@[i] as int] == mtimes@[res@[j] as int]
                    ==> res@[i] < res@[j],
        decreases mtimes@.len() - k,
    {
        let key = mtimes[k];
        let mut p: usize = 0;
        while p < res.len() && mtimes[res[p]] >= key
            invariant
                p <= res@.len(),
                res@.len() == k,
                k < mtimes@.len(),
                key == mtimes@[k as int],
                forall|i: int| 0 <= i < res@.len() ==> (#[trigger] res@[i]) < k,
                forall|q: int| 0 <= q < p ==> mtimes@[res@[q] as int] >= key,
            decreases res@.len() - p,
        {
            p += 1;
        }
        let ghost old_res = res@;
        proof {
            assert forall|q: int| p <= q < old_res.len() implies mtimes@[old_res[q] as int] < key by {
                assert(mtimes@[old_res[p as int] as int] < key);
                if q > p {
                    assert(mtimes@[old_res[p as int] as int] >= mtimes@[old_res[q] as int]);
                }
            }
        }
        res.insert(p, k);
        proof {
            assert(res@ =~= old_res.subrange(0, p as int).push(k).add(old_res.subrange(p as int, old_res.len() as int)));
            assert forall|i: int| 0 <= i < res@.len() implies (#[trigger] res@[i]) < k + 1 by {
                if i < p {
                    assert(res@[i] == old_res[i]);
                } else if i > p {
                    assert(res@[i] == old_res[i - 1]);
                }
            }
            assert forall|i: int, j: int| 0 <= i < j < res@.len() implies res@[i] != res@[j]
                && mtimes@[res@[i] as int] >= mtimes@[res@[j] as int] && (mtimes@[res@[i] as int]
                == mtimes@[res@[j] as int] ==> res@[i] < res@[j]) by {
                if j < p {
                    assert(res@[i] == old_res[i] && res@[j] == old_res[j]);
                } else if j == p {
                    assert(res@[i] == old_res[i]);
                } else if i < p {
                    assert(res@[i] == old_res[i] && res@[j] == old_res[j - 1]);
                } else if i == p {
                    assert(res@[j] == old_res[j - 1]);
                } else {
                    assert(res@[i] == old_res[i - 1] && res@[j] == old_res[j - 1]);
                }
            }
        }
        k += 1;
    }
    res
}

} // verus!
