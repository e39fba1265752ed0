//! Shared text primitives: character-sequence conversion, substring search,
//! ASCII case folding, decimal formatting, hashing and truncation.

use vstd::prelude::*;

verus! {

// ── Characters of a string ──────────────────────────────────────────────────

/// Collect the characters of a string slice into a vector.
pub fn str_chars(s: &str) -> (v: Vec<char>)
    ensures
        v@ == s@,
{
    let n = s.unicode_len();
    let mut v: Vec<char> = Vec::new();
    let mut i: usize = 0;
    while i < n
        invariant
            i <= n,
            n == s@.len(),
            v@ == s@.subrange(0, i as int),
        decreases n - i,
    {
        v.push(s.get_char(i));
        i += 1;
    }
    assert(v@ =~= s@);
    v
}

/// Relies on `String: FromIterator<char>`: collecting characters yields the
/// string made of exactly those characters, in order.
#[verifier::external_body]
pub fn chars_to_string(v: &Vec<char>) -> (s: String)
    ensures
        s@ == v@,
{
    v.iter().collect()
}

// ── Substring search ────────────────────────────────────────────────────────

/// The pattern `p` occurs in `s` at position `i`.
pub open spec fn contains_at(s: Seq<char>, p: Seq<char>, i: int) -> bool {
    0 <= i && i + p.len() <= s.len() && s.subrange(i, i + p.len() as int) == p
}

/// The pattern `p` occurs somewhere in `s`.
pub open spec fn seq_contains(s: Seq<char>, p: Seq<char>) -> bool {
    exists|i: int| contains_at(s, p, i)
}

/// `p` occurs in `s` at some position at or after `from`.
pub open spec fn contains_from(s: Seq<char>, p: Seq<char>, from: int) -> bool {
    exists|i: int| i >= from && contains_at(s, p, i)
}

/// Whether `p` occurs in `s` starting exactly at `i` (executable check).
fn matches_at(s: &Vec<char>, p: &Vec<char>, i: usize) -> (b: bool)
    requires
        i + p@.len() <= s@.len(),
    ensures
        b == contains_at(s@, p@, i as int),
{
    let m = p.len();
    let n = s.len();
    let mut j: usize = 0;
    while j < m
        invariant
            j <= m,
            m == p@.len(),
            n == s@.len(),
            i + m <= s@.len(),
            forall|k: int| 0 <= k < j ==> s@[i + k] == p@[k],
        decreases m - j,
    {
        if s[i + j] != p[j] {
            assert(s@.subrange(i as int, i + m as int)[j as int] != p@[j as int]);
            return false;
        }
        j += 1;
    }
    assert(s@.subrange(i as int, i + m as int) =~= p@);
    true
}

/// The first position at or after `from` where `p` occurs in `s`.
pub open spec fn spec_find(s: Seq<char>, p: Seq<char>, from: int) -> Option<int>
    decreases s.len() - from,
{
    if from < 0 || from + p.len() > s.len() {
        None
    } else if p.len() == 0 {
        Some(from)
    } else if contains_at(s, p, from) {
        Some(from)
    } else {
        spec_find(s, p, from + 1)
    }
}

/// A found position is in range and an actual occurrence.
pub proof fn lemma_spec_find_bounds(s: Seq<char>, p: Seq<char>, from: int)
    ensures
        spec_find(s, p, from) matches Some(i) ==> from <= i && i + p.len() <= s.len()
            && contains_at(s, p, i),
    decreases s.len() - from,
{
    if !(from < 0 || from + p.len() > s.len()) {
        if p.len() == 0 {
            assert(s.subrange(from, from + p.len() as int) =~= p);
        } else if !contains_at(s, p, from) {
            lemma_spec_find_bounds(s, p, from + 1);
        }
    }
}

/// Find the first occurrence of `p` in `s` at or after `from`.
pub fn find_sub_from(s: &Vec<char>, p: &Vec<char>, from: usize) -> (r: Option<usize>)
    ensures
        match r {
            Some(i) => from <= i && contains_at(s@, p@, i as int) && forall|j: int|
                from <= j < i ==> !contains_at(s@, p@, j),
            None => !contains_from(s@, p@, from as int),
        },
        match r {
            Some(i) => spec_find(s@, p@, from as int) == Some(i as int),
            None => spec_find(s@, p@, from as int) is None,
        },
{
    let n = s.len();
    let m = p.len();
    if m == 0 {
        if from <= n {
            assert(s@.subrange(from as int, from as int) =~= p@);
            return Some(from);
        } else {
            assert forall|j: int| j >= from implies !contains_at(s@, p@, j) by {}
            return None;
        }
    }
    if m > n {
        return None;
    }
    if from > n - m {
        assert forall|j: int| j >= from implies !contains_at(s@, p@, j) by {}
        return None;
    }
    let mut i: usize = from;
    while i <= n - m
        invariant
            1 <= m <= n,
            n == s@.len(),
            m == p@.len(),
            i >= from,
            i <= n - m + 1,
            forall|j: int| from <= j < i ==> !contains_at(s@, p@, j),
            spec_find(s@, p@, from as int) == spec_find(s@, p@, i as int),
        decreases n - i,
    {
        if matches_at(s, p, i) {
            return Some(i);
        }
        i += 1;
    }
    assert(spec_find(s@, p@, i as int) is None);
    None
}

/// The last position of character `c` in `s`.
pub open spec fn spec_rfind_char(s: Seq<char>, c: char) -> Option<int>
    decreases s.len(),
{
    if s.len() == 0 {
        None
    } else if s[s.len() - 1] == c {
        Some(s.len() - 1)
    } else {
        spec_rfind_char(s.drop_last(), c)
    }
}

/// Find the last occurrence of a character.
pub fn rfind_char(s: &Vec<char>, c: char) -> (r: Option<usize>)
    ensures
        match r {
            Some(i) => spec_rfind_char(s@, c) == Some(i as int) && i < s@.len(),
            None => spec_rfind_char(s@, c) is None,
        },
{
    let n = s.len();
    proof {
        assert(s@.subrange(0, n as int) =~= s@);
    }
    let mut i: usize = n;
    while i > 0
        invariant
            i <= n,
            n == s@.len(),
            spec_rfind_char(s@, c) == spec_rfind_char(s@.subrange(0, i as int), c),
        decreases i,
    {
        let ghost prefix = s@.subrange(0, i as int);
        proof {
            assert(prefix.drop_last() =~= s@.subrange(0, i - 1));
            assert(prefix[prefix.len() - 1] == s@[i - 1]);
        }
        if s[i - 1] == c {
            return Some(i - 1);
        }
        i -= 1;
    }
    proof {
        assert(s@.subrange(0, 0) =~= Seq::<char>::empty());
    }
    None
}

// ── Splitting ───────────────────────────────────────────────────────────────

/// The pieces of `s` between non-overlapping occurrences of `p`, scanned left
/// to right; an empty pattern yields the whole text.
pub open spec fn split_by(s: Seq<char>, p: Seq<char>) -> Seq<Seq<char>>
    decreases s.len(),
{
    if p.len() == 0 {
        seq![s]
    } else {
        match spec_find(s, p, 0) {
            Some(i) => if 0 <= i && i + p.len() <= s.len() {
                seq![s.subrange(0, i)] + split_by(s.subrange(i + p.len(), s.len() as int), p)
            } else {
                seq![s]
            },
            None => seq![s],
        }
    }
}

/// A search in `s` restricted to positions at or after `base + k` mirrors a
/// search from `k` in the suffix of `s` that starts at `base`.
pub proof fn lemma_spec_find_offset(s: Seq<char>, p: Seq<char>, base: int, k: int)
    requires
        0 <= base <= s.len(),
        0 <= k,
    ensures
        match spec_find(s.subrange(base, s.len() as int), p, k) {
            Some(j) => spec_find(s, p, base + k) == Some(base + j),
            None => spec_find(s, p, base + k) is None,
        },
    decreases s.len() - base - k,
{
    let rest = s.subrange(base, s.len() as int);
    if k + p.len() > rest.len() {
        assert(base + k + p.len() > s.len());
    } else if p.len() == 0 {
        assert(spec_find(rest, p, k) == Some(k));
        assert(spec_find(s, p, base + k) == Some(base + k));
    } else {
        if contains_at(rest, p, k) {
            assert(rest.subrange(k, k + p.len() as int) =~= s.subrange(base + k, base + k
                + p.len()));
            assert(contains_at(s, p, base + k));
        } else {
            if contains_at(s, p, base + k) {
                assert(rest.subrange(k, k + p.len() as int) =~= s.subrange(base + k, base + k
                    + p.len()));
                assert(contains_at(rest, p, k));
                assert(false);
            }
            lemma_spec_find_offset(s, p, base, k + 1);
        }
    }
}

/// Split a character vector on a pattern.
pub fn split_chars(s: &Vec<char>, p: &Vec<char>) -> (r: Vec<Vec<char>>)
    requires
        p@.len() > 0,
    ensures
        r@.map_values(|c: Vec<char>| c@) == split_by(s@, p@),
{
    let mut out: Vec<Vec<char>> = Vec::new();
    let mut pos: usize = 0;
    let n = s.len();
    let m = p.len();
    proof {
        assert(out@.map_values(|c: Vec<char>| c@) =~= Seq::<Seq<char>>::empty());
        assert(s@.subrange(0, n as int) =~= s@);
        assert(Seq::<Seq<char>>::empty() + split_by(s@, p@) =~= split_by(s@, p@));
    }
    loop
        invariant
            m == p@.len(),
            0 < m,
            n == s@.len(),
            pos <= n,
            out@.map_values(|c: Vec<char>| c@) + split_by(s@.subrange(pos as int, n as int), p@)
                == split_by(s@, p@),
        decreases n - pos,
    {
        let ghost rest = s@.subrange(pos as int, n as int);
        match find_sub_from(s, p, pos) {
            Some(i) => {
                proof {
                    lemma_spec_find_offset(s@, p@, pos as int, 0);
                    assert(spec_find(rest, p@, 0) == Some(i - pos));
                    lemma_spec_find_bounds(rest, p@, 0);
                }
                let mut piece: Vec<char> = Vec::new();
                let mut k: usize = pos;
                while k < i
                    invariant
                        pos <= k <= i,
                        i <= n,
                        n == s@.len(),
                        piece@ == s@.subrange(pos as int, k as int),
                    decreases i - k,
                {
                    piece.push(s[k]);
                    assert(piece@ =~= s@.subrange(pos as int, k + 1));
                    k += 1;
                }
                let ghost out_before = out@.map_values(|c: Vec<char>| c@);
                out.push(piece);
                proof {
                    assert(piece@ =~= rest.subrange(0, i - pos));
                    assert(out@.map_values(|c: Vec<char>| c@) =~= out_before.push(
                        rest.subrange(0, i - pos),
                    ));
                    assert(rest.subrange(i - pos + m, rest.len() as int) =~= s@.subrange(
                        i + m, n as int,
                    ));
                    assert(split_by(rest, p@) == seq![rest.subrange(0, i - pos)] + split_by(
                        s@.subrange(i + m, n as int), p@));
                    assert(out@.map_values(|c: Vec<char>| c@) + split_by(
                        s@.subrange(i + m, n as int), p@) =~= out_before + split_by(rest, p@));
                }
                pos = i + m;
            },
            None => {
                proof {
                    lemma_spec_find_offset(s@, p@, pos as int, 0);
                    assert(spec_find(rest, p@, 0) is None);
                }
                let mut piece: Vec<char> = Vec::new();
                let mut k: usize = pos;
                while k < n
                    invariant
                        pos <= k <= n,
                        n == s@.len(),
                        piece@ == s@.subrange(pos as int, k as int),
                    decreases n - k,
                {
                    piece.push(s[k]);
                    assert(piece@ =~= s@.subrange(pos as int, k + 1));
                    k += 1;
                }
                let ghost out_before = out@.map_values(|c: Vec<char>| c@);
                out.push(piece);
                proof {
                    assert(piece@ =~= rest);
                    assert(out@.map_values(|c: Vec<char>| c@) =~= out_before.push(rest));
                    assert(split_by(rest, p@) == seq![rest]);
                    assert(out@.map_values(|c: Vec<char>| c@) =~= out_before + split_by(rest, p@));
                }
                return out;
            },
        }
    }
}

/// `s` with every occurrence of `pat` replaced by `rep`, scanning left to
/// right past each replacement; an empty pattern changes nothing.
pub open spec fn spec_replace(s: Seq<char>, pat: Seq<char>, rep: Seq<char>) -> Seq<char>
    decreases s.len(),
{
    if pat.len() == 0 {
        s
    } else {
        match spec_find(s, pat, 0) {
            Some(i) => if 0 <= i && i + pat.len() <= s.len() {
                s.subrange(0, i) + rep + spec_replace(s.subrange(i + pat.len(), s.len() as int),
                    pat, rep)
            } else {
                s
            },
            None => s,
        }
    }
}

/// Replace every occurrence of a pattern in a character vector.
pub fn replace_chars(s: &Vec<char>, pat: &Vec<char>, rep: &Vec<char>) -> (r: Vec<char>)
    requires
        pat@.len() > 0,
    ensures
        r@ == spec_replace(s@, pat@, rep@),
{
    let mut out: Vec<char> = Vec::new();
    let mut pos: usize = 0;
    let n = s.len();
    let m = pat.len();
    proof {
        assert(out@ =~= Seq::<char>::empty());
        assert(s@.subrange(0, n as int) =~= s@);
        assert(Seq::<char>::empty() + spec_replace(s@, pat@, rep@) =~= spec_replace(
            s@, pat@, rep@));
    }
    loop
        invariant
            m == pat@.len(),
            0 < m,
            n == s@.len(),
            pos <= n,
            out@ + spec_replace(s@.subrange(pos as int, n as int), pat@, rep@) == spec_replace(
                s@, pat@, rep@),
        decreases n - pos,
    {
        let ghost rest = s@.subrange(pos as int, n as int);
        match find_sub_from(s, pat, pos) {
            Some(i) => {
                proof {
                    lemma_spec_find_offset(s@, pat@, pos as int, 0);
                    assert(spec_find(rest, pat@, 0) == Some(i - pos));
                    lemma_spec_find_bounds(rest, pat@, 0);
                }
                let ghost out_before = out@;
                let mut k: usize = pos;
                while k < i
                    invariant
                        pos <= k <= i,
                        i <= n,
                        n == s@.len(),
                        out@ == out_before + s@.subrange(pos as int, k as int),
                    decreases i - k,
                {
                    out.push(s[k]);
                    assert(out@ =~= out_before + s@.subrange(pos as int, k + 1));
                    k += 1;
                }
                extend_chars(&mut out, rep);
                proof {
                    assert(rest.subrange(0, i - pos) =~= s@.subrange(pos as int, i as int));
                    assert(rest.subrange(i - pos + m, rest.len() as int) =~= s@.subrange(
                        i + m, n as int,
                    ));
                    assert(spec_replace(rest, pat@, rep@) == rest.subrange(0, i - pos) + rep@
                        + spec_replace(s@.subrange(i + m, n as int), pat@, rep@));
                    assert(out@ + spec_replace(s@.subrange(i + m, n as int), pat@, rep@)
                        =~= out_before + spec_replace(rest, pat@, rep@));
                }
                pos = i + m;
            },
            None => {
                proof {
                    lemma_spec_find_offset(s@, pat@, pos as int, 0);
                    assert(spec_find(rest, pat@, 0) is None);
                    assert(spec_replace(rest, pat@, rep@) == rest);
                }
                let ghost out_before = out@;
                let mut k: usize = pos;
                while k < n
                    invariant
                        pos <= k <= n,
                        n == s@.len(),
                        out@ == out_before + s@.subrange(pos as int, k as int),
                    decreases n - k,
                {
                    out.push(s[k]);
                    assert(out@ =~= out_before + s@.subrange(pos as int, k + 1));
                    k += 1;
                }
                proof {
                    assert(out@ =~= out_before + rest);
                }
                return out;
            },
        }
    }
}

// ── Integer parsing ─────────────────────────────────────────────────────────

/// Whether a character is a decimal digit.
pub open spec fn is_digit(c: char) -> bool {
    '0' <= c && c <= '9'
}

/// The value of a digit character.
pub open spec fn digit_val(c: char) -> int {
    c as int - '0' as int
}

/// Fold decimal digits onto an accumulator; any non-digit makes the whole
/// parse fail.
pub open spec fn digits_acc(s: Seq<char>, acc: int) -> Option<int>
    decreases s.len(),
{
    if s.len() == 0 {
        Some(acc)
    } else if is_digit(s[0]) {
        digits_acc(s.drop_first(), acc * 10 + digit_val(s[0]))
    } else {
        None
    }
}

/// Folding digits never shrinks a non-negative accumulator.
pub proof fn lemma_digits_acc_mono(s: Seq<char>, acc: int)
    requires
        acc >= 0,
    ensures
        digits_acc(s, acc) matches Some(v) ==> v >= acc,
    decreases s.len(),
{
    if s.len() > 0 && is_digit(s[0]) {
        lemma_digits_acc_mono(s.drop_first(), acc * 10 + digit_val(s[0]));
    }
}

/// The integer a text denotes: an optional sign followed by one or more
/// digits, as `str::parse` reads it.
pub open spec fn parse_int_opt(s: Seq<char>) -> Option<int> {
    if s.len() == 0 {
        None
    } else if s[0] == '-' {
        if s.len() == 1 {
            None
        } else {
            match digits_acc(s.drop_first(), 0) {
                Some(v) => Some(-v),
                None => None,
            }
        }
    } else if s[0] == '+' {
        if s.len() == 1 {
            None
        } else {
            digits_acc(s.drop_first(), 0)
        }
    } else {
        digits_acc(s, 0)
    }
}

/// The 32-bit integer a text denotes, if it fits.
pub open spec fn parse_i32_opt(s: Seq<char>) -> Option<i32> {
    match parse_int_opt(s) {
        Some(v) => if i32::MIN <= v <= i32::MAX {
            Some(v as i32)
        } else {
            None
        },
        None => None,
    }
}

/// Parse a 32-bit integer with optional sign, as `str::parse::<i32>` would.
pub fn parse_i32_chars(v: &Vec<char>) -> (r: Option<i32>)
    ensures
        r == parse_i32_opt(v@),
{
    let n = v.len();
    if n == 0 {
        return None;
    }
    let first = v[0];
    let neg = first == '-';
    let has_sign = neg || first == '+';
    let start: usize = if has_sign {
        1
    } else {
        0
    };
    if has_sign && n == 1 {
        return None;
    }
    let ghost digits = v@.skip(start as int);
    let mut mag: u64 = 0;
    let mut i: usize = start;
    proof {
        assert(digits.skip(0) =~= digits);
        if has_sign {
            assert(v@.drop_first() =~= digits);
        } else {
            assert(digits =~= v@);
        }
    }
    while i < n
        invariant
            start <= i <= n,
            n == v@.len(),
            n >= 1,
            neg == (v@[0] == '-'),
            has_sign == (neg || v@[0] == '+'),
            start == (if has_sign {
                1int
            } else {
                0int
            }),
            has_sign ==> n >= 2,
            digits == v@.skip(start as int),
            has_sign ==> v@.drop_first() == digits,
            !has_sign ==> digits == v@,
            mag <= 0x80000000u64,
            digits_acc(digits, 0) == digits_acc(digits.skip(i - start), mag as int),
        decreases n - i,
    {
        let ghost suffix = digits.skip(i - start);
        let c = v[i];
        proof {
            assert(suffix[0] == v@[i as int]);
            assert(suffix.drop_first() =~= digits.skip(i + 1 - start));
        }
        if !(c >= '0' && c <= '9') {
            assert(digits_acc(digits, 0) is None);
            return None;
        }
        let d: u64 = (c as u32 as u64) - ('0' as u32 as u64);
        assert(d == digit_val(c));
        let next = mag * 10 + d;
        if next > 0x80000000u64 {
            proof {
                lemma_digits_acc_mono(suffix.drop_first(), next as int);
            }
            assert(match digits_acc(digits, 0) {
                Some(w) => w > 0x80000000,
                None => true,
            });
            return None;
        }
        mag = next;
        i += 1;
    }
    proof {
        assert(digits.skip(n - start) =~= Seq::<char>::empty());
        assert(digits_acc(digits, 0) == Some(mag as int));
    }
    if neg {
        if mag == 0x80000000u64 {
            return Some(i32::MIN);
        }
        Some(-(mag as i32))
    } else {
        if mag > 0x7fffffffu64 {
            return None;
        }
        Some(mag as i32)
    }
}

/// Whether `p` occurs anywhere in `s`.
pub fn contains_sub(s: &Vec<char>, p: &Vec<char>) -> (b: bool)
    ensures
        b == seq_contains(s@, p@),
{
    let r = find_sub_from(s, p, 0);
    match r {
        Some(_) => true,
        None => {
            assert forall|i: int| !contains_at(s@, p@, i) by {
                if contains_at(s@, p@, i) {
                    assert(i >= 0 && contains_at(s@, p@, i));
                }
            }
            false
        },
    }
}

/// `s` starts with `p`.
pub open spec fn starts_with(s: Seq<char>, p: Seq<char>) -> bool {
    contains_at(s, p, 0)
}

/// Executable prefix test.
pub fn has_prefix(s: &Vec<char>, p: &Vec<char>) -> (b: bool)
    ensures
        b == starts_with(s@, p@),
{
    if p.len() > s.len() {
        return false;
    }
    matches_at(s, p, 0)
}

/// Whether two strings hold the same characters.
pub fn str_eq(a: &str, b: &str) -> (r: bool)
    ensures
        r == (a@ == b@),
{
    let va = str_chars(a);
    let vb = str_chars(b);
    let n = va.len();
    if n != vb.len() {
        assert(a@.len() != b@.len());
        return false;
    }
    let mut i: usize = 0;
    while i < n
        invariant
            i <= n,
            n == va@.len() == vb@.len(),
            va@ == a@,
            vb@ == b@,
            forall|k: int| 0 <= k < i ==> a@[k] == b@[k],
        decreases n - i,
    {
        if va[i] != vb[i] {
            return false;
        }
        i += 1;
    }
    assert(a@ =~= b@);
    true
}

/// Copy the characters of `s` between `from` and `to`.
pub fn copy_range(s: &Vec<char>, from: usize, to: usize) -> (r: Vec<char>)
    requires
        from <= to <= s@.len(),
    ensures
        r@ == s@.subrange(from as int, to as int),
{
    let mut r: Vec<char> = Vec::new();
    let mut i: usize = from;
    while i < to
        invariant
            from <= i <= to,
            to <= s@.len(),
            r@ == s@.subrange(from as int, i as int),
        decreases to - i,
    {
        r.push(s[i]);
        assert(r@ =~= s@.subrange(from as int, i + 1));
        i += 1;
    }
    r
}

/// Append the characters of `src` to `dst`.
pub fn extend_chars(dst: &mut Vec<char>, src: &Vec<char>)
    ensures
        final(dst)@ == old(dst)@ + src@,
{
    let n = src.len();
    let ghost base = dst@;
    let mut i: usize = 0;
    while i < n
        invariant
            i <= n,
            n == src@.len(),
            dst@ == base + src@.subrange(0, i as int),
        decreases n - i,
    {
        dst.push(src[i]);
        assert(dst@ =~= base + src@.subrange(0, i + 1));
        i += 1;
    }
    assert(dst@ =~= base + src@);
}

// ── ASCII case folding ──────────────────────────────────────────────────────

/// ASCII lower-casing of one character; other characters are unchanged.
pub open spec fn lower_char(c: char) -> char {
    if 'A' <= c && c <= 'Z' {
        ((c as u8) + 32) as char
    } else {
        c
    }
}

/// ASCII lower-casing of a character sequence.
pub open spec fn lower_seq(s: Seq<char>) -> Seq<char> {
    s.map_values(|c: char| lower_char(c))
}

/// Executable ASCII lower-casing over a character vector.
pub fn to_lower_chars(s: &Vec<char>) -> (r: Vec<char>)
    ensures
        r@ == lower_seq(s@),
{
    let n = s.len();
    let mut r: Vec<char> = Vec::new();
    let mut i: usize = 0;
    while i < n
        invariant
            i <= n,
            n == s@.len(),
            r@ == lower_seq(s@).subrange(0, i as int),
        decreases n - i,
    {
        let c = s[i];
        let lc: char = if c >= 'A' && c <= 'Z' {
            ((c as u8) + 32) as char
        } else {
            c
        };
        assert(lc == lower_char(s@[i as int]));
        r.push(lc);
        assert(r@ =~= lower_seq(s@).subrange(0, i + 1));
        i += 1;
    }
    assert(r@ =~= lower_seq(s@));
    r
}

/// ASCII upper-casing of one character; other characters are unchanged.
pub open spec fn upper_char(c: char) -> char {
    if 'a' <= c && c <= 'z' {
        ((c as u8) - 32) as char
    } else {
        c
    }
}

/// ASCII upper-casing of a character sequence.
pub open spec fn upper_seq(s: Seq<char>) -> Seq<char> {
    s.map_values(|c: char| upper_char(c))
}

/// Executable ASCII upper-casing over a character vector.
pub fn to_upper_chars(s: &Vec<char>) -> (r: Vec<char>)
    ensures
        r@ == upper_seq(s@),
{
    let n = s.len();
    let mut r: Vec<char> = Vec::new();
    let mut i: usize = 0;
    while i < n
        invariant
            i <= n,
            n == s@.len(),
            r@ == upper_seq(s@).subrange(0, i as int),
        decreases n - i,
    {
        let c = s[i];
        let uc: char = if c >= 'a' && c <= 'z' {
            ((c as u8) - 32) as char
        } else {
            c
        };
        assert(uc == upper_char(s@[i as int]));
        r.push(uc);
        assert(r@ =~= upper_seq(s@).subrange(0, i + 1));
        i += 1;
    }
    assert(r@ =~= upper_seq(s@));
    r
}

// ── Decimal formatting ──────────────────────────────────────────────────────

/// The decimal digit character for a value below ten.
pub open spec fn digit_char(d: int) -> char {
    if d == 0 {
        '0'
    } else if d == 1 {
        '1'
    } else if d == 2 {
        '2'
    } else if d == 3 {
        '3'
    } else if d == 4 {
        '4'
    } else if d == 5 {
        '5'
    } else if d == 6 {
        '6'
    } else if d == 7 {
        '7'
    } else if d == 8 {
        '8'
    } else {
        '9'
    }
}

/// Decimal representation of a non-negative integer, most significant first.
pub open spec fn dec_digits(n: int) -> Seq<char>
    decreases n,
{
    if n < 10 {
        seq![digit_char(n)]
    } else {
        dec_digits(n / 10) + seq![digit_char(n % 10)]
    }
}

/// Decimal representation of an integer, with a leading minus when negative.
pub open spec fn dec_int(n: int) -> Seq<char> {
    if n < 0 {
        seq!['-'] + dec_digits(-n)
    } else {
        dec_digits(n)
    }
}

fn digit_to_char(d: u64) -> (c: char)
    requires
        d < 10,
    ensures
        c == digit_char(d as int),
{
    if d == 0 {
        '0'
    } else if d == 1 {
        '1'
    } else if d == 2 {
        '2'
    } else if d == 3 {
        '3'
    } else if d == 4 {
        '4'
    } else if d == 5 {
        '5'
    } else if d == 6 {
        '6'
    } else if d == 7 {
        '7'
    } else if d == 8 {
        '8'
    } else {
        '9'
    }
}

/// Decimal digits of `n` as characters.
pub fn u64_to_chars(n: u64) -> (v: Vec<char>)
    ensures
        v@ == dec_digits(n as int),
    decreases n,
{
    if n < 10 {
        let mut v: Vec<char> = Vec::new();
        v.push(digit_to_char(n));
        assert(v@ =~= dec_digits(n as int));
        v
    } else {
        let mut v = u64_to_chars(n / 10);
        v.push(digit_to_char(n % 10));
        assert(v@ =~= dec_digits(n as int));
        v
    }
}

/// Decimal representation of an unsigned value.
pub fn u64_to_string(n: u64) -> (s: String)
    ensures
        s@ == dec_digits(n as int),
{
    let v = u64_to_chars(n);
    chars_to_string(&v)
}

/// Decimal digits of a signed value, with a leading minus when negative.
pub fn i64_to_chars(n: i64) -> (v: Vec<char>)
    ensures
        v@ == dec_int(n as int),
{
    if n >= 0 {
        u64_to_chars(n as u64)
    } else {
        let mag: u64 = ((-(n as i128)) as u64);
        let mut v: Vec<char> = Vec::new();
        v.push('-');
        let mut digits = u64_to_chars(mag);
        let m = digits.len();
        let mut i: usize = 0;
        while i < m
            invariant
                i <= m,
                m == digits@.len(),
                digits@ == dec_digits(-(n as int)),
                v@ == seq!['-'] + digits@.subrange(0, i as int),
            decreases m - i,
        {
            v.push(digits[i]);
            assert(v@ =~= seq!['-'] + digits@.subrange(0, i + 1));
            i += 1;
        }
        assert(v@ =~= dec_int(n as int));
        v
    }
}

/// Decimal representation of a signed value.
pub fn i64_to_string(n: i64) -> (s: String)
    ensures
        s@ == dec_int(n as int),
{
    let v = i64_to_chars(n);
    chars_to_string(&v)
}

// ── Hashing ─────────────────────────────────────────────────────────────────

/// One step of the 64-bit FNV-1a fold.
pub open spec fn fnv1a_step(acc: u64, c: char) -> u64 {
    vstd::wrapping::u64_specs::wrapping_mul(acc ^ (c as u64), 0x100000001b3)
}

/// 64-bit FNV-1a over a character sequence, starting from `acc`.
pub open spec fn fnv1a(s: Seq<char>, acc: u64) -> u64
    decreases s.len(),
{
    if s.len() == 0 {
        acc
    } else {
        fnv1a(s.drop_first(), fnv1a_step(acc, s[0]))
    }
}

/// The hash of a text used for screen-change detection.
pub open spec fn spec_simple_hash(s: Seq<char>) -> u64 {
    fnv1a(s, 0xcbf29ce484222325)
}

/// Fast deterministic hash of a text, for screen-change detection.
pub fn simple_hash(text: &str) -> (h: u64)
    ensures
        h == spec_simple_hash(text@),
{
    let cs = str_chars(text);
    let n = cs.len();
    let mut acc: u64 = 0xcbf29ce484222325;
    assert(cs@.skip(0) =~= cs@);
    let mut i: usize = 0;
    while i < n
        invariant
            i <= n,
            n == cs@.len(),
            cs@ == text@,
            fnv1a(cs@.skip(i as int), acc) == spec_simple_hash(text@),
        decreases n - i,
    {
        let ghost pre = cs@.skip(i as int);
        let c = cs[i];
        acc = (acc ^ (c as u64)).wrapping_mul(0x100000001b3);
        proof {
            assert(pre[0] == cs@[i as int]);
            assert(pre.drop_first() =~= cs@.skip(i + 1));
        }
        i += 1;
    }
    assert(cs@.skip(n as int) =~= Seq::<char>::empty());
    acc
}

// ── Truncation ──────────────────────────────────────────────────────────────

/// `s` truncated to at most `max` characters; a longer text keeps its first
/// `max - 1` characters followed by an ellipsis.
pub open spec fn spec_truncate(s: Seq<char>, max: int) -> Seq<char> {
    if s.len() <= max {
        s
    } else if max == 0 {
        s.subrange(0, 0)
    } else {
        s.subrange(0, max - 1) + seq!['\u{2026}']
    }
}

/// Truncate a text for display.
pub fn truncate(s: &str, max: usize) -> (r: String)
    ensures
        r@ == spec_truncate(s@, max as int),
{
    let cs = str_chars(s);
    if cs.len() <= max {
        let r = chars_to_string(&cs);
        return r;
    }
    if max == 0 {
        let empty: Vec<char> = Vec::new();
        assert(empty@ =~= spec_truncate(s@, 0));
        return chars_to_string(&empty);
    }
    let mut out: Vec<char> = Vec::new();
    let lim = max - 1;
    let mut i: usize = 0;
    while i < lim
        invariant
            i <= lim,
            lim < cs@.len(),
            cs@ == s@,
            out@ == s@.subrange(0, i as int),
        decreases lim - i,
    {
        out.push(cs[i]);
        assert(out@ =~= s@.subrange(0, i + 1));
        i += 1;
    }
    out.push('\u{2026}');
    assert(out@ =~= spec_truncate(s@, max as int));
    chars_to_string(&out)
}

/// Take at most the first `max` characters of `s`.
pub open spec fn take_chars(s: Seq<char>, max: int) -> Seq<char> {
    if s.len() <= max {
        s
    } else {
        s.subrange(0, max)
    }
}

/// The first `max` characters of a text.
pub fn take_prefix(s: &Vec<char>, max: usize) -> (r: Vec<char>)
    ensures
        r@ == take_chars(s@, max as int),
{
    let n = s.len();
    let lim = if n <= max {
        n
    } else {
        max
    };
    let mut out: Vec<char> = Vec::new();
    let mut i: usize = 0;
    while i < lim
        invariant
            i <= lim,
            lim <= n,
            n == s@.len(),
            out@ == s@.subrange(0, i as int),
        decreases lim - i,
    {
        out.push(s[i]);
        assert(out@ =~= s@.subrange(0, i + 1));
        i += 1;
    }
    assert(out@ =~= take_chars(s@, max as int));
    out
}

} // verus!
