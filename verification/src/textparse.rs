//! Small verified text utilities: ASCII-whitespace trimming, digit runs, and
//! the two probe-output shapes the pipeline reads back — a decimal duration
//! in seconds and a `WIDTHxHEIGHT` resolution.

use vstd::prelude::*;

verus! {

use vstd::string::StrSliceExecFns;

/// ASCII whitespace, as it appears around tool output.
pub open spec fn is_ws(c: char) -> bool {
    c == ' ' || c == '\t' || c == '\r' || c == '\n'
}

pub open spec fn is_digit(c: char) -> bool {
    '0' <= c && c <= '9'
}

pub open spec fn digit_val(c: char) -> int {
    c as int - '0' as int
}

pub open spec fn all_digits(s: Seq<char>) -> bool {
    forall|i: int| 0 <= i < s.len() ==> is_digit(#[trigger] s[i])
}

/// The number written by a run of digits, most significant first.
pub open spec fn digits_val(s: Seq<char>) -> int
    decreases s.len(),
{
    if s.len() == 0 {
        0
    } else {
        digits_val(s.drop_last()) * 10 + digit_val(s.last())
    }
}

/// The sequence without its leading ASCII whitespace.
pub open spec fn trim_front(s: Seq<char>) -> Seq<char>
    decreases s.len(),
{
    if s.len() > 0 && is_ws(s[0]) {
        trim_front(s.drop_first())
    } else {
        s
    }
}

/// The sequence without its trailing ASCII whitespace.
pub open spec fn trim_back(s: Seq<char>) -> Seq<char>
    decreases s.len(),
{
    if s.len() > 0 && is_ws(s.last()) {
        trim_back(s.drop_last())
    } else {
        s
    }
}

/// The sequence without leading or trailing ASCII whitespace.
pub open spec fn trimmed(s: Seq<char>) -> Seq<char> {
    trim_back(trim_front(s))
}

/// The index of the first occurrence of `c`, or the length when absent.
pub open spec fn find_char(s: Seq<char>, c: char) -> int
    decreases s.len(),
{
    if s.len() == 0 {
        0
    } else if s[0] == c {
        0
    } else {
        1 + find_char(s.drop_first(), c)
    }
}

proof fn lemma_trim_front_skip(s: Seq<char>, i: int)
    requires
        0 <= i <= s.len(),
        forall|j: int| 0 <= j < i ==> is_ws(#[trigger] s[j]),
        i < s.len() ==> !is_ws(s[i]),
    ensures
        trim_front(s) == s.skip(i),
    decreases i,
{
    if i == 0 {
        if s.len() > 0 {
            assert(!is_ws(s[0]));
        }
        assert(s.skip(0) =~= s);
    } else {
        assert(is_ws(s[0]));
        lemma_trim_front_skip(s.drop_first(), i - 1);
        assert(s.drop_first().skip(i - 1) =~= s.skip(i));
    }
}

proof fn lemma_trim_back_take(s: Seq<char>, i: int)
    requires
        0 <= i <= s.len(),
        forall|j: int| i <= j < s.len() ==> is_ws(#[trigger] s[j]),
        i > 0 ==> !is_ws(s[i - 1]),
    ensures
        trim_back(s) == s.take(i),
    decreases s.len() - i,
{
    if i == s.len() {
        if i == 0 {
            assert(s.take(0) =~= s);
        } else {
            assert(!is_ws(s.last()));
            assert(s.take(i) =~= s);
        }
    } else {
        assert(is_ws(s.last()));
        lemma_trim_back_take(s.drop_last(), i);
        assert(s.drop_last().take(i) =~= s.take(i));
    }
}

pub proof fn lemma_find_char_at(s: Seq<char>, c: char, i: int)
    requires
        0 <= i <= s.len(),
        forall|j: int| 0 <= j < i ==> #[trigger] s[j] != c,
        i < s.len() ==> s[i] == c,
    ensures
        find_char(s, c) == i,
    decreases i,
{
    if i == 0 {
    } else {
        assert(s[0] != c);
        lemma_find_char_at(s.drop_first(), c, i - 1);
    }
}

/// Whether a character is ASCII whitespace.
fn is_ws_char(c: char) -> (b: bool)
    ensures
        b == is_ws(c),
{
    c == ' ' || c == '\t' || c == '\r' || c == '\n'
}

/// Trim ASCII whitespace from both ends, as a fresh string.
pub fn trim_ascii(text: &str) -> (r: String)
    ensures
        r@ == trimmed(text@),
{
    let n = text.unicode_len();
    let mut lo: usize = 0;
    while lo < n && is_ws_char(text.get_char(lo))
        invariant
            0 <= lo <= n == text@.len(),
            forall|j: int| 0 <= j < lo ==> is_ws(#[trigger] text@[j]),
        decreases n - lo,
    {
        lo += 1;
    }
    let mut hi: usize = n;
    while hi > lo && is_ws_char(text.get_char(hi - 1))
        invariant
            0 <= lo <= hi <= n == text@.len(),
            forall|j: int| 0 <= j < lo ==> is_ws(#[trigger] text@[j]),
            lo < n ==> !is_ws(text@[lo as int]) || lo == hi,
            forall|j: int| hi <= j < n ==> is_ws(#[trigger] text@[j]),
        decreases hi,
    {
        hi -= 1;
    }
    let mid = text.substring_char(lo, hi);
    proof {
        let front = text@.skip(lo as int);
        lemma_trim_front_skip(text@, lo as int);
        assert forall|j: int| (hi - lo) <= j < front.len() implies is_ws(#[trigger] front[j]) by {
            assert(front[j] == text@[j + lo]);
        }
        if hi > lo {
            assert(front[hi - lo - 1] == text@[hi - 1]);
            assert(!is_ws(front[hi - lo - 1]));
        }
        lemma_trim_back_take(front, hi - lo);
        assert(mid@ =~= front.take(hi - lo));
    }
    mid.to_owned()
}

/// Parse a run of one to ten decimal digits.
///
/// Ten digits keep the value below ten billion, far from overflow; longer
/// runs are rejected.
pub fn parse_digits_u64(text: &str) -> (r: Option<u64>)
    ensures
        match r {
            Some(v) => {
                &&& 0 < text@.len() <= 10
                &&& all_digits(text@)
                &&& v as int == digits_val(text@)
                &&& v < 10_000_000_000
            },
            None => text@.len() == 0 || text@.len() > 10 || !all_digits(text@),
        },
{
    let n = text.unicode_len();
    if n == 0 || n > 10 {
        return None;
    }
    let mut v: u64 = 0;
    let mut i: usize = 0;
    while i < n
        invariant
            0 <= i <= n == text@.len(),
            n <= 10,
            all_digits(text@.take(i as int)),
            v as int == digits_val(text@.take(i as int)),
            v < 10_000_000_000,
        decreases n - i,
    {
        let c = text.get_char(i);
        if c < '0' || c > '9' {
            proof {
                assert(!is_digit(text@[i as int]));
            }
            return None;
        }
        let d = (c as u32) - ('0' as u32);
        v = v * 10 + (d as u64);
        proof {
            assert(text@.take(i as int + 1).drop_last() =~= text@.take(i as int));
            assert(text@.take(i as int + 1).last() == text@[i as int]);
            lemma_digits_val_upper(text@.take(i as int + 1));
            vstd::arithmetic::power::lemma_pow_increases(10, (i + 1) as nat, 10);
            assert(vstd::arithmetic::power::pow(10, 10) == 10_000_000_000) by {
                    reveal_with_fuel(vstd::arithmetic::power::pow, 11);
                }
        }
        i += 1;
    }
    proof {
        assert(text@.take(n as int) =~= text@);
    }
    Some(v)
}

/// A digit run of length `n` is non-negative and writes less than `10^n`.
proof fn lemma_digits_val_upper(s: Seq<char>)
    requires
        all_digits(s),
    ensures
        0 <= digits_val(s) < vstd::arithmetic::power::pow(10, s.len()),
    decreases s.len(),
{
    vstd::arithmetic::power::lemma_pow_positive(10, s.len());
    if s.len() == 0 {
        assert(vstd::arithmetic::power::pow(10, 0) == 1) by {
            reveal_with_fuel(vstd::arithmetic::power::pow, 1);
        }
    } else {
        assert(all_digits(s.drop_last())) by {
            assert(forall|i: int| 0 <= i < s.len() - 1 ==> #[trigger] s.drop_last()[i] == s[i]);
        }
        lemma_digits_val_upper(s.drop_last());
        assert(vstd::arithmetic::power::pow(10, s.len()) == 10 * vstd::arithmetic::power::pow(
            10,
            (s.len() - 1) as nat,
        )) by {
            vstd::arithmetic::power::lemma_pow1(10);
            vstd::arithmetic::power::lemma_pow_adds(10, 1, (s.len() - 1) as nat);
            assert(vstd::arithmetic::power::pow(10, 1) == 10) by {
                reveal_with_fuel(vstd::arithmetic::power::pow, 2);
            }
        }
        assert(0 <= digit_val(s.last()) <= 9);
    }
}


/// Milliseconds written by a fractional-seconds part: the first three
/// digits, zero-padded.
pub open spec fn frac_ms(f: Seq<char>) -> int {
    (if f.len() >= 1 {
        digit_val(f[0]) * 100
    } else {
        0
    }) + (if f.len() >= 2 {
        digit_val(f[1]) * 10
    } else {
        0
    }) + (if f.len() >= 3 {
        digit_val(f[2])
    } else {
        0
    })
}

/// A duration as a probe prints it: seconds, optionally with a fraction.
pub open spec fn valid_duration_text(s: Seq<char>) -> bool {
    let p = find_char(s, '.');
    let ip = s.take(p);
    let fp = if p < s.len() {
        s.skip(p + 1)
    } else {
        Seq::<char>::empty()
    };
    &&& 0 < ip.len() <= 10
    &&& all_digits(ip)
    &&& all_digits(fp)
}

/// The duration in milliseconds, truncated below the millisecond.
pub open spec fn duration_text_ms(s: Seq<char>) -> int {
    let p = find_char(s, '.');
    let ip = s.take(p);
    let fp = if p < s.len() {
        s.skip(p + 1)
    } else {
        Seq::<char>::empty()
    };
    digits_val(ip) * 1000 + frac_ms(fp)
}

fn digit_of(c: char) -> (d: u64)
    requires
        is_digit(c),
    ensures
        d as int == digit_val(c),
        d < 10,
{
    ((c as u32) - ('0' as u32)) as u64
}

/// Parse a probed duration, in seconds with an optional fraction, into
/// milliseconds. Whitespace around the number is ignored; anything below the
/// millisecond is truncated.
pub fn parse_duration_ms(text: &str) -> (r: Option<u64>)
    ensures
        match r {
            Some(ms) => valid_duration_text(trimmed(text@)) && ms as int == duration_text_ms(
                trimmed(text@),
            ),
            None => !valid_duration_text(trimmed(text@)),
        },
{
    let t = trim_ascii(text);
    let ts = t.as_str();
    let n = ts.unicode_len();
    let mut p: usize = 0;
    while p < n && ts.get_char(p) != '.'
        invariant
            0 <= p <= n == ts@.len(),
            forall|j: int| 0 <= j < p ==> #[trigger] ts@[j] != '.',
        decreases n - p,
    {
        p += 1;
    }
    proof {
        lemma_find_char_at(ts@, '.', p as int);
    }
    let int_part = ts.substring_char(0, p);
    proof {
        assert(int_part@ =~= ts@.take(p as int));
    }
    let int_val = match parse_digits_u64(int_part) {
        Option::Some(v) => v,
        Option::None => {
            return None;
        },
    };
    let mut fv: u64 = 0;
    if p < n {
        let frac = ts.substring_char(p + 1, n);
        proof {
            assert(frac@ =~= ts@.skip(p as int + 1));
        }
        let fl = frac.unicode_len();
        let mut k: usize = 0;
        while k < fl
            invariant
                0 <= k <= fl == frac@.len(),
                all_digits(frac@.take(k as int)),
                ts@ == trimmed(text@),
                0 <= p < ts@.len(),
                find_char(ts@, '.') == p as int,
                frac@ == ts@.skip(p as int + 1),
            decreases fl - k,
        {
            let c = frac.get_char(k);
            if c < '0' || c > '9' {
                proof {
                    assert(!is_digit(frac@[k as int]));
                }
                return None;
            }
            proof {
                assert(frac@.take(k as int + 1) =~= frac@.take(k as int).push(frac@[k as int]));
                assert forall|j: int| 0 <= j < k + 1 implies is_digit(
                    #[trigger] frac@.take(k as int + 1)[j],
                ) by {
                    if j < k {
                        assert(frac@.take(k as int + 1)[j] == frac@.take(k as int)[j]);
                    }
                }
            }
            k += 1;
        }
        proof {
            assert(frac@.take(fl as int) =~= frac@);
        }
        let d0: u64 = if fl >= 1 {
            digit_of(frac.get_char(0)) * 100
        } else {
            0
        };
        let d1: u64 = if fl >= 2 {
            digit_of(frac.get_char(1)) * 10
        } else {
            0
        };
        let d2: u64 = if fl >= 3 {
            digit_of(frac.get_char(2))
        } else {
            0
        };
        fv = d0 + d1 + d2;
        proof {
            assert(fv as int == frac_ms(frac@));
        }
    }
    Some(int_val * 1000 + fv)
}

/// A resolution as a probe prints it: `WIDTHxHEIGHT`, both in range.
pub open spec fn valid_resolution_text(s: Seq<char>) -> bool {
    let p = find_char(s, 'x');
    let l = s.take(p);
    let r = if p < s.len() {
        s.skip(p + 1)
    } else {
        Seq::<char>::empty()
    };
    &&& 0 < l.len() <= 10
    &&& all_digits(l)
    &&& 0 < r.len() <= 10
    &&& all_digits(r)
    &&& digits_val(l) <= u32::MAX
    &&& digits_val(r) <= u32::MAX
}

/// The two numbers of a valid resolution text.
pub open spec fn resolution_text_wh(s: Seq<char>) -> (int, int) {
    let p = find_char(s, 'x');
    let l = s.take(p);
    let r = if p < s.len() {
        s.skip(p + 1)
    } else {
        Seq::<char>::empty()
    };
    (digits_val(l), digits_val(r))
}

/// Parse a probed `WIDTHxHEIGHT` resolution. Whitespace around it is
/// ignored.
pub fn parse_resolution(text: &str) -> (r: Option<(u32, u32)>)
    ensures
        match r {
            Some(wh) => valid_resolution_text(trimmed(text@)) && (wh.0 as int, wh.1 as int)
                == resolution_text_wh(trimmed(text@)),
            None => !valid_resolution_text(trimmed(text@)),
        },
{
    let t = trim_ascii(text);
    let ts = t.as_str();
    let n = ts.unicode_len();
    let mut p: usize = 0;
    while p < n && ts.get_char(p) != 'x'
        invariant
            0 <= p <= n == ts@.len(),
            forall|j: int| 0 <= j < p ==> #[trigger] ts@[j] != 'x',
        decreases n - p,
    {
        p += 1;
    }
    proof {
        lemma_find_char_at(ts@, 'x', p as int);
    }
    if p >= n {
        // no separator: the right-hand part is empty
        return None;
    }
    let left = ts.substring_char(0, p);
    let right = ts.substring_char(p + 1, n);
    proof {
        assert(left@ =~= ts@.take(p as int));
        assert(right@ =~= ts@.skip(p as int + 1));
    }
    let w = match parse_digits_u64(left) {
        Option::Some(v) => v,
        Option::None => {
            return None;
        },
    };
    let h = match parse_digits_u64(right) {
        Option::Some(v) => v,
        Option::None => {
            return None;
        },
    };
    if w > 0xffff_ffff || h > 0xffff_ffff {
        return None;
    }
    Some((w as u32, h as u32))
}


/// The needle appears in the haystack starting at `i`.
pub open spec fn contains_at(h: Seq<char>, n: Seq<char>, i: int) -> bool {
    0 <= i && i + n.len() <= h.len() && h.subrange(i, i + n.len()) == n
}

/// The needle appears somewhere in the haystack.
pub open spec fn has_substring(h: Seq<char>, n: Seq<char>) -> bool {
    exists|i: int| contains_at(h, n, i)
}

/// Find an occurrence of `needle` in `hay`, if any.
pub fn find_substring(hay: &str, needle: &str) -> (r: Option<usize>)
    ensures
        match r {
            Some(i) => contains_at(hay@, needle@, i as int),
            None => !has_substring(hay@, needle@),
        },
{
    let hl = hay.unicode_len();
    let nl = needle.unicode_len();
    if nl > hl {
        proof {
            assert forall|i: int| !contains_at(hay@, needle@, i) by {}
        }
        return None;
    }
    if nl == 0 {
        proof {
            assert(hay@.subrange(0, 0) =~= needle@);
        }
        return Some(0);
    }
    let mut i: usize = 0;
    while i <= hl - nl
        invariant
            0 <= i <= hl - nl + 1,
            0 < nl <= hl == hay@.len(),
            nl == needle@.len(),
            forall|k: int| 0 <= k < i ==> !contains_at(hay@, needle@, k),
        decreases hl + 1 - nl - i,
    {
        let mut j: usize = 0;
        let mut matches_here = true;
        while j < nl
            invariant
                0 <= j <= nl,
                0 <= i <= hl - nl,
                nl <= hl == hay@.len(),
                nl == needle@.len(),
                matches_here ==> forall|q: int| 0 <= q < j ==> hay@[i + q] == needle@[q],
                !matches_here ==> !contains_at(hay@, needle@, i as int),
            decreases nl - j,
        {
            if hay.get_char(i + j) != needle.get_char(j) {
                proof {
                    if contains_at(hay@, needle@, i as int) {
                        assert(hay@.subrange(i as int, i + nl as int)[j as int] == needle@[
                            j as int
                        ]);
                    }
                }
                matches_here = false;
                j = nl;
            } else {
                j += 1;
            }
        }
        if matches_here {
            proof {
                assert(hay@.subrange(i as int, i + nl as int) =~= needle@);
            }
            return Some(i);
        }
        i += 1;
    }
    proof {
        assert forall|k: int| !contains_at(hay@, needle@, k) by {
            if 0 <= k < i {
                assert(!contains_at(hay@, needle@, k));
            }
        }
    }
    None
}


/// The needle is a prefix of the haystack.
pub open spec fn has_prefix(h: Seq<char>, n: Seq<char>) -> bool {
    n.len() <= h.len() && h.subrange(0, n.len() as int) == n
}

/// Whether `prefix` starts the text.
pub fn starts_with(hay: &str, prefix: &str) -> (r: bool)
    ensures
        r == has_prefix(hay@, prefix@),
{
    let hl = hay.unicode_len();
    let nl = prefix.unicode_len();
    if nl > hl {
        return false;
    }
    let mut j: usize = 0;
    while j < nl
        invariant
            0 <= j <= nl <= hl == hay@.len(),
            nl == prefix@.len(),
            forall|q: int| 0 <= q < j ==> hay@[q] == prefix@[q],
        decreases nl - j,
    {
        if hay.get_char(j) != prefix.get_char(j) {
            proof {
                if has_prefix(hay@, prefix@) {
                    assert(hay@.subrange(0, nl as int)[j as int] == prefix@[j as int]);
                }
            }
            return false;
        }
        j += 1;
    }
    proof {
        assert(hay@.subrange(0, nl as int) =~= prefix@);
    }
    true
}

/// Whether two texts hold the same characters.
pub fn str_eq(a: &str, b: &str) -> (r: bool)
    ensures
        r == (a@ == b@),
{
    let al = a.unicode_len();
    let bl = b.unicode_len();
    if al != bl {
        return false;
    }
    let mut j: usize = 0;
    while j < al
        invariant
            0 <= j <= al == a@.len(),
            al == b@.len(),
            forall|q: int| 0 <= q < j ==> a@[q] == b@[q],
        decreases al - j,
    {
        if a.get_char(j) != b.get_char(j) {
            return false;
        }
        j += 1;
    }
    proof {
        assert(a@ =~= b@);
    }
    true
}


/// Lexicographic order on texts, by code point.
pub open spec fn seq_char_le(a: Seq<char>, b: Seq<char>) -> bool
    decreases a.len(),
{
    if a.len() == 0 {
        true
    } else if b.len() == 0 {
        false
    } else if a[0] != b[0] {
        a[0] < b[0]
    } else {
        seq_char_le(a.drop_first(), b.drop_first())
    }
}

/// Any two texts compare one way or the other.
pub proof fn lemma_seq_char_le_total(a: Seq<char>, b: Seq<char>)
    ensures
        seq_char_le(a, b) || seq_char_le(b, a),
    decreases a.len(),
{
    if a.len() > 0 && b.len() > 0 && a[0] == b[0] {
        lemma_seq_char_le_total(a.drop_first(), b.drop_first());
    }
}

/// The order chains.
pub proof fn lemma_seq_char_le_trans(a: Seq<char>, b: Seq<char>, c: Seq<char>)
    requires
        seq_char_le(a, b),
        seq_char_le(b, c),
    ensures
        seq_char_le(a, c),
    decreases a.len(),
{
    if a.len() > 0 {
        if a[0] == b[0] && b[0] == c[0] {
            lemma_seq_char_le_trans(a.drop_first(), b.drop_first(), c.drop_first());
        }
    }
}

proof fn lemma_seq_char_le_skip(a: Seq<char>, b: Seq<char>, i: int)
    requires
        0 <= i <= a.len(),
        i <= b.len(),
        forall|j: int| 0 <= j < i ==> a[j] == b[j],
    ensures
        seq_char_le(a, b) == seq_char_le(a.skip(i), b.skip(i)),
    decreases i,
{
    if i == 0 {
        assert(a.skip(0) =~= a);
        assert(b.skip(0) =~= b);
    } else {
        assert(a[0] == b[0]);
        assert(a.len() > 0 && b.len() > 0);
        lemma_seq_char_le_skip(a.drop_first(), b.drop_first(), i - 1);
        assert(a.drop_first().skip(i - 1) =~= a.skip(i));
        assert(b.drop_first().skip(i - 1) =~= b.skip(i));
    }
}

/// Compare two texts lexicographically.
pub fn str_le(a: &str, b: &str) -> (r: bool)
    ensures
        r == seq_char_le(a@, b@),
{
    let al = a.unicode_len();
    let bl = b.unicode_len();
    let mut i: usize = 0;
    loop
        invariant
            0 <= i <= al == a@.len(),
            i <= bl == b@.len(),
            forall|j: int| 0 <= j < i ==> a@[j] == b@[j],
        ensures
            (i <= al && i <= bl),
            seq_char_le(a@, b@) == seq_char_le(a@.skip(i as int), b@.skip(i as int)),
            i == al || i == bl || a@[i as int] != b@[i as int],
        decreases al - i,
    {
        proof {
            lemma_seq_char_le_skip(a@, b@, i as int);
        }
        if i == al || i == bl {
            break;
        }
        let ca = a.get_char(i);
        let cb = b.get_char(i);
        if ca != cb {
            break;
        }
        i += 1;
    }
    proof {
        lemma_seq_char_le_skip(a@, b@, i as int);
    }
    if i == al {
        true
    } else if i == bl {
        false
    } else {
        let ca = a.get_char(i);
        let cb = b.get_char(i);
        proof {
            assert(a@.skip(i as int)[0] == a@[i as int]);
            assert(b@.skip(i as int)[0] == b@[i as int]);
        }
        ca < cb
    }
}

} // verus!
