//! Character-level helpers of the command parser: comparison with words,
//! `str::trim` and `u32::from_str`, over the characters of a command line.
use vstd::prelude::*;
use crate::text::{dec_digits, dec_char};

verus! {

/// `char::is_whitespace`: the Unicode `White_Space` property.
pub open spec fn is_white_space(c: char) -> bool {
    let u = c as u32;
    ||| 0x09 <= u <= 0x0D
    ||| u == 0x20
    ||| u == 0x85
    ||| u == 0xA0
    ||| u == 0x1680
    ||| 0x2000 <= u <= 0x200A
    ||| u == 0x2028
    ||| u == 0x2029
    ||| u == 0x202F
    ||| u == 0x205F
    ||| u == 0x3000
}

/// `s` without its leading white space.
pub open spec fn trim_start(s: Seq<char>) -> Seq<char>
    decreases s.len(),
{
    if s.len() > 0 && is_white_space(s[0]) {
        trim_start(s.drop_first())
    } else {
        s
    }
}

/// `s` without its trailing white space.
pub open spec fn trim_end(s: Seq<char>) -> Seq<char>
    decreases s.len(),
{
    if s.len() > 0 && is_white_space(s.last()) {
        trim_end(s.drop_last())
    } else {
        s
    }
}

/// `str::trim`: `s` without leading and trailing white space.
pub open spec fn trim(s: Seq<char>) -> Seq<char> {
    trim_end(trim_start(s))
}

/// An ASCII decimal digit.
pub open spec fn is_digit(c: char) -> bool {
    48 <= (c as u32) <= 57
}

/// Every character of `s` is an ASCII decimal digit.
pub open spec fn all_digits(s: Seq<char>) -> bool {
    forall|i: int| 0 <= i < s.len() ==> is_digit(#[trigger] s[i])
}

/// The number that the decimal digits `s` denote (most significant first).
pub open spec fn digits_value(s: Seq<char>) -> nat
    decreases s.len(),
{
    if s.len() == 0 {
        0
    } else {
        digits_value(s.drop_last()) * 10 + ((s.last() as u32) - 48) as nat
    }
}

/// `s` without a single leading `+`, if it has one.
pub open spec fn unsigned_digits(s: Seq<char>) -> Seq<char> {
    if s.len() > 0 && s[0] == '+' {
        s.drop_first()
    } else {
        s
    }
}

/// `s.parse::<u32>()`: an optional `+` followed by one or more decimal digits
/// whose value fits in 32 bits; `None` for every other input.
pub open spec fn parse_u32(s: Seq<char>) -> Option<u32> {
    let d = unsigned_digits(s);
    if d.len() > 0 && all_digits(d) && digits_value(d) <= u32::MAX {
        Some(digits_value(d) as u32)
    } else {
        None
    }
}

/// `p` is a prefix of `s`.
pub open spec fn has_prefix(s: Seq<char>, p: Seq<char>) -> bool {
    p.len() <= s.len() && s.subrange(0, p.len() as int) == p
}

/// `s` with the prefix of length `n` removed.
pub open spec fn after(s: Seq<char>, n: nat) -> Seq<char> {
    s.subrange(n as int, s.len() as int)
}

/// The characters of `s`, in order.
pub fn str_chars(s: &str) -> (v: Vec<char>)
    ensures
        v@ == s@,
{
    let mut v: Vec<char> = Vec::new();
    for c in it: s.chars()
        invariant
            v@ == it.seq().subrange(0, it.index() as int),
            it.seq() == s@,
    {
        v.push(c);
    }
    v
}

/// Whether `c` is white space (`char::is_whitespace`).
pub fn is_white_space_exec(c: char) -> (r: bool)
    ensures
        r == is_white_space(c),
{
    let u: u32 = c as u32;
    (0x09 <= u && u <= 0x0D) || u == 0x20 || u == 0x85 || u == 0xA0 || u == 0x1680 || (0x2000
        <= u && u <= 0x200A) || u == 0x2028 || u == 0x2029 || u == 0x202F || u == 0x205F || u
        == 0x3000
}

/// Whether the characters of `v` are exactly those of `word`.
pub fn chars_equal(v: &Vec<char>, word: &str) -> (r: bool)
    ensures
        r == (v@ == word@),
{
    let w = str_chars(word);
    if v.len() != w.len() {
        return false;
    }
    let mut i: usize = 0;
    while i < v.len()
        invariant
            v@.len() == w@.len(),
            w@ == word@,
            i <= v.len(),
            forall|j: int| 0 <= j < i ==> v@[j] == w@[j],
        decreases v.len() - i,
    {
        if v[i] != w[i] {
            assert(v@[i as int] != word@[i as int]);
            return false;
        }
        i += 1;
    }
    assert(v@ =~= w@);
    true
}

/// If `word` is a prefix of `v`, its length in characters.
pub fn prefix_len(v: &Vec<char>, word: &str) -> (r: Option<usize>)
    ensures
        r is Some <==> has_prefix(v@, word@),
        r matches Some(n) ==> n == word@.len(),
{
    let w = str_chars(word);
    if w.len() > v.len() {
        return None;
    }
    let mut i: usize = 0;
    while i < w.len()
        invariant
            w@.len() <= v@.len(),
            w@ == word@,
            i <= w.len(),
            forall|j: int| 0 <= j < i ==> v@[j] == w@[j],
        decreases w.len() - i,
    {
        if v[i] != w[i] {
            assert(v@.subrange(0, w@.len() as int)[i as int] != w@[i as int]);
            return None;
        }
        i += 1;
    }
    assert(v@.subrange(0, w@.len() as int) =~= w@);
    Some(w.len())
}

proof fn lemma_trim_start_skip(s: Seq<char>, lo: int)
    requires
        0 <= lo < s.len(),
        is_white_space(s[lo]),
    ensures
        trim_start(s.subrange(lo, s.len() as int)) == trim_start(s.subrange(lo + 1, s.len() as int)),
{
    assert(s.subrange(lo, s.len() as int).drop_first() =~= s.subrange(lo + 1, s.len() as int));
}

proof fn lemma_trim_end_skip(s: Seq<char>, lo: int, hi: int)
    requires
        0 <= lo < hi <= s.len(),
        is_white_space(s[hi - 1]),
    ensures
        trim_end(s.subrange(lo, hi)) == trim_end(s.subrange(lo, hi - 1)),
{
    assert(s.subrange(lo, hi).drop_last() =~= s.subrange(lo, hi - 1));
}

/// The bounds `(lo, hi)` such that `v[lo..hi]` is `v[from..]` trimmed.
pub fn trim_bounds(v: &Vec<char>, from: usize) -> (r: (usize, usize))
    requires
        from <= v.len(),
    ensures
        from <= r.0 <= r.1 <= v.len(),
        v@.subrange(r.0 as int, r.1 as int) == trim(after(v@, from as nat)),
{
    let mut lo: usize = from;
    while lo < v.len() && is_white_space_exec(v[lo])
        invariant
            from <= lo <= v.len(),
            trim_start(after(v@, from as nat)) == trim_start(after(v@, lo as nat)),
        decreases v.len() - lo,
    {
        proof {
            lemma_trim_start_skip(v@, lo as int);
        }
        lo += 1;
    }
    assert(trim_start(after(v@, lo as nat)) == after(v@, lo as nat));
    let mut hi: usize = v.len();
    assert(v@.subrange(lo as int, hi as int) == after(v@, lo as nat));
    while hi > lo && is_white_space_exec(v[hi - 1])
        invariant
            lo <= hi <= v.len(),
            trim_end(v@.subrange(lo as int, hi as int)) == trim(after(v@, from as nat)),
        decreases hi,
    {
        proof {
            lemma_trim_end_skip(v@, lo as int, hi as int);
        }
        hi -= 1;
    }
    assert(trim_end(v@.subrange(lo as int, hi as int)) == v@.subrange(lo as int, hi as int));
    (lo, hi)
}

proof fn lemma_digits_value_prefix(s: Seq<char>, k: int, j: int)
    requires
        0 <= k <= j <= s.len(),
    ensures
        digits_value(s.subrange(0, k)) <= digits_value(s.subrange(0, j)),
    decreases j - k,
{
    if k < j {
        lemma_digits_value_prefix(s, k, j - 1);
        assert(s.subrange(0, j).drop_last() =~= s.subrange(0, j - 1));
    }
}

proof fn lemma_digits_step(d: Seq<char>, k: int)
    requires
        0 <= k < d.len(),
        all_digits(d.subrange(0, k)),
        is_digit(d[k]),
    ensures
        digits_value(d.subrange(0, k + 1)) == digits_value(d.subrange(0, k)) * 10 + ((d[k] as u32)
            - 48) as nat,
        all_digits(d.subrange(0, k + 1)),
{
    assert(d.subrange(0, k + 1).drop_last() =~= d.subrange(0, k));
    assert forall|i: int| 0 <= i < k + 1 implies is_digit(#[trigger] d.subrange(0, k + 1)[i]) by {
        if i < k {
            assert(d.subrange(0, k + 1)[i] == d.subrange(0, k)[i]);
        }
    }
}

/// `v[lo..hi].parse::<u32>()`, with `None` for every error.
pub fn parse_u32_range(v: &Vec<char>, lo: usize, hi: usize) -> (r: Option<u32>)
    requires
        lo <= hi <= v.len(),
    ensures
        r == parse_u32(v@.subrange(lo as int, hi as int)),
{
    let ghost s = v@.subrange(lo as int, hi as int);
    let mut start: usize = lo;
    if start < hi && v[start] == '+' {
        start += 1;
    }
    let ghost d = v@.subrange(start as int, hi as int);
    assert(unsigned_digits(s) == d) by {
        if lo < hi && v@[lo as int] == '+' {
            assert(s.drop_first() =~= d);
        } else {
            assert(s =~= d);
        }
    }
    if start == hi {
        return None;
    }
    let mut acc: u64 = 0;
    let mut i: usize = start;
    assert(all_digits(d.subrange(0, 0)));
    while i < hi
        invariant
            lo <= start <= i <= hi <= v.len(),
            s == v@.subrange(lo as int, hi as int),
            d == v@.subrange(start as int, hi as int),
            unsigned_digits(s) == d,
            d.len() > 0,
            all_digits(d.subrange(0, i - start)),
            acc == digits_value(d.subrange(0, i - start)),
            acc <= u32::MAX,
        decreases hi - i,
    {
        let c = v[i];
        let u: u32 = c as u32;
        assert(d[i - start] == c);
        if !(48 <= u && u <= 57) {
            assert(!is_digit(d[i - start]));
            assert(!all_digits(d));
            return None;
        }
        proof {
            lemma_digits_step(d, i - start);
        }
        acc = acc * 10 + (u - 48) as u64;
        i += 1;
        if acc > 0xFFFF_FFFF {
            proof {
                lemma_digits_value_prefix(d, i - start, d.len() as int);
                assert(d.subrange(0, d.len() as int) =~= d);
            }
            return None;
        }
    }
    assert(d.subrange(0, d.len() as int) =~= d);
    Some(acc as u32)
}

/// The characters that `{}` prints for `n`.
pub open spec fn dec_chars(n: nat) -> Seq<char> {
    dec_digits(n).map_values(|b: u8| b as char)
}

proof fn lemma_dec_char_cast(d: nat)
    requires
        d < 10,
    ensures
        ((dec_char(d) as char) as u32) == 48 + d,
{
    let b = dec_char(d);
    assert(b == 48 + d);
    assert((b as char) as u32 == b as u32);
}

/// What `{}` prints for `n` is a non-empty run of digits whose value is `n`.
pub proof fn lemma_dec_chars_value(n: nat)
    ensures
        dec_chars(n).len() > 0,
        all_digits(dec_chars(n)),
        digits_value(dec_chars(n)) == n,
        dec_chars(n)[0] != '+',
    decreases n,
{
    lemma_dec_char_cast(n % 10);
    if n < 10 {
        assert(dec_digits(n) == seq![dec_char(n)]);
        assert(dec_chars(n)[0] == dec_char(n) as char);
        assert(dec_chars(n).drop_last() =~= Seq::<char>::empty());
        assert(dec_chars(n).last() == dec_char(n) as char);
        assert(digits_value(dec_chars(n)) == digits_value(Seq::<char>::empty()) * 10 + n);
    } else {
        lemma_dec_chars_value(n / 10);
        let prev = dec_chars(n / 10);
        assert(dec_chars(n) =~= prev.push(dec_char(n % 10) as char));
        assert(dec_chars(n).drop_last() =~= prev);
        assert(dec_chars(n).last() == dec_char(n % 10) as char);
        assert(digits_value(dec_chars(n)) == (n / 10) * 10 + n % 10);
        assert((n / 10) * 10 + n % 10 == n) by (nonlinear_arith);
        assert(dec_chars(n)[0] == prev[0]);
        assert forall|i: int| 0 <= i < dec_chars(n).len() implies is_digit(#[trigger] dec_chars(n)[i]) by {
            if i < prev.len() {
                assert(dec_chars(n)[i] == prev[i]);
            }
        }
    }
}

/// Reading back what `{}` prints for a `u32` gives the number.
pub proof fn lemma_parse_formatted(n: u32)
    ensures
        parse_u32(dec_chars(n as nat)) == Some(n),
{
    lemma_dec_chars_value(n as nat);
    assert(unsigned_digits(dec_chars(n as nat)) == dec_chars(n as nat));
}

/// The printed digits of a number hold no white space, so trimming keeps them.
pub proof fn lemma_trim_digits(s: Seq<char>)
    requires
        all_digits(s),
    ensures
        trim(s) == s,
{
    if s.len() > 0 {
        assert(is_digit(s[0]));
        assert(is_digit(s[s.len() - 1]));
    }
}

/// `trim` keeps a contiguous part of the line: everything cut from the front
/// and the back is white space, and what is kept starts and ends with a
/// character that is not.
pub proof fn lemma_trim_cuts_white_space(s: Seq<char>)
    ensures
        exists|i: int, j: int|
            0 <= i <= j <= s.len() && trim(s) == s.subrange(i, j) && (forall|k: int|
                0 <= k < i ==> is_white_space(#[trigger] s[k])) && (forall|k: int|
                j <= k < s.len() ==> is_white_space(#[trigger] s[k])),
        trim(s).len() > 0 ==> !is_white_space(trim(s)[0]) && !is_white_space(
            trim(s)[trim(s).len() - 1],
        ),
{
    let i = lemma_trim_start_cut(s);
    let t = s.subrange(i, s.len() as int);
    let j = lemma_trim_end_cut(t);
    assert(trim(s) == t.subrange(0, j));
    assert(t.subrange(0, j) =~= s.subrange(i, i + j));
    assert forall|k: int| i + j <= k < s.len() implies is_white_space(#[trigger] s[k]) by {
        assert(s[k] == t[k - i]);
    }
}

proof fn lemma_trim_start_cut(s: Seq<char>) -> (i: int)
    ensures
        0 <= i <= s.len(),
        trim_start(s) == s.subrange(i, s.len() as int),
        forall|k: int| 0 <= k < i ==> is_white_space(#[trigger] s[k]),
        i < s.len() ==> !is_white_space(s[i]),
    decreases s.len(),
{
    if s.len() > 0 && is_white_space(s[0]) {
        let i0 = lemma_trim_start_cut(s.drop_first());
        assert(s.drop_first().subrange(i0, s.len() - 1) =~= s.subrange(i0 + 1, s.len() as int));
        assert forall|k: int| 0 <= k < i0 + 1 implies is_white_space(#[trigger] s[k]) by {
            if k > 0 {
                assert(s[k] == s.drop_first()[k - 1]);
            }
        }
        if i0 + 1 < s.len() {
            assert(s[i0 + 1] == s.drop_first()[i0]);
        }
        i0 + 1
    } else {
        assert(s.subrange(0, s.len() as int) =~= s);
        0
    }
}

proof fn lemma_trim_end_cut(t: Seq<char>) -> (j: int)
    ensures
        0 <= j <= t.len(),
        trim_end(t) == t.subrange(0, j),
        forall|k: int| j <= k < t.len() ==> is_white_space(#[trigger] t[k]),
        j > 0 ==> !is_white_space(t[j - 1]),
    decreases t.len(),
{
    if t.len() > 0 && is_white_space(t.last()) {
        let j0 = lemma_trim_end_cut(t.drop_last());
        assert(t.drop_last().subrange(0, j0) =~= t.subrange(0, j0));
        assert forall|k: int| j0 <= k < t.len() implies is_white_space(#[trigger] t[k]) by {
            if k < t.len() - 1 {
                assert(t[k] == t.drop_last()[k]);
            }
        }
        if j0 > 0 {
            assert(t[j0 - 1] == t.drop_last()[j0 - 1]);
        }
        j0
    } else {
        assert(t.subrange(0, t.len() as int) =~= t);
        t.len() as int
    }
}

/// What `parse_u32` accepts: a non-empty run of ASCII digits after an
/// optional `+`; the empty line and a lone `+` are refused. Appending a
/// digit to an accepted number multiplies it by ten and adds the digit
/// while the result fits; leading zeros do not change the value.
pub proof fn lemma_parse_u32_laws(s: Seq<char>, c: char)
    ensures
        parse_u32(Seq::<char>::empty()) is None,
        parse_u32(seq!['+']) is None,
        parse_u32(s) matches Some(v) ==> s.len() > 0 && (forall|i: int|
            0 <= i < s.len() && (i > 0 || s[0] != '+') ==> 48 <= (#[trigger] s[i] as u32) <= 57)
            && (s[0] == '+' ==> s.len() > 1),
        (parse_u32(s) is Some && 48 <= (c as u32) <= 57 && parse_u32(s)->0 as int * 10 + (c as u32
            - 48) <= u32::MAX) ==> parse_u32(s.push(c)) == Some(
            (parse_u32(s)->0 as int * 10 + (c as u32 - 48)) as u32,
        ),
        (parse_u32(s) is Some && s[0] != '+') ==> parse_u32(seq!['0'] + s) == parse_u32(s),
{
    assert(unsigned_digits(seq!['+']) =~= Seq::<char>::empty());
    if let Some(v) = parse_u32(s) {
        let d = unsigned_digits(s);
        assert forall|i: int| 0 <= i < s.len() && (i > 0 || s[0] != '+') implies 48 <= (
        #[trigger] s[i] as u32) <= 57 by {
            if s[0] == '+' {
                assert(s[i] == d[i - 1]);
            } else {
                assert(s[i] == d[i]);
            }
        }
        if 48 <= (c as u32) <= 57 && v as int * 10 + (c as u32 - 48) <= u32::MAX {
            let d2 = unsigned_digits(s.push(c));
            assert(d2 =~= d.push(c));
            assert(d2.drop_last() =~= d);
            assert(all_digits(d2)) by {
                assert forall|i: int| 0 <= i < d2.len() implies is_digit(#[trigger] d2[i]) by {
                    if i < d.len() {
                        assert(d2[i] == d[i]);
                    }
                }
            }
        }
        if s[0] != '+' {
            let z = seq!['0'] + s;
            assert(unsigned_digits(z) == z);
            lemma_leading_zero_value(s);
            assert(all_digits(z)) by {
                assert forall|i: int| 0 <= i < z.len() implies is_digit(#[trigger] z[i]) by {
                    if i > 0 {
                        assert(z[i] == s[i - 1]);
                    }
                }
            }
        }
    }
}

proof fn lemma_leading_zero_value(s: Seq<char>)
    ensures
        digits_value(seq!['0'] + s) == digits_value(s),
    decreases s.len(),
{
    if s.len() == 0 {
        assert((seq!['0'] + s) =~= seq!['0']);
        assert(seq!['0'].drop_last() =~= Seq::<char>::empty());
        assert(seq!['0'].last() == '0');
        assert(('0' as u32) == 48);
        assert(digits_value(seq!['0']) == digits_value(Seq::<char>::empty()) * 10 + 0);
    } else {
        lemma_leading_zero_value(s.drop_last());
        assert((seq!['0'] + s).drop_last() =~= seq!['0'] + s.drop_last());
        assert((seq!['0'] + s).last() == s.last());
        assert(digits_value(seq!['0'] + s) == digits_value(seq!['0'] + s.drop_last()) * 10 + ((s.last() as u32) - 48) as nat);
    }
}

} // verus!
