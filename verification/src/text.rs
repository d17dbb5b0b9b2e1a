//! Number formatting as the console prints it (`{}`, `{:#x}`, `{:02x}`).
use vstd::prelude::*;

verus! {

/// Concatenation regroups to the left.
pub broadcast proof fn lemma_concat_regroup<A>(a: Seq<A>, b: Seq<A>, c: Seq<A>)
    ensures
        #[trigger] (a + (b + c)) == (a + b) + c,
{
    assert(a + (b + c) =~= (a + b) + c);
}

/// The ASCII lowercase hexadecimal digit for `d < 16`.
pub open spec fn hex_char(d: nat) -> u8 {
    if d < 10 {
        (48 + d) as u8
    } else {
        (87 + d) as u8
    }
}

/// The ASCII decimal digit for `d < 10`.
pub open spec fn dec_char(d: nat) -> u8 {
    (48 + d) as u8
}

/// Hexadecimal digits of `n`, most significant first, without leading zeros.
pub open spec fn hex_digits(n: nat) -> Seq<u8>
    decreases n,
{
    if n < 16 {
        seq![hex_char(n)]
    } else {
        hex_digits(n / 16).push(hex_char(n % 16))
    }
}

/// Decimal digits of `n`, most significant first, without leading zeros.
pub open spec fn dec_digits(n: nat) -> Seq<u8>
    decreases n,
{
    if n < 10 {
        seq![dec_char(n)]
    } else {
        dec_digits(n / 10).push(dec_char(n % 10))
    }
}

/// What `{:#x}` prints for `n`: `0x` followed by the hexadecimal digits.
pub open spec fn hex_text(n: nat) -> Seq<u8> {
    seq![48u8, 120u8] + hex_digits(n)
}

/// What `{:02x}` prints for a byte: exactly two hexadecimal digits.
pub open spec fn hex_byte_text(b: u8) -> Seq<u8> {
    seq![hex_char(b as nat / 16), hex_char(b as nat % 16)]
}

fn hex_char_exec(d: u64) -> (c: u8)
    requires
        d < 16,
    ensures
        c == hex_char(d as nat),
{
    if d < 10 {
        48 + d as u8
    } else {
        87 + d as u8
    }
}

/// Appends the hexadecimal digits of `n` to `out`.
pub fn push_hex_digits(out: &mut Vec<u8>, n: u64)
    ensures
        final(out)@ == old(out)@ + hex_digits(n as nat),
    decreases n,
{
    if n >= 16 {
        push_hex_digits(out, n / 16);
    }
    out.push(hex_char_exec(n % 16));
    proof {
        if n < 16 {
            assert(hex_digits(n as nat) == seq![hex_char(n as nat)]);
        }
    }
}

/// Appends the decimal digits of `n` to `out`.
pub fn push_dec_digits(out: &mut Vec<u8>, n: u64)
    ensures
        final(out)@ == old(out)@ + dec_digits(n as nat),
    decreases n,
{
    if n >= 10 {
        push_dec_digits(out, n / 10);
    }
    out.push(48 + (n % 10) as u8);
    proof {
        if n < 10 {
            assert(dec_digits(n as nat) == seq![dec_char(n as nat)]);
        }
    }
}

/// Appends `{:#x}` of `n` to `out`.
pub fn push_hex(out: &mut Vec<u8>, n: u64)
    ensures
        final(out)@ == old(out)@ + hex_text(n as nat),
{
    out.push(48);
    out.push(120);
    push_hex_digits(out, n);
}

/// Appends `{:02x}` of `b` to `out`.
pub fn push_hex_byte(out: &mut Vec<u8>, b: u8)
    ensures
        final(out)@ == old(out)@ + hex_byte_text(b),
{
    out.push(hex_char_exec((b / 16) as u64));
    out.push(hex_char_exec((b % 16) as u64));
}

/// `format!("{}", n)` as bytes.
pub fn format_dec(n: u64) -> (r: Vec<u8>)
    ensures
        r@ == dec_digits(n as nat),
{
    let mut r: Vec<u8> = Vec::new();
    push_dec_digits(&mut r, n);
    r
}

/// `format!("{:#x}", n)` as bytes.
pub fn format_hex(n: u64) -> (r: Vec<u8>)
    ensures
        r@ == hex_text(n as nat),
{
    let mut r: Vec<u8> = Vec::new();
    push_hex(&mut r, n);
    r
}

/// An ASCII lowercase hexadecimal digit: `0`-`9` or `a`-`f`.
pub open spec fn is_hex_digit(b: u8) -> bool {
    (48 <= b <= 57) || (97 <= b <= 102)
}

/// The value of an ASCII lowercase hexadecimal digit.
pub open spec fn hex_digit_value(b: u8) -> nat {
    if b <= 57 {
        (b - 48) as nat
    } else {
        (b - 87) as nat
    }
}

/// The number that hexadecimal digits denote (most significant first).
pub open spec fn hex_value(s: Seq<u8>) -> nat
    decreases s.len(),
{
    if s.len() == 0 {
        0
    } else {
        hex_value(s.drop_last()) * 16 + hex_digit_value(s.last())
    }
}

/// An ASCII decimal digit.
pub open spec fn is_dec_digit(b: u8) -> bool {
    48 <= b <= 57
}

/// The number that decimal digits denote (most significant first).
pub open spec fn dec_value(s: Seq<u8>) -> nat
    decreases s.len(),
{
    if s.len() == 0 {
        0
    } else {
        dec_value(s.drop_last()) * 10 + (s.last() - 48) as nat
    }
}

proof fn lemma_hex_char_value(d: nat)
    requires
        d < 16,
    ensures
        is_hex_digit(hex_char(d)),
        hex_digit_value(hex_char(d)) == d,
        hex_char(d) == 48 <==> d == 0,
{
}

/// The hexadecimal digits printed for `n` are lowercase hex digits, read
/// back as `n`, and start with a non-zero digit unless `n` is 0 (then they
/// are the single digit `0`).
pub proof fn lemma_hex_digits_value(n: nat)
    ensures
        hex_digits(n).len() > 0,
        forall|i: int| 0 <= i < hex_digits(n).len() ==> is_hex_digit(#[trigger] hex_digits(n)[i]),
        hex_value(hex_digits(n)) == n,
        n == 0 ==> hex_digits(n) == seq![48u8],
        n > 0 ==> hex_digits(n)[0] != 48u8,
    decreases n,
{
    lemma_hex_char_value(n % 16);
    if n < 16 {
        assert(hex_digits(n) == seq![hex_char(n)]);
        assert(hex_digits(n).drop_last() =~= Seq::<u8>::empty());
        assert(hex_digits(n).last() == hex_char(n));
        assert(hex_value(hex_digits(n)) == hex_value(Seq::<u8>::empty()) * 16 + n);
    } else {
        lemma_hex_digits_value(n / 16);
        let prev = hex_digits(n / 16);
        assert(hex_digits(n) == prev.push(hex_char(n % 16)));
        assert(hex_digits(n).drop_last() =~= prev);
        assert(hex_digits(n).last() == hex_char(n % 16));
        assert(hex_value(hex_digits(n)) == (n / 16) * 16 + n % 16);
        assert(hex_digits(n)[0] == prev[0]);
        assert((n / 16) * 16 + n % 16 == n) by (nonlinear_arith);
        assert forall|i: int| 0 <= i < hex_digits(n).len() implies is_hex_digit(
            #[trigger] hex_digits(n)[i],
        ) by {
            if i < prev.len() {
                assert(hex_digits(n)[i] == prev[i]);
            }
        }
    }
}

/// The decimal digits printed for `n` are ASCII digits, read back as `n`,
/// and start with a non-zero digit unless `n` is 0.
pub proof fn lemma_dec_digits_value(n: nat)
    ensures
        dec_digits(n).len() > 0,
        forall|i: int| 0 <= i < dec_digits(n).len() ==> is_dec_digit(#[trigger] dec_digits(n)[i]),
        dec_value(dec_digits(n)) == n,
        n == 0 ==> dec_digits(n) == seq![48u8],
        n > 0 ==> dec_digits(n)[0] != 48u8,
    decreases n,
{
    if n < 10 {
        assert(dec_digits(n) == seq![dec_char(n)]);
        assert(dec_digits(n).drop_last() =~= Seq::<u8>::empty());
        assert(dec_digits(n).last() == dec_char(n));
        assert(dec_value(dec_digits(n)) == dec_value(Seq::<u8>::empty()) * 10 + n);
    } else {
        lemma_dec_digits_value(n / 10);
        let prev = dec_digits(n / 10);
        assert(dec_digits(n) == prev.push(dec_char(n % 10)));
        assert(dec_digits(n).drop_last() =~= prev);
        assert(dec_digits(n).last() == dec_char(n % 10));
        assert(dec_value(dec_digits(n)) == (n / 10) * 10 + n % 10);
        assert(dec_digits(n)[0] == prev[0]);
        assert((n / 10) * 10 + n % 10 == n) by (nonlinear_arith);
        assert forall|i: int| 0 <= i < dec_digits(n).len() implies is_dec_digit(
            #[trigger] dec_digits(n)[i],
        ) by {
            if i < prev.len() {
                assert(dec_digits(n)[i] == prev[i]);
            }
        }
    }
}

/// `{:#x}` is `0x` followed by the hexadecimal digits of the number.
pub proof fn lemma_hex_text_prefix(n: nat)
    ensures
        hex_text(n).len() == hex_digits(n).len() + 2,
        hex_text(n)[0] == 48u8,
        hex_text(n)[1] == 120u8,
        hex_text(n).subrange(2, hex_text(n).len() as int) == hex_digits(n),
{
    assert(hex_text(n).subrange(2, hex_text(n).len() as int) =~= hex_digits(n));
}

/// `{:02x}` is exactly two hexadecimal digits that read back as the byte.
pub proof fn lemma_hex_byte_value(b: u8)
    ensures
        hex_byte_text(b).len() == 2,
        is_hex_digit(hex_byte_text(b)[0]),
        is_hex_digit(hex_byte_text(b)[1]),
        hex_value(hex_byte_text(b)) == b,
{
    let t = hex_byte_text(b);
    lemma_hex_char_value(b as nat / 16);
    lemma_hex_char_value(b as nat % 16);
    assert(t.drop_last() =~= seq![t[0]]);
    assert(t.last() == t[1]);
    let first = seq![t[0]];
    assert(first.len() == 1);
    assert(first.last() == hex_char(b as nat / 16));
    assert(first.drop_last() =~= Seq::<u8>::empty());
    assert(hex_value(Seq::<u8>::empty()) == 0);
    assert(hex_value(first) == b as nat / 16);
    assert(t.drop_last() == first);
    assert(hex_value(t) == (b as nat / 16) * 16 + b as nat % 16);
    assert(seq![t[0]].drop_last() =~= Seq::<u8>::empty());
    assert((b as nat / 16) * 16 + b as nat % 16 == b) by (nonlinear_arith);
}

} // verus!
