//! Hexadecimal digits: their values, the canonical lower-case rendering of
//! an integer, and the parsing of a hex string into an integer.
use vstd::prelude::*;

verus! {

/// Why a hex string was not accepted.
#[derive(Debug, Clone, Copy, PartialEq, Eq, Structural)]
pub enum HexError {
    /// No digits after the optional `0x` prefix.
    Empty,
    /// A character that is not a hexadecimal digit.
    InvalidDigit,
    /// The value does not fit in the target width.
    Overflow,
}

pub open spec fn is_hex_digit(c: char) -> bool {
    ('0' as u32 <= c as u32 && c as u32 <= '9' as u32)
        || ('a' as u32 <= c as u32 && c as u32 <= 'f' as u32)
        || ('A' as u32 <= c as u32 && c as u32 <= 'F' as u32)
}

pub open spec fn hex_digit_value(c: char) -> nat {
    if '0' as u32 <= c as u32 && c as u32 <= '9' as u32 {
        (c as u32 - '0' as u32) as nat
    } else if 'a' as u32 <= c as u32 && c as u32 <= 'f' as u32 {
        (c as u32 - 'a' as u32 + 10) as nat
    } else {
        (c as u32 - 'A' as u32 + 10) as nat
    }
}

pub open spec fn all_hex(s: Seq<char>) -> bool {
    forall|i: int| 0 <= i < s.len() ==> is_hex_digit(#[trigger] s[i])
}

/// The value of a sequence of hex digits, most significant first.
pub open spec fn hex_value(s: Seq<char>) -> nat
    decreases s.len(),
{
    if s.len() == 0 {
        0
    } else {
        hex_value(s.drop_last()) * 16 + hex_digit_value(s.last())
    }
}

pub open spec fn pow16(n: nat) -> nat
    decreases n,
{
    if n == 0 {
        1
    } else {
        16 * pow16((n - 1) as nat)
    }
}

/// The digits of a string after one optional `0x` prefix.
pub open spec fn strip_hex_prefix(s: Seq<char>) -> Seq<char> {
    if s.len() >= 2 && s[0] == '0' && s[1] == 'x' {
        s.subrange(2, s.len() as int)
    } else {
        s
    }
}

/// The result of reading a hex string, with an optional `0x` prefix, as a `usize`.
pub open spec fn parse_hex_usize(s: Seq<char>) -> Result<usize, HexError> {
    let d = strip_hex_prefix(s);
    if d.len() == 0 {
        Err(HexError::Empty)
    } else if !all_hex(d) {
        Err(HexError::InvalidDigit)
    } else if hex_value(d) > usize::MAX {
        Err(HexError::Overflow)
    } else {
        Ok(hex_value(d) as usize)
    }
}

pub open spec fn hex_alphabet() -> Seq<char> {
    seq!['0', '1', '2', '3', '4', '5', '6', '7', '8', '9', 'a', 'b', 'c', 'd', 'e', 'f']
}

/// The lower-case digits of `n`, most significant first, without leading zeros.
pub open spec fn hex_digits(n: nat) -> Seq<char>
    decreases n,
{
    if n < 16 {
        seq![hex_alphabet()[n as int]]
    } else {
        hex_digits(n / 16).push(hex_alphabet()[(n % 16) as int])
    }
}

/// The last `k` lower-case digits of `n`, with leading zeros.
pub open spec fn padded_hex_digits(n: nat, k: nat) -> Seq<char>
    decreases k,
{
    if k == 0 {
        Seq::empty()
    } else {
        padded_hex_digits(n / 16, (k - 1) as nat).push(hex_alphabet()[(n % 16) as int])
    }
}

/// Digits of a number above `16^k` split into its high part and `k` padded digits.
pub proof fn lemma_hex_digits_split(h: nat, l: nat, k: nat)
    requires
        h > 0,
        l < pow16(k),
    ensures
        hex_digits(h * pow16(k) + l) == hex_digits(h) + padded_hex_digits(l, k),
    decreases k,
{
    if k == 0 {
        assert(l == 0);
        assert(hex_digits(h) + Seq::<char>::empty() =~= hex_digits(h));
    } else {
        let p = pow16((k - 1) as nat);
        assert(pow16(k) == 16 * p);
        let n = h * pow16(k) + l;
        assert(n / 16 == h * p + l / 16 && n % 16 == l % 16 && l / 16 < p && n >= 16) by (nonlinear_arith)
            requires
                n == h * (16 * p) + l,
                l < 16 * p,
                h > 0,
                p >= 1,
        ;
        lemma_pow16_positive((k - 1) as nat);
        lemma_hex_digits_split(h, l / 16, (k - 1) as nat);
        assert(hex_digits(n) =~= hex_digits(h) + padded_hex_digits(l, k));
    }
}

pub proof fn lemma_pow16_positive(k: nat)
    ensures
        pow16(k) >= 1,
    decreases k,
{
    if k > 0 {
        lemma_pow16_positive((k - 1) as nat);
    }
}

/// The canonical rendering of `n`: `0x` and its lower-case digits.
pub open spec fn canonical_hex(n: nat) -> Seq<char> {
    seq!['0', 'x'] + hex_digits(n)
}

pub proof fn lemma_hex_value_prefix_monotone(s: Seq<char>, k: nat)
    requires
        k <= s.len(),
    ensures
        hex_value(s.take(k as int)) <= hex_value(s),
    decreases s.len() - k,
{
    if k < s.len() {
        lemma_hex_value_prefix_monotone(s, k + 1);
        assert(s.take(k as int + 1).drop_last() =~= s.take(k as int));
    } else {
        assert(s.take(k as int) =~= s);
    }
}

pub proof fn lemma_hex_value_bound(s: Seq<char>)
    requires
        all_hex(s),
    ensures
        hex_value(s) < pow16(s.len()),
    decreases s.len(),
{
    if s.len() > 0 {
        let t = s.drop_last();
        assert forall|i: int| 0 <= i < t.len() implies is_hex_digit(#[trigger] t[i]) by {
            assert(t[i] == s[i]);
        }
        lemma_hex_value_bound(t);
        assert(is_hex_digit(s[s.len() - 1]));
    }
}

pub proof fn lemma_hex_value_concat(a: Seq<char>, b: Seq<char>)
    ensures
        hex_value(a + b) == hex_value(a) * pow16(b.len()) + hex_value(b),
    decreases b.len(),
{
    if b.len() == 0 {
        assert(a + b =~= a);
        assert(pow16(0) == 1);
        assert(hex_value(b) == 0);
    } else {
        let b1 = b.drop_last();
        assert((a + b).drop_last() =~= a + b1);
        assert((a + b).last() == b.last());
        lemma_hex_value_concat(a, b1);
        assert(hex_value(a + b) == hex_value(a + b1) * 16 + hex_digit_value(b.last()));
        assert(hex_value(b) == hex_value(b1) * 16 + hex_digit_value(b.last()));
        let x = hex_value(a);
        let p = pow16(b1.len());
        let y = hex_value(b1);
        let d = hex_digit_value(b.last());
        assert(pow16(b.len()) == 16 * p);
        assert((x * p + y) * 16 + d == x * (16 * p) + (y * 16 + d)) by (nonlinear_arith);
    }
}

proof fn lemma_alphabet_digit(d: nat)
    requires
        d < 16,
    ensures
        is_hex_digit(hex_alphabet()[d as int]),
        hex_digit_value(hex_alphabet()[d as int]) == d,
{
}

/// The digits of `n` are hex digits and read back as `n`.
pub proof fn lemma_hex_digits_value(n: nat)
    ensures
        all_hex(hex_digits(n)),
        hex_value(hex_digits(n)) == n,
        hex_digits(n).len() > 0,
    decreases n,
{
    if n < 16 {
        lemma_alphabet_digit(n);
        let s = hex_digits(n);
        assert(s.drop_last() =~= Seq::<char>::empty());
        assert(s.last() == hex_alphabet()[n as int]);
        assert(hex_value(s) == hex_value(s.drop_last()) * 16 + hex_digit_value(s.last()));
    } else {
        lemma_hex_digits_value(n / 16);
        lemma_alphabet_digit(n % 16);
        let s = hex_digits(n);
        assert(s.drop_last() =~= hex_digits(n / 16));
        assert(s.last() == hex_alphabet()[(n % 16) as int]);
        assert(hex_value(s) == hex_value(s.drop_last()) * 16 + hex_digit_value(s.last()));
        assert(all_hex(s)) by {
            assert forall|i: int| 0 <= i < s.len() implies is_hex_digit(#[trigger] s[i]) by {
                if i < s.len() - 1 {
                    assert(s[i] == hex_digits(n / 16)[i]);
                }
            }
        }
    }
}

/// A number below `16^k` has at most `k` digits.
pub proof fn lemma_hex_digits_len(n: nat, k: nat)
    requires
        k >= 1,
        n < pow16(k),
    ensures
        hex_digits(n).len() <= k,
    decreases n,
{
    if n >= 16 {
        let p = pow16((k - 1) as nat);
        assert(pow16(k) == 16 * p);
        if k == 1 {
            assert(pow16(0) == 1);
        }
        assert(n / 16 < p) by (nonlinear_arith)
            requires
                n < 16 * p,
        ;
        lemma_hex_digits_len(n / 16, (k - 1) as nat);
    }
}

/// Reading the canonical rendering of `n` gives `n` back.
pub proof fn lemma_parse_canonical(n: usize)
    ensures
        parse_hex_usize(canonical_hex(n as nat)) == Ok::<usize, HexError>(n),
{
    lemma_hex_digits_value(n as nat);
    let s = canonical_hex(n as nat);
    assert(s.subrange(2, s.len() as int) =~= hex_digits(n as nat));
}

/// Characters `from..to` of `s` all are hex digits.
pub fn check_hex_digits(s: &str, from: usize, to: usize) -> (r: bool)
    requires
        from <= to <= s@.len(),
    ensures
        r == all_hex(s@.subrange(from as int, to as int)),
{
    let mut i: usize = from;
    while i < to
        invariant
            from <= i <= to <= s@.len(),
            forall|j: int| from <= j < i ==> is_hex_digit(#[trigger] s@[j]),
        decreases to - i,
    {
        let c = s.get_char(i);
        let u = c as u32;
        if !((48 <= u && u <= 57) || (97 <= u && u <= 102) || (65 <= u && u <= 70)) {
            assert(!is_hex_digit(s@.subrange(from as int, to as int)[i - from]));
            return false;
        }
        i = i + 1;
    }
    assert forall|j: int| 0 <= j < to - from implies is_hex_digit(
        #[trigger] s@.subrange(from as int, to as int)[j],
    ) by {
        assert(s@.subrange(from as int, to as int)[j] == s@[from + j]);
    }
    true
}

/// The value of one hex digit.
pub fn digit_value(c: char) -> (r: u8)
    requires
        is_hex_digit(c),
    ensures
        r as nat == hex_digit_value(c),
        r < 16,
{
    let u = c as u32;
    if u <= 57 {
        (u - 48) as u8
    } else if u <= 70 {
        (u - 65 + 10) as u8
    } else {
        (u - 97 + 10) as u8
    }
}

/// Length of the `0x` prefix that starts `s`: 2 or 0.
pub fn hex_prefix_len(s: &str) -> (r: usize)
    ensures
        r <= s@.len(),
        strip_hex_prefix(s@) == s@.subrange(r as int, s@.len() as int),
{
    let n = s.unicode_len();
    if n >= 2 && s.get_char(0) == '0' && s.get_char(1) == 'x' {
        2
    } else {
        assert(s@.subrange(0, s@.len() as int) =~= s@);
        0
    }
}

/// Reads a hex string, with an optional `0x` prefix, as a `usize`.
pub fn hex_string_try_into_usize(hex_string: &str) -> (r: Result<usize, HexError>)
    ensures
        r == parse_hex_usize(hex_string@),
{
    let n = hex_string.unicode_len();
    let start = hex_prefix_len(hex_string);
    let ghost d = strip_hex_prefix(hex_string@);
    if start == n {
        return Err(HexError::Empty);
    }
    if !check_hex_digits(hex_string, start, n) {
        return Err(HexError::InvalidDigit);
    }
    let mut acc: usize = 0;
    let mut i: usize = start;
    while i < n
        invariant
            start <= i <= n == hex_string@.len(),
            d == hex_string@.subrange(start as int, n as int),
            d == strip_hex_prefix(hex_string@),
            all_hex(d),
            acc as nat == hex_value(d.take(i - start)),
        decreases n - i,
    {
        let ghost k = i - start;
        assert(is_hex_digit(d[k as int]));
        assert(d[k as int] == hex_string@[i as int]);
        let v = digit_value(hex_string.get_char(i));
        assert(d.take(k + 1).drop_last() =~= d.take(k));
        assert(d.take(k + 1).last() == d[k as int]);
        if acc > (usize::MAX - v as usize) / 16 {
            assert(hex_value(d.take(k + 1)) > usize::MAX) by (nonlinear_arith)
                requires
                    hex_value(d.take(k + 1)) == acc * 16 + v,
                    acc > (usize::MAX - v as usize) / 16,
                    v < 16,
            ;
            proof {
                lemma_hex_value_prefix_monotone(d, (k + 1) as nat);
            }
            return Err(HexError::Overflow);
        }
        assert(acc * 16 + v <= usize::MAX) by (nonlinear_arith)
            requires
                acc <= (usize::MAX - v as usize) / 16,
                v < 16,
        ;
        acc = acc * 16 + v as usize;
        i = i + 1;
    }
    assert(d.take(d.len() as int) =~= d);
    Ok(acc)
}

/// One lower-case hex digit as a string.
fn digit_str(d: usize) -> (r: &'static str)
    requires
        d < 16,
    ensures
        r@ == seq![hex_alphabet()[d as int]],
{
    proof {
        reveal_strlit("0");
        reveal_strlit("1");
        reveal_strlit("2");
        reveal_strlit("3");
        reveal_strlit("4");
        reveal_strlit("5");
        reveal_strlit("6");
        reveal_strlit("7");
        reveal_strlit("8");
        reveal_strlit("9");
        reveal_strlit("a");
        reveal_strlit("b");
        reveal_strlit("c");
        reveal_strlit("d");
        reveal_strlit("e");
        reveal_strlit("f");
    }
    let r = match d {
        0 => "0",
        1 => "1",
        2 => "2",
        3 => "3",
        4 => "4",
        5 => "5",
        6 => "6",
        7 => "7",
        8 => "8",
        9 => "9",
        10 => "a",
        11 => "b",
        12 => "c",
        13 => "d",
        14 => "e",
        _ => "f",
    };
    assert(r@ =~= seq![hex_alphabet()[d as int]]);
    r
}

fn append_hex_digits(s: &mut String, n: usize)
    ensures
        final(s)@ == old(s)@ + hex_digits(n as nat),
    decreases n,
{
    if n >= 16 {
        append_hex_digits(s, n / 16);
    }
    s.append(digit_str(n % 16));
    assert(final(s)@ =~= old(s)@ + hex_digits(n as nat));
}

/// Appends the lower-case digits of `n` to `s`.
pub fn append_hex_digits_u128(s: &mut String, n: u128)
    ensures
        final(s)@ == old(s)@ + hex_digits(n as nat),
    decreases n,
{
    if n >= 16 {
        append_hex_digits_u128(s, n / 16);
    }
    s.append(digit_str((n % 16) as usize));
    assert(final(s)@ =~= old(s)@ + hex_digits(n as nat));
}

/// Appends the last `k` lower-case digits of `n` to `s`, with leading zeros.
pub fn append_padded_hex_digits(s: &mut String, n: u128, k: u32)
    ensures
        final(s)@ == old(s)@ + padded_hex_digits(n as nat, k as nat),
    decreases k,
{
    if k > 0 {
        append_padded_hex_digits(s, n / 16, k - 1);
        s.append(digit_str((n % 16) as usize));
        assert(final(s)@ =~= old(s)@ + padded_hex_digits(n as nat, k as nat));
    } else {
        assert(final(s)@ =~= old(s)@ + padded_hex_digits(n as nat, k as nat));
    }
}

/// The canonical rendering of `value`: `0x` and its lower-case hex digits.
pub fn usize_to_hex(value: usize) -> (r: String)
    ensures
        r@ == canonical_hex(value as nat),
{
    proof {
        reveal_strlit("0x");
    }
    let mut s = String::from_str("0x");
    append_hex_digits(&mut s, value);
    assert(s@ =~= canonical_hex(value as nat));
    s
}

} // verus!
