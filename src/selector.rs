//! Entry point selectors: field elements read from hex text.
use vstd::prelude::*;

use crate::error::StarknetApiError;
use crate::hex::{
    all_hex, check_hex_digits, digit_value, append_hex_digits_u128, lemma_hex_digits_len, lemma_hex_digits_value, append_padded_hex_digits, canonical_hex, hex_prefix_len,
    hex_value, is_hex_digit, lemma_hex_digits_split, lemma_hex_value_bound,
    lemma_hex_value_concat, pow16, strip_hex_prefix, HexError,
};

verus! {

/// Bound of the high half of a selector.
pub const HIGH_BOUND: u128 = 0x1000_0000_0000_0000_0000_0000_0000_0000;

pub open spec fn two_pow_128() -> nat {
    u128::MAX as nat + 1
}

/// Bound of a selector's value: a field element fits in 252 bits.
pub open spec fn selector_bound() -> nat {
    HIGH_BOUND as nat * two_pow_128()
}

/// Most hex digits a selector may be written with.
pub const MAX_SELECTOR_DIGITS: usize = 64;

/// The identifier of an entry point: a field element, held as two halves.
#[derive(Debug, Clone, Copy, Default, PartialEq, Eq, Structural, Hash, PartialOrd, Ord)]
pub struct EntryPointSelector {
    pub high: u128,
    pub low: u128,
}

impl EntryPointSelector {
    pub open spec fn value(self) -> nat {
        self.high as nat * two_pow_128() + self.low as nat
    }

    pub open spec fn wf(self) -> bool {
        self.high < HIGH_BOUND
    }
}

/// What reading a selector from hex text, with an optional `0x` prefix, gives.
pub open spec fn parse_selector(s: Seq<char>) -> Result<nat, StarknetApiError> {
    let d = strip_hex_prefix(s);
    if d.len() == 0 {
        Err(StarknetApiError::ParseInt(HexError::Empty))
    } else if !all_hex(d) {
        Err(StarknetApiError::ParseInt(HexError::InvalidDigit))
    } else if d.len() > MAX_SELECTOR_DIGITS {
        Err(StarknetApiError::ParseInt(HexError::Overflow))
    } else if hex_value(d) >= selector_bound() {
        Err(StarknetApiError::OutOfRange)
    } else {
        Ok(hex_value(d))
    }
}

proof fn lemma_pow16_32()
    ensures
        pow16(32) == two_pow_128(),
{
    reveal_with_fuel(pow16, 33);
}

proof fn lemma_pow16_monotone(a: nat, b: nat)
    requires
        a <= b,
    ensures
        pow16(a) <= pow16(b),
    decreases b,
{
    if a < b {
        lemma_pow16_monotone(a, (b - 1) as nat);
    }
}

/// The value of hex digits `from..to` of `s`, at most 32 of them.
fn parse_hex_u128(s: &str, from: usize, to: usize) -> (r: u128)
    requires
        from <= to <= s@.len(),
        to - from <= 32,
        all_hex(s@.subrange(from as int, to as int)),
    ensures
        r as nat == hex_value(s@.subrange(from as int, to as int)),
{
    let ghost d = s@.subrange(from as int, to as int);
    let mut acc: u128 = 0;
    let mut i: usize = from;
    while i < to
        invariant
            from <= i <= to <= s@.len(),
            to - from <= 32,
            d == s@.subrange(from as int, to as int),
            all_hex(d),
            acc as nat == hex_value(d.take(i - from)),
        decreases to - i,
    {
        let ghost k = i - from;
        let c = s.get_char(i);
        assert(c == d[k as int]);
        assert(is_hex_digit(c));
        let v = digit_value(c) as u128;
        let ghost t = d.take(k + 1);
        assert(t.drop_last() =~= d.take(k));
        assert(t.last() == c);
        assert(hex_value(t) == acc * 16 + v);
        proof {
            assert forall|j: int| 0 <= j < t.len() implies is_hex_digit(#[trigger] t[j]) by {
                assert(t[j] == d[j]);
            }
            lemma_hex_value_bound(t);
            lemma_pow16_monotone(t.len(), 32);
            lemma_pow16_32();
        }
        acc = acc * 16 + v;
        i = i + 1;
    }
    assert(d.take(d.len() as int) =~= d);
    acc
}

/// Reading the canonical rendering of a selector gives its value back.
pub proof fn lemma_selector_round_trip(sel: EntryPointSelector)
    requires
        sel.wf(),
    ensures
        parse_selector(canonical_hex(sel.value())) == Ok::<nat, StarknetApiError>(sel.value()),
{
    let v = sel.value();
    assert(v < selector_bound()) by (nonlinear_arith)
        requires
            v == sel.high as nat * two_pow_128() + sel.low as nat,
            sel.high < HIGH_BOUND,
            sel.low < two_pow_128(),
            selector_bound() == HIGH_BOUND as nat * two_pow_128(),
    ;
    lemma_pow16_32();
    assert(pow16(64) == pow16(32) * pow16(32)) by {
        lemma_pow16_add(32, 32);
    }
    assert(selector_bound() < pow16(64)) by (nonlinear_arith)
        requires
            selector_bound() == HIGH_BOUND as nat * two_pow_128(),
            pow16(64) == two_pow_128() * two_pow_128(),
            (HIGH_BOUND as nat) < two_pow_128(),
    ;
    lemma_hex_digits_len(v, 64);
    lemma_hex_digits_value(v);
    let s = canonical_hex(v);
    assert(s.subrange(2, s.len() as int) =~= crate::hex::hex_digits(v));
}

proof fn lemma_pow16_add(a: nat, b: nat)
    ensures
        pow16(a + b) == pow16(a) * pow16(b),
    decreases b,
{
    if b > 0 {
        lemma_pow16_add(a, (b - 1) as nat);
        assert(pow16(a + b) == 16 * pow16((a + b - 1) as nat));
        assert(pow16(b) == 16 * pow16((b - 1) as nat));
        assert(16 * (pow16(a) * pow16((b - 1) as nat)) == pow16(a) * (16 * pow16((b - 1) as nat))) by (nonlinear_arith);
    } else {
        assert(pow16(0) == 1);
        assert(a + b == a);
    }
}

impl EntryPointSelector {
    /// The canonical rendering of the selector: `0x` and the lower-case hex
    /// digits of its value.
    pub fn to_hex(&self) -> (r: String)
        ensures
            r@ == canonical_hex(self.value()),
    {
        proof {
            reveal_strlit("0x");
            lemma_pow16_32();
        }
        let mut s = String::from_str("0x");
        if self.high == 0 {
            append_hex_digits_u128(&mut s, self.low);
        } else {
            append_hex_digits_u128(&mut s, self.high);
            append_padded_hex_digits(&mut s, self.low, 32);
            proof {
                lemma_hex_digits_split(self.high as nat, self.low as nat, 32);
            }
        }
        assert(s@ =~= canonical_hex(self.value()));
        s
    }

    /// Reads a selector from hex text with an optional `0x` prefix: at most
    /// 64 digits, with a value below 2^252.
    pub fn from_hex_str(s: &str) -> (r: Result<EntryPointSelector, StarknetApiError>)
        ensures
            match parse_selector(s@) {
                Ok(v) => r is Ok && r.unwrap().value() == v && r.unwrap().wf(),
                Err(e) => r == Err::<EntryPointSelector, StarknetApiError>(e),
            },
    {
        let n = s.unicode_len();
        let start = hex_prefix_len(s);
        let ghost d = strip_hex_prefix(s@);
        if start == n {
            return Err(StarknetApiError::ParseInt(HexError::Empty));
        }
        if !check_hex_digits(s, start, n) {
            return Err(StarknetApiError::ParseInt(HexError::InvalidDigit));
        }
        if n - start > MAX_SELECTOR_DIGITS {
            return Err(StarknetApiError::ParseInt(HexError::Overflow));
        }
        let split = if n - start > 32 { n - 32 } else { start };
        let ghost a = s@.subrange(start as int, split as int);
        let ghost b = s@.subrange(split as int, n as int);
        assert(d =~= a + b);
        assert forall|j: int| 0 <= j < a.len() implies is_hex_digit(#[trigger] a[j]) by {
            assert(a[j] == d[j]);
        }
        assert forall|j: int| 0 <= j < b.len() implies is_hex_digit(#[trigger] b[j]) by {
            assert(b[j] == d[a.len() + j]);
        }
        let high = parse_hex_u128(s, start, split);
        let low = parse_hex_u128(s, split, n);
        proof {
            lemma_hex_value_concat(a, b);
            lemma_hex_value_bound(b);
            lemma_pow16_monotone(b.len(), 32);
            lemma_pow16_32();
            if split == start {
                assert(a.len() == 0);
                assert(hex_value(a) == 0);
            } else {
                assert(b.len() == 32);
            }
            assert(hex_value(a) * pow16(b.len()) == hex_value(a) * two_pow_128());
        }
        let sel = EntryPointSelector { high, low };
        assert(sel.value() == hex_value(d));
        if high >= HIGH_BOUND {
            assert(sel.value() >= selector_bound()) by (nonlinear_arith)
                requires
                    sel.value() == high as nat * two_pow_128() + low as nat,
                    high >= HIGH_BOUND,
            ;
            return Err(StarknetApiError::OutOfRange);
        }
        assert(sel.value() < selector_bound()) by (nonlinear_arith)
            requires
                sel.value() == high as nat * two_pow_128() + low as nat,
                high < HIGH_BOUND,
                low < two_pow_128(),
        ;
        Ok(sel)
    }
}

} // verus!
