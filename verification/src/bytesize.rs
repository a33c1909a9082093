//! The byte-size grammar for the block-size option: a decimal number with
//! an optional binary unit, such as `4 MiB`, `512k` or `65536`.

use vstd::prelude::*;

use vstd::utf8::encode_utf8;

use crate::locator::str_bytes;

verus! {

/// A decimal digit byte.
pub open spec fn is_digit(b: u8) -> bool {
    48 <= b && b <= 57
}

/// A whitespace byte, as the grammar allows between number and unit.
pub open spec fn is_space(b: u8) -> bool {
    b == 32 || b == 9 || b == 10 || b == 11 || b == 12 || b == 13
}

/// The longest digit prefix of a byte string.
pub open spec fn spec_take_digits(s: Seq<u8>) -> Seq<u8>
    decreases s.len(),
{
    if s.len() > 0 && is_digit(s[0]) {
        seq![s[0]] + spec_take_digits(s.drop_first())
    } else {
        Seq::empty()
    }
}

/// The longest whitespace prefix of a byte string.
pub open spec fn spec_take_spaces(s: Seq<u8>) -> Seq<u8>
    decreases s.len(),
{
    if s.len() > 0 && is_space(s[0]) {
        seq![s[0]] + spec_take_spaces(s.drop_first())
    } else {
        Seq::empty()
    }
}

/// The numeric value of a digit string.
pub open spec fn spec_digits_val(ds: Seq<u8>) -> int
    decreases ds.len(),
{
    if ds.len() == 0 {
        0
    } else {
        spec_digits_val(ds.drop_last()) * 10 + (ds.last() - 48)
    }
}

/// The multiplier a unit byte stands for, if it is a unit byte: `k` or `K`
/// for binary kilobytes, `m` or `M` for binary megabytes.
pub open spec fn spec_unit_multiplier(b: u8) -> Option<int> {
    if b == 107 || b == 75 {
        Some(1024)
    } else if b == 109 || b == 77 {
        Some(1048576)
    } else {
        None
    }
}

/// Consumes one optional byte out of two allowed spellings.
pub open spec fn spec_skip_optional(s: Seq<u8>, lower: u8, upper: u8) -> Seq<u8> {
    if s.len() > 0 && (s[0] == lower || s[0] == upper) {
        s.drop_first()
    } else {
        s
    }
}

/// The byte count a size string names: digits, optional whitespace, an
/// optional `k`/`m` unit, an optional `i`, an optional `b`, any case, and
/// nothing else; `None` for other strings and for values that overflow.
pub open spec fn spec_parse_byte_size(s: Seq<u8>) -> Option<u64> {
    let ds = spec_take_digits(s);
    if ds.len() == 0 {
        None
    } else {
        let rest = s.skip(ds.len() as int);
        let rest = rest.skip(spec_take_spaces(rest).len() as int);
        let unit = if rest.len() > 0 && spec_unit_multiplier(rest[0]) is Some {
            spec_unit_multiplier(rest[0])->Some_0
        } else {
            1
        };
        let rest = if rest.len() > 0 && spec_unit_multiplier(rest[0]) is Some {
            rest.drop_first()
        } else {
            rest
        };
        let rest = spec_skip_optional(rest, 105, 73);
        let rest = spec_skip_optional(rest, 98, 66);
        if rest.len() != 0 {
            None
        } else if spec_digits_val(ds) > u64::MAX {
            None
        } else if spec_digits_val(ds) * unit > u64::MAX {
            None
        } else {
            Some((spec_digits_val(ds) * unit) as u64)
        }
    }
}

/// A digit string's value is never negative.
proof fn lemma_val_nonneg(ds: Seq<u8>)
    requires
        forall|i: int| 0 <= i < ds.len() ==> is_digit(#[trigger] ds[i]),
    ensures
        spec_digits_val(ds) >= 0,
    decreases ds.len(),
{
    if ds.len() > 0 {
        assert(forall|i: int|
            0 <= i < ds.drop_last().len() ==> is_digit(#[trigger] ds.drop_last()[i]));
        lemma_val_nonneg(ds.drop_last());
        assert(spec_digits_val(ds.drop_last()) * 10 >= 0) by (nonlinear_arith)
            requires
                spec_digits_val(ds.drop_last()) >= 0,
        ;
    }
}

/// Every digit prefix is worth no more than the whole digit string.
proof fn lemma_val_prefix(ds: Seq<u8>, k: int)
    requires
        0 <= k <= ds.len(),
        forall|i: int| 0 <= i < ds.len() ==> is_digit(#[trigger] ds[i]),
    ensures
        spec_digits_val(ds.take(k)) <= spec_digits_val(ds),
    decreases ds.len() - k,
{
    if k == ds.len() {
        assert(ds.take(k) =~= ds);
    } else {
        assert(ds.take(k + 1).drop_last() =~= ds.take(k));
        assert(ds.take(k + 1).last() == ds[k]);
        assert(forall|i: int| 0 <= i < ds.take(k).len() ==> is_digit(#[trigger] ds.take(k)[i]));
        lemma_val_nonneg(ds.take(k));
        assert(spec_digits_val(ds.take(k)) * 10 >= spec_digits_val(ds.take(k)))
            by (nonlinear_arith)
            requires
                spec_digits_val(ds.take(k)) >= 0,
        ;
        lemma_val_prefix(ds, k + 1);
    }
}

/// The digit prefix is what the digit scan sees.
proof fn lemma_take_digits_char(s: Seq<u8>)
    ensures
        spec_take_digits(s).len() <= s.len(),
        spec_take_digits(s) == s.take(spec_take_digits(s).len() as int),
        forall|i: int| 0 <= i < spec_take_digits(s).len() ==> is_digit(#[trigger] s[i]),
        spec_take_digits(s).len() == s.len() || !is_digit(s[spec_take_digits(s).len() as int]),
    decreases s.len(),
{
    if s.len() > 0 && is_digit(s[0]) {
        lemma_take_digits_char(s.drop_first());
        let d = spec_take_digits(s);
        let dd = spec_take_digits(s.drop_first());
        assert(d == seq![s[0]] + dd);
        assert(d =~= s.take(d.len() as int));
        assert forall|i: int| 0 <= i < d.len() implies is_digit(#[trigger] s[i]) by {
            if i > 0 {
                assert(s[i] == s.drop_first()[i - 1]);
            }
        }
        if d.len() < s.len() {
            assert(s[d.len() as int] == s.drop_first()[dd.len() as int]);
        }
    } else {
        assert(spec_take_digits(s) =~= s.take(0));
    }
}

/// The whitespace prefix is what the whitespace scan sees.
proof fn lemma_take_spaces_char(s: Seq<u8>)
    ensures
        spec_take_spaces(s).len() <= s.len(),
        forall|i: int| 0 <= i < spec_take_spaces(s).len() ==> is_space(#[trigger] s[i]),
        spec_take_spaces(s).len() == s.len() || !is_space(s[spec_take_spaces(s).len() as int]),
    decreases s.len(),
{
    if s.len() > 0 && is_space(s[0]) {
        lemma_take_spaces_char(s.drop_first());
        let d = spec_take_spaces(s);
        let dd = spec_take_spaces(s.drop_first());
        assert(d == seq![s[0]] + dd);
        assert forall|i: int| 0 <= i < d.len() implies is_space(#[trigger] s[i]) by {
            if i > 0 {
                assert(s[i] == s.drop_first()[i - 1]);
            }
        }
        if d.len() < s.len() {
            assert(s[d.len() as int] == s.drop_first()[dd.len() as int]);
        }
    }
}

/// Parses a size string such as `4 MiB` into its byte count; `None` for
/// strings outside the grammar and for values past the machine's range.
#[verifier::rlimit(100)]
pub fn parse_byte_size(text: &str) -> (r: Option<u64>)
    ensures
        r == spec_parse_byte_size(encode_utf8(text@)),
{
    let buf = str_bytes(text);
    let n = buf.len();
    proof {
        lemma_take_digits_char(buf@);
    }
    let ghost ds = spec_take_digits(buf@);
    let mut k: usize = 0;
    let mut acc: u128 = 0;
    while k < n && buf[k] >= 48 && buf[k] <= 57
        invariant
            0 <= k <= n == buf@.len(),
            ds == spec_take_digits(buf@),
            buf@ == encode_utf8(text@),
            k <= ds.len(),
            ds.len() <= buf@.len(),
            forall|i: int| 0 <= i < ds.len() ==> is_digit(#[trigger] buf@[i]),
            ds == buf@.take(ds.len() as int),
            ds.len() == buf@.len() || !is_digit(buf@[ds.len() as int]),
            acc == spec_digits_val(ds.take(k as int)),
            acc <= u64::MAX,
        decreases n - k,
    {
        proof {
            assert(is_digit(buf@[k as int]));
            if k == ds.len() {
                assert(false);
            }
            assert(ds.take((k + 1) as int).drop_last() =~= ds.take(k as int));
            assert(ds.take((k + 1) as int).last() == ds[k as int]);
            assert(buf@.take(ds.len() as int)[k as int] == buf@[k as int]);
            assert(ds[k as int] == buf@[k as int]);
        }
        acc = acc * 10 + ((buf[k] - 48) as u128);
        k = k + 1;
        if acc > 0xffff_ffff_ffff_ffffu128 {
            proof {
                assert(forall|i: int| 0 <= i < ds.len() ==> is_digit(#[trigger] ds[i]));
                lemma_val_prefix(ds, k as int);
                assert(ds.take(ds.len() as int) =~= ds);
                let v = spec_digits_val(ds);
                assert(v > u64::MAX);
                assert(v * 1024 > u64::MAX && v * 1048576 > u64::MAX) by (nonlinear_arith)
                    requires
                        v > u64::MAX,
                ;
                assert(ds.len() > 0);
                assert(spec_parse_byte_size(buf@) is None);
            }
            return None;
        }
    }
    proof {
        if k < ds.len() {
            assert(is_digit(buf@[k as int]));
            assert(false);
        }
        assert(k == ds.len());
        assert(ds.take(k as int) =~= ds);
    }
    if k == 0 {
        return None;
    }
    let mut p = k;
    while p < n && (buf[p] == 32 || buf[p] == 9 || buf[p] == 10 || buf[p] == 11 || buf[p] == 12
        || buf[p] == 13)
        invariant
            k <= p <= n == buf@.len(),
            forall|i: int| k <= i < p ==> is_space(#[trigger] buf@[i]),
        decreases n - p,
    {
        p = p + 1;
    }
    let ghost rest1 = buf@.skip(k as int);
    proof {
        lemma_take_spaces_char(rest1);
        let sp = spec_take_spaces(rest1);
        assert forall|i: int| 0 <= i < (p - k) implies is_space(#[trigger] rest1[i]) by {
            assert(rest1[i] == buf@[k + i]);
        }
        if sp.len() < p - k {
            assert(is_space(rest1[sp.len() as int]));
            assert(false);
        }
        if sp.len() > p - k {
            assert(is_space(rest1[(p - k) as int]));
            assert(buf@[p as int] == rest1[(p - k) as int]);
            assert(false);
        }
        assert(sp.len() == p - k);
        assert(rest1.skip(sp.len() as int) =~= buf@.skip(p as int));
    }
    let mult: u64 = if p < n && (buf[p] == 107 || buf[p] == 75) {
        p = p + 1;
        1024
    } else if p < n && (buf[p] == 109 || buf[p] == 77) {
        p = p + 1;
        1048576
    } else {
        1
    };
    proof {
        assert(buf@.skip((p - 1) as int).drop_first() =~= buf@.skip(p as int));
    }
    if p < n && (buf[p] == 105 || buf[p] == 73) {
        proof {
            assert(buf@.skip(p as int).drop_first() =~= buf@.skip((p + 1) as int));
        }
        p = p + 1;
    }
    if p < n && (buf[p] == 98 || buf[p] == 66) {
        proof {
            assert(buf@.skip(p as int).drop_first() =~= buf@.skip((p + 1) as int));
        }
        p = p + 1;
    }
    if p != n {
        return None;
    }
    proof {
        assert(buf@.skip(n as int).len() == 0);
        lemma_val_nonneg(ds);
    }
    let num = acc as u64;
    let out = match num.checked_mul(mult) {
        Some(v) => Some(v),
        None => {
            proof {
                assert(spec_digits_val(ds) * (mult as int) > u64::MAX) by (nonlinear_arith)
                    requires
                        spec_digits_val(ds) == num as int,
                        num as int * mult as int > u64::MAX,
                ;
            }
            None
        },
    };
    out
}

} // verus!
