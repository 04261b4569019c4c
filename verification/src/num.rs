//! Decimal numerals as byte sequences: printing a length for the
//! `Content-Length` header, and reading a declared `Content-Length` value.
use vstd::prelude::*;

verus! {

/// The decimal numeral of a non-negative integer, most significant digit first.
pub open spec fn dec_bytes(n: int) -> Seq<u8>
    recommends
        n >= 0,
    decreases n,
{
    if n < 10 {
        seq![(n + '0' as int) as u8]
    } else {
        dec_bytes(n / 10).push((n % 10 + '0' as int) as u8)
    }
}

/// Whether `s` is a non-empty sequence of decimal digit bytes.
pub open spec fn is_dec(s: Seq<u8>) -> bool {
    s.len() > 0 && forall|i: int| 0 <= i < s.len() ==> '0' as u8 <= #[trigger] s[i] <= '9' as u8
}

/// The value of a sequence of decimal digit bytes.
pub open spec fn dec_val(s: Seq<u8>) -> int
    recommends
        is_dec(s),
    decreases s.len(),
{
    if s.len() == 0 {
        0
    } else {
        dec_val(s.drop_last()) * 10 + (s.last() - '0' as u8)
    }
}

/// The value read from `s`, if `s` is a numeral whose value fits in `usize`.
pub open spec fn dec_opt(s: Seq<u8>) -> Option<usize> {
    if is_dec(s) && dec_val(s) <= usize::MAX as int {
        Some(dec_val(s) as usize)
    } else {
        None
    }
}

/// The printed numeral of `n` reads back as `n`.
pub proof fn lemma_dec_bytes_val(n: int)
    requires
        n >= 0,
    ensures
        is_dec(dec_bytes(n)),
        dec_val(dec_bytes(n)) == n,
    decreases n,
{
    if n < 10 {
        assert(dec_bytes(n) =~= seq![(n + '0' as int) as u8]);
        assert(dec_bytes(n).drop_last() =~= Seq::<u8>::empty());
        assert(dec_val(Seq::<u8>::empty()) == 0);
        assert(dec_val(dec_bytes(n)) == n);
    } else {
        lemma_dec_bytes_val(n / 10);
        let d = (n % 10 + '0' as int) as u8;
        assert(dec_bytes(n) =~= dec_bytes(n / 10).push(d));
        assert(dec_bytes(n).drop_last() =~= dec_bytes(n / 10));
        assert(dec_bytes(n).last() == d);
        vstd::arithmetic::div_mod::lemma_fundamental_div_mod(n, 10);
        assert(dec_val(dec_bytes(n)) == dec_val(dec_bytes(n / 10)) * 10 + (d - '0' as u8));
        assert(forall|i: int|
            0 <= i < dec_bytes(n).len() - 1 ==> dec_bytes(n)[i] == #[trigger] dec_bytes(
                n / 10,
            )[i]);
    }
}

/// The decimal digits of `n`, most significant first.
pub fn dec_digits(n: usize) -> (r: Vec<u8>)
    ensures
        r@ == dec_bytes(n as int),
    decreases n,
{
    if n < 10 {
        let mut r: Vec<u8> = Vec::new();
        r.push(n as u8 + 48);
        proof {
            assert(r@ =~= dec_bytes(n as int));
        }
        r
    } else {
        let mut r = dec_digits(n / 10);
        r.push((n % 10) as u8 + 48);
        r
    }
}

/// Extending a numeral already too large for `usize` keeps it too large.
proof fn lemma_dec_val_grows(s: Seq<u8>, i: int)
    requires
        0 <= i <= s.len(),
        is_dec(s),
        dec_val(s.subrange(0, i)) > usize::MAX as int,
    ensures
        dec_val(s) > usize::MAX as int,
    decreases s.len() - i,
{
    if i == s.len() {
        assert(s.subrange(0, i) =~= s);
    } else {
        assert(s.subrange(0, i + 1).drop_last() =~= s.subrange(0, i));
        assert(s.subrange(0, i + 1).last() == s[i]);
        lemma_dec_val_grows(s, i + 1);
    }
}

/// Reads a decimal numeral: `Some` exactly when every byte of `s` is a digit,
/// `s` is non-empty, and the value fits in `usize`.
pub fn parse_dec(s: &[u8]) -> (r: Option<usize>)
    ensures
        r == dec_opt(s@),
{
    if s.len() == 0 {
        return None;
    }
    let mut acc: usize = 0;
    let mut i: usize = 0;
    while i < s.len()
        invariant
            0 < s@.len(),
            0 <= i <= s@.len(),
            forall|j: int| 0 <= j < i ==> '0' as u8 <= #[trigger] s@[j] <= '9' as u8,
            acc as int == dec_val(s@.subrange(0, i as int)),
        decreases s@.len() - i,
    {
        let c = s[i];
        if c < 48 || c > 57 {
            return None;
        }
        let d = (c - 48) as usize;
        proof {
            assert(s@.subrange(0, i + 1).drop_last() =~= s@.subrange(0, i as int));
            assert(s@.subrange(0, i + 1).last() == s@[i as int]);
        }
        if acc > (usize::MAX - d) / 10 {
            proof {
                vstd::arithmetic::div_mod::lemma_fundamental_div_mod(
                    (usize::MAX - d) as int,
                    10,
                );
                assert(dec_val(s@.subrange(0, i + 1)) > usize::MAX as int);
                if is_dec(s@) {
                    lemma_dec_val_grows(s@, i + 1);
                }
            }
            return None;
        }
        proof {
            vstd::arithmetic::div_mod::lemma_fundamental_div_mod((usize::MAX - d) as int, 10);
        }
        acc = acc * 10 + d;
        i += 1;
    }
    proof {
        assert(s@.subrange(0, s@.len() as int) =~= s@);
        assert(is_dec(s@));
    }
    Some(acc)
}

} // verus!
