//! Wire format of a counter update: the ASCII text `"Count: "` followed by
//! the value in decimal.

use vstd::prelude::*;

verus! {

/// Number of bytes in the frame prefix `"Count: "`.
pub const PREFIX_LEN: usize = 7;

/// The frame prefix `"Count: "` as bytes.
pub open spec fn prefix() -> Seq<u8> {
    seq![67u8, 111u8, 117u8, 110u8, 116u8, 58u8, 32u8]
}

pub open spec fn is_digit(c: u8) -> bool {
    48 <= c <= 57
}

pub open spec fn all_digits(s: Seq<u8>) -> bool {
    forall|i: int| 0 <= i < s.len() ==> #[trigger] is_digit(s[i])
}

/// The number that a string of decimal digits denotes, most significant first.
pub open spec fn digits_value(s: Seq<u8>) -> nat
    decreases s.len(),
{
    if s.len() == 0 {
        0
    } else {
        digits_value(s.drop_last()) * 10 + (s.last() - 48) as nat
    }
}

/// The shortest decimal representation of `n`.
pub open spec fn decimal(n: nat) -> Seq<u8>
    decreases n,
{
    if n < 10 {
        seq![(48 + n) as u8]
    } else {
        decimal(n / 10).push((48 + n % 10) as u8)
    }
}

/// The frame that carries `v`.
pub open spec fn frame_of(v: u32) -> Seq<u8> {
    prefix() + decimal(v as nat)
}

/// What follows the prefix, without one leading `'+'` sign if there is one.
pub open spec fn unsigned_part(b: Seq<u8>) -> Seq<u8> {
    let rest = b.skip(PREFIX_LEN as int);
    if rest.len() > 0 && rest[0] == 43u8 {
        rest.skip(1)
    } else {
        rest
    }
}

/// The value a frame carries: the prefix, an optional `'+'`, then one or
/// more decimal digits denoting a number that fits in a `u32`. Anything
/// else carries nothing.
pub open spec fn value_of_frame(b: Seq<u8>) -> Option<u32> {
    if b.len() >= PREFIX_LEN && b.take(PREFIX_LEN as int) == prefix() {
        let d = unsigned_part(b);
        if d.len() > 0 && all_digits(d) && digits_value(d) <= u32::MAX {
            Some(digits_value(d) as u32)
        } else {
            None
        }
    } else {
        None
    }
}

/// `k` ASCII zeros.
pub open spec fn zeros(k: nat) -> Seq<u8> {
    Seq::new(k, |i: int| 48u8)
}

/// The frame of `v` written with an optional `'+'` sign and `z` leading zeros.
pub open spec fn padded_frame(plus: bool, z: nat, v: u32) -> Seq<u8> {
    prefix() + (if plus {
        seq![43u8]
    } else {
        Seq::<u8>::empty()
    }) + zeros(z) + decimal(v as nat)
}

proof fn lemma_decimal_digits(n: nat)
    ensures
        decimal(n).len() > 0,
        all_digits(decimal(n)),
        digits_value(decimal(n)) == n,
    decreases n,
{
    let d = decimal(n);
    if n >= 10 {
        lemma_decimal_digits(n / 10);
        assert(d.drop_last() =~= decimal(n / 10));
        assert(d.last() - 48 == n % 10);
        assert((n / 10) * 10 + n % 10 == n) by (nonlinear_arith);
    } else {
        assert(d.drop_last() =~= Seq::<u8>::empty());
        assert(digits_value(d.drop_last()) == 0);
    }
    assert(digits_value(d) == digits_value(d.drop_last()) * 10 + (d.last() - 48) as nat);
}

proof fn lemma_prefix_value_le(s: Seq<u8>, k: int)
    requires
        all_digits(s),
        0 <= k <= s.len(),
    ensures
        digits_value(s.take(k)) <= digits_value(s),
    decreases s.len(),
{
    if k == s.len() {
        assert(s.take(k) =~= s);
    } else {
        let t = s.drop_last();
        assert(all_digits(t)) by {
            assert forall|i: int| 0 <= i < t.len() implies is_digit(t[i]) by {
                assert(t[i] == s[i]);
            }
        }
        lemma_prefix_value_le(t, k);
        assert(t.take(k) =~= s.take(k));
    }
}

proof fn lemma_zero_value(d: Seq<u8>)
    requires
        all_digits(d),
        digits_value(d) == 0,
    ensures
        d =~= zeros(d.len()),
    decreases d.len(),
{
    if d.len() > 0 {
        let t = d.drop_last();
        assert(is_digit(d[d.len() - 1]));
        assert(all_digits(t)) by {
            assert forall|i: int| 0 <= i < t.len() implies is_digit(t[i]) by {
                assert(t[i] == d[i]);
            }
        }
        assert(digits_value(t) * 10 + (d.last() - 48) as nat == 0);
        lemma_zero_value(t);
        assert(d =~= t.push(d.last()));
    }
}

/// A non-empty digit string is its value's shortest decimal after leading zeros.
proof fn lemma_digits_shape(d: Seq<u8>)
    requires
        all_digits(d),
        d.len() > 0,
    ensures
        decimal(digits_value(d)).len() <= d.len(),
        d =~= zeros((d.len() - decimal(digits_value(d)).len()) as nat) + decimal(digits_value(d)),
    decreases d.len(),
{
    let t = d.drop_last();
    let c = d.last();
    assert(is_digit(d[d.len() - 1]));
    assert(all_digits(t)) by {
        assert forall|i: int| 0 <= i < t.len() implies is_digit(t[i]) by {
            assert(t[i] == d[i]);
        }
    }
    let v = digits_value(d);
    assert(v == digits_value(t) * 10 + (c - 48) as nat);
    assert(d =~= t.push(c));
    if digits_value(t) == 0 {
        lemma_zero_value(t);
        assert(decimal(v) =~= seq![c]);
    } else {
        lemma_digits_shape(t);
        let w = digits_value(t);
        assert(v / 10 == w && v % 10 == (c - 48) as nat) by (nonlinear_arith)
            requires
                v == w * 10 + (c - 48) as nat,
                0 <= c - 48 < 10,
        ;
        assert(decimal(v) =~= decimal(w).push(c));
    }
}

/// Decoding an encoded value gives the value back.
pub proof fn lemma_round_trip(v: u32)
    ensures
        value_of_frame(frame_of(v)) == Some(v),
{
    let b = frame_of(v);
    lemma_decimal_digits(v as nat);
    assert(b.take(PREFIX_LEN as int) =~= prefix());
    assert(b.skip(PREFIX_LEN as int) =~= decimal(v as nat));
    assert(is_digit(decimal(v as nat)[0]));
    assert(unsigned_part(b) =~= decimal(v as nat));
}

/// A payload that is not a counter frame (the prefix, an optional `'+'`,
/// leading zeros, then a value's decimal) decodes to nothing.
pub proof fn lemma_foreign_payload_ignored(b: Seq<u8>)
    requires
        forall|plus: bool, z: nat, v: u32| #[trigger] padded_frame(plus, z, v) != b,
    ensures
        value_of_frame(b) == None::<u32>,
{
    if let Some(v) = value_of_frame(b) {
        let d = unsigned_part(b);
        let rest = b.skip(PREFIX_LEN as int);
        let plus = rest.len() > 0 && rest[0] == 43u8;
        lemma_digits_shape(d);
        assert(digits_value(d) == v as nat);
        let z = (d.len() - decimal(v as nat).len()) as nat;
        assert(b =~= padded_frame(plus, z, v)) by {
            assert(b =~= b.take(PREFIX_LEN as int) + rest);
            if plus {
                assert(rest =~= seq![43u8] + d);
            } else {
                assert(rest =~= d);
            }
        }
        assert(padded_frame(plus, z, v) != b);
    }
}

pub open spec fn pow10(k: nat) -> nat
    decreases k,
{
    if k == 0 {
        1
    } else {
        10 * pow10((k - 1) as nat)
    }
}

proof fn lemma_decimal_len(n: nat, k: nat)
    requires
        k >= 1,
        n < pow10(k),
    ensures
        decimal(n).len() <= k,
    decreases k,
{
    if n >= 10 {
        let p = pow10((k - 1) as nat);
        if k == 1 {
            assert(pow10(0) == 1);
            assert(pow10(1) == 10);
        } else {
            assert(n / 10 < p) by (nonlinear_arith)
                requires
                    n < 10 * p,
            ;
            lemma_decimal_len(n / 10, (k - 1) as nat);
        }
    }
}

/// A frame is at most 17 bytes long.
pub proof fn lemma_frame_len(v: u32)
    ensures
        frame_of(v).len() <= 17,
{
    assert(pow10(0) == 1);
    assert(pow10(1) == 10);
    assert(pow10(2) == 100);
    assert(pow10(3) == 1000);
    assert(pow10(4) == 10000);
    assert(pow10(5) == 100000);
    assert(pow10(6) == 1000000);
    assert(pow10(7) == 10000000);
    assert(pow10(8) == 100000000);
    assert(pow10(9) == 1000000000);
    assert(pow10(10) == 10000000000);
    lemma_decimal_len(v as nat, 10);
}

/// Appends the shortest decimal representation of `n` to `out`.
fn push_decimal(out: &mut Vec<u8>, n: u32)
    ensures
        final(out)@ == old(out)@ + decimal(n as nat),
    decreases n,
{
    if n >= 10 {
        push_decimal(out, n / 10);
    }
    out.push(48u8 + (n % 10) as u8);
    proof {
        assert(final(out)@ =~= old(out)@ + decimal(n as nat));
    }
}

/// Encodes `value` as the frame `"Count: <decimal>"`.
pub fn encode(value: u32) -> (r: Vec<u8>)
    ensures
        r@ == frame_of(value),
{
    let mut out: Vec<u8> = vec![67u8, 111u8, 117u8, 110u8, 116u8, 58u8, 32u8];
    assert(out@ =~= prefix());
    push_decimal(&mut out, value);
    out
}

/// Decodes a frame: returns the value it carries, or `None` for any
/// payload that is not a counter frame (foreign traffic, noise, a number
/// that does not fit in a `u32`).
pub fn decode(bytes: &[u8]) -> (r: Option<u32>)
    ensures
        r == value_of_frame(bytes@),
{
    let b = Ghost(bytes@);
    let n = bytes.len();
    if n < PREFIX_LEN {
        return None;
    }
    let pre: Vec<u8> = vec![67u8, 111u8, 117u8, 110u8, 116u8, 58u8, 32u8];
    assert(pre@ =~= prefix());
    let mut i: usize = 0;
    while i < PREFIX_LEN
        invariant
            0 <= i <= PREFIX_LEN,
            PREFIX_LEN <= n == b@.len(),
            b@ == bytes@,
            pre@ == prefix(),
            forall|j: int| 0 <= j < i ==> b@[j] == prefix()[j],
        decreases PREFIX_LEN - i,
    {
        if bytes[i] != pre[i] {
            assert(b@.take(PREFIX_LEN as int)[i as int] != prefix()[i as int]);
            return None;
        }
        i = i + 1;
    }
    assert(b@.take(PREFIX_LEN as int) =~= prefix());
    let mut start: usize = PREFIX_LEN;
    if start < n && bytes[start] == 43u8 {
        start = start + 1;
    }
    let d = Ghost(unsigned_part(b@));
    assert(d@ =~= b@.subrange(start as int, n as int));
    if start == n {
        return None;
    }
    let mut acc: u64 = 0;
    let mut k: usize = start;
    while k < n
        invariant
            start <= k <= n == b@.len(),
            b@ == bytes@,
            d@ == b@.subrange(start as int, n as int),
            b@.take(PREFIX_LEN as int) == prefix(),
            d@ == unsigned_part(b@),
            PREFIX_LEN <= start < n,
            all_digits(d@.take(k - start)),
            acc as nat == digits_value(d@.take(k - start)),
            acc <= u32::MAX,
        decreases n - k,
    {
        let c = bytes[k];
        if c < 48u8 || c > 57u8 {
            assert(d@[k - start] == c);
            assert(!is_digit(d@[k - start]));
            return None;
        }
        acc = acc * 10 + (c - 48u8) as u64;
        let ghost t = d@.take(k + 1 - start);
        assert(t.drop_last() =~= d@.take(k - start));
        assert(t.last() == c);
        assert(all_digits(t)) by {
            assert forall|j: int| 0 <= j < t.len() implies is_digit(t[j]) by {
                if j < t.len() - 1 {
                    assert(t[j] == d@.take(k - start)[j]);
                }
            }
        }
        if acc > 4294967295u64 {
            proof {
                if all_digits(d@) {
                    lemma_prefix_value_le(d@, k + 1 - start);
                }
            }
            return None;
        }
        k = k + 1;
    }
    assert(d@.take(n - start) =~= d@);
    Some(acc as u32)
}

} // verus!
