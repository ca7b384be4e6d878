use vstd::prelude::*;

use crate::HANDSHAKE_TERMINATOR;

verus! {

/// An ASCII decimal digit.
pub open spec fn is_digit(b: u8) -> bool {
    48 <= b <= 57
}

/// Every byte is an ASCII decimal digit.
pub open spec fn all_digits(s: Seq<u8>) -> bool {
    forall|i: int| 0 <= i < s.len() ==> is_digit(#[trigger] s[i])
}

/// The number the digit bytes spell, most significant first.
pub open spec fn decimal_value(s: Seq<u8>) -> nat
    decreases s.len(),
{
    if s.len() == 0 {
        0
    } else {
        decimal_value(s.drop_last()) * 10 + (s.last() - 48) as nat
    }
}

/// A well-formed handshake line: at least one digit, all digits, the
/// terminator byte at the end, and a value that fits the identifier type.
pub open spec fn valid_handshake(s: Seq<u8>) -> bool {
    &&& s.len() >= 2
    &&& s.last() == HANDSHAKE_TERMINATOR
    &&& all_digits(s.drop_last())
    &&& decimal_value(s.drop_last()) <= u64::MAX
}

proof fn lemma_decimal_prefix_le(s: Seq<u8>, k: int)
    requires
        0 <= k <= s.len(),
        all_digits(s),
    ensures
        decimal_value(s.take(k)) <= decimal_value(s),
    decreases s.len(),
{
    if k == s.len() {
        assert(s.take(k) =~= s);
    } else {
        let t = s.drop_last();
        assert(all_digits(t));
        assert(s.take(k) =~= t.take(k));
        lemma_decimal_prefix_le(t, k);
    }
}

/// Read the connection identifier from the handshake line: the bytes up
/// to and including the terminator, as the driver read them off the
/// socket. Anything but digits, the final terminator and a value in range
/// is a malformed handshake, fatal to the connection alone.
pub fn parse_connection_id(buf: &Vec<u8>) -> (r: Option<u64>)
    ensures
        valid_handshake(buf@) ==> r == Some(decimal_value(buf@.drop_last()) as u64),
        !valid_handshake(buf@) ==> r == None::<u64>,
{
    let n = buf.len();
    if n < 2 {
        return None;
    }
    if buf[n - 1] != HANDSHAKE_TERMINATOR {
        return None;
    }
    let ghost digits = buf@.drop_last();
    let mut acc: u64 = 0;
    let mut i: usize = 0;
    while i < n - 1
        invariant
            2 <= n == buf@.len(),
            i <= n - 1,
            digits == buf@.drop_last(),
            all_digits(digits.take(i as int)),
            acc == decimal_value(digits.take(i as int)),
        decreases n - 1 - i,
    {
        let b = buf[i];
        if b < 48 || b > 57 {
            proof {
                assert(digits[i as int] == buf@[i as int]);
                assert(!all_digits(digits));
            }
            return None;
        }
        let d = (b - 48) as u64;
        if acc > (u64::MAX - d) / 10 {
            proof {
                let m = (u64::MAX - d) as int;
                vstd::arithmetic::div_mod::lemma_fundamental_div_mod(m, 10);
                assert(m % 10 < 10) by {
                    vstd::arithmetic::div_mod::lemma_mod_bound(m, 10);
                }
                assert(10 * (acc as int) >= 10 * (m / 10) + 10);
                assert(digits.take(i + 1).drop_last() =~= digits.take(i as int));
                assert(digits.take(i + 1).last() == digits[i as int]);
                assert(decimal_value(digits.take(i + 1)) > u64::MAX);
                if all_digits(digits) {
                    lemma_decimal_prefix_le(digits, i + 1);
                }
            }
            return None;
        }
        acc = acc * 10 + d;
        i = i + 1;
        proof {
            assert(digits.take(i as int).drop_last() =~= digits.take(i - 1));
            assert(digits.take(i as int).last() == digits[i - 1]);
        }
    }
    proof {
        assert(digits.take(n - 1) =~= digits);
    }
    Some(acc)
}

} // verus!
