use vstd::prelude::*;

use crate::lexer::{all_ascii_digits, digits_value};

verus! {

/// Relies on String::push: appends one character at the end of the string.
#[verifier::external_body]
pub fn push_char(s: &mut String, c: char)
    ensures
        final(s)@ == old(s)@.push(c),
{
    s.push(c);
}

/// Builds the string holding exactly these characters, in order.
pub fn chars_to_string(v: &Vec<char>) -> (s: String)
    ensures
        s@ == v@,
{
    let mut s = String::new();
    let n: usize = v.len();
    let mut i: usize = 0;
    proof {
        assert(s@ =~= v@.subrange(0, 0));
    }
    while i < n
        invariant
            0 <= i <= n,
            n == v@.len(),
            s@ == v@.subrange(0, i as int),
        decreases n - i,
    {
        push_char(&mut s, v[i]);
        proof {
            assert(v@.subrange(0, i as int + 1) =~= v@.subrange(0, i as int).push(v@[i as int]));
        }
        i += 1;
    }
    proof {
        assert(v@.subrange(0, n as int) =~= v@);
    }
    s
}

/// Character-for-character equality of two string slices.
pub fn str_eq(a: &str, b: &str) -> (r: bool)
    ensures
        r == (a@ == b@),
{
    let n: usize = a.unicode_len();
    let m: usize = b.unicode_len();
    if n != m {
        return false;
    }
    let mut i: usize = 0;
    while i < n
        invariant
            0 <= i <= n,
            n == a@.len(),
            n == b@.len(),
            forall|j: int| 0 <= j < i ==> a@[j] == b@[j],
        decreases n - i,
    {
        if a.get_char(i) != b.get_char(i) {
            return false;
        }
        i += 1;
    }
    proof {
        assert(a@ =~= b@);
    }
    true
}

/// The character for one decimal digit.
pub open spec fn digit_char(d: nat) -> char {
    if d == 0 {
        '0'
    } else if d == 1 {
        '1'
    } else if d == 2 {
        '2'
    } else if d == 3 {
        '3'
    } else if d == 4 {
        '4'
    } else if d == 5 {
        '5'
    } else if d == 6 {
        '6'
    } else if d == 7 {
        '7'
    } else if d == 8 {
        '8'
    } else {
        '9'
    }
}

/// The decimal digits of `n`, most significant first.
pub open spec fn dec_digits(n: nat) -> Seq<char>
    decreases n,
{
    if n < 10 {
        seq![digit_char(n)]
    } else {
        dec_digits(n / 10).push(digit_char(n % 10))
    }
}

fn digit_to_char(d: usize) -> (c: char)
    requires
        d < 10,
    ensures
        c == digit_char(d as nat),
{
    if d == 0 {
        '0'
    } else if d == 1 {
        '1'
    } else if d == 2 {
        '2'
    } else if d == 3 {
        '3'
    } else if d == 4 {
        '4'
    } else if d == 5 {
        '5'
    } else if d == 6 {
        '6'
    } else if d == 7 {
        '7'
    } else if d == 8 {
        '8'
    } else {
        '9'
    }
}

/// Renders a number in decimal.
pub fn usize_to_string(n: usize) -> (r: String)
    ensures
        r@ == dec_digits(n as nat),
{
    if n == 0 {
        let mut s = String::new();
        push_char(&mut s, '0');
        proof {
            assert(s@ =~= seq![digit_char(0)]);
        }
        return s;
    }
    let mut digits: Vec<char> = Vec::new();
    let mut m: usize = n;
    while m > 0
        invariant
            m > 0 ==> dec_digits(n as nat) == dec_digits(m as nat) + digits@.reverse(),
            m == 0 ==> dec_digits(n as nat) == digits@.reverse(),
            m == 0 ==> digits@.len() > 0,
        decreases m,
    {
        let d: usize = m % 10;
        let c = digit_to_char(d);
        let ghost old_digits = digits@;
        let ghost old_m = m as nat;
        digits.push(c);
        m = m / 10;
        proof {
            assert(old_digits.push(c).reverse() =~= seq![c] + old_digits.reverse());
            if m > 0 {
                assert(old_m >= 10);
                assert(dec_digits(old_m) == dec_digits(old_m / 10).push(digit_char(old_m % 10)));
                assert(dec_digits(m as nat).push(c) + old_digits.reverse() =~= dec_digits(
                    m as nat,
                ) + (seq![c] + old_digits.reverse()));
            } else {
                assert(old_m < 10);
                assert(dec_digits(old_m) =~= seq![c]);
                assert(dec_digits(old_m) + old_digits.reverse() =~= seq![c]
                    + old_digits.reverse());
            }
        }
    }
    let len: usize = digits.len();
    let mut s = String::new();
    let mut k: usize = 0;
    proof {
        assert(s@ =~= digits@.reverse().subrange(0, 0));
    }
    while k < len
        invariant
            0 <= k <= len,
            len == digits@.len(),
            dec_digits(n as nat) == digits@.reverse(),
            s@ == digits@.reverse().subrange(0, k as int),
        decreases len - k,
    {
        let c = digits[len - 1 - k];
        push_char(&mut s, c);
        proof {
            assert(digits@.reverse()[k as int] == digits@[len - 1 - k as int]);
            assert(digits@.reverse().subrange(0, k as int + 1) =~= digits@.reverse().subrange(
                0,
                k as int,
            ).push(digits@.reverse()[k as int]));
        }
        k += 1;
    }
    proof {
        assert(digits@.reverse().subrange(0, len as int) =~= digits@.reverse());
    }
    s
}

/// The parts joined by single spaces, in order.
pub open spec fn join_spaced(parts: Seq<Seq<char>>) -> Seq<char>
    decreases parts.len(),
{
    if parts.len() == 0 {
        Seq::empty()
    } else if parts.len() == 1 {
        parts[0]
    } else {
        join_spaced(parts.drop_last()) + seq![' '] + parts.last()
    }
}

/// Joins the parts with single spaces, in order.
pub fn join_with_spaces(parts: &Vec<String>) -> (r: String)
    ensures
        r@ == join_spaced(parts.deep_view()),
{
    let mut s = String::new();
    let n: usize = parts.len();
    let mut i: usize = 0;
    proof {
        assert(parts.deep_view().subrange(0, 0) =~= Seq::<Seq<char>>::empty());
    }
    while i < n
        invariant
            0 <= i <= n,
            n == parts@.len(),
            n == parts.deep_view().len(),
            s@ == join_spaced(parts.deep_view().subrange(0, i as int)),
        decreases n - i,
    {
        let ghost dv = parts.deep_view();
        let ghost pre = s@;
        if i > 0 {
            push_char(&mut s, ' ');
        }
        s.append(parts[i].as_str());
        proof {
            assert(dv.subrange(0, i as int + 1).drop_last() =~= dv.subrange(0, i as int));
            assert(dv.subrange(0, i as int + 1).last() == dv[i as int]);
            if i == 0 {
                assert(s@ =~= dv[0]);
                assert(dv.subrange(0, 1).len() == 1);
            } else {
                assert(s@ =~= join_spaced(dv.subrange(0, i as int)) + seq![' '] + dv[i as int]);
            }
        }
        i += 1;
    }
    proof {
        assert(parts.deep_view().subrange(0, n as int) =~= parts.deep_view());
    }
    s
}

/// Reads a word that consists solely of ASCII digits as a count; any
/// other word, and any count too large for the machine, is refused.
pub fn parse_usize(s: &str) -> (r: Option<usize>)
    ensures
        r matches Some(v) ==> s@.len() > 0 && all_ascii_digits(s@) && digits_value(s@)
            == v as nat,
        r is None ==> !(s@.len() > 0 && all_ascii_digits(s@) && digits_value(s@)
            <= usize::MAX),
{
    let n: usize = s.unicode_len();
    let bound: u128 = usize::MAX as u128;
    let mut i: usize = 0;
    let mut digits_only = true;
    // The running value of the digits read so far, saturated just over
    // the largest machine count.
    let mut val: u128 = 0;
    while i < n
        invariant
            0 <= i <= n,
            n == s@.len(),
            bound == usize::MAX as u128,
            digits_only == all_ascii_digits(s@.subrange(0, i as int)),
            digits_only ==> val as nat == (if digits_value(s@.subrange(0, i as int))
                <= bound as nat {
                digits_value(s@.subrange(0, i as int))
            } else {
                bound as nat + 1
            }),
            val <= bound as u128 + 1,
        decreases n - i,
    {
        let c = s.get_char(i);
        proof {
            assert(s@.subrange(0, i as int + 1).drop_last() =~= s@.subrange(0, i as int));
            assert(s@.subrange(0, i as int + 1).last() == c);
        }
        let u: u32 = c as u32;
        if 0x30 <= u && u <= 0x39 {
            let d: u128 = (u - 0x30) as u128;
            val = val * 10 + d;
            if val > bound {
                val = bound + 1;
            }
        } else {
            digits_only = false;
        }
        i += 1;
    }
    proof {
        assert(s@.subrange(0, n as int) =~= s@);
    }
    if n > 0 && digits_only && val <= bound {
        Some(val as usize)
    } else {
        None
    }
}

} // verus!
