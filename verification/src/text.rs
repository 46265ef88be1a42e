//! Small executable helpers over strings: appending one character,
//! character-wise equality, and decimal rendering of an integer.

use vstd::prelude::*;

verus! {

/// Relies on String::push: appends the given character to the end of the
/// string.
#[verifier::external_body]
pub fn push_char(s: &mut String, c: char)
    ensures
        final(s)@ == old(s)@.push(c),
{
    s.push(c);
}

/// Character-wise equality of two string slices.
pub fn str_eq(a: &str, b: &str) -> (r: bool)
    ensures
        r == (a@ == b@),
{
    let an = a.unicode_len();
    let bn = b.unicode_len();
    if an != bn {
        proof {
            assert(a@ != b@) by {
                if a@ == b@ {
                    assert(a@.len() == b@.len());
                }
            }
        }
        return false;
    }
    let mut i: usize = 0;
    while i < an
        invariant
            i <= an,
            an == a@.len(),
            an == b@.len(),
            forall|j: int| 0 <= j < i ==> a@[j] == b@[j],
        decreases an - i,
    {
        if a.get_char(i) != b.get_char(i) {
            return false;
        }
        i += 1;
    }
    proof {
        assert(a@ =~= b@);
    }
    true
}

/// The decimal digit character of `d`.
pub open spec fn digit_char(d: int) -> char
    recommends
        0 <= d < 10,
{
    (48 + d) as char
}

/// The decimal numeral of `n`, most significant digit first.
pub open spec fn dec_str(n: nat) -> Seq<char>
    decreases n,
{
    if n < 10 {
        seq![digit_char(n as int)]
    } else {
        dec_str(n / 10) + seq![digit_char((n % 10) as int)]
    }
}

/// Renders `n` in decimal.
pub fn usize_to_string(n: usize) -> (r: String)
    ensures
        r@ == dec_str(n as nat),
{
    let mut digits: Vec<char> = Vec::new();
    let mut m: usize = n;
    if n == 0 {
        let mut r = String::new();
        push_char(&mut r, '0');
        proof {
            assert(r@ =~= dec_str(0));
        }
        return r;
    }
    while m > 0
        invariant
            dec_str(n as nat) == if m > 0 {
                dec_str(m as nat) + digits@.reverse()
            } else {
                digits@.reverse()
            },
        decreases m,
    {
        let d: usize = m % 10;
        let c: char = ((48 + d) as u8) as char;
        assert(c == digit_char(d as int));
        let ghost prev = digits@;
        digits.push(c);
        proof {
            assert(digits@.reverse() =~= seq![c] + prev.reverse());
            if m >= 10 {
                assert(dec_str(m as nat) == dec_str((m as nat) / 10) + seq![c]);
                assert(dec_str((m / 10) as nat) + digits@.reverse() =~= dec_str(m as nat)
                    + prev.reverse());
            } else {
                assert(dec_str(m as nat) == seq![c]);
                assert(digits@.reverse() =~= dec_str(m as nat) + prev.reverse());
            }
        }
        m = m / 10;
    }
    let mut r = String::new();
    let mut i: usize = digits.len();
    while i > 0
        invariant
            i <= digits@.len(),
            r@ == digits@.subrange(i as int, digits@.len() as int).reverse(),
        decreases i,
    {
        i -= 1;
        let ghost before = r@;
        push_char(&mut r, digits[i]);
        proof {
            assert(digits@.subrange(i as int, digits@.len() as int).reverse() =~= before.push(
                digits@[i as int],
            ));
        }
    }
    proof {
        assert(digits@.subrange(0, digits@.len() as int) == digits@);
    }
    r
}

} // verus!
