//! Decimal rendering of capture indices, for the `&n` placeholder tokens.

use vstd::prelude::*;

verus! {

/// The decimal digit character for `d`.
pub open spec fn digit_char(d: nat) -> char {
    if d == 0 {
        '0'
    } else if d == 1 {
        '1'
    } else if d == 2 {
        '2'
    } else if d == 3 {
        '3'
    } else if d == 4 {
        '4'
    } else if d == 5 {
        '5'
    } else if d == 6 {
        '6'
    } else if d == 7 {
        '7'
    } else if d == 8 {
        '8'
    } else {
        '9'
    }
}

/// The decimal representation of `n`, most significant digit first.
pub open spec fn dec_digits(n: nat) -> Seq<char>
    decreases n,
{
    if n < 10 {
        seq![digit_char(n)]
    } else {
        dec_digits(n / 10) + seq![digit_char(n % 10)]
    }
}

/// The placeholder token for capture index `i`: `&` then `i` in decimal.
pub open spec fn placeholder_spec(i: nat) -> Seq<char> {
    seq!['&'] + dec_digits(i)
}

/// The decimal digit character for `d`, computed.
pub fn digit_of(d: usize) -> (c: char)
    requires
        d < 10,
    ensures
        c == digit_char(d as nat),
{
    if d == 0 {
        '0'
    } else if d == 1 {
        '1'
    } else if d == 2 {
        '2'
    } else if d == 3 {
        '3'
    } else if d == 4 {
        '4'
    } else if d == 5 {
        '5'
    } else if d == 6 {
        '6'
    } else if d == 7 {
        '7'
    } else if d == 8 {
        '8'
    } else {
        '9'
    }
}

/// The reversal of `v`.
pub fn rev_chars(v: &Vec<char>) -> (r: Vec<char>)
    ensures
        r@ == v@.reverse(),
{
    let n: usize = v.len();
    let mut r: Vec<char> = Vec::new();
    let mut i: usize = 0;
    while i < n
        invariant
            n == v@.len(),
            i <= n,
            r@.len() == i,
            forall|j: int| 0 <= j < i ==> r@[j] == v@[n - 1 - j],
        decreases n - i,
    {
        r.push(v[n - 1 - i]);
        i = i + 1;
    }
    proof {
        assert(r@ =~= v@.reverse());
    }
    r
}

/// The decimal digits of `n`, computed.
pub fn to_dec_digits(n: usize) -> (r: Vec<char>)
    ensures
        r@ == dec_digits(n as nat),
{
    let mut digits_rev: Vec<char> = Vec::new();
    let d0: char = digit_of(n % 10);
    digits_rev.push(d0);
    let mut cur: usize = n / 10;
    proof {
        assert(digits_rev@.reverse() =~= seq![digit_char((n % 10) as nat)]);
    }
    while cur > 0
        invariant
            cur > 0 ==> dec_digits(n as nat) == dec_digits(cur as nat) + digits_rev@.reverse(),
            cur == 0 ==> dec_digits(n as nat) == digits_rev@.reverse(),
        decreases cur,
    {
        let ghost old_cur = cur as nat;
        let ghost old_rev = digits_rev@;
        let d: char = digit_of(cur % 10);
        digits_rev.push(d);
        cur = cur / 10;
        proof {
            assert(digits_rev@.reverse() =~= seq![digit_char((old_cur % 10) as nat)]
                + old_rev.reverse());
            if cur > 0 {
                assert(dec_digits(old_cur) == dec_digits(old_cur / 10) + seq![
                    digit_char(old_cur % 10),
                ]);
                assert(dec_digits(cur as nat) + digits_rev@.reverse() =~= dec_digits(old_cur)
                    + old_rev.reverse());
            } else {
                assert(dec_digits(old_cur) =~= seq![digit_char(old_cur % 10)]);
                assert(digits_rev@.reverse() =~= dec_digits(old_cur) + old_rev.reverse());
            }
        }
    }
    rev_chars(&digits_rev)
}

/// The placeholder token for capture index `i`, computed.
pub fn make_placeholder(i: usize) -> (r: Vec<char>)
    ensures
        r@ == placeholder_spec(i as nat),
{
    let mut r: Vec<char> = Vec::new();
    r.push('&');
    let mut d: Vec<char> = to_dec_digits(i);
    r.append(&mut d);
    proof {
        assert(r@ =~= placeholder_spec(i as nat));
    }
    r
}

} // verus!
