//! Decimal rendering of the inventory figures: a 64-bit count to its
//! base-ten digit characters, for display on the boot console.

use vstd::prelude::*;

verus! {

/// `c` is a decimal digit character.
pub open spec fn is_digit_char(c: char) -> bool {
    digit_val(c) != -1
}

/// The value of a digit character, or -1 for any other character.
pub open spec fn digit_val(c: char) -> int {
    if c == '0' {
        0
    } else if c == '1' {
        1
    } else if c == '2' {
        2
    } else if c == '3' {
        3
    } else if c == '4' {
        4
    } else if c == '5' {
        5
    } else if c == '6' {
        6
    } else if c == '7' {
        7
    } else if c == '8' {
        8
    } else if c == '9' {
        9
    } else {
        -1
    }
}

/// The digit character for a value between 0 and 9.
pub open spec fn digit_char(d: int) -> char {
    if d == 0 {
        '0'
    } else if d == 1 {
        '1'
    } else if d == 2 {
        '2'
    } else if d == 3 {
        '3'
    } else if d == 4 {
        '4'
    } else if d == 5 {
        '5'
    } else if d == 6 {
        '6'
    } else if d == 7 {
        '7'
    } else if d == 8 {
        '8'
    } else {
        '9'
    }
}

/// The number a digit string denotes, most significant digit first.
pub open spec fn digits_value(ds: Seq<char>) -> int
    decreases ds.len(),
{
    if ds.len() == 0 {
        0
    } else {
        digits_value(ds.drop_last()) * 10 + digit_val(ds.last())
    }
}

/// The number a digit string denotes, least significant digit first.
pub open spec fn digits_value_lsf(ds: Seq<char>) -> int
    decreases ds.len(),
{
    if ds.len() == 0 {
        0
    } else {
        digit_val(ds.first()) + 10 * digits_value_lsf(ds.drop_first())
    }
}

/// Ten to the `k`.
pub open spec fn pow10(k: nat) -> int
    decreases k,
{
    if k == 0 {
        1
    } else {
        10 * pow10((k - 1) as nat)
    }
}

/// The canonical decimal rendering of a nonnegative number: most
/// significant digit first, no leading zero.
pub open spec fn dec_digits(n: int) -> Seq<char>
    decreases n,
{
    if n < 10 {
        seq![digit_char(n)]
    } else {
        dec_digits(n / 10).push(digit_char(n % 10))
    }
}

/// Every character of `ds` is a decimal digit.
pub open spec fn all_digits(ds: Seq<char>) -> bool {
    forall|i: int| 0 <= i < ds.len() ==> is_digit_char(#[trigger] ds[i])
}

/// A digit string with a nonzero leading digit denotes at least the power
/// of ten of its length.
proof fn lemma_digits_value_lower_bound(ds: Seq<char>)
    requires
        ds.len() >= 1,
        all_digits(ds),
        ds[0] != '0',
    ensures
        digits_value(ds) >= pow10((ds.len() - 1) as nat),
    decreases ds.len(),
{
    if ds.len() == 1 {
        assert(digits_value(ds.drop_last()) == 0);
        assert(digit_val(ds[0]) >= 1);
    } else {
        lemma_digits_value_lower_bound(ds.drop_last());
        let l2 = (ds.len() - 2) as nat;
        assert(digit_val(ds.last()) >= 0);
        assert(digits_value(ds.drop_last()) * 10 >= pow10(l2) * 10) by (nonlinear_arith)
            requires
                digits_value(ds.drop_last()) >= pow10(l2),
        ;
    }
}

/// The digit character of a digit's value is the digit itself.
proof fn lemma_digit_roundtrip(c: char)
    requires
        is_digit_char(c),
    ensures
        digit_char(digit_val(c)) == c,
{
}

/// The canonical rendering is the only digit string without a leading zero
/// that denotes a given number.
proof fn lemma_dec_digits_unique(ds: Seq<char>, n: int)
    requires
        ds.len() >= 1,
        all_digits(ds),
        ds.len() > 1 ==> ds[0] != '0',
        digits_value(ds) == n,
        n >= 0,
    ensures
        ds == dec_digits(n),
    decreases ds.len(),
{
    let last = ds.last();
    let head = ds.drop_last();
    if ds.len() == 1 {
        assert(digits_value(head) == 0);
        assert(n == digit_val(last) < 10);
        lemma_digit_roundtrip(last);
        assert(ds =~= seq![digit_char(n)]);
    } else {
        assert(all_digits(head)) by {
            assert(forall|i: int| 0 <= i < head.len() ==> head[i] == ds[i]);
        }
        assert(head[0] == ds[0]);
        lemma_digits_value_lower_bound(head);
        assert(pow10((head.len() - 1) as nat) >= 1) by {
            lemma_pow10_pos((head.len() - 1) as nat);
        }
        assert(n == digits_value(head) * 10 + digit_val(last));
        assert(0 <= digit_val(last) < 10);
        assert(digits_value(head) >= 1);
        assert(n >= 10) by (nonlinear_arith)
            requires
                n == digits_value(head) * 10 + digit_val(last),
                digits_value(head) >= 1,
                digit_val(last) >= 0,
        ;
        assert(n / 10 == digits_value(head) && n % 10 == digit_val(last)) by {
            vstd::arithmetic::div_mod::lemma_fundamental_div_mod_converse(
                n,
                10,
                digits_value(head),
                digit_val(last),
            );
        }
        lemma_dec_digits_unique(head, n / 10);
        lemma_digit_roundtrip(last);
        assert(ds =~= head.push(last));
    }
}

/// One is the least power of ten.
proof fn lemma_pow10_pos(k: nat)
    ensures
        pow10(k) >= 1,
    decreases k,
{
    if k > 0 {
        lemma_pow10_pos((k - 1) as nat);
    }
}

/// Reading most-significant-first is reading the reversal
/// least-significant-first.
proof fn lemma_digits_value_reverse(ds: Seq<char>)
    ensures
        digits_value(ds.reverse()) == digits_value_lsf(ds),
    decreases ds.len(),
{
    if ds.len() > 0 {
        lemma_digits_value_reverse(ds.drop_first());
        assert(ds.reverse().drop_last() =~= ds.drop_first().reverse());
        assert(ds.reverse().last() == ds.first());
    }
}

/// Appending one more digit at the high end of a least-significant-first
/// string adds its value at the next power of ten.
proof fn lemma_digits_value_lsf_push(ds: Seq<char>, c: char)
    ensures
        digits_value_lsf(ds.push(c)) == digits_value_lsf(ds) + digit_val(c) * pow10(ds.len()),
    decreases ds.len(),
{
    if ds.len() == 0 {
        assert(ds.push(c).drop_first() =~= Seq::<char>::empty());
        assert(ds.push(c).first() == c);
        assert(digits_value_lsf(ds.push(c)) == digit_val(c) + 10 * digits_value_lsf(
            ds.push(c).drop_first(),
        ));
        assert(pow10(ds.len()) == 1);
    } else {
        lemma_digits_value_lsf_push(ds.drop_first(), c);
        assert(ds.push(c).drop_first() =~= ds.drop_first().push(c));
        assert(ds.push(c).first() == ds.first());
        assert(digits_value_lsf(ds.push(c)) == digit_val(ds.first()) + 10 * digits_value_lsf(
            ds.drop_first().push(c),
        ));
        assert(digits_value_lsf(ds) == digit_val(ds.first()) + 10 * digits_value_lsf(
            ds.drop_first(),
        ));
        let l1 = (ds.len() - 1) as nat;
        assert(pow10(ds.len()) == 10 * pow10(l1));
        assert(digit_val(c) * pow10(ds.len()) == 10 * (digit_val(c) * pow10(l1)))
            by (nonlinear_arith)
            requires
                pow10(ds.len()) == 10 * pow10(l1),
        ;
    }
}

/// The digit character of a value between 0 and 9 reads back as that value.
proof fn lemma_digit_char_val(d: int)
    requires
        0 <= d <= 9,
    ensures
        digit_val(digit_char(d)) == d,
        is_digit_char(digit_char(d)),
{
}

/// Picks the digit character for a value between 0 and 9.
fn digit_to_char(d: u64) -> (c: char)
    requires
        d <= 9,
    ensures
        c == digit_char(d as int),
        digit_val(c) == d,
{
    proof {
        lemma_digit_char_val(d as int);
    }
    match d {
        0 => '0',
        1 => '1',
        2 => '2',
        3 => '3',
        4 => '4',
        5 => '5',
        6 => '6',
        7 => '7',
        8 => '8',
        _ => '9',
    }
}

/// Renders `n` in decimal: the canonical digit string, most significant
/// digit first — at least one character, every character a digit, no
/// leading zero unless the number is zero itself, and denoting exactly `n`.
pub fn format_u64(n: u64) -> (r: Vec<char>)
    ensures
        r@ == dec_digits(n as int),
        r@.len() >= 1,
        forall|i: int| 0 <= i < r@.len() ==> is_digit_char(#[trigger] r@[i]),
        digits_value(r@) == n,
        r@.len() > 1 ==> r@[0] != '0',
{
    if n == 0 {
        let mut r: Vec<char> = Vec::new();
        r.push('0');
        proof {
            assert(r@.drop_last() =~= Seq::<char>::empty());
            assert(r@.last() == '0');
            assert(digit_val('0') == 0);
            assert(digits_value(r@) == digits_value(r@.drop_last()) * 10 + digit_val(r@.last()));
            lemma_dec_digits_unique(r@, 0);
        }
        return r;
    }
    let mut acc: Vec<char> = Vec::new();
    let mut m: u64 = n;
    proof {
        assert(acc@ =~= Seq::<char>::empty());
    }
    while m > 0
        invariant
            digits_value_lsf(acc@) + m * pow10(acc@.len()) == n,
            forall|i: int| 0 <= i < acc@.len() ==> is_digit_char(#[trigger] acc@[i]),
            m == 0 ==> acc@.len() >= 1 && digit_val(acc@.last()) != 0,
            acc@.len() >= 1 ==> digit_val(acc@.last()) != 0 || m > 0,
            n > 0,
        decreases m,
    {
        let d = m % 10;
        let c = digit_to_char(d);
        proof {
            let mi = m as int;
            let l = acc@.len();
            lemma_digits_value_lsf_push(acc@, c);
            vstd::arithmetic::div_mod::lemma_fundamental_div_mod(mi, 10);
            assert(pow10(l + 1) == 10 * pow10(l));
            assert((mi % 10) * pow10(l) + (mi / 10) * pow10(l + 1) == mi * pow10(l))
                by (nonlinear_arith)
                requires
                    mi == 10 * (mi / 10) + (mi % 10),
                    pow10(l + 1) == 10 * pow10(l),
            ;
        }
        acc.push(c);
        m = m / 10;
    }
    let mut r: Vec<char> = Vec::new();
    let mut k = acc.len();
    while k > 0
        invariant
            k <= acc@.len(),
            r@.len() == acc@.len() - k,
            forall|i: int| 0 <= i < r@.len() ==> r@[i] == acc@[acc@.len() - 1 - i],
        decreases k,
    {
        k = k - 1;
        let c = acc[k];
        r.push(c);
    }
    proof {
        assert(r@ =~= acc@.reverse());
        lemma_digits_value_reverse(acc@);
        assert(r@[0] == acc@.last());
        lemma_dec_digits_unique(r@, n as int);
    }
    r
}

} // verus!
