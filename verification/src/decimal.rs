//! Decimal numerals as sequences of characters, and the numeral that follows one.

use vstd::prelude::*;

verus! {

/// Whether `c` is one of the ten decimal digits `0` to `9`.
pub open spec fn is_digit(c: char) -> bool {
    '0' <= c && c <= '9'
}

/// The number that the digit `c` stands for.
pub open spec fn digit_value(c: char) -> nat
    recommends
        is_digit(c),
{
    (c as u32 - '0' as u32) as nat
}

/// The digit that stands for `d`, for `d` below ten.
pub open spec fn digit_char(d: nat) -> char
    recommends
        d < 10,
{
    if d == 0 {
        '0'
    } else if d == 1 {
        '1'
    } else if d == 2 {
        '2'
    } else if d == 3 {
        '3'
    } else if d == 4 {
        '4'
    } else if d == 5 {
        '5'
    } else if d == 6 {
        '6'
    } else if d == 7 {
        '7'
    } else if d == 8 {
        '8'
    } else {
        '9'
    }
}

/// Whether every character of `s` is a decimal digit.
pub open spec fn all_digits(s: Seq<char>) -> bool {
    forall|i: int| 0 <= i < s.len() ==> is_digit(#[trigger] s[i])
}

/// The number that the digits of `s` spell, most significant digit first.
/// The empty sequence spells zero, and leading zeros do not count.
pub open spec fn decimal_value(s: Seq<char>) -> nat
    recommends
        all_digits(s),
    decreases s.len(),
{
    if s.len() == 0 {
        0
    } else {
        decimal_value(s.drop_last()) * 10 + digit_value(s.last())
    }
}

/// The shortest numeral that spells `n`: no leading zero, and `0` for zero.
pub open spec fn decimal_text(n: nat) -> Seq<char>
    decreases n,
{
    if n < 10 {
        seq![digit_char(n)]
    } else {
        decimal_text(n / 10).push(digit_char(n % 10))
    }
}

/// A numeral without leading zero: at least one digit, and the first is not
/// `0` unless it is the only one.
pub open spec fn is_canonical(s: Seq<char>) -> bool {
    &&& all_digits(s)
    &&& s.len() >= 1
    &&& (s.len() > 1 ==> s[0] != '0')
}

/// The numeral that follows `s` in counting, digit by digit from the right:
/// trailing nines turn to zeros and the digit before them goes up by one.
pub open spec fn successor(s: Seq<char>) -> Seq<char>
    recommends
        all_digits(s),
    decreases s.len(),
{
    if s.len() == 0 {
        seq!['1']
    } else if s.last() == '9' {
        successor(s.drop_last()).push('0')
    } else {
        s.drop_last().push(digit_char(digit_value(s.last()) + 1))
    }
}

/// A digit and its value determine each other.
pub proof fn lemma_digit_round_trip(c: char, d: nat)
    ensures
        is_digit(c) ==> digit_value(c) < 10 && digit_char(digit_value(c)) == c,
        d < 10 ==> is_digit(digit_char(d)) && digit_value(digit_char(d)) == d,
{
}

/// Appending a digit multiplies the value by ten and adds the digit.
pub proof fn lemma_value_push(s: Seq<char>, c: char)
    ensures
        decimal_value(s.push(c)) == decimal_value(s) * 10 + digit_value(c),
{
    assert(s.push(c).drop_last() =~= s);
}

/// Leading zeros do not change the value.
pub proof fn lemma_value_skips_zeros(s: Seq<char>, z: int)
    requires
        0 <= z <= s.len(),
        forall|i: int| 0 <= i < z ==> s[i] == '0',
    ensures
        decimal_value(s) == decimal_value(s.subrange(z, s.len() as int)),
    decreases s.len(),
{
    if z == s.len() {
        lemma_value_of_zeros(s);
        assert(s.subrange(z, s.len() as int) =~= Seq::<char>::empty());
    } else {
        let front = s.drop_last();
        lemma_value_skips_zeros(front, z);
        assert(front.subrange(z, front.len() as int) =~= s.subrange(z, s.len() as int).drop_last());
    }
}

/// A numeral of zeros alone spells zero.
pub proof fn lemma_value_of_zeros(s: Seq<char>)
    requires
        forall|i: int| 0 <= i < s.len() ==> s[i] == '0',
    ensures
        decimal_value(s) == 0,
    decreases s.len(),
{
    if s.len() > 0 {
        lemma_value_of_zeros(s.drop_last());
    }
}

/// A canonical numeral of two or more digits spells at least ten, and one
/// that does not begin with `0` spells at least one.
pub proof fn lemma_value_lower_bound(s: Seq<char>)
    requires
        all_digits(s),
        s.len() >= 1,
        s[0] != '0',
    ensures
        decimal_value(s) >= 1,
        s.len() >= 2 ==> decimal_value(s) >= 10,
    decreases s.len(),
{
    if s.len() >= 2 {
        lemma_value_lower_bound(s.drop_last());
    } else {
        assert(s.drop_last().len() == 0);
        assert(decimal_value(s.drop_last()) == 0);
    }
}

/// The shortest numeral of a canonical numeral's value is that numeral.
pub proof fn lemma_text_of_value(s: Seq<char>)
    requires
        is_canonical(s),
    ensures
        decimal_text(decimal_value(s)) == s,
    decreases s.len(),
{
    let front = s.drop_last();
    let c = s.last();
    lemma_digit_round_trip(c, 0);
    if s.len() == 1 {
        assert(decimal_value(front) == 0);
        assert(s =~= seq![c]);
    } else {
        assert(front[0] == s[0]);
        lemma_value_lower_bound(front);
        lemma_text_of_value(front);
        let v = decimal_value(s);
        assert(v == decimal_value(front) * 10 + digit_value(c));
        assert(v / 10 == decimal_value(front));
        assert(v % 10 == digit_value(c));
        assert(front.push(c) =~= s);
    }
}

/// The shortest numeral of `n` is canonical and spells `n`.
pub proof fn lemma_value_of_text(n: nat)
    ensures
        is_canonical(decimal_text(n)),
        decimal_value(decimal_text(n)) == n,
    decreases n,
{
    if n < 10 {
        lemma_digit_round_trip('0', n);
        let s = seq![digit_char(n)];
        assert(s.drop_last().len() == 0);
        assert(decimal_value(s.drop_last()) == 0);
    } else {
        lemma_value_of_text(n / 10);
        lemma_digit_round_trip('0', n % 10);
        let front = decimal_text(n / 10);
        lemma_value_push(front, digit_char(n % 10));
        let s = front.push(digit_char(n % 10));
        assert(s[0] == front[0]);
        if front.len() == 1 {
            assert(front[0] != '0') by {
                if front[0] == '0' {
                    assert(front.drop_last().len() == 0);
                    assert(decimal_value(front.drop_last()) == 0);
                    assert(decimal_value(front) == 0);
                }
            }
        }
    }
}

/// The successor of a numeral is a numeral that spells one more, and it does
/// not begin with `0` where the numeral did not.
pub proof fn lemma_successor(s: Seq<char>)
    requires
        all_digits(s),
    ensures
        all_digits(successor(s)),
        decimal_value(successor(s)) == decimal_value(s) + 1,
        successor(s).len() >= 1,
        (s.len() == 0 || s[0] != '0') ==> successor(s)[0] != '0',
    decreases s.len(),
{
    if s.len() == 0 {
        let one = seq!['1'];
        assert(one.drop_last().len() == 0);
        assert(decimal_value(one.drop_last()) == 0);
    } else if s.last() == '9' {
        let front = s.drop_last();
        lemma_successor(front);
        lemma_value_push(successor(front), '0');
        if front.len() > 0 {
            assert(front[0] == s[0]);
        }
    } else {
        let front = s.drop_last();
        let c = s.last();
        lemma_digit_round_trip(c, digit_value(c) + 1);
        lemma_value_push(front, digit_char(digit_value(c) + 1));
        if front.len() > 0 {
            assert(front[0] == s[0]);
        }
    }
}

/// The successor of a numeral that ends in nines: the nines turn to zeros
/// behind the successor of what stands before them.
pub proof fn lemma_successor_over_nines(s: Seq<char>, k: int)
    requires
        0 <= k <= s.len(),
        forall|i: int| k <= i < s.len() ==> s[i] == '9',
    ensures
        successor(s) == successor(s.subrange(0, k)) + Seq::new(
            (s.len() - k) as nat,
            |i: int| '0',
        ),
    decreases s.len() - k,
{
    let zeros = Seq::new((s.len() - k) as nat, |i: int| '0');
    if k == s.len() {
        assert(s.subrange(0, k) =~= s);
        assert(successor(s) + zeros =~= successor(s));
    } else {
        let front = s.drop_last();
        lemma_successor_over_nines(front, k);
        let fewer = Seq::new((front.len() - k) as nat, |i: int| '0');
        assert(front.subrange(0, k) =~= s.subrange(0, k));
        assert((successor(s.subrange(0, k)) + fewer).push('0') =~= successor(s.subrange(0, k))
            + zeros);
    }
}

/// Counting up from what a numeral spells: the shortest numeral of the next
/// number is the successor of the numeral without its leading zeros.
pub proof fn lemma_successor_is_next_text(s: Seq<char>, z: int)
    requires
        all_digits(s),
        0 <= z <= s.len(),
        forall|i: int| 0 <= i < z ==> s[i] == '0',
        z < s.len() ==> s[z] != '0',
    ensures
        decimal_text(decimal_value(s) + 1) == successor(s.subrange(z, s.len() as int)),
{
    let t = s.subrange(z, s.len() as int);
    lemma_value_skips_zeros(s, z);
    assert(all_digits(t)) by {
        assert forall|i: int| 0 <= i < t.len() implies is_digit(#[trigger] t[i]) by {
            assert(t[i] == s[z + i]);
        }
    }
    lemma_successor(t);
    if t.len() > 0 {
        assert(t[0] == s[z]);
    }
    lemma_text_of_value(successor(t));
}

/// The one-character text of the digit that stands for `d`.
fn digit_text(d: u8) -> (r: &'static str)
    requires
        d < 10,
    ensures
        r@ == seq![digit_char(d as nat)],
{
    proof {
        reveal_strlit("0");
        reveal_strlit("1");
        reveal_strlit("2");
        reveal_strlit("3");
        reveal_strlit("4");
        reveal_strlit("5");
        reveal_strlit("6");
        reveal_strlit("7");
        reveal_strlit("8");
        reveal_strlit("9");
    }
    let r = if d == 0 {
        "0"
    } else if d == 1 {
        "1"
    } else if d == 2 {
        "2"
    } else if d == 3 {
        "3"
    } else if d == 4 {
        "4"
    } else if d == 5 {
        "5"
    } else if d == 6 {
        "6"
    } else if d == 7 {
        "7"
    } else if d == 8 {
        "8"
    } else {
        "9"
    };
    assert(r@ =~= seq![digit_char(d as nat)]);
    r
}

/// Whether `c` is a decimal digit.
pub fn is_ascii_digit(c: char) -> (r: bool)
    ensures
        r == is_digit(c),
{
    '0' <= c && c <= '9'
}

/// The numeral of the number after the one that `digits` spells, without
/// leading zeros. The digits may be more than any machine integer holds.
pub(crate) fn next_numeral(digits: &str) -> (r: String)
    requires
        all_digits(digits@),
    ensures
        r@ == decimal_text(decimal_value(digits@) + 1),
{
    let n = digits.unicode_len();
    let mut z: usize = 0;
    while z < n && digits.get_char(z) == '0'
        invariant
            n == digits@.len(),
            z <= n,
            forall|i: int| 0 <= i < z ==> digits@[i] == '0',
        decreases n - z,
    {
        z += 1;
    }
    let mut k: usize = n;
    while k > z && digits.get_char(k - 1) == '9'
        invariant
            n == digits@.len(),
            z <= k <= n,
            forall|i: int| k <= i < n ==> digits@[i] == '9',
        decreases k,
    {
        k -= 1;
    }
    let ghost rest = digits@.subrange(z as int, n as int);
    let ghost head = rest.subrange(0, k - z);
    proof {
        lemma_successor_is_next_text(digits@, z as int);
        assert forall|i: int| k - z <= i < rest.len() implies rest[i] == '9' by {
            assert(rest[i] == digits@[z + i]);
        }
        lemma_successor_over_nines(rest, k - z);
    }
    let mut out = String::new();
    if k == z {
        proof {
            reveal_strlit("1");
            assert(head.len() == 0);
        }
        out.append("1");
        assert(out@ =~= successor(head));
    } else {
        let last = digits.get_char(k - 1);
        assert(is_digit(last));
        let d: u8 = ((last as u32) - ('0' as u32)) as u8;
        out.append(digits.substring_char(z, k - 1));
        out.append(digit_text(d + 1));
        proof {
            assert(head.last() == last);
            assert(head.drop_last() =~= digits@.subrange(z as int, k - 1));
            assert(out@ =~= successor(head));
        }
    }
    let mut i: usize = k;
    while i < n
        invariant
            k <= i <= n,
            out@ == successor(head) + Seq::new((i - k) as nat, |j: int| '0'),
        decreases n - i,
    {
        proof {
            reveal_strlit("0");
        }
        out.append("0");
        i += 1;
        assert(out@ =~= successor(head) + Seq::new((i - k) as nat, |j: int| '0'));
    }
    out
}

} // verus!
