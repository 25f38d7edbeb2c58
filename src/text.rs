use vstd::prelude::*;
use vstd::string::*;

verus! {

/// The sixteen lowercase hexadecimal digits; the first ten are the decimal ones.
pub open spec fn hex_digits() -> Seq<char> {
    seq!['0', '1', '2', '3', '4', '5', '6', '7', '8', '9', 'a', 'b', 'c', 'd', 'e', 'f']
}

/// The decimal digits of a natural number, most significant first.
pub open spec fn spec_nat_decimal(n: nat) -> Seq<char>
    decreases n,
{
    if n < 10 {
        seq![hex_digits()[n as int]]
    } else {
        spec_nat_decimal(n / 10).push(hex_digits()[(n % 10) as int])
    }
}

/// The decimal form of an integer, with a leading `-` when negative.
pub open spec fn spec_decimal(i: int) -> Seq<char> {
    if i < 0 {
        seq!['-'] + spec_nat_decimal((-i) as nat)
    } else {
        spec_nat_decimal(i as nat)
    }
}

/// Two lowercase hexadecimal digits for a byte.
pub open spec fn spec_hex_byte(b: u8) -> Seq<char> {
    seq![hex_digits()[(b / 16) as int], hex_digits()[(b % 16) as int]]
}

/// A color as `#rrggbb`.
pub open spec fn spec_color_str(r: u8, g: u8, b: u8) -> Seq<char> {
    seq!['#'] + spec_hex_byte(r) + spec_hex_byte(g) + spec_hex_byte(b)
}

fn digit_str(d: u8) -> (r: &'static str)
    requires
        d < 16,
    ensures
        r@ == seq![hex_digits()[d as int]],
{
    proof {
        reveal_strlit("0");
        reveal_strlit("1");
        reveal_strlit("2");
        reveal_strlit("3");
        reveal_strlit("4");
        reveal_strlit("5");
        reveal_strlit("6");
        reveal_strlit("7");
        reveal_strlit("8");
        reveal_strlit("9");
        reveal_strlit("a");
        reveal_strlit("b");
        reveal_strlit("c");
        reveal_strlit("d");
        reveal_strlit("e");
        reveal_strlit("f");
    }
    match d {
        0 => "0",
        1 => "1",
        2 => "2",
        3 => "3",
        4 => "4",
        5 => "5",
        6 => "6",
        7 => "7",
        8 => "8",
        9 => "9",
        10 => "a",
        11 => "b",
        12 => "c",
        13 => "d",
        14 => "e",
        _ => "f",
    }
}

/// Appends the decimal digits of `n`.
pub fn push_nat_decimal(s: &mut String, n: u64)
    ensures
        final(s)@ == old(s)@ + spec_nat_decimal(n as nat),
    decreases n,
{
    if n >= 10 {
        push_nat_decimal(s, n / 10);
    }
    s.append(digit_str((n % 10) as u8));
    proof {
        assert(final(s)@ =~= old(s)@ + spec_nat_decimal(n as nat));
    }
}

/// Appends the decimal form of `i`.
pub fn push_decimal(s: &mut String, i: i64)
    requires
        i > i64::MIN,
    ensures
        final(s)@ == old(s)@ + spec_decimal(i as int),
{
    if i < 0 {
        proof {
            reveal_strlit("-");
        }
        s.append("-");
        push_nat_decimal(s, (-i) as u64);
        proof {
            assert(final(s)@ =~= old(s)@ + spec_decimal(i as int));
        }
    } else {
        push_nat_decimal(s, i as u64);
    }
}

/// Appends a literal.
pub fn push_str(s: &mut String, t: &str)
    ensures
        final(s)@ == old(s)@ + t@,
{
    s.append(t);
}

/// Appends a color as `#rrggbb`.
pub fn push_color(s: &mut String, r: u8, g: u8, b: u8)
    ensures
        final(s)@ == old(s)@ + spec_color_str(r, g, b),
{
    proof {
        reveal_strlit("#");
    }
    s.append("#");
    s.append(digit_str(r / 16));
    s.append(digit_str(r % 16));
    s.append(digit_str(g / 16));
    s.append(digit_str(g % 16));
    s.append(digit_str(b / 16));
    s.append(digit_str(b % 16));
    proof {
        assert(final(s)@ =~= old(s)@ + spec_color_str(r, g, b));
    }
}

} // verus!

verus! {

/// Character-wise equality of two string slices.
pub fn str_eq(a: &str, b: &str) -> (r: bool)
    ensures
        r == (a@ == b@),
{
    let n = a.unicode_len();
    let m = b.unicode_len();
    if n != m {
        return false;
    }
    let mut i: usize = 0;
    while i < n
        invariant
            n == a@.len(),
            m == b@.len(),
            n == m,
            i <= n,
            forall|j: int| 0 <= j < i ==> a@[j] == b@[j],
        decreases n - i,
    {
        if a.get_char(i) != b.get_char(i) {
            return false;
        }
        i += 1;
    }
    assert(a@ =~= b@);
    true
}

} // verus!

verus! {

/// `a`, then `b`, then `c`.
pub fn join3(a: &str, b: &str, c: &str) -> (r: String)
    ensures
        r@ == a@ + b@ + c@,
{
    let mut s = String::from_str(a);
    s.append(b);
    s.append(c);
    s
}

} // verus!
