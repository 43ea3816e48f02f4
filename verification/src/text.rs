//! Rendering of numbers as decimal and hexadecimal character sequences,
//! together with the injectivity facts that collision-free naming relies on.

use vstd::prelude::*;

verus! {

/// The character for a single digit value below 16, lower case.
pub open spec fn digit_char(d: nat) -> char {
    if d == 0 {
        '0'
    } else if d == 1 {
        '1'
    } else if d == 2 {
        '2'
    } else if d == 3 {
        '3'
    } else if d == 4 {
        '4'
    } else if d == 5 {
        '5'
    } else if d == 6 {
        '6'
    } else if d == 7 {
        '7'
    } else if d == 8 {
        '8'
    } else if d == 9 {
        '9'
    } else if d == 10 {
        'a'
    } else if d == 11 {
        'b'
    } else if d == 12 {
        'c'
    } else if d == 13 {
        'd'
    } else if d == 14 {
        'e'
    } else {
        'f'
    }
}

/// Decimal rendering of a natural number, most significant digit first.
pub open spec fn dec_digits(n: nat) -> Seq<char>
    decreases n,
{
    if n < 10 {
        seq![digit_char(n)]
    } else {
        dec_digits(n / 10) + seq![digit_char(n % 10)]
    }
}

/// Hexadecimal rendering of a natural number, lower case, no prefix.
pub open spec fn hex_digits(n: nat) -> Seq<char>
    decreases n,
{
    if n < 16 {
        seq![digit_char(n)]
    } else {
        hex_digits(n / 16) + seq![digit_char(n % 16)]
    }
}

/// A decimal rendering is never empty, and has at least two digits from ten
/// on.
pub proof fn lemma_dec_digits_len(n: nat)
    ensures
        dec_digits(n).len() >= 1,
        n >= 10 ==> dec_digits(n).len() >= 2,
    decreases n,
{
    if n >= 10 {
        lemma_dec_digits_len(n / 10);
    }
}

/// Distinct numbers render to distinct decimal digit sequences.
pub proof fn lemma_dec_digits_injective(a: nat, b: nat)
    requires
        dec_digits(a) == dec_digits(b),
    ensures
        a == b,
    decreases a,
{
    lemma_dec_digits_len(a);
    lemma_dec_digits_len(b);
    if a < 10 && b < 10 {
        assert(dec_digits(a)[0] == digit_char(a));
        assert(dec_digits(b)[0] == digit_char(b));
    } else if a >= 10 && b >= 10 {
        let da = dec_digits(a / 10);
        let db = dec_digits(b / 10);
        assert(dec_digits(a).last() == digit_char(a % 10));
        assert(dec_digits(b).last() == digit_char(b % 10));
        assert(a % 10 == b % 10);
        assert(dec_digits(a).len() == da.len() + 1);
        assert(dec_digits(b).len() == db.len() + 1);
        assert(da =~= dec_digits(a).subrange(0, da.len() as int));
        assert(db =~= dec_digits(b).subrange(0, db.len() as int));
        lemma_dec_digits_injective(a / 10, b / 10);
    } else if a < 10 {
        assert(dec_digits(a).len() == 1);
        assert(dec_digits(b).len() >= 2);
    } else {
        assert(dec_digits(b).len() == 1);
        assert(dec_digits(a).len() >= 2);
    }
}

/// Decimal renderings consist of digit characters alone; in particular they
/// hold no newline.
pub proof fn lemma_dec_digits_no_newline(n: nat)
    ensures
        forall|i: int| 0 <= i < dec_digits(n).len() ==> dec_digits(n)[i] != '\n',
    decreases n,
{
    if n < 10 {
        assert(dec_digits(n)[0] == digit_char(n));
    } else {
        lemma_dec_digits_no_newline(n / 10);
        assert forall|i: int| 0 <= i < dec_digits(n).len() implies dec_digits(n)[i] != '\n' by {
            if i < dec_digits(n / 10).len() {
                assert(dec_digits(n)[i] == dec_digits(n / 10)[i]);
            } else {
                assert(dec_digits(n)[i] == digit_char(n % 10));
            }
        }
    }
}

/// A one-character string for a digit value below 16, lower case.
fn digit_str(d: u64) -> (r: &'static str)
    requires
        d < 16,
    ensures
        r@ == seq![digit_char(d as nat)],
{
    proof {
        reveal_strlit("0");
        reveal_strlit("1");
        reveal_strlit("2");
        reveal_strlit("3");
        reveal_strlit("4");
        reveal_strlit("5");
        reveal_strlit("6");
        reveal_strlit("7");
        reveal_strlit("8");
        reveal_strlit("9");
        reveal_strlit("a");
        reveal_strlit("b");
        reveal_strlit("c");
        reveal_strlit("d");
        reveal_strlit("e");
        reveal_strlit("f");
    }
    if d == 0 {
        "0"
    } else if d == 1 {
        "1"
    } else if d == 2 {
        "2"
    } else if d == 3 {
        "3"
    } else if d == 4 {
        "4"
    } else if d == 5 {
        "5"
    } else if d == 6 {
        "6"
    } else if d == 7 {
        "7"
    } else if d == 8 {
        "8"
    } else if d == 9 {
        "9"
    } else if d == 10 {
        "a"
    } else if d == 11 {
        "b"
    } else if d == 12 {
        "c"
    } else if d == 13 {
        "d"
    } else if d == 14 {
        "e"
    } else {
        "f"
    }
}

/// Renders a number in decimal.
pub fn u64_to_dec(n: u64) -> (r: String)
    ensures
        r@ == dec_digits(n as nat),
    decreases n,
{
    if n < 10 {
        digit_str(n).to_owned()
    } else {
        let mut r = u64_to_dec(n / 10);
        r.append(digit_str(n % 10));
        r
    }
}

/// Renders a number in hexadecimal, lower case, no prefix.
pub fn u64_to_hex(n: u64) -> (r: String)
    ensures
        r@ == hex_digits(n as nat),
        r@.len() >= 1,
    decreases n,
{
    if n < 16 {
        digit_str(n).to_owned()
    } else {
        let mut r = u64_to_hex(n / 16);
        r.append(digit_str(n % 16));
        r
    }
}

/// Decimal rendering padded with leading zeros to at least two characters.
pub open spec fn padded2(n: nat) -> Seq<char> {
    if n < 10 {
        seq!['0'] + dec_digits(n)
    } else {
        dec_digits(n)
    }
}

/// Decimal rendering padded with leading zeros to at least four characters.
pub open spec fn padded4(n: nat) -> Seq<char> {
    if n < 10 {
        seq!['0', '0', '0'] + dec_digits(n)
    } else if n < 100 {
        seq!['0', '0'] + dec_digits(n)
    } else if n < 1000 {
        seq!['0'] + dec_digits(n)
    } else {
        dec_digits(n)
    }
}

/// The two characters of a two-digit padded rendering are the number's
/// digits.
pub proof fn lemma_padded2_digits(v: nat)
    requires
        v < 100,
    ensures
        padded2(v) == seq![digit_char(v / 10), digit_char(v % 10)],
{
    if v < 10 {
        assert(padded2(v) =~= seq![digit_char(v / 10), digit_char(v % 10)]);
    } else {
        assert(dec_digits(v / 10) == seq![digit_char(v / 10)]);
        assert(padded2(v) =~= seq![digit_char(v / 10), digit_char(v % 10)]);
    }
}

/// The four characters of a four-digit padded rendering are the number's
/// digits.
pub proof fn lemma_padded4_digits(v: nat)
    requires
        v < 10000,
    ensures
        padded4(v) == seq![
            digit_char(v / 1000),
            digit_char(v / 100 % 10),
            digit_char(v / 10 % 10),
            digit_char(v % 10),
        ],
{
    let expected = seq![
        digit_char(v / 1000),
        digit_char(v / 100 % 10),
        digit_char(v / 10 % 10),
        digit_char(v % 10),
    ];
    if v < 10 {
        assert(padded4(v) =~= expected);
    } else if v < 100 {
        assert(dec_digits(v / 10) == seq![digit_char(v / 10)]);
        assert(v / 10 % 10 == v / 10);
        assert(padded4(v) =~= expected);
    } else if v < 1000 {
        assert(dec_digits(v / 10) =~= dec_digits(v / 10 / 10) + seq![digit_char(v / 10 % 10)]);
        assert(v / 10 / 10 == v / 100);
        assert(dec_digits(v / 100) == seq![digit_char(v / 100)]);
        assert(v / 100 % 10 == v / 100);
        assert(padded4(v) =~= expected);
    } else {
        assert(dec_digits(v) =~= dec_digits(v / 10) + seq![digit_char(v % 10)]);
        assert(dec_digits(v / 10) =~= dec_digits(v / 10 / 10) + seq![digit_char(v / 10 % 10)]);
        assert(v / 10 / 10 == v / 100);
        assert(dec_digits(v / 100) =~= dec_digits(v / 100 / 10) + seq![digit_char(v / 100 % 10)]);
        assert(v / 100 / 10 == v / 1000);
        assert(dec_digits(v / 1000) == seq![digit_char(v / 1000)]);
        assert(padded4(v) =~= expected);
    }
}

/// Renders a number in decimal, zero-padded to at least two characters.
pub fn u64_to_padded2(n: u64) -> (r: String)
    ensures
        r@ == padded2(n as nat),
{
    if n < 10 {
        let mut r = "0".to_owned();
        proof {
            reveal_strlit("0");
        }
        let d = u64_to_dec(n);
        r.append(d.as_str());
        r
    } else {
        u64_to_dec(n)
    }
}

/// Renders a number in decimal, zero-padded to at least four characters.
pub fn u64_to_padded4(n: u64) -> (r: String)
    ensures
        r@ == padded4(n as nat),
{
    if n < 10 {
        let mut r = "000".to_owned();
        proof {
            reveal_strlit("000");
        }
        let d = u64_to_dec(n);
        r.append(d.as_str());
        r
    } else if n < 100 {
        let mut r = "00".to_owned();
        proof {
            reveal_strlit("00");
        }
        let d = u64_to_dec(n);
        r.append(d.as_str());
        r
    } else if n < 1000 {
        let mut r = "0".to_owned();
        proof {
            reveal_strlit("0");
        }
        let d = u64_to_dec(n);
        r.append(d.as_str());
        r
    } else {
        u64_to_dec(n)
    }
}

} // verus!
