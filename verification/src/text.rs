//! Text as a mathematical value, and decimal numerals as status lines
//! show them.

use vstd::prelude::*;

verus! {

/// The views of a list of strings, in order.
pub open spec fn text_views(lines: Seq<String>) -> Seq<Seq<char>> {
    lines.map_values(|l: String| l@)
}

/// An optional string as a mathematical value.
pub open spec fn opt_text_view(text: Option<String>) -> Option<Seq<char>> {
    match text {
        Some(t) => Some(t@),
        None => None,
    }
}

/// The character that writes the digit `d` in base ten.
pub open spec fn digit_char(d: nat) -> char
    recommends
        d < 10,
{
    if d == 0 {
        '0'
    } else if d == 1 {
        '1'
    } else if d == 2 {
        '2'
    } else if d == 3 {
        '3'
    } else if d == 4 {
        '4'
    } else if d == 5 {
        '5'
    } else if d == 6 {
        '6'
    } else if d == 7 {
        '7'
    } else if d == 8 {
        '8'
    } else {
        '9'
    }
}

/// The decimal numeral of `n`: no sign, no padding, no leading zero.
pub open spec fn decimal(n: nat) -> Seq<char>
    decreases n,
{
    if n < 10 {
        seq![digit_char(n)]
    } else {
        decimal(n / 10).push(digit_char(n % 10))
    }
}

fn digit_str(d: u128) -> (s: &'static str)
    requires
        d < 10,
    ensures
        s@ == seq![digit_char(d as nat)],
{
    proof {
        reveal_strlit("0");
        reveal_strlit("1");
        reveal_strlit("2");
        reveal_strlit("3");
        reveal_strlit("4");
        reveal_strlit("5");
        reveal_strlit("6");
        reveal_strlit("7");
        reveal_strlit("8");
        reveal_strlit("9");
    }
    let s = if d == 0 {
        "0"
    } else if d == 1 {
        "1"
    } else if d == 2 {
        "2"
    } else if d == 3 {
        "3"
    } else if d == 4 {
        "4"
    } else if d == 5 {
        "5"
    } else if d == 6 {
        "6"
    } else if d == 7 {
        "7"
    } else if d == 8 {
        "8"
    } else {
        "9"
    };
    assert(s@ =~= seq![digit_char(d as nat)]);
    s
}

/// Writes `n` in base ten.
pub fn decimal_string(n: u128) -> (s: String)
    ensures
        s@ == decimal(n as nat),
    decreases n,
{
    if n < 10 {
        String::from_str(digit_str(n))
    } else {
        let mut s = decimal_string(n / 10);
        s.append(digit_str(n % 10));
        assert(s@ =~= decimal((n / 10) as nat).push(digit_char((n % 10) as nat)));
        s
    }
}

/// A numeral with a space before every group of three digits, counted from
/// the right.
pub open spec fn grouped(digits: Seq<char>) -> Seq<char>
    decreases digits.len(),
{
    if digits.len() <= 3 {
        digits
    } else {
        grouped(digits.take(digits.len() - 3)) + " "@ + digits.skip(digits.len() - 3)
    }
}

/// The last three digits of a numeral of four digits or more are those of
/// the number's remainder by a thousand, and the digits before them are the
/// numeral of the thousands. A number below ten, a hundred or a thousand
/// has one digit, two or three at most.
pub proof fn lemma_decimal_thousands(n: nat)
    ensures
        decimal(n).len() >= 1,
        n < 10 ==> decimal(n).len() == 1,
        n < 100 ==> decimal(n).len() <= 2,
        n < 1000 ==> decimal(n).len() <= 3,
        n >= 1000 ==> decimal(n) == decimal(n / 1000) + seq![
            digit_char((n / 100) % 10),
            digit_char((n / 10) % 10),
            digit_char(n % 10),
        ],
    decreases n,
{
    if n >= 10 {
        lemma_decimal_thousands(n / 10);
    }
    if n >= 1000 {
        let tens = n / 10;
        let hundreds = n / 100;
        assert(tens / 10 == hundreds);
        assert(hundreds / 10 == n / 1000);
        assert(decimal(n) == decimal(tens).push(digit_char(n % 10)));
        assert(decimal(tens) == decimal(hundreds).push(digit_char(tens % 10)));
        assert(decimal(hundreds) == decimal(n / 1000).push(digit_char(hundreds % 10)));
        assert(decimal(n) =~= decimal(n / 1000) + seq![
            digit_char((n / 100) % 10),
            digit_char((n / 10) % 10),
            digit_char(n % 10),
        ]);
    }
}

/// Writes `n` in base ten, with a space before every group of three digits.
pub fn grouped_string(n: u128) -> (s: String)
    ensures
        s@ == grouped(decimal(n as nat)),
    decreases n,
{
    proof {
        lemma_decimal_thousands(n as nat);
    }
    if n < 1000 {
        decimal_string(n)
    } else {
        let mut s = grouped_string(n / 1000);
        s.append(" ");
        s.append(digit_str((n / 100) % 10));
        s.append(digit_str((n / 10) % 10));
        s.append(digit_str(n % 10));
        proof {
            let digits = decimal(n as nat);
            let last = seq![
                digit_char(((n / 100) % 10) as nat),
                digit_char(((n / 10) % 10) as nat),
                digit_char((n % 10) as nat),
            ];
            lemma_decimal_thousands((n / 1000) as nat);
            assert(digits.take(digits.len() - 3) =~= decimal((n / 1000) as nat));
            assert(digits.skip(digits.len() - 3) =~= last);
            assert(s@ =~= grouped(decimal((n / 1000) as nat)) + " "@ + last);
        }
        s
    }
}

} // verus!
