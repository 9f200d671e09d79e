//! Decimal text: integers, amounts in whole coins, and joined lists.

use vstd::prelude::*;
use vstd::string::*;
use crate::model::texts;

verus! {

/// Base units (satoshis) in one whole coin.
pub const UNITS_PER_COIN: u64 = 100_000_000;

/// Number of decimal places of an amount expressed in whole coins.
pub const COIN_PLACES: u64 = 8;

/// The character for a single decimal digit.
pub open spec fn digit(d: nat) -> char {
    if d == 0 {
        '0'
    } else if d == 1 {
        '1'
    } else if d == 2 {
        '2'
    } else if d == 3 {
        '3'
    } else if d == 4 {
        '4'
    } else if d == 5 {
        '5'
    } else if d == 6 {
        '6'
    } else if d == 7 {
        '7'
    } else if d == 8 {
        '8'
    } else {
        '9'
    }
}

/// The decimal numeral of `n`, without leading zeros.
pub open spec fn decimal(n: nat) -> Seq<char>
    decreases n,
{
    if n < 10 {
        seq![digit(n)]
    } else {
        decimal(n / 10).push(digit(n % 10))
    }
}

/// The last `width` decimal digits of `n`, zeros included.
pub open spec fn padded(n: nat, width: nat) -> Seq<char>
    decreases width,
{
    if width == 0 {
        Seq::empty()
    } else {
        padded(n / 10, (width - 1) as nat).push(digit(n % 10))
    }
}

/// The last `width` decimal digits of `n` with the zeros at the end dropped;
/// empty when all of them are zero.
pub open spec fn fraction(n: nat, width: nat) -> Seq<char>
    decreases width,
{
    if width == 0 || n % 10 != 0 {
        padded(n, width)
    } else {
        fraction(n / 10, (width - 1) as nat)
    }
}

/// An amount of base units written in whole coins: the whole part, and, when
/// the amount is not a whole number of coins, a point and the fractional
/// digits up to the last one that is not zero.
pub open spec fn coin_decimal(units: nat) -> Seq<char> {
    let whole = decimal(units / (UNITS_PER_COIN as nat));
    let part = units % (UNITS_PER_COIN as nat);
    if part == 0 {
        whole
    } else {
        whole + seq!['.'] + fraction(part, COIN_PLACES as nat)
    }
}

fn digit_str(d: u64) -> (s: &'static str)
    requires
        d < 10,
    ensures
        s@ == seq![digit(d as nat)],
{
    proof {
        reveal_strlit("0");
        reveal_strlit("1");
        reveal_strlit("2");
        reveal_strlit("3");
        reveal_strlit("4");
        reveal_strlit("5");
        reveal_strlit("6");
        reveal_strlit("7");
        reveal_strlit("8");
        reveal_strlit("9");
    }
    let s: &'static str = if d == 0 {
        "0"
    } else if d == 1 {
        "1"
    } else if d == 2 {
        "2"
    } else if d == 3 {
        "3"
    } else if d == 4 {
        "4"
    } else if d == 5 {
        "5"
    } else if d == 6 {
        "6"
    } else if d == 7 {
        "7"
    } else if d == 8 {
        "8"
    } else {
        "9"
    };
    assert(s@ =~= seq![digit(d as nat)]);
    s
}

/// Writes `n` in decimal.
pub fn decimal_string(n: u64) -> (s: String)
    ensures
        s@ == decimal(n as nat),
    decreases n,
{
    if n < 10 {
        String::from_str(digit_str(n))
    } else {
        let mut s = decimal_string(n / 10);
        s.append(digit_str(n % 10));
        s
    }
}

fn padded_string(n: u64, width: u64) -> (s: String)
    ensures
        s@ == padded(n as nat, width as nat),
    decreases width,
{
    if width == 0 {
        String::new()
    } else {
        let mut s = padded_string(n / 10, width - 1);
        s.append(digit_str(n % 10));
        s
    }
}

fn fraction_string(n: u64, width: u64) -> (s: String)
    ensures
        s@ == fraction(n as nat, width as nat),
    decreases width,
{
    if width == 0 || n % 10 != 0 {
        padded_string(n, width)
    } else {
        fraction_string(n / 10, width - 1)
    }
}

/// Writes an amount of base units in whole coins.
pub fn coin_string(units: u64) -> (s: String)
    ensures
        s@ == coin_decimal(units as nat),
{
    let mut s = decimal_string(units / UNITS_PER_COIN);
    let part: u64 = units % UNITS_PER_COIN;
    if part != 0 {
        proof {
            reveal_strlit(".");
        }
        s.append(".");
        let digits = fraction_string(part, COIN_PLACES);
        s.append(digits.as_str());
        assert("."@ =~= seq!['.']);
    }
    s
}

/// A prefix one longer is the prefix with the next element at its end.
pub proof fn lemma_take_next<A>(s: Seq<A>, i: int)
    requires
        0 <= i < s.len(),
    ensures
        s.take(i + 1).drop_last() == s.take(i),
        s.take(i + 1).last() == s[i],
        s.take(i + 1) == s.take(i).push(s[i]),
{
    assert(s.take(i + 1).drop_last() =~= s.take(i));
    assert(s.take(i + 1) =~= s.take(i).push(s[i]));
}

/// Whether `names` holds `name`.
pub fn lists(names: &Vec<String>, name: &String) -> (r: bool)
    ensures
        r == texts(names@).contains(name@),
{
    let mut i: usize = 0;
    while i < names.len()
        invariant
            i <= names.len(),
            forall|j: int| 0 <= j < i ==> texts(names@)[j] != name@,
        decreases names.len() - i,
    {
        if names[i] == *name {
            assert(texts(names@)[i as int] == name@);
            return true;
        }
        i = i + 1;
    }
    false
}

/// The texts of `parts` in order, with `separator` between each two.
pub open spec fn joined(parts: Seq<Seq<char>>, separator: Seq<char>) -> Seq<char>
    decreases parts.len(),
{
    if parts.len() == 0 {
        Seq::empty()
    } else if parts.len() == 1 {
        parts[0]
    } else {
        joined(parts.drop_last(), separator) + separator + parts.last()
    }
}

/// Joins `parts` with `separator` between each two.
pub fn join(parts: &Vec<String>, separator: &str) -> (s: String)
    ensures
        s@ == joined(texts(parts@), separator@),
{
    let ghost all = texts(parts@);
    let mut s = String::new();
    let mut i: usize = 0;
    while i < parts.len()
        invariant
            i <= parts.len(),
            all == texts(parts@),
            s@ == joined(all.take(i as int), separator@),
        decreases parts.len() - i,
    {
        proof {
            lemma_take_next(all, i as int);
        }
        if i > 0 {
            s.append(separator);
        }
        s.append(parts[i].as_str());
        assert(s@ =~= joined(all.take(i + 1), separator@));
        i = i + 1;
    }
    assert(all.take(i as int) =~= all);
    s
}

} // verus!
