//! Decimal numbers, separated lists and CSV lines as text.

use vstd::prelude::*;

verus! {

/// The character of a decimal digit.
pub open spec fn digit_char(d: nat) -> char {
    (48 + d) as char
}

/// The decimal digits of a natural number, most significant first, without leading zeros.
pub open spec fn decimal_digits(n: nat) -> Seq<char>
    decreases n,
{
    if n < 10 {
        seq![digit_char(n)]
    } else {
        decimal_digits(n / 10).push(digit_char(n % 10))
    }
}

/// The decimal notation of an integer: a minus sign for a negative one, then its digits.
pub open spec fn decimal(v: int) -> Seq<char> {
    if v < 0 {
        seq!['-'] + decimal_digits((-v) as nat)
    } else {
        decimal_digits(v as nat)
    }
}

/// The parts, with the separator between each two of them.
pub open spec fn join(parts: Seq<Seq<char>>, sep: Seq<char>) -> Seq<char>
    decreases parts.len(),
{
    if parts.len() == 0 {
        Seq::empty()
    } else if parts.len() == 1 {
        parts[0]
    } else {
        join(parts.drop_last(), sep) + sep + parts.last()
    }
}

/// The text of each string.
pub open spec fn texts(v: Seq<String>) -> Seq<Seq<char>> {
    v.map_values(|s: String| s@)
}

/// The decimal notation of each integer.
pub open spec fn decimals(v: Seq<i32>) -> Seq<Seq<char>> {
    v.map_values(|x: i32| decimal(x as int))
}

/// A decimal digit as a one-character string.
fn digit_str(d: u64) -> (r: &'static str)
    requires
        d < 10,
    ensures
        r@ == seq![digit_char(d as nat)],
{
    proof {
        reveal_strlit("0");
        reveal_strlit("1");
        reveal_strlit("2");
        reveal_strlit("3");
        reveal_strlit("4");
        reveal_strlit("5");
        reveal_strlit("6");
        reveal_strlit("7");
        reveal_strlit("8");
        reveal_strlit("9");
    }
    match d {
        0 => "0",
        1 => "1",
        2 => "2",
        3 => "3",
        4 => "4",
        5 => "5",
        6 => "6",
        7 => "7",
        8 => "8",
        _ => "9",
    }
}

/// Appends the decimal digits of a natural number.
fn append_digits(s: &mut String, n: u64)
    ensures
        final(s)@ == old(s)@ + decimal_digits(n as nat),
    decreases n,
{
    if n >= 10 {
        append_digits(s, n / 10);
    }
    s.append(digit_str(n % 10));
    proof {
        if n < 10 {
            assert(n % 10 == n);
        }
    }
}

/// The decimal notation of an integer as a string.
pub fn decimal_of(v: i64) -> (r: String)
    ensures
        r@ == decimal(v as int),
{
    if v < 0 {
        let mut s = String::from_str("-");
        proof {
            reveal_strlit("-");
        }
        let magnitude = (0i128 - v as i128) as u64;
        append_digits(&mut s, magnitude);
        s
    } else {
        let mut s = String::new();
        append_digits(&mut s, v as u64);
        assert(s@ =~= decimal(v as int));
        s
    }
}

/// The ids as a comma-and-space separated list, as SQL's `IN (..)` takes them: `[1, 2, 3]`
/// gives `1, 2, 3`.
pub fn vec_to_string(ids: &[i32]) -> (r: String)
    ensures
        r@ == join(decimals(ids@), ", "@),
{
    let mut s = String::new();
    let n = ids.len();
    let ghost parts = decimals(ids@);
    for i in 0..n
        invariant
            n == ids@.len(),
            parts == decimals(ids@),
            s@ == join(parts.take(i as int), ", "@),
    {
        let d = decimal_of(ids[i] as i64);
        proof {
            assert(parts.take(i + 1).drop_last() =~= parts.take(i as int));
            assert(parts.take(i + 1).last() == d@);
        }
        if i > 0 {
            s.append(", ");
        } else {
            assert(parts.take(1) =~= seq![d@]);
            assert(s@ =~= Seq::<char>::empty());
        }
        s.append(d.as_str());
        proof {
            if i == 0 {
                assert(s@ =~= d@);
            }
        }
    }
    proof {
        assert(parts.take(n as int) =~= parts);
    }
    s
}

/// A CSV line: the cells separated by commas, then a line feed.
pub fn csv_line(cells: &[String]) -> (r: String)
    ensures
        r@ == join(texts(cells@), ","@) + "\n"@,
{
    let mut s = String::new();
    let n = cells.len();
    let ghost parts = texts(cells@);
    for i in 0..n
        invariant
            n == cells@.len(),
            parts == texts(cells@),
            s@ == join(parts.take(i as int), ","@),
    {
        proof {
            assert(parts.take(i + 1).drop_last() =~= parts.take(i as int));
            assert(parts.take(i + 1).last() == cells@[i as int]@);
        }
        if i > 0 {
            s.append(",");
        } else {
            assert(parts.take(1) =~= seq![cells@[0]@]);
            assert(s@ =~= Seq::<char>::empty());
        }
        s.append(cells[i].as_str());
        proof {
            if i == 0 {
                assert(s@ =~= cells@[0]@);
            }
        }
    }
    proof {
        assert(parts.take(n as int) =~= parts);
    }
    s.append("\n");
    s
}

} // verus!
