//! Writing numbers as text, and reading them back.
use vstd::prelude::*;

verus! {

/// The character for a digit below sixteen: `0` to `9`, then `a` to `f`.
pub open spec fn digit_char(d: nat) -> char {
    if d == 0 {
        '0'
    } else if d == 1 {
        '1'
    } else if d == 2 {
        '2'
    } else if d == 3 {
        '3'
    } else if d == 4 {
        '4'
    } else if d == 5 {
        '5'
    } else if d == 6 {
        '6'
    } else if d == 7 {
        '7'
    } else if d == 8 {
        '8'
    } else if d == 9 {
        '9'
    } else if d == 10 {
        'a'
    } else if d == 11 {
        'b'
    } else if d == 12 {
        'c'
    } else if d == 13 {
        'd'
    } else if d == 14 {
        'e'
    } else {
        'f'
    }
}

/// The digit that a character stands for, if it is one of `0` to `9` and
/// `a` to `f`.
pub open spec fn digit_value(c: char) -> Option<nat> {
    if c == '0' {
        Some(0)
    } else if c == '1' {
        Some(1)
    } else if c == '2' {
        Some(2)
    } else if c == '3' {
        Some(3)
    } else if c == '4' {
        Some(4)
    } else if c == '5' {
        Some(5)
    } else if c == '6' {
        Some(6)
    } else if c == '7' {
        Some(7)
    } else if c == '8' {
        Some(8)
    } else if c == '9' {
        Some(9)
    } else if c == 'a' {
        Some(10)
    } else if c == 'b' {
        Some(11)
    } else if c == 'c' {
        Some(12)
    } else if c == 'd' {
        Some(13)
    } else if c == 'e' {
        Some(14)
    } else if c == 'f' {
        Some(15)
    } else {
        None
    }
}

/// A number in decimal, without sign or leading zeros.
pub open spec fn decimal(n: nat) -> Seq<char>
    decreases n,
{
    if n < 10 {
        seq![digit_char(n)]
    } else {
        decimal(n / 10).push(digit_char(n % 10))
    }
}

/// The character `fill`, `count` times.
pub open spec fn repeated(fill: char, count: nat) -> Seq<char> {
    Seq::new(count, |i: int| fill)
}

/// A text brought to at least `width` characters by putting `fill` before it.
pub open spec fn padded(text: Seq<char>, width: nat, fill: char) -> Seq<char> {
    if text.len() >= width {
        text
    } else {
        repeated(fill, (width - text.len()) as nat) + text
    }
}

/// The lowest `count` hexadecimal digits of a number, highest first.
pub open spec fn hexadecimal(n: nat, count: nat) -> Seq<char>
    decreases count,
{
    if count == 0 {
        Seq::<char>::empty()
    } else {
        hexadecimal(n / 16, (count - 1) as nat).push(digit_char(n % 16))
    }
}

/// The number that a text of hexadecimal digits stands for; `None` if some
/// character of it is no such digit. The empty text stands for 0.
pub open spec fn hexadecimal_value(text: Seq<char>) -> Option<nat>
    decreases text.len(),
{
    if text.len() == 0 {
        Some(0)
    } else {
        match (hexadecimal_value(text.drop_last()), digit_value(text.last())) {
            (Some(high), Some(low)) => Some(high * 16 + low),
            _ => None,
        }
    }
}

/// Sixteen to the power `count`.
pub open spec fn sixteen_to(count: nat) -> nat
    decreases count,
{
    if count == 0 {
        1
    } else {
        16 * sixteen_to((count - 1) as nat)
    }
}

/// A digit's character stands for that digit.
pub proof fn lemma_digit_round_trip(d: nat)
    requires
        d < 16,
    ensures
        digit_value(digit_char(d)) == Some(d),
{
}

/// Reading back the `count` hexadecimal digits of a number that needs no more
/// than `count` digits gives the number.
pub proof fn lemma_hexadecimal_round_trip(n: nat, count: nat)
    requires
        n < sixteen_to(count),
    ensures
        hexadecimal(n, count).len() == count,
        hexadecimal_value(hexadecimal(n, count)) == Some(n),
    decreases count,
{
    if count > 0 {
        let rest = hexadecimal(n / 16, (count - 1) as nat);
        lemma_hexadecimal_round_trip(n / 16, (count - 1) as nat);
        lemma_digit_round_trip(n % 16);
        assert(hexadecimal(n, count).drop_last() =~= rest);
    }
}

/// Sixteen digits are enough for every 64-bit number.
pub proof fn lemma_sixteen_digits_hold_u64(bits: u64)
    ensures
        bits < sixteen_to(16),
{
    reveal_with_fuel(sixteen_to, 17);
}

/// A text of hexadecimal digits stands for a number below sixteen to the
/// power of its length.
pub proof fn lemma_hexadecimal_value_bound(text: Seq<char>)
    ensures
        hexadecimal_value(text) matches Some(n) ==> n < sixteen_to(text.len()),
    decreases text.len(),
{
    if text.len() > 0 {
        lemma_hexadecimal_value_bound(text.drop_last());
    }
}

/// A text with a character that is no hexadecimal digit stands for no number.
pub proof fn lemma_hexadecimal_value_rejects(text: Seq<char>, i: int)
    requires
        0 <= i < text.len(),
        digit_value(text[i]) is None,
    ensures
        hexadecimal_value(text) is None,
    decreases text.len(),
{
    if i < text.len() - 1 {
        lemma_hexadecimal_value_rejects(text.drop_last(), i);
    }
}

/// Reads a character as a hexadecimal digit.
pub fn read_digit(c: char) -> (r: Option<u8>)
    ensures
        match r {
            Some(d) => d < 16 && digit_value(c) == Some(d as nat),
            None => digit_value(c) is None,
        },
{
    match c {
        '0' => Some(0),
        '1' => Some(1),
        '2' => Some(2),
        '3' => Some(3),
        '4' => Some(4),
        '5' => Some(5),
        '6' => Some(6),
        '7' => Some(7),
        '8' => Some(8),
        '9' => Some(9),
        'a' => Some(10),
        'b' => Some(11),
        'c' => Some(12),
        'd' => Some(13),
        'e' => Some(14),
        'f' => Some(15),
        _ => None,
    }
}

/// The one-character text of a digit.
fn digit_text(d: u8) -> (r: &'static str)
    requires
        d < 16,
    ensures
        r@ == seq![digit_char(d as nat)],
{
    proof {
        reveal_strlit("0");
        reveal_strlit("1");
        reveal_strlit("2");
        reveal_strlit("3");
        reveal_strlit("4");
        reveal_strlit("5");
        reveal_strlit("6");
        reveal_strlit("7");
        reveal_strlit("8");
        reveal_strlit("9");
        reveal_strlit("a");
        reveal_strlit("b");
        reveal_strlit("c");
        reveal_strlit("d");
        reveal_strlit("e");
        reveal_strlit("f");
    }
    let r = match d {
        0 => "0",
        1 => "1",
        2 => "2",
        3 => "3",
        4 => "4",
        5 => "5",
        6 => "6",
        7 => "7",
        8 => "8",
        9 => "9",
        10 => "a",
        11 => "b",
        12 => "c",
        13 => "d",
        14 => "e",
        _ => "f",
    };
    assert(r@ =~= seq![digit_char(d as nat)]);
    r
}

/// Writes a number in decimal at the end of `out`.
pub fn push_decimal(out: &mut String, n: u128)
    ensures
        final(out)@ == old(out)@ + decimal(n as nat),
    decreases n,
{
    if n >= 10 {
        push_decimal(out, n / 10);
    }
    out.append(digit_text((n % 10) as u8));
    assert(out@ =~= old(out)@ + decimal(n as nat));
}

/// How many characters the decimal form of a number has.
pub fn decimal_width(n: u128) -> (r: usize)
    ensures
        r == decimal(n as nat).len(),
        1 <= r <= 39,
    decreases n,
{
    if n < 10 {
        1
    } else {
        let r: usize = decimal_width(n / 10);
        proof {
            lemma_decimal_len_bound(n as nat);
        }
        r + 1
    }
}

/// What fits in 128 bits has at most thirty-nine decimal digits.
proof fn lemma_decimal_len_bound(n: nat)
    requires
        n <= u128::MAX,
    ensures
        decimal(n).len() <= 39,
{
    reveal_with_fuel(decimal, 40);
}

/// Writes a number in decimal at the end of `out`, with as many `fill`
/// characters before it as bring it to `width` characters.
pub(crate) fn push_padded_decimal(out: &mut String, n: u128, width: usize, fill: char)
    requires
        fill == '0' || fill == ' ',
    ensures
        final(out)@ == old(out)@ + padded(decimal(n as nat), width as nat, fill),
{
    let have: usize = decimal_width(n);
    let ghost before = out@;
    let mut i: usize = have;
    while i < width
        invariant
            have <= i,
            have < width ==> i <= width,
            have >= width ==> i == have,
            fill == '0' || fill == ' ',
            out@ =~= before + repeated(fill, (i - have) as nat),
        decreases width - i,
    {
        if fill == '0' {
            proof {
                reveal_strlit("0");
            }
            out.append("0");
        } else {
            proof {
                reveal_strlit(" ");
            }
            out.append(" ");
        }
        i += 1;
        assert(out@ =~= before + repeated(fill, (i - have) as nat));
    }
    let ghost filled = out@;
    push_decimal(out, n);
    proof {
        let digits = decimal(n as nat);
        let fill_count = (i - have) as nat;
        assert(filled == before + repeated(fill, fill_count));
        assert(out@ == filled + digits);
        if have >= width {
            assert(repeated(fill, fill_count) =~= Seq::<char>::empty());
            assert(filled =~= before);
        } else {
            assert(fill_count == width - have);
            assert(out@ =~= before + (repeated(fill, fill_count) + digits));
        }
    }
}

/// Writes the lowest `count` hexadecimal digits of a number at the end of `out`.
pub fn push_hexadecimal(out: &mut String, n: u64, count: usize)
    ensures
        final(out)@ == old(out)@ + hexadecimal(n as nat, count as nat),
    decreases count,
{
    if count > 0 {
        push_hexadecimal(out, n / 16, count - 1);
        out.append(digit_text((n % 16) as u8));
    }
    assert(out@ =~= old(out)@ + hexadecimal(n as nat, count as nat));
}

} // verus!
