//! Small verified text-rendering helpers: decimal digits, the four-column
//! zero-padded numbers of the disassembly listing, and hexadecimal digits for
//! the diagnostic form of a double's bit pattern.

use vstd::prelude::*;

verus! {

/// The character for one digit value; digit values `10` and above render as
/// the hexadecimal letters, anything past `15` collapses onto `'f'`.
pub open spec fn digit_char(d: int) -> char {
    if d == 0 {
        '0'
    } else if d == 1 {
        '1'
    } else if d == 2 {
        '2'
    } else if d == 3 {
        '3'
    } else if d == 4 {
        '4'
    } else if d == 5 {
        '5'
    } else if d == 6 {
        '6'
    } else if d == 7 {
        '7'
    } else if d == 8 {
        '8'
    } else if d == 9 {
        '9'
    } else if d == 10 {
        'a'
    } else if d == 11 {
        'b'
    } else if d == 12 {
        'c'
    } else if d == 13 {
        'd'
    } else if d == 14 {
        'e'
    } else {
        'f'
    }
}

/// The decimal rendering of `n`, most significant digit first, no padding.
pub open spec fn dec_digits(n: nat) -> Seq<char>
    decreases n,
{
    if n < 10 {
        seq![digit_char(n as int)]
    } else {
        dec_digits(n / 10).push(digit_char((n % 10) as int))
    }
}

/// The decimal rendering of `n` padded with zeros to at least four columns.
pub open spec fn padded4(n: nat) -> Seq<char> {
    if n < 10 {
        "000"@ + dec_digits(n)
    } else if n < 100 {
        "00"@ + dec_digits(n)
    } else if n < 1000 {
        "0"@ + dec_digits(n)
    } else {
        dec_digits(n)
    }
}

/// The sixteen hexadecimal digits of `b`, most significant nibble first.
pub open spec fn hex_digits(b: u64) -> Seq<char> {
    Seq::new(16, |i: int| digit_char(((b >> (((15 - i) * 4) as u64)) & 0xF) as int))
}

/// One digit as a string slice.
fn digit_str(d: u64) -> (s: &'static str)
    ensures
        s@ == seq![digit_char(d as int)],
{
    proof {
        reveal_strlit("0");
        reveal_strlit("1");
        reveal_strlit("2");
        reveal_strlit("3");
        reveal_strlit("4");
        reveal_strlit("5");
        reveal_strlit("6");
        reveal_strlit("7");
        reveal_strlit("8");
        reveal_strlit("9");
        reveal_strlit("a");
        reveal_strlit("b");
        reveal_strlit("c");
        reveal_strlit("d");
        reveal_strlit("e");
        reveal_strlit("f");
    }
    let s: &'static str = match d {
        0 => "0",
        1 => "1",
        2 => "2",
        3 => "3",
        4 => "4",
        5 => "5",
        6 => "6",
        7 => "7",
        8 => "8",
        9 => "9",
        10 => "a",
        11 => "b",
        12 => "c",
        13 => "d",
        14 => "e",
        _ => "f",
    };
    proof {
        assert(s@ =~= seq![digit_char(d as int)]);
    }
    s
}

/// The decimal rendering of `n` as an owned string.
pub fn dec_string(n: u64) -> (r: String)
    ensures
        r@ == dec_digits(n as nat),
    decreases n,
{
    if n < 10 {
        String::from_str(digit_str(n))
    } else {
        let mut r = dec_string(n / 10);
        r.append(digit_str(n % 10));
        proof {
            assert(r@ =~= dec_digits(n as nat));
        }
        r
    }
}

/// The four-column zero-padded decimal rendering of `n`.
pub fn padded4_string(n: u64) -> (r: String)
    ensures
        r@ == padded4(n as nat),
{
    let mut r: String = if n < 10 {
        String::from_str("000")
    } else if n < 100 {
        String::from_str("00")
    } else if n < 1000 {
        String::from_str("0")
    } else {
        String::new()
    };
    let digits = dec_string(n);
    r.append(digits.as_str());
    proof {
        if n >= 1000 {
            assert(r@ =~= padded4(n as nat));
        }
    }
    r
}

/// The sixteen-digit hexadecimal rendering of `b`.
pub fn hex_string(b: u64) -> (r: String)
    ensures
        r@ == hex_digits(b),
{
    let mut r = String::new();
    let mut i: usize = 0;
    while i < 16
        invariant
            i <= 16,
            r@ == hex_digits(b).take(i as int),
        decreases 16 - i,
    {
        let sh: u64 = ((15 - i) as u64) * 4;
        let d: u64 = (b >> sh) & 0xF;
        r.append(digit_str(d));
        proof {
            assert(r@ =~= hex_digits(b).take(i + 1));
        }
        i = i + 1;
    }
    proof {
        assert(hex_digits(b).take(16) =~= hex_digits(b));
    }
    r
}

} // verus!
