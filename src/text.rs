use vstd::prelude::*;
use vstd::string::*;

verus! {

/// The decimal digit character of `n`, for `n < 10`.
pub open spec fn digit_char(n: int) -> char {
    if n == 0 {
        '0'
    } else if n == 1 {
        '1'
    } else if n == 2 {
        '2'
    } else if n == 3 {
        '3'
    } else if n == 4 {
        '4'
    } else if n == 5 {
        '5'
    } else if n == 6 {
        '6'
    } else if n == 7 {
        '7'
    } else if n == 8 {
        '8'
    } else {
        '9'
    }
}

/// The upper-case hexadecimal digit character of `n`, for `n < 16`.
pub open spec fn hex_char(n: int) -> char {
    if n < 10 {
        digit_char(n)
    } else if n == 10 {
        'A'
    } else if n == 11 {
        'B'
    } else if n == 12 {
        'C'
    } else if n == 13 {
        'D'
    } else if n == 14 {
        'E'
    } else {
        'F'
    }
}

/// `n` in decimal, without leading zeros.
pub open spec fn decimal_text(n: nat) -> Seq<char>
    decreases n,
{
    if n < 10 {
        seq![digit_char(n as int)]
    } else {
        decimal_text(n / 10) + seq![digit_char((n % 10) as int)]
    }
}

/// A byte as two upper-case hexadecimal digits.
pub open spec fn hex_byte_text(b: u8) -> Seq<char> {
    seq![hex_char(b as int / 16), hex_char(b as int % 16)]
}

/// The parts separated by `", "`.
pub open spec fn joined(parts: Seq<Seq<char>>) -> Seq<char>
    decreases parts.len(),
{
    if parts.len() == 0 {
        Seq::empty()
    } else if parts.len() == 1 {
        parts[0]
    } else {
        joined(parts.drop_last()) + ", "@ + parts.last()
    }
}

/// The log line for an array of 32-bit numbers.
pub open spec fn u32_array_line(arr: Seq<u32>) -> Seq<char> {
    "u32 array: ["@ + joined(arr.map_values(|x: u32| decimal_text(x as nat))) + "]"@
}

/// The log line for an array of bytes.
pub open spec fn u8_array_line(arr: Seq<u8>) -> Seq<char> {
    "u8 array: ["@ + joined(arr.map_values(|b: u8| hex_byte_text(b))) + "]"@
}

fn hex_digit(n: u8) -> (r: &'static str)
    requires
        n < 16,
    ensures
        r@ == seq![hex_char(n as int)],
{
    proof {
        reveal_strlit("0");
        reveal_strlit("1");
        reveal_strlit("2");
        reveal_strlit("3");
        reveal_strlit("4");
        reveal_strlit("5");
        reveal_strlit("6");
        reveal_strlit("7");
        reveal_strlit("8");
        reveal_strlit("9");
        reveal_strlit("A");
        reveal_strlit("B");
        reveal_strlit("C");
        reveal_strlit("D");
        reveal_strlit("E");
        reveal_strlit("F");
    }
    let r = if n == 0 {
        "0"
    } else if n == 1 {
        "1"
    } else if n == 2 {
        "2"
    } else if n == 3 {
        "3"
    } else if n == 4 {
        "4"
    } else if n == 5 {
        "5"
    } else if n == 6 {
        "6"
    } else if n == 7 {
        "7"
    } else if n == 8 {
        "8"
    } else if n == 9 {
        "9"
    } else if n == 10 {
        "A"
    } else if n == 11 {
        "B"
    } else if n == 12 {
        "C"
    } else if n == 13 {
        "D"
    } else if n == 14 {
        "E"
    } else {
        "F"
    };
    assert(r@ =~= seq![hex_char(n as int)]);
    r
}

fn append_decimal(out: &mut String, n: u32)
    ensures
        final(out)@ == old(out)@ + decimal_text(n as nat),
    decreases n,
{
    if n >= 10 {
        append_decimal(out, n / 10);
    }
    out.append(hex_digit((n % 10) as u8));
    assert(final(out)@ =~= old(out)@ + decimal_text(n as nat));
}

fn append_hex_byte(out: &mut String, b: u8)
    ensures
        final(out)@ == old(out)@ + hex_byte_text(b),
{
    out.append(hex_digit(b / 16));
    out.append(hex_digit(b % 16));
    assert(final(out)@ =~= old(out)@ + hex_byte_text(b));
}

proof fn lemma_joined_push(parts: Seq<Seq<char>>, p: Seq<char>)
    ensures
        joined(parts.push(p)) == if parts.len() == 0 {
            p
        } else {
            joined(parts) + ", "@ + p
        },
{
    assert(parts.push(p).drop_last() =~= parts);
}

/// `arr` as a log line: `u32 array: [1, 2, 3]`.
pub fn u32_array_text(arr: &[u32]) -> (r: String)
    ensures
        r@ == u32_array_line(arr@),
{
    let mut out = String::from_str("u32 array: [");
    let ghost start = out@;
    let ghost parts = arr@.map_values(|x: u32| decimal_text(x as nat));
    let mut i: usize = 0;
    while i < arr.len()
        invariant
            i <= arr@.len(),
            parts == arr@.map_values(|x: u32| decimal_text(x as nat)),
            start == "u32 array: ["@,
            out@ == start + joined(parts.subrange(0, i as int)),
        decreases arr@.len() - i,
    {
        proof {
            lemma_joined_push(parts.subrange(0, i as int), parts[i as int]);
            assert(parts.subrange(0, i as int + 1) =~= parts.subrange(0, i as int).push(
                parts[i as int],
            ));
        }
        if i > 0 {
            out.append(", ");
        }
        append_decimal(&mut out, arr[i]);
        i = i + 1;
        assert(out@ =~= start + joined(parts.subrange(0, i as int)));
    }
    out.append("]");
    assert(parts.subrange(0, arr@.len() as int) =~= parts);
    assert(out@ =~= u32_array_line(arr@));
    out
}

/// `arr` as a log line of hexadecimal bytes: `u8 array: [0A, FF]`.
pub fn u8_array_text(arr: &[u8]) -> (r: String)
    ensures
        r@ == u8_array_line(arr@),
{
    let mut out = String::from_str("u8 array: [");
    let ghost start = out@;
    let ghost parts = arr@.map_values(|b: u8| hex_byte_text(b));
    let mut i: usize = 0;
    while i < arr.len()
        invariant
            i <= arr@.len(),
            parts == arr@.map_values(|b: u8| hex_byte_text(b)),
            start == "u8 array: ["@,
            out@ == start + joined(parts.subrange(0, i as int)),
        decreases arr@.len() - i,
    {
        proof {
            lemma_joined_push(parts.subrange(0, i as int), parts[i as int]);
            assert(parts.subrange(0, i as int + 1) =~= parts.subrange(0, i as int).push(
                parts[i as int],
            ));
        }
        if i > 0 {
            out.append(", ");
        }
        append_hex_byte(&mut out, arr[i]);
        i = i + 1;
        assert(out@ =~= start + joined(parts.subrange(0, i as int)));
    }
    out.append("]");
    assert(parts.subrange(0, arr@.len() as int) =~= parts);
    assert(out@ =~= u8_array_line(arr@));
    out
}

} // verus!
