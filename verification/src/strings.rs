//! Verified text formatting: hex and zero-padded decimal digits, the
//! delivery path, the file name and the key string are all built
//! character by character against character-sequence specifications.

use vstd::prelude::*;

verus! {

/// The lower-case hex digit of a value below sixteen.
pub open spec fn hex_char(d: int) -> char {
    if d == 0 {
        '0'
    } else if d == 1 {
        '1'
    } else if d == 2 {
        '2'
    } else if d == 3 {
        '3'
    } else if d == 4 {
        '4'
    } else if d == 5 {
        '5'
    } else if d == 6 {
        '6'
    } else if d == 7 {
        '7'
    } else if d == 8 {
        '8'
    } else if d == 9 {
        '9'
    } else if d == 10 {
        'a'
    } else if d == 11 {
        'b'
    } else if d == 12 {
        'c'
    } else if d == 13 {
        'd'
    } else if d == 14 {
        'e'
    } else {
        'f'
    }
}

/// The upper-case hex digit of a value below sixteen.
pub open spec fn hex_char_upper(d: int) -> char {
    if d < 10 {
        hex_char(d)
    } else if d == 10 {
        'A'
    } else if d == 11 {
        'B'
    } else if d == 12 {
        'C'
    } else if d == 13 {
        'D'
    } else if d == 14 {
        'E'
    } else {
        'F'
    }
}

/// The eight lower-case hex digits of a 32-bit word, most significant first.
pub open spec fn spec_hex8(v: u32) -> Seq<char> {
    Seq::new(8, |j: int| hex_char(((v >> ((28 - 4 * j) as u32)) & 0xf) as int))
}

/// `v` in decimal, zero-padded to exactly `width` digits (the low `width`
/// digits when `v` has more).
pub open spec fn spec_dec(v: int, width: int) -> Seq<char>
    decreases width,
{
    if width <= 0 {
        Seq::empty()
    } else {
        spec_dec(v / 10, width - 1).push(hex_char(v % 10))
    }
}

/// The two upper-case hex digits of each byte, in order.
pub open spec fn spec_hex_bytes_upper(bs: Seq<u8>) -> Seq<char>
    decreases bs.len(),
{
    if bs.len() == 0 {
        Seq::empty()
    } else {
        spec_hex_bytes_upper(bs.drop_last()) + seq![
            hex_char_upper(((bs.last() >> 4) & 0xf) as int),
            hex_char_upper((bs.last() & 0xf) as int),
        ]
    }
}

/// The characters of `s` as ASCII bytes.
pub open spec fn ascii_bytes(s: Seq<char>) -> Seq<u8> {
    s.map_values(|c: char| c as u8)
}

/// Appends the hex digit `d`, upper-case when `upper` is set.
fn push_hex_digit(s: &mut String, d: u8, upper: bool)
    requires
        d < 16,
    ensures
        final(s)@ == old(s)@.push(
            if upper {
                hex_char_upper(d as int)
            } else {
                hex_char(d as int)
            },
        ),
{
    let ghost target = if upper {
        hex_char_upper(d as int)
    } else {
        hex_char(d as int)
    };
    proof {
        reveal_strlit("0");
        reveal_strlit("1");
        reveal_strlit("2");
        reveal_strlit("3");
        reveal_strlit("4");
        reveal_strlit("5");
        reveal_strlit("6");
        reveal_strlit("7");
        reveal_strlit("8");
        reveal_strlit("9");
        reveal_strlit("a");
        reveal_strlit("b");
        reveal_strlit("c");
        reveal_strlit("d");
        reveal_strlit("e");
        reveal_strlit("f");
        reveal_strlit("A");
        reveal_strlit("B");
        reveal_strlit("C");
        reveal_strlit("D");
        reveal_strlit("E");
        reveal_strlit("F");
    }
    let piece: &str = match d {
        0 => "0",
        1 => "1",
        2 => "2",
        3 => "3",
        4 => "4",
        5 => "5",
        6 => "6",
        7 => "7",
        8 => "8",
        9 => "9",
        10 => if upper {
            "A"
        } else {
            "a"
        },
        11 => if upper {
            "B"
        } else {
            "b"
        },
        12 => if upper {
            "C"
        } else {
            "c"
        },
        13 => if upper {
            "D"
        } else {
            "d"
        },
        14 => if upper {
            "E"
        } else {
            "e"
        },
        _ => if upper {
            "F"
        } else {
            "f"
        },
    };
    assert(piece@ =~= seq![target]);
    s.append(piece);
    assert(s@ =~= old(s)@.push(target));
}

/// One nibble of `v`: the four bits above the `sh` lowest.
fn nibble(v: u32, sh: u32) -> (r: u8)
    requires
        sh <= 28,
    ensures
        (v >> sh) & 0xf < 16,
        r == ((v >> sh) & 0xf) as u8,
        r < 16,
{
    assert((v >> sh) & 0xf < 16) by (bit_vector);
    ((v >> sh) & 0xf) as u8
}

/// Appends the eight lower-case hex digits of `v`.
pub fn append_hex8(s: &mut String, v: u32)
    ensures
        final(s)@ == old(s)@ + spec_hex8(v),
{
    let ghost s0 = s@;
    push_hex_digit(s, nibble(v, 28), false);
    assert(s@ =~= s0 + spec_hex8(v).take(1));
    push_hex_digit(s, nibble(v, 24), false);
    assert(s@ =~= s0 + spec_hex8(v).take(2));
    push_hex_digit(s, nibble(v, 20), false);
    assert(s@ =~= s0 + spec_hex8(v).take(3));
    push_hex_digit(s, nibble(v, 16), false);
    assert(s@ =~= s0 + spec_hex8(v).take(4));
    push_hex_digit(s, nibble(v, 12), false);
    assert(s@ =~= s0 + spec_hex8(v).take(5));
    push_hex_digit(s, nibble(v, 8), false);
    assert(s@ =~= s0 + spec_hex8(v).take(6));
    push_hex_digit(s, nibble(v, 4), false);
    assert(s@ =~= s0 + spec_hex8(v).take(7));
    push_hex_digit(s, nibble(v, 0), false);
    assert(s@ =~= s0 + spec_hex8(v).take(8));
    assert(spec_hex8(v).take(8) =~= spec_hex8(v));
    assert(s@ == s0 + spec_hex8(v));
}

/// Appends `v` in decimal, zero-padded to exactly `width` digits.
pub fn append_dec(s: &mut String, v: u32, width: usize)
    ensures
        final(s)@ == old(s)@ + spec_dec(v as int, width as int),
    decreases width,
{
    if width == 0 {
        assert(s@ =~= old(s)@ + spec_dec(v as int, 0));
        return ;
    }
    append_dec(s, v / 10, width - 1);
    push_hex_digit(s, (v % 10) as u8, false);
    assert(s@ =~= old(s)@ + spec_dec(v as int, width as int));
}

/// The twelve upper-case hex digits of a six-byte address.
pub fn hex_string_upper(bytes: &[u8]) -> (r: String)
    ensures
        r@ == spec_hex_bytes_upper(bytes@),
{
    let n = bytes.len();
    let mut s = String::new();
    let mut i: usize = 0;
    assert(s@ =~= spec_hex_bytes_upper(bytes@.take(0)));
    while i < n
        invariant
            n == bytes@.len(),
            0 <= i <= n,
            s@ == spec_hex_bytes_upper(bytes@.take(i as int)),
        decreases n - i,
    {
        let b = bytes[i];
        assert((b >> 4) & 0xf < 16 && b & 0xf < 16 && ((b >> 4) & 0xf) == b >> 4) by (bit_vector);
        push_hex_digit(&mut s, b >> 4, true);
        push_hex_digit(&mut s, b & 0xf, true);
        proof {
            assert(bytes@.take(i + 1).drop_last() =~= bytes@.take(i as int));
            assert(s@ =~= spec_hex_bytes_upper(bytes@.take(i + 1)));
        }
        i = i + 1;
    }
    proof {
        assert(bytes@.take(n as int) =~= bytes@);
    }
    s
}

/// The ASCII bytes of `s`, as a vector.
pub fn ascii_str_bytes(s: &str) -> (r: Vec<u8>)
    requires
        s.is_ascii(),
    ensures
        r@ == ascii_bytes(s@),
{
    broadcast use vstd::string::is_ascii_spec_bytes;

    let b = s.as_bytes();
    let v = vstd::slice::slice_to_vec(b);
    assert(v@ =~= ascii_bytes(s@));
    v
}

/// Appends `v` in decimal as ASCII bytes, zero-padded to `width` digits.
pub fn append_dec_bytes(out: &mut Vec<u8>, v: u32, width: usize)
    ensures
        final(out)@ == old(out)@ + ascii_bytes(spec_dec(v as int, width as int)),
    decreases width,
{
    if width == 0 {
        assert(out@ =~= old(out)@ + ascii_bytes(spec_dec(v as int, 0)));
        return ;
    }
    append_dec_bytes(out, v / 10, width - 1);
    let d = (v % 10) as u8;
    out.push(48 + d);
    proof {
        assert(hex_char((v % 10) as int) as u8 == 48 + (v % 10));
        assert(out@ =~= old(out)@ + ascii_bytes(spec_dec(v as int, width as int)));
    }
}

} // verus!
