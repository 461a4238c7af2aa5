use vstd::prelude::*;
use vstd::utf8::{encode_utf8, is_char_boundary};

use crate::scene::{ColorWrapper};
use crate::vector::Vec3f;
use crate::wrapper::Wrapper;

verus! {

/// A decoded colour: three 8-bit channels from a hex colour, or a vector
/// as written.
#[derive(Clone, Copy, Debug, PartialEq, Eq, Structural)]
pub enum Color {
    Rgb { r: u8, g: u8, b: u8 },
    Vec3(Vec3f),
}

/// The value of a hex digit (`0-9`, `a-f`, `A-F`).
pub open spec fn hex_digit(b: u8) -> Option<u8> {
    if 0x30 <= b <= 0x39 {
        Some((b - 0x30) as u8)
    } else if 0x61 <= b <= 0x66 {
        Some((b - 0x61 + 10) as u8)
    } else if 0x41 <= b <= 0x46 {
        Some((b - 0x41 + 10) as u8)
    } else {
        None
    }
}

pub open spec fn all_hex(w: Seq<u8>) -> bool {
    forall|i: int| 0 <= i < w.len() ==> (#[trigger] hex_digit(w[i])) is Some
}

/// The number that a sequence of hex digits writes.
pub open spec fn digits_value(w: Seq<u8>) -> nat
    decreases w.len(),
{
    if w.len() == 0 {
        0
    } else {
        digits_value(w.drop_last()) * 16 + (hex_digit(w.last())->Some_0 as nat)
    }
}

/// Base-16 reading of bytes: an optional `+` followed by at least one hex
/// digit and nothing else.
pub open spec fn radix16(w: Seq<u8>) -> Option<nat> {
    if w.len() > 0 && w[0] == 0x2bu8 {
        let d = w.drop_first();
        if d.len() > 0 && all_hex(d) {
            Some(digits_value(d))
        } else {
            None
        }
    } else if w.len() > 0 && all_hex(w) {
        Some(digits_value(w))
    } else {
        None
    }
}

/// A hex colour string can be decoded without a fault: when it begins with
/// `#`, its UTF-8 bytes `1..7` form a whole part of the string.
pub open spec fn hex_window_ok(s: Seq<char>) -> bool {
    s.len() > 0 && s[0] == '#' ==> encode_utf8(s).len() >= 7 && is_char_boundary(encode_utf8(s), 7)
}

/// The channels of a hex colour `#rrggbb`: the bytes `1..7` of the string
/// read in base 16; the red, green and blue channels are the third, second
/// and first lowest bytes of that number.
pub open spec fn hex_color(s: Seq<char>) -> Result<Color, Seq<char>> {
    if s.len() > 0 && s[0] == '#' {
        match radix16(encode_utf8(s).subrange(1, 7)) {
            Some(v) => Ok(
                Color::Rgb {
                    r: ((v / 65536) % 256) as u8,
                    g: ((v / 256) % 256) as u8,
                    b: (v % 256) as u8,
                },
            ),
            None => Err("invalid digit found in string"@),
        }
    } else {
        Err(s + " is not a hex color!"@)
    }
}

/// The colour that a colour value gives.
pub open spec fn spec_color_value(c: crate::scene::ColorView) -> Result<Color, Seq<char>> {
    match c {
        crate::scene::ColorView::Vec3(v) => Ok(Color::Vec3(v)),
        crate::scene::ColorView::Hex(s) => hex_color(s),
    }
}

/// `16` to the power `n`.
pub open spec fn pow16(n: nat) -> nat
    decreases n,
{
    if n == 0 {
        1
    } else {
        16 * pow16((n - 1) as nat)
    }
}

proof fn lemma_pow16_mono(a: nat, b: nat)
    requires
        a <= b,
    ensures
        pow16(a) <= pow16(b),
    decreases b,
{
    if a < b {
        lemma_pow16_mono(a, (b - 1) as nat);
    }
}

proof fn lemma_pow16_six()
    ensures
        pow16(6) == 0x1000000,
        pow16(5) == 0x100000,
{
    reveal_with_fuel(pow16, 7);
}

proof fn lemma_digits_value_bound(w: Seq<u8>)
    requires
        all_hex(w),
    ensures
        digits_value(w) < pow16(w.len()),
    decreases w.len(),
{
    if w.len() > 0 {
        let d = w.drop_last();
        assert(all_hex(d)) by {
            assert forall|i: int| 0 <= i < d.len() implies (#[trigger] hex_digit(d[i])) is Some by {
                assert(d[i] == w[i]);
            }
        }
        lemma_digits_value_bound(d);
        let p = pow16(d.len());
        let x = digits_value(d);
        let h = hex_digit(w.last())->Some_0 as nat;
        assert(hex_digit(w[w.len() - 1]) is Some);
        assert(h < 16);
        assert(x * 16 + h < p * 16) by (nonlinear_arith)
            requires
                x < p,
                h < 16,
        ;
        assert(pow16(w.len()) == 16 * p);
    }
}

/// Reads the hex digits `bytes[from..to]` as a number.
fn read_hex(bytes: &[u8], from: usize, to: usize) -> (r: Option<u32>)
    requires
        from <= to <= bytes@.len(),
        to - from <= 6,
    ensures
        match r {
            Some(v) => all_hex(bytes@.subrange(from as int, to as int)) && v == digits_value(
                bytes@.subrange(from as int, to as int),
            ),
            None => !all_hex(bytes@.subrange(from as int, to as int)),
        },
{
    let mut v: u32 = 0;
    let mut k = from;
    while k < to
        invariant
            from <= k <= to <= bytes@.len(),
            to - from <= 6,
            all_hex(bytes@.subrange(from as int, k as int)),
            v == digits_value(bytes@.subrange(from as int, k as int)),
        decreases to - k,
    {
        let b = bytes[k];
        let d: u8 = if 0x30 <= b && b <= 0x39 {
            b - 0x30
        } else if 0x61 <= b && b <= 0x66 {
            b - 0x61 + 10
        } else if 0x41 <= b && b <= 0x46 {
            b - 0x41 + 10
        } else {
            assert(hex_digit(bytes@.subrange(from as int, to as int)[k - from]) is None);
            return None;
        };
        let ghost prev = bytes@.subrange(from as int, k as int);
        let ghost next = bytes@.subrange(from as int, k + 1);
        assert(next.drop_last() =~= prev);
        assert(next.last() == b);
        assert(all_hex(next)) by {
            assert forall|i: int| 0 <= i < next.len() implies (#[trigger] hex_digit(next[i])) is Some by {
                if i < prev.len() {
                    assert(next[i] == prev[i]);
                }
            }
        }
        proof {
            lemma_digits_value_bound(prev);
            lemma_pow16_mono(prev.len(), 5);
            lemma_pow16_six();
        }
        v = v * 16 + d as u32;
        k = k + 1;
    }
    Some(v)
}

/// Reads bytes in base 16 as `u32::from_str_radix` does, for at most six
/// bytes.
fn read_radix16(bytes: &[u8], from: usize, to: usize) -> (r: Option<u32>)
    requires
        from <= to <= bytes@.len(),
        to - from <= 6,
    ensures
        match radix16(bytes@.subrange(from as int, to as int)) {
            Some(v) => r == Some(v as u32) && v < 0x1000000,
            None => r is None,
        },
{
    let ghost w = bytes@.subrange(from as int, to as int);
    if from < to && bytes[from] == 0x2b {
        assert(w.drop_first() =~= bytes@.subrange(from + 1, to as int));
        if from + 1 == to {
            return None;
        }
        let r = read_hex(bytes, from + 1, to);
        proof {
            if r is Some {
                lemma_digits_value_bound(w.drop_first());
                lemma_pow16_mono(w.drop_first().len(), 6);
                lemma_pow16_six();
            }
        }
        r
    } else {
        if from == to {
            return None;
        }
        let r = read_hex(bytes, from, to);
        proof {
            if r is Some {
                lemma_digits_value_bound(w);
                lemma_pow16_mono(w.len(), 6);
                lemma_pow16_six();
            }
        }
        r
    }
}

impl Wrapper<Color> for ColorWrapper {
    open spec fn can_unwrap(&self) -> bool {
        match self {
            ColorWrapper::Hex(s) => hex_window_ok(s@),
            ColorWrapper::Vec3(_) => true,
        }
    }

    /// A vector is kept; a hex string `#rrggbb` is decoded into its three
    /// channels.
    fn unwrap(self) -> (r: Result<Color, String>)
        ensures
            match r {
                Ok(c) => spec_color_value(self@) == Ok::<Color, Seq<char>>(c),
                Err(e) => spec_color_value(self@) == Err::<Color, Seq<char>>(e@),
            },
    {
        match self {
            ColorWrapper::Vec3(v) => Ok(Color::Vec3(v)),
            ColorWrapper::Hex(s) => {
                if crate::text::starts_with_char(s.as_str(), '#') {
                    let bytes = s.as_str().as_bytes();
                    assert(bytes@ == encode_utf8(s@));
                    match read_radix16(bytes, 1, 7) {
                        Some(v) => {
                            let r = ((v / 65536) % 256) as u8;
                            let g = ((v / 256) % 256) as u8;
                            let b = (v % 256) as u8;
                            Ok(Color::Rgb { r, g, b })
                        },
                        None => Err(String::from_str("invalid digit found in string")),
                    }
                } else {
                    Err(s.concat(" is not a hex color!"))
                }
            },
        }
    }
}

/// The value of a hex digit character.
pub open spec fn hex_char(c: char) -> Option<u8> {
    if (c as u32) < 0x80 {
        hex_digit((c as u32) as u8)
    } else {
        None
    }
}

proof fn lemma_ascii_encoding(s: Seq<char>)
    requires
        forall|i: int| 0 <= i < s.len() ==> (s[i] as u32) < 0x80,
    ensures
        encode_utf8(s).len() == s.len(),
        forall|i: int| 0 <= i < s.len() ==> encode_utf8(s)[i] == (s[i] as u32) as u8,
    decreases s.len(),
{
    if s.len() > 0 {
        let t = s.drop_first();
        lemma_ascii_encoding(t);
        let c = s[0] as u32;
        assert(c < 0x80);
        assert((c & 0x7F) as u8 == c as u8) by (bit_vector)
            requires
                c < 0x80,
        ;
        assert(encode_utf8(s) == vstd::utf8::encode_scalar(c) + encode_utf8(t));
        assert(vstd::utf8::encode_scalar(c) == seq![(c & 0x7F) as u8]);
        assert forall|i: int| 0 <= i < s.len() implies encode_utf8(s)[i] == (s[i] as u32) as u8 by {
            if i > 0 {
                assert(encode_utf8(s)[i] == encode_utf8(t)[i - 1]);
                assert(t[i - 1] == s[i]);
            } else {
                assert(encode_utf8(s)[0] == (c & 0x7F) as u8);
            }
        }
    }
}

proof fn lemma_channels(d0: nat, d1: nat, d2: nat, d3: nat, d4: nat, d5: nat)
    requires
        d0 < 16,
        d1 < 16,
        d2 < 16,
        d3 < 16,
        d4 < 16,
        d5 < 16,
    ensures
        ({
            let v = ((((d0 * 16 + d1) * 16 + d2) * 16 + d3) * 16 + d4) * 16 + d5;
            &&& (v / 65536) % 256 == d0 * 16 + d1
            &&& (v / 256) % 256 == d2 * 16 + d3
            &&& v % 256 == d4 * 16 + d5
        }),
{
    let r = d0 * 16 + d1;
    let g = d2 * 16 + d3;
    let b = d4 * 16 + d5;
    let v = ((((d0 * 16 + d1) * 16 + d2) * 16 + d3) * 16 + d4) * 16 + d5;
    assert(v == r * 65536 + g * 256 + b) by (nonlinear_arith)
        requires
            r == d0 * 16 + d1,
            g == d2 * 16 + d3,
            b == d4 * 16 + d5,
            v == ((((d0 * 16 + d1) * 16 + d2) * 16 + d3) * 16 + d4) * 16 + d5,
    ;
    assert(r < 256 && g < 256 && b < 256) by (nonlinear_arith)
        requires
            d0 < 16,
            d1 < 16,
            d2 < 16,
            d3 < 16,
            d4 < 16,
            d5 < 16,
            r == d0 * 16 + d1,
            g == d2 * 16 + d3,
            b == d4 * 16 + d5,
    ;
    assert((v / 65536) % 256 == r && (v / 256) % 256 == g && v % 256 == b) by (nonlinear_arith)
        requires
            v == r * 65536 + g * 256 + b,
            r < 256,
            g < 256,
            b < 256,
    ;
}

/// A colour written `#rrggbb` with hex digits decodes into the channels
/// `rr`, `gg` and `bb`, and can be decoded without a fault.
pub proof fn lemma_hex_color_channels(s: Seq<char>)
    requires
        s.len() == 7,
        s[0] == '#',
        forall|i: int| 1 <= i < 7 ==> (#[trigger] hex_char(s[i])) is Some,
    ensures
        hex_window_ok(s),
        hex_color(s) == Ok::<Color, Seq<char>>(
            Color::Rgb {
                r: (hex_char(s[1])->Some_0 * 16 + hex_char(s[2])->Some_0) as u8,
                g: (hex_char(s[3])->Some_0 * 16 + hex_char(s[4])->Some_0) as u8,
                b: (hex_char(s[5])->Some_0 * 16 + hex_char(s[6])->Some_0) as u8,
            },
        ),
{
    assert(forall|i: int| 0 <= i < s.len() ==> (s[i] as u32) < 0x80) by {
        assert forall|i: int| 0 <= i < s.len() implies (s[i] as u32) < 0x80 by {
            if i > 0 {
                assert(hex_char(s[i]) is Some);
            }
        }
    }
    lemma_ascii_encoding(s);
    let e = encode_utf8(s);
    vstd::utf8::encode_utf8_valid_utf8(s);
    vstd::utf8::is_char_boundary_start_end_of_seq(e);
    let w = e.subrange(1, 7);
    assert forall|i: int| 0 <= i < 6 implies hex_digit(#[trigger] w[i]) == hex_char(s[i + 1]) by {
        assert(w[i] == e[i + 1]);
        assert(hex_char(s[i + 1]) is Some);
    }
    assert(all_hex(w)) by {
        assert forall|i: int| 0 <= i < w.len() implies (#[trigger] hex_digit(w[i])) is Some by {
            assert(hex_digit(w[i]) == hex_char(s[i + 1]));
            assert(hex_char(s[i + 1]) is Some);
        }
    }
    assert(hex_digit(w[0]) is Some);
    assert(w[0] != 0x2bu8);
    let d0 = hex_digit(w[0])->Some_0 as nat;
    let d1 = hex_digit(w[1])->Some_0 as nat;
    let d2 = hex_digit(w[2])->Some_0 as nat;
    let d3 = hex_digit(w[3])->Some_0 as nat;
    let d4 = hex_digit(w[4])->Some_0 as nat;
    let d5 = hex_digit(w[5])->Some_0 as nat;
    assert(w.subrange(0, 1).drop_last() =~= Seq::<u8>::empty());
    assert(w.subrange(0, 2).drop_last() =~= w.subrange(0, 1));
    assert(w.subrange(0, 3).drop_last() =~= w.subrange(0, 2));
    assert(w.subrange(0, 4).drop_last() =~= w.subrange(0, 3));
    assert(w.subrange(0, 5).drop_last() =~= w.subrange(0, 4));
    assert(w.drop_last() =~= w.subrange(0, 5));
    assert(w.subrange(0, 1).last() == w[0]);
    assert(w.subrange(0, 2).last() == w[1]);
    assert(w.subrange(0, 3).last() == w[2]);
    assert(w.subrange(0, 4).last() == w[3]);
    assert(w.subrange(0, 5).last() == w[4]);
    assert(w.last() == w[5]);
    assert(digits_value(Seq::<u8>::empty()) == 0);
    assert(digits_value(w.subrange(0, 1)) == d0);
    assert(digits_value(w.subrange(0, 2)) == d0 * 16 + d1);
    assert(digits_value(w.subrange(0, 3)) == (d0 * 16 + d1) * 16 + d2);
    assert(digits_value(w.subrange(0, 4)) == ((d0 * 16 + d1) * 16 + d2) * 16 + d3);
    assert(digits_value(w.subrange(0, 5)) == (((d0 * 16 + d1) * 16 + d2) * 16 + d3) * 16 + d4);
    assert(digits_value(w) == ((((d0 * 16 + d1) * 16 + d2) * 16 + d3) * 16 + d4) * 16 + d5);
    assert(radix16(w) == Some(digits_value(w)));
    assert(d0 < 16 && d1 < 16 && d2 < 16 && d3 < 16 && d4 < 16 && d5 < 16);
    lemma_channels(d0, d1, d2, d3, d4, d5);
}

/// The standard hex digits: `k` is the value of `c` when `c` is the `k`-th
/// character of `0123456789abcdef` or of `0123456789ABCDEF`.
pub open spec fn is_hex_digit_of(c: char, k: int) -> bool {
    0 <= k < 16 && (c == "0123456789abcdef"@[k] || c == "0123456789ABCDEF"@[k])
}

proof fn lemma_standard_digit(c: char, k: int)
    requires
        is_hex_digit_of(c, k),
    ensures
        hex_char(c) == Some(k as u8),
{
    reveal_strlit("0123456789abcdef");
    reveal_strlit("0123456789ABCDEF");
    if k == 0 {
        assert(c == '0' || c == '0');
    } else if k == 1 {
        assert(c == '1' || c == '1');
    } else if k == 2 {
        assert(c == '2' || c == '2');
    } else if k == 3 {
        assert(c == '3' || c == '3');
    } else if k == 4 {
        assert(c == '4' || c == '4');
    } else if k == 5 {
        assert(c == '5' || c == '5');
    } else if k == 6 {
        assert(c == '6' || c == '6');
    } else if k == 7 {
        assert(c == '7' || c == '7');
    } else if k == 8 {
        assert(c == '8' || c == '8');
    } else if k == 9 {
        assert(c == '9' || c == '9');
    } else if k == 10 {
        assert(c == 'a' || c == 'A');
    } else if k == 11 {
        assert(c == 'b' || c == 'B');
    } else if k == 12 {
        assert(c == 'c' || c == 'C');
    } else if k == 13 {
        assert(c == 'd' || c == 'D');
    } else if k == 14 {
        assert(c == 'e' || c == 'E');
    } else if k == 15 {
        assert(c == 'f' || c == 'F');
    }
}

/// Every `#` followed by six standard hex digits, in either case, decodes:
/// red, green and blue are the values of the three digit pairs, and the
/// colour can be decoded without a fault.
pub proof fn lemma_hex_digits_decode(s: Seq<char>, d: Seq<int>)
    requires
        s.len() == 7,
        s[0] == '#',
        d.len() == 6,
        forall|i: int| 0 <= i < 6 ==> is_hex_digit_of(s[i + 1], #[trigger] d[i]),
    ensures
        hex_window_ok(s),
        hex_color(s) == Ok::<Color, Seq<char>>(
            Color::Rgb {
                r: (d[0] * 16 + d[1]) as u8,
                g: (d[2] * 16 + d[3]) as u8,
                b: (d[4] * 16 + d[5]) as u8,
            },
        ),
{
    assert forall|i: int| 1 <= i < 7 implies (#[trigger] hex_char(s[i])) == Some(d[i - 1] as u8) by {
        assert(is_hex_digit_of(s[(i - 1) + 1], d[i - 1]));
        lemma_standard_digit(s[i], d[i - 1]);
    }
    lemma_hex_color_channels(s);
}

} // verus!
