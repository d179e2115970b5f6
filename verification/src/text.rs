//! Small text helpers around the engine: tidying the key line a user types,
//! normalizing spreadsheet colors, and printing scores in decimal.

use vstd::prelude::*;

verus! {

/// Relies on `String::push`: appends the given character to the end of the
/// string.
pub assume_specification[ String::push ](s: &mut String, c: char)
    ensures
        final(s)@ == old(s)@.push(c),
;

/// How one character of a typed key line is tidied: a newline becomes a
/// space and an ASCII lowercase letter its uppercase form; everything else
/// stays as it is.
pub open spec fn key_fmt_char(c: char) -> char {
    if c == '\n' {
        ' '
    } else if 'a' <= c && c <= 'z' {
        (((c as u8) - 32) as u8) as char
    } else {
        c
    }
}

/// Tidies a typed key line into one row of uppercase letters: newlines
/// become spaces and ASCII lowercase letters their uppercase forms, every
/// other character unchanged. Square characters survive either way, so the
/// parsed key is unaffected.
pub fn key_fmt(key: &str) -> (r: String)
    ensures
        r@ == key@.map_values(|c: char| key_fmt_char(c)),
{
    let n = key.unicode_len();
    let mut r = String::new();
    let mut i: usize = 0;
    while i < n
        invariant
            n == key@.len(),
            i <= n,
            r@ == key@.take(i as int).map_values(|c: char| key_fmt_char(c)),
        decreases n - i,
    {
        let c = key.get_char(i);
        let f: char = if c == '\n' {
            ' '
        } else if c >= 'a' && c <= 'z' {
            ((c as u8) - 32) as char
        } else {
            c
        };
        r.push(f);
        proof {
            assert(f == key_fmt_char(key@[i as int]));
            assert(key@.take(i + 1).map_values(|c: char| key_fmt_char(c)) =~= key@.take(
                i as int,
            ).map_values(|c: char| key_fmt_char(c)).push(key_fmt_char(key@[i as int])));
        }
        i += 1;
    }
    proof {
        assert(key@.take(n as int) =~= key@);
    }
    r
}

/// How a spreadsheet font color, read as an RGB or ARGB hex string, becomes
/// a display color: six digits of pure black turn into the theme's light
/// default (black text on a dark table would vanish), six other digits gain
/// a leading `#`, a longer string drops its two alpha digits first, and
/// anything shorter falls back to the default.
pub open spec fn normalized_color(s: Seq<char>) -> Seq<char> {
    if s.len() == 6 && s =~= all_zeros_6() {
        default_color()
    } else if s.len() == 6 {
        seq!['#'] + s
    } else if s.len() >= 2 {
        seq!['#'] + s.skip(2)
    } else {
        default_color()
    }
}

/// The six zero digits of pure black.
pub open spec fn all_zeros_6() -> Seq<char> {
    seq!['0', '0', '0', '0', '0', '0']
}

/// The fallback display color.
pub open spec fn default_color() -> Seq<char> {
    seq!['#', 'f', '2', 'f', '3', 'f', '5']
}

/// Turns a spreadsheet font color into a display hex color, as
/// [`normalized_color`] describes.
pub fn normalize_color(hex: &str) -> (r: String)
    ensures
        r@ == normalized_color(hex@),
{
    let n = hex.unicode_len();
    if n == 6 {
        let mut zeros = true;
        let mut i: usize = 0;
        while i < 6
            invariant
                n == hex@.len(),
                n == 6,
                i <= 6,
                zeros == (forall|j: int| 0 <= j < i ==> hex@[j] == '0'),
            decreases 6 - i,
        {
            if hex.get_char(i) != '0' {
                zeros = false;
            }
            i += 1;
        }
        if zeros {
            proof {
                assert(hex@ =~= all_zeros_6());
            }
            default_color_string()
        } else {
            proof {
                assert(!(hex@ =~= all_zeros_6())) by {
                    if hex@ =~= all_zeros_6() {
                        assert(forall|j: int| 0 <= j < 6 ==> hex@[j] == '0');
                    }
                }
            }
            let mut r = String::new();
            r.push('#');
            r.append(hex);
            proof {
                assert(r@ =~= seq!['#'] + hex@);
            }
            r
        }
    } else if n >= 2 {
        let rest = hex.substring_char(2, n);
        let mut r = String::new();
        r.push('#');
        r.append(rest);
        proof {
            assert(r@ =~= seq!['#'] + hex@.skip(2));
        }
        r
    } else {
        default_color_string()
    }
}

/// The fallback display color as a string.
fn default_color_string() -> (r: String)
    ensures
        r@ == default_color(),
{
    let mut r = String::new();
    r.push('#');
    r.push('f');
    r.push('2');
    r.push('f');
    r.push('3');
    r.push('f');
    r.push('5');
    proof {
        assert(r@ =~= default_color());
    }
    r
}

/// The digit printed for one decimal value.
pub open spec fn digit_char(d: int) -> char {
    if d == 0 {
        '0'
    } else if d == 1 {
        '1'
    } else if d == 2 {
        '2'
    } else if d == 3 {
        '3'
    } else if d == 4 {
        '4'
    } else if d == 5 {
        '5'
    } else if d == 6 {
        '6'
    } else if d == 7 {
        '7'
    } else if d == 8 {
        '8'
    } else {
        '9'
    }
}

/// The decimal digits of a nonnegative value, most significant first.
pub open spec fn dec_digits(n: int) -> Seq<char>
    decreases n,
{
    if n < 10 {
        seq![digit_char(n)]
    } else {
        dec_digits(n / 10).push(digit_char(n % 10))
    }
}

/// A value printed in decimal, with a leading minus sign when negative.
pub open spec fn int_text(n: int) -> Seq<char> {
    if n < 0 {
        seq!['-'] + dec_digits(-n)
    } else {
        dec_digits(n)
    }
}

/// Appends the decimal digits of `n`.
fn push_u32_digits(s: &mut String, n: u32)
    ensures
        final(s)@ == old(s)@ + dec_digits(n as int),
    decreases n,
{
    if n >= 10 {
        push_u32_digits(s, n / 10);
    }
    let d = n % 10;
    let c: char = match d {
        0 => '0',
        1 => '1',
        2 => '2',
        3 => '3',
        4 => '4',
        5 => '5',
        6 => '6',
        7 => '7',
        8 => '8',
        _ => '9',
    };
    proof {
        assert(c == digit_char(n as int % 10));
    }
    s.push(c);
    proof {
        assert(s@ =~= old(s)@ + dec_digits(n as int));
    }
}

/// Appends `n` printed in decimal.
pub fn push_i32(s: &mut String, n: i32)
    ensures
        final(s)@ == old(s)@ + int_text(n as int),
{
    if n < 0 {
        s.push('-');
        let wide: i64 = -(n as i64);
        let m: u32 = wide as u32;
        proof {
            assert(m == -(n as int));
        }
        push_u32_digits(s, m);
        proof {
            assert(s@ =~= old(s)@ + int_text(n as int));
        }
    } else {
        let m: u32 = n as u32;
        push_u32_digits(s, m);
    }
}

} // verus!
