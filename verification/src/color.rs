//! Colors, gamma correction, and quantization to PPM pixel lines.
//!
//! A color is a vector whose components conventionally sit in [0, 1] once
//! samples are averaged. Writing a pixel gamma-corrects each channel with a
//! square root, clamps it to [0, 0.999], scales by 256 and truncates — so
//! the emitted byte always lands in [0, 255] whatever the input.

use vstd::arithmetic::div_mod::{lemma_div_is_ordered, lemma_div_pos_is_pos};
use vstd::prelude::*;

use crate::fx::{fxsqrt, in_range, tdiv, SCALE};
use crate::interval::{spec_clamp, Interval};
use crate::vec3::{v3, vwf, Vec3};

verus! {

pub type Color = Vec3;

/// Channel ceiling before quantization: 0.999 in fixed point.
pub const INTENSITY_MAX: i128 = 65470;

/// Relies on alloc's String::push: appends the character at the end.
pub assume_specification[ String::push ](s: &mut String, ch: char)
    ensures
        final(s)@ == old(s)@.push(ch),
;

/// Relies on alloc's String::push_str: appends the slice at the end.
pub assume_specification[ String::push_str ](s: &mut String, other: &str)
    ensures
        final(s)@ == old(s)@ + other@,
;

/// Square-root gamma correction; nonpositive channels map to zero.
pub open spec fn gamma_spec(c: int) -> int {
    if c > 0 {
        fxsqrt(c)
    } else {
        0
    }
}

/// Clamp a channel to [0, 0.999] and truncate 256 times its value.
pub open spec fn byte_of(c: int) -> int {
    tdiv(256 * spec_clamp(0, INTENSITY_MAX as int, c), SCALE as int)
}

pub open spec fn digit_char(d: int) -> char {
    if d == 0 {
        '0'
    } else if d == 1 {
        '1'
    } else if d == 2 {
        '2'
    } else if d == 3 {
        '3'
    } else if d == 4 {
        '4'
    } else if d == 5 {
        '5'
    } else if d == 6 {
        '6'
    } else if d == 7 {
        '7'
    } else if d == 8 {
        '8'
    } else {
        '9'
    }
}

/// The decimal digits of a nonnegative integer, most significant first.
pub open spec fn dec_rep(n: int) -> Seq<char>
    decreases n,
{
    if n < 10 {
        seq![digit_char(n)]
    } else {
        dec_rep(n / 10).push(digit_char(n % 10))
    }
}

/// The full pixel line: three quantized channels separated by spaces, ended
/// by a newline.
pub open spec fn pixel_line(c: Vec3) -> Seq<char> {
    dec_rep(byte_of(gamma_spec(v3(c).0))) + seq![' '] + dec_rep(byte_of(gamma_spec(v3(c).1)))
        + seq![' '] + dec_rep(byte_of(gamma_spec(v3(c).2))) + seq!['\n']
}

/// The concatenation of the pixel lines of a sequence of colors, in order.
pub open spec fn pixel_lines_concat(colors: Seq<Vec3>) -> Seq<char>
    decreases colors.len(),
{
    if colors.len() == 0 {
        Seq::<char>::empty()
    } else {
        pixel_lines_concat(colors.drop_last()) + pixel_line(colors.last())
    }
}

/// How many times `c` occurs in `s`.
pub open spec fn count_char(s: Seq<char>, c: char) -> int
    decreases s.len(),
{
    if s.len() == 0 {
        0
    } else {
        count_char(s.drop_last(), c) + if s.last() == c {
            1int
        } else {
            0int
        }
    }
}

pub proof fn lemma_count_char_concat(a: Seq<char>, b: Seq<char>, c: char)
    ensures
        count_char(a + b, c) == count_char(a, c) + count_char(b, c),
    decreases b.len(),
{
    if b.len() == 0 {
        assert(a + b =~= a);
    } else {
        lemma_count_char_concat(a, b.drop_last(), c);
        assert((a + b).drop_last() =~= a + b.drop_last());
        assert((a + b).last() == b.last());
    }
}

/// Decimal digits never contain a newline.
pub proof fn lemma_dec_rep_no_newline(n: int)
    ensures
        count_char(dec_rep(n), '\n') == 0,
    decreases n,
{
    assert(count_char(Seq::<char>::empty(), '\n') == 0);
    if n < 10 {
        assert(dec_rep(n).drop_last() =~= Seq::<char>::empty());
        assert(dec_rep(n).last() == digit_char(n));
    } else {
        lemma_dec_rep_no_newline(n / 10);
        assert(dec_rep(n).drop_last() =~= dec_rep(n / 10));
        assert(dec_rep(n).last() == digit_char(n % 10));
    }
}

/// A pixel line holds exactly one newline, at its end.
pub proof fn lemma_pixel_line_newlines(c: Vec3)
    ensures
        count_char(pixel_line(c), '\n') == 1,
        pixel_line(c).len() > 0,
        pixel_line(c).last() == '\n',
{
    let d0 = dec_rep(byte_of(gamma_spec(v3(c).0)));
    let d1 = dec_rep(byte_of(gamma_spec(v3(c).1)));
    let d2 = dec_rep(byte_of(gamma_spec(v3(c).2)));
    lemma_dec_rep_no_newline(byte_of(gamma_spec(v3(c).0)));
    lemma_dec_rep_no_newline(byte_of(gamma_spec(v3(c).1)));
    lemma_dec_rep_no_newline(byte_of(gamma_spec(v3(c).2)));
    let sp = seq![' '];
    let nl = seq!['\n'];
    assert(count_char(Seq::<char>::empty(), '\n') == 0);
    assert(count_char(sp, '\n') == 0) by {
        assert(count_char(Seq::<char>::empty(), '\n') == 0);
        assert(sp.drop_last() =~= Seq::<char>::empty());
        assert(sp.last() == ' ');
    }
    assert(count_char(nl, '\n') == 1) by {
        assert(count_char(Seq::<char>::empty(), '\n') == 0);
        assert(nl.drop_last() =~= Seq::<char>::empty());
        assert(nl.last() == '\n');
    }
    lemma_count_char_concat(d0, sp, '\n');
    lemma_count_char_concat(d0 + sp, d1, '\n');
    lemma_count_char_concat(d0 + sp + d1, sp, '\n');
    lemma_count_char_concat(d0 + sp + d1 + sp, d2, '\n');
    lemma_count_char_concat(d0 + sp + d1 + sp + d2, nl, '\n');
    assert(pixel_line(c).last() == '\n');
}

/// Whatever the channel value, the quantized byte fits in [0, 255].
pub proof fn lemma_byte_of_range(c: int)
    ensures
        0 <= byte_of(c) <= 255,
{
    let cl = spec_clamp(0, INTENSITY_MAX as int, c);
    assert(0 <= cl <= 65470);
    assert(0 <= 256 * cl <= 16760320) by (nonlinear_arith)
        requires 0 <= cl <= 65470,
    ;
    lemma_div_pos_is_pos(256 * cl, SCALE as int);
    lemma_div_is_ordered(256 * cl, 16760320, SCALE as int);
    assert(16760320int / 65536int == 255int) by (nonlinear_arith);
}

/// Gamma correction fixes zero and one.
pub proof fn lemma_gamma_fixed_points()
    ensures
        gamma_spec(0) == 0,
        gamma_spec(SCALE as int) == SCALE,
{
    assert(65536int * 65536int == 4294967296int) by (nonlinear_arith);
    assert(65537int * 65537int == 4295098369int) by (nonlinear_arith);
    crate::fx::lemma_isqrt_unique(4294967296nat, 65536nat);
    assert(fxsqrt(SCALE as int) == crate::fx::isqrt((65536 * 65536) as nat));
}

impl Vec3 {
    /// Square-root gamma correction of one channel.
    pub fn linear_to_gamma(comp: i128) -> (r: i128)
        requires
            in_range(comp as int),
        ensures
            r == gamma_spec(comp as int),
            in_range(r as int),
    {
        if comp > 0 {
            crate::fx::fx_sqrt(comp)
        } else {
            0
        }
    }
}

fn push_digit(s: &mut String, d: u64)
    requires
        d < 10,
    ensures
        final(s)@ == old(s)@.push(digit_char(d as int)),
{
    if d == 0 {
        s.push('0');
    } else if d == 1 {
        s.push('1');
    } else if d == 2 {
        s.push('2');
    } else if d == 3 {
        s.push('3');
    } else if d == 4 {
        s.push('4');
    } else if d == 5 {
        s.push('5');
    } else if d == 6 {
        s.push('6');
    } else if d == 7 {
        s.push('7');
    } else if d == 8 {
        s.push('8');
    } else {
        s.push('9');
    }
}

/// Append the decimal digits of `n`.
pub fn push_decimal(s: &mut String, n: u64)
    ensures
        final(s)@ == old(s)@ + dec_rep(n as int),
    decreases n,
{
    if n < 10 {
        push_digit(s, n);
        proof {
            assert(s@ =~= old(s)@ + dec_rep(n as int));
        }
    } else {
        push_decimal(s, n / 10);
        push_digit(s, n % 10);
        proof {
            assert(s@ =~= old(s)@ + dec_rep(n as int));
        }
    }
}

/// Quantize one gamma-corrected channel to its byte.
fn quantize(c: i128) -> (r: u64)
    requires
        in_range(c as int),
    ensures
        r == byte_of(c as int),
{
    let intensity = Interval::new(0, INTENSITY_MAX);
    let clamped: i128 = intensity.clamp(c);
    let scaled: i128 = 256 * clamped;
    let byte: i128 = crate::fx::div_trunc(scaled, SCALE);
    proof {
        lemma_byte_of_range(c as int);
    }
    byte as u64
}

/// The PPM line for one pixel.
pub fn write_color(color: &Color) -> (line: String)
    requires
        vwf(v3(*color)),
    ensures
        line@ == pixel_line(*color),
{
    let r: i128 = Vec3::linear_to_gamma(color.x);
    let g: i128 = Vec3::linear_to_gamma(color.y);
    let b: i128 = Vec3::linear_to_gamma(color.z);
    let mut line = String::new();
    push_decimal(&mut line, quantize(r));
    line.push(' ');
    push_decimal(&mut line, quantize(g));
    line.push(' ');
    push_decimal(&mut line, quantize(b));
    line.push('\n');
    proof {
        assert(line@ =~= pixel_line(*color));
    }
    line
}

} // verus!
