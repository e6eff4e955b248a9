//! Turning raw text with embedded color-escape sequences into colored
//! text fragments.
//!
//! A color-escape sequence is `ESC [`, a run of digits and
//! semicolons, and one final character.  A final `m` selects a color
//! through a fixed table — the eight base colors and their bright
//! variants, `38;5;N` through the 256-entry palette, `38;2;R;G;B`
//! taken verbatim; any other final character strips the sequence
//! without changing the color.  An `ESC` that opens no full sequence
//! passes through as literal text.  Light and dark mode select
//! between two parallel tables to keep contrast.

use vstd::prelude::*;

use crate::text::chars_of;

verus! {

/// One color, as the red, green and blue bytes shown on screen.
#[derive(Debug, Clone, Copy, PartialEq, Eq, Structural)]
pub struct Rgb {
    pub r: u8,
    pub g: u8,
    pub b: u8,
}

/// One fragment of a line, shown in one color.
#[derive(Debug, Clone)]
pub struct ColoredText {
    pub text: String,
    pub color: Rgb,
}

/// The plain text color: light gray on dark, black on light.
pub open spec fn default_color(dark: bool) -> Rgb {
    if dark {
        Rgb { r: 200, g: 200, b: 200 }
    } else {
        Rgb { r: 0, g: 0, b: 0 }
    }
}

/// The default color a source label seeds a line with.
pub open spec fn prefix_color(prefix: Seq<char>, dark: bool) -> Rgb {
    if prefix == "[FRONTEND]"@ {
        if dark {
            Rgb { r: 100, g: 180, b: 255 }
        } else {
            Rgb { r: 0, g: 80, b: 180 }
        }
    } else if prefix == "[BACKEND]"@ {
        if dark {
            Rgb { r: 100, g: 255, b: 150 }
        } else {
            Rgb { r: 0, g: 120, b: 40 }
        }
    } else if prefix == "[ERROR]"@ {
        if dark {
            Rgb { r: 255, g: 100, b: 100 }
        } else {
            Rgb { r: 180, g: 0, b: 0 }
        }
    } else if prefix == "[SYSTEM]"@ {
        if dark {
            Rgb { r: 255, g: 200, b: 100 }
        } else {
            Rgb { r: 150, g: 90, b: 0 }
        }
    } else {
        default_color(dark)
    }
}

/// The first sixteen palette entries, the classic terminal colors.
pub open spec fn palette_base16(code: u8) -> Rgb {
    if code == 0 {
        Rgb { r: 0, g: 0, b: 0 }
    } else if code == 1 {
        Rgb { r: 128, g: 0, b: 0 }
    } else if code == 2 {
        Rgb { r: 0, g: 128, b: 0 }
    } else if code == 3 {
        Rgb { r: 128, g: 128, b: 0 }
    } else if code == 4 {
        Rgb { r: 0, g: 0, b: 128 }
    } else if code == 5 {
        Rgb { r: 128, g: 0, b: 128 }
    } else if code == 6 {
        Rgb { r: 0, g: 128, b: 128 }
    } else if code == 7 {
        Rgb { r: 192, g: 192, b: 192 }
    } else if code == 8 {
        Rgb { r: 128, g: 128, b: 128 }
    } else if code == 9 {
        Rgb { r: 255, g: 0, b: 0 }
    } else if code == 10 {
        Rgb { r: 0, g: 255, b: 0 }
    } else if code == 11 {
        Rgb { r: 255, g: 255, b: 0 }
    } else if code == 12 {
        Rgb { r: 0, g: 0, b: 255 }
    } else if code == 13 {
        Rgb { r: 255, g: 0, b: 255 }
    } else if code == 14 {
        Rgb { r: 0, g: 255, b: 255 }
    } else {
        Rgb { r: 255, g: 255, b: 255 }
    }
}

/// The 256-entry palette: entries 0–15 literal, 16–231 a 6x6x6 cube
/// stepped by 51, 232–255 a grayscale ramp from 8 stepped by 10.
pub open spec fn palette_256(code: u8) -> Rgb {
    if code <= 15 {
        palette_base16(code)
    } else if code <= 231 {
        let idx = code - 16;
        Rgb { r: ((idx / 36) * 51) as u8, g: (((idx % 36) / 6) * 51) as u8, b: ((idx % 6) * 51) as u8 }
    } else {
        let gray = (8 + (code - 232) * 10) as u8;
        Rgb { r: gray, g: gray, b: gray }
    }
}

/// Looks one code up in the 256-entry palette.
pub fn ansi_256_to_color(code: u8) -> (r: Rgb)
    ensures
        r == palette_256(code),
{
    if code <= 15 {
        if code == 0 {
            Rgb { r: 0, g: 0, b: 0 }
        } else if code == 1 {
            Rgb { r: 128, g: 0, b: 0 }
        } else if code == 2 {
            Rgb { r: 0, g: 128, b: 0 }
        } else if code == 3 {
            Rgb { r: 128, g: 128, b: 0 }
        } else if code == 4 {
            Rgb { r: 0, g: 0, b: 128 }
        } else if code == 5 {
            Rgb { r: 128, g: 0, b: 128 }
        } else if code == 6 {
            Rgb { r: 0, g: 128, b: 128 }
        } else if code == 7 {
            Rgb { r: 192, g: 192, b: 192 }
        } else if code == 8 {
            Rgb { r: 128, g: 128, b: 128 }
        } else if code == 9 {
            Rgb { r: 255, g: 0, b: 0 }
        } else if code == 10 {
            Rgb { r: 0, g: 255, b: 0 }
        } else if code == 11 {
            Rgb { r: 255, g: 255, b: 0 }
        } else if code == 12 {
            Rgb { r: 0, g: 0, b: 255 }
        } else if code == 13 {
            Rgb { r: 255, g: 0, b: 255 }
        } else if code == 14 {
            Rgb { r: 0, g: 255, b: 255 }
        } else {
            Rgb { r: 255, g: 255, b: 255 }
        }
    } else if code <= 231 {
        let idx = code - 16;
        Rgb { r: (idx / 36) * 51, g: ((idx % 36) / 6) * 51, b: (idx % 6) * 51 }
    } else {
        let gray = 8 + (code - 232) * 10;
        Rgb { r: gray, g: gray, b: gray }
    }
}

/// An ASCII decimal digit.
pub open spec fn is_digit(c: char) -> bool {
    '0' <= c && c <= '9'
}

/// The value of one decimal digit.
pub open spec fn digit_val(c: char) -> int {
    (c as u8 - 48) as int
}

/// Whether the sequence is all decimal digits.
pub open spec fn all_digits(s: Seq<char>) -> bool {
    forall|i: int| 0 <= i < s.len() ==> is_digit(#[trigger] s[i])
}

/// The decimal value of a digit sequence.
pub open spec fn digits_val(s: Seq<char>) -> int
    decreases s.len(),
{
    if s.len() == 0 {
        0
    } else {
        digits_val(s.drop_last()) * 10 + digit_val(s.last())
    }
}

/// What one semicolon-separated piece of an escape sequence parses
/// to: a byte, or nothing when it is empty, non-numeric, or over 255.
pub open spec fn parse_u8(s: Seq<char>) -> Option<u8> {
    if s.len() > 0 && all_digits(s) && digits_val(s) <= 255 {
        Some(digits_val(s) as u8)
    } else {
        None
    }
}

/// The parsed codes of an escape sequence's parameters, from position
/// `i` with `cur` the piece being accumulated: pieces are separated
/// by semicolons, and pieces that parse to no byte are skipped.
pub open spec fn codes_from(s: Seq<char>, i: int, cur: Seq<char>) -> Seq<u8>
    decreases s.len() - i,
{
    if i < 0 || i >= s.len() {
        match parse_u8(cur) {
            Some(v) => seq![v],
            None => seq![],
        }
    } else if s[i] == ';' {
        (match parse_u8(cur) {
            Some(v) => seq![v],
            None => seq![],
        }) + codes_from(s, i + 1, seq![])
    } else {
        codes_from(s, i + 1, cur.push(s[i]))
    }
}

/// The parsed codes of an escape sequence's parameter text.
pub open spec fn codes_of(s: Seq<char>) -> Seq<u8> {
    codes_from(s, 0, seq![])
}

/// The color a code list selects: the first code decides, `38` reads
/// the palette or truecolor forms, anything unknown falls back to the
/// default.
pub open spec fn code_color(codes: Seq<u8>, dark: bool) -> Rgb {
    if codes.len() == 0 {
        default_color(dark)
    } else {
        let c0 = codes[0];
        if c0 == 0 || c0 == 39 {
            default_color(dark)
        } else if c0 == 30 {
            if dark {
                Rgb { r: 50, g: 50, b: 50 }
            } else {
                Rgb { r: 0, g: 0, b: 0 }
            }
        } else if c0 == 31 {
            if dark {
                Rgb { r: 255, g: 100, b: 100 }
            } else {
                Rgb { r: 180, g: 0, b: 0 }
            }
        } else if c0 == 32 {
            if dark {
                Rgb { r: 100, g: 255, b: 100 }
            } else {
                Rgb { r: 0, g: 120, b: 0 }
            }
        } else if c0 == 33 {
            if dark {
                Rgb { r: 255, g: 255, b: 100 }
            } else {
                Rgb { r: 150, g: 100, b: 0 }
            }
        } else if c0 == 34 {
            if dark {
                Rgb { r: 100, g: 150, b: 255 }
            } else {
                Rgb { r: 0, g: 0, b: 180 }
            }
        } else if c0 == 35 {
            if dark {
                Rgb { r: 255, g: 100, b: 255 }
            } else {
                Rgb { r: 150, g: 0, b: 150 }
            }
        } else if c0 == 36 {
            if dark {
                Rgb { r: 100, g: 255, b: 255 }
            } else {
                Rgb { r: 0, g: 120, b: 120 }
            }
        } else if c0 == 37 {
            if dark {
                Rgb { r: 220, g: 220, b: 220 }
            } else {
                Rgb { r: 70, g: 70, b: 70 }
            }
        } else if c0 == 38 {
            if codes.len() >= 3 && codes[1] == 5 {
                palette_256(codes[2])
            } else if codes.len() >= 5 && codes[1] == 2 {
                Rgb { r: codes[2], g: codes[3], b: codes[4] }
            } else {
                default_color(dark)
            }
        } else if c0 == 90 {
            if dark {
                Rgb { r: 128, g: 128, b: 128 }
            } else {
                Rgb { r: 60, g: 60, b: 60 }
            }
        } else if c0 == 91 {
            if dark {
                Rgb { r: 255, g: 150, b: 150 }
            } else {
                Rgb { r: 200, g: 50, b: 50 }
            }
        } else if c0 == 92 {
            if dark {
                Rgb { r: 150, g: 255, b: 150 }
            } else {
                Rgb { r: 50, g: 150, b: 50 }
            }
        } else if c0 == 93 {
            if dark {
                Rgb { r: 255, g: 255, b: 150 }
            } else {
                Rgb { r: 180, g: 120, b: 0 }
            }
        } else if c0 == 94 {
            if dark {
                Rgb { r: 150, g: 180, b: 255 }
            } else {
                Rgb { r: 50, g: 50, b: 200 }
            }
        } else if c0 == 95 {
            if dark {
                Rgb { r: 255, g: 150, b: 255 }
            } else {
                Rgb { r: 180, g: 50, b: 180 }
            }
        } else if c0 == 96 {
            if dark {
                Rgb { r: 150, g: 255, b: 255 }
            } else {
                Rgb { r: 50, g: 150, b: 150 }
            }
        } else if c0 == 97 {
            if dark {
                Rgb { r: 255, g: 255, b: 255 }
            } else {
                Rgb { r: 100, g: 100, b: 100 }
            }
        } else {
            default_color(dark)
        }
    }
}

/// An all-digit sequence has a non-negative value.
proof fn lemma_digits_nonneg(s: Seq<char>)
    requires
        all_digits(s),
    ensures
        digits_val(s) >= 0,
    decreases s.len(),
{
    if s.len() > 0 {
        assert forall|i: int| 0 <= i < s.drop_last().len() implies is_digit(
            #[trigger] s.drop_last()[i],
        ) by {
            assert(s.drop_last()[i] == s[i]);
        }
        lemma_digits_nonneg(s.drop_last());
        assert(is_digit(s.last()));
    }
}

/// A digit sequence is worth at least any of its prefixes.
proof fn lemma_digits_prefix_le(s: Seq<char>, i: int)
    requires
        0 <= i <= s.len(),
        all_digits(s),
    ensures
        digits_val(s.subrange(0, i)) <= digits_val(s),
    decreases s.len() - i,
{
    if i == s.len() {
        assert(s.subrange(0, i) =~= s);
    } else {
        assert forall|j: int| 0 <= j < s.subrange(0, i).len() implies is_digit(
            #[trigger] s.subrange(0, i)[j],
        ) by {
            assert(s.subrange(0, i)[j] == s[j]);
        }
        lemma_digits_nonneg(s.subrange(0, i));
        assert(s.subrange(0, i + 1).drop_last() =~= s.subrange(0, i));
        assert(is_digit(s[i]));
        assert(digits_val(s.subrange(0, i + 1)) >= digits_val(s.subrange(0, i)));
        lemma_digits_prefix_le(s, i + 1);
    }
}

/// Parses one semicolon-separated piece as a byte.
fn parse_code_piece(cur: &Vec<char>) -> (r: Option<u8>)
    ensures
        r == parse_u8(cur@),
{
    if cur.len() == 0 {
        return None;
    }
    let mut val: u32 = 0;
    let mut i: usize = 0;
    while i < cur.len()
        invariant
            i <= cur@.len(),
            all_digits(cur@.subrange(0, i as int)),
            val == digits_val(cur@.subrange(0, i as int)),
            val <= 255,
        decreases cur@.len() - i,
    {
        let c = cur[i];
        if !('0' <= c && c <= '9') {
            proof {
                assert(!is_digit(cur@[i as int]));
            }
            return None;
        }
        let d: u32 = (c as u32) - 48;
        let nv: u32 = val * 10 + d;
        proof {
            assert(cur@.subrange(0, i as int + 1).drop_last() =~= cur@.subrange(0, i as int));
            assert(cur@.subrange(0, i as int + 1).last() == cur@[i as int]);
            assert forall|j: int| 0 <= j < i as int + 1 implies is_digit(
                #[trigger] cur@.subrange(0, i as int + 1)[j],
            ) by {
                assert(cur@.subrange(0, i as int + 1)[j] == cur@[j]);
                if j < i as int {
                    assert(cur@.subrange(0, i as int)[j] == cur@[j]);
                }
            }
            assert(digits_val(cur@.subrange(0, i as int + 1)) == nv);
        }
        if nv > 255 {
            proof {
                if all_digits(cur@) {
                    lemma_digits_prefix_le(cur@, i as int + 1);
                    assert(digits_val(cur@) > 255);
                }
            }
            return None;
        }
        val = nv;
        i = i + 1;
    }
    proof {
        assert(cur@.subrange(0, cur@.len() as int) =~= cur@);
    }
    Some(val as u8)
}

/// Splits an escape sequence's parameter text on semicolons and
/// parses each piece, skipping the unparsable ones.
fn parse_codes(v: &Vec<char>) -> (r: Vec<u8>)
    ensures
        r@ == codes_of(v@),
{
    let mut r: Vec<u8> = Vec::new();
    let mut cur: Vec<char> = Vec::new();
    let mut i: usize = 0;
    while i < v.len()
        invariant
            i <= v@.len(),
            codes_of(v@) == r@ + codes_from(v@, i as int, cur@),
        decreases v@.len() - i,
    {
        let ghost prev_r = r@;
        let ghost prev_cur = cur@;
        let c = v[i];
        if c == ';' {
            match parse_code_piece(&cur) {
                Some(b) => {
                    r.push(b);
                    proof {
                        assert(r@ =~= prev_r + seq![b]);
                        assert((prev_r + seq![b]) + codes_from(v@, i as int + 1, Seq::empty())
                            =~= prev_r + (seq![b] + codes_from(v@, i as int + 1, Seq::empty())));
                    }
                },
                None => {
                    proof {
                        assert(prev_r + (seq![] + codes_from(v@, i as int + 1, Seq::empty()))
                            =~= prev_r + codes_from(v@, i as int + 1, Seq::empty()));
                    }
                },
            }
            cur = Vec::new();
            proof {
                assert(cur@ =~= Seq::<char>::empty());
            }
        } else {
            cur.push(c);
        }
        i = i + 1;
    }
    match parse_code_piece(&cur) {
        Some(b) => {
            let ghost prev_r = r@;
            r.push(b);
            proof {
                assert(r@ =~= prev_r + seq![b]);
            }
        },
        None => {
            proof {
                assert(r@ + Seq::<u8>::empty() =~= r@);
            }
        },
    }
    r
}

/// The default plain-text color for a mode.
fn default_color_for(dark: bool) -> (r: Rgb)
    ensures
        r == default_color(dark),
{
    if dark {
        Rgb { r: 200, g: 200, b: 200 }
    } else {
        Rgb { r: 0, g: 0, b: 0 }
    }
}

/// The color a parsed code list selects.
fn color_from_codes(codes: &Vec<u8>, dark: bool) -> (r: Rgb)
    ensures
        r == code_color(codes@, dark),
{
    if codes.len() == 0 {
        return default_color_for(dark);
    }
    let c0 = codes[0];
    if c0 == 0 || c0 == 39 {
        default_color_for(dark)
    } else if c0 == 30 {
        if dark {
            Rgb { r: 50, g: 50, b: 50 }
        } else {
            Rgb { r: 0, g: 0, b: 0 }
        }
    } else if c0 == 31 {
        if dark {
            Rgb { r: 255, g: 100, b: 100 }
        } else {
            Rgb { r: 180, g: 0, b: 0 }
        }
    } else if c0 == 32 {
        if dark {
            Rgb { r: 100, g: 255, b: 100 }
        } else {
            Rgb { r: 0, g: 120, b: 0 }
        }
    } else if c0 == 33 {
        if dark {
            Rgb { r: 255, g: 255, b: 100 }
        } else {
            Rgb { r: 150, g: 100, b: 0 }
        }
    } else if c0 == 34 {
        if dark {
            Rgb { r: 100, g: 150, b: 255 }
        } else {
            Rgb { r: 0, g: 0, b: 180 }
        }
    } else if c0 == 35 {
        if dark {
            Rgb { r: 255, g: 100, b: 255 }
        } else {
            Rgb { r: 150, g: 0, b: 150 }
        }
    } else if c0 == 36 {
        if dark {
            Rgb { r: 100, g: 255, b: 255 }
        } else {
            Rgb { r: 0, g: 120, b: 120 }
        }
    } else if c0 == 37 {
        if dark {
            Rgb { r: 220, g: 220, b: 220 }
        } else {
            Rgb { r: 70, g: 70, b: 70 }
        }
    } else if c0 == 38 {
        if codes.len() >= 3 && codes[1] == 5 {
            ansi_256_to_color(codes[2])
        } else if codes.len() >= 5 && codes[1] == 2 {
            Rgb { r: codes[2], g: codes[3], b: codes[4] }
        } else {
            default_color_for(dark)
        }
    } else if c0 == 90 {
        if dark {
            Rgb { r: 128, g: 128, b: 128 }
        } else {
            Rgb { r: 60, g: 60, b: 60 }
        }
    } else if c0 == 91 {
        if dark {
            Rgb { r: 255, g: 150, b: 150 }
        } else {
            Rgb { r: 200, g: 50, b: 50 }
        }
    } else if c0 == 92 {
        if dark {
            Rgb { r: 150, g: 255, b: 150 }
        } else {
            Rgb { r: 50, g: 150, b: 50 }
        }
    } else if c0 == 93 {
        if dark {
            Rgb { r: 255, g: 255, b: 150 }
        } else {
            Rgb { r: 180, g: 120, b: 0 }
        }
    } else if c0 == 94 {
        if dark {
            Rgb { r: 150, g: 180, b: 255 }
        } else {
            Rgb { r: 50, g: 50, b: 200 }
        }
    } else if c0 == 95 {
        if dark {
            Rgb { r: 255, g: 150, b: 255 }
        } else {
            Rgb { r: 180, g: 50, b: 180 }
        }
    } else if c0 == 96 {
        if dark {
            Rgb { r: 150, g: 255, b: 255 }
        } else {
            Rgb { r: 50, g: 150, b: 150 }
        }
    } else if c0 == 97 {
        if dark {
            Rgb { r: 255, g: 255, b: 255 }
        } else {
            Rgb { r: 100, g: 100, b: 100 }
        }
    } else {
        default_color_for(dark)
    }
}

/// Turns an escape sequence's parameter text (such as `38;5;196`)
/// into the color it selects.
pub fn ansi_code_to_color(code: &str, dark_mode: bool) -> (r: Rgb)
    ensures
        r == code_color(codes_of(code@), dark_mode),
{
    let v = chars_of(code);
    let codes = parse_codes(&v);
    color_from_codes(&codes, dark_mode)
}

/// The default color for a source label, by mode.
pub fn get_prefix_color(prefix: &str, dark_mode: bool) -> (r: Rgb)
    ensures
        r == prefix_color(prefix@, dark_mode),
{
    if crate::text::str_equal(prefix, "[FRONTEND]") {
        if dark_mode {
            Rgb { r: 100, g: 180, b: 255 }
        } else {
            Rgb { r: 0, g: 80, b: 180 }
        }
    } else if crate::text::str_equal(prefix, "[BACKEND]") {
        if dark_mode {
            Rgb { r: 100, g: 255, b: 150 }
        } else {
            Rgb { r: 0, g: 120, b: 40 }
        }
    } else if crate::text::str_equal(prefix, "[ERROR]") {
        if dark_mode {
            Rgb { r: 255, g: 100, b: 100 }
        } else {
            Rgb { r: 180, g: 0, b: 0 }
        }
    } else if crate::text::str_equal(prefix, "[SYSTEM]") {
        if dark_mode {
            Rgb { r: 255, g: 200, b: 100 }
        } else {
            Rgb { r: 150, g: 90, b: 0 }
        }
    } else {
        default_color_for(dark_mode)
    }
}

/// A parameter character of an escape sequence.
pub open spec fn is_param(c: char) -> bool {
    is_digit(c) || c == ';'
}

/// The first position at or after `i` holding a non-parameter
/// character (or the length of `s`).
pub open spec fn params_end(s: Seq<char>, i: int) -> int
    decreases s.len() - i,
{
    if i < 0 || i >= s.len() {
        i
    } else if is_param(s[i]) {
        params_end(s, i + 1)
    } else {
        i
    }
}

/// The length of the escape sequence starting at `i`, or 0 when none
/// does: `ESC [`, a run of parameter characters, and one final
/// character that is not itself an `ESC`.  A sequence cut short by
/// the end of the line or by another `ESC` is no sequence: it passes
/// through as literal text.
pub open spec fn esc_len_at(s: Seq<char>, i: int) -> int {
    if 0 <= i && i + 1 < s.len() && s[i] == '\x1b' && s[i + 1] == '[' {
        let e = params_end(s, i + 2);
        if e < s.len() && s[e] != '\x1b' {
            e + 1 - i
        } else {
            0
        }
    } else {
        0
    }
}

/// Whether the line holds any full escape sequence.
pub open spec fn has_escape(s: Seq<char>) -> bool {
    exists|i: int| esc_len_at(s, i) > 0
}

/// The fragments of `s` from position `i` on: `cur_color` is the
/// current color, `acc` the literal run being accumulated.  A
/// sequence with final `m` selects the next color from its parameter
/// codes; any other sequence is stripped with the color kept; every
/// literal run between sequences becomes one fragment.
pub open spec fn colorize_from(
    s: Seq<char>,
    i: int,
    cur_color: Rgb,
    acc: Seq<char>,
    dark: bool,
) -> Seq<(Seq<char>, Rgb)>
    decreases s.len() - i,
{
    if i < 0 || i >= s.len() {
        if acc.len() == 0 {
            seq![]
        } else {
            seq![(acc, cur_color)]
        }
    } else {
        let l = esc_len_at(s, i);
        if l > 0 {
            let new_color = if s[i + l - 1] == 'm' {
                code_color(codes_of(s.subrange(i + 2, i + l - 1)), dark)
            } else {
                cur_color
            };
            if acc.len() == 0 {
                colorize_from(s, i + l, new_color, Seq::empty(), dark)
            } else {
                seq![(acc, cur_color)] + colorize_from(s, i + l, new_color, Seq::empty(), dark)
            }
        } else {
            colorize_from(s, i + 1, cur_color, acc.push(s[i]), dark)
        }
    }
}

/// The fragment view of a colored-text vector.
pub open spec fn frags_view(v: Seq<ColoredText>) -> Seq<(Seq<char>, Rgb)> {
    v.map_values(|ct: ColoredText| (ct.text@, ct.color))
}

/// What colorizing one line yields: its fragments, seeded with the
/// source label's color; an empty line is one empty fragment.
pub open spec fn parse_spec(s: Seq<char>, c0: Rgb, dark: bool) -> Seq<(Seq<char>, Rgb)> {
    if s.len() == 0 {
        seq![(s, c0)]
    } else {
        colorize_from(s, 0, c0, Seq::empty(), dark)
    }
}

/// The line's characters with every escape sequence removed.
pub open spec fn strip_from(s: Seq<char>, i: int) -> Seq<char>
    decreases s.len() - i,
{
    if i < 0 || i >= s.len() {
        Seq::empty()
    } else {
        let l = esc_len_at(s, i);
        if l > 0 {
            strip_from(s, i + l)
        } else {
            seq![s[i]] + strip_from(s, i + 1)
        }
    }
}

/// The line's characters with every escape sequence removed.
pub open spec fn strip_escapes(s: Seq<char>) -> Seq<char> {
    strip_from(s, 0)
}

/// The concatenated text of a fragment list.
pub open spec fn concat_frags(f: Seq<(Seq<char>, Rgb)>) -> Seq<char>
    decreases f.len(),
{
    if f.len() == 0 {
        Seq::empty()
    } else {
        f[0].0 + concat_frags(f.drop_first())
    }
}

/// The non-parameter run end never moves backwards.
proof fn lemma_params_end_ge(s: Seq<char>, j: int)
    ensures
        params_end(s, j) >= j,
    decreases s.len() - j,
{
    if 0 <= j && j < s.len() && is_param(s[j]) {
        lemma_params_end_ge(s, j + 1);
    }
}

/// Fragment text is conserved: the concatenated fragments equal the
/// accumulated run plus the stripped remainder.
proof fn lemma_colorize_concat(s: Seq<char>, i: int, c: Rgb, acc: Seq<char>, dark: bool)
    requires
        0 <= i,
    ensures
        concat_frags(colorize_from(s, i, c, acc, dark)) == acc + strip_from(s, i),
    decreases s.len() - i,
{
    if i >= s.len() {
        if acc.len() == 0 {
            assert(concat_frags(colorize_from(s, i, c, acc, dark)) =~= acc + strip_from(s, i));
        } else {
            let f = seq![(acc, c)];
            assert(f.drop_first() =~= Seq::<(Seq<char>, Rgb)>::empty());
            assert(concat_frags(f.drop_first()) == Seq::<char>::empty());
            assert(f[0].0 == acc);
            assert(concat_frags(f) == acc + Seq::<char>::empty());
            assert(acc + Seq::<char>::empty() =~= acc + strip_from(s, i));
        }
    } else {
        let l = esc_len_at(s, i);
        if l > 0 {
            let new_color = if s[i + l - 1] == 'm' {
                code_color(codes_of(s.subrange(i + 2, i + l - 1)), dark)
            } else {
                c
            };
            lemma_colorize_concat(s, i + l, new_color, Seq::empty(), dark);
            if acc.len() == 0 {
                assert(Seq::<char>::empty() + strip_from(s, i + l) =~= acc + strip_from(s, i));
            } else {
                let rest = colorize_from(s, i + l, new_color, Seq::empty(), dark);
                assert((seq![(acc, c)] + rest).drop_first() =~= rest);
                assert(concat_frags(seq![(acc, c)] + rest) == acc + concat_frags(rest));
                assert(acc + (Seq::<char>::empty() + strip_from(s, i + l)) =~= acc + strip_from(
                    s,
                    i,
                ));
            }
        } else {
            lemma_colorize_concat(s, i + 1, c, acc.push(s[i]), dark);
            assert(acc.push(s[i]) + strip_from(s, i + 1) =~= acc + (seq![s[i]] + strip_from(
                s,
                i + 1,
            )));
        }
    }
}

/// Concatenating the text of every fragment reproduces the input line
/// with its escape sequences removed: no byte is dropped or
/// duplicated by colorization.
pub proof fn lemma_fragments_reproduce_input(s: Seq<char>, c0: Rgb, dark: bool)
    ensures
        concat_frags(parse_spec(s, c0, dark)) == strip_escapes(s),
{
    if s.len() == 0 {
        let f = seq![(s, c0)];
        assert(f.drop_first() =~= Seq::<(Seq<char>, Rgb)>::empty());
        assert(concat_frags(f.drop_first()) == Seq::<char>::empty());
        assert(f[0].0 == s);
        assert(concat_frags(f) == s + Seq::<char>::empty());
        assert(s + Seq::<char>::empty() =~= s);
        assert(strip_escapes(s) =~= Seq::<char>::empty());
        assert(s =~= Seq::<char>::empty());
    } else {
        lemma_colorize_concat(s, 0, c0, Seq::empty(), dark);
        assert(Seq::<char>::empty() + strip_from(s, 0) =~= strip_from(s, 0));
    }
}

/// On an escape-free remainder, everything accumulates into one
/// fragment in the current color.
proof fn lemma_colorize_noesc(s: Seq<char>, i: int, c: Rgb, acc: Seq<char>, dark: bool)
    requires
        0 <= i <= s.len(),
        forall|j: int| i <= j < s.len() ==> esc_len_at(s, j) == 0,
    ensures
        colorize_from(s, i, c, acc, dark) == if acc.len() + (s.len() - i) == 0 {
            Seq::<(Seq<char>, Rgb)>::empty()
        } else {
            seq![(acc + s.subrange(i, s.len() as int), c)]
        },
    decreases s.len() - i,
{
    if i >= s.len() {
        assert(s.subrange(i, s.len() as int) =~= Seq::<char>::empty());
        if acc.len() > 0 {
            assert(acc + s.subrange(i, s.len() as int) =~= acc);
        }
    } else {
        assert(esc_len_at(s, i) == 0);
        lemma_colorize_noesc(s, i + 1, c, acc.push(s[i]), dark);
        assert(acc.push(s[i]) + s.subrange(i + 1, s.len() as int) =~= acc + s.subrange(
            i,
            s.len() as int,
        ));
    }
}

/// A line with no escape sequence yields exactly one fragment: the
/// whole line, in the source label's default color.
pub proof fn lemma_no_escape_single_fragment(s: Seq<char>, c0: Rgb, dark: bool)
    requires
        !has_escape(s),
    ensures
        parse_spec(s, c0, dark) == seq![(s, c0)],
{
    if s.len() > 0 {
        assert forall|j: int| 0 <= j < s.len() implies esc_len_at(s, j) == 0 by {
            if 0 <= j && j + 1 < s.len() && s[j] == '\x1b' && s[j + 1] == '[' {
                lemma_params_end_ge(s, j + 2);
            }
            assert(!(esc_len_at(s, j) > 0));
        }
        lemma_colorize_noesc(s, 0, c0, Seq::empty(), dark);
        assert(Seq::<char>::empty() + s.subrange(0, s.len() as int) =~= s);
    }
}

/// The first non-parameter position at or after `from`.
fn params_run_end(v: &Vec<char>, from: usize) -> (r: usize)
    requires
        from <= v@.len(),
    ensures
        r == params_end(v@, from as int),
        from <= r <= v@.len(),
{
    let mut i = from;
    while i < v.len()
        invariant
            from <= i <= v@.len(),
            params_end(v@, from as int) == params_end(v@, i as int),
        decreases v@.len() - i,
    {
        let c = v[i];
        if !(('0' <= c && c <= '9') || c == ';') {
            return i;
        }
        i = i + 1;
    }
    i
}

/// Splits one line into colored fragments: a running color starts at
/// the source label's default, escape sequences ending in `m` change
/// it through the color table, every other full sequence is stripped,
/// and each literal run between sequences becomes one fragment in the
/// color current when it began.
pub fn parse_ansi_line(text: &str, prefix: &str, dark_mode: bool) -> (r: Vec<ColoredText>)
    ensures
        frags_view(r@) == parse_spec(text@, prefix_color(prefix@, dark_mode), dark_mode),
{
    let v = chars_of(text);
    let n = v.len();
    let c0 = get_prefix_color(prefix, dark_mode);
    let mut result: Vec<ColoredText> = Vec::new();
    if n == 0 {
        result.push(ColoredText { text: String::new(), color: c0 });
        proof {
            assert(text@ =~= Seq::<char>::empty());
            assert(result@[0].text@ == text@);
            assert(frags_view(result@)[0] == (text@, c0));
            assert(frags_view(result@) =~= seq![(text@, c0)]);
        }
        return result;
    }
    let ghost s = text@;
    let mut color = c0;
    let mut frag_start: usize = 0;
    let mut i: usize = 0;
    proof {
        assert(s.subrange(0, 0) =~= Seq::<char>::empty());
        assert(frags_view(result@) + colorize_from(s, 0, c0, s.subrange(0, 0), dark_mode)
            =~= parse_spec(s, c0, dark_mode));
    }
    while i < n
        invariant
            frag_start <= i <= n,
            n == v@.len(),
            v@ == s,
            s == text@,
            parse_spec(s, c0, dark_mode) == frags_view(result@) + colorize_from(
                s,
                i as int,
                color,
                s.subrange(frag_start as int, i as int),
                dark_mode,
            ),
        decreases n - i,
    {
        let ghost acc = s.subrange(frag_start as int, i as int);
        let mut handled = false;
        if v[i] == '\x1b' && i + 1 < n {
            if v[i + 1] == '[' {
                let e = params_run_end(&v, i + 2);
                if e < n && v[e] != '\x1b' {
                    proof {
                        assert(esc_len_at(s, i as int) == e + 1 - i);
                    }
                    let ghost prev_result = result@;
                    if frag_start < i {
                        let frag = text.substring_char(frag_start, i);
                        result.push(ColoredText { text: String::from_str(frag), color });
                        proof {
                            assert(frags_view(result@) =~= frags_view(prev_result).push(
                                (acc, color),
                            ));
                            assert(frags_view(prev_result).push((acc, color))
                                =~= frags_view(prev_result) + seq![(acc, color)]);
                        }
                    }
                    let ghost old_color = color;
                    let fin = v[e];
                    if fin == 'm' {
                        let params = text.substring_char(i + 2, e);
                        color = ansi_code_to_color(params, dark_mode);
                        proof {
                            assert(params@ == s.subrange(i as int + 2, e as int));
                        }
                    }
                    proof {
                        let l = esc_len_at(s, i as int);
                        assert(s[i as int + l - 1] == s[e as int]);
                        if acc.len() == 0 {
                            assert(colorize_from(s, i as int, old_color, acc, dark_mode)
                                == colorize_from(s, e as int + 1, color, Seq::empty(), dark_mode));
                        } else {
                            assert(colorize_from(s, i as int, old_color, acc, dark_mode)
                                == seq![(acc, old_color)] + colorize_from(
                                s,
                                e as int + 1,
                                color,
                                Seq::empty(),
                                dark_mode,
                            ));
                            assert((frags_view(prev_result) + seq![(acc, old_color)])
                                + colorize_from(s, e as int + 1, color, Seq::empty(), dark_mode)
                                =~= frags_view(prev_result) + (seq![(acc, old_color)]
                                + colorize_from(s, e as int + 1, color, Seq::empty(), dark_mode)));
                        }
                        assert(s.subrange(e as int + 1, e as int + 1) =~= Seq::<char>::empty());
                    }
                    i = e + 1;
                    frag_start = i;
                    handled = true;
                }
            }
        }
        if !handled {
            proof {
                assert(esc_len_at(s, i as int) == 0);
                assert(s.subrange(frag_start as int, i as int).push(s[i as int]) =~= s.subrange(
                    frag_start as int,
                    i as int + 1,
                ));
            }
            i = i + 1;
        }
    }
    let ghost acc = s.subrange(frag_start as int, i as int);
    if frag_start < n {
        let ghost prev_result = result@;
        let frag = text.substring_char(frag_start, n);
        result.push(ColoredText { text: String::from_str(frag), color });
        proof {
            assert(frags_view(result@) =~= frags_view(prev_result).push((acc, color)));
            assert(frags_view(prev_result).push((acc, color)) =~= frags_view(prev_result) + seq![
                (acc, color),
            ]);
        }
    } else {
        proof {
            assert(frags_view(result@) + colorize_from(s, n as int, color, acc, dark_mode)
                =~= frags_view(result@));
        }
    }
    result
}

} // verus!
