use vstd::prelude::*;
use vstd::string::StrSliceExecFns;
use crate::config::PipelineError;
use crate::pixel::Pixel;

verus! {

// ---------------------------------------------------------------------------
// Hex color strings: an optional leading `#`, then exactly six digits (RGB,
// alpha defaults to 255) or exactly eight (RGBA). Anything else is refused.
// ---------------------------------------------------------------------------
pub open spec fn is_hex_digit(c: char) -> bool {
    ('0' <= c && c <= '9') || ('a' <= c && c <= 'f') || ('A' <= c && c <= 'F')
}

pub open spec fn hex_val(c: char) -> int {
    if '0' <= c && c <= '9' {
        c as int - '0' as int
    } else if 'a' <= c && c <= 'f' {
        c as int - 'a' as int + 10
    } else {
        c as int - 'A' as int + 10
    }
}

/// The digits of a color string: the same string with one leading `#`
/// removed, if there is one.
pub open spec fn strip_hash(s: Seq<char>) -> Seq<char> {
    if s.len() > 0 && s[0] == '#' {
        s.subrange(1, s.len() as int)
    } else {
        s
    }
}

pub open spec fn all_hex(s: Seq<char>) -> bool {
    forall|i: int| 0 <= i < s.len() ==> is_hex_digit(s[i])
}

/// The `i`-th byte of an all-hex digit string: two digits, high first.
pub open spec fn byte_at(s: Seq<char>, i: int) -> u8 {
    (16 * hex_val(s[2 * i]) + hex_val(s[2 * i + 1])) as u8
}

/// What a color string denotes, if anything.
pub open spec fn color_spec(s: Seq<char>) -> Option<Pixel> {
    let t = strip_hash(s);
    if (t.len() == 6 || t.len() == 8) && all_hex(t) {
        Some(
            Pixel {
                r: byte_at(t, 0),
                g: byte_at(t, 1),
                b: byte_at(t, 2),
                a: if t.len() == 8 {
                    byte_at(t, 3)
                } else {
                    255
                },
            },
        )
    } else {
        None
    }
}

/// The value of one hex digit, or nothing.
fn hex_digit_val(c: char) -> (r: Option<u8>)
    ensures
        r is Some <==> is_hex_digit(c),
        r is Some ==> r->0 == hex_val(c) && r->0 < 16,
{
    let u = c as u32;
    if 48 <= u && u <= 57 {
        Some((u - 48) as u8)
    } else if 97 <= u && u <= 102 {
        Some((u - 97 + 10) as u8)
    } else if 65 <= u && u <= 70 {
        Some((u - 65 + 10) as u8)
    } else {
        None
    }
}

/// One byte out of the two digits at positions `at` and `at + 1`.
fn hex_pair(s: &str, at: usize) -> (r: Option<u8>)
    requires
        at + 1 < s@.len(),
        s@.len() <= usize::MAX,
    ensures
        r is Some <==> is_hex_digit(s@[at as int]) && is_hex_digit(s@[at as int + 1]),
        r is Some ==> r->0 == 16 * hex_val(s@[at as int]) + hex_val(s@[at as int + 1]),
{
    let hi = hex_digit_val(s.get_char(at));
    let lo = hex_digit_val(s.get_char(at + 1));
    match (hi, lo) {
        (Some(h), Some(l)) => Some(16 * h + l),
        _ => None,
    }
}

/// Parses a hex color string: `#?` then six digits (alpha 255) or eight.
/// Returns exactly the pixel `color_spec` names, and `InvalidParameter` on
/// exactly the strings it refuses.
pub fn parse_color(s: &str) -> (r: Result<Pixel, PipelineError>)
    ensures
        match r {
            Ok(p) => color_spec(s@) == Some(p),
            Err(e) => color_spec(s@) is None && e == PipelineError::InvalidParameter,
        },
{
    let n = s.unicode_len();
    let off: usize = if n > 0 && s.get_char(0) == '#' {
        1
    } else {
        0
    };
    let len = n - off;
    proof {
        assert(strip_hash(s@) =~= s@.subrange(off as int, n as int));
    }
    if len != 6 && len != 8 {
        return Err(PipelineError::InvalidParameter);
    }
    let b0 = hex_pair(s, off);
    let b1 = hex_pair(s, off + 2);
    let b2 = hex_pair(s, off + 4);
    let b3 = if len == 8 {
        hex_pair(s, off + 6)
    } else {
        Some(255)
    };
    proof {
        let t = strip_hash(s@);
        assert forall|i: int| 0 <= i < t.len() implies t[i] == s@[off + i] by {}
    }
    match (b0, b1, b2, b3) {
        (Some(r), Some(g), Some(b), Some(a)) => {
            let p = Pixel { r, g, b, a };
            proof {
                let t = strip_hash(s@);
                assert(all_hex(t)) by {
                    assert forall|i: int| 0 <= i < t.len() implies is_hex_digit(t[i]) by {
                        assert(t[i] == s@[off + i]);
                    }
                }
            }
            Ok(p)
        },
        _ => {
            proof {
                let t = strip_hash(s@);
                if b0 is None {
                    assert(!is_hex_digit(t[0]) || !is_hex_digit(t[1]));
                } else if b1 is None {
                    assert(!is_hex_digit(t[2]) || !is_hex_digit(t[3]));
                } else if b2 is None {
                    assert(!is_hex_digit(t[4]) || !is_hex_digit(t[5]));
                } else {
                    assert(!is_hex_digit(t[6]) || !is_hex_digit(t[7]));
                }
                assert(!all_hex(t));
            }
            Err(PipelineError::InvalidParameter)
        },
    }
}

} // verus!
