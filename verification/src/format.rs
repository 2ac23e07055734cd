use vstd::prelude::*;
use vstd::string::StrSliceExecFns;

verus! {

/// The output codec the encoder will use.
#[derive(Clone, Copy, PartialEq, Eq, Structural, Debug)]
pub enum CodecKind {
    Jpeg,
    Png,
    Gif,
    Bmp,
    Ico,
    Tiff,
    Webp,
}

/// `a` matches `b` up to ASCII case, where `b` is already lower case.
pub open spec fn lower_eq(a: char, b: char) -> bool {
    a == b || ('A' <= a && a <= 'Z' && a as int + 32 == b as int)
}

/// `s` equals the lower-case keyword `kw` up to ASCII case.
pub open spec fn kw_match(s: Seq<char>, kw: Seq<char>) -> bool {
    s.len() == kw.len() && forall|i: int| 0 <= i < s.len() ==> lower_eq(s[i], kw[i])
}

/// The codec a format name denotes in the alias table, if any.
pub open spec fn format_from_name(s: Seq<char>) -> Option<CodecKind> {
    if kw_match(s, "jpeg"@) || kw_match(s, "jpg"@) {
        Some(CodecKind::Jpeg)
    } else if kw_match(s, "png"@) {
        Some(CodecKind::Png)
    } else if kw_match(s, "gif"@) {
        Some(CodecKind::Gif)
    } else if kw_match(s, "bmp"@) {
        Some(CodecKind::Bmp)
    } else if kw_match(s, "ico"@) {
        Some(CodecKind::Ico)
    } else if kw_match(s, "tiff"@) || kw_match(s, "tif"@) {
        Some(CodecKind::Tiff)
    } else if kw_match(s, "webp"@) {
        Some(CodecKind::Webp)
    } else {
        None
    }
}

/// `d` is the position of the last dot of `s`.
pub open spec fn is_last_dot(s: Seq<char>, d: int) -> bool {
    0 <= d < s.len() && s[d] == '.' && forall|j: int| d < j < s.len() ==> s[j] != '.'
}

/// The extension of a path: what follows its last dot, empty without one.
pub open spec fn ext_of(s: Seq<char>) -> Seq<char> {
    if exists|d: int| is_last_dot(s, d) {
        s.subrange((choose|d: int| is_last_dot(s, d)) + 1, s.len() as int)
    } else {
        Seq::empty()
    }
}

/// The codec the destination path's extension denotes, with PNG as the
/// fallback.
pub open spec fn format_from_path(dest: Seq<char>) -> CodecKind {
    match format_from_name(ext_of(dest)) {
        Some(k) => k,
        None => CodecKind::Png,
    }
}

/// The resolved codec: an explicit format name wins where the alias table
/// knows it; otherwise the destination's extension; otherwise PNG.
pub open spec fn resolve_format_spec(format: Option<Seq<char>>, dest: Seq<char>) -> CodecKind {
    match format {
        Some(f) => match format_from_name(f) {
            Some(k) => k,
            None => format_from_path(dest),
        },
        None => format_from_path(dest),
    }
}

/// ASCII-case-insensitive comparison against a lower-case keyword.
fn eq_ignore_case(s: &str, kw: &str) -> (r: bool)
    ensures
        r == kw_match(s@, kw@),
{
    let n = s.unicode_len();
    let m = kw.unicode_len();
    if n != m {
        return false;
    }
    let mut i: usize = 0;
    while i < n
        invariant
            n == s@.len(),
            n == kw@.len(),
            i <= n,
            forall|j: int| 0 <= j < i ==> lower_eq(s@[j], kw@[j]),
        decreases n - i,
    {
        let a = s.get_char(i) as u32;
        let b = kw.get_char(i) as u32;
        let ok = a == b || (65 <= a && a <= 90 && a + 32 == b);
        if !ok {
            proof {
                assert(!lower_eq(s@[i as int], kw@[i as int]));
            }
            return false;
        }
        i = i + 1;
    }
    true
}

/// Exact string equality, character by character.
pub fn str_eq(s: &str, t: &str) -> (r: bool)
    ensures
        r == (s@ == t@),
{
    let n = s.unicode_len();
    let m = t.unicode_len();
    if n != m {
        return false;
    }
    let mut i: usize = 0;
    while i < n
        invariant
            n == s@.len(),
            n == t@.len(),
            i <= n,
            forall|j: int| 0 <= j < i ==> s@[j] == t@[j],
        decreases n - i,
    {
        if s.get_char(i) != t.get_char(i) {
            return false;
        }
        i = i + 1;
    }
    proof {
        assert(s@ =~= t@);
    }
    true
}

/// The codec a format name denotes, by the executable alias table.
fn codec_from_name(s: &str) -> (r: Option<CodecKind>)
    ensures
        r == format_from_name(s@),
{
    if eq_ignore_case(s, "jpeg") || eq_ignore_case(s, "jpg") {
        Some(CodecKind::Jpeg)
    } else if eq_ignore_case(s, "png") {
        Some(CodecKind::Png)
    } else if eq_ignore_case(s, "gif") {
        Some(CodecKind::Gif)
    } else if eq_ignore_case(s, "bmp") {
        Some(CodecKind::Bmp)
    } else if eq_ignore_case(s, "ico") {
        Some(CodecKind::Ico)
    } else if eq_ignore_case(s, "tiff") || eq_ignore_case(s, "tif") {
        Some(CodecKind::Tiff)
    } else if eq_ignore_case(s, "webp") {
        Some(CodecKind::Webp)
    } else {
        None
    }
}

/// The extension of the path, as a slice of it.
fn path_extension<'a>(dest: &'a str) -> (r: &'a str)
    ensures
        r@ == ext_of(dest@),
{
    let n = dest.unicode_len();
    let mut i: usize = n;
    while i > 0
        invariant
            n == dest@.len(),
            i <= n,
            forall|j: int| i <= j < n ==> dest@[j] != '.',
        decreases i,
    {
        if dest.get_char(i - 1) == '.' {
            proof {
                let d = i - 1;
                assert(is_last_dot(dest@, d as int));
                let c = choose|k: int| is_last_dot(dest@, k);
                assert(is_last_dot(dest@, c));
                if c < d {
                    assert(dest@[d as int] == '.');
                    assert(false);
                }
                if c > d {
                    assert(dest@[c] == '.');
                    assert(false);
                }
                assert(c == d);
            }
            let r = dest.substring_char(i, n);
            return r;
        }
        i = i - 1;
    }
    proof {
        if exists|d: int| is_last_dot(dest@, d) {
            let d = choose|d: int| is_last_dot(dest@, d);
            assert(dest@[d] == '.');
            assert(false);
        }
    }
    let r = dest.substring_char(0, 0);
    proof {
        assert(r@ =~= ext_of(dest@));
    }
    r
}

/// Resolves the output codec from the optional configured format name and
/// the destination path, as `resolve_format_spec` says.
pub fn determine_format(format: &Option<String>, destination: &str) -> (r: CodecKind)
    ensures
        r == resolve_format_spec(
            match format {
                Some(f) => Some(f@),
                None => None,
            },
            destination@,
        ),
{
    match format {
        Some(f) => match codec_from_name(f.as_str()) {
            Some(k) => k,
            None => {
                match codec_from_name(path_extension(destination)) {
                    Some(k) => k,
                    None => CodecKind::Png,
                }
            },
        },
        None => {
            match codec_from_name(path_extension(destination)) {
                Some(k) => k,
                None => CodecKind::Png,
            }
        },
    }
}

} // verus!
