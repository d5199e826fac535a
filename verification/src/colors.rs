//! Hex color strings: parsing of `#RRGGBB` values into RGB components.
use vstd::prelude::*;
use vstd::string::StrSliceExecFns;

verus! {

/// Whether `c` is an ASCII hexadecimal digit.
pub open spec fn is_hex_digit(c: char) -> bool {
    ('0' <= c && c <= '9') || ('a' <= c && c <= 'f') || ('A' <= c && c <= 'F')
}

/// The numeric value of a hexadecimal digit.
pub open spec fn hex_val(c: char) -> int {
    if '0' <= c && c <= '9' {
        c as int - '0' as int
    } else if 'a' <= c && c <= 'f' {
        c as int - 'a' as int + 10
    } else {
        c as int - 'A' as int + 10
    }
}

/// The value of a two-digit hexadecimal pair.
pub open spec fn hex_pair(hi: char, lo: char) -> int {
    16 * hex_val(hi) + hex_val(lo)
}

/// The characters of `s` with every leading `'#'` removed.
pub open spec fn strip_hash(s: Seq<char>) -> Seq<char>
    decreases s.len(),
{
    if s.len() > 0 && s[0] == '#' {
        strip_hash(s.drop_first())
    } else {
        s
    }
}

/// What hex color parsing returns: after removing leading `'#'` characters
/// there must be exactly six hexadecimal digits, read as three byte pairs.
pub open spec fn hex_color_spec(s: Seq<char>) -> Option<(u8, u8, u8)> {
    let h = strip_hash(s);
    if h.len() == 6 && (forall|i: int| 0 <= i < 6 ==> is_hex_digit(#[trigger] h[i])) {
        Some(
            (
                hex_pair(h[0], h[1]) as u8,
                hex_pair(h[2], h[3]) as u8,
                hex_pair(h[4], h[5]) as u8,
            ),
        )
    } else {
        None
    }
}

fn hex_digit_val(c: char) -> (r: Option<u8>)
    ensures
        r matches Some(v) ==> is_hex_digit(c) && v == hex_val(c) && v < 16,
        r is None ==> !is_hex_digit(c),
{
    if '0' <= c && c <= '9' {
        Some(c as u8 - '0' as u8)
    } else if 'a' <= c && c <= 'f' {
        Some(c as u8 - 'a' as u8 + 10)
    } else if 'A' <= c && c <= 'F' {
        Some(c as u8 - 'A' as u8 + 10)
    } else {
        None
    }
}

/// Parse a hex color string to RGB components.
pub fn parse_hex_color(hex: &str) -> (r: Option<(u8, u8, u8)>)
    ensures
        r == hex_color_spec(hex@),
{
    let n = hex.unicode_len();
    let mut start: usize = 0;
    proof {
        assert(hex@.skip(0) =~= hex@);
    }
    while start < n && hex.get_char(start) == '#'
        invariant
            start <= n,
            n == hex@.len(),
            strip_hash(hex@) == strip_hash(hex@.skip(start as int)),
        decreases n - start,
    {
        proof {
            assert(hex@.skip(start as int).drop_first() =~= hex@.skip(start as int + 1));
        }
        start = start + 1;
    }
    proof {
        if start < n {
            assert(strip_hash(hex@.skip(start as int)) == hex@.skip(start as int));
        } else {
            assert(hex@.skip(start as int) =~= Seq::<char>::empty());
        }
    }
    let ghost h = strip_hash(hex@);
    assert(h == hex@.skip(start as int));
    assert(h.len() == n - start);
    if n - start != 6 {
        return None;
    }
    let mut digits: [u8; 6] = [0, 0, 0, 0, 0, 0];
    let mut i: usize = 0;
    while i < 6
        invariant
            i <= 6,
            n == hex@.len(),
            start + 6 == n,
            h == strip_hash(hex@),
            h == hex@.skip(start as int),
            h.len() == 6,
            forall|j: int|
                0 <= j < i ==> is_hex_digit(#[trigger] h[j]) && digits[j] == hex_val(h[j]),
        decreases 6 - i,
    {
        let c = hex.get_char(start + i);
        assert(c == h[i as int]);
        match hex_digit_val(c) {
            Some(v) => {
                digits[i] = v;
            },
            None => {
                return None;
            },
        }
        i = i + 1;
    }
    let r = 16 * digits[0] + digits[1];
    let g = 16 * digits[2] + digits[3];
    let b = 16 * digits[4] + digits[5];
    Some((r, g, b))
}

/// Parse a hex color string to RGBA, attaching the given alpha.
pub fn parse_hex_color_rgba(hex: &str, alpha: u8) -> (r: Option<(u8, u8, u8, u8)>)
    ensures
        r matches Some(v) ==> hex_color_spec(hex@) == Some((v.0, v.1, v.2)) && v.3 == alpha,
        r is None <==> hex_color_spec(hex@) is None,
{
    match parse_hex_color(hex) {
        Some((r, g, b)) => Some((r, g, b, alpha)),
        None => None,
    }
}

} // verus!
