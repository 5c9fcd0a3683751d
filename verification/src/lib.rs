//! Build-time resource compiler: parses declarative XML resource definitions
//! (strings, numbers, booleans, colors, URLs, dimensions, templates, namespaced
//! hierarchies, interpolated and reference strings, profile-gated variants) and
//! emits source-code constants and functions.

use vstd::prelude::*;

pub mod analysis;
pub mod builder;
pub mod flat;
pub mod gen;
pub mod graph;
pub mod key;
pub mod loader;
pub mod model;
pub mod number;
pub mod parse;
pub mod pipeline;
pub mod profile;
pub mod reader;
pub mod resolve;
pub mod value;
pub mod xml;
pub mod templates;
pub mod text;
pub mod types;

verus! {

/// Typed color parsed from hex text such as `#RRGGBB` or `#AARRGGBB`.
#[derive(Copy, Clone, Debug, PartialEq, Eq, Structural)]
pub struct Color {
    pub r: u8,
    pub g: u8,
    pub b: u8,
    pub a: u8,
}

impl Color {
    pub fn new(r: u8, g: u8, b: u8, a: u8) -> (c: Color)
        ensures
            c == (Color { r, g, b, a }),
    {
        Color { r, g, b, a }
    }

    /// The color as an RGB triple.
    pub fn as_rgb(&self) -> (t: (u8, u8, u8))
        ensures
            t == (self.r, self.g, self.b),
    {
        (self.r, self.g, self.b)
    }

    /// The color packed as a 32-bit integer in ARGB order.
    pub fn as_u32(&self) -> (v: u32)
        ensures
            v == self.a as u32 * 0x1000000 + self.r as u32 * 0x10000 + self.g as u32 * 0x100
                + self.b as u32,
    {
        (self.a as u32) * 0x1000000 + (self.r as u32) * 0x10000 + (self.g as u32) * 0x100
            + (self.b as u32)
    }
}


/// The upper-case hex digit of a value below sixteen.
pub open spec fn spec_hex_digit(v: nat) -> char {
    if v < 10 {
        (((v + 48) as u8) as char)
    } else {
        (((v + 55) as u8) as char)
    }
}

/// Two upper-case hex digits of a byte.
pub open spec fn spec_hex_byte(b: u8) -> Seq<char> {
    seq![spec_hex_digit((b / 16) as nat), spec_hex_digit((b % 16) as nat)]
}

/// Appends the two upper-case hex digits of a byte.
fn push_hex_byte(out: &mut Vec<char>, b: u8)
    ensures
        final(out)@ == old(out)@ + spec_hex_byte(b),
{
    let hi = b / 16;
    let lo = b % 16;
    if hi < 10 {
        out.push(((hi + 48) as u8) as char);
    } else {
        out.push(((hi + 55) as u8) as char);
    }
    if lo < 10 {
        out.push(((lo + 48) as u8) as char);
    } else {
        out.push(((lo + 55) as u8) as char);
    }
    proof {
        assert(out@ =~= old(out)@ + spec_hex_byte(b));
    }
}

/// The hex text of a color: `#RRGGBB` when fully opaque, `#AARRGGBB`
/// otherwise.
pub open spec fn spec_color_hex(c: Color) -> Seq<char> {
    if c.a == 255 {
        seq!['#'] + spec_hex_byte(c.r) + spec_hex_byte(c.g) + spec_hex_byte(c.b)
    } else {
        seq!['#'] + spec_hex_byte(c.a) + spec_hex_byte(c.r) + spec_hex_byte(c.g) + spec_hex_byte(
            c.b,
        )
    }
}

impl Color {
    /// The color as upper-case hex text: `#RRGGBB`, or `#AARRGGBB` when not
    /// fully opaque.
    pub fn as_hex(&self) -> (r: String)
        ensures
            r@ == spec_color_hex(*self),
    {
        let mut out: Vec<char> = Vec::new();
        out.push('#');
        if self.a != 255 {
            push_hex_byte(&mut out, self.a);
        }
        push_hex_byte(&mut out, self.r);
        push_hex_byte(&mut out, self.g);
        push_hex_byte(&mut out, self.b);
        proof {
            assert(out@ =~= spec_color_hex(*self));
        }
        crate::text::chars_to_string(&out)
    }
}

/// The value of an upper- or lower-case hex digit.
pub open spec fn spec_hex_val(c: char) -> int {
    let u = c as u32;
    if 48 <= u && u <= 57 {
        u - 48
    } else if 65 <= u && u <= 70 {
        u - 55
    } else if 97 <= u && u <= 102 {
        u - 87
    } else {
        -1
    }
}

/// Whether a character is a hex digit.
pub open spec fn spec_is_hex(c: char) -> bool {
    spec_hex_val(c) >= 0
}

/// Reads one hex digit.
fn hex_val(c: char) -> (r: Option<u8>)
    ensures
        match r {
            Some(v) => spec_hex_val(c) == v as int && v < 16,
            None => !spec_is_hex(c),
        },
{
    let u = c as u32;
    if 48 <= u && u <= 57 {
        Some((u - 48) as u8)
    } else if 65 <= u && u <= 70 {
        Some((u - 55) as u8)
    } else if 97 <= u && u <= 102 {
        Some((u - 87) as u8)
    } else {
        None
    }
}

/// The byte denoted by two hex digits at `i`.
pub open spec fn spec_hex_pair(s: Seq<char>, i: int) -> Option<int> {
    if spec_is_hex(s[i]) && spec_is_hex(s[i + 1]) {
        Some(spec_hex_val(s[i]) * 16 + spec_hex_val(s[i + 1]))
    } else {
        None
    }
}

/// The alpha, red, green and blue channels of a hex color literal: six digits
/// after `#` mean a fully opaque color, eight carry a leading alpha; anything
/// else is no color literal.
pub open spec fn spec_parse_hex_argb(s: Seq<char>) -> Option<(int, int, int, int)> {
    if s.len() == 7 && s[0] == '#' {
        match (spec_hex_pair(s, 1), spec_hex_pair(s, 3), spec_hex_pair(s, 5)) {
            (Some(r), Some(g), Some(b)) => Some((255int, r, g, b)),
            _ => None,
        }
    } else if s.len() == 9 && s[0] == '#' {
        match (spec_hex_pair(s, 1), spec_hex_pair(s, 3), spec_hex_pair(s, 5), spec_hex_pair(s, 7)) {
            (Some(a), Some(r), Some(g), Some(b)) => Some((a, r, g, b)),
            _ => None,
        }
    } else {
        None
    }
}

/// Reads two hex digits at `i`.
fn hex_pair(s: &Vec<char>, i: usize) -> (r: Option<u8>)
    requires
        i + 1 < s@.len(),
    ensures
        match r {
            Some(v) => spec_hex_pair(s@, i as int) == Some(v as int),
            None => spec_hex_pair(s@, i as int) is None,
        },
{
    let n = s.len();
    proof {
        assert(i + 1 < n);
    }
    match (hex_val(s[i]), hex_val(s[i + 1])) {
        (Some(h), Some(l)) => {
            proof {
                assert(h < 16 && l < 16);
            }
            Some(h * 16 + l)
        },
        _ => None,
    }
}

/// Parses a hex color literal into its alpha, red, green and blue channels.
pub fn parse_hex_argb(s: &str) -> (r: Option<(u8, u8, u8, u8)>)
    ensures
        match r {
            Some(t) => spec_parse_hex_argb(s@) == Some(
                (t.0 as int, t.1 as int, t.2 as int, t.3 as int),
            ),
            None => spec_parse_hex_argb(s@) is None,
        },
{
    let chars = crate::text::str_to_chars(s);
    let n = chars.len();
    if n == 7 && chars[0] == '#' {
        match (hex_pair(&chars, 1), hex_pair(&chars, 3), hex_pair(&chars, 5)) {
            (Some(r), Some(g), Some(b)) => Some((255u8, r, g, b)),
            _ => None,
        }
    } else if n == 9 && chars[0] == '#' {
        match (hex_pair(&chars, 1), hex_pair(&chars, 3), hex_pair(&chars, 5), hex_pair(&chars, 7)) {
            (Some(a), Some(r), Some(g), Some(b)) => Some((a, r, g, b)),
            _ => None,
        }
    } else {
        None
    }
}

/// Typed URL parts split at build time.
#[derive(Debug, Clone)]
pub struct UrlParts {
    pub scheme: String,
    pub host: String,
    pub path: String,
}

impl UrlParts {
    /// Assembles URL parts.
    pub fn new(scheme: &str, host: &str, path: &str) -> (r: UrlParts)
        ensures
            r.scheme@ == scheme@,
            r.host@ == host@,
            r.path@ == path@,
    {
        UrlParts { scheme: scheme.to_owned(), host: host.to_owned(), path: path.to_owned() }
    }

    /// The scheme.
    pub fn scheme(&self) -> (r: &str)
        ensures
            r@ == self.scheme@,
    {
        self.scheme.as_str()
    }

    /// The host.
    pub fn host(&self) -> (r: &str)
        ensures
            r@ == self.host@,
    {
        self.host.as_str()
    }

    /// The path.
    pub fn path(&self) -> (r: &str)
        ensures
            r@ == self.path@,
    {
        self.path.as_str()
    }
}

/// The scheme, host and path of a URL text: the scheme before `://`, the
/// host up to the next `/`, and the path from that `/` on (`/` when absent).
pub open spec fn spec_split_url(s: Seq<char>) -> Option<(Seq<char>, Seq<char>, Seq<char>)> {
    let marker = crate::xml::spec_find_sub(s, 0, "://"@);
    if marker + 3 > s.len() {
        None
    } else {
        let scheme = s.take(marker);
        let rest = s.skip(marker + 3);
        let slash = crate::text::spec_find_char(rest, '/');
        if slash < rest.len() {
            Some((scheme, rest.take(slash), rest.skip(slash)))
        } else {
            Some((scheme, rest, seq!['/']))
        }
    }
}

/// Splits a URL text into scheme, host and path.
pub fn split_url_parts(s: &str) -> (r: Option<(String, String, String)>)
    ensures
        match r {
            Some(t) => spec_split_url(s@) == Some((t.0@, t.1@, t.2@)),
            None => spec_split_url(s@) is None,
        },
{
    let chars = crate::text::str_to_chars(s);
    let pat = crate::text::str_to_chars("://");
    proof {
        reveal_strlit("://");
    }
    let marker = crate::xml::find_sub_from(&chars, 0, &pat);
    let n = chars.len();
    if n < 3 || marker > n - 3 {
        return None;
    }
    let scheme = crate::text::subrange_chars(&chars, 0, marker);
    let rest = crate::text::subrange_chars(&chars, marker + 3, n);
    proof {
        assert(rest@ =~= s@.skip(marker + 3));
    }
    let slash = crate::text::find_char(&rest, '/');
    if slash < rest.len() {
        let host = crate::text::subrange_chars(&rest, 0, slash);
        let path = crate::text::subrange_chars(&rest, slash, rest.len());
        proof {
            assert(host@ =~= rest@.take(slash as int));
            assert(path@ =~= rest@.skip(slash as int));
        }
        Some(
            (
                crate::text::chars_to_string(&scheme),
                crate::text::chars_to_string(&host),
                crate::text::chars_to_string(&path),
            ),
        )
    } else {
        let mut slash_path: Vec<char> = Vec::new();
        slash_path.push('/');
        proof {
            assert(slash_path@ =~= seq!['/']);
        }
        Some(
            (
                crate::text::chars_to_string(&scheme),
                crate::text::chars_to_string(&rest),
                crate::text::chars_to_string(&slash_path),
            ),
        )
    }
}

} // verus!
