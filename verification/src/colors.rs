//! Colour text: reading `#RRGGBB` hex colours and writing them.

use vstd::prelude::*;

use crate::dreamview::Rgb;
use crate::text::{hex2, hex_digit_upper, push_hex2, str_eq};

verus! {

/// `s` without its leading '#' characters (all of them).
pub open spec fn strip_hashes(s: Seq<char>) -> Seq<char>
    decreases s.len(),
{
    if s.len() > 0 && s[0] == '#' {
        strip_hashes(s.drop_first())
    } else {
        s
    }
}

/// The value of a hexadecimal digit of either case.
pub open spec fn hex_value(c: char) -> Option<int> {
    if '0' <= c && c <= '9' {
        Some(c as int - '0' as int)
    } else if 'a' <= c && c <= 'f' {
        Some(c as int - 'a' as int + 10)
    } else if 'A' <= c && c <= 'F' {
        Some(c as int - 'A' as int + 10)
    } else {
        None
    }
}

/// The byte written by two characters in base 16, as `u8::from_str_radix`
/// reads them: two hex digits, or a '+' sign and one hex digit.
pub open spec fn hex_byte(c1: char, c2: char) -> Option<u8> {
    if c1 == '+' {
        match hex_value(c2) {
            Some(v) => Some(v as u8),
            None => None,
        }
    } else {
        match (hex_value(c1), hex_value(c2)) {
            (Some(a), Some(b)) => Some((16 * a + b) as u8),
            _ => None,
        }
    }
}

/// The colour written by `s`: after any leading '#', exactly six ASCII
/// characters forming three base-16 bytes.
pub open spec fn hex_color(s: Seq<char>) -> Option<Rgb> {
    let h = strip_hashes(s);
    if h.len() != 6 {
        None
    } else {
        match (hex_byte(h[0], h[1]), hex_byte(h[2], h[3]), hex_byte(h[4], h[5])) {
            (Some(r), Some(g), Some(b)) => Some((r, g, b)),
            _ => None,
        }
    }
}

/// The `#RRGGBB` text of a colour, upper-case.
pub open spec fn hex_code(c: Rgb) -> Seq<char> {
    seq!['#'] + hex2(c.0) + hex2(c.1) + hex2(c.2)
}

fn hex_value_exec(c: char) -> (v: Option<u8>)
    ensures
        match hex_value(c) {
            Some(x) => v == Some(x as u8),
            None => v is None,
        },
        v matches Some(x) ==> x < 16,
{
    if '0' <= c && c <= '9' {
        Some((c as u32 - '0' as u32) as u8)
    } else if 'a' <= c && c <= 'f' {
        Some((c as u32 - 'a' as u32 + 10) as u8)
    } else if 'A' <= c && c <= 'F' {
        Some((c as u32 - 'A' as u32 + 10) as u8)
    } else {
        None
    }
}

fn hex_byte_exec(c1: char, c2: char) -> (v: Option<u8>)
    ensures
        v == hex_byte(c1, c2),
{
    if c1 == '+' {
        hex_value_exec(c2)
    } else {
        match (hex_value_exec(c1), hex_value_exec(c2)) {
            (Some(a), Some(b)) => Some(16 * a + b),
            _ => None,
        }
    }
}

/// Parses a hex colour such as `#ff8800` or `00ff00` (leading '#' optional;
/// upper or lower case).
pub fn hex_to_rgb(hex: &str) -> (res: Option<Rgb>)
    ensures
        res == hex_color(hex@),
{
    let n = hex.unicode_len();
    let mut i: usize = 0;
    assert(hex@.subrange(0, n as int) =~= hex@);
    while i < n && hex.get_char(i) == '#'
        invariant
            n == hex@.len(),
            i <= n,
            strip_hashes(hex@) == strip_hashes(hex@.subrange(i as int, n as int)),
        decreases n - i,
    {
        let ghost t = hex@.subrange(i as int, n as int);
        assert(t.drop_first() =~= hex@.subrange(i as int + 1, n as int));
        i = i + 1;
    }
    let ghost h = hex@.subrange(i as int, n as int);
    assert(strip_hashes(h) == h);
    if n - i != 6 {
        return None;
    }
    let r = hex_byte_exec(hex.get_char(i), hex.get_char(i + 1));
    let g = hex_byte_exec(hex.get_char(i + 2), hex.get_char(i + 3));
    let b = hex_byte_exec(hex.get_char(i + 4), hex.get_char(i + 5));
    match (r, g, b) {
        (Some(r), Some(g), Some(b)) => Some((r, g, b)),
        _ => None,
    }
}

/// Writes a colour as upper-case `#RRGGBB`.
pub fn hex_code_text(c: Rgb) -> (s: String)
    ensures
        s@ == hex_code(c),
{
    let mut s = String::new();
    s.push('#');
    push_hex2(&mut s, c.0);
    push_hex2(&mut s, c.1);
    push_hex2(&mut s, c.2);
    assert(s@ =~= hex_code(c));
    s
}

proof fn lemma_hex_digit_roundtrip(d: int)
    requires
        0 <= d < 16,
    ensures
        hex_value(hex_digit_upper(d)) == Some(d),
{
}

/// Reading back the `#RRGGBB` text of a colour gives the colour.
pub proof fn lemma_hex_code_roundtrip(c: Rgb)
    ensures
        hex_color(hex_code(c)) == Some(c),
{
    let t = hex_code(c);
    let h = hex2(c.0) + hex2(c.1) + hex2(c.2);
    assert(t.drop_first() =~= h);
    assert(h[0] != '#');
    assert(strip_hashes(h) == h);
    assert(strip_hashes(t) == h);
    lemma_hex_digit_roundtrip(c.0 as int / 16);
    lemma_hex_digit_roundtrip(c.0 as int % 16);
    lemma_hex_digit_roundtrip(c.1 as int / 16);
    lemma_hex_digit_roundtrip(c.1 as int % 16);
    lemma_hex_digit_roundtrip(c.2 as int / 16);
    lemma_hex_digit_roundtrip(c.2 as int % 16);
    assert(h[0] == hex_digit_upper(c.0 as int / 16));
    assert(hex_byte(h[0], h[1]) == Some(c.0));
    assert(hex_byte(h[2], h[3]) == Some(c.1));
    assert(hex_byte(h[4], h[5]) == Some(c.2));
}

// ── Scene presets ───────────────────────────────────────────────────────────

/// A preset single colour (`temp` 0: no colour temperature).
#[derive(Debug, Clone, Copy, PartialEq, Eq)]
pub struct Scene {
    pub r: u8,
    pub g: u8,
    pub b: u8,
    pub temp: u16,
}

/// The preset scene called `name`, if there is one.
pub open spec fn scene_named(name: Seq<char>) -> Option<Scene> {
    if name == "movie"@ {
        Some(Scene { r: 20, g: 10, b: 40, temp: 0 })
    } else if name == "chill"@ {
        Some(Scene { r: 80, g: 40, b: 120, temp: 0 })
    } else if name == "party"@ {
        Some(Scene { r: 255, g: 0, b: 200, temp: 0 })
    } else if name == "sunset"@ {
        Some(Scene { r: 255, g: 100, b: 20, temp: 0 })
    } else if name == "ocean"@ {
        Some(Scene { r: 0, g: 80, b: 200, temp: 0 })
    } else if name == "forest"@ {
        Some(Scene { r: 10, g: 120, b: 30, temp: 0 })
    } else if name == "aurora"@ {
        Some(Scene { r: 0, g: 200, b: 150, temp: 0 })
    } else {
        None
    }
}

/// Looks up a preset scene by name.
pub fn get_scene(name: &str) -> (s: Option<Scene>)
    ensures
        s == scene_named(name@),
{
    if str_eq(name, "movie") {
        Some(Scene { r: 20, g: 10, b: 40, temp: 0 })
    } else if str_eq(name, "chill") {
        Some(Scene { r: 80, g: 40, b: 120, temp: 0 })
    } else if str_eq(name, "party") {
        Some(Scene { r: 255, g: 0, b: 200, temp: 0 })
    } else if str_eq(name, "sunset") {
        Some(Scene { r: 255, g: 100, b: 20, temp: 0 })
    } else if str_eq(name, "ocean") {
        Some(Scene { r: 0, g: 80, b: 200, temp: 0 })
    } else if str_eq(name, "forest") {
        Some(Scene { r: 10, g: 120, b: 30, temp: 0 })
    } else if str_eq(name, "aurora") {
        Some(Scene { r: 0, g: 200, b: 150, temp: 0 })
    } else {
        None
    }
}

/// The names of the preset scenes, in alphabetical order.
pub fn scene_names() -> (v: Vec<&'static str>)
    ensures
        v@.len() == 7,
        v@[0]@ == "aurora"@,
        v@[1]@ == "chill"@,
        v@[2]@ == "forest"@,
        v@[3]@ == "movie"@,
        v@[4]@ == "ocean"@,
        v@[5]@ == "party"@,
        v@[6]@ == "sunset"@,
{
    vec!["aurora", "chill", "forest", "movie", "ocean", "party", "sunset"]
}

/// Every listed scene name has a preset.
pub proof fn lemma_scene_names_resolve()
    ensures
        scene_named("aurora"@) is Some,
        scene_named("chill"@) is Some,
        scene_named("forest"@) is Some,
        scene_named("movie"@) is Some,
        scene_named("ocean"@) is Some,
        scene_named("party"@) is Some,
        scene_named("sunset"@) is Some,
{
}

} // verus!
