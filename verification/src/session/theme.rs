//! Colours: hex parsing and formatting, named colours and shades, and the
//! derived values (dimmed background, contrasting foreground) used for theming.
use vstd::prelude::*;

use crate::error::Error;
use crate::session::palette::{
    named_colors, named_table, shade_table, tailwind_shades, NamedColor, NamedColorView,
    ShadeFamily, ShadeFamilyView,
};
use crate::text::{
    append_decimal, append_str, ascii_lower_char, chars_of, concat, decimal, eq_str, is_ascii_text,
    join_words, lemma_last_index_of, lowercase, owned, rsplit_once, rsplit_once_on, string_of,
    sub_vec, to_lowercase,
};
use crate::tmux::client::{
    brace_quoted, quote_tmux, quote_tmux_cmd, quoted, window_target, TmuxClient, TmuxCommand,
};

verus! {

// ---------------------------------------------------------------------------
// Hex parsing
// ---------------------------------------------------------------------------

/// The text without one leading `#`.
pub open spec fn strip_hash(s: Seq<char>) -> Seq<char> {
    if s.len() > 0 && s[0] == '#' {
        s.drop_first()
    } else {
        s
    }
}

/// The value of an ASCII hexadecimal digit (either case).
pub open spec fn hex_digit_of(c: char) -> Option<u8> {
    if '0' <= c <= '9' {
        Some((c as u32 - 0x30) as u8)
    } else if 'a' <= c <= 'f' {
        Some((c as u32 - 0x57) as u8)
    } else if 'A' <= c <= 'F' {
        Some((c as u32 - 0x37) as u8)
    } else {
        None
    }
}

/// Two hexadecimal digits read as one byte, the first one high.
pub open spec fn hex_pair_value(c0: char, c1: char) -> Option<u8> {
    match (hex_digit_of(c0), hex_digit_of(c1)) {
        (Some(h), Some(l)) => Some((h * 16 + l) as u8),
        _ => None,
    }
}

/// The channels of `#RRGGBB` / `RRGGBB`: exactly six hexadecimal digits after
/// the optional `#`, read as three pairs.
pub open spec fn hex_rgb_of(s: Seq<char>) -> Option<(u8, u8, u8)> {
    let t = strip_hash(s);
    if t.len() != 6 {
        None
    } else {
        match (hex_pair_value(t[0], t[1]), hex_pair_value(t[2], t[3]), hex_pair_value(t[4], t[5])) {
            (Some(r), Some(g), Some(b)) => Some((r, g, b)),
            _ => None,
        }
    }
}

/// A colour in the canonical form `#` followed by six hexadecimal digits.
pub open spec fn is_hex_color(s: Seq<char>) -> bool {
    s.len() == 7 && s[0] == '#' && hex_rgb_of(s) is Some
}

fn hex_digit(c: char) -> (r: Option<u8>)
    ensures
        r == hex_digit_of(c),
{
    let x = c as u32;
    if c >= '0' && c <= '9' {
        Some((x - 0x30) as u8)
    } else if c >= 'a' && c <= 'f' {
        Some((x - 0x57) as u8)
    } else if c >= 'A' && c <= 'F' {
        Some((x - 0x37) as u8)
    } else {
        None
    }
}

fn hex_pair(c0: char, c1: char) -> (r: Option<u8>)
    ensures
        r == hex_pair_value(c0, c1),
{
    match (hex_digit(c0), hex_digit(c1)) {
        (Some(h), Some(l)) => Some(h * 16 + l),
        _ => None,
    }
}

/// The error for an invalid colour: `#` followed by the text after its optional `#`.
pub open spec fn invalid_color_message(s: Seq<char>) -> Seq<char> {
    seq!['#'] + strip_hash(s)
}

/// Parse a hex color string (`#RRGGBB` or `RRGGBB`) into (r, g, b).
pub fn hex_to_rgb(hex: &str) -> (r: Result<(u8, u8, u8), Error>)
    ensures
        match hex_rgb_of(hex@) {
            Some(t) => r == Ok::<(u8, u8, u8), Error>(t),
            None => r matches Err(Error::InvalidColor(m)) && m@ == invalid_color_message(hex@),
        },
{
    let v = chars_of(hex);
    let skip: usize = if v.len() > 0 && v[0] == '#' {
        1
    } else {
        0
    };
    let t = sub_vec(v.as_slice(), skip, v.len());
    assert(t@ =~= strip_hash(hex@));
    if t.len() != 6 {
        return Err(invalid_color(t.as_slice()));
    }
    let r = match hex_pair(t[0], t[1]) {
        Some(x) => x,
        None => return Err(invalid_color(t.as_slice())),
    };
    let g = match hex_pair(t[2], t[3]) {
        Some(x) => x,
        None => return Err(invalid_color(t.as_slice())),
    };
    let b = match hex_pair(t[4], t[5]) {
        Some(x) => x,
        None => return Err(invalid_color(t.as_slice())),
    };
    Ok((r, g, b))
}

fn invalid_color(stripped: &[char]) -> (e: Error)
    ensures
        e matches Error::InvalidColor(m) && m@ == seq!['#'] + stripped@,
{
    let mut m: Vec<char> = Vec::new();
    m.push('#');
    let all = concat(m.as_slice(), stripped);
    assert(all@ =~= seq!['#'] + stripped@);
    Error::InvalidColor(string_of(all.as_slice()))
}

// ---------------------------------------------------------------------------
// Hex formatting
// ---------------------------------------------------------------------------

/// The lowercase hexadecimal digit for `d < 16`.
pub open spec fn hex_char(d: nat) -> char {
    if d < 10 {
        (('0' as nat) + d) as char
    } else {
        (('a' as nat) + d - 10) as char
    }
}

/// Two lowercase hexadecimal digits for a byte (`{:02x}`).
pub open spec fn hex2(x: u8) -> Seq<char> {
    seq![hex_char((x / 16) as nat), hex_char((x % 16) as nat)]
}

/// `#rrggbb` in lowercase hexadecimal.
pub open spec fn rgb_hex(r: u8, g: u8, b: u8) -> Seq<char> {
    seq!['#'] + hex2(r) + hex2(g) + hex2(b)
}

fn hex_char_of(d: u8) -> (c: char)
    requires
        d < 16,
    ensures
        c == hex_char(d as nat),
{
    if d < 10 {
        ((0x30u8 + d) as char)
    } else {
        ((0x61u8 + d - 10) as char)
    }
}

/// Convert RGB back to a hex string `#rrggbb`.
pub fn rgb_to_hex(r: u8, g: u8, b: u8) -> (s: String)
    ensures
        s@ == rgb_hex(r, g, b),
{
    let mut v: Vec<char> = Vec::new();
    v.push('#');
    v.push(hex_char_of(r / 16));
    v.push(hex_char_of(r % 16));
    v.push(hex_char_of(g / 16));
    v.push(hex_char_of(g % 16));
    v.push(hex_char_of(b / 16));
    v.push(hex_char_of(b % 16));
    assert(v@ =~= rgb_hex(r, g, b));
    string_of(v.as_slice())
}

// ---------------------------------------------------------------------------
// Derived colours
// ---------------------------------------------------------------------------

/// Compute a dimmed version of a color (divide each channel by 3).
pub fn compute_dimmed(r: u8, g: u8, b: u8) -> (res: (u8, u8, u8))
    ensures
        res == ((r / 3) as u8, (g / 3) as u8, (b / 3) as u8),
{
    (r / 3, g / 3, b / 3)
}

/// Relative luminance (sRGB luma weights 0.299, 0.587, 0.114), scaled by 1000.
pub open spec fn luma_milli(r: u8, g: u8, b: u8) -> int {
    299 * r + 587 * g + 114 * b
}

/// Black text on light colours, white text on dark ones: black exactly when
/// the luminance exceeds 128.
pub fn contrast_fg(r: u8, g: u8, b: u8) -> (fg: &'static str)
    ensures
        fg@ == if luma_milli(r, g, b) > 128000 {
            "#000000"@
        } else {
            "#ffffff"@
        },
{
    let l: u32 = 299 * (r as u32) + 587 * (g as u32) + 114 * (b as u32);
    if l > 128000 {
        "#000000"
    } else {
        "#ffffff"
    }
}

/// The light variant of a colour: each channel halfway to white.
pub open spec fn light_rgb(c: (u8, u8, u8)) -> (u8, u8, u8) {
    (((c.0 + 255) / 2) as u8, ((c.1 + 255) / 2) as u8, ((c.2 + 255) / 2) as u8)
}

/// The dark variant of a colour: each channel scaled to 45%.
pub open spec fn dark_rgb(c: (u8, u8, u8)) -> (u8, u8, u8) {
    ((c.0 * 45 / 100) as u8, (c.1 * 45 / 100) as u8, (c.2 * 45 / 100) as u8)
}

/// What `computed_light` yields for a hex colour.
pub open spec fn computed_light_of(hex: Seq<char>) -> Option<Seq<char>> {
    match hex_rgb_of(hex) {
        Some(c) => {
            let l = light_rgb(c);
            Some(rgb_hex(l.0, l.1, l.2))
        },
        None => None,
    }
}

/// What `computed_dark` yields for a hex colour.
pub open spec fn computed_dark_of(hex: Seq<char>) -> Option<Seq<char>> {
    match hex_rgb_of(hex) {
        Some(c) => {
            let d = dark_rgb(c);
            Some(rgb_hex(d.0, d.1, d.2))
        },
        None => None,
    }
}

/// Compute a lighter variant by mixing 50% toward white.
pub fn computed_light(hex: &str) -> (r: Option<String>)
    ensures
        match computed_light_of(hex@) {
            Some(h) => r matches Some(x) && x@ == h,
            None => r is None,
        },
{
    let (r, g, b) = match hex_to_rgb(hex) {
        Ok(c) => c,
        Err(_) => return None,
    };
    let lr = ((r as u16 + 255) / 2) as u8;
    let lg = ((g as u16 + 255) / 2) as u8;
    let lb = ((b as u16 + 255) / 2) as u8;
    Some(rgb_to_hex(lr, lg, lb))
}

/// Compute a darker variant by scaling channels to 45%.
pub fn computed_dark(hex: &str) -> (r: Option<String>)
    ensures
        match computed_dark_of(hex@) {
            Some(h) => r matches Some(x) && x@ == h,
            None => r is None,
        },
{
    let (r, g, b) = match hex_to_rgb(hex) {
        Ok(c) => c,
        Err(_) => return None,
    };
    let dr = (r as u16 * 45 / 100) as u8;
    let dg = (g as u16 * 45 / 100) as u8;
    let db = (b as u16 * 45 / 100) as u8;
    Some(rgb_to_hex(dr, dg, db))
}

// ---------------------------------------------------------------------------
// Formatting and parsing agree
// ---------------------------------------------------------------------------

proof fn lemma_hex_char(d: nat)
    requires
        d < 16,
    ensures
        hex_digit_of(hex_char(d)) == Some(d as u8),
        hex_char(d) != '#',
{
}

/// A colour written by [`rgb_to_hex`] is in canonical form and reads back as
/// the same channels.
pub proof fn lemma_rgb_hex_roundtrip(r: u8, g: u8, b: u8)
    ensures
        hex_rgb_of(rgb_hex(r, g, b)) == Some((r, g, b)),
        is_hex_color(rgb_hex(r, g, b)),
{
    let s = rgb_hex(r, g, b);
    let t = strip_hash(s);
    lemma_hex_char((r / 16) as nat);
    lemma_hex_char((r % 16) as nat);
    lemma_hex_char((g / 16) as nat);
    lemma_hex_char((g % 16) as nat);
    lemma_hex_char((b / 16) as nat);
    lemma_hex_char((b % 16) as nat);
    assert(t =~= hex2(r) + hex2(g) + hex2(b));
}

// ---------------------------------------------------------------------------
// Named colours and shades
// ---------------------------------------------------------------------------

/// The value of the first named colour whose name or one of whose aliases is `name`.
pub open spec fn named_find(tab: Seq<NamedColorView>, name: Seq<char>) -> Option<(u8, u8, u8)>
    decreases tab.len(),
{
    if tab.len() == 0 {
        None
    } else if tab[0].name == name || tab[0].aliases.contains(name) {
        Some(tab[0].rgb)
    } else {
        named_find(tab.drop_first(), name)
    }
}

/// The first shade family named `name`.
pub open spec fn shade_find(tab: Seq<ShadeFamilyView>, name: Seq<char>) -> Option<ShadeFamilyView>
    decreases tab.len(),
{
    if tab.len() == 0 {
        None
    } else if tab[0].name == name {
        Some(tab[0])
    } else {
        shade_find(tab.drop_first(), name)
    }
}

fn alias_matches(aliases: &Vec<&'static str>, name: &[char]) -> (b: bool)
    ensures
        b == aliases@.map_values(|a: &'static str| a@).contains(name@),
{
    let ghost av = aliases@.map_values(|a: &'static str| a@);
    let mut i: usize = 0;
    while i < aliases.len()
        invariant
            i <= aliases@.len(),
            av == aliases@.map_values(|a: &'static str| a@),
            forall|j: int| 0 <= j < i ==> av[j] != name@,
        decreases aliases@.len() - i,
    {
        if eq_str(name, aliases[i]) {
            assert(av[i as int] == name@);
            return true;
        }
        i = i + 1;
    }
    false
}

fn find_named(tab: &Vec<NamedColor>, name: &[char]) -> (r: Option<(u8, u8, u8)>)
    ensures
        r == named_find(tab@.map_values(|c: NamedColor| c@), name@),
{
    let ghost tv = tab@.map_values(|c: NamedColor| c@);
    let mut i: usize = 0;
    assert(tv.skip(0) =~= tv);
    while i < tab.len()
        invariant
            i <= tab@.len(),
            tv == tab@.map_values(|c: NamedColor| c@),
            named_find(tv, name@) == named_find(tv.skip(i as int), name@),
        decreases tab@.len() - i,
    {
        let e = &tab[i];
        assert(tv.skip(i as int)[0] == e@);
        assert(tv.skip(i as int).drop_first() =~= tv.skip(i + 1));
        if eq_str(name, e.name) || alias_matches(&e.aliases, name) {
            return Some(e.rgb);
        }
        i = i + 1;
    }
    None
}

fn find_shade(tab: &Vec<ShadeFamily>, name: &[char]) -> (r: Option<(u8, u8, u8, u8, u8, u8)>)
    ensures
        match shade_find(tab@.map_values(|c: ShadeFamily| c@), name@) {
            Some(f) => r == Some((f.light.0, f.light.1, f.light.2, f.dark.0, f.dark.1, f.dark.2)),
            None => r is None,
        },
{
    let ghost tv = tab@.map_values(|c: ShadeFamily| c@);
    let mut i: usize = 0;
    assert(tv.skip(0) =~= tv);
    while i < tab.len()
        invariant
            i <= tab@.len(),
            tv == tab@.map_values(|c: ShadeFamily| c@),
            shade_find(tv, name@) == shade_find(tv.skip(i as int), name@),
        decreases tab@.len() - i,
    {
        let e = &tab[i];
        assert(tv.skip(i as int)[0] == e@);
        assert(tv.skip(i as int).drop_first() =~= tv.skip(i + 1));
        if eq_str(name, e.name) {
            return Some((e.light.0, e.light.1, e.light.2, e.dark.0, e.dark.1, e.dark.2));
        }
        i = i + 1;
    }
    None
}

/// The shade of an already lowercased colour name: the curated light or dark
/// shade of a family when there is one, else the light or dark variant computed
/// from the named colour's value.
pub open spec fn shade_hex_from_lower(lower: Seq<char>, light: bool) -> Option<Seq<char>> {
    match shade_find(shade_table(), lower) {
        Some(f) => {
            let c = if light {
                f.light
            } else {
                f.dark
            };
            Some(rgb_hex(c.0, c.1, c.2))
        },
        None => match named_find(named_table(), lower) {
            Some(c) => {
                let v = if light {
                    light_rgb(c)
                } else {
                    dark_rgb(c)
                };
                Some(rgb_hex(v.0, v.1, v.2))
            },
            None => None,
        },
    }
}

/// What a shaded name (`<name>-light`, `<name>-dark`) resolves to: the shade
/// of the lowercased name before the last hyphen.
pub open spec fn shaded_hex_of(input: Seq<char>) -> Option<Seq<char>> {
    match rsplit_once(input, '-') {
        None => None,
        Some((name, suffix)) => if suffix != "light"@ && suffix != "dark"@ {
            None
        } else {
            shade_hex_from_lower(lowercase(name), suffix == "light"@)
        },
    }
}

/// What an already lowercased colour name resolves to: a named colour or
/// alias, else a shaded name.
pub open spec fn named_hex_from_lower(lower: Seq<char>) -> Option<Seq<char>> {
    match named_find(named_table(), lower) {
        Some(c) => Some(rgb_hex(c.0, c.1, c.2)),
        None => shaded_hex_of(lower),
    }
}

/// What a colour name resolves to, in any case (see [`named_hex_from_lower`]).
pub open spec fn named_hex_of(name: Seq<char>) -> Option<Seq<char>> {
    named_hex_from_lower(lowercase(name))
}

/// The light (`light`) or dark shade of a lowercased colour name (see
/// [`shade_hex_from_lower`]).
pub fn shade_lower_to_hex(lower: &str, light: bool) -> (r: Option<String>)
    ensures
        match shade_hex_from_lower(lower@, light) {
            Some(h) => r matches Some(x) && x@ == h,
            None => r is None,
        },
{
    let name = chars_of(lower);
    let shades = tailwind_shades();
    if let Some((lr, lg, lb, dr, dg, db)) = find_shade(&shades, name.as_slice()) {
        return if light {
            Some(rgb_to_hex(lr, lg, lb))
        } else {
            Some(rgb_to_hex(dr, dg, db))
        };
    }
    let named = named_colors();
    let base = match find_named(&named, name.as_slice()) {
        Some(c) => c,
        None => return None,
    };
    let base_hex = rgb_to_hex(base.0, base.1, base.2);
    proof {
        lemma_rgb_hex_roundtrip(base.0, base.1, base.2);
    }
    if light {
        computed_light(base_hex.as_str())
    } else {
        computed_dark(base_hex.as_str())
    }
}

/// Resolve a shaded color name (e.g. `red-light`, `blue-dark`) to hex.
///
/// Checks the curated shades first, then computes light/dark from the base
/// value of the named colour.
pub fn shaded_color_to_hex(input: &str) -> (r: Option<String>)
    ensures
        match shaded_hex_of(input@) {
            Some(h) => r matches Some(x) && x@ == h,
            None => r is None,
        },
{
    let v = chars_of(input);
    let (name, suffix) = match rsplit_once_on(v.as_slice(), '-') {
        Some(p) => p,
        None => return None,
    };
    let is_light = eq_str(suffix.as_slice(), "light");
    let is_dark = eq_str(suffix.as_slice(), "dark");
    if !is_light && !is_dark {
        return None;
    }
    let name_s = string_of(name.as_slice());
    let lower_s = to_lowercase(name_s.as_str());
    shade_lower_to_hex(lower_s.as_str(), is_light)
}

/// The value of a lowercased colour name (see [`named_hex_from_lower`]).
pub fn named_lower_to_hex(lower: &str) -> (r: Option<String>)
    ensures
        match named_hex_from_lower(lower@) {
            Some(h) => r matches Some(x) && x@ == h,
            None => r is None,
        },
{
    let name = chars_of(lower);
    let named = named_colors();
    if let Some(c) = find_named(&named, name.as_slice()) {
        return Some(rgb_to_hex(c.0, c.1, c.2));
    }
    shaded_color_to_hex(lower)
}

/// Resolve a named color to its hex value. Returns None if not a known name.
///
/// Tries the names and aliases first (ignoring case), then the shade suffixes
/// (`-light`, `-dark`).
pub fn named_color_to_hex(name: &str) -> (r: Option<String>)
    ensures
        match named_hex_of(name@) {
            Some(h) => r matches Some(x) && x@ == h,
            None => r is None,
        },
{
    let lower_s = to_lowercase(name);
    named_lower_to_hex(lower_s.as_str())
}

/// What `resolve_color` returns: the value of a colour name, else the hex
/// colour itself with a leading `#`, else the invalid-colour error.
pub open spec fn resolved_color_of(color: Seq<char>) -> Result<Seq<char>, Seq<char>> {
    match named_hex_of(color) {
        Some(h) => Ok(h),
        None => match hex_rgb_of(color) {
            None => Err(invalid_color_message(color)),
            Some(_) => if color.len() > 0 && color[0] == '#' {
                Ok(color)
            } else {
                Ok(seq!['#'] + color)
            },
        },
    }
}

/// Resolve a color string to hex. Accepts `#RRGGBB`, `RRGGBB`, or a named color.
pub fn resolve_color(color: &str) -> (r: Result<String, Error>)
    ensures
        match resolved_color_of(color@) {
            Ok(h) => r matches Ok(x) && x@ == h,
            Err(m) => r matches Err(Error::InvalidColor(e)) && e@ == m,
        },
{
    if let Some(hex) = named_color_to_hex(color) {
        return Ok(hex);
    }
    match hex_to_rgb(color) {
        Ok(_) => {},
        Err(e) => return Err(e),
    }
    let v = chars_of(color);
    if v.len() > 0 && v[0] == '#' {
        Ok(string_of(v.as_slice()))
    } else {
        let mut h: Vec<char> = Vec::new();
        h.push('#');
        let all = concat(h.as_slice(), v.as_slice());
        assert(all@ =~= seq!['#'] + color@);
        Ok(string_of(all.as_slice()))
    }
}

// ---------------------------------------------------------------------------
// Resolved colours are valid
// ---------------------------------------------------------------------------

/// Every colour that `resolve_color` accepts comes out in the canonical form
/// `#RRGGBB`, which `hex_to_rgb` reads without error.
pub proof fn lemma_resolved_color_is_hex(color: Seq<char>)
    ensures
        resolved_color_of(color) matches Ok(h) ==> is_hex_color(h),
{
    match named_hex_of(color) {
        Some(h) => {
            let lower = lowercase(color);
            match named_find(named_table(), lower) {
                Some(c) => lemma_rgb_hex_roundtrip(c.0, c.1, c.2),
                None => {
                    match rsplit_once(lower, '-') {
                        None => {},
                        Some((name, suffix)) => {
                            let ln = lowercase(name);
                            match shade_find(shade_table(), ln) {
                                Some(f) => {
                                    lemma_rgb_hex_roundtrip(f.light.0, f.light.1, f.light.2);
                                    lemma_rgb_hex_roundtrip(f.dark.0, f.dark.1, f.dark.2);
                                },
                                None => match named_find(named_table(), ln) {
                                    Some(c) => {
                                        let l = light_rgb(c);
                                        let d = dark_rgb(c);
                                        lemma_rgb_hex_roundtrip(l.0, l.1, l.2);
                                        lemma_rgb_hex_roundtrip(d.0, d.1, d.2);
                                    },
                                    None => {},
                                },
                            }
                        },
                    }
                },
            }
        },
        None => {
            if !(color.len() > 0 && color[0] == '#') {
                let h = seq!['#'] + color;
                assert(strip_hash(h) =~= color);
            }
        },
    }
}

proof fn lemma_named_find_none(tab: Seq<NamedColorView>, x: Seq<char>)
    requires
        forall|i: int|
            0 <= i < tab.len() ==> (#[trigger] tab[i]).name != x && !tab[i].aliases.contains(x),
    ensures
        named_find(tab, x) is None,
    decreases tab.len(),
{
    if tab.len() > 0 {
        assert(tab[0].name != x && !tab[0].aliases.contains(x));
        assert forall|i: int| 0 <= i < tab.drop_first().len() implies (
        #[trigger] tab.drop_first()[i]).name != x && !tab.drop_first()[i].aliases.contains(x) by {
            assert(tab.drop_first()[i] == tab[i + 1]);
        }
        lemma_named_find_none(tab.drop_first(), x);
    }
}

/// No colour name or alias begins with `#`, so no text that does names a colour.
proof fn lemma_no_name_starts_with_hash(x: Seq<char>)
    requires
        x.len() > 0,
        x[0] == '#',
    ensures
        named_find(named_table(), x) is None,
{
    reveal_strlit("black");
    reveal_strlit("red");
    reveal_strlit("green");
    reveal_strlit("yellow");
    reveal_strlit("blue");
    reveal_strlit("magenta");
    reveal_strlit("cyan");
    reveal_strlit("white");
    reveal_strlit("orange");
    reveal_strlit("pink");
    reveal_strlit("purple");
    reveal_strlit("violet");
    reveal_strlit("teal");
    reveal_strlit("lime");
    reveal_strlit("amber");
    reveal_strlit("rose");
    reveal_strlit("indigo");
    reveal_strlit("sky");
    reveal_strlit("emerald");
    reveal_strlit("fuchsia");
    reveal_strlit("coral");
    reveal_strlit("tomato");
    reveal_strlit("crimson");
    reveal_strlit("gold");
    reveal_strlit("navy");
    reveal_strlit("brown");
    reveal_strlit("chocolate");
    reveal_strlit("slate");
    reveal_strlit("gray");
    reveal_strlit("grey");
    let tab = named_table();
    assert forall|i: int| 0 <= i < tab.len() implies (#[trigger] tab[i]).name != x
        && !tab[i].aliases.contains(x) by {
        assert(tab[i].name[0] != '#');
        assert forall|j: int| 0 <= j < tab[i].aliases.len() implies #[trigger] tab[i].aliases[j]
            != x by {
            assert(tab[i].aliases[j][0] != '#');
        }
    }
    lemma_named_find_none(tab, x);
}

/// Resolving is idempotent: whatever `resolve_color` accepts comes out in the
/// form `#RRGGBB`, and resolving that text again gives it back unchanged.
pub proof fn lemma_resolve_color_fixpoint(color: Seq<char>)
    ensures
        resolved_color_of(color) matches Ok(h) ==> is_hex_color(h) && resolved_color_of(h)
            == Ok::<Seq<char>, Seq<char>>(h),
{
    lemma_resolved_color_is_hex(color);
    if let Ok(h) = resolved_color_of(color) {
        let t = strip_hash(h);
        assert forall|k: int| 0 <= k < 6 implies hex_digit_of(#[trigger] t[k]) is Some by {
            if k == 0 || k == 1 {
                assert(hex_pair_value(t[0], t[1]) is Some);
            } else if k == 2 || k == 3 {
                assert(hex_pair_value(t[2], t[3]) is Some);
            } else {
                assert(hex_pair_value(t[4], t[5]) is Some);
            }
        }
        assert forall|i: int| 0 <= i < h.len() implies h[i] <= '\u{7f}' && h[i] != '-' && (i > 0
            ==> hex_digit_of(#[trigger] h[i]) is Some) by {
            if i > 0 {
                assert(h[i] == t[i - 1]);
            }
        }
        assert(is_ascii_text(h));
        let l = lowercase(h);
        assert(l.len() == h.len() && l[0] == '#');
        assert forall|j: int| 0 <= j < l.len() implies l[j] != '-' by {
            assert(l[j] == ascii_lower_char(h[j]));
            if j > 0 {
                assert(hex_digit_of(h[j]) is Some);
            }
        }
        lemma_last_index_of(l, '-', -1);
        lemma_no_name_starts_with_hash(l);
        assert(named_hex_of(h) is None);
    }
}

// ---------------------------------------------------------------------------
// Theme values and the tmux options they set
// ---------------------------------------------------------------------------

/// Stale layout indicator: yellow dot, shown conditionally via a tmux format.
pub open spec fn stale_indicator() -> Seq<char> {
    "#{?#{@muster_layout_stale},#[fg=#c4a000]\u{25cf} ,}"@
}

/// The values a session theme is made of.
pub struct ThemeValues {
    pub color: String,
    pub fg: String,
    pub darker: String,
    pub display_name: String,
}

/// The value of [`ThemeValues`].
pub struct ThemeView {
    pub color: Seq<char>,
    pub fg: Seq<char>,
    pub darker: Seq<char>,
    pub display_name: Seq<char>,
}

impl View for ThemeValues {
    type V = ThemeView;

    open spec fn view(&self) -> ThemeView {
        ThemeView {
            color: self.color@,
            fg: self.fg@,
            darker: self.darker@,
            display_name: self.display_name@,
        }
    }
}

/// The theme of colour `color` (already a hex colour) and name `display_name`:
/// the colour itself, the contrasting text colour, and the colour dimmed to a third.
pub open spec fn theme_of(color: Seq<char>, display_name: Seq<char>) -> Option<ThemeView> {
    match hex_rgb_of(color) {
        Some((r, g, b)) => Some(
            ThemeView {
                color: color,
                fg: if luma_milli(r, g, b) > 128000 {
                    "#000000"@
                } else {
                    "#ffffff"@
                },
                darker: rgb_hex((r / 3) as u8, (g / 3) as u8, (b / 3) as u8),
                display_name: display_name,
            },
        ),
        None => None,
    }
}

/// `set-option -t <session> <key> <value>` as an argument list.
pub open spec fn set_option_args(session: Seq<char>, key: Seq<char>, value: Seq<char>) -> Seq<
    Seq<char>,
> {
    seq!["set-option"@, "-t"@, session, key, value]
}

/// The session-level options of a theme: status bar colours, the name label,
/// the status bar at the top, and mouse support.
pub open spec fn session_commands_of(tv: ThemeView, session: Seq<char>) -> Seq<Seq<Seq<char>>> {
    seq![
        set_option_args(session, "status-style"@, "bg="@ + tv.color + ",fg="@ + tv.fg),
        set_option_args(
            session,
            "status-left"@,
            "#[bg="@ + tv.darker + ",fg=#ffffff,bold] "@ + tv.display_name + " #[default]"@,
        ),
        set_option_args(session, "status-position"@, "top"@),
        set_option_args(session, "mouse"@, "on"@),
    ]
}

/// The window-level options of a pinned window: coloured tab formats with the
/// stale-layout indicator, and no separator.
pub open spec fn window_options_of(tv: ThemeView) -> Seq<(Seq<char>, Seq<char>)> {
    seq![
        ("window-status-format"@, "#[bg="@ + tv.color + ",fg="@ + tv.fg + "]  #I: #W "@
            + stale_indicator()),
        ("window-status-current-format"@, "#[fg="@ + tv.color + ",bg=#000000,bold]  #I: #W "@
            + stale_indicator() + "#[default]"@),
        ("window-status-separator"@, seq![]),
    ]
}

/// The window-level options of an unpinned window: grey formats with a red dot.
pub open spec fn neutral_options_of() -> Seq<(Seq<char>, Seq<char>)> {
    seq![
        ("window-status-format"@, "#[bg=#333333,fg=#999999]  #I: #W #[fg=#cc0000]\u{25cf} "@),
        ("window-status-current-format"@,
            "#[fg=#999999,bg=#000000,bold]  #I: #W #[fg=#cc0000]\u{25cf} #[default]"@),
        ("window-status-separator"@, seq![]),
    ]
}

/// `set-window-option <key> '<value>'`, or `''` for an empty value.
pub open spec fn hook_option_text(key: Seq<char>, value: Seq<char>) -> Seq<char> {
    if value.len() == 0 {
        "set-window-option "@ + key + " ''"@
    } else {
        "set-window-option "@ + key + " '"@ + value + "'"@
    }
}

/// The hook command that gives new windows the neutral styling: the neutral
/// options as `set-window-option` commands joined by ` ; `.
pub open spec fn neutral_hook_of() -> Seq<char> {
    let o = neutral_options_of();
    hook_option_text(o[0].0, o[0].1) + " ; "@ + hook_option_text(o[1].0, o[1].1) + " ; "@
        + hook_option_text(o[2].0, o[2].1)
}

fn pair_of(k: &str, v: Vec<char>) -> (p: (String, String))
    ensures
        p.0@ == k@,
        p.1@ == v@,
{
    (crate::text::owned(k), string_of(v.as_slice()))
}

fn push_pair(v: &mut Vec<(String, String)>, p: (String, String))
    ensures
        final(v)@.map_values(|x: (String, String)| (x.0@, x.1@)) == old(v)@.map_values(
            |x: (String, String)| (x.0@, x.1@),
        ).push((p.0@, p.1@)),
{
    let ghost before = v@;
    let ghost pv = (p.0@, p.1@);
    v.push(p);
    assert(v@.map_values(|x: (String, String)| (x.0@, x.1@)) =~= before.map_values(
        |x: (String, String)| (x.0@, x.1@),
    ).push(pv));
}

fn push_args(v: &mut Vec<Vec<String>>, a: Vec<String>)
    ensures
        final(v)@.map_values(|x: Vec<String>| x@.map_values(|s: String| s@)) == old(
            v,
        )@.map_values(|x: Vec<String>| x@.map_values(|s: String| s@)).push(
            a@.map_values(|s: String| s@),
        ),
{
    let ghost before = v@;
    let ghost av = a@.map_values(|s: String| s@);
    v.push(a);
    assert(v@.map_values(|x: Vec<String>| x@.map_values(|s: String| s@)) =~= before.map_values(
        |x: Vec<String>| x@.map_values(|s: String| s@),
    ).push(av));
}

fn set_option_vec(session: &str, key: &str, value: String) -> (a: Vec<String>)
    ensures
        a@.map_values(|s: String| s@) == set_option_args(session@, key@, value@),
{
    let mut a: Vec<String> = Vec::new();
    a.push(crate::text::owned("set-option"));
    a.push(crate::text::owned("-t"));
    a.push(crate::text::owned(session));
    a.push(crate::text::owned(key));
    let ghost vv = value@;
    a.push(value);
    assert(a@.map_values(|s: String| s@) =~= set_option_args(session@, key@, vv));
    a
}

impl ThemeValues {
    /// Compute the theme values from a hex colour and a display name.
    pub fn new(color: &str, display_name: &str) -> (r: Result<Self, Error>)
            ensures
            match theme_of(color@, display_name@) {
                Some(tv) => r matches Ok(x) && x@ == tv,
                None => r matches Err(Error::InvalidColor(m)) && m@ == invalid_color_message(
                    color@,
                ),
            },
    {
        let (r, g, b) = match hex_to_rgb(color) {
            Ok(c) => c,
            Err(e) => return Err(e),
        };
        let (dr, dg, db) = compute_dimmed(r, g, b);
        Ok(
            ThemeValues {
                color: crate::text::owned(color),
                fg: crate::text::owned(contrast_fg(r, g, b)),
                darker: rgb_to_hex(dr, dg, db),
                display_name: crate::text::owned(display_name),
            },
        )
    }

    /// Session-level options (status bar, position, mouse).
    pub fn session_commands(&self, session: &str) -> (cmds: Vec<Vec<String>>)
        ensures
            cmds@.map_values(|x: Vec<String>| x@.map_values(|s: String| s@)) == session_commands_of(
                self@,
                session@,
            ),
    {
        let mut cmds: Vec<Vec<String>> = Vec::new();
        let mut style: Vec<char> = Vec::new();
        crate::text::append_str(&mut style, "bg=");
        crate::text::append_str(&mut style, self.color.as_str());
        crate::text::append_str(&mut style, ",fg=");
        crate::text::append_str(&mut style, self.fg.as_str());
        push_args(&mut cmds, set_option_vec(session, "status-style", string_of(style.as_slice())));
        let mut left: Vec<char> = Vec::new();
        crate::text::append_str(&mut left, "#[bg=");
        crate::text::append_str(&mut left, self.darker.as_str());
        crate::text::append_str(&mut left, ",fg=#ffffff,bold] ");
        crate::text::append_str(&mut left, self.display_name.as_str());
        crate::text::append_str(&mut left, " #[default]");
        push_args(&mut cmds, set_option_vec(session, "status-left", string_of(left.as_slice())));
        push_args(
            &mut cmds,
            set_option_vec(session, "status-position", crate::text::owned("top")),
        );
        push_args(&mut cmds, set_option_vec(session, "mouse", crate::text::owned("on")));
        assert(cmds@.map_values(|x: Vec<String>| x@.map_values(|s: String| s@))
            =~= session_commands_of(self@, session@));
        cmds
    }

    /// Window-level option key/value pairs for window-status styling.
    pub fn window_options(&self) -> (opts: Vec<(String, String)>)
        ensures
            opts@.map_values(|x: (String, String)| (x.0@, x.1@)) == window_options_of(self@),
    {
        let mut opts: Vec<(String, String)> = Vec::new();
        let mut f: Vec<char> = Vec::new();
        crate::text::append_str(&mut f, "#[bg=");
        crate::text::append_str(&mut f, self.color.as_str());
        crate::text::append_str(&mut f, ",fg=");
        crate::text::append_str(&mut f, self.fg.as_str());
        crate::text::append_str(&mut f, "]  #I: #W ");
        crate::text::append_str(&mut f, "#{?#{@muster_layout_stale},#[fg=#c4a000]\u{25cf} ,}");
        push_pair(&mut opts, pair_of("window-status-format", f));
        let mut c: Vec<char> = Vec::new();
        crate::text::append_str(&mut c, "#[fg=");
        crate::text::append_str(&mut c, self.color.as_str());
        crate::text::append_str(&mut c, ",bg=#000000,bold]  #I: #W ");
        crate::text::append_str(&mut c, "#{?#{@muster_layout_stale},#[fg=#c4a000]\u{25cf} ,}");
        crate::text::append_str(&mut c, "#[default]");
        push_pair(&mut opts, pair_of("window-status-current-format", c));
        push_pair(&mut opts, pair_of("window-status-separator", Vec::new()));
        assert(opts@.map_values(|x: (String, String)| (x.0@, x.1@)) =~= window_options_of(self@));
        opts
    }

    /// Window-level options for unpinned (neutral) windows.
    /// Includes a red beacon (●) to signal the window is ephemeral.
    pub fn neutral_window_options() -> (opts: Vec<(String, String)>)
        ensures
            opts@.map_values(|x: (String, String)| (x.0@, x.1@)) == neutral_options_of(),
    {
        let mut opts: Vec<(String, String)> = Vec::new();
        push_pair(
            &mut opts,
            pair_of(
                "window-status-format",
                chars_of("#[bg=#333333,fg=#999999]  #I: #W #[fg=#cc0000]\u{25cf} "),
            ),
        );
        push_pair(
            &mut opts,
            pair_of(
                "window-status-current-format",
                chars_of("#[fg=#999999,bg=#000000,bold]  #I: #W #[fg=#cc0000]\u{25cf} #[default]"),
            ),
        );
        push_pair(&mut opts, pair_of("window-status-separator", Vec::new()));
        assert(opts@.map_values(|x: (String, String)| (x.0@, x.1@)) =~= neutral_options_of());
        opts
    }

    /// Build hook command that applies neutral styling to new windows.
    pub fn neutral_hook_command() -> (s: String)
        ensures
            s@ == neutral_hook_of(),
    {
        let opts = Self::neutral_window_options();
        let ghost ov = opts@.map_values(|x: (String, String)| (x.0@, x.1@));
        let mut out: Vec<char> = Vec::new();
        assert(ov.len() == opts@.len());
        assert(neutral_options_of().len() == 3);
        let mut i: usize = 0;
        while i < opts.len()
            invariant
                i <= opts@.len(),
                opts@.len() == 3,
                ov == opts@.map_values(|x: (String, String)| (x.0@, x.1@)),
                ov == neutral_options_of(),
                i == 0 ==> out@ == Seq::<char>::empty(),
                i == 1 ==> out@ == hook_option_text(ov[0].0, ov[0].1),
                i == 2 ==> out@ == hook_option_text(ov[0].0, ov[0].1) + " ; "@ + hook_option_text(
                    ov[1].0,
                    ov[1].1,
                ),
                i == 3 ==> out@ == neutral_hook_of(),
            decreases opts@.len() - i,
        {
            if i > 0 {
                crate::text::append_str(&mut out, " ; ");
            }
            let ghost mid = out@;
            crate::text::append_str(&mut out, "set-window-option ");
            crate::text::append_str(&mut out, opts[i].0.as_str());
            if opts[i].1.as_str().is_empty() {
                crate::text::append_str(&mut out, " ''");
            } else {
                crate::text::append_str(&mut out, " '");
                crate::text::append_str(&mut out, opts[i].1.as_str());
                crate::text::append_str(&mut out, "'");
            }
            proof {
                assert(ov[i as int] == (opts@[i as int].0@, opts@[i as int].1@));
                assert(out@ =~= mid + hook_option_text(ov[i as int].0, ov[i as int].1));
            }
            i = i + 1;
        }
        string_of(out.as_slice())
    }
}

// ---------------------------------------------------------------------------
// Theme command batches
// ---------------------------------------------------------------------------

/// A command line whose last argument, which may hold spaces, is quoted.
pub open spec fn command_line(args: Seq<Seq<char>>) -> Seq<char> {
    join_words(args.drop_last()) + seq![' '] + quoted(args.last())
}

/// `set-window-option -t session:index key 'value'`.
pub open spec fn window_option_line(session: Seq<char>, index: nat, key: Seq<char>, value: Seq<
    char,
>) -> Seq<char> {
    "set-window-option -t "@ + window_target(session, index) + seq![' '] + key + seq![' ']
        + quoted(value)
}

/// The pinned styling of windows `0..n`, window by window.
pub open spec fn pinned_window_lines(session: Seq<char>, tv: ThemeView, n: nat) -> Seq<Seq<char>>
    decreases n,
{
    if n == 0 {
        seq![]
    } else {
        pinned_window_lines(session, tv, (n - 1) as nat) + window_options_of(tv).map_values(
            |o: (Seq<char>, Seq<char>)| window_option_line(session, (n - 1) as nat, o.0, o.1),
        )
    }
}

/// The hook command run after a window is renamed: it syncs the name to the profile.
pub open spec fn rename_hook_of(muster_bin: Seq<char>) -> Seq<char> {
    "run-shell '"@ + muster_bin
        + " sync-rename #{session_name} #{window_index} \"#{window_name}\"'"@
}

/// The hook command run after a split: it marks pinned windows as layout-stale.
pub open spec fn split_hook_of() -> Seq<char> {
    "if-shell -F '#{@muster_pinned}' 'set-window-option @muster_layout_stale 1'"@
}

/// The three theme hooks of a session: neutral styling for new windows, the
/// stale mark after splits, and rename syncing.
pub open spec fn theme_hook_lines(session: Seq<char>, muster_bin: Seq<char>) -> Seq<Seq<char>> {
    seq![
        hook_line(session, "after-new-window"@, neutral_hook_of()),
        hook_line(session, "after-split-window"@, split_hook_of()),
        hook_line(session, "after-rename-window"@, rename_hook_of(muster_bin)),
    ]
}

/// `set-hook -t <session> <hook> {<command>}`.
pub open spec fn hook_line(session: Seq<char>, hook: Seq<char>, command: Seq<char>) -> Seq<char> {
    "set-hook -t "@ + session + seq![' '] + hook + seq![' '] + brace_quoted(command)
}

/// The theme batch for a newly launched session whose windows `0..window_count`
/// are all pinned.
pub open spec fn launch_theme_lines(
    session: Seq<char>,
    tv: ThemeView,
    window_count: nat,
    muster_bin: Seq<char>,
) -> Seq<Seq<char>> {
    session_commands_of(tv, session).map_values(|c: Seq<Seq<char>>| command_line(c))
        + pinned_window_lines(session, tv, window_count) + theme_hook_lines(session, muster_bin)
}

fn join_last_quoted(args: &Vec<String>) -> (r: Vec<char>)
    requires
        args@.len() >= 1,
    ensures
        r@ == command_line(args@.map_values(|s: String| s@)),
{
    let ghost av = args@.map_values(|s: String| s@);
    let n = args.len() - 1;
    let mut out: Vec<char> = Vec::new();
    let mut i: usize = 0;
    while i < n
        invariant
            n == args@.len() - 1,
            i <= n,
            av == args@.map_values(|s: String| s@),
            out@ == join_words(av.drop_last().take(i as int)),
        decreases n - i,
    {
        proof {
            assert(av.drop_last().take(i + 1).drop_last() =~= av.drop_last().take(i as int));
        }
        if i > 0 {
            out.push(' ');
        }
        append_str(&mut out, args[i].as_str());
        proof {
            if i == 0 {
                assert(out@ =~= join_words(av.drop_last().take(1)));
            } else {
                assert(out@ =~= join_words(av.drop_last().take(i + 1)));
            }
        }
        i = i + 1;
    }
    assert(av.drop_last().take(n as int) =~= av.drop_last());
    out.push(' ');
    let q = quote_tmux(args[n].as_str());
    append_str(&mut out, q.as_str());
    assert(out@ =~= command_line(av));
    out
}

fn window_option_text(session: &str, index: usize, key: &str, value: &str) -> (r: String)
    ensures
        r@ == window_option_line(session@, index as nat, key@, value@),
{
    let mut out: Vec<char> = Vec::new();
    append_str(&mut out, "set-window-option -t ");
    append_str(&mut out, session);
    out.push(':');
    append_decimal(&mut out, index as u64);
    out.push(' ');
    append_str(&mut out, key);
    out.push(' ');
    let q = quote_tmux(value);
    append_str(&mut out, q.as_str());
    assert(out@ =~= window_option_line(session@, index as nat, key@, value@));
    string_of(out.as_slice())
}

fn hook_text(session: &str, hook: &str, command: &str) -> (r: String)
    ensures
        r@ == hook_line(session@, hook@, command@),
{
    let mut out: Vec<char> = Vec::new();
    append_str(&mut out, "set-hook -t ");
    append_str(&mut out, session);
    out.push(' ');
    append_str(&mut out, hook);
    out.push(' ');
    let q = quote_tmux_cmd(command);
    append_str(&mut out, q.as_str());
    assert(out@ =~= hook_line(session@, hook@, command@));
    string_of(out.as_slice())
}

fn push_line(v: &mut Vec<String>, s: String)
    ensures
        final(v)@.map_values(|x: String| x@) == old(v)@.map_values(|x: String| x@).push(s@),
{
    let ghost before = v@;
    let ghost sv = s@;
    v.push(s);
    assert(v@.map_values(|x: String| x@) =~= before.map_values(|x: String| x@).push(sv));
}

/// The hook command that syncs window renames, for the muster binary `muster_bin`.
pub fn rename_hook(muster_bin: &str) -> (r: String)
    ensures
        r@ == rename_hook_of(muster_bin@),
{
    let mut out: Vec<char> = Vec::new();
    append_str(&mut out, "run-shell '");
    append_str(&mut out, muster_bin);
    append_str(&mut out, " sync-rename #{session_name} #{window_index} \"#{window_name}\"'");
    string_of(out.as_slice())
}

fn session_lines(tv: &ThemeValues, session: &str) -> (lines: Vec<String>)
    ensures
        lines@.map_values(|x: String| x@) == session_commands_of(tv@, session@).map_values(
            |c: Seq<Seq<char>>| command_line(c),
        ),
{
    let mut commands: Vec<String> = Vec::new();
    let session_cmds = tv.session_commands(session);
    let ghost sc = session_commands_of(tv@, session@);
    assert(session_cmds@.len() == sc.len());
    let mut i: usize = 0;
    while i < session_cmds.len()
        invariant
            i <= session_cmds@.len(),
            session_cmds@.len() == 4,
            session_cmds@.map_values(|x: Vec<String>| x@.map_values(|s: String| s@)) == sc,
            sc == session_commands_of(tv@, session@),
            commands@.map_values(|x: String| x@) == sc.take(i as int).map_values(
                |c: Seq<Seq<char>>| command_line(c),
            ),
        decreases session_cmds@.len() - i,
    {
        proof {
            assert(session_cmds@[i as int]@.map_values(|s: String| s@) == sc[i as int]);
            assert(sc[i as int].len() == 5);
        }
        let line = join_last_quoted(&session_cmds[i]);
        push_line(&mut commands, string_of(line.as_slice()));
        assert(commands@.map_values(|x: String| x@) =~= sc.take(i + 1).map_values(
            |c: Seq<Seq<char>>| command_line(c),
        ));
        i = i + 1;
    }
    assert(sc.take(session_cmds@.len() as int) =~= sc);
    commands
}

fn pinned_lines(tv: &ThemeValues, session: &str, window_count: usize) -> (lines: Vec<String>)
    ensures
        lines@.map_values(|x: String| x@) == pinned_window_lines(
            session@,
            tv@,
            window_count as nat,
        ),
{
    let mut commands: Vec<String> = Vec::new();
    let opts = tv.window_options();
    let ghost ov = window_options_of(tv@);
    let mut w: usize = 0;
    assert(commands@.map_values(|x: String| x@) =~= pinned_window_lines(session@, tv@, 0));
    while w < window_count
        invariant
            w <= window_count,
            opts@.map_values(|x: (String, String)| (x.0@, x.1@)) == ov,
            ov == window_options_of(tv@),
            commands@.map_values(|x: String| x@) == pinned_window_lines(session@, tv@, w as nat),
        decreases window_count - w,
    {
        let ghost before = commands@.map_values(|x: String| x@);
        let mut k: usize = 0;
        assert(opts@.len() == ov.len());
        while k < opts.len()
            invariant
                k <= opts@.len(),
                opts@.len() == ov.len(),
                opts@.map_values(|x: (String, String)| (x.0@, x.1@)) == ov,
                commands@.map_values(|x: String| x@) == before + ov.take(k as int).map_values(
                    |o: (Seq<char>, Seq<char>)| window_option_line(session@, w as nat, o.0, o.1),
                ),
            decreases opts@.len() - k,
        {
            assert(ov[k as int] == (opts@[k as int].0@, opts@[k as int].1@));
            let line = window_option_text(session, w, opts[k].0.as_str(), opts[k].1.as_str());
            push_line(&mut commands, line);
            assert(commands@.map_values(|x: String| x@) =~= before + ov.take(k + 1).map_values(
                |o: (Seq<char>, Seq<char>)| window_option_line(session@, w as nat, o.0, o.1),
            ));
            k = k + 1;
        }
        assert(ov.take(opts@.len() as int) =~= ov);
        assert(commands@.map_values(|x: String| x@) =~= pinned_window_lines(
            session@,
            tv@,
            (w + 1) as nat,
        ));
        w = w + 1;
    }
    commands
}

fn hook_lines(session: &str, muster_bin: &str) -> (lines: Vec<String>)
    ensures
        lines@.map_values(|x: String| x@) == theme_hook_lines(session@, muster_bin@),
{
    let mut commands: Vec<String> = Vec::new();
    let neutral = ThemeValues::neutral_hook_command();
    push_line(&mut commands, hook_text(session, "after-new-window", neutral.as_str()));
    push_line(
        &mut commands,
        hook_text(
            session,
            "after-split-window",
            "if-shell -F '#{@muster_pinned}' 'set-window-option @muster_layout_stale 1'",
        ),
    );
    let rh = rename_hook(muster_bin);
    push_line(&mut commands, hook_text(session, "after-rename-window", rh.as_str()));
    assert(commands@.map_values(|x: String| x@) =~= theme_hook_lines(session@, muster_bin@));
    commands
}

fn append_lines(a: &mut Vec<String>, b: Vec<String>)
    ensures
        final(a)@.map_values(|x: String| x@) == old(a)@.map_values(|x: String| x@) + b@.map_values(
            |x: String| x@,
        ),
{
    let ghost start = a@.map_values(|x: String| x@);
    let ghost bv = b@.map_values(|x: String| x@);
    let mut i: usize = 0;
    while i < b.len()
        invariant
            i <= b@.len(),
            bv == b@.map_values(|x: String| x@),
            a@.map_values(|x: String| x@) == start + bv.take(i as int),
        decreases b@.len() - i,
    {
        let s = owned(b[i].as_str());
        push_line(a, s);
        assert(start + bv.take(i as int) + seq![bv[i as int]] =~= start + bv.take(i + 1));
        i = i + 1;
    }
    assert(bv.take(b@.len() as int) =~= bv);
}

/// Build tmux command strings for theming a newly-launched session whose
/// `window_count` windows are all pinned; `muster_bin` is the path of the muster
/// binary that the rename hook runs.
pub fn build_launch_theme_commands(
    session: &str,
    color: &str,
    display_name: &str,
    window_count: usize,
    muster_bin: &str,
) -> (r: Result<Vec<String>, Error>)
    ensures
        match resolved_color_of(color@) {
            Err(m) => r matches Err(Error::InvalidColor(e)) && e@ == m,
            Ok(h) => theme_of(h, display_name@) matches Some(tv) && r matches Ok(lines)
                && lines@.map_values(|x: String| x@) == launch_theme_lines(
                session@,
                tv,
                window_count as nat,
                muster_bin@,
            ),
        },
{
    let resolved = match resolve_color(color) {
        Ok(c) => c,
        Err(e) => return Err(e),
    };
    proof {
        lemma_resolved_color_is_hex(color@);
    }
    let tv = match ThemeValues::new(resolved.as_str(), display_name) {
        Ok(tv) => tv,
        Err(e) => return Err(e),
    };
    let mut commands = session_lines(&tv, session);
    append_lines(&mut commands, pinned_lines(&tv, session, window_count));
    append_lines(&mut commands, hook_lines(session, muster_bin));
    Ok(commands)
}

// ---------------------------------------------------------------------------
// Styling commands for running sessions
// ---------------------------------------------------------------------------

/// The command list of `build_theme_commands`: the session options followed by
/// the pinned window options as session-level `set-option` commands.
pub open spec fn theme_commands_of(tv: ThemeView, session: Seq<char>) -> Seq<Seq<Seq<char>>> {
    session_commands_of(tv, session) + window_options_of(tv).map_values(
        |o: (Seq<char>, Seq<char>)| set_option_args(session, o.0, o.1),
    )
}

/// Build the list of tmux commands for theming a session.
pub fn build_theme_commands(session: &str, color: &str, display_name: &str) -> (r: Result<
    Vec<Vec<String>>,
    Error,
>)
    ensures
        match theme_of(color@, display_name@) {
            Some(tv) => r matches Ok(cmds) && cmds@.map_values(
                |x: Vec<String>| x@.map_values(|s: String| s@),
            ) == theme_commands_of(tv, session@),
            None => r matches Err(Error::InvalidColor(m)) && m@ == invalid_color_message(color@),
        },
{
    let tv = match ThemeValues::new(color, display_name) {
        Ok(tv) => tv,
        Err(e) => return Err(e),
    };
    let mut commands = tv.session_commands(session);
    let ghost head = commands@.map_values(|x: Vec<String>| x@.map_values(|s: String| s@));
    let opts = tv.window_options();
    let ghost ov = window_options_of(tv@);
    assert(opts@.len() == ov.len());
    let mut k: usize = 0;
    while k < opts.len()
        invariant
            k <= opts@.len(),
            opts@.len() == ov.len(),
            opts@.map_values(|x: (String, String)| (x.0@, x.1@)) == ov,
            commands@.map_values(|x: Vec<String>| x@.map_values(|s: String| s@)) == head
                + ov.take(k as int).map_values(
                |o: (Seq<char>, Seq<char>)| set_option_args(session@, o.0, o.1),
            ),
        decreases opts@.len() - k,
    {
        assert(ov[k as int] == (opts@[k as int].0@, opts@[k as int].1@));
        let v = owned(opts[k].1.as_str());
        push_args(&mut commands, set_option_vec(session, opts[k].0.as_str(), v));
        assert(commands@.map_values(|x: Vec<String>| x@.map_values(|s: String| s@)) =~= head
            + ov.take(k + 1).map_values(
            |o: (Seq<char>, Seq<char>)| set_option_args(session@, o.0, o.1),
        ));
        k = k + 1;
    }
    assert(ov.take(opts@.len() as int) =~= ov);
    Ok(commands)
}

/// `set-window-option -t session:index key value` for each option, in order.
pub open spec fn window_option_commands(
    session: Seq<char>,
    index: nat,
    opts: Seq<(Seq<char>, Seq<char>)>,
) -> Seq<Seq<Seq<char>>> {
    opts.map_values(
        |o: (Seq<char>, Seq<char>)|
            seq!["set-window-option"@, "-t"@, window_target(session, index), o.0, o.1],
    )
}

fn push_command(v: &mut Vec<TmuxCommand>, c: TmuxCommand)
    ensures
        final(v)@.map_values(|x: TmuxCommand| x@) == old(v)@.map_values(|x: TmuxCommand| x@).push(
            c@,
        ),
{
    let ghost before = v@;
    let ghost cv = c@;
    v.push(c);
    assert(v@.map_values(|x: TmuxCommand| x@) =~= before.map_values(|x: TmuxCommand| x@).push(cv));
}

fn window_option_cmds(
    client: &TmuxClient,
    session: &str,
    window_index: u32,
    opts: &Vec<(String, String)>,
    cmds: &mut Vec<TmuxCommand>,
)
    ensures
        final(cmds)@.map_values(|x: TmuxCommand| x@) == old(cmds)@.map_values(|x: TmuxCommand| x@)
            + window_option_commands(
            session@,
            window_index as nat,
            opts@.map_values(|x: (String, String)| (x.0@, x.1@)),
        ),
{
    let ghost start = cmds@.map_values(|x: TmuxCommand| x@);
    let ghost ov = opts@.map_values(|x: (String, String)| (x.0@, x.1@));
    let mut k: usize = 0;
    while k < opts.len()
        invariant
            k <= opts@.len(),
            ov == opts@.map_values(|x: (String, String)| (x.0@, x.1@)),
            cmds@.map_values(|x: TmuxCommand| x@) == start + window_option_commands(
                session@,
                window_index as nat,
                ov.take(k as int),
            ),
        decreases opts@.len() - k,
    {
        assert(ov[k as int] == (opts@[k as int].0@, opts@[k as int].1@));
        let c = client.set_window_option(
            session,
            window_index,
            opts[k].0.as_str(),
            opts[k].1.as_str(),
        );
        push_command(cmds, c);
        assert(cmds@.map_values(|x: TmuxCommand| x@) =~= start + window_option_commands(
            session@,
            window_index as nat,
            ov.take(k + 1),
        ));
        k = k + 1;
    }
    assert(ov.take(opts@.len() as int) =~= ov);
}

/// Apply colored (pinned) styling to a single window: the pinned window options,
/// then the `@muster_pinned` mark.
pub fn apply_pinned_window_style(
    client: &TmuxClient,
    session: &str,
    window_index: u32,
    color: &str,
    display_name: &str,
) -> (r: Result<Vec<TmuxCommand>, Error>)
    ensures
        match theme_of(color@, display_name@) {
            Some(tv) => r matches Ok(cmds) && cmds@.map_values(|x: TmuxCommand| x@)
                == window_option_commands(session@, window_index as nat, window_options_of(tv))
                + seq![
                seq![
                    "set-window-option"@,
                    "-t"@,
                    window_target(session@, window_index as nat),
                    "@muster_pinned"@,
                    "1"@,
                ],
            ],
            None => r matches Err(Error::InvalidColor(m)) && m@ == invalid_color_message(color@),
        },
{
    let tv = match ThemeValues::new(color, display_name) {
        Ok(tv) => tv,
        Err(e) => return Err(e),
    };
    let mut cmds: Vec<TmuxCommand> = Vec::new();
    let opts = tv.window_options();
    window_option_cmds(client, session, window_index, &opts, &mut cmds);
    push_command(&mut cmds, client.set_window_option(session, window_index, "@muster_pinned", "1"));
    assert(cmds@.map_values(|x: TmuxCommand| x@) =~= window_option_commands(
        session@,
        window_index as nat,
        window_options_of(tv@),
    ) + seq![
        seq![
            "set-window-option"@,
            "-t"@,
            window_target(session@, window_index as nat),
            "@muster_pinned"@,
            "1"@,
        ],
    ]);
    Ok(cmds)
}

/// Apply neutral (unpinned) styling to a single window. The first list sets the
/// neutral options; the second removes the pin and tab-name marks and may fail
/// without consequence (the marks may never have been set).
pub fn apply_neutral_window_style(client: &TmuxClient, session: &str, window_index: u32) -> (r: (
    Vec<TmuxCommand>,
    Vec<TmuxCommand>,
))
    ensures
        r.0@.map_values(|x: TmuxCommand| x@) == window_option_commands(
            session@,
            window_index as nat,
            neutral_options_of(),
        ),
        r.1@.map_values(|x: TmuxCommand| x@) == seq![
            seq![
                "set-window-option"@,
                "-u"@,
                "-t"@,
                window_target(session@, window_index as nat),
                "@muster_pinned"@,
            ],
            seq![
                "set-window-option"@,
                "-u"@,
                "-t"@,
                window_target(session@, window_index as nat),
                "@muster_tab_name"@,
            ],
        ],
{
    let mut cmds: Vec<TmuxCommand> = Vec::new();
    let opts = ThemeValues::neutral_window_options();
    window_option_cmds(client, session, window_index, &opts, &mut cmds);
    assert(cmds@.map_values(|x: TmuxCommand| x@) =~= window_option_commands(
        session@,
        window_index as nat,
        neutral_options_of(),
    ));
    let mut cleanup: Vec<TmuxCommand> = Vec::new();
    push_command(&mut cleanup, client.unset_window_option(session, window_index, "@muster_pinned"));
    push_command(
        &mut cleanup,
        client.unset_window_option(session, window_index, "@muster_tab_name"),
    );
    (cmds, cleanup)
}

/// The styling of existing windows: pinned windows get the theme's options,
/// unpinned ones the neutral options, in window order.
pub open spec fn window_styling(
    session: Seq<char>,
    tv: ThemeView,
    windows: Seq<(u32, bool)>,
) -> Seq<Seq<Seq<char>>>
    decreases windows.len(),
{
    if windows.len() == 0 {
        seq![]
    } else {
        let (index, pinned) = windows.last();
        window_styling(session, tv, windows.drop_last()) + if pinned {
            window_option_commands(session, index as nat, window_options_of(tv))
        } else {
            window_option_commands(session, index as nat, neutral_options_of())
        }
    }
}

/// The hooks of a themed session, as argument lists.
pub open spec fn theme_hook_commands(session: Seq<char>, muster_bin: Seq<char>) -> Seq<
    Seq<Seq<char>>,
> {
    seq![
        seq!["set-hook"@, "-t"@, session, "after-new-window"@, neutral_hook_of()],
        seq!["set-hook"@, "-t"@, session, "after-split-window"@, split_hook_of()],
        seq!["set-hook"@, "-t"@, session, "after-rename-window"@, rename_hook_of(muster_bin)],
    ]
}

/// What `apply_theme` issues for a colour input: the session options, the
/// styling of each window (listed with whether it is pinned), and the hooks; or
/// the invalid-colour message.
pub open spec fn apply_theme_of(
    session: Seq<char>,
    color: Seq<char>,
    display_name: Seq<char>,
    windows: Seq<(u32, bool)>,
    muster_bin: Seq<char>,
) -> Result<Seq<Seq<Seq<char>>>, Seq<char>> {
    match resolved_color_of(color) {
        Err(m) => Err(m),
        Ok(h) => match theme_of(h, display_name) {
            Some(tv) => Ok(
                session_commands_of(tv, session) + window_styling(session, tv, windows)
                    + theme_hook_commands(session, muster_bin),
            ),
            None => Err(invalid_color_message(h)),
        },
    }
}

fn command_from_vec(args: Vec<String>) -> (c: TmuxCommand)
    ensures
        c@ == args@.map_values(|s: String| s@),
{
    crate::tmux::client::command_of(args)
}

fn hook_command(session: &str, hook: &str, command: String) -> (c: TmuxCommand)
    ensures
        c@ == seq!["set-hook"@, "-t"@, session@, hook@, command@],
{
    let mut a: Vec<String> = Vec::new();
    a.push(owned("set-hook"));
    a.push(owned("-t"));
    a.push(owned(session));
    a.push(owned(hook));
    let ghost cv = command@;
    a.push(command);
    let c = command_from_vec(a);
    assert(c@ =~= seq!["set-hook"@, "-t"@, session@, hook@, cv]);
    c
}

fn session_tmux_commands(tv: &ThemeValues, session: &str) -> (cmds: Vec<TmuxCommand>)
    ensures
        cmds@.map_values(|x: TmuxCommand| x@) == session_commands_of(tv@, session@),
{
    let mut cmds: Vec<TmuxCommand> = Vec::new();
    let session_cmds = tv.session_commands(session);
    let ghost sc = session_commands_of(tv@, session@);
    let mut i: usize = 0;
    while i < session_cmds.len()
        invariant
            i <= session_cmds@.len(),
            session_cmds@.map_values(|x: Vec<String>| x@.map_values(|s: String| s@)) == sc,
            cmds@.map_values(|x: TmuxCommand| x@) == sc.take(i as int),
        decreases session_cmds@.len() - i,
    {
        let a = crate::tmux::client::copy_strings(&session_cmds[i]);
        proof {
            assert(session_cmds@[i as int]@.map_values(|s: String| s@) == sc[i as int]);
        }
        push_command(&mut cmds, command_from_vec(a));
        assert(cmds@.map_values(|x: TmuxCommand| x@) =~= sc.take(i + 1));
        i = i + 1;
    }
    assert(sc.take(session_cmds@.len() as int) =~= sc);
    cmds
}

/// Apply the color theme to a running tmux session. Accepts hex colors
/// (`#f97316`) or named colors (`orange`).
///
/// `windows` lists the session's windows, each with whether it is pinned;
/// `muster_bin` is the muster binary the rename hook runs. The commands set the
/// session options, style each window (coloured when pinned, neutral when not)
/// and install the hooks, in that order.
pub fn apply_theme(
    client: &TmuxClient,
    session: &str,
    color: &str,
    display_name: &str,
    windows: &[(u32, bool)],
    muster_bin: &str,
) -> (r: Result<Vec<TmuxCommand>, Error>)
    ensures
        match apply_theme_of(session@, color@, display_name@, windows@, muster_bin@) {
            Ok(cmds) => r matches Ok(c) && c@.map_values(|x: TmuxCommand| x@) == cmds,
            Err(m) => r matches Err(Error::InvalidColor(e)) && e@ == m,
        },
{
    let resolved = match resolve_color(color) {
        Ok(c) => c,
        Err(e) => return Err(e),
    };
    proof {
        lemma_resolved_color_is_hex(color@);
    }
    let tv = match ThemeValues::new(resolved.as_str(), display_name) {
        Ok(tv) => tv,
        Err(e) => return Err(e),
    };
    let mut cmds = session_tmux_commands(&tv, session);
    let pinned_opts = tv.window_options();
    let neutral_opts = ThemeValues::neutral_window_options();
    let ghost head = cmds@.map_values(|x: TmuxCommand| x@);
    let mut w: usize = 0;
    while w < windows.len()
        invariant
            w <= windows@.len(),
            pinned_opts@.map_values(|x: (String, String)| (x.0@, x.1@)) == window_options_of(
                tv@,
            ),
            neutral_opts@.map_values(|x: (String, String)| (x.0@, x.1@)) == neutral_options_of(),
            cmds@.map_values(|x: TmuxCommand| x@) == head + window_styling(
                session@,
                tv@,
                windows@.take(w as int),
            ),
        decreases windows@.len() - w,
    {
        let (index, pinned) = windows[w];
        assert(windows@.take(w + 1).drop_last() =~= windows@.take(w as int));
        if pinned {
            window_option_cmds(client, session, index, &pinned_opts, &mut cmds);
        } else {
            window_option_cmds(client, session, index, &neutral_opts, &mut cmds);
        }
        assert(cmds@.map_values(|x: TmuxCommand| x@) =~= head + window_styling(
            session@,
            tv@,
            windows@.take(w + 1),
        ));
        w = w + 1;
    }
    assert(windows@.take(windows@.len() as int) =~= windows@);
    push_command(
        &mut cmds,
        hook_command(session, "after-new-window", ThemeValues::neutral_hook_command()),
    );
    push_command(
        &mut cmds,
        hook_command(
            session,
            "after-split-window",
            owned("if-shell -F '#{@muster_pinned}' 'set-window-option @muster_layout_stale 1'"),
        ),
    );
    push_command(&mut cmds, hook_command(session, "after-rename-window", rename_hook(muster_bin)));
    assert(cmds@.map_values(|x: TmuxCommand| x@) =~= session_commands_of(tv@, session@)
        + window_styling(session@, tv@, windows@) + theme_hook_commands(session@, muster_bin@));
    Ok(cmds)
}

/// Change a session's color: set the `@muster_color` option to the resolved
/// colour, then re-apply the theme with it.
pub fn set_color(
    client: &TmuxClient,
    session: &str,
    color: &str,
    display_name: &str,
    windows: &[(u32, bool)],
    muster_bin: &str,
) -> (r: Result<Vec<TmuxCommand>, Error>)
    ensures
        match resolved_color_of(color@) {
            Err(m) => r matches Err(Error::InvalidColor(e)) && e@ == m,
            Ok(h) => match apply_theme_of(session@, h, display_name@, windows@, muster_bin@) {
                Ok(cmds) => r matches Ok(c) && c@.map_values(|x: TmuxCommand| x@) == seq![
                    seq!["set-option"@, "-t"@, session@, "@muster_color"@, h],
                ] + cmds,
                Err(m) => r matches Err(Error::InvalidColor(e)) && e@ == m,
            },
        },
{
    let resolved = match resolve_color(color) {
        Ok(c) => c,
        Err(e) => return Err(e),
    };
    proof {
        lemma_resolved_color_is_hex(color@);
    }
    let mut cmds: Vec<TmuxCommand> = Vec::new();
    push_command(&mut cmds, client.set_option(session, "@muster_color", resolved.as_str()));
    let rest = match apply_theme(client, session, resolved.as_str(), display_name, windows, muster_bin) {
        Ok(c) => c,
        Err(e) => return Err(e),
    };
    let ghost head = cmds@.map_values(|x: TmuxCommand| x@);
    let ghost rv = rest@.map_values(|x: TmuxCommand| x@);
    let mut i: usize = 0;
    while i < rest.len()
        invariant
            i <= rest@.len(),
            rv == rest@.map_values(|x: TmuxCommand| x@),
            cmds@.map_values(|x: TmuxCommand| x@) == head + rv.take(i as int),
        decreases rest@.len() - i,
    {
        push_command(&mut cmds, rest[i].duplicate());
        assert(cmds@.map_values(|x: TmuxCommand| x@) =~= head + rv.take(i + 1));
        i = i + 1;
    }
    assert(rv.take(rest@.len() as int) =~= rv);
    Ok(cmds)
}


// ---------------------------------------------------------------------------
// Laws of shades and window styling
// ---------------------------------------------------------------------------

proof fn lemma_rsplit_suffix(name: Seq<char>, suffix: Seq<char>)
    requires
        !suffix.contains('-'),
    ensures
        rsplit_once(name + seq!['-'] + suffix, '-') == Some((name, suffix)),
{
    let s = name + seq!['-'] + suffix;
    let i = name.len() as int;
    assert forall|j: int| i < j < s.len() implies s[j] != '-' by {
        assert(s[j] == suffix[j - i - 1]);
    }
    lemma_last_index_of(s, '-', i);
    assert(s.take(i) =~= name);
    assert(s.skip(i + 1) =~= suffix);
}

/// The shades of a colour name: `<name>-light` and `<name>-dark` give the
/// curated light and dark shade of the family named by the lowercased name;
/// for a named colour without a family, `-light` mixes each channel halfway to
/// white (`(c + 255) / 2`, never darker than the colour) and `-dark` scales it
/// to 45% (`c * 45 / 100`, never lighter); other names have no shades.
pub proof fn lemma_shades_of_names(name: Seq<char>)
    ensures
        ({
            let lower = lowercase(name);
            let light = shaded_hex_of(name + "-light"@);
            let dark = shaded_hex_of(name + "-dark"@);
            match shade_find(shade_table(), lower) {
                Some(f) => light == Some(rgb_hex(f.light.0, f.light.1, f.light.2)) && dark == Some(
                    rgb_hex(f.dark.0, f.dark.1, f.dark.2),
                ),
                None => match named_find(named_table(), lower) {
                    Some(c) => {
                        &&& light == Some(
                            rgb_hex(
                                ((c.0 + 255) / 2) as u8,
                                ((c.1 + 255) / 2) as u8,
                                ((c.2 + 255) / 2) as u8,
                            ),
                        )
                        &&& dark == Some(
                            rgb_hex(
                                (c.0 * 45 / 100) as u8,
                                (c.1 * 45 / 100) as u8,
                                (c.2 * 45 / 100) as u8,
                            ),
                        )
                        &&& c.0 * 45 / 100 <= c.0 <= (c.0 + 255) / 2
                        &&& c.1 * 45 / 100 <= c.1 <= (c.1 + 255) / 2
                        &&& c.2 * 45 / 100 <= c.2 <= (c.2 + 255) / 2
                    },
                    None => light is None && dark is None,
                },
            }
        }),
{
    reveal_strlit("-light");
    reveal_strlit("-dark");
    reveal_strlit("light");
    reveal_strlit("dark");
    assert("-light"@ =~= seq!['-'] + "light"@);
    assert("-dark"@ =~= seq!['-'] + "dark"@);
    assert(name + "-light"@ =~= name + seq!['-'] + "light"@);
    assert(name + "-dark"@ =~= name + seq!['-'] + "dark"@);
    lemma_rsplit_suffix(name, "light"@);
    lemma_rsplit_suffix(name, "dark"@);
    assert("dark"@ != "light"@);
}

/// The styling commands of `apply_theme` (after the four session options):
/// window `k` of the list gets three `set-window-option` commands on
/// `<session>:<index>`, carrying the theme's window options when it is pinned
/// and the neutral options when it is not.
pub proof fn lemma_apply_theme_styles_windows(
    session: Seq<char>,
    color: Seq<char>,
    display_name: Seq<char>,
    windows: Seq<(u32, bool)>,
    muster_bin: Seq<char>,
)
    ensures
        apply_theme_of(session, color, display_name, windows, muster_bin) matches Ok(cmds) ==> {
            let tv = theme_of(resolved_color_of(color)->Ok_0, display_name)->Some_0;
            forall|k: int, j: int|
                0 <= k < windows.len() && 0 <= j < 3 ==> #[trigger] cmds[4 + 3 * k + j] == seq![
                    "set-window-option"@,
                    "-t"@,
                    session + seq![':'] + decimal(windows[k].0 as nat),
                    (if windows[k].1 {
                        window_options_of(tv)
                    } else {
                        neutral_options_of()
                    })[j].0,
                    (if windows[k].1 {
                        window_options_of(tv)
                    } else {
                        neutral_options_of()
                    })[j].1,
                ]
        },
{
    if let Ok(cmds) = apply_theme_of(session, color, display_name, windows, muster_bin) {
        let tv = theme_of(resolved_color_of(color)->Ok_0, display_name)->Some_0;
        lemma_window_styling(session, tv, windows);
        let st = window_styling(session, tv, windows);
        let head = session_commands_of(tv, session);
        assert(head.len() == 4);
        assert forall|k: int, j: int| 0 <= k < windows.len() && 0 <= j < 3 implies #[trigger] cmds[4
            + 3 * k + j] == st[3 * k + j] by {
            assert(0 <= 3 * k + j < 3 * windows.len()) by (nonlinear_arith)
                requires
                    0 <= k < windows.len(),
                    0 <= j < 3,
            ;
        }
    }
}

proof fn lemma_window_styling(session: Seq<char>, tv: ThemeView, windows: Seq<(u32, bool)>)
    ensures
        window_styling(session, tv, windows).len() == 3 * windows.len(),
        forall|k: int, j: int|
            0 <= k < windows.len() && 0 <= j < 3 ==> #[trigger] window_styling(
                session,
                tv,
                windows,
            )[3 * k + j] == seq![
                "set-window-option"@,
                "-t"@,
                session + seq![':'] + decimal(windows[k].0 as nat),
                (if windows[k].1 {
                    window_options_of(tv)
                } else {
                    neutral_options_of()
                })[j].0,
                (if windows[k].1 {
                    window_options_of(tv)
                } else {
                    neutral_options_of()
                })[j].1,
            ],
    decreases windows.len(),
{
    if windows.len() > 0 {
        let w = windows.drop_last();
        lemma_window_styling(session, tv, w);
        let prev = window_styling(session, tv, w);
        let (index, pinned) = windows.last();
        let opts = if pinned {
            window_options_of(tv)
        } else {
            neutral_options_of()
        };
        assert(opts.len() == 3);
        let tail = window_option_commands(session, index as nat, opts);
        assert(window_styling(session, tv, windows) == prev + tail);
        assert forall|k: int, j: int| 0 <= k < windows.len() && 0 <= j < 3 implies #[trigger] window_styling(
            session,
            tv,
            windows,
        )[3 * k + j] == seq![
            "set-window-option"@,
            "-t"@,
            session + seq![':'] + decimal(windows[k].0 as nat),
            (if windows[k].1 {
                window_options_of(tv)
            } else {
                neutral_options_of()
            })[j].0,
            (if windows[k].1 {
                window_options_of(tv)
            } else {
                neutral_options_of()
            })[j].1,
        ] by {
            assert(3 * k + j < 3 * windows.len()) by (nonlinear_arith)
                requires
                    0 <= k < windows.len(),
                    0 <= j < 3,
            ;
            if k < w.len() {
                assert(3 * k + j < 3 * w.len()) by (nonlinear_arith)
                    requires
                        0 <= k < w.len(),
                        0 <= j < 3,
                ;
                assert(windows[k] == w[k]);
            } else {
                assert(k == w.len());
                assert(3 * k + j - prev.len() == j);
                assert(windows[k] == windows.last());
            }
        }
    }
}

} // verus!
