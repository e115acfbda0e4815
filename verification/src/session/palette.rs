//! The colour tables: named colours and their light and dark shades.
use vstd::prelude::*;

verus! {

/// A named colour: its canonical name, the aliases accepted for it, and its value.
pub struct NamedColor {
    pub name: &'static str,
    pub aliases: Vec<&'static str>,
    pub rgb: (u8, u8, u8),
}

/// The value of a [`NamedColor`].
pub struct NamedColorView {
    pub name: Seq<char>,
    pub aliases: Seq<Seq<char>>,
    pub rgb: (u8, u8, u8),
}

impl View for NamedColor {
    type V = NamedColorView;

    open spec fn view(&self) -> NamedColorView {
        NamedColorView {
            name: self.name@,
            aliases: self.aliases@.map_values(|a: &'static str| a@),
            rgb: self.rgb,
        }
    }
}

/// A colour family with curated light (300), base (500) and dark (700) shades.
pub struct ShadeFamily {
    pub name: &'static str,
    pub light: (u8, u8, u8),
    pub base: (u8, u8, u8),
    pub dark: (u8, u8, u8),
}

/// The value of a [`ShadeFamily`].
pub struct ShadeFamilyView {
    pub name: Seq<char>,
    pub light: (u8, u8, u8),
    pub base: (u8, u8, u8),
    pub dark: (u8, u8, u8),
}

impl View for ShadeFamily {
    type V = ShadeFamilyView;

    open spec fn view(&self) -> ShadeFamilyView {
        ShadeFamilyView { name: self.name@, light: self.light, base: self.base, dark: self.dark }
    }
}

/// The named colours available for session theming, in listing order.
pub open spec fn named_table() -> Seq<NamedColorView> {
    seq![
        NamedColorView { name: "black"@, aliases: seq![], rgb: (0x00, 0x00, 0x00) },
        NamedColorView { name: "red"@, aliases: seq![], rgb: (0xcc, 0x00, 0x00) },
        NamedColorView { name: "green"@, aliases: seq![], rgb: (0x4e, 0x9a, 0x06) },
        NamedColorView { name: "yellow"@, aliases: seq![], rgb: (0xc4, 0xa0, 0x00) },
        NamedColorView { name: "blue"@, aliases: seq![], rgb: (0x34, 0x65, 0xa4) },
        NamedColorView { name: "magenta"@, aliases: seq![], rgb: (0x75, 0x50, 0x7b) },
        NamedColorView { name: "cyan"@, aliases: seq![], rgb: (0x06, 0x98, 0x9a) },
        NamedColorView { name: "white"@, aliases: seq![], rgb: (0xd3, 0xd7, 0xcf) },
        NamedColorView { name: "orange"@, aliases: seq![], rgb: (0xf9, 0x73, 0x16) },
        NamedColorView { name: "pink"@, aliases: seq![], rgb: (0xec, 0x48, 0x99) },
        NamedColorView { name: "purple"@, aliases: seq!["violet"@], rgb: (0xa8, 0x55, 0xf7) },
        NamedColorView { name: "teal"@, aliases: seq![], rgb: (0x14, 0xb8, 0xa6) },
        NamedColorView { name: "lime"@, aliases: seq![], rgb: (0x84, 0xcc, 0x16) },
        NamedColorView { name: "amber"@, aliases: seq![], rgb: (0xf5, 0x9e, 0x0b) },
        NamedColorView { name: "rose"@, aliases: seq![], rgb: (0xf4, 0x3f, 0x5e) },
        NamedColorView { name: "indigo"@, aliases: seq![], rgb: (0x63, 0x66, 0xf1) },
        NamedColorView { name: "sky"@, aliases: seq![], rgb: (0x0e, 0xa5, 0xe9) },
        NamedColorView { name: "emerald"@, aliases: seq![], rgb: (0x10, 0xb9, 0x81) },
        NamedColorView { name: "fuchsia"@, aliases: seq![], rgb: (0xd9, 0x46, 0xef) },
        NamedColorView { name: "coral"@, aliases: seq![], rgb: (0xff, 0x7f, 0x50) },
        NamedColorView { name: "tomato"@, aliases: seq![], rgb: (0xff, 0x63, 0x47) },
        NamedColorView { name: "crimson"@, aliases: seq![], rgb: (0xdc, 0x14, 0x3c) },
        NamedColorView { name: "gold"@, aliases: seq![], rgb: (0xff, 0xd7, 0x00) },
        NamedColorView { name: "navy"@, aliases: seq![], rgb: (0x00, 0x00, 0x80) },
        NamedColorView { name: "brown"@, aliases: seq!["chocolate"@], rgb: (0x8b, 0x45, 0x13) },
        NamedColorView { name: "slate"@, aliases: seq![], rgb: (0x64, 0x74, 0x8b) },
        NamedColorView { name: "gray"@, aliases: seq!["grey"@], rgb: (0x80, 0x80, 0x80) },
    ]
}

/// The curated shade families (Tailwind CSS 300/500/700), in listing order.
/// A bare name in [`named_table`] may differ from the family's base here.
pub open spec fn shade_table() -> Seq<ShadeFamilyView> {
    seq![
        ShadeFamilyView { name: "slate"@, light: (0xcb, 0xd5, 0xe1), base: (0x64, 0x74, 0x8b), dark: (0x33, 0x41, 0x55) },
        ShadeFamilyView { name: "gray"@, light: (0xd1, 0xd5, 0xdb), base: (0x6b, 0x72, 0x80), dark: (0x37, 0x41, 0x51) },
        ShadeFamilyView { name: "red"@, light: (0xfc, 0xa5, 0xa5), base: (0xef, 0x44, 0x44), dark: (0xb9, 0x1c, 0x1c) },
        ShadeFamilyView { name: "orange"@, light: (0xfd, 0xba, 0x74), base: (0xf9, 0x73, 0x16), dark: (0xc2, 0x41, 0x0c) },
        ShadeFamilyView { name: "amber"@, light: (0xfc, 0xd3, 0x4d), base: (0xf5, 0x9e, 0x0b), dark: (0xb4, 0x53, 0x09) },
        ShadeFamilyView { name: "yellow"@, light: (0xfd, 0xe0, 0x47), base: (0xea, 0xb3, 0x08), dark: (0xa1, 0x62, 0x07) },
        ShadeFamilyView { name: "lime"@, light: (0xbe, 0xf2, 0x64), base: (0x84, 0xcc, 0x16), dark: (0x4d, 0x7c, 0x0f) },
        ShadeFamilyView { name: "green"@, light: (0x86, 0xef, 0xac), base: (0x22, 0xc5, 0x5e), dark: (0x15, 0x80, 0x3d) },
        ShadeFamilyView { name: "emerald"@, light: (0x6e, 0xe7, 0xb7), base: (0x10, 0xb9, 0x81), dark: (0x04, 0x78, 0x57) },
        ShadeFamilyView { name: "teal"@, light: (0x5e, 0xea, 0xd4), base: (0x14, 0xb8, 0xa6), dark: (0x0f, 0x76, 0x6e) },
        ShadeFamilyView { name: "cyan"@, light: (0x67, 0xe8, 0xf9), base: (0x06, 0xb6, 0xd4), dark: (0x0e, 0x74, 0x90) },
        ShadeFamilyView { name: "sky"@, light: (0x7d, 0xd3, 0xfc), base: (0x0e, 0xa5, 0xe9), dark: (0x03, 0x69, 0xa1) },
        ShadeFamilyView { name: "blue"@, light: (0x93, 0xc5, 0xfd), base: (0x3b, 0x82, 0xf6), dark: (0x1d, 0x4e, 0xd8) },
        ShadeFamilyView { name: "indigo"@, light: (0xa5, 0xb4, 0xfc), base: (0x63, 0x66, 0xf1), dark: (0x43, 0x38, 0xca) },
        ShadeFamilyView { name: "violet"@, light: (0xc4, 0xb5, 0xfd), base: (0x8b, 0x5c, 0xf6), dark: (0x6d, 0x28, 0xd9) },
        ShadeFamilyView { name: "purple"@, light: (0xd8, 0xb4, 0xfe), base: (0xa8, 0x55, 0xf7), dark: (0x7e, 0x22, 0xce) },
        ShadeFamilyView { name: "fuchsia"@, light: (0xf0, 0xab, 0xfc), base: (0xd9, 0x46, 0xef), dark: (0xa2, 0x1c, 0xaf) },
        ShadeFamilyView { name: "pink"@, light: (0xf9, 0xa8, 0xd4), base: (0xec, 0x48, 0x99), dark: (0xbe, 0x18, 0x5d) },
        ShadeFamilyView { name: "rose"@, light: (0xfd, 0xa4, 0xaf), base: (0xf4, 0x3f, 0x5e), dark: (0xbe, 0x12, 0x3c) },
    ]
}

fn no_aliases() -> (v: Vec<&'static str>)
    ensures
        v@.map_values(|a: &'static str| a@) == Seq::<Seq<char>>::empty(),
{
    let v: Vec<&'static str> = Vec::new();
    assert(v@.map_values(|a: &'static str| a@) =~= Seq::<Seq<char>>::empty());
    v
}

fn one_alias(a: &'static str) -> (v: Vec<&'static str>)
    ensures
        v@.map_values(|x: &'static str| x@) == seq![a@],
{
    let mut v: Vec<&'static str> = Vec::new();
    v.push(a);
    assert(v@.map_values(|x: &'static str| x@) =~= seq![a@]);
    v
}

/// The named colours, in listing order.
pub fn named_colors() -> (t: Vec<NamedColor>)
    ensures
        t@.map_values(|c: NamedColor| c@) == named_table(),
{
    let mut t: Vec<NamedColor> = Vec::new();
    t.push(NamedColor { name: "black", aliases: no_aliases(), rgb: (0x00, 0x00, 0x00) });
    t.push(NamedColor { name: "red", aliases: no_aliases(), rgb: (0xcc, 0x00, 0x00) });
    t.push(NamedColor { name: "green", aliases: no_aliases(), rgb: (0x4e, 0x9a, 0x06) });
    t.push(NamedColor { name: "yellow", aliases: no_aliases(), rgb: (0xc4, 0xa0, 0x00) });
    t.push(NamedColor { name: "blue", aliases: no_aliases(), rgb: (0x34, 0x65, 0xa4) });
    t.push(NamedColor { name: "magenta", aliases: no_aliases(), rgb: (0x75, 0x50, 0x7b) });
    t.push(NamedColor { name: "cyan", aliases: no_aliases(), rgb: (0x06, 0x98, 0x9a) });
    t.push(NamedColor { name: "white", aliases: no_aliases(), rgb: (0xd3, 0xd7, 0xcf) });
    t.push(NamedColor { name: "orange", aliases: no_aliases(), rgb: (0xf9, 0x73, 0x16) });
    t.push(NamedColor { name: "pink", aliases: no_aliases(), rgb: (0xec, 0x48, 0x99) });
    t.push(NamedColor { name: "purple", aliases: one_alias("violet"), rgb: (0xa8, 0x55, 0xf7) });
    t.push(NamedColor { name: "teal", aliases: no_aliases(), rgb: (0x14, 0xb8, 0xa6) });
    t.push(NamedColor { name: "lime", aliases: no_aliases(), rgb: (0x84, 0xcc, 0x16) });
    t.push(NamedColor { name: "amber", aliases: no_aliases(), rgb: (0xf5, 0x9e, 0x0b) });
    t.push(NamedColor { name: "rose", aliases: no_aliases(), rgb: (0xf4, 0x3f, 0x5e) });
    t.push(NamedColor { name: "indigo", aliases: no_aliases(), rgb: (0x63, 0x66, 0xf1) });
    t.push(NamedColor { name: "sky", aliases: no_aliases(), rgb: (0x0e, 0xa5, 0xe9) });
    t.push(NamedColor { name: "emerald", aliases: no_aliases(), rgb: (0x10, 0xb9, 0x81) });
    t.push(NamedColor { name: "fuchsia", aliases: no_aliases(), rgb: (0xd9, 0x46, 0xef) });
    t.push(NamedColor { name: "coral", aliases: no_aliases(), rgb: (0xff, 0x7f, 0x50) });
    t.push(NamedColor { name: "tomato", aliases: no_aliases(), rgb: (0xff, 0x63, 0x47) });
    t.push(NamedColor { name: "crimson", aliases: no_aliases(), rgb: (0xdc, 0x14, 0x3c) });
    t.push(NamedColor { name: "gold", aliases: no_aliases(), rgb: (0xff, 0xd7, 0x00) });
    t.push(NamedColor { name: "navy", aliases: no_aliases(), rgb: (0x00, 0x00, 0x80) });
    t.push(NamedColor { name: "brown", aliases: one_alias("chocolate"), rgb: (0x8b, 0x45, 0x13) });
    t.push(NamedColor { name: "slate", aliases: no_aliases(), rgb: (0x64, 0x74, 0x8b) });
    t.push(NamedColor { name: "gray", aliases: one_alias("grey"), rgb: (0x80, 0x80, 0x80) });
    assert(t@.map_values(|c: NamedColor| c@) =~= named_table());
    t
}

/// The curated shade families, in listing order.
pub fn tailwind_shades() -> (t: Vec<ShadeFamily>)
    ensures
        t@.map_values(|c: ShadeFamily| c@) == shade_table(),
{
    let mut t: Vec<ShadeFamily> = Vec::new();
    t.push(ShadeFamily { name: "slate", light: (0xcb, 0xd5, 0xe1), base: (0x64, 0x74, 0x8b), dark: (0x33, 0x41, 0x55) });
    t.push(ShadeFamily { name: "gray", light: (0xd1, 0xd5, 0xdb), base: (0x6b, 0x72, 0x80), dark: (0x37, 0x41, 0x51) });
    t.push(ShadeFamily { name: "red", light: (0xfc, 0xa5, 0xa5), base: (0xef, 0x44, 0x44), dark: (0xb9, 0x1c, 0x1c) });
    t.push(ShadeFamily { name: "orange", light: (0xfd, 0xba, 0x74), base: (0xf9, 0x73, 0x16), dark: (0xc2, 0x41, 0x0c) });
    t.push(ShadeFamily { name: "amber", light: (0xfc, 0xd3, 0x4d), base: (0xf5, 0x9e, 0x0b), dark: (0xb4, 0x53, 0x09) });
    t.push(ShadeFamily { name: "yellow", light: (0xfd, 0xe0, 0x47), base: (0xea, 0xb3, 0x08), dark: (0xa1, 0x62, 0x07) });
    t.push(ShadeFamily { name: "lime", light: (0xbe, 0xf2, 0x64), base: (0x84, 0xcc, 0x16), dark: (0x4d, 0x7c, 0x0f) });
    t.push(ShadeFamily { name: "green", light: (0x86, 0xef, 0xac), base: (0x22, 0xc5, 0x5e), dark: (0x15, 0x80, 0x3d) });
    t.push(ShadeFamily { name: "emerald", light: (0x6e, 0xe7, 0xb7), base: (0x10, 0xb9, 0x81), dark: (0x04, 0x78, 0x57) });
    t.push(ShadeFamily { name: "teal", light: (0x5e, 0xea, 0xd4), base: (0x14, 0xb8, 0xa6), dark: (0x0f, 0x76, 0x6e) });
    t.push(ShadeFamily { name: "cyan", light: (0x67, 0xe8, 0xf9), base: (0x06, 0xb6, 0xd4), dark: (0x0e, 0x74, 0x90) });
    t.push(ShadeFamily { name: "sky", light: (0x7d, 0xd3, 0xfc), base: (0x0e, 0xa5, 0xe9), dark: (0x03, 0x69, 0xa1) });
    t.push(ShadeFamily { name: "blue", light: (0x93, 0xc5, 0xfd), base: (0x3b, 0x82, 0xf6), dark: (0x1d, 0x4e, 0xd8) });
    t.push(ShadeFamily { name: "indigo", light: (0xa5, 0xb4, 0xfc), base: (0x63, 0x66, 0xf1), dark: (0x43, 0x38, 0xca) });
    t.push(ShadeFamily { name: "violet", light: (0xc4, 0xb5, 0xfd), base: (0x8b, 0x5c, 0xf6), dark: (0x6d, 0x28, 0xd9) });
    t.push(ShadeFamily { name: "purple", light: (0xd8, 0xb4, 0xfe), base: (0xa8, 0x55, 0xf7), dark: (0x7e, 0x22, 0xce) });
    t.push(ShadeFamily { name: "fuchsia", light: (0xf0, 0xab, 0xfc), base: (0xd9, 0x46, 0xef), dark: (0xa2, 0x1c, 0xaf) });
    t.push(ShadeFamily { name: "pink", light: (0xf9, 0xa8, 0xd4), base: (0xec, 0x48, 0x99), dark: (0xbe, 0x18, 0x5d) });
    t.push(ShadeFamily { name: "rose", light: (0xfd, 0xa4, 0xaf), base: (0xf4, 0x3f, 0x5e), dark: (0xbe, 0x12, 0x3c) });
    assert(t@.map_values(|c: ShadeFamily| c@) =~= shade_table());
    t
}

} // verus!
