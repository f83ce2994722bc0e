//! Colors, highlights, and the table of highlight definitions.
//!
//! A color is held as its three 8-bit channels. The blend of a highlight is
//! held as the number Neovim sent (a percentage); a renderer divides it by
//! 100 to get the fraction.

use vstd::prelude::*;
use vstd::string::*;
use std::collections::HashMap;

use crate::text::{push_char, to_string};
use crate::value::Number;

verus! {

broadcast use vstd::std_specs::hash::group_hash_axioms;

/// An RGB color.
#[derive(Clone, Copy, PartialEq, Eq, Structural, Debug)]
pub struct Color {
    pub r: u8,
    pub g: u8,
    pub b: u8,
}

impl Default for Color {
    fn default() -> (c: Color)
        ensures
            c == (Color { r: 0, g: 0, b: 0 }),
    {
        Color { r: 0, g: 0, b: 0 }
    }
}

/// The lowercase hexadecimal digit of `n` (`0 <= n < 16`).
pub open spec fn hex_char(n: nat) -> char {
    if n < 10 {
        ((n + 48) as u32) as char
    } else {
        ((n + 87) as u32) as char
    }
}

/// Two lowercase hexadecimal digits of a byte.
pub open spec fn hex_byte(b: u8) -> Seq<char> {
    seq![hex_char((b / 16) as nat), hex_char((b % 16) as nat)]
}

/// The value of a hexadecimal digit, in either case.
pub open spec fn hex_value(c: char) -> Option<nat> {
    if '0' <= c <= '9' {
        Some((c as nat - 48) as nat)
    } else if 'a' <= c <= 'f' {
        Some((c as nat - 87) as nat)
    } else if 'A' <= c <= 'F' {
        Some((c as nat - 55) as nat)
    } else {
        None
    }
}

/// All characters are hexadecimal digits.
pub open spec fn all_hex(s: Seq<char>) -> bool {
    forall|i: int| 0 <= i < s.len() ==> (#[trigger] hex_value(s[i])) is Some
}

/// The number that the hexadecimal digits `s` stand for.
pub open spec fn hex_number(s: Seq<char>) -> nat
    decreases s.len(),
{
    if s.len() == 0 {
        0
    } else {
        hex_number(s.drop_last()) * 16 + hex_value(s.last())->0
    }
}

/// What `u64::from_str_radix(s, 16)` gives for a string of at most 16
/// characters: an optional `+`, then at least one hexadecimal digit.
pub open spec fn parse_hex(s: Seq<char>) -> Option<nat> {
    let digits = if s.len() > 0 && s[0] == '+' {
        s.drop_first()
    } else {
        s
    };
    if digits.len() > 0 && all_hex(digits) {
        Some(hex_number(digits))
    } else {
        None
    }
}

/// The digits of `from_hex_string`: the whole string when it has six
/// characters, the last six when it has seven.
pub open spec fn hex_digits_of(s: Seq<char>) -> Seq<char> {
    if s.len() == 7 {
        s.drop_first()
    } else {
        s
    }
}

impl Color {
    /// The color of a `0xRRGGBB` number (higher bits are ignored).
    pub open spec fn spec_from_u64(v: u64) -> Color {
        Color { r: ((v / 65536) % 256) as u8, g: ((v / 256) % 256) as u8, b: (v % 256) as u8 }
    }

    pub fn from_u64(v: u64) -> (c: Color)
        ensures
            c == Color::spec_from_u64(v),
    {
        let r = ((v >> 16) & 255) as u8;
        let g = ((v >> 8) & 255) as u8;
        let b = (v & 255) as u8;
        assert(((v >> 16) & 255) == (v / 65536) % 256) by (bit_vector);
        assert(((v >> 8) & 255) == (v / 256) % 256) by (bit_vector);
        assert((v & 255) == v % 256) by (bit_vector);
        Color { r, g, b }
    }

    /// The color as six lowercase hexadecimal digits, `rrggbb`.
    pub fn to_hex(&self) -> (s: String)
        ensures
            s@ == hex_byte(self.r) + hex_byte(self.g) + hex_byte(self.b),
    {
        let mut s = String::new();
        push_hex_byte(&mut s, self.r);
        push_hex_byte(&mut s, self.g);
        push_hex_byte(&mut s, self.b);
        assert(s@ =~= hex_byte(self.r) + hex_byte(self.g) + hex_byte(self.b));
        s
    }

    /// Parses `rrggbb` or, skipping its first character, `#rrggbb`.
    pub fn from_hex_string(hex: String) -> (res: Result<Color, String>)
        ensures
            hex@.len() != 6 && hex@.len() != 7 ==> (res matches Err(e) && e@
                == "hex string has invalid length"@),
            (hex@.len() == 6 || hex@.len() == 7) ==> match parse_hex(hex_digits_of(hex@)) {
                Some(v) => res == Ok::<Color, String>(Color::spec_from_u64(v as u64)),
                None => res matches Err(e) && e@ == "Failed to parse hex string '"@
                    + hex_digits_of(hex@) + "': Some(ParseIntError { kind: InvalidDigit })"@,
            },
    {
        let l = crate::text::char_count(hex.as_str());
        let digits = if l == 7 {
            to_string(hex.as_str().substring_char(1, 7))
        } else if l != 6 {
            return Err(String::from_str("hex string has invalid length"));
        } else {
            hex
        };
        assert(digits@ == hex_digits_of(hex@)) by {
            if l == 7 {
                assert(hex@.subrange(1, 7) =~= hex@.drop_first());
            }
        }
        match parse_hex_str(digits.as_str()) {
            Some(v) => Ok(Color::from_u64(v)),
            None => {
                let mut msg = String::from_str("Failed to parse hex string '");
                msg.append(digits.as_str());
                msg.append("': Some(ParseIntError { kind: InvalidDigit })");
                Err(msg)
            },
        }
    }
}

fn hex_digit_char(n: u8) -> (c: char)
    requires
        n < 16,
    ensures
        c == hex_char(n as nat),
{
    if n < 10 {
        (n + 48) as char
    } else {
        (n + 87) as char
    }
}

fn push_hex_byte(s: &mut String, b: u8)
    ensures
        final(s)@ == old(s)@ + hex_byte(b),
{
    push_char(s, hex_digit_char(b / 16));
    push_char(s, hex_digit_char(b % 16));
    assert(final(s)@ =~= old(s)@ + hex_byte(b));
}

fn hex_digit_value(c: char) -> (r: Option<u64>)
    ensures
        r matches Some(v) ==> hex_value(c) == Some(v as nat),
        r is None ==> hex_value(c) is None,
{
    if '0' <= c && c <= '9' {
        Some((c as u32 - 48) as u64)
    } else if 'a' <= c && c <= 'f' {
        Some((c as u32 - 87) as u64)
    } else if 'A' <= c && c <= 'F' {
        Some((c as u32 - 55) as u64)
    } else {
        None
    }
}

proof fn lemma_hex_number_bound(s: Seq<char>)
    requires
        all_hex(s),
    ensures
        hex_number(s) < pow16(s.len()),
    decreases s.len(),
{
    if s.len() > 0 {
        let p = s.drop_last();
        assert forall|i: int| 0 <= i < p.len() implies (#[trigger] hex_value(p[i])) is Some by {
            assert(p[i] == s[i]);
        }
        lemma_hex_number_bound(p);
        assert(hex_value(s[s.len() - 1]) is Some);
        let d = hex_value(s.last())->0;
        assert(d < 16);
        let h = hex_number(p);
        let q = pow16(p.len());
        assert(h * 16 + d < q * 16) by (nonlinear_arith)
            requires
                h < q,
                d < 16,
        ;
    }
}

/// `16` to the power `n`.
pub open spec fn pow16(n: nat) -> nat
    decreases n,
{
    if n == 0 {
        1
    } else {
        pow16((n - 1) as nat) * 16
    }
}

/// `u64::from_str_radix(s, 16)` for a string of at most six characters.
fn parse_hex_str(s: &str) -> (r: Option<u64>)
    requires
        s@.len() <= 6,
    ensures
        r matches Some(v) ==> parse_hex(s@) == Some(v as nat),
        r is None ==> parse_hex(s@) is None,
{
    let n = crate::text::char_count(s);
    if n == 0 {
        return None;
    }
    let first: usize = if s.get_char(0) == '+' {
        1
    } else {
        0
    };
    let ghost digits = s@.skip(first as int);
    assert(digits =~= if s@.len() > 0 && s@[0] == '+' {
        s@.drop_first()
    } else {
        s@
    });
    if first == n {
        return None;
    }
    let mut v: u64 = 0;
    let mut i: usize = first;
    assert(pow16(0) == 1);
    proof {
        lemma_pow16_mono(0, 6);
    }
    while i < n
        invariant
            n == s@.len(),
            n <= 6,
            first <= i <= n,
            digits == s@.skip(first as int),
            digits == (if s@.len() > 0 && s@[0] == '+' {
                s@.drop_first()
            } else {
                s@
            }),
            all_hex(s@.subrange(first as int, i as int)),
            v == hex_number(s@.subrange(first as int, i as int)),
            v < pow16((i - first) as nat),
            pow16((i - first) as nat) <= pow16(6),
        decreases n - i,
    {
        let c = s.get_char(i);
        match hex_digit_value(c) {
            None => {
                assert(digits[i - first] == c);
                assert(hex_value(digits[i - first]) is None);
                return None;
            },
            Some(d) => {
                let ghost old_sub = s@.subrange(first as int, i as int);
                let ghost sub = s@.subrange(first as int, i + 1);
                assert(sub.drop_last() =~= old_sub);
                assert(sub.last() == c);
                assert(pow16(6) == 16777216) by {
                    reveal_with_fuel(pow16, 7);
                }
                assert forall|k: int| 0 <= k < sub.len() implies (#[trigger] hex_value(
                    sub[k],
                )) is Some by {
                    if k < old_sub.len() {
                        assert(sub[k] == old_sub[k]);
                    }
                }
                proof {
                    lemma_pow16_mono((i + 1 - first) as nat, 6);
                }
                let ghost q = pow16((i - first) as nat);
                assert(v * 16 + d < q * 16) by (nonlinear_arith)
                    requires
                        v < q,
                        d < 16,
                ;
                v = v * 16 + d;
                i = i + 1;
            },
        }
    }
    assert(s@.subrange(first as int, n as int) =~= digits);
    Some(v)
}

proof fn lemma_pow16_mono(a: nat, b: nat)
    requires
        a <= b,
    ensures
        pow16(a) <= pow16(b),
    decreases b,
{
    if a < b {
        lemma_pow16_mono(a, (b - 1) as nat);
    }
}

/// A highlight definition. `blend` is the number Neovim sent (a
/// percentage, 0 when the definition has none).
#[derive(Clone, Copy, PartialEq, Eq, Structural, Debug)]
pub struct Highlight {
    pub foreground: Option<Color>,
    pub background: Option<Color>,
    pub special: Option<Color>,
    pub reverse: bool,
    pub italic: bool,
    pub bold: bool,
    pub underline: bool,
    pub undercurl: bool,
    pub blend: Number,
}

impl Highlight {
    /// The highlight with no colors, no attributes and no blend.
    pub open spec fn spec_default() -> Highlight {
        Highlight {
            foreground: None,
            background: None,
            special: None,
            reverse: false,
            italic: false,
            bold: false,
            underline: false,
            undercurl: false,
            blend: Number::Integer(0),
        }
    }
}

impl Default for Highlight {
    fn default() -> (h: Highlight)
        ensures
            h == Highlight::spec_default(),
    {
        Highlight {
            foreground: None,
            background: None,
            special: None,
            reverse: false,
            italic: false,
            bold: false,
            underline: false,
            undercurl: false,
            blend: Number::Integer(0),
        }
    }
}

/// The highlight groups that the widgets take their colors from.
#[derive(Clone, Copy, PartialEq, Eq, Structural, Debug, Hash)]
pub enum HlGroup {
    Pmenu,
    PmenuSel,
    Tabline,
    TablineSel,
    TablineFill,
    Cmdline,
    CmdlineBorder,
    Wildmenu,
    WildmenuSel,
    MsgSeparator,
}

impl HlGroup {
    /// The key of the group in the table of groups.
    pub open spec fn spec_key(self) -> u64 {
        match self {
            HlGroup::Pmenu => 0,
            HlGroup::PmenuSel => 1,
            HlGroup::Tabline => 2,
            HlGroup::TablineSel => 3,
            HlGroup::TablineFill => 4,
            HlGroup::Cmdline => 5,
            HlGroup::CmdlineBorder => 6,
            HlGroup::Wildmenu => 7,
            HlGroup::WildmenuSel => 8,
            HlGroup::MsgSeparator => 9,
        }
    }

    pub fn key(&self) -> (k: u64)
        ensures
            k == self.spec_key(),
    {
        match self {
            HlGroup::Pmenu => 0,
            HlGroup::PmenuSel => 1,
            HlGroup::Tabline => 2,
            HlGroup::TablineSel => 3,
            HlGroup::TablineFill => 4,
            HlGroup::Cmdline => 5,
            HlGroup::CmdlineBorder => 6,
            HlGroup::Wildmenu => 7,
            HlGroup::WildmenuSel => 8,
            HlGroup::MsgSeparator => 9,
        }
    }
}

/// The group keys are distinct.
pub proof fn lemma_group_key_injective(a: HlGroup, b: HlGroup)
    ensures
        a.spec_key() == b.spec_key() ==> a == b,
{
}

/// Highlight definitions by id, the highlight id of each group, and the
/// default colors.
pub struct HlDefs {
    pub hl_defs: HashMap<u64, Highlight>,
    pub hl_groups: HashMap<u64, u64>,
    pub default_fg: Color,
    pub default_bg: Color,
    pub default_sp: Color,
}

impl Default for HlDefs {
    fn default() -> (d: HlDefs)
        ensures
            d.hl_defs@ == Map::<u64, Highlight>::empty(),
            d.hl_groups@ == Map::<u64, u64>::empty(),
            d.default_fg == (Color { r: 0, g: 0, b: 0 }),
            d.default_bg == (Color { r: 0, g: 0, b: 0 }),
            d.default_sp == (Color { r: 0, g: 0, b: 0 }),
    {
        HlDefs {
            hl_defs: HashMap::new(),
            hl_groups: HashMap::new(),
            default_fg: Color::default(),
            default_bg: Color::default(),
            default_sp: Color::default(),
        }
    }
}

impl HlDefs {
    /// The highlight defined with `id`.
    pub fn get(&self, id: &u64) -> (r: Option<&Highlight>)
        ensures
            r matches Some(h) ==> self.hl_defs@.contains_key(*id) && self.hl_defs@[*id] == *h,
            r is None ==> !self.hl_defs@.contains_key(*id),
    {
        self.hl_defs.get(id)
    }

    /// Defines (or redefines) the highlight `id`; returns the definition
    /// it replaces.
    pub fn insert(&mut self, id: u64, hl: Highlight) -> (r: Option<Highlight>)
        ensures
            final(self).hl_defs@ == old(self).hl_defs@.insert(id, hl),
            final(self).hl_groups@ == old(self).hl_groups@,
            final(self).default_fg == old(self).default_fg,
            final(self).default_bg == old(self).default_bg,
            final(self).default_sp == old(self).default_sp,
            r matches Some(h) ==> old(self).hl_defs@.contains_key(id) && old(self).hl_defs@[id]
                == h,
            r is None ==> !old(self).hl_defs@.contains_key(id),
    {
        self.hl_defs.insert(id, hl)
    }

    /// Sets the highlight id of `group`; returns the id it had.
    pub fn set_hl_group(&mut self, group: HlGroup, id: u64) -> (r: Option<u64>)
        ensures
            final(self).hl_groups@ == old(self).hl_groups@.insert(group.spec_key(), id),
            final(self).hl_defs@ == old(self).hl_defs@,
            final(self).default_fg == old(self).default_fg,
            final(self).default_bg == old(self).default_bg,
            final(self).default_sp == old(self).default_sp,
            r matches Some(p) ==> old(self).hl_groups@.contains_key(group.spec_key())
                && old(self).hl_groups@[group.spec_key()] == p,
            r is None ==> !old(self).hl_groups@.contains_key(group.spec_key()),
    {
        let k = group.key();
        self.hl_groups.insert(k, id)
    }

    /// The highlight of `group`, when the group has an id and that id is
    /// defined.
    pub open spec fn group_highlight(&self, group: HlGroup) -> Option<Highlight> {
        let k = group.spec_key();
        if self.hl_groups@.contains_key(k) && self.hl_defs@.contains_key(self.hl_groups@[k]) {
            Some(self.hl_defs@[self.hl_groups@[k]])
        } else {
            None
        }
    }

    /// The highlight of `group`, when the group has an id and that id is
    /// defined.
    pub fn get_hl_group(&self, group: &HlGroup) -> (r: Option<&Highlight>)
        ensures
            r matches Some(h) ==> self.group_highlight(*group) == Some(*h),
            r is None ==> self.group_highlight(*group) is None,
            r matches Some(h) ==> self.hl_groups@.contains_key(group.spec_key())
                && self.hl_defs@.contains_key(self.hl_groups@[group.spec_key()])
                && self.hl_defs@[self.hl_groups@[group.spec_key()]] == *h,
            r is None ==> !self.hl_groups@.contains_key(group.spec_key()) || !self.hl_defs@.contains_key(
                self.hl_groups@[group.spec_key()],
            ),
    {
        let k = group.key();
        if let Some(id) = self.hl_groups.get(&k) {
            return self.hl_defs.get(id);
        }
        None
    }
}

/// The Pango markup that draws the (already escaped) markup text `text`
/// with the colors `fg`, `bg` and `sp` and the given weight, style and
/// underline.
pub open spec fn markup_seq(
    text: Seq<char>,
    fg: Color,
    bg: Color,
    sp: Color,
    weight: Seq<char>,
    font_style: Seq<char>,
    underline: Seq<char>,
) -> Seq<char> {
    "<span\n            foreground=\"#"@ + color_hex(fg) + "\"\n            background=\"#"@
        + color_hex(bg) + "\"\n            underline_color=\"#"@ + color_hex(sp)
        + "\"\n            weight=\""@ + weight + "\"\n            font_style=\""@ + font_style
        + "\"\n            underline=\""@ + underline + "\">"@ + text + "</span>"@
}

/// The six hexadecimal digits of a color.
pub open spec fn color_hex(c: Color) -> Seq<char> {
    hex_byte(c.r) + hex_byte(c.g) + hex_byte(c.b)
}

impl Highlight {
    /// The Pango weight: `bold` or `normal`.
    pub open spec fn weight(self) -> Seq<char> {
        if self.bold {
            "bold"@
        } else {
            "normal"@
        }
    }

    /// The Pango underline: `error` (a curly line) for undercurl, then
    /// `underline`, else `none`.
    pub open spec fn underline_style(self) -> Seq<char> {
        if self.undercurl {
            "error"@
        } else if self.underline {
            "underline"@
        } else {
            "none"@
        }
    }

    /// The Pango font style: `italic` or `normal`.
    pub open spec fn font_style(self) -> Seq<char> {
        if self.italic {
            "italic"@
        } else {
            "normal"@
        }
    }

    /// `text`, which must already be escaped for Pango markup, in a span
    /// with the attributes of this highlight; a color it lacks is taken
    /// from the defaults.
    pub fn pango_markup(&self, text: &str, default_fg: &Color, default_bg: &Color, default_sp: &Color) -> (m: String)
        ensures
            m@ == markup_seq(
                text@,
                match self.foreground {
                    Some(c) => c,
                    None => *default_fg,
                },
                match self.background {
                    Some(c) => c,
                    None => *default_bg,
                },
                match self.special {
                    Some(c) => c,
                    None => *default_sp,
                },
                self.weight(),
                self.font_style(),
                self.underline_style(),
            ),
    {
        let fg = match self.foreground {
            Some(c) => c,
            None => *default_fg,
        };
        let bg = match self.background {
            Some(c) => c,
            None => *default_bg,
        };
        let sp = match self.special {
            Some(c) => c,
            None => *default_sp,
        };
        let weight = if self.bold {
            "bold"
        } else {
            "normal"
        };
        let underline = if self.undercurl {
            "error"
        } else if self.underline {
            "underline"
        } else {
            "none"
        };
        let font_style = if self.italic {
            "italic"
        } else {
            "normal"
        };
        let mut m = String::new();
        m.append("<span\n            foreground=\"#");
        m.append(fg.to_hex().as_str());
        m.append("\"\n            background=\"#");
        m.append(bg.to_hex().as_str());
        m.append("\"\n            underline_color=\"#");
        m.append(sp.to_hex().as_str());
        m.append("\"\n            weight=\"");
        m.append(weight);
        m.append("\"\n            font_style=\"");
        m.append(font_style);
        m.append("\"\n            underline=\"");
        m.append(underline);
        m.append("\">");
        m.append(text);
        m.append("</span>");
        m
    }
}

/// The groups that the Neovim highlight group `name` colors.
pub open spec fn named_groups(name: Seq<char>) -> Seq<HlGroup> {
    if name == "Pmenu"@ {
        seq![HlGroup::Pmenu, HlGroup::Wildmenu]
    } else if name == "PmenuSel"@ {
        seq![HlGroup::PmenuSel, HlGroup::WildmenuSel]
    } else if name == "TabLine"@ {
        seq![HlGroup::Tabline]
    } else if name == "TabLineSel"@ {
        seq![HlGroup::TablineSel, HlGroup::CmdlineBorder]
    } else if name == "TabLineFill"@ {
        seq![HlGroup::TablineFill]
    } else if name == "Normal"@ {
        seq![HlGroup::Cmdline]
    } else {
        seq![]
    }
}

/// `m` with each of `gs` set to `id`.
pub open spec fn set_groups(m: Map<u64, u64>, gs: Seq<HlGroup>, id: u64) -> Map<u64, u64>
    decreases gs.len(),
{
    if gs.len() == 0 {
        m
    } else {
        set_groups(m, gs.drop_last(), id).insert(gs.last().spec_key(), id)
    }
}

impl HlDefs {
    /// Handles Neovim's `hl_group_set`: the highlight group `name` is now
    /// drawn with the highlight `hl_id`. The groups of the widgets that
    /// follow it are set; other names change nothing.
    pub fn hl_group_set(&mut self, name: &str, hl_id: u64)
        ensures
            final(self).hl_groups@ == set_groups(old(self).hl_groups@, named_groups(name@), hl_id),
            final(self).hl_defs@ == old(self).hl_defs@,
            final(self).default_fg == old(self).default_fg,
            final(self).default_bg == old(self).default_bg,
            final(self).default_sp == old(self).default_sp,
    {
        proof {
            reveal_with_fuel(set_groups, 3);
        }
        if crate::text::str_eq(name, "Pmenu") {
            self.set_hl_group(HlGroup::Pmenu, hl_id);
            self.set_hl_group(HlGroup::Wildmenu, hl_id);
        } else if crate::text::str_eq(name, "PmenuSel") {
            self.set_hl_group(HlGroup::PmenuSel, hl_id);
            self.set_hl_group(HlGroup::WildmenuSel, hl_id);
        } else if crate::text::str_eq(name, "TabLine") {
            self.set_hl_group(HlGroup::Tabline, hl_id);
        } else if crate::text::str_eq(name, "TabLineSel") {
            self.set_hl_group(HlGroup::TablineSel, hl_id);
            self.set_hl_group(HlGroup::CmdlineBorder, hl_id);
        } else if crate::text::str_eq(name, "TabLineFill") {
            self.set_hl_group(HlGroup::TablineFill, hl_id);
        } else if crate::text::str_eq(name, "Normal") {
            self.set_hl_group(HlGroup::Cmdline, hl_id);
        }
    }

    /// Handles Neovim's `default_colors_set`: the default colors become
    /// `fg`, `bg` and `sp`, and so do the colors of the highlight 0, which
    /// must be defined.
    pub fn default_colors_set(&mut self, fg: Color, bg: Color, sp: Color)
        requires
            old(self).hl_defs@.contains_key(0),
        ensures
            final(self).default_fg == fg,
            final(self).default_bg == bg,
            final(self).default_sp == sp,
            final(self).hl_defs@ == old(self).hl_defs@.insert(
                0,
                Highlight {
                    foreground: Some(fg),
                    background: Some(bg),
                    special: Some(sp),
                    ..old(self).hl_defs@[0]
                },
            ),
            final(self).hl_groups@ == old(self).hl_groups@,
    {
        self.default_fg = fg;
        self.default_bg = bg;
        self.default_sp = sp;
        let mut hl = *self.get(&0).unwrap();
        hl.foreground = Some(fg);
        hl.background = Some(bg);
        hl.special = Some(sp);
        self.insert(0, hl);
    }
}

impl Highlight {
    /// The foreground, background and special colors that a cell with this
    /// highlight is drawn with: missing colors are the defaults, and a
    /// reversed highlight swaps foreground and background.
    pub open spec fn spec_cell_colors(self, fg: Color, bg: Color, sp: Color) -> (Color, Color, Color) {
        let f = match self.foreground {
            Some(c) => c,
            None => fg,
        };
        let b = match self.background {
            Some(c) => c,
            None => bg,
        };
        let s = match self.special {
            Some(c) => c,
            None => sp,
        };
        if self.reverse {
            (b, f, s)
        } else {
            (f, b, s)
        }
    }

    pub fn cell_colors(&self, default_fg: &Color, default_bg: &Color, default_sp: &Color) -> (r: (
        Color,
        Color,
        Color,
    ))
        ensures
            r == self.spec_cell_colors(*default_fg, *default_bg, *default_sp),
    {
        let f = match self.foreground {
            Some(c) => c,
            None => *default_fg,
        };
        let b = match self.background {
            Some(c) => c,
            None => *default_bg,
        };
        let s = match self.special {
            Some(c) => c,
            None => *default_sp,
        };
        if self.reverse {
            (b, f, s)
        } else {
            (f, b, s)
        }
    }
}

} // verus!
