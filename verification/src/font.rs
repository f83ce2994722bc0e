//! Fonts as set by Neovim's `guifont` option.

use vstd::prelude::*;
use vstd::string::*;

use crate::text::{decimal, decimal_string, parse_unsigned, parse_usize_after, split_char, split_seq, strings_view, to_string};

verus! {

/// The font height used when `guifont` gives none.
pub const DEFAULT_HEIGHT: usize = 14;

/// The unit of a CSS font size.
#[derive(Clone, Copy, PartialEq, Eq, Structural, Debug)]
pub enum FontUnit {
    Pixel,
    Point,
}

impl FontUnit {
    /// The CSS suffix of the unit.
    pub open spec fn spec_suffix(self) -> Seq<char> {
        match self {
            FontUnit::Pixel => "px"@,
            FontUnit::Point => "pt"@,
        }
    }

    /// The CSS suffix of the unit: `px` or `pt`.
    pub fn suffix(&self) -> (s: &'static str)
        ensures
            s@ == self.spec_suffix(),
    {
        match self {
            FontUnit::Pixel => "px",
            FontUnit::Point => "pt",
        }
    }
}

/// A font family and a height.
#[derive(Clone, PartialEq, Debug)]
pub struct Font {
    pub name: String,
    pub height: usize,
}

/// The height that the options `opts` of a `guifont` value give, starting
/// from the default: an option `h<n>` sets it to `n` (`h0` is ignored),
/// other options are ignored, and an `h` option whose rest is not a
/// `usize` makes the value invalid.
pub open spec fn opts_height(opts: Seq<Seq<char>>) -> Option<nat>
    decreases opts.len(),
{
    if opts.len() == 0 {
        Some(DEFAULT_HEIGHT as nat)
    } else {
        match opts_height(opts.drop_last()) {
            None => None,
            Some(h) => {
                let p = opts.last();
                if p.len() > 0 && p[0] == 'h' {
                    match parse_unsigned(p.drop_first(), usize::MAX as nat) {
                        None => None,
                        Some(n) => if n == 0 {
                            Some(h)
                        } else {
                            Some(n)
                        },
                    }
                } else {
                    Some(h)
                }
            },
        }
    }
}

proof fn lemma_opts_prefix(opts: Seq<Seq<char>>, i: int)
    requires
        0 <= i <= opts.len(),
        opts_height(opts) is Some,
    ensures
        opts_height(opts.take(i)) is Some,
    decreases opts.len(),
{
    if i < opts.len() {
        assert(opts.drop_last().take(i) =~= opts.take(i));
        lemma_opts_prefix(opts.drop_last(), i);
    } else {
        assert(opts.take(i) =~= opts);
    }
}

/// The CSS rule that sets font family `name` and size `height` with unit
/// suffix `unit` for every element.
pub open spec fn wild_css(name: Seq<char>, height: nat, unit: Seq<char>) -> Seq<char> {
    "* { font-family: \""@ + name + "\"; font-size: "@ + decimal(height) + unit + "; }"@
}

impl Font {
    /// Parses Neovim's `guifont` option: a font name, then options after
    /// colons. The height option `h<n>` sets the height; without one the
    /// height is [`DEFAULT_HEIGHT`]. Fails when an `h` option is not
    /// followed by a valid `usize`.
    pub fn from_guifont(guifont: &str) -> (r: Result<Font, ()>)
        ensures
            match r {
                Ok(f) => f.name@ == split_seq(guifont@, ':')[0] && opts_height(
                    split_seq(guifont@, ':').drop_first(),
                ) == Some(f.height as nat),
                Err(_) => opts_height(split_seq(guifont@, ':').drop_first()) is None,
            },
    {
        let parts = split_char(guifont, ':');
        let ghost ps = split_seq(guifont@, ':');
        proof {
            crate::text::lemma_split_len(guifont@, ':');
        }
        assert(strings_view(parts@)[0] == parts@[0]@);
        let name = parts[0].clone();
        let ghost opts = ps.drop_first();
        let mut height: usize = DEFAULT_HEIGHT;
        let mut i: usize = 1;
        assert(opts.take(0) =~= Seq::<Seq<char>>::empty());
        while i < parts.len()
            invariant
                ps == split_seq(guifont@, ':'),
                strings_view(parts@) == ps,
                opts == ps.drop_first(),
                1 <= i <= parts@.len(),
                opts_height(opts.take(i - 1)) == Some(height as nat),
            decreases parts@.len() - i,
        {
            let part = parts[i].as_str();
            proof {
                assert(opts.take(i as int).drop_last() =~= opts.take(i - 1));
                assert(opts.take(i as int).last() == part@);
            }
            let n = part.unicode_len();
            if n > 0 && part.get_char(0) == 'h' {
                assert(part@.skip(1) =~= part@.drop_first());
                match parse_usize_after(part, 1) {
                    None => {
                        proof {
                            assert(opts_height(opts.take(i as int)) is None);
                            if opts_height(opts) is Some {
                                lemma_opts_prefix(opts, i as int);
                            }
                        }
                        return Err(());
                    },
                    Some(h) => {
                        if h != 0 {
                            height = h;
                        }
                    },
                }
            }
            i = i + 1;
        }
        assert(opts.take(opts.len() as int) =~= opts);
        Ok(Font { name: to_string(name.as_str()), height })
    }

    /// The font as a CSS rule for every element (`*`). Below GTK 3.20 the
    /// unit must be pixels, from 3.20 on points.
    pub fn as_wild_css(&self, unit: FontUnit) -> (css: String)
        ensures
            css@ == wild_css(self.name@, self.height as nat, unit.spec_suffix()),
    {
        let mut css = String::new();
        css.append("* { font-family: \"");
        css.append(self.name.as_str());
        css.append("\"; font-size: ");
        css.append(decimal_string(self.height as u64).as_str());
        css.append(unit.suffix());
        css.append("; }");
        css
    }
}

impl Default for Font {
    fn default() -> (f: Font)
        ensures
            f.name@ == "Monospace"@,
            f.height == DEFAULT_HEIGHT,
    {
        Font { name: to_string("Monospace"), height: DEFAULT_HEIGHT }
    }
}

/// `a` and `b` are the same font.
pub open spec fn same_font(a: Font, b: Font) -> bool {
    a.name@ == b.name@ && a.height == b.height
}

/// A copy of the font.
pub fn copy_font(f: &Font) -> (r: Font)
    ensures
        same_font(r, *f),
{
    Font { name: to_string(f.name.as_str()), height: f.height }
}

} // verus!
