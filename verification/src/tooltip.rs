//! Sanitizing of the inline styles in the HTML of the cursor tooltip.

use vstd::prelude::*;
use vstd::string::*;

use crate::color::{color_hex, hex_digits_of, parse_hex, Color};
use crate::text::{split_char, split_seq, str_eq, strings_view, to_string};

verus! {

/// The one value allowed for a CSS property that is not a color.
pub open spec fn fixed_value(prop: Seq<char>) -> Option<Seq<char>> {
    if prop == "text-decorator"@ {
        Some("underline"@)
    } else if prop == "font-weight"@ {
        Some("bold"@)
    } else if prop == "font-style"@ {
        Some("italic"@)
    } else {
        None
    }
}

/// The CSS properties that take a color.
pub open spec fn is_color_prop(prop: Seq<char>) -> bool {
    prop == "color"@ || prop == "background-color"@
}

/// The color that `Color::from_hex_string` reads from `s`.
pub open spec fn hex_color(s: Seq<char>) -> Option<Color> {
    if s.len() == 6 || s.len() == 7 {
        match parse_hex(hex_digits_of(s)) {
            Some(v) => Some(Color::spec_from_u64(v as u64)),
            None => None,
        }
    } else {
        None
    }
}

/// What is kept of one declaration `prop:value` of a style: an allowed
/// fixed value as it is, a valid color written again as `#rrggbb`,
/// nothing else.
pub open spec fn kept_decl(decl: Seq<char>) -> Seq<char> {
    let kv = split_seq(decl, ':');
    if kv.len() != 2 {
        Seq::empty()
    } else {
        let prop = kv[0];
        let val = kv[1];
        match fixed_value(prop) {
            Some(v) => if val == v {
                prop + ":"@ + val + ";"@
            } else {
                Seq::empty()
            },
            None => if is_color_prop(prop) {
                match hex_color(val) {
                    Some(c) => prop + ":#"@ + color_hex(c) + ";"@,
                    None => Seq::empty(),
                }
            } else {
                Seq::empty()
            },
        }
    }
}

/// What is kept of the declarations `decls`, in order.
pub open spec fn kept_style(decls: Seq<Seq<char>>) -> Seq<char>
    decreases decls.len(),
{
    if decls.len() == 0 {
        Seq::empty()
    } else {
        kept_style(decls.drop_last()) + kept_decl(decls.last())
    }
}

fn keep_decl(decl: &str) -> (r: String)
    ensures
        r@ == kept_decl(decl@),
{
    let kv = split_char(decl, ':');
    if kv.len() != 2 {
        return String::new();
    }
    assert(strings_view(kv@)[0] == kv@[0]@);
    assert(strings_view(kv@)[1] == kv@[1]@);
    let prop = kv[0].as_str();
    let val = kv[1].as_str();
    let fixed: Option<&str> = if str_eq(prop, "text-decorator") {
        Some("underline")
    } else if str_eq(prop, "font-weight") {
        Some("bold")
    } else if str_eq(prop, "font-style") {
        Some("italic")
    } else {
        None
    };
    let mut r = String::new();
    match fixed {
        Some(v) => {
            if str_eq(val, v) {
                r.append(prop);
                r.append(":");
                r.append(val);
                r.append(";");
            }
        },
        None => {
            if str_eq(prop, "color") || str_eq(prop, "background-color") {
                match Color::from_hex_string(to_string(val)) {
                    Ok(color) => {
                        r.append(prop);
                        r.append(":#");
                        r.append(color.to_hex().as_str());
                        r.append(";");
                    },
                    Err(_) => {},
                }
            }
        },
    }
    r
}

/// Filters the attributes of the tooltip HTML: only the `style` of a
/// `span` is kept, and of it only underlines, bold, italics and valid
/// colors.
pub fn attribute_filter(element: &str, attribute: &str, value: &str) -> (r: Option<String>)
    ensures
        element@ == "span"@ && attribute@ == "style"@ ==> (r matches Some(s) && s@ == kept_style(
            split_seq(value@, ';'),
        )),
        !(element@ == "span"@ && attribute@ == "style"@) ==> r is None,
{
    if !(str_eq(element, "span") && str_eq(attribute, "style")) {
        return None;
    }
    let decls = split_char(value, ';');
    let ghost ds = strings_view(decls@);
    let mut kept = String::new();
    let mut i: usize = 0;
    assert(ds.take(0) =~= Seq::<Seq<char>>::empty());
    while i < decls.len()
        invariant
            ds == strings_view(decls@),
            0 <= i <= decls@.len(),
            kept@ == kept_style(ds.take(i as int)),
        decreases decls@.len() - i,
    {
        assert(ds[i as int] == decls@[i as int]@);
        assert(ds.take(i + 1).drop_last() =~= ds.take(i as int));
        let piece = keep_decl(decls[i].as_str());
        kept.append(piece.as_str());
        i = i + 1;
    }
    assert(ds.take(ds.len() as int) =~= ds);
    Some(kept)
}

} // verus!
