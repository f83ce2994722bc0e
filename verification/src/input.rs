//! The input strings that keyboard and mouse events are sent to Neovim
//! as.

use vstd::prelude::*;
use vstd::string::*;

use crate::text::{decimal, decimal_string, push_char, str_eq, to_string};

verus! {

/// The Neovim name of the key that GDK names `s`, for keys whose GDK name
/// is more than one character.
pub open spec fn nvim_key(s: Seq<char>) -> Option<Seq<char>> {
    if s == "slash"@ {
        Some("/"@)
    } else if s == "backslash"@ {
        Some("\\"@)
    } else if s == "dead_circumflex"@ {
        Some("^"@)
    } else if s == "at"@ {
        Some("@"@)
    } else if s == "numbersign"@ {
        Some("#"@)
    } else if s == "dollar"@ {
        Some("$"@)
    } else if s == "percent"@ {
        Some("%"@)
    } else if s == "ampersand"@ {
        Some("&"@)
    } else if s == "asterisk"@ {
        Some("*"@)
    } else if s == "parenleft"@ {
        Some("("@)
    } else if s == "parenright"@ {
        Some(")"@)
    } else if s == "underscore"@ {
        Some("_"@)
    } else if s == "plus"@ {
        Some("+"@)
    } else if s == "minus"@ {
        Some("-"@)
    } else if s == "bracketleft"@ {
        Some("["@)
    } else if s == "bracketright"@ {
        Some("]"@)
    } else if s == "braceleft"@ {
        Some("{"@)
    } else if s == "braceright"@ {
        Some("}"@)
    } else if s == "dead_diaeresis"@ {
        Some("\""@)
    } else if s == "dead_acute"@ {
        Some("\'"@)
    } else if s == "less"@ {
        Some("<"@)
    } else if s == "greater"@ {
        Some(">"@)
    } else if s == "comma"@ {
        Some(","@)
    } else if s == "period"@ {
        Some("."@)
    } else if s == "BackSpace"@ {
        Some("BS"@)
    } else if s == "Return"@ {
        Some("CR"@)
    } else if s == "Escape"@ {
        Some("Esc"@)
    } else if s == "Delete"@ {
        Some("Del"@)
    } else if s == "Page_Up"@ {
        Some("PageUp"@)
    } else if s == "Page_Down"@ {
        Some("PageDown"@)
    } else if s == "Enter"@ {
        Some("CR"@)
    } else if s == "ISO_Left_Tab"@ {
        Some("Tab"@)
    } else if s == "Tab"@ {
        Some("Tab"@)
    } else if s == "Up"@ {
        Some("Up"@)
    } else if s == "Down"@ {
        Some("Down"@)
    } else if s == "Left"@ {
        Some("Left"@)
    } else if s == "Right"@ {
        Some("Right"@)
    } else if s == "Home"@ {
        Some("Home"@)
    } else if s == "End"@ {
        Some("End"@)
    } else {
        None
    }
}

/// The Neovim name of the key that GDK names `s`.
pub fn keyname_to_nvim_key(s: &str) -> (r: Option<&'static str>)
    ensures
        r is Some <==> nvim_key(s@) is Some,
        r matches Some(k) ==> k@ == nvim_key(s@)->0,
{
    if str_eq(s, "slash") {
        Some("/")
    } else if str_eq(s, "backslash") {
        Some("\\")
    } else if str_eq(s, "dead_circumflex") {
        Some("^")
    } else if str_eq(s, "at") {
        Some("@")
    } else if str_eq(s, "numbersign") {
        Some("#")
    } else if str_eq(s, "dollar") {
        Some("$")
    } else if str_eq(s, "percent") {
        Some("%")
    } else if str_eq(s, "ampersand") {
        Some("&")
    } else if str_eq(s, "asterisk") {
        Some("*")
    } else if str_eq(s, "parenleft") {
        Some("(")
    } else if str_eq(s, "parenright") {
        Some(")")
    } else if str_eq(s, "underscore") {
        Some("_")
    } else if str_eq(s, "plus") {
        Some("+")
    } else if str_eq(s, "minus") {
        Some("-")
    } else if str_eq(s, "bracketleft") {
        Some("[")
    } else if str_eq(s, "bracketright") {
        Some("]")
    } else if str_eq(s, "braceleft") {
        Some("{")
    } else if str_eq(s, "braceright") {
        Some("}")
    } else if str_eq(s, "dead_diaeresis") {
        Some("\"")
    } else if str_eq(s, "dead_acute") {
        Some("\'")
    } else if str_eq(s, "less") {
        Some("<")
    } else if str_eq(s, "greater") {
        Some(">")
    } else if str_eq(s, "comma") {
        Some(",")
    } else if str_eq(s, "period") {
        Some(".")
    } else if str_eq(s, "BackSpace") {
        Some("BS")
    } else if str_eq(s, "Return") {
        Some("CR")
    } else if str_eq(s, "Escape") {
        Some("Esc")
    } else if str_eq(s, "Delete") {
        Some("Del")
    } else if str_eq(s, "Page_Up") {
        Some("PageUp")
    } else if str_eq(s, "Page_Down") {
        Some("PageDown")
    } else if str_eq(s, "Enter") {
        Some("CR")
    } else if str_eq(s, "ISO_Left_Tab") {
        Some("Tab")
    } else if str_eq(s, "Tab") {
        Some("Tab")
    } else if str_eq(s, "Up") {
        Some("Up")
    } else if str_eq(s, "Down") {
        Some("Down")
    } else if str_eq(s, "Left") {
        Some("Left")
    } else if str_eq(s, "Right") {
        Some("Right")
    } else if str_eq(s, "Home") {
        Some("Home")
    } else if str_eq(s, "End") {
        Some("End")
    } else {
        None
    }
}

/// The modifier prefixes of a key: shift, control, then alt.
pub open spec fn modifier_prefix(shift: bool, ctrl: bool, alt: bool) -> Seq<char> {
    (if shift {
        "S-"@
    } else {
        Seq::empty()
    }) + (if ctrl {
        "C-"@
    } else {
        Seq::empty()
    }) + (if alt {
        "A-"@
    } else {
        Seq::empty()
    })
}

/// The input for a key press: the key between `<` and `>`, after the
/// modifier prefixes. A key with a longer name is sent by its Neovim name
/// (none when it has none); a key with a one character name as its
/// character (none when it has none).
pub open spec fn key_input(
    keyname: Seq<char>,
    shift: bool,
    ctrl: bool,
    alt: bool,
    unicode: Option<char>,
) -> Option<Seq<char>> {
    let key = if keyname.len() > 1 {
        nvim_key(keyname)
    } else {
        match unicode {
            Some(c) => Some(seq![c]),
            None => None,
        }
    };
    match key {
        Some(k) => Some("<"@ + modifier_prefix(shift, ctrl, alt) + k + ">"@),
        None => None,
    }
}

/// The Neovim input for a key press, from the GDK name of the key, the
/// shift, control and alt modifiers, and the character of the key.
pub fn event_to_nvim_input(keyname: &str, shift: bool, ctrl: bool, alt: bool, unicode: Option<
    char,
>) -> (r: Option<String>)
    ensures
        r is Some <==> key_input(keyname@, shift, ctrl, alt, unicode) is Some,
        r matches Some(s) ==> s@ == key_input(keyname@, shift, ctrl, alt, unicode)->0,
{
    let mut input = to_string("<");
    let ghost start = input@;
    if shift {
        input.append("S-");
    }
    if ctrl {
        input.append("C-");
    }
    if alt {
        input.append("A-");
    }
    assert(input@ =~= "<"@ + modifier_prefix(shift, ctrl, alt));
    if keyname.unicode_len() > 1 {
        match keyname_to_nvim_key(keyname) {
            Some(n) => input.append(n),
            None => {
                return None;
            },
        }
    } else {
        match unicode {
            Some(c) => push_char(&mut input, c),
            None => {
                return None;
            },
        }
    }
    input.append(">");
    Some(input)
}

/// `s` with every `<` written as `<lt>`, as `nvim_input` wants text.
pub open spec fn escape_lt(s: Seq<char>) -> Seq<char>
    decreases s.len(),
{
    if s.len() == 0 {
        Seq::empty()
    } else {
        escape_lt(s.drop_last()) + if s.last() == '<' {
            "<lt>"@
        } else {
            seq![s.last()]
        }
    }
}

/// Escapes committed text for `nvim_input`.
pub fn escape_input(s: &str) -> (r: String)
    ensures
        r@ == escape_lt(s@),
{
    let n = s.unicode_len();
    let mut r = String::new();
    let mut i: usize = 0;
    assert(s@.take(0) =~= Seq::<char>::empty());
    while i < n
        invariant
            n == s@.len(),
            0 <= i <= n,
            r@ == escape_lt(s@.take(i as int)),
        decreases n - i,
    {
        let c = s.get_char(i);
        assert(s@.take(i + 1).drop_last() =~= s@.take(i as int));
        if c == '<' {
            r.append("<lt>");
        } else {
            push_char(&mut r, c);
        }
        i = i + 1;
        assert(r@ =~= escape_lt(s@.take(i as int)));
    }
    assert(s@.take(n as int) =~= s@);
    r
}

/// The direction of a scroll event.
#[derive(Clone, Copy, PartialEq, Eq, Structural, Debug)]
pub enum ScrollDirection {
    Up,
    Down,
}

impl ScrollDirection {
    pub open spec fn spec_name(self) -> Seq<char> {
        match self {
            ScrollDirection::Up => "ScrollWheelUp"@,
            ScrollDirection::Down => "ScrollWheelDown"@,
        }
    }

    /// The Neovim key name of the scroll: `ScrollWheelUp` or
    /// `ScrollWheelDown`.
    pub fn name(&self) -> (s: &'static str)
        ensures
            s@ == self.spec_name(),
    {
        match self {
            ScrollDirection::Up => "ScrollWheelUp",
            ScrollDirection::Down => "ScrollWheelDown",
        }
    }
}

/// A mouse button.
#[derive(Clone, Copy, PartialEq, Eq, Structural, Debug)]
pub enum MouseButton {
    Left,
    Middle,
    Right,
}

impl MouseButton {
    pub open spec fn spec_name(self) -> Seq<char> {
        match self {
            MouseButton::Left => "Left"@,
            MouseButton::Middle => "Middle"@,
            MouseButton::Right => "Right"@,
        }
    }

    /// The Neovim key name of the button.
    pub fn name(&self) -> (s: &'static str)
        ensures
            s@ == self.spec_name(),
    {
        match self {
            MouseButton::Left => "Left",
            MouseButton::Middle => "Middle",
            MouseButton::Right => "Right",
        }
    }

    /// The button of a GDK button number: 2 is the middle one, 3 the right
    /// one, any other number the left one.
    pub fn from_number(n: u32) -> (b: MouseButton)
        ensures
            b == (if n == 3 {
                MouseButton::Right
            } else if n == 2 {
                MouseButton::Middle
            } else {
                MouseButton::Left
            }),
    {
        if n == 3 {
            MouseButton::Right
        } else if n == 2 {
            MouseButton::Middle
        } else {
            MouseButton::Left
        }
    }
}

/// The position part of a mouse input: `<col,row>`.
pub open spec fn cell_seq(row: u64, col: u64) -> Seq<char> {
    "<"@ + decimal(col as nat) + ","@ + decimal(row as nat) + ">"@
}

fn push_cell(s: &mut String, row: u64, col: u64)
    ensures
        final(s)@ == old(s)@ + cell_seq(row, col),
{
    s.append("<");
    s.append(decimal_string(col).as_str());
    s.append(",");
    s.append(decimal_string(row).as_str());
    s.append(">");
}

/// The input for a scroll at a cell: `<ScrollWheelUp><col,row>`.
pub fn scroll_input(dir: ScrollDirection, row: u64, col: u64) -> (s: String)
    ensures
        s@ == "<"@ + dir.spec_name() + ">"@ + cell_seq(row, col),
{
    let mut s = to_string("<");
    s.append(dir.name());
    s.append(">");
    push_cell(&mut s, row, col);
    s
}

/// The input for a drag to a cell: `<LeftDrag><col,row>`.
pub fn drag_input(button: MouseButton, row: u64, col: u64) -> (s: String)
    ensures
        s@ == "<"@ + button.spec_name() + "Drag>"@ + cell_seq(row, col),
{
    let mut s = to_string("<");
    s.append(button.name());
    s.append("Drag>");
    push_cell(&mut s, row, col);
    s
}

} // verus!
