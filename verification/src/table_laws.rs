//! Laws on the lookup tables of the library: which GDK key names give
//! which Neovim keys, which Neovim highlight groups drive which widget
//! groups, which completion kinds the kind names stand for, and how the
//! style of a highlight reaches its Pango markup.

use vstd::prelude::*;
use vstd::string::*;

use crate::args::{ui_options_for, Args};
use crate::color::{color_hex, markup_seq, named_groups, Color, HlGroup, Highlight};
use crate::input::nvim_key;
use crate::nvim_bridge::{kind_of, CompletionItemKind};

verus! {

/// Two GDK key names give the same Neovim key only when they are names of
/// the same key: `Return` and `Enter` (both `CR`), or `ISO_Left_Tab` and
/// `Tab` (both `Tab`). Every other key, `BackSpace` and `Delete` among
/// them, reaches Neovim as a key of its own.
pub proof fn law_nvim_keys_distinct(s: Seq<char>, t: Seq<char>)
    requires
        nvim_key(s) is Some,
        nvim_key(s) == nvim_key(t),
    ensures
        s == t || (s == "Return"@ || s == "Enter"@) && (t == "Return"@ || t == "Enter"@) || (s
            == "ISO_Left_Tab"@ || s == "Tab"@) && (t == "ISO_Left_Tab"@ || t == "Tab"@),
{
    reveal_strlit("#");
    reveal_strlit("$");
    reveal_strlit("%");
    reveal_strlit("&");
    reveal_strlit("(");
    reveal_strlit(")");
    reveal_strlit("*");
    reveal_strlit("+");
    reveal_strlit(",");
    reveal_strlit("-");
    reveal_strlit(".");
    reveal_strlit("/");
    reveal_strlit("<");
    reveal_strlit(">");
    reveal_strlit("@");
    reveal_strlit("BS");
    reveal_strlit("CR");
    reveal_strlit("Del");
    reveal_strlit("Down");
    reveal_strlit("End");
    reveal_strlit("Esc");
    reveal_strlit("Home");
    reveal_strlit("Left");
    reveal_strlit("PageDown");
    reveal_strlit("PageUp");
    reveal_strlit("Right");
    reveal_strlit("Tab");
    reveal_strlit("Up");
    reveal_strlit("[");
    reveal_strlit("\"");
    reveal_strlit("\'");
    reveal_strlit("\\");
    reveal_strlit("]");
    reveal_strlit("^");
    reveal_strlit("_");
    reveal_strlit("{");
    reveal_strlit("}");
    let k = nvim_key(s)->0;
    let l = nvim_key(t)->0;
    assert(k.len() == l.len() && k[0] == l[0] && k[k.len() - 1] == l[l.len() - 1]);
}

/// The GDK names of the keys that reach Neovim as the key `k` (the
/// python-gui table): several names only for `CR` (`Return`, `Enter`) and
/// `Tab` (`ISO_Left_Tab`, `Tab`).
pub open spec fn gdk_names(k: Seq<char>) -> Seq<Seq<char>> {
    if k == "/"@ {
        seq!["slash"@]
    } else if k == "\\"@ {
        seq!["backslash"@]
    } else if k == "^"@ {
        seq!["dead_circumflex"@]
    } else if k == "@"@ {
        seq!["at"@]
    } else if k == "#"@ {
        seq!["numbersign"@]
    } else if k == "$"@ {
        seq!["dollar"@]
    } else if k == "%"@ {
        seq!["percent"@]
    } else if k == "&"@ {
        seq!["ampersand"@]
    } else if k == "*"@ {
        seq!["asterisk"@]
    } else if k == "("@ {
        seq!["parenleft"@]
    } else if k == ")"@ {
        seq!["parenright"@]
    } else if k == "_"@ {
        seq!["underscore"@]
    } else if k == "+"@ {
        seq!["plus"@]
    } else if k == "-"@ {
        seq!["minus"@]
    } else if k == "["@ {
        seq!["bracketleft"@]
    } else if k == "]"@ {
        seq!["bracketright"@]
    } else if k == "{"@ {
        seq!["braceleft"@]
    } else if k == "}"@ {
        seq!["braceright"@]
    } else if k == "\""@ {
        seq!["dead_diaeresis"@]
    } else if k == "'"@ {
        seq!["dead_acute"@]
    } else if k == "<"@ {
        seq!["less"@]
    } else if k == ">"@ {
        seq!["greater"@]
    } else if k == ","@ {
        seq!["comma"@]
    } else if k == "."@ {
        seq!["period"@]
    } else if k == "BS"@ {
        seq!["BackSpace"@]
    } else if k == "CR"@ {
        seq!["Return"@, "Enter"@]
    } else if k == "Esc"@ {
        seq!["Escape"@]
    } else if k == "Del"@ {
        seq!["Delete"@]
    } else if k == "PageUp"@ {
        seq!["Page_Up"@]
    } else if k == "PageDown"@ {
        seq!["Page_Down"@]
    } else if k == "Tab"@ {
        seq!["ISO_Left_Tab"@, "Tab"@]
    } else if k == "Up"@ {
        seq!["Up"@]
    } else if k == "Down"@ {
        seq!["Down"@]
    } else if k == "Left"@ {
        seq!["Left"@]
    } else if k == "Right"@ {
        seq!["Right"@]
    } else if k == "Home"@ {
        seq!["Home"@]
    } else if k == "End"@ {
        seq!["End"@]
    } else {
        seq![]
    }
}

/// A GDK key name gives the Neovim key `k` (`keyname_to_nvim_key`)
/// exactly when it is one of the GDK names of `k`.
pub proof fn law_nvim_key_names(s: Seq<char>, k: Seq<char>)
    ensures
        nvim_key(s) == Some(k) <==> gdk_names(k).contains(s),
{
    reveal_strlit("\"");
    assert("\""@.len() == 1);
    reveal_strlit("#");
    assert("#"@.len() == 1);
    reveal_strlit("$");
    assert("$"@.len() == 1);
    reveal_strlit("%");
    assert("%"@.len() == 1);
    reveal_strlit("&");
    assert("&"@.len() == 1);
    reveal_strlit("'");
    assert("'"@.len() == 1);
    reveal_strlit("(");
    assert("("@.len() == 1);
    reveal_strlit(")");
    assert(")"@.len() == 1);
    reveal_strlit("*");
    assert("*"@.len() == 1);
    reveal_strlit("+");
    assert("+"@.len() == 1);
    reveal_strlit(",");
    assert(","@.len() == 1);
    reveal_strlit("-");
    assert("-"@.len() == 1);
    reveal_strlit(".");
    assert("."@.len() == 1);
    reveal_strlit("/");
    assert("/"@.len() == 1);
    reveal_strlit("<");
    assert("<"@.len() == 1);
    reveal_strlit(">");
    assert(">"@.len() == 1);
    reveal_strlit("@");
    assert("@"@.len() == 1);
    reveal_strlit("BS");
    assert("BS"@.len() == 2);
    reveal_strlit("BackSpace");
    assert("BackSpace"@.len() == 9);
    reveal_strlit("CR");
    assert("CR"@.len() == 2);
    reveal_strlit("Del");
    assert("Del"@.len() == 3);
    reveal_strlit("Delete");
    assert("Delete"@.len() == 6);
    reveal_strlit("Down");
    assert("Down"@.len() == 4);
    reveal_strlit("End");
    assert("End"@.len() == 3);
    reveal_strlit("Enter");
    assert("Enter"@.len() == 5);
    reveal_strlit("Esc");
    assert("Esc"@.len() == 3);
    reveal_strlit("Escape");
    assert("Escape"@.len() == 6);
    reveal_strlit("Home");
    assert("Home"@.len() == 4);
    reveal_strlit("ISO_Left_Tab");
    assert("ISO_Left_Tab"@.len() == 12);
    reveal_strlit("Left");
    assert("Left"@.len() == 4);
    reveal_strlit("PageDown");
    assert("PageDown"@.len() == 8);
    reveal_strlit("PageUp");
    assert("PageUp"@.len() == 6);
    reveal_strlit("Page_Down");
    assert("Page_Down"@.len() == 9);
    reveal_strlit("Page_Up");
    assert("Page_Up"@.len() == 7);
    reveal_strlit("Return");
    assert("Return"@.len() == 6);
    reveal_strlit("Right");
    assert("Right"@.len() == 5);
    reveal_strlit("Tab");
    assert("Tab"@.len() == 3);
    reveal_strlit("Up");
    assert("Up"@.len() == 2);
    reveal_strlit("[");
    assert("["@.len() == 1);
    reveal_strlit("\\");
    assert("\\"@.len() == 1);
    reveal_strlit("]");
    assert("]"@.len() == 1);
    reveal_strlit("^");
    assert("^"@.len() == 1);
    reveal_strlit("_");
    assert("_"@.len() == 1);
    reveal_strlit("ampersand");
    assert("ampersand"@.len() == 9);
    reveal_strlit("asterisk");
    assert("asterisk"@.len() == 8);
    reveal_strlit("at");
    assert("at"@.len() == 2);
    reveal_strlit("backslash");
    assert("backslash"@.len() == 9);
    reveal_strlit("braceleft");
    assert("braceleft"@.len() == 9);
    reveal_strlit("braceright");
    assert("braceright"@.len() == 10);
    reveal_strlit("bracketleft");
    assert("bracketleft"@.len() == 11);
    reveal_strlit("bracketright");
    assert("bracketright"@.len() == 12);
    reveal_strlit("comma");
    assert("comma"@.len() == 5);
    reveal_strlit("dead_acute");
    assert("dead_acute"@.len() == 10);
    reveal_strlit("dead_circumflex");
    assert("dead_circumflex"@.len() == 15);
    reveal_strlit("dead_diaeresis");
    assert("dead_diaeresis"@.len() == 14);
    reveal_strlit("dollar");
    assert("dollar"@.len() == 6);
    reveal_strlit("greater");
    assert("greater"@.len() == 7);
    reveal_strlit("less");
    assert("less"@.len() == 4);
    reveal_strlit("minus");
    assert("minus"@.len() == 5);
    reveal_strlit("numbersign");
    assert("numbersign"@.len() == 10);
    reveal_strlit("parenleft");
    assert("parenleft"@.len() == 9);
    reveal_strlit("parenright");
    assert("parenright"@.len() == 10);
    reveal_strlit("percent");
    assert("percent"@.len() == 7);
    reveal_strlit("period");
    assert("period"@.len() == 6);
    reveal_strlit("plus");
    assert("plus"@.len() == 4);
    reveal_strlit("slash");
    assert("slash"@.len() == 5);
    reveal_strlit("underscore");
    assert("underscore"@.len() == 10);
    reveal_strlit("{");
    assert("{"@.len() == 1);
    reveal_strlit("}");
    assert("}"@.len() == 1);
    assert("\""@[0] == '"');
    assert("#"@[0] == '#');
    assert("$"@[0] == '$');
    assert("%"@[0] == '%');
    assert("&"@[0] == '&');
    assert("'"@[0] == '\'');
    assert("("@[0] == '(');
    assert(")"@[0] == ')');
    assert("*"@[0] == '*');
    assert("+"@[0] == '+');
    assert(","@[0] == ',');
    assert("-"@[0] == '-');
    assert("."@[0] == '.');
    assert("/"@[0] == '/');
    assert("<"@[0] == '<');
    assert(">"@[0] == '>');
    assert("@"@[0] == '@');
    assert("BS"@[0] == 'B');
    assert("BackSpace"@[0] == 'B');
    assert("CR"@[0] == 'C');
    assert("Del"@[0] == 'D');
    assert("Delete"@[0] == 'D');
    assert("Down"@[0] == 'D');
    assert("End"@[0] == 'E');
    assert("End"@[1] == 'n');
    assert("Enter"@[0] == 'E');
    assert("Esc"@[0] == 'E');
    assert("Esc"@[1] == 's');
    assert("Escape"@[0] == 'E');
    assert("Home"@[0] == 'H');
    assert("ISO_Left_Tab"@[0] == 'I');
    assert("Left"@[0] == 'L');
    assert("PageDown"@[0] == 'P');
    assert("PageUp"@[0] == 'P');
    assert("Page_Down"@[0] == 'P');
    assert("Page_Up"@[0] == 'P');
    assert("Return"@[0] == 'R');
    assert("Right"@[0] == 'R');
    assert("Tab"@[0] == 'T');
    assert("Up"@[0] == 'U');
    assert("["@[0] == '[');
    assert("\\"@[0] == '\\');
    assert("]"@[0] == ']');
    assert("^"@[0] == '^');
    assert("_"@[0] == '_');
    assert("ampersand"@[0] == 'a');
    assert("asterisk"@[0] == 'a');
    assert("at"@[0] == 'a');
    assert("backslash"@[0] == 'b');
    assert("backslash"@[1] == 'a');
    assert("braceleft"@[0] == 'b');
    assert("braceleft"@[1] == 'r');
    assert("braceright"@[0] == 'b');
    assert("bracketright"@[0] == 'b');
    assert("comma"@[0] == 'c');
    assert("dead_acute"@[0] == 'd');
    assert("dollar"@[0] == 'd');
    assert("greater"@[0] == 'g');
    assert("less"@[0] == 'l');
    assert("minus"@[0] == 'm');
    assert("numbersign"@[0] == 'n');
    assert("parenleft"@[0] == 'p');
    assert("parenright"@[0] == 'p');
    assert("percent"@[0] == 'p');
    assert("period"@[0] == 'p');
    assert("plus"@[0] == 'p');
    assert("slash"@[0] == 's');
    assert("underscore"@[0] == 'u');
    assert("{"@[0] == '{');
    assert("}"@[0] == '}');
    if nvim_key(s) == Some(k) {
        if s == "Enter"@ || s == "Tab"@ {
            assert(gdk_names(k)[1] == s);
        } else {
            assert(gdk_names(k)[0] == s);
        }
    }
    if gdk_names(k).contains(s) {
        let i = choose|i: int| 0 <= i < gdk_names(k).len() && gdk_names(k)[i] == s;
        assert(nvim_key(gdk_names(k)[i]) == Some(k));
    }
}

/// The Neovim highlight group whose colors the widget group `g` takes:
/// the popup menu and wildmenu follow `Pmenu`, their selections
/// `PmenuSel`, the tab line `TabLine`, `TabLineSel` and `TabLineFill`
/// (the selected tab also colors the command line border), and the command
/// line `Normal`. The message separator follows none.
pub open spec fn neovim_group_of(g: HlGroup) -> Option<Seq<char>> {
    match g {
        HlGroup::Pmenu => Some("Pmenu"@),
        HlGroup::Wildmenu => Some("Pmenu"@),
        HlGroup::PmenuSel => Some("PmenuSel"@),
        HlGroup::WildmenuSel => Some("PmenuSel"@),
        HlGroup::Tabline => Some("TabLine"@),
        HlGroup::TablineSel => Some("TabLineSel"@),
        HlGroup::CmdlineBorder => Some("TabLineSel"@),
        HlGroup::TablineFill => Some("TabLineFill"@),
        HlGroup::Cmdline => Some("Normal"@),
        HlGroup::MsgSeparator => None,
    }
}

/// `hl_group_set(name, id)` (through [`named_groups`]) sets the widget
/// group `g` exactly when `name` is the Neovim group that `g` follows: every
/// widget group but the message separator is reached by its Neovim group,
/// and no other name reaches it.
pub proof fn law_named_groups_reach(name: Seq<char>, g: HlGroup)
    ensures
        named_groups(name).contains(g) <==> neovim_group_of(g) == Some(name),
{
    reveal_strlit("Normal");
    assert("Normal"@.len() == 6);
    reveal_strlit("Pmenu");
    assert("Pmenu"@.len() == 5);
    reveal_strlit("PmenuSel");
    assert("PmenuSel"@.len() == 8);
    reveal_strlit("TabLine");
    assert("TabLine"@.len() == 7);
    reveal_strlit("TabLineFill");
    assert("TabLineFill"@.len() == 11);
    reveal_strlit("TabLineSel");
    assert("TabLineSel"@.len() == 10);
    if neovim_group_of(g) == Some(name) {
        match g {
            HlGroup::Wildmenu => assert(named_groups(name)[1] == g),
            HlGroup::WildmenuSel => assert(named_groups(name)[1] == g),
            HlGroup::CmdlineBorder => assert(named_groups(name)[1] == g),
            _ => assert(named_groups(name)[0] == g),
        }
    }
}

/// The name vim-lsp gives each completion kind.
pub open spec fn lsp_kind_name(k: CompletionItemKind) -> Seq<char> {
    match k {
        CompletionItemKind::Class => "class"@,
        CompletionItemKind::Color => "color"@,
        CompletionItemKind::Constant => "constant"@,
        CompletionItemKind::Constructor => "constructor"@,
        CompletionItemKind::Enum => "enum"@,
        CompletionItemKind::EnumMember => "enum member"@,
        CompletionItemKind::Event => "event"@,
        CompletionItemKind::File => "file"@,
        CompletionItemKind::Field => "field"@,
        CompletionItemKind::Folder => "folder"@,
        CompletionItemKind::Function => "function"@,
        CompletionItemKind::Interface => "interface"@,
        CompletionItemKind::Keyword => "keyword"@,
        CompletionItemKind::Method => "method"@,
        CompletionItemKind::Module => "module"@,
        CompletionItemKind::Operator => "operator"@,
        CompletionItemKind::Property => "property"@,
        CompletionItemKind::Reference => "reference"@,
        CompletionItemKind::Snippet => "snippet"@,
        CompletionItemKind::Struct => "struct"@,
        CompletionItemKind::Text => "text"@,
        CompletionItemKind::TypeParameter => "type parameter"@,
        CompletionItemKind::Unit => "unit"@,
        CompletionItemKind::Value => "value"@,
        CompletionItemKind::Variable => "variable"@,
        CompletionItemKind::Unknown => Seq::empty(),
    }
}

/// The name LanguageClient-neovim gives a completion kind, where it has one.
pub open spec fn lc_kind_name(k: CompletionItemKind) -> Option<Seq<char>> {
    match k {
        CompletionItemKind::Class => Some("Class"@),
        CompletionItemKind::Color => None,
        CompletionItemKind::Constant => Some("Constant"@),
        CompletionItemKind::Constructor => Some("Constructor"@),
        CompletionItemKind::Enum => Some("Enum"@),
        CompletionItemKind::EnumMember => Some("Enum Member"@),
        CompletionItemKind::Event => Some("Event"@),
        CompletionItemKind::File => Some("File"@),
        CompletionItemKind::Field => Some("Field"@),
        CompletionItemKind::Folder => Some("Folder"@),
        CompletionItemKind::Function => Some("Function"@),
        CompletionItemKind::Interface => Some("Interface"@),
        CompletionItemKind::Keyword => Some("Key"@),
        CompletionItemKind::Method => Some("Method"@),
        CompletionItemKind::Module => Some("Module"@),
        CompletionItemKind::Operator => Some("Operator"@),
        CompletionItemKind::Property => Some("Property"@),
        CompletionItemKind::Reference => None,
        CompletionItemKind::Snippet => None,
        CompletionItemKind::Struct => Some("Struct"@),
        CompletionItemKind::Text => None,
        CompletionItemKind::TypeParameter => Some("Type Parameter"@),
        CompletionItemKind::Unit => None,
        CompletionItemKind::Value => None,
        CompletionItemKind::Variable => Some("Variable"@),
        CompletionItemKind::Unknown => None,
    }
}

/// The letter coc.nvim gives a completion kind, where it has one.
pub open spec fn coc_kind_name(k: CompletionItemKind) -> Option<Seq<char>> {
    match k {
        CompletionItemKind::Class => Some("C"@),
        CompletionItemKind::Color => None,
        CompletionItemKind::Constant => None,
        CompletionItemKind::Constructor => None,
        CompletionItemKind::Enum => None,
        CompletionItemKind::EnumMember => None,
        CompletionItemKind::Event => Some("E"@),
        CompletionItemKind::File => Some("F"@),
        CompletionItemKind::Field => Some("m"@),
        CompletionItemKind::Folder => None,
        CompletionItemKind::Function => None,
        CompletionItemKind::Interface => Some("I"@),
        CompletionItemKind::Keyword => Some("k"@),
        CompletionItemKind::Method => Some("f"@),
        CompletionItemKind::Module => Some("M"@),
        CompletionItemKind::Operator => Some("O"@),
        CompletionItemKind::Property => None,
        CompletionItemKind::Reference => Some("r"@),
        CompletionItemKind::Snippet => None,
        CompletionItemKind::Struct => Some("S"@),
        CompletionItemKind::Text => None,
        CompletionItemKind::TypeParameter => Some("T"@),
        CompletionItemKind::Unit => Some("U"@),
        CompletionItemKind::Value => None,
        CompletionItemKind::Variable => Some("v"@),
        CompletionItemKind::Unknown => None,
    }
}

/// Every completion kind is what its vim-lsp name decodes to
/// (`CompletionItemKind::from_name`), and its LanguageClient-neovim name and
/// coc.nvim letter decode to the same kind; a name decodes to a kind only
/// when it is one of that kind's names. Distinct kinds have distinct names,
/// so no kind is shown as another.
pub proof fn law_kind_names(k: CompletionItemKind, s: Seq<char>)
    ensures
        k != CompletionItemKind::Unknown ==> kind_of(lsp_kind_name(k)) == k,
        lc_kind_name(k) matches Some(n) ==> kind_of(n) == k,
        coc_kind_name(k) matches Some(n) ==> kind_of(n) == k,
        kind_of(s) != CompletionItemKind::Unknown ==> s == lsp_kind_name(kind_of(s)) || lc_kind_name(
            kind_of(s),
        ) == Some(s) || coc_kind_name(kind_of(s)) == Some(s),
{
    reveal_strlit("C");
    assert("C"@.len() == 1);
    reveal_strlit("Class");
    assert("Class"@.len() == 5);
    reveal_strlit("Constant");
    assert("Constant"@.len() == 8);
    reveal_strlit("Constructor");
    assert("Constructor"@.len() == 11);
    reveal_strlit("E");
    assert("E"@.len() == 1);
    reveal_strlit("Enum");
    assert("Enum"@.len() == 4);
    reveal_strlit("Enum Member");
    assert("Enum Member"@.len() == 11);
    reveal_strlit("Event");
    assert("Event"@.len() == 5);
    reveal_strlit("F");
    assert("F"@.len() == 1);
    reveal_strlit("Field");
    assert("Field"@.len() == 5);
    reveal_strlit("File");
    assert("File"@.len() == 4);
    reveal_strlit("Folder");
    assert("Folder"@.len() == 6);
    reveal_strlit("Function");
    assert("Function"@.len() == 8);
    reveal_strlit("I");
    assert("I"@.len() == 1);
    reveal_strlit("Interface");
    assert("Interface"@.len() == 9);
    reveal_strlit("Key");
    assert("Key"@.len() == 3);
    reveal_strlit("M");
    assert("M"@.len() == 1);
    reveal_strlit("Method");
    assert("Method"@.len() == 6);
    reveal_strlit("Module");
    assert("Module"@.len() == 6);
    reveal_strlit("O");
    assert("O"@.len() == 1);
    reveal_strlit("Operator");
    assert("Operator"@.len() == 8);
    reveal_strlit("Property");
    assert("Property"@.len() == 8);
    reveal_strlit("S");
    assert("S"@.len() == 1);
    reveal_strlit("Struct");
    assert("Struct"@.len() == 6);
    reveal_strlit("T");
    assert("T"@.len() == 1);
    reveal_strlit("Type Parameter");
    assert("Type Parameter"@.len() == 14);
    reveal_strlit("U");
    assert("U"@.len() == 1);
    reveal_strlit("Variable");
    assert("Variable"@.len() == 8);
    reveal_strlit("class");
    assert("class"@.len() == 5);
    reveal_strlit("color");
    assert("color"@.len() == 5);
    reveal_strlit("constant");
    assert("constant"@.len() == 8);
    reveal_strlit("constructor");
    assert("constructor"@.len() == 11);
    reveal_strlit("enum");
    assert("enum"@.len() == 4);
    reveal_strlit("enum member");
    assert("enum member"@.len() == 11);
    reveal_strlit("event");
    assert("event"@.len() == 5);
    reveal_strlit("f");
    assert("f"@.len() == 1);
    reveal_strlit("field");
    assert("field"@.len() == 5);
    reveal_strlit("file");
    assert("file"@.len() == 4);
    reveal_strlit("folder");
    assert("folder"@.len() == 6);
    reveal_strlit("function");
    assert("function"@.len() == 8);
    reveal_strlit("interface");
    assert("interface"@.len() == 9);
    reveal_strlit("k");
    assert("k"@.len() == 1);
    reveal_strlit("keyword");
    assert("keyword"@.len() == 7);
    reveal_strlit("m");
    assert("m"@.len() == 1);
    reveal_strlit("method");
    assert("method"@.len() == 6);
    reveal_strlit("module");
    assert("module"@.len() == 6);
    reveal_strlit("operator");
    assert("operator"@.len() == 8);
    reveal_strlit("property");
    assert("property"@.len() == 8);
    reveal_strlit("r");
    assert("r"@.len() == 1);
    reveal_strlit("reference");
    assert("reference"@.len() == 9);
    reveal_strlit("snippet");
    assert("snippet"@.len() == 7);
    reveal_strlit("struct");
    assert("struct"@.len() == 6);
    reveal_strlit("text");
    assert("text"@.len() == 4);
    reveal_strlit("type parameter");
    assert("type parameter"@.len() == 14);
    reveal_strlit("unit");
    assert("unit"@.len() == 4);
    reveal_strlit("v");
    assert("v"@.len() == 1);
    reveal_strlit("value");
    assert("value"@.len() == 5);
    reveal_strlit("variable");
    assert("variable"@.len() == 8);
    assert("C"@[0] == 'C');
    assert("Class"@[0] == 'C');
    assert("Constant"@[0] == 'C');
    assert("Constructor"@[0] == 'C');
    assert("E"@[0] == 'E');
    assert("Enum"@[0] == 'E');
    assert("Enum Member"@[0] == 'E');
    assert("Event"@[0] == 'E');
    assert("F"@[0] == 'F');
    assert("Field"@[0] == 'F');
    assert("File"@[0] == 'F');
    assert("Folder"@[0] == 'F');
    assert("Function"@[0] == 'F');
    assert("I"@[0] == 'I');
    assert("Interface"@[0] == 'I');
    assert("M"@[0] == 'M');
    assert("Method"@[0] == 'M');
    assert("Method"@[1] == 'e');
    assert("Module"@[0] == 'M');
    assert("Module"@[1] == 'o');
    assert("O"@[0] == 'O');
    assert("Operator"@[0] == 'O');
    assert("Property"@[0] == 'P');
    assert("S"@[0] == 'S');
    assert("Struct"@[0] == 'S');
    assert("T"@[0] == 'T');
    assert("Type Parameter"@[0] == 'T');
    assert("U"@[0] == 'U');
    assert("Variable"@[0] == 'V');
    assert("class"@[0] == 'c');
    assert("class"@[1] == 'l');
    assert("color"@[0] == 'c');
    assert("color"@[1] == 'o');
    assert("constant"@[0] == 'c');
    assert("constructor"@[0] == 'c');
    assert("enum"@[0] == 'e');
    assert("enum member"@[0] == 'e');
    assert("event"@[0] == 'e');
    assert("f"@[0] == 'f');
    assert("field"@[0] == 'f');
    assert("file"@[0] == 'f');
    assert("folder"@[0] == 'f');
    assert("function"@[0] == 'f');
    assert("interface"@[0] == 'i');
    assert("k"@[0] == 'k');
    assert("keyword"@[0] == 'k');
    assert("m"@[0] == 'm');
    assert("method"@[0] == 'm');
    assert("method"@[1] == 'e');
    assert("module"@[0] == 'm');
    assert("module"@[1] == 'o');
    assert("operator"@[0] == 'o');
    assert("property"@[0] == 'p');
    assert("r"@[0] == 'r');
    assert("reference"@[0] == 'r');
    assert("snippet"@[0] == 's');
    assert("struct"@[0] == 's');
    assert("text"@[0] == 't');
    assert("type parameter"@[0] == 't');
    assert("unit"@[0] == 'u');
    assert("v"@[0] == 'v');
    assert("value"@[0] == 'v');
    assert("variable"@[0] == 'v');
}

/// Two highlights with different italic, bold, underline or undercurl
/// flags get different Pango styles: the font style is `italic` exactly
/// for italic highlights and `normal` otherwise, the weight `bold` exactly
/// for bold ones, the underline `error` (a curly line) for undercurl,
/// `underline` for a plain underline, `none` for neither.
pub proof fn law_markup_styles(h: Highlight)
    ensures
        (h.font_style() == "italic"@) == h.italic,
        (h.font_style() == "normal"@) == !h.italic,
        (h.weight() == "bold"@) == h.bold,
        (h.weight() == "normal"@) == !h.bold,
        (h.underline_style() == "error"@) == h.undercurl,
        (h.underline_style() == "underline"@) == (h.underline && !h.undercurl),
        (h.underline_style() == "none"@) == (!h.underline && !h.undercurl),
{
    reveal_strlit("bold");
    assert("bold"@.len() == 4);
    reveal_strlit("error");
    assert("error"@.len() == 5);
    reveal_strlit("italic");
    assert("italic"@.len() == 6);
    reveal_strlit("none");
    assert("none"@.len() == 4);
    reveal_strlit("normal");
    assert("normal"@.len() == 6);
    reveal_strlit("underline");
    assert("underline"@.len() == 9);
    assert("bold"@[0] == 'b');
    assert("italic"@[0] == 'i');
    assert("none"@[0] == 'n');
    assert("normal"@[0] == 'n');
}

/// The value of the option `name` among `opts`, if it is set.
pub open spec fn option_value(opts: Seq<(Seq<char>, Option<bool>)>, name: Seq<char>) -> Option<Option<bool>> {
    if exists|i: int| 0 <= i < opts.len() && opts[i].0 == name {
        Some(opts[choose|i: int| 0 <= i < opts.len() && opts[i].0 == name].1)
    } else {
        None
    }
}

/// The UI attaches (`Args::nvim_ui_opts`) with RGB colors and the line and
/// multigrid protocols, and with each of the popup menu, tab line and
/// command line drawn by Gnvim exactly when its `--disable-ext-*` flag is
/// not given: two sets of arguments that differ in one of these flags
/// attach differently.
pub proof fn law_ui_options_follow_flags(a: Args, b: Args)
    ensures
        option_value(ui_options_for(&a), "rgb"@) == Some(Some(true)),
        option_value(ui_options_for(&a), "ext_linegrid"@) == Some(Some(true)),
        option_value(ui_options_for(&a), "ext_multigrid"@) == Some(Some(true)),
        option_value(ui_options_for(&a), "ext_popupmenu"@) == Some(Some(!a.disable_ext_popupmenu)),
        option_value(ui_options_for(&a), "ext_tabline"@) == Some(Some(!a.disable_ext_tabline)),
        option_value(ui_options_for(&a), "ext_cmdline"@) == Some(Some(!a.disable_ext_cmdline)),
        ui_options_for(&a) == ui_options_for(&b) ==> a.disable_ext_popupmenu
            == b.disable_ext_popupmenu && a.disable_ext_tabline == b.disable_ext_tabline
            && a.disable_ext_cmdline == b.disable_ext_cmdline,
{
    reveal_strlit("rgb");
    reveal_strlit("ext_linegrid");
    reveal_strlit("ext_multigrid");
    reveal_strlit("ext_popupmenu");
    reveal_strlit("ext_tabline");
    reveal_strlit("ext_cmdline");
    let o = ui_options_for(&a);
    assert forall|j: int, k: int| 0 <= j < 6 && 0 <= k < 6 && o[j].0 == o[k].0 implies j == k by {
        if j != k {
            assert(o[j].0.len() == o[k].0.len());
            if o[j].0.len() == 13 || o[j].0.len() == 11 {
                assert(o[j].0[4] == o[k].0[4]);
            }
        }
    }
    lemma_option_value(o, 0);
    lemma_option_value(o, 1);
    lemma_option_value(o, 2);
    lemma_option_value(o, 3);
    lemma_option_value(o, 4);
    lemma_option_value(o, 5);
    if ui_options_for(&a) == ui_options_for(&b) {
        assert(ui_options_for(&a)[3] == ui_options_for(&b)[3]);
        assert(ui_options_for(&a)[4] == ui_options_for(&b)[4]);
        assert(ui_options_for(&a)[5] == ui_options_for(&b)[5]);
    }
}

/// In options whose names are all different, the option named like the
/// `j`th one has its value.
proof fn lemma_option_value(o: Seq<(Seq<char>, Option<bool>)>, j: int)
    requires
        0 <= j < o.len(),
        forall|a: int, b: int| 0 <= a < o.len() && 0 <= b < o.len() && o[a].0 == o[b].0 ==> a == b,
    ensures
        option_value(o, o[j].0) == Some(o[j].1),
{
    let c = choose|i: int| 0 <= i < o.len() && o[i].0 == o[j].0;
    assert(o[c].0 == o[j].0);
}

/// A value that follows `key` in `pre` and is closed by the `"` that
/// starts `rest` stands in `pre + x + rest` as `key`, the value, `"`.
proof fn lemma_attribute_in(pre: Seq<char>, x: Seq<char>, rest: Seq<char>, key: Seq<char>)
    requires
        key.len() <= pre.len(),
        pre.subrange(pre.len() - key.len(), pre.len() as int) == key,
        rest.len() > 0,
        rest[0] == '"',
    ensures
        pre.len() + x.len() + 1 <= (pre + x + rest).len(),
        (pre + x + rest).subrange(pre.len() - key.len(), (pre.len() + x.len() + 1) as int) == key + x
            + seq!['"'],
{
    let m = pre + x + rest;
    let s = m.subrange(pre.len() - key.len(), (pre.len() + x.len() + 1) as int);
    let w = key + x + seq!['"'];
    assert forall|i: int| 0 <= i < w.len() implies s[i] == w[i] by {
        if i < key.len() {
            assert(s[i] == pre[pre.len() - key.len() + i]);
            assert(pre.subrange(pre.len() - key.len(), pre.len() as int)[i] == key[i]);
        } else if i < key.len() + x.len() {
            assert(s[i] == x[i - key.len()]);
        } else {
            assert(s[i] == rest[0]);
        }
    }
    assert(s =~= w);
}

/// The Pango markup of a highlight (`Highlight::pango_markup`) carries its
/// style: `font_style="italic"` for an italic highlight and
/// `font_style="normal"` otherwise, `weight="bold"` for a bold one and
/// `weight="normal"` otherwise.
pub proof fn law_markup_carries_style(h: Highlight, text: Seq<char>, fg: Color, bg: Color, sp: Color)
    ensures
        h.italic ==> exists|p: int|
            0 <= p && p + 19 <= markup_seq(text, fg, bg, sp, h.weight(), h.font_style(), h.underline_style()).len()
                && #[trigger] markup_seq(text, fg, bg, sp, h.weight(), h.font_style(), h.underline_style()).subrange(p, p + 19)
                == "font_style=\"italic\""@,
        !h.italic ==> exists|p: int|
            0 <= p && p + 19 <= markup_seq(text, fg, bg, sp, h.weight(), h.font_style(), h.underline_style()).len()
                && #[trigger] markup_seq(text, fg, bg, sp, h.weight(), h.font_style(), h.underline_style()).subrange(p, p + 19)
                == "font_style=\"normal\""@,
        h.bold ==> exists|p: int|
            0 <= p && p + 13 <= markup_seq(text, fg, bg, sp, h.weight(), h.font_style(), h.underline_style()).len()
                && #[trigger] markup_seq(text, fg, bg, sp, h.weight(), h.font_style(), h.underline_style()).subrange(p, p + 13)
                == "weight=\"bold\""@,
        !h.bold ==> exists|p: int|
            0 <= p && p + 15 <= markup_seq(text, fg, bg, sp, h.weight(), h.font_style(), h.underline_style()).len()
                && #[trigger] markup_seq(text, fg, bg, sp, h.weight(), h.font_style(), h.underline_style()).subrange(p, p + 15)
                == "weight=\"normal\""@,
{
    reveal_strlit("\"\n            font_style=\"");
    assert("\"\n            font_style=\""@.len() == 26);
    reveal_strlit("\"\n            underline=\"");
    assert("\"\n            underline=\""@.len() == 25);
    reveal_strlit("\"\n            weight=\"");
    assert("\"\n            weight=\""@.len() == 22);
    reveal_strlit("\">");
    assert("\">"@.len() == 2);
    reveal_strlit("bold");
    assert("bold"@.len() == 4);
    reveal_strlit("font_style=\"");
    assert("font_style=\""@.len() == 12);
    reveal_strlit("font_style=\"italic\"");
    assert("font_style=\"italic\""@.len() == 19);
    reveal_strlit("font_style=\"normal\"");
    assert("font_style=\"normal\""@.len() == 19);
    reveal_strlit("italic");
    assert("italic"@.len() == 6);
    reveal_strlit("normal");
    assert("normal"@.len() == 6);
    reveal_strlit("weight=\"");
    assert("weight=\""@.len() == 8);
    reveal_strlit("weight=\"bold\"");
    assert("weight=\"bold\""@.len() == 13);
    reveal_strlit("weight=\"normal\"");
    assert("weight=\"normal\""@.len() == 15);
    assert("font_style=\"italic\""@[12] == 'i');
    assert("font_style=\"normal\""@[12] == 'n');
    assert("italic"@[0] == 'i');
    assert("normal"@[0] == 'n');
    let a = "<span\n            foreground=\"#"@ + color_hex(fg) + "\"\n            background=\"#"@
        + color_hex(bg) + "\"\n            underline_color=\"#"@ + color_hex(sp);
    let kb = "\"\n            weight=\""@;
    let kf = "\"\n            font_style=\""@;
    let ku = "\"\n            underline=\""@;
    let tail = "\">"@ + text + "</span>"@;
    let m = markup_seq(text, fg, bg, sp, h.weight(), h.font_style(), h.underline_style());
    let pre_w = a + kb;
    let rest_w = kf + h.font_style() + ku + h.underline_style() + tail;
    let pre_f = a + kb + h.weight() + kf;
    let rest_f = ku + h.underline_style() + tail;
    assert(m =~= pre_w + h.weight() + rest_w);
    assert(m =~= pre_f + h.font_style() + rest_f);
    let wk = "weight=\""@;
    let fk = "font_style=\""@;
    assert(pre_w.subrange(pre_w.len() - wk.len(), pre_w.len() as int) =~= wk);
    assert(pre_f.subrange(pre_f.len() - fk.len(), pre_f.len() as int) =~= fk);
    assert(rest_w[0] == '"');
    assert(rest_f[0] == '"');
    lemma_attribute_in(pre_w, h.weight(), rest_w, wk);
    lemma_attribute_in(pre_f, h.font_style(), rest_f, fk);
    let fs = if h.italic {
        "font_style=\"italic\""@
    } else {
        "font_style=\"normal\""@
    };
    let ws = if h.bold {
        "weight=\"bold\""@
    } else {
        "weight=\"normal\""@
    };
    assert(fs =~= fk + h.font_style() + seq!['"']);
    assert(ws =~= wk + h.weight() + seq!['"']);
    let pf = pre_f.len() - fk.len();
    let pw = pre_w.len() - wk.len();
    assert(0 <= pf && pf + 19 <= m.len() && m.subrange(pf, pf + 19) == fs);
    if h.bold {
        assert(0 <= pw && pw + 13 <= m.len() && m.subrange(pw, pw + 13) == ws);
    } else {
        assert(0 <= pw && pw + 15 <= m.len() && m.subrange(pw, pw + 15) == ws);
    }
}

} // verus!
