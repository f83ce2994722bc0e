//! The command line options and the Neovim command that they give.

use vstd::prelude::*;
use vstd::string::*;

use nvim_rs::UiAttachOptions;

use crate::text::{parse_i32, parse_signed, split_char, split_seq, strings_view, to_string};

verus! {

/// The options a UI attaches to Neovim with (nvim-rs's `UiAttachOptions`).
#[verifier::external_type_specification]
#[verifier::external_body]
pub struct ExUiAttachOptions(UiAttachOptions);

/// The options `o` holds, in the order they were first set: each option's
/// name and, for a boolean option, its value.
pub uninterp spec fn ui_options(o: UiAttachOptions) -> Seq<(Seq<char>, Option<bool>)>;

/// `opts` with the option `name` set to `val`: the first entry of that name
/// takes the new value, or the option is added at the end.
pub open spec fn with_option(
    opts: Seq<(Seq<char>, Option<bool>)>,
    name: Seq<char>,
    val: Option<bool>,
) -> Seq<(Seq<char>, Option<bool>)>
    decreases opts.len(),
{
    if opts.len() == 0 {
        seq![(name, val)]
    } else if opts[0].0 == name {
        opts.update(0, (name, val))
    } else {
        seq![opts[0]] + with_option(opts.drop_first(), name, val)
    }
}

/// Setting an option that `opts` does not hold adds it at the end.
proof fn lemma_add_new_option(opts: Seq<(Seq<char>, Option<bool>)>, name: Seq<char>, val: Option<bool>)
    requires
        forall|i: int| 0 <= i < opts.len() ==> (#[trigger] opts[i]).0 != name,
    ensures
        with_option(opts, name, val) =~= opts.push((name, val)),
    decreases opts.len(),
{
    if opts.len() > 0 {
        assert(opts[0].0 != name);
        let rest = opts.drop_first();
        assert forall|i: int| 0 <= i < rest.len() implies (#[trigger] rest[i]).0 != name by {
            assert(rest[i] == opts[i + 1]);
        }
        lemma_add_new_option(rest, name, val);
        assert(seq![opts[0]] + rest.push((name, val)) =~= opts.push((name, val)));
    }
}

/// `UiAttachOptions::new` of nvim-rs, which holds no option.
#[verifier::external_body]
fn new_ui_options() -> (o: UiAttachOptions)
    ensures
        ui_options(o) == Seq::<(Seq<char>, Option<bool>)>::empty(),
{
    UiAttachOptions::new()
}

/// `UiAttachOptions::set_rgb` of nvim-rs: sets the boolean option `rgb`.
#[verifier::external_body]
fn set_rgb(o: &mut UiAttachOptions, val: bool)
    ensures
        ui_options(*final(o)) == with_option(ui_options(*old(o)), "rgb"@, Some(val)),
{
    o.set_rgb(val);
}

/// `UiAttachOptions::set_linegrid_external` of nvim-rs: sets the boolean
/// option `ext_linegrid`.
#[verifier::external_body]
fn set_linegrid_external(o: &mut UiAttachOptions, val: bool)
    ensures
        ui_options(*final(o)) == with_option(ui_options(*old(o)), "ext_linegrid"@, Some(val)),
{
    o.set_linegrid_external(val);
}

/// `UiAttachOptions::set_multigrid_external` of nvim-rs: sets the boolean
/// option `ext_multigrid`.
#[verifier::external_body]
fn set_multigrid_external(o: &mut UiAttachOptions, val: bool)
    ensures
        ui_options(*final(o)) == with_option(ui_options(*old(o)), "ext_multigrid"@, Some(val)),
{
    o.set_multigrid_external(val);
}

/// `UiAttachOptions::set_popupmenu_external` of nvim-rs: sets the boolean
/// option `ext_popupmenu`.
#[verifier::external_body]
fn set_popupmenu_external(o: &mut UiAttachOptions, val: bool)
    ensures
        ui_options(*final(o)) == with_option(ui_options(*old(o)), "ext_popupmenu"@, Some(val)),
{
    o.set_popupmenu_external(val);
}

/// `UiAttachOptions::set_tabline_external` of nvim-rs: sets the boolean
/// option `ext_tabline`.
#[verifier::external_body]
fn set_tabline_external(o: &mut UiAttachOptions, val: bool)
    ensures
        ui_options(*final(o)) == with_option(ui_options(*old(o)), "ext_tabline"@, Some(val)),
{
    o.set_tabline_external(val);
}

/// `UiAttachOptions::set_cmdline_external` of nvim-rs: sets the boolean
/// option `ext_cmdline`.
#[verifier::external_body]
fn set_cmdline_external(o: &mut UiAttachOptions, val: bool)
    ensures
        ui_options(*final(o)) == with_option(ui_options(*old(o)), "ext_cmdline"@, Some(val)),
{
    o.set_cmdline_external(val);
}

/// The options Gnvim is started with.
pub struct Args {
    /// Prints the executed neovim command.
    pub print_nvim_cmd: bool,
    /// Path to neovim binary.
    pub nvim_path: String,
    /// Path for gnvim runtime files.
    pub gnvim_rtp: String,
    /// Files to open.
    pub open_files: Vec<String>,
    /// Arguments that are passed to nvim.
    pub nvim_args: Vec<String>,
    /// Disables externalized popup menu.
    pub disable_ext_popupmenu: bool,
    /// Disables externalized command line.
    pub disable_ext_cmdline: bool,
    /// Disables externalized tab line.
    pub disable_ext_tabline: bool,
    /// Instruct GTK to prefer dark theme.
    pub prefer_dark_theme: bool,
    /// Geometry of the window, as width and height.
    pub geometry: (i32, i32),
}

/// The command that starts the embedded Neovim: the binary, the options
/// that mark it as Gnvim's and add the runtime path, then the arguments
/// for Neovim, then the files to open.
pub open spec fn nvim_cmd_seq(
    nvim_path: Seq<char>,
    rtp: Seq<char>,
    nvim_args: Seq<Seq<char>>,
    files: Seq<Seq<char>>,
) -> Seq<Seq<char>> {
    seq![
        nvim_path,
        "--embed"@,
        "--cmd"@,
        "let g:gnvim=1"@,
        "--cmd"@,
        "set termguicolors"@,
        "--cmd"@,
        "let &rtp.=',"@ + rtp + "'"@,
    ] + nvim_args + files
}

/// Appends copies of `items` to `v`.
fn push_all(v: &mut Vec<String>, items: &Vec<String>)
    ensures
        strings_view(final(v)@) == strings_view(old(v)@) + strings_view(items@),
{
    let ghost start = strings_view(v@);
    let mut i: usize = 0;
    while i < items.len()
        invariant
            0 <= i <= items@.len(),
            strings_view(v@) == start + strings_view(items@).take(i as int),
        decreases items@.len() - i,
    {
        assert(strings_view(items@)[i as int] == items@[i as int]@);
        let ghost prev = v@;
        let item = to_string(items[i].as_str());
        v.push(item);
        assert(strings_view(v@) =~= strings_view(prev).push(item@));
        assert(strings_view(items@).take(i + 1) =~= strings_view(items@).take(i as int).push(
            item@,
        ));
        i = i + 1;
        assert(strings_view(v@) =~= start + strings_view(items@).take(i as int));
    }
    assert(strings_view(items@).take(items@.len() as int) =~= strings_view(items@));
}

/// The options Gnvim attaches its UI with: RGB colors, the line-based and
/// multigrid protocols, and the popup menu, tab line and command line drawn
/// by Gnvim unless they are disabled.
pub open spec fn ui_options_for(args: &Args) -> Seq<(Seq<char>, Option<bool>)> {
    seq![
        ("rgb"@, Some(true)),
        ("ext_linegrid"@, Some(true)),
        ("ext_multigrid"@, Some(true)),
        ("ext_popupmenu"@, Some(!args.disable_ext_popupmenu)),
        ("ext_tabline"@, Some(!args.disable_ext_tabline)),
        ("ext_cmdline"@, Some(!args.disable_ext_cmdline)),
    ]
}

impl Args {
    /// The options Gnvim attaches its UI with.
    pub fn nvim_ui_opts(&self) -> (o: UiAttachOptions)
        ensures
            ui_options(o) == ui_options_for(self),
    {
        proof {
            reveal_strlit("rgb");
            reveal_strlit("ext_linegrid");
            reveal_strlit("ext_multigrid");
            reveal_strlit("ext_popupmenu");
            reveal_strlit("ext_tabline");
            reveal_strlit("ext_cmdline");
        }
        let ghost want = ui_options_for(self);
        assert forall|i: int, j: int| 0 <= i < j < 6 implies (#[trigger] want[i]).0 != (
        #[trigger] want[j]).0 by {
            if want[i].0 == want[j].0 {
                assert(want[i].0.len() == want[j].0.len());
                if i == 2 && j == 3 || i == 4 && j == 5 {
                    assert(want[i].0[4] == want[j].0[4]);
                }
            }
        }
        let mut o = new_ui_options();
        set_rgb(&mut o, true);
        assert(ui_options(o) =~= want.take(1));
        set_linegrid_external(&mut o, true);
        assert(ui_options(o) =~= want.take(2)) by {
            lemma_add_new_option(want.take(1), want[1].0, want[1].1);
        }
        set_multigrid_external(&mut o, true);
        assert(ui_options(o) =~= want.take(3)) by {
            lemma_add_new_option(want.take(2), want[2].0, want[2].1);
        }
        set_popupmenu_external(&mut o, !self.disable_ext_popupmenu);
        assert(ui_options(o) =~= want.take(4)) by {
            lemma_add_new_option(want.take(3), want[3].0, want[3].1);
        }
        set_tabline_external(&mut o, !self.disable_ext_tabline);
        assert(ui_options(o) =~= want.take(5)) by {
            lemma_add_new_option(want.take(4), want[4].0, want[4].1);
        }
        set_cmdline_external(&mut o, !self.disable_ext_cmdline);
        assert(ui_options(o) =~= want) by {
            lemma_add_new_option(want.take(5), want[5].0, want[5].1);
        }
        o
    }

    /// The command line of the embedded Neovim.
    pub fn nvim_cmd(&self) -> (cmd: Vec<String>)
        ensures
            strings_view(cmd@) == nvim_cmd_seq(
                self.nvim_path@,
                self.gnvim_rtp@,
                strings_view(self.nvim_args@),
                strings_view(self.open_files@),
            ),
    {
        let mut rtp = to_string("let &rtp.=',");
        rtp.append(self.gnvim_rtp.as_str());
        rtp.append("'");
        let mut args: Vec<String> = Vec::new();
        args.push(to_string(self.nvim_path.as_str()));
        args.push(to_string("--embed"));
        args.push(to_string("--cmd"));
        args.push(to_string("let g:gnvim=1"));
        args.push(to_string("--cmd"));
        args.push(to_string("set termguicolors"));
        args.push(to_string("--cmd"));
        args.push(rtp);
        let ghost head = strings_view(args@);
        push_all(&mut args, &self.nvim_args);
        push_all(&mut args, &self.open_files);
        assert(strings_view(args@) =~= nvim_cmd_seq(
            self.nvim_path@,
            self.gnvim_rtp@,
            strings_view(self.nvim_args@),
            strings_view(self.open_files@),
        ));
        args
    }
}

/// What `parse_geometry` gives for `input`: `width` and `height` as `i32`
/// around one `x`, or the message of what is wrong.
pub open spec fn geometry_of(input: Seq<char>) -> Result<(i32, i32), Seq<char>> {
    let parts = split_seq(input, 'x');
    if parts.len() != 2 {
        Err("must be of form 'width'x'height'"@)
    } else {
        match (
            parse_signed(parts[0], i32::MIN as int, i32::MAX as int),
            parse_signed(parts[1], i32::MIN as int, i32::MAX as int),
        ) {
            (Some(w), Some(h)) => Ok((w as i32, h as i32)),
            _ => Err("at least one argument wasn't an integer"@),
        }
    }
}

/// Parses a window geometry of the form `<width>x<height>`.
pub fn parse_geometry(input: &str) -> (r: Result<(i32, i32), String>)
    ensures
        match (r, geometry_of(input@)) {
            (Ok(g), Ok(s)) => g == s,
            (Err(m), Err(s)) => m@ == s,
            _ => false,
        },
{
    let parts = split_char(input, 'x');
    if parts.len() != 2 {
        return Err(to_string("must be of form 'width'x'height'"));
    }
    assert(strings_view(parts@)[0] == parts@[0]@);
    assert(strings_view(parts@)[1] == parts@[1]@);
    match (parse_i32(parts[0].as_str()), parse_i32(parts[1].as_str())) {
        (Some(w), Some(h)) => Ok((w, h)),
        _ => Err(to_string("at least one argument wasn't an integer")),
    }
}

} // verus!
