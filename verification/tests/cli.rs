use gnvim::args::{parse_geometry, Args};
use gnvim::text::{parse_i32, parse_usize};

fn args_with(nvim_args: Vec<&str>, files: Vec<&str>) -> Args {
    Args {
        print_nvim_cmd: false,
        nvim_path: "nvim".to_string(),
        gnvim_rtp: "/usr/local/share/gnvim/runtime".to_string(),
        open_files: files.into_iter().map(String::from).collect(),
        nvim_args: nvim_args.into_iter().map(String::from).collect(),
        disable_ext_popupmenu: false,
        disable_ext_cmdline: false,
        disable_ext_tabline: false,
        prefer_dark_theme: false,
        geometry: (1280, 720),
    }
}

#[test]
fn nvim_cmd_order() {
    let a = args_with(vec!["-u", "NONE"], vec!["a.txt", "b.txt"]);
    assert_eq!(
        a.nvim_cmd(),
        vec![
            "nvim",
            "--embed",
            "--cmd",
            "let g:gnvim=1",
            "--cmd",
            "set termguicolors",
            "--cmd",
            "let &rtp.=',/usr/local/share/gnvim/runtime'",
            "-u",
            "NONE",
            "a.txt",
            "b.txt",
        ]
    );
}

#[test]
fn nvim_cmd_plain() {
    let a = args_with(vec![], vec![]);
    assert_eq!(a.nvim_cmd().len(), 8);
}

#[test]
fn geometry_parses() {
    assert_eq!(parse_geometry("1280x720"), Ok((1280, 720)));
    assert_eq!(parse_geometry("-5x+7"), Ok((-5, 7)));
    assert_eq!(parse_geometry("0x0"), Ok((0, 0)));
}

#[test]
fn geometry_errors() {
    assert_eq!(parse_geometry("1280"), Err("must be of form 'width'x'height'".to_string()));
    assert_eq!(parse_geometry("1x2x3"), Err("must be of form 'width'x'height'".to_string()));
    assert_eq!(parse_geometry("ax720"), Err("at least one argument wasn't an integer".to_string()));
    assert_eq!(parse_geometry("x720"), Err("at least one argument wasn't an integer".to_string()));
    assert_eq!(
        parse_geometry("99999999999x1"),
        Err("at least one argument wasn't an integer".to_string())
    );
    assert_eq!(parse_geometry("2147483647x-2147483648"), Ok((i32::MAX, i32::MIN)));
    assert_eq!(
        parse_geometry("2147483648x1"),
        Err("at least one argument wasn't an integer".to_string())
    );
}

#[test]
fn number_parsing() {
    assert_eq!(parse_usize("42"), Some(42));
    assert_eq!(parse_usize("+7"), Some(7));
    assert_eq!(parse_usize("-7"), None);
    assert_eq!(parse_usize("+"), None);
    assert_eq!(parse_usize(""), None);
    assert_eq!(parse_usize("18446744073709551616"), None);
    assert_eq!(parse_i32("-2147483648"), Some(i32::MIN));
    assert_eq!(parse_i32("-"), None);
    assert_eq!(parse_i32("1a"), None);
}

fn ui_map(entries: Vec<(&str, bool)>) -> nvim_rs::Value {
    nvim_rs::Value::Map(entries.into_iter().map(|(k, v)| (k.into(), v.into())).collect())
}

#[test]
fn nvim_ui_opts_default() {
    let a = args_with(vec![], vec![]);
    assert_eq!(
        a.nvim_ui_opts().to_value_map(),
        ui_map(vec![
            ("rgb", true),
            ("ext_linegrid", true),
            ("ext_multigrid", true),
            ("ext_popupmenu", true),
            ("ext_tabline", true),
            ("ext_cmdline", true),
        ])
    );
}

#[test]
fn nvim_ui_opts_disabled_widgets() {
    let mut a = args_with(vec![], vec![]);
    a.disable_ext_popupmenu = true;
    a.disable_ext_cmdline = true;
    assert_eq!(
        a.nvim_ui_opts().to_value_map(),
        ui_map(vec![
            ("rgb", true),
            ("ext_linegrid", true),
            ("ext_multigrid", true),
            ("ext_popupmenu", false),
            ("ext_tabline", true),
            ("ext_cmdline", false),
        ])
    );
}
