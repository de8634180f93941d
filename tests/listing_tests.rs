use ls::cli::{parse_cli, parse_color, CliArgs, LsOptions};
use ls::entry::{is_hidden, to_fs_entries, FsEntry, Meta, OutputFilter};
use ls::layout::{
    color_file_name, dir_header, group_long_form, long_form, max_len, should_color, style_of,
    to_format_entry, Column, ColorOption, FormatEntry, NameStyle, OutputFormat,
};
use ls::listing::{ls_print_input, should_expand, InputEntry};
use ls::perms::{file_type_string, permissions_string};
use ls::size::SizeFormat;

fn meta(mode: u32, is_dir: bool) -> Meta {
    Meta {
        is_file: !is_dir,
        is_dir: is_dir,
        is_symlink: false,
        is_block_device: false,
        is_char_device: false,
        is_fifo: false,
        is_socket: false,
        mode: mode,
        nlink: 1,
        uid: 0,
        gid: 0,
        len: 0,
        mtime: 0,
    }
}

fn entry(dir: &str, name: &str) -> FsEntry {
    FsEntry {
        path: format!("{}/{}", dir, name),
        name: name.to_string(),
        meta: meta(0o644, false),
    }
}

fn dir_entry(path: &str) -> FsEntry {
    FsEntry { path: path.to_string(), name: path.to_string(), meta: meta(0o755, true) }
}

fn options(paths: &[&str]) -> LsOptions {
    parse_cli(CliArgs {
        all: false,
        almost_all: false,
        dir_name_only: false,
        group_long: false,
        human_sizes: false,
        long: false,
        numeric_ids: false,
        si_sizes: false,
        color: ColorOption::Never,
        paths: paths.iter().map(|p| p.to_string()).collect(),
    })
}

fn fe(nlinks: &str, user: &str, group: &str, size: &str, name: &str) -> FormatEntry {
    FormatEntry {
        permissions: "-rw-r--r--".to_string(),
        nlinks: nlinks.to_string(),
        user: user.to_string(),
        uid: 0,
        group: group.to_string(),
        gid: 0,
        size: size.to_string(),
        timestamp: "Jan 01 00:00".to_string(),
        file_name: name.to_string(),
        file_type: "-".to_string(),
    }
}

fn names(v: &[FsEntry]) -> Vec<String> {
    v.iter().map(|e| e.name.clone()).collect()
}

#[test]
fn permission_strings() {
    assert_eq!(permissions_string(&meta(0o755, true)), "drwxr-xr-x");
    assert_eq!(permissions_string(&meta(0o644, false)), "-rw-r--r--");
    assert_eq!(permissions_string(&meta(0o100640, false)), "-rw-r-----");
    assert_eq!(permissions_string(&meta(0, false)), "----------");
}

#[test]
fn type_glyph_precedence() {
    let mut m = meta(0o777, false);
    m.is_file = false;
    m.is_fifo = true;
    assert_eq!(file_type_string(&m), "p");
    m.is_socket = true;
    assert_eq!(file_type_string(&m), "p");
    m.is_fifo = false;
    assert_eq!(file_type_string(&m), "s");
    m.is_char_device = true;
    assert_eq!(file_type_string(&m), "c");
    m.is_block_device = true;
    assert_eq!(file_type_string(&m), "b");
    m.is_symlink = true;
    assert_eq!(file_type_string(&m), "l");
    m.is_dir = true;
    assert_eq!(file_type_string(&m), "d");
    m.is_file = true;
    assert_eq!(file_type_string(&m), "-");
    assert_eq!(file_type_string(&Meta { is_file: false, is_dir: false, ..meta(0, false) }), "?");
}

#[test]
fn permission_round_trip_all_modes() {
    for mode in 0u32..512 {
        let s = permissions_string(&meta(mode, false));
        let chars: Vec<char> = s.chars().skip(1).collect();
        assert_eq!(chars.len(), 9);
        let mut back = 0u32;
        for (i, c) in chars.iter().enumerate() {
            if *c != '-' {
                back |= 1 << (8 - i);
            }
        }
        assert_eq!(back, mode);
    }
}

#[test]
fn visible_filter_drops_hidden_entries() {
    let raw = vec![entry("d", "b.txt"), entry("d", ".hidden"), entry("d", "a.txt")];
    let r = to_fs_entries(raw, OutputFilter::Visible);
    assert_eq!(names(&r), vec!["a.txt", "b.txt"]);
}

#[test]
fn all_filter_keeps_everything_sorted() {
    let raw = vec![entry("d", "b.txt"), entry("d", "a.txt"), entry("d", ".hidden")];
    let r = to_fs_entries(raw, OutputFilter::All);
    assert_eq!(names(&r), vec![".hidden", "a.txt", "b.txt"]);
    let raw = vec![entry("d", "b.txt"), entry("d", "a.txt"), entry("d", ".hidden")];
    let r = to_fs_entries(raw, OutputFilter::AlmostAll);
    assert_eq!(names(&r), vec![".hidden", "a.txt", "b.txt"]);
}

#[test]
fn sorting_is_plain_byte_order() {
    let raw = vec![entry("d", "b"), entry("d", "B"), entry("d", "a"), entry("d", "ab"), entry("d", "A")];
    let r = to_fs_entries(raw, OutputFilter::All);
    assert_eq!(names(&r), vec!["A", "B", "a", "ab", "b"]);
}

#[test]
fn empty_directory_gives_no_entries() {
    assert!(to_fs_entries(Vec::new(), OutputFilter::Visible).is_empty());
}

#[test]
fn listing_is_independent_of_read_order() {
    let a = to_fs_entries(vec![entry("d", "x"), entry("d", "y"), entry("d", "z")], OutputFilter::All);
    let b = to_fs_entries(vec![entry("d", "z"), entry("d", "x"), entry("d", "y")], OutputFilter::All);
    assert_eq!(names(&a), names(&b));
}

#[test]
fn hidden_names() {
    assert!(is_hidden(&entry("d", ".x")));
    assert!(!is_hidden(&entry("d", "x.")));
    assert!(!is_hidden(&FsEntry { path: String::new(), name: String::new(), meta: meta(0, false) }));
}

#[test]
fn entries_equal_by_path() {
    let mut a = entry("d", "x");
    let b = entry("d", "x");
    a.meta.len = 99;
    assert!(a == b);
    assert!(entry("d", "x") != entry("d", "y"));
}

#[test]
fn size_column_is_right_aligned_to_widest() {
    let entries = vec![fe("1", "root", "root", "5", "a"), fe("1", "root", "root", "120", "b"), fe("1", "root", "root", "1.0K", "c")];
    assert_eq!(max_len(&entries, Column::Size), 4);
    let shown: Vec<String> = vec!["a".into(), "b".into(), "c".into()];
    let rows = long_form(&entries, &shown);
    assert_eq!(rows[0], "-rw-r--r-- 1 root root    5 Jan 01 00:00 a");
    assert_eq!(rows[1], "-rw-r--r-- 1 root root  120 Jan 01 00:00 b");
    assert_eq!(rows[2], "-rw-r--r-- 1 root root 1.0K Jan 01 00:00 c");
}

#[test]
fn owner_and_group_are_left_aligned() {
    let entries = vec![fe("12", "alice", "staff", "5", "a"), fe("3", "bo", "wheel2", "6", "b")];
    let shown: Vec<String> = vec!["a".into(), "b".into()];
    let rows = long_form(&entries, &shown);
    assert_eq!(rows[0], "-rw-r--r-- 12 alice staff  5 Jan 01 00:00 a");
    assert_eq!(rows[1], "-rw-r--r--  3 bo    wheel2 6 Jan 01 00:00 b");
    let rows = group_long_form(&entries, &shown);
    assert_eq!(rows[0], "-rw-r--r-- 12 staff  5 Jan 01 00:00 a");
    assert_eq!(rows[1], "-rw-r--r--  3 wheel2 6 Jan 01 00:00 b");
}

#[test]
fn widths_of_an_empty_batch() {
    assert_eq!(max_len(&Vec::new(), Column::Links), 0);
}

#[test]
fn color_policy() {
    assert!(should_color(ColorOption::Always, false));
    assert!(!should_color(ColorOption::Never, true));
    assert!(should_color(ColorOption::Auto, true));
    assert!(!should_color(ColorOption::Auto, false));
}

#[test]
fn styles_by_type_glyph() {
    assert_eq!(style_of(&"b".to_string(), true), NameStyle::Device);
    assert_eq!(style_of(&"c".to_string(), true), NameStyle::Device);
    assert_eq!(style_of(&"d".to_string(), true), NameStyle::Directory);
    assert_eq!(style_of(&"-".to_string(), true), NameStyle::Plain);
    assert_eq!(style_of(&"d".to_string(), false), NameStyle::Plain);
}

#[test]
fn names_pass_through_undecorated() {
    assert_eq!(color_file_name("x".to_string(), &"d".to_string(), &ColorOption::Never, true), "x");
    assert_eq!(color_file_name("x".to_string(), &"-".to_string(), &ColorOption::Always, true), "x");
    let d = color_file_name("x".to_string(), &"d".to_string(), &ColorOption::Always, false);
    assert!(d == "x" || (d.contains("x") && d.ends_with("\x1B[0m")));
}

#[test]
fn format_entry_fields() {
    let mut opts = options(&["."]);
    opts.show_numeric_ids = true;
    opts.size_format = SizeFormat::Human;
    let mut e = entry("d", "f");
    e.meta.uid = 1000;
    e.meta.gid = 100;
    e.meta.nlink = 3;
    e.meta.len = 2048;
    let f = to_format_entry(&e, &opts);
    assert_eq!(f.permissions, "-rw-r--r--");
    assert_eq!(f.nlinks, "3");
    assert_eq!(f.user, "1000");
    assert_eq!(f.group, "100");
    assert_eq!(f.size, "2.0K");
    assert_eq!(f.file_name, "f");
    assert_eq!(f.file_type, "-");
    assert_eq!(f.timestamp.chars().count(), 12);
}

#[test]
fn parse_cli_defaults_and_precedence() {
    let o = options(&[]);
    assert_eq!(o.paths, vec!["."]);
    assert!(!o.show_dir_headers);
    assert!(o.list_dir_contents);
    assert_eq!(o.output_format, OutputFormat::Short);
    assert_eq!(o.size_format, SizeFormat::Machine);
    assert_eq!(o.output_filter, OutputFilter::Visible);
    let o = parse_cli(CliArgs {
        all: true,
        almost_all: true,
        dir_name_only: true,
        group_long: true,
        human_sizes: true,
        long: true,
        numeric_ids: true,
        si_sizes: true,
        color: ColorOption::Auto,
        paths: vec!["a".to_string(), "b".to_string()],
    });
    assert!(o.show_dir_headers);
    assert!(!o.list_dir_contents);
    assert!(o.show_numeric_ids);
    assert_eq!(o.output_format, OutputFormat::GroupLong);
    assert_eq!(o.size_format, SizeFormat::HumanSI);
    assert_eq!(o.output_filter, OutputFilter::All);
    assert_eq!(o.color, ColorOption::Auto);
}

#[test]
fn color_names() {
    assert_eq!(parse_color("always"), Some(ColorOption::Always));
    assert_eq!(parse_color("auto"), Some(ColorOption::Auto));
    assert_eq!(parse_color("never"), Some(ColorOption::Never));
    assert_eq!(parse_color("sometimes"), None);
}

#[test]
fn headers_precede_each_directory_when_several_paths() {
    let opts = options(&["one", "two"]);
    let inputs = vec![
        InputEntry { entry: dir_entry("one"), contents: vec![entry("one", "b"), entry("one", "a")] },
        InputEntry { entry: dir_entry("two"), contents: vec![entry("two", "c")] },
    ];
    let out = ls_print_input(&opts, inputs, false);
    assert_eq!(out, vec![vec!["one:", "a", "b"], vec!["two:", "c"]]);
}

#[test]
fn no_header_for_a_single_path() {
    let opts = options(&["one"]);
    let inputs = vec![InputEntry { entry: dir_entry("one"), contents: vec![entry("one", "b"), entry("one", ".a")] }];
    let out = ls_print_input(&opts, inputs, false);
    assert_eq!(out, vec![vec!["b"]]);
}

#[test]
fn files_and_listed_directories_get_no_header() {
    let mut opts = options(&["f", "one"]);
    let file = entry("x", "f");
    assert!(!should_expand(&file, &opts));
    assert_eq!(dir_header(Some(&file), &opts), None);
    assert_eq!(dir_header(Some(&dir_entry("one")), &opts), Some("one:".to_string()));
    opts.list_dir_contents = false;
    let inputs = vec![
        InputEntry { entry: file, contents: Vec::new() },
        InputEntry { entry: dir_entry("one"), contents: vec![entry("one", "z")] },
    ];
    let out = ls_print_input(&opts, inputs, false);
    assert_eq!(out, vec![vec!["f"], vec!["one"]]);
}
