use vstd::prelude::*;
use crate::entry::OutputFilter;
use crate::layout::{ColorOption, OutputFormat};
use crate::size::SizeFormat;

verus! {

/// The switches and operands of one invocation, as given on the command line.
#[derive(Debug, Clone)]
pub struct CliArgs {
    /// `-a`: show all entries, hidden ones too.
    pub all: bool,
    /// `-A`: like `-a`.
    pub almost_all: bool,
    /// `-d`: show directories themselves, not their contents.
    pub dir_name_only: bool,
    /// `-g`: long form without the owner column.
    pub group_long: bool,
    /// `-h`: sizes in powers of 1024.
    pub human_sizes: bool,
    /// `-l`: long form.
    pub long: bool,
    /// `-n`: numeric user and group ids instead of names.
    pub numeric_ids: bool,
    /// `--si`: sizes in powers of 1000.
    pub si_sizes: bool,
    /// `--color`.
    pub color: ColorOption,
    /// The paths to list; none stands for the current directory.
    pub paths: Vec<String>,
}

/// The options that drive one listing.
#[derive(Debug, Clone)]
pub struct LsOptions {
    pub paths: Vec<String>,
    pub output_format: OutputFormat,
    pub size_format: SizeFormat,
    pub color: ColorOption,
    pub output_filter: OutputFilter,
    /// Each listed directory is headed by its path: set when more than one
    /// path is listed.
    pub show_dir_headers: bool,
    /// Directories are listed by their contents, not as entries themselves.
    pub list_dir_contents: bool,
    /// Owners and groups are shown by their numeric ids.
    pub show_numeric_ids: bool,
}

/// The color policy named on the command line.
pub open spec fn color_named(name: Seq<char>) -> Option<ColorOption> {
    if name == seq!['a', 'l', 'w', 'a', 'y', 's'] {
        Some(ColorOption::Always)
    } else if name == seq!['a', 'u', 't', 'o'] {
        Some(ColorOption::Auto)
    } else if name == seq!['n', 'e', 'v', 'e', 'r'] {
        Some(ColorOption::Never)
    } else {
        None
    }
}

/// The color policy of a `--color` value: `always`, `auto` or `never`.
pub fn parse_color(name: &str) -> (r: Option<ColorOption>)
    ensures
        r == color_named(name@),
{
    proof {
        reveal_strlit("always");
        reveal_strlit("auto");
        reveal_strlit("never");
        assert("always"@ =~= seq!['a', 'l', 'w', 'a', 'y', 's']);
        assert("auto"@ =~= seq!['a', 'u', 't', 'o']);
        assert("never"@ =~= seq!['n', 'e', 'v', 'e', 'r']);
    }
    let given = String::from_str(name);
    if given == String::from_str("always") {
        Some(ColorOption::Always)
    } else if given == String::from_str("auto") {
        Some(ColorOption::Auto)
    } else if given == String::from_str("never") {
        Some(ColorOption::Never)
    } else {
        None
    }
}

/// The listing options of an invocation. `-g` wins over `-l`, `--si` over
/// `-h` and `-a` over `-A`; with no path the current directory is listed.
pub fn parse_cli(args: CliArgs) -> (r: LsOptions)
    ensures
        args.paths@.len() == 0 ==> r.paths@.len() == 1 && r.paths@[0]@ == seq!['.'],
        args.paths@.len() > 0 ==> r.paths@ == args.paths@,
        r.show_dir_headers == (r.paths@.len() > 1),
        r.list_dir_contents == !args.dir_name_only,
        r.show_numeric_ids == args.numeric_ids,
        r.color == args.color,
        r.output_format == (if args.group_long {
            OutputFormat::GroupLong
        } else if args.long {
            OutputFormat::Long
        } else {
            OutputFormat::Short
        }),
        r.size_format == (if args.si_sizes {
            SizeFormat::HumanSI
        } else if args.human_sizes {
            SizeFormat::Human
        } else {
            SizeFormat::Machine
        }),
        r.output_filter == (if args.all {
            OutputFilter::All
        } else if args.almost_all {
            OutputFilter::AlmostAll
        } else {
            OutputFilter::Visible
        }),
{
    let paths = if args.paths.len() == 0 {
        proof {
            reveal_strlit(".");
        }
        let mut v: Vec<String> = Vec::new();
        v.push(String::from_str("."));
        v
    } else {
        args.paths
    };
    let num_paths = paths.len();
    LsOptions {
        paths: paths,
        show_dir_headers: num_paths > 1,
        list_dir_contents: !args.dir_name_only,
        show_numeric_ids: args.numeric_ids,
        color: args.color,
        output_format: if args.group_long {
            OutputFormat::GroupLong
        } else if args.long {
            OutputFormat::Long
        } else {
            OutputFormat::Short
        },
        size_format: if args.si_sizes {
            SizeFormat::HumanSI
        } else if args.human_sizes {
            SizeFormat::Human
        } else {
            SizeFormat::Machine
        },
        output_filter: if args.all {
            OutputFilter::All
        } else if args.almost_all {
            OutputFilter::AlmostAll
        } else {
            OutputFilter::Visible
        },
    }
}

} // verus!
