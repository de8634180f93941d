use vstd::prelude::*;
use crate::cli::LsOptions;
use crate::entry::{kept, to_fs_entries, FsEntry};
use crate::layout::{
    dir_header, display_names, has_header, header_text, listing_block, row_text, spec_should_color,
    to_format_entries, OutputFormat,
};

verus! {

/// A path given to list, with what was read of it: the entry itself and, for a
/// directory whose contents are listed, the entries in it in any order.
#[derive(Debug)]
pub struct InputEntry {
    pub entry: FsEntry,
    pub contents: Vec<FsEntry>,
}

/// Whether an input is listed by its contents.
pub open spec fn expands(entry: FsEntry, opts: LsOptions) -> bool {
    opts.list_dir_contents && entry.meta.is_dir
}

/// Whether an input is listed by its contents: a directory, unless
/// directories are to be listed as entries themselves.
pub fn should_expand(entry: &FsEntry, opts: &LsOptions) -> (r: bool)
    ensures
        r == expands(*entry, *opts),
{
    opts.list_dir_contents && entry.meta.is_dir
}

/// The number of lines of a block with the given header and entries.
pub open spec fn block_len(header: bool, n: nat) -> nat {
    (if header { 1nat } else { 0nat }) + n
}

/// The lines that list `entries` under the directory `root`, if any: its
/// header where one is due, then a row per entry, in order, in the layout of
/// the options. Short rows of undecorated names are the names themselves.
pub fn render_entries(root: Option<&FsEntry>, entries: &Vec<FsEntry>, opts: &LsOptions, is_tty: bool) -> (r: Vec<String>)
    ensures
        r@.len() == block_len(has_header(root, *opts), entries@.len()),
        has_header(root, *opts) ==> (root matches Some(d) && r@[0]@ == header_text(d.path@)),
        opts.output_format == OutputFormat::Short && !spec_should_color(opts.color, is_tty) ==> forall|i: int|
            0 <= i < entries@.len() ==> r@[(block_len(has_header(root, *opts), 0) + i)]@
                == (#[trigger] entries@[i]).name@,
{
    let fmt = to_format_entries(entries, opts);
    let names = display_names(&fmt, &opts.color, is_tty);
    let header = dir_header(root, opts);
    let ghost shown = names@;
    let ghost h: int = if header is Some { 1 } else { 0 };
    let r = listing_block(header, &fmt, names, opts.output_format);
    proof {
        if opts.output_format == OutputFormat::Short && !spec_should_color(opts.color, is_tty) {
            assert forall|i: int| 0 <= i < entries@.len() implies r@[(block_len(
                has_header(root, *opts),
                0,
            ) + i)]@ == (#[trigger] entries@[i]).name@ by {
                assert(shown[i]@ == fmt@[i].file_name@);
                assert(h == block_len(has_header(root, *opts), 0));
                assert(r@[h + i]@ == row_text(opts.output_format, fmt@, i, shown[i]@));
                assert(r@[(block_len(has_header(root, *opts), 0) + i)]@ == row_text(
                    opts.output_format,
                    fmt@,
                    i,
                    shown[i]@,
                ));
            }
        }
    }
    r
}

/// The lines of one input: its contents for a directory listed by them,
/// filtered and sorted, under a header where several paths are listed; else
/// one row for the entry itself.
pub open spec fn input_block_len(input: InputEntry, opts: LsOptions) -> nat {
    if expands(input.entry, opts) {
        block_len(opts.show_dir_headers, kept(input.contents@, opts.output_filter).len())
    } else {
        1
    }
}

/// The lines printed for each input path, in the order given. It takes every
/// input already read, so that a path that cannot be read stops a listing
/// before any of it is printed, never halfway through.
pub fn ls_print_input(opts: &LsOptions, inputs: Vec<InputEntry>, is_tty: bool) -> (r: Vec<Vec<String>>)
    ensures
        r@.len() == inputs@.len(),
        forall|i: int|
            0 <= i < r@.len() ==> (#[trigger] r@[i])@.len() == input_block_len(inputs@[i], *opts),
        forall|i: int|
            0 <= i < r@.len() && opts.show_dir_headers && expands(inputs@[i].entry, *opts) ==> (
            #[trigger] r@[i])@[0]@ == header_text(inputs@[i].entry.path@),
{
    let ghost all = inputs@;
    let n = inputs.len();
    let mut rest = inputs;
    let mut acc: Vec<Vec<String>> = Vec::new();
    let mut i: usize = 0;
    while i < n
        invariant
            n == all.len(),
            i <= n,
            rest@ == all.subrange(i as int, n as int),
            acc@.len() == i,
            forall|k: int|
                0 <= k < i ==> (#[trigger] acc@[k])@.len() == input_block_len(all[k], *opts),
            forall|k: int|
                0 <= k < i && opts.show_dir_headers && expands(all[k].entry, *opts) ==> (
                #[trigger] acc@[k])@[0]@ == header_text(all[k].entry.path@),
        decreases n - i,
    {
        let input = rest.remove(0);
        let ghost contents = input.contents@;
        let lines = if should_expand(&input.entry, opts) {
            let entries = to_fs_entries(input.contents, opts.output_filter);
            proof {
                entries@.to_multiset_ensures();
                kept(contents, opts.output_filter).to_multiset_ensures();
            }
            render_entries(Some(&input.entry), &entries, opts, is_tty)
        } else {
            let mut single: Vec<FsEntry> = Vec::new();
            single.push(input.entry);
            render_entries(None, &single, opts, is_tty)
        };
        acc.push(lines);
        i = i + 1;
    }
    acc
}

} // verus!
