use vstd::prelude::*;
use crate::cli::LsOptions;
use crate::entry::FsEntry;
use crate::external::{
    group_name_of, local_timestamp, paint_device, paint_dir, painted, user_name_of,
};
use crate::perms::{file_type_string, permissions_string, permissions_text, type_glyph};
use crate::size::{decimal, decimal_string, size_string, size_text};

verus! {

/// The row layout of a listing.
#[derive(Debug, Clone, Copy, PartialEq, Eq, Structural)]
pub enum OutputFormat {
    /// Names only.
    Short,
    /// Permissions, links, owner, group, size, time and name.
    Long,
    /// Like `Long`, without the owner.
    GroupLong,
}

/// When names are decorated with colors.
#[derive(Debug, Clone, Copy, PartialEq, Eq, Structural)]
pub enum ColorOption {
    Always,
    /// Only when the output is an interactive terminal.
    Auto,
    Never,
}


/// The rendered fields of one entry.
#[derive(Debug, Clone)]
pub struct FormatEntry {
    /// Type glyph and permissions.
    pub permissions: String,
    pub nlinks: String,
    /// The owner as shown: a name, or a numeric id.
    pub user: String,
    pub uid: u32,
    /// The group as shown: a name, or a numeric id.
    pub group: String,
    pub gid: u32,
    pub size: String,
    pub timestamp: String,
    pub file_name: String,
    /// The type glyph alone.
    pub file_type: String,
}

/// The padded columns of the long layouts.
#[derive(Debug, Clone, Copy, PartialEq, Eq, Structural)]
pub enum Column {
    Links,
    User,
    Group,
    Size,
    Timestamp,
}

/// The text of a column of an entry.
pub open spec fn field(fe: FormatEntry, col: Column) -> Seq<char> {
    match col {
        Column::Links => fe.nlinks@,
        Column::User => fe.user@,
        Column::Group => fe.group@,
        Column::Size => fe.size@,
        Column::Timestamp => fe.timestamp@,
    }
}

/// The widest text of a column over all the entries, 0 for none.
pub open spec fn max_width(s: Seq<FormatEntry>, col: Column) -> nat
    decreases s.len(),
{
    if s.len() == 0 {
        0
    } else {
        let rest = max_width(s.drop_last(), col);
        let w = field(s.last(), col).len();
        if w > rest {
            w
        } else {
            rest
        }
    }
}

/// `n` spaces.
pub open spec fn spaces(n: nat) -> Seq<char> {
    Seq::new(n, |i: int| ' ')
}

/// `s` right-aligned in `w` columns.
pub open spec fn pad_left(s: Seq<char>, w: nat) -> Seq<char> {
    if s.len() < w {
        spaces((w - s.len()) as nat) + s
    } else {
        s
    }
}

/// `s` left-aligned in `w` columns.
pub open spec fn pad_right(s: Seq<char>, w: nat) -> Seq<char> {
    if s.len() < w {
        s + spaces((w - s.len()) as nat)
    } else {
        s
    }
}

/// The shown name of an owner or group: its name, or `?` where it has none.
pub open spec fn name_or_unknown(name: Option<String>) -> Seq<char> {
    match name {
        Some(n) => n@,
        None => seq!['?'],
    }
}

/// `fe` holds the rendered fields of `file`, with `user`, `group` and
/// `timestamp` as looked up for it.
pub open spec fn format_entry_of(
    fe: FormatEntry,
    file: FsEntry,
    user: Option<String>,
    group: Option<String>,
    timestamp: Option<String>,
    opts: LsOptions,
) -> bool {
    &&& fe.permissions@ == permissions_text(file.meta)
    &&& fe.nlinks@ == decimal(file.meta.nlink as nat)
    &&& fe.uid == file.meta.uid
    &&& fe.gid == file.meta.gid
    &&& fe.user@ == (if opts.show_numeric_ids {
        decimal(file.meta.uid as nat)
    } else {
        name_or_unknown(user)
    })
    &&& fe.group@ == (if opts.show_numeric_ids {
        decimal(file.meta.gid as nat)
    } else {
        name_or_unknown(group)
    })
    &&& fe.size@ == size_text(file.meta.len as nat, opts.size_format)
    &&& fe.timestamp@ == name_or_unknown(timestamp)
    &&& fe.file_name@ == file.name@
    &&& fe.file_type@ == seq![type_glyph(file.meta.spec_kind())]
}

/// The fields of `fe` that do not depend on a lookup are those of `file`.
pub open spec fn format_entry_fixed(fe: FormatEntry, file: FsEntry, opts: LsOptions) -> bool {
    &&& fe.permissions@ == permissions_text(file.meta)
    &&& fe.nlinks@ == decimal(file.meta.nlink as nat)
    &&& fe.uid == file.meta.uid
    &&& fe.gid == file.meta.gid
    &&& opts.show_numeric_ids ==> fe.user@ == decimal(file.meta.uid as nat)
    &&& opts.show_numeric_ids ==> fe.group@ == decimal(file.meta.gid as nat)
    &&& fe.size@ == size_text(file.meta.len as nat, opts.size_format)
    &&& fe.file_name@ == file.name@
    &&& fe.file_type@ == seq![type_glyph(file.meta.spec_kind())]
}

/// A looked-up name, or `?`.
fn name_or_unknown_string(name: Option<String>) -> (r: String)
    ensures
        r@ == name_or_unknown(name),
{
    proof {
        reveal_strlit("?");
    }
    match name {
        Some(n) => n,
        None => String::from_str("?"),
    }
}

/// The rendered fields of `file`, given its owner's and group's names and its
/// time as looked up.
pub fn build_format_entry(
    file: &FsEntry,
    user: Option<String>,
    group: Option<String>,
    timestamp: Option<String>,
    opts: &LsOptions,
) -> (r: FormatEntry)
    ensures
        format_entry_of(r, *file, user, group, timestamp, *opts),
{
    let meta = &file.meta;
    let user_text = if opts.show_numeric_ids {
        decimal_string(meta.uid as u64)
    } else {
        name_or_unknown_string(user)
    };
    let group_text = if opts.show_numeric_ids {
        decimal_string(meta.gid as u64)
    } else {
        name_or_unknown_string(group)
    };
    let file_name = String::from_str(file.name.as_str());
    FormatEntry {
        permissions: permissions_string(meta),
        nlinks: decimal_string(meta.nlink),
        user: user_text,
        uid: meta.uid,
        group: group_text,
        gid: meta.gid,
        size: size_string(meta.len, opts.size_format),
        timestamp: name_or_unknown_string(timestamp),
        file_name: file_name,
        file_type: file_type_string(meta),
    }
}

/// The rendered fields of `file`, its owner, group and time looked up in the
/// system.
pub fn to_format_entry(file: &FsEntry, opts: &LsOptions) -> (r: FormatEntry)
    ensures
        format_entry_fixed(r, *file, *opts),
{
    let (user, group) = if opts.show_numeric_ids {
        (None, None)
    } else {
        (user_name_of(file.meta.uid), group_name_of(file.meta.gid))
    };
    let timestamp = local_timestamp(file.meta.mtime);
    build_format_entry(file, user, group, timestamp, opts)
}

/// The rendered fields of each entry, in order.
pub fn to_format_entries(entries: &Vec<FsEntry>, opts: &LsOptions) -> (r: Vec<FormatEntry>)
    ensures
        r@.len() == entries@.len(),
        forall|i: int| 0 <= i < r@.len() ==> format_entry_fixed(#[trigger] r@[i], entries@[i], *opts),
{
    let mut acc: Vec<FormatEntry> = Vec::new();
    let mut i: usize = 0;
    while i < entries.len()
        invariant
            i <= entries@.len(),
            acc@.len() == i,
            forall|k: int| 0 <= k < i ==> format_entry_fixed(#[trigger] acc@[k], entries@[k], *opts),
        decreases entries@.len() - i,
    {
        acc.push(to_format_entry(&entries[i], opts));
        i = i + 1;
    }
    acc
}


/// The text of a column of an entry.
fn field_of(fe: &FormatEntry, col: Column) -> (r: &String)
    ensures
        r@ == field(*fe, col),
{
    match col {
        Column::Links => &fe.nlinks,
        Column::User => &fe.user,
        Column::Group => &fe.group,
        Column::Size => &fe.size,
        Column::Timestamp => &fe.timestamp,
    }
}

/// The width of a column: its widest text over all the entries.
pub fn max_len(entries: &Vec<FormatEntry>, col: Column) -> (r: usize)
    ensures
        r == max_width(entries@, col),
{
    let mut max: usize = 0;
    let mut i: usize = 0;
    assert(entries@.subrange(0, 0) =~= Seq::<FormatEntry>::empty());
    while i < entries.len()
        invariant
            i <= entries@.len(),
            max == max_width(entries@.subrange(0, i as int), col),
        decreases entries@.len() - i,
    {
        let value = field_of(&entries[i], col).as_str().unicode_len();
        assert(entries@.subrange(0, i + 1).drop_last() =~= entries@.subrange(0, i as int));
        if value > max {
            max = value;
        }
        i = i + 1;
    }
    assert(entries@.subrange(0, entries@.len() as int) =~= entries@);
    max
}

/// Appends `n` spaces.
fn push_spaces(acc: &mut String, n: usize)
    ensures
        final(acc)@ == old(acc)@ + spaces(n as nat),
{
    let ghost start = acc@;
    let mut i: usize = 0;
    assert(acc@ =~= start + spaces(0));
    while i < n
        invariant
            i <= n,
            acc@ =~= start + spaces(i as nat),
        decreases n - i,
    {
        proof {
            reveal_strlit(" ");
        }
        assert(spaces((i + 1) as nat) =~= spaces(i as nat).push(' '));
        acc.append(" ");
        i = i + 1;
    }
}

/// Appends `s` right-aligned in `w` columns.
fn push_right_aligned(acc: &mut String, s: &String, w: usize)
    ensures
        final(acc)@ == old(acc)@ + pad_left(s@, w as nat),
{
    let len = s.as_str().unicode_len();
    if len < w {
        push_spaces(acc, w - len);
    }
    acc.append(s.as_str());
    assert(acc@ =~= old(acc)@ + pad_left(s@, w as nat));
}

/// Appends `s` left-aligned in `w` columns.
fn push_left_aligned(acc: &mut String, s: &String, w: usize)
    ensures
        final(acc)@ == old(acc)@ + pad_right(s@, w as nat),
{
    let len = s.as_str().unicode_len();
    acc.append(s.as_str());
    if len < w {
        push_spaces(acc, w - len);
    }
    assert(acc@ =~= old(acc)@ + pad_right(s@, w as nat));
}

/// The row of `fe` in a long layout over the batch `all`, ending in the shown
/// name `name`; the owner column is there when `with_owner` holds.
pub open spec fn detail_row(fe: FormatEntry, all: Seq<FormatEntry>, name: Seq<char>, with_owner: bool) -> Seq<char> {
    let owner = if with_owner {
        pad_right(fe.user@, max_width(all, Column::User)) + seq![' ']
    } else {
        Seq::empty()
    };
    fe.permissions@ + seq![' '] + pad_left(fe.nlinks@, max_width(all, Column::Links)) + seq![' ']
        + owner + pad_right(fe.group@, max_width(all, Column::Group)) + seq![' '] + pad_left(
        fe.size@,
        max_width(all, Column::Size),
    ) + seq![' '] + pad_right(fe.timestamp@, max_width(all, Column::Timestamp)) + seq![' '] + name
}

/// The rows of a long layout, one per entry, each ending in the entry's shown
/// name.
fn detail_rows(entries: &Vec<FormatEntry>, names: &Vec<String>, with_owner: bool) -> (r: Vec<String>)
    requires
        names@.len() == entries@.len(),
    ensures
        r@.len() == entries@.len(),
        forall|i: int|
            0 <= i < r@.len() ==> #[trigger] r@[i]@ == detail_row(
                entries@[i],
                entries@,
                names@[i]@,
                with_owner,
            ),
{
    let nlinks_width = max_len(entries, Column::Links);
    let user_width = max_len(entries, Column::User);
    let group_width = max_len(entries, Column::Group);
    let size_width = max_len(entries, Column::Size);
    let timestamp_width = max_len(entries, Column::Timestamp);
    proof {
        reveal_strlit(" ");
    }
    let mut acc: Vec<String> = Vec::new();
    let mut i: usize = 0;
    while i < entries.len()
        invariant
            i <= entries@.len(),
            names@.len() == entries@.len(),
            nlinks_width == max_width(entries@, Column::Links),
            user_width == max_width(entries@, Column::User),
            group_width == max_width(entries@, Column::Group),
            size_width == max_width(entries@, Column::Size),
            timestamp_width == max_width(entries@, Column::Timestamp),
            acc@.len() == i,
            forall|k: int|
                0 <= k < i ==> #[trigger] acc@[k]@ == detail_row(
                    entries@[k],
                    entries@,
                    names@[k]@,
                    with_owner,
                ),
        decreases entries@.len() - i,
    {
        proof {
            reveal_strlit(" ");
        }
        let file = &entries[i];
        let mut row = String::from_str(file.permissions.as_str());
        row.append(" ");
        push_right_aligned(&mut row, &file.nlinks, nlinks_width);
        row.append(" ");
        if with_owner {
            push_left_aligned(&mut row, &file.user, user_width);
            row.append(" ");
        }
        push_left_aligned(&mut row, &file.group, group_width);
        row.append(" ");
        push_right_aligned(&mut row, &file.size, size_width);
        row.append(" ");
        push_left_aligned(&mut row, &file.timestamp, timestamp_width);
        row.append(" ");
        row.append(names[i].as_str());
        assert(row@ =~= detail_row(entries@[i as int], entries@, names@[i as int]@, with_owner));
        acc.push(row);
        i = i + 1;
    }
    acc
}


/// How a name is decorated.
#[derive(Debug, Clone, Copy, PartialEq, Eq, Structural)]
pub enum NameStyle {
    Plain,
    /// Block and character devices: bold yellow on black.
    Device,
    /// Directories: bold blue.
    Directory,
}

/// Whether names are decorated under the policy.
pub open spec fn spec_should_color(color: ColorOption, is_tty: bool) -> bool {
    color == ColorOption::Always || (color == ColorOption::Auto && is_tty)
}

/// The decoration of a name with this type glyph, when decorating is `on`.
pub open spec fn name_style(file_type: Seq<char>, on: bool) -> NameStyle {
    if !on {
        NameStyle::Plain
    } else if file_type == seq!['b'] || file_type == seq!['c'] {
        NameStyle::Device
    } else if file_type == seq!['d'] {
        NameStyle::Directory
    } else {
        NameStyle::Plain
    }
}

/// Whether names are decorated: always, never, or when the output is an
/// interactive terminal.
pub fn should_color(color: ColorOption, is_tty: bool) -> (r: bool)
    ensures
        r == spec_should_color(color, is_tty),
{
    match color {
        ColorOption::Always => true,
        ColorOption::Never => false,
        ColorOption::Auto => is_tty,
    }
}

/// The decoration of a name with this type glyph.
pub fn style_of(file_type: &String, on: bool) -> (r: NameStyle)
    ensures
        r == name_style(file_type@, on),
{
    let t = file_type.as_str();
    if !on || t.unicode_len() != 1 {
        NameStyle::Plain
    } else {
        let c = t.get_char(0);
        assert(t@ =~= seq![c]);
        if c == 'b' || c == 'c' {
            NameStyle::Device
        } else if c == 'd' {
            NameStyle::Directory
        } else {
            NameStyle::Plain
        }
    }
}

/// A name as shown: decorated by the kind of its entry when the policy says so.
pub fn color_file_name(file_name: String, file_type: &String, color: &ColorOption, is_tty: bool) -> (r: String)
    ensures
        name_style(file_type@, spec_should_color(*color, is_tty)) == NameStyle::Plain ==> r@
            == file_name@,
        painted(r@, file_name@),
{
    match style_of(file_type, should_color(*color, is_tty)) {
        NameStyle::Device => paint_device(file_name.as_str()),
        NameStyle::Directory => paint_dir(file_name.as_str()),
        NameStyle::Plain => file_name,
    }
}

/// The shown name of each entry, in order.
pub fn display_names(entries: &Vec<FormatEntry>, color: &ColorOption, is_tty: bool) -> (r: Vec<String>)
    ensures
        r@.len() == entries@.len(),
        forall|i: int|
            0 <= i < r@.len() ==> {
                &&& name_style(entries@[i].file_type@, spec_should_color(*color, is_tty))
                    == NameStyle::Plain ==> #[trigger] r@[i]@ == entries@[i].file_name@
                &&& painted(r@[i]@, entries@[i].file_name@)
            },
{
    let mut acc: Vec<String> = Vec::new();
    let mut i: usize = 0;
    while i < entries.len()
        invariant
            i <= entries@.len(),
            acc@.len() == i,
            forall|k: int|
                0 <= k < i ==> {
                    &&& name_style(entries@[k].file_type@, spec_should_color(*color, is_tty))
                        == NameStyle::Plain ==> #[trigger] acc@[k]@ == entries@[k].file_name@
                    &&& painted(acc@[k]@, entries@[k].file_name@)
                },
        decreases entries@.len() - i,
    {
        let fe = &entries[i];
        let name = String::from_str(fe.file_name.as_str());
        acc.push(color_file_name(name, &fe.file_type, color, is_tty));
        i = i + 1;
    }
    acc
}

/// The rows of the long layout: permissions, links, owner, group, size, time
/// and name, each padded column as wide as its widest text in the batch.
pub fn long_form(entries: &Vec<FormatEntry>, names: &Vec<String>) -> (r: Vec<String>)
    requires
        names@.len() == entries@.len(),
    ensures
        r@.len() == entries@.len(),
        forall|i: int|
            0 <= i < r@.len() ==> #[trigger] r@[i]@ == detail_row(
                entries@[i],
                entries@,
                names@[i]@,
                true,
            ),
{
    detail_rows(entries, names, true)
}

/// The rows of the long layout without the owner column.
pub fn group_long_form(entries: &Vec<FormatEntry>, names: &Vec<String>) -> (r: Vec<String>)
    requires
        names@.len() == entries@.len(),
    ensures
        r@.len() == entries@.len(),
        forall|i: int|
            0 <= i < r@.len() ==> #[trigger] r@[i]@ == detail_row(
                entries@[i],
                entries@,
                names@[i]@,
                false,
            ),
{
    detail_rows(entries, names, false)
}

/// The row of entry `i` of the batch in a layout, given its shown name.
pub open spec fn row_text(format: OutputFormat, entries: Seq<FormatEntry>, i: int, name: Seq<char>) -> Seq<char> {
    match format {
        OutputFormat::Short => name,
        OutputFormat::Long => detail_row(entries[i], entries, name, true),
        OutputFormat::GroupLong => detail_row(entries[i], entries, name, false),
    }
}

/// The header line of a directory: its path and a colon.
pub open spec fn header_text(path: Seq<char>) -> Seq<char> {
    path + seq![':']
}

/// Whether a block of output is headed by its directory's path: only for a
/// directory listed among several paths.
pub open spec fn has_header(root: Option<&FsEntry>, opts: LsOptions) -> bool {
    opts.show_dir_headers && (root matches Some(d) && d.meta.is_dir)
}

/// The header line of a block, where it has one.
pub fn dir_header(root: Option<&FsEntry>, opts: &LsOptions) -> (r: Option<String>)
    ensures
        r is Some == has_header(root, *opts),
        r matches Some(h) ==> (root matches Some(d) && h@ == header_text(d.path@)),
{
    match root {
        Some(d) => {
            if opts.show_dir_headers && d.meta.is_dir {
                proof {
                    reveal_strlit(":");
                }
                let mut h = String::from_str(d.path.as_str());
                h.append(":");
                Some(h)
            } else {
                None
            }
        },
        None => None,
    }
}

/// The lines of one block: the header, where there is one, then one row per
/// entry in the layout of `format`.
pub fn listing_block(
    header: Option<String>,
    entries: &Vec<FormatEntry>,
    names: Vec<String>,
    format: OutputFormat,
) -> (r: Vec<String>)
    requires
        names@.len() == entries@.len(),
    ensures
        ({
            let h: int = if header is Some { 1 } else { 0 };
            &&& r@.len() == h + entries@.len()
            &&& header matches Some(t) ==> r@[0]@ == t@
            &&& forall|i: int|
                0 <= i < entries@.len() ==> r@[h + i]@ == row_text(
                    format,
                    entries@,
                    i,
                    (#[trigger] names@[i])@,
                )
        }),
{
    let ghost given = names@;
    let rows = match format {
        OutputFormat::Short => names,
        OutputFormat::Long => long_form(entries, &names),
        OutputFormat::GroupLong => group_long_form(entries, &names),
    };
    let mut acc: Vec<String> = Vec::new();
    let ghost h: int = if header is Some { 1 } else { 0 };
    let ghost hdr = header;
    match header {
        Some(t) => acc.push(t),
        None => {},
    }
    let mut i: usize = 0;
    let n = rows.len();
    let mut rest = rows;
    let ghost all_rows = rest@;
    while i < n
        invariant
            n == entries@.len(),
            all_rows.len() == n,
            i <= n,
            rest@ == all_rows.subrange(i as int, n as int),
            h == (if hdr is Some { 1int } else { 0int }),
            acc@.len() == h + i,
            hdr matches Some(t) ==> acc@[0]@ == t@,
            forall|k: int| 0 <= k < i ==> #[trigger] acc@[h + k] == all_rows[k],
            forall|k: int|
                0 <= k < n ==> #[trigger] all_rows[k]@ == row_text(format, entries@, k, given[k]@),
        decreases n - i,
    {
        let row = rest.remove(0);
        acc.push(row);
        i = i + 1;
    }
    acc
}


proof fn lemma_max_width_bounds(s: Seq<FormatEntry>, col: Column, i: int)
    requires
        0 <= i < s.len(),
    ensures
        field(s[i], col).len() <= max_width(s, col),
    decreases s.len(),
{
    if i < s.len() - 1 {
        lemma_max_width_bounds(s.drop_last(), col, i);
    }
}

/// A column is exactly as wide as its widest text in the batch, and no entry's text
/// is cut: padded to the column's width, right-aligned or left-aligned, it
/// keeps all its characters and takes exactly that width.
pub proof fn lemma_columns_pad_without_truncating(entries: Seq<FormatEntry>, col: Column, i: int)
    requires
        0 <= i < entries.len(),
    ensures
        ({
            let w = max_width(entries, col);
            let t = field(entries[i], col);
            &&& t.len() <= w
            &&& pad_left(t, w).len() == w
            &&& pad_left(t, w).subrange(w - t.len(), w as int) == t
            &&& pad_right(t, w).len() == w
            &&& pad_right(t, w).subrange(0, t.len() as int) == t
        }),
        exists|k: int|
            0 <= k < entries.len() && field(#[trigger] entries[k], col).len() == max_width(entries, col),
{
    lemma_max_width_bounds(entries, col, i);
    let w = max_width(entries, col);
    let t = field(entries[i], col);
    assert(pad_left(t, w).subrange(w - t.len(), w as int) =~= t);
    assert(pad_right(t, w).subrange(0, t.len() as int) =~= t);
    lemma_max_width_attained(entries, col);
}

proof fn lemma_max_width_attained(s: Seq<FormatEntry>, col: Column)
    requires
        s.len() > 0,
    ensures
        exists|k: int| 0 <= k < s.len() && field(#[trigger] s[k], col).len() == max_width(s, col),
    decreases s.len(),
{
    if s.len() == 1 {
        assert(max_width(s.drop_last(), col) == 0);
        assert(field(s[0], col).len() == max_width(s, col));
    } else {
        lemma_max_width_attained(s.drop_last(), col);
        let k = choose|k: int|
            0 <= k < s.drop_last().len() && field(#[trigger] s.drop_last()[k], col).len() == max_width(
                s.drop_last(),
                col,
            );
        if field(s.last(), col).len() > max_width(s.drop_last(), col) {
            assert(field(s[s.len() - 1], col).len() == max_width(s, col));
        } else {
            assert(field(s[k], col).len() == max_width(s, col));
        }
    }
}

} // verus!
