use vstd::prelude::*;
use vstd::multiset::Multiset;
use vstd::utf8::encode_utf8;

verus! {

/// What the file system reports of one entry.
#[derive(Debug, Clone, Copy, PartialEq, Eq, Structural)]
pub struct Meta {
    pub is_file: bool,
    pub is_dir: bool,
    pub is_symlink: bool,
    pub is_block_device: bool,
    pub is_char_device: bool,
    pub is_fifo: bool,
    pub is_socket: bool,
    /// The POSIX mode word; its low nine bits are the permissions.
    pub mode: u32,
    pub nlink: u64,
    pub uid: u32,
    pub gid: u32,
    /// The length in bytes.
    pub len: u64,
    /// The modification time, in seconds since the Unix epoch.
    pub mtime: i64,
}

/// The kind of a file system entry.
#[derive(Debug, Clone, Copy, PartialEq, Eq, Structural)]
pub enum FileKind {
    File,
    Dir,
    Symlink,
    BlockDevice,
    CharDevice,
    Fifo,
    Socket,
    Unknown,
}

impl Meta {
    /// The kind of the entry: the first of file, directory, symlink, block
    /// device, character device, fifo and socket that the record reports.
    pub open spec fn spec_kind(&self) -> FileKind {
        if self.is_file {
            FileKind::File
        } else if self.is_dir {
            FileKind::Dir
        } else if self.is_symlink {
            FileKind::Symlink
        } else if self.is_block_device {
            FileKind::BlockDevice
        } else if self.is_char_device {
            FileKind::CharDevice
        } else if self.is_fifo {
            FileKind::Fifo
        } else if self.is_socket {
            FileKind::Socket
        } else {
            FileKind::Unknown
        }
    }

    pub fn kind(&self) -> (r: FileKind)
        ensures
            r == self.spec_kind(),
    {
        if self.is_file {
            FileKind::File
        } else if self.is_dir {
            FileKind::Dir
        } else if self.is_symlink {
            FileKind::Symlink
        } else if self.is_block_device {
            FileKind::BlockDevice
        } else if self.is_char_device {
            FileKind::CharDevice
        } else if self.is_fifo {
            FileKind::Fifo
        } else if self.is_socket {
            FileKind::Socket
        } else {
            FileKind::Unknown
        }
    }
}


/// Which entries a directory listing keeps.
#[derive(Debug, Clone, Copy, PartialEq, Eq, Structural)]
pub enum OutputFilter {
    /// Every entry.
    All,
    /// Every entry; kept apart from `All` for the `.` and `..` entries, which
    /// neither adds.
    AlmostAll,
    /// Only entries whose name does not start with a dot.
    Visible,
}

/// One file system entry: where it is, the name it is shown under (the last
/// component of its path) and what the file system reports of it.
#[derive(Debug, Clone)]
pub struct FsEntry {
    pub path: String,
    pub name: String,
    pub meta: Meta,
}

impl PartialEq for FsEntry {
    /// Entries are equal when their paths are, whatever their metadata.
    fn eq(&self, other: &FsEntry) -> (r: bool) {
        self.path == other.path
    }
}

impl vstd::std_specs::cmp::PartialEqSpecImpl for FsEntry {
    open spec fn obeys_eq_spec() -> bool {
        true
    }

    open spec fn eq_spec(&self, other: &FsEntry) -> bool {
        self.path@ == other.path@
    }
}

/// Lexicographic order on byte strings: `a` comes no later than `b`.
pub open spec fn lex_le(a: Seq<u8>, b: Seq<u8>) -> bool
    decreases a.len(),
{
    if a.len() == 0 {
        true
    } else if b.len() == 0 {
        false
    } else if a[0] != b[0] {
        a[0] < b[0]
    } else {
        lex_le(a.drop_first(), b.drop_first())
    }
}

/// The bytes of an entry's path.
pub open spec fn path_bytes(e: FsEntry) -> Seq<u8> {
    encode_utf8(e.path@)
}

/// `a` sorts no later than `b`: by the bytes of their paths.
pub open spec fn entry_le(a: FsEntry, b: FsEntry) -> bool {
    lex_le(path_bytes(a), path_bytes(b))
}

/// The entries are in order of their paths.
pub open spec fn sorted_by_path(s: Seq<FsEntry>) -> bool {
    forall|i: int, j: int| 0 <= i < j < s.len() ==> entry_le(#[trigger] s[i], #[trigger] s[j])
}

/// A name that starts with a dot.
pub open spec fn is_hidden_name(name: Seq<char>) -> bool {
    name.len() > 0 && name[0] == '.'
}

/// Whether the filter keeps the entry.
pub open spec fn keeps(filter: OutputFilter, e: FsEntry) -> bool {
    filter != OutputFilter::Visible || !is_hidden_name(e.name@)
}

proof fn lemma_lex_le_total(a: Seq<u8>, b: Seq<u8>)
    ensures
        lex_le(a, b) || lex_le(b, a),
    decreases a.len(),
{
    if a.len() > 0 && b.len() > 0 && a[0] == b[0] {
        lemma_lex_le_total(a.drop_first(), b.drop_first());
    }
}

proof fn lemma_lex_le_transitive(a: Seq<u8>, b: Seq<u8>, c: Seq<u8>)
    requires
        lex_le(a, b),
        lex_le(b, c),
    ensures
        lex_le(a, c),
    decreases a.len(),
{
    if a.len() > 0 && b.len() > 0 && c.len() > 0 && a[0] == b[0] && b[0] == c[0] {
        lemma_lex_le_transitive(a.drop_first(), b.drop_first(), c.drop_first());
    }
}

proof fn lemma_lex_le_antisymmetric(a: Seq<u8>, b: Seq<u8>)
    requires
        lex_le(a, b),
        lex_le(b, a),
    ensures
        a == b,
    decreases a.len(),
{
    if a.len() > 0 && b.len() > 0 {
        lemma_lex_le_antisymmetric(a.drop_first(), b.drop_first());
        assert(a =~= seq![a[0]] + a.drop_first());
        assert(b =~= seq![b[0]] + b.drop_first());
    }
}

/// Whether `a` sorts no later than `b`.
fn path_le(a: &FsEntry, b: &FsEntry) -> (r: bool)
    ensures
        r == entry_le(*a, *b),
{
    let x = a.path.as_str().as_bytes();
    let y = b.path.as_str().as_bytes();
    let mut i: usize = 0;
    assert(x@.skip(0) =~= x@ && y@.skip(0) =~= y@);
    while i < x.len() && i < y.len() && x[i] == y[i]
        invariant
            i <= x@.len(),
            i <= y@.len(),
            x@ == path_bytes(*a),
            y@ == path_bytes(*b),
            entry_le(*a, *b) == lex_le(x@.skip(i as int), y@.skip(i as int)),
        decreases x@.len() - i,
    {
        assert(x@.skip(i as int).drop_first() =~= x@.skip(i + 1));
        assert(y@.skip(i as int).drop_first() =~= y@.skip(i + 1));
        i = i + 1;
    }
    if i == x.len() {
        true
    } else if i == y.len() {
        false
    } else {
        x[i] < y[i]
    }
}

/// Whether an entry's name starts with a dot.
pub fn is_hidden(entry: &FsEntry) -> (r: bool)
    ensures
        r == is_hidden_name(entry.name@),
{
    let name = entry.name.as_str();
    !name.is_empty() && name.get_char(0) == '.'
}


/// The entries of `s` that the filter keeps, in their order.
pub open spec fn kept(s: Seq<FsEntry>, filter: OutputFilter) -> Seq<FsEntry> {
    s.filter(keep_pred(filter))
}

/// The filter as a predicate on entries.
pub open spec fn keep_pred(filter: OutputFilter) -> spec_fn(FsEntry) -> bool {
    |e: FsEntry| keeps(filter, e)
}

proof fn lemma_insert_sorted(s: Seq<FsEntry>, j: int, x: FsEntry)
    requires
        sorted_by_path(s),
        0 <= j <= s.len(),
        forall|k: int| 0 <= k < j ==> entry_le(#[trigger] s[k], x),
        j < s.len() ==> !entry_le(s[j], x),
    ensures
        sorted_by_path(s.insert(j, x)),
{
    let t = s.insert(j, x);
    if j < s.len() {
        lemma_lex_le_total(path_bytes(s[j]), path_bytes(x));
    }
    assert forall|a: int, b: int| 0 <= a < b < t.len() implies entry_le(#[trigger] t[a], #[trigger] t[b]) by {
        if a < j && b == j {
        } else if a == j && b > j {
            if b - 1 > j {
                lemma_lex_le_transitive(path_bytes(x), path_bytes(s[j]), path_bytes(s[b - 1]));
            }
        } else if a < j && b > j {
            assert(entry_le(s[a], s[b - 1]));
        } else if b < j {
            assert(entry_le(s[a], s[b]));
        } else {
            assert(entry_le(s[a - 1], s[b - 1]));
        }
    }
}

proof fn lemma_insert_multiset(s: Seq<FsEntry>, j: int, x: FsEntry)
    requires
        0 <= j <= s.len(),
    ensures
        s.insert(j, x).to_multiset() == s.to_multiset().insert(x),
{
    broadcast use vstd::seq_lib::group_to_multiset_ensures;

    let t = s.insert(j, x);
    assert(t.remove(j) =~= s);
    assert(t[j] == x);
    assert(t.contains(x));
    assert(t.to_multiset() =~= t.to_multiset().remove(x).insert(x));
}

/// The entries that the filter keeps, in order of their paths.
pub fn to_fs_entries(dir_entries: Vec<FsEntry>, filter: OutputFilter) -> (r: Vec<FsEntry>)
    ensures
        sorted_by_path(r@),
        r@.to_multiset() == kept(dir_entries@, filter).to_multiset(),
        filter != OutputFilter::Visible ==> r@.to_multiset() == dir_entries@.to_multiset(),
{
    let ghost all = dir_entries@;
    let n = dir_entries.len();
    let mut rest = dir_entries;
    let mut acc: Vec<FsEntry> = Vec::new();
    let mut i: usize = 0;
    assert(all.subrange(0, 0) =~= Seq::<FsEntry>::empty());
    assert(rest@ =~= all.subrange(0, n as int));
    proof {
        reveal(Seq::filter);
        assert(kept(all.subrange(0, 0), filter) =~= Seq::<FsEntry>::empty());
    }
    while i < n
        invariant
            n == all.len(),
            i <= n,
            rest@ =~= all.subrange(i as int, n as int),
            sorted_by_path(acc@),
            acc@.to_multiset() == kept(all.subrange(0, i as int), filter).to_multiset(),
        decreases n - i,
    {
        let x = rest.remove(0);
        proof {
            assert(all.subrange(0, i + 1) =~= all.subrange(0, i as int).push(x));
            all.subrange(0, i as int).lemma_filter_push(x, keep_pred(filter));
        }
        let keep = match filter {
            OutputFilter::Visible => !is_hidden(&x),
            _ => true,
        };
        if keep {
            let mut j: usize = 0;
            while j < acc.len() && path_le(&acc[j], &x)
                invariant
                    j <= acc@.len(),
                    forall|k: int| 0 <= k < j ==> entry_le(#[trigger] acc@[k], x),
                decreases acc@.len() - j,
            {
                j = j + 1;
            }
            proof {
                lemma_insert_sorted(acc@, j as int, x);
                lemma_insert_multiset(acc@, j as int, x);
            }
            acc.insert(j, x);
        }
        proof {
            broadcast use vstd::seq_lib::group_to_multiset_ensures;

        }
        i = i + 1;
    }
    assert(all.subrange(0, n as int) =~= all);
    proof {
        if filter != OutputFilter::Visible {
            assert forall|v: FsEntry| acc@.to_multiset().count(v) == all.to_multiset().count(v) by {
                lemma_kept_count(all, filter, v);
            }
            assert(acc@.to_multiset() =~= all.to_multiset());
        }
    }
    acc
}


/// No entry occurs twice and no two entries share a path, as in the entries
/// of one directory.
pub open spec fn unique_paths(m: Multiset<FsEntry>) -> bool {
    &&& forall|x: FsEntry| #[trigger] m.count(x) <= 1
    &&& forall|x: FsEntry, y: FsEntry|
        #[trigger] m.contains(x) && #[trigger] m.contains(y) && path_bytes(x) == path_bytes(y) ==> x
            == y
}

proof fn lemma_kept_count(s: Seq<FsEntry>, filter: OutputFilter, v: FsEntry)
    ensures
        kept(s, filter).to_multiset().count(v) == (if keeps(filter, v) {
            s.to_multiset().count(v)
        } else {
            0
        }),
    decreases s.len(),
{
    broadcast use vstd::seq_lib::group_to_multiset_ensures;

    if s.len() == 0 {
        reveal(Seq::filter);
    } else {
        let init = s.drop_last();
        let x = s.last();
        assert(s =~= init.push(x));
        init.lemma_filter_push(x, keep_pred(filter));
        lemma_kept_count(init, filter, v);
    }
}

proof fn lemma_sorted_unique(x: Seq<FsEntry>, y: Seq<FsEntry>)
    requires
        sorted_by_path(x),
        sorted_by_path(y),
        x.to_multiset() == y.to_multiset(),
        unique_paths(x.to_multiset()),
    ensures
        x == y,
    decreases x.len(),
{
    broadcast use vstd::seq_lib::group_to_multiset_ensures;

    x.to_multiset_ensures();
    y.to_multiset_ensures();
    assert(x.to_multiset().len() == y.to_multiset().len());
    if x.len() == 0 {
        assert(y.len() == 0);
        assert(x =~= y);
    } else {
        let m = x.to_multiset();
        assert(y.len() == x.len());
        assert(m.contains(x[0]));
        assert(y.contains(x[0]));
        let j = choose|j: int| 0 <= j < y.len() && y[j] == x[0];
        assert(m.contains(y[0]));
        assert(x.contains(y[0]));
        let k = choose|k: int| 0 <= k < x.len() && x[k] == y[0];
        if j > 0 {
            assert(entry_le(y[0], y[j]));
        }
        if k > 0 {
            assert(entry_le(x[0], x[k]));
        }
        if j > 0 && k > 0 {
            lemma_lex_le_antisymmetric(path_bytes(x[0]), path_bytes(y[0]));
        }
        assert(x[0] == y[0]);
        assert(x.remove(0) =~= x.drop_first());
        assert(y.remove(0) =~= y.drop_first());
        let m2 = x.drop_first().to_multiset();
        assert(m2 == m.remove(x[0]));
        assert forall|v: FsEntry| #[trigger] m2.count(v) <= 1 by {
            assert(m.count(v) <= 1);
        }
        assert forall|a: FsEntry, b: FsEntry|
            #[trigger] m2.contains(a) && #[trigger] m2.contains(b) && path_bytes(a) == path_bytes(
                b,
            ) implies a == b by {
            assert(m.contains(a) && m.contains(b));
        }
        lemma_sorted_unique(x.drop_first(), y.drop_first());
        assert(x =~= seq![x[0]] + x.drop_first());
        assert(y =~= seq![y[0]] + y.drop_first());
    }
}

/// Listing a directory does not depend on the order in which its entries were
/// read: two readings that hold the same entries, no path twice, give the same
/// filtered and sorted sequence.
pub proof fn lemma_listing_order_independent(
    a: Seq<FsEntry>,
    b: Seq<FsEntry>,
    filter: OutputFilter,
    ra: Seq<FsEntry>,
    rb: Seq<FsEntry>,
)
    requires
        a.to_multiset() == b.to_multiset(),
        unique_paths(a.to_multiset()),
        sorted_by_path(ra),
        ra.to_multiset() == kept(a, filter).to_multiset(),
        sorted_by_path(rb),
        rb.to_multiset() == kept(b, filter).to_multiset(),
    ensures
        ra == rb,
{
    let ka = kept(a, filter).to_multiset();
    let kb = kept(b, filter).to_multiset();
    assert forall|v: FsEntry| ka.count(v) == kb.count(v) by {
        lemma_kept_count(a, filter, v);
        lemma_kept_count(b, filter, v);
    }
    assert(ka =~= kb);
    let m = a.to_multiset();
    assert forall|v: FsEntry| #[trigger] ka.count(v) <= 1 by {
        lemma_kept_count(a, filter, v);
        assert(m.count(v) <= 1);
    }
    assert forall|x: FsEntry, y: FsEntry|
        #[trigger] ka.contains(x) && #[trigger] ka.contains(y) && path_bytes(x) == path_bytes(y) implies x
        == y by {
        lemma_kept_count(a, filter, x);
        lemma_kept_count(a, filter, y);
        assert(m.contains(x) && m.contains(y));
    }
    lemma_sorted_unique(ra, rb);
}

} // verus!
