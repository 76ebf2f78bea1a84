//! What the converter reads of files: the description of an input file, an
//! estimate of its points, and the size of a directory.

use vstd::prelude::*;

use crate::paths::{file_name, last_component};
use crate::text::text_view;

verus! {

// ---------------------------------------------------------------------------
// Input files
// ---------------------------------------------------------------------------

/// The description of a file that the user picked.
#[derive(Debug, PartialEq, Eq)]
pub struct FileInfo<S = String> {
    pub path: S,
    pub name: S,
    pub size: u64,
}

impl View for FileInfo<String> {
    type V = FileInfo<Seq<char>>;

    open spec fn view(&self) -> FileInfo<Seq<char>> {
        FileInfo { path: self.path@, name: self.name@, size: self.size }
    }
}

/// An optional file description with its texts as sequences.
pub open spec fn info_view(r: Option<FileInfo<String>>) -> Option<FileInfo<Seq<char>>> {
    match r {
        Some(info) => Some(info@),
        None => None,
    }
}

/// The description of a path with this name and these properties: none unless
/// it is an ordinary file and has a name.
pub open spec fn description(
    path: Seq<char>,
    name: Option<Seq<char>>,
    is_file: bool,
    size: u64,
) -> Option<FileInfo<Seq<char>>> {
    match name {
        Some(n) if is_file => Some(FileInfo { path, name: n, size }),
        _ => None,
    }
}

/// Describes a path whose file name is given.
pub fn describe_file(path: String, name: Option<String>, is_file: bool, size: u64) -> (r: Option<
    FileInfo,
>)
    ensures
        info_view(r) == description(path@, text_view(name), is_file, size),
{
    if !is_file {
        return None;
    }
    match name {
        Some(name) => Some(FileInfo { path, name, size }),
        None => None,
    }
}

/// Describes a path of which the file system says whether it is an ordinary
/// file and how long it is.
pub fn inspect_file(path: String, is_file: bool, size: u64) -> (r: Option<FileInfo>)
    ensures
        exists|name: Option<Seq<char>>| #[trigger]
            last_component(path@, name) && info_view(r) == description(path@, name, is_file, size),
{
    let name = file_name(path.as_str());
    describe_file(path, name, is_file, size)
}

/// The bytes that a point takes in an input file, by rule of thumb.
pub const BYTES_PER_POINT: u64 = 11;

/// The points of an input file, estimated from its length; none where the
/// length is not known.
pub open spec fn estimated_points(len: Option<u64>) -> u64 {
    match len {
        Some(n) => n / BYTES_PER_POINT,
        None => 0,
    }
}

/// Estimates the points of an input file from its length.
pub fn estimate_points(len: Option<u64>) -> (points: u64)
    ensures
        points == estimated_points(len),
{
    match len {
        Some(n) => n / BYTES_PER_POINT,
        None => 0,
    }
}

// ---------------------------------------------------------------------------
// Directories
// ---------------------------------------------------------------------------

/// An entry of a directory: a directory with its own entries, or something
/// else with its length where that is known.
pub enum DirEntry {
    Directory(Vec<DirEntry>),
    File(Option<u64>),
}

/// The bytes of an entry and everything under it.
pub open spec fn entry_size(entry: DirEntry) -> nat
    decreases entry,
{
    match entry {
        DirEntry::Directory(entries) => entries_size(entries@, entries@.len()),
        DirEntry::File(Some(len)) => len as nat,
        DirEntry::File(None) => 0,
    }
}

/// The bytes of the first `n` entries and everything under them.
pub open spec fn entries_size(entries: Seq<DirEntry>, n: nat) -> nat
    decreases entries, n,
{
    if n == 0 || n > entries.len() {
        0
    } else {
        entries_size(entries, (n - 1) as nat) + entry_size(entries[n - 1])
    }
}

proof fn entries_size_grows(entries: Seq<DirEntry>, n: nat, m: nat)
    requires
        n <= m <= entries.len(),
    ensures
        entries_size(entries, n) <= entries_size(entries, m),
    decreases m - n,
{
    if n < m {
        entries_size_grows(entries, n, (m - 1) as nat);
    }
}

/// The size of a directory with these entries: the lengths of all files under
/// it, added up. `None` where the sum does not fit.
pub fn dir_size(entries: &Vec<DirEntry>) -> (r: Option<u64>)
    ensures
        match r {
            Some(total) => total == entries_size(entries@, entries@.len()),
            None => entries_size(entries@, entries@.len()) > u64::MAX,
        },
    decreases entries,
{
    let mut total: u64 = 0;
    let mut i: usize = 0;
    while i < entries.len()
        invariant
            i <= entries.len(),
            total == entries_size(entries@, i as nat),
        decreases entries.len() - i,
    {
        proof {
            entries_size_grows(entries@, (i + 1) as nat, entries@.len());
        }
        let size = match &entries[i] {
            DirEntry::Directory(inner) => dir_size(inner),
            DirEntry::File(len) => match len {
                Some(n) => Some(*n),
                None => Some(0),
            },
        };
        assert(match size {
            Some(n) => n == entry_size(entries@[i as int]),
            None => entry_size(entries@[i as int]) > u64::MAX,
        });
        assert(entries_size(entries@, (i + 1) as nat) == total + entry_size(entries@[i as int]));
        match size {
            Some(n) => {
                if n > u64::MAX - total {
                    return None;
                }
                total = total + n;
            },
            None => {
                return None;
            },
        }
        i += 1;
    }
    Some(total)
}

// ---------------------------------------------------------------------------
// Laws
// ---------------------------------------------------------------------------

/// An ordinary file with a name is described by its path, its name and its
/// length; nothing else is described.
pub proof fn what_is_described(path: Seq<char>, name: Seq<char>, size: u64)
    ensures
        description(path, Some(name), true, size) matches Some(info) && info.path == path
            && info.name == name && info.size == size,
        description(path, Some(name), false, size) is None,
        description(path, None, true, size) is None,
        description(path, None, false, size) is None,
{
}

/// Every eleven bytes of an input count as one point; an input of unknown
/// length has none.
pub proof fn eleven_bytes_are_a_point(len: u64)
    ensures
        11 * estimated_points(Some(len)) <= len < 11 * estimated_points(Some(len)) + 11,
        estimated_points(None) == 0,
{
}

/// The size of a list of entries.
pub open spec fn total_size(entries: Seq<DirEntry>) -> nat {
    entries_size(entries, entries.len())
}

/// A file counts with its length where that is known and else not, and a
/// directory with all that is in it.
pub proof fn what_an_entry_counts(len: u64, inner: Vec<DirEntry>)
    ensures
        entry_size(DirEntry::File(Some(len))) == len,
        entry_size(DirEntry::File(None)) == 0,
        entry_size(DirEntry::Directory(inner)) == total_size(inner@),
{
}

/// No entries have no size, and one more entry adds its own size, however many
/// there are.
pub proof fn one_more_entry_adds_its_size(entries: Seq<DirEntry>, entry: DirEntry)
    ensures
        entries_size(Seq::<DirEntry>::empty(), 0) == 0,
        entries_size(entries.push(entry), entries.len() + 1) == entries_size(entries, entries.len())
            + entry_size(entry),
{
    first_entries_count_alike(entries.push(entry), entries, entries.len());
}

proof fn first_entries_count_alike(one: Seq<DirEntry>, other: Seq<DirEntry>, n: nat)
    requires
        n <= one.len(),
        n <= other.len(),
        forall|i: int| 0 <= i < n ==> one[i] == other[i],
    ensures
        entries_size(one, n) == entries_size(other, n),
    decreases n,
{
    if n > 0 {
        first_entries_count_alike(one, other, (n - 1) as nat);
    }
}

/// The size of a directory is that of any two parts that its entries fall into.
pub proof fn sizes_add_up(a: Seq<DirEntry>, b: Seq<DirEntry>)
    ensures
        total_size(a + b) == total_size(a) + total_size(b),
    decreases b.len(),
{
    if b.len() > 0 {
        let c = b.drop_last();
        assert(b =~= c.push(b.last()));
        assert(a + b =~= (a + c).push(b.last()));
        one_more_entry_adds_its_size(a + c, b.last());
        one_more_entry_adds_its_size(c, b.last());
        sizes_add_up(a, c);
    } else {
        assert(a + b =~= a);
    }
}

/// In which order the entries of a directory come does not matter.
pub proof fn the_order_of_entries_does_not_matter(one: Seq<DirEntry>, other: Seq<DirEntry>)
    requires
        one.to_multiset() == other.to_multiset(),
    ensures
        total_size(one) == total_size(other),
    decreases one.len(),
{
    one.to_multiset_ensures();
    other.to_multiset_ensures();
    if one.len() > 0 {
        let last = one.last();
        let rest = one.drop_last();
        assert(one.contains(last)) by {
            assert(one[one.len() - 1] == last);
        }
        assert(one.to_multiset().count(last) > 0);
        assert(other.contains(last));
        let i = choose|i: int| 0 <= i < other.len() && other[i] == last;
        let without = other.remove(i);
        assert(rest =~= one.remove(one.len() - 1));
        assert(rest.to_multiset() =~= without.to_multiset());
        the_order_of_entries_does_not_matter(rest, without);
        let before = other.take(i);
        let behind = other.skip(i + 1);
        assert(without =~= before + behind);
        assert(other =~= before.push(last) + behind);
        assert(one =~= rest.push(last));
        sizes_add_up(before, behind);
        sizes_add_up(before.push(last), behind);
        one_more_entry_adds_its_size(before, last);
        one_more_entry_adds_its_size(rest, last);
    }
}

/// A directory is at least as large as each file in it.
pub proof fn a_directory_holds_its_files(entries: Seq<DirEntry>, i: int)
    requires
        0 <= i < entries.len(),
    ensures
        total_size(entries) >= entry_size(entries[i]),
{
    let before = entries.take(i);
    let behind = entries.skip(i + 1);
    assert(entries =~= before.push(entries[i]) + behind);
    sizes_add_up(before.push(entries[i]), behind);
    one_more_entry_adds_its_size(before, entries[i]);
}

/// A description shows all that it holds.
pub proof fn descriptions_are_shown_whole(info: FileInfo)
    ensures
        info@.path == info.path@,
        info@.name == info.name@,
        info@.size == info.size,
        info_view(Some(info)) == Some(info@),
        info_view(None) is None,
{
}

} // verus!
