//! Directory entries: the raw facts a traversal gathers about one child, the
//! listing entry derived from them, the directory-size summation, and the
//! sort that puts directories first and names in lexicographic order.

use vstd::multiset::Multiset;
use vstd::prelude::*;
use vstd::seq_lib::group_to_multiset_ensures;

use crate::text::lemma_lex_le_total;
use crate::text::lemma_lex_le_trans;
use crate::text::lex_le;
use crate::text::str_lex_le;

verus! {

/// What one traversal step reads from the file system about one child:
/// its name, its canonicalized absolute path when canonicalization
/// succeeded, its kind, its byte length (for a directory: the recursive
/// total when sizes were requested), its permission bits, its owner and
/// group identifiers, its modification time in seconds since the epoch,
/// and the children gathered below it.
pub struct RawEntry {
    pub name: String,
    pub canonical: Option<String>,
    pub is_dir: bool,
    pub len: u64,
    pub mode: u32,
    pub uid: u32,
    pub gid: u32,
    pub modified: i64,
    pub children: Vec<RawEntry>,
}

/// One listing entry: a raw child with its size field resolved to display
/// text, ready for status lookup and rendering.
pub struct FileEntry {
    pub name: String,
    pub canonical: Option<String>,
    pub is_dir: bool,
    pub size_display: String,
    pub modified_time: i64,
    pub mode: u32,
    pub uid: u32,
    pub gid: u32,
}

/// The text the decimal size formatter produces for a byte count. The exact
/// digits and unit depend only on the count.
pub uninterp spec fn size_text_of(n: u64) -> Seq<char>;

/// Relies on `humansize::format_size` with its `DECIMAL` option set: renders
/// a byte count with decimal (power-of-ten) units, from the count alone.
#[verifier::external_body]
fn format_size_decimal(n: u64) -> (r: String)
    ensures
        r@ == size_text_of(n),
{
    humansize::format_size(n, humansize::DECIMAL)
}

/// The size column of an entry: a placeholder dash (an em dash) for a
/// directory whose size was not computed, else the formatted byte count.
pub open spec fn spec_display_size(is_dir: bool, calc_sizes: bool, len: u64) -> Seq<char> {
    if is_dir && !calc_sizes {
        "\u{2014}"@
    } else {
        size_text_of(len)
    }
}

/// Resolves the size column for one entry.
pub fn display_size(is_dir: bool, calc_sizes: bool, len: u64) -> (r: String)
    ensures
        r@ == spec_display_size(is_dir, calc_sizes, len),
{
    if is_dir && !calc_sizes {
        String::from_str("\u{2014}")
    } else {
        format_size_decimal(len)
    }
}

/// The exact sum of a sequence of byte counts.
pub open spec fn sum_of(s: Seq<u64>) -> int
    decreases s.len(),
{
    if s.len() == 0 {
        0
    } else {
        sum_of(s.drop_last()) + s.last()
    }
}

/// Sums the byte lengths of the files found under one directory, saturating
/// at the largest representable count.
pub fn calculate_dir_size(lens: &Vec<u64>) -> (total: u64)
    ensures
        sum_of(lens@) <= u64::MAX ==> total == sum_of(lens@),
        sum_of(lens@) > u64::MAX ==> total == u64::MAX,
{
    let mut total: u64 = 0;
    let mut i: usize = 0;
    proof {
        assert(lens@.take(0) =~= Seq::<u64>::empty());
    }
    while i < lens.len()
        invariant
            i <= lens@.len(),
            sum_of(lens@.take(i as int)) <= u64::MAX ==> total == sum_of(lens@.take(i as int)),
            sum_of(lens@.take(i as int)) > u64::MAX ==> total == u64::MAX,
            sum_of(lens@.take(i as int)) >= total,
        decreases lens@.len() - i,
    {
        let cur = lens[i];
        proof {
            assert(lens@.take(i as int + 1).drop_last() =~= lens@.take(i as int));
            assert(lens@.take(i as int + 1).last() == lens@[i as int]);
        }
        if total > u64::MAX - cur {
            total = u64::MAX;
        } else {
            total = total + cur;
        }
        i = i + 1;
    }
    proof {
        assert(lens@.take(lens@.len() as int) =~= lens@);
    }
    total
}

/// The listing order: directories sort before files; within one kind, names
/// compare lexicographically.
pub open spec fn entry_le(a: RawEntry, b: RawEntry) -> bool {
    if a.is_dir && !b.is_dir {
        true
    } else if !a.is_dir && b.is_dir {
        false
    } else {
        lex_le(a.name@, b.name@)
    }
}

/// The same order on resolved listing entries.
pub open spec fn file_le(a: FileEntry, b: FileEntry) -> bool {
    if a.is_dir && !b.is_dir {
        true
    } else if !a.is_dir && b.is_dir {
        false
    } else {
        lex_le(a.name@, b.name@)
    }
}

/// A raw entry list in listing order.
pub open spec fn sorted_entries(s: Seq<RawEntry>) -> bool {
    forall|i: int, j: int| 0 <= i < j < s.len() ==> entry_le(s[i], s[j])
}

/// A resolved entry list in listing order.
pub open spec fn sorted_file_entries(s: Seq<FileEntry>) -> bool {
    forall|i: int, j: int| 0 <= i < j < s.len() ==> file_le(s[i], s[j])
}

/// `entry_le` relates every pair one way or the other.
pub proof fn lemma_entry_le_total(a: RawEntry, b: RawEntry)
    ensures
        entry_le(a, b) || entry_le(b, a),
{
    lemma_lex_le_total(a.name@, b.name@);
}

/// `entry_le` is transitive.
pub proof fn lemma_entry_le_trans(a: RawEntry, b: RawEntry, c: RawEntry)
    requires
        entry_le(a, b),
        entry_le(b, c),
    ensures
        entry_le(a, c),
{
    if a.is_dir == b.is_dir && b.is_dir == c.is_dir {
        lemma_lex_le_trans(a.name@, b.name@, c.name@);
    }
}

/// Decides the listing order between two raw entries.
fn entry_le_exec(a: &RawEntry, b: &RawEntry) -> (r: bool)
    ensures
        r == entry_le(*a, *b),
{
    if a.is_dir && !b.is_dir {
        true
    } else if !a.is_dir && b.is_dir {
        false
    } else {
        str_lex_le(a.name.as_str(), b.name.as_str())
    }
}

/// Sorts a child list into listing order: directories first, then files,
/// each group lexicographic by name. The result holds exactly the entries
/// given, rearranged.
pub fn sort_entries(v: Vec<RawEntry>) -> (r: Vec<RawEntry>)
    ensures
        r@.to_multiset() == v@.to_multiset(),
        sorted_entries(r@),
{
    broadcast use group_to_multiset_ensures;

    let mut rest = v;
    let mut out: Vec<RawEntry> = Vec::new();
    proof {
        assert(out@.to_multiset().add(rest@.to_multiset()) =~= v@.to_multiset());
    }
    while rest.len() > 0
        invariant
            out@.to_multiset().add(rest@.to_multiset()) == v@.to_multiset(),
            sorted_entries(out@),
            forall|i: int, j: int|
                0 <= i < out@.len() && 0 <= j < rest@.len() ==> entry_le(out@[i], rest@[j]),
        decreases rest@.len(),
    {
        let mut min: usize = 0;
        let mut k: usize = 1;
        proof {
            lemma_entry_le_total(rest@[0], rest@[0]);
        }
        while k < rest.len()
            invariant
                rest@.len() > 0,
                min < k,
                k <= rest@.len(),
                forall|t: int| 0 <= t < k ==> entry_le(rest@[min as int], rest@[t]),
            decreases rest@.len() - k,
        {
            if entry_le_exec(&rest[k], &rest[min]) {
                proof {
                    assert forall|t: int| 0 <= t < k + 1 implies entry_le(
                        rest@[k as int],
                        rest@[t],
                    ) by {
                        if t == k {
                            lemma_entry_le_total(rest@[k as int], rest@[k as int]);
                        } else {
                            lemma_entry_le_trans(rest@[k as int], rest@[min as int], rest@[t]);
                        }
                    }
                }
                min = k;
            } else {
                proof {
                    lemma_entry_le_total(rest@[k as int], rest@[min as int]);
                }
            }
            k = k + 1;
        }
        let ghost pre_rest = rest@;
        let ghost pre_out = out@;
        let e = rest.remove(min);
        out.push(e);
        proof {
            broadcast use group_to_multiset_ensures;

            assert(out@ == pre_out.push(e));
            assert(rest@ == pre_rest.remove(min as int));
            assert(pre_rest[min as int] == e);
            assert(pre_rest.contains(e));
            assert(out@.to_multiset() =~= pre_out.to_multiset().insert(e));
            assert(rest@.to_multiset() =~= pre_rest.to_multiset().remove(e));
            assert(pre_rest.to_multiset().count(e) > 0);
            assert(out@.to_multiset().add(rest@.to_multiset()) =~= pre_out.to_multiset().add(
                pre_rest.to_multiset(),
            ));
            assert forall|i: int, j: int|
                0 <= i < out@.len() && 0 <= j < rest@.len() implies entry_le(
                out@[i],
                rest@[j],
            ) by {
                if i < pre_out.len() {
                    assert(out@[i] == pre_out[i]);
                } else {
                    assert(out@[i] == e);
                }
                if j < min {
                    assert(rest@[j] == pre_rest[j]);
                } else {
                    assert(rest@[j] == pre_rest[j + 1]);
                }
            }
            assert(sorted_entries(out@)) by {
                assert forall|i: int, j: int| 0 <= i < j < out@.len() implies entry_le(
                    out@[i],
                    out@[j],
                ) by {
                    if j < pre_out.len() {
                        assert(out@[i] == pre_out[i] && out@[j] == pre_out[j]);
                    } else {
                        assert(out@[j] == e && e == pre_rest[min as int]);
                    }
                }
            }
        }
    }
    proof {
        assert(rest@.to_multiset() =~= Multiset::<RawEntry>::empty());
        assert(out@.to_multiset() =~= v@.to_multiset());
    }
    out
}

/// Partition law: in a listing in sorted order, every directory stands
/// before every file, and names rise lexicographically within each of the
/// two groups.
pub proof fn lemma_sorted_partitions(s: Seq<FileEntry>)
    requires
        sorted_file_entries(s),
    ensures
        forall|i: int, j: int| 0 <= i < j < s.len() && s[j].is_dir ==> s[i].is_dir,
        forall|i: int, j: int|
            0 <= i < j < s.len() && s[i].is_dir == s[j].is_dir ==> lex_le(s[i].name@, s[j].name@),
{
    assert forall|i: int, j: int| 0 <= i < j < s.len() && s[j].is_dir implies s[i].is_dir by {
        assert(file_le(s[i], s[j]));
    }
    assert forall|i: int, j: int|
        0 <= i < j < s.len() && s[i].is_dir == s[j].is_dir implies lex_le(
        s[i].name@,
        s[j].name@,
    ) by {
        assert(file_le(s[i], s[j]));
    }
}

/// Whether a resolved entry is the projection of a raw one under the given
/// size policy: same name, canonical path, kind, identifiers and timestamp,
/// with the size column resolved by `spec_display_size`.
pub open spec fn entry_projects(f: FileEntry, r: RawEntry, calc_sizes: bool) -> bool {
    &&& f.name@ == r.name@
    &&& f.canonical == r.canonical
    &&& f.is_dir == r.is_dir
    &&& f.size_display@ == spec_display_size(r.is_dir, calc_sizes, r.len)
    &&& f.modified_time == r.modified
    &&& f.mode == r.mode
    &&& f.uid == r.uid
    &&& f.gid == r.gid
}

/// Splits a raw entry into its resolved listing entry and its children.
pub fn raw_to_file_entry(e: RawEntry, calc_sizes: bool) -> (r: (FileEntry, Vec<RawEntry>))
    ensures
        entry_projects(r.0, e, calc_sizes),
        r.1 == e.children,
{
    let RawEntry { name, canonical, is_dir, len, mode, uid, gid, modified, children } = e;
    let size_display = display_size(is_dir, calc_sizes, len);
    let f = FileEntry {
        name,
        canonical,
        is_dir,
        size_display,
        modified_time: modified,
        mode,
        uid,
        gid,
    };
    (f, children)
}

/// A resolved listing `files` arose from the raw children `raws`: some
/// reordering of `raws` into listing order projects pointwise onto `files`.
pub open spec fn listed_via(
    raws: Seq<RawEntry>,
    sorted: Seq<RawEntry>,
    calc_sizes: bool,
    files: Seq<FileEntry>,
) -> bool {
    &&& sorted.to_multiset() == raws.to_multiset()
    &&& sorted_entries(sorted)
    &&& files.len() == sorted.len()
    &&& forall|i: int| 0 <= i < files.len() ==> entry_projects(files[i], sorted[i], calc_sizes)
}

/// The contract of `get_entries`: the output is the ordered projection of
/// the given raw children.
pub open spec fn entries_listed(
    raws: Seq<RawEntry>,
    calc_sizes: bool,
    files: Seq<FileEntry>,
) -> bool {
    exists|sorted: Seq<RawEntry>| listed_via(raws, sorted, calc_sizes, files)
}

/// Produces the single-level listing for one directory from its raw
/// children: sorts them into listing order and resolves each size column.
pub fn get_entries(raws: Vec<RawEntry>, calc_sizes: bool) -> (files: Vec<FileEntry>)
    ensures
        entries_listed(raws@, calc_sizes, files@),
        sorted_file_entries(files@),
        files@.len() == raws@.len(),
{
    broadcast use group_to_multiset_ensures;

    let ghost raws0 = raws@;
    let mut sorted = sort_entries(raws);
    let ghost gsorted = sorted@;
    let mut files: Vec<FileEntry> = Vec::new();
    while sorted.len() > 0
        invariant
            files@.len() + sorted@.len() == gsorted.len(),
            sorted@ == gsorted.skip(files@.len() as int),
            forall|k: int|
                0 <= k < files@.len() ==> entry_projects(files@[k], gsorted[k], calc_sizes),
        decreases sorted@.len(),
    {
        let ghost pre = sorted@;
        let e = sorted.remove(0);
        proof {
            assert(e == gsorted[files@.len() as int]);
            assert(pre.remove(0) =~= gsorted.skip(files@.len() as int + 1));
        }
        let (f, _children) = raw_to_file_entry(e, calc_sizes);
        files.push(f);
    }
    proof {
        assert(files@.len() == gsorted.len());
        assert(gsorted.to_multiset().len() == raws0.to_multiset().len());
        assert(listed_via(raws0, gsorted, calc_sizes, files@));
        assert(sorted_file_entries(files@)) by {
            assert forall|i: int, j: int| 0 <= i < j < files@.len() implies file_le(
                files@[i],
                files@[j],
            ) by {
                assert(entry_le(gsorted[i], gsorted[j]));
            }
        }
    }
    files
}

} // verus!
