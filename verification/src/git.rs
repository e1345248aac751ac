//! The status index: a read-only mapping from canonical absolute path to a
//! resolved status record, built once from the reports of a version-control
//! working-tree scan.
//!
//! Keys are canonicalized paths; a report whose path could not be
//! canonicalized is keyed by its raw joined path instead (write-side
//! fallback). A lookup probes with a canonicalized path only: a probe that
//! could not be canonicalized finds nothing, even if a fallback-keyed entry
//! exists (read-side, no fallback). The asymmetry is deliberate.

use vstd::prelude::*;

use crate::status::spec_no_status;
use crate::status::spec_status_record;
use crate::status::status_to_char_color;
use crate::status::StatusFlags;
use crate::status::StatusRecord;
use crate::text::str_eq;

verus! {

/// One path as reported by the working-tree scan: its canonicalized absolute
/// form if canonicalization succeeded, the raw joined path, and its status
/// flags.
pub struct StatusReport {
    pub canonical: Option<String>,
    pub raw: String,
    pub flags: StatusFlags,
}

/// The key a report is stored under: the canonical path when there is one,
/// else the raw joined path.
pub open spec fn report_key(r: StatusReport) -> Seq<char> {
    match r.canonical {
        Some(c) => c@,
        None => r.raw@,
    }
}

struct IndexEntry {
    key: String,
    rec: StatusRecord,
}

/// The mapping an entry list denotes; a later entry with the same key
/// overwrites an earlier one.
spec fn index_map(s: Seq<IndexEntry>) -> Map<Seq<char>, StatusRecord>
    decreases s.len(),
{
    if s.len() == 0 {
        Map::empty()
    } else {
        index_map(s.drop_last()).insert(s.last().key@, s.last().rec)
    }
}

/// The mapping that a sequence of scan reports builds.
pub open spec fn build_map(rs: Seq<StatusReport>) -> Map<Seq<char>, StatusRecord>
    decreases rs.len(),
{
    if rs.len() == 0 {
        Map::empty()
    } else {
        build_map(rs.drop_last()).insert(
            report_key(rs.last()),
            spec_status_record(rs.last().flags),
        )
    }
}

/// Pure lookup structure from canonical absolute path to status record.
/// Built once per run; read-only afterward.
pub struct GitStatusCache {
    entries: Vec<IndexEntry>,
}

impl View for GitStatusCache {
    type V = Map<Seq<char>, StatusRecord>;

    closed spec fn view(&self) -> Map<Seq<char>, StatusRecord> {
        index_map(self.entries@)
    }
}

/// Linear-scan lookup from the newest entry backward, matching the
/// overwrite-on-insert semantics of `index_map`.
spec fn scan(s: Seq<IndexEntry>, k: Seq<char>) -> Option<StatusRecord>
    decreases s.len(),
{
    if s.len() == 0 {
        None
    } else if s.last().key@ == k {
        Some(s.last().rec)
    } else {
        scan(s.drop_last(), k)
    }
}

proof fn lemma_scan_is_map(s: Seq<IndexEntry>, k: Seq<char>)
    ensures
        index_map(s).contains_key(k) <==> scan(s, k) is Some,
        index_map(s).contains_key(k) ==> scan(s, k) == Some(index_map(s)[k]),
    decreases s.len(),
{
    if s.len() > 0 {
        lemma_scan_is_map(s.drop_last(), k);
    }
}

impl GitStatusCache {
    /// Builds the index from the reports of one full working-tree status
    /// scan, keyed by canonical path with raw-path fallback.
    pub fn new(reports: &Vec<StatusReport>) -> (c: GitStatusCache)
        ensures
            c@ == build_map(reports@),
    {
        let mut entries: Vec<IndexEntry> = Vec::new();
        let mut i: usize = 0;
        proof {
            assert(reports@.take(0) =~= Seq::<StatusReport>::empty());
        }
        while i < reports.len()
            invariant
                i <= reports@.len(),
                index_map(entries@) == build_map(reports@.take(i as int)),
            decreases reports@.len() - i,
        {
            let key: String = match &reports[i].canonical {
                Some(c) => c.clone(),
                None => reports[i].raw.clone(),
            };
            let rec = status_to_char_color(&reports[i].flags);
            let ghost pre = entries@;
            entries.push(IndexEntry { key, rec });
            i = i + 1;
            proof {
                assert(entries@.drop_last() =~= pre);
                assert(reports@.take(i as int).drop_last() =~= reports@.take(i as int - 1));
                assert(reports@.take(i as int).last() == reports@[i as int - 1]);
                assert(entries@.last().key@ == report_key(reports@[i as int - 1]));
            }
        }
        proof {
            assert(reports@.take(reports@.len() as int) =~= reports@);
        }
        GitStatusCache { entries }
    }

    /// Looks up an already-canonicalized probe path.
    pub fn get(&self, path: &str) -> (r: Option<StatusRecord>)
        ensures
            r is Some <==> self@.contains_key(path@),
            self@.contains_key(path@) ==> r == Some(self@[path@]),
    {
        let mut i: usize = self.entries.len();
        proof {
            assert(self.entries@.take(i as int) =~= self.entries@);
        }
        while i > 0
            invariant
                i <= self.entries@.len(),
                scan(self.entries@, path@) == scan(self.entries@.take(i as int), path@),
            decreases i,
        {
            i = i - 1;
            let ghost upto = self.entries@.take(i as int + 1);
            proof {
                assert(upto.last() == self.entries@[i as int]);
                assert(upto.drop_last() =~= self.entries@.take(i as int));
            }
            if str_eq(self.entries[i].key.as_str(), path) {
                proof {
                    lemma_scan_is_map(self.entries@, path@);
                }
                return Some(self.entries[i].rec);
            }
        }
        proof {
            assert(self.entries@.take(0) =~= Seq::<IndexEntry>::empty());
            lemma_scan_is_map(self.entries@, path@);
        }
        None
    }
}

/// The status a traversal attributes to one entry: a lookup through an
/// optional cache with an optional canonicalized probe path, degrading to
/// "no status" whenever either is absent or the key is unknown.
pub open spec fn spec_status_of(
    cache: Option<GitStatusCache>,
    canonical: Option<String>,
) -> StatusRecord {
    match (cache, canonical) {
        (Some(c), Some(p)) => if c@.contains_key(p@) {
            c@[p@]
        } else {
            spec_no_status()
        },
        _ => spec_no_status(),
    }
}

/// Returns the blank "no status" record.
pub fn no_status() -> (r: StatusRecord)
    ensures
        r == spec_no_status(),
{
    StatusRecord { marker: ' ', color: crate::status::Color::Reset }
}

/// Resolves the status record for one entry, consulting the cache only when
/// both the cache and the entry's canonicalized path exist.
pub fn status_of(cache: &Option<GitStatusCache>, canonical: &Option<String>) -> (r: StatusRecord)
    ensures
        r == spec_status_of(*cache, *canonical),
{
    match (cache, canonical) {
        (Some(c), Some(p)) => match c.get(p.as_str()) {
            Some(rec) => rec,
            None => no_status(),
        },
        _ => no_status(),
    }
}

/// Round-trip law, write side: a report whose path canonicalized, and whose
/// key no later report overwrites, is retrievable from the built mapping
/// under that canonical path, with the record its flags resolve to.
pub proof fn lemma_index_round_trip(rs: Seq<StatusReport>, i: int)
    requires
        0 <= i < rs.len(),
        rs[i].canonical is Some,
        forall|j: int| i < j < rs.len() ==> report_key(rs[j]) != report_key(rs[i]),
    ensures
        build_map(rs).contains_key(rs[i].canonical->0@),
        build_map(rs)[rs[i].canonical->0@] == spec_status_record(rs[i].flags),
    decreases rs.len(),
{
    assert(report_key(rs[i]) == rs[i].canonical->0@);
    if i == rs.len() - 1 {
        assert(rs.last() == rs[i]);
    } else {
        assert(rs.drop_last()[i] == rs[i]);
        lemma_index_round_trip(rs.drop_last(), i);
        assert(report_key(rs.last()) != report_key(rs[i]));
    }
}

/// Round-trip law, retrievability half, with no side condition: every
/// reported path — canonical or fallback-keyed — has a record in the built
/// mapping, whatever later reports hold. Which record stands under a key
/// that was reported twice is the later report's: `lemma_index_round_trip`
/// pins it where no later report shares the key.
pub proof fn lemma_report_key_present(rs: Seq<StatusReport>, i: int)
    requires
        0 <= i < rs.len(),
    ensures
        build_map(rs).contains_key(report_key(rs[i])),
    decreases rs.len(),
{
    if i == rs.len() - 1 {
        assert(rs.last() == rs[i]);
    } else {
        assert(rs.drop_last()[i] == rs[i]);
        lemma_report_key_present(rs.drop_last(), i);
    }
}

/// Round-trip law, read side: a probe path that could not be canonicalized
/// finds no record, whatever the cache holds — even if a fallback-keyed
/// entry for the same raw path exists.
pub proof fn lemma_no_canonical_no_record(cache: Option<GitStatusCache>)
    ensures
        spec_status_of(cache, None) == spec_no_status(),
{
}

} // verus!
