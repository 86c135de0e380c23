//! Directory listing and search.
//!
//! A listing is ordered with directories before everything else, and
//! within each group by the chosen column; the standing default is the
//! lowercased name, ascending. Search filters entries whose name
//! contains the query as a case-insensitive substring.

use vstd::prelude::*;
use vstd::seq_lib::group_to_multiset_ensures;
use crate::entry::{entry_of, FileEntry, FileType, RawMeta};
use crate::text::{has_substring, lex_le, lower_of, lemma_lex_le_total, lemma_lex_le_trans,
    lex_le_str, to_lowercase};

verus! {

/// The column a listing is ordered by.
#[derive(Clone, Copy, Debug, PartialEq, Eq, Structural)]
pub enum SortColumn {
    Name,
    Size,
    Modified,
}

/// The direction a listing is ordered in.
#[derive(Clone, Copy, Debug, PartialEq, Eq, Structural)]
pub enum SortOrder {
    Ascending,
    Descending,
}

pub open spec fn is_dir_entry(e: FileEntry) -> bool {
    e.file_type == FileType::Directory
}

/// Column comparison, ascending: the lowercased name lexicographically,
/// the size, or the modification time.
pub open spec fn key_le(a: FileEntry, b: FileEntry, col: SortColumn) -> bool {
    match col {
        SortColumn::Name => lex_le(lower_of(a.name@), lower_of(b.name@)),
        SortColumn::Size => a.size <= b.size,
        SortColumn::Modified => a.modified <= b.modified,
    }
}

/// The listing order: directories always precede non-directories, and
/// within each group the chosen column decides, reversed when the order
/// is descending.
pub open spec fn entry_le(a: FileEntry, b: FileEntry, col: SortColumn, ord: SortOrder) -> bool {
    if is_dir_entry(a) && !is_dir_entry(b) {
        true
    } else if !is_dir_entry(a) && is_dir_entry(b) {
        false
    } else {
        match ord {
            SortOrder::Ascending => key_le(a, b, col),
            SortOrder::Descending => key_le(b, a, col),
        }
    }
}

/// Every pair of a sequence respects the listing order.
pub open spec fn entries_sorted(s: Seq<FileEntry>, col: SortColumn, ord: SortOrder) -> bool {
    forall|i: int, j: int| 0 <= i < j < s.len() ==> #[trigger] entry_le(s[i], s[j], col, ord)
}

/// Directories first is a standing invariant, independent of the sort
/// column and direction: in a sorted listing, no directory ever stands
/// after a non-directory.
pub proof fn lemma_directories_first(
    s: Seq<FileEntry>,
    col: SortColumn,
    ord: SortOrder,
    i: int,
    j: int,
)
    requires
        entries_sorted(s, col, ord),
        0 <= i < j < s.len(),
        is_dir_entry(s[j]),
    ensures
        is_dir_entry(s[i]),
{
    assert(entry_le(s[i], s[j], col, ord));
}

/// The listing order is total.
pub proof fn lemma_entry_le_total(a: FileEntry, b: FileEntry, col: SortColumn, ord: SortOrder)
    ensures
        entry_le(a, b, col, ord) || entry_le(b, a, col, ord),
{
    if col == SortColumn::Name {
        lemma_lex_le_total(lower_of(a.name@), lower_of(b.name@));
    }
}

/// The listing order is transitive.
pub proof fn lemma_entry_le_trans(
    a: FileEntry,
    b: FileEntry,
    c: FileEntry,
    col: SortColumn,
    ord: SortOrder,
)
    requires
        entry_le(a, b, col, ord),
        entry_le(b, c, col, ord),
    ensures
        entry_le(a, c, col, ord),
{
    if col == SortColumn::Name {
        match ord {
            SortOrder::Ascending => {
                if is_dir_entry(a) == is_dir_entry(b) && is_dir_entry(b) == is_dir_entry(c) {
                    lemma_lex_le_trans(
                        lower_of(a.name@),
                        lower_of(b.name@),
                        lower_of(c.name@),
                    );
                }
            },
            SortOrder::Descending => {
                if is_dir_entry(a) == is_dir_entry(b) && is_dir_entry(b) == is_dir_entry(c) {
                    lemma_lex_le_trans(
                        lower_of(c.name@),
                        lower_of(b.name@),
                        lower_of(a.name@),
                    );
                }
            },
        }
    }
}

/// Decides the listing order between two entries.
fn entry_le_exec(a: &FileEntry, b: &FileEntry, col: SortColumn, ord: SortOrder) -> (r: bool)
    ensures
        r == entry_le(*a, *b, col, ord),
{
    let a_dir = a.file_type == FileType::Directory;
    let b_dir = b.file_type == FileType::Directory;
    if a_dir && !b_dir {
        true
    } else if !a_dir && b_dir {
        false
    } else {
        let (x, y) = match ord {
            SortOrder::Ascending => (a, b),
            SortOrder::Descending => (b, a),
        };
        match col {
            SortColumn::Name => {
                let lx = to_lowercase(x.name.as_str());
                let ly = to_lowercase(y.name.as_str());
                lex_le_str(lx.as_str(), ly.as_str())
            },
            SortColumn::Size => x.size <= y.size,
            SortColumn::Modified => x.modified <= y.modified,
        }
    }
}

/// Where a newly placed element lands among the already placed ones:
/// after every element that compares at or below it, before the first
/// that does not — so an equal element stays behind the earlier one.
pub open spec fn insert_ordered(
    s: Seq<FileEntry>,
    x: FileEntry,
    col: SortColumn,
    ord: SortOrder,
) -> Seq<FileEntry>
    decreases s.len(),
{
    if s.len() == 0 {
        seq![x]
    } else if entry_le(s[0], x, col, ord) {
        seq![s[0]] + insert_ordered(s.drop_first(), x, col, ord)
    } else {
        seq![x] + s
    }
}

/// The stable sort of a listing: each element placed, left to right,
/// by `insert_ordered`. Entries with equal keys therefore keep their
/// prior relative order.
pub open spec fn stable_sorted(s: Seq<FileEntry>, col: SortColumn, ord: SortOrder) -> Seq<
    FileEntry,
>
    decreases s.len(),
{
    if s.len() == 0 {
        Seq::<FileEntry>::empty()
    } else {
        insert_ordered(stable_sorted(s.drop_last(), col, ord), s.last(), col, ord)
    }
}

proof fn lemma_insert_ordered_at(
    s: Seq<FileEntry>,
    x: FileEntry,
    j: int,
    col: SortColumn,
    ord: SortOrder,
)
    requires
        0 <= j <= s.len(),
        forall|k: int| 0 <= k < j ==> entry_le(#[trigger] s[k], x, col, ord),
        j < s.len() ==> !entry_le(s[j], x, col, ord),
    ensures
        insert_ordered(s, x, col, ord) == s.insert(j, x),
    decreases s.len(),
{
    if j == 0 {
        assert(insert_ordered(s, x, col, ord) =~= s.insert(0, x));
    } else {
        let tail = s.drop_first();
        assert(forall|k: int| 0 <= k < j - 1 ==> entry_le(#[trigger] tail[k], x, col, ord));
        lemma_insert_ordered_at(tail, x, j - 1, col, ord);
        assert(insert_ordered(s, x, col, ord) =~= s.insert(j, x));
    }
}

proof fn lemma_sorted_insert(
    s: Seq<FileEntry>,
    x: FileEntry,
    j: int,
    col: SortColumn,
    ord: SortOrder,
)
    requires
        entries_sorted(s, col, ord),
        0 <= j <= s.len(),
        forall|k: int| 0 <= k < j ==> entry_le(#[trigger] s[k], x, col, ord),
        forall|k: int| j <= k < s.len() ==> entry_le(x, #[trigger] s[k], col, ord),
    ensures
        entries_sorted(s.insert(j, x), col, ord),
{
    let t = s.insert(j, x);
    s.insert_ensures(j, x);
    assert forall|i1: int, i2: int| 0 <= i1 < i2 < t.len() implies #[trigger] entry_le(
        t[i1],
        t[i2],
        col,
        ord,
    ) by {
        if i1 < j {
            assert(t[i1] == s[i1]);
        }
        if i2 < j {
            assert(t[i2] == s[i2]);
        }
        if i1 > j {
            assert(t[i1] == s[i1 - 1]);
        }
        if i2 > j {
            assert(t[i2] == s[i2 - 1]);
        }
    }
}

/// Sorts a listing in place: afterwards the entries are the same
/// collection, ordered by the listing order for the chosen column and
/// direction, directories first throughout, and the sort is stable —
/// the result is exactly `stable_sorted`, under which entries with
/// equal keys keep their prior relative order.
pub fn sort_entries(entries: &mut Vec<FileEntry>, col: SortColumn, ord: SortOrder)
    ensures
        final(entries)@.to_multiset() == old(entries)@.to_multiset(),
        entries_sorted(final(entries)@, col, ord),
        final(entries)@ == stable_sorted(old(entries)@, col, ord),
{
    broadcast use group_to_multiset_ensures;

    let n = entries.len();
    let mut out: Vec<FileEntry> = Vec::new();
    let mut idx: usize = 0;
    while idx < n
        invariant
            n == entries@.len(),
            idx <= n,
            out@.to_multiset() == entries@.subrange(0, idx as int).to_multiset(),
            entries_sorted(out@, col, ord),
            out@ == stable_sorted(entries@.subrange(0, idx as int), col, ord),
        decreases n - idx,
    {
        let x = entries[idx].clone();
        let mut j: usize = 0;
        while j < out.len() && entry_le_exec(&out[j], &x, col, ord)
            invariant
                j <= out@.len(),
                entries_sorted(out@, col, ord),
                forall|k: int| 0 <= k < j ==> entry_le(#[trigger] out@[k], x, col, ord),
            decreases out@.len() - j,
        {
            j += 1;
        }
        proof {
            if (j as int) < out@.len() {
                lemma_entry_le_total(out@[j as int], x, col, ord);
                assert forall|k: int| j <= k < out@.len() implies entry_le(
                    x,
                    #[trigger] out@[k],
                    col,
                    ord,
                ) by {
                    if k > j {
                        assert(entry_le(out@[j as int], out@[k], col, ord));
                        lemma_entry_le_trans(x, out@[j as int], out@[k], col, ord);
                    }
                }
            }
            lemma_sorted_insert(out@, x, j as int, col, ord);
            lemma_insert_ordered_at(out@, x, j as int, col, ord);
            assert(entries@.subrange(0, idx as int + 1) =~= entries@.subrange(
                0,
                idx as int,
            ).push(entries@[idx as int]));
            let pre = entries@.subrange(0, idx as int);
            let nxt = entries@.subrange(0, idx as int + 1);
            assert(nxt.drop_last() =~= pre);
            assert(nxt.last() == entries@[idx as int]);
            assert(stable_sorted(nxt, col, ord) == insert_ordered(
                stable_sorted(pre, col, ord),
                entries@[idx as int],
                col,
                ord,
            ));
        }
        let ghost out_before: Seq<FileEntry> = out@;
        out.insert(j, x);
        proof {
            broadcast use group_to_multiset_ensures;

            assert(out@ == out_before.insert(j as int, x));
            assert(out@.to_multiset() == out_before.to_multiset().insert(x));
            assert(entries@.subrange(0, idx as int).push(entries@[idx as int]).to_multiset()
                == entries@.subrange(0, idx as int).to_multiset().insert(entries@[idx as int]));
        }
        idx += 1;
    }
    proof {
        assert(entries@.subrange(0, n as int) =~= entries@);
    }
    *entries = out;
}

/// The snapshots a sequence of raw stat records denotes, in order.
pub open spec fn listed_of(ms: Seq<RawMeta>) -> Seq<FileEntry> {
    ms.map_values(|m: RawMeta| entry_of(m))
}

/// Builds the listing of one directory from its raw stat records: the
/// snapshot of every record, sorted by the default listing order
/// (directories first, then the lowercased name ascending).
pub fn build_listing(raw: Vec<RawMeta>) -> (r: Vec<FileEntry>)
    ensures
        r@.to_multiset() == listed_of(raw@).to_multiset(),
        entries_sorted(r@, SortColumn::Name, SortOrder::Ascending),
{
    let mut out: Vec<FileEntry> = Vec::new();
    let mut raw = raw;
    let ghost orig: Seq<RawMeta> = raw@;
    while raw.len() > 0
        invariant
            out@.len() + raw@.len() == orig.len(),
            raw@ =~= orig.subrange(out@.len() as int, orig.len() as int),
            out@ =~= listed_of(orig).subrange(0, out@.len() as int),
        decreases raw@.len(),
    {
        let m = raw.remove(0);
        proof {
            assert(m == orig[out@.len() as int]);
        }
        out.push(crate::entry::entry_from_metadata(m));
    }
    proof {
        assert(out@ =~= listed_of(orig));
    }
    sort_entries(&mut out, SortColumn::Name, SortOrder::Ascending);
    out
}

/// One entry matches a query when its lowercased name contains the
/// lowercased query.
pub open spec fn entry_matches(e: FileEntry, q: Seq<char>) -> bool {
    has_substring(lower_of(e.name@), lower_of(q))
}

/// The subsequence of entries matching a query, in their original order.
pub open spec fn matching_of(s: Seq<FileEntry>, q: Seq<char>) -> Seq<FileEntry> {
    s.filter(|e: FileEntry| entry_matches(e, q))
}

/// Keeps the entries whose name contains `query` case-insensitively,
/// preserving their order.
pub fn filter_matching(entries: &Vec<FileEntry>, query: &str) -> (r: Vec<FileEntry>)
    ensures
        r@ == matching_of(entries@, query@),
{
    let mut out: Vec<FileEntry> = Vec::new();
    let n = entries.len();
    let mut i: usize = 0;
    while i < n
        invariant
            n == entries@.len(),
            i <= n,
            out@ == matching_of(entries@.subrange(0, i as int), query@),
        decreases n - i,
    {
        let e = &entries[i];
        let matched = crate::text::name_matches(e.name.as_str(), query);
        if matched {
            out.push(e.clone());
        }
        proof {
            reveal_with_fuel(Seq::filter, 2);
            let prefix = entries@.subrange(0, i as int);
            let next = entries@.subrange(0, i as int + 1);
            assert(next.drop_last() =~= prefix);
            assert(next.last() == entries@[i as int]);
            assert(matching_of(next, query@) == if entry_matches(entries@[i as int], query@) {
                matching_of(prefix, query@).push(entries@[i as int])
            } else {
                matching_of(prefix, query@)
            });
        }
        i += 1;
    }
    proof {
        assert(entries@.subrange(0, n as int) =~= entries@);
    }
    out
}

} // verus!
