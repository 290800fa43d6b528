//! The order of a directory listing, and the size of a directory tree.
//!
//! In a listing directories come before files; within each kind the
//! entries are in ascending order of their names, compared code point by
//! code point.

use crate::ordering::{
    arranged, is_ordered, is_strict_weak, lemma_arranged, lemma_arranged_fixed, lemma_insert_at,
};
use crate::text::chars_of;
use crate::types::{FileMetadata, MetadataView};
use vstd::prelude::*;

verus! {

/// `a` comes before `b` in the order of names: at the first place where
/// they differ `a` has the smaller code point, or `a` ends there and `b`
/// goes on.
pub open spec fn name_before(a: Seq<char>, b: Seq<char>) -> bool
    decreases a.len(),
{
    if b.len() == 0 {
        false
    } else if a.len() == 0 {
        true
    } else if a[0] != b[0] {
        a[0] < b[0]
    } else {
        name_before(a.skip(1), b.skip(1))
    }
}

/// `a` comes before `b` in a listing.
pub open spec fn listed_before(a: MetadataView, b: MetadataView) -> bool {
    if a.is_directory != b.is_directory {
        a.is_directory
    } else {
        name_before(a.name, b.name)
    }
}

/// No entry of `entries` comes before one that stands earlier.
pub open spec fn in_listing_order(entries: Seq<MetadataView>) -> bool {
    forall|i: int, j: int|
        0 <= i < j < entries.len() ==> !listed_before(#[trigger] entries[j], #[trigger] entries[i])
}

/// The order of a listing, as a relation.
pub open spec fn listing_rule() -> spec_fn(MetadataView, MetadataView) -> bool {
    |a: MetadataView, b: MetadataView| listed_before(a, b)
}

/// The listing of `entries`: the entries in listing order, those that
/// the order does not tell apart in the order in which they came.
pub open spec fn listing_of(entries: Seq<MetadataView>) -> Seq<MetadataView> {
    arranged(entries, listing_rule())
}

/// What the records say, one for one.
pub open spec fn record_views(records: Seq<FileMetadata>) -> Seq<MetadataView> {
    records.map_values(|record: FileMetadata| record@)
}

/// The order of names is a strict total order.
pub proof fn lemma_name_order(a: Seq<char>, b: Seq<char>, c: Seq<char>)
    ensures
        !name_before(a, a),
        name_before(a, b) ==> !name_before(b, a),
        !name_before(a, b) && !name_before(b, a) ==> a == b,
        name_before(a, b) && name_before(b, c) ==> name_before(a, c),
    decreases a.len(),
{
    if a.len() > 0 {
        lemma_name_order(a.skip(1), a.skip(1), a.skip(1));
        if b.len() > 0 {
            if a[0] == b[0] {
                if c.len() > 0 {
                    lemma_name_order(a.skip(1), b.skip(1), c.skip(1));
                } else {
                    lemma_name_order(a.skip(1), b.skip(1), b.skip(1));
                }
                if !name_before(a, b) && !name_before(b, a) {
                    assert(a =~= seq![a[0]] + a.skip(1));
                    assert(b =~= seq![b[0]] + b.skip(1));
                }
            }
        }
    } else if b.len() == 0 {
        assert(a =~= b);
    }
}

/// If neither `b` comes before `a` nor `c` before `b`, then `c` does not
/// come before `a`; and of two entries at most one comes before the
/// other.
pub proof fn lemma_listing_order(a: MetadataView, b: MetadataView, c: MetadataView)
    ensures
        listed_before(a, b) ==> !listed_before(b, a),
        !listed_before(b, a) && !listed_before(c, b) ==> !listed_before(c, a),
{
    lemma_name_order(a.name, b.name, c.name);
    lemma_name_order(b.name, a.name, c.name);
    lemma_name_order(c.name, b.name, a.name);
    lemma_name_order(c.name, a.name, b.name);
}

/// The order of a listing is a strict order that leaves untold apart
/// only entries of one kind with one name.
pub proof fn lemma_listing_rule()
    ensures
        is_strict_weak(listing_rule()),
{
    let rule = listing_rule();
    assert forall|a: MetadataView, b: MetadataView| #[trigger] rule(a, b) implies !rule(b, a) by {
        lemma_listing_order(a, b, a);
    }
    assert forall|a: MetadataView, b: MetadataView, c: MetadataView|
        !#[trigger] rule(b, a) && !#[trigger] rule(c, b) implies !rule(c, a) by {
        lemma_listing_order(a, b, c);
    }
}

/// A listing is in listing order and holds what it was made of, each
/// entry as often as it came.
pub proof fn lemma_listing(entries: Seq<MetadataView>)
    ensures
        in_listing_order(listing_of(entries)),
        listing_of(entries).to_multiset() == entries.to_multiset(),
        listing_of(entries).len() == entries.len(),
{
    lemma_listing_rule();
    lemma_arranged(entries, listing_rule());
    let listing = listing_of(entries);
    assert forall|i: int, j: int| 0 <= i < j < listing.len() implies !listed_before(
        #[trigger] listing[j],
        #[trigger] listing[i],
    ) by {
        assert(!listing_rule()(listing[j], listing[i]));
    }
}

/// Entries that are in listing order already are listed as they stand;
/// so listing a listing changes nothing.
pub proof fn lemma_listing_settled(entries: Seq<MetadataView>)
    ensures
        in_listing_order(entries) ==> listing_of(entries) == entries,
        listing_of(listing_of(entries)) == listing_of(entries),
{
    if in_listing_order(entries) {
        assert(is_ordered(entries, listing_rule()));
        lemma_arranged_fixed(entries, listing_rule());
    }
    lemma_listing(entries);
    assert(is_ordered(listing_of(entries), listing_rule()));
    lemma_arranged_fixed(listing_of(entries), listing_rule());
}

/// The characters of both names decide which comes first.
fn comes_before(a: &Vec<char>, b: &Vec<char>) -> (yes: bool)
    ensures
        yes == name_before(a@, b@),
{
    let mut i: usize = 0;
    proof {
        assert(a@.skip(0) =~= a@);
        assert(b@.skip(0) =~= b@);
    }
    while i < a.len() && i < b.len()
        invariant
            i <= a.len(),
            i <= b.len(),
            name_before(a@, b@) == name_before(a@.skip(i as int), b@.skip(i as int)),
        decreases a.len() - i,
    {
        if a[i] != b[i] {
            return a[i] < b[i];
        }
        proof {
            assert(a@.skip(i as int).skip(1) =~= a@.skip(i + 1));
            assert(b@.skip(i as int).skip(1) =~= b@.skip(i + 1));
        }
        i += 1;
    }
    i < b.len()
}

/// Puts the records of a directory's entries into listing order.
///
/// The result holds the same records, each as often as `entries` does,
/// with directories before files and, within each kind, in ascending
/// order of the names. Records that the order does not tell apart keep
/// the order in which they came.
pub fn sort_entries(entries: Vec<FileMetadata>) -> (sorted: Vec<FileMetadata>)
    ensures
        record_views(sorted@) == listing_of(record_views(entries@)),
        in_listing_order(record_views(sorted@)),
        record_views(sorted@).to_multiset() == record_views(entries@).to_multiset(),
        sorted@.len() == entries@.len(),
{
    let mut sorted: Vec<FileMetadata> = Vec::new();
    let mut names: Vec<Vec<char>> = Vec::new();
    let ghost mut taken: Seq<FileMetadata> = Seq::empty();
    proof {
        assert(record_views(sorted@) =~= Seq::<MetadataView>::empty());
        assert(record_views(taken) =~= Seq::<MetadataView>::empty());
    }
    for entry in it: entries
        invariant
            taken == it.seq().take(it.index()),
            it.seq() == entries@,
            sorted@.len() == it.index(),
            names@.len() == sorted@.len(),
            forall|k: int| 0 <= k < sorted@.len() ==> (#[trigger] names@[k])@ == sorted@[k].name@,
            record_views(sorted@) == listing_of(record_views(taken)),
    {
        let name = chars_of(entry.name.as_str());
        let mut at: usize = sorted.len();
        while at > 0 && goes_first(&entry, &name, &sorted[at - 1], &names[at - 1])
            invariant
                at <= sorted@.len(),
                names@.len() == sorted@.len(),
                name@ == entry.name@,
                forall|k: int|
                    0 <= k < sorted@.len() ==> (#[trigger] names@[k])@ == sorted@[k].name@,
                forall|k: int|
                    at <= k < sorted@.len() ==> listed_before(
                        entry@,
                        #[trigger] record_views(sorted@)[k],
                    ),
            decreases at,
        {
            at -= 1;
        }
        proof {
            let before = record_views(sorted@);
            assert forall|k: int| at <= k < before.len() implies listing_rule()(
                entry@,
                #[trigger] before[k],
            ) by {}
            lemma_insert_at(before, entry@, listing_rule(), at as int);
            assert(record_views(sorted@.insert(at as int, entry)) =~= before.insert(
                at as int,
                entry@,
            ));
            assert(record_views(taken.push(entry)).drop_last() =~= record_views(taken));
            assert(record_views(taken.push(entry)).last() == entry@);
            assert(it.seq().take(it.index() + 1) =~= taken.push(entry));
            taken = taken.push(entry);
        }
        names.insert(at, name);
        sorted.insert(at, entry);
    }
    proof {
        assert(taken =~= entries@);
        lemma_listing(record_views(entries@));
    }
    sorted
}

/// Whether `entry` comes before `other` in a listing, with the
/// characters of both names at hand.
fn goes_first(
    entry: &FileMetadata,
    name: &Vec<char>,
    other: &FileMetadata,
    other_name: &Vec<char>,
) -> (yes: bool)
    requires
        name@ == entry.name@,
        other_name@ == other.name@,
    ensures
        yes == listed_before(entry@, other@),
{
    if entry.is_directory != other.is_directory {
        entry.is_directory
    } else {
        comes_before(name, other_name)
    }
}

/// One entry met on a walk through a directory tree.
#[derive(Clone, Copy, Debug, PartialEq, Eq, Structural)]
pub struct WalkEntry {
    /// Whether the entry is a regular file.
    pub is_file: bool,
    /// Its length in bytes.
    pub len: u64,
}

/// The lengths of the files among `entries`, added up.
pub open spec fn file_bytes(entries: Seq<WalkEntry>) -> nat
    decreases entries.len(),
{
    if entries.len() == 0 {
        0
    } else {
        file_bytes(entries.drop_last()) + if entries.last().is_file {
            entries.last().len as nat
        } else {
            0
        }
    }
}

/// The size of a directory tree: the lengths of the files met on a walk
/// through it, added up. Directories and other entries count for
/// nothing. `None` if the sum cannot be counted in 64 bits.
pub fn total_file_size(entries: &Vec<WalkEntry>) -> (total: Option<u64>)
    ensures
        match total {
            Some(bytes) => bytes == file_bytes(entries@),
            None => file_bytes(entries@) > u64::MAX,
        },
{
    let mut sum: u128 = 0;
    let mut i: usize = 0;
    proof {
        assert(entries@.take(0) =~= Seq::<WalkEntry>::empty());
    }
    while i < entries.len()
        invariant
            i <= entries.len(),
            sum == file_bytes(entries@.take(i as int)),
            sum <= i * 0xffff_ffff_ffff_ffff,
        decreases entries.len() - i,
    {
        proof {
            assert(entries@.take(i + 1).drop_last() =~= entries@.take(i as int));
        }
        if entries[i].is_file {
            sum = sum + entries[i].len as u128;
        }
        i += 1;
    }
    proof {
        assert(entries@.take(i as int) =~= entries@);
    }
    if sum > u64::MAX as u128 {
        None
    } else {
        Some(sum as u64)
    }
}

} // verus!
