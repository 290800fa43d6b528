//! The change feed: what a client has to pull to catch up with the store.
//!
//! The feed is drawn from the records that the metadata store holds. It
//! names every record of the owner that was modified after the client's
//! cursor, in ascending order of modification. Each is reported as
//! modified, with the record as it stands; a record that has been
//! removed from the store is not in the feed.

use crate::listing::record_views;
use crate::ordering::{
    arranged, is_ordered, is_strict_weak, lemma_arranged, lemma_arranged_fixed, lemma_insert_at,
};
use crate::types::{ChangeType, ChangeView, FileChange, FileMetadata, MetadataView, Timestamp};
use vstd::prelude::*;

verus! {

/// The record belongs to `owner` and was modified after `since`.
pub open spec fn is_change(record: MetadataView, owner: u128, since: Timestamp) -> bool {
    record.owner_id == owner && since.before(record.modified_at)
}

/// How the feed reports a record.
pub open spec fn change_for(record: MetadataView) -> ChangeView {
    ChangeView {
        file_id: record.id,
        change_type: ChangeType::Modified,
        path: record.path,
        metadata: Some(record),
        timestamp: record.modified_at,
    }
}

/// The reports for the records of `owner` modified after `since`, in the
/// order of the records.
pub open spec fn matching_changes(records: Seq<MetadataView>, owner: u128, since: Timestamp) -> Seq<
    ChangeView,
>
    decreases records.len(),
{
    if records.len() == 0 {
        Seq::<ChangeView>::empty()
    } else {
        let earlier = matching_changes(records.drop_last(), owner, since);
        if is_change(records.last(), owner, since) {
            earlier.push(change_for(records.last()))
        } else {
            earlier
        }
    }
}

/// No report is dated before one that stands earlier.
pub open spec fn in_time_order(changes: Seq<ChangeView>) -> bool {
    forall|i: int, j: int|
        0 <= i < j < changes.len() ==> (#[trigger] changes[i]).timestamp.not_after(
            (#[trigger] changes[j]).timestamp,
        )
}

/// The order of the feed, as a relation: by the time of the report.
pub open spec fn dating_rule() -> spec_fn(ChangeView, ChangeView) -> bool {
    |a: ChangeView, b: ChangeView| a.timestamp.before(b.timestamp)
}

/// The feed for `owner` and the cursor `since`: the reports for the
/// records that belong to the owner and were modified after the cursor,
/// in ascending order of modification; those modified at the same time
/// stand in the order of the records.
pub open spec fn feed_of(records: Seq<MetadataView>, owner: u128, since: Timestamp) -> Seq<
    ChangeView,
> {
    arranged(matching_changes(records, owner, since), dating_rule())
}

/// What the reports say, one for one.
pub open spec fn change_views(changes: Seq<FileChange>) -> Seq<ChangeView> {
    changes.map_values(|change: FileChange| change@)
}

/// The feed is in ascending order of modification and holds the reports
/// for the matching records, each as often as its record is there.
pub proof fn lemma_feed(records: Seq<MetadataView>, owner: u128, since: Timestamp)
    ensures
        in_time_order(feed_of(records, owner, since)),
        feed_of(records, owner, since).to_multiset() == matching_changes(
            records,
            owner,
            since,
        ).to_multiset(),
        feed_of(records, owner, since).len() == matching_changes(records, owner, since).len(),
{
    let rule = dating_rule();
    assert(is_strict_weak(rule)) by {
        assert forall|a: ChangeView, b: ChangeView| #[trigger] rule(a, b) implies !rule(b, a) by {}
        assert forall|a: ChangeView, b: ChangeView, c: ChangeView|
            !#[trigger] rule(b, a) && !#[trigger] rule(c, b) implies !rule(c, a) by {}
    }
    lemma_arranged(matching_changes(records, owner, since), rule);
    let feed = feed_of(records, owner, since);
    assert forall|i: int, j: int| 0 <= i < j < feed.len() implies (
    #[trigger] feed[i]).timestamp.not_after((#[trigger] feed[j]).timestamp) by {
        assert(!rule(feed[j], feed[i]));
    }
}

/// Where the store hands its records over in ascending order of
/// modification, the feed reports them in the order of the records.
pub proof fn lemma_feed_keeps_order(records: Seq<MetadataView>, owner: u128, since: Timestamp)
    requires
        in_time_order(matching_changes(records, owner, since)),
    ensures
        feed_of(records, owner, since) == matching_changes(records, owner, since),
{
    let matched = matching_changes(records, owner, since);
    assert(is_ordered(matched, dating_rule())) by {
        assert forall|i: int, j: int| 0 <= i < j < matched.len() implies !dating_rule()(
            #[trigger] matched[j],
            #[trigger] matched[i],
        ) by {
            assert(matched[i].timestamp.not_after(matched[j].timestamp));
        }
    }
    lemma_arranged_fixed(matched, dating_rule());
}

/// The changes that a client with the cursor `since` has to pull.
///
/// `records` are records of the metadata store. The feed holds one
/// report for each of them that belongs to `user_id` and was modified
/// after `since`, and nothing else; the reports are in ascending order of
/// modification, and those of records modified at the same time are in
/// the order of the records.
pub fn get_files_changed_since(records: &Vec<FileMetadata>, user_id: u128, since: Timestamp) -> (changes:
    Vec<FileChange>)
    ensures
        change_views(changes@) == feed_of(record_views(records@), user_id, since),
        in_time_order(change_views(changes@)),
        change_views(changes@).to_multiset() == matching_changes(
            record_views(records@),
            user_id,
            since,
        ).to_multiset(),
        changes@.len() == matching_changes(record_views(records@), user_id, since).len(),
{
    let mut changes: Vec<FileChange> = Vec::new();
    let mut i: usize = 0;
    proof {
        assert(record_views(records@.take(0)) =~= Seq::<MetadataView>::empty());
        assert(change_views(changes@) =~= Seq::<ChangeView>::empty());
    }
    while i < records.len()
        invariant
            i <= records.len(),
            change_views(changes@) == feed_of(
                record_views(records@.take(i as int)),
                user_id,
                since,
            ),
        decreases records.len() - i,
    {
        let record = &records[i];
        proof {
            let seen = record_views(records@.take(i + 1));
            assert(seen.drop_last() =~= record_views(records@.take(i as int)));
            assert(seen.last() == record@);
        }
        if record.owner_id == user_id && record.modified_at.is_after(&since) {
            let change = FileChange {
                file_id: record.id,
                change_type: ChangeType::Modified,
                path: record.path.clone(),
                metadata: Some(record.clone()),
                timestamp: record.modified_at,
            };
            let mut at: usize = changes.len();
            while at > 0 && changes[at - 1].timestamp.is_after(&change.timestamp)
                invariant
                    at <= changes@.len(),
                    forall|k: int|
                        at <= k < changes@.len() ==> change.timestamp.before(
                            (#[trigger] change_views(changes@)[k]).timestamp,
                        ),
                decreases at,
            {
                at -= 1;
            }
            proof {
                let before = change_views(changes@);
                assert forall|k: int| at <= k < before.len() implies dating_rule()(
                    change@,
                    #[trigger] before[k],
                ) by {}
                lemma_insert_at(before, change@, dating_rule(), at as int);
                assert(change_views(changes@.insert(at as int, change)) =~= before.insert(
                    at as int,
                    change@,
                ));
                let matched = matching_changes(
                    record_views(records@.take(i as int)),
                    user_id,
                    since,
                );
                assert(matched.push(change@).drop_last() =~= matched);
            }
            changes.insert(at, change);
        }
        i += 1;
    }
    proof {
        assert(records@.take(i as int) =~= records@);
        lemma_feed(record_views(records@), user_id, since);
    }
    changes
}

/// What is in the feed: a report stands in it exactly if it is the report
/// for one of the records that belongs to the owner and was modified
/// after the cursor. So every report is marked as modified, carries the
/// record it was made from, and is dated after the cursor.
pub proof fn lemma_feed_members(records: Seq<MetadataView>, owner: u128, since: Timestamp)
    ensures
        forall|change: ChangeView| #[trigger]
            matching_changes(records, owner, since).contains(change) <==> exists|k: int|
                0 <= k < records.len() && is_change(#[trigger] records[k], owner, since) && change
                    == change_for(records[k]),
    decreases records.len(),
{
    let feed = matching_changes(records, owner, since);
    if records.len() > 0 {
        let front = records.drop_last();
        let last = records.last();
        let earlier = matching_changes(front, owner, since);
        lemma_feed_members(front, owner, since);
        assert forall|change: ChangeView| #[trigger] feed.contains(change) implies exists|k: int|
            0 <= k < records.len() && is_change(#[trigger] records[k], owner, since) && change
                == change_for(records[k]) by {
            let at = choose|at: int| 0 <= at < feed.len() && feed[at] == change;
            if is_change(last, owner, since) && at == feed.len() - 1 {
                assert(records[records.len() - 1] == last);
            } else {
                assert(earlier[at] == change);
                assert(earlier.contains(change));
                let k = choose|k: int|
                    0 <= k < front.len() && is_change(#[trigger] front[k], owner, since) && change
                        == change_for(front[k]);
                assert(records[k] == front[k]);
            }
        }
        assert forall|change: ChangeView|
            (exists|k: int|
                0 <= k < records.len() && is_change(#[trigger] records[k], owner, since) && change
                    == change_for(records[k])) implies #[trigger] feed.contains(change) by {
            let k = choose|k: int|
                0 <= k < records.len() && is_change(#[trigger] records[k], owner, since) && change
                    == change_for(records[k]);
            if k == records.len() - 1 {
                assert(feed[feed.len() - 1] == change);
            } else {
                assert(front[k] == records[k]);
                assert(earlier.contains(change));
                let at = choose|at: int| 0 <= at < earlier.len() && earlier[at] == change;
                assert(feed[at] == change);
            }
        }
    }
}

/// A client that is up to date has nothing to pull: if no record of the
/// owner was modified after the cursor, the feed is empty. This holds in
/// particular for a cursor at the latest modification.
pub proof fn lemma_feed_empty_at_latest(records: Seq<MetadataView>, owner: u128, cursor: Timestamp)
    requires
        forall|k: int|
            0 <= k < records.len() && (#[trigger] records[k]).owner_id == owner
                ==> records[k].modified_at.not_after(cursor),
    ensures
        matching_changes(records, owner, cursor) == Seq::<ChangeView>::empty(),
    decreases records.len(),
{
    if records.len() > 0 {
        let front = records.drop_last();
        assert forall|k: int|
            0 <= k < front.len() && (#[trigger] front[k]).owner_id
                == owner implies front[k].modified_at.not_after(cursor) by {
            assert(front[k] == records[k]);
        }
        lemma_feed_empty_at_latest(front, owner, cursor);
        assert(records[records.len() - 1] == records.last());
    }
}

/// A later cursor asks for no more: the feed for a cursor holds at least
/// as many reports as the feed for any cursor after it.
pub proof fn lemma_feed_shrinks(
    records: Seq<MetadataView>,
    owner: u128,
    earlier: Timestamp,
    later: Timestamp,
)
    requires
        earlier.not_after(later),
    ensures
        matching_changes(records, owner, later).len() <= matching_changes(
            records,
            owner,
            earlier,
        ).len(),
    decreases records.len(),
{
    if records.len() > 0 {
        lemma_feed_shrinks(records.drop_last(), owner, earlier, later);
    }
}

} // verus!
