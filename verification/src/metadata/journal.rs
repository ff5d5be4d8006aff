//! What commits leave among the records, and what peers are told of it.

use vstd::prelude::*;

use crate::error::AppError;
use crate::metadata::commit;
use crate::metadata::commit::{CommitEventView, CommitState};
use crate::metadata::models::{FileRecord, NewRecordView, RecordView};
use crate::metadata::records;
use crate::metadata::response::CommitStatus;
use crate::text;

verus! {

/// What a commit comes to: the records after it, its answer, and whether the
/// other clients are notified.
pub struct Outcome {
    pub rows: Seq<RecordView>,
    pub status: CommitStatus,
    pub notified: bool,
}

/// What a commit of a record comes to, where a new record gets the id `id`: a
/// record that repeats the file's latest one is not stored again.
pub open spec fn committed(rows: Seq<RecordView>, record: NewRecordView, id: i32) -> Outcome {
    match records::latest(rows, record.user_id, record.path) {
        Some(existing) if record.repeats(existing) => Outcome {
            rows,
            status: CommitStatus::Success(existing.id),
            notified: false,
        },
        _ => Outcome {
            rows: rows.push(record.stored_as(id)),
            status: CommitStatus::Success(id),
            notified: true,
        },
    }
}

/// Whether an id is greater than that of every record.
pub open spec fn is_fresh(rows: Seq<RecordView>, id: i32) -> bool {
    forall|i: int| 0 <= i < rows.len() ==> (#[trigger] rows[i]).id < id
}

/// A commit by the client `uuid` whose chunks are all there comes to its
/// outcome: it looks up the latest record, and where that is not repeated
/// inserts the record and then notifies, once and for that client.
pub proof fn law_a_commit_comes_to_its_outcome(
    rows: Seq<RecordView>,
    record: NewRecordView,
    uuid: Seq<char>,
    id: i32,
)
    ensures
        ({
            let first = commit::begun(record, uuid, Seq::empty());
            let looked_up = CommitEventView::Latest(
                records::latest(rows, record.user_id, record.path),
            );
            let second = commit::after(first, looked_up);
            let outcome = committed(rows, record, id);
            &&& first == CommitState::LookUp(record, uuid)
            &&& commit::expects(first, looked_up)
            &&& !outcome.notified ==> second == CommitState::Finished(Ok(outcome.status))
            &&& outcome.notified ==> {
                let third = commit::after(second, CommitEventView::Inserted(id));
                let fourth = commit::after(third, CommitEventView::Notified);
                &&& second == CommitState::Insert(record, uuid)
                &&& commit::expects(second, CommitEventView::Inserted(id))
                &&& third == CommitState::Notify(id, uuid)
                &&& commit::expects(third, CommitEventView::Notified)
                &&& fourth == CommitState::Finished(Ok(outcome.status))
            }
        }),
{
}

/// A commit whose database fails is over at once, without an answer of its own:
/// it is answered with a 500.
pub proof fn law_a_failed_database_ends_the_commit(state: CommitState)
    requires
        state is LookUp || state is Insert,
    ensures
        commit::expects(state, CommitEventView::DatabaseFailed),
        commit::after(state, CommitEventView::DatabaseFailed) == CommitState::Finished(
            Err(AppError),
        ),
{
}

/// A commit that lacks chunks records nothing: it is over at once, and its
/// answer lists the chunks.
pub proof fn law_missing_chunks_record_nothing(
    record: NewRecordView,
    uuid: Seq<char>,
    missing: Seq<Seq<char>>,
)
    requires
        missing.len() > 0,
    ensures
        commit::begun(record, uuid, missing) == CommitState::Finished(
            Ok(CommitStatus::NeedChunks(text::joined(missing, ","@))),
        ),
{
}

/// The latest record about a file is among the records, about that file, and
/// no later one is.
proof fn lemma_latest_index(rows: Seq<RecordView>, user_id: i32, path: Seq<char>) -> (i: int)
    ensures
        records::latest(rows, user_id, path) matches Some(row) ==> {
            &&& 0 <= i < rows.len()
            &&& rows[i] == row
            &&& records::is_about(row, user_id, path)
            &&& records::is_latest(rows, i)
        },
        records::latest(rows, user_id, path) is None ==> forall|j: int|
            0 <= j < rows.len() ==> !records::is_about(#[trigger] rows[j], user_id, path),
    decreases rows.len(),
{
    if rows.len() == 0 {
        0
    } else if records::is_about(rows.last(), user_id, path) {
        rows.len() - 1
    } else {
        let shorter = rows.drop_last();
        let i = lemma_latest_index(shorter, user_id, path);
        assert forall|j: int| 0 <= j < rows.len() && j != rows.len() - 1 implies #[trigger] rows[j]
            == shorter[j] by {}
        i
    }
}

proof fn lemma_latest_unique(rows: Seq<RecordView>, i: int)
    requires
        0 <= i < rows.len(),
        records::is_latest(rows, i),
    ensures
        records::latest(rows, rows[i].user_id, rows[i].path) == Some(rows[i]),
    decreases rows.len(),
{
    if i < rows.len() - 1 {
        let shorter = rows.drop_last();
        assert(!records::is_about(rows[rows.len() - 1], rows[i].user_id, rows[i].path));
        assert forall|j: int| i < j < shorter.len() implies !records::is_about(
            #[trigger] shorter[j],
            shorter[i].user_id,
            shorter[i].path,
        ) by {
            assert(shorter[j] == rows[j]);
        }
        lemma_latest_unique(shorter, i);
    }
}

proof fn lemma_news(rows: Seq<RecordView>, user_id: i32, jid: i32, n: int, row: RecordView)
    requires
        0 <= n <= rows.len(),
    ensures
        records::news(rows, user_id, jid, n).contains(row) <==> exists|i: int|
            0 <= i < n && rows[i] == row && #[trigger] records::is_news(rows, user_id, jid, i),
    decreases n,
{
    if n > 0 {
        let before = records::news(rows, user_id, jid, n - 1);
        lemma_news(rows, user_id, jid, n - 1, row);
        if records::is_news(rows, user_id, jid, n - 1) {
            let all = before.push(rows[n - 1]);
            if before.contains(row) {
                let k = choose|k: int| 0 <= k < before.len() && before[k] == row;
                assert(all[k] == row);
            }
            if rows[n - 1] == row {
                assert(all[before.len() as int] == row);
            }
            if all.contains(row) && row != rows[n - 1] {
                let k = choose|k: int| 0 <= k < all.len() && all[k] == row;
                assert(before[k] == row);
            }
        }
    }
}

/// A peer is told of exactly the records that it does not know and that are
/// the latest of their file.
pub proof fn law_the_latest_records_are_listed(
    rows: Seq<RecordView>,
    user_id: i32,
    jid: i32,
    row: RecordView,
)
    ensures
        records::listed(rows, user_id, jid).contains(row) <==> {
            &&& row.user_id == user_id
            &&& row.id > jid
            &&& records::latest(rows, user_id, row.path) == Some(row)
        },
{
    lemma_news(rows, user_id, jid, rows.len() as int, row);
    if records::listed(rows, user_id, jid).contains(row) {
        let i = choose|i: int|
            0 <= i < rows.len() && rows[i] == row && #[trigger] records::is_news(
                rows,
                user_id,
                jid,
                i,
            );
        lemma_latest_unique(rows, i);
    }
    if row.user_id == user_id && row.id > jid && records::latest(
        rows,
        user_id,
        row.path,
    ) == Some(row) {
        let i = lemma_latest_index(rows, user_id, row.path);
        assert(records::is_news(rows, user_id, jid, i));
    }
}

/// Where ids grow from record to record, the latest record about a file is the
/// one with the greatest id.
pub proof fn law_the_latest_record_has_the_greatest_id(
    rows: Seq<RecordView>,
    user_id: i32,
    path: Seq<char>,
    row: RecordView,
)
    requires
        records::ascending(rows),
    ensures
        records::latest(rows, user_id, path) == Some(row) <==> {
            &&& rows.contains(row)
            &&& records::is_about(row, user_id, path)
            &&& forall|k: int|
                0 <= k < rows.len() && records::is_about(#[trigger] rows[k], user_id, path)
                    ==> rows[k].id <= row.id
        },
{
    let i = lemma_latest_index(rows, user_id, path);
    if records::latest(rows, user_id, path) == Some(row) {
        assert(rows[i] == row);
    }
    if rows.contains(row) && records::is_about(row, user_id, path) && (forall|k: int|
        0 <= k < rows.len() && records::is_about(#[trigger] rows[k], user_id, path)
            ==> rows[k].id <= row.id) {
        let k = choose|k: int| 0 <= k < rows.len() && rows[k] == row;
        assert(records::is_about(rows[k], user_id, path));
        assert(records::latest(rows, user_id, path) == Some(rows[i]));
        assert(rows[i].id <= rows[k].id);
        assert(i == k);
    }
}

/// Where ids grow from record to record, a peer is told of exactly the records
/// of its user above the given id that no record of the same file exceeds.
pub proof fn law_a_listing_goes_by_ids(
    rows: Seq<RecordView>,
    user_id: i32,
    jid: i32,
    row: RecordView,
)
    requires
        records::ascending(rows),
    ensures
        records::listed(rows, user_id, jid).contains(row) <==> {
            &&& rows.contains(row)
            &&& row.user_id == user_id
            &&& row.id > jid
            &&& forall|k: int|
                0 <= k < rows.len() && records::is_about(#[trigger] rows[k], user_id, row.path)
                    ==> rows[k].id <= row.id
        },
{
    law_the_latest_records_are_listed(rows, user_id, jid, row);
    law_the_latest_record_has_the_greatest_id(rows, user_id, row.path, row);
}

proof fn lemma_later_news(rows: Seq<RecordView>, user_id: i32, jid: i32, later: i32, n: int)
    requires
        jid <= later,
        0 <= n <= rows.len(),
    ensures
        records::news(rows, user_id, later, n) == records::news(rows, user_id, jid, n).filter(
            |row: RecordView| row.id > later,
        ),
    decreases n,
{
    reveal(Seq::filter);
    if n > 0 {
        lemma_later_news(rows, user_id, jid, later, n - 1);
        let before = records::news(rows, user_id, jid, n - 1);
        if records::is_news(rows, user_id, jid, n - 1) {
            assert(before.push(rows[n - 1]).drop_last() == before);
        }
    }
}

/// A listing from a later id is the listing from an earlier one, restricted to
/// the records above the later id.
pub proof fn law_a_later_listing_is_part_of_an_earlier_one(
    rows: Seq<RecordView>,
    user_id: i32,
    jid: i32,
    later: i32,
)
    requires
        jid <= later,
    ensures
        records::listed(rows, user_id, later) == records::listed(rows, user_id, jid).filter(
            |row: RecordView| row.id > later,
        ),
{
    lemma_later_news(rows, user_id, jid, later, rows.len() as int);
}

proof fn lemma_news_ascend(rows: Seq<RecordView>, user_id: i32, jid: i32, n: int)
    requires
        records::ascending(rows),
        0 <= n <= rows.len(),
    ensures
        records::ascending(records::news(rows, user_id, jid, n)),
        forall|k: int|
            0 <= k < records::news(rows, user_id, jid, n).len() ==> exists|i: int|
                0 <= i < n && #[trigger] rows[i] == #[trigger] records::news(
                    rows,
                    user_id,
                    jid,
                    n,
                )[k],
    decreases n,
{
    if n > 0 {
        lemma_news_ascend(rows, user_id, jid, n - 1);
        let before = records::news(rows, user_id, jid, n - 1);
        let all = records::news(rows, user_id, jid, n);
        assert forall|k: int| 0 <= k < all.len() implies exists|i: int|
            0 <= i < n && #[trigger] rows[i] == #[trigger] all[k] by {
            if k < before.len() {
                let i = choose|i: int| 0 <= i < n - 1 && #[trigger] rows[i] == before[k];
                assert(rows[i] == all[k]);
            } else {
                assert(rows[n - 1] == all[k]);
            }
        }
        assert forall|a: int, b: int| 0 <= a < b < all.len() implies (#[trigger] all[a]).id < (
        #[trigger] all[b]).id by {
            if b < before.len() {
                assert(before[a].id < before[b].id);
            } else {
                let i = choose|i: int| 0 <= i < n - 1 && #[trigger] rows[i] == before[a];
                assert(rows[i].id < rows[n - 1].id);
            }
        }
    }
}

/// A listing goes from earlier to later records and names every path once.
pub proof fn law_a_listing_names_each_path_once(
    rows: Seq<RecordView>,
    user_id: i32,
    jid: i32,
    a: int,
    b: int,
)
    requires
        records::ascending(rows),
        0 <= a < b < records::listed(rows, user_id, jid).len(),
    ensures
        records::listed(rows, user_id, jid)[a].id
            < records::listed(rows, user_id, jid)[b].id,
        records::listed(rows, user_id, jid)[a].path
            != records::listed(rows, user_id, jid)[b].path,
{
    let list = records::listed(rows, user_id, jid);
    lemma_news_ascend(rows, user_id, jid, rows.len() as int);
    law_the_latest_records_are_listed(rows, user_id, jid, list[a]);
    law_the_latest_records_are_listed(rows, user_id, jid, list[b]);
    assert(list.contains(list[a]));
    assert(list.contains(list[b]));
}

/// A peer that knows every record is told of nothing.
pub proof fn law_an_up_to_date_peer_is_told_nothing(rows: Seq<RecordView>, user_id: i32, jid: i32)
    requires
        forall|i: int| 0 <= i < rows.len() ==> (#[trigger] rows[i]).id <= jid,
    ensures
        records::listed(rows, user_id, jid).len() == 0,
{
    let list = records::listed(rows, user_id, jid);
    if list.len() > 0 {
        let row = list[0];
        assert(list.contains(row));
        law_the_latest_records_are_listed(rows, user_id, jid, row);
        let i = lemma_latest_index(rows, user_id, row.path);
        assert(rows[i] == row);
    }
}

proof fn lemma_latest_after_push(
    rows: Seq<RecordView>,
    row: RecordView,
    user_id: i32,
    path: Seq<char>,
)
    ensures
        records::latest(rows.push(row), user_id, path)
            == if records::is_about(row, user_id, path) {
            Some(row)
        } else {
            records::latest(rows, user_id, path)
        },
{
    assert(rows.push(row).drop_last() == rows);
}

/// After a commit, the file's latest record is the committed state under the
/// id in the answer; every other file's latest record is what it was.
pub proof fn law_a_commit_is_the_latest_of_its_file(
    rows: Seq<RecordView>,
    record: NewRecordView,
    id: i32,
    user_id: i32,
    path: Seq<char>,
)
    ensures
        ({
            let outcome = committed(rows, record, id);
            &&& outcome.status is Success
            &&& records::latest(outcome.rows, record.user_id, record.path) == Some(
                record.stored_as(outcome.status->Success_0),
            )
            &&& (user_id != record.user_id || path != record.path)
                ==> records::latest(outcome.rows, user_id, path)
                == records::latest(rows, user_id, path)
        }),
{
    let _ = lemma_latest_index(rows, record.user_id, record.path);
    lemma_latest_after_push(rows, record.stored_as(id), record.user_id, record.path);
    lemma_latest_after_push(rows, record.stored_as(id), user_id, path);
}

/// A committed file is listed for every peer of the account that does not know
/// its record, and it is the only record of its path in the listing.
pub proof fn law_a_commit_is_listed_for_the_peers(
    rows: Seq<RecordView>,
    record: NewRecordView,
    id: i32,
    jid: i32,
)
    requires
        committed(rows, record, id).status->Success_0 > jid,
    ensures
        ({
            let outcome = committed(rows, record, id);
            let kept = record.stored_as(outcome.status->Success_0);
            let list = records::listed(outcome.rows, record.user_id, jid);
            &&& list.contains(kept)
            &&& forall|row: RecordView| #[trigger]
                list.contains(row) && row.path == record.path ==> row == kept
        }),
{
    let outcome = committed(rows, record, id);
    let kept = record.stored_as(outcome.status->Success_0);
    let list = records::listed(outcome.rows, record.user_id, jid);
    law_a_commit_is_the_latest_of_its_file(rows, record, id, record.user_id, record.path);
    law_the_latest_records_are_listed(outcome.rows, record.user_id, jid, kept);
    assert forall|row: RecordView| #[trigger]
        list.contains(row) && row.path == record.path implies row == kept by {
        law_the_latest_records_are_listed(outcome.rows, record.user_id, jid, row);
    }
}

/// Committing the same state again changes nothing: no record is added, nobody
/// is notified, and the answer is the same.
pub proof fn law_recommitting_changes_nothing(
    rows: Seq<RecordView>,
    record: NewRecordView,
    id: i32,
    other_id: i32,
)
    ensures
        ({
            let first = committed(rows, record, id);
            committed(first.rows, record, other_id) == (Outcome {
                rows: first.rows,
                status: first.status,
                notified: false,
            })
        }),
{
    law_a_commit_is_the_latest_of_its_file(rows, record, id, record.user_id, record.path);
}

/// The others are notified of a commit exactly where it added a record.
pub proof fn law_notified_exactly_of_new_records(
    rows: Seq<RecordView>,
    record: NewRecordView,
    id: i32,
)
    ensures
        ({
            let outcome = committed(rows, record, id);
            &&& outcome.notified ==> outcome.rows == rows.push(record.stored_as(id))
            &&& !outcome.notified ==> outcome.rows == rows
        }),
{
}

/// With fresh ids, the records stay in the order of their ids.
pub proof fn law_records_stay_in_order(rows: Seq<RecordView>, record: NewRecordView, id: i32)
    requires
        records::ascending(rows),
        is_fresh(rows, id),
    ensures
        records::ascending(committed(rows, record, id).rows),
{
}

/// A user has files exactly where the latest record of one of their files is
/// not its deletion.
pub proof fn law_a_file_counts_until_it_is_deleted(rows: Seq<RecordView>, user_id: i32)
    ensures
        records::has_file(rows, user_id) <==> exists|path: Seq<char>|
            (#[trigger] records::latest(rows, user_id, path)) matches Some(row)
                && !row.deleted,
{
    if records::has_file(rows, user_id) {
        let i = choose|i: int|
            0 <= i < rows.len() && (#[trigger] rows[i]).user_id == user_id
                && records::is_latest(rows, i) && !rows[i].deleted;
        lemma_latest_unique(rows, i);
        assert(records::latest(rows, user_id, rows[i].path) == Some(rows[i]));
    }
    if exists|path: Seq<char>|
        (#[trigger] records::latest(rows, user_id, path)) matches Some(row)
            && !row.deleted {
        let path = choose|path: Seq<char>|
            (#[trigger] records::latest(rows, user_id, path)) matches Some(row)
                && !row.deleted;
        let i = lemma_latest_index(rows, user_id, path);
        assert(rows[i].user_id == user_id);
    }
}

/// A user has files exactly where a listing from below all of their records
/// holds one that is not a deletion.
pub proof fn law_has_files_agrees_with_a_full_listing(
    rows: Seq<RecordView>,
    user_id: i32,
    jid: i32,
)
    requires
        forall|i: int|
            0 <= i < rows.len() && (#[trigger] rows[i]).user_id == user_id ==> rows[i].id > jid,
    ensures
        records::has_file(rows, user_id) <==> exists|k: int|
            0 <= k < records::listed(rows, user_id, jid).len() && !(#[trigger] records::listed(
                rows,
                user_id,
                jid,
            )[k]).deleted,
{
    let list = records::listed(rows, user_id, jid);
    if records::has_file(rows, user_id) {
        let i = choose|i: int|
            0 <= i < rows.len() && (#[trigger] rows[i]).user_id == user_id
                && records::is_latest(rows, i) && !rows[i].deleted;
        lemma_latest_unique(rows, i);
        law_the_latest_records_are_listed(rows, user_id, jid, rows[i]);
        assert(list.contains(rows[i]));
        let k = choose|k: int| 0 <= k < list.len() && list[k] == rows[i];
        assert(!list[k].deleted);
    }
    if exists|k: int| 0 <= k < list.len() && !(#[trigger] list[k]).deleted {
        let k = choose|k: int| 0 <= k < list.len() && !(#[trigger] list[k]).deleted;
        assert(list.contains(list[k]));
        law_the_latest_records_are_listed(rows, user_id, jid, list[k]);
        law_a_file_counts_until_it_is_deleted(rows, user_id);
        assert(records::latest(rows, user_id, list[k].path) == Some(list[k]));
    }
}

proof fn lemma_latest_of_own(rows: Seq<RecordView>, user_id: i32, path: Seq<char>)
    ensures
        records::latest(
            rows.filter(|row: RecordView| row.user_id == user_id),
            user_id,
            path,
        ) == records::latest(rows, user_id, path),
    decreases rows.len(),
{
    reveal(Seq::filter);
    if rows.len() > 0 {
        let own = rows.drop_last().filter(|row: RecordView| row.user_id == user_id);
        lemma_latest_of_own(rows.drop_last(), user_id, path);
        if rows.last().user_id == user_id {
            assert(own.push(rows.last()).drop_last() == own);
        }
    }
}

/// Only a user's own records count: what their peers are told and whether they
/// have files is the same over all records as over theirs alone.
pub proof fn law_only_own_records_count(
    rows: Seq<RecordView>,
    user_id: i32,
    jid: i32,
    row: RecordView,
)
    ensures
        ({
            let own = rows.filter(|other: RecordView| other.user_id == user_id);
            &&& records::listed(own, user_id, jid).contains(row) <==> records::listed(
                rows,
                user_id,
                jid,
            ).contains(row)
            &&& records::has_file(own, user_id) == records::has_file(rows, user_id)
            &&& records::latest(own, user_id, row.path) == records::latest(
                rows,
                user_id,
                row.path,
            )
        }),
{
    let own = rows.filter(|other: RecordView| other.user_id == user_id);
    assert forall|path: Seq<char>| #[trigger]
        records::latest(own, user_id, path) == records::latest(rows, user_id, path) by {
        lemma_latest_of_own(rows, user_id, path);
    }
    law_the_latest_records_are_listed(own, user_id, jid, row);
    law_the_latest_records_are_listed(rows, user_id, jid, row);
    law_a_file_counts_until_it_is_deleted(own, user_id);
    law_a_file_counts_until_it_is_deleted(rows, user_id);
    if records::has_file(rows, user_id) {
        let path = choose|path: Seq<char>|
            (#[trigger] records::latest(rows, user_id, path)) matches Some(found)
                && !found.deleted;
        assert(records::latest(own, user_id, path) == records::latest(rows, user_id, path));
    }
}

/// Committing a file that is not deleted gives its user files; committing the
/// deletion of the only one takes them away again.
pub proof fn law_has_files_follows_commits(rows: Seq<RecordView>, record: NewRecordView, id: i32)
    ensures
        !record.deleted ==> records::has_file(committed(rows, record, id).rows, record.user_id),
        record.deleted && (forall|path: Seq<char>|
            path != record.path ==> ((#[trigger] records::latest(
                rows,
                record.user_id,
                path,
            )) matches Some(row) ==> row.deleted)) ==> !records::has_file(
            committed(rows, record, id).rows,
            record.user_id,
        ),
{
    let after = committed(rows, record, id).rows;
    law_a_commit_is_the_latest_of_its_file(rows, record, id, record.user_id, record.path);
    law_a_file_counts_until_it_is_deleted(after, record.user_id);
    if record.deleted && (forall|path: Seq<char>|
        path != record.path ==> ((#[trigger] records::latest(
            rows,
            record.user_id,
            path,
        )) matches Some(row) ==> row.deleted)) {
        assert forall|path: Seq<char>|
            (#[trigger] records::latest(after, record.user_id, path)) is Some implies
            records::latest(after, record.user_id, path)->0.deleted by {
            law_a_commit_is_the_latest_of_its_file(rows, record, id, record.user_id, path);
        }
    }
}

/// A commit changes nothing for other accounts: what their peers are told and
/// whether they have files stays the same.
pub proof fn law_other_accounts_are_untouched(
    rows: Seq<RecordView>,
    record: NewRecordView,
    id: i32,
    user_id: i32,
    jid: i32,
)
    requires
        user_id != record.user_id,
    ensures
        records::listed(committed(rows, record, id).rows, user_id, jid)
            == records::listed(rows, user_id, jid),
        records::has_file(committed(rows, record, id).rows, user_id)
            == records::has_file(rows, user_id),
{
    let row = record.stored_as(id);
    let longer = rows.push(row);
    assert forall|i: int| 0 <= i < rows.len() && rows[i].user_id == user_id implies
        records::is_latest(rows, i) == #[trigger] records::is_latest(
        longer,
        i,
    ) by {
        assert(longer[i] == rows[i]);
        if records::is_latest(rows, i) {
            assert forall|j: int| i < j < longer.len() implies !records::is_about(
                #[trigger] longer[j],
                longer[i].user_id,
                longer[i].path,
            ) by {
                if j < rows.len() {
                    assert(longer[j] == rows[j]);
                }
            }
        }
        if records::is_latest(longer, i) {
            assert forall|j: int| i < j < rows.len() implies !records::is_about(
                #[trigger] rows[j],
                rows[i].user_id,
                rows[i].path,
            ) by {
                assert(longer[j] == rows[j]);
            }
        }
    }
    lemma_same_news(rows, longer, user_id, jid, rows.len() as int);
    if records::has_file(rows, user_id) {
        let i = choose|i: int|
            0 <= i < rows.len() && (#[trigger] rows[i]).user_id == user_id
                && records::is_latest(rows, i) && !rows[i].deleted;
        assert(longer[i] == rows[i]);
        assert(records::is_latest(longer, i));
    }
    if records::has_file(longer, user_id) {
        let i = choose|i: int|
            0 <= i < longer.len() && (#[trigger] longer[i]).user_id == user_id
                && records::is_latest(longer, i) && !longer[i].deleted;
        assert(i < rows.len());
        assert(longer[i] == rows[i]);
    }
}

proof fn lemma_same_news(
    rows: Seq<RecordView>,
    longer: Seq<RecordView>,
    user_id: i32,
    jid: i32,
    n: int,
)
    requires
        0 <= n <= rows.len() <= longer.len(),
        forall|i: int| 0 <= i < rows.len() ==> #[trigger] longer[i] == rows[i],
        forall|i: int|
            0 <= i < rows.len() && rows[i].user_id == user_id ==> records::is_latest(
                rows,
                i,
            ) == #[trigger] records::is_latest(longer, i),
    ensures
        records::news(longer, user_id, jid, n) == records::news(rows, user_id, jid, n),
    decreases n,
{
    if n > 0 {
        lemma_same_news(rows, longer, user_id, jid, n - 1);
        assert(longer[n - 1] == rows[n - 1]);
        assert(rows[n - 1].user_id == user_id ==> records::is_latest(rows, n - 1)
            == records::is_latest(longer, n - 1));
    }
}

/// Records are about a file of a user by both, and by nothing else; they are
/// shown whole and in order.
pub proof fn law_a_record_is_about_one_file(
    row: RecordView,
    user_id: i32,
    path: Seq<char>,
    stored: Seq<FileRecord>,
)
    ensures
        records::is_about(row, user_id, path) <==> row.user_id == user_id && row.path == path,
        records::rows_view(stored).len() == stored.len(),
        forall|i: int|
            0 <= i < stored.len() ==> #[trigger] records::rows_view(stored)[i] == stored[i]@,
        records::ascending(records::rows_view(stored)) <==> forall|i: int, j: int|
            0 <= i < j < stored.len() ==> (#[trigger] stored[i]).id < (#[trigger] stored[j]).id,
{
    let rows = records::rows_view(stored);
    if records::ascending(rows) {
        assert forall|i: int, j: int| 0 <= i < j < stored.len() implies (#[trigger] stored[i]).id
            < (#[trigger] stored[j]).id by {
            assert(rows[i].id < rows[j].id);
        }
    }
}

/// The latest record of a file goes record by record: none is known of no
/// records, and a record that is added is the latest of its own file and
/// changes nothing for others.
pub proof fn law_a_record_added_is_the_latest_of_its_file(
    rows: Seq<RecordView>,
    row: RecordView,
    user_id: i32,
    path: Seq<char>,
)
    ensures
        records::latest(Seq::empty(), user_id, path) is None,
        row.user_id == user_id && row.path == path ==> records::latest(
            rows.push(row),
            user_id,
            path,
        ) == Some(row),
        row.user_id != user_id || row.path != path ==> records::latest(
            rows.push(row),
            user_id,
            path,
        ) == records::latest(rows, user_id, path),
{
    lemma_latest_after_push(rows, row, user_id, path);
}

proof fn lemma_latest_still(rows: Seq<RecordView>, row: RecordView, i: int)
    requires
        0 <= i < rows.len(),
    ensures
        records::is_latest(rows.push(row), i) <==> records::is_latest(rows, i) && !(row.user_id
            == rows[i].user_id && row.path == rows[i].path),
{
    let longer = rows.push(row);
    assert(longer[i] == rows[i]);
    if records::is_latest(longer, i) {
        assert(!records::is_about(longer[rows.len() as int], rows[i].user_id, rows[i].path));
        assert forall|j: int| i < j < rows.len() implies !records::is_about(
            #[trigger] rows[j],
            rows[i].user_id,
            rows[i].path,
        ) by {
            assert(longer[j] == rows[j]);
        }
    }
    if records::is_latest(rows, i) && !(row.user_id == rows[i].user_id && row.path
        == rows[i].path) {
        assert forall|j: int| i < j < longer.len() implies !records::is_about(
            #[trigger] longer[j],
            longer[i].user_id,
            longer[i].path,
        ) by {
            if j < rows.len() {
                assert(longer[j] == rows[j]);
            }
        }
    }
}

proof fn lemma_news_after_push(
    rows: Seq<RecordView>,
    row: RecordView,
    user_id: i32,
    jid: i32,
    n: int,
)
    requires
        0 <= n <= rows.len(),
    ensures
        row.user_id == user_id ==> records::news(rows.push(row), user_id, jid, n) == records::news(
            rows,
            user_id,
            jid,
            n,
        ).filter(|other: RecordView| other.path != row.path),
        row.user_id != user_id ==> records::news(rows.push(row), user_id, jid, n) == records::news(
            rows,
            user_id,
            jid,
            n,
        ),
    decreases n,
{
    reveal(Seq::filter);
    if n > 0 {
        lemma_news_after_push(rows, row, user_id, jid, n - 1);
        lemma_latest_still(rows, row, n - 1);
        assert(rows.push(row)[n - 1] == rows[n - 1]);
        let before = records::news(rows, user_id, jid, n - 1);
        assert(before.push(rows[n - 1]).drop_last() == before);
    }
}

/// A listing goes record by record: none come of no records, a record of
/// another user changes nothing, and one of the user's own takes the place of
/// the record of the same file and comes last, where it is above the id asked
/// for.
pub proof fn law_a_record_added_takes_its_place_in_a_listing(
    rows: Seq<RecordView>,
    row: RecordView,
    user_id: i32,
    jid: i32,
)
    ensures
        records::listed(Seq::empty(), user_id, jid).len() == 0,
        row.user_id != user_id ==> records::listed(rows.push(row), user_id, jid)
            == records::listed(rows, user_id, jid),
        row.user_id == user_id ==> {
            let others = records::listed(rows, user_id, jid).filter(
                |other: RecordView| other.path != row.path,
            );
            &&& row.id > jid ==> records::listed(rows.push(row), user_id, jid) == others.push(row)
            &&& row.id <= jid ==> records::listed(rows.push(row), user_id, jid) == others
        },
{
    let n = rows.len() as int;
    let longer = rows.push(row);
    lemma_news_after_push(rows, row, user_id, jid, n);
    assert(longer[n] == row);
    assert(records::is_latest(longer, n));
}

} // verus!
