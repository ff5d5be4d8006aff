//! Records by user and path: the latest state of each file.

use vstd::prelude::*;

use crate::metadata::models::{FileRecord, RecordView};

verus! {

/// The view of stored records, earliest first.
pub open spec fn rows_view(records: Seq<FileRecord>) -> Seq<RecordView> {
    records.map_values(|record: FileRecord| record@)
}

/// Whether the ids grow from each record to the next.
pub open spec fn ascending(rows: Seq<RecordView>) -> bool {
    forall|i: int, j: int| 0 <= i < j < rows.len() ==> (#[trigger] rows[i]).id < (
    #[trigger] rows[j]).id
}

/// Whether a record is about this file of this user.
pub open spec fn is_about(row: RecordView, user_id: i32, path: Seq<char>) -> bool {
    row.user_id == user_id && row.path == path
}

/// The last record about a user's file.
pub open spec fn latest(rows: Seq<RecordView>, user_id: i32, path: Seq<char>) -> Option<RecordView>
    decreases rows.len(),
{
    if rows.len() == 0 {
        None
    } else if is_about(rows.last(), user_id, path) {
        Some(rows.last())
    } else {
        latest(rows.drop_last(), user_id, path)
    }
}

/// Whether no later record is about the same file of the same user.
pub open spec fn is_latest(rows: Seq<RecordView>, i: int) -> bool {
    forall|j: int|
        i < j < rows.len() ==> !is_about(#[trigger] rows[j], rows[i].user_id, rows[i].path)
}

/// Whether the record at `i` is news to a peer of `user_id` that knows all
/// records up to `jid`: the latest state of one of the user's files.
pub open spec fn is_news(rows: Seq<RecordView>, user_id: i32, jid: i32, i: int) -> bool {
    rows[i].user_id == user_id && rows[i].id > jid && is_latest(rows, i)
}

/// The news among the first `n` records.
pub open spec fn news(rows: Seq<RecordView>, user_id: i32, jid: i32, n: int) -> Seq<RecordView>
    decreases n,
{
    if n <= 0 {
        Seq::empty()
    } else if is_news(rows, user_id, jid, n - 1) {
        news(rows, user_id, jid, n - 1).push(rows[n - 1])
    } else {
        news(rows, user_id, jid, n - 1)
    }
}

/// The records that a peer of `user_id` is told of when it knows all records
/// up to `jid`: the latest state of each file that changed since, earliest
/// first.
pub open spec fn listed(rows: Seq<RecordView>, user_id: i32, jid: i32) -> Seq<RecordView> {
    news(rows, user_id, jid, rows.len() as int)
}

/// Whether a user has a file: one whose latest state is not that it is
/// deleted.
pub open spec fn has_file(rows: Seq<RecordView>, user_id: i32) -> bool {
    exists|i: int|
        0 <= i < rows.len() && (#[trigger] rows[i]).user_id == user_id && is_latest(rows, i)
            && !rows[i].deleted
}

/// The last record about a user's file.
pub fn latest_for_path<'a>(records: &'a Vec<FileRecord>, user_id: i32, path: &String) -> (found:
    Option<&'a FileRecord>)
    ensures
        match latest(rows_view(records@), user_id, path@) {
            Some(row) => found is Some && found->0@ == row,
            None => found is None,
        },
{
    let ghost rows = rows_view(records@);
    let mut left: usize = records.len();
    assert(rows.take(left as int) == rows);
    while left > 0
        invariant
            rows == rows_view(records@),
            left <= records@.len(),
            latest(rows, user_id, path@) == latest(rows.take(left as int), user_id, path@),
        decreases left,
    {
        let record = &records[left - 1];
        assert(rows.take(left as int).last() == record@);
        assert(rows.take(left as int).drop_last() == rows.take(left - 1));
        if record.user_id == user_id && record.path == *path {
            return Some(record);
        }
        left = left - 1;
    }
    None
}

fn is_latest_record(records: &Vec<FileRecord>, i: usize) -> (latest: bool)
    requires
        i < records@.len(),
    ensures
        latest == is_latest(rows_view(records@), i as int),
{
    let ghost rows = rows_view(records@);
    let record = &records[i];
    for j in i + 1..records.len()
        invariant
            rows == rows_view(records@),
            i < records@.len(),
            record == records@[i as int],
            forall|k: int|
                i < k < j ==> !is_about(
                    #[trigger] rows[k],
                    rows[i as int].user_id,
                    rows[i as int].path,
                ),
    {
        let later = &records[j];
        assert(rows[j as int] == later@);
        if later.user_id == record.user_id && later.path == record.path {
            assert(is_about(rows[j as int], rows[i as int].user_id, rows[i as int].path));
            return false;
        }
    }
    true
}

/// The records that a peer of `user_id` is told of when it knows all records
/// up to `jid`.
pub fn list(records: &Vec<FileRecord>, user_id: i32, jid: i32) -> (found: Vec<FileRecord>)
    ensures
        rows_view(found@) == listed(rows_view(records@), user_id, jid),
{
    let ghost rows = rows_view(records@);
    let mut found: Vec<FileRecord> = Vec::new();
    for i in 0..records.len()
        invariant
            rows == rows_view(records@),
            rows_view(found@) == news(rows, user_id, jid, i as int),
    {
        let record = &records[i];
        let ghost before = rows_view(found@);
        assert(rows[i as int] == record@);
        if record.user_id == user_id && record.id > jid && is_latest_record(records, i) {
            let copy = record.copied();
            found.push(copy);
            assert(rows_view(found@) == before.push(copy@));
        }
    }
    found
}

/// Whether a user has a file.
pub fn has_files(records: &Vec<FileRecord>, user_id: i32) -> (has: bool)
    ensures
        has == has_file(rows_view(records@), user_id),
{
    let ghost rows = rows_view(records@);
    for i in 0..records.len()
        invariant
            rows == rows_view(records@),
            forall|k: int|
                0 <= k < i ==> !((#[trigger] rows[k]).user_id == user_id && is_latest(rows, k)
                    && !rows[k].deleted),
    {
        let record = &records[i];
        assert(rows[i as int] == record@);
        if record.user_id == user_id && !record.deleted && is_latest_record(records, i) {
            return true;
        }
    }
    false
}

} // verus!
