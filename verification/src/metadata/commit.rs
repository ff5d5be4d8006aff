//! Commits: a peer announces a file's new state.
//!
//! A commit alternates between the database and what follows from its answers.
//! [`Commit`] says what is to be done next; [`Commit::step`] takes what came of
//! it.

use vstd::prelude::*;

use crate::auth::entitlement::EntitledUser;
use crate::chunk_id::ChunkId;
use crate::error::AppError;
use crate::metadata::handlers::CommitQuery;
use crate::metadata::models;
use crate::metadata::models::{
    CommitPayload, FileRecord, NewFileRecord, NewRecordView, RecordView,
};
use crate::metadata::response::{CommitResultStatus, CommitStatus};
use crate::text;

verus! {

/// What a commit waits for, and the query of the client that commits until the
/// others have been notified for it.
pub enum Commit {
    /// The latest record of the file, to be looked up.
    LookUp(NewFileRecord, CommitQuery),
    /// The record, to be inserted.
    Insert(NewFileRecord, CommitQuery),
    /// The clients other than the one that commits, to be notified of the
    /// record with this id.
    Notify(i32, CommitQuery),
    /// Nothing: this is the answer.
    Finished(Result<CommitResultStatus, AppError>),
}

/// What came of what a commit waited for.
pub enum CommitEvent {
    /// The latest record of the file, where there is one.
    Latest(Option<FileRecord>),
    /// The record is stored under this id.
    Inserted(i32),
    /// The database failed.
    DatabaseFailed,
    /// The other clients have been notified.
    Notified,
}

/// A commit's state over character sequences.
pub enum CommitState {
    LookUp(NewRecordView, Seq<char>),
    Insert(NewRecordView, Seq<char>),
    Notify(i32, Seq<char>),
    Finished(Result<CommitStatus, AppError>),
}

/// An event over character sequences.
pub enum CommitEventView {
    Latest(Option<RecordView>),
    Inserted(i32),
    DatabaseFailed,
    Notified,
}

impl View for Commit {
    type V = CommitState;

    open spec fn view(&self) -> CommitState {
        match *self {
            Commit::LookUp(record, query) => CommitState::LookUp(record@, query.uuid@),
            Commit::Insert(record, query) => CommitState::Insert(record@, query.uuid@),
            Commit::Notify(id, query) => CommitState::Notify(id, query.uuid@),
            Commit::Finished(Ok(status)) => CommitState::Finished(Ok(status@)),
            Commit::Finished(Err(error)) => CommitState::Finished(Err(error)),
        }
    }
}

impl View for CommitEvent {
    type V = CommitEventView;

    open spec fn view(&self) -> CommitEventView {
        match *self {
            CommitEvent::Latest(Some(record)) => CommitEventView::Latest(Some(record@)),
            CommitEvent::Latest(None) => CommitEventView::Latest(None),
            CommitEvent::Inserted(id) => CommitEventView::Inserted(id),
            CommitEvent::DatabaseFailed => CommitEventView::DatabaseFailed,
            CommitEvent::Notified => CommitEventView::Notified,
        }
    }
}

/// What a commit by the client `uuid` begins with: while chunks are missing,
/// they are asked for and nothing is recorded; else the file's latest record is
/// looked up.
pub open spec fn begun(
    record: NewRecordView,
    uuid: Seq<char>,
    missing: Seq<Seq<char>>,
) -> CommitState {
    if missing.len() == 0 {
        CommitState::LookUp(record, uuid)
    } else {
        CommitState::Finished(Ok(CommitStatus::NeedChunks(text::joined(missing, ","@))))
    }
}

/// Whether the event is one that can come of what the commit waits for.
pub open spec fn expects(state: CommitState, event: CommitEventView) -> bool {
    match state {
        CommitState::LookUp(_, _) => event is Latest || event is DatabaseFailed,
        CommitState::Insert(_, _) => event is Inserted || event is DatabaseFailed,
        CommitState::Notify(_, _) => event is Notified,
        CommitState::Finished(_) => false,
    }
}

/// What a commit waits for after an event that it expects. A record that
/// repeats the latest one is not stored again, and nobody is notified of it.
pub open spec fn after(state: CommitState, event: CommitEventView) -> CommitState {
    match (state, event) {
        (CommitState::LookUp(record, uuid), CommitEventView::Latest(Some(latest))) => {
            if record.repeats(latest) {
                CommitState::Finished(Ok(CommitStatus::Success(latest.id)))
            } else {
                CommitState::Insert(record, uuid)
            }
        },
        (CommitState::LookUp(record, uuid), CommitEventView::Latest(None)) => CommitState::Insert(
            record,
            uuid,
        ),
        (CommitState::LookUp(_, _), _) => CommitState::Finished(Err(AppError)),
        (CommitState::Insert(_, uuid), CommitEventView::Inserted(id)) => CommitState::Notify(
            id,
            uuid,
        ),
        (CommitState::Insert(_, _), _) => CommitState::Finished(Err(AppError)),
        (CommitState::Notify(id, _), _) => CommitState::Finished(Ok(CommitStatus::Success(id))),
        (CommitState::Finished(_), _) => state,
    }
}

/// The record that a user's commit makes.
pub open spec fn record_of(payload: CommitPayload, user_id: i32) -> NewRecordView {
    NewRecordView {
        user_id,
        chunk_ids: payload.chunk_ids@,
        deleted: payload.deleted,
        path: payload.path@,
    }
}

/// Begins a commit of the user's, given which of the file's chunks are still to
/// be uploaded.
pub fn commit(
    user: &EntitledUser,
    query: CommitQuery,
    payload: CommitPayload,
    to_be_uploaded: &Vec<ChunkId>,
) -> (begin: Commit)
    ensures
        begin@ == begun(
            record_of(payload, user.id),
            query.uuid@,
            models::ids_view(to_be_uploaded@),
        ),
{
    let ghost all = models::ids_view(to_be_uploaded@);
    if to_be_uploaded.len() == 0 {
        let record = NewFileRecord::from_payload_and_user_id(payload, user.id);
        return Commit::LookUp(record, query);
    }
    let mut ids: Vec<String> = Vec::new();
    for i in 0..to_be_uploaded.len()
        invariant
            all == models::ids_view(to_be_uploaded@),
            ids@.map_values(|p: String| p@) == all.take(i as int),
    {
        let id = to_be_uploaded[i].id().to_owned();
        let ghost before = ids@.map_values(|p: String| p@);
        ids.push(id);
        assert(ids@.map_values(|p: String| p@) == before.push(id@));
    }
    assert(all.take(to_be_uploaded@.len() as int) == all);
    Commit::Finished(Ok(CommitResultStatus::NeedChunks(text::join(&ids, ","))))
}

impl Commit {
    /// Whether the event can come of what the commit waits for.
    pub fn is_expecting(&self, event: &CommitEvent) -> (expected: bool)
        ensures
            expected == expects(self@, event@),
    {
        match (self, event) {
            (Commit::LookUp(_, _), CommitEvent::Latest(_)) => true,
            (Commit::LookUp(_, _), CommitEvent::DatabaseFailed) => true,
            (Commit::Insert(_, _), CommitEvent::Inserted(_)) => true,
            (Commit::Insert(_, _), CommitEvent::DatabaseFailed) => true,
            (Commit::Notify(_, _), CommitEvent::Notified) => true,
            _ => false,
        }
    }

    /// Takes what came of what the commit waited for, and says what it waits
    /// for next.
    pub fn step(self, event: CommitEvent) -> (next: Commit)
        requires
            expects(self@, event@),
        ensures
            next@ == after(self@, event@),
    {
        match self {
            Commit::LookUp(record, query) => match event {
                CommitEvent::Latest(Some(latest)) => if latest.chunk_ids == record.chunk_ids
                    && latest.deleted == record.deleted {
                    Commit::Finished(Ok(CommitResultStatus::Success(latest.id)))
                } else {
                    Commit::Insert(record, query)
                },
                CommitEvent::Latest(None) => Commit::Insert(record, query),
                _ => Commit::Finished(Err(AppError)),
            },
            Commit::Insert(_, query) => match event {
                CommitEvent::Inserted(id) => Commit::Notify(id, query),
                _ => Commit::Finished(Err(AppError)),
            },
            Commit::Notify(id, _) => Commit::Finished(Ok(CommitResultStatus::Success(id))),
            Commit::Finished(answer) => Commit::Finished(answer),
        }
    }
}

/// A commit goes on to look up its file exactly where all of its chunks are
/// present; otherwise it is over, and its answer lists what is missing.
pub proof fn law_a_commit_goes_on_only_with_all_its_chunks(
    record: NewRecordView,
    uuid: Seq<char>,
    ids: Seq<Seq<char>>,
    present: Seq<bool>,
)
    requires
        ids.len() == present.len(),
    ensures
        ({
            let missing = models::absent(ids, present);
            let all_present = forall|i: int| 0 <= i < ids.len() ==> #[trigger] present[i];
            &&& all_present ==> begun(record, uuid, missing) == CommitState::LookUp(record, uuid)
            &&& !all_present ==> begun(record, uuid, missing) == CommitState::Finished(
                Ok(CommitStatus::NeedChunks(text::joined(missing, ","@))),
            )
        }),
{
    models::law_missing_is_what_is_not_present(ids, present, Seq::empty());
}

/// What is looked up decides: the same chunks and the same deletion are
/// answered with the record that is there, and anything else is inserted as it
/// is, notified for the client that commits, and answered with the new id.
pub proof fn law_what_is_looked_up_decides(
    record: NewRecordView,
    uuid: Seq<char>,
    latest: RecordView,
    id: i32,
)
    ensures
        ({
            let found = after(
                CommitState::LookUp(record, uuid),
                CommitEventView::Latest(Some(latest)),
            );
            let same = latest.chunk_ids == record.chunk_ids && latest.deleted == record.deleted;
            &&& same ==> found == CommitState::Finished(Ok(CommitStatus::Success(latest.id)))
            &&& !same ==> found == CommitState::Insert(record, uuid)
        }),
        after(CommitState::LookUp(record, uuid), CommitEventView::Latest(None))
            == CommitState::Insert(record, uuid),
        after(CommitState::Insert(record, uuid), CommitEventView::Inserted(id))
            == CommitState::Notify(id, uuid),
        after(CommitState::Notify(id, uuid), CommitEventView::Notified) == CommitState::Finished(
            Ok(CommitStatus::Success(id)),
        ),
{
}

/// Whatever can come of what a commit waits for is expected, whatever is
/// committed and by whom; a commit that is over expects nothing.
pub proof fn law_what_a_commit_expects(
    record: NewRecordView,
    uuid: Seq<char>,
    id: i32,
    answer: Result<CommitStatus, AppError>,
    event: CommitEventView,
)
    ensures
        expects(CommitState::LookUp(record, uuid), event) <==> event is Latest
            || event is DatabaseFailed,
        expects(CommitState::Insert(record, uuid), event) <==> event is Inserted
            || event is DatabaseFailed,
        expects(CommitState::Notify(id, uuid), event) <==> event is Notified,
        !expects(CommitState::Finished(answer), event),
{
}

/// The record of a commit is what its form says, under the user's id.
pub proof fn law_a_commit_records_what_its_form_says(payload: CommitPayload, user_id: i32)
    ensures
        record_of(payload, user_id).user_id == user_id,
        record_of(payload, user_id).chunk_ids == payload.chunk_ids@,
        record_of(payload, user_id).deleted == payload.deleted,
        record_of(payload, user_id).path == payload.path@,
{
}

/// Commits and events are shown whole.
pub proof fn law_commits_are_shown_whole(
    new: NewFileRecord,
    query: CommitQuery,
    id: i32,
    status: CommitResultStatus,
    record: FileRecord,
)
    ensures
        Commit::LookUp(new, query)@ == CommitState::LookUp(new@, query.uuid@),
        Commit::Insert(new, query)@ == CommitState::Insert(new@, query.uuid@),
        Commit::Notify(id, query)@ == CommitState::Notify(id, query.uuid@),
        Commit::Finished(Ok(status))@ == CommitState::Finished(Ok(status@)),
        Commit::Finished(Err(AppError))@ == CommitState::Finished(Err(AppError)),
        CommitEvent::Latest(Some(record))@ == CommitEventView::Latest(Some(record@)),
        CommitEvent::Latest(None)@ == CommitEventView::Latest(None),
        CommitEvent::Inserted(id)@ == CommitEventView::Inserted(id),
        CommitEvent::DatabaseFailed@ == CommitEventView::DatabaseFailed,
        CommitEvent::Notified@ == CommitEventView::Notified,
{
}

} // verus!
