//! The answers of the metadata routes, once the database has been asked.

use vstd::prelude::*;

use crate::auth::entitlement::EntitledUser;
use crate::auth::request::User;
use crate::error::AppError;
use crate::http;
use crate::http::{bare, Response, INTERNAL_SERVER_ERROR, JSON, OK};
use crate::metadata::{commit, notification, records, response};
use crate::metadata::commit::{CommitEventView, CommitState};
use crate::metadata::models::{FileRecord, NewRecordView, RecordView};
use crate::metadata::notification::{clamp_poll_seconds, ActiveClients};
use crate::metadata::response::{bool_response, records_response, CommitResultStatus};

verus! {

/// A commit's query: the client that commits.
pub struct CommitQuery {
    pub uuid: String,
}

/// A listing's query: the last record that the peer knows.
pub struct ListQuery {
    pub jid: i32,
}

/// A poll's query: how long to wait, and the client that waits.
pub struct PollQuery {
    pub seconds: u64,
    pub uuid: String,
}

/// The clients to be woken by a commit with this query: all that wait but the
/// one that commits, each once.
pub fn notified(clients: &ActiveClients, query: &CommitQuery) -> (woken: Vec<String>)
    ensures
        notification::text_set(woken@) == notification::woken_by(clients@, query.uuid@),
        notification::each_once(woken@),
{
    clients.notify(query.uuid.as_str())
}

/// Answers a commit once it is over.
pub fn committed(result: Result<CommitResultStatus, AppError>) -> (answer: Response<String>)
    ensures
        match result {
            Ok(status) => {
                &&& answer.head() == http::head(OK, JSON@)
                &&& answer.body@ == status@.json()
            },
            Err(_) => {
                &&& answer.head() == http::bare_head(INTERNAL_SERVER_ERROR)
                &&& answer.body@.len() == 0
            },
        },
{
    match result {
        Ok(status) => status.into_response(),
        Err(error) => error.into_response(),
    }
}

/// Answers whether the user has files, given the records, earliest first, or
/// `None` where the database failed.
pub fn has_files(user: &User, rows: Option<Vec<FileRecord>>) -> (answer: Response<String>)
    ensures
        match rows {
            Some(stored) => {
                &&& answer.head() == http::head(OK, JSON@)
                &&& answer.body@ == response::bool_json(
                    records::has_file(records::rows_view(stored@), user.id),
                )
            },
            None => {
                &&& answer.head() == http::bare_head(INTERNAL_SERVER_ERROR)
                &&& answer.body@.len() == 0
            },
        },
{
    match rows {
        Some(stored) => bool_response(records::has_files(&stored, user.id)),
        None => AppError.into_response(),
    }
}

/// Answers with the records that are news to the user's peer, given all
/// records, earliest first, or `None` where the database failed.
pub fn list(user: &EntitledUser, query: &ListQuery, rows: Option<Vec<FileRecord>>) -> (answer:
    Response<String>)
    ensures
        match rows {
            Some(stored) => {
                &&& answer.head() == http::head(OK, JSON@)
                &&& answer.body@ == response::records_json(
                    records::listed(records::rows_view(stored@), user.id, query.jid),
                )
            },
            None => {
                &&& answer.head() == http::bare_head(INTERNAL_SERVER_ERROR)
                &&& answer.body@.len() == 0
            },
        },
{
    match rows {
        Some(stored) => records_response(&records::list(&stored, user.id, query.jid)),
        None => AppError.into_response(),
    }
}

/// Begins a poll: the client waits, for the seconds that are returned.
pub fn poll(clients: &mut ActiveClients, query: &PollQuery) -> (seconds: u64)
    ensures
        final(clients)@ == old(clients)@.insert(query.uuid@),
        seconds == notification::poll_wait(query.seconds),
{
    clients.register(query.uuid.as_str());
    clamp_poll_seconds(query.seconds)
}

/// What releases a poll.
pub enum PollEvent {
    /// The server shuts down.
    ShutDown,
    /// The time is up.
    TimedOut,
    /// Another client has committed.
    Notified,
}

/// Ends a poll, whatever releases it: the client waits no longer, and is
/// answered with success and an empty body.
pub fn released(clients: &mut ActiveClients, query: &PollQuery, _event: PollEvent) -> (answer:
    Response<String>)
    ensures
        final(clients)@ == old(clients)@.remove(query.uuid@),
        answer.head() == http::bare_head(OK),
        answer.body@.len() == 0,
{
    clients.remove(query.uuid.as_str());
    bare(OK)
}

/// A commit that does not repeat the file's latest record is notified for the
/// client that commits, and that wakes every client that waits but itself: one
/// that has begun a poll is woken exactly where another client commits.
pub proof fn law_a_commit_wakes_the_others(
    record: NewRecordView,
    committer: Seq<char>,
    latest: Option<RecordView>,
    id: i32,
    clients: Set<Seq<char>>,
    poller: Seq<char>,
)
    requires
        latest matches Some(existing) ==> !record.repeats(existing),
    ensures
        commit::after(
            commit::after(
                commit::begun(record, committer, Seq::empty()),
                CommitEventView::Latest(latest),
            ),
            CommitEventView::Inserted(id),
        ) == CommitState::Notify(id, committer),
        notification::woken_by(clients.insert(poller), committer).contains(poller) <==> poller
            != committer,
        forall|client: Seq<char>| #[trigger]
            notification::woken_by(clients, committer).contains(client) <==> clients.contains(
                client,
            ) && client != committer,
{
}

/// A poll that is over leaves no trace: the clients that wait are those that
/// waited before it, without the one that polled.
pub proof fn law_a_poll_leaves_no_trace(clients: Set<Seq<char>>, poller: Seq<char>)
    ensures
        clients.insert(poller).remove(poller) == clients.remove(poller),
        !clients.insert(poller).remove(poller).contains(poller),
{
    assert(clients.insert(poller).remove(poller) =~= clients.remove(poller));
}

} // verus!
