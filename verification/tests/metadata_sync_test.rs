//! The sync protocol: clients of one account exchanging files through the
//! server, over records that are kept in memory.

use cooklang_sync_server::auth::entitlement::EntitledUser;
use cooklang_sync_server::auth::request::User;
use cooklang_sync_server::error::{default_error_pages, AppError, Paged};
use cooklang_sync_server::extract::Query;
use cooklang_sync_server::http::Response;
use cooklang_sync_server::metadata::commit::{commit as begin_commit, Commit, CommitEvent};
use cooklang_sync_server::metadata::handlers::{
    committed, has_files as answer_has_files, list as answer_list, notified, poll as begin_poll,
    released, CommitQuery, ListQuery, PollEvent, PollQuery,
};
use cooklang_sync_server::metadata::models::{
    non_local_chunks, CommitPayload, FileRecord, NewFileRecord,
};
use cooklang_sync_server::metadata::notification::{
    clamp_poll_seconds, ActiveClients, LONGEST_POLL,
};
use cooklang_sync_server::metadata::records;
use cooklang_sync_server::metadata::response::CommitResultStatus;
use cooklang_sync_server::metadata::{
    database_url, method_not_allowed, router, DEFAULT_DATABASE_URL,
};
use cooklang_sync_server::route::{Handler, Method};
use cooklang_sync_server::text;

struct Server {
    rows: Vec<FileRecord>,
    chunks: Vec<String>,
    clients: ActiveClients,
    woken: Vec<String>,
}

fn copies(rows: &[FileRecord]) -> Vec<FileRecord> {
    rows.iter().map(FileRecord::copied).collect()
}

fn finish(response: Response<String>) -> (u16, String) {
    match default_error_pages(response) {
        Paged::Untouched(r) => (r.status, r.body),
        Paged::Page(r) => (r.status, r.body),
    }
}

/// The values of a query string by key.
fn query_value(query: &str, key: &str) -> Option<String> {
    serde_urlencoded::from_str::<Vec<(String, String)>>(query)
        .ok()?
        .into_iter()
        .find(|(name, _)| name == key)
        .map(|(_, value)| value)
}

impl Server {
    fn new() -> Server {
        Server {
            rows: Vec::new(),
            chunks: Vec::new(),
            clients: ActiveClients::new(),
            woken: Vec::new(),
        }
    }

    fn place_chunk(&mut self, id: &str) {
        self.chunks.push(id.to_owned());
    }

    fn commit(
        &mut self,
        uid: i32,
        uuid: &str,
        path: &str,
        chunk_ids: &str,
        deleted: bool,
    ) -> (u16, String) {
        let payload = CommitPayload {
            path: path.to_owned(),
            deleted,
            chunk_ids: chunk_ids.to_owned(),
        };
        let ids = payload.chunks();
        let present: Vec<bool> =
            ids.iter().map(|id| self.chunks.iter().any(|chunk| chunk == id.id())).collect();
        let missing = non_local_chunks(&ids, &present);
        let query = CommitQuery { uuid: uuid.to_owned() };
        let mut state = begin_commit(&EntitledUser { id: uid }, query, payload, &missing);

        loop {
            let event = match &state {
                Commit::LookUp(record, _) => CommitEvent::Latest(
                    records::latest_for_path(&self.rows, record.user_id, &record.path)
                        .map(FileRecord::copied),
                ),
                Commit::Insert(record, _) => {
                    let id = self.rows.last().map_or(0, |row| row.id) + 1;
                    self.rows.push(FileRecord {
                        id,
                        user_id: record.user_id,
                        chunk_ids: record.chunk_ids.clone(),
                        deleted: record.deleted,
                        path: record.path.clone(),
                    });
                    CommitEvent::Inserted(id)
                }
                Commit::Notify(_, query) => {
                    self.woken = notified(&self.clients, query);
                    CommitEvent::Notified
                }
                Commit::Finished(_) => break,
            };
            assert!(state.is_expecting(&event));
            state = state.step(event);
        }

        match state {
            Commit::Finished(result) => finish(committed(result)),
            _ => unreachable!(),
        }
    }

    fn list(&self, uid: i32, jid: i32) -> (u16, String) {
        finish(answer_list(
            &EntitledUser { id: uid },
            &ListQuery { jid },
            Some(copies(&self.rows)),
        ))
    }

    fn has_files(&self, uid: i32) -> (u16, String) {
        finish(answer_has_files(&User { id: uid }, Some(copies(&self.rows))))
    }
}

#[test]
fn a_file_committed_by_one_peer_is_listed_for_the_other() {
    let mut server = Server::new();
    server.place_chunk("aaaa1111");

    let (status, body) = server.commit(1001, "peer-a", "recipes/dinner.cook", "aaaa1111", false);

    assert_eq!(status, 200);
    assert_eq!(body, r#"{"Success":1}"#);

    let (status, body) = server.list(1001, 0);

    assert_eq!(status, 200);
    assert_eq!(
        body,
        r#"[{"id":1,"user_id":1001,"chunk_ids":"aaaa1111","deleted":false,"path":"recipes/dinner.cook"}]"#,
        "field order is part of the JSON contract the client deserializes"
    );
}

#[test]
fn a_commit_naming_chunks_the_server_does_not_have_records_nothing() {
    let mut server = Server::new();

    let (status, body) = server.commit(1002, "peer-a", "recipes/absent.cook", "zzzz9999", false);

    assert_eq!(status, 200);
    assert_eq!(body, r#"{"NeedChunks":"zzzz9999"}"#);
    assert_eq!(
        server.list(1002, 0).1,
        "[]",
        "a NeedChunks answer must not have recorded the file"
    );
}

#[test]
fn recommitting_identical_content_returns_the_existing_record_id() {
    let mut server = Server::new();
    server.place_chunk("bbbb2222");

    let first = server.commit(1003, "peer-a", "recipes/same.cook", "bbbb2222", false);
    let second = server.commit(1003, "peer-a", "recipes/same.cook", "bbbb2222", false);

    assert_eq!(first.1, r#"{"Success":1}"#);
    assert_eq!(second.1, first.1, "a no-op commit must not insert a record");
    assert_eq!(
        server.list(1003, 0).1,
        r#"[{"id":1,"user_id":1003,"chunk_ids":"bbbb2222","deleted":false,"path":"recipes/same.cook"}]"#
    );
}

#[test]
fn changing_a_file_supersedes_the_previous_record() {
    let mut server = Server::new();
    server.place_chunk("dddd4444");
    server.place_chunk("eeee5555");

    let first = server.commit(1004, "peer-a", "recipes/edited.cook", "dddd4444", false);
    let second = server.commit(1004, "peer-a", "recipes/edited.cook", "eeee5555", false);

    assert_eq!(first.1, r#"{"Success":1}"#);
    assert_eq!(second.1, r#"{"Success":2}"#);
    assert_eq!(
        server.list(1004, 0).1,
        r#"[{"id":2,"user_id":1004,"chunk_ids":"eeee5555","deleted":false,"path":"recipes/edited.cook"}]"#,
        "only the latest record per path is listed"
    );
    assert_eq!(
        server.list(1004, 2).1,
        "[]",
        "a peer already at jid=2 has nothing new to fetch"
    );
}

#[test]
fn has_files_turns_true_once_a_peer_commits_and_false_again_on_delete() {
    let mut server = Server::new();
    server.place_chunk("ffff6666");

    assert_eq!(server.has_files(1005).1, "false");

    server.commit(1005, "peer-a", "recipes/present.cook", "ffff6666", false);
    assert_eq!(server.has_files(1005).1, "true");

    server.commit(1005, "peer-a", "recipes/present.cook", "ffff6666", true);
    assert_eq!(
        server.has_files(1005).1,
        "false",
        "a deleted file must not count as a file"
    );
}

#[test]
fn a_long_poll_is_released_early_by_another_peers_commit() {
    let mut server = Server::new();
    server.place_chunk("cccc3333");
    let query = PollQuery { seconds: 30, uuid: "peer-b".to_owned() };

    let seconds = begin_poll(&mut server.clients, &query);
    assert_eq!(seconds, 30);

    let committed = server.commit(1006, "peer-a", "recipes/woken.cook", "cccc3333", false);
    assert_eq!(committed.0, 200);
    assert_eq!(server.woken, ["peer-b"], "the poll must be woken by the commit");

    let polled = finish(released(&mut server.clients, &query, PollEvent::Notified));
    assert_eq!(polled.0, 200);
    assert!(!server.clients.is_waiting("peer-b"));
}

#[test]
fn a_long_poll_returns_on_its_own_timeout_when_no_peer_commits() {
    let mut clients = ActiveClients::new();
    let query = PollQuery { seconds: 1, uuid: "peer-solo".to_owned() };

    assert_eq!(begin_poll(&mut clients, &query), 1);
    assert!(clients.is_waiting("peer-solo"));

    let (status, body) = finish(released(&mut clients, &query, PollEvent::TimedOut));
    assert_eq!(status, 200);
    assert!(body.is_empty());
    assert!(!clients.is_waiting("peer-solo"));
}

#[test]
fn an_in_flight_long_poll_is_released_when_the_server_shuts_down() {
    let mut clients = ActiveClients::new();
    let query = PollQuery { seconds: 30, uuid: "peer-c".to_owned() };

    begin_poll(&mut clients, &query);
    let (status, _body) = finish(released(&mut clients, &query, PollEvent::ShutDown));

    assert_eq!(status, 200);
    assert!(!clients.is_waiting("peer-c"));
}

#[test]
fn a_commit_without_the_uuid_query_is_422() {
    let parsed = query_value("", "uuid").map(|uuid| CommitQuery { uuid });
    let rejection = Query::from_request_parts(parsed).err().expect("no uuid, no query");

    assert_eq!(finish(rejection.into_response()).0, 422);
}

#[test]
fn a_list_whose_jid_is_missing_or_not_an_integer_is_422() {
    for query in ["", "jid=", "jid=abc"] {
        let parsed = query_value(query, "jid")
            .and_then(|value| value.parse().ok())
            .map(|jid| ListQuery { jid });
        let rejection = Query::from_request_parts(parsed).err().expect("no jid, no query");

        assert_eq!(finish(rejection.into_response()).0, 422, "query {query}");
    }
}

#[test]
fn a_poll_without_its_query_parameters_is_422() {
    for query in ["uuid=peer-a", "seconds=1"] {
        let parsed = match (query_value(query, "seconds"), query_value(query, "uuid")) {
            (Some(seconds), Some(uuid)) => {
                seconds.parse().ok().map(|seconds| PollQuery { seconds, uuid })
            }
            _ => None,
        };
        let rejection = Query::from_request_parts(parsed).err().expect("not both, no query");

        assert_eq!(finish(rejection.into_response()).0, 422, "query {query}");
    }
}

#[test]
fn a_get_on_the_commit_route_is_404_rather_than_405() {
    let table = router();
    let route = table.iter().find(|route| route.path == "/metadata/commit").unwrap();

    assert!(route.handler == Handler::Commit);
    assert!(route.method != Method::Get);
    assert_eq!(finish(method_not_allowed()).0, 404);
}

#[test]
fn a_failed_database_is_a_500() {
    let lost = finish(answer_list(&EntitledUser { id: 1 }, &ListQuery { jid: 0 }, None));
    assert_eq!((lost.0, lost.1.len()), (500, 488));
    assert_eq!(finish(answer_has_files(&User { id: 1 }, None)).0, 500);
    assert_eq!(finish(committed(Err(AppError))).0, 500);

    let payload = || CommitPayload {
        path: "a.cook".to_owned(),
        deleted: false,
        chunk_ids: String::new(),
    };
    let begin = || {
        let query = CommitQuery { uuid: "peer-a".to_owned() };
        begin_commit(&EntitledUser { id: 1 }, query, payload(), &Vec::new())
    };
    let state = begin().step(CommitEvent::DatabaseFailed);
    assert!(matches!(state, Commit::Finished(Err(AppError))));
    let state = begin()
        .step(CommitEvent::Latest(None))
        .step(CommitEvent::DatabaseFailed);
    assert!(matches!(&state, Commit::Finished(Err(AppError))));
    assert!(!state.is_expecting(&CommitEvent::Notified));
}

#[test]
fn every_missing_chunk_is_asked_for_in_order() {
    let mut server = Server::new();
    server.place_chunk("bb");

    let (_, body) = server.commit(1, "peer-a", "x", "aa,bb,,c\"c,", false);
    assert_eq!(body, r#"{"NeedChunks":"aa,c\"c"}"#);

    let parts = text::split("aa,c\"c", ',');
    assert_eq!(text::join(&parts, ","), "aa,c\"c");
    assert_eq!(parts, ["aa", "c\"c"]);
    assert_eq!(text::split("", ','), [""]);
    assert_eq!(text::split(",a,", ','), ["", "a", ""]);
}

#[test]
fn a_commit_notifies_for_the_client_that_commits() {
    let mut server = Server::new();
    server.place_chunk("aa");
    server.clients.register("peer-a");
    server.clients.register("peer-b");
    server.clients.register("peer-c");

    server.commit(1, "peer-b", "x", "aa", false);
    assert_eq!(server.woken, ["peer-a", "peer-c"]);

    let query = CommitQuery { uuid: "peer-b".to_owned() };
    let payload = CommitPayload {
        path: "y".to_owned(),
        deleted: false,
        chunk_ids: "aa".to_owned(),
    };
    let state = begin_commit(&EntitledUser { id: 1 }, query, payload, &Vec::new())
        .step(CommitEvent::Latest(None))
        .step(CommitEvent::Inserted(7));
    assert!(matches!(&state, Commit::Notify(7, query) if query.uuid == "peer-b"));
}

#[test]
fn a_no_op_commit_wakes_nobody() {
    let mut server = Server::new();
    server.place_chunk("aa");
    server.clients.register("peer-b");

    server.commit(1, "peer-a", "x", "aa", false);
    assert_eq!(server.woken, ["peer-b"]);
    server.woken.clear();
    server.commit(1, "peer-a", "x", "aa", false);
    assert!(server.woken.is_empty());
}

#[test]
fn a_commit_wakes_every_client_but_its_own() {
    let mut clients = ActiveClients::new();
    for uuid in ["a", "b", "c", "b"] {
        clients.register(uuid);
    }

    assert_eq!(clients.notify("b"), ["a", "c"]);
    assert_eq!(clients.notify("x"), ["a", "b", "c"]);
    clients.remove("b");
    clients.remove("x");
    assert_eq!(clients.notify("a"), ["c"]);
    assert!(!clients.is_waiting("b"));
}

#[test]
fn a_listing_holds_the_latest_record_of_each_path_of_the_user() {
    let mut server = Server::new();
    for id in ["aa", "bb"] {
        server.place_chunk(id);
    }
    server.commit(7, "p", "one", "aa", false);
    server.commit(8, "p", "one", "aa", false);
    server.commit(7, "p", "two", "aa,bb", false);
    server.commit(7, "p", "one", "bb", true);

    let found = records::list(&server.rows, 7, 0);
    let ids: Vec<i32> = found.iter().map(|row| row.id).collect();
    assert_eq!(ids, [3, 4]);
    assert_eq!(records::list(&server.rows, 7, 3).len(), 1);
    assert_eq!(records::list(&server.rows, 8, 0).len(), 1);
    assert_eq!(records::list(&server.rows, 9, 0).len(), 0);

    let latest = records::latest_for_path(&server.rows, 7, &"one".to_owned());
    assert_eq!(latest.unwrap().id, 4);
    assert!(records::latest_for_path(&server.rows, 9, &"one".to_owned()).is_none());
    assert!(records::has_files(&server.rows, 7));
    assert!(!records::has_files(&server.rows, 9));
    assert_eq!(
        server.list(7, 0).1,
        r#"[{"id":3,"user_id":7,"chunk_ids":"aa,bb","deleted":false,"path":"two"},{"id":4,"user_id":7,"chunk_ids":"bb","deleted":true,"path":"one"}]"#
    );
}

#[test]
fn listings_go_by_ids_and_agree_with_has_files() {
    let mut server = Server::new();
    server.place_chunk("aa");
    server.place_chunk("bb");
    server.commit(3, "p", "one", "aa", false);
    server.commit(4, "p", "one", "aa", false);
    server.commit(3, "p", "two", "aa", false);
    server.commit(3, "p", "one", "bb", true);

    let ids = |rows: Vec<FileRecord>| rows.iter().map(|row| row.id).collect::<Vec<i32>>();
    let from = |jid| records::list(&server.rows, 3, jid);
    assert_eq!(ids(from(0)), [3, 4], "the record with the greatest id of each path");
    assert_eq!(ids(from(3)), [4], "what is above the later id of the earlier listing");
    assert!(from(4).is_empty());
    assert_eq!(records::latest_for_path(&server.rows, 3, &"one".to_owned()).unwrap().id, 4);

    let mut own = copies(&server.rows);
    own.retain(|row| row.user_id == 3);
    assert_eq!(ids(records::list(&own, 3, 0)), [3, 4]);
    assert!(records::has_files(&own, 3) && records::has_files(&server.rows, 3));
    assert!(from(0).iter().any(|row| !row.deleted));

    server.commit(3, "p", "two", "bb", true);
    assert!(!records::has_files(&server.rows, 3));
    assert!(records::list(&server.rows, 3, 0).iter().all(|row| row.deleted));
}

#[test]
fn a_commit_leaves_other_accounts_alone() {
    let mut server = Server::new();
    server.place_chunk("aa");
    server.commit(1, "p", "shared name", "aa", false);
    let listed = server.list(1, 0);

    server.commit(2, "p", "shared name", "aa", true);
    assert_eq!(server.list(1, 0), listed);
    assert_eq!(server.has_files(1).1, "true");
    assert_eq!(server.has_files(2).1, "false");
}

#[test]
fn ids_are_written_in_decimal() {
    for (id, body) in [
        (0, r#"{"Success":0}"#),
        (-7, r#"{"Success":-7}"#),
        (1203, r#"{"Success":1203}"#),
        (i32::MAX, r#"{"Success":2147483647}"#),
        (i32::MIN, r#"{"Success":-2147483648}"#),
    ] {
        let response = CommitResultStatus::Success(id).into_response();
        assert_eq!(response.body, body);
        assert_eq!(response.status, 200);
        assert_eq!(response.content_type.unwrap(), b"application/json");
    }
}

#[test]
fn a_poll_waits_no_longer_than_allowed() {
    assert_eq!(LONGEST_POLL, 60);
    assert_eq!(clamp_poll_seconds(5), 5);
    assert_eq!(clamp_poll_seconds(60), 60);
    assert_eq!(clamp_poll_seconds(61), 60);
    assert_eq!(clamp_poll_seconds(u64::MAX), 60);
}

#[test]
fn a_record_takes_over_its_payload() {
    let record = NewFileRecord::from_payload_and_user_id(
        CommitPayload { path: "p".to_owned(), deleted: true, chunk_ids: "c".to_owned() },
        5,
    );
    assert_eq!(record.user_id, 5);
    assert_eq!(record.path, "p");
    assert_eq!(record.chunk_ids, "c");
    assert!(record.deleted);
}

#[test]
fn the_database_can_be_configured() {
    assert_eq!(database_url(None), DEFAULT_DATABASE_URL);
    assert_eq!(database_url(None), "db/server.sqlite3");
    assert_eq!(database_url(Some("other".to_owned())), "other");
}
