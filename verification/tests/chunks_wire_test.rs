//! The chunk transport, over chunks that are kept in memory: forms are read by
//! a multipart parser, and every request runs through the server's decisions.

use std::collections::HashMap;

use cooklang_sync_server::auth::entitlement::EnforcementMode;
use cooklang_sync_server::auth::guard::admit_to;
use cooklang_sync_server::auth::request::Claims;
use cooklang_sync_server::chunk_id::{ChunkId, ChunkPath};
use cooklang_sync_server::chunks::capped::{capped_data_stream, CappedDataStream};
use cooklang_sync_server::chunks::download::{download_chunks, requested_chunks};
use cooklang_sync_server::chunks::error::ChunkError;
use cooklang_sync_server::chunks::request::RawContentType;
use cooklang_sync_server::chunks::response::{
    MixedEvent, MixedItem, MixedPhase, MultipartMixed, BOUNDARY_LEN,
};
use cooklang_sync_server::chunks::retrieve::{retrieve as find_chunk, retrieved};
use cooklang_sync_server::chunks::upload::{
    form_of_boundary, upload_body, upload_chunks, upload_chunks_deprecated, Form, Upload,
    UploadEnd, UploadEvent,
};
use cooklang_sync_server::chunks::{method_not_allowed, router, DATA_FORM_LIMIT, FORM_LIMIT};
use cooklang_sync_server::create_server;
use cooklang_sync_server::error::{default_error_pages, Paged};
use cooklang_sync_server::http::{bare, Response};
use cooklang_sync_server::route::{Handler, Method};

const REQUEST_BOUNDARY: &str = "chunkswiretestboundary";

type Shard = (String, String, String);

fn shard(path: &ChunkPath) -> Shard {
    (path.first.clone(), path.second.clone(), path.name.clone())
}

/// The place of a chunk: the first two characters are directory levels.
fn stored_path(id: &str) -> Shard {
    (id[0..1].to_owned(), id[1..2].to_owned(), id.to_owned())
}

struct Res {
    status: u16,
    content_type: String,
    body: Vec<u8>,
}

impl Res {
    fn text(&self) -> String {
        String::from_utf8_lossy(&self.body).into_owned()
    }

    fn boundary(&self) -> String {
        self.content_type
            .strip_prefix("multipart/mixed; boundary=")
            .expect("a multipart/mixed content type")
            .to_owned()
    }
}

fn finish(response: Response<Vec<u8>>) -> Res {
    let (status, content_type, body) = match default_error_pages(response) {
        Paged::Untouched(r) => (r.status, r.content_type, r.body),
        Paged::Page(r) => (r.status, r.content_type, r.body.into_bytes()),
    };

    Res {
        status,
        content_type: content_type
            .map(|value| String::from_utf8(value).expect("ascii content type"))
            .unwrap_or_default(),
        body,
    }
}

fn bytes(response: Response<String>) -> Response<Vec<u8>> {
    Response {
        status: response.status,
        content_type: response.content_type,
        body: response.body.into_bytes(),
    }
}

#[derive(Default)]
struct Server {
    files: HashMap<Shard, Vec<u8>>,
    unwritable: bool,
    uncreatable: bool,
}

impl Server {
    /// Drives an upload: reads the form with a multipart parser and keeps the
    /// files in memory.
    fn store(&mut self, accepted: Form, body: Vec<u8>) -> UploadEnd {
        let mut cap = accepted.body;
        let mut pieces: Vec<Result<Vec<u8>, std::io::Error>> = Vec::new();
        for piece in body.chunks(64 * 1024) {
            if cap.has_ended() {
                break;
            }
            pieces.push(cap.pass(Ok(piece.to_vec())));
        }
        let stream = futures::stream::iter(pieces);
        let mut form = multer::Multipart::new(stream, accepted.boundary);
        let mut field: Option<multer::Field<'_>> = None;
        let mut upload = Upload::new();

        loop {
            let event = match &upload {
                Upload::NextField => {
                    drop(field.take());
                    match futures::executor::block_on(form.next_field()) {
                        Ok(Some(next)) => {
                            let name = next.name().map(str::to_owned);
                            field = Some(next);
                            UploadEvent::Field(name)
                        }
                        _ => UploadEvent::NoField,
                    }
                }
                Upload::CreateDirectory(_) => UploadEvent::Done,
                Upload::CreateFile(path) => {
                    if self.uncreatable {
                        UploadEvent::Failed
                    } else {
                        self.files.insert(shard(path), Vec::new());
                        UploadEvent::Done
                    }
                }
                Upload::ReadField(_) => {
                    let current = field.as_mut().expect("a field is read");
                    match futures::executor::block_on(current.chunk()) {
                        Ok(Some(piece)) => UploadEvent::Data(piece.to_vec()),
                        Ok(None) => UploadEvent::FieldEnd,
                        Err(_) => UploadEvent::FieldFailed,
                    }
                }
                Upload::Write(path, piece) => {
                    if self.unwritable {
                        UploadEvent::Failed
                    } else {
                        self.files.get_mut(&shard(path)).expect("file").extend_from_slice(piece);
                        UploadEvent::Done
                    }
                }
                Upload::RemoveUnwritten(path) | Upload::RemoveBroken(path) => {
                    self.files.remove(&shard(path));
                    UploadEvent::Removed
                }
                Upload::Finished(_) => break,
            };
            assert!(upload.is_expecting(&event));
            upload = upload.step(event);
        }

        match upload {
            Upload::Finished(end) => end,
            _ => unreachable!(),
        }
    }

    fn serve(&self, mixed: MultipartMixed) -> Response<Vec<u8>> {
        let response = mixed.into_response();
        let mut stream = response.body;
        let mut sent = Vec::new();
        let mut reading: Vec<Vec<u8>> = Vec::new();

        loop {
            let event = match stream.phase() {
                MixedPhase::Start => MixedEvent::Begin,
                MixedPhase::Open => match self.files.get(&shard(stream.next_file().unwrap())) {
                    Some(contents) => {
                        reading = contents.chunks(3).rev().map(<[u8]>::to_vec).collect();
                        MixedEvent::Opened
                    }
                    None => MixedEvent::OpenFailed,
                },
                MixedPhase::Read => match reading.pop() {
                    Some(piece) => MixedEvent::Bytes(piece),
                    None => MixedEvent::EndOfFile,
                },
                MixedPhase::Ended | MixedPhase::Aborted => break,
            };
            assert!(stream.next_file().is_none() == (stream.phase() != MixedPhase::Open));
            assert!(stream.is_expecting(&event));
            match stream.step(event) {
                MixedItem::Bytes(piece) => sent.extend_from_slice(&piece),
                MixedItem::Nothing => {}
                MixedItem::ReadFailed => panic!("memory can be read"),
            }
        }

        Response { status: response.status, content_type: response.content_type, body: sent }
    }

    fn call(
        &mut self,
        claims: Option<Claims>,
        method: Method,
        path: &str,
        content_type: &str,
        body: Vec<u8>,
    ) -> Res {
        let table = create_server();
        let exact = table.iter().find(|route| route.path == path);
        let (route, id) = match (exact, path.strip_prefix("/chunks/")) {
            (Some(route), _) => (route, ""),
            (None, Some(id)) => {
                (table.iter().find(|route| route.path == "/chunks/{id}").unwrap(), id)
            }
            (None, None) => return finish(bytes(bare(404))),
        };
        if route.method != method {
            return finish(bytes(method_not_allowed()));
        }
        if let Err(rejection) = admit_to(route.handler, claims, EnforcementMode::Off, 0) {
            return finish(bytes(rejection.into_response(None)));
        }
        let header = RawContentType::from_request_parts(Some(content_type.as_bytes()));

        let result = match route.handler {
            Handler::UploadChunks => upload_chunks(&header)
                .and_then(|form| self.store(form, body).into_result())
                .map(|()| bytes(bare(200))),
            Handler::UploadChunksDeprecated => upload_chunks_deprecated(&header)
                .and_then(|form| self.store(form, body).into_result())
                .map(|()| bytes(bare(200))),
            Handler::DownloadChunks => {
                download_chunks(&header, std::str::from_utf8(&body).unwrap())
                    .map(|mixed| self.serve(mixed))
            }
            _ => match find_chunk(id) {
                Err(refusal) => Ok(bytes(refusal)),
                Ok(path) => match retrieved(self.files.get(&shard(&path)).cloned()) {
                    Ok(response) => Ok(response),
                    Err(refusal) => Ok(bytes(refusal)),
                },
            },
        };

        match result {
            Ok(response) => finish(response),
            Err(error) => finish(bytes(error.into_response())),
        }
    }

    fn authed(&mut self, method: Method, path: &str, content_type: &str, body: Vec<u8>) -> Res {
        self.call(Some(Claims { uid: 1, sync_until: None }), method, path, content_type, body)
    }

    fn upload(&mut self, uri: &str, fields: &[(&str, &str)]) -> Res {
        let content_type = format!("multipart/form-data; boundary={REQUEST_BOUNDARY}");
        self.authed(Method::Post, uri, &content_type, multipart_body(fields).into_bytes())
    }

    fn download(&mut self, form_body: &str) -> Res {
        self.authed(
            Method::Post,
            "/chunks/download",
            "application/x-www-form-urlencoded",
            form_body.as_bytes().to_vec(),
        )
    }

    fn retrieve(&mut self, id: &str) -> Res {
        self.authed(Method::Get, &format!("/chunks/{id}"), "", Vec::new())
    }
}

fn multipart_body(fields: &[(&str, &str)]) -> String {
    let mut body = String::new();

    for (name, contents) in fields {
        body.push_str(&format!(
            "--{REQUEST_BOUNDARY}\r\nContent-Disposition: form-data; name=\"{name}\"\r\n\r\n{contents}\r\n"
        ));
    }
    body.push_str(&format!("--{REQUEST_BOUNDARY}--\r\n"));

    body
}

#[test]
fn an_uploaded_chunk_is_stored_sharded_and_served_back_byte_for_byte() {
    let mut server = Server::default();
    let id = "wireuploadone";
    let contents = "peer a wrote this\nwith two lines\n";

    let uploaded = server.upload("/chunks/upload", &[(id, contents)]);

    assert_eq!(uploaded.status, 200);
    assert!(uploaded.body.is_empty(), "a successful upload answers with an empty body");
    assert!(
        server.files.contains_key(&stored_path(id)),
        "chunk must land under <upload>/<first char>/<second char>/<id>"
    );

    let fetched = server.retrieve(id);

    assert_eq!(fetched.status, 200);
    assert_eq!(fetched.content_type, "text/plain; charset=utf-8");
    assert_eq!(fetched.text(), contents);
}

#[test]
fn both_deprecated_upload_routes_store_chunks_like_the_current_one() {
    let mut server = Server::default();

    for (route, id) in [("/chunks", "wiredeprecateda"), ("/chunks/", "wiredeprecatedb")] {
        let contents = format!("stored via {route}");

        let uploaded = server.upload(route, &[(id, &contents)]);

        assert_eq!(uploaded.status, 200, "route {route}");
        assert_eq!(server.retrieve(id).text(), contents, "route {route}");
    }
}

#[test]
fn a_download_frames_every_chunk_exactly_as_the_client_parser_expects() {
    let mut server = Server::default();
    let (first, second) = ("wiredownloadaa", "wiredownloadbb");
    server.upload("/chunks/upload", &[(first, "first body"), (second, "second body")]);

    let response = server.download(&format!("chunk_ids[]={first}&chunk_ids[]={second}"));
    let boundary = response.boundary();

    assert_eq!(response.status, 200);
    assert_eq!(boundary.len(), 15, "boundary length is part of the contract");
    assert!(boundary.chars().all(|c| c.is_ascii_alphanumeric()));
    assert_eq!(
        response.text(),
        format!(
            "\r\n--{boundary}\r\nContent-Type: text/plain; charset=utf-8\r\nX-Chunk-ID: {first}\r\n\r\nfirst body\
             \r\n--{boundary}\r\nContent-Type: text/plain; charset=utf-8\r\nX-Chunk-ID: {second}\r\n\r\nsecond body\
             \r\n--{boundary}--\r\n"
        )
    );
}

#[test]
fn every_form_value_is_taken_as_a_chunk_id_whatever_its_key() {
    let mut server = Server::default();
    let id = "wireanykeyaa";
    server.upload("/chunks/upload", &[(id, "any key body")]);

    let mut framings = Vec::new();
    for form_body in [
        format!("chunk_ids[]={id}"),
        format!("chunk_ids={id}"),
        format!("0={id}"),
    ] {
        let response = server.download(&form_body);
        assert_eq!(response.status, 200, "form body {form_body}");

        let boundary = response.boundary();
        framings.push(response.text().replace(&boundary, "BOUNDARY"));
    }

    assert!(framings[0].contains(&format!("X-Chunk-ID: {id}")));
    assert_eq!(framings[0], framings[1], "`chunk_ids[]=` and `chunk_ids=`");
    assert_eq!(framings[1], framings[2], "`chunk_ids=` and a numeric key");
}

#[test]
fn an_upload_field_with_an_empty_name_is_skipped_but_still_succeeds() {
    let mut server = Server::default();

    let uploaded = server.upload("/chunks/upload", &[("", "content with no chunk id")]);

    assert_eq!(uploaded.status, 200);
    assert!(
        !server.files.keys().any(|(first, _, _)| first == "null"),
        "an empty id must not be written to the `null` shard"
    );
    assert!(server.files.is_empty());
}

#[test]
fn a_chunk_id_that_is_not_alphanumeric_is_rejected_with_422() {
    assert_eq!(Server::default().retrieve("not-alphanumeric").status, 422);
}

#[test]
fn an_unknown_chunk_is_404() {
    assert_eq!(Server::default().retrieve("wiremissingchunk").status, 404);
}

#[test]
fn an_upload_without_a_multipart_content_type_is_404() {
    let response = Server::default().authed(
        Method::Post,
        "/chunks/upload",
        "application/x-www-form-urlencoded",
        b"wirechunk=body".to_vec(),
    );

    assert_eq!(response.status, 404);
}

#[test]
fn a_download_without_a_form_content_type_is_404() {
    let response = Server::default().authed(
        Method::Post,
        "/chunks/download",
        "text/plain",
        b"chunk_ids[]=wirechunk".to_vec(),
    );

    assert_eq!(response.status, 404);
}

#[test]
fn a_get_on_a_post_only_route_is_404_rather_than_405() {
    let response = Server::default().authed(Method::Get, "/chunks", "", Vec::new());

    assert_eq!(response.status, 404);
    assert_is_error_page(&response, 404, "Not Found");
}

/// Asserts a response carries the default error page for `code`.
fn assert_is_error_page(response: &Res, code: u16, reason: &str) {
    let expected_length = match code {
        404 => 435,
        413 => 477,
        415 => 501,
        422 => 496,
        500 => 488,
        other => panic!("no page is served for {other}"),
    };

    assert_eq!(response.status, code);
    assert_eq!(response.content_type, "text/html; charset=utf-8");
    assert_eq!(response.body.len(), expected_length);
    assert!(
        response.text().contains(&format!("<h1>{code}: {reason}</h1>")),
        "page for {code} reads: {}",
        response.text()
    );
}

#[test]
fn an_unrouted_path_is_answered_with_the_default_404_page() {
    let response = Server::default().authed(Method::Get, "/no-such-route", "", Vec::new());

    assert_is_error_page(&response, 404, "Not Found");
}

#[test]
fn a_rejected_chunk_id_is_answered_with_the_default_422_page() {
    let response = Server::default().retrieve("not-alphanumeric");

    assert_is_error_page(&response, 422, "Unprocessable Entity");
}

#[test]
fn an_authentication_failure_keeps_its_json_body_rather_than_a_page() {
    let response = Server::default().call(None, Method::Get, "/chunks/wirechunk", "", Vec::new());

    assert_eq!(response.status, 401);
    assert_eq!(response.content_type, "application/json");
    assert_eq!(response.text(), r#"{"error":"unauthorized"}"#);
}

#[test]
fn an_upload_past_the_data_form_limit_fails_instead_of_being_stored() {
    let mut server = Server::default();
    let id = "wireoversize";

    let oversize = "a".repeat(6 * 1024 * 1024);
    let response = server.upload("/chunks/upload", &[(id, &oversize)]);

    assert_is_error_page(&response, 500, "Internal Server Error");
    assert!(
        !server.files.contains_key(&stored_path(id)),
        "a rejected upload must not leave a partial chunk behind"
    );
}

#[test]
fn an_upload_just_under_the_data_form_limit_is_stored_whole() {
    let mut server = Server::default();
    let id = "wireatlimit";

    let contents = "b".repeat(4 * 1024 * 1024);
    let response = server.upload("/chunks/upload", &[(id, &contents)]);

    assert_eq!(response.status, 200);
    assert_eq!(
        String::from_utf8(server.files[&stored_path(id)].clone()).expect("stored chunk"),
        contents
    );
}

#[test]
fn a_later_field_of_the_same_name_replaces_the_earlier_one() {
    let mut server = Server::default();
    server.upload("/chunks/upload", &[("wiretwice", "longer first"), ("wiretwice", "second")]);

    assert_eq!(server.retrieve("wiretwice").text(), "second");
}

#[test]
fn an_upload_keeps_the_chunks_before_the_one_that_breaks_off() {
    let mut server = Server::default();
    let form = multipart_body(&[("wirewhole", "whole"), ("wirebroken", "broken")]);
    let cut = form.len() - format!("\r\n--{REQUEST_BOUNDARY}--\r\n").len();
    let response = server.authed(
        Method::Post,
        "/chunks/upload",
        &format!("multipart/form-data; boundary={REQUEST_BOUNDARY}"),
        form.as_bytes()[..cut].to_vec(),
    );

    assert_is_error_page(&response, 500, "Internal Server Error");
    assert_eq!(server.retrieve("wirewhole").text(), "whole");
    assert_eq!(server.retrieve("wirebroken").status, 404);
}

#[test]
fn a_file_that_cannot_be_created_fails_the_upload() {
    let mut server = Server { uncreatable: true, ..Server::default() };
    let response = server.upload("/chunks/upload", &[("wirenofile", "contents")]);

    assert_is_error_page(&response, 500, "Internal Server Error");
}

#[test]
fn a_piece_that_cannot_be_written_costs_the_chunk_its_file() {
    let mut server = Server { unwritable: true, ..Server::default() };
    let response = server.upload("/chunks/upload", &[("wirenowrite", "contents")]);

    assert_eq!(response.status, 200);
    assert!(server.files.is_empty());
}

#[test]
fn a_chunk_whose_write_failed_stays_lost_and_the_next_one_is_stored() {
    let mut upload = Upload::new();
    for event in [
        UploadEvent::Field(Some("wirelost".to_owned())),
        UploadEvent::Done,
        UploadEvent::Done,
        UploadEvent::Data(b"lost".to_vec()),
        UploadEvent::Failed,
    ] {
        assert!(upload.is_expecting(&event));
        upload = upload.step(event);
    }
    assert!(matches!(&upload, Upload::RemoveUnwritten(path) if path.name == "wirelost"));
    upload = upload.step(UploadEvent::Removed);
    assert!(matches!(&upload, Upload::ReadField(path) if path.name == "wirelost"));
    upload = upload.step(UploadEvent::FieldEnd);
    assert!(matches!(upload, Upload::NextField));
    assert!(matches!(upload.step(UploadEvent::NoField), Upload::Finished(UploadEnd::Stored)));
}

#[test]
fn an_upload_leaves_other_chunks_alone() {
    let mut server = Server::default();
    server.upload("/chunks/upload", &[("wireother", "kept")]);
    server.upload("/chunks/upload", &[("wiremine", "mine")]);

    assert_eq!(server.retrieve("wireother").text(), "kept");
    assert_eq!(server.files.len(), 2);
}

#[test]
fn a_directory_that_cannot_be_created_and_a_nameless_field_end_an_upload() {
    let upload = Upload::new().step(UploadEvent::Field(Some("wiredir".to_owned())));
    assert!(matches!(&upload, Upload::CreateDirectory(path) if shard(path) == stored_path("wiredir")));
    let upload = upload.step(UploadEvent::Failed);
    assert!(matches!(upload, Upload::Finished(UploadEnd::StorageFailed)));
    assert!(!upload.is_expecting(&UploadEvent::Done));

    let upload = Upload::new().step(UploadEvent::Field(None));
    assert!(matches!(upload, Upload::Finished(UploadEnd::Broken)));
    assert!(!Upload::new().is_expecting(&UploadEvent::Done));
}

#[test]
fn an_upload_without_a_boundary_is_a_500() {
    for content_type in ["multipart/form-data", "multipart/form-data-other; boundary=x"] {
        let header = RawContentType(content_type.to_owned());
        assert!(matches!(upload_chunks(&header), Err(ChunkError::Panicked)), "{content_type}");
        assert!(matches!(upload_chunks_deprecated(&header), Err(ChunkError::Panicked)));

        let response =
            Server::default().authed(Method::Post, "/chunks/upload", content_type, Vec::new());
        assert_is_error_page(&response, 500, "Internal Server Error");
    }
    assert!(matches!(form_of_boundary(None), Err(ChunkError::Panicked)));
}

#[test]
fn the_boundary_is_taken_from_the_content_type() {
    let header = RawContentType("multipart/form-data; boundary=ABCDEFG".to_owned());
    for form in [upload_chunks(&header), upload_chunks_deprecated(&header)] {
        assert_eq!(form.ok().unwrap().boundary, "ABCDEFG");
    }
    assert_eq!(form_of_boundary(Some("b".to_owned())).ok().unwrap().boundary, "b");
}

#[test]
fn an_upload_is_read_up_to_its_limit() {
    let form = form_of_boundary(Some("b".to_owned())).ok().unwrap();
    for mut body in [upload_body(), form.body] {
        assert!(!body.has_ended());
        let below = body.pass(Ok::<_, u8>(vec![0; DATA_FORM_LIMIT - 1])).unwrap();
        assert_eq!(below.len(), DATA_FORM_LIMIT - 1);
        assert!(!body.has_ended());
        assert_eq!(body.pass(Ok::<_, u8>(b"ab".to_vec())), Ok(b"a".to_vec()));
        assert!(body.has_ended());
    }
}

#[test]
fn chunk_errors_have_their_statuses() {
    for (error, status) in [
        (ChunkError::UnmatchedFormat, 404),
        (ChunkError::Io, 500),
        (ChunkError::Panicked, 500),
    ] {
        let response = error.into_response();
        assert_eq!(response.status, status);
        assert!(response.content_type.is_none());
        assert!(response.body.is_empty());
    }
}

#[test]
fn a_content_type_that_is_missing_or_no_text_is_empty() {
    assert_eq!(RawContentType::from_request_parts(None).0, "");
    assert_eq!(RawContentType::from_request_parts(Some(b"text/\xe9")).0, "");
    assert_eq!(RawContentType::from_request_parts(Some(b"text/plain")).0, "text/plain");
}

#[test]
fn form_values_are_decoded() {
    let chunks = requested_chunks("a=x%20y+z&b=ab%C3%A9&&c&d=");
    let ids: Vec<&str> = chunks.iter().map(|(id, _)| id.as_str()).collect();

    assert_eq!(ids, ["x y z", "abé", "", ""]);
    assert_eq!(shard(&chunks[0].1), ("x".to_owned(), " ".to_owned(), "x y z".to_owned()));
    assert!(requested_chunks("").is_empty());
}

#[test]
fn a_download_of_nothing_is_the_terminator_alone() {
    let response = Server::default().download("");
    let boundary = response.boundary();

    assert_eq!(response.text(), format!("\r\n--{boundary}--\r\n"));
}

#[test]
fn a_download_is_cut_off_at_a_missing_chunk() {
    let mut server = Server::default();
    server.upload("/chunks/upload", &[("wirethere", "there")]);

    let response = server.download("0=wirethere&1=wiregone&2=wirethere");
    let boundary = response.boundary();

    assert_eq!(
        response.text(),
        format!(
            "\r\n--{boundary}\r\nContent-Type: text/plain; charset=utf-8\r\nX-Chunk-ID: wirethere\r\n\r\nthere"
        )
    );
}

#[test]
fn a_file_that_cannot_be_read_on_is_reported_in_the_stream() {
    let mixed = MultipartMixed {
        boundary: "b".repeat(BOUNDARY_LEN),
        chunks: requested_chunks("0=wireunreadable"),
    };
    let mut body = mixed.into_response().body;
    assert!(matches!(body.step(MixedEvent::Begin), MixedItem::Nothing));
    assert!(matches!(body.step(MixedEvent::Opened), MixedItem::Bytes(_)));
    assert!(matches!(body.step(MixedEvent::ReadFailed), MixedItem::ReadFailed));
    assert!(body.phase() == MixedPhase::Read);
    assert!(matches!(body.step(MixedEvent::EndOfFile), MixedItem::Bytes(_)));
    assert!(body.phase() == MixedPhase::Ended);
    assert!(!body.is_expecting(&MixedEvent::Begin));
}

#[test]
fn boundaries_are_drawn_anew() {
    let first = MultipartMixed::new_random(Vec::new()).boundary;
    let second = MultipartMixed::new_random(Vec::new()).boundary;

    assert_eq!(first.len(), BOUNDARY_LEN);
    assert!(first.chars().all(|c| c.is_ascii_alphanumeric()));
    assert_ne!(first, second);
}

/// Frames that can all be read.
fn frames(chunks: &[&[u8]]) -> Vec<Result<Vec<u8>, u8>> {
    chunks.iter().map(|chunk| Ok(chunk.to_vec())).collect()
}

fn chunks(items: Vec<Result<Vec<u8>, u8>>) -> Vec<Vec<u8>> {
    items.into_iter().map(Result::unwrap).collect()
}

#[test]
fn a_body_is_cut_at_its_limit_however_it_is_split() {
    let body = b"0123456789";
    for size in 1..=10 {
        for limit in 0..=12 {
            let frames = frames(&body.chunks(size).collect::<Vec<_>>());
            let passed = chunks(capped_data_stream(frames, limit)).concat();
            assert_eq!(passed, &body[..limit.min(10)], "size {size}, limit {limit}");
        }
    }
    assert_eq!(chunks(capped_data_stream(frames(&[b"ab", b"cd"]), 2)), [b"ab"]);
    assert_eq!(
        chunks(capped_data_stream(frames(&[b"ab", b"cd"]), 3)),
        [b"ab".to_vec(), b"c".to_vec()]
    );
}

#[test]
fn a_failed_body_passes_nothing_more() {
    let mut cap = CappedDataStream::new(10);
    assert_eq!(cap.pass(Ok::<_, u8>(b"abc".to_vec())), Ok(b"abc".to_vec()));
    assert!(!cap.has_ended());
    assert_eq!(cap.pass(Err(7u8)), Err(7));
    assert!(cap.has_ended());
}

#[test]
fn a_failure_to_read_on_is_the_last_item_of_a_body() {
    let body = || {
        vec![Ok(b"abc".to_vec()), Ok(b"de".to_vec()), Err(7), Ok(b"f".to_vec()), Err(8)]
    };

    let whole = vec![Ok(b"abc".to_vec()), Ok(b"de".to_vec()), Err(7)];
    assert_eq!(capped_data_stream(body(), 6), whole);
    assert_eq!(
        capped_data_stream(body(), 5),
        [Ok(b"abc".to_vec()), Ok(b"de".to_vec())],
        "a body that has filled its limit is not read on"
    );
    assert_eq!(capped_data_stream(vec![Err::<Vec<u8>, u8>(7)], 0), [Err(7)]);
}

#[test]
fn short_ids_are_stored_below_null() {
    let one = ChunkId::from("a").file_path();
    assert_eq!(shard(&one), ("a".to_owned(), "null".to_owned(), "a".to_owned()));
    let none = ChunkId::from("").file_path();
    assert_eq!(shard(&none), ("null".to_owned(), "null".to_owned(), String::new()));
    assert!(ChunkId::from("").is_empty());
    assert!(ChunkId::from_param("").is_some());
    assert!(ChunkId::from_param("aZ09").is_some());
    assert!(ChunkId::from_param("é").is_none());
    assert_eq!(find_chunk("").err().unwrap().status, 404);
}

#[test]
fn the_chunk_routes_have_their_limits() {
    let table = router();
    let rows: Vec<(&str, usize)> = table.iter().map(|r| (r.path, r.body_limit)).collect();

    assert_eq!(
        rows,
        [
            ("/chunks", DATA_FORM_LIMIT),
            ("/chunks/", DATA_FORM_LIMIT),
            ("/chunks/upload", DATA_FORM_LIMIT),
            ("/chunks/download", FORM_LIMIT),
            ("/chunks/{id}", DATA_FORM_LIMIT),
        ]
    );
    assert_eq!(DATA_FORM_LIMIT, 5_242_880);
    assert_eq!(FORM_LIMIT, 1_048_576);
}

#[test]
fn every_path_of_the_server_is_there_once() {
    let table = create_server();
    let mut paths: Vec<&str> = table.iter().map(|route| route.path).collect();
    assert_eq!(paths.len(), 9);
    paths.sort();
    paths.dedup();
    assert_eq!(paths.len(), 9);
}
