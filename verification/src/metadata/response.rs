//! The JSON answers of the metadata routes.

use vstd::prelude::*;

use crate::http;
use crate::http::{Response, JSON, OK};
use crate::json;
use crate::json::{json_integer, json_string};
use crate::metadata::models::{FileRecord, RecordView};
use crate::metadata::records;
use crate::text;

verus! {

/// The answer to a commit: the id of the file's latest record, or the chunks
/// that are to be uploaded first, separated by commas.
pub enum CommitResultStatus {
    Success(i32),
    NeedChunks(String),
}

/// The answer to a commit over character sequences.
pub enum CommitStatus {
    Success(i32),
    NeedChunks(Seq<char>),
}

impl View for CommitResultStatus {
    type V = CommitStatus;

    open spec fn view(&self) -> CommitStatus {
        match *self {
            CommitResultStatus::Success(id) => CommitStatus::Success(id),
            CommitResultStatus::NeedChunks(ids) => CommitStatus::NeedChunks(ids@),
        }
    }
}

impl CommitStatus {
    /// The answer as JSON: an object with the outcome's name as its only key.
    pub open spec fn json(self) -> Seq<char> {
        match self {
            CommitStatus::Success(id) => "{\"Success\":"@ + json::decimal(id as int) + "}"@,
            CommitStatus::NeedChunks(ids) => "{\"NeedChunks\":"@ + json::quoted(ids) + "}"@,
        }
    }
}

impl CommitResultStatus {
    /// The answer: a JSON body.
    pub fn into_response(self) -> (response: Response<String>)
        ensures
            response.head() == http::head(OK, JSON@),
            response.body@ == self@.json(),
    {
        let body = match self {
            CommitResultStatus::Success(id) => "{\"Success\":".to_owned().concat(
                json_integer(id).as_str(),
            ).concat("}"),
            CommitResultStatus::NeedChunks(ids) => "{\"NeedChunks\":".to_owned().concat(
                json_string(ids.as_str()).as_str(),
            ).concat("}"),
        };
        Response::with_type(OK, JSON, body)
    }
}

/// A truth value as JSON.
pub open spec fn bool_json(value: bool) -> Seq<char> {
    if value {
        "true"@
    } else {
        "false"@
    }
}

fn json_bool(value: bool) -> (json: &'static str)
    ensures
        json@ == bool_json(value),
{
    if value {
        "true"
    } else {
        "false"
    }
}

impl RecordView {
    /// The record as a JSON object; clients rely on the order of its members.
    pub open spec fn json(self) -> Seq<char> {
        "{\"id\":"@ + json::decimal(self.id as int) + ",\"user_id\":"@
            + json::decimal(self.user_id as int) + ",\"chunk_ids\":"@ + json::quoted(
            self.chunk_ids,
        ) + ",\"deleted\":"@ + bool_json(self.deleted) + ",\"path\":"@ + json::quoted(
            self.path,
        ) + "}"@
    }
}

fn record_json(record: &FileRecord) -> (json: String)
    ensures
        json@ == record@.json(),
{
    let mut json = "{\"id\":".to_owned();
    json.append(json_integer(record.id).as_str());
    json.append(",\"user_id\":");
    json.append(json_integer(record.user_id).as_str());
    json.append(",\"chunk_ids\":");
    json.append(json_string(record.chunk_ids.as_str()).as_str());
    json.append(",\"deleted\":");
    json.append(json_bool(record.deleted));
    json.append(",\"path\":");
    json.append(json_string(record.path.as_str()).as_str());
    json.append("}");
    json
}

/// Records as a JSON array, in order.
pub open spec fn records_json(rows: Seq<RecordView>) -> Seq<char> {
    "["@ + text::joined(rows.map_values(|row: RecordView| row.json()), ","@) + "]"@
}

/// Answers with records: a JSON array, in order.
pub fn records_response(records: &Vec<FileRecord>) -> (response: Response<String>)
    ensures
        response.head() == http::head(OK, JSON@),
        response.body@ == records_json(records::rows_view(records@)),
{
    let ghost texts = records::rows_view(records@).map_values(|row: RecordView| row.json());
    let mut members: Vec<String> = Vec::new();
    for i in 0..records.len()
        invariant
            texts == records::rows_view(records@).map_values(|row: RecordView| row.json()),
            members@.map_values(|m: String| m@) == texts.take(i as int),
    {
        let json = record_json(&records[i]);
        let ghost before = members@.map_values(|m: String| m@);
        members.push(json);
        assert(members@.map_values(|m: String| m@) == before.push(json@));
    }
    assert(texts.take(records@.len() as int) == texts);
    let body = "[".to_owned().concat(text::join(&members, ",").as_str()).concat("]");
    Response::with_type(OK, JSON, body)
}

/// Answers with a truth value, as JSON.
pub fn bool_response(value: bool) -> (response: Response<String>)
    ensures
        response.head() == http::head(OK, JSON@),
        response.body@ == bool_json(value),
{
    Response::with_type(OK, JSON, json_bool(value).to_owned())
}

/// A JSON array grows by one member per record, whole and in order, with
/// commas between them and brackets around all.
pub proof fn law_an_array_grows_record_by_record(rows: Seq<RecordView>, row: RecordView)
    ensures
        records_json(Seq::empty()) == "[]"@,
        records_json(seq![row]) == "["@ + row.json() + "]"@,
        rows.len() > 0 ==> records_json(rows.push(row)) == records_json(rows).drop_last() + ","@
            + row.json() + "]"@,
{
    reveal_strlit("[");
    reveal_strlit("]");
    reveal_strlit("[]");
    let render = |r: RecordView| r.json();
    let none = Seq::<RecordView>::empty();
    assert(none.map_values(render) == Seq::<Seq<char>>::empty());
    assert(records_json(none) =~= "[]"@);
    assert(seq![row].map_values(render) == seq![row.json()]);
    assert(records_json(seq![row]) =~= "["@ + row.json() + "]"@);
    if rows.len() > 0 {
        assert(rows.push(row).map_values(render) == rows.map_values(render).push(row.json()));
        assert(rows.map_values(render).push(row.json()).drop_last() == rows.map_values(render));
        assert(records_json(rows).drop_last() =~= "["@ + text::joined(
            rows.map_values(render),
            ","@,
        ));
        assert(records_json(rows.push(row)) =~= records_json(rows).drop_last() + ","@ + row.json()
            + "]"@);
    }
}

/// A record's object holds each of its members whole: the two numbers, the
/// list of chunks, whether it is a deletion, and the path, in this order.
pub proof fn law_an_object_holds_every_member_whole(row: RecordView)
    ensures
        ({
            let numbers = "{\"id\":"@ + json::decimal(row.id as int) + ",\"user_id\":"@
                + json::decimal(row.user_id as int);
            let chunks = ",\"chunk_ids\":"@ + json::quoted(row.chunk_ids);
            let deletion = if row.deleted {
                ",\"deleted\":true"@
            } else {
                ",\"deleted\":false"@
            };
            let path = ",\"path\":"@ + json::quoted(row.path) + "}"@;
            row.json() == numbers + chunks + deletion + path
        }),
{
    reveal_strlit(",\"deleted\":true");
    reveal_strlit(",\"deleted\":false");
    reveal_strlit(",\"deleted\":");
    reveal_strlit("true");
    reveal_strlit("false");
    assert(",\"deleted\":true"@ =~= ",\"deleted\":"@ + "true"@);
    assert(",\"deleted\":false"@ =~= ",\"deleted\":"@ + "false"@);
    let numbers = "{\"id\":"@ + json::decimal(row.id as int) + ",\"user_id\":"@ + json::decimal(
        row.user_id as int,
    );
    let chunks = ",\"chunk_ids\":"@ + json::quoted(row.chunk_ids);
    let path = ",\"path\":"@ + json::quoted(row.path) + "}"@;
    if row.deleted {
        assert(row.json() =~= numbers + chunks + ",\"deleted\":true"@ + path);
    } else {
        assert(row.json() =~= numbers + chunks + ",\"deleted\":false"@ + path);
    }
}

/// Objects of records that agree in all else tell their paths apart, and so
/// they do for their lists of chunks, and for what they delete.
pub proof fn law_records_can_be_told_apart(a: RecordView, b: RecordView)
    requires
        a.json() == b.json(),
        a.id == b.id,
        a.user_id == b.user_id,
    ensures
        a == b,
{
    reveal_strlit(",\"deleted\":");
    reveal_strlit("true");
    reveal_strlit("false");
    let numbers = "{\"id\":"@ + json::decimal(a.id as int) + ",\"user_id\":"@ + json::decimal(
        a.user_id as int,
    ) + ",\"chunk_ids\":"@;
    let rest_a = ",\"deleted\":"@ + bool_json(a.deleted) + ",\"path\":"@ + json::quoted(a.path)
        + "}"@;
    let rest_b = ",\"deleted\":"@ + bool_json(b.deleted) + ",\"path\":"@ + json::quoted(b.path)
        + "}"@;
    let lead = numbers.len() as int;
    assert(a.json().skip(lead) =~= json::quoted(a.chunk_ids) + rest_a);
    assert(b.json().skip(lead) =~= json::quoted(b.chunk_ids) + rest_b);
    json::law_a_quoted_text_can_be_read_back(a.chunk_ids, b.chunk_ids, rest_a, rest_b);
    let flag = ",\"deleted\":"@.len() as int;
    assert(rest_a[flag] == bool_json(a.deleted)[0]);
    assert(rest_b[flag] == bool_json(b.deleted)[0]);
    assert(a.deleted == b.deleted);
    let behind = (",\"deleted\":"@ + bool_json(a.deleted) + ",\"path\":"@).len() as int;
    assert(rest_a.skip(behind) =~= json::quoted(a.path) + "}"@);
    assert(rest_b.skip(behind) =~= json::quoted(b.path) + "}"@);
    json::law_a_quoted_text_can_be_read_back(a.path, b.path, "}"@, "}"@);
}

/// A commit is answered with its whole id or its whole list, and a truth value
/// with its name.
pub proof fn law_an_answer_says_all_of_it(id: i32, ids: Seq<char>, a: Seq<char>)
    ensures
        CommitStatus::Success(id).json() == "{\"Success\":"@ + json::decimal(id as int) + "}"@,
        CommitStatus::NeedChunks(ids).json() == "{\"NeedChunks\":"@ + json::quoted(ids) + "}"@,
        CommitStatus::NeedChunks(ids).json() == CommitStatus::NeedChunks(a).json() ==> ids == a,
        bool_json(true) == "true"@,
        bool_json(false) == "false"@,
{
    if CommitStatus::NeedChunks(ids).json() == CommitStatus::NeedChunks(a).json() {
        let lead = "{\"NeedChunks\":"@.len() as int;
        assert(CommitStatus::NeedChunks(ids).json().skip(lead) =~= json::quoted(ids) + "}"@);
        assert(CommitStatus::NeedChunks(a).json().skip(lead) =~= json::quoted(a) + "}"@);
        json::law_a_quoted_text_can_be_read_back(ids, a, "}"@, "}"@);
    }
}

/// The answer to a commit is shown whole.
pub proof fn law_an_answer_is_shown_whole(id: i32, ids: String)
    ensures
        CommitResultStatus::Success(id)@ == CommitStatus::Success(id),
        CommitResultStatus::NeedChunks(ids)@ == CommitStatus::NeedChunks(ids@),
{
}

} // verus!
