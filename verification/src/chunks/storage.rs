//! What uploads leave in the chunk storage, and what is served from it.

use vstd::prelude::*;

use crate::chunk_id;
use crate::chunks::capped;
use crate::chunks::download;
use crate::chunks::retrieve;
use crate::chunks::upload;
use crate::chunks::upload::{EventView, UploadEnd, UploadState};
use crate::http;
use crate::http::{NOT_FOUND, OK};

verus! {

/// The files of the chunk storage: what is stored at each path.
///
/// A path is three names, each taken as one component, as every alphanumeric
/// id is. An upload may name a chunk by any text: a name with a separator in
/// it, or a dot component, is another place in a real file system, and what is
/// said here of its path does not hold of that place.
pub struct Disk {
    pub files: Map<Seq<Seq<char>>, Seq<u8>>,
}

impl Disk {
    pub open spec fn with(self, path: Seq<Seq<char>>, contents: Seq<u8>) -> Disk {
        Disk { files: self.files.insert(path, contents) }
    }

    pub open spec fn without(self, path: Seq<Seq<char>>) -> Disk {
        Disk { files: self.files.remove(path) }
    }
}

/// The files after what an upload waited for came out as the event says: a
/// file created is empty, a piece written is appended to the file if that is
/// still there, a file removed is gone. A removal is taken to succeed where it
/// is tried.
pub open spec fn effect(disk: Disk, state: UploadState, event: EventView) -> Disk {
    match (state, event) {
        (UploadState::CreateFile(path), EventView::Done) => disk.with(path, Seq::empty()),
        (UploadState::Write(path, bytes), EventView::Done) => if disk.files.contains_key(path) {
            disk.with(path, disk.files[path] + bytes)
        } else {
            disk
        },
        (UploadState::RemoveUnwritten(path), EventView::Removed) => disk.without(path),
        (UploadState::RemoveBroken(path), EventView::Removed) => disk.without(path),
        _ => disk,
    }
}

/// An upload and the files it works on, after a number of events.
pub open spec fn run(state: UploadState, disk: Disk, events: Seq<EventView>) -> (UploadState, Disk)
    decreases events.len(),
{
    if events.len() == 0 {
        (state, disk)
    } else {
        run(upload::after(state, events[0]), effect(disk, state, events[0]), events.drop_first())
    }
}

/// Whether each of the events is one that the upload expects when it comes.
pub open spec fn expected(state: UploadState, events: Seq<EventView>) -> bool
    decreases events.len(),
{
    events.len() == 0 || {
        &&& upload::expects(state, events[0])
        &&& expected(upload::after(state, events[0]), events.drop_first())
    }
}

/// A field of a form: its name and its contents, in the pieces they arrive in.
pub struct Field {
    pub name: Seq<char>,
    pub pieces: Seq<Seq<u8>>,
}

/// What happens as pieces of a field are read and written.
pub open spec fn piece_events(pieces: Seq<Seq<u8>>) -> Seq<EventView>
    decreases pieces.len(),
{
    if pieces.len() == 0 {
        Seq::empty()
    } else {
        seq![EventView::Data(pieces[0]), EventView::Done] + piece_events(pieces.drop_first())
    }
}

/// What happens up to the end of a field's pieces.
pub open spec fn opening_events(field: Field) -> Seq<EventView> {
    seq![EventView::Field(Some(field.name)), EventView::Done, EventView::Done] + piece_events(
        field.pieces,
    )
}

/// What happens as a field is read and stored; nothing is read of a field
/// without a name.
pub open spec fn field_events(field: Field) -> Seq<EventView> {
    if field.name.len() == 0 {
        seq![EventView::Field(Some(field.name))]
    } else {
        opening_events(field).push(EventView::FieldEnd)
    }
}

/// What happens as these fields are read and stored.
pub open spec fn form_events(fields: Seq<Field>) -> Seq<EventView>
    decreases fields.len(),
{
    if fields.len() == 0 {
        Seq::empty()
    } else {
        form_events(fields.drop_last()) + field_events(fields.last())
    }
}

/// The files after these fields have been stored.
pub open spec fn stored(disk: Disk, fields: Seq<Field>) -> Disk
    decreases fields.len(),
{
    if fields.len() == 0 {
        disk
    } else {
        let before = stored(disk, fields.drop_last());
        let field = fields.last();
        if field.name.len() == 0 {
            before
        } else {
            before.with(chunk_id::shard_path(field.name), capped::flat(field.pieces))
        }
    }
}

/// The answer to a request for a chunk: its status, and the chunk's bytes
/// where it is served.
pub open spec fn served(disk: Disk, param: Seq<char>) -> (u16, Option<Seq<u8>>) {
    match retrieve::wanted(param) {
        Err(status) => (status, None),
        Ok(path) => if disk.files.contains_key(path) {
            (OK, Some(disk.files[path]))
        } else {
            (NOT_FOUND, None)
        },
    }
}

proof fn lemma_run_joins(state: UploadState, disk: Disk, a: Seq<EventView>, b: Seq<EventView>)
    ensures
        run(state, disk, a + b) == run(run(state, disk, a).0, run(state, disk, a).1, b),
        expected(state, a + b) == (expected(state, a) && expected(run(state, disk, a).0, b)),
    decreases a.len(),
{
    if a.len() == 0 {
        assert(a + b == b);
    } else {
        assert((a + b).drop_first() == a.drop_first() + b);
        lemma_run_joins(upload::after(state, a[0]), effect(disk, state, a[0]), a.drop_first(), b);
    }
}

proof fn lemma_pieces(disk: Disk, path: Seq<Seq<char>>, pieces: Seq<Seq<u8>>)
    requires
        disk.files.contains_key(path),
    ensures
        expected(UploadState::ReadField(path), piece_events(pieces)),
        run(UploadState::ReadField(path), disk, piece_events(pieces)) == (
            UploadState::ReadField(path),
            disk.with(path, disk.files[path] + capped::flat(pieces)),
        ),
    decreases pieces.len(),
{
    reveal_with_fuel(run, 3);
    reveal_with_fuel(expected, 3);
    let contents = disk.files[path];
    if pieces.len() == 0 {
        assert(contents + capped::flat(pieces) == contents);
        assert(disk.files.insert(path, contents) == disk.files);
    } else {
        let events = piece_events(pieces);
        let rest = piece_events(pieces.drop_first());
        let after_piece = disk.with(path, contents + pieces[0]);
        assert(events.drop_first().drop_first() == rest);
        lemma_pieces(after_piece, path, pieces.drop_first());
        assert((contents + pieces[0]) + capped::flat(pieces.drop_first()) == contents
            + capped::flat(pieces));
        assert(after_piece.files.insert(
            path,
            contents + capped::flat(pieces),
        ) == disk.files.insert(path, contents + capped::flat(pieces)));
    }
}

proof fn lemma_opening(disk: Disk, field: Field)
    requires
        field.name.len() > 0,
    ensures
        expected(UploadState::NextField, opening_events(field)),
        run(UploadState::NextField, disk, opening_events(field)) == (
            UploadState::ReadField(chunk_id::shard_path(field.name)),
            disk.with(chunk_id::shard_path(field.name), capped::flat(field.pieces)),
        ),
{
    reveal_with_fuel(run, 4);
    reveal_with_fuel(expected, 4);
    let path = chunk_id::shard_path(field.name);
    let opening = seq![EventView::Field(Some(field.name)), EventView::Done, EventView::Done];
    let empty_file = disk.with(path, Seq::empty());
    assert(opening.drop_first() == seq![EventView::Done, EventView::Done]);
    assert(opening.drop_first().drop_first() == seq![EventView::Done]);
    assert(opening.drop_first().drop_first().drop_first() == Seq::<EventView>::empty());
    assert(run(UploadState::NextField, disk, opening) == (
        UploadState::ReadField(path),
        empty_file,
    ));
    lemma_run_joins(UploadState::NextField, disk, opening, piece_events(field.pieces));
    lemma_pieces(empty_file, path, field.pieces);
    let contents = capped::flat(field.pieces);
    assert(Seq::<u8>::empty() + contents == contents);
    assert(empty_file.files.insert(path, contents) == disk.files.insert(path, contents));
}

proof fn lemma_form(disk: Disk, fields: Seq<Field>)
    ensures
        expected(UploadState::NextField, form_events(fields)),
        run(UploadState::NextField, disk, form_events(fields)) == (
            UploadState::NextField,
            stored(disk, fields),
        ),
    decreases fields.len(),
{
    reveal_with_fuel(run, 2);
    reveal_with_fuel(expected, 2);
    if fields.len() > 0 {
        let field = fields.last();
        let before = stored(disk, fields.drop_last());
        lemma_form(disk, fields.drop_last());
        lemma_run_joins(
            UploadState::NextField,
            disk,
            form_events(fields.drop_last()),
            field_events(field),
        );
        if field.name.len() > 0 {
            lemma_opening(before, field);
            let end = seq![EventView::FieldEnd];
            assert(field_events(field) == opening_events(field) + end);
            lemma_run_joins(UploadState::NextField, before, opening_events(field), end);
            assert(end.drop_first() == Seq::<EventView>::empty());
        } else {
            assert(field_events(field).drop_first() == Seq::<EventView>::empty());
        }
    }
}

/// An upload that is read to its end is answered with success, and stores
/// every field that has a name, byte for byte, however its contents were split
/// on the way. Nothing else changes.
pub proof fn law_an_upload_stores_its_fields(disk: Disk, fields: Seq<Field>)
    ensures
        expected(UploadState::NextField, form_events(fields).push(EventView::NoField)),
        run(UploadState::NextField, disk, form_events(fields).push(EventView::NoField)) == (
            UploadState::Finished(UploadEnd::Stored),
            stored(disk, fields),
        ),
        UploadEnd::Stored.result() is Ok,
{
    reveal_with_fuel(run, 2);
    reveal_with_fuel(expected, 2);
    let end = seq![EventView::NoField];
    lemma_form(disk, fields);
    assert(form_events(fields).push(EventView::NoField) == form_events(fields) + end);
    lemma_run_joins(UploadState::NextField, disk, form_events(fields), end);
    assert(end.drop_first() == Seq::<EventView>::empty());
}

/// A field that breaks off fails the upload and leaves nothing of itself
/// behind. The fields before it stay stored.
pub proof fn law_a_broken_field_leaves_no_chunk(disk: Disk, before: Seq<Field>, broken: Field)
    requires
        broken.name.len() > 0,
    ensures
        ({
            let events = form_events(before) + opening_events(broken) + seq![
                EventView::FieldFailed,
                EventView::Removed,
            ];
            let path = chunk_id::shard_path(broken.name);
            let (end, files) = run(UploadState::NextField, disk, events);
            &&& expected(UploadState::NextField, events)
            &&& end == UploadState::Finished(UploadEnd::Broken)
            &&& UploadEnd::Broken.result() is Err
            &&& UploadEnd::Broken.result()->Err_0.status() == http::INTERNAL_SERVER_ERROR
            &&& files == stored(disk, before).without(path)
            &&& !files.files.contains_key(path)
        }),
{
    reveal_with_fuel(run, 3);
    reveal_with_fuel(expected, 3);
    let path = chunk_id::shard_path(broken.name);
    let ending = seq![EventView::FieldFailed, EventView::Removed];
    let files = stored(disk, before);
    lemma_form(disk, before);
    lemma_opening(files, broken);
    lemma_run_joins(UploadState::NextField, disk, form_events(before), opening_events(broken));
    lemma_run_joins(
        UploadState::NextField,
        disk,
        form_events(before) + opening_events(broken),
        ending,
    );
    assert(ending.drop_first() == seq![EventView::Removed]);
    assert(ending.drop_first().drop_first() == Seq::<EventView>::empty());
    let contents = capped::flat(broken.pieces);
    assert(files.files.insert(path, contents).remove(path) == files.files.remove(path));
}

proof fn lemma_lost_pieces(disk: Disk, path: Seq<Seq<char>>, pieces: Seq<Seq<u8>>)
    requires
        !disk.files.contains_key(path),
    ensures
        expected(UploadState::ReadField(path), piece_events(pieces)),
        run(UploadState::ReadField(path), disk, piece_events(pieces)) == (
            UploadState::ReadField(path),
            disk,
        ),
    decreases pieces.len(),
{
    reveal_with_fuel(run, 3);
    reveal_with_fuel(expected, 3);
    if pieces.len() > 0 {
        assert(piece_events(pieces).drop_first().drop_first() == piece_events(pieces.drop_first()));
        lemma_lost_pieces(disk, path, pieces.drop_first());
    }
}

/// A field of which a piece cannot be written loses its file, whatever of it
/// is written after that; the upload goes on with the next field.
pub proof fn law_a_failed_write_leaves_no_chunk(
    disk: Disk,
    before: Seq<Field>,
    written: Field,
    lost: Seq<u8>,
    rest: Seq<Seq<u8>>,
)
    requires
        written.name.len() > 0,
    ensures
        ({
            let failing = seq![EventView::Data(lost), EventView::Failed, EventView::Removed];
            let events = form_events(before) + opening_events(written) + failing + piece_events(
                rest,
            ) + seq![EventView::FieldEnd];
            let path = chunk_id::shard_path(written.name);
            &&& expected(UploadState::NextField, events)
            &&& run(UploadState::NextField, disk, events) == (
                UploadState::NextField,
                stored(disk, before).without(path),
            )
        }),
{
    reveal_with_fuel(run, 4);
    reveal_with_fuel(expected, 4);
    let path = chunk_id::shard_path(written.name);
    let failing = seq![EventView::Data(lost), EventView::Failed, EventView::Removed];
    let ending = seq![EventView::FieldEnd];
    let files = stored(disk, before);
    let opened = form_events(before) + opening_events(written);
    lemma_form(disk, before);
    lemma_opening(files, written);
    lemma_run_joins(UploadState::NextField, disk, form_events(before), opening_events(written));
    lemma_run_joins(UploadState::NextField, disk, opened, failing);
    assert(failing.drop_first() == seq![EventView::Failed, EventView::Removed]);
    assert(failing.drop_first().drop_first() == seq![EventView::Removed]);
    assert(failing.drop_first().drop_first().drop_first() == Seq::<EventView>::empty());
    let contents = capped::flat(written.pieces);
    assert(files.files.insert(path, contents).remove(path) == files.files.remove(path));
    lemma_run_joins(UploadState::NextField, disk, opened + failing, piece_events(rest));
    lemma_lost_pieces(files.without(path), path, rest);
    lemma_run_joins(UploadState::NextField, disk, opened + failing + piece_events(rest), ending);
    assert(ending.drop_first() == Seq::<EventView>::empty());
}

/// Whether a state is about the file at a path.
pub open spec fn concerns(state: UploadState, path: Seq<Seq<char>>) -> bool {
    match state {
        UploadState::NextField => false,
        UploadState::CreateDirectory(p) => p == path,
        UploadState::CreateFile(p) => p == path,
        UploadState::ReadField(p) => p == path,
        UploadState::Write(p, _) => p == path,
        UploadState::RemoveUnwritten(p) => p == path,
        UploadState::RemoveBroken(p) => p == path,
        UploadState::Finished(_) => false,
    }
}

/// Whether an event names the chunk that is stored at a path.
pub open spec fn names(event: EventView, path: Seq<Seq<char>>) -> bool {
    event matches EventView::Field(Some(name)) && chunk_id::shard_path(name) == path
}

/// Whatever happens to an upload, and however it ends, it touches no file but
/// those of the chunks that its fields name.
pub proof fn law_an_upload_touches_only_its_chunks(
    state: UploadState,
    disk: Disk,
    events: Seq<EventView>,
    path: Seq<Seq<char>>,
)
    requires
        !concerns(state, path),
        forall|i: int| 0 <= i < events.len() ==> !names(#[trigger] events[i], path),
    ensures
        run(state, disk, events).1.files.contains_key(path) == disk.files.contains_key(path),
        run(state, disk, events).1.files[path] == disk.files[path],
    decreases events.len(),
{
    if events.len() > 0 {
        let rest = events.drop_first();
        assert(!names(events[0], path));
        assert forall|i: int| 0 <= i < rest.len() implies !names(#[trigger] rest[i], path) by {
            assert(rest[i] == events[i + 1]);
        }
        law_an_upload_touches_only_its_chunks(
            upload::after(state, events[0]),
            effect(disk, state, events[0]),
            rest,
            path,
        );
    }
}

/// A field without a name changes nothing.
pub proof fn law_a_nameless_field_is_passed_over(disk: Disk, fields: Seq<Field>, field: Field)
    requires
        field.name.len() == 0,
    ensures
        stored(disk, fields.push(field)) == stored(disk, fields),
{
    assert(fields.push(field).drop_last() == fields);
}

proof fn lemma_stored(disk: Disk, fields: Seq<Field>, i: int)
    requires
        0 <= i < fields.len(),
        fields[i].name.len() > 0,
        forall|j: int| i < j < fields.len() ==> (#[trigger] fields[j]).name != fields[i].name,
    ensures
        stored(disk, fields).files.contains_key(chunk_id::shard_path(fields[i].name)),
        stored(disk, fields).files[chunk_id::shard_path(fields[i].name)] == capped::flat(
            fields[i].pieces,
        ),
    decreases fields.len(),
{
    let last = fields.last();
    if i < fields.len() - 1 {
        assert(fields[fields.len() - 1].name != fields[i].name);
        assert forall|j: int| i < j < fields.drop_last().len() implies (
        #[trigger] fields.drop_last()[j]).name != fields[i].name by {
            assert(fields[j].name != fields[i].name);
        }
        lemma_stored(disk, fields.drop_last(), i);
        let path = chunk_id::shard_path(fields[i].name);
        if chunk_id::shard_path(last.name) == path {
            chunk_id::law_a_path_has_one_chunk(last.name, fields[i].name);
        }
    }
}

/// An uploaded chunk is served back byte for byte, unless a later field of the
/// same upload has the same name.
pub proof fn law_an_uploaded_chunk_is_served_back(disk: Disk, fields: Seq<Field>, i: int)
    requires
        0 <= i < fields.len(),
        fields[i].name.len() > 0,
        chunk_id::all_alphanumeric(fields[i].name),
        forall|j: int| i < j < fields.len() ==> (#[trigger] fields[j]).name != fields[i].name,
    ensures
        served(stored(disk, fields), fields[i].name) == (OK, Some(capped::flat(fields[i].pieces))),
{
    lemma_stored(disk, fields, i);
}

/// A download that asks for an uploaded chunk, under whatever key, reads the
/// bytes that were uploaded, unless a later field of the same upload has the
/// same name.
pub proof fn law_an_uploaded_chunk_can_be_downloaded(
    disk: Disk,
    fields: Seq<Field>,
    i: int,
    pairs: Seq<(Seq<char>, Seq<char>)>,
    k: int,
)
    requires
        0 <= i < fields.len(),
        fields[i].name.len() > 0,
        forall|j: int| i < j < fields.len() ==> (#[trigger] fields[j]).name != fields[i].name,
        0 <= k < pairs.len(),
        pairs[k].1 == fields[i].name,
    ensures
        download::requested(Some(pairs))[k].0 == fields[i].name,
        stored(disk, fields).files.contains_key(download::requested(Some(pairs))[k].1),
        stored(disk, fields).files[download::requested(Some(pairs))[k].1] == capped::flat(
            fields[i].pieces,
        ),
{
    lemma_stored(disk, fields, i);
}

/// A chunk that an upload does not name is served as before.
pub proof fn law_other_chunks_are_untouched(disk: Disk, fields: Seq<Field>, param: Seq<char>)
    requires
        forall|j: int| 0 <= j < fields.len() ==> (#[trigger] fields[j]).name != param,
    ensures
        served(stored(disk, fields), param) == served(disk, param),
    decreases fields.len(),
{
    if fields.len() > 0 {
        let last = fields.last();
        assert(fields[fields.len() - 1].name != param);
        assert forall|j: int| 0 <= j < fields.drop_last().len() implies (
        #[trigger] fields.drop_last()[j]).name != param by {
            assert(fields[j].name != param);
        }
        law_other_chunks_are_untouched(disk, fields.drop_last(), param);
        if chunk_id::shard_path(last.name) == chunk_id::shard_path(param) {
            chunk_id::law_a_path_has_one_chunk(last.name, param);
        }
    }
}

} // verus!
