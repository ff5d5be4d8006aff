//! Uploads: a multipart form whose fields are chunks, each stored as it
//! arrives.
//!
//! An upload alternates between work that is done outside (reading the form,
//! writing files) and what follows from it. [`Upload`] says what is to be done
//! next; [`Upload::step`] takes what came of it.

use vstd::prelude::*;

use crate::chunk_id;
use crate::chunk_id::{ChunkId, ChunkPath};
use crate::chunks::capped::CappedDataStream;
use crate::chunks::error::ChunkError;
use crate::chunks::request::RawContentType;
use crate::chunks::DATA_FORM_LIMIT;
use crate::text;

verus! {

/// The content type that an upload announces.
pub const MULTIPART_FORM_DATA: &'static str = "multipart/form-data";

/// The boundary that `multer::parse_boundary` finds in a content type; `None`
/// where it finds the content type malformed, not a multipart form, or without
/// a boundary.
pub uninterp spec fn boundary_of(content_type: Seq<char>) -> Option<Seq<char>>;

/// `multer::parse_boundary`: the boundary of a multipart form's content type.
/// Which boundary is found in which content type is not stated beyond that it
/// depends on the content type alone.
#[verifier::external_body]
fn parse_boundary(content_type: &str) -> (boundary: Option<String>)
    ensures
        text::text_view(boundary) == boundary_of(content_type@),
{
    multer::parse_boundary(content_type).ok()
}

/// How an accepted upload is read: by the boundary of its form, through a cap
/// on its body.
pub struct Form {
    pub boundary: String,
    pub body: CappedDataStream,
}

/// How an accepted upload is read: by which boundary, how many bytes of its
/// body may still pass, and whether the body is over.
pub struct FormView {
    pub boundary: Seq<char>,
    pub room: int,
    pub is_over: bool,
}

impl View for Form {
    type V = FormView;

    open spec fn view(&self) -> FormView {
        FormView {
            boundary: self.boundary@,
            room: self.body.room(),
            is_over: self.body.is_over(),
        }
    }
}

/// The body of an upload, of which nothing has been read yet.
pub fn upload_body() -> (body: CappedDataStream)
    ensures
        !body.is_over(),
        body.room() == DATA_FORM_LIMIT,
{
    CappedDataStream::new(DATA_FORM_LIMIT)
}

/// How a form with this boundary is read: from its start, and up to the limit
/// of uploads. A form without a boundary cannot be read.
pub open spec fn read_by(parsed: Option<Seq<char>>) -> Result<FormView, ChunkError> {
    match parsed {
        Some(boundary) => Ok(
            FormView { boundary, room: DATA_FORM_LIMIT as int, is_over: false },
        ),
        None => Err(ChunkError::Panicked),
    }
}

/// The view of a form or the reason why there is none.
pub open spec fn form_view(form: Result<Form, ChunkError>) -> Result<FormView, ChunkError> {
    match form {
        Ok(accepted) => Ok(accepted@),
        Err(error) => Err(error),
    }
}

/// Takes the boundary found in an upload's content type, and says how the form
/// is read by it.
pub fn form_of_boundary(parsed: Option<String>) -> (form: Result<Form, ChunkError>)
    ensures
        form_view(form) == read_by(text::text_view(parsed)),
{
    match parsed {
        Some(boundary) => Ok(Form { boundary, body: upload_body() }),
        None => Err(ChunkError::Panicked),
    }
}

/// What becomes of an upload that announces this content type, where `parsed`
/// is the boundary found in it.
pub open spec fn accepted(content_type: Seq<char>, parsed: Option<Seq<char>>) -> Result<
    FormView,
    ChunkError,
> {
    if !MULTIPART_FORM_DATA@.is_prefix_of(content_type) {
        Err(ChunkError::UnmatchedFormat)
    } else {
        read_by(parsed)
    }
}

/// Accepts an upload by its content type and says how it is read. Anything but
/// a multipart form matches no route.
pub fn upload_chunks(content_type: &RawContentType) -> (form: Result<Form, ChunkError>)
    ensures
        form_view(form) == accepted(content_type.0@, boundary_of(content_type.0@)),
{
    if !text::starts_with(content_type.0.as_str(), MULTIPART_FORM_DATA) {
        return Err(ChunkError::UnmatchedFormat);
    }
    form_of_boundary(parse_boundary(content_type.0.as_str()))
}

/// Accepts an upload on one of the deprecated routes, as [`upload_chunks`]
/// does.
pub fn upload_chunks_deprecated(content_type: &RawContentType) -> (form: Result<Form, ChunkError>)
    ensures
        form_view(form) == accepted(content_type.0@, boundary_of(content_type.0@)),
{
    upload_chunks(content_type)
}

/// How an upload ends.
pub enum UploadEnd {
    /// Every chunk that was sent has been taken.
    Stored,
    /// A directory or a file could not be created.
    StorageFailed,
    /// The form could not be read: a field without a name, or one that broke
    /// off.
    Broken,
}

impl UploadEnd {
    /// The handler's result.
    pub open spec fn result(self) -> Result<(), ChunkError> {
        match self {
            UploadEnd::Stored => Ok(()),
            UploadEnd::StorageFailed => Err(ChunkError::Io),
            UploadEnd::Broken => Err(ChunkError::Panicked),
        }
    }

    /// What the upload's handler returns.
    pub fn into_result(self) -> (result: Result<(), ChunkError>)
        ensures
            result == self.result(),
    {
        match self {
            UploadEnd::Stored => Ok(()),
            UploadEnd::StorageFailed => Err(ChunkError::Io),
            UploadEnd::Broken => Err(ChunkError::Panicked),
        }
    }
}

/// What an upload waits for.
pub enum Upload {
    /// The form's next field.
    NextField,
    /// The directory of a chunk's file, to be created where it is missing.
    CreateDirectory(ChunkPath),
    /// A chunk's file, to be created empty.
    CreateFile(ChunkPath),
    /// The next piece of the field that is stored at the path.
    ReadField(ChunkPath),
    /// A piece, to be appended to the file at the path.
    Write(ChunkPath, Vec<u8>),
    /// A file that could not be written, to be removed.
    RemoveUnwritten(ChunkPath),
    /// The file of a field that broke off, to be removed.
    RemoveBroken(ChunkPath),
    /// Nothing: the upload is over.
    Finished(UploadEnd),
}

/// What came of what an upload waited for.
pub enum UploadEvent {
    /// A field, with its name where it has one.
    Field(Option<String>),
    /// No further field: the form has ended, or what follows is none.
    NoField,
    /// The directory, the file or the piece is there.
    Done,
    /// It could not be created or written.
    Failed,
    /// A piece of the field.
    Data(Vec<u8>),
    /// The field has ended.
    FieldEnd,
    /// The field broke off.
    FieldFailed,
    /// The removal was tried.
    Removed,
}

/// An upload's state over paths and byte sequences.
pub enum UploadState {
    NextField,
    CreateDirectory(Seq<Seq<char>>),
    CreateFile(Seq<Seq<char>>),
    ReadField(Seq<Seq<char>>),
    Write(Seq<Seq<char>>, Seq<u8>),
    RemoveUnwritten(Seq<Seq<char>>),
    RemoveBroken(Seq<Seq<char>>),
    Finished(UploadEnd),
}

/// An event over character and byte sequences.
pub enum EventView {
    Field(Option<Seq<char>>),
    NoField,
    Done,
    Failed,
    Data(Seq<u8>),
    FieldEnd,
    FieldFailed,
    Removed,
}

impl View for Upload {
    type V = UploadState;

    open spec fn view(&self) -> UploadState {
        match *self {
            Upload::NextField => UploadState::NextField,
            Upload::CreateDirectory(path) => UploadState::CreateDirectory(path@),
            Upload::CreateFile(path) => UploadState::CreateFile(path@),
            Upload::ReadField(path) => UploadState::ReadField(path@),
            Upload::Write(path, bytes) => UploadState::Write(path@, bytes@),
            Upload::RemoveUnwritten(path) => UploadState::RemoveUnwritten(path@),
            Upload::RemoveBroken(path) => UploadState::RemoveBroken(path@),
            Upload::Finished(end) => UploadState::Finished(end),
        }
    }
}

impl View for UploadEvent {
    type V = EventView;

    open spec fn view(&self) -> EventView {
        match *self {
            UploadEvent::Field(name) => EventView::Field(text::text_view(name)),
            UploadEvent::NoField => EventView::NoField,
            UploadEvent::Done => EventView::Done,
            UploadEvent::Failed => EventView::Failed,
            UploadEvent::Data(bytes) => EventView::Data(bytes@),
            UploadEvent::FieldEnd => EventView::FieldEnd,
            UploadEvent::FieldFailed => EventView::FieldFailed,
            UploadEvent::Removed => EventView::Removed,
        }
    }
}

/// Whether the event is one that can come of what the upload waits for.
pub open spec fn expects(state: UploadState, event: EventView) -> bool {
    match state {
        UploadState::NextField => event is Field || event is NoField,
        UploadState::CreateDirectory(_) => event is Done || event is Failed,
        UploadState::CreateFile(_) => event is Done || event is Failed,
        UploadState::ReadField(_) => event is Data || event is FieldEnd || event is FieldFailed,
        UploadState::Write(_, _) => event is Done || event is Failed,
        UploadState::RemoveUnwritten(_) => event is Removed,
        UploadState::RemoveBroken(_) => event is Removed,
        UploadState::Finished(_) => false,
    }
}

/// What an upload waits for after an event that it expects.
///
/// A field with an empty name is passed over. A piece that cannot be written
/// costs the chunk its file, but the field is read on and the upload goes on.
pub open spec fn after(state: UploadState, event: EventView) -> UploadState {
    match (state, event) {
        (UploadState::NextField, EventView::NoField) => UploadState::Finished(UploadEnd::Stored),
        (UploadState::NextField, EventView::Field(None)) => UploadState::Finished(
            UploadEnd::Broken,
        ),
        (UploadState::NextField, EventView::Field(Some(name))) => if name.len() == 0 {
            UploadState::NextField
        } else {
            UploadState::CreateDirectory(chunk_id::shard_path(name))
        },
        (UploadState::CreateDirectory(path), EventView::Done) => UploadState::CreateFile(path),
        (UploadState::CreateDirectory(_), _) => UploadState::Finished(UploadEnd::StorageFailed),
        (UploadState::CreateFile(path), EventView::Done) => UploadState::ReadField(path),
        (UploadState::CreateFile(_), _) => UploadState::Finished(UploadEnd::StorageFailed),
        (UploadState::ReadField(path), EventView::Data(bytes)) => UploadState::Write(path, bytes),
        (UploadState::ReadField(_), EventView::FieldEnd) => UploadState::NextField,
        (UploadState::ReadField(path), _) => UploadState::RemoveBroken(path),
        (UploadState::Write(path, _), EventView::Done) => UploadState::ReadField(path),
        (UploadState::Write(path, _), _) => UploadState::RemoveUnwritten(path),
        (UploadState::RemoveUnwritten(path), _) => UploadState::ReadField(path),
        (UploadState::RemoveBroken(_), _) => UploadState::Finished(UploadEnd::Broken),
        _ => state,
    }
}

impl Upload {
    /// An upload of which nothing has been read yet.
    pub fn new() -> (upload: Upload)
        ensures
            upload@ == UploadState::NextField,
    {
        Upload::NextField
    }

    /// Whether the event can come of what the upload waits for.
    pub fn is_expecting(&self, event: &UploadEvent) -> (expected: bool)
        ensures
            expected == expects(self@, event@),
    {
        match (self, event) {
            (Upload::NextField, UploadEvent::Field(_)) => true,
            (Upload::NextField, UploadEvent::NoField) => true,
            (Upload::CreateDirectory(_), UploadEvent::Done) => true,
            (Upload::CreateDirectory(_), UploadEvent::Failed) => true,
            (Upload::CreateFile(_), UploadEvent::Done) => true,
            (Upload::CreateFile(_), UploadEvent::Failed) => true,
            (Upload::ReadField(_), UploadEvent::Data(_)) => true,
            (Upload::ReadField(_), UploadEvent::FieldEnd) => true,
            (Upload::ReadField(_), UploadEvent::FieldFailed) => true,
            (Upload::Write(_, _), UploadEvent::Done) => true,
            (Upload::Write(_, _), UploadEvent::Failed) => true,
            (Upload::RemoveUnwritten(_), UploadEvent::Removed) => true,
            (Upload::RemoveBroken(_), UploadEvent::Removed) => true,
            _ => false,
        }
    }

    /// Takes what came of what the upload waited for, and says what it waits
    /// for next.
    pub fn step(self, event: UploadEvent) -> (next: Upload)
        requires
            expects(self@, event@),
        ensures
            next@ == after(self@, event@),
    {
        match self {
            Upload::NextField => match event {
                UploadEvent::Field(Some(name)) => {
                    let chunk_id = ChunkId::from(name.as_str());
                    if chunk_id.is_empty() {
                        Upload::NextField
                    } else {
                        Upload::CreateDirectory(chunk_id.file_path())
                    }
                },
                UploadEvent::Field(None) => Upload::Finished(UploadEnd::Broken),
                _ => Upload::Finished(UploadEnd::Stored),
            },
            Upload::CreateDirectory(path) => match event {
                UploadEvent::Done => Upload::CreateFile(path),
                _ => Upload::Finished(UploadEnd::StorageFailed),
            },
            Upload::CreateFile(path) => match event {
                UploadEvent::Done => Upload::ReadField(path),
                _ => Upload::Finished(UploadEnd::StorageFailed),
            },
            Upload::ReadField(path) => match event {
                UploadEvent::Data(bytes) => Upload::Write(path, bytes),
                UploadEvent::FieldEnd => Upload::NextField,
                _ => Upload::RemoveBroken(path),
            },
            Upload::Write(path, _) => match event {
                UploadEvent::Done => Upload::ReadField(path),
                _ => Upload::RemoveUnwritten(path),
            },
            Upload::RemoveUnwritten(path) => Upload::ReadField(path),
            Upload::RemoveBroken(_) => Upload::Finished(UploadEnd::Broken),
            Upload::Finished(end) => Upload::Finished(end),
        }
    }
}

/// Every multipart form is accepted by whatever boundary is found in its
/// content type, and read from its start up to the limit of uploads; only a
/// form without a boundary cannot be read. Any other content type matches no
/// route, whatever is found in it.
pub proof fn law_a_form_is_read_by_its_own_boundary(
    rest: Seq<char>,
    boundary: Seq<char>,
    content_type: Seq<char>,
    parsed: Option<Seq<char>>,
)
    ensures
        ({
            let form = accepted("multipart/form-data"@ + rest, Some(boundary));
            &&& form is Ok
            &&& form->Ok_0.boundary == boundary
            &&& form->Ok_0.room == 5 * 1024 * 1024
            &&& !form->Ok_0.is_over
        }),
        read_by(Some(boundary)) == accepted("multipart/form-data"@ + rest, Some(boundary)),
        read_by(None) is Err,
        accepted("multipart/form-data"@ + rest, None) == Err::<FormView, ChunkError>(
            ChunkError::Panicked,
        ),
        accepted(content_type, parsed) == Err::<FormView, ChunkError>(ChunkError::Panicked)
            ==> parsed is None,
        !"multipart/form-data"@.is_prefix_of(content_type) <==> accepted(content_type, parsed)
            == Err::<FormView, ChunkError>(ChunkError::UnmatchedFormat),
{
    let name = "multipart/form-data"@;
    assert((name + rest).subrange(0, name.len() as int) == name);
}

/// A form or an error is shown whole.
pub proof fn law_a_form_is_shown_whole(form: Form, error: ChunkError)
    ensures
        form@.boundary == form.boundary@,
        form@.room == form.body.room(),
        form@.is_over == form.body.is_over(),
        form_view(Ok(form)) == Ok::<FormView, ChunkError>(form@),
        form_view(Err(error)) == Err::<FormView, ChunkError>(error),
{
}

/// Every field with a name, however long, goes to the file of its own chunk; a
/// field with an empty name is passed over, one without a name breaks the
/// upload, and where no field follows all have been stored.
pub proof fn law_every_named_field_gets_its_file(name: Seq<char>)
    ensures
        name.len() > 0 ==> {
            &&& after(UploadState::NextField, EventView::Field(Some(name)))
                == UploadState::CreateDirectory(chunk_id::shard_path(name))
            &&& chunk_id::shard_path(name)[2] == name
        },
        name.len() == 0 ==> after(UploadState::NextField, EventView::Field(Some(name)))
            == UploadState::NextField,
        after(UploadState::NextField, EventView::Field(None)) == UploadState::Finished(
            UploadEnd::Broken,
        ),
        after(UploadState::NextField, EventView::NoField) == UploadState::Finished(
            UploadEnd::Stored,
        ),
{
    chunk_id::law_a_path_spells_its_id(name);
}

/// A chunk's file goes from its directory over its creation to its contents,
/// and every piece is written whole before the next is read, at every path and
/// for all bytes.
pub proof fn law_every_piece_is_written_whole(path: Seq<Seq<char>>, piece: Seq<u8>)
    ensures
        after(UploadState::CreateDirectory(path), EventView::Done) == UploadState::CreateFile(path),
        after(UploadState::CreateFile(path), EventView::Done) == UploadState::ReadField(path),
        after(UploadState::ReadField(path), EventView::Data(piece)) == UploadState::Write(
            path,
            piece,
        ),
        after(UploadState::Write(path, piece), EventView::Done) == UploadState::ReadField(path),
        after(UploadState::ReadField(path), EventView::FieldEnd) == UploadState::NextField,
{
}

/// What fails is met at every path: without its directory or its file an
/// upload ends, a piece that cannot be written costs the file but not the
/// upload, and a field that breaks off costs both.
pub proof fn law_how_failures_are_met(path: Seq<Seq<char>>, piece: Seq<u8>)
    ensures
        after(UploadState::CreateDirectory(path), EventView::Failed) == UploadState::Finished(
            UploadEnd::StorageFailed,
        ),
        after(UploadState::CreateFile(path), EventView::Failed) == UploadState::Finished(
            UploadEnd::StorageFailed,
        ),
        after(UploadState::Write(path, piece), EventView::Failed) == UploadState::RemoveUnwritten(
            path,
        ),
        after(UploadState::RemoveUnwritten(path), EventView::Removed) == UploadState::ReadField(
            path,
        ),
        after(UploadState::ReadField(path), EventView::FieldFailed) == UploadState::RemoveBroken(
            path,
        ),
        after(UploadState::RemoveBroken(path), EventView::Removed) == UploadState::Finished(
            UploadEnd::Broken,
        ),
        UploadEnd::Stored.result() is Ok,
        UploadEnd::StorageFailed.result() == Err::<(), ChunkError>(ChunkError::Io),
        UploadEnd::Broken.result() == Err::<(), ChunkError>(ChunkError::Panicked),
        ChunkError::Io.status() == 500,
        ChunkError::Panicked.status() == 500,
        ChunkError::UnmatchedFormat.status() == 404,
{
}

/// Whatever can come of what an upload waits for is expected, for every name,
/// path and piece; an upload that is over expects nothing.
pub proof fn law_whatever_can_come_is_expected(
    name: Option<Seq<char>>,
    path: Seq<Seq<char>>,
    piece: Seq<u8>,
    end: UploadEnd,
    event: EventView,
)
    ensures
        expects(UploadState::NextField, EventView::Field(name)),
        expects(UploadState::NextField, EventView::NoField),
        expects(UploadState::CreateDirectory(path), EventView::Done),
        expects(UploadState::CreateDirectory(path), EventView::Failed),
        expects(UploadState::CreateFile(path), EventView::Done),
        expects(UploadState::CreateFile(path), EventView::Failed),
        expects(UploadState::ReadField(path), EventView::Data(piece)),
        expects(UploadState::ReadField(path), EventView::FieldEnd),
        expects(UploadState::ReadField(path), EventView::FieldFailed),
        expects(UploadState::Write(path, piece), EventView::Done),
        expects(UploadState::Write(path, piece), EventView::Failed),
        expects(UploadState::RemoveUnwritten(path), EventView::Removed),
        expects(UploadState::RemoveBroken(path), EventView::Removed),
        !expects(UploadState::Finished(end), event),
{
}

/// Uploads and events are shown whole.
pub proof fn law_uploads_are_shown_whole(
    path: ChunkPath,
    bytes: Vec<u8>,
    end: UploadEnd,
    name: String,
)
    ensures
        Upload::NextField@ == UploadState::NextField,
        Upload::CreateDirectory(path)@ == UploadState::CreateDirectory(path@),
        Upload::CreateFile(path)@ == UploadState::CreateFile(path@),
        Upload::ReadField(path)@ == UploadState::ReadField(path@),
        Upload::Write(path, bytes)@ == UploadState::Write(path@, bytes@),
        Upload::RemoveUnwritten(path)@ == UploadState::RemoveUnwritten(path@),
        Upload::RemoveBroken(path)@ == UploadState::RemoveBroken(path@),
        Upload::Finished(end)@ == UploadState::Finished(end),
        UploadEvent::Field(Some(name))@ == EventView::Field(Some(name@)),
        UploadEvent::Field(None)@ == EventView::Field(None),
        UploadEvent::NoField@ == EventView::NoField,
        UploadEvent::Done@ == EventView::Done,
        UploadEvent::Failed@ == EventView::Failed,
        UploadEvent::Data(bytes)@ == EventView::Data(bytes@),
        UploadEvent::FieldEnd@ == EventView::FieldEnd,
        UploadEvent::FieldFailed@ == EventView::FieldFailed,
        UploadEvent::Removed@ == EventView::Removed,
{
}

} // verus!
