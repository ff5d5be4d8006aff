//! The `multipart/mixed` response of a batch download: one section per chunk,
//! streamed from its file.

use vstd::prelude::*;

use crate::chunk_id;
use crate::chunk_id::ChunkPath;
use crate::chunks::download;
use crate::http;
use crate::http::{Response, OK, PLAIN_TEXT};

verus! {

/// The length of a response's boundary.
pub const BOUNDARY_LEN: usize = 15;

/// What precedes the boundary in the response's content type.
pub const MIXED: &'static str = "multipart/mixed; boundary=";

/// Whether a text can be a response's boundary: of the length that clients
/// expect, letters and digits alone.
pub open spec fn is_boundary(text: Seq<char>) -> bool {
    text.len() == BOUNDARY_LEN && chunk_id::all_alphanumeric(text)
}

/// What stands before each chunk's bytes. Clients look for its lines
/// themselves, so every byte counts.
pub open spec fn section_header(boundary: Seq<char>, id: Seq<char>) -> Seq<char> {
    "\r\n--"@ + boundary + "\r\nContent-Type: "@ + PLAIN_TEXT@ + "\r\nX-Chunk-ID: "@ + id
        + "\r\n\r\n"@
}

/// What ends the response.
pub open spec fn terminator(boundary: Seq<char>) -> Seq<char> {
    "\r\n--"@ + boundary + "--\r\n"@
}

/// A `multipart/mixed` response with one section per requested chunk: its
/// boundary, and each chunk's id and place.
pub struct MultipartMixed {
    pub boundary: String,
    pub chunks: Vec<(String, ChunkPath)>,
}

/// `rand::Rng::sample` of `rand::distr::Alphanumeric`: an ASCII letter or
/// digit, at random. Which one, and how evenly they are drawn, is not stated.
/// The generator is seeded by the operating system and needs it to have
/// randomness to give.
#[verifier::external_body]
fn random_alphanumeric() -> (b: u8)
    ensures
        chunk_id::is_alphanumeric(b as char),
{
    rand::Rng::sample(&mut rand::rng(), rand::distr::Alphanumeric)
}

impl MultipartMixed {
    /// A response for these chunks, with a boundary drawn at random.
    pub fn new_random(chunks: Vec<(String, ChunkPath)>) -> (mixed: MultipartMixed)
        ensures
            is_boundary(mixed.boundary@),
            mixed.chunks == chunks,
    {
        let mut boundary = String::new();
        for i in 0..BOUNDARY_LEN
            invariant
                boundary@.len() == i,
                chunk_id::all_alphanumeric(boundary@),
        {
            boundary.push(random_alphanumeric() as char);
        }
        MultipartMixed { boundary, chunks }
    }

    /// The response: its head, and the body that is still to be streamed.
    pub fn into_response(self) -> (response: Response<MixedBody>)
        ensures
            response.head() == http::head(OK, MIXED@ + self.boundary@),
            response.body@ == start(self.boundary@, download::chunks_view(self.chunks@)),
    {
        let content_type = MIXED.to_owned().concat(self.boundary.as_str());
        let body = MixedBody {
            boundary: self.boundary,
            chunks: self.chunks,
            place: (0, MixedPhase::Start),
        };
        Response::with_type(OK, content_type.as_str(), body)
    }
}

/// What the body waits for.
#[derive(Clone, Copy, PartialEq, Eq, Structural)]
pub enum MixedPhase {
    /// To be begun.
    Start,
    /// The next chunk's file, to be opened.
    Open,
    /// The next bytes of the file that is open.
    Read,
    /// Nothing: the body is complete.
    Ended,
    /// Nothing: a chunk's file was missing, and the body was cut off there.
    Aborted,
}

/// The body of a batch download while it is streamed.
pub struct MixedBody {
    boundary: String,
    chunks: Vec<(String, ChunkPath)>,
    place: (usize, MixedPhase),
}

/// The body's state: what it is made of, the index of the chunk that it is at,
/// and what it waits for.
pub struct MixedState {
    pub boundary: Seq<char>,
    pub chunks: Seq<(Seq<char>, Seq<Seq<char>>)>,
    pub next: int,
    pub phase: MixedPhase,
}

impl View for MixedBody {
    type V = MixedState;

    closed spec fn view(&self) -> MixedState {
        MixedState {
            boundary: self.boundary@,
            chunks: download::chunks_view(self.chunks@),
            next: self.place.0 as int,
            phase: self.place.1,
        }
    }
}

/// The state before anything has been streamed.
pub open spec fn start(
    boundary: Seq<char>,
    chunks: Seq<(Seq<char>, Seq<Seq<char>>)>,
) -> MixedState {
    MixedState { boundary, chunks, next: 0, phase: MixedPhase::Start }
}

/// What came of what the body waited for.
pub enum MixedEvent {
    /// The body is begun.
    Begin,
    /// The file is open.
    Opened,
    /// There is no such file.
    OpenFailed,
    /// Bytes of the file.
    Bytes(Vec<u8>),
    /// The file could not be read further.
    ReadFailed,
    /// The file is at its end.
    EndOfFile,
}

/// An event over byte sequences.
pub enum MixedEventView {
    Begin,
    Opened,
    OpenFailed,
    Bytes(Seq<u8>),
    ReadFailed,
    EndOfFile,
}

impl View for MixedEvent {
    type V = MixedEventView;

    open spec fn view(&self) -> MixedEventView {
        match *self {
            MixedEvent::Begin => MixedEventView::Begin,
            MixedEvent::Opened => MixedEventView::Opened,
            MixedEvent::OpenFailed => MixedEventView::OpenFailed,
            MixedEvent::Bytes(bytes) => MixedEventView::Bytes(bytes@),
            MixedEvent::ReadFailed => MixedEventView::ReadFailed,
            MixedEvent::EndOfFile => MixedEventView::EndOfFile,
        }
    }
}

/// What is streamed next.
pub enum MixedItem {
    /// Nothing yet.
    Nothing,
    /// Bytes of the body.
    Bytes(Vec<u8>),
    /// The failure to read a file.
    ReadFailed,
}

/// An item over byte sequences.
pub enum MixedItemView {
    Nothing,
    Bytes(Seq<u8>),
    ReadFailed,
}

impl View for MixedItem {
    type V = MixedItemView;

    open spec fn view(&self) -> MixedItemView {
        match *self {
            MixedItem::Nothing => MixedItemView::Nothing,
            MixedItem::Bytes(bytes) => MixedItemView::Bytes(bytes@),
            MixedItem::ReadFailed => MixedItemView::ReadFailed,
        }
    }
}

impl MixedState {
    /// Whether the state is one that a body can be in: while a file is to be
    /// opened or read, there is a chunk to be sent.
    pub open spec fn valid(self) -> bool {
        &&& 0 <= self.next <= self.chunks.len()
        &&& self.phase is Start ==> self.next == 0
        &&& self.phase is Open || self.phase is Read ==> self.next < self.chunks.len()
    }

    /// Whether the event is one that can come of what the body waits for.
    pub open spec fn expects(self, event: MixedEventView) -> bool {
        match self.phase {
            MixedPhase::Start => event is Begin,
            MixedPhase::Open => event is Opened || event is OpenFailed,
            MixedPhase::Read => event is Bytes || event is ReadFailed || event is EndOfFile,
            MixedPhase::Ended => false,
            MixedPhase::Aborted => false,
        }
    }

    /// The body at the chunk `next`: its file is to be opened, or the body is
    /// complete.
    pub open spec fn at(self, next: int) -> MixedState {
        MixedState {
            next,
            phase: if next < self.chunks.len() {
                MixedPhase::Open
            } else {
                MixedPhase::Ended
            },
            ..self
        }
    }

    /// What is streamed on coming to the chunk `next`: the terminator once all
    /// chunks have been sent.
    pub open spec fn item_at(self, next: int) -> MixedItemView {
        if next < self.chunks.len() {
            MixedItemView::Nothing
        } else {
            MixedItemView::Bytes(vstd::utf8::encode_utf8(terminator(self.boundary)))
        }
    }

    /// The state after an event that the body expects.
    pub open spec fn after(self, event: MixedEventView) -> MixedState {
        match event {
            MixedEventView::Begin => self.at(0),
            MixedEventView::Opened => MixedState { phase: MixedPhase::Read, ..self },
            MixedEventView::OpenFailed => MixedState { phase: MixedPhase::Aborted, ..self },
            MixedEventView::Bytes(_) => self,
            MixedEventView::ReadFailed => self,
            MixedEventView::EndOfFile => self.at(self.next + 1),
        }
    }

    /// What is streamed on an event that the body expects.
    pub open spec fn item(self, event: MixedEventView) -> MixedItemView {
        match event {
            MixedEventView::Begin => self.item_at(0),
            MixedEventView::Opened => MixedItemView::Bytes(
                vstd::utf8::encode_utf8(section_header(self.boundary, self.chunks[self.next].0)),
            ),
            MixedEventView::OpenFailed => MixedItemView::Nothing,
            MixedEventView::Bytes(bytes) => MixedItemView::Bytes(bytes),
            MixedEventView::ReadFailed => MixedItemView::ReadFailed,
            MixedEventView::EndOfFile => self.item_at(self.next + 1),
        }
    }
}

impl MixedBody {
    #[verifier::type_invariant]
    spec fn wf(self) -> bool {
        self@.valid()
    }

    /// What the body waits for.
    pub fn phase(&self) -> (phase: MixedPhase)
        ensures
            phase == self@.phase,
    {
        self.place.1
    }

    /// The file that the body waits to be opened, where it waits for one.
    pub fn next_file(&self) -> (path: Option<&ChunkPath>)
        ensures
            self@.phase is Open ==> path is Some && path->0@ == self@.chunks[self@.next].1,
            !(self@.phase is Open) ==> path is None,
    {
        proof {
            use_type_invariant(self);
        }
        match self.place.1 {
            MixedPhase::Open => Some(&self.chunks[self.place.0].1),
            _ => None,
        }
    }

    /// Whether the event can come of what the body waits for.
    pub fn is_expecting(&self, event: &MixedEvent) -> (expected: bool)
        ensures
            expected == self@.expects(event@),
    {
        match (self.place.1, event) {
            (MixedPhase::Start, MixedEvent::Begin) => true,
            (MixedPhase::Open, MixedEvent::Opened) => true,
            (MixedPhase::Open, MixedEvent::OpenFailed) => true,
            (MixedPhase::Read, MixedEvent::Bytes(_)) => true,
            (MixedPhase::Read, MixedEvent::ReadFailed) => true,
            (MixedPhase::Read, MixedEvent::EndOfFile) => true,
            _ => false,
        }
    }

    fn arrive(&mut self, next: usize) -> (item: MixedItem)
        requires
            next <= old(self)@.chunks.len(),
        ensures
            final(self)@ == old(self)@.at(next as int),
            item@ == old(self)@.item_at(next as int),
    {
        if next < self.chunks.len() {
            self.place = (next, MixedPhase::Open);
            MixedItem::Nothing
        } else {
            let mut text = "\r\n--".to_owned();
            text.append(self.boundary.as_str());
            text.append("--\r\n");
            self.place = (next, MixedPhase::Ended);
            MixedItem::Bytes(text.as_str().as_bytes_vec())
        }
    }

    /// Takes what came of what the body waited for, and gives what is to be
    /// streamed.
    pub fn step(&mut self, event: MixedEvent) -> (item: MixedItem)
        requires
            old(self)@.expects(event@),
        ensures
            final(self)@ == old(self)@.after(event@),
            item@ == old(self)@.item(event@),
    {
        proof {
            use_type_invariant(&*self);
        }
        match event {
            MixedEvent::Begin => self.arrive(0),
            MixedEvent::Opened => {
                let mut text = "\r\n--".to_owned();
                text.append(self.boundary.as_str());
                text.append("\r\nContent-Type: ");
                text.append(PLAIN_TEXT);
                text.append("\r\nX-Chunk-ID: ");
                text.append(self.chunks[self.place.0].0.as_str());
                text.append("\r\n\r\n");
                self.place = (self.place.0, MixedPhase::Read);
                MixedItem::Bytes(text.as_str().as_bytes_vec())
            },
            MixedEvent::OpenFailed => {
                self.place = (self.place.0, MixedPhase::Aborted);
                MixedItem::Nothing
            },
            MixedEvent::Bytes(bytes) => MixedItem::Bytes(bytes),
            MixedEvent::ReadFailed => MixedItem::ReadFailed,
            MixedEvent::EndOfFile => {
                let count: usize = self.chunks.len();
                assert(self.place.0 < count);
                self.arrive(self.place.0 + 1)
            },
        }
    }
}

/// A section's header is the boundary's line, the content type's line, and a
/// line that ends in the whole id of its chunk, however long; only boundary
/// and id differ from section to section.
pub proof fn law_a_section_is_labelled_with_its_whole_id(boundary: Seq<char>, id: Seq<char>)
    ensures
        section_header(boundary, id) == "\r\n--"@ + boundary
            + "\r\nContent-Type: text/plain; charset=utf-8\r\nX-Chunk-ID: "@ + id + "\r\n\r\n"@,
{
    reveal_strlit("\r\nContent-Type: text/plain; charset=utf-8\r\nX-Chunk-ID: ");
    reveal_strlit("\r\nContent-Type: ");
    reveal_strlit("text/plain; charset=utf-8");
    reveal_strlit("\r\nX-Chunk-ID: ");
    assert("\r\nContent-Type: text/plain; charset=utf-8\r\nX-Chunk-ID: "@
        =~= "\r\nContent-Type: "@ + "text/plain; charset=utf-8"@ + "\r\nX-Chunk-ID: "@);
    assert(section_header(boundary, id) =~= "\r\n--"@ + boundary
        + "\r\nContent-Type: text/plain; charset=utf-8\r\nX-Chunk-ID: "@ + id + "\r\n\r\n"@);
}

/// The id can be read back from a section's header: headers with the same
/// boundary are the same only for the same id, and a header is longer than its
/// id by as much for every id. What stands before the id does not depend on it.
pub proof fn law_the_id_can_be_read_from_its_section(
    boundary: Seq<char>,
    x: Seq<char>,
    y: Seq<char>,
)
    ensures
        section_header(boundary, x).len() - x.len() == section_header(boundary, y).len() - y.len(),
        ({
            let lead = section_header(boundary, y).len() - y.len() - 4;
            &&& lead >= 0
            &&& section_header(boundary, x) == section_header(boundary, y).take(lead) + x
                + "\r\n\r\n"@
        }),
        section_header(boundary, x) == section_header(boundary, y) ==> x == y,
{
    reveal_strlit("\r\n\r\n");
    law_a_section_is_labelled_with_its_whole_id(boundary, x);
    law_a_section_is_labelled_with_its_whole_id(boundary, y);
    let before = "\r\n--"@ + boundary
        + "\r\nContent-Type: text/plain; charset=utf-8\r\nX-Chunk-ID: "@;
    let lead = before.len() as int;
    let left = section_header(boundary, x);
    let right = section_header(boundary, y);
    assert(right.take(lead) =~= before);
    assert(left =~= before + x + "\r\n\r\n"@);
    if left == right {
        assert(x =~= left.subrange(lead, lead + x.len()));
        assert(y =~= right.subrange(lead, lead + y.len()));
    }
}

/// The terminator is the boundary's line with two dashes behind it: it begins
/// as every section does, and holds the whole boundary.
pub proof fn law_the_terminator_closes_its_own_boundary(boundary: Seq<char>, id: Seq<char>)
    ensures
        terminator(boundary).len() == boundary.len() + 8,
        terminator(boundary).subrange(4, 4 + boundary.len() as int) == boundary,
        terminator(boundary).take(4 + boundary.len() as int) == section_header(boundary, id).take(
            4 + boundary.len() as int,
        ),
        terminator(boundary) == "\r\n--"@ + boundary + "--\r\n"@,
{
    reveal_strlit("\r\n--");
    reveal_strlit("--\r\n");
    law_a_section_is_labelled_with_its_whole_id(boundary, id);
    assert(terminator(boundary).subrange(4, 4 + boundary.len() as int) =~= boundary);
    let lead = 4 + boundary.len() as int;
    assert(terminator(boundary).take(lead) =~= section_header(boundary, id).take(lead));
}

/// A boundary is fifteen ASCII digits and letters.
pub proof fn law_what_a_boundary_is(text: Seq<char>)
    ensures
        is_boundary(text) <==> text.len() == 15 && forall|i: int|
            0 <= i < text.len() ==> (48 <= (#[trigger] text[i]) as int <= 57 || 65
                <= text[i] as int <= 90 || 97 <= text[i] as int <= 122),
{
    chunk_id::law_alphanumeric_goes_character_by_character(text, text);
}

/// A body begins before its first chunk with all that it is made of, and goes
/// from chunk to chunk up to the last: each has its header sent when its file
/// is open, whatever its id, and all its bytes, and after the last the
/// terminator ends the body.
pub proof fn law_a_body_goes_from_chunk_to_chunk(state: MixedState, piece: Seq<u8>)
    requires
        state.valid(),
    ensures
        start(state.boundary, state.chunks) == (MixedState {
            next: 0,
            phase: MixedPhase::Start,
            ..state
        }),
        state.chunks.len() > 0 ==> state.after(MixedEventView::Begin) == (MixedState {
            next: 0,
            phase: MixedPhase::Open,
            ..state
        }) && state.item(MixedEventView::Begin) is Nothing,
        state.chunks.len() == 0 ==> state.after(MixedEventView::Begin).phase is Ended && state.item(
            MixedEventView::Begin,
        ) == MixedItemView::Bytes(vstd::utf8::encode_utf8(terminator(state.boundary))),
        state.after(MixedEventView::Opened) == (MixedState { phase: MixedPhase::Read, ..state }),
        state.item(MixedEventView::Opened) == MixedItemView::Bytes(
            vstd::utf8::encode_utf8(section_header(state.boundary, state.chunks[state.next].0)),
        ),
        state.after(MixedEventView::Bytes(piece)) == state,
        state.item(MixedEventView::Bytes(piece)) == MixedItemView::Bytes(piece),
        state.next + 1 < state.chunks.len() ==> state.after(MixedEventView::EndOfFile) == (
        MixedState { next: state.next + 1, phase: MixedPhase::Open, ..state }) && state.item(
            MixedEventView::EndOfFile,
        ) is Nothing,
        state.next + 1 >= state.chunks.len() ==> state.after(
            MixedEventView::EndOfFile,
        ).phase is Ended && state.item(MixedEventView::EndOfFile) == MixedItemView::Bytes(
            vstd::utf8::encode_utf8(terminator(state.boundary)),
        ),
{
}

/// A file that is missing cuts the body off without a word, and a failure to
/// read on is passed on, at every chunk.
pub proof fn law_how_a_body_meets_failures(state: MixedState)
    ensures
        state.after(MixedEventView::OpenFailed) == (MixedState {
            phase: MixedPhase::Aborted,
            ..state
        }),
        state.item(MixedEventView::OpenFailed) is Nothing,
        state.after(MixedEventView::ReadFailed) == state,
        state.item(MixedEventView::ReadFailed) is ReadFailed,
{
}

/// Whatever can come of what a body waits for is expected, and nothing once it
/// is over.
pub proof fn law_what_a_body_expects(state: MixedState, event: MixedEventView)
    ensures
        state.expects(event) <==> match event {
            MixedEventView::Begin => state.phase is Start,
            MixedEventView::Opened => state.phase is Open,
            MixedEventView::OpenFailed => state.phase is Open,
            MixedEventView::Bytes(_) => state.phase is Read,
            MixedEventView::ReadFailed => state.phase is Read,
            MixedEventView::EndOfFile => state.phase is Read,
        },
        state.valid() <==> 0 <= state.next <= state.chunks.len() && (state.phase is Start
            ==> state.next == 0) && (state.phase is Open || state.phase is Read ==> state.next
            < state.chunks.len()),
{
}

/// Events and items are shown whole.
pub proof fn law_events_and_items_are_shown_whole(bytes: Vec<u8>)
    ensures
        MixedEvent::Begin@ == MixedEventView::Begin,
        MixedEvent::Opened@ == MixedEventView::Opened,
        MixedEvent::OpenFailed@ == MixedEventView::OpenFailed,
        MixedEvent::Bytes(bytes)@ == MixedEventView::Bytes(bytes@),
        MixedEvent::ReadFailed@ == MixedEventView::ReadFailed,
        MixedEvent::EndOfFile@ == MixedEventView::EndOfFile,
        MixedItem::Nothing@ == MixedItemView::Nothing,
        MixedItem::Bytes(bytes)@ == MixedItemView::Bytes(bytes@),
        MixedItem::ReadFailed@ == MixedItemView::ReadFailed,
{
}

} // verus!
