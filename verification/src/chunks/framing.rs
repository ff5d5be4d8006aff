//! The bytes of a batch download: every chunk in its section, in the order in
//! which they were asked for.

use vstd::prelude::*;

use crate::chunks::capped;
use crate::chunks::response;
use crate::chunks::response::{MixedEventView, MixedItemView, MixedPhase, MixedState};

verus! {

/// The bytes of sections: each chunk's header, then its contents.
pub open spec fn sections(
    boundary: Seq<char>,
    ids: Seq<Seq<char>>,
    contents: Seq<Seq<u8>>,
) -> Seq<u8>
    decreases ids.len(),
{
    if ids.len() == 0 {
        Seq::empty()
    } else {
        vstd::utf8::encode_utf8(response::section_header(boundary, ids[0]))
            + contents[0] + sections(boundary, ids.drop_first(), contents.drop_first())
    }
}

/// The bytes of a whole body: its sections, then the terminator.
pub open spec fn framed(
    boundary: Seq<char>,
    ids: Seq<Seq<char>>,
    contents: Seq<Seq<u8>>,
) -> Seq<u8> {
    sections(boundary, ids, contents) + vstd::utf8::encode_utf8(response::terminator(boundary))
}

/// The ids of chunks.
pub open spec fn ids_of(chunks: Seq<(Seq<char>, Seq<Seq<char>>)>) -> Seq<Seq<char>> {
    chunks.map_values(|chunk: (Seq<char>, Seq<Seq<char>>)| chunk.0)
}

/// The bytes of an item.
pub open spec fn item_bytes(item: MixedItemView) -> Seq<u8> {
    match item {
        MixedItemView::Bytes(bytes) => bytes,
        _ => Seq::empty(),
    }
}

/// The bytes that a body streams over a number of events, and the state it is
/// in then.
pub open spec fn streamed(state: MixedState, events: Seq<MixedEventView>) -> (Seq<u8>, MixedState)
    decreases events.len(),
{
    if events.len() == 0 {
        (Seq::empty(), state)
    } else {
        let (rest, end) = streamed(state.after(events[0]), events.drop_first());
        (item_bytes(state.item(events[0])) + rest, end)
    }
}

/// Whether each of the events is one that the body expects when it comes.
pub open spec fn expected(state: MixedState, events: Seq<MixedEventView>) -> bool
    decreases events.len(),
{
    events.len() == 0 || {
        &&& state.expects(events[0])
        &&& expected(state.after(events[0]), events.drop_first())
    }
}

/// What happens as a file is read in these pieces.
pub open spec fn read_events(pieces: Seq<Seq<u8>>) -> Seq<MixedEventView> {
    pieces.map_values(|piece: Seq<u8>| MixedEventView::Bytes(piece))
}

/// What happens as a chunk's file is opened and read to its end.
pub open spec fn file_events(pieces: Seq<Seq<u8>>) -> Seq<MixedEventView> {
    seq![MixedEventView::Opened] + read_events(pieces) + seq![MixedEventView::EndOfFile]
}

/// What happens as files are opened and read to their ends, one after the
/// other.
pub open spec fn files_events(files: Seq<Seq<Seq<u8>>>) -> Seq<MixedEventView>
    decreases files.len(),
{
    if files.len() == 0 {
        Seq::empty()
    } else {
        file_events(files[0]) + files_events(files.drop_first())
    }
}

/// The contents of files that are read in pieces.
pub open spec fn contents_of(files: Seq<Seq<Seq<u8>>>) -> Seq<Seq<u8>> {
    files.map_values(|pieces: Seq<Seq<u8>>| capped::flat(pieces))
}

proof fn lemma_streamed_joins(
    state: MixedState,
    a: Seq<MixedEventView>,
    b: Seq<MixedEventView>,
)
    ensures
        ({
            let (first, middle) = streamed(state, a);
            let (second, end) = streamed(middle, b);
            &&& streamed(state, a + b) == (first + second, end)
            &&& expected(state, a + b) == (expected(state, a) && expected(middle, b))
        }),
    decreases a.len(),
{
    if a.len() == 0 {
        assert(a + b == b);
        assert(Seq::<u8>::empty() + streamed(state, b).0 == streamed(state, b).0);
    } else {
        assert((a + b).drop_first() == a.drop_first() + b);
        let next = state.after(a[0]);
        lemma_streamed_joins(next, a.drop_first(), b);
        let (rest, middle) = streamed(next, a.drop_first());
        let (second, end) = streamed(middle, b);
        assert(item_bytes(state.item(a[0])) + (rest + second) == item_bytes(state.item(a[0])) + rest
            + second);
    }
}

proof fn lemma_reading(state: MixedState, pieces: Seq<Seq<u8>>)
    requires
        state.phase is Read,
    ensures
        expected(state, read_events(pieces)),
        streamed(state, read_events(pieces)) == (capped::flat(pieces), state),
    decreases pieces.len(),
{
    if pieces.len() > 0 {
        assert(read_events(pieces).drop_first() == read_events(pieces.drop_first()));
        lemma_reading(state, pieces.drop_first());
    }
}

proof fn lemma_file(state: MixedState, pieces: Seq<Seq<u8>>)
    requires
        state.valid(),
        state.phase is Open,
    ensures
        expected(state, file_events(pieces)),
        streamed(state, file_events(pieces)) == (
            vstd::utf8::encode_utf8(
                response::section_header(state.boundary, state.chunks[state.next].0),
            ) + capped::flat(pieces) + item_bytes(state.item_at(state.next + 1)),
            state.at(state.next + 1),
        ),
{
    reveal_with_fuel(streamed, 2);
    reveal_with_fuel(expected, 2);
    let opening = seq![MixedEventView::Opened];
    let ending = seq![MixedEventView::EndOfFile];
    let reading = MixedState { phase: MixedPhase::Read, ..state };
    assert(opening.drop_first() == Seq::<MixedEventView>::empty());
    assert(ending.drop_first() == Seq::<MixedEventView>::empty());
    let header = vstd::utf8::encode_utf8(
        response::section_header(state.boundary, state.chunks[state.next].0),
    );
    assert(header + Seq::<u8>::empty() == header);
    assert(streamed(state, opening) == (header, reading));
    lemma_streamed_joins(state, opening, read_events(pieces));
    lemma_reading(reading, pieces);
    lemma_streamed_joins(state, opening + read_events(pieces), ending);
    let last = item_bytes(state.item_at(state.next + 1));
    assert(last + Seq::<u8>::empty() == last);
    assert(streamed(reading, ending) == (last, state.at(state.next + 1)));
}

proof fn lemma_files(state: MixedState, files: Seq<Seq<Seq<u8>>>)
    requires
        state.valid(),
        state.phase is Open,
        0 < files.len() <= state.chunks.len() - state.next,
    ensures
        ({
            let upto = state.next + files.len();
            let sent = ids_of(state.chunks.subrange(state.next, upto));
            &&& expected(state, files_events(files))
            &&& streamed(state, files_events(files)) == (
                sections(state.boundary, sent, contents_of(files)) + item_bytes(
                    state.item_at(upto),
                ),
                state.at(upto),
            )
        }),
    decreases files.len(),
{
    let upto = state.next + files.len();
    let sent = ids_of(state.chunks.subrange(state.next, upto));
    let contents = contents_of(files);
    let rest = files.drop_first();
    lemma_file(state, files[0]);
    assert(sent[0] == state.chunks[state.next].0);
    assert(contents[0] == capped::flat(files[0]));
    assert(contents.drop_first() == contents_of(rest));
    lemma_streamed_joins(state, file_events(files[0]), files_events(rest));
    let header = vstd::utf8::encode_utf8(response::section_header(state.boundary, sent[0]));
    if rest.len() == 0 {
        assert(sent.drop_first() == Seq::<Seq<char>>::empty());
        assert(sections(state.boundary, sent.drop_first(), contents.drop_first()) == Seq::<
            u8,
        >::empty());
        assert(header + contents[0] + Seq::<u8>::empty() == header + contents[0]);
        let last = item_bytes(state.item_at(upto));
        assert(last + Seq::<u8>::empty() == last);
        assert(streamed(state.at(upto), Seq::<MixedEventView>::empty()).0 == Seq::<u8>::empty());
        assert(header + contents[0] + last + Seq::<u8>::empty() == sections(
            state.boundary,
            sent,
            contents,
        ) + last);
    } else {
        let next = state.at(state.next + 1);
        lemma_files(next, rest);
        assert(sent.drop_first() == ids_of(next.chunks.subrange(next.next, upto)));
        assert(header + contents[0] + Seq::<u8>::empty() == header + contents[0]);
        let tail = sections(state.boundary, sent.drop_first(), contents.drop_first());
        let last = item_bytes(state.item_at(upto));
        assert(header + contents[0] + (tail + last) == header + contents[0] + tail + last);
    }
}

/// A download streams every chunk that was asked for, each in its section and
/// in order, and then ends: however the files are read, its bytes are the
/// framing of the chunks' contents.
pub proof fn law_a_download_frames_every_chunk(
    boundary: Seq<char>,
    chunks: Seq<(Seq<char>, Seq<Seq<char>>)>,
    files: Seq<Seq<Seq<u8>>>,
)
    requires
        files.len() == chunks.len(),
    ensures
        ({
            let start = response::start(boundary, chunks);
            let events = seq![MixedEventView::Begin] + files_events(files);
            let (bytes, end) = streamed(start, events);
            &&& expected(start, events)
            &&& bytes == framed(boundary, ids_of(chunks), contents_of(files))
            &&& end.phase is Ended
        }),
{
    reveal_with_fuel(streamed, 2);
    reveal_with_fuel(expected, 2);
    let start = response::start(boundary, chunks);
    let beginning = seq![MixedEventView::Begin];
    assert(beginning.drop_first() == Seq::<MixedEventView>::empty());
    let first = item_bytes(start.item_at(0));
    assert(first + Seq::<u8>::empty() == first);
    assert(streamed(start, beginning) == (first, start.at(0)));
    lemma_streamed_joins(start, beginning, files_events(files));
    if chunks.len() == 0 {
        assert(sections(boundary, ids_of(chunks), contents_of(files)) == Seq::<u8>::empty());
        assert(Seq::<u8>::empty() + first == first);
    } else {
        lemma_files(start.at(0), files);
        assert(chunks.subrange(0, chunks.len() as int) == chunks);
        let all = streamed(start.at(0), files_events(files)).0;
        assert(Seq::<u8>::empty() + all == all);
    }
}

/// A chunk whose file is missing cuts the body off there: the sections before
/// it have been sent, and no terminator follows.
pub proof fn law_a_missing_file_cuts_the_body_off(
    boundary: Seq<char>,
    chunks: Seq<(Seq<char>, Seq<Seq<char>>)>,
    files: Seq<Seq<Seq<u8>>>,
)
    requires
        files.len() < chunks.len(),
    ensures
        ({
            let start = response::start(boundary, chunks);
            let events = seq![MixedEventView::Begin] + files_events(files) + seq![
                MixedEventView::OpenFailed,
            ];
            let (bytes, end) = streamed(start, events);
            &&& expected(start, events)
            &&& bytes == sections(
                boundary,
                ids_of(chunks.take(files.len() as int)),
                contents_of(files),
            )
            &&& end.phase is Aborted
        }),
{
    reveal_with_fuel(streamed, 2);
    reveal_with_fuel(expected, 2);
    let start = response::start(boundary, chunks);
    let beginning = seq![MixedEventView::Begin];
    let ending = seq![MixedEventView::OpenFailed];
    assert(beginning.drop_first() == Seq::<MixedEventView>::empty());
    assert(ending.drop_first() == Seq::<MixedEventView>::empty());
    let none = Seq::<u8>::empty();
    assert(none + none == none);
    assert(streamed(start, beginning) == (none, start.at(0)));
    lemma_streamed_joins(start, beginning, files_events(files));
    lemma_streamed_joins(start, beginning + files_events(files), ending);
    let sent = sections(boundary, ids_of(chunks.take(files.len() as int)), contents_of(files));
    if files.len() == 0 {
        assert(chunks.take(0) == Seq::<(Seq<char>, Seq<Seq<char>>)>::empty());
        assert(sent == none);
    } else {
        lemma_files(start.at(0), files);
        assert(sent + none == sent);
        assert(none + sent == sent);
    }
    let there = start.at(files.len() as int);
    assert(streamed(there, ending).0 == none);
    assert(sent + none == sent);
}

/// Sections follow each other: a chunk's section is its header and then its
/// contents, the sections of two lists are those of the one and then those of
/// the other, and a body is its sections and then the terminator.
pub proof fn law_sections_follow_each_other(
    boundary: Seq<char>,
    id: Seq<char>,
    content: Seq<u8>,
    ids: Seq<Seq<char>>,
    contents: Seq<Seq<u8>>,
    more_ids: Seq<Seq<char>>,
    more_contents: Seq<Seq<u8>>,
)
    requires
        ids.len() == contents.len(),
        more_ids.len() == more_contents.len(),
    ensures
        sections(boundary, Seq::empty(), Seq::empty()).len() == 0,
        sections(boundary, seq![id], seq![content]) == vstd::utf8::encode_utf8(
            response::section_header(boundary, id),
        ) + content,
        sections(boundary, ids + more_ids, contents + more_contents) == sections(
            boundary,
            ids,
            contents,
        ) + sections(boundary, more_ids, more_contents),
        framed(boundary, ids, contents) == sections(boundary, ids, contents)
            + vstd::utf8::encode_utf8(response::terminator(boundary)),
    decreases ids.len(),
{
    let header = vstd::utf8::encode_utf8(response::section_header(boundary, id));
    assert(seq![id].drop_first() == Seq::<Seq<char>>::empty());
    assert(sections(boundary, seq![id].drop_first(), seq![content].drop_first()) == Seq::<
        u8,
    >::empty());
    assert(sections(boundary, seq![id], seq![content]) =~= header + content);
    let tail = sections(boundary, more_ids, more_contents);
    if ids.len() == 0 {
        assert(ids + more_ids == more_ids);
        assert(contents + more_contents == more_contents);
        assert(sections(boundary, ids, contents) + tail == tail);
    } else {
        law_sections_follow_each_other(
            boundary,
            id,
            content,
            ids.drop_first(),
            contents.drop_first(),
            more_ids,
            more_contents,
        );
        assert((ids + more_ids).drop_first() == ids.drop_first() + more_ids);
        assert((contents + more_contents).drop_first() == contents.drop_first() + more_contents);
        let first = vstd::utf8::encode_utf8(response::section_header(boundary, ids[0]))
            + contents[0];
        let rest = sections(boundary, ids.drop_first(), contents.drop_first());
        assert(first + (rest + tail) == first + rest + tail);
    }
}

} // verus!
