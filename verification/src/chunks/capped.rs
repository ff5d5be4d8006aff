//! A request body cut off at a limit.
//!
//! A body arrives in frames: a chunk of bytes, or the failure to read on.

use vstd::prelude::*;

verus! {

/// Lets a request body pass up to a limit and ends it there.
///
/// The body is cut short rather than refused: what reads it then meets the end
/// of input before the form is complete.
pub struct CappedDataStream {
    limit: usize,
    seen: usize,
    ended: bool,
}

/// A frame over its bytes.
pub open spec fn frame_view<E>(frame: Result<Vec<u8>, E>) -> Result<Seq<u8>, E> {
    match frame {
        Ok(chunk) => Ok(chunk@),
        Err(error) => Err(error),
    }
}

/// Frames over their bytes.
pub open spec fn frames_view<E>(frames: Seq<Result<Vec<u8>, E>>) -> Seq<Result<Seq<u8>, E>> {
    frames.map_values(|frame: Result<Vec<u8>, E>| frame_view(frame))
}

/// What passes of a frame when `room` bytes are left: a chunk as far as there
/// is room, and a failure as it is.
pub open spec fn passing<E>(frame: Result<Seq<u8>, E>, room: int) -> Result<Seq<u8>, E> {
    match frame {
        Ok(chunk) => if chunk.len() >= room {
            Ok(chunk.take(room))
        } else {
            frame
        },
        Err(_) => frame,
    }
}

/// Whether a frame ends the body when `room` bytes are left: a chunk that fills
/// the room does, and so does every failure.
pub open spec fn is_last<E>(frame: Result<Seq<u8>, E>, room: int) -> bool {
    match frame {
        Ok(chunk) => chunk.len() >= room,
        Err(_) => true,
    }
}

/// The number of bytes that a frame holds.
pub open spec fn size<E>(frame: Result<Seq<u8>, E>) -> nat {
    match frame {
        Ok(chunk) => chunk.len(),
        Err(_) => 0,
    }
}

/// What passes of a body that arrives in these frames when `room` bytes are
/// left: frames as they are until one ends the body, which is the last.
pub open spec fn capped<E>(frames: Seq<Result<Seq<u8>, E>>, room: int) -> Seq<Result<Seq<u8>, E>>
    decreases frames.len(),
{
    if frames.len() == 0 {
        Seq::empty()
    } else if is_last(frames[0], room) {
        seq![passing(frames[0], room)]
    } else {
        seq![passing(frames[0], room)] + capped(frames.drop_first(), room - size(frames[0]))
    }
}

/// The chunks that can be read: those before the first failure.
pub open spec fn readable<E>(frames: Seq<Result<Seq<u8>, E>>) -> Seq<Seq<u8>>
    decreases frames.len(),
{
    if frames.len() == 0 {
        Seq::empty()
    } else {
        match frames[0] {
            Ok(chunk) => seq![chunk] + readable(frames.drop_first()),
            Err(_) => Seq::empty(),
        }
    }
}

/// The frames in which these chunks arrive, all of them readable.
pub open spec fn arriving<E>(chunks: Seq<Seq<u8>>) -> Seq<Result<Seq<u8>, E>> {
    chunks.map_values(|chunk: Seq<u8>| Ok::<Seq<u8>, E>(chunk))
}

/// The chunks' bytes, one after the other.
pub open spec fn flat(chunks: Seq<Seq<u8>>) -> Seq<u8>
    decreases chunks.len(),
{
    if chunks.len() == 0 {
        Seq::empty()
    } else {
        chunks[0] + flat(chunks.drop_first())
    }
}

impl CappedDataStream {
    /// The bytes that may still pass.
    pub closed spec fn room(self) -> int {
        self.limit - self.seen
    }

    /// Whether the stream is over: nothing passes any more.
    pub closed spec fn is_over(self) -> bool {
        self.ended
    }

    #[verifier::type_invariant]
    spec fn wf(self) -> bool {
        self.seen <= self.limit
    }

    /// A body of which nothing has passed yet.
    pub fn new(limit: usize) -> (stream: CappedDataStream)
        ensures
            !stream.is_over(),
            stream.room() == limit,
    {
        CappedDataStream { limit, seen: 0, ended: false }
    }

    /// Whether the stream is over.
    pub fn has_ended(&self) -> (over: bool)
        ensures
            over == self.is_over(),
    {
        self.ended
    }

    /// Lets the body's next frame pass. A chunk passes as far as there is room,
    /// and is the last where it fills the room. A failure to read on is passed
    /// on itself, as the last item.
    pub fn pass<E>(&mut self, frame: Result<Vec<u8>, E>) -> (item: Result<Vec<u8>, E>)
        requires
            !old(self).is_over(),
        ensures
            frame_view(item) == passing(frame_view(frame), old(self).room()),
            final(self).is_over() == is_last(frame_view(frame), old(self).room()),
            final(self).room() == old(self).room() - size(frame_view(item)),
    {
        proof {
            use_type_invariant(&*self);
        }
        match frame {
            Ok(chunk) => {
                let room: usize = self.limit - self.seen;
                let mut passed = chunk;
                if passed.len() >= room {
                    passed.truncate(room);
                    self.ended = true;
                    self.seen = self.limit;
                } else {
                    self.seen = self.seen + passed.len();
                }
                Ok(passed)
            },
            Err(error) => {
                self.ended = true;
                Err(error)
            },
        }
    }
}

/// Caps a body that has arrived in these frames at `limit` bytes.
pub fn capped_data_stream<E>(body: Vec<Result<Vec<u8>, E>>, limit: usize) -> (items: Vec<
    Result<Vec<u8>, E>,
>)
    ensures
        frames_view(items@) == capped(frames_view(body@), limit as int),
{
    let ghost all = frames_view(body@);
    let mut stream = CappedDataStream::new(limit);
    let mut items: Vec<Result<Vec<u8>, E>> = Vec::new();
    assert(all.skip(0) == all);
    for frame in arrived: body
        invariant
            all == frames_view(arrived.seq()),
            !stream.is_over(),
            frames_view(items@) + capped(all.skip(arrived.index() as int), stream.room()) == capped(
                all,
                limit as int,
            ),
    {
        let ghost i = arrived.index() as int;
        let ghost before = frames_view(items@);
        let ghost view = frame_view(frame);
        let item = stream.pass(frame);
        let ghost passed = frame_view(item);
        items.push(item);
        proof {
            assert(all[i] == view);
            assert(all.skip(i)[0] == view);
            assert(all.skip(i).drop_first() == all.skip(i + 1));
            assert(frames_view(items@) == before.push(passed));
        }
        if stream.has_ended() {
            assert(before + seq![passed] == before.push(passed));
            return items;
        }
        assert(before + (seq![passed] + capped(all.skip(i + 1), stream.room())) == before.push(
            passed,
        ) + capped(all.skip(i + 1), stream.room()));
    }
    items
}

/// However a body is split into frames, what passes of it is what can be read
/// of it, up to the limit, and nothing else.
pub proof fn law_capping_takes_a_prefix<E>(frames: Seq<Result<Seq<u8>, E>>, limit: nat)
    ensures
        flat(readable(capped(frames, limit as int))) == flat(readable(frames)).take(
            if flat(readable(frames)).len() <= limit {
                flat(readable(frames)).len() as int
            } else {
                limit as int
            },
        ),
    decreases frames.len(),
{
    let out = capped(frames, limit as int);
    if frames.len() > 0 {
        if frames[0] is Err {
            assert(out[0] == frames[0]);
        } else {
            let first = frames[0]->Ok_0;
            let rest = frames.drop_first();
            let chunks = readable(frames);
            assert(chunks.drop_first() == readable(rest));
            assert(chunks[0] == first);
            if first.len() >= limit {
                let kept = readable(out);
                assert(out[0] == Ok::<Seq<u8>, E>(first.take(limit as int)));
                assert(out.drop_first() == Seq::<Result<Seq<u8>, E>>::empty());
                assert(readable(out.drop_first()) == Seq::<Seq<u8>>::empty());
                assert(kept == seq![first.take(limit as int)]);
                assert(kept.drop_first() == Seq::<Seq<u8>>::empty());
                assert(flat(kept.drop_first()) == Seq::<u8>::empty());
                assert(flat(kept) == first.take(limit as int));
            } else {
                let room = (limit - first.len()) as nat;
                law_capping_takes_a_prefix(rest, room);
                assert(out.drop_first() == capped(rest, room as int));
                assert(out[0] == frames[0]);
                let kept = readable(out);
                assert(kept.drop_first() == readable(out.drop_first()));
                assert(kept[0] == first);
            }
        }
    }
}

/// Of a body within the limit passes all that can be read.
pub proof fn law_a_body_within_the_limit_passes_whole<E>(
    frames: Seq<Result<Seq<u8>, E>>,
    limit: nat,
)
    requires
        flat(readable(frames)).len() <= limit,
    ensures
        flat(readable(capped(frames, limit as int))) == flat(readable(frames)),
{
    law_capping_takes_a_prefix(frames, limit);
    let bytes = flat(readable(frames));
    assert(bytes.take(bytes.len() as int) == bytes);
}

/// Chunks that stay below the limit can all be read, and pass one for one.
pub proof fn law_chunks_below_the_limit_pass_as_they_are<E>(chunks: Seq<Seq<u8>>, limit: nat)
    requires
        chunks.len() == 0 || flat(chunks).len() < limit,
    ensures
        readable(arriving::<E>(chunks)) == chunks,
        capped(arriving::<E>(chunks), limit as int) == arriving::<E>(chunks),
    decreases chunks.len(),
{
    if chunks.len() > 0 {
        let frames = arriving::<E>(chunks);
        let tail = chunks.drop_first();
        law_chunks_below_the_limit_pass_as_they_are::<E>(tail, (limit - chunks[0].len()) as nat);
        assert(frames.drop_first() == arriving::<E>(tail));
        assert(frames[0] == Ok::<Seq<u8>, E>(chunks[0]));
        assert(seq![frames[0]] + arriving::<E>(tail) == frames);
        assert(seq![chunks[0]] + tail == chunks);
    } else {
        assert(readable(arriving::<E>(chunks)) == chunks);
        assert(capped(arriving::<E>(chunks), limit as int) == arriving::<E>(chunks));
    }
}

/// Splitting a body differently lets the same bytes pass.
pub proof fn law_capping_ignores_the_split<E>(
    a: Seq<Result<Seq<u8>, E>>,
    b: Seq<Result<Seq<u8>, E>>,
    limit: nat,
)
    requires
        flat(readable(a)) == flat(readable(b)),
    ensures
        flat(readable(capped(a, limit as int))) == flat(readable(capped(b, limit as int))),
{
    law_capping_takes_a_prefix(a, limit);
    law_capping_takes_a_prefix(b, limit);
}

/// Where reading a body fails before it has filled the limit, the chunks before
/// the failure pass as they are, the failure itself is the last item, and what
/// would follow it does not count.
pub proof fn law_a_failure_is_the_last_item<E>(
    chunks: Seq<Seq<u8>>,
    error: E,
    rest: Seq<Result<Seq<u8>, E>>,
    limit: nat,
)
    requires
        chunks.len() == 0 || flat(chunks).len() < limit,
    ensures
        capped(arriving(chunks).push(Err(error)) + rest, limit as int) == arriving(chunks).push(
            Err(error),
        ),
    decreases chunks.len(),
{
    let items = arriving(chunks).push(Err(error));
    let frames = items + rest;
    if chunks.len() > 0 {
        let tail = chunks.drop_first();
        let room = (limit - chunks[0].len()) as nat;
        law_a_failure_is_the_last_item(tail, error, rest, room);
        assert(frames[0] == Ok::<Seq<u8>, E>(chunks[0]));
        assert(frames.drop_first() == arriving(tail).push(Err(error)) + rest);
        assert(seq![items[0]] + arriving(tail).push(Err(error)) == items);
    } else {
        assert(frames[0] == Err::<Seq<u8>, E>(error));
    }
}

/// Nothing passes after a failure, and none is made up: an item that is a
/// failure is the last one, and is the body's own.
pub proof fn law_nothing_follows_a_failure<E>(
    frames: Seq<Result<Seq<u8>, E>>,
    limit: nat,
    i: int,
)
    requires
        0 <= i < capped(frames, limit as int).len(),
        capped(frames, limit as int)[i] is Err,
    ensures
        i == capped(frames, limit as int).len() - 1,
        i < frames.len(),
        capped(frames, limit as int)[i] == frames[i],
    decreases frames.len(),
{
    if frames.len() > 0 && !is_last(frames[0], limit as int) {
        let room = (limit - size(frames[0])) as nat;
        let rest = capped(frames.drop_first(), room as int);
        if i > 0 {
            assert(rest[i - 1] == capped(frames, limit as int)[i]);
            law_nothing_follows_a_failure(frames.drop_first(), room, i - 1);
        }
    }
}

/// Bytes go chunk by chunk: none come of no chunks, a single chunk is itself,
/// and the bytes of two lists follow each other.
pub proof fn law_bytes_go_chunk_by_chunk(a: Seq<Seq<u8>>, b: Seq<Seq<u8>>, chunk: Seq<u8>)
    ensures
        flat(Seq::empty()).len() == 0,
        flat(seq![chunk]) == chunk,
        flat(a + b) == flat(a) + flat(b),
    decreases a.len(),
{
    assert(seq![chunk].drop_first() == Seq::<Seq<u8>>::empty());
    assert(flat(seq![chunk].drop_first()) == Seq::<u8>::empty());
    assert(flat(seq![chunk]) =~= chunk);
    if a.len() == 0 {
        assert(a + b == b);
        assert(flat(a) + flat(b) == flat(b));
    } else {
        law_bytes_go_chunk_by_chunk(a.drop_first(), b, chunk);
        assert((a + b).drop_first() == a.drop_first() + b);
        assert(a[0] + (flat(a.drop_first()) + flat(b)) == a[0] + flat(a.drop_first()) + flat(b));
    }
}

/// What passes of a single frame: as many bytes of a chunk as there is room
/// for, of a failure itself. A chunk is the last exactly where it has no fewer
/// bytes than there is room; a failure always is.
pub proof fn law_what_passes_of_one_frame<E>(chunk: Seq<u8>, error: E, room: nat)
    ensures
        chunk.len() <= room ==> passing(Ok::<Seq<u8>, E>(chunk), room as int) == Ok::<
            Seq<u8>,
            E,
        >(chunk),
        chunk.len() > room ==> passing(Ok::<Seq<u8>, E>(chunk), room as int) == Ok::<Seq<u8>, E>(
            chunk.take(room as int),
        ),
        is_last(Ok::<Seq<u8>, E>(chunk), room as int) <==> chunk.len() >= room,
        size(Ok::<Seq<u8>, E>(chunk)) == chunk.len(),
        passing(Err::<Seq<u8>, E>(error), room as int) == Err::<Seq<u8>, E>(error),
        is_last(Err::<Seq<u8>, E>(error), room as int),
        size(Err::<Seq<u8>, E>(error)) == 0,
{
    if chunk.len() == room {
        assert(chunk.take(room as int) == chunk);
    }
}

/// What can be read of a body is all of its chunks up to the first failure,
/// and nothing after it.
pub proof fn law_a_body_can_be_read_up_to_a_failure<E>(
    chunks: Seq<Seq<u8>>,
    error: E,
    rest: Seq<Result<Seq<u8>, E>>,
)
    ensures
        arriving::<E>(chunks).len() == chunks.len(),
        forall|i: int|
            0 <= i < chunks.len() ==> #[trigger] arriving::<E>(chunks)[i] == Ok::<Seq<u8>, E>(
                chunks[i],
            ),
        readable(arriving::<E>(chunks)) == chunks,
        readable(arriving::<E>(chunks).push(Err(error)) + rest) == chunks,
    decreases chunks.len(),
{
    let whole = arriving::<E>(chunks);
    let broken = whole.push(Err(error)) + rest;
    if chunks.len() == 0 {
        assert(broken[0] == Err::<Seq<u8>, E>(error));
        assert(chunks == Seq::<Seq<u8>>::empty());
    } else {
        let tail = chunks.drop_first();
        law_a_body_can_be_read_up_to_a_failure(tail, error, rest);
        assert(whole.drop_first() == arriving::<E>(tail));
        assert(broken.drop_first() == arriving::<E>(tail).push(Err(error)) + rest);
        assert(broken[0] == Ok::<Seq<u8>, E>(chunks[0]));
        assert(seq![chunks[0]] + tail == chunks);
    }
}

/// Once chunks have filled the limit, what would follow them does not count:
/// it is not read.
pub proof fn law_a_full_body_is_not_read_on<E>(
    chunks: Seq<Seq<u8>>,
    rest: Seq<Result<Seq<u8>, E>>,
    limit: nat,
)
    requires
        chunks.len() > 0,
        flat(chunks).len() >= limit,
    ensures
        capped(arriving::<E>(chunks) + rest, limit as int) == capped(
            arriving::<E>(chunks),
            limit as int,
        ),
        forall|i: int|
            0 <= i < capped(arriving::<E>(chunks), limit as int).len() ==> (#[trigger] capped(
                arriving::<E>(chunks),
                limit as int,
            )[i]) is Ok,
    decreases chunks.len(),
{
    let frames = arriving::<E>(chunks);
    assert((frames + rest)[0] == frames[0]);
    if chunks[0].len() < limit {
        let tail = chunks.drop_first();
        let room = (limit - chunks[0].len()) as nat;
        assert(flat(chunks) == chunks[0] + flat(tail));
        assert(tail.len() > 0);
        law_a_full_body_is_not_read_on(tail, rest, room);
        assert(frames.drop_first() == arriving::<E>(tail));
        assert((frames + rest).drop_first() == arriving::<E>(tail) + rest);
        let out = capped(frames, limit as int);
        let more = capped(arriving::<E>(tail), room as int);
        assert(out == seq![frames[0]] + more);
        assert forall|i: int| 0 <= i < out.len() implies (#[trigger] out[i]) is Ok by {
            if i > 0 {
                assert(out[i] == more[i - 1]);
            }
        }
    }
}

/// Every item that passes stands where its frame stood: all but the last are
/// the frames themselves, and the last begins its frame.
pub proof fn law_frames_pass_in_their_places<E>(
    frames: Seq<Result<Seq<u8>, E>>,
    limit: nat,
    i: int,
)
    requires
        0 <= i < capped(frames, limit as int).len(),
    ensures
        i < frames.len(),
        i < capped(frames, limit as int).len() - 1 ==> capped(frames, limit as int)[i] == frames[i],
        match capped(frames, limit as int)[i] {
            Ok(passed) => frames[i] is Ok && passed.len() <= frames[i]->Ok_0.len() && passed
                == frames[i]->Ok_0.take(passed.len() as int),
            Err(error) => frames[i] == Err::<Seq<u8>, E>(error),
        },
    decreases frames.len(),
{
    if !is_last(frames[0], limit as int) {
        let room = (limit - size(frames[0])) as nat;
        let out = capped(frames, limit as int);
        let rest = capped(frames.drop_first(), room as int);
        assert(out == seq![frames[0]] + rest);
        if i > 0 {
            law_frames_pass_in_their_places(frames.drop_first(), room, i - 1);
            assert(out[i] == rest[i - 1]);
        } else {
            let first = frames[0]->Ok_0;
            assert(first.take(first.len() as int) == first);
        }
    }
}

/// The views of frames show all of them.
pub proof fn law_frames_are_shown_whole<E>(
    chunk: Vec<u8>,
    error: E,
    frames: Seq<Result<Vec<u8>, E>>,
)
    ensures
        frame_view(Ok::<Vec<u8>, E>(chunk)) == Ok::<Seq<u8>, E>(chunk@),
        frame_view(Err::<Vec<u8>, E>(error)) == Err::<Seq<u8>, E>(error),
        frames_view(frames).len() == frames.len(),
        forall|i: int|
            0 <= i < frames.len() ==> #[trigger] frames_view(frames)[i] == frame_view(frames[i]),
{
}

} // verus!
