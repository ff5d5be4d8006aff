//! Batch downloads: which chunks a form asks for.

use vstd::prelude::*;

use crate::chunk_id;
use crate::chunk_id::{ChunkId, ChunkPath};
use crate::chunks::error::ChunkError;
use crate::chunks::request::RawContentType;
use crate::chunks::response;
use crate::chunks::response::MultipartMixed;
use crate::text;

verus! {

/// The content type that a download's form announces.
pub const URLENCODED_FORM: &'static str = "application/x-www-form-urlencoded";

/// The keys and values that `serde_urlencoded::from_str` reads from a form
/// body, in order; `None` where it reports an error.
pub uninterp spec fn form_pairs(body: Seq<char>) -> Option<Seq<(Seq<char>, Seq<char>)>>;

/// The view of keys and values.
pub open spec fn pairs_view(pairs: Option<Vec<(String, String)>>) -> Option<
    Seq<(Seq<char>, Seq<char>)>,
> {
    match pairs {
        Some(list) => Some(list@.map_values(|pair: (String, String)| (pair.0@, pair.1@))),
        None => None,
    }
}

/// `serde_urlencoded::from_str` into a list of pairs: the keys and values of a
/// form body. What it decodes is not stated beyond that it depends on the body
/// alone.
#[verifier::external_body]
fn parse_form(body: &str) -> (pairs: Option<Vec<(String, String)>>)
    ensures
        pairs_view(pairs) == form_pairs(body@),
{
    serde_urlencoded::from_str::<Vec<(String, String)>>(body).ok()
}

/// The chunks that these pairs ask for: every value is an id, whatever its
/// key. A form that cannot be read asks for nothing.
pub open spec fn requested(pairs: Option<Seq<(Seq<char>, Seq<char>)>>) -> Seq<
    (Seq<char>, Seq<Seq<char>>),
> {
    match pairs {
        Some(list) => list.map_values(
            |pair: (Seq<char>, Seq<char>)| (pair.1, chunk_id::shard_path(pair.1)),
        ),
        None => Seq::empty(),
    }
}

/// The view of chunks: ids and paths.
pub open spec fn chunks_view(chunks: Seq<(String, ChunkPath)>) -> Seq<
    (Seq<char>, Seq<Seq<char>>),
> {
    chunks.map_values(|chunk: (String, ChunkPath)| (chunk.0@, chunk.1@))
}

/// The chunks that a form's pairs ask for, each with the place where it is
/// stored.
pub fn chunks_of_pairs(pairs: Option<Vec<(String, String)>>) -> (chunks: Vec<(String, ChunkPath)>)
    ensures
        chunks_view(chunks@) == requested(pairs_view(pairs)),
{
    let mut chunks: Vec<(String, ChunkPath)> = Vec::new();
    match pairs {
        None => chunks,
        Some(list) => {
            for i in 0..list.len()
                invariant
                    chunks_view(chunks@) == requested(pairs_view(Some(list))).take(i as int),
            {
                let chunk_id = ChunkId::from(list[i].1.as_str());
                let ghost before = chunks_view(chunks@);
                chunks.push((chunk_id.id().to_owned(), chunk_id.file_path()));
                assert(chunks_view(chunks@) == before.push(
                    requested(pairs_view(Some(list)))[i as int],
                ));
            }
            assert(chunks_view(chunks@) == requested(pairs_view(Some(list))));
            chunks
        },
    }
}

/// The chunks that a form body asks for.
pub fn requested_chunks(body: &str) -> (chunks: Vec<(String, ChunkPath)>)
    ensures
        chunks_view(chunks@) == requested(form_pairs(body@)),
{
    chunks_of_pairs(parse_form(body))
}

/// Answers a download with one section per chunk that its form asks for.
/// Anything but a form matches no route.
pub fn download_chunks(content_type: &RawContentType, body: &str) -> (answer: Result<
    MultipartMixed,
    ChunkError,
>)
    ensures
        URLENCODED_FORM@.is_prefix_of(content_type.0@) ==> {
            &&& answer is Ok
            &&& chunks_view(answer->Ok_0.chunks@) == requested(form_pairs(body@))
            &&& response::is_boundary(answer->Ok_0.boundary@)
        },
        !URLENCODED_FORM@.is_prefix_of(content_type.0@) ==> answer
            == Err::<MultipartMixed, ChunkError>(ChunkError::UnmatchedFormat),
{
    if !text::starts_with(content_type.0.as_str(), URLENCODED_FORM) {
        return Err(ChunkError::UnmatchedFormat);
    }
    Ok(MultipartMixed::new_random(requested_chunks(body)))
}

/// The values of pairs.
pub open spec fn values(pairs: Seq<(Seq<char>, Seq<char>)>) -> Seq<Seq<char>> {
    pairs.map_values(|pair: (Seq<char>, Seq<char>)| pair.1)
}

/// Keys do not matter: forms with the same values ask for the same chunks.
pub proof fn law_keys_do_not_matter(
    a: Seq<(Seq<char>, Seq<char>)>,
    b: Seq<(Seq<char>, Seq<char>)>,
)
    requires
        values(a) == values(b),
    ensures
        requested(Some(a)) == requested(Some(b)),
{
    assert(values(a).len() == a.len() && values(b).len() == b.len());
    assert forall|i: int| 0 <= i < a.len() implies (#[trigger] a[i]).1 == b[i].1 by {
        assert(values(a)[i] == a[i].1);
        assert(values(b)[i] == b[i].1);
    }
    assert(requested(Some(a)) =~= requested(Some(b)));
}

/// Every value of a form is asked for, in order and as often as it stands
/// there, by its whole text and at its own path; nothing else is, and a form
/// that cannot be read asks for nothing.
pub proof fn law_every_value_is_asked_for(pairs: Seq<(Seq<char>, Seq<char>)>)
    ensures
        requested(Some(pairs)).len() == pairs.len(),
        forall|k: int|
            0 <= k < pairs.len() ==> {
                &&& (#[trigger] requested(Some(pairs))[k]).0 == pairs[k].1
                &&& requested(Some(pairs))[k].1 == chunk_id::shard_path(pairs[k].1)
            },
        requested(None).len() == 0,
{
}

/// Pairs and chunks are shown whole and in order.
pub proof fn law_pairs_and_chunks_are_shown_whole(
    pairs: Vec<(String, String)>,
    chunks: Seq<(String, ChunkPath)>,
)
    ensures
        pairs_view(None) is None,
        pairs_view(Some(pairs)) is Some,
        pairs_view(Some(pairs))->0.len() == pairs@.len(),
        forall|k: int|
            0 <= k < pairs@.len() ==> #[trigger] pairs_view(Some(pairs))->0[k] == (
                pairs@[k].0@,
                pairs@[k].1@,
            ),
        chunks_view(chunks).len() == chunks.len(),
        forall|k: int|
            0 <= k < chunks.len() ==> #[trigger] chunks_view(chunks)[k] == (
                chunks[k].0@,
                chunks[k].1@,
            ),
{
}

/// What a download's form announces, and what stands before the boundary in
/// the content type of the answer.
pub proof fn law_what_downloads_announce()
    ensures
        URLENCODED_FORM@ == "application/x-www-form-urlencoded"@,
        response::MIXED@ == "multipart/mixed; boundary="@,
{
}

} // verus!
