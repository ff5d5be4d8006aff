//! Single chunks, served as they are stored.

use vstd::prelude::*;

use crate::chunk_id;
use crate::chunk_id::{ChunkId, ChunkPath};
use crate::http;
use crate::http::{bare, Response, NOT_FOUND, OK, PLAIN_TEXT, UNPROCESSABLE_ENTITY};

verus! {

/// Which file a request for a chunk asks for, or the status that turns it
/// away: a parameter that is no id is unprocessable, and no chunk has the
/// empty id.
pub open spec fn wanted(param: Seq<char>) -> Result<Seq<Seq<char>>, u16> {
    if !chunk_id::all_alphanumeric(param) {
        Err(UNPROCESSABLE_ENTITY)
    } else if param.len() == 0 {
        Err(NOT_FOUND)
    } else {
        Ok(chunk_id::shard_path(param))
    }
}

/// Finds the file that a request for a chunk asks for, or the answer that
/// turns it away.
pub fn retrieve(param: &str) -> (file: Result<ChunkPath, Response<String>>)
    ensures
        match wanted(param@) {
            Ok(path) => file is Ok && file->Ok_0@ == path,
            Err(status) => {
                &&& file is Err
                &&& file->Err_0.head() == http::bare_head(status)
                &&& file->Err_0.body@.len() == 0
            },
        },
{
    match ChunkId::from_param(param) {
        None => Err(bare(UNPROCESSABLE_ENTITY)),
        Some(id) => if id.is_empty() {
            Err(bare(NOT_FOUND))
        } else {
            Ok(id.file_path())
        },
    }
}

/// Answers a request for a chunk once its file has been opened: with the
/// file's contents as plain text, or not at all where there is no such file.
pub fn retrieved<B>(opened: Option<B>) -> (answer: Result<Response<B>, Response<String>>)
    ensures
        match opened {
            Some(contents) => {
                &&& answer is Ok
                &&& answer->Ok_0.head() == http::head(OK, PLAIN_TEXT@)
                &&& answer->Ok_0.body == contents
            },
            None => {
                &&& answer is Err
                &&& answer->Err_0.head() == http::bare_head(NOT_FOUND)
                &&& answer->Err_0.body@.len() == 0
            },
        },
{
    match opened {
        Some(contents) => Ok(Response::with_type(OK, PLAIN_TEXT, contents)),
        None => Err(bare(NOT_FOUND)),
    }
}

/// A request is turned away exactly where its parameter holds a character that
/// is no ASCII digit or letter, or is empty. Every other parameter, however
/// long, asks for the file that is named by it.
pub proof fn law_every_id_asks_for_its_own_file(param: Seq<char>)
    ensures
        wanted(param) == Err::<Seq<Seq<char>>, u16>(422) <==> exists|i: int|
            0 <= i < param.len() && !(48 <= (#[trigger] param[i]) as int <= 57 || 65
                <= param[i] as int <= 90 || 97 <= param[i] as int <= 122),
        wanted(param) == Err::<Seq<Seq<char>>, u16>(404) <==> param.len() == 0,
        wanted(param) is Err ==> wanted(param)->Err_0 == 422 || wanted(param)->Err_0 == 404,
        wanted(param) matches Ok(path) ==> path == chunk_id::shard_path(param) && path[2] == param,
{
    chunk_id::law_alphanumeric_goes_character_by_character(param, param);
    chunk_id::law_a_path_spells_its_id(param);
}

} // verus!
