//! Chunk ids and where a chunk is stored.

use vstd::prelude::*;

verus! {

/// The id of a chunk.
pub struct ChunkId(pub String);

/// Stands in a path where an id has too few characters for a directory level.
pub const NO_LEVEL: &'static str = "null";

/// An ASCII letter or digit.
pub open spec fn is_alphanumeric(c: char) -> bool {
    ('0' <= c && c <= '9') || ('A' <= c && c <= 'Z') || ('a' <= c && c <= 'z')
}

/// Whether every character is an ASCII letter or digit.
pub open spec fn all_alphanumeric(text: Seq<char>) -> bool {
    forall|i: int| 0 <= i < text.len() ==> is_alphanumeric(#[trigger] text[i])
}

/// The directory level that the character at `i` makes.
pub open spec fn level(id: Seq<char>, i: int) -> Seq<char> {
    if i < id.len() {
        seq![id[i]]
    } else {
        NO_LEVEL@
    }
}

/// Where a chunk is stored below the upload directory: its first two
/// characters are directory levels, the whole id is the file's name.
pub open spec fn shard_path(id: Seq<char>) -> Seq<Seq<char>> {
    seq![level(id, 0), level(id, 1), id]
}

/// The place of a file below the upload directory: two directory levels and
/// the file's name.
pub struct ChunkPath {
    pub first: String,
    pub second: String,
    pub name: String,
}

impl View for ChunkPath {
    type V = Seq<Seq<char>>;

    open spec fn view(&self) -> Seq<Seq<char>> {
        seq![self.first@, self.second@, self.name@]
    }
}

impl View for ChunkId {
    type V = Seq<char>;

    open spec fn view(&self) -> Seq<char> {
        self.0@
    }
}

fn level_text(id: &str, i: usize) -> (name: String)
    ensures
        name@ == level(id@, i as int),
{
    if i < id.unicode_len() {
        let mut name = String::new();
        name.push(id.get_char(i));
        assert(name@ == seq![id@[i as int]]);
        name
    } else {
        NO_LEVEL.to_owned()
    }
}

impl ChunkId {
    /// Takes any text as an id.
    pub fn from(text: &str) -> (id: ChunkId)
        ensures
            id@ == text@,
    {
        ChunkId(text.to_owned())
    }

    /// Takes a path parameter as an id; one that is not alphanumeric is none.
    pub fn from_param(param: &str) -> (id: Option<ChunkId>)
        ensures
            id is Some == all_alphanumeric(param@),
            id matches Some(chunk_id) ==> chunk_id@ == param@,
    {
        for c in all: param.chars()
            invariant
                all.seq() == param@,
                all_alphanumeric(param@.take(all.index() as int)),
        {
            let ghost i = all.index() as int;
            let fine = ('0' <= c && c <= '9') || ('A' <= c && c <= 'Z') || ('a' <= c && c <= 'z');
            if !fine {
                assert(!is_alphanumeric(param@[i]));
                return None;
            }
            assert(param@.take(i + 1) == param@.take(i).push(c));
        }
        assert(param@.take(param@.len() as int) == param@);
        Some(ChunkId::from(param))
    }

    /// Whether this is the empty id, which no chunk has.
    pub fn is_empty(&self) -> (empty: bool)
        ensures
            empty == (self@.len() == 0),
    {
        self.0.as_str().is_empty()
    }

    /// The id's text.
    pub fn id(&self) -> (text: &str)
        ensures
            text@ == self@,
    {
        self.0.as_str()
    }

    /// Where the chunk is stored.
    pub fn file_path(&self) -> (path: ChunkPath)
        ensures
            path@ == shard_path(self@),
    {
        ChunkPath {
            first: level_text(self.id(), 0),
            second: level_text(self.id(), 1),
            name: self.0.clone(),
        }
    }
}

/// Two chunks have the same path, taken as its three names, only if they are
/// the same chunk.
pub proof fn law_a_path_has_one_chunk(a: Seq<char>, b: Seq<char>)
    requires
        shard_path(a) == shard_path(b),
    ensures
        a == b,
{
    assert(shard_path(a)[2] == shard_path(b)[2]);
}

/// A text is alphanumeric exactly where each of its characters is an ASCII
/// digit or letter, however many there are; so two texts are exactly where
/// their joining is.
pub proof fn law_alphanumeric_goes_character_by_character(a: Seq<char>, b: Seq<char>)
    ensures
        all_alphanumeric(a) <==> forall|i: int|
            0 <= i < a.len() ==> (48 <= (#[trigger] a[i]) as int <= 57 || 65 <= a[i] as int <= 90
                || 97 <= a[i] as int <= 122),
        all_alphanumeric(a + b) <==> all_alphanumeric(a) && all_alphanumeric(b),
{
    if all_alphanumeric(a) {
        assert forall|i: int| 0 <= i < a.len() implies (48 <= (#[trigger] a[i]) as int <= 57 || 65
            <= a[i] as int <= 90 || 97 <= a[i] as int <= 122) by {
            assert(is_alphanumeric(a[i]));
        }
    }
    if all_alphanumeric(a + b) {
        assert forall|i: int| 0 <= i < a.len() implies is_alphanumeric(#[trigger] a[i]) by {
            assert((a + b)[i] == a[i]);
        }
        assert forall|i: int| 0 <= i < b.len() implies is_alphanumeric(#[trigger] b[i]) by {
            assert((a + b)[a.len() + i] == b[i]);
        }
    }
}

/// A chunk's path has three names: the last is the whole id, and the two
/// before it spell its first two characters, or say that there are none.
pub proof fn law_a_path_spells_its_id(id: Seq<char>)
    ensures
        shard_path(id).len() == 3,
        shard_path(id)[2] == id,
        id.len() >= 2 ==> shard_path(id)[0].len() == 1 && shard_path(id)[1].len() == 1
            && shard_path(id)[0] + shard_path(id)[1] == id.take(2),
        id.len() == 1 ==> shard_path(id)[0] == id && shard_path(id)[1] == "null"@,
        id.len() == 0 ==> shard_path(id)[0] == "null"@ && shard_path(id)[1] == "null"@,
{
    if id.len() >= 2 {
        assert(shard_path(id)[0] + shard_path(id)[1] =~= id.take(2));
    }
    if id.len() == 1 {
        assert(seq![id[0]] =~= id);
    }
}

/// Ids that begin with the same two characters are stored in one directory,
/// and others of that length are not.
pub proof fn law_a_directory_holds_what_begins_alike(a: Seq<char>, b: Seq<char>)
    requires
        a.len() >= 2,
        b.len() >= 2,
    ensures
        shard_path(a).take(2) == shard_path(b).take(2) <==> a.take(2) == b.take(2),
{
    law_a_path_spells_its_id(a);
    law_a_path_spells_its_id(b);
    if shard_path(a).take(2) == shard_path(b).take(2) {
        assert(shard_path(a).take(2)[0] == shard_path(b).take(2)[0]);
        assert(shard_path(a).take(2)[1] == shard_path(b).take(2)[1]);
    }
    if a.take(2) == b.take(2) {
        assert(a.take(2)[0] == b.take(2)[0] && a.take(2)[1] == b.take(2)[1]);
        assert(shard_path(a).take(2) =~= shard_path(b).take(2));
    }
}

/// The views of ids and paths show all of them.
pub proof fn law_ids_and_paths_are_shown_whole(id: ChunkId, path: ChunkPath)
    ensures
        id@ == id.0@,
        path@ == seq![path.first@, path.second@, path.name@],
{
}

} // verus!
