//! File records: what a peer commits and what the server keeps of it.

use vstd::prelude::*;

use crate::chunk_id::ChunkId;
use crate::text;

verus! {

/// What stands between the ids in a list of chunk ids.
pub const ID_SEPARATOR: char = ',';

/// A commit's form: a file's path, whether it was deleted, and the ids of its
/// chunks, separated by commas.
pub struct CommitPayload {
    pub path: String,
    pub deleted: bool,
    pub chunk_ids: String,
}

/// A record that is still to be stored.
pub struct NewFileRecord {
    pub user_id: i32,
    pub chunk_ids: String,
    pub deleted: bool,
    pub path: String,
}

/// A stored record: a state of one of a user's files. A greater id is a later
/// record.
pub struct FileRecord {
    pub id: i32,
    pub user_id: i32,
    pub chunk_ids: String,
    pub deleted: bool,
    pub path: String,
}

/// A record over character sequences.
pub struct RecordView {
    pub id: i32,
    pub user_id: i32,
    pub chunk_ids: Seq<char>,
    pub deleted: bool,
    pub path: Seq<char>,
}

/// A record that is still to be stored, over character sequences.
pub struct NewRecordView {
    pub user_id: i32,
    pub chunk_ids: Seq<char>,
    pub deleted: bool,
    pub path: Seq<char>,
}

impl View for FileRecord {
    type V = RecordView;

    open spec fn view(&self) -> RecordView {
        RecordView {
            id: self.id,
            user_id: self.user_id,
            chunk_ids: self.chunk_ids@,
            deleted: self.deleted,
            path: self.path@,
        }
    }
}

impl View for NewFileRecord {
    type V = NewRecordView;

    open spec fn view(&self) -> NewRecordView {
        NewRecordView {
            user_id: self.user_id,
            chunk_ids: self.chunk_ids@,
            deleted: self.deleted,
            path: self.path@,
        }
    }
}

impl NewRecordView {
    /// The record as it is stored under an id.
    pub open spec fn stored_as(self, id: i32) -> RecordView {
        RecordView {
            id,
            user_id: self.user_id,
            chunk_ids: self.chunk_ids,
            deleted: self.deleted,
            path: self.path,
        }
    }

    /// Whether storing the record would change nothing over a stored one of
    /// the same file.
    pub open spec fn repeats(self, stored: RecordView) -> bool {
        stored.chunk_ids == self.chunk_ids && stored.deleted == self.deleted
    }
}

impl NewFileRecord {
    /// The record of a user's commit.
    pub fn from_payload_and_user_id(payload: CommitPayload, user_id: i32) -> (record: NewFileRecord)
        ensures
            record.user_id == user_id,
            record.chunk_ids == payload.chunk_ids,
            record.deleted == payload.deleted,
            record.path == payload.path,
    {
        NewFileRecord {
            user_id,
            chunk_ids: payload.chunk_ids,
            deleted: payload.deleted,
            path: payload.path,
        }
    }
}

impl FileRecord {
    /// The record once more.
    pub fn copied(&self) -> (record: FileRecord)
        ensures
            record@ == self@,
    {
        FileRecord {
            id: self.id,
            user_id: self.user_id,
            chunk_ids: self.chunk_ids.clone(),
            deleted: self.deleted,
            path: self.path.clone(),
        }
    }
}

/// The texts that are not empty, in order.
pub open spec fn non_empty(texts: Seq<Seq<char>>) -> Seq<Seq<char>>
    decreases texts.len(),
{
    if texts.len() == 0 {
        Seq::empty()
    } else if texts.last().len() == 0 {
        non_empty(texts.drop_last())
    } else {
        non_empty(texts.drop_last()).push(texts.last())
    }
}

/// The ids of a comma-separated list. No chunk has the empty id.
pub open spec fn listed_ids(chunk_ids: Seq<char>) -> Seq<Seq<char>> {
    non_empty(text::pieces(chunk_ids, ID_SEPARATOR))
}

/// The view of chunk ids.
pub open spec fn ids_view(ids: Seq<ChunkId>) -> Seq<Seq<char>> {
    ids.map_values(|id: ChunkId| id@)
}

/// The ids that are not present, in order.
pub open spec fn absent(ids: Seq<Seq<char>>, present: Seq<bool>) -> Seq<Seq<char>>
    decreases ids.len(),
{
    if ids.len() == 0 {
        Seq::empty()
    } else if present[ids.len() - 1] {
        absent(ids.drop_last(), present)
    } else {
        absent(ids.drop_last(), present).push(ids.last())
    }
}

impl CommitPayload {
    /// The ids of the file's chunks.
    pub fn chunks(&self) -> (ids: Vec<ChunkId>)
        ensures
            ids_view(ids@) == listed_ids(self.chunk_ids@),
    {
        let parts = text::split(self.chunk_ids.as_str(), ID_SEPARATOR);
        let ghost texts = parts@.map_values(|p: String| p@);
        let mut ids: Vec<ChunkId> = Vec::new();
        for i in 0..parts.len()
            invariant
                texts == parts@.map_values(|p: String| p@),
                ids_view(ids@) == non_empty(texts.take(i as int)),
        {
            let ghost before = ids_view(ids@);
            let id = ChunkId::from(parts[i].as_str());
            assert(texts.take(i + 1).drop_last() == texts.take(i as int));
            assert(texts.take(i + 1).last() == id@);
            if !id.is_empty() {
                ids.push(id);
                assert(ids_view(ids@) == before.push(id@));
            }
        }
        assert(texts.take(parts@.len() as int) == texts);
        ids
    }
}

proof fn lemma_non_empty(texts: Seq<Seq<char>>, i: int)
    requires
        0 <= i < non_empty(texts).len(),
    ensures
        non_empty(texts)[i].len() > 0,
        texts.contains(non_empty(texts)[i]),
    decreases texts.len(),
{
    if texts.len() > 0 {
        let before = non_empty(texts.drop_last());
        if texts.last().len() > 0 && i == before.len() {
            assert(texts[texts.len() - 1] == non_empty(texts)[i]);
        } else {
            lemma_non_empty(texts.drop_last(), i);
            let k = choose|k: int|
                0 <= k < texts.drop_last().len() && texts.drop_last()[k] == before[i];
            assert(texts[k] == non_empty(texts)[i]);
        }
    }
}

proof fn lemma_all_non_empty(texts: Seq<Seq<char>>)
    requires
        forall|i: int| 0 <= i < texts.len() ==> (#[trigger] texts[i]).len() > 0,
    ensures
        non_empty(texts) == texts,
    decreases texts.len(),
{
    if texts.len() > 0 {
        let before = texts.drop_last();
        assert forall|i: int| 0 <= i < before.len() implies (#[trigger] before[i]).len() > 0 by {
            assert(before[i] == texts[i]);
        }
        lemma_all_non_empty(before);
        assert(texts[texts.len() - 1].len() > 0);
        assert(before.push(texts.last()) == texts);
    } else {
        assert(texts == Seq::<Seq<char>>::empty());
    }
}

proof fn lemma_absent(ids: Seq<Seq<char>>, present: Seq<bool>, i: int)
    requires
        0 <= i < absent(ids, present).len(),
    ensures
        ids.contains(absent(ids, present)[i]),
    decreases ids.len(),
{
    if ids.len() > 0 {
        let before = absent(ids.drop_last(), present);
        if !present[ids.len() - 1] && i == before.len() {
            assert(ids[ids.len() - 1] == absent(ids, present)[i]);
        } else {
            lemma_absent(ids.drop_last(), present, i);
            let k = choose|k: int|
                0 <= k < ids.drop_last().len() && ids.drop_last()[k] == before[i];
            assert(ids[k] == absent(ids, present)[i]);
        }
    }
}

/// The answer to a commit that lacks chunks names exactly those chunks: read
/// as a list of ids, it gives them back in order.
pub proof fn law_missing_chunks_can_be_read_back(chunk_ids: Seq<char>, present: Seq<bool>)
    requires
        absent(listed_ids(chunk_ids), present).len() > 0,
    ensures
        listed_ids(text::joined(absent(listed_ids(chunk_ids), present), ","@)) == absent(
            listed_ids(chunk_ids),
            present,
        ),
{
    reveal_strlit(",");
    assert(","@ == seq![ID_SEPARATOR]);
    let ids = listed_ids(chunk_ids);
    let missing = absent(ids, present);
    let all = text::pieces(chunk_ids, ID_SEPARATOR);
    assert forall|i: int| 0 <= i < missing.len() implies (#[trigger] missing[i]).len() > 0
        && !missing[i].contains(ID_SEPARATOR) by {
        lemma_absent(ids, present, i);
        let k = choose|k: int| 0 <= k < ids.len() && ids[k] == missing[i];
        lemma_non_empty(all, k);
        let n = choose|n: int| 0 <= n < all.len() && all[n] == ids[k];
        text::law_pieces_hold_no_separator(chunk_ids, ID_SEPARATOR, n);
    }
    text::law_splitting_undoes_joining(missing, ID_SEPARATOR);
    lemma_all_non_empty(missing);
}

/// Picks out the ids of chunks that are still to be uploaded, given which of
/// them are present.
pub fn non_local_chunks(ids: &Vec<ChunkId>, present: &Vec<bool>) -> (missing: Vec<ChunkId>)
    requires
        ids@.len() == present@.len(),
    ensures
        ids_view(missing@) == absent(ids_view(ids@), present@),
{
    let ghost all = ids_view(ids@);
    let mut missing: Vec<ChunkId> = Vec::new();
    for i in 0..ids.len()
        invariant
            ids@.len() == present@.len(),
            all == ids_view(ids@),
            ids_view(missing@) == absent(all.take(i as int), present@),
    {
        let ghost before = ids_view(missing@);
        assert(all.take(i + 1).drop_last() == all.take(i as int));
        assert(all.take(i + 1).last() == ids@[i as int]@);
        if !present[i] {
            let id = ChunkId::from(ids[i].id());
            missing.push(id);
            assert(ids_view(missing@) == before.push(id@));
        }
    }
    assert(all.take(ids@.len() as int) == all);
    missing
}

proof fn lemma_non_empty_joins(a: Seq<Seq<char>>, b: Seq<Seq<char>>)
    ensures
        non_empty(a + b) == non_empty(a) + non_empty(b),
    decreases b.len(),
{
    if b.len() == 0 {
        assert(a + b == a);
        assert(non_empty(a) + non_empty(b) == non_empty(a));
    } else {
        lemma_non_empty_joins(a, b.drop_last());
        assert((a + b).drop_last() == a + b.drop_last());
        assert((a + b).last() == b.last());
        let left = non_empty(a);
        let right = non_empty(b.drop_last());
        assert((left + right).push(b.last()) == left + right.push(b.last()));
    }
}

/// A list of ids is read from comma to comma: a text without one is a single
/// id, or none where it is empty, and around a comma both sides are read on
/// their own. So every id counts, whole and in order.
pub proof fn law_every_id_of_a_list_counts(a: Seq<char>, b: Seq<char>)
    ensures
        listed_ids(Seq::empty()).len() == 0,
        !a.contains(',') && a.len() > 0 ==> listed_ids(a) == seq![a],
        listed_ids(a.push(',') + b) == listed_ids(a) + listed_ids(b),
{
    let none = Seq::<char>::empty();
    text::law_splitting_goes_from_separator_to_separator(none, none, ',');
    assert(!none.contains(','));
    assert(seq![none].drop_last() == Seq::<Seq<char>>::empty());
    assert(non_empty(seq![none]) == Seq::<Seq<char>>::empty()) by {
        reveal_with_fuel(non_empty, 2);
    }
    if !a.contains(',') && a.len() > 0 {
        text::law_splitting_goes_from_separator_to_separator(a, b, ',');
        assert(seq![a].drop_last() == Seq::<Seq<char>>::empty());
        assert(non_empty(seq![a]) == seq![a]) by {
            reveal_with_fuel(non_empty, 2);
            assert(Seq::<Seq<char>>::empty().push(a) == seq![a]);
        }
    }
    text::law_splitting_goes_from_separator_to_separator(a, b, ',');
    lemma_non_empty_joins(text::pieces(a, ','), text::pieces(b, ','));
}

proof fn lemma_absent_joins(
    a: Seq<Seq<char>>,
    b: Seq<Seq<char>>,
    present_a: Seq<bool>,
    present_b: Seq<bool>,
)
    requires
        a.len() == present_a.len(),
        b.len() == present_b.len(),
    ensures
        absent(a + b, present_a + present_b) == absent(a, present_a) + absent(b, present_b),
    decreases b.len(),
{
    if b.len() == 0 {
        assert(a + b == a);
        assert(present_a + present_b == present_a);
        assert(absent(a, present_a) + absent(b, present_b) == absent(a, present_a));
    } else {
        let last = b.len() - 1;
        let fewer = present_b.drop_last();
        lemma_absent_joins(a, b.drop_last(), present_a, fewer);
        assert((a + b).drop_last() == a + b.drop_last());
        assert((a + b).last() == b.last());
        let before = (a + b).drop_last();
        lemma_absent_looks_no_further(before, present_a + present_b, present_a + fewer);
        lemma_absent_looks_no_further(b.drop_last(), present_b, fewer);
        assert((present_a + present_b)[(a + b).len() - 1] == present_b[last]);
        let left = absent(a, present_a);
        let right = absent(b.drop_last(), fewer);
        assert((left + right).push(b.last()) == left + right.push(b.last()));
    }
}

proof fn lemma_absent_looks_no_further(ids: Seq<Seq<char>>, p: Seq<bool>, q: Seq<bool>)
    requires
        ids.len() <= p.len(),
        ids.len() <= q.len(),
        forall|i: int| 0 <= i < ids.len() ==> #[trigger] p[i] == q[i],
    ensures
        absent(ids, p) == absent(ids, q),
    decreases ids.len(),
{
    if ids.len() > 0 {
        lemma_absent_looks_no_further(ids.drop_last(), p, q);
        assert(p[ids.len() - 1] == q[ids.len() - 1]);
    }
}

/// Which ids are missing is told id by id: one that is present is not missing,
/// one that is not is, and what is missing of two lists is what is missing of
/// the one and then what is missing of the other.
pub proof fn law_missing_goes_id_by_id(
    id: Seq<char>,
    a: Seq<Seq<char>>,
    b: Seq<Seq<char>>,
    present_a: Seq<bool>,
    present_b: Seq<bool>,
)
    requires
        a.len() == present_a.len(),
        b.len() == present_b.len(),
    ensures
        absent(seq![id], seq![true]).len() == 0,
        absent(seq![id], seq![false]) == seq![id],
        absent(a + b, present_a + present_b) == absent(a, present_a) + absent(b, present_b),
{
    reveal_with_fuel(absent, 2);
    assert(seq![id].drop_last() == Seq::<Seq<char>>::empty());
    assert(Seq::<Seq<char>>::empty().push(id) == seq![id]);
    lemma_absent_joins(a, b, present_a, present_b);
}

/// An id is missing exactly where it stands at a place that is not present; so
/// none is missing exactly where all are present.
pub proof fn law_missing_is_what_is_not_present(
    ids: Seq<Seq<char>>,
    present: Seq<bool>,
    id: Seq<char>,
)
    requires
        ids.len() == present.len(),
    ensures
        absent(ids, present).contains(id) <==> exists|i: int|
            0 <= i < ids.len() && #[trigger] ids[i] == id && !present[i],
        absent(ids, present).len() == 0 <==> forall|i: int|
            0 <= i < ids.len() ==> #[trigger] present[i],
    decreases ids.len(),
{
    if ids.len() > 0 {
        let last = ids.len() - 1;
        let before = ids.drop_last();
        let fewer = present.drop_last();
        law_missing_is_what_is_not_present(before, fewer, id);
        lemma_absent_looks_no_further(before, present, fewer);
        let old = absent(before, present);
        assert forall|i: int| 0 <= i < before.len() implies #[trigger] before[i] == ids[i]
            && fewer[i] == present[i] by {}
        if exists|i: int| 0 <= i < ids.len() && #[trigger] ids[i] == id && !present[i] {
            let i = choose|i: int| 0 <= i < ids.len() && #[trigger] ids[i] == id && !present[i];
            if i < last {
                assert(before[i] == id && !fewer[i]);
                let k = choose|k: int| 0 <= k < old.len() && old[k] == id;
                assert(absent(ids, present)[k] == id);
            } else {
                assert(absent(ids, present)[old.len() as int] == id);
            }
        }
        if absent(ids, present).contains(id) {
            let k = choose|k: int| 0 <= k < absent(ids, present).len() && absent(ids, present)[k]
                == id;
            if k < old.len() {
                assert(old[k] == id);
                assert(old.contains(id));
                let i = choose|i: int|
                    0 <= i < before.len() && #[trigger] before[i] == id && !fewer[i];
                assert(ids[i] == id && !present[i]);
            } else {
                assert(ids[last] == id && !present[last]);
            }
        }
        if forall|i: int| 0 <= i < ids.len() ==> #[trigger] present[i] {
            assert(present[last]);
            assert forall|i: int| 0 <= i < before.len() implies #[trigger] fewer[i] by {
                assert(present[i]);
            }
        }
        if absent(ids, present).len() == 0 {
            assert(present[last]);
            assert forall|i: int| 0 <= i < ids.len() implies #[trigger] present[i] by {
                if i < last {
                    assert(fewer[i]);
                }
            }
        }
    }
}

/// A record repeats a stored one exactly where both have the same chunks and
/// both or neither are deletions; stored under an id, it is what it was, with
/// that id.
pub proof fn law_a_record_is_stored_as_it_is(new: NewRecordView, stored: RecordView, id: i32)
    ensures
        new.repeats(stored) <==> new.chunk_ids == stored.chunk_ids && new.deleted == stored.deleted,
        new.stored_as(id).id == id,
        new.stored_as(id).user_id == new.user_id,
        new.stored_as(id).chunk_ids == new.chunk_ids,
        new.stored_as(id).deleted == new.deleted,
        new.stored_as(id).path == new.path,
{
}

/// Records and lists of ids are shown whole.
pub proof fn law_records_are_shown_whole(
    record: FileRecord,
    new: NewFileRecord,
    ids: Seq<ChunkId>,
)
    ensures
        record@.id == record.id,
        record@.user_id == record.user_id,
        record@.chunk_ids == record.chunk_ids@,
        record@.deleted == record.deleted,
        record@.path == record.path@,
        new@.user_id == new.user_id,
        new@.chunk_ids == new.chunk_ids@,
        new@.deleted == new.deleted,
        new@.path == new.path@,
        ids_view(ids).len() == ids.len(),
        forall|i: int| 0 <= i < ids.len() ==> #[trigger] ids_view(ids)[i] == ids[i].0@,
{
}

} // verus!
