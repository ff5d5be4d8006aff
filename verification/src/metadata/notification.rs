//! The clients that wait in a long poll for another client's commit.

use vstd::prelude::*;

use crate::text;

verus! {

/// The most seconds that a poll waits.
pub const LONGEST_POLL: u64 = 60;

/// How long a poll waits that asks for these seconds: so long, but no longer
/// than polls may.
pub open spec fn poll_wait(seconds: u64) -> u64 {
    if seconds <= LONGEST_POLL {
        seconds
    } else {
        LONGEST_POLL
    }
}

/// How long a poll waits that asks for these seconds.
pub fn clamp_poll_seconds(seconds: u64) -> (wait: u64)
    ensures
        wait == poll_wait(seconds),
{
    if seconds <= LONGEST_POLL {
        seconds
    } else {
        LONGEST_POLL
    }
}

/// The texts of strings.
pub open spec fn texts(names: Seq<String>) -> Seq<Seq<char>> {
    names.map_values(|name: String| name@)
}

/// The texts among a list of strings.
pub open spec fn text_set(names: Seq<String>) -> Set<Seq<char>> {
    Set::new(|text: Seq<char>| texts(names).contains(text))
}

/// The clients that a commit by the client `uuid` wakes: all that wait but
/// itself.
pub open spec fn woken_by(waiting: Set<Seq<char>>, uuid: Seq<char>) -> Set<Seq<char>> {
    waiting.remove(uuid)
}

/// Whether no text occurs twice.
pub open spec fn each_once(names: Seq<String>) -> bool {
    texts(names).no_duplicates()
}

/// The texts without every occurrence of one of them, in order.
spec fn without(all: Seq<Seq<char>>, text: Seq<char>) -> Seq<Seq<char>>
    decreases all.len(),
{
    if all.len() == 0 {
        Seq::empty()
    } else if all.last() == text {
        without(all.drop_last(), text)
    } else {
        without(all.drop_last(), text).push(all.last())
    }
}

proof fn lemma_without(all: Seq<Seq<char>>, text: Seq<char>)
    ensures
        forall|t: Seq<char>| #[trigger]
            without(all, text).contains(t) <==> all.contains(t) && t != text,
        all.no_duplicates() ==> without(all, text).no_duplicates(),
    decreases all.len(),
{
    if all.len() > 0 {
        let before = all.drop_last();
        let kept = without(before, text);
        lemma_without(before, text);
        assert(all == before.push(all.last()));
        lemma_contains_push(before, all.last());
        lemma_contains_push(kept, all.last());
        if all.no_duplicates() {
            assert(!before.contains(all.last())) by {
                if before.contains(all.last()) {
                    let i = choose|i: int| 0 <= i < before.len() && before[i] == all.last();
                    assert(all[i] == all[all.len() - 1]);
                }
            }
            assert(before.no_duplicates());
            assert(!kept.contains(all.last()));
            assert forall|i: int, j: int|
                0 <= i < kept.len() + 1 && 0 <= j < kept.len() + 1 && i != j implies kept.push(
                all.last(),
            )[i] != kept.push(all.last())[j] by {
                if i < kept.len() {
                    assert(kept.contains(kept[i]));
                }
                if j < kept.len() {
                    assert(kept.contains(kept[j]));
                }
            }
        }
    }
}

proof fn lemma_contains_push(s: Seq<Seq<char>>, last: Seq<char>)
    ensures
        forall|t: Seq<char>| #[trigger] s.push(last).contains(t) <==> s.contains(t) || t == last,
{
    assert forall|t: Seq<char>| #[trigger] s.push(last).contains(t) <==> s.contains(t) || t
        == last by {
        if s.contains(t) {
            let i = choose|i: int| 0 <= i < s.len() && s[i] == t;
            assert(s.push(last)[i] == t);
        }
        if t == last {
            assert(s.push(last)[s.len() as int] == t);
        }
    }
}

/// The clients that wait in a long poll, by their ids.
pub struct ActiveClients {
    uuids: Vec<String>,
}

impl View for ActiveClients {
    type V = Set<Seq<char>>;

    closed spec fn view(&self) -> Set<Seq<char>> {
        text_set(self.uuids@)
    }
}

impl ActiveClients {
    #[verifier::type_invariant]
    spec fn wf(self) -> bool {
        each_once(self.uuids@)
    }

    /// No clients.
    pub fn new() -> (clients: ActiveClients)
        ensures
            clients@ == Set::<Seq<char>>::empty(),
    {
        let clients = ActiveClients { uuids: Vec::new() };
        assert(clients@ =~= Set::<Seq<char>>::empty());
        clients
    }

    /// Whether a client waits.
    pub fn is_waiting(&self, uuid: &str) -> (waiting: bool)
        ensures
            waiting == self@.contains(uuid@),
    {
        for i in 0..self.uuids.len()
            invariant
                forall|k: int| 0 <= k < i ==> #[trigger] texts(self.uuids@)[k] != uuid@,
        {
            if text::same(self.uuids[i].as_str(), uuid) {
                assert(texts(self.uuids@)[i as int] == uuid@);
                return true;
            }
        }
        false
    }

    /// Adds a client that waits.
    pub fn register(&mut self, uuid: &str)
        ensures
            final(self)@ == old(self)@.insert(uuid@),
    {
        proof {
            use_type_invariant(&*self);
        }
        if self.is_waiting(uuid) {
            assert(self@.insert(uuid@) =~= self@);
            return;
        }
        let ghost before = self.uuids@;
        let name = uuid.to_owned();
        let mut uuids: Vec<String> = Vec::new();
        std::mem::swap(&mut uuids, &mut self.uuids);
        uuids.push(name);
        proof {
            assert(texts(uuids@) == texts(before).push(uuid@));
            lemma_contains_push(texts(before), uuid@);
            assert(text_set(uuids@) =~= text_set(before).insert(uuid@));
            assert(!texts(before).contains(uuid@));
        }
        self.uuids = uuids;
    }

    fn all_but(&self, uuid: &str) -> (others: Vec<String>)
        ensures
            text_set(others@) == self@.remove(uuid@),
            each_once(others@),
    {
        proof {
            use_type_invariant(self);
        }
        let ghost all = texts(self.uuids@);
        let mut others: Vec<String> = Vec::new();
        for i in 0..self.uuids.len()
            invariant
                all == texts(self.uuids@),
                texts(others@) == without(all.take(i as int), uuid@),
        {
            let ghost before = texts(others@);
            assert(all.take(i + 1).drop_last() == all.take(i as int));
            assert(all.take(i + 1).last() == self.uuids@[i as int]@);
            if !text::same(self.uuids[i].as_str(), uuid) {
                let name = self.uuids[i].clone();
                others.push(name);
                assert(texts(others@) == before.push(name@));
            }
        }
        proof {
            assert(all.take(all.len() as int) == all);
            lemma_without(all, uuid@);
            assert(text_set(others@) =~= self@.remove(uuid@));
        }
        others
    }

    /// Takes a client out; it waits no longer.
    pub fn remove(&mut self, uuid: &str)
        ensures
            final(self)@ == old(self)@.remove(uuid@),
    {
        let others = self.all_but(uuid);
        self.uuids = others;
    }

    /// The clients to be woken by a commit of the client `uuid`: all that wait
    /// but itself, each once.
    pub fn notify(&self, uuid: &str) -> (woken: Vec<String>)
        ensures
            text_set(woken@) == woken_by(self@, uuid@),
            each_once(woken@),
    {
        self.all_but(uuid)
    }
}

/// A poll waits for as long as it asks, up to a minute and no longer.
pub proof fn law_a_poll_waits_as_asked_up_to_a_minute(seconds: u64)
    ensures
        seconds <= 60 ==> poll_wait(seconds) == seconds,
        seconds > 60 ==> poll_wait(seconds) == 60,
{
}

/// A text is among names exactly where one of them is that text, and each is
/// there once exactly where no two are the same.
pub proof fn law_names_are_told_apart_by_their_texts(names: Seq<String>, text: Seq<char>)
    ensures
        text_set(names).contains(text) <==> exists|i: int|
            0 <= i < names.len() && (#[trigger] names[i])@ == text,
        each_once(names) <==> forall|i: int, j: int|
            0 <= i < j < names.len() ==> (#[trigger] names[i])@ != (#[trigger] names[j])@,
{
    if text_set(names).contains(text) {
        let i = choose|i: int| 0 <= i < texts(names).len() && texts(names)[i] == text;
        assert(names[i]@ == text);
    }
    if exists|i: int| 0 <= i < names.len() && (#[trigger] names[i])@ == text {
        let i = choose|i: int| 0 <= i < names.len() && (#[trigger] names[i])@ == text;
        assert(texts(names)[i] == text);
    }
    if each_once(names) {
        assert forall|i: int, j: int| 0 <= i < j < names.len() implies (#[trigger] names[i])@ != (
        #[trigger] names[j])@ by {
            assert(texts(names)[i] != texts(names)[j]);
        }
    }
    if forall|i: int, j: int|
        0 <= i < j < names.len() ==> (#[trigger] names[i])@ != (#[trigger] names[j])@ {
        assert forall|i: int, j: int|
            0 <= i < texts(names).len() && 0 <= j < texts(names).len() && i != j implies texts(
            names,
        )[i] != texts(names)[j] by {
            if i < j {
                assert(names[i]@ != names[j]@);
            } else {
                assert(names[j]@ != names[i]@);
            }
        }
    }
}

} // verus!
