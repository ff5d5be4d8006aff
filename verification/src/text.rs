//! Text helpers: prefixes, comparison, joining, splitting, header values.

use vstd::prelude::*;

verus! {

/// `String::push`: the character is appended to the end of the string.
pub assume_specification[ String::push ](s: &mut String, c: char)
    ensures
        final(s)@ == old(s)@.push(c),
;

/// The view of an optional string.
pub open spec fn text_view(text: Option<String>) -> Option<Seq<char>> {
    match text {
        Some(t) => Some(t@),
        None => None,
    }
}

/// Whether `text` begins with `prefix`.
pub fn starts_with(text: &str, prefix: &str) -> (found: bool)
    ensures
        found == prefix@.is_prefix_of(text@),
{
    let mut rest = text.chars();
    for c in wanted: prefix.chars()
        invariant
            wanted.seq() == prefix@,
            prefix@.take(wanted.index() as int).is_prefix_of(text@),
            vstd::std_specs::iter::IteratorSpec::remaining(&rest) == text@.skip(
                wanted.index() as int,
            ),
    {
        match rest.next() {
            Some(d) => {
                if c != d {
                    return false;
                }
            },
            None => {
                return false;
            },
        }
    }
    true
}

/// What follows `prefix` in `text`, or `None` where `text` does not begin with
/// `prefix`.
pub fn strip_prefix(text: &str, prefix: &str) -> (rest: Option<String>)
    ensures
        prefix@.is_prefix_of(text@) ==> rest is Some && rest->0@ == text@.skip(
            prefix@.len() as int,
        ),
        !prefix@.is_prefix_of(text@) ==> rest is None,
{
    if !starts_with(text, prefix) {
        return None;
    }
    let skipped: usize = prefix.unicode_len();
    let mut rest = String::new();
    let mut seen: usize = 0;
    for c in all: text.chars()
        invariant
            all.seq() == text@,
            skipped == prefix@.len(),
            skipped <= text@.len(),
            seen == if all.index() < skipped { all.index() as int } else { skipped as int },
            rest@ == text@.take(all.index() as int).skip(seen as int),
    {
        if seen < skipped {
            seen = seen + 1;
        } else {
            rest.push(c);
        }
    }
    assert(text@.take(text@.len() as int) == text@);
    Some(rest)
}

/// Whether two texts are the same.
pub fn same(a: &str, b: &str) -> (equal: bool)
    ensures
        equal == (a@ == b@),
{
    proof {
        assert(a@.len() == b@.len() ==> a@.subrange(0, b@.len() as int) == a@);
    }
    a.unicode_len() == b.unicode_len() && starts_with(a, b)
}

/// The parts in order, with `separator` between neighbours.
pub open spec fn joined(parts: Seq<Seq<char>>, separator: Seq<char>) -> Seq<char>
    decreases parts.len(),
{
    if parts.len() == 0 {
        Seq::empty()
    } else if parts.len() == 1 {
        parts[0]
    } else {
        joined(parts.drop_last(), separator) + separator + parts.last()
    }
}

/// The parts in order, with `separator` between neighbours.
pub fn join(parts: &Vec<String>, separator: &str) -> (whole: String)
    ensures
        whole@ == joined(parts@.map_values(|p: String| p@), separator@),
{
    let ghost texts = parts@.map_values(|p: String| p@);
    let mut whole = String::new();
    for i in 0..parts.len()
        invariant
            texts == parts@.map_values(|p: String| p@),
            whole@ == joined(texts.take(i as int), separator@),
    {
        proof {
            assert(texts.take(i + 1).drop_last() == texts.take(i as int));
            assert(texts.take(i + 1).last() == parts@[i as int]@);
        }
        if i > 0 {
            whole.append(separator);
        }
        whole.append(parts[i].as_str());
    }
    assert(texts.take(parts@.len() as int) == texts);
    whole
}

/// `text` cut at every `separator`; a text without one is a single piece.
pub open spec fn pieces(text: Seq<char>, separator: char) -> Seq<Seq<char>>
    decreases text.len(),
{
    if text.len() == 0 {
        seq![Seq::empty()]
    } else {
        let before = pieces(text.drop_last(), separator);
        if text.last() == separator {
            before.push(Seq::empty())
        } else {
            before.drop_last().push(before.last().push(text.last()))
        }
    }
}

/// `text` cut at every `separator`.
pub fn split(text: &str, separator: char) -> (parts: Vec<String>)
    ensures
        parts@.map_values(|p: String| p@) == pieces(text@, separator),
{
    let mut parts: Vec<String> = Vec::new();
    let mut current = String::new();
    assert(parts@.map_values(|p: String| p@).push(current@) == pieces(text@.take(0), separator));
    for c in all: text.chars()
        invariant
            all.seq() == text@,
            parts@.map_values(|p: String| p@).push(current@) == pieces(
                text@.take(all.index() as int),
                separator,
            ),
    {
        let ghost i = all.index() as int;
        let ghost before = parts@.map_values(|p: String| p@);
        proof {
            assert(text@.take(i + 1).drop_last() == text@.take(i));
            assert(text@.take(i + 1).last() == c);
            assert(before.push(current@).drop_last() == before);
        }
        if c == separator {
            parts.push(current);
            current = String::new();
            assert(parts@.map_values(|p: String| p@) == before.push(
                pieces(text@.take(i), separator).last(),
            ));
        } else {
            current.push(c);
        }
    }
    assert(text@.take(text@.len() as int) == text@);
    parts.push(current);
    parts
}

proof fn lemma_pieces_after(text: Seq<char>, separator: char, tail: Seq<char>)
    requires
        !tail.contains(separator),
    ensures
        pieces(text.push(separator) + tail, separator) == pieces(text, separator).push(tail),
    decreases tail.len(),
{
    let whole = text.push(separator) + tail;
    if tail.len() == 0 {
        assert(whole == text.push(separator));
        assert(whole.drop_last() == text);
        assert(tail == Seq::<char>::empty());
    } else {
        let shorter = tail.drop_last();
        assert forall|i: int| 0 <= i < shorter.len() implies shorter[i] != separator by {
            assert(tail.contains(tail[i]));
        }
        lemma_pieces_after(text, separator, shorter);
        assert(whole.drop_last() == text.push(separator) + shorter);
        assert(whole.last() == tail.last());
        assert(tail.contains(tail.last()));
        let before = pieces(text, separator);
        assert(before.push(shorter).drop_last() == before);
        assert(shorter.push(tail.last()) == tail);
    }
}

proof fn lemma_single_piece(text: Seq<char>, separator: char)
    requires
        !text.contains(separator),
    ensures
        pieces(text, separator) == seq![text],
    decreases text.len(),
{
    if text.len() == 0 {
        assert(text == Seq::<char>::empty());
    } else {
        let shorter = text.drop_last();
        assert forall|i: int| 0 <= i < shorter.len() implies shorter[i] != separator by {
            assert(text.contains(text[i]));
        }
        lemma_single_piece(shorter, separator);
        assert(text.contains(text.last()));
        assert(shorter.push(text.last()) == text);
        assert(seq![shorter].drop_last() == Seq::<Seq<char>>::empty());
        assert(Seq::<Seq<char>>::empty().push(text) == seq![text]);
    }
}

/// Parts that do not hold the separator can be read back from their joining.
pub proof fn law_splitting_undoes_joining(parts: Seq<Seq<char>>, separator: char)
    requires
        parts.len() > 0,
        forall|i: int| 0 <= i < parts.len() ==> !(#[trigger] parts[i]).contains(separator),
    ensures
        pieces(joined(parts, seq![separator]), separator) == parts,
    decreases parts.len(),
{
    if parts.len() == 1 {
        lemma_single_piece(parts[0], separator);
        assert(seq![parts[0]] == parts);
    } else {
        let before = parts.drop_last();
        assert forall|i: int| 0 <= i < before.len() implies !(#[trigger] before[i]).contains(
            separator,
        ) by {
            assert(before[i] == parts[i]);
        }
        law_splitting_undoes_joining(before, separator);
        let text = joined(before, seq![separator]);
        assert(!parts[parts.len() - 1].contains(separator));
        lemma_pieces_after(text, separator, parts.last());
        assert(text + seq![separator] + parts.last() == text.push(separator) + parts.last());
        assert(before.push(parts.last()) == parts);
    }
}

/// The pieces of a text do not hold the separator.
pub proof fn law_pieces_hold_no_separator(text: Seq<char>, separator: char, i: int)
    requires
        0 <= i < pieces(text, separator).len(),
    ensures
        !pieces(text, separator)[i].contains(separator),
    decreases text.len(),
{
    lemma_some_piece(text, separator);
    if text.len() > 0 {
        let before = pieces(text.drop_last(), separator);
        lemma_some_piece(text.drop_last(), separator);
        if text.last() == separator {
            if i < before.len() {
                law_pieces_hold_no_separator(text.drop_last(), separator, i);
            }
        } else if i < before.len() - 1 {
            law_pieces_hold_no_separator(text.drop_last(), separator, i);
        } else {
            law_pieces_hold_no_separator(text.drop_last(), separator, before.len() - 1);
            let grown = before.last().push(text.last());
            assert(pieces(text, separator)[i] == grown);
            if grown.contains(separator) {
                let k = choose|k: int| 0 <= k < grown.len() && grown[k] == separator;
                assert(before.last()[k] == separator);
            }
        }
    }
}

proof fn lemma_some_piece(text: Seq<char>, separator: char)
    ensures
        pieces(text, separator).len() > 0,
    decreases text.len(),
{
    if text.len() > 0 {
        lemma_some_piece(text.drop_last(), separator);
    }
}

/// Whether a header byte is one that a header's text can hold: visible ASCII,
/// a space or a tab.
pub open spec fn is_visible_ascii(b: u8) -> bool {
    32 <= b < 127 || b == 9
}

/// The text of a header value: its bytes as ASCII characters, or nothing where
/// a byte is not visible ASCII.
pub open spec fn header_chars(value: Seq<u8>) -> Option<Seq<char>> {
    if forall|i: int| 0 <= i < value.len() ==> is_visible_ascii(#[trigger] value[i]) {
        Some(Seq::new(value.len(), |i: int| value[i] as char))
    } else {
        None
    }
}

/// The view of an optional header value.
pub open spec fn header_view(value: Option<&[u8]>) -> Option<Seq<u8>> {
    match value {
        Some(bytes) => Some(bytes@),
        None => None,
    }
}

/// Reads a header value as text.
pub fn header_text(value: &[u8]) -> (text: Option<String>)
    ensures
        text is Some == header_chars(value@) is Some,
        text matches Some(t) ==> Some(t@) == header_chars(value@),
{
    let mut text = String::new();
    for i in 0..value.len()
        invariant
            text@ == Seq::new(i as nat, |k: int| value@[k] as char),
            forall|k: int| 0 <= k < i ==> is_visible_ascii(#[trigger] value@[k]),
    {
        let b: u8 = value[i];
        if !((32 <= b && b < 127) || b == 9) {
            assert(!is_visible_ascii(value@[i as int]));
            return None;
        }
        text.push(b as char);
    }
    Some(text)
}

/// Joining goes part by part: nothing comes of no parts, a single part is
/// itself, and two lists are joined by joining each and setting the separator
/// between them.
pub proof fn law_joining_goes_part_by_part(
    a: Seq<Seq<char>>,
    b: Seq<Seq<char>>,
    part: Seq<char>,
    separator: Seq<char>,
)
    ensures
        joined(Seq::empty(), separator).len() == 0,
        joined(seq![part], separator) == part,
        a.len() > 0 && b.len() > 0 ==> joined(a + b, separator) == joined(a, separator) + separator
            + joined(b, separator),
    decreases b.len(),
{
    if a.len() > 0 && b.len() > 0 {
        let whole = a + b;
        assert(whole.last() == b.last());
        assert(whole.drop_last() == a + b.drop_last());
        if b.len() == 1 {
            assert(a + b.drop_last() == a);
        } else {
            law_joining_goes_part_by_part(a, b.drop_last(), part, separator);
            assert(joined(a, separator) + separator + joined(b.drop_last(), separator) + separator
                + b.last() == joined(a, separator) + separator + (joined(b.drop_last(), separator)
                + separator + b.last()));
        }
    }
}

/// Splitting goes from separator to separator: a text without one is a single
/// piece, and around a separator both sides are split on their own.
pub proof fn law_splitting_goes_from_separator_to_separator(
    a: Seq<char>,
    b: Seq<char>,
    separator: char,
)
    ensures
        !a.contains(separator) ==> pieces(a, separator) == seq![a],
        pieces(a.push(separator) + b, separator) == pieces(a, separator) + pieces(b, separator),
    decreases b.len(),
{
    if !a.contains(separator) {
        lemma_single_piece(a, separator);
    }
    let whole = a.push(separator) + b;
    lemma_some_piece(a, separator);
    lemma_some_piece(b, separator);
    if b.len() == 0 {
        assert(whole == a.push(separator));
        assert(whole.drop_last() == a);
        assert(pieces(b, separator) == seq![Seq::<char>::empty()]);
        assert(pieces(a, separator).push(Seq::empty()) == pieces(a, separator) + seq![
            Seq::<char>::empty(),
        ]);
    } else {
        let shorter = b.drop_last();
        law_splitting_goes_from_separator_to_separator(a, shorter, separator);
        lemma_some_piece(shorter, separator);
        assert(whole.drop_last() == a.push(separator) + shorter);
        assert(whole.last() == b.last());
        let left = pieces(a, separator);
        let right = pieces(shorter, separator);
        if b.last() == separator {
            assert((left + right).push(Seq::empty()) == left + right.push(Seq::empty()));
        } else {
            assert((left + right).last() == right.last());
            assert((left + right).drop_last() == left + right.drop_last());
            let grown = right.last().push(b.last());
            assert((left + right.drop_last()).push(grown) == left + right.drop_last().push(grown));
        }
    }
}

/// Joining the pieces of a text by the separator gives the text back.
pub proof fn law_joining_undoes_splitting(text: Seq<char>, separator: char)
    ensures
        joined(pieces(text, separator), seq![separator]) == text,
    decreases text.len(),
{
    lemma_some_piece(text, separator);
    if text.len() > 0 {
        let shorter = text.drop_last();
        let before = pieces(shorter, separator);
        law_joining_undoes_splitting(shorter, separator);
        lemma_some_piece(shorter, separator);
        let all = pieces(text, separator);
        if text.last() == separator {
            assert(all.drop_last() == before);
            assert(shorter + seq![separator] + Seq::<char>::empty() == text);
        } else {
            let grown = before.last().push(text.last());
            assert(all.drop_last() == before.drop_last());
            assert(all.last() == grown);
            if before.len() == 1 {
                assert(before[0].push(text.last()) == text);
            } else {
                let head = joined(before.drop_last(), seq![separator]);
                assert(head + seq![separator] + grown == (head + seq![separator]
                    + before.last()).push(text.last()));
                assert(shorter.push(text.last()) == text);
            }
        }
    } else {
        assert(pieces(text, separator) == seq![Seq::<char>::empty()]);
        assert(text == Seq::<char>::empty());
    }
}

/// A header value of any length is text exactly where each of its bytes is a
/// tab or lies between the space and the tilde; its text has a character for
/// each byte, of the same code.
pub proof fn law_a_header_is_text_byte_for_byte(value: Seq<u8>)
    ensures
        header_chars(value) is Some <==> forall|i: int|
            0 <= i < value.len() ==> (#[trigger] value[i] == 9 || 32 <= value[i] <= 126),
        header_chars(value) matches Some(text) ==> {
            &&& text.len() == value.len()
            &&& forall|i: int| 0 <= i < value.len() ==> (#[trigger] text[i]) as int == value[i]
        },
{
    if forall|i: int|
        0 <= i < value.len() ==> (#[trigger] value[i] == 9 || 32 <= value[i] <= 126) {
        assert forall|i: int| 0 <= i < value.len() implies is_visible_ascii(
            #[trigger] value[i],
        ) by {}
    }
    if header_chars(value) is Some {
        assert forall|i: int| 0 <= i < value.len() implies (#[trigger] value[i] == 9 || 32
            <= value[i] <= 126) by {
            assert(is_visible_ascii(value[i]));
        }
    }
}

/// The view of an optional text shows whether there is one, and all of it.
pub proof fn law_an_optional_text_is_shown_whole(text: String, value: &[u8])
    ensures
        text_view(Some(text)) == Some(text@),
        text_view(None) is None,
        header_view(Some(value)) == Some(value@),
        header_view(None) is None,
{
}

} // verus!
