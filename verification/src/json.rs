//! JSON text: strings as `serde_json` quotes them, integers, and the framing
//! of objects and arrays.

use vstd::prelude::*;

verus! {

/// The lower-case hexadecimal digit of `d`.
pub open spec fn hex_digit(d: int) -> char {
    if d < 10 {
        (48 + d) as char
    } else {
        (87 + d) as char
    }
}

/// How one character is written inside a JSON string: quotes, backslashes and
/// control characters are escaped, all else stands for itself.
pub open spec fn escaped(c: char) -> Seq<char> {
    let code = c as int;
    if c == '"' || c == '\\' {
        seq!['\\', c]
    } else if code == 8 {
        seq!['\\', 'b']
    } else if code == 9 {
        seq!['\\', 't']
    } else if code == 10 {
        seq!['\\', 'n']
    } else if code == 12 {
        seq!['\\', 'f']
    } else if code == 13 {
        seq!['\\', 'r']
    } else if code < 32 {
        seq!['\\', 'u', '0', '0', hex_digit(code / 16), hex_digit(code % 16)]
    } else {
        seq![c]
    }
}

/// `text` as it stands between the quotes of a JSON string.
pub open spec fn escaped_text(text: Seq<char>) -> Seq<char>
    decreases text.len(),
{
    if text.len() == 0 {
        Seq::empty()
    } else {
        escaped_text(text.drop_last()) + escaped(text.last())
    }
}

/// `text` as a JSON string, quotes included.
pub open spec fn quoted(text: Seq<char>) -> Seq<char> {
    seq!['"'] + escaped_text(text) + seq!['"']
}

/// `serde_json::to_string` on a string: the text between quotes, with quotes,
/// backslashes and control characters escaped. It does not fail on a string.
#[verifier::external_body]
pub(crate) fn json_string(text: &str) -> (json: String)
    ensures
        json@ == quoted(text@),
{
    serde_json::to_string(text).expect("a string is always valid JSON")
}

/// The decimal digits of `n`, without leading zeros.
pub open spec fn digits(n: nat) -> Seq<char>
    decreases n,
{
    if n < 10 {
        seq![(48 + n) as char]
    } else {
        digits(n / 10).push((48 + n % 10) as char)
    }
}

/// `n` in decimal, with a minus sign where it is negative.
pub open spec fn decimal(n: int) -> Seq<char> {
    if n < 0 {
        seq!['-'] + digits((-n) as nat)
    } else {
        digits(n as nat)
    }
}

fn write_digits(n: u32, out: &mut String)
    ensures
        final(out)@ == old(out)@ + digits(n as nat),
    decreases n,
{
    if n >= 10 {
        write_digits(n / 10, out);
    }
    let digit: u8 = (n % 10) as u8;
    out.push((48 + digit) as char);
}

/// An integer as JSON.
pub fn json_integer(n: i32) -> (json: String)
    ensures
        json@ == decimal(n as int),
{
    let mut json = String::new();
    if n < 0 {
        json.push('-');
        write_digits((-(n as i64)) as u32, &mut json);
    } else {
        write_digits(n as u32, &mut json);
    }
    json
}

/// Quoting goes character by character between two quotes.
pub proof fn law_quoting_goes_character_by_character(a: Seq<char>, b: Seq<char>, c: char)
    ensures
        escaped_text(Seq::empty()).len() == 0,
        escaped_text(seq![c]) == escaped(c),
        escaped_text(a + b) == escaped_text(a) + escaped_text(b),
        quoted(a) == seq!['"'] + escaped_text(a) + seq!['"'],
    decreases b.len(),
{
    assert(seq![c].drop_last() == Seq::<char>::empty());
    assert(escaped_text(seq![c].drop_last()) == Seq::<char>::empty());
    assert(Seq::<char>::empty() + escaped(c) == escaped(c));
    if b.len() == 0 {
        assert(a + b == a);
        assert(escaped_text(a) + Seq::<char>::empty() == escaped_text(a));
    } else {
        law_quoting_goes_character_by_character(a, b.drop_last(), c);
        assert((a + b).drop_last() == a + b.drop_last());
        assert((a + b).last() == b.last());
        assert(escaped_text(a) + escaped_text(b.drop_last()) + escaped(b.last()) == escaped_text(a)
            + (escaped_text(b.drop_last()) + escaped(b.last())));
    }
}

/// How each character is written: quotes, backslashes and the characters below
/// the space behind a backslash, all others as themselves.
pub proof fn law_how_each_character_is_written(c: char)
    ensures
        c as int >= 32 && c != '"' && c != '\\' ==> escaped(c) == seq![c],
        c == '"' || c == '\\' ==> escaped(c) == seq!['\\', c],
        c as int == 8 ==> escaped(c) == seq!['\\', 'b'],
        c as int == 9 ==> escaped(c) == seq!['\\', 't'],
        c as int == 10 ==> escaped(c) == seq!['\\', 'n'],
        c as int == 12 ==> escaped(c) == seq!['\\', 'f'],
        c as int == 13 ==> escaped(c) == seq!['\\', 'r'],
        (c as int) < 32 && c as int != 8 && c as int != 9 && c as int != 10 && c as int != 12
            && c as int != 13 ==> {
            &&& escaped(c).len() == 6
            &&& escaped(c).take(4) == seq!['\\', 'u', '0', '0']
            &&& escaped(c)[4] as int == 48 + c as int / 16
            &&& c as int % 16 < 10 ==> escaped(c)[5] as int == 48 + c as int % 16
            &&& c as int % 16 >= 10 ==> escaped(c)[5] as int == 87 + c as int % 16
        },
{
}

proof fn lemma_escapes_are_told_apart(c: char, d: char, x: Seq<char>, y: Seq<char>)
    requires
        escaped(c) + x == escaped(d) + y,
    ensures
        c == d,
        x == y,
{
    let left = escaped(c) + x;
    let right = escaped(d) + y;
    law_how_each_character_is_written(c);
    law_how_each_character_is_written(d);
    assert(left[0] == escaped(c)[0] && right[0] == escaped(d)[0]);
    if escaped(c).len() > 1 && escaped(d).len() > 1 {
        assert(left[1] == escaped(c)[1] && right[1] == escaped(d)[1]);
        if escaped(c).len() == 6 && escaped(d).len() == 6 {
            assert(left[4] == escaped(c)[4] && right[4] == escaped(d)[4]);
            assert(left[5] == escaped(c)[5] && right[5] == escaped(d)[5]);
        }
    }
    assert(c == d);
    assert(x == left.skip(escaped(c).len() as int));
    assert(y == right.skip(escaped(d).len() as int));
}

proof fn lemma_escaped_first(text: Seq<char>)
    requires
        text.len() > 0,
    ensures
        escaped_text(text) == escaped(text[0]) + escaped_text(text.drop_first()),
{
    law_quoting_goes_character_by_character(seq![text[0]], text.drop_first(), text[0]);
    assert(seq![text[0]] + text.drop_first() == text);
}

proof fn lemma_escaped_to_its_quote(a: Seq<char>, b: Seq<char>, x: Seq<char>, y: Seq<char>)
    requires
        escaped_text(a) + seq!['"'] + x == escaped_text(b) + seq!['"'] + y,
    ensures
        a == b,
        x == y,
    decreases a.len() + b.len(),
{
    let left = escaped_text(a) + seq!['"'] + x;
    let right = escaped_text(b) + seq!['"'] + y;
    if a.len() > 0 {
        lemma_escaped_first(a);
        assert(left[0] == escaped(a[0])[0]);
    } else {
        assert(left[0] == '"');
        assert(x == left.skip(1));
    }
    if b.len() > 0 {
        lemma_escaped_first(b);
        assert(right[0] == escaped(b[0])[0]);
    } else {
        assert(right[0] == '"');
        assert(y == right.skip(1));
    }
    if a.len() > 0 && b.len() > 0 {
        let more_a = escaped_text(a.drop_first()) + seq!['"'] + x;
        let more_b = escaped_text(b.drop_first()) + seq!['"'] + y;
        assert(left == escaped(a[0]) + more_a);
        assert(right == escaped(b[0]) + more_b);
        lemma_escapes_are_told_apart(a[0], b[0], more_a, more_b);
        lemma_escaped_to_its_quote(a.drop_first(), b.drop_first(), x, y);
        assert(seq![a[0]] + a.drop_first() == a);
        assert(seq![b[0]] + b.drop_first() == b);
    } else {
        assert(a.len() == 0 && b.len() == 0);
        assert(a == b);
    }
}

/// A quoted text can be read back, whatever follows it: where it ends and what
/// it says is told by its characters alone.
pub proof fn law_a_quoted_text_can_be_read_back(
    a: Seq<char>,
    b: Seq<char>,
    x: Seq<char>,
    y: Seq<char>,
)
    requires
        quoted(a) + x == quoted(b) + y,
    ensures
        a == b,
        x == y,
{
    let left = quoted(a) + x;
    let right = quoted(b) + y;
    assert(left.skip(1) == escaped_text(a) + seq!['"'] + x);
    assert(right.skip(1) == escaped_text(b) + seq!['"'] + y);
    lemma_escaped_to_its_quote(a, b, x, y);
}

/// A text of any length without quotes, backslashes and control characters
/// stands between its quotes as it is.
pub proof fn law_a_plain_text_is_quoted_as_it_is(text: Seq<char>)
    requires
        forall|i: int|
            0 <= i < text.len() ==> (#[trigger] text[i]) as int >= 32 && text[i] != '"' && text[i]
                != '\\',
    ensures
        quoted(text) == seq!['"'] + text + seq!['"'],
    decreases text.len(),
{
    if text.len() > 0 {
        law_a_plain_text_is_quoted_as_it_is(text.drop_last());
        let shorter = text.drop_last();
        assert(escaped_text(shorter) == quoted(shorter).subrange(1, quoted(shorter).len() - 1));
        assert(quoted(shorter).subrange(1, quoted(shorter).len() - 1) == shorter);
        assert(escaped(text[text.len() - 1]) == seq![text.last()]);
        assert(shorter + seq![text.last()] == text);
    } else {
        assert(text == Seq::<char>::empty());
    }
}

/// The number that digits stand for, read from the first to the last.
pub open spec fn number_of(digits: Seq<char>) -> int
    decreases digits.len(),
{
    if digits.len() == 0 {
        0
    } else {
        10 * number_of(digits.drop_last()) + (digits.last() as int - 48)
    }
}

proof fn lemma_digits(n: nat)
    ensures
        digits(n).len() > 0,
        forall|i: int| 0 <= i < digits(n).len() ==> 48 <= (#[trigger] digits(n)[i]) as int <= 57,
        n > 0 ==> digits(n)[0] != '0',
        number_of(digits(n)) == n,
    decreases n,
{
    reveal_with_fuel(number_of, 2);
    if n >= 10 {
        lemma_digits(n / 10);
        assert(digits(n).drop_last() == digits(n / 10));
    } else {
        assert(digits(n).drop_last() == Seq::<char>::empty());
    }
}

/// An integer in decimal can be read back: a minus sign where it is negative,
/// then digits alone, without leading zeros, that stand for its size.
pub proof fn law_a_decimal_can_be_read_back(n: int)
    ensures
        n < 0 ==> decimal(n)[0] == '-' && decimal(n).skip(1) == decimal(-n),
        n >= 0 ==> {
            &&& decimal(n).len() > 0
            &&& forall|i: int|
                0 <= i < decimal(n).len() ==> 48 <= (#[trigger] decimal(n)[i]) as int <= 57
            &&& n > 0 ==> decimal(n)[0] != '0'
            &&& n == 0 ==> decimal(n) == seq!['0']
            &&& number_of(decimal(n)) == n
        },
{
    if n >= 0 {
        lemma_digits(n as nat);
    } else {
        assert(decimal(n).skip(1) == digits((-n) as nat));
    }
}

} // verus!
