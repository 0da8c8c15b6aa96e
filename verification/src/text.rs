//! Text helpers shared by the other modules: comparison, decimal numbers,
//! joining, trimming and prefixes, each stated over sequences of characters.
use vstd::prelude::*;
use vstd::string::{StrSliceExecFns, StringExecFns};

verus! {

/// The characters of each text in a list.
pub open spec fn texts(list: Seq<String>) -> Seq<Seq<char>> {
    list.map_values(|s: String| s@)
}

/// The characters of an optional text.
pub open spec fn optional_text(text: Option<String>) -> Option<Seq<char>> {
    match text {
        Some(s) => Some(s@),
        None => None,
    }
}

/// An optional text without the empty one.
pub open spec fn non_empty(text: Option<Seq<char>>) -> Option<Seq<char>> {
    match text {
        Some(s) => if s.len() == 0 {
            None
        } else {
            Some(s)
        },
        None => None,
    }
}

/// Whether two texts hold the same characters.
pub fn same_text(a: &str, b: &str) -> (same: bool)
    ensures
        same == (a@ == b@),
{
    let left = a.as_bytes();
    let right = b.as_bytes();
    proof {
        vstd::utf8::encode_utf8_decode_utf8(a@);
        vstd::utf8::encode_utf8_decode_utf8(b@);
    }
    if left.len() != right.len() {
        return false;
    }
    let mut i: usize = 0;
    while i < left.len()
        invariant
            i <= left.len(),
            left.len() == right.len(),
            left@ == vstd::utf8::encode_utf8(a@),
            right@ == vstd::utf8::encode_utf8(b@),
            left@.take(i as int) =~= right@.take(i as int),
        decreases left.len() - i,
    {
        if left[i] != right[i] {
            return false;
        }
        i += 1;
    }
    assert(left@ =~= left@.take(i as int));
    assert(right@ =~= right@.take(i as int));
    true
}

/// Whether an optional text is present and equal to `expected`.
pub fn is_text(text: &Option<String>, expected: &str) -> (same: bool)
    ensures
        same == (optional_text(*text) == Some(expected@)),
{
    match text {
        Some(s) => same_text(s.as_str(), expected),
        None => false,
    }
}

/// Drops an optional text that is empty.
pub fn keep_non_empty(text: Option<String>) -> (kept: Option<String>)
    ensures
        optional_text(kept) == non_empty(optional_text(text)),
        kept is Some ==> kept == text,
{
    match text {
        Some(s) => if s.as_str().is_empty() {
            None
        } else {
            Some(s)
        },
        None => None,
    }
}

/// Copies a list of texts.
pub fn copy_texts(list: &Vec<String>) -> (copy: Vec<String>)
    ensures
        copy@ == list@,
{
    let mut copy: Vec<String> = Vec::new();
    let mut i: usize = 0;
    while i < list.len()
        invariant
            i <= list.len(),
            copy@ == list@.take(i as int),
        decreases list.len() - i,
    {
        copy.push(list[i].clone());
        assert(list@.take(i + 1) =~= list@.take(i as int).push(list@[i as int]));
        i += 1;
    }
    assert(list@.take(i as int) =~= list@);
    copy
}

/// The decimal digit of a number below ten.
pub open spec fn digit(n: nat) -> char {
    (48 + n) as char
}

/// A number in decimal, without leading zeros.
pub open spec fn decimal_text(n: nat) -> Seq<char>
    decreases n,
{
    if n < 10 {
        seq![digit(n)]
    } else {
        decimal_text(n / 10).push(digit(n % 10))
    }
}

/// A number that may be missing, as the log lines write it.
pub open spec fn optional_number_text(value: Option<nat>) -> Seq<char> {
    match value {
        Some(n) => decimal_text(n),
        None => "none"@,
    }
}

fn digit_text(n: u64) -> (text: &'static str)
    requires
        n < 10,
    ensures
        text@ == seq![digit(n as nat)],
{
    proof {
        reveal_strlit("0");
        reveal_strlit("1");
        reveal_strlit("2");
        reveal_strlit("3");
        reveal_strlit("4");
        reveal_strlit("5");
        reveal_strlit("6");
        reveal_strlit("7");
        reveal_strlit("8");
        reveal_strlit("9");
    }
    if n == 0 {
        "0"
    } else if n == 1 {
        "1"
    } else if n == 2 {
        "2"
    } else if n == 3 {
        "3"
    } else if n == 4 {
        "4"
    } else if n == 5 {
        "5"
    } else if n == 6 {
        "6"
    } else if n == 7 {
        "7"
    } else if n == 8 {
        "8"
    } else {
        "9"
    }
}

/// Writes a number in decimal.
pub fn decimal(n: u64) -> (text: String)
    ensures
        text@ == decimal_text(n as nat),
    decreases n,
{
    if n < 10 {
        digit_text(n).to_string()
    } else {
        let mut text = decimal(n / 10);
        text.append(digit_text(n % 10));
        assert(text@ =~= decimal_text((n / 10) as nat).push(digit((n % 10) as nat)));
        text
    }
}

/// Two numbers are written alike only if they are equal.
pub proof fn decimal_text_injective(a: nat, b: nat)
    ensures
        decimal_text(a) == decimal_text(b) ==> a == b,
    decreases a,
{
    if decimal_text(a) == decimal_text(b) {
        decimal_text_len(a);
        decimal_text_len(b);
        assert(decimal_text(a).last() == digit(a % 10));
        assert(decimal_text(b).last() == digit(b % 10));
        if a >= 10 && b >= 10 {
            assert(decimal_text(a).drop_last() =~= decimal_text(a / 10));
            assert(decimal_text(b).drop_last() =~= decimal_text(b / 10));
            decimal_text_injective(a / 10, b / 10);
        }
    }
}

proof fn decimal_text_len(n: nat)
    ensures
        n < 10 ==> decimal_text(n).len() == 1,
        n >= 10 ==> decimal_text(n).len() > 1,
    decreases n,
{
    if n >= 10 {
        decimal_text_len(n / 10);
    }
}

/// The texts of a list, with `separator` between neighbours.
pub open spec fn joined(list: Seq<Seq<char>>, separator: Seq<char>) -> Seq<char>
    decreases list.len(),
{
    if list.len() == 0 {
        seq![]
    } else if list.len() == 1 {
        list[0]
    } else {
        joined(list.drop_last(), separator) + separator + list.last()
    }
}

/// Joins texts with a separator between neighbours.
pub fn join(list: &Vec<String>, separator: &str) -> (text: String)
    ensures
        text@ == joined(texts(list@), separator@),
{
    let mut text = String::new();
    let mut i: usize = 0;
    while i < list.len()
        invariant
            i <= list.len(),
            text@ == joined(texts(list@).take(i as int), separator@),
        decreases list.len() - i,
    {
        proof {
            let next = texts(list@).take(i + 1);
            assert(next.drop_last() =~= texts(list@).take(i as int));
            assert(next.last() == list@[i as int]@);
        }
        if i > 0 {
            text.append(separator);
        }
        text.append(list[i].as_str());
        proof {
            if i == 0 {
                assert(text@ =~= list@[0]@);
            }
        }
        i += 1;
    }
    assert(texts(list@).take(i as int) =~= texts(list@));
    text
}

/// The text behind a prefix, or `None` where the text does not start with it.
pub open spec fn without_prefix(text: Seq<char>, prefix: Seq<char>) -> Option<Seq<char>> {
    if prefix.is_prefix_of(text) {
        Some(text.skip(prefix.len() as int))
    } else {
        None
    }
}

/// Takes a prefix off a text.
pub fn strip_prefix<'a>(text: &'a str, prefix: &str) -> (rest: Option<&'a str>)
    ensures
        match rest {
            Some(r) => without_prefix(text@, prefix@) == Some(r@),
            None => without_prefix(text@, prefix@) is None,
        },
{
    let n: usize = prefix.unicode_len();
    let len: usize = text.unicode_len();
    if len < n {
        return None;
    }
    if same_text(text.substring_char(0, n), prefix) {
        assert(prefix@ =~= text@.subrange(0, prefix@.len() as int));
        assert(text@.skip(n as int) =~= text@.subrange(n as int, len as int));
        Some(text.substring_char(n, len))
    } else {
        None
    }
}

/// The characters with the Unicode property `White_Space`.
pub open spec fn is_white_space(c: char) -> bool {
    ||| '\u{9}' <= c <= '\u{d}'
    ||| c == '\u{20}'
    ||| c == '\u{85}'
    ||| c == '\u{a0}'
    ||| c == '\u{1680}'
    ||| '\u{2000}' <= c <= '\u{200a}'
    ||| c == '\u{2028}'
    ||| c == '\u{2029}'
    ||| c == '\u{202f}'
    ||| c == '\u{205f}'
    ||| c == '\u{3000}'
}

/// `char::is_whitespace` of the standard library: it is documented to test for the
/// Unicode property `White_Space`, whose characters [`is_white_space`] lists.
pub assume_specification[ char::is_whitespace ](c: char) -> (white: bool)
    ensures
        white == is_white_space(c),
;

/// A text without leading white space.
pub open spec fn trimmed_start(text: Seq<char>) -> Seq<char>
    decreases text.len(),
{
    if text.len() > 0 && is_white_space(text[0]) {
        trimmed_start(text.drop_first())
    } else {
        text
    }
}

/// A text without trailing white space.
pub open spec fn trimmed_end(text: Seq<char>) -> Seq<char>
    decreases text.len(),
{
    if text.len() > 0 && is_white_space(text.last()) {
        trimmed_end(text.drop_last())
    } else {
        text
    }
}

/// A text without leading and trailing white space.
pub open spec fn trimmed(text: Seq<char>) -> Seq<char> {
    trimmed_end(trimmed_start(text))
}

/// Takes white space off both ends of a text.
pub fn trim<'a>(text: &'a str) -> (rest: &'a str)
    ensures
        rest@ == trimmed(text@),
{
    let len: usize = text.unicode_len();
    let mut from: usize = 0;
    assert(text@.skip(0) =~= text@);
    while from < len && text.get_char(from).is_whitespace()
        invariant
            from <= len,
            len == text@.len(),
            trimmed_start(text@.skip(from as int)) == trimmed_start(text@),
        decreases len - from,
    {
        assert(text@.skip(from as int).drop_first() =~= text@.skip(from + 1));
        from += 1;
    }
    let mut to: usize = len;
    assert(text@.subrange(from as int, len as int) =~= text@.skip(from as int));
    while from < to && text.get_char(to - 1).is_whitespace()
        invariant
            from <= to <= len,
            len == text@.len(),
            trimmed_end(text@.subrange(from as int, to as int)) == trimmed(text@),
        decreases to - from,
    {
        assert(text@.subrange(from as int, to as int).drop_last() =~= text@.subrange(
            from as int,
            to - 1,
        ));
        to -= 1;
    }
    text.substring_char(from, to)
}

/// Each text of a list stands for the text at its place.
pub proof fn texts_stand_in_place(list: Seq<String>)
    ensures
        texts(list).len() == list.len(),
        forall|i: int| 0 <= i < list.len() ==> #[trigger] texts(list)[i] == list[i]@,
{
}

/// A text that may be missing stands for itself.
pub proof fn optional_text_is_the_text(text: String)
    ensures
        optional_text(Some(text)) == Some(text@),
        optional_text(None) is None,
{
}

/// Only an empty text is dropped.
pub proof fn only_empty_texts_are_dropped(text: Option<Seq<char>>)
    ensures
        non_empty(text) is Some ==> non_empty(text) == text,
        non_empty(text) is None <==> (text is None || text->0.len() == 0),
{
}

/// The number that decimal digits write.
pub open spec fn decimal_value(text: Seq<char>) -> nat
    decreases text.len(),
{
    if text.len() == 0 {
        0
    } else {
        decimal_value(text.drop_last()) * 10 + (text.last() as nat - '0' as nat) as nat
    }
}

/// A number is written in decimal digits that give the number back, without leading zeros.
pub proof fn decimal_text_gives_the_number(n: nat)
    ensures
        decimal_value(decimal_text(n)) == n,
        decimal_text(n).len() > 0,
        decimal_text(n).len() > 1 ==> decimal_text(n)[0] != '0',
        forall|i: int|
            0 <= i < decimal_text(n).len() ==> '0' <= #[trigger] decimal_text(n)[i] <= '9',
    decreases n,
{
    if n < 10 {
        assert(decimal_text(n).drop_last() =~= Seq::empty());
        reveal_with_fuel(decimal_value, 2);
    } else {
        decimal_text_gives_the_number(n / 10);
        decimal_text_len(n / 10);
        let before = decimal_text(n / 10);
        assert(decimal_text(n).drop_last() =~= before);
        assert(decimal_text(n)[0] == before[0]);
        if n / 10 < 10 {
            assert(before[0] == digit(n / 10));
        }
        assert forall|i: int| 0 <= i < decimal_text(n).len() implies '0' <= #[trigger] decimal_text(
            n,
        )[i] <= '9' by {
            if i < before.len() {
                assert(decimal_text(n)[i] == before[i]);
            }
        }
    }
}

/// A number that may be missing is written in decimal, or as the word for none.
pub proof fn optional_numbers_are_written(value: Option<nat>)
    ensures
        value matches Some(n) ==> decimal_value(optional_number_text(value)) == n,
        value is None ==> optional_number_text(value) == "none"@,
{
    if let Some(n) = value {
        decimal_text_gives_the_number(n);
    }
}

/// Joining keeps every text, in order, with one separator between neighbours: two lists
/// that are joined each for itself are joined by one more separator.
pub proof fn joining_keeps_every_text(
    first: Seq<Seq<char>>,
    second: Seq<Seq<char>>,
    one: Seq<char>,
    separator: Seq<char>,
)
    ensures
        joined(Seq::empty(), separator) == Seq::<char>::empty(),
        joined(seq![one], separator) == one,
        first.len() > 0 && second.len() > 0 ==> joined(first + second, separator) == joined(
            first,
            separator,
        ) + separator + joined(second, separator),
    decreases second.len(),
{
    if first.len() > 0 && second.len() > 0 {
        let all = first + second;
        assert(all.drop_last() =~= first + second.drop_last());
        assert(all.last() == second.last());
        if second.len() == 1 {
            assert(second.drop_last() =~= Seq::empty());
            assert(all.drop_last() =~= first);
            assert(joined(all, separator) =~= joined(first, separator) + separator + second[0]);
        } else {
            joining_keeps_every_text(first, second.drop_last(), one, separator);
            assert(joined(all, separator) =~= joined(first, separator) + separator + joined(
                second,
                separator,
            ));
        }
    }
}

/// What follows a prefix is what stands behind it, and only a text that begins with the
/// prefix has one.
pub proof fn prefix_and_rest_are_the_text(text: Seq<char>, prefix: Seq<char>, rest: Seq<char>)
    ensures
        without_prefix(text, prefix) == Some(rest) <==> text == prefix + rest,
{
    if text == prefix + rest {
        assert(text.skip(prefix.len() as int) =~= rest);
        assert(prefix =~= text.subrange(0, prefix.len() as int));
    }
    if without_prefix(text, prefix) == Some(rest) {
        assert(prefix + rest =~= text);
    }
}

proof fn trimmed_start_is_the_end(text: Seq<char>) -> (from: int)
    ensures
        0 <= from <= text.len(),
        trimmed_start(text) == text.skip(from),
        forall|i: int| 0 <= i < from ==> is_white_space(#[trigger] text[i]),
        from < text.len() ==> !is_white_space(text[from]),
    decreases text.len(),
{
    if text.len() > 0 && is_white_space(text[0]) {
        let rest = text.drop_first();
        let from = trimmed_start_is_the_end(rest);
        assert(rest.skip(from) =~= text.skip(from + 1));
        assert forall|i: int| 0 <= i < from + 1 implies is_white_space(#[trigger] text[i]) by {
            if i > 0 {
                assert(rest[i - 1] == text[i]);
            }
        }
        if from < rest.len() {
            assert(rest[from] == text[from + 1]);
        }
        from + 1
    } else {
        assert(text.skip(0) =~= text);
        0
    }
}

proof fn trimmed_end_is_the_start(text: Seq<char>) -> (to: int)
    ensures
        0 <= to <= text.len(),
        trimmed_end(text) == text.take(to),
        forall|i: int| to <= i < text.len() ==> is_white_space(#[trigger] text[i]),
        to > 0 ==> !is_white_space(text[to - 1]),
    decreases text.len(),
{
    if text.len() > 0 && is_white_space(text.last()) {
        let rest = text.drop_last();
        let to = trimmed_end_is_the_start(rest);
        assert(rest.take(to) =~= text.take(to));
        assert forall|i: int| to <= i < text.len() implies is_white_space(#[trigger] text[i]) by {
            if i < rest.len() {
                assert(rest[i] == text[i]);
            }
        }
        if to > 0 {
            assert(rest[to - 1] == text[to - 1]);
        }
        to
    } else {
        assert(text.take(text.len() as int) =~= text);
        text.len() as int
    }
}

/// Trimming takes white space off both ends, all of it and nothing else.
pub proof fn trimming_takes_white_space_off(text: Seq<char>)
    ensures
        exists|from: int, to: int|
            #![trigger text.subrange(from, to)]
            0 <= from <= to <= text.len() && trimmed(text) == text.subrange(from, to) && (forall|
                i: int,
            |
                (0 <= i < from || to <= i < text.len()) ==> is_white_space(#[trigger] text[i])),
        trimmed(text).len() > 0 ==> !is_white_space(trimmed(text).first()) && !is_white_space(
            trimmed(text).last(),
        ),
        trimmed(text).len() == 0 <==> (forall|i: int|
            0 <= i < text.len() ==> is_white_space(#[trigger] text[i])),
{
    let from = trimmed_start_is_the_end(text);
    let rest = text.skip(from);
    let count = trimmed_end_is_the_start(rest);
    let to = from + count;
    assert(rest.take(count) =~= text.subrange(from, to));
    assert forall|i: int| (0 <= i < from || to <= i < text.len()) implies is_white_space(
        #[trigger] text[i],
    ) by {
        if i >= to {
            assert(rest[i - from] == text[i]);
        }
    }
    if count > 0 {
        assert(rest[0] == text[from]);
        assert(rest[count - 1] == text[to - 1]);
    }
}

} // verus!
