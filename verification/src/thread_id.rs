//! The ids of threads: random UUIDs, written with hyphens.
use vstd::prelude::*;

verus! {

/// A UUID.
#[verifier::external_type_specification]
#[verifier::external_body]
pub struct ExUuid(uuid::Uuid);

/// Why a text is no UUID.
#[verifier::external_type_specification]
#[verifier::external_body]
pub struct ExUuidError(uuid::Error);

/// The number that `uuid::Uuid::as_u128` gives for a UUID.
pub uninterp spec fn uuid_bits(id: uuid::Uuid) -> u128;

/// The value of a hexadecimal digit, in either case.
pub open spec fn hex_value(c: char) -> Option<nat> {
    if '0' <= c && c <= '9' {
        Some((c as nat - '0' as nat) as nat)
    } else if 'a' <= c && c <= 'f' {
        Some((c as nat - 'a' as nat + 10) as nat)
    } else if 'A' <= c && c <= 'F' {
        Some((c as nat - 'A' as nat + 10) as nat)
    } else {
        None
    }
}

/// The number that hexadecimal digits spell, the first digit being the highest.
pub open spec fn hex_number(digits: Seq<char>) -> Option<nat>
    decreases digits.len(),
{
    if digits.len() == 0 {
        Some(0)
    } else {
        match (hex_number(digits.drop_last()), hex_value(digits.last())) {
            (Some(high), Some(low)) => Some(high * 16 + low),
            _ => None,
        }
    }
}

/// The hexadecimal digit of a number below sixteen, in lower case.
pub open spec fn hex_digit(n: nat) -> char {
    if n < 10 {
        ('0' as nat + n) as char
    } else {
        ('a' as nat + n - 10) as char
    }
}

/// The lowest `count` hexadecimal digits of a number, the highest first.
pub open spec fn hex_text(n: nat, count: nat) -> Seq<char>
    decreases count,
{
    if count == 0 {
        seq![]
    } else {
        hex_text(n / 16, (count - 1) as nat).push(hex_digit(n % 16))
    }
}

/// The digits of a text that groups them by hyphens as 8-4-4-4-12.
pub open spec fn grouped_digits(text: Seq<char>) -> Option<Seq<char>> {
    if text.len() == 36 && text[8] == '-' && text[13] == '-' && text[18] == '-' && text[23] == '-' {
        Some(
            text.subrange(0, 8) + text.subrange(9, 13) + text.subrange(14, 18) + text.subrange(
                19,
                23,
            ) + text.subrange(24, 36),
        )
    } else {
        None
    }
}

/// An ASCII letter in lower case; any other character as it is.
pub open spec fn ascii_lower(c: char) -> char {
    if 'A' <= c && c <= 'Z' {
        (c as nat + 32) as char
    } else {
        c
    }
}

/// The digits of a UUID's text: 32 of them alone or grouped by hyphens, grouped ones also
/// in braces or behind `urn:uuid:` in any case.
pub open spec fn uuid_digits(text: Seq<char>) -> Option<Seq<char>> {
    if text.len() == 32 {
        Some(text)
    } else if text.len() == 36 {
        grouped_digits(text)
    } else if text.len() == 38 && text[0] == '{' && text[37] == '}' {
        grouped_digits(text.subrange(1, 37))
    } else if text.len() == 45 && (forall|i: int|
        0 <= i < 9 ==> ascii_lower(#[trigger] text[i]) == "urn:uuid:"@[i]) {
        grouped_digits(text.subrange(9, 45))
    } else {
        None
    }
}

/// The number of the UUID that a text spells, `None` where it spells none.
pub open spec fn uuid_number(text: Seq<char>) -> Option<nat> {
    match uuid_digits(text) {
        Some(digits) => hex_number(digits),
        None => None,
    }
}

/// A number of 128 bits in lower-case hexadecimal, grouped by hyphens as 8-4-4-4-12.
pub open spec fn hyphenated_text(bits: u128) -> Seq<char> {
    let digits = hex_text(bits as nat, 32);
    digits.subrange(0, 8) + seq!['-'] + digits.subrange(8, 12) + seq!['-'] + digits.subrange(12, 16)
        + seq!['-'] + digits.subrange(16, 20) + seq!['-'] + digits.subrange(20, 32)
}

/// `uuid::Uuid::as_u128`: the number of a UUID, called [`uuid_bits`].
pub assume_specification[ uuid::Uuid::as_u128 ](id: &uuid::Uuid) -> (bits: u128)
    ensures
        bits == uuid_bits(*id),
;

/// `uuid::Uuid::from_u128`: the UUID with the given number.
pub assume_specification[ uuid::Uuid::from_u128 ](v: u128) -> (id: uuid::Uuid)
    ensures
        uuid_bits(id) == v,
;

/// `uuid::Uuid::parse_str`: reads each of the four ways in which [`uuid_digits`] lets a
/// UUID be written, and refuses every other text.
pub assume_specification[ uuid::Uuid::parse_str ](input: &str) -> (res: Result<
    uuid::Uuid,
    uuid::Error,
>)
    ensures
        match res {
            Ok(id) => uuid_number(input@) == Some(uuid_bits(id) as nat),
            Err(_) => uuid_number(input@) is None,
        },
;

/// `uuid::Uuid::new_v4`: a random UUID. Nothing is said of its random bits; the four bits
/// of the version are 4, the two bits of the variant are binary 10.
pub assume_specification[ uuid::Uuid::new_v4 ]() -> (id: uuid::Uuid)
    ensures
        is_random_uuid(uuid_bits(id)),
;

/// Whether a number has the version and the variant of a random UUID.
pub open spec fn is_random_uuid(bits: u128) -> bool {
    (bits >> 76) & 0xf == 4 && (bits >> 62) & 3 == 2
}

/// `to_string` on the result of `uuid::Uuid::hyphenated`: the lower-case digits of the
/// UUID's number, grouped by hyphens.
#[verifier::external_body]
pub(crate) fn hyphenated_uuid(id: &uuid::Uuid) -> (text: String)
    ensures
        text@ == hyphenated_text(uuid_bits(*id)),
{
    id.hyphenated().to_string()
}

/// The id of a thread.
#[derive(Clone, Copy, PartialEq, Eq, Hash, Debug, Structural)]
pub struct ThreadId {
    /// The number of the UUID.
    pub bits: u128,
}

/// A text that is no thread id.
#[derive(Debug, PartialEq, Eq)]
pub struct InvalidThreadId {
    pub reason: uuid::Error,
}

impl ThreadId {
    /// A new random id.
    pub fn new() -> (id: Self)
        ensures
            is_random_uuid(id.bits),
    {
        Self::from_uuid(uuid::Uuid::new_v4())
    }

    pub fn from_uuid(uuid: uuid::Uuid) -> (id: Self)
        ensures
            id.bits == uuid_bits(uuid),
    {
        ThreadId { bits: uuid.as_u128() }
    }

    pub fn as_uuid(&self) -> (uuid: uuid::Uuid)
        ensures
            uuid_bits(uuid) == self.bits,
    {
        uuid::Uuid::from_u128(self.bits)
    }

    /// Reads an id: any text that spells a UUID.
    pub fn parse(value: &str) -> (res: Result<Self, InvalidThreadId>)
        ensures
            match res {
                Ok(id) => uuid_number(value@) == Some(id.bits as nat),
                Err(_) => uuid_number(value@) is None,
            },
    {
        match uuid::Uuid::parse_str(value) {
            Ok(uuid) => Ok(Self::from_uuid(uuid)),
            Err(reason) => Err(InvalidThreadId { reason }),
        }
    }

    /// The text by which an id is stored and sent.
    pub fn to_key_string(&self) -> (text: String)
        ensures
            text@ == hyphenated_text(self.bits),
    {
        hyphenated_uuid(&self.as_uuid())
    }
}

impl std::str::FromStr for ThreadId {
    type Err = InvalidThreadId;

    fn from_str(value: &str) -> (res: Result<Self, InvalidThreadId>)
        ensures
            match res {
                Ok(id) => uuid_number(value@) == Some(id.bits as nat),
                Err(_) => uuid_number(value@) is None,
            },
    {
        Self::parse(value)
    }
}

proof fn hex_text_len(n: nat, count: nat)
    ensures
        hex_text(n, count).len() == count,
    decreases count,
{
    if count > 0 {
        hex_text_len(n / 16, (count - 1) as nat);
    }
}

/// The number of values that `count` hexadecimal digits can spell.
spec fn hex_limit(count: nat) -> nat
    decreases count,
{
    if count == 0 {
        1
    } else {
        16 * hex_limit((count - 1) as nat)
    }
}

proof fn hex_text_spells(n: nat, count: nat)
    requires
        n < hex_limit(count),
    ensures
        hex_number(hex_text(n, count)) == Some(n),
    decreases count,
{
    if count > 0 {
        let digits = hex_text(n, count);
        hex_text_spells(n / 16, (count - 1) as nat);
        assert(digits.drop_last() =~= hex_text(n / 16, (count - 1) as nat));
        assert(hex_value(hex_digit(n % 16)) == Some(n % 16));
    }
}

/// Reading the text of an id gives the id back.
pub proof fn key_string_reads_back(id: ThreadId)
    ensures
        uuid_number(hyphenated_text(id.bits)) == Some(id.bits as nat),
{
    let digits = hex_text(id.bits as nat, 32);
    let text = hyphenated_text(id.bits);
    hex_text_len(id.bits as nat, 32);
    assert(text.subrange(0, 8) =~= digits.subrange(0, 8));
    assert(text.subrange(9, 13) =~= digits.subrange(8, 12));
    assert(text.subrange(14, 18) =~= digits.subrange(12, 16));
    assert(text.subrange(19, 23) =~= digits.subrange(16, 20));
    assert(text.subrange(24, 36) =~= digits.subrange(20, 32));
    assert(grouped_digits(text) == Some(digits)) by {
        assert(digits.subrange(0, 8) + digits.subrange(8, 12) + digits.subrange(12, 16)
            + digits.subrange(16, 20) + digits.subrange(20, 32) =~= digits);
    }
    assert(hex_limit(32) == 0x1_0000_0000_0000_0000_0000_0000_0000_0000) by {
        reveal_with_fuel(hex_limit, 33);
    }
    hex_text_spells(id.bits as nat, 32);
}

/// Two ids with the same text are the same id.
pub proof fn key_strings_differ(a: ThreadId, b: ThreadId)
    ensures
        hyphenated_text(a.bits) == hyphenated_text(b.bits) ==> a == b,
{
    key_string_reads_back(a);
    key_string_reads_back(b);
}

/// A digit has the same value in either case, and only the sixteen digits have one.
pub proof fn digits_have_values(c: char)
    ensures
        hex_value(c) is Some <==> ('0' <= c && c <= '9') || ('a' <= c && c <= 'f') || ('A' <= c && c
            <= 'F'),
        hex_value(ascii_lower(c)) == hex_value(c),
        hex_value(c) matches Some(n) ==> n < 16 && hex_digit(n) == ascii_lower(c),
{
}

/// Digits spell a number place by place: what stands before the last digit counts sixteen
/// times.
pub proof fn digits_count_by_place(digits: Seq<char>, digit: char)
    ensures
        hex_number(Seq::empty()) == Some(0nat),
        hex_number(digits.push(digit)) is Some <==> hex_number(digits) is Some && hex_value(
            digit,
        ) is Some,
        hex_number(digits.push(digit)) matches Some(n) ==> n == 16 * hex_number(digits)->0
            + hex_value(digit)->0,
{
    assert(digits.push(digit).drop_last() =~= digits);
}

/// A UUID may also be written in braces.
pub proof fn braces_do_not_count(text: Seq<char>)
    requires
        text.len() == 36,
    ensures
        uuid_number(seq!['{'] + text + seq!['}']) == uuid_number(text),
{
    let braced = seq!['{'] + text + seq!['}'];
    assert(braced.subrange(1, 37) =~= text);
}

/// A UUID may also be written behind `urn:uuid:`.
pub proof fn urns_are_read(text: Seq<char>)
    requires
        text.len() == 36,
    ensures
        uuid_number("urn:uuid:"@ + text) == uuid_number(text),
{
    reveal_strlit("urn:uuid:");
    let urn = "urn:uuid:"@ + text;
    assert(urn.subrange(9, 45) =~= text);
    assert forall|i: int| 0 <= i < 9 implies ascii_lower(#[trigger] urn[i]) == "urn:uuid:"@[i] by {
        assert(urn[i] == "urn:uuid:"@[i]);
    }
}

} // verus!
