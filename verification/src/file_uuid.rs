//! File identifiers: 128-bit UUIDs and their textual forms.

use vstd::prelude::*;

verus! {

/// Identifies one stored file. The number is the UUID read as a big-endian
/// 128-bit integer.
#[derive(Clone, Copy, Debug, PartialEq, Eq, Hash, Structural)]
pub struct FileUUID(pub u128);

/// The lower-case hexadecimal digit for a value below sixteen.
pub open spec fn hex_digit(nibble: int) -> char {
    if nibble == 0 { '0' }
    else if nibble == 1 { '1' }
    else if nibble == 2 { '2' }
    else if nibble == 3 { '3' }
    else if nibble == 4 { '4' }
    else if nibble == 5 { '5' }
    else if nibble == 6 { '6' }
    else if nibble == 7 { '7' }
    else if nibble == 8 { '8' }
    else if nibble == 9 { '9' }
    else if nibble == 10 { 'a' }
    else if nibble == 11 { 'b' }
    else if nibble == 12 { 'c' }
    else if nibble == 13 { 'd' }
    else if nibble == 14 { 'e' }
    else { 'f' }
}

/// The value of a hexadecimal digit, in either case; nothing for any other
/// character.
pub open spec fn hex_value(c: char) -> Option<int> {
    if c == '0' { Some(0) }
    else if c == '1' { Some(1) }
    else if c == '2' { Some(2) }
    else if c == '3' { Some(3) }
    else if c == '4' { Some(4) }
    else if c == '5' { Some(5) }
    else if c == '6' { Some(6) }
    else if c == '7' { Some(7) }
    else if c == '8' { Some(8) }
    else if c == '9' { Some(9) }
    else if c == 'a' || c == 'A' { Some(10) }
    else if c == 'b' || c == 'B' { Some(11) }
    else if c == 'c' || c == 'C' { Some(12) }
    else if c == 'd' || c == 'D' { Some(13) }
    else if c == 'e' || c == 'E' { Some(14) }
    else if c == 'f' || c == 'F' { Some(15) }
    else { None }
}

/// The last `count` hexadecimal digits of `value`, in lower case, the most
/// significant first.
pub open spec fn hex_digits(value: nat, count: nat) -> Seq<char>
    decreases count,
{
    if count == 0 {
        Seq::empty()
    } else {
        hex_digits(value / 16, (count - 1) as nat).push(hex_digit((value % 16) as int))
    }
}

/// The number that a row of hexadecimal digits spells; nothing where a
/// character is no such digit.
pub open spec fn hex_number(digits: Seq<char>) -> Option<nat>
    decreases digits.len(),
{
    if digits.len() == 0 {
        Some(0)
    } else {
        match (hex_number(digits.drop_last()), hex_value(digits.last())) {
            (Some(front), Some(last)) => Some((front * 16 + last) as nat),
            _ => None,
        }
    }
}

/// The 36 characters of the lower-case hyphenated form: the 32 hexadecimal
/// digits of the number in groups of 8, 4, 4, 4 and 12, with a hyphen between
/// groups.
pub open spec fn hyphenated_lower(value: u128) -> Seq<char> {
    let digits = hex_digits(value as nat, 32);
    digits.subrange(0, 8) + seq!['-'] + digits.subrange(8, 12) + seq!['-'] + digits.subrange(
        12,
        16,
    ) + seq!['-'] + digits.subrange(16, 20) + seq!['-'] + digits.subrange(20, 32)
}

/// The 32 characters that a hyphenated form holds between its hyphens;
/// nothing for a text that is not 36 characters with hyphens at the four
/// places.
pub open spec fn hyphens_removed(text: Seq<char>) -> Option<Seq<char>> {
    if text.len() == 36 && text[8] == '-' && text[13] == '-' && text[18] == '-' && text[23] == '-' {
        Some(
            text.subrange(0, 8) + text.subrange(9, 13) + text.subrange(14, 18) + text.subrange(
                19,
                23,
            ) + text.subrange(24, 36),
        )
    } else {
        None
    }
}

/// Whether nine characters spell `urn:uuid:`, in any mix of cases.
pub open spec fn is_urn_prefix(prefix: Seq<char>) -> bool {
    &&& prefix.len() == 9
    &&& (prefix[0] == 'u' || prefix[0] == 'U')
    &&& (prefix[1] == 'r' || prefix[1] == 'R')
    &&& (prefix[2] == 'n' || prefix[2] == 'N')
    &&& prefix[3] == ':'
    &&& (prefix[4] == 'u' || prefix[4] == 'U')
    &&& (prefix[5] == 'u' || prefix[5] == 'U')
    &&& (prefix[6] == 'i' || prefix[6] == 'I')
    &&& (prefix[7] == 'd' || prefix[7] == 'D')
    &&& prefix[8] == ':'
}

/// The 32 characters that are to be the digits of a UUID, by the form of the
/// text: all of a text of 32 characters; what a hyphenated text holds between
/// its hyphens; the same of a hyphenated text in braces, or behind
/// `urn:uuid:`. Nothing for a text of any other form.
pub open spec fn uuid_digits(text: Seq<char>) -> Option<Seq<char>> {
    if text.len() == 32 {
        Some(text)
    } else if text.len() == 36 {
        hyphens_removed(text)
    } else if text.len() == 38 && text[0] == '{' && text[37] == '}' {
        hyphens_removed(text.subrange(1, 37))
    } else if text.len() == 45 && is_urn_prefix(text.subrange(0, 9)) {
        hyphens_removed(text.subrange(9, 45))
    } else {
        None
    }
}

/// The number of the UUID that a text spells, in any of the four forms and
/// with digits in either case; nothing for a text that spells none.
pub open spec fn parsed_uuid(text: Seq<char>) -> Option<u128> {
    match uuid_digits(text) {
        None => None,
        Some(digits) => match hex_number(digits) {
            None => None,
            Some(number) => Some(number as u128),
        },
    }
}

/// `uuid::Uuid::from_u128` followed by `Hyphenated::encode_lower`: the
/// lower-case hyphenated text of the UUID whose number is `value`.
#[verifier::external_body]
fn uuid_encode_lower(value: u128) -> (text: String)
    ensures
        text@ == hyphenated_lower(value),
{
    uuid::Uuid::from_u128(value).hyphenated().encode_lower(&mut uuid::Uuid::encode_buffer()).to_string()
}

/// `uuid::Uuid::try_parse`, with the parsed UUID handed out as its number
/// (`Uuid::as_u128`), and nothing where the parser rejects the text. The
/// parser reads the simple, the hyphenated, the braced and the URN form,
/// with digits and prefix in either case, and nothing else.
#[verifier::external_body]
fn uuid_try_parse(text: &str) -> (parsed: Option<u128>)
    ensures
        parsed == parsed_uuid(text@),
{
    match uuid::Uuid::try_parse(text) {
        Ok(uuid) => Some(uuid.as_u128()),
        Err(_) => None,
    }
}

/// Sixteen to the power `exponent`.
pub open spec fn pow16(exponent: nat) -> nat
    decreases exponent,
{
    if exponent == 0 {
        1
    } else {
        16 * pow16((exponent - 1) as nat)
    }
}

/// The digits of a number, as many as it needs or more, spell the number.
pub proof fn lemma_hex_round_trip(value: nat, count: nat)
    requires
        value < pow16(count),
    ensures
        hex_digits(value, count).len() == count,
        hex_number(hex_digits(value, count)) == Some(value),
    decreases count,
{
    if count > 0 {
        lemma_hex_round_trip(value / 16, (count - 1) as nat);
        let digits = hex_digits(value, count);
        assert(digits.drop_last() == hex_digits(value / 16, (count - 1) as nat));
        assert(hex_value(digits.last()) == Some((value % 16) as int));
    }
}

/// The hyphenated text of a UUID is read back as the same UUID.
pub proof fn lemma_uuid_round_trip(value: u128)
    ensures
        hyphenated_lower(value).len() == 36,
        parsed_uuid(hyphenated_lower(value)) == Some(value),
{
    assert(pow16(32) == 0x1_0000_0000_0000_0000_0000_0000_0000_0000) by {
        reveal_with_fuel(pow16, 33);
    }
    lemma_hex_round_trip(value as nat, 32);
    let digits = hex_digits(value as nat, 32);
    let text = hyphenated_lower(value);
    assert(text.len() == 36);
    assert(text[8] == '-' && text[13] == '-' && text[18] == '-' && text[23] == '-');
    assert(hyphens_removed(text) == Some(digits)) by {
        assert(text.subrange(0, 8) + text.subrange(9, 13) + text.subrange(14, 18) + text.subrange(
            19,
            23,
        ) + text.subrange(24, 36) =~= digits);
    }
}

impl FileUUID {
    /// The lower-case hyphenated text of this identifier, as it names the
    /// blob on disk and travels in envelopes. `try_parse` reads it back as
    /// the same identifier.
    pub fn hyphenated(&self) -> (text: String)
        ensures
            text@ == hyphenated_lower(self.0),
            parsed_uuid(text@) == Some(self.0),
    {
        proof {
            lemma_uuid_round_trip(self.0);
        }
        uuid_encode_lower(self.0)
    }

    /// Reads an identifier from a text in the simple, the hyphenated, the
    /// braced or the URN form. Returns nothing, and only then, where the text
    /// is of none of these forms.
    pub fn try_parse(text: &str) -> (parsed: Option<FileUUID>)
        ensures
            parsed == match parsed_uuid(text@) {
                Some(value) => Some(FileUUID(value)),
                None => None,
            },
    {
        match uuid_try_parse(text) {
            Some(value) => Some(FileUUID(value)),
            None => None,
        }
    }
}

} // verus!
