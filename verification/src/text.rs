//! Helpers on text: moving between strings and their characters, and
//! splitting and joining paths at `/`.

use vstd::prelude::*;

verus! {

broadcast use vstd::string::group_string_axioms;

/// The pieces of `path` between its slashes. A path without a slash is one
/// piece; an empty path is one empty piece; a slash at either end, or two in a
/// row, give an empty piece.
pub open spec fn split_segments(path: Seq<char>) -> Seq<Seq<char>>
    decreases path.len(),
{
    if path.len() == 0 {
        seq![Seq::<char>::empty()]
    } else {
        let before = split_segments(path.drop_last());
        if path.last() == '/' {
            before.push(Seq::<char>::empty())
        } else {
            before.drop_last().push(before.last().push(path.last()))
        }
    }
}

/// The pieces put together again, with one slash between neighbours.
pub open spec fn join_segments(segments: Seq<Seq<char>>) -> Seq<char>
    decreases segments.len(),
{
    if segments.len() == 0 {
        Seq::<char>::empty()
    } else if segments.len() == 1 {
        segments[0]
    } else {
        join_segments(segments.drop_last()) + seq!['/'] + segments.last()
    }
}

/// The character sequences held by a vector of character vectors.
pub open spec fn segment_views(segments: Seq<Vec<char>>) -> Seq<Seq<char>> {
    Seq::new(segments.len(), |i: int| segments[i]@)
}

/// The character sequences held by a vector of strings.
pub open spec fn string_views(strings: Seq<String>) -> Seq<Seq<char>> {
    Seq::new(strings.len(), |i: int| strings[i]@)
}

/// `String::push`: appends one character.
#[verifier::external_body]
fn string_push(text: &mut String, c: char)
    ensures
        final(text)@ == old(text)@.push(c),
{
    text.push(c)
}

/// The characters of `text`, in order.
pub fn chars_of(text: &str) -> (chars: Vec<char>)
    ensures
        chars@ == text@,
{
    let mut chars: Vec<char> = Vec::new();
    for c in it: text.chars()
        invariant
            it.seq() == text@,
            chars@ == it.seq().subrange(0, it.index() as int),
    {
        chars.push(c);
    }
    chars
}

/// The string made of `chars[start..end]`.
pub(crate) fn string_of_range(chars: &Vec<char>, start: usize, end: usize) -> (text: String)
    requires
        start <= end <= chars.len(),
    ensures
        text@ == chars@.subrange(start as int, end as int),
{
    let mut text = String::new();
    let mut i: usize = start;
    while i < end
        invariant
            start <= i <= end <= chars.len(),
            text@ == chars@.subrange(start as int, i as int),
        decreases end - i,
    {
        string_push(&mut text, chars[i]);
        i += 1;
    }
    text
}

/// The string made of `chars`.
pub fn string_of(chars: &Vec<char>) -> (text: String)
    ensures
        text@ == chars@,
{
    let text = string_of_range(chars, 0, chars.len());
    assert(chars@.subrange(0, chars.len() as int) == chars@);
    text
}

/// Splits `chars[start..end]` at every slash.
pub(crate) fn split_range(chars: &Vec<char>, start: usize, end: usize) -> (segments: Vec<Vec<char>>)
    requires
        start <= end <= chars.len(),
    ensures
        segment_views(segments@) == split_segments(chars@.subrange(start as int, end as int)),
        segments.len() >= 1,
{
    let mut segments: Vec<Vec<char>> = Vec::new();
    let mut current: Vec<char> = Vec::new();
    let mut i: usize = start;
    assert(chars@.subrange(start as int, start as int) == Seq::<char>::empty());
    assert(segment_views(segments@).push(current@) == seq![Seq::<char>::empty()]);
    while i < end
        invariant
            start <= i <= end <= chars.len(),
            segment_views(segments@).push(current@) == split_segments(
                chars@.subrange(start as int, i as int),
            ),
        decreases end - i,
    {
        let ghost before = chars@.subrange(start as int, i as int);
        let ghost longer = chars@.subrange(start as int, i + 1);
        assert(longer.drop_last() == before);
        assert(longer.last() == chars@[i as int]);
        let ghost done = segment_views(segments@);
        let ghost open = current@;
        let c = chars[i];
        if c == '/' {
            segments.push(current);
            current = Vec::new();
            assert(segment_views(segments@) == done.push(open));
        } else {
            current.push(c);
            assert(segment_views(segments@).push(current@) == done.push(open).drop_last().push(
                done.push(open).last().push(c),
            ));
        }
        i += 1;
    }
    let ghost done = segment_views(segments@);
    segments.push(current);
    assert(segment_views(segments@) == done.push(current@));
    segments
}

/// Joins `segments` with one slash between neighbours.
pub fn join_chars(segments: &Vec<Vec<char>>) -> (joined: Vec<char>)
    ensures
        joined@ == join_segments(segment_views(segments@)),
{
    let mut joined: Vec<char> = Vec::new();
    let mut i: usize = 0;
    while i < segments.len()
        invariant
            i <= segments.len(),
            joined@ == join_segments(segment_views(segments@).subrange(0, i as int)),
        decreases segments.len() - i,
    {
        let ghost before = segment_views(segments@).subrange(0, i as int);
        let ghost longer = segment_views(segments@).subrange(0, i + 1);
        assert(longer.drop_last() == before);
        assert(longer.last() == segments@[i as int]@);
        if i > 0 {
            joined.push('/');
        }
        let segment = &segments[i];
        let ghost head = joined@;
        let mut j: usize = 0;
        while j < segment.len()
            invariant
                j <= segment.len(),
                joined@ == head + segment@.subrange(0, j as int),
            decreases segment.len() - j,
        {
            joined.push(segment[j]);
            j += 1;
        }
        assert(segment@.subrange(0, segment.len() as int) == segment@);
        i += 1;
    }
    assert(segment_views(segments@).subrange(0, segments.len() as int) == segment_views(
        segments@,
    ));
    joined
}

/// The pieces of `path` between its slashes, as strings.
pub fn split_path(path: &str) -> (segments: Vec<String>)
    ensures
        string_views(segments@) == split_segments(path@),
        segments.len() >= 1,
{
    let chars = chars_of(path);
    let pieces = split_range(&chars, 0, chars.len());
    assert(chars@.subrange(0, chars.len() as int) == chars@);
    let mut segments: Vec<String> = Vec::new();
    let mut i: usize = 0;
    while i < pieces.len()
        invariant
            i <= pieces.len(),
            segments.len() == i,
            forall|k: int| 0 <= k < i ==> (#[trigger] segments@[k])@ == pieces@[k]@,
        decreases pieces.len() - i,
    {
        segments.push(string_of(&pieces[i]));
        i += 1;
    }
    assert(string_views(segments@) == segment_views(pieces@));
    segments
}


/// The character of a decimal digit.
pub open spec fn digit_char(digit: int) -> char {
    if digit == 0 { '0' }
    else if digit == 1 { '1' }
    else if digit == 2 { '2' }
    else if digit == 3 { '3' }
    else if digit == 4 { '4' }
    else if digit == 5 { '5' }
    else if digit == 6 { '6' }
    else if digit == 7 { '7' }
    else if digit == 8 { '8' }
    else { '9' }
}

/// The value of a decimal digit; nothing for any other character.
pub open spec fn digit_value(c: char) -> Option<int> {
    if c == '0' { Some(0) }
    else if c == '1' { Some(1) }
    else if c == '2' { Some(2) }
    else if c == '3' { Some(3) }
    else if c == '4' { Some(4) }
    else if c == '5' { Some(5) }
    else if c == '6' { Some(6) }
    else if c == '7' { Some(7) }
    else if c == '8' { Some(8) }
    else if c == '9' { Some(9) }
    else { None }
}

/// The decimal digits of `value`, without leading zeros.
pub open spec fn decimal_digits(value: nat) -> Seq<char>
    decreases value,
{
    if value < 10 {
        seq![digit_char(value as int)]
    } else {
        decimal_digits(value / 10).push(digit_char((value % 10) as int))
    }
}

/// `value` in decimal, with a minus sign in front where it is negative.
pub open spec fn decimal(value: int) -> Seq<char> {
    if value < 0 {
        seq!['-'] + decimal_digits((-value) as nat)
    } else {
        decimal_digits(value as nat)
    }
}

/// The number that a row of decimal digits spells; nothing where a
/// character is no digit. An empty row spells zero.
pub open spec fn digits_number(digits: Seq<char>) -> Option<nat>
    decreases digits.len(),
{
    if digits.len() == 0 {
        Some(0)
    } else {
        match (digits_number(digits.drop_last()), digit_value(digits.last())) {
            (Some(front), Some(last)) => Some((front * 10 + last) as nat),
            _ => None,
        }
    }
}

/// The 64-bit number that `text` spells in decimal: an optional sign, then
/// one digit or more, and nothing else. Nothing where `text` is not of that
/// form or the number does not fit.
pub open spec fn parsed_decimal(text: Seq<char>) -> Option<i64> {
    let signed = text.len() > 0 && (text[0] == '-' || text[0] == '+');
    let digits = if signed { text.subrange(1, text.len() as int) } else { text };
    if digits.len() == 0 {
        None
    } else {
        match digits_number(digits) {
            None => None,
            Some(magnitude) => {
                let value = if text[0] == '-' { -(magnitude as int) } else { magnitude as int };
                if i64::MIN <= value <= i64::MAX {
                    Some(value as i64)
                } else {
                    None
                }
            },
        }
    }
}

fn char_of_digit(digit: u64) -> (c: char)
    requires
        digit < 10,
    ensures
        c == digit_char(digit as int),
{
    if digit == 0 { '0' }
    else if digit == 1 { '1' }
    else if digit == 2 { '2' }
    else if digit == 3 { '3' }
    else if digit == 4 { '4' }
    else if digit == 5 { '5' }
    else if digit == 6 { '6' }
    else if digit == 7 { '7' }
    else if digit == 8 { '8' }
    else { '9' }
}

fn digit_of_char(c: char) -> (digit: Option<u128>)
    ensures
        match digit_value(c) {
            Some(value) => digit == Some(value as u128),
            None => digit is None,
        },
{
    if c == '0' { Some(0) }
    else if c == '1' { Some(1) }
    else if c == '2' { Some(2) }
    else if c == '3' { Some(3) }
    else if c == '4' { Some(4) }
    else if c == '5' { Some(5) }
    else if c == '6' { Some(6) }
    else if c == '7' { Some(7) }
    else if c == '8' { Some(8) }
    else if c == '9' { Some(9) }
    else { None }
}

/// The number in decimal, as `i64::to_string` writes it.
pub fn decimal_of(value: i64) -> (text: String)
    ensures
        text@ == decimal(value as int),
{
    let negative = value < 0;
    let magnitude: u64 = if negative {
        (-(value + 1)) as u64 + 1
    } else {
        value as u64
    };
    // The digits, the last one first.
    let mut backwards: Vec<char> = Vec::new();
    let mut rest: u64 = magnitude;
    assert(decimal_digits(rest as nat) + backwards@.reverse() == decimal_digits(magnitude as nat));
    while rest >= 10
        invariant
            decimal_digits(rest as nat) + backwards@.reverse() == decimal_digits(magnitude as nat),
        decreases rest,
    {
        let ghost before = backwards@;
        let digit = char_of_digit(rest % 10);
        backwards.push(digit);
        assert(backwards@.reverse() == seq![digit] + before.reverse());
        assert(decimal_digits(rest as nat) == decimal_digits((rest / 10) as nat).push(digit));
        assert(decimal_digits((rest / 10) as nat).push(digit) + before.reverse() == decimal_digits(
            (rest / 10) as nat,
        ) + (seq![digit] + before.reverse()));
        rest = rest / 10;
    }
    let ghost before = backwards@;
    let first = char_of_digit(rest);
    backwards.push(first);
    assert(backwards@.reverse() == seq![first] + before.reverse());
    assert(decimal_digits(rest as nat) == seq![first]);
    let ghost digits = backwards@.reverse();
    assert(digits == decimal_digits(magnitude as nat));
    let mut text = String::new();
    if negative {
        string_push(&mut text, '-');
    }
    let ghost sign = text@;
    let mut left: usize = backwards.len();
    while left > 0
        invariant
            left <= backwards.len(),
            digits == backwards@.reverse(),
            text@ == sign + digits.subrange(0, backwards.len() - left),
        decreases left,
    {
        left -= 1;
        string_push(&mut text, backwards[left]);
        assert(digits.subrange(0, backwards.len() - left) == digits.subrange(
            0,
            backwards.len() - left - 1,
        ).push(backwards@[left as int]));
    }
    assert(digits.subrange(0, backwards.len() as int) == digits);
    assert(sign == if negative { seq!['-'] } else { Seq::<char>::empty() });
    text
}

/// A row that holds a character that is no digit spells no number.
proof fn lemma_non_digit_spoils(digits: Seq<char>, at: int)
    requires
        0 <= at < digits.len(),
        digit_value(digits[at]) is None,
    ensures
        digits_number(digits) is None,
    decreases digits.len(),
{
    if at < digits.len() - 1 {
        lemma_non_digit_spoils(digits.drop_last(), at);
    }
}

/// A row of digits spells at least what any of its beginnings spells.
proof fn lemma_number_grows(digits: Seq<char>, upto: int)
    requires
        0 <= upto <= digits.len(),
        digits_number(digits) is Some,
    ensures
        digits_number(digits.subrange(0, upto)) is Some,
        digits_number(digits.subrange(0, upto))->0 <= digits_number(digits)->0,
    decreases digits.len() - upto,
{
    if upto == digits.len() {
        assert(digits.subrange(0, upto) == digits);
    } else {
        lemma_number_grows(digits, upto + 1);
        assert(digits.subrange(0, upto + 1).drop_last() == digits.subrange(0, upto));
    }
}

/// Reads a 64-bit number in decimal, as `str::parse::<i64>` reads it: an
/// optional sign, then one digit or more, and nothing else.
pub fn parse_decimal(text: &str) -> (value: Option<i64>)
    ensures
        value == parsed_decimal(text@),
{
    let chars = chars_of(text);
    let signed = chars.len() > 0 && (chars[0] == '-' || chars[0] == '+');
    let negative = chars.len() > 0 && chars[0] == '-';
    let start: usize = if signed { 1 } else { 0 };
    if chars.len() == start {
        return None;
    }
    let ghost digits = chars@.subrange(start as int, chars.len() as int);
    assert(digits == if signed { text@.subrange(1, text@.len() as int) } else { text@ });
    let limit: u128 = if negative { 0x8000_0000_0000_0000 } else { 0x7fff_ffff_ffff_ffff };
    let mut number: u128 = 0;
    let mut i: usize = start;
    assert(digits.subrange(0, 0) == Seq::<char>::empty());
    while i < chars.len()
        invariant
            start <= i <= chars.len(),
            start < chars.len(),
            chars@ == text@,
            signed == (text@.len() > 0 && (text@[0] == '-' || text@[0] == '+')),
            negative == (text@.len() > 0 && text@[0] == '-'),
            digits == if signed { text@.subrange(1, text@.len() as int) } else { text@ },
            digits == chars@.subrange(start as int, chars.len() as int),
            digits_number(digits.subrange(0, i - start)) == Some(number as nat),
            number <= limit,
            limit == if negative { 0x8000_0000_0000_0000u128 } else { 0x7fff_ffff_ffff_ffffu128 },
        decreases chars.len() - i,
    {
        let ghost longer = digits.subrange(0, i - start + 1);
        assert(longer.drop_last() == digits.subrange(0, i - start));
        assert(longer.last() == chars@[i as int]);
        match digit_of_char(chars[i]) {
            None => {
                proof {
                    lemma_non_digit_spoils(digits, i - start);
                }
                return None;
            },
            Some(digit) => {
                let next = number * 10 + digit;
                if next > limit {
                    proof {
                        if digits_number(digits) is Some {
                            lemma_number_grows(digits, i - start + 1);
                        }
                    }
                    return None;
                }
                number = next;
            },
        }
        i += 1;
    }
    assert(digits.subrange(0, chars.len() - start) == digits);
    if negative {
        Some((-(number as i128)) as i64)
    } else {
        Some(number as i64)
    }
}

/// Whether a segment holds no slash.
pub open spec fn slash_free(segment: Seq<char>) -> bool {
    forall|i: int| 0 <= i < segment.len() ==> segment[i] != '/'
}

/// Whether no segment holds a slash.
pub open spec fn all_slash_free(segments: Seq<Seq<char>>) -> bool {
    forall|k: int| 0 <= k < segments.len() ==> slash_free(#[trigger] segments[k])
}

/// Splitting gives at least one segment, and no segment holds a slash.
pub proof fn lemma_split_is_slash_free(path: Seq<char>)
    ensures
        split_segments(path).len() >= 1,
        all_slash_free(split_segments(path)),
    decreases path.len(),
{
    if path.len() > 0 {
        lemma_split_is_slash_free(path.drop_last());
        let before = split_segments(path.drop_last());
        let after = split_segments(path);
        assert forall|k: int| 0 <= k < after.len() implies slash_free(#[trigger] after[k]) by {
            if k < after.len() - 1 {
                assert(after[k] == before[k]);
            } else if path.last() != '/' {
                assert(slash_free(before.last()));
            }
        }
    }
}

/// A path without a slash is one segment.
pub proof fn lemma_split_of_one_segment(segment: Seq<char>)
    requires
        slash_free(segment),
    ensures
        split_segments(segment) == seq![segment],
    decreases segment.len(),
{
    if segment.len() == 0 {
        assert(segment == Seq::<char>::empty());
    } else {
        lemma_split_of_one_segment(segment.drop_last());
        assert(segment.drop_last().push(segment.last()) == segment);
        assert(seq![segment.drop_last()].drop_last().push(segment) == seq![segment]);
    }
}

/// Behind a slash, a stretch without a slash is one more segment.
pub proof fn lemma_split_behind_slash(front: Seq<char>, segment: Seq<char>)
    requires
        slash_free(segment),
    ensures
        split_segments(front + seq!['/'] + segment) == split_segments(front).push(segment),
    decreases segment.len(),
{
    let whole = front + seq!['/'] + segment;
    if segment.len() == 0 {
        assert(whole.drop_last() == front);
        assert(segment == Seq::<char>::empty());
    } else {
        let shorter = segment.drop_last();
        lemma_split_behind_slash(front, shorter);
        assert(whole.drop_last() == front + seq!['/'] + shorter);
        assert(whole.last() == segment.last());
        assert(shorter.push(segment.last()) == segment);
        assert(split_segments(front).push(shorter).drop_last() == split_segments(front));
    }
}

/// Joining segments that hold no slash and splitting again gives the
/// segments back.
pub proof fn lemma_split_of_join(segments: Seq<Seq<char>>)
    requires
        segments.len() >= 1,
        all_slash_free(segments),
    ensures
        split_segments(join_segments(segments)) == segments,
    decreases segments.len(),
{
    if segments.len() == 1 {
        lemma_split_of_one_segment(segments[0]);
        assert(seq![segments[0]] == segments);
    } else {
        let front = segments.drop_last();
        assert forall|k: int| 0 <= k < front.len() implies slash_free(#[trigger] front[k]) by {
            assert(front[k] == segments[k]);
        }
        lemma_split_of_join(front);
        assert(slash_free(segments.last()));
        lemma_split_behind_slash(join_segments(front), segments.last());
        assert(front.push(segments.last()) == segments);
    }
}

/// Joining can start from the left as well: the first segment, a slash, and
/// the rest joined.
pub proof fn lemma_join_from_the_left(segments: Seq<Seq<char>>)
    requires
        segments.len() >= 2,
    ensures
        join_segments(segments) == segments[0] + seq!['/'] + join_segments(
            segments.subrange(1, segments.len() as int),
        ),
    decreases segments.len(),
{
    let rest = segments.subrange(1, segments.len() as int);
    let slash = seq!['/'];
    if segments.len() == 2 {
        assert(segments.drop_last() == seq![segments[0]]);
        assert(rest == seq![segments[1]]);
        assert(join_segments(segments.drop_last()) == segments[0]);
        assert(join_segments(rest) == segments[1]);
        assert(join_segments(segments) == join_segments(segments.drop_last()) + slash
            + segments.last());
    } else {
        let front = segments.drop_last();
        lemma_join_from_the_left(front);
        assert(front.subrange(1, front.len() as int) == rest.drop_last());
        assert(rest.last() == segments.last());
        assert(front[0] == segments[0]);
        let inner = join_segments(rest.drop_last());
        assert(join_segments(front) == segments[0] + slash + inner);
        assert(join_segments(rest) == inner + slash + segments.last());
        assert(join_segments(segments) == join_segments(front) + slash + segments.last());
        assert((segments[0] + slash + inner) + slash + segments.last() == segments[0] + slash + (
        inner + slash + segments.last()));
    }
}


/// The decimal digits of a number spell that number, and start with a digit.
pub proof fn lemma_digits_round_trip(value: nat)
    ensures
        decimal_digits(value).len() >= 1,
        digits_number(decimal_digits(value)) == Some(value),
        digit_value(decimal_digits(value)[0]) is Some,
    decreases value,
{
    let digits = decimal_digits(value);
    if value < 10 {
        assert(digits.drop_last() == Seq::<char>::empty());
        assert(digits_number(digits.drop_last()) == Some(0nat));
        assert(digit_value(digits.last()) == Some(value as int));
    } else {
        lemma_digits_round_trip(value / 10);
        let front = decimal_digits(value / 10);
        assert(digits.drop_last() == front);
        assert(digit_value(digits.last()) == Some((value % 10) as int));
        assert(digits[0] == front[0]);
    }
}

/// A number written in decimal is read back as itself.
pub proof fn lemma_decimal_round_trip(value: i64)
    ensures
        parsed_decimal(decimal(value as int)) == Some(value),
{
    let text = decimal(value as int);
    if value < 0 {
        let magnitude = (-(value as int)) as nat;
        lemma_digits_round_trip(magnitude);
        assert(text[0] == '-');
        assert(text.subrange(1, text.len() as int) == decimal_digits(magnitude));
    } else {
        lemma_digits_round_trip(value as nat);
        assert(text[0] != '-' && text[0] != '+');
    }
}

} // verus!
