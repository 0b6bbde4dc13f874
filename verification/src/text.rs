//! Byte-level text handling: prefixes, splitting, lines, decimal numbers.
//!
//! Text that reaches this crate is UTF-8. Every separator the crate looks
//! for is an ASCII byte, and an ASCII byte never occurs inside the encoding
//! of another character, so all splitting is stated and done on bytes.

use vstd::prelude::*;
use vstd::string::StringSliceAdditionalSpecFns;
use vstd::utf8::*;

verus! {

/// The line feed byte.
pub const LINE_FEED: u8 = 10;

/// The carriage return byte.
pub const CARRIAGE_RETURN: u8 = 13;

/// The byte `+`.
pub const PLUS: u8 = 43;

/// The byte `0`, the first of the digits.
pub const DIGIT_ZERO: u8 = 48;

/// The byte `9`, the last of the digits.
pub const DIGIT_NINE: u8 = 57;

/// The texts of a sequence of strings, in order.
pub open spec fn words(strings: Seq<String>) -> Seq<Seq<char>> {
    strings.map_values(|s: String| s@)
}

/// Whether `bytes` starts with `prefix`.
pub fn starts_with(bytes: &[u8], prefix: &[u8]) -> (found: bool)
    ensures
        found == prefix@.is_prefix_of(bytes@),
{
    if prefix.len() > bytes.len() {
        return false;
    }
    let mut i: usize = 0;
    while i < prefix.len()
        invariant
            i <= prefix.len() <= bytes.len(),
            prefix@.subrange(0, i as int) == bytes@.subrange(0, i as int),
        decreases prefix.len() - i,
    {
        if prefix[i] != bytes[i] {
            assert(prefix@[i as int] != bytes@.subrange(0, prefix@.len() as int)[i as int]);
            return false;
        }
        assert(prefix@.subrange(0, i + 1) =~= prefix@.subrange(0, i as int).push(
            prefix@[i as int],
        ));
        assert(bytes@.subrange(0, i + 1) =~= bytes@.subrange(0, i as int).push(bytes@[i as int]));
        i += 1;
    }
    assert(prefix@ =~= prefix@.subrange(0, i as int));
    true
}

/// Whether `a` and `b` hold the same bytes.
pub fn same_bytes(a: &[u8], b: &[u8]) -> (same: bool)
    ensures
        same == (a@ == b@),
{
    if a.len() != b.len() {
        return false;
    }
    let found = starts_with(a, b);
    proof {
        if found {
            assert(a@ =~= a@.subrange(0, b@.len() as int));
        }
    }
    found
}

/// The pieces of `s` between occurrences of `sep`.
///
/// There is always one piece more than there are separators: a separator at
/// either end, or two in a row, gives an empty piece.
pub open spec fn split_on(s: Seq<u8>, sep: u8) -> Seq<Seq<u8>>
    decreases s.len(),
{
    if s.len() == 0 {
        seq![Seq::<u8>::empty()]
    } else {
        let before = split_on(s.drop_last(), sep);
        if s.last() == sep {
            before.push(Seq::<u8>::empty())
        } else {
            before.drop_last().push(before.last().push(s.last()))
        }
    }
}

/// How often `sep` occurs in `bytes`: one less than there are pieces between
/// its occurrences.
pub fn count_separators(bytes: &[u8], sep: u8) -> (count: usize)
    ensures
        count + 1 == split_on(bytes@, sep).len(),
{
    let mut count: usize = 0;
    let mut i: usize = 0;
    assert(bytes@.take(0) =~= Seq::<u8>::empty());
    while i < bytes.len()
        invariant
            count <= i <= bytes.len(),
            count + 1 == split_on(bytes@.take(i as int), sep).len(),
        decreases bytes.len() - i,
    {
        proof {
            assert(bytes@.take(i + 1).drop_last() =~= bytes@.take(i as int));
            assert(bytes@.take(i + 1).last() == bytes@[i as int]);
        }
        if bytes[i] == sep {
            count += 1;
        }
        i += 1;
    }
    assert(bytes@.take(i as int) =~= bytes@);
    count
}

/// Whether `spans` are the places of the pieces of `s` between occurrences
/// of `sep`: each span is the half-open byte range of one piece, in order.
#[verifier::opaque]
pub open spec fn spans_split(s: Seq<u8>, sep: u8, spans: Seq<(usize, usize)>) -> bool {
    &&& spans.len() == split_on(s, sep).len()
    &&& spans.len() > 0
    &&& spans[0].0 == 0
    &&& spans.last().1 == s.len()
    &&& forall|k: int|
        0 <= k < spans.len() ==> {
            &&& (#[trigger] spans[k]).0 <= spans[k].1 <= s.len()
            &&& s.subrange(spans[k].0 as int, spans[k].1 as int) == split_on(s, sep)[k]
        }
    &&& forall|k: int|
        0 <= k < spans.len() - 1 ==> {
            &&& s[(#[trigger] spans[k]).1 as int] == sep
            &&& spans[k + 1].0 == spans[k].1 + 1
        }
}

/// There is one span for each piece, and at least one.
pub proof fn lemma_spans_count(s: Seq<u8>, sep: u8, spans: Seq<(usize, usize)>)
    requires
        spans_split(s, sep, spans),
    ensures
        spans.len() == split_on(s, sep).len(),
        spans.len() > 0,
{
    reveal(spans_split);
}

/// The places of the pieces of `bytes` between occurrences of `sep`.
pub fn split_spans(bytes: &[u8], sep: u8) -> (spans: Vec<(usize, usize)>)
    ensures
        spans_split(bytes@, sep, spans@),
{
    let mut spans: Vec<(usize, usize)> = Vec::new();
    let mut start: usize = 0;
    let mut i: usize = 0;
    assert(bytes@.take(0) =~= Seq::<u8>::empty());
    while i < bytes.len()
        invariant
            start <= i <= bytes.len(),
            split_on(bytes@.take(i as int), sep).len() == spans.len() + 1,
            split_on(bytes@.take(i as int), sep).last() == bytes@.subrange(start as int, i as int),
            spans.len() == 0 ==> start == 0,
            spans.len() > 0 ==> spans[0].0 == 0 && start == spans@.last().1 + 1,
            forall|k: int|
                0 <= k < spans.len() ==> {
                    &&& (#[trigger] spans[k]).0 <= spans[k].1 < i
                    &&& bytes@[spans[k].1 as int] == sep
                    &&& bytes@.subrange(spans[k].0 as int, spans[k].1 as int) == split_on(
                        bytes@.take(i as int),
                        sep,
                    )[k]
                },
            forall|k: int|
                0 <= k < spans.len() - 1 ==> (#[trigger] spans[k + 1]).0 == spans[k].1 + 1,
        decreases bytes.len() - i,
    {
        let ghost before = split_on(bytes@.take(i as int), sep);
        let ghost old_spans = spans@;
        proof {
            assert(bytes@.take(i + 1).drop_last() =~= bytes@.take(i as int));
            assert(bytes@.take(i + 1).last() == bytes@[i as int]);
        }
        if bytes[i] == sep {
            spans.push((start, i));
            start = i + 1;
            proof {
                let after = split_on(bytes@.take(i + 1), sep);
                assert(after == before.push(Seq::<u8>::empty()));
                assert(bytes@.subrange(start as int, i + 1) =~= Seq::<u8>::empty());
                assert forall|k: int| 0 <= k < spans.len() implies {
                    &&& (#[trigger] spans[k]).0 <= spans[k].1 < i + 1
                    &&& bytes@[spans[k].1 as int] == sep
                    &&& bytes@.subrange(spans[k].0 as int, spans[k].1 as int) == after[k]
                } by {
                    if k < old_spans.len() {
                        assert(spans[k] == old_spans[k]);
                        assert(after[k] == before[k]);
                    }
                }
                assert forall|k: int| 0 <= k < spans.len() - 1 implies (#[trigger] spans[k + 1]).0
                    == spans[k].1 + 1 by {
                    if k + 1 < old_spans.len() {
                        assert(spans[k + 1] == old_spans[k + 1]);
                        assert(spans[k] == old_spans[k]);
                    }
                }
            }
        } else {
            proof {
                let after = split_on(bytes@.take(i + 1), sep);
                assert(after == before.drop_last().push(before.last().push(bytes@[i as int])));
                assert(bytes@.subrange(start as int, i + 1) =~= bytes@.subrange(
                    start as int,
                    i as int,
                ).push(bytes@[i as int]));
                assert forall|k: int| 0 <= k < spans.len() implies {
                    &&& (#[trigger] spans[k]).0 <= spans[k].1 < i + 1
                    &&& bytes@[spans[k].1 as int] == sep
                    &&& bytes@.subrange(spans[k].0 as int, spans[k].1 as int) == after[k]
                } by {
                    assert(after[k] == before[k]);
                }
            }
        }
        i += 1;
    }
    proof {
        assert(bytes@.take(i as int) =~= bytes@);
    }
    let ghost old_spans = spans@;
    spans.push((start, i));
    proof {
        reveal(spans_split);
        let pieces = split_on(bytes@, sep);
        assert forall|k: int| 0 <= k < spans.len() implies {
            &&& (#[trigger] spans[k]).0 <= spans[k].1 <= bytes@.len()
            &&& bytes@.subrange(spans[k].0 as int, spans[k].1 as int) == pieces[k]
        } by {
            if k < old_spans.len() {
                assert(spans[k] == old_spans[k]);
            }
        }
        assert forall|k: int| 0 <= k < spans.len() - 1 implies {
            &&& bytes@[(#[trigger] spans[k]).1 as int] == sep
            &&& spans[k + 1].0 == spans[k].1 + 1
        } by {
            assert(spans[k] == old_spans[k]);
            if k + 1 < old_spans.len() {
                assert(spans[k + 1] == old_spans[k + 1]);
            }
        }
    }
    spans
}

/// Whether the byte is an ASCII character.
pub open spec fn is_ascii_byte(b: u8) -> bool {
    b < 0x80
}

/// A character of valid UTF-8 text starts at `i`, or the text ends there, if
/// the byte at `i` or the byte before it is ASCII.
pub proof fn lemma_boundary_next_to_ascii(bytes: Seq<u8>, i: int)
    requires
        valid_utf8(bytes),
        0 <= i <= bytes.len(),
        i == 0 || i == bytes.len() || is_ascii_byte(bytes[i]) || is_ascii_byte(bytes[i - 1]),
    ensures
        is_char_boundary(bytes, i),
{
    is_char_boundary_start_end_of_seq(bytes);
    if 0 < i < bytes.len() {
        if !is_ascii_byte(bytes[i]) {
            is_char_boundary_iff_not_is_continuation_byte(bytes, i - 1);
            valid_utf8_split(bytes, i - 1);
            let tail = bytes.subrange(i - 1, bytes.len() as int);
            assert(tail[0] == bytes[i - 1]);
            assert(length_of_first_scalar(tail) == 1);
            let rest = pop_first_scalar(tail);
            assert(valid_utf8(tail));
            assert(valid_utf8(rest));
            assert(rest.len() > 0);
            assert(valid_first_scalar(rest));
            assert(rest[0] == bytes[i]);
        }
        is_char_boundary_iff_not_is_continuation_byte(bytes, i);
    }
}

/// The bytes of a string are valid UTF-8.
pub proof fn lemma_str_is_utf8(s: &str)
    ensures
        valid_utf8(s.spec_bytes()),
{
    encode_utf8_valid_utf8(s@);
}

/// The part of `text` from byte `from` up to byte `to`.
pub(crate) fn slice_str<'a>(text: &'a str, from: usize, to: usize) -> (part: &'a str)
    requires
        from <= to <= text.spec_bytes().len(),
        is_char_boundary(text.spec_bytes(), from as int),
        is_char_boundary(text.spec_bytes(), to as int),
    ensures
        part.spec_bytes() == text.spec_bytes().subrange(from as int, to as int),
{
    let (head, _) = text.split_at(to);
    proof {
        let bytes = text.spec_bytes();
        lemma_str_is_utf8(text);
        lemma_str_is_utf8(head);
        if from < to {
            is_char_boundary_iff_not_is_continuation_byte(bytes, from as int);
            assert(head.spec_bytes()[from as int] == bytes[from as int]);
            is_char_boundary_iff_not_is_continuation_byte(head.spec_bytes(), from as int);
        } else {
            is_char_boundary_start_end_of_seq(head.spec_bytes());
        }
    }
    let (_, part) = head.split_at(from);
    assert(part.spec_bytes() =~= text.spec_bytes().subrange(from as int, to as int));
    part
}

/// `std::str::from_utf8`: the bytes as text, if they are valid UTF-8, and
/// nothing otherwise. The text returned has exactly the bytes given.
#[verifier::external_body]
pub(crate) fn decode_utf8_text(bytes: &[u8]) -> (text: Option<&str>)
    ensures
        text is Some <==> valid_utf8(bytes@),
        text is Some ==> text.unwrap().spec_bytes() == bytes@,
{
    std::str::from_utf8(bytes).ok()
}

/// The line without the carriage return at its end, if it has one.
pub open spec fn strip_carriage_return(line: Seq<u8>) -> Seq<u8> {
    if line.len() > 0 && line.last() == CARRIAGE_RETURN {
        line.drop_last()
    } else {
        line
    }
}

/// The lines of a text.
///
/// A line ends at a line feed; a carriage return just before that line feed
/// belongs to the line ending too. What follows the last line feed is a line
/// of its own unless it is empty, and it keeps a carriage return at its end.
pub open spec fn lines_of(s: Seq<u8>) -> Seq<Seq<u8>> {
    let pieces = split_on(s, LINE_FEED);
    let ended = pieces.drop_last().map_values(|piece: Seq<u8>| strip_carriage_return(piece));
    if pieces.last().len() == 0 {
        ended
    } else {
        ended.push(pieces.last())
    }
}

/// The bytes of each text of a sequence, in order.
pub open spec fn bytes_of(texts: Seq<&str>) -> Seq<Seq<u8>> {
    texts.map_values(|text: &str| text.spec_bytes())
}

/// The piece of `text` that the span at index `k` stands for.
pub(crate) fn piece_at<'a>(
    text: &'a str,
    spans: &Vec<(usize, usize)>,
    k: usize,
    sep: u8,
) -> (piece: &'a str)
    requires
        is_ascii_byte(sep),
        spans_split(text.spec_bytes(), sep, spans@),
        k < spans.len(),
    ensures
        piece.spec_bytes() == split_on(text.spec_bytes(), sep)[k as int],
{
    proof {
        reveal(spans_split);
    }
    let (start, end) = spans[k];
    proof {
        let bytes = text.spec_bytes();
        lemma_str_is_utf8(text);
        if k > 0 {
            assert(spans@[k - 1].1 + 1 == spans@[k as int].0);
            assert(bytes[spans@[k - 1].1 as int] == sep);
        }
        if k < spans.len() - 1 {
            assert(bytes[spans@[k as int].1 as int] == sep);
        }
        lemma_boundary_next_to_ascii(bytes, start as int);
        lemma_boundary_next_to_ascii(bytes, end as int);
    }
    slice_str(text, start, end)
}

/// The line without the carriage return at its end, if it has one.
pub fn without_carriage_return<'a>(line: &'a str) -> (stripped: &'a str)
    ensures
        stripped.spec_bytes() == strip_carriage_return(line.spec_bytes()),
{
    let bytes = line.as_bytes();
    let len: usize = bytes.len();
    if len > 0 && bytes[len - 1] == CARRIAGE_RETURN {
        proof {
            lemma_str_is_utf8(line);
            lemma_boundary_next_to_ascii(bytes@, 0);
            lemma_boundary_next_to_ascii(bytes@, len - 1);
        }
        let stripped = slice_str(line, 0, len - 1);
        assert(stripped.spec_bytes() =~= line.spec_bytes().drop_last());
        stripped
    } else {
        line
    }
}

/// The lines of `text`, in order, each without its line ending.
pub fn split_lines<'a>(text: &'a str) -> (lines: Vec<&'a str>)
    ensures
        bytes_of(lines@) == lines_of(text.spec_bytes()),
{
    let spans = split_spans(text.as_bytes(), LINE_FEED);
    let ghost pieces = split_on(text.spec_bytes(), LINE_FEED);
    let ghost ended = pieces.drop_last().map_values(|piece: Seq<u8>| strip_carriage_return(piece));
    let mut lines: Vec<&'a str> = Vec::new();
    proof {
        lemma_spans_count(text.spec_bytes(), LINE_FEED, spans@);
    }
    let last: usize = spans.len() - 1;
    let mut k: usize = 0;
    while k < last
        invariant
            k <= last,
            last == spans.len() - 1,
            spans.len() == pieces.len(),
            spans_split(text.spec_bytes(), LINE_FEED, spans@),
            pieces == split_on(text.spec_bytes(), LINE_FEED),
            ended == pieces.drop_last().map_values(|piece: Seq<u8>| strip_carriage_return(piece)),
            bytes_of(lines@) == ended.take(k as int),
        decreases last - k,
    {
        let line = without_carriage_return(piece_at(text, &spans, k, LINE_FEED));
        proof {
            assert(line.spec_bytes() == ended[k as int]);
            assert(ended.take(k + 1) =~= ended.take(k as int).push(ended[k as int]));
            assert(bytes_of(lines@.push(line)) =~= bytes_of(lines@).push(line.spec_bytes()));
        }
        lines.push(line);
        k += 1;
    }
    let rest = piece_at(text, &spans, last, LINE_FEED);
    proof {
        assert(ended.take(k as int) =~= ended);
        assert(rest.spec_bytes() == pieces.last());
    }
    if rest.as_bytes().len() > 0 {
        proof {
            assert(bytes_of(lines@.push(rest)) =~= bytes_of(lines@).push(rest.spec_bytes()));
        }
        lines.push(rest);
    }
    lines
}

/// Whether the byte is one of the ASCII digits `0` to `9`.
pub open spec fn is_digit(b: u8) -> bool {
    DIGIT_ZERO <= b <= DIGIT_NINE
}

/// The value of a digit; zero for any other byte.
pub open spec fn digit_value(b: u8) -> nat {
    if is_digit(b) {
        (b - DIGIT_ZERO) as nat
    } else {
        0
    }
}

/// The number that a sequence of digits writes in base ten.
pub open spec fn digits_value(digits: Seq<u8>) -> nat
    decreases digits.len(),
{
    if digits.len() == 0 {
        0
    } else {
        digits_value(digits.drop_last()) * 10 + digit_value(digits.last())
    }
}

/// Whether every byte is an ASCII digit.
pub open spec fn all_digits(digits: Seq<u8>) -> bool {
    forall|i: int| 0 <= i < digits.len() ==> is_digit(#[trigger] digits[i])
}

/// The text without one plus sign at its start, if it has one.
pub open spec fn without_plus(s: Seq<u8>) -> Seq<u8> {
    if s.len() > 0 && s[0] == PLUS {
        s.drop_first()
    } else {
        s
    }
}

/// The unsigned 32-bit number that a text writes in base ten.
///
/// The text is one optional plus sign followed by one or more ASCII digits
/// and nothing else; a text of any other form, or one whose number exceeds
/// `u32::MAX`, writes no number.
pub open spec fn decimal_u32(s: Seq<u8>) -> Option<u32> {
    let digits = without_plus(s);
    if digits.len() > 0 && all_digits(digits) && digits_value(digits) <= u32::MAX {
        Some(digits_value(digits) as u32)
    } else {
        None
    }
}

/// A number written with more digits is no smaller than the number written
/// by the first of them.
pub proof fn lemma_digits_value_grows(digits: Seq<u8>, k: int)
    requires
        0 <= k <= digits.len(),
    ensures
        digits_value(digits.take(k)) <= digits_value(digits),
    decreases digits.len(),
{
    if k == digits.len() {
        assert(digits.take(k) =~= digits);
    } else {
        lemma_digits_value_grows(digits.drop_last(), k);
        assert(digits.drop_last().take(k) =~= digits.take(k));
    }
}

/// Reads an unsigned 32-bit number written in base ten.
pub fn parse_decimal(bytes: &[u8]) -> (number: Option<u32>)
    ensures
        number == decimal_u32(bytes@),
{
    let mut i: usize = 0;
    if bytes.len() > 0 && bytes[0] == PLUS {
        i = 1;
    }
    let first: usize = i;
    let ghost digits = without_plus(bytes@);
    assert(digits =~= bytes@.subrange(first as int, bytes@.len() as int));
    if i == bytes.len() {
        return None;
    }
    let mut value: u64 = 0;
    while i < bytes.len()
        invariant
            first <= i <= bytes.len(),
            first <= 1,
            digits == bytes@.subrange(first as int, bytes@.len() as int),
            digits == without_plus(bytes@),
            all_digits(digits.take(i - first)),
            value == digits_value(digits.take(i - first)),
            value <= u32::MAX,
        decreases bytes.len() - i,
    {
        let b: u8 = bytes[i];
        let ghost seen = digits.take(i - first);
        let ghost more = digits.take(i - first + 1);
        proof {
            assert(more.drop_last() =~= seen);
            assert(more.last() == b);
        }
        if b < DIGIT_ZERO || b > DIGIT_NINE {
            assert(!is_digit(digits[i - first]));
            return None;
        }
        value = value * 10 + (b - DIGIT_ZERO) as u64;
        if value > u32::MAX as u64 {
            proof {
                lemma_digits_value_grows(digits, i - first + 1);
            }
            return None;
        }
        assert(all_digits(more)) by {
            assert forall|j: int| 0 <= j < more.len() implies is_digit(#[trigger] more[j]) by {
                if j < seen.len() {
                    assert(seen[j] == more[j]);
                }
            }
        }
        i += 1;
    }
    assert(digits.take(i - first) =~= digits);
    Some(value as u32)
}

/// Two texts with the same bytes are the same text.
pub proof fn lemma_same_bytes_same_text(a: Seq<char>, b: Seq<char>)
    requires
        encode_utf8(a) == encode_utf8(b),
    ensures
        a == b,
{
    encode_utf8_decode_utf8(a);
    encode_utf8_decode_utf8(b);
}

/// Whether `a` and `b` are the same text.
pub fn same_text(a: &str, b: &str) -> (same: bool)
    ensures
        same == (a@ == b@),
{
    let same = same_bytes(a.as_bytes(), b.as_bytes());
    proof {
        if same {
            lemma_same_bytes_same_text(a@, b@);
        }
    }
    same
}

} // verus!
