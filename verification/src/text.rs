//! Bytes, decimal notation and UTF-8 text.

use vstd::prelude::*;
use vstd::string::*;
use vstd::utf8::*;

verus! {

/// Canonical decimal notation of `n`, as ASCII bytes.
pub open spec fn decimal_digits(n: nat) -> Seq<u8>
    decreases n,
{
    if n < 10 {
        seq![(48 + n) as u8]
    } else {
        decimal_digits(n / 10).push((48 + n % 10) as u8)
    }
}

/// Canonical decimal notation of `n`, as characters.
pub open spec fn decimal_chars(n: nat) -> Seq<char>
    decreases n,
{
    if n < 10 {
        seq![(48 + n) as u8 as char]
    } else {
        decimal_chars(n / 10).push((48 + n % 10) as u8 as char)
    }
}

/// Number that a run of ASCII digits denotes.
pub open spec fn decimal_value(digits: Seq<u8>) -> nat
    decreases digits.len(),
{
    if digits.len() == 0 {
        0
    } else {
        decimal_value(digits.drop_last()) * 10 + (digits.last() - 48) as nat
    }
}

/// Whether `byte` is an ASCII digit.
pub open spec fn is_digit(byte: u8) -> bool {
    48 <= byte <= 57
}

/// Whether every byte is an ASCII digit.
pub open spec fn all_digits(bytes: Seq<u8>) -> bool {
    forall|i: int| 0 <= i < bytes.len() ==> is_digit(#[trigger] bytes[i])
}

/// Whether `bytes` is decimal notation without sign or superfluous zero.
pub open spec fn canonical_decimal(bytes: Seq<u8>) -> bool {
    &&& bytes.len() > 0
    &&& all_digits(bytes)
    &&& bytes.len() == 1 || bytes[0] != 48
}

/// Whether `bytes` starts with `prefix`.
pub open spec fn has_prefix(bytes: Seq<u8>, prefix: Seq<u8>) -> bool {
    prefix.len() <= bytes.len() && bytes.subrange(0, prefix.len() as int) == prefix
}

/// Bytes of `bytes` behind its first `count`.
pub open spec fn skip_bytes(bytes: Seq<u8>, count: int) -> Seq<u8> {
    bytes.subrange(count, bytes.len() as int)
}

/// Pieces of `bytes` between the occurrences of `separator`: always one more
/// than there are separators.
pub open spec fn split_on(bytes: Seq<u8>, separator: u8) -> Seq<Seq<u8>>
    decreases bytes.len(),
{
    if bytes.len() == 0 {
        seq![Seq::<u8>::empty()]
    } else {
        let rest = split_on(bytes.drop_last(), separator);
        if bytes.last() == separator {
            rest.push(Seq::<u8>::empty())
        } else {
            rest.update(rest.len() - 1, rest.last().push(bytes.last()))
        }
    }
}

/// Byte strings as values.
pub open spec fn byte_strings(parts: Seq<Vec<u8>>) -> Seq<Seq<u8>> {
    Seq::new(parts.len(), |i: int| parts[i]@)
}

/// Index of the first `byte` in `bytes`, or the length where there is none.
pub open spec fn first_index(bytes: Seq<u8>, byte: u8) -> int
    decreases bytes.len(),
{
    if bytes.len() == 0 || bytes[0] == byte {
        0
    } else {
        1 + first_index(bytes.drop_first(), byte)
    }
}

pub proof fn lemma_decimal_digits_shape(n: nat)
    ensures
        canonical_decimal(decimal_digits(n)),
        decimal_value(decimal_digits(n)) == n,
        n > 0 ==> decimal_digits(n)[0] != 48,
    decreases n,
{
    if n < 10 {
        assert(decimal_digits(n).drop_last() =~= Seq::<u8>::empty());
        assert(decimal_value(decimal_digits(n).drop_last()) == 0);
    } else {
        lemma_decimal_digits_shape(n / 10);
        let front = decimal_digits(n / 10);
        assert(decimal_digits(n).drop_last() =~= front);
        assert(n / 10 > 0);
        assert(decimal_digits(n)[0] == front[0]);
    }
}

/// Canonical digits are the digits of their value.
pub proof fn lemma_canonical_digits(digits: Seq<u8>)
    requires
        canonical_decimal(digits),
    ensures
        decimal_digits(decimal_value(digits)) == digits,
        digits[0] != 48 ==> decimal_value(digits) > 0,
    decreases digits.len(),
{
    let front = digits.drop_last();
    if digits.len() == 1 {
        assert(decimal_value(front) == 0);
        assert(decimal_digits(decimal_value(digits)) =~= digits);
    } else {
        lemma_canonical_digits(front);
        assert(front[0] == digits[0]);
        assert(is_digit(digits[digits.len() - 1]));
        assert(decimal_value(digits) / 10 == decimal_value(front));
        assert(decimal_value(digits) % 10 == digits.last() - 48);
        assert(decimal_digits(decimal_value(digits)) =~= digits);
    }
}

/// Digits of a number below `10^width` fill at most `width` places.
pub proof fn lemma_decimal_width(n: nat)
    ensures
        n < 10 ==> decimal_digits(n).len() == 1,
        n < 100_000 ==> decimal_digits(n).len() <= 5,
        n < 10_000_000_000 ==> decimal_digits(n).len() <= 10,
{
    reveal_with_fuel(decimal_digits, 11);
}

pub proof fn lemma_decimal_value_prefix(digits: Seq<u8>, count: int)
    requires
        all_digits(digits),
        0 <= count <= digits.len(),
    ensures
        decimal_value(digits.subrange(0, count)) <= decimal_value(digits),
    decreases digits.len() - count,
{
    if count < digits.len() {
        lemma_decimal_value_prefix(digits, count + 1);
        assert(digits.subrange(0, count + 1).drop_last() =~= digits.subrange(0, count));
    } else {
        assert(digits.subrange(0, count) =~= digits);
    }
}

pub proof fn lemma_split_nonempty(bytes: Seq<u8>, separator: u8)
    ensures
        split_on(bytes, separator).len() > 0,
    decreases bytes.len(),
{
    if bytes.len() > 0 {
        lemma_split_nonempty(bytes.drop_last(), separator);
    }
}

/// The first piece, where it is not empty, starts as the whole does, and an only
/// piece is the whole.
pub proof fn lemma_split_first(bytes: Seq<u8>, separator: u8)
    ensures
        split_on(bytes, separator).len() > 0,
        split_on(bytes, separator).len() == 1 ==> split_on(bytes, separator)[0] == bytes,
        split_on(bytes, separator)[0].len() > 0 ==> bytes.len() > 0 && split_on(bytes, separator)[0][0]
            == bytes[0],
    decreases bytes.len(),
{
    if bytes.len() > 0 {
        lemma_split_first(bytes.drop_last(), separator);
        assert(bytes.drop_last().push(bytes.last()) =~= bytes);
    } else {
        assert(bytes =~= Seq::<u8>::empty());
    }
}

/// A run without the separator is one piece, and after a separator the pieces
/// of the two sides follow each other.
pub proof fn lemma_split_single(bytes: Seq<u8>, separator: u8)
    requires
        !bytes.contains(separator),
    ensures
        split_on(bytes, separator) == seq![bytes],
    decreases bytes.len(),
{
    if bytes.len() > 0 {
        assert(!bytes.drop_last().contains(separator)) by {
            assert forall|i: int| 0 <= i < bytes.len() - 1 implies bytes.drop_last()[i] != separator by {
                assert(bytes.contains(bytes[i]));
            }
        }
        lemma_split_single(bytes.drop_last(), separator);
        assert(bytes.contains(bytes.last()));
        assert(bytes.drop_last().push(bytes.last()) =~= bytes);
        assert(split_on(bytes, separator) =~= seq![bytes]);
    } else {
        assert(bytes =~= Seq::<u8>::empty());
    }
}

pub proof fn lemma_split_last(bytes: Seq<u8>, separator: u8)
    ensures
        ({
            let pieces = split_on(bytes, separator);
            &&& pieces.len() == 1 ==> bytes == pieces[0]
            &&& pieces.len() > 1 ==> exists|front: Seq<u8>| #[trigger]
                split_on(front, separator) == pieces.drop_last() && bytes == front.push(separator)
                    + pieces.last()
        }),
    decreases bytes.len(),
{
    let pieces = split_on(bytes, separator);
    if bytes.len() == 0 {
        assert(bytes =~= pieces[0]);
    } else {
        let shorter = bytes.drop_last();
        let rest = split_on(shorter, separator);
        lemma_split_nonempty(shorter, separator);
        lemma_split_last(shorter, separator);
        if bytes.last() == separator {
            assert(pieces.drop_last() =~= rest);
            assert(bytes =~= shorter.push(separator) + pieces.last());
        } else if rest.len() == 1 {
            assert(bytes =~= pieces[0]);
        } else {
            let front = choose|front: Seq<u8>| #[trigger]
                split_on(front, separator) == rest.drop_last() && shorter == front.push(separator)
                    + rest.last();
            assert(pieces.drop_last() =~= rest.drop_last());
            assert(pieces.last() == rest.last().push(bytes.last()));
            assert(bytes =~= shorter.push(bytes.last()));
            assert(bytes =~= front.push(separator) + pieces.last());
            assert(split_on(front, separator) == pieces.drop_last());
        }
    }
}

pub proof fn lemma_split_append(front: Seq<u8>, back: Seq<u8>, separator: u8)
    requires
        !back.contains(separator),
    ensures
        split_on(front.push(separator) + back, separator) == split_on(front, separator).push(back),
    decreases back.len(),
{
    if back.len() == 0 {
        assert(front.push(separator) + back =~= front.push(separator));
        assert(front.push(separator).drop_last() =~= front);
        assert(back =~= Seq::<u8>::empty());
    } else {
        let whole = front.push(separator) + back;
        let shorter = back.drop_last();
        assert(whole.drop_last() =~= front.push(separator) + shorter);
        assert(!shorter.contains(separator)) by {
            assert forall|i: int| 0 <= i < shorter.len() implies shorter[i] != separator by {
                assert(back.contains(back[i]));
            }
        }
        lemma_split_append(front, shorter, separator);
        assert(back.contains(back.last()));
        assert(whole.last() == back.last());
        assert(shorter.push(back.last()) =~= back);
        assert(split_on(whole, separator) =~= split_on(front, separator).push(back));
    }
}

/// Whether two byte strings hold the same bytes.
pub fn bytes_equal(left: &[u8], right: &[u8]) -> (equal: bool)
    ensures
        equal == (left@ == right@),
{
    if left.len() != right.len() {
        return false;
    }
    let mut i: usize = 0;
    while i < left.len()
        invariant
            left.len() == right.len(),
            0 <= i <= left.len(),
            forall|j: int| 0 <= j < i ==> left@[j] == right@[j],
        decreases left.len() - i,
    {
        if left[i] != right[i] {
            return false;
        }
        i = i + 1;
    }
    assert(left@ =~= right@);
    true
}

/// Whether `bytes` starts with `prefix`.
pub fn starts_with(bytes: &[u8], prefix: &[u8]) -> (found: bool)
    ensures
        found == has_prefix(bytes@, prefix@),
{
    if bytes.len() < prefix.len() {
        return false;
    }
    let head = vstd::slice::slice_subrange(bytes, 0, prefix.len());
    bytes_equal(head, prefix)
}

/// Whether `byte` occurs in `bytes`.
pub fn contains_byte(bytes: &[u8], byte: u8) -> (found: bool)
    ensures
        found == bytes@.contains(byte),
{
    let mut i: usize = 0;
    while i < bytes.len()
        invariant
            0 <= i <= bytes.len(),
            forall|j: int| 0 <= j < i ==> bytes@[j] != byte,
        decreases bytes.len() - i,
    {
        if bytes[i] == byte {
            assert(bytes@[i as int] == byte);
            return true;
        }
        i = i + 1;
    }
    false
}

pub proof fn lemma_first_index_bounds(bytes: Seq<u8>, byte: u8)
    ensures
        0 <= first_index(bytes, byte) <= bytes.len(),
        bytes.len() > 0 && bytes[0] != byte ==> first_index(bytes, byte) > 0,
    decreases bytes.len(),
{
    if bytes.len() > 0 && bytes[0] != byte {
        lemma_first_index_bounds(bytes.drop_first(), byte);
    }
}

pub proof fn lemma_first_index(bytes: Seq<u8>, byte: u8, index: int)
    requires
        0 <= index <= bytes.len(),
        forall|j: int| 0 <= j < index ==> bytes[j] != byte,
        index < bytes.len() ==> bytes[index] == byte,
    ensures
        first_index(bytes, byte) == index,
    decreases index,
{
    if index > 0 {
        assert(bytes[0] != byte);
        assert forall|j: int| 0 <= j < index - 1 implies bytes.drop_first()[j] != byte by {
            assert(bytes[j + 1] != byte);
        }
        lemma_first_index(bytes.drop_first(), byte, index - 1);
    }
}

/// Index of the first `byte` in `bytes`, or the length where there is none.
pub fn find_byte(bytes: &[u8], byte: u8) -> (index: usize)
    ensures
        index == first_index(bytes@, byte),
        index <= bytes@.len(),
        forall|j: int| 0 <= j < index ==> bytes@[j] != byte,
        index < bytes@.len() ==> bytes@[index as int] == byte,
{
    let mut i: usize = 0;
    while i < bytes.len()
        invariant
            0 <= i <= bytes.len(),
            forall|j: int| 0 <= j < i ==> bytes@[j] != byte,
        decreases bytes.len() - i,
    {
        if bytes[i] == byte {
            proof {
                lemma_first_index(bytes@, byte, i as int);
            }
            return i;
        }
        i = i + 1;
    }
    proof {
        lemma_first_index(bytes@, byte, i as int);
    }
    i
}

/// Whether every byte is an ASCII digit.
pub fn only_digits(bytes: &[u8]) -> (digits: bool)
    ensures
        digits == all_digits(bytes@),
{
    let mut i: usize = 0;
    while i < bytes.len()
        invariant
            0 <= i <= bytes.len(),
            forall|j: int| 0 <= j < i ==> is_digit(#[trigger] bytes@[j]),
        decreases bytes.len() - i,
    {
        if bytes[i] < 48 || bytes[i] > 57 {
            assert(!is_digit(bytes@[i as int]));
            return false;
        }
        i = i + 1;
    }
    true
}

/// Number that a run of digits denotes, if it fits 64 bits.
pub fn parse_digits(bytes: &[u8]) -> (number: Option<u64>)
    requires
        all_digits(bytes@),
    ensures
        number is Some <==> decimal_value(bytes@) <= u64::MAX,
        number matches Some(n) ==> n == decimal_value(bytes@),
{
    let mut value: u64 = 0;
    let mut i: usize = 0;
    assert(bytes@.subrange(0, 0) =~= Seq::<u8>::empty());
    while i < bytes.len()
        invariant
            0 <= i <= bytes.len(),
            all_digits(bytes@),
            value == decimal_value(bytes@.subrange(0, i as int)),
        decreases bytes.len() - i,
    {
        proof {
            assert(bytes@.subrange(0, i + 1).drop_last() =~= bytes@.subrange(0, i as int));
            assert(is_digit(bytes@[i as int]));
            lemma_decimal_value_prefix(bytes@, i + 1);
        }
        let digit: u64 = (bytes[i] - 48) as u64;
        match value.checked_mul(10) {
            None => {
                return None;
            },
            Some(tens) => match tens.checked_add(digit) {
                None => {
                    return None;
                },
                Some(next) => {
                    value = next;
                },
            },
        }
        i = i + 1;
    }
    assert(bytes@.subrange(0, i as int) =~= bytes@);
    Some(value)
}

/// Pieces of `bytes` between the occurrences of `separator`.
pub fn split_fields(bytes: &[u8], separator: u8) -> (fields: Vec<Vec<u8>>)
    ensures
        fields@.len() == split_on(bytes@, separator).len(),
        forall|i: int| 0 <= i < fields@.len() ==> (#[trigger] fields@[i])@ == split_on(bytes@, separator)[i],
{
    let mut fields: Vec<Vec<u8>> = Vec::new();
    let mut current: Vec<u8> = Vec::new();
    let mut i: usize = 0;
    while i < bytes.len()
        invariant
            0 <= i <= bytes.len(),
            split_on(bytes@.subrange(0, i as int), separator).len() == fields@.len() + 1,
            forall|j: int|
                0 <= j < fields@.len() ==> (#[trigger] fields@[j])@ == split_on(
                    bytes@.subrange(0, i as int),
                    separator,
                )[j],
            current@ == split_on(bytes@.subrange(0, i as int), separator).last(),
        decreases bytes.len() - i,
    {
        assert(bytes@.subrange(0, i + 1).drop_last() =~= bytes@.subrange(0, i as int));
        if bytes[i] == separator {
            fields.push(current);
            current = Vec::new();
        } else {
            current.push(bytes[i]);
        }
        i = i + 1;
    }
    assert(bytes@.subrange(0, i as int) =~= bytes@);
    fields.push(current);
    fields
}

/// Appends a copy of `source` to `target`.
pub fn append_bytes(target: &mut Vec<u8>, source: &[u8])
    ensures
        final(target)@ == old(target)@ + source@,
{
    let mut i: usize = 0;
    assert(target@ =~= old(target)@ + source@.subrange(0, 0));
    while i < source.len()
        invariant
            0 <= i <= source.len(),
            target@ == old(target)@ + source@.subrange(0, i as int),
        decreases source.len() - i,
    {
        target.push(source[i]);
        assert(source@.subrange(0, i as int).push(source@[i as int]) =~= source@.subrange(0, i + 1));
        assert(target@ =~= old(target)@ + source@.subrange(0, i + 1));
        i = i + 1;
    }
    assert(source@.subrange(0, i as int) =~= source@);
}

/// Copies `source`.
pub fn copy_bytes(source: &[u8]) -> (copy: Vec<u8>)
    ensures
        copy@ == source@,
{
    let mut copy: Vec<u8> = Vec::new();
    append_bytes(&mut copy, source);
    assert(copy@ =~= source@);
    copy
}

/// Appends the decimal notation of `number` to `target`.
pub fn append_decimal(target: &mut Vec<u8>, number: u64)
    ensures
        final(target)@ == old(target)@ + decimal_digits(number as nat),
    decreases number,
{
    if number < 10 {
        target.push(48 + number as u8);
        assert(target@ =~= old(target)@ + decimal_digits(number as nat));
    } else {
        append_decimal(target, number / 10);
        target.push(48 + (number % 10) as u8);
        assert(target@ =~= old(target)@ + decimal_digits(number as nat));
    }
}

/// One decimal digit as text.
fn digit_text(digit: u8) -> (text: &'static str)
    requires
        digit < 10,
    ensures
        text@ == seq![(48 + digit) as u8 as char],
{
    proof {
        reveal_strlit("0");
        reveal_strlit("1");
        reveal_strlit("2");
        reveal_strlit("3");
        reveal_strlit("4");
        reveal_strlit("5");
        reveal_strlit("6");
        reveal_strlit("7");
        reveal_strlit("8");
        reveal_strlit("9");
    }
    match digit {
        0 => "0",
        1 => "1",
        2 => "2",
        3 => "3",
        4 => "4",
        5 => "5",
        6 => "6",
        7 => "7",
        8 => "8",
        _ => "9",
    }
}

/// Appends the decimal notation of `number` to `target`.
pub fn append_number(target: &mut String, number: u128)
    ensures
        final(target)@ == old(target)@ + decimal_chars(number as nat),
    decreases number,
{
    if number < 10 {
        target.append(digit_text(number as u8));
        assert(target@ =~= old(target)@ + decimal_chars(number as nat));
    } else {
        append_number(target, number / 10);
        target.append(digit_text((number % 10) as u8));
        assert(target@ =~= old(target)@ + decimal_chars(number as nat));
    }
}

/// Number of bytes in the UTF-8 encoding of `text`.
pub fn text_len(text: &str) -> (length: usize)
    ensures
        length == encode_utf8(text@).len(),
{
    text.as_bytes().len()
}

/// Characters that `bytes` encode, if they are UTF-8.
///
/// Calls `std::str::from_utf8`, which succeeds exactly on valid UTF-8 and
/// hands back the same bytes as text.
#[verifier::external_body]
pub(crate) fn utf8_str(bytes: &[u8]) -> (text: Option<&str>)
    ensures
        text is Some <==> valid_utf8(bytes@),
        text matches Some(t) ==> encode_utf8(t@) == bytes@,
{
    std::str::from_utf8(bytes).ok()
}

/// Owned text that `bytes` encode, if they are UTF-8.
pub fn utf8_text(bytes: &[u8]) -> (text: Option<String>)
    ensures
        text is Some <==> valid_utf8(bytes@),
        text matches Some(t) ==> encode_utf8(t@) == bytes@ && t@ == decode_utf8(bytes@),
{
    match utf8_str(bytes) {
        None => None,
        Some(text) => {
            proof {
                encode_utf8_decode_utf8(text@);
            }
            Some(text.to_owned())
        },
    }
}

pub proof fn lemma_encode_concat(front: Seq<char>, back: Seq<char>)
    ensures
        encode_utf8(front + back) == encode_utf8(front) + encode_utf8(back),
    decreases front.len(),
{
    if front.len() == 0 {
        assert(front + back =~= back);
        assert(encode_utf8(front) + encode_utf8(back) =~= encode_utf8(back));
    } else {
        assert((front + back).drop_first() =~= front.drop_first() + back);
        lemma_encode_concat(front.drop_first(), back);
        assert(encode_utf8(front + back) =~= encode_utf8(front) + encode_utf8(back));
    }
}

pub proof fn lemma_encode_single(character: char)
    ensures
        encode_utf8(seq![character]) == encode_scalar(character as u32),
{
    reveal_with_fuel(encode_utf8, 2);
    assert(seq![character].drop_first() =~= Seq::<char>::empty());
    assert(encode_utf8(seq![character]) =~= encode_scalar(character as u32));
}

/// The end of every character is a character boundary.
pub proof fn lemma_boundary_between(front: Seq<char>, back: Seq<char>)
    ensures
        is_char_boundary(encode_utf8(front + back), encode_utf8(front).len() as int),
    decreases front.len(),
{
    encode_utf8_valid_utf8(front + back);
    lemma_encode_concat(front, back);
    if front.len() > 0 {
        let whole = front + back;
        assert(whole.drop_first() =~= front.drop_first() + back);
        lemma_boundary_between(front.drop_first(), back);
        encode_utf8_first_scalar(whole);
        assert(pop_first_scalar(encode_utf8(whole)) =~= encode_utf8(whole.drop_first()));
        assert(encode_utf8(front).len() == encode_scalar(front[0] as u32).len() + encode_utf8(
            front.drop_first(),
        ).len());
    }
}

/// Byte offset of the character with index `count`, or of the end of `text`.
pub fn char_offset(text: &str, count: usize) -> (offset: Option<usize>)
    ensures
        offset is Some <==> count <= text@.len(),
        offset matches Some(o) ==> o == encode_utf8(text@.subrange(0, count as int)).len()
            && is_char_boundary(encode_utf8(text@), o as int),
{
    let bytes: &[u8] = text.as_bytes();
    let ghost chars = text@;
    let mut offset: usize = 0;
    let mut passed: usize = 0;
    proof {
        assert(chars.subrange(0, 0) =~= Seq::<char>::empty());
    }
    while passed < count
        invariant
            0 <= passed <= count,
            passed <= chars.len(),
            chars == text@,
            bytes@ == encode_utf8(chars),
            offset == encode_utf8(chars.subrange(0, passed as int)).len(),
        decreases count - passed,
    {
        let ghost front = chars.subrange(0, passed as int);
        let ghost back = chars.subrange(passed as int, chars.len() as int);
        proof {
            assert(front + back =~= chars);
            lemma_encode_concat(front, back);
            if back.len() > 0 {
                encode_utf8_first_scalar(back);
            }
        }
        if offset >= bytes.len() {
            assert(back.len() == 0);
            return None;
        }
        assert(back.len() > 0);
        proof {
            let next = chars.subrange(0, passed + 1);
            assert(next =~= front + seq![back[0]]);
            lemma_encode_concat(front, seq![back[0]]);
            lemma_encode_single(back[0]);
            assert(encode_utf8(back)[0] == bytes@[offset as int]);
            assert(next + chars.subrange(passed + 1, chars.len() as int) =~= chars);
            lemma_encode_concat(next, chars.subrange(passed + 1, chars.len() as int));
        }
        let lead: u8 = bytes[offset];
        let width: usize = if lead < 0x80 {
            1
        } else if lead < 0xe0 {
            2
        } else if lead < 0xf0 {
            3
        } else {
            4
        };
        offset = offset + width;
        passed = passed + 1;
    }
    proof {
        let front = chars.subrange(0, count as int);
        let back = chars.subrange(count as int, chars.len() as int);
        assert(front + back =~= chars);
        lemma_boundary_between(front, back);
    }
    Some(offset)
}

/// Text in front of the byte offset `offset`.
pub open spec fn text_before(text: Seq<char>, offset: int) -> Seq<char> {
    decode_utf8(encode_utf8(text).subrange(0, offset))
}

/// Text from the byte offset `offset` on.
pub open spec fn text_behind(text: Seq<char>, offset: int) -> Seq<char> {
    decode_utf8(encode_utf8(text).subrange(offset, encode_utf8(text).len() as int))
}

/// Cuts `text` at a character boundary.
pub fn split_text(text: &str, offset: usize) -> (parts: (&str, &str))
    requires
        is_char_boundary(encode_utf8(text@), offset as int),
    ensures
        parts.0@ == text_before(text@, offset as int),
        parts.1@ == text_behind(text@, offset as int),
        parts.0@ + parts.1@ == text@,
        encode_utf8(parts.0@).len() == offset,
{
    let parts = text.split_at(offset);
    proof {
        encode_utf8_valid_utf8(text@);
        assert(0 <= offset <= encode_utf8(text@).len());
        encode_utf8_decode_utf8(parts.0@);
        encode_utf8_decode_utf8(parts.1@);
        encode_utf8_decode_utf8(text@);
        decode_utf8_split(encode_utf8(text@), offset as int);
    }
    parts
}

/// Whether two texts hold the same characters.
pub fn text_equal(left: &str, right: &str) -> (equal: bool)
    ensures
        equal == (left@ == right@),
{
    proof {
        encode_utf8_decode_utf8(left@);
        encode_utf8_decode_utf8(right@);
    }
    bytes_equal(left.as_bytes(), right.as_bytes())
}

/// An optional size in a diagnostic summary.
pub open spec fn size_debug_chars(size: Option<usize>) -> Seq<char> {
    match size {
        Some(bytes) => "Some("@ + decimal_chars(bytes as nat) + ")"@,
        None => "None"@,
    }
}

/// Appends an optional size to a diagnostic summary.
pub fn append_size(summary: &mut String, size: Option<usize>)
    ensures
        final(summary)@ == old(summary)@ + size_debug_chars(size),
{
    match size {
        Some(bytes) => {
            summary.append("Some(");
            append_number(summary, bytes as u128);
            summary.append(")");
            assert(summary@ =~= old(summary)@ + size_debug_chars(size));
        },
        None => {
            summary.append("None");
        },
    }
}

/// An optional number in a diagnostic summary.
pub open spec fn optional_chars(number: Option<u64>) -> Seq<char> {
    match number {
        Some(value) => "Some("@ + decimal_chars(value as nat) + ")"@,
        None => "None"@,
    }
}

/// Appends an optional number to a diagnostic summary.
pub fn append_optional(summary: &mut String, number: Option<u64>)
    ensures
        final(summary)@ == old(summary)@ + optional_chars(number),
{
    match number {
        Some(value) => {
            summary.append("Some(");
            append_number(summary, value as u128);
            summary.append(")");
            assert(summary@ =~= old(summary)@ + optional_chars(number));
        },
        None => {
            summary.append("None");
        },
    }
}

/// A truth value in a diagnostic summary.
pub open spec fn bool_chars(value: bool) -> Seq<char> {
    if value {
        "true"@
    } else {
        "false"@
    }
}

/// A truth value as text.
pub fn bool_text(value: bool) -> (text: &'static str)
    ensures
        text@ == bool_chars(value),
{
    if value {
        "true"
    } else {
        "false"
    }
}

/// Decimal places of `rest`, the first of which is worth `place`, without zeros
/// behind the last other digit.
pub open spec fn decimal_places(rest: nat, place: nat) -> Seq<char>
    decreases place,
{
    if rest == 0 || place == 0 {
        Seq::empty()
    } else {
        seq![(48 + rest / place) as u8 as char] + decimal_places(rest % place, place / 10)
    }
}

/// So many nanoseconds in units of `unit` nanoseconds, a power of ten, with as
/// many decimal places as it takes.
pub open spec fn scaled_chars(nanoseconds: nat, unit: nat) -> Seq<char> {
    decimal_chars(nanoseconds / unit) + if nanoseconds % unit == 0 {
        Seq::empty()
    } else {
        seq!['.'] + decimal_places(nanoseconds % unit, unit / 10)
    }
}

/// A duration in the largest unit of which it holds one.
pub open spec fn duration_chars(nanoseconds: nat) -> Seq<char> {
    if nanoseconds >= 1_000_000_000 {
        scaled_chars(nanoseconds, 1_000_000_000) + "s"@
    } else if nanoseconds >= 1_000_000 {
        scaled_chars(nanoseconds, 1_000_000) + "ms"@
    } else if nanoseconds >= 1_000 {
        scaled_chars(nanoseconds, 1_000) + "\u{b5}s"@
    } else {
        scaled_chars(nanoseconds, 1) + "ns"@
    }
}

/// Whether a decimal place of a second is worth so many nanoseconds; below the
/// last one it is none.
spec fn is_place(place: nat) -> bool {
    place == 100_000_000 || place == 10_000_000 || place == 1_000_000 || place == 100_000 || place
        == 10_000 || place == 1_000 || place == 100 || place == 10 || place == 1 || place == 0
}

fn append_places(target: &mut String, rest: u128, place: u128)
    requires
        is_place(place as nat),
        rest == 0 || rest < 10 * place,
    ensures
        final(target)@ == old(target)@ + decimal_places(rest as nat, place as nat),
    decreases place,
{
    if rest != 0 {
        proof {
            assert(rest / place < 10 && rest % place < place) by (nonlinear_arith)
                requires
                    0 < place,
                    rest < 10 * place,
            ;
        }
        target.append(digit_text((rest / place) as u8));
        append_places(target, rest % place, place / 10);
    }
    assert(target@ =~= old(target)@ + decimal_places(rest as nat, place as nat));
}

fn append_scaled(target: &mut String, nanoseconds: u128, unit: u128)
    requires
        unit == 1_000_000_000 || unit == 1_000_000 || unit == 1_000 || unit == 1,
    ensures
        final(target)@ == old(target)@ + scaled_chars(nanoseconds as nat, unit as nat),
{
    append_number(target, nanoseconds / unit);
    if nanoseconds % unit != 0 {
        proof {
            reveal_strlit(".");
        }
        target.append(".");
        append_places(target, nanoseconds % unit, unit / 10);
        assert("."@ =~= seq!['.']);
    }
    assert(target@ =~= old(target)@ + scaled_chars(nanoseconds as nat, unit as nat));
}

/// Appends a duration in the largest unit of which it holds one.
pub fn append_duration(target: &mut String, nanoseconds: u128)
    ensures
        final(target)@ == old(target)@ + duration_chars(nanoseconds as nat),
{
    if nanoseconds >= 1_000_000_000 {
        append_scaled(target, nanoseconds, 1_000_000_000);
        target.append("s");
    } else if nanoseconds >= 1_000_000 {
        append_scaled(target, nanoseconds, 1_000_000);
        target.append("ms");
    } else if nanoseconds >= 1_000 {
        append_scaled(target, nanoseconds, 1_000);
        target.append("\u{b5}s");
    } else {
        append_scaled(target, nanoseconds, 1);
        target.append("ns");
    }
    assert(target@ =~= old(target)@ + duration_chars(nanoseconds as nat));
}

/// Whether one byte string comes before another, as in a dictionary.
pub open spec fn bytes_before(a: Seq<u8>, b: Seq<u8>) -> bool
    decreases a.len(),
{
    if b.len() == 0 {
        false
    } else if a.len() == 0 {
        true
    } else if a[0] == b[0] {
        bytes_before(a.drop_first(), b.drop_first())
    } else {
        a[0] < b[0]
    }
}

/// Whether one byte string comes before another.
pub fn bytes_precede(a: &[u8], b: &[u8]) -> (before: bool)
    ensures
        before == bytes_before(a@, b@),
{
    let mut i: usize = 0;
    assert(a@.subrange(0, a@.len() as int) =~= a@);
    assert(b@.subrange(0, b@.len() as int) =~= b@);
    while i < a.len() && i < b.len() && a[i] == b[i]
        invariant
            0 <= i <= a@.len(),
            i <= b@.len(),
            bytes_before(a@, b@) == bytes_before(
                a@.subrange(i as int, a@.len() as int),
                b@.subrange(i as int, b@.len() as int),
            ),
        decreases a@.len() - i,
    {
        assert(a@.subrange(i as int, a@.len() as int).drop_first() =~= a@.subrange(
            i + 1,
            a@.len() as int,
        ));
        assert(b@.subrange(i as int, b@.len() as int).drop_first() =~= b@.subrange(
            i + 1,
            b@.len() as int,
        ));
        i = i + 1;
    }
    if i == b.len() {
        false
    } else if i == a.len() {
        true
    } else {
        a[i] < b[i]
    }
}

/// Of two different byte strings exactly one comes before the other.
pub proof fn lemma_bytes_order(a: Seq<u8>, b: Seq<u8>)
    ensures
        !(bytes_before(a, b) && bytes_before(b, a)),
        a != b ==> bytes_before(a, b) || bytes_before(b, a),
    decreases a.len(),
{
    if a.len() > 0 && b.len() > 0 && a[0] == b[0] {
        lemma_bytes_order(a.drop_first(), b.drop_first());
        if a.drop_first() == b.drop_first() {
            assert(a =~= seq![a[0]] + a.drop_first());
            assert(b =~= seq![b[0]] + b.drop_first());
        }
    } else if a.len() == 0 && b.len() == 0 {
        assert(a =~= b);
    }
}

/// What comes before an earlier byte string comes before.
pub proof fn lemma_bytes_transitive(a: Seq<u8>, b: Seq<u8>, c: Seq<u8>)
    requires
        bytes_before(a, b),
        bytes_before(b, c),
    ensures
        bytes_before(a, c),
    decreases a.len(),
{
    if a.len() > 0 && a[0] == b[0] && b[0] == c[0] {
        lemma_bytes_transitive(a.drop_first(), b.drop_first(), c.drop_first());
    }
}

/// A digit behind others makes them worth ten times as much.
pub proof fn law_numbers_are_decimal(digits: Seq<u8>, digit: u8, number: nat)
    requires
        48 <= digit <= 57,
    ensures
        decimal_value(seq![digit]) == digit - 48,
        decimal_value(digits.push(digit)) == 10 * decimal_value(digits) + (digit - 48),
        decimal_value(decimal_digits(number)) == number,
        decimal_chars(number).len() == decimal_digits(number).len(),
        forall|i: int|
            0 <= i < decimal_digits(number).len() ==> 48 <= #[trigger] decimal_digits(number)[i] <= 57
                && decimal_chars(number)[i] as u32 == decimal_digits(number)[i] as u32,
    decreases number,
{
    assert(digits.push(digit).drop_last() =~= digits);
    assert(seq![digit].drop_last() =~= Seq::<u8>::empty());
    assert(decimal_value(Seq::<u8>::empty()) == 0);
    assert(seq![digit].last() == digit);
    lemma_decimal_digits_shape(number);
    if number >= 10 {
        law_numbers_are_decimal(digits, digit, number / 10);
    }
}

/// The pieces of a text, with the separator between them, are that text: a piece
/// in front of a separator and the pieces behind it follow each other.
pub proof fn law_pieces_lie_between_separators(front: Seq<u8>, back: Seq<u8>, separator: u8)
    requires
        !back.contains(separator),
    ensures
        split_on(back, separator) == seq![back],
        split_on(front.push(separator) + back, separator) == split_on(front, separator).push(back),
{
    lemma_split_single(back, separator);
    lemma_split_append(front, back, separator);
}

/// Byte strings are ordered by their first difference, and a beginning comes
/// before the whole.
pub proof fn law_bytes_order_by_the_first_difference(
    common: Seq<u8>,
    a: u8,
    b: u8,
    behind_a: Seq<u8>,
    behind_b: Seq<u8>,
)
    ensures
        a != b ==> bytes_before(common.push(a) + behind_a, common.push(b) + behind_b) == (a < b),
        bytes_before(common, common.push(a) + behind_a),
        !bytes_before(common.push(a) + behind_a, common),
        !bytes_before(common, common),
    decreases common.len(),
{
    let x = common.push(a) + behind_a;
    let y = common.push(b) + behind_b;
    if common.len() > 0 {
        law_bytes_order_by_the_first_difference(common.drop_first(), a, b, behind_a, behind_b);
        assert(x.drop_first() =~= common.drop_first().push(a) + behind_a);
        assert(y.drop_first() =~= common.drop_first().push(b) + behind_b);
    }
}

/// A text cut at a character boundary: the two parts are the bytes before and
/// behind it, and together the text.
pub proof fn law_cut_texts_are_their_bytes(text: Seq<char>, offset: int)
    requires
        is_char_boundary(encode_utf8(text), offset),
    ensures
        0 <= offset <= encode_utf8(text).len(),
        encode_utf8(text_before(text, offset)) == encode_utf8(text).subrange(0, offset),
        encode_utf8(text_behind(text, offset)) == encode_utf8(text).subrange(
            offset,
            encode_utf8(text).len() as int,
        ),
        text_before(text, offset) + text_behind(text, offset) == text,
{
    let bytes = encode_utf8(text);
    encode_utf8_valid_utf8(text);
    valid_utf8_split(bytes, offset);
    let front = bytes.subrange(0, offset);
    let back = bytes.subrange(offset, bytes.len() as int);
    decode_utf8_encode_utf8(front);
    decode_utf8_encode_utf8(back);
    let whole = text_before(text, offset) + text_behind(text, offset);
    lemma_encode_concat(text_before(text, offset), text_behind(text, offset));
    assert(front + back =~= bytes);
    encode_utf8_decode_utf8(whole);
    encode_utf8_decode_utf8(text);
}

} // verus!
