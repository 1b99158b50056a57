//! Characters and words of command lines.

use vstd::prelude::*;
use vstd::string::*;

verus! {

/// Specification of [`String::push`]: the character is appended to the text.
pub assume_specification[ String::push ](text: &mut String, character: char)
    ensures
        final(text)@ == old(text)@.push(character),
;

/// Whether a character is white space, as Unicode has it.
pub open spec fn white_space(c: char) -> bool {
    ||| '\u{9}' <= c <= '\u{d}'
    ||| c == '\u{20}'
    ||| c == '\u{85}'
    ||| c == '\u{a0}'
    ||| c == '\u{1680}'
    ||| '\u{2000}' <= c <= '\u{200a}'
    ||| c == '\u{2028}'
    ||| c == '\u{2029}'
    ||| c == '\u{202f}'
    ||| c == '\u{205f}'
    ||| c == '\u{3000}'
}

/// Whether a character is a control character, as Unicode has it.
pub open spec fn control(c: char) -> bool {
    c <= '\u{1f}' || '\u{7f}' <= c <= '\u{9f}'
}

/// Whether a character is white space.
pub fn is_white_space(c: char) -> (white: bool)
    ensures
        white == white_space(c),
{
    (c >= '\u{9}' && c <= '\u{d}') || c == '\u{20}' || c == '\u{85}' || c == '\u{a0}' || c == '\u{1680}' || (
    c >= '\u{2000}' && c <= '\u{200a}') || c == '\u{2028}' || c == '\u{2029}' || c == '\u{202f}' || c
        == '\u{205f}' || c == '\u{3000}'
}

/// Whether a character is a control character.
pub fn is_control(c: char) -> (control_character: bool)
    ensures
        control_character == control(c),
{
    c <= '\u{1f}' || (c >= '\u{7f}' && c <= '\u{9f}')
}

/// Whether a text has nothing but white space.
pub open spec fn blank(text: Seq<char>) -> bool {
    forall|i: int| 0 <= i < text.len() ==> white_space(#[trigger] text[i])
}

/// Characters of a text.
pub fn characters(text: &str) -> (list: Vec<char>)
    ensures
        list@ == text@,
{
    let mut list: Vec<char> = Vec::new();
    for character in it: text.chars()
        invariant
            it.seq() == text@,
            list@ == text@.subrange(0, it.index() as int),
    {
        assert(text@.subrange(0, it.index() + 1) =~= text@.subrange(0, it.index() as int).push(
            text@[it.index() as int],
        ));
        list.push(character);
    }
    assert(text@.subrange(0, text@.len() as int) =~= text@);
    list
}

/// Whether a text has nothing but white space.
pub fn is_blank(text: &str) -> (is: bool)
    ensures
        is == blank(text@),
{
    let list: Vec<char> = characters(text);
    let mut i: usize = 0;
    while i < list.len()
        invariant
            0 <= i <= list@.len(),
            list@ == text@,
            forall|j: int| 0 <= j < i ==> white_space(#[trigger] text@[j]),
        decreases list@.len() - i,
    {
        if !is_white_space(list[i]) {
            assert(!white_space(text@[i as int]));
            return false;
        }
        i = i + 1;
    }
    true
}

/// Whether `text` starts with `front`.
pub open spec fn text_starts(text: Seq<char>, front: Seq<char>) -> bool {
    front.len() <= text.len() && text.subrange(0, front.len() as int) == front
}

/// Whether `piece` stands somewhere in `text`.
pub open spec fn text_contains(text: Seq<char>, piece: Seq<char>) -> bool {
    exists|i: int|
        0 <= i <= text.len() && #[trigger] text_starts(text.subrange(i, text.len() as int), piece)
}

/// Whether the characters of `needle` stand in `value` in this order, with
/// others between them.
pub open spec fn subsequence(needle: Seq<char>, value: Seq<char>) -> bool
    decreases value.len(),
{
    if needle.len() == 0 {
        true
    } else if value.len() == 0 {
        false
    } else if needle[0] == value[0] {
        subsequence(needle.drop_first(), value.drop_first())
    } else {
        subsequence(needle, value.drop_first())
    }
}

fn starts_at(text: &Vec<char>, at: usize, piece: &Vec<char>) -> (starts: bool)
    requires
        at <= text@.len(),
    ensures
        starts == text_starts(text@.subrange(at as int, text@.len() as int), piece@),
{
    let ghost rest = text@.subrange(at as int, text@.len() as int);
    let length: usize = text.len();
    if piece.len() > length - at {
        return false;
    }
    let mut i: usize = 0;
    while i < piece.len()
        invariant
            0 <= i <= piece@.len(),
            at <= text@.len(),
            length == text@.len(),
            piece@.len() <= length - at,
            rest == text@.subrange(at as int, text@.len() as int),
            forall|j: int| 0 <= j < i ==> rest[j] == #[trigger] piece@[j],
        decreases piece@.len() - i,
    {
        if text[at + i] != piece[i] {
            assert(rest.subrange(0, piece@.len() as int)[i as int] != piece@[i as int]);
            return false;
        }
        i = i + 1;
    }
    assert(rest.subrange(0, piece@.len() as int) =~= piece@);
    true
}

/// Whether `text` starts with `front`.
pub fn starts_with_text(text: &Vec<char>, front: &Vec<char>) -> (starts: bool)
    ensures
        starts == text_starts(text@, front@),
{
    assert(text@.subrange(0, text@.len() as int) =~= text@);
    starts_at(text, 0, front)
}

/// Whether `piece` stands somewhere in `text`.
pub fn contains_text(text: &Vec<char>, piece: &Vec<char>) -> (contains: bool)
    ensures
        contains == text_contains(text@, piece@),
{
    let mut at: usize = 0;
    while at < text.len()
        invariant
            0 <= at <= text@.len(),
            forall|j: int|
                0 <= j < at ==> !#[trigger] text_starts(
                    text@.subrange(j, text@.len() as int),
                    piece@,
                ),
        decreases text@.len() - at,
    {
        if starts_at(text, at, piece) {
            assert(text_starts(text@.subrange(at as int, text@.len() as int), piece@));
            return true;
        }
        at = at + 1;
    }
    starts_at(text, at, piece)
}

/// Whether the characters of `needle` stand in `value` in this order.
pub fn is_subsequence(needle: &Vec<char>, value: &Vec<char>) -> (is: bool)
    ensures
        is == subsequence(needle@, value@),
{
    let mut n: usize = 0;
    let mut v: usize = 0;
    assert(needle@.subrange(0, needle@.len() as int) =~= needle@);
    assert(value@.subrange(0, value@.len() as int) =~= value@);
    while v < value.len() && n < needle.len()
        invariant
            0 <= n <= needle@.len(),
            0 <= v <= value@.len(),
            subsequence(needle@, value@) == subsequence(
                needle@.subrange(n as int, needle@.len() as int),
                value@.subrange(v as int, value@.len() as int),
            ),
        decreases value@.len() - v,
    {
        proof {
            assert(needle@.subrange(n as int, needle@.len() as int).drop_first() =~= needle@.subrange(
                n + 1,
                needle@.len() as int,
            ));
            assert(value@.subrange(v as int, value@.len() as int).drop_first() =~= value@.subrange(
                v + 1,
                value@.len() as int,
            ));
        }
        if needle[n] == value[v] {
            n = n + 1;
        }
        v = v + 1;
    }
    n == needle.len()
}

/// What the shell does to a character, by the quotes that it stands in.
#[derive(Clone, Copy, Debug, PartialEq, Eq, Structural)]
pub enum Quoting {
    /// No quotes.
    Plain,
    /// Behind a backslash outside quotes.
    Escaped,
    /// Within single quotes.
    Single,
    /// Within double quotes.
    Double,
    /// Behind a backslash within double quotes.
    DoubleEscaped,
}

/// A word that is being read: its characters so far, and whether it has begun.
pub struct WordView {
    pub quoting: Quoting,
    pub begun: bool,
    pub word: Seq<char>,
}

impl WordView {
    /// Whether white space ends the word here.
    pub open spec fn ends_at(self, c: char) -> bool {
        self.quoting is Plain && self.begun && white_space(c)
    }

    /// Word after one more character that does not end it.
    pub open spec fn read(self, c: char) -> Self {
        match self.quoting {
            Quoting::Plain => if white_space(c) {
                self
            } else if c == '\'' {
                WordView { quoting: Quoting::Single, begun: true, ..self }
            } else if c == '"' {
                WordView { quoting: Quoting::Double, begun: true, ..self }
            } else if c == '\\' {
                WordView { quoting: Quoting::Escaped, begun: true, ..self }
            } else {
                WordView { begun: true, word: self.word.push(c), ..self }
            },
            Quoting::Escaped => WordView {
                quoting: Quoting::Plain,
                word: self.word.push(c),
                ..self
            },
            Quoting::Single => if c == '\'' {
                WordView { quoting: Quoting::Plain, ..self }
            } else {
                WordView { word: self.word.push(c), ..self }
            },
            Quoting::Double => if c == '"' {
                WordView { quoting: Quoting::Plain, ..self }
            } else if c == '\\' {
                WordView { quoting: Quoting::DoubleEscaped, ..self }
            } else {
                WordView { word: self.word.push(c), ..self }
            },
            Quoting::DoubleEscaped => WordView {
                quoting: Quoting::Double,
                word: if c == '"' || c == '\\' || c == '$' || c == '`' {
                    self.word.push(c)
                } else {
                    self.word.push('\\').push(c)
                },
                ..self
            },
        }
    }
}

/// First word of what is left of a line, as the shell would see it: none where
/// there is none, or where a quote or an escape is not finished.
pub open spec fn word_from(word: WordView, rest: Seq<char>) -> Option<Seq<char>>
    decreases rest.len(),
{
    if rest.len() == 0 {
        if word.quoting is Plain && word.begun {
            Some(word.word)
        } else {
            None
        }
    } else if word.ends_at(rest[0]) {
        Some(word.word)
    } else {
        word_from(word.read(rest[0]), rest.drop_first())
    }
}

/// First word of a command line, without its quotes and escapes.
pub open spec fn first_word_of(line: Seq<char>) -> Option<Seq<char>> {
    word_from(WordView { quoting: Quoting::Plain, begun: false, word: Seq::empty() }, line)
}

/// First word of a command line, without its quotes and escapes.
pub fn first_word(line: &str) -> (word: Option<String>)
    ensures
        match word {
            Some(word) => first_word_of(line@) == Some(word@),
            None => first_word_of(line@) is None,
        },
{
    let list: Vec<char> = characters(line);
    let mut quoting: Quoting = Quoting::Plain;
    let mut begun: bool = false;
    let mut word: String = String::new();
    let mut i: usize = 0;
    assert(line@.subrange(0, line@.len() as int) =~= line@);
    while i < list.len()
        invariant
            0 <= i <= list@.len(),
            list@ == line@,
            first_word_of(line@) == word_from(
                WordView { quoting, begun, word: word@ },
                line@.subrange(i as int, line@.len() as int),
            ),
        decreases list@.len() - i,
    {
        let ghost state = WordView { quoting, begun, word: word@ };
        let c: char = list[i];
        assert(line@.subrange(i as int, line@.len() as int).drop_first() =~= line@.subrange(
            i + 1,
            line@.len() as int,
        ));
        match quoting {
            Quoting::Plain => {
                if is_white_space(c) {
                    if begun {
                        return Some(word);
                    }
                } else {
                    begun = true;
                    if c == '\'' {
                        quoting = Quoting::Single;
                    } else if c == '"' {
                        quoting = Quoting::Double;
                    } else if c == '\\' {
                        quoting = Quoting::Escaped;
                    } else {
                        word.push(c);
                    }
                }
            },
            Quoting::Escaped => {
                quoting = Quoting::Plain;
                word.push(c);
            },
            Quoting::Single => {
                if c == '\'' {
                    quoting = Quoting::Plain;
                } else {
                    word.push(c);
                }
            },
            Quoting::Double => {
                if c == '"' {
                    quoting = Quoting::Plain;
                } else if c == '\\' {
                    quoting = Quoting::DoubleEscaped;
                } else {
                    word.push(c);
                }
            },
            Quoting::DoubleEscaped => {
                quoting = Quoting::Double;
                if !(c == '"' || c == '\\' || c == '$' || c == '`') {
                    word.push('\\');
                }
                word.push(c);
            },
        }
        assert(WordView { quoting, begun, word: word@ } == state.read(c));
        i = i + 1;
    }
    if quoting == Quoting::Plain && begun {
        Some(word)
    } else {
        None
    }
}

/// Text of some characters.
pub fn text_of(list: &Vec<char>, from: usize, to: usize) -> (text: String)
    requires
        from <= to <= list@.len(),
    ensures
        text@ == list@.subrange(from as int, to as int),
{
    let mut text: String = String::new();
    let mut i: usize = from;
    assert(text@ =~= list@.subrange(from as int, from as int));
    while i < to
        invariant
            from <= i <= to <= list@.len(),
            text@ == list@.subrange(from as int, i as int),
        decreases to - i,
    {
        text.push(list[i]);
        assert(text@ =~= list@.subrange(from as int, i + 1));
        i = i + 1;
    }
    text
}

/// Characters up to the next line feed, or to the end.
pub open spec fn line_end(text: Seq<char>, from: int) -> int
    decreases text.len() - from,
{
    if from >= text.len() || text[from] == '\n' {
        from
    } else {
        line_end(text, from + 1)
    }
}

/// Lines of a text from some place on: each without its line feed and a
/// carriage return before that. A text that ends in a line feed has no empty
/// line behind it.
pub open spec fn lines_from(text: Seq<char>, from: int) -> Seq<Seq<char>>
    decreases text.len() - from,
    when 0 <= from <= text.len()
    via lines_from_decreases
{
    if from >= text.len() {
        Seq::empty()
    } else {
        let end = line_end(text, from);
        if end >= text.len() {
            seq![text.subrange(from, end)]
        } else if end > from && text[end - 1] == '\r' {
            seq![text.subrange(from, end - 1)] + lines_from(text, end + 1)
        } else {
            seq![text.subrange(from, end)] + lines_from(text, end + 1)
        }
    }
}

#[via_fn]
proof fn lines_from_decreases(text: Seq<char>, from: int) {
    if from < text.len() {
        lemma_line_end(text, from);
    }
}

proof fn lemma_line_end(text: Seq<char>, from: int)
    requires
        0 <= from <= text.len(),
    ensures
        from <= line_end(text, from) <= text.len(),
    decreases text.len() - from,
{
    if from < text.len() && text[from] != '\n' {
        lemma_line_end(text, from + 1);
    }
}

/// Lines of a text.
pub open spec fn lines_of(text: Seq<char>) -> Seq<Seq<char>> {
    lines_from(text, 0)
}

/// Lists of characters as texts.
pub open spec fn char_lists(lists: Seq<Vec<char>>) -> Seq<Seq<char>> {
    Seq::new(lists.len(), |i: int| lists[i]@)
}

fn copy_chars(list: &Vec<char>, from: usize, to: usize) -> (copy: Vec<char>)
    requires
        from <= to <= list@.len(),
    ensures
        copy@ == list@.subrange(from as int, to as int),
{
    let mut copy: Vec<char> = Vec::new();
    let mut i: usize = from;
    assert(copy@ =~= list@.subrange(from as int, from as int));
    while i < to
        invariant
            from <= i <= to <= list@.len(),
            copy@ == list@.subrange(from as int, i as int),
        decreases to - i,
    {
        copy.push(list[i]);
        assert(copy@ =~= list@.subrange(from as int, i + 1));
        i = i + 1;
    }
    copy
}

/// Lines of a text.
pub fn lines(text: &str) -> (list: Vec<Vec<char>>)
    ensures
        char_lists(list@) == lines_of(text@),
{
    let all: Vec<char> = characters(text);
    let mut list: Vec<Vec<char>> = Vec::new();
    let mut from: usize = 0;
    assert(char_lists(list@) + lines_from(all@, 0) =~= lines_of(text@));
    while from < all.len()
        invariant
            0 <= from <= all@.len(),
            all@ == text@,
            char_lists(list@) + lines_from(all@, from as int) == lines_of(text@),
        decreases all@.len() - from,
    {
        let ghost before = list@;
        let mut end: usize = from;
        while end < all.len() && all[end] != '\n'
            invariant
                from <= end <= all@.len(),
                line_end(all@, from as int) == line_end(all@, end as int),
            decreases all@.len() - end,
        {
            end = end + 1;
        }
        assert(end == line_end(all@, from as int));
        let stop: usize = if end < all.len() && end > from && all[end - 1] == '\r' {
            end - 1
        } else {
            end
        };
        let line: Vec<char> = copy_chars(&all, from, stop);
        list.push(line);
        let ghost next = if end < all@.len() {
            end + 1
        } else {
            end as int
        };
        proof {
            assert(char_lists(list@) =~= char_lists(before).push(line@));
            assert(lines_from(all@, from as int) =~= seq![line@] + lines_from(all@, next));
            assert(char_lists(before).push(line@) + lines_from(all@, next) =~= char_lists(before) + (
            seq![line@] + lines_from(all@, next)));
        }
        if end < all.len() {
            from = end + 1;
        } else {
            from = end;
        }
    }
    assert(lines_from(all@, from as int) =~= Seq::<Seq<char>>::empty());
    assert(char_lists(list@) + lines_from(all@, from as int) =~= char_lists(list@));
    list
}

/// One text starts with another, or holds it, exactly where it is that text with
/// something behind it, or on both sides of it.
pub proof fn law_texts_are_found_in_longer_ones(front: Seq<char>, piece: Seq<char>, back: Seq<char>)
    ensures
        text_starts(piece + back, piece),
        text_contains(front + piece + back, piece),
        forall|text: Seq<char>| #[trigger] text_starts(text, piece) ==> text.len() >= piece.len() && text
            == piece + text.subrange(piece.len() as int, text.len() as int),
        forall|text: Seq<char>| #[trigger]
            text_contains(text, piece) ==> exists|at: int|
                0 <= at <= text.len() - piece.len() && #[trigger] text.subrange(at, at + piece.len())
                    == piece,
{
    assert((piece + back).subrange(0, piece.len() as int) =~= piece);
    let whole = front + piece + back;
    let rest = whole.subrange(front.len() as int, whole.len() as int);
    assert(rest =~= piece + back);
    assert(text_starts(rest, piece));
    assert forall|text: Seq<char>| #[trigger] text_starts(text, piece) implies text.len() >= piece.len()
        && text == piece + text.subrange(piece.len() as int, text.len() as int) by {
        assert(text =~= piece + text.subrange(piece.len() as int, text.len() as int));
    }
    assert forall|text: Seq<char>| #[trigger] text_contains(text, piece) implies exists|at: int|
        0 <= at <= text.len() - piece.len() && #[trigger] text.subrange(at, at + piece.len())
            == piece by {
        let at = choose|i: int|
            0 <= i <= text.len() && #[trigger] text_starts(text.subrange(i, text.len() as int), piece);
        let tail = text.subrange(at, text.len() as int);
        assert(tail.subrange(0, piece.len() as int) =~= text.subrange(at, at + piece.len()));
    }
}

/// Characters stand in a text in this order exactly where places for them can be
/// named, each behind the one before it.
pub proof fn law_subsequences_have_places(needle: Seq<char>, value: Seq<char>)
    ensures
        subsequence(needle, value) <==> exists|places: Seq<int>| #[trigger]
            stand_at(needle, value, places),
    decreases value.len(),
{
    if needle.len() == 0 {
        assert(stand_at(needle, value, Seq::empty()));
    } else if value.len() == 0 {
        assert forall|places: Seq<int>| !#[trigger] stand_at(needle, value, places) by {
            if stand_at(needle, value, places) {
                assert(0 <= places[0] < value.len());
            }
        }
    } else {
        let later = value.drop_first();
        let rest = if needle[0] == value[0] {
            needle.drop_first()
        } else {
            needle
        };
        law_subsequences_have_places(rest, later);
        if subsequence(needle, value) {
            let places = choose|places: Seq<int>| #[trigger] stand_at(rest, later, places);
            let shifted = Seq::new(places.len(), |i: int| places[i] + 1);
            if needle[0] == value[0] {
                let all = seq![0int] + shifted;
                assert forall|i: int| 0 <= i < all.len() implies 0 <= #[trigger] all[i] < value.len()
                    && needle[i] == value[all[i]] by {
                    if i > 0 {
                        assert(all[i] == places[i - 1] + 1);
                        assert(rest[i - 1] == later[places[i - 1]]);
                    }
                }
                assert forall|i: int, j: int| 0 <= i < j < all.len() implies #[trigger] all[i]
                    < #[trigger] all[j] by {
                    if i > 0 {
                        assert(places[i - 1] < places[j - 1]);
                    } else {
                        assert(0 <= places[j - 1]);
                    }
                }
                assert(stand_at(needle, value, all));
            } else {
                assert forall|i: int| 0 <= i < shifted.len() implies 0 <= #[trigger] shifted[i]
                    < value.len() && needle[i] == value[shifted[i]] by {
                    assert(rest[i] == later[places[i]]);
                }
                assert forall|i: int, j: int| 0 <= i < j < shifted.len() implies #[trigger] shifted[i]
                    < #[trigger] shifted[j] by {
                    assert(places[i] < places[j]);
                }
                assert(stand_at(needle, value, shifted));
            }
        }
        if exists|places: Seq<int>| #[trigger] stand_at(needle, value, places) {
            let places = choose|places: Seq<int>| #[trigger] stand_at(needle, value, places);
            assert(0 <= places[0] < value.len() && needle[0] == value[places[0]]);
            let kept = if needle[0] == value[0] {
                places.drop_first()
            } else {
                places
            };
            let shifted = Seq::new(kept.len(), |i: int| kept[i] - 1);
            let skipped: int = if needle[0] == value[0] {
                1
            } else {
                0
            };
            assert forall|i: int| 0 <= i < shifted.len() implies 0 <= #[trigger] shifted[i]
                < later.len() && rest[i] == later[shifted[i]] by {
                assert(kept[i] == places[i + skipped]);
                if i + skipped > 0 {
                    assert(places[0] < places[i + skipped]);
                }
                assert(needle[i + skipped] == value[places[i + skipped]]);
            }
            assert forall|i: int, j: int| 0 <= i < j < shifted.len() implies #[trigger] shifted[i]
                < #[trigger] shifted[j] by {
                assert(places[i + skipped] < places[j + skipped]);
            }
            assert(stand_at(rest, later, shifted));
        }
    }
}

/// Whether the characters of a text stand at these places of another, in order.
pub open spec fn stand_at(needle: Seq<char>, value: Seq<char>, places: Seq<int>) -> bool {
    &&& places.len() == needle.len()
    &&& forall|i: int|
        0 <= i < places.len() ==> 0 <= #[trigger] places[i] < value.len() && needle[i]
            == value[places[i]]
    &&& forall|i: int, j: int|
        0 <= i < j < places.len() ==> #[trigger] places[i] < #[trigger] places[j]
}

/// A plain first word, without quotes and backslashes, is what stands before the
/// next white space.
pub proof fn law_plain_first_words(lead: Seq<char>, word: Seq<char>, rest: Seq<char>)
    requires
        forall|i: int| 0 <= i < lead.len() ==> white_space(#[trigger] lead[i]),
        word.len() > 0,
        forall|i: int|
            0 <= i < word.len() ==> !white_space(#[trigger] word[i]) && word[i] != '\'' && word[i] != '"'
                && word[i] != '\\',
        rest.len() > 0 ==> white_space(rest[0]),
    ensures
        first_word_of(lead + word + rest) == Some(word),
    decreases lead.len(),
{
    let text = lead + word + rest;
    let fresh = WordView { quoting: Quoting::Plain, begun: false, word: Seq::empty() };
    if lead.len() > 0 {
        law_plain_first_words(lead.drop_first(), word, rest);
        assert(text[0] == lead[0]);
        assert(text.drop_first() =~= lead.drop_first() + word + rest);
    } else {
        assert(text =~= word + rest);
        lemma_plain_word(fresh, word, rest);
        assert(Seq::<char>::empty() + word =~= word);
    }
}

proof fn lemma_plain_word(read: WordView, word: Seq<char>, rest: Seq<char>)
    requires
        read.quoting is Plain,
        read.begun || word.len() > 0,
        forall|i: int|
            0 <= i < word.len() ==> !white_space(#[trigger] word[i]) && word[i] != '\'' && word[i] != '"'
                && word[i] != '\\',
        rest.len() > 0 ==> white_space(rest[0]),
    ensures
        word_from(read, word + rest) == Some(read.word + word),
    decreases word.len(),
{
    if word.len() == 0 {
        assert(word + rest =~= rest);
        assert(read.word + word =~= read.word);
    } else {
        let next = read.read(word[0]);
        assert((word + rest)[0] == word[0]);
        assert((word + rest).drop_first() =~= word.drop_first() + rest);
        lemma_plain_word(next, word.drop_first(), rest);
        assert(next.word + word.drop_first() =~= read.word + word);
    }
}

/// Lines are what line feeds separate: a line in front of the others comes first,
/// without a carriage return at its end.
pub proof fn law_lines_lie_between_line_feeds(line: Seq<char>, rest: Seq<char>)
    requires
        forall|i: int| 0 <= i < line.len() ==> #[trigger] line[i] != '\n',
    ensures
        lines_of(Seq::empty()).len() == 0,
        line.len() > 0 ==> lines_of(line) == seq![line],
        line.len() == 0 || line.last() != '\r' ==> lines_of(line.push('\n') + rest) == seq![line]
            + lines_of(rest),
        line.len() > 0 && line.last() == '\r' ==> lines_of(line.push('\n') + rest) == seq![
            line.drop_last(),
        ] + lines_of(rest),
{
    let text = line.push('\n') + rest;
    lemma_line_ends_there(text, 0, line.len() as int);
    lemma_line_ends_there(line, 0, line.len() as int);
    lemma_lines_from_elsewhere(line.push('\n'), rest, 0);
    assert(text.subrange(0, line.len() as int) =~= line);
    assert(line.subrange(0, line.len() as int) =~= line);
    if line.len() > 0 {
        assert(text[line.len() - 1] == line.last());
        assert(text.subrange(0, line.len() - 1) =~= line.drop_last());
    }
}

proof fn lemma_line_ends_there(text: Seq<char>, from: int, end: int)
    requires
        0 <= from <= end <= text.len(),
        forall|i: int| from <= i < end ==> #[trigger] text[i] != '\n',
        end == text.len() || text[end] == '\n',
    ensures
        line_end(text, from) == end,
    decreases end - from,
{
    if from < end {
        lemma_line_ends_there(text, from + 1, end);
    }
}

proof fn lemma_lines_from_elsewhere(front: Seq<char>, text: Seq<char>, from: int)
    requires
        0 <= from <= text.len(),
    ensures
        lines_from(front + text, front.len() + from) == lines_from(text, from),
    decreases text.len() - from,
{
    let whole = front + text;
    let shift = front.len() as int;
    if from < text.len() {
        lemma_line_end(text, from);
        lemma_shifted_line_end(front, text, from);
        let end = line_end(text, from);
        assert(whole.subrange(shift + from, shift + end) =~= text.subrange(from, end));
        if end < text.len() {
            lemma_lines_from_elsewhere(front, text, end + 1);
            if end > from {
                assert(whole[shift + end - 1] == text[end - 1]);
                assert(whole.subrange(shift + from, shift + end - 1) =~= text.subrange(from, end - 1));
            }
        }
    }
}

proof fn lemma_shifted_line_end(front: Seq<char>, text: Seq<char>, from: int)
    requires
        0 <= from <= text.len(),
    ensures
        line_end(front + text, front.len() + from) == front.len() + line_end(text, from),
    decreases text.len() - from,
{
    if from < text.len() {
        assert((front + text)[front.len() + from] == text[from]);
        if text[from] != '\n' {
            lemma_shifted_line_end(front, text, from + 1);
        }
    }
}

/// Quotes around a first word belong to the shell and not to the word, white space
/// between them does; a backslash takes the next character as it is. What is not
/// finished is no word.
pub proof fn law_quoted_first_words(quoted: Seq<char>, taken: char, rest: Seq<char>)
    requires
        forall|i: int|
            0 <= i < quoted.len() ==> #[trigger] quoted[i] != '\'' && quoted[i] != '"' && quoted[i]
                != '\\',
        rest.len() > 0 ==> white_space(rest[0]),
    ensures
        first_word_of(seq!['\''] + (quoted + (seq!['\''] + rest))) == Some(quoted),
        first_word_of(seq!['"'] + (quoted + (seq!['"'] + rest))) == Some(quoted),
        first_word_of(seq!['\\', taken] + rest) == Some(seq![taken]),
        first_word_of(seq!['\''] + quoted) is None,
        first_word_of(seq!['\\']) is None,
{
    let fresh = WordView { quoting: Quoting::Plain, begun: false, word: Seq::empty() };
    let single = WordView { quoting: Quoting::Single, begun: true, word: Seq::empty() };
    let double = WordView { quoting: Quoting::Double, begun: true, word: Seq::empty() };
    let closed_single = seq!['\''] + (quoted + (seq!['\''] + rest));
    let closed_double = seq!['"'] + (quoted + (seq!['"'] + rest));
    assert(closed_single[0] == '\'' && closed_double[0] == '"');
    assert(closed_single.drop_first() =~= quoted + (seq!['\''] + rest));
    assert(closed_double.drop_first() =~= quoted + (seq!['"'] + rest));
    assert(fresh.read('\'') == single && fresh.read('"') == double);
    lemma_quoted_word(single, quoted, '\'', rest);
    lemma_quoted_word(double, quoted, '"', rest);
    assert(Seq::<char>::empty() + quoted =~= quoted);
    let open = seq!['\''] + quoted;
    assert(open[0] == '\'');
    assert(open.drop_first() =~= quoted);
    lemma_open_word(single, quoted);
    let escaped = seq!['\\', taken] + rest;
    let begun = WordView { quoting: Quoting::Escaped, begun: true, word: Seq::empty() };
    let read = WordView { quoting: Quoting::Plain, begun: true, word: seq![taken] };
    assert(escaped[0] == '\\');
    assert(fresh.read('\\') == begun);
    assert(escaped.drop_first()[0] == taken);
    assert(escaped.drop_first().drop_first() =~= rest);
    assert(begun.read(taken).word =~= seq![taken]);
    assert(begun.read(taken) == read);
    lemma_plain_word(read, Seq::empty(), rest);
    assert(Seq::<char>::empty() + rest =~= rest);
    assert(seq![taken] + Seq::<char>::empty() =~= seq![taken]);
    assert(word_from(begun, escaped.drop_first()) == word_from(read, rest));
    assert(seq!['\\'].drop_first() =~= Seq::<char>::empty());
    assert(seq!['\\'][0] == '\\');
    assert(word_from(begun, Seq::empty()) is None);
    assert(word_from(fresh, seq!['\\']) == word_from(begun, seq!['\\'].drop_first()));
}

proof fn lemma_quoted_word(read: WordView, quoted: Seq<char>, quote: char, rest: Seq<char>)
    requires
        read.begun,
        read.quoting is Single && quote == '\'' || read.quoting is Double && quote == '"',
        forall|i: int|
            0 <= i < quoted.len() ==> #[trigger] quoted[i] != '\'' && quoted[i] != '"' && quoted[i]
                != '\\',
        rest.len() > 0 ==> white_space(rest[0]),
    ensures
        word_from(read, quoted + (seq![quote] + rest)) == Some(read.word + quoted),
    decreases quoted.len(),
{
    let text = quoted + (seq![quote] + rest);
    if quoted.len() == 0 {
        assert(text =~= seq![quote] + rest);
        assert(text[0] == quote);
        assert(text.drop_first() =~= rest);
        lemma_plain_word(read.read(quote), Seq::empty(), rest);
        assert(Seq::<char>::empty() + rest =~= rest);
        assert(read.word + Seq::<char>::empty() =~= read.word);
        assert(read.word + quoted =~= read.word);
    } else {
        assert(text[0] == quoted[0]);
        assert(quoted[0] != '\'' && quoted[0] != '"' && quoted[0] != '\\');
        assert(text.drop_first() =~= quoted.drop_first() + (seq![quote] + rest));
        lemma_quoted_word(read.read(quoted[0]), quoted.drop_first(), quote, rest);
        assert(read.read(quoted[0]).word + quoted.drop_first() =~= read.word + quoted);
    }
}

proof fn lemma_open_word(read: WordView, quoted: Seq<char>)
    requires
        read.quoting is Single,
        forall|i: int|
            0 <= i < quoted.len() ==> #[trigger] quoted[i] != '\'' && quoted[i] != '"' && quoted[i]
                != '\\',
    ensures
        word_from(read, quoted) is None,
    decreases quoted.len(),
{
    if quoted.len() > 0 {
        assert(quoted[0] != '\'');
        lemma_open_word(read.read(quoted[0]), quoted.drop_first());
    }
}

} // verus!
