//! Suggestions, the edits that they stand for, and the queries that they answer.

use std::ops::Range;

use vstd::prelude::*;
use vstd::string::*;
use vstd::utf8::*;

use crate::text::{
    law_cut_texts_are_their_bytes, lemma_encode_concat, split_text, text_before, text_behind, text_len,
};

verus! {

/// Where a suggestion comes from.
#[derive(Clone, Copy, Debug, PartialEq, Eq, Structural)]
pub enum SuggestionSource {
    /// A command specification or a related local source.
    Spec,
    /// Shell history.
    History,
    /// A language-model provider.
    Ai,
}

/// What is inserted besides the replacement itself.
#[derive(Clone, Copy, Debug, PartialEq, Eq, Structural)]
pub enum InsertionBehavior {
    /// Nothing.
    Exact,
    /// One space behind the replacement.
    AppendSpace,
}

/// A range that does not delimit text of the line.
#[derive(Clone, Copy, Debug, PartialEq, Eq, Structural)]
pub enum EditError {
    /// The range is reversed, exceeds the line, or splits a character.
    InvalidRange {
        /// First byte of the range.
        start: usize,
        /// Byte behind the range.
        end: usize,
        /// Bytes in the line.
        line_bytes: usize,
    },
}

/// Whether bytes `start..end` of `line` are whole characters.
pub open spec fn valid_range(line: Seq<char>, start: int, end: int) -> bool {
    &&& start <= end
    &&& is_char_boundary(encode_utf8(line), start)
    &&& is_char_boundary(encode_utf8(line), end)
}

/// `line` with its bytes `start..end` replaced.
pub open spec fn edited_line(line: Seq<char>, start: int, end: int, replacement: Seq<char>) -> Seq<char> {
    text_before(line, start) + replacement + text_behind(line, end)
}

/// Replacement of a byte range.
#[derive(Debug, PartialEq, Eq)]
pub struct TextEdit {
    /// Bytes to replace.
    pub range: Range<usize>,
    /// Text to put in their place.
    pub replacement: String,
}

impl Clone for TextEdit {
    fn clone(&self) -> (copy: Self)
        ensures
            copy == *self,
    {
        TextEdit {
            range: Range { start: self.range.start, end: self.range.end },
            replacement: self.replacement.clone(),
        }
    }
}

impl TextEdit {
    /// Applies the edit to `line`.
    pub fn apply(&self, line: &str) -> (result: Result<String, EditError>)
        ensures
            result is Ok <==> valid_range(line@, self.range.start as int, self.range.end as int),
            result matches Ok(text) ==> text@ == edited_line(
                line@,
                self.range.start as int,
                self.range.end as int,
                self.replacement@,
            ),
            result matches Err(error) ==> error == (EditError::InvalidRange {
                start: self.range.start,
                end: self.range.end,
                line_bytes: encode_utf8(line@).len() as usize,
            }),
    {
        if self.range.start > self.range.end || !line.is_char_boundary(self.range.start)
            || !line.is_char_boundary(self.range.end) {
            return Err(
                EditError::InvalidRange {
                    start: self.range.start,
                    end: self.range.end,
                    line_bytes: text_len(line),
                },
            );
        }
        let mut text: String = split_text(line, self.range.start).0.to_owned();
        text.append(self.replacement.as_str());
        text.append(split_text(line, self.range.end).1);
        Ok(text)
    }
}

/// One inert completion suggestion.
#[derive(PartialEq, Eq)]
pub struct Suggestion {
    /// Edit of the query line.
    pub edit: TextEdit,
    /// Text shown in the menu.
    pub display: String,
    /// Explanation shown beside it.
    pub description: String,
    /// Name of its icon.
    pub icon: String,
    /// Where it comes from.
    pub source: SuggestionSource,
    /// What is inserted besides the replacement.
    pub insertion: InsertionBehavior,
    /// Name by which its provider knows it.
    pub identity: String,
}

impl Clone for Suggestion {
    fn clone(&self) -> (copy: Self)
        ensures
            copy == *self,
    {
        Suggestion {
            edit: self.edit.clone(),
            display: self.display.clone(),
            description: self.description.clone(),
            icon: self.icon.clone(),
            source: self.source,
            insertion: self.insertion,
            identity: self.identity.clone(),
        }
    }
}

impl Suggestion {
    /// Replacement with what the insertion behavior adds.
    pub open spec fn inserted(self) -> Seq<char> {
        match self.insertion {
            InsertionBehavior::Exact => self.edit.replacement@,
            InsertionBehavior::AppendSpace => self.edit.replacement@ + seq![' '],
        }
    }

    /// Line that accepting the suggestion gives, where its range fits `line`.
    pub open spec fn accepted_line(self, line: Seq<char>) -> Option<Seq<char>> {
        if valid_range(line, self.edit.range.start as int, self.edit.range.end as int) {
            Some(
                edited_line(
                    line,
                    self.edit.range.start as int,
                    self.edit.range.end as int,
                    self.inserted(),
                ),
            )
        } else {
            None
        }
    }

    /// Bundles a suggestion.
    pub fn new(
        edit: TextEdit,
        display: String,
        description: String,
        icon: String,
        source: SuggestionSource,
        insertion: InsertionBehavior,
        identity: String,
    ) -> (suggestion: Self)
        ensures
            suggestion == (Suggestion {
                edit,
                display,
                description,
                icon,
                source,
                insertion,
                identity,
            }),
    {
        Suggestion { edit, display, description, icon, source, insertion, identity }
    }

    /// Edit of the query line.
    pub fn edit(&self) -> (edit: &TextEdit)
        ensures
            *edit == self.edit,
    {
        &self.edit
    }

    /// Text shown in the menu.
    pub fn display(&self) -> (display: &str)
        ensures
            display@ == self.display@,
    {
        self.display.as_str()
    }

    /// Where the suggestion comes from.
    pub fn source(&self) -> (source: SuggestionSource)
        ensures
            source == self.source,
    {
        self.source
    }

    /// What is inserted besides the replacement.
    pub fn insertion(&self) -> (insertion: InsertionBehavior)
        ensures
            insertion == self.insertion,
    {
        self.insertion
    }

    /// Name by which its provider knows it.
    pub fn identity(&self) -> (identity: &str)
        ensures
            identity@ == self.identity@,
    {
        self.identity.as_str()
    }

    /// Edit with the insertion behavior spelled out, where its range fits `line`.
    pub fn resolved_edit(&self, line: &str) -> (result: Result<TextEdit, EditError>)
        ensures
            result is Ok <==> self.accepted_line(line@) is Some,
            result matches Ok(edit) ==> {
                &&& edit.range == self.edit.range
                &&& edit.replacement@ == self.inserted()
            },
    {
        if self.edit.range.start > self.edit.range.end || !line.is_char_boundary(self.edit.range.start)
            || !line.is_char_boundary(self.edit.range.end) {
            return Err(
                EditError::InvalidRange {
                    start: self.edit.range.start,
                    end: self.edit.range.end,
                    line_bytes: text_len(line),
                },
            );
        }
        let mut edit: TextEdit = self.edit.clone();
        match self.insertion {
            InsertionBehavior::Exact => {},
            InsertionBehavior::AppendSpace => {
                proof {
                    reveal_strlit(" ");
                    assert(" "@ =~= seq![' ']);
                }
                edit.replacement.append(" ");
            },
        }
        Ok(edit)
    }

    /// Line that accepting the suggestion gives.
    pub fn resulting_line(&self, line: &str) -> (result: Option<String>)
        ensures
            result is Some <==> self.accepted_line(line@) is Some,
            result matches Some(text) ==> self.accepted_line(line@) == Some(text@),
    {
        match self.resolved_edit(line) {
            Err(_) => None,
            Ok(edit) => match edit.apply(line) {
                Err(_) => None,
                Ok(text) => Some(text),
            },
        }
    }
}

/// A query as a value.
#[verifier::ext_equal]
pub struct QueryView {
    pub generation: u64,
    pub line: Seq<char>,
    pub cursor: int,
    pub cwd: Seq<u8>,
}

/// One immutable question to the completion providers.
#[derive(PartialEq, Eq)]
pub struct CompletionQuery {
    /// Generation that distinguishes this query from every other one.
    pub generation: u64,
    /// Whole editing buffer.
    pub line: String,
    /// Byte offset of the cursor in it.
    pub cursor: usize,
    /// Working directory.
    pub cwd: Vec<u8>,
}

impl View for CompletionQuery {
    type V = QueryView;

    open spec fn view(&self) -> QueryView {
        QueryView {
            generation: self.generation,
            line: self.line@,
            cursor: self.cursor as int,
            cwd: self.cwd@,
        }
    }
}

impl Clone for CompletionQuery {
    fn clone(&self) -> (copy: Self)
        ensures
            copy@ == self@,
    {
        CompletionQuery {
            generation: self.generation,
            line: self.line.clone(),
            cursor: self.cursor,
            cwd: crate::text::copy_bytes(self.cwd.as_slice()),
        }
    }
}

impl CompletionQuery {
    /// Text in front of the cursor.
    pub fn prefix(&self) -> (prefix: &str)
        requires
            is_char_boundary(encode_utf8(self.line@), self.cursor as int),
        ensures
            prefix@ == text_before(self.line@, self.cursor as int),
    {
        split_text(self.line.as_str(), self.cursor).0
    }
}

/// Complete reply of one provider to one query.
pub struct ProviderBatch {
    /// Name of the provider.
    pub provider: String,
    /// Generation of the query.
    pub generation: u64,
    /// Suggestions, best first.
    pub suggestions: Vec<Suggestion>,
    /// Why there are none.
    pub error: Option<String>,
}

impl ProviderBatch {
    /// Reply with suggestions.
    pub fn success(provider: &str, generation: u64, suggestions: Vec<Suggestion>) -> (batch: Self)
        ensures
            batch.provider@ == provider@,
            batch.generation == generation,
            batch.suggestions == suggestions,
            batch.error is None,
    {
        ProviderBatch { provider: provider.to_owned(), generation, suggestions, error: None }
    }

    /// Reply that reports a failure.
    pub fn failure(provider: &str, generation: u64, error: &str) -> (batch: Self)
        ensures
            batch.provider@ == provider@,
            batch.generation == generation,
            batch.suggestions@ == Seq::<Suggestion>::empty(),
            batch.error matches Some(text) && text@ == error@,
    {
        ProviderBatch {
            provider: provider.to_owned(),
            generation,
            suggestions: Vec::new(),
            error: Some(error.to_owned()),
        }
    }
}

/// An edit replaces exactly its bytes: what stands before and behind them stays.
pub proof fn law_edits_keep_the_rest_of_the_line(
    line: Seq<char>,
    start: int,
    end: int,
    replacement: Seq<char>,
)
    requires
        start <= end,
        is_char_boundary(encode_utf8(line), start),
        is_char_boundary(encode_utf8(line), end),
    ensures
        valid_range(line, start, end),
        0 <= start <= end <= encode_utf8(line).len(),
        encode_utf8(edited_line(line, start, end, replacement)) == encode_utf8(line).subrange(0, start)
            + encode_utf8(replacement) + encode_utf8(line).subrange(
            end,
            encode_utf8(line).len() as int,
        ),
{
    law_cut_texts_are_their_bytes(line, start);
    law_cut_texts_are_their_bytes(line, end);
    lemma_encode_concat(text_before(line, start), replacement);
    lemma_encode_concat(text_before(line, start) + replacement, text_behind(line, end));
}

/// A suggestion is accepted exactly where its range delimits characters of the
/// line. It then puts its replacement, with a space behind it where it asks for
/// one, in place of that range, and changes nothing else.
pub proof fn law_accepted_suggestions_edit_their_range(candidate: Suggestion, line: Seq<char>)
    ensures
        candidate.accepted_line(line) is Some <==> {
            &&& candidate.edit.range.start <= candidate.edit.range.end
            &&& is_char_boundary(encode_utf8(line), candidate.edit.range.start as int)
            &&& is_char_boundary(encode_utf8(line), candidate.edit.range.end as int)
        },
        candidate.insertion is Exact ==> candidate.inserted() == candidate.edit.replacement@,
        candidate.insertion is AppendSpace ==> candidate.inserted() == candidate.edit.replacement@.push(
            ' ',
        ),
        candidate.accepted_line(line) matches Some(text) ==> {
            let bytes = encode_utf8(line);
            let added = if candidate.insertion is AppendSpace {
                candidate.edit.replacement@.push(' ')
            } else {
                candidate.edit.replacement@
            };
            encode_utf8(text) == bytes.subrange(0, candidate.edit.range.start as int) + encode_utf8(
                added,
            ) + bytes.subrange(candidate.edit.range.end as int, bytes.len() as int)
        },
{
    assert(candidate.edit.replacement@ + seq![' '] =~= candidate.edit.replacement@.push(' '));
    let start = candidate.edit.range.start as int;
    let end = candidate.edit.range.end as int;
    if candidate.accepted_line(line) is Some {
        law_edits_keep_the_rest_of_the_line(line, start, end, candidate.inserted());
    }
}

} // verus!
