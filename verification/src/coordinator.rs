//! Authority over completion queries: one active query at a time, replies only
//! for that query, and one selection over the ranked result.

use vstd::prelude::*;
use vstd::string::*;
use vstd::utf8::*;

use crate::completion::{CompletionQuery, ProviderBatch, QueryView, Suggestion};
use crate::selection::{SelectionState, SelectionView, UpdateOutcome};
use crate::shell_events::absolute_path;
use crate::text::{append_number, decimal_chars, text_equal, text_len};

verus! {

/// Most bytes in a query line.
pub const MAX_QUERY_LINE_BYTES: usize = 16 * 1024;

/// Most bytes in the working directory of a query.
pub const MAX_QUERY_CWD_BYTES: usize = 16 * 1024;

/// Most suggestions in one reply.
pub const MAX_BATCH_CANDIDATES: usize = 500;

/// Most text bytes in one suggestion.
pub const MAX_CANDIDATE_BYTES: usize = 32 * 1024;

/// Most text bytes in one reply.
pub const MAX_BATCH_BYTES: usize = 512 * 1024;

/// Unusable providers or row limit.
#[derive(Clone, Copy, Debug, PartialEq, Eq, Structural)]
pub enum RegistrationError {
    /// No provider was named.
    NoProviders,
    /// A provider was named twice.
    DuplicateProvider,
    /// The row limit is zero or exceeds [`MAX_BATCH_CANDIDATES`].
    InvalidRowLimit,
}

impl RegistrationError {
    /// Text of [`Self::message`].
    pub open spec fn text(self) -> Seq<char> {
        match self {
            RegistrationError::NoProviders => "no completion provider is registered"@,
            RegistrationError::DuplicateProvider => "a completion provider is registered twice"@,
            RegistrationError::InvalidRowLimit => "the suggestion row limit is invalid"@,
        }
    }

    /// Human-readable description.
    pub fn message(&self) -> (message: String)
        ensures
            message@ == self.text(),
    {
        match *self {
            RegistrationError::NoProviders => "no completion provider is registered".to_owned(),
            RegistrationError::DuplicateProvider => {
                "a completion provider is registered twice".to_owned()
            },
            RegistrationError::InvalidRowLimit => "the suggestion row limit is invalid".to_owned(),
        }
    }
}

/// A query that cannot be asked.
#[derive(Clone, Copy, Debug, PartialEq, Eq, Structural)]
pub enum QueryStartError {
    /// The line exceeds [`MAX_QUERY_LINE_BYTES`].
    LineTooLarge {
        /// Observed bytes.
        bytes: usize,
        /// Hard byte limit.
        limit: usize,
    },
    /// The cursor is outside the line or splits a character.
    InvalidCursor {
        /// Supplied byte cursor.
        cursor: usize,
        /// Bytes in the line.
        line_bytes: usize,
    },
    /// The working directory exceeds [`MAX_QUERY_CWD_BYTES`].
    CwdTooLarge {
        /// Observed bytes.
        bytes: usize,
        /// Hard byte limit.
        limit: usize,
    },
    /// The working directory is empty or relative.
    CwdNotAbsolute,
    /// Every query generation was issued.
    GenerationExhausted,
}

impl QueryStartError {
    /// Text of [`Self::debug_text`].
    pub open spec fn debug_chars(self) -> Seq<char> {
        match self {
            QueryStartError::LineTooLarge { bytes, limit } => "LineTooLarge { bytes: "@ + decimal_chars(
                bytes as nat,
            ) + ", limit: "@ + decimal_chars(limit as nat) + " }"@,
            QueryStartError::InvalidCursor { cursor, line_bytes } => "InvalidCursor { cursor: "@
                + decimal_chars(cursor as nat) + ", line_bytes: "@ + decimal_chars(line_bytes as nat)
                + " }"@,
            QueryStartError::CwdTooLarge { bytes, limit } => "CwdTooLarge { bytes: "@ + decimal_chars(
                bytes as nat,
            ) + ", limit: "@ + decimal_chars(limit as nat) + " }"@,
            QueryStartError::CwdNotAbsolute => "CwdNotAbsolute"@,
            QueryStartError::GenerationExhausted => "GenerationExhausted"@,
        }
    }

    /// Diagnostic name with its numbers.
    pub fn debug_text(&self) -> (summary: String)
        ensures
            summary@ == self.debug_chars(),
    {
        match *self {
            QueryStartError::LineTooLarge { bytes, limit } => {
                let mut summary = "LineTooLarge { bytes: ".to_owned();
                append_number(&mut summary, bytes as u128);
                summary.append(", limit: ");
                append_number(&mut summary, limit as u128);
                summary.append(" }");
                summary
            },
            QueryStartError::InvalidCursor { cursor, line_bytes } => {
                let mut summary = "InvalidCursor { cursor: ".to_owned();
                append_number(&mut summary, cursor as u128);
                summary.append(", line_bytes: ");
                append_number(&mut summary, line_bytes as u128);
                summary.append(" }");
                summary
            },
            QueryStartError::CwdTooLarge { bytes, limit } => {
                let mut summary = "CwdTooLarge { bytes: ".to_owned();
                append_number(&mut summary, bytes as u128);
                summary.append(", limit: ");
                append_number(&mut summary, limit as u128);
                summary.append(" }");
                summary
            },
            QueryStartError::CwdNotAbsolute => "CwdNotAbsolute".to_owned(),
            QueryStartError::GenerationExhausted => "GenerationExhausted".to_owned(),
        }
    }
}

/// Why a reply or a ranking has no authority.
#[derive(Clone, Copy, Debug, PartialEq, Eq, Structural)]
pub enum AuthorityRejection {
    /// No query is active.
    NoActiveQuery,
    /// It belongs to another query than the active one.
    OtherGeneration {
        /// Generation that it names.
        received: u64,
        /// Generation of the active query.
        active: u64,
    },
}

/// Why a reply was not accepted.
#[derive(Clone, Copy, Debug, PartialEq, Eq, Structural)]
pub enum BatchRejection {
    /// It has no authority.
    Authority(AuthorityRejection),
    /// Its provider is not registered.
    UnknownProvider,
    /// It holds more than [`MAX_BATCH_CANDIDATES`] suggestions.
    TooManyCandidates,
}

/// Disposition of a reply.
#[derive(Clone, Copy, Debug, PartialEq, Eq, Structural)]
pub enum BatchOutcome {
    /// It replaced the provider's earlier reply; so many suggestions are held.
    Accepted(usize),
    /// Nothing changed.
    Rejected(BatchRejection),
}

/// Why a ranking was not presented.
#[derive(Clone, Copy, Debug, PartialEq, Eq, Structural)]
pub enum PresentationRejection {
    /// It has no authority.
    Authority(AuthorityRejection),
    /// It does not keep the edit that the user selected.
    SelectionConflict,
}

/// Disposition of a ranking.
#[derive(Clone, Copy, Debug, PartialEq, Eq, Structural)]
pub enum PresentationOutcome {
    /// It is presented in so many rows.
    Applied {
        /// Rows of the menu.
        rows: usize,
    },
    /// Nothing changed.
    Rejected(PresentationRejection),
}

/// One query for the providers.
pub struct QueryWork {
    query: CompletionQuery,
}

impl View for QueryWork {
    type V = QueryView;

    closed spec fn view(&self) -> QueryView {
        self.query@
    }
}

impl QueryWork {
    /// The query.
    pub fn query(&self) -> (query: &CompletionQuery)
        ensures
            query@ == self@,
    {
        &self.query
    }
}

/// Why a query cannot be asked, apart from the generations.
pub open spec fn query_error(line: Seq<char>, cursor: int, cwd: Seq<u8>) -> Option<QueryStartError> {
    let bytes = encode_utf8(line).len();
    if bytes > MAX_QUERY_LINE_BYTES {
        Some(QueryStartError::LineTooLarge { bytes: bytes as usize, limit: MAX_QUERY_LINE_BYTES })
    } else if !is_char_boundary(encode_utf8(line), cursor) {
        Some(QueryStartError::InvalidCursor { cursor: cursor as usize, line_bytes: bytes as usize })
    } else if cwd.len() > MAX_QUERY_CWD_BYTES {
        Some(QueryStartError::CwdTooLarge { bytes: cwd.len() as usize, limit: MAX_QUERY_CWD_BYTES })
    } else if !absolute_path(cwd) {
        Some(QueryStartError::CwdNotAbsolute)
    } else {
        None
    }
}

/// Why these providers and this row limit cannot be used.
pub open spec fn registration_error(providers: Seq<Seq<char>>, limit: usize) -> Option<RegistrationError> {
    if providers.len() == 0 {
        Some(RegistrationError::NoProviders)
    } else if !providers.no_duplicates() {
        Some(RegistrationError::DuplicateProvider)
    } else if limit == 0 || limit > MAX_BATCH_CANDIDATES {
        Some(RegistrationError::InvalidRowLimit)
    } else {
        None
    }
}

/// Coordinator state as a value.
#[verifier::ext_equal]
pub struct CoordinatorView {
    /// Provider names.
    pub providers: Seq<Seq<char>>,
    /// Most rows that are presented.
    pub limit: usize,
    /// Generation of the next query, unless they are exhausted.
    pub next_generation: Option<u64>,
    /// Active query.
    pub active: Option<QueryView>,
    /// Reply of each provider to the active query.
    pub replies: Seq<Seq<Suggestion>>,
    /// Selection over the presented rows.
    pub selection: SelectionView,
}

/// Providers that have not replied.
pub open spec fn no_replies(count: nat) -> Seq<Seq<Suggestion>> {
    Seq::new(count, |i: int| Seq::<Suggestion>::empty())
}

/// All replies, in the order of the providers.
pub open spec fn merged(replies: Seq<Seq<Suggestion>>) -> Seq<Suggestion>
    decreases replies.len(),
{
    if replies.len() == 0 {
        Seq::empty()
    } else {
        merged(replies.drop_last()) + replies.last()
    }
}

impl CoordinatorView {
    /// Well-formedness: one reply for each provider, a usable row limit, a
    /// well-formed selection, and a valid query older than every query to come.
    #[verifier::opaque]
    pub open spec fn inv(self) -> bool {
        &&& registration_error(self.providers, self.limit) is None
        &&& self.replies.len() == self.providers.len()
        &&& self.selection.inv()
        &&& self.active matches Some(query) ==> {
            &&& query_error(query.line, query.cursor, query.cwd) is None
            &&& self.next_generation matches Some(next) ==> query.generation < next
            &&& self.selection.generation == query.generation
        }
    }

    /// Coordinator of a fresh session.
    pub open spec fn fresh(providers: Seq<Seq<char>>, limit: usize) -> Self {
        CoordinatorView {
            providers,
            limit,
            next_generation: Some(0),
            active: None,
            replies: no_replies(providers.len()),
            selection: SelectionView::fresh(),
        }
    }

    /// Why something for `generation` has no authority.
    pub open spec fn refusal(self, generation: u64) -> Option<AuthorityRejection> {
        match self.active {
            None => Some(AuthorityRejection::NoActiveQuery),
            Some(query) => if query.generation != generation {
                Some(
                    AuthorityRejection::OtherGeneration {
                        received: generation,
                        active: query.generation,
                    },
                )
            } else {
                None
            },
        }
    }

    /// Coordinator without an active query.
    pub open spec fn cancelled(self) -> Self {
        CoordinatorView { active: None, ..self }
    }

    /// Coordinator with its selection replaced.
    pub open spec fn with_selection(self, selection: SelectionView) -> Self {
        CoordinatorView { selection, ..self }
    }

    /// Why a query cannot be asked.
    #[verifier::opaque]
    pub open spec fn start_error(self, line: Seq<char>, cursor: int, cwd: Seq<u8>) -> Option<QueryStartError> {
        match query_error(line, cursor, cwd) {
            Some(error) => Some(error),
            None => if self.next_generation is None {
                Some(QueryStartError::GenerationExhausted)
            } else {
                None
            },
        }
    }

    /// Query that asking gives.
    pub open spec fn started_query(self, line: Seq<char>, cursor: int, cwd: Seq<u8>) -> QueryView {
        QueryView { generation: self.next_generation->0, line, cursor, cwd }
    }

    /// Coordinator after asking.
    #[verifier::opaque]
    pub open spec fn after_start(self, line: Seq<char>, cursor: int, cwd: Seq<u8>) -> Self {
        if self.start_error(line, cursor, cwd) is Some {
            self
        } else {
            let generation = self.next_generation->0;
            CoordinatorView {
                next_generation: if generation < u64::MAX {
                    Some((generation + 1) as u64)
                } else {
                    None
                },
                active: Some(self.started_query(line, cursor, cwd)),
                replies: no_replies(self.providers.len()),
                selection: self.selection.after_query(generation, Seq::empty()),
                ..self
            }
        }
    }

    /// Effect of a reply.
    #[verifier::opaque]
    pub open spec fn after_reply(self, provider: Seq<char>, generation: u64, suggestions: Seq<Suggestion>) -> (
        Self,
        BatchOutcome,
    ) {
        match self.refusal(generation) {
            Some(rejection) => (self, BatchOutcome::Rejected(BatchRejection::Authority(rejection))),
            None => if !self.providers.contains(provider) {
                (self, BatchOutcome::Rejected(BatchRejection::UnknownProvider))
            } else if suggestions.len() > MAX_BATCH_CANDIDATES {
                (self, BatchOutcome::Rejected(BatchRejection::TooManyCandidates))
            } else {
                (
                    CoordinatorView {
                        replies: self.replies.update(self.providers.index_of(provider), suggestions),
                        ..self
                    },
                    BatchOutcome::Accepted(suggestions.len() as usize),
                )
            },
        }
    }

    /// Effect of a ranking.
    #[verifier::opaque]
    pub open spec fn after_ranking(self, generation: u64, ranked: Seq<Suggestion>) -> (
        Self,
        PresentationOutcome,
    ) {
        match self.refusal(generation) {
            Some(rejection) => (
                self,
                PresentationOutcome::Rejected(PresentationRejection::Authority(rejection)),
            ),
            None => {
                let (selection, outcome) = self.selection.after_update(
                    generation,
                    ranked,
                    self.limit as int,
                );
                if outcome is Applied {
                    (
                        self.with_selection(selection),
                        PresentationOutcome::Applied { rows: selection.candidates.len() as usize },
                    )
                } else {
                    (self, PresentationOutcome::Rejected(PresentationRejection::SelectionConflict))
                }
            },
        }
    }
}

/// Names as values.
pub open spec fn name_views(names: Seq<String>) -> Seq<Seq<char>> {
    names.map_values(|name: String| name@)
}

/// Owns the active query, the replies to it and the selection over them.
pub struct CompletionCoordinator {
    providers: Vec<String>,
    ui_limit: usize,
    next_generation: Option<u64>,
    active: Option<CompletionQuery>,
    replies: Vec<Vec<Suggestion>>,
    selection: SelectionState,
}

/// Replies as values.
pub open spec fn reply_views(replies: Seq<Vec<Suggestion>>) -> Seq<Seq<Suggestion>> {
    replies.map_values(|reply: Vec<Suggestion>| reply@)
}

impl View for CompletionCoordinator {
    type V = CoordinatorView;

    closed spec fn view(&self) -> CoordinatorView {
        CoordinatorView {
            providers: name_views(self.providers@),
            limit: self.ui_limit,
            next_generation: self.next_generation,
            active: match self.active {
                Some(query) => Some(query@),
                None => None,
            },
            replies: reply_views(self.replies@),
            selection: self.selection@,
        }
    }
}

fn empty_replies(count: usize) -> (replies: Vec<Vec<Suggestion>>)
    ensures
        reply_views(replies@) == no_replies(count as nat),
{
    let mut replies: Vec<Vec<Suggestion>> = Vec::new();
    let mut i: usize = 0;
    while i < count
        invariant
            0 <= i <= count,
            replies@.len() == i,
            forall|j: int| 0 <= j < i ==> (#[trigger] replies@[j])@ == Seq::<Suggestion>::empty(),
        decreases count - i,
    {
        replies.push(Vec::new());
        i = i + 1;
    }
    assert(reply_views(replies@) =~= no_replies(count as nat));
    replies
}

fn find_name(names: &Vec<String>, name: &str) -> (index: usize)
    ensures
        index <= names@.len(),
        index < names@.len() ==> names@[index as int]@ == name@,
        forall|j: int| 0 <= j < index ==> (#[trigger] names@[j])@ != name@,
{
    let mut i: usize = 0;
    while i < names.len()
        invariant
            0 <= i <= names@.len(),
            forall|j: int| 0 <= j < i ==> (#[trigger] names@[j])@ != name@,
        decreases names@.len() - i,
    {
        if text_equal(names[i].as_str(), name) {
            return i;
        }
        i = i + 1;
    }
    i
}

fn names_are_distinct(names: &Vec<String>) -> (distinct: bool)
    ensures
        distinct == name_views(names@).no_duplicates(),
{
    let mut i: usize = 0;
    while i < names.len()
        invariant
            0 <= i <= names@.len(),
            forall|a: int, b: int|
                0 <= a < b < names@.len() && a < i ==> (#[trigger] names@[a])@ != (#[trigger] names@[b])@,
        decreases names@.len() - i,
    {
        let mut j: usize = i + 1;
        while j < names.len()
            invariant
                0 <= i < j <= names@.len(),
                forall|b: int| i < b < j ==> names@[i as int]@ != (#[trigger] names@[b])@,
            decreases names@.len() - j,
        {
            if text_equal(names[i].as_str(), names[j].as_str()) {
                assert(name_views(names@)[i as int] == name_views(names@)[j as int]);
                return false;
            }
            j = j + 1;
        }
        i = i + 1;
    }
    assert forall|a: int, b: int| 0 <= a < names@.len() && 0 <= b < names@.len() && a != b implies
        name_views(names@)[a] != name_views(names@)[b] by {
        if a < b {
            assert(names@[a]@ != names@[b]@);
        } else {
            assert(names@[b]@ != names@[a]@);
        }
    }
    true
}

impl CompletionCoordinator {
    /// Registers the providers and the row limit.
    pub fn new(providers: Vec<String>, ui_max_suggestions: usize) -> (result: Result<
        Self,
        RegistrationError,
    >)
        ensures
            match result {
                Ok(coordinator) => {
                    &&& registration_error(name_views(providers@), ui_max_suggestions) is None
                    &&& coordinator@ == CoordinatorView::fresh(
                        name_views(providers@),
                        ui_max_suggestions,
                    )
                    &&& coordinator@.inv()
                },
                Err(error) => registration_error(name_views(providers@), ui_max_suggestions) == Some(
                    error,
                ),
            },
    {
        proof {
            reveal(CoordinatorView::inv);
        }
        if providers.len() == 0 {
            return Err(RegistrationError::NoProviders);
        }
        if !names_are_distinct(&providers) {
            return Err(RegistrationError::DuplicateProvider);
        }
        if ui_max_suggestions == 0 || ui_max_suggestions > MAX_BATCH_CANDIDATES {
            return Err(RegistrationError::InvalidRowLimit);
        }
        let replies = empty_replies(providers.len());
        Ok(
            CompletionCoordinator {
                providers,
                ui_limit: ui_max_suggestions,
                next_generation: Some(0),
                active: None,
                replies,
                selection: SelectionState::default(),
            },
        )
    }

    /// Changes the row limit for later rankings.
    pub fn reconfigure_ui_limit(&mut self, ui_max_suggestions: usize) -> (result: Result<
        (),
        RegistrationError,
    >)
        requires
            old(self)@.inv(),
        ensures
            final(self)@.inv(),
            match result {
                Ok(()) => 1 <= ui_max_suggestions <= MAX_BATCH_CANDIDATES && final(self)@ == (
                CoordinatorView { limit: ui_max_suggestions, ..old(self)@ }),
                Err(error) => !(1 <= ui_max_suggestions <= MAX_BATCH_CANDIDATES) && error
                    == RegistrationError::InvalidRowLimit && final(self)@ == old(self)@,
            },
    {
        proof {
            reveal(CoordinatorView::inv);
        }
        if ui_max_suggestions == 0 || ui_max_suggestions > MAX_BATCH_CANDIDATES {
            return Err(RegistrationError::InvalidRowLimit);
        }
        self.ui_limit = ui_max_suggestions;
        Ok(())
    }

    /// Selection over the presented rows.
    pub fn selection(&self) -> (selection: &SelectionState)
        ensures
            selection@ == self@.selection,
    {
        &self.selection
    }

    /// Active query, if any.
    pub fn active_query(&self) -> (query: Option<&CompletionQuery>)
        ensures
            match query {
                Some(q) => self@.active == Some(q@),
                None => self@.active is None,
            },
    {
        match &self.active {
            Some(query) => Some(query),
            None => None,
        }
    }

    /// Whether `work` is still the active query.
    pub fn is_current(&self, work: &QueryWork) -> (current: bool)
        ensures
            current == (self@.refusal(work@.generation) is None),
    {
        self.refusal(work.query.generation).is_none()
    }

    fn refusal(&self, generation: u64) -> (refusal: Option<AuthorityRejection>)
        ensures
            refusal == self@.refusal(generation),
    {
        match &self.active {
            None => Some(AuthorityRejection::NoActiveQuery),
            Some(query) => if query.generation != generation {
                Some(
                    AuthorityRejection::OtherGeneration {
                        received: generation,
                        active: query.generation,
                    },
                )
            } else {
                None
            },
        }
    }

    /// Asks a query in place of the active one.
    pub fn start_query(&mut self, line: String, cursor: usize, cwd: Vec<u8>) -> (result: Result<
        QueryWork,
        QueryStartError,
    >)
        requires
            old(self)@.inv(),
        ensures
            final(self)@.inv(),
            final(self)@ == old(self)@.after_start(line@, cursor as int, cwd@),
            match result {
                Ok(work) => {
                    &&& old(self)@.start_error(line@, cursor as int, cwd@) is None
                    &&& work@ == old(self)@.started_query(line@, cursor as int, cwd@)
                },
                Err(error) => {
                    &&& old(self)@.start_error(line@, cursor as int, cwd@) == Some(error)
                    &&& final(self)@ == old(self)@
                },
            },
    {
        proof {
            reveal(CoordinatorView::inv);
            reveal(CoordinatorView::after_start);
            reveal(CoordinatorView::start_error);
        }
        let bytes: usize = text_len(line.as_str());
        if bytes > MAX_QUERY_LINE_BYTES {
            return Err(QueryStartError::LineTooLarge { bytes, limit: MAX_QUERY_LINE_BYTES });
        }
        if !line.as_str().is_char_boundary(cursor) {
            return Err(QueryStartError::InvalidCursor { cursor, line_bytes: bytes });
        }
        if cwd.len() > MAX_QUERY_CWD_BYTES {
            return Err(
                QueryStartError::CwdTooLarge { bytes: cwd.len(), limit: MAX_QUERY_CWD_BYTES },
            );
        }
        if cwd.len() == 0 || cwd[0] != 47 {
            return Err(QueryStartError::CwdNotAbsolute);
        }
        match self.next_generation {
            None => Err(QueryStartError::GenerationExhausted),
            Some(generation) => {
                self.next_generation = generation.checked_add(1);
                let query = CompletionQuery { generation, line, cursor, cwd };
                let work = QueryWork { query: query.clone() };
                self.active = Some(query);
                self.replies = empty_replies(self.providers.len());
                let rows: Vec<Suggestion> = Vec::new();
                self.selection.begin_query(generation, rows);
                Ok(work)
            },
        }
    }

    /// Withdraws the active query; says whether there was one.
    pub fn cancel_active_query(&mut self) -> (cancelled: bool)
        requires
            old(self)@.inv(),
        ensures
            final(self)@.inv(),
            final(self)@ == old(self)@.cancelled(),
            cancelled == (old(self)@.active is Some),
    {
        proof {
            reveal(CoordinatorView::inv);
        }
        let cancelled: bool = self.active.is_some();
        self.active = None;
        cancelled
    }

    /// Takes one reply to the active query.
    pub fn accept_batch(&mut self, batch: ProviderBatch) -> (outcome: BatchOutcome)
        requires
            old(self)@.inv(),
        ensures
            final(self)@.inv(),
            ({
                let after = old(self)@.after_reply(
                    batch.provider@,
                    batch.generation,
                    batch.suggestions@,
                );
                &&& final(self)@ == after.0
                &&& outcome == after.1
            }),
    {
        proof {
            reveal(CoordinatorView::inv);
            reveal(CoordinatorView::after_reply);
        }
        if let Some(rejection) = self.refusal(batch.generation) {
            return BatchOutcome::Rejected(BatchRejection::Authority(rejection));
        }
        let index: usize = find_name(&self.providers, batch.provider.as_str());
        let ghost names = name_views(self.providers@);
        if index >= self.providers.len() {
            assert(!names.contains(batch.provider@)) by {
                assert forall|j: int| 0 <= j < names.len() implies names[j] != batch.provider@ by {
                    assert(self.providers@[j]@ != batch.provider@);
                }
            }
            return BatchOutcome::Rejected(BatchRejection::UnknownProvider);
        }
        assert(names[index as int] == batch.provider@);
        assert(names.contains(batch.provider@));
        if batch.suggestions.len() > MAX_BATCH_CANDIDATES {
            return BatchOutcome::Rejected(BatchRejection::TooManyCandidates);
        }
        let count: usize = batch.suggestions.len();
        let ghost before = self.replies@;
        self.replies.set(index, batch.suggestions);
        proof {
            assert(names.index_of(batch.provider@) == index);
            assert(reply_views(self.replies@) =~= reply_views(before).update(
                index as int,
                batch.suggestions@,
            ));
        }
        BatchOutcome::Accepted(count)
    }

    /// All suggestions for the active query, for the caller to rank.
    pub fn merged_candidates(&self, generation: u64) -> (result: Result<
        Vec<Suggestion>,
        AuthorityRejection,
    >)
        requires
            self@.inv(),
        ensures
            match result {
                Ok(candidates) => self@.refusal(generation) is None && candidates@ == merged(
                    self@.replies,
                ),
                Err(rejection) => self@.refusal(generation) == Some(rejection),
            },
    {
        proof {
            reveal(CoordinatorView::inv);
        }
        if let Some(rejection) = self.refusal(generation) {
            return Err(rejection);
        }
        let mut all: Vec<Suggestion> = Vec::new();
        let mut i: usize = 0;
        let ghost replies = reply_views(self.replies@);
        assert(replies.subrange(0, 0) =~= Seq::<Seq<Suggestion>>::empty());
        while i < self.replies.len()
            invariant
                0 <= i <= self.replies@.len(),
                replies == reply_views(self.replies@),
                all@ == merged(replies.subrange(0, i as int)),
            decreases self.replies@.len() - i,
        {
            assert(replies.subrange(0, i + 1).drop_last() =~= replies.subrange(0, i as int));
            append_clones(&mut all, &self.replies[i]);
            i = i + 1;
        }
        assert(replies.subrange(0, i as int) =~= replies);
        Ok(all)
    }

    /// Presents a ranking of the suggestions for the active query.
    pub fn apply_ranked(&mut self, generation: u64, ranked: Vec<Suggestion>) -> (outcome: PresentationOutcome)
        requires
            old(self)@.inv(),
        ensures
            final(self)@.inv(),
            final(self)@ == old(self)@.after_ranking(generation, ranked@).0,
            outcome == old(self)@.after_ranking(generation, ranked@).1,
    {
        proof {
            reveal(CoordinatorView::inv);
            reveal(CoordinatorView::after_ranking);
        }
        if let Some(rejection) = self.refusal(generation) {
            return PresentationOutcome::Rejected(PresentationRejection::Authority(rejection));
        }
        let ghost before = self.selection@;
        let limit: usize = self.ui_limit;
        match self.selection.apply_ranked_update(generation, ranked, limit) {
            UpdateOutcome::Applied => PresentationOutcome::Applied {
                rows: self.selection.candidates().len(),
            },
            _ => {
                assert(self.selection@ == before);
                PresentationOutcome::Rejected(PresentationRejection::SelectionConflict)
            },
        }
    }

    /// Makes hidden suggestions eligible again.
    pub fn note_buffer_changed(&mut self)
        requires
            old(self)@.inv(),
        ensures
            final(self)@.inv(),
            final(self)@ == old(self)@.with_selection(old(self)@.selection.revealed()),
    {
        proof {
            reveal(CoordinatorView::inv);
        }
        self.selection.buffer_changed();
    }

    /// Hides suggestions until the buffer changes.
    pub fn dismiss_suggestions(&mut self)
        requires
            old(self)@.inv(),
        ensures
            final(self)@.inv(),
            final(self)@ == old(self)@.with_selection(old(self)@.selection.dismissed()),
    {
        proof {
            reveal(CoordinatorView::inv);
        }
        self.selection.escape();
    }

    /// Selects the next row.
    pub fn select_next(&mut self)
        requires
            old(self)@.inv(),
        ensures
            final(self)@.inv(),
            final(self)@ == old(self)@.with_selection(old(self)@.selection.moved_down()),
    {
        proof {
            reveal(CoordinatorView::inv);
        }
        self.selection.down();
    }

    /// Selects the previous row.
    pub fn select_previous(&mut self)
        requires
            old(self)@.inv(),
        ensures
            final(self)@.inv(),
            final(self)@ == old(self)@.with_selection(old(self)@.selection.moved_up()),
    {
        proof {
            reveal(CoordinatorView::inv);
        }
        self.selection.up();
    }

    /// Switches the suggestion layer.
    pub fn toggle_suggestion_layer(&mut self)
        requires
            old(self)@.inv(),
        ensures
            final(self)@.inv(),
            final(self)@ == old(self)@.with_selection(old(self)@.selection.toggled()),
    {
        proof {
            reveal(CoordinatorView::inv);
        }
        self.selection.toggle_visible();
    }
}

/// Appends copies of `source` to `target`.
fn append_clones(target: &mut Vec<Suggestion>, source: &Vec<Suggestion>)
    ensures
        final(target)@ == old(target)@ + source@,
{
    let mut i: usize = 0;
    assert(target@ =~= old(target)@ + source@.subrange(0, 0));
    while i < source.len()
        invariant
            0 <= i <= source@.len(),
            target@ == old(target)@ + source@.subrange(0, i as int),
        decreases source@.len() - i,
    {
        target.push(source[i].clone());
        assert(target@ =~= old(target)@ + source@.subrange(0, i + 1));
        i = i + 1;
    }
    assert(source@.subrange(0, i as int) =~= source@);
}

/// Once a query was withdrawn or replaced, nothing that belongs to it is
/// accepted any more.
pub proof fn law_old_queries_have_no_authority(
    state: CoordinatorView,
    line: Seq<char>,
    cursor: int,
    cwd: Seq<u8>,
    provider: Seq<char>,
    suggestions: Seq<Suggestion>,
)
    requires
        state.inv(),
        state.active is Some,
        state.start_error(line, cursor, cwd) is None,
    ensures
        ({
            let generation = state.active->0.generation;
            &&& state.cancelled().after_reply(provider, generation, suggestions).1
                == BatchOutcome::Rejected(BatchRejection::Authority(AuthorityRejection::NoActiveQuery))
            &&& state.cancelled().after_ranking(generation, suggestions).1 is Rejected
            &&& state.after_start(line, cursor, cwd).after_reply(provider, generation, suggestions).1 is Rejected
            &&& state.after_start(line, cursor, cwd).after_ranking(generation, suggestions).1 is Rejected
            &&& state.after_start(line, cursor, cwd).active->0.generation > generation
        }),
{
    reveal(CoordinatorView::inv);
    reveal(CoordinatorView::after_start);
    reveal(CoordinatorView::start_error);
    reveal(CoordinatorView::after_reply);
    reveal(CoordinatorView::after_ranking);
}

/// The replies of the other providers stay as they are.
pub proof fn law_replies_do_not_disturb_each_other(
    state: CoordinatorView,
    provider: Seq<char>,
    generation: u64,
    suggestions: Seq<Suggestion>,
    other: int,
)
    requires
        state.inv(),
        0 <= other < state.providers.len(),
        state.providers[other] != provider,
    ensures
        state.after_reply(provider, generation, suggestions).0.replies[other] == state.replies[other],
{
    reveal(CoordinatorView::inv);
    reveal(CoordinatorView::after_reply);
    if state.providers.contains(provider) {
        let index = state.providers.index_of(provider);
        assert(state.providers[index] == provider);
    }
}

/// A query that can be asked becomes the active one under a generation that was
/// never used, with no reply yet and no row; whatever was shown is gone.
pub proof fn law_queries_start_afresh(state: CoordinatorView, line: Seq<char>, cursor: int, cwd: Seq<u8>)
    requires
        state.next_generation matches Some(next) && next < u64::MAX,
        encode_utf8(line).len() <= MAX_QUERY_LINE_BYTES,
        is_char_boundary(encode_utf8(line), cursor),
        0 < cwd.len() <= MAX_QUERY_CWD_BYTES,
        cwd[0] == 47,
    ensures
        ({
            let after = state.after_start(line, cursor, cwd);
            &&& state.start_error(line, cursor, cwd) is None
            &&& after.active == Some(
                QueryView { generation: state.next_generation->0, line, cursor, cwd },
            )
            &&& after.next_generation matches Some(next) && next == state.next_generation->0 + 1
            &&& after.replies.len() == state.providers.len()
            &&& forall|i: int| 0 <= i < after.replies.len() ==> (#[trigger] after.replies[i]).len() == 0
            &&& after.selection.candidates.len() == 0
            &&& after.selection.selected is None
            &&& !after.selection.navigated
            &&& !after.selection.hidden
            &&& after.selection.layer_enabled == state.selection.layer_enabled
            &&& after.selection.generation == state.next_generation->0
            &&& after.providers == state.providers
            &&& after.limit == state.limit
            &&& after.after_start(line, cursor, cwd).active matches Some(second)
            &&& second.generation > state.next_generation->0
        }),
{
    reveal(CoordinatorView::start_error);
    reveal(CoordinatorView::after_start);
}

/// A query is refused exactly where its line or directory is too long, its cursor
/// splits a character, its directory is not absolute, or no generation is left;
/// nothing changes then.
pub proof fn law_unusable_queries_are_refused(
    state: CoordinatorView,
    line: Seq<char>,
    cursor: int,
    cwd: Seq<u8>,
)
    ensures
        state.start_error(line, cursor, cwd) is Some <==> {
            ||| encode_utf8(line).len() > MAX_QUERY_LINE_BYTES
            ||| !is_char_boundary(encode_utf8(line), cursor)
            ||| cwd.len() > MAX_QUERY_CWD_BYTES
            ||| cwd.len() == 0
            ||| cwd[0] != 47
            ||| state.next_generation is None
        },
        state.start_error(line, cursor, cwd) is Some ==> state.after_start(line, cursor, cwd) == state,
{
    reveal(CoordinatorView::start_error);
    reveal(CoordinatorView::after_start);
}

/// A reply to the active query of a registered provider takes the place of that
/// provider's earlier one, and only there; anything else changes nothing.
pub proof fn law_replies_are_kept_by_provider(
    state: CoordinatorView,
    at: int,
    provider: Seq<char>,
    generation: u64,
    suggestions: Seq<Suggestion>,
)
    requires
        state.inv(),
    ensures
        ({
            let (after, outcome) = state.after_reply(provider, generation, suggestions);
            let current = state.active matches Some(query) && query.generation == generation;
            &&& outcome is Accepted <==> current && state.providers.contains(provider)
                && suggestions.len() <= MAX_BATCH_CANDIDATES
            &&& outcome is Rejected ==> after == state
            &&& outcome is Accepted && 0 <= at < state.providers.len() ==> after.replies[at] == if
                state.providers[at] == provider {
                suggestions
            } else {
                state.replies[at]
            }
            &&& outcome matches BatchOutcome::Accepted(count) ==> count == suggestions.len()
            &&& after.replies.len() == state.replies.len()
            &&& after.active == state.active
            &&& after.selection == state.selection
        }),
{
    reveal(CoordinatorView::inv);
    reveal(CoordinatorView::after_reply);
    if state.providers.contains(provider) {
        let index = state.providers.index_of(provider);
        assert(state.providers[index] == provider);
        if 0 <= at < state.providers.len() && state.providers[at] == provider {
            assert(at == index);
        }
    }
}

/// All replies together are the reply of the first provider, then that of the
/// next, and so on.
pub proof fn law_replies_merge_in_provider_order(replies: Seq<Seq<Suggestion>>, reply: Seq<Suggestion>)
    ensures
        merged(Seq::<Seq<Suggestion>>::empty()).len() == 0,
        merged(replies.push(reply)).len() == merged(replies).len() + reply.len(),
        forall|i: int|
            0 <= i < merged(replies).len() ==> #[trigger] merged(replies.push(reply))[i] == merged(
                replies,
            )[i],
        forall|i: int|
            0 <= i < reply.len() ==> merged(replies.push(reply))[merged(replies).len() + i]
                == #[trigger] reply[i],
{
    assert(replies.push(reply).drop_last() =~= replies);
}

/// A ranking is presented only for the active query; it never touches the query
/// or the replies, and what is not presented changes nothing.
pub proof fn law_rankings_need_the_active_query(
    state: CoordinatorView,
    generation: u64,
    ranked: Seq<Suggestion>,
)
    requires
        state.inv(),
    ensures
        ({
            let (after, outcome) = state.after_ranking(generation, ranked);
            let current = state.active matches Some(query) && query.generation == generation;
            &&& !current ==> outcome is Rejected
            &&& outcome is Rejected ==> after == state
            &&& current && !state.selection.navigated ==> outcome is Applied
            &&& outcome matches PresentationOutcome::Applied { rows } ==> rows
                == after.selection.candidates.len() as usize
            &&& outcome is Applied ==> after.selection.candidates.len() <= state.limit
            &&& after.active == state.active && after.replies == state.replies
            &&& after.next_generation == state.next_generation
        }),
{
    reveal(CoordinatorView::inv);
    reveal(CoordinatorView::after_ranking);
}

/// Providers can be registered exactly where there is one, none is named twice,
/// and the row limit is between one and the most suggestions of a reply.
pub proof fn law_registrations_are_checked(providers: Seq<Seq<char>>, limit: usize)
    ensures
        registration_error(providers, limit) is None <==> {
            &&& providers.len() > 0
            &&& forall|i: int, j: int|
                0 <= i < j < providers.len() ==> #[trigger] providers[i] != #[trigger] providers[j]
            &&& 1 <= limit <= MAX_BATCH_CANDIDATES
        },
        CoordinatorView::fresh(providers, limit).active is None,
        CoordinatorView::fresh(providers, limit).providers == providers,
        CoordinatorView::fresh(providers, limit).limit == limit,
{
    if forall|i: int, j: int|
        0 <= i < j < providers.len() ==> #[trigger] providers[i] != #[trigger] providers[j] {
        assert forall|i: int, j: int|
            0 <= i < providers.len() && 0 <= j < providers.len() && i != j implies providers[i]
            != providers[j] by {
            if i < j {
                assert(providers[i] != providers[j]);
            } else {
                assert(providers[j] != providers[i]);
            }
        }
    }
}

} // verus!
