//! What is remembered of automatic update checks.

use vstd::prelude::*;
use vstd::string::*;
use vstd::utf8::*;

use crate::text::{append_optional, bool_chars, bool_text, optional_chars, text_equal};
use crate::version::{
    law_older_is_transitive, law_versions_are_ordered, lemma_parsed_inv, parsed_version, ReleaseVersion,
    VersionView,
};

verus! {

/// Why an update state cannot be built.
#[derive(Clone, Copy, Debug, PartialEq, Eq, Structural)]
pub enum UpdateStateError {
    /// The notified version is no semantic version.
    InvalidNotifiedVersion,
}

/// Update state as a value.
#[verifier::ext_equal]
pub struct UpdateView {
    /// When a check was last reserved, in milliseconds since 1970.
    pub reserved: Option<u64>,
    /// When a check was last completed, in milliseconds since 1970.
    pub completed: Option<u64>,
    /// Version that was last announced.
    pub notified: Option<Seq<char>>,
}

/// The version that a text denotes.
pub open spec fn text_version(text: Seq<char>) -> Option<VersionView> {
    parsed_version(encode_utf8(text))
}

/// The later of two moments, where there are any.
pub open spec fn later(a: Option<u64>, b: Option<u64>) -> Option<u64> {
    match (a, b) {
        (Some(x), Some(y)) => Some(
            if x < y {
                y
            } else {
                x
            },
        ),
        (Some(x), None) => Some(x),
        (None, _) => b,
    }
}

/// The newer of two versions, where there are any.
pub open spec fn newer(a: Option<Seq<char>>, b: Option<Seq<char>>) -> Option<Seq<char>> {
    match (a, b) {
        (Some(x), Some(y)) => Some(
            if text_version(x)->0.older(text_version(y)->0) {
                y
            } else {
                x
            },
        ),
        (Some(x), None) => Some(x),
        (None, _) => b,
    }
}

impl UpdateView {
    /// The notified version is a semantic version.
    pub open spec fn inv(self) -> bool {
        self.notified matches Some(version) ==> text_version(version) is Some
    }

    /// State of which nothing is known.
    pub open spec fn fresh() -> Self {
        UpdateView { reserved: None, completed: None, notified: None }
    }

    /// Whether nothing in this state is behind another one.
    pub open spec fn at_least(self, other: Self) -> bool {
        &&& not_before(self.reserved, other.reserved)
        &&& not_before(self.completed, other.completed)
        &&& not_older(self.notified, other.notified)
    }

    /// This state joined with one that is already stored: neither a moment nor
    /// the notified version goes back.
    pub open spec fn merged(self, stored: Self) -> Self {
        UpdateView {
            reserved: later(self.reserved, stored.reserved),
            completed: later(self.completed, stored.completed),
            notified: newer(self.notified, stored.notified),
        }
    }
}

/// What is remembered of automatic update checks.
pub struct UpdateState {
    reserved_check_ms: Option<u64>,
    completed_check_ms: Option<u64>,
    notified_version: Option<String>,
}

/// Optional text as a value.
pub open spec fn optional_text(text: Option<String>) -> Option<Seq<char>> {
    match text {
        Some(text) => Some(text@),
        None => None,
    }
}

impl View for UpdateState {
    type V = UpdateView;

    closed spec fn view(&self) -> UpdateView {
        UpdateView {
            reserved: self.reserved_check_ms,
            completed: self.completed_check_ms,
            notified: optional_text(self.notified_version),
        }
    }
}

fn copy_text(text: &Option<String>) -> (copy: Option<String>)
    ensures
        optional_text(copy) == optional_text(*text),
{
    match text {
        Some(text) => Some(text.as_str().to_owned()),
        None => None,
    }
}

impl Clone for UpdateState {
    fn clone(&self) -> (copy: Self)
        ensures
            copy@ == self@,
    {
        proof {
            use_type_invariant(self);
        }
        UpdateState {
            reserved_check_ms: self.reserved_check_ms,
            completed_check_ms: self.completed_check_ms,
            notified_version: copy_text(&self.notified_version),
        }
    }
}

impl Default for UpdateState {
    fn default() -> (state: Self)
        ensures
            state@ == UpdateView::fresh(),
    {
        UpdateState { reserved_check_ms: None, completed_check_ms: None, notified_version: None }
    }
}

/// Text of [`UpdateState::debug_text`].
pub open spec fn update_debug_chars(state: UpdateView) -> Seq<char> {
    "UpdateState { last_reserved_check_ms: "@ + optional_chars(state.reserved)
        + ", last_completed_check_ms: "@ + optional_chars(state.completed)
        + ", has_notified_version: "@ + bool_chars(state.notified is Some) + " }"@
}

fn later_of(a: Option<u64>, b: Option<u64>) -> (latest: Option<u64>)
    ensures
        latest == later(a, b),
{
    match (a, b) {
        (Some(x), Some(y)) => Some(
            if x < y {
                y
            } else {
                x
            },
        ),
        (Some(x), None) => Some(x),
        (None, _) => b,
    }
}

impl UpdateState {
    #[verifier::type_invariant]
    spec fn wf(self) -> bool {
        self@.inv()
    }

    /// Builds update state; a notified version must be a semantic version.
    pub fn new(
        reserved_check_ms: Option<u64>,
        completed_check_ms: Option<u64>,
        notified_version: Option<&str>,
    ) -> (result: Result<UpdateState, UpdateStateError>)
        ensures
            match result {
                Ok(state) => {
                    &&& state@.reserved == reserved_check_ms
                    &&& state@.completed == completed_check_ms
                    &&& match notified_version {
                        Some(version) => state@.notified == Some(version@) && text_version(version@)
                            is Some,
                        None => state@.notified is None,
                    }
                },
                Err(_) => notified_version matches Some(version) && text_version(version@) is None,
            },
    {
        match notified_version {
            None => Ok(
                UpdateState { reserved_check_ms, completed_check_ms, notified_version: None },
            ),
            Some(version) => {
                if ReleaseVersion::parse(version.as_bytes()).is_none() {
                    return Err(UpdateStateError::InvalidNotifiedVersion);
                }
                Ok(
                    UpdateState {
                        reserved_check_ms,
                        completed_check_ms,
                        notified_version: Some(version.to_owned()),
                    },
                )
            },
        }
    }

    /// When a check was last reserved.
    pub fn last_reserved_check_ms(&self) -> (moment: Option<u64>)
        ensures
            moment == self@.reserved,
    {
        self.reserved_check_ms
    }

    /// When a check was last completed.
    pub fn last_completed_check_ms(&self) -> (moment: Option<u64>)
        ensures
            moment == self@.completed,
    {
        self.completed_check_ms
    }

    /// Version that was last announced.
    pub fn last_notified_version(&self) -> (version: Option<&str>)
        ensures
            match version {
                Some(version) => self@.notified == Some(version@),
                None => self@.notified is None,
            },
    {
        match &self.notified_version {
            Some(version) => Some(version.as_str()),
            None => None,
        }
    }

    /// This state joined with one that is already stored.
    pub fn merged_for_persistence(&self, stored: &UpdateState) -> (merged: UpdateState)
        ensures
            merged@ == self@.merged(stored@),
            merged@.inv(),
    {
        proof {
            use_type_invariant(self);
            use_type_invariant(stored);
        }
        let reserved_check_ms: Option<u64> = later_of(self.reserved_check_ms, stored.reserved_check_ms);
        let completed_check_ms: Option<u64> = later_of(
            self.completed_check_ms,
            stored.completed_check_ms,
        );
        let notified_version: Option<String> = match (&self.notified_version, &stored.notified_version) {
            (Some(ours), Some(theirs)) => {
                match (
                    ReleaseVersion::parse(ours.as_str().as_bytes()),
                    ReleaseVersion::parse(theirs.as_str().as_bytes()),
                ) {
                    (Some(a), Some(b)) => if a.is_older(&b) {
                        Some(theirs.as_str().to_owned())
                    } else {
                        Some(ours.as_str().to_owned())
                    },
                    _ => None,
                }
            },
            (Some(_), None) => copy_text(&self.notified_version),
            (None, _) => copy_text(&stored.notified_version),
        };
        UpdateState { reserved_check_ms, completed_check_ms, notified_version }
    }

    /// The same state; what it holds is known to be valid.
    pub fn validated(self) -> (state: UpdateState)
        ensures
            state == self,
            self@.inv(),
    {
        proof {
            use_type_invariant(&self);
        }
        self
    }

    /// This state with a check reserved at some moment.
    pub fn with_reserved(&self, moment: u64) -> (state: UpdateState)
        ensures
            state@ == (UpdateView { reserved: Some(moment), ..self@ }),
    {
        proof {
            use_type_invariant(self);
        }
        UpdateState {
            reserved_check_ms: Some(moment),
            completed_check_ms: self.completed_check_ms,
            notified_version: copy_text(&self.notified_version),
        }
    }

    /// This state with a check completed at some moment; it never goes back.
    pub fn with_completed(&self, moment: u64) -> (state: UpdateState)
        ensures
            state@ == (UpdateView { completed: later(Some(moment), self@.completed), ..self@ }),
    {
        proof {
            use_type_invariant(self);
        }
        UpdateState {
            reserved_check_ms: self.reserved_check_ms,
            completed_check_ms: later_of(Some(moment), self.completed_check_ms),
            notified_version: copy_text(&self.notified_version),
        }
    }

    /// This state with a version announced.
    pub fn with_notified(&self, version: &str) -> (state: UpdateState)
        requires
            text_version(version@) is Some,
        ensures
            state@ == (UpdateView { notified: Some(version@), ..self@ }),
    {
        UpdateState {
            reserved_check_ms: self.reserved_check_ms,
            completed_check_ms: self.completed_check_ms,
            notified_version: Some(version.to_owned()),
        }
    }

    /// Whether two states agree in every field.
    pub fn same_as(&self, other: &UpdateState) -> (same: bool)
        ensures
            same == (self@ == other@),
    {
        let same_version: bool = match (&self.notified_version, &other.notified_version) {
            (Some(ours), Some(theirs)) => text_equal(ours.as_str(), theirs.as_str()),
            (None, None) => true,
            _ => false,
        };
        let same: bool = self.reserved_check_ms == other.reserved_check_ms && self.completed_check_ms
            == other.completed_check_ms && same_version;
        proof {
            if same {
                assert(self@ =~= other@);
            }
        }
        same
    }

    /// Diagnostic summary, which never shows the notified version.
    pub fn debug_text(&self) -> (summary: String)
        ensures
            summary@ == update_debug_chars(self@),
    {
        let mut summary = "UpdateState { last_reserved_check_ms: ".to_owned();
        append_optional(&mut summary, self.reserved_check_ms);
        summary.append(", last_completed_check_ms: ");
        append_optional(&mut summary, self.completed_check_ms);
        summary.append(", has_notified_version: ");
        summary.append(bool_text(self.notified_version.is_some()));
        summary.append(" }");
        summary
    }
}

/// Whether one moment is not before another.
pub open spec fn not_before(a: Option<u64>, b: Option<u64>) -> bool {
    b matches Some(y) ==> (a matches Some(x) && y <= x)
}

/// Whether one version is not older than another.
pub open spec fn not_older(a: Option<Seq<char>>, b: Option<Seq<char>>) -> bool {
    b matches Some(y) ==> (a matches Some(x) && !text_version(x)->0.older(text_version(y)->0))
}

/// Joining states rolls nothing back: every moment is at least as late, and
/// the notified version no older, than in both; and joining again changes
/// nothing.
pub proof fn law_merging_never_rolls_back(a: UpdateView, b: UpdateView)
    requires
        a.inv(),
        b.inv(),
    ensures
        a.merged(b).inv(),
        a.merged(b).at_least(a),
        a.merged(b).at_least(b),
        a.merged(b).merged(b) == a.merged(b),
{
    if let Some(x) = a.notified {
        lemma_parsed_inv(encode_utf8(x));
        law_versions_are_ordered(text_version(x)->0, text_version(x)->0);
        if let Some(y) = b.notified {
            lemma_parsed_inv(encode_utf8(y));
            law_versions_are_ordered(text_version(x)->0, text_version(y)->0);
            law_versions_are_ordered(text_version(y)->0, text_version(y)->0);
        }
    }
    if let Some(y) = b.notified {
        lemma_parsed_inv(encode_utf8(y));
        law_versions_are_ordered(text_version(y)->0, text_version(y)->0);
    }
    assert(a.merged(b).merged(b) =~= a.merged(b));
}

/// A state is not behind itself.
pub proof fn lemma_at_least_itself(a: UpdateView)
    requires
        a.inv(),
    ensures
        a.at_least(a),
{
    if let Some(x) = a.notified {
        lemma_parsed_inv(encode_utf8(x));
        law_versions_are_ordered(text_version(x)->0, text_version(x)->0);
    }
}

/// What is not behind one state is not behind what that one is not behind.
pub proof fn lemma_at_least_chain(a: UpdateView, b: UpdateView, c: UpdateView)
    requires
        a.inv(),
        b.inv(),
        c.inv(),
        a.at_least(b),
        b.at_least(c),
    ensures
        a.at_least(c),
{
    if let (Some(x), Some(y), Some(z)) = (a.notified, b.notified, c.notified) {
        lemma_parsed_inv(encode_utf8(x));
        lemma_parsed_inv(encode_utf8(y));
        lemma_parsed_inv(encode_utf8(z));
        let (vx, vy, vz) = (text_version(x)->0, text_version(y)->0, text_version(z)->0);
        law_versions_are_ordered(vx, vy);
        law_versions_are_ordered(vx, vz);
        law_older_is_transitive(vy, vx, vz);
    }
}

/// Joining keeps of each moment the later one and of two versions the newer one,
/// whichever side has it, and what only one side knows.
pub proof fn law_merging_keeps_the_newest(a: UpdateView, b: UpdateView, early: u64, late: u64)
    requires
        a.inv(),
        b.inv(),
        early <= late,
    ensures
        later(Some(early), Some(late)) == Some(late),
        later(Some(late), Some(early)) == Some(late),
        later(Some(early), None) == Some(early),
        later(None, Some(early)) == Some(early),
        later(None, None) is None,
        a.merged(b).reserved == a.reserved || a.merged(b).reserved == b.reserved,
        a.merged(b).completed == a.completed || a.merged(b).completed == b.completed,
        a.merged(b).notified == a.notified || a.merged(b).notified == b.notified,
        a.notified is Some && b.notified is Some && text_version(a.notified->0)->0.older(
            text_version(b.notified->0)->0,
        ) ==> a.merged(b).notified == b.notified,
        a.notified is Some && b.notified is Some && text_version(b.notified->0)->0.older(
            text_version(a.notified->0)->0,
        ) ==> a.merged(b).notified == a.notified,
        a.notified is None ==> a.merged(b).notified == b.notified,
        b.notified is None ==> a.merged(b).notified == a.notified,
        a.reserved matches Some(x) ==> a.merged(b).reserved matches Some(y) && x <= y,
        b.reserved matches Some(x) ==> a.merged(b).reserved matches Some(y) && x <= y,
        a.completed matches Some(x) ==> a.merged(b).completed matches Some(y) && x <= y,
        b.completed matches Some(x) ==> a.merged(b).completed matches Some(y) && x <= y,
        UpdateView::fresh().merged(b) == b,
        a.merged(UpdateView::fresh()) == a,
{
    if let (Some(x), Some(y)) = (a.notified, b.notified) {
        lemma_parsed_inv(encode_utf8(x));
        lemma_parsed_inv(encode_utf8(y));
        law_versions_are_ordered(text_version(x)->0, text_version(y)->0);
    }
    assert(UpdateView::fresh().merged(b) =~= b);
    assert(a.merged(UpdateView::fresh()) =~= a);
}

} // verus!
