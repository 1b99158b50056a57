//! Menu selection and ghost-text invariants independent of terminal rendering.

use vstd::prelude::*;
use vstd::string::*;
use vstd::utf8::*;

use crate::completion::{InsertionBehavior, Suggestion};
use crate::text::{
    append_number, append_size, bool_chars, bool_text, char_offset, decimal_chars,
    size_debug_chars, split_text, text_equal,
};

verus! {

/// Result of applying an asynchronous provider update.
#[derive(Clone, Copy, Debug, PartialEq, Eq, Structural)]
pub enum UpdateOutcome {
    /// Current-generation candidates were accepted.
    Applied,
    /// A stale generation was ignored.
    Stale,
    /// Navigation had frozen a selection that the update did not retain.
    SelectionConflict,
}

/// What a candidate does when it is accepted: two candidates with the same key
/// make the same edit, whatever they are called.
#[verifier::ext_equal]
pub struct KeyView {
    pub range_start: usize,
    pub range_end: usize,
    pub replacement: Seq<char>,
    pub insertion: InsertionBehavior,
}

/// Key of a candidate.
pub open spec fn key_of(candidate: Suggestion) -> KeyView {
    KeyView {
        range_start: candidate.edit.range.start,
        range_end: candidate.edit.range.end,
        replacement: candidate.edit.replacement@,
        insertion: candidate.insertion,
    }
}

/// Keys of a list of candidates.
pub open spec fn keys_of(candidates: Seq<Suggestion>) -> Seq<KeyView> {
    candidates.map_values(|candidate: Suggestion| key_of(candidate))
}

/// Index of the first candidate with this key, or the length where there is none.
pub open spec fn first_with_key(candidates: Seq<Suggestion>, key: KeyView) -> int
    decreases candidates.len(),
{
    if candidates.len() == 0 || key_of(candidates[0]) == key {
        0
    } else {
        1 + first_with_key(candidates.drop_first(), key)
    }
}

/// Candidates that a frozen order claims out of an update, in the frozen
/// order: each key takes the first candidate with that key that is still left.
/// The second part is what is left over, in the order of the update.
pub open spec fn claimed(order: Seq<KeyView>, candidates: Seq<Suggestion>) -> (
    Seq<Suggestion>,
    Seq<Suggestion>,
)
    decreases order.len(),
{
    if order.len() == 0 {
        (Seq::empty(), candidates)
    } else {
        let (taken, left) = claimed(order.drop_last(), candidates);
        let index = first_with_key(left, order.last());
        if index < left.len() {
            (taken.push(left[index]), left.remove(index))
        } else {
            (taken, left)
        }
    }
}

/// The first `count` elements, or all where there are fewer.
pub open spec fn at_most<T>(items: Seq<T>, count: int) -> Seq<T> {
    if items.len() <= count {
        items
    } else {
        items.subrange(0, count)
    }
}

/// Rows of a frozen menu after an update: the claimed candidates first, then
/// what is left over, as far as there is room.
pub open spec fn frozen_rows(order: Seq<KeyView>, candidates: Seq<Suggestion>, limit: int) -> Seq<Suggestion> {
    let (taken, left) = claimed(order, candidates);
    at_most(taken, limit) + at_most(left, limit - at_most(taken, limit).len())
}

/// Selection state as a value.
#[verifier::ext_equal]
pub struct SelectionView {
    /// Query generation.
    pub generation: u64,
    /// Rows of the menu.
    pub candidates: Seq<Suggestion>,
    /// Selected row.
    pub selected: Option<usize>,
    /// Whether the user moved the selection.
    pub navigated: bool,
    /// Keys of the rows at the last movement or update since.
    pub frozen_order: Option<Seq<KeyView>>,
    /// Whether the suggestion layer is switched on.
    pub layer_enabled: bool,
    /// Whether the layer hides until the buffer changes.
    pub hidden: bool,
}

impl SelectionView {
    /// Selection of a fresh session.
    pub open spec fn fresh() -> Self {
        SelectionView {
            generation: 0,
            candidates: Seq::empty(),
            selected: None,
            navigated: false,
            frozen_order: None,
            layer_enabled: true,
            hidden: false,
        }
    }

    /// The selected row exists, some row is selected unless there is none, and
    /// once the user moved, the frozen order is that of the rows.
    pub open spec fn inv(self) -> bool {
        &&& self.selected is None <==> self.candidates.len() == 0
        &&& self.selected matches Some(row) ==> row < self.candidates.len()
        &&& self.navigated ==> self.frozen_order == Some(keys_of(self.candidates)) && self.selected is Some
    }

    /// Selected candidate.
    pub open spec fn selected_candidate(self) -> Option<Suggestion> {
        match self.selected {
            Some(row) => if row < self.candidates.len() {
                Some(self.candidates[row as int])
            } else {
                None
            },
            None => None,
        }
    }

    /// Whether the layer renders.
    pub open spec fn visible(self) -> bool {
        self.layer_enabled && !self.hidden && self.selected is Some
    }

    /// Selection when a query starts with these rows.
    pub open spec fn after_query(self, generation: u64, candidates: Seq<Suggestion>) -> Self {
        SelectionView {
            generation,
            candidates,
            selected: if candidates.len() > 0 {
                Some(0)
            } else {
                None
            },
            navigated: false,
            frozen_order: None,
            layer_enabled: self.layer_enabled,
            hidden: false,
        }
    }

    /// Row that the selection moves to when a frozen menu is updated, or none
    /// where the update does not keep the selected edit in view.
    pub open spec fn frozen_row(self, candidates: Seq<Suggestion>, limit: int) -> Option<int> {
        match (self.frozen_order, self.selected) {
            (Some(order), Some(selected)) => if selected < order.len() {
                let taken = claimed(order, candidates).0;
                let row = first_with_key(taken, order[selected as int]);
                if row < taken.len() && row < limit {
                    Some(row)
                } else {
                    None
                }
            } else {
                None
            },
            _ => None,
        }
    }

    /// Effect of a ranked update.
    pub open spec fn after_update(self, generation: u64, candidates: Seq<Suggestion>, limit: int) -> (
        Self,
        UpdateOutcome,
    ) {
        if generation != self.generation {
            (self, UpdateOutcome::Stale)
        } else if !self.navigated {
            let rows = at_most(candidates, limit);
            (
                SelectionView {
                    candidates: rows,
                    selected: if rows.len() > 0 {
                        Some(0)
                    } else {
                        None
                    },
                    ..self
                },
                UpdateOutcome::Applied,
            )
        } else {
            match self.frozen_row(candidates, limit) {
                None => (self, UpdateOutcome::SelectionConflict),
                Some(row) => {
                    let rows = frozen_rows(self.frozen_order->0, candidates, limit);
                    (
                        SelectionView {
                            candidates: rows,
                            selected: Some(row as usize),
                            frozen_order: Some(keys_of(rows)),
                            ..self
                        },
                        UpdateOutcome::Applied,
                    )
                },
            }
        }
    }

    /// Selection one row up, where there is one.
    pub open spec fn moved_up(self) -> Self {
        match self.selected {
            None => self,
            Some(row) => SelectionView {
                selected: Some(
                    if row > 0 {
                        (row - 1) as usize
                    } else {
                        0
                    },
                ),
                navigated: true,
                frozen_order: Some(keys_of(self.candidates)),
                ..self
            },
        }
    }

    /// Selection one row down, where there is one.
    pub open spec fn moved_down(self) -> Self {
        match self.selected {
            None => self,
            Some(row) => if self.candidates.len() == 0 {
                self
            } else {
                SelectionView {
                    selected: Some(
                        if row + 1 < self.candidates.len() {
                            (row + 1) as usize
                        } else {
                            (self.candidates.len() - 1) as usize
                        },
                    ),
                    navigated: true,
                    frozen_order: Some(keys_of(self.candidates)),
                    ..self
                }
            },
        }
    }

    /// Selection with the layer hidden until the buffer changes.
    pub open spec fn dismissed(self) -> Self {
        SelectionView { hidden: true, ..self }
    }

    /// Selection after the buffer changed.
    pub open spec fn revealed(self) -> Self {
        SelectionView { hidden: false, ..self }
    }

    /// Selection with the layer switched.
    pub open spec fn toggled(self) -> Self {
        SelectionView { layer_enabled: !self.layer_enabled, hidden: false, ..self }
    }
}

/// Selected edit, independent of what its provider calls it.
pub struct SelectionKey {
    range_start: usize,
    range_end: usize,
    replacement: String,
    insertion: InsertionBehavior,
}

impl View for SelectionKey {
    type V = KeyView;

    closed spec fn view(&self) -> KeyView {
        KeyView {
            range_start: self.range_start,
            range_end: self.range_end,
            replacement: self.replacement@,
            insertion: self.insertion,
        }
    }
}

impl SelectionKey {
    fn from_candidate(candidate: &Suggestion) -> (key: Self)
        ensures
            key@ == key_of(*candidate),
    {
        SelectionKey {
            range_start: candidate.edit.range.start,
            range_end: candidate.edit.range.end,
            replacement: candidate.edit.replacement.clone(),
            insertion: candidate.insertion,
        }
    }

    fn matches(&self, candidate: &Suggestion) -> (same: bool)
        ensures
            same == (self@ == key_of(*candidate)),
    {
        let same: bool = self.range_start == candidate.edit.range.start && self.range_end
            == candidate.edit.range.end && text_equal(
            self.replacement.as_str(),
            candidate.edit.replacement.as_str(),
        ) && self.insertion == candidate.insertion;
        assert(same ==> self@ =~= key_of(*candidate));
        same
    }
}

/// Keys as values.
pub open spec fn key_views(keys: Seq<SelectionKey>) -> Seq<KeyView> {
    keys.map_values(|key: SelectionKey| key@)
}

/// Selected candidate state for one immutable query generation.
pub struct SelectionState {
    generation: u64,
    candidates: Vec<Suggestion>,
    selected: Option<usize>,
    navigated: bool,
    frozen_order: Option<Vec<SelectionKey>>,
    layer_enabled: bool,
    hidden_until_change: bool,
}

impl View for SelectionState {
    type V = SelectionView;

    closed spec fn view(&self) -> SelectionView {
        SelectionView {
            generation: self.generation,
            candidates: self.candidates@,
            selected: self.selected,
            navigated: self.navigated,
            frozen_order: match self.frozen_order {
                Some(keys) => Some(key_views(keys@)),
                None => None,
            },
            layer_enabled: self.layer_enabled,
            hidden: self.hidden_until_change,
        }
    }
}

impl Default for SelectionState {
    fn default() -> (state: Self)
        ensures
            state@ == SelectionView::fresh(),
            state@.inv(),
    {
        let state = SelectionState {
            generation: 0,
            candidates: Vec::new(),
            selected: None,
            navigated: false,
            frozen_order: None,
            layer_enabled: true,
            hidden_until_change: false,
        };
        assert(state@ =~= SelectionView::fresh());
        state
    }
}

impl SelectionState {
    /// Starts a new query, selecting its first ranked result.
    pub fn begin_query(&mut self, generation: u64, candidates: Vec<Suggestion>)
        ensures
            final(self)@ == old(self)@.after_query(generation, candidates@),
            final(self)@.inv(),
    {
        self.generation = generation;
        self.selected = if candidates.len() > 0 {
            Some(0)
        } else {
            None
        };
        self.candidates = candidates;
        self.navigated = false;
        self.frozen_order = None;
        self.hidden_until_change = false;
    }

    /// Applies a cumulative current-generation update without a row limit.
    pub fn apply_update(&mut self, generation: u64, candidates: Vec<Suggestion>) -> (outcome: UpdateOutcome)
        requires
            old(self)@.inv(),
        ensures
            final(self)@ == old(self)@.after_update(generation, candidates@, usize::MAX as int).0,
            outcome == old(self)@.after_update(generation, candidates@, usize::MAX as int).1,
            final(self)@.inv(),
    {
        self.apply_ranked_update(generation, candidates, usize::MAX)
    }

    /// Applies a full ranked update and retains a bounded rendering window.
    ///
    /// Before navigation, the result limit follows the newest rank. After
    /// navigation, surviving visible edits keep their prior order and newly
    /// ranked edits append only into free rows. The explicitly selected edit
    /// must remain present; an update that omits it is rejected rather than
    /// moving the user's selection.
    pub fn apply_ranked_update(
        &mut self,
        generation: u64,
        candidates: Vec<Suggestion>,
        max_candidates: usize,
    ) -> (outcome: UpdateOutcome)
        requires
            old(self)@.inv(),
        ensures
            final(self)@ == old(self)@.after_update(generation, candidates@, max_candidates as int).0,
            outcome == old(self)@.after_update(generation, candidates@, max_candidates as int).1,
            final(self)@.inv(),
    {
        if generation != self.generation {
            return UpdateOutcome::Stale;
        }
        if !self.navigated {
            let mut rows: Vec<Suggestion> = candidates;
            rows.truncate(max_candidates);
            self.selected = if rows.len() > 0 {
                Some(0)
            } else {
                None
            };
            self.candidates = rows;
            return UpdateOutcome::Applied;
        }
        let selected: usize = match self.selected {
            Some(selected) => selected,
            None => {
                return UpdateOutcome::SelectionConflict;
            },
        };
        let order: &Vec<SelectionKey> = match &self.frozen_order {
            Some(order) => order,
            None => {
                return UpdateOutcome::SelectionConflict;
            },
        };
        if selected >= order.len() {
            return UpdateOutcome::SelectionConflict;
        }
        let (mut rows, left) = claim_in_order(order, candidates);
        let row: usize = position_of(&rows, &order[selected]);
        if row >= rows.len() || row >= max_candidates {
            return UpdateOutcome::SelectionConflict;
        }
        proof {
            lemma_first_with_key_hits(rows@, key_views(order@)[selected as int]);
        }
        rows.truncate(max_candidates);
        append_until(&mut rows, left, max_candidates);
        self.candidates = rows;
        self.selected = Some(row);
        self.freeze_visible_order();
        UpdateOutcome::Applied
    }

    /// Moves selection up without wrapping.
    pub fn up(&mut self)
        requires
            old(self)@.inv(),
        ensures
            final(self)@ == old(self)@.moved_up(),
            final(self)@.inv(),
    {
        match self.selected {
            None => {},
            Some(selected) => {
                self.selected = Some(selected.saturating_sub(1));
                self.navigated = true;
                self.freeze_visible_order();
            },
        }
    }

    /// Moves selection down without wrapping.
    pub fn down(&mut self)
        requires
            old(self)@.inv(),
        ensures
            final(self)@ == old(self)@.moved_down(),
            final(self)@.inv(),
    {
        match self.selected {
            None => {},
            Some(selected) => match self.candidates.len().checked_sub(1) {
                None => {},
                Some(last) => {
                    self.selected = Some(
                        if selected < last {
                            selected + 1
                        } else {
                            last
                        },
                    );
                    self.navigated = true;
                    self.freeze_visible_order();
                },
            },
        }
    }

    /// Hides menu and ghost text until the buffer changes.
    pub fn escape(&mut self)
        ensures
            final(self)@ == old(self)@.dismissed(),
            old(self)@.inv() ==> final(self)@.inv(),
    {
        self.hidden_until_change = true;
    }

    /// Makes current candidates eligible after a buffer-changing key.
    pub fn buffer_changed(&mut self)
        ensures
            final(self)@ == old(self)@.revealed(),
            old(self)@.inv() ==> final(self)@.inv(),
    {
        self.hidden_until_change = false;
    }

    /// Toggles the session suggestion layer. The setting persists across queries.
    pub fn toggle_visible(&mut self)
        ensures
            final(self)@ == old(self)@.toggled(),
            old(self)@.inv() ==> final(self)@.inv(),
    {
        self.layer_enabled = !self.layer_enabled;
        self.hidden_until_change = false;
    }

    /// Whether suggestions are switched on for this session.
    pub fn layer_enabled(&self) -> (enabled: bool)
        ensures
            enabled == self@.layer_enabled,
    {
        self.layer_enabled
    }

    /// Current selected candidate, shared by menu and ghost rendering.
    pub fn selected(&self) -> (candidate: Option<&Suggestion>)
        ensures
            match candidate {
                Some(c) => self@.selected_candidate() == Some(*c),
                None => self@.selected_candidate() is None,
            },
    {
        match self.selected {
            Some(index) => if index < self.candidates.len() {
                Some(&self.candidates[index])
            } else {
                None
            },
            None => None,
        }
    }

    /// Authoritative bounded candidate window used by menu rendering.
    pub fn candidates(&self) -> (candidates: &[Suggestion])
        ensures
            candidates@ == self@.candidates,
    {
        self.candidates.as_slice()
    }

    /// Current selected row.
    pub fn selected_index(&self) -> (row: Option<usize>)
        ensures
            row == self@.selected,
    {
        self.selected
    }

    /// Whether the menu/suggestion layer should render.
    pub fn is_visible(&self) -> (visible: bool)
        ensures
            visible == self@.visible(),
    {
        self.layer_enabled && !self.hidden_until_change && self.selected.is_some()
    }

    /// Whether the user moved the selection.
    pub fn is_navigated(&self) -> (navigated: bool)
        ensures
            navigated == self@.navigated,
    {
        self.navigated
    }

    /// Current query generation.
    pub fn generation(&self) -> (generation: u64)
        ensures
            generation == self@.generation,
    {
        self.generation
    }

    fn freeze_visible_order(&mut self)
        ensures
            final(self)@ == (SelectionView {
                frozen_order: Some(keys_of(old(self)@.candidates)),
                ..old(self)@
            }),
    {
        let mut order: Vec<SelectionKey> = Vec::new();
        let mut i: usize = 0;
        while i < self.candidates.len()
            invariant
                *self == *old(self),
                0 <= i <= self.candidates@.len(),
                order@.len() == i,
                forall|j: int| 0 <= j < i ==> (#[trigger] order@[j])@ == key_of(self.candidates@[j]),
            decreases self.candidates@.len() - i,
        {
            order.push(SelectionKey::from_candidate(&self.candidates[i]));
            i = i + 1;
        }
        assert(key_views(order@) =~= keys_of(self.candidates@));
        self.frozen_order = Some(order);
    }

    /// Diagnostic summary, which shows counts and never candidate text.
    pub fn debug_text(&self) -> (summary: String)
        ensures
            summary@ == "SelectionState { generation: "@ + decimal_chars(self@.generation as nat)
                + ", candidate_count: "@ + decimal_chars(self@.candidates.len()) + ", selected: "@
                + size_debug_chars(self@.selected) + ", navigated: "@ + bool_chars(self@.navigated)
                + ", frozen_candidate_count: "@ + size_debug_chars(
                match self@.frozen_order {
                    Some(order) => Some(order.len() as usize),
                    None => None,
                },
            ) + ", layer_enabled: "@ + bool_chars(self@.layer_enabled) + ", hidden_until_change: "@
                + bool_chars(self@.hidden) + " }"@,
    {
        let mut summary = "SelectionState { generation: ".to_owned();
        append_number(&mut summary, self.generation as u128);
        summary.append(", candidate_count: ");
        append_number(&mut summary, self.candidates.len() as u128);
        summary.append(", selected: ");
        append_size(&mut summary, self.selected);
        summary.append(", navigated: ");
        summary.append(bool_text(self.navigated));
        summary.append(", frozen_candidate_count: ");
        let frozen: Option<usize> = match &self.frozen_order {
            Some(order) => Some(order.len()),
            None => None,
        };
        append_size(&mut summary, frozen);
        summary.append(", layer_enabled: ");
        summary.append(bool_text(self.layer_enabled));
        summary.append(", hidden_until_change: ");
        summary.append(bool_text(self.hidden_until_change));
        summary.append(" }");
        summary
    }
}

/// Index of the first candidate with this key, or the length where there is none.
fn position_of(candidates: &Vec<Suggestion>, key: &SelectionKey) -> (index: usize)
    ensures
        index == first_with_key(candidates@, key@),
        index <= candidates@.len(),
{
    let mut i: usize = 0;
    assert(candidates@.subrange(0, candidates@.len() as int) =~= candidates@);
    while i < candidates.len()
        invariant
            0 <= i <= candidates@.len(),
            first_with_key(candidates@, key@) == i + first_with_key(
                candidates@.subrange(i as int, candidates@.len() as int),
                key@,
            ),
        decreases candidates@.len() - i,
    {
        let ghost rest = candidates@.subrange(i as int, candidates@.len() as int);
        assert(rest[0] == candidates@[i as int]);
        assert(rest.drop_first() =~= candidates@.subrange(i + 1, candidates@.len() as int));
        if key.matches(&candidates[i]) {
            return i;
        }
        i = i + 1;
    }
    i
}

/// Splits an update into what a frozen order claims and what is left over.
fn claim_in_order(order: &Vec<SelectionKey>, candidates: Vec<Suggestion>) -> (parts: (
    Vec<Suggestion>,
    Vec<Suggestion>,
))
    ensures
        (parts.0@, parts.1@) == claimed(key_views(order@), candidates@),
{
    let ghost keys = key_views(order@);
    let ghost all = candidates@;
    let mut left: Vec<Suggestion> = candidates;
    let mut taken: Vec<Suggestion> = Vec::new();
    let mut i: usize = 0;
    assert(keys.subrange(0, 0) =~= Seq::<KeyView>::empty());
    while i < order.len()
        invariant
            0 <= i <= order@.len(),
            keys == key_views(order@),
            (taken@, left@) == claimed(keys.subrange(0, i as int), all),
        decreases order@.len() - i,
    {
        assert(keys.subrange(0, i + 1).drop_last() =~= keys.subrange(0, i as int));
        assert(keys.subrange(0, i + 1).last() == order@[i as int]@);
        let index: usize = position_of(&left, &order[i]);
        if index < left.len() {
            let candidate = left.remove(index);
            taken.push(candidate);
        }
        i = i + 1;
    }
    assert(keys.subrange(0, i as int) =~= keys);
    (taken, left)
}

/// Appends candidates until there are `limit` rows.
fn append_until(rows: &mut Vec<Suggestion>, candidates: Vec<Suggestion>, limit: usize)
    requires
        old(rows)@.len() <= limit,
    ensures
        final(rows)@ == old(rows)@ + at_most(candidates@, limit - old(rows)@.len()),
{
    let mut extra: Vec<Suggestion> = candidates;
    extra.truncate(limit - rows.len());
    rows.append(&mut extra);
}

proof fn lemma_first_with_key_hits(candidates: Seq<Suggestion>, key: KeyView)
    ensures
        0 <= first_with_key(candidates, key) <= candidates.len(),
        first_with_key(candidates, key) < candidates.len() ==> key_of(
            candidates[first_with_key(candidates, key)],
        ) == key,
        forall|i: int| 0 <= i < first_with_key(candidates, key) ==> key_of(#[trigger] candidates[i]) != key,
    decreases candidates.len(),
{
    if candidates.len() > 0 && key_of(candidates[0]) != key {
        let rest = candidates.drop_first();
        lemma_first_with_key_hits(rest, key);
        assert forall|i: int| 0 <= i < first_with_key(candidates, key) implies key_of(
            #[trigger] candidates[i],
        ) != key by {
            if i > 0 {
                assert(rest[i - 1] == candidates[i]);
            }
        }
    }
}

/// Lowercase form of one character, which may be several characters.
pub uninterp spec fn char_lowercase(character: char) -> Seq<char>;

/// Lowercase form of `character`.
///
/// Calls `char::to_lowercase`, which depends on its argument alone, and gathers
/// the characters that it yields.
#[verifier::external_body]
fn lowercase_of(character: char) -> (text: String)
    ensures
        text@ == char_lowercase(character),
{
    character.to_lowercase().collect()
}

/// Lowercase forms of the characters of a text, one for each.
pub open spec fn lowercase_forms(text: Seq<char>) -> Seq<Seq<char>> {
    text.map_values(|character: char| char_lowercase(character))
}

/// Texts as values.
pub open spec fn text_views(texts: Seq<String>) -> Seq<Seq<char>> {
    texts.map_values(|text: String| text@)
}

fn fold_characters(text: &str) -> (forms: Vec<String>)
    ensures
        text_views(forms@) == lowercase_forms(text@),
{
    let mut forms: Vec<String> = Vec::new();
    for character in characters: text.chars()
        invariant
            characters.seq() == text@,
            forms@.len() == characters.index(),
            forall|j: int|
                0 <= j < characters.index() ==> (#[trigger] forms@[j])@ == char_lowercase(
                    characters.seq()[j],
                ),
    {
        forms.push(lowercase_of(character));
    }
    assert(text_views(forms@) =~= lowercase_forms(text@));
    forms
}

/// Whether `forms` begins with `prefix` and goes on behind it.
pub open spec fn continues(prefix: Seq<Seq<char>>, forms: Seq<Seq<char>>) -> bool {
    prefix.len() < forms.len() && forms.subrange(0, prefix.len() as int) == prefix
}

/// Whether one list of folded characters begins with another and goes on
/// behind it.
pub fn goes_on_behind(prefix: &Vec<String>, forms: &Vec<String>) -> (found: bool)
    ensures
        found == continues(text_views(prefix@), text_views(forms@)),
{
    if prefix.len() >= forms.len() {
        return false;
    }
    let mut i: usize = 0;
    while i < prefix.len()
        invariant
            0 <= i <= prefix@.len() < forms@.len(),
            forall|j: int| 0 <= j < i ==> (#[trigger] forms@[j])@ == prefix@[j]@,
        decreases prefix@.len() - i,
    {
        if !text_equal(prefix[i].as_str(), forms[i].as_str()) {
            assert(text_views(forms@).subrange(0, prefix@.len() as int)[i as int] != text_views(
                prefix@,
            )[i as int]);
            return false;
        }
        i = i + 1;
    }
    assert(text_views(forms@).subrange(0, prefix@.len() as int) =~= text_views(prefix@));
    true
}

/// Returns the candidate suffix when it begins with the user's logical prefix,
/// comparing case-insensitively while preserving candidate bytes.
///
/// Ghost acceptance appends only this suffix, so the user's exact prefix casing
/// and spacing remain unchanged.
pub fn ghost_suffix<'a>(prefix: &str, candidate: &'a str) -> (suffix: Option<&'a str>)
    ensures
        suffix is Some <==> continues(lowercase_forms(prefix@), lowercase_forms(candidate@)),
        suffix matches Some(text) ==> text@ == candidate@.subrange(
            prefix@.len() as int,
            candidate@.len() as int,
        ),
{
    let wanted: Vec<String> = fold_characters(prefix);
    let offered: Vec<String> = fold_characters(candidate);
    if !goes_on_behind(&wanted, &offered) {
        return None;
    }
    let ghost front = candidate@.subrange(0, prefix@.len() as int);
    let ghost back = candidate@.subrange(prefix@.len() as int, candidate@.len() as int);
    match char_offset(candidate, wanted.len()) {
        None => None,
        Some(offset) => {
            let parts = split_text(candidate, offset);
            proof {
                assert(front + back =~= candidate@);
                crate::text::lemma_encode_concat(front, back);
                encode_utf8_decode_utf8(back);
                assert(encode_utf8(candidate@).subrange(
                    offset as int,
                    encode_utf8(candidate@).len() as int,
                ) =~= encode_utf8(back));
            }
            Some(parts.1)
        },
    }
}

/// Whether `part` comes out of `whole` by leaving elements away.
pub open spec fn subsequence(part: Seq<KeyView>, whole: Seq<KeyView>) -> bool
    decreases whole.len(),
{
    if part.len() == 0 {
        true
    } else if whole.len() == 0 {
        false
    } else {
        ||| part.last() == whole.last() && subsequence(part.drop_last(), whole.drop_last())
        ||| subsequence(part, whole.drop_last())
    }
}

/// Surviving rows keep the order that the user saw: their keys are the frozen
/// keys with some left away.
pub proof fn law_surviving_rows_keep_their_order(order: Seq<KeyView>, candidates: Seq<Suggestion>)
    ensures
        subsequence(keys_of(claimed(order, candidates).0), order),
    decreases order.len(),
{
    let (taken, left) = claimed(order, candidates);
    if order.len() > 0 {
        let (before, rest) = claimed(order.drop_last(), candidates);
        law_surviving_rows_keep_their_order(order.drop_last(), candidates);
        lemma_first_with_key_hits(rest, order.last());
        let index = first_with_key(rest, order.last());
        if index < rest.len() {
            assert(keys_of(taken).drop_last() =~= keys_of(before));
            assert(keys_of(taken).last() == order.last());
        }
    } else {
        assert(keys_of(taken) =~= Seq::<KeyView>::empty());
    }
}

/// A frozen menu shows nothing that the update did not bring, and nothing
/// twice that it brought once.
pub proof fn law_updates_invent_nothing(order: Seq<KeyView>, candidates: Seq<Suggestion>)
    ensures
        claimed(order, candidates).0.to_multiset().add(claimed(order, candidates).1.to_multiset())
            == candidates.to_multiset(),
    decreases order.len(),
{
    let (taken, left) = claimed(order, candidates);
    if order.len() > 0 {
        let (before, rest) = claimed(order.drop_last(), candidates);
        law_updates_invent_nothing(order.drop_last(), candidates);
        let index = first_with_key(rest, order.last());
        lemma_first_with_key_hits(rest, order.last());
        if index < rest.len() {
            before.to_multiset_ensures();
            rest.to_multiset_ensures();
            assert(taken.to_multiset() =~= before.to_multiset().insert(rest[index]));
            assert(left.to_multiset() =~= rest.to_multiset().remove(rest[index]));
            assert(rest.contains(rest[index]));
            assert(taken.to_multiset().add(left.to_multiset()) =~= before.to_multiset().add(
                rest.to_multiset(),
            ));
        }
    } else {
        taken.to_multiset_ensures();
        assert(taken.to_multiset() =~= vstd::multiset::Multiset::<Suggestion>::empty());
        assert(taken.to_multiset().add(left.to_multiset()) =~= candidates.to_multiset());
    }
}

/// Once the user moved the selection, an update either keeps the selected edit
/// selected or changes nothing at all.
pub proof fn law_navigation_freezes_the_selected_edit(
    state: SelectionView,
    generation: u64,
    candidates: Seq<Suggestion>,
    limit: int,
)
    requires
        state.inv(),
        state.navigated,
        0 <= limit <= usize::MAX,
        candidates.len() <= usize::MAX,
    ensures
        ({
            let (after, outcome) = state.after_update(generation, candidates, limit);
            &&& outcome is Applied ==> after.selected_candidate() is Some && key_of(
                after.selected_candidate()->0,
            ) == key_of(state.selected_candidate()->0)
            &&& !(outcome is Applied) ==> after == state
        }),
{
    if generation == state.generation {
        if let Some(row) = state.frozen_row(candidates, limit) {
            let order = state.frozen_order->0;
            let (taken, left) = claimed(order, candidates);
            let selected = state.selected->0;
            lemma_first_with_key_hits(taken, order[selected as int]);
            lemma_claimed_length(order, candidates);
            let rows = frozen_rows(order, candidates, limit);
            assert(rows[row] == taken[row]);
        }
    }
}

proof fn lemma_claimed_length(order: Seq<KeyView>, candidates: Seq<Suggestion>)
    ensures
        claimed(order, candidates).0.len() + claimed(order, candidates).1.len() == candidates.len(),
    decreases order.len(),
{
    if order.len() > 0 {
        lemma_claimed_length(order.drop_last(), candidates);
        lemma_first_with_key_hits(claimed(order.drop_last(), candidates).1, order.last());
    }
}

/// An applied update leaves no more rows than the limit allows.
pub proof fn law_rows_keep_within_the_limit(
    state: SelectionView,
    generation: u64,
    candidates: Seq<Suggestion>,
    limit: int,
)
    requires
        0 <= limit,
        state.after_update(generation, candidates, limit).1 is Applied,
    ensures
        state.after_update(generation, candidates, limit).0.candidates.len() <= limit,
{
}

/// Every operation keeps the selection well-formed.
pub proof fn law_selection_stays_well_formed(
    state: SelectionView,
    generation: u64,
    candidates: Seq<Suggestion>,
    limit: int,
)
    requires
        state.inv(),
        0 <= limit <= usize::MAX,
        candidates.len() <= usize::MAX,
    ensures
        state.after_query(generation, candidates).inv(),
        state.after_update(generation, candidates, limit).0.inv(),
        state.moved_up().inv(),
        state.moved_down().inv(),
        state.dismissed().inv(),
        state.revealed().inv(),
        state.toggled().inv(),
{
    if generation == state.generation && state.navigated {
        if let Some(row) = state.frozen_row(candidates, limit) {
            lemma_claimed_length(state.frozen_order->0, candidates);
            lemma_first_with_key_hits(
                claimed(state.frozen_order->0, candidates).0,
                state.frozen_order->0[state.selected->0 as int],
            );
        }
    }
}

/// The selection stops at both ends.
pub proof fn law_selection_does_not_wrap(state: SelectionView)
    requires
        state.inv(),
        state.selected is Some,
    ensures
        state.selected == Some(0usize) ==> state.moved_up().selected == Some(0usize),
        state.selected->0 + 1 == state.candidates.len() ==> state.moved_down().selected == state.selected,
{
}

/// Escape hides the layer until the buffer changes, and switching the layer
/// off lasts over new queries until it is switched on again.
pub proof fn law_visibility(state: SelectionView, generation: u64, candidates: Seq<Suggestion>)
    ensures
        !state.dismissed().visible(),
        state.dismissed().revealed().visible() == (state.layer_enabled && state.selected is Some),
        state.toggled().after_query(generation, candidates).layer_enabled == !state.layer_enabled,
        state.toggled().toggled().layer_enabled == state.layer_enabled,
        !state.layer_enabled ==> !state.after_query(generation, candidates).visible(),
{
}

/// An arrow key moves the selection by exactly one row, as far as there is one,
/// leaves the rows alone, and counts as the user's own choice; away from the ends
/// the two keys undo each other.
pub proof fn law_arrows_move_one_row(state: SelectionView)
    requires
        state.selected is Some,
        state.selected->0 < state.candidates.len() <= usize::MAX,
    ensures
        ({
            let row = state.selected->0;
            let up = state.moved_up();
            let down = state.moved_down();
            &&& up.selected is Some && down.selected is Some
            &&& row > 0 ==> up.selected->0 == row - 1 && up.moved_down().selected == state.selected
            &&& row + 1 < state.candidates.len() ==> down.selected->0 == row + 1
                && down.moved_up().selected == state.selected
            &&& up.candidates == state.candidates && down.candidates == state.candidates
            &&& up.navigated && down.navigated
            &&& up.generation == state.generation && down.generation == state.generation
            &&& up.layer_enabled == state.layer_enabled && down.layer_enabled == state.layer_enabled
            &&& up.hidden == state.hidden && down.hidden == state.hidden
            &&& up.frozen_order matches Some(order) && order.len() == state.candidates.len() && (
            forall|i: int|
                0 <= i < order.len() ==> {
                    &&& (#[trigger] order[i]).range_start == state.candidates[i].edit.range.start
                    &&& order[i].range_end == state.candidates[i].edit.range.end
                    &&& order[i].replacement == state.candidates[i].edit.replacement@
                    &&& order[i].insertion == state.candidates[i].insertion
                })
            &&& down.frozen_order == up.frozen_order
        }),
{
}

/// A query begins with its rows in the order given, the first one selected,
/// nothing chosen by the user, and the layer showing unless it is switched off.
pub proof fn law_queries_begin_at_the_first_row(
    state: SelectionView,
    generation: u64,
    candidates: Seq<Suggestion>,
)
    ensures
        ({
            let begun = state.after_query(generation, candidates);
            &&& begun.generation == generation
            &&& begun.candidates == candidates
            &&& candidates.len() > 0 ==> begun.selected == Some(0usize)
            &&& candidates.len() == 0 ==> begun.selected is None
            &&& !begun.navigated && begun.frozen_order is None
            &&& begun.layer_enabled == state.layer_enabled
            &&& begun.visible() == (state.layer_enabled && candidates.len() > 0)
            &&& candidates.len() > 0 ==> begun.selected_candidate() == Some(candidates[0])
        }),
{
}

/// Until the user moves the selection, the menu shows the best of the newest
/// ranking in its order and selects the first; a ranking for another query
/// changes nothing.
pub proof fn law_untouched_menus_follow_the_ranking(
    state: SelectionView,
    generation: u64,
    candidates: Seq<Suggestion>,
    limit: int,
)
    requires
        0 <= limit,
    ensures
        ({
            let (after, outcome) = state.after_update(generation, candidates, limit);
            &&& generation != state.generation ==> after == state && outcome is Stale
            &&& generation == state.generation && !state.navigated ==> {
                &&& outcome is Applied
                &&& after.candidates.len() == if candidates.len() < limit {
                    candidates.len() as int
                } else {
                    limit
                }
                &&& forall|i: int|
                    0 <= i < after.candidates.len() ==> #[trigger] after.candidates[i] == candidates[i]
                &&& after.candidates.len() > 0 ==> after.selected == Some(0usize)
                &&& after.candidates.len() == 0 ==> after.selected is None
                &&& after.layer_enabled == state.layer_enabled && after.hidden == state.hidden
                &&& !after.navigated
            }
        }),
{
}

/// Once the user has moved the selection, every row whose edit is ranked again
/// stays, what is new comes behind the rows in the order of its rank, and the
/// menu is filled as far as it may be.
pub proof fn law_touched_menus_keep_their_rows(order: Seq<KeyView>, candidates: Seq<Suggestion>, limit: int)
    requires
        0 <= limit,
    ensures
        ({
            let (taken, left) = claimed(order, candidates);
            let rows = frozen_rows(order, candidates, limit);
            &&& forall|i: int, j: int|
                0 <= i < order.len() && 0 <= j < candidates.len() && #[trigger] order[i] == key_of(
                    #[trigger] candidates[j],
                ) ==> exists|k: int| 0 <= k < taken.len() && key_of(#[trigger] taken[k]) == order[i]
            &&& rows.len() == if candidates.len() < limit {
                candidates.len() as int
            } else {
                limit
            }
            &&& forall|i: int| 0 <= i < rows.len() && i < taken.len() ==> #[trigger] rows[i] == taken[i]
            &&& forall|i: int|
                taken.len() <= i < rows.len() ==> #[trigger] rows[i] == left[i - taken.len()]
            &&& in_rank_order(left, candidates)
        }),
{
    lemma_claimed_length(order, candidates);
    lemma_left_in_rank_order(order, candidates);
    let (taken, left) = claimed(order, candidates);
    assert forall|i: int, j: int|
        0 <= i < order.len() && 0 <= j < candidates.len() && #[trigger] order[i] == key_of(
            #[trigger] candidates[j],
        ) implies exists|k: int| 0 <= k < taken.len() && key_of(#[trigger] taken[k]) == order[i] by {
        lemma_ranked_rows_are_claimed(order, candidates, i, j);
    }
}

/// Whether a list comes out of a ranking by leaving elements away.
pub open spec fn in_rank_order(part: Seq<Suggestion>, whole: Seq<Suggestion>) -> bool {
    exists|places: Seq<int>|
        {
            &&& #[trigger] places.len() == part.len()
            &&& forall|i: int, j: int| 0 <= i < j < places.len() ==> places[i] < places[j]
            &&& forall|i: int|
                0 <= i < places.len() ==> 0 <= #[trigger] places[i] < whole.len() && part[i]
                    == whole[places[i]]
        }
}

proof fn lemma_left_in_rank_order(order: Seq<KeyView>, candidates: Seq<Suggestion>)
    ensures
        in_rank_order(claimed(order, candidates).1, candidates),
    decreases order.len(),
{
    if order.len() == 0 {
        let places = Seq::new(candidates.len(), |i: int| i);
        assert(places.len() == candidates.len());
    } else {
        lemma_left_in_rank_order(order.drop_last(), candidates);
        let (taken, left) = claimed(order.drop_last(), candidates);
        let index = first_with_key(left, order.last());
        lemma_first_with_key_hits(left, order.last());
        if index < left.len() {
            let places = choose|places: Seq<int>|
                {
                    &&& #[trigger] places.len() == left.len()
                    &&& forall|i: int, j: int| 0 <= i < j < places.len() ==> places[i] < places[j]
                    &&& forall|i: int|
                        0 <= i < places.len() ==> 0 <= #[trigger] places[i] < candidates.len() && left[i]
                            == candidates[places[i]]
                };
            let fewer = places.remove(index);
            assert(fewer.len() == left.remove(index).len());
        }
    }
}

proof fn lemma_ranked_rows_are_claimed(
    order: Seq<KeyView>,
    candidates: Seq<Suggestion>,
    row: int,
    at: int,
)
    requires
        0 <= row < order.len(),
        0 <= at < candidates.len(),
        order[row] == key_of(candidates[at]),
    ensures
        exists|k: int|
            0 <= k < claimed(order, candidates).0.len() && key_of(
                #[trigger] claimed(order, candidates).0[k],
            ) == order[row],
    decreases order.len(),
{
    let front = order.drop_last();
    let (taken, left) = claimed(front, candidates);
    let after = claimed(order, candidates).0;
    lemma_first_with_key_hits(left, order.last());
    if row < front.len() {
        lemma_ranked_rows_are_claimed(front, candidates, row, at);
        let k = choose|k: int| 0 <= k < taken.len() && key_of(#[trigger] taken[k]) == front[row];
        assert(after[k] == taken[k]);
    } else {
        let key = order[row];
        if first_with_key(left, key) < left.len() {
            assert(key_of(after[after.len() - 1]) == key);
        } else {
            law_updates_invent_nothing(front, candidates);
            candidates.to_multiset_ensures();
            taken.to_multiset_ensures();
            left.to_multiset_ensures();
            assert(candidates.contains(candidates[at]));
            assert(candidates.to_multiset().count(candidates[at]) > 0);
            assert(taken.to_multiset().add(left.to_multiset()).count(candidates[at]) > 0);
            if left.contains(candidates[at]) {
                let i = choose|i: int| 0 <= i < left.len() && left[i] == candidates[at];
                assert(key_of(left[i]) != key);
            }
            assert(taken.contains(candidates[at]));
            let k = choose|k: int| 0 <= k < taken.len() && taken[k] == candidates[at];
            assert(after[k] == taken[k]);
        }
    }
}

/// Suggestions show exactly while the layer is on, was not dismissed for this
/// buffer, and there is a row to show. Dismissing hides what showed without
/// forgetting a row, a change of the buffer brings it back, and switching the
/// layer twice is switching it not at all.
pub proof fn law_the_layer_shows_and_hides(state: SelectionView)
    requires
        state.inv(),
    ensures
        state.visible() <==> state.layer_enabled && !state.hidden && state.candidates.len() > 0,
        state.dismissed().hidden && !state.revealed().hidden,
        state.dismissed().candidates == state.candidates,
        state.dismissed().selected == state.selected,
        state.dismissed().layer_enabled == state.layer_enabled,
        state.revealed().candidates == state.candidates,
        state.revealed().selected == state.selected,
        state.revealed().layer_enabled == state.layer_enabled,
        state.toggled().layer_enabled != state.layer_enabled,
        !state.toggled().hidden,
        state.toggled().candidates == state.candidates,
        state.toggled().selected == state.selected,
        state.candidates.len() > 0 ==> state.selected_candidate() == Some(
            state.candidates[state.selected->0 as int],
        ),
        state.candidates.len() == 0 ==> state.selected_candidate() is None,
{
}

/// Text continues a prefix exactly where it is longer and agrees with it, letter
/// case aside, at every character.
pub proof fn law_ghost_text_continues_what_was_typed(prefix: Seq<char>, text: Seq<char>)
    ensures
        continues(lowercase_forms(prefix), lowercase_forms(text)) <==> {
            &&& prefix.len() < text.len()
            &&& forall|i: int|
                0 <= i < prefix.len() ==> char_lowercase(#[trigger] prefix[i]) == char_lowercase(text[i])
        },
{
    let wanted = lowercase_forms(prefix);
    let offered = lowercase_forms(text);
    if continues(wanted, offered) {
        assert forall|i: int| 0 <= i < prefix.len() implies char_lowercase(#[trigger] prefix[i])
            == char_lowercase(text[i]) by {
            assert(offered.subrange(0, wanted.len() as int)[i] == wanted[i]);
        }
    }
    if prefix.len() < text.len() && (forall|i: int|
        0 <= i < prefix.len() ==> char_lowercase(#[trigger] prefix[i]) == char_lowercase(text[i])) {
        assert(offered.subrange(0, wanted.len() as int) =~= wanted);
    }
}

/// Once the user has moved the selection, a ranking that still holds the selected
/// edit and fits into the menu is applied, with that edit selected; one that
/// lacks it is refused.
pub proof fn law_rankings_with_the_selected_edit_apply(
    state: SelectionView,
    candidates: Seq<Suggestion>,
    limit: int,
    at: int,
)
    requires
        state.inv(),
        state.navigated,
        candidates.len() <= limit <= usize::MAX,
    ensures
        ({
            let (after, outcome) = state.after_update(state.generation, candidates, limit);
            let selected = state.candidates[state.selected->0 as int];
            &&& 0 <= at < candidates.len() && key_of(candidates[at]) == key_of(selected) ==> outcome
                is Applied && after.candidates.len() == candidates.len()
            &&& (forall|i: int|
                0 <= i < candidates.len() ==> key_of(#[trigger] candidates[i]) != key_of(selected))
                ==> outcome is SelectionConflict && after == state
        }),
{
    let order = state.frozen_order->0;
    let row = state.selected->0 as int;
    let key = order[row];
    let (taken, left) = claimed(order, candidates);
    lemma_claimed_length(order, candidates);
    lemma_first_with_key_hits(taken, key);
    assert(key == key_of(state.candidates[row]));
    if 0 <= at < candidates.len() && key_of(candidates[at]) == key {
        lemma_ranked_rows_are_claimed(order, candidates, row, at);
        let k = choose|k: int| 0 <= k < taken.len() && key_of(#[trigger] taken[k]) == key;
        assert(first_with_key(taken, key) <= k);
    }
    if forall|i: int| 0 <= i < candidates.len() ==> key_of(#[trigger] candidates[i]) != key {
        let found = first_with_key(taken, key);
        if found < taken.len() {
            law_updates_invent_nothing(order, candidates);
            candidates.to_multiset_ensures();
            taken.to_multiset_ensures();
            assert(taken.contains(taken[found]));
            assert(taken.to_multiset().add(left.to_multiset()).count(taken[found]) > 0);
            assert(candidates.contains(taken[found]));
            let i = choose|i: int| 0 <= i < candidates.len() && candidates[i] == taken[found];
            assert(key_of(candidates[i]) == key);
        }
    }
}

} // verus!
