//! What a prompt may say of the workspace: bounded, structured and sorted.
//!
//! Everything here works on text that was already read; nothing beyond the
//! bounds reaches a prompt.

use vstd::prelude::*;
use vstd::string::*;
use vstd::utf8::*;

use crate::sorted::{
    first_items, law_sorting_is_exact, sort_texts, sorted_texts, strictly_sorted, text_earlier,
    texts_of,
};
use crate::text::{
    law_cut_texts_are_their_bytes, split_text, text_before, text_behind, text_equal, text_len,
    utf8_text,
};
use crate::words::{
    blank, char_lists, characters, is_blank, is_white_space, lines, lines_of, text_of,
    white_space,
};

verus! {

/// Most branch names in a prompt.
pub const MAX_BRANCH_NAMES: usize = 32;

/// Most commit subjects in a prompt.
pub const MAX_COMMIT_SUBJECTS: usize = 6;

/// Most directory names in a prompt.
pub const MAX_DIRECTORY_NAMES: usize = 64;

/// Most bytes of help for one command in a prompt.
pub const MAX_HELP_BYTES: usize = 4 * 1024;

/// Most commands with help in a prompt.
pub const MAX_HELP_ENTRIES: usize = 4;

/// Most groups of resource names in a prompt.
pub const MAX_LOCAL_RESOURCE_GROUPS: usize = 4;

/// Most names in one group of resources.
pub const MAX_LOCAL_RESOURCES_PER_GROUP: usize = 64;

/// Most package scripts in a prompt.
pub const MAX_PACKAGE_SCRIPTS: usize = 32;

/// Most bytes of a resource name.
pub const MAX_RESOURCE_NAME_BYTES: usize = 128;

/// Most names of workspace markers in a prompt.
pub const MAX_SIGNATURE_FILENAMES: usize = 16;

/// Most build targets in a prompt.
pub const MAX_TARGETS: usize = 64;

/// Most bytes of a metadata file that is looked into.
pub const MAX_STRUCTURED_METADATA_BYTES: usize = 256 * 1024;

/// Most subcommands in the help for one command.
pub const MAX_HELP_SUBCOMMANDS: usize = 8;

/// Most options in the help for one command.
pub const MAX_HELP_OPTIONS: usize = 16;

/// Greatest place, not behind `at`, between two characters.
pub open spec fn cut_place(bytes: Seq<u8>, at: int) -> int
    decreases at,
{
    if at <= 0 || is_char_boundary(bytes, at) {
        at
    } else {
        cut_place(bytes, at - 1)
    }
}

/// Longest beginning of a text that has no more than so many bytes.
pub open spec fn truncated(text: Seq<char>, maximum: usize) -> Seq<char> {
    let bytes = encode_utf8(text);
    text_before(
        text,
        cut_place(
            bytes,
            if bytes.len() < maximum {
                bytes.len() as int
            } else {
                maximum as int
            },
        ),
    )
}

/// Longest beginning of a text that has no more than so many bytes.
pub fn truncate_utf8(value: &str, maximum: usize) -> (text: String)
    ensures
        text@ == truncated(value@, maximum),
{
    let length: usize = text_len(value);
    let mut end: usize = if length < maximum {
        length
    } else {
        maximum
    };
    let ghost bytes = encode_utf8(value@);
    proof {
        encode_utf8_valid_utf8(value@);
        is_char_boundary_start_end_of_seq(bytes);
    }
    while !value.is_char_boundary(end)
        invariant
            0 <= end <= bytes.len(),
            bytes == encode_utf8(value@),
            is_char_boundary(bytes, 0),
            cut_place(
                bytes,
                if bytes.len() < maximum {
                    bytes.len() as int
                } else {
                    maximum as int
                },
            ) == cut_place(bytes, end as int),
        decreases end,
    {
        end = end - 1;
    }
    split_text(value, end).0.to_owned()
}

/// Whether a text is the name of a build target.
pub open spec fn target_name(text: Seq<char>) -> bool {
    &&& text.len() > 0
    &&& encode_utf8(text).len() <= MAX_RESOURCE_NAME_BYTES
    &&& forall|i: int| 0 <= i < text.len() ==> target_character(#[trigger] text[i])
}

/// Whether a character may stand in the name of a build target.
pub open spec fn target_character(c: char) -> bool {
    'a' <= c <= 'z' || 'A' <= c <= 'Z' || '0' <= c <= '9' || c == '_' || c == '-' || c == '.'
}

/// Whether a text is the name of a build target.
pub fn valid_target(target: &str) -> (valid: bool)
    ensures
        valid == target_name(target@),
{
    if target.is_empty() || text_len(target) > MAX_RESOURCE_NAME_BYTES {
        return false;
    }
    let list: Vec<char> = characters(target);
    let mut i: usize = 0;
    while i < list.len()
        invariant
            0 <= i <= list@.len(),
            list@ == target@,
            forall|j: int| 0 <= j < i ==> target_character(#[trigger] target@[j]),
        decreases list@.len() - i,
    {
        let c: char = list[i];
        if !(c >= 'a' && c <= 'z' || c >= 'A' && c <= 'Z' || c >= '0' && c <= '9' || c == '_' || c == '-'
            || c == '.') {
            assert(!target_character(target@[i as int]));
            return false;
        }
        i = i + 1;
    }
    true
}

/// Text without white space at its end.
pub open spec fn trimmed_end(text: Seq<char>) -> Seq<char>
    decreases text.len(),
{
    if text.len() > 0 && white_space(text.last()) {
        trimmed_end(text.drop_last())
    } else {
        text
    }
}

/// Text without white space at its start.
pub open spec fn trimmed_start(text: Seq<char>) -> Seq<char>
    decreases text.len(),
{
    if text.len() > 0 && white_space(text[0]) {
        trimmed_start(text.drop_first())
    } else {
        text
    }
}

/// Index of the first colon, or the length where there is none.
pub open spec fn first_colon(text: Seq<char>) -> int
    decreases text.len(),
{
    if text.len() == 0 || text[0] == ':' {
        0
    } else {
        1 + first_colon(text.drop_first())
    }
}

/// Target that a line of a build file defines, as far as it is a plain one.
pub open spec fn line_target(line: Seq<char>) -> Option<Seq<char>> {
    if line.len() > 0 && white_space(line[0]) {
        None
    } else if first_colon(line) >= line.len() {
        None
    } else {
        let name = trimmed_start(trimmed_end(line.subrange(0, first_colon(line))));
        if target_name(name) {
            Some(name)
        } else {
            None
        }
    }
}

/// Targets that lines of a build file define, in their order.
pub open spec fn line_targets(all: Seq<Seq<char>>) -> Seq<Seq<char>>
    decreases all.len(),
{
    if all.len() == 0 {
        Seq::empty()
    } else {
        let rest = line_targets(all.drop_last());
        match line_target(all.last()) {
            Some(name) => rest.push(name),
            None => rest,
        }
    }
}

proof fn lemma_first_colon(line: Seq<char>, at: int)
    requires
        0 <= at <= line.len(),
        forall|j: int| 0 <= j < at ==> #[trigger] line[j] != ':',
        at == line.len() || line[at] == ':',
    ensures
        first_colon(line) == at,
    decreases line.len(),
{
    if at > 0 {
        lemma_first_colon(line.drop_first(), at - 1);
    }
}

fn find_target(line: &Vec<char>) -> (name: Option<String>)
    ensures
        match name {
            Some(name) => line_target(line@) == Some(name@),
            None => line_target(line@) is None,
        },
{
    if line.len() > 0 && is_white_space(line[0]) {
        return None;
    }
    let mut colon: usize = 0;
    while colon < line.len() && line[colon] != ':'
        invariant
            0 <= colon <= line@.len(),
            forall|j: int| 0 <= j < colon ==> #[trigger] line@[j] != ':',
        decreases line@.len() - colon,
    {
        colon = colon + 1;
    }
    proof {
        lemma_first_colon(line@, colon as int);
    }
    if colon == line.len() {
        return None;
    }
    let ghost name = line@.subrange(0, colon as int);
    let mut end: usize = colon;
    while end > 0 && is_white_space(line[end - 1])
        invariant
            0 <= end <= colon <= line@.len(),
            name == line@.subrange(0, colon as int),
            trimmed_end(name) == trimmed_end(line@.subrange(0, end as int)),
        decreases end,
    {
        assert(line@.subrange(0, end as int).drop_last() =~= line@.subrange(0, end - 1));
        end = end - 1;
    }
    let mut start: usize = 0;
    while start < end && is_white_space(line[start])
        invariant
            0 <= start <= end <= line@.len(),
            trimmed_start(line@.subrange(0, end as int)) == trimmed_start(
                line@.subrange(start as int, end as int),
            ),
        decreases end - start,
    {
        assert(line@.subrange(start as int, end as int).drop_first() =~= line@.subrange(
            start + 1,
            end as int,
        ));
        start = start + 1;
    }
    let text: String = text_of(line, start, end);
    if valid_target(text.as_str()) {
        Some(text)
    } else {
        None
    }
}

/// Targets that a build file defines, sorted and each once.
pub open spec fn targets_in(contents: Seq<char>, limit: usize) -> Seq<Seq<char>> {
    first_items(sorted_texts(line_targets(lines_of(contents))), limit as nat)
}

/// Targets that a build file defines, sorted and each once; none where there is
/// no such file.
pub fn structured_targets(contents: Option<&str>, limit: usize) -> (targets: Vec<String>)
    ensures
        texts_of(targets@) == match contents {
            Some(contents) => targets_in(contents@, limit),
            None => Seq::empty(),
        },
{
    let contents: &str = match contents {
        Some(contents) => contents,
        None => {
            let none: Vec<String> = Vec::new();
            assert(texts_of(none@) =~= Seq::<Seq<char>>::empty());
            return none;
        },
    };
    let list: Vec<Vec<char>> = lines(contents);
    let ghost all = char_lists(list@);
    let mut targets: Vec<String> = Vec::new();
    let mut i: usize = 0;
    assert(texts_of(targets@) =~= line_targets(all.subrange(0, 0)));
    while i < list.len()
        invariant
            0 <= i <= list@.len(),
            all == char_lists(list@),
            texts_of(targets@) == line_targets(all.subrange(0, i as int)),
        decreases list@.len() - i,
    {
        let ghost before = targets@;
        assert(all.subrange(0, i + 1).drop_last() =~= all.subrange(0, i as int));
        assert(all.subrange(0, i + 1).last() == list@[i as int]@);
        if let Some(name) = find_target(&list[i]) {
            targets.push(name);
            assert(texts_of(targets@) =~= texts_of(before).push(name@));
        }
        i = i + 1;
    }
    assert(all.subrange(0, i as int) =~= all);
    sort_texts(targets, limit)
}

/// First lines of a command's output; none where there is no output.
pub fn first_lines(output: Option<&str>, limit: usize) -> (list: Vec<String>)
    ensures
        texts_of(list@) == match output {
            Some(output) => first_items(lines_of(output@), limit as nat),
            None => Seq::empty(),
        },
{
    let mut kept: Vec<String> = Vec::new();
    match output {
        None => {
            assert(texts_of(kept@) =~= Seq::<Seq<char>>::empty());
            kept
        },
        Some(output) => {
            let all: Vec<Vec<char>> = lines(output);
            let ghost expected = char_lists(all@);
            let mut i: usize = 0;
            while i < all.len() && i < limit
                invariant
                    0 <= i <= all@.len(),
                    i <= limit,
                    expected == char_lists(all@),
                    texts_of(kept@) =~= expected.subrange(0, i as int),
                decreases all@.len() - i,
            {
                let line: String = text_of(&all[i], 0, all[i].len());
                let ghost before = kept@;
                assert(line@ =~= expected[i as int]);
                kept.push(line);
                assert(texts_of(kept@) =~= texts_of(before).push(line@));
                assert(expected.subrange(0, i + 1) =~= expected.subrange(0, i as int).push(
                    expected[i as int],
                ));
                i = i + 1;
            }
            assert(texts_of(kept@) =~= first_items(expected, limit as nat));
            kept
        },
    }
}

/// Text of a metadata file that is small enough and not broken.
pub fn bounded_text(bytes: &[u8]) -> (text: Option<String>)
    ensures
        match text {
            Some(text) => bytes@.len() <= MAX_STRUCTURED_METADATA_BYTES && encode_utf8(text@) == bytes@,
            None => bytes@.len() > MAX_STRUCTURED_METADATA_BYTES || !valid_utf8(bytes@),
        },
{
    if bytes.len() > MAX_STRUCTURED_METADATA_BYTES {
        return None;
    }
    utf8_text(bytes)
}

/// A name with a value, as texts.
pub type NamedView = (Seq<char>, Seq<char>);

/// A name with a value.
pub struct NamedPromptValue {
    /// The name.
    pub name: String,
    /// The value.
    pub value: String,
}

impl View for NamedPromptValue {
    type V = NamedView;

    open spec fn view(&self) -> NamedView {
        (self.name@, self.value@)
    }
}

/// Names with values, as texts.
pub open spec fn named_views(values: Seq<NamedPromptValue>) -> Seq<NamedView> {
    Seq::new(values.len(), |i: int| values[i]@)
}

/// A group of resource names, as texts.
pub type GroupView = (Seq<char>, Seq<Seq<char>>);

/// Names of local resources of one kind.
pub struct LocalResourceGroup {
    /// Kind of the resources.
    pub kind: String,
    /// Their names.
    pub names: Vec<String>,
}

impl View for LocalResourceGroup {
    type V = GroupView;

    open spec fn view(&self) -> GroupView {
        (self.kind@, texts_of(self.names@))
    }
}

/// Groups of resource names, as texts.
pub open spec fn group_views(groups: Seq<LocalResourceGroup>) -> Seq<GroupView> {
    Seq::new(groups.len(), |i: int| groups[i]@)
}

/// Names that are not empty, cut to their bound.
pub open spec fn cut_names(names: Seq<Seq<char>>) -> Seq<Seq<char>>
    decreases names.len(),
{
    if names.len() == 0 {
        Seq::empty()
    } else {
        let rest = cut_names(names.drop_last());
        if names.last().len() == 0 {
            rest
        } else {
            rest.push(truncated(names.last(), MAX_RESOURCE_NAME_BYTES))
        }
    }
}

/// Names of one group: cut, sorted, each once, and so many at most.
pub open spec fn resource_names(names: Seq<Seq<char>>) -> Seq<Seq<char>> {
    first_items(sorted_texts(cut_names(names)), MAX_LOCAL_RESOURCES_PER_GROUP as nat)
}

/// Groups after one more, unless there are enough or it has no name.
pub open spec fn with_group(groups: Seq<GroupView>, kind: Seq<char>, names: Seq<Seq<char>>) -> Seq<GroupView> {
    if groups.len() == MAX_LOCAL_RESOURCE_GROUPS || resource_names(names).len() == 0 {
        groups
    } else {
        groups.push((truncated(kind, MAX_RESOURCE_NAME_BYTES), resource_names(names)))
    }
}

fn bounded_names(names: &Vec<String>) -> (kept: Vec<String>)
    ensures
        texts_of(kept@) == resource_names(texts_of(names@)),
{
    let ghost all = texts_of(names@);
    let mut cut: Vec<String> = Vec::new();
    let mut i: usize = 0;
    assert(texts_of(cut@) =~= cut_names(all.subrange(0, 0)));
    while i < names.len()
        invariant
            0 <= i <= names@.len(),
            all == texts_of(names@),
            texts_of(cut@) == cut_names(all.subrange(0, i as int)),
        decreases names@.len() - i,
    {
        let ghost before = cut@;
        assert(all.subrange(0, i + 1).drop_last() =~= all.subrange(0, i as int));
        assert(all.subrange(0, i + 1).last() == names@[i as int]@);
        if !names[i].as_str().is_empty() {
            let name: String = truncate_utf8(names[i].as_str(), MAX_RESOURCE_NAME_BYTES);
            cut.push(name);
            assert(texts_of(cut@) =~= texts_of(before).push(name@));
        }
        i = i + 1;
    }
    assert(all.subrange(0, i as int) =~= all);
    sort_texts(cut, MAX_LOCAL_RESOURCES_PER_GROUP)
}

/// Adds a group of resource names, unless there are enough or it has no name.
pub fn push_resource_group(groups: &mut Vec<LocalResourceGroup>, kind: &str, names: &Vec<String>)
    ensures
        group_views(final(groups)@) == with_group(group_views(old(groups)@), kind@, texts_of(names@)),
{
    if groups.len() == MAX_LOCAL_RESOURCE_GROUPS {
        return;
    }
    let kept: Vec<String> = bounded_names(names);
    if kept.len() == 0 {
        return;
    }
    let ghost before = groups@;
    let group = LocalResourceGroup { kind: truncate_utf8(kind, MAX_RESOURCE_NAME_BYTES), names: kept };
    groups.push(group);
    assert(group_views(groups@) =~= group_views(before).push(group@));
}

/// Members of an object, as texts: names with their values where those are text.
pub type MembersView = Seq<(Seq<char>, Option<Seq<char>>)>;

/// A member of a JSON object: its name, and its value where that is text.
pub struct JsonMember {
    /// Its name.
    pub name: String,
    /// Its value, where that is text.
    pub text: Option<String>,
}

impl View for JsonMember {
    type V = (Seq<char>, Option<Seq<char>>);

    open spec fn view(&self) -> (Seq<char>, Option<Seq<char>>) {
        (
            self.name@,
            match self.text {
                Some(text) => Some(text@),
                None => None,
            },
        )
    }
}

/// Members as texts.
pub open spec fn member_views(members: Seq<JsonMember>) -> MembersView {
    Seq::new(members.len(), |i: int| members[i]@)
}

/// What [`serde_json::from_str`] finds as the members of the object under a
/// field: none where the text is no JSON, has no such field, or that holds no
/// object.
pub uninterp spec fn json_members_of(text: Seq<char>, field: Seq<char>) -> Option<MembersView>;

/// Calls [`serde_json::from_str`] and lists the members of the object under one
/// field. They depend on the two texts alone; the grammar of JSON is not stated.
#[verifier::external_body]
fn json_members(text: &str, field: &str) -> (members: Option<Vec<JsonMember>>)
    ensures
        match members {
            Some(members) => json_members_of(text@, field@) == Some(member_views(members@)),
            None => json_members_of(text@, field@) is None,
        },
{
    let document: serde_json::Value = serde_json::from_str(text).ok()?;
    let members = document.get(field)?.as_object()?;
    Some(
        members.iter().map(
            |(name, value)| JsonMember { name: name.clone(), text: value.as_str().map(str::to_owned) },
        ).collect(),
    )
}

/// Members whose values are text.
pub open spec fn text_members(members: MembersView) -> Seq<NamedView>
    decreases members.len(),
{
    if members.len() == 0 {
        Seq::empty()
    } else {
        let rest = text_members(members.drop_last());
        match members.last().1 {
            Some(text) => rest.push((members.last().0, text)),
            None => rest,
        }
    }
}

/// First names of a list of names with values.
pub open spec fn names_of(values: Seq<NamedView>) -> Seq<Seq<char>> {
    Seq::new(values.len(), |i: int| values[i].0)
}

/// Value under a name: that of the first one so named.
pub open spec fn value_under(values: Seq<NamedView>, name: Seq<char>) -> Seq<char>
    decreases values.len(),
{
    if values.len() == 0 {
        Seq::empty()
    } else if values[0].0 == name {
        values[0].1
    } else {
        value_under(values.drop_first(), name)
    }
}

/// Scripts of a package: by name, so many at most.
pub open spec fn package_scripts(members: Option<MembersView>) -> Seq<NamedView> {
    match members {
        None => Seq::empty(),
        Some(members) => {
            let values = text_members(members);
            let names = first_items(sorted_texts(names_of(values)), MAX_PACKAGE_SCRIPTS as nat);
            Seq::new(names.len(), |i: int| (names[i], value_under(values, names[i])))
        },
    }
}

/// Names of members.
pub open spec fn member_names(members: Option<MembersView>) -> Seq<Seq<char>> {
    match members {
        None => Seq::empty(),
        Some(members) => Seq::new(members.len(), |i: int| members[i].0),
    }
}

/// Names cut to their bound.
pub open spec fn all_cut(names: Seq<Seq<char>>) -> Seq<Seq<char>> {
    Seq::new(names.len(), |i: int| truncated(names[i], MAX_RESOURCE_NAME_BYTES))
}

/// Packages that four lists of dependencies name: cut, sorted and each once.
pub open spec fn package_names(
    dependencies: Option<MembersView>,
    development: Option<MembersView>,
    optional: Option<MembersView>,
    peers: Option<MembersView>,
) -> Seq<Seq<char>> {
    first_items(
        sorted_texts(
            all_cut(
                member_names(dependencies) + member_names(development) + member_names(optional)
                    + member_names(peers),
            ),
        ),
        MAX_LOCAL_RESOURCES_PER_GROUP as nat,
    )
}

/// What a prompt may say of a package.
pub struct NodePromptMetadata {
    /// Its scripts.
    pub scripts: Vec<NamedPromptValue>,
    /// Packages that it depends on.
    pub packages: Vec<String>,
}

fn collect_text_members(members: Vec<JsonMember>) -> (values: Vec<NamedPromptValue>)
    ensures
        named_views(values@) == text_members(member_views(members@)),
{
    let ghost all = member_views(members@);
    let mut values: Vec<NamedPromptValue> = Vec::new();
    let mut i: usize = 0;
    assert(named_views(values@) =~= text_members(all.subrange(0, 0)));
    while i < members.len()
        invariant
            0 <= i <= members@.len(),
            all == member_views(members@),
            named_views(values@) == text_members(all.subrange(0, i as int)),
        decreases members@.len() - i,
    {
        let ghost before = values@;
        assert(all.subrange(0, i + 1).drop_last() =~= all.subrange(0, i as int));
        assert(all.subrange(0, i + 1).last() == members@[i as int]@);
        if let Some(text) = &members[i].text {
            let value = NamedPromptValue { name: members[i].name.clone(), value: text.clone() };
            values.push(value);
            assert(named_views(values@) =~= named_views(before).push(value@));
        }
        i = i + 1;
    }
    assert(all.subrange(0, i as int) =~= all);
    values
}

fn find_value(values: &Vec<NamedPromptValue>, name: &str) -> (value: String)
    ensures
        value@ == value_under(named_views(values@), name@),
{
    let ghost all = named_views(values@);
    let mut i: usize = 0;
    assert(all.subrange(0, all.len() as int) =~= all);
    while i < values.len()
        invariant
            0 <= i <= values@.len(),
            all == named_views(values@),
            value_under(all, name@) == value_under(all.subrange(i as int, all.len() as int), name@),
        decreases values@.len() - i,
    {
        assert(all.subrange(i as int, all.len() as int)[0] == values@[i as int]@);
        assert(all.subrange(i as int, all.len() as int).drop_first() =~= all.subrange(
            i + 1,
            all.len() as int,
        ));
        if text_equal(values[i].name.as_str(), name) {
            return values[i].value.clone();
        }
        i = i + 1;
    }
    String::new()
}

fn script_values(members: Option<Vec<JsonMember>>) -> (scripts: Vec<NamedPromptValue>)
    ensures
        named_views(scripts@) == package_scripts(
            match members {
                Some(members) => Some(member_views(members@)),
                None => None,
            },
        ),
{
    let mut scripts: Vec<NamedPromptValue> = Vec::new();
    match members {
        None => {
            assert(named_views(scripts@) =~= Seq::<NamedView>::empty());
            scripts
        },
        Some(members) => {
            let values: Vec<NamedPromptValue> = collect_text_members(members);
            let ghost views = named_views(values@);
            let mut names: Vec<String> = Vec::new();
            let mut i: usize = 0;
            while i < values.len()
                invariant
                    0 <= i <= values@.len(),
                    views == named_views(values@),
                    texts_of(names@) =~= names_of(views).subrange(0, i as int),
                decreases values@.len() - i,
            {
                let ghost before = names@;
                names.push(values[i].name.clone());
                assert(texts_of(names@) =~= texts_of(before).push(values@[i as int].name@));
                assert(names_of(views).subrange(0, i + 1) =~= names_of(views).subrange(
                    0,
                    i as int,
                ).push(views[i as int].0));
                i = i + 1;
            }
            assert(texts_of(names@) =~= names_of(views));
            let sorted: Vec<String> = sort_texts(names, MAX_PACKAGE_SCRIPTS);
            let ghost order = texts_of(sorted@);
            let ghost expected = Seq::new(
                order.len(),
                |k: int| (order[k], value_under(views, order[k])),
            );
            let mut j: usize = 0;
            while j < sorted.len()
                invariant
                    0 <= j <= sorted@.len(),
                    views == named_views(values@),
                    order == texts_of(sorted@),
                    expected == Seq::new(
                        order.len(),
                        |k: int| (order[k], value_under(views, order[k])),
                    ),
                    named_views(scripts@) =~= expected.subrange(0, j as int),
                decreases sorted@.len() - j,
            {
                let ghost before = scripts@;
                let value: String = find_value(&values, sorted[j].as_str());
                let script = NamedPromptValue { name: sorted[j].clone(), value };
                scripts.push(script);
                assert(named_views(scripts@) =~= named_views(before).push(script@));
                assert(expected[j as int] == script@);
                assert(expected.subrange(0, j + 1) =~= expected.subrange(0, j as int).push(
                    expected[j as int],
                ));
                j = j + 1;
            }
            assert(named_views(scripts@) =~= expected);
            scripts
        },
    }
}

fn push_cut_names(names: &mut Vec<String>, members: Option<Vec<JsonMember>>)
    ensures
        texts_of(final(names)@) == texts_of(old(names)@) + all_cut(
            member_names(
                match members {
                    Some(members) => Some(member_views(members@)),
                    None => None,
                },
            ),
        ),
{
    match members {
        None => {
            assert(texts_of(names@) =~= texts_of(names@) + all_cut(
                member_names(None::<MembersView>),
            ));
        },
        Some(members) => {
            let ghost before = texts_of(names@);
            let ghost views = member_views(members@);
            let ghost added = all_cut(member_names(Some(views)));
            let mut i: usize = 0;
            assert(texts_of(names@) =~= before + added.subrange(0, 0));
            while i < members.len()
                invariant
                    0 <= i <= members@.len(),
                    views == member_views(members@),
                    added == all_cut(member_names(Some(views))),
                    texts_of(names@) == before + added.subrange(0, i as int),
                decreases members@.len() - i,
            {
                let ghost old_names = names@;
                let name: String = truncate_utf8(members[i].name.as_str(), MAX_RESOURCE_NAME_BYTES);
                names.push(name);
                assert(texts_of(names@) =~= texts_of(old_names).push(name@));
                assert(added[i as int] == name@);
                assert(texts_of(names@) =~= before + added.subrange(0, i + 1));
                i = i + 1;
            }
            assert(added.subrange(0, i as int) =~= added);
        },
    }
}

/// What a prompt may say of a package, given the text of its description; none
/// where there is no such text.
pub fn node_metadata(contents: Option<&str>) -> (metadata: NodePromptMetadata)
    ensures
        match contents {
            None => metadata.scripts@.len() == 0 && metadata.packages@.len() == 0,
            Some(text) => {
                &&& named_views(metadata.scripts@) == package_scripts(
                    json_members_of(text@, "scripts"@),
                )
                &&& texts_of(metadata.packages@) == package_names(
                    json_members_of(text@, "dependencies"@),
                    json_members_of(text@, "devDependencies"@),
                    json_members_of(text@, "optionalDependencies"@),
                    json_members_of(text@, "peerDependencies"@),
                )
            },
        },
{
    match contents {
        None => NodePromptMetadata { scripts: Vec::new(), packages: Vec::new() },
        Some(text) => package_metadata(
            json_members(text, "scripts"),
            json_members(text, "dependencies"),
            json_members(text, "devDependencies"),
            json_members(text, "optionalDependencies"),
            json_members(text, "peerDependencies"),
        ),
    }
}

/// Members of an object, where there is one, as texts.
pub open spec fn optional_members(members: Option<Vec<JsonMember>>) -> Option<MembersView> {
    match members {
        Some(members) => Some(member_views(members@)),
        None => None,
    }
}

/// What a prompt may say of a package, given the members of its scripts and of
/// its four lists of dependencies.
pub fn package_metadata(
    scripts: Option<Vec<JsonMember>>,
    dependencies: Option<Vec<JsonMember>>,
    development: Option<Vec<JsonMember>>,
    optional: Option<Vec<JsonMember>>,
    peers: Option<Vec<JsonMember>>,
) -> (metadata: NodePromptMetadata)
    ensures
        named_views(metadata.scripts@) == package_scripts(optional_members(scripts)),
        texts_of(metadata.packages@) == package_names(
            optional_members(dependencies),
            optional_members(development),
            optional_members(optional),
            optional_members(peers),
        ),
{
    let ghost a = member_names(optional_members(dependencies));
    let ghost b = member_names(optional_members(development));
    let ghost c = member_names(optional_members(optional));
    let ghost d = member_names(optional_members(peers));
    let mut names: Vec<String> = Vec::new();
    push_cut_names(&mut names, dependencies);
    push_cut_names(&mut names, development);
    push_cut_names(&mut names, optional);
    push_cut_names(&mut names, peers);
    assert(texts_of(names@) =~= all_cut(a + b + c + d));
    NodePromptMetadata {
        scripts: script_values(scripts),
        packages: sort_texts(names, MAX_LOCAL_RESOURCES_PER_GROUP),
    }
}

/// An option of a command: its names and what it does.
pub struct OptionHelp {
    /// Its names.
    pub names: Vec<String>,
    /// What it does.
    pub description: String,
}

/// What the catalog knows of a command.
pub struct CommandSpec {
    /// Its name.
    pub name: String,
    /// What it does.
    pub description: String,
    /// Its subcommands.
    pub subcommands: Vec<CommandSpec>,
    /// Its options.
    pub options: Vec<OptionHelp>,
}

/// Texts with a separator between them.
pub open spec fn joined_texts(texts: Seq<Seq<char>>, separator: Seq<char>) -> Seq<char>
    decreases texts.len(),
{
    if texts.len() == 0 {
        Seq::empty()
    } else if texts.len() == 1 {
        texts[0]
    } else {
        joined_texts(texts.drop_last(), separator) + separator + texts.last()
    }
}

fn join_texts(texts: &Vec<String>, separator: &str) -> (text: String)
    ensures
        text@ == joined_texts(texts_of(texts@), separator@),
{
    let ghost all = texts_of(texts@);
    let mut text: String = String::new();
    let mut i: usize = 0;
    assert(text@ =~= joined_texts(all.subrange(0, 0), separator@));
    while i < texts.len()
        invariant
            0 <= i <= texts@.len(),
            all == texts_of(texts@),
            text@ == joined_texts(all.subrange(0, i as int), separator@),
        decreases texts@.len() - i,
    {
        assert(all.subrange(0, i + 1).drop_last() =~= all.subrange(0, i as int));
        assert(all.subrange(0, i + 1).last() == texts@[i as int]@);
        if i > 0 {
            text.append(separator);
        }
        text.append(texts[i].as_str());
        assert(text@ =~= joined_texts(all.subrange(0, i + 1), separator@));
        i = i + 1;
    }
    assert(all.subrange(0, i as int) =~= all);
    text
}

/// Line of help for a subcommand.
pub open spec fn subcommand_line(subcommand: CommandSpec) -> Seq<char> {
    "subcommand "@ + subcommand.name@ + ": "@ + subcommand.description@
}

/// Line of help for an option.
pub open spec fn option_line(option: OptionHelp) -> Seq<char> {
    "option "@ + joined_texts(texts_of(option.names@), ", "@) + ": "@ + option.description@
}

/// Lines of help for a command: what it does, then its first subcommands, then
/// its first options.
pub open spec fn help_lines(command: CommandSpec) -> Seq<Seq<char>> {
    let head = if blank(command.description@) {
        Seq::empty()
    } else {
        seq![command.description@]
    };
    let subcommands = first_items(command.subcommands@, MAX_HELP_SUBCOMMANDS as nat);
    let options = first_items(command.options@, MAX_HELP_OPTIONS as nat);
    head + Seq::new(subcommands.len(), |i: int| subcommand_line(subcommands[i])) + Seq::new(
        options.len(),
        |i: int| option_line(options[i]),
    )
}

/// Help for a command, cut to its bound.
pub open spec fn help_text(command: CommandSpec) -> Seq<char> {
    truncated(joined_texts(help_lines(command), "\n"@), MAX_HELP_BYTES)
}

/// Help for a command, cut to its bound.
pub fn render_catalog_help(command: &CommandSpec) -> (help: String)
    ensures
        help@ == help_text(*command),
{
    let mut list: Vec<String> = Vec::new();
    if !is_blank(command.description.as_str()) {
        list.push(command.description.clone());
    }
    let ghost head = if blank(command.description@) {
        Seq::empty()
    } else {
        seq![command.description@]
    };
    let ghost subcommands = first_items(command.subcommands@, MAX_HELP_SUBCOMMANDS as nat);
    let ghost first = Seq::new(subcommands.len(), |i: int| subcommand_line(subcommands[i]));
    assert(texts_of(list@) =~= head + first.subrange(0, 0));
    let mut i: usize = 0;
    while i < command.subcommands.len() && i < MAX_HELP_SUBCOMMANDS
        invariant
            0 <= i <= command.subcommands@.len(),
            i <= MAX_HELP_SUBCOMMANDS,
            subcommands == first_items(command.subcommands@, MAX_HELP_SUBCOMMANDS as nat),
            first == Seq::new(subcommands.len(), |k: int| subcommand_line(subcommands[k])),
            texts_of(list@) == head + first.subrange(0, i as int),
        decreases command.subcommands@.len() - i,
    {
        let ghost before = list@;
        let mut line: String = "subcommand ".to_owned();
        line.append(command.subcommands[i].name.as_str());
        line.append(": ");
        line.append(command.subcommands[i].description.as_str());
        list.push(line);
        assert(line@ == first[i as int]);
        assert(texts_of(list@) =~= texts_of(before).push(line@));
        assert(texts_of(list@) =~= head + first.subrange(0, i + 1));
        i = i + 1;
    }
    assert(first.subrange(0, i as int) =~= first);
    let ghost options = first_items(command.options@, MAX_HELP_OPTIONS as nat);
    let ghost second = Seq::new(options.len(), |k: int| option_line(options[k]));
    assert(texts_of(list@) =~= head + first + second.subrange(0, 0));
    let mut j: usize = 0;
    while j < command.options.len() && j < MAX_HELP_OPTIONS
        invariant
            0 <= j <= command.options@.len(),
            j <= MAX_HELP_OPTIONS,
            options == first_items(command.options@, MAX_HELP_OPTIONS as nat),
            second == Seq::new(options.len(), |k: int| option_line(options[k])),
            texts_of(list@) == head + first + second.subrange(0, j as int),
        decreases command.options@.len() - j,
    {
        let ghost before = list@;
        let mut line: String = "option ".to_owned();
        line.append(join_texts(&command.options[j].names, ", ").as_str());
        line.append(": ");
        line.append(command.options[j].description.as_str());
        list.push(line);
        assert(line@ == second[j as int]);
        assert(texts_of(list@) =~= texts_of(before).push(line@));
        assert(texts_of(list@) =~= head + first + second.subrange(0, j + 1));
        j = j + 1;
    }
    assert(second.subrange(0, j as int) =~= second);
    truncate_utf8(join_texts(&list, "\n").as_str(), MAX_HELP_BYTES)
}

/// Help for the command that is being typed, where there is any.
pub open spec fn command_help(skeleton: Seq<char>, command: CommandSpec) -> Seq<NamedView> {
    if help_text(command).len() == 0 {
        Seq::empty()
    } else {
        seq![(truncated(skeleton, MAX_RESOURCE_NAME_BYTES), help_text(command))]
    }
}

/// Help for the command that is being typed; none where it is not known.
pub fn catalog_command_help(command: Option<(&str, &CommandSpec)>) -> (help: Vec<NamedPromptValue>)
    ensures
        named_views(help@) == match command {
            Some((skeleton, command)) => command_help(skeleton@, *command),
            None => Seq::empty(),
        },
        help@.len() <= MAX_HELP_ENTRIES,
{
    let mut help: Vec<NamedPromptValue> = Vec::new();
    if let Some((skeleton, known)) = command {
        let value: String = render_catalog_help(known);
        if !value.as_str().is_empty() {
            let name: String = truncate_utf8(skeleton, MAX_RESOURCE_NAME_BYTES);
            help.push(NamedPromptValue { name, value });
        }
    }
    assert(named_views(help@) =~= match command {
        Some((skeleton, command)) => command_help(skeleton@, *command),
        None => Seq::empty(),
    });
    help
}

/// Kind of local resources that a command is about.
#[derive(Clone, Copy, Debug, PartialEq, Eq, Structural)]
pub enum ResourceInterest {
    /// Packages and their scripts.
    Packages,
    /// Targets of make.
    MakeTargets,
    /// Recipes of just.
    JustTargets,
    /// Directories.
    Directories,
    /// None.
    Nothing,
}

/// Kind of local resources that a command is about, by its first word.
pub open spec fn interest_of(root: Seq<char>) -> ResourceInterest {
    if root == "npm"@ || root == "npx"@ || root == "pnpm"@ || root == "yarn"@ || root == "bun"@ {
        ResourceInterest::Packages
    } else if root == "make"@ {
        ResourceInterest::MakeTargets
    } else if root == "just"@ {
        ResourceInterest::JustTargets
    } else if root == "cd"@ || root == "du"@ || root == "find"@ || root == "ls"@ || root == "tree"@ {
        ResourceInterest::Directories
    } else {
        ResourceInterest::Nothing
    }
}

/// Kind of local resources that a command is about, by its first word.
pub fn resource_interest(root: &str) -> (interest: ResourceInterest)
    ensures
        interest == interest_of(root@),
{
    if text_equal(root, "npm") || text_equal(root, "npx") || text_equal(root, "pnpm") || text_equal(
        root,
        "yarn",
    ) || text_equal(root, "bun") {
        ResourceInterest::Packages
    } else if text_equal(root, "make") {
        ResourceInterest::MakeTargets
    } else if text_equal(root, "just") {
        ResourceInterest::JustTargets
    } else if text_equal(root, "cd") || text_equal(root, "du") || text_equal(root, "find") || text_equal(
        root,
        "ls",
    ) || text_equal(root, "tree") {
        ResourceInterest::Directories
    } else {
        ResourceInterest::Nothing
    }
}

/// Text up to its first white space.
pub open spec fn until_white(text: Seq<char>) -> Seq<char>
    decreases text.len(),
{
    if text.len() == 0 || white_space(text[0]) {
        Seq::empty()
    } else {
        seq![text[0]] + until_white(text.drop_first())
    }
}

proof fn lemma_until_white_fits(text: Seq<char>)
    ensures
        until_white(text).len() <= text.len(),
    decreases text.len(),
{
    if text.len() > 0 {
        lemma_until_white_fits(text.drop_first());
    }
}

/// Words of a text, which white space separates.
pub open spec fn words_in(text: Seq<char>) -> Seq<Seq<char>>
    decreases text.len(),
    via words_in_shrinks
{
    if text.len() == 0 {
        Seq::empty()
    } else if white_space(text[0]) {
        words_in(text.drop_first())
    } else {
        let word = until_white(text);
        seq![word] + words_in(text.subrange(word.len() as int, text.len() as int))
    }
}

#[via_fn]
proof fn words_in_shrinks(text: Seq<char>) {
    lemma_until_white_fits(text);
}

proof fn lemma_until_white(text: Seq<char>, end: int)
    requires
        0 <= end <= text.len(),
        forall|i: int| 0 <= i < end ==> !white_space(#[trigger] text[i]),
        end == text.len() || white_space(text[end]),
    ensures
        until_white(text) == text.subrange(0, end),
    decreases text.len(),
{
    if end == 0 {
        assert(text.subrange(0, 0) =~= Seq::<char>::empty());
    } else {
        lemma_until_white(text.drop_first(), end - 1);
        assert(seq![text[0]] + text.drop_first().subrange(0, end - 1) =~= text.subrange(0, end));
    }
}

/// Words of a text, which white space separates.
fn split_words(text: &str) -> (words: Vec<String>)
    ensures
        texts_of(words@) == words_in(text@),
{
    let list: Vec<char> = characters(text);
    let mut words: Vec<String> = Vec::new();
    let mut at: usize = 0;
    assert(list@.subrange(0, list@.len() as int) =~= list@);
    assert(texts_of(words@) + words_in(list@) =~= words_in(text@));
    while at < list.len()
        invariant
            0 <= at <= list@.len(),
            list@ == text@,
            texts_of(words@) + words_in(list@.subrange(at as int, list@.len() as int)) == words_in(
                text@,
            ),
        decreases list@.len() - at,
    {
        let ghost rest = list@.subrange(at as int, list@.len() as int);
        if is_white_space(list[at]) {
            assert(rest.drop_first() =~= list@.subrange(at + 1, list@.len() as int));
            at = at + 1;
        } else {
            let start: usize = at;
            while at < list.len() && !is_white_space(list[at])
                invariant
                    start <= at <= list@.len(),
                    rest == list@.subrange(start as int, list@.len() as int),
                    forall|i: int| 0 <= i < at - start ==> !white_space(#[trigger] rest[i]),
                decreases list@.len() - at,
            {
                at = at + 1;
            }
            proof {
                assert(at > start) by {
                    assert(!white_space(rest[0]));
                }
                lemma_until_white(rest, at - start);
                assert(rest.subrange(0, at - start) =~= list@.subrange(start as int, at as int));
                assert(rest.subrange(at - start, rest.len() as int) =~= list@.subrange(
                    at as int,
                    list@.len() as int,
                ));
            }
            let ghost before = words@;
            let word: String = text_of(&list, start, at);
            words.push(word);
            assert(texts_of(words@) =~= texts_of(before).push(word@));
            assert(texts_of(words@) + words_in(list@.subrange(at as int, list@.len() as int))
                =~= texts_of(before) + words_in(rest));
        }
    }
    assert(list@.subrange(at as int, list@.len() as int) =~= Seq::<char>::empty());
    assert(texts_of(words@) =~= words_in(text@));
    words
}

/// First command with this name.
pub open spec fn named_command(commands: Seq<CommandSpec>, name: Seq<char>) -> Option<CommandSpec>
    decreases commands.len(),
{
    if commands.len() == 0 {
        None
    } else if commands[0].name@ == name {
        Some(commands[0])
    } else {
        named_command(commands.drop_first(), name)
    }
}

/// Command to which these names lead, the first among `commands` and each other
/// among the subcommands of the one before it.
pub open spec fn command_under(commands: Seq<CommandSpec>, path: Seq<Seq<char>>) -> Option<CommandSpec>
    decreases path.len(),
{
    if path.len() == 0 {
        None
    } else {
        match named_command(commands, path[0]) {
            None => None,
            Some(command) => if path.len() == 1 {
                Some(command)
            } else {
                command_under(command.subcommands@, path.drop_first())
            },
        }
    }
}

fn find_command<'a>(commands: &'a Vec<CommandSpec>, name: &str) -> (command: Option<&'a CommandSpec>)
    ensures
        match command {
            Some(command) => named_command(commands@, name@) == Some(*command),
            None => named_command(commands@, name@) is None,
        },
{
    let mut i: usize = 0;
    assert(commands@.subrange(0, commands@.len() as int) =~= commands@);
    while i < commands.len()
        invariant
            0 <= i <= commands@.len(),
            named_command(commands@, name@) == named_command(
                commands@.subrange(i as int, commands@.len() as int),
                name@,
            ),
        decreases commands@.len() - i,
    {
        assert(commands@.subrange(i as int, commands@.len() as int).drop_first()
            =~= commands@.subrange(i + 1, commands@.len() as int));
        if text_equal(commands[i].name.as_str(), name) {
            return Some(&commands[i]);
        }
        i = i + 1;
    }
    None
}

/// Command that the words of a skeleton lead to, where the catalog knows it.
pub fn resolved_catalog_command<'a>(roots: &'a Vec<CommandSpec>, skeleton: &str) -> (command: Option<
    &'a CommandSpec,
>)
    ensures
        match command {
            Some(command) => command_under(roots@, words_in(skeleton@)) == Some(*command),
            None => command_under(roots@, words_in(skeleton@)) is None,
        },
{
    let words: Vec<String> = split_words(skeleton);
    let ghost path = texts_of(words@);
    let mut level: &'a Vec<CommandSpec> = roots;
    let mut i: usize = 0;
    assert(path.subrange(0, path.len() as int) =~= path);
    while i < words.len()
        invariant
            0 <= i <= words@.len(),
            path == texts_of(words@),
            i == words@.len() ==> i == 0,
            path == words_in(skeleton@),
            command_under(roots@, path) == command_under(
                level@,
                path.subrange(i as int, path.len() as int),
            ),
        decreases words@.len() - i,
    {
        assert(path.subrange(i as int, path.len() as int).drop_first() =~= path.subrange(
            i + 1,
            path.len() as int,
        ));
        match find_command(level, words[i].as_str()) {
            None => {
                return None;
            },
            Some(command) => {
                if i + 1 == words.len() {
                    return Some(command);
                }
                level = &command.subcommands;
            },
        }
        i = i + 1;
    }
    None
}

/// Local resources that may complete a command.
pub open spec fn relevant_groups(
    skeleton: Option<Seq<char>>,
    packages: Seq<Seq<char>>,
    scripts: Seq<NamedView>,
    make_targets: Seq<Seq<char>>,
    just_targets: Seq<Seq<char>>,
    directories: Seq<Seq<char>>,
) -> Seq<GroupView> {
    match skeleton {
        None => Seq::empty(),
        Some(skeleton) => if words_in(skeleton).len() == 0 {
            Seq::empty()
        } else {
            match interest_of(words_in(skeleton)[0]) {
                ResourceInterest::Packages => with_group(
                    with_group(Seq::empty(), "package"@, packages),
                    "package-script"@,
                    names_of(scripts),
                ),
                ResourceInterest::MakeTargets => with_group(
                    Seq::empty(),
                    "make-target"@,
                    make_targets,
                ),
                ResourceInterest::JustTargets => with_group(
                    Seq::empty(),
                    "just-target"@,
                    just_targets,
                ),
                ResourceInterest::Directories => with_group(
                    Seq::empty(),
                    "directory"@,
                    directories,
                ),
                ResourceInterest::Nothing => Seq::empty(),
            }
        },
    }
}

fn script_names(scripts: &Vec<NamedPromptValue>) -> (names: Vec<String>)
    ensures
        texts_of(names@) == names_of(named_views(scripts@)),
{
    let ghost expected = names_of(named_views(scripts@));
    let mut names: Vec<String> = Vec::new();
    let mut i: usize = 0;
    while i < scripts.len()
        invariant
            0 <= i <= scripts@.len(),
            expected == names_of(named_views(scripts@)),
            texts_of(names@) =~= expected.subrange(0, i as int),
        decreases scripts@.len() - i,
    {
        let ghost before = names@;
        names.push(scripts[i].name.clone());
        assert(texts_of(names@) =~= texts_of(before).push(scripts@[i as int].name@));
        assert(expected[i as int] == scripts@[i as int].name@);
        assert(expected.subrange(0, i + 1) =~= expected.subrange(0, i as int).push(
            expected[i as int],
        ));
        i = i + 1;
    }
    assert(texts_of(names@) =~= expected);
    names
}

/// Local resources that may complete the command that is being typed; `skeleton`
/// is none where that is not known.
pub fn relevant_local_resources(
    skeleton: Option<&str>,
    packages: &Vec<String>,
    scripts: &Vec<NamedPromptValue>,
    make_targets: &Vec<String>,
    just_targets: &Vec<String>,
    directories: &Vec<String>,
) -> (groups: Vec<LocalResourceGroup>)
    ensures
        group_views(groups@) == relevant_groups(
            match skeleton {
                Some(skeleton) => Some(skeleton@),
                None => None,
            },
            texts_of(packages@),
            named_views(scripts@),
            texts_of(make_targets@),
            texts_of(just_targets@),
            texts_of(directories@),
        ),
{
    let mut groups: Vec<LocalResourceGroup> = Vec::new();
    assert(group_views(groups@) =~= Seq::<GroupView>::empty());
    let words: Vec<String> = match skeleton {
        None => {
            return groups;
        },
        Some(skeleton) => split_words(skeleton),
    };
    if words.len() == 0 {
        return groups;
    }
    match resource_interest(words[0].as_str()) {
        ResourceInterest::Packages => {
            push_resource_group(&mut groups, "package", packages);
            push_resource_group(&mut groups, "package-script", &script_names(scripts));
        },
        ResourceInterest::MakeTargets => {
            push_resource_group(&mut groups, "make-target", make_targets);
        },
        ResourceInterest::JustTargets => {
            push_resource_group(&mut groups, "just-target", just_targets);
        },
        ResourceInterest::Directories => {
            push_resource_group(&mut groups, "directory", directories);
        },
        ResourceInterest::Nothing => {},
    }
    groups
}

/// How much a prompt may say.
#[derive(Clone, Copy, Debug, PartialEq, Eq, Structural)]
pub enum AiContextLevel {
    /// The command line alone.
    Minimal,
    /// The workspace too.
    Workspace,
    /// The state of the repository too.
    Full,
}

/// What was read of a workspace.
pub struct WorkspaceFacts {
    /// Working directory, where it is text.
    pub cwd: Option<String>,
    /// Commands that completed, newest first.
    pub recent_commands: Vec<String>,
    /// Names of the files that mark workspaces.
    pub marker_names: Vec<String>,
    /// Names of the directories in the working directory.
    pub directory_names: Vec<String>,
    /// Skeleton of the command that is being typed, where it is known.
    pub skeleton: Option<String>,
    /// Package description, where there is one.
    pub package: Option<String>,
    /// Makefile, where there is one.
    pub makefile: Option<String>,
    /// Justfile, where there is one.
    pub justfile: Option<String>,
}

/// What a prompt may say of a workspace.
pub struct WorkspacePromptData {
    /// Working directory, where it is text.
    pub cwd: Option<String>,
    /// Commands that completed, newest first.
    pub recent_commands: Vec<String>,
    /// Names of the files that mark workspaces.
    pub signature_filenames: Vec<String>,
    /// Names of the directories in the working directory.
    pub directory_names: Vec<String>,
    /// Scripts of the package.
    pub package_scripts: Vec<NamedPromptValue>,
    /// Targets of the Makefile.
    pub make_targets: Vec<String>,
    /// Recipes of the justfile.
    pub just_targets: Vec<String>,
    /// Help for the command that is being typed.
    pub allowlisted_command_help: Vec<NamedPromptValue>,
    /// Local resources that may complete it.
    pub local_resources: Vec<LocalResourceGroup>,
}

/// What a prompt may say of a repository.
pub struct GitPromptData {
    /// Short status.
    pub status: Option<String>,
    /// Staged changes.
    pub staged_diff: Option<String>,
    /// Names of branches.
    pub branch_names: Vec<String>,
    /// Subjects of recent commits.
    pub recent_commit_subjects: Vec<String>,
}

/// What was read of a repository.
pub struct GitFacts {
    /// Short status.
    pub status: Option<String>,
    /// Staged changes.
    pub staged_diff: Option<String>,
    /// Names of branches, one to a line.
    pub branches: Option<String>,
    /// Subjects of recent commits, one to a line.
    pub subjects: Option<String>,
}

/// Targets of a build file, where there is one.
pub open spec fn optional_targets(file: Option<String>) -> Seq<Seq<char>> {
    match file {
        Some(contents) => targets_in(contents@, MAX_TARGETS),
        None => Seq::empty(),
    }
}

/// First lines of an output, where there is one.
pub open spec fn optional_lines(output: Option<String>, limit: usize) -> Seq<Seq<char>> {
    match output {
        Some(text) => first_items(lines_of(text@), limit as nat),
        None => Seq::empty(),
    }
}

/// Optional text, borrowed.
fn borrowed(text: &Option<String>) -> (view: Option<&str>)
    ensures
        match view {
            Some(view) => *text matches Some(text) && text@ == view@,
            None => *text is None,
        },
{
    match text {
        Some(text) => Some(text.as_str()),
        None => None,
    }
}

/// What a prompt may say of a repository.
pub fn git_context(facts: GitFacts) -> (data: GitPromptData)
    ensures
        data.status == facts.status,
        data.staged_diff == facts.staged_diff,
        texts_of(data.branch_names@) == optional_lines(facts.branches, MAX_BRANCH_NAMES),
        texts_of(data.recent_commit_subjects@) == optional_lines(facts.subjects, MAX_COMMIT_SUBJECTS),
{
    let branch_names: Vec<String> = first_lines(borrowed(&facts.branches), MAX_BRANCH_NAMES);
    let recent_commit_subjects: Vec<String> = first_lines(
        borrowed(&facts.subjects),
        MAX_COMMIT_SUBJECTS,
    );
    GitPromptData {
        status: facts.status,
        staged_diff: facts.staged_diff,
        branch_names,
        recent_commit_subjects,
    }
}

/// Names of packages that a description names, where there is one.
pub open spec fn optional_packages(package: Option<String>) -> Seq<Seq<char>> {
    match package {
        Some(text) => package_names(
            json_members_of(text@, "dependencies"@),
            json_members_of(text@, "devDependencies"@),
            json_members_of(text@, "optionalDependencies"@),
            json_members_of(text@, "peerDependencies"@),
        ),
        None => Seq::empty(),
    }
}

/// Scripts that a description names, where there is one.
pub open spec fn optional_scripts(package: Option<String>) -> Seq<NamedView> {
    match package {
        Some(text) => package_scripts(json_members_of(text@, "scripts"@)),
        None => Seq::empty(),
    }
}

/// Command that is being typed, where the catalog knows it.
pub open spec fn typed_command(roots: Seq<CommandSpec>, skeleton: Option<String>) -> Option<CommandSpec> {
    match skeleton {
        Some(skeleton) => command_under(roots, words_in(skeleton@)),
        None => None,
    }
}

/// Whether prompt data is what the facts and the catalog give within every bound.
pub open spec fn describes(
    data: WorkspacePromptData,
    roots: Seq<CommandSpec>,
    facts: WorkspaceFacts,
) -> bool {
    let directories = first_items(
        sorted_texts(texts_of(facts.directory_names@)),
        MAX_DIRECTORY_NAMES as nat,
    );
    &&& data.cwd == facts.cwd
    &&& data.recent_commands == facts.recent_commands
    &&& texts_of(data.signature_filenames@) == first_items(
        sorted_texts(texts_of(facts.marker_names@)),
        MAX_SIGNATURE_FILENAMES as nat,
    )
    &&& texts_of(data.directory_names@) == directories
    &&& named_views(data.package_scripts@) == optional_scripts(facts.package)
    &&& texts_of(data.make_targets@) == optional_targets(facts.makefile)
    &&& texts_of(data.just_targets@) == optional_targets(facts.justfile)
    &&& named_views(data.allowlisted_command_help@) == match typed_command(
        roots,
        facts.skeleton,
    ) {
        Some(command) => command_help(facts.skeleton->0@, command),
        None => Seq::empty(),
    }
    &&& group_views(data.local_resources@) == relevant_groups(
        match typed_command(roots, facts.skeleton) {
            Some(_) => Some(facts.skeleton->0@),
            None => None,
        },
        optional_packages(facts.package),
        optional_scripts(facts.package),
        optional_targets(facts.makefile),
        optional_targets(facts.justfile),
        directories,
    )
}

/// What a prompt may say of a workspace.
pub fn workspace_context(roots: &Vec<CommandSpec>, facts: WorkspaceFacts) -> (data: WorkspacePromptData)
    ensures
        describes(data, roots@, facts),
{
    let known: Option<(&str, &CommandSpec)> = match &facts.skeleton {
        Some(skeleton) => match resolved_catalog_command(roots, skeleton.as_str()) {
            Some(command) => Some((skeleton.as_str(), command)),
            None => None,
        },
        None => None,
    };
    let metadata: NodePromptMetadata = node_metadata(borrowed(&facts.package));
    proof {
        if facts.package is None {
            assert(named_views(metadata.scripts@) =~= Seq::<NamedView>::empty());
            assert(texts_of(metadata.packages@) =~= Seq::<Seq<char>>::empty());
        }
    }
    let make_targets: Vec<String> = structured_targets(borrowed(&facts.makefile), MAX_TARGETS);
    let just_targets: Vec<String> = structured_targets(borrowed(&facts.justfile), MAX_TARGETS);
    let directory_names: Vec<String> = sort_texts(facts.directory_names, MAX_DIRECTORY_NAMES);
    let local_resources: Vec<LocalResourceGroup> = relevant_local_resources(
        match known {
            Some((skeleton, _)) => Some(skeleton),
            None => None,
        },
        &metadata.packages,
        &metadata.scripts,
        &make_targets,
        &just_targets,
        &directory_names,
    );
    let help: Vec<NamedPromptValue> = catalog_command_help(known);
    WorkspacePromptData {
        cwd: facts.cwd,
        recent_commands: facts.recent_commands,
        signature_filenames: sort_texts(facts.marker_names, MAX_SIGNATURE_FILENAMES),
        directory_names,
        package_scripts: metadata.scripts,
        make_targets,
        just_targets,
        allowlisted_command_help: help,
        local_resources,
    }
}

/// What a prompt may say beyond the command line. A query that is no longer
/// wanted says nothing, and only the full level says anything of a repository.
pub fn gather_broader_context(
    level: AiContextLevel,
    cancelled: bool,
    roots: &Vec<CommandSpec>,
    facts: WorkspaceFacts,
    git: Option<GitFacts>,
) -> (context: (Option<WorkspacePromptData>, Option<GitPromptData>))
    ensures
        if cancelled {
            context.0 is None && context.1 is None
        } else {
            &&& context.0 matches Some(data) && describes(data, roots@, facts)
            &&& match git {
                Some(read) => if level is Full {
                    context.1 matches Some(data) && data.status == read.status && data.staged_diff
                        == read.staged_diff && texts_of(data.branch_names@) == optional_lines(
                        read.branches,
                        MAX_BRANCH_NAMES,
                    ) && texts_of(data.recent_commit_subjects@) == optional_lines(
                        read.subjects,
                        MAX_COMMIT_SUBJECTS,
                    )
                } else {
                    context.1 is None
                },
                None => context.1 is None,
            }
        },
{
    if cancelled {
        return (None, None);
    }
    let workspace: WorkspacePromptData = workspace_context(roots, facts);
    let repository: Option<GitPromptData> = match git {
        Some(read) => if level == AiContextLevel::Full {
            Some(git_context(read))
        } else {
            None
        },
        None => None,
    };
    (Some(workspace), repository)
}

/// A cut text is the longest beginning of it that fits: all of it where that
/// fits, and otherwise with no room for the next character.
pub proof fn law_cut_texts_are_the_longest_beginnings(text: Seq<char>, maximum: usize)
    ensures
        ({
            let cut = truncated(text, maximum);
            &&& encode_utf8(cut).len() <= maximum
            &&& cut.len() <= text.len()
            &&& forall|i: int| 0 <= i < cut.len() ==> #[trigger] cut[i] == text[i]
            &&& encode_utf8(text).len() <= maximum ==> cut == text
            &&& forall|end: int|
                is_char_boundary(encode_utf8(text), end) && end <= maximum ==> end <= encode_utf8(cut).len()
        }),
{
    let bytes = encode_utf8(text);
    let most: int = if bytes.len() < maximum {
        bytes.len() as int
    } else {
        maximum as int
    };
    encode_utf8_valid_utf8(text);
    is_char_boundary_start_end_of_seq(bytes);
    lemma_cut_place(bytes, most);
    let place = cut_place(bytes, most);
    law_cut_texts_are_their_bytes(text, place);
    assert(text == text_before(text, place) + text_behind(text, place));
    if bytes.len() <= maximum {
        assert(bytes.subrange(0, place) =~= bytes);
        encode_utf8_decode_utf8(text);
    }
    assert forall|end: int|
        is_char_boundary(bytes, end) && end <= maximum implies end <= place by {
        if end > bytes.len() {
            assert(!is_char_boundary(bytes, end));
        }
    }
}

proof fn lemma_cut_place(bytes: Seq<u8>, at: int)
    requires
        0 <= at <= bytes.len(),
        is_char_boundary(bytes, 0),
    ensures
        0 <= cut_place(bytes, at) <= at,
        is_char_boundary(bytes, cut_place(bytes, at)),
        forall|end: int| is_char_boundary(bytes, end) && end <= at ==> end <= cut_place(bytes, at),
    decreases at,
{
    if at > 0 && !is_char_boundary(bytes, at) {
        lemma_cut_place(bytes, at - 1);
    }
}

/// Whether groups offer exactly these names as resources of one kind: cut to
/// their bound, sorted, each once, and so many at most; nothing where there is no
/// name.
pub open spec fn offers(groups: Seq<GroupView>, kind: Seq<char>, names: Seq<Seq<char>>) -> bool {
    if forall|i: int| 0 <= i < names.len() ==> (#[trigger] names[i]).len() == 0 {
        groups.len() == 0
    } else {
        &&& groups.len() == 1
        &&& groups[0].0 == kind
        &&& groups[0].1.len() <= MAX_LOCAL_RESOURCES_PER_GROUP
        &&& strictly_sorted(groups[0].1)
        &&& forall|i: int|
            0 <= i < groups[0].1.len() ==> exists|j: int|
                0 <= j < names.len() && names[j].len() > 0 && #[trigger] groups[0].1[i] == truncated(
                    #[trigger] names[j],
                    MAX_RESOURCE_NAME_BYTES,
                )
        &&& forall|j: int|
            0 <= j < names.len() && (#[trigger] names[j]).len() > 0 ==> groups[0].1.contains(
                truncated(names[j], MAX_RESOURCE_NAME_BYTES),
            ) || (groups[0].1.len() == MAX_LOCAL_RESOURCES_PER_GROUP && text_earlier(
                groups[0].1.last(),
                truncated(names[j], MAX_RESOURCE_NAME_BYTES),
            ))
    }
}

proof fn lemma_cut_names(names: Seq<Seq<char>>, name: Seq<char>)
    ensures
        cut_names(names).contains(name) <==> exists|j: int|
            0 <= j < names.len() && names[j].len() > 0 && name == truncated(
                #[trigger] names[j],
                MAX_RESOURCE_NAME_BYTES,
            ),
    decreases names.len(),
{
    if names.len() > 0 {
        let front = names.drop_last();
        let rest = cut_names(front);
        lemma_cut_names(front, name);
        if rest.contains(name) {
            let j = choose|j: int|
                0 <= j < front.len() && front[j].len() > 0 && name == truncated(
                    #[trigger] front[j],
                    MAX_RESOURCE_NAME_BYTES,
                );
            assert(names[j] == front[j]);
            let k = choose|k: int| 0 <= k < rest.len() && rest[k] == name;
            assert(cut_names(names)[k] == name);
        }
        if exists|j: int|
            0 <= j < names.len() && names[j].len() > 0 && name == truncated(
                #[trigger] names[j],
                MAX_RESOURCE_NAME_BYTES,
            ) {
            let j = choose|j: int|
                0 <= j < names.len() && names[j].len() > 0 && name == truncated(
                    #[trigger] names[j],
                    MAX_RESOURCE_NAME_BYTES,
                );
            if j < front.len() {
                assert(front[j] == names[j]);
            } else {
                assert(cut_names(names)[cut_names(names).len() - 1] == name);
            }
        }
        if cut_names(names).contains(name) && !rest.contains(name) {
            assert(names[names.len() - 1].len() > 0);
            let k = choose|k: int| 0 <= k < cut_names(names).len() && cut_names(names)[k] == name;
            if k < rest.len() {
                assert(rest[k] == name);
            }
            assert(name == truncated(names[names.len() - 1], MAX_RESOURCE_NAME_BYTES));
        }
    }
}

proof fn lemma_group_offers(kind: Seq<char>, names: Seq<Seq<char>>)
    requires
        encode_utf8(kind).len() <= MAX_RESOURCE_NAME_BYTES,
    ensures
        offers(with_group(Seq::empty(), kind, names), kind, names),
{
    let cut = cut_names(names);
    let sorted = sorted_texts(cut);
    let kept = resource_names(names);
    law_sorting_is_exact(cut);
    law_cut_texts_are_the_longest_beginnings(kind, MAX_RESOURCE_NAME_BYTES);
    if forall|i: int| 0 <= i < names.len() ==> (#[trigger] names[i]).len() == 0 {
        if sorted.len() > 0 {
            assert(sorted.contains(sorted[0]));
            lemma_cut_names(names, sorted[0]);
        }
    } else {
        let some = choose|i: int| 0 <= i < names.len() && (#[trigger] names[i]).len() != 0;
        let name = truncated(names[some], MAX_RESOURCE_NAME_BYTES);
        lemma_cut_names(names, name);
        assert(sorted.contains(name));
        assert(kept.len() > 0);
        assert forall|i: int| 0 <= i < kept.len() implies exists|j: int|
            0 <= j < names.len() && names[j].len() > 0 && #[trigger] kept[i] == truncated(
                #[trigger] names[j],
                MAX_RESOURCE_NAME_BYTES,
            ) by {
            assert(kept[i] == sorted[i]);
            assert(sorted.contains(sorted[i]));
            lemma_cut_names(names, sorted[i]);
        }
        assert forall|j: int|
            0 <= j < names.len() && (#[trigger] names[j]).len() > 0 implies kept.contains(
            truncated(names[j], MAX_RESOURCE_NAME_BYTES),
        ) || (kept.len() == MAX_LOCAL_RESOURCES_PER_GROUP && text_earlier(
            kept.last(),
            truncated(names[j], MAX_RESOURCE_NAME_BYTES),
        )) by {
            let other = truncated(names[j], MAX_RESOURCE_NAME_BYTES);
            lemma_cut_names(names, other);
            assert(sorted.contains(other));
            let k = choose|k: int| 0 <= k < sorted.len() && sorted[k] == other;
            if k < kept.len() {
                assert(kept[k] == other);
            } else {
                assert(text_earlier(sorted[kept.len() - 1], sorted[k]));
            }
        }
    }
}

proof fn lemma_encoded_at_most_fourfold(text: Seq<char>)
    ensures
        encode_utf8(text).len() <= 4 * text.len(),
    decreases text.len(),
{
    if text.len() > 0 {
        lemma_encoded_at_most_fourfold(text.drop_first());
    }
}

/// The first word of a text, and the words behind it.
pub proof fn law_words_lie_between_white_space(lead: Seq<char>, word: Seq<char>, rest: Seq<char>)
    requires
        forall|i: int| 0 <= i < lead.len() ==> white_space(#[trigger] lead[i]),
        word.len() > 0,
        forall|i: int| 0 <= i < word.len() ==> !white_space(#[trigger] word[i]),
        rest.len() > 0 ==> white_space(rest[0]),
    ensures
        words_in(lead + word + rest) == seq![word] + words_in(rest),
    decreases lead.len(),
{
    let text = lead + word + rest;
    if lead.len() > 0 {
        law_words_lie_between_white_space(lead.drop_first(), word, rest);
        assert(text.drop_first() =~= lead.drop_first() + word + rest);
        assert(text[0] == lead[0]);
    } else {
        assert(text =~= word + rest);
        assert(text[0] == word[0]);
        assert forall|i: int| 0 <= i < word.len() implies !white_space(#[trigger] text[i]) by {
            assert(text[i] == word[i]);
        }
        lemma_until_white(text, word.len() as int);
        assert(text.subrange(0, word.len() as int) =~= word);
        assert(text.subrange(word.len() as int, text.len() as int) =~= rest);
    }
}

/// The first word of a command decides which local resources are offered with it,
/// whatever else there is: make its targets, just its recipes, a package manager
/// the packages and then the scripts, a directory command the directories, and
/// any other command nothing.
pub proof fn law_the_first_word_chooses_the_resources(
    lead: Seq<char>,
    root: Seq<char>,
    rest: Seq<char>,
    packages: Seq<Seq<char>>,
    scripts: Seq<NamedView>,
    make_targets: Seq<Seq<char>>,
    just_targets: Seq<Seq<char>>,
    directories: Seq<Seq<char>>,
)
    requires
        forall|i: int| 0 <= i < lead.len() ==> white_space(#[trigger] lead[i]),
        root.len() > 0,
        forall|i: int| 0 <= i < root.len() ==> !white_space(#[trigger] root[i]),
        rest.len() > 0 ==> white_space(rest[0]),
    ensures
        ({
            let groups = relevant_groups(
                Some(lead + root + rest),
                packages,
                scripts,
                make_targets,
                just_targets,
                directories,
            );
            let names = Seq::new(scripts.len(), |i: int| scripts[i].0);
            let manager = root == "npm"@ || root == "npx"@ || root == "pnpm"@ || root == "yarn"@ || root
                == "bun"@;
            let moving = root == "cd"@ || root == "du"@ || root == "find"@ || root == "ls"@ || root
                == "tree"@;
            &&& root == "make"@ ==> offers(groups, "make-target"@, make_targets)
            &&& root == "just"@ ==> offers(groups, "just-target"@, just_targets)
            &&& moving ==> offers(groups, "directory"@, directories)
            &&& manager ==> exists|first: Seq<GroupView>, second: Seq<GroupView>|
                groups == #[trigger] (first + second) && offers(first, "package"@, packages) && offers(
                    second,
                    "package-script"@,
                    names,
                )
            &&& !manager && !moving && root != "make"@ && root != "just"@ ==> groups.len() == 0
        }),
{
    law_words_lie_between_white_space(lead, root, rest);
    let words = words_in(lead + root + rest);
    assert(words[0] == root);
    reveal_strlit("npm");
    reveal_strlit("npx");
    reveal_strlit("pnpm");
    reveal_strlit("yarn");
    reveal_strlit("bun");
    reveal_strlit("make");
    reveal_strlit("just");
    reveal_strlit("cd");
    reveal_strlit("du");
    reveal_strlit("find");
    reveal_strlit("ls");
    reveal_strlit("tree");
    reveal_strlit("make-target");
    reveal_strlit("just-target");
    reveal_strlit("directory");
    reveal_strlit("package");
    reveal_strlit("package-script");
    lemma_encoded_at_most_fourfold("make-target"@);
    lemma_encoded_at_most_fourfold("just-target"@);
    lemma_encoded_at_most_fourfold("directory"@);
    lemma_encoded_at_most_fourfold("package"@);
    lemma_encoded_at_most_fourfold("package-script"@);
    lemma_group_offers("make-target"@, make_targets);
    lemma_group_offers("just-target"@, just_targets);
    lemma_group_offers("directory"@, directories);
    lemma_group_offers("package"@, packages);
    lemma_group_offers("package-script"@, names_of(scripts));
    let names = Seq::new(scripts.len(), |i: int| scripts[i].0);
    assert(names =~= names_of(scripts));
    let first = with_group(Seq::empty(), "package"@, packages);
    let second = with_group(Seq::empty(), "package-script"@, names);
    assert(with_group(first, "package-script"@, names) =~= first + second);
    assert("make"@[0] == 'm' && "just"@[0] == 'j' && "make"@.len() == 4);
    assert("npm"@.len() == 3 && "npx"@.len() == 3 && "bun"@.len() == 3);
    assert("pnpm"@[0] == 'p' && "yarn"@[0] == 'y' && "find"@[0] == 'f' && "tree"@[0] == 't');
    assert("cd"@.len() == 2 && "du"@.len() == 2 && "ls"@.len() == 2);
}

/// A line of a build file that begins with a plain name and a colon defines that
/// target, whatever follows; an indented line and one without a colon define
/// none.
pub proof fn law_lines_define_their_targets(name: Seq<char>, rest: Seq<char>, lead: char)
    requires
        name.len() > 0,
        encode_utf8(name).len() <= MAX_RESOURCE_NAME_BYTES,
        forall|i: int|
            0 <= i < name.len() ==> ('a' <= #[trigger] name[i] <= 'z' || 'A' <= name[i] <= 'Z' || '0'
                <= name[i] <= '9' || name[i] == '_' || name[i] == '-' || name[i] == '.'),
    ensures
        line_target(name.push(':') + rest) == Some(name),
        white_space(lead) ==> line_target(seq![lead] + name.push(':') + rest) is None,
        line_target(name) is None,
{
    let line = name.push(':') + rest;
    assert forall|j: int| 0 <= j < name.len() implies #[trigger] line[j] != ':' by {
        assert(line[j] == name[j]);
    }
    lemma_first_colon(line, name.len() as int);
    assert forall|j: int| 0 <= j < name.len() implies #[trigger] name[j] != ':' && !white_space(
        name[j],
    ) by {}
    lemma_first_colon(name, name.len() as int);
    assert(line.subrange(0, name.len() as int) =~= name);
    assert(line[0] == name[0]);
    assert(name.last() == name[name.len() - 1]);
    assert((seq![lead] + name.push(':') + rest)[0] == lead);
}

/// The targets of a build file are those that its lines define, sorted and each
/// once; all of them, where they are not too many.
pub proof fn law_build_files_list_their_targets(contents: Seq<char>, limit: usize, target: Seq<char>)
    ensures
        strictly_sorted(targets_in(contents, limit)),
        targets_in(contents, limit).len() <= limit,
        targets_in(contents, limit).contains(target) ==> exists|i: int|
            0 <= i < lines_of(contents).len() && line_target(#[trigger] lines_of(contents)[i]) == Some(
                target,
            ),
        targets_in(contents, limit).len() < limit && (exists|i: int|
            0 <= i < lines_of(contents).len() && line_target(#[trigger] lines_of(contents)[i]) == Some(
                target,
            )) ==> targets_in(contents, limit).contains(target),
{
    let defined = line_targets(lines_of(contents));
    let sorted = sorted_texts(defined);
    let kept = targets_in(contents, limit);
    law_sorting_is_exact(defined);
    lemma_line_targets(lines_of(contents), target);
    if kept.contains(target) {
        let k = choose|k: int| 0 <= k < kept.len() && kept[k] == target;
        assert(sorted[k] == target);
        assert(sorted.contains(target));
    }
}

proof fn lemma_line_targets(all: Seq<Seq<char>>, target: Seq<char>)
    ensures
        line_targets(all).contains(target) <==> exists|i: int|
            0 <= i < all.len() && line_target(#[trigger] all[i]) == Some(target),
    decreases all.len(),
{
    if all.len() > 0 {
        let front = all.drop_last();
        let rest = line_targets(front);
        lemma_line_targets(front, target);
        if rest.contains(target) {
            let i = choose|i: int| 0 <= i < front.len() && line_target(#[trigger] front[i]) == Some(target);
            assert(all[i] == front[i]);
            let k = choose|k: int| 0 <= k < rest.len() && rest[k] == target;
            assert(line_targets(all)[k] == target);
        }
        if exists|i: int| 0 <= i < all.len() && line_target(#[trigger] all[i]) == Some(target) {
            let i = choose|i: int| 0 <= i < all.len() && line_target(#[trigger] all[i]) == Some(target);
            if i < front.len() {
                assert(front[i] == all[i]);
            } else {
                assert(line_targets(all)[line_targets(all).len() - 1] == target);
            }
        }
        if line_targets(all).contains(target) && !rest.contains(target) {
            let k = choose|k: int| 0 <= k < line_targets(all).len() && line_targets(all)[k] == target;
            if k < rest.len() {
                assert(rest[k] == target);
            }
            assert(line_target(all[all.len() - 1]) == Some(target));
        }
    }
}

/// What a prompt says of a workspace is what was read, each from its own file:
/// targets from the Makefile, recipes from the justfile, scripts from the
/// package, and resources only for a command that the catalog knows.
pub proof fn law_context_is_what_was_read(
    data: WorkspacePromptData,
    roots: Seq<CommandSpec>,
    facts: WorkspaceFacts,
)
    requires
        describes(data, roots, facts),
    ensures
        data.cwd == facts.cwd,
        data.recent_commands == facts.recent_commands,
        facts.makefile is None ==> data.make_targets@.len() == 0,
        facts.makefile matches Some(contents) ==> texts_of(data.make_targets@) == targets_in(
            contents@,
            MAX_TARGETS,
        ),
        facts.justfile is None ==> data.just_targets@.len() == 0,
        facts.justfile matches Some(contents) ==> texts_of(data.just_targets@) == targets_in(
            contents@,
            MAX_TARGETS,
        ),
        facts.package is None ==> data.package_scripts@.len() == 0,
        facts.package matches Some(text) ==> named_views(data.package_scripts@) == package_scripts(
            json_members_of(text@, "scripts"@),
        ),
        strictly_sorted(texts_of(data.signature_filenames@)),
        strictly_sorted(texts_of(data.directory_names@)),
        data.signature_filenames@.len() <= MAX_SIGNATURE_FILENAMES,
        data.directory_names@.len() <= MAX_DIRECTORY_NAMES,
        forall|i: int|
            0 <= i < data.directory_names@.len() ==> texts_of(facts.directory_names@).contains(
                (#[trigger] data.directory_names@[i])@,
            ),
        facts.skeleton is None ==> data.local_resources@.len() == 0
            && data.allowlisted_command_help@.len() == 0,
{
    let named = texts_of(facts.directory_names@);
    law_sorting_is_exact(named);
    law_sorting_is_exact(texts_of(facts.marker_names@));
    assert(texts_of(data.make_targets@).len() == data.make_targets@.len());
    assert(texts_of(data.just_targets@).len() == data.just_targets@.len());
    assert(texts_of(data.directory_names@).len() == data.directory_names@.len());
    assert(texts_of(data.signature_filenames@).len() == data.signature_filenames@.len());
    assert(named_views(data.package_scripts@).len() == data.package_scripts@.len());
    assert(named_views(data.allowlisted_command_help@).len() == data.allowlisted_command_help@.len());
    assert(group_views(data.local_resources@).len() == data.local_resources@.len());
    let kept = texts_of(data.directory_names@);
    assert forall|i: int| 0 <= i < data.directory_names@.len() implies named.contains(
        (#[trigger] data.directory_names@[i])@,
    ) by {
        assert(kept[i] == data.directory_names@[i]@);
        assert(sorted_texts(named)[i] == kept[i]);
        assert(sorted_texts(named).contains(kept[i]));
    }
}

/// The first lines of an output are its lines in order, so many at most.
pub proof fn law_outputs_give_their_first_lines(output: String, limit: usize)
    ensures
        optional_lines(None, limit).len() == 0,
        optional_lines(Some(output), limit).len() <= limit,
        forall|i: int|
            0 <= i < optional_lines(Some(output), limit).len() ==> #[trigger] optional_lines(
                Some(output),
                limit,
            )[i] == lines_of(output@)[i],
        lines_of(output@).len() <= limit ==> optional_lines(Some(output), limit) == lines_of(output@),
{
}

/// Scripts of a package are its text members, sorted by name, each with the value
/// that stands first under that name.
pub proof fn law_scripts_keep_their_values(members: MembersView, i: int)
    requires
        0 <= i < package_scripts(Some(members)).len(),
    ensures
        package_scripts(None).len() == 0,
        package_scripts(Some(members)).len() <= MAX_PACKAGE_SCRIPTS,
        exists|j: int|
            0 <= j < members.len() && (#[trigger] members[j]).0 == package_scripts(Some(members))[i].0
                && members[j].1 == Some(package_scripts(Some(members))[i].1) && (forall|k: int|
                0 <= k < j && (#[trigger] members[k]).0 == members[j].0 ==> members[k].1 is None),
        strictly_sorted(names_of(package_scripts(Some(members)))),
{
    let values = text_members(members);
    let sorted = sorted_texts(names_of(values));
    let names = first_items(sorted, MAX_PACKAGE_SCRIPTS as nat);
    law_sorting_is_exact(names_of(values));
    let scripts = package_scripts(Some(members));
    assert(names_of(scripts) =~= names);
    assert(sorted[i] == names[i]);
    assert(sorted.contains(names[i]));
    assert(names_of(values).contains(names[i]));
    let at = choose|at: int| 0 <= at < names_of(values).len() && names_of(values)[at] == names[i];
    assert(values[at].0 == names[i]);
    lemma_value_under(members, names[i], at);
}

proof fn lemma_value_under(members: MembersView, name: Seq<char>, at: int)
    requires
        0 <= at < text_members(members).len(),
        text_members(members)[at].0 == name,
    ensures
        exists|j: int|
            0 <= j < members.len() && (#[trigger] members[j]).0 == name && members[j].1 == Some(
                value_under(text_members(members), name),
            ) && (forall|k: int|
                0 <= k < j && (#[trigger] members[k]).0 == members[j].0 ==> members[k].1 is None),
    decreases members.len(),
{
    if members.len() > 0 {
        let front = members.drop_last();
        let before = text_members(front);
        let values = text_members(members);
        if exists|i: int| 0 <= i < before.len() && (#[trigger] before[i]).0 == name {
            let i = choose|i: int| 0 <= i < before.len() && (#[trigger] before[i]).0 == name;
            lemma_value_under(front, name, i);
            lemma_value_stays(before, values, name, i);
            let j = choose|j: int|
                0 <= j < front.len() && (#[trigger] front[j]).0 == name && front[j].1 == Some(
                    value_under(before, name),
                ) && (forall|k: int|
                    0 <= k < j && (#[trigger] front[k]).0 == front[j].0 ==> front[k].1 is None);
            assert(members[j] == front[j]);
            assert forall|k: int| 0 <= k < j && (#[trigger] members[k]).0 == members[j].0 implies
                members[k].1 is None by {
                assert(front[k] == members[k]);
            }
        } else {
            assert(at == before.len());
            lemma_only_value(values, name, at);
            let j = members.len() - 1;
            assert(members[j].0 == name);
            assert forall|k: int| 0 <= k < j && (#[trigger] members[k]).0 == members[j].0 implies
                members[k].1 is None by {
                assert(front[k] == members[k]);
                lemma_text_member_listed(front, k);
            }
        }
    }
}

proof fn lemma_text_member_listed(members: MembersView, k: int)
    requires
        0 <= k < members.len(),
    ensures
        members[k].1 is Some ==> exists|i: int|
            0 <= i < text_members(members).len() && (#[trigger] text_members(members)[i]).0
                == members[k].0,
    decreases members.len(),
{
    let front = members.drop_last();
    let before = text_members(front);
    let values = text_members(members);
    if k < front.len() {
        lemma_text_member_listed(front, k);
        if members[k].1 is Some {
            assert(front[k] == members[k]);
            let i = choose|i: int| 0 <= i < before.len() && (#[trigger] before[i]).0 == members[k].0;
            assert(values[i] == before[i]);
        }
    } else if members[k].1 is Some {
        assert(values[values.len() - 1].0 == members[k].0);
    }
}

proof fn lemma_value_stays(before: Seq<NamedView>, values: Seq<NamedView>, name: Seq<char>, at: int)
    requires
        0 <= at < before.len() <= values.len(),
        before[at].0 == name,
        forall|i: int| 0 <= i < before.len() ==> #[trigger] before[i] == values[i],
    ensures
        value_under(values, name) == value_under(before, name),
    decreases before.len(),
{
    assert(before[0] == values[0]);
    if before[0].0 != name {
        let rest = before.drop_first();
        let more = values.drop_first();
        assert forall|i: int| 0 <= i < rest.len() implies #[trigger] rest[i] == more[i] by {
            assert(before[i + 1] == values[i + 1]);
        }
        lemma_value_stays(rest, more, name, at - 1);
    }
}

proof fn lemma_only_value(values: Seq<NamedView>, name: Seq<char>, at: int)
    requires
        0 <= at < values.len(),
        values[at].0 == name,
        forall|i: int| 0 <= i < at ==> (#[trigger] values[i]).0 != name,
    ensures
        value_under(values, name) == values[at].1,
    decreases values.len(),
{
    if at > 0 {
        assert(values[0].0 != name);
        let rest = values.drop_first();
        assert forall|i: int| 0 <= i < at - 1 implies (#[trigger] rest[i]).0 != name by {
            assert(values[i + 1].0 != name);
        }
        lemma_only_value(rest, name, at - 1);
    }
}

/// Help names a command's purpose first, then its subcommands and its options in
/// their order, so many of each at most.
pub proof fn law_help_lists_what_a_command_takes(command: CommandSpec, i: int)
    ensures
        ({
            let lines = help_lines(command);
            let head: int = if blank(command.description@) {
                0
            } else {
                1
            };
            let subcommands: int = if command.subcommands@.len() < MAX_HELP_SUBCOMMANDS {
                command.subcommands@.len() as int
            } else {
                MAX_HELP_SUBCOMMANDS as int
            };
            let options: int = if command.options@.len() < MAX_HELP_OPTIONS {
                command.options@.len() as int
            } else {
                MAX_HELP_OPTIONS as int
            };
            &&& lines.len() == head + subcommands + options
            &&& head == 1 ==> lines[0] == command.description@
            &&& 0 <= i < subcommands ==> lines[head + i] == "subcommand "@ + command.subcommands@[i].name@
                + ": "@ + command.subcommands@[i].description@
            &&& 0 <= i < options ==> lines[head + subcommands + i] == "option "@ + joined_texts(
                texts_of(command.options@[i].names@),
                ", "@,
            ) + ": "@ + command.options@[i].description@
        }),
{
}

/// A path of names leads from a command to the first of its subcommands with the
/// next name; one that names no command leads nowhere.
pub proof fn law_names_lead_to_subcommands(
    commands: Seq<CommandSpec>,
    at: int,
    name: Seq<char>,
    rest: Seq<Seq<char>>,
)
    requires
        0 <= at < commands.len(),
        commands[at].name@ == name,
        forall|i: int| 0 <= i < at ==> (#[trigger] commands[i]).name@ != name,
    ensures
        named_command(commands, name) == Some(commands[at]),
        command_under(commands, seq![name]) == Some(commands[at]),
        rest.len() > 0 ==> command_under(commands, seq![name] + rest) == command_under(
            commands[at].subcommands@,
            rest,
        ),
        command_under(commands, Seq::empty()) is None,
        command_under(Seq::empty(), seq![name]) is None,
    decreases commands.len(),
{
    if at > 0 {
        assert(commands[0].name@ != name);
        let later = commands.drop_first();
        assert forall|i: int| 0 <= i < at - 1 implies (#[trigger] later[i]).name@ != name by {
            assert(commands[i + 1].name@ != name);
        }
        law_names_lead_to_subcommands(later, at - 1, name, rest);
    }
    assert((seq![name] + rest).drop_first() =~= rest);
    assert((seq![name] + rest)[0] == name);
    assert(seq![name][0] == name);
}

/// Texts are joined with the separator between each two, and nothing at the ends.
pub proof fn law_joined_texts_are_separated(texts: Seq<Seq<char>>, text: Seq<char>, separator: Seq<char>)
    ensures
        joined_texts(Seq::empty(), separator).len() == 0,
        joined_texts(seq![text], separator) == text,
        texts.len() > 0 ==> joined_texts(texts.push(text), separator) == joined_texts(texts, separator)
            + separator + text,
{
    assert(texts.push(text).drop_last() =~= texts);
}

/// Packages are those that any of the four lists of dependencies names, cut to
/// their bound, sorted and each once; all of them, where they are not too many.
pub proof fn law_packages_come_from_every_list(
    dependencies: MembersView,
    development: MembersView,
    optional: MembersView,
    peers: MembersView,
    member: (Seq<char>, Option<Seq<char>>),
)
    ensures
        ({
            let names = package_names(
                Some(dependencies),
                Some(development),
                Some(optional),
                Some(peers),
            );
            &&& strictly_sorted(names)
            &&& names.len() <= MAX_LOCAL_RESOURCES_PER_GROUP
            &&& names.len() < MAX_LOCAL_RESOURCES_PER_GROUP && (dependencies.contains(member)
                || development.contains(member) || optional.contains(member) || peers.contains(member))
                ==> names.contains(truncated(member.0, MAX_RESOURCE_NAME_BYTES))
            &&& package_names(None, None, None, None).len() == 0
        }),
{
    let listed = member_names(Some(dependencies)) + member_names(Some(development)) + member_names(
        Some(optional),
    ) + member_names(Some(peers));
    let cut = all_cut(listed);
    law_sorting_is_exact(cut);
    let wanted = truncated(member.0, MAX_RESOURCE_NAME_BYTES);
    let a = dependencies.len() as int;
    let b = a + development.len();
    let c = b + optional.len();
    if dependencies.contains(member) {
        let i = choose|i: int| 0 <= i < dependencies.len() && dependencies[i] == member;
        assert(listed[i] == member.0);
        assert(cut[i] == wanted);
    } else if development.contains(member) {
        let i = choose|i: int| 0 <= i < development.len() && development[i] == member;
        assert(listed[a + i] == member.0);
        assert(cut[a + i] == wanted);
    } else if optional.contains(member) {
        let i = choose|i: int| 0 <= i < optional.len() && optional[i] == member;
        assert(listed[b + i] == member.0);
        assert(cut[b + i] == wanted);
    } else if peers.contains(member) {
        let i = choose|i: int| 0 <= i < peers.len() && peers[i] == member;
        assert(listed[c + i] == member.0);
        assert(cut[c + i] == wanted);
    }
    let none = all_cut(
        member_names(None) + member_names(None) + member_names(None) + member_names(None),
    );
    assert(none =~= Seq::<Seq<char>>::empty());
}

} // verus!
