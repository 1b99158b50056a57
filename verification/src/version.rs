//! Semantic versions and their precedence.

use vstd::prelude::*;

use crate::text::{
    all_digits, byte_strings, bytes_before, bytes_equal, bytes_precede, canonical_decimal,
    decimal_digits, decimal_value, find_byte, first_index,
    is_digit, law_pieces_lie_between_separators, lemma_bytes_order, lemma_bytes_transitive,
    lemma_decimal_digits_shape, lemma_first_index, lemma_first_index_bounds, lemma_split_first,
    only_digits, parse_digits, split_fields, split_on,
};

verus! {

/// Version that this build reports.
pub const RUNNING_VERSION: &'static str = "0.1.0";

/// Kind of a published release.
#[derive(Clone, Copy, Debug, PartialEq, Eq, Structural)]
pub enum ReleaseKind {
    /// Meant for everybody.
    Stable,
    /// Built from the newest sources.
    Nightly,
}

/// A semantic version as a value; build metadata has no precedence and is left
/// out.
#[verifier::ext_equal]
pub struct VersionView {
    pub major: int,
    pub minor: int,
    pub patch: int,
    pub pre: Seq<Seq<u8>>,
}

/// Whether a byte may stand in an identifier.
pub open spec fn identifier_byte(byte: u8) -> bool {
    is_digit(byte) || 65 <= byte <= 90 || 97 <= byte <= 122 || byte == 45
}

/// Whether `bytes` is an identifier of build metadata.
pub open spec fn build_identifier(bytes: Seq<u8>) -> bool {
    bytes.len() > 0 && forall|i: int| 0 <= i < bytes.len() ==> identifier_byte(#[trigger] bytes[i])
}

/// Whether `bytes` is an identifier of a pre-release: a number has no
/// superfluous zero.
pub open spec fn pre_identifier(bytes: Seq<u8>) -> bool {
    build_identifier(bytes) && (all_digits(bytes) ==> canonical_decimal(bytes))
}

/// Whether every part is an identifier of build metadata.
pub open spec fn build_identifiers(parts: Seq<Seq<u8>>) -> bool {
    forall|i: int| 0 <= i < parts.len() ==> build_identifier(#[trigger] parts[i])
}

/// Whether every part is an identifier of a pre-release.
pub open spec fn pre_identifiers(parts: Seq<Seq<u8>>) -> bool {
    forall|i: int| 0 <= i < parts.len() ==> pre_identifier(#[trigger] parts[i])
}

/// Whether `bytes` is a number of the version core.
pub open spec fn core_number(bytes: Seq<u8>) -> bool {
    canonical_decimal(bytes) && decimal_value(bytes) <= u64::MAX
}

/// The version that a text denotes.
pub open spec fn parsed_version(text: Seq<u8>) -> Option<VersionView> {
    let plus = first_index(text, 43);
    let head = text.subrange(0, plus);
    let dash = first_index(head, 45);
    let core = split_on(head.subrange(0, dash), 46);
    let pre = if dash == head.len() {
        Seq::empty()
    } else {
        split_on(head.subrange(dash + 1, head.len() as int), 46)
    };
    if plus < text.len() && !build_identifiers(
        split_on(text.subrange(plus + 1, text.len() as int), 46),
    ) {
        None
    } else if !pre_identifiers(pre) {
        None
    } else if core.len() != 3 || !core_number(core[0]) || !core_number(core[1]) || !core_number(core[2]) {
        None
    } else {
        Some(
            VersionView {
                major: decimal_value(core[0]) as int,
                minor: decimal_value(core[1]) as int,
                patch: decimal_value(core[2]) as int,
                pre,
            },
        )
    }
}

/// A version starts with a digit.
pub proof fn lemma_versions_start_with_a_digit(text: Seq<u8>)
    requires
        parsed_version(text) is Some,
    ensures
        text.len() > 0,
        is_digit(text[0]),
{
    let plus = first_index(text, 43);
    lemma_first_index_bounds(text, 43);
    let head = text.subrange(0, plus);
    let dash = first_index(head, 45);
    lemma_first_index_bounds(head, 45);
    let core = head.subrange(0, dash);
    lemma_split_first(core, 46);
    assert(core_number(split_on(core, 46)[0]));
    assert(is_digit(split_on(core, 46)[0][0]));
}

/// Whether one pre-release identifier has lower precedence than another:
/// numbers come first, in numerical order.
pub open spec fn identifier_before(a: Seq<u8>, b: Seq<u8>) -> bool {
    if all_digits(a) && all_digits(b) {
        decimal_value(a) < decimal_value(b)
    } else if all_digits(a) || all_digits(b) {
        all_digits(a)
    } else {
        bytes_before(a, b)
    }
}

/// Whether one list of identifiers has lower precedence than another.
pub open spec fn identifiers_before(a: Seq<Seq<u8>>, b: Seq<Seq<u8>>) -> bool
    decreases a.len(),
{
    if b.len() == 0 {
        false
    } else if a.len() == 0 {
        true
    } else if a[0] == b[0] {
        identifiers_before(a.drop_first(), b.drop_first())
    } else {
        identifier_before(a[0], b[0])
    }
}

impl VersionView {
    /// Whether this version has lower precedence than another. A pre-release
    /// comes before its release.
    pub open spec fn older(self, other: Self) -> bool {
        if self.major != other.major {
            self.major < other.major
        } else if self.minor != other.minor {
            self.minor < other.minor
        } else if self.patch != other.patch {
            self.patch < other.patch
        } else if self.pre.len() == 0 || other.pre.len() == 0 {
            self.pre.len() > 0
        } else {
            identifiers_before(self.pre, other.pre)
        }
    }

    /// Identifiers as the grammar has them.
    pub open spec fn inv(self) -> bool {
        pre_identifiers(self.pre)
    }
}

proof fn lemma_digits_front(a: Seq<u8>)
    requires
        all_digits(a),
        a.len() > 0,
    ensures
        all_digits(a.drop_last()),
        is_digit(a.last()),
{
    assert(is_digit(a[a.len() - 1]));
    assert forall|i: int| 0 <= i < a.len() - 1 implies is_digit(#[trigger] a.drop_last()[i]) by {
        assert(a.drop_last()[i] == a[i]);
    }
}

/// Of two canonical numbers the longer one is the greater.
proof fn lemma_longer_is_greater(a: Seq<u8>, b: Seq<u8>)
    requires
        all_digits(a),
        canonical_decimal(b),
        0 < a.len() < b.len(),
    ensures
        decimal_value(a) < decimal_value(b),
    decreases a.len(),
{
    lemma_digits_front(a);
    lemma_digits_front(b);
    let front = b.drop_last();
    assert(front[0] == b[0]);
    if a.len() == 1 {
        assert(a.drop_last().len() == 0);
        lemma_canonical_positive(front);
    } else {
        lemma_longer_is_greater(a.drop_last(), front);
    }
}

proof fn lemma_canonical_positive(a: Seq<u8>)
    requires
        all_digits(a),
        a.len() > 0,
        a[0] != 48,
    ensures
        decimal_value(a) >= 1,
    decreases a.len(),
{
    lemma_digits_front(a);
    if a.len() == 1 {
        assert(a.drop_last().len() == 0);
        assert(a.last() == a[0]);
    } else {
        assert(a.drop_last()[0] == a[0]);
        lemma_canonical_positive(a.drop_last());
    }
}

/// Two canonical numbers are the same number only as the same digits.
proof fn lemma_same_length_order(a: Seq<u8>, b: Seq<u8>)
    requires
        all_digits(a),
        all_digits(b),
        a.len() == b.len(),
        decimal_value(a) == decimal_value(b),
    ensures
        a == b,
    decreases a.len(),
{
    if a.len() > 0 {
        lemma_digits_front(a);
        lemma_digits_front(b);
        lemma_same_length_order(a.drop_last(), b.drop_last());
        assert(a =~= a.drop_last().push(a.last()));
        assert(b =~= b.drop_last().push(b.last()));
    } else {
        assert(a =~= b);
    }
}

/// Whether one number of the same length is less than another.
fn number_before(a: &[u8], b: &[u8]) -> (before: bool)
    requires
        all_digits(a@),
        all_digits(b@),
        a@.len() == b@.len(),
    ensures
        before == (decimal_value(a@) < decimal_value(b@)),
{
    let mut less: bool = false;
    let mut greater: bool = false;
    let mut i: usize = 0;
    while i < a.len()
        invariant
            0 <= i <= a@.len(),
            a@.len() == b@.len(),
            all_digits(a@),
            all_digits(b@),
            less == (decimal_value(a@.subrange(0, i as int)) < decimal_value(
                b@.subrange(0, i as int),
            )),
            greater == (decimal_value(a@.subrange(0, i as int)) > decimal_value(
                b@.subrange(0, i as int),
            )),
        decreases a@.len() - i,
    {
        assert(a@.subrange(0, i + 1).drop_last() =~= a@.subrange(0, i as int));
        assert(b@.subrange(0, i + 1).drop_last() =~= b@.subrange(0, i as int));
        assert(is_digit(a@[i as int]) && is_digit(b@[i as int]));
        if !less && !greater {
            less = a[i] < b[i];
            greater = a[i] > b[i];
        }
        i = i + 1;
    }
    assert(a@.subrange(0, i as int) =~= a@);
    assert(b@.subrange(0, i as int) =~= b@);
    less
}

/// Whether one pre-release identifier has lower precedence than another.
fn identifier_precedes(a: &[u8], b: &[u8]) -> (before: bool)
    requires
        pre_identifier(a@),
        pre_identifier(b@),
    ensures
        before == identifier_before(a@, b@),
{
    let a_number: bool = only_digits(a);
    let b_number: bool = only_digits(b);
    if a_number && b_number {
        if a.len() != b.len() {
            proof {
                if a@.len() < b@.len() {
                    lemma_longer_is_greater(a@, b@);
                } else {
                    lemma_longer_is_greater(b@, a@);
                }
            }
            a.len() < b.len()
        } else {
            number_before(a, b)
        }
    } else if a_number || b_number {
        a_number
    } else {
        bytes_precede(a, b)
    }
}

/// A semantic version.
pub struct ReleaseVersion {
    major: u64,
    minor: u64,
    patch: u64,
    pre: Vec<Vec<u8>>,
}

impl View for ReleaseVersion {
    type V = VersionView;

    closed spec fn view(&self) -> VersionView {
        VersionView {
            major: self.major as int,
            minor: self.minor as int,
            patch: self.patch as int,
            pre: byte_strings(self.pre@),
        }
    }
}

fn is_build_identifier(bytes: &[u8]) -> (valid: bool)
    ensures
        valid == build_identifier(bytes@),
{
    if bytes.len() == 0 {
        return false;
    }
    let mut i: usize = 0;
    while i < bytes.len()
        invariant
            0 <= i <= bytes@.len(),
            forall|j: int| 0 <= j < i ==> identifier_byte(#[trigger] bytes@[j]),
        decreases bytes@.len() - i,
    {
        let byte: u8 = bytes[i];
        if !(byte >= 48 && byte <= 57 || byte >= 65 && byte <= 90 || byte >= 97 && byte <= 122 || byte
            == 45) {
            assert(!identifier_byte(bytes@[i as int]));
            return false;
        }
        i = i + 1;
    }
    true
}

fn is_pre_identifier(bytes: &[u8]) -> (valid: bool)
    ensures
        valid == pre_identifier(bytes@),
{
    is_build_identifier(bytes) && (!only_digits(bytes) || bytes.len() == 1 || bytes[0] != 48)
}

fn parse_core_number(bytes: &[u8]) -> (number: Option<u64>)
    ensures
        match number {
            Some(n) => core_number(bytes@) && n == decimal_value(bytes@),
            None => !core_number(bytes@),
        },
{
    if bytes.len() == 0 || !only_digits(bytes) || (bytes.len() > 1 && bytes[0] == 48) {
        return None;
    }
    parse_digits(bytes)
}

fn all_build_identifiers(parts: &Vec<Vec<u8>>) -> (valid: bool)
    ensures
        valid == build_identifiers(byte_strings(parts@)),
{
    let ghost views = byte_strings(parts@);
    let mut i: usize = 0;
    while i < parts.len()
        invariant
            views == byte_strings(parts@),
            0 <= i <= parts@.len(),
            forall|j: int| 0 <= j < i ==> build_identifier(#[trigger] views[j]),
        decreases parts@.len() - i,
    {
        assert(views[i as int] == parts@[i as int]@);
        if !is_build_identifier(parts[i].as_slice()) {
            return false;
        }
        i = i + 1;
    }
    true
}

fn all_pre_identifiers(parts: &Vec<Vec<u8>>) -> (valid: bool)
    ensures
        valid == pre_identifiers(byte_strings(parts@)),
{
    let ghost views = byte_strings(parts@);
    let mut i: usize = 0;
    while i < parts.len()
        invariant
            views == byte_strings(parts@),
            0 <= i <= parts@.len(),
            forall|j: int| 0 <= j < i ==> pre_identifier(#[trigger] views[j]),
        decreases parts@.len() - i,
    {
        assert(views[i as int] == parts@[i as int]@);
        if !is_pre_identifier(parts[i].as_slice()) {
            return false;
        }
        i = i + 1;
    }
    true
}

impl ReleaseVersion {
    /// Reads a semantic version.
    pub fn parse(text: &[u8]) -> (version: Option<ReleaseVersion>)
        ensures
            match version {
                Some(version) => parsed_version(text@) == Some(version@) && version@.inv(),
                None => parsed_version(text@) is None,
            },
    {
        let plus: usize = find_byte(text, 43);
        if plus < text.len() {
            let build: Vec<Vec<u8>> = split_fields(
                vstd::slice::slice_subrange(text, plus + 1, text.len()),
                46,
            );
            assert(byte_strings(build@) =~= split_on(
                text@.subrange(plus + 1, text@.len() as int),
                46,
            ));
            if !all_build_identifiers(&build) {
                return None;
            }
        }
        let head: &[u8] = vstd::slice::slice_subrange(text, 0, plus);
        let dash: usize = find_byte(head, 45);
        let core: Vec<Vec<u8>> = split_fields(vstd::slice::slice_subrange(head, 0, dash), 46);
        let pre: Vec<Vec<u8>> = if dash == head.len() {
            Vec::new()
        } else {
            split_fields(vstd::slice::slice_subrange(head, dash + 1, head.len()), 46)
        };
        assert(byte_strings(pre@) =~= if dash == head@.len() {
            Seq::empty()
        } else {
            split_on(head@.subrange(dash + 1, head@.len() as int), 46)
        });
        if !all_pre_identifiers(&pre) || core.len() != 3 {
            return None;
        }
        match (
            parse_core_number(core[0].as_slice()),
            parse_core_number(core[1].as_slice()),
            parse_core_number(core[2].as_slice()),
        ) {
            (Some(major), Some(minor), Some(patch)) => Some(ReleaseVersion { major, minor, patch, pre }),
            _ => None,
        }
    }

    /// Whether this version has lower precedence than another.
    pub fn is_older(&self, other: &ReleaseVersion) -> (older: bool)
        requires
            self@.inv(),
            other@.inv(),
        ensures
            older == self@.older(other@),
    {
        if self.major != other.major {
            return self.major < other.major;
        }
        if self.minor != other.minor {
            return self.minor < other.minor;
        }
        if self.patch != other.patch {
            return self.patch < other.patch;
        }
        if self.pre.len() == 0 || other.pre.len() == 0 {
            return self.pre.len() > 0;
        }
        identifiers_precede(&self.pre, &other.pre)
    }
}

fn identifiers_precede(a: &Vec<Vec<u8>>, b: &Vec<Vec<u8>>) -> (before: bool)
    requires
        pre_identifiers(byte_strings(a@)),
        pre_identifiers(byte_strings(b@)),
    ensures
        before == identifiers_before(byte_strings(a@), byte_strings(b@)),
{
    let ghost x = byte_strings(a@);
    let ghost y = byte_strings(b@);
    let mut i: usize = 0;
    assert(x.subrange(0, x.len() as int) =~= x);
    assert(y.subrange(0, y.len() as int) =~= y);
    while i < a.len() && i < b.len()
        invariant
            x == byte_strings(a@),
            y == byte_strings(b@),
            0 <= i <= a@.len(),
            i <= b@.len(),
            pre_identifiers(x),
            pre_identifiers(y),
            identifiers_before(x, y) == identifiers_before(
                x.subrange(i as int, x.len() as int),
                y.subrange(i as int, y.len() as int),
            ),
        decreases a@.len() - i,
    {
        assert(x[i as int] == a@[i as int]@);
        assert(y[i as int] == b@[i as int]@);
        if !bytes_equal(a[i].as_slice(), b[i].as_slice()) {
            return identifier_precedes(a[i].as_slice(), b[i].as_slice());
        }
        assert(x.subrange(i as int, x.len() as int).drop_first() =~= x.subrange(i + 1, x.len() as int));
        assert(y.subrange(i as int, y.len() as int).drop_first() =~= y.subrange(i + 1, y.len() as int));
        i = i + 1;
    }
    i < b.len()
}

proof fn lemma_identifier_order(a: Seq<u8>, b: Seq<u8>)
    requires
        pre_identifier(a),
        pre_identifier(b),
    ensures
        !(identifier_before(a, b) && identifier_before(b, a)),
        a != b ==> identifier_before(a, b) || identifier_before(b, a),
{
    lemma_bytes_order(a, b);
    if all_digits(a) && all_digits(b) {
        if a.len() < b.len() {
            lemma_longer_is_greater(a, b);
        } else if b.len() < a.len() {
            lemma_longer_is_greater(b, a);
        } else if decimal_value(a) == decimal_value(b) {
            lemma_same_length_order(a, b);
        }
    }
}

proof fn lemma_identifiers_order(a: Seq<Seq<u8>>, b: Seq<Seq<u8>>)
    requires
        pre_identifiers(a),
        pre_identifiers(b),
    ensures
        !(identifiers_before(a, b) && identifiers_before(b, a)),
        a != b ==> identifiers_before(a, b) || identifiers_before(b, a),
    decreases a.len(),
{
    if a.len() > 0 && b.len() > 0 {
        if a[0] == b[0] {
            assert(pre_identifiers(a.drop_first()) && pre_identifiers(b.drop_first()));
            lemma_identifiers_order(a.drop_first(), b.drop_first());
            if a.drop_first() == b.drop_first() {
                assert(a =~= seq![a[0]] + a.drop_first());
                assert(b =~= seq![b[0]] + b.drop_first());
            }
        } else {
            lemma_identifier_order(a[0], b[0]);
        }
    } else if a.len() == 0 && b.len() == 0 {
        assert(a =~= b);
    }
}

/// A version that was read has identifiers as the grammar has them.
pub proof fn lemma_parsed_inv(text: Seq<u8>)
    ensures
        parsed_version(text) matches Some(version) ==> version.inv(),
{
}

/// Of two different versions exactly one is the older.
pub proof fn law_versions_are_ordered(a: VersionView, b: VersionView)
    requires
        a.inv(),
        b.inv(),
    ensures
        !(a.older(b) && b.older(a)),
        a != b ==> a.older(b) || b.older(a),
{
    lemma_identifiers_order(a.pre, b.pre);
    if a.pre.len() == 0 && b.pre.len() == 0 {
        assert(a.pre =~= b.pre);
    }
    if a.major == b.major && a.minor == b.minor && a.patch == b.patch && a.pre == b.pre {
        assert(a =~= b);
    }
}

proof fn lemma_identifiers_transitive(a: Seq<Seq<u8>>, b: Seq<Seq<u8>>, c: Seq<Seq<u8>>)
    requires
        pre_identifiers(a),
        pre_identifiers(b),
        pre_identifiers(c),
        identifiers_before(a, b),
        identifiers_before(b, c),
    ensures
        identifiers_before(a, c),
    decreases a.len(),
{
    if a.len() > 0 {
        if a[0] == b[0] && b[0] == c[0] {
            assert(pre_identifiers(a.drop_first()));
            assert(pre_identifiers(b.drop_first()));
            assert(pre_identifiers(c.drop_first()));
            lemma_identifiers_transitive(a.drop_first(), b.drop_first(), c.drop_first());
        } else if a[0] != b[0] && b[0] != c[0] {
            if !all_digits(a[0]) && !all_digits(b[0]) && !all_digits(c[0]) {
                lemma_bytes_transitive(a[0], b[0], c[0]);
            }
            lemma_identifier_order(a[0], b[0]);
            lemma_identifier_order(a[0], c[0]);
            lemma_identifier_order(b[0], c[0]);
        }
    }
}

/// What is older than an older version is older.
pub proof fn law_older_is_transitive(a: VersionView, b: VersionView, c: VersionView)
    requires
        a.inv(),
        b.inv(),
        c.inv(),
    ensures
        a.older(b) && b.older(c) ==> a.older(c),
{
    if a.older(b) && b.older(c) && identifiers_before(a.pre, b.pre) && identifiers_before(b.pre, c.pre) {
        lemma_identifiers_transitive(a.pre, b.pre, c.pre);
    }
}

/// Versions are ordered by their three numbers, the first that differs deciding,
/// and only where all are equal by what stands behind them: a pre-release comes
/// before its release, and two releases of the same numbers are equally old.
pub proof fn law_numbers_decide_which_version_is_older(a: VersionView, b: VersionView)
    ensures
        a.major < b.major ==> a.older(b) && !b.older(a),
        a.major == b.major && a.minor < b.minor ==> a.older(b) && !b.older(a),
        a.major == b.major && a.minor == b.minor && a.patch < b.patch ==> a.older(b) && !b.older(a),
        a.major == b.major && a.minor == b.minor && a.patch == b.patch ==> {
            &&& a.pre.len() == 0 && b.pre.len() == 0 ==> !a.older(b) && !b.older(a)
            &&& a.pre.len() > 0 && b.pre.len() == 0 ==> a.older(b) && !b.older(a)
        },
{
}

/// Pre-releases of the same numbers are ordered by their first identifier that
/// differs, and a shorter one comes before what continues it.
pub proof fn law_identifiers_decide_between_pre_releases(
    release: VersionView,
    common: Seq<Seq<u8>>,
    a: Seq<u8>,
    b: Seq<u8>,
    behind_a: Seq<Seq<u8>>,
    behind_b: Seq<Seq<u8>>,
)
    ensures
        ({
            let first = VersionView { pre: common.push(a) + behind_a, ..release };
            let second = VersionView { pre: common.push(b) + behind_b, ..release };
            let shorter = VersionView { pre: common, ..release };
            &&& all_digits(a) && all_digits(b) && a != b ==> first.older(second) == (decimal_value(a)
                < decimal_value(b))
            &&& all_digits(a) && !all_digits(b) ==> first.older(second) && !second.older(first)
            &&& !all_digits(a) && !all_digits(b) && a != b ==> first.older(second) == bytes_before(
                a,
                b,
            )
            &&& common.len() > 0 ==> shorter.older(first) && !first.older(shorter)
        }),
{
    lemma_first_different_identifier(common, a, b, behind_a, behind_b);
    lemma_first_different_identifier(common, b, a, behind_b, behind_a);
}

proof fn lemma_first_different_identifier(
    common: Seq<Seq<u8>>,
    a: Seq<u8>,
    b: Seq<u8>,
    behind_a: Seq<Seq<u8>>,
    behind_b: Seq<Seq<u8>>,
)
    ensures
        a != b ==> identifiers_before(common.push(a) + behind_a, common.push(b) + behind_b)
            == identifier_before(a, b),
        identifiers_before(common, common.push(a) + behind_a),
        !identifiers_before(common.push(a) + behind_a, common),
    decreases common.len(),
{
    let x = common.push(a) + behind_a;
    let y = common.push(b) + behind_b;
    if common.len() > 0 {
        lemma_first_different_identifier(common.drop_first(), a, b, behind_a, behind_b);
        assert(x.drop_first() =~= common.drop_first().push(a) + behind_a);
        assert(y.drop_first() =~= common.drop_first().push(b) + behind_b);
    }
}

/// A release is written as its three numbers with points between them, and reads
/// as these numbers.
pub proof fn law_releases_read_as_their_numbers(major: u64, minor: u64, patch: u64)
    ensures
        parsed_version(
            (decimal_digits(major as nat).push(46) + decimal_digits(minor as nat)).push(46)
                + decimal_digits(patch as nat),
        ) == Some(
            VersionView {
                major: major as int,
                minor: minor as int,
                patch: patch as int,
                pre: Seq::empty(),
            },
        ),
{
    let a = decimal_digits(major as nat);
    let b = decimal_digits(minor as nat);
    let c = decimal_digits(patch as nat);
    lemma_decimal_digits_shape(major as nat);
    lemma_decimal_digits_shape(minor as nat);
    lemma_decimal_digits_shape(patch as nat);
    let text = (a.push(46) + b).push(46) + c;
    assert forall|i: int| 0 <= i < text.len() implies text[i] != 43 && text[i] != 45 by {
        if i < a.len() {
            assert(text[i] == a[i]);
        } else if i > a.len() && i < a.len() + 1 + b.len() {
            assert(text[i] == b[i - a.len() - 1]);
        } else if i > a.len() + 1 + b.len() {
            assert(text[i] == c[i - a.len() - b.len() - 2]);
        }
    }
    lemma_first_index(text, 43, text.len() as int);
    assert(text.subrange(0, text.len() as int) =~= text);
    lemma_first_index(text, 45, text.len() as int);
    assert(!a.contains(46)) by {
        assert forall|i: int| 0 <= i < a.len() implies a[i] != 46 by {
            assert(is_digit(a[i]));
        }
    }
    assert(!b.contains(46)) by {
        assert forall|i: int| 0 <= i < b.len() implies b[i] != 46 by {
            assert(is_digit(b[i]));
        }
    }
    assert(!c.contains(46)) by {
        assert forall|i: int| 0 <= i < c.len() implies c[i] != 46 by {
            assert(is_digit(c[i]));
        }
    }
    law_pieces_lie_between_separators(Seq::empty(), a, 46);
    law_pieces_lie_between_separators(a, b, 46);
    law_pieces_lie_between_separators(a.push(46) + b, c, 46);
    assert(split_on(text, 46) =~= seq![a, b, c]);
    assert(parsed_version(text)->0 =~= (VersionView {
        major: major as int,
        minor: minor as int,
        patch: patch as int,
        pre: Seq::empty(),
    }));
}

} // verus!
