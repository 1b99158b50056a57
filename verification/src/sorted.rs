//! Sorted lists.

use vstd::prelude::*;
use vstd::string::*;
use vstd::utf8::*;

use crate::text::{bytes_before, bytes_precede, lemma_bytes_order, lemma_bytes_transitive, text_equal};

verus! {

/// Where an item belongs: early items come first, and among them and among the
/// others the lower position.
#[derive(Clone, Copy, Debug, PartialEq, Eq, Structural)]
pub struct Rank {
    /// Whether the item comes behind all that are not late.
    pub late: bool,
    /// Position among its kind.
    pub position: usize,
}

impl Rank {
    /// Whether this rank comes before another.
    pub open spec fn before(self, other: Self) -> bool {
        (!self.late && other.late) || (self.late == other.late && self.position < other.position)
    }

    fn precedes(self, other: Rank) -> (before: bool)
        ensures
            before == self.before(other),
    {
        (!self.late && other.late) || (self.late == other.late && self.position < other.position)
    }
}

/// Whether one item comes before another in a stable order: by rank, and by its
/// place in the list where the ranks agree.
pub open spec fn comes_before(ranks: Seq<Rank>, a: int, b: int) -> bool {
    ranks[a].before(ranks[b]) || (ranks[a] == ranks[b] && a < b)
}

/// Whether `order` lists the places of `ranks`, each once, in stable order.
pub open spec fn stable_order(ranks: Seq<Rank>, order: Seq<usize>) -> bool {
    &&& order.len() == ranks.len()
    &&& forall|i: int| 0 <= i < order.len() ==> #[trigger] order[i] < ranks.len()
    &&& forall|i: int, j: int|
        0 <= i < j < order.len() ==> comes_before(ranks, #[trigger] order[i] as int, #[trigger] order[j] as int)
}

/// Places of a list in stable order of their ranks.
pub fn order_by_rank(ranks: &Vec<Rank>) -> (order: Vec<usize>)
    ensures
        stable_order(ranks@, order@),
{
    let mut order: Vec<usize> = Vec::new();
    let mut next: usize = 0;
    while next < ranks.len()
        invariant
            0 <= next <= ranks@.len(),
            order@.len() == next,
            forall|i: int| 0 <= i < order@.len() ==> #[trigger] order@[i] < next,
            forall|i: int, j: int|
                0 <= i < j < order@.len() ==> comes_before(
                    ranks@,
                    #[trigger] order@[i] as int,
                    #[trigger] order@[j] as int,
                ),
        decreases ranks@.len() - next,
    {
        let ghost before = order@;
        let mut at: usize = order.len();
        while at > 0 && ranks[next].precedes(ranks[order[at - 1]])
            invariant
                0 <= at <= order@.len(),
                next < ranks@.len(),
                order@ == before,
                forall|i: int| 0 <= i < order@.len() ==> #[trigger] order@[i] < next,
                forall|i: int|
                    at <= i < order@.len() ==> comes_before(
                        ranks@,
                        next as int,
                        #[trigger] order@[i] as int,
                    ),
            decreases at,
        {
            at = at - 1;
        }
        order.insert(at, next);
        assert forall|i: int, j: int| 0 <= i < j < order@.len() implies comes_before(
            ranks@,
            #[trigger] order@[i] as int,
            #[trigger] order@[j] as int,
        ) by {
            if j < at {
                assert(comes_before(ranks@, before[i] as int, before[j] as int));
            } else if j == at {
                assert(order@[i] == before[i]);
                let last = before[at - 1] as int;
                assert(!ranks@[next as int].before(ranks@[last]));
                if i < at - 1 {
                    assert(comes_before(ranks@, before[i] as int, last));
                }
            } else if i == at {
                assert(comes_before(ranks@, next as int, before[j - 1] as int));
            } else if i < at {
                assert(comes_before(ranks@, before[i] as int, before[j - 1] as int));
            } else {
                assert(comes_before(ranks@, before[i - 1] as int, before[j - 1] as int));
            }
        }
        next = next + 1;
    }
    order
}

/// Whether texts are in strictly increasing order of their bytes.
pub open spec fn increasing(texts: Seq<String>) -> bool {
    forall|i: int, j: int|
        0 <= i < j < texts.len() ==> bytes_before(
            encode_utf8((#[trigger] texts[i])@),
            encode_utf8((#[trigger] texts[j])@),
        )
}

/// Whether a text is in the list.
pub open spec fn listed(texts: Seq<String>, text: Seq<char>) -> bool {
    exists|i: int| 0 <= i < texts.len() && (#[trigger] texts[i])@ == text
}

/// Puts a text into its place, unless it is there already.
pub fn insert_sorted(texts: &mut Vec<String>, text: String)
    requires
        increasing(old(texts)@),
    ensures
        increasing(final(texts)@),
        forall|t: Seq<char>| #[trigger] listed(final(texts)@, t) <==> listed(old(texts)@, t) || t == text@,
        final(texts)@.len() <= old(texts)@.len() + 1,
{
    let ghost before = texts@;
    let ghost new = encode_utf8(text@);
    let mut at: usize = texts.len();
    while at > 0 && bytes_precede(text.as_str().as_bytes(), texts[at - 1].as_str().as_bytes())
        invariant
            0 <= at <= texts@.len(),
            texts@ == before,
            increasing(before),
            new == encode_utf8(text@),
            forall|i: int| at <= i < before.len() ==> bytes_before(new, encode_utf8((#[trigger] before[i])@)),
        decreases at,
    {
        at = at - 1;
    }
    if at > 0 && text_equal(texts[at - 1].as_str(), text.as_str()) {
        assert(listed(before, text@)) by {
            assert(before[at - 1]@ == text@);
        }
        return;
    }
    proof {
        if at > 0 {
            let last = encode_utf8(before[at - 1]@);
            if last == new {
                encode_utf8_decode_utf8(before[at - 1]@);
                encode_utf8_decode_utf8(text@);
            }
            lemma_bytes_order(new, last);
            assert forall|i: int| 0 <= i < at implies bytes_before(
                encode_utf8((#[trigger] before[i])@),
                new,
            ) by {
                if i < at - 1 {
                    lemma_bytes_transitive(encode_utf8(before[i]@), last, new);
                }
            }
        }
    }
    texts.insert(at, text);
    proof {
        let after = texts@;
        assert forall|i: int, j: int| 0 <= i < j < after.len() implies bytes_before(
            encode_utf8((#[trigger] after[i])@),
            encode_utf8((#[trigger] after[j])@),
        ) by {
            if j < at {
                assert(after[i] == before[i] && after[j] == before[j]);
            } else if j == at {
                assert(after[i] == before[i]);
            } else if i == at {
                assert(after[j] == before[j - 1]);
            } else if i < at {
                assert(after[i] == before[i] && after[j] == before[j - 1]);
            } else {
                assert(after[i] == before[i - 1] && after[j] == before[j - 1]);
            }
        }
        assert forall|t: Seq<char>| #[trigger] listed(after, t) <==> listed(before, t) || t == text@ by {
            if listed(after, t) {
                let i = choose|i: int| 0 <= i < after.len() && (#[trigger] after[i])@ == t;
                if i < at {
                    assert(before[i]@ == t);
                } else if i > at {
                    assert(before[i - 1]@ == t);
                }
            }
            if listed(before, t) {
                let i = choose|i: int| 0 <= i < before.len() && (#[trigger] before[i])@ == t;
                if i < at {
                    assert(after[i]@ == t);
                } else {
                    assert(after[i + 1]@ == t);
                }
            }
            if t == text@ {
                assert(after[at as int]@ == t);
            }
        }
    }
}

/// Texts as values.
pub open spec fn texts_of(texts: Seq<String>) -> Seq<Seq<char>> {
    Seq::new(texts.len(), |i: int| texts[i]@)
}

/// Whether one text comes before another, by its bytes.
pub open spec fn text_earlier(a: Seq<char>, b: Seq<char>) -> bool {
    bytes_before(encode_utf8(a), encode_utf8(b))
}

/// A sorted list with one more text, unless that is there already.
pub open spec fn with_text(sorted: Seq<Seq<char>>, text: Seq<char>) -> Seq<Seq<char>>
    decreases sorted.len(),
{
    if sorted.len() == 0 {
        seq![text]
    } else if sorted.last() == text {
        sorted
    } else if text_earlier(text, sorted.last()) {
        with_text(sorted.drop_last(), text).push(sorted.last())
    } else {
        sorted.push(text)
    }
}

/// Texts in increasing order of their bytes, each once.
pub open spec fn sorted_texts(texts: Seq<Seq<char>>) -> Seq<Seq<char>>
    decreases texts.len(),
{
    if texts.len() == 0 {
        Seq::empty()
    } else {
        with_text(sorted_texts(texts.drop_last()), texts.last())
    }
}

/// The first items of a list, so many at most.
pub open spec fn first_items<T>(items: Seq<T>, most: nat) -> Seq<T> {
    if items.len() > most {
        items.subrange(0, most as int)
    } else {
        items
    }
}

proof fn lemma_with_text_at(sorted: Seq<Seq<char>>, text: Seq<char>, at: int)
    requires
        0 <= at <= sorted.len(),
        forall|i: int| at <= i < sorted.len() ==> text_earlier(text, #[trigger] sorted[i]) && sorted[i] != text,
        at > 0 ==> !text_earlier(text, sorted[at - 1]),
    ensures
        at > 0 && sorted[at - 1] == text ==> with_text(sorted, text) == sorted,
        !(at > 0 && sorted[at - 1] == text) ==> with_text(sorted, text) == sorted.insert(at, text),
    decreases sorted.len(),
{
    if at == sorted.len() {
        if sorted.len() == 0 {
            assert(sorted.insert(0, text) =~= seq![text]);
        } else {
            assert(sorted.insert(at, text) =~= sorted.push(text));
        }
    } else {
        let front = sorted.drop_last();
        assert(text_earlier(text, sorted[sorted.len() - 1]));
        lemma_with_text_at(front, text, at);
        if at > 0 && sorted[at - 1] == text {
            assert(front.push(sorted.last()) =~= sorted);
        } else {
            assert(front.insert(at, text).push(sorted.last()) =~= sorted.insert(at, text));
        }
    }
}

/// Puts a text into its place, unless it is there already.
pub fn add_text(texts: &mut Vec<String>, text: String)
    ensures
        texts_of(final(texts)@) == with_text(texts_of(old(texts)@), text@),
{
    let ghost before = texts@;
    let ghost views = texts_of(before);
    let mut at: usize = texts.len();
    while at > 0 && bytes_precede(text.as_str().as_bytes(), texts[at - 1].as_str().as_bytes())
        invariant
            0 <= at <= texts@.len(),
            texts@ == before,
            views == texts_of(before),
            forall|i: int|
                at <= i < views.len() ==> text_earlier(text@, #[trigger] views[i]) && views[i] != text@,
        decreases at,
    {
        proof {
            lemma_bytes_order(encode_utf8(text@), encode_utf8(text@));
            assert(views[at - 1] == before[at - 1]@);
        }
        at = at - 1;
    }
    proof {
        if at > 0 {
            assert(views[at - 1] == before[at - 1]@);
        }
        lemma_with_text_at(views, text@, at as int);
    }
    if at > 0 && text_equal(texts[at - 1].as_str(), text.as_str()) {
        return;
    }
    texts.insert(at, text);
    assert(texts_of(texts@) =~= views.insert(at as int, text@));
}

/// Sorts texts by their bytes, drops repeated ones and keeps the first few.
pub fn sort_texts(texts: Vec<String>, most: usize) -> (sorted: Vec<String>)
    ensures
        texts_of(sorted@) == first_items(sorted_texts(texts_of(texts@)), most as nat),
{
    let mut sorted: Vec<String> = Vec::new();
    let ghost all = texts_of(texts@);
    let mut i: usize = 0;
    assert(texts_of(sorted@) =~= sorted_texts(all.subrange(0, 0)));
    while i < texts.len()
        invariant
            0 <= i <= texts@.len(),
            all == texts_of(texts@),
            texts_of(sorted@) == sorted_texts(all.subrange(0, i as int)),
        decreases texts@.len() - i,
    {
        assert(all.subrange(0, i + 1).drop_last() =~= all.subrange(0, i as int));
        assert(all.subrange(0, i + 1).last() == texts@[i as int]@);
        add_text(&mut sorted, texts[i].as_str().to_owned());
        i = i + 1;
    }
    assert(all.subrange(0, i as int) =~= all);
    if sorted.len() > most {
        let ghost before = sorted@;
        sorted.truncate(most);
        assert(texts_of(sorted@) =~= texts_of(before).subrange(0, most as int));
    }
    sorted
}

/// Whether texts are in strictly increasing order of their bytes.
pub open spec fn strictly_sorted(texts: Seq<Seq<char>>) -> bool {
    forall|i: int, j: int| 0 <= i < j < texts.len() ==> text_earlier(#[trigger] texts[i], #[trigger] texts[j])
}

proof fn lemma_with_text(sorted: Seq<Seq<char>>, text: Seq<char>)
    requires
        strictly_sorted(sorted),
    ensures
        strictly_sorted(with_text(sorted, text)),
        forall|t: Seq<char>| #[trigger] with_text(sorted, text).contains(t) <==> sorted.contains(t) || t == text,
    decreases sorted.len(),
{
    let after = with_text(sorted, text);
    if sorted.len() == 0 {
        assert(after[0] == text);
    } else if sorted.last() == text {
        assert(sorted[sorted.len() - 1] == text);
    } else if text_earlier(text, sorted.last()) {
        let front = sorted.drop_last();
        let inner = with_text(front, text);
        lemma_with_text(front, text);
        assert forall|i: int, j: int| 0 <= i < j < after.len() implies text_earlier(
            #[trigger] after[i],
            #[trigger] after[j],
        ) by {
            if j == after.len() - 1 {
                assert(inner.contains(inner[i]));
                if inner[i] != text {
                    assert(front.contains(inner[i]));
                    let k = choose|k: int| 0 <= k < front.len() && front[k] == inner[i];
                    assert(text_earlier(sorted[k], sorted[sorted.len() - 1]));
                }
            } else {
                assert(text_earlier(inner[i], inner[j]));
            }
        }
        assert forall|t: Seq<char>| #[trigger] after.contains(t) <==> sorted.contains(t) || t == text by {
            if after.contains(t) {
                let k = choose|k: int| 0 <= k < after.len() && after[k] == t;
                if k < inner.len() {
                    assert(inner.contains(inner[k]));
                    if front.contains(t) {
                        let m = choose|m: int| 0 <= m < front.len() && front[m] == t;
                        assert(sorted[m] == t);
                    }
                } else {
                    assert(sorted[sorted.len() - 1] == t);
                }
            }
            if sorted.contains(t) {
                let m = choose|m: int| 0 <= m < sorted.len() && sorted[m] == t;
                if m < front.len() {
                    assert(front[m] == t);
                    assert(inner.contains(t));
                    let k = choose|k: int| 0 <= k < inner.len() && inner[k] == t;
                    assert(after[k] == t);
                } else {
                    assert(after[after.len() - 1] == t);
                }
            }
            if t == text {
                assert(inner.contains(t));
                let k = choose|k: int| 0 <= k < inner.len() && inner[k] == t;
                assert(after[k] == t);
            }
        }
    } else {
        lemma_bytes_order(encode_utf8(text), encode_utf8(sorted.last()));
        if encode_utf8(text) == encode_utf8(sorted.last()) {
            encode_utf8_decode_utf8(text);
            encode_utf8_decode_utf8(sorted.last());
        }
        assert forall|i: int, j: int| 0 <= i < j < after.len() implies text_earlier(
            #[trigger] after[i],
            #[trigger] after[j],
        ) by {
            if j == after.len() - 1 && i < sorted.len() - 1 {
                assert(text_earlier(sorted[i], sorted[sorted.len() - 1]));
                lemma_bytes_transitive(
                    encode_utf8(sorted[i]),
                    encode_utf8(sorted.last()),
                    encode_utf8(text),
                );
            }
        }
        assert forall|t: Seq<char>| #[trigger] after.contains(t) <==> sorted.contains(t) || t == text by {
            if sorted.contains(t) {
                let m = choose|m: int| 0 <= m < sorted.len() && sorted[m] == t;
                assert(after[m] == t);
            }
            if t == text {
                assert(after[after.len() - 1] == t);
            }
        }
    }
}

/// Sorting loses and invents no text, and leaves none out of place or twice.
pub proof fn law_sorting_is_exact(texts: Seq<Seq<char>>)
    ensures
        strictly_sorted(sorted_texts(texts)),
        forall|t: Seq<char>| #[trigger] sorted_texts(texts).contains(t) <==> texts.contains(t),
    decreases texts.len(),
{
    if texts.len() > 0 {
        let front = texts.drop_last();
        law_sorting_is_exact(front);
        lemma_with_text(sorted_texts(front), texts.last());
        assert forall|t: Seq<char>| #[trigger] sorted_texts(texts).contains(t) <==> texts.contains(t) by {
            if texts.contains(t) {
                let k = choose|k: int| 0 <= k < texts.len() && texts[k] == t;
                if k < front.len() {
                    assert(front[k] == t);
                    assert(front.contains(t));
                    assert(sorted_texts(front).contains(t));
                }
            }
            if front.contains(t) {
                let k = choose|k: int| 0 <= k < front.len() && front[k] == t;
                assert(texts[k] == t);
            }
            if t == texts.last() {
                assert(texts[texts.len() - 1] == t);
            }
            if sorted_texts(texts).contains(t) && t != texts.last() {
                assert(sorted_texts(front).contains(t));
            }
        }
    }
}

/// A list that is cut keeps its beginning, and all of it where that is not too
/// long.
pub proof fn law_cut_lists_keep_their_beginning<T>(items: Seq<T>, most: nat)
    ensures
        first_items(items, most).len() == if items.len() < most {
            items.len()
        } else {
            most
        },
        forall|i: int|
            0 <= i < first_items(items, most).len() ==> #[trigger] first_items(items, most)[i]
                == items[i],
{
}

/// A stable order has every place once; what is not late comes before what is,
/// lower positions come first among their kind, and equals keep their places.
pub proof fn law_stable_orders_follow_the_ranks(ranks: Seq<Rank>, order: Seq<usize>, i: int, j: int)
    requires
        stable_order(ranks, order),
        0 <= i < j < order.len(),
    ensures
        order.len() == ranks.len(),
        order[i] != order[j],
        ({
            let first = ranks[order[i] as int];
            let second = ranks[order[j] as int];
            &&& first.late ==> second.late
            &&& first.late == second.late ==> first.position <= second.position
            &&& first == second ==> order[i] < order[j]
        }),
{
    assert(comes_before(ranks, order[i] as int, order[j] as int));
}

} // verus!
