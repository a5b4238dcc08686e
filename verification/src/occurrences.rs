//! Counting the places at which a tag stands in a text.

use vstd::prelude::*;

verus! {

/// Whether `tag` stands in `text` at position `at`.
pub open spec fn stands_at(text: Seq<char>, tag: Seq<char>, at: int) -> bool {
    &&& 0 <= at
    &&& at + tag.len() <= text.len()
    &&& text.subrange(at, at + tag.len()) == tag
}

/// Number of positions before `upto` at which `tag` stands in `text`.
pub open spec fn count_before(text: Seq<char>, tag: Seq<char>, upto: int) -> nat
    decreases upto,
{
    if upto <= 0 {
        0
    } else {
        count_before(text, tag, upto - 1) + if stands_at(text, tag, upto - 1) {
            1nat
        } else {
            0nat
        }
    }
}

/// Number of positions at which `tag` stands in `text`.
pub open spec fn occurrences(text: Seq<char>, tag: Seq<char>) -> nat {
    count_before(text, tag, text.len() as int)
}

/// Whether a text is a piece of markup with one `<`, at its start.
pub open spec fn one_bracket(markup: Seq<char>) -> bool {
    &&& markup.len() > 0
    &&& markup[0] == '<'
    &&& forall|j: int| 1 <= j < markup.len() ==> markup[j] != '<'
}

/// Whether no `tag` begins in `a` and ends in `b`, where the two stand one
/// behind the other.
pub open spec fn no_straddle(a: Seq<char>, b: Seq<char>, tag: Seq<char>) -> bool {
    forall|at: int| a.len() - tag.len() < at < a.len() ==> !stands_at(a + b, tag, at)
}

/// Before the end of `a`, a tag stands in `a + b` where it stands in `a`,
/// if none straddles the two.
proof fn lemma_count_left(a: Seq<char>, b: Seq<char>, tag: Seq<char>, upto: int)
    requires
        no_straddle(a, b, tag),
        upto <= a.len(),
    ensures
        count_before(a + b, tag, upto) == count_before(a, tag, upto),
    decreases upto,
{
    if upto > 0 {
        lemma_count_left(a, b, tag, upto - 1);
        let at = upto - 1;
        if at + tag.len() <= a.len() {
            assert((a + b).subrange(at, at + tag.len()) =~= a.subrange(at, at + tag.len()));
        }
    }
}

/// From the end of `a` on, a tag stands in `a + b` where it stands in `b`.
proof fn lemma_count_right(a: Seq<char>, b: Seq<char>, tag: Seq<char>, upto: int)
    requires
        0 <= upto <= b.len(),
    ensures
        count_before(a + b, tag, a.len() + upto) == count_before(a + b, tag, a.len() as int)
            + count_before(b, tag, upto),
    decreases upto,
{
    if upto > 0 {
        lemma_count_right(a, b, tag, upto - 1);
        let at = upto - 1;
        if at + tag.len() <= b.len() {
            assert((a + b).subrange(a.len() + at, a.len() + at + tag.len()) =~= b.subrange(
                at,
                at + tag.len(),
            ));
        }
    }
}

/// The tags in two texts, one behind the other, are those in the first and
/// those in the second, if none straddles the two.
pub proof fn lemma_count_joined(a: Seq<char>, b: Seq<char>, tag: Seq<char>)
    requires
        no_straddle(a, b, tag),
    ensures
        occurrences(a + b, tag) == occurrences(a, tag) + occurrences(b, tag),
{
    lemma_count_left(a, b, tag, a.len() as int);
    lemma_count_right(a, b, tag, b.len() as int);
}

/// No tag of one bracket straddles two texts of which the second is empty
/// or begins with `<`.
pub proof fn lemma_bracket_ends_straddle(a: Seq<char>, b: Seq<char>, tag: Seq<char>)
    requires
        one_bracket(tag),
        b.len() > 0 ==> b[0] == '<',
    ensures
        no_straddle(a, b, tag),
{
    assert forall|at: int| a.len() - tag.len() < at < a.len() implies !stands_at(a + b, tag, at) by {
        if stands_at(a + b, tag, at) {
            let j = a.len() - at;
            assert((a + b).subrange(at, at + tag.len())[j] == tag[j]);
            assert((a + b)[a.len() as int] == b[0]);
        }
    }
}

/// No tag of one bracket straddles two texts of which the first ends with
/// as many characters other than `<` as the tag has behind its bracket.
pub proof fn lemma_tail_ends_straddle(a: Seq<char>, b: Seq<char>, tag: Seq<char>)
    requires
        one_bracket(tag),
        forall|at: int| 0 <= at && a.len() - tag.len() < at < a.len() ==> a[at] != '<',
    ensures
        no_straddle(a, b, tag),
{
    assert forall|at: int| a.len() - tag.len() < at < a.len() implies !stands_at(a + b, tag, at) by {
        if stands_at(a + b, tag, at) {
            assert((a + b).subrange(at, at + tag.len())[0] == tag[0]);
            assert((a + b)[at] == a[at]);
        }
    }
}

/// In a piece of markup with one bracket, a tag of one bracket stands at
/// the start or nowhere.
proof fn lemma_count_in_markup_before(markup: Seq<char>, tag: Seq<char>, upto: int)
    requires
        one_bracket(markup),
        one_bracket(tag),
        1 <= upto <= markup.len(),
    ensures
        count_before(markup, tag, upto) == if stands_at(markup, tag, 0) {
            1nat
        } else {
            0nat
        },
    decreases upto,
{
    if upto > 1 {
        lemma_count_in_markup_before(markup, tag, upto - 1);
        let at = upto - 1;
        if stands_at(markup, tag, at) {
            assert(markup.subrange(at, at + tag.len())[0] == tag[0]);
        }
    } else {
        assert(count_before(markup, tag, 0) == 0);
    }
}

/// In a piece of markup with one bracket, a tag of one bracket stands at
/// the start or nowhere.
pub proof fn lemma_count_in_markup(markup: Seq<char>, tag: Seq<char>)
    requires
        one_bracket(markup),
        one_bracket(tag),
    ensures
        occurrences(markup, tag) == if stands_at(markup, tag, 0) {
            1nat
        } else {
            0nat
        },
{
    lemma_count_in_markup_before(markup, tag, markup.len() as int);
}

/// What stands in a text stands in it still, as far behind as the text
/// is moved, when other texts are put before and behind it.
pub proof fn lemma_stands_inside(
    before: Seq<char>,
    text: Seq<char>,
    behind: Seq<char>,
    tag: Seq<char>,
    at: int,
)
    requires
        stands_at(text, tag, at),
    ensures
        stands_at(before + text + behind, tag, before.len() + at),
{
    assert((before + text + behind).subrange(before.len() + at, before.len() + at + tag.len())
        =~= text.subrange(at, at + tag.len()));
}

} // verus!
