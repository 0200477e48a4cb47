//! Finding the first entry with a given text.
use vstd::prelude::*;

verus! {

/// The index of the first entry of `texts`, at or behind `start`, that equals
/// `wanted`.
pub open spec fn first_match_from(texts: Seq<Seq<char>>, wanted: Seq<char>, start: int) -> Option<
    int,
>
    decreases texts.len() - start,
{
    if start < 0 || start >= texts.len() {
        None
    } else if texts[start] == wanted {
        Some(start)
    } else {
        first_match_from(texts, wanted, start + 1)
    }
}

/// The index of the first entry of `texts` that equals `wanted`.
pub open spec fn first_match(texts: Seq<Seq<char>>, wanted: Seq<char>) -> Option<int> {
    first_match_from(texts, wanted, 0)
}

/// What is found is the first match; nothing is found only where nothing
/// matches.
pub proof fn lemma_first_match_from(texts: Seq<Seq<char>>, wanted: Seq<char>, start: int)
    requires
        0 <= start,
    ensures
        match first_match_from(texts, wanted, start) {
            Some(i) => start <= i < texts.len() && texts[i] == wanted && forall|j: int|
                start <= j < i ==> texts[j] != wanted,
            None => forall|j: int| start <= j < texts.len() ==> texts[j] != wanted,
        },
    decreases texts.len() - start,
{
    if start < texts.len() && texts[start] != wanted {
        lemma_first_match_from(texts, wanted, start + 1);
    }
}

/// An entry that matches, with none before it that does, is what is found.
pub proof fn lemma_first_match_is(texts: Seq<Seq<char>>, wanted: Seq<char>, start: int, i: int)
    requires
        0 <= start <= i < texts.len(),
        texts[i] == wanted,
        forall|j: int| start <= j < i ==> texts[j] != wanted,
    ensures
        first_match_from(texts, wanted, start) == Some(i),
    decreases i - start,
{
    if start < i {
        lemma_first_match_is(texts, wanted, start + 1, i);
    }
}

/// Where nothing matches, nothing is found.
pub proof fn lemma_first_match_none(texts: Seq<Seq<char>>, wanted: Seq<char>, start: int)
    requires
        0 <= start,
        forall|j: int| start <= j < texts.len() ==> texts[j] != wanted,
    ensures
        first_match_from(texts, wanted, start) is None,
    decreases texts.len() - start,
{
    if start < texts.len() {
        lemma_first_match_none(texts, wanted, start + 1);
    }
}

} // verus!
