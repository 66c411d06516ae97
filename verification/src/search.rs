//! First and last matches in a sequence, and what appending does to a filter.
use vstd::prelude::*;

verus! {

/// The first place that holds what is asked for.
pub open spec fn first_match<A>(s: Seq<A>, asked: spec_fn(A) -> bool) -> Option<int>
    decreases s.len(),
{
    if s.len() == 0 {
        None
    } else {
        match first_match(s.drop_last(), asked) {
            Some(i) => Some(i),
            None => if asked(s.last()) {
                Some(s.len() - 1)
            } else {
                None
            },
        }
    }
}

/// The last place that holds what is asked for.
pub open spec fn last_match<A>(s: Seq<A>, asked: spec_fn(A) -> bool) -> Option<int>
    decreases s.len(),
{
    if s.len() == 0 {
        None
    } else if asked(s.last()) {
        Some(s.len() - 1)
    } else {
        last_match(s.drop_last(), asked)
    }
}

/// A place found by running code, as contracts see it.
pub open spec fn place(found: Option<usize>) -> Option<int> {
    match found {
        Some(i) => Some(i as int),
        None => None,
    }
}

/// The first match matches, and nothing before it does; without one nothing matches.
pub proof fn lemma_first_match<A>(s: Seq<A>, asked: spec_fn(A) -> bool)
    ensures
        match first_match(s, asked) {
            Some(i) => 0 <= i < s.len() && asked(s[i]) && forall|j: int|
                0 <= j < i ==> !asked(#[trigger] s[j]),
            None => forall|j: int| 0 <= j < s.len() ==> !asked(#[trigger] s[j]),
        },
    decreases s.len(),
{
    if s.len() > 0 {
        lemma_first_match(s.drop_last(), asked);
        let shorter = s.drop_last();
        assert forall|j: int| 0 <= j < shorter.len() implies shorter[j] == s[j] by {}
        match first_match(shorter, asked) {
            Some(i) => {
                assert(shorter[i] == s[i]);
                assert forall|j: int| 0 <= j < i implies !asked(#[trigger] s[j]) by {
                    assert(!asked(shorter[j]));
                }
            },
            None => {
                assert forall|j: int| 0 <= j < s.len() - 1 implies !asked(#[trigger] s[j]) by {
                    assert(!asked(shorter[j]));
                }
            },
        }
    }
}

/// A match with none before it is the first one.
pub proof fn lemma_is_first<A>(s: Seq<A>, asked: spec_fn(A) -> bool, i: int)
    requires
        0 <= i < s.len(),
        asked(s[i]),
        forall|j: int| 0 <= j < i ==> !asked(#[trigger] s[j]),
    ensures
        first_match(s, asked) == Some(i),
{
    lemma_first_match(s, asked);
}

/// Where nothing matches there is no first match.
pub proof fn lemma_no_first<A>(s: Seq<A>, asked: spec_fn(A) -> bool)
    requires
        forall|j: int| 0 <= j < s.len() ==> !asked(#[trigger] s[j]),
    ensures
        first_match(s, asked) == None::<int>,
{
    lemma_first_match(s, asked);
}

/// The last match matches, and nothing after it does; without one nothing matches.
pub proof fn lemma_last_match<A>(s: Seq<A>, asked: spec_fn(A) -> bool)
    ensures
        match last_match(s, asked) {
            Some(i) => 0 <= i < s.len() && asked(s[i]) && forall|j: int|
                i < j < s.len() ==> !asked(#[trigger] s[j]),
            None => forall|j: int| 0 <= j < s.len() ==> !asked(#[trigger] s[j]),
        },
    decreases s.len(),
{
    if s.len() > 0 && !asked(s.last()) {
        let shorter = s.drop_last();
        lemma_last_match(shorter, asked);
        match last_match(shorter, asked) {
            Some(i) => {
                assert(shorter[i] == s[i]);
                assert forall|j: int| i < j < s.len() implies !asked(#[trigger] s[j]) by {
                    if j < s.len() - 1 {
                        assert(!asked(shorter[j]));
                    }
                }
            },
            None => {
                assert forall|j: int| 0 <= j < s.len() implies !asked(#[trigger] s[j]) by {
                    if j < s.len() - 1 {
                        assert(!asked(shorter[j]));
                    }
                }
            },
        }
    }
}

/// A match with none after it is the last one.
pub proof fn lemma_is_last<A>(s: Seq<A>, asked: spec_fn(A) -> bool, i: int)
    requires
        0 <= i < s.len(),
        asked(s[i]),
        forall|j: int| i < j < s.len() ==> !asked(#[trigger] s[j]),
    ensures
        last_match(s, asked) == Some(i),
{
    lemma_last_match(s, asked);
}

/// An element appended decides by itself whether it stays.
pub proof fn lemma_filter_of_push<A>(s: Seq<A>, x: A, keep: spec_fn(A) -> bool)
    ensures
        s.push(x).filter(keep) == if keep(x) {
            s.filter(keep).push(x)
        } else {
            s.filter(keep)
        },
{
    reveal(Seq::filter);
    assert(s.push(x).drop_last() =~= s);
    assert(s.push(x).last() == x);
}

/// The next element decides by itself whether it stays.
pub proof fn lemma_filter_step<A>(s: Seq<A>, i: int, keep: spec_fn(A) -> bool)
    requires
        0 <= i < s.len(),
    ensures
        s.take(i + 1).filter(keep) == if keep(s[i]) {
            s.take(i).filter(keep).push(s[i])
        } else {
            s.take(i).filter(keep)
        },
{
    assert(s.take(i + 1) =~= s.take(i).push(s[i]));
    lemma_filter_of_push(s.take(i), s[i], keep);
}

/// What is kept of a sequence is no longer than the sequence.
pub proof fn lemma_filter_len<A>(s: Seq<A>, keep: spec_fn(A) -> bool)
    ensures
        s.filter(keep).len() <= s.len(),
    decreases s.len(),
{
    reveal(Seq::filter);
    if s.len() > 0 {
        lemma_filter_len(s.drop_last(), keep);
    }
}

/// Only what is asked for is kept.
pub proof fn lemma_filter_kept<A>(s: Seq<A>, keep: spec_fn(A) -> bool)
    ensures
        forall|i: int|
            0 <= i < s.filter(keep).len() ==> keep(#[trigger] s.filter(keep)[i]) && s.contains(
                s.filter(keep)[i],
            ),
    decreases s.len(),
{
    reveal(Seq::filter);
    if s.len() > 0 {
        let shorter = s.drop_last();
        lemma_filter_kept(shorter, keep);
        assert forall|i: int| 0 <= i < s.filter(keep).len() implies keep(
            #[trigger] s.filter(keep)[i],
        ) && s.contains(s.filter(keep)[i]) by {
            if i < shorter.filter(keep).len() {
                assert(shorter.contains(shorter.filter(keep)[i]));
                let k = choose|k: int| 0 <= k < shorter.len() && shorter[k] == shorter.filter(
                    keep,
                )[i];
                assert(s[k] == s.filter(keep)[i]);
            } else {
                assert(s[s.len() - 1] == s.filter(keep)[i]);
            }
        }
    }
}

/// Where nothing is asked for, nothing is kept.
pub proof fn lemma_filter_none<A>(s: Seq<A>, keep: spec_fn(A) -> bool)
    requires
        forall|i: int| 0 <= i < s.len() ==> !keep(#[trigger] s[i]),
    ensures
        s.filter(keep).len() == 0,
{
    lemma_filter_kept(s, keep);
    if s.filter(keep).len() > 0 {
        assert(keep(s.filter(keep)[0]));
        assert(s.contains(s.filter(keep)[0]));
    }
}

/// A filter keeps something where something passes it.
pub proof fn lemma_filter_has<A>(s: Seq<A>, keep: spec_fn(A) -> bool, i: int)
    requires
        0 <= i < s.len(),
        keep(s[i]),
    ensures
        s.filter(keep).len() > 0,
    decreases s.len(),
{
    let shorter = s.drop_last();
    assert(s =~= shorter.push(s.last()));
    lemma_filter_of_push(shorter, s.last(), keep);
    if i < shorter.len() {
        assert(shorter[i] == s[i]);
        lemma_filter_has(shorter, keep, i);
    }
}

} // verus!
