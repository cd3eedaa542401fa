//! The canonical order on account identifiers.
//!
//! Whenever an operation has to hold two accounts at once, it takes them in
//! this order, whichever of the two is the sender.

use vstd::prelude::*;
use vstd::string::StrSliceExecFns;

verus! {

/// How two identifiers stand to each other in the canonical order.
#[derive(Clone, Copy, Debug, PartialEq, Eq, Structural)]
pub enum Rank {
    Before,
    Same,
    After,
}

/// The code point of a character.
pub open spec fn code(c: char) -> int {
    c as u32 as int
}

/// Lexicographic comparison by code point, from position `from` on.
pub open spec fn rank_from(a: Seq<char>, b: Seq<char>, from: int) -> Rank
    decreases a.len() - from,
{
    if from < 0 {
        Rank::Same
    } else if from >= a.len() && from >= b.len() {
        Rank::Same
    } else if from >= a.len() {
        Rank::Before
    } else if from >= b.len() {
        Rank::After
    } else if code(a[from]) < code(b[from]) {
        Rank::Before
    } else if code(a[from]) > code(b[from]) {
        Rank::After
    } else {
        rank_from(a, b, from + 1)
    }
}

/// Lexicographic comparison of two identifiers by code point.
pub open spec fn rank(a: Seq<char>, b: Seq<char>) -> Rank {
    rank_from(a, b, 0)
}

/// Compares two identifiers in the canonical order.
pub fn rank_of(a: &str, b: &str) -> (r: Rank)
    ensures
        r == rank(a@, b@),
{
    let n = a.unicode_len();
    let m = b.unicode_len();
    let mut i: usize = 0;
    while i < n && i < m
        invariant
            n == a@.len(),
            m == b@.len(),
            i <= n,
            i <= m,
            rank(a@, b@) == rank_from(a@, b@, i as int),
        decreases n - i,
    {
        let x = a.get_char(i);
        let y = b.get_char(i);
        if x < y {
            return Rank::Before;
        }
        if x > y {
            return Rank::After;
        }
        i = i + 1;
    }
    if i < m {
        Rank::Before
    } else if i < n {
        Rank::After
    } else {
        Rank::Same
    }
}

/// Two identifiers rank the same exactly when they are equal.
pub proof fn lemma_rank_same(a: Seq<char>, b: Seq<char>)
    ensures
        rank(a, b) == Rank::Same <==> a == b,
{
    lemma_rank_same_from(a, b, 0);
    if rank(a, b) == Rank::Same {
        assert(a =~= b);
    }
}

/// From position `from` on, two identifiers rank the same exactly when they
/// have the same length and agree at every position from there.
pub proof fn lemma_rank_same_from(a: Seq<char>, b: Seq<char>, from: int)
    requires
        0 <= from,
    ensures
        rank_from(a, b, from) == Rank::Same <==> (a.len() <= from && b.len() <= from) || (a.len()
            == b.len() && forall|k: int| from <= k < a.len() ==> a[k] == b[k]),
    decreases a.len() - from,
{
    if from < a.len() && from < b.len() {
        lemma_rank_same_from(a, b, from + 1);
        if code(a[from]) == code(b[from]) {
            vstd::utf8::char_u32_cast(a[from], a[from] as u32);
            vstd::utf8::char_u32_cast(b[from], b[from] as u32);
        }
    }
}

/// Swapping the two identifiers swaps `Before` and `After`.
pub proof fn lemma_rank_swap(a: Seq<char>, b: Seq<char>)
    ensures
        rank(a, b) == Rank::Before <==> rank(b, a) == Rank::After,
        rank(a, b) == Rank::After <==> rank(b, a) == Rank::Before,
        rank(a, b) == Rank::Same <==> rank(b, a) == Rank::Same,
{
    lemma_rank_swap_from(a, b, 0);
}

/// `lemma_rank_swap`, from position `from` on.
pub proof fn lemma_rank_swap_from(a: Seq<char>, b: Seq<char>, from: int)
    requires
        0 <= from,
    ensures
        rank_from(a, b, from) == Rank::Before <==> rank_from(b, a, from) == Rank::After,
        rank_from(a, b, from) == Rank::After <==> rank_from(b, a, from) == Rank::Before,
        rank_from(a, b, from) == Rank::Same <==> rank_from(b, a, from) == Rank::Same,
    decreases a.len() - from,
{
    if from < a.len() && from < b.len() && code(a[from]) == code(b[from]) {
        lemma_rank_swap_from(a, b, from + 1);
    }
}

/// What stands before something that stands before a third stands before the
/// third.
pub proof fn lemma_rank_transitive(a: Seq<char>, b: Seq<char>, c: Seq<char>)
    requires
        rank(a, b) == Rank::Before,
        rank(b, c) == Rank::Before,
    ensures
        rank(a, c) == Rank::Before,
{
    lemma_rank_transitive_from(a, b, c, 0);
}

/// `lemma_rank_transitive`, from position `from` on.
pub proof fn lemma_rank_transitive_from(a: Seq<char>, b: Seq<char>, c: Seq<char>, from: int)
    requires
        0 <= from,
        rank_from(a, b, from) == Rank::Before,
        rank_from(b, c, from) == Rank::Before,
    ensures
        rank_from(a, c, from) == Rank::Before,
    decreases b.len() - from,
{
    if from < a.len() && from < b.len() && from < c.len() && code(a[from]) == code(b[from])
        && code(b[from]) == code(c[from]) {
        lemma_rank_transitive_from(a, b, c, from + 1);
    }
}

/// The one of two identifiers that is taken first.
pub open spec fn first_of(a: Seq<char>, b: Seq<char>) -> Seq<char> {
    if rank(a, b) == Rank::After {
        b
    } else {
        a
    }
}

/// The one of two identifiers that is taken second.
pub open spec fn second_of(a: Seq<char>, b: Seq<char>) -> Seq<char> {
    if rank(a, b) == Rank::After {
        a
    } else {
        b
    }
}

/// The order in which two accounts are taken does not depend on which of
/// them is named first, and the one taken first never stands after the other.
pub proof fn lemma_lock_order(a: Seq<char>, b: Seq<char>)
    ensures
        first_of(a, b) == first_of(b, a),
        second_of(a, b) == second_of(b, a),
        a != b ==> rank(first_of(a, b), second_of(a, b)) == Rank::Before,
        a == b ==> first_of(a, b) == a && second_of(a, b) == a,
{
    lemma_rank_swap(a, b);
    lemma_rank_same(a, b);
    lemma_rank_same(b, a);
}

/// Puts two identifiers in the order in which their accounts are to be
/// taken: the same order whichever of the two is given first.
pub fn lock_order<'a>(a: &'a str, b: &'a str) -> (r: (&'a str, &'a str))
    ensures
        r.0@ == first_of(a@, b@),
        r.1@ == second_of(a@, b@),
{
    match rank_of(a, b) {
        Rank::After => (b, a),
        _ => (a, b),
    }
}

} // verus!
