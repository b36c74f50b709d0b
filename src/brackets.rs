use vstd::prelude::*;
use crate::token::BrainfuckToken;

verus! {

/// How an instruction changes the loop nesting depth: `StartLoop` opens a
/// level, `EndLoop` closes one, everything else leaves it alone.
pub open spec fn nesting_delta(t: BrainfuckToken) -> int {
    match t {
        BrainfuckToken::StartLoop => 1,
        BrainfuckToken::EndLoop => -1,
        _ => 0,
    }
}

/// The net nesting of the instructions at positions `lo .. hi`: opened loops
/// minus closed loops.
pub open spec fn nesting(s: Seq<BrainfuckToken>, lo: int, hi: int) -> int
    decreases hi - lo,
{
    if hi <= lo {
        0
    } else {
        nesting(s, lo, hi - 1) + nesting_delta(s[hi - 1])
    }
}

/// `to` is where a forward scan from `from` stops: the first position at or
/// after `from` at which the nesting counted from `from` returns to zero.
pub open spec fn forward_match(s: Seq<BrainfuckToken>, from: int, to: int) -> bool {
    &&& 0 <= from <= to < s.len()
    &&& nesting(s, from, to + 1) == 0
    &&& forall|j: int| from <= j < to ==> #[trigger] nesting(s, from, j + 1) != 0
}

/// Where the forward scan from `from` leaves the instruction pointer: at its
/// match, or at `from` itself when there is none.
pub open spec fn forward_target(s: Seq<BrainfuckToken>, from: int) -> int {
    if exists|to: int| forward_match(s, from, to) {
        choose|to: int| forward_match(s, from, to)
    } else {
        from
    }
}

/// `to` is where a backward scan from the loop end at `from` stops: scanning
/// the positions before `from` from the nearest one down, the first at which
/// the nesting of `to .. from` is one, that is, the loop start that the scan
/// counter (starting at one for the loop end itself) brings back to zero.
pub open spec fn backward_match(s: Seq<BrainfuckToken>, from: int, to: int) -> bool {
    &&& 0 <= to < from <= s.len()
    &&& nesting(s, to, from) == 1
    &&& forall|j: int| to < j < from ==> #[trigger] nesting(s, j, from) != 1
}

/// Where the backward scan from `from` leaves the instruction pointer: at its
/// match, or at `from` itself when there is none.
pub open spec fn backward_target(s: Seq<BrainfuckToken>, from: int) -> int {
    if exists|to: int| backward_match(s, from, to) {
        choose|to: int| backward_match(s, from, to)
    } else {
        from
    }
}

/// The nesting of a range is the sum of the nesting of its two halves.
pub proof fn lemma_nesting_split(s: Seq<BrainfuckToken>, lo: int, mid: int, hi: int)
    requires
        lo <= mid <= hi,
    ensures
        nesting(s, lo, hi) == nesting(s, lo, mid) + nesting(s, mid, hi),
    decreases hi - mid,
{
    if hi > mid {
        lemma_nesting_split(s, lo, mid, hi - 1);
    }
}

/// Counting from the front: the nesting of `lo .. hi` is the first
/// instruction's change plus the nesting of the rest.
pub proof fn lemma_nesting_front(s: Seq<BrainfuckToken>, lo: int, hi: int)
    requires
        lo < hi,
    ensures
        nesting(s, lo, hi) == nesting_delta(s[lo]) + nesting(s, lo + 1, hi),
{
    lemma_nesting_split(s, lo, lo + 1, hi);
    assert(nesting(s, lo, lo + 1) == nesting(s, lo, lo) + nesting_delta(s[lo]));
}

/// A forward scan has at most one stopping point.
pub proof fn lemma_forward_match_unique(s: Seq<BrainfuckToken>, from: int, a: int, b: int)
    requires
        forward_match(s, from, a),
        forward_match(s, from, b),
    ensures
        a == b,
{
    if a < b {
        assert(nesting(s, from, a + 1) != 0);
    } else if b < a {
        assert(nesting(s, from, b + 1) != 0);
    }
}

/// A backward scan has at most one stopping point.
pub proof fn lemma_backward_match_unique(s: Seq<BrainfuckToken>, from: int, a: int, b: int)
    requires
        backward_match(s, from, a),
        backward_match(s, from, b),
    ensures
        a == b,
{
    if a < b {
        assert(nesting(s, b, from) != 1);
    } else if b < a {
        assert(nesting(s, a, from) != 1);
    }
}

/// Jumping is a round trip on a balanced pair: when the loop start at `i` has
/// a matching loop end, the forward scan from `i` stops on a loop end, and
/// the backward scan from there stops on `i` again.
pub proof fn lemma_jump_round_trip(s: Seq<BrainfuckToken>, i: int)
    requires
        0 <= i < s.len(),
        s[i] == BrainfuckToken::StartLoop,
        exists|k: int| forward_match(s, i, k),
    ensures
        s[forward_target(s, i)] == BrainfuckToken::EndLoop,
        forward_target(s, i) > i,
        backward_target(s, forward_target(s, i)) == i,
{
    let k = forward_target(s, i);
    assert(forward_match(s, i, k));
    assert(nesting(s, i, i + 1) == 1) by {
        assert(nesting(s, i, i) == 0);
    }
    // Before the match the nesting counted from `i` never drops below one.
    assert forall|j: int| i <= j < k implies #[trigger] nesting(s, i, j + 1) >= 1 by {
        lemma_nesting_stays_open(s, i, k, j);
    }
    assert(k > i);
    assert(nesting(s, i, k) == 1) by {
        assert(nesting(s, i, (k - 1) + 1) >= 1);
        assert(nesting(s, i, k + 1) == nesting(s, i, k) + nesting_delta(s[k]));
    }
    assert(s[k] == BrainfuckToken::EndLoop);
    assert forall|j: int| i < j < k implies #[trigger] nesting(s, j, k) != 1 by {
        lemma_nesting_split(s, i, j, k);
        assert(nesting(s, i, (j - 1) + 1) >= 1);
    }
    assert(backward_match(s, k, i));
    let t = choose|t: int| backward_match(s, k, t);
    lemma_backward_match_unique(s, k, i, t);
}

proof fn lemma_nesting_stays_open(s: Seq<BrainfuckToken>, i: int, k: int, j: int)
    requires
        forward_match(s, i, k),
        s[i] == BrainfuckToken::StartLoop,
        i <= j < k,
    ensures
        nesting(s, i, j + 1) >= 1,
    decreases j - i,
{
    if j == i {
        assert(nesting(s, i, i) == 0);
    } else {
        lemma_nesting_stays_open(s, i, k, j - 1);
        assert(nesting(s, i, j + 1) != 0);
    }
}

} // verus!
