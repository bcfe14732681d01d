//! Shape of a syntax tree (its node count and height), and the checks that a
//! tree fits its source text.

use vstd::prelude::*;
use crate::syntax::SyntaxNode;
use crate::text::{span_ok, text_slice};

verus! {

/// Number of nodes in the subtree rooted at `n`.
pub open spec fn size(n: SyntaxNode) -> nat
    decreases n, n.children@.len() + 1,
{
    1 + size_upto(n, n.children@.len() as int)
}

/// Number of nodes in the subtrees of the first `k` children of `n`.
pub open spec fn size_upto(n: SyntaxNode, k: int) -> nat
    decreases n, k,
{
    if k <= 0 || k > n.children@.len() {
        0
    } else {
        size_upto(n, k - 1) + size(n.children@[k - 1])
    }
}

/// Length of the longest downward path from `n` (0 for a leaf).
pub open spec fn height(n: SyntaxNode) -> nat
    decreases n, n.children@.len() + 1,
{
    height_upto(n, n.children@.len() as int)
}

/// Largest `1 + height(c)` over the first `k` children `c` of `n` (0 if none).
pub open spec fn height_upto(n: SyntaxNode, k: int) -> nat
    decreases n, k,
{
    if k <= 0 || k > n.children@.len() {
        0
    } else {
        let h = 1 + height(n.children@[k - 1]);
        let rest = height_upto(n, k - 1);
        if h > rest { h } else { rest }
    }
}

/// `x`, or `u64::MAX` where `x` is larger.
pub open spec fn sat(x: nat) -> nat {
    if x > u64::MAX { u64::MAX as nat } else { x }
}

/// Every node of the subtree rooted at `n` spans a byte range of `src` that
/// cuts at character boundaries, and its rows satisfy `start_row <= end_row < usize::MAX`.
pub open spec fn fits_source(n: SyntaxNode, src: Seq<char>) -> bool
    decreases n, n.children@.len() + 1,
{
    &&& span_ok(src, n.start_byte as int, n.end_byte as int)
    &&& n.start_row <= n.end_row < usize::MAX
    &&& fits_source_upto(n, src, n.children@.len() as int)
}

/// The first `k` children of `n` satisfy `fits_source`.
pub open spec fn fits_source_upto(n: SyntaxNode, src: Seq<char>, k: int) -> bool
    decreases n, k,
{
    if k <= 0 || k > n.children@.len() {
        true
    } else {
        fits_source_upto(n, src, k - 1) && fits_source(n.children@[k - 1], src)
    }
}

/// `fits_source_upto` holds of each of the first `k` children.
pub proof fn lemma_fits_source_upto_child(n: SyntaxNode, src: Seq<char>, k: int, i: int)
    requires
        0 <= i < k <= n.children@.len(),
        fits_source_upto(n, src, k),
    ensures
        fits_source(n.children@[i], src),
    decreases k,
{
    if i < k - 1 {
        lemma_fits_source_upto_child(n, src, k - 1, i);
    }
}

/// A child's subtree is smaller than its parent's, and lower.
pub proof fn lemma_child_bounds(n: SyntaxNode, i: int)
    requires
        0 <= i < n.children@.len(),
    ensures
        size(n.children@[i]) < size(n),
        height(n.children@[i]) + 1 <= height(n),
{
    lemma_upto_bounds(n, n.children@.len() as int, i);
}

proof fn lemma_upto_bounds(n: SyntaxNode, k: int, i: int)
    requires
        0 <= i < k <= n.children@.len(),
    ensures
        size(n.children@[i]) <= size_upto(n, k),
        height(n.children@[i]) + 1 <= height_upto(n, k),
    decreases k,
{
    if i < k - 1 {
        lemma_upto_bounds(n, k - 1, i);
    }
}

/// The height of a subtree is below its node count.
pub proof fn lemma_height_below_size(n: SyntaxNode)
    ensures
        height(n) < size(n),
    decreases n, n.children@.len() + 1,
{
    lemma_height_below_size_upto(n, n.children@.len() as int);
}

proof fn lemma_height_below_size_upto(n: SyntaxNode, k: int)
    requires
        0 <= k <= n.children@.len(),
    ensures
        height_upto(n, k) <= size_upto(n, k),
    decreases n, k,
{
    if k > 0 {
        lemma_height_below_size_upto(n, k - 1);
        lemma_height_below_size(n.children@[k - 1]);
    }
}

/// The node count of the subtree rooted at `n`, capped at `u64::MAX`.
pub fn tree_size(n: &SyntaxNode) -> (r: u64)
    ensures
        r == sat(size(*n)),
    decreases n,
{
    let mut total: u64 = 1;
    let mut i: usize = 0;
    while i < n.children.len()
        invariant
            i <= n.children@.len(),
            total == sat(1 + size_upto(*n, i as int)),
        decreases n.children@.len() - i,
    {
        let s = tree_size(&n.children[i]);
        total = total.saturating_add(s);
        i += 1;
    }
    total
}

/// Whether every node of the subtree rooted at `n` fits `source` (see `fits_source`).
pub fn check_fits_source(n: &SyntaxNode, source: &str) -> (r: bool)
    ensures
        r == fits_source(*n, source@),
    decreases n,
{
    if text_slice(source, n.start_byte, n.end_byte).is_none() {
        return false;
    }
    if !(n.start_row <= n.end_row && n.end_row < usize::MAX) {
        return false;
    }
    let mut i: usize = 0;
    while i < n.children.len()
        invariant
            i <= n.children@.len(),
            fits_source_upto(*n, source@, i as int),
        decreases n.children@.len() - i,
    {
        if !check_fits_source(&n.children[i], source) {
            proof {
                if fits_source(*n, source@) {
                    lemma_fits_source_upto_child(*n, source@, n.children@.len() as int, i as int);
                }
            }
            return false;
        }
        i += 1;
    }
    true
}

} // verus!
