//! Nesting depth and Halstead counts of a function's syntax tree.

use vstd::prelude::*;
use crate::complexity::{kind_listed, listed, one_if};
use crate::syntax::SyntaxNode;
use crate::text::{span_text, text_eq, text_slice};
use crate::tree::{fits_source, height, lemma_child_bounds, lemma_fits_source_upto_child, size, size_upto};

verus! {

/// Deepest nesting of decision kinds below `n`, counting from `current`:
/// each child that is not a function adds 1 when its kind is a decision
/// kind, and the result is the largest depth reached (at least `current`).
pub open spec fn nesting(n: SyntaxNode, decision_kinds: Seq<&str>, function_kinds: Seq<&str>, current: int) -> int
    decreases n, n.children@.len() + 1,
{
    nesting_upto(n, decision_kinds, function_kinds, current, n.children@.len() as int)
}

/// `nesting` restricted to the first `k` children of `n`.
pub open spec fn nesting_upto(
    n: SyntaxNode,
    decision_kinds: Seq<&str>,
    function_kinds: Seq<&str>,
    current: int,
    k: int,
) -> int
    decreases n, k,
{
    if k <= 0 || k > n.children@.len() {
        current
    } else {
        let rest = nesting_upto(n, decision_kinds, function_kinds, current, k - 1);
        let c = n.children@[k - 1];
        if listed(function_kinds, c.kind@) {
            rest
        } else {
            let d = nesting(c, decision_kinds, function_kinds, current + one_if(listed(decision_kinds, c.kind@)));
            if d > rest { d } else { rest }
        }
    }
}

/// The maximum nesting depth of decision kinds inside `node`, not looking
/// inside nested functions.
pub fn max_nesting_depth(node: &SyntaxNode, decision_kinds: &[&str], function_kinds: &[&str]) -> (r: u32)
    requires
        height(*node) <= u32::MAX,
    ensures
        r == nesting(*node, decision_kinds@, function_kinds@, 0),
{
    compute_nesting_depth(node, decision_kinds, function_kinds, 0)
}

fn compute_nesting_depth(
    node: &SyntaxNode,
    decision_kinds: &[&str],
    function_kinds: &[&str],
    current_depth: u32,
) -> (r: u32)
    requires
        current_depth + height(*node) <= u32::MAX,
    ensures
        r == nesting(*node, decision_kinds@, function_kinds@, current_depth as int),
    decreases node,
{
    let mut max_depth = current_depth;
    let mut i: usize = 0;
    while i < node.children.len()
        invariant
            i <= node.children@.len(),
            current_depth + height(*node) <= u32::MAX,
            max_depth == nesting_upto(*node, decision_kinds@, function_kinds@, current_depth as int, i as int),
        decreases node.children@.len() - i,
    {
        let child = &node.children[i];
        proof {
            lemma_child_bounds(*node, i as int);
        }
        if !kind_listed(function_kinds, child.kind.as_str()) {
            let next_depth = if kind_listed(decision_kinds, child.kind.as_str()) {
                current_depth + 1
            } else {
                current_depth
            };
            let child_max = compute_nesting_depth(child, decision_kinds, function_kinds, next_depth);
            if child_max > max_depth {
                max_depth = child_max;
            }
        }
        i += 1;
    }
    max_depth
}

/// Nesting depth does not depend on where counting starts: starting `d`
/// levels deeper gives a depth exactly `d` larger.
pub proof fn lemma_nesting_shift(n: SyntaxNode, decision_kinds: Seq<&str>, function_kinds: Seq<&str>, current: int, d: int)
    ensures
        nesting(n, decision_kinds, function_kinds, current + d) == nesting(n, decision_kinds, function_kinds, current) + d,
    decreases n, n.children@.len() + 1,
{
    lemma_nesting_shift_upto(n, decision_kinds, function_kinds, current, d, n.children@.len() as int);
}

proof fn lemma_nesting_shift_upto(
    n: SyntaxNode,
    decision_kinds: Seq<&str>,
    function_kinds: Seq<&str>,
    current: int,
    d: int,
    k: int,
)
    requires
        0 <= k <= n.children@.len(),
    ensures
        nesting_upto(n, decision_kinds, function_kinds, current + d, k) == nesting_upto(
            n,
            decision_kinds,
            function_kinds,
            current,
            k,
        ) + d,
    decreases n, k,
{
    if k > 0 {
        lemma_nesting_shift_upto(n, decision_kinds, function_kinds, current, d, k - 1);
        let c = n.children@[k - 1];
        let step = one_if(listed(decision_kinds, c.kind@));
        lemma_nesting_shift(c, decision_kinds, function_kinds, current + step, d);
        assert(current + d + step == current + step + d);
    }
}

/// The depth reached is never below the depth counting starts at.
pub proof fn lemma_nesting_at_least_start(n: SyntaxNode, decision_kinds: Seq<&str>, function_kinds: Seq<&str>, current: int)
    ensures
        nesting(n, decision_kinds, function_kinds, current) >= current,
{
    lemma_nesting_upto_grows(n, decision_kinds, function_kinds, current, 0, n.children@.len() as int);
}

proof fn lemma_nesting_upto_grows(
    n: SyntaxNode,
    decision_kinds: Seq<&str>,
    function_kinds: Seq<&str>,
    current: int,
    k: int,
    m: int,
)
    requires
        0 <= k <= m <= n.children@.len(),
    ensures
        nesting_upto(n, decision_kinds, function_kinds, current, k) <= nesting_upto(
            n,
            decision_kinds,
            function_kinds,
            current,
            m,
        ),
    decreases m - k,
{
    if k < m {
        lemma_nesting_upto_grows(n, decision_kinds, function_kinds, current, k, m - 1);
    }
}

/// A child that is not a function nests inside its parent: the parent's
/// depth is at least the child's, one level deeper when the child is a
/// decision. So a chain of `k` decisions, each inside the one before with no
/// function between, gives a depth of at least `k`.
pub proof fn lemma_nesting_child(
    n: SyntaxNode,
    decision_kinds: Seq<&str>,
    function_kinds: Seq<&str>,
    current: int,
    i: int,
)
    requires
        0 <= i < n.children@.len(),
        !listed(function_kinds, n.children@[i].kind@),
    ensures
        nesting(n, decision_kinds, function_kinds, current) >= nesting(n.children@[i], decision_kinds, function_kinds, current)
            + if listed(decision_kinds, n.children@[i].kind@) { 1int } else { 0int },
{
    let c = n.children@[i];
    let step = if listed(decision_kinds, c.kind@) { 1int } else { 0int };
    lemma_nesting_upto_grows(n, decision_kinds, function_kinds, current, i + 1, n.children@.len() as int);
    lemma_nesting_shift(c, decision_kinds, function_kinds, current, step);
}

/// The operator occurrences of the subtree rooted at `n`, in preorder: the
/// kind of each node whose kind is an operator kind, not looking inside
/// children that are functions.
pub open spec fn operator_seq(n: SyntaxNode, operator_kinds: Seq<&str>, function_kinds: Seq<&str>) -> Seq<Seq<char>>
    decreases n, n.children@.len() + 1,
{
    (if listed(operator_kinds, n.kind@) { seq![n.kind@] } else { seq![] })
        + operator_seq_upto(n, operator_kinds, function_kinds, n.children@.len() as int)
}

/// `operator_seq` of the first `k` children of `n` (skipping functions), concatenated.
pub open spec fn operator_seq_upto(n: SyntaxNode, operator_kinds: Seq<&str>, function_kinds: Seq<&str>, k: int) -> Seq<Seq<char>>
    decreases n, k,
{
    if k <= 0 || k > n.children@.len() {
        seq![]
    } else {
        let c = n.children@[k - 1];
        operator_seq_upto(n, operator_kinds, function_kinds, k - 1) + if listed(function_kinds, c.kind@) {
            seq![]
        } else {
            operator_seq(c, operator_kinds, function_kinds)
        }
    }
}

/// The operand occurrences of the subtree rooted at `n`, in preorder: the
/// source text of each node whose kind is an operand kind and not an
/// operator kind, not looking inside children that are functions.
pub open spec fn operand_seq(
    n: SyntaxNode,
    src: Seq<char>,
    operator_kinds: Seq<&str>,
    operand_kinds: Seq<&str>,
    function_kinds: Seq<&str>,
) -> Seq<Seq<char>>
    decreases n, n.children@.len() + 1,
{
    (if !listed(operator_kinds, n.kind@) && listed(operand_kinds, n.kind@) {
        seq![span_text(src, n.start_byte as int, n.end_byte as int)]
    } else {
        seq![]
    }) + operand_seq_upto(n, src, operator_kinds, operand_kinds, function_kinds, n.children@.len() as int)
}

/// `operand_seq` of the first `k` children of `n` (skipping functions), concatenated.
pub open spec fn operand_seq_upto(
    n: SyntaxNode,
    src: Seq<char>,
    operator_kinds: Seq<&str>,
    operand_kinds: Seq<&str>,
    function_kinds: Seq<&str>,
    k: int,
) -> Seq<Seq<char>>
    decreases n, k,
{
    if k <= 0 || k > n.children@.len() {
        seq![]
    } else {
        let c = n.children@[k - 1];
        operand_seq_upto(n, src, operator_kinds, operand_kinds, function_kinds, k - 1) + if listed(
            function_kinds,
            c.kind@,
        ) {
            seq![]
        } else {
            operand_seq(c, src, operator_kinds, operand_kinds, function_kinds)
        }
    }
}

/// `operator_seq_upto` and `operand_seq_upto` only grow with `k`.
proof fn lemma_seq_upto_mono(
    n: SyntaxNode,
    src: Seq<char>,
    operator_kinds: Seq<&str>,
    operand_kinds: Seq<&str>,
    function_kinds: Seq<&str>,
    k: int,
    m: int,
)
    requires
        0 <= k <= m <= n.children@.len(),
    ensures
        operator_seq_upto(n, operator_kinds, function_kinds, k).len()
            <= operator_seq_upto(n, operator_kinds, function_kinds, m).len(),
        operand_seq_upto(n, src, operator_kinds, operand_kinds, function_kinds, k).len()
            <= operand_seq_upto(n, src, operator_kinds, operand_kinds, function_kinds, m).len(),
    decreases m - k,
{
    if k < m {
        lemma_seq_upto_mono(n, src, operator_kinds, operand_kinds, function_kinds, k, m - 1);
    }
}

/// A subtree has no more operator and operand occurrences than nodes.
pub proof fn lemma_halstead_below_size(
    n: SyntaxNode,
    src: Seq<char>,
    operator_kinds: Seq<&str>,
    operand_kinds: Seq<&str>,
    function_kinds: Seq<&str>,
)
    ensures
        operator_seq(n, operator_kinds, function_kinds).len()
            + operand_seq(n, src, operator_kinds, operand_kinds, function_kinds).len() <= size(n),
    decreases n, n.children@.len() + 1,
{
    lemma_halstead_below_size_upto(n, src, operator_kinds, operand_kinds, function_kinds, n.children@.len() as int);
}

proof fn lemma_halstead_below_size_upto(
    n: SyntaxNode,
    src: Seq<char>,
    operator_kinds: Seq<&str>,
    operand_kinds: Seq<&str>,
    function_kinds: Seq<&str>,
    k: int,
)
    requires
        0 <= k <= n.children@.len(),
    ensures
        operator_seq_upto(n, operator_kinds, function_kinds, k).len()
            + operand_seq_upto(n, src, operator_kinds, operand_kinds, function_kinds, k).len() <= size_upto(n, k),
    decreases n, k,
{
    if k > 0 {
        lemma_halstead_below_size_upto(n, src, operator_kinds, operand_kinds, function_kinds, k - 1);
        lemma_halstead_below_size(n.children@[k - 1], src, operator_kinds, operand_kinds, function_kinds);
    }
}

/// The texts held by a list of strings.
pub open spec fn texts(v: Seq<String>) -> Seq<Seq<char>> {
    v.map_values(|s: String| s@)
}

/// Distinct and total counts of a function's operators and operands.
pub struct HalsteadState {
    operators_distinct: Vec<String>,
    operators_total: u32,
    operands_distinct: Vec<String>,
    operands_total: u32,
}

impl HalsteadState {
    /// The distinct operators seen so far.
    pub closed spec fn operator_set(&self) -> Set<Seq<char>> {
        texts(self.operators_distinct@).to_set()
    }

    /// The distinct operands seen so far.
    pub closed spec fn operand_set(&self) -> Set<Seq<char>> {
        texts(self.operands_distinct@).to_set()
    }

    /// How many operators have been seen.
    pub closed spec fn operator_count(&self) -> nat {
        self.operators_total as nat
    }

    /// How many operands have been seen.
    pub closed spec fn operand_count(&self) -> nat {
        self.operands_total as nat
    }

    /// Each distinct operator and operand is held once, and no more distinct
    /// ones are held than occurrences were seen.
    pub closed spec fn wf(&self) -> bool {
        &&& texts(self.operators_distinct@).no_duplicates()
        &&& texts(self.operands_distinct@).no_duplicates()
        &&& self.operators_distinct@.len() <= self.operators_total
        &&& self.operands_distinct@.len() <= self.operands_total
    }

    /// A state that has seen nothing.
    pub fn new() -> (r: Self)
        ensures
            r.wf(),
            r.operator_set() == Set::<Seq<char>>::empty(),
            r.operand_set() == Set::<Seq<char>>::empty(),
            r.operator_count() == 0,
            r.operand_count() == 0,
    {
        let r = Self {
            operators_distinct: Vec::new(),
            operators_total: 0,
            operands_distinct: Vec::new(),
            operands_total: 0,
        };
        assert(texts(r.operators_distinct@).to_set() =~= Set::<Seq<char>>::empty());
        assert(texts(r.operands_distinct@).to_set() =~= Set::<Seq<char>>::empty());
        r
    }

    /// Records one occurrence of the operator `kind`.
    pub fn add_operator(&mut self, kind: &str)
        requires
            old(self).wf(),
            old(self).operator_count() < u32::MAX,
        ensures
            final(self).wf(),
            final(self).operator_set() == old(self).operator_set().insert(kind@),
            final(self).operand_set() == old(self).operand_set(),
            final(self).operator_count() == old(self).operator_count() + 1,
            final(self).operand_count() == old(self).operand_count(),
    {
        insert_text(&mut self.operators_distinct, kind);
        self.operators_total += 1;
    }

    /// Records one occurrence of the operand `text`.
    pub fn add_operand(&mut self, text: &str)
        requires
            old(self).wf(),
            old(self).operand_count() < u32::MAX,
        ensures
            final(self).wf(),
            final(self).operand_set() == old(self).operand_set().insert(text@),
            final(self).operator_set() == old(self).operator_set(),
            final(self).operand_count() == old(self).operand_count() + 1,
            final(self).operator_count() == old(self).operator_count(),
    {
        insert_text(&mut self.operands_distinct, text);
        self.operands_total += 1;
    }

    /// Number of distinct operators.
    pub fn n1(&self) -> (r: usize)
        requires
            self.wf(),
        ensures
            r == self.operator_set().len(),
    {
        proof {
            texts(self.operators_distinct@).unique_seq_to_set();
        }
        self.operators_distinct.len()
    }

    /// Number of distinct operands.
    pub fn n2(&self) -> (r: usize)
        requires
            self.wf(),
        ensures
            r == self.operand_set().len(),
    {
        proof {
            texts(self.operands_distinct@).unique_seq_to_set();
        }
        self.operands_distinct.len()
    }

    /// Number of distinct operators and operands together (the sum must fit
    /// the `usize` result).
    pub fn n(&self) -> (r: usize)
        requires
            self.wf(),
            self.operator_set().len() + self.operand_set().len() <= usize::MAX,
        ensures
            r == self.operator_set().len() + self.operand_set().len(),
    {
        proof {
            texts(self.operators_distinct@).unique_seq_to_set();
            texts(self.operands_distinct@).unique_seq_to_set();
        }
        self.operators_distinct.len() + self.operands_distinct.len()
    }

    /// Number of operator and operand occurrences together (the sum must fit
    /// the `u32` result).
    pub fn total(&self) -> (r: u32)
        requires
            self.wf(),
            self.operator_count() + self.operand_count() <= u32::MAX,
        ensures
            r == self.operator_count() + self.operand_count(),
    {
        self.operators_total + self.operands_total
    }
}

/// The elements of a concatenation are those of its two parts.
pub proof fn lemma_concat_to_set<A>(a: Seq<A>, b: Seq<A>)
    ensures
        (a + b).to_set() == a.to_set().union(b.to_set()),
{
    assert forall|x: A| #[trigger] (a + b).to_set().contains(x) <==> a.to_set().union(b.to_set()).contains(x) by {
        if a.contains(x) {
            let i = choose|i: int| 0 <= i < a.len() && a[i] == x;
            assert((a + b)[i] == x);
        }
        if b.contains(x) {
            let i = choose|i: int| 0 <= i < b.len() && b[i] == x;
            assert((a + b)[a.len() + i] == x);
        }
        if (a + b).contains(x) {
            let i = choose|i: int| 0 <= i < (a + b).len() && (a + b)[i] == x;
            if i < a.len() {
                assert(a[i] == x);
            } else {
                assert(b[i - a.len()] == x);
            }
        }
    }
    assert((a + b).to_set() =~= a.to_set().union(b.to_set()));
}

/// A state never holds more distinct operators or operands than it has seen
/// occurrences of.
pub proof fn lemma_distinct_within_total(s: &HalsteadState)
    requires
        s.wf(),
    ensures
        s.operator_set().len() <= s.operator_count(),
        s.operand_set().len() <= s.operand_count(),
{
    texts(s.operators_distinct@).unique_seq_to_set();
    texts(s.operands_distinct@).unique_seq_to_set();
}

/// The texts of the operators among `events`, in order; an event is an
/// operator (`true`) or an operand (`false`) and its text.
pub open spec fn operator_texts(events: Seq<(bool, Seq<char>)>) -> Seq<Seq<char>>
    decreases events.len(),
{
    if events.len() == 0 {
        seq![]
    } else {
        operator_texts(events.drop_last()) + if events.last().0 {
            seq![events.last().1]
        } else {
            seq![]
        }
    }
}

/// The texts of the operands among `events`, in order.
pub open spec fn operand_texts(events: Seq<(bool, Seq<char>)>) -> Seq<Seq<char>>
    decreases events.len(),
{
    if events.len() == 0 {
        seq![]
    } else {
        operand_texts(events.drop_last()) + if events.last().0 {
            seq![]
        } else {
            seq![events.last().1]
        }
    }
}

/// `s` has seen exactly `events`: its distinct operators and operands are
/// those among the events, and its counts are how many there are of each.
pub open spec fn has_seen(s: HalsteadState, events: Seq<(bool, Seq<char>)>) -> bool {
    &&& s.operator_set() == operator_texts(events).to_set()
    &&& s.operand_set() == operand_texts(events).to_set()
    &&& s.operator_count() == operator_texts(events).len()
    &&& s.operand_count() == operand_texts(events).len()
}

/// A state as `HalsteadState::new` gives it has seen no events.
pub proof fn lemma_new_has_seen_nothing(s: HalsteadState)
    requires
        s.operator_set() == Set::<Seq<char>>::empty(),
        s.operand_set() == Set::<Seq<char>>::empty(),
        s.operator_count() == 0,
        s.operand_count() == 0,
    ensures
        has_seen(s, seq![]),
{
    assert(operator_texts(seq![]).to_set() =~= Set::<Seq<char>>::empty());
    assert(operand_texts(seq![]).to_set() =~= Set::<Seq<char>>::empty());
}

/// Recording an operator, as `add_operator` does, adds it to the events seen,
/// and never lowers the number of distinct operators.
pub proof fn lemma_add_operator_has_seen(
    before: HalsteadState,
    after: HalsteadState,
    events: Seq<(bool, Seq<char>)>,
    kind: Seq<char>,
)
    requires
        before.wf(),
        has_seen(before, events),
        after.operator_set() == before.operator_set().insert(kind),
        after.operand_set() == before.operand_set(),
        after.operator_count() == before.operator_count() + 1,
        after.operand_count() == before.operand_count(),
    ensures
        has_seen(after, events.push((true, kind))),
        after.operator_set().len() >= before.operator_set().len(),
{
    let e = events.push((true, kind));
    assert(e.drop_last() =~= events);
    lemma_concat_to_set(operator_texts(events), seq![kind]);
    assert(seq![kind].to_set() =~= Set::empty().insert(kind)) by {
        assert(seq![kind][0] == kind);
    }
    assert(operand_texts(e) =~= operand_texts(events));
    assert(operator_texts(e).to_set() =~= operator_texts(events).to_set().insert(kind));
    texts(before.operators_distinct@).unique_seq_to_set();
    vstd::set_lib::lemma_len_subset(before.operator_set(), after.operator_set());
}

/// Recording an operand, as `add_operand` does, adds it to the events seen,
/// and never lowers the number of distinct operands.
pub proof fn lemma_add_operand_has_seen(
    before: HalsteadState,
    after: HalsteadState,
    events: Seq<(bool, Seq<char>)>,
    text: Seq<char>,
)
    requires
        before.wf(),
        has_seen(before, events),
        after.operand_set() == before.operand_set().insert(text),
        after.operator_set() == before.operator_set(),
        after.operand_count() == before.operand_count() + 1,
        after.operator_count() == before.operator_count(),
    ensures
        has_seen(after, events.push((false, text))),
        after.operand_set().len() >= before.operand_set().len(),
{
    let e = events.push((false, text));
    assert(e.drop_last() =~= events);
    lemma_concat_to_set(operand_texts(events), seq![text]);
    assert(seq![text].to_set() =~= Set::empty().insert(text)) by {
        assert(seq![text][0] == text);
    }
    assert(operator_texts(e) =~= operator_texts(events));
    assert(operand_texts(e).to_set() =~= operand_texts(events).to_set().insert(text));
    texts(before.operands_distinct@).unique_seq_to_set();
    vstd::set_lib::lemma_len_subset(before.operand_set(), after.operand_set());
}

/// Of a state that has seen `events`: `n1` and `n2` count the distinct
/// operator and operand texts among them, within the number of each, and the
/// total is the number of events, whatever their texts.
pub proof fn lemma_has_seen_counts(s: HalsteadState, events: Seq<(bool, Seq<char>)>)
    requires
        s.wf(),
        has_seen(s, events),
    ensures
        s.operator_set().len() == operator_texts(events).to_set().len(),
        s.operand_set().len() == operand_texts(events).to_set().len(),
        s.operator_set().len() <= operator_texts(events).len(),
        s.operand_set().len() <= operand_texts(events).len(),
        s.operator_count() + s.operand_count() == events.len(),
{
    lemma_distinct_within_total(&s);
    lemma_event_split(events);
}

/// Every event is an operator or an operand.
proof fn lemma_event_split(events: Seq<(bool, Seq<char>)>)
    ensures
        operator_texts(events).len() + operand_texts(events).len() == events.len(),
    decreases events.len(),
{
    if events.len() > 0 {
        lemma_event_split(events.drop_last());
    }
}

/// Adds `text` to a list of distinct strings unless it is already there.
fn insert_text(v: &mut Vec<String>, text: &str)
    requires
        texts(old(v)@).no_duplicates(),
    ensures
        texts(final(v)@).no_duplicates(),
        texts(final(v)@).to_set() == texts(old(v)@).to_set().insert(text@),
        final(v)@.len() <= old(v)@.len() + 1,
{
    let mut i: usize = 0;
    while i < v.len()
        invariant
            i <= v@.len(),
            v@ == old(v)@,
            texts(v@).no_duplicates(),
            forall|j: int| 0 <= j < i ==> v@[j]@ != text@,
        decreases v@.len() - i,
    {
        if text_eq(v[i].as_str(), text) {
            proof {
                assert(texts(v@)[i as int] == text@);
                assert(texts(v@).to_set().insert(text@) =~= texts(v@).to_set());
            }
            return;
        }
        i += 1;
    }
    let ghost before = texts(v@);
    v.push(text.to_owned());
    proof {
        assert(texts(v@) =~= before.push(text@));
        assert(!before.contains(text@));
        lemma_concat_to_set(before, seq![text@]);
        assert(seq![text@].to_set() =~= Set::empty().insert(text@)) by {
            assert(seq![text@][0] == text@);
        }
        assert(before.push(text@) =~= before + seq![text@]);
        assert(texts(v@).to_set() =~= before.to_set().insert(text@));
    }
}

/// Distinct and total numbers of a function's operators and operands, from
/// which the Halstead measures are computed.
#[derive(Clone, Copy, Debug, PartialEq, Eq)]
pub struct HalsteadCounts {
    /// Distinct operators (η₁).
    pub distinct_operators: usize,
    /// Distinct operands (η₂).
    pub distinct_operands: usize,
    /// Operator occurrences (N₁).
    pub total_operators: u32,
    /// Operand occurrences (N₂).
    pub total_operands: u32,
}

/// The Halstead counts of the subtree rooted at `n`.
pub open spec fn halstead_spec(
    n: SyntaxNode,
    src: Seq<char>,
    operator_kinds: Seq<&str>,
    operand_kinds: Seq<&str>,
    function_kinds: Seq<&str>,
) -> HalsteadCounts {
    let ops = operator_seq(n, operator_kinds, function_kinds);
    let opnds = operand_seq(n, src, operator_kinds, operand_kinds, function_kinds);
    HalsteadCounts {
        distinct_operators: ops.to_set().len() as usize,
        distinct_operands: opnds.to_set().len() as usize,
        total_operators: ops.len() as u32,
        total_operands: opnds.len() as u32,
    }
}

/// Counts the operators and operands of `node` (see `operator_seq` and
/// `operand_seq`), not looking inside nested functions.
pub fn halstead_metrics(
    node: &SyntaxNode,
    source: &str,
    operator_kinds: &[&str],
    operand_kinds: &[&str],
    function_kinds: &[&str],
) -> (r: HalsteadCounts)
    requires
        fits_source(*node, source@),
        operator_seq(*node, operator_kinds@, function_kinds@).len()
            + operand_seq(*node, source@, operator_kinds@, operand_kinds@, function_kinds@).len() <= u32::MAX,
    ensures
        r == halstead_spec(*node, source@, operator_kinds@, operand_kinds@, function_kinds@),
{
    let mut state = HalsteadState::new();
    collect_halstead(node, source, operator_kinds, operand_kinds, function_kinds, &mut state);
    proof {
        let ops = operator_seq(*node, operator_kinds@, function_kinds@);
        let opnds = operand_seq(*node, source@, operator_kinds@, operand_kinds@, function_kinds@);
        assert(Set::<Seq<char>>::empty().union(ops.to_set()) =~= ops.to_set());
        assert(Set::<Seq<char>>::empty().union(opnds.to_set()) =~= opnds.to_set());
    }
    HalsteadCounts {
        distinct_operators: state.n1(),
        distinct_operands: state.n2(),
        total_operators: state.operators_total,
        total_operands: state.operands_total,
    }
}

fn collect_halstead(
    node: &SyntaxNode,
    source: &str,
    operator_kinds: &[&str],
    operand_kinds: &[&str],
    function_kinds: &[&str],
    state: &mut HalsteadState,
)
    requires
        old(state).wf(),
        fits_source(*node, source@),
        old(state).operator_count() + old(state).operand_count()
            + operator_seq(*node, operator_kinds@, function_kinds@).len()
            + operand_seq(*node, source@, operator_kinds@, operand_kinds@, function_kinds@).len() <= u32::MAX,
    ensures
        final(state).wf(),
        final(state).operator_set() == old(state).operator_set().union(
            operator_seq(*node, operator_kinds@, function_kinds@).to_set(),
        ),
        final(state).operand_set() == old(state).operand_set().union(
            operand_seq(*node, source@, operator_kinds@, operand_kinds@, function_kinds@).to_set(),
        ),
        final(state).operator_count() == old(state).operator_count() + operator_seq(
            *node,
            operator_kinds@,
            function_kinds@,
        ).len(),
        final(state).operand_count() == old(state).operand_count() + operand_seq(
            *node,
            source@,
            operator_kinds@,
            operand_kinds@,
            function_kinds@,
        ).len(),
    decreases node,
{
    let ghost ok = operator_kinds@;
    let ghost pk = operand_kinds@;
    let ghost fk = function_kinds@;
    let ghost src = source@;
    let ghost start_ops = state.operator_set();
    let ghost start_opnds = state.operand_set();
    let ghost start_op_count = state.operator_count();
    let ghost start_opnd_count = state.operand_count();
    let ghost total_ops = operator_seq(*node, ok, fk);
    let ghost total_opnds = operand_seq(*node, src, ok, pk, fk);
    let ghost len = node.children@.len() as int;
    let ghost head_ops: Seq<Seq<char>> = if listed(ok, node.kind@) { seq![node.kind@] } else { seq![] };
    let ghost head_opnds: Seq<Seq<char>> = if !listed(ok, node.kind@) && listed(pk, node.kind@) {
        seq![span_text(src, node.start_byte as int, node.end_byte as int)]
    } else {
        seq![]
    };
    proof {
        lemma_seq_upto_mono(*node, src, ok, pk, fk, 0, len);
    }
    let kind = node.kind.as_str();
    if kind_listed(operator_kinds, kind) {
        state.add_operator(kind);
    } else if kind_listed(operand_kinds, kind) {
        match text_slice(source, node.start_byte, node.end_byte) {
            Some(t) => {
                state.add_operand(t.as_str());
            },
            None => {
                assert(false);
            },
        }
    }
    proof {
        assert(seq![node.kind@].to_set() =~= Set::empty().insert(node.kind@)) by {
            assert(seq![node.kind@][0] == node.kind@);
        }
        let tx = span_text(src, node.start_byte as int, node.end_byte as int);
        assert(seq![tx].to_set() =~= Set::empty().insert(tx)) by {
            assert(seq![tx][0] == tx);
        }
        assert(Seq::<Seq<char>>::empty().to_set() =~= Set::empty());
        assert(state.operator_set() =~= start_ops.union(head_ops.to_set()));
        assert(state.operand_set() =~= start_opnds.union(head_opnds.to_set()));
        assert(head_ops + operator_seq_upto(*node, ok, fk, 0) =~= head_ops);
        assert(head_opnds + operand_seq_upto(*node, src, ok, pk, fk, 0) =~= head_opnds);
    }
    let mut i: usize = 0;
    while i < node.children.len()
        invariant
            i <= node.children@.len(),
            len == node.children@.len(),
            ok == operator_kinds@,
            pk == operand_kinds@,
            fk == function_kinds@,
            src == source@,
            fits_source(*node, source@),
            total_ops == head_ops + operator_seq_upto(*node, ok, fk, len),
            total_opnds == head_opnds + operand_seq_upto(*node, src, ok, pk, fk, len),
            start_op_count + start_opnd_count + total_ops.len() + total_opnds.len() <= u32::MAX,
            state.wf(),
            state.operator_set() == start_ops.union((head_ops + operator_seq_upto(*node, ok, fk, i as int)).to_set()),
            state.operand_set() == start_opnds.union(
                (head_opnds + operand_seq_upto(*node, src, ok, pk, fk, i as int)).to_set(),
            ),
            state.operator_count() == start_op_count + (head_ops + operator_seq_upto(*node, ok, fk, i as int)).len(),
            state.operand_count() == start_opnd_count + (head_opnds + operand_seq_upto(
                *node,
                src,
                ok,
                pk,
                fk,
                i as int,
            )).len(),
        decreases node.children@.len() - i,
    {
        let child = &node.children[i];
        let ghost before_ops = head_ops + operator_seq_upto(*node, ok, fk, i as int);
        let ghost before_opnds = head_opnds + operand_seq_upto(*node, src, ok, pk, fk, i as int);
        proof {
            lemma_fits_source_upto_child(*node, src, len, i as int);
            lemma_seq_upto_mono(*node, src, ok, pk, fk, i + 1, len);
        }
        if !kind_listed(function_kinds, child.kind.as_str()) {
            collect_halstead(child, source, operator_kinds, operand_kinds, function_kinds, state);
            proof {
                let cops = operator_seq(*child, ok, fk);
                let copnds = operand_seq(*child, src, ok, pk, fk);
                assert(head_ops + operator_seq_upto(*node, ok, fk, i + 1) =~= before_ops + cops);
                assert(head_opnds + operand_seq_upto(*node, src, ok, pk, fk, i + 1) =~= before_opnds + copnds);
                lemma_concat_to_set(before_ops, cops);
                lemma_concat_to_set(before_opnds, copnds);
                assert(state.operator_set() =~= start_ops.union((before_ops + cops).to_set()));
                assert(state.operand_set() =~= start_opnds.union((before_opnds + copnds).to_set()));
            }
        } else {
            proof {
                assert(head_ops + operator_seq_upto(*node, ok, fk, i + 1) =~= before_ops);
                assert(head_opnds + operand_seq_upto(*node, src, ok, pk, fk, i + 1) =~= before_opnds);
            }
        }
        i += 1;
    }
    proof {
        assert(total_ops == operator_seq(*node, ok, fk));
    }
}

} // verus!
