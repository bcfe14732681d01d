//! Clone detection over the normalized token sequences of function bodies:
//! which functions take part, which pairs are compared, and the shingle
//! sets whose overlap measures similarity (the similarity itself, a ratio,
//! and its threshold are computed by the caller).

use vstd::prelude::*;
use crate::cognitive::texts;
use crate::text::text_eq;
use crate::{path_buf_content, FileResult, FunctionComplexity};

verus! {

broadcast use vstd::seq_lib::group_seq_properties;

/// Number of tokens per shingle.
pub const SHINGLE_SIZE: usize = 5;

/// The token texts of each shingle of a list.
pub open spec fn shingle_texts(v: Seq<Vec<String>>) -> Seq<Seq<Seq<char>>> {
    v.map_values(|w: Vec<String>| texts(w@))
}

/// The shingles of a token sequence: its windows of `SHINGLE_SIZE`
/// consecutive tokens, or the whole sequence when it is shorter than that.
pub open spec fn shingle_set(s: Seq<Seq<char>>) -> Set<Seq<Seq<char>>> {
    if s.len() < SHINGLE_SIZE {
        Set::empty().insert(s)
    } else {
        Set::new(|w: Seq<Seq<char>>| exists|i: int| 0 <= i <= s.len() - SHINGLE_SIZE && w == #[trigger] s.subrange(i, i + SHINGLE_SIZE))
    }
}

/// The windows of `SHINGLE_SIZE` tokens of `s` that start before `k`.
pub open spec fn windows_before(s: Seq<Seq<char>>, k: int) -> Set<Seq<Seq<char>>> {
    Set::new(|w: Seq<Seq<char>>| exists|i: int| 0 <= i < k && i <= s.len() - SHINGLE_SIZE && w == #[trigger] s.subrange(i, i + SHINGLE_SIZE))
}

/// Copies of the tokens `from..to` of `tokens`.
fn copy_tokens(tokens: &[String], from: usize, to: usize) -> (r: Vec<String>)
    requires
        from <= to <= tokens@.len(),
    ensures
        texts(r@) == texts(tokens@).subrange(from as int, to as int),
{
    let mut r: Vec<String> = Vec::new();
    let mut i = from;
    while i < to
        invariant
            from <= i <= to,
            to <= tokens@.len(),
            texts(r@) == texts(tokens@).subrange(from as int, i as int),
        decreases to - i,
    {
        let ghost before = r@;
        let t = tokens[i].clone();
        assert(t@ == tokens@[i as int]@);
        r.push(t);
        assert(r@ == before.push(t));
        assert(texts(r@) =~= texts(before).push(t@));
        assert(texts(tokens@).subrange(from as int, i + 1) =~= texts(tokens@).subrange(from as int, i as int).push(t@));
        i += 1;
    }
    r
}

/// Whether two token lists hold the same texts.
fn same_tokens(a: &Vec<String>, b: &Vec<String>) -> (r: bool)
    ensures
        r == (texts(a@) == texts(b@)),
{
    if a.len() != b.len() {
        proof {
            assert(texts(a@).len() != texts(b@).len());
        }
        return false;
    }
    let mut i: usize = 0;
    while i < a.len()
        invariant
            i <= a@.len(),
            a@.len() == b@.len(),
            forall|j: int| 0 <= j < i ==> a@[j]@ == b@[j]@,
        decreases a@.len() - i,
    {
        if a[i] != b[i] {
            proof {
                assert(texts(a@)[i as int] != texts(b@)[i as int]);
            }
            return false;
        }
        i += 1;
    }
    assert(texts(a@) =~= texts(b@));
    true
}

/// Whether one of the shingles of `v` holds the texts of `w`.
fn holds_shingle(v: &Vec<Vec<String>>, w: &Vec<String>) -> (r: bool)
    ensures
        r == shingle_texts(v@).contains(texts(w@)),
{
    let mut i: usize = 0;
    while i < v.len()
        invariant
            i <= v@.len(),
            forall|j: int| 0 <= j < i ==> texts(v@[j]@) != texts(w@),
        decreases v@.len() - i,
    {
        if same_tokens(&v[i], w) {
            assert(shingle_texts(v@)[i as int] == texts(w@));
            return true;
        }
        i += 1;
    }
    assert(!shingle_texts(v@).contains(texts(w@))) by {
        if shingle_texts(v@).contains(texts(w@)) {
            let j = choose|j: int| 0 <= j < shingle_texts(v@).len() && shingle_texts(v@)[j] == texts(w@);
            assert(texts(v@[j]@) == texts(w@));
        }
    }
    false
}

/// The distinct shingles of `tokens` (see `shingle_set`), each once.
pub fn shingles(tokens: &[String]) -> (r: Vec<Vec<String>>)
    ensures
        shingle_texts(r@).no_duplicates(),
        shingle_texts(r@).to_set() == shingle_set(texts(tokens@)),
        r@.len() <= tokens@.len() || r@.len() == 1,
{
    let ghost s = texts(tokens@);
    let mut r: Vec<Vec<String>> = Vec::new();
    if tokens.len() < SHINGLE_SIZE {
        let all = copy_tokens(tokens, 0, tokens.len());
        r.push(all);
        proof {
            assert(s.subrange(0, s.len() as int) =~= s);
            assert(shingle_texts(r@) =~= seq![s]);
            assert(shingle_texts(r@).to_set() =~= shingle_set(s)) by {
                assert(shingle_texts(r@)[0] == s);
            }
        }
        return r;
    }
    let len = tokens.len();
    let last = len - SHINGLE_SIZE;
    let mut i: usize = 0;
    assert(shingle_texts(r@).to_set() =~= windows_before(s, 0));
    while i <= last
        invariant
            last == tokens@.len() - SHINGLE_SIZE,
            len == tokens@.len(),
            i <= last + 1,
            s == texts(tokens@),
            shingle_texts(r@).no_duplicates(),
            shingle_texts(r@).to_set() == windows_before(s, i as int),
            r@.len() <= i,
        decreases last + 1 - i,
    {
        let w = copy_tokens(tokens, i, i + SHINGLE_SIZE);
        let ghost before = shingle_texts(r@);
        if !holds_shingle(&r, &w) {
            r.push(w);
            proof {
                assert(shingle_texts(r@) =~= before.push(texts(w@)));
                assert forall|a: int, b: int|
                    0 <= a < shingle_texts(r@).len() && 0 <= b < shingle_texts(r@).len() && a != b implies
                    shingle_texts(r@)[a] != shingle_texts(r@)[b] by {
                    if a < before.len() && b < before.len() {
                    } else if a == before.len() {
                        assert(before[b] == shingle_texts(r@)[b]);
                    } else {
                        assert(before[a] == shingle_texts(r@)[a]);
                    }
                }
            }
        }
        proof {
            assert forall|x: Seq<Seq<char>>| #[trigger] shingle_texts(r@).to_set().contains(x) <==> windows_before(s, i + 1).contains(x) by {
                if windows_before(s, i + 1).contains(x) {
                    let k = choose|k: int| 0 <= k < i + 1 && k <= s.len() - SHINGLE_SIZE && x == #[trigger] s.subrange(k, k + SHINGLE_SIZE);
                    if k < i {
                        assert(windows_before(s, i as int).contains(x));
                        assert(before.contains(x));
                        let m = choose|m: int| 0 <= m < before.len() && before[m] == x;
                        assert(shingle_texts(r@)[m] == x);
                    } else {
                        assert(x == texts(w@));
                        if before.contains(x) {
                            let m = choose|m: int| 0 <= m < before.len() && before[m] == x;
                            assert(shingle_texts(r@)[m] == x);
                        } else {
                            assert(shingle_texts(r@)[before.len() as int] == x);
                        }
                    }
                }
                if shingle_texts(r@).to_set().contains(x) {
                    let m = choose|m: int| 0 <= m < shingle_texts(r@).len() && shingle_texts(r@)[m] == x;
                    if m < before.len() {
                        assert(before[m] == x);
                        assert(before.to_set().contains(x));
                    } else {
                        assert(x == s.subrange(i as int, i + SHINGLE_SIZE));
                    }
                }
            }
            assert(shingle_texts(r@).to_set() =~= windows_before(s, i + 1));
        }
        i += 1;
    }
    assert(windows_before(s, i as int) =~= shingle_set(s));
    r
}

/// The sizes of the intersection and of the union of the shingle sets of
/// `a` and `b`; the Jaccard similarity of the two sequences is their ratio.
pub fn jaccard_counts(a: &[String], b: &[String]) -> (r: (usize, usize))
    requires
        a@.len() + b@.len() + 2 <= usize::MAX,
    ensures
        r.0 == shingle_set(texts(a@)).intersect(shingle_set(texts(b@))).len(),
        r.1 == shingle_set(texts(a@)).union(shingle_set(texts(b@))).len(),
{
    let sa = shingles(a);
    let sb = shingles(b);
    let ghost xa = shingle_texts(sa@);
    let ghost setb = shingle_texts(sb@).to_set();
    proof {
        shingle_texts(sb@).unique_seq_to_set();
        assert(xa.take(0).to_set() =~= Set::empty());
        assert(Set::<Seq<Seq<char>>>::empty().intersect(setb) =~= Set::empty());
        assert(Set::<Seq<Seq<char>>>::empty().union(setb) =~= setb);
    }
    let mut shared: usize = 0;
    let mut combined: usize = sb.len();
    let mut i: usize = 0;
    while i < sa.len()
        invariant
            i <= sa@.len(),
            xa == shingle_texts(sa@),
            xa.no_duplicates(),
            setb == shingle_texts(sb@).to_set(),
            setb.finite(),
            shared == xa.take(i as int).to_set().intersect(setb).len(),
            combined == xa.take(i as int).to_set().union(setb).len(),
            shared <= i,
            combined <= i + sb@.len(),
            sa@.len() + sb@.len() <= usize::MAX,
        decreases sa@.len() - i,
    {
        let ghost prefix = xa.take(i as int).to_set();
        let ghost x = xa[i as int];
        proof {
            assert(xa.take(i + 1) =~= xa.take(i as int).push(x));
            lemma_push_to_set(xa.take(i as int), x);
            assert(!prefix.contains(x)) by {
                if prefix.contains(x) {
                    let k = choose|k: int| 0 <= k < i && xa.take(i as int)[k] == x;
                    assert(xa[k] == xa[i as int]);
                }
            }
        }
        if holds_shingle(&sb, &sa[i]) {
            proof {
                assert(prefix.insert(x).intersect(setb) =~= prefix.intersect(setb).insert(x));
                assert(prefix.insert(x).union(setb) =~= prefix.union(setb));
            }
            shared = shared + 1;
        } else {
            proof {
                assert(prefix.insert(x).intersect(setb) =~= prefix.intersect(setb));
                assert(prefix.insert(x).union(setb) =~= prefix.union(setb).insert(x));
            }
            combined = combined + 1;
        }
        i += 1;
    }
    assert(xa.take(sa@.len() as int) =~= xa);
    (shared, combined)
}

/// The elements of `s.push(x)` are those of `s` and `x`.
pub proof fn lemma_push_to_set<A>(s: Seq<A>, x: A)
    ensures
        s.push(x).to_set() == s.to_set().insert(x),
{
    assert forall|y: A| #[trigger] s.push(x).to_set().contains(y) <==> s.to_set().insert(x).contains(y) by {
        if s.contains(y) {
            let k = choose|k: int| 0 <= k < s.len() && s[k] == y;
            assert(s.push(x)[k] == y);
        }
        if y == x {
            assert(s.push(x)[s.len() as int] == x);
        }
        if s.push(x).contains(y) {
            let k = choose|k: int| 0 <= k < s.push(x).len() && s.push(x)[k] == y;
            if k < s.len() {
                assert(s[k] == y);
            }
        }
    }
    assert(s.push(x).to_set() =~= s.to_set().insert(x));
}

/// A function takes part in clone detection when it spans at least
/// `min_lines` lines and has a token sequence.
pub open spec fn eligible(f: FunctionComplexity, min_lines: usize) -> bool {
    f.lines >= min_lines && f.clone_tokens@.len() > 0
}

/// The eligible functions among the first `j` of `fs`, as (file, function)
/// index pairs, `file` being the index of the file that holds `fs`.
pub open spec fn candidates_in(fs: Seq<FunctionComplexity>, file: int, min_lines: usize, j: int) -> Seq<(usize, usize)>
    decreases j,
{
    if j <= 0 || j > fs.len() {
        seq![]
    } else {
        candidates_in(fs, file, min_lines, j - 1) + if eligible(fs[j - 1], min_lines) {
            seq![(file as usize, (j - 1) as usize)]
        } else {
            seq![]
        }
    }
}

/// The eligible functions of the first `k` files of `rs`, in order.
pub open spec fn candidates_upto(rs: Seq<FileResult>, min_lines: usize, k: int) -> Seq<(usize, usize)>
    decreases k,
{
    if k <= 0 || k > rs.len() {
        seq![]
    } else {
        candidates_upto(rs, min_lines, k - 1) + candidates_in(rs[k - 1].functions@, k - 1, min_lines, rs[k - 1].functions@.len() as int)
    }
}

/// Each pair names a function of `rs`.
pub open spec fn indexes_functions(rs: Seq<FileResult>, c: Seq<(usize, usize)>) -> bool {
    forall|k: int| 0 <= k < c.len() ==> (#[trigger] c[k]).0 < rs.len() && c[k].1 < rs[c[k].0 as int].functions@.len()
}

/// The functions of `results` that take part in clone detection (see
/// `eligible`), as (file, function) index pairs in file and function order.
pub fn clone_candidates(results: &[FileResult], min_lines: usize) -> (r: Vec<(usize, usize)>)
    ensures
        r@ == candidates_upto(results@, min_lines, results@.len() as int),
        indexes_functions(results@, r@),
{
    let mut r: Vec<(usize, usize)> = Vec::new();
    let mut k: usize = 0;
    while k < results.len()
        invariant
            k <= results@.len(),
            r@ == candidates_upto(results@, min_lines, k as int),
            indexes_functions(results@, r@),
        decreases results@.len() - k,
    {
        let fs = &results[k].functions;
        let ghost start = r@;
        let mut j: usize = 0;
        while j < fs.len()
            invariant
                k < results@.len(),
                *fs == results@[k as int].functions,
                j <= fs@.len(),
                r@ == start + candidates_in(fs@, k as int, min_lines, j as int),
                indexes_functions(results@, r@),
            decreases fs@.len() - j,
        {
            if fs[j].lines >= min_lines && fs[j].clone_tokens.len() > 0 {
                r.push((k, j));
            }
            assert(r@ =~= start + candidates_in(fs@, k as int, min_lines, j + 1));
            j += 1;
        }
        assert(r@ =~= candidates_upto(results@, min_lines, k + 1));
        k += 1;
    }
    r
}

/// Candidates `i` and `j` belong to files of the same language.
pub open spec fn same_language(rs: Seq<FileResult>, c: Seq<(usize, usize)>, i: int, j: int) -> bool {
    rs[c[i].0 as int].language@ == rs[c[j].0 as int].language@
}

/// The pairs `(i, j)` with `i < j < k` whose candidates share a language, by `j`.
pub open spec fn pair_row(rs: Seq<FileResult>, c: Seq<(usize, usize)>, i: int, k: int) -> Seq<(usize, usize)>
    decreases k,
{
    if i < 0 || k <= i + 1 || k > c.len() {
        seq![]
    } else {
        pair_row(rs, c, i, k - 1) + if same_language(rs, c, i, k - 1) {
            seq![(i as usize, (k - 1) as usize)]
        } else {
            seq![]
        }
    }
}

/// The pairs of candidates that share a language, first index below `i`,
/// in lexicographic order.
pub open spec fn pairs_upto(rs: Seq<FileResult>, c: Seq<(usize, usize)>, i: int) -> Seq<(usize, usize)>
    decreases i,
{
    if i <= 0 || i > c.len() {
        seq![]
    } else {
        pairs_upto(rs, c, i - 1) + pair_row(rs, c, i - 1, c.len() as int)
    }
}

/// The pairs `(i, j)`, `i < j`, of indexes into `candidates` whose
/// functions lie in files of the same language, in lexicographic order:
/// the pairs that clone detection compares (no pair crosses languages).
pub fn comparison_pairs(results: &[FileResult], candidates: &[(usize, usize)]) -> (r: Vec<(usize, usize)>)
    requires
        indexes_functions(results@, candidates@),
    ensures
        r@ == pairs_upto(results@, candidates@, candidates@.len() as int),
{
    let mut r: Vec<(usize, usize)> = Vec::new();
    let mut i: usize = 0;
    while i < candidates.len()
        invariant
            i <= candidates@.len(),
            indexes_functions(results@, candidates@),
            r@ == pairs_upto(results@, candidates@, i as int),
        decreases candidates@.len() - i,
    {
        let ghost start = r@;
        let mut j: usize = i + 1;
        assert(r@ =~= start + pair_row(results@, candidates@, i as int, j as int));
        while j < candidates.len()
            invariant
                i < j <= candidates@.len(),
                indexes_functions(results@, candidates@),
                r@ == start + pair_row(results@, candidates@, i as int, j as int),
            decreases candidates@.len() - j,
        {
            let a = candidates[i].0;
            let b = candidates[j].0;
            proof {
                assert(candidates@[i as int].0 < results@.len());
                assert(candidates@[j as int].0 < results@.len());
            }
            if text_eq(results[a].language, results[b].language) {
                r.push((i, j));
            }
            assert(r@ =~= start + pair_row(results@, candidates@, i as int, j + 1));
            j += 1;
        }
        assert(r@ =~= pairs_upto(results@, candidates@, i + 1));
        i += 1;
    }
    r
}

/// One function of a clone pair.
pub struct ClonePairSide {
    pub path: std::path::PathBuf,
    pub name: String,
    pub line_start: usize,
    pub line_end: usize,
}

/// A copy of `path` (`PathBuf::clone`): it holds what `path` holds.
#[verifier::external_body]
fn copy_path(path: &std::path::PathBuf) -> (r: std::path::PathBuf)
    ensures
        path_buf_content(&r) == path_buf_content(path),
{
    path.clone()
}

/// The side of a clone pair that function `func` of `file` forms.
pub fn side(file: &FileResult, func: &FunctionComplexity) -> (r: ClonePairSide)
    ensures
        path_buf_content(&r.path) == path_buf_content(&file.path),
        r.name@ == func.name@,
        r.line_start == func.line_start,
        r.line_end == func.line_end,
{
    ClonePairSide {
        path: copy_path(&file.path),
        name: func.name.clone(),
        line_start: func.line_start,
        line_end: func.line_end,
    }
}

/// Similarity is symmetric: the shingle sets of `a` and `b` overlap and
/// combine as those of `b` and `a` do.
pub proof fn lemma_similarity_symmetric(a: Seq<Seq<char>>, b: Seq<Seq<char>>)
    ensures
        shingle_set(a).intersect(shingle_set(b)) == shingle_set(b).intersect(shingle_set(a)),
        shingle_set(a).union(shingle_set(b)) == shingle_set(b).union(shingle_set(a)),
{
    assert(shingle_set(a).intersect(shingle_set(b)) =~= shingle_set(b).intersect(shingle_set(a)));
    assert(shingle_set(a).union(shingle_set(b)) =~= shingle_set(b).union(shingle_set(a)));
}

/// A token sequence is fully similar to itself: its shingle set is not
/// empty, and overlapping it with itself gives all of it.
pub proof fn lemma_self_similarity(a: Seq<Seq<char>>)
    ensures
        shingle_set(a).len() >= 1,
        shingle_set(a).intersect(shingle_set(a)) == shingle_set(a).union(shingle_set(a)),
{
    assert(shingle_set(a).intersect(shingle_set(a)) =~= shingle_set(a).union(shingle_set(a)));
    if a.len() >= SHINGLE_SIZE {
        let i: int = 0;
        let w = a.subrange(i, i + SHINGLE_SIZE);
        assert(shingle_set(a).contains(w));
        lemma_shingle_set_finite(a);
        vstd::set_lib::lemma_set_empty_equivalency_len(shingle_set(a));
        if shingle_set(a).len() == 0 {
            assert(!Set::<Seq<Seq<char>>>::empty().contains(w));
        }
    } else {
        assert(shingle_set(a).contains(a));
        assert(shingle_set(a) =~= Set::empty().insert(a));
    }
}

/// The shingle set of a sequence is finite.
pub proof fn lemma_shingle_set_finite(a: Seq<Seq<char>>)
    ensures
        shingle_set(a).finite(),
{
    if a.len() >= SHINGLE_SIZE {
        let n = (a.len() - SHINGLE_SIZE + 1) as nat;
        let starts = vstd::set_lib::set_int_range(0, n as int);
        vstd::set_lib::lemma_int_range(0, n as int);
        let f = |i: int| a.subrange(i, i + SHINGLE_SIZE);
        starts.lemma_map_finite(f);
        assert(shingle_set(a) =~= starts.map(f)) by {
            assert forall|w: Seq<Seq<char>>| shingle_set(a).contains(w) implies starts.map(f).contains(w) by {
                let i = choose|i: int| 0 <= i <= a.len() - SHINGLE_SIZE && w == #[trigger] a.subrange(i, i + SHINGLE_SIZE);
                assert(starts.contains(i) && f(i) == w);
            }
        }
    }
}

/// Every clone candidate is a function of at least `min_lines` lines with a
/// token sequence.
pub proof fn lemma_candidates_eligible(rs: Seq<FileResult>, min_lines: usize, k: int)
    requires
        0 <= k <= rs.len() <= usize::MAX,
    ensures
        forall|q: int|
            0 <= q < candidates_upto(rs, min_lines, k).len() ==> {
                let c = #[trigger] candidates_upto(rs, min_lines, k)[q];
                &&& c.0 < k
                &&& c.1 < rs[c.0 as int].functions@.len()
                &&& eligible(rs[c.0 as int].functions@[c.1 as int], min_lines)
            },
    decreases k,
{
    if k > 0 {
        lemma_candidates_eligible(rs, min_lines, k - 1);
        let fs = rs[k - 1].functions@;
        assert(fs.len() == rs[k - 1].functions.len());
        lemma_candidates_in_eligible(fs, k - 1, min_lines, fs.len() as int);
        let a = candidates_upto(rs, min_lines, k - 1);
        let b = candidates_in(fs, k - 1, min_lines, fs.len() as int);
        assert forall|q: int| 0 <= q < (a + b).len() implies {
            let c = #[trigger] (a + b)[q];
            &&& c.0 < k
            &&& c.1 < rs[c.0 as int].functions@.len()
            &&& eligible(rs[c.0 as int].functions@[c.1 as int], min_lines)
        } by {
            if q >= a.len() {
                assert((a + b)[q] == b[q - a.len()]);
            } else {
                assert((a + b)[q] == a[q]);
            }
        }
    }
}

proof fn lemma_candidates_in_eligible(fs: Seq<FunctionComplexity>, file: int, min_lines: usize, j: int)
    requires
        0 <= file <= usize::MAX,
        0 <= j <= fs.len() <= usize::MAX,
    ensures
        forall|q: int|
            0 <= q < candidates_in(fs, file, min_lines, j).len() ==> {
                let c = #[trigger] candidates_in(fs, file, min_lines, j)[q];
                &&& c.0 == file
                &&& c.1 < j
                &&& eligible(fs[c.1 as int], min_lines)
            },
    decreases j,
{
    if j > 0 {
        lemma_candidates_in_eligible(fs, file, min_lines, j - 1);
        let a = candidates_in(fs, file, min_lines, j - 1);
        let b: Seq<(usize, usize)> = if eligible(fs[j - 1], min_lines) {
            seq![(file as usize, (j - 1) as usize)]
        } else {
            seq![]
        };
        assert(candidates_in(fs, file, min_lines, j) == a + b);
        assert forall|q: int| 0 <= q < (a + b).len() implies {
            let c = #[trigger] (a + b)[q];
            &&& c.0 == file
            &&& c.1 < j
            &&& eligible(fs[c.1 as int], min_lines)
        } by {
            if q >= a.len() {
                assert((a + b)[q] == b[q - a.len()]);
            } else {
                assert((a + b)[q] == a[q]);
            }
        }
    }
}

/// Every compared pair joins an earlier candidate to a later one of the
/// same language.
pub proof fn lemma_pairs_same_language(rs: Seq<FileResult>, c: Seq<(usize, usize)>, i: int)
    requires
        0 <= i <= c.len() <= usize::MAX,
    ensures
        forall|q: int|
            0 <= q < pairs_upto(rs, c, i).len() ==> {
                let p = #[trigger] pairs_upto(rs, c, i)[q];
                &&& p.0 < p.1 < c.len()
                &&& same_language(rs, c, p.0 as int, p.1 as int)
            },
    decreases i,
{
    if i > 0 {
        lemma_pairs_same_language(rs, c, i - 1);
        lemma_row_same_language(rs, c, i - 1, c.len() as int);
        let a = pairs_upto(rs, c, i - 1);
        let b = pair_row(rs, c, i - 1, c.len() as int);
        assert forall|q: int| 0 <= q < (a + b).len() implies {
            let p = #[trigger] (a + b)[q];
            &&& p.0 < p.1 < c.len()
            &&& same_language(rs, c, p.0 as int, p.1 as int)
        } by {
            if q >= a.len() {
                assert((a + b)[q] == b[q - a.len()]);
            } else {
                assert((a + b)[q] == a[q]);
            }
        }
    }
}

proof fn lemma_row_same_language(rs: Seq<FileResult>, c: Seq<(usize, usize)>, i: int, k: int)
    requires
        0 <= i,
        k <= c.len() <= usize::MAX,
    ensures
        forall|q: int|
            0 <= q < pair_row(rs, c, i, k).len() ==> {
                let p = #[trigger] pair_row(rs, c, i, k)[q];
                &&& p.0 == i
                &&& i < p.1 < k
                &&& same_language(rs, c, p.0 as int, p.1 as int)
            },
    decreases k,
{
    if i + 1 < k {
        lemma_row_same_language(rs, c, i, k - 1);
        let a = pair_row(rs, c, i, k - 1);
        let b: Seq<(usize, usize)> = if same_language(rs, c, i, k - 1) {
            seq![(i as usize, (k - 1) as usize)]
        } else {
            seq![]
        };
        assert(pair_row(rs, c, i, k) == a + b);
        assert forall|q: int| 0 <= q < (a + b).len() implies {
            let p = #[trigger] (a + b)[q];
            &&& p.0 == i
            &&& i < p.1 < k
            &&& same_language(rs, c, p.0 as int, p.1 as int)
        } by {
            if q >= a.len() {
                assert((a + b)[q] == b[q - a.len()]);
            } else {
                assert((a + b)[q] == a[q]);
            }
        }
    }
}

/// What orders one reported clone pair: its similarity as a key that orders
/// as the similarity does, the rank of the path of its first function, and
/// that function's first line.
pub struct PairKey {
    pub similarity: u64,
    pub path_rank: u64,
    pub line_start: usize,
}

/// Pair `a` is reported before pair `b`: higher similarity first, then by
/// path, then by line, then in the order found.
pub open spec fn pair_before(k: Seq<PairKey>, a: int, b: int) -> bool {
    ||| k[a].similarity > k[b].similarity
    ||| (k[a].similarity == k[b].similarity && k[a].path_rank < k[b].path_rank)
    ||| (k[a].similarity == k[b].similarity && k[a].path_rank == k[b].path_rank && k[a].line_start
        < k[b].line_start)
    ||| (k[a].similarity == k[b].similarity && k[a].path_rank == k[b].path_rank && k[a].line_start
        == k[b].line_start && a < b)
}

fn pair_comes_before(keys: &[PairKey], a: usize, b: usize) -> (r: bool)
    requires
        a < keys@.len(),
        b < keys@.len(),
    ensures
        r == pair_before(keys@, a as int, b as int),
{
    let ka = &keys[a];
    let kb = &keys[b];
    if ka.similarity != kb.similarity {
        ka.similarity > kb.similarity
    } else if ka.path_rank != kb.path_rank {
        ka.path_rank < kb.path_rank
    } else if ka.line_start != kb.line_start {
        ka.line_start < kb.line_start
    } else {
        a < b
    }
}

/// The order in which the pairs with keys `keys` are reported: each index
/// once, every pair before the pairs it comes before.
pub fn order_clone_pairs(keys: &[PairKey]) -> (r: Vec<usize>)
    ensures
        r@.len() == keys@.len(),
        forall|q: int| 0 <= q < r@.len() ==> #[trigger] r@[q] < keys@.len(),
        forall|x: int| 0 <= x < keys@.len() ==> #[trigger] r@.contains(x as usize),
        forall|p: int, q: int| 0 <= p < q < r@.len() ==> pair_before(keys@, #[trigger] r@[p] as int, #[trigger] r@[q] as int),
{
    let mut order: Vec<usize> = Vec::new();
    let mut k: usize = 0;
    while k < keys.len()
        invariant
            k <= keys@.len(),
            order@.len() == k,
            forall|q: int| 0 <= q < order@.len() ==> #[trigger] order@[q] < k,
            forall|x: int| 0 <= x < k ==> #[trigger] order@.contains(x as usize),
            forall|p: int, q: int| 0 <= p < q < order@.len() ==> pair_before(keys@, #[trigger] order@[p] as int, #[trigger] order@[q] as int),
        decreases keys@.len() - k,
    {
        let mut p: usize = 0;
        while p < order.len() && pair_comes_before(keys, order[p], k)
            invariant
                p <= order@.len(),
                k < keys@.len(),
                forall|q: int| 0 <= q < order@.len() ==> #[trigger] order@[q] < k,
                forall|q: int| 0 <= q < p ==> pair_before(keys@, #[trigger] order@[q] as int, k as int),
            decreases order@.len() - p,
        {
            p += 1;
        }
        let ghost old_o = order@;
        proof {
            if p < old_o.len() {
                assert forall|q: int| p <= q < old_o.len() implies pair_before(keys@, k as int, #[trigger] old_o[q] as int) by {
                    if q > p {
                        assert(pair_before(keys@, old_o[p as int] as int, old_o[q] as int));
                    }
                }
            }
        }
        order.insert(p, k);
        proof {
            let o = order@;
            assert forall|a: int, b: int| 0 <= a < b < o.len() implies pair_before(keys@, #[trigger] o[a] as int, #[trigger] o[b] as int) by {
                if b < p {
                    assert(o[a] == old_o[a] && o[b] == old_o[b]);
                } else if b == p {
                    assert(o[a] == old_o[a]);
                } else if a < p {
                    assert(o[a] == old_o[a] && o[b] == old_o[b - 1]);
                } else if a == p {
                    assert(o[b] == old_o[b - 1]);
                } else {
                    assert(o[a] == old_o[a - 1] && o[b] == old_o[b - 1]);
                }
            }
            assert forall|x: int| 0 <= x < k + 1 implies #[trigger] o.contains(x as usize) by {
                crate::duplicates::lemma_insert_contains(old_o, p as int, k, x as usize);
            }
            assert forall|q: int| 0 <= q < o.len() implies #[trigger] o[q] < k + 1 by {
                if q < p {
                    assert(o[q] == old_o[q]);
                } else if q > p {
                    assert(o[q] == old_o[q - 1]);
                }
            }
        }
        k += 1;
    }
    order
}

/// Every two candidates whose files have the same language are compared,
/// the earlier one first, whichever files they come from (the same file
/// included).
pub proof fn lemma_same_language_pairs_compared(rs: Seq<FileResult>, c: Seq<(usize, usize)>, i: int, j: int)
    requires
        0 <= i < j < c.len() <= usize::MAX,
        rs[c[i].0 as int].language@ == rs[c[j].0 as int].language@,
    ensures
        pairs_upto(rs, c, c.len() as int).contains((i as usize, j as usize)),
{
    lemma_row_holds(rs, c, i, j, c.len() as int);
    lemma_pairs_hold(rs, c, i, j, c.len() as int);
}

proof fn lemma_row_holds(rs: Seq<FileResult>, c: Seq<(usize, usize)>, i: int, j: int, k: int)
    requires
        0 <= i < j < k <= c.len() <= usize::MAX,
        rs[c[i].0 as int].language@ == rs[c[j].0 as int].language@,
    ensures
        pair_row(rs, c, i, k).contains((i as usize, j as usize)),
    decreases k,
{
    let a = pair_row(rs, c, i, k - 1);
    let b: Seq<(usize, usize)> = if same_language(rs, c, i, k - 1) {
        seq![(i as usize, (k - 1) as usize)]
    } else {
        seq![]
    };
    assert(pair_row(rs, c, i, k) == a + b);
    if j < k - 1 {
        lemma_row_holds(rs, c, i, j, k - 1);
        let q = choose|q: int| 0 <= q < a.len() && a[q] == (i as usize, j as usize);
        assert((a + b)[q] == a[q]);
    } else {
        assert((a + b)[a.len() as int] == b[0]);
    }
}

proof fn lemma_pairs_hold(rs: Seq<FileResult>, c: Seq<(usize, usize)>, i: int, j: int, m: int)
    requires
        0 <= i < m <= c.len() <= usize::MAX,
        pair_row(rs, c, i, c.len() as int).contains((i as usize, j as usize)),
    ensures
        pairs_upto(rs, c, m).contains((i as usize, j as usize)),
    decreases m,
{
    let a = pairs_upto(rs, c, m - 1);
    let b = pair_row(rs, c, m - 1, c.len() as int);
    assert(pairs_upto(rs, c, m) == a + b);
    if i < m - 1 {
        lemma_pairs_hold(rs, c, i, j, m - 1);
        let q = choose|q: int| 0 <= q < a.len() && a[q] == (i as usize, j as usize);
        assert((a + b)[q] == a[q]);
    } else {
        let q = choose|q: int| 0 <= q < b.len() && b[q] == (i as usize, j as usize);
        assert((a + b)[a.len() + q] == b[q]);
    }
}

} // verus!
