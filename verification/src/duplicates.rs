//! Structural duplication candidates: functions that share a name and have
//! identical metrics in every place they occur.

use vstd::prelude::*;
use vstd::utf8::*;
use crate::text::{text_eq, utf8_bytes};

verus! {

broadcast use group_utf8_lib;

/// `a` comes strictly before `b` in lexicographic byte order (the order of
/// `String`).
pub open spec fn bytes_before(a: Seq<u8>, b: Seq<u8>) -> bool
    decreases a.len(),
{
    if a.len() == 0 {
        b.len() > 0
    } else if b.len() == 0 {
        false
    } else if a[0] != b[0] {
        a[0] < b[0]
    } else {
        bytes_before(a.drop_first(), b.drop_first())
    }
}

/// Whether `a` comes strictly before `b` in the byte order of strings.
pub fn text_before(a: &str, b: &str) -> (r: bool)
    ensures
        r == bytes_before(utf8_bytes(a@), utf8_bytes(b@)),
{
    let x = a.as_bytes();
    let y = b.as_bytes();
    let mut i: usize = 0;
    assert(x@.skip(0) =~= x@);
    assert(y@.skip(0) =~= y@);
    while i < x.len() && i < y.len()
        invariant
            x@ == utf8_bytes(a@),
            y@ == utf8_bytes(b@),
            i <= x@.len(),
            i <= y@.len(),
            forall|j: int| 0 <= j < i ==> x@[j] == y@[j],
            bytes_before(x@, y@) == bytes_before(x@.skip(i as int), y@.skip(i as int)),
        decreases x@.len() - i,
    {
        if x[i] != y[i] {
            assert(x@.skip(i as int)[0] == x@[i as int]);
            assert(y@.skip(i as int)[0] == y@[i as int]);
            return x[i] < y[i];
        }
        assert(x@.skip(i as int).drop_first() =~= x@.skip(i + 1));
        assert(y@.skip(i as int).drop_first() =~= y@.skip(i + 1));
        i += 1;
    }
    assert(x@.skip(i as int).len() == 0 || y@.skip(i as int).len() == 0);
    i < y.len()
}



/// One function, as duplicate detection sees it: its name, a rank that orders
/// the path of its file, and the metrics that must agree between copies. A
/// Halstead key is `None` where the measure has no value that equals itself.
pub struct DuplicateCandidate {
    pub name: String,
    pub path_rank: u64,
    pub lines: usize,
    pub complexity: u32,
    pub nesting_depth: u32,
    pub volume_key: Option<u64>,
    pub difficulty_key: Option<u64>,
}

/// A set of same-named functions with identical metrics: `instances` are
/// indexes into the candidates, ordered by path.
pub struct DuplicateCluster {
    pub name: String,
    pub instances: Vec<usize>,
}

/// Two candidates agree on every compared metric.
pub open spec fn same_metrics(a: DuplicateCandidate, b: DuplicateCandidate) -> bool {
    &&& a.lines == b.lines
    &&& a.complexity == b.complexity
    &&& a.nesting_depth == b.nesting_depth
    &&& a.volume_key is Some && a.volume_key == b.volume_key
    &&& a.difficulty_key is Some && a.difficulty_key == b.difficulty_key
}

/// Candidate `x` exists and is named `name`.
pub open spec fn named_at(c: Seq<DuplicateCandidate>, x: int, name: Seq<char>) -> bool {
    0 <= x < c.len() && c[x].name@ == name
}

/// At least two candidates are named `name`, and all of them share their metrics.
pub open spec fn qualifies(c: Seq<DuplicateCandidate>, name: Seq<char>) -> bool {
    &&& exists|x: int, y: int| x < y && #[trigger] named_at(c, x, name) && #[trigger] named_at(c, y, name)
    &&& forall|x: int, y: int|
        #[trigger] named_at(c, x, name) && #[trigger] named_at(c, y, name) ==> same_metrics(c[x], c[y])
}

/// Candidate `a` sorts before candidate `b`: lower path rank, then lower index.
pub open spec fn path_key_before(c: Seq<DuplicateCandidate>, a: int, b: int) -> bool {
    c[a].path_rank < c[b].path_rank || (c[a].path_rank == c[b].path_rank && a < b)
}

/// The indexes `m` are strictly increasing in path order.
pub open spec fn ordered_by_path(c: Seq<DuplicateCandidate>, m: Seq<usize>) -> bool {
    forall|p: int, q: int|
        0 <= p < q < m.len() ==> path_key_before(c, #[trigger] m[p] as int, #[trigger] m[q] as int)
}

/// `cl` is the cluster of its name: the name qualifies, and the instances are
/// exactly the candidates of that name, in path order.
pub open spec fn cluster_ok(c: Seq<DuplicateCandidate>, cl: DuplicateCluster) -> bool {
    &&& qualifies(c, cl.name@)
    &&& forall|q: int| 0 <= q < cl.instances@.len() ==> #[trigger] cl.instances@[q] < c.len()
    &&& forall|x: int| 0 <= x < c.len() ==> (c[x].name@ == cl.name@ <==> #[trigger] cl.instances@.contains(x as usize))
    &&& ordered_by_path(c, cl.instances@)
}

/// Cluster `a` is listed before cluster `b`: more instances first, then by name.
pub open spec fn cluster_before(a: DuplicateCluster, b: DuplicateCluster) -> bool {
    ||| a.instances@.len() > b.instances@.len()
    ||| (a.instances@.len() == b.instances@.len() && bytes_before(utf8_bytes(a.name@), utf8_bytes(b.name@)))
}

fn keys_match(a: Option<u64>, b: Option<u64>) -> (r: bool)
    ensures
        r == (a is Some && a == b),
{
    match (a, b) {
        (Some(x), Some(y)) => x == y,
        _ => false,
    }
}

fn metrics_match(a: &DuplicateCandidate, b: &DuplicateCandidate) -> (r: bool)
    ensures
        r == same_metrics(*a, *b),
{
    a.lines == b.lines && a.complexity == b.complexity && a.nesting_depth == b.nesting_depth
        && keys_match(a.volume_key, b.volume_key) && keys_match(a.difficulty_key, b.difficulty_key)
}

fn cluster_comes_before(a: &DuplicateCluster, b: &DuplicateCluster) -> (r: bool)
    ensures
        r == cluster_before(*a, *b),
{
    let la = a.instances.len();
    let lb = b.instances.len();
    la > lb || (la == lb && text_before(a.name.as_str(), b.name.as_str()))
}

/// No candidate before `i` has the name of candidate `i`.
fn first_of_name(c: &[DuplicateCandidate], i: usize) -> (r: bool)
    requires
        i < c@.len(),
    ensures
        r == (forall|j: int| 0 <= j < i ==> c@[j].name@ != c@[i as int].name@),
{
    let mut j: usize = 0;
    while j < i
        invariant
            i < c@.len(),
            j <= i,
            forall|x: int| 0 <= x < j ==> c@[x].name@ != c@[i as int].name@,
        decreases i - j,
    {
        if text_eq(c[j].name.as_str(), c[i].name.as_str()) {
            return false;
        }
        j += 1;
    }
    true
}

/// Inserting `v` at `p` adds `v` and keeps every other element.
pub proof fn lemma_insert_contains<A>(s: Seq<A>, p: int, v: A, x: A)
    requires
        0 <= p <= s.len(),
    ensures
        s.insert(p, v).contains(x) <==> (x == v || s.contains(x)),
{
    let t = s.insert(p, v);
    if x == v {
        assert(t[p] == v);
    }
    if s.contains(x) {
        let q = choose|q: int| 0 <= q < s.len() && s[q] == x;
        if q < p {
            assert(t[q] == x);
        } else {
            assert(t[q + 1] == x);
        }
    }
    if t.contains(x) && x != v {
        let q = choose|q: int| 0 <= q < t.len() && t[q] == x;
        if q < p {
            assert(s[q] == x);
        } else {
            assert(q != p);
            assert(s[q - 1] == x);
        }
    }
}

/// The candidates from `i` on named like candidate `i`, in path order, and
/// whether all of them share the metrics of candidate `i`.
fn gather(c: &[DuplicateCandidate], i: usize) -> (r: (Vec<usize>, bool))
    requires
        i < c@.len(),
    ensures
        forall|q: int| 0 <= q < r.0@.len() ==> i <= #[trigger] r.0@[q] < c@.len(),
        forall|x: int|
            i <= x < c@.len() ==> (c@[x].name@ == c@[i as int].name@ <==> #[trigger] r.0@.contains(x as usize)),
        ordered_by_path(c@, r.0@),
        r.1 == (forall|x: int|
            i <= x < c@.len() && #[trigger] c@[x].name@ == c@[i as int].name@ ==> same_metrics(c@[i as int], c@[x])),
{
    let mut members: Vec<usize> = Vec::new();
    let mut all = true;
    let mut k: usize = i;
    while k < c.len()
        invariant
            i <= k <= c@.len(),
            forall|q: int| 0 <= q < members@.len() ==> i <= #[trigger] members@[q] < k,
            forall|x: int|
                i <= x < k ==> (c@[x].name@ == c@[i as int].name@ <==> #[trigger] members@.contains(x as usize)),
            ordered_by_path(c@, members@),
            all == (forall|x: int|
                i <= x < k && #[trigger] c@[x].name@ == c@[i as int].name@ ==> same_metrics(c@[i as int], c@[x])),
        decreases c@.len() - k,
    {
        if text_eq(c[k].name.as_str(), c[i].name.as_str()) {
            if !metrics_match(&c[i], &c[k]) {
                all = false;
            }
            let rank = c[k].path_rank;
            let mut p: usize = 0;
            while p < members.len() && c[members[p]].path_rank <= rank
                invariant
                    p <= members@.len(),
                    k < c@.len(),
                    rank == c@[k as int].path_rank,
                    forall|q: int| 0 <= q < members@.len() ==> i <= #[trigger] members@[q] < k,
                    forall|q: int| 0 <= q < p ==> c@[#[trigger] members@[q] as int].path_rank <= rank,
                decreases members@.len() - p,
            {
                p += 1;
            }
            let ghost old_m = members@;
            proof {
                if p < old_m.len() {
                    assert forall|q: int| p <= q < old_m.len() implies c@[#[trigger] old_m[q] as int].path_rank > rank by {
                        if q > p {
                            assert(path_key_before(c@, old_m[p as int] as int, old_m[q] as int));
                        }
                    }
                }
            }
            members.insert(p, k);
            proof {
                let m = members@;
                assert(m == old_m.insert(p as int, k));
                assert forall|a: int, b: int| 0 <= a < b < m.len() implies path_key_before(c@, #[trigger] m[a] as int, #[trigger] m[b] as int) by {
                    if b < p {
                        assert(path_key_before(c@, old_m[a] as int, old_m[b] as int));
                    } else if b == p {
                        assert(m[a] == old_m[a]);
                    } else if a < p {
                        assert(path_key_before(c@, old_m[a] as int, old_m[b - 1] as int));
                    } else if a == p {
                        assert(m[b] == old_m[b - 1]);
                    } else {
                        assert(path_key_before(c@, old_m[a - 1] as int, old_m[b - 1] as int));
                    }
                }
                assert forall|x: int| i <= x < k + 1 implies (c@[x].name@ == c@[i as int].name@ <==> #[trigger] m.contains(x as usize)) by {
                    lemma_insert_contains(old_m, p as int, k, x as usize);
                    if x < k {
                        if old_m.contains(x as usize) {
                            assert(c@[x].name@ == c@[i as int].name@);
                        }
                    }
                }
            }
        }
        k += 1;
    }
    (members, all)
}

/// What the gathered group says of its name, once candidate `i` is its first.
proof fn lemma_group(c: Seq<DuplicateCandidate>, i: int, m: Seq<usize>, all: bool)
    requires
        0 <= i < c.len() <= usize::MAX,
        forall|j: int| 0 <= j < i ==> c[j].name@ != c[i].name@,
        forall|q: int| 0 <= q < m.len() ==> i <= #[trigger] m[q] < c.len(),
        forall|x: int| i <= x < c.len() ==> (c[x].name@ == c[i].name@ <==> #[trigger] m.contains(x as usize)),
        ordered_by_path(c, m),
        all == (forall|x: int| i <= x < c.len() && #[trigger] c[x].name@ == c[i].name@ ==> same_metrics(c[i], c[x])),
    ensures
        (m.len() >= 2 && all) == qualifies(c, c[i].name@),
        forall|x: int| 0 <= x < c.len() ==> (c[x].name@ == c[i].name@ <==> #[trigger] m.contains(x as usize)),
{
    let name = c[i].name@;
    assert forall|x: int| 0 <= x < c.len() implies (c[x].name@ == name <==> #[trigger] m.contains(x as usize)) by {
        if x < i {
            if m.contains(x as usize) {
                let q = choose|q: int| 0 <= q < m.len() && m[q] == x as usize;
                assert(i <= m[q]);
            }
        }
    }
    if m.len() >= 2 {
        assert(path_key_before(c, m[0] as int, m[1] as int));
        let a = m[0] as int;
        let b = m[1] as int;
        assert(m[0] == a as usize);
        assert(m[1] == b as usize);
        assert(m.contains(a as usize));
        assert(m.contains(b as usize));
        assert(named_at(c, a, name));
        assert(named_at(c, b, name));
        if a < b {
            assert(named_at(c, a, name) && named_at(c, b, name));
        } else {
            assert(named_at(c, b, name) && named_at(c, a, name));
        }
    }
    if qualifies(c, name) {
        let (x, y) = choose|x: int, y: int| x < y && #[trigger] named_at(c, x, name) && #[trigger] named_at(c, y, name);
        assert(m.contains(x as usize));
        assert(m.contains(y as usize));
        if m.len() < 2 {
            let qx = choose|q: int| 0 <= q < m.len() && m[q] == x as usize;
            let qy = choose|q: int| 0 <= q < m.len() && m[q] == y as usize;
            assert(qx == qy);
            assert(false);
        }
        assert(named_at(c, i, name));
        assert forall|x: int| i <= x < c.len() && #[trigger] c[x].name@ == name implies same_metrics(c[i], c[x]) by {
            assert(named_at(c, i, name) && named_at(c, x, name));
        }
    }
    if m.len() >= 2 && all {
        assert forall|x: int, y: int| #[trigger] named_at(c, x, name) && #[trigger] named_at(c, y, name) implies same_metrics(c[x], c[y]) by {
            assert(x >= i) by {
                if x < i { assert(c[x].name@ != name); }
            }
            assert(y >= i) by {
                if y < i { assert(c[y].name@ != name); }
            }
            assert(same_metrics(c[i], c[x]));
            assert(same_metrics(c[i], c[y]));
        }
    }
}

/// Of two clusters with different names, one comes before the other.
proof fn lemma_cluster_total(a: DuplicateCluster, b: DuplicateCluster)
    requires
        a.name@ != b.name@,
    ensures
        cluster_before(a, b) || cluster_before(b, a),
{
    if utf8_bytes(a.name@) == utf8_bytes(b.name@) {
        assert(decode_utf8(utf8_bytes(a.name@)) == a.name@);
        assert(decode_utf8(utf8_bytes(b.name@)) == b.name@);
    }
    lemma_bytes_before_total(utf8_bytes(a.name@), utf8_bytes(b.name@));
}

/// `cluster_before` is transitive.
proof fn lemma_cluster_transitive(a: DuplicateCluster, b: DuplicateCluster, d: DuplicateCluster)
    requires
        cluster_before(a, b),
        cluster_before(b, d),
    ensures
        cluster_before(a, d),
{
    if a.instances@.len() == b.instances@.len() && b.instances@.len() == d.instances@.len() {
        lemma_bytes_before_transitive(utf8_bytes(a.name@), utf8_bytes(b.name@), utf8_bytes(d.name@));
    }
}

/// `cl` holds, in order, exactly the clusters of the qualifying names that
/// occur among the first `i` candidates.
pub open spec fn clusters_upto(c: Seq<DuplicateCandidate>, cl: Seq<DuplicateCluster>, i: int) -> bool {
    &&& forall|q: int| 0 <= q < cl.len() ==> cluster_ok(c, #[trigger] cl[q])
    &&& forall|q: int| 0 <= q < cl.len() ==> exists|x: int| 0 <= x < i && #[trigger] c[x].name@ == (#[trigger] cl[q]).name@
    &&& forall|x: int|
        0 <= x < i && qualifies(c, #[trigger] c[x].name@) ==> exists|q: int|
            0 <= q < cl.len() && #[trigger] cl[q].name@ == c[x].name@
    &&& clusters_sorted(cl)
}

/// Clusters listed in order.
pub open spec fn clusters_sorted(s: Seq<DuplicateCluster>) -> bool {
    forall|p: int, q: int| 0 <= p < q < s.len() ==> cluster_before(#[trigger] s[p], #[trigger] s[q])
}

/// Inserts `cluster` into sorted `clusters` at the place that keeps them sorted,
/// and returns that place.
fn place_cluster(clusters: &mut Vec<DuplicateCluster>, cluster: DuplicateCluster) -> (p: usize)
    requires
        clusters_sorted(old(clusters)@),
        forall|q: int| 0 <= q < old(clusters)@.len() ==> (#[trigger] old(clusters)@[q]).name@ != cluster.name@,
    ensures
        p <= old(clusters)@.len(),
        final(clusters)@ == old(clusters)@.insert(p as int, cluster),
        clusters_sorted(final(clusters)@),
{
    let mut p: usize = 0;
    while p < clusters.len() && cluster_comes_before(&clusters[p], &cluster)
        invariant
            p <= clusters@.len(),
            forall|q: int| 0 <= q < p ==> cluster_before(#[trigger] clusters@[q], cluster),
        decreases clusters@.len() - p,
    {
        p += 1;
    }
    let ghost old_cl = clusters@;
    proof {
        if p < old_cl.len() {
            lemma_cluster_total(old_cl[p as int], cluster);
            assert forall|q: int| p <= q < old_cl.len() implies cluster_before(cluster, #[trigger] old_cl[q]) by {
                if q > p {
                    lemma_cluster_transitive(cluster, old_cl[p as int], old_cl[q]);
                }
            }
        }
    }
    clusters.insert(p, cluster);
    proof {
        let n = clusters@;
        assert forall|a: int, b: int| 0 <= a < b < n.len() implies cluster_before(#[trigger] n[a], #[trigger] n[b]) by {
            if b < p {
                assert(n[a] == old_cl[a]);
                assert(n[b] == old_cl[b]);
            } else if b == p {
                assert(n[a] == old_cl[a]);
            } else if a < p {
                assert(n[a] == old_cl[a]);
                assert(n[b] == old_cl[b - 1]);
            } else if a == p {
                assert(n[b] == old_cl[b - 1]);
            } else {
                assert(n[a] == old_cl[a - 1]);
                assert(n[b] == old_cl[b - 1]);
            }
        }
    }
    p
}

/// Where `n` is `old_cl` with `n[p]` inserted at `p`, each element of `n` other
/// than `n[p]` is an element of `old_cl`.
proof fn lemma_inserted_from(old_cl: Seq<DuplicateCluster>, p: int, n: Seq<DuplicateCluster>, q: int)
    requires
        0 <= p <= old_cl.len(),
        n == old_cl.insert(p, n[p]),
        0 <= q < n.len(),
        q != p,
    ensures
        q < p ==> n[q] == old_cl[q],
        q > p ==> n[q] == old_cl[q - 1],
{
}

/// After the cluster of candidate `i` is placed at `p`, every cluster still
/// names a candidate before `i + 1`, and every qualifying name up to `i` has
/// its cluster.
proof fn lemma_after_place(
    c: Seq<DuplicateCandidate>,
    i: int,
    old_cl: Seq<DuplicateCluster>,
    p: int,
    n: Seq<DuplicateCluster>,
)
    requires
        0 <= i < c.len(),
        0 <= p <= old_cl.len(),
        n == old_cl.insert(p, n[p]),
        n[p].name@ == c[i].name@,
        cluster_ok(c, n[p]),
        clusters_upto(c, old_cl, i),
        clusters_sorted(n),
    ensures
        clusters_upto(c, n, i + 1),
{
    assert forall|q: int| 0 <= q < n.len() implies cluster_ok(c, #[trigger] n[q])
        && exists|x: int| 0 <= x < i + 1 && #[trigger] c[x].name@ == n[q].name@ by {
        if q != p {
            lemma_inserted_from(old_cl, p, n, q);
            let oq = if q < p { q } else { q - 1 };
            assert(n[q] == old_cl[oq]);
            assert(cluster_ok(c, old_cl[oq]));
            let x = choose|x: int| 0 <= x < i && #[trigger] c[x].name@ == old_cl[oq].name@;
            assert(0 <= x < i + 1 && c[x].name@ == n[q].name@);
        } else {
            assert(0 <= i < i + 1 && c[i].name@ == n[q].name@);
        }
    }
    assert forall|x: int| 0 <= x < i + 1 && qualifies(c, #[trigger] c[x].name@) implies exists|q: int|
        0 <= q < n.len() && #[trigger] n[q].name@ == c[x].name@ by {
        if x == i {
            assert(n[p].name@ == c[x].name@);
        } else {
            let q = choose|q: int| 0 <= q < old_cl.len() && #[trigger] old_cl[q].name@ == c[x].name@;
            if q < p {
                lemma_inserted_from(old_cl, p, n, q);
                assert(n[q].name@ == c[x].name@);
            } else {
                lemma_inserted_from(old_cl, p, n, q + 1);
                assert(n[q + 1].name@ == c[x].name@);
            }
        }
    }
}

/// The structural duplication candidates among `candidates`: one cluster for
/// each name that at least two candidates share and whose candidates all have
/// the same metrics. Clusters come largest first, then by name; the instances
/// of a cluster come by path rank, then in the order of `candidates`.
pub fn compute_duplicates(candidates: &[DuplicateCandidate]) -> (r: Vec<DuplicateCluster>)
    ensures
        forall|q: int| 0 <= q < r@.len() ==> cluster_ok(candidates@, #[trigger] r@[q]),
        forall|x: int|
            0 <= x < candidates@.len() && qualifies(candidates@, #[trigger] candidates@[x].name@) ==> exists|q: int|
                0 <= q < r@.len() && #[trigger] r@[q].name@ == candidates@[x].name@,
        forall|p: int, q: int| 0 <= p < q < r@.len() ==> cluster_before(#[trigger] r@[p], #[trigger] r@[q]),
{
    let mut clusters: Vec<DuplicateCluster> = Vec::new();
    let mut i: usize = 0;
    while i < candidates.len()
        invariant
            i <= candidates@.len(),
            clusters_upto(candidates@, clusters@, i as int),
        decreases candidates@.len() - i,
    {
        add_group(candidates, i, &mut clusters);
        i += 1;
    }
    clusters
}

/// Adds the cluster of the name of candidate `i`, if `i` is the first
/// candidate of that name and the name qualifies.
fn add_group(candidates: &[DuplicateCandidate], i: usize, clusters: &mut Vec<DuplicateCluster>)
    requires
        i < candidates@.len(),
        clusters_upto(candidates@, old(clusters)@, i as int),
    ensures
        clusters_upto(candidates@, final(clusters)@, i + 1),
{
    let ghost c = candidates@;
    let n: usize = candidates.len();
    assert(c.len() == n);
    if first_of_name(candidates, i) {
        let (members, all) = gather(candidates, i);
        proof {
            lemma_group(c, i as int, members@, all);
        }
        if members.len() >= 2 && all {
            let cluster = DuplicateCluster { name: candidates[i].name.clone(), instances: members };
            assert(cluster_ok(c, cluster));
            let ghost old_cl = clusters@;
            proof {
                assert forall|q: int| 0 <= q < old_cl.len() implies (#[trigger] old_cl[q]).name@ != cluster.name@ by {
                    let x = choose|x: int| 0 <= x < i && #[trigger] c[x].name@ == old_cl[q].name@;
                    assert(c[x].name@ != c[i as int].name@);
                }
            }
            let p = place_cluster(clusters, cluster);
            proof {
                lemma_after_place(c, i as int, old_cl, p as int, clusters@);
            }
        }
    } else {
        proof {
            let j = choose|j: int| 0 <= j < i && c[j].name@ == c[i as int].name@;
            assert(qualifies(c, c[j].name@) ==> exists|q: int|
                0 <= q < clusters@.len() && #[trigger] clusters@[q].name@ == c[j].name@);
        }
    }
}

/// `bytes_before` never holds of a sequence and itself.
pub proof fn lemma_bytes_before_irreflexive(a: Seq<u8>)
    ensures
        !bytes_before(a, a),
    decreases a.len(),
{
    if a.len() > 0 {
        lemma_bytes_before_irreflexive(a.drop_first());
    }
}

/// `bytes_before` is transitive.
pub proof fn lemma_bytes_before_transitive(a: Seq<u8>, b: Seq<u8>, c: Seq<u8>)
    requires
        bytes_before(a, b),
        bytes_before(b, c),
    ensures
        bytes_before(a, c),
    decreases a.len(),
{
    if a.len() > 0 && b.len() > 0 && c.len() > 0 {
        if a[0] == b[0] && b[0] == c[0] {
            lemma_bytes_before_transitive(a.drop_first(), b.drop_first(), c.drop_first());
        }
    }
}

/// Of two different byte sequences, one comes before the other.
pub proof fn lemma_bytes_before_total(a: Seq<u8>, b: Seq<u8>)
    requires
        a != b,
    ensures
        bytes_before(a, b) || bytes_before(b, a),
    decreases a.len(),
{
    if a.len() == 0 && b.len() == 0 {
        assert(a =~= b);
    }
    if a.len() > 0 && b.len() > 0 && a[0] == b[0] {
        if a.drop_first() =~= b.drop_first() {
            assert(a.drop_first().len() == a.len() - 1);
            assert(b.drop_first().len() == b.len() - 1);
            assert(a =~= b) by {
                assert forall|k: int| 0 <= k < a.len() implies a[k] == b[k] by {
                    if k > 0 {
                        assert(a[k] == a.drop_first()[k - 1]);
                        assert(b[k] == b.drop_first()[k - 1]);
                    }
                }
            }
        } else {
            lemma_bytes_before_total(a.drop_first(), b.drop_first());
        }
    }
}

/// A cluster joins at least two functions, all of its name and all with the
/// same metrics.
pub proof fn lemma_cluster_members_match(c: Seq<DuplicateCandidate>, cl: DuplicateCluster)
    requires
        c.len() <= usize::MAX,
        cluster_ok(c, cl),
    ensures
        cl.instances@.len() >= 2,
        forall|q: int| 0 <= q < cl.instances@.len() ==> c[#[trigger] cl.instances@[q] as int].name@ == cl.name@,
        forall|p: int, q: int|
            0 <= p < cl.instances@.len() && 0 <= q < cl.instances@.len() ==> same_metrics(
                c[#[trigger] cl.instances@[p] as int],
                c[#[trigger] cl.instances@[q] as int],
            ),
        forall|p: int, q: int|
            0 <= p < cl.instances@.len() && 0 <= q < cl.instances@.len() ==> {
                let x = c[#[trigger] cl.instances@[p] as int];
                let y = c[#[trigger] cl.instances@[q] as int];
                &&& x.lines == y.lines
                &&& x.complexity == y.complexity
                &&& x.nesting_depth == y.nesting_depth
                &&& x.volume_key is Some && x.volume_key == y.volume_key
                &&& x.difficulty_key is Some && x.difficulty_key == y.difficulty_key
            },
{
    let m = cl.instances@;
    let name = cl.name@;
    assert forall|q: int| 0 <= q < m.len() implies c[#[trigger] m[q] as int].name@ == name by {
        assert(m.contains(m[q]));
        assert(m[q] as int as usize == m[q]);
    }
    assert forall|p: int, q: int| 0 <= p < m.len() && 0 <= q < m.len() implies same_metrics(
        c[#[trigger] m[p] as int],
        c[#[trigger] m[q] as int],
    ) by {
        assert(c[m[p] as int].name@ == name);
        assert(c[m[q] as int].name@ == name);
        assert(named_at(c, m[p] as int, name) && named_at(c, m[q] as int, name));
    }
    let (x, y) = choose|x: int, y: int| x < y && #[trigger] named_at(c, x, name) && #[trigger] named_at(c, y, name);
    assert(m.contains(x as usize));
    assert(m.contains(y as usize));
    if m.len() < 2 {
        let qx = choose|q: int| 0 <= q < m.len() && m[q] == x as usize;
        let qy = choose|q: int| 0 <= q < m.len() && m[q] == y as usize;
        assert(qx == qy);
        assert(false);
    }
}

/// No name has two clusters in a sorted list of clusters.
pub proof fn lemma_cluster_names_distinct(c: Seq<DuplicateCandidate>, r: Seq<DuplicateCluster>)
    requires
        clusters_sorted(r),
        forall|q: int| 0 <= q < r.len() ==> cluster_ok(c, #[trigger] r[q]),
    ensures
        forall|p: int, q: int| 0 <= p < q < r.len() ==> (#[trigger] r[p]).name@ != (#[trigger] r[q]).name@,
{
    assert forall|p: int, q: int| 0 <= p < q < r.len() implies (#[trigger] r[p]).name@ != (#[trigger] r[q]).name@ by {
        if r[p].name@ == r[q].name@ {
            let a = r[p].instances@;
            let b = r[q].instances@;
            lemma_ordered_no_duplicates(c, a);
            lemma_ordered_no_duplicates(c, b);
            assert(a.to_set() =~= b.to_set()) by {
                assert forall|x: usize| a.to_set().contains(x) <==> b.to_set().contains(x) by {
                    if a.contains(x) {
                        let k = choose|k: int| 0 <= k < a.len() && a[k] == x;
                        assert(a[k] < c.len());
                        assert(a.contains(x as int as usize));
                    }
                    if b.contains(x) {
                        let k = choose|k: int| 0 <= k < b.len() && b[k] == x;
                        assert(b[k] < c.len());
                        assert(b.contains(x as int as usize));
                    }
                }
            }
            a.unique_seq_to_set();
            b.unique_seq_to_set();
            assert(cluster_before(r[p], r[q]));
            lemma_bytes_before_irreflexive(utf8_bytes(r[p].name@));
        }
    }
}

proof fn lemma_ordered_no_duplicates(c: Seq<DuplicateCandidate>, m: Seq<usize>)
    requires
        ordered_by_path(c, m),
    ensures
        m.no_duplicates(),
{
    assert forall|p: int, q: int| 0 <= p < m.len() && 0 <= q < m.len() && p != q implies m[p] != m[q] by {
        if p < q {
            assert(path_key_before(c, m[p] as int, m[q] as int));
        } else {
            assert(path_key_before(c, m[q] as int, m[p] as int));
        }
    }
}

/// A name has a cluster exactly when at least two candidates bear it and
/// any two of them agree on lines, complexity and nesting depth and have
/// equal, comparable Halstead volume and difficulty keys.
pub proof fn lemma_qualifies_by_fields(c: Seq<DuplicateCandidate>, name: Seq<char>)
    ensures
        qualifies(c, name) <==> {
            &&& exists|x: int, y: int| x < y && #[trigger] named_at(c, x, name) && #[trigger] named_at(c, y, name)
            &&& forall|x: int, y: int|
                #[trigger] named_at(c, x, name) && #[trigger] named_at(c, y, name) ==> {
                    &&& c[x].lines == c[y].lines
                    &&& c[x].complexity == c[y].complexity
                    &&& c[x].nesting_depth == c[y].nesting_depth
                    &&& c[x].volume_key is Some && c[x].volume_key == c[y].volume_key
                    &&& c[x].difficulty_key is Some && c[x].difficulty_key == c[y].difficulty_key
                }
        },
{
}

} // verus!
