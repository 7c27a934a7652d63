//! Execution order of the passes of a render graph.
//!
//! Every access of a pass is resolved to the GPU resource behind it (a
//! texture key with a mip/layer range, or a buffer key with a byte range).
//! Two passes that touch overlapping sub-ranges of the same GPU resource
//! are ordered:
//!   - read after write: a pass that reads depends on every other pass
//!     that writes an overlapping range, whatever their order in the list;
//!   - write after write: a pass that writes depends on every earlier pass
//!     in the list that writes an overlapping range.
//! The passes are then ordered by Kahn's algorithm; when the dependencies
//! form a cycle, not every pass can be ordered.

use vstd::prelude::*;
use std::collections::VecDeque;
use crate::access_type::{spec_is_write, AccessType};
use crate::graph_resource::{BufferSubRange, ImageSubRange};
use crate::keys::{BufferKey, TextureKey};

verus! {

/// The GPU resource and sub-range that an access reaches.
#[derive(Debug, Clone, Copy, PartialEq, Eq, Structural)]
pub enum AccessTarget {
    /// Mip/layer range of a texture.
    Image { texture_key: TextureKey, range: ImageSubRange },
    /// Byte range of a buffer.
    Buffer { buffer_key: BufferKey, range: BufferSubRange },
    /// The access names no known graph resource.
    Unresolved,
}

/// One access of a pass, resolved to its GPU target.
#[derive(Debug, Clone, Copy, PartialEq, Eq, Structural)]
pub struct ResolvedAccess {
    pub target: AccessTarget,
    pub access_type: AccessType,
}

/// Two targets share a subresource of the same GPU resource.
pub open spec fn targets_overlap(a: AccessTarget, b: AccessTarget) -> bool {
    match (a, b) {
        (
            AccessTarget::Image { texture_key: ka, range: ra },
            AccessTarget::Image { texture_key: kb, range: rb },
        ) => ka == kb && ra.spec_overlaps(rb),
        (
            AccessTarget::Buffer { buffer_key: ka, range: ra },
            AccessTarget::Buffer { buffer_key: kb, range: rb },
        ) => ka == kb && ra.spec_overlaps(rb),
        _ => false,
    }
}

/// Executable overlap test between two targets.
pub fn target_overlaps(a: &AccessTarget, b: &AccessTarget) -> (r: bool)
    ensures
        r == targets_overlap(*a, *b),
{
    match (a, b) {
        (
            AccessTarget::Image { texture_key: ka, range: ra },
            AccessTarget::Image { texture_key: kb, range: rb },
        ) => ka.bits == kb.bits && ra.overlaps(rb),
        (
            AccessTarget::Buffer { buffer_key: ka, range: ra },
            AccessTarget::Buffer { buffer_key: kb, range: rb },
        ) => ka.bits == kb.bits && ra.overlaps(rb),
        _ => false,
    }
}

/// Access `i` of pass `p`.
pub open spec fn acc(passes: Seq<Vec<ResolvedAccess>>, p: int, i: int) -> ResolvedAccess {
    passes[p]@[i]
}

/// `(p, i)` names an access of the pass list.
pub open spec fn valid_access(passes: Seq<Vec<ResolvedAccess>>, p: int, i: int) -> bool {
    0 <= p < passes.len() && 0 <= i < passes[p]@.len()
}

/// Access `i` of pass `p` writes.
pub open spec fn writes_at(passes: Seq<Vec<ResolvedAccess>>, p: int, i: int) -> bool {
    valid_access(passes, p, i) && spec_is_write(acc(passes, p, i).access_type)
}

/// Access `ib` of pass `q` must come after access `ia` of pass `p`.
pub open spec fn access_dep(
    passes: Seq<Vec<ResolvedAccess>>,
    p: int,
    ia: int,
    q: int,
    ib: int,
) -> bool {
    &&& writes_at(passes, p, ia)
    &&& valid_access(passes, q, ib)
    &&& p != q
    &&& targets_overlap(acc(passes, p, ia).target, acc(passes, q, ib).target)
    &&& (!spec_is_write(acc(passes, q, ib).access_type) || p < q)
}

/// Pass `q` must run after pass `p`.
pub open spec fn depends_on(passes: Seq<Vec<ResolvedAccess>>, p: int, q: int) -> bool {
    exists|ia: int, ib: int| #[trigger] access_dep(passes, p, ia, q, ib)
}

/// `order` lists every pass once, each after every pass it depends on.
pub open spec fn is_execution_order(passes: Seq<Vec<ResolvedAccess>>, order: Seq<usize>) -> bool {
    &&& order.len() == passes.len()
    &&& forall|i: int| 0 <= i < order.len() ==> #[trigger] order[i] < passes.len()
    &&& order.no_duplicates()
    &&& forall|i: int, j: int|
        0 <= i < j < order.len() ==> !depends_on(passes, #[trigger] order[j] as int, #[trigger] order[i] as int)
}

// ---------------------------------------------------------------------
// Edge counting
// ---------------------------------------------------------------------

/// Number of edges into `q` whose source is not in `done`.
pub open spec fn indeg(edges: Seq<(int, int)>, q: int, done: Seq<usize>) -> nat
    decreases edges.len(),
{
    if edges.len() == 0 {
        0
    } else {
        indeg(edges.drop_last(), q, done) + (if edges.last().1 == q && !done.contains(
            edges.last().0 as usize,
        ) && edges.last().0 >= 0 {
            1nat
        } else {
            0nat
        })
    }
}

/// Number of edges from `p` to `q`.
pub open spec fn pair_count(edges: Seq<(int, int)>, p: int, q: int) -> nat
    decreases edges.len(),
{
    if edges.len() == 0 {
        0
    } else {
        pair_count(edges.drop_last(), p, q) + (if edges.last() == (p, q) {
            1nat
        } else {
            0nat
        })
    }
}

/// Number of occurrences of `x` in `s`.
pub open spec fn occ(s: Seq<usize>, x: int) -> nat
    decreases s.len(),
{
    if s.len() == 0 {
        0
    } else {
        occ(s.drop_last(), x) + (if s.last() as int == x {
            1nat
        } else {
            0nat
        })
    }
}

proof fn lemma_indeg_push(edges: Seq<(int, int)>, e: (int, int), q: int, done: Seq<usize>)
    ensures
        indeg(edges.push(e), q, done) == indeg(edges, q, done) + (if e.1 == q && !done.contains(
            e.0 as usize,
        ) && e.0 >= 0 {
            1nat
        } else {
            0nat
        }),
{
    assert(edges.push(e).drop_last() =~= edges);
}

proof fn lemma_pair_count_push(edges: Seq<(int, int)>, e: (int, int), p: int, q: int)
    ensures
        pair_count(edges.push(e), p, q) == pair_count(edges, p, q) + (if e == (p, q) {
            1nat
        } else {
            0nat
        }),
{
    assert(edges.push(e).drop_last() =~= edges);
}

proof fn lemma_occ_push(s: Seq<usize>, v: usize, x: int)
    ensures
        occ(s.push(v), x) == occ(s, x) + (if v as int == x {
            1nat
        } else {
            0nat
        }),
{
    assert(s.push(v).drop_last() =~= s);
}

proof fn lemma_occ_take_le(s: Seq<usize>, j: int, x: int)
    requires
        0 <= j <= s.len(),
    ensures
        occ(s.take(j), x) <= occ(s, x),
    decreases s.len() - j,
{
    if j < s.len() {
        lemma_occ_take_le(s, j + 1, x);
        assert(s.take(j + 1).drop_last() =~= s.take(j));
    } else {
        assert(s.take(j) =~= s);
    }
}

/// Removing a source from the open set lowers the in-degree by the edges
/// that this source contributes.
proof fn lemma_indeg_done_push(edges: Seq<(int, int)>, q: int, done: Seq<usize>, p: usize)
    requires
        !done.contains(p),
        forall|k: int| 0 <= k < edges.len() ==> 0 <= (#[trigger] edges[k]).0 <= usize::MAX,
    ensures
        indeg(edges, q, done) == indeg(edges, q, done.push(p)) + pair_count(edges, p as int, q),
    decreases edges.len(),
{
    if edges.len() > 0 {
        let e = edges.last();
        let rest = edges.drop_last();
        assert(forall|k: int| 0 <= k < rest.len() ==> rest[k] == edges[k]);
        lemma_indeg_done_push(rest, q, done, p);
        assert(0 <= e.0 <= usize::MAX) by {
            assert(edges[edges.len() - 1] == e);
        }
        let s = e.0 as usize;
        assert(s as int == e.0);
        if s == p {
            assert(done.push(p)[done.len() as int] == p);
            assert(done.push(p).contains(s));
        } else {
            if done.push(p).contains(s) {
                let k = choose|k: int| 0 <= k < done.push(p).len() && done.push(p)[k] == s;
                assert(k < done.len());
                assert(done[k] == s);
            }
            if done.contains(s) {
                let k = choose|k: int| 0 <= k < done.len() && done[k] == s;
                assert(done.push(p)[k] == s);
            }
            assert(done.push(p).contains(s) == done.contains(s));
        }
    }
}

/// A zero in-degree means every edge into `q` comes from `done`.
proof fn lemma_indeg_zero(edges: Seq<(int, int)>, q: int, done: Seq<usize>)
    requires
        indeg(edges, q, done) == 0,
        forall|k: int| 0 <= k < edges.len() ==> (#[trigger] edges[k]).0 >= 0,
    ensures
        forall|k: int|
            0 <= k < edges.len() && (#[trigger] edges[k]).1 == q ==> done.contains(
                edges[k].0 as usize,
            ),
    decreases edges.len(),
{
    if edges.len() > 0 {
        assert(forall|k: int| 0 <= k < edges.drop_last().len() ==> edges.drop_last()[k] == edges[k]);
        lemma_indeg_zero(edges.drop_last(), q, done);
        assert forall|k: int| 0 <= k < edges.len() && (#[trigger] edges[k]).1 == q implies done.contains(
            edges[k].0 as usize,
        ) by {
            if k < edges.len() - 1 {
                assert(edges.drop_last()[k] == edges[k]);
            }
        }
    }
}

/// A positive in-degree means some edge into `q` comes from outside `done`.
proof fn lemma_indeg_pos(edges: Seq<(int, int)>, q: int, done: Seq<usize>) -> (k: int)
    requires
        indeg(edges, q, done) > 0,
    ensures
        0 <= k < edges.len(),
        edges[k].1 == q,
        edges[k].0 >= 0,
        !done.contains(edges[k].0 as usize),
    decreases edges.len(),
{
    let e = edges.last();
    if e.1 == q && !done.contains(e.0 as usize) && e.0 >= 0 {
        (edges.len() - 1) as int
    } else {
        let k = lemma_indeg_pos(edges.drop_last(), q, done);
        assert(edges.drop_last()[k] == edges[k]);
        k
    }
}

proof fn lemma_pair_count_le_indeg(edges: Seq<(int, int)>, p: usize, q: int, done: Seq<usize>)
    requires
        !done.contains(p),
    ensures
        pair_count(edges, p as int, q) <= indeg(edges, q, done),
    decreases edges.len(),
{
    if edges.len() > 0 {
        lemma_pair_count_le_indeg(edges.drop_last(), p, q, done);
    }
}

proof fn lemma_indeg_le_empty(edges: Seq<(int, int)>, q: int, done: Seq<usize>)
    ensures
        indeg(edges, q, done) <= indeg(edges, q, Seq::<usize>::empty()),
    decreases edges.len(),
{
    if edges.len() > 0 {
        lemma_indeg_le_empty(edges.drop_last(), q, done);
    }
}

// ---------------------------------------------------------------------
// Dependency graph construction
// ---------------------------------------------------------------------

/// The dependency graph of a pass list: in-degrees, successor lists (one
/// entry per edge), and, as a ghost, the edge list itself.
struct DepGraph {
    in_degree: Vec<u128>,
    successors: Vec<Vec<usize>>,
    edges: Ghost<Seq<(int, int)>>,
}

impl DepGraph {
    /// The counters agree with the edge list, and the edges are exactly
    /// the pass dependencies.
    spec fn counts_agree(&self, n: int) -> bool {
        &&& self.in_degree@.len() == n
        &&& self.successors@.len() == n
        &&& forall|k: int|
            0 <= k < self.edges@.len() ==> 0 <= (#[trigger] self.edges@[k]).0 < n && 0
                <= self.edges@[k].1 < n
        &&& forall|q: int|
            0 <= q < n ==> #[trigger] self.in_degree@[q] == indeg(
                self.edges@,
                q,
                Seq::<usize>::empty(),
            )
        &&& forall|p: int, q: int|
            0 <= p < n && 0 <= q < n ==> #[trigger] occ(self.successors@[p]@, q) == pair_count(
                self.edges@,
                p,
                q,
            )
        &&& forall|p: int, k: int|
            0 <= p < n && 0 <= k < self.successors@[p]@.len() ==> #[trigger] self.successors@[p]@[k]
                < n
    }
}

/// Writer `e` has been scanned for the access of pass `q` whose target is
/// `bt`: if it makes that access depend on it, the edge is recorded.
spec fn entry_covered(
    passes: Seq<Vec<ResolvedAccess>>,
    edges: Seq<(int, int)>,
    e: (usize, usize),
    q: usize,
    bt: AccessTarget,
) -> bool {
    (e.0 != q && targets_overlap(acc(passes, e.0 as int, e.1 as int).target, bt)) ==> edges.contains(
        (e.0 as int, q as int),
    )
}

/// The streamed writers stay fewer than all writers: they are distinct
/// writers, and the one about to be streamed is not among them.
proof fn lemma_streaming_bound(
    writers: Seq<(usize, usize)>,
    s: Seq<(usize, usize)>,
    x: (usize, usize),
)
    requires
        s.no_duplicates(),
        forall|k: int| 0 <= k < s.len() ==> writers.contains(#[trigger] s[k]),
        !s.contains(x),
        writers.contains(x),
    ensures
        s.len() + 1 <= writers.len(),
{
    let t = s.push(x);
    assert(t.no_duplicates()) by {
        assert forall|i: int, j: int| 0 <= i < t.len() && 0 <= j < t.len() && i != j implies t[i]
            != t[j] by {
            if i == s.len() {
                assert(t[j] == s[j]);
            } else if j == s.len() {
                assert(t[i] == s[i]);
            } else {
                assert(t[i] == s[i] && t[j] == s[j]);
            }
        }
    }
    t.unique_seq_to_set();
    assert(t.to_set().subset_of(writers.to_set())) by {
        assert forall|y: (usize, usize)| t.to_set().contains(y) implies writers.to_set().contains(y) by {
            let k = choose|k: int| 0 <= k < t.len() && t[k] == y;
            if k < s.len() {
                assert(s[k] == y);
                assert(writers.contains(s[k]));
            }
        }
    }
    writers.lemma_cardinality_of_set();
    vstd::set_lib::lemma_len_subset(t.to_set(), writers.to_set());
}

/// Build the dependency graph: every read-after-write and write-after-write
/// dependency between two distinct passes becomes one edge per pair of
/// accesses that causes it.
#[verifier::loop_isolation(false)]
fn build_dep_graph(passes: &Vec<Vec<ResolvedAccess>>) -> (g: DepGraph)
    ensures
        g.counts_agree(passes@.len() as int),
        forall|k: int|
            0 <= k < g.edges@.len() ==> depends_on(
                passes@,
                (#[trigger] g.edges@[k]).0,
                g.edges@[k].1,
            ),
        forall|p: int, q: int|
            depends_on(passes@, p, q) ==> #[trigger] g.edges@.contains((p, q)),
{
    let n = passes.len();
    let mut in_degree: Vec<u128> = Vec::new();
    let mut successors: Vec<Vec<usize>> = Vec::new();
    let mut j: usize = 0;
    while j < n
        invariant
            j <= n,
            n == passes@.len(),
            in_degree@.len() == j,
            successors@.len() == j,
            forall|q: int| 0 <= q < j ==> #[trigger] in_degree@[q] == 0,
            forall|p: int| 0 <= p < j ==> (#[trigger] successors@[p])@.len() == 0,
        decreases n - j,
    {
        in_degree.push(0);
        successors.push(Vec::new());
        j += 1;
    }
    let ghost edges: Seq<(int, int)> = Seq::empty();
    assert forall|p: int, q: int| 0 <= p < n && 0 <= q < n implies #[trigger] occ(
        successors@[p]@,
        q,
    ) == pair_count(edges, p, q) by {
        assert(successors@[p]@.len() == 0);
    }

    // Pass 1: every write access, in list order.
    let mut writers: Vec<(usize, usize)> = Vec::new();
    let mut p: usize = 0;
    while p < n
        invariant
            p <= n,
            n == passes@.len(),
            forall|k: int|
                0 <= k < writers@.len() ==> writes_at(
                    passes@,
                    (#[trigger] writers@[k]).0 as int,
                    writers@[k].1 as int,
                ),
            forall|pp: int, ia: int|
                pp < p && #[trigger] writes_at(passes@, pp, ia) ==> exists|k: int|
                    0 <= k < writers@.len() && #[trigger] writers@[k] == (pp as usize, ia as usize),
        decreases n - p,
    {
        let m = passes[p].len();
        let mut i: usize = 0;
        while i < m
            invariant
                p < n,
                i <= m,
                n == passes@.len(),
                m == passes@[p as int]@.len(),
                forall|k: int|
                    0 <= k < writers@.len() ==> writes_at(
                        passes@,
                        (#[trigger] writers@[k]).0 as int,
                        writers@[k].1 as int,
                    ),
                forall|pp: int, ia: int|
                    (pp < p || (pp == p && ia < i)) && #[trigger] writes_at(passes@, pp, ia)
                        ==> exists|k: int|
                        0 <= k < writers@.len() && #[trigger] writers@[k] == (
                            pp as usize,
                            ia as usize,
                        ),
            decreases m - i,
        {
            if passes[p][i].access_type.is_write() {
                let ghost old_w = writers@;
                writers.push((p, i));
                assert forall|pp: int, ia: int|
                    (pp < p || (pp == p && ia < i + 1)) && #[trigger] writes_at(
                        passes@,
                        pp,
                        ia,
                    ) implies exists|k: int|
                    0 <= k < writers@.len() && #[trigger] writers@[k] == (
                        pp as usize,
                        ia as usize,
                    ) by {
                    if pp == p && ia == i {
                        assert(writers@[old_w.len() as int] == (pp as usize, ia as usize));
                    } else {
                        let k = choose|k: int|
                            0 <= k < old_w.len() && #[trigger] old_w[k] == (pp as usize, ia as usize);
                        assert(writers@[k] == old_w[k]);
                    }
                }
            }
            i += 1;
        }
        p += 1;
    }
    let w_total = writers.len();

    // Pass 2: stream the passes in list order and add the edges.
    let mut streaming: Vec<(usize, usize)> = Vec::new();
    let mut q: usize = 0;
    while q < n
        invariant
            q <= n,
            n == passes@.len(),
            w_total == writers@.len(),
            in_degree@.len() == n,
            successors@.len() == n,
            forall|k: int|
                0 <= k < writers@.len() ==> writes_at(
                    passes@,
                    (#[trigger] writers@[k]).0 as int,
                    writers@[k].1 as int,
                ),
            forall|pp: int, ia: int|
                #[trigger] writes_at(passes@, pp, ia) ==> exists|k: int|
                    0 <= k < writers@.len() && #[trigger] writers@[k] == (pp as usize, ia as usize),
            streaming@.len() <= w_total,
            streaming@.no_duplicates(),
            forall|k: int|
                0 <= k < streaming@.len() ==> writes_at(
                    passes@,
                    (#[trigger] streaming@[k]).0 as int,
                    streaming@[k].1 as int,
                ) && streaming@[k].0 < q,
            forall|pp: int, ia: int|
                pp < q && #[trigger] writes_at(passes@, pp, ia) ==> exists|k: int|
                    0 <= k < streaming@.len() && #[trigger] streaming@[k] == (
                        pp as usize,
                        ia as usize,
                    ),
            forall|k: int|
                0 <= k < edges.len() ==> 0 <= (#[trigger] edges[k]).0 < n && 0 <= edges[k].1
                    < n && depends_on(passes@, edges[k].0, edges[k].1),
            forall|x: int|
                0 <= x < n ==> #[trigger] in_degree@[x] == indeg(edges, x, Seq::<usize>::empty()),
            forall|x: int|
                0 <= x < n ==> #[trigger] in_degree@[x] <= (passes@[x]@.len() as int) * (
                w_total as int) && (x >= q ==> in_degree@[x] == 0),
            forall|a: int, b: int|
                0 <= a < n && 0 <= b < n ==> #[trigger] occ(successors@[a]@, b) == pair_count(
                    edges,
                    a,
                    b,
                ),
            forall|a: int, k: int|
                0 <= a < n && 0 <= k < successors@[a]@.len() ==> #[trigger] successors@[a]@[k]
                    < n,
            forall|pp: int, ia: int, qq: int, ib: int|
                qq < q && #[trigger] access_dep(passes@, pp, ia, qq, ib) ==> edges.contains(
                    (pp, qq),
                ),
        decreases n - q,
    {
        let m = passes[q].len();
        let mut ib: usize = 0;
        while ib < m
            invariant
                q < n,
                ib <= m,
                n == passes@.len(),
                m == passes@[q as int]@.len(),
                w_total == writers@.len(),
                in_degree@.len() == n,
                successors@.len() == n,
                forall|k: int|
                    0 <= k < writers@.len() ==> writes_at(
                        passes@,
                        (#[trigger] writers@[k]).0 as int,
                        writers@[k].1 as int,
                    ),
                forall|pp: int, ia: int|
                    #[trigger] writes_at(passes@, pp, ia) ==> exists|k: int|
                        0 <= k < writers@.len() && #[trigger] writers@[k] == (
                            pp as usize,
                            ia as usize,
                        ),
                streaming@.len() <= w_total,
                streaming@.no_duplicates(),
                forall|k: int|
                    0 <= k < streaming@.len() ==> writes_at(
                        passes@,
                        (#[trigger] streaming@[k]).0 as int,
                        streaming@[k].1 as int,
                    ) && (streaming@[k].0 < q || (streaming@[k].0 == q && streaming@[k].1 < ib)),
                forall|pp: int, ia: int|
                    (pp < q || (pp == q && ia < ib)) && #[trigger] writes_at(passes@, pp, ia)
                        ==> exists|k: int|
                        0 <= k < streaming@.len() && #[trigger] streaming@[k] == (
                            pp as usize,
                            ia as usize,
                        ),
                forall|k: int|
                    0 <= k < streaming@.len() && (#[trigger] streaming@[k]).0 == q ==> writes_at(
                        passes@,
                        q as int,
                        streaming@[k].1 as int,
                    ),
                forall|k: int|
                    0 <= k < edges.len() ==> 0 <= (#[trigger] edges[k]).0 < n && 0
                        <= edges[k].1 < n && depends_on(passes@, edges[k].0, edges[k].1),
                forall|x: int|
                    0 <= x < n ==> #[trigger] in_degree@[x] == indeg(
                        edges,
                        x,
                        Seq::<usize>::empty(),
                    ),
                forall|x: int|
                    0 <= x < n && x != q ==> #[trigger] in_degree@[x] <= (passes@[x]@.len() as int)
                        * (w_total as int) && (x > q ==> in_degree@[x] == 0),
                in_degree@[q as int] <= (ib as int) * (w_total as int),
                forall|a: int, b: int|
                    0 <= a < n && 0 <= b < n ==> #[trigger] occ(successors@[a]@, b) == pair_count(
                        edges,
                        a,
                        b,
                    ),
                forall|a: int, k: int|
                    0 <= a < n && 0 <= k < successors@[a]@.len() ==> #[trigger] successors@[a]@[k]
                        < n,
                forall|pp: int, ia: int, qq: int, jb: int|
                    (qq < q || (qq == q && jb < ib)) && #[trigger] access_dep(
                        passes@,
                        pp,
                        ia,
                        qq,
                        jb,
                    ) ==> edges.contains((pp, qq)),
            decreases m - ib,
        {
            let b = passes[q][ib];
            let b_writes = b.access_type.is_write();
            let list_len = if b_writes {
                streaming.len()
            } else {
                writers.len()
            };
            let ghost deg_before = in_degree@[q as int];
            let ghost list = if b_writes {
                streaming@
            } else {
                writers@
            };
            let mut k: usize = 0;
            while k < list_len
                invariant
                    q < n,
                    ib < m,
                    k <= list_len,
                    n == passes@.len(),
                    m == passes@[q as int]@.len(),
                    b == passes@[q as int]@[ib as int],
                    b_writes == spec_is_write(b.access_type),
                    list_len == (if b_writes {
                        streaming@.len()
                    } else {
                        writers@.len()
                    }),
                    list_len <= w_total,
                    w_total == writers@.len(),
                    in_degree@.len() == n,
                    successors@.len() == n,
                    forall|kk: int|
                        0 <= kk < writers@.len() ==> writes_at(
                            passes@,
                            (#[trigger] writers@[kk]).0 as int,
                            writers@[kk].1 as int,
                        ),
                    forall|kk: int|
                        0 <= kk < streaming@.len() ==> writes_at(
                            passes@,
                            (#[trigger] streaming@[kk]).0 as int,
                            streaming@[kk].1 as int,
                        ) && streaming@[kk].0 <= q,
                    forall|kk: int|
                        0 <= kk < edges.len() ==> 0 <= (#[trigger] edges[kk]).0 < n && 0
                            <= edges[kk].1 < n && depends_on(passes@, edges[kk].0, edges[kk].1),
                    forall|x: int|
                        0 <= x < n ==> #[trigger] in_degree@[x] == indeg(
                            edges,
                            x,
                            Seq::<usize>::empty(),
                        ),
                    forall|x: int|
                        0 <= x < n && x != q ==> #[trigger] in_degree@[x] <= (passes@[x]@.len() as int)
                            * (w_total as int) && (x > q ==> in_degree@[x] == 0),
                    in_degree@[q as int] <= deg_before + k,
                    deg_before <= (ib as int) * (w_total as int),
                    forall|a: int, bb: int|
                        0 <= a < n && 0 <= bb < n ==> #[trigger] occ(successors@[a]@, bb)
                            == pair_count(edges, a, bb),
                    forall|a: int, kk: int|
                        0 <= a < n && 0 <= kk < successors@[a]@.len()
                            ==> #[trigger] successors@[a]@[kk] < n,
                    forall|pp: int, ia: int, qq: int, jb: int|
                        (qq < q || (qq == q && jb < ib)) && #[trigger] access_dep(
                            passes@,
                            pp,
                            ia,
                            qq,
                            jb,
                        ) ==> edges.contains((pp, qq)),
                    list == (if b_writes {
                        streaming@
                    } else {
                        writers@
                    }),
                    forall|kk: int|
                        0 <= kk < k ==> entry_covered(passes@, edges, #[trigger] list[kk], q, b.target),
                decreases list_len - k,
            {
                let (wp, wi) = if b_writes {
                    streaming[k]
                } else {
                    writers[k]
                };
                if wp != q && target_overlaps(&passes[wp][wi].target, &b.target) {
                    let ghost old_edges = edges;
                    let ghost e: (int, int) = (wp as int, q as int);
                    proof {
                        assert(access_dep(passes@, wp as int, wi as int, q as int, ib as int)) by {
                            if b_writes {
                                assert(streaming@[k as int] == (wp, wi));
                            } else {
                                assert(writers@[k as int] == (wp, wi));
                            }
                        }
                        edges = edges.push(e);
                        assert forall|x: int| 0 <= x < n implies #[trigger] indeg(
                            edges,
                            x,
                            Seq::<usize>::empty(),
                        ) == indeg(old_edges, x, Seq::<usize>::empty()) + (if x == q {
                            1nat
                        } else {
                            0nat
                        }) by {
                            lemma_indeg_push(old_edges, e, x, Seq::<usize>::empty());
                        }
                        assert forall|a: int, bb: int| 0 <= a < n && 0 <= bb < n implies pair_count(
                            edges,
                            a,
                            bb,
                        ) == pair_count(old_edges, a, bb) + (if e == (a, bb) {
                            1nat
                        } else {
                            0nat
                        }) by {
                            lemma_pair_count_push(old_edges, e, a, bb);
                        }
                        assert(in_degree@[q as int] <= (passes@[q as int]@.len() as int) * (
                        w_total as int) - 1) by (nonlinear_arith)
                            requires
                                in_degree@[q as int] <= deg_before + k,
                                deg_before <= (ib as int) * (w_total as int),
                                k < w_total,
                                ib < passes@[q as int]@.len(),
                        ;
                        assert(passes@[q as int]@.len() == passes@[q as int].len());
                        assert((passes@[q as int]@.len() as int) * (w_total as int) <= 0xFFFF_FFFF_FFFF_FFFE_0000_0000_0000_0001) by (nonlinear_arith)
                            requires
                                0 <= passes@[q as int]@.len() <= 0xFFFF_FFFF_FFFF_FFFF,
                                0 <= w_total <= 0xFFFF_FFFF_FFFF_FFFF,
                        ;
                    }
                    let d = in_degree[q];
                    in_degree.set(q, d + 1);
                    let ghost old_succ = successors@;
                    successors[wp].push(q);
                    proof {
                        assert forall|a: int, bb: int| 0 <= a < n && 0 <= bb < n implies #[trigger] occ(
                            successors@[a]@,
                            bb,
                        ) == pair_count(edges, a, bb) by {
                            if a == wp as int {
                                lemma_occ_push(old_succ[a]@, q, bb);
                            } else {
                                assert(successors@[a] == old_succ[a]);
                            }
                        }
                        assert forall|a: int, kk: int|
                            0 <= a < n && 0 <= kk < successors@[a]@.len() implies #[trigger] successors@[a]@[kk]
                            < n by {
                            if a == wp as int && kk == old_succ[a]@.len() {
                            } else if a == wp as int {
                                assert(successors@[a]@[kk] == old_succ[a]@[kk]);
                            } else {
                                assert(successors@[a] == old_succ[a]);
                            }
                        }
                        assert(edges[edges.len() - 1] == e);
                        assert forall|pp: int, ia: int, qq: int, jb: int|
                            (qq < q || (qq == q && jb < ib)) && #[trigger] access_dep(
                                passes@,
                                pp,
                                ia,
                                qq,
                                jb,
                            ) implies edges.contains((pp, qq)) by {
                            assert(old_edges.contains((pp, qq)));
                            let t = choose|t: int| 0 <= t < old_edges.len() && old_edges[t] == (pp, qq);
                            assert(edges[t] == (pp, qq));
                        }
                        assert forall|kk: int| 0 <= kk < k + 1 implies entry_covered(
                            passes@,
                            edges,
                            #[trigger] list[kk],
                            q,
                            b.target,
                        ) by {
                            let e2 = list[kk];
                            if kk == k {
                                assert(edges[edges.len() - 1] == (e2.0 as int, q as int));
                            } else if e2.0 != q && targets_overlap(
                                acc(passes@, e2.0 as int, e2.1 as int).target,
                                b.target,
                            ) {
                                let t = choose|t: int|
                                    0 <= t < old_edges.len() && old_edges[t] == (
                                        e2.0 as int,
                                        q as int,
                                    );
                                assert(edges[t] == old_edges[t]);
                            }
                        }
                    }
                }
                k += 1;
            }
            proof {
                // Every dependency of this access is now an edge.
                assert forall|pp: int, ia: int, qq: int, jb: int|
                    (qq < q || (qq == q && jb < ib + 1)) && #[trigger] access_dep(
                        passes@,
                        pp,
                        ia,
                        qq,
                        jb,
                    ) implies edges.contains((pp, qq)) by {
                    if qq == q && jb == ib {
                        assert(writes_at(passes@, pp, ia));
                        assert(acc(passes@, q as int, ib as int) == b);
                        assert(passes@[pp]@.len() == passes@[pp].len());
                        assert(pp as usize as int == pp);
                        assert(ia as usize as int == ia);
                        assert(targets_overlap(acc(passes@, pp, ia).target, b.target));
                        if b_writes {
                            assert(pp < q);
                            let kk = choose|kk: int|
                                0 <= kk < streaming@.len() && #[trigger] streaming@[kk] == (
                                    pp as usize,
                                    ia as usize,
                                );
                            assert(list[kk] == (pp as usize, ia as usize));
                            assert(entry_covered(passes@, edges, list[kk], q, b.target));
                        } else {
                            let kk = choose|kk: int|
                                0 <= kk < writers@.len() && #[trigger] writers@[kk] == (
                                    pp as usize,
                                    ia as usize,
                                );
                            assert(list[kk] == (pp as usize, ia as usize));
                            assert(entry_covered(passes@, edges, list[kk], q, b.target));
                        }
                    }
                }
                assert(in_degree@[q as int] <= ((ib + 1) as int) * (w_total as int)) by (nonlinear_arith)
                    requires
                        in_degree@[q as int] <= deg_before + list_len,
                        deg_before <= (ib as int) * (w_total as int),
                        list_len <= w_total,
                ;
            }
            if b_writes {
                let ghost old_s = streaming@;
                proof {
                    // A write access of this pass is one of the writers.
                    assert(writes_at(passes@, q as int, ib as int));
                    let kk = choose|kk: int|
                        0 <= kk < writers@.len() && #[trigger] writers@[kk] == (q, ib);
                    assert(writers@.contains((q, ib)));
                    assert forall|t: int| 0 <= t < old_s.len() implies writers@.contains(
                        #[trigger] old_s[t],
                    ) by {
                        let w = choose|w: int|
                            0 <= w < writers@.len() && #[trigger] writers@[w] == (
                                old_s[t].0 as usize,
                                old_s[t].1 as usize,
                            );
                    }
                    lemma_streaming_bound(writers@, old_s, (q, ib));
                }
                streaming.push((q, ib));
                proof {
                    assert(streaming@.no_duplicates()) by {
                        assert forall|i: int, j: int|
                            0 <= i < streaming@.len() && 0 <= j < streaming@.len() && i != j implies streaming@[i]
                            != streaming@[j] by {
                            if i == old_s.len() {
                                assert(streaming@[j] == old_s[j]);
                            } else if j == old_s.len() {
                                assert(streaming@[i] == old_s[i]);
                            } else {
                                assert(streaming@[i] == old_s[i] && streaming@[j] == old_s[j]);
                            }
                        }
                    }
                    assert forall|pp: int, ia: int|
                        (pp < q || (pp == q && ia < ib + 1)) && #[trigger] writes_at(
                            passes@,
                            pp,
                            ia,
                        ) implies exists|kk: int|
                        0 <= kk < streaming@.len() && #[trigger] streaming@[kk] == (
                            pp as usize,
                            ia as usize,
                        ) by {
                        if pp == q && ia == ib {
                            assert(streaming@[old_s.len() as int] == (pp as usize, ia as usize));
                        } else {
                            let kk = choose|kk: int|
                                0 <= kk < old_s.len() && #[trigger] old_s[kk] == (
                                    pp as usize,
                                    ia as usize,
                                );
                            assert(streaming@[kk] == old_s[kk]);
                        }
                    }
                }
            }
            ib += 1;
        }
        q += 1;
    }
    let g = DepGraph { in_degree, successors, edges: Ghost(edges) };
    proof {
        assert forall|p: int, q: int| depends_on(passes@, p, q) implies #[trigger] g.edges@.contains(
            (p, q),
        ) by {
            let (ia, ib) = choose|ia: int, ib: int| #[trigger] access_dep(passes@, p, ia, q, ib);
        }
    }
    g
}


/// A duplicate-free sequence of values below `n` has at most `n` entries.
pub proof fn lemma_distinct_bounded(s: Seq<usize>, n: int)
    requires
        0 <= n,
        s.no_duplicates(),
        forall|i: int| 0 <= i < s.len() ==> (#[trigger] s[i] as int) < n,
    ensures
        s.len() <= n,
{
    let t = s.map_values(|x: usize| x as int);
    assert(t.no_duplicates()) by {
        assert forall|i: int, j: int| 0 <= i < t.len() && 0 <= j < t.len() && i != j implies t[i]
            != t[j] by {
            assert(s[i] != s[j]);
        }
    }
    t.unique_seq_to_set();
    assert(t.to_set().subset_of(vstd::set_lib::set_int_range(0, n))) by {
        assert forall|y: int| t.to_set().contains(y) implies vstd::set_lib::set_int_range(0, n).contains(y) by {
            let k = choose|k: int| 0 <= k < t.len() && t[k] == y;
            assert(s[k] as int == y);
        }
    }
    vstd::set_lib::lemma_int_range(0, n);
    vstd::set_lib::lemma_len_subset(t.to_set(), vstd::set_lib::set_int_range(0, n));
}

/// A duplicate-free sequence all of whose entries occur in `b` is no
/// longer than `b`.
proof fn lemma_distinct_within(a: Seq<usize>, b: Seq<usize>)
    requires
        a.no_duplicates(),
        forall|i: int| 0 <= i < a.len() ==> b.contains(#[trigger] a[i]),
    ensures
        a.len() <= b.len(),
{
    a.unique_seq_to_set();
    assert(a.to_set().subset_of(b.to_set())) by {
        assert forall|y: usize| a.to_set().contains(y) implies b.to_set().contains(y) by {
            let k = choose|k: int| 0 <= k < a.len() && a[k] == y;
            assert(b.contains(a[k]));
        }
    }
    b.lemma_cardinality_of_set();
    vstd::set_lib::lemma_len_subset(a.to_set(), b.to_set());
}

/// Every pass of `o` comes after each of its prerequisites.
pub open spec fn prerequisites_first(passes: Seq<Vec<ResolvedAccess>>, o: Seq<usize>) -> bool {
    forall|i: int, p: int|
        0 <= i < o.len() && #[trigger] depends_on(passes, p, o[i] as int) ==> o.take(i).contains(
            p as usize,
        )
}

/// Every pass left out of `o` has a prerequisite that is left out too.
pub open spec fn stuck_outside(passes: Seq<Vec<ResolvedAccess>>, o: Seq<usize>) -> bool {
    forall|x: int| 0 <= x < passes.len() && !o.contains(x as usize) ==> #[trigger] blocked(passes, o, x)
}

/// `o` orders, without repeats and each after its prerequisites, every
/// pass that can be ordered: every pass left out waits on another pass
/// left out. Such orders all hold the same passes (see
/// `law_maximal_orders_agree`); they are the passes with no dependency
/// path from a cycle.
pub open spec fn maximal_order(passes: Seq<Vec<ResolvedAccess>>, o: Seq<usize>) -> bool {
    &&& o.no_duplicates()
    &&& forall|i: int| 0 <= i < o.len() ==> (#[trigger] o[i] as int) < passes.len()
    &&& prerequisites_first(passes, o)
    &&& stuck_outside(passes, o)
}

/// Every edge into an ordered pass comes from a pass ordered before it.
spec fn preds_before(edges: Seq<(int, int)>, enq: Seq<usize>) -> bool {
    forall|i: int, k: int|
        0 <= i < enq.len() && 0 <= k < edges.len() && (#[trigger] edges[k]).1 == enq[i] as int
            ==> #[trigger] enq.take(i).contains(edges[k].0 as usize)
}

/// Pass `x` has a prerequisite that is not ordered.
pub open spec fn blocked(passes: Seq<Vec<ResolvedAccess>>, sorted: Seq<usize>, x: int) -> bool {
    exists|p: int|
        0 <= p < passes.len() && !sorted.contains(p as usize) && #[trigger] depends_on(passes, p, x)
}

/// Along an execution order, when every unordered pass has an unordered
/// prerequisite, every pass of the first `i` is ordered.
proof fn lemma_order_prefix_sorted(
    passes: Seq<Vec<ResolvedAccess>>,
    sorted: Seq<usize>,
    o: Seq<usize>,
    i: int,
)
    requires
        0 <= i <= o.len(),
        passes.len() <= usize::MAX,
        is_execution_order(passes, o),
        forall|x: int|
            0 <= x < passes.len() && !sorted.contains(x as usize) ==> #[trigger] blocked(passes, sorted, x),
    ensures
        forall|j: int| 0 <= j < i ==> sorted.contains(#[trigger] o[j]),
    decreases i,
{
    if i > 0 {
        lemma_order_prefix_sorted(passes, sorted, o, i - 1);
        let x = o[i - 1];
        if !sorted.contains(x) {
            assert(x as int as usize == x);
            assert(blocked(passes, sorted, x as int));
            let p = choose|p: int|
                0 <= p < passes.len() && !sorted.contains(p as usize) && #[trigger] depends_on(
                    passes,
                    p,
                    x as int,
                );
            let pos = lemma_order_covers(passes, o, p);
            if pos > i - 1 {
                assert(!depends_on(passes, o[pos] as int, o[i - 1] as int));
            } else if pos < i - 1 {
                assert(sorted.contains(o[pos]));
                assert(o[pos] as int == p);
                assert(p as usize == o[pos]);
            } else {
                let (ia, ib) = choose|ia: int, ib: int| #[trigger] access_dep(passes, p, ia, x as int, ib);
            }
        }
    }
}

/// When some passes stay unordered and each of them has an unordered
/// prerequisite, no execution order exists.
proof fn lemma_no_order(passes: Seq<Vec<ResolvedAccess>>, sorted: Seq<usize>)
    requires
        sorted.no_duplicates(),
        sorted.len() < passes.len(),
        passes.len() <= usize::MAX,
        forall|x: int|
            0 <= x < passes.len() && !sorted.contains(x as usize) ==> #[trigger] blocked(passes, sorted, x),
    ensures
        !exists|o: Seq<usize>| is_execution_order(passes, o),
{
    if exists|o: Seq<usize>| is_execution_order(passes, o) {
        let o = choose|o: Seq<usize>| is_execution_order(passes, o);
        // By induction along `o`, every pass of `o` is in `sorted`.
        lemma_order_prefix_sorted(passes, sorted, o, o.len() as int);
        lemma_distinct_within(o, sorted);
    }
}

/// An execution order lists every pass.
proof fn lemma_order_covers(passes: Seq<Vec<ResolvedAccess>>, o: Seq<usize>, p: int) -> (pos: int)
    requires
        is_execution_order(passes, o),
        0 <= p < passes.len(),
        passes.len() <= usize::MAX,
    ensures
        0 <= pos < o.len(),
        o[pos] as int == p,
{
    if !o.contains(p as usize) {
        // `o` would then be a duplicate-free list of `n` values below `n`
        // that misses `p`.
        let t = o.push(p as usize);
        assert(t.no_duplicates()) by {
            assert forall|i: int, j: int| 0 <= i < t.len() && 0 <= j < t.len() && i != j implies t[i]
                != t[j] by {
                if i == o.len() {
                    assert(t[j] == o[j]);
                } else if j == o.len() {
                    assert(t[i] == o[i]);
                } else {
                    assert(t[i] == o[i] && t[j] == o[j]);
                }
            }
        }
        assert forall|i: int| 0 <= i < t.len() implies (#[trigger] t[i] as int) < passes.len() by {
            if i < o.len() {
                assert(t[i] == o[i]);
            }
        }
        lemma_distinct_bounded(t, passes.len() as int);
    }
    let pos = choose|k: int| 0 <= k < o.len() && o[k] == p as usize;
    pos
}

/// Order the passes by their dependencies (Kahn's algorithm, first-in
/// first-out among the passes whose prerequisites are all ordered).
///
/// The result lists distinct passes, each after every pass it depends on.
/// It lists every pass exactly when an execution order exists; otherwise
/// the dependencies form a cycle and the passes on or after the cycle are
/// left out.
#[verifier::loop_isolation(false)]
pub fn execution_order(passes: &Vec<Vec<ResolvedAccess>>) -> (order: Vec<usize>)
    ensures
        order@.no_duplicates(),
        forall|i: int| 0 <= i < order@.len() ==> #[trigger] order@[i] < passes@.len(),
        forall|i: int, j: int|
            0 <= i < j < order@.len() ==> !depends_on(
                passes@,
                #[trigger] order@[j] as int,
                #[trigger] order@[i] as int,
            ),
        order@.len() == passes@.len() <==> exists|o: Seq<usize>| is_execution_order(passes@, o),
        order@.len() == passes@.len() ==> is_execution_order(passes@, order@),
        maximal_order(passes@, order@),
{
    let n = passes.len();
    let g = build_dep_graph(passes);
    let DepGraph { mut in_degree, successors, edges } = g;
    let ghost edges = edges@;
    let mut sorted: Vec<usize> = Vec::new();
    let mut queue: VecDeque<usize> = VecDeque::new();

    let mut x: usize = 0;
    while x < n
        invariant
            x <= n,
            n == passes@.len(),
            in_degree@.len() == n,
            forall|y: int| 0 <= y < n ==> #[trigger] in_degree@[y] == indeg(
                edges,
                y,
                Seq::<usize>::empty(),
            ),
            queue@.no_duplicates(),
            forall|i: int| 0 <= i < queue@.len() ==> (#[trigger] queue@[i]) < x,
            forall|y: int| 0 <= y < x ==> (queue@.contains(y as usize) <==> #[trigger] in_degree@[y] == 0),
            preds_before(edges, queue@),
        decreases n - x,
    {
        if in_degree[x] == 0 {
            let ghost old_q = queue@;
            proof {
                lemma_indeg_zero(edges, x as int, Seq::<usize>::empty());
            }
            queue.push_back(x);
            proof {
                assert forall|i: int, j: int| 0 <= i < queue@.len() && 0 <= j < queue@.len() && i != j implies queue@[i]
                    != queue@[j] by {
                    if i == old_q.len() {
                        assert(queue@[j] == old_q[j]);
                    } else if j == old_q.len() {
                        assert(queue@[i] == old_q[i]);
                    }
                }
                assert forall|y: int| 0 <= y < x + 1 implies (queue@.contains(y as usize)
                    <==> #[trigger] in_degree@[y] == 0) by {
                    if y == x {
                        assert(queue@[old_q.len() as int] == x);
                    } else if queue@.contains(y as usize) {
                        let k = choose|k: int| 0 <= k < queue@.len() && queue@[k] == y as usize;
                        if k < old_q.len() {
                            assert(old_q[k] == y as usize);
                        }
                    } else if old_q.contains(y as usize) {
                        let k = choose|k: int| 0 <= k < old_q.len() && old_q[k] == y as usize;
                        assert(queue@[k] == y as usize);
                    }
                }
                assert forall|i: int, k: int|
                    0 <= i < queue@.len() && 0 <= k < edges.len() && (#[trigger] edges[k]).1
                        == queue@[i] as int implies #[trigger] queue@.take(i).contains(
                    edges[k].0 as usize,
                ) by {
                    if i < old_q.len() {
                        assert(queue@.take(i) =~= old_q.take(i));
                    } else {
                        assert(Seq::<usize>::empty().contains(edges[k].0 as usize));
                    }
                }
            }
        }
        x += 1;
    }
    proof {
        assert(sorted@ + queue@ =~= queue@);
    }

    loop
        invariant
            n == passes@.len(),
            in_degree@.len() == n,
            successors@.len() == n,
            forall|k: int|
                0 <= k < edges.len() ==> 0 <= (#[trigger] edges[k]).0 < n && 0 <= edges[k].1 < n,
            forall|k: int| 0 <= k < edges.len() ==> depends_on(passes@, (#[trigger] edges[k]).0, edges[k].1),
            forall|p: int, q: int| depends_on(passes@, p, q) ==> #[trigger] edges.contains((p, q)),
            forall|p: int, q: int|
                0 <= p < n && 0 <= q < n ==> #[trigger] occ(successors@[p]@, q) == pair_count(
                    edges,
                    p,
                    q,
                ),
            forall|p: int, k: int|
                0 <= p < n && 0 <= k < successors@[p]@.len() ==> #[trigger] successors@[p]@[k] < n,
            forall|y: int| 0 <= y < n ==> #[trigger] in_degree@[y] == indeg(edges, y, sorted@),
            (sorted@ + queue@).no_duplicates(),
            forall|i: int| 0 <= i < (sorted@ + queue@).len() ==> (#[trigger] (sorted@ + queue@)[i]) < n,
            forall|y: int| 0 <= y < n ==> ((sorted@ + queue@).contains(y as usize) <==> #[trigger] in_degree@[y] == 0),
            preds_before(edges, sorted@ + queue@),
        decreases n - sorted@.len(),
    {
        let ghost enq = sorted@ + queue@;
        proof {
            lemma_distinct_bounded(enq, n as int);
        }
        let p = match queue.pop_front() {
            Some(p) => p,
            None => break,
        };
        let ghost sorted_before = sorted@;
        sorted.push(p);
        proof {
            assert(sorted@ + queue@ =~= enq);
            assert(enq[sorted_before.len() as int] == p);
            assert(p < n);
            assert(!sorted_before.contains(p)) by {
                if sorted_before.contains(p) {
                    let k = choose|k: int| 0 <= k < sorted_before.len() && sorted_before[k] == p;
                    assert(enq[k] == p);
                    assert(enq[sorted_before.len() as int] == p);
                }
            }
            assert forall|y: int| 0 <= y < n implies indeg(edges, y, sorted_before) == indeg(
                edges,
                y,
                sorted@,
            ) + pair_count(edges, p as int, y) by {
                lemma_indeg_done_push(edges, y, sorted_before, p);
            }
        }
        let succ = &successors[p];
        let m = succ.len();
        let mut j: usize = 0;
        while j < m
            invariant
                j <= m,
                m == succ@.len(),
                n == passes@.len(),
                p < n,
                succ@ == successors@[p as int]@,
                in_degree@.len() == n,
                !sorted_before.contains(p),
                sorted@ == sorted_before.push(p),
                forall|q: int| 0 <= q < n ==> #[trigger] occ(succ@, q) == pair_count(edges, p as int, q),
                forall|k: int| 0 <= k < m ==> #[trigger] succ@[k] < n,
                forall|y: int|
                    0 <= y < n ==> indeg(edges, y, sorted_before) == indeg(edges, y, sorted@)
                        + pair_count(edges, p as int, y),
                forall|y: int|
                    0 <= y < n ==> #[trigger] in_degree@[y] + occ(succ@.take(j as int), y) == indeg(
                        edges,
                        y,
                        sorted_before,
                    ),
                (sorted@ + queue@).no_duplicates(),
                forall|i: int| 0 <= i < (sorted@ + queue@).len() ==> (#[trigger] (sorted@ + queue@)[i]) < n,
                forall|y: int| 0 <= y < n ==> ((sorted@ + queue@).contains(y as usize) <==> #[trigger] in_degree@[y] == 0),
                preds_before(edges, sorted@ + queue@),
                forall|k: int|
                    0 <= k < edges.len() ==> 0 <= (#[trigger] edges[k]).0 < n && 0 <= edges[k].1 < n,
            decreases m - j,
        {
            let y = succ[j];
            proof {
                lemma_occ_take_le(succ@, j as int + 1, y as int);
                assert(succ@.take(j as int + 1).drop_last() =~= succ@.take(j as int));
                lemma_occ_push(succ@.take(j as int), y, y as int);
                assert(succ@.take(j as int + 1) =~= succ@.take(j as int).push(y));
            }
            let d = in_degree[y];
            in_degree.set(y, d - 1);
            proof {
                assert forall|z: int| 0 <= z < n implies #[trigger] in_degree@[z] + occ(
                    succ@.take(j as int + 1),
                    z,
                ) == indeg(edges, z, sorted_before) by {
                    lemma_occ_push(succ@.take(j as int), y, z);
                }
            }
            if d - 1 == 0 {
                let ghost old_enq = sorted@ + queue@;
                let ghost old_q = queue@;
                proof {
                    // `y` now has no open prerequisite.
                    lemma_occ_take_le(succ@, j as int + 1, y as int);
                    assert(indeg(edges, y as int, sorted@) == 0);
                    lemma_indeg_zero(edges, y as int, sorted@);
                    assert(!old_enq.contains(y));
                }
                queue.push_back(y);
                proof {
                    let e2 = sorted@ + queue@;
                    assert(e2 =~= old_enq.push(y));
                    assert forall|a: int, b: int| 0 <= a < e2.len() && 0 <= b < e2.len() && a != b implies e2[a]
                        != e2[b] by {
                        if a == old_enq.len() {
                            assert(e2[b] == old_enq[b]);
                        } else if b == old_enq.len() {
                            assert(e2[a] == old_enq[a]);
                        } else {
                            assert(e2[a] == old_enq[a] && e2[b] == old_enq[b]);
                        }
                    }
                    assert forall|i: int| 0 <= i < e2.len() implies (#[trigger] e2[i]) < n by {
                        if i < old_enq.len() {
                            assert(e2[i] == old_enq[i]);
                        }
                    }
                    assert forall|z: int| 0 <= z < n implies (e2.contains(z as usize)
                        <==> #[trigger] in_degree@[z] == 0) by {
                        if z == y as int {
                            assert(e2[old_enq.len() as int] == y);
                        } else if e2.contains(z as usize) {
                            let k = choose|k: int| 0 <= k < e2.len() && e2[k] == z as usize;
                            if k < old_enq.len() {
                                assert(old_enq[k] == z as usize);
                            }
                        } else if old_enq.contains(z as usize) {
                            let k = choose|k: int| 0 <= k < old_enq.len() && old_enq[k] == z as usize;
                            assert(e2[k] == z as usize);
                        }
                    }
                    assert forall|i: int, k: int|
                        0 <= i < e2.len() && 0 <= k < edges.len() && (#[trigger] edges[k]).1
                            == e2[i] as int implies #[trigger] e2.take(i).contains(edges[k].0 as usize) by {
                        if i < old_enq.len() {
                            assert(e2.take(i) =~= old_enq.take(i));
                            assert(old_enq[i] == e2[i]);
                        } else {
                            assert(sorted@.contains(edges[k].0 as usize));
                            let t = choose|t: int| 0 <= t < sorted@.len() && sorted@[t] == edges[k].0 as usize;
                            assert(e2.take(i)[t] == sorted@[t]);
                        }
                    }
                }
            }
            j += 1;
        }
        proof {
            assert(succ@.take(m as int) =~= succ@);
        }
    }

    proof {
        assert(queue@.len() == 0);
        assert(sorted@ + queue@ =~= sorted@);
        let s = sorted@;
        // Order property.
        assert forall|i: int, j: int|
            0 <= i < j < s.len() implies !depends_on(passes@, #[trigger] s[j] as int, #[trigger] s[i] as int) by {
            if depends_on(passes@, s[j] as int, s[i] as int) {
                assert(edges.contains((s[j] as int, s[i] as int)));
                let k = choose|k: int| 0 <= k < edges.len() && edges[k] == (s[j] as int, s[i] as int);
                assert(s.take(i).contains(edges[k].0 as usize));
                let t = choose|t: int| 0 <= t < s.take(i).len() && s.take(i)[t] == edges[k].0 as usize;
                assert(s[t] == s[j]);
            }
        }
        assert forall|i: int, q: int|
            0 <= i < s.len() && #[trigger] depends_on(passes@, q, s[i] as int) implies s.take(i).contains(
            q as usize,
        ) by {
            assert(edges.contains((q, s[i] as int)));
            let k = choose|k: int| 0 <= k < edges.len() && edges[k] == (q, s[i] as int);
            assert(edges[k].1 == s[i] as int);
        }
        assert forall|x: int|
            0 <= x < passes@.len() && !s.contains(x as usize) implies #[trigger] blocked(passes@, s, x) by {
            assert(in_degree@[x] != 0);
            let k = lemma_indeg_pos(edges, x, s);
            assert(depends_on(passes@, edges[k].0, edges[k].1));
        }
        if s.len() < n {
            lemma_no_order(passes@, s);
        } else {
            assert(is_execution_order(passes@, s));
        }
    }
    sorted
}

/// All maximal orders of the same passes hold the same passes, so they have
/// the same length: how many passes an ordering reaches before a cycle
/// stops it does not depend on which maximal order was taken.
pub proof fn law_maximal_orders_agree(passes: Seq<Vec<ResolvedAccess>>, a: Seq<usize>, b: Seq<usize>)
    requires
        maximal_order(passes, a),
        maximal_order(passes, b),
    ensures
        forall|x: usize| a.contains(x) <==> b.contains(x),
        a.len() == b.len(),
{
    lemma_maximal_within(passes, a, b, a.len() as int);
    lemma_maximal_within(passes, b, a, b.len() as int);
    assert forall|x: usize| a.contains(x) <==> b.contains(x) by {
        if a.contains(x) {
            let i = choose|i: int| 0 <= i < a.len() && a[i] == x;
        }
        if b.contains(x) {
            let i = choose|i: int| 0 <= i < b.len() && b[i] == x;
        }
    }
    lemma_distinct_within(a, b);
    lemma_distinct_within(b, a);
}

/// The first `n` passes of a maximal order `a` are in every maximal order
/// `b`.
proof fn lemma_maximal_within(passes: Seq<Vec<ResolvedAccess>>, a: Seq<usize>, b: Seq<usize>, n: int)
    requires
        maximal_order(passes, a),
        maximal_order(passes, b),
        0 <= n <= a.len(),
    ensures
        forall|i: int| 0 <= i < n ==> b.contains(#[trigger] a[i]),
    decreases n,
{
    if n > 0 {
        lemma_maximal_within(passes, a, b, n - 1);
        let x = a[n - 1];
        if !b.contains(x) {
            assert((x as int) < passes.len());
            assert(blocked(passes, b, x as int));
            let p = choose|p: int|
                0 <= p < passes.len() && !b.contains(p as usize) && #[trigger] depends_on(passes, p, x as int);
            assert(depends_on(passes, p, a[n - 1] as int));
            assert(a.take(n - 1).contains(p as usize));
            let pre = a.take(n - 1);
            let t = choose|t: int| 0 <= t < pre.len() && #[trigger] pre[t] == p as usize;
            assert(pre[t] == a[t]);
            assert(a[t] == p as usize);
            assert(b.contains(a[t]));
        }
    }
}

} // verus!
