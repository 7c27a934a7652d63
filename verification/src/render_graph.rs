//! Render graph: a ring of command lists and the per-frame planning of
//! its passes — execution order and, per access, the access that last
//! touched the same GPU subresources in the frame.

use vstd::prelude::*;
use vstd::string::*;
use crate::access_type::AccessType;
use crate::error::{Error, ErrorView};
use crate::graph_resource::ImageSubRange;
use crate::keys::TextureKey;
use crate::command_lists::{CommandListSource, CreationLog};
use crate::pass_order::{
    execution_order, is_execution_order, maximal_order, target_overlaps, targets_overlap, AccessTarget,
    ResolvedAccess,
};

verus! {

// ---------------------------------------------------------------------
// Per-frame access history
// ---------------------------------------------------------------------

/// Every overlapping entry of the history has access type `t`, and there
/// is at least one.
pub open spec fn unanimous(hist: Seq<(AccessTarget, AccessType)>, q: AccessTarget, t: AccessType) -> bool {
    &&& exists|i: int| 0 <= i < hist.len() && #[trigger] targets_overlap(hist[i].0, q)
    &&& forall|i: int| 0 <= i < hist.len() && #[trigger] targets_overlap(hist[i].0, q) ==> hist[i].1 == t
}

/// The access that previously touched `q`: the access type shared by
/// every overlapping history entry, or none when no entry overlaps or the
/// overlapping entries disagree.
pub open spec fn previous_access(hist: Seq<(AccessTarget, AccessType)>, q: AccessTarget) -> Option<AccessType> {
    if exists|t: AccessType| unanimous(hist, q, t) {
        Some(choose|t: AccessType| unanimous(hist, q, t))
    } else {
        None
    }
}

/// History of the accesses made so far in a frame, in the order they were
/// made.
pub struct AccessHistory {
    entries: Vec<(AccessTarget, AccessType)>,
}

impl View for AccessHistory {
    type V = Seq<(AccessTarget, AccessType)>;

    closed spec fn view(&self) -> Seq<(AccessTarget, AccessType)> {
        self.entries@
    }
}

impl AccessHistory {
    /// An empty history.
    pub fn new() -> (h: Self)
        ensures
            h@ == Seq::<(AccessTarget, AccessType)>::empty(),
    {
        AccessHistory { entries: Vec::new() }
    }

    /// Forget every access.
    pub fn clear(&mut self)
        ensures
            final(self)@ == Seq::<(AccessTarget, AccessType)>::empty(),
    {
        self.entries.clear();
    }

    /// Append an access.
    pub fn record(&mut self, target: AccessTarget, access_type: AccessType)
        ensures
            final(self)@ == old(self)@.push((target, access_type)),
    {
        self.entries.push((target, access_type));
    }

    /// The access type that previously touched a sub-range overlapping
    /// `query`: `None` when nothing overlaps, or when the overlapping
    /// entries disagree on the access type (the conservative answer).
    pub fn find_previous(&self, query: &AccessTarget) -> (r: Option<AccessType>)
        ensures
            r == previous_access(self@, *query),
    {
        let mut found: Option<AccessType> = None;
        let mut i: usize = 0;
        while i < self.entries.len()
            invariant
                i <= self.entries@.len(),
                found is None ==> forall|j: int|
                    0 <= j < i ==> !#[trigger] targets_overlap(self@[j].0, *query),
                found matches Some(t) ==> (exists|j: int|
                    0 <= j < i && #[trigger] targets_overlap(self@[j].0, *query)) && forall|j: int|
                    0 <= j < i && #[trigger] targets_overlap(self@[j].0, *query) ==> self@[j].1 == t,
            decreases self.entries@.len() - i,
        {
            let (target, ty) = self.entries[i];
            if target_overlaps(&target, query) {
                match found {
                    None => {
                        found = Some(ty);
                    },
                    Some(prev) => {
                        if prev != ty {
                            proof {
                                let j0 = choose|j: int|
                                    0 <= j < i && #[trigger] targets_overlap(self@[j].0, *query);
                                assert forall|t: AccessType| !unanimous(self@, *query, t) by {
                                    if unanimous(self@, *query, t) {
                                        assert(self@[j0].1 == t);
                                        assert(self@[i as int].1 == t);
                                    }
                                }
                            }
                            return None;
                        }
                    },
                }
            }
            i += 1;
        }
        proof {
            match found {
                None => {
                    assert forall|t: AccessType| !unanimous(self@, *query, t) by {}
                },
                Some(t) => {
                    assert(unanimous(self@, *query, t));
                    let c = choose|t: AccessType| unanimous(self@, *query, t);
                    let j0 = choose|j: int| 0 <= j < self@.len() && #[trigger] targets_overlap(
                        self@[j].0,
                        *query,
                    );
                    assert(self@[j0].1 == t && self@[j0].1 == c);
                },
            }
        }
        found
    }
}

// ---------------------------------------------------------------------
// Frame plan
// ---------------------------------------------------------------------

/// An access of a pass, with the access type that last touched the same
/// subresources in this frame (`None` on first use or on disagreement).
#[derive(Debug, Clone, Copy, PartialEq, Eq, Structural)]
pub struct AccessBarrier {
    pub target: AccessTarget,
    pub access_type: AccessType,
    pub previous_access_type: Option<AccessType>,
}

/// History entries that one access contributes: the access itself when its
/// target is known, then its resolve texture, written as a color
/// attachment, when it has one.
pub open spec fn access_records(
    a: ResolvedAccess,
    resolve: Option<(TextureKey, ImageSubRange)>,
) -> Seq<(AccessTarget, AccessType)> {
    let own = if a.target is Unresolved {
        Seq::<(AccessTarget, AccessType)>::empty()
    } else {
        seq![(a.target, a.access_type)]
    };
    match resolve {
        Some((k, r)) => own.push(
            (AccessTarget::Image { texture_key: k, range: r }, AccessType::ColorAttachmentWrite),
        ),
        None => own,
    }
}

/// History entries of the first `k` accesses of a pass.
pub open spec fn pass_records(
    accesses: Seq<ResolvedAccess>,
    resolves: Seq<Option<(TextureKey, ImageSubRange)>>,
    k: int,
) -> Seq<(AccessTarget, AccessType)>
    decreases k,
{
    if k <= 0 {
        Seq::empty()
    } else {
        pass_records(accesses, resolves, k - 1) + access_records(accesses[k - 1], resolves[k - 1])
    }
}

/// History entries of the passes `order[0..i]`, run in that order.
pub open spec fn frame_records(
    accesses: Seq<Vec<ResolvedAccess>>,
    resolves: Seq<Vec<Option<(TextureKey, ImageSubRange)>>>,
    order: Seq<usize>,
    i: int,
) -> Seq<(AccessTarget, AccessType)>
    decreases i,
{
    if i <= 0 {
        Seq::empty()
    } else {
        let p = order[i - 1] as int;
        frame_records(accesses, resolves, order, i - 1) + pass_records(
            accesses[p]@,
            resolves[p]@,
            accesses[p]@.len() as int,
        )
    }
}

/// Barriers of one pass, given the history before it.
pub open spec fn pass_barriers_ok(
    accesses: Seq<ResolvedAccess>,
    resolves: Seq<Option<(TextureKey, ImageSubRange)>>,
    before: Seq<(AccessTarget, AccessType)>,
    barriers: Seq<AccessBarrier>,
) -> bool {
    &&& barriers.len() == accesses.len()
    &&& forall|k: int|
        0 <= k < barriers.len() ==> #[trigger] barriers[k] == (AccessBarrier {
            target: accesses[k].target,
            access_type: accesses[k].access_type,
            previous_access_type: if accesses[k].target is Unresolved {
                None
            } else {
                previous_access(before + pass_records(accesses, resolves, k), accesses[k].target)
            },
        })
}

/// Message: the dependencies form a cycle.
pub open spec fn msg_cycle(name: Seq<char>, ordered: nat, total: nat) -> Seq<char> {
    "RenderGraph '"@ + name + "': cycle detected ("@ + decimal(ordered) + " of "@ + decimal(total)
        + " passes ordered)"@
}

/// Decimal digits of a natural number.
pub open spec fn decimal(n: nat) -> Seq<char>
    decreases n,
{
    if n < 10 {
        seq![digit_char(n)]
    } else {
        decimal(n / 10) + seq![digit_char(n % 10)]
    }
}

/// The character of a decimal digit.
pub open spec fn digit_char(d: nat) -> char {
    if d == 0 {
        '0'
    } else if d == 1 {
        '1'
    } else if d == 2 {
        '2'
    } else if d == 3 {
        '3'
    } else if d == 4 {
        '4'
    } else if d == 5 {
        '5'
    } else if d == 6 {
        '6'
    } else if d == 7 {
        '7'
    } else if d == 8 {
        '8'
    } else {
        '9'
    }
}

/// The digit `d` (below 10) as a one-character string.
fn digit_str(d: usize) -> (s: &'static str)
    requires
        d < 10,
    ensures
        s@ == seq![digit_char(d as nat)],
{
    if d == 0 {
        proof {
            reveal_strlit("0");
        }
        "0"
    } else if d == 1 {
        proof {
            reveal_strlit("1");
        }
        "1"
    } else if d == 2 {
        proof {
            reveal_strlit("2");
        }
        "2"
    } else if d == 3 {
        proof {
            reveal_strlit("3");
        }
        "3"
    } else if d == 4 {
        proof {
            reveal_strlit("4");
        }
        "4"
    } else if d == 5 {
        proof {
            reveal_strlit("5");
        }
        "5"
    } else if d == 6 {
        proof {
            reveal_strlit("6");
        }
        "6"
    } else if d == 7 {
        proof {
            reveal_strlit("7");
        }
        "7"
    } else if d == 8 {
        proof {
            reveal_strlit("8");
        }
        "8"
    } else {
        proof {
            reveal_strlit("9");
        }
        "9"
    }
}

/// Decimal rendering of a count.
pub(crate) fn usize_to_decimal(n: usize) -> (s: String)
    ensures
        s@ == decimal(n as nat),
    decreases n,
{
    if n < 10 {
        String::from_str(digit_str(n))
    } else {
        let mut s = usize_to_decimal(n / 10);
        s.append(digit_str(n % 10));
        s
    }
}

/// What planning a frame does to a graph and returns: when no execution
/// order exists, an error giving how many passes can be ordered (those of
/// any maximal order, see `law_maximal_orders_agree`) out of all, leaving
/// the ring where it was;
/// else the ring's next slot, an execution order, and for every pass in
/// that order the barriers of its accesses given the history of the frame
/// before it.
pub open spec fn frame_planned(
    before: RenderGraph,
    after: RenderGraph,
    accesses: Seq<Vec<ResolvedAccess>>,
    resolves: Seq<Vec<Option<(TextureKey, ImageSubRange)>>>,
    r: Result<FramePlan, Error>,
) -> bool {
    &&& after.wf()
    &&& after.spec_name() == before.spec_name()
    &&& after.spec_frames_in_flight() == before.spec_frames_in_flight()
    &&& r is Ok <==> exists|o: Seq<usize>| is_execution_order(accesses, o)
    &&& r matches Err(e) ==> after.spec_current_frame() == before.spec_current_frame() && exists|o: Seq<usize>|
        #[trigger] maximal_order(accesses, o) && o.len() < accesses.len() && e@ == ErrorView::BackendError(
            msg_cycle(before.spec_name(), o.len(), accesses.len()),
        )
    &&& r matches Ok(plan) ==> {
        &&& plan.frame == after.spec_current_frame()
        &&& plan.frame == (before.spec_current_frame() as int + 1) % (
        before.spec_frames_in_flight() as int)
        &&& is_execution_order(accesses, plan.order@)
        &&& plan.barriers@.len() == plan.order@.len()
        &&& forall|i: int|
            0 <= i < plan.order@.len() ==> pass_barriers_ok(
                accesses[plan.order@[i] as int]@,
                resolves[plan.order@[i] as int]@,
                frame_records(accesses, resolves, plan.order@, i),
                #[trigger] plan.barriers@[i]@,
            )
    }
}

/// What creating a ring of `frames` command lists did, from the device's
/// record of creations before and after: one creation per list, in order,
/// all successful on success; on failure the creations stop at the first
/// failing one, whose error is the one returned.
pub open spec fn ring_created<C>(
    before: Seq<Option<Error>>,
    after: Seq<Option<Error>>,
    frames: nat,
    r: Result<Vec<C>, Error>,
) -> bool {
    let made = after.skip(before.len() as int);
    &&& after.len() >= before.len()
    &&& after.take(before.len() as int) == before
    &&& forall|i: int| 0 <= i < made.len() - 1 ==> (#[trigger] made[i]) is None
    &&& match r {
        Ok(v) => v@.len() == frames && made.len() == frames && (frames > 0 ==> made.last() is None),
        Err(e) => 0 < made.len() <= frames && made.last() == Some(e),
    }
}

/// Create the ring of a render graph: `frames_in_flight` command lists,
/// one call to the device each, in order. The first failing call stops the
/// creation and its error is returned as the device gave it; with no
/// frames, no call is made.
pub fn create_command_lists<C, D: CommandListSource<C>>(device: &mut CreationLog<D>, frames_in_flight: usize) -> (r:
    Result<Vec<C>, Error>)
    ensures
        ring_created(old(device).outcomes(), final(device).outcomes(), frames_in_flight as nat, r),
        r is Err ==> frames_in_flight > 0,
        frames_in_flight == 0 ==> (r matches Ok(v) && v@.len() == 0) && final(device).outcomes()
            == old(device).outcomes(),
{
    let ghost before = device.outcomes();
    let mut lists: Vec<C> = Vec::new();
    let mut i: usize = 0;
    while i < frames_in_flight
        invariant
            i <= frames_in_flight,
            lists@.len() == i,
            before == old(device).outcomes(),
            device.outcomes().len() == before.len() + i,
            device.outcomes().take(before.len() as int) == before,
            forall|j: int| before.len() <= j < device.outcomes().len() ==> (#[trigger] device.outcomes()[j]) is None,
        decreases frames_in_flight - i,
    {
        let ghost prev = device.outcomes();
        let c = device.create();
        proof {
            let now = device.outcomes();
            assert(now.take(before.len() as int) =~= prev.take(before.len() as int));
        }
        match c {
            Ok(c) => lists.push(c),
            Err(e) => {
                proof {
                    let now = device.outcomes();
                    let made = now.skip(before.len() as int);
                    assert(made.len() == i + 1);
                    assert forall|j: int| 0 <= j < made.len() - 1 implies (#[trigger] made[j]) is None by {
                        assert(made[j] == now[before.len() + j]);
                        assert(now[before.len() + j] == prev[before.len() + j]);
                    }
                    assert(made.last() == now.last());
                    assert(now == prev.push(Some(e)));
                    assert(made.last() == Some(e));
                    assert(before == old(device).outcomes());
                }
                return Err(e);
            },
        }
        proof {
            let now = device.outcomes();
            assert forall|j: int| before.len() <= j < now.len() implies (#[trigger] now[j]) is None by {
                if j < prev.len() {
                    assert(now[j] == prev[j]);
                }
            }
        }
        i += 1;
    }
    proof {
        let now = device.outcomes();
        let made = now.skip(before.len() as int);
        assert forall|j: int| 0 <= j < made.len() implies (#[trigger] made[j]) is None by {
            assert(made[j] == now[before.len() + j]);
        }
        if frames_in_flight == 0 {
            assert(now =~= before);
        }
    }
    Ok(lists)
}

/// Render graph: a name and a ring of frames in flight. The command list of
/// each ring slot belongs to the caller; the graph decides which slot a
/// frame records into and what each pass of the frame needs.
pub struct RenderGraph {
    name: String,
    frames_in_flight: usize,
    current_frame: usize,
}

/// Everything a frame runs: the ring slot it records into, and its passes
/// in execution order with their barriers.
pub struct FramePlan {
    pub frame: usize,
    pub order: Vec<usize>,
    pub barriers: Vec<Vec<AccessBarrier>>,
}

impl RenderGraph {
    /// Ring invariant: the current slot is one of the ring's slots.
    pub closed spec fn wf(&self) -> bool {
        self.current_frame < self.frames_in_flight
    }

    /// Name of the graph.
    pub closed spec fn spec_name(&self) -> Seq<char> {
        self.name@
    }

    /// Number of ring slots.
    pub closed spec fn spec_frames_in_flight(&self) -> nat {
        self.frames_in_flight as nat
    }

    /// Ring slot recorded by the most recent frame.
    pub closed spec fn spec_current_frame(&self) -> nat {
        self.current_frame as nat
    }

    /// Create a graph with `frames_in_flight` ring slots. Fails with
    /// `BackendError` when there are none. The current slot starts on the
    /// last one, so the first frame records into slot 0.
    pub fn new(name: String, frames_in_flight: usize) -> (r: Result<Self, Error>)
        ensures
            r is Ok <==> frames_in_flight > 0,
            r matches Ok(g) ==> g.wf() && g.spec_name() == name@ && g.spec_frames_in_flight()
                == frames_in_flight && g.spec_current_frame() == frames_in_flight - 1,
            r matches Err(e) ==> e@ == ErrorView::BackendError(
                "frames_in_flight must be at least 1"@,
            ),
    {
        if frames_in_flight == 0 {
            let msg = String::from_str("frames_in_flight must be at least 1");
            proof {
                reveal_strlit("frames_in_flight must be at least 1");
            }
            return Err(Error::BackendError(msg));
        }
        Ok(RenderGraph { name, frames_in_flight, current_frame: frames_in_flight - 1 })
    }

    /// Name of the graph.
    pub fn name(&self) -> (s: &String)
        ensures
            s@ == self.spec_name(),
    {
        &self.name
    }

    /// Number of ring slots.
    pub fn frames_in_flight(&self) -> (n: usize)
        ensures
            n == self.spec_frames_in_flight(),
    {
        self.frames_in_flight
    }

    /// Ring slot recorded by the most recent frame.
    pub fn current_frame(&self) -> (n: usize)
        ensures
            n == self.spec_current_frame(),
    {
        self.current_frame
    }

    /// A copy of the graph.
    pub fn duplicate(&self) -> (g: Self)
        ensures
            g.spec_name() == self.spec_name(),
            g.spec_frames_in_flight() == self.spec_frames_in_flight(),
            g.spec_current_frame() == self.spec_current_frame(),
            g.wf() == self.wf(),
    {
        RenderGraph {
            name: self.name.clone(),
            frames_in_flight: self.frames_in_flight,
            current_frame: self.current_frame,
        }
    }

    /// Plan one frame of the given passes: `accesses[p]` are the accesses
    /// of pass `p` resolved to GPU targets, and `resolves[p][k]` is the
    /// MSAA resolve texture view that access `k` also writes at the end of
    /// the pass, if any.
    ///
    /// Orders the passes by their dependencies; fails with `BackendError`
    /// when they form a cycle, leaving the graph unchanged. Otherwise
    /// advances the ring to its next slot, and for every pass in order and
    /// every access of it, in declaration order, pairs the access with the
    /// access type that last touched overlapping subresources of the same
    /// GPU resource in this frame; the history starts empty each frame.
    pub fn plan_frame(
        &mut self,
        accesses: &Vec<Vec<ResolvedAccess>>,
        resolves: &Vec<Vec<Option<(TextureKey, ImageSubRange)>>>,
    ) -> (r: Result<FramePlan, Error>)
        requires
            old(self).wf(),
            resolves@.len() == accesses@.len(),
            forall|i: int|
                0 <= i < accesses@.len() ==> (#[trigger] resolves@[i])@.len() == accesses@[i]@.len(),
        ensures
            frame_planned(*old(self), *final(self), accesses@, resolves@, r),
    {
        let n = accesses.len();
        let order = execution_order(accesses);
        if order.len() != n {
            let mut msg = String::from_str("RenderGraph '");
            msg.append(self.name.as_str());
            msg.append("': cycle detected (");
            let a = usize_to_decimal(order.len());
            msg.append(a.as_str());
            msg.append(" of ");
            let b = usize_to_decimal(n);
            msg.append(b.as_str());
            msg.append(" passes ordered)");
            proof {
                reveal_strlit("RenderGraph '");
                reveal_strlit("': cycle detected (");
                reveal_strlit(" of ");
                reveal_strlit(" passes ordered)");
                assert(msg@ =~= msg_cycle(self.name@, order@.len(), n as nat));
                lemma_order_len_le(accesses@, order@);
                let k: nat = order@.len();
                assert(k < accesses@.len());
            }
            let err = Error::BackendError(msg);
            proof {
                let k: nat = order@.len();
                assert(err@ == ErrorView::BackendError(msg_cycle(old(self).spec_name(), k, accesses@.len())));
                assert(k < accesses@.len());
                assert(maximal_order(accesses@, order@));
            }
            return Err(err);
        }
        let frame = (self.current_frame + 1) % self.frames_in_flight;
        self.current_frame = frame;
        let mut history = AccessHistory::new();

        let mut barriers: Vec<Vec<AccessBarrier>> = Vec::new();
        let mut oi: usize = 0;
        while oi < n
            invariant
                oi <= n,
                n == accesses@.len(),
                resolves@.len() == n,
                forall|i: int|
                    0 <= i < accesses@.len() ==> (#[trigger] resolves@[i])@.len()
                        == accesses@[i]@.len(),
                order@.len() == n,
                is_execution_order(accesses@, order@),
                barriers@.len() == oi,
                history@ == frame_records(accesses@, resolves@, order@, oi as int),
                forall|j: int|
                    0 <= j < oi ==> pass_barriers_ok(
                        accesses@[order@[j] as int]@,
                        resolves@[order@[j] as int]@,
                        frame_records(accesses@, resolves@, order@, j),
                        #[trigger] barriers@[j]@,
                    ),
                self.current_frame == frame,
                frame < self.frames_in_flight,
                self.name@ == old(self).name@,
                self.frames_in_flight == old(self).frames_in_flight,
            decreases n - oi,
        {
            let pi = order[oi];
            let pass = &accesses[pi];
            let pres = &resolves[pi];
            let ghost before = history@;
            let m = pass.len();
            let mut pass_barriers: Vec<AccessBarrier> = Vec::new();
            let mut k: usize = 0;
            while k < m
                invariant
                    k <= m,
                    m == pass@.len(),
                    pres@.len() == m,
                    pass_barriers@.len() == k,
                    history@ == before + pass_records(pass@, pres@, k as int),
                    forall|j: int|
                        0 <= j < k ==> #[trigger] pass_barriers@[j] == (AccessBarrier {
                            target: pass@[j].target,
                            access_type: pass@[j].access_type,
                            previous_access_type: if pass@[j].target is Unresolved {
                                None
                            } else {
                                previous_access(
                                    before + pass_records(pass@, pres@, j),
                                    pass@[j].target,
                                )
                            },
                        }),
                    self.current_frame == frame,
                    frame < self.frames_in_flight,
                    self.name@ == old(self).name@,
                    self.frames_in_flight == old(self).frames_in_flight,
                decreases m - k,
            {
                let a = pass[k];
                let ghost hist_k = history@;
                let previous = match a.target {
                    AccessTarget::Unresolved => None,
                    _ => history.find_previous(&a.target),
                };
                pass_barriers.push(
                    AccessBarrier {
                        target: a.target,
                        access_type: a.access_type,
                        previous_access_type: previous,
                    },
                );
                match a.target {
                    AccessTarget::Unresolved => {},
                    _ => {
                        history.record(a.target, a.access_type);
                    },
                }
                match pres[k] {
                    Some((tk, tr)) => {
                        history.record(
                            AccessTarget::Image { texture_key: tk, range: tr },
                            AccessType::ColorAttachmentWrite,
                        );
                    },
                    None => {},
                }
                proof {
                    let recs = access_records(a, pres@[k as int]);
                    assert(history@ =~= hist_k + recs);
                    assert(pass_records(pass@, pres@, k as int + 1) =~= pass_records(
                        pass@,
                        pres@,
                        k as int,
                    ) + recs);
                    assert(history@ =~= before + pass_records(pass@, pres@, k as int + 1));
                }
                k += 1;
            }
            barriers.push(pass_barriers);
            proof {
                assert(frame_records(accesses@, resolves@, order@, oi as int + 1)
                    =~= frame_records(accesses@, resolves@, order@, oi as int) + pass_records(
                    pass@,
                    pres@,
                    m as int,
                ));
                assert forall|j: int|
                    0 <= j < oi + 1 implies pass_barriers_ok(
                    accesses@[order@[j] as int]@,
                    resolves@[order@[j] as int]@,
                    frame_records(accesses@, resolves@, order@, j),
                    #[trigger] barriers@[j]@,
                ) by {
                    if j == oi {
                        assert(barriers@[j]@ == pass_barriers@);
                    }
                }
            }
            oi += 1;
        }
        Ok(FramePlan { frame, order, barriers })
    }
}

/// A duplicate-free ordering of passes has at most one entry per pass.
proof fn lemma_order_len_le(accesses: Seq<Vec<ResolvedAccess>>, order: Seq<usize>)
    requires
        order.no_duplicates(),
        forall|i: int| 0 <= i < order.len() ==> #[trigger] order[i] < accesses.len(),
    ensures
        order.len() <= accesses.len(),
{
    crate::pass_order::lemma_distinct_bounded(order, accesses.len() as int);
}

/// Every resolved access of a pass, read or write, joins the frame's access
/// history: an access that touches a target nothing touched before in the
/// frame is what the next overlapping access sees as its previous access,
/// whatever its type.
pub proof fn law_access_is_seen_next(
    hist: Seq<(AccessTarget, AccessType)>,
    a: ResolvedAccess,
    resolve: Option<(TextureKey, ImageSubRange)>,
    q: AccessTarget,
)
    requires
        !(a.target is Unresolved),
        targets_overlap(a.target, q),
        forall|i: int| 0 <= i < hist.len() ==> !targets_overlap(#[trigger] hist[i].0, q),
        resolve is None,
    ensures
        previous_access(hist + access_records(a, resolve), q) == Some(a.access_type),
{
    let h = hist + access_records(a, resolve);
    assert(access_records(a, resolve) == seq![(a.target, a.access_type)]);
    assert(h[hist.len() as int] == (a.target, a.access_type));
    assert forall|i: int| 0 <= i < h.len() && #[trigger] targets_overlap(h[i].0, q) implies h[i].1
        == a.access_type by {
        if i < hist.len() {
            assert(h[i] == hist[i]);
        }
    }
    assert(targets_overlap(h[hist.len() as int].0, q));
    assert(unanimous(h, q, a.access_type));
    let t = choose|t: AccessType| unanimous(h, q, t);
    assert(h[hist.len() as int].1 == t);
}

/// When the accesses before in the frame that overlap a target disagree
/// on their type, no previous access is assumed for it.
pub proof fn law_disagreeing_history_gives_none(
    hist: Seq<(AccessTarget, AccessType)>,
    q: AccessTarget,
    i: int,
    j: int,
)
    requires
        0 <= i < hist.len(),
        0 <= j < hist.len(),
        targets_overlap(hist[i].0, q),
        targets_overlap(hist[j].0, q),
        hist[i].1 != hist[j].1,
    ensures
        previous_access(hist, q) is None,
{
    if exists|t: AccessType| unanimous(hist, q, t) {
        let t = choose|t: AccessType| unanimous(hist, q, t);
        assert(hist[i].1 == t && hist[j].1 == t);
    }
}

} // verus!
