//! What recording a planned frame does, as a sequence of commands for the
//! caller to perform on the frame's command list.
//!
//! The command list is begun; every pass of the plan, in plan order, that
//! has both a backend render pass and a framebuffer is recorded as begin
//! render pass, run its action, end render pass (a pass without them is
//! passed over); the post-pass step runs once; the command list is ended.
//! When a command fails, the command list is still ended (unless beginning
//! or ending it is what failed), and the frame fails with that error.

use vstd::prelude::*;
use crate::access_type::{BufferAccess, ImageAccess};
use crate::frame_buffer::{texture_lookup, TextureInfo, TextureTable};
use crate::keys::TextureKey;
use crate::pass_order::AccessTarget;
use crate::render_graph::{AccessBarrier, FramePlan};

verus! {

/// One step of recording a frame.
#[derive(Debug, Clone, Copy, PartialEq, Eq, Structural)]
pub enum PassCommand {
    /// Begin the frame's command list.
    Begin,
    /// Begin the render pass of the pass at this position of the pass list.
    BeginRenderPass(usize),
    /// Run the action of that pass.
    RunAction(usize),
    /// End the render pass of that pass.
    EndRenderPass(usize),
    /// Run the caller's post-pass step (e.g. a blit to the swapchain).
    PostPasses,
    /// End the frame's command list.
    End,
}

/// Commands of one pass: its render pass around its action, or nothing.
pub open spec fn pass_block(p: usize, has_target: bool) -> Seq<PassCommand> {
    if has_target {
        seq![PassCommand::BeginRenderPass(p), PassCommand::RunAction(p), PassCommand::EndRenderPass(p)]
    } else {
        Seq::empty()
    }
}

/// Commands of the passes of an order, in that order.
pub open spec fn passes_commands(order: Seq<usize>, has_target: Seq<bool>) -> Seq<PassCommand>
    decreases order.len(),
{
    if order.len() == 0 {
        Seq::empty()
    } else {
        passes_commands(order.drop_last(), has_target) + pass_block(
            order.last(),
            has_target[order.last() as int],
        )
    }
}

/// Every command of a frame: begin, the passes, the post-pass step, end.
pub open spec fn pass_command_seq(order: Seq<usize>, has_target: Seq<bool>) -> Seq<PassCommand> {
    seq![PassCommand::Begin] + passes_commands(order, has_target) + seq![
        PassCommand::PostPasses,
        PassCommand::End,
    ]
}

/// What to perform after the first `done` commands succeeded: the next
/// command, or nothing when all are done.
pub open spec fn next_command(cmds: Seq<PassCommand>, done: int) -> Option<PassCommand> {
    if 0 <= done < cmds.len() {
        Some(cmds[done])
    } else {
        None
    }
}

/// What to perform after command number `failed` failed: end the command
/// list, unless the failed command is the one that begins or ends it.
pub open spec fn command_after_failure(cmds: Seq<PassCommand>, failed: int) -> Option<PassCommand> {
    if 0 <= failed < cmds.len() && cmds[failed] != PassCommand::Begin && cmds[failed]
        != PassCommand::End {
        Some(PassCommand::End)
    } else {
        None
    }
}

/// The commands that record a planned frame. `has_target[p]` tells whether
/// the pass at position `p` of the pass list has both a backend render pass
/// and a framebuffer.
pub fn pass_commands(plan: &FramePlan, has_target: &[bool]) -> (cmds: Vec<PassCommand>)
    requires
        forall|i: int| 0 <= i < plan.order@.len() ==> (#[trigger] plan.order@[i] as int) < has_target@.len(),
    ensures
        cmds@ == pass_command_seq(plan.order@, has_target@),
{
    let mut cmds: Vec<PassCommand> = Vec::new();
    cmds.push(PassCommand::Begin);
    let mut i: usize = 0;
    while i < plan.order.len()
        invariant
            i <= plan.order@.len(),
            forall|j: int|
                0 <= j < plan.order@.len() ==> (#[trigger] plan.order@[j] as int) < has_target@.len(),
            cmds@ == seq![PassCommand::Begin] + passes_commands(
                plan.order@.take(i as int),
                has_target@,
            ),
        decreases plan.order@.len() - i,
    {
        let p = plan.order[i];
        let ghost before = cmds@;
        if has_target[p] {
            cmds.push(PassCommand::BeginRenderPass(p));
            cmds.push(PassCommand::RunAction(p));
            cmds.push(PassCommand::EndRenderPass(p));
        }
        proof {
            let t = plan.order@.take(i as int + 1);
            assert(t.drop_last() =~= plan.order@.take(i as int));
            assert(t.last() == p);
            assert(cmds@ =~= seq![PassCommand::Begin] + passes_commands(t, has_target@));
        }
        i += 1;
    }
    proof {
        assert(plan.order@.take(plan.order@.len() as int) =~= plan.order@);
    }
    cmds.push(PassCommand::PostPasses);
    cmds.push(PassCommand::End);
    proof {
        assert(cmds@ =~= pass_command_seq(plan.order@, has_target@));
    }
    cmds
}

/// The command to perform after the first `done` commands succeeded, if
/// any is left.
pub fn frame_step(cmds: &[PassCommand], done: usize) -> (r: Option<PassCommand>)
    ensures
        r == next_command(cmds@, done as int),
{
    if done < cmds.len() {
        Some(cmds[done])
    } else {
        None
    }
}

/// The command to perform after command number `failed` failed.
pub fn after_failure(cmds: &[PassCommand], failed: usize) -> (r: Option<PassCommand>)
    ensures
        r == command_after_failure(cmds@, failed as int),
{
    if failed < cmds.len() {
        match cmds[failed] {
            PassCommand::Begin => None,
            PassCommand::End => None,
            _ => Some(PassCommand::End),
        }
    } else {
        None
    }
}

// ===== Laws =====

/// Number of times a pass's action runs in a command sequence.
pub open spec fn action_count(s: Seq<PassCommand>, p: usize) -> nat
    decreases s.len(),
{
    if s.len() == 0 {
        0
    } else {
        action_count(s.drop_last(), p) + if s.last() == PassCommand::RunAction(p) {
            1nat
        } else {
            0nat
        }
    }
}

/// Counting actions distributes over concatenation.
proof fn lemma_action_count_add(a: Seq<PassCommand>, b: Seq<PassCommand>, p: usize)
    ensures
        action_count(a + b, p) == action_count(a, p) + action_count(b, p),
    decreases b.len(),
{
    if b.len() == 0 {
        assert(a + b =~= a);
    } else {
        lemma_action_count_add(a, b.drop_last(), p);
        assert((a + b).drop_last() =~= a + b.drop_last());
    }
}

/// Actions of `p` among the passes of an order without repeats: one when
/// `p` is in the order and has a target, none otherwise.
proof fn lemma_passes_action_count(order: Seq<usize>, has_target: Seq<bool>, p: usize)
    requires
        order.no_duplicates(),
        forall|i: int| 0 <= i < order.len() ==> (#[trigger] order[i] as int) < has_target.len(),
    ensures
        action_count(passes_commands(order, has_target), p) == if order.contains(p) && has_target[p as int] {
            1nat
        } else {
            0nat
        },
    decreases order.len(),
{
    if order.len() > 0 {
        let a = order.drop_last();
        let x = order.last();
        assert forall|i: int, j: int| 0 <= i < a.len() && 0 <= j < a.len() && i != j implies a[i]
            != a[j] by {
            assert(a[i] == order[i] && a[j] == order[j]);
        }
        assert forall|i: int| 0 <= i < a.len() implies (#[trigger] a[i] as int) < has_target.len() by {
            assert(a[i] == order[i]);
        }
        lemma_passes_action_count(a, has_target, p);
        lemma_action_count_add(passes_commands(a, has_target), pass_block(x, has_target[x as int]), p);
        let blk = pass_block(x, has_target[x as int]);
        if has_target[x as int] {
            let b1 = blk.drop_last();
            let b2 = b1.drop_last();
            assert(b2.drop_last() =~= Seq::<PassCommand>::empty());
            assert(b2 =~= seq![PassCommand::BeginRenderPass(x)]);
            assert(b1 =~= seq![PassCommand::BeginRenderPass(x), PassCommand::RunAction(x)]);
            assert(action_count(b2.drop_last(), p) == 0);
            assert(action_count(b2, p) == 0);
            assert(action_count(b1, p) == if x == p { 1nat } else { 0nat });
            assert(action_count(blk, p) == if x == p { 1nat } else { 0nat });
        } else {
            assert(action_count(blk, p) == 0);
        }
        if order.contains(p) {
            let k = choose|k: int| 0 <= k < order.len() && order[k] == p;
            if x == p {
                assert(k == order.len() - 1);
                assert(!a.contains(p)) by {
                    if a.contains(p) {
                        let m = choose|m: int| 0 <= m < a.len() && a[m] == p;
                        assert(order[m] == p);
                    }
                }
            } else {
                assert(a[k] == p);
            }
        } else {
            assert(!a.contains(p)) by {
                if a.contains(p) {
                    let m = choose|m: int| 0 <= m < a.len() && a[m] == p;
                    assert(order[m] == p);
                }
            }
            assert(x != p);
        }
    }
}

/// Inside the passes' commands, every action sits between the begin and
/// the end of its own render pass.
proof fn lemma_passes_bracketed(order: Seq<usize>, has_target: Seq<bool>)
    ensures
        forall|i: int|
            0 <= i < passes_commands(order, has_target).len() && (#[trigger] passes_commands(
                order,
                has_target,
            )[i]) is RunAction ==> bracketed(passes_commands(order, has_target), i),
    decreases order.len(),
{
    if order.len() > 0 {
        let a = order.drop_last();
        let x = order.last();
        lemma_passes_bracketed(a, has_target);
        let pa = passes_commands(a, has_target);
        let blk = pass_block(x, has_target[x as int]);
        let s = passes_commands(order, has_target);
        assert(s == pa + blk);
        assert forall|i: int| 0 <= i < s.len() && (#[trigger] s[i]) is RunAction implies bracketed(s, i) by {
            if i < pa.len() {
                assert(pa[i] == s[i]);
                assert(bracketed(pa, i));
                assert(s[i - 1] == pa[i - 1]);
                assert(s[i + 1] == pa[i + 1]);
            } else {
                let j = i - pa.len();
                assert(s[i] == blk[j]);
                assert(j == 1);
                assert(s[i - 1] == blk[0]);
                assert(s[i + 1] == blk[2]);
            }
        }
    }
}

/// Command `i` is an action, right after the begin and right before the
/// end of the same pass's render pass.
pub open spec fn bracketed(cmds: Seq<PassCommand>, i: int) -> bool {
    &&& 0 < i
    &&& i + 1 < cmds.len()
    &&& cmds[i - 1] == PassCommand::BeginRenderPass(cmds[i]->RunAction_0)
    &&& cmds[i + 1] == PassCommand::EndRenderPass(cmds[i]->RunAction_0)
}

/// The shape of every recorded frame: the command list is begun first and
/// ended last; the post-pass step runs exactly once, right before the end;
/// every action runs between the begin and the end of its own render pass;
/// and, when the order repeats no pass, the action of a pass runs exactly
/// once if the pass is in the order and has a render pass and a
/// framebuffer, and never otherwise.
pub proof fn law_frame_commands(order: Seq<usize>, has_target: Seq<bool>, p: usize)
    requires
        forall|i: int| 0 <= i < order.len() ==> (#[trigger] order[i] as int) < has_target.len(),
    ensures
        ({
            let cmds = pass_command_seq(order, has_target);
            &&& cmds.len() >= 3
            &&& cmds[0] == PassCommand::Begin
            &&& cmds[cmds.len() - 1] == PassCommand::End
            &&& cmds[cmds.len() - 2] == PassCommand::PostPasses
            &&& forall|i: int|
                0 <= i < cmds.len() && #[trigger] cmds[i] == PassCommand::PostPasses ==> i == cmds.len()
                    - 2
            &&& forall|i: int| 0 < i < cmds.len() ==> #[trigger] cmds[i] != PassCommand::Begin
            &&& forall|i: int| 0 <= i < cmds.len() - 1 ==> #[trigger] cmds[i] != PassCommand::End
            &&& forall|i: int| 0 <= i < cmds.len() && (#[trigger] cmds[i]) is RunAction ==> bracketed(cmds, i)
            &&& order.no_duplicates() ==> action_count(cmds, p) == if order.contains(p)
                && has_target[p as int] {
                1nat
            } else {
                0nat
            }
        }),
{
    let pc = passes_commands(order, has_target);
    let cmds = pass_command_seq(order, has_target);
    lemma_passes_only_pass_commands(order, has_target);
    lemma_passes_bracketed(order, has_target);
    assert forall|i: int| 0 <= i < cmds.len() && (#[trigger] cmds[i]) is RunAction implies bracketed(cmds, i) by {
        assert(0 < i && i <= pc.len());
        assert(cmds[i] == pc[i - 1]);
        assert(bracketed(pc, i - 1));
        assert(cmds[i - 1] == pc[i - 2]);
        assert(cmds[i + 1] == pc[i]);
    }
    assert forall|i: int| 0 <= i < cmds.len() && #[trigger] cmds[i] == PassCommand::PostPasses implies i
        == cmds.len() - 2 by {
        if 0 < i <= pc.len() {
            assert(cmds[i] == pc[i - 1]);
        }
    }
    assert forall|i: int| 0 < i < cmds.len() implies #[trigger] cmds[i] != PassCommand::Begin by {
        if i <= pc.len() {
            assert(cmds[i] == pc[i - 1]);
        }
    }
    assert forall|i: int| 0 <= i < cmds.len() - 1 implies #[trigger] cmds[i] != PassCommand::End by {
        if 0 < i <= pc.len() {
            assert(cmds[i] == pc[i - 1]);
        }
    }
    if order.no_duplicates() {
        lemma_passes_action_count(order, has_target, p);
        lemma_action_count_add(seq![PassCommand::Begin], pc, p);
        lemma_action_count_add(
            seq![PassCommand::Begin] + pc,
            seq![PassCommand::PostPasses, PassCommand::End],
            p,
        );
        let b = seq![PassCommand::Begin];
        let e = seq![PassCommand::PostPasses, PassCommand::End];
        assert(b.drop_last() =~= Seq::<PassCommand>::empty());
        assert(action_count(b.drop_last(), p) == 0);
        assert(action_count(b, p) == 0);
        assert(e.drop_last() =~= seq![PassCommand::PostPasses]);
        assert(e.drop_last().drop_last() =~= Seq::<PassCommand>::empty());
        assert(action_count(e.drop_last().drop_last(), p) == 0);
        assert(action_count(e.drop_last(), p) == 0);
        assert(action_count(e, p) == 0);
        assert(cmds == b + pc + e);
    }
}

/// The passes' commands are only render-pass and action commands.
proof fn lemma_passes_only_pass_commands(order: Seq<usize>, has_target: Seq<bool>)
    ensures
        forall|i: int|
            0 <= i < passes_commands(order, has_target).len() ==> {
                let c = #[trigger] passes_commands(order, has_target)[i];
                c != PassCommand::Begin && c != PassCommand::End && c != PassCommand::PostPasses
            },
    decreases order.len(),
{
    if order.len() > 0 {
        let a = order.drop_last();
        let x = order.last();
        lemma_passes_only_pass_commands(a, has_target);
        let pa = passes_commands(a, has_target);
        let blk = pass_block(x, has_target[x as int]);
        let s = passes_commands(order, has_target);
        assert forall|i: int| 0 <= i < s.len() implies {
            let c = #[trigger] s[i];
            c != PassCommand::Begin && c != PassCommand::End && c != PassCommand::PostPasses
        } by {
            if i < pa.len() {
                assert(s[i] == pa[i]);
            } else {
                assert(s[i] == blk[i - pa.len()]);
            }
        }
    }
}

/// Whatever command fails, the command list is ended before the frame
/// fails, unless beginning or ending it is what failed: after a failure the
/// caller performs the end exactly when the list was begun and not yet
/// ended.
pub proof fn law_failed_frame_is_ended(order: Seq<usize>, has_target: Seq<bool>, failed: int)
    requires
        forall|i: int| 0 <= i < order.len() ==> (#[trigger] order[i] as int) < has_target.len(),
        0 <= failed < pass_command_seq(order, has_target).len(),
    ensures
        ({
            let cmds = pass_command_seq(order, has_target);
            &&& (0 < failed < cmds.len() - 1) ==> command_after_failure(cmds, failed) == Some(
                PassCommand::End,
            )
            &&& (failed == 0 || failed == cmds.len() - 1) ==> command_after_failure(cmds, failed)
                is None
        }),
{
    law_frame_commands(order, has_target, 0);
}

// ===== Accesses handed to the backend =====

/// The image accesses of a pass's barriers: one per barrier on a texture
/// the table holds, in barrier order.
pub open spec fn image_accesses_of(
    barriers: Seq<AccessBarrier>,
    tex: Seq<(TextureKey, TextureInfo)>,
) -> Seq<ImageAccess>
    decreases barriers.len(),
{
    if barriers.len() == 0 {
        Seq::empty()
    } else {
        let prefix = image_accesses_of(barriers.drop_last(), tex);
        let b = barriers.last();
        match b.target {
            AccessTarget::Image { texture_key, .. } => if texture_lookup(tex, texture_key) is Some {
                prefix.push(
                    ImageAccess {
                        texture: texture_key,
                        access_type: b.access_type,
                        previous_access_type: b.previous_access_type,
                    },
                )
            } else {
                prefix
            },
            _ => prefix,
        }
    }
}

/// The buffer accesses of a pass's barriers: one per barrier on a buffer,
/// in barrier order.
pub open spec fn buffer_accesses_of(barriers: Seq<AccessBarrier>) -> Seq<BufferAccess>
    decreases barriers.len(),
{
    if barriers.len() == 0 {
        Seq::empty()
    } else {
        let prefix = buffer_accesses_of(barriers.drop_last());
        let b = barriers.last();
        match b.target {
            AccessTarget::Buffer { buffer_key, .. } => prefix.push(
                BufferAccess {
                    buffer: buffer_key,
                    access_type: b.access_type,
                    previous_access_type: b.previous_access_type,
                },
            ),
            _ => prefix,
        }
    }
}

/// The image accesses handed to the backend when a pass begins: its
/// barriers on textures the table still holds.
pub fn pass_image_accesses(barriers: &[AccessBarrier], textures: &TextureTable) -> (v: Vec<ImageAccess>)
    requires
        textures.wf(),
    ensures
        v@ == image_accesses_of(barriers@, textures@),
{
    let mut v: Vec<ImageAccess> = Vec::new();
    let mut i: usize = 0;
    while i < barriers.len()
        invariant
            i <= barriers@.len(),
            textures.wf(),
            v@ == image_accesses_of(barriers@.take(i as int), textures@),
        decreases barriers@.len() - i,
    {
        let b = barriers[i];
        proof {
            assert(barriers@.take(i as int + 1).drop_last() =~= barriers@.take(i as int));
            assert(barriers@.take(i as int + 1).last() == b);
        }
        match b.target {
            AccessTarget::Image { texture_key, .. } => {
                if textures.get(texture_key).is_some() {
                    v.push(
                        ImageAccess {
                            texture: texture_key,
                            access_type: b.access_type,
                            previous_access_type: b.previous_access_type,
                        },
                    );
                }
            },
            _ => {},
        }
        i += 1;
    }
    proof {
        assert(barriers@.take(barriers@.len() as int) =~= barriers@);
    }
    v
}

/// The buffer accesses handed to the backend when a pass begins: its
/// barriers on buffers.
pub fn pass_buffer_accesses(barriers: &[AccessBarrier]) -> (v: Vec<BufferAccess>)
    ensures
        v@ == buffer_accesses_of(barriers@),
{
    let mut v: Vec<BufferAccess> = Vec::new();
    let mut i: usize = 0;
    while i < barriers.len()
        invariant
            i <= barriers@.len(),
            v@ == buffer_accesses_of(barriers@.take(i as int)),
        decreases barriers@.len() - i,
    {
        let b = barriers[i];
        proof {
            assert(barriers@.take(i as int + 1).drop_last() =~= barriers@.take(i as int));
            assert(barriers@.take(i as int + 1).last() == b);
        }
        match b.target {
            AccessTarget::Buffer { buffer_key, .. } => {
                v.push(
                    BufferAccess {
                        buffer: buffer_key,
                        access_type: b.access_type,
                        previous_access_type: b.previous_access_type,
                    },
                );
            },
            _ => {},
        }
        i += 1;
    }
    proof {
        assert(barriers@.take(barriers@.len() as int) =~= barriers@);
    }
    v
}

/// The image access a barrier on an image asks of the backend: its
/// texture, its access type and the access type before it.
pub open spec fn image_access_for(b: AccessBarrier) -> ImageAccess {
    ImageAccess {
        texture: b.target->Image_texture_key,
        access_type: b.access_type,
        previous_access_type: b.previous_access_type,
    }
}

/// A barrier on an image whose texture the table holds.
pub open spec fn on_held_image(b: AccessBarrier, tex: Seq<(TextureKey, TextureInfo)>) -> bool {
    b.target is Image && texture_lookup(tex, b.target->Image_texture_key) is Some
}

/// The image accesses handed to the backend are exactly those asked by the
/// barriers on textures the table holds: each carries the texture, the
/// access type and the previous access type of such a barrier, and every
/// such barrier is handed on.
pub proof fn law_image_accesses_follow_barriers(barriers: Seq<AccessBarrier>, tex: Seq<(TextureKey, TextureInfo)>)
    ensures
        forall|k: int|
            0 <= k < image_accesses_of(barriers, tex).len() ==> exists|j: int|
                0 <= j < barriers.len() && on_held_image(barriers[j], tex) && #[trigger] image_accesses_of(
                    barriers,
                    tex,
                )[k] == image_access_for(barriers[j]),
        forall|j: int|
            0 <= j < barriers.len() && on_held_image(#[trigger] barriers[j], tex) ==> image_accesses_of(
                barriers,
                tex,
            ).contains(image_access_for(barriers[j])),
    decreases barriers.len(),
{
    if barriers.len() > 0 {
        let pre = barriers.drop_last();
        law_image_accesses_follow_barriers(pre, tex);
        let r = image_accesses_of(barriers, tex);
        let rp = image_accesses_of(pre, tex);
        let b = barriers.last();
        assert forall|k: int| 0 <= k < r.len() implies exists|j: int|
            0 <= j < barriers.len() && on_held_image(barriers[j], tex) && #[trigger] r[k]
                == image_access_for(barriers[j]) by {
            if k < rp.len() {
                assert(r[k] == rp[k]);
                let j = choose|j: int|
                    0 <= j < pre.len() && on_held_image(pre[j], tex) && #[trigger] rp[k] == image_access_for(pre[j]);
                assert(barriers[j] == pre[j]);
            } else {
                assert(r[k] == image_access_for(b));
                assert(barriers[barriers.len() - 1] == b);
            }
        }
        assert forall|j: int| 0 <= j < barriers.len() && on_held_image(#[trigger] barriers[j], tex) implies r.contains(
            image_access_for(barriers[j]),
        ) by {
            if j < pre.len() {
                assert(pre[j] == barriers[j]);
                assert(rp.contains(image_access_for(pre[j])));
                let k = choose|k: int| 0 <= k < rp.len() && rp[k] == image_access_for(pre[j]);
                assert(r[k] == rp[k]);
            } else {
                assert(r[rp.len() as int] == image_access_for(b));
            }
        }
    }
}

/// The buffer access a barrier on a buffer asks of the backend.
pub open spec fn buffer_access_for(b: AccessBarrier) -> BufferAccess {
    BufferAccess {
        buffer: b.target->Buffer_buffer_key,
        access_type: b.access_type,
        previous_access_type: b.previous_access_type,
    }
}

/// The buffer accesses handed to the backend are exactly those asked by
/// the barriers on buffers, each with its buffer, access type and previous
/// access type.
pub proof fn law_buffer_accesses_follow_barriers(barriers: Seq<AccessBarrier>)
    ensures
        forall|k: int|
            0 <= k < buffer_accesses_of(barriers).len() ==> exists|j: int|
                0 <= j < barriers.len() && barriers[j].target is Buffer && #[trigger] buffer_accesses_of(
                    barriers,
                )[k] == buffer_access_for(barriers[j]),
        forall|j: int|
            0 <= j < barriers.len() && (#[trigger] barriers[j]).target is Buffer ==> buffer_accesses_of(
                barriers,
            ).contains(buffer_access_for(barriers[j])),
    decreases barriers.len(),
{
    if barriers.len() > 0 {
        let pre = barriers.drop_last();
        law_buffer_accesses_follow_barriers(pre);
        let r = buffer_accesses_of(barriers);
        let rp = buffer_accesses_of(pre);
        let b = barriers.last();
        assert forall|k: int| 0 <= k < r.len() implies exists|j: int|
            0 <= j < barriers.len() && barriers[j].target is Buffer && #[trigger] r[k] == buffer_access_for(
                barriers[j],
            ) by {
            if k < rp.len() {
                assert(r[k] == rp[k]);
                let j = choose|j: int|
                    0 <= j < pre.len() && pre[j].target is Buffer && #[trigger] rp[k] == buffer_access_for(pre[j]);
                assert(barriers[j] == pre[j]);
            } else {
                assert(r[k] == buffer_access_for(b));
                assert(barriers[barriers.len() - 1] == b);
            }
        }
        assert forall|j: int| 0 <= j < barriers.len() && (#[trigger] barriers[j]).target is Buffer implies r.contains(
            buffer_access_for(barriers[j]),
        ) by {
            if j < pre.len() {
                assert(pre[j] == barriers[j]);
                assert(rp.contains(buffer_access_for(pre[j])));
                let k = choose|k: int| 0 <= k < rp.len() && rp[k] == buffer_access_for(pre[j]);
                assert(r[k] == rp[k]);
            } else {
                assert(r[rp.len() as int] == buffer_access_for(b));
            }
        }
    }
}

} // verus!
