use vstd::prelude::*;
use crate::skeleton::Skeleton;

verus! {

/// One multiplication of the hierarchy correction chain: compose the named
/// bone's rotation, taken from the current frame when `at_current_frame` is
/// set and from frame 0 otherwise.
#[derive(Clone, Copy, PartialEq, Eq, Structural, Debug)]
pub struct ResolveStep {
    pub bone: usize,
    pub at_current_frame: bool,
}

/// Smallest-three quaternion reconstruction maps stored components
/// `(cx, cy, cz)` to `(cx*s, cy*s, cz*s, w*s)` with `n = cx²+cy²+cz²`,
/// `w = (1-n)/2` and `s = 2/(1+n)`. In exact arithmetic that quaternion is
/// unit length for every input. Writing the components as rationals
/// `px/q, py/q, pz/q` and clearing denominators, the reconstruction is
/// `(2·px·q, 2·py·q, 2·pz·q, q²-s) / (q²+s)` with `s = px²+py²+pz²`, and
/// unit length is the polynomial identity stated here.
pub proof fn lemma_smallest_three_unit_norm(px: int, py: int, pz: int, q: int)
    ensures
        ({
            let s = px * px + py * py + pz * pz;
            (2 * px * q) * (2 * px * q) + (2 * py * q) * (2 * py * q) + (2 * pz * q) * (2 * pz * q)
                + (q * q - s) * (q * q - s) == (q * q + s) * (q * q + s)
        }),
{
    let s = px * px + py * py + pz * pz;
    let a = q * q;
    assert((2 * px * q) * (2 * px * q) == 4 * (px * px) * a) by (nonlinear_arith)
        requires a == q * q;
    assert((2 * py * q) * (2 * py * q) == 4 * (py * py) * a) by (nonlinear_arith)
        requires a == q * q;
    assert((2 * pz * q) * (2 * pz * q) == 4 * (pz * pz) * a) by (nonlinear_arith)
        requires a == q * q;
    assert(4 * (px * px) * a + 4 * (py * py) * a + 4 * (pz * pz) * a == 4 * a * s)
        by (nonlinear_arith)
        requires s == px * px + py * py + pz * pz;
    assert(4 * a * s + (a - s) * (a - s) == (a + s) * (a + s)) by (nonlinear_arith);
}

/// The correction chain continuing upward from the bone `p`, which lacks
/// direct rotation data: follow the parent table, composing frame-0 steps,
/// until an ancestor with direct data contributes one current-frame step
/// (none when that ancestor is the root), the table runs out, or `fuel`
/// bones have been walked (a corrupt table's cycle).
pub open spec fn spec_chain_from(sk: &Skeleton, has_direct: Seq<bool>, p: usize, fuel: nat) -> Seq<
    ResolveStep,
>
    decreases fuel,
{
    if fuel == 0 {
        Seq::empty()
    } else {
        match sk.spec_parent(p as int) {
            Option::None => Seq::empty(),
            Option::Some(n) => if n >= has_direct.len() {
                Seq::empty()
            } else if has_direct[n as int] {
                if n > 0 {
                    seq![ResolveStep { bone: n, at_current_frame: true }]
                } else {
                    Seq::empty()
                }
            } else {
                seq![ResolveStep { bone: n, at_current_frame: false }] + spec_chain_from(
                    sk,
                    has_direct,
                    n,
                    (fuel - 1) as nat,
                )
            },
        }
    }
}

/// The whole correction plan of one bone: nothing for a directly sampled
/// bone; otherwise the parent (current-frame when itself directly sampled,
/// frame-0 otherwise) followed by the chain above it.
pub open spec fn spec_fix_plan(sk: &Skeleton, has_direct: Seq<bool>, bone: usize) -> Option<
    Seq<ResolveStep>,
> {
    if has_direct[bone as int] {
        Option::None
    } else {
        match sk.spec_parent(bone as int) {
            Option::None => Option::Some(Seq::empty()),
            Option::Some(p0) => if p0 >= has_direct.len() {
                Option::Some(Seq::empty())
            } else if has_direct[p0 as int] {
                Option::Some(seq![ResolveStep { bone: p0, at_current_frame: true }])
            } else {
                Option::Some(
                    seq![ResolveStep { bone: p0, at_current_frame: false }] + spec_chain_from(
                        sk,
                        has_direct,
                        p0,
                        has_direct.len(),
                    ),
                )
            },
        }
    }
}

/// Whether every step of a correction chain is well formed for `sk` and
/// `has_direct`: each step names a real bone, every step but the last names
/// one without direct rotation data, a current-frame step can only be the
/// last, and consecutive steps follow the parent table.
pub open spec fn plan_wf(steps: Seq<ResolveStep>, sk: &Skeleton, has_direct: Seq<bool>) -> bool {
    &&& forall|i: int| 0 <= i < steps.len() ==> (#[trigger] steps[i]).bone < has_direct.len()
    &&& forall|i: int|
        0 <= i < steps.len() - 1 ==> !has_direct[(#[trigger] steps[i]).bone as int]
    &&& forall|i: int|
        0 <= i < steps.len() ==> ((#[trigger] steps[i]).at_current_frame ==> i == steps.len() - 1)
    &&& forall|i: int|
        1 <= i < steps.len() ==> sk.spec_parent(steps[i - 1].bone as int) == Some(
            (#[trigger] steps[i]).bone,
        )
}

/// The correction chain for one bone, shared by every frame of a segment.
///
/// A bone marked `has_direct_rotation` is never touched: its sampled value
/// is already what the stream stores for it. For the others the chain walks
/// the parent table, composing each ancestor's frame-0 rotation, and stops
/// at the first directly-sampled ancestor; that ancestor contributes its
/// current-frame rotation instead, unless it is the root. The caller takes
/// the composed product `quat2` (later steps multiplied on the left) and
/// replaces the bone's rotation by `conjugate(quat2) * rotation`, pulling
/// the accumulated parent-composed value back into local space. A walk that
/// leaves the table or runs longer than the skeleton has bones (a cycle in
/// a corrupt table) simply ends the chain there.
pub fn rotation_fix_plan(sk: &Skeleton, has_direct: &Vec<bool>, bone: usize) -> (r: Option<
    Vec<ResolveStep>,
>)
    requires
        bone < has_direct@.len(),
    ensures
        has_direct@[bone as int] <==> r is None,
        match r {
            Some(steps) => {
                &&& !has_direct@[bone as int]
                &&& Some(steps@) == spec_fix_plan(sk, has_direct@, bone)
                &&& plan_wf(steps@, sk, has_direct@)
                &&& steps@.len() >= 1 ==> sk.spec_parent(bone as int) == Some(steps@[0].bone)
            },
            None => true,
        },
{
    if has_direct[bone] {
        return None;
    }
    let p0 = match sk.resolve_parent(bone) {
        Some(p) => p,
        None => {
            return Some(Vec::new());
        },
    };
    if p0 >= has_direct.len() {
        return Some(Vec::new());
    }
    let mut steps: Vec<ResolveStep> = Vec::new();
    if has_direct[p0] {
        steps.push(ResolveStep { bone: p0, at_current_frame: true });
        return Some(steps);
    }
    steps.push(ResolveStep { bone: p0, at_current_frame: false });
    let mut p: usize = p0;
    let mut fuel: usize = has_direct.len();
    while fuel > 0
        invariant
            spec_fix_plan(sk, has_direct@, bone) == Some(
                steps@ + spec_chain_from(sk, has_direct@, p, fuel as nat),
            ),
            steps@.len() >= 1,
            p < has_direct@.len(),
            !has_direct@[bone as int],
            bone < has_direct@.len(),
            steps@[steps@.len() - 1].bone == p,
            !has_direct@[p as int],
            sk.spec_parent(bone as int) == Some(steps@[0].bone),
            forall|i: int| 0 <= i < steps@.len() ==> (#[trigger] steps@[i]).bone < has_direct@.len(),
            forall|i: int| 0 <= i < steps@.len() ==> !has_direct@[(#[trigger] steps@[i]).bone as int],
            forall|i: int|
                0 <= i < steps@.len() ==> !(#[trigger] steps@[i]).at_current_frame,
            forall|i: int|
                1 <= i < steps@.len() ==> sk.spec_parent(steps@[i - 1].bone as int) == Some(
                    (#[trigger] steps@[i]).bone,
                ),
        decreases fuel,
    {
        let next = match sk.resolve_parent(p) {
            Some(n) => n,
            None => {
                return Some(steps);
            },
        };
        if next >= has_direct.len() {
            return Some(steps);
        }
        if has_direct[next] {
            if next > 0 {
                steps.push(ResolveStep { bone: next, at_current_frame: true });
            }
            return Some(steps);
        }
        steps.push(ResolveStep { bone: next, at_current_frame: false });
        p = next;
        fuel = fuel - 1;
    }
    Some(steps)
}

} // verus!
