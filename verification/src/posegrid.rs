use vstd::prelude::*;

verus! {

/// One cell of a pose table. A value is either absent, written by a direct
/// sample, or written by the linear fill between sparse samples; the
/// explicit three states leave no room for "is this still a default value"
/// sentinel checks.
#[derive(Clone, Copy, PartialEq, Eq, Structural, Debug)]
pub enum PoseCell<T> {
    Unset,
    Sampled(T),
    Interpolated(T),
}

impl<T> PoseCell<T> {
    /// The written value, however it got there.
    pub open spec fn spec_value(&self) -> Option<T> {
        match *self {
            PoseCell::Unset => None,
            PoseCell::Sampled(v) => Some(v),
            PoseCell::Interpolated(v) => Some(v),
        }
    }

    pub open spec fn is_set(&self) -> bool {
        !(*self is Unset)
    }
}

/// A frame-by-bone grid of pose cells: the one mutable table every decoding
/// stage writes into and the emitter reads from. One grid holds positions,
/// a second one rotations; both are reset for each segment.
pub struct PoseGrid<T> {
    cells: Vec<Vec<PoseCell<T>>>,
    bones: usize,
}

impl<T: Copy> PoseGrid<T> {
    /// Cell states, outer index the frame, inner the bone.
    pub closed spec fn view(&self) -> Seq<Seq<PoseCell<T>>> {
        self.cells@.map_values(|row: Vec<PoseCell<T>>| row@)
    }

    pub closed spec fn spec_bones(&self) -> int {
        self.bones as int
    }

    pub open spec fn wf(&self) -> bool {
        forall|f: int| 0 <= f < self.view().len() ==> (#[trigger] self.view()[f]).len()
            == self.spec_bones()
    }

    pub fn frames(&self) -> (n: usize)
        ensures
            n == self.view().len(),
    {
        self.cells.len()
    }

    pub fn bones(&self) -> (n: usize)
        ensures
            n == self.spec_bones(),
    {
        self.bones
    }

    /// A grid of the given size with every cell unset.
    pub fn new(frames: usize, bones: usize) -> (g: PoseGrid<T>)
        ensures
            g.wf(),
            g.view().len() == frames,
            g.spec_bones() == bones,
            forall|f: int, b: int|
                0 <= f < frames && 0 <= b < bones ==> #[trigger] g.view()[f][b] == PoseCell::<
                    T,
                >::Unset,
    {
        let mut cells: Vec<Vec<PoseCell<T>>> = Vec::new();
        let mut f: usize = 0;
        while f < frames
            invariant
                f <= frames,
                cells@.len() == f,
                forall|i: int|
                    0 <= i < f ==> (#[trigger] cells@[i])@.len() == bones,
                forall|i: int, b: int|
                    0 <= i < f && 0 <= b < bones ==> #[trigger] cells@[i]@[b] == PoseCell::<
                        T,
                    >::Unset,
            decreases frames - f,
        {
            let mut row: Vec<PoseCell<T>> = Vec::new();
            let mut b: usize = 0;
            while b < bones
                invariant
                    b <= bones,
                    row@.len() == b,
                    forall|j: int| 0 <= j < b ==> #[trigger] row@[j] == PoseCell::<T>::Unset,
                decreases bones - b,
            {
                row.push(PoseCell::Unset);
                b = b + 1;
            }
            cells.push(row);
            f = f + 1;
        }
        let g = PoseGrid { cells, bones };
        proof {
            assert forall|f_: int| 0 <= f_ < g.view().len() implies (#[trigger] g.view()[f_]).len()
                == g.spec_bones() by {
                assert(g.view()[f_] == g.cells@[f_]@);
            }
            assert forall|f_: int, b_: int|
                0 <= f_ < frames && 0 <= b_ < bones implies #[trigger] g.view()[f_][b_]
                == PoseCell::<T>::Unset by {
                assert(g.view()[f_] == g.cells@[f_]@);
            }
        }
        g
    }

    /// Writes a directly sampled value.
    pub fn set_sampled(&mut self, frame: usize, bone: usize, value: T)
        requires
            old(self).wf(),
            frame < old(self).view().len(),
            bone < old(self).spec_bones(),
        ensures
            final(self).wf(),
            final(self).view().len() == old(self).view().len(),
            final(self).spec_bones() == old(self).spec_bones(),
            final(self).view()[frame as int][bone as int] == PoseCell::Sampled(value),
            forall|f: int, b: int|
                0 <= f < old(self).view().len() && 0 <= b < old(self).spec_bones() && !(f == frame
                    && b == bone) ==> #[trigger] final(self).view()[f][b] == old(self).view()[f][b],
    {
        proof {
            assert(old(self).view()[frame as int] == old(self).cells@[frame as int]@);
        }
        let row = &mut self.cells[frame];
        row.set(bone, PoseCell::Sampled(value));
        proof {
            assert(self.view() =~= old(self).view().update(
                frame as int,
                old(self).view()[frame as int].update(bone as int, PoseCell::Sampled(value)),
            ));
            assert forall|f: int| 0 <= f < self.view().len() implies (#[trigger] self.view()[
            f]).len() == self.spec_bones() by {
                assert(self.view()[f] == self.cells@[f]@);
            }
        }
    }

    /// Writes a value produced by the linear fill.
    pub fn set_interpolated(&mut self, frame: usize, bone: usize, value: T)
        requires
            old(self).wf(),
            frame < old(self).view().len(),
            bone < old(self).spec_bones(),
        ensures
            final(self).wf(),
            final(self).view().len() == old(self).view().len(),
            final(self).spec_bones() == old(self).spec_bones(),
            final(self).view()[frame as int][bone as int] == PoseCell::Interpolated(value),
            forall|f: int, b: int|
                0 <= f < old(self).view().len() && 0 <= b < old(self).spec_bones() && !(f == frame
                    && b == bone) ==> #[trigger] final(self).view()[f][b] == old(self).view()[f][b],
    {
        proof {
            assert(old(self).view()[frame as int] == old(self).cells@[frame as int]@);
        }
        let row = &mut self.cells[frame];
        row.set(bone, PoseCell::Interpolated(value));
        proof {
            assert(self.view() =~= old(self).view().update(
                frame as int,
                old(self).view()[frame as int].update(bone as int, PoseCell::Interpolated(value)),
            ));
            assert forall|f: int| 0 <= f < self.view().len() implies (#[trigger] self.view()[
            f]).len() == self.spec_bones() by {
                assert(self.view()[f] == self.cells@[f]@);
            }
        }
    }

    /// The written value at a cell, if any.
    pub fn value_at(&self, frame: usize, bone: usize) -> (r: Option<T>)
        requires
            self.wf(),
            frame < self.view().len(),
            bone < self.spec_bones(),
        ensures
            r == self.view()[frame as int][bone as int].spec_value(),
    {
        proof {
            assert(self.view()[frame as int] =~= self.cells@[frame as int]@);
        }
        match self.cells[frame][bone] {
            PoseCell::Unset => None,
            PoseCell::Sampled(v) => Some(v),
            PoseCell::Interpolated(v) => Some(v),
        }
    }

    /// The frame whose value stands in for `frame` at this bone: `frame`
    /// itself when its cell was written, frame 0 otherwise. The emitter
    /// falls back to the base pose this way, independently per channel.
    pub fn frame_or_base(&self, frame: usize, bone: usize) -> (r: usize)
        requires
            self.wf(),
            frame < self.view().len(),
            bone < self.spec_bones(),
        ensures
            r == if self.view()[frame as int][bone as int].is_set() {
                frame as int
            } else {
                0int
            },
    {
        proof {
            assert(self.view()[frame as int] == self.cells@[frame as int]@);
        }
        match self.cells[frame][bone] {
            PoseCell::Unset => 0,
            _ => frame,
        }
    }
}

} // verus!
