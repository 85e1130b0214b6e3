//! The order of a routine's blocks in its code.
//!
//! The blocks of a routine are numbered as they were opened, while the code
//! of each was written when its turn came: a block that joins two paths is
//! opened before the paths and filled after them.  A backend that takes
//! the code instruction by instruction wants the blocks in the order of
//! their code, so that every value is made before it is used.

use super::ir::{Routine, SpecRoutine};
use vstd::prelude::*;

verus! {

/// Whether block `a` comes before block `b` in the code: it starts earlier,
/// or the two start together and `a` has the lower index.
pub open spec fn precedes(routine: SpecRoutine, a: int, b: int) -> bool {
    routine.blocks[a].start < routine.blocks[b].start || (routine.blocks[a].start
        == routine.blocks[b].start && a < b)
}

/// Whether `order` lists every block of the routine, each once, in the
/// order of the code.
pub open spec fn is_layout(routine: SpecRoutine, order: Seq<usize>) -> bool {
    &&& forall|i: int| 0 <= i < order.len() ==> (#[trigger] order[i]) < routine.blocks.len()
    &&& forall|i: int, j: int|
        0 <= i < j < order.len() ==> precedes(
            routine,
            (#[trigger] order[i]) as int,
            (#[trigger] order[j]) as int,
        )
    &&& forall|b: usize| b < routine.blocks.len() ==> #[trigger] order.contains(b)
}

/// Whether `order` lists, in the order of the code, the blocks that start
/// before `place`, and those that start at `place` and have an index below
/// `next`.
pub open spec fn is_layout_up_to(
    routine: SpecRoutine,
    order: Seq<usize>,
    place: int,
    next: int,
) -> bool {
    &&& forall|i: int|
        0 <= i < order.len() ==> (#[trigger] order[i]) < routine.blocks.len() && (
        routine.blocks[order[i] as int].start < place || (routine.blocks[order[i] as int].start
            == place && order[i] < next))
    &&& forall|i: int, j: int|
        0 <= i < j < order.len() ==> precedes(
            routine,
            (#[trigger] order[i]) as int,
            (#[trigger] order[j]) as int,
        )
    &&& forall|b: usize|
        b < routine.blocks.len() && (routine.blocks[b as int].start < place || (
        routine.blocks[b as int].start == place && b < next)) ==> #[trigger] order.contains(b)
}

/// A layout up to block `b`, with `b` added where it starts at `place`, is
/// a layout up to the block after `b`.
proof fn lemma_layout_grows(routine: SpecRoutine, order: Seq<usize>, place: int, b: usize)
    requires
        is_layout_up_to(routine, order, place, b as int),
        b < routine.blocks.len(),
    ensures
        routine.blocks[b as int].start == place ==> is_layout_up_to(
            routine,
            order.push(b),
            place,
            b + 1,
        ),
        routine.blocks[b as int].start != place ==> is_layout_up_to(routine, order, place, b + 1),
{
    if routine.blocks[b as int].start == place {
        let longer = order.push(b);
        assert forall|k: usize|
            k < routine.blocks.len() && (routine.blocks[k as int].start < place || (
            routine.blocks[k as int].start == place && k < b + 1)) implies #[trigger] longer.contains(
            k,
        ) by {
            if k == b {
                assert(longer[order.len() as int] == b);
            } else {
                assert(order.contains(k));
                let i = choose|i: int| 0 <= i < order.len() && order[i] == k;
                assert(longer[i] == k);
            }
        }
    }
}

/// The indices below `count`.
pub open spec fn indices_below(count: nat) -> Set<usize> {
    Set::new(|b: usize| b < count)
}

/// There are `count` indices below `count`.
pub proof fn lemma_indices_below(count: nat)
    requires
        count <= usize::MAX,
    ensures
        indices_below(count).finite(),
        indices_below(count).len() == count,
    decreases count,
{
    if count == 0 {
        assert(indices_below(count) =~= Set::empty());
    } else {
        lemma_indices_below((count - 1) as nat);
        assert(indices_below(count) =~= indices_below((count - 1) as nat).insert(
            (count - 1) as usize,
        ));
    }
}

/// A layout lists every block once: it is as long as the routine has
/// blocks, and no block stands in it twice.
pub proof fn lemma_layout_lists_each_block_once(routine: SpecRoutine, order: Seq<usize>)
    requires
        is_layout(routine, order),
        routine.blocks.len() <= usize::MAX,
    ensures
        order.no_duplicates(),
        order.len() == routine.blocks.len(),
{
    assert forall|i: int, j: int| 0 <= i < order.len() && 0 <= j < order.len() && i != j implies order[i]
        != order[j] by {
        if i < j {
            assert(precedes(routine, order[i] as int, order[j] as int));
        } else {
            assert(precedes(routine, order[j] as int, order[i] as int));
        }
    }
    order.unique_seq_to_set();
    lemma_indices_below(routine.blocks.len());
    assert(order.to_set() =~= indices_below(routine.blocks.len())) by {
        assert forall|b: usize| order.to_set().contains(b) implies indices_below(
            routine.blocks.len(),
        ).contains(b) by {
            let i = choose|i: int| 0 <= i < order.len() && order[i] == b;
            assert(order[i] < routine.blocks.len());
        }
    }
}

impl Routine {
    /// The blocks in the order of their code: by the place where each
    /// starts, and by index where two start at one place.  Every block is
    /// listed once.
    pub fn layout(&self) -> (order: Vec<usize>)
        ensures
            is_layout(self@, order@),
            order@.len() == self.blocks.len(),
            order@.no_duplicates(),
    {
        let count = self.blocks.len();
        let mut last: usize = 0;
        let mut b: usize = 0;
        while b < count
            invariant
                b <= count,
                count == self.blocks.len(),
                forall|k: int| 0 <= k < b ==> (#[trigger] self.blocks[k]).start <= last,
            decreases count - b,
        {
            if self.blocks[b].start > last {
                last = self.blocks[b].start;
            }
            b += 1;
        }
        let mut order: Vec<usize> = Vec::new();
        let mut place: usize = 0;
        let mut done = false;
        while !done
            invariant
                count == self.blocks.len(),
                forall|k: int| 0 <= k < count ==> (#[trigger] self.blocks[k]).start <= last,
                place <= last,
                !done ==> is_layout_up_to(self@, order@, place as int, 0),
                done ==> is_layout(self@, order@),
            decreases last - place + (if done { 0int } else { 1int }),
        {
            let mut b: usize = 0;
            while b < count
                invariant
                    b <= count,
                    count == self.blocks.len(),
                    is_layout_up_to(self@, order@, place as int, b as int),
                decreases count - b,
            {
                proof {
                    lemma_layout_grows(self@, order@, place as int, b);
                }
                if self.blocks[b].start == place {
                    order.push(b);
                }
                b += 1;
            }
            if place == last {
                done = true;
            } else {
                place += 1;
                assert(is_layout_up_to(self@, order@, place as int, 0));
            }
        }
        proof {
            lemma_layout_lists_each_block_once(self@, order@);
        }
        order
    }
}

} // verus!
