//! A memory arena: a vector of blocks together with a stack of the indices of
//! the blocks that were freed and may be handed out again.

use vstd::prelude::*;

verus! {

/// Index of a block in an `Arena`.
pub type Index = usize;

/// A memory arena storing values of type `T`.
#[derive(Clone, Debug)]
pub struct Arena<T> {
    blocks: Vec<T>,
    free: Vec<Index>,
}

impl<T> Arena<T> {
    /// The blocks of the arena, allocated or freed.
    pub closed spec fn blocks(&self) -> Seq<T> {
        self.blocks@
    }

    /// The stack of freed indices; the last one is handed out first.
    pub closed spec fn free_list(&self) -> Seq<Index> {
        self.free@
    }

    /// Every freed index points at an existing block.
    pub open spec fn wf(&self) -> bool {
        forall|i: int| 0 <= i < self.free_list().len() ==> #[trigger] self.free_list()[i] < self.blocks().len()
    }

    /// Return an empty arena.
    pub fn new(capacity: usize) -> (arena: Self)
        ensures
            arena.blocks() == Seq::<T>::empty(),
            arena.free_list() == Seq::<Index>::empty(),
    {
        Arena { blocks: Vec::with_capacity(capacity), free: Vec::with_capacity(capacity) }
    }

    /// Store `value`, reusing the most recently freed block if there is one.
    pub fn allocate(&mut self, value: T) -> (index: Index)
        requires
            old(self).wf(),
        ensures
            old(self).free_list().len() > 0 ==> {
                &&& index == old(self).free_list().last()
                &&& final(self).free_list() == old(self).free_list().drop_last()
                &&& final(self).blocks() == old(self).blocks().update(index as int, value)
            },
            old(self).free_list().len() == 0 ==> {
                &&& index == old(self).blocks().len()
                &&& final(self).free_list() == old(self).free_list()
                &&& final(self).blocks() == old(self).blocks().push(value)
            },
    {
        if let Some(index) = self.free.pop() {
            self.blocks.set(index, value);
            return index;
        }
        self.blocks.push(value);
        self.blocks.len() - 1
    }

    /// The value stored at `index`.
    pub fn get(&self, index: Index) -> (value: &T)
        requires
            index < self.blocks().len(),
        ensures
            *value == self.blocks()[index as int],
    {
        &self.blocks[index]
    }

    /// A mutable reference to the value stored at `index`.
    pub fn get_mut(&mut self, index: Index) -> (value: &mut T)
        requires
            index < old(self).blocks().len(),
        ensures
            *value == old(self).blocks()[index as int],
            final(self).blocks() == old(self).blocks().update(index as int, *final(value)),
            final(self).free_list() == old(self).free_list(),
    {
        &mut self.blocks[index]
    }

    /// Mark the block at `index` as free, so that it may be handed out again.
    pub fn free(&mut self, index: Index)
        ensures
            final(self).blocks() == old(self).blocks(),
            final(self).free_list() == old(self).free_list().push(index),
    {
        self.free.push(index)
    }
}

} // verus!
