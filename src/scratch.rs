use std::collections::HashMap;
use vstd::prelude::*;

verus! {

broadcast use vstd::std_specs::hash::group_hash_axioms;

/// Owns one native scratch-memory arena, which batch operations of the native
/// library use in place of their own heap allocations. It holds the arena's
/// handle, an address that only the native library interprets, and the number
/// of bytes the arena was created with, which never changes.
///
/// The type is neither `Clone` nor `Copy`: an arena has exactly one owner at a
/// time. Moving the owner to another thread is sound; two threads that run
/// native operations on the same arena at once need a lock around it, since
/// those operations write into the arena.
pub struct ScratchSpace {
    scratch_space: usize,
    max_size: usize,
}

impl ScratchSpace {
    /// The native handle of the arena.
    pub closed spec fn handle(&self) -> usize {
        self.scratch_space
    }

    /// The number of bytes the arena was created with.
    pub closed spec fn capacity(&self) -> usize {
        self.max_size
    }

    /// Takes ownership of the arena `handle` that the native library has just
    /// created with room for `max_size` bytes (0 denotes an empty arena).
    pub fn new(handle: usize, max_size: usize) -> (r: ScratchSpace)
        ensures
            r.handle() == handle,
            r.capacity() == max_size,
    {
        ScratchSpace { scratch_space: handle, max_size }
    }

    /// The native handle, to be handed to native calls while `self` is borrowed.
    pub fn scratch_space(&self) -> (r: usize)
        ensures
            r == self.handle(),
    {
        self.scratch_space
    }

    /// The number of bytes the arena was created with.
    pub fn max_size(&self) -> (r: usize)
        ensures
            r == self.capacity(),
    {
        self.max_size
    }
}

/// The arenas that are live: created by the native library and not yet handed
/// back for destruction, each with its capacity. Creating records an arena and
/// hands out its single owner; releasing consumes that owner, so an arena is
/// handed back for destruction at most once.
pub struct ScratchRegistry {
    live: HashMap<usize, usize>,
}

impl View for ScratchRegistry {
    type V = Map<usize, usize>;

    /// Each live arena's handle, mapped to its capacity.
    closed spec fn view(&self) -> Map<usize, usize> {
        self.live@
    }
}

impl ScratchRegistry {
    /// A registry with no live arena.
    pub fn new() -> (r: ScratchRegistry)
        ensures
            r@ == Map::<usize, usize>::empty(),
    {
        ScratchRegistry { live: HashMap::new() }
    }

    /// Records the arena `handle` that the native library has just created with
    /// room for `max_size` bytes, and returns its owner. Returns `None`, and
    /// records nothing, when `handle` is already live: an arena has one owner.
    pub fn create(&mut self, handle: usize, max_size: usize) -> (r: Option<ScratchSpace>)
        ensures
            r.is_some() == !old(self)@.contains_key(handle),
            r.is_some() ==> final(self)@ == old(self)@.insert(handle, max_size)
                && r.unwrap().handle() == handle && r.unwrap().capacity() == max_size,
            r.is_none() ==> final(self)@ == old(self)@,
    {
        if self.live.contains_key(&handle) {
            return None;
        }
        self.live.insert(handle, max_size);
        Some(ScratchSpace::new(handle, max_size))
    }

    /// Consumes the owner of a live arena and returns its handle, which is then
    /// to be destroyed by the native library. Returns `None`, and changes
    /// nothing, when the arena is not live here.
    pub fn release(&mut self, space: ScratchSpace) -> (r: Option<usize>)
        ensures
            r.is_some() == old(self)@.contains_key(space.handle()),
            r.is_some() ==> r.unwrap() == space.handle() && final(self)@ == old(self)@.remove(
                space.handle(),
            ),
            r.is_none() ==> final(self)@ == old(self)@,
    {
        let handle = space.scratch_space();
        match self.live.remove(&handle) {
            Some(_) => Some(handle),
            None => None,
        }
    }

    /// Whether the arena `handle` is live.
    pub fn is_live(&self, handle: usize) -> (r: bool)
        ensures
            r == self@.contains_key(handle),
    {
        self.live.contains_key(&handle)
    }

    /// The number of live arenas.
    pub fn len(&self) -> (r: usize)
        ensures
            r == self@.len(),
    {
        self.live.len()
    }
}

/// Creating an arena of any capacity and then releasing its owner leaves the
/// live arenas as they were: nothing leaks, and the arena is no longer live,
/// so a second release of it is refused.
pub proof fn lemma_create_release_balanced(live: Map<usize, usize>, handle: usize, max_size: usize)
    requires
        !live.contains_key(handle),
    ensures
        live.insert(handle, max_size).contains_key(handle),
        live.insert(handle, max_size).remove(handle) == live,
        !live.insert(handle, max_size).remove(handle).contains_key(handle),
{
    assert(live.insert(handle, max_size).remove(handle) =~= live);
}

/// Two arenas with distinct handles, created in turn, are both live with their
/// own capacities; releasing the first leaves the second live with its
/// capacity.
pub proof fn lemma_arenas_independent(
    live: Map<usize, usize>,
    first: usize,
    first_size: usize,
    second: usize,
    second_size: usize,
)
    requires
        first != second,
        !live.contains_key(first),
        !live.contains_key(second),
    ensures
        live.insert(first, first_size).insert(second, second_size).contains_key(first),
        live.insert(first, first_size).insert(second, second_size)[first] == first_size,
        live.insert(first, first_size).insert(second, second_size)[second] == second_size,
        live.insert(first, first_size).insert(second, second_size).remove(first).contains_key(
            second,
        ),
        live.insert(first, first_size).insert(second, second_size).remove(first)[second]
            == second_size,
{
}

} // verus!
