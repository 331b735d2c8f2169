//! Context handles and how the two sides of a connection give them out.
use vstd::prelude::*;

verus! {

/// The handle of one context: the number in front of each of its frames.
#[derive(Debug, Hash, PartialEq, Eq, Clone, Copy, Structural)]
pub struct ContextHandle(pub u32);

/// The handle of the context that a connection starts with, on both sides.
pub const ROOT_HANDLE: u32 = 0;

/// The first handle that the coalescing side gives out.
pub const FIRST_COALESCE_HANDLE: u32 = 2;

/// The first handle that the unraveling side gives out.
pub const FIRST_UNRAVEL_HANDLE: u32 = 1;

/// The distance between two handles that one side gives out.
pub const HANDLE_STEP: u32 = 2;

/// How many handles there are.
pub open spec fn handle_space() -> int {
    0x1_0000_0000
}

/// How many handles a side has: every other one.
pub open spec fn handles_per_side() -> int {
    0x8000_0000
}

/// The `n`th handle, counted from zero, that a side gives out which starts at `first`.
pub open spec fn nth_handle(first: u32, n: nat) -> u32 {
    ((first + HANDLE_STEP * n) % handle_space()) as u32
}

/// The counter behind the handles that one side of a connection gives out.
#[derive(Debug)]
pub struct HandleAllocator {
    next: u32,
}

impl HandleAllocator {
    /// The handle that is given out next.
    pub closed spec fn next_handle(self) -> u32 {
        self.next
    }

    /// The counter of the coalescing side.
    pub fn coalescing() -> (indices: Self)
        ensures
            indices.next_handle() == FIRST_COALESCE_HANDLE,
    {
        HandleAllocator { next: FIRST_COALESCE_HANDLE }
    }

    /// The counter of the unraveling side.
    pub fn unraveling() -> (indices: Self)
        ensures
            indices.next_handle() == FIRST_UNRAVEL_HANDLE,
    {
        HandleAllocator { next: FIRST_UNRAVEL_HANDLE }
    }

    /// Gives out a handle. The counter wraps around at the end of the handle space.
    pub fn allocate(&mut self) -> (handle: ContextHandle)
        ensures
            handle.0 == old(self).next_handle(),
            final(self).next_handle() == nth_handle(old(self).next_handle(), 1),
    {
        let handle: u32 = self.next;
        self.next = handle.wrapping_add(HANDLE_STEP);
        ContextHandle(handle)
    }
}

/// Giving out one handle moves the counter from the `n`th handle to the one after it, so the
/// handles that a side gives out are `nth_handle(first, 0)`, `nth_handle(first, 1)`, and so on.
pub proof fn law_handles_in_sequence(first: u32, n: nat)
    ensures
        nth_handle(first, 0) == first,
        nth_handle(nth_handle(first, n), 1) == nth_handle(first, n + 1),
{
}

/// The two sides never give out the same handle, however many they have given out: those of
/// the coalescing side are even, those of the unraveling side are odd.
pub proof fn law_sides_are_disjoint(m: nat, n: nat)
    ensures
        nth_handle(FIRST_COALESCE_HANDLE, m) % 2 == 0,
        nth_handle(FIRST_UNRAVEL_HANDLE, n) % 2 == 1,
        nth_handle(FIRST_COALESCE_HANDLE, m) != nth_handle(FIRST_UNRAVEL_HANDLE, n),
{
}

/// A side gives out a handle again only after it has given out all of its handles: the `m`th
/// and the `n`th are the same just where `n - m` is a multiple of how many it has.
pub proof fn law_handles_are_distinct(first: u32, m: nat, n: nat)
    requires
        m <= n,
    ensures
        nth_handle(first, m) == nth_handle(first, n) <==> (n - m) % handles_per_side() == 0,
{
}

/// The handle of the root context is reserved: the unraveling side never gives it out, and the
/// coalescing side only once it has given out every other even handle.
pub proof fn law_root_handle_is_reserved(n: nat)
    ensures
        nth_handle(FIRST_UNRAVEL_HANDLE, n) != ROOT_HANDLE,
        nth_handle(FIRST_COALESCE_HANDLE, n) == ROOT_HANDLE <==> n as int % handles_per_side()
            == handles_per_side() - 1,
{
}

/// The coalescing side gives out 2, 4, 6 and so on: however many handles it has given out, the
/// one behind `n` others is `2 + 2 * n`, modulo the handle space.
pub proof fn law_coalescing_handles(counters: Seq<HandleAllocator>, handles: Seq<ContextHandle>)
    requires
        counters.len() == handles.len() + 1,
        HandleAllocator::coalescing.ensures((), counters[0]),
        forall|i: int|
            0 <= i < handles.len() ==> exists|counter: &mut HandleAllocator|
                HandleAllocator::allocate.ensures((counter,), #[trigger] handles[i]) && *counter
                    == counters[i] && *final(counter) == counters[i + 1],
    ensures
        forall|n: int|
            0 <= n < handles.len() ==> (#[trigger] handles[n]).0 == (2 + 2 * n) % 0x1_0000_0000,
{
    assert forall|i: int| 0 <= i < handles.len() implies counters[i].next_handle() == (#[trigger]
    handles[i]).0 && counters[i + 1].next_handle() == (handles[i].0 + 2) % 0x1_0000_0000 by {}
    assert forall|n: int| 0 <= n < handles.len() implies (#[trigger] handles[n]).0 == (
    counters[0].next_handle() + 2 * n) % 0x1_0000_0000 by {
        lemma_handles_by_twos(counters, handles, n);
    }
}

/// The unraveling side gives out 1, 3, 5 and so on: however many handles it has given out, the
/// one behind `n` others is `1 + 2 * n`, modulo the handle space.
pub proof fn law_unraveling_handles(counters: Seq<HandleAllocator>, handles: Seq<ContextHandle>)
    requires
        counters.len() == handles.len() + 1,
        HandleAllocator::unraveling.ensures((), counters[0]),
        forall|i: int|
            0 <= i < handles.len() ==> exists|counter: &mut HandleAllocator|
                HandleAllocator::allocate.ensures((counter,), #[trigger] handles[i]) && *counter
                    == counters[i] && *final(counter) == counters[i + 1],
    ensures
        forall|n: int|
            0 <= n < handles.len() ==> (#[trigger] handles[n]).0 == (1 + 2 * n) % 0x1_0000_0000,
{
    assert forall|i: int| 0 <= i < handles.len() implies counters[i].next_handle() == (#[trigger]
    handles[i]).0 && counters[i + 1].next_handle() == (handles[i].0 + 2) % 0x1_0000_0000 by {}
    assert forall|n: int| 0 <= n < handles.len() implies (#[trigger] handles[n]).0 == (
    counters[0].next_handle() + 2 * n) % 0x1_0000_0000 by {
        lemma_handles_by_twos(counters, handles, n);
    }
}

/// The handle behind `n` others, as a number.
pub proof fn law_nth_handle(first: u32, n: nat)
    ensures
        nth_handle(first, n) as int == (first + 2 * n) % 0x1_0000_0000,
        nth_handle(0, n) as int == (2 * n) % 0x1_0000_0000,
{
}

proof fn lemma_handles_by_twos(counters: Seq<HandleAllocator>, handles: Seq<ContextHandle>, n: int)
    requires
        counters.len() == handles.len() + 1,
        0 <= n < counters.len(),
        forall|i: int|
            0 <= i < handles.len() ==> counters[i].next_handle() == (#[trigger] handles[i]).0
                && counters[i + 1].next_handle() == (handles[i].0 + 2) % 0x1_0000_0000,
    ensures
        counters[n].next_handle() == (counters[0].next_handle() + 2 * n) % 0x1_0000_0000,
    decreases n,
{
    if n > 0 {
        lemma_handles_by_twos(counters, handles, n - 1);
        assert(handles[n - 1].0 == counters[n - 1].next_handle());
    }
}

/// Handles can always be had, however many were given out.
pub proof fn law_handles_can_always_be_had()
    ensures
        HandleAllocator::coalescing.requires(()),
        HandleAllocator::unraveling.requires(()),
        forall|counter: &mut HandleAllocator| #[trigger]
            HandleAllocator::allocate.requires((counter,)),
{
}

} // verus!
