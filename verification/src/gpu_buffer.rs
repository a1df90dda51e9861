//! Buffers in linear memory, the only memory that the GPU reads vertex and
//! index data from, and the pool that they are accounted in.
//!
//! The pool has a fixed size. Every buffer takes its bytes from it and gives
//! them back when it is released. A buffer is known by a number that is never
//! given out twice, so that a handle to a released buffer can be told from a
//! handle to a live one.

use vstd::prelude::*;
use vstd::layout::size_of;
use crate::error::RenderError;

verus! {

/// One live buffer as the pool knows it.
struct Allocation {
    id: u64,
    bytes: usize,
}

/// The bytes that a list of allocations takes.
spec fn total_bytes(live: Seq<Allocation>) -> nat
    decreases live.len(),
{
    if live.len() == 0 {
        0
    } else {
        live.last().bytes as nat + total_bytes(live.drop_last())
    }
}

proof fn lemma_total_remove(live: Seq<Allocation>, i: int)
    requires
        0 <= i < live.len(),
    ensures
        total_bytes(live.remove(i)) + live[i].bytes == total_bytes(live),
    decreases live.len(),
{
    if i == live.len() - 1 {
        assert(live.remove(i) == live.drop_last());
    } else {
        lemma_total_remove(live.drop_last(), i);
        assert(live.remove(i).drop_last() == live.drop_last().remove(i));
        assert(live.remove(i).last() == live.last());
    }
}

/// The accounts of the linear memory pool.
pub struct LinearPool {
    capacity: usize,
    used: usize,
    next_id: u64,
    live: Vec<Allocation>,
}

impl LinearPool {
    /// The size of the pool in bytes.
    pub closed spec fn capacity_bytes(self) -> nat {
        self.capacity as nat
    }

    /// The bytes that live buffers take.
    pub closed spec fn used_bytes(self) -> nat {
        self.used as nat
    }

    /// Whether the buffer with number `id` is live.
    pub closed spec fn holds(self, id: u64) -> bool {
        exists|i: int| 0 <= i < self.live@.len() && self.live@[i].id == id
    }

    /// The bytes that the live buffer with number `id` takes.
    pub closed spec fn allotted(self, id: u64) -> nat {
        let i = choose|i: int| 0 <= i < self.live@.len() && self.live@[i].id == id;
        self.live@[i].bytes as nat
    }

    /// Whether `id` has ever been given to a buffer of this pool.
    pub closed spec fn issued(self, id: u64) -> bool {
        id < self.next_id
    }

    /// How many numbers the pool has left for new buffers.
    pub closed spec fn numbers_left(self) -> nat {
        (u64::MAX - self.next_id) as nat
    }

    /// Whether the pool has run out of numbers for new buffers.
    pub open spec fn exhausted(self) -> bool {
        self.numbers_left() == 0
    }

    /// Whether a new buffer of `bytes` bytes can be had.
    pub open spec fn fits(self, bytes: nat) -> bool {
        self.used_bytes() + bytes <= self.capacity_bytes() && !self.exhausted()
    }

    /// What every pool satisfies.
    pub closed spec fn wf(self) -> bool {
        &&& self.used == total_bytes(self.live@)
        &&& self.used <= self.capacity
        &&& forall|i: int| 0 <= i < self.live@.len() ==> (#[trigger] self.live@[i]).id < self.next_id
        &&& forall|i: int, j: int|
            0 <= i < j < self.live@.len() ==> (#[trigger] self.live@[i]).id != (
            #[trigger] self.live@[j]).id
    }

    proof fn lemma_allotted(self, i: int)
        requires
            self.wf(),
            0 <= i < self.live@.len(),
        ensures
            self.allotted(self.live@[i].id) == self.live@[i].bytes,
    {
        let id = self.live@[i].id;
        let k = choose|k: int| 0 <= k < self.live@.len() && self.live@[k].id == id;
        if k < i {
            assert(self.live@[k].id != self.live@[i].id);
        } else if i < k {
            assert(self.live@[i].id != self.live@[k].id);
        }
    }

    /// The live buffers never take more than the pool has.
    pub proof fn lemma_within_capacity(self)
        requires
            self.wf(),
        ensures
            self.used_bytes() <= self.capacity_bytes(),
    {
    }

    /// A live buffer has a number that was given out.
    pub proof fn lemma_live_is_issued(self, id: u64)
        requires
            self.wf(),
            self.holds(id),
        ensures
            self.issued(id),
    {
    }

    /// An empty pool of `capacity` bytes.
    pub fn new(capacity: usize) -> (pool: LinearPool)
        ensures
            pool.wf(),
            pool.capacity_bytes() == capacity,
            pool.used_bytes() == 0,
            pool.numbers_left() == u64::MAX,
            forall|id: u64| !pool.holds(id) && !pool.issued(id),
    {
        LinearPool { capacity, used: 0, next_id: 0, live: Vec::new() }
    }

    pub fn capacity(&self) -> (n: usize)
        ensures
            n == self.capacity_bytes(),
    {
        self.capacity
    }

    pub fn used(&self) -> (n: usize)
        ensures
            n == self.used_bytes(),
    {
        self.used
    }

    /// Whether the buffer with number `id` is live.
    pub fn is_live(&self, id: u64) -> (live: bool)
        ensures
            live == self.holds(id),
    {
        let mut i: usize = 0;
        while i < self.live.len()
            invariant
                i <= self.live.len(),
                forall|j: int| 0 <= j < i ==> self.live@[j].id != id,
            decreases self.live.len() - i,
        {
            if self.live[i].id == id {
                return true;
            }
            i += 1;
        }
        false
    }

    /// Takes `bytes` bytes for a new buffer and gives the buffer's number.
    pub fn reserve(&mut self, bytes: usize) -> (r: Result<u64, RenderError>)
        requires
            old(self).wf(),
        ensures
            final(self).wf(),
            final(self).capacity_bytes() == old(self).capacity_bytes(),
            old(self).fits(bytes as nat) ==> {
                &&& r is Ok
                &&& !old(self).issued(r->Ok_0)
                &&& final(self).used_bytes() == old(self).used_bytes() + bytes
                &&& final(self).numbers_left() == old(self).numbers_left() - 1
                &&& final(self).allotted(r->Ok_0) == bytes
                &&& forall|x: u64|
                    old(self).holds(x) ==> final(self).allotted(x) == old(self).allotted(x)
                &&& forall|x: u64|
                    final(self).holds(x) == (old(self).holds(x) || x == r->Ok_0)
                &&& forall|x: u64|
                    final(self).issued(x) == (old(self).issued(x) || x == r->Ok_0)
            },
            !old(self).fits(bytes as nat) ==> {
                &&& r == Err::<u64, RenderError>(RenderError::OutOfLinearMemory)
                &&& *final(self) == *old(self)
            },
    {
        if self.next_id == u64::MAX || bytes > self.capacity - self.used {
            return Err(RenderError::OutOfLinearMemory);
        }
        let id: u64 = self.next_id;
        let ghost before = *self;
        self.live.push(Allocation { id, bytes });
        self.used = self.used + bytes;
        self.next_id = id + 1;
        proof {
            assert(self.live@.drop_last() == before.live@);
            assert forall|x: u64| self.holds(x) == (before.holds(x) || x == id) by {
                if self.holds(x) {
                    let i = choose|i: int| 0 <= i < self.live@.len() && self.live@[i].id == x;
                    if i < before.live@.len() {
                        assert(before.live@[i].id == x);
                    }
                }
                if before.holds(x) {
                    let i = choose|i: int| 0 <= i < before.live@.len() && before.live@[i].id == x;
                    assert(self.live@[i].id == x);
                }
                if x == id {
                    assert(self.live@[before.live@.len() as int].id == x);
                }
            }
            assert(self.live@[before.live@.len() as int].id == id);
            self.lemma_allotted(before.live@.len() as int);
            assert forall|x: u64| before.holds(x) implies self.allotted(x) == before.allotted(
                x,
            ) by {
                let k = choose|k: int| 0 <= k < before.live@.len() && before.live@[k].id == x;
                assert(self.live@[k] == before.live@[k]);
                self.lemma_allotted(k);
                before.lemma_allotted(k);
            }
        }
        Ok(id)
    }

    /// Gives back the bytes of the buffer with number `id`, if it is live.
    pub fn give_back(&mut self, id: u64)
        requires
            old(self).wf(),
        ensures
            final(self).wf(),
            final(self).capacity_bytes() == old(self).capacity_bytes(),
            final(self).numbers_left() == old(self).numbers_left(),
            final(self).used_bytes() <= old(self).used_bytes(),
            old(self).holds(id) ==> final(self).used_bytes() + old(self).allotted(id) == old(
                self,
            ).used_bytes(),
            !old(self).holds(id) ==> *final(self) == *old(self),
            forall|x: u64| final(self).holds(x) == (old(self).holds(x) && x != id),
            forall|x: u64| final(self).holds(x) ==> final(self).allotted(x) == old(self).allotted(x),
            forall|x: u64| final(self).issued(x) == old(self).issued(x),
    {
        let mut i: usize = 0;
        while i < self.live.len()
            invariant
                i <= self.live.len(),
                *self == *old(self),
                self.wf(),
                forall|j: int| 0 <= j < i ==> self.live@[j].id != id,
            decreases self.live.len() - i,
        {
            if self.live[i].id == id {
                let ghost before = *self;
                proof {
                    lemma_total_remove(self.live@, i as int);
                }
                let gone = self.live.remove(i);
                self.used = self.used - gone.bytes;
                proof {
                    before.lemma_allotted(i as int);
                    assert forall|x: u64| self.holds(x) implies self.allotted(x)
                        == before.allotted(x) by {
                        let k = choose|k: int| 0 <= k < self.live@.len() && self.live@[k].id == x;
                        self.lemma_allotted(k);
                        if k < i {
                            assert(before.live@[k] == self.live@[k]);
                            before.lemma_allotted(k);
                        } else {
                            assert(before.live@[k + 1] == self.live@[k]);
                            before.lemma_allotted(k + 1);
                        }
                    }
                    assert forall|x: u64| self.holds(x) == (before.holds(x) && x != id) by {
                        if self.holds(x) {
                            let k = choose|k: int|
                                0 <= k < self.live@.len() && self.live@[k].id == x;
                            if k < i {
                                assert(before.live@[k].id == x);
                            } else {
                                assert(before.live@[k + 1].id == x);
                            }
                        }
                        if before.holds(x) && x != id {
                            let k = choose|k: int|
                                0 <= k < before.live@.len() && before.live@[k].id == x;
                            if k < i {
                                assert(self.live@[k].id == x);
                            } else {
                                assert(self.live@[k - 1].id == x);
                            }
                        }
                    }
                }
                return ;
            }
            i += 1;
        }
    }

    /// Ends the life of `buffer`: its bytes go back to the pool, and every
    /// handle to it is stale from now on.
    pub fn release<T>(&mut self, buffer: LinearBuffer<T>)
        requires
            old(self).wf(),
        ensures
            final(self).wf(),
            final(self).capacity_bytes() == old(self).capacity_bytes(),
            final(self).numbers_left() == old(self).numbers_left(),
            final(self).used_bytes() <= old(self).used_bytes(),
            old(self).holds(buffer.id()) ==> final(self).used_bytes() + old(self).allotted(
                buffer.id(),
            ) == old(self).used_bytes(),
            !final(self).holds(buffer.id()),
            forall|x: u64| final(self).holds(x) == (old(self).holds(x) && x != buffer.id()),
            forall|x: u64| final(self).holds(x) ==> final(self).allotted(x) == old(self).allotted(x),
            forall|x: u64| final(self).issued(x) == old(self).issued(x),
    {
        self.give_back(buffer.id)
    }
}

/// A run of `T`s in linear memory. Its contents never change.
#[derive(Debug)]
pub struct LinearBuffer<T> {
    id: u64,
    data: Vec<T>,
}

impl<T> View for LinearBuffer<T> {
    type V = Seq<T>;

    closed spec fn view(&self) -> Seq<T> {
        self.data@
    }
}

impl<T> LinearBuffer<T> {
    /// The number that the pool knows this buffer by.
    pub closed spec fn id(self) -> u64 {
        self.id
    }

    /// The bytes that `len` elements take.
    pub open spec fn bytes_for(len: nat) -> nat {
        len * size_of::<T>()
    }

    pub fn handle(&self) -> (id: u64)
        ensures
            id == self.id(),
    {
        self.id
    }

    pub fn len(&self) -> (n: usize)
        ensures
            n == self@.len(),
    {
        self.data.len()
    }

    /// The contents.
    pub fn as_slice(&self) -> (items: &[T])
        ensures
            items@ == self@,
    {
        self.data.as_slice()
    }
}

/// What a pool and a new buffer look like after the buffer was made, or
/// refused, with `len` elements.
pub open spec fn allocated<T>(
    before: LinearPool,
    after: LinearPool,
    len: nat,
    r: Result<LinearBuffer<T>, RenderError>,
) -> bool {
    let bytes = LinearBuffer::<T>::bytes_for(len);
    if before.fits(bytes) {
        &&& r is Ok
        &&& r->Ok_0@.len() == len
        &&& !before.issued(r->Ok_0.id())
        &&& after.used_bytes() == before.used_bytes() + bytes
        &&& after.numbers_left() == before.numbers_left() - 1
        &&& after.allotted(r->Ok_0.id()) == bytes
        &&& forall|x: u64| before.holds(x) ==> after.allotted(x) == before.allotted(x)
        &&& forall|x: u64| after.holds(x) == (before.holds(x) || x == r->Ok_0.id())
        &&& forall|x: u64| after.issued(x) == (before.issued(x) || x == r->Ok_0.id())
    } else {
        &&& r is Err
        &&& r->Err_0 == RenderError::OutOfLinearMemory
        &&& after == before
    }
}

/// The bytes that `len` elements of `T` take, if that many can be counted.
fn byte_size<T>(len: usize) -> (bytes: Option<usize>)
    ensures
        LinearBuffer::<T>::bytes_for(len as nat) <= usize::MAX ==> bytes == Some(
            LinearBuffer::<T>::bytes_for(len as nat) as usize,
        ),
        LinearBuffer::<T>::bytes_for(len as nat) > usize::MAX ==> bytes is None,
{
    len.checked_mul(core::mem::size_of::<T>())
}

impl<T: Copy> LinearBuffer<T> {
    /// A buffer that holds a copy of `items`.
    pub fn new(pool: &mut LinearPool, items: &[T]) -> (r: Result<LinearBuffer<T>, RenderError>)
        requires
            old(pool).wf(),
        ensures
            final(pool).wf(),
            final(pool).capacity_bytes() == old(pool).capacity_bytes(),
            allocated(*old(pool), *final(pool), items@.len(), r),
            r is Ok ==> r->Ok_0@ == items@,
    {
        let bytes = match byte_size::<T>(items.len()) {
            Some(bytes) => bytes,
            None => {
                return Err(RenderError::OutOfLinearMemory);
            },
        };
        let id = match pool.reserve(bytes) {
            Ok(id) => id,
            Err(e) => {
                return Err(e);
            },
        };
        Ok(LinearBuffer { id, data: vstd::slice::slice_to_vec(items) })
    }

    /// A buffer of `sz` elements, each of them `v`.
    pub fn with_size(pool: &mut LinearPool, sz: usize, v: T) -> (r: Result<
        LinearBuffer<T>,
        RenderError,
    >)
        requires
            old(pool).wf(),
        ensures
            final(pool).wf(),
            final(pool).capacity_bytes() == old(pool).capacity_bytes(),
            allocated(*old(pool), *final(pool), sz as nat, r),
            r is Ok ==> forall|i: int| 0 <= i < sz ==> r->Ok_0@[i] == v,
    {
        let bytes = match byte_size::<T>(sz) {
            Some(bytes) => bytes,
            None => {
                return Err(RenderError::OutOfLinearMemory);
            },
        };
        let id = match pool.reserve(bytes) {
            Ok(id) => id,
            Err(e) => {
                return Err(e);
            },
        };
        let mut data: Vec<T> = Vec::new();
        let mut i: usize = 0;
        while i < sz
            invariant
                i <= sz,
                data@.len() == i,
                forall|j: int| 0 <= j < i ==> data@[j] == v,
            decreases sz - i,
        {
            data.push(v);
            i += 1;
        }
        Ok(LinearBuffer { id, data })
    }
}

} // verus!
