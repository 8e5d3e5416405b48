//! Shared pixel buffers.
//!
//! A `Pool` owns every pixel buffer. Textures and images do not hold memory:
//! each names a buffer of the pool by its number and counts as one holder of
//! it. A buffer is made with one holder. Deriving a view from it adds a
//! holder, and the end of a view takes one away. When the last holder is gone
//! the bytes are freed, and the buffer's number is never given out again, so
//! a view that outlives its buffer is told so instead of reading the bytes of
//! another.

use vstd::prelude::*;
use std::collections::TryReserveError;

verus! {

/// What a pool knows of one buffer.
pub struct Buffer {
    /// The number of views that hold the buffer. A freed buffer has none.
    pub holders: nat,
    /// The bytes of the buffer. A freed buffer has none.
    pub bytes: Seq<u8>,
}

struct Slot {
    holders: usize,
    bytes: Vec<u8>,
}

/// The owner of all pixel buffers.
pub struct Pool {
    slots: Vec<Slot>,
}

/// A buffer is live while a view holds it.
pub open spec fn spec_live(pool: Seq<Buffer>, id: int) -> bool {
    0 <= id < pool.len() && pool[id].holders > 0
}

/// The pool after one more view has taken hold of buffer `id`. Nothing
/// changes if the buffer is not live or the count of its holders is at its
/// limit.
pub open spec fn spec_acquire(pool: Seq<Buffer>, id: int) -> Seq<Buffer> {
    if spec_live(pool, id) && pool[id].holders < usize::MAX {
        pool.update(id, Buffer { holders: pool[id].holders + 1, bytes: pool[id].bytes })
    } else {
        pool
    }
}

/// The pool after a view has let go of buffer `id`. The bytes go with the
/// last holder. Nothing changes if the buffer is not live.
pub open spec fn spec_release(pool: Seq<Buffer>, id: int) -> Seq<Buffer> {
    if !spec_live(pool, id) {
        pool
    } else if pool[id].holders == 1 {
        pool.update(id, Buffer { holders: 0, bytes: Seq::empty() })
    } else {
        pool.update(id, Buffer { holders: (pool[id].holders - 1) as nat, bytes: pool[id].bytes })
    }
}

/// The pool after `n` more views have taken hold of buffer `id`, one after
/// the other.
pub open spec fn spec_acquire_many(pool: Seq<Buffer>, id: int, n: nat) -> Seq<Buffer>
    decreases n,
{
    if n == 0 {
        pool
    } else {
        spec_acquire(spec_acquire_many(pool, id, (n - 1) as nat), id)
    }
}

/// The pool after `n` views have let go of buffer `id`, one after the other.
pub open spec fn spec_release_many(pool: Seq<Buffer>, id: int, n: nat) -> Seq<Buffer>
    decreases n,
{
    if n == 0 {
        pool
    } else {
        spec_release(spec_release_many(pool, id, (n - 1) as nat), id)
    }
}

/// The bytes `bytes`, with `value` at the `len` places from `start` on.
pub open spec fn spec_fill(bytes: Seq<u8>, start: int, len: int, value: u8) -> Seq<u8> {
    Seq::new(
        bytes.len(),
        |i: int|
            if start <= i < start + len {
                value
            } else {
                bytes[i]
            },
    )
}

/// The bytes `bytes`, with `data` in the places from `start` on.
pub open spec fn spec_write(bytes: Seq<u8>, start: int, data: Seq<u8>) -> Seq<u8> {
    Seq::new(
        bytes.len(),
        |i: int|
            if start <= i < start + data.len() {
                data[i - start]
            } else {
                bytes[i]
            },
    )
}

/// The bytes `bytes`, with copies of `pattern`, one after the other, in the
/// `len` places from `start` on.
pub open spec fn spec_tile(bytes: Seq<u8>, start: int, len: int, pattern: Seq<u8>) -> Seq<u8> {
    Seq::new(
        bytes.len(),
        |i: int|
            if start <= i < start + len {
                pattern[(i - start) % pattern.len() as int]
            } else {
                bytes[i]
            },
    )
}

/// Copies of `pattern`, one after the other, `len` bytes in all.
pub open spec fn spec_pattern(pattern: Seq<u8>, len: nat) -> Seq<u8> {
    Seq::new(len, |i: int| pattern[i % pattern.len() as int])
}

/// To put copies of a pattern in a place is to write them there.
pub proof fn lemma_tile_writes(bytes: Seq<u8>, start: int, len: int, pattern: Seq<u8>)
    requires
        0 <= start,
        0 <= len,
        start + len <= bytes.len(),
    ensures
        spec_tile(bytes, start, len, pattern) == spec_write(
            bytes,
            start,
            spec_pattern(pattern, len as nat),
        ),
{
    assert(spec_tile(bytes, start, len, pattern) =~= spec_write(
        bytes,
        start,
        spec_pattern(pattern, len as nat),
    ));
}

/// The pool with other bytes in buffer `id`.
pub open spec fn spec_with_bytes(pool: Seq<Buffer>, id: int, bytes: Seq<u8>) -> Seq<Buffer> {
    pool.update(id, Buffer { holders: pool[id].holders, bytes })
}

/// Taking hold `n` times adds `n` holders and leaves every byte alone.
pub proof fn lemma_acquire_many(pool: Seq<Buffer>, id: int, n: nat)
    requires
        spec_live(pool, id),
        pool[id].holders + n <= usize::MAX,
    ensures
        spec_acquire_many(pool, id, n) == pool.update(
            id,
            Buffer { holders: pool[id].holders + n, bytes: pool[id].bytes },
        ),
    decreases n,
{
    if n > 0 {
        lemma_acquire_many(pool, id, (n - 1) as nat);
    }
    assert(spec_acquire_many(pool, id, n) =~= pool.update(
        id,
        Buffer { holders: pool[id].holders + n, bytes: pool[id].bytes },
    ));
}

/// Letting go `n` times of a buffer with more than `n` holders takes `n`
/// holders away and leaves every byte alone; letting go as often as there
/// are holders frees the bytes; and on a buffer that is freed, letting go
/// changes nothing.
pub proof fn lemma_release_many(pool: Seq<Buffer>, id: int, n: nat)
    requires
        spec_live(pool, id),
    ensures
        n < pool[id].holders ==> spec_release_many(pool, id, n) == pool.update(
            id,
            Buffer { holders: (pool[id].holders - n) as nat, bytes: pool[id].bytes },
        ),
        n >= pool[id].holders ==> spec_release_many(pool, id, n) == pool.update(
            id,
            Buffer { holders: 0, bytes: Seq::empty() },
        ),
    decreases n,
{
    if n > 0 {
        lemma_release_many(pool, id, (n - 1) as nat);
    }
    if n < pool[id].holders {
        assert(spec_release_many(pool, id, n) =~= pool.update(
            id,
            Buffer { holders: (pool[id].holders - n) as nat, bytes: pool[id].bytes },
        ));
    } else {
        assert(spec_release_many(pool, id, n) =~= pool.update(
            id,
            Buffer { holders: 0, bytes: Seq::empty() },
        ));
    }
}

/// While one of the views of a buffer is kept, the buffer is alive and its
/// bytes are what they were; when the last one is gone, the buffer is freed,
/// once: `shared` views are derived from a buffer with `holders` holders,
/// and then `dropped` of all these let go.
pub proof fn lemma_holders_balance(pool: Seq<Buffer>, id: int, shared: nat, dropped: nat)
    requires
        spec_live(pool, id),
        pool[id].holders + shared <= usize::MAX,
        dropped <= pool[id].holders + shared,
    ensures
        ({
            let after = spec_release_many(spec_acquire_many(pool, id, shared), id, dropped);
            &&& after.len() == pool.len()
            &&& forall|j: int| 0 <= j < pool.len() && j != id ==> after[j] == pool[j]
            &&& after[id].holders == pool[id].holders + shared - dropped
            &&& dropped < pool[id].holders + shared ==> spec_live(after, id) && after[id].bytes
                == pool[id].bytes
            &&& dropped == pool[id].holders + shared ==> !spec_live(after, id) && after[id].bytes
                == Seq::<u8>::empty() && spec_release(after, id) == after
        }),
{
    lemma_acquire_many(pool, id, shared);
    let mid = spec_acquire_many(pool, id, shared);
    lemma_release_many(mid, id, dropped);
}

/// Sets the `len` bytes from `start` on to `value`.
fn fill_bytes(buf: &mut Vec<u8>, start: usize, len: usize, value: u8)
    requires
        start + len <= old(buf).len(),
    ensures
        final(buf)@ == spec_fill(old(buf)@, start as int, len as int, value),
{
    let mut k: usize = 0;
    while k < len
        invariant
            k <= len,
            start + len <= buf.len(),
            buf@ == spec_fill(old(buf)@, start as int, k as int, value),
        decreases len - k,
    {
        buf[start + k] = value;
        k = k + 1;
        assert(buf@ =~= spec_fill(old(buf)@, start as int, k as int, value));
    }
    assert(buf@ =~= spec_fill(old(buf)@, start as int, len as int, value));
}

/// Puts `data` in the places from `start` on.
fn write_bytes(buf: &mut Vec<u8>, start: usize, data: &[u8])
    requires
        start + data.len() <= old(buf).len(),
    ensures
        final(buf)@ == spec_write(old(buf)@, start as int, data@),
{
    let mut k: usize = 0;
    while k < data.len()
        invariant
            k <= data.len(),
            start + data.len() <= buf.len(),
            buf@ == spec_write(old(buf)@, start as int, data@.subrange(0, k as int)),
        decreases data.len() - k,
    {
        buf[start + k] = data[k];
        k = k + 1;
        assert(buf@ =~= spec_write(old(buf)@, start as int, data@.subrange(0, k as int)));
    }
    assert(data@.subrange(0, data.len() as int) =~= data@);
}

/// Puts copies of `pattern`, one after the other, in the `len` places from
/// `start` on.
fn tile_bytes(buf: &mut Vec<u8>, start: usize, len: usize, pattern: &[u8])
    requires
        start + len <= old(buf).len(),
        pattern.len() >= 1,
    ensures
        final(buf)@ == spec_tile(old(buf)@, start as int, len as int, pattern@),
{
    let mut k: usize = 0;
    let mut phase: usize = 0;
    while k < len
        invariant
            k <= len,
            start + len <= buf.len(),
            pattern.len() >= 1,
            phase == k % pattern.len(),
            buf@ == spec_tile(old(buf)@, start as int, k as int, pattern@),
        decreases len - k,
    {
        buf[start + k] = pattern[phase];
        proof {
            let n = pattern.len() as int;
            let q = k as int / n;
            vstd::arithmetic::div_mod::lemma_fundamental_div_mod(k as int, n);
            assert(k as int == n * q + phase as int);
            if phase + 1 == n {
                assert(k + 1 == (q + 1) * n + 0) by (nonlinear_arith)
                    requires
                        k as int == n * q + phase as int,
                        phase + 1 == n,
                ;
                vstd::arithmetic::div_mod::lemma_fundamental_div_mod_converse(
                    k + 1,
                    n,
                    q + 1,
                    0,
                );
            } else {
                assert(k + 1 == q * n + (phase + 1)) by (nonlinear_arith)
                    requires
                        k as int == n * q + phase as int,
                ;
                vstd::arithmetic::div_mod::lemma_fundamental_div_mod_converse(
                    k + 1,
                    n,
                    q,
                    phase + 1,
                );
            }
        }
        k = k + 1;
        phase = if phase + 1 == pattern.len() {
            0
        } else {
            phase + 1
        };
        assert(buf@ =~= spec_tile(old(buf)@, start as int, k as int, pattern@));
    }
    assert(buf@ =~= spec_tile(old(buf)@, start as int, len as int, pattern@));
}

/// Puts `data` at the end of `out`.
pub fn append_bytes(out: &mut Vec<u8>, data: &[u8])
    ensures
        final(out)@ == old(out)@ + data@,
{
    let mut k: usize = 0;
    while k < data.len()
        invariant
            k <= data.len(),
            out@ == old(out)@ + data@.subrange(0, k as int),
        decreases data.len() - k,
    {
        out.push(data[k]);
        k = k + 1;
        assert(out@ =~= old(out)@ + data@.subrange(0, k as int));
    }
    assert(data@.subrange(0, data.len() as int) =~= data@);
}

/// A buffer of `size` zero bytes, or `None` if the memory for it cannot be
/// had. No bytes need no memory: a buffer of size 0 is always made. For any
/// other size the memory is asked for, and `filled` makes the answer.
pub fn zeroed(size: usize) -> (r: Option<Vec<u8>>)
    ensures
        r matches Some(bytes) ==> bytes@ == Seq::new(size as nat, |i: int| 0u8),
        size == 0 ==> r.is_some(),
{
    let mut bytes: Vec<u8> = Vec::new();
    if size == 0 {
        assert(bytes@ =~= Seq::new(0, |i: int| 0u8));
        return Some(bytes);
    }
    let reserved = bytes.try_reserve(size);
    filled(reserved, bytes, size)
}

impl View for Pool {
    type V = Seq<Buffer>;

    closed spec fn view(&self) -> Seq<Buffer> {
        Seq::new(
            self.slots.len() as nat,
            |i: int| Buffer { holders: self.slots[i].holders as nat, bytes: self.slots[i].bytes@ },
        )
    }
}

impl Pool {
    /// A pool without buffers.
    pub fn new() -> (pool: Pool)
        ensures
            pool@.len() == 0,
    {
        Pool { slots: Vec::new() }
    }

    /// The number of buffers that the pool has made, freed ones included.
    pub fn len(&self) -> (r: usize)
        ensures
            r == self@.len(),
    {
        self.slots.len()
    }

    /// Takes `bytes` as a new buffer with one holder, and returns its number.
    pub fn adopt(&mut self, bytes: Vec<u8>) -> (id: usize)
        ensures
            id == old(self)@.len(),
            final(self)@ == old(self)@.push(Buffer { holders: 1, bytes: bytes@ }),
    {
        let id = self.slots.len();
        self.slots.push(Slot { holders: 1, bytes });
        assert(self@ =~= old(self)@.push(Buffer { holders: 1, bytes: bytes@ }));
        id
    }

    /// Makes a buffer of `size` zero bytes with one holder, and returns its
    /// number. Returns `None`, and changes nothing, if the memory for it
    /// cannot be had. A buffer of size 0 is always made.
    pub fn allocate(&mut self, size: usize) -> (r: Option<usize>)
        ensures
            match r {
                Some(id) => id == old(self)@.len() && final(self)@ == old(self)@.push(
                    Buffer { holders: 1, bytes: Seq::new(size as nat, |i: int| 0u8) },
                ),
                None => final(self)@ == old(self)@,
            },
            size == 0 ==> r.is_some(),
    {
        match zeroed(size) {
            Some(bytes) => Some(self.adopt(bytes)),
            None => None,
        }
    }

    /// The number of holders of a buffer: 0 if the pool has no live buffer
    /// of that number.
    pub fn holders(&self, id: usize) -> (r: usize)
        ensures
            r == if id < self@.len() {
                self@[id as int].holders
            } else {
                0
            },
            (r > 0) == spec_live(self@, id as int),
    {
        if id < self.slots.len() {
            self.slots[id].holders
        } else {
            0
        }
    }

    /// The size in bytes of a buffer, if it is live.
    pub fn size(&self, id: usize) -> (r: Option<usize>)
        ensures
            r.is_some() == spec_live(self@, id as int),
            r matches Some(n) ==> n == self@[id as int].bytes.len(),
    {
        if id < self.slots.len() && self.slots[id].holders > 0 {
            Some(self.slots[id].bytes.len())
        } else {
            None
        }
    }

    /// Counts one more holder of a buffer. Returns whether it did: it does
    /// not if the buffer is not live, or if the count is at its limit.
    pub fn acquire(&mut self, id: usize) -> (done: bool)
        ensures
            done == (spec_live(old(self)@, id as int) && old(self)@[id as int].holders
                < usize::MAX),
            final(self)@ == spec_acquire(old(self)@, id as int),
    {
        if id < self.slots.len() && self.slots[id].holders > 0 && self.slots[id].holders
            < usize::MAX {
            self.slots[id].holders = self.slots[id].holders + 1;
            assert(self@ =~= spec_acquire(old(self)@, id as int));
            true
        } else {
            false
        }
    }

    /// Counts one holder less of a buffer, and frees its bytes if that was
    /// the last. Returns whether it did: it does not if the buffer is not
    /// live.
    pub fn release(&mut self, id: usize) -> (done: bool)
        ensures
            done == spec_live(old(self)@, id as int),
            final(self)@ == spec_release(old(self)@, id as int),
    {
        if id < self.slots.len() && self.slots[id].holders > 0 {
            if self.slots[id].holders == 1 {
                self.slots[id].holders = 0;
                self.slots[id].bytes = Vec::new();
            } else {
                self.slots[id].holders = self.slots[id].holders - 1;
            }
            assert(self@ =~= spec_release(old(self)@, id as int));
            true
        } else {
            false
        }
    }

    /// Whether `len` bytes from `start` on lie in a live buffer.
    pub open spec fn spec_holds(pool: Seq<Buffer>, id: int, start: int, len: int) -> bool {
        spec_live(pool, id) && 0 <= start && 0 <= len && start + len <= pool[id].bytes.len()
    }

    /// Whether `len` bytes from `start` on lie in a live buffer.
    pub fn holds(&self, id: usize, start: usize, len: usize) -> (r: bool)
        ensures
            r == Pool::spec_holds(self@, id as int, start as int, len as int),
    {
        id < self.slots.len() && self.slots[id].holders > 0 && start <= self.slots[id].bytes.len()
            && len <= self.slots[id].bytes.len() - start
    }

    /// The `len` bytes from `start` on of a buffer, if they lie in a live
    /// buffer.
    pub fn span(&self, id: usize, start: usize, len: usize) -> (r: Option<&[u8]>)
        ensures
            r.is_some() == Pool::spec_holds(self@, id as int, start as int, len as int),
            r matches Some(bytes) ==> bytes@ == self@[id as int].bytes.subrange(
                start as int,
                start + len,
            ),
    {
        if self.holds(id, start, len) {
            let size = self.slots[id].bytes.len();
            assert(self@[id as int].bytes.len() == size);
            Some(vstd::slice::slice_subrange(self.slots[id].bytes.as_slice(), start, start + len))
        } else {
            None
        }
    }

    /// A copy of the `len` bytes from `start` on of a buffer, if they lie in
    /// a live buffer.
    pub fn read(&self, id: usize, start: usize, len: usize) -> (r: Option<Vec<u8>>)
        ensures
            r.is_some() == Pool::spec_holds(self@, id as int, start as int, len as int),
            r matches Some(bytes) ==> bytes@ == self@[id as int].bytes.subrange(
                start as int,
                start + len,
            ),
    {
        match self.span(id, start, len) {
            Some(bytes) => Some(vstd::slice::slice_to_vec(bytes)),
            None => None,
        }
    }

    /// Sets the `len` bytes from `start` on of a buffer to `value`. Returns
    /// whether it did: it does not, and changes nothing, unless these bytes
    /// lie in a live buffer.
    pub fn fill(&mut self, id: usize, start: usize, len: usize, value: u8) -> (done: bool)
        ensures
            done == Pool::spec_holds(old(self)@, id as int, start as int, len as int),
            done ==> final(self)@ == spec_with_bytes(
                old(self)@,
                id as int,
                spec_fill(old(self)@[id as int].bytes, start as int, len as int, value),
            ),
            !done ==> final(self)@ == old(self)@,
    {
        if self.holds(id, start, len) {
            fill_bytes(&mut self.slots[id].bytes, start, len, value);
            assert(self@ =~= spec_with_bytes(
                old(self)@,
                id as int,
                spec_fill(old(self)@[id as int].bytes, start as int, len as int, value),
            ));
            true
        } else {
            false
        }
    }

    /// Puts `data` in the bytes from `start` on of a buffer. Returns whether
    /// it did: it does not, and changes nothing, unless these bytes lie in
    /// a live buffer.
    pub fn write(&mut self, id: usize, start: usize, data: &[u8]) -> (done: bool)
        ensures
            done == Pool::spec_holds(old(self)@, id as int, start as int, data@.len() as int),
            done ==> final(self)@ == spec_with_bytes(
                old(self)@,
                id as int,
                spec_write(old(self)@[id as int].bytes, start as int, data@),
            ),
            !done ==> final(self)@ == old(self)@,
    {
        if self.holds(id, start, data.len()) {
            write_bytes(&mut self.slots[id].bytes, start, data);
            assert(self@ =~= spec_with_bytes(
                old(self)@,
                id as int,
                spec_write(old(self)@[id as int].bytes, start as int, data@),
            ));
            true
        } else {
            false
        }
    }
    /// Puts copies of `pattern`, one after the other, in the `len` bytes
    /// from `start` on of a buffer. Returns whether it did: it does not, and
    /// changes nothing, unless these bytes lie in a live buffer and the
    /// pattern is not empty.
    pub fn tile(&mut self, id: usize, start: usize, len: usize, pattern: &[u8]) -> (done: bool)
        ensures
            done == (Pool::spec_holds(old(self)@, id as int, start as int, len as int)
                && pattern@.len() >= 1),
            done ==> final(self)@ == spec_with_bytes(
                old(self)@,
                id as int,
                spec_tile(old(self)@[id as int].bytes, start as int, len as int, pattern@),
            ),
            !done ==> final(self)@ == old(self)@,
    {
        if pattern.len() >= 1 && self.holds(id, start, len) {
            tile_bytes(&mut self.slots[id].bytes, start, len, pattern);
            assert(self@ =~= spec_with_bytes(
                old(self)@,
                id as int,
                spec_tile(old(self)@[id as int].bytes, start as int, len as int, pattern@),
            ));
            true
        } else {
            false
        }
    }
}

/// What is made of the answer to a request for memory for `size` bytes:
/// `size` zero bytes, in `bytes`, if the memory was had, and nothing if it
/// was not. What `bytes` held before does not matter.
pub fn filled(reserved: Result<(), TryReserveError>, bytes: Vec<u8>, size: usize) -> (r: Option<
    Vec<u8>,
>)
    ensures
        r.is_some() == reserved.is_ok(),
        r matches Some(zeros) ==> zeros@ == Seq::new(size as nat, |i: int| 0u8),
{
    match reserved {
        Ok(()) => {
            let mut zeros = bytes;
            zeros.clear();
            zeros.resize(size, 0u8);
            assert(zeros@ =~= Seq::new(size as nat, |i: int| 0u8));
            Some(zeros)
        },
        Err(_) => None,
    }
}

} // verus!
