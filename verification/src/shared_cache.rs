//! The block buffer cache the file system shares: blocks read from the device once
//! are served from memory.

use vstd::prelude::*;
use crate::sched::{RpcError, RpcResult};

verus! {

/// Bytes of a file system block.
pub const BSIZE: usize = 4096;
/// Bytes of a device sector.
pub const SECTOR_SIZE: usize = 512;
/// Sectors per block.
pub const SECTORS_PER_BLOCK: u32 = 8;

/// A device that reads sectors.
pub trait BDev {
    /// Whether the device keeps `reads`, the log of the sectors it was asked for. A
    /// device that does not say keeps none.
    open spec fn records_reads() -> bool {
        false
    }

    /// The sectors the device was asked to read, oldest first.
    open spec fn reads(&self) -> Seq<u32> {
        Seq::empty()
    }

    /// What the device answered to the reads it was asked for, oldest first, as kept
    /// by a device that keeps `reads`. A device that does not say keeps none.
    open spec fn answers(&self) -> Seq<RpcResult<Seq<u8>>> {
        Seq::empty()
    }

    /// Reads the block that starts at `sector`; a device that keeps the log of its
    /// requests adds `sector` to it, and its answer to `answers`.
    fn read(&mut self, sector: u32) -> (r: RpcResult<Vec<u8>>)
        ensures
            Self::records_reads() ==> final(self).reads() == old(self).reads().push(sector),
            Self::records_reads() ==> final(self).answers() == old(self).answers().push(
                answer_bytes(r),
            ),
    ;
}

/// A device's answer to a read, with the bytes as a sequence.
pub open spec fn answer_bytes(r: RpcResult<Vec<u8>>) -> RpcResult<Seq<u8>> {
    match r {
        Ok(v) => Ok(v@),
        Err(e) => Err(e),
    }
}

/// One cached block: where it comes from and, once read, its bytes.
pub struct BufferEntry {
    pub device: u32,
    pub block_number: u32,
    pub data: Option<Vec<u8>>,
}

/// The key of entry `i`.
pub open spec fn entry_key(entries: Seq<BufferEntry>, i: int) -> (u32, u32) {
    (entries[i].device, entries[i].block_number)
}

/// Entry `i` is the one for block `block` of `device`.
pub open spec fn entry_is(entries: Seq<BufferEntry>, i: int, device: u32, block: u32) -> bool {
    0 <= i < entries.len() && entry_key(entries, i) == (device, block)
}

/// The bytes an entry holds, if it was read.
pub open spec fn entry_bytes(e: BufferEntry) -> Option<Seq<u8>> {
    match e.data {
        Some(v) => Some(v@),
        None => None,
    }
}

/// The first sector of block `block`.
pub open spec fn block_sector(block: u32) -> u32 {
    (block * SECTORS_PER_BLOCK) as u32
}

/// `post`, the slot bytes `after` and the answer `r` are what a read of block `block`
/// of `device` into a slot holding `before` can leave of the cache `pre`: a block the
/// cache holds is served from it, unchanged; a successful read leaves the block cached
/// with the bytes handed out; a failed one leaves the slot as it was, and the cache as
/// it was but for the empty entry the block was given if it had none.
pub open spec fn read_result(
    pre: BufferCacheInternal,
    post: BufferCacheInternal,
    device: u32,
    block: u32,
    before: Seq<u8>,
    after: Seq<u8>,
    r: RpcResult<()>,
) -> bool {
    &&& pre.cached(device, block) matches Some(Some(bytes)) ==> {
        &&& r == Ok::<(), RpcError>(())
        &&& after == bytes
        &&& post.entries() == pre.entries()
    }
    &&& r is Ok ==> post.cached(device, block) == Some(Some(after))
    &&& r is Err ==> after == before && post.entries() == (if pre.cached(device, block) is Some {
        pre.entries()
    } else {
        pre.entries().push(BufferEntry { device, block_number: block, data: None })
    })
}

/// A block read once is served from the cache afterwards: a second read of it
/// succeeds, hands out the same bytes and leaves the cache as it was.
pub proof fn law_read_twice(
    c0: BufferCacheInternal,
    c1: BufferCacheInternal,
    c2: BufferCacheInternal,
    device: u32,
    block: u32,
    s0: Seq<u8>,
    s1: Seq<u8>,
    s2: Seq<u8>,
    r2: RpcResult<()>,
)
    requires
        read_result(c0, c1, device, block, s0, s1, Ok(())),
        read_result(c1, c2, device, block, s1, s2, r2),
    ensures
        r2 == Ok::<(), RpcError>(()),
        s2 == s1,
        c2.entries() == c1.entries(),
{
}

/// What a read that missed the cache leaves, given the device's log of answers before
/// (`answers_before`) and after (`answers_after`) it: the device answered once more,
/// and a block it handed over is the block cached and the bytes put in the slot, while
/// an error it answered is the read's answer and leaves the slot as it was.
pub open spec fn served_from_device(
    post: BufferCacheInternal,
    device: u32,
    block: u32,
    answers_before: Seq<RpcResult<Seq<u8>>>,
    answers_after: Seq<RpcResult<Seq<u8>>>,
    before: Seq<u8>,
    after: Seq<u8>,
    r: RpcResult<()>,
) -> bool {
    &&& answers_after.len() == answers_before.len() + 1
    &&& answers_after.drop_last() == answers_before
    &&& match answers_after.last() {
        Ok(bytes) => {
            &&& r == Ok::<(), RpcError>(())
            &&& after == bytes
            &&& post.cached(device, block) == Some(Some(bytes))
        },
        Err(e) => {
            &&& r == Err::<(), RpcError>(e)
            &&& after == before
        },
    }
}

/// A block read from the device is handed out whole: the bytes a miss puts in the slot
/// are exactly the bytes the device answered, and a later read of the block hands out
/// those same bytes again.
pub proof fn law_device_bytes_handed_out(
    c1: BufferCacheInternal,
    c2: BufferCacheInternal,
    device: u32,
    block: u32,
    answers_before: Seq<RpcResult<Seq<u8>>>,
    answers_after: Seq<RpcResult<Seq<u8>>>,
    s0: Seq<u8>,
    s1: Seq<u8>,
    s2: Seq<u8>,
    r1: RpcResult<()>,
    r2: RpcResult<()>,
    bytes: Seq<u8>,
)
    requires
        served_from_device(c1, device, block, answers_before, answers_after, s0, s1, r1),
        answers_after.last() == Ok::<Seq<u8>, RpcError>(bytes),
        read_result(c1, c2, device, block, s1, s2, r2),
    ensures
        r1 == Ok::<(), RpcError>(()),
        s1 == bytes,
        s1.len() == bytes.len(),
        r2 == Ok::<(), RpcError>(()),
        s2 == bytes,
{
}

/// The cache proper: one entry per block asked for.
pub struct BufferCacheInternal {
    entries: Vec<BufferEntry>,
}

impl BufferCacheInternal {
    /// The entries, in the order the blocks were first asked for.
    pub closed spec fn entries(&self) -> Seq<BufferEntry> {
        self.entries@
    }

    /// No block has two entries.
    pub open spec fn wf(&self) -> bool {
        forall|i: int, j: int|
            0 <= i < j < self.entries().len() ==> entry_key(self.entries(), i) != entry_key(
                self.entries(),
                j,
            )
    }

    /// The bytes cached for block `block` of `device`: `None` when the block was never
    /// asked for, `Some(None)` when it was but not read yet.
    pub open spec fn cached(&self, device: u32, block: u32) -> Option<Option<Seq<u8>>> {
        if exists|i: int| entry_is(self.entries(), i, device, block) {
            Some(
                entry_bytes(self.entries()[choose|i: int| entry_is(self.entries(), i, device, block)]),
            )
        } else {
            None
        }
    }

    /// A cache with no entry.
    pub fn new() -> (r: BufferCacheInternal)
        ensures
            r.wf(),
            r.entries() == Seq::<BufferEntry>::empty(),
    {
        BufferCacheInternal { entries: Vec::new() }
    }

    /// The entry of block `block` of `device`, made empty if there is none yet, and
    /// whether it holds the block's bytes.
    pub fn get(&mut self, device: u32, block: u32) -> (r: (bool, usize))
        requires
            old(self).wf(),
        ensures
            final(self).wf(),
            entry_is(final(self).entries(), r.1 as int, device, block),
            r.0 == final(self).entries()[r.1 as int].data is Some,
            old(self).cached(device, block) is Some ==> final(self).entries() == old(self).entries(),
            old(self).cached(device, block) is None ==> final(self).entries() == old(self).entries().push(BufferEntry { device, block_number: block, data: None }),
    {
        let mut i: usize = 0;
        while i < self.entries.len()
            invariant
                self.wf(),
                self.entries() == old(self).entries(),
                i <= self.entries().len(),
                forall|j: int| 0 <= j < i ==> !#[trigger] entry_is(self.entries(), j, device, block),
            decreases self.entries().len() - i,
        {
            if self.entries[i].device == device && self.entries[i].block_number == block {
                assert(entry_is(self.entries(), i as int, device, block));
                let valid = self.entries[i].data.is_some();
                return (valid, i);
            }
            i = i + 1;
        }
        assert(!exists|j: int| entry_is(old(self).entries(), j, device, block));
        self.entries.push(BufferEntry { device, block_number: block, data: None });
        assert forall|a: int, b: int|
            0 <= a < b < self.entries().len() implies entry_key(self.entries(), a) != entry_key(
            self.entries(),
            b,
        ) by {
            if b == i {
                assert(!entry_is(old(self).entries(), a, device, block));
            } else {
                assert(entry_key(self.entries(), a) == entry_key(old(self).entries(), a));
                assert(entry_key(self.entries(), b) == entry_key(old(self).entries(), b));
            }
        }
        assert(entry_is(self.entries(), i as int, device, block));
        (false, i)
    }

    /// Stores `data` as the bytes of entry `index`.
    pub fn fill(&mut self, index: usize, data: Vec<u8>)
        requires
            old(self).wf(),
            index < old(self).entries().len(),
        ensures
            final(self).wf(),
            final(self).entries().len() == old(self).entries().len(),
            forall|j: int|
                0 <= j < old(self).entries().len() ==> #[trigger] entry_key(final(self).entries(), j)
                    == entry_key(old(self).entries(), j),
            forall|j: int|
                0 <= j < old(self).entries().len() && j != index ==> #[trigger] final(self).entries()[j] == old(self).entries()[j],
            entry_bytes(final(self).entries()[index as int]) == Some(data@),
    {
        let device = self.entries[index].device;
        let block_number = self.entries[index].block_number;
        self.entries.set(index, BufferEntry { device, block_number, data: Some(data) });
        assert forall|i: int, j: int|
            0 <= i < j < self.entries().len() implies entry_key(self.entries(), i) != entry_key(
            self.entries(),
            j,
        ) by {
            assert(entry_key(self.entries(), i) == entry_key(old(self).entries(), i));
            assert(entry_key(self.entries(), j) == entry_key(old(self).entries(), j));
        }
    }

    /// A copy of the bytes of entry `index`, which holds them.
    pub fn copy_out(&self, index: usize) -> (r: Vec<u8>)
        requires
            index < self.entries().len(),
            self.entries()[index as int].data is Some,
        ensures
            Some(r@) == entry_bytes(self.entries()[index as int]),
    {
        let v = self.entries[index].data.as_ref().unwrap();
        let r = v.clone();
        assert(r@ =~= v@);
        r
    }
}

/// The buffer cache over a device.
pub struct BufferCache<D: BDev> {
    internal: BufferCacheInternal,
    bdev: D,
}

impl<D: BDev> BufferCache<D> {
    /// The cache proper.
    pub closed spec fn cache(&self) -> BufferCacheInternal {
        self.internal
    }

    /// The device the cache reads from.
    pub closed spec fn device(&self) -> D {
        self.bdev
    }

    /// The cache is well formed.
    pub open spec fn wf(&self) -> bool {
        self.cache().wf()
    }

    /// An empty cache over `bdev`.
    pub fn new(bdev: D) -> (r: Self)
        ensures
            r.wf(),
            r.cache().entries() == Seq::<BufferEntry>::empty(),
            r.device() == bdev,
    {
        Self { internal: BufferCacheInternal::new(), bdev }
    }

    /// Reads block `block_number` of `device` into `buffer_slot`: from the cache when it
    /// holds the block, from the device otherwise, caching what the device gave. A
    /// failed device read is answered with the device's error and leaves the slot as it
    /// was. A block the cache holds is served without asking the device; otherwise the
    /// device is asked once, for the first sector of the block.
    pub fn read(&mut self, device: u32, block_number: u32, buffer_slot: &mut Vec<u8>) -> (r:
        RpcResult<()>)
        requires
            old(self).wf(),
            !(old(self).cache().cached(device, block_number) matches Some(Some(_)))
                ==> block_number * SECTORS_PER_BLOCK <= u32::MAX,
        ensures
            final(self).wf(),
            read_result(
                old(self).cache(),
                final(self).cache(),
                device,
                block_number,
                old(buffer_slot)@,
                final(buffer_slot)@,
                r,
            ),
            old(self).cache().cached(device, block_number) matches Some(Some(_)) ==> final(self).device() == old(self).device(),
            !(old(self).cache().cached(device, block_number) matches Some(Some(_))) && D::records_reads()
                ==> final(self).device().reads() == old(self).device().reads().push(
                block_sector(block_number),
            ),
            !(old(self).cache().cached(device, block_number) matches Some(Some(_))) && D::records_reads()
                ==> served_from_device(
                final(self).cache(),
                device,
                block_number,
                old(self).device().answers(),
                final(self).device().answers(),
                old(buffer_slot)@,
                final(buffer_slot)@,
                r,
            ),
    {
        let (valid, index) = self.internal.get(device, block_number);
        if !valid {
            proof {
                if old(self).cache().cached(device, block_number) is Some {
                    let c = choose|i: int| entry_is(old(self).cache().entries(), i, device, block_number);
                    assert(c == index);
                }
                assert(!(old(self).cache().cached(device, block_number) matches Some(Some(_))));
            }
            let ghost answers0 = self.bdev.answers();
            let sector = block_number * SECTORS_PER_BLOCK;
            let fetched = self.bdev.read(sector);
            let r = self.fill_from_device(index, fetched, buffer_slot);
            proof {
                if D::records_reads() {
                    assert(self.device().answers().drop_last() =~= answers0);
                }
                if old(self).cache().cached(device, block_number) is Some {
                    let c = choose|i: int| entry_is(old(self).cache().entries(), i, device, block_number);
                    assert(c == index);
                }
                if r is Ok {
                    assert(entry_key(self.cache().entries(), index as int) == (device, block_number));
                    assert(entry_is(self.cache().entries(), index as int, device, block_number));
                    let c = choose|i: int| entry_is(self.cache().entries(), i, device, block_number);
                    assert(entry_key(self.cache().entries(), c) == (device, block_number));
                    assert(c == index);
                }
            }
            return r;
        }
        proof {
            if old(self).cache().cached(device, block_number) is Some {
                let c = choose|i: int| entry_is(old(self).cache().entries(), i, device, block_number);
                assert(c == index);
            } else {
                assert(index == old(self).cache().entries().len()) by {
                    if index < old(self).cache().entries().len() {
                        assert(entry_is(old(self).cache().entries(), index as int, device, block_number));
                    }
                }
            }
            assert(old(self).cache().cached(device, block_number) matches Some(Some(_)));
        }
        *buffer_slot = self.internal.copy_out(index);
        proof {
            assert(entry_is(self.cache().entries(), index as int, device, block_number));
            let c = choose|i: int| entry_is(self.cache().entries(), i, device, block_number);
            assert(entry_key(self.cache().entries(), c) == (device, block_number));
            assert(c == index);
        }
        Ok(())
    }

    /// Finishes a read of entry `index` with what the device answered: its bytes are
    /// cached and copied to `buffer_slot`, or its error is answered.
    pub fn fill_from_device(
        &mut self,
        index: usize,
        fetched: RpcResult<Vec<u8>>,
        buffer_slot: &mut Vec<u8>,
    ) -> (r: RpcResult<()>)
        requires
            old(self).wf(),
            index < old(self).cache().entries().len(),
        ensures
            final(self).wf(),
            final(self).device() == old(self).device(),
            match fetched {
                Ok(bytes) => {
                    &&& r == Ok::<(), RpcError>(())
                    &&& final(buffer_slot)@ == bytes@
                    &&& entry_bytes(final(self).cache().entries()[index as int]) == Some(bytes@)
                    &&& final(self).cache().entries().len() == old(self).cache().entries().len()
                    &&& forall|j: int|
                        0 <= j < old(self).cache().entries().len() ==> #[trigger] entry_key(
                            final(self).cache().entries(),
                            j,
                        ) == entry_key(old(self).cache().entries(), j)
                    &&& forall|j: int|
                        0 <= j < old(self).cache().entries().len() && j != index
                            ==> #[trigger] final(self).cache().entries()[j] == old(self).cache().entries()[j]
                },
                Err(e) => {
                    &&& r == Err::<(), RpcError>(e)
                    &&& final(buffer_slot)@ == old(buffer_slot)@
                    &&& final(self).cache() == old(self).cache()
                },
            },
    {
        match fetched {
            Ok(bytes) => {
                self.internal.fill(index, bytes);
                *buffer_slot = self.internal.copy_out(index);
                Ok(())
            },
            Err(e) => Err(e),
        }
    }

    /// Writes `buffer_slot` as block `block_number` of `device`: accepted, and nothing
    /// is changed yet.
    pub fn write(&mut self, device: u32, block_number: u32, buffer_slot: Vec<u8>) -> (r: RpcResult<
        ()>)
        ensures
            r == Ok::<(), RpcError>(()),
            final(self).cache() == old(self).cache(),
    {
        Ok(())
    }
}

} // verus!
