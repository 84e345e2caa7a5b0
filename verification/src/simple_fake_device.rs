//! The in-memory reference backend: all blocks live in a process-local
//! sequence, index = LBA. It anchors the semantics of read-after-write and
//! serves as the oracle for the ring-backed backend. Snapshot persistence
//! goes through a byte encoding that is its own exact inverse.

use crate::data_type::{blocks_view, unmap_block, unmap_seq, DataBlock, BLOCK_SIZE};
use crate::device_error::DeviceError;
use crate::device_info::{range_ok, DeviceInfo};
use vstd::arithmetic::div_mod::{
    lemma_div_multiples_vanish, lemma_fundamental_div_mod, lemma_mod_multiples_basic,
};
use vstd::prelude::*;

verus! {

/// The block contents after writing `buf` at `lba`: positions in
/// `[lba, lba + buf.len())` take the buffer's blocks in order, every other
/// position keeps its previous contents.
pub open spec fn write_blocks(pre: Seq<Seq<u8>>, lba: int, buf: Seq<Seq<u8>>) -> Seq<Seq<u8>> {
    Seq::new(
        pre.len(),
        |i: int| if lba <= i < lba + buf.len() { buf[i - lba] } else { pre[i] },
    )
}

/// The `n` blocks encoded in `bytes`: block `i` is the `BLOCK_SIZE` bytes at
/// byte offset `i * BLOCK_SIZE`.
pub open spec fn chunks_of(bytes: Seq<u8>, n: nat) -> Seq<Seq<u8>> {
    Seq::new(
        n,
        |i: int| bytes.subrange(i * (BLOCK_SIZE as int), (i + 1) * (BLOCK_SIZE as int)),
    )
}

/// Every block holds exactly `BLOCK_SIZE` bytes.
pub open spec fn uniform_blocks(blocks: Seq<Seq<u8>>) -> bool {
    forall|i: int| 0 <= i < blocks.len() ==> (#[trigger] blocks[i]).len() == BLOCK_SIZE
}

/// The snapshot of `n` blocks is exactly `n * BLOCK_SIZE` bytes long.
pub proof fn lemma_flatten_len_uniform(blocks: Seq<Seq<u8>>)
    requires
        uniform_blocks(blocks),
    ensures
        blocks.flatten().len() == blocks.len() * (BLOCK_SIZE as int),
    decreases blocks.len(),
{
    if blocks.len() == 0 {
    } else {
        assert(blocks.flatten() == blocks.first() + blocks.drop_first().flatten());
        assert(uniform_blocks(blocks.drop_first()));
        lemma_flatten_len_uniform(blocks.drop_first());
    }
}

/// Law: decoding a snapshot recovers exactly the blocks that were encoded,
/// in order — persisting and then restoring round-trips the whole block
/// sequence, block equality included.
pub proof fn lemma_snapshot_round_trip(blocks: Seq<Seq<u8>>)
    requires
        uniform_blocks(blocks),
    ensures
        chunks_of(blocks.flatten(), blocks.len()) == blocks,
    decreases blocks.len(),
{
    let b = BLOCK_SIZE as int;
    let n = blocks.len() as int;
    let flat = blocks.flatten();
    lemma_flatten_len_uniform(blocks);
    if blocks.len() == 0 {
        assert(chunks_of(flat, blocks.len()) =~= blocks);
    } else {
        let pre = blocks.drop_last();
        let last = blocks.last();
        assert(uniform_blocks(pre));
        lemma_snapshot_round_trip(pre);
        lemma_flatten_len_uniform(pre);
        assert(blocks =~= pre.push(last));
        pre.lemma_flatten_push(last);
        assert(flat == pre.flatten() + last);
        assert forall|i: int| 0 <= i < n implies chunks_of(flat, blocks.len())[i]
            == blocks[i] by {
            if i < n - 1 {
                assert(flat.subrange(i * b, (i + 1) * b) =~= pre.flatten().subrange(
                    i * b,
                    (i + 1) * b,
                ));
                assert(chunks_of(pre.flatten(), pre.len())[i] == pre[i]);
            } else {
                assert(flat.subrange(i * b, (i + 1) * b) =~= last);
            }
        }
        assert(chunks_of(flat, blocks.len()) =~= blocks);
    }
}

/// Law: reading back the blocks just written returns exactly the written
/// buffer, byte for byte.
pub proof fn lemma_read_after_write(pre: Seq<Seq<u8>>, lba: int, buf: Seq<Seq<u8>>)
    requires
        0 <= lba,
        lba + buf.len() <= pre.len(),
    ensures
        write_blocks(pre, lba, buf).subrange(lba, lba + buf.len() as int) == buf,
{
    assert(write_blocks(pre, lba, buf).subrange(lba, lba + buf.len() as int) =~= buf);
}

/// Law: a block never written still reads as the unmap pattern — a write
/// leaves every block outside its range unchanged, so a block that was unmap
/// (as every block is at construction) stays unmap.
pub proof fn lemma_unwritten_block_default(pre: Seq<Seq<u8>>, lba: int, buf: Seq<Seq<u8>>, j: int)
    requires
        0 <= lba,
        lba + buf.len() <= pre.len(),
        0 <= j < pre.len(),
        !(lba <= j < lba + buf.len()),
        pre[j] == unmap_seq(),
    ensures
        write_blocks(pre, lba, buf)[j] == unmap_seq(),
{
}

/// The block payload of an in-memory device: one block per LBA.
#[derive(Clone, Debug)]
pub struct Data(pub Vec<DataBlock>);

impl Data {
    /// Builds `size` blocks, each initialized to the unmap pattern.
    pub fn new(size: usize) -> (r: Data)
        ensures
            r.0@.len() == size,
            forall|i: int| 0 <= i < size ==> (#[trigger] r.0@[i])@ == unmap_seq(),
    {
        let mut items: Vec<DataBlock> = Vec::new();
        let mut i: usize = 0;
        while i < size
            invariant
                i <= size,
                items@.len() == i,
                forall|j: int| 0 <= j < i ==> (#[trigger] items@[j])@ == unmap_seq(),
            decreases size - i,
        {
            items.push(unmap_block());
            i = i + 1;
        }
        Data(items)
    }
}

/// The in-memory backend: a device descriptor plus one block per LBA.
#[derive(Debug)]
pub struct SimpleFakeDevice {
    device_info: DeviceInfo,
    data: Data,
}

impl SimpleFakeDevice {
    /// The device descriptor.
    pub closed spec fn spec_info(&self) -> DeviceInfo {
        self.device_info
    }

    /// The device's block contents, index = LBA.
    pub closed spec fn blocks(&self) -> Seq<Seq<u8>> {
        blocks_view(self.data.0@)
    }

    /// The device holds exactly one `BLOCK_SIZE` block per LBA of its
    /// well-formed descriptor.
    pub open spec fn wf(&self) -> bool {
        &&& self.spec_info().wf()
        &&& self.blocks().len() == self.spec_info().spec_num_blocks()
        &&& uniform_blocks(self.blocks())
    }

    /// Creates a device named `name` with `size` bytes of capacity, every
    /// block initialized to the unmap pattern. Rejects with `ConfigError` a
    /// size that is zero, not a multiple of `BLOCK_SIZE`, or of more blocks
    /// than this machine can index.
    pub fn new(name: String, size: u64) -> (r: Result<SimpleFakeDevice, DeviceError>)
        ensures
            (r is Ok) <==> (size > 0 && size % (BLOCK_SIZE as u64) == 0 && size / (BLOCK_SIZE
                as u64) <= usize::MAX as u64),
            match r {
                Ok(dev) => {
                    &&& dev.wf()
                    &&& dev.spec_info().spec_name() == name@
                    &&& dev.spec_info().spec_total_size() == size
                    &&& dev.spec_info().spec_num_blocks() == size / (BLOCK_SIZE as u64)
                    &&& forall|i: int|
                        0 <= i < dev.blocks().len() ==> (#[trigger] dev.blocks()[i]) == unmap_seq()
                },
                Err(e) => e == DeviceError::ConfigError,
            },
    {
        let device_info = match DeviceInfo::new(name, size) {
            Ok(info) => info,
            Err(e) => {
                return Err(e);
            },
        };
        let num_blocks = device_info.num_blocks();
        if num_blocks > usize::MAX as u64 {
            return Err(DeviceError::ConfigError);
        }
        let data = Data::new(num_blocks as usize);
        let dev = SimpleFakeDevice { device_info, data };
        proof {
            assert forall|i: int| 0 <= i < dev.blocks().len() implies (#[trigger] dev.blocks()[i])
                == unmap_seq() by {
                assert(dev.blocks()[i] == dev.data.0@[i]@);
            }
        }
        Ok(dev)
    }

    /// A request for `num_blocks` blocks at `lba` fits this device: the count
    /// is nonzero and the range ends inside the capacity.
    pub fn is_valid_range(&self, lba: u64, num_blocks: u64) -> (r: bool)
        ensures
            r == range_ok(self.spec_info().spec_num_blocks(), lba, num_blocks),
    {
        let total = self.device_info.num_blocks();
        num_blocks != 0 && lba <= total && num_blocks <= total - lba
    }

    /// The device descriptor; no side effects, never fails.
    pub fn info(&self) -> (r: &DeviceInfo)
        ensures
            r == self.spec_info(),
    {
        &self.device_info
    }

    /// Writes `buffer[i]` to block `lba + i` for `i` in `[0, num_blocks)`.
    /// Rejects a buffer of any other length than `num_blocks` with
    /// `BufferSizeMismatch`, regardless of range validity, and otherwise a
    /// bad range with `InvalidRange`; a rejected request changes nothing.
    #[verifier::loop_isolation(false)]
    pub fn write(&mut self, lba: u64, num_blocks: u64, buffer: Vec<DataBlock>) -> (r: Result<
        (),
        DeviceError,
    >)
        requires
            old(self).wf(),
        ensures
            final(self).wf(),
            final(self).spec_info() == old(self).spec_info(),
            (r is Ok) <==> (range_ok(old(self).spec_info().spec_num_blocks(), lba, num_blocks)
                && buffer@.len() == num_blocks),
            match r {
                Ok(()) => final(self).blocks() == write_blocks(
                    old(self).blocks(),
                    lba as int,
                    blocks_view(buffer@),
                ),
                Err(e) => {
                    &&& final(self).blocks() == old(self).blocks()
                    &&& (e == DeviceError::BufferSizeMismatch <==> buffer@.len() != num_blocks)
                    &&& (e == DeviceError::InvalidRange <==> (buffer@.len() == num_blocks
                        && !range_ok(old(self).spec_info().spec_num_blocks(), lba, num_blocks)))
                },
            },
    {
        if buffer.len() as u64 != num_blocks {
            return Err(DeviceError::BufferSizeMismatch);
        }
        if !self.is_valid_range(lba, num_blocks) {
            return Err(DeviceError::InvalidRange);
        }
        let ghost pre = self.blocks();
        let mut i: u64 = 0;
        while i < num_blocks
            invariant
                i <= num_blocks,
                self.device_info == old(self).device_info,
                self.data.0@.len() == old(self).data.0@.len(),
                forall|j: int|
                    lba <= j < lba + i ==> (#[trigger] self.data.0@[j]) == buffer@[j - lba],
                forall|j: int|
                    0 <= j < self.data.0@.len() && !(lba <= j < lba + i) ==> (
                    #[trigger] self.data.0@[j]) == old(self).data.0@[j],
            decreases num_blocks - i,
        {
            proof {
                assert(self.data.0.len() == self.data.0@.len());
                assert(lba + i < self.data.0@.len());
            }
            let idx = (lba + i) as usize;
            let block = buffer[i as usize];
            self.data.0.set(idx, block);
            i = i + 1;
        }
        proof {
            assert(self.blocks() =~= write_blocks(pre, lba as int, blocks_view(buffer@)));
        }
        Ok(())
    }

    /// Returns exactly `num_blocks` blocks starting at `lba`, in order;
    /// rejects a bad range with `InvalidRange`. Never changes the device.
    #[verifier::loop_isolation(false)]
    pub fn read(&mut self, lba: u64, num_blocks: u64) -> (r: Result<Vec<DataBlock>, DeviceError>)
        requires
            old(self).wf(),
        ensures
            *final(self) == *old(self),
            (r is Ok) <==> range_ok(old(self).spec_info().spec_num_blocks(), lba, num_blocks),
            match r {
                Ok(v) => blocks_view(v@) == old(self).blocks().subrange(
                    lba as int,
                    lba + num_blocks,
                ),
                Err(e) => e == DeviceError::InvalidRange,
            },
    {
        if !self.is_valid_range(lba, num_blocks) {
            return Err(DeviceError::InvalidRange);
        }
        let mut read_data: Vec<DataBlock> = Vec::new();
        let mut i: u64 = 0;
        while i < num_blocks
            invariant
                i <= num_blocks,
                read_data@.len() == i,
                forall|j: int|
                    0 <= j < i ==> (#[trigger] read_data@[j]) == self.data.0@[lba + j],
            decreases num_blocks - i,
        {
            proof {
                assert(self.data.0.len() == self.data.0@.len());
                assert(lba + i < self.data.0@.len());
            }
            let current = (lba + i) as usize;
            let block = self.data.0[current];
            read_data.push(block);
            i = i + 1;
        }
        proof {
            assert(blocks_view(read_data@) =~= self.blocks().subrange(
                lba as int,
                lba + num_blocks,
            ));
        }
        Ok(read_data)
    }

    /// The serialized snapshot that a flush persists: block `i`'s bytes at
    /// byte offset `i * BLOCK_SIZE`. The exact inverse of
    /// `load_from_snapshot`.
    #[verifier::loop_isolation(false)]
    pub fn flush_to_bytes(&self) -> (r: Vec<u8>)
        requires
            self.wf(),
        ensures
            r@ == self.blocks().flatten(),
            r@.len() == self.blocks().len() * (BLOCK_SIZE as int),
    {
        let mut bytes: Vec<u8> = Vec::new();
        let n = self.data.0.len();
        let mut i: usize = 0;
        while i < n
            invariant
                i <= n,
                bytes@ == self.blocks().take(i as int).flatten(),
            decreases n - i,
        {
            let block = self.data.0[i];
            let mut j: usize = 0;
            while j < BLOCK_SIZE
                invariant
                    j <= BLOCK_SIZE,
                    bytes@ == self.blocks().take(i as int).flatten() + block@.take(j as int),
                decreases BLOCK_SIZE - j,
            {
                bytes.push(block.0[j]);
                proof {
                    assert(bytes@ =~= self.blocks().take(i as int).flatten() + block@.take(
                        j as int + 1,
                    ));
                }
                j = j + 1;
            }
            proof {
                assert(block@ == self.blocks()[i as int]);
                assert(block@.take(BLOCK_SIZE as int) =~= self.blocks()[i as int]);
                self.blocks().take(i as int).lemma_flatten_push(self.blocks()[i as int]);
                assert(self.blocks().take(i as int).push(self.blocks()[i as int]) =~= self.blocks()
                    .take(i as int + 1));
            }
            i = i + 1;
        }
        proof {
            assert(self.blocks().take(n as int) =~= self.blocks());
            lemma_flatten_len_uniform(self.blocks());
        }
        bytes
    }

    /// Replaces the whole block sequence with the one encoded in `snapshot`,
    /// the exact inverse of `flush_to_bytes`. `None` means no durable store
    /// exists yet: the device reports `NotFound`; a snapshot of any other
    /// length than the device capacity is reported as `MediumError(-1)`. In
    /// both failure cases the in-memory state is left completely untouched.
    #[verifier::loop_isolation(false)]
    pub fn load_from_snapshot(&mut self, snapshot: Option<&Vec<u8>>) -> (r: Result<
        (),
        DeviceError,
    >)
        requires
            old(self).wf(),
        ensures
            final(self).wf(),
            final(self).spec_info() == old(self).spec_info(),
            (r is Ok) <==> (snapshot matches Some(bytes) && bytes@.len() == old(self).blocks().len()
                * (BLOCK_SIZE as int)),
            r is Ok ==> (snapshot matches Some(bytes) && final(self).blocks() == chunks_of(
                bytes@,
                old(self).blocks().len(),
            )),
            r is Err ==> final(self).blocks() == old(self).blocks(),
            (r == Err::<(), DeviceError>(DeviceError::NotFound)) <==> snapshot is None,
            (snapshot matches Some(bytes) && bytes@.len() != old(self).blocks().len() * (BLOCK_SIZE
                as int)) <==> r == Err::<(), DeviceError>(DeviceError::MediumError(-1i32)),
    {
        let bytes = match snapshot {
            Some(b) => b,
            None => {
                return Err(DeviceError::NotFound);
            },
        };
        let n = self.data.0.len();
        if bytes.len() / BLOCK_SIZE != n || bytes.len() % BLOCK_SIZE != 0 {
            proof {
                if bytes@.len() == n * (BLOCK_SIZE as int) {
                    lemma_div_multiples_vanish(n as int, BLOCK_SIZE as int);
                    lemma_mod_multiples_basic(n as int, BLOCK_SIZE as int);
                }
            }
            return Err(DeviceError::MediumError(-1i32));
        }
        proof {
            lemma_fundamental_div_mod(bytes@.len() as int, BLOCK_SIZE as int);
        }
        let ghost target = chunks_of(bytes@, n as nat);
        let mut i: usize = 0;
        while i < n
            invariant
                i <= n,
                self.device_info == old(self).device_info,
                self.data.0@.len() == n,
                bytes@.len() == n * (BLOCK_SIZE as int),
                forall|k: int| 0 <= k < i ==> (#[trigger] self.data.0@[k])@ == target[k],
            decreases n - i,
        {
            let mut arr = [0u8; BLOCK_SIZE];
            let base = i * BLOCK_SIZE;
            let mut j: usize = 0;
            while j < BLOCK_SIZE
                invariant
                    j <= BLOCK_SIZE,
                    forall|k: int|
                        0 <= k < j ==> (#[trigger] arr@[k]) == bytes@[i * (BLOCK_SIZE as int) + k],
                decreases BLOCK_SIZE - j,
            {
                let byte = bytes[base + j];
                arr[j] = byte;
                j = j + 1;
            }
            proof {
                assert(arr@ =~= target[i as int]);
            }
            self.data.0.set(i, DataBlock(arr));
            i = i + 1;
        }
        proof {
            assert(self.blocks() =~= target);
        }
        Ok(())
    }
}

} // verus!
