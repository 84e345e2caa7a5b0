//! The verified core of the ring-backed backend. The backing file is the sole
//! state of that backend: each request is validated here, turned into the
//! exact byte range it must cover, and its completion code mapped back to a
//! result. Submitting to the kernel ring itself is I/O and lives outside the
//! library, against the contracts stated here.

use crate::data_type::BLOCK_SIZE;
use crate::device_error::DeviceError;
use crate::device_info::{range_ok, DeviceInfo};
use vstd::prelude::*;

verus! {

/// Depth of the submission queue the ring of one device is created with.
pub const URING_SIZE: u32 = 8;

/// The byte range of the backing file that one request covers: block `lba`
/// starts at byte `lba * BLOCK_SIZE`, and `count` blocks span
/// `count * BLOCK_SIZE` bytes.
#[derive(Clone, Copy, Debug, PartialEq, Eq)]
pub struct RingRequest {
    /// Byte offset of the first block of the request.
    pub byte_offset: u64,
    /// Number of bytes the request transfers.
    pub byte_len: u64,
}

/// The ring-backed device's descriptor and request logic. The device holds no
/// copy of block contents; its ring handle and file handles live with the
/// unverified code that performs the submissions.
#[derive(Debug)]
pub struct IoUringFakeDevice {
    device_info: DeviceInfo,
}

impl IoUringFakeDevice {
    /// The device descriptor.
    pub closed spec fn spec_info(&self) -> DeviceInfo {
        self.device_info
    }

    /// The descriptor is well formed.
    pub open spec fn wf(&self) -> bool {
        self.spec_info().wf()
    }

    /// Creates the descriptor of a device named `name` with `size` bytes of
    /// capacity; rejects an invalid size with `ConfigError`. Creating the
    /// ring and pre-filling the backing file with the unmap pattern is I/O
    /// and is done by the caller that owns the ring.
    pub fn new(name: String, size: u64) -> (r: Result<IoUringFakeDevice, DeviceError>)
        ensures
            (r is Ok) <==> (size > 0 && size % (BLOCK_SIZE as u64) == 0),
            match r {
                Ok(dev) => {
                    &&& dev.wf()
                    &&& dev.spec_info().spec_name() == name@
                    &&& dev.spec_info().spec_total_size() == size
                    &&& dev.spec_info().spec_num_blocks() == size / (BLOCK_SIZE as u64)
                },
                Err(e) => e == DeviceError::ConfigError,
            },
    {
        let device_info = match DeviceInfo::new(name, size) {
            Ok(info) => info,
            Err(e) => {
                return Err(e);
            },
        };
        Ok(IoUringFakeDevice { device_info })
    }

    /// The device descriptor; no side effects, never fails.
    pub fn info(&self) -> (r: &DeviceInfo)
        ensures
            r == self.spec_info(),
    {
        &self.device_info
    }

    /// A request for `num_blocks` blocks at `lba` fits this device: the count
    /// is nonzero and the range ends inside the capacity.
    pub fn is_valid_range(&self, lba: u64, num_blocks: u64) -> (r: bool)
        ensures
            r == range_ok(self.spec_info().spec_num_blocks(), lba, num_blocks),
    {
        let total = self.device_info.num_blocks();
        num_blocks != 0 && lba <= total && num_blocks <= total - lba
    }

    /// The byte offset of block `lba` in the backing file. Also the offset a
    /// construction-time pre-fill seeks to before writing the unmap pattern
    /// of block `lba`.
    pub fn byte_offset_of(&self, lba: u64) -> (r: u64)
        requires
            self.wf(),
            lba < self.spec_info().spec_num_blocks(),
        ensures
            r == lba * (BLOCK_SIZE as int),
    {
        proof {
            lemma_block_range_fits(self.spec_info().spec_num_blocks() as int, lba as int, 1);
        }
        lba * (BLOCK_SIZE as u64)
    }

    /// Validates a write request and returns the exact byte range it must
    /// cover. Rejects a buffer of any other length than `num_blocks` with
    /// `BufferSizeMismatch`, regardless of range validity, and otherwise a
    /// bad range with `InvalidRange`, before anything touches the ring.
    pub fn prepare_write(&self, lba: u64, num_blocks: u64, buffer_len: usize) -> (r: Result<
        RingRequest,
        DeviceError,
    >)
        requires
            self.wf(),
        ensures
            (r is Ok) <==> (range_ok(self.spec_info().spec_num_blocks(), lba, num_blocks)
                && buffer_len == num_blocks),
            match r {
                Ok(req) => {
                    &&& req.byte_offset == lba * (BLOCK_SIZE as int)
                    &&& req.byte_len == num_blocks * (BLOCK_SIZE as int)
                },
                Err(e) => {
                    &&& (e == DeviceError::BufferSizeMismatch <==> buffer_len != num_blocks)
                    &&& (e == DeviceError::InvalidRange <==> (buffer_len == num_blocks
                        && !range_ok(self.spec_info().spec_num_blocks(), lba, num_blocks)))
                },
            },
    {
        if buffer_len as u64 != num_blocks {
            return Err(DeviceError::BufferSizeMismatch);
        }
        if !self.is_valid_range(lba, num_blocks) {
            return Err(DeviceError::InvalidRange);
        }
        proof {
            lemma_block_range_fits(
                self.spec_info().spec_num_blocks() as int,
                lba as int,
                num_blocks as int,
            );
        }
        Ok(
            RingRequest {
                byte_offset: lba * (BLOCK_SIZE as u64),
                byte_len: num_blocks * (BLOCK_SIZE as u64),
            },
        )
    }

    /// Validates a read request and returns the exact byte range it must
    /// cover; rejects a bad range with `InvalidRange` before anything touches
    /// the ring.
    pub fn prepare_read(&self, lba: u64, num_blocks: u64) -> (r: Result<RingRequest, DeviceError>)
        requires
            self.wf(),
        ensures
            (r is Ok) <==> range_ok(self.spec_info().spec_num_blocks(), lba, num_blocks),
            match r {
                Ok(req) => {
                    &&& req.byte_offset == lba * (BLOCK_SIZE as int)
                    &&& req.byte_len == num_blocks * (BLOCK_SIZE as int)
                },
                Err(e) => e == DeviceError::InvalidRange,
            },
    {
        if !self.is_valid_range(lba, num_blocks) {
            return Err(DeviceError::InvalidRange);
        }
        proof {
            lemma_block_range_fits(
                self.spec_info().spec_num_blocks() as int,
                lba as int,
                num_blocks as int,
            );
        }
        Ok(
            RingRequest {
                byte_offset: lba * (BLOCK_SIZE as u64),
                byte_len: num_blocks * (BLOCK_SIZE as u64),
            },
        )
    }

    /// Nothing to load: every completed write is already durable in the
    /// backing file, the device's sole state.
    pub fn load(&mut self) -> (r: Result<(), DeviceError>)
        ensures
            *final(self) == *old(self),
            r is Ok,
    {
        Ok(())
    }

    /// Nothing to flush: every completed write is already durable in the
    /// backing file, the device's sole state.
    pub fn flush(&mut self) -> (r: Result<(), DeviceError>)
        ensures
            *final(self) == *old(self),
            r is Ok,
    {
        Ok(())
    }
}

/// Maps what the completion queue yielded for a request of `requested_bytes`
/// bytes to the operation's result. A completion code of `0` or of exactly
/// the requested byte length is success; a negative code (a kernel error) or
/// a short transfer is `MediumError` carrying that code; an empty completion
/// queue (`None`, a ring-level failure) is `MediumError(-1)`.
pub fn map_completion(completion: Option<i32>, requested_bytes: u64) -> (r: Result<
    (),
    DeviceError,
>)
    ensures
        (r is Ok) <==> (completion matches Some(code) && (code == 0 || code == requested_bytes)),
        match r {
            Ok(()) => true,
            Err(e) => match completion {
                Some(code) => e == DeviceError::MediumError(code),
                None => e == DeviceError::MediumError(-1i32),
            },
        },
{
    match completion {
        None => Err(DeviceError::MediumError(-1i32)),
        Some(code) => {
            if code == 0 {
                Ok(())
            } else if code > 0 && code as u64 == requested_bytes {
                Ok(())
            } else {
                Err(DeviceError::MediumError(code))
            }
        },
    }
}

/// A whole-block range that lies inside a well-formed device also lies inside
/// its capacity in bytes; in particular its byte offset and byte length fit
/// in `u64`.
proof fn lemma_block_range_fits(total_blocks: int, lba: int, count: int)
    requires
        0 <= lba,
        0 <= count,
        lba + count <= total_blocks,
    ensures
        lba * (BLOCK_SIZE as int) + count * (BLOCK_SIZE as int) <= total_blocks * (BLOCK_SIZE
            as int),
{
}

} // verus!
