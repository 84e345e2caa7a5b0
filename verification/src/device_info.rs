//! The immutable descriptor of a device's identity and capacity.

use crate::data_type::BLOCK_SIZE;
use crate::device_error::DeviceError;
use vstd::prelude::*;

verus! {

/// A request for `count` blocks starting at `lba` addresses a nonempty range
/// lying wholly inside a device of `total_blocks` blocks. Every backend
/// rejects a request that does not satisfy this; a violation is never
/// truncated.
pub open spec fn range_ok(total_blocks: u64, lba: u64, count: u64) -> bool {
    count > 0 && lba + count <= total_blocks
}

/// Identity and capacity of one device: the backing-file name, the total size
/// in bytes, and the number of blocks. Constructed once at device creation and
/// immutable thereafter.
#[derive(Clone, Debug)]
pub struct DeviceInfo {
    name: String,
    total_size: u64,
    num_blocks: u64,
}

impl DeviceInfo {
    /// The device name as a character sequence.
    pub closed spec fn spec_name(&self) -> Seq<char> {
        self.name@
    }

    /// The capacity in bytes.
    pub closed spec fn spec_total_size(&self) -> u64 {
        self.total_size
    }

    /// The capacity in blocks.
    pub closed spec fn spec_num_blocks(&self) -> u64 {
        self.num_blocks
    }

    /// The descriptor is well formed: the capacity is a positive whole number
    /// of blocks.
    pub open spec fn wf(&self) -> bool {
        &&& self.spec_num_blocks() > 0
        &&& self.spec_total_size() == self.spec_num_blocks() * (BLOCK_SIZE as u64)
    }

    /// Validates `size` (it must be a positive multiple of `BLOCK_SIZE`) and
    /// builds the descriptor; rejects any other size with `ConfigError`.
    pub fn new(name: String, size: u64) -> (r: Result<DeviceInfo, DeviceError>)
        ensures
            (r is Ok) <==> (size > 0 && size % (BLOCK_SIZE as u64) == 0),
            match r {
                Ok(info) => {
                    &&& info.wf()
                    &&& info.spec_name() == name@
                    &&& info.spec_total_size() == size
                    &&& info.spec_num_blocks() == size / (BLOCK_SIZE as u64)
                },
                Err(e) => e == DeviceError::ConfigError,
            },
    {
        if size == 0 || size % (BLOCK_SIZE as u64) != 0 {
            return Err(DeviceError::ConfigError);
        }
        let num_blocks = size / (BLOCK_SIZE as u64);
        Ok(DeviceInfo { name, total_size: size, num_blocks })
    }

    /// The device name: the path of the backing file.
    pub fn name(&self) -> (r: &String)
        ensures
            r@ == self.spec_name(),
    {
        &self.name
    }

    /// The capacity in bytes.
    pub fn total_size(&self) -> (r: u64)
        ensures
            r == self.spec_total_size(),
    {
        self.total_size
    }

    /// The capacity in blocks.
    pub fn num_blocks(&self) -> (r: u64)
        ensures
            r == self.spec_num_blocks(),
    {
        self.num_blocks
    }
}

} // verus!
