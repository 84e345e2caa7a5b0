//! The atomic unit of transfer: a fixed-size block of bytes.

use vstd::prelude::*;

verus! {

/// Number of bytes in one block. Every transfer and every backing-file offset
/// is a whole number of blocks of this size.
pub const BLOCK_SIZE: usize = 4096;

/// A fixed-length byte buffer holding the contents of one block.
#[derive(Clone, Copy, Debug, PartialEq, Eq)]
pub struct DataBlock(pub [u8; BLOCK_SIZE]);

impl View for DataBlock {
    type V = Seq<u8>;

    open spec fn view(&self) -> Seq<u8> {
        self.0@
    }
}

/// The byte sequence of a block whose every byte is `value`.
pub open spec fn filled_seq(value: u8) -> Seq<u8> {
    Seq::new(BLOCK_SIZE as nat, |i: int| value)
}

/// The all-zero pattern: the contents of a block that has never been written.
pub open spec fn unmap_seq() -> Seq<u8> {
    filled_seq(0u8)
}

/// The contents of a sequence of blocks, one byte sequence per block.
pub open spec fn blocks_view(s: Seq<DataBlock>) -> Seq<Seq<u8>> {
    s.map_values(|b: DataBlock| b@)
}

impl DataBlock {
    /// Builds a block whose every byte is `value`.
    pub fn filled(value: u8) -> (r: DataBlock)
        ensures
            r@ == filled_seq(value),
    {
        let r = DataBlock([value; BLOCK_SIZE]);
        proof {
            assert(r@ =~= filled_seq(value));
        }
        r
    }
}

/// Builds the unmap block: all bytes zero, the state of never-written storage.
pub fn unmap_block() -> (r: DataBlock)
    ensures
        r@ == unmap_seq(),
{
    DataBlock::filled(0u8)
}

} // verus!
