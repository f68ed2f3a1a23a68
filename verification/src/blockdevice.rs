//! Blocks, block indices and the devices that store them.

use vstd::prelude::*;

verus! {

/// The size of a block in bytes.
pub const BLOCK_LEN: usize = 512;

/// One block of data, as read from or written to a device.
#[derive(Debug, Clone)]
pub struct Block {
    pub contents: [u8; 512],
}

/// The index of a block on a device.
#[derive(Debug, Copy, Clone, PartialEq, Eq, Structural)]
pub struct BlockIdx(pub u32);

impl Block {
    /// A block whose bytes are all zero.
    pub fn new() -> (b: Block)
        ensures
            forall|i: int| 0 <= i < 512 ==> b.contents@[i] == 0,
    {
        Block { contents: [0u8; 512] }
    }
}

/// One operation a block device was asked to perform, and what it answered.
pub enum DeviceOp<E> {
    /// `count` blocks were read, starting at `start`.
    Read { start: BlockIdx, count: usize, result: Result<(), E> },
    /// `count` blocks were written, starting at `start`.
    Write { start: BlockIdx, count: usize, result: Result<(), E> },
    /// A transaction was completed.
    Sync { result: Result<(), E> },
}

/// A device that stores blocks: an SD card, or anything that behaves like one.
///
/// A device is modelled by the contents of its blocks and by the operations it
/// has performed so far; an implementation keeps its methods to that model.
pub trait BlockDevice {
    /// What the device reports when an operation fails.
    type Error;

    /// The bytes stored in block `idx`.
    spec fn block_contents(&self, idx: int) -> Seq<u8>;

    /// The operations the device has performed, oldest first.
    spec fn history(&self) -> Seq<DeviceOp<Self::Error>>;

    /// Read one or more blocks, starting at the given block index.
    ///
    /// Reading changes no block; when it succeeds, `blocks[k]` holds the
    /// contents of block `start_block_idx + k`.
    fn read(&mut self, blocks: &mut [Block], start_block_idx: BlockIdx) -> (r: Result<(), Self::Error>)
        ensures
            final(blocks)@.len() == old(blocks)@.len(),
            final(self).history() == old(self).history().push(
                DeviceOp::Read { start: start_block_idx, count: old(blocks)@.len() as usize, result: r },
            ),
            forall|i: int| #[trigger] final(self).block_contents(i) == old(self).block_contents(i),
            r is Ok ==> forall|k: int|
                0 <= k < old(blocks)@.len() ==> #[trigger] final(blocks)@[k].contents@
                    == old(self).block_contents(start_block_idx.0 + k),
    ;

    /// Write one or more blocks, starting at the given block index.
    ///
    /// When it succeeds, block `start_block_idx + k` holds `blocks[k]` and every
    /// other block is unchanged.
    fn write(&mut self, blocks: &[Block], start_block_idx: BlockIdx) -> (r: Result<(), Self::Error>)
        ensures
            final(self).history() == old(self).history().push(
                DeviceOp::Write { start: start_block_idx, count: blocks@.len() as usize, result: r },
            ),
            r is Ok ==> forall|i: int| #[trigger]
                final(self).block_contents(i) == if start_block_idx.0 <= i < start_block_idx.0
                    + blocks@.len() {
                    blocks@[i - start_block_idx.0].contents@
                } else {
                    old(self).block_contents(i)
                },
    ;

    /// Complete a multi-block transaction and return the device to idle mode.
    ///
    /// Completing a transaction changes no block.
    fn sync(&mut self) -> (r: Result<(), Self::Error>)
        ensures
            final(self).history() == old(self).history().push(DeviceOp::Sync { result: r }),
            forall|i: int| #[trigger] final(self).block_contents(i) == old(self).block_contents(i),
    ;
}

} // verus!
