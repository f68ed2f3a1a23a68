//! A library for reading volumes from SD/MMC cards, written for embedded use.
//!
//! The card is reached through a [`BlockDevice`]; a [`Controller`] reads its
//! Master Boot Record and the boot sector of a FAT32 partition to describe a volume.

pub mod blockdevice;
pub mod byte_order;
pub mod fat;
pub mod mbr;

pub use crate::blockdevice::{Block, BlockDevice, BlockIdx, DeviceOp};
pub use crate::fat::Volume as FatVolume;
pub use crate::mbr::{PartitionInfo, VolumeError};

use crate::fat::{lemma_boot_sector_answer, spec_boot_sector_answer};
use crate::mbr::{
    lemma_partition_table_layout, locate_fat32_partition, spec_error_of, spec_locate_fat32,
};
use vstd::prelude::*;

verus! {

/// The errors a [`Controller`] reports.
#[derive(Debug, Copy, Clone)]
pub enum Error<D> where D: BlockDevice {
    /// The block device reported an error.
    DeviceError(D::Error),
    /// What was read is not laid out as expected.
    FormatError(&'static str),
    /// The requested volume does not exist.
    NoSuchVolume,
}

/// A `Controller` wraps a block device and gives access to the volumes within it.
pub struct Controller<D> where D: BlockDevice {
    pub block_device: D,
}

/// A volume found on the card.
#[derive(Debug, PartialEq, Eq)]
pub enum Volume {
    Fat(FatVolume),
}

/// What `get_volume(volume_idx)` does to a device that was `before` and is
/// `after` the call, and answers `res`.
pub open spec fn spec_get_volume<D: BlockDevice>(
    before: D,
    after: D,
    volume_idx: int,
    res: Result<Volume, Error<D>>,
) -> bool {
    let h0 = before.history();
    let h = after.history();
    let n0 = h0.len() as int;
    let mbr = before.block_contents(0);
    &&& forall|i: int| #[trigger] after.block_contents(i) == before.block_contents(i)
    &&& h.len() > n0
    &&& h.take(n0) == h0
    &&& h[n0] matches DeviceOp::Read { start, count, result } && start == BlockIdx(0) && count == 1
        && match result {
        Err(e) => h.len() == n0 + 1 && res == Err::<Volume, Error<D>>(Error::DeviceError(e)),
        Ok(()) => {
            &&& mbr.len() == 512
            &&& match spec_locate_fat32(mbr, volume_idx) {
                Err(ve) => h.len() == n0 + 1 && res == Err::<Volume, Error<D>>(
                    spec_error_of::<D>(ve),
                ),
                Ok((lba_start, num_blocks)) => {
                    &&& h.len() == n0 + 2
                    &&& h[n0 + 1] matches DeviceOp::Read {
                        start: boot_start,
                        count: boot_count,
                        result: boot_read,
                    } && boot_start == lba_start && boot_count == 1 && spec_boot_sector_answer::<D>(
                        boot_read,
                        before.block_contents(lba_start.0 as int),
                        lba_start,
                        num_blocks,
                        spec_fat_result(res),
                    )
                },
            }
        },
    }
}

/// The FAT volume that `res` holds, or its error.
pub open spec fn spec_fat_result<D: BlockDevice>(res: Result<Volume, Error<D>>) -> Result<FatVolume, Error<D>> {
    match res {
        Ok(Volume::Fat(v)) => Ok(v),
        Err(e) => Err(e),
    }
}

/// A FAT result holds the very volume, or the very error, of the controller's answer.
pub proof fn lemma_fat_result<D: BlockDevice>(res: Result<Volume, Error<D>>)
    ensures
        res matches Ok(Volume::Fat(v)) ==> spec_fat_result(res) == Ok::<FatVolume, Error<D>>(v),
        res matches Err(e) ==> spec_fat_result(res) == Err::<FatVolume, Error<D>>(e),
{
}

/// A volume is found only when block 0 ends with the signature 0x55 0xAA and
/// its entry `volume_idx` (one of four, sixteen bytes from 446 + 16 * idx) has
/// status 0x00 or 0x80 and type 0x0C. The volume then starts at the entry's
/// little-endian 32-bit value at offset 8, is as long as the value at offset 12,
/// and is named by bytes 71 to 81 of its first block. The device performed
/// exactly two operations: a read of block 0 and a read of that first block.
pub proof fn lemma_get_volume_answer<D: BlockDevice>(
    before: D,
    after: D,
    volume_idx: int,
    res: Result<Volume, Error<D>>,
)
    requires
        spec_get_volume(before, after, volume_idx, res),
    ensures
        res matches Ok(Volume::Fat(v)) ==> ({
            let m = before.block_contents(0);
            let e = 446 + 16 * volume_idx;
            let boot = before.block_contents(v.lba_start.0 as int);
            let n0 = before.history().len() as int;
            &&& 0 <= volume_idx < 4
            &&& m.len() == 512
            &&& m[510] == 0x55 && m[511] == 0xAA
            &&& m[e] == 0x00 || m[e] == 0x80
            &&& m[e + 4] == 0x0C
            &&& v.lba_start.0 == m[e + 8] + 256 * m[e + 9] + 65536 * m[e + 10] + 16777216 * m[e + 11]
            &&& v.num_blocks.0 == m[e + 12] + 256 * m[e + 13] + 65536 * m[e + 14] + 16777216 * m[e + 15]
            &&& boot.len() == 512
            &&& forall|j: int| 0 <= j < 11 ==> #[trigger] v.name@[j] == boot[71 + j]
            &&& after.history().len() == n0 + 2
            &&& after.history()[n0] matches DeviceOp::Read { start, count, result } && start
                == BlockIdx(0) && count == 1 && result is Ok
            &&& after.history()[n0 + 1] matches DeviceOp::Read { start, count, result } && start
                == v.lba_start && count == 1 && result is Ok
        }),
{
    let n0 = before.history().len() as int;
    let m = before.block_contents(0);
    lemma_fat_result(res);
    if let Ok(Volume::Fat(v)) = res {
        if let DeviceOp::Read { start, count, result } = after.history()[n0] {
            assert(result is Ok);
            lemma_partition_table_layout(m, volume_idx);
            if let Ok((lba_start, num_blocks)) = spec_locate_fat32(m, volume_idx) {
                if let DeviceOp::Read { start: s2, count: c2, result: r2 } = after.history()[n0 + 1] {
                    lemma_boot_sector_answer::<D>(
                        r2,
                        before.block_contents(lba_start.0 as int),
                        lba_start,
                        num_blocks,
                        spec_fat_result(res),
                    );
                }
            }
        }
    }
}

impl<D> Controller<D> where D: BlockDevice {
    /// Create a new Disk Controller using a generic `BlockDevice`.
    pub fn new(block_device: D) -> (res: Controller<D>)
        ensures
            res.block_device == block_device,
    {
        Controller { block_device }
    }

    /// Get a volume (or partition) based on entries in the Master Boot
    /// Record. We do not support GUID Partition Table disks.
    ///
    /// The first block of the device is read as the Master Boot Record; when
    /// its entry `volume_idx` is a FAT32 partition, the first block of that
    /// partition is read as its boot sector.
    pub fn get_volume(&mut self, volume_idx: usize) -> (res: Result<Volume, Error<D>>)
        ensures
            spec_get_volume(old(self).block_device, final(self).block_device, volume_idx as int, res),
            res matches Ok(Volume::Fat(v)) ==> spec_locate_fat32(
                old(self).block_device.block_contents(0),
                volume_idx as int,
            ) == Ok::<_, VolumeError>((v.lba_start, v.num_blocks)) && forall|j: int|
                0 <= j < 11 ==> #[trigger] v.name@[j] == old(self).block_device.block_contents(
                    v.lba_start.0 as int,
                )[71 + j],
            volume_idx >= 4 ==> (res matches Err(e) && (e is DeviceError || e is NoSuchVolume
                || e == Error::<D>::FormatError("Invalid MBR signature."))),
    {
        let ghost h0 = self.block_device.history();
        let mut blocks = [Block::new()];
        let r = self.block_device.read(&mut blocks, BlockIdx(0));
        assert(self.block_device.history().take(h0.len() as int) =~= h0);
        match r {
            Ok(()) => {},
            Err(e) => {
                return Err(Error::DeviceError(e));
            },
        }
        let ghost h1 = self.block_device.history();
        match locate_fat32_partition(&blocks[0], volume_idx) {
            Err(e) => Err(e.to_error()),
            Ok((lba_start, num_blocks)) => {
                let res = fat::parse_volume(self, lba_start, num_blocks);
                assert(self.block_device.history().take(h1.len() as int) == h1);
                assert(self.block_device.history()[h0.len() as int] == h1[h0.len() as int]);
                assert(self.block_device.history().take(h0.len() as int) =~= h0);
                match res {
                    Ok(volume) => Ok(Volume::Fat(volume)),
                    Err(e) => Err(e),
                }
            },
        }
    }
}

} // verus!
