//! FAT32 volumes.

use crate::blockdevice::{Block, BlockDevice, BlockIdx, DeviceOp};
use crate::{Controller, Error};
use vstd::prelude::*;

verus! {

/// The partition type of a FAT32 partition addressed by LBA.
pub const PARTITION_ID_FAT32_LBA: u8 = 0x0C;

/// Where the volume label starts in a FAT32 boot sector.
pub const VOLUME_LABEL_START: usize = 71;

/// The length of a volume label.
pub const VOLUME_LABEL_LEN: usize = 11;

/// A FAT32 volume.
#[derive(Debug, PartialEq, Eq)]
pub struct Volume {
    pub lba_start: BlockIdx,
    pub num_blocks: BlockIdx,
    pub name: [u8; 11],
}

/// The label of the FAT32 volume whose boot sector is `boot`.
pub open spec fn spec_volume_label(boot: Seq<u8>) -> Seq<u8> {
    boot.subrange(VOLUME_LABEL_START as int, VOLUME_LABEL_START + VOLUME_LABEL_LEN)
}

/// Describes the FAT32 volume whose boot sector is `block`, which starts at
/// `lba_start` and is `num_blocks` blocks long.
pub fn volume_from_boot_sector(block: &Block, lba_start: BlockIdx, num_blocks: BlockIdx) -> (v: Volume)
    ensures
        v.lba_start == lba_start,
        v.num_blocks == num_blocks,
        v.name@ == spec_volume_label(block.contents@),
        forall|j: int| 0 <= j < 11 ==> #[trigger] v.name@[j] == block.contents@[71 + j],
{
    let mut name = [0u8; 11];
    for i in 0..VOLUME_LABEL_LEN
        invariant
            forall|j: int| 0 <= j < i ==> name@[j] == block.contents@[VOLUME_LABEL_START + j],
    {
        name[i] = block.contents[VOLUME_LABEL_START + i];
    }
    assert(name@ =~= spec_volume_label(block.contents@));
    Volume { lba_start, num_blocks, name }
}

/// What reading the boot sector `boot` of the FAT32 volume that starts at
/// `lba_start` and is `num_blocks` blocks long gives, when the device answered
/// the read with `read`.
pub open spec fn spec_boot_sector_answer<D: BlockDevice>(
    read: Result<(), D::Error>,
    boot: Seq<u8>,
    lba_start: BlockIdx,
    num_blocks: BlockIdx,
    res: Result<Volume, Error<D>>,
) -> bool {
    match read {
        Err(e) => res == Err::<Volume, Error<D>>(Error::DeviceError(e)),
        Ok(()) => {
            &&& boot.len() == 512
            &&& res matches Ok(v) && v.lba_start == lba_start && v.num_blocks == num_blocks
                && v.name@ == spec_volume_label(boot)
        },
    }
}

/// Reads the boot sector of the FAT32 volume that starts at `lba_start` and is
/// `num_blocks` blocks long, and describes the volume.
///
/// The device is asked for one thing only: to read block `lba_start` into one block.
pub fn parse_volume<D: BlockDevice>(
    controller: &mut Controller<D>,
    lba_start: BlockIdx,
    num_blocks: BlockIdx,
) -> (res: Result<Volume, Error<D>>)
    ensures
        ({
            let before = old(controller).block_device;
            let after = final(controller).block_device;
            &&& forall|i: int| #[trigger] after.block_contents(i) == before.block_contents(i)
            &&& after.history().len() == before.history().len() + 1
            &&& after.history().take(before.history().len() as int) == before.history()
            &&& after.history()[before.history().len() as int] matches DeviceOp::Read {
                start,
                count,
                result,
            } && start == lba_start && count == 1 && spec_boot_sector_answer::<D>(
                result,
                before.block_contents(lba_start.0 as int),
                lba_start,
                num_blocks,
                res,
            )
        }),
        res matches Ok(v) ==> v.lba_start == lba_start && v.num_blocks == num_blocks && forall|j: int|
            0 <= j < 11 ==> #[trigger] v.name@[j] == old(controller).block_device.block_contents(
                lba_start.0 as int,
            )[71 + j],
        res matches Err(e) ==> e is DeviceError,
{
    let mut blocks = [Block::new()];
    let r = controller.block_device.read(&mut blocks, lba_start);
    match r {
        Ok(()) => {},
        Err(e) => {
            return Err(Error::DeviceError(e));
        },
    }
    assert(blocks[0].contents@ == old(controller).block_device.block_contents(lba_start.0 as int));
    Ok(volume_from_boot_sector(&blocks[0], lba_start, num_blocks))
}

/// The label of a boot sector is its eleven bytes from byte 71 on.
pub proof fn lemma_volume_label(boot: Seq<u8>)
    requires
        boot.len() == 512,
    ensures
        spec_volume_label(boot).len() == 11,
        forall|j: int| 0 <= j < 11 ==> #[trigger] spec_volume_label(boot)[j] == boot[71 + j],
{
}

/// Reading a boot sector answers the device's own error when the read fails;
/// when it succeeds, it answers the volume with the given first block and
/// length, named by bytes 71 to 81 of the boot sector.
pub proof fn lemma_boot_sector_answer<D: BlockDevice>(
    read: Result<(), D::Error>,
    boot: Seq<u8>,
    lba_start: BlockIdx,
    num_blocks: BlockIdx,
    res: Result<Volume, Error<D>>,
)
    requires
        spec_boot_sector_answer::<D>(read, boot, lba_start, num_blocks, res),
    ensures
        read matches Err(e) ==> res == Err::<Volume, Error<D>>(Error::DeviceError(e)),
        read is Ok ==> boot.len() == 512,
        read is Ok ==> (res matches Ok(v) && v.lba_start == lba_start && v.num_blocks == num_blocks
            && v.name@.len() == 11 && forall|j: int|
            0 <= j < 11 ==> #[trigger] v.name@[j] == boot[71 + j]),
{
    if read is Ok {
        lemma_volume_label(boot);
    }
}

} // verus!
