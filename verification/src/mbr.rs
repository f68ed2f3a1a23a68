//! The Master Boot Record: the partition table in the first block of a card.

use crate::blockdevice::{Block, BlockDevice, BlockIdx};
use crate::byte_order::{le_u16_at, le_u32_at, read_le_u16, read_le_u32};
use crate::fat::PARTITION_ID_FAT32_LBA;
use crate::Error;
use vstd::prelude::*;
use vstd::slice::slice_subrange;

verus! {

pub const PARTITION1_START: usize = 446;
pub const PARTITION2_START: usize = 462;
pub const PARTITION3_START: usize = 478;
pub const PARTITION4_START: usize = 494;
pub const FOOTER_START: usize = 510;
pub const FOOTER_VALUE: u16 = 0xAA55;
pub const PARTITION_INFO_LENGTH: usize = 16;
pub const PARTITION_INFO_STATUS_INDEX: usize = 0;
pub const PARTITION_INFO_TYPE_INDEX: usize = 4;
pub const PARTITION_INFO_LBA_START_INDEX: usize = 8;
pub const PARTITION_INFO_NUM_BLOCKS_INDEX: usize = 12;

/// Why a partition of the Master Boot Record cannot be used as a volume.
#[derive(Debug, Copy, Clone, PartialEq, Eq, Structural)]
pub enum VolumeError {
    /// The block does not end with the MBR signature.
    InvalidSignature,
    /// There is no partition entry with that index.
    NoSuchVolume,
    /// The status byte is neither 0x00 (inactive) nor 0x80 (bootable).
    InvalidStatus,
    /// The partition is not a FAT32 partition addressed by LBA.
    NotFat32Lba,
}

/// One entry of the partition table.
#[derive(Debug, Copy, Clone, PartialEq, Eq, Structural)]
pub struct PartitionInfo {
    pub part_type: u8,
    pub lba_start: BlockIdx,
    pub num_blocks: BlockIdx,
}

/// Where the entry of partition `idx` starts in the Master Boot Record.
pub open spec fn partition_entry_start(idx: int) -> int {
    if idx == 0 {
        PARTITION1_START as int
    } else if idx == 1 {
        PARTITION2_START as int
    } else if idx == 2 {
        PARTITION3_START as int
    } else {
        PARTITION4_START as int
    }
}

/// The partition entry `idx` of the Master Boot Record `block`, or why there is none.
pub open spec fn spec_parse_partition(block: Seq<u8>, idx: int) -> Result<PartitionInfo, VolumeError> {
    if le_u16_at(block, FOOTER_START as int) != FOOTER_VALUE {
        Err(VolumeError::InvalidSignature)
    } else if !(0 <= idx < 4) {
        Err(VolumeError::NoSuchVolume)
    } else {
        let e = partition_entry_start(idx);
        if !(block[e] == 0x00 || block[e] == 0x80) {
            Err(VolumeError::InvalidStatus)
        } else {
            Ok(PartitionInfo {
                part_type: block[e + 4],
                lba_start: BlockIdx(le_u32_at(block, e + 8) as u32),
                num_blocks: BlockIdx(le_u32_at(block, e + 12) as u32),
            })
        }
    }
}

/// The start and length of FAT32 partition `idx` of the Master Boot Record `block`,
/// or why it cannot be used.
pub open spec fn spec_locate_fat32(block: Seq<u8>, idx: int) -> Result<(BlockIdx, BlockIdx), VolumeError> {
    match spec_parse_partition(block, idx) {
        Err(e) => Err(e),
        Ok(p) => if p.part_type == PARTITION_ID_FAT32_LBA {
            Ok((p.lba_start, p.num_blocks))
        } else {
            Err(VolumeError::NotFat32Lba)
        },
    }
}

/// The error a controller reports for `e`.
pub open spec fn spec_error_of<D: BlockDevice>(e: VolumeError) -> Error<D> {
    match e {
        VolumeError::InvalidSignature => Error::FormatError("Invalid MBR signature."),
        VolumeError::NoSuchVolume => Error::NoSuchVolume,
        VolumeError::InvalidStatus => Error::FormatError("Invalid partition status."),
        VolumeError::NotFat32Lba => Error::FormatError("Partition is not of type FAT32 LBA."),
    }
}

impl VolumeError {
    /// The error a controller reports for this one.
    pub fn to_error<D: BlockDevice>(self) -> (e: Error<D>)
        ensures
            e == spec_error_of::<D>(self),
    {
        match self {
            VolumeError::InvalidSignature => Error::FormatError("Invalid MBR signature."),
            VolumeError::NoSuchVolume => Error::NoSuchVolume,
            VolumeError::InvalidStatus => Error::FormatError("Invalid partition status."),
            VolumeError::NotFat32Lba => Error::FormatError("Partition is not of type FAT32 LBA."),
        }
    }
}

/// Reads entry `volume_idx` of the partition table in the Master Boot Record `block`.
/// Only the four primary entries exist; GUID Partition Tables are not supported.
pub fn parse_partition(block: &Block, volume_idx: usize) -> (res: Result<PartitionInfo, VolumeError>)
    ensures
        res == spec_parse_partition(block.contents@, volume_idx as int),
{
    let bytes = block.contents.as_slice();
    let footer = read_le_u16(slice_subrange(bytes, FOOTER_START, FOOTER_START + 2));
    if footer != FOOTER_VALUE {
        return Err(VolumeError::InvalidSignature);
    }
    let start: usize = if volume_idx == 0 {
        PARTITION1_START
    } else if volume_idx == 1 {
        PARTITION2_START
    } else if volume_idx == 2 {
        PARTITION3_START
    } else if volume_idx == 3 {
        PARTITION4_START
    } else {
        return Err(VolumeError::NoSuchVolume);
    };
    let partition = slice_subrange(bytes, start, start + PARTITION_INFO_LENGTH);
    let status: u8 = partition[PARTITION_INFO_STATUS_INDEX];
    // Only 0x80 and 0x00 are valid (bootable, and non-bootable)
    assert((status & 0x7F == 0) <==> (status == 0x00 || status == 0x80)) by (bit_vector);
    if (status & 0x7F) != 0x00 {
        return Err(VolumeError::InvalidStatus);
    }
    let lba_start = read_le_u32(slice_subrange(
        partition,
        PARTITION_INFO_LBA_START_INDEX,
        PARTITION_INFO_LBA_START_INDEX + 4,
    ));
    let num_blocks = read_le_u32(slice_subrange(
        partition,
        PARTITION_INFO_NUM_BLOCKS_INDEX,
        PARTITION_INFO_NUM_BLOCKS_INDEX + 4,
    ));
    Ok(PartitionInfo {
        part_type: partition[PARTITION_INFO_TYPE_INDEX],
        lba_start: BlockIdx(lba_start),
        num_blocks: BlockIdx(num_blocks),
    })
}

/// Finds the FAT32 partition `volume_idx` in the Master Boot Record `block`:
/// its first block and its length in blocks.
pub fn locate_fat32_partition(block: &Block, volume_idx: usize) -> (res: Result<(BlockIdx, BlockIdx), VolumeError>)
    ensures
        res == spec_locate_fat32(block.contents@, volume_idx as int),
{
    match parse_partition(block, volume_idx) {
        Err(e) => Err(e),
        Ok(p) => {
            // We only handle FAT32 LBA for now
            if p.part_type == PARTITION_ID_FAT32_LBA {
                Ok((p.lba_start, p.num_blocks))
            } else {
                Err(VolumeError::NotFat32Lba)
            }
        },
    }
}

/// How the partition table is read, byte by byte: the signature is 0x55 0xAA
/// at bytes 510 and 511; entry `idx` (0 to 3) takes the sixteen bytes from
/// 446 + 16 * idx, with its status at offset 0, its type at offset 4, and its
/// first block and length as little-endian 32-bit values at offsets 8 and 12.
/// A FAT32 partition is located by exactly that entry's first block and length.
pub proof fn lemma_partition_table_layout(b: Seq<u8>, idx: int)
    requires
        b.len() == 512,
    ensures
        !(b[510] == 0x55 && b[511] == 0xAA) ==> spec_parse_partition(b, idx) == Err::<
            PartitionInfo,
            _,
        >(VolumeError::InvalidSignature),
        (b[510] == 0x55 && b[511] == 0xAA && !(0 <= idx < 4)) ==> spec_parse_partition(b, idx)
            == Err::<PartitionInfo, _>(VolumeError::NoSuchVolume),
        (b[510] == 0x55 && b[511] == 0xAA && 0 <= idx < 4) ==> ({
            let e = 446 + 16 * idx;
            &&& !(b[e] == 0x00 || b[e] == 0x80) ==> spec_parse_partition(b, idx) == Err::<
                PartitionInfo,
                _,
            >(VolumeError::InvalidStatus)
            &&& (b[e] == 0x00 || b[e] == 0x80) ==> (spec_parse_partition(b, idx) matches Ok(p)
                && p.part_type == b[e + 4] && p.lba_start.0 == b[e + 8] + 256 * b[e + 9] + 65536
                * b[e + 10] + 16777216 * b[e + 11] && p.num_blocks.0 == b[e + 12] + 256 * b[e + 13]
                + 65536 * b[e + 14] + 16777216 * b[e + 15])
        }),
        spec_parse_partition(b, idx) matches Err(ve) ==> spec_locate_fat32(b, idx) == Err::<
            (BlockIdx, BlockIdx),
            _,
        >(ve),
        spec_parse_partition(b, idx) matches Ok(p) ==> (p.part_type == 0x0C
            ==> spec_locate_fat32(b, idx) == Ok::<_, VolumeError>((p.lba_start, p.num_blocks))),
        spec_parse_partition(b, idx) matches Ok(p) ==> (p.part_type != 0x0C
            ==> spec_locate_fat32(b, idx) == Err::<(BlockIdx, BlockIdx), _>(
            VolumeError::NotFat32Lba,
        )),
{
    if 0 <= idx < 4 {
        assert(partition_entry_start(idx) == 446 + 16 * idx);
    }
}

/// The four entries of the partition table are sixteen bytes each, one after
/// the other, and end where the signature begins.
pub proof fn lemma_entries_are_consecutive(idx: int)
    requires
        0 <= idx < 4,
    ensures
        partition_entry_start(idx) == PARTITION1_START + PARTITION_INFO_LENGTH * idx,
        partition_entry_start(idx) + PARTITION_INFO_LENGTH <= FOOTER_START,
{
}

/// A block that does not end with the MBR signature is refused, whichever
/// partition is asked for.
pub proof fn lemma_signature_required(block: Seq<u8>, idx: int)
    requires
        block.len() == 512,
        le_u16_at(block, FOOTER_START as int) != FOOTER_VALUE,
    ensures
        spec_parse_partition(block, idx) == Err::<PartitionInfo, _>(VolumeError::InvalidSignature),
        spec_locate_fat32(block, idx) == Err::<(BlockIdx, BlockIdx), _>(VolumeError::InvalidSignature),
{
}

/// The partition table has four entries: no other index gives a partition.
pub proof fn lemma_only_four_entries(block: Seq<u8>, idx: int)
    requires
        block.len() == 512,
        !(0 <= idx < 4),
    ensures
        spec_parse_partition(block, idx) is Err,
        spec_locate_fat32(block, idx) is Err,
        le_u16_at(block, FOOTER_START as int) == FOOTER_VALUE ==> spec_locate_fat32(block, idx)
            == Err::<(BlockIdx, BlockIdx), _>(VolumeError::NoSuchVolume),
{
}

/// A partition is accepted only with the status byte 0x00 (inactive) or 0x80
/// (bootable), and a FAT32 volume only with the partition type 0x0C.
pub proof fn lemma_accepted_entry(block: Seq<u8>, idx: int)
    requires
        block.len() == 512,
        spec_parse_partition(block, idx) is Ok,
    ensures
        0 <= idx < 4,
        block[partition_entry_start(idx)] == 0x00 || block[partition_entry_start(idx)] == 0x80,
        spec_locate_fat32(block, idx) is Ok <==> block[partition_entry_start(idx) + 4]
            == PARTITION_ID_FAT32_LBA,
{
}

/// What is read of partition `idx` depends only on the signature and on the
/// sixteen bytes of its own entry.
pub proof fn lemma_entry_locality(b1: Seq<u8>, b2: Seq<u8>, idx: int)
    requires
        b1.len() == 512,
        b2.len() == 512,
        0 <= idx < 4,
        b1.subrange(FOOTER_START as int, 512) == b2.subrange(FOOTER_START as int, 512),
        b1.subrange(partition_entry_start(idx), partition_entry_start(idx) + 16) == b2.subrange(
            partition_entry_start(idx),
            partition_entry_start(idx) + 16,
        ),
    ensures
        spec_parse_partition(b1, idx) == spec_parse_partition(b2, idx),
        spec_locate_fat32(b1, idx) == spec_locate_fat32(b2, idx),
{
    let e = partition_entry_start(idx);
    assert(b1[510] == b1.subrange(510, 512)[0]);
    assert(b1[511] == b1.subrange(510, 512)[1]);
    assert(b2[510] == b2.subrange(510, 512)[0]);
    assert(b2[511] == b2.subrange(510, 512)[1]);
    let s1 = b1.subrange(e, e + 16);
    let s2 = b2.subrange(e, e + 16);
    assert(s1[0] == s2[0] && s1[4] == s2[4]);
    assert(s1[8] == s2[8] && s1[9] == s2[9] && s1[10] == s2[10] && s1[11] == s2[11]);
    assert(s1[12] == s2[12] && s1[13] == s2[13] && s1[14] == s2[14] && s1[15] == s2[15]);
}

} // verus!
