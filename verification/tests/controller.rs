use embedded_sdmmc::{Block, BlockDevice, BlockIdx, Controller, Error, FatVolume, Volume};

#[derive(Debug)]
struct DummyBlockDevice;

#[derive(Debug)]
enum DeviceFailure {
    Unknown,
}

/// The master boot record of an actual SD card, except that the start and
/// length of partition 0 are changed.
fn card_mbr() -> Block {
    let mut block = Block::new();
    block.contents[0x000..0x04b].copy_from_slice(&[
            0xfa, 0xb8, 0x00, 0x10, 0x8e, 0xd0, 0xbc, 0x00, 0xb0, 0xb8, 0x00, 0x00,
            0x8e, 0xd8, 0x8e, 0xc0, 0xfb, 0xbe, 0x00, 0x7c, 0xbf, 0x00, 0x06, 0xb9,
            0x00, 0x02, 0xf3, 0xa4, 0xea, 0x21, 0x06, 0x00, 0x00, 0xbe, 0xbe, 0x07,
            0x38, 0x04, 0x75, 0x0b, 0x83, 0xc6, 0x10, 0x81, 0xfe, 0xfe, 0x07, 0x75,
            0xf3, 0xeb, 0x16, 0xb4, 0x02, 0xb0, 0x01, 0xbb, 0x00, 0x7c, 0xb2, 0x80,
            0x8a, 0x74, 0x01, 0x8b, 0x4c, 0x02, 0xcd, 0x13, 0xea, 0x00, 0x7c, 0x00,
            0x00, 0xeb, 0xfe,
    ]);
    block.contents[0x1b8..0x1cd].copy_from_slice(&[
            0x4c, 0xca, 0xde, 0x06, 0x00, 0x00, 0x00, 0x04, 0x01, 0x04, 0x0c, 0xfe,
            0xc2, 0xff, 0x01, 0x00, 0x00, 0x00, 0x33, 0x22, 0x11,
    ]);
    block.contents[0x1fe..0x200].copy_from_slice(&[
            0x55, 0xaa,
    ]);
    block
}

/// The boot sector of the FAT32 volume on that card.
fn card_boot_sector() -> Block {
    let mut block = Block::new();
    block.contents[0x000..0x033].copy_from_slice(&[
            0xeb, 0x58, 0x90, 0x6d, 0x6b, 0x66, 0x73, 0x2e, 0x66, 0x61, 0x74, 0x00,
            0x02, 0x08, 0x20, 0x00, 0x02, 0x00, 0x00, 0x00, 0x00, 0xf8, 0x00, 0x00,
            0x10, 0x00, 0x04, 0x00, 0x00, 0x08, 0x00, 0x00, 0x00, 0x20, 0x76, 0x00,
            0x80, 0x1d, 0x00, 0x00, 0x00, 0x00, 0x00, 0x00, 0x02, 0x00, 0x00, 0x00,
            0x01, 0x00, 0x06,
    ]);
    block.contents[0x040..0x0db].copy_from_slice(&[
            0x80, 0x01, 0x29, 0x0b, 0xa8, 0x89, 0x27, 0x50, 0x69, 0x63, 0x74, 0x75,
            0x72, 0x65, 0x73, 0x20, 0x20, 0x20, 0x46, 0x41, 0x54, 0x33, 0x32, 0x20,
            0x20, 0x20, 0x0e, 0x1f, 0xbe, 0x77, 0x7c, 0xac, 0x22, 0xc0, 0x74, 0x0b,
            0x56, 0xb4, 0x0e, 0xbb, 0x07, 0x00, 0xcd, 0x10, 0x5e, 0xeb, 0xf0, 0x32,
            0xe4, 0xcd, 0x16, 0xcd, 0x19, 0xeb, 0xfe, 0x54, 0x68, 0x69, 0x73, 0x20,
            0x69, 0x73, 0x20, 0x6e, 0x6f, 0x74, 0x20, 0x61, 0x20, 0x62, 0x6f, 0x6f,
            0x74, 0x61, 0x62, 0x6c, 0x65, 0x20, 0x64, 0x69, 0x73, 0x6b, 0x2e, 0x20,
            0x20, 0x50, 0x6c, 0x65, 0x61, 0x73, 0x65, 0x20, 0x69, 0x6e, 0x73, 0x65,
            0x72, 0x74, 0x20, 0x61, 0x20, 0x62, 0x6f, 0x6f, 0x74, 0x61, 0x62, 0x6c,
            0x65, 0x20, 0x66, 0x6c, 0x6f, 0x70, 0x70, 0x79, 0x20, 0x61, 0x6e, 0x64,
            0x0d, 0x0a, 0x70, 0x72, 0x65, 0x73, 0x73, 0x20, 0x61, 0x6e, 0x79, 0x20,
            0x6b, 0x65, 0x79, 0x20, 0x74, 0x6f, 0x20, 0x74, 0x72, 0x79, 0x20, 0x61,
            0x67, 0x61, 0x69, 0x6e, 0x20, 0x2e, 0x2e, 0x2e, 0x20, 0x0d, 0x0a,
    ]);
    block.contents[0x1fe..0x200].copy_from_slice(&[
            0x55, 0xaa,
    ]);
    block
}

fn card_blocks() -> [Block; 2] {
    [card_mbr(), card_boot_sector()]
}

impl BlockDevice for DummyBlockDevice {
    type Error = DeviceFailure;

    fn block_contents(&self, _idx: vstd::prelude::int) -> vstd::prelude::Seq<u8> {
        panic!("the model of a device is only for verification")
    }

    fn history(&self) -> vstd::prelude::Seq<embedded_sdmmc::DeviceOp<Self::Error>> {
        panic!("the model of a device is only for verification")
    }

    /// Read one or more blocks, starting at the given block index.
    fn read(&mut self, blocks: &mut [Block], start_block_idx: BlockIdx) -> Result<(), Self::Error> {
        let stored = card_blocks();
        println!(
            "Reading block {} to {}",
            start_block_idx.0,
            start_block_idx.0 as usize + blocks.len()
        );
        for (idx, block) in blocks.iter_mut().enumerate() {
            let block_idx = start_block_idx.0 as usize + idx;
            if block_idx < stored.len() {
                *block = stored[block_idx].clone();
            } else {
                return Err(DeviceFailure::Unknown);
            }
        }
        Ok(())
    }

    /// Write one or more blocks, starting at the given block index.
    fn write(&mut self, _blocks: &[Block], _start_block_idx: BlockIdx) -> Result<(), Self::Error> {
        panic!("this device cannot be written");
    }

    /// Complete a multi-block transaction and return the SD card to idle mode.
    fn sync(&mut self) -> Result<(), Self::Error> {
        Ok(())
    }
}

#[test]
fn partition0() {
    let mut c = Controller::new(DummyBlockDevice);
    let v = c.get_volume(0).unwrap();
    assert_eq!(
        v,
        Volume::Fat(FatVolume {
            lba_start: BlockIdx(1),
            num_blocks: BlockIdx(0x00112233),
            name: *b"Pictures   ",
        })
    );
}

#[test]
fn other_partitions_are_not_fat32() {
    let mut c = Controller::new(DummyBlockDevice);
    for idx in 1..4 {
        match c.get_volume(idx) {
            Err(Error::FormatError(msg)) => assert_eq!(msg, "Partition is not of type FAT32 LBA."),
            _ => panic!("partition {} should be refused", idx),
        }
    }
}

#[test]
fn fifth_partition_does_not_exist() {
    let mut c = Controller::new(DummyBlockDevice);
    assert!(matches!(c.get_volume(4), Err(Error::NoSuchVolume)));
    assert!(matches!(c.get_volume(usize::MAX), Err(Error::NoSuchVolume)));
}

/// A device that holds its blocks in memory.
#[derive(Debug)]
struct MemoryDevice {
    blocks: Vec<Block>,
}

impl BlockDevice for MemoryDevice {
    type Error = DeviceFailure;

    fn block_contents(&self, _idx: vstd::prelude::int) -> vstd::prelude::Seq<u8> {
        panic!("the model of a device is only for verification")
    }

    fn history(&self) -> vstd::prelude::Seq<embedded_sdmmc::DeviceOp<Self::Error>> {
        panic!("the model of a device is only for verification")
    }

    fn read(&mut self, blocks: &mut [Block], start_block_idx: BlockIdx) -> Result<(), Self::Error> {
        for (idx, block) in blocks.iter_mut().enumerate() {
            let block_idx = start_block_idx.0 as usize + idx;
            if block_idx < self.blocks.len() {
                *block = self.blocks[block_idx].clone();
            } else {
                return Err(DeviceFailure::Unknown);
            }
        }
        Ok(())
    }

    fn write(&mut self, blocks: &[Block], start_block_idx: BlockIdx) -> Result<(), Self::Error> {
        for (idx, block) in blocks.iter().enumerate() {
            let block_idx = start_block_idx.0 as usize + idx;
            if block_idx < self.blocks.len() {
                self.blocks[block_idx] = block.clone();
            } else {
                return Err(DeviceFailure::Unknown);
            }
        }
        Ok(())
    }

    fn sync(&mut self) -> Result<(), Self::Error> {
        Ok(())
    }
}

fn format_message<D: BlockDevice>(res: Result<Volume, Error<D>>) -> &'static str {
    match res {
        Err(Error::FormatError(msg)) => msg,
        _ => panic!("a format error was expected"),
    }
}

#[test]
fn new_keeps_the_device() {
    let c = Controller::new(MemoryDevice { blocks: card_blocks().to_vec() });
    assert_eq!(c.block_device.blocks.len(), 2);
    assert_eq!(c.block_device.blocks[1].contents[0x47], b'P');
}

#[test]
fn unreadable_mbr_is_a_device_error() {
    let mut c = Controller::new(MemoryDevice { blocks: Vec::new() });
    assert!(matches!(c.get_volume(0), Err(Error::DeviceError(DeviceFailure::Unknown))));
}

#[test]
fn unreadable_boot_sector_is_a_device_error() {
    let mut blocks = card_blocks().to_vec();
    // partition 0 now starts at block 9, which the device does not hold
    blocks[0].contents[0x1C6] = 9;
    let mut c = Controller::new(MemoryDevice { blocks });
    assert!(matches!(c.get_volume(0), Err(Error::DeviceError(DeviceFailure::Unknown))));
}

#[test]
fn missing_signature_is_refused_for_every_index() {
    let mut blocks = card_blocks().to_vec();
    blocks[0].contents[511] = 0x00;
    let mut c = Controller::new(MemoryDevice { blocks });
    for idx in [0usize, 1, 3, 4, 100] {
        assert_eq!(format_message(c.get_volume(idx)), "Invalid MBR signature.");
    }
}

#[test]
fn invalid_status_is_refused() {
    let mut blocks = card_blocks().to_vec();
    blocks[0].contents[446] = 0x01;
    let mut c = Controller::new(MemoryDevice { blocks });
    assert_eq!(format_message(c.get_volume(0)), "Invalid partition status.");
}

#[test]
fn bootable_partition_is_accepted() {
    let mut blocks = card_blocks().to_vec();
    blocks[0].contents[446] = 0x80;
    let mut c = Controller::new(MemoryDevice { blocks });
    let v = c.get_volume(0).unwrap();
    assert_eq!(
        v,
        Volume::Fat(FatVolume {
            lba_start: BlockIdx(1),
            num_blocks: BlockIdx(0x00112233),
            name: *b"Pictures   ",
        })
    );
}
