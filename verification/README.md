# embedded-sdmmc

Reads volumes from SD/MMC cards through a user-supplied `BlockDevice`.

- `src/blockdevice.rs`: blocks, block indices and the `BlockDevice` trait, whose devices are modelled by the contents of their blocks and the operations they performed.
- `src/byte_order.rs`: little-endian reads, done by the `byteorder` crate.
- `src/mbr.rs`: the Master Boot Record partition table, its specification and its laws.
- `src/fat.rs`: FAT32 volumes and their boot sectors.
- `src/lib.rs`: the `Controller`, which reads the card and finds a volume.
