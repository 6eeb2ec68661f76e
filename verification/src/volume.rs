//! The mathematical model of an opened volume, and of opening one.

use crate::dir::{dir_leaf, DirItems};
use crate::error::Ext2Error;
use crate::layout::{
    BlockGroupDescriptor, Inode, Superblock, EXT2_END_OF_SUPERBLOCK, EXT2_MAGIC,
    EXT2_START_OF_SUPERBLOCK, GROUP_DESCRIPTOR_SIZE, INODE_SIZE,
};
use crate::walk::{file_leaf, walk_inode, Gathered};
use vstd::arithmetic::power2::{lemma2_to64, lemma_pow2_strictly_increases, pow2};
use vstd::math::min;
use vstd::prelude::*;

verus! {

/// What `uuid::Uuid::from_bytes` returns for the sixteen octets given.
pub uninterp spec fn uuid_from_octets(octets: Seq<u8>) -> uuid::Uuid;

/// An opened volume as plain values.
pub struct Volume {
    /// The decoded superblock.
    pub superblock: Superblock,
    /// The block group descriptor table, one descriptor per group.
    pub block_groups: Seq<BlockGroupDescriptor>,
    /// The blocks of the image, each `block_size` bytes long.
    pub blocks: Seq<Seq<u8>>,
    /// The size of a block in bytes.
    pub block_size: nat,
    /// The number of the device block that `blocks[0]` is.
    pub block_offset: nat,
    /// The identifier of the filesystem.
    pub uuid: uuid::Uuid,
}

/// The block size that a superblock announces as `log`: 1024 shifted left
/// by it.
pub open spec fn block_size_of(log: u32) -> nat {
    1024 * pow2(log as nat)
}

/// A block size is at least 1024 and a multiple of the size of an inode
/// record.
pub proof fn lemma_block_size_bounds(log: u32)
    ensures
        block_size_of(log) >= 1024,
        block_size_of(log) % 128 == 0,
{
    lemma2_to64();
    if log > 0 {
        lemma_pow2_strictly_increases(0, log as nat);
    }
}

/// The number of block groups: the blocks divided among groups of
/// `blocks_per_group`, rounded up.
pub open spec fn group_count_of(sb: Superblock) -> int {
    (sb.blocks_count + sb.blocks_per_group - 1) / (sb.blocks_per_group as int)
}

/// The volume that the byte region `bytes` holds, or why it holds none.
/// `image_addr` is the address of `bytes[0]` and `start_addr` the address
/// where block 0 of the device would lie.
///
/// The superblock lies at byte 1024. The descriptor table follows it at
/// byte 2048, and the blocks start one block size behind the start of the
/// table: as many whole blocks as the region holds there, and no more than
/// the superblock counts. A table that is longer than one block runs on
/// into the first blocks.
pub open spec fn opened(bytes: Seq<u8>, image_addr: usize, start_addr: usize) -> Result<
    Volume,
    Ext2Error,
> {
    let sb = Superblock::decode(bytes, EXT2_START_OF_SUPERBLOCK as int);
    let block_size = block_size_of(sb.log_block_size);
    let groups = group_count_of(sb);
    let table_start = EXT2_END_OF_SUPERBLOCK as int;
    let data_start = table_start + block_size;
    let room = bytes.len() - data_start;
    if bytes.len() < EXT2_END_OF_SUPERBLOCK {
        Err(Ext2Error::InvalidLayout)
    } else if sb.magic != EXT2_MAGIC {
        Err(Ext2Error::BadMagic)
    } else if sb.blocks_per_group == 0 || data_start > bytes.len() || table_start
        + GROUP_DESCRIPTOR_SIZE * groups > bytes.len() {
        Err(Ext2Error::InvalidLayout)
    } else if start_addr > image_addr + data_start {
        Err(Ext2Error::BadBaseAddress)
    } else {
        Ok(
            Volume {
                superblock: sb,
                block_groups: Seq::new(
                    groups as nat,
                    |g: int|
                        BlockGroupDescriptor::decode(
                            bytes,
                            table_start + GROUP_DESCRIPTOR_SIZE * g,
                        ),
                ),
                blocks: Seq::new(
                    min(sb.blocks_count as int, room / (block_size as int)) as nat,
                    |i: int|
                        bytes.subrange(
                            data_start + i * block_size,
                            data_start + (i + 1) * block_size,
                        ),
                ),
                block_size,
                block_offset: ((image_addr + data_start - start_addr) / (block_size as int)) as nat,
                uuid: uuid_from_octets(sb.fs_id@),
            },
        )
    }
}

impl Volume {
    /// What holds of every opened volume.
    pub open spec fn wf(self) -> bool {
        &&& self.superblock.magic == EXT2_MAGIC
        &&& self.block_size == block_size_of(self.superblock.log_block_size)
        &&& forall|i: int|
            0 <= i < self.blocks.len() ==> (#[trigger] self.blocks[i]).len() == self.block_size
        &&& self.superblock.blocks_per_group > 0
        &&& self.block_groups.len() == group_count_of(self.superblock)
        &&& self.blocks.len() <= self.superblock.blocks_count
        &&& self.uuid == uuid_from_octets(self.superblock.fs_id@)
    }

    /// Whether the image holds the device block with number `b`.
    pub open spec fn holds_block(self, b: u32) -> bool {
        self.block_offset <= b < self.block_offset + self.blocks.len()
    }

    /// The device block with number `b`.
    pub open spec fn block(self, b: u32) -> Seq<u8> {
        self.blocks[b - self.block_offset]
    }

    /// The number of inode records in one block.
    pub open spec fn inodes_per_block(self) -> int {
        self.block_size as int / (INODE_SIZE as int)
    }

    /// The block group of inode `n`.
    pub open spec fn inode_group(self, n: int) -> int {
        (n - 1) / (self.superblock.inodes_per_group as int)
    }

    /// The place of inode `n` in the inode table of its group.
    pub open spec fn inode_index(self, n: int) -> int {
        (n - 1) % (self.superblock.inodes_per_group as int)
    }

    /// The number of the device block where the inode table of the group of
    /// inode `n` begins.
    pub open spec fn inode_table(self, n: int) -> u32 {
        self.block_groups[self.inode_group(n)].inode_table_block
    }

    /// The index in `blocks` of the block that holds inode `n`.
    pub open spec fn inode_block(self, n: int) -> int {
        self.inode_table(n) - self.block_offset + self.inode_index(n) / self.inodes_per_block()
    }

    /// The offset of inode `n` in its block.
    pub open spec fn inode_offset(self, n: int) -> int {
        (self.inode_index(n) % self.inodes_per_block()) * INODE_SIZE
    }

    /// The offset of inode `n` from the first byte of `blocks[0]`, the
    /// blocks taken as one contiguous region.
    pub open spec fn inode_position(self, n: int) -> int {
        self.inode_block(n) * self.block_size + self.inode_offset(n)
    }

    /// The byte at offset `at` from the first byte of `blocks[0]`, the blocks
    /// taken as one contiguous region.
    pub open spec fn region_byte(self, at: int) -> u8 {
        self.blocks[at / (self.block_size as int)][at % (self.block_size as int)]
    }

    /// Whether `n` is the number of an inode whose record the image holds:
    /// the numbers start at 1, the group has a descriptor, and the record
    /// lies in a block of the image.
    pub open spec fn has_inode(self, n: int) -> bool {
        &&& 1 <= n <= self.superblock.inodes_count
        &&& self.superblock.inodes_per_group > 0
        &&& self.inode_group(n) < self.block_groups.len()
        &&& self.block_offset <= self.inode_table(n)
        &&& self.inode_block(n) < self.blocks.len()
    }

    /// The record of inode `n`.
    pub open spec fn inode(self, n: int) -> Inode {
        Inode::decode(self.blocks[self.inode_block(n)], self.inode_offset(n))
    }

    /// All the blocks of the file with inode `n`, joined in the order of
    /// its pointers.
    pub open spec fn file_data(self, n: int) -> Gathered<u8> {
        if self.inode(n).is_directory() {
            Err(Ext2Error::IsADirectory)
        } else {
            walk_inode(self, file_leaf(), self.inode(n))
        }
    }

    /// The contents of the file with inode `n`: its blocks cut to the length
    /// that the inode records.
    pub open spec fn file_contents(self, n: int) -> Gathered<u8> {
        match self.file_data(n) {
            Ok(data) => Ok(data.take(min(data.len() as int, self.inode(n).byte_size() as int))),
            Err(e) => Err(e),
        }
    }

    /// The entries of the directory with inode `n`, in the order of its
    /// pointers and, in each block, of its records.
    pub open spec fn dir_entries(self, n: int) -> Result<DirItems, Ext2Error> {
        if !self.inode(n).is_directory() {
            Err(Ext2Error::NotADirectory)
        } else {
            walk_inode(self, dir_leaf(), self.inode(n))
        }
    }
}

} // verus!
