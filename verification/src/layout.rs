//! The records of the on-disk format: where each field lies and how it is
//! decoded. All multi-byte fields are little-endian.

use crate::bytes::{le_u16, le_u32, read_u16, read_u32};
use vstd::prelude::*;

verus! {

/// The magic number of an ext2 superblock.
pub const EXT2_MAGIC: u16 = 0xef53;

/// Offset of the superblock in the image; what lies before it is the boot area.
pub const EXT2_START_OF_SUPERBLOCK: usize = 1024;

/// Offset of the first byte behind the superblock.
pub const EXT2_END_OF_SUPERBLOCK: usize = 2048;

/// Bytes that the decoded part of the superblock covers.
pub const SUPERBLOCK_FIELDS_SIZE: usize = 120;

/// Size of one block group descriptor.
pub const GROUP_DESCRIPTOR_SIZE: usize = 32;

/// Size of one inode record.
pub const INODE_SIZE: usize = 128;

/// Size of the fixed part of a directory record; the name follows it.
pub const DIR_ENTRY_HEADER_SIZE: usize = 8;

/// Number of direct block pointers in an inode.
pub const DIRECT_POINTERS: usize = 12;

/// Mask of the file type in `type_perm`.
pub const TYPE_MASK: u16 = 0xf000;

/// File type: named pipe.
pub const FIFO: u16 = 0x1000;

/// File type: character device.
pub const CHAR_DEVICE: u16 = 0x2000;

/// File type: directory.
pub const DIRECTORY: u16 = 0x4000;

/// File type: block device.
pub const BLOCK_DEVICE: u16 = 0x6000;

/// File type: regular file.
pub const REGULAR_FILE: u16 = 0x8000;

/// File type: symbolic link.
pub const SYMLINK: u16 = 0xa000;

/// File type: socket.
pub const SOCKET: u16 = 0xc000;

/// Mask of the permission bits in `type_perm`.
pub const PERMISSION_MASK: u16 = 0x0fff;

/// The global header of the filesystem.
#[derive(Clone, Copy, Debug)]
pub struct Superblock {
    /// Number of inodes in the filesystem.
    pub inodes_count: u32,
    /// Number of blocks in the filesystem.
    pub blocks_count: u32,
    /// Number of blocks kept back for the superuser.
    pub r_blocks_count: u32,
    /// Number of blocks not in use.
    pub free_blocks_count: u32,
    /// Number of inodes not in use.
    pub free_inodes_count: u32,
    /// Number of the block that holds the superblock.
    pub first_data_block: u32,
    /// The block size is 1024 shifted left by this.
    pub log_block_size: u32,
    /// The fragment size is 1024 shifted left by this.
    pub log_frag_size: u32,
    /// Number of blocks in each block group.
    pub blocks_per_group: u32,
    /// Number of fragments in each block group.
    pub frags_per_group: u32,
    /// Number of inodes in each block group.
    pub inodes_per_group: u32,
    /// Time of the last mount.
    pub mtime: u32,
    /// Time of the last write.
    pub wtime: u32,
    /// Mounts since the last run of fsck.
    pub mnt_count: u16,
    /// Mounts allowed between runs of fsck.
    pub max_mnt_count: u16,
    /// The magic number, [`EXT2_MAGIC`].
    pub magic: u16,
    /// Whether the filesystem is clean.
    pub state: u16,
    /// What to do when an error is found.
    pub errors: u16,
    /// Minor part of the revision.
    pub minor_rev_level: u16,
    /// Time of the last run of fsck.
    pub lastcheck: u32,
    /// Time allowed between runs of fsck.
    pub checkinterval: u32,
    /// The operating system that made the filesystem.
    pub creator_os: u32,
    /// Major part of the revision.
    pub rev_level: u32,
    /// User that may use the blocks kept back.
    pub def_resuid: u16,
    /// Group that may use the blocks kept back.
    pub def_resgid: u16,
    /// First inode that is not reserved.
    pub first_ino: u32,
    /// Size of an inode record as the superblock gives it.
    pub inode_size: u16,
    /// Block group of this copy of the superblock.
    pub block_group_nr: u16,
    /// Features that a reader may ignore.
    pub features_opt: u32,
    /// Features that a reader must support.
    pub features_req: u32,
    /// Features without which the filesystem is read-only.
    pub features_ro: u32,
    /// The identifier of the filesystem, sixteen raw bytes.
    pub fs_id: [u8; 16],
}

impl Superblock {
    /// The superblock whose first byte is `s[at]`.
    pub open spec fn decode(s: Seq<u8>, at: int) -> Superblock {
        Superblock {
            inodes_count: le_u32(s, at),
            blocks_count: le_u32(s, at + 4),
            r_blocks_count: le_u32(s, at + 8),
            free_blocks_count: le_u32(s, at + 12),
            free_inodes_count: le_u32(s, at + 16),
            first_data_block: le_u32(s, at + 20),
            log_block_size: le_u32(s, at + 24),
            log_frag_size: le_u32(s, at + 28),
            blocks_per_group: le_u32(s, at + 32),
            frags_per_group: le_u32(s, at + 36),
            inodes_per_group: le_u32(s, at + 40),
            mtime: le_u32(s, at + 44),
            wtime: le_u32(s, at + 48),
            mnt_count: le_u16(s, at + 52),
            max_mnt_count: le_u16(s, at + 54),
            magic: le_u16(s, at + 56),
            state: le_u16(s, at + 58),
            errors: le_u16(s, at + 60),
            minor_rev_level: le_u16(s, at + 62),
            lastcheck: le_u32(s, at + 64),
            checkinterval: le_u32(s, at + 68),
            creator_os: le_u32(s, at + 72),
            rev_level: le_u32(s, at + 76),
            def_resuid: le_u16(s, at + 80),
            def_resgid: le_u16(s, at + 82),
            first_ino: le_u32(s, at + 84),
            inode_size: le_u16(s, at + 88),
            block_group_nr: le_u16(s, at + 90),
            features_opt: le_u32(s, at + 92),
            features_req: le_u32(s, at + 96),
            features_ro: le_u32(s, at + 100),
            fs_id: [
                s[at + 104],
                s[at + 105],
                s[at + 106],
                s[at + 107],
                s[at + 108],
                s[at + 109],
                s[at + 110],
                s[at + 111],
                s[at + 112],
                s[at + 113],
                s[at + 114],
                s[at + 115],
                s[at + 116],
                s[at + 117],
                s[at + 118],
                s[at + 119],
            ],
        }
    }

    /// Decodes the superblock that starts at `at`.
    pub(crate) fn read(bytes: &[u8], at: usize) -> (sb: Superblock)
        requires
            at + SUPERBLOCK_FIELDS_SIZE <= bytes.len(),
        ensures
            sb == Superblock::decode(bytes@, at as int),
    {
        Superblock {
            inodes_count: read_u32(bytes, at),
            blocks_count: read_u32(bytes, at + 4),
            r_blocks_count: read_u32(bytes, at + 8),
            free_blocks_count: read_u32(bytes, at + 12),
            free_inodes_count: read_u32(bytes, at + 16),
            first_data_block: read_u32(bytes, at + 20),
            log_block_size: read_u32(bytes, at + 24),
            log_frag_size: read_u32(bytes, at + 28),
            blocks_per_group: read_u32(bytes, at + 32),
            frags_per_group: read_u32(bytes, at + 36),
            inodes_per_group: read_u32(bytes, at + 40),
            mtime: read_u32(bytes, at + 44),
            wtime: read_u32(bytes, at + 48),
            mnt_count: read_u16(bytes, at + 52),
            max_mnt_count: read_u16(bytes, at + 54),
            magic: read_u16(bytes, at + 56),
            state: read_u16(bytes, at + 58),
            errors: read_u16(bytes, at + 60),
            minor_rev_level: read_u16(bytes, at + 62),
            lastcheck: read_u32(bytes, at + 64),
            checkinterval: read_u32(bytes, at + 68),
            creator_os: read_u32(bytes, at + 72),
            rev_level: read_u32(bytes, at + 76),
            def_resuid: read_u16(bytes, at + 80),
            def_resgid: read_u16(bytes, at + 82),
            first_ino: read_u32(bytes, at + 84),
            inode_size: read_u16(bytes, at + 88),
            block_group_nr: read_u16(bytes, at + 90),
            features_opt: read_u32(bytes, at + 92),
            features_req: read_u32(bytes, at + 96),
            features_ro: read_u32(bytes, at + 100),
            fs_id: [
                bytes[at + 104],
                bytes[at + 105],
                bytes[at + 106],
                bytes[at + 107],
                bytes[at + 108],
                bytes[at + 109],
                bytes[at + 110],
                bytes[at + 111],
                bytes[at + 112],
                bytes[at + 113],
                bytes[at + 114],
                bytes[at + 115],
                bytes[at + 116],
                bytes[at + 117],
                bytes[at + 118],
                bytes[at + 119],
            ],
        }
    }

    /// Decodes the superblock that starts at `at`, if `bytes` holds all of it.
    pub fn parse(bytes: &[u8], at: usize) -> (r: Option<Superblock>)
        ensures
            r == if at + SUPERBLOCK_FIELDS_SIZE <= bytes.len() {
                Some(Superblock::decode(bytes@, at as int))
            } else {
                None
            },
    {
        if bytes.len() < SUPERBLOCK_FIELDS_SIZE || at > bytes.len() - SUPERBLOCK_FIELDS_SIZE {
            None
        } else {
            Some(Superblock::read(bytes, at))
        }
    }
}

/// The bookkeeping of one block group.
#[derive(Clone, Copy, Debug)]
pub struct BlockGroupDescriptor {
    /// Number of the block that holds the block usage bitmap.
    pub block_usage_addr: u32,
    /// Number of the block that holds the inode usage bitmap.
    pub inode_usage_addr: u32,
    /// Number of the block where the inode table begins.
    pub inode_table_block: u32,
    /// Number of blocks of the group not in use.
    pub free_blocks_count: u16,
    /// Number of inodes of the group not in use.
    pub free_inodes_count: u16,
    /// Number of directories in the group.
    pub dirs_count: u16,
}

impl BlockGroupDescriptor {
    /// The descriptor whose first byte is `s[at]`.
    pub open spec fn decode(s: Seq<u8>, at: int) -> BlockGroupDescriptor {
        BlockGroupDescriptor {
            block_usage_addr: le_u32(s, at),
            inode_usage_addr: le_u32(s, at + 4),
            inode_table_block: le_u32(s, at + 8),
            free_blocks_count: le_u16(s, at + 12),
            free_inodes_count: le_u16(s, at + 14),
            dirs_count: le_u16(s, at + 16),
        }
    }

    /// Decodes the descriptor that starts at `at`.
    pub(crate) fn read(bytes: &[u8], at: usize) -> (d: BlockGroupDescriptor)
        requires
            at + GROUP_DESCRIPTOR_SIZE <= bytes.len(),
        ensures
            d == BlockGroupDescriptor::decode(bytes@, at as int),
    {
        BlockGroupDescriptor {
            block_usage_addr: read_u32(bytes, at),
            inode_usage_addr: read_u32(bytes, at + 4),
            inode_table_block: read_u32(bytes, at + 8),
            free_blocks_count: read_u16(bytes, at + 12),
            free_inodes_count: read_u16(bytes, at + 14),
            dirs_count: read_u16(bytes, at + 16),
        }
    }

    /// Decodes the descriptor that starts at `at`, if `bytes` holds all of it.
    pub fn parse(bytes: &[u8], at: usize) -> (r: Option<BlockGroupDescriptor>)
        ensures
            r == if at + GROUP_DESCRIPTOR_SIZE <= bytes.len() {
                Some(BlockGroupDescriptor::decode(bytes@, at as int))
            } else {
                None
            },
    {
        if bytes.len() < GROUP_DESCRIPTOR_SIZE || at > bytes.len() - GROUP_DESCRIPTOR_SIZE {
            None
        } else {
            Some(BlockGroupDescriptor::read(bytes, at))
        }
    }
}

/// The record of one filesystem object.
#[derive(Clone, Copy, Debug)]
pub struct Inode {
    /// File type in the upper four bits, permissions in the lower twelve.
    pub type_perm: u16,
    /// Owner.
    pub uid: u16,
    /// Lower 32 bits of the size in bytes.
    pub size_low: u32,
    /// Time of the last access.
    pub atime: u32,
    /// Time of creation.
    pub ctime: u32,
    /// Time of the last modification.
    pub mtime: u32,
    /// Time of deletion.
    pub dtime: u32,
    /// Group.
    pub gid: u16,
    /// Number of directory entries that name this inode.
    pub hard_links: u16,
    /// Number of disk sectors in use.
    pub sectors_count: u32,
    /// Flags.
    pub flags: u32,
    /// Left to the operating system.
    pub os_specific_1: u32,
    /// Numbers of the first twelve data blocks.
    pub direct_pointer: [u32; 12],
    /// Number of a block of pointers to data blocks.
    pub indirect_pointer: u32,
    /// Number of a block of pointers to blocks of pointers to data blocks.
    pub doubly_indirect: u32,
    /// Number of a block of pointers with two more levels below it.
    pub triply_indirect: u32,
    /// Generation number.
    pub gen_number: u32,
    /// Block of extended attributes.
    pub ext_attribute_block: u32,
    /// Upper 32 bits of the size in bytes.
    pub size_high: u32,
    /// Block of the fragment.
    pub frag_block_addr: u32,
    /// Left to the operating system.
    pub os_specific_2: [u8; 12],
}

impl Inode {
    /// The inode whose first byte is `s[at]`.
    pub open spec fn decode(s: Seq<u8>, at: int) -> Inode {
        Inode {
            type_perm: le_u16(s, at),
            uid: le_u16(s, at + 2),
            size_low: le_u32(s, at + 4),
            atime: le_u32(s, at + 8),
            ctime: le_u32(s, at + 12),
            mtime: le_u32(s, at + 16),
            dtime: le_u32(s, at + 20),
            gid: le_u16(s, at + 24),
            hard_links: le_u16(s, at + 26),
            sectors_count: le_u32(s, at + 28),
            flags: le_u32(s, at + 32),
            os_specific_1: le_u32(s, at + 36),
            direct_pointer: [
                le_u32(s, at + 40),
                le_u32(s, at + 44),
                le_u32(s, at + 48),
                le_u32(s, at + 52),
                le_u32(s, at + 56),
                le_u32(s, at + 60),
                le_u32(s, at + 64),
                le_u32(s, at + 68),
                le_u32(s, at + 72),
                le_u32(s, at + 76),
                le_u32(s, at + 80),
                le_u32(s, at + 84),
            ],
            indirect_pointer: le_u32(s, at + 88),
            doubly_indirect: le_u32(s, at + 92),
            triply_indirect: le_u32(s, at + 96),
            gen_number: le_u32(s, at + 100),
            ext_attribute_block: le_u32(s, at + 104),
            size_high: le_u32(s, at + 108),
            frag_block_addr: le_u32(s, at + 112),
            os_specific_2: [
                s[at + 116],
                s[at + 117],
                s[at + 118],
                s[at + 119],
                s[at + 120],
                s[at + 121],
                s[at + 122],
                s[at + 123],
                s[at + 124],
                s[at + 125],
                s[at + 126],
                s[at + 127],
            ],
        }
    }

    /// Decodes the inode that starts at `at`.
    pub(crate) fn read(bytes: &[u8], at: usize) -> (inode: Inode)
        requires
            at + INODE_SIZE <= bytes.len(),
        ensures
            inode == Inode::decode(bytes@, at as int),
    {
        Inode {
            type_perm: read_u16(bytes, at),
            uid: read_u16(bytes, at + 2),
            size_low: read_u32(bytes, at + 4),
            atime: read_u32(bytes, at + 8),
            ctime: read_u32(bytes, at + 12),
            mtime: read_u32(bytes, at + 16),
            dtime: read_u32(bytes, at + 20),
            gid: read_u16(bytes, at + 24),
            hard_links: read_u16(bytes, at + 26),
            sectors_count: read_u32(bytes, at + 28),
            flags: read_u32(bytes, at + 32),
            os_specific_1: read_u32(bytes, at + 36),
            direct_pointer: [
                read_u32(bytes, at + 40),
                read_u32(bytes, at + 44),
                read_u32(bytes, at + 48),
                read_u32(bytes, at + 52),
                read_u32(bytes, at + 56),
                read_u32(bytes, at + 60),
                read_u32(bytes, at + 64),
                read_u32(bytes, at + 68),
                read_u32(bytes, at + 72),
                read_u32(bytes, at + 76),
                read_u32(bytes, at + 80),
                read_u32(bytes, at + 84),
            ],
            indirect_pointer: read_u32(bytes, at + 88),
            doubly_indirect: read_u32(bytes, at + 92),
            triply_indirect: read_u32(bytes, at + 96),
            gen_number: read_u32(bytes, at + 100),
            ext_attribute_block: read_u32(bytes, at + 104),
            size_high: read_u32(bytes, at + 108),
            frag_block_addr: read_u32(bytes, at + 112),
            os_specific_2: [
                bytes[at + 116],
                bytes[at + 117],
                bytes[at + 118],
                bytes[at + 119],
                bytes[at + 120],
                bytes[at + 121],
                bytes[at + 122],
                bytes[at + 123],
                bytes[at + 124],
                bytes[at + 125],
                bytes[at + 126],
                bytes[at + 127],
            ],
        }
    }

    /// Decodes the inode that starts at `at`, if `bytes` holds all of it.
    pub fn parse(bytes: &[u8], at: usize) -> (r: Option<Inode>)
        ensures
            r == if at + INODE_SIZE <= bytes.len() {
                Some(Inode::decode(bytes@, at as int))
            } else {
                None
            },
    {
        if bytes.len() < INODE_SIZE || at > bytes.len() - INODE_SIZE {
            None
        } else {
            Some(Inode::read(bytes, at))
        }
    }

    /// Whether the file type in `type_perm` is that of a directory.
    pub open spec fn spec_is_directory(&self) -> bool {
        self.type_perm & TYPE_MASK == DIRECTORY
    }

    /// Whether the file type in `type_perm` is that of a directory.
    #[verifier::when_used_as_spec(spec_is_directory)]
    pub fn is_directory(&self) -> (b: bool)
        ensures
            b == self.spec_is_directory(),
    {
        self.type_perm & TYPE_MASK == DIRECTORY
    }

    /// The length of the object in bytes: `size_low` holds the lower 32 bits
    /// and `size_high` the upper 32.
    pub open spec fn byte_size(&self) -> nat {
        (self.size_low as nat) + 0x1_0000_0000 * (self.size_high as nat)
    }

    /// The length of the object in bytes.
    pub fn size(&self) -> (n: u64)
        ensures
            n == self.byte_size(),
            n == (self.size_low as u64) | ((self.size_high as u64) << 32),
    {
        let low: u64 = self.size_low as u64;
        let high: u64 = self.size_high as u64;
        assert(low + 0x1_0000_0000 * high == low | (high << 32)) by (bit_vector)
            requires
                low <= 0xffff_ffff,
                high <= 0xffff_ffff,
        ;
        low + 0x1_0000_0000 * high
    }
}

/// The fixed part of a directory record. The name, `name_length` bytes of
/// it, follows the header; `entry_size` counts header, name and padding.
#[derive(Clone, Copy, Debug)]
pub struct DirectoryEntry {
    /// Number of the inode that the record names; 0 marks a record not in use.
    pub inode: u32,
    /// Length of the whole record.
    pub entry_size: u16,
    /// Length of the name.
    pub name_length: u8,
    /// Kind of the object named.
    pub type_indicator: u8,
}

impl DirectoryEntry {
    /// The header whose first byte is `s[at]`.
    pub open spec fn decode(s: Seq<u8>, at: int) -> DirectoryEntry {
        DirectoryEntry {
            inode: le_u32(s, at),
            entry_size: le_u16(s, at + 4),
            name_length: s[at + 6],
            type_indicator: s[at + 7],
        }
    }

    /// Decodes the header that starts at `at`.
    pub(crate) fn read(bytes: &[u8], at: usize) -> (entry: DirectoryEntry)
        requires
            at + DIR_ENTRY_HEADER_SIZE <= bytes.len(),
        ensures
            entry == DirectoryEntry::decode(bytes@, at as int),
    {
        DirectoryEntry {
            inode: read_u32(bytes, at),
            entry_size: read_u16(bytes, at + 4),
            name_length: bytes[at + 6],
            type_indicator: bytes[at + 7],
        }
    }

    /// Decodes the header that starts at `at`, if `bytes` holds all of it.
    pub fn parse(bytes: &[u8], at: usize) -> (r: Option<DirectoryEntry>)
        ensures
            r == if at + DIR_ENTRY_HEADER_SIZE <= bytes.len() {
                Some(DirectoryEntry::decode(bytes@, at as int))
            } else {
                None
            },
    {
        if bytes.len() < DIR_ENTRY_HEADER_SIZE || at > bytes.len() - DIR_ENTRY_HEADER_SIZE {
            None
        } else {
            Some(DirectoryEntry::read(bytes, at))
        }
    }
}

} // verus!
