//! The ways in which opening or reading a volume can fail.

use vstd::prelude::*;

verus! {

/// Why a volume could not be opened or an inode could not be read.
#[derive(Clone, Copy, Debug, PartialEq, Eq, Structural)]
pub enum Ext2Error {
    /// The superblock does not carry the ext2 magic number.
    BadMagic,
    /// The byte region is too short for the layout that its superblock
    /// describes, or the superblock describes no layout at all.
    InvalidLayout,
    /// The base address of the device lies behind the first block of the image.
    BadBaseAddress,
    /// A block pointer refers to a block that the image does not hold.
    BlockOutOfRange,
    /// A directory record is shorter than its own name or runs over the end
    /// of its block.
    MalformedDirEntry,
    /// A directory was asked for, and the inode is something else.
    NotADirectory,
    /// File contents were asked for, and the inode is a directory.
    IsADirectory,
}

} // verus!
