//! Read-only access to an ext2 volume held in memory as one byte region.
//!
//! [`Ext2::new`] splits the region into the superblock, the block group
//! descriptor table and a sequence of equally sized blocks, without copying
//! any block. [`Ext2::get_inode`] finds an inode through the descriptor
//! table; [`Ext2::read_file_inode`] and [`Ext2::read_dir_inode`] gather the
//! contents of a file or a directory by walking the direct and indirect
//! block pointers of its inode.
//!
//! Every function carries a contract over [`Volume`], the mathematical model
//! of an opened volume: what opening yields is [`volume::opened`], what a
//! read yields is [`Volume::file_data`] or [`Volume::dir_entries`]. The module
//! [`laws`] proves what follows from these for every volume.
//!
//! The module [`shell`] decides what an interactive shell on a volume does
//! on each line; a program around it reads the lines and prints the replies.

pub mod bytes;
pub mod dir;
pub mod error;
pub mod image;
pub mod laws;
pub mod layout;
pub mod reader;
pub mod shell;
pub mod volume;
pub mod walk;

pub use crate::error::Ext2Error;
pub use crate::image::Ext2;
pub use crate::layout::{BlockGroupDescriptor, DirectoryEntry, Inode, Superblock};
pub use crate::volume::Volume;
