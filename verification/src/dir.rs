//! The records of a directory block.

use crate::bytes::split_bytes;
use crate::error::Ext2Error;
use crate::layout::{DirectoryEntry, DIR_ENTRY_HEADER_SIZE};
use crate::walk::{chain, lemma_chain_step, Gathered};
use vstd::prelude::*;

verus! {

/// The entries of a directory as plain values: inode number and name.
pub type DirItems = Seq<(nat, Seq<u8>)>;

/// The entries that the records of `block` from offset `off` on hold.
///
/// A record with inode 0 ends the block. A record whose header does not fit
/// in the block, whose length is less than its header and name, or which
/// runs over the end of the block is malformed.
pub open spec fn entries_from(block: Seq<u8>, off: int) -> Gathered<(nat, Seq<u8>)>
    decreases block.len() - off,
{
    let entry = DirectoryEntry::decode(block, off);
    if off < 0 || off >= block.len() {
        Ok(Seq::empty())
    } else if off + 8 > block.len() {
        Err(Ext2Error::MalformedDirEntry)
    } else if entry.inode == 0 {
        Ok(Seq::empty())
    } else if entry.entry_size < 8 + entry.name_length || off + entry.entry_size > block.len() {
        Err(Ext2Error::MalformedDirEntry)
    } else {
        chain(
            Ok(seq![(entry.inode as nat, block.subrange(off + 8, off + 8 + entry.name_length))]),
            entries_from(block, off + entry.entry_size),
        )
    }
}

/// The entries that a directory block holds.
pub open spec fn block_entries(block: Seq<u8>) -> Gathered<(nat, Seq<u8>)> {
    entries_from(block, 0)
}

/// The leaf of a directory: the entries of the block.
pub open spec fn dir_leaf() -> spec_fn(Seq<u8>) -> Gathered<(nat, Seq<u8>)> {
    |block: Seq<u8>| block_entries(block)
}

/// Entries as they are handed out, as plain values.
pub open spec fn items_of(entries: Seq<(usize, &[u8])>) -> DirItems {
    Seq::new(entries.len(), |i: int| (entries[i].0 as nat, entries[i].1@))
}

/// The plain values of two runs of entries joined are those of each, joined.
pub proof fn lemma_items_of_join(first: Seq<(usize, &[u8])>, second: Seq<(usize, &[u8])>)
    ensures
        items_of(first + second) == items_of(first) + items_of(second),
        items_of(Seq::empty()) == Seq::<(nat, Seq<u8>)>::empty(),
{
}

/// The result of reading a directory, as plain values.
pub open spec fn listing_of(r: Result<Vec<(usize, &[u8])>, Ext2Error>) -> Result<
    DirItems,
    Ext2Error,
> {
    match r {
        Ok(entries) => Ok(items_of(entries@)),
        Err(e) => Err(e),
    }
}

/// Decodes the records of one directory block. The names are borrowed from
/// the block.
pub fn read_dir_block<'a>(block: &'a [u8]) -> (r: Result<Vec<(usize, &'a [u8])>, Ext2Error>)
    ensures
        listing_of(r) == block_entries(block@),
{
    let mut ret: Vec<(usize, &'a [u8])> = Vec::new();
    let mut off: usize = 0;
    while off < block.len()
        invariant
            block_entries(block@) == chain(Ok(items_of(ret@)), entries_from(block@, off as int)),
        decreases block.len() - off,
    {
        if block.len() - off < DIR_ENTRY_HEADER_SIZE {
            return Err(Ext2Error::MalformedDirEntry);
        }
        let entry = DirectoryEntry::read(block, off);
        if entry.inode == 0 {
            return Ok(ret);
        }
        let size: usize = entry.entry_size as usize;
        let name_length: usize = entry.name_length as usize;
        if size < DIR_ENTRY_HEADER_SIZE + name_length || size > block.len() - off {
            return Err(Ext2Error::MalformedDirEntry);
        }
        let name = split_bytes(split_bytes(block, off + DIR_ENTRY_HEADER_SIZE).1, name_length).0;
        proof {
            let item = (entry.inode as nat, block@.subrange(off + 8, off + 8 + name_length));
            assert(name@ =~= item.1);
            lemma_chain_step(
                items_of(ret@),
                Ok(seq![item]),
                entries_from(block@, off + size),
            );
            assert(items_of(ret@.push((entry.inode as usize, name))) =~= items_of(ret@)
                + seq![item]);
        }
        ret.push((entry.inode as usize, name));
        off = off + size;
    }
    Ok(ret)
}

} // verus!
