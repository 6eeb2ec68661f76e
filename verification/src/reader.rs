//! Reading files and directories: the walk over the block pointers of an
//! inode, in the order in which the blocks make up the object.

use crate::bytes::read_u32;
use crate::dir::{dir_leaf, items_of, lemma_items_of_join, listing_of, read_dir_block};
use crate::error::Ext2Error;
use crate::image::Ext2;
use crate::layout::DIRECT_POINTERS;
use crate::walk::{
    chain, file_leaf, lemma_chain_step, pointers_of, walk_inode_from, walk_pointer, walk_slots,
    Gathered,
};
use vstd::math::min;
use vstd::prelude::*;

verus! {

/// File data as it is handed out, as plain values.
pub open spec fn data_of(r: Result<Vec<u8>, Ext2Error>) -> Gathered<u8> {
    match r {
        Ok(data) => Ok(data@),
        Err(e) => Err(e),
    }
}

/// Appends the bytes of `block` to `out`.
fn extend_bytes(out: &mut Vec<u8>, block: &[u8])
    ensures
        final(out)@ == old(out)@ + block@,
{
    out.extend_from_slice(block);
}

impl<'a> Ext2<'a> {
    /// The data blocks that the pointers of the pointer array `block_num`
    /// name, joined.
    fn read_file_indir_ptr(&self, block_num: u32) -> (r: Result<Vec<u8>, Ext2Error>)
        ensures
            data_of(r) == walk_pointer(self@, file_leaf(), 1, block_num),
    {
        let indir_block = match self.block_at(block_num) {
            Ok(block) => block,
            Err(e) => {
                return Err(e);
            },
        };
        let slots: usize = indir_block.len() / 4;
        let ghost pointers = pointers_of(indir_block@);
        let mut ret: Vec<u8> = Vec::new();
        let mut k: usize = 0;
        while k < slots
            invariant
                k <= slots,
                slots == indir_block.len() / 4,
                pointers == pointers_of(indir_block@),
                walk_pointer(self@, file_leaf(), 1, block_num) == chain(
                    Ok(ret@),
                    walk_slots(self@, file_leaf(), 0, pointers, k as int),
                ),
            decreases slots - k,
        {
            let dir_block_num = read_u32(indir_block, 4 * k);
            proof {
                lemma_chain_step(
                    ret@,
                    walk_pointer(self@, file_leaf(), 0, dir_block_num),
                    walk_slots(self@, file_leaf(), 0, pointers, k + 1),
                );
            }
            if dir_block_num == 0 {
                return Ok(ret);
            }
            let data = match self.block_at(dir_block_num) {
                Ok(block) => block,
                Err(e) => {
                    return Err(e);
                },
            };
            extend_bytes(&mut ret, data);
            k = k + 1;
        }
        Ok(ret)
    }

    /// The data blocks below the pointer array `block_num`, whose pointers name
    /// pointer arrays of data blocks.
    fn read_file_doubly_ptr(&self, block_num: u32) -> (r: Result<Vec<u8>, Ext2Error>)
        ensures
            data_of(r) == walk_pointer(self@, file_leaf(), 2, block_num),
    {
        let doub_block = match self.block_at(block_num) {
            Ok(block) => block,
            Err(e) => {
                return Err(e);
            },
        };
        let slots: usize = doub_block.len() / 4;
        let ghost pointers = pointers_of(doub_block@);
        let mut ret: Vec<u8> = Vec::new();
        let mut k: usize = 0;
        while k < slots
            invariant
                k <= slots,
                slots == doub_block.len() / 4,
                pointers == pointers_of(doub_block@),
                walk_pointer(self@, file_leaf(), 2, block_num) == chain(
                    Ok(ret@),
                    walk_slots(self@, file_leaf(), 1, pointers, k as int),
                ),
            decreases slots - k,
        {
            let next_block_num = read_u32(doub_block, 4 * k);
            proof {
                lemma_chain_step(
                    ret@,
                    walk_pointer(self@, file_leaf(), 1, next_block_num),
                    walk_slots(self@, file_leaf(), 1, pointers, k + 1),
                );
            }
            if next_block_num == 0 {
                return Ok(ret);
            }
            let mut data = match self.read_file_indir_ptr(next_block_num) {
                Ok(data) => data,
                Err(e) => {
                    return Err(e);
                },
            };
            ret.append(&mut data);
            k = k + 1;
        }
        Ok(ret)
    }

    /// The data blocks below the pointer array `block_num`, with two more levels
    /// of pointer arrays between it and the data blocks.
    fn read_file_triply_ptr(&self, block_num: u32) -> (r: Result<Vec<u8>, Ext2Error>)
        ensures
            data_of(r) == walk_pointer(self@, file_leaf(), 3, block_num),
    {
        let triply_indir_block = match self.block_at(block_num) {
            Ok(block) => block,
            Err(e) => {
                return Err(e);
            },
        };
        let slots: usize = triply_indir_block.len() / 4;
        let ghost pointers = pointers_of(triply_indir_block@);
        let mut ret: Vec<u8> = Vec::new();
        let mut k: usize = 0;
        while k < slots
            invariant
                k <= slots,
                slots == triply_indir_block.len() / 4,
                pointers == pointers_of(triply_indir_block@),
                walk_pointer(self@, file_leaf(), 3, block_num) == chain(
                    Ok(ret@),
                    walk_slots(self@, file_leaf(), 2, pointers, k as int),
                ),
            decreases slots - k,
        {
            let next_block_num = read_u32(triply_indir_block, 4 * k);
            proof {
                lemma_chain_step(
                    ret@,
                    walk_pointer(self@, file_leaf(), 2, next_block_num),
                    walk_slots(self@, file_leaf(), 2, pointers, k + 1),
                );
            }
            if next_block_num == 0 {
                return Ok(ret);
            }
            let mut data = match self.read_file_doubly_ptr(next_block_num) {
                Ok(data) => data,
                Err(e) => {
                    return Err(e);
                },
            };
            ret.append(&mut data);
            k = k + 1;
        }
        Ok(ret)
    }

    /// All the blocks of the file with inode `inode`, joined: first those of
    /// the twelve direct pointers, then those below the pointer with one
    /// level of indirection, with two, with three. The first pointer that is
    /// zero ends the file. The last block is not cut to the length of the
    /// file; [`Ext2::read_file_contents`] does that.
    pub fn read_file_inode(&self, inode: usize) -> (r: Result<Vec<u8>, Ext2Error>)
        requires
            self@.has_inode(inode as int),
        ensures
            data_of(r) == self@.file_data(inode as int),
    {
        let root = self.get_inode(inode);
        if root.is_directory() {
            return Err(Ext2Error::IsADirectory);
        }
        let mut ret: Vec<u8> = Vec::new();
        let mut k: usize = 0;
        while k < DIRECT_POINTERS
            invariant
                k <= DIRECT_POINTERS,
                self@.file_data(inode as int) == chain(
                    Ok(ret@),
                    walk_inode_from(self@, file_leaf(), root, k as int),
                ),
            decreases DIRECT_POINTERS - k,
        {
            let block_num = root.direct_pointer[k];
            proof {
                lemma_chain_step(
                    ret@,
                    walk_pointer(self@, file_leaf(), 0, block_num),
                    walk_inode_from(self@, file_leaf(), root, k + 1),
                );
            }
            if block_num == 0 {
                return Ok(ret);
            }
            let data = match self.block_at(block_num) {
                Ok(block) => block,
                Err(e) => {
                    return Err(e);
                },
            };
            extend_bytes(&mut ret, data);
            k = k + 1;
        }

        let indirect_ptr = root.indirect_pointer;
        proof {
            lemma_chain_step(
                ret@,
                walk_pointer(self@, file_leaf(), 1, indirect_ptr),
                walk_inode_from(self@, file_leaf(), root, 13),
            );
        }
        if indirect_ptr == 0 {
            return Ok(ret);
        }
        let mut data = match self.read_file_indir_ptr(indirect_ptr) {
            Ok(data) => data,
            Err(e) => {
                return Err(e);
            },
        };
        ret.append(&mut data);

        let doub_indir_ptr = root.doubly_indirect;
        proof {
            lemma_chain_step(
                ret@,
                walk_pointer(self@, file_leaf(), 2, doub_indir_ptr),
                walk_inode_from(self@, file_leaf(), root, 14),
            );
        }
        if doub_indir_ptr == 0 {
            return Ok(ret);
        }
        let mut data = match self.read_file_doubly_ptr(doub_indir_ptr) {
            Ok(data) => data,
            Err(e) => {
                return Err(e);
            },
        };
        ret.append(&mut data);

        let triply_indir_ptr = root.triply_indirect;
        proof {
            lemma_chain_step(
                ret@,
                walk_pointer(self@, file_leaf(), 3, triply_indir_ptr),
                walk_inode_from(self@, file_leaf(), root, 15),
            );
        }
        if triply_indir_ptr == 0 {
            return Ok(ret);
        }
        let mut data = match self.read_file_triply_ptr(triply_indir_ptr) {
            Ok(data) => data,
            Err(e) => {
                return Err(e);
            },
        };
        ret.append(&mut data);
        Ok(ret)
    }

    /// The contents of the file with inode `inode`: its blocks, cut to the
    /// length that the inode records.
    pub fn read_file_contents(&self, inode: usize) -> (r: Result<Vec<u8>, Ext2Error>)
        requires
            self@.has_inode(inode as int),
        ensures
            data_of(r) == self@.file_contents(inode as int),
    {
        let size = self.get_inode(inode).size();
        let mut data = match self.read_file_inode(inode) {
            Ok(data) => data,
            Err(e) => {
                return Err(e);
            },
        };
        if size < data.len() as u64 {
            data.truncate(size as usize);
        }
        assert(data@ =~= self@.file_data(inode as int)->Ok_0.take(
            min(
                self@.file_data(inode as int)->Ok_0.len() as int,
                self@.inode(inode as int).byte_size() as int,
            ),
        ));
        Ok(data)
    }

    /// The entries of the data block `block_num` of a directory.
    fn read_dir_block_ptr(&self, block_num: u32) -> (r: Result<Vec<(usize, &'a [u8])>, Ext2Error>)
        ensures
            listing_of(r) == walk_pointer(self@, dir_leaf(), 0, block_num),
    {
        match self.block_at(block_num) {
            Ok(block) => read_dir_block(block),
            Err(e) => Err(e),
        }
    }

    /// The entries of the directory blocks that the pointers of the pointer
    /// array `block_num` name.
    fn read_dir_indir_ptr(&self, block_num: u32) -> (r: Result<Vec<(usize, &'a [u8])>, Ext2Error>)
        ensures
            listing_of(r) == walk_pointer(self@, dir_leaf(), 1, block_num),
    {
        let indir_block = match self.block_at(block_num) {
            Ok(block) => block,
            Err(e) => {
                return Err(e);
            },
        };
        let slots: usize = indir_block.len() / 4;
        let ghost pointers = pointers_of(indir_block@);
        let mut ret: Vec<(usize, &'a [u8])> = Vec::new();
        let mut k: usize = 0;
        while k < slots
            invariant
                k <= slots,
                slots == indir_block.len() / 4,
                pointers == pointers_of(indir_block@),
                walk_pointer(self@, dir_leaf(), 1, block_num) == chain(
                    Ok(items_of(ret@)),
                    walk_slots(self@, dir_leaf(), 0, pointers, k as int),
                ),
            decreases slots - k,
        {
            let next_block_num = read_u32(indir_block, 4 * k);
            proof {
                lemma_chain_step(
                    items_of(ret@),
                    walk_pointer(self@, dir_leaf(), 0, next_block_num),
                    walk_slots(self@, dir_leaf(), 0, pointers, k + 1),
                );
            }
            if next_block_num == 0 {
                return Ok(ret);
            }
            let mut entries = match self.read_dir_block_ptr(next_block_num) {
                Ok(entries) => entries,
                Err(e) => {
                    return Err(e);
                },
            };
            proof {
                lemma_items_of_join(ret@, entries@);
            }
            ret.append(&mut entries);
            k = k + 1;
        }
        Ok(ret)
    }

    /// The entries of the directory blocks below the pointer array `block_num`,
    /// whose pointers name pointer arrays of directory blocks.
    fn read_dir_doubly_ptr(&self, block_num: u32) -> (r: Result<Vec<(usize, &'a [u8])>, Ext2Error>)
        ensures
            listing_of(r) == walk_pointer(self@, dir_leaf(), 2, block_num),
    {
        let doub_block = match self.block_at(block_num) {
            Ok(block) => block,
            Err(e) => {
                return Err(e);
            },
        };
        let slots: usize = doub_block.len() / 4;
        let ghost pointers = pointers_of(doub_block@);
        let mut ret: Vec<(usize, &'a [u8])> = Vec::new();
        let mut k: usize = 0;
        while k < slots
            invariant
                k <= slots,
                slots == doub_block.len() / 4,
                pointers == pointers_of(doub_block@),
                walk_pointer(self@, dir_leaf(), 2, block_num) == chain(
                    Ok(items_of(ret@)),
                    walk_slots(self@, dir_leaf(), 1, pointers, k as int),
                ),
            decreases slots - k,
        {
            let next_block_num = read_u32(doub_block, 4 * k);
            proof {
                lemma_chain_step(
                    items_of(ret@),
                    walk_pointer(self@, dir_leaf(), 1, next_block_num),
                    walk_slots(self@, dir_leaf(), 1, pointers, k + 1),
                );
            }
            if next_block_num == 0 {
                return Ok(ret);
            }
            let mut entries = match self.read_dir_indir_ptr(next_block_num) {
                Ok(entries) => entries,
                Err(e) => {
                    return Err(e);
                },
            };
            proof {
                lemma_items_of_join(ret@, entries@);
            }
            ret.append(&mut entries);
            k = k + 1;
        }
        Ok(ret)
    }

    /// The entries of the directory blocks below the pointer array `block_num`,
    /// with two more levels of pointer arrays between it and the blocks.
    fn read_dir_triply_ptr(&self, block_num: u32) -> (r: Result<Vec<(usize, &'a [u8])>, Ext2Error>)
        ensures
            listing_of(r) == walk_pointer(self@, dir_leaf(), 3, block_num),
    {
        let triply_indir_block = match self.block_at(block_num) {
            Ok(block) => block,
            Err(e) => {
                return Err(e);
            },
        };
        let slots: usize = triply_indir_block.len() / 4;
        let ghost pointers = pointers_of(triply_indir_block@);
        let mut ret: Vec<(usize, &'a [u8])> = Vec::new();
        let mut k: usize = 0;
        while k < slots
            invariant
                k <= slots,
                slots == triply_indir_block.len() / 4,
                pointers == pointers_of(triply_indir_block@),
                walk_pointer(self@, dir_leaf(), 3, block_num) == chain(
                    Ok(items_of(ret@)),
                    walk_slots(self@, dir_leaf(), 2, pointers, k as int),
                ),
            decreases slots - k,
        {
            let next_block_num = read_u32(triply_indir_block, 4 * k);
            proof {
                lemma_chain_step(
                    items_of(ret@),
                    walk_pointer(self@, dir_leaf(), 2, next_block_num),
                    walk_slots(self@, dir_leaf(), 2, pointers, k + 1),
                );
            }
            if next_block_num == 0 {
                return Ok(ret);
            }
            let mut entries = match self.read_dir_doubly_ptr(next_block_num) {
                Ok(entries) => entries,
                Err(e) => {
                    return Err(e);
                },
            };
            proof {
                lemma_items_of_join(ret@, entries@);
            }
            ret.append(&mut entries);
            k = k + 1;
        }
        Ok(ret)
    }

    /// The entries of the directory with inode `inode`, each with its inode
    /// number and its name, in the order of the pointers of the inode and, in
    /// each block, of its records. The names are borrowed from the image.
    pub fn read_dir_inode(&self, inode: usize) -> (r: Result<Vec<(usize, &'a [u8])>, Ext2Error>)
        requires
            self@.has_inode(inode as int),
        ensures
            listing_of(r) == self@.dir_entries(inode as int),
    {
        let root = self.get_inode(inode);
        if !root.is_directory() {
            return Err(Ext2Error::NotADirectory);
        }
        let mut ret: Vec<(usize, &'a [u8])> = Vec::new();
        let mut k: usize = 0;
        while k < DIRECT_POINTERS
            invariant
                k <= DIRECT_POINTERS,
                self@.dir_entries(inode as int) == chain(
                    Ok(items_of(ret@)),
                    walk_inode_from(self@, dir_leaf(), root, k as int),
                ),
            decreases DIRECT_POINTERS - k,
        {
            let block_num = root.direct_pointer[k];
            proof {
                lemma_chain_step(
                    items_of(ret@),
                    walk_pointer(self@, dir_leaf(), 0, block_num),
                    walk_inode_from(self@, dir_leaf(), root, k + 1),
                );
            }
            if block_num == 0 {
                return Ok(ret);
            }
            let mut entries = match self.read_dir_block_ptr(block_num) {
                Ok(entries) => entries,
                Err(e) => {
                    return Err(e);
                },
            };
            proof {
                lemma_items_of_join(ret@, entries@);
            }
            ret.append(&mut entries);
            k = k + 1;
        }

        let indirect_ptr = root.indirect_pointer;
        proof {
            lemma_chain_step(
                items_of(ret@),
                walk_pointer(self@, dir_leaf(), 1, indirect_ptr),
                walk_inode_from(self@, dir_leaf(), root, 13),
            );
        }
        if indirect_ptr == 0 {
            return Ok(ret);
        }
        let mut entries = match self.read_dir_indir_ptr(indirect_ptr) {
            Ok(entries) => entries,
            Err(e) => {
                return Err(e);
            },
        };
        proof {
            lemma_items_of_join(ret@, entries@);
        }
        ret.append(&mut entries);

        let doub_indir_ptr = root.doubly_indirect;
        proof {
            lemma_chain_step(
                items_of(ret@),
                walk_pointer(self@, dir_leaf(), 2, doub_indir_ptr),
                walk_inode_from(self@, dir_leaf(), root, 14),
            );
        }
        if doub_indir_ptr == 0 {
            return Ok(ret);
        }
        let mut entries = match self.read_dir_doubly_ptr(doub_indir_ptr) {
            Ok(entries) => entries,
            Err(e) => {
                return Err(e);
            },
        };
        proof {
            lemma_items_of_join(ret@, entries@);
        }
        ret.append(&mut entries);

        let triply_indir_ptr = root.triply_indirect;
        proof {
            lemma_chain_step(
                items_of(ret@),
                walk_pointer(self@, dir_leaf(), 3, triply_indir_ptr),
                walk_inode_from(self@, dir_leaf(), root, 15),
            );
        }
        if triply_indir_ptr == 0 {
            return Ok(ret);
        }
        let mut entries = match self.read_dir_triply_ptr(triply_indir_ptr) {
            Ok(entries) => entries,
            Err(e) => {
                return Err(e);
            },
        };
        proof {
            lemma_items_of_join(ret@, entries@);
        }
        ret.append(&mut entries);
        Ok(ret)
    }
}

} // verus!
