//! Laws of the model: what holds of every opened volume and of every read.

use crate::dir::{block_entries, dir_leaf};
use crate::error::Ext2Error;
use crate::layout::{Inode, EXT2_END_OF_SUPERBLOCK, INODE_SIZE};
use crate::reader::data_of;
use crate::volume::{lemma_block_size_bounds, opened, Volume};
use crate::walk::{chain, file_leaf, walk_inode_from, walk_pointer};
use vstd::arithmetic::div_mod::{
    lemma_fundamental_div_mod, lemma_fundamental_div_mod_converse, lemma_mod_multiples_basic,
};
use vstd::arithmetic::mul::{lemma_mul_inequality, lemma_mul_is_distributive_add_other_way};
use vstd::arithmetic::power2::{lemma2_to64_rest, lemma_pow2_strictly_increases, pow2};
use vstd::bits::lemma_u64_shl_is_mul;
use vstd::prelude::*;

verus! {

/// Every region that opens yields a well-formed volume.
pub proof fn lemma_opened_is_wf(bytes: Seq<u8>, image_addr: usize, start_addr: usize)
    ensures
        opened(bytes, image_addr, start_addr) matches Ok(vol) ==> vol.wf(),
{
    if let Ok(vol) = opened(bytes, image_addr, start_addr) {
        let size = vol.block_size as int;
        let data_start = EXT2_END_OF_SUPERBLOCK + size;
        let room = bytes.len() - data_start;
        lemma_block_size_bounds(vol.superblock.log_block_size);
        lemma_fundamental_div_mod(room, size);
        assert forall|i: int| 0 <= i < vol.blocks.len() implies (#[trigger] vol.blocks[i]).len()
            == vol.block_size by {
            lemma_mul_inequality(i + 1, room / size, size);
            lemma_mul_is_distributive_add_other_way(size, i, 1);
        }
    }
}

/// The two addresses decide the block offset and whether the base address
/// is refused, and nothing else of what opening yields.
pub proof fn lemma_addresses_decide_the_offset_alone(
    bytes: Seq<u8>,
    image_addr: usize,
    start_addr: usize,
    other_image_addr: usize,
    other_start_addr: usize,
)
    ensures
        match (
            opened(bytes, image_addr, start_addr),
            opened(bytes, other_image_addr, other_start_addr),
        ) {
            (Ok(one), Ok(other)) => other == (Volume { block_offset: other.block_offset, ..one }),
            (Err(e), Err(f)) => e == f || e == Ext2Error::BadBaseAddress || f
                == Ext2Error::BadBaseAddress,
            (Ok(_), Err(f)) => f == Ext2Error::BadBaseAddress,
            (Err(e), Ok(_)) => e == Ext2Error::BadBaseAddress,
        },
{
}

/// Every volume that opens carries the ext2 magic number, 0xEF53, in its
/// superblock.
pub proof fn lemma_opened_magic(bytes: Seq<u8>, image_addr: usize, start_addr: usize)
    ensures
        opened(bytes, image_addr, start_addr) matches Ok(vol) ==> vol.superblock.magic == 0xef53,
{
}

/// The block size of a volume is 1024 shifted left by `log_block_size`, and
/// it divides the length of every block.
pub proof fn lemma_block_size_law(vol: Volume)
    requires
        vol.wf(),
    ensures
        vol.block_size == 1024 * pow2(vol.superblock.log_block_size as nat),
        vol.superblock.log_block_size < 54 ==> vol.block_size == 1024u64 << (
        vol.superblock.log_block_size as u64),
        forall|i: int|
            0 <= i < vol.blocks.len() ==> (#[trigger] vol.blocks[i]).len() % vol.block_size == 0,
{
    let log = vol.superblock.log_block_size;
    lemma_block_size_bounds(log);
    if log < 54 {
        lemma2_to64_rest();
        if log < 53 {
            lemma_pow2_strictly_increases(log as nat, 53);
        }
        lemma_u64_shl_is_mul(1024, log as u64);
    }
    assert forall|i: int| 0 <= i < vol.blocks.len() implies (#[trigger] vol.blocks[i]).len()
        % vol.block_size == 0 by {
        lemma_mod_multiples_basic(1, vol.block_size as int);
    }
}

/// A volume has as many block group descriptors as its blocks fill groups
/// of `blocks_per_group`, the last of which may be partly filled: the
/// quotient rounded up.
pub proof fn lemma_group_count_law(vol: Volume)
    requires
        vol.wf(),
    ensures
        vol.block_groups.len() == (vol.superblock.blocks_count + vol.superblock.blocks_per_group
            - 1) / (vol.superblock.blocks_per_group as int),
        vol.block_groups.len() * vol.superblock.blocks_per_group >= vol.superblock.blocks_count,
        vol.superblock.blocks_count > (vol.block_groups.len() - 1)
            * vol.superblock.blocks_per_group,
{
    let count = vol.superblock.blocks_count as int;
    let per_group = vol.superblock.blocks_per_group as int;
    let groups = vol.block_groups.len() as int;
    lemma_fundamental_div_mod(count + per_group - 1, per_group);
    lemma_mul_is_distributive_add_other_way(per_group, groups, -1);
}

/// The record of an inode is made of the bytes at its position, all of them
/// in one block.
pub proof fn lemma_inode_lies_at_its_position(vol: Volume, n: int, j: int)
    requires
        vol.wf(),
        vol.has_inode(n),
        0 <= j < INODE_SIZE,
    ensures
        0 <= vol.inode_offset(n),
        vol.inode_offset(n) + INODE_SIZE <= vol.block_size,
        vol.region_byte(vol.inode_position(n) + j)
            == vol.blocks[vol.inode_block(n)][vol.inode_offset(n) + j],
{
    lemma_block_size_bounds(vol.superblock.log_block_size);
    lemma_fundamental_div_mod_converse(
        vol.inode_position(n) + j,
        vol.block_size as int,
        vol.inode_block(n),
        vol.inode_offset(n) + j,
    );
}

/// Two inodes with consecutive numbers in one block group lie one behind
/// the other, an inode record apart.
pub proof fn lemma_inode_positions_consecutive(vol: Volume, n: int)
    requires
        vol.wf(),
        vol.has_inode(n),
        vol.has_inode(n + 1),
        vol.inode_group(n) == vol.inode_group(n + 1),
    ensures
        vol.inode_position(n + 1) == vol.inode_position(n) + INODE_SIZE,
{
    let per_group = vol.superblock.inodes_per_group as int;
    let per_block = vol.inodes_per_block();
    let size = vol.block_size as int;
    let index = vol.inode_index(n);
    lemma_block_size_bounds(vol.superblock.log_block_size);
    lemma_fundamental_div_mod(n - 1, per_group);
    lemma_fundamental_div_mod(n, per_group);
    lemma_fundamental_div_mod(index, per_block);
    let q = index / per_block;
    let r = index % per_block;
    let base = vol.inode_table(n) - vol.block_offset;
    if r + 1 < per_block {
        lemma_fundamental_div_mod_converse(index + 1, per_block, q, r + 1);
    } else {
        lemma_mul_is_distributive_add_other_way(per_block, q, 1);
        lemma_fundamental_div_mod_converse(index + 1, per_block, q + 1, 0);
        lemma_mul_is_distributive_add_other_way(size, base + q, 1);
    }
}

/// Reading a file is a function of the volume and the inode number: two
/// reads of one inode of one volume return the same.
pub proof fn lemma_file_read_is_repeatable(
    vol: Volume,
    n: int,
    first: Result<Vec<u8>, Ext2Error>,
    second: Result<Vec<u8>, Ext2Error>,
)
    requires
        data_of(first) == vol.file_data(n),
        data_of(second) == vol.file_data(n),
    ensures
        data_of(first) == data_of(second),
        first matches Ok(a) ==> second matches Ok(b) && a@ == b@,
        first matches Err(e) ==> second == Err::<Vec<u8>, Ext2Error>(e),
{
}

/// The blocks that the direct pointers `from..to` of `inode` name, joined.
pub open spec fn direct_blocks(vol: Volume, inode: Inode, from: int, to: int) -> Seq<u8>
    decreases to - from,
{
    if from >= to {
        Seq::empty()
    } else {
        vol.block(inode.direct_pointer@[from]) + direct_blocks(vol, inode, from + 1, to)
    }
}

/// Where the `k`-th direct pointer of a file is its first pointer that is
/// zero, and the image holds the blocks that the pointers before it name,
/// the file is those blocks joined, and nothing more.
pub proof fn lemma_zero_pointer_ends_file(vol: Volume, n: int, k: int)
    requires
        vol.has_inode(n),
        !vol.inode(n).is_directory(),
        0 <= k < 12,
        vol.inode(n).direct_pointer@[k] == 0,
        forall|j: int| 0 <= j < k ==> vol.inode(n).direct_pointer@[j] != 0,
        forall|j: int| 0 <= j < k ==> vol.holds_block(#[trigger] vol.inode(n).direct_pointer@[j]),
    ensures
        vol.file_data(n) == Ok::<Seq<u8>, Ext2Error>(direct_blocks(vol, vol.inode(n), 0, k)),
{
    lemma_direct_run(vol, vol.inode(n), 0, k);
}

/// The walk from the direct pointer `from` on, where the first zero is at
/// `to` and the image holds the blocks between.
proof fn lemma_direct_run(vol: Volume, inode: Inode, from: int, to: int)
    requires
        0 <= from <= to < 12,
        inode.direct_pointer@[to] == 0,
        forall|j: int| from <= j < to ==> inode.direct_pointer@[j] != 0,
        forall|j: int| from <= j < to ==> vol.holds_block(#[trigger] inode.direct_pointer@[j]),
    ensures
        walk_inode_from(vol, file_leaf(), inode, from) == Ok::<Seq<u8>, Ext2Error>(
            direct_blocks(vol, inode, from, to),
        ),
    decreases to - from,
{
    if from < to {
        lemma_direct_run(vol, inode, from + 1, to);
    }
}

/// Where a directory opens with a block that the image holds, the listing
/// of the directory begins with the entries of that block.
pub proof fn lemma_listing_starts_with_first_block(vol: Volume, n: int)
    requires
        vol.has_inode(n),
        vol.inode(n).is_directory(),
        vol.inode(n).direct_pointer@[0] != 0,
        vol.holds_block(vol.inode(n).direct_pointer@[0]),
    ensures
        vol.dir_entries(n) matches Ok(all) ==> {
            &&& block_entries(vol.block(vol.inode(n).direct_pointer@[0])) matches Ok(first)
            &&& first.len() <= all.len()
            &&& all.subrange(0, first.len() as int) == first
        },
{
    let inode = vol.inode(n);
    let head = walk_pointer(vol, dir_leaf(), 0, inode.direct_pointer@[0]);
    let tail = walk_inode_from(vol, dir_leaf(), inode, 1);
    assert(vol.dir_entries(n) == chain(head, tail));
}

} // verus!
