//! An opened image: views into the byte region, and where its inodes lie.

use crate::bytes::split_bytes;
use crate::error::Ext2Error;
use crate::layout::{
    BlockGroupDescriptor, Inode, Superblock, EXT2_END_OF_SUPERBLOCK, EXT2_MAGIC,
    EXT2_START_OF_SUPERBLOCK, GROUP_DESCRIPTOR_SIZE, INODE_SIZE,
};
use crate::volume::{
    block_size_of, group_count_of, lemma_block_size_bounds, opened, uuid_from_octets, Volume,
};
use uuid::Uuid;
use vstd::arithmetic::div_mod::{lemma_div_is_ordered_by_denominator, lemma_fundamental_div_mod};
use vstd::arithmetic::mul::{lemma_mul_inequality, lemma_mul_is_distributive_add_other_way};
use vstd::arithmetic::power2::{lemma2_to64_rest, lemma_pow2_strictly_increases};
use vstd::bits::lemma_u64_shl_is_mul;
use vstd::math::min;
use vstd::prelude::*;

verus! {

/// `uuid::Uuid`, carried through as a value that is not looked into.
#[verifier::external_type_specification]
#[verifier::external_body]
pub struct ExUuid(uuid::Uuid);

/// `uuid::Uuid::from_bytes`: the identifier that the outside crate makes of
/// sixteen octets, a function of the octets alone.
#[verifier::external_body]
fn make_uuid(octets: [u8; 16]) -> (id: Uuid)
    ensures
        id == uuid_from_octets(octets@),
{
    Uuid::from_bytes(octets)
}

/// The address of the first byte of a slice, by `as_ptr` of std. Nothing is
/// claimed of the number.
#[verifier::external_body]
fn address_of(bytes: &[u8]) -> (addr: usize) {
    bytes.as_ptr() as usize
}

/// An ext2 volume opened on a byte region that it borrows.
#[derive(Debug)]
pub struct Ext2<'a> {
    superblock: Superblock,
    block_groups: Vec<BlockGroupDescriptor>,
    blocks: Vec<&'a [u8]>,
    block_size: usize,
    uuid: Uuid,
    block_offset: usize,
}

impl<'a> View for Ext2<'a> {
    type V = Volume;

    closed spec fn view(&self) -> Volume {
        Volume {
            superblock: self.superblock,
            block_groups: self.block_groups@,
            blocks: Seq::new(self.blocks@.len(), |i: int| self.blocks@[i]@),
            block_size: self.block_size as nat,
            block_offset: self.block_offset as nat,
            uuid: self.uuid,
        }
    }
}

/// The result of opening, as plain values.
pub open spec fn volume_of(r: Result<Ext2<'_>, Ext2Error>) -> Result<Volume, Ext2Error> {
    match r {
        Ok(image) => Ok(image@),
        Err(e) => Err(e),
    }
}

/// The block size for `log`, if it is at most `limit`.
fn block_size_within(log: u32, limit: usize) -> (r: Option<usize>)
    ensures
        match r {
            Some(size) => size == block_size_of(log) && size <= limit,
            None => block_size_of(log) > limit,
        },
{
    proof {
        lemma2_to64_rest();
    }
    if log >= 54 {
        proof {
            if log > 54 {
                lemma_pow2_strictly_increases(54, log as nat);
            }
        }
        return None;
    }
    proof {
        if log < 53 {
            lemma_pow2_strictly_increases(log as nat, 53);
        }
        lemma_u64_shl_is_mul(1024, log as u64);
    }
    let size: u64 = 1024u64 << (log as u64);
    if size > limit as u64 {
        None
    } else {
        Some(size as usize)
    }
}

impl<'a> Ext2<'a> {
    #[verifier::type_invariant]
    closed spec fn inv(&self) -> bool {
        self@.wf()
    }

    /// Opens the volume in `device_bytes` for a device whose block 0 would lie
    /// at address `start_addr`. The address of the region itself is taken
    /// from the slice; what comes back is what [`Ext2::open_at`] gives for
    /// that address.
    pub fn new(device_bytes: &'a [u8], start_addr: usize) -> (r: Result<Ext2<'a>, Ext2Error>)
        ensures
            exists|image_addr: usize| volume_of(r) == opened(device_bytes@, image_addr, start_addr),
            r matches Ok(image) ==> image@.wf(),
    {
        let image_addr = address_of(device_bytes);
        Ext2::open_at(device_bytes, image_addr, start_addr)
    }

    /// Opens the volume in `device_bytes`, which lies at address
    /// `image_addr`, for a device whose block 0 would lie at `start_addr`.
    ///
    /// The blocks are views into `device_bytes`; the superblock and the
    /// descriptor table are decoded field by field. Of a region that does
    /// not open the first fault is told, in this order: too short for a
    /// superblock, the magic number, the layout, the base address.
    pub fn open_at(device_bytes: &'a [u8], image_addr: usize, start_addr: usize) -> (r: Result<
        Ext2<'a>,
        Ext2Error,
    >)
        ensures
            volume_of(r) == opened(device_bytes@, image_addr, start_addr),
            r matches Ok(image) ==> image@.wf(),
    {
        let len = device_bytes.len();
        if len < EXT2_END_OF_SUPERBLOCK {
            return Err(Ext2Error::InvalidLayout);
        }
        let superblock = Superblock::read(device_bytes, EXT2_START_OF_SUPERBLOCK);
        if superblock.magic != EXT2_MAGIC {
            return Err(Ext2Error::BadMagic);
        }
        if superblock.blocks_per_group == 0 {
            return Err(Ext2Error::InvalidLayout);
        }
        let block_size = match block_size_within(
            superblock.log_block_size,
            len - EXT2_END_OF_SUPERBLOCK,
        ) {
            Some(size) => size,
            None => {
                return Err(Ext2Error::InvalidLayout);
            },
        };
        proof {
            lemma_block_size_bounds(superblock.log_block_size);
        }
        let group_total: u64 = (superblock.blocks_count as u64 + superblock.blocks_per_group as u64
            - 1) / (superblock.blocks_per_group as u64);
        if group_total > ((len - EXT2_END_OF_SUPERBLOCK) / GROUP_DESCRIPTOR_SIZE) as u64 {
            return Err(Ext2Error::InvalidLayout);
        }
        let group_count: usize = group_total as usize;
        let data_start: usize = EXT2_END_OF_SUPERBLOCK + block_size;
        let base: u128 = image_addr as u128 + data_start as u128;
        if start_addr as u128 > base {
            return Err(Ext2Error::BadBaseAddress);
        }
        proof {
            lemma_div_is_ordered_by_denominator(base - start_addr, 1024, block_size as int);
        }
        let block_offset: usize = ((base - start_addr as u128) / (block_size as u128)) as usize;

        let mut block_groups: Vec<BlockGroupDescriptor> = Vec::new();
        let mut g: usize = 0;
        while g < group_count
            invariant
                g <= group_count,
                EXT2_END_OF_SUPERBLOCK + GROUP_DESCRIPTOR_SIZE * group_count <= device_bytes.len(),
                block_groups@.len() == g,
                forall|j: int|
                    0 <= j < g ==> #[trigger] block_groups@[j] == BlockGroupDescriptor::decode(
                        device_bytes@,
                        2048 + 32 * j,
                    ),
            decreases group_count - g,
        {
            block_groups.push(
                BlockGroupDescriptor::read(
                    device_bytes,
                    EXT2_END_OF_SUPERBLOCK + GROUP_DESCRIPTOR_SIZE * g,
                ),
            );
            g = g + 1;
        }

        let data = split_bytes(device_bytes, data_start).1;
        let available: usize = data.len() / block_size;
        let block_count: usize = if available < superblock.blocks_count as usize {
            available
        } else {
            superblock.blocks_count as usize
        };
        assert(block_count == min(
            superblock.blocks_count as int,
            (device_bytes@.len() - data_start) / (block_size as int),
        ));
        let mut blocks: Vec<&'a [u8]> = Vec::new();
        let mut rest = data;
        let mut i: usize = 0;
        while i < block_count
            invariant
                i <= block_count <= available,
                available == (data@.len() as int) / (block_size as int),
                block_size >= 1024,
                data@ == device_bytes@.subrange(data_start as int, device_bytes@.len() as int),
                data_start <= device_bytes@.len(),
                i * block_size <= data@.len(),
                rest@ == data@.subrange(i * block_size, data@.len() as int),
                blocks@.len() == i,
                forall|j: int| 0 <= j < i ==> (#[trigger] blocks@[j])@.len() == block_size,
                forall|j: int|
                    0 <= j < i ==> (#[trigger] blocks@[j])@ == device_bytes@.subrange(
                        data_start + j * block_size,
                        data_start + (j + 1) * block_size,
                    ),
            decreases block_count - i,
        {
            proof {
                lemma_mul_inequality(i + 1, available as int, block_size as int);
                lemma_fundamental_div_mod(data@.len() as int, block_size as int);
                lemma_mul_is_distributive_add_other_way(block_size as int, i as int, 1);
            }
            let parts = split_bytes(rest, block_size);
            proof {
                assert(parts.0@ =~= device_bytes@.subrange(
                    data_start + i * block_size,
                    data_start + (i + 1) * block_size,
                ));
            }
            blocks.push(parts.0);
            rest = parts.1;
            i = i + 1;
        }
        let uuid = make_uuid(superblock.fs_id);
        let image = Ext2 { superblock, block_groups, blocks, block_size, uuid, block_offset };
        proof {
            let expected = opened(device_bytes@, image_addr, start_addr);
            let vol = expected->Ok_0;
            assert(image@.block_groups =~= vol.block_groups);
            assert(image@.blocks =~= vol.blocks);
        }
        Ok(image)
    }

    /// The decoded superblock.
    pub fn superblock(&self) -> (sb: &Superblock)
        ensures
            *sb == self@.superblock,
    {
        &self.superblock
    }

    /// The block group descriptor table.
    pub fn block_groups(&self) -> (table: &[BlockGroupDescriptor])
        ensures
            table@ == self@.block_groups,
    {
        self.block_groups.as_slice()
    }

    /// The number of blocks that the image holds.
    pub fn block_count(&self) -> (count: usize)
        ensures
            count == self@.blocks.len(),
    {
        self.blocks.len()
    }

    /// The block at `index` of the image's blocks, if there is one. The
    /// device block with number `b` is at index `b - block_offset`.
    pub fn block(&self, index: usize) -> (r: Option<&'a [u8]>)
        ensures
            match r {
                Some(block) => index < self@.blocks.len() && block@ == self@.blocks[index as int],
                None => index >= self@.blocks.len(),
            },
    {
        if index < self.blocks.len() {
            Some(self.blocks[index])
        } else {
            None
        }
    }

    /// The size of a block in bytes.
    pub fn block_size(&self) -> (size: usize)
        ensures
            size == self@.block_size,
    {
        self.block_size
    }

    /// The number of the device block that the first block of the image is.
    pub fn block_offset(&self) -> (offset: usize)
        ensures
            offset == self@.block_offset,
    {
        self.block_offset
    }

    /// The identifier of the filesystem.
    pub fn uuid(&self) -> (id: Uuid)
        ensures
            id == self@.uuid,
    {
        self.uuid
    }

    /// The block and the offset in it at which the record of inode `inode`
    /// lies, if the image holds it.
    fn locate(&self, inode: usize) -> (place: Option<(usize, usize)>)
        ensures
            match place {
                Some((block, offset)) => {
                    &&& self@.has_inode(inode as int)
                    &&& block == self@.inode_block(inode as int)
                    &&& offset == self@.inode_offset(inode as int)
                    &&& offset + INODE_SIZE <= self@.block_size
                },
                None => !self@.has_inode(inode as int),
            },
    {
        proof {
            use_type_invariant(self);
            lemma_block_size_bounds(self.superblock.log_block_size);
        }
        let per_group: usize = self.superblock.inodes_per_group as usize;
        if inode < 1 || inode > self.superblock.inodes_count as usize || per_group == 0 {
            return None;
        }
        let group: usize = (inode - 1) / per_group;
        let index: usize = (inode - 1) % per_group;
        if group >= self.block_groups.len() {
            return None;
        }
        let table: usize = self.block_groups[group].inode_table_block as usize;
        if table < self.block_offset {
            return None;
        }
        let per_block: usize = self.block_size / INODE_SIZE;
        let block: u64 = (table - self.block_offset) as u64 + (index / per_block) as u64;
        if block >= self.blocks.len() as u64 {
            return None;
        }
        let offset: usize = (index % per_block) * INODE_SIZE;
        Some((block as usize, offset))
    }

    /// Whether the image holds the record of inode `inode`.
    pub fn has_inode(&self, inode: usize) -> (b: bool)
        ensures
            b == self@.has_inode(inode as int),
    {
        self.locate(inode).is_some()
    }

    /// The record of the inode with the 1-based number `inode`.
    pub fn get_inode(&self, inode: usize) -> (record: Inode)
        requires
            self@.has_inode(inode as int),
        ensures
            record == self@.inode(inode as int),
    {
        proof {
            use_type_invariant(self);
        }
        let (block, offset) = self.locate(inode).unwrap();
        assert(self@.blocks[block as int].len() == self@.block_size);
        Inode::read(self.blocks[block], offset)
    }

    /// The device block with number `block_num`, if the image holds it.
    pub(crate) fn block_at(&self, block_num: u32) -> (r: Result<&'a [u8], Ext2Error>)
        ensures
            match r {
                Ok(block) => {
                    &&& self@.holds_block(block_num)
                    &&& block@ == self@.block(block_num)
                    &&& block@.len() == self@.block_size
                },
                Err(e) => e == Ext2Error::BlockOutOfRange && !self@.holds_block(block_num),
            },
    {
        proof {
            use_type_invariant(self);
        }
        let number: usize = block_num as usize;
        if number < self.block_offset || number - self.block_offset >= self.blocks.len() {
            Err(Ext2Error::BlockOutOfRange)
        } else {
            Ok(self.blocks[number - self.block_offset])
        }
    }
}

} // verus!
