//! The tree of block pointers below an inode, as a mathematical function.
//!
//! An inode holds twelve direct pointers and one pointer each with one, two
//! and three levels of indirection below it. A pointer with no level below
//! it names a data block, a leaf; a pointer with levels below it names a
//! block that is an array of 32-bit pointers with one level less. A pointer
//! of zero ends the array it stands in. What a leaf contributes is left to
//! the caller: the bytes of the block for a file, the decoded records for a
//! directory.

use crate::bytes::le_u32;
use crate::error::Ext2Error;
use crate::layout::Inode;
use crate::volume::Volume;
use vstd::prelude::*;

verus! {

/// What a walk yields: the items gathered, or the first error met.
pub type Gathered<T> = Result<Seq<T>, Ext2Error>;

/// `head` followed by `tail`: the first error in that order, or both
/// sequences joined.
pub open spec fn chain<T>(head: Gathered<T>, tail: Gathered<T>) -> Gathered<T> {
    match head {
        Err(e) => Err(e),
        Ok(a) => match tail {
            Err(e) => Err(e),
            Ok(b) => Ok(a + b),
        },
    }
}

/// The pointers that a block holds when it is read as a pointer array.
pub open spec fn pointers_of(block: Seq<u8>) -> Seq<u32> {
    Seq::new(block.len() / 4, |k: int| le_u32(block, 4 * k))
}

/// What the subtree below pointer `b` yields, `depth` being the number of
/// pointer arrays between `b` and the leaves.
pub open spec fn walk_pointer<T>(
    vol: Volume,
    leaf: spec_fn(Seq<u8>) -> Gathered<T>,
    depth: nat,
    b: u32,
) -> Gathered<T>
    decreases depth, 0nat,
{
    if !vol.holds_block(b) {
        Err(Ext2Error::BlockOutOfRange)
    } else if depth == 0 {
        leaf(vol.block(b))
    } else {
        walk_slots(vol, leaf, (depth - 1) as nat, pointers_of(vol.block(b)), 0)
    }
}

/// What the pointers `slots[from..]` yield, each with `depth` pointer arrays
/// below it, up to the first zero among them.
pub open spec fn walk_slots<T>(
    vol: Volume,
    leaf: spec_fn(Seq<u8>) -> Gathered<T>,
    depth: nat,
    slots: Seq<u32>,
    from: int,
) -> Gathered<T>
    decreases depth, slots.len() - from + 1,
{
    if from < 0 || from >= slots.len() || slots[from] == 0 {
        Ok(Seq::empty())
    } else {
        chain(
            walk_pointer(vol, leaf, depth, slots[from]),
            walk_slots(vol, leaf, depth, slots, from + 1),
        )
    }
}

/// The fifteen pointers of an inode in the order in which they are walked.
pub open spec fn inode_pointer(inode: Inode, k: int) -> u32 {
    if 0 <= k < 12 {
        inode.direct_pointer@[k]
    } else if k == 12 {
        inode.indirect_pointer
    } else if k == 13 {
        inode.doubly_indirect
    } else {
        inode.triply_indirect
    }
}

/// The number of pointer arrays below the `k`-th pointer of an inode.
pub open spec fn inode_pointer_depth(k: int) -> nat {
    if k < 12 {
        0
    } else {
        (k - 11) as nat
    }
}

/// What the pointers of `inode` from the `k`-th on yield, up to the first
/// zero among them.
pub open spec fn walk_inode_from<T>(
    vol: Volume,
    leaf: spec_fn(Seq<u8>) -> Gathered<T>,
    inode: Inode,
    k: int,
) -> Gathered<T>
    decreases 15 - k,
{
    if k < 0 || k >= 15 || inode_pointer(inode, k) == 0 {
        Ok(Seq::empty())
    } else {
        chain(
            walk_pointer(vol, leaf, inode_pointer_depth(k), inode_pointer(inode, k)),
            walk_inode_from(vol, leaf, inode, k + 1),
        )
    }
}

/// What all the pointers of `inode` yield.
pub open spec fn walk_inode<T>(
    vol: Volume,
    leaf: spec_fn(Seq<u8>) -> Gathered<T>,
    inode: Inode,
) -> Gathered<T> {
    walk_inode_from(vol, leaf, inode, 0)
}

/// The leaf of a file: the whole block.
pub open spec fn file_leaf() -> spec_fn(Seq<u8>) -> Gathered<u8> {
    |block: Seq<u8>| Ok(block)
}

/// Items gathered so far, then one more part, then the rest: the part can be
/// joined to what was gathered.
pub proof fn lemma_chain_step<T>(done: Seq<T>, part: Gathered<T>, rest: Gathered<T>)
    ensures
        chain(Ok(done), chain(part, rest)) == match part {
            Err(e) => Err(e),
            Ok(items) => chain(Ok(done + items), rest),
        },
{
    match part {
        Err(e) => {},
        Ok(items) => {
            match rest {
                Err(e) => {},
                Ok(more) => {
                    assert(done + (items + more) =~= (done + items) + more);
                },
            }
        },
    }
}

} // verus!
