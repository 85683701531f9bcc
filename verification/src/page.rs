//! A page: the fixed-size buffer the pager caches, interpreted as a node.

use vstd::prelude::*;

use crate::layout::{LEAF_NODE_MAX_CELLS, LEAF_NODE_NUM_CELLS_OFFSET, NODE_TYPE_OFFSET,
    PAGER_PAGE_SIZE, ROW_SIZE};
use crate::node::{empty_leaf_page, spec_cell_count, spec_cell_key, spec_cell_value, spec_leaf_ok,
    spec_node_is_leaf, InternalNode, LeafNode, Node, NodeError};
use crate::row::{Row, RowSerializationError, spec_row_bytes, spec_row_fits};

verus! {

/// One page of the store, interpreted as a tree node.
pub struct Page(pub Node);

impl View for Page {
    type V = Seq<u8>;

    open spec fn view(&self) -> Seq<u8> {
        self.0@
    }
}

impl Page {
    /// Page-sized, with the tag byte agreeing with the node variant.
    pub open spec fn wf(self) -> bool {
        self.0.wf()
    }

    /// The node variant this page is tagged as.
    pub open spec fn is_leaf(self) -> bool {
        self.0 is Leaf
    }

    /// A fresh page: an empty leaf, zero-filled but for the leaf tag.
    pub fn new() -> (r: Self)
        ensures
            r@ == empty_leaf_page(),
            r.wf(),
            r.is_leaf(),
            spec_leaf_ok(r@),
            spec_cell_count(r@) == 0,
    {
        let mut v: Vec<u8> = vec![0u8; PAGER_PAGE_SIZE];
        v.set(NODE_TYPE_OFFSET, 1);
        proof {
            assert(v@ =~= empty_leaf_page());
            crate::node::lemma_empty_leaf_page_ok();
        }
        Self(Node::from(v))
    }

    /// The node read from `bytes`, tagged by the first byte.
    pub fn from_bytes(bytes: Vec<u8>) -> (r: Self)
        ensures
            r@ == bytes@,
            r.is_leaf() == spec_node_is_leaf(bytes@),
            bytes@.len() == PAGER_PAGE_SIZE ==> r.wf(),
    {
        Self(Node::from(bytes))
    }

    /// A copy of this page's bytes as a fresh page.
    pub fn duplicate(&self) -> (r: Self)
        ensures
            r@ == self@,
            r.is_leaf() == self.is_leaf(),
    {
        match &self.0 {
            Node::Leaf(n) => {
                let raw = n.raw.clone();
                proof {
                    assert(raw@ =~= n.raw@);
                }
                Self(Node::Leaf(LeafNode { raw }))
            },
            Node::Internal(n) => {
                let raw = n.raw.clone();
                proof {
                    assert(raw@ =~= n.raw@);
                }
                Self(Node::Internal(InternalNode { raw }))
            },
        }
    }

    /// Whether the tag byte marks this page as a leaf.
    pub fn node_is_leaf(&self) -> (r: bool)
        ensures
            r == self.is_leaf(),
    {
        self.0.is_leaf()
    }

    /// The cell count stored in the leaf's header.
    pub fn cell_count(&self) -> (r: usize)
        requires
            self.wf(),
            self.is_leaf(),
        ensures
            r == spec_cell_count(self@),
    {
        self.0.get_cell_count()
    }

    /// A copy of the value bytes (one encoded row) of cell `cell_num`.
    pub fn get_cell_value(&self, cell_num: usize) -> (r: Vec<u8>)
        requires
            self.wf(),
            self.is_leaf(),
            cell_num < LEAF_NODE_MAX_CELLS,
        ensures
            r@ == spec_cell_value(self@, cell_num as int),
            r@.len() == ROW_SIZE,
    {
        self.0.get_cell_value(cell_num)
    }

    /// The raw page buffer, for a caller that works on the bytes themselves.
    pub fn to_vec_mut(&mut self) -> (r: &mut Vec<u8>)
        ensures
            r@ == old(self)@,
            final(self)@ == final(r)@,
            old(self).is_leaf() ==> final(self).is_leaf(),
            !old(self).is_leaf() ==> !final(self).is_leaf(),
    {
        self.0.to_vec_mut()
    }

    /// The raw page buffer, read-only.
    pub fn as_bytes(&self) -> (r: &Vec<u8>)
        ensures
            r@ == self@,
    {
        self.0.as_bytes()
    }

    /// Adds one to the cell count stored in the leaf's header; the rest of
    /// the page is untouched.
    pub fn increment_cell_count(&mut self)
        requires
            old(self).wf(),
            old(self).is_leaf(),
            spec_cell_count(old(self)@) < LEAF_NODE_MAX_CELLS,
        ensures
            final(self).wf(),
            final(self).is_leaf(),
            spec_cell_count(final(self)@) == spec_cell_count(old(self)@) + 1,
            final(self)@ == crate::byteops::splice(
                old(self)@,
                LEAF_NODE_NUM_CELLS_OFFSET as int,
                crate::byteops::spec_u32_to_be((spec_cell_count(old(self)@) + 1) as u32),
            ),
    {
        proof {
            crate::layout::lemma_layout_values();
        }
        let count = self.0.get_cell_count();
        match &mut self.0 {
            Node::Leaf(n) => {
                crate::byteops::write_u32_be(
                    &mut n.raw,
                    LEAF_NODE_NUM_CELLS_OFFSET,
                    (count + 1) as u32,
                );
            },
            Node::Internal(_) => vstd::pervasive::unreached(),
        }
    }

    /// Writes `key` into the key region of cell `cell_num`.
    pub fn set_cell_key(&mut self, key: u32, cell_num: usize)
        requires
            old(self).wf(),
            old(self).is_leaf(),
            cell_num < LEAF_NODE_MAX_CELLS,
        ensures
            final(self).wf(),
            final(self).is_leaf(),
            final(self)@ == crate::byteops::splice(
                old(self)@,
                crate::layout::spec_cell_offset(cell_num as int),
                crate::byteops::spec_u32_to_be(key),
            ),
            spec_cell_key(final(self)@, cell_num as int) == key,
    {
        self.0.set_cell_key(cell_num, key)
    }

    /// Inserts `(key, value)` at `cell_num`, shifting the cells at and above
    /// `cell_num` one slot right. See [`Node::insert`].
    pub fn insert(&mut self, key: u32, value: &Row, cell_num: usize) -> (r: Result<
        (),
        NodeError,
    >)
        requires
            old(self).wf(),
            old(self).is_leaf(),
            spec_leaf_ok(old(self)@),
            cell_num <= spec_cell_count(old(self)@),
        ensures
            ({
                let oldp = old(self)@;
                let newp = final(self)@;
                &&& (spec_cell_count(oldp) >= LEAF_NODE_MAX_CELLS ==> r == Err::<
                    (),
                    NodeError,
                >(NodeError::NodeFullInsertError) && newp == oldp)
                &&& (spec_cell_count(oldp) < LEAF_NODE_MAX_CELLS && !spec_row_fits(value@) ==> newp
                    == oldp && (r matches Err(NodeError::SerializationError(
                    RowSerializationError::StringTooLong { field },
                )) && field@ == (if value.username@.len() > crate::layout::USERNAME_SIZE {
                    "username"@
                } else {
                    "email"@
                })))
                &&& (spec_cell_count(oldp) < LEAF_NODE_MAX_CELLS && spec_row_fits(value@) ==> {
                    &&& r is Ok
                    &&& spec_leaf_ok(newp)
                    &&& spec_cell_count(newp) == spec_cell_count(oldp) + 1
                    &&& newp.subrange(0, LEAF_NODE_NUM_CELLS_OFFSET as int) == oldp.subrange(
                        0,
                        LEAF_NODE_NUM_CELLS_OFFSET as int,
                    )
                    &&& spec_cell_key(newp, cell_num as int) == key
                    &&& spec_cell_value(newp, cell_num as int) == spec_row_bytes(value@)
                    &&& forall|j: int|
                        0 <= j < cell_num ==> spec_cell_key(newp, j) == spec_cell_key(oldp, j)
                            && spec_cell_value(newp, j) == spec_cell_value(oldp, j)
                    &&& forall|j: int|
                        cell_num <= j < spec_cell_count(oldp) ==> spec_cell_key(newp, j + 1)
                            == spec_cell_key(oldp, j) && spec_cell_value(newp, j + 1)
                            == spec_cell_value(oldp, j)
                })
            }),
            final(self).wf(),
            final(self).is_leaf(),
    {
        self.0.insert(key, value, cell_num)
    }
}

} // verus!
