//! A page interpreted as a tree node.
//!
//! The first byte of a page tags it: `0` internal, `1` leaf (any other value
//! is read as internal). A leaf stores its cell count big-endian in the
//! header and then an array of cells, each a 4-byte big-endian key followed
//! by the encoded row. Internal nodes are declared but carry no behaviour:
//! nothing in the implemented scope creates one.

use vstd::prelude::*;

use crate::byteops::{read_bytes, read_u32_be, splice, spec_u32_from_be, spec_u32_to_be,
    write_bytes, write_u32_be};
use crate::layout::{
    LEAF_NODE_CELL_SIZE, LEAF_NODE_HEADER_SIZE, LEAF_NODE_KEY_SIZE, LEAF_NODE_MAX_CELLS,
    LEAF_NODE_NUM_CELLS_OFFSET, LEAF_NODE_VALUE_OFFSET, NODE_TYPE_OFFSET, PAGER_PAGE_SIZE,
    ROW_SIZE, spec_cell_offset,
};
use crate::row::{Row, RowSerializationError, spec_row_bytes, spec_row_fits};

verus! {

broadcast use crate::layout::lemma_cell_offset_value;

/// Failure of a leaf insert: the leaf is at capacity (the point where a full
/// design would split the node), or the row could not be encoded.
#[derive(Debug, PartialEq, Eq)]
pub enum NodeError {
    NodeFullInsertError,
    SerializationError(RowSerializationError),
}

/// A page whose tag byte marks it as a leaf.
pub struct LeafNode {
    pub raw: Vec<u8>,
}

/// A page whose tag byte marks it as internal. Declared for the layout's
/// sake; no implemented code path creates or reads one.
pub struct InternalNode {
    pub raw: Vec<u8>,
}

/// The tagged interpretation of a raw page.
pub enum Node {
    Leaf(LeafNode),
    Internal(InternalNode),
}

impl View for LeafNode {
    type V = Seq<u8>;

    open spec fn view(&self) -> Seq<u8> {
        self.raw@
    }
}

impl View for InternalNode {
    type V = Seq<u8>;

    open spec fn view(&self) -> Seq<u8> {
        self.raw@
    }
}

impl View for Node {
    type V = Seq<u8>;

    open spec fn view(&self) -> Seq<u8> {
        match self {
            Node::Leaf(n) => n.raw@,
            Node::Internal(n) => n.raw@,
        }
    }
}

/// The tag byte marks a leaf.
pub open spec fn spec_node_is_leaf(page: Seq<u8>) -> bool {
    page.len() > 0 && page[NODE_TYPE_OFFSET as int] == 1u8
}

/// The cell count stored in a leaf's header.
pub open spec fn spec_cell_count(page: Seq<u8>) -> u32 {
    spec_u32_from_be(
        page.subrange(LEAF_NODE_NUM_CELLS_OFFSET as int, LEAF_NODE_NUM_CELLS_OFFSET + 4),
    )
}

/// The key of cell `i`.
pub open spec fn spec_cell_key(page: Seq<u8>, i: int) -> u32 {
    spec_u32_from_be(
        page.subrange(spec_cell_offset(i), spec_cell_offset(i) + LEAF_NODE_KEY_SIZE),
    )
}

/// The value bytes of cell `i`: one encoded row.
pub open spec fn spec_cell_value(page: Seq<u8>, i: int) -> Seq<u8> {
    page.subrange(
        spec_cell_offset(i) + LEAF_NODE_VALUE_OFFSET,
        spec_cell_offset(i) + LEAF_NODE_CELL_SIZE,
    )
}

/// A page that can serve as a leaf: page-sized, tagged as a leaf, its stored
/// cell count within capacity.
pub open spec fn spec_leaf_ok(page: Seq<u8>) -> bool {
    &&& page.len() == PAGER_PAGE_SIZE
    &&& spec_node_is_leaf(page)
    &&& spec_cell_count(page) <= LEAF_NODE_MAX_CELLS
}

/// A freshly created page: zero-filled but for the leaf tag.
pub open spec fn empty_leaf_page() -> Seq<u8> {
    Seq::new(
        PAGER_PAGE_SIZE as nat,
        |i: int|
            if i == NODE_TYPE_OFFSET {
                1u8
            } else {
                0u8
            },
    )
}

/// A fresh page is a leaf holding no cells.
pub proof fn lemma_empty_leaf_page_ok()
    ensures
        spec_leaf_ok(empty_leaf_page()),
        spec_cell_count(empty_leaf_page()) == 0,
{
    let p = empty_leaf_page();
    assert(spec_cell_count(p) == (0u8 as u32) << 24 | (0u8 as u32) << 16 | (0u8 as u32) << 8 | (
    0u8 as u32));
    assert((0u8 as u32) << 24 | (0u8 as u32) << 16 | (0u8 as u32) << 8 | (0u8 as u32) == 0u32)
        by (bit_vector);
}

/// The node read from a raw page, tagged by its first byte.
pub open spec fn spec_node_of(page: Vec<u8>) -> Node {
    if spec_node_is_leaf(page@) {
        Node::Leaf(LeafNode { raw: page })
    } else {
        Node::Internal(InternalNode { raw: page })
    }
}

impl From<Vec<u8>> for LeafNode {
    fn from(value: Vec<u8>) -> (r: Self) {
        Self { raw: value }
    }
}

impl vstd::std_specs::convert::FromSpecImpl<Vec<u8>> for LeafNode {
    open spec fn obeys_from_spec() -> bool {
        true
    }

    open spec fn from_spec(value: Vec<u8>) -> Self {
        LeafNode { raw: value }
    }
}

impl From<Vec<u8>> for InternalNode {
    fn from(value: Vec<u8>) -> (r: Self) {
        Self { raw: value }
    }
}

impl vstd::std_specs::convert::FromSpecImpl<Vec<u8>> for InternalNode {
    open spec fn obeys_from_spec() -> bool {
        true
    }

    open spec fn from_spec(value: Vec<u8>) -> Self {
        InternalNode { raw: value }
    }
}

impl From<Vec<u8>> for Node {
    fn from(page: Vec<u8>) -> (r: Self) {
        if page.len() > 0 && page[0] == 1 {
            Self::Leaf(LeafNode::from(page))
        } else {
            Self::Internal(InternalNode::from(page))
        }
    }
}

impl vstd::std_specs::convert::FromSpecImpl<Vec<u8>> for Node {
    open spec fn obeys_from_spec() -> bool {
        true
    }

    open spec fn from_spec(page: Vec<u8>) -> Self {
        spec_node_of(page)
    }
}

/// Byte offset of cell `i` within a page.
pub(crate) fn cell_offset(i: usize) -> (r: usize)
    requires
        i < LEAF_NODE_MAX_CELLS,
    ensures
        r == spec_cell_offset(i as int),
        r + LEAF_NODE_CELL_SIZE <= PAGER_PAGE_SIZE,
{
    proof {
        crate::layout::lemma_layout_values();
        assert(i * LEAF_NODE_CELL_SIZE == i * 295);
    }
    LEAF_NODE_HEADER_SIZE + i * LEAF_NODE_CELL_SIZE
}

impl LeafNode {
    /// The cell count stored in the header.
    fn cell_count(&self) -> (r: usize)
        requires
            self@.len() == PAGER_PAGE_SIZE,
        ensures
            r == spec_cell_count(self@),
    {
        read_u32_be(&self.raw, LEAF_NODE_NUM_CELLS_OFFSET) as usize
    }

    /// A copy of the raw bytes of cell `cell_num`.
    fn get_cell(&self, cell_num: usize) -> (r: Vec<u8>)
        requires
            self@.len() == PAGER_PAGE_SIZE,
            cell_num < LEAF_NODE_MAX_CELLS,
        ensures
            r@ == self@.subrange(
                spec_cell_offset(cell_num as int),
                spec_cell_offset(cell_num as int) + LEAF_NODE_CELL_SIZE,
            ),
    {
        let offset = cell_offset(cell_num);
        read_bytes(&self.raw, offset, LEAF_NODE_CELL_SIZE)
    }
}

impl Node {
    /// Whether the tag byte marks this page as a leaf.
    pub fn is_leaf(&self) -> (r: bool)
        ensures
            r == (self is Leaf),
    {
        match self {
            Self::Leaf(_) => true,
            Self::Internal(_) => false,
        }
    }

    /// The node's tag agrees with its page bytes.
    pub open spec fn wf(self) -> bool {
        &&& self@.len() == PAGER_PAGE_SIZE
        &&& (self is Leaf <==> spec_node_is_leaf(self@))
    }

    /// The raw page buffer, for a caller that works on the bytes themselves.
    pub fn to_vec_mut(&mut self) -> (r: &mut Vec<u8>)
        ensures
            r@ == old(self)@,
            final(self)@ == final(r)@,
            *old(self) is Leaf ==> *final(self) is Leaf,
            *old(self) is Internal ==> *final(self) is Internal,
    {
        match self {
            Self::Leaf(n) => &mut n.raw,
            Self::Internal(n) => &mut n.raw,
        }
    }

    /// The raw page buffer, read-only.
    pub fn as_bytes(&self) -> (r: &Vec<u8>)
        ensures
            r@ == self@,
    {
        match self {
            Self::Leaf(n) => &n.raw,
            Self::Internal(n) => &n.raw,
        }
    }

    /// The key of cell `cell_num`. Cells exist only on leaves.
    pub fn get_cell_key(&self, cell_num: usize) -> (r: u32)
        requires
            self.wf(),
            self is Leaf,
            cell_num < LEAF_NODE_MAX_CELLS,
        ensures
            r == spec_cell_key(self@, cell_num as int),
    {
        match self {
            Self::Leaf(n) => {
                let offset = cell_offset(cell_num);
                read_u32_be(&n.raw, offset)
            },
            Self::Internal(_) => vstd::pervasive::unreached(),
        }
    }

    /// Writes `key` into the key region of cell `cell_num`.
    pub fn set_cell_key(&mut self, cell_num: usize, key: u32)
        requires
            old(self).wf(),
            *old(self) is Leaf,
            cell_num < LEAF_NODE_MAX_CELLS,
        ensures
            final(self)@ == splice(
                old(self)@,
                spec_cell_offset(cell_num as int),
                spec_u32_to_be(key),
            ),
            final(self).wf(),
            *final(self) is Leaf,
            spec_cell_key(final(self)@, cell_num as int) == key,
    {
        match self {
            Self::Leaf(n) => {
                let offset = cell_offset(cell_num);
                write_u32_be(&mut n.raw, offset, key);
            },
            Self::Internal(_) => vstd::pervasive::unreached(),
        }
    }

    /// A copy of the value bytes (one encoded row) of cell `cell_num`.
    pub fn get_cell_value(&self, cell_num: usize) -> (r: Vec<u8>)
        requires
            self.wf(),
            self is Leaf,
            cell_num < LEAF_NODE_MAX_CELLS,
        ensures
            r@ == spec_cell_value(self@, cell_num as int),
            r@.len() == ROW_SIZE,
    {
        match self {
            Self::Leaf(n) => {
                let offset = cell_offset(cell_num);
                read_bytes(&n.raw, offset + LEAF_NODE_VALUE_OFFSET, ROW_SIZE)
            },
            Self::Internal(_) => vstd::pervasive::unreached(),
        }
    }

    /// The cell count of a leaf. Cells exist only on leaves.
    pub fn get_cell_count(&self) -> (r: usize)
        requires
            self.wf(),
            self is Leaf,
        ensures
            r == spec_cell_count(self@),
    {
        match self {
            Self::Leaf(n) => n.cell_count(),
            Self::Internal(_) => vstd::pervasive::unreached(),
        }
    }

    /// Inserts `(key, value)` at `cell_num`, shifting the cells at and above
    /// `cell_num` one slot right to open a gap.
    ///
    /// Fails with `NodeFullInsertError` when the leaf is at capacity — the
    /// point where a complete design would split the leaf — and with a
    /// serialization error when a row field overruns its capacity. On any
    /// error the page is untouched. Keys are not checked for uniqueness.
    pub fn insert(&mut self, key: u32, value: &Row, cell_num: usize) -> (r: Result<
        (),
        NodeError,
    >)
        requires
            old(self).wf(),
            *old(self) is Leaf,
            spec_leaf_ok(old(self)@),
            cell_num <= spec_cell_count(old(self)@),
        ensures
            ({
                let oldp = old(self)@;
                let newp = final(self)@;
                &&& (spec_cell_count(oldp) >= LEAF_NODE_MAX_CELLS ==> r == Err::<
                    (),
                    NodeError,
                >(NodeError::NodeFullInsertError) && newp == oldp)
                &&& (spec_cell_count(oldp) < LEAF_NODE_MAX_CELLS && !spec_row_fits(value@) ==> newp
                    == oldp && (r matches Err(NodeError::SerializationError(
                    RowSerializationError::StringTooLong { field },
                )) && field@ == (if value.username@.len() > crate::layout::USERNAME_SIZE {
                    "username"@
                } else {
                    "email"@
                })))
                &&& (spec_cell_count(oldp) < LEAF_NODE_MAX_CELLS && spec_row_fits(value@) ==> {
                    &&& r is Ok
                    &&& spec_leaf_ok(newp)
                    &&& spec_cell_count(newp) == spec_cell_count(oldp) + 1
                    &&& newp.subrange(0, LEAF_NODE_NUM_CELLS_OFFSET as int) == oldp.subrange(
                        0,
                        LEAF_NODE_NUM_CELLS_OFFSET as int,
                    )
                    &&& spec_cell_key(newp, cell_num as int) == key
                    &&& spec_cell_value(newp, cell_num as int) == spec_row_bytes(value@)
                    &&& forall|j: int|
                        0 <= j < cell_num ==> spec_cell_key(newp, j) == spec_cell_key(oldp, j)
                            && spec_cell_value(newp, j) == spec_cell_value(oldp, j)
                    &&& forall|j: int|
                        cell_num <= j < spec_cell_count(oldp) ==> spec_cell_key(newp, j + 1)
                            == spec_cell_key(oldp, j) && spec_cell_value(newp, j + 1)
                            == spec_cell_value(oldp, j)
                })
            }),
            *final(self) is Leaf,
            final(self).wf(),
    {
        match self {
            Self::Leaf(n) => {
                let count = n.cell_count();
                if count >= LEAF_NODE_MAX_CELLS {
                    return Err(NodeError::NodeFullInsertError);
                }
                // Encode the row first: a row that does not fit must leave
                // the page untouched.
                let mut row_buf: Vec<u8> = vec![0u8; ROW_SIZE];
                match value.serialize(&mut row_buf, 0) {
                    Ok(()) => {},
                    Err(e) => {
                        return Err(NodeError::SerializationError(e));
                    },
                }
                proof {
                    assert(row_buf@ =~= spec_row_bytes(value@));
                }
                let ghost orig = n.raw@;
                proof {
                    crate::layout::lemma_layout_values();
                }
                // Shift the cells at and above cell_num one slot right,
                // highest first. The region between the gap's end and the
                // end of cell `count` holds the old bytes moved up one cell.
                let mut i: usize = count;
                while i > cell_num
                    invariant
                        cell_num <= i <= count,
                        count < LEAF_NODE_MAX_CELLS,
                        LEAF_NODE_MAX_CELLS == 13,
                        LEAF_NODE_CELL_SIZE == 295,
                        n.raw@.len() == PAGER_PAGE_SIZE,
                        orig.len() == PAGER_PAGE_SIZE,
                        forall|j: int|
                            0 <= j < spec_cell_offset(i as int + 1) ==> n.raw@[j] == orig[j],
                        forall|j: int|
                            spec_cell_offset(i as int + 1) <= j < spec_cell_offset(
                                count as int + 1,
                            ) ==> n.raw@[j] == orig[j - 295],
                        forall|j: int|
                            spec_cell_offset(count as int + 1) <= j < PAGER_PAGE_SIZE
                                ==> n.raw@[j] == orig[j],
                    decreases i,
                {
                    let dst_off = cell_offset(i);
                    let cell = n.get_cell(i - 1);
                    let ghost prev = n.raw@;
                    write_bytes(&mut n.raw, dst_off, &cell);
                    proof {
                        assert forall|j: int|
                            spec_cell_offset(i as int) <= j < spec_cell_offset(
                                count as int + 1,
                            ) implies n.raw@[j] == orig[j - 295] by {
                            if j < spec_cell_offset(i as int + 1) {
                                assert(n.raw@[j] == cell@[j - spec_cell_offset(i as int)]);
                                assert(cell@[j - spec_cell_offset(i as int)] == prev[j - 295]);
                            } else {
                                assert(n.raw@[j] == prev[j]);
                            }
                        }
                    }
                    i = i - 1;
                }
                // Write the new count, then the new cell's key and value.
                write_u32_be(&mut n.raw, LEAF_NODE_NUM_CELLS_OFFSET, (count + 1) as u32);
                let ghost after_count = n.raw@;
                let key_off = cell_offset(cell_num);
                write_u32_be(&mut n.raw, key_off, key);
                let ghost after_key = n.raw@;
                write_bytes(&mut n.raw, key_off + LEAF_NODE_VALUE_OFFSET, &row_buf);
                proof {
                    crate::layout::lemma_layout_values();
                    let newp = n.raw@;
                    assert(newp.subrange(
                        LEAF_NODE_NUM_CELLS_OFFSET as int,
                        LEAF_NODE_NUM_CELLS_OFFSET + 4,
                    ) =~= spec_u32_to_be((count + 1) as u32));
                    crate::byteops::lemma_u32_be_round_trip((count + 1) as u32);
                    assert(spec_cell_count(newp) == count + 1);
                    assert(newp.subrange(0, LEAF_NODE_NUM_CELLS_OFFSET as int) =~= orig.subrange(
                        0,
                        LEAF_NODE_NUM_CELLS_OFFSET as int,
                    ));
                    assert(newp.subrange(
                        spec_cell_offset(cell_num as int),
                        spec_cell_offset(cell_num as int) + LEAF_NODE_KEY_SIZE,
                    ) =~= spec_u32_to_be(key));
                    crate::byteops::lemma_u32_be_round_trip(key);
                    assert(spec_cell_key(newp, cell_num as int) == key);
                    assert(spec_cell_value(newp, cell_num as int) =~= spec_row_bytes(value@));
                    assert forall|j: int| 0 <= j < cell_num implies spec_cell_key(newp, j)
                        == spec_cell_key(orig, j) && spec_cell_value(newp, j) == spec_cell_value(
                        orig,
                        j,
                    ) by {
                        assert(newp.subrange(
                            spec_cell_offset(j),
                            spec_cell_offset(j) + LEAF_NODE_KEY_SIZE,
                        ) =~= orig.subrange(
                            spec_cell_offset(j),
                            spec_cell_offset(j) + LEAF_NODE_KEY_SIZE,
                        ));
                        assert(newp.subrange(
                            spec_cell_offset(j) + LEAF_NODE_VALUE_OFFSET,
                            spec_cell_offset(j) + LEAF_NODE_CELL_SIZE,
                        ) =~= orig.subrange(
                            spec_cell_offset(j) + LEAF_NODE_VALUE_OFFSET,
                            spec_cell_offset(j) + LEAF_NODE_CELL_SIZE,
                        ));
                    }
                    assert forall|j: int| cell_num < j <= count implies spec_cell_key(newp, j)
                        == spec_cell_key(orig, j - 1) && spec_cell_value(newp, j)
                        == spec_cell_value(orig, j - 1) by {
                        assert(newp.subrange(
                            spec_cell_offset(j),
                            spec_cell_offset(j) + LEAF_NODE_KEY_SIZE,
                        ) =~= orig.subrange(
                            spec_cell_offset(j - 1),
                            spec_cell_offset(j - 1) + LEAF_NODE_KEY_SIZE,
                        ));
                        assert(newp.subrange(
                            spec_cell_offset(j) + LEAF_NODE_VALUE_OFFSET,
                            spec_cell_offset(j) + LEAF_NODE_CELL_SIZE,
                        ) =~= orig.subrange(
                            spec_cell_offset(j - 1) + LEAF_NODE_VALUE_OFFSET,
                            spec_cell_offset(j - 1) + LEAF_NODE_CELL_SIZE,
                        ));
                    }
                }
                Ok(())
            },
            Self::Internal(_) => vstd::pervasive::unreached(),
        }
    }
}

} // verus!
