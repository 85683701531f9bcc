//! Byte layout of a page interpreted as a tree node.
//!
//! Pure layout arithmetic: header field offsets and sizes, per-cell layout,
//! and the leaf cell capacity derived from the page size and the row size.

use vstd::prelude::*;

verus! {

/// Size of one page, the unit of file I/O and caching.
pub const PAGER_PAGE_SIZE: usize = 4096;

/// Pages a table may touch; a page number above this is a fatal bounds
/// violation, never a recoverable error.
pub const TABLE_MAX_PAGES: usize = 100;

// Row layout: 4-byte big-endian id, then the two zero-padded string fields.
pub const ID_SIZE: usize = 4;

pub const ID_OFFSET: usize = 0;

pub const USERNAME_SIZE: usize = 32;

pub const USERNAME_OFFSET: usize = ID_OFFSET + ID_SIZE;

pub const EMAIL_SIZE: usize = 255;

pub const EMAIL_OFFSET: usize = USERNAME_OFFSET + USERNAME_SIZE;

pub const ROW_SIZE: usize = ID_SIZE + USERNAME_SIZE + EMAIL_SIZE;

// Common node header: node-type tag, is-root flag, parent pointer.
pub const NODE_TYPE_SIZE: usize = 1;

pub const NODE_TYPE_OFFSET: usize = 0;

pub const IS_ROOT_SIZE: usize = 1;

pub const IS_ROOT_OFFSET: usize = NODE_TYPE_SIZE;

pub const PARENT_POINTER_SIZE: usize = 4;

pub const PARENT_POINTER_OFFSET: usize = IS_ROOT_OFFSET + IS_ROOT_SIZE;

pub const COMMON_NODE_HEADER_SIZE: usize = NODE_TYPE_SIZE + IS_ROOT_SIZE + PARENT_POINTER_SIZE;

// Leaf node header: the common header followed by a 4-byte cell count.
pub const LEAF_NODE_NUM_CELLS_SIZE: usize = 4;

pub const LEAF_NODE_NUM_CELLS_OFFSET: usize = COMMON_NODE_HEADER_SIZE;

pub const LEAF_NODE_HEADER_SIZE: usize = COMMON_NODE_HEADER_SIZE + LEAF_NODE_NUM_CELLS_SIZE;

// Leaf node body: an array of cells, each a 4-byte big-endian key followed by
// the fixed-width row value.
pub const LEAF_NODE_KEY_SIZE: usize = 4;

pub const LEAF_NODE_KEY_OFFSET: usize = 0;

pub const LEAF_NODE_VALUE_SIZE: usize = ROW_SIZE;

pub const LEAF_NODE_VALUE_OFFSET: usize = LEAF_NODE_KEY_OFFSET + LEAF_NODE_KEY_SIZE;

pub const LEAF_NODE_CELL_SIZE: usize = LEAF_NODE_KEY_SIZE + LEAF_NODE_VALUE_SIZE;

pub const LEAF_NODE_SPACE_FOR_CELLS: usize = PAGER_PAGE_SIZE - LEAF_NODE_HEADER_SIZE;

pub const LEAF_NODE_MAX_CELLS: usize = LEAF_NODE_SPACE_FOR_CELLS / LEAF_NODE_CELL_SIZE;

/// Byte offset of cell `i` within a page.
pub open spec fn spec_cell_offset(i: int) -> int {
    LEAF_NODE_HEADER_SIZE + i * LEAF_NODE_CELL_SIZE
}

/// The cell offset with the layout constants written out, so that offset
/// arithmetic stays linear.
pub broadcast proof fn lemma_cell_offset_value(i: int)
    ensures
        #[trigger] spec_cell_offset(i) == 10 + i * 295,
{
    assert(LEAF_NODE_CELL_SIZE == 295);
    assert(i * LEAF_NODE_CELL_SIZE == i * 295);
}

/// Byte offset of page `j` in the file.
pub open spec fn spec_page_offset(j: int) -> int {
    j * (PAGER_PAGE_SIZE as int)
}

/// The page offset with the page size written out, so that offset arithmetic
/// stays linear.
pub broadcast proof fn lemma_page_offset_value(j: int)
    ensures
        #[trigger] spec_page_offset(j) == j * 4096,
{
    assert(j * (PAGER_PAGE_SIZE as int) == j * 4096);
}

/// The concrete values of the derived layout constants, for proofs that do
/// arithmetic over them.
pub proof fn lemma_layout_values()
    ensures
        ROW_SIZE == 291,
        COMMON_NODE_HEADER_SIZE == 6,
        LEAF_NODE_NUM_CELLS_OFFSET == 6,
        LEAF_NODE_HEADER_SIZE == 10,
        LEAF_NODE_VALUE_OFFSET == 4,
        LEAF_NODE_CELL_SIZE == 295,
        LEAF_NODE_SPACE_FOR_CELLS == 4086,
        LEAF_NODE_MAX_CELLS == 13,
{
    assert(LEAF_NODE_CELL_SIZE == 295);
    assert(LEAF_NODE_SPACE_FOR_CELLS == 4086);
    assert(LEAF_NODE_MAX_CELLS == 13);
}

} // verus!
