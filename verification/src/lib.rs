//! An embedded, single-table persistent data store.
//!
//! Fixed-width records are kept in fixed-size pages; page 0 holds the root
//! node of a page-resident tree keyed by an integer row identifier. The
//! library owns the page cache and an in-memory image of the backing file;
//! reading the file at startup and writing the image back at shutdown are
//! the caller's concern.

pub mod byteops;
pub mod cursor;
pub mod db;
pub mod layout;
pub mod meta;
pub mod node;
pub mod page;
pub mod pager;
pub mod row;
pub mod statement;
pub mod table;

use vstd::prelude::*;

verus! {

/// The leaf capacity never overruns the space a page leaves after its header.
pub proof fn lemma_leaf_cells_fit_in_page()
    ensures
        layout::LEAF_NODE_MAX_CELLS * layout::LEAF_NODE_CELL_SIZE <= layout::PAGER_PAGE_SIZE
            - layout::LEAF_NODE_HEADER_SIZE,
{
    assert(layout::LEAF_NODE_CELL_SIZE == 295);
    assert(layout::LEAF_NODE_SPACE_FOR_CELLS == 4086);
    assert(layout::LEAF_NODE_MAX_CELLS == 13);
}

} // verus!
