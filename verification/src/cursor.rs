//! A cursor: a transient position over a table, `(page, cell)` plus an
//! end-of-table flag, created fresh per statement and never outliving the
//! table borrow that produced it.

use vstd::prelude::*;

use crate::node::spec_cell_count;
use crate::table::Table;

verus! {

/// A position within a table's root page.
pub struct Cursor {
    pub page: usize,
    pub cell: usize,
    pub end_of_table: bool,
}

impl Cursor {
    /// The cursor sits on the table's root page, within its cell range, and
    /// its end-of-table flag agrees with that range.
    pub open spec fn spec_valid(self, table: Table) -> bool {
        &&& self.page == table.root_page_num
        &&& self.cell <= spec_cell_count(table.pager.spec_fetched(self.page as int))
        &&& self.end_of_table == (self.cell >= spec_cell_count(
            table.pager.spec_fetched(self.page as int),
        ))
    }

    /// Positions at the first cell of the root page; the table is already at
    /// its end exactly when the root holds no cells. Touching the root may
    /// make it resident, but changes nothing a page access yields.
    pub fn start(table: &mut Table) -> (r: Self)
        requires
            old(table).wf(),
        ensures
            final(table).wf(),
            final(table).root_page_num == old(table).root_page_num,
            forall|j: int|
                0 <= j ==> final(table).pager.spec_fetched(j) == old(table).pager.spec_fetched(j),
            final(table).pager.file@ == old(table).pager.file@,
            final(table).spec_rows() == old(table).spec_rows(),
            r.spec_valid(*final(table)),
            r.page == old(table).root_page_num,
            r.cell == 0,
            r.end_of_table == (spec_cell_count(old(table).pager.spec_fetched(0)) == 0),
    {
        let root_page_num = table.get_root_page_num();
        let root_page = table.pager.get_page_mut(root_page_num);
        let end_of_table = root_page.cell_count() == 0;
        Self { page: root_page_num, cell: 0, end_of_table }
    }

    /// Positions one past the last cell of the root page: the insertion
    /// point, since the implemented scope always appends at the logical end.
    pub fn end(table: &mut Table) -> (r: Self)
        requires
            old(table).wf(),
        ensures
            final(table).wf(),
            final(table).root_page_num == old(table).root_page_num,
            forall|j: int|
                0 <= j ==> final(table).pager.spec_fetched(j) == old(table).pager.spec_fetched(j),
            final(table).pager.file@ == old(table).pager.file@,
            final(table).spec_rows() == old(table).spec_rows(),
            r.spec_valid(*final(table)),
            r.page == old(table).root_page_num,
            r.cell == spec_cell_count(old(table).pager.spec_fetched(0)),
            r.end_of_table,
    {
        let root_page_num = table.get_root_page_num();
        let root_page = table.pager.get_page_mut(root_page_num);
        Self { page: root_page_num, cell: root_page.cell_count(), end_of_table: true }
    }

    /// Whether the cursor is past the last cell.
    pub fn end_of_table(&self) -> (r: bool)
        ensures
            r == self.end_of_table,
    {
        self.end_of_table
    }

    /// The cell the cursor is on.
    pub fn cell_num(&self) -> (r: usize)
        ensures
            r == self.cell,
    {
        self.cell
    }

    /// The page the cursor is on.
    pub fn page(&self) -> (r: usize)
        ensures
            r == self.page,
    {
        self.page
    }

    /// Moves one cell forward and recomputes the end-of-table flag against
    /// the page's current cell count, which inserts may have changed since
    /// the cursor was made.
    pub fn advance(&mut self, table: &mut Table)
        requires
            old(table).wf(),
            old(self).page == old(table).root_page_num,
            old(self).cell < usize::MAX,
        ensures
            final(table).wf(),
            final(table).root_page_num == old(table).root_page_num,
            forall|j: int|
                0 <= j ==> final(table).pager.spec_fetched(j) == old(table).pager.spec_fetched(j),
            final(table).pager.file@ == old(table).pager.file@,
            final(table).spec_rows() == old(table).spec_rows(),
            final(self).page == old(self).page,
            final(self).cell == old(self).cell + 1,
            final(self).end_of_table == (old(self).cell + 1 >= spec_cell_count(
                old(table).pager.spec_fetched(0),
            )),
            old(self).cell < spec_cell_count(old(table).pager.spec_fetched(0))
                ==> final(self).spec_valid(*final(table)),
    {
        let page = table.pager.get_page_mut(self.page);
        self.cell = self.cell + 1;
        self.end_of_table = self.cell >= page.cell_count();
    }
}

} // verus!
