//! The table: sole owner of a pager, with page 0 as the root of its tree.

use vstd::prelude::*;

use crate::layout::{spec_page_offset, PAGER_PAGE_SIZE};
use crate::node::{spec_cell_count, spec_cell_value, spec_leaf_ok};
use crate::pager::{spec_backfill, spec_write_at, Pager, PagerError};
use crate::row::{spec_row_of_bytes, RowV};

verus! {

broadcast use crate::layout::lemma_page_offset_value;

/// A table-level failure: a flush that the pager refused.
#[derive(Debug, PartialEq, Eq)]
pub enum TableError {
    FlushError(PagerError),
}

/// The rows held by a leaf page, in cell order.
pub open spec fn spec_rows_of_page(page: Seq<u8>) -> Seq<RowV>
    recommends
        spec_leaf_ok(page),
{
    Seq::new(
        spec_cell_count(page) as nat,
        |j: int| spec_row_of_bytes(spec_cell_value(page, j)),
    )
}

/// `file` after pages `0 ..= n` of `pages` have been flushed whole, in
/// ascending page order.
pub open spec fn spec_flushed_file(file: Seq<u8>, pages: Seq<Seq<u8>>, n: int) -> Seq<u8>
    decreases n,
{
    if n <= 0 {
        file
    } else {
        spec_write_at(
            spec_flushed_file(file, pages, n - 1),
            spec_page_offset(n - 1),
            pages[n - 1].subrange(0, PAGER_PAGE_SIZE as int),
        )
    }
}

/// A flush loses nothing: every page flushed into the file is read back
/// intact from the file that results.
pub proof fn lemma_flushed_file_preserves_pages(
    file: Seq<u8>,
    pages: Seq<Seq<u8>>,
    n: int,
    j: int,
)
    requires
        0 <= j < n,
        forall|k: int| 0 <= k < n ==> #[trigger] pages[k].len() == PAGER_PAGE_SIZE,
    ensures
        spec_backfill(spec_flushed_file(file, pages, n), j) == pages[j],
    decreases n,
{
    let prev = spec_flushed_file(file, pages, n - 1);
    let last = pages[n - 1].subrange(0, PAGER_PAGE_SIZE as int);
    assert(last =~= pages[n - 1]);
    if j == n - 1 {
        crate::pager::lemma_flush_then_backfill(prev, j, pages[j]);
    } else {
        lemma_flushed_file_preserves_pages(file, pages, n - 1, j);
        // The later write lies wholly past page j, so page j's region of the
        // file is untouched.
        assert(spec_backfill(spec_flushed_file(file, pages, n), j) =~= spec_backfill(prev, j));
    }
}

/// A flushed file only grows: it keeps at least the old length and reaches
/// at least the end of the last page flushed.
pub proof fn lemma_flushed_file_extent(file: Seq<u8>, pages: Seq<Seq<u8>>, n: int)
    requires
        forall|i: int| 0 <= i < n ==> #[trigger] pages[i].len() == PAGER_PAGE_SIZE,
    ensures
        spec_flushed_file(file, pages, n).len() >= file.len(),
        n >= 0 ==> spec_flushed_file(file, pages, n).len() >= spec_page_offset(n),
    decreases n,
{
    if n > 0 {
        lemma_flushed_file_extent(file, pages, n - 1);
    }
}

/// Flush idempotence at the whole-pass level: flushing any prefix of the
/// pages again, unmodified, leaves the file image byte-identical.
pub proof fn lemma_flush_pages_idempotent(file: Seq<u8>, pages: Seq<Seq<u8>>, n: int, k: int)
    requires
        0 <= k <= n,
        forall|i: int| 0 <= i < n ==> #[trigger] pages[i].len() == PAGER_PAGE_SIZE,
    ensures
        spec_flushed_file(spec_flushed_file(file, pages, n), pages, k) == spec_flushed_file(
            file,
            pages,
            n,
        ),
    decreases k,
{
    let flushed = spec_flushed_file(file, pages, n);
    if k > 0 {
        lemma_flush_pages_idempotent(file, pages, n, k - 1);
        lemma_flushed_file_preserves_pages(file, pages, n, k - 1);
        lemma_flushed_file_extent(file, pages, n);
        assert(spec_page_offset(k) <= spec_page_offset(n));
        // The file already holds page `k - 1` at its offset, so writing it
        // there again changes nothing.
        assert(spec_write_at(
            flushed,
            spec_page_offset(k - 1),
            pages[k - 1].subrange(0, PAGER_PAGE_SIZE as int),
        ) =~= flushed);
    }
}

/// The root aggregate: a pager and the root page number, always 0 in this
/// scope.
pub struct Table {
    pub pager: Pager,
    pub root_page_num: usize,
}

impl Table {
    /// The pager is well-formed, the root is page 0, and the root page —
    /// resident or not — is a usable leaf.
    pub open spec fn wf(self) -> bool {
        &&& self.pager.wf()
        &&& self.root_page_num == 0
        &&& spec_leaf_ok(self.pager.spec_fetched(0))
    }

    /// The rows the table holds, in cell order of its root page.
    pub open spec fn spec_rows(self) -> Seq<RowV> {
        spec_rows_of_page(self.pager.spec_fetched(0))
    }

    /// Takes ownership of a pager; the root page number starts at 0.
    pub fn new(pager: Pager) -> (r: Self)
        ensures
            r.pager == pager,
            r.root_page_num == 0,
    {
        Self { pager, root_page_num: 0 }
    }

    /// The page number of the tree's root.
    pub fn get_root_page_num(&self) -> (r: usize)
        ensures
            r == self.root_page_num,
    {
        self.root_page_num
    }

    /// Flushes every cached page whole into the file image, in ascending
    /// page order. With the file held in memory no single flush can fail, so
    /// the whole pass succeeds.
    pub fn flush_pages(&mut self) -> (r: Result<(), TableError>)
        requires
            old(self).wf(),
        ensures
            final(self).wf(),
            r is Ok,
            final(self).pager.pages@ == old(self).pager.pages@,
            final(self).pager.page_count == old(self).pager.page_count,
            final(self).root_page_num == old(self).root_page_num,
            final(self).spec_rows() == old(self).spec_rows(),
            final(self).pager.file@ == spec_flushed_file(
                old(self).pager.file@,
                Seq::new(old(self).pager.pages@.len(), |j: int| old(self).pager.pages@[j]@),
                if old(self).pager.page_count <= old(self).pager.pages@.len() {
                    old(self).pager.page_count as int
                } else {
                    old(self).pager.pages@.len() as int
                },
            ),
    {
        let ghost views = Seq::new(
            old(self).pager.pages@.len(),
            |j: int| old(self).pager.pages@[j]@,
        );
        let ghost bound: int = if old(self).pager.page_count <= old(self).pager.pages@.len() {
            old(self).pager.page_count as int
        } else {
            old(self).pager.pages@.len() as int
        };
        let count = self.pager.get_page_count();
        let mut page_num: usize = 0;
        while page_num < count
            invariant
                page_num <= count,
                count == self.pager.page_count,
                self.pager.wf(),
                self.pager.pages@ == old(self).pager.pages@,
                self.pager.page_count == old(self).pager.page_count,
                self.root_page_num == old(self).root_page_num,
                views == Seq::new(
                    old(self).pager.pages@.len(),
                    |j: int| old(self).pager.pages@[j]@,
                ),
                bound == if old(self).pager.page_count <= old(self).pager.pages@.len() {
                    old(self).pager.page_count as int
                } else {
                    old(self).pager.pages@.len() as int
                },
                self.pager.file@ == spec_flushed_file(
                    old(self).pager.file@,
                    views,
                    if page_num <= bound {
                        page_num as int
                    } else {
                        bound
                    },
                ),
            decreases count - page_num,
        {
            if self.pager.page_exists(page_num) {
                let flushed = self.pager.flush_page(page_num, PAGER_PAGE_SIZE);
                proof {
                    assert(flushed is Ok);
                    assert(views[page_num as int] == self.pager.pages@[page_num as int]@);
                }
            }
            page_num = page_num + 1;
        }
        proof {
            assert(final(self).spec_rows() =~= old(self).spec_rows());
        }
        Ok(())
    }
}

/// Persistence law: a store reopened over the file that a flush produced
/// holds exactly the rows the flushed table held, provided the root page had
/// been touched (and so was flushed).
pub proof fn lemma_rows_survive_flush(t: Table)
    requires
        t.wf(),
        t.pager.pages@.len() >= 1,
        t.pager.page_count >= 1,
    ensures
        ({
            let views = Seq::new(t.pager.pages@.len(), |j: int| t.pager.pages@[j]@);
            let bound = if t.pager.page_count <= t.pager.pages@.len() {
                t.pager.page_count as int
            } else {
                t.pager.pages@.len() as int
            };
            let flushed = spec_flushed_file(t.pager.file@, views, bound);
            spec_rows_of_page(spec_backfill(flushed, 0)) == t.spec_rows()
        }),
{
    let views = Seq::new(t.pager.pages@.len(), |j: int| t.pager.pages@[j]@);
    let bound = if t.pager.page_count <= t.pager.pages@.len() {
        t.pager.page_count as int
    } else {
        t.pager.pages@.len() as int
    };
    assert(forall|k: int| 0 <= k < bound ==> #[trigger] views[k].len() == PAGER_PAGE_SIZE);
    lemma_flushed_file_preserves_pages(t.pager.file@, views, bound, 0);
    assert(views[0] == t.pager.spec_fetched(0));
}

} // verus!
