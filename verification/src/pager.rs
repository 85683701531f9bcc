//! The pager: owner of the page cache and of the in-memory image of the
//! backing file.
//!
//! The cache is dense: pages `0 ..= k` become resident in order and none is
//! ever evicted. A page is created on first access — a fresh empty leaf —
//! and backfilled from the file image when the file covers it entirely; a
//! page the file covers only partly is treated as legitimately empty.
//! Flushing copies cached page bytes into the file image; the caller is
//! responsible for persisting the image itself.

use vstd::prelude::*;

use crate::layout::{spec_page_offset, PAGER_PAGE_SIZE, TABLE_MAX_PAGES};
use crate::node::empty_leaf_page;
use crate::page::Page;

verus! {

broadcast use crate::layout::lemma_page_offset_value;

/// A pager-level failure: the file image is not a whole number of pages, or
/// a flush names a page that is not in the cache.
#[derive(Debug, PartialEq, Eq)]
pub enum PagerError {
    CorruptFile,
    FlushInvalidPage,
}

/// What the first access to page `j` finds: the file's bytes when the file
/// covers the whole page, a fresh empty leaf otherwise.
pub open spec fn spec_backfill(file: Seq<u8>, j: int) -> Seq<u8> {
    if spec_page_offset(j + 1) <= file.len() {
        file.subrange(spec_page_offset(j), spec_page_offset(j + 1))
    } else {
        empty_leaf_page()
    }
}

/// `file` with the bytes at `off ..= off + data.len()` replaced by `data`,
/// extended if `data` reaches past its end; a hole left between the old end
/// and `off` reads as zeros.
pub open spec fn spec_write_at(file: Seq<u8>, off: int, data: Seq<u8>) -> Seq<u8>
    recommends
        0 <= off,
{
    let n = if file.len() >= off + data.len() {
        file.len() as int
    } else {
        off + data.len()
    };
    Seq::new(
        n as nat,
        |i: int|
            if off <= i < off + data.len() {
                data[i - off]
            } else if i < file.len() {
                file[i]
            } else {
                0u8
            },
    )
}

/// Flush idempotence: writing the same bytes at the same offset twice leaves
/// the file exactly as one write does, so flushing an unmodified,
/// already-flushed page is a no-op on the file image.
pub proof fn lemma_flush_idempotent(file: Seq<u8>, off: int, data: Seq<u8>)
    requires
        0 <= off,
    ensures
        spec_write_at(spec_write_at(file, off, data), off, data) == spec_write_at(
            file,
            off,
            data,
        ),
{
    assert(spec_write_at(spec_write_at(file, off, data), off, data) =~= spec_write_at(
        file,
        off,
        data,
    ));
}

/// Persistence: a page image flushed whole at its page boundary is read back
/// intact from the file that results, whatever the file held before.
pub proof fn lemma_flush_then_backfill(file: Seq<u8>, j: int, page: Seq<u8>)
    requires
        0 <= j,
        page.len() == PAGER_PAGE_SIZE,
    ensures
        spec_backfill(spec_write_at(file, spec_page_offset(j), page), j) == page,
{
    let written = spec_write_at(file, spec_page_offset(j), page);
    assert(spec_page_offset(j + 1) <= written.len());
    assert(spec_backfill(written, j) =~= page);
}

/// The page cache and the in-memory image of the backing file.
pub struct Pager {
    /// Dense cache: page `j` is resident exactly when `j < pages.len()`.
    pub pages: Vec<Page>,
    /// The current image of the backing file.
    pub file: Vec<u8>,
    /// Number of pages known to exist, from the file's extent and every page
    /// touched since.
    pub page_count: usize,
}

impl Pager {
    /// Every cached page is page-sized with a tag that matches its variant,
    /// and the cache respects the page bound.
    pub open spec fn wf(self) -> bool {
        &&& self.pages@.len() <= TABLE_MAX_PAGES + 1
        &&& self.pages@.len() <= self.page_count
        &&& forall|j: int| 0 <= j < self.pages@.len() ==> (#[trigger] self.pages@[j]).wf()
    }

    /// The bytes an access to page `j` yields: the cached page if resident,
    /// what backfilling would find otherwise.
    pub open spec fn spec_fetched(self, j: int) -> Seq<u8> {
        if 0 <= j < self.pages@.len() {
            self.pages@[j]@
        } else {
            spec_backfill(self.file@, j)
        }
    }

    /// Opens a pager over the contents of the backing file. A file that is
    /// not a whole number of pages is corrupt, and the one failure.
    pub fn try_new(file: Vec<u8>) -> (r: Result<Self, PagerError>)
        ensures
            file@.len() as int % (PAGER_PAGE_SIZE as int) == 0 <==> r is Ok,
            file@.len() as int % (PAGER_PAGE_SIZE as int) != 0 <==> r == Err::<
                Self,
                PagerError,
            >(PagerError::CorruptFile),
            ({
                match r {
                    Ok(p) => {
                        &&& p.wf()
                        &&& p.file@ == file@
                        &&& p.pages@.len() == 0
                        &&& p.page_count == file@.len() as int / (PAGER_PAGE_SIZE as int)
                    },
                    Err(_) => true,
                }
            }),
    {
        let file_len = file.len();
        if file_len % PAGER_PAGE_SIZE != 0 {
            return Err(PagerError::CorruptFile);
        }
        Ok(Self { pages: Vec::new(), file, page_count: file_len / PAGER_PAGE_SIZE })
    }

    /// Length of the file image in bytes.
    pub fn get_file_len(&self) -> (r: usize)
        ensures
            r == self.file@.len(),
    {
        self.file.len()
    }

    /// Whether page `page_num` is resident in the cache.
    pub fn page_exists(&self, page_num: usize) -> (r: bool)
        ensures
            r == (page_num < self.pages@.len()),
    {
        page_num < self.pages.len()
    }

    /// Number of pages known to exist.
    pub fn get_page_count(&self) -> (r: usize)
        ensures
            r == self.page_count,
    {
        self.page_count
    }

    /// A copy of page `page_num`, creating and backfilling the page — and
    /// any page below it — on first access. What every page yields is
    /// unchanged by the call; only the cache grows.
    pub fn get_page_mut(&mut self, page_num: usize) -> (r: Page)
        requires
            old(self).wf(),
            page_num <= TABLE_MAX_PAGES,
        ensures
            final(self).wf(),
            r.wf(),
            r@ == old(self).spec_fetched(page_num as int),
            page_num < final(self).pages@.len(),
            final(self).file@ == old(self).file@,
            forall|j: int| 0 <= j ==> final(self).spec_fetched(j) == old(self).spec_fetched(j),
            final(self).pages@.len() == if old(self).pages@.len() > page_num + 1 {
                old(self).pages@.len() as int
            } else {
                page_num + 1
            },
            final(self).page_count == if old(self).page_count > page_num {
                old(self).page_count as int
            } else {
                page_num + 1
            },
    {
        if page_num >= self.page_count {
            self.page_count = page_num + 1;
        }
        while self.pages.len() <= page_num
            invariant
                self.wf(),
                page_num <= TABLE_MAX_PAGES,
                page_num < self.page_count,
                self.file@ == old(self).file@,
                self.page_count == if old(self).page_count > page_num {
                    old(self).page_count as int
                } else {
                    page_num + 1
                },
                old(self).pages@.len() <= self.pages@.len() <= page_num + 1 || self.pages@.len()
                    == old(self).pages@.len(),
                forall|j: int| 0 <= j ==> self.spec_fetched(j) == old(self).spec_fetched(j),
            decreases page_num + 1 - self.pages@.len(),
        {
            let j = self.pages.len();
            let ghost before = *self;
            let page = if (j + 1) * PAGER_PAGE_SIZE <= self.file.len() {
                proof {
                    assert((j + 1) * PAGER_PAGE_SIZE == (j + 1) * 4096);
                }
                let bytes = crate::byteops::read_bytes(
                    &self.file,
                    j * PAGER_PAGE_SIZE,
                    PAGER_PAGE_SIZE,
                );
                proof {
                    assert(j * PAGER_PAGE_SIZE == j * 4096);
                }
                Page::from_bytes(bytes)
            } else {
                proof {
                    assert((j + 1) * PAGER_PAGE_SIZE == (j + 1) * 4096);
                }
                Page::new()
            };
            proof {
                assert(page@ == spec_backfill(self.file@, j as int));
            }
            self.pages.push(page);
            proof {
                assert forall|k: int| 0 <= k implies self.spec_fetched(k)
                    == before.spec_fetched(k) by {
                    if k < before.pages@.len() {
                        assert(self.pages@[k] == before.pages@[k]);
                    }
                }
            }
        }
        let r = self.pages[page_num].duplicate();
        proof {
            assert(r.wf());
        }
        r
    }

    /// Replaces cached page `page_num` with `page`: the write-back half of a
    /// read-modify-write through [`Self::get_page_mut`].
    pub fn set_page(&mut self, page_num: usize, page: Page)
        requires
            old(self).wf(),
            page_num < old(self).pages@.len(),
            page.wf(),
        ensures
            final(self).wf(),
            final(self).pages@ == old(self).pages@.update(page_num as int, page),
            final(self).spec_fetched(page_num as int) == page@,
            forall|j: int|
                0 <= j && j != page_num ==> final(self).spec_fetched(j) == old(self).spec_fetched(
                    j,
                ),
            final(self).file@ == old(self).file@,
            final(self).page_count == old(self).page_count,
    {
        self.pages.set(page_num, page);
    }

    /// Writes the first `byte_count` bytes of cached page `page_num` into
    /// the file image at that page's offset, extending the image as needed;
    /// flushing a page that is not in the cache is an error and changes
    /// nothing.
    pub fn flush_page(&mut self, page_num: usize, byte_count: usize) -> (r: Result<
        (),
        PagerError,
    >)
        requires
            old(self).wf(),
            byte_count <= PAGER_PAGE_SIZE,
        ensures
            final(self).wf(),
            final(self).pages@ == old(self).pages@,
            final(self).page_count == old(self).page_count,
            page_num >= old(self).pages@.len() ==> r == Err::<
                (),
                PagerError,
            >(PagerError::FlushInvalidPage) && final(self).file@ == old(self).file@,
            page_num < old(self).pages@.len() ==> r is Ok && final(self).file@ == spec_write_at(
                old(self).file@,
                spec_page_offset(page_num as int),
                old(self).pages@[page_num as int]@.subrange(0, byte_count as int),
            ),
    {
        if page_num >= self.pages.len() {
            return Err(PagerError::FlushInvalidPage);
        }
        proof {
            assert(page_num * PAGER_PAGE_SIZE == page_num * 4096);
        }
        let off = page_num * PAGER_PAGE_SIZE;
        let data = crate::byteops::read_bytes(self.pages[page_num].as_bytes(), 0, byte_count);
        let ghost orig = self.file@;
        while self.file.len() < off
            invariant
                orig.len() < off ==> orig.len() <= self.file@.len() <= off,
                orig.len() >= off ==> self.file@ == orig,
                forall|k: int| 0 <= k < self.file@.len() && k < orig.len() ==> self.file@[k]
                    == orig[k],
                forall|k: int| orig.len() <= k < self.file@.len() ==> self.file@[k] == 0u8,
                self.pages@ == old(self).pages@,
                self.page_count == old(self).page_count,
            decreases off - self.file@.len(),
        {
            self.file.push(0);
        }
        let mut i: usize = 0;
        while i < byte_count
            invariant
                i <= byte_count,
                byte_count == data@.len(),
                off + byte_count <= usize::MAX,
                self.file@.len() == if orig.len() >= off + i {
                    orig.len() as int
                } else {
                    off + i
                },
                off <= self.file@.len(),
                forall|k: int| 0 <= k < off && k < orig.len() ==> self.file@[k] == orig[k],
                forall|k: int| orig.len() <= k < off ==> self.file@[k] == 0u8,
                forall|k: int| off <= k < off + i ==> self.file@[k] == data@[k - off],
                forall|k: int|
                    off + i <= k < self.file@.len() ==> self.file@[k] == orig[k],
                self.pages@ == old(self).pages@,
                self.page_count == old(self).page_count,
            decreases byte_count - i,
        {
            if off + i < self.file.len() {
                self.file.set(off + i, data[i]);
            } else {
                self.file.push(data[i]);
            }
            i = i + 1;
        }
        proof {
            assert(self.file@ =~= spec_write_at(orig, spec_page_offset(page_num as int), data@));
            assert(data@ =~= old(self).pages@[page_num as int]@.subrange(0, byte_count as int));
        }
        Ok(())
    }
}

} // verus!
