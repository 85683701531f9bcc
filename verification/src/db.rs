//! The database handle: one table over one file image, driven by textual
//! queries. The loop around it reads lines, hands their bytes in, renders
//! the replies, and persists the file image after `.exit`.

use vstd::prelude::*;

use crate::layout::LEAF_NODE_MAX_CELLS;
use crate::pager::{spec_backfill, Pager};
use crate::row::{spec_row_bytes, spec_row_fits, spec_row_of_bytes, Row, RowV};
use crate::statement::{
    spec_insert_keyword, spec_parse_u32, spec_select_keyword, spec_starts_with, spec_token_end,
    ExecuteError, Statement, StatementError,
};
use crate::table::{spec_rows_of_page, Table};

verus! {

/// A database-level failure: the flush on close was refused, or the file the
/// store was opened over is corrupt.
#[derive(Debug, PartialEq, Eq)]
pub enum DatabaseError {
    CloseError,
    Corrupt,
}

/// Whether the loop around the store should go on after a query.
#[derive(Debug, PartialEq, Eq)]
pub enum HandleDBQueryStatusCode {
    Exit,
    Continue,
}

/// What handling one query came to, for the surrounding loop to render.
pub enum QueryReply {
    /// `.exit`: the store flushed its pages; the loop should persist the
    /// file image and stop.
    Exit,
    /// Blank input; nothing happened.
    Empty,
    /// A dot-command other than `.exit`, none of which are implemented.
    MetaUnrecognised,
    /// An insert was carried out.
    Executed,
    /// A select was carried out; the rows, in cell order.
    Selected(Vec<Row>),
    /// The query did not parse.
    StatementFailed(StatementError),
    /// The statement parsed but could not be carried out.
    ExecuteFailed(ExecuteError),
}

impl QueryReply {
    /// The status the loop acts on: stop after `Exit`, go on otherwise.
    pub fn status(&self) -> (r: HandleDBQueryStatusCode)
        ensures
            r == (if self is Exit {
                HandleDBQueryStatusCode::Exit
            } else {
                HandleDBQueryStatusCode::Continue
            }),
    {
        match self {
            Self::Exit => HandleDBQueryStatusCode::Exit,
            _ => HandleDBQueryStatusCode::Continue,
        }
    }
}

/// An ASCII whitespace byte: space, tab, line feed or carriage return.
pub open spec fn spec_is_ws(b: u8) -> bool {
    b == 32 || b == 9 || b == 10 || b == 13
}

/// `s` with leading and trailing ASCII whitespace removed.
pub open spec fn spec_trim_ws(s: Seq<u8>) -> Seq<u8>
    decreases s.len(),
{
    if s.len() > 0 && spec_is_ws(s[0]) {
        spec_trim_ws(s.subrange(1, s.len() as int))
    } else if s.len() > 0 && spec_is_ws(s[s.len() - 1]) {
        spec_trim_ws(s.drop_last())
    } else {
        s
    }
}

/// The bytes of the command `.exit`, in ASCII.
pub open spec fn spec_exit_command() -> Seq<u8> {
    seq![46u8, 101u8, 120u8, 105u8, 116u8]
}

/// What `handle_query` replies to each query, and what it does to the rows:
/// the decision tree over the trimmed input, token by token.
pub open spec fn spec_handle_outcome(
    raw: Seq<u8>,
    rows0: Seq<RowV>,
    rows1: Seq<RowV>,
    r: QueryReply,
) -> bool {
    let q = spec_trim_ws(raw);
    let dot = q.len() > 0 && q[0] == 46;
    let ins = spec_starts_with(q, spec_insert_keyword());
    let sel = spec_starts_with(q, spec_select_keyword());
    let e0 = spec_token_end(q, 0);
    let e1 = spec_token_end(q, e0 + 1);
    let id_token = q.subrange(e0 + 1, e1);
    let e2 = spec_token_end(q, e1 + 1);
    let username_token = q.subrange(e1 + 1, e2);
    let e3 = spec_token_end(q, e2 + 1);
    let email_token = q.subrange(e2 + 1, e3);
    &&& (q.len() == 0 ==> r is Empty && rows1 == rows0)
    &&& (q == spec_exit_command() ==> r is Exit && rows1 == rows0)
    &&& (dot && q != spec_exit_command() ==> r is MetaUnrecognised && rows1 == rows0)
    &&& (q.len() > 0 && !dot ==> {
        &&& (!ins && !sel ==> (r matches QueryReply::StatementFailed(
            StatementError::UnrecognisedStatement,
        )) && rows1 == rows0)
        &&& (!ins && sel ==> (r matches QueryReply::Selected(rows) && rows@.len() == rows0.len()
            && (forall|j: int| 0 <= j < rows@.len() ==> (#[trigger] rows@[j])@ == rows0[j]))
            && rows1 == rows0)
        &&& (ins ==> {
            &&& (e0 >= q.len() ==> (r matches QueryReply::StatementFailed(
                StatementError::SynthaxError(m),
            ) && m@ == "invalid id"@) && rows1 == rows0)
            &&& (e0 < q.len() && spec_parse_u32(id_token) is None ==> (r matches
                QueryReply::StatementFailed(StatementError::ValidationError(m)) && m@
                == "Integer value for 'id' cannot be negative"@) && rows1 == rows0)
            &&& (e0 < q.len() && spec_parse_u32(id_token) is Some ==> {
                &&& (e1 >= q.len() ==> (r matches QueryReply::StatementFailed(
                    StatementError::SynthaxError(m),
                ) && m@ == "invalid username"@) && rows1 == rows0)
                &&& (e1 < q.len() && e2 >= q.len() ==> (r matches QueryReply::StatementFailed(
                    StatementError::SynthaxError(m),
                ) && m@ == "invalid email"@) && rows1 == rows0)
                &&& (e1 < q.len() && e2 < q.len() ==> {
                    let row = RowV {
                        id: spec_parse_u32(id_token)->Some_0,
                        username: username_token,
                        email: email_token,
                    };
                    &&& (rows0.len() >= LEAF_NODE_MAX_CELLS ==> (r matches
                        QueryReply::ExecuteFailed(ExecuteError::TableFull)) && rows1 == rows0)
                    &&& (rows0.len() < LEAF_NODE_MAX_CELLS && spec_row_fits(row) ==> r is Executed
                        && rows1 == rows0.push(spec_row_of_bytes(spec_row_bytes(row))))
                    &&& (rows0.len() < LEAF_NODE_MAX_CELLS && !spec_row_fits(row) ==> (r matches
                        QueryReply::ExecuteFailed(ExecuteError::SerializationFail(m)) && m@
                        == "String value for '"@ + (if row.username.len()
                        > crate::layout::USERNAME_SIZE {
                        "username"@
                    } else {
                        "email"@
                    }) + "' too long."@) && rows1 == rows0)
                })
            })
        })
    })
}

/// An ASCII whitespace byte.
fn is_ws_byte(b: u8) -> (r: bool)
    ensures
        r == spec_is_ws(b),
{
    b == 32 || b == 9 || b == 10 || b == 13
}

/// `s` with leading and trailing ASCII whitespace removed.
fn trim_ws(s: &[u8]) -> (r: Vec<u8>)
    ensures
        r@ == spec_trim_ws(s@),
{
    let mut start: usize = 0;
    proof {
        assert(s@.subrange(0, s@.len() as int) =~= s@);
    }
    while start < s.len() && is_ws_byte(s[start])
        invariant
            start <= s@.len(),
            spec_trim_ws(s@) == spec_trim_ws(s@.subrange(start as int, s@.len() as int)),
        decreases s@.len() - start,
    {
        proof {
            let t = s@.subrange(start as int, s@.len() as int);
            assert(t.subrange(1, t.len() as int) =~= s@.subrange(
                start + 1,
                s@.len() as int,
            ));
        }
        start = start + 1;
    }
    let mut end: usize = s.len();
    while end > start && is_ws_byte(s[end - 1])
        invariant
            start <= end <= s@.len(),
            start < s@.len() ==> !spec_is_ws(s@[start as int]),
            spec_trim_ws(s@) == spec_trim_ws(s@.subrange(start as int, end as int)),
        decreases end,
    {
        proof {
            let t = s@.subrange(start as int, end as int);
            assert(t.drop_last() =~= s@.subrange(start as int, end - 1));
        }
        end = end - 1;
    }
    let r = crate::byteops::read_bytes_slice(s, start, end - start);
    proof {
        let t = s@.subrange(start as int, end as int);
        assert(r@ == t);
        assert(spec_trim_ws(t) == t);
    }
    r
}

/// `a` and `b` hold the same bytes.
fn bytes_eq(a: &[u8], b: &[u8]) -> (r: bool)
    ensures
        r == (a@ == b@),
{
    if a.len() != b.len() {
        proof {
            assert(a@ != b@);
        }
        return false;
    }
    let mut i: usize = 0;
    while i < a.len()
        invariant
            i <= a@.len(),
            a@.len() == b@.len(),
            forall|k: int| 0 <= k < i ==> a@[k] == b@[k],
        decreases a@.len() - i,
    {
        if a[i] != b[i] {
            return false;
        }
        i = i + 1;
    }
    proof {
        assert(a@ =~= b@);
    }
    true
}

/// The store: one table over one file image.
pub struct Database {
    table: Table,
}

impl Database {
    #[verifier::type_invariant]
    spec fn inv(self) -> bool {
        self.table.wf()
    }

    /// The rows the store holds, in cell order.
    pub closed spec fn spec_rows(self) -> Seq<RowV> {
        self.table.spec_rows()
    }

    /// The current image of the backing file.
    pub closed spec fn spec_file(self) -> Seq<u8> {
        self.table.pager.file@
    }

    /// A table over no file at all, to stand in while the real one is
    /// borrowed.
    fn blank_table() -> (t: Table)
        ensures
            t.wf(),
    {
        proof {
            crate::node::lemma_empty_leaf_page_ok();
        }
        Table::new(Pager { pages: Vec::new(), file: Vec::new(), page_count: 0 })
    }

    /// Opens a store over the contents of its backing file. The file is
    /// corrupt — and the store refuses to open — when its length is not a
    /// whole number of pages, or when its first page cannot serve as the
    /// root leaf.
    pub fn try_new(file_bytes: Vec<u8>) -> (r: Result<Self, DatabaseError>)
        ensures
            ({
                let ok = file_bytes@.len() as int % (crate::layout::PAGER_PAGE_SIZE as int) == 0
                    && crate::node::spec_leaf_ok(spec_backfill(file_bytes@, 0));
                &&& ok <==> r is Ok
                &&& !ok <==> r == Err::<Self, DatabaseError>(DatabaseError::Corrupt)
                &&& (r matches Ok(db) ==> db.spec_file() == file_bytes@ && db.spec_rows()
                    == spec_rows_of_page(spec_backfill(file_bytes@, 0)))
            }),
    {
        let pager = match Pager::try_new(file_bytes) {
            Ok(pager) => pager,
            Err(_) => {
                return Err(DatabaseError::Corrupt);
            },
        };
        let mut table = Table::new(pager);
        let root = table.pager.get_page_mut(0);
        if !root.node_is_leaf() {
            return Err(DatabaseError::Corrupt);
        }
        if root.cell_count() > LEAF_NODE_MAX_CELLS {
            return Err(DatabaseError::Corrupt);
        }
        proof {
            assert(table.spec_rows() =~= spec_rows_of_page(spec_backfill(file_bytes@, 0)));
        }
        Ok(Self { table })
    }

    /// The current image of the backing file, for the caller to persist.
    pub fn file_image(&self) -> (r: &Vec<u8>)
        ensures
            r@ == self.spec_file(),
    {
        &self.table.pager.file
    }

    /// Handles one line of input: blank lines and `.exit` and other
    /// dot-commands are dealt with here, everything else is parsed as a
    /// statement and run against the table.
    pub fn handle_query(&mut self, query: &[u8]) -> (r: Result<QueryReply, DatabaseError>)
        ensures
            ({
                &&& r is Ok
                &&& (r matches Ok(reply) ==> spec_handle_outcome(
                    query@,
                    old(self).spec_rows(),
                    final(self).spec_rows(),
                    reply,
                ))
                &&& !(r matches Ok(QueryReply::Exit)) ==> final(self).spec_file() == old(
                    self,
                ).spec_file()
                &&& (r matches Ok(QueryReply::Exit)) ==> spec_rows_of_page(
                    spec_backfill(final(self).spec_file(), 0),
                ) == old(self).spec_rows()
            }),
    {
        proof {
            use_type_invariant(&*self);
        }
        let q = trim_ws(query);
        if q.len() == 0 {
            return Ok(QueryReply::Empty);
        }
        let exit_command: Vec<u8> = vec![46u8, 101u8, 120u8, 105u8, 116u8];
        proof {
            assert(exit_command@ =~= spec_exit_command());
        }
        if bytes_eq(q.as_slice(), exit_command.as_slice()) {
            return match self.close() {
                Ok(()) => Ok(QueryReply::Exit),
                Err(e) => Err(e),
            };
        }
        if q[0] == 46 {
            let _ = crate::meta::handle(q.as_slice());
            return Ok(QueryReply::MetaUnrecognised);
        }
        let statement = match Statement::new(q.as_slice()) {
            Ok(statement) => statement,
            Err(e) => {
                return Ok(QueryReply::StatementFailed(e));
            },
        };
        let mut table = Self::blank_table();
        core::mem::swap(&mut table, &mut self.table);
        let outcome = statement.execute(&mut table);
        core::mem::swap(&mut table, &mut self.table);
        match outcome {
            Ok(rows) => match statement {
                Statement::Select => Ok(QueryReply::Selected(rows)),
                Statement::Insert { .. } => Ok(QueryReply::Executed),
            },
            Err(e) => Ok(QueryReply::ExecuteFailed(e)),
        }
    }

    /// Flushes every cached page into the file image, for the caller to
    /// persist: the clean-shutdown hook. Whatever rows the store held can be
    /// read back from the image that results.
    pub fn close(&mut self) -> (r: Result<(), DatabaseError>)
        ensures
            r is Ok,
            final(self).spec_rows() == old(self).spec_rows(),
            spec_rows_of_page(spec_backfill(final(self).spec_file(), 0)) == old(self).spec_rows(),
    {
        proof {
            use_type_invariant(&*self);
        }
        let mut table = Self::blank_table();
        core::mem::swap(&mut table, &mut self.table);
        let ghost before = table;
        let flushed = table.flush_pages();
        proof {
            if before.pager.pages@.len() >= 1 {
                crate::table::lemma_rows_survive_flush(before);
            } else {
                assert(spec_backfill(table.pager.file@, 0) == before.pager.spec_fetched(0));
            }
        }
        core::mem::swap(&mut table, &mut self.table);
        match flushed {
            Ok(()) => Ok(()),
            Err(_) => Err(DatabaseError::CloseError),
        }
    }
}

} // verus!
