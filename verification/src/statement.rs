//! The statement layer: the tiny command parser for `insert` and `select`,
//! and the executor that drives the cursor, pager and row codec.
//!
//! Commands are parsed from raw bytes; how the surrounding loop reads lines
//! and renders results is its own concern.

use vstd::prelude::*;

use crate::cursor::Cursor;
use crate::layout::LEAF_NODE_MAX_CELLS;
use crate::node::{spec_cell_count, NodeError};
use crate::row::{
    spec_row_bytes, spec_row_fits, spec_row_of_bytes, Row, RowSerializationError, RowV,
};
use crate::table::Table;

verus! {

/// A parsed command.
pub enum Statement {
    Select,
    Insert { row: Row },
}

/// Failure to parse a command: an unknown keyword, a missing token, or an
/// id that is not a 32-bit unsigned decimal number.
#[derive(Debug)]
pub enum StatementError {
    UnrecognisedStatement,
    SynthaxError(String),
    ValidationError(String),
}

/// Failure to execute a command: the one leaf is at capacity, or a row field
/// overran its width.
#[derive(Debug)]
pub enum ExecuteError {
    TableFull,
    SerializationFail(String),
}

/// The bytes of the keyword `insert`, in ASCII.
pub open spec fn spec_insert_keyword() -> Seq<u8> {
    seq![105u8, 110u8, 115u8, 101u8, 114u8, 116u8]
}

/// The bytes of the keyword `select`, in ASCII.
pub open spec fn spec_select_keyword() -> Seq<u8> {
    seq![115u8, 101u8, 108u8, 101u8, 99u8, 116u8]
}

/// `s` begins with `prefix`.
pub open spec fn spec_starts_with(s: Seq<u8>, prefix: Seq<u8>) -> bool {
    s.len() >= prefix.len() && s.subrange(0, prefix.len() as int) == prefix
}

/// Where the token starting at `from` ends: the first space at or after it,
/// or the end of the input.
pub open spec fn spec_token_end(s: Seq<u8>, from: int) -> int
    decreases s.len() - from,
{
    if from < 0 || from >= s.len() {
        s.len() as int
    } else if s[from] == 32 {
        from
    } else {
        spec_token_end(s, from + 1)
    }
}

/// An ASCII decimal digit.
pub open spec fn spec_is_digit(b: u8) -> bool {
    48 <= b <= 57
}

/// Every byte is a digit, and there is at least one.
pub open spec fn spec_all_digits(s: Seq<u8>) -> bool {
    s.len() > 0 && forall|k: int| 0 <= k < s.len() ==> spec_is_digit(#[trigger] s[k])
}

/// The value of a string of decimal digits.
pub open spec fn spec_digits_value(s: Seq<u8>) -> int
    decreases s.len(),
{
    if s.len() == 0 {
        0
    } else {
        spec_digits_value(s.drop_last()) * 10 + (s.last() - 48)
    }
}

/// The number a token denotes: defined exactly when the token is nothing but
/// decimal digits and its value fits in 32 bits.
pub open spec fn spec_parse_u32(s: Seq<u8>) -> Option<u32> {
    if spec_all_digits(s) && spec_digits_value(s) <= u32::MAX {
        Some(spec_digits_value(s) as u32)
    } else {
        None
    }
}

/// A digit string's value is never negative.
pub proof fn lemma_digits_value_nonneg(s: Seq<u8>)
    requires
        forall|k: int| 0 <= k < s.len() ==> spec_is_digit(#[trigger] s[k]),
    ensures
        spec_digits_value(s) >= 0,
    decreases s.len(),
{
    if s.len() > 0 {
        lemma_digits_value_nonneg(s.drop_last());
    }
}

/// Extending a digit string never lowers its value.
pub proof fn lemma_digits_value_mono(s: Seq<u8>, i: int, j: int)
    requires
        0 <= i <= j <= s.len(),
        forall|k: int| 0 <= k < s.len() ==> spec_is_digit(#[trigger] s[k]),
    ensures
        spec_digits_value(s.subrange(0, i)) <= spec_digits_value(s.subrange(0, j)),
    decreases j - i,
{
    if i < j {
        let p = s.subrange(0, j);
        assert(p.drop_last() =~= s.subrange(0, j - 1));
        assert(forall|k: int|
            0 <= k < s.subrange(0, j - 1).len() ==> spec_is_digit(
                #[trigger] s.subrange(0, j - 1)[k],
            ));
        lemma_digits_value_nonneg(s.subrange(0, j - 1));
        lemma_digits_value_mono(s, i, j - 1);
    }
}

/// Where the token starting at `from` ends.
fn token_end(s: &[u8], from: usize) -> (r: usize)
    requires
        from <= s.len(),
    ensures
        r == spec_token_end(s@, from as int),
        from <= r <= s@.len(),
{
    let mut i = from;
    while i < s.len()
        invariant
            from <= i <= s@.len(),
            spec_token_end(s@, from as int) == spec_token_end(s@, i as int),
        decreases s@.len() - i,
    {
        if s[i] == 32 {
            return i;
        }
        i = i + 1;
    }
    i
}

/// Parses a token as a 32-bit unsigned decimal number.
fn parse_u32_bytes(s: &[u8]) -> (r: Option<u32>)
    ensures
        r == spec_parse_u32(s@),
{
    if s.len() == 0 {
        return None;
    }
    let mut acc: u32 = 0;
    let mut i: usize = 0;
    while i < s.len()
        invariant
            0 < s@.len(),
            i <= s@.len(),
            forall|k: int| 0 <= k < i ==> spec_is_digit(#[trigger] s@[k]),
            acc == spec_digits_value(s@.subrange(0, i as int)),
        decreases s@.len() - i,
    {
        let b = s[i];
        if b < 48 || b > 57 {
            return None;
        }
        let d = (b - 48) as u32;
        if acc > (0xffff_ffffu32 - d) / 10 {
            proof {
                if spec_all_digits(s@) {
                    assert(s@.subrange(0, i + 1).drop_last() =~= s@.subrange(0, i as int));
                    assert(s@.subrange(0, i + 1).last() == s@[i as int]);
                    assert(spec_digits_value(s@.subrange(0, i + 1)) == acc * 10 + d);
                    lemma_digits_value_mono(s@, i + 1, s@.len() as int);
                    assert(s@.subrange(0, s@.len() as int) =~= s@);
                }
            }
            return None;
        }
        acc = acc * 10 + d;
        proof {
            assert(s@.subrange(0, i + 1).drop_last() =~= s@.subrange(0, i as int));
            assert(s@.subrange(0, i + 1).last() == s@[i as int]);
        }
        i = i + 1;
    }
    proof {
        assert(s@.subrange(0, s@.len() as int) =~= s@);
    }
    Some(acc)
}

/// `s` begins with the six bytes of `keyword`.
fn starts_with_keyword(s: &[u8], keyword: &[u8]) -> (r: bool)
    ensures
        r == spec_starts_with(s@, keyword@),
{
    if s.len() < keyword.len() {
        return false;
    }
    let mut i: usize = 0;
    while i < keyword.len()
        invariant
            i <= keyword@.len() <= s@.len(),
            forall|k: int| 0 <= k < i ==> s@[k] == keyword@[k],
        decreases keyword@.len() - i,
    {
        if s[i] != keyword[i] {
            proof {
                assert(s@.subrange(0, keyword@.len() as int)[i as int] != keyword@[i as int]);
            }
            return false;
        }
        i = i + 1;
    }
    proof {
        assert(s@.subrange(0, keyword@.len() as int) =~= keyword@);
    }
    true
}

/// Copies the token at `from ..= to` out of the input.
fn copy_token(s: &[u8], from: usize, to: usize) -> (r: Vec<u8>)
    requires
        from <= to <= s.len(),
    ensures
        r@ == s@.subrange(from as int, to as int),
{
    let mut r: Vec<u8> = Vec::new();
    let mut i = from;
    while i < to
        invariant
            from <= i <= to <= s@.len(),
            r@ == s@.subrange(from as int, i as int),
        decreases to - i,
    {
        r.push(s[i]);
        i = i + 1;
        proof {
            assert(r@ =~= s@.subrange(from as int, i as int));
        }
    }
    r
}

impl Statement {
    /// Parses one command. `insert <id> <username> <email>` inserts a row,
    /// `select` scans; tokens are the space-separated pieces of the input,
    /// exactly as written.
    pub fn new(token: &[u8]) -> (r: Result<Self, StatementError>)
        ensures
            spec_parse_outcome(token@, r),
    {
        Self::parse_token_to_statement(token)
    }

    fn parse_token_to_statement(s: &[u8]) -> (r: Result<Self, StatementError>)
        ensures
            spec_parse_outcome(s@, r),
    {
        let insert_kw: Vec<u8> = vec![105u8, 110u8, 115u8, 101u8, 114u8, 116u8];
        let select_kw: Vec<u8> = vec![115u8, 101u8, 108u8, 101u8, 99u8, 116u8];
        proof {
            assert(insert_kw@ =~= spec_insert_keyword());
            assert(select_kw@ =~= spec_select_keyword());
        }
        if starts_with_keyword(s, insert_kw.as_slice()) {
            // The first token is the keyword itself; the id, username and
            // email follow.
            let e0 = token_end(s, 0);
            if e0 >= s.len() {
                return Err(StatementError::SynthaxError("invalid id".to_owned()));
            }
            let e1 = token_end(s, e0 + 1);
            let id = match parse_u32_bytes(copy_token(s, e0 + 1, e1).as_slice()) {
                Some(id) => id,
                None => {
                    return Err(
                        StatementError::ValidationError(
                            "Integer value for 'id' cannot be negative".to_owned(),
                        ),
                    );
                },
            };
            if e1 >= s.len() {
                return Err(StatementError::SynthaxError("invalid username".to_owned()));
            }
            let e2 = token_end(s, e1 + 1);
            let username = copy_token(s, e1 + 1, e2);
            if e2 >= s.len() {
                return Err(StatementError::SynthaxError("invalid email".to_owned()));
            }
            let e3 = token_end(s, e2 + 1);
            let email = copy_token(s, e2 + 1, e3);
            let row = Row::new(id, username, email);
            Ok(Statement::Insert { row })
        } else if starts_with_keyword(s, select_kw.as_slice()) {
            Ok(Statement::Select)
        } else {
            Err(StatementError::UnrecognisedStatement)
        }
    }

    /// Runs the command against `table`: an insert appends its row at the
    /// table's end, a select returns every row in cell order.
    pub fn execute(&self, table: &mut Table) -> (r: Result<Vec<Row>, ExecuteError>)
        requires
            old(table).wf(),
        ensures
            final(table).wf(),
            final(table).root_page_num == old(table).root_page_num,
            final(table).pager.file@ == old(table).pager.file@,
            self is Select ==> spec_select_outcome(*old(table), *final(table), r),
            (self matches Statement::Insert { row } ==> spec_insert_outcome(
                *old(table),
                *final(table),
                row@,
                r,
            )),
    {
        match self {
            Self::Insert { row } => Self::execute_insert(row, table),
            Self::Select => Self::execute_select(table),
        }
    }

    fn execute_insert(row: &Row, table: &mut Table) -> (r: Result<Vec<Row>, ExecuteError>)
        requires
            old(table).wf(),
        ensures
            final(table).wf(),
            final(table).root_page_num == old(table).root_page_num,
            final(table).pager.file@ == old(table).pager.file@,
            spec_insert_outcome(*old(table), *final(table), row@, r),
    {
        let cursor = Cursor::end(table);
        let mut page = table.pager.get_page_mut(cursor.page());
        match page.insert(row.id, row, cursor.cell_num()) {
            Ok(()) => {
                table.pager.set_page(cursor.page(), page);
                proof {
                    assert(final(table).spec_rows() =~= old(table).spec_rows().push(
                        spec_row_of_bytes(spec_row_bytes(row@)),
                    ));
                }
                Ok(Vec::new())
            },
            Err(NodeError::NodeFullInsertError) => Err(ExecuteError::TableFull),
            Err(NodeError::SerializationError(RowSerializationError::StringTooLong {
                field,
            })) => {
                let mut message = String::from_str("String value for '");
                message.append(field.as_str());
                message.append("' too long.");
                Err(ExecuteError::SerializationFail(message))
            },
        }
    }

    fn execute_select(table: &mut Table) -> (r: Result<Vec<Row>, ExecuteError>)
        requires
            old(table).wf(),
        ensures
            final(table).wf(),
            final(table).root_page_num == old(table).root_page_num,
            final(table).pager.file@ == old(table).pager.file@,
            spec_select_outcome(*old(table), *final(table), r),
    {
        let mut rows: Vec<Row> = Vec::new();
        let mut cursor = Cursor::start(table);
        while !cursor.end_of_table()
            invariant
                table.wf(),
                table.root_page_num == old(table).root_page_num,
                table.pager.file@ == old(table).pager.file@,
                forall|j: int|
                    0 <= j ==> table.pager.spec_fetched(j) == old(table).pager.spec_fetched(j),
                cursor.spec_valid(*table),
                cursor.page == 0,
                rows@.len() == cursor.cell,
                forall|j: int|
                    0 <= j < rows@.len() ==> (#[trigger] rows@[j])@ == table.spec_rows()[j],
            decreases spec_cell_count(table.pager.spec_fetched(0)) - cursor.cell,
        {
            let page = table.pager.get_page_mut(cursor.page());
            let value = page.get_cell_value(cursor.cell_num());
            let row = Row::deserialize(value.as_slice());
            proof {
                assert(value@.subrange(0, crate::layout::ROW_SIZE as int) =~= value@);
            }
            rows.push(row);
            cursor.advance(table);
        }
        proof {
            assert(rows@.len() == table.spec_rows().len());
            assert forall|j: int| 0 <= j < rows@.len() implies (#[trigger] rows@[j])@ == old(
                table,
            ).spec_rows()[j] by {
                assert(rows@[j]@ == table.spec_rows()[j]);
            }
        }
        Ok(rows)
    }
}

/// What `Statement::new` returns for each input, token by token.
pub open spec fn spec_parse_outcome(s: Seq<u8>, r: Result<Statement, StatementError>) -> bool {
    let ins = spec_starts_with(s, spec_insert_keyword());
    let sel = spec_starts_with(s, spec_select_keyword());
    let e0 = spec_token_end(s, 0);
    let e1 = spec_token_end(s, e0 + 1);
    let id_token = s.subrange(e0 + 1, e1);
    let e2 = spec_token_end(s, e1 + 1);
    let username_token = s.subrange(e1 + 1, e2);
    let e3 = spec_token_end(s, e2 + 1);
    let email_token = s.subrange(e2 + 1, e3);
    &&& (!ins && !sel ==> (r matches Err(StatementError::UnrecognisedStatement)))
    &&& (!ins && sel ==> (r matches Ok(Statement::Select)))
    &&& (ins ==> {
        &&& (e0 >= s.len() ==> (r matches Err(StatementError::SynthaxError(m)) && m@
            == "invalid id"@))
        &&& (e0 < s.len() && spec_parse_u32(id_token) is None ==> (r matches Err(
            StatementError::ValidationError(m),
        ) && m@ == "Integer value for 'id' cannot be negative"@))
        &&& (e0 < s.len() && spec_parse_u32(id_token) is Some ==> {
            &&& (e1 >= s.len() ==> (r matches Err(StatementError::SynthaxError(m)) && m@
                == "invalid username"@))
            &&& (e1 < s.len() && e2 >= s.len() ==> (r matches Err(StatementError::SynthaxError(m))
                && m@ == "invalid email"@))
            &&& (e1 < s.len() && e2 < s.len() ==> (r matches Ok(Statement::Insert { row })
                && row@ == RowV {
                id: spec_parse_u32(id_token)->Some_0,
                username: username_token,
                email: email_token,
            }))
        })
    })
}

/// What a select yields: every row the table holds, in cell order, the table
/// itself unchanged.
pub open spec fn spec_select_outcome(
    t0: Table,
    t1: Table,
    r: Result<Vec<Row>, ExecuteError>,
) -> bool {
    &&& t1.spec_rows() == t0.spec_rows()
    &&& (r matches Ok(rows) && rows@.len() == t0.spec_rows().len() && (forall|j: int|
        0 <= j < rows@.len() ==> (#[trigger] rows@[j])@ == t0.spec_rows()[j]))
}

/// What an insert does: appended at the end when the leaf has room and the
/// row fits, `TableFull` at capacity, and a serialization failure naming the
/// offending field when a string field is too long — in that order.
pub open spec fn spec_insert_outcome(
    t0: Table,
    t1: Table,
    row: RowV,
    r: Result<Vec<Row>, ExecuteError>,
) -> bool {
    let count = spec_cell_count(t0.pager.spec_fetched(0));
    &&& (count >= LEAF_NODE_MAX_CELLS ==> (r matches Err(ExecuteError::TableFull)) && t1.spec_rows()
        == t0.spec_rows())
    &&& (count < LEAF_NODE_MAX_CELLS && spec_row_fits(row) ==> (r matches Ok(rows) && rows@.len()
        == 0) && t1.spec_rows() == t0.spec_rows().push(spec_row_of_bytes(spec_row_bytes(row))))
    &&& (count < LEAF_NODE_MAX_CELLS && !spec_row_fits(row) ==> (r matches Err(
        ExecuteError::SerializationFail(m),
    ) && m@ == "String value for '"@ + (if row.username.len() > crate::layout::USERNAME_SIZE {
        "username"@
    } else {
        "email"@
    }) + "' too long."@) && t1.spec_rows() == t0.spec_rows())
}

} // verus!
