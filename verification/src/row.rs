//! The row codec: one fixed-schema record, encoded into a fixed-width byte
//! region as a 4-byte big-endian id followed by two zero-padded byte-string
//! fields, and decoded back by trimming the trailing zero padding.
//!
//! The string fields are byte strings: how they are rendered as text is the
//! caller's concern. A field whose last byte is zero loses that byte to the
//! padding trim on decode, so such values are not round-trip safe.

use vstd::prelude::*;

use crate::byteops::{
    read_u32_be, splice, spec_u32_from_be, spec_u32_to_be, write_bytes, write_u32_be,
};
use crate::layout::{
    EMAIL_OFFSET, EMAIL_SIZE, ID_OFFSET, ROW_SIZE, USERNAME_OFFSET, USERNAME_SIZE,
};

verus! {

/// The logical record: an integer identifier and two capped byte strings.
#[derive(Debug, PartialEq, Eq)]
pub struct Row {
    pub id: u32,
    pub username: Vec<u8>,
    pub email: Vec<u8>,
}

/// The mathematical model of a row.
#[verifier::ext_equal]
pub struct RowV {
    pub id: u32,
    pub username: Seq<u8>,
    pub email: Seq<u8>,
}

impl View for Row {
    type V = RowV;

    open spec fn view(&self) -> RowV {
        RowV { id: self.id, username: self.username@, email: self.email@ }
    }
}

/// Failure to encode a row: a string field longer than its fixed capacity.
/// The payload names the offending field.
#[derive(Debug, PartialEq, Eq)]
pub enum RowSerializationError {
    StringTooLong { field: String },
}

/// `n` zero bytes.
pub open spec fn zeros(n: int) -> Seq<u8> {
    Seq::new(n as nat, |i: int| 0u8)
}

/// `field` left-aligned in a region of `width` bytes, zero-padded.
pub open spec fn pad(field: Seq<u8>, width: int) -> Seq<u8>
    recommends
        field.len() <= width,
{
    field + zeros(width - field.len())
}

/// `b` with every trailing zero byte removed.
pub open spec fn trim_trailing_zeros(b: Seq<u8>) -> Seq<u8>
    decreases b.len(),
{
    if b.len() > 0 && b[b.len() - 1] == 0 {
        trim_trailing_zeros(b.drop_last())
    } else {
        b
    }
}

/// Both string fields fit their fixed-width regions.
pub open spec fn spec_row_fits(r: RowV) -> bool {
    r.username.len() <= USERNAME_SIZE && r.email.len() <= EMAIL_SIZE
}

/// The wire format of a row: big-endian id, zero-padded username, zero-padded
/// email, `ROW_SIZE` bytes in all.
pub open spec fn spec_row_bytes(r: RowV) -> Seq<u8>
    recommends
        spec_row_fits(r),
{
    spec_u32_to_be(r.id) + pad(r.username, USERNAME_SIZE as int) + pad(r.email, EMAIL_SIZE as int)
}

/// The row stored in a `ROW_SIZE`-byte region.
pub open spec fn spec_row_of_bytes(b: Seq<u8>) -> RowV
    recommends
        b.len() == ROW_SIZE,
{
    RowV {
        id: spec_u32_from_be(b.subrange(ID_OFFSET as int, ID_OFFSET + 4)),
        username: trim_trailing_zeros(
            b.subrange(USERNAME_OFFSET as int, USERNAME_OFFSET + USERNAME_SIZE),
        ),
        email: trim_trailing_zeros(b.subrange(EMAIL_OFFSET as int, EMAIL_OFFSET + EMAIL_SIZE)),
    }
}

/// Trimming the zero padding recovers a field that does not itself end in a
/// zero byte.
pub proof fn lemma_trim_pad(field: Seq<u8>, width: int)
    requires
        field.len() <= width,
        field.len() == 0 || field[field.len() - 1] != 0,
    ensures
        trim_trailing_zeros(pad(field, width)) == field,
    decreases width - field.len(),
{
    if field.len() == width {
        assert(pad(field, width) =~= field);
    } else {
        let p = pad(field, width);
        assert(p[p.len() - 1] == 0);
        assert(p.drop_last() =~= pad(field, width - 1));
        lemma_trim_pad(field, width - 1);
    }
}

/// Round-trip law: decoding an encoded row recovers it, for any row whose
/// fields are within capacity and whose fields do not end in a zero byte.
pub proof fn lemma_row_round_trip(r: RowV)
    requires
        spec_row_fits(r),
        r.username.len() == 0 || r.username[r.username.len() - 1] != 0,
        r.email.len() == 0 || r.email[r.email.len() - 1] != 0,
    ensures
        spec_row_of_bytes(spec_row_bytes(r)) == r,
{
    let b = spec_row_bytes(r);
    crate::byteops::lemma_u32_be_round_trip(r.id);
    assert(b.subrange(ID_OFFSET as int, ID_OFFSET + 4) =~= spec_u32_to_be(r.id));
    assert(b.subrange(USERNAME_OFFSET as int, USERNAME_OFFSET + USERNAME_SIZE) =~= pad(
        r.username,
        USERNAME_SIZE as int,
    ));
    assert(b.subrange(EMAIL_OFFSET as int, EMAIL_OFFSET + EMAIL_SIZE) =~= pad(
        r.email,
        EMAIL_SIZE as int,
    ));
    lemma_trim_pad(r.username, USERNAME_SIZE as int);
    lemma_trim_pad(r.email, EMAIL_SIZE as int);
    assert(spec_row_of_bytes(spec_row_bytes(r)) =~= r);
}

impl Row {
    pub fn new(id: u32, username: Vec<u8>, email: Vec<u8>) -> (r: Self)
        ensures
            r@ == (RowV { id, username: username@, email: email@ }),
    {
        Self { id, username, email }
    }

    /// Writes `column_value` zero-padded to `column_size` bytes into `dest`
    /// at `offset`, or reports which field was too long without touching
    /// `dest`.
    fn serialize_string_column(
        column_name: &str,
        column_value: &Vec<u8>,
        column_size: usize,
        offset: usize,
        dest: &mut Vec<u8>,
    ) -> (r: Result<(), RowSerializationError>)
        requires
            offset + column_size <= old(dest).len(),
        ensures
            column_value@.len() <= column_size ==> r is Ok && final(dest)@ == splice(
                old(dest)@,
                offset as int,
                pad(column_value@, column_size as int),
            ),
            column_value@.len() > column_size ==> (r matches Err(
                RowSerializationError::StringTooLong { field },
            ) && field@ == column_name@) && final(dest)@ == old(dest)@,
    {
        if column_value.len() > column_size {
            return Err(RowSerializationError::StringTooLong { field: column_name.to_owned() });
        }
        let mut column_buf = column_value.clone();
        while column_buf.len() < column_size
            invariant
                column_value@.len() <= column_buf@.len() <= column_size,
                column_buf@ == pad(column_value@, column_buf@.len() as int),
            decreases column_size - column_buf@.len(),
        {
            column_buf.push(0);
            assert(column_buf@ =~= pad(column_value@, column_buf@.len() as int));
        }
        write_bytes(dest, offset, &column_buf);
        Ok(())
    }

    /// Writes the id as a 4-byte big-endian integer into `dest` at `offset`.
    fn serialize_integer_column(column_value: u32, offset: usize, dest: &mut Vec<u8>)
        requires
            offset + 4 <= old(dest).len(),
        ensures
            final(dest)@ == splice(old(dest)@, offset as int, spec_u32_to_be(column_value)),
    {
        write_u32_be(dest, offset, column_value);
    }

    /// Encodes this row into the `ROW_SIZE` bytes of `dest` at `offset`.
    ///
    /// Both fields are validated before anything is written: on error the
    /// destination is untouched, and the error names the offending field,
    /// the username being checked first.
    pub fn serialize(&self, dest: &mut Vec<u8>, offset: usize) -> (r: Result<
        (),
        RowSerializationError,
    >)
        requires
            offset + ROW_SIZE <= old(dest).len(),
        ensures
            spec_row_fits(self@) ==> r is Ok && final(dest)@ == splice(
                old(dest)@,
                offset as int,
                spec_row_bytes(self@),
            ),
            !spec_row_fits(self@) ==> final(dest)@ == old(dest)@ && (r matches Err(
                RowSerializationError::StringTooLong { field },
            ) && field@ == (if self.username@.len() > USERNAME_SIZE {
                "username"@
            } else {
                "email"@
            })),
    {
        if self.username.len() > USERNAME_SIZE {
            return Err(RowSerializationError::StringTooLong { field: "username".to_owned() });
        }
        if self.email.len() > EMAIL_SIZE {
            return Err(RowSerializationError::StringTooLong { field: "email".to_owned() });
        }
        Self::serialize_integer_column(self.id, offset + ID_OFFSET, dest);
        let r1 = Self::serialize_string_column(
            "username",
            &self.username,
            USERNAME_SIZE,
            offset + USERNAME_OFFSET,
            dest,
        );
        let r2 = Self::serialize_string_column(
            "email",
            &self.email,
            EMAIL_SIZE,
            offset + EMAIL_OFFSET,
            dest,
        );
        proof {
            assert(r1 is Ok && r2 is Ok);
            assert(final(dest)@ =~= splice(old(dest)@, offset as int, spec_row_bytes(self@)));
        }
        Ok(())
    }

    /// Reads the fixed-width region at `off ..= off + len` and strips its
    /// trailing zero padding.
    fn deserialize_string_column(src: &[u8], off: usize, len: usize) -> (r: Vec<u8>)
        requires
            off + len <= src.len(),
        ensures
            r@ == trim_trailing_zeros(src@.subrange(off as int, off + len)),
    {
        let mut r: Vec<u8> = Vec::new();
        let mut i: usize = 0;
        while i < len
            invariant
                i <= len,
                off + len <= src.len(),
                r@ == src@.subrange(off as int, off + i),
            decreases len - i,
        {
            r.push(src[off + i]);
            i = i + 1;
            assert(r@ =~= src@.subrange(off as int, off + i));
        }
        while r.len() > 0 && r[r.len() - 1] == 0
            invariant
                trim_trailing_zeros(r@) == trim_trailing_zeros(
                    src@.subrange(off as int, off + len),
                ),
            decreases r@.len(),
        {
            let ghost before = r@;
            r.pop();
            assert(r@ =~= before.drop_last());
        }
        r
    }

    /// Decodes the row stored in the first `ROW_SIZE` bytes of `src`.
    pub fn deserialize(src: &[u8]) -> (r: Self)
        requires
            src.len() >= ROW_SIZE,
        ensures
            r@ == spec_row_of_bytes(src@.subrange(0, ROW_SIZE as int)),
    {
        let id = (src[ID_OFFSET] as u32) << 24 | (src[ID_OFFSET + 1] as u32) << 16 | (src[ID_OFFSET
            + 2] as u32) << 8 | (src[ID_OFFSET + 3] as u32);
        let username = Self::deserialize_string_column(src, USERNAME_OFFSET, USERNAME_SIZE);
        let email = Self::deserialize_string_column(src, EMAIL_OFFSET, EMAIL_SIZE);
        proof {
            let b = src@.subrange(0, ROW_SIZE as int);
            assert(b.subrange(ID_OFFSET as int, ID_OFFSET + 4) =~= src@.subrange(
                ID_OFFSET as int,
                ID_OFFSET + 4,
            ));
            assert(b.subrange(USERNAME_OFFSET as int, USERNAME_OFFSET + USERNAME_SIZE)
                =~= src@.subrange(USERNAME_OFFSET as int, USERNAME_OFFSET + USERNAME_SIZE));
            assert(b.subrange(EMAIL_OFFSET as int, EMAIL_OFFSET + EMAIL_SIZE) =~= src@.subrange(
                EMAIL_OFFSET as int,
                EMAIL_OFFSET + EMAIL_SIZE,
            ));
        }
        Self { id, username, email }
    }
}

} // verus!
