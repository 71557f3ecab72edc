//! The firmware image file: a header line and one line for each flash
//! row, all in hexadecimal text.

use crate::endian::{read_u16_be, read_u32_be, u16_of, u32_of};
use crate::hexline::{hex_bytes, hex_decode, is_hex};
use vstd::prelude::*;
use vstd::slice::slice_subrange;

verus! {

/// The byte that ends a line.
pub const NEWLINE: u8 = 0x0a;

/// The byte that may precede the end of a line and is then dropped.
pub const CARRIAGE_RETURN: u8 = 0x0d;

/// The byte that opens every row record.
pub const RECORD_MARKER: u8 = 0x3a;

/// Why an image was refused.
#[derive(Clone, Copy, Debug, PartialEq, Eq, Structural)]
pub enum FormatError {
    /// A line is not an even number of hexadecimal digits.
    InvalidHex,
    /// A row record does not begin with the marker.
    MissingMarker,
    /// A record ends before its fixed fields or its checksum byte.
    Truncated,
    /// A row declares more data than its record holds.
    LengthOverrun,
}

/// A flash row as a mathematical value.
pub struct RowModel {
    pub array_id: u8,
    pub row_number: u16,
    pub data: Seq<u8>,
    pub checksum: u8,
}

/// An image as a mathematical value.
pub struct ImageModel {
    pub silicon_id: u32,
    pub silicon_rev: u8,
    pub checksum_kind: u8,
    pub rows: Seq<RowModel>,
}

/// One programmable flash row of an image.
#[derive(Clone, Debug, PartialEq, Eq)]
pub struct BootloaderRow {
    pub array_id: u8,
    pub row_number: u16,
    pub data: Vec<u8>,
    pub checksum: u8,
}

impl View for BootloaderRow {
    type V = RowModel;

    open spec fn view(&self) -> RowModel {
        RowModel {
            array_id: self.array_id,
            row_number: self.row_number,
            data: self.data@,
            checksum: self.checksum,
        }
    }
}

/// A firmware image: the identity of the chip it is for, and its rows in
/// file order.
#[derive(Clone, Debug, PartialEq, Eq)]
pub struct BootloaderData {
    pub silicon_id: u32,
    pub silicon_rev: u8,
    pub checksum_kind: u8,
    pub rows: Vec<BootloaderRow>,
}

/// The rows of a vector as mathematical values, in order.
pub open spec fn row_models(rows: Seq<BootloaderRow>) -> Seq<RowModel> {
    Seq::new(rows.len(), |i: int| rows[i]@)
}

impl View for BootloaderData {
    type V = ImageModel;

    open spec fn view(&self) -> ImageModel {
        ImageModel {
            silicon_id: self.silicon_id,
            silicon_rev: self.silicon_rev,
            checksum_kind: self.checksum_kind,
            rows: row_models(self.rows@),
        }
    }
}

/// The bytes of a line of hexadecimal text.
pub open spec fn line_bytes(line: Seq<u8>) -> Result<Seq<u8>, FormatError> {
    if is_hex(line) {
        Ok(hex_bytes(line))
    } else {
        Err(FormatError::InvalidHex)
    }
}

/// The header that a line holds: four bytes of silicon id, highest first,
/// then the silicon revision and the checksum kind.
pub open spec fn parse_header(line: Seq<u8>) -> Result<(u32, u8, u8), FormatError> {
    match line_bytes(line) {
        Err(e) => Err(e),
        Ok(b) => if b.len() < 6 {
            Err(FormatError::Truncated)
        } else {
            Ok((u32_of(b[3], b[2], b[1], b[0]) as u32, b[4], b[5]))
        },
    }
}

/// The row that a line holds: the marker, then in hexadecimal the array
/// id, two bytes of row number and two bytes of data length, highest
/// first, the data, and a checksum byte.
pub open spec fn parse_row(line: Seq<u8>) -> Result<RowModel, FormatError> {
    if line.len() < 1 {
        Err(FormatError::Truncated)
    } else if line[0] != RECORD_MARKER {
        Err(FormatError::MissingMarker)
    } else {
        match line_bytes(line.skip(1)) {
            Err(e) => Err(e),
            Ok(b) => if b.len() < 5 {
                Err(FormatError::Truncated)
            } else {
                let n = u16_of(b[4], b[3]);
                if b.len() - 5 < n {
                    Err(FormatError::LengthOverrun)
                } else if b.len() - 5 < n + 1 {
                    Err(FormatError::Truncated)
                } else {
                    Ok(
                        RowModel {
                            array_id: b[0],
                            row_number: u16_of(b[2], b[1]) as u16,
                            data: b.subrange(5, 5 + n),
                            checksum: b[5 + n],
                        },
                    )
                }
            },
        }
    }
}

/// The number of bytes before the first newline of `s`, or the length of
/// `s` where it holds none.
pub open spec fn first_newline(s: Seq<u8>) -> int
    decreases s.len(),
{
    if s.len() == 0 || s[0] == NEWLINE {
        0
    } else {
        1 + first_newline(s.skip(1))
    }
}

/// A line without the carriage return that may end it.
pub open spec fn trim_cr(line: Seq<u8>) -> Seq<u8> {
    if line.len() > 0 && line.last() == CARRIAGE_RETURN {
        line.drop_last()
    } else {
        line
    }
}

/// The first line of `s`, without its line ending.
pub open spec fn first_line(s: Seq<u8>) -> Seq<u8> {
    trim_cr(s.take(first_newline(s)))
}

/// What follows the first line of `s` and its newline.
pub open spec fn after_first_line(s: Seq<u8>) -> Seq<u8> {
    let n = first_newline(s);
    if 0 <= n < s.len() {
        s.skip(n + 1)
    } else {
        Seq::empty()
    }
}

/// The rows that the lines of `s` hold, in order. Empty lines are passed
/// over; the first line that is refused decides the error.
pub open spec fn parse_rows(s: Seq<u8>) -> Result<Seq<RowModel>, FormatError>
    decreases s.len(),
{
    if s.len() == 0 {
        Ok(Seq::empty())
    } else if first_line(s).len() == 0 {
        parse_rows(after_first_line(s))
    } else {
        match parse_row(first_line(s)) {
            Err(e) => Err(e),
            Ok(row) => match parse_rows(after_first_line(s)) {
                Err(e) => Err(e),
                Ok(rows) => Ok(seq![row] + rows),
            },
        }
    }
}

/// The image that the text `s` holds: its first line is the header, each
/// later line that is not empty is a row. A text without any line holds
/// an image of zeros without rows.
pub open spec fn parse_image(s: Seq<u8>) -> Result<ImageModel, FormatError> {
    if s.len() == 0 {
        Ok(ImageModel { silicon_id: 0, silicon_rev: 0, checksum_kind: 0, rows: Seq::empty() })
    } else {
        match parse_header(first_line(s)) {
            Err(e) => Err(e),
            Ok(h) => match parse_rows(after_first_line(s)) {
                Err(e) => Err(e),
                Ok(rows) => Ok(
                    ImageModel { silicon_id: h.0, silicon_rev: h.1, checksum_kind: h.2, rows },
                ),
            },
        }
    }
}

/// `acc` followed by the rows of `rest`, or the error of `rest`.
pub open spec fn rows_then(acc: Seq<RowModel>, rest: Result<Seq<RowModel>, FormatError>) -> Result<
    Seq<RowModel>,
    FormatError,
> {
    match rest {
        Err(e) => Err(e),
        Ok(rows) => Ok(acc + rows),
    }
}

/// The first line of the text from `pos` on, and what follows it, as
/// ranges of the whole text.
proof fn lemma_line_pieces(text: Seq<u8>, pos: int, end: int, next: int)
    requires
        0 <= pos <= end <= text.len(),
        end == pos + first_newline(text.skip(pos)),
        next == if end < text.len() { end + 1 } else { end },
    ensures
        first_line(text.skip(pos)) == trim_cr(text.subrange(pos, end)),
        after_first_line(text.skip(pos)) == text.skip(next),
{
    let s = text.skip(pos);
    assert(text.subrange(pos, end) =~= s.take(end - pos));
    assert(after_first_line(s) =~= text.skip(next));
}

/// The models of a vector of rows with one more row at its end.
proof fn lemma_row_models_push(rows: Seq<BootloaderRow>, row: BootloaderRow)
    ensures
        row_models(rows.push(row)) == row_models(rows).push(row@),
{
    assert(row_models(rows.push(row)) =~= row_models(rows).push(row@));
}

/// A row in front of the rest is the same as that row at the end of what
/// came before.
proof fn lemma_rows_then_push(
    acc: Seq<RowModel>,
    row: RowModel,
    rest: Result<Seq<RowModel>, FormatError>,
)
    ensures
        rows_then(
            acc,
            match rest {
                Err(e) => Err(e),
                Ok(rows) => Ok(seq![row] + rows),
            },
        ) == rows_then(acc.push(row), rest),
{
    if rest is Ok {
        assert(acc + (seq![row] + rest->Ok_0) =~= acc.push(row) + rest->Ok_0);
    }
}

/// Decodes a line of hexadecimal text into bytes.
pub fn read_hex_line(line: &[u8]) -> (r: Result<Vec<u8>, FormatError>)
    ensures
        match r {
            Ok(b) => line_bytes(line@) == Ok::<Seq<u8>, FormatError>(b@),
            Err(e) => line_bytes(line@) == Err::<Seq<u8>, FormatError>(e),
        },
{
    match hex_decode(line) {
        Ok(bytes) => Ok(bytes),
        Err(_) => Err(FormatError::InvalidHex),
    }
}

/// Finds the end of the line that starts at `start`: the index of the
/// next newline, or the length of the text.
fn line_end(text: &[u8], start: usize) -> (end: usize)
    requires
        start <= text@.len(),
    ensures
        start <= end <= text@.len(),
        end == start + first_newline(text@.skip(start as int)),
{
    let mut i: usize = start;
    while i < text.len() && text[i] != NEWLINE
        invariant
            start <= i <= text@.len(),
            first_newline(text@.skip(start as int)) == (i - start) + first_newline(
                text@.skip(i as int),
            ),
        decreases text@.len() - i,
    {
        assert(text@.skip(i as int).skip(1) =~= text@.skip(i as int + 1));
        i += 1;
    }
    i
}

/// The line of `text` from `start` to `end`, without a closing carriage
/// return.
fn trimmed<'a>(text: &'a [u8], start: usize, end: usize) -> (line: &'a [u8])
    requires
        start <= end <= text@.len(),
    ensures
        line@ == trim_cr(text@.subrange(start as int, end as int)),
{
    if end > start && text[end - 1] == CARRIAGE_RETURN {
        let line = slice_subrange(text, start, end - 1);
        assert(line@ =~= text@.subrange(start as int, end as int).drop_last());
        line
    } else {
        slice_subrange(text, start, end)
    }
}

impl BootloaderRow {
    /// Parses one row record from a line without its line ending.
    pub fn read(line: &[u8]) -> (r: Result<BootloaderRow, FormatError>)
        ensures
            match r {
                Ok(row) => parse_row(line@) == Ok::<RowModel, FormatError>(row@),
                Err(e) => parse_row(line@) == Err::<RowModel, FormatError>(e),
            },
    {
        if line.len() < 1 {
            return Err(FormatError::Truncated);
        }
        if line[0] != RECORD_MARKER {
            return Err(FormatError::MissingMarker);
        }
        let digits = slice_subrange(line, 1, line.len());
        assert(digits@ =~= line@.skip(1));
        let content = match read_hex_line(digits) {
            Ok(bytes) => bytes,
            Err(e) => {
                return Err(e);
            },
        };
        if content.len() < 5 {
            return Err(FormatError::Truncated);
        }
        let array_id = content[0];
        let row_number = read_u16_be(slice_subrange(content.as_slice(), 1, 3));
        let length = read_u16_be(slice_subrange(content.as_slice(), 3, 5)) as usize;
        let left = content.len() - 5;
        if left < length {
            return Err(FormatError::LengthOverrun);
        }
        if left < length + 1 {
            return Err(FormatError::Truncated);
        }
        let mut data: Vec<u8> = Vec::new();
        let mut i: usize = 0;
        while i < length
            invariant
                i <= length,
                5 + length < content@.len() <= usize::MAX,
                data@ == content@.subrange(5, 5 + i as int),
            decreases length - i,
        {
            data.push(content[5 + i]);
            i += 1;
            assert(data@ =~= content@.subrange(5, 5 + i as int));
        }
        let checksum = content[5 + length];
        Ok(BootloaderRow { array_id, row_number, data, checksum })
    }
}

impl BootloaderData {
    /// Parses the header line, without its line ending, into silicon id,
    /// silicon revision and checksum kind.
    pub fn read_bootloader_info(line: &[u8]) -> (r: Result<(u32, u8, u8), FormatError>)
        ensures
            match r {
                Ok(h) => parse_header(line@) == Ok::<(u32, u8, u8), FormatError>(h),
                Err(e) => parse_header(line@) == Err::<(u32, u8, u8), FormatError>(e),
            },
    {
        let header = match read_hex_line(line) {
            Ok(bytes) => bytes,
            Err(e) => {
                return Err(e);
            },
        };
        if header.len() < 6 {
            return Err(FormatError::Truncated);
        }
        let silicon_id = read_u32_be(slice_subrange(header.as_slice(), 0, 4));
        Ok((silicon_id, header[4], header[5]))
    }

    /// Parses an image from its text. Rows keep the order of their lines.
    pub fn read(text: &[u8]) -> (r: Result<BootloaderData, FormatError>)
        ensures
            match r {
                Ok(image) => parse_image(text@) == Ok::<ImageModel, FormatError>(image@),
                Err(e) => parse_image(text@) == Err::<ImageModel, FormatError>(e),
            },
    {
        let mut rows: Vec<BootloaderRow> = Vec::new();
        if text.len() == 0 {
            assert(row_models(rows@) =~= Seq::empty());
            return Ok(BootloaderData { silicon_id: 0, silicon_rev: 0, checksum_kind: 0, rows });
        }
        assert(text@.skip(0) =~= text@);
        let end = line_end(text, 0);
        let line = trimmed(text, 0, end);
        let header = match BootloaderData::read_bootloader_info(line) {
            Ok(h) => h,
            Err(e) => {
                return Err(e);
            },
        };
        let mut pos: usize = if end < text.len() {
            end + 1
        } else {
            end
        };
        proof {
            lemma_line_pieces(text@, 0, end as int, pos as int);
            assert(row_models(rows@) =~= Seq::empty());
            assert(Seq::<RowModel>::empty() + parse_rows(text@.skip(pos as int))->Ok_0
                =~= parse_rows(text@.skip(pos as int))->Ok_0);
        }
        while pos < text.len()
            invariant
                0 < text@.len(),
                pos <= text@.len(),
                parse_header(first_line(text@)) == Ok::<(u32, u8, u8), FormatError>(header),
                parse_rows(after_first_line(text@)) == rows_then(
                    row_models(rows@),
                    parse_rows(text@.skip(pos as int)),
                ),
            decreases text@.len() - pos,
        {
            let ghost s = text@.skip(pos as int);
            let ghost before = rows@;
            let end = line_end(text, pos);
            let line = trimmed(text, pos, end);
            let next: usize = if end < text.len() {
                end + 1
            } else {
                end
            };
            proof {
                lemma_line_pieces(text@, pos as int, end as int, next as int);
            }
            if line.len() > 0 {
                match BootloaderRow::read(line) {
                    Ok(row) => {
                        rows.push(row);
                        proof {
                            lemma_row_models_push(before, row);
                            lemma_rows_then_push(
                                row_models(before),
                                row@,
                                parse_rows(text@.skip(next as int)),
                            );
                        }
                    },
                    Err(e) => {
                        return Err(e);
                    },
                }
            }
            pos = next;
        }
        proof {
            assert(row_models(rows@) + Seq::<RowModel>::empty() =~= row_models(rows@));
        }
        Ok(
            BootloaderData {
                silicon_id: header.0,
                silicon_rev: header.1,
                checksum_kind: header.2,
                rows,
            },
        )
    }
}

} // verus!
