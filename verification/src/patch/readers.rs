//! Reading boxes with the `mp4` crate.

use vstd::prelude::*;
use vstd::slice::slice_subrange;

use crate::patch::boxes::{be32, be64, read_u32_be, MFHD, MOOF, STYP, TRAF};
use crate::patch::segment::{bytes_after, MAX_OFFSET};

verus! {

/// The error type of the `mp4` crate.
#[verifier::external_type_specification]
#[verifier::external_body]
pub struct ExMp4Error(mp4::Error);

/// Type code and remaining size that a box header announces; the size counts from the eight bytes
/// before the box's contents.
pub open spec fn header_of(d: Seq<u8>) -> Option<(int, int)> {
    if d.len() < 8 {
        None
    } else if be32(d, 0) != 1 {
        Some((be32(d, 4) as int, be32(d, 0) as int))
    } else if d.len() < 16 || 0 < be64(d, 8) < 16 {
        None
    } else if be64(d, 8) == 0 {
        Some((be32(d, 4) as int, 0))
    } else {
        Some((be32(d, 4) as int, be64(d, 8) - 8))
    }
}

/// The header of the box at `pos`.
pub open spec fn header_at(d: Seq<u8>, pos: int) -> Option<(int, int)> {
    if pos < 0 || pos > d.len() {
        None
    } else {
        header_of(d.subrange(pos, d.len() as int))
    }
}

/// Where the contents of the box at `pos` begin.
pub open spec fn contents_at(d: Seq<u8>, pos: int) -> int {
    pos + if be32(d, pos) == 1 {
        16int
    } else {
        8
    }
}

/// Where the box with the header at `pos` ends.
pub open spec fn span_end(d: Seq<u8>, pos: int) -> int {
    contents_at(d, pos) - 8 + header_at(d, pos).unwrap().1
}

/// `mp4::BoxHeader::read` on the bytes at hand: type code and size. It reads eight bytes, and eight
/// more where the first four hold the number 1; it fails where those are missing or where the
/// 64-bit size is between 1 and 15.
#[verifier::external_body]
fn read_box_header(data: &[u8]) -> (r: Result<(u32, u64), mp4::Error>)
    ensures
        r is Ok <==> header_of(data@) is Some,
        r matches Ok(h) ==> h.0 == header_of(data@).unwrap().0 && h.1 == header_of(
            data@,
        ).unwrap().1,
{
    let mut reader = data;
    mp4::BoxHeader::read(&mut reader).map(|h| (u32::from(h.name), h.size))
}

/// Reads the header of the box at `pos`: type code, size, and where its contents begin.
pub(crate) fn read_header_at(data: &[u8], pos: u64) -> (r: Option<(u32, u64, u64)>)
    ensures
        r is Some <==> header_at(data@, pos as int) is Some,
        r matches Some(h) ==> h.0 == header_at(data@, pos as int).unwrap().0 && h.1 == header_at(
            data@,
            pos as int,
        ).unwrap().1 && h.2 == contents_at(data@, pos as int) && h.2 <= data@.len(),
{
    let len: usize = data.len();
    if pos > len as u64 {
        return None;
    }
    let at: usize = pos as usize;
    let rest = slice_subrange(data, at, len);
    match read_box_header(rest) {
        Ok((kind, size)) => {
            assert(be32(rest@, 0) == be32(data@, pos as int));
            let contents: u64 = if read_u32_be(rest, 0) == 1 {
                pos + 16
            } else {
                pos + 8
            };
            Some((kind, size, contents))
        },
        Err(_) => None,
    }
}

/// The box at `pos` ends after its start, and at an offset that a file can be positioned to.
pub open spec fn ends_in_range(d: Seq<u8>, pos: int) -> bool {
    pos < span_end(d, pos) <= MAX_OFFSET
}

/// Every box of the row from `pos` up to `end` ends in range, as far as headers can be read.
pub open spec fn row_in_range(d: Seq<u8>, pos: int, end: int) -> bool
    decreases bytes_after(end, pos),
{
    pos >= end || header_at(d, pos) is None || (ends_in_range(d, pos) && row_in_range(
        d,
        span_end(d, pos),
        end,
    ))
}

/// Every box of the row from `pos` up to `end` ends in range, and so do those inside `traf` boxes, as
/// far as headers can be read.
pub open spec fn fragment_in_range(d: Seq<u8>, pos: int, end: int) -> bool
    decreases bytes_after(end, pos),
{
    pos >= end || header_at(d, pos) is None || (ends_in_range(d, pos) && (header_at(
        d,
        pos,
    ).unwrap().0 == TRAF ==> row_in_range(d, contents_at(d, pos), span_end(d, pos)))
        && fragment_in_range(d, span_end(d, pos), end))
}

/// A box of this type is in the row from `pos` up to `end`.
pub open spec fn row_holds(d: Seq<u8>, pos: int, end: int, kind: int) -> bool
    decreases bytes_after(end, pos),
{
    pos < end && header_at(d, pos) is Some && ends_in_range(d, pos) && (header_at(d, pos).unwrap().0
        == kind || row_holds(d, span_end(d, pos), end, kind))
}

/// Checks that every box of a row ends in range.
fn is_row_in_range(data: &[u8], from: u64, end: u64) -> (r: bool)
    ensures
        r == row_in_range(data@, from as int, end as int),
{
    let mut pos: u64 = from;
    while pos < end
        invariant
            row_in_range(data@, from as int, end as int) == row_in_range(
                data@,
                pos as int,
                end as int,
            ),
        decreases bytes_after(end as int, pos as int),
    {
        let (_, size, contents): (u32, u64, u64) = match read_header_at(data, pos) {
            Some(header) => header,
            None => {
                return true;
            },
        };
        match end_in_range(pos, size, contents) {
            Some(next) => {
                pos = next;
            },
            None => {
                return false;
            },
        }
    }
    true
}

/// Where a box ends, if it ends after its start and in range.
pub(crate) fn end_in_range(pos: u64, size: u64, contents: u64) -> (r: Option<u64>)
    requires
        8 <= contents,
    ensures
        r == if pos < contents - 8 + size <= MAX_OFFSET {
            Some((contents - 8 + size) as u64)
        } else {
            None
        },
{
    let start: u64 = contents - 8;
    if start > MAX_OFFSET || size > MAX_OFFSET - start {
        return None;
    }
    let end: u64 = start + size;
    if end <= pos {
        return None;
    }
    Some(end)
}

/// Checks that every box of a row, and inside `traf` boxes, ends in range.
fn is_fragment_in_range(data: &[u8], from: u64, end: u64) -> (r: bool)
    ensures
        r == fragment_in_range(data@, from as int, end as int),
{
    let mut pos: u64 = from;
    while pos < end
        invariant
            fragment_in_range(data@, from as int, end as int) == fragment_in_range(
                data@,
                pos as int,
                end as int,
            ),
        decreases bytes_after(end as int, pos as int),
    {
        let (kind, size, contents): (u32, u64, u64) = match read_header_at(data, pos) {
            Some(header) => header,
            None => {
                return true;
            },
        };
        let next: u64 = match end_in_range(pos, size, contents) {
            Some(next) => next,
            None => {
                return false;
            },
        };
        if kind == TRAF && !is_row_in_range(data, contents, next) {
            return false;
        }
        pos = next;
    }
    true
}

/// A brand, a version and the compatible brands can be read as the contents, from `at` on, of a box whose
/// header announced `size`.
pub open spec fn brands_are_there(d: Seq<u8>, at: int, size: int) -> bool {
    16 <= size && size % 4 == 0 && at + size - 8 <= d.len()
}

/// `mp4::FtypBox::read_box`, with the reader at offset `at` of the data, after a header that announced
/// `size`. It reads the brand, the version, and a brand from each four bytes that are left; it fails on
/// a size that is less than those of the header, the brand and the version, or no multiple of four, and
/// where the data ends too early.
#[verifier::external_body]
fn read_ftyp(data: &[u8], at: u64, size: u64) -> (r: Result<(), mp4::Error>)
    requires
        8 <= at,
        at - 8 + size <= u64::MAX,
    ensures
        r is Ok <==> brands_are_there(data@, at as int, size as int),
{
    let mut reader = std::io::Cursor::new(data);
    reader.set_position(at);
    <mp4::FtypBox as mp4::ReadBox<_>>::read_box(&mut reader, size).map(|_| ())
}

/// Whether `mp4::MoofBox::read_box` reads the data from `at` on as the contents of a box whose header
/// announced `size`.
pub uninterp spec fn fragment_is_read(data: Seq<u8>, at: u64, size: u64) -> bool;

/// `mp4::MoofBox::read_box`, with the reader at offset `at` of the data, after a header that announced
/// `size`. It walks the boxes up to the end of this one, reads `mfhd` and `traf` boxes and skips others;
/// it fails where there is no `mfhd` box. On a box that claims to be empty it would never go on, so
/// there is none where it walks. It makes room for as many samples as a `trun` box claims to hold.
#[verifier::external_body]
fn read_moof(data: &[u8], at: u64, size: u64) -> (r: Result<(), mp4::Error>)
    requires
        8 <= at,
        at - 8 + size <= MAX_OFFSET,
        fragment_in_range(data@, at as int, at - 8 + size),
    ensures
        r is Ok <==> fragment_is_read(data@, at, size),
        r is Ok ==> row_holds(data@, at as int, at - 8 + size, MFHD as int),
{
    let mut reader = std::io::Cursor::new(data);
    reader.set_position(at);
    <mp4::MoofBox as mp4::ReadBox<_>>::read_box(&mut reader, size).map(|_| ())
}

/// The contents of the box at `pos` can be read. Those of `styp` and `moof` boxes are looked into, those
/// of others are not.
pub open spec fn box_is_read(d: Seq<u8>, pos: int) -> bool {
    let (kind, size) = header_at(d, pos).unwrap();
    let at = contents_at(d, pos);
    if kind == STYP {
        brands_are_there(d, at, size)
    } else if kind == MOOF {
        fragment_in_range(d, at, at - 8 + size) && fragment_is_read(d, at as u64, size as u64)
    } else {
        true
    }
}

/// Checks that the contents of a box can be read.
pub(crate) fn read_box_at(data: &[u8], pos: u64, kind: u32, size: u64, contents: u64) -> (r: bool)
    requires
        header_at(data@, pos as int) == Some((kind as int, size as int)),
        contents == contents_at(data@, pos as int),
        span_end(data@, pos as int) <= MAX_OFFSET,
    ensures
        r == box_is_read(data@, pos as int),
        r && kind == MOOF ==> row_holds(
            data@,
            contents as int,
            span_end(data@, pos as int),
            MFHD as int,
        ),
{
    if kind == STYP {
        read_ftyp(data, contents, size).is_ok()
    } else if kind == MOOF {
        is_fragment_in_range(data, contents, contents - 8 + size) && read_moof(
            data,
            contents,
            size,
        ).is_ok()
    } else {
        true
    }
}

}
