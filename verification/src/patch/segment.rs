//! Renumbering the fragments of a segment file.

use vstd::prelude::*;

use crate::patch::boxes::{
    be32, be32_bytes, be64, lemma_be32_round_trip, read_u32_be, read_u64_be, type_at, u32_be_bytes,
    PatchError, MDAT, MFHD, MOOF, SIDX, STYP, TRAF,
};
use crate::patch::init_segment::is_container;
use crate::patch::readers::{
    box_is_read, contents_at, end_in_range, header_at, read_box_at, read_header_at, row_holds,
    span_end,
};

verus! {

/// Where a box lies in a file.
#[derive(Clone, Copy, Debug, PartialEq, Eq, Structural)]
pub struct BoxSpan {
    /// Offset of its header.
    pub start: u64,
    /// Offset of the first byte after it.
    pub end: u64,
}

/// The boxes of an individual segment of a stream.
#[derive(Clone, Copy, Debug, PartialEq, Eq, Structural)]
pub struct Segment {
    /// Needed where the segment is a file of its own.
    pub styp: Option<BoxSpan>,
    /// The segment index.
    pub sidx: Option<BoxSpan>,
    /// Timing metadata.
    pub moof: Option<BoxSpan>,
    /// Audio-visual data.
    pub mdat: Option<BoxSpan>,
}

/// Why a segment file was not renumbered.
#[derive(Clone, Copy, Debug, PartialEq, Eq, Structural)]
pub enum SegmentError {
    /// The file has a `styp` box but no media. The boxes that were found are given.
    PartialSegment(Segment),
    /// The file cannot be patched.
    Patch(PatchError),
}

/// The largest offset that a file can be positioned to.
pub const MAX_OFFSET: u64 = 0x7fff_ffff_ffff_ffff;

/// How many of `len` bytes lie at or after `pos`.
pub open spec fn bytes_after(len: int, pos: int) -> int {
    if pos < len {
        len - pos
    } else {
        0
    }
}

/// Size of the box at `pos` in a file, or `None` where its header is truncated or malformed.
pub open spec fn file_box_at(d: Seq<u8>, pos: int) -> Option<int> {
    if pos < 0 || pos + 8 > d.len() {
        None
    } else if be32(d, pos) == 0 {
        Some(d.len() - pos)
    } else if be32(d, pos) == 1 {
        if pos + 16 > d.len() || be64(d, pos + 8) < 16 {
            None
        } else {
            Some(be64(d, pos + 8) as int)
        }
    } else if be32(d, pos) < 8 {
        None
    } else {
        Some(be32(d, pos) as int)
    }
}

/// No box of the top-level walk from `pos` on claims to end beyond the largest offset.
pub open spec fn top_in_range(d: Seq<u8>, pos: int) -> bool
    decreases bytes_after(d.len() as int, pos),
{
    match file_box_at(d, pos) {
        None => true,
        Some(size) => pos + size <= MAX_OFFSET && top_in_range(d, pos + size),
    }
}

/// The types of the boxes at top level, from `pos` on.
pub open spec fn top_kinds(d: Seq<u8>, pos: int) -> Seq<nat>
    decreases bytes_after(d.len() as int, pos),
{
    match file_box_at(d, pos) {
        None => Seq::empty(),
        Some(size) => seq![type_at(d, pos)] + top_kinds(d, pos + size),
    }
}

/// The file has a `styp` box, but neither metadata nor media.
pub open spec fn is_empty(d: Seq<u8>) -> bool {
    let kinds = top_kinds(d, 0);
    kinds.contains(STYP as nat) && !kinds.contains(MOOF as nat) && !kinds.contains(MDAT as nat)
}

/// No box of a walk that descends into containers claims to end beyond the largest offset.
pub open spec fn deep_in_range(d: Seq<u8>, pos: int) -> bool
    decreases bytes_after(d.len() as int, pos),
{
    match file_box_at(d, pos) {
        None => true,
        Some(size) => if is_container(type_at(d, pos)) {
            deep_in_range(d, pos + 8)
        } else {
            pos + size <= MAX_OFFSET && deep_in_range(d, pos + size)
        },
    }
}

/// The offsets of the sequence numbers of the `mfhd` boxes, from `pos` on.
pub open spec fn mfhd_fields(d: Seq<u8>, pos: int) -> Seq<int>
    decreases bytes_after(d.len() as int, pos),
{
    match file_box_at(d, pos) {
        None => Seq::empty(),
        Some(size) => if is_container(type_at(d, pos)) {
            mfhd_fields(d, pos + 8)
        } else if type_at(d, pos) == MFHD && size == 16 {
            seq![pos + 12] + mfhd_fields(d, pos + size)
        } else {
            mfhd_fields(d, pos + size)
        },
    }
}

/// A file after `bytes` were written at offset `at`. Bytes between its end and `at` become zero.
pub open spec fn write_at(d: Seq<u8>, at: int, bytes: Seq<u8>) -> Seq<u8> {
    Seq::new(
        if at + bytes.len() > d.len() {
            (at + bytes.len()) as nat
        } else {
            d.len()
        },
        |i: int|
            if at <= i < at + bytes.len() {
                bytes[i - at]
            } else if i < d.len() {
                d[i]
            } else {
                0
            },
    )
}

/// A file after the first `k` of its sequence numbers were replaced by `seq`, `seq + 1`, ...
pub open spec fn renumbered(d: Seq<u8>, seq: int, k: int) -> Seq<u8>
    decreases k,
{
    if k <= 0 {
        d
    } else {
        write_at(renumbered(d, seq, k - 1), mfhd_fields(d, 0)[k - 1], be32_bytes(seq + k - 1))
    }
}

/// `seg` with the box of type `kind` recorded; any other type leaves it as it is.
pub open spec fn with_box(seg: Segment, kind: int, span: BoxSpan) -> Segment {
    if kind == SIDX {
        Segment { sidx: Some(span), ..seg }
    } else if kind == MOOF {
        Segment { moof: Some(span), ..seg }
    } else if kind == MDAT {
        Segment { mdat: Some(span), ..seg }
    } else if kind == STYP {
        Segment { styp: Some(span), ..seg }
    } else {
        seg
    }
}

/// The boxes from `pos` on up to and including the first `mdat`, added to `seg`, and where the walk
/// ended: after the `mdat` box, or at `size`.
pub open spec fn segment_from(d: Seq<u8>, pos: int, size: int, seg: Segment) -> Result<
    (Segment, int),
    PatchError,
>
    decreases bytes_after(size, pos),
{
    if pos >= size {
        Ok((seg, size))
    } else if header_at(d, pos) is None {
        Err(PatchError::InvalidBox)
    } else {
        let kind = header_at(d, pos).unwrap().0;
        let end = span_end(d, pos);
        if end <= pos {
            Err(PatchError::InvalidBox)
        } else if end > MAX_OFFSET {
            Err(PatchError::OffsetOutOfRange)
        } else if !box_is_read(d, pos) {
            Err(PatchError::InvalidBox)
        } else {
            let next = with_box(seg, kind, BoxSpan { start: pos as u64, end: end as u64 });
            if kind == MDAT {
                Ok((next, end))
            } else {
                segment_from(d, end, size, next)
            }
        }
    }
}

/// A segment without boxes.
pub open spec fn no_boxes() -> Segment {
    Segment { styp: None, sidx: None, moof: None, mdat: None }
}

impl Segment {
    /// Takes a box in, if its contents can be read.
    pub fn take_box(self, kind: u32, span: BoxSpan, readable: bool) -> (r: Result<Segment, PatchError>)
        ensures
            r == if readable {
                Ok(with_box(self, kind as int, span))
            } else {
                Err(PatchError::InvalidBox)
            },
    {
        if !readable {
            return Err(PatchError::InvalidBox);
        }
        let mut seg = self;
        if kind == SIDX {
            seg.sidx = Some(span);
        } else if kind == MOOF {
            seg.moof = Some(span);
        } else if kind == MDAT {
            seg.mdat = Some(span);
        } else if kind == STYP {
            seg.styp = Some(span);
        }
        Ok(seg)
    }

    /// Reads the boxes of the next segment of a file of `size` bytes, from offset `start` on.
    /// Returns them with the offset of what is left over.
    ///
    /// Fails on a header that cannot be read, on a box that claims to be empty, on one that claims to
    /// end beyond the largest offset, and on a `styp` or `moof` box whose contents cannot be read. The
    /// contents of `sidx` and `mdat` boxes are not looked into. A `moof` box that was read holds an
    /// `mfhd` box.
    pub fn from_reader(data: &[u8], start: u64, size: u64) -> (r: Result<(Segment, u64), PatchError>)
        ensures
            r is Ok <==> segment_from(data@, start as int, size as int, no_boxes()) is Ok,
            r matches Ok(p) ==> segment_from(data@, start as int, size as int, no_boxes()) == Ok::<
                (Segment, int),
                PatchError,
            >((p.0, p.1 as int)),
            r matches Err(e) ==> segment_from(data@, start as int, size as int, no_boxes()) == Err::<
                (Segment, int),
                PatchError,
            >(e),
            r matches Ok(p) ==> (p.0.moof matches Some(m) ==> row_holds(
                data@,
                contents_at(data@, m.start as int),
                m.end as int,
                MFHD as int,
            )),
    {
        let mut seg = Segment { styp: None, sidx: None, moof: None, mdat: None };
        let mut pos: u64 = start;
        while pos < size
            invariant
                segment_from(data@, start as int, size as int, no_boxes()) == segment_from(
                    data@,
                    pos as int,
                    size as int,
                    seg,
                ),
                seg.moof matches Some(m) ==> row_holds(
                    data@,
                    contents_at(data@, m.start as int),
                    m.end as int,
                    MFHD as int,
                ),
            decreases bytes_after(size as int, pos as int),
        {
            let (kind, box_size, contents): (u32, u64, u64) = match read_header_at(data, pos) {
                Some(header) => header,
                None => {
                    return Err(PatchError::InvalidBox);
                },
            };
            if box_size == 0 && contents - pos == 8 {
                return Err(PatchError::InvalidBox);
            }
            let end: u64 = match end_in_range(pos, box_size, contents) {
                Some(end) => end,
                None => {
                    return Err(PatchError::OffsetOutOfRange);
                },
            };
            let readable = read_box_at(data, pos, kind, box_size, contents);
            seg = match seg.take_box(kind, BoxSpan { start: pos, end }, readable) {
                Ok(seg) => seg,
                Err(e) => {
                    return Err(e);
                },
            };
            if kind == MDAT {
                return Ok((seg, end));
            }
            pos = end;
        }
        Ok((seg, size))
    }
}

/// Reads the size and the type code of the box at `pos` of a file.
pub fn read_box_size(data: &[u8], pos: u64) -> (r: Option<(u64, u32)>)
    ensures
        r is Some <==> file_box_at(data@, pos as int) is Some,
        r matches Some(b) ==> b.0 == file_box_at(data@, pos as int)->0 && b.1 == type_at(
            data@,
            pos as int,
        ),
{
    let len: u64 = data.len() as u64;
    if len < 8 || pos > len - 8 {
        return None;
    }
    let at: usize = pos as usize;
    let kind = read_u32_be(data, at + 4);
    let size32 = read_u32_be(data, at);
    if size32 == 0 {
        Some((len - pos, kind))
    } else if size32 == 1 {
        if len < 16 || pos > len - 16 {
            return None;
        }
        let size = read_u64_be(data, at + 8);
        if size < 16 {
            None
        } else {
            Some((size, kind))
        }
    } else if size32 < 8 {
        None
    } else {
        Some((size32 as u64, kind))
    }
}

/// Finds the offset of the sequence number of every `mfhd` box, inside containers too.
pub fn find_mfhd_offsets(data: &[u8]) -> (r: Result<Vec<u64>, PatchError>)
    ensures
        r is Ok <==> deep_in_range(data@, 0),
        r matches Err(e) ==> e == PatchError::OffsetOutOfRange,
        r matches Ok(v) ==> v@.map_values(|o: u64| o as int) == mfhd_fields(data@, 0),
{
    let mut offsets: Vec<u64> = Vec::new();
    let mut pos: u64 = 0;
    let ghost f = |o: u64| o as int;
    let len: u64 = data.len() as u64;
    proof {
        assert(offsets@.map_values(f) + mfhd_fields(data@, 0) =~= mfhd_fields(data@, 0));
    }
    while pos < len
        invariant_except_break
            deep_in_range(data@, 0) == deep_in_range(data@, pos as int),
            mfhd_fields(data@, 0) == offsets@.map_values(f) + mfhd_fields(data@, pos as int),
        invariant
            len == data@.len(),
            f == (|o: u64| o as int),
        ensures
            deep_in_range(data@, 0),
            mfhd_fields(data@, 0) == offsets@.map_values(f),
        decreases bytes_after(len as int, pos as int),
    {
        let (box_size, kind) = match read_box_size(data, pos) {
            Some(b) => b,
            None => {
                assert(offsets@.map_values(f) + mfhd_fields(data@, pos as int)
                    =~= offsets@.map_values(f));
                break;
            },
        };
        if kind == MOOF || kind == crate::patch::boxes::TRAF {
            pos = pos + 8;
            continue;
        }
        if pos > MAX_OFFSET || box_size > MAX_OFFSET - pos {
            return Err(PatchError::OffsetOutOfRange);
        }
        if kind == MFHD && box_size == 16 {
            let ghost before = offsets@.map_values(f);
            offsets.push(pos + 12);
            proof {
                assert(offsets@.map_values(f) =~= before.push(pos + 12));
                assert(before + mfhd_fields(data@, pos as int) =~= offsets@.map_values(f)
                    + mfhd_fields(data@, pos + 16));
            }
        }
        pos = pos + box_size;
        if pos >= len {
            assert(mfhd_fields(data@, pos as int) =~= Seq::empty());
            assert(offsets@.map_values(f) + mfhd_fields(data@, pos as int) =~= offsets@.map_values(
                f,
            ));
        }
    }
    Ok(offsets)
}

/// Whether the file is a partial segment, one that only has a `styp` box.
pub fn is_empty_segment(data: &[u8]) -> (r: Result<bool, PatchError>)
    ensures
        r is Ok <==> top_in_range(data@, 0),
        r matches Err(e) ==> e == PatchError::OffsetOutOfRange,
        r matches Ok(b) ==> b == is_empty(data@),
{
    let mut has_styp = false;
    let mut has_moof = false;
    let mut has_mdat = false;
    let mut pos: u64 = 0;
    let len: u64 = data.len() as u64;
    let ghost mut seen = Seq::<nat>::empty();
    proof {
        assert(seen + top_kinds(data@, 0) =~= top_kinds(data@, 0));
    }
    while pos < len
        invariant_except_break
            top_in_range(data@, 0) == top_in_range(data@, pos as int),
            top_kinds(data@, 0) == seen + top_kinds(data@, pos as int),
        invariant
            len == data@.len(),
            has_styp == seen.contains(STYP as nat),
            has_moof == seen.contains(MOOF as nat),
            has_mdat == seen.contains(MDAT as nat),
        ensures
            top_in_range(data@, 0),
            top_kinds(data@, 0) == seen,
        decreases bytes_after(len as int, pos as int),
    {
        let (box_size, kind) = match read_box_size(data, pos) {
            Some(b) => b,
            None => {
                assert(seen + top_kinds(data@, pos as int) =~= seen);
                break;
            },
        };
        let ghost before = seen;
        proof {
            seen = seen.push(kind as nat);
            assert(before + top_kinds(data@, pos as int) =~= seen + top_kinds(
                data@,
                pos + box_size,
            ));
            assert(seen[before.len() as int] == kind as nat);
            assert forall|k: nat| seen.contains(k) == (before.contains(k) || k == kind as nat) by {
                if before.contains(k) {
                    let i = choose|i: int| 0 <= i < before.len() && before[i] == k;
                    assert(seen[i] == k);
                }
            }
        }
        if kind == STYP {
            has_styp = true;
        } else if kind == MOOF {
            has_moof = true;
        } else if kind == MDAT {
            has_mdat = true;
        }
        if pos > MAX_OFFSET || box_size > MAX_OFFSET - pos {
            return Err(PatchError::OffsetOutOfRange);
        }
        pos = pos + box_size;
        if pos >= len {
            assert(seen + top_kinds(data@, pos as int) =~= seen);
        }
    }
    Ok(has_styp && !has_moof && !has_mdat)
}

/// Writes the big-endian bytes of `x` at offset `at`, as a file write does.
fn write_u32_at(buf: &mut Vec<u8>, at: usize, x: u32)
    requires
        at + 4 <= usize::MAX,
    ensures
        final(buf)@ == write_at(old(buf)@, at as int, be32_bytes(x as int)),
{
    let ghost start = buf@;
    while buf.len() < at + 4
        invariant
            at + 4 <= usize::MAX,
            start.len() <= buf@.len(),
            buf@.len() <= at + 4 || buf@.len() == start.len(),
            forall|i: int| 0 <= i < start.len() ==> buf@[i] == start[i],
            forall|i: int| start.len() <= i < buf@.len() ==> buf@[i] == 0,
        decreases at + 4 - buf@.len(),
    {
        buf.push(0);
    }
    let bytes = u32_be_bytes(x);
    buf.set(at, bytes[0]);
    buf.set(at + 1, bytes[1]);
    buf.set(at + 2, bytes[2]);
    buf.set(at + 3, bytes[3]);
    assert(buf@ =~= write_at(start, at as int, be32_bytes(x as int)));
}

/// Replaces the sequence numbers of a segment file by `seq` and the numbers after it. Returns the
/// file and the next sequence number.
///
/// A file that only has a `styp` box is reported as a partial segment. Fails too where a box claims
/// to end beyond the largest offset, and where the sequence numbers run out.
pub fn patch_segment(data: &[u8], seq: u32) -> (r: Result<(Vec<u8>, u32), SegmentError>)
    requires
        data@.len() + 8 <= usize::MAX,
    ensures
        r is Ok <==> top_in_range(data@, 0) && !is_empty(data@) && deep_in_range(data@, 0) && seq
            + mfhd_fields(data@, 0).len() <= u32::MAX,
        r matches Ok(p) ==> p.0@ == renumbered(data@, seq as int, mfhd_fields(data@, 0).len() as int)
            && p.1 == seq + mfhd_fields(data@, 0).len(),
        r matches Err(e) ==> e == if !top_in_range(data@, 0) {
            SegmentError::Patch(PatchError::OffsetOutOfRange)
        } else if is_empty(data@) {
            match segment_from(data@, 0, data@.len() as int, no_boxes()) {
                Ok(p) => SegmentError::PartialSegment(p.0),
                Err(e) => SegmentError::Patch(e),
            }
        } else if !deep_in_range(data@, 0) {
            SegmentError::Patch(PatchError::OffsetOutOfRange)
        } else {
            SegmentError::Patch(PatchError::SequenceOverflow)
        },
{
    match is_empty_segment(data) {
        Err(e) => {
            return Err(SegmentError::Patch(e));
        },
        Ok(true) => {
            return match Segment::from_reader(data, 0, data.len() as u64) {
                Ok((segment, _)) => Err(SegmentError::PartialSegment(segment)),
                Err(e) => Err(SegmentError::Patch(e)),
            };
        },
        Ok(false) => {},
    }
    let offsets = match find_mfhd_offsets(data) {
        Err(e) => {
            return Err(SegmentError::Patch(e));
        },
        Ok(offsets) => offsets,
    };
    let mut buf = vstd::slice::slice_to_vec(data);
    let mut next: u32 = seq;
    let mut k: usize = 0;
    let ghost fields = mfhd_fields(data@, 0);
    proof {
        lemma_mfhd_fields(data@, 0);
    }
    let len: usize = data.len();
    while k < offsets.len()
        invariant
            0 <= k <= offsets@.len(),
            offsets@.map_values(|o: u64| o as int) == fields,
            fields == mfhd_fields(data@, 0),
            len == data@.len(),
            forall|i: int| 0 <= i < fields.len() ==> 12 <= #[trigger] fields[i] <= data@.len() + 4,
            len + 8 <= usize::MAX,
            top_in_range(data@, 0) && !is_empty(data@) && deep_in_range(data@, 0),
            next == seq + k,
            buf@ == renumbered(data@, seq as int, k as int),
        decreases offsets@.len() - k,
    {
        assert(fields[k as int] == offsets@[k as int]);
        write_u32_at(&mut buf, offsets[k] as usize, next);
        k = k + 1;
        if next == u32::MAX {
            assert(fields.len() == offsets@.len());
            return Err(SegmentError::Patch(PatchError::SequenceOverflow));
        }
        next = next + 1;
    }
    assert(offsets@.map_values(|o: u64| o as int).len() == offsets@.len());
    Ok((buf, next))
}

/// The fields of `mfhd` boxes begin inside the data and do not overlap.
proof fn lemma_mfhd_fields(d: Seq<u8>, pos: int)
    requires
        0 <= pos,
    ensures
        forall|i: int|
            0 <= i < mfhd_fields(d, pos).len() ==> pos + 12 <= #[trigger] mfhd_fields(d, pos)[i]
                <= d.len() + 4,
        forall|i: int, j: int|
            0 <= i < j < mfhd_fields(d, pos).len() ==> #[trigger] mfhd_fields(d, pos)[i] + 16
                <= #[trigger] mfhd_fields(d, pos)[j],
    decreases bytes_after(d.len() as int, pos),
{
    if let Some(size) = file_box_at(d, pos) {
        if is_container(type_at(d, pos)) {
            lemma_mfhd_fields(d, pos + 8);
            assert(mfhd_fields(d, pos) == mfhd_fields(d, pos + 8));
        } else {
            lemma_mfhd_fields(d, pos + size);
            let all = mfhd_fields(d, pos);
            let rest = mfhd_fields(d, pos + size);
            if type_at(d, pos) == MFHD && size == 16 {
                assert(all == seq![pos + 12] + rest);
                assert forall|i: int| 0 <= i < all.len() implies pos + 12 <= #[trigger] all[i]
                    <= d.len() + 4 by {
                    assert(i > 0 ==> all[i] == rest[i - 1]);
                }
                assert forall|i: int, j: int| 0 <= i < j < all.len() implies #[trigger] all[i] + 16
                    <= #[trigger] all[j] by {
                    assert(i > 0 ==> all[i] == rest[i - 1]);
                    assert(all[j] == rest[j - 1]);
                }
            } else {
                assert(all == rest);
            }
        }
    }
}

/// After renumbering, the `k`-th fragment carries the number `seq + k`.
pub proof fn law_fragments_are_numbered(d: Seq<u8>, seq: u32, n: int, k: int)
    requires
        0 <= k < n <= mfhd_fields(d, 0).len(),
        seq + n <= u32::MAX,
    ensures
        be32(renumbered(d, seq as int, n), mfhd_fields(d, 0)[k]) == seq + k,
    decreases n,
{
    let at = mfhd_fields(d, 0)[k];
    let out = renumbered(d, seq as int, n);
    lemma_mfhd_fields(d, 0);
    if k == n - 1 {
        let b = be32_bytes(seq + k);
        lemma_be32_round_trip((seq + k) as u32);
        assert(out[at + 0] == b[0]);
        assert(out[at + 1] == b[1]);
        assert(out[at + 2] == b[2]);
        assert(out[at + 3] == b[3]);
    } else {
        law_fragments_are_numbered(d, seq, n - 1, k);
        lemma_renumbered_len(d, seq as int, n - 1, k);
        assert(mfhd_fields(d, 0)[n - 1] >= at + 16);
    }
}

/// Renumbering covers the fields that it has written.
proof fn lemma_renumbered_len(d: Seq<u8>, seq: int, n: int, k: int)
    requires
        0 <= n <= mfhd_fields(d, 0).len(),
    ensures
        renumbered(d, seq, n).len() >= d.len(),
        0 <= k < n ==> renumbered(d, seq, n).len() >= mfhd_fields(d, 0)[k] + 4,
    decreases n,
{
    if n > 0 {
        lemma_renumbered_len(d, seq, n - 1, k);
    }
}

/// Renumbering leaves every byte outside the sequence numbers as it was, and the length too unless
/// the file ends inside an `mfhd` box.
pub proof fn law_renumbering_is_verbatim_elsewhere(d: Seq<u8>, seq: u32, n: int, i: int)
    requires
        0 <= n <= mfhd_fields(d, 0).len(),
        0 <= i < d.len(),
        forall|k: int| 0 <= k < n ==> !(#[trigger] mfhd_fields(d, 0)[k] <= i < mfhd_fields(d, 0)[k] + 4),
    ensures
        renumbered(d, seq as int, n)[i] == d[i],
        (forall|k: int| 0 <= k < n ==> #[trigger] mfhd_fields(d, 0)[k] + 4 <= d.len()) ==> renumbered(
            d,
            seq as int,
            n,
        ).len() == d.len(),
    decreases n,
{
    if n > 0 {
        law_renumbering_is_verbatim_elsewhere(d, seq, n - 1, i);
        lemma_renumbered_len(d, seq as int, n - 1, 0);
    }
}

/// A box of a file has the size that it begins with; 1 stands for a 64-bit number, 0 for the rest of the
/// file.
pub proof fn law_file_boxes_announce_their_size(d: Seq<u8>, pos: int)
    requires
        0 <= pos,
        pos + 8 <= d.len(),
    ensures
        be32(d, pos) >= 8 ==> file_box_at(d, pos) == Some(be32(d, pos) as int),
        be32(d, pos) == 0 ==> file_box_at(d, pos) == Some(d.len() - pos),
        2 <= be32(d, pos) < 8 ==> file_box_at(d, pos) is None,
        be32(d, pos) == 1 && pos + 16 <= d.len() && be64(d, pos + 8) >= 16 ==> file_box_at(d, pos) == Some(
            be64(d, pos + 8) as int,
        ),
        be32(d, pos) == 1 && (pos + 16 > d.len() || be64(d, pos + 8) < 16) ==> file_box_at(d, pos) is None,
{
}

/// A file with media or with its metadata is no partial segment, wherever at top level they are, and
/// neither is one without a `styp` box.
pub proof fn law_partial_segments_have_no_media(d: Seq<u8>, k: int)
    requires
        0 <= k < top_kinds(d, 0).len(),
    ensures
        top_kinds(d, 0)[k] == MOOF || top_kinds(d, 0)[k] == MDAT ==> !is_empty(d),
        !top_kinds(d, 0).contains(STYP as nat) ==> !is_empty(d),
        top_kinds(d, 0)[k] == STYP && (forall|i: int|
            0 <= i < top_kinds(d, 0).len() ==> #[trigger] top_kinds(d, 0)[i] != MOOF && top_kinds(d, 0)[i]
                != MDAT) ==> is_empty(d),
{
    let kinds = top_kinds(d, 0);
    assert(kinds.contains(kinds[k]));
}

/// The boxes at top level are listed one after the other.
pub proof fn law_boxes_follow_one_another(d: Seq<u8>, pos: int, size: int)
    requires
        file_box_at(d, pos) == Some(size),
    ensures
        top_kinds(d, pos).len() > 0,
        top_kinds(d, pos)[0] == type_at(d, pos),
        top_kinds(d, pos).skip(1) == top_kinds(d, pos + size),
{
    assert(size >= 1);
    let rest = top_kinds(d, pos + size);
    assert((seq![type_at(d, pos)] + rest).skip(1) =~= rest);
}

/// The number of a fragment is in an `mfhd` box of 16 bytes, behind its header, its version and its flags.
/// Such boxes are looked for inside `moof` and `traf` boxes too, and no other box has a number.
pub proof fn law_numbers_are_in_their_boxes(d: Seq<u8>, pos: int, size: int)
    requires
        file_box_at(d, pos) == Some(size),
    ensures
        type_at(d, pos) == MOOF ==> mfhd_fields(d, pos) == mfhd_fields(d, pos + 8),
        type_at(d, pos) == TRAF ==> mfhd_fields(d, pos) == mfhd_fields(d, pos + 8),
        type_at(d, pos) == MFHD && size == 16 ==> mfhd_fields(d, pos).len() > 0 && mfhd_fields(d, pos)[0]
            == pos + 12 && mfhd_fields(d, pos).skip(1) == mfhd_fields(d, pos + 16),
        type_at(d, pos) != MOOF && type_at(d, pos) != TRAF && (type_at(d, pos) != MFHD || size != 16)
            ==> mfhd_fields(d, pos) == mfhd_fields(d, pos + size),
{
    assert(size >= 1);
    let rest = mfhd_fields(d, pos + size);
    assert((seq![pos + 12] + rest).skip(1) =~= rest);
}

/// A box is noted under its own type, and no other note is changed.
pub proof fn law_boxes_are_noted_by_type(seg: Segment, span: BoxSpan, kind: int)
    ensures
        ({
            let r = with_box(seg, kind, span);
            &&& r.styp == if kind == STYP {
                Some(span)
            } else {
                seg.styp
            }
            &&& r.sidx == if kind == SIDX {
                Some(span)
            } else {
                seg.sidx
            }
            &&& r.moof == if kind == MOOF {
                Some(span)
            } else {
                seg.moof
            }
            &&& r.mdat == if kind == MDAT {
                Some(span)
            } else {
                seg.mdat
            }
        }),
{
}

/// A segment that was read ends with its media: nothing behind the first `mdat` box belongs to it. What
/// is behind the end of the file is not looked at.
pub proof fn law_segments_end_at_their_media(d: Seq<u8>, pos: int, size: int, seg: Segment)
    requires
        segment_from(d, pos, size, seg) is Ok,
        pos < size,
        0 <= pos,
    ensures
        ({
            let kind = header_at(d, pos).unwrap().0;
            let end = span_end(d, pos);
            let (read, left) = segment_from(d, pos, size, seg)->Ok_0;
            &&& pos < end <= MAX_OFFSET
            &&& kind == MDAT ==> left == end && read.mdat == Some(
                BoxSpan { start: pos as u64, end: end as u64 },
            ) && read.moof == seg.moof && read.sidx == seg.sidx && read.styp == seg.styp
            &&& kind != MDAT ==> segment_from(
                d,
                end,
                size,
                with_box(seg, kind, (BoxSpan { start: pos as u64, end: end as u64 })),
            ) == segment_from(d, pos, size, seg)
        }),
        segment_from(d, size, size, seg) == Ok::<(Segment, int), PatchError>((seg, size)),
{
}

}
