//! Splitting segment data off an initialization segment.
//!
//! A transcoder may write the first media segments into the initialization file. They are moved
//! to a file of their own: each gets a `styp` box in front, the next sequence number, and the
//! decode time that its `sidx` box announces.

use vstd::prelude::*;
use vstd::slice::slice_subrange;
use vstd::slice::slice_to_vec;

use crate::patch::boxes::{
    be32, be32_bytes, be64, be64_bytes, box_at, box_size_at, fits, header_at, lemma_be32_round_trip,
    lemma_be64_round_trip, lemma_box_at, overwrite, overwrite_at, read_u32_be, read_u64_be, size_at,
    type_at, u32_be_bytes, u64_be_bytes, PatchError, FTYP, ISOM, MDAT, MFHD, MOOF, SIDX, STYP, TFDT,
    TRAF,
};

verus! {

/// Patchable fields found within the bytes of one segment.
#[derive(Clone, Copy, Debug, PartialEq, Eq, Structural)]
pub struct SegmentPatchInfo {
    /// `earliest_presentation_time` of the `sidx` box.
    pub sidx_ept: Option<u64>,
    /// Offset of `mfhd.sequence_number`.
    pub mfhd_seq_offset: Option<usize>,
    /// Offset of `tfdt.base_media_decode_time`.
    pub tfdt_bmd_offset: Option<usize>,
    /// Version of the `tfdt` box: 0 has a 4-byte time, any other an 8-byte time.
    pub tfdt_version: u8,
}

/// What becomes of an initialization segment.
#[derive(Debug)]
pub struct PatchedInit {
    /// Length of the part that stays in the initialization file.
    pub init_end: usize,
    /// The bytes of the segment file, or `None` where no segment data follows the init part.
    pub segments: Option<Vec<u8>>,
    /// The next sequence number.
    pub next_seq: u32,
}

/// `moof` and `traf` are descended into.
pub open spec fn is_container(kind: nat) -> bool {
    kind == MOOF || kind == TRAF
}

/// The starts of the boxes that a scan from `pos` visits: every box that fits, where a container
/// stands for its children.
pub open spec fn leaves(d: Seq<u8>, pos: int) -> Seq<int>
    decreases d.len() - pos,
{
    if box_at(d, pos) is None {
        Seq::empty()
    } else if is_container(type_at(d, pos)) {
        leaves(d, pos + header_at(d, pos))
    } else if !fits(d, pos) {
        Seq::empty()
    } else {
        seq![pos] + leaves(d, pos + size_at(d, pos))
    }
}

/// The last element of `s` that satisfies `f`.
pub open spec fn last_where(s: Seq<int>, f: spec_fn(int) -> bool) -> Option<int>
    decreases s.len(),
{
    if s.len() == 0 {
        None
    } else if f(s.last()) {
        Some(s.last())
    } else {
        last_where(s.drop_last(), f)
    }
}

/// The box at `p` is an `mfhd` box of the one size that it can have.
pub open spec fn is_mfhd(d: Seq<u8>, p: int) -> bool {
    type_at(d, p) == MFHD && size_at(d, p) == 16
}

/// The box at `p` is a `tfdt` box that holds the time that its version announces.
pub open spec fn is_tfdt(d: Seq<u8>, p: int) -> bool {
    type_at(d, p) == TFDT && size_at(d, p) >= if d[p + 8] == 0 {
        16int
    } else {
        20
    }
}

/// The box at `p` is a `sidx` box that holds the time that its version announces.
pub open spec fn is_sidx(d: Seq<u8>, p: int) -> bool {
    type_at(d, p) == SIDX && size_at(d, p) >= if d[p + 8] == 0 {
        28int
    } else {
        32
    }
}

/// The earliest presentation time in the `sidx` box at `p`.
pub open spec fn ept_at(d: Seq<u8>, p: int) -> nat {
    if d[p + 8] == 0 {
        be32(d, p + 20)
    } else {
        be64(d, p + 20)
    }
}

/// The box at `p` needs a version byte that lies beyond the data.
pub open spec fn is_truncated(d: Seq<u8>, p: int) -> bool {
    (type_at(d, p) == SIDX || type_at(d, p) == TFDT) && p + 8 >= d.len()
}

/// No box that a scan visits lacks its version byte.
#[verifier::opaque]
pub open spec fn scannable(d: Seq<u8>) -> bool {
    forall|i: int| 0 <= i < leaves(d, 0).len() ==> !is_truncated(d, #[trigger] leaves(d, 0)[i])
}

/// The `mfhd` box whose number is patched.
pub open spec fn mfhd_of(d: Seq<u8>) -> Option<int> {
    last_where(leaves(d, 0), |p: int| is_mfhd(d, p))
}

/// The `tfdt` box whose time is patched.
pub open spec fn tfdt_of(d: Seq<u8>) -> Option<int> {
    last_where(leaves(d, 0), |p: int| is_tfdt(d, p))
}

/// The `sidx` box that gives the time.
pub open spec fn sidx_of(d: Seq<u8>) -> Option<int> {
    last_where(leaves(d, 0), |p: int| is_sidx(d, p))
}

/// A segment's bytes with the sequence number `seq` and the decode time that its `sidx` announces.
#[verifier::opaque]
pub open spec fn patched(d: Seq<u8>, seq: int) -> Seq<u8> {
    let numbered = match mfhd_of(d) {
        Some(p) => overwrite(d, p + 12, be32_bytes(seq)),
        None => d,
    };
    match (sidx_of(d), tfdt_of(d)) {
        (Some(s), Some(t)) => if d[t + 8] == 0 {
            overwrite(numbered, t + 12, be32_bytes(ept_at(d, s) as int % 0x1_0000_0000))
        } else {
            overwrite(numbered, t + 12, be64_bytes(ept_at(d, s) as int))
        },
        _ => numbered,
    }
}

/// These boxes belong to a segment; the first of them ends the init part.
pub open spec fn is_segment_kind(kind: nat) -> bool {
    kind == SIDX || kind == MOOF || kind == MDAT || kind == STYP
}

/// Where the init part ends, for a walk that has come to `pos`.
pub open spec fn init_end_from(d: Seq<u8>, pos: int) -> int
    decreases d.len() - pos,
{
    if fits(d, pos) && !is_segment_kind(type_at(d, pos)) {
        init_end_from(d, pos + size_at(d, pos))
    } else {
        pos
    }
}

/// Where the init part ends.
pub open spec fn init_end(d: Seq<u8>) -> int {
    init_end_from(d, 0)
}

/// The ends of the `mdat` boxes at top level, from `pos` on.
pub open spec fn mdat_ends(d: Seq<u8>, pos: int) -> Seq<int>
    decreases d.len() - pos,
{
    if !fits(d, pos) {
        Seq::empty()
    } else if type_at(d, pos) == MDAT {
        seq![pos + size_at(d, pos)] + mdat_ends(d, pos + size_at(d, pos))
    } else {
        mdat_ends(d, pos + size_at(d, pos))
    }
}

/// The bytes of segment `k`: from the end of the `mdat` box before it to the end of its own.
pub open spec fn group(d: Seq<u8>, k: int) -> Seq<u8> {
    d.subrange(
        if k == 0 {
            0
        } else {
            mdat_ends(d, 0)[k - 1]
        },
        mdat_ends(d, 0)[k],
    )
}

/// The start of the first `ftyp` box at top level, from `pos` on.
pub open spec fn ftyp_from(d: Seq<u8>, pos: int) -> Option<int>
    decreases d.len() - pos,
{
    if !fits(d, pos) {
        None
    } else if type_at(d, pos) == FTYP {
        Some(pos)
    } else {
        ftyp_from(d, pos + size_at(d, pos))
    }
}

/// The `styp` box for segments of this init data: its `ftyp` box under another type code, or a
/// minimal one.
pub open spec fn styp_for(d: Seq<u8>) -> Seq<u8> {
    match ftyp_from(d, 0) {
        Some(p) => overwrite(d.subrange(p, p + size_at(d, p)), 4, be32_bytes(STYP as int)),
        None => be32_bytes(20) + be32_bytes(STYP as int) + be32_bytes(ISOM as int) + be32_bytes(0)
            + be32_bytes(ISOM as int),
    }
}

/// The segment file for the first `k` segments of `d`, numbered from `seq`.
pub open spec fn segment_file(d: Seq<u8>, styp: Seq<u8>, seq: int, k: int) -> Seq<u8>
    decreases k,
{
    if k <= 0 {
        Seq::empty()
    } else {
        let g = group(d, k - 1);
        segment_file(d, styp, seq, k - 1) + (if type_at(g, 0) == STYP {
            Seq::empty()
        } else {
            styp
        }) + patched(g, seq + k - 1)
    }
}

/// The first `k` segments of `d` can be scanned.
pub open spec fn scannable_to(d: Seq<u8>, k: int) -> bool {
    forall|i: int| 0 <= i < k ==> scannable(#[trigger] group(d, i))
}

/// The bytes after the init part.
pub open spec fn segment_data(d: Seq<u8>) -> Seq<u8> {
    d.subrange(init_end(d), d.len() as int)
}

/// Looks for patchable fields in the bytes of a segment, without deserialising it.
///
/// Fails where the data ends in a `sidx` or `tfdt` box without a version byte.
pub fn scan_segment_patch_info(data: &[u8]) -> (r: Result<SegmentPatchInfo, PatchError>)
    ensures
        r is Ok <==> scannable(data@),
        r matches Err(e) ==> e == PatchError::TruncatedBox,
        r matches Ok(info) ==> {
            &&& info.mfhd_seq_offset is Some <==> mfhd_of(data@) is Some
            &&& info.mfhd_seq_offset matches Some(o) ==> o == mfhd_of(data@)->0 + 12
            &&& info.sidx_ept is Some <==> sidx_of(data@) is Some
            &&& info.sidx_ept matches Some(t) ==> t == ept_at(data@, sidx_of(data@)->0)
            &&& info.tfdt_bmd_offset is Some <==> tfdt_of(data@) is Some
            &&& info.tfdt_bmd_offset matches Some(o) ==> o == tfdt_of(data@)->0 + 12
            &&& info.tfdt_version == (if tfdt_of(data@) is Some {
                data@[tfdt_of(data@)->0 + 8]
            } else {
                0
            })
        },
{
    let mut info = SegmentPatchInfo {
        sidx_ept: None,
        mfhd_seq_offset: None,
        tfdt_bmd_offset: None,
        tfdt_version: 0,
    };
    let len: usize = data.len();
    let mut pos: usize = 0;
    let ghost mut done = Seq::<int>::empty();
    proof {
        reveal(scannable);
        assert(done + leaves(data@, 0) =~= leaves(data@, 0));
    }
    let ghost fm = |p: int| is_mfhd(data@, p);
    let ghost ft = |p: int| is_tfdt(data@, p);
    let ghost fs = |p: int| is_sidx(data@, p);
    while pos < len
        invariant_except_break
            leaves(data@, 0) == done + leaves(data@, pos as int),
        invariant
            pos <= len,
            len == data@.len(),
            fm == (|p: int| is_mfhd(data@, p)),
            ft == (|p: int| is_tfdt(data@, p)),
            fs == (|p: int| is_sidx(data@, p)),
            forall|i: int| 0 <= i < done.len() ==> !is_truncated(data@, #[trigger] done[i]),
            info.mfhd_seq_offset is Some <==> last_where(done, fm) is Some,
            info.mfhd_seq_offset matches Some(o) ==> o == last_where(done, fm)->0 + 12,
            info.sidx_ept is Some <==> last_where(done, fs) is Some,
            info.sidx_ept matches Some(t) ==> t == ept_at(data@, last_where(done, fs)->0),
            info.tfdt_bmd_offset is Some <==> last_where(done, ft) is Some,
            info.tfdt_bmd_offset matches Some(o) ==> o == last_where(done, ft)->0 + 12,
            info.tfdt_version == (if last_where(done, ft) is Some {
                data@[last_where(done, ft)->0 + 8]
            } else {
                0
            }),
        ensures
            leaves(data@, 0) == done,
        decreases len - pos,
    {
        let (box_size, header_size) = match box_size_at(data, pos) {
            Some(sizes) => sizes,
            None => {
                assert(done + leaves(data@, pos as int) =~= done);
                break;
            },
        };
        let kind = read_u32_be(data, pos + 4);
        if kind == MOOF || kind == TRAF {
            pos = pos + header_size;
            continue;
        }
        if box_size > len - pos {
            assert(done + leaves(data@, pos as int) =~= done);
            break;
        }
        let ghost next = done.push(pos as int);
        proof {
            assert(next.drop_last() =~= done);
            assert(done + leaves(data@, pos as int) =~= next + leaves(data@, pos + box_size));
            assert(leaves(data@, 0)[done.len() as int] == pos);
        }
        if kind == SIDX || kind == TFDT {
            if pos + 8 >= len {
                proof {
                    reveal(scannable);
                }
                return Err(PatchError::TruncatedBox);
            }
            let version = data[pos + 8];
            if kind == SIDX {
                if version == 0 && box_size >= 28 {
                    info.sidx_ept = Some(read_u32_be(data, pos + 20) as u64);
                } else if version >= 1 && box_size >= 32 {
                    info.sidx_ept = Some(read_u64_be(data, pos + 20));
                }
            } else {
                if version == 0 && box_size >= 16 {
                    info.tfdt_version = 0;
                    info.tfdt_bmd_offset = Some(pos + 12);
                } else if version >= 1 && box_size >= 20 {
                    info.tfdt_version = version;
                    info.tfdt_bmd_offset = Some(pos + 12);
                }
            }
        } else if kind == MFHD && box_size == 16 {
            info.mfhd_seq_offset = Some(pos + 12);
        }
        proof {
            done = next;
        }
        pos = pos + box_size;
    }
    Ok(info)
}

/// Makes a `styp` box out of the `ftyp` box of the init data, or a minimal one where there is none.
pub fn make_styp_from_init(init_data: &[u8]) -> (r: Vec<u8>)
    ensures
        r@ == styp_for(init_data@),
{
    let len: usize = init_data.len();
    let mut pos: usize = 0;
    while pos < len
        invariant_except_break
            ftyp_from(init_data@, 0) == ftyp_from(init_data@, pos as int),
        invariant
            pos <= len,
            len == init_data@.len(),
        ensures
            ftyp_from(init_data@, 0) is None,
        decreases len - pos,
    {
        let (box_size, _header_size) = match box_size_at(init_data, pos) {
            Some(sizes) => sizes,
            None => break,
        };
        if box_size > len - pos {
            break;
        }
        if read_u32_be(init_data, pos + 4) == FTYP {
            let mut styp = slice_to_vec(slice_subrange(init_data, pos, pos + box_size));
            overwrite_at(&mut styp, 4, &u32_be_bytes(STYP));
            return styp;
        }
        pos = pos + box_size;
    }
    let mut styp = u32_be_bytes(20);
    styp.append(&mut u32_be_bytes(STYP));
    styp.append(&mut u32_be_bytes(ISOM));
    styp.append(&mut u32_be_bytes(0));
    styp.append(&mut u32_be_bytes(ISOM));
    styp
}

/// Finds where the init part of the data ends.
fn find_init_end(data: &[u8]) -> (r: usize)
    ensures
        r == init_end(data@),
        r <= data@.len(),
{
    let len: usize = data.len();
    let mut pos: usize = 0;
    while pos < len
        invariant_except_break
            init_end(data@) == init_end_from(data@, pos as int),
        invariant
            pos <= len,
            len == data@.len(),
        ensures
            pos == init_end(data@),
        decreases len - pos,
    {
        let (box_size, _header_size) = match box_size_at(data, pos) {
            Some(sizes) => sizes,
            None => break,
        };
        if box_size > len - pos {
            break;
        }
        let kind = read_u32_be(data, pos + 4);
        if kind == SIDX || kind == MOOF || kind == MDAT || kind == STYP {
            break;
        }
        pos = pos + box_size;
    }
    pos
}

/// Copies a segment, with the sequence number `seq` and the decode time that its `sidx` announces.
pub fn patch_group(group: &[u8], seq: u32) -> (r: Result<Vec<u8>, PatchError>)
    ensures
        r is Ok <==> scannable(group@),
        r matches Err(e) ==> e == PatchError::TruncatedBox,
        r matches Ok(bytes) ==> bytes@ == patched(group@, seq as int),
{
    let info = match scan_segment_patch_info(group) {
        Ok(info) => info,
        Err(e) => {
            return Err(e);
        },
    };
    let mut buf = slice_to_vec(group);
    proof {
        reveal(patched);
        lemma_leaves(group@, 0);
        lemma_last_where(leaves(group@, 0), |p: int| is_mfhd(group@, p));
        lemma_last_where(leaves(group@, 0), |p: int| is_tfdt(group@, p));
        lemma_last_where(leaves(group@, 0), |p: int| is_sidx(group@, p));
    }
    if let Some(offset) = info.mfhd_seq_offset {
        overwrite_at(&mut buf, offset, &u32_be_bytes(seq));
    }
    if let Some(ept) = info.sidx_ept {
        if let Some(offset) = info.tfdt_bmd_offset {
            if info.tfdt_version == 0 {
                overwrite_at(&mut buf, offset, &u32_be_bytes((ept % 0x1_0000_0000) as u32));
            } else {
                overwrite_at(&mut buf, offset, &u64_be_bytes(ept));
            }
        }
    }
    Ok(buf)
}

/// What `last_where` finds is an element that satisfies `f`.
pub proof fn lemma_last_where(s: Seq<int>, f: spec_fn(int) -> bool)
    ensures
        last_where(s, f) matches Some(p) ==> f(p) && exists|i: int| 0 <= i < s.len() && s[i] == p,
    decreases s.len(),
{
    if s.len() > 0 {
        if f(s.last()) {
            assert(s[s.len() - 1] == s.last());
        } else {
            lemma_last_where(s.drop_last(), f);
            if let Some(p) = last_where(s, f) {
                let i = choose|i: int| 0 <= i < s.drop_last().len() && s.drop_last()[i] == p;
                assert(s[i] == p);
            }
        }
    }
}

/// The boxes that a scan visits lie within the data, one after the other.
pub proof fn lemma_leaves(d: Seq<u8>, pos: int)
    requires
        0 <= pos,
    ensures
        forall|i: int|
            0 <= i < leaves(d, pos).len() ==> pos <= #[trigger] leaves(d, pos)[i] && fits(
                d,
                leaves(d, pos)[i],
            ),
        forall|i: int, j: int|
            0 <= i < j < leaves(d, pos).len() ==> #[trigger] leaves(d, pos)[i] + size_at(
                d,
                leaves(d, pos)[i],
            ) <= #[trigger] leaves(d, pos)[j],
    decreases d.len() - pos,
{
    if box_at(d, pos) is Some {
        lemma_box_at(d, pos);
        if is_container(type_at(d, pos)) {
            lemma_leaves(d, pos + header_at(d, pos));
            assert(leaves(d, pos) == leaves(d, pos + header_at(d, pos)));
        } else if fits(d, pos) {
            let all = leaves(d, pos);
            let rest = leaves(d, pos + size_at(d, pos));
            lemma_leaves(d, pos + size_at(d, pos));
            assert(all == seq![pos] + rest);
            assert forall|i: int| 0 <= i < all.len() implies pos <= #[trigger] all[i] && fits(
                d,
                all[i],
            ) by {
                assert(i > 0 ==> all[i] == rest[i - 1]);
            }
            assert forall|i: int, j: int| 0 <= i < j < all.len() implies #[trigger] all[i]
                + size_at(d, all[i]) <= #[trigger] all[j] by {
                assert(i > 0 ==> all[i] == rest[i - 1]);
                assert(all[j] == rest[j - 1]);
            }
        }
    }
}

/// The ends of the `mdat` boxes ascend, and lie within the data.
pub proof fn lemma_mdat_ends(d: Seq<u8>, pos: int)
    requires
        0 <= pos,
    ensures
        forall|i: int|
            0 <= i < mdat_ends(d, pos).len() ==> pos + 8 <= #[trigger] mdat_ends(d, pos)[i]
                <= d.len(),
        forall|i: int, j: int|
            0 <= i < j < mdat_ends(d, pos).len() ==> #[trigger] mdat_ends(d, pos)[i] + 8
                <= #[trigger] mdat_ends(d, pos)[j],
    decreases d.len() - pos,
{
    if fits(d, pos) {
        lemma_box_at(d, pos);
        let rest = mdat_ends(d, pos + size_at(d, pos));
        lemma_mdat_ends(d, pos + size_at(d, pos));
        if type_at(d, pos) == MDAT {
            assert forall|i: int| 0 <= i < mdat_ends(d, pos).len() implies #[trigger] mdat_ends(
                d,
                pos,
            )[i] == if i == 0 {
                pos + size_at(d, pos)
            } else {
                rest[i - 1]
            } by {}
        }
    }
}

/// Moves the segments that are embedded in an initialization segment out of it.
///
/// Each segment ends with an `mdat` box. It is copied with two fields patched: the sequence
/// number, which counts up from `seq`, and the decode time, where a `sidx` box gives one. A `styp`
/// box is put before a segment that does not begin with one. Bytes after the last `mdat` box are
/// dropped.
///
/// Fails where a segment ends in a `sidx` or `tfdt` box without a version byte, and where the
/// sequence numbers run out, whichever comes first.
pub fn patch_init_segment(data: &[u8], seq: u32) -> (r: Result<PatchedInit, PatchError>)
    ensures
        r is Ok <==> scannable_to(segment_data(data@), mdat_ends(segment_data(data@), 0).len() as int)
            && seq + mdat_ends(segment_data(data@), 0).len() <= u32::MAX,
        r matches Ok(p) ==> {
            let d = segment_data(data@);
            let n = mdat_ends(d, 0).len() as int;
            &&& p.init_end == init_end(data@)
            &&& p.next_seq == seq + n
            &&& p.segments is None <==> d.len() == 0
            &&& p.segments matches Some(bytes) ==> bytes@ == segment_file(
                d,
                styp_for(data@.subrange(0, init_end(data@))),
                seq as int,
                n,
            )
        },
        r matches Err(e) ==> {
            let d = segment_data(data@);
            ||| e == PatchError::TruncatedBox && exists|k: int|
                0 <= k < mdat_ends(d, 0).len() && seq + k <= u32::MAX && scannable_to(d, k)
                    && !scannable(#[trigger] group(d, k))
            ||| e == PatchError::SequenceOverflow && seq + mdat_ends(d, 0).len() > u32::MAX
                && scannable_to(d, u32::MAX + 1 - seq)
        },
{
    let end = find_init_end(data);
    let seg = slice_subrange(data, end, data.len());
    assert(seg@ == segment_data(data@));
    let len: usize = seg.len();
    if len == 0 {
        return Ok(PatchedInit { init_end: end, segments: None, next_seq: seq });
    }
    let styp = make_styp_from_init(slice_subrange(data, 0, end));
    let mut out: Vec<u8> = Vec::new();
    let mut pos: usize = 0;
    let mut group_start: usize = 0;
    let mut next_seq: u32 = seq;
    let ghost ends = mdat_ends(seg@, 0);
    let ghost mut k: int = 0;
    proof {
        lemma_mdat_ends(seg@, 0);
        assert(ends.subrange(0, 0) + mdat_ends(seg@, 0) =~= ends);
    }
    while pos < len
        invariant_except_break
            ends == ends.subrange(0, k) + mdat_ends(seg@, pos as int),
        invariant
            seg@ == segment_data(data@),
            len == seg@.len(),
            pos <= len,
            0 <= k <= ends.len(),
            ends == mdat_ends(seg@, 0),
            forall|i: int| 0 <= i < ends.len() ==> 8 <= #[trigger] ends[i] <= len,
            forall|i: int, j: int|
                0 <= i < j < ends.len() ==> #[trigger] ends[i] + 8 <= #[trigger] ends[j],
            group_start == (if k == 0 {
                0
            } else {
                ends[k - 1]
            }),
            group_start <= pos,
            next_seq == seq + k,
            scannable_to(seg@, k),
            out@ == segment_file(seg@, styp@, seq as int, k),
        ensures
            k == ends.len(),
        decreases len - pos,
    {
        let (box_size, _header_size) = match box_size_at(seg, pos) {
            Some(sizes) => sizes,
            None => break,
        };
        if box_size > len - pos {
            break;
        }
        let after: usize = pos + box_size;
        if read_u32_be(seg, pos + 4) == MDAT {
            proof {
                assert(ends[k] == (ends.subrange(0, k) + mdat_ends(seg@, pos as int))[k]);
                assert(ends[k] == after);
                assert(ends.subrange(0, k + 1) + mdat_ends(seg@, after as int) =~= ends.subrange(
                    0,
                    k,
                ) + mdat_ends(seg@, pos as int));
            }
            let one = slice_subrange(seg, group_start, after);
            assert(one@ == group(seg@, k));
            let mut bytes = match patch_group(one, next_seq) {
                Ok(bytes) => bytes,
                Err(e) => {
                    return Err(e);
                },
            };
            if read_u32_be(one, 4) != STYP {
                let mut copy = slice_to_vec(styp.as_slice());
                out.append(&mut copy);
            }
            out.append(&mut bytes);
            proof {
                k = k + 1;
                assert(out@ =~= segment_file(seg@, styp@, seq as int, k));
            }
            if next_seq == u32::MAX {
                return Err(PatchError::SequenceOverflow);
            }
            next_seq = next_seq + 1;
            group_start = after;
        }
        pos = after;
    }
    Ok(PatchedInit { init_end: end, segments: Some(out), next_seq })
}

/// A patch keeps a segment's length, and every byte outside the sequence number and the decode
/// time.
pub proof fn law_patch_is_verbatim_elsewhere(d: Seq<u8>, seq: u32, i: int)
    requires
        0 <= i < d.len(),
        mfhd_of(d) matches Some(p) ==> !(p + 12 <= i < p + 16),
        tfdt_of(d) matches Some(t) ==> !(t + 12 <= i < t + if d[t + 8] == 0 {
            16int
        } else {
            20
        }),
    ensures
        patched(d, seq as int).len() == d.len(),
        patched(d, seq as int)[i] == d[i],
{
    reveal(patched);
}

/// The boxes chosen by two different selections are apart, and inside the data.
proof fn lemma_fields_apart(d: Seq<u8>)
    ensures
        mfhd_of(d) matches Some(p) ==> 0 <= p && p + 16 <= d.len(),
        tfdt_of(d) matches Some(t) ==> 0 <= t && t + (if d[t + 8] == 0 {
            16int
        } else {
            20
        }) <= d.len(),
        (mfhd_of(d) matches Some(p) && tfdt_of(d) matches Some(t)) ==> mfhd_of(d)->0 + 16
            <= tfdt_of(d)->0 || tfdt_of(d)->0 + (if d[tfdt_of(d)->0 + 8] == 0 {
            16int
        } else {
            20
        }) <= mfhd_of(d)->0,
{
    lemma_leaves(d, 0);
    lemma_last_where(leaves(d, 0), |p: int| is_mfhd(d, p));
    lemma_last_where(leaves(d, 0), |p: int| is_tfdt(d, p));
}

/// A patched segment carries the sequence number that it was given.
pub proof fn law_patched_sequence_number(d: Seq<u8>, seq: u32)
    requires
        mfhd_of(d) is Some,
    ensures
        be32(patched(d, seq as int), mfhd_of(d)->0 + 12) == seq,
{
    reveal(patched);
    lemma_fields_apart(d);
    lemma_be32_round_trip(seq);
    let p = mfhd_of(d)->0;
    let out = patched(d, seq as int);
    assert forall|i: int| 0 <= i < 4 implies #[trigger] out[p + 12 + i] == be32_bytes(
        seq as int,
    )[i] by {}
    assert(out[p + 12 + 0] == be32_bytes(seq as int)[0]);
    assert(out[p + 12 + 1] == be32_bytes(seq as int)[1]);
    assert(out[p + 12 + 2] == be32_bytes(seq as int)[2]);
    assert(out[p + 12 + 3] == be32_bytes(seq as int)[3]);
}

/// A patched segment with a `sidx` and a `tfdt` box decodes from the time that the `sidx`
/// announces; a version 0 `tfdt` holds the low 32 bits of it.
pub proof fn law_patched_decode_time(d: Seq<u8>, seq: u32)
    requires
        sidx_of(d) is Some,
        tfdt_of(d) is Some,
    ensures
        d[tfdt_of(d)->0 + 8] == 0 ==> be32(patched(d, seq as int), tfdt_of(d)->0 + 12) == ept_at(
            d,
            sidx_of(d)->0,
        ) % 0x1_0000_0000,
        d[tfdt_of(d)->0 + 8] != 0 ==> be64(patched(d, seq as int), tfdt_of(d)->0 + 12) == ept_at(
            d,
            sidx_of(d)->0,
        ),
{
    reveal(patched);
    lemma_fields_apart(d);
    let t = tfdt_of(d)->0;
    let ept = ept_at(d, sidx_of(d)->0) as int;
    let out = patched(d, seq as int);
    if d[t + 8] == 0 {
        let b = be32_bytes(ept % 0x1_0000_0000);
        lemma_be32_round_trip((ept % 0x1_0000_0000) as u32);
        assert(out[t + 12 + 0] == b[0]);
        assert(out[t + 12 + 1] == b[1]);
        assert(out[t + 12 + 2] == b[2]);
        assert(out[t + 12 + 3] == b[3]);
    } else {
        let b = be64_bytes(ept);
        lemma_be64_round_trip(ept as u64);
        assert(b.len() == 8);
        assert(out[t + 12 + 0] == b[0]);
        assert(out[t + 12 + 1] == b[1]);
        assert(out[t + 12 + 2] == b[2]);
        assert(out[t + 12 + 3] == b[3]);
        assert(out[t + 12 + 4] == b[4]);
        assert(out[t + 12 + 5] == b[5]);
        assert(out[t + 12 + 6] == b[6]);
        assert(out[t + 12 + 7] == b[7]);
    }
}

/// The init part and the segment data are the whole file, and the segments are consecutive, each
/// beginning where the one before it ends.
pub proof fn law_segments_are_consecutive(d: Seq<u8>, k: int)
    requires
        0 <= k,
        k + 1 < mdat_ends(segment_data(d), 0).len(),
    ensures
        d =~= d.subrange(0, init_end(d)) + segment_data(d),
        segment_data(d).subrange(0, mdat_ends(segment_data(d), 0)[0]) == group(segment_data(d), 0),
        group(segment_data(d), k) + group(segment_data(d), k + 1) =~= segment_data(d).subrange(
            if k == 0 {
                0
            } else {
                mdat_ends(segment_data(d), 0)[k - 1]
            },
            mdat_ends(segment_data(d), 0)[k + 1],
        ),
{
    lemma_init_end(d, 0);
    lemma_mdat_ends(segment_data(d), 0);
    assert(k > 0 ==> mdat_ends(segment_data(d), 0)[k - 1] <= mdat_ends(segment_data(d), 0)[k]);
    assert(mdat_ends(segment_data(d), 0)[k] <= mdat_ends(segment_data(d), 0)[k + 1]);
}

/// The init part ends within the data.
proof fn lemma_init_end(d: Seq<u8>, pos: int)
    requires
        0 <= pos <= d.len(),
    ensures
        pos <= init_end_from(d, pos) <= d.len(),
    decreases d.len() - pos,
{
    if fits(d, pos) && !is_segment_kind(type_at(d, pos)) {
        lemma_box_at(d, pos);
        lemma_init_end(d, pos + size_at(d, pos));
    }
}

/// The init part goes up to the first box of a segment: boxes of any other type are passed over.
pub proof fn law_init_parts_end_where_segments_begin(d: Seq<u8>, pos: int)
    requires
        fits(d, pos),
    ensures
        ({
            let kind = type_at(d, pos);
            if kind == SIDX || kind == MOOF || kind == MDAT || kind == STYP {
                init_end_from(d, pos) == pos
            } else {
                init_end_from(d, pos) == init_end_from(d, pos + size_at(d, pos))
            }
        }),
{
    lemma_box_at(d, pos);
}

/// A segment ends with its media: each `mdat` box ends one, and no other box does.
pub proof fn law_segments_end_with_their_media(d: Seq<u8>, pos: int)
    requires
        fits(d, pos),
    ensures
        ({
            let after = pos + size_at(d, pos);
            let rest = mdat_ends(d, after);
            if type_at(d, pos) == MDAT {
                mdat_ends(d, pos).len() == rest.len() + 1 && mdat_ends(d, pos)[0] == after && mdat_ends(
                    d,
                    pos,
                ).skip(1) == rest
            } else {
                mdat_ends(d, pos) == rest
            }
        }),
{
    lemma_box_at(d, pos);
    let rest = mdat_ends(d, pos + size_at(d, pos));
    assert((seq![pos + size_at(d, pos)] + rest).skip(1) =~= rest);
}

/// Every element that satisfies a condition is at or before the last one that does.
proof fn lemma_last_where_is_last(s: Seq<int>, f: spec_fn(int) -> bool, i: int)
    requires
        0 <= i < s.len(),
        f(s[i]),
    ensures
        last_where(s, f) is Some,
        exists|j: int| i <= j < s.len() && s[j] == last_where(s, f)->0,
    decreases s.len(),
{
    if f(s.last()) {
        assert(s[s.len() - 1] == s.last());
    } else {
        lemma_last_where_is_last(s.drop_last(), f, i);
        let j = choose|j: int|
            i <= j < s.drop_last().len() && s.drop_last()[j] == last_where(s.drop_last(), f)->0;
        assert(s[j] == last_where(s, f)->0);
    }
}

/// The fields that are patched are in boxes of the right type: the number in an `mfhd` box of 16 bytes,
/// the times in `tfdt` and `sidx` boxes; and a segment with such a box has the field.
pub proof fn law_fields_are_in_their_boxes(d: Seq<u8>, i: int)
    requires
        0 <= i < leaves(d, 0).len(),
    ensures
        mfhd_of(d) matches Some(p) ==> type_at(d, p) == MFHD && size_at(d, p) == 16,
        tfdt_of(d) matches Some(p) ==> type_at(d, p) == TFDT && size_at(d, p) >= 16,
        sidx_of(d) matches Some(p) ==> type_at(d, p) == SIDX && size_at(d, p) >= 28,
        ({
            let p = leaves(d, 0)[i];
            &&& type_at(d, p) == MFHD && size_at(d, p) == 16 ==> mfhd_of(d) is Some && exists|j: int|
                i <= j < leaves(d, 0).len() && leaves(d, 0)[j] == mfhd_of(d)->0
            &&& type_at(d, p) == TFDT && size_at(d, p) >= 20 ==> tfdt_of(d) is Some && exists|j: int|
                i <= j < leaves(d, 0).len() && leaves(d, 0)[j] == tfdt_of(d)->0
            &&& type_at(d, p) == TFDT && size_at(d, p) >= 16 && d[p + 8] == 0 ==> tfdt_of(d) is Some
            &&& type_at(d, p) == SIDX && size_at(d, p) >= 32 ==> sidx_of(d) is Some && exists|j: int|
                i <= j < leaves(d, 0).len() && leaves(d, 0)[j] == sidx_of(d)->0
            &&& type_at(d, p) == SIDX && size_at(d, p) >= 28 && d[p + 8] == 0 ==> sidx_of(d) is Some
        }),
{
    let fm = |p: int| is_mfhd(d, p);
    let ft = |p: int| is_tfdt(d, p);
    let fs = |p: int| is_sidx(d, p);
    lemma_last_where(leaves(d, 0), fm);
    lemma_last_where(leaves(d, 0), ft);
    lemma_last_where(leaves(d, 0), fs);
    let p = leaves(d, 0)[i];
    if fm(p) {
        lemma_last_where_is_last(leaves(d, 0), fm, i);
    }
    if ft(p) {
        lemma_last_where_is_last(leaves(d, 0), ft, i);
    }
    if fs(p) {
        lemma_last_where_is_last(leaves(d, 0), fs, i);
    }
}

/// A scan looks into `moof` and `traf` boxes and visits every other box that fits.
pub proof fn law_scans_look_into_fragments(d: Seq<u8>, pos: int)
    requires
        fits(d, pos),
    ensures
        type_at(d, pos) == MOOF || type_at(d, pos) == TRAF ==> leaves(d, pos) == leaves(
            d,
            pos + header_at(d, pos),
        ),
        type_at(d, pos) != MOOF && type_at(d, pos) != TRAF ==> leaves(d, pos).len() > 0 && leaves(
            d,
            pos,
        )[0] == pos && leaves(d, pos).skip(1) == leaves(d, pos + size_at(d, pos)),
{
    lemma_box_at(d, pos);
    let rest = leaves(d, pos + size_at(d, pos));
    assert((seq![pos] + rest).skip(1) =~= rest);
}

/// The time of a `sidx` box follows its version, its reference and its timescale. Version 0 has 32 bits for
/// it, any other 64.
pub proof fn law_times_are_read_by_version(d: Seq<u8>, p: int)
    ensures
        d[p + 8] == 0 ==> ept_at(d, p) == be32(d, p + 20),
        d[p + 8] != 0 ==> ept_at(d, p) == be32(d, p + 20) * 0x1_0000_0000 + be32(d, p + 24),
{
}

/// Every segment of the file begins with a `styp` box: its own, or the one that is put in front; and it is
/// numbered one above the segment before it.
pub proof fn law_segments_get_a_type_box(d: Seq<u8>, styp: Seq<u8>, seq: int, k: int)
    requires
        0 <= k,
    ensures
        segment_file(d, styp, seq, 0) == Seq::<u8>::empty(),
        type_at(group(d, k), 0) == STYP ==> segment_file(d, styp, seq, k + 1) == segment_file(
            d,
            styp,
            seq,
            k,
        ) + patched(group(d, k), seq + k),
        type_at(group(d, k), 0) != STYP ==> segment_file(d, styp, seq, k + 1) == segment_file(
            d,
            styp,
            seq,
            k,
        ) + styp + patched(group(d, k), seq + k),
{
    assert(segment_file(d, styp, seq, k) + Seq::<u8>::empty() =~= segment_file(d, styp, seq, k));
}

/// The `styp` box has the brands of the `ftyp` box, byte for byte; without one it has 20 bytes and the brand
/// `isom`.
pub proof fn law_type_boxes_have_the_brands(d: Seq<u8>)
    ensures
        type_at(styp_for(d), 0) == STYP,
        fits(d, 0) && type_at(d, 0) == FTYP ==> styp_for(d).len() == size_at(d, 0) && (forall|i: int|
            0 <= i < styp_for(d).len() && !(4 <= i < 8) ==> #[trigger] styp_for(d)[i] == d[i]),
        ftyp_from(d, 0) is None ==> styp_for(d).len() == 20 && be32(styp_for(d), 0) == 20 && be32(
            styp_for(d),
            8,
        ) == ISOM && be32(styp_for(d), 12) == 0 && be32(styp_for(d), 16) == ISOM,
{
    lemma_ftyp_fits(d, 0);
    lemma_be32_round_trip(STYP);
    lemma_be32_round_trip(20u32);
    lemma_be32_round_trip(ISOM);
    lemma_be32_round_trip(0u32);
    let b = be32_bytes(STYP as int);
    let r = styp_for(d);
    if let Some(p) = ftyp_from(d, 0) {
        lemma_box_at(d, p);
        assert(r[4] == b[0] && r[5] == b[1] && r[6] == b[2] && r[7] == b[3]);
    }
}

/// The `ftyp` box that is found fits.
proof fn lemma_ftyp_fits(d: Seq<u8>, pos: int)
    ensures
        ftyp_from(d, pos) matches Some(p) ==> fits(d, p) && type_at(d, p) == FTYP,
    decreases d.len() - pos,
{
    if fits(d, pos) && type_at(d, pos) != FTYP {
        lemma_box_at(d, pos);
        lemma_ftyp_fits(d, pos + size_at(d, pos));
    }
}

}
