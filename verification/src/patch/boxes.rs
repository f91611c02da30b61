//! Box headers: sizes, types, and big-endian fields.

use vstd::prelude::*;

verus! {

/// `ftyp`
pub const FTYP: u32 = 0x66747970;

/// `styp`
pub const STYP: u32 = 0x73747970;

/// `sidx`
pub const SIDX: u32 = 0x73696478;

/// `moof`
pub const MOOF: u32 = 0x6d6f6f66;

/// `traf`
pub const TRAF: u32 = 0x74726166;

/// `mfhd`
pub const MFHD: u32 = 0x6d666864;

/// `tfdt`
pub const TFDT: u32 = 0x74666474;

/// `mdat`
pub const MDAT: u32 = 0x6d646174;

/// `isom`
pub const ISOM: u32 = 0x69736f6d;

/// Why a patch was not applied.
#[derive(Clone, Copy, Debug, PartialEq, Eq, Structural)]
pub enum PatchError {
    /// A `sidx` or `tfdt` box ends before its version byte, at the end of the data.
    TruncatedBox,
    /// A sequence number would not fit in 32 bits.
    SequenceOverflow,
    /// A box claims to end beyond the largest file offset.
    OffsetOutOfRange,
    /// A box header that cannot be read, or a box that claims to be empty.
    InvalidBox,
}

/// The unsigned 32-bit big-endian number at `pos`.
pub open spec fn be32(d: Seq<u8>, pos: int) -> nat {
    (d[pos] * 0x100_0000 + d[pos + 1] * 0x1_0000 + d[pos + 2] * 0x100 + d[pos + 3]) as nat
}

/// The unsigned 64-bit big-endian number at `pos`.
pub open spec fn be64(d: Seq<u8>, pos: int) -> nat {
    be32(d, pos) * 0x1_0000_0000 + be32(d, pos + 4)
}

/// The four big-endian bytes of `x`.
pub open spec fn be32_bytes(x: int) -> Seq<u8> {
    seq![
        (x / 0x100_0000 % 0x100) as u8,
        (x / 0x1_0000 % 0x100) as u8,
        (x / 0x100 % 0x100) as u8,
        (x % 0x100) as u8,
    ]
}

/// The eight big-endian bytes of `x`.
pub open spec fn be64_bytes(x: int) -> Seq<u8> {
    be32_bytes(x / 0x1_0000_0000) + be32_bytes(x % 0x1_0000_0000)
}

/// `s` with `bytes` written over it from offset `at` on.
pub open spec fn overwrite(s: Seq<u8>, at: int, bytes: Seq<u8>) -> Seq<u8> {
    Seq::new(
        s.len(),
        |i: int| if at <= i < at + bytes.len() { bytes[i - at] } else { s[i] },
    )
}

/// The type code of the box that starts at `pos`.
pub open spec fn type_at(d: Seq<u8>, pos: int) -> nat {
    be32(d, pos + 4)
}

/// Total size and header size of the box that starts at `pos`, or `None` where the header is
/// truncated or malformed or the size is no `usize`. A 32-bit size of 1 announces a 64-bit size, one
/// of 0 a box that extends to the end of the data.
pub open spec fn box_at(d: Seq<u8>, pos: int) -> Option<(int, int)> {
    if pos < 0 || pos + 8 > d.len() {
        None
    } else if be32(d, pos) == 0 {
        Some((d.len() - pos, 8))
    } else if be32(d, pos) == 1 {
        if pos + 16 > d.len() || be64(d, pos + 8) < 16 || be64(d, pos + 8) > usize::MAX {
            None
        } else {
            Some((be64(d, pos + 8) as int, 16))
        }
    } else if be32(d, pos) < 8 {
        None
    } else {
        Some((be32(d, pos) as int, 8))
    }
}

/// Total size of the box that starts at `pos`.
pub open spec fn size_at(d: Seq<u8>, pos: int) -> int {
    box_at(d, pos).unwrap().0
}

/// Header size of the box that starts at `pos`.
pub open spec fn header_at(d: Seq<u8>, pos: int) -> int {
    box_at(d, pos).unwrap().1
}

/// The box that starts at `pos` lies within the data.
pub open spec fn fits(d: Seq<u8>, pos: int) -> bool {
    box_at(d, pos) is Some && pos + size_at(d, pos) <= d.len()
}

/// A box is never smaller than its header, and its header has 8 or 16 bytes.
pub proof fn lemma_box_at(d: Seq<u8>, pos: int)
    requires
        box_at(d, pos) is Some,
    ensures
        0 <= pos,
        pos + 8 <= d.len(),
        8 <= header_at(d, pos) <= size_at(d, pos),
        header_at(d, pos) <= 16,
{
}

/// Reading back the four bytes of `x` gives `x`.
pub proof fn lemma_be32_round_trip(x: u32)
    ensures
        be32(be32_bytes(x as int), 0) == x,
        be32_bytes(x as int).len() == 4,
{
}

/// Reading back the eight bytes of `x` gives `x`.
pub proof fn lemma_be64_round_trip(x: u64)
    ensures
        be64(be64_bytes(x as int), 0) == x,
        be64_bytes(x as int).len() == 8,
{
    let hi = (x as int / 0x1_0000_0000) as u32;
    let lo = (x as int % 0x1_0000_0000) as u32;
    lemma_be32_round_trip(hi);
    lemma_be32_round_trip(lo);
    let b = be64_bytes(x as int);
    assert(b[0] == be32_bytes(hi as int)[0]);
    assert(b[4] == be32_bytes(lo as int)[0]);
}

/// Reads the 32-bit big-endian number at `pos`.
pub fn read_u32_be(data: &[u8], pos: usize) -> (r: u32)
    requires
        pos + 4 <= data@.len(),
    ensures
        r == be32(data@, pos as int),
{
    data[pos] as u32 * 0x100_0000 + data[pos + 1] as u32 * 0x1_0000 + data[pos + 2] as u32 * 0x100
        + data[pos + 3] as u32
}

/// Reads the 64-bit big-endian number at `pos`.
pub fn read_u64_be(data: &[u8], pos: usize) -> (r: u64)
    requires
        pos + 8 <= data@.len(),
    ensures
        r == be64(data@, pos as int),
{
    let len: usize = data.len();
    assert(pos + 8 <= len);
    read_u32_be(data, pos) as u64 * 0x1_0000_0000 + read_u32_be(data, pos + 4) as u64
}

/// The big-endian bytes of `x`.
pub fn u32_be_bytes(x: u32) -> (r: Vec<u8>)
    ensures
        r@ == be32_bytes(x as int),
{
    let r: Vec<u8> = vec![
        (x / 0x100_0000 % 0x100) as u8,
        (x / 0x1_0000 % 0x100) as u8,
        (x / 0x100 % 0x100) as u8,
        (x % 0x100) as u8,
    ];
    assert(r@ =~= be32_bytes(x as int));
    r
}

/// The big-endian bytes of `x`.
pub fn u64_be_bytes(x: u64) -> (r: Vec<u8>)
    ensures
        r@ == be64_bytes(x as int),
{
    let mut r = u32_be_bytes((x / 0x1_0000_0000) as u32);
    let mut low = u32_be_bytes((x % 0x1_0000_0000) as u32);
    r.append(&mut low);
    r
}

/// Reads a box's total size and header size at `pos`.
pub fn box_size_at(data: &[u8], pos: usize) -> (r: Option<(usize, usize)>)
    ensures
        r is Some <==> box_at(data@, pos as int) is Some,
        r matches Some(sizes) ==> sizes.0 == size_at(data@, pos as int) && sizes.1 == header_at(
            data@,
            pos as int,
        ),
{
    if data.len() < 8 || pos > data.len() - 8 {
        return None;
    }
    let size32 = read_u32_be(data, pos);
    if size32 == 0 {
        Some((data.len() - pos, 8))
    } else if size32 == 1 {
        if data.len() < 16 || pos > data.len() - 16 {
            return None;
        }
        let size = read_u64_be(data, pos + 8);
        if size < 16 || size > usize::MAX as u64 {
            None
        } else {
            Some((size as usize, 16))
        }
    } else if size32 < 8 {
        None
    } else {
        Some((size32 as usize, 8))
    }
}

/// Writes `bytes` over `buf` from offset `at` on.
pub fn overwrite_at(buf: &mut Vec<u8>, at: usize, bytes: &Vec<u8>)
    requires
        at + bytes@.len() <= old(buf)@.len(),
    ensures
        final(buf)@ == overwrite(old(buf)@, at as int, bytes@),
{
    let len: usize = buf.len();
    let mut k: usize = 0;
    while k < bytes.len()
        invariant
            0 <= k <= bytes@.len(),
            at + bytes@.len() <= old(buf)@.len(),
            len == old(buf)@.len(),
            buf@ == overwrite(old(buf)@, at as int, bytes@.subrange(0, k as int)),
        decreases bytes@.len() - k,
    {
        buf.set(at + k, bytes[k]);
        k = k + 1;
        assert(buf@ =~= overwrite(old(buf)@, at as int, bytes@.subrange(0, k as int)));
    }
    assert(bytes@.subrange(0, k as int) =~= bytes@);
    assert(k == 0 ==> buf@ =~= overwrite(old(buf)@, at as int, bytes@));
}

/// The size of a box is the number that it begins with; 1 stands for a 64-bit number behind the type
/// code, 0 for the rest of the data, and a box that would be smaller than its header is none.
pub proof fn law_boxes_announce_their_size(d: Seq<u8>, pos: int)
    requires
        0 <= pos,
        pos + 8 <= d.len(),
    ensures
        be32(d, pos) >= 8 ==> box_at(d, pos) == Some((be32(d, pos) as int, 8int)),
        be32(d, pos) == 0 ==> box_at(d, pos) == Some((d.len() - pos, 8int)),
        2 <= be32(d, pos) < 8 ==> box_at(d, pos) is None,
        be32(d, pos) == 1 && pos + 16 <= d.len() && 16 <= be64(d, pos + 8) <= usize::MAX ==> box_at(
            d,
            pos,
        ) == Some((be64(d, pos + 8) as int, 16int)),
        be32(d, pos) == 1 && (pos + 16 > d.len() || be64(d, pos + 8) < 16) ==> box_at(d, pos) is None,
        be32(d, pos) >= 8 ==> (fits(d, pos) <==> pos + be32(d, pos) <= d.len()),
        be32(d, pos) < 0x100 ==> d[pos] == 0 && d[pos + 1] == 0 && d[pos + 2] == 0 && be32(d, pos) == d[pos
            + 3],
        d[pos + 4] == 'm' as u8 && d[pos + 5] == 'o' as u8 && d[pos + 6] == 'o' as u8 && d[pos + 7]
            == 'f' as u8 ==> type_at(d, pos) == MOOF,
        d[pos + 4] == 'm' as u8 && d[pos + 5] == 'd' as u8 && d[pos + 6] == 'a' as u8 && d[pos + 7]
            == 't' as u8 ==> type_at(d, pos) == MDAT,
        d[pos + 4] == 'm' as u8 && d[pos + 5] == 'f' as u8 && d[pos + 6] == 'h' as u8 && d[pos + 7]
            == 'd' as u8 ==> type_at(d, pos) == MFHD,
        d[pos + 4] == 't' as u8 && d[pos + 5] == 'r' as u8 && d[pos + 6] == 'a' as u8 && d[pos + 7]
            == 'f' as u8 ==> type_at(d, pos) == TRAF,
        d[pos + 4] == 't' as u8 && d[pos + 5] == 'f' as u8 && d[pos + 6] == 'd' as u8 && d[pos + 7]
            == 't' as u8 ==> type_at(d, pos) == TFDT,
        d[pos + 4] == 's' as u8 && d[pos + 5] == 't' as u8 && d[pos + 6] == 'y' as u8 && d[pos + 7]
            == 'p' as u8 ==> type_at(d, pos) == STYP,
        d[pos + 4] == 's' as u8 && d[pos + 5] == 'i' as u8 && d[pos + 6] == 'd' as u8 && d[pos + 7]
            == 'x' as u8 ==> type_at(d, pos) == SIDX,
        d[pos + 4] == 'f' as u8 && d[pos + 5] == 't' as u8 && d[pos + 6] == 'y' as u8 && d[pos + 7]
            == 'p' as u8 ==> type_at(d, pos) == FTYP,
{
}

}
