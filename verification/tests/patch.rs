use dim::patch::boxes::{box_size_at, read_u32_be, read_u64_be, u32_be_bytes, PatchError};
use dim::patch::init_segment::{
    make_styp_from_init, patch_group, patch_init_segment, scan_segment_patch_info,
};
use dim::patch::segment::{
    find_mfhd_offsets, is_empty_segment, patch_segment, read_box_size, BoxSpan, Segment,
    SegmentError,
};

fn boxed(kind: &[u8; 4], payload: &[u8]) -> Vec<u8> {
    let mut out = u32_be_bytes(payload.len() as u32 + 8);
    out.extend_from_slice(kind);
    out.extend_from_slice(payload);
    out
}

fn sidx(ept: u32) -> Vec<u8> {
    let mut payload = vec![0; 12];
    payload.extend(u32_be_bytes(ept));
    payload.extend([0; 12]);
    boxed(b"sidx", &payload)
}

fn moof(seq: u32, time: u32) -> Vec<u8> {
    let mut mfhd = vec![0; 4];
    mfhd.extend(u32_be_bytes(seq));
    let mut tfdt = vec![0; 4];
    tfdt.extend(u32_be_bytes(time));
    let mut tracks = boxed(b"tfhd", &[0, 0, 0, 0, 0, 0, 0, 1]);
    tracks.extend(boxed(b"tfdt", &tfdt));
    let traf = boxed(b"traf", &tracks);
    let mut payload = boxed(b"mfhd", &mfhd);
    payload.extend(traf);
    boxed(b"moof", &payload)
}

fn segment(seq: u32, ept: u32) -> Vec<u8> {
    let mut out = sidx(ept);
    out.extend(moof(seq, 0));
    out.extend(boxed(b"mdat", &[1, 2, 3]));
    out
}

fn ftyp() -> Vec<u8> {
    boxed(b"ftyp", b"iso5\0\0\x02\0iso5")
}

#[test]
fn box_sizes_are_read() {
    let b = boxed(b"free", &[0; 4]);
    assert_eq!(box_size_at(&b, 0).map(|s| s.0), Some(12));
    assert_eq!(box_size_at(&b, 8), None);
    assert_eq!(read_box_size(&b, 0), Some((12, 0x66726565)));
    assert_eq!(read_box_size(&b, 5), None);
}

#[test]
fn embedded_segments_are_moved_out_and_numbered() {
    let mut data = ftyp();
    data.extend(boxed(b"moov", &[7; 5]));
    let init = data.len();
    data.extend(segment(9, 1000));
    data.extend(segment(9, 2000));
    let p = patch_init_segment(&data, 4).unwrap();
    assert_eq!(p.init_end, init);
    assert_eq!(p.next_seq, 6);
    let bytes = p.segments.unwrap();
    let one = ftyp().len() + segment(0, 0).len();
    assert_eq!(bytes.len(), 2 * one);
    for (k, (seq, time)) in [(4, 1000), (5, 2000)].iter().enumerate() {
        let part = &bytes[k * one..(k + 1) * one];
        assert_eq!(&part[4..8], b"styp");
        let info = scan_segment_patch_info(part).unwrap();
        assert_eq!(read_u32_be(part, info.mfhd_seq_offset.unwrap()), *seq);
        assert_eq!(read_u32_be(part, info.tfdt_bmd_offset.unwrap()), *time);
    }
}

#[test]
fn init_segments_without_media_stay_whole() {
    let data = ftyp();
    let p = patch_init_segment(&data, 1).unwrap();
    assert_eq!((p.init_end, p.next_seq), (data.len(), 1));
    assert!(p.segments.is_none());
}

#[test]
fn styp_is_made_of_ftyp_or_minimal() {
    let styp = make_styp_from_init(&ftyp());
    assert_eq!(&styp[4..8], b"styp");
    assert_eq!(&styp[8..], &ftyp()[8..]);
    let minimal = make_styp_from_init(&[]);
    assert_eq!(minimal.len(), 20);
    assert_eq!(&minimal[4..12], b"stypisom");
}

#[test]
fn truncated_boxes_are_refused() {
    let data = boxed(b"sidx", &[]);
    assert_eq!(scan_segment_patch_info(&data).err(), Some(PatchError::TruncatedBox));
    assert_eq!(patch_group(&data, 1), Err(PatchError::TruncatedBox));
}

#[test]
fn sequence_numbers_run_out() {
    let data = segment(1, 5);
    assert_eq!(
        patch_init_segment(&data, u32::MAX).err(),
        Some(PatchError::SequenceOverflow)
    );
    assert!(matches!(
        patch_segment(&data, u32::MAX),
        Err(SegmentError::Patch(PatchError::SequenceOverflow))
    ));
}

#[test]
fn wide_times_are_patched_too() {
    let mut payload = vec![1, 0, 0, 0];
    payload.extend([0; 8]);
    payload.extend([0, 0, 0, 1, 0, 0, 0, 2]);
    payload.extend([0; 12]);
    let mut data = boxed(b"sidx", &payload);
    let mut tfdt = vec![1, 0, 0, 0];
    tfdt.extend([0; 8]);
    data.extend(boxed(b"moof", &boxed(b"traf", &boxed(b"tfdt", &tfdt))));
    let out = patch_group(&data, 1).unwrap();
    let at = scan_segment_patch_info(&data).unwrap().tfdt_bmd_offset.unwrap();
    assert_eq!(read_u64_be(&out, at), 0x1_0000_0002);
    assert_eq!(out.len(), data.len());
    assert_eq!(out[..at], data[..at]);
}

#[test]
fn fragments_are_renumbered_in_place() {
    let mut data = boxed(b"styp", b"msdh\0\0\0\0");
    data.extend(segment(1, 10));
    data.extend(segment(1, 20));
    let (out, next) = patch_segment(&data, 40).unwrap();
    assert_eq!(next, 42);
    assert_eq!(out.len(), data.len());
    let offsets = find_mfhd_offsets(&data).unwrap();
    assert_eq!(offsets.len(), 2);
    for (k, at) in offsets.iter().enumerate() {
        assert_eq!(read_u32_be(&out, *at as usize), 40 + k as u32);
    }
    let differing = out.iter().zip(&data).filter(|(a, b)| a != b).count();
    assert!(differing <= 8);
}

#[test]
fn segments_without_media_are_partial() {
    let data = boxed(b"styp", b"msdh\0\0\0\0");
    assert_eq!(is_empty_segment(&data), Ok(true));
    match patch_segment(&data, 1) {
        Err(SegmentError::PartialSegment(s)) => {
            assert!(s.styp.is_some() && s.moof.is_none() && s.mdat.is_none())
        }
        other => panic!("{other:?}"),
    }
    assert_eq!(is_empty_segment(&segment(1, 1)), Ok(false));
}

#[test]
fn boxes_of_a_segment_are_found() {
    let mut data = boxed(b"styp", b"msdh\0\0\0\0");
    let styp = data.len() as u64;
    data.extend(segment(1, 10));
    let (s, end) = Segment::from_reader(&data, 0, data.len() as u64).unwrap();
    assert_eq!(s.styp.unwrap().end, styp);
    assert_eq!(s.sidx.unwrap().start, styp);
    assert_eq!(s.mdat.unwrap().end, data.len() as u64);
    assert_eq!(end, data.len() as u64);
}

#[test]
fn sizes_beyond_the_largest_offset_are_refused() {
    let mut data = u32_be_bytes(1);
    data.extend(b"free");
    data.extend([0x7f, 0xff, 0xff, 0xff, 0xff, 0xff, 0xff, 0xff]);
    let mut all = boxed(b"free", &[]);
    all.extend(data);
    assert_eq!(is_empty_segment(&all), Err(PatchError::OffsetOutOfRange));
    assert!(matches!(
        patch_segment(&all, 1),
        Err(SegmentError::Patch(PatchError::OffsetOutOfRange))
    ));
}

#[test]
fn empty_boxes_are_invalid() {
    let mut data = u32_be_bytes(0);
    data.extend(b"free");
    assert_eq!(
        Segment::from_reader(&data, 0, data.len() as u64).err(),
        Some(PatchError::InvalidBox)
    );
}

fn read(data: &[u8]) -> Result<(Segment, u64), PatchError> {
    Segment::from_reader(data, 0, data.len() as u64)
}

#[test]
fn fragments_need_a_number() {
    let refused = Some(PatchError::InvalidBox);
    assert_eq!(read(&boxed(b"moof", &[])).err(), refused);
    assert_eq!(read(&boxed(b"moof", &boxed(b"free", &[]))).err(), refused);
    let numbered = boxed(b"moof", &boxed(b"mfhd", &[0; 8]));
    let (s, end) = read(&numbered).unwrap();
    assert_eq!(s.moof, Some(BoxSpan { start: 0, end: 24 }));
    assert_eq!(end, 24);
    // Its number is cut off.
    assert_eq!(read(&numbered[..23]).err(), refused);
}

#[test]
fn tracks_need_a_header() {
    let mut payload = boxed(b"mfhd", &[0; 8]);
    payload.extend(boxed(b"traf", &[]));
    assert_eq!(read(&boxed(b"moof", &payload)).err(), Some(PatchError::InvalidBox));
    assert!(read(&moof(3, 9)).is_ok());
}

#[test]
fn empty_boxes_in_fragments_are_invalid() {
    let refused = Some(PatchError::InvalidBox);
    let mut payload = boxed(b"mfhd", &[0; 8]);
    payload.extend(b"\0\0\0\0free");
    assert_eq!(read(&boxed(b"moof", &payload)).err(), refused);
    let mut tracks = boxed(b"tfhd", &[0; 8]);
    tracks.extend(b"\0\0\0\0free");
    let mut payload = boxed(b"mfhd", &[0; 8]);
    payload.extend(boxed(b"traf", &tracks));
    assert_eq!(read(&boxed(b"moof", &payload)).err(), refused);
    // A box inside claims to be larger than the whole.
    let mut payload = boxed(b"mfhd", &[0; 8]);
    payload.extend(b"\0\0\x01\0free");
    assert_eq!(read(&boxed(b"moof", &payload)).err(), refused);
}

#[test]
fn brands_are_read_in_fours() {
    for size in [0, 4, 7, 9, 10, 11] {
        let styp = boxed(b"styp", &vec![0; size]);
        assert_eq!(read(&styp).err(), Some(PatchError::InvalidBox));
        assert!(matches!(
            patch_segment(&styp, 1),
            Err(SegmentError::Patch(PatchError::InvalidBox))
        ));
    }
    for size in [8, 12, 16] {
        let styp = boxed(b"styp", &vec![0; size]);
        assert_eq!(read(&styp).unwrap().0.styp.unwrap().end, size as u64 + 8);
    }
    // A brand is missing.
    let styp = boxed(b"styp", &[0; 12]);
    assert_eq!(read(&styp[..16]).err(), Some(PatchError::InvalidBox));
}

#[test]
fn boxes_are_taken_in_where_they_can_be_read() {
    let none = Segment { styp: None, sidx: None, moof: None, mdat: None };
    let span = BoxSpan { start: 4, end: 20 };
    let moof = 0x6d6f6f66;
    assert_eq!(none.take_box(moof, span, false), Err(PatchError::InvalidBox));
    assert_eq!(none.take_box(moof, span, true).unwrap().moof, Some(span));
    assert_eq!(none.take_box(0x66726565, span, true), Ok(none));
}
