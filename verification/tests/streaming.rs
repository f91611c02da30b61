use dim::direct_play::{
    has_compatible_timing, parse_packet_line, probe_outcome, CacheKey, PacketTiming, ProbeCache,
    ProbeRun, TimingCheck, TimingStep, SEGMENT_SECONDS,
};
use dim::streaming::{
    get_avc1_tag, get_qualities, get_vp9_tag, level_to_tag, Quality, VideoStream,
};
use dim::subtitles::{find_external_subtitles, SidecarEntry, TagLanguage};

const TOLERANCE_SECONDS: f64 = 0.1;

/// Compares the times of packets, as the probe does.
struct Probe {
    start_time: f64,
    first: Option<f64>,
    check: TimingCheck,
}

impl Probe {
    fn new(start_time: f64) -> Self {
        Probe { start_time, first: None, check: TimingCheck::new() }
    }

    fn packet(&mut self, line: &str) -> bool {
        let pts = parse_packet_line(line)
            .pts_time
            .and_then(|v| v.parse::<f64>().ok())
            .filter(|v| v.is_finite());
        let timing = match pts {
            Some(pts) if self.start_time.is_finite() => {
                let boundary = self.check.next_segment as f64 * SEGMENT_SECONDS as f64;
                let next = (self.check.next_segment + 1) as f64 * SEGMENT_SECONDS as f64;
                Some(PacketTiming {
                    near_start: (pts - self.start_time).abs() <= TOLERANCE_SECONDS,
                    reaches_boundary: self.first.map_or(false, |f| pts - f >= boundary),
                    on_boundary: (pts - self.start_time - boundary).abs() <= TOLERANCE_SECONDS,
                    before_current: pts - self.start_time <= boundary + TOLERANCE_SECONDS,
                    before_next: pts - self.start_time <= next + TOLERANCE_SECONDS,
                })
            }
            _ => None,
        };
        let started = self.check.started;
        let accepted = self.check.packet(line, timing);
        if !started && self.check.started {
            self.first = pts;
        }
        accepted
    }
}

fn check(points: &[(f64, bool)]) -> bool {
    let mut probe = Probe::new(0.0);
    points.iter().all(|(pts, key)| {
        probe.packet(&format!(
            "pts_time={pts:.6}|duration_time=0.041708|flags={}",
            if *key { "K__" } else { "___" }
        ))
    })
}

#[test]
fn accepts_aligned_keyframes_and_ignores_scene_cuts() {
    assert!(check(&[
        (0.0, true),
        (3.0, true),
        (9.95, false),
        (10.0, true),
        (15.0, true),
        (20.0, true),
        (29.99, false)
    ]));
}

#[test]
fn rejects_reacher_gops_instead_of_accumulating_68_seconds_of_drift() {
    assert!(!check(&[(0.0, true), (10.343, true), (20.687, true)]));
}

#[test]
fn validates_later_boundaries_too() {
    assert!(!check(&[
        (0.0, true),
        (10.0, true),
        (20.0, true),
        (30.344, true)
    ]));
}

#[test]
fn keyframe_before_cut_target_cannot_satisfy_the_boundary() {
    assert!(!check(&[(0.0, true), (9.999999, true), (10.2, false)]));
}

#[test]
fn rounding_tolerance_does_not_accumulate() {
    assert!(check(&[
        (0.0, true),
        (10.01, true),
        (20.02, true),
        (30.03, true)
    ]));
    let points: Vec<_> = (0..=20).map(|n| (n as f64 * 10.01, true)).collect();
    assert!(!check(&points));
}

#[test]
fn rejects_missing_boundary_even_if_no_later_keyframe_exists() {
    assert!(!check(&[(0.0, true), (10.2, false)]));
}

#[test]
fn accepts_short_final_segment() {
    assert!(check(&[(0.0, true), (10.0, true), (17.5, false)]));
}

#[test]
fn handles_container_offset_and_reordered_frames() {
    let mut timing = Probe::new(100.0);
    for line in [
        "pts_time=100|flags=K__",
        "pts_time=100.12|flags=___",
        "pts_time=100.04|flags=___",
        "pts_time=110|flags=K__",
    ] {
        assert!(timing.packet(line));
    }
    assert!(!check(&[(1.0, true)]));
}

#[test]
fn unknown_or_corrupt_timestamps_are_not_approved() {
    for line in [
        "pts_time=N/A|flags=K__",
        "pts_time=NaN|flags=K__",
        "pts_time=inf|flags=K__",
        "pts_time=0|flags=___",
        "pts_time=0|flags=KC_",
    ] {
        assert!(!Probe::new(0.0).packet(line));
    }
}

fn vp9_stream(profile: &str, pix_fmt: &str, height: i64) -> VideoStream {
    VideoStream {
        profile: Some(profile.to_string()),
        pix_fmt: Some(pix_fmt.to_string()),
        height: Some(height),
    }
}

#[test]
fn vp9_codec_strings() {
    assert_eq!(get_vp9_tag(&vp9_stream("Profile 0", "yuv420p", 360)), "vp09.00.21.08");
    assert_eq!(get_vp9_tag(&vp9_stream("Profile 0", "yuv420p", 1080)), "vp09.00.40.08");
    assert_eq!(get_vp9_tag(&vp9_stream("Profile 2", "yuv420p10le", 2160)), "vp09.02.51.10");
    // missing metadata falls back to profile 0 / 8-bit / 1080p level
    let mut s = vp9_stream("Profile 0", "yuv420p", 0);
    s.profile = None;
    s.pix_fmt = None;
    s.height = None;
    assert_eq!(get_vp9_tag(&s), "vp09.00.40.08");
}

fn tag(tag: &str, code: &str, name: &str) -> TagLanguage {
    TagLanguage { tag: tag.to_string(), code: code.to_string(), name: name.to_string() }
}

#[test]
fn external_subtitle_discovery() {
    let dict = vec![
        tag("en", "eng", "English"),
        tag("English", "eng", "English"),
        tag("ger", "ger", "German"),
    ];
    let entries: Vec<SidecarEntry> = [
        "Show.S01E01.1080p.mkv",
        "Show.S01E01.1080p.srt",
        "Show.S01E01.1080p.en.srt",
        "Show.S01E01.1080p.ger.forced.srt",
        "Show.S01E01.1080p.English.sdh.ass",
        "Show.S01E01.1080p.signs.vtt",
        "Show.S01E02.1080p.en.srt",
        "unrelated.srt",
    ]
    .iter()
    .map(|f| SidecarEntry { path: format!("/dir/{f}"), is_file: true })
    .collect();

    let subs = find_external_subtitles("/dir/Show.S01E01.1080p.mkv", &entries, &dict);
    let by_name: Vec<(String, Option<String>, String, &str)> = subs
        .iter()
        .map(|s| {
            (
                s.path.strip_prefix("/dir/").unwrap().to_string(),
                s.lang.clone(),
                s.label.clone(),
                s.codec,
            )
        })
        .collect();

    assert_eq!(subs.len(), 5, "{:?}", by_name);
    assert!(by_name.contains(&(
        "Show.S01E01.1080p.srt".into(),
        None,
        "Unknown (External)".into(),
        "subrip"
    )));
    assert!(by_name.contains(&(
        "Show.S01E01.1080p.en.srt".into(),
        Some("eng".into()),
        "English (External)".into(),
        "subrip"
    )));
    assert!(by_name.contains(&(
        "Show.S01E01.1080p.ger.forced.srt".into(),
        Some("ger".into()),
        "German (Forced) (External)".into(),
        "subrip"
    )));
    assert!(by_name.contains(&(
        "Show.S01E01.1080p.English.sdh.ass".into(),
        Some("eng".into()),
        "English (SDH) (External)".into(),
        "ass"
    )));
    assert!(by_name.contains(&(
        "Show.S01E01.1080p.signs.vtt".into(),
        None,
        "Unknown [signs] (External)".into(),
        "webvtt"
    )));
}

#[test]
fn tiers_stay_below_the_source() {
    let tiers: Vec<Quality> = get_qualities(1080, 8_000_000);
    assert!(!tiers.is_empty());
    assert!(tiers.iter().all(|q| q.height <= 1080));
}

#[test]
fn avc1_levels_have_tags() {
    assert!(level_to_tag(41).is_some());
    assert!(level_to_tag(7).is_none());
    let tag = get_avc1_tag(1920, 1080, 5_000_000, 24);
    assert!(tag.to_string().starts_with("avc1."));
}

fn key(file: &str, length: u64) -> CacheKey {
    CacheKey {
        file: file.to_string(),
        length,
        modified_nanos: 5,
        stream: 0,
        start_time: 0,
        ffprobe: "ffprobe".to_string(),
    }
}

#[test]
fn verdicts_are_kept_for_the_file_as_it_was() {
    let mut cache = ProbeCache::new();
    assert_eq!(cache.enter(key("a.mkv", 1)), None);
    // A probe that failed leaves no verdict.
    assert_eq!(cache.enter(key("a.mkv", 1)), None);
    cache.settle(&key("a.mkv", 1), None);
    assert_eq!(cache.enter(key("a.mkv", 1)), None);
    cache.settle(&key("a.mkv", 1), Some(true));
    assert_eq!(cache.enter(key("a.mkv", 1)), Some(true));
    // The file was replaced.
    assert_eq!(cache.enter(key("a.mkv", 2)), None);
    for n in 0..62 {
        cache.enter(key("b.mkv", n));
    }
    assert_eq!(cache.enter(key("a.mkv", 1)), Some(true));
    // A full cache is emptied.
    assert_eq!(cache.enter(key("c.mkv", 1)), None);
    assert_eq!(cache.enter(key("a.mkv", 1)), None);
}

fn printed(pts: &[&str], flags: &str) -> Vec<(String, Option<PacketTiming>)> {
    let timing = PacketTiming {
        near_start: true,
        reaches_boundary: false,
        on_boundary: false,
        before_current: true,
        before_next: true,
    };
    pts.iter().map(|p| (format!("pts_time={p}|flags={flags}"), Some(timing))).collect()
}

#[test]
fn streams_are_copied_only_after_a_full_probe() {
    let good = printed(&["0", "3"], "K__");
    assert_eq!(probe_outcome(&good, Some(true)), Some(true));
    assert_eq!(probe_outcome(&good, Some(false)), None);
    assert_eq!(probe_outcome(&good, None), None);
    // No packet was seen.
    assert_eq!(probe_outcome(&vec![], Some(true)), Some(false));
    assert_eq!(probe_outcome(&vec![(String::new(), None)], Some(true)), Some(false));
    assert_eq!(probe_outcome(&vec![], None), None);
    // A packet is refused, however the probe ends.
    let bad = printed(&["0", "3"], "KC_");
    assert_eq!(probe_outcome(&bad, None), Some(false));
    assert_eq!(probe_outcome(&bad, Some(true)), Some(false));
}

#[test]
fn answers_are_remembered_and_failures_are_not() {
    let mut cache = ProbeCache::new();
    let failed = ProbeRun { packets: printed(&["0"], "K__"), exited: None };
    let done = ProbeRun { packets: printed(&["0"], "K__"), exited: Some(true) };
    assert_eq!(has_compatible_timing(&mut cache, key("a.mkv", 1), None), TimingStep::Probe);
    assert_eq!(
        has_compatible_timing(&mut cache, key("a.mkv", 1), Some(&failed)),
        TimingStep::Failed
    );
    assert_eq!(has_compatible_timing(&mut cache, key("a.mkv", 1), None), TimingStep::Probe);
    assert_eq!(
        has_compatible_timing(&mut cache, key("a.mkv", 1), Some(&done)),
        TimingStep::Answer(true)
    );
    assert_eq!(has_compatible_timing(&mut cache, key("a.mkv", 1), None), TimingStep::Answer(true));
    assert_eq!(has_compatible_timing(&mut cache, key("a.mkv", 2), None), TimingStep::Probe);
    let mut changed = key("a.mkv", 1);
    changed.modified_nanos = 6;
    assert_eq!(has_compatible_timing(&mut cache, changed, None), TimingStep::Probe);
}
