use dim::profiles::amf::{AmfHevcTranscodeProfile, AmfTranscodeProfile};
use dim::profiles::context::{
    Machine, NightfallError, ProfileContext, ProfileType, StreamType, TranscodingProfile,
};
use dim::profiles::cuda::{
    CudaAv1TranscodeProfile, CudaHevcTranscodeProfile, CudaTranscodeProfile,
};
use dim::profiles::devices::detect_devices;
use dim::profiles::h265::{H265TranscodeProfile, HevcTransmuxProfile};
use dim::profiles::qsv::{QsvHevcTranscodeProfile, QsvTranscodeProfile};
use dim::profiles::registry::{
    list_profiles, profiles_init, BuildFlags, Profile, VaapiDevices,
};
use dim::profiles::select::{
    enabled_profiles, ffmpeg_bin, get_profile_for, get_profile_for_with_type,
};
use dim::profiles::v4l2::{V4l2HevcTranscodeProfile, V4l2TranscodeProfile};
use dim::profiles::vaapi::{
    discover_vaapi_device, DriNode, VaProfile, VaapiAv1TranscodeProfile, VaapiDevice,
    VaapiHevcTranscodeProfile, VaapiTranscodeProfile,
};
use dim::profiles::vp9::Vp9TransmuxProfile;
use dim::session::{is_stale_output, log_excerpt, parse_progress, Fallback, Session};

fn machine(names: &[&str]) -> Machine {
    Machine {
        macos: false,
        linux: true,
        dev_names: names.iter().map(|n| n.to_string()).collect(),
        dri_names: vec![],
    }
}

fn ctx(input: &str, output: &str) -> ProfileContext {
    let mut ctx = ProfileContext::default();
    ctx.file = "/media/a.mkv".to_string();
    ctx.input_ctx.codec = input.to_string();
    ctx.input_ctx.pix_fmt = "yuv420p".to_string();
    ctx.output_ctx.codec = output.to_string();
    ctx.output_ctx.outdir = "/tmp/s".to_string();
    ctx
}

#[test]
fn software_encoding_names_its_encoder_and_its_input() {
    let args = H265TranscodeProfile.build(&ctx("h264", "h265"), &vec![]).unwrap();
    assert!(args.contains(&"libx265".to_string()));
    let at = args.iter().position(|a| a == "-i").unwrap();
    assert_eq!(args[at + 1], "/media/a.mkv");
}

#[test]
fn transmuxing_copies() {
    let args = HevcTransmuxProfile.build(&ctx("hevc", "h265"), &vec![]).unwrap();
    assert!(args.contains(&"copy".to_string()));
    assert!(HevcTransmuxProfile.supports(&ctx("hevc", "h265")).is_ok());
    assert!(matches!(
        HevcTransmuxProfile.supports(&ctx("h264", "h265")),
        Err(NightfallError::ProfileNotSupported(_))
    ));
    assert_eq!(Vp9TransmuxProfile.profile_type(), ProfileType::Transmux);
    assert_eq!(Vp9TransmuxProfile.stream_type(), StreamType::Video);
}

fn text(args: Vec<String>) -> String {
    args.join(" ")
}

#[test]
fn software_encoding_has_these_arguments() {
    let mut c = ctx("av1", "h265");
    c.output_ctx.start_num = 4;
    c.output_ctx.height = Some(720);
    c.output_ctx.bitrate = Some(5_000_000);
    assert_eq!(
        text(H265TranscodeProfile.build(&c, &vec!["-discont".to_string()]).unwrap()),
        "-y -c:v libdav1d -ss 20 -i /media/a.mkv -copyts -map 0:0 -c:0 libx265 -preset fast -bf 0 \
         -tag:v hvc1 -x265-params log-level=error -vf scale=-2:720,format=yuv420p -b:v 5000000 \
         -start_at_zero -fps_mode passthrough -avoid_negative_ts disabled \
         -max_muxing_queue_size 2048 -f hls -start_number 4 -discont -hls_flags temp_file \
         -max_delay 5000000 -hls_fmp4_init_filename 4_init.mp4 -hls_time 5 \
         -force_key_frames expr:gte(t,n_forced*5) -hls_segment_type 1 -loglevel info \
         -progress pipe:1 -hls_segment_filename /tmp/s/%d.m4s /tmp/s/playlist.m3u8"
    );
}

#[test]
fn copying_vp9_has_these_arguments() {
    assert_eq!(
        text(Vp9TransmuxProfile.build(&ctx("vp9", "vp9"), &vec!["-discont".to_string()]).unwrap()),
        "-y -ss 0 -i /media/a.mkv -copyts -map 0:0 -c:0 copy -start_at_zero -fps_mode passthrough \
         -avoid_negative_ts disabled -max_muxing_queue_size 2048 -f hls -start_number 0 \
         -hls_flags temp_file -max_delay 5000000 -hls_fmp4_init_filename 0_init.mp4 -hls_time 5 \
         -discont -force_key_frames expr:gte(t,n_forced*5) -hls_segment_type 1 -loglevel info \
         -progress pipe:1 -hls_segment_filename /tmp/s/%d.m4s /tmp/s/playlist.m3u8"
    );
}

#[test]
fn encoding_on_nvidia_has_these_arguments() {
    let mut c = ctx("h264", "h264");
    c.output_ctx.height = Some(480);
    c.output_ctx.width = Some(640);
    assert_eq!(
        text(CudaTranscodeProfile.build(&c, &vec![]).unwrap()),
        "-hwaccel cuda -hwaccel_output_format cuda -y -ss 0 -i /media/a.mkv -copyts -map 0:0 \
         -c:0 h264_nvenc -bf 0 -vf scale_cuda=640:480 -start_at_zero -fps_mode passthrough \
         -avoid_negative_ts disabled -max_muxing_queue_size 2048 -keyint_min 120 -g 120 \
         -frag_duration 5000000 -f hls -start_number 0 -hls_flags independent_segments+temp_file \
         -max_delay 5000000 -hls_fmp4_init_filename 0_init.mp4 -hls_time 5 \
         -force_key_frames expr:gte(t,n_forced*5) -hls_segment_type 1 -loglevel info \
         -progress pipe:1 -hls_segment_filename /tmp/s/%d.m4s /tmp/s/playlist.m3u8"
    );
    c.force_software_decode = true;
    assert!(text(CudaTranscodeProfile.build(&c, &vec![]).unwrap())
        .contains("-vf format=nv12,scale=640:480,hwupload_cuda"));
}

fn vaapi(entrypoints: &[&str]) -> VaapiTranscodeProfile {
    VaapiTranscodeProfile {
        device: VaapiDevice {
            profiles: vec![VaProfile {
                name: "VAProfileH264Main".to_string(),
                entrypoints: entrypoints.iter().map(|e| e.to_string()).collect(),
            }],
            vendor: "Vendor".to_string(),
            dri: "/dev/dri/renderD128".to_string(),
        },
    }
}

#[test]
fn encoding_with_vaapi_has_these_arguments() {
    let mut c = ctx("hevc", "h264");
    c.input_ctx.profile = "Main 10".to_string();
    c.output_ctx.height = Some(720);
    c.output_ctx.bitrate = Some(1000);
    let full = vaapi(&["VAEntrypointVLD", "VAEntrypointEncSlice"]);
    assert!(full.hw_scaling_supported());
    assert!(full.is_enabled(&machine(&[])).is_ok());
    assert_eq!(
        text(full.build(&c, &vec![]).unwrap()),
        "-hwaccel vaapi -vaapi_device /dev/dri/renderD128 -hwaccel_output_format vaapi -y -ss 0 \
         -i /media/a.mkv -copyts -map 0:0 -c:0 h264_vaapi -bf 0 \
         -vf scale_vaapi=-2:720,hwdownload,format=p010le,format=nv12,hwupload -b:v 1000 \
         -fps_mode passthrough -avoid_negative_ts disabled -max_muxing_queue_size 2048 \
         -keyint_min 120 -g 120 -frag_duration 5000000 -f hls -start_number 0 \
         -hls_flags independent_segments+temp_file -max_delay 5000000 \
         -hls_fmp4_init_filename 0_init.mp4 -hls_time 5 \
         -force_key_frames expr:gte(t,n_forced*5) -sc_threshold:v:0 0 -hls_segment_type 1 \
         -loglevel info -progress pipe:1 -hls_segment_filename /tmp/s/%d.m4s /tmp/s/playlist.m3u8"
    );
    let decoder = vaapi(&["VAEntrypointVLD"]);
    match decoder.is_enabled(&machine(&[])) {
        Err(NightfallError::ProfileNotSupported(why)) => assert_eq!(
            why,
            "Device Vendor doesnt seem to support hardware encoding+decoding of h264 \
             (Supported profiles: VAProfileH264Main)"
        ),
        other => panic!("{other:?}"),
    }
    let args = text(decoder.build(&c, &vec![]).unwrap());
    assert!(args.contains("-vf hwdownload,format=p010le,format=nv12,scale=-2:720,hwupload"));
    assert!(args.contains("-maxrate 1000"));
}

#[test]
fn encoding_with_v4l2_is_capped() {
    let mut c = ctx("h264", "h264");
    c.output_ctx.height = Some(1080);
    let p = V4l2TranscodeProfile { decoder: true };
    let args = text(p.build(&c, &vec![]).unwrap());
    assert!(args.starts_with("-hwaccel v4l2m2m -y -ss 0"));
    assert!(args.contains("-vf scale=trunc(oh*a/16)*16:720,format=nv12"));
    let p = V4l2TranscodeProfile { decoder: false };
    assert!(text(p.build(&ctx("av1", "h264"), &vec![]).unwrap()).starts_with("-c:v libdav1d -y"));
}

#[test]
fn vaapi_devices_are_discovered() {
    let node = |name: &str, device| DriNode { name: name.to_string(), device };
    assert!(discover_vaapi_device(None).is_none());
    let found = discover_vaapi_device(Some(vec![
        node("card0", Some(vaapi(&[]).device)),
        node("renderD128", None),
        node("renderD129", Some(vaapi(&[]).device)),
    ]))
    .unwrap();
    assert_eq!(found.vendor, "Vendor");
}

#[test]
fn hardware_profiles_need_their_hardware() {
    let bare = machine(&[]);
    assert!(CudaTranscodeProfile.is_enabled(&bare).is_err());
    assert!(CudaTranscodeProfile.is_enabled(&machine(&["nvidia0"])).is_ok());
    assert!(QsvTranscodeProfile.is_enabled(&bare).is_err());
    let args = CudaHevcTranscodeProfile.build(&ctx("h264", "h265"), &vec![]).unwrap();
    assert!(args.contains(&"hevc_nvenc".to_string()));
    let args = AmfTranscodeProfile.build(&ctx("hevc", "h264"), &vec![]).unwrap();
    assert!(args.contains(&"h264_amf".to_string()));
}

#[test]
fn enabled_profiles_are_kept_and_chosen() {
    let none = enabled_profiles(vec![Some(CudaTranscodeProfile), None], &machine(&[]));
    assert_eq!(none.len(), 0);
    let some = enabled_profiles(vec![Some(CudaTranscodeProfile), None], &machine(&["nvidia0"]));
    assert_eq!(some.len(), 1);
    let profiles = vec![H265TranscodeProfile, H265TranscodeProfile];
    let c = ctx("h264", "h265");
    assert_eq!(get_profile_for(&profiles, StreamType::Video, &c), vec![0, 1]);
    assert_eq!(get_profile_for(&profiles, StreamType::Audio, &c), Vec::<usize>::new());
    assert_eq!(
        get_profile_for_with_type(&profiles, StreamType::Video, ProfileType::Transmux, &c),
        Vec::<usize>::new()
    );
    assert_eq!(ffmpeg_bin(&None), "ffmpeg");
    assert_eq!(ffmpeg_bin(&Some("/opt/ffmpeg".to_string())), "/opt/ffmpeg");
}

fn null_device() -> Option<VaapiDevice> {
    discover_vaapi_device(Some(vec![]))
}

#[test]
fn profiles_are_listed_in_their_order() {
    let all = BuildFlags {
        unix: true,
        windows: false,
        cuda: true,
        vaapi: true,
        qsv: true,
        v4l2: true,
    };
    let devices = || VaapiDevices { h264: null_device(), hevc: null_device(), av1: null_device() };
    let names = |v: Vec<Option<Profile>>| -> Vec<&'static str> {
        v.iter().flatten().map(|p| p.name()).collect()
    };
    assert_eq!(
        names(list_profiles(all, devices(), &machine(&[]))),
        vec![
            "HevcTransmuxProfile",
            "H265TranscodeProfile",
            "Vp9TransmuxProfile",
            "CudaTranscodeProfile",
            "CudaHevcTranscodeProfile",
            "CudaAv1TranscodeProfile",
            "VaapiTranscodeProfile",
            "VaapiHevcTranscodeProfile",
            "VaapiAv1TranscodeProfile",
            "QsvTranscodeProfile",
            "QsvHevcTranscodeProfile",
            "QsvAv1TranscodeProfile",
            "V4l2TranscodeProfile",
            "V4l2HevcTranscodeProfile",
        ]
    );
    let none = || VaapiDevices { h264: None, hevc: None, av1: None };
    let windows = BuildFlags { unix: false, windows: true, qsv: false, ..all };
    assert_eq!(
        names(list_profiles(windows, none(), &machine(&[]))),
        vec![
            "HevcTransmuxProfile",
            "H265TranscodeProfile",
            "Vp9TransmuxProfile",
            "AmfTranscodeProfile",
            "AmfHevcTranscodeProfile",
            "AmfAv1TranscodeProfile",
        ]
    );
    let used = profiles_init(all, none(), &machine(&["nvidia0", "video1"]));
    let used: Vec<&str> = used.iter().map(|p| p.tag()).collect();
    assert_eq!(used.len(), 8);
    assert_eq!(used[3], "h264_cuda");
    assert_eq!(used[6..], ["h264_v4l2", "hevc_v4l2"]);
}

#[test]
fn nvidia_devices_are_detected() {
    let names = vec!["nvidia0".to_string(), "null".to_string()];
    let devices = detect_devices(&None, &Some(names));
    assert_eq!(devices.len(), 1);
    assert_eq!(devices[0].path, "/dev/nvidia0");
    assert!(detect_devices(&None, &None).is_empty());
}

fn session() -> Session {
    let mut c = ctx("h264", "h265");
    c.output_ctx.start_num = 3;
    Session::new("id".to_string(), vec![10, 20, 30], c, 0)
}

#[test]
fn sessions_fall_back_until_no_profile_is_left() {
    let mut s = session();
    assert_eq!(s.profile, 30);
    s.started(Some(77));
    assert_eq!(s.check_death_and_fallback(None), Fallback::Nothing);
    assert_eq!(s.check_death_and_fallback(Some(true)), Fallback::Nothing);
    assert_eq!(s.check_death_and_fallback(Some(false)), Fallback::Next(20));
    s.started(Some(78));
    assert_eq!(s.check_death_and_fallback(Some(false)), Fallback::Next(10));
    s.started(Some(79));
    assert_eq!(s.check_death_and_fallback(Some(false)), Fallback::Exhausted);
}

#[test]
fn sessions_are_paused_and_continued_once() {
    let mut s = session();
    assert_eq!(s.pause(), None);
    s.started(Some(5));
    assert_eq!(s.pause(), Some(5));
    assert_eq!(s.pause(), None);
    assert_eq!(s.cont(), Some(5));
    assert_eq!(s.cont(), None);
}

#[test]
fn chunks_are_counted_by_time() {
    let mut s = session();
    s.chunk_size = 5;
    assert_eq!(s.current_chunk(StreamType::Video, Some("26000000")), 5);
    assert_eq!(s.current_chunk(StreamType::Subtitle, Some("26000000")), 0);
    s.reset_timeout(9, 1);
    assert_eq!(s.current_chunk(StreamType::Video, Some("26000000")), 9);
    assert!(!s.is_timeout(StreamType::Video, Some("26000000")));
    assert!(s.is_timeout(StreamType::Video, Some("900000000")));
}

#[test]
fn sessions_know_their_files() {
    let s = session();
    assert_eq!(s.chunk_to_path(4), "/tmp/s/4.m4s");
    assert_eq!(s.init_seg(), "/tmp/s/3_init.mp4");
    assert_eq!(s.log_path("hevc"), "/tmp/s/ffmpeg_hevc.log");
    assert_eq!(s.subtitle(StreamType::Subtitle, "x.vtt"), Some("/tmp/s/x.vtt".to_string()));
    assert_eq!(s.subtitle(StreamType::Video, "x.vtt"), None);
}

#[test]
fn sessions_end_when_nothing_is_requested() {
    let mut s = session();
    let end = s.hard_timeout;
    assert!(!s.has_started());
    assert!(s.is_dead(false));
    assert!(!s.is_hard_timeout(end));
    assert!(s.is_hard_timeout(end + 1));
    s.reset_timeout(1, 1000);
    assert_eq!(s.hard_timeout, end + 1000);
    s.set_timeout(7);
    assert!(s.is_hard_timeout(8));
}

#[test]
fn partial_output_is_recognised() {
    assert!(is_stale_output("12.m4s"));
    assert!(is_stale_output("3_init.mp4"));
    assert!(!is_stale_output("ffmpeg_hevc.log"));
}

#[test]
fn progress_lines_are_pairs() {
    assert_eq!(
        parse_progress("out_time_us=12"),
        Some(("out_time_us".to_string(), "12".to_string()))
    );
    assert_eq!(parse_progress("garbage"), None);
    assert_eq!(log_excerpt("short"), "short");
}

const TAIL: &str = "-hls_fmp4_init_filename 0_init.mp4 -hls_time 5 \
     -force_key_frames expr:gte(t,n_forced*5)";

const END: &str = "-hls_segment_type 1 -loglevel info -progress pipe:1 \
     -hls_segment_filename /tmp/s/%d.m4s /tmp/s/playlist.m3u8";

const SOURCE: &str = "-y -ss 0 -i /media/a.mkv -copyts -map 0:0";

const PASS: &str = "-fps_mode passthrough -avoid_negative_ts disabled -max_muxing_queue_size 2048";

const FRAGMENTS: &str = "-keyint_min 120 -g 120 -frag_duration 5000000 -discont -f hls \
     -start_number 0 -hls_flags independent_segments+temp_file -max_delay 5000000";

fn discont() -> Vec<String> {
    vec!["-discont".to_string()]
}

#[test]
fn encoding_hevc_and_av1_with_vaapi_has_these_arguments() {
    let mut c = ctx("av1", "h265");
    c.force_software_decode = true;
    c.output_ctx.height = Some(720);
    c.output_ctx.bitrate = Some(9);
    let device = || VaapiDevice {
        profiles: vec![VaProfile {
            name: "VAProfileHEVCMain".to_string(),
            entrypoints: vec!["VAEntrypointEncSlice".to_string()],
        }],
        vendor: "V".to_string(),
        dri: "/dev/dri/renderD128".to_string(),
    };
    let hevc = VaapiHevcTranscodeProfile { device: device() };
    assert_eq!(
        text(hevc.build(&c, &discont()).unwrap()),
        format!(
            "-vaapi_device /dev/dri/renderD128 -c:v libdav1d {SOURCE} -c:0 hevc_vaapi -tag:v hvc1 \
             -bf 0 -vf format=nv12,scale=-2:720,hwupload -b:v 9 {PASS} {FRAGMENTS} {TAIL} \
             -sc_threshold:v:0 0 {END}"
        )
    );
    assert!(matches!(
        hevc.is_enabled(&machine(&[])),
        Err(NightfallError::ProfileNotSupported(why))
            if why == "Device V doesnt support entrypoint VAEntrypointVLD for VAProfileHEVCMain."
    ));
    c.force_software_decode = false;
    c.input_ctx.profile = "Main 10".to_string();
    let av1 = VaapiAv1TranscodeProfile { device: device() };
    assert_eq!(
        text(av1.build(&c, &discont()).unwrap()),
        format!(
            "-hwaccel vaapi -vaapi_device /dev/dri/renderD128 -hwaccel_output_format vaapi \
             {SOURCE} -c:0 av1_vaapi -bf 0 \
             -vf hwdownload,format=p010le,format=nv12,scale=-2:720,hwupload -b:v 9 {PASS} \
             {FRAGMENTS} {TAIL} -sc_threshold:v:0 0 {END}"
        )
    );
    c.output_ctx.codec = "av1".to_string();
    match av1.supports(&c) {
        Err(NightfallError::ProfileNotSupported(why)) => assert_eq!(
            why,
            "HW Acceleration device doesnt support decoding av1 content (needs \
             VAProfileAV1Profile0)."
        ),
        other => panic!("{other:?}"),
    }
}

#[test]
fn encoding_with_qsv_has_these_arguments() {
    let mut c = ctx("h264", "h265");
    c.output_ctx.height = Some(720);
    assert_eq!(
        text(QsvHevcTranscodeProfile.build(&c, &discont()).unwrap()),
        format!(
            "-init_hw_device qsv=hw -filter_hw_device hw -hwaccel qsv -hwaccel_output_format qsv \
             {SOURCE} -c:0 hevc_qsv -tag:v hvc1 -bf 0 -vf scale_qsv=w=-1:h=720 -start_at_zero \
             {PASS} {FRAGMENTS} {TAIL} {END}"
        )
    );
    c.force_software_decode = true;
    c.output_ctx.width = Some(1280);
    assert!(text(QsvTranscodeProfile.build(&c, &discont()).unwrap()).contains(
        "-c:0 h264_qsv -bf 0 -vf format=nv12,hwupload=extra_hw_frames=64,scale_qsv=w=1280:h=720 "
    ));
}

#[test]
fn other_encoders_have_these_arguments() {
    let mut c = ctx("h264", "av1");
    c.output_ctx.bitrate = Some(7);
    assert_eq!(
        text(CudaAv1TranscodeProfile.build(&c, &discont()).unwrap()),
        format!(
            "-hwaccel cuda -hwaccel_output_format cuda {SOURCE} -c:0 av1_nvenc -bf 0 -b:v 7 \
             -start_at_zero {PASS} {FRAGMENTS} {TAIL} {END}"
        )
    );
    c.force_software_decode = true;
    assert_eq!(
        text(CudaHevcTranscodeProfile.build(&c, &discont()).unwrap()),
        format!(
            "{SOURCE} -c:0 hevc_nvenc -tag:v hvc1 -bf 0 -vf format=nv12,hwupload_cuda -b:v 7 \
             -start_at_zero {PASS} {FRAGMENTS} {TAIL} {END}"
        )
    );
    c.output_ctx.height = Some(480);
    assert_eq!(
        text(AmfHevcTranscodeProfile.build(&c, &discont()).unwrap()),
        format!(
            "{SOURCE} -c:0 hevc_amf -tag:v hvc1 -bf 0 -vf scale=-2:480,format=nv12 -b:v 7 \
             -start_at_zero {PASS} -f hls -start_number 0 -hls_flags temp_file \
             -max_delay 5000000 -discont {TAIL} {END}"
        )
    );
    assert_eq!(
        text(V4l2HevcTranscodeProfile { decoder: true }.build(&c, &discont()).unwrap()),
        format!(
            "{SOURCE} -c:0 hevc_v4l2m2m -tag:v hvc1 \
             -vf scale=trunc(oh*a/16)*16:480,format=nv12 -b:v 7 -start_at_zero {PASS} {FRAGMENTS} \
             {TAIL} {END}"
        )
    );
    assert_eq!(
        text(HevcTransmuxProfile.build(&ctx("hevc", "h265"), &discont()).unwrap()),
        format!(
            "{SOURCE} -c:0 copy -tag:v hvc1 -start_at_zero {PASS} -f hls -start_number 0 \
             -hls_flags temp_file -max_delay 5000000 -hls_fmp4_init_filename 0_init.mp4 \
             -hls_time 5 -discont -force_key_frames expr:gte(t,n_forced*5) {END}"
        )
    );
}
