//! Intel Quick Sync profiles.

use vstd::prelude::*;

use crate::profiles::args::{
    add_forced_key_frames, add_hls, add_hls_flags, add_input, add_key_frames, add_output, add_pace,
    add_rate, add_segments, arg, arg2, dav1d, forced_key_frames, given, hls, hls_flags, hvc1, input,
    key_frames, no_bframes, output, pace, rate, segments,
};
use crate::profiles::context::{
    seekable, unsupported, Machine, NightfallError, ProfileContext, ProfileType, StreamType,
    TranscodingProfile,
};
use crate::text::{append_copies, cat, cat3, same, starts_with, views};

verus! {

/// The codecs that Quick Sync decodes. Asked for any other, ffmpeg fails at startup.
pub open spec fn qsv_decodes(codec: Seq<char>) -> bool {
    ||| codec == "h264"@
    ||| codec == "hevc"@
    ||| codec == "av1"@
    ||| codec == "vp8"@
    ||| codec == "vp9"@
    ||| codec == "mpeg2video"@
    ||| codec == "vc1"@
    ||| codec == "mjpeg"@
}

/// Why the input cannot be decoded.
pub open spec fn qsv_refuses(ctx: ProfileContext) -> Option<Seq<char>> {
    if !ctx.force_software_decode && !qsv_decodes(ctx.input_ctx.codec@) {
        Some("Input codec "@ + ctx.input_ctx.codec@ + " cannot be decoded by Quick Sync."@)
    } else {
        None
    }
}

/// Checks that the input can be decoded.
pub fn check_qsv_input(ctx: &ProfileContext) -> (r: Result<(), NightfallError>)
    ensures
        r is Ok <==> qsv_refuses(*ctx) is None,
        r matches Err(e) ==> (e matches NightfallError::ProfileNotSupported(why) && Some(why@)
            == qsv_refuses(*ctx)),
{
    let codec = ctx.input_ctx.codec.as_str();
    let decodes = same(codec, "h264") || same(codec, "hevc") || same(codec, "av1") || same(
        codec,
        "vp8",
    ) || same(codec, "vp9") || same(codec, "mpeg2video") || same(codec, "vc1") || same(
        codec,
        "mjpeg",
    );
    if !ctx.force_software_decode && !decodes {
        return unsupported(
            cat3("Input codec ", codec, " cannot be decoded by Quick Sync.").as_str(),
        );
    }
    Ok(())
}

/// The machine has a render node.
pub open spec fn has_render_node(names: Seq<Seq<char>>) -> bool {
    exists|i: int| 0 <= i < names.len() && "renderD"@.is_prefix_of(#[trigger] names[i])
}

/// Why the profiles cannot be used on the machine.
pub open spec fn no_qsv(machine: Machine) -> Option<Seq<char>> {
    if machine.macos {
        Some("QSV is not available on macOS"@)
    } else if machine.linux && !has_render_node(views(machine.dri_names@)) {
        Some("No DRI render node found in /dev/dri"@)
    } else {
        None
    }
}

/// Checks that Quick Sync is likely to be available.
pub fn qsv_is_available(machine: &Machine) -> (r: Result<(), NightfallError>)
    ensures
        r is Ok <==> no_qsv(*machine) is None,
        r matches Err(e) ==> (e matches NightfallError::ProfileNotSupported(why) && Some(why@)
            == no_qsv(*machine)),
{
    if machine.macos {
        return unsupported("QSV is not available on macOS");
    }
    if machine.linux {
        let names = &machine.dri_names;
        let mut i: usize = 0;
        while i < names.len()
            invariant
                0 <= i <= names@.len(),
                *names == machine.dri_names,
                !machine.macos,
                forall|j: int|
                    0 <= j < i ==> !"renderD"@.is_prefix_of(#[trigger] views(names@)[j]),
            decreases names@.len() - i,
        {
            assert(views(names@)[i as int] == names@[i as int]@);
            if starts_with(names[i].as_str(), "renderD") {
                return Ok(());
            }
            i = i + 1;
        }
        return unsupported("No DRI render node found in /dev/dri");
    }
    Ok(())
}

/// Scaling. Frames that were decoded in hardware are there already; others are uploaded first. The
/// scaler takes -1 for a width that keeps the aspect ratio.
pub open spec fn qsv_filter(ctx: ProfileContext) -> Seq<Seq<char>> {
    let scale = "scale_qsv=w="@ + qsv_size(ctx);
    if ctx.force_software_decode {
        seq![
            "-vf"@,
            if ctx.output_ctx.height is Some {
                "format=nv12,hwupload=extra_hw_frames=64,"@ + scale
            } else {
                "format=nv12,hwupload=extra_hw_frames=64"@
            },
        ]
    } else if ctx.output_ctx.height is Some {
        seq!["-vf"@, scale]
    } else {
        Seq::empty()
    }
}

/// `width:h=height`.
pub open spec fn qsv_size(ctx: ProfileContext) -> Seq<char> {
    crate::text::dec_int(
        match ctx.output_ctx.width {
            Some(width) => width as int,
            None => -1,
        },
    ) + ":h="@ + crate::text::dec_int(ctx.output_ctx.height->0 as int)
}

/// The arguments of [`qsv_filter`].
fn add_qsv_filter(args: &mut Vec<String>, ctx: &ProfileContext)
    ensures
        views(final(args)@) == views(old(args)@) + qsv_filter(*ctx),
{
    let ghost before = views(args@);
    let width: i64 = match ctx.output_ctx.width {
        Some(width) => width,
        None => -1,
    };
    if let Some(height) = ctx.output_ctx.height {
        let size = cat3(
            crate::text::dec_i64(width).as_str(),
            ":h=",
            crate::text::dec_i64(height).as_str(),
        );
        let scale = cat("scale_qsv=w=", size.as_str());
        if ctx.force_software_decode {
            let filter = cat("format=nv12,hwupload=extra_hw_frames=64,", scale.as_str());
            arg2(args, "-vf", filter.as_str());
        } else {
            arg2(args, "-vf", scale.as_str());
        }
    } else if ctx.force_software_decode {
        arg2(args, "-vf", "format=nv12,hwupload=extra_hw_frames=64");
    } else {
        assert(before + qsv_filter(*ctx) =~= before);
    }
}

/// The arguments of the Quick Sync profiles.
pub open spec fn qsv_args(
    ctx: ProfileContext,
    encoder: Seq<char>,
    tag: Option<Seq<char>>,
    discont: Seq<Seq<char>>,
) -> Seq<Seq<char>> {
    seq!["-init_hw_device"@, "qsv=hw"@, "-filter_hw_device"@, "hw"@] + given(
        !ctx.force_software_decode,
        seq!["-hwaccel"@, "qsv"@, "-hwaccel_output_format"@, "qsv"@],
    ) + given(ctx.force_software_decode && ctx.input_ctx.codec@ == "av1"@, dav1d()) + seq!["-y"@]
        + input(ctx, encoder) + (match tag {
        Some(t) => seq!["-tag:v"@, t],
        None => Seq::empty(),
    }) + no_bframes() + qsv_filter(ctx) + rate(ctx, "-b:v"@) + given(true, seq!["-start_at_zero"@])
        + pace() + key_frames() + discont + hls(ctx) + hls_flags("independent_segments+temp_file"@)
        + segments(ctx) + forced_key_frames(ctx) + output(ctx)
}

/// Builds the arguments of the Quick Sync profiles; `tag_v` is the tag of the stream.
pub fn build_qsv_args(
    ctx: &ProfileContext,
    encoder: &str,
    tag_v: Option<&str>,
    discont_flags: &Vec<String>,
) -> (r: Vec<String>)
    requires
        seekable(*ctx),
    ensures
        views(r@) == qsv_args(
            *ctx,
            encoder@,
            match tag_v {
                Some(t) => Some(t@),
                None => None,
            },
            views(discont_flags@),
        ),
{
    let mut args: Vec<String> = Vec::new();
    arg2(&mut args, "-init_hw_device", "qsv=hw");
    arg2(&mut args, "-filter_hw_device", "hw");
    assert(views(args@) =~= seq!["-init_hw_device"@, "qsv=hw"@, "-filter_hw_device"@, "hw"@]);
    let ghost now = views(args@);
    if !ctx.force_software_decode {
        arg2(&mut args, "-hwaccel", "qsv");
        arg2(&mut args, "-hwaccel_output_format", "qsv");
    }
    assert(views(args@) =~= now + given(
        !ctx.force_software_decode,
        seq!["-hwaccel"@, "qsv"@, "-hwaccel_output_format"@, "qsv"@],
    ));
    let ghost now = views(args@);
    if ctx.force_software_decode && same(ctx.input_ctx.codec.as_str(), "av1") {
        arg2(&mut args, "-c:v", "libdav1d");
    }
    assert(views(args@) =~= now + given(
        ctx.force_software_decode && ctx.input_ctx.codec@ == "av1"@,
        dav1d(),
    ));
    let ghost now = views(args@);
    arg(&mut args, "-y");
    assert(views(args@) =~= now + seq!["-y"@]);
    add_input(&mut args, ctx, encoder);
    let ghost now = views(args@);
    if let Some(tag) = tag_v {
        arg2(&mut args, "-tag:v", tag);
    } else {
        assert(views(args@) =~= now + Seq::<Seq<char>>::empty());
    }
    arg2(&mut args, "-bf", "0");
    add_qsv_filter(&mut args, ctx);
    add_rate(&mut args, ctx, "-b:v");
    add_pace(&mut args, true);
    add_key_frames(&mut args);
    append_copies(&mut args, discont_flags);
    add_hls(&mut args, ctx);
    add_hls_flags(&mut args, "independent_segments+temp_file");
    add_segments(&mut args, ctx);
    add_forced_key_frames(&mut args, ctx);
    add_output(&mut args, ctx);
    args
}

/// Encodes H.264 with Quick Sync.
#[derive(Clone, Copy, Debug, PartialEq, Eq, Structural)]
pub struct QsvTranscodeProfile;

impl TranscodingProfile for QsvTranscodeProfile {
    open spec fn spec_profile_type(&self) -> ProfileType {
        ProfileType::HardwareTranscode
    }

    open spec fn spec_stream_type(&self) -> StreamType {
        StreamType::Video
    }

    open spec fn spec_tag(&self) -> Seq<char> {
        "h264_qsv"@
    }

    open spec fn spec_name(&self) -> Seq<char> {
        "QsvTranscodeProfile"@
    }

    open spec fn disabled_by(&self, machine: Machine) -> Option<Seq<char>> {
        no_qsv(machine)
    }

    open spec fn refuses(&self, ctx: ProfileContext) -> Option<Seq<char>> {
        if ctx.output_ctx.codec@ != "h264"@ {
            Some("Profile only supports h264 output streams."@)
        } else {
            qsv_refuses(ctx)
        }
    }

    open spec fn args(&self, ctx: ProfileContext, discont: Seq<Seq<char>>) -> Seq<Seq<char>> {
        qsv_args(ctx, "h264_qsv"@, None, discont)
    }

    fn profile_type(&self) -> ProfileType {
        ProfileType::HardwareTranscode
    }

    fn stream_type(&self) -> StreamType {
        StreamType::Video
    }

    fn is_enabled(&self, machine: &Machine) -> Result<(), NightfallError> {
        qsv_is_available(machine)
    }

    fn build(&self, ctx: &ProfileContext, discont_flags: &Vec<String>) -> Option<Vec<String>> {
        Some(build_qsv_args(ctx, "h264_qsv", None, discont_flags))
    }

    fn supports(&self, ctx: &ProfileContext) -> Result<(), NightfallError> {
        if !same(ctx.output_ctx.codec.as_str(), "h264") {
            return unsupported("Profile only supports h264 output streams.");
        }
        check_qsv_input(ctx)
    }

    fn tag(&self) -> &'static str {
        "h264_qsv"
    }

    fn name(&self) -> &'static str {
        "QsvTranscodeProfile"
    }
}

/// Encodes HEVC with Quick Sync.
#[derive(Clone, Copy, Debug, PartialEq, Eq, Structural)]
pub struct QsvHevcTranscodeProfile;

impl TranscodingProfile for QsvHevcTranscodeProfile {
    open spec fn spec_profile_type(&self) -> ProfileType {
        ProfileType::HardwareTranscode
    }

    open spec fn spec_stream_type(&self) -> StreamType {
        StreamType::Video
    }

    open spec fn spec_tag(&self) -> Seq<char> {
        "hevc_qsv"@
    }

    open spec fn spec_name(&self) -> Seq<char> {
        "QsvHevcTranscodeProfile"@
    }

    open spec fn disabled_by(&self, machine: Machine) -> Option<Seq<char>> {
        no_qsv(machine)
    }

    open spec fn refuses(&self, ctx: ProfileContext) -> Option<Seq<char>> {
        if ctx.output_ctx.codec@ != "h265"@ {
            Some("Profile only supports h265 output streams."@)
        } else {
            qsv_refuses(ctx)
        }
    }

    open spec fn args(&self, ctx: ProfileContext, discont: Seq<Seq<char>>) -> Seq<Seq<char>> {
        qsv_args(ctx, "hevc_qsv"@, Some("hvc1"@), discont)
    }

    fn profile_type(&self) -> ProfileType {
        ProfileType::HardwareTranscode
    }

    fn stream_type(&self) -> StreamType {
        StreamType::Video
    }

    fn is_enabled(&self, machine: &Machine) -> Result<(), NightfallError> {
        qsv_is_available(machine)
    }

    fn build(&self, ctx: &ProfileContext, discont_flags: &Vec<String>) -> Option<Vec<String>> {
        Some(build_qsv_args(ctx, "hevc_qsv", Some("hvc1"), discont_flags))
    }

    fn supports(&self, ctx: &ProfileContext) -> Result<(), NightfallError> {
        if !same(ctx.output_ctx.codec.as_str(), "h265") {
            return unsupported("Profile only supports h265 output streams.");
        }
        check_qsv_input(ctx)
    }

    fn tag(&self) -> &'static str {
        "hevc_qsv"
    }

    fn name(&self) -> &'static str {
        "QsvHevcTranscodeProfile"
    }
}

/// Encodes AV1 with Quick Sync.
#[derive(Clone, Copy, Debug, PartialEq, Eq, Structural)]
pub struct QsvAv1TranscodeProfile;

impl TranscodingProfile for QsvAv1TranscodeProfile {
    open spec fn spec_profile_type(&self) -> ProfileType {
        ProfileType::HardwareTranscode
    }

    open spec fn spec_stream_type(&self) -> StreamType {
        StreamType::Video
    }

    open spec fn spec_tag(&self) -> Seq<char> {
        "av1_qsv"@
    }

    open spec fn spec_name(&self) -> Seq<char> {
        "QsvAv1TranscodeProfile"@
    }

    open spec fn disabled_by(&self, machine: Machine) -> Option<Seq<char>> {
        no_qsv(machine)
    }

    open spec fn refuses(&self, ctx: ProfileContext) -> Option<Seq<char>> {
        if ctx.output_ctx.codec@ != "av1"@ {
            Some("Profile only supports av1 output streams."@)
        } else {
            qsv_refuses(ctx)
        }
    }

    open spec fn args(&self, ctx: ProfileContext, discont: Seq<Seq<char>>) -> Seq<Seq<char>> {
        qsv_args(ctx, "av1_qsv"@, None, discont)
    }

    fn profile_type(&self) -> ProfileType {
        ProfileType::HardwareTranscode
    }

    fn stream_type(&self) -> StreamType {
        StreamType::Video
    }

    fn is_enabled(&self, machine: &Machine) -> Result<(), NightfallError> {
        qsv_is_available(machine)
    }

    fn build(&self, ctx: &ProfileContext, discont_flags: &Vec<String>) -> Option<Vec<String>> {
        Some(build_qsv_args(ctx, "av1_qsv", None, discont_flags))
    }

    fn supports(&self, ctx: &ProfileContext) -> Result<(), NightfallError> {
        if !same(ctx.output_ctx.codec.as_str(), "av1") {
            return unsupported("Profile only supports av1 output streams.");
        }
        check_qsv_input(ctx)
    }

    fn tag(&self) -> &'static str {
        "av1_qsv"
    }

    fn name(&self) -> &'static str {
        "QsvAv1TranscodeProfile"
    }
}

}
