//! NVIDIA profiles: decoding with NVDEC, encoding with NVENC.

use vstd::prelude::*;

use crate::profiles::args::{
    add_forced_key_frames, add_hls, add_hls_flags, add_input, add_key_frames, add_output, add_pace,
    add_rate, add_segments, arg, arg2, dav1d, forced_key_frames, given, hls, hls_flags, hvc1, input,
    key_frames, no_bframes, output, pace, rate, segments, size_of, size_text,
};
use crate::profiles::context::{
    any_numbered, has_numbered, seekable, unsupported, Machine, NightfallError, ProfileContext,
    ProfileType, StreamType, TranscodingProfile,
};
use crate::text::{append_copies, cat3, same, views};

verus! {

/// The codecs that NVDEC decodes. Asked for any other, ffmpeg fails at startup.
pub open spec fn nvdec_decodes(codec: Seq<char>) -> bool {
    ||| codec == "h264"@
    ||| codec == "hevc"@
    ||| codec == "av1"@
    ||| codec == "vp8"@
    ||| codec == "vp9"@
    ||| codec == "mpeg1video"@
    ||| codec == "mpeg2video"@
    ||| codec == "mpeg4"@
    ||| codec == "vc1"@
    ||| codec == "mjpeg"@
}

/// Why the input cannot be decoded.
pub open spec fn nvdec_refuses(ctx: ProfileContext) -> Option<Seq<char>> {
    if !ctx.force_software_decode && !nvdec_decodes(ctx.input_ctx.codec@) {
        Some("Input codec "@ + ctx.input_ctx.codec@ + " cannot be decoded by NVDEC."@)
    } else {
        None
    }
}

/// Checks that the input can be decoded.
pub fn check_nvdec_input(ctx: &ProfileContext) -> (r: Result<(), NightfallError>)
    ensures
        r is Ok <==> nvdec_refuses(*ctx) is None,
        r matches Err(e) ==> (e matches NightfallError::ProfileNotSupported(why) && Some(why@)
            == nvdec_refuses(*ctx)),
{
    let codec = ctx.input_ctx.codec.as_str();
    let decodes = same(codec, "h264") || same(codec, "hevc") || same(codec, "av1") || same(
        codec,
        "vp8",
    ) || same(codec, "vp9") || same(codec, "mpeg1video") || same(codec, "mpeg2video") || same(
        codec,
        "mpeg4",
    ) || same(codec, "vc1") || same(codec, "mjpeg");
    if !ctx.force_software_decode && !decodes {
        return unsupported(cat3("Input codec ", codec, " cannot be decoded by NVDEC.").as_str());
    }
    Ok(())
}

/// Why the profiles cannot be used on the machine.
pub open spec fn no_nvidia(machine: Machine) -> Option<Seq<char>> {
    if has_numbered(views(machine.dev_names@), "nvidia"@) {
        None
    } else {
        Some("No NVIDIA GPU found in /dev"@)
    }
}

/// Whether a device `/dev/nvidia<N>` exists.
pub fn nvidia_device_exists(machine: &Machine) -> (r: bool)
    ensures
        r == (no_nvidia(*machine) is None),
{
    any_numbered(&machine.dev_names, "nvidia")
}

/// Checks that the machine has an NVIDIA device.
fn check_nvidia(machine: &Machine) -> (r: Result<(), NightfallError>)
    ensures
        r is Ok <==> no_nvidia(*machine) is None,
        r matches Err(e) ==> (e matches NightfallError::ProfileNotSupported(why) && Some(why@)
            == no_nvidia(*machine)),
{
    if nvidia_device_exists(machine) {
        Ok(())
    } else {
        unsupported("No NVIDIA GPU found in /dev")
    }
}

/// Scaling; frames that were decoded in software are uploaded.
pub open spec fn cuda_filter(ctx: ProfileContext) -> Seq<Seq<char>> {
    if ctx.force_software_decode {
        if ctx.output_ctx.height is Some {
            seq!["-vf"@, "format=nv12,scale="@ + size_of(ctx, -2) + ",hwupload_cuda"@]
        } else {
            seq!["-vf"@, "format=nv12,hwupload_cuda"@]
        }
    } else if ctx.output_ctx.height is Some {
        seq!["-vf"@, "scale_cuda="@ + size_of(ctx, -2)]
    } else {
        Seq::empty()
    }
}

/// The arguments of [`cuda_filter`].
fn add_cuda_filter(args: &mut Vec<String>, ctx: &ProfileContext)
    ensures
        views(final(args)@) == views(old(args)@) + cuda_filter(*ctx),
{
    let ghost before = views(args@);
    if ctx.force_software_decode {
        if ctx.output_ctx.height.is_some() {
            let size = size_text(ctx, -2);
            let filter = cat3("format=nv12,scale=", size.as_str(), ",hwupload_cuda");
            arg2(args, "-vf", filter.as_str());
        } else {
            arg2(args, "-vf", "format=nv12,hwupload_cuda");
        }
    } else if ctx.output_ctx.height.is_some() {
        let filter = crate::text::cat("scale_cuda=", size_text(ctx, -2).as_str());
        arg2(args, "-vf", filter.as_str());
    } else {
        assert(before + cuda_filter(*ctx) =~= before);
    }
}

/// The arguments of the NVIDIA profiles.
pub open spec fn cuda_args(
    ctx: ProfileContext,
    encoder: Seq<char>,
    tagged: bool,
    discont: Seq<Seq<char>>,
) -> Seq<Seq<char>> {
    given(
        !ctx.force_software_decode,
        seq!["-hwaccel"@, "cuda"@, "-hwaccel_output_format"@, "cuda"@],
    ) + given(ctx.force_software_decode && ctx.input_ctx.codec@ == "av1"@, dav1d()) + seq!["-y"@]
        + input(ctx, encoder) + given(tagged, hvc1()) + no_bframes() + cuda_filter(ctx) + rate(
        ctx,
        "-b:v"@,
    ) + given(true, seq!["-start_at_zero"@]) + pace() + key_frames() + discont + hls(ctx)
        + hls_flags("independent_segments+temp_file"@) + segments(ctx) + forced_key_frames(ctx)
        + output(ctx)
}

/// Builds the arguments of the NVIDIA profiles.
fn build_cuda_args(
    ctx: &ProfileContext,
    encoder: &str,
    tagged: bool,
    discont_flags: &Vec<String>,
) -> (r: Vec<String>)
    requires
        seekable(*ctx),
    ensures
        views(r@) == cuda_args(*ctx, encoder@, tagged, views(discont_flags@)),
{
    let mut args: Vec<String> = Vec::new();
    if !ctx.force_software_decode {
        arg2(&mut args, "-hwaccel", "cuda");
        arg2(&mut args, "-hwaccel_output_format", "cuda");
    }
    assert(views(args@) =~= given(
        !ctx.force_software_decode,
        seq!["-hwaccel"@, "cuda"@, "-hwaccel_output_format"@, "cuda"@],
    ));
    let ghost decode = views(args@);
    if ctx.force_software_decode && same(ctx.input_ctx.codec.as_str(), "av1") {
        arg2(&mut args, "-c:v", "libdav1d");
    }
    assert(views(args@) =~= decode + given(
        ctx.force_software_decode && ctx.input_ctx.codec@ == "av1"@,
        dav1d(),
    ));
    let ghost now = views(args@);
    arg(&mut args, "-y");
    assert(views(args@) =~= now + seq!["-y"@]);
    add_input(&mut args, ctx, encoder);
    let ghost now = views(args@);
    if tagged {
        arg2(&mut args, "-tag:v", "hvc1");
    }
    assert(views(args@) =~= now + given(tagged, hvc1()));
    arg2(&mut args, "-bf", "0");
    add_cuda_filter(&mut args, ctx);
    add_rate(&mut args, ctx, "-b:v");
    add_pace(&mut args, true);
    add_key_frames(&mut args);
    append_copies(&mut args, discont_flags);
    add_hls(&mut args, ctx);
    add_hls_flags(&mut args, "independent_segments+temp_file");
    add_segments(&mut args, ctx);
    add_forced_key_frames(&mut args, ctx);
    add_output(&mut args, ctx);
    args
}

/// Encodes H.264 with NVENC.
#[derive(Clone, Copy, Debug, PartialEq, Eq, Structural)]
pub struct CudaTranscodeProfile;

impl TranscodingProfile for CudaTranscodeProfile {
    open spec fn spec_profile_type(&self) -> ProfileType {
        ProfileType::HardwareTranscode
    }

    open spec fn spec_stream_type(&self) -> StreamType {
        StreamType::Video
    }

    open spec fn spec_tag(&self) -> Seq<char> {
        "h264_cuda"@
    }

    open spec fn spec_name(&self) -> Seq<char> {
        "CudaTranscodeProfile"@
    }

    open spec fn disabled_by(&self, machine: Machine) -> Option<Seq<char>> {
        no_nvidia(machine)
    }

    open spec fn refuses(&self, ctx: ProfileContext) -> Option<Seq<char>> {
        if ctx.output_ctx.codec@ != "h264"@ {
            Some("Profile only supports h264 output streams."@)
        } else {
            nvdec_refuses(ctx)
        }
    }

    open spec fn args(&self, ctx: ProfileContext, discont: Seq<Seq<char>>) -> Seq<Seq<char>> {
        cuda_args(ctx, "h264_nvenc"@, false, discont)
    }

    fn profile_type(&self) -> ProfileType {
        ProfileType::HardwareTranscode
    }

    fn stream_type(&self) -> StreamType {
        StreamType::Video
    }

    fn is_enabled(&self, machine: &Machine) -> Result<(), NightfallError> {
        check_nvidia(machine)
    }

    fn build(&self, ctx: &ProfileContext, discont_flags: &Vec<String>) -> Option<Vec<String>> {
        Some(build_cuda_args(ctx, "h264_nvenc", false, discont_flags))
    }

    fn supports(&self, ctx: &ProfileContext) -> Result<(), NightfallError> {
        if !same(ctx.output_ctx.codec.as_str(), "h264") {
            return unsupported("Profile only supports h264 output streams.");
        }
        check_nvdec_input(ctx)
    }

    fn tag(&self) -> &'static str {
        "h264_cuda"
    }

    fn name(&self) -> &'static str {
        "CudaTranscodeProfile"
    }
}

/// Encodes HEVC with NVENC.
#[derive(Clone, Copy, Debug, PartialEq, Eq, Structural)]
pub struct CudaHevcTranscodeProfile;

impl TranscodingProfile for CudaHevcTranscodeProfile {
    open spec fn spec_profile_type(&self) -> ProfileType {
        ProfileType::HardwareTranscode
    }

    open spec fn spec_stream_type(&self) -> StreamType {
        StreamType::Video
    }

    open spec fn spec_tag(&self) -> Seq<char> {
        "hevc_cuda"@
    }

    open spec fn spec_name(&self) -> Seq<char> {
        "CudaHevcTranscodeProfile"@
    }

    open spec fn disabled_by(&self, machine: Machine) -> Option<Seq<char>> {
        no_nvidia(machine)
    }

    open spec fn refuses(&self, ctx: ProfileContext) -> Option<Seq<char>> {
        if ctx.output_ctx.codec@ != "h265"@ {
            Some("Profile only supports h265 output streams."@)
        } else {
            nvdec_refuses(ctx)
        }
    }

    open spec fn args(&self, ctx: ProfileContext, discont: Seq<Seq<char>>) -> Seq<Seq<char>> {
        cuda_args(ctx, "hevc_nvenc"@, true, discont)
    }

    fn profile_type(&self) -> ProfileType {
        ProfileType::HardwareTranscode
    }

    fn stream_type(&self) -> StreamType {
        StreamType::Video
    }

    fn is_enabled(&self, machine: &Machine) -> Result<(), NightfallError> {
        check_nvidia(machine)
    }

    fn build(&self, ctx: &ProfileContext, discont_flags: &Vec<String>) -> Option<Vec<String>> {
        Some(build_cuda_args(ctx, "hevc_nvenc", true, discont_flags))
    }

    fn supports(&self, ctx: &ProfileContext) -> Result<(), NightfallError> {
        if !same(ctx.output_ctx.codec.as_str(), "h265") {
            return unsupported("Profile only supports h265 output streams.");
        }
        check_nvdec_input(ctx)
    }

    fn tag(&self) -> &'static str {
        "hevc_cuda"
    }

    fn name(&self) -> &'static str {
        "CudaHevcTranscodeProfile"
    }
}

/// Encodes AV1 with NVENC.
#[derive(Clone, Copy, Debug, PartialEq, Eq, Structural)]
pub struct CudaAv1TranscodeProfile;

impl TranscodingProfile for CudaAv1TranscodeProfile {
    open spec fn spec_profile_type(&self) -> ProfileType {
        ProfileType::HardwareTranscode
    }

    open spec fn spec_stream_type(&self) -> StreamType {
        StreamType::Video
    }

    open spec fn spec_tag(&self) -> Seq<char> {
        "av1_cuda"@
    }

    open spec fn spec_name(&self) -> Seq<char> {
        "CudaAv1TranscodeProfile"@
    }

    open spec fn disabled_by(&self, machine: Machine) -> Option<Seq<char>> {
        no_nvidia(machine)
    }

    open spec fn refuses(&self, ctx: ProfileContext) -> Option<Seq<char>> {
        if ctx.output_ctx.codec@ != "av1"@ {
            Some("Profile only supports av1 output streams."@)
        } else {
            nvdec_refuses(ctx)
        }
    }

    open spec fn args(&self, ctx: ProfileContext, discont: Seq<Seq<char>>) -> Seq<Seq<char>> {
        cuda_args(ctx, "av1_nvenc"@, false, discont)
    }

    fn profile_type(&self) -> ProfileType {
        ProfileType::HardwareTranscode
    }

    fn stream_type(&self) -> StreamType {
        StreamType::Video
    }

    fn is_enabled(&self, machine: &Machine) -> Result<(), NightfallError> {
        check_nvidia(machine)
    }

    fn build(&self, ctx: &ProfileContext, discont_flags: &Vec<String>) -> Option<Vec<String>> {
        Some(build_cuda_args(ctx, "av1_nvenc", false, discont_flags))
    }

    fn supports(&self, ctx: &ProfileContext) -> Result<(), NightfallError> {
        if !same(ctx.output_ctx.codec.as_str(), "av1") {
            return unsupported("Profile only supports av1 output streams.");
        }
        check_nvdec_input(ctx)
    }

    fn tag(&self) -> &'static str {
        "av1_cuda"
    }

    fn name(&self) -> &'static str {
        "CudaAv1TranscodeProfile"
    }
}

}
