//! HEVC: as it is, or encoded in software.

use vstd::prelude::*;

use crate::profiles::args::{
    add_forced_key_frames, add_hls, add_hls_flags, add_input, add_output, add_pace, add_rate,
    add_segments, arg, arg2, dav1d, forced_key_frames, given, hls, hls_flags, input, output, pace,
    rate, segments, size_of, size_text,
};
use crate::profiles::amf::{check_output_codec, other_codec};
use crate::profiles::context::{
    seekable, Machine, NightfallError, ProfileContext, ProfileType, StreamType, TranscodingProfile,
};
use crate::profiles::vp9::{build_copy_args, check_copy, copy_args, copy_refuses};
use crate::text::{append_copies, cat3, same, views};

verus! {

/// Copies HEVC.
#[derive(Clone, Copy, Debug, PartialEq, Eq, Structural)]
pub struct HevcTransmuxProfile;

impl TranscodingProfile for HevcTransmuxProfile {
    open spec fn spec_profile_type(&self) -> ProfileType {
        ProfileType::Transmux
    }

    open spec fn spec_stream_type(&self) -> StreamType {
        StreamType::Video
    }

    open spec fn spec_tag(&self) -> Seq<char> {
        "hevc_copy"@
    }

    open spec fn spec_name(&self) -> Seq<char> {
        "HevcTransmuxProfile"@
    }

    open spec fn disabled_by(&self, machine: Machine) -> Option<Seq<char>> {
        None
    }

    open spec fn refuses(&self, ctx: ProfileContext) -> Option<Seq<char>> {
        copy_refuses(
            ctx,
            "hevc"@,
            "h265"@,
            "Profile only supports hevc input with h265 output."@,
        )
    }

    open spec fn args(&self, ctx: ProfileContext, discont: Seq<Seq<char>>) -> Seq<Seq<char>> {
        copy_args(ctx, true, discont)
    }

    fn profile_type(&self) -> ProfileType {
        ProfileType::Transmux
    }

    fn stream_type(&self) -> StreamType {
        StreamType::Video
    }

    fn is_enabled(&self, machine: &Machine) -> Result<(), NightfallError> {
        Ok(())
    }

    fn build(&self, ctx: &ProfileContext, discont_flags: &Vec<String>) -> Option<Vec<String>> {
        Some(build_copy_args(ctx, true, discont_flags))
    }

    fn supports(&self, ctx: &ProfileContext) -> Result<(), NightfallError> {
        check_copy(ctx, "hevc", "h265", "Profile only supports hevc input with h265 output.")
    }

    fn tag(&self) -> &'static str {
        "hevc_copy"
    }

    fn name(&self) -> &'static str {
        "HevcTransmuxProfile"
    }
}

/// The settings of the software encoder.
pub open spec fn x265_settings() -> Seq<Seq<char>> {
    seq![
        "-preset"@,
        "fast"@,
        "-bf"@,
        "0"@,
        "-tag:v"@,
        "hvc1"@,
        "-x265-params"@,
        "log-level=error"@,
    ]
}

/// Scaling, and an 8-bit pixel format.
pub open spec fn x265_filter(ctx: ProfileContext) -> Seq<Seq<char>> {
    if ctx.output_ctx.height is Some {
        seq!["-vf"@, "scale="@ + size_of(ctx, -2) + ",format=yuv420p"@]
    } else {
        seq!["-pix_fmt"@, "yuv420p"@]
    }
}

/// The arguments for encoding in software.
pub open spec fn x265_args(ctx: ProfileContext, discont: Seq<Seq<char>>) -> Seq<Seq<char>> {
    seq!["-y"@] + given(ctx.input_ctx.codec@ == "av1"@, dav1d()) + input(ctx, "libx265"@)
        + x265_settings() + x265_filter(ctx) + rate(ctx, "-b:v"@) + given(
        true,
        seq!["-start_at_zero"@],
    ) + pace() + hls(ctx) + discont + hls_flags("temp_file"@) + segments(ctx) + forced_key_frames(
        ctx,
    ) + output(ctx)
}

/// Builds the arguments for encoding in software.
fn build_x265_args(ctx: &ProfileContext, discont_flags: &Vec<String>) -> (r: Vec<String>)
    requires
        seekable(*ctx),
    ensures
        views(r@) == x265_args(*ctx, views(discont_flags@)),
{
    let mut args: Vec<String> = Vec::new();
    arg(&mut args, "-y");
    assert(views(args@) =~= seq!["-y"@]);
    let ghost now = views(args@);
    if same(ctx.input_ctx.codec.as_str(), "av1") {
        arg2(&mut args, "-c:v", "libdav1d");
    }
    assert(views(args@) =~= now + given(ctx.input_ctx.codec@ == "av1"@, dav1d()));
    add_input(&mut args, ctx, "libx265");
    let ghost now = views(args@);
    arg2(&mut args, "-preset", "fast");
    arg2(&mut args, "-bf", "0");
    arg2(&mut args, "-tag:v", "hvc1");
    arg2(&mut args, "-x265-params", "log-level=error");
    assert(views(args@) =~= now + x265_settings());
    if ctx.output_ctx.height.is_some() {
        let size = size_text(ctx, -2);
        arg2(&mut args, "-vf", cat3("scale=", size.as_str(), ",format=yuv420p").as_str());
    } else {
        arg2(&mut args, "-pix_fmt", "yuv420p");
    }
    add_rate(&mut args, ctx, "-b:v");
    add_pace(&mut args, true);
    add_hls(&mut args, ctx);
    append_copies(&mut args, discont_flags);
    add_hls_flags(&mut args, "temp_file");
    add_segments(&mut args, ctx);
    add_forced_key_frames(&mut args, ctx);
    add_output(&mut args, ctx);
    args
}

/// Encodes HEVC in software.
#[derive(Clone, Copy, Debug, PartialEq, Eq, Structural)]
pub struct H265TranscodeProfile;

impl TranscodingProfile for H265TranscodeProfile {
    open spec fn spec_profile_type(&self) -> ProfileType {
        ProfileType::Transcode
    }

    open spec fn spec_stream_type(&self) -> StreamType {
        StreamType::Video
    }

    open spec fn spec_tag(&self) -> Seq<char> {
        "hevc"@
    }

    open spec fn spec_name(&self) -> Seq<char> {
        "H265TranscodeProfile"@
    }

    open spec fn disabled_by(&self, machine: Machine) -> Option<Seq<char>> {
        None
    }

    open spec fn refuses(&self, ctx: ProfileContext) -> Option<Seq<char>> {
        other_codec(ctx, "h265"@)
    }

    open spec fn args(&self, ctx: ProfileContext, discont: Seq<Seq<char>>) -> Seq<Seq<char>> {
        x265_args(ctx, discont)
    }

    fn profile_type(&self) -> ProfileType {
        ProfileType::Transcode
    }

    fn stream_type(&self) -> StreamType {
        StreamType::Video
    }

    fn is_enabled(&self, machine: &Machine) -> Result<(), NightfallError> {
        Ok(())
    }

    fn build(&self, ctx: &ProfileContext, discont_flags: &Vec<String>) -> Option<Vec<String>> {
        Some(build_x265_args(ctx, discont_flags))
    }

    fn supports(&self, ctx: &ProfileContext) -> Result<(), NightfallError> {
        check_output_codec(ctx, "h265")
    }

    fn tag(&self) -> &'static str {
        "hevc"
    }

    fn name(&self) -> &'static str {
        "H265TranscodeProfile"
    }
}

}
