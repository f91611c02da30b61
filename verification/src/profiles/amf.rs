//! AMD AMF profiles.
//!
//! AMF encoders take frames from memory, so decoding is left to ffmpeg and frames are scaled in
//! software.

use vstd::prelude::*;

use crate::profiles::args::{
    add_forced_key_frames, add_hls, add_hls_flags, add_input, add_output, add_pace, add_rate,
    add_segments, arg, arg2, forced_key_frames, given, hls, hls_flags, hvc1, input, no_bframes,
    output, pace, rate, segments, size_of, size_text,
};
use crate::profiles::context::{
    seekable, unsupported, Machine, NightfallError, ProfileContext, ProfileType, StreamType,
    TranscodingProfile,
};
use crate::text::{append_copies, cat3, same, views};

verus! {

/// Why the output codec is not supported by a profile for `codec`.
pub open spec fn other_codec(ctx: ProfileContext, codec: Seq<char>) -> Option<Seq<char>> {
    if ctx.output_ctx.codec@ != codec {
        Some(
            "Got output codec "@ + ctx.output_ctx.codec@ + (" but profile only supports `"@ + codec
                + "`."@),
        )
    } else {
        None
    }
}

/// Checks that the output codec is `codec`.
pub fn check_output_codec(ctx: &ProfileContext, codec: &str) -> (r: Result<(), NightfallError>)
    ensures
        r is Ok <==> other_codec(*ctx, codec@) is None,
        r matches Err(e) ==> (e matches NightfallError::ProfileNotSupported(why) && Some(why@)
            == other_codec(*ctx, codec@)),
{
    if !same(ctx.output_ctx.codec.as_str(), codec) {
        let rest = cat3(" but profile only supports `", codec, "`.");
        return unsupported(
            cat3("Got output codec ", ctx.output_ctx.codec.as_str(), rest.as_str()).as_str(),
        );
    }
    Ok(())
}

/// Scaling in software.
pub open spec fn amf_filter(ctx: ProfileContext) -> Seq<Seq<char>> {
    if ctx.output_ctx.height is Some {
        seq!["-vf"@, "scale="@ + size_of(ctx, -2) + ",format=nv12"@]
    } else {
        Seq::empty()
    }
}

/// The arguments of the AMF profiles.
pub open spec fn amf_args(
    ctx: ProfileContext,
    encoder: Seq<char>,
    tagged: bool,
    discont: Seq<Seq<char>>,
) -> Seq<Seq<char>> {
    seq!["-y"@] + input(ctx, encoder) + given(tagged, hvc1()) + no_bframes() + amf_filter(ctx)
        + rate(ctx, "-b:v"@) + given(true, seq!["-start_at_zero"@]) + pace() + hls(ctx) + hls_flags(
        "temp_file"@,
    ) + discont + segments(ctx) + forced_key_frames(ctx) + output(ctx)
}

/// Builds the arguments of the AMF profiles.
fn build_amf_args(
    ctx: &ProfileContext,
    encoder: &str,
    tagged: bool,
    discont_flags: &Vec<String>,
) -> (r: Vec<String>)
    requires
        seekable(*ctx),
    ensures
        views(r@) == amf_args(*ctx, encoder@, tagged, views(discont_flags@)),
{
    let mut args: Vec<String> = Vec::new();
    arg(&mut args, "-y");
    assert(views(args@) =~= seq!["-y"@]);
    add_input(&mut args, ctx, encoder);
    let ghost now = views(args@);
    if tagged {
        arg2(&mut args, "-tag:v", "hvc1");
    }
    assert(views(args@) =~= now + given(tagged, hvc1()));
    arg2(&mut args, "-bf", "0");
    let ghost now = views(args@);
    if ctx.output_ctx.height.is_some() {
        let size = size_text(ctx, -2);
        arg2(&mut args, "-vf", cat3("scale=", size.as_str(), ",format=nv12").as_str());
    }
    assert(views(args@) =~= now + amf_filter(*ctx));
    add_rate(&mut args, ctx, "-b:v");
    add_pace(&mut args, true);
    add_hls(&mut args, ctx);
    add_hls_flags(&mut args, "temp_file");
    append_copies(&mut args, discont_flags);
    add_segments(&mut args, ctx);
    add_forced_key_frames(&mut args, ctx);
    add_output(&mut args, ctx);
    args
}

/// Encodes H.264 with AMF.
#[derive(Clone, Copy, Debug, PartialEq, Eq, Structural)]
pub struct AmfTranscodeProfile;

impl TranscodingProfile for AmfTranscodeProfile {
    open spec fn spec_profile_type(&self) -> ProfileType {
        ProfileType::HardwareTranscode
    }

    open spec fn spec_stream_type(&self) -> StreamType {
        StreamType::Video
    }

    open spec fn spec_tag(&self) -> Seq<char> {
        "h264_amf"@
    }

    open spec fn spec_name(&self) -> Seq<char> {
        "AmfTranscodeProfile"@
    }

    open spec fn disabled_by(&self, machine: Machine) -> Option<Seq<char>> {
        None
    }

    open spec fn refuses(&self, ctx: ProfileContext) -> Option<Seq<char>> {
        other_codec(ctx, "h264"@)
    }

    open spec fn args(&self, ctx: ProfileContext, discont: Seq<Seq<char>>) -> Seq<Seq<char>> {
        amf_args(ctx, "h264_amf"@, false, discont)
    }

    fn profile_type(&self) -> ProfileType {
        ProfileType::HardwareTranscode
    }

    fn stream_type(&self) -> StreamType {
        StreamType::Video
    }

    fn is_enabled(&self, machine: &Machine) -> Result<(), NightfallError> {
        Ok(())
    }

    fn build(&self, ctx: &ProfileContext, discont_flags: &Vec<String>) -> Option<Vec<String>> {
        Some(build_amf_args(ctx, "h264_amf", false, discont_flags))
    }

    fn supports(&self, ctx: &ProfileContext) -> Result<(), NightfallError> {
        check_output_codec(ctx, "h264")
    }

    fn tag(&self) -> &'static str {
        "h264_amf"
    }

    fn name(&self) -> &'static str {
        "AmfTranscodeProfile"
    }
}

/// Encodes HEVC with AMF.
#[derive(Clone, Copy, Debug, PartialEq, Eq, Structural)]
pub struct AmfHevcTranscodeProfile;

impl TranscodingProfile for AmfHevcTranscodeProfile {
    open spec fn spec_profile_type(&self) -> ProfileType {
        ProfileType::HardwareTranscode
    }

    open spec fn spec_stream_type(&self) -> StreamType {
        StreamType::Video
    }

    open spec fn spec_tag(&self) -> Seq<char> {
        "hevc_amf"@
    }

    open spec fn spec_name(&self) -> Seq<char> {
        "AmfHevcTranscodeProfile"@
    }

    open spec fn disabled_by(&self, machine: Machine) -> Option<Seq<char>> {
        None
    }

    open spec fn refuses(&self, ctx: ProfileContext) -> Option<Seq<char>> {
        other_codec(ctx, "h265"@)
    }

    open spec fn args(&self, ctx: ProfileContext, discont: Seq<Seq<char>>) -> Seq<Seq<char>> {
        amf_args(ctx, "hevc_amf"@, true, discont)
    }

    fn profile_type(&self) -> ProfileType {
        ProfileType::HardwareTranscode
    }

    fn stream_type(&self) -> StreamType {
        StreamType::Video
    }

    fn is_enabled(&self, machine: &Machine) -> Result<(), NightfallError> {
        Ok(())
    }

    fn build(&self, ctx: &ProfileContext, discont_flags: &Vec<String>) -> Option<Vec<String>> {
        Some(build_amf_args(ctx, "hevc_amf", true, discont_flags))
    }

    fn supports(&self, ctx: &ProfileContext) -> Result<(), NightfallError> {
        check_output_codec(ctx, "h265")
    }

    fn tag(&self) -> &'static str {
        "hevc_amf"
    }

    fn name(&self) -> &'static str {
        "AmfHevcTranscodeProfile"
    }
}

/// Encodes AV1 with AMF.
#[derive(Clone, Copy, Debug, PartialEq, Eq, Structural)]
pub struct AmfAv1TranscodeProfile;

impl TranscodingProfile for AmfAv1TranscodeProfile {
    open spec fn spec_profile_type(&self) -> ProfileType {
        ProfileType::HardwareTranscode
    }

    open spec fn spec_stream_type(&self) -> StreamType {
        StreamType::Video
    }

    open spec fn spec_tag(&self) -> Seq<char> {
        "av1_amf"@
    }

    open spec fn spec_name(&self) -> Seq<char> {
        "AmfAv1TranscodeProfile"@
    }

    open spec fn disabled_by(&self, machine: Machine) -> Option<Seq<char>> {
        None
    }

    open spec fn refuses(&self, ctx: ProfileContext) -> Option<Seq<char>> {
        other_codec(ctx, "av1"@)
    }

    open spec fn args(&self, ctx: ProfileContext, discont: Seq<Seq<char>>) -> Seq<Seq<char>> {
        amf_args(ctx, "av1_amf"@, false, discont)
    }

    fn profile_type(&self) -> ProfileType {
        ProfileType::HardwareTranscode
    }

    fn stream_type(&self) -> StreamType {
        StreamType::Video
    }

    fn is_enabled(&self, machine: &Machine) -> Result<(), NightfallError> {
        Ok(())
    }

    fn build(&self, ctx: &ProfileContext, discont_flags: &Vec<String>) -> Option<Vec<String>> {
        Some(build_amf_args(ctx, "av1_amf", false, discont_flags))
    }

    fn supports(&self, ctx: &ProfileContext) -> Result<(), NightfallError> {
        check_output_codec(ctx, "av1")
    }

    fn tag(&self) -> &'static str {
        "av1_amf"
    }

    fn name(&self) -> &'static str {
        "AmfAv1TranscodeProfile"
    }
}

}
