//! V4L2 memory-to-memory profiles, for the encoders of ARM systems on a chip.

use vstd::prelude::*;

use crate::profiles::args::{
    add_forced_key_frames, add_hls, add_hls_flags, add_input, add_key_frames, add_output, add_pace,
    add_rate, add_segments, arg, arg2, dav1d, forced_key_frames, given, hls, hls_flags, hvc1, input,
    key_frames, output, pace, rate, segments,
};
use crate::profiles::context::{
    any_numbered, has_numbered, seekable, unsupported, Machine, NightfallError, ProfileContext,
    ProfileType, StreamType, TranscodingProfile,
};
use crate::text::{
    append_copies, cat3, contains, contains_str, dec_i64, dec_int, same, starts_with, views,
};

verus! {

/// Whether an encoder device `/dev/video<N>` exists.
pub fn v4l2m2m_device_exists(machine: &Machine) -> (r: bool)
    ensures
        r == has_numbered(views(machine.dev_names@), "video"@),
{
    any_numbered(&machine.dev_names, "video")
}

/// The name is that of a decoder, such as `video-cixdec0`.
pub open spec fn is_decoder_name(name: Seq<char>) -> bool {
    "video"@.is_prefix_of(name) && contains_str(name, "dec"@)
}

/// One of the names is that of a decoder.
pub open spec fn has_decoder(names: Seq<Seq<char>>) -> bool {
    exists|i: int| 0 <= i < names.len() && is_decoder_name(#[trigger] names[i])
}

/// Whether a decoder device exists.
pub fn v4l2m2m_decoder_exists(machine: &Machine) -> (r: bool)
    ensures
        r == has_decoder(views(machine.dev_names@)),
{
    let names = &machine.dev_names;
    let mut i: usize = 0;
    while i < names.len()
        invariant
            0 <= i <= names@.len(),
            *names == machine.dev_names,
            forall|j: int| 0 <= j < i ==> !is_decoder_name(#[trigger] views(names@)[j]),
        decreases names@.len() - i,
    {
        assert(views(names@)[i as int] == names@[i as int]@);
        if starts_with(names[i].as_str(), "video") && contains(names[i].as_str(), "dec") {
            return true;
        }
        i = i + 1;
    }
    false
}

/// Why the profiles cannot be used on the machine.
pub open spec fn no_v4l2(machine: Machine) -> Option<Seq<char>> {
    if has_numbered(views(machine.dev_names@), "video"@) {
        None
    } else {
        Some("No V4L2 M2M video device found in /dev"@)
    }
}

/// Checks that the machine has an encoder device.
fn check_v4l2(machine: &Machine) -> (r: Result<(), NightfallError>)
    ensures
        r is Ok <==> no_v4l2(*machine) is None,
        r matches Err(e) ==> (e matches NightfallError::ProfileNotSupported(why) && Some(why@)
            == no_v4l2(*machine)),
{
    if v4l2m2m_device_exists(machine) {
        Ok(())
    } else {
        unsupported("No V4L2 M2M video device found in /dev")
    }
}

/// How the input is decoded: in hardware where there is a decoder and the codec is H.264 or HEVC.
pub open spec fn v4l2_decode(ctx: ProfileContext, decoder: bool) -> Seq<Seq<char>> {
    if !ctx.force_software_decode && decoder && (ctx.input_ctx.codec@ == "h264"@
        || ctx.input_ctx.codec@ == "hevc"@) {
        seq!["-hwaccel"@, "v4l2m2m"@]
    } else if ctx.input_ctx.codec@ == "av1"@ {
        dav1d()
    } else {
        Seq::empty()
    }
}

/// The height of the output. Some drivers crash above 720 lines.
pub open spec fn v4l2_height(ctx: ProfileContext) -> int {
    match ctx.output_ctx.height {
        Some(h) => if h <= 720 {
            h as int
        } else {
            720
        },
        None => 720,
    }
}

/// The arguments of the V4L2 profiles. The encoders need an explicit pixel format and a width that is
/// a multiple of 16.
pub open spec fn v4l2_args(
    ctx: ProfileContext,
    decoder: bool,
    encoder: Seq<char>,
    tagged: bool,
    discont: Seq<Seq<char>>,
) -> Seq<Seq<char>> {
    v4l2_decode(ctx, decoder) + seq!["-y"@] + input(ctx, encoder) + given(tagged, hvc1()) + seq![
        "-vf"@,
        "scale=trunc(oh*a/16)*16:"@ + dec_int(v4l2_height(ctx)) + ",format=nv12"@,
    ] + rate(ctx, "-b:v"@) + given(true, seq!["-start_at_zero"@]) + pace() + key_frames() + discont
        + hls(ctx) + hls_flags("independent_segments+temp_file"@) + segments(ctx)
        + forced_key_frames(ctx) + output(ctx)
}

/// Builds the arguments of the V4L2 profiles.
fn build_v4l2_args(
    ctx: &ProfileContext,
    decoder: bool,
    encoder: &str,
    tagged: bool,
    discont_flags: &Vec<String>,
) -> (r: Vec<String>)
    requires
        seekable(*ctx),
    ensures
        views(r@) == v4l2_args(*ctx, decoder, encoder@, tagged, views(discont_flags@)),
{
    let mut args: Vec<String> = Vec::new();
    let codec = ctx.input_ctx.codec.as_str();
    if !ctx.force_software_decode && decoder && (same(codec, "h264") || same(codec, "hevc")) {
        arg2(&mut args, "-hwaccel", "v4l2m2m");
    } else if same(codec, "av1") {
        arg2(&mut args, "-c:v", "libdav1d");
    }
    assert(views(args@) =~= v4l2_decode(*ctx, decoder));
    let ghost now = views(args@);
    arg(&mut args, "-y");
    assert(views(args@) =~= now + seq!["-y"@]);
    add_input(&mut args, ctx, encoder);
    let ghost now = views(args@);
    if tagged {
        arg2(&mut args, "-tag:v", "hvc1");
    }
    assert(views(args@) =~= now + given(tagged, hvc1()));
    let height: i64 = match ctx.output_ctx.height {
        Some(h) => if h <= 720 {
            h
        } else {
            720
        },
        None => 720,
    };
    let filter = cat3("scale=trunc(oh*a/16)*16:", dec_i64(height).as_str(), ",format=nv12");
    arg2(&mut args, "-vf", filter.as_str());
    add_rate(&mut args, ctx, "-b:v");
    add_pace(&mut args, true);
    add_key_frames(&mut args);
    append_copies(&mut args, discont_flags);
    add_hls(&mut args, ctx);
    add_hls_flags(&mut args, "independent_segments+temp_file");
    add_segments(&mut args, ctx);
    add_forced_key_frames(&mut args, ctx);
    add_output(&mut args, ctx);
    args
}

/// Encodes H.264 with a V4L2 device.
#[derive(Clone, Copy, Debug, PartialEq, Eq, Structural)]
pub struct V4l2TranscodeProfile {
    /// Whether the machine has a decoder device.
    pub decoder: bool,
}

impl TranscodingProfile for V4l2TranscodeProfile {
    open spec fn spec_profile_type(&self) -> ProfileType {
        ProfileType::HardwareTranscode
    }

    open spec fn spec_stream_type(&self) -> StreamType {
        StreamType::Video
    }

    open spec fn spec_tag(&self) -> Seq<char> {
        "h264_v4l2"@
    }

    open spec fn spec_name(&self) -> Seq<char> {
        "V4l2TranscodeProfile"@
    }

    open spec fn disabled_by(&self, machine: Machine) -> Option<Seq<char>> {
        no_v4l2(machine)
    }

    open spec fn refuses(&self, ctx: ProfileContext) -> Option<Seq<char>> {
        if ctx.output_ctx.codec@ != "h264"@ {
            Some("Profile only supports h264 output streams."@)
        } else {
            None
        }
    }

    open spec fn args(&self, ctx: ProfileContext, discont: Seq<Seq<char>>) -> Seq<Seq<char>> {
        v4l2_args(ctx, self.decoder, "h264_v4l2m2m"@, false, discont)
    }

    fn profile_type(&self) -> ProfileType {
        ProfileType::HardwareTranscode
    }

    fn stream_type(&self) -> StreamType {
        StreamType::Video
    }

    fn is_enabled(&self, machine: &Machine) -> Result<(), NightfallError> {
        check_v4l2(machine)
    }

    fn build(&self, ctx: &ProfileContext, discont_flags: &Vec<String>) -> Option<Vec<String>> {
        Some(build_v4l2_args(ctx, self.decoder, "h264_v4l2m2m", false, discont_flags))
    }

    fn supports(&self, ctx: &ProfileContext) -> Result<(), NightfallError> {
        if !same(ctx.output_ctx.codec.as_str(), "h264") {
            return unsupported("Profile only supports h264 output streams.");
        }
        Ok(())
    }

    fn tag(&self) -> &'static str {
        "h264_v4l2"
    }

    fn name(&self) -> &'static str {
        "V4l2TranscodeProfile"
    }
}

/// Encodes HEVC with a V4L2 device.
#[derive(Clone, Copy, Debug, PartialEq, Eq, Structural)]
pub struct V4l2HevcTranscodeProfile {
    /// Whether the machine has a decoder device.
    pub decoder: bool,
}

impl TranscodingProfile for V4l2HevcTranscodeProfile {
    open spec fn spec_profile_type(&self) -> ProfileType {
        ProfileType::HardwareTranscode
    }

    open spec fn spec_stream_type(&self) -> StreamType {
        StreamType::Video
    }

    open spec fn spec_tag(&self) -> Seq<char> {
        "hevc_v4l2"@
    }

    open spec fn spec_name(&self) -> Seq<char> {
        "V4l2HevcTranscodeProfile"@
    }

    open spec fn disabled_by(&self, machine: Machine) -> Option<Seq<char>> {
        no_v4l2(machine)
    }

    open spec fn refuses(&self, ctx: ProfileContext) -> Option<Seq<char>> {
        if ctx.output_ctx.codec@ != "h265"@ {
            Some("Profile only supports h265 output streams."@)
        } else {
            None
        }
    }

    open spec fn args(&self, ctx: ProfileContext, discont: Seq<Seq<char>>) -> Seq<Seq<char>> {
        v4l2_args(ctx, self.decoder, "hevc_v4l2m2m"@, true, discont)
    }

    fn profile_type(&self) -> ProfileType {
        ProfileType::HardwareTranscode
    }

    fn stream_type(&self) -> StreamType {
        StreamType::Video
    }

    fn is_enabled(&self, machine: &Machine) -> Result<(), NightfallError> {
        check_v4l2(machine)
    }

    fn build(&self, ctx: &ProfileContext, discont_flags: &Vec<String>) -> Option<Vec<String>> {
        Some(build_v4l2_args(ctx, self.decoder, "hevc_v4l2m2m", true, discont_flags))
    }

    fn supports(&self, ctx: &ProfileContext) -> Result<(), NightfallError> {
        if !same(ctx.output_ctx.codec.as_str(), "h265") {
            return unsupported("Profile only supports h265 output streams.");
        }
        Ok(())
    }

    fn tag(&self) -> &'static str {
        "hevc_v4l2"
    }

    fn name(&self) -> &'static str {
        "V4l2HevcTranscodeProfile"
    }
}

}
