//! VP9 as it is, in fragmented MP4.

use vstd::prelude::*;

use crate::profiles::args::{
    add_forced_key_frames, add_hls, add_hls_flags, add_input, add_output, add_pace, add_segments,
    arg, arg2, forced_key_frames, given, hls, hls_flags, input, output, pace, segments,
};
use crate::profiles::context::{
    seekable, unsupported, Machine, NightfallError, ProfileContext, ProfileType, StreamType,
    TranscodingProfile,
};
use crate::text::{append_copies, same, views};

verus! {

/// Why a stream cannot be copied: it is to be resized, or the codecs are not these.
pub open spec fn copy_refuses(
    ctx: ProfileContext,
    codec_in: Seq<char>,
    codec_out: Seq<char>,
    why: Seq<char>,
) -> Option<Seq<char>> {
    if ctx.output_ctx.height is Some || ctx.output_ctx.width is Some || ctx.output_ctx.bitrate is Some {
        Some("Transmuxed streams cannot be resized."@)
    } else if ctx.input_ctx.codec@ == codec_in && ctx.output_ctx.codec@ == codec_out {
        None
    } else {
        Some(why)
    }
}

/// Checks that a stream can be copied.
pub fn check_copy(ctx: &ProfileContext, codec_in: &str, codec_out: &str, why: &str) -> (r: Result<
    (),
    NightfallError,
>)
    ensures
        r is Ok <==> copy_refuses(*ctx, codec_in@, codec_out@, why@) is None,
        r matches Err(e) ==> (e matches NightfallError::ProfileNotSupported(w) && Some(w@)
            == copy_refuses(*ctx, codec_in@, codec_out@, why@)),
{
    if ctx.output_ctx.height.is_some() || ctx.output_ctx.width.is_some()
        || ctx.output_ctx.bitrate.is_some() {
        return unsupported("Transmuxed streams cannot be resized.");
    }
    if same(ctx.input_ctx.codec.as_str(), codec_in) && same(
        ctx.output_ctx.codec.as_str(),
        codec_out,
    ) {
        return Ok(());
    }
    unsupported(why)
}

/// The arguments for copying a stream.
pub open spec fn copy_args(ctx: ProfileContext, tagged: bool, discont: Seq<Seq<char>>) -> Seq<
    Seq<char>,
> {
    seq!["-y"@] + input(ctx, "copy"@) + given(tagged, crate::profiles::args::hvc1()) + given(
        true,
        seq!["-start_at_zero"@],
    ) + pace() + hls(ctx) + hls_flags("temp_file"@) + segments(ctx) + discont + forced_key_frames(
        ctx,
    ) + output(ctx)
}

/// Builds the arguments for copying a stream.
pub fn build_copy_args(ctx: &ProfileContext, tagged: bool, discont_flags: &Vec<String>) -> (r: Vec<
    String,
>)
    requires
        seekable(*ctx),
    ensures
        views(r@) == copy_args(*ctx, tagged, views(discont_flags@)),
{
    let mut args: Vec<String> = Vec::new();
    arg(&mut args, "-y");
    assert(views(args@) =~= seq!["-y"@]);
    add_input(&mut args, ctx, "copy");
    let ghost now = views(args@);
    if tagged {
        arg2(&mut args, "-tag:v", "hvc1");
    }
    assert(views(args@) =~= now + given(tagged, crate::profiles::args::hvc1()));
    add_pace(&mut args, true);
    add_hls(&mut args, ctx);
    add_hls_flags(&mut args, "temp_file");
    add_segments(&mut args, ctx);
    append_copies(&mut args, discont_flags);
    add_forced_key_frames(&mut args, ctx);
    add_output(&mut args, ctx);
    args
}

/// Copies VP9 into fragmented MP4, which browsers play.
#[derive(Clone, Copy, Debug, PartialEq, Eq, Structural)]
pub struct Vp9TransmuxProfile;

impl TranscodingProfile for Vp9TransmuxProfile {
    open spec fn spec_profile_type(&self) -> ProfileType {
        ProfileType::Transmux
    }

    open spec fn spec_stream_type(&self) -> StreamType {
        StreamType::Video
    }

    open spec fn spec_tag(&self) -> Seq<char> {
        "vp9_copy"@
    }

    open spec fn spec_name(&self) -> Seq<char> {
        "Vp9TransmuxProfile"@
    }

    open spec fn disabled_by(&self, machine: Machine) -> Option<Seq<char>> {
        None
    }

    open spec fn refuses(&self, ctx: ProfileContext) -> Option<Seq<char>> {
        copy_refuses(ctx, "vp9"@, "vp9"@, "Profile only supports vp9 input and output codecs."@)
    }

    open spec fn args(&self, ctx: ProfileContext, discont: Seq<Seq<char>>) -> Seq<Seq<char>> {
        copy_args(ctx, false, discont)
    }

    fn profile_type(&self) -> ProfileType {
        ProfileType::Transmux
    }

    fn stream_type(&self) -> StreamType {
        StreamType::Video
    }

    fn is_enabled(&self, machine: &Machine) -> Result<(), NightfallError> {
        Ok(())
    }

    fn build(&self, ctx: &ProfileContext, discont_flags: &Vec<String>) -> Option<Vec<String>> {
        Some(build_copy_args(ctx, false, discont_flags))
    }

    fn supports(&self, ctx: &ProfileContext) -> Result<(), NightfallError> {
        check_copy(ctx, "vp9", "vp9", "Profile only supports vp9 input and output codecs.")
    }

    fn tag(&self) -> &'static str {
        "vp9_copy"
    }

    fn name(&self) -> &'static str {
        "Vp9TransmuxProfile"
    }
}

}
