//! The groups of arguments that command lines are made of.

use vstd::prelude::*;

use crate::profiles::context::{seekable, ProfileContext};
use crate::text::{cat, cat3, dec, dec_i64, dec_int, dec_u64, push_copy, views};

verus! {

/// Adds one argument.
pub fn arg(args: &mut Vec<String>, s: &str)
    ensures
        views(final(args)@) == views(old(args)@).push(s@),
{
    push_copy(args, s);
}

/// Adds an argument and its value.
pub fn arg2(args: &mut Vec<String>, a: &str, b: &str)
    ensures
        views(final(args)@) == views(old(args)@) + seq![a@, b@],
{
    let ghost before = views(args@);
    arg(args, a);
    arg(args, b);
    assert(views(args@) =~= before + seq![a@, b@]);
}

/// Seek to the first segment, read one stream of the file, encode it.
pub open spec fn input(ctx: ProfileContext, encoder: Seq<char>) -> Seq<Seq<char>> {
    seq![
        "-ss"@,
        dec((ctx.output_ctx.start_num * ctx.output_ctx.target_gop) as nat),
        "-i"@,
        ctx.file@,
        "-copyts"@,
        "-map"@,
        "0:"@ + dec(ctx.input_ctx.stream as nat),
        "-c:0"@,
        encoder,
    ]
}

/// The arguments of [`input`].
pub fn add_input(args: &mut Vec<String>, ctx: &ProfileContext, encoder: &str)
    requires
        seekable(*ctx),
    ensures
        views(final(args)@) == views(old(args)@) + input(*ctx, encoder@),
{
    let ghost before = views(args@);
    proof {
        assert(ctx.output_ctx.start_num * ctx.output_ctx.target_gop >= 0) by (nonlinear_arith)
            requires
                ctx.output_ctx.start_num >= 0,
                ctx.output_ctx.target_gop >= 0,
        ;
    }
    let at: u32 = ctx.output_ctx.start_num * ctx.output_ctx.target_gop;
    arg2(args, "-ss", dec_u64(at as u64).as_str());
    arg2(args, "-i", ctx.file.as_str());
    arg(args, "-copyts");
    arg2(args, "-map", cat("0:", dec_u64(ctx.input_ctx.stream as u64).as_str()).as_str());
    arg2(args, "-c:0", encoder);
    assert(views(args@) =~= before + input(*ctx, encoder@));
}

/// Decode AV1 in software with dav1d.
pub open spec fn dav1d() -> Seq<Seq<char>> {
    seq!["-c:v"@, "libdav1d"@]
}

/// The tag under which players know HEVC in MP4.
pub open spec fn hvc1() -> Seq<Seq<char>> {
    seq!["-tag:v"@, "hvc1"@]
}

/// No B-frames.
pub open spec fn no_bframes() -> Seq<Seq<char>> {
    seq!["-bf"@, "0"@]
}

/// The arguments where a condition holds, none otherwise.
pub open spec fn given(condition: bool, args: Seq<Seq<char>>) -> Seq<Seq<char>> {
    if condition {
        args
    } else {
        Seq::empty()
    }
}

/// The bitrate, where one is asked for.
pub open spec fn rate(ctx: ProfileContext, flag: Seq<char>) -> Seq<Seq<char>> {
    match ctx.output_ctx.bitrate {
        Some(bitrate) => seq![flag, dec(bitrate as nat)],
        None => Seq::empty(),
    }
}

/// The arguments of [`rate`].
pub fn add_rate(args: &mut Vec<String>, ctx: &ProfileContext, flag: &str)
    ensures
        views(final(args)@) == views(old(args)@) + rate(*ctx, flag@),
{
    let ghost before = views(args@);
    if let Some(bitrate) = ctx.output_ctx.bitrate {
        arg2(args, flag, dec_u64(bitrate).as_str());
    } else {
        assert(before + rate(*ctx, flag@) =~= before);
    }
}

/// `width:height`, where a missing width is `-2` or the like: what keeps the aspect ratio.
pub open spec fn size_of(ctx: ProfileContext, keep: int) -> Seq<char> {
    dec_int(
        match ctx.output_ctx.width {
            Some(width) => width as int,
            None => keep,
        },
    ) + ":"@ + dec_int(ctx.output_ctx.height->0 as int)
}

/// The text of [`size_of`].
pub fn size_text(ctx: &ProfileContext, keep: i64) -> (r: String)
    requires
        ctx.output_ctx.height is Some,
    ensures
        r@ == size_of(*ctx, keep as int),
{
    let width: i64 = match ctx.output_ctx.width {
        Some(width) => width,
        None => keep,
    };
    let height: i64 = match ctx.output_ctx.height {
        Some(height) => height,
        None => 0,
    };
    cat3(dec_i64(width).as_str(), ":", dec_i64(height).as_str())
}

/// Keep the frames' timing.
pub open spec fn pace() -> Seq<Seq<char>> {
    seq![
        "-fps_mode"@,
        "passthrough"@,
        "-avoid_negative_ts"@,
        "disabled"@,
        "-max_muxing_queue_size"@,
        "2048"@,
    ]
}

/// The arguments of [`pace`], after `-start_at_zero` where that is asked for.
pub fn add_pace(args: &mut Vec<String>, at_zero: bool)
    ensures
        views(final(args)@) == views(old(args)@) + given(at_zero, seq!["-start_at_zero"@]) + pace(),
{
    let ghost before = views(args@);
    if at_zero {
        arg(args, "-start_at_zero");
        assert(views(args@) =~= before + given(at_zero, seq!["-start_at_zero"@]));
    } else {
        assert(views(args@) =~= before + given(at_zero, seq!["-start_at_zero"@]));
    }
    let ghost now = views(args@);
    arg2(args, "-fps_mode", "passthrough");
    arg2(args, "-avoid_negative_ts", "disabled");
    arg2(args, "-max_muxing_queue_size", "2048");
    assert(views(args@) =~= now + pace());
}

/// Regular key frames and fragments.
pub open spec fn key_frames() -> Seq<Seq<char>> {
    seq!["-keyint_min"@, "120"@, "-g"@, "120"@, "-frag_duration"@, "5000000"@]
}

/// The arguments of [`key_frames`].
pub fn add_key_frames(args: &mut Vec<String>)
    ensures
        views(final(args)@) == views(old(args)@) + key_frames(),
{
    let ghost before = views(args@);
    arg2(args, "-keyint_min", "120");
    arg2(args, "-g", "120");
    arg2(args, "-frag_duration", "5000000");
    assert(views(args@) =~= before + key_frames());
}

/// Write numbered HLS segments.
pub open spec fn hls(ctx: ProfileContext) -> Seq<Seq<char>> {
    seq!["-f"@, "hls"@, "-start_number"@, dec(ctx.output_ctx.start_num as nat)]
}

/// The arguments of [`hls`].
pub fn add_hls(args: &mut Vec<String>, ctx: &ProfileContext)
    ensures
        views(final(args)@) == views(old(args)@) + hls(*ctx),
{
    let ghost before = views(args@);
    arg2(args, "-f", "hls");
    arg2(args, "-start_number", dec_u64(ctx.output_ctx.start_num as u64).as_str());
    assert(views(args@) =~= before + hls(*ctx));
}

/// The flags of the HLS muxer. With `temp_file` a segment gets its name once it is complete.
pub open spec fn hls_flags(flags: Seq<char>) -> Seq<Seq<char>> {
    seq!["-hls_flags"@, flags, "-max_delay"@, "5000000"@]
}

/// The arguments of [`hls_flags`].
pub fn add_hls_flags(args: &mut Vec<String>, flags: &str)
    ensures
        views(final(args)@) == views(old(args)@) + hls_flags(flags@),
{
    let ghost before = views(args@);
    arg2(args, "-hls_flags", flags);
    arg2(args, "-max_delay", "5000000");
    assert(views(args@) =~= before + hls_flags(flags@));
}

/// The name of the init segment and the length of the others.
pub open spec fn segments(ctx: ProfileContext) -> Seq<Seq<char>> {
    seq![
        "-hls_fmp4_init_filename"@,
        dec(ctx.output_ctx.start_num as nat) + "_init.mp4"@,
        "-hls_time"@,
        dec(ctx.output_ctx.target_gop as nat),
    ]
}

/// The arguments of [`segments`].
pub fn add_segments(args: &mut Vec<String>, ctx: &ProfileContext)
    ensures
        views(final(args)@) == views(old(args)@) + segments(*ctx),
{
    let ghost before = views(args@);
    let name = cat(dec_u64(ctx.output_ctx.start_num as u64).as_str(), "_init.mp4");
    arg2(args, "-hls_fmp4_init_filename", name.as_str());
    arg2(args, "-hls_time", dec_u64(ctx.output_ctx.target_gop as u64).as_str());
    assert(views(args@) =~= before + segments(*ctx));
}

/// A key frame at the start of every segment.
pub open spec fn forced_key_frames(ctx: ProfileContext) -> Seq<Seq<char>> {
    seq![
        "-force_key_frames"@,
        "expr:gte(t,n_forced*"@ + dec(ctx.output_ctx.target_gop as nat) + ")"@,
    ]
}

/// The arguments of [`forced_key_frames`].
pub fn add_forced_key_frames(args: &mut Vec<String>, ctx: &ProfileContext)
    ensures
        views(final(args)@) == views(old(args)@) + forced_key_frames(*ctx),
{
    let when = cat3(
        "expr:gte(t,n_forced*",
        dec_u64(ctx.output_ctx.target_gop as u64).as_str(),
        ")",
    );
    arg2(args, "-force_key_frames", when.as_str());
}

/// Where everything goes.
pub open spec fn output(ctx: ProfileContext) -> Seq<Seq<char>> {
    seq![
        "-hls_segment_type"@,
        "1"@,
        "-loglevel"@,
        "info"@,
        "-progress"@,
        "pipe:1"@,
        "-hls_segment_filename"@,
        ctx.output_ctx.outdir@ + "/%d.m4s"@,
        ctx.output_ctx.outdir@ + "/playlist.m3u8"@,
    ]
}

/// The arguments of [`output`].
pub fn add_output(args: &mut Vec<String>, ctx: &ProfileContext)
    ensures
        views(final(args)@) == views(old(args)@) + output(*ctx),
{
    let ghost before = views(args@);
    arg2(args, "-hls_segment_type", "1");
    arg2(args, "-loglevel", "info");
    arg2(args, "-progress", "pipe:1");
    let outdir = ctx.output_ctx.outdir.as_str();
    arg2(args, "-hls_segment_filename", cat(outdir, "/%d.m4s").as_str());
    arg(args, cat(outdir, "/playlist.m3u8").as_str());
    assert(views(args@) =~= before + output(*ctx));
}

}
