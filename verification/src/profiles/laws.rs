//! What the profiles promise: which streams they take, and what they tell ffmpeg to do.

use vstd::prelude::*;

use crate::profiles::args::{forced_key_frames, hls, hvc1, input, output, pace, rate, segments};
use crate::profiles::amf::{amf_args, amf_filter};
use crate::profiles::context::{
    has_numbered, is_numbered, Machine, ProfileContext, ProfileType, StreamType, TranscodingProfile,
};
use crate::profiles::cuda::{cuda_args, cuda_filter};
use crate::profiles::h265::{x265_args, x265_filter, x265_settings};
use crate::profiles::qsv::{qsv_args, qsv_filter};
use crate::profiles::registry::Profile;
use crate::profiles::v4l2::{v4l2_args, v4l2_height};
use crate::profiles::vaapi::{vaapi_args, vaapi_decode, vaapi_filter, VaProfile};
use crate::profiles::vp9::copy_args;
use crate::text::{dec, dec_int, law_decimal_round_trip, views};

verus! {

/// The codec that a profile makes.
pub open spec fn makes(p: Profile) -> Seq<char> {
    match p {
        Profile::Cuda(_)
        | Profile::Vaapi(_)
        | Profile::Qsv(_)
        | Profile::V4l2(_)
        | Profile::Amf(_) => "h264"@,
        Profile::CudaAv1(_)
        | Profile::VaapiAv1(_)
        | Profile::QsvAv1(_)
        | Profile::AmfAv1(_) => "av1"@,
        Profile::Vp9Transmux(_) => "vp9"@,
        _ => "h265"@,
    }
}

/// The encoder of ffmpeg that a profile uses.
pub open spec fn encoder_of(p: Profile) -> Seq<char> {
    match p {
        Profile::HevcTransmux(_) | Profile::Vp9Transmux(_) => "copy"@,
        Profile::H265Transcode(_) => "libx265"@,
        Profile::Cuda(_) => "h264_nvenc"@,
        Profile::CudaHevc(_) => "hevc_nvenc"@,
        Profile::CudaAv1(_) => "av1_nvenc"@,
        Profile::Vaapi(_) => "h264_vaapi"@,
        Profile::VaapiHevc(_) => "hevc_vaapi"@,
        Profile::VaapiAv1(_) => "av1_vaapi"@,
        Profile::Qsv(_) => "h264_qsv"@,
        Profile::QsvHevc(_) => "hevc_qsv"@,
        Profile::QsvAv1(_) => "av1_qsv"@,
        Profile::V4l2(_) => "h264_v4l2m2m"@,
        Profile::V4l2Hevc(_) => "hevc_v4l2m2m"@,
        Profile::Amf(_) => "h264_amf"@,
        Profile::AmfHevc(_) => "hevc_amf"@,
        Profile::AmfAv1(_) => "av1_amf"@,
    }
}

/// A profile that copies a stream.
pub open spec fn copies(p: Profile) -> bool {
    p is HevcTransmux || p is Vp9Transmux
}

/// A profile takes a stream only if it is asked for the codec that it makes.
pub proof fn law_profiles_make_one_codec(p: Profile, ctx: ProfileContext)
    ensures
        p.refuses(ctx) is None ==> ctx.output_ctx.codec@ == makes(p),
{
}

/// The NVIDIA profiles take exactly the streams that NVDEC decodes, and any where software decodes.
pub proof fn law_nvdec_codecs(p: Profile, ctx: ProfileContext)
    requires
        p is Cuda || p is CudaHevc || p is CudaAv1,
        ctx.output_ctx.codec@ == makes(p),
    ensures
        p.refuses(ctx) is None <==> ctx.force_software_decode || seq![
            "h264"@,
            "hevc"@,
            "av1"@,
            "vp8"@,
            "vp9"@,
            "mpeg1video"@,
            "mpeg2video"@,
            "mpeg4"@,
            "vc1"@,
            "mjpeg"@,
        ].contains(ctx.input_ctx.codec@),
{
    let all = seq![
        "h264"@,
        "hevc"@,
        "av1"@,
        "vp8"@,
        "vp9"@,
        "mpeg1video"@,
        "mpeg2video"@,
        "mpeg4"@,
        "vc1"@,
        "mjpeg"@,
    ];
    assert(all[0] == "h264"@ && all[1] == "hevc"@ && all[2] == "av1"@ && all[3] == "vp8"@ && all[4]
        == "vp9"@);
    assert(all[5] == "mpeg1video"@ && all[6] == "mpeg2video"@ && all[7] == "mpeg4"@ && all[8]
        == "vc1"@ && all[9] == "mjpeg"@);
}

/// The Quick Sync profiles take exactly the streams that Quick Sync decodes, and any where software decodes.
pub proof fn law_quick_sync_codecs(p: Profile, ctx: ProfileContext)
    requires
        p is Qsv || p is QsvHevc || p is QsvAv1,
        ctx.output_ctx.codec@ == makes(p),
    ensures
        p.refuses(ctx) is None <==> ctx.force_software_decode || seq![
            "h264"@,
            "hevc"@,
            "av1"@,
            "vp8"@,
            "vp9"@,
            "mpeg2video"@,
            "vc1"@,
            "mjpeg"@,
        ].contains(ctx.input_ctx.codec@),
{
    let all = seq![
        "h264"@,
        "hevc"@,
        "av1"@,
        "vp8"@,
        "vp9"@,
        "mpeg2video"@,
        "vc1"@,
        "mjpeg"@,
    ];
    assert(all[0] == "h264"@ && all[1] == "hevc"@ && all[2] == "av1"@ && all[3] == "vp8"@);
    assert(all[4] == "vp9"@ && all[5] == "mpeg2video"@ && all[6] == "vc1"@ && all[7] == "mjpeg"@);
}

/// The V4L2 profiles, the AMF profiles and the software encoder take any stream, for the codec they make.
pub proof fn law_other_encoders_take_any_stream(p: Profile, ctx: ProfileContext)
    requires
        p is V4l2 || p is V4l2Hevc || p is Amf || p is AmfHevc || p is AmfAv1 || p is H265Transcode,
    ensures
        p.refuses(ctx) is None <==> ctx.output_ctx.codec@ == makes(p),
{
}

/// A stream is copied exactly if it has the codec already, and is to keep its size and bitrate.
pub proof fn law_only_unchanged_streams_are_copied(p: Profile, ctx: ProfileContext)
    requires
        copies(p),
    ensures
        p.refuses(ctx) is None <==> ctx.output_ctx.codec@ == makes(p) && ctx.output_ctx.height is None
            && ctx.output_ctx.width is None && ctx.output_ctx.bitrate is None && ctx.input_ctx.codec@
            == if p is Vp9Transmux {
            "vp9"@
        } else {
            "hevc"@
        },
{
}

/// The codecs and profiles of streams that VAAPI decodes, with the names of its profiles.
pub open spec fn va_table() -> Seq<(Seq<char>, Seq<char>, Seq<char>)> {
    seq![
        ("h264"@, "High"@, "VAProfileH264High"@),
        ("h264"@, "Main"@, "VAProfileH264Main"@),
        ("h264"@, "Baseline"@, "VAProfileH264Baseline"@),
        ("h264"@, "Constrained Baseline"@, "VAProfileH264ConstrainedBaseline"@),
        ("hevc"@, "Main"@, "VAProfileHEVCMain"@),
        ("hevc"@, "Main 10"@, "VAProfileHEVCMain10"@),
        ("vp9"@, "Profile 0"@, "VAProfileVP9Profile0"@),
    ]
}

/// The VAAPI profiles take exactly the streams that their device decodes, and any where software decodes. A
/// device decodes a stream if one of its profiles, with an entrypoint for decoding, is for the codec and the
/// profile of the stream; AV1 is decoded whatever its profile.
pub proof fn law_vaapi_streams(p: Profile, ctx: ProfileContext, profiles: Seq<VaProfile>)
    requires
        match p {
            Profile::Vaapi(v) => profiles == v.device.profiles@,
            Profile::VaapiHevc(v) => profiles == v.device.profiles@,
            Profile::VaapiAv1(v) => profiles == v.device.profiles@,
            _ => false,
        },
        ctx.output_ctx.codec@ == makes(p),
    ensures
        p.refuses(ctx) is None <==> ctx.force_software_decode || exists|i: int|
            0 <= i < profiles.len() && views((#[trigger] profiles[i]).entrypoints@).contains(
                "VAEntrypointVLD"@,
            ) && (va_table().contains(
                (ctx.input_ctx.codec@, ctx.input_ctx.profile@, profiles[i].name@),
            ) || (ctx.input_ctx.codec@ == "av1"@ && profiles[i].name@ == "VAProfileAV1Profile0"@)),
{
    let t = va_table();
    let c = ctx.input_ctx.codec@;
    let q = ctx.input_ctx.profile@;
    reveal_strlit("h264");
    reveal_strlit("hevc");
    reveal_strlit("av1");
    reveal_strlit("vp9");
    reveal_strlit("High");
    reveal_strlit("Main");
    reveal_strlit("Baseline");
    reveal_strlit("Constrained Baseline");
    reveal_strlit("Main 10");
    reveal_strlit("Profile 0");
    assert("h264"@.len() == 4 && "h264"@[1] == '2' && "hevc"@.len() == 4 && "hevc"@[1] == 'e');
    assert("av1"@.len() == 3 && "av1"@[0] == 'a' && "vp9"@.len() == 3 && "vp9"@[0] == 'v');
    assert("High"@.len() == 4 && "High"@[0] == 'H' && "Main"@.len() == 4 && "Main"@[0] == 'M');
    assert("Baseline"@.len() == 8 && "Constrained Baseline"@.len() == 20 && "Main 10"@.len() == 7);
    assert(t[0] == ("h264"@, "High"@, "VAProfileH264High"@));
    assert(t[1] == ("h264"@, "Main"@, "VAProfileH264Main"@));
    assert(t[2] == ("h264"@, "Baseline"@, "VAProfileH264Baseline"@));
    assert(t[3] == ("h264"@, "Constrained Baseline"@, "VAProfileH264ConstrainedBaseline"@));
    assert(t[4] == ("hevc"@, "Main"@, "VAProfileHEVCMain"@));
    assert(t[5] == ("hevc"@, "Main 10"@, "VAProfileHEVCMain10"@));
    assert(t[6] == ("vp9"@, "Profile 0"@, "VAProfileVP9Profile0"@));
    assert forall|name: Seq<char>| #[trigger] t.contains((c, q, name)) implies exists|k: int|
        0 <= k < 7 && #[trigger] t[k] == (c, q, name) by {
        let k = choose|k: int| 0 <= k < t.len() && t[k] == (c, q, name);
        assert(t[k] == (c, q, name));
    }
}

/// Copying, software encoding and AMF need nothing of the machine. NVIDIA and V4L2 need a device with a
/// number: any that is there will do, and without a name that begins so there is none.
pub proof fn law_hardware_needs_its_device(p: Profile, machine: Machine, n: u32)
    ensures
        copies(p) || p is H265Transcode || p is Amf || p is AmfHevc || p is AmfAv1 ==> p.disabled_by(
            machine,
        ) is None,
        p is Cuda || p is CudaHevc || p is CudaAv1 ==> {
            &&& views(machine.dev_names@).contains("nvidia"@ + dec(n as nat)) ==> p.disabled_by(
                machine,
            ) is None
            &&& (forall|i: int|
                0 <= i < machine.dev_names@.len() ==> !"nvidia"@.is_prefix_of(
                    (#[trigger] machine.dev_names@[i])@,
                )) ==> p.disabled_by(machine) is Some
        },
        p is V4l2 || p is V4l2Hevc ==> {
            &&& views(machine.dev_names@).contains("video"@ + dec(n as nat)) ==> p.disabled_by(
                machine,
            ) is None
            &&& (forall|i: int|
                0 <= i < machine.dev_names@.len() ==> !"video"@.is_prefix_of(
                    (#[trigger] machine.dev_names@[i])@,
                )) ==> p.disabled_by(machine) is Some
        },
        p is Qsv || p is QsvHevc || p is QsvAv1 ==> {
            &&& machine.macos ==> p.disabled_by(machine) is Some
            &&& !machine.macos && !machine.linux ==> p.disabled_by(machine) is None
            &&& !machine.macos && machine.linux ==> (p.disabled_by(machine) is None <==> exists|i: int|
                0 <= i < machine.dri_names@.len() && "renderD"@.is_prefix_of(
                    (#[trigger] machine.dri_names@[i])@,
                ))
        },
{
    lemma_numbered_device(machine, "nvidia"@, n);
    lemma_numbered_device(machine, "video"@, n);
    let dri = views(machine.dri_names@);
    assert forall|i: int| 0 <= i < machine.dri_names@.len() implies #[trigger] dri[i]
        == machine.dri_names@[i]@ by {}
    if exists|i: int|
        0 <= i < machine.dri_names@.len() && "renderD"@.is_prefix_of(
            (#[trigger] machine.dri_names@[i])@,
        ) {
        let i = choose|i: int|
            0 <= i < machine.dri_names@.len() && "renderD"@.is_prefix_of(
                (#[trigger] machine.dri_names@[i])@,
            );
        assert("renderD"@.is_prefix_of(dri[i]));
    }
}

proof fn lemma_numbered_device(machine: Machine, prefix: Seq<char>, n: u32)
    ensures
        views(machine.dev_names@).contains(prefix + dec(n as nat)) ==> has_numbered(
            views(machine.dev_names@),
            prefix,
        ),
        (forall|i: int|
            0 <= i < machine.dev_names@.len() ==> !prefix.is_prefix_of(
                (#[trigger] machine.dev_names@[i])@,
            )) ==> !has_numbered(views(machine.dev_names@), prefix),
{
    let names = views(machine.dev_names@);
    assert forall|i: int| 0 <= i < names.len() implies #[trigger] names[i]
        == machine.dev_names@[i]@ by {}
    if names.contains(prefix + dec(n as nat)) {
        let i = choose|i: int| 0 <= i < names.len() && names[i] == prefix + dec(n as nat);
        let name = names[i];
        assert(name.subrange(prefix.len() as int, name.len() as int) =~= dec(n as nat));
        law_decimal_round_trip(n as u64);
        assert(prefix.is_prefix_of(name));
        assert(is_numbered(names[i], prefix));
    }
    if has_numbered(names, prefix) {
        let i = choose|i: int| 0 <= i < names.len() && is_numbered(#[trigger] names[i], prefix);
        assert(prefix.is_prefix_of(machine.dev_names@[i]@));
    }
}

/// All profiles are for video. Two copy, one encodes in software, and the others use hardware.
pub proof fn law_profiles_have_their_type(p: Profile)
    ensures
        p.spec_stream_type() == StreamType::Video,
        p.spec_profile_type() == ProfileType::Transmux <==> copies(p),
        p.spec_profile_type() == ProfileType::Transcode <==> p is H265Transcode,
{
}

/// `a` stands in the list, and `b` right after it.
pub open spec fn has_pair(list: Seq<Seq<char>>, a: Seq<char>, b: Seq<char>) -> bool {
    exists|i: int| 0 <= i < list.len() - 1 && #[trigger] list[i] == a && list[i + 1] == b
}

/// The list holds all of `part`, in one piece.
#[verifier::opaque]
pub open spec fn has_part(list: Seq<Seq<char>>, part: Seq<Seq<char>>) -> bool {
    exists|i: int|
        0 <= i <= list.len() - part.len() && #[trigger] list.subrange(i, i + part.len()) == part
}

proof fn lemma_pair_in_part(
    list: Seq<Seq<char>>,
    part: Seq<Seq<char>>,
    x: Seq<char>,
    y: Seq<char>,
)
    requires
        has_part(list, part),
        has_pair(part, x, y),
    ensures
        has_pair(list, x, y),
{
    reveal(has_part);
    let i = choose|i: int|
        0 <= i <= list.len() - part.len() && #[trigger] list.subrange(i, i + part.len()) == part;
    let j = choose|j: int| 0 <= j < part.len() - 1 && #[trigger] part[j] == x && part[j + 1] == y;
    let s = list.subrange(i, i + part.len());
    assert(s[j] == list[i + j] && s[j + 1] == list[i + j + 1]);
}

broadcast proof fn lemma_part_in_sum(a: Seq<Seq<char>>, b: Seq<Seq<char>>, part: Seq<Seq<char>>)
    ensures
        has_part(a, part) || has_part(b, part) ==> #[trigger] has_part(a + b, part),
{
    reveal(has_part);
    if has_part(a, part) {
        let i = choose|i: int|
            0 <= i <= a.len() - part.len() && #[trigger] a.subrange(i, i + part.len()) == part;
        assert((a + b).subrange(i, i + part.len()) =~= part) by {
            assert(a.subrange(i, i + part.len()) == part);
        }
    }
    if has_part(b, part) {
        let i = choose|i: int|
            0 <= i <= b.len() - part.len() && #[trigger] b.subrange(i, i + part.len()) == part;
        let j = a.len() + i;
        assert((a + b).subrange(j, j + part.len()) =~= b.subrange(i, i + part.len()));
    }
}

proof fn lemma_whole(part: Seq<Seq<char>>)
    ensures
        has_part(part, part),
{
    reveal(has_part);
    assert(part.subrange(0, 0int + part.len()) =~= part);
}

/// The list has all groups of arguments that command lines share.
pub open spec fn is_line(
    list: Seq<Seq<char>>,
    ctx: ProfileContext,
    encoder: Seq<char>,
    discont: Seq<Seq<char>>,
) -> bool {
    &&& has_part(list, input(ctx, encoder))
    &&& has_part(list, pace())
    &&& has_part(list, hls(ctx))
    &&& has_part(list, segments(ctx))
    &&& has_part(list, forced_key_frames(ctx))
    &&& has_part(list, output(ctx))
    &&& has_part(list, discont)
    &&& list.len() > 0
    &&& list[list.len() - 1] == output(ctx)[output(ctx).len() - 1]
}

#[verifier::spinoff_prover]
proof fn lemma_cuda_parts(
    ctx: ProfileContext,
    encoder: Seq<char>,
    tagged: bool,
    discont: Seq<Seq<char>>,
)
    ensures
        is_line(cuda_args(ctx, encoder, tagged, discont), ctx, encoder, discont),
        has_part(cuda_args(ctx, encoder, tagged, discont), rate(ctx, "-b:v"@)),
        tagged ==> has_part(cuda_args(ctx, encoder, tagged, discont), hvc1()),
{
    broadcast use lemma_part_in_sum;

    lemma_whole(input(ctx, encoder));
    lemma_whole(pace());
    lemma_whole(hls(ctx));
    lemma_whole(segments(ctx));
    lemma_whole(forced_key_frames(ctx));
    lemma_whole(output(ctx));
    lemma_whole(discont);
    lemma_whole(hvc1());
    lemma_whole(rate(ctx, "-b:v"@));
}

#[verifier::spinoff_prover]
proof fn lemma_qsv_parts(
    ctx: ProfileContext,
    encoder: Seq<char>,
    tag: Option<Seq<char>>,
    discont: Seq<Seq<char>>,
)
    ensures
        is_line(qsv_args(ctx, encoder, tag, discont), ctx, encoder, discont),
        has_part(qsv_args(ctx, encoder, tag, discont), rate(ctx, "-b:v"@)),
        tag matches Some(t) ==> has_part(qsv_args(ctx, encoder, tag, discont), seq!["-tag:v"@, t]),
{
    broadcast use lemma_part_in_sum;

    lemma_whole(input(ctx, encoder));
    lemma_whole(pace());
    lemma_whole(hls(ctx));
    lemma_whole(segments(ctx));
    lemma_whole(forced_key_frames(ctx));
    lemma_whole(output(ctx));
    lemma_whole(discont);
    lemma_whole(seq!["-tag:v"@, tag->0]);
    lemma_whole(rate(ctx, "-b:v"@));
}

#[verifier::spinoff_prover]
proof fn lemma_vaapi_parts(
    ctx: ProfileContext,
    dri: Seq<char>,
    encoder: Seq<char>,
    tagged: bool,
    hw_scaling: bool,
    flag: Seq<char>,
    discont: Seq<Seq<char>>,
)
    ensures
        is_line(vaapi_args(ctx, dri, encoder, tagged, hw_scaling, flag, discont), ctx, encoder, discont),
        has_part(vaapi_args(ctx, dri, encoder, tagged, hw_scaling, flag, discont), rate(ctx, flag)),
        tagged ==> has_part(vaapi_args(ctx, dri, encoder, tagged, hw_scaling, flag, discont), hvc1()),
{
    broadcast use lemma_part_in_sum;

    lemma_whole(input(ctx, encoder));
    lemma_whole(pace());
    lemma_whole(hls(ctx));
    lemma_whole(segments(ctx));
    lemma_whole(forced_key_frames(ctx));
    lemma_whole(output(ctx));
    lemma_whole(discont);
    lemma_whole(hvc1());
    lemma_whole(rate(ctx, flag));
}

#[verifier::spinoff_prover]
proof fn lemma_v4l2_parts(
    ctx: ProfileContext,
    decoder: bool,
    encoder: Seq<char>,
    tagged: bool,
    discont: Seq<Seq<char>>,
)
    ensures
        is_line(v4l2_args(ctx, decoder, encoder, tagged, discont), ctx, encoder, discont),
        has_part(v4l2_args(ctx, decoder, encoder, tagged, discont), rate(ctx, "-b:v"@)),
        tagged ==> has_part(v4l2_args(ctx, decoder, encoder, tagged, discont), hvc1()),
{
    broadcast use lemma_part_in_sum;

    lemma_whole(input(ctx, encoder));
    lemma_whole(pace());
    lemma_whole(hls(ctx));
    lemma_whole(segments(ctx));
    lemma_whole(forced_key_frames(ctx));
    lemma_whole(output(ctx));
    lemma_whole(discont);
    lemma_whole(hvc1());
    lemma_whole(rate(ctx, "-b:v"@));
}

#[verifier::spinoff_prover]
proof fn lemma_amf_parts(
    ctx: ProfileContext,
    encoder: Seq<char>,
    tagged: bool,
    discont: Seq<Seq<char>>,
)
    ensures
        is_line(amf_args(ctx, encoder, tagged, discont), ctx, encoder, discont),
        has_part(amf_args(ctx, encoder, tagged, discont), rate(ctx, "-b:v"@)),
        tagged ==> has_part(amf_args(ctx, encoder, tagged, discont), hvc1()),
{
    broadcast use lemma_part_in_sum;

    lemma_whole(input(ctx, encoder));
    lemma_whole(pace());
    lemma_whole(hls(ctx));
    lemma_whole(segments(ctx));
    lemma_whole(forced_key_frames(ctx));
    lemma_whole(output(ctx));
    lemma_whole(discont);
    lemma_whole(hvc1());
    lemma_whole(rate(ctx, "-b:v"@));
}

#[verifier::spinoff_prover]
proof fn lemma_copy_parts(
    ctx: ProfileContext,
    tagged: bool,
    discont: Seq<Seq<char>>,
)
    ensures
        is_line(copy_args(ctx, tagged, discont), ctx, "copy"@, discont),
        tagged ==> has_part(copy_args(ctx, tagged, discont), hvc1()),
{
    broadcast use lemma_part_in_sum;

    lemma_whole(input(ctx, "copy"@));
    lemma_whole(pace());
    lemma_whole(hls(ctx));
    lemma_whole(segments(ctx));
    lemma_whole(forced_key_frames(ctx));
    lemma_whole(output(ctx));
    lemma_whole(discont);
    lemma_whole(hvc1());
}

#[verifier::spinoff_prover]
proof fn lemma_x265_parts(
    ctx: ProfileContext,
    discont: Seq<Seq<char>>,
)
    ensures
        is_line(x265_args(ctx, discont), ctx, "libx265"@, discont),
        has_part(x265_args(ctx, discont), rate(ctx, "-b:v"@)),
        has_part(x265_args(ctx, discont), x265_settings()),
{
    broadcast use lemma_part_in_sum;

    lemma_whole(input(ctx, "libx265"@));
    lemma_whole(pace());
    lemma_whole(hls(ctx));
    lemma_whole(segments(ctx));
    lemma_whole(forced_key_frames(ctx));
    lemma_whole(output(ctx));
    lemma_whole(discont);
    lemma_whole(x265_settings());
    lemma_whole(rate(ctx, "-b:v"@));
}

/// What the shared groups of arguments say.
proof fn lemma_groups(ctx: ProfileContext, encoder: Seq<char>)
    ensures
        has_pair(
            input(ctx, encoder),
            "-ss"@,
            dec((ctx.output_ctx.start_num * ctx.output_ctx.target_gop) as nat),
        ),
        has_pair(input(ctx, encoder), "-i"@, ctx.file@),
        has_pair(input(ctx, encoder), "-map"@, "0:"@ + dec(ctx.input_ctx.stream as nat)),
        has_pair(input(ctx, encoder), "-c:0"@, encoder),
        has_pair(hls(ctx), "-f"@, "hls"@),
        has_pair(hls(ctx), "-start_number"@, dec(ctx.output_ctx.start_num as nat)),
        has_pair(
            segments(ctx),
            "-hls_fmp4_init_filename"@,
            dec(ctx.output_ctx.start_num as nat) + "_init.mp4"@,
        ),
        has_pair(segments(ctx), "-hls_time"@, dec(ctx.output_ctx.target_gop as nat)),
        has_pair(
            forced_key_frames(ctx),
            "-force_key_frames"@,
            "expr:gte(t,n_forced*"@ + dec(ctx.output_ctx.target_gop as nat) + ")"@,
        ),
        has_pair(output(ctx), "-hls_segment_filename"@, ctx.output_ctx.outdir@ + "/%d.m4s"@),
        has_pair(output(ctx), "-progress"@, "pipe:1"@),
        has_pair(output(ctx), "-hls_segment_type"@, "1"@),
        output(ctx)[output(ctx).len() - 1] == ctx.output_ctx.outdir@ + "/playlist.m3u8"@,
        has_pair(hvc1(), "-tag:v"@, "hvc1"@),
        has_pair(pace(), "-fps_mode"@, "passthrough"@),
        ctx.output_ctx.bitrate matches Some(b) ==> has_pair(rate(ctx, "-b:v"@), "-b:v"@, dec(b as nat))
            && has_pair(rate(ctx, "-maxrate"@), "-maxrate"@, dec(b as nat)),
{
    let i = input(ctx, encoder);
    assert(i[0] == "-ss"@ && i[2] == "-i"@ && i[5] == "-map"@ && i[7] == "-c:0"@);
    assert(i[1] == dec((ctx.output_ctx.start_num * ctx.output_ctx.target_gop) as nat));
    let h = hls(ctx);
    assert(h[0] == "-f"@ && h[2] == "-start_number"@);
    let s = segments(ctx);
    assert(s[0] == "-hls_fmp4_init_filename"@ && s[2] == "-hls_time"@);
    assert(forced_key_frames(ctx)[0] == "-force_key_frames"@);
    let o = output(ctx);
    assert(o[0] == "-hls_segment_type"@ && o[4] == "-progress"@ && o[6] == "-hls_segment_filename"@);
    assert(hvc1()[0] == "-tag:v"@);
    assert(pace()[0] == "-fps_mode"@);
    if ctx.output_ctx.bitrate is Some {
        assert(rate(ctx, "-b:v"@)[0] == "-b:v"@);
        assert(rate(ctx, "-maxrate"@)[0] == "-maxrate"@);
    }
}

/// A command line reads the file from where the first segment begins, takes the stream that is asked for,
/// encodes it with the encoder of the profile, and writes numbered segments of the length that is asked for
/// and a playlist into the directory that is asked for. The flags for streams with gaps are in it.
pub proof fn law_command_lines(p: Profile, ctx: ProfileContext, discont: Seq<Seq<char>>)
    ensures
        has_pair(
            p.args(ctx, discont),
            "-ss"@,
            dec((ctx.output_ctx.start_num * ctx.output_ctx.target_gop) as nat),
        ),
        has_pair(p.args(ctx, discont), "-i"@, ctx.file@),
        has_pair(p.args(ctx, discont), "-map"@, "0:"@ + dec(ctx.input_ctx.stream as nat)),
        has_pair(p.args(ctx, discont), "-c:0"@, encoder_of(p)),
        has_pair(p.args(ctx, discont), "-f"@, "hls"@),
        has_pair(p.args(ctx, discont), "-start_number"@, dec(ctx.output_ctx.start_num as nat)),
        has_pair(
            p.args(ctx, discont),
            "-hls_fmp4_init_filename"@,
            dec(ctx.output_ctx.start_num as nat) + "_init.mp4"@,
        ),
        has_pair(p.args(ctx, discont), "-hls_time"@, dec(ctx.output_ctx.target_gop as nat)),
        has_pair(
            p.args(ctx, discont),
            "-force_key_frames"@,
            "expr:gte(t,n_forced*"@ + dec(ctx.output_ctx.target_gop as nat) + ")"@,
        ),
        has_pair(
            p.args(ctx, discont),
            "-hls_segment_filename"@,
            ctx.output_ctx.outdir@ + "/%d.m4s"@,
        ),
        has_pair(p.args(ctx, discont), "-progress"@, "pipe:1"@),
        has_pair(p.args(ctx, discont), "-hls_segment_type"@, "1"@),
        has_pair(p.args(ctx, discont), "-fps_mode"@, "passthrough"@),
        p.args(ctx, discont).len() > 0,
        p.args(ctx, discont)[p.args(ctx, discont).len() - 1] == ctx.output_ctx.outdir@
            + "/playlist.m3u8"@,
        has_part(p.args(ctx, discont), discont),
        makes(p) == "h265"@ ==> has_pair(p.args(ctx, discont), "-tag:v"@, "hvc1"@),
{
    let args = p.args(ctx, discont);
    lemma_parts(p, ctx, discont);
    lemma_groups(ctx, encoder_of(p));
    let i = input(ctx, encoder_of(p));
    lemma_pair_in_part(
        args,
        i,
        "-ss"@,
        dec((ctx.output_ctx.start_num * ctx.output_ctx.target_gop) as nat),
    );
    lemma_pair_in_part(args, i, "-i"@, ctx.file@);
    lemma_pair_in_part(args, i, "-map"@, "0:"@ + dec(ctx.input_ctx.stream as nat));
    lemma_pair_in_part(args, i, "-c:0"@, encoder_of(p));
    lemma_pair_in_part(args, hls(ctx), "-f"@, "hls"@);
    lemma_pair_in_part(args, hls(ctx), "-start_number"@, dec(ctx.output_ctx.start_num as nat));
    lemma_pair_in_part(
        args,
        segments(ctx),
        "-hls_fmp4_init_filename"@,
        dec(ctx.output_ctx.start_num as nat) + "_init.mp4"@,
    );
    lemma_pair_in_part(args, segments(ctx), "-hls_time"@, dec(ctx.output_ctx.target_gop as nat));
    lemma_pair_in_part(
        args,
        forced_key_frames(ctx),
        "-force_key_frames"@,
        "expr:gte(t,n_forced*"@ + dec(ctx.output_ctx.target_gop as nat) + ")"@,
    );
    lemma_pair_in_part(
        args,
        output(ctx),
        "-hls_segment_filename"@,
        ctx.output_ctx.outdir@ + "/%d.m4s"@,
    );
    lemma_pair_in_part(args, output(ctx), "-progress"@, "pipe:1"@);
    lemma_pair_in_part(args, output(ctx), "-hls_segment_type"@, "1"@);
    lemma_pair_in_part(args, pace(), "-fps_mode"@, "passthrough"@);
}

/// The groups of arguments in the command line of a profile.
proof fn lemma_parts(p: Profile, ctx: ProfileContext, discont: Seq<Seq<char>>)
    ensures
        is_line(p.args(ctx, discont), ctx, encoder_of(p), discont),
        makes(p) == "h265"@ ==> has_pair(p.args(ctx, discont), "-tag:v"@, "hvc1"@),
        !copies(p) ==> has_part(p.args(ctx, discont), rate(ctx, "-b:v"@)) || ((p is Vaapi
            || p is VaapiHevc) && has_part(p.args(ctx, discont), rate(ctx, "-maxrate"@))),
{
    let args = p.args(ctx, discont);
    reveal_strlit("h264");
    reveal_strlit("h265");
    reveal_strlit("av1");
    reveal_strlit("vp9");
    assert("h264"@[3] == '4' && "h265"@[3] == '5' && "av1"@.len() == 3 && "vp9"@.len() == 3
        && "h265"@.len() == 4);
    let x = x265_settings();
    assert(x[4] == "-tag:v"@ && x[5] == "hvc1"@);
    assert(has_pair(x, "-tag:v"@, "hvc1"@));
    assert(hvc1()[0] == "-tag:v"@);
    assert(has_pair(hvc1(), "-tag:v"@, "hvc1"@));
    match p {
        Profile::HevcTransmux(_) => {
            lemma_copy_parts(ctx, true, discont);
        },
        Profile::H265Transcode(_) => {
            lemma_x265_parts(ctx, discont);
            lemma_pair_in_part(args, x, "-tag:v"@, "hvc1"@);
        },
        Profile::Vp9Transmux(_) => {
            lemma_copy_parts(ctx, false, discont);
        },
        Profile::Cuda(_) => {
            lemma_cuda_parts(ctx, "h264_nvenc"@, false, discont);
        },
        Profile::CudaHevc(_) => {
            lemma_cuda_parts(ctx, "hevc_nvenc"@, true, discont);
        },
        Profile::CudaAv1(_) => {
            lemma_cuda_parts(ctx, "av1_nvenc"@, false, discont);
        },
        Profile::Vaapi(v) => {
            let flag = if v.spec_scales() {
                "-b:v"@
            } else {
                "-maxrate"@
            };
            lemma_vaapi_parts(
                ctx,
                v.device.dri@,
                "h264_vaapi"@,
                false,
                v.spec_scales(),
                flag,
                discont,
            );
        },
        Profile::VaapiHevc(v) => {
            let flag = if v.spec_scales() {
                "-b:v"@
            } else {
                "-maxrate"@
            };
            lemma_vaapi_parts(
                ctx,
                v.device.dri@,
                "hevc_vaapi"@,
                true,
                v.spec_scales(),
                flag,
                discont,
            );
        },
        Profile::VaapiAv1(v) => {
            lemma_vaapi_parts(ctx, v.device.dri@, "av1_vaapi"@, false, false, "-b:v"@, discont);
        },
        Profile::Qsv(_) => {
            lemma_qsv_parts(ctx, "h264_qsv"@, None, discont);
        },
        Profile::QsvHevc(_) => {
            lemma_qsv_parts(ctx, "hevc_qsv"@, Some("hvc1"@), discont);
            let tag = seq!["-tag:v"@, "hvc1"@];
            assert(tag[0] == "-tag:v"@);
            assert(has_pair(tag, "-tag:v"@, "hvc1"@));
            lemma_pair_in_part(args, tag, "-tag:v"@, "hvc1"@);
        },
        Profile::QsvAv1(_) => {
            lemma_qsv_parts(ctx, "av1_qsv"@, None, discont);
        },
        Profile::V4l2(v) => {
            lemma_v4l2_parts(ctx, v.decoder, "h264_v4l2m2m"@, false, discont);
        },
        Profile::V4l2Hevc(v) => {
            lemma_v4l2_parts(ctx, v.decoder, "hevc_v4l2m2m"@, true, discont);
        },
        Profile::Amf(_) => {
            lemma_amf_parts(ctx, "h264_amf"@, false, discont);
        },
        Profile::AmfHevc(_) => {
            lemma_amf_parts(ctx, "hevc_amf"@, true, discont);
        },
        Profile::AmfAv1(_) => {
            lemma_amf_parts(ctx, "av1_amf"@, false, discont);
        },
    }
    if p is HevcTransmux || p is CudaHevc || p is VaapiHevc || p is V4l2Hevc || p is AmfHevc {
        lemma_pair_in_part(args, hvc1(), "-tag:v"@, "hvc1"@);
    }
}

/// Where a bitrate is asked for, every profile that encodes passes it on. VAAPI does so as a bound where its
/// device cannot scale.
pub proof fn law_bitrates_are_passed_on(
    p: Profile,
    ctx: ProfileContext,
    discont: Seq<Seq<char>>,
    bitrate: u64,
)
    requires
        !copies(p),
        ctx.output_ctx.bitrate == Some(bitrate),
    ensures
        has_pair(p.args(ctx, discont), "-b:v"@, dec(bitrate as nat)) || ((p is Vaapi || p is VaapiHevc)
            && has_pair(p.args(ctx, discont), "-maxrate"@, dec(bitrate as nat))),
{
    let args = p.args(ctx, discont);
    lemma_parts(p, ctx, discont);
    lemma_groups(ctx, encoder_of(p));
    if has_part(args, rate(ctx, "-b:v"@)) {
        lemma_pair_in_part(args, rate(ctx, "-b:v"@), "-b:v"@, dec(bitrate as nat));
    } else {
        lemma_pair_in_part(args, rate(ctx, "-maxrate"@), "-maxrate"@, dec(bitrate as nat));
    }
}

#[verifier::spinoff_prover]
proof fn lemma_cuda_scales(ctx: ProfileContext, encoder: Seq<char>, tagged: bool, discont: Seq<Seq<char>>)
    ensures
        has_part(cuda_args(ctx, encoder, tagged, discont), cuda_filter(ctx)),
{
    broadcast use lemma_part_in_sum;

    lemma_whole(cuda_filter(ctx));
}

#[verifier::spinoff_prover]
proof fn lemma_qsv_scales(ctx: ProfileContext, encoder: Seq<char>, tag: Option<Seq<char>>, discont: Seq<Seq<char>>)
    ensures
        has_part(qsv_args(ctx, encoder, tag, discont), qsv_filter(ctx)),
{
    broadcast use lemma_part_in_sum;

    lemma_whole(qsv_filter(ctx));
}

#[verifier::spinoff_prover]
proof fn lemma_amf_scales(ctx: ProfileContext, encoder: Seq<char>, tagged: bool, discont: Seq<Seq<char>>)
    ensures
        has_part(amf_args(ctx, encoder, tagged, discont), amf_filter(ctx)),
{
    broadcast use lemma_part_in_sum;

    lemma_whole(amf_filter(ctx));
}

#[verifier::spinoff_prover]
proof fn lemma_x265_scales(ctx: ProfileContext, discont: Seq<Seq<char>>)
    ensures
        has_part(x265_args(ctx, discont), x265_filter(ctx)),
{
    broadcast use lemma_part_in_sum;

    lemma_whole(x265_filter(ctx));
}

#[verifier::spinoff_prover]
proof fn lemma_v4l2_scales(ctx: ProfileContext, decoder: bool, encoder: Seq<char>, tagged: bool, discont: Seq<Seq<char>>)
    ensures
        has_part(v4l2_args(ctx, decoder, encoder, tagged, discont), seq!["-vf"@, "scale=trunc(oh*a/16)*16:"@ + dec_int(v4l2_height(ctx)) + ",format=nv12"@]),
{
    broadcast use lemma_part_in_sum;

    lemma_whole(seq!["-vf"@, "scale=trunc(oh*a/16)*16:"@ + dec_int(v4l2_height(ctx)) + ",format=nv12"@]);
}

#[verifier::spinoff_prover]
proof fn lemma_vaapi_scales(ctx: ProfileContext, dri: Seq<char>, encoder: Seq<char>, tagged: bool, hw_scaling: bool, flag: Seq<char>, discont: Seq<Seq<char>>)
    ensures
        has_part(vaapi_args(ctx, dri, encoder, tagged, hw_scaling, flag, discont), seq!["-vf"@, vaapi_filter(ctx, hw_scaling)]),
{
    broadcast use lemma_part_in_sum;

    lemma_whole(seq!["-vf"@, vaapi_filter(ctx, hw_scaling)]);
}

#[verifier::spinoff_prover]
proof fn lemma_vaapi_device(ctx: ProfileContext, dri: Seq<char>, encoder: Seq<char>, tagged: bool, hw_scaling: bool, flag: Seq<char>, discont: Seq<Seq<char>>)
    ensures
        has_part(vaapi_args(ctx, dri, encoder, tagged, hw_scaling, flag, discont), vaapi_decode(ctx, dri)),
{
    broadcast use lemma_part_in_sum;

    lemma_whole(vaapi_decode(ctx, dri));
}

/// The size `width:height`, with this in place of a width that is not asked for.
pub open spec fn size_asked(ctx: ProfileContext, keep: int, between: Seq<char>) -> Seq<char> {
    dec_int(
        if ctx.output_ctx.width is Some {
            ctx.output_ctx.width->0 as int
        } else {
            keep
        },
    ) + between + dec_int(ctx.output_ctx.height->0 as int)
}

/// Where a height is asked for, the frames are scaled to it, and to the width that is asked for or that keeps
/// the shape. V4L2 makes no frame higher than 720 lines.
pub proof fn law_frames_are_scaled(p: Profile, ctx: ProfileContext, discont: Seq<Seq<char>>)
    requires
        ctx.output_ctx.height is Some,
    ensures
        p is Cuda || p is CudaHevc || p is CudaAv1 ==> has_pair(
            p.args(ctx, discont),
            "-vf"@,
            if ctx.force_software_decode {
                "format=nv12,scale="@ + size_asked(ctx, -2, ":"@) + ",hwupload_cuda"@
            } else {
                "scale_cuda="@ + size_asked(ctx, -2, ":"@)
            },
        ),
        p is Qsv || p is QsvHevc || p is QsvAv1 ==> has_pair(
            p.args(ctx, discont),
            "-vf"@,
            if ctx.force_software_decode {
                "format=nv12,hwupload=extra_hw_frames=64,"@ + ("scale_qsv=w="@ + size_asked(
                    ctx,
                    -1,
                    ":h="@,
                ))
            } else {
                "scale_qsv=w="@ + size_asked(ctx, -1, ":h="@)
            },
        ),
        p is Amf || p is AmfHevc || p is AmfAv1 ==> has_pair(
            p.args(ctx, discont),
            "-vf"@,
            "scale="@ + size_asked(ctx, -2, ":"@) + ",format=nv12"@,
        ),
        p is H265Transcode ==> has_pair(
            p.args(ctx, discont),
            "-vf"@,
            "scale="@ + size_asked(ctx, -2, ":"@) + ",format=yuv420p"@,
        ),
        p is V4l2 || p is V4l2Hevc ==> has_pair(
            p.args(ctx, discont),
            "-vf"@,
            "scale=trunc(oh*a/16)*16:"@ + dec_int(
                if ctx.output_ctx.height->0 < 720 {
                    ctx.output_ctx.height->0 as int
                } else {
                    720
                },
            ) + ",format=nv12"@,
        ),
        (p is Vaapi || p is VaapiHevc || p is VaapiAv1) && ctx.force_software_decode ==> has_pair(
            p.args(ctx, discont),
            "-vf"@,
            "format=nv12,scale="@ + size_asked(ctx, -2, ":"@) + ",hwupload"@,
        ),
{
    let args = p.args(ctx, discont);
    let f = match p {
        Profile::Cuda(_) | Profile::CudaHevc(_) | Profile::CudaAv1(_) => cuda_filter(ctx),
        Profile::Qsv(_) | Profile::QsvHevc(_) | Profile::QsvAv1(_) => qsv_filter(ctx),
        Profile::Amf(_) | Profile::AmfHevc(_) | Profile::AmfAv1(_) => amf_filter(ctx),
        Profile::H265Transcode(_) => x265_filter(ctx),
        Profile::V4l2(_) | Profile::V4l2Hevc(_) => seq![
            "-vf"@,
            "scale=trunc(oh*a/16)*16:"@ + dec_int(v4l2_height(ctx)) + ",format=nv12"@,
        ],
        Profile::Vaapi(v) => seq!["-vf"@, vaapi_filter(ctx, v.spec_scales())],
        Profile::VaapiHevc(v) => seq!["-vf"@, vaapi_filter(ctx, v.spec_scales())],
        Profile::VaapiAv1(_) => seq!["-vf"@, vaapi_filter(ctx, false)],
        _ => seq!["-vf"@, "-vf"@],
    };
    assert(f[0] == "-vf"@);
    assert(has_pair(f, "-vf"@, f[1]));
    match p {
        Profile::Cuda(_) => {
            lemma_cuda_scales(ctx, "h264_nvenc"@, false, discont);
        },
        Profile::CudaHevc(_) => {
            lemma_cuda_scales(ctx, "hevc_nvenc"@, true, discont);
        },
        Profile::CudaAv1(_) => {
            lemma_cuda_scales(ctx, "av1_nvenc"@, false, discont);
        },
        Profile::Qsv(_) => {
            lemma_qsv_scales(ctx, "h264_qsv"@, None, discont);
        },
        Profile::QsvHevc(_) => {
            lemma_qsv_scales(ctx, "hevc_qsv"@, Some("hvc1"@), discont);
        },
        Profile::QsvAv1(_) => {
            lemma_qsv_scales(ctx, "av1_qsv"@, None, discont);
        },
        Profile::Amf(_) => {
            lemma_amf_scales(ctx, "h264_amf"@, false, discont);
        },
        Profile::AmfHevc(_) => {
            lemma_amf_scales(ctx, "hevc_amf"@, true, discont);
        },
        Profile::AmfAv1(_) => {
            lemma_amf_scales(ctx, "av1_amf"@, false, discont);
        },
        Profile::H265Transcode(_) => {
            lemma_x265_scales(ctx, discont);
        },
        Profile::V4l2(v) => {
            lemma_v4l2_scales(ctx, v.decoder, "h264_v4l2m2m"@, false, discont);
        },
        Profile::V4l2Hevc(v) => {
            lemma_v4l2_scales(ctx, v.decoder, "hevc_v4l2m2m"@, true, discont);
        },
        Profile::Vaapi(v) => {
            lemma_vaapi_scales(
                ctx,
                v.device.dri@,
                "h264_vaapi"@,
                false,
                v.spec_scales(),
                if v.spec_scales() {
                    "-b:v"@
                } else {
                    "-maxrate"@
                },
                discont,
            );
        },
        Profile::VaapiHevc(v) => {
            lemma_vaapi_scales(
                ctx,
                v.device.dri@,
                "hevc_vaapi"@,
                true,
                v.spec_scales(),
                if v.spec_scales() {
                    "-b:v"@
                } else {
                    "-maxrate"@
                },
                discont,
            );
        },
        Profile::VaapiAv1(v) => {
            lemma_vaapi_scales(ctx, v.device.dri@, "av1_vaapi"@, false, false, "-b:v"@, discont);
        },
        _ => {},
    }
    if !copies(p) {
        lemma_pair_in_part(args, f, "-vf"@, f[1]);
    }
}

/// The VAAPI profiles use their device, to decode as well unless software does.
pub proof fn law_vaapi_uses_its_device(
    p: Profile,
    ctx: ProfileContext,
    discont: Seq<Seq<char>>,
    dri: Seq<char>,
)
    requires
        match p {
            Profile::Vaapi(v) => dri == v.device.dri@,
            Profile::VaapiHevc(v) => dri == v.device.dri@,
            Profile::VaapiAv1(v) => dri == v.device.dri@,
            _ => false,
        },
    ensures
        has_pair(p.args(ctx, discont), "-vaapi_device"@, dri),
        !ctx.force_software_decode ==> has_pair(p.args(ctx, discont), "-hwaccel"@, "vaapi"@),
{
    let args = p.args(ctx, discont);
    let f = vaapi_decode(ctx, dri);
    let k = if ctx.force_software_decode {
        0int
    } else {
        2
    };
    assert(f[k] == "-vaapi_device"@ && f[k + 1] == dri);
    assert(has_pair(f, "-vaapi_device"@, dri));
    match p {
        Profile::Vaapi(v) => {
            lemma_vaapi_device(
                ctx,
                dri,
                "h264_vaapi"@,
                false,
                v.spec_scales(),
                if v.spec_scales() {
                    "-b:v"@
                } else {
                    "-maxrate"@
                },
                discont,
            );
        },
        Profile::VaapiHevc(v) => {
            lemma_vaapi_device(
                ctx,
                dri,
                "hevc_vaapi"@,
                true,
                v.spec_scales(),
                if v.spec_scales() {
                    "-b:v"@
                } else {
                    "-maxrate"@
                },
                discont,
            );
        },
        _ => {
            lemma_vaapi_device(ctx, dri, "av1_vaapi"@, false, false, "-b:v"@, discont);
        },
    }
    lemma_pair_in_part(args, f, "-vaapi_device"@, dri);
    if !ctx.force_software_decode {
        assert(f[0] == "-hwaccel"@);
        assert(has_pair(f, "-hwaccel"@, "vaapi"@));
        lemma_pair_in_part(args, f, "-hwaccel"@, "vaapi"@);
    }
}

}
