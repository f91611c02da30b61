//! VAAPI profiles, for the GPUs that libva drives.

use vstd::prelude::*;

use crate::profiles::args::{
    add_forced_key_frames, add_hls, add_hls_flags, add_input, add_key_frames, add_output, add_pace,
    add_rate, add_segments, arg, arg2, dav1d, forced_key_frames, given, hls, hls_flags, hvc1, input,
    key_frames, no_bframes, output, pace, rate, segments, size_of, size_text,
};
use crate::profiles::context::{
    seekable, unsupported, Machine, NightfallError, ProfileContext, ProfileType, StreamType,
    TranscodingProfile,
};
use crate::text::{append_copies, cat, cat3, contains, contains_str, join, joined, same, views};

verus! {

/// A profile that a device exposes, and what it can do with it.
#[derive(Debug)]
pub struct VaProfile {
    pub name: String,
    pub entrypoints: Vec<String>,
}

/// What is known of a device.
#[derive(Debug)]
pub struct VaapiDevice {
    pub profiles: Vec<VaProfile>,
    pub vendor: String,
    /// The path of its render node.
    pub dri: String,
}

/// An entry of `/dev/dri`, with what its driver said of it, if it could be opened.
#[derive(Debug)]
pub struct DriNode {
    pub name: String,
    pub device: Option<VaapiDevice>,
}

/// The node is a render node that could be opened.
pub open spec fn is_usable(node: DriNode) -> bool {
    contains_str(node.name@, "render"@) && node.device is Some
}

/// Where the first usable node stands in the list.
pub open spec fn first_usable(nodes: Seq<DriNode>, from: int) -> Option<int>
    decreases nodes.len() - from,
{
    if from < 0 || from >= nodes.len() {
        None
    } else if is_usable(nodes[from]) {
        Some(from)
    } else {
        first_usable(nodes, from + 1)
    }
}

/// Picks the first usable render node. Without one there is a device that can do nothing; without
/// `/dev/dri` there is none.
pub fn discover_vaapi_device(nodes: Option<Vec<DriNode>>) -> (r: Option<VaapiDevice>)
    ensures
        r is Some <==> nodes is Some,
        nodes matches Some(v) ==> match first_usable(v@, 0) {
            Some(i) => r == v@[i].device,
            None => r->0.profiles@.len() == 0 && r->0.vendor@ == "<null_device>"@
                && r->0.dri@.len() == 0,
        },
{
    let mut list = match nodes {
        Some(list) => list,
        None => {
            return None;
        },
    };
    let mut i: usize = 0;
    while i < list.len()
        invariant
            nodes == Some(list),
            0 <= i <= list@.len(),
            first_usable(list@, 0) == first_usable(list@, i as int),
        decreases list@.len() - i,
    {
        if contains(list[i].name.as_str(), "render") && list[i].device.is_some() {
            let node = list.swap_remove(i);
            return node.device;
        }
        i = i + 1;
    }
    Some(
        VaapiDevice {
            profiles: Vec::new(),
            vendor: "<null_device>".to_owned(),
            dri: String::new(),
        },
    )
}

/// The first profile with this name, from `from` on.
pub open spec fn profile_from(profiles: Seq<VaProfile>, name: Seq<char>, from: int) -> Option<VaProfile>
    decreases profiles.len() - from,
{
    if from < 0 || from >= profiles.len() {
        None
    } else if profiles[from].name@ == name {
        Some(profiles[from])
    } else {
        profile_from(profiles, name, from + 1)
    }
}

/// The first profile with this name.
pub open spec fn profile_named(profiles: Seq<VaProfile>, name: Seq<char>) -> Option<VaProfile> {
    profile_from(profiles, name, 0)
}

/// The profile has this entrypoint.
pub open spec fn has_entrypoint(profile: VaProfile, name: Seq<char>) -> bool {
    views(profile.entrypoints@).contains(name)
}

/// Finds the first profile with this name.
fn find_profile<'a>(profiles: &'a Vec<VaProfile>, name: &str) -> (r: Option<&'a VaProfile>)
    ensures
        r is Some <==> profile_named(profiles@, name@) is Some,
        r matches Some(p) ==> Some(*p) == profile_named(profiles@, name@),
{
    let mut i: usize = 0;
    while i < profiles.len()
        invariant
            0 <= i <= profiles@.len(),
            profile_named(profiles@, name@) == profile_from(profiles@, name@, i as int),
        decreases profiles@.len() - i,
    {
        if same(profiles[i].name.as_str(), name) {
            return Some(&profiles[i]);
        }
        i = i + 1;
    }
    None
}

/// Whether the profile has this entrypoint.
fn offers(profile: &VaProfile, name: &str) -> (r: bool)
    ensures
        r == has_entrypoint(*profile, name@),
{
    let mut i: usize = 0;
    while i < profile.entrypoints.len()
        invariant
            0 <= i <= profile.entrypoints@.len(),
            forall|j: int| 0 <= j < i ==> views(profile.entrypoints@)[j] != name@,
        decreases profile.entrypoints@.len() - i,
    {
        assert(views(profile.entrypoints@)[i as int] == profile.entrypoints@[i as int]@);
        if same(profile.entrypoints[i].as_str(), name) {
            return true;
        }
        i = i + 1;
    }
    false
}

/// The VA profile that decodes a codec and profile. Of VP9 only the 8-bit profile is decoded: the
/// 10-bit one would need another download path.
pub open spec fn va_profile_for(codec: Seq<char>, profile: Seq<char>) -> Option<Seq<char>> {
    if codec == "h264"@ && profile == "High"@ {
        Some("VAProfileH264High"@)
    } else if codec == "h264"@ && profile == "Main"@ {
        Some("VAProfileH264Main"@)
    } else if codec == "h264"@ && profile == "Baseline"@ {
        Some("VAProfileH264Baseline"@)
    } else if codec == "h264"@ && profile == "Constrained Baseline"@ {
        Some("VAProfileH264ConstrainedBaseline"@)
    } else if codec == "hevc"@ && profile == "Main"@ {
        Some("VAProfileHEVCMain"@)
    } else if codec == "hevc"@ && profile == "Main 10"@ {
        Some("VAProfileHEVCMain10"@)
    } else if codec == "av1"@ {
        Some("VAProfileAV1Profile0"@)
    } else if codec == "vp9"@ && profile == "Profile 0"@ {
        Some("VAProfileVP9Profile0"@)
    } else {
        None
    }
}

/// Looks up the VA profile that decodes a codec and profile.
pub fn find_va_profile(codec: &str, profile: &str) -> (r: Option<&'static str>)
    ensures
        r is Some <==> va_profile_for(codec@, profile@) is Some,
        r matches Some(name) ==> Some(name@) == va_profile_for(codec@, profile@),
{
    if same(codec, "h264") && same(profile, "High") {
        Some("VAProfileH264High")
    } else if same(codec, "h264") && same(profile, "Main") {
        Some("VAProfileH264Main")
    } else if same(codec, "h264") && same(profile, "Baseline") {
        Some("VAProfileH264Baseline")
    } else if same(codec, "h264") && same(profile, "Constrained Baseline") {
        Some("VAProfileH264ConstrainedBaseline")
    } else if same(codec, "hevc") && same(profile, "Main") {
        Some("VAProfileHEVCMain")
    } else if same(codec, "hevc") && same(profile, "Main 10") {
        Some("VAProfileHEVCMain10")
    } else if same(codec, "av1") {
        Some("VAProfileAV1Profile0")
    } else if same(codec, "vp9") && same(profile, "Profile 0") {
        Some("VAProfileVP9Profile0")
    } else {
        None
    }
}

/// One of the profiles with this name can decode.
pub open spec fn can_decode(profiles: Seq<VaProfile>, name: Seq<char>) -> bool {
    exists|i: int|
        0 <= i < profiles.len() && (#[trigger] profiles[i]).name@ == name && has_entrypoint(
            profiles[i],
            "VAEntrypointVLD"@,
        )
}

/// Why the device cannot decode the input. Where software decoding is forced, that does not matter.
pub open spec fn vaapi_refuses(profiles: Seq<VaProfile>, ctx: ProfileContext) -> Option<Seq<char>> {
    let codec = ctx.input_ctx.codec@;
    if ctx.force_software_decode {
        None
    } else {
        match va_profile_for(codec, ctx.input_ctx.profile@) {
            None => Some(
                "Input "@ + codec + (" ("@ + ctx.input_ctx.profile@
                    + ") cannot be hardware-decoded via VAAPI."@),
            ),
            Some(name) => if can_decode(profiles, name) {
                None
            } else {
                Some(
                    "HW Acceleration device doesnt support decoding "@ + codec + (
                    " content (needs "@ + name + ")."@),
                )
            },
        }
    }
}

/// Checks that the device can decode the input.
pub fn check_vaapi_input(profiles: &Vec<VaProfile>, ctx: &ProfileContext) -> (r: Result<
    (),
    NightfallError,
>)
    ensures
        r is Ok <==> vaapi_refuses(profiles@, *ctx) is None,
        r matches Err(e) ==> (e matches NightfallError::ProfileNotSupported(why) && Some(why@)
            == vaapi_refuses(profiles@, *ctx)),
{
    if ctx.force_software_decode {
        return Ok(());
    }
    let codec = ctx.input_ctx.codec.as_str();
    let profile = ctx.input_ctx.profile.as_str();
    let name = match find_va_profile(codec, profile) {
        Some(name) => name,
        None => {
            let rest = cat3(" (", profile, ") cannot be hardware-decoded via VAAPI.");
            return unsupported(cat3("Input ", codec, rest.as_str()).as_str());
        },
    };
    let mut i: usize = 0;
    while i < profiles.len()
        invariant
            0 <= i <= profiles@.len(),
            !ctx.force_software_decode,
            va_profile_for(ctx.input_ctx.codec@, ctx.input_ctx.profile@) == Some(name@),
            forall|j: int|
                0 <= j < i ==> !((#[trigger] profiles@[j]).name@ == name@ && has_entrypoint(
                    profiles@[j],
                    "VAEntrypointVLD"@,
                )),
        decreases profiles@.len() - i,
    {
        if same(profiles[i].name.as_str(), name) && offers(&profiles[i], "VAEntrypointVLD") {
            return Ok(());
        }
        i = i + 1;
    }
    let rest = cat3(" content (needs ", name, ").");
    unsupported(
        cat3("HW Acceleration device doesnt support decoding ", codec, rest.as_str()).as_str(),
    )
}

/// The device can scale for an encoder with these profiles: the first of them that it has can encode.
pub open spec fn can_scale(profiles: Seq<VaProfile>, first: Seq<char>, second: Seq<char>) -> bool {
    match profile_named(profiles, first) {
        Some(p) => has_entrypoint(p, "VAEntrypointEncSlice"@),
        None => match profile_named(profiles, second) {
            Some(p) => has_entrypoint(p, "VAEntrypointEncSlice"@),
            None => false,
        },
    }
}

/// Whether the device can scale for an encoder with these profiles.
fn scales(profiles: &Vec<VaProfile>, first: &str, second: &str) -> (r: bool)
    ensures
        r == can_scale(profiles@, first@, second@),
{
    match find_profile(profiles, first) {
        Some(p) => offers(p, "VAEntrypointEncSlice"),
        None => match find_profile(profiles, second) {
            Some(p) => offers(p, "VAEntrypointEncSlice"),
            None => false,
        },
    }
}

/// The names of the profiles, for messages.
pub open spec fn names_of(profiles: Seq<VaProfile>) -> Seq<char> {
    joined(profiles.map_values(|p: VaProfile| p.name@), " | "@)
}

/// The names of the profiles, for messages.
fn list_names(profiles: &Vec<VaProfile>) -> (r: String)
    ensures
        r@ == names_of(profiles@),
{
    let mut names: Vec<String> = Vec::new();
    let mut i: usize = 0;
    while i < profiles.len()
        invariant
            0 <= i <= profiles@.len(),
            names@.len() == i,
            forall|j: int| 0 <= j < i ==> (#[trigger] names@[j])@ == profiles@[j].name@,
        decreases profiles@.len() - i,
    {
        names.push(profiles[i].name.clone());
        i = i + 1;
    }
    assert(views(names@) =~= profiles@.map_values(|p: VaProfile| p.name@));
    join(&names, " | ")
}

/// The profile decodes and encodes.
pub open spec fn does_both(profile: VaProfile) -> bool {
    has_entrypoint(profile, "VAEntrypointEncSlice"@) && has_entrypoint(profile, "VAEntrypointVLD"@)
}

/// The device has this profile, and it decodes and encodes.
pub open spec fn does_both_with(profiles: Seq<VaProfile>, name: Seq<char>) -> bool {
    match profile_named(profiles, name) {
        Some(p) => does_both(p),
        None => false,
    }
}

/// Whether the device has this profile, and it decodes and encodes.
fn encodes_and_decodes(profiles: &Vec<VaProfile>, name: &str) -> (r: bool)
    ensures
        r == does_both_with(profiles@, name@),
{
    match find_profile(profiles, name) {
        Some(p) => offers(p, "VAEntrypointEncSlice") && offers(p, "VAEntrypointVLD"),
        None => false,
    }
}

/// Why the device cannot be used for H.264.
pub open spec fn no_h264(device: VaapiDevice) -> Option<Seq<char>> {
    let ps = device.profiles@;
    if does_both_with(ps, "VAProfileH264ConstrainedBaseline"@) || does_both_with(
        ps,
        "VAProfileH264Main"@,
    ) || does_both_with(ps, "VAProfileH264High"@) {
        None
    } else {
        Some(
            "Device "@ + device.vendor@ + (
            " doesnt seem to support hardware encoding+decoding of h264 (Supported profiles: "@
                + names_of(ps) + ")"@),
        )
    }
}

/// The device lacks a profile.
pub open spec fn lacks_profile(device: VaapiDevice, name: Seq<char>) -> Seq<char> {
    "Device "@ + device.vendor@ + (" doesnt support profile "@ + name + (" (Supported profiles: "@
        + names_of(device.profiles@) + ")"@))
}

/// The device lacks an entrypoint.
pub open spec fn lacks_entrypoint(device: VaapiDevice, entrypoint: Seq<char>, name: Seq<char>) -> Seq<
    char,
> {
    "Device "@ + device.vendor@ + (" doesnt support "@ + entrypoint + (" for "@ + name + "."@))
}

/// Says that the device lacks a profile.
fn missing_profile(device: &VaapiDevice, name: &str) -> (r: String)
    ensures
        r@ == lacks_profile(*device, name@),
{
    let list = list_names(&device.profiles);
    let rest = cat3(" (Supported profiles: ", list.as_str(), ")");
    let what = cat3(" doesnt support profile ", name, rest.as_str());
    cat3("Device ", device.vendor.as_str(), what.as_str())
}

/// Says that the device lacks an entrypoint.
fn missing_entrypoint(device: &VaapiDevice, entrypoint: &str, name: &str) -> (r: String)
    ensures
        r@ == lacks_entrypoint(*device, entrypoint@, name@),
{
    let rest = cat3(" for ", name, ".");
    let what = cat3(" doesnt support ", entrypoint, rest.as_str());
    cat3("Device ", device.vendor.as_str(), what.as_str())
}

/// Why the device cannot be used for HEVC.
pub open spec fn no_hevc(device: VaapiDevice) -> Option<Seq<char>> {
    match profile_named(device.profiles@, "VAProfileHEVCMain"@) {
        None => Some(lacks_profile(device, "VAProfileHEVCMain"@)),
        Some(p) => if !has_entrypoint(p, "VAEntrypointEncSlice"@) {
            Some(
                lacks_entrypoint(device, "entrypoint VAEntrypointEncSlice"@, "VAProfileHEVCMain"@),
            )
        } else if !has_entrypoint(p, "VAEntrypointVLD"@) {
            Some(lacks_entrypoint(device, "entrypoint VAEntrypointVLD"@, "VAProfileHEVCMain"@))
        } else {
            None
        },
    }
}

/// Why the device cannot be used for AV1.
pub open spec fn no_av1(device: VaapiDevice) -> Option<Seq<char>> {
    match profile_named(device.profiles@, "VAProfileAV1Profile0"@) {
        None => Some(lacks_profile(device, "VAProfileAV1Profile0"@)),
        Some(p) => if !has_entrypoint(p, "VAEntrypointEncSlice"@) {
            Some(lacks_entrypoint(device, "VAEntrypointEncSlice"@, "VAProfileAV1Profile0"@))
        } else {
            None
        },
    }
}

/// Checks that the device can be used for H.264. A device that only decodes has the profile too, so
/// its entrypoints count.
fn check_h264(device: &VaapiDevice) -> (r: Result<(), NightfallError>)
    ensures
        r is Ok <==> no_h264(*device) is None,
        r matches Err(e) ==> (e matches NightfallError::ProfileNotSupported(why) && Some(why@)
            == no_h264(*device)),
{
    let ps = &device.profiles;
    if encodes_and_decodes(ps, "VAProfileH264ConstrainedBaseline") || encodes_and_decodes(
        ps,
        "VAProfileH264Main",
    ) || encodes_and_decodes(ps, "VAProfileH264High") {
        return Ok(());
    }
    let list = list_names(ps);
    let rest = cat3(
        " doesnt seem to support hardware encoding+decoding of h264 (Supported profiles: ",
        list.as_str(),
        ")",
    );
    unsupported(cat3("Device ", device.vendor.as_str(), rest.as_str()).as_str())
}

/// Checks that the device can be used for HEVC.
fn check_hevc(device: &VaapiDevice) -> (r: Result<(), NightfallError>)
    ensures
        r is Ok <==> no_hevc(*device) is None,
        r matches Err(e) ==> (e matches NightfallError::ProfileNotSupported(why) && Some(why@)
            == no_hevc(*device)),
{
    match find_profile(&device.profiles, "VAProfileHEVCMain") {
        None => unsupported(missing_profile(device, "VAProfileHEVCMain").as_str()),
        Some(p) => if !offers(p, "VAEntrypointEncSlice") {
            unsupported(
                missing_entrypoint(
                    device,
                    "entrypoint VAEntrypointEncSlice",
                    "VAProfileHEVCMain",
                ).as_str(),
            )
        } else if !offers(p, "VAEntrypointVLD") {
            unsupported(
                missing_entrypoint(
                    device,
                    "entrypoint VAEntrypointVLD",
                    "VAProfileHEVCMain",
                ).as_str(),
            )
        } else {
            Ok(())
        },
    }
}

/// Checks that the device can be used for AV1.
fn check_av1(device: &VaapiDevice) -> (r: Result<(), NightfallError>)
    ensures
        r is Ok <==> no_av1(*device) is None,
        r matches Err(e) ==> (e matches NightfallError::ProfileNotSupported(why) && Some(why@)
            == no_av1(*device)),
{
    match find_profile(&device.profiles, "VAProfileAV1Profile0") {
        None => unsupported(missing_profile(device, "VAProfileAV1Profile0").as_str()),
        Some(p) => if !offers(p, "VAEntrypointEncSlice") {
            unsupported(
                missing_entrypoint(
                    device,
                    "VAEntrypointEncSlice",
                    "VAProfileAV1Profile0",
                ).as_str(),
            )
        } else {
            Ok(())
        },
    }
}

/// The filters between a hardware decoder and the encoder, where frames are scaled. A device that
/// cannot scale leaves that to the processor.
pub open spec fn scaling_filters(ctx: ProfileContext, hw_scaling: bool) -> Seq<Seq<char>> {
    given(hw_scaling, seq!["scale_vaapi="@ + size_of(ctx, -2)]) + seq!["hwdownload"@] + given(
        ctx.input_ctx.profile@ == "Main 10"@,
        seq!["format=p010le"@],
    ) + seq!["format=nv12"@] + given(!hw_scaling, seq!["scale="@ + size_of(ctx, -2)]) + seq![
        "hwupload"@,
    ]
}

/// The filters between the decoder and the encoder.
pub open spec fn vaapi_filter(ctx: ProfileContext, hw_scaling: bool) -> Seq<char> {
    if ctx.force_software_decode {
        if ctx.output_ctx.height is Some {
            "format=nv12,scale="@ + size_of(ctx, -2) + ",hwupload"@
        } else {
            "format=nv12,hwupload"@
        }
    } else if ctx.output_ctx.height is Some {
        joined(scaling_filters(ctx, hw_scaling), ","@)
    } else {
        "hwdownload,format=nv12,hwupload"@
    }
}

/// Builds the filters between the decoder and the encoder.
fn build_vaapi_filter(ctx: &ProfileContext, hw_scaling: bool) -> (r: String)
    ensures
        r@ == vaapi_filter(*ctx, hw_scaling),
{
    if ctx.force_software_decode {
        if ctx.output_ctx.height.is_some() {
            let size = size_text(ctx, -2);
            cat3("format=nv12,scale=", size.as_str(), ",hwupload")
        } else {
            "format=nv12,hwupload".to_owned()
        }
    } else if ctx.output_ctx.height.is_some() {
        let size = size_text(ctx, -2);
        let mut filters: Vec<String> = Vec::new();
        if hw_scaling {
            arg(&mut filters, cat("scale_vaapi=", size.as_str()).as_str());
        }
        arg(&mut filters, "hwdownload");
        if same(ctx.input_ctx.profile.as_str(), "Main 10") {
            arg(&mut filters, "format=p010le");
        }
        arg(&mut filters, "format=nv12");
        if !hw_scaling {
            arg(&mut filters, cat("scale=", size.as_str()).as_str());
        }
        arg(&mut filters, "hwupload");
        assert(views(filters@) =~= scaling_filters(*ctx, hw_scaling));
        join(&filters, ",")
    } else {
        "hwdownload,format=nv12,hwupload".to_owned()
    }
}

/// How the device is used.
pub open spec fn vaapi_decode(ctx: ProfileContext, dri: Seq<char>) -> Seq<Seq<char>> {
    if !ctx.force_software_decode {
        seq![
            "-hwaccel"@,
            "vaapi"@,
            "-vaapi_device"@,
            dri,
            "-hwaccel_output_format"@,
            "vaapi"@,
        ]
    } else {
        seq!["-vaapi_device"@, dri]
    }
}

/// The arguments of the VAAPI profiles.
pub open spec fn vaapi_args(
    ctx: ProfileContext,
    dri: Seq<char>,
    encoder: Seq<char>,
    tagged: bool,
    hw_scaling: bool,
    rate_flag: Seq<char>,
    discont: Seq<Seq<char>>,
) -> Seq<Seq<char>> {
    vaapi_decode(ctx, dri) + given(
        ctx.force_software_decode && ctx.input_ctx.codec@ == "av1"@,
        dav1d(),
    ) + seq!["-y"@] + input(ctx, encoder) + given(tagged, hvc1()) + no_bframes() + seq![
        "-vf"@,
        vaapi_filter(ctx, hw_scaling),
    ] + rate(ctx, rate_flag) + given(false, seq!["-start_at_zero"@]) + pace() + key_frames()
        + discont + hls(ctx) + hls_flags("independent_segments+temp_file"@) + segments(ctx)
        + forced_key_frames(ctx) + seq!["-sc_threshold:v:0"@, "0"@] + output(ctx)
}

/// Builds the arguments of the VAAPI profiles.
fn build_vaapi_args(
    ctx: &ProfileContext,
    dri: &str,
    encoder: &str,
    tagged: bool,
    hw_scaling: bool,
    rate_flag: &str,
    discont_flags: &Vec<String>,
) -> (r: Vec<String>)
    requires
        seekable(*ctx),
    ensures
        views(r@) == vaapi_args(
            *ctx,
            dri@,
            encoder@,
            tagged,
            hw_scaling,
            rate_flag@,
            views(discont_flags@),
        ),
{
    let mut args: Vec<String> = Vec::new();
    if !ctx.force_software_decode {
        arg2(&mut args, "-hwaccel", "vaapi");
        arg2(&mut args, "-vaapi_device", dri);
        arg2(&mut args, "-hwaccel_output_format", "vaapi");
    } else {
        arg2(&mut args, "-vaapi_device", dri);
    }
    assert(views(args@) =~= vaapi_decode(*ctx, dri@));
    let ghost now = views(args@);
    if ctx.force_software_decode && same(ctx.input_ctx.codec.as_str(), "av1") {
        arg2(&mut args, "-c:v", "libdav1d");
    }
    assert(views(args@) =~= now + given(
        ctx.force_software_decode && ctx.input_ctx.codec@ == "av1"@,
        dav1d(),
    ));
    let ghost now = views(args@);
    arg(&mut args, "-y");
    assert(views(args@) =~= now + seq!["-y"@]);
    add_input(&mut args, ctx, encoder);
    let ghost now = views(args@);
    if tagged {
        arg2(&mut args, "-tag:v", "hvc1");
    }
    assert(views(args@) =~= now + given(tagged, hvc1()));
    arg2(&mut args, "-bf", "0");
    let filter = build_vaapi_filter(ctx, hw_scaling);
    arg2(&mut args, "-vf", filter.as_str());
    add_rate(&mut args, ctx, rate_flag);
    add_pace(&mut args, false);
    add_key_frames(&mut args);
    append_copies(&mut args, discont_flags);
    add_hls(&mut args, ctx);
    add_hls_flags(&mut args, "independent_segments+temp_file");
    add_segments(&mut args, ctx);
    add_forced_key_frames(&mut args, ctx);
    arg2(&mut args, "-sc_threshold:v:0", "0");
    add_output(&mut args, ctx);
    args
}

/// Encodes H.264 with VAAPI.
#[derive(Debug)]
pub struct VaapiTranscodeProfile {
    pub device: VaapiDevice,
}

impl VaapiTranscodeProfile {
    /// The profile for the device that was discovered, if any was.
    pub fn new(device: Option<VaapiDevice>) -> (r: Option<Self>)
        ensures
            r is Some <==> device is Some,
            r matches Some(p) ==> Some(p.device) == device,
    {
        match device {
            Some(device) => Some(VaapiTranscodeProfile { device }),
            None => None,
        }
    }

    /// The device can scale.
    pub open spec fn spec_scales(&self) -> bool {
        can_scale(self.device.profiles@, "VAProfileH264Main"@, "VAProfileH264High"@)
    }

    /// Whether the device can scale. Without the non-free driver an Intel device cannot.
    pub fn hw_scaling_supported(&self) -> (r: bool)
        ensures
            r == self.spec_scales(),
    {
        scales(&self.device.profiles, "VAProfileH264Main", "VAProfileH264High")
    }
}

impl TranscodingProfile for VaapiTranscodeProfile {
    open spec fn spec_profile_type(&self) -> ProfileType {
        ProfileType::HardwareTranscode
    }

    open spec fn spec_stream_type(&self) -> StreamType {
        StreamType::Video
    }

    open spec fn spec_tag(&self) -> Seq<char> {
        "h264_vaapi"@
    }

    open spec fn spec_name(&self) -> Seq<char> {
        "VaapiTranscodeProfile"@
    }

    open spec fn disabled_by(&self, machine: Machine) -> Option<Seq<char>> {
        no_h264(self.device)
    }

    open spec fn refuses(&self, ctx: ProfileContext) -> Option<Seq<char>> {
        if ctx.output_ctx.codec@ != "h264"@ {
            Some("Profile only supports h264 output streams."@)
        } else {
            vaapi_refuses(self.device.profiles@, ctx)
        }
    }

    open spec fn args(&self, ctx: ProfileContext, discont: Seq<Seq<char>>) -> Seq<Seq<char>> {
        vaapi_args(
            ctx,
            self.device.dri@,
            "h264_vaapi"@,
            false,
            self.spec_scales(),
            if self.spec_scales() {
                "-b:v"@
            } else {
                "-maxrate"@
            },
            discont,
        )
    }

    fn profile_type(&self) -> ProfileType {
        ProfileType::HardwareTranscode
    }

    fn stream_type(&self) -> StreamType {
        StreamType::Video
    }

    fn is_enabled(&self, machine: &Machine) -> Result<(), NightfallError> {
        check_h264(&self.device)
    }

    fn build(&self, ctx: &ProfileContext, discont_flags: &Vec<String>) -> Option<Vec<String>> {
        let hw_scaling = self.hw_scaling_supported();
        let rate_flag = if hw_scaling {
            "-b:v"
        } else {
            "-maxrate"
        };
        Some(
            build_vaapi_args(
                ctx,
                self.device.dri.as_str(),
                "h264_vaapi",
                false,
                hw_scaling,
                rate_flag,
                discont_flags,
            ),
        )
    }

    fn supports(&self, ctx: &ProfileContext) -> Result<(), NightfallError> {
        if !same(ctx.output_ctx.codec.as_str(), "h264") {
            return unsupported("Profile only supports h264 output streams.");
        }
        check_vaapi_input(&self.device.profiles, ctx)
    }

    fn tag(&self) -> &'static str {
        "h264_vaapi"
    }

    fn name(&self) -> &'static str {
        "VaapiTranscodeProfile"
    }
}

/// Encodes HEVC with VAAPI.
#[derive(Debug)]
pub struct VaapiHevcTranscodeProfile {
    pub device: VaapiDevice,
}

impl VaapiHevcTranscodeProfile {
    /// The profile for the device that was discovered, if any was.
    pub fn new(device: Option<VaapiDevice>) -> (r: Option<Self>)
        ensures
            r is Some <==> device is Some,
            r matches Some(p) ==> Some(p.device) == device,
    {
        match device {
            Some(device) => Some(VaapiHevcTranscodeProfile { device }),
            None => None,
        }
    }

    /// The device can scale.
    pub open spec fn spec_scales(&self) -> bool {
        can_scale(self.device.profiles@, "VAProfileHEVCMain"@, "VAProfileHEVCMain10"@)
    }

    /// Whether the device can scale. Without the non-free driver an Intel device cannot.
    pub fn hw_scaling_supported(&self) -> (r: bool)
        ensures
            r == self.spec_scales(),
    {
        scales(&self.device.profiles, "VAProfileHEVCMain", "VAProfileHEVCMain10")
    }
}

impl TranscodingProfile for VaapiHevcTranscodeProfile {
    open spec fn spec_profile_type(&self) -> ProfileType {
        ProfileType::HardwareTranscode
    }

    open spec fn spec_stream_type(&self) -> StreamType {
        StreamType::Video
    }

    open spec fn spec_tag(&self) -> Seq<char> {
        "hevc_vaapi"@
    }

    open spec fn spec_name(&self) -> Seq<char> {
        "VaapiHevcTranscodeProfile"@
    }

    open spec fn disabled_by(&self, machine: Machine) -> Option<Seq<char>> {
        no_hevc(self.device)
    }

    open spec fn refuses(&self, ctx: ProfileContext) -> Option<Seq<char>> {
        if ctx.output_ctx.codec@ != "h265"@ {
            Some("Profile only supports h265 output streams."@)
        } else {
            vaapi_refuses(self.device.profiles@, ctx)
        }
    }

    open spec fn args(&self, ctx: ProfileContext, discont: Seq<Seq<char>>) -> Seq<Seq<char>> {
        vaapi_args(
            ctx,
            self.device.dri@,
            "hevc_vaapi"@,
            true,
            self.spec_scales(),
            if self.spec_scales() {
                "-b:v"@
            } else {
                "-maxrate"@
            },
            discont,
        )
    }

    fn profile_type(&self) -> ProfileType {
        ProfileType::HardwareTranscode
    }

    fn stream_type(&self) -> StreamType {
        StreamType::Video
    }

    fn is_enabled(&self, machine: &Machine) -> Result<(), NightfallError> {
        check_hevc(&self.device)
    }

    fn build(&self, ctx: &ProfileContext, discont_flags: &Vec<String>) -> Option<Vec<String>> {
        let hw_scaling = self.hw_scaling_supported();
        let rate_flag = if hw_scaling {
            "-b:v"
        } else {
            "-maxrate"
        };
        Some(
            build_vaapi_args(
                ctx,
                self.device.dri.as_str(),
                "hevc_vaapi",
                true,
                hw_scaling,
                rate_flag,
                discont_flags,
            ),
        )
    }

    fn supports(&self, ctx: &ProfileContext) -> Result<(), NightfallError> {
        if !same(ctx.output_ctx.codec.as_str(), "h265") {
            return unsupported("Profile only supports h265 output streams.");
        }
        check_vaapi_input(&self.device.profiles, ctx)
    }

    fn tag(&self) -> &'static str {
        "hevc_vaapi"
    }

    fn name(&self) -> &'static str {
        "VaapiHevcTranscodeProfile"
    }
}

/// Encodes AV1 with VAAPI.
#[derive(Debug)]
pub struct VaapiAv1TranscodeProfile {
    pub device: VaapiDevice,
}

impl VaapiAv1TranscodeProfile {
    /// The profile for the device that was discovered, if any was.
    pub fn new(device: Option<VaapiDevice>) -> (r: Option<Self>)
        ensures
            r is Some <==> device is Some,
            r matches Some(p) ==> Some(p.device) == device,
    {
        match device {
            Some(device) => Some(VaapiAv1TranscodeProfile { device }),
            None => None,
        }
    }
}

impl TranscodingProfile for VaapiAv1TranscodeProfile {
    open spec fn spec_profile_type(&self) -> ProfileType {
        ProfileType::HardwareTranscode
    }

    open spec fn spec_stream_type(&self) -> StreamType {
        StreamType::Video
    }

    open spec fn spec_tag(&self) -> Seq<char> {
        "av1_vaapi"@
    }

    open spec fn spec_name(&self) -> Seq<char> {
        "VaapiAv1TranscodeProfile"@
    }

    open spec fn disabled_by(&self, machine: Machine) -> Option<Seq<char>> {
        no_av1(self.device)
    }

    open spec fn refuses(&self, ctx: ProfileContext) -> Option<Seq<char>> {
        if ctx.output_ctx.codec@ != "av1"@ {
            Some("Profile only supports av1 output streams."@)
        } else {
            vaapi_refuses(self.device.profiles@, ctx)
        }
    }

    open spec fn args(&self, ctx: ProfileContext, discont: Seq<Seq<char>>) -> Seq<Seq<char>> {
        vaapi_args(ctx, self.device.dri@, "av1_vaapi"@, false, false, "-b:v"@, discont)
    }

    fn profile_type(&self) -> ProfileType {
        ProfileType::HardwareTranscode
    }

    fn stream_type(&self) -> StreamType {
        StreamType::Video
    }

    fn is_enabled(&self, machine: &Machine) -> Result<(), NightfallError> {
        check_av1(&self.device)
    }

    fn build(&self, ctx: &ProfileContext, discont_flags: &Vec<String>) -> Option<Vec<String>> {
        Some(
            build_vaapi_args(
                ctx,
                self.device.dri.as_str(),
                "av1_vaapi",
                false,
                false,
                "-b:v",
                discont_flags,
            ),
        )
    }

    fn supports(&self, ctx: &ProfileContext) -> Result<(), NightfallError> {
        if !same(ctx.output_ctx.codec.as_str(), "av1") {
            return unsupported("Profile only supports av1 output streams.");
        }
        check_vaapi_input(&self.device.profiles, ctx)
    }

    fn tag(&self) -> &'static str {
        "av1_vaapi"
    }

    fn name(&self) -> &'static str {
        "VaapiAv1TranscodeProfile"
    }
}

}
