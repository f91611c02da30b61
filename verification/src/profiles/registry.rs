//! All profiles, in the order in which they are listed.

use vstd::prelude::*;

use crate::profiles::amf::{AmfAv1TranscodeProfile, AmfHevcTranscodeProfile, AmfTranscodeProfile};
use crate::profiles::context::{
    Machine, NightfallError, ProfileContext, ProfileType, StreamType, TranscodingProfile,
};
use crate::profiles::cuda::{
    CudaAv1TranscodeProfile, CudaHevcTranscodeProfile, CudaTranscodeProfile,
};
use crate::profiles::h265::{H265TranscodeProfile, HevcTransmuxProfile};
use crate::profiles::qsv::{QsvAv1TranscodeProfile, QsvHevcTranscodeProfile, QsvTranscodeProfile};
use crate::profiles::select::{enabled_of, enabled_profiles};
use crate::profiles::v4l2::{
    has_decoder, v4l2m2m_decoder_exists, V4l2HevcTranscodeProfile, V4l2TranscodeProfile,
};
use crate::profiles::vaapi::{
    VaapiAv1TranscodeProfile, VaapiDevice, VaapiHevcTranscodeProfile, VaapiTranscodeProfile,
};
use crate::profiles::vp9::Vp9TransmuxProfile;
use crate::text::views;

verus! {

/// One of the profiles.
#[derive(Debug)]
pub enum Profile {
    HevcTransmux(HevcTransmuxProfile),
    H265Transcode(H265TranscodeProfile),
    Vp9Transmux(Vp9TransmuxProfile),
    Cuda(CudaTranscodeProfile),
    CudaHevc(CudaHevcTranscodeProfile),
    CudaAv1(CudaAv1TranscodeProfile),
    Vaapi(VaapiTranscodeProfile),
    VaapiHevc(VaapiHevcTranscodeProfile),
    VaapiAv1(VaapiAv1TranscodeProfile),
    Qsv(QsvTranscodeProfile),
    QsvHevc(QsvHevcTranscodeProfile),
    QsvAv1(QsvAv1TranscodeProfile),
    V4l2(V4l2TranscodeProfile),
    V4l2Hevc(V4l2HevcTranscodeProfile),
    Amf(AmfTranscodeProfile),
    AmfHevc(AmfHevcTranscodeProfile),
    AmfAv1(AmfAv1TranscodeProfile),
}

impl TranscodingProfile for Profile {
    open spec fn spec_profile_type(&self) -> ProfileType {
        match self {
            Profile::HevcTransmux(p) => p.spec_profile_type(),
            Profile::H265Transcode(p) => p.spec_profile_type(),
            Profile::Vp9Transmux(p) => p.spec_profile_type(),
            Profile::Cuda(p) => p.spec_profile_type(),
            Profile::CudaHevc(p) => p.spec_profile_type(),
            Profile::CudaAv1(p) => p.spec_profile_type(),
            Profile::Vaapi(p) => p.spec_profile_type(),
            Profile::VaapiHevc(p) => p.spec_profile_type(),
            Profile::VaapiAv1(p) => p.spec_profile_type(),
            Profile::Qsv(p) => p.spec_profile_type(),
            Profile::QsvHevc(p) => p.spec_profile_type(),
            Profile::QsvAv1(p) => p.spec_profile_type(),
            Profile::V4l2(p) => p.spec_profile_type(),
            Profile::V4l2Hevc(p) => p.spec_profile_type(),
            Profile::Amf(p) => p.spec_profile_type(),
            Profile::AmfHevc(p) => p.spec_profile_type(),
            Profile::AmfAv1(p) => p.spec_profile_type(),
        }
    }

    open spec fn spec_stream_type(&self) -> StreamType {
        match self {
            Profile::HevcTransmux(p) => p.spec_stream_type(),
            Profile::H265Transcode(p) => p.spec_stream_type(),
            Profile::Vp9Transmux(p) => p.spec_stream_type(),
            Profile::Cuda(p) => p.spec_stream_type(),
            Profile::CudaHevc(p) => p.spec_stream_type(),
            Profile::CudaAv1(p) => p.spec_stream_type(),
            Profile::Vaapi(p) => p.spec_stream_type(),
            Profile::VaapiHevc(p) => p.spec_stream_type(),
            Profile::VaapiAv1(p) => p.spec_stream_type(),
            Profile::Qsv(p) => p.spec_stream_type(),
            Profile::QsvHevc(p) => p.spec_stream_type(),
            Profile::QsvAv1(p) => p.spec_stream_type(),
            Profile::V4l2(p) => p.spec_stream_type(),
            Profile::V4l2Hevc(p) => p.spec_stream_type(),
            Profile::Amf(p) => p.spec_stream_type(),
            Profile::AmfHevc(p) => p.spec_stream_type(),
            Profile::AmfAv1(p) => p.spec_stream_type(),
        }
    }

    open spec fn spec_tag(&self) -> Seq<char> {
        match self {
            Profile::HevcTransmux(p) => p.spec_tag(),
            Profile::H265Transcode(p) => p.spec_tag(),
            Profile::Vp9Transmux(p) => p.spec_tag(),
            Profile::Cuda(p) => p.spec_tag(),
            Profile::CudaHevc(p) => p.spec_tag(),
            Profile::CudaAv1(p) => p.spec_tag(),
            Profile::Vaapi(p) => p.spec_tag(),
            Profile::VaapiHevc(p) => p.spec_tag(),
            Profile::VaapiAv1(p) => p.spec_tag(),
            Profile::Qsv(p) => p.spec_tag(),
            Profile::QsvHevc(p) => p.spec_tag(),
            Profile::QsvAv1(p) => p.spec_tag(),
            Profile::V4l2(p) => p.spec_tag(),
            Profile::V4l2Hevc(p) => p.spec_tag(),
            Profile::Amf(p) => p.spec_tag(),
            Profile::AmfHevc(p) => p.spec_tag(),
            Profile::AmfAv1(p) => p.spec_tag(),
        }
    }

    open spec fn spec_name(&self) -> Seq<char> {
        match self {
            Profile::HevcTransmux(p) => p.spec_name(),
            Profile::H265Transcode(p) => p.spec_name(),
            Profile::Vp9Transmux(p) => p.spec_name(),
            Profile::Cuda(p) => p.spec_name(),
            Profile::CudaHevc(p) => p.spec_name(),
            Profile::CudaAv1(p) => p.spec_name(),
            Profile::Vaapi(p) => p.spec_name(),
            Profile::VaapiHevc(p) => p.spec_name(),
            Profile::VaapiAv1(p) => p.spec_name(),
            Profile::Qsv(p) => p.spec_name(),
            Profile::QsvHevc(p) => p.spec_name(),
            Profile::QsvAv1(p) => p.spec_name(),
            Profile::V4l2(p) => p.spec_name(),
            Profile::V4l2Hevc(p) => p.spec_name(),
            Profile::Amf(p) => p.spec_name(),
            Profile::AmfHevc(p) => p.spec_name(),
            Profile::AmfAv1(p) => p.spec_name(),
        }
    }

    open spec fn disabled_by(&self, machine: Machine) -> Option<Seq<char>> {
        match self {
            Profile::HevcTransmux(p) => p.disabled_by(machine),
            Profile::H265Transcode(p) => p.disabled_by(machine),
            Profile::Vp9Transmux(p) => p.disabled_by(machine),
            Profile::Cuda(p) => p.disabled_by(machine),
            Profile::CudaHevc(p) => p.disabled_by(machine),
            Profile::CudaAv1(p) => p.disabled_by(machine),
            Profile::Vaapi(p) => p.disabled_by(machine),
            Profile::VaapiHevc(p) => p.disabled_by(machine),
            Profile::VaapiAv1(p) => p.disabled_by(machine),
            Profile::Qsv(p) => p.disabled_by(machine),
            Profile::QsvHevc(p) => p.disabled_by(machine),
            Profile::QsvAv1(p) => p.disabled_by(machine),
            Profile::V4l2(p) => p.disabled_by(machine),
            Profile::V4l2Hevc(p) => p.disabled_by(machine),
            Profile::Amf(p) => p.disabled_by(machine),
            Profile::AmfHevc(p) => p.disabled_by(machine),
            Profile::AmfAv1(p) => p.disabled_by(machine),
        }
    }

    open spec fn refuses(&self, ctx: ProfileContext) -> Option<Seq<char>> {
        match self {
            Profile::HevcTransmux(p) => p.refuses(ctx),
            Profile::H265Transcode(p) => p.refuses(ctx),
            Profile::Vp9Transmux(p) => p.refuses(ctx),
            Profile::Cuda(p) => p.refuses(ctx),
            Profile::CudaHevc(p) => p.refuses(ctx),
            Profile::CudaAv1(p) => p.refuses(ctx),
            Profile::Vaapi(p) => p.refuses(ctx),
            Profile::VaapiHevc(p) => p.refuses(ctx),
            Profile::VaapiAv1(p) => p.refuses(ctx),
            Profile::Qsv(p) => p.refuses(ctx),
            Profile::QsvHevc(p) => p.refuses(ctx),
            Profile::QsvAv1(p) => p.refuses(ctx),
            Profile::V4l2(p) => p.refuses(ctx),
            Profile::V4l2Hevc(p) => p.refuses(ctx),
            Profile::Amf(p) => p.refuses(ctx),
            Profile::AmfHevc(p) => p.refuses(ctx),
            Profile::AmfAv1(p) => p.refuses(ctx),
        }
    }

    open spec fn args(&self, ctx: ProfileContext, discont: Seq<Seq<char>>) -> Seq<Seq<char>> {
        match self {
            Profile::HevcTransmux(p) => p.args(ctx, discont),
            Profile::H265Transcode(p) => p.args(ctx, discont),
            Profile::Vp9Transmux(p) => p.args(ctx, discont),
            Profile::Cuda(p) => p.args(ctx, discont),
            Profile::CudaHevc(p) => p.args(ctx, discont),
            Profile::CudaAv1(p) => p.args(ctx, discont),
            Profile::Vaapi(p) => p.args(ctx, discont),
            Profile::VaapiHevc(p) => p.args(ctx, discont),
            Profile::VaapiAv1(p) => p.args(ctx, discont),
            Profile::Qsv(p) => p.args(ctx, discont),
            Profile::QsvHevc(p) => p.args(ctx, discont),
            Profile::QsvAv1(p) => p.args(ctx, discont),
            Profile::V4l2(p) => p.args(ctx, discont),
            Profile::V4l2Hevc(p) => p.args(ctx, discont),
            Profile::Amf(p) => p.args(ctx, discont),
            Profile::AmfHevc(p) => p.args(ctx, discont),
            Profile::AmfAv1(p) => p.args(ctx, discont),
        }
    }

    fn profile_type(&self) -> ProfileType {
        match self {
            Profile::HevcTransmux(p) => p.profile_type(),
            Profile::H265Transcode(p) => p.profile_type(),
            Profile::Vp9Transmux(p) => p.profile_type(),
            Profile::Cuda(p) => p.profile_type(),
            Profile::CudaHevc(p) => p.profile_type(),
            Profile::CudaAv1(p) => p.profile_type(),
            Profile::Vaapi(p) => p.profile_type(),
            Profile::VaapiHevc(p) => p.profile_type(),
            Profile::VaapiAv1(p) => p.profile_type(),
            Profile::Qsv(p) => p.profile_type(),
            Profile::QsvHevc(p) => p.profile_type(),
            Profile::QsvAv1(p) => p.profile_type(),
            Profile::V4l2(p) => p.profile_type(),
            Profile::V4l2Hevc(p) => p.profile_type(),
            Profile::Amf(p) => p.profile_type(),
            Profile::AmfHevc(p) => p.profile_type(),
            Profile::AmfAv1(p) => p.profile_type(),
        }
    }

    fn stream_type(&self) -> StreamType {
        match self {
            Profile::HevcTransmux(p) => p.stream_type(),
            Profile::H265Transcode(p) => p.stream_type(),
            Profile::Vp9Transmux(p) => p.stream_type(),
            Profile::Cuda(p) => p.stream_type(),
            Profile::CudaHevc(p) => p.stream_type(),
            Profile::CudaAv1(p) => p.stream_type(),
            Profile::Vaapi(p) => p.stream_type(),
            Profile::VaapiHevc(p) => p.stream_type(),
            Profile::VaapiAv1(p) => p.stream_type(),
            Profile::Qsv(p) => p.stream_type(),
            Profile::QsvHevc(p) => p.stream_type(),
            Profile::QsvAv1(p) => p.stream_type(),
            Profile::V4l2(p) => p.stream_type(),
            Profile::V4l2Hevc(p) => p.stream_type(),
            Profile::Amf(p) => p.stream_type(),
            Profile::AmfHevc(p) => p.stream_type(),
            Profile::AmfAv1(p) => p.stream_type(),
        }
    }

    fn is_enabled(&self, machine: &Machine) -> Result<(), NightfallError> {
        match self {
            Profile::HevcTransmux(p) => p.is_enabled(machine),
            Profile::H265Transcode(p) => p.is_enabled(machine),
            Profile::Vp9Transmux(p) => p.is_enabled(machine),
            Profile::Cuda(p) => p.is_enabled(machine),
            Profile::CudaHevc(p) => p.is_enabled(machine),
            Profile::CudaAv1(p) => p.is_enabled(machine),
            Profile::Vaapi(p) => p.is_enabled(machine),
            Profile::VaapiHevc(p) => p.is_enabled(machine),
            Profile::VaapiAv1(p) => p.is_enabled(machine),
            Profile::Qsv(p) => p.is_enabled(machine),
            Profile::QsvHevc(p) => p.is_enabled(machine),
            Profile::QsvAv1(p) => p.is_enabled(machine),
            Profile::V4l2(p) => p.is_enabled(machine),
            Profile::V4l2Hevc(p) => p.is_enabled(machine),
            Profile::Amf(p) => p.is_enabled(machine),
            Profile::AmfHevc(p) => p.is_enabled(machine),
            Profile::AmfAv1(p) => p.is_enabled(machine),
        }
    }

    fn build(&self, ctx: &ProfileContext, discont_flags: &Vec<String>) -> Option<Vec<String>> {
        match self {
            Profile::HevcTransmux(p) => p.build(ctx, discont_flags),
            Profile::H265Transcode(p) => p.build(ctx, discont_flags),
            Profile::Vp9Transmux(p) => p.build(ctx, discont_flags),
            Profile::Cuda(p) => p.build(ctx, discont_flags),
            Profile::CudaHevc(p) => p.build(ctx, discont_flags),
            Profile::CudaAv1(p) => p.build(ctx, discont_flags),
            Profile::Vaapi(p) => p.build(ctx, discont_flags),
            Profile::VaapiHevc(p) => p.build(ctx, discont_flags),
            Profile::VaapiAv1(p) => p.build(ctx, discont_flags),
            Profile::Qsv(p) => p.build(ctx, discont_flags),
            Profile::QsvHevc(p) => p.build(ctx, discont_flags),
            Profile::QsvAv1(p) => p.build(ctx, discont_flags),
            Profile::V4l2(p) => p.build(ctx, discont_flags),
            Profile::V4l2Hevc(p) => p.build(ctx, discont_flags),
            Profile::Amf(p) => p.build(ctx, discont_flags),
            Profile::AmfHevc(p) => p.build(ctx, discont_flags),
            Profile::AmfAv1(p) => p.build(ctx, discont_flags),
        }
    }

    fn supports(&self, ctx: &ProfileContext) -> Result<(), NightfallError> {
        match self {
            Profile::HevcTransmux(p) => p.supports(ctx),
            Profile::H265Transcode(p) => p.supports(ctx),
            Profile::Vp9Transmux(p) => p.supports(ctx),
            Profile::Cuda(p) => p.supports(ctx),
            Profile::CudaHevc(p) => p.supports(ctx),
            Profile::CudaAv1(p) => p.supports(ctx),
            Profile::Vaapi(p) => p.supports(ctx),
            Profile::VaapiHevc(p) => p.supports(ctx),
            Profile::VaapiAv1(p) => p.supports(ctx),
            Profile::Qsv(p) => p.supports(ctx),
            Profile::QsvHevc(p) => p.supports(ctx),
            Profile::QsvAv1(p) => p.supports(ctx),
            Profile::V4l2(p) => p.supports(ctx),
            Profile::V4l2Hevc(p) => p.supports(ctx),
            Profile::Amf(p) => p.supports(ctx),
            Profile::AmfHevc(p) => p.supports(ctx),
            Profile::AmfAv1(p) => p.supports(ctx),
        }
    }

    fn tag(&self) -> &'static str {
        match self {
            Profile::HevcTransmux(p) => p.tag(),
            Profile::H265Transcode(p) => p.tag(),
            Profile::Vp9Transmux(p) => p.tag(),
            Profile::Cuda(p) => p.tag(),
            Profile::CudaHevc(p) => p.tag(),
            Profile::CudaAv1(p) => p.tag(),
            Profile::Vaapi(p) => p.tag(),
            Profile::VaapiHevc(p) => p.tag(),
            Profile::VaapiAv1(p) => p.tag(),
            Profile::Qsv(p) => p.tag(),
            Profile::QsvHevc(p) => p.tag(),
            Profile::QsvAv1(p) => p.tag(),
            Profile::V4l2(p) => p.tag(),
            Profile::V4l2Hevc(p) => p.tag(),
            Profile::Amf(p) => p.tag(),
            Profile::AmfHevc(p) => p.tag(),
            Profile::AmfAv1(p) => p.tag(),
        }
    }

    fn name(&self) -> &'static str {
        match self {
            Profile::HevcTransmux(p) => p.name(),
            Profile::H265Transcode(p) => p.name(),
            Profile::Vp9Transmux(p) => p.name(),
            Profile::Cuda(p) => p.name(),
            Profile::CudaHevc(p) => p.name(),
            Profile::CudaAv1(p) => p.name(),
            Profile::Vaapi(p) => p.name(),
            Profile::VaapiHevc(p) => p.name(),
            Profile::VaapiAv1(p) => p.name(),
            Profile::Qsv(p) => p.name(),
            Profile::QsvHevc(p) => p.name(),
            Profile::QsvAv1(p) => p.name(),
            Profile::V4l2(p) => p.name(),
            Profile::V4l2Hevc(p) => p.name(),
            Profile::Amf(p) => p.name(),
            Profile::AmfHevc(p) => p.name(),
            Profile::AmfAv1(p) => p.name(),
        }
    }
}

/// What the server was built for, and with.
#[derive(Clone, Copy, Debug, PartialEq, Eq, Structural)]
pub struct BuildFlags {
    pub unix: bool,
    pub windows: bool,
    pub cuda: bool,
    pub vaapi: bool,
    pub qsv: bool,
    pub v4l2: bool,
}

/// The devices that were discovered for the VAAPI profiles, one for each.
#[derive(Debug)]
pub struct VaapiDevices {
    pub h264: Option<VaapiDevice>,
    pub hevc: Option<VaapiDevice>,
    pub av1: Option<VaapiDevice>,
}

/// The profiles that use the CPU.
pub open spec fn software_profiles() -> Seq<Option<Profile>> {
    seq![
        Some(Profile::HevcTransmux(HevcTransmuxProfile)),
        Some(Profile::H265Transcode(H265TranscodeProfile)),
        Some(Profile::Vp9Transmux(Vp9TransmuxProfile)),
    ]
}

/// The profiles for NVIDIA.
pub open spec fn cuda_profiles() -> Seq<Option<Profile>> {
    seq![
        Some(Profile::Cuda(CudaTranscodeProfile)),
        Some(Profile::CudaHevc(CudaHevcTranscodeProfile)),
        Some(Profile::CudaAv1(CudaAv1TranscodeProfile)),
    ]
}

/// The profiles for VAAPI, each where its device was discovered.
pub open spec fn vaapi_profiles(devices: VaapiDevices) -> Seq<Option<Profile>> {
    seq![
        match devices.h264 {
            Some(device) => Some(Profile::Vaapi(VaapiTranscodeProfile { device })),
            None => None,
        },
        match devices.hevc {
            Some(device) => Some(Profile::VaapiHevc(VaapiHevcTranscodeProfile { device })),
            None => None,
        },
        match devices.av1 {
            Some(device) => Some(Profile::VaapiAv1(VaapiAv1TranscodeProfile { device })),
            None => None,
        },
    ]
}

/// The profiles for Quick Sync.
pub open spec fn qsv_profiles() -> Seq<Option<Profile>> {
    seq![
        Some(Profile::Qsv(QsvTranscodeProfile)),
        Some(Profile::QsvHevc(QsvHevcTranscodeProfile)),
        Some(Profile::QsvAv1(QsvAv1TranscodeProfile)),
    ]
}

/// The profiles for V4L2.
pub open spec fn v4l2_profiles(decoder: bool) -> Seq<Option<Profile>> {
    seq![
        Some(Profile::V4l2(V4l2TranscodeProfile { decoder })),
        Some(Profile::V4l2Hevc(V4l2HevcTranscodeProfile { decoder })),
    ]
}

/// The profiles for AMD on Windows.
pub open spec fn amf_profiles() -> Seq<Option<Profile>> {
    seq![
        Some(Profile::Amf(AmfTranscodeProfile)),
        Some(Profile::AmfHevc(AmfHevcTranscodeProfile)),
        Some(Profile::AmfAv1(AmfAv1TranscodeProfile)),
    ]
}

/// The profiles, where they are in the build.
pub open spec fn built(there: bool, profiles: Seq<Option<Profile>>) -> Seq<Option<Profile>> {
    if there {
        profiles
    } else {
        Seq::empty()
    }
}

/// All profiles of a build, in their order.
pub open spec fn listed(build: BuildFlags, devices: VaapiDevices, machine: Machine) -> Seq<
    Option<Profile>,
> {
    software_profiles() + built(build.unix && build.cuda, cuda_profiles()) + built(
        build.unix && build.vaapi,
        vaapi_profiles(devices),
    ) + built(build.qsv, qsv_profiles()) + built(
        build.unix && build.v4l2,
        v4l2_profiles(has_decoder(views(machine.dev_names@))),
    ) + built(build.windows, amf_profiles())
}

/// Lists the profiles that use the CPU.
fn list_software() -> (r: Vec<Option<Profile>>)
    ensures
        r@ == software_profiles(),
{
    let mut r: Vec<Option<Profile>> = Vec::new();
    r.push(Some(Profile::HevcTransmux(HevcTransmuxProfile)));
    r.push(Some(Profile::H265Transcode(H265TranscodeProfile)));
    r.push(Some(Profile::Vp9Transmux(Vp9TransmuxProfile)));
    assert(r@ =~= software_profiles());
    r
}

/// Lists the profiles for NVIDIA.
fn list_cuda() -> (r: Vec<Option<Profile>>)
    ensures
        r@ == cuda_profiles(),
{
    let mut r: Vec<Option<Profile>> = Vec::new();
    r.push(Some(Profile::Cuda(CudaTranscodeProfile)));
    r.push(Some(Profile::CudaHevc(CudaHevcTranscodeProfile)));
    r.push(Some(Profile::CudaAv1(CudaAv1TranscodeProfile)));
    assert(r@ =~= cuda_profiles());
    r
}

/// Lists the profiles for VAAPI.
fn list_vaapi(devices: VaapiDevices) -> (r: Vec<Option<Profile>>)
    ensures
        r@ == vaapi_profiles(devices),
{
    let mut r: Vec<Option<Profile>> = Vec::new();
    r.push(
        match VaapiTranscodeProfile::new(devices.h264) {
            Some(p) => Some(Profile::Vaapi(p)),
            None => None,
        },
    );
    r.push(
        match VaapiHevcTranscodeProfile::new(devices.hevc) {
            Some(p) => Some(Profile::VaapiHevc(p)),
            None => None,
        },
    );
    r.push(
        match VaapiAv1TranscodeProfile::new(devices.av1) {
            Some(p) => Some(Profile::VaapiAv1(p)),
            None => None,
        },
    );
    assert(r@ =~= vaapi_profiles(devices));
    r
}

/// Lists the profiles for Quick Sync.
fn list_qsv() -> (r: Vec<Option<Profile>>)
    ensures
        r@ == qsv_profiles(),
{
    let mut r: Vec<Option<Profile>> = Vec::new();
    r.push(Some(Profile::Qsv(QsvTranscodeProfile)));
    r.push(Some(Profile::QsvHevc(QsvHevcTranscodeProfile)));
    r.push(Some(Profile::QsvAv1(QsvAv1TranscodeProfile)));
    assert(r@ =~= qsv_profiles());
    r
}

/// Lists the profiles for V4L2.
fn list_v4l2(decoder: bool) -> (r: Vec<Option<Profile>>)
    ensures
        r@ == v4l2_profiles(decoder),
{
    let mut r: Vec<Option<Profile>> = Vec::new();
    r.push(Some(Profile::V4l2(V4l2TranscodeProfile { decoder })));
    r.push(Some(Profile::V4l2Hevc(V4l2HevcTranscodeProfile { decoder })));
    assert(r@ =~= v4l2_profiles(decoder));
    r
}

/// Lists the profiles for AMD on Windows.
fn list_amf() -> (r: Vec<Option<Profile>>)
    ensures
        r@ == amf_profiles(),
{
    let mut r: Vec<Option<Profile>> = Vec::new();
    r.push(Some(Profile::Amf(AmfTranscodeProfile)));
    r.push(Some(Profile::AmfHevc(AmfHevcTranscodeProfile)));
    r.push(Some(Profile::AmfAv1(AmfAv1TranscodeProfile)));
    assert(r@ =~= amf_profiles());
    r
}

/// Lists all profiles of a build, in their order.
pub fn list_profiles(build: BuildFlags, devices: VaapiDevices, machine: &Machine) -> (r: Vec<
    Option<Profile>,
>)
    ensures
        r@ == listed(build, devices, *machine),
{
    let mut r = list_software();
    if build.unix && build.cuda {
        r.append(&mut list_cuda());
    }
    if build.unix && build.vaapi {
        r.append(&mut list_vaapi(devices));
    }
    if build.qsv {
        r.append(&mut list_qsv());
    }
    if build.unix && build.v4l2 {
        r.append(&mut list_v4l2(v4l2m2m_decoder_exists(machine)));
    }
    if build.windows {
        r.append(&mut list_amf());
    }
    r
}

/// The profiles that are used: those of the build that the machine can use, in their order.
pub fn profiles_init(build: BuildFlags, devices: VaapiDevices, machine: &Machine) -> (r: Vec<Profile>)
    ensures
        r@ == enabled_of(listed(build, devices, *machine), *machine),
{
    enabled_profiles(list_profiles(build, devices, machine), machine)
}

/// The profiles of a build: those that use the CPU always, and of the others those that it was built with, on the
/// systems that have them.
#[verifier::spinoff_prover]
pub proof fn law_builds_have_their_profiles(build: BuildFlags, devices: VaapiDevices, machine: Machine)
    ensures
        ({
            let all = listed(build, devices, machine);
            &&& all.contains(Some(Profile::HevcTransmux(HevcTransmuxProfile)))
            &&& all.contains(Some(Profile::H265Transcode(H265TranscodeProfile)))
            &&& all.contains(Some(Profile::Vp9Transmux(Vp9TransmuxProfile)))
            &&& build.unix && build.cuda ==> all.contains(Some(Profile::Cuda(CudaTranscodeProfile)))
                && all.contains(Some(Profile::CudaHevc(CudaHevcTranscodeProfile))) && all.contains(
                Some(Profile::CudaAv1(CudaAv1TranscodeProfile)),
            )
            &&& build.qsv ==> all.contains(Some(Profile::Qsv(QsvTranscodeProfile))) && all.contains(
                Some(Profile::QsvHevc(QsvHevcTranscodeProfile)),
            ) && all.contains(Some(Profile::QsvAv1(QsvAv1TranscodeProfile)))
            &&& build.windows ==> all.contains(Some(Profile::Amf(AmfTranscodeProfile))) && all.contains(
                Some(Profile::AmfHevc(AmfHevcTranscodeProfile)),
            ) && all.contains(Some(Profile::AmfAv1(AmfAv1TranscodeProfile)))
            &&& build.unix && build.vaapi && devices.h264 is Some ==> all.contains(
                Some(Profile::Vaapi((VaapiTranscodeProfile { device: devices.h264->0 }))),
            )
            &&& build.unix && build.vaapi && devices.hevc is Some ==> all.contains(
                Some(Profile::VaapiHevc((VaapiHevcTranscodeProfile { device: devices.hevc->0 }))),
            )
            &&& build.unix && build.vaapi && devices.av1 is Some ==> all.contains(
                Some(Profile::VaapiAv1((VaapiAv1TranscodeProfile { device: devices.av1->0 }))),
            )
        }),
{
    let all = listed(build, devices, machine);
    let a = software_profiles();
    let b = built(build.unix && build.cuda, cuda_profiles());
    let c = built(build.unix && build.vaapi, vaapi_profiles(devices));
    let d = built(build.qsv, qsv_profiles());
    let e = built(
        build.unix && build.v4l2,
        v4l2_profiles(has_decoder(views(machine.dev_names@))),
    );
    let f = built(build.windows, amf_profiles());
    assert(all == a + b + c + d + e + f);
    assert(all[0] == a[0] && all[1] == a[1] && all[2] == a[2]);
    let nb = a.len() as int;
    if build.unix && build.cuda {
        assert(all[nb] == b[0] && all[nb + 1] == b[1] && all[nb + 2] == b[2]);
    }
    let nc = nb + b.len();
    if build.unix && build.vaapi {
        assert(all[nc] == c[0] && all[nc + 1] == c[1] && all[nc + 2] == c[2]);
    }
    let nd = nc + c.len();
    if build.qsv {
        assert(all[nd] == d[0] && all[nd + 1] == d[1] && all[nd + 2] == d[2]);
    }
    let nf = nd + d.len() + e.len();
    if build.windows {
        assert(all[nf] == f[0] && all[nf + 1] == f[1] && all[nf + 2] == f[2]);
    }
}

/// A build without a family has none of its profiles.
#[verifier::spinoff_prover]
#[verifier::rlimit(40)]
pub proof fn law_builds_have_no_other_profiles(
    build: BuildFlags,
    devices: VaapiDevices,
    machine: Machine,
    k: int,
)
    requires
        0 <= k < listed(build, devices, machine).len(),
        listed(build, devices, machine)[k] is Some,
    ensures
        ({
            let p = listed(build, devices, machine)[k]->0;
            &&& p is Cuda || p is CudaHevc || p is CudaAv1 ==> build.unix && build.cuda
            &&& p is Vaapi || p is VaapiHevc || p is VaapiAv1 ==> build.unix && build.vaapi
            &&& p is Qsv || p is QsvHevc || p is QsvAv1 ==> build.qsv
            &&& p is V4l2 || p is V4l2Hevc ==> build.unix && build.v4l2
            &&& p is Amf || p is AmfHevc || p is AmfAv1 ==> build.windows
        }),
{
    let all = listed(build, devices, machine);
    let a = software_profiles();
    let b = built(build.unix && build.cuda, cuda_profiles());
    let c = built(build.unix && build.vaapi, vaapi_profiles(devices));
    let d = built(build.qsv, qsv_profiles());
    let e = built(
        build.unix && build.v4l2,
        v4l2_profiles(has_decoder(views(machine.dev_names@))),
    );
    let f = built(build.windows, amf_profiles());
    assert(all == a + b + c + d + e + f);
    let nb = a.len() as int;
    let nc = nb + b.len();
    let nd = nc + c.len();
    let ne = nd + d.len();
    let nf = ne + e.len();
    if k < nb {
        assert(all[k] == a[k]);
    } else if k < nc {
        assert(all[k] == b[k - nb]);
    } else if k < nd {
        assert(all[k] == c[k - nc]);
    } else if k < ne {
        assert(all[k] == d[k - nd]);
    } else if k < nf {
        assert(all[k] == e[k - ne]);
    } else {
        assert(all[k] == f[k - nf]);
    }
}

}
