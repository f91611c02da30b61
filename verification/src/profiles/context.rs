//! What a profile is asked to do, and what profiles have in common.

use vstd::prelude::*;

use crate::text::{parse_unsigned, starts_with, unsigned, views};

verus! {

/// Why a profile cannot be used, or a stream not be produced.
#[derive(Debug)]
pub enum NightfallError {
    /// The profile does not support what it is asked to do.
    ProfileNotSupported(String),
    /// Reading or writing failed.
    IoError(String),
}

/// How a profile works, in the order in which profiles are listed; the last of a list is tried first.
#[derive(Clone, Copy, Debug, PartialEq, Eq, Structural)]
pub enum ProfileType {
    Transcode,
    Transmux,
    HardwareTranscode,
}

#[derive(Clone, Copy, Debug, PartialEq, Eq, Structural)]
pub enum StreamType {
    Video,
    Audio,
    Subtitle,
}

/// The stream to read.
#[derive(Debug)]
pub struct InputCtx {
    pub stream: usize,
    pub audio_channels: u64,
    pub codec: String,
    pub pix_fmt: String,
    pub profile: String,
    pub bframes: Option<u64>,
    /// Frames per second, a double by its bit pattern.
    pub fps: u64,
    pub bitrate: u64,
    pub seek: Option<i64>,
}

/// The stream to write.
#[derive(Debug)]
pub struct OutputCtx {
    pub codec: String,
    pub start_num: u32,
    pub outdir: String,
    pub max_to_transcode: Option<u64>,
    pub bitrate: Option<u64>,
    pub height: Option<i64>,
    pub width: Option<i64>,
    pub audio_channels: u64,
    pub target_gop: u32,
}

/// What a profile is asked to do.
#[derive(Debug)]
pub struct ProfileContext {
    pub file: String,
    pub pre_args: Vec<String>,
    pub input_ctx: InputCtx,
    pub output_ctx: OutputCtx,
    pub ffmpeg_bin: String,
    pub force_software_decode: bool,
}

/// The first stream of an unknown kind, in stereo.
pub open spec fn is_default_input(i: InputCtx) -> bool {
    &&& i.stream == 0
    &&& i.audio_channels == 2
    &&& i.codec@.len() == 0
    &&& i.pix_fmt@.len() == 0
    &&& i.profile@.len() == 0
    &&& i.bframes is None
    &&& i.fps == 0
    &&& i.bitrate == 0
    &&& i.seek is None
}

/// The first segment of a stream as it is, in segments of five seconds.
pub open spec fn is_default_output(o: OutputCtx) -> bool {
    &&& o.codec@.len() == 0
    &&& o.start_num == 0
    &&& o.outdir@.len() == 0
    &&& o.max_to_transcode is None
    &&& o.bitrate is None
    &&& o.height is None
    &&& o.width is None
    &&& o.audio_channels == 2
    &&& o.target_gop == 5
}

impl Default for InputCtx {
    fn default() -> (r: Self)
        ensures
            is_default_input(r),
    {
        InputCtx {
            stream: 0,
            audio_channels: 2,
            codec: String::new(),
            pix_fmt: String::new(),
            profile: String::new(),
            bframes: None,
            fps: 0,
            bitrate: 0,
            seek: None,
        }
    }
}

impl Default for OutputCtx {
    fn default() -> (r: Self)
        ensures
            is_default_output(r),
    {
        OutputCtx {
            codec: String::new(),
            start_num: 0,
            outdir: String::new(),
            max_to_transcode: None,
            bitrate: None,
            height: None,
            width: None,
            audio_channels: 2,
            target_gop: 5,
        }
    }
}

impl Default for ProfileContext {
    fn default() -> (r: Self)
        ensures
            r.file@.len() == 0,
            r.pre_args@.len() == 0,
            is_default_input(r.input_ctx),
            is_default_output(r.output_ctx),
            r.ffmpeg_bin@ == "ffmpeg"@,
            !r.force_software_decode,
    {
        ProfileContext {
            file: String::new(),
            pre_args: Vec::new(),
            input_ctx: InputCtx::default(),
            output_ctx: OutputCtx::default(),
            ffmpeg_bin: "ffmpeg".to_owned(),
            force_software_decode: false,
        }
    }
}

/// The position of the first segment, in seconds, is a 32-bit number.
pub open spec fn seekable(ctx: ProfileContext) -> bool {
    ctx.output_ctx.start_num * ctx.output_ctx.target_gop <= u32::MAX
}

/// What is known of the machine.
#[derive(Debug)]
pub struct Machine {
    pub macos: bool,
    pub linux: bool,
    /// The names of the entries of `/dev`.
    pub dev_names: Vec<String>,
    /// The names of the entries of `/dev/dri`.
    pub dri_names: Vec<String>,
}

/// The name is `prefix` and a number after it.
pub open spec fn is_numbered(name: Seq<char>, prefix: Seq<char>) -> bool {
    prefix.is_prefix_of(name) && unsigned(
        name.subrange(prefix.len() as int, name.len() as int),
        u32::MAX as nat,
    ) is Some
}

/// Whether the name is `prefix` and a number after it.
pub fn is_numbered_name(name: &str, prefix: &str) -> (r: bool)
    ensures
        r == is_numbered(name@, prefix@),
{
    if !starts_with(name, prefix) {
        return false;
    }
    let v = crate::text::chars_of(name);
    let k: usize = crate::text::chars_of(prefix).len();
    let rest = crate::text::string_of(&v, k, v.len());
    parse_unsigned(rest.as_str(), u32::MAX as u64).is_some()
}

/// A way to make one stream out of another.
pub trait TranscodingProfile {
    spec fn spec_profile_type(&self) -> ProfileType;

    spec fn spec_stream_type(&self) -> StreamType;

    spec fn spec_tag(&self) -> Seq<char>;

    spec fn spec_name(&self) -> Seq<char>;

    /// Why the profile cannot be used on the machine, `None` where it can.
    spec fn disabled_by(&self, machine: Machine) -> Option<Seq<char>>;

    /// Why the profile does not support what it is asked to do, `None` where it does.
    spec fn refuses(&self, ctx: ProfileContext) -> Option<Seq<char>>;

    /// The arguments, where `discont` are those by which segments are marked as discontinuous.
    spec fn args(&self, ctx: ProfileContext, discont: Seq<Seq<char>>) -> Seq<Seq<char>>;

    fn profile_type(&self) -> (r: ProfileType)
        ensures
            r == self.spec_profile_type(),
    ;

    fn stream_type(&self) -> (r: StreamType)
        ensures
            r == self.spec_stream_type(),
    ;

    /// Whether the profile can be used on the machine.
    fn is_enabled(&self, machine: &Machine) -> (r: Result<(), NightfallError>)
        ensures
            r is Ok <==> self.disabled_by(*machine) is None,
            r matches Err(e) ==> (e matches NightfallError::ProfileNotSupported(why) && Some(why@)
                == self.disabled_by(*machine)),
    ;

    /// Builds the arguments for ffmpeg.
    fn build(&self, ctx: &ProfileContext, discont_flags: &Vec<String>) -> (r: Option<Vec<String>>)
        requires
            seekable(*ctx),
        ensures
            r is Some,
            r matches Some(v) ==> views(v@) == self.args(*ctx, views(discont_flags@)),
    ;

    /// Whether the profile supports what it is asked to do.
    fn supports(&self, ctx: &ProfileContext) -> (r: Result<(), NightfallError>)
        ensures
            r is Ok <==> self.refuses(*ctx) is None,
            r matches Err(e) ==> (e matches NightfallError::ProfileNotSupported(why) && Some(why@)
                == self.refuses(*ctx)),
    ;

    fn tag(&self) -> (r: &'static str)
        ensures
            r@ == self.spec_tag(),
    ;

    fn name(&self) -> (r: &'static str)
        ensures
            r@ == self.spec_name(),
    ;

    /// Whether the profile writes its data, instead of progress information, to its output.
    fn is_stdio_stream(&self) -> (r: bool)
        default_ensures
            !r,
    {
        false
    }
}

/// An error with this reason.
pub fn unsupported(why: &str) -> (r: Result<(), NightfallError>)
    ensures
        r matches Err(e) && (e matches NightfallError::ProfileNotSupported(w) && w@ == why@),
{
    Err(NightfallError::ProfileNotSupported(why.to_owned()))
}

/// One of the names is `prefix` and a number after it.
pub open spec fn has_numbered(names: Seq<Seq<char>>, prefix: Seq<char>) -> bool {
    exists|i: int| 0 <= i < names.len() && is_numbered(#[trigger] names[i], prefix)
}

/// Whether one of the names is `prefix` and a number after it.
pub fn any_numbered(names: &Vec<String>, prefix: &str) -> (r: bool)
    ensures
        r == has_numbered(views(names@), prefix@),
{
    let mut i: usize = 0;
    while i < names.len()
        invariant
            0 <= i <= names@.len(),
            forall|j: int| 0 <= j < i ==> !is_numbered(#[trigger] views(names@)[j], prefix@),
        decreases names@.len() - i,
    {
        assert(views(names@)[i as int] == names@[i as int]@);
        if is_numbered_name(names[i].as_str(), prefix) {
            return true;
        }
        i = i + 1;
    }
    false
}

}
