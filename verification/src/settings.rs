//! The settings of the server.

use vstd::prelude::*;

use crate::scanner::records::copy_text;
use crate::text::{cat3, join, joined, same, views};

verus! {

/// The key with which TMDB is asked where none is set.
pub open spec fn default_key() -> Seq<char> {
    "38c372f5bc572c8aadde7a802638534e"@
}

/// The shared community key, which is used where no key is set.
pub fn default_tmdb_key() -> (r: String)
    ensures
        r@ == default_key(),
{
    "38c372f5bc572c8aadde7a802638534e".to_string()
}

/// How video is encoded in hardware.
#[derive(Clone, Copy, Debug, PartialEq, Eq, Structural)]
pub enum HwAccelMethod {
    Off,
    Auto,
    Vaapi,
    Cuda,
    Qsv,
    V4l2,
    Amf,
}

impl Default for HwAccelMethod {
    fn default() -> (r: Self)
        ensures
            r == HwAccelMethod::Off,
    {
        HwAccelMethod::Off
    }
}

/// How video is decoded.
#[derive(Clone, Copy, Debug, PartialEq, Eq, Structural)]
pub enum DecodeMethod {
    Auto,
    Software,
}

impl Default for DecodeMethod {
    fn default() -> (r: Self)
        ensures
            r == DecodeMethod::Auto,
    {
        DecodeMethod::Auto
    }
}

/// The codec that is encoded to.
#[derive(Clone, Copy, Debug, PartialEq, Eq, Structural)]
pub enum DefaultCodec {
    H264,
    H265,
    Av1,
}

impl Default for DefaultCodec {
    fn default() -> (r: Self)
        ensures
            r == DefaultCodec::H264,
    {
        DefaultCodec::H264
    }
}

/// How the method is written in a file of settings: by its name, or, in older files, as a switch.
#[derive(Debug)]
pub enum HwAccelCompat {
    New(String),
    Legacy(bool),
}

/// The name of a method.
pub open spec fn method_name(m: HwAccelMethod) -> Seq<char> {
    match m {
        HwAccelMethod::Off => "off"@,
        HwAccelMethod::Auto => "auto"@,
        HwAccelMethod::Vaapi => "vaapi"@,
        HwAccelMethod::Cuda => "cuda"@,
        HwAccelMethod::Qsv => "qsv"@,
        HwAccelMethod::V4l2 => "v4l2"@,
        HwAccelMethod::Amf => "amf"@,
    }
}

/// `r` is the method that a file of settings names, if it names one.
pub open spec fn is_method(value: HwAccelCompat, r: Option<HwAccelMethod>) -> bool {
    match value {
        HwAccelCompat::Legacy(on) => r == Some(
            if on {
                HwAccelMethod::Auto
            } else {
                HwAccelMethod::Off
            },
        ),
        HwAccelCompat::New(name) => match r {
            Some(m) => method_name(m) == name@,
            None => forall|m: HwAccelMethod| #[trigger] method_name(m) != name@,
        },
    }
}

/// Reads the method: a switch that is on stands for the automatic choice.
pub fn deserialize_hwaccel(value: &HwAccelCompat) -> (r: Option<HwAccelMethod>)
    ensures
        is_method(*value, r),
{
    match value {
        HwAccelCompat::Legacy(on) => Some(
            if *on {
                HwAccelMethod::Auto
            } else {
                HwAccelMethod::Off
            },
        ),
        HwAccelCompat::New(name) => {
            let s = name.as_str();
            if same(s, "off") {
                Some(HwAccelMethod::Off)
            } else if same(s, "auto") {
                Some(HwAccelMethod::Auto)
            } else if same(s, "vaapi") {
                Some(HwAccelMethod::Vaapi)
            } else if same(s, "cuda") {
                Some(HwAccelMethod::Cuda)
            } else if same(s, "qsv") {
                Some(HwAccelMethod::Qsv)
            } else if same(s, "v4l2") {
                Some(HwAccelMethod::V4l2)
            } else if same(s, "amf") {
                Some(HwAccelMethod::Amf)
            } else {
                None
            }
        },
    }
}

/// The settings of the server.
#[derive(Debug)]
pub struct GlobalSettings {
    pub enable_ssl: bool,
    pub port: u16,
    pub priv_key: Option<String>,
    pub ssl_cert: Option<String>,
    pub cache_dir: String,
    pub metadata_dir: String,
    pub quiet_boot: bool,
    pub disable_auth: bool,
    pub verbose: bool,
    pub secret_key: Option<[u8; 32]>,
    pub enable_hwaccel: HwAccelMethod,
    pub default_video_codec: DefaultCodec,
    pub decode_method: DecodeMethod,
    pub version: String,
    pub syncplay_enabled: bool,
    pub syncplay_port: u16,
    pub syncplay_password: String,
    pub syncplay_motd: String,
    pub webhook_api_key: String,
    /// The key with which TMDB is asked.
    pub tmdb_api_key: String,
}

/// `s` are the settings where none are set.
pub open spec fn are_defaults(s: GlobalSettings, unix: bool, has_config_dir: bool) -> bool {
    &&& !s.enable_ssl
    &&& s.port == 8000
    &&& s.priv_key is None
    &&& s.ssl_cert is None
    &&& s.cache_dir@ == if unix {
        "/tmp/streaming_cache"@
    } else {
        "./streaming_cache"@
    }
    &&& s.metadata_dir@ == if unix && has_config_dir {
        "/opt/dim/config/metadata"@
    } else if unix {
        "/opt/dim/metadata"@
    } else {
        "./metadata"@
    }
    &&& !s.quiet_boot
    &&& !s.disable_auth
    &&& !s.verbose
    &&& s.secret_key is None
    &&& s.enable_hwaccel == HwAccelMethod::Off
    &&& s.default_video_codec == DefaultCodec::H264
    &&& s.decode_method == DecodeMethod::Auto
    &&& s.version@.len() == 0
    &&& !s.syncplay_enabled
    &&& s.syncplay_port == 8999
    &&& s.syncplay_password@.len() == 0
    &&& s.syncplay_motd@.len() == 0
    &&& s.webhook_api_key@.len() == 0
    &&& s.tmdb_api_key@ == default_key()
}

impl GlobalSettings {
    /// The settings where none are set, on a machine of the Unix family or another, with or without a
    /// directory `/opt/dim/config`.
    pub fn defaults(unix: bool, has_config_dir: bool) -> (r: Self)
        ensures
            are_defaults(r, unix, has_config_dir),
    {
        let cache_dir = if unix {
            "/tmp/streaming_cache".to_string()
        } else {
            "./streaming_cache".to_string()
        };
        let metadata_dir = if unix {
            if has_config_dir {
                "/opt/dim/config/metadata".to_string()
            } else {
                "/opt/dim/metadata".to_string()
            }
        } else {
            "./metadata".to_string()
        };
        GlobalSettings {
            enable_ssl: false,
            port: 8000,
            priv_key: None,
            ssl_cert: None,
            cache_dir,
            metadata_dir,
            quiet_boot: false,
            disable_auth: false,
            verbose: false,
            secret_key: None,
            enable_hwaccel: HwAccelMethod::Off,
            default_video_codec: DefaultCodec::H264,
            decode_method: DecodeMethod::Auto,
            version: String::new(),
            syncplay_enabled: false,
            syncplay_port: 8999,
            syncplay_password: String::new(),
            syncplay_motd: String::new(),
            webhook_api_key: String::new(),
            tmdb_api_key: default_tmdb_key(),
        }
    }

    /// Copies the settings.
    pub fn copy(&self) -> (r: Self)
        ensures
            r == *self,
    {
        GlobalSettings {
            enable_ssl: self.enable_ssl,
            port: self.port,
            priv_key: copy_text(&self.priv_key),
            ssl_cert: copy_text(&self.ssl_cert),
            cache_dir: self.cache_dir.clone(),
            metadata_dir: self.metadata_dir.clone(),
            quiet_boot: self.quiet_boot,
            disable_auth: self.disable_auth,
            verbose: self.verbose,
            secret_key: self.secret_key,
            enable_hwaccel: self.enable_hwaccel,
            default_video_codec: self.default_video_codec,
            decode_method: self.decode_method,
            version: self.version.clone(),
            syncplay_enabled: self.syncplay_enabled,
            syncplay_port: self.syncplay_port,
            syncplay_password: self.syncplay_password.clone(),
            syncplay_motd: self.syncplay_motd.clone(),
            webhook_api_key: self.webhook_api_key.clone(),
            tmdb_api_key: self.tmdb_api_key.clone(),
        }
    }
}

/// Holds the settings of the process.
#[derive(Debug)]
pub struct SettingsStore {
    pub current: GlobalSettings,
}

/// Gets the settings.
pub fn get_global_settings(store: &SettingsStore) -> (r: GlobalSettings)
    ensures
        r == store.current,
{
    store.current.copy()
}

/// Replaces the settings, and gives what is to be written to the file.
pub fn set_global_settings(store: &mut SettingsStore, settings: GlobalSettings) -> (r: GlobalSettings)
    ensures
        final(store).current == settings,
        r == settings,
{
    store.current = settings;
    get_global_settings(store)
}

/// Gives the settings with the version that is running in place of the one that was stored.
pub fn http_get_global_settings(store: &SettingsStore, line: String) -> (r: GlobalSettings)
    ensures
        r == (GlobalSettings { version: line, ..store.current }),
{
    let mut settings = get_global_settings(store);
    settings.version = line;
    settings
}

/// What a request to replace the settings does: the states before and after, and the answer.
pub open spec fn settings_set(
    before: SettingsStore,
    after: SettingsStore,
    is_owner: bool,
    settings: GlobalSettings,
    line: String,
    r: Option<GlobalSettings>,
) -> bool {
    &&& after.current == if is_owner {
        settings
    } else {
        before.current
    }
    &&& r == if is_owner {
        Some((GlobalSettings { version: line, ..settings }))
    } else {
        None
    }
}

/// Replaces the settings where the owner asks for it, and gives them as they are then, with the version
/// that is running; anyone else is refused, and they stay as they are.
pub fn http_set_global_settings(
    store: &mut SettingsStore,
    is_owner: bool,
    settings: GlobalSettings,
    line: String,
) -> (r: Option<GlobalSettings>)
    ensures
        settings_set(*old(store), *final(store), is_owner, settings, line, r),
{
    if !is_owner {
        return None;
    }
    store.current = settings;
    Some(http_get_global_settings(store, line))
}

/// The settings after reading a file: what the file says, or the defaults where it says nothing that can
/// be read.
pub fn init_global_settings(
    store: &mut SettingsStore,
    parsed: Option<GlobalSettings>,
    unix: bool,
    has_config_dir: bool,
)
    ensures
        match parsed {
            Some(s) => final(store).current == s,
            None => are_defaults(final(store).current, unix, has_config_dir),
        },
{
    store.current = match parsed {
        Some(s) => s,
        None => GlobalSettings::defaults(unix, has_config_dir),
    };
}

/// The version that is shown: what the server was built for, how, when, and with which features.
pub fn version_line(arch: &str, profile: &str, build_time: &str, cpu_features: &str) -> (r: String)
    ensures
        r@ == arch@ + " "@ + profile@ + " | "@ + build_time@ + " | cpu: "@ + cpu_features@,
{
    let a = cat3(arch, " ", profile);
    let b = cat3(a.as_str(), " | ", build_time);
    cat3(b.as_str(), " | cpu: ", cpu_features)
}

/// The features that are shown: the list as it is given, or else the single ones, or "none".
pub open spec fn features_shown(csv: Seq<char>, features: Seq<Seq<char>>) -> Seq<char> {
    if csv.len() > 0 {
        csv
    } else if features.len() > 0 {
        joined(features, ","@)
    } else {
        "none"@
    }
}

/// Makes the list of features that is shown.
pub fn cpu_features(csv: &str, features: &Vec<String>) -> (r: String)
    ensures
        r@ == features_shown(csv@, views(features@)),
{
    if !csv.is_empty() {
        csv.to_string()
    } else if features.len() > 0 {
        join(features, ",")
    } else {
        "none".to_string()
    }
}

/// No two methods have the same name.
pub proof fn law_method_names_differ(a: HwAccelMethod, b: HwAccelMethod)
    requires
        method_name(a) == method_name(b),
    ensures
        a == b,
{
    reveal_strlit("off");
    reveal_strlit("auto");
    reveal_strlit("vaapi");
    reveal_strlit("cuda");
    reveal_strlit("qsv");
    reveal_strlit("v4l2");
    reveal_strlit("amf");
    assert("off"@.len() == 3 && "off"@[0] == 'o');
    assert("qsv"@.len() == 3 && "qsv"@[0] == 'q');
    assert("amf"@.len() == 3 && "amf"@[0] == 'a');
    assert("auto"@.len() == 4 && "auto"@[0] == 'a');
    assert("cuda"@.len() == 4 && "cuda"@[0] == 'c');
    assert("v4l2"@.len() == 4 && "v4l2"@[0] == 'v');
    assert("vaapi"@.len() == 5);
}

/// The names of the methods, and what older files say.
pub proof fn law_methods_are_read(value: HwAccelCompat, r: Option<HwAccelMethod>)
    requires
        is_method(value, r),
    ensures
        value matches HwAccelCompat::Legacy(on) ==> (on ==> r == Some(HwAccelMethod::Auto)) && (!on ==> r
            == Some(HwAccelMethod::Off)),
        value matches HwAccelCompat::New(name) ==> (name@ == "off"@ <==> r == Some(HwAccelMethod::Off)) && (
        name@ == "auto"@ <==> r == Some(HwAccelMethod::Auto)) && (name@ == "vaapi"@ <==> r == Some(
            HwAccelMethod::Vaapi,
        )) && (name@ == "cuda"@ <==> r == Some(HwAccelMethod::Cuda)) && (name@ == "qsv"@ <==> r == Some(
            HwAccelMethod::Qsv,
        )) && (name@ == "v4l2"@ <==> r == Some(HwAccelMethod::V4l2)) && (name@ == "amf"@ <==> r == Some(
            HwAccelMethod::Amf,
        )),
{
    if let HwAccelCompat::New(name) = value {
        assert(method_name(HwAccelMethod::Off) == "off"@);
        assert(method_name(HwAccelMethod::Auto) == "auto"@);
        assert(method_name(HwAccelMethod::Vaapi) == "vaapi"@);
        assert(method_name(HwAccelMethod::Cuda) == "cuda"@);
        assert(method_name(HwAccelMethod::Qsv) == "qsv"@);
        assert(method_name(HwAccelMethod::V4l2) == "v4l2"@);
        assert(method_name(HwAccelMethod::Amf) == "amf"@);
        if let Some(m) = r {
            if name@ == "off"@ {
                law_method_names_differ(m, HwAccelMethod::Off);
            }
            if name@ == "auto"@ {
                law_method_names_differ(m, HwAccelMethod::Auto);
            }
            if name@ == "vaapi"@ {
                law_method_names_differ(m, HwAccelMethod::Vaapi);
            }
            if name@ == "cuda"@ {
                law_method_names_differ(m, HwAccelMethod::Cuda);
            }
            if name@ == "qsv"@ {
                law_method_names_differ(m, HwAccelMethod::Qsv);
            }
            if name@ == "v4l2"@ {
                law_method_names_differ(m, HwAccelMethod::V4l2);
            }
            if name@ == "amf"@ {
                law_method_names_differ(m, HwAccelMethod::Amf);
            }
        }
    }
}

/// Only the owner changes the settings, and gets them back with the version that is running.
pub proof fn law_settings_are_the_owners(
    before: SettingsStore,
    after: SettingsStore,
    is_owner: bool,
    settings: GlobalSettings,
    line: String,
    r: Option<GlobalSettings>,
)
    requires
        settings_set(before, after, is_owner, settings, line, r),
    ensures
        !is_owner ==> after.current == before.current && r is None,
        is_owner ==> after.current == settings && (r matches Some(s) && s.version == line && s.port
            == settings.port && s.disable_auth == settings.disable_auth && s.secret_key
            == settings.secret_key),
{
}

/// Where nothing is set, the server listens on port 8000, asks for authentication, encodes in software, and does
/// not offer Syncplay, whose port would be 8999.
pub proof fn law_defaults_are_careful(s: GlobalSettings, unix: bool, has_config_dir: bool)
    requires
        are_defaults(s, unix, has_config_dir),
    ensures
        s.port == 8000,
        !s.disable_auth,
        !s.enable_ssl,
        s.enable_hwaccel == HwAccelMethod::Off,
        s.default_video_codec == DefaultCodec::H264,
        s.decode_method == DecodeMethod::Auto,
        !s.syncplay_enabled,
        s.syncplay_port == 8999,
        s.secret_key is None,
        s.webhook_api_key@.len() == 0,
        unix ==> s.cache_dir@ == "/tmp/streaming_cache"@,
        !unix ==> s.cache_dir@ == "./streaming_cache"@,
        unix && has_config_dir ==> s.metadata_dir@ == "/opt/dim/config/metadata"@,
        unix && !has_config_dir ==> s.metadata_dir@ == "/opt/dim/metadata"@,
        !unix ==> s.metadata_dir@ == "./metadata"@,
{
}

/// The list of features is shown as it is given, and else the single ones, or "none".
pub proof fn law_features_are_shown(csv: Seq<char>, features: Seq<Seq<char>>)
    ensures
        csv.len() > 0 ==> features_shown(csv, features) == csv,
        features.len() > 0 ==> features_shown(Seq::empty(), features) == joined(features, ","@),
        features_shown(Seq::empty(), Seq::empty()) == "none"@,
{
}

}
