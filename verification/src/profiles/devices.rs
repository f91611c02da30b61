//! Hardware that can be used for transcoding.

use vstd::prelude::*;

use crate::profiles::args::arg;
use crate::profiles::context::{is_numbered, is_numbered_name};
use crate::profiles::vaapi::{DriNode, VaProfile};
use crate::text::{
    ascending, cat, contains, contains_str, lowercase, same, sort_strings, starts_with,
    to_lowercase, views,
};

verus! {

/// A device, what drives it, and the codecs that it can handle.
#[derive(Debug)]
pub struct DetectedDevice {
    pub path: String,
    pub vendor: String,
    pub kind: String,
    pub codecs: Vec<String>,
}

/// `d` is this device.
pub open spec fn is_device(
    d: DetectedDevice,
    path: Seq<char>,
    vendor: Seq<char>,
    kind: Seq<char>,
    codecs: Seq<Seq<char>>,
) -> bool {
    d.path@ == path && d.vendor@ == vendor && d.kind@ == kind && views(d.codecs@) == codecs
}

/// One of the profiles is of this family.
pub open spec fn has_family(profiles: Seq<VaProfile>, family: Seq<char>) -> bool {
    exists|i: int| 0 <= i < profiles.len() && family.is_prefix_of((#[trigger] profiles[i]).name@)
}

/// The codecs that a device with these profiles handles, in alphabetical order.
pub open spec fn codecs_of(profiles: Seq<VaProfile>) -> Seq<Seq<char>> {
    let av1 = if has_family(profiles, "VAProfileAV1"@) {
        seq!["av1"@]
    } else {
        Seq::empty()
    };
    let h264 = if has_family(profiles, "VAProfileH264"@) {
        seq!["h264"@]
    } else {
        Seq::empty()
    };
    let h265 = if has_family(profiles, "VAProfileHEVC"@) {
        seq!["h265"@]
    } else {
        Seq::empty()
    };
    let vp9 = if has_family(profiles, "VAProfileVP9"@) {
        seq!["vp9"@]
    } else {
        Seq::empty()
    };
    av1 + h264 + h265 + vp9
}

/// What kind of device a vendor's is, where `lower` is the vendor in lowercase.
pub open spec fn vaapi_kind(lower: Seq<char>) -> Seq<char> {
    if contains_str(lower, "intel"@) {
        "vaapi/qsv"@
    } else {
        "vaapi"@
    }
}

/// Whether one of the profiles is of this family.
fn any_of_family(profiles: &Vec<VaProfile>, family: &str) -> (r: bool)
    ensures
        r == has_family(profiles@, family@),
{
    let mut i: usize = 0;
    while i < profiles.len()
        invariant
            0 <= i <= profiles@.len(),
            forall|j: int| 0 <= j < i ==> !family@.is_prefix_of((#[trigger] profiles@[j]).name@),
        decreases profiles@.len() - i,
    {
        if starts_with(profiles[i].name.as_str(), family) {
            return true;
        }
        i = i + 1;
    }
    false
}

/// Collects the codecs that a device with these profiles handles.
pub fn supported_codecs(profiles: &Vec<VaProfile>) -> (r: Vec<String>)
    ensures
        views(r@) == codecs_of(profiles@),
{
    let mut r: Vec<String> = Vec::new();
    if any_of_family(profiles, "VAProfileAV1") {
        arg(&mut r, "av1");
    }
    if any_of_family(profiles, "VAProfileH264") {
        arg(&mut r, "h264");
    }
    if any_of_family(profiles, "VAProfileHEVC") {
        arg(&mut r, "h265");
    }
    if any_of_family(profiles, "VAProfileVP9") {
        arg(&mut r, "vp9");
    }
    assert(views(r@) =~= codecs_of(profiles@));
    r
}

/// Says what kind of device a vendor's is, given the vendor in lowercase.
pub fn kind_for_vendor(lower: &str) -> (r: &'static str)
    ensures
        r@ == vaapi_kind(lower@),
{
    if contains(lower, "intel") {
        "vaapi/qsv"
    } else {
        "vaapi"
    }
}

/// The first node with this name, from `from` on.
pub open spec fn node_from(nodes: Seq<DriNode>, name: Seq<char>, from: int) -> Option<DriNode>
    decreases nodes.len() - from,
{
    if from < 0 || from >= nodes.len() {
        None
    } else if nodes[from].name@ == name {
        Some(nodes[from])
    } else {
        node_from(nodes, name, from + 1)
    }
}

/// The names of the render nodes.
pub open spec fn render_names(nodes: Seq<DriNode>) -> Seq<Seq<char>> {
    nodes.map_values(|n: DriNode| n.name@).filter(|n: Seq<char>| contains_str(n, "render"@))
}

/// The devices are those at the nodes with these names that could be opened.
pub open spec fn vaapi_devices_at(
    devices: Seq<DetectedDevice>,
    nodes: Seq<DriNode>,
    names: Seq<Seq<char>>,
) -> bool
    decreases names.len(),
{
    if names.len() == 0 {
        devices.len() == 0
    } else {
        match node_from(nodes, names.last(), 0) {
            Some(DriNode { name, device: Some(v) }) => {
                &&& devices.len() > 0
                &&& is_device(
                    devices.last(),
                    v.dri@,
                    v.vendor@,
                    vaapi_kind(lowercase(v.vendor@)),
                    codecs_of(v.profiles@),
                )
                &&& vaapi_devices_at(devices.drop_last(), nodes, names.drop_last())
            },
            _ => vaapi_devices_at(devices, nodes, names.drop_last()),
        }
    }
}

/// The names of `found` that satisfy `f`, in order.
pub open spec fn in_order(
    names: Seq<Seq<char>>,
    found: Seq<Seq<char>>,
    f: spec_fn(Seq<char>) -> bool,
) -> bool {
    ascending(found) && found.to_multiset() == names.filter(f).to_multiset()
}

/// Lists the GPUs that libva drives, in the order of their names.
pub fn detect_vaapi_devices(nodes: &Vec<DriNode>) -> (r: Vec<DetectedDevice>)
    ensures
        exists|names: Seq<Seq<char>>|
            ascending(names) && names.to_multiset() == render_names(nodes@).to_multiset()
                && #[trigger] vaapi_devices_at(r@, nodes@, names),
{
    let mut names: Vec<String> = Vec::new();
    let mut i: usize = 0;
    let ghost all = nodes@.map_values(|n: DriNode| n.name@);
    let ghost f = |n: Seq<char>| contains_str(n, "render"@);
    proof {
        reveal(Seq::filter);
        assert(all.subrange(0, 0) =~= Seq::empty());
        assert(views(names@) =~= all.subrange(0, 0).filter(f));
    }
    while i < nodes.len()
        invariant
            0 <= i <= nodes@.len(),
            all == nodes@.map_values(|n: DriNode| n.name@),
            f == (|n: Seq<char>| contains_str(n, "render"@)),
            views(names@) == all.subrange(0, i as int).filter(f),
        decreases nodes@.len() - i,
    {
        let ghost before = views(names@);
        proof {
            reveal(Seq::filter);
            assert(all.subrange(0, i + 1).drop_last() =~= all.subrange(0, i as int));
            assert(all.subrange(0, i + 1).last() == nodes@[i as int].name@);
        }
        if contains(nodes[i].name.as_str(), "render") {
            names.push(nodes[i].name.clone());
            assert(views(names@) =~= before.push(nodes@[i as int].name@));
        }
        i = i + 1;
    }
    assert(all.subrange(0, i as int) =~= all);
    let sorted = sort_strings(names);
    let mut r: Vec<DetectedDevice> = Vec::new();
    let mut k: usize = 0;
    assert(views(sorted@).subrange(0, 0) =~= Seq::empty());
    while k < sorted.len()
        invariant
            0 <= k <= sorted@.len(),
            vaapi_devices_at(r@, nodes@, views(sorted@).subrange(0, k as int)),
        decreases sorted@.len() - k,
    {
        let ghost before = r@;
        proof {
            let next = views(sorted@).subrange(0, k + 1);
            assert(next.drop_last() =~= views(sorted@).subrange(0, k as int));
            assert(next.last() == sorted@[k as int]@);
        }
        if let Some(node) = find_node(nodes, sorted[k].as_str()) {
            if let Some(v) = &node.device {
                let kind = kind_for_vendor(to_lowercase(v.vendor.as_str()).as_str());
                r.push(
                    DetectedDevice {
                        path: v.dri.clone(),
                        vendor: v.vendor.clone(),
                        kind: kind.to_owned(),
                        codecs: supported_codecs(&v.profiles),
                    },
                );
                assert(r@.drop_last() =~= before);
            }
        }
        k = k + 1;
    }
    assert(views(sorted@).subrange(0, k as int) =~= views(sorted@));
    r
}

/// Finds the first node with this name.
fn find_node<'a>(nodes: &'a Vec<DriNode>, name: &str) -> (r: Option<&'a DriNode>)
    ensures
        r is Some <==> node_from(nodes@, name@, 0) is Some,
        r matches Some(n) ==> Some(*n) == node_from(nodes@, name@, 0),
{
    let mut i: usize = 0;
    while i < nodes.len()
        invariant
            0 <= i <= nodes@.len(),
            node_from(nodes@, name@, 0) == node_from(nodes@, name@, i as int),
        decreases nodes@.len() - i,
    {
        if same(nodes[i].name.as_str(), name) {
            return Some(&nodes[i]);
        }
        i = i + 1;
    }
    None
}

/// The names that are `prefix` and a number after it.
pub open spec fn numbered_with(prefix: Seq<char>) -> spec_fn(Seq<char>) -> bool {
    |n: Seq<char>| is_numbered(n, prefix)
}

/// The names that begin with `prefix`.
pub open spec fn beginning_with(prefix: Seq<char>) -> spec_fn(Seq<char>) -> bool {
    |n: Seq<char>| prefix.is_prefix_of(n)
}

/// The codecs of an NVIDIA device.
pub open spec fn nvidia_codecs() -> Seq<Seq<char>> {
    seq!["h264"@, "h265"@, "av1"@]
}

/// Lists the NVIDIA devices `/dev/nvidia<N>`, in the order of their names.
pub fn detect_nvidia_devices(dev_names: &Vec<String>) -> (r: Vec<DetectedDevice>)
    ensures
        exists|names: Seq<Seq<char>>|
            #[trigger] in_order(views(dev_names@), names, numbered_with("nvidia"@)) && r@.len()
                == names.len() && forall|i: int|
                0 <= i < r@.len() ==> is_device(
                    #[trigger] r@[i],
                    "/dev/"@ + names[i],
                    "NVIDIA"@,
                    "cuda"@,
                    nvidia_codecs(),
                ),
{
    let names = sort_strings(numbered_names(dev_names, "nvidia"));
    let mut r: Vec<DetectedDevice> = Vec::new();
    let mut i: usize = 0;
    while i < names.len()
        invariant
            0 <= i <= names@.len(),
            r@.len() == i,
            forall|j: int|
                0 <= j < i ==> is_device(
                    #[trigger] r@[j],
                    "/dev/"@ + views(names@)[j],
                    "NVIDIA"@,
                    "cuda"@,
                    nvidia_codecs(),
                ),
        decreases names@.len() - i,
    {
        let mut codecs: Vec<String> = Vec::new();
        arg(&mut codecs, "h264");
        arg(&mut codecs, "h265");
        arg(&mut codecs, "av1");
        assert(views(codecs@) =~= nvidia_codecs());
        r.push(
            DetectedDevice {
                path: cat("/dev/", names[i].as_str()),
                vendor: "NVIDIA".to_owned(),
                kind: "cuda".to_owned(),
                codecs,
            },
        );
        i = i + 1;
    }
    assert(in_order(views(dev_names@), views(names@), numbered_with("nvidia"@)));
    r
}

/// Collects the names that are `prefix` and a number after it.
fn numbered_names(names: &Vec<String>, prefix: &str) -> (r: Vec<String>)
    ensures
        views(r@) == views(names@).filter(numbered_with(prefix@)),
{
    let mut r: Vec<String> = Vec::new();
    let mut i: usize = 0;
    let ghost f = numbered_with(prefix@);
    let ghost all = views(names@);
    proof {
        reveal(Seq::filter);
        assert(all.subrange(0, 0) =~= Seq::empty());
        assert(views(r@) =~= all.subrange(0, 0).filter(f));
    }
    while i < names.len()
        invariant
            0 <= i <= names@.len(),
            all == views(names@),
            f == numbered_with(prefix@),
            views(r@) == all.subrange(0, i as int).filter(f),
        decreases names@.len() - i,
    {
        let ghost before = views(r@);
        proof {
            reveal(Seq::filter);
            assert(all.subrange(0, i + 1).drop_last() =~= all.subrange(0, i as int));
            assert(all.subrange(0, i + 1).last() == names@[i as int]@);
        }
        if is_numbered_name(names[i].as_str(), prefix) {
            r.push(names[i].clone());
            assert(views(r@) =~= before.push(names@[i as int]@));
        }
        i = i + 1;
    }
    assert(all.subrange(0, i as int) =~= all);
    r
}

/// Collects the names that begin with `prefix`.
fn names_beginning(names: &Vec<String>, prefix: &str) -> (r: Vec<String>)
    ensures
        views(r@) == views(names@).filter(beginning_with(prefix@)),
{
    let mut r: Vec<String> = Vec::new();
    let mut i: usize = 0;
    let ghost f = beginning_with(prefix@);
    let ghost all = views(names@);
    proof {
        reveal(Seq::filter);
        assert(all.subrange(0, 0) =~= Seq::empty());
        assert(views(r@) =~= all.subrange(0, 0).filter(f));
    }
    while i < names.len()
        invariant
            0 <= i <= names@.len(),
            all == views(names@),
            f == beginning_with(prefix@),
            views(r@) == all.subrange(0, i as int).filter(f),
        decreases names@.len() - i,
    {
        let ghost before = views(r@);
        proof {
            reveal(Seq::filter);
            assert(all.subrange(0, i + 1).drop_last() =~= all.subrange(0, i as int));
            assert(all.subrange(0, i + 1).last() == names@[i as int]@);
        }
        if starts_with(names[i].as_str(), prefix) {
            r.push(names[i].clone());
            assert(views(r@) =~= before.push(names@[i as int]@));
        }
        i = i + 1;
    }
    assert(all.subrange(0, i as int) =~= all);
    r
}

/// `d` is the device at `/dev/<name>`: an encoder where a number follows `video`.
pub open spec fn is_v4l2_device(d: DetectedDevice, name: Seq<char>) -> bool {
    if is_numbered(name, "video"@) {
        is_device(d, "/dev/"@ + name, "V4L2 M2M"@, "v4l2"@, seq!["h264"@, "h265"@])
    } else {
        is_device(d, "/dev/"@ + name, "V4L2 M2M"@, "v4l2-decoder"@, seq!["h264"@, "h265"@, "av1"@])
    }
}

/// What follows the prefix `video`.
pub open spec fn video_suffix(name: Seq<char>) -> Seq<char> {
    name.subrange("video"@.len() as int, name.len() as int)
}

/// The name is that of an encoder or a decoder.
pub open spec fn is_v4l2_name(name: Seq<char>) -> bool {
    is_numbered(name, "video"@) || contains_str(video_suffix(name), "dec"@)
}

/// The devices are those with these names that are encoders or decoders.
pub open spec fn v4l2_devices_at(devices: Seq<DetectedDevice>, names: Seq<Seq<char>>) -> bool
    decreases names.len(),
{
    if names.len() == 0 {
        devices.len() == 0
    } else if is_v4l2_name(names.last()) {
        &&& devices.len() > 0
        &&& is_v4l2_device(devices.last(), names.last())
        &&& v4l2_devices_at(devices.drop_last(), names.drop_last())
    } else {
        v4l2_devices_at(devices, names.drop_last())
    }
}

/// Lists the V4L2 encoders and decoders, in the order of their names.
pub fn detect_v4l2_devices(dev_names: &Vec<String>) -> (r: Vec<DetectedDevice>)
    ensures
        exists|names: Seq<Seq<char>>|
            #[trigger] in_order(views(dev_names@), names, beginning_with("video"@))
                && v4l2_devices_at(r@, names),
{
    let found = names_beginning(dev_names, "video");
    let names = sort_strings(found);
    let mut r: Vec<DetectedDevice> = Vec::new();
    let mut i: usize = 0;
    let video = crate::text::chars_of("video");
    proof {
        assert(views(names@).subrange(0, 0) =~= Seq::empty());
        lemma_all_begin(views(dev_names@), views(found@), views(names@));
    }
    while i < names.len()
        invariant
            0 <= i <= names@.len(),
            video@ == "video"@,
            forall|j: int|
                0 <= j < names@.len() ==> "video"@.is_prefix_of(#[trigger] views(names@)[j]),
            v4l2_devices_at(r@, views(names@).subrange(0, i as int)),
        decreases names@.len() - i,
    {
        let ghost before = r@;
        proof {
            let next = views(names@).subrange(0, i + 1);
            assert(next.drop_last() =~= views(names@).subrange(0, i as int));
            assert(next.last() == names@[i as int]@);
            assert("video"@.is_prefix_of(views(names@)[i as int]));
        }
        let name = names[i].as_str();
        let v = crate::text::chars_of(name);
        let suffix = crate::text::string_of(&v, video.len(), v.len());
        let mut codecs: Vec<String> = Vec::new();
        arg(&mut codecs, "h264");
        arg(&mut codecs, "h265");
        if is_numbered_name(name, "video") {
            assert(views(codecs@) =~= seq!["h264"@, "h265"@]);
            r.push(
                DetectedDevice {
                    path: cat("/dev/", name),
                    vendor: "V4L2 M2M".to_owned(),
                    kind: "v4l2".to_owned(),
                    codecs,
                },
            );
            assert(r@.drop_last() =~= before);
        } else if contains(suffix.as_str(), "dec") {
            arg(&mut codecs, "av1");
            assert(views(codecs@) =~= seq!["h264"@, "h265"@, "av1"@]);
            r.push(
                DetectedDevice {
                    path: cat("/dev/", name),
                    vendor: "V4L2 M2M".to_owned(),
                    kind: "v4l2-decoder".to_owned(),
                    codecs,
                },
            );
            assert(r@.drop_last() =~= before);
        }
        i = i + 1;
    }
    assert(views(names@).subrange(0, i as int) =~= views(names@));
    assert(in_order(views(dev_names@), views(names@), beginning_with("video"@)));
    r
}

/// Sorting keeps only names that begin with `video`.
proof fn lemma_all_begin(all: Seq<Seq<char>>, found: Seq<Seq<char>>, sorted: Seq<Seq<char>>)
    requires
        found == all.filter(beginning_with("video"@)),
        sorted.to_multiset() == found.to_multiset(),
    ensures
        forall|j: int| 0 <= j < sorted.len() ==> "video"@.is_prefix_of(#[trigger] sorted[j]),
{
    let f = beginning_with("video"@);
    sorted.to_multiset_ensures();
    found.to_multiset_ensures();
    assert forall|j: int| 0 <= j < sorted.len() implies "video"@.is_prefix_of(
        #[trigger] sorted[j],
    ) by {
        assert(sorted.contains(sorted[j]));
        assert(sorted.to_multiset().count(sorted[j]) > 0);
        assert(found.contains(sorted[j]));
        let k = choose|k: int| 0 <= k < found.len() && found[k] == sorted[j];
        broadcast use vstd::seq_lib::group_filter_ensures;

        assert(f(found[k]));
    }
}

/// Lists all devices: the GPUs that libva drives, the NVIDIA devices, the V4L2 encoders and decoders.
/// `dri` are the entries of `/dev/dri`, `dev_names` those of `/dev`; either may be missing.
pub fn detect_devices(dri: &Option<Vec<DriNode>>, dev_names: &Option<Vec<String>>) -> (r: Vec<
    DetectedDevice,
>)
    ensures
        all_devices(*dri, *dev_names, r@),
{
    let mut r: Vec<DetectedDevice> = match dri {
        Some(nodes) => detect_vaapi_devices(nodes),
        None => Vec::new(),
    };
    let ghost va = r@;
    let ghost mut nv = Seq::<DetectedDevice>::empty();
    let ghost mut v4 = Seq::<DetectedDevice>::empty();
    if let Some(names) = dev_names {
        let mut nvidia = detect_nvidia_devices(names);
        let mut v4l2 = detect_v4l2_devices(names);
        proof {
            nv = nvidia@;
            v4 = v4l2@;
        }
        r.append(&mut nvidia);
        r.append(&mut v4l2);
    }
    proof {
        assert(r@ =~= va + nv + v4);
        assert(vaapi_listed(*dri, va) && nvidia_listed(*dev_names, nv) && v4l2_listed(
            *dev_names,
            v4,
        ));
    }
    r
}

/// The GPUs that libva drives.
pub open spec fn vaapi_listed(dri: Option<Vec<DriNode>>, devices: Seq<DetectedDevice>) -> bool {
    match dri {
        None => devices.len() == 0,
        Some(nodes) => exists|names: Seq<Seq<char>>|
            ascending(names) && names.to_multiset() == render_names(nodes@).to_multiset()
                && #[trigger] vaapi_devices_at(devices, nodes@, names),
    }
}

/// The NVIDIA devices.
pub open spec fn nvidia_listed(dev: Option<Vec<String>>, devices: Seq<DetectedDevice>) -> bool {
    match dev {
        None => devices.len() == 0,
        Some(dev_names) => exists|names: Seq<Seq<char>>|
            #[trigger] in_order(views(dev_names@), names, numbered_with("nvidia"@)) && devices.len()
                == names.len() && forall|i: int|
                0 <= i < devices.len() ==> is_device(
                    #[trigger] devices[i],
                    "/dev/"@ + names[i],
                    "NVIDIA"@,
                    "cuda"@,
                    nvidia_codecs(),
                ),
    }
}

/// The V4L2 encoders and decoders.
pub open spec fn v4l2_listed(dev: Option<Vec<String>>, devices: Seq<DetectedDevice>) -> bool {
    match dev {
        None => devices.len() == 0,
        Some(dev_names) => exists|names: Seq<Seq<char>>|
            #[trigger] in_order(views(dev_names@), names, beginning_with("video"@))
                && v4l2_devices_at(devices, names),
    }
}

/// All devices, family by family.
pub open spec fn all_devices(
    dri: Option<Vec<DriNode>>,
    dev: Option<Vec<String>>,
    devices: Seq<DetectedDevice>,
) -> bool {
    exists|va: Seq<DetectedDevice>, nv: Seq<DetectedDevice>, v4: Seq<DetectedDevice>|
        #[trigger] vaapi_listed(dri, va) && #[trigger] nvidia_listed(dev, nv)
            && #[trigger] v4l2_listed(dev, v4) && devices == va + nv + v4
}

/// A device handles the codecs of which it has a profile, and no others.
pub proof fn law_devices_handle_what_they_have_profiles_for(profiles: Seq<VaProfile>)
    ensures
        codecs_of(profiles).contains("h264"@) <==> exists|i: int|
            0 <= i < profiles.len() && "VAProfileH264"@.is_prefix_of((#[trigger] profiles[i]).name@),
        codecs_of(profiles).contains("h265"@) <==> exists|i: int|
            0 <= i < profiles.len() && "VAProfileHEVC"@.is_prefix_of((#[trigger] profiles[i]).name@),
        codecs_of(profiles).contains("av1"@) <==> exists|i: int|
            0 <= i < profiles.len() && "VAProfileAV1"@.is_prefix_of((#[trigger] profiles[i]).name@),
        codecs_of(profiles).contains("vp9"@) <==> exists|i: int|
            0 <= i < profiles.len() && "VAProfileVP9"@.is_prefix_of((#[trigger] profiles[i]).name@),
        codecs_of(profiles).len() <= 4,
{
    reveal_strlit("h264");
    reveal_strlit("h265");
    reveal_strlit("av1");
    reveal_strlit("vp9");
    assert("h264"@[3] == '4' && "h265"@[3] == '5' && "av1"@[0] == 'a' && "vp9"@[0] == 'v');
    assert("h264"@.len() == 4 && "h265"@.len() == 4 && "av1"@.len() == 3 && "vp9"@.len() == 3);
    let s = codecs_of(profiles);
    let a: int = if has_family(profiles, "VAProfileAV1"@) {
        1
    } else {
        0
    };
    let b: int = if has_family(profiles, "VAProfileH264"@) {
        1
    } else {
        0
    };
    let c: int = if has_family(profiles, "VAProfileHEVC"@) {
        1
    } else {
        0
    };
    if a == 1 {
        assert(s[0] == "av1"@);
    }
    if b == 1 {
        assert(s[a] == "h264"@);
    }
    if c == 1 {
        assert(s[a + b] == "h265"@);
    }
    if has_family(profiles, "VAProfileVP9"@) {
        assert(s[a + b + c] == "vp9"@);
    }
}

/// Devices of Intel can be driven by Quick Sync too.
pub proof fn law_intel_devices_have_quick_sync(lower: Seq<char>)
    ensures
        vaapi_kind(lower) == (if contains_str(lower, "intel"@) {
            "vaapi/qsv"@
        } else {
            "vaapi"@
        }),
        nvidia_codecs().contains("h264"@) && nvidia_codecs().contains("h265"@) && nvidia_codecs().contains(
            "av1"@,
        ),
{
    assert(nvidia_codecs()[0] == "h264"@ && nvidia_codecs()[1] == "h265"@ && nvidia_codecs()[2] == "av1"@);
}

}
