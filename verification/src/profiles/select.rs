//! Which profiles are used, and in which order they are tried.

use vstd::prelude::*;

use crate::profiles::context::{
    Machine, ProfileContext, ProfileType, StreamType, TranscodingProfile,
};

verus! {

/// The candidates that exist and can be used on the machine.
pub open spec fn enabled_of<P: TranscodingProfile>(candidates: Seq<Option<P>>, machine: Machine) -> Seq<
    P,
>
    decreases candidates.len(),
{
    if candidates.len() == 0 {
        Seq::empty()
    } else {
        let before = enabled_of(candidates.drop_last(), machine);
        match candidates.last() {
            Some(p) => if p.disabled_by(machine) is None {
                before.push(p)
            } else {
                before
            },
            None => before,
        }
    }
}

/// Keeps the profiles that can be used on the machine, in their order.
pub fn enabled_profiles<P: TranscodingProfile>(candidates: Vec<Option<P>>, machine: &Machine) -> (r: Vec<P>)
    ensures
        r@ == enabled_of(candidates@, *machine),
{
    let mut rest = candidates;
    let mut r: Vec<P> = Vec::new();
    let ghost all = rest@;
    let ghost mut k: int = 0;
    assert(all.subrange(0, 0) =~= Seq::empty());
    while rest.len() > 0
        invariant
            0 <= k <= all.len(),
            rest@ == all.subrange(k, all.len() as int),
            r@ == enabled_of(all.subrange(0, k), *machine),
        decreases rest@.len(),
    {
        let candidate = rest.remove(0);
        proof {
            let next = all.subrange(0, k + 1);
            assert(next.drop_last() =~= all.subrange(0, k));
            assert(next.last() == candidate);
            assert(rest@ =~= all.subrange(k + 1, all.len() as int));
            k = k + 1;
        }
        if let Some(profile) = candidate {
            if profile.is_enabled(machine).is_ok() {
                r.push(profile);
            }
        }
    }
    assert(all.subrange(0, k) =~= all);
    r
}

/// The profiles that are used are those candidates that the machine can use.
pub proof fn law_used_profiles_are_usable<P: TranscodingProfile>(
    candidates: Seq<Option<P>>,
    machine: Machine,
)
    ensures
        forall|k: int|
            0 <= k < enabled_of(candidates, machine).len() ==> {
                let p = #[trigger] enabled_of(candidates, machine)[k];
                p.disabled_by(machine) is None && candidates.contains(Some(p))
            },
        forall|p: P|
            candidates.contains(Some(p)) && (#[trigger] p.disabled_by(machine)) is None
                ==> enabled_of(candidates, machine).contains(p),
    decreases candidates.len(),
{
    if candidates.len() > 0 {
        let less = candidates.drop_last();
        law_used_profiles_are_usable(less, machine);
        let before = enabled_of(less, machine);
        let all = enabled_of(candidates, machine);
        assert forall|k: int| 0 <= k < all.len() implies {
            let p = #[trigger] all[k];
            p.disabled_by(machine) is None && candidates.contains(Some(p))
        } by {
            let p = all[k];
            if k < before.len() {
                assert(before[k] == p);
                let i = choose|i: int| 0 <= i < less.len() && less[i] == Some(p);
                assert(candidates[i] == Some(p));
            } else {
                assert(candidates[candidates.len() - 1] == Some(p));
            }
        }
        assert forall|p: P| candidates.contains(Some(p)) && (#[trigger] p.disabled_by(
            machine,
        )) is None implies all.contains(p) by {
            let i = choose|i: int| 0 <= i < candidates.len() && candidates[i] == Some(p);
            if i < less.len() {
                assert(less[i] == Some(p));
                let k = choose|k: int| 0 <= k < before.len() && before[k] == p;
                assert(all[k] == p);
            } else {
                assert(all[all.len() - 1] == p);
            }
        }
    }
}

/// The places, in order, of the profiles for the stream type that support what is asked and are of
/// this type.
pub open spec fn fitting<P: TranscodingProfile>(
    profiles: Seq<P>,
    stream_type: StreamType,
    profile_type: ProfileType,
    ctx: ProfileContext,
) -> Seq<int>
    decreases profiles.len(),
{
    if profiles.len() == 0 {
        Seq::empty()
    } else {
        let before = fitting(profiles.drop_last(), stream_type, profile_type, ctx);
        let p = profiles.last();
        if p.spec_stream_type() == stream_type && p.spec_profile_type() == profile_type && p.refuses(
            ctx,
        ) is None {
            before.push(profiles.len() - 1)
        } else {
            before
        }
    }
}

/// Finds the profiles of one type that can make the stream, in their order. Returns their places.
pub fn get_profile_for_with_type<P: TranscodingProfile>(
    profiles: &Vec<P>,
    stream_type: StreamType,
    profile_type: ProfileType,
    ctx: &ProfileContext,
) -> (r: Vec<usize>)
    ensures
        r@.map_values(|i: usize| i as int) == fitting(profiles@, stream_type, profile_type, *ctx),
{
    let mut r: Vec<usize> = Vec::new();
    let ghost f = |i: usize| i as int;
    let mut i: usize = 0;
    assert(profiles@.subrange(0, 0) =~= Seq::empty());
    assert(r@.map_values(f) =~= Seq::<int>::empty());
    while i < profiles.len()
        invariant
            0 <= i <= profiles@.len(),
            f == (|i: usize| i as int),
            r@.map_values(f) == fitting(
                profiles@.subrange(0, i as int),
                stream_type,
                profile_type,
                *ctx,
            ),
        decreases profiles@.len() - i,
    {
        let ghost before = r@.map_values(f);
        assert(profiles@.subrange(0, i + 1).drop_last() =~= profiles@.subrange(0, i as int));
        if profiles[i].stream_type() == stream_type && profiles[i].profile_type() == profile_type
            && profiles[i].supports(ctx).is_ok() {
            r.push(i);
            assert(r@.map_values(f) =~= before.push(i as int));
        }
        i = i + 1;
    }
    assert(profiles@.subrange(0, i as int) =~= profiles@);
    r
}

/// The places of the profiles that can make the stream, by their type, and in their order within a type.
pub open spec fn chosen<P: TranscodingProfile>(
    profiles: Seq<P>,
    stream_type: StreamType,
    ctx: ProfileContext,
) -> Seq<int> {
    fitting(profiles, stream_type, ProfileType::Transcode, ctx) + fitting(
        profiles,
        stream_type,
        ProfileType::Transmux,
        ctx,
    ) + fitting(profiles, stream_type, ProfileType::HardwareTranscode, ctx)
}

/// Finds the profiles that can make the stream, by their type, and in their order within a type.
/// Returns their places.
pub fn get_profile_for<P: TranscodingProfile>(
    profiles: &Vec<P>,
    stream_type: StreamType,
    ctx: &ProfileContext,
) -> (r: Vec<usize>)
    ensures
        r@.map_values(|i: usize| i as int) == chosen(profiles@, stream_type, *ctx),
{
    let ghost f = |i: usize| i as int;
    let mut r = get_profile_for_with_type(profiles, stream_type, ProfileType::Transcode, ctx);
    let mut transmux = get_profile_for_with_type(
        profiles,
        stream_type,
        ProfileType::Transmux,
        ctx,
    );
    let mut hardware = get_profile_for_with_type(
        profiles,
        stream_type,
        ProfileType::HardwareTranscode,
        ctx,
    );
    let ghost (a, b, c) = (r@, transmux@, hardware@);
    r.append(&mut transmux);
    r.append(&mut hardware);
    assert(r@.map_values(f) =~= a.map_values(f) + b.map_values(f) + c.map_values(f));
    r
}

/// The ffmpeg binary: the one that was configured, or the one on the path.
pub fn ffmpeg_bin(configured: &Option<String>) -> (r: String)
    ensures
        r@ == (match configured {
            Some(bin) => bin@,
            None => "ffmpeg"@,
        }),
{
    match configured {
        Some(bin) => bin.clone(),
        None => "ffmpeg".to_owned(),
    }
}

/// Every profile that is chosen makes streams of the type asked for, and supports what is asked.
pub proof fn law_chosen_profiles_fit<P: TranscodingProfile>(
    profiles: Seq<P>,
    stream_type: StreamType,
    profile_type: ProfileType,
    ctx: ProfileContext,
)
    ensures
        forall|k: int|
            0 <= k < fitting(profiles, stream_type, profile_type, ctx).len() ==> {
                let i = #[trigger] fitting(profiles, stream_type, profile_type, ctx)[k];
                &&& 0 <= i < profiles.len()
                &&& profiles[i].spec_stream_type() == stream_type
                &&& profiles[i].spec_profile_type() == profile_type
                &&& profiles[i].refuses(ctx) is None
            },
        forall|i: int|
            0 <= i < profiles.len() && (#[trigger] profiles[i]).spec_stream_type() == stream_type
                && profiles[i].spec_profile_type() == profile_type && profiles[i].refuses(ctx) is None
                ==> fitting(profiles, stream_type, profile_type, ctx).contains(i),
    decreases profiles.len(),
{
    if profiles.len() > 0 {
        let less = profiles.drop_last();
        law_chosen_profiles_fit(less, stream_type, profile_type, ctx);
        let before = fitting(less, stream_type, profile_type, ctx);
        let all = fitting(profiles, stream_type, profile_type, ctx);
        assert forall|i: int| 0 <= i < less.len() implies #[trigger] profiles[i] == less[i] by {}
        assert forall|i: int|
            0 <= i < profiles.len() && (#[trigger] profiles[i]).spec_stream_type() == stream_type
                && profiles[i].spec_profile_type() == profile_type && profiles[i].refuses(
                ctx,
            ) is None implies all.contains(i) by {
            if i < less.len() {
                assert(less[i] == profiles[i]);
                let k = choose|k: int| 0 <= k < before.len() && before[k] == i;
                assert(all[k] == i);
            } else {
                assert(all[all.len() - 1] == i);
            }
        }
    }
}

/// Every profile that can make the stream is chosen. Since the last is tried first, the hardware is tried before
/// anything else, a copy before an encoder that uses the CPU, and that last of all.
pub proof fn law_hardware_is_tried_first<P: TranscodingProfile>(
    profiles: Seq<P>,
    stream_type: StreamType,
    ctx: ProfileContext,
    i: int,
    j: int,
)
    ensures
        0 <= i < profiles.len() && profiles[i].spec_stream_type() == stream_type && profiles[i].refuses(ctx)
            is None ==> chosen(profiles, stream_type, ctx).contains(i),
        ({
            let c = chosen(profiles, stream_type, ctx);
            0 <= i < j < c.len() ==> {
                let first = profiles[c[i]].spec_profile_type();
                let later = profiles[c[j]].spec_profile_type();
                &&& first == ProfileType::HardwareTranscode ==> later == ProfileType::HardwareTranscode
                &&& first == ProfileType::Transmux ==> later != ProfileType::Transcode
            }
        }),
{
    let a = fitting(profiles, stream_type, ProfileType::Transcode, ctx);
    let b = fitting(profiles, stream_type, ProfileType::Transmux, ctx);
    let h = fitting(profiles, stream_type, ProfileType::HardwareTranscode, ctx);
    let c = chosen(profiles, stream_type, ctx);
    law_chosen_profiles_fit(profiles, stream_type, ProfileType::Transcode, ctx);
    law_chosen_profiles_fit(profiles, stream_type, ProfileType::Transmux, ctx);
    law_chosen_profiles_fit(profiles, stream_type, ProfileType::HardwareTranscode, ctx);
    if 0 <= i < profiles.len() && profiles[i].spec_stream_type() == stream_type && profiles[i].refuses(ctx)
        is None {
        match profiles[i].spec_profile_type() {
            ProfileType::Transcode => {
                let k = choose|k: int| 0 <= k < a.len() && a[k] == i;
                assert(c[k] == i);
            },
            ProfileType::Transmux => {
                let k = choose|k: int| 0 <= k < b.len() && b[k] == i;
                assert(c[a.len() + k] == i);
            },
            ProfileType::HardwareTranscode => {
                let k = choose|k: int| 0 <= k < h.len() && h[k] == i;
                assert(c[a.len() + b.len() + k] == i);
            },
        }
    }
    if 0 <= i < j < c.len() {
        let n = a.len();
        let m = a.len() + b.len();
        if i < n {
            assert(c[i] == a[i]);
        } else if i < m {
            assert(c[i] == b[i - n]);
        } else {
            assert(c[i] == h[i - m]);
        }
        if j < n {
            assert(c[j] == a[j]);
        } else if j < m {
            assert(c[j] == b[j - n]);
        } else {
            assert(c[j] == h[j - m]);
        }
    }
}

}
