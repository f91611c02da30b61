//! Quality tiers, codec strings and sidecar subtitles.

use vstd::prelude::*;

use crate::text::{
    cat, cat3, contains, dec, dec_padded2, contains_str, padded, same,
};

verus! {

/// A tier of video quality.
#[derive(Clone, Copy, Debug, PartialEq, Eq, Structural)]
pub struct Quality {
    pub height: u64,
    pub bitrate: u64,
}

/// The presets, the best first.
pub open spec fn presets() -> Seq<Quality> {
    seq![
        Quality { height: 1080, bitrate: 10_000_000 },
        Quality { height: 720, bitrate: 5_000_000 },
        Quality { height: 480, bitrate: 1_000_000 },
    ]
}

/// The presets, the best first.
pub fn video_qualities() -> (r: Vec<Quality>)
    ensures
        r@ == presets(),
{
    let mut r: Vec<Quality> = Vec::new();
    r.push(Quality { height: 1080, bitrate: 10_000_000 });
    r.push(Quality { height: 720, bitrate: 5_000_000 });
    r.push(Quality { height: 480, bitrate: 1_000_000 });
    assert(r@ =~= presets());
    r
}

/// A tier does not exceed a source.
pub open spec fn within(height: u64, bitrate: u64) -> spec_fn(Quality) -> bool {
    |q: Quality| q.height <= height && q.bitrate <= bitrate
}

/// The tiers for a source: the presets that do not exceed it, and before them the source's own where
/// its height exceeds theirs.
pub open spec fn tiers(height: u64, bitrate: u64) -> Seq<Quality> {
    let fit = presets().filter(within(height, bitrate));
    if fit.len() == 0 || fit[0].height < height {
        seq![Quality { height, bitrate }] + fit
    } else {
        fit
    }
}

/// The tiers for a source of this height and bitrate.
pub fn get_qualities(height: u64, bitrate: u64) -> (r: Vec<Quality>)
    ensures
        r@ == tiers(height, bitrate),
{
    let all = video_qualities();
    let ghost f = within(height, bitrate);
    let mut fit: Vec<Quality> = Vec::new();
    let mut i: usize = 0;
    proof {
        reveal(Seq::filter);
        assert(all@.subrange(0, 0) =~= Seq::empty());
    }
    while i < all.len()
        invariant
            0 <= i <= all@.len(),
            f == within(height, bitrate),
            fit@ == all@.subrange(0, i as int).filter(f),
        decreases all@.len() - i,
    {
        proof {
            reveal(Seq::filter);
            assert(all@.subrange(0, i + 1).drop_last() =~= all@.subrange(0, i as int));
        }
        if all[i].height <= height && all[i].bitrate <= bitrate {
            fit.push(all[i]);
        }
        i = i + 1;
    }
    assert(all@.subrange(0, i as int) =~= all@);
    if fit.len() == 0 || fit[0].height < height {
        let mut r: Vec<Quality> = Vec::new();
        r.push(Quality { height, bitrate });
        r.append(&mut fit);
        assert(r@ =~= tiers(height, bitrate));
        r
    } else {
        fit
    }
}

/// No tier upscales a source or inflates its bitrate, and the first has the source's height, so that
/// a source above all presets is not capped.
pub proof fn law_tiers_do_not_exceed_the_source(height: u64, bitrate: u64)
    ensures
        tiers(height, bitrate).len() > 0,
        tiers(height, bitrate)[0].height == height,
        forall|i: int|
            0 <= i < tiers(height, bitrate).len() ==> (#[trigger] tiers(height, bitrate)[i]).height
                <= height && tiers(height, bitrate)[i].bitrate <= bitrate,
{
    broadcast use vstd::seq_lib::group_filter_ensures;

    let f = within(height, bitrate);
    let fit = presets().filter(f);
    assert forall|i: int| 0 <= i < fit.len() implies (#[trigger] fit[i]).height <= height
        && fit[i].bitrate <= bitrate by {
        assert(f(fit[i]));
    }
    let all = tiers(height, bitrate);
    assert forall|i: int| 0 <= i < all.len() implies (#[trigger] all[i]).height <= height
        && all[i].bitrate <= bitrate by {
        if fit.len() == 0 || fit[0].height < height {
            if i > 0 {
                assert(all[i] == fit[i - 1]);
            }
        } else {
            assert(all[i] == fit[i]);
        }
    }
}

/// The tiers of a source are all presets that do not exceed it, the best first, and before them its own
/// where no preset has its height.
pub proof fn law_tiers_are_the_presets_that_fit(height: u64, bitrate: u64)
    ensures
        forall|q: Quality|
            #![trigger tiers(height, bitrate).contains(q)]
            (q == (Quality { height: 1080, bitrate: 10_000_000 }) || q == (Quality {
                height: 720,
                bitrate: 5_000_000,
            }) || q == (Quality { height: 480, bitrate: 1_000_000 })) && q.height <= height && q.bitrate
                <= bitrate ==> tiers(height, bitrate).contains(q),
        forall|i: int|
            0 <= i < tiers(height, bitrate).len() ==> {
                let q = #[trigger] tiers(height, bitrate)[i];
                ||| q == (Quality { height: 1080, bitrate: 10_000_000 })
                ||| q == (Quality { height: 720, bitrate: 5_000_000 })
                ||| q == (Quality { height: 480, bitrate: 1_000_000 })
                ||| q == (Quality { height, bitrate })
            },
        forall|i: int, j: int|
            0 <= i < j < tiers(height, bitrate).len() ==> (#[trigger] tiers(height, bitrate)[i]).height
                > (#[trigger] tiers(height, bitrate)[j]).height,
{
    let f = within(height, bitrate);
    let a = Quality { height: 1080, bitrate: 10_000_000 };
    let b = Quality { height: 720, bitrate: 5_000_000 };
    let c = Quality { height: 480, bitrate: 1_000_000 };
    let none = Seq::<Quality>::empty();
    reveal(Seq::filter);
    assert(presets().drop_last() =~= seq![a, b]);
    assert(seq![a, b].drop_last() =~= seq![a]);
    assert(seq![a].drop_last() =~= none);
    assert(none.filter(f) =~= none);
    let one = if f(a) {
        seq![a]
    } else {
        none
    };
    let two = if f(b) {
        one.push(b)
    } else {
        one
    };
    let fit = if f(c) {
        two.push(c)
    } else {
        two
    };
    assert(seq![a].filter(f) =~= one);
    assert(seq![a, b].filter(f) =~= two);
    assert(presets().filter(f) =~= fit);
    let all = tiers(height, bitrate);
    let own = if fit.len() == 0 || fit[0].height < height {
        1int
    } else {
        0
    };
    assert forall|i: int| own <= i < all.len() implies #[trigger] all[i] == fit[i - own] by {}
    assert forall|q: Quality|
        #![trigger all.contains(q)]
        (q == a || q == b || q == c) && q.height <= height && q.bitrate <= bitrate implies all.contains(
        q,
    ) by {
        assert(f(q));
        if q == a {
            assert(fit[0] == a);
            assert(all[own] == a);
        } else if q == b {
            assert(fit[one.len() as int] == b);
            assert(all[own + one.len() as int] == b);
        } else {
            assert(fit[two.len() as int] == c);
            assert(all[own + two.len() as int] == c);
        }
    }
    assert forall|i: int, j: int| 0 <= i < j < fit.len() implies (#[trigger] fit[i]).height > (
    #[trigger] fit[j]).height by {}
    assert forall|i: int, j: int| 0 <= i < j < all.len() implies (#[trigger] all[i]).height > (
    #[trigger] all[j]).height by {
        if i < own {
            assert(fit[j - own].height <= fit[0].height);
        }
    }
}

/// The limits of a level of H.264.
#[derive(Clone, Copy, Debug, PartialEq, Eq, Structural)]
pub struct Avc1Level {
    pub level: u64,
    /// Macroblocks per second.
    pub macro_blocks_rate: u64,
    /// Macroblocks per frame.
    pub max_frame_size: u64,
    pub max_bitrate: u64,
}

/// The level with these limits.
pub open spec fn avc1(
    level: u64,
    macro_blocks_rate: u64,
    max_frame_size: u64,
    max_bitrate: u64,
) -> Avc1Level {
    Avc1Level { level, macro_blocks_rate, max_frame_size, max_bitrate }
}

/// The levels, from the lowest to the highest.
pub open spec fn levels() -> Seq<Avc1Level> {
    seq![
        avc1(9, 1_485, 99, 128_000),
        avc1(10, 1_485, 99, 64_000),
        avc1(11, 3_000, 396, 192_000),
        avc1(12, 6_000, 396, 384_000),
        avc1(13, 11_880, 396, 768_000),
        avc1(20, 11_880, 396, 2_000_000),
        avc1(21, 19_800, 792, 4_000_000),
        avc1(22, 20_250, 1_620, 4_000_000),
        avc1(30, 40_500, 1_620, 10_000_000),
        avc1(31, 108_000, 3_600, 14_000_000),
        avc1(32, 216_000, 5_120, 20_000_000),
        avc1(40, 245_760, 8_192, 20_000_000),
        avc1(41, 245_760, 8_192, 50_000_000),
        avc1(42, 522_240, 8_704, 50_000_000),
        avc1(50, 589_824, 22_080, 135_000_000),
        avc1(51, 983_040, 36_864, 240_000_000),
        avc1(52, 2_073_600, 36_864, 240_000_000),
        avc1(60, 4_177_920, 139_264, 240_000_000),
        avc1(61, 8_355_840, 139_264, 480_000_000),
        avc1(62, 16_711_680, 139_264, 800_000_000),
    ]
}

/// Adds a level to a list.
fn add_level(
    v: &mut Vec<Avc1Level>,
    level: u64,
    macro_blocks_rate: u64,
    max_frame_size: u64,
    max_bitrate: u64,
)
    ensures
        final(v)@ == old(v)@.push(avc1(level, macro_blocks_rate, max_frame_size, max_bitrate)),
{
    v.push(Avc1Level { level, macro_blocks_rate, max_frame_size, max_bitrate });
}

/// The levels, from the lowest to the highest.
pub fn avc1_levels() -> (r: Vec<Avc1Level>)
    ensures
        r@ == levels(),
        r@.len() == 20,
{
    let mut v: Vec<Avc1Level> = Vec::new();
    add_level(&mut v, 9, 1_485, 99, 128_000);
    add_level(&mut v, 10, 1_485, 99, 64_000);
    add_level(&mut v, 11, 3_000, 396, 192_000);
    add_level(&mut v, 12, 6_000, 396, 384_000);
    add_level(&mut v, 13, 11_880, 396, 768_000);
    add_level(&mut v, 20, 11_880, 396, 2_000_000);
    add_level(&mut v, 21, 19_800, 792, 4_000_000);
    add_level(&mut v, 22, 20_250, 1_620, 4_000_000);
    add_level(&mut v, 30, 40_500, 1_620, 10_000_000);
    add_level(&mut v, 31, 108_000, 3_600, 14_000_000);
    add_level(&mut v, 32, 216_000, 5_120, 20_000_000);
    add_level(&mut v, 40, 245_760, 8_192, 20_000_000);
    add_level(&mut v, 41, 245_760, 8_192, 50_000_000);
    add_level(&mut v, 42, 522_240, 8_704, 50_000_000);
    add_level(&mut v, 50, 589_824, 22_080, 135_000_000);
    add_level(&mut v, 51, 983_040, 36_864, 240_000_000);
    add_level(&mut v, 52, 2_073_600, 36_864, 240_000_000);
    add_level(&mut v, 60, 4_177_920, 139_264, 240_000_000);
    add_level(&mut v, 61, 8_355_840, 139_264, 480_000_000);
    add_level(&mut v, 62, 16_711_680, 139_264, 800_000_000);
    assert(v@ =~= levels());
    v
}

/// The hexadecimal digit for a value below sixteen.
pub open spec fn hex_digit(d: int) -> char {
    if d < 10 {
        (48 + d) as char
    } else {
        (87 + d) as char
    }
}

/// `n` in hexadecimal, without leading zeros.
pub open spec fn hex(n: nat) -> Seq<char>
    decreases n,
{
    if n < 16 {
        seq![hex_digit(n as int)]
    } else {
        hex(n / 16).push(hex_digit((n % 16) as int))
    }
}

/// Prints a number in hexadecimal.
pub fn hex_u64(n: u64) -> (r: String)
    ensures
        r@ == hex(n as nat),
        n < 16 ==> r@.len() == 1,
        n >= 16 ==> r@.len() >= 2,
    decreases n,
{
    let d: u8 = (n % 16) as u8;
    let c: char = if d < 10 {
        (48 + d) as char
    } else {
        (87 + d) as char
    };
    if n < 16 {
        let mut r = String::new();
        r.push(c);
        assert(r@ =~= hex(n as nat));
        r
    } else {
        let mut r = hex_u64(n / 16);
        r.push(c);
        r
    }
}

impl Avc1Level {
    /// The codec string of the level.
    pub fn to_string(&self) -> (r: String)
        ensures
            r@ == "avc1.6400"@ + padded(hex(self.level as nat), 2),
    {
        let digits = hex_u64(self.level);
        if self.level < 16 {
            assert(seq!['0'] + digits@ =~= padded(hex(self.level as nat), 2));
            proof {
                reveal_strlit("0");
                assert("0"@ =~= seq!['0']);
            }
            cat("avc1.6400", cat("0", digits.as_str()).as_str())
        } else {
            cat("avc1.6400", digits.as_str())
        }
    }
}

/// The first level with this number, from `from` on.
pub open spec fn level_from(level: int, from: int) -> Option<Avc1Level>
    decreases levels().len() - from,
{
    if from < 0 || from >= levels().len() {
        None
    } else if levels()[from].level == level {
        Some(levels()[from])
    } else {
        level_from(level, from + 1)
    }
}

/// The level with this number, if there is one.
pub fn level_to_tag(level: i64) -> (r: Option<Avc1Level>)
    ensures
        r == level_from(level as int, 0),
{
    let all = avc1_levels();
    let mut i: usize = 0;
    while i < all.len()
        invariant
            0 <= i <= all@.len(),
            all@ == levels(),
            level_from(level as int, 0) == level_from(level as int, i as int),
        decreases all@.len() - i,
    {
        if level >= 0 && all[i].level == level as u64 {
            return Some(all[i]);
        }
        i = i + 1;
    }
    None
}

/// A source of this size, bitrate and frame rate is below the limits of a level. A macroblock has 16
/// by 16 pixels; of the macroblocks of a frame only whole ones count.
pub open spec fn is_below(x: Avc1Level, width: u64, height: u64, bitrate: u64, framerate: u64) -> bool {
    &&& x.max_bitrate > bitrate
    &&& (width * height) / 256 < x.max_frame_size
    &&& width * height * framerate < x.macro_blocks_rate * 256
}

/// The first level from `from` on that a source is below, or the highest where it exceeds them all.
pub open spec fn lowest_from(
    width: u64,
    height: u64,
    bitrate: u64,
    framerate: u64,
    from: int,
) -> Avc1Level
    decreases levels().len() - from,
{
    if from < 0 || from >= levels().len() {
        levels().last()
    } else if is_below(levels()[from], width, height, bitrate, framerate) {
        levels()[from]
    } else {
        lowest_from(width, height, bitrate, framerate, from + 1)
    }
}

/// Whether a source is below the limits of a level.
fn fits_level(x: &Avc1Level, width: u64, height: u64, bitrate: u64, framerate: u64) -> (r: bool)
    requires
        x.macro_blocks_rate > 0,
    ensures
        r == is_below(*x, width, height, bitrate, framerate),
{
    proof {
        assert(0 <= width * height <= 0xffff_ffff_ffff_ffff * 0xffff_ffff_ffff_ffff)
            by (nonlinear_arith)
            requires
                0 <= width <= 0xffff_ffff_ffff_ffff,
                0 <= height <= 0xffff_ffff_ffff_ffff,
        ;
    }
    let pixels: u128 = (width as u128) * (height as u128);
    let limit: u128 = (x.macro_blocks_rate as u128) * 256;
    let slow_enough = if framerate == 0 {
        assert(width * height * framerate == 0) by (nonlinear_arith)
            requires
                framerate == 0,
        ;
        true
    } else {
        let most: u128 = (limit - 1) / (framerate as u128);
        proof {
            let p = width * height;
            let f = framerate as int;
            let l = limit - 1;
            let q = l / f;
            assert(q * f <= l < (q + 1) * f) by (nonlinear_arith)
                requires
                    f > 0,
                    q == l / f,
            ;
            if p <= q {
                assert(p * f <= q * f) by (nonlinear_arith)
                    requires
                        p <= q,
                        f > 0,
                ;
            } else {
                assert(p * f >= (q + 1) * f) by (nonlinear_arith)
                    requires
                        p >= q + 1,
                        f > 0,
                ;
            }
        }
        pixels <= most
    };
    x.max_bitrate > bitrate && pixels / 256 < x.max_frame_size as u128 && slow_enough
}

/// The lowest level for a source. One that exceeds every level gets the highest.
pub fn get_avc1_tag(width: u64, height: u64, bitrate: u64, framerate: u64) -> (r: Avc1Level)
    ensures
        r == lowest_from(width, height, bitrate, framerate, 0),
{
    let all = avc1_levels();
    let mut i: usize = 0;
    while i < all.len()
        invariant
            0 <= i <= all@.len(),
            all@ == levels(),
            all@.len() == 20,
            lowest_from(width, height, bitrate, framerate, 0) == lowest_from(
                width,
                height,
                bitrate,
                framerate,
                i as int,
            ),
        decreases all@.len() - i,
    {
        if fits_level(&all[i], width, height, bitrate, framerate) {
            return all[i];
        }
        i = i + 1;
    }
    all[19]
}

/// What is known of a video stream.
#[derive(Debug)]
pub struct VideoStream {
    pub profile: Option<String>,
    pub pix_fmt: Option<String>,
    pub height: Option<i64>,
}

/// The profile, level and bit depth in a VP9 codec string. The level is an approximation from the
/// height.
pub open spec fn vp9_parts(s: VideoStream) -> (nat, nat, nat) {
    let profile: nat = match s.profile {
        Some(p) => if p@ == "Profile 1"@ {
            1
        } else if p@ == "Profile 2"@ {
            2
        } else if p@ == "Profile 3"@ {
            3
        } else {
            0
        },
        None => 0,
    };
    let depth: nat = match s.pix_fmt {
        Some(f) => if contains_str(f@, "12"@) {
            12
        } else if contains_str(f@, "10"@) {
            10
        } else {
            8
        },
        None => 8,
    };
    let height: int = match s.height {
        Some(h) => h as int,
        None => 1080,
    };
    let level: nat = if height <= 480 {
        21
    } else if height <= 720 {
        30
    } else if height <= 1080 {
        40
    } else if height <= 1440 {
        50
    } else {
        51
    };
    (profile, level, depth)
}

/// The codec string `vp09.PP.LL.DD` of a VP9 stream.
pub fn get_vp9_tag(stream: &VideoStream) -> (r: String)
    ensures
        r@ == "vp09."@ + padded(dec(vp9_parts(*stream).0), 2) + "."@ + padded(
            dec(vp9_parts(*stream).1),
            2,
        ) + "."@ + padded(dec(vp9_parts(*stream).2), 2),
{
    let profile: u64 = match &stream.profile {
        Some(p) => if same(p.as_str(), "Profile 1") {
            1
        } else if same(p.as_str(), "Profile 2") {
            2
        } else if same(p.as_str(), "Profile 3") {
            3
        } else {
            0
        },
        None => 0,
    };
    let depth: u64 = match &stream.pix_fmt {
        Some(f) => if contains(f.as_str(), "12") {
            12
        } else if contains(f.as_str(), "10") {
            10
        } else {
            8
        },
        None => 8,
    };
    let height: i64 = match stream.height {
        Some(h) => h,
        None => 1080,
    };
    let level: u64 = if height <= 480 {
        21
    } else if height <= 720 {
        30
    } else if height <= 1080 {
        40
    } else if height <= 1440 {
        50
    } else {
        51
    };
    let start = cat3("vp09.", dec_padded2(profile).as_str(), ".");
    let middle = cat3(start.as_str(), dec_padded2(level).as_str(), ".");
    cat(middle.as_str(), dec_padded2(depth).as_str())
}

/// The levels, with the macroblocks per second, the macroblocks per frame and the bits per second that each
/// stays below.
pub proof fn law_levels_and_their_limits()
    ensures
        levels().map_values(|x: Avc1Level| x.level) == seq![
            9u64, 10, 11, 12, 13, 20, 21, 22, 30, 31, 32, 40, 41, 42, 50, 51, 52, 60, 61, 62,
        ],
        levels().map_values(|x: Avc1Level| x.macro_blocks_rate) == seq![
            1_485u64, 1_485, 3_000, 6_000, 11_880, 11_880, 19_800, 20_250, 40_500, 108_000, 216_000,
            245_760, 245_760, 522_240, 589_824, 983_040, 2_073_600, 4_177_920, 8_355_840, 16_711_680,
        ],
        levels().map_values(|x: Avc1Level| x.max_frame_size) == seq![
            99u64, 99, 396, 396, 396, 396, 792, 1_620, 1_620, 3_600, 5_120, 8_192, 8_192, 8_704, 22_080,
            36_864, 36_864, 139_264, 139_264, 139_264,
        ],
        levels().map_values(|x: Avc1Level| x.max_bitrate) == seq![
            128_000u64, 64_000, 192_000, 384_000, 768_000, 2_000_000, 4_000_000, 4_000_000, 10_000_000,
            14_000_000, 20_000_000, 20_000_000, 50_000_000, 50_000_000, 135_000_000, 240_000_000,
            240_000_000, 240_000_000, 480_000_000, 800_000_000,
        ],
{
}

/// A search from `from` on gives a level that the source is below, or the highest, and passes over no
/// other that it is below.
proof fn lemma_lowest(width: u64, height: u64, bitrate: u64, framerate: u64, from: int) -> (k: int)
    requires
        0 <= from <= levels().len(),
    ensures
        0 <= k < levels().len(),
        lowest_from(width, height, bitrate, framerate, from) == levels()[k],
        from <= k || from == levels().len(),
        k < levels().len() - 1 ==> is_below(levels()[k], width, height, bitrate, framerate),
        forall|j: int|
            from <= j < k ==> !is_below(#[trigger] levels()[j], width, height, bitrate, framerate),
    decreases levels().len() - from,
{
    if from >= levels().len() {
        levels().len() - 1
    } else if is_below(levels()[from], width, height, bitrate, framerate) {
        from
    } else {
        lemma_lowest(width, height, bitrate, framerate, from + 1)
    }
}

/// The level for a source is the first whose limits its bits per second, its macroblocks per frame and its
/// macroblocks per second are all below; only a source that is below those of none gets the last.
pub proof fn law_the_lowest_level_is_chosen(
    width: u64,
    height: u64,
    bitrate: u64,
    framerate: u64,
    j: int,
)
    requires
        0 <= j < levels().len(),
        bitrate < levels()[j].max_bitrate,
        width * height < levels()[j].max_frame_size * 256,
        width * height * framerate < levels()[j].macro_blocks_rate * 256,
    ensures
        ({
            let r = lowest_from(width, height, bitrate, framerate, 0);
            &&& r.level <= levels()[j].level
            &&& bitrate < r.max_bitrate
            &&& width * height < r.max_frame_size * 256
            &&& width * height * framerate < r.macro_blocks_rate * 256
            &&& exists|k: int| 0 <= k <= j && #[trigger] levels()[k] == r
        }),
{
    let k = lemma_lowest(width, height, bitrate, framerate, 0);
    assert(is_below(levels()[j], width, height, bitrate, framerate));
    assert(k <= j);
    assert(0 <= k <= j && levels()[k] == lowest_from(width, height, bitrate, framerate, 0));
}

/// A source that exceeds every level gets the highest.
pub proof fn law_large_sources_get_the_highest_level(
    width: u64,
    height: u64,
    bitrate: u64,
    framerate: u64,
)
    requires
        bitrate >= 800_000_000 || width * height >= 139_264 * 256 || width * height * framerate
            >= 16_711_680 * 256,
    ensures
        lowest_from(width, height, bitrate, framerate, 0).level == 62,
{
    let k = lemma_lowest(width, height, bitrate, framerate, 0);
    assert(forall|j: int|
        0 <= j < levels().len() ==> (#[trigger] levels()[j]).max_bitrate <= 800_000_000
            && levels()[j].max_frame_size <= 139_264 && levels()[j].macro_blocks_rate <= 16_711_680);
}

/// Every level is found by its number, and nothing else is found.
pub proof fn law_levels_are_found_by_their_numbers(level: int, k: int)
    ensures
        0 <= k < levels().len() ==> level_from(levels()[k].level as int, 0) == Some(levels()[k]),
        match level_from(level, 0) {
            Some(x) => x.level == level && levels().contains(x),
            None => forall|j: int| 0 <= j < levels().len() ==> (#[trigger] levels()[j]).level != level,
        },
{
    lemma_level_from(level, 0);
    if 0 <= k < levels().len() {
        lemma_level_from(levels()[k].level as int, 0);
        let x = level_from(levels()[k].level as int, 0)->0;
        let j = choose|j: int| 0 <= j < levels().len() && levels()[j] == x;
        law_levels_and_their_limits();
        assert(j == k);
    }
}

/// A search from `from` on gives a level with the number, if there is one.
proof fn lemma_level_from(level: int, from: int)
    requires
        0 <= from <= levels().len(),
    ensures
        match level_from(level, from) {
            Some(x) => x.level == level && levels().contains(x),
            None => forall|j: int| from <= j < levels().len() ==> (#[trigger] levels()[j]).level != level,
        },
    decreases levels().len() - from,
{
    if from < levels().len() && levels()[from].level != level {
        lemma_level_from(level, from + 1);
    }
}

/// The hexadecimal digits of a number are those of its sixteenth, and one for what is left.
pub proof fn law_hexadecimal_digits(m: nat, d: int)
    requires
        0 <= d < 16,
    ensures
        hex(d as nat) == seq!["0123456789abcdef"@[d]],
        m > 0 ==> hex((16 * m + d) as nat) == hex(m).push("0123456789abcdef"@[d]),
{
    reveal_strlit("0123456789abcdef");
    let n = (16 * m + d) as nat;
    assert(n / 16 == m && n % 16 == d);
    assert(hex_digit(d) == "0123456789abcdef"@[d]);
    if m > 0 {
        assert(hex(n) == hex(n / 16).push(hex_digit((n % 16) as int)));
    }
    assert(hex(d as nat) == seq![hex_digit(d)]);
}

/// In the codec string of a VP9 stream the profile is the one that is named, the bit depth is that of the
/// pixel format, and the level grows with the height of the picture.
pub proof fn law_vp9_strings_describe_the_stream(s: VideoStream, t: VideoStream)
    ensures
        s.profile matches Some(p) ==> (p@ == "Profile 1"@ ==> vp9_parts(s).0 == 1) && (p@ == "Profile 2"@
            ==> vp9_parts(s).0 == 2) && (p@ == "Profile 3"@ ==> vp9_parts(s).0 == 3) && (p@
            == "Profile 0"@ ==> vp9_parts(s).0 == 0),
        s.profile is None ==> vp9_parts(s).0 == 0,
        vp9_parts(s).2 == 12 <==> s.pix_fmt is Some && contains_str(s.pix_fmt->0@, "12"@),
        vp9_parts(s).2 == 10 <==> s.pix_fmt is Some && contains_str(s.pix_fmt->0@, "10"@)
            && !contains_str(s.pix_fmt->0@, "12"@),
        vp9_parts(s).2 == 8 || vp9_parts(s).2 == 10 || vp9_parts(s).2 == 12,
        s.height is None && t.height == Some(1080i64) ==> vp9_parts(s).1 == vp9_parts(t).1,
        s.height is Some && t.height is Some && s.height->0 <= t.height->0 ==> vp9_parts(s).1
            <= vp9_parts(t).1,
        s.height == Some(480i64) ==> vp9_parts(s).1 == 21,
        s.height == Some(481i64) || s.height == Some(720i64) ==> vp9_parts(s).1 == 30,
        s.height == Some(721i64) || s.height == Some(1080i64) ==> vp9_parts(s).1 == 40,
        s.height == Some(1081i64) || s.height == Some(1440i64) ==> vp9_parts(s).1 == 50,
        s.height matches Some(h) ==> (h > 1440 ==> vp9_parts(s).1 == 51) && (h < 480 ==> vp9_parts(s).1
            == 21),
{
    reveal_strlit("Profile 0");
    reveal_strlit("Profile 1");
    reveal_strlit("Profile 2");
    reveal_strlit("Profile 3");
    assert("Profile 0"@[8] == '0' && "Profile 1"@[8] == '1' && "Profile 2"@[8] == '2' && "Profile 3"@[8]
        == '3');
}

}
