//! Whether video can be copied into segments of a fixed length.
//!
//! Copying cannot insert key frames, so the segments of a copy are as long as the source's groups of
//! pictures make them. A stream is only copied where a key frame stands at every boundary that the
//! manifest promises.

use vstd::prelude::*;

use crate::text::{
    chars_of, contains, contains_str, pieces, same, split_by, starts_with, string_of, views,
};

verus! {

/// The length of a segment in seconds.
pub const SEGMENT_SECONDS: u32 = 10;

/// What a line of the packet probe says.
#[derive(Debug)]
pub struct PacketLine {
    /// The text of the presentation time.
    pub pts_time: Option<String>,
    pub flags: String,
}

/// How a packet's time compares with what is expected. Two times are close where they are at most a
/// tenth of a second apart; this is absolute, so that it cannot add up.
#[derive(Clone, Copy, Debug, PartialEq, Eq, Structural)]
pub struct PacketTiming {
    /// The time is close to that of the start.
    pub near_start: bool,
    /// As much time as the current boundary is away from the start has gone by since the first packet.
    pub reaches_boundary: bool,
    /// The time since the start is close to the current boundary.
    pub on_boundary: bool,
    /// The time since the start is not beyond the current boundary, or close to it.
    pub before_current: bool,
    /// The time since the start is not beyond the boundary after the current one, or close to it.
    pub before_next: bool,
}

/// Holds of a bar.
pub open spec fn bar() -> spec_fn(char) -> bool {
    |c: char| c == '|'
}

/// The value of the last of the first `k` fields that begins with `key`.
pub open spec fn last_value(fields: Seq<Seq<char>>, key: Seq<char>, k: int) -> Option<Seq<char>>
    decreases k,
{
    if k <= 0 {
        None
    } else if key.is_prefix_of(fields[k - 1]) {
        Some(fields[k - 1].subrange(key.len() as int, fields[k - 1].len() as int))
    } else {
        last_value(fields, key, k - 1)
    }
}

/// The value of a field of a line.
pub open spec fn field_of(line: Seq<char>, key: Seq<char>) -> Option<Seq<char>> {
    let fields = pieces(line, bar());
    last_value(fields, key, fields.len() as int)
}

/// The value of the last field that begins with `key`.
fn find_value(fields: &Vec<String>, key: &str) -> (r: Option<String>)
    ensures
        r is Some <==> last_value(views(fields@), key@, fields@.len() as int) is Some,
        r matches Some(v) ==> Some(v@) == last_value(views(fields@), key@, fields@.len() as int),
{
    let ghost all = views(fields@);
    let mut i: usize = fields.len();
    while i > 0
        invariant
            0 <= i <= fields@.len(),
            all == views(fields@),
            last_value(all, key@, fields@.len() as int) == last_value(all, key@, i as int),
        decreases i,
    {
        assert(all[i - 1] == fields@[i - 1]@);
        if starts_with(fields[i - 1].as_str(), key) {
            let v = chars_of(fields[i - 1].as_str());
            let k: usize = chars_of(key).len();
            return Some(string_of(&v, k, v.len()));
        }
        i = i - 1;
    }
    None
}

/// Reads a line of the packet probe, `key=value` fields with bars between them.
pub fn parse_packet_line(line: &str) -> (r: PacketLine)
    ensures
        r.pts_time is Some <==> field_of(line@, "pts_time="@) is Some,
        r.pts_time matches Some(v) ==> Some(v@) == field_of(line@, "pts_time="@),
        r.flags@ == (match field_of(line@, "flags="@) {
            Some(v) => v,
            None => Seq::empty(),
        }),
{
    let is_bar = |c: char| -> (b: bool)
        ensures
            b == (c == '|'),
        {
            c == '|'
        };
    let fields = split_by(line, is_bar, Ghost(bar()));
    let pts_time = find_value(&fields, "pts_time=");
    let flags = match find_value(&fields, "flags=") {
        Some(v) => v,
        None => String::new(),
    };
    PacketLine { pts_time, flags }
}

/// Follows the packets of a stream.
#[derive(Clone, Copy, Debug, PartialEq, Eq, Structural)]
pub struct TimingCheck {
    /// Whether a first packet was accepted.
    pub started: bool,
    /// The number of the next boundary.
    pub next_segment: u32,
}

/// The flags of a line.
pub open spec fn flags_of(line: Seq<char>) -> Seq<char> {
    match field_of(line, "flags="@) {
        Some(v) => v,
        None => Seq::empty(),
    }
}

/// What becomes of the check on a packet: whether the stream can still be copied, and the next state.
/// A time that is missing or not finite has no timing.
pub open spec fn after_packet(c: TimingCheck, line: Seq<char>, timing: Option<PacketTiming>) -> (
    bool,
    TimingCheck,
) {
    let flags = flags_of(line);
    let key = contains_str(flags, "K"@);
    if line.len() == 0 {
        (true, c)
    } else if timing is None || contains_str(flags, "C"@) || contains_str(flags, "D"@) {
        (false, c)
    } else {
        let t = timing->0;
        if !c.started {
            if key && t.near_start {
                (true, TimingCheck { started: true, ..c })
            } else {
                (false, c)
            }
        } else if key && t.reaches_boundary {
            if t.on_boundary {
                (t.before_next, TimingCheck { next_segment: (c.next_segment + 1) as u32, ..c })
            } else {
                (false, c)
            }
        } else {
            (t.before_current, c)
        }
    }
}

impl TimingCheck {
    /// A check before the first packet.
    pub fn new() -> (r: Self)
        ensures
            r == (TimingCheck { started: false, next_segment: 1 }),
    {
        TimingCheck { started: false, next_segment: 1 }
    }

    /// Takes a packet in; returns whether the stream can still be copied. A boundary is met by a key
    /// frame at the time at which the muxer cuts, so an earlier key frame does not count, and once a
    /// boundary is passed without one the rest need not be read.
    pub fn packet(&mut self, line: &str, timing: Option<PacketTiming>) -> (r: bool)
        requires
            old(self).next_segment < u32::MAX,
        ensures
            (r, *final(self)) == after_packet(*old(self), line@, timing),
    {
        if line.is_empty() {
            return true;
        }
        let flags = parse_packet_line(line).flags;
        let t = match timing {
            Some(t) => t,
            None => {
                return false;
            },
        };
        if contains(flags.as_str(), "C") || contains(flags.as_str(), "D") {
            return false;
        }
        let key = contains(flags.as_str(), "K");
        if !self.started {
            if !key || !t.near_start {
                return false;
            }
            self.started = true;
            return true;
        }
        if key && t.reaches_boundary {
            if !t.on_boundary {
                return false;
            }
            self.next_segment = self.next_segment + 1;
            t.before_next
        } else {
            t.before_current
        }
    }
}

/// A packet that is corrupt or to be discarded, or that has no usable time, is never approved.
pub proof fn law_unusable_packets_are_refused(
    c: TimingCheck,
    line: Seq<char>,
    timing: Option<PacketTiming>,
)
    requires
        line.len() > 0,
        timing is None || contains_str(flags_of(line), "C"@) || contains_str(flags_of(line), "D"@),
    ensures
        !after_packet(c, line, timing).0,
        after_packet(c, line, timing).1 == c,
{
}

/// A boundary is only left behind on a key frame that is on time.
pub proof fn law_boundaries_are_met_by_key_frames(
    c: TimingCheck,
    line: Seq<char>,
    timing: Option<PacketTiming>,
)
    requires
        after_packet(c, line, timing).1.next_segment != c.next_segment,
    ensures
        c.started,
        contains_str(flags_of(line), "K"@),
        timing matches Some(t) && t.reaches_boundary && t.on_boundary,
{
}

/// How many files the cache of verdicts knows before it is emptied.
pub const CACHE_LIMIT: usize = 64;

/// What a verdict is about: a file in a certain state, a stream of it, and how it was probed.
#[derive(Debug)]
pub struct CacheKey {
    pub file: String,
    pub length: u64,
    /// When the file was last changed, in nanoseconds since the epoch.
    pub modified_nanos: i128,
    pub stream: i64,
    /// The time at which the stream starts, a double by its bit pattern.
    pub start_time: u64,
    pub ffprobe: String,
}

/// A key with texts as sequences.
pub struct ProbeKey {
    pub file: Seq<char>,
    pub length: u64,
    pub modified_nanos: i128,
    pub stream: i64,
    pub start_time: u64,
    pub ffprobe: Seq<char>,
}

impl CacheKey {
    /// The key.
    pub open spec fn key(self) -> ProbeKey {
        ProbeKey {
            file: self.file@,
            length: self.length,
            modified_nanos: self.modified_nanos,
            stream: self.stream,
            start_time: self.start_time,
            ffprobe: self.ffprobe@,
        }
    }

    /// Tells if two keys are the same.
    pub fn same_as(&self, other: &CacheKey) -> (r: bool)
        ensures
            r == (self.key() == other.key()),
    {
        same(self.file.as_str(), other.file.as_str()) && self.length == other.length
            && self.modified_nanos == other.modified_nanos && self.stream == other.stream
            && self.start_time == other.start_time && same(
            self.ffprobe.as_str(),
            other.ffprobe.as_str(),
        )
    }
}

/// An entry of the cache: a verdict, or none while it is still to be found.
#[derive(Debug)]
pub struct ProbeEntry {
    pub key: CacheKey,
    pub verdict: Option<bool>,
}

/// Verdicts on streams.
#[derive(Debug)]
pub struct ProbeCache {
    pub entries: Vec<ProbeEntry>,
}

/// What the entries say.
pub open spec fn verdicts(entries: Seq<ProbeEntry>) -> Map<ProbeKey, Option<bool>>
    decreases entries.len(),
{
    if entries.len() == 0 {
        Map::empty()
    } else {
        verdicts(entries.drop_last()).insert(entries.last().key.key(), entries.last().verdict)
    }
}

/// No two entries have the same key.
pub open spec fn keys_differ(entries: Seq<ProbeEntry>) -> bool {
    forall|i: int, j: int|
        0 <= i < j < entries.len() ==> (#[trigger] entries[i]).key.key() != (
        #[trigger] entries[j]).key.key()
}

/// There is an entry for each key that is known, and no other.
proof fn lemma_verdicts(entries: Seq<ProbeEntry>)
    requires
        keys_differ(entries),
    ensures
        verdicts(entries).dom().finite(),
        verdicts(entries).dom().len() == entries.len(),
        forall|k: ProbeKey|
            #[trigger] verdicts(entries).contains_key(k) ==> exists|i: int|
                0 <= i < entries.len() && (#[trigger] entries[i]).key.key() == k,
        forall|i: int|
            0 <= i < entries.len() ==> verdicts(entries).contains_key(
                (#[trigger] entries[i]).key.key(),
            ) && verdicts(entries)[entries[i].key.key()] == entries[i].verdict,
    decreases entries.len(),
{
    if entries.len() > 0 {
        let front = entries.drop_last();
        let last = entries.last();
        assert forall|i: int, j: int| 0 <= i < j < front.len() implies (#[trigger] front[i]).key.key()
            != (#[trigger] front[j]).key.key() by {
            assert(entries[i].key.key() != entries[j].key.key());
        }
        lemma_verdicts(front);
        assert(!verdicts(front).contains_key(last.key.key())) by {
            if verdicts(front).contains_key(last.key.key()) {
                let i = choose|i: int|
                    0 <= i < front.len() && (#[trigger] front[i]).key.key() == last.key.key();
                assert(entries[i].key.key() != entries[entries.len() - 1].key.key());
            }
        }
        assert(verdicts(entries).dom() =~= verdicts(front).dom().insert(last.key.key()));
        assert forall|i: int| 0 <= i < entries.len() implies verdicts(entries).contains_key(
            (#[trigger] entries[i]).key.key(),
        ) && verdicts(entries)[entries[i].key.key()] == entries[i].verdict by {
            if i < front.len() {
                assert(front[i] == entries[i]);
                assert(entries[i].key.key() != entries[entries.len() - 1].key.key());
            }
        }
        assert forall|k: ProbeKey| #[trigger] verdicts(entries).contains_key(k) implies exists|i: int|
            0 <= i < entries.len() && (#[trigger] entries[i]).key.key() == k by {
            if k == last.key.key() {
                assert(entries[entries.len() - 1].key.key() == k);
            } else {
                assert(verdicts(front).contains_key(k));
                let i = choose|i: int| 0 <= i < front.len() && (#[trigger] front[i]).key.key() == k;
                assert(entries[i] == front[i]);
            }
        }
    }
}

/// The cache with room for a key, and with an entry for it.
pub open spec fn entered(m: Map<ProbeKey, Option<bool>>, k: ProbeKey) -> Map<ProbeKey, Option<bool>> {
    if m.contains_key(k) {
        m
    } else if m.dom().len() >= CACHE_LIMIT {
        Map::empty().insert(k, None)
    } else {
        m.insert(k, None)
    }
}

/// The cache after a probe: its verdict is kept where it gave one and the key still has an entry.
pub open spec fn settled(
    m: Map<ProbeKey, Option<bool>>,
    k: ProbeKey,
    outcome: Option<bool>,
) -> Map<ProbeKey, Option<bool>> {
    if outcome is Some && m.contains_key(k) {
        m.insert(k, outcome)
    } else {
        m
    }
}

impl ProbeCache {
    /// No key is known twice.
    pub open spec fn wf(self) -> bool {
        keys_differ(self.entries@)
    }

    /// What is known.
    pub open spec fn known(self) -> Map<ProbeKey, Option<bool>> {
        verdicts(self.entries@)
    }

    /// An empty cache.
    pub fn new() -> (r: Self)
        ensures
            r.wf(),
            r.known() == Map::<ProbeKey, Option<bool>>::empty(),
    {
        ProbeCache { entries: Vec::new() }
    }

    /// Finds the entry of a key.
    fn find(&self, key: &CacheKey) -> (r: Option<usize>)
        requires
            self.wf(),
        ensures
            match r {
                Some(i) => i < self.entries@.len() && self.entries@[i as int].key.key() == key.key()
                    && self.known().contains_key(key.key()) && self.known()[key.key()]
                    == self.entries@[i as int].verdict,
                None => !self.known().contains_key(key.key()),
            },
    {
        proof {
            lemma_verdicts(self.entries@);
        }
        let mut i: usize = 0;
        while i < self.entries.len()
            invariant
                0 <= i <= self.entries@.len(),
                forall|j: int|
                    0 <= j < i ==> (#[trigger] self.entries@[j]).key.key() != key.key(),
                forall|j: int|
                    0 <= j < self.entries@.len() ==> self.known().contains_key(
                        (#[trigger] self.entries@[j]).key.key(),
                    ) && self.known()[self.entries@[j].key.key()] == self.entries@[j].verdict,
            decreases self.entries@.len() - i,
        {
            if self.entries[i].key.same_as(key) {
                return Some(i);
            }
            i = i + 1;
        }
        None
    }

    /// Makes an entry for a key and gives the verdict, if there is one. A full cache is emptied first.
    pub fn enter(&mut self, key: CacheKey) -> (r: Option<bool>)
        requires
            old(self).wf(),
        ensures
            final(self).wf(),
            final(self).known() == entered(old(self).known(), key.key()),
            r == final(self).known()[key.key()],
    {
        if let Some(i) = self.find(&key) {
            return self.entries[i].verdict;
        }
        proof {
            lemma_verdicts(self.entries@);
        }
        if self.entries.len() >= CACHE_LIMIT {
            self.entries = Vec::new();
        }
        let ghost before = self.entries@;
        self.entries.push(ProbeEntry { key, verdict: None });
        proof {
            assert(self.entries@.drop_last() =~= before);
            if before.len() == 0 {
                assert(verdicts(before) == Map::<ProbeKey, Option<bool>>::empty());
            } else {
                lemma_verdicts(before);
            }
            assert forall|i: int, j: int| 0 <= i < j < self.entries@.len() implies (
            #[trigger] self.entries@[i]).key.key() != (#[trigger] self.entries@[j]).key.key() by {
                assert(self.entries@[i] == before[i]);
                if j < before.len() {
                    assert(self.entries@[j] == before[j]);
                }
            }
        }
        None
    }

    /// Keeps what a probe gave. One that gave nothing leaves the key without a verdict.
    pub fn settle(&mut self, key: &CacheKey, outcome: Option<bool>)
        requires
            old(self).wf(),
        ensures
            final(self).wf(),
            final(self).known() == settled(old(self).known(), key.key(), outcome),
    {
        let verdict = match outcome {
            Some(verdict) => verdict,
            None => {
                return;
            },
        };
        if let Some(i) = self.find(key) {
            let ghost before = self.entries@;
            self.entries[i].verdict = Some(verdict);
            proof {
                assert forall|a: int, b: int| 0 <= a < b < self.entries@.len() implies (
                #[trigger] self.entries@[a]).key.key() != (#[trigger] self.entries@[b]).key.key() by {
                    assert(before[a].key.key() != before[b].key.key());
                }
                lemma_settled(before, self.entries@, i as int, verdict);
            }
        }
    }
}

/// Changing the verdict of an entry changes what is known of its key alone.
proof fn lemma_settled(a: Seq<ProbeEntry>, b: Seq<ProbeEntry>, i: int, verdict: bool)
    requires
        keys_differ(a),
        keys_differ(b),
        0 <= i < a.len() == b.len(),
        forall|j: int| 0 <= j < a.len() ==> (#[trigger] a[j]).key == b[j].key,
        forall|j: int| 0 <= j < a.len() && j != i ==> (#[trigger] a[j]).verdict == b[j].verdict,
        b[i].verdict == Some(verdict),
    ensures
        verdicts(b) == verdicts(a).insert(a[i].key.key(), Some(verdict)),
{
    lemma_verdicts(a);
    lemma_verdicts(b);
    let want = verdicts(a).insert(a[i].key.key(), Some(verdict));
    let got = verdicts(b);
    assert forall|k: ProbeKey| #[trigger] got.contains_key(k) <==> want.contains_key(k) by {
        if got.contains_key(k) {
            let j = choose|j: int| 0 <= j < b.len() && (#[trigger] b[j]).key.key() == k;
            assert(a[j].key == b[j].key);
            assert(verdicts(a).contains_key(a[j].key.key()));
        }
        if want.contains_key(k) {
            if k == a[i].key.key() {
                assert(b[i].key == a[i].key);
                assert(got.contains_key(b[i].key.key()));
            } else {
                let j = choose|j: int| 0 <= j < a.len() && (#[trigger] a[j]).key.key() == k;
                assert(a[j].key == b[j].key);
                assert(got.contains_key(b[j].key.key()));
            }
        }
    }
    assert forall|k: ProbeKey| #[trigger] got.contains_key(k) implies got[k] == want[k] by {
        let j = choose|j: int| 0 <= j < b.len() && (#[trigger] b[j]).key.key() == k;
        assert(a[j].key == b[j].key);
        assert(verdicts(a)[a[j].key.key()] == a[j].verdict);
        if j != i {
            assert(a[j].verdict == b[j].verdict);
            if i < j {
                assert(a[i].key.key() != a[j].key.key());
            } else {
                assert(a[j].key.key() != a[i].key.key());
            }
        }
    }
    assert(got =~= want);
}

/// A packet of a stream: its line, and how its time compares.
pub type Packet = (Seq<char>, Option<PacketTiming>);

/// The check after the first `k` packets, and whether all of them were accepted.
pub open spec fn checked(packets: Seq<Packet>, k: int) -> (bool, TimingCheck)
    decreases k,
{
    if k <= 0 {
        (true, TimingCheck { started: false, next_segment: 1 })
    } else {
        let (so_far, c) = checked(packets, k - 1);
        let (accepted, next) = after_packet(c, packets[k - 1].0, packets[k - 1].1);
        (so_far && accepted, next)
    }
}

/// The packets with their lines as sequences.
pub open spec fn packets_of(packets: Seq<(String, Option<PacketTiming>)>) -> Seq<Packet> {
    packets.map_values(|p: (String, Option<PacketTiming>)| (p.0@, p.1))
}

/// What a probe gives: a stream with a packet that is refused cannot be copied, however the probe went on.
/// Else it can if the probe exited well and there was a first packet, and nothing is known if it did not
/// exit well.
pub open spec fn outcome_of(packets: Seq<Packet>, exited: Option<bool>) -> Option<bool> {
    let (accepted, check) = checked(packets, packets.len() as int);
    if !accepted {
        Some(false)
    } else if exited == Some(true) {
        Some(check.started)
    } else {
        None
    }
}

/// The verdict on a stream, by the packets that a probe printed and by how it exited: `None` where it did
/// not start, was given up, or could not be read to its end.
pub fn probe_outcome(packets: &Vec<(String, Option<PacketTiming>)>, exited: Option<bool>) -> (r: Option<
    bool,
>)
    requires
        packets@.len() < u32::MAX,
    ensures
        r == outcome_of(packets_of(packets@), exited),
{
    let ghost all = packets_of(packets@);
    let mut check = TimingCheck::new();
    let mut i: usize = 0;
    while i < packets.len()
        invariant
            0 <= i <= packets@.len() < u32::MAX,
            all == packets_of(packets@),
            checked(all, i as int) == (true, check),
            check.next_segment <= 1 + i,
        decreases packets@.len() - i,
    {
        let (line, timing): &(String, Option<PacketTiming>) = &packets[i];
        let accepted = check.packet(line.as_str(), *timing);
        assert(all[i as int] == (line@, *timing));
        assert(checked(all, i + 1) == (accepted, check));
        if !accepted {
            proof {
                lemma_refused_for_good(all, i + 1, all.len() as int);
            }
            return Some(false);
        }
        i = i + 1;
    }
    match exited {
        Some(true) => Some(check.started),
        _ => None,
    }
}

/// A stream with a packet that was refused stays refused.
proof fn lemma_refused_for_good(packets: Seq<Packet>, k: int, n: int)
    requires
        k <= n,
        !checked(packets, k).0,
    ensures
        !checked(packets, n).0,
    decreases n - k,
{
    if k < n {
        lemma_refused_for_good(packets, k, n - 1);
    }
}

/// What the question whether a stream can be copied has come to: it must be probed, it is answered, or
/// the probe gave nothing.
#[derive(Clone, Copy, Debug, PartialEq, Eq, Structural)]
pub enum TimingStep {
    Probe,
    Answer(bool),
    Failed,
}

/// What a probe printed, and whether it exited well, `None` where it did not exit.
#[derive(Debug)]
pub struct ProbeRun {
    pub packets: Vec<(String, Option<PacketTiming>)>,
    pub exited: Option<bool>,
}

impl ProbeRun {
    /// What the probe gives.
    pub open spec fn outcome(self) -> Option<bool> {
        outcome_of(packets_of(self.packets@), self.exited)
    }
}

/// Tells if a stream can be copied: what is known of it, or else what a probe gives. It is asked for a
/// first time without a probe, and then with the one that was needed.
pub fn has_compatible_timing(cache: &mut ProbeCache, key: CacheKey, run: Option<&ProbeRun>) -> (r:
    TimingStep)
    requires
        old(cache).wf(),
        run matches Some(p) ==> p.packets@.len() < u32::MAX,
    ensures
        final(cache).wf(),
        match run {
            None => final(cache).known() == entered(old(cache).known(), key.key()) && r == (
            match final(cache).known()[key.key()] {
                Some(verdict) => TimingStep::Answer(verdict),
                None => TimingStep::Probe,
            }),
            Some(p) => final(cache).known() == settled(
                old(cache).known(),
                key.key(),
                p.outcome(),
            ) && r == (match p.outcome() {
                Some(verdict) => TimingStep::Answer(verdict),
                None => TimingStep::Failed,
            }),
        },
{
    match run {
        None => match cache.enter(key) {
            Some(verdict) => TimingStep::Answer(verdict),
            None => TimingStep::Probe,
        },
        Some(p) => {
            let outcome = probe_outcome(&p.packets, p.exited);
            cache.settle(&key, outcome);
            match outcome {
                Some(verdict) => TimingStep::Answer(verdict),
                None => TimingStep::Failed,
            }
        },
    }
}

/// A stream is only copied where its probe exited well, printed a packet, and every packet was accepted.
/// Where all that is so, it is copied. Where a packet was refused it is not, and else nothing is known.
pub proof fn law_copied_streams_were_read_to_the_end(packets: Seq<Packet>, exited: Option<bool>)
    ensures
        outcome_of(packets, exited) == Some(true) <==> exited == Some(true) && checked(
            packets,
            packets.len() as int,
        ).0 && exists|i: int| 0 <= i < packets.len() && (#[trigger] packets[i]).0.len() > 0,
        outcome_of(packets, exited) is None <==> exited != Some(true) && checked(
            packets,
            packets.len() as int,
        ).0,
{
    lemma_started(packets, packets.len() as int);
}

/// Packets that were all accepted have started the check if one of them was no empty line.
proof fn lemma_started(packets: Seq<Packet>, k: int)
    requires
        0 <= k <= packets.len(),
    ensures
        checked(packets, k).0 ==> (checked(packets, k).1.started <==> exists|i: int|
            0 <= i < k && (#[trigger] packets[i]).0.len() > 0),
    decreases k,
{
    if k > 0 {
        lemma_started(packets, k - 1);
        if checked(packets, k).0 {
            let c = checked(packets, k - 1).1;
            let p = packets[k - 1];
            assert((true, checked(packets, k).1) == after_packet(c, p.0, p.1));
            if c.started {
                let i = choose|i: int| 0 <= i < k - 1 && (#[trigger] packets[i]).0.len() > 0;
                assert(0 <= i < k && packets[i].0.len() > 0);
            }
        }
    }
}

/// The answer to the question whether a stream can be copied, where `outcome` is what a probe gives if
/// there is one: `None` where it gave nothing.
pub open spec fn answer(
    m: Map<ProbeKey, Option<bool>>,
    k: ProbeKey,
    outcome: Option<bool>,
) -> Option<bool> {
    match entered(m, k)[k] {
        Some(verdict) => Some(verdict),
        None => outcome,
    }
}

/// The cache after the question was answered.
pub open spec fn after_answer(
    m: Map<ProbeKey, Option<bool>>,
    k: ProbeKey,
    outcome: Option<bool>,
) -> Map<ProbeKey, Option<bool>> {
    match entered(m, k)[k] {
        Some(verdict) => entered(m, k),
        None => settled(entered(m, k), k, outcome),
    }
}

/// An answer is given again without a probe, whatever one would give then, while the file has the same
/// length and time. A probe that gave nothing is not remembered: the next one decides.
pub proof fn law_answers_are_remembered(
    m: Map<ProbeKey, Option<bool>>,
    k: ProbeKey,
    first: Option<bool>,
    second: Option<bool>,
)
    ensures
        answer(m, k, first) is Some ==> answer(after_answer(m, k, first), k, second) == answer(
            m,
            k,
            first,
        ),
        answer(m, k, first) is None ==> answer(after_answer(m, k, first), k, second) == second,
{
}

/// Questions about other streams leave an answer as it is until the cache is full.
pub proof fn law_answers_outlive_other_questions(
    m: Map<ProbeKey, Option<bool>>,
    k: ProbeKey,
    other: ProbeKey,
    outcome: Option<bool>,
    later: Option<bool>,
)
    requires
        k != other,
        m.contains_key(k),
        m.contains_key(other) || m.dom().len() < CACHE_LIMIT,
    ensures
        answer(after_answer(m, other, outcome), k, later) == answer(m, k, later),
{
}

/// A verdict does not outlive the file that it is about: a file that was replaced has another length or
/// another time, and it is probed anew.
pub proof fn law_replaced_files_are_probed_again(
    m: Map<ProbeKey, Option<bool>>,
    old_key: ProbeKey,
    new_key: ProbeKey,
    first: Option<bool>,
    second: Option<bool>,
)
    requires
        !m.contains_key(new_key),
        old_key.length != new_key.length || old_key.modified_nanos != new_key.modified_nanos,
    ensures
        answer(after_answer(m, old_key, first), new_key, second) == second,
{
}

/// How many boundaries the first `k` packets have met.
pub open spec fn boundaries_met(packets: Seq<Packet>, k: int) -> nat
    decreases k,
{
    if k <= 0 {
        0
    } else {
        let c = checked(packets, k - 1).1;
        let (line, timing) = packets[k - 1];
        let met: nat = if line.len() > 0 && c.started && contains_str(flags_of(line), "K"@)
            && timing is Some && timing->0.reaches_boundary {
            1
        } else {
            0
        };
        boundaries_met(packets, k - 1) + met
    }
}

/// A stream that is copied meets every boundary: each of the packets up to `k` is usable, each key frame
/// that reaches the next boundary is on time, and the boundaries that were left behind are as many as
/// such key frames. So no drift adds up.
pub proof fn law_copied_streams_meet_every_boundary(packets: Seq<Packet>, k: int)
    requires
        0 <= k <= packets.len() < u32::MAX,
        checked(packets, k).0,
    ensures
        checked(packets, k).1.next_segment == 1 + boundaries_met(packets, k),
        boundaries_met(packets, k) <= k,
        forall|i: int|
            0 <= i < k && (#[trigger] packets[i]).0.len() > 0 ==> {
                let c = checked(packets, i).1;
                let (line, timing) = packets[i];
                &&& timing is Some
                &&& c.started && contains_str(flags_of(line), "K"@) && timing->0.reaches_boundary
                    ==> timing->0.on_boundary
                &&& !c.started ==> contains_str(flags_of(line), "K"@) && timing->0.near_start
            },
    decreases k,
{
    if k > 0 {
        law_copied_streams_meet_every_boundary(packets, k - 1);
    }
}

/// A packet that can be used is approved. The first must be a key frame close to the start; after it a
/// packet may come until the current boundary; and a key frame on the boundary moves on to the next.
pub proof fn law_usable_packets_are_approved(c: TimingCheck, line: Seq<char>, t: PacketTiming)
    requires
        line.len() > 0,
        !contains_str(flags_of(line), "C"@),
        !contains_str(flags_of(line), "D"@),
        c.next_segment < u32::MAX,
    ensures
        ({
            let key = contains_str(flags_of(line), "K"@);
            let (approved, next) = after_packet(c, line, Some(t));
            &&& !c.started ==> approved == (key && t.near_start) && next.started == approved
                && next.next_segment == c.next_segment
            &&& c.started ==> next.started
            &&& c.started && !key ==> approved == t.before_current && next == c
            &&& c.started && !t.reaches_boundary ==> approved == t.before_current && next == c
            &&& c.started && key && t.reaches_boundary && t.on_boundary ==> approved == t.before_next
                && next.next_segment == c.next_segment + 1
            &&& c.started && key && t.reaches_boundary && !t.on_boundary ==> !approved
        }),
{
}

/// An empty line says nothing.
pub proof fn law_empty_lines_are_passed_over(c: TimingCheck, timing: Option<PacketTiming>)
    ensures
        after_packet(c, Seq::empty(), timing) == (true, c),
{
}

/// The value of a field is what follows its key in the last field that begins with it, so the order in which
/// other fields stand does not matter.
pub proof fn law_fields_are_found_by_their_keys(line: Seq<char>, key: Seq<char>, i: int)
    requires
        0 <= i < pieces(line, bar()).len(),
        key.is_prefix_of(pieces(line, bar())[i]),
        forall|j: int|
            i < j < pieces(line, bar()).len() ==> !key.is_prefix_of(#[trigger] pieces(line, bar())[j]),
    ensures
        field_of(line, key) is Some,
        key + field_of(line, key)->0 == pieces(line, bar())[i],
{
    let fields = pieces(line, bar());
    lemma_last_value(fields, key, i, fields.len() as int);
    assert(key + fields[i].subrange(key.len() as int, fields[i].len() as int) =~= fields[i]);
}

/// Fields that do not begin with the key do not count.
proof fn lemma_last_value(fields: Seq<Seq<char>>, key: Seq<char>, i: int, k: int)
    requires
        0 <= i < k <= fields.len(),
        key.is_prefix_of(fields[i]),
        forall|j: int| i < j < k ==> !key.is_prefix_of(#[trigger] fields[j]),
    ensures
        last_value(fields, key, k) == Some(
            fields[i].subrange(key.len() as int, fields[i].len() as int),
        ),
    decreases k,
{
    if k - 1 > i {
        lemma_last_value(fields, key, i, k - 1);
    }
}

/// A file that is asked about is in the cache from then on, as one that nothing is known of where it was
/// not there; the cache never holds more than 64 files, and is emptied for the one that would be too many.
pub proof fn law_caches_stay_small(m: Map<ProbeKey, Option<bool>>, k: ProbeKey)
    requires
        m.dom().finite(),
        m.dom().len() <= 64,
    ensures
        entered(m, k).contains_key(k),
        entered(m, k).dom().finite(),
        entered(m, k).dom().len() <= 64,
        m.contains_key(k) ==> entered(m, k) == m,
        !m.contains_key(k) ==> entered(m, k)[k] is None,
        !m.contains_key(k) && m.dom().len() < 64 ==> entered(m, k).dom().len() == m.dom().len() + 1,
        !m.contains_key(k) && m.dom().len() == 64 ==> entered(m, k).dom().len() == 1,
{
    assert(Map::<ProbeKey, Option<bool>>::empty().dom().len() == 0);
}

}
