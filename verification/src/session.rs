//! A transcoding session: which profile runs, where it stands, when it is given up.

use vstd::prelude::*;
use vstd::utf8::{encode_utf8, is_char_boundary};

use crate::profiles::context::{ProfileContext, StreamType};
use crate::text::{
    cat, cat3, chars_of, dec, dec_u64, ends_with, find_char, parse_unsigned, string_of, trim,
    trimmed, unsigned,
};

verus! {

/// How many chunks are encoded ahead of the last one requested before the stream is given up.
pub const MAX_CHUNKS_AHEAD: u32 = 15;

/// A session that nothing is requested of ends after half an hour.
pub const HARD_TIMEOUT_NANOS: u64 = 1_800_000_000_000;

/// A transcoding session. Profiles are known by their places in the list of active profiles.
#[derive(Debug)]
pub struct Session {
    /// The id of the stream.
    pub id: String,
    /// Whether the process is held back.
    pub is_throttled: bool,
    /// The profiles to fall back on, the next one last.
    pub profile_chain: Vec<usize>,
    /// The profile that is used.
    pub profile: usize,
    pub profile_ctx: ProfileContext,
    /// Whether the process succeeded, once it has ended.
    pub exit_status: Option<bool>,
    pub real_segment: u32,
    /// How many chunks were returned since the init segment was.
    pub chunks_since_init: u32,
    /// The length of a chunk in seconds.
    pub chunk_size: u32,
    pub has_started: bool,
    /// The last chunk requested.
    pub last_chunk: u32,
    /// When the session ends, on the monotonic clock.
    pub hard_timeout: u64,
    pub child_pid: Option<u32>,
    /// Whether a process belongs to the session.
    pub has_process: bool,
}

/// What is to be done about a process that may have died.
#[derive(Clone, Copy, Debug, PartialEq, Eq, Structural)]
pub enum Fallback {
    /// Nothing: it runs, or it has ended well.
    Nothing,
    /// Start over with the next profile, after its predecessor's partial output was deleted.
    Next(usize),
    /// No profile is left.
    Exhausted,
}

/// The end of the time in which something must be requested.
pub open spec fn timeout_after(now: u64) -> u64 {
    if now <= u64::MAX - HARD_TIMEOUT_NANOS {
        (now + HARD_TIMEOUT_NANOS) as u64
    } else {
        u64::MAX
    }
}

/// Computes the end of the time in which something must be requested.
fn timeout_from(now: u64) -> (r: u64)
    ensures
        r == timeout_after(now),
{
    if now <= u64::MAX - HARD_TIMEOUT_NANOS {
        now + HARD_TIMEOUT_NANOS
    } else {
        u64::MAX
    }
}

/// `after` is the session `before` moved to a chunk, with no process.
pub open spec fn moved_to(before: Session, after: Session, chunk: u32) -> bool {
    &&& after.id == before.id
    &&& after.is_throttled
    &&& after.profile_chain == before.profile_chain
    &&& after.profile == before.profile
    &&& after.profile_ctx.output_ctx.start_num == chunk
    &&& after.profile_ctx == (ProfileContext {
        output_ctx: crate::profiles::context::OutputCtx {
            start_num: chunk,
            ..before.profile_ctx.output_ctx
        },
        ..before.profile_ctx
    })
    &&& after.exit_status == before.exit_status
    &&& after.real_segment == chunk
    &&& after.chunks_since_init == before.chunks_since_init
    &&& after.chunk_size == before.chunk_size
    &&& !after.has_started
    &&& after.last_chunk == chunk
    &&& after.hard_timeout == before.hard_timeout
    &&& after.child_pid is None
    &&& !after.has_process
}

/// `after` is the session `before` once it was looked whether its process has ended, and `r` what to do
/// about it: nothing where it runs or has ended well, else to go on with the next profile, if one is left.
pub open spec fn death_handled(before: Session, after: Session, ended: Option<bool>, r: Fallback) -> bool {
    let status = if before.has_process && ended is Some {
        ended
    } else {
        before.exit_status
    };
    if status is None || status == Some(true) {
        r == Fallback::Nothing && after == (Session { exit_status: None, ..before })
    } else if before.profile_chain@.len() == 0 {
        r == Fallback::Exhausted && after == (Session { exit_status: None, ..before })
    } else {
        &&& r == Fallback::Next(before.profile_chain@.last())
        &&& after.profile_chain@ == before.profile_chain@.drop_last()
        &&& moved_to(
            Session {
                exit_status: None,
                profile: before.profile_chain@.last(),
                profile_chain: after.profile_chain,
                ..before
            },
            after,
            before.profile_ctx.output_ctx.start_num,
        )
    }
}

/// `after` is the session `before` with its process held back, and `r` the process that is stopped for it.
pub open spec fn held_back(before: Session, after: Session, r: Option<u32>) -> bool {
    if before.child_pid is Some && !before.is_throttled {
        r == before.child_pid && after == (Session { is_throttled: true, ..before })
    } else {
        r is None && after == before
    }
}

/// `after` is the session `before` with its process let go, and `r` the process that is continued for it.
pub open spec fn let_go(before: Session, after: Session, r: Option<u32>) -> bool {
    if before.child_pid is Some && before.is_throttled {
        r == before.child_pid && after == (Session { is_throttled: false, ..before })
    } else {
        r is None && after == before
    }
}

/// The chunk that the output stands at: its time in seconds by the length of a chunk, but not before
/// the last chunk requested. Subtitles have no chunks.
pub open spec fn chunk_at(s: Session, stream_type: StreamType, out_time_us: Option<Seq<char>>) -> int {
    if stream_type == StreamType::Subtitle {
        0
    } else {
        let us = match out_time_us {
            Some(text) => match unsigned(text, u64::MAX as nat) {
                Some(n) => n as int,
                None => 0,
            },
            None => 0,
        };
        let chunk = us / 1_000_000 / (s.chunk_size as int) % 0x1_0000_0000;
        if chunk > s.last_chunk {
            chunk
        } else {
            s.last_chunk as int
        }
    }
}

/// The process is too far ahead of what is requested.
pub open spec fn is_too_far_ahead(s: Session, stream_type: StreamType, out_time_us: Option<Seq<char>>) -> bool {
    chunk_at(s, stream_type, out_time_us) > s.last_chunk + MAX_CHUNKS_AHEAD
}

impl Session {
    /// A session with a chain of profiles, of which the last is tried first.
    pub fn new(id: String, profile_chain: Vec<usize>, profile_ctx: ProfileContext, now: u64) -> (r: Self)
        requires
            profile_chain@.len() > 0,
        ensures
            r.id == id,
            r.profile == profile_chain@.last(),
            r.profile_chain@ == profile_chain@.drop_last(),
            r.real_segment == profile_ctx.output_ctx.start_num,
            r.chunk_size == profile_ctx.output_ctx.target_gop,
            r.profile_ctx == profile_ctx,
            r.last_chunk == 0,
            !r.is_throttled,
            !r.has_started,
            r.child_pid is None,
            !r.has_process,
            r.hard_timeout == timeout_after(now),
            r.chunks_since_init == 0,
            r.exit_status is None,
    {
        let mut chain = profile_chain;
        let profile = chain.pop().unwrap();
        assert(chain@ =~= profile_chain@.drop_last());
        Session {
            id,
            is_throttled: false,
            profile_chain: chain,
            profile,
            real_segment: profile_ctx.output_ctx.start_num,
            chunk_size: profile_ctx.output_ctx.target_gop,
            profile_ctx,
            exit_status: None,
            chunks_since_init: 0,
            has_started: false,
            last_chunk: 0,
            hard_timeout: timeout_from(now),
            child_pid: None,
            has_process: false,
        }
    }

    /// Notes that a process was started.
    pub fn started(&mut self, pid: Option<u32>)
        ensures
            *final(self) == (Session {
                has_started: true,
                is_throttled: false,
                child_pid: pid,
                has_process: true,
                ..*old(self)
            }),
    {
        self.has_started = true;
        self.is_throttled = false;
        self.child_pid = pid;
        self.has_process = true;
    }

    /// The first segment.
    pub fn start_num(&self) -> (r: u32)
        ensures
            r == self.profile_ctx.output_ctx.start_num,
    {
        self.profile_ctx.output_ctx.start_num
    }

    /// Goes on to the next profile, if one is left.
    pub fn next_profile(&mut self) -> (r: Option<usize>)
        ensures
            match r {
                Some(p) => {
                    &&& old(self).profile_chain@.len() > 0
                    &&& p == old(self).profile_chain@.last()
                    &&& final(self).profile_chain@ == old(self).profile_chain@.drop_last()
                    &&& *final(self) == (Session {
                        profile: p,
                        profile_chain: final(self).profile_chain,
                        ..*old(self)
                    })
                },
                None => old(self).profile_chain@.len() == 0 && *final(self) == *old(self),
            },
    {
        if self.profile_chain.len() == 0 {
            return None;
        }
        let next = self.profile_chain.pop().unwrap();
        assert(self.profile_chain@ =~= old(self).profile_chain@.drop_last());
        self.profile = next;
        Some(next)
    }

    /// Decides what to do about a process, where `ended` says whether it has ended since it was last
    /// looked at, and if so, whether well. A status that was captured before still counts.
    pub fn check_death_and_fallback(&mut self, ended: Option<bool>) -> (r: Fallback)
        ensures
            death_handled(*old(self), *final(self), ended, r),
    {
        if self.has_process && ended.is_some() {
            self.exit_status = ended;
        }
        let status = self.exit_status;
        self.exit_status = None;
        match status {
            None => {
                return Fallback::Nothing;
            },
            Some(true) => {
                return Fallback::Nothing;
            },
            Some(false) => {},
        }
        match self.next_profile() {
            Some(next) => {
                let start = self.start_num();
                self.reset_to(start);
                Fallback::Next(next)
            },
            None => Fallback::Exhausted,
        }
    }

    /// Notes that the process was ended on purpose: its status must not count as a failure.
    pub fn joined(&mut self)
        ensures
            *final(self) == (if old(self).has_process {
                Session { exit_status: None, ..*old(self) }
            } else {
                *old(self)
            }),
    {
        if self.has_process {
            self.exit_status = None;
        }
    }

    /// Tells if the session has been started and not been moved since.
    pub fn has_started(&self) -> (r: bool)
        ensures
            r == self.has_started,
    {
        self.has_started
    }

    /// Tells if no process works for the session: it has none, or `process_dead` says that it is dead.
    pub fn is_dead(&self, process_dead: bool) -> (r: bool)
        ensures
            r == (self.child_pid is None || process_dead),
    {
        self.child_pid.is_none() || process_dead
    }

    /// Whether the time in which something must be requested is over.
    pub fn is_hard_timeout(&self, now: u64) -> (r: bool)
        ensures
            r == (now > self.hard_timeout),
    {
        now > self.hard_timeout
    }

    /// Ends the time in which something must be requested.
    pub fn set_timeout(&mut self, now: u64)
        ensures
            *final(self) == (Session { hard_timeout: now, ..*old(self) }),
    {
        self.hard_timeout = now;
    }

    /// Holds the process back; returns the process to stop, if there is one that runs.
    pub fn pause(&mut self) -> (r: Option<u32>)
        ensures
            held_back(*old(self), *final(self), r),
    {
        if let Some(pid) = self.child_pid {
            if !self.is_throttled {
                self.is_throttled = true;
                return Some(pid);
            }
        }
        None
    }

    /// Lets the process go on; returns the process to continue, if there is one that is held back.
    pub fn cont(&mut self) -> (r: Option<u32>)
        ensures
            let_go(*old(self), *final(self), r),
    {
        if let Some(pid) = self.child_pid {
            if self.is_throttled {
                self.is_throttled = false;
                return Some(pid);
            }
        }
        None
    }

    /// The chunk that the output stands at, where `out_time_us` is what the process says of its time.
    /// Segments are cut by time, so the time, and not a count of frames, says which one it is.
    pub fn current_chunk(&self, stream_type: StreamType, out_time_us: Option<&str>) -> (r: u32)
        requires
            self.chunk_size > 0,
        ensures
            r == chunk_at(
                *self,
                stream_type,
                match out_time_us {
                    Some(text) => Some(text@),
                    None => None,
                },
            ),
    {
        if stream_type == StreamType::Subtitle {
            return 0;
        }
        let us: u64 = match out_time_us {
            Some(text) => match parse_unsigned(text, u64::MAX) {
                Some(n) => n,
                None => 0,
            },
            None => 0,
        };
        let chunk: u32 = (us / 1_000_000 / (self.chunk_size as u64) % 0x1_0000_0000) as u32;
        if chunk > self.last_chunk {
            chunk
        } else {
            self.last_chunk
        }
    }

    /// Whether the process is too far ahead of what is requested.
    pub fn is_timeout(&self, stream_type: StreamType, out_time_us: Option<&str>) -> (r: bool)
        requires
            self.chunk_size > 0,
            self.last_chunk + MAX_CHUNKS_AHEAD <= u32::MAX,
        ensures
            r == is_too_far_ahead(
                *self,
                stream_type,
                match out_time_us {
                    Some(text) => Some(text@),
                    None => None,
                },
            ),
    {
        self.current_chunk(stream_type, out_time_us) > self.last_chunk + MAX_CHUNKS_AHEAD
    }

    /// Notes that a chunk was requested.
    pub fn reset_timeout(&mut self, last_requested: u32, now: u64)
        ensures
            *final(self) == (Session {
                last_chunk: last_requested,
                hard_timeout: timeout_after(now),
                ..*old(self)
            }),
    {
        self.last_chunk = last_requested;
        self.hard_timeout = timeout_from(now);
    }

    /// Where a chunk is written.
    pub fn chunk_to_path(&self, chunk_num: u32) -> (r: String)
        ensures
            r@ == self.profile_ctx.output_ctx.outdir@ + "/"@ + dec(chunk_num as nat) + ".m4s"@,
    {
        let dir = cat3(
            self.profile_ctx.output_ctx.outdir.as_str(),
            "/",
            dec_u64(chunk_num as u64).as_str(),
        );
        cat(dir.as_str(), ".m4s")
    }

    /// Where the init segment for a first segment is written.
    pub fn custom_init_seg(&self, start_num: u32) -> (r: String)
        ensures
            r@ == self.profile_ctx.output_ctx.outdir@ + "/"@ + dec(start_num as nat) + "_init.mp4"@,
    {
        let dir = cat3(
            self.profile_ctx.output_ctx.outdir.as_str(),
            "/",
            dec_u64(start_num as u64).as_str(),
        );
        cat(dir.as_str(), "_init.mp4")
    }

    /// Where the init segment is written.
    pub fn init_seg(&self) -> (r: String)
        ensures
            r@ == self.profile_ctx.output_ctx.outdir@ + "/"@ + dec(
                self.profile_ctx.output_ctx.start_num as nat,
            ) + "_init.mp4"@,
    {
        self.custom_init_seg(self.start_num())
    }

    /// Where a subtitle file is written, if the stream is one of subtitles.
    pub fn subtitle(&self, stream_type: StreamType, file: &str) -> (r: Option<String>)
        ensures
            r is Some <==> stream_type == StreamType::Subtitle,
            r matches Some(path) ==> path@ == self.profile_ctx.output_ctx.outdir@ + "/"@ + file@,
    {
        if stream_type == StreamType::Subtitle {
            Some(cat3(self.profile_ctx.output_ctx.outdir.as_str(), "/", file))
        } else {
            None
        }
    }

    /// Where the process writes its messages, for a profile with this tag.
    pub fn log_path(&self, tag: &str) -> (r: String)
        ensures
            r@ == self.profile_ctx.output_ctx.outdir@ + "/ffmpeg_"@ + tag@ + ".log"@,
    {
        let path = cat3(self.profile_ctx.output_ctx.outdir.as_str(), "/ffmpeg_", tag);
        cat(path.as_str(), ".log")
    }

    /// Moves the session to a chunk. The process that ran before no longer belongs to it.
    pub fn reset_to(&mut self, chunk: u32)
        ensures
            moved_to(*old(self), *final(self), chunk),
    {
        self.profile_ctx.output_ctx.start_num = chunk;
        self.last_chunk = chunk;
        self.has_started = false;
        self.is_throttled = true;
        self.real_segment = chunk;
        self.child_pid = None;
        self.has_process = false;
    }
}

/// A file with this name is a segment, an init segment or a playlist.
pub open spec fn is_media_artifact(name: Seq<char>) -> bool {
    ".m4s"@.is_suffix_of(name) || ".mp4"@.is_suffix_of(name) || ".m3u8"@.is_suffix_of(name)
}

/// Whether a file is deleted when another profile takes over.
pub fn is_stale_output(name: &str) -> (r: bool)
    ensures
        r == is_media_artifact(name@),
{
    ends_with(name, ".m4s") || ends_with(name, ".mp4") || ends_with(name, ".m3u8")
}

/// The first line of a text, without what ends it.
pub open spec fn first_line(s: Seq<char>) -> Seq<char> {
    let line = match find_char(s, |c: char| c == '\n', 0) {
        Some(i) => s.subrange(0, i),
        None => s,
    };
    if find_char(s, |c: char| c == '\n', 0) is Some && line.len() > 0 && line.last() == '\r' {
        line.drop_last()
    } else {
        line
    }
}

/// Cuts the first line out of a text.
fn cut_first_line(s: &str) -> (r: String)
    ensures
        r@ == first_line(s@),
{
    let v = chars_of(s);
    let ghost f = |c: char| c == '\n';
    let mut i: usize = 0;
    while i < v.len() && v[i] != '\n'
        invariant
            0 <= i <= v@.len(),
            v@ == s@,
            f == (|c: char| c == '\n'),
            find_char(s@, f, 0) == find_char(s@, f, i as int),
        decreases v@.len() - i,
    {
        i = i + 1;
    }
    if i < v.len() {
        if i > 0 && v[i - 1] == '\r' {
            assert(s@.subrange(0, i as int).drop_last() =~= s@.subrange(0, i - 1));
            string_of(&v, 0, i - 1)
        } else {
            string_of(&v, 0, i)
        }
    } else {
        assert(s@.subrange(0, i as int) =~= s@);
        string_of(&v, 0, i)
    }
}

/// `r` is what is shown of a log: all of a short one; of a long one the first line, which is the
/// command, and the last 1000 bytes.
pub open spec fn is_log_excerpt(log: Seq<char>, r: Seq<char>) -> bool {
    let bytes = encode_utf8(log);
    if bytes.len() <= 2000 {
        r == log
    } else {
        exists|tail: Seq<char>|
            #[trigger] encode_utf8(tail) == bytes.subrange(bytes.len() - 1000, bytes.len() as int)
                && r == first_line(log) + "\n...\n"@ + tail
    }
}

/// Shortens a log. The last 1000 bytes of a long one must begin with a whole character.
pub fn log_excerpt(log: &str) -> (r: String)
    requires
        encode_utf8(log@).len() > 2000 ==> is_char_boundary(
            encode_utf8(log@),
            encode_utf8(log@).len() - 1000,
        ),
    ensures
        is_log_excerpt(log@, r@),
{
    let len: usize = log.as_bytes().len();
    if len <= 2000 {
        return log.to_owned();
    }
    let (_, tail) = log.split_at(len - 1000);
    cat3(cut_first_line(log).as_str(), "\n...\n", tail)
}

/// The key and the value of a progress line, without whitespace around them.
pub open spec fn progress_of(line: Seq<char>) -> Option<(Seq<char>, Seq<char>)> {
    match find_char(line, |c: char| c == '=', 0) {
        Some(i) => Some(
            (
                trimmed(line.subrange(0, i)),
                trimmed(line.subrange(i + 1, line.len() as int)),
            ),
        ),
        None => None,
    }
}

/// Reads a progress line; one without `=` says nothing.
pub fn parse_progress(line: &str) -> (r: Option<(String, String)>)
    ensures
        r is Some <==> progress_of(line@) is Some,
        r matches Some(p) ==> Some((p.0@, p.1@)) == progress_of(line@),
{
    let v = chars_of(line);
    let ghost f = |c: char| c == '=';
    let len: usize = v.len();
    let mut i: usize = 0;
    while i < len && v[i] != '='
        invariant
            0 <= i <= len == v@.len(),
            v@ == line@,
            f == (|c: char| c == '='),
            find_char(line@, f, 0) == find_char(line@, f, i as int),
        decreases len - i,
    {
        i = i + 1;
    }
    if i == len {
        return None;
    }
    let key = string_of(&v, 0, i);
    let value = string_of(&v, i + 1, len);
    Some((trim(key.as_str()), trim(value.as_str())))
}

/// Going through the chain of fallbacks uses each profile once, from the last to the first, and then
/// ends.
pub proof fn law_fallbacks_run_out(chain: Seq<usize>, k: int)
    requires
        0 <= k <= chain.len(),
    ensures
        remaining_after(chain, k).len() == chain.len() - k,
        k < chain.len() ==> remaining_after(chain, k).last() == chain[chain.len() - 1 - k],
    decreases k,
{
    if k > 0 {
        law_fallbacks_run_out(chain, k - 1);
        lemma_remaining(chain, k - 1);
    }
    lemma_remaining(chain, k);
}

/// The chain after `k` fallbacks.
pub open spec fn remaining_after(chain: Seq<usize>, k: int) -> Seq<usize>
    decreases k,
{
    if k <= 0 {
        chain
    } else {
        remaining_after(chain, k - 1).drop_last()
    }
}

/// Each fallback takes the last profile off the chain.
proof fn lemma_remaining(chain: Seq<usize>, k: int)
    requires
        0 <= k <= chain.len(),
    ensures
        remaining_after(chain, k) == chain.subrange(0, chain.len() - k),
    decreases k,
{
    if k > 0 {
        lemma_remaining(chain, k - 1);
    }
    assert(remaining_after(chain, k) =~= chain.subrange(0, chain.len() - k));
}

/// A session whose process failed goes on with the next profile of its chain from the first segment, and a
/// session whose process did not fail keeps its profile. A status is only looked at once.
pub proof fn law_failed_processes_give_way_to_the_next_profile(
    before: Session,
    after: Session,
    ended: Option<bool>,
    r: Fallback,
)
    requires
        death_handled(before, after, ended, r),
    ensures
        after.exit_status is None,
        before.has_process && ended == Some(false) && before.profile_chain@.len() > 0 ==> {
            let next = before.profile_chain@[before.profile_chain@.len() - 1];
            &&& r == Fallback::Next(next)
            &&& after.profile == next
            &&& after.profile_chain@.push(next) == before.profile_chain@
            &&& !after.has_process
            &&& after.child_pid is None
            &&& !after.has_started
            &&& after.real_segment == before.profile_ctx.output_ctx.start_num
            &&& after.profile_ctx == before.profile_ctx
        },
        before.has_process && ended == Some(false) && before.profile_chain@.len() == 0 ==> r
            == Fallback::Exhausted && after.profile == before.profile,
        before.has_process && ended == Some(true) || ended is None && before.exit_status is None ==> r
            == Fallback::Nothing && after.profile == before.profile && after.profile_chain
            == before.profile_chain && after.child_pid == before.child_pid && after.has_started
            == before.has_started,
{
    if r is Next {
        let chain = before.profile_chain@;
        assert(chain.drop_last().push(chain[chain.len() - 1]) =~= chain);
    }
}

/// A process that runs is stopped once and continued once, and then the session is as it was.
pub proof fn law_processes_are_held_back_and_let_go(
    a: Session,
    b: Session,
    c: Session,
    d: Session,
    stopped: Option<u32>,
    again: Option<u32>,
    continued: Option<u32>,
)
    requires
        held_back(a, b, stopped),
        held_back(b, c, again),
        let_go(c, d, continued),
        a.child_pid is Some,
        !a.is_throttled,
    ensures
        stopped == a.child_pid,
        b.is_throttled,
        again is None,
        continued == a.child_pid,
        d == a,
{
}

/// Without a process there is nothing to stop or to continue.
pub proof fn law_without_a_process_nothing_is_stopped(a: Session, b: Session, r: Option<u32>)
    requires
        a.child_pid is None,
        held_back(a, b, r) || let_go(a, b, r),
    ensures
        r is None,
        b == a,
{
}

/// Where the time of the output lies beyond the last chunk requested, it lies within the chunk that the
/// output stands at; the output never stands before the last chunk requested.
pub proof fn law_chunks_are_cut_by_time(s: Session, stream_type: StreamType, text: Seq<char>, us: nat)
    requires
        s.chunk_size > 0,
        stream_type != StreamType::Subtitle,
        unsigned(text, u64::MAX as nat) == Some(us),
        us < 0x1_0000_0000 * 1_000_000,
    ensures
        chunk_at(s, stream_type, Some(text)) >= s.last_chunk,
        chunk_at(s, stream_type, Some(text)) > s.last_chunk ==> {
            let c = chunk_at(s, stream_type, Some(text));
            let seconds = us as int / 1_000_000;
            c * s.chunk_size <= seconds < (c + 1) * s.chunk_size
        },
        us as int / 1_000_000 >= (s.last_chunk + 1) * s.chunk_size ==> chunk_at(
            s,
            stream_type,
            Some(text),
        ) > s.last_chunk,
{
    let seconds = us as int / 1_000_000;
    let n = s.chunk_size as int;
    let q = seconds / n;
    assert(q * n <= seconds < (q + 1) * n && 0 <= q <= seconds) by (nonlinear_arith)
        requires
            n > 0,
            seconds >= 0,
            q == seconds / n,
    ;
    assert(seconds < 0x1_0000_0000);
    assert(q % 0x1_0000_0000 == q);
    if seconds >= (s.last_chunk + 1) * n {
        let last = s.last_chunk as int;
        assert(q >= last + 1) by (nonlinear_arith)
            requires
                n > 0,
                (last + 1) * n <= seconds < (q + 1) * n,
        ;
    }
}

/// The output of a subtitle stream stands at no chunk, and one that has not told its time stands at the last
/// chunk requested.
pub proof fn law_outputs_without_time(s: Session, stream_type: StreamType, text: Option<Seq<char>>)
    requires
        s.chunk_size > 0,
    ensures
        stream_type == StreamType::Subtitle ==> chunk_at(s, stream_type, text) == 0,
        stream_type != StreamType::Subtitle && text is None ==> chunk_at(s, stream_type, text)
            == s.last_chunk,
{
    assert(0int / (s.chunk_size as int) == 0) by (nonlinear_arith)
        requires
            s.chunk_size > 0,
    ;
}

/// A session that nothing is requested of lives for half an hour.
pub proof fn law_sessions_live_for_half_an_hour(now: u64)
    requires
        now + 30 * 60 * 1_000_000_000 <= u64::MAX,
    ensures
        timeout_after(now) == now + 30 * 60 * 1_000_000_000,
{
}

/// Segments, init segments and playlists are deleted when another profile takes over; logs and subtitles are
/// kept.
pub proof fn law_media_output_is_stale(stem: Seq<char>)
    ensures
        is_media_artifact(stem + ".m4s"@),
        is_media_artifact(stem + ".mp4"@),
        is_media_artifact(stem + ".m3u8"@),
        !is_media_artifact(stem + ".log"@),
        !is_media_artifact(stem + ".vtt"@),
        !is_media_artifact(stem + ".ass"@),
{
    reveal_strlit(".m4s");
    reveal_strlit(".mp4");
    reveal_strlit(".m3u8");
    reveal_strlit(".log");
    reveal_strlit(".vtt");
    reveal_strlit(".ass");
    let a = stem + ".m4s"@;
    assert(a.subrange(a.len() - 4, a.len() as int) =~= ".m4s"@);
    let b = stem + ".mp4"@;
    assert(b.subrange(b.len() - 4, b.len() as int) =~= ".mp4"@);
    let c = stem + ".m3u8"@;
    assert(c.subrange(c.len() - 5, c.len() as int) =~= ".m3u8"@);
    lemma_other_artifact(stem, ".log"@);
    lemma_other_artifact(stem, ".vtt"@);
    lemma_other_artifact(stem, ".ass"@);
}

/// A name that ends in another letter or digit is none of a segment, an init segment or a playlist.
proof fn lemma_other_artifact(stem: Seq<char>, ext: Seq<char>)
    requires
        ext.len() == 4,
        ext[3] != '4' && ext[3] != '8',
        ext[3] == 's' ==> ext[2] == 's',
    ensures
        !is_media_artifact(stem + ext),
{
    reveal_strlit(".m4s");
    reveal_strlit(".mp4");
    reveal_strlit(".m3u8");
    let d = stem + ext;
    let n = d.len() as int;
    assert(d[n - 1] == ext[3] && d[n - 2] == ext[2]);
    if ".m4s"@.is_suffix_of(d) {
        assert(d.subrange(n - 4, n)[3] == 's' && d.subrange(n - 4, n)[2] == '4');
    }
    if ".mp4"@.is_suffix_of(d) {
        assert(d.subrange(n - 4, n)[3] == '4');
    }
    if ".m3u8"@.is_suffix_of(d) {
        assert(d.subrange(n - 5, n)[4] == '8');
    }
}

/// A progress line is split at its first `=`.
pub proof fn law_progress_lines_are_split(key: Seq<char>, value: Seq<char>)
    requires
        !key.contains('='),
    ensures
        progress_of(key + seq!['='] + value) == Some((trimmed(key), trimmed(value))),
        progress_of(key) is None,
{
    let f = |c: char| c == '=';
    let line = key + seq!['='] + value;
    let n = key.len() as int;
    assert forall|i: int| 0 <= i < n implies !f(#[trigger] line[i]) by {
        assert(key[i] == line[i]);
        assert(key.contains(key[i]));
    }
    assert(f(line[n]));
    lemma_first_char(line, f, 0, n);
    assert(line.subrange(0, n) =~= key);
    assert(line.subrange(n + 1, line.len() as int) =~= value);
    assert forall|i: int| 0 <= i < n implies !f(#[trigger] key[i]) by {
        assert(key.contains(key[i]));
    }
    lemma_no_char(key, f, 0);
}

/// A search stops at the first character that is looked for.
proof fn lemma_first_char(s: Seq<char>, f: spec_fn(char) -> bool, from: int, n: int)
    requires
        0 <= from <= n < s.len(),
        f(s[n]),
        forall|i: int| from <= i < n ==> !f(#[trigger] s[i]),
    ensures
        find_char(s, f, from) == Some(n),
    decreases n - from,
{
    if from < n {
        lemma_first_char(s, f, from + 1, n);
    }
}

/// A search for what is not there finds nothing.
proof fn lemma_no_char(s: Seq<char>, f: spec_fn(char) -> bool, from: int)
    requires
        0 <= from <= s.len(),
        forall|i: int| from <= i < s.len() ==> !f(#[trigger] s[i]),
    ensures
        find_char(s, f, from) is None,
    decreases s.len() - from,
{
    if from < s.len() {
        lemma_no_char(s, f, from + 1);
    }
}

/// A process that is more than fifteen chunks ahead of the last one requested is too far ahead, and no other.
pub proof fn law_fifteen_chunks_are_encoded_ahead(
    s: Session,
    stream_type: StreamType,
    out_time_us: Option<Seq<char>>,
)
    ensures
        is_too_far_ahead(s, stream_type, out_time_us) <==> chunk_at(s, stream_type, out_time_us) - s.last_chunk
            > 15,
{
}

}
