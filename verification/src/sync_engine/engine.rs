//! The engine's state, and who is in which room.

use vstd::prelude::*;

use crate::sync_engine::notices::UserAddr;
use crate::sync_engine::room::{room_wf, SyncParticipant, SyncRoom};
use crate::text::{ascii_lowered, cat, dec, dec_u128, lemma_dec, lower_hex, same, to_ascii_lower};

verus! {

/// A name under which a room can be joined, besides its code.
#[derive(Debug)]
pub struct RoomAlias {
    pub name: String,
    pub code: String,
}

/// The state of all rooms.
#[derive(Debug)]
pub struct SyncEngine {
    pub rooms: Vec<SyncRoom>,
    /// The web sockets of the users; a user may have several.
    pub user_addrs: Vec<UserAddr>,
    pub room_name_aliases: Vec<RoomAlias>,
    /// The next connection id to hand out.
    pub next_conn_id: u64,
    /// The Syncplay connections that messages can be sent to.
    pub syncplay_conns: Vec<u64>,
}

/// Where the room with this code stands in the list.
pub open spec fn room_at(rooms: Seq<SyncRoom>, code: Seq<char>) -> Option<int>
    decreases rooms.len(),
{
    if rooms.len() == 0 {
        None
    } else {
        match room_at(rooms.drop_last(), code) {
            Some(i) => Some(i),
            None => if rooms.last().code@ == code {
                Some(rooms.len() - 1)
            } else {
                None
            },
        }
    }
}

/// The code that a name stands for.
pub open spec fn alias_at(aliases: Seq<RoomAlias>, name: Seq<char>) -> Option<Seq<char>>
    decreases aliases.len(),
{
    if aliases.len() == 0 {
        None
    } else {
        match alias_at(aliases.drop_last(), name) {
            Some(c) => Some(c),
            None => if aliases.last().name@ == name {
                Some(aliases.last().code@)
            } else {
                None
            },
        }
    }
}

/// The aliases for which `keep` holds, in their order.
pub open spec fn aliases_kept(aliases: Seq<RoomAlias>, keep: spec_fn(RoomAlias) -> bool) -> Seq<
    RoomAlias,
>
    decreases aliases.len(),
{
    if aliases.len() == 0 {
        Seq::empty()
    } else {
        let before = aliases_kept(aliases.drop_last(), keep);
        if keep(aliases.last()) {
            before.push(aliases.last())
        } else {
            before
        }
    }
}

/// What holds of every state: each room is well formed, no code is used twice, and every alias
/// leads to a room.
pub open spec fn engine_wf(e: SyncEngine) -> bool {
    &&& forall|i: int| 0 <= i < e.rooms@.len() ==> room_wf(#[trigger] e.rooms@[i])
    &&& forall|i: int, j: int|
        0 <= i < j < e.rooms@.len() ==> (#[trigger] e.rooms@[i]).code@ != (
        #[trigger] e.rooms@[j]).code@
    &&& forall|i: int|
        0 <= i < e.room_name_aliases@.len() ==> room_at(
            e.rooms@,
            (#[trigger] e.room_name_aliases@[i]).code@,
        ) is Some
}

/// Only the room at `i` differs, and it keeps its code.
pub open spec fn only_room_changed(a: SyncEngine, b: SyncEngine, i: int) -> bool {
    &&& b.rooms@.len() == a.rooms@.len()
    &&& forall|j: int| 0 <= j < a.rooms@.len() && j != i ==> #[trigger] b.rooms@[j] == a.rooms@[j]
    &&& b.rooms@[i].code == a.rooms@[i].code
    &&& b.user_addrs == a.user_addrs
    &&& b.room_name_aliases == a.room_name_aliases
    &&& b.next_conn_id == a.next_conn_id
    &&& b.syncplay_conns == a.syncplay_conns
}

/// The rooms differ at most in their participants.
pub open spec fn same_but_participants(a: SyncRoom, b: SyncRoom) -> bool {
    &&& b.code == a.code
    &&& b.name == a.name
    &&& b.password == a.password
    &&& b.control_mode == a.control_mode
    &&& b.media_file_id == a.media_file_id
    &&& b.media_id == a.media_id
    &&& b.media_name == a.media_name
    &&& b.playback_state == a.playback_state
    &&& b.playback_position == a.playback_position
    &&& b.last_position_update == a.last_position_update
    &&& b.host_report_holdoff_until == a.host_report_holdoff_until
    &&& b.chat_messages == a.chat_messages
}

/// What `room_at` finds is a room with that code.
pub proof fn lemma_room_at(rooms: Seq<SyncRoom>, code: Seq<char>)
    ensures
        room_at(rooms, code) matches Some(i) ==> 0 <= i < rooms.len() && rooms[i].code@ == code
            && forall|j: int| 0 <= j < i ==> (#[trigger] rooms[j]).code@ != code,
        room_at(rooms, code) is None ==> forall|j: int|
            0 <= j < rooms.len() ==> (#[trigger] rooms[j]).code@ != code,
    decreases rooms.len(),
{
    if rooms.len() > 0 {
        lemma_room_at(rooms.drop_last(), code);
        assert forall|j: int| 0 <= j < rooms.len() - 1 implies #[trigger] rooms[j]
            == rooms.drop_last()[j] by {}
    }
}

/// Lists with the same codes at the same places find the same rooms.
pub proof fn lemma_room_at_same_codes(a: Seq<SyncRoom>, b: Seq<SyncRoom>, code: Seq<char>)
    requires
        a.len() == b.len(),
        forall|j: int| 0 <= j < a.len() ==> (#[trigger] a[j]).code@ == b[j].code@,
    ensures
        room_at(a, code) == room_at(b, code),
{
    lemma_room_at(a, code);
    lemma_room_at(b, code);
    if let Some(i) = room_at(a, code) {
        assert(a[i].code@ == b[i].code@);
    }
    if let Some(i) = room_at(b, code) {
        assert(a[i].code@ == b[i].code@);
    }
}

/// Changing one room to another well-formed one keeps the state well formed.
pub proof fn lemma_change_keeps_wf(a: SyncEngine, b: SyncEngine, i: int)
    requires
        engine_wf(a),
        0 <= i < a.rooms@.len(),
        only_room_changed(a, b, i),
        room_wf(b.rooms@[i]),
    ensures
        engine_wf(b),
{
    assert forall|j: int| 0 <= j < a.rooms@.len() implies (#[trigger] a.rooms@[j]).code@
        == b.rooms@[j].code@ by {}
    assert forall|j: int| 0 <= j < b.room_name_aliases@.len() implies room_at(
        b.rooms@,
        (#[trigger] b.room_name_aliases@[j]).code@,
    ) is Some by {
        lemma_room_at_same_codes(a.rooms@, b.rooms@, b.room_name_aliases@[j].code@);
        assert(a.room_name_aliases@[j] == b.room_name_aliases@[j]);
    }
    assert forall|j: int| 0 <= j < b.rooms@.len() implies room_wf(#[trigger] b.rooms@[j]) by {
        assert(j != i ==> b.rooms@[j] == a.rooms@[j]);
    }
    assert forall|j: int, k: int| 0 <= j < k < b.rooms@.len() implies (#[trigger] b.rooms@[j]).code@
        != (#[trigger] b.rooms@[k]).code@ by {
        assert(a.rooms@[j].code@ == b.rooms@[j].code@);
        assert(a.rooms@[k].code@ == b.rooms@[k].code@);
    }
}

/// Finds the room with this code.
pub fn find_room(rooms: &Vec<SyncRoom>, code: &str) -> (r: Option<usize>)
    ensures
        r is Some <==> room_at(rooms@, code@) is Some,
        r matches Some(i) ==> Some(i as int) == room_at(rooms@, code@) && i < rooms@.len()
            && rooms@[i as int].code@ == code@,
{
    proof {
        lemma_room_at(rooms@, code@);
    }
    let mut i: usize = 0;
    while i < rooms.len()
        invariant
            0 <= i <= rooms@.len(),
            forall|j: int| 0 <= j < i ==> (#[trigger] rooms@[j]).code@ != code@,
            room_at(rooms@, code@) matches Some(k) ==> 0 <= k < rooms@.len() && rooms@[k].code@
                == code@ && forall|j: int| 0 <= j < k ==> (#[trigger] rooms@[j]).code@ != code@,
            room_at(rooms@, code@) is None ==> forall|j: int|
                0 <= j < rooms@.len() ==> (#[trigger] rooms@[j]).code@ != code@,
        decreases rooms@.len() - i,
    {
        if same(rooms[i].code.as_str(), code) {
            return Some(i);
        }
        i = i + 1;
    }
    None
}

/// Finds the code that a name stands for.
pub fn find_alias(aliases: &Vec<RoomAlias>, name: &str) -> (r: Option<String>)
    ensures
        r is Some <==> alias_at(aliases@, name@) is Some,
        r matches Some(c) ==> Some(c@) == alias_at(aliases@, name@),
{
    let mut i: usize = 0;
    let mut found: Option<String> = None;
    assert(aliases@.subrange(0, 0) =~= Seq::empty());
    while i < aliases.len()
        invariant
            0 <= i <= aliases@.len(),
            found is Some <==> alias_at(aliases@.subrange(0, i as int), name@) is Some,
            found matches Some(c) ==> Some(c@) == alias_at(aliases@.subrange(0, i as int), name@),
        decreases aliases@.len() - i,
    {
        assert(aliases@.subrange(0, i + 1).drop_last() =~= aliases@.subrange(0, i as int));
        if found.is_none() && same(aliases[i].name.as_str(), name) {
            found = Some(aliases[i].code.clone());
        }
        i = i + 1;
    }
    assert(aliases@.subrange(0, i as int) =~= aliases@);
    found
}

/// What `format!("{:x}", md5::compute(..))` prints for a text.
pub uninterp spec fn md5_hex(text: Seq<char>) -> Seq<char>;

/// `md5::compute` on the UTF-8 bytes of a text, its digest printed in hexadecimal: 32 digits, the letters
/// among them in lowercase. It depends on the text alone.
#[verifier::external_body]
pub(crate) fn md5_digest(text: &str) -> (r: String)
    ensures
        r@ == md5_hex(text@),
        r@.len() == 32,
        forall|i: int| 0 <= i < 32 ==> lower_hex(#[trigger] r@[i]),
{
    format!("{:x}", md5::compute(text.as_bytes()))
}

/// A password is accepted as it is, or as a digest of it in hexadecimal of either case.
pub open spec fn accepts(supplied: Seq<char>, expected: Seq<char>, digest: Seq<char>) -> bool {
    supplied == expected || ascii_lowered(supplied) == ascii_lowered(digest)
}

/// Whether a supplied password is the expected one or has the expected one's digest.
pub fn password_matches_digest(supplied: &str, expected: &str, digest: &str) -> (r: bool)
    ensures
        r == accepts(supplied@, expected@, digest@),
{
    same(supplied, expected) || same(
        to_ascii_lower(supplied).as_str(),
        to_ascii_lower(digest).as_str(),
    )
}

/// Checks a supplied password. Web clients send it as it is, Syncplay clients send its MD5 digest.
pub fn password_matches(supplied: &str, expected: &str) -> (r: bool)
    ensures
        r == accepts(supplied@, expected@, md5_hex(expected@)),
{
    let digest = md5_digest(expected);
    password_matches_digest(supplied, expected, digest.as_str())
}

/// The room lets somebody in who supplies this password.
pub open spec fn lets_in(room: SyncRoom, password: Option<Seq<char>>) -> bool {
    match room.password {
        None => true,
        Some(expected) => expected@.len() == 0 || match password {
            Some(supplied) => accepts(supplied, expected@, md5_hex(expected@)),
            None => false,
        },
    }
}

/// The contents of an optional string.
pub open spec fn opt_view(s: Option<&str>) -> Option<Seq<char>> {
    match s {
        Some(t) => Some(t@),
        None => None,
    }
}

/// The display name is taken.
pub open spec fn name_taken(ps: Seq<SyncParticipant>, name: Seq<char>) -> bool {
    exists|i: int| 0 <= i < ps.len() && (#[trigger] ps[i]).display_name@ == name
}

/// `base` with a number in brackets after it.
pub open spec fn numbered(base: Seq<char>, n: nat) -> Seq<char> {
    base + " ("@ + dec(n) + ")"@
}

/// `name` is the one under which `base` joins: itself where it is free, else with the least number
/// from 2 on that is free.
pub open spec fn is_unique_name(ps: Seq<SyncParticipant>, base: Seq<char>, name: Seq<char>) -> bool {
    if !name_taken(ps, base) {
        name == base
    } else {
        exists|n: nat|
            2 <= n && name == #[trigger] numbered(base, n) && !name_taken(ps, numbered(base, n))
                && forall|m: nat| 2 <= m < n ==> name_taken(ps, #[trigger] numbered(base, m))
    }
}

/// Different numbers give different names.
proof fn lemma_numbered_injective(base: Seq<char>, n: nat, m: nat)
    requires
        numbered(base, n) == numbered(base, m),
    ensures
        n == m,
{
    lemma_dec(n);
    lemma_dec(m);
    let a = numbered(base, n);
    let b = numbered(base, m);
    let k = base.len() + " ("@.len();
    assert(dec(n) =~= a.subrange(k as int, a.len() - ")"@.len()));
    assert(dec(m) =~= b.subrange(k as int, b.len() - ")"@.len()));
}

/// Whether a display name is taken.
fn is_name_taken(ps: &Vec<SyncParticipant>, name: &str) -> (r: Option<usize>)
    ensures
        r is Some <==> name_taken(ps@, name@),
        r matches Some(i) ==> i < ps@.len() && ps@[i as int].display_name@ == name@,
{
    let mut i: usize = 0;
    while i < ps.len()
        invariant
            0 <= i <= ps@.len(),
            forall|j: int| 0 <= j < i ==> (#[trigger] ps@[j]).display_name@ != name@,
        decreases ps@.len() - i,
    {
        if same(ps[i].display_name.as_str(), name) {
            return Some(i);
        }
        i = i + 1;
    }
    None
}

/// Picks the name under which `base` joins.
pub fn unique_name(ps: &Vec<SyncParticipant>, base: &String) -> (r: String)
    ensures
        is_unique_name(ps@, base@, r@),
        !name_taken(ps@, r@),
        !name_taken(ps@, base@) ==> r == *base,
{
    if is_name_taken(ps, base.as_str()).is_none() {
        return base.clone();
    }
    let len: usize = ps.len();
    let mut n: u128 = 2;
    let ghost mut taken_by = Seq::<int>::empty();
    loop
        invariant
            len == ps@.len(),
            name_taken(ps@, base@),
            2 <= n,
            taken_by.len() == n - 2,
            taken_by.len() <= ps@.len(),
            taken_by.no_duplicates(),
            forall|i: int|
                0 <= i < taken_by.len() ==> 0 <= #[trigger] taken_by[i] < ps@.len()
                    && ps@[taken_by[i]].display_name@ == numbered(base@, (i + 2) as nat),
        decreases ps@.len() + 2 - n,
    {
        let name = cat(
            cat(base.as_str(), " (").as_str(),
            cat(dec_u128(n).as_str(), ")").as_str(),
        );
        assert(name@ =~= numbered(base@, n as nat));
        match is_name_taken(ps, name.as_str()) {
            None => {
                proof {
                    assert forall|m: nat| 2 <= m < n implies name_taken(
                        ps@,
                        #[trigger] numbered(base@, m),
                    ) by {
                        assert(ps@[taken_by[m - 2]].display_name@ == numbered(base@, m));
                    }
                }
                return name;
            },
            Some(i) => {
                proof {
                    if taken_by.contains(i as int) {
                        let k = choose|k: int| 0 <= k < taken_by.len() && taken_by[k] == i;
                        lemma_numbered_injective(base@, n as nat, (k + 2) as nat);
                    }
                    let more = taken_by.push(i as int);
                    assert forall|k: int| 0 <= k < more.len() implies 0 <= #[trigger] more[k]
                        < ps@.len() && ps@[more[k]].display_name@ == numbered(
                        base@,
                        (k + 2) as nat,
                    ) by {
                        if k < taken_by.len() {
                            assert(more[k] == taken_by[k]);
                        }
                    }
                    assert(more.no_duplicates());
                    lemma_distinct_below(more, ps@.len() as int);
                    taken_by = more;
                }
                n = n + 1;
            },
        }
    }
}

/// There are at most `bound` distinct numbers from 0 up to `bound`.
proof fn lemma_distinct_below(s: Seq<int>, bound: int)
    requires
        0 <= bound,
        s.no_duplicates(),
        forall|i: int| 0 <= i < s.len() ==> 0 <= #[trigger] s[i] < bound,
    ensures
        s.len() <= bound,
{
    s.unique_seq_to_set();
    let all = vstd::set_lib::set_int_range(0, bound);
    vstd::set_lib::lemma_int_range(0, bound);
    assert(s.to_set().subset_of(all)) by {
        assert forall|x: int| s.to_set().contains(x) implies all.contains(x) by {
            let i = choose|i: int| 0 <= i < s.len() && s[i] == x;
            assert(0 <= s[i] < bound);
        }
    }
    vstd::set_lib::lemma_len_subset(s.to_set(), all);
}

}
