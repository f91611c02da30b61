//! Messages of the Syncplay protocol.
//!
//! Syncplay speaks newline-delimited JSON over a TCP connection; each message is a single JSON object
//! with one key that names it.

use vstd::prelude::*;

use crate::events::Seconds;
use crate::sync_engine::room::ParticipantFile;
use crate::text::same;

verus! {

/// The room that a client asks for.
#[derive(Debug)]
pub enum RoomSpec {
    Named { name: String },
    Simple(String),
}

impl RoomSpec {
    pub open spec fn spec_name(self) -> Seq<char> {
        match self {
            RoomSpec::Named { name } => name@,
            RoomSpec::Simple(s) => s@,
        }
    }

    pub fn name(&self) -> (r: &str)
        ensures
            r@ == self.spec_name(),
    {
        match self {
            RoomSpec::Named { name } => name.as_str(),
            RoomSpec::Simple(s) => s.as_str(),
        }
    }
}

/// How a client introduces itself.
#[derive(Debug)]
pub struct ClientHello {
    pub username: Option<String>,
    pub room: Option<RoomSpec>,
    pub version: Option<String>,
    pub password: Option<String>,
}

/// Where a client's playback stands.
#[derive(Clone, Copy, Debug, PartialEq, Eq, Structural)]
pub struct ClientPlaystate {
    pub position: Option<Seconds>,
    pub paused: Option<bool>,
    pub do_seek: Option<bool>,
    /// Whether the position is less than four seconds away from the room's.
    pub near: bool,
}

/// Latency bookkeeping.
#[derive(Clone, Copy, Debug, PartialEq, Eq, Structural)]
pub struct ClientPing {
    /// The client's own round trip time in milliseconds, where it gave one.
    pub latency_ms: Option<u32>,
    /// A timestamp of the client's, to be echoed.
    pub client_latency_calculation: Option<Seconds>,
    /// The server's round trip time, where the client echoed a timestamp from which it follows.
    pub server_rtt: Option<Seconds>,
}

/// The counters by which both sides ignore reports that are out of date.
#[derive(Clone, Copy, Debug, PartialEq, Eq, Structural)]
pub struct IgnoringOnTheFly {
    pub server: Option<u64>,
    pub client: Option<u64>,
}

/// A client's state report.
#[derive(Clone, Copy, Debug, PartialEq, Eq, Structural)]
pub struct ClientState {
    pub playstate: Option<ClientPlaystate>,
    pub ping: Option<ClientPing>,
    pub ignoring_on_the_fly: Option<IgnoringOnTheFly>,
}

/// The fields of a file that a client has opened.
#[derive(Debug)]
pub struct FileFields {
    pub name: Option<String>,
    pub duration: Option<Seconds>,
    pub size: Option<u64>,
    pub dim_file_id: Option<i64>,
}

/// A truth value under a key.
#[derive(Debug)]
pub struct Flag {
    pub key: String,
    pub value: bool,
}

/// A client's change of its settings.
#[derive(Debug)]
pub struct ClientSet {
    pub file: Option<FileFields>,
    /// The truth values of the `ready` object.
    pub ready: Option<Vec<Flag>>,
}

#[derive(Debug)]
pub struct ClientChat {
    pub message: Option<String>,
}

/// What stands under the key `Chat`.
#[derive(Debug)]
pub enum ChatValue {
    /// A string.
    Text(String),
    /// An object, with its `message` where that is a string.
    Object(Option<String>),
    /// Anything else.
    Other,
}

/// A message from a client.
#[derive(Debug)]
pub enum ClientMessage {
    Hello(ClientHello),
    State(ClientState),
    Settings(ClientSet),
    List,
    Chat(ClientChat),
}

/// The value under a key of a message: absent, not of the expected shape, or as expected.
#[derive(Debug)]
pub enum Part<T> {
    Absent,
    Malformed,
    Value(T),
}

/// A JSON object with what stands under the keys of client messages.
#[derive(Debug)]
pub struct ClientObject {
    pub hello: Part<ClientHello>,
    pub state: Part<ClientState>,
    pub chat: Option<ChatValue>,
    pub set: Option<ClientSet>,
    pub list: bool,
}

/// The text of a chat value.
pub open spec fn chat_text(chat: ChatValue) -> Option<String> {
    match chat {
        ChatValue::Text(s) => Some(s),
        ChatValue::Object(message) => message,
        ChatValue::Other => None,
    }
}

/// The message that an object is: the first of `Hello`, `State`, `Chat`, `Set` and `List` that it
/// has. An ill-formed `Hello` or `State` makes it no message.
pub open spec fn message_of(o: ClientObject) -> Option<ClientMessage> {
    match (o.hello, o.state, o.chat, o.set, o.list) {
        (Part::Malformed, _, _, _, _) => None,
        (Part::Value(h), _, _, _, _) => Some(ClientMessage::Hello(h)),
        (Part::Absent, Part::Malformed, _, _, _) => None,
        (Part::Absent, Part::Value(s), _, _, _) => Some(ClientMessage::State(s)),
        (Part::Absent, Part::Absent, Some(chat), _, _) => Some(
            ClientMessage::Chat(ClientChat { message: chat_text(chat) }),
        ),
        (Part::Absent, Part::Absent, None, Some(set), _) => Some(ClientMessage::Settings(set)),
        (Part::Absent, Part::Absent, None, None, true) => Some(ClientMessage::List),
        _ => None,
    }
}

impl ClientMessage {
    /// Reads a message off the object of a line.
    pub fn parse(object: ClientObject) -> (r: Option<Self>)
        ensures
            r == message_of(object),
    {
        match object.hello {
            Part::Malformed => {
                return None;
            },
            Part::Value(h) => {
                return Some(ClientMessage::Hello(h));
            },
            Part::Absent => {},
        }
        match object.state {
            Part::Malformed => {
                return None;
            },
            Part::Value(s) => {
                return Some(ClientMessage::State(s));
            },
            Part::Absent => {},
        }
        if let Some(chat) = object.chat {
            let message = match chat {
                ChatValue::Text(s) => Some(s),
                ChatValue::Object(message) => message,
                ChatValue::Other => None,
            };
            return Some(ClientMessage::Chat(ClientChat { message }));
        }
        if let Some(set) = object.set {
            return Some(ClientMessage::Settings(set));
        }
        if object.list {
            Some(ClientMessage::List)
        } else {
            None
        }
    }
}

/// `file` has these fields; a missing one is empty or zero.
pub open spec fn is_file(file: ParticipantFile, fields: FileFields) -> bool {
    &&& file.name@ == (match fields.name {
        Some(name) => name@,
        None => Seq::empty(),
    })
    &&& file.duration == (match fields.duration {
        Some(duration) => duration,
        None => Seconds { bits: 0 },
    })
    &&& file.size == (match fields.size {
        Some(size) => size,
        None => 0,
    })
    &&& file.dim_file_id == (match fields.dim_file_id {
        Some(id) => id,
        None => 0,
    })
}

/// The file with these fields.
pub fn participant_file(fields: FileFields) -> (r: ParticipantFile)
    ensures
        is_file(r, fields),
{
    let name = match fields.name {
        Some(name) => name,
        None => String::new(),
    };
    let duration = match fields.duration {
        Some(duration) => duration,
        None => Seconds { bits: 0 },
    };
    let size: u64 = match fields.size {
        Some(size) => size,
        None => 0,
    };
    let dim_file_id: i64 = match fields.dim_file_id {
        Some(id) => id,
        None => 0,
    };
    ParticipantFile { name, duration, size, dim_file_id }
}

/// The value under a key, the last where the key is repeated.
pub open spec fn flag_at(flags: Seq<Flag>, key: Seq<char>) -> Option<bool>
    decreases flags.len(),
{
    if flags.len() == 0 {
        None
    } else if flags.last().key@ == key {
        Some(flags.last().value)
    } else {
        flag_at(flags.drop_last(), key)
    }
}

/// What a `ready` object says: the value of `isReady`, or else, in an older shape, that under the
/// user's own name.
pub open spec fn ready_of(flags: Seq<Flag>, username: Seq<char>) -> Option<bool> {
    match flag_at(flags, "isReady"@) {
        Some(b) => Some(b),
        None => flag_at(flags, username),
    }
}

/// Looks a key up.
fn find_flag(flags: &Vec<Flag>, key: &str) -> (r: Option<bool>)
    ensures
        r == flag_at(flags@, key@),
{
    let mut i: usize = flags.len();
    assert(flags@.subrange(0, i as int) =~= flags@);
    while i > 0
        invariant
            0 <= i <= flags@.len(),
            flag_at(flags@, key@) == flag_at(flags@.subrange(0, i as int), key@),
        decreases i,
    {
        let ghost so_far = flags@.subrange(0, i as int);
        assert(so_far.last() == flags@[i - 1]);
        assert(so_far.drop_last() =~= flags@.subrange(0, i - 1));
        if same(flags[i - 1].key.as_str(), key) {
            return Some(flags[i - 1].value);
        }
        i = i - 1;
    }
    None
}

/// Reads a `ready` object.
pub fn ready_value(flags: &Vec<Flag>, username: &str) -> (r: Option<bool>)
    ensures
        r == ready_of(flags@, username@),
{
    match find_flag(flags, "isReady") {
        Some(b) => Some(b),
        None => find_flag(flags, username),
    }
}

/// The server's introduction.
#[derive(Debug)]
pub struct ServerHello {
    pub username: String,
    pub room_name: String,
    pub version: String,
    pub motd: Option<String>,
}

/// Makes the server's introduction; an empty message of the day is left out.
pub fn server_hello(username: &str, room_name: &str, version: &str, motd: &str) -> (r: ServerHello)
    ensures
        r.username@ == username@,
        r.room_name@ == room_name@,
        r.version@ == version@,
        r.motd is Some <==> motd@.len() > 0,
        r.motd matches Some(m) ==> m@ == motd@,
{
    ServerHello {
        username: username.to_owned(),
        room_name: room_name.to_owned(),
        version: version.to_owned(),
        motd: if motd.is_empty() {
            None
        } else {
            Some(motd.to_owned())
        },
    }
}

/// An object is the first kind of message that it has a key for.
pub proof fn law_objects_are_messages(o: ClientObject)
    ensures
        o.hello matches Part::Value(h) ==> message_of(o) == Some(ClientMessage::Hello(h)),
        o.hello is Malformed ==> message_of(o) is None,
        o.hello is Absent ==> {
            &&& o.state matches Part::Value(s) ==> message_of(o) == Some(ClientMessage::State(s))
            &&& o.state is Malformed ==> message_of(o) is None
            &&& o.state is Absent ==> {
                &&& o.chat is Some ==> message_of(o) == Some(
                    ClientMessage::Chat((ClientChat { message: chat_text(o.chat->0) })),
                )
                &&& o.chat is None && o.set is Some ==> message_of(o) == Some(
                    ClientMessage::Settings(o.set->0),
                )
                &&& o.chat is None && o.set is None ==> message_of(o) == (if o.list {
                    Some(ClientMessage::List)
                } else {
                    None
                })
            }
        },
{
}

/// A chat message is a string, or the `message` of an object.
pub proof fn law_chat_texts(s: String)
    ensures
        chat_text(ChatValue::Text(s)) == Some(s),
        chat_text(ChatValue::Object(Some(s))) == Some(s),
        chat_text(ChatValue::Object(None)) is None,
        chat_text(ChatValue::Other) is None,
{
}

/// Readiness is what `isReady` says, and else what stands under the user's own name; the last value under a key
/// counts.
pub proof fn law_readiness_is_read(flags: Seq<Flag>, name: Seq<char>, f: Flag)
    ensures
        f.key@ == "isReady"@ ==> ready_of(flags.push(f), name) == Some(f.value),
        (forall|i: int| 0 <= i < flags.len() ==> (#[trigger] flags[i]).key@ != "isReady"@) ==> ready_of(
            flags,
            name,
        ) == flag_at(flags, name),
        f.key@ == name ==> flag_at(flags.push(f), name) == Some(f.value),
        f.key@ != name ==> flag_at(flags.push(f), name) == flag_at(flags, name),
        flag_at(Seq::empty(), name) is None,
{
    assert(flags.push(f).drop_last() =~= flags);
    if forall|i: int| 0 <= i < flags.len() ==> (#[trigger] flags[i]).key@ != "isReady"@ {
        lemma_no_flag(flags, "isReady"@);
    }
}

/// A key that is not there has no value.
proof fn lemma_no_flag(flags: Seq<Flag>, key: Seq<char>)
    requires
        forall|i: int| 0 <= i < flags.len() ==> (#[trigger] flags[i]).key@ != key,
    ensures
        flag_at(flags, key) is None,
    decreases flags.len(),
{
    if flags.len() > 0 {
        assert(flags.last().key@ != key);
        assert forall|i: int| 0 <= i < flags.drop_last().len() implies (#[trigger] flags.drop_last()[i]).key@
            != key by {
            assert(flags.drop_last()[i] == flags[i]);
        }
        lemma_no_flag(flags.drop_last(), key);
    }
}

}
