//! The relay from WebSockets to Syncplay servers.

use vstd::prelude::*;

use crate::status::Status;
use crate::text::{cat, cat3, dec, dec_u64};

verus! {

/// What a request for a relay gives.
#[derive(Debug)]
pub struct ProxyParams {
    pub host: String,
    pub port: u16,
    pub token: Option<String>,
}

/// Whether a request is let in.
pub open spec fn admission(params: ProxyParams, verified_user: Option<i64>, user_exists: bool) -> Result<
    (),
    Status,
> {
    if params.token is Some && verified_user is Some && user_exists {
        Ok(())
    } else {
        Err(Status::Unauthorized)
    }
}

/// Lets a request in: only with a token that was verified to be that of a user who exists.
pub fn syncplay_proxy(params: &ProxyParams, verified_user: Option<i64>, user_exists: bool) -> (r: Result<
    (),
    Status,
>)
    ensures
        r == admission(*params, verified_user, user_exists),
{
    if params.token.is_some() && verified_user.is_some() && user_exists {
        Ok(())
    } else {
        Err(Status::Unauthorized)
    }
}

/// The address of a server.
pub open spec fn address_of(host: Seq<char>, port: u16) -> Seq<char> {
    host + ":"@ + dec(port as nat)
}

/// Writes the address of the server that is relayed to.
pub fn proxy_address(params: &ProxyParams) -> (r: String)
    ensures
        r@ == address_of(params.host@, params.port),
{
    let port = dec_u64(params.port as u64);
    cat3(params.host.as_str(), ":", port.as_str())
}

/// Writes what the client is told where the server cannot be reached.
pub fn connect_error(address: &str, reason: &str) -> (r: String)
    ensures
        r@ == "Failed to connect to "@ + address@ + ": "@ + reason@,
{
    let head = cat3("Failed to connect to ", address, ": ");
    cat(head.as_str(), reason)
}

/// A message from the client.
#[derive(Debug)]
pub enum SocketMessage {
    Text(String),
    Ping(Vec<u8>),
    Close,
    Other,
}

/// What is done about a message from the client.
#[derive(Debug)]
pub enum RelayAction {
    /// Send this to the server.
    Forward(String),
    /// Answer the client.
    Pong(Vec<u8>),
    Stop,
    Nothing,
}

/// `r` is what is done about a message from the client.
pub open spec fn is_relayed(message: SocketMessage, r: RelayAction) -> bool {
    match message {
        SocketMessage::Text(text) => r matches RelayAction::Forward(line) && line@ == text@ + "\r\n"@,
        SocketMessage::Ping(payload) => r == RelayAction::Pong(payload),
        SocketMessage::Close => r is Stop,
        SocketMessage::Other => r is Nothing,
    }
}

/// Works out what is done about a message from the client: a text is a line to the server.
pub fn relay(message: SocketMessage) -> (r: RelayAction)
    ensures
        is_relayed(message, r),
{
    match message {
        SocketMessage::Text(text) => RelayAction::Forward(cat(text.as_str(), "\r\n")),
        SocketMessage::Ping(payload) => RelayAction::Pong(payload),
        SocketMessage::Close => RelayAction::Stop,
        SocketMessage::Other => RelayAction::Nothing,
    }
}

/// A request is let in only with a token that was verified to be that of a user who exists.
pub proof fn law_relays_need_a_user(params: ProxyParams, verified_user: Option<i64>, user_exists: bool)
    ensures
        admission(params, verified_user, user_exists) is Ok <==> params.token is Some && verified_user is Some
            && user_exists,
        admission(params, verified_user, user_exists) matches Err(e) ==> e == Status::Unauthorized,
{
}

/// A text goes to the server as a line, a ping is answered with what it carries, and a close ends the relay.
pub proof fn law_messages_are_relayed(message: SocketMessage, r: RelayAction)
    requires
        is_relayed(message, r),
    ensures
        message matches SocketMessage::Text(text) ==> (r matches RelayAction::Forward(line) && line@.len()
            == text@.len() + 2 && text@.is_prefix_of(line@) && line@[text@.len() as int] == '\r'
            && line@[text@.len() as int + 1] == '\n'),
        message matches SocketMessage::Ping(payload) ==> (r matches RelayAction::Pong(p) && p == payload),
        message is Close <==> r is Stop,
        message is Other <==> r is Nothing,
{
    reveal_strlit("\r\n");
    if let SocketMessage::Text(text) = message {
        let line = r->Forward_0@;
        assert(line.subrange(0, text@.len() as int) =~= text@);
    }
}

/// The address of a server is its host and its port with a colon between them.
pub proof fn law_addresses_name_host_and_port(host: Seq<char>, port: u16)
    ensures
        host.is_prefix_of(address_of(host, port)),
        address_of(host, port)[host.len() as int] == ':',
        address_of(host, port).subrange(host.len() as int + 1, address_of(host, port).len() as int) == dec(
            port as nat,
        ),
{
    reveal_strlit(":");
    let a = address_of(host, port);
    assert(a.subrange(0, host.len() as int) =~= host);
    assert(a.subrange(host.len() as int + 1, a.len() as int) =~= dec(port as nat));
}

}
