//! Requests on rooms in which media is watched together.

use vstd::prelude::*;

use crate::status::Status;
use crate::sync_engine::room::ControlMode;
use crate::text::same;

verus! {

/// A request for a new room.
#[derive(Debug)]
pub struct CreateRoomBody {
    pub media_file_id: i64,
    pub media_id: i64,
    pub media_name: String,
    pub control_mode: Option<String>,
    pub password: Option<String>,
}

/// A request to make another user the host.
#[derive(Clone, Copy, Debug, PartialEq, Eq, Structural)]
pub struct TransferHostBody {
    pub to_user_id: i64,
}

/// A request to be ready or not.
#[derive(Clone, Copy, Debug, PartialEq, Eq, Structural)]
pub struct ReadyBody {
    pub is_ready: bool,
}

/// A request to change what a room watches.
#[derive(Clone, Copy, Debug, PartialEq, Eq, Structural)]
pub struct ChangeMediaBody {
    pub expected_media_file_id: i64,
    pub media_file_id: i64,
}

/// A request to join a room.
#[derive(Debug)]
pub struct JoinRoomBody {
    pub password: Option<String>,
}

/// The control mode with a name.
pub open spec fn mode_named(name: Seq<char>) -> Option<ControlMode> {
    if name == "egalitarian"@ {
        Some(ControlMode::Egalitarian)
    } else if name == "host_only"@ {
        Some(ControlMode::HostOnly)
    } else {
        None
    }
}

impl CreateRoomBody {
    /// The control mode that is asked for; a name that is none asks for none.
    pub fn mode(&self) -> (r: Option<ControlMode>)
        ensures
            r == match self.control_mode {
                Some(name) => mode_named(name@),
                None => None,
            },
    {
        match &self.control_mode {
            Some(name) => {
                if same(name.as_str(), "egalitarian") {
                    Some(ControlMode::Egalitarian)
                } else if same(name.as_str(), "host_only") {
                    Some(ControlMode::HostOnly)
                } else {
                    None
                }
            },
            None => None,
        }
    }
}

/// The mode with the name of a mode is that mode.
pub proof fn law_mode_names_round_trip(mode: ControlMode)
    ensures
        mode_named(mode.name()) == Some(mode),
{
    reveal_strlit("egalitarian");
    reveal_strlit("host_only");
    assert("egalitarian"@.len() == 11 && "host_only"@.len() == 9);
}

/// `r` is what a room changes to, or why it does not.
pub open spec fn is_change(
    file_media: Option<Option<i64>>,
    media_name: Option<String>,
    r: Result<(i64, String), (Status, &'static str)>,
) -> bool {
    match (file_media, media_name) {
        (None, _) => r matches Err(e) && e.0 == Status::NotFound && e.1@
            == "Media file not found"@,
        (Some(None), _) => r matches Err(e) && e.0 == Status::BadRequest && e.1@
            == "Media file has no media"@,
        (Some(Some(_)), None) => r matches Err(e) && e.0 == Status::NotFound && e.1@
            == "Media not found"@,
        (Some(Some(id)), Some(name)) => r == Ok::<(i64, String), (Status, &'static str)>(
            (id, name),
        ),
    }
}

/// Picks what a room changes to: the file must be known and belong to a media item that is known.
pub fn media_for_change(
    file_media: Option<Option<i64>>,
    media_name: Option<String>,
) -> (r: Result<(i64, String), (Status, &'static str)>)
    ensures
        is_change(file_media, media_name, r),
{
    let media: Option<i64> = match file_media {
        Some(media) => media,
        None => {
            return Err((Status::NotFound, "Media file not found"));
        },
    };
    let id: i64 = match media {
        Some(id) => id,
        None => {
            return Err((Status::BadRequest, "Media file has no media"));
        },
    };
    match media_name {
        Some(name) => Ok((id, name)),
        None => Err((Status::NotFound, "Media not found")),
    }
}

/// The status that a refused change of media is answered with.
pub open spec fn change_refusal(e: Seq<char>) -> Status {
    if e == "Room not found"@ {
        Status::NotFound
    } else if e == "Room media has changed"@ {
        Status::Conflict
    } else {
        Status::Forbidden
    }
}

/// Finds the status that a refused change of media is answered with.
pub fn change_media_status(e: &str) -> (r: Status)
    ensures
        r == change_refusal(e@),
{
    if same(e, "Room not found") {
        Status::NotFound
    } else if same(e, "Room media has changed") {
        Status::Conflict
    } else {
        Status::Forbidden
    }
}

/// The status that a refused join is answered with.
pub open spec fn join_refusal(e: Seq<char>) -> Status {
    if e == "Invalid password"@ {
        Status::Forbidden
    } else {
        Status::NotFound
    }
}

/// Finds the status that a refused join is answered with.
pub fn join_room_status(e: &str) -> (r: Status)
    ensures
        r == join_refusal(e@),
{
    if same(e, "Invalid password") {
        Status::Forbidden
    } else {
        Status::NotFound
    }
}

/// A room changes to a file that is known and belongs to a media item that is known; anything else is refused.
pub proof fn law_rooms_change_to_known_files(
    file_media: Option<Option<i64>>,
    media_name: Option<String>,
    r: Result<(i64, String), (Status, &'static str)>,
)
    requires
        is_change(file_media, media_name, r),
    ensures
        file_media is None ==> (r matches Err(e) && e.0 == Status::NotFound),
        file_media == Some(None::<i64>) ==> (r matches Err(e) && e.0 == Status::BadRequest),
        file_media matches Some(Some(id)) ==> (media_name matches Some(name) ==> (r matches Ok(p) && p.0 == id
            && p.1 == name)) && (media_name is None ==> (r matches Err(e) && e.0 == Status::NotFound)),
{
}

/// What a refused request is answered: that there is no such room, that the media has changed in the meantime, or
/// that it is forbidden.
pub proof fn law_refusals_are_answered(e: Seq<char>)
    ensures
        e == "Room not found"@ ==> change_refusal(e) == Status::NotFound && join_refusal(e)
            == Status::NotFound,
        change_refusal("Room media has changed"@) == Status::Conflict,
        join_refusal("Invalid password"@) == Status::Forbidden,
        e != "Room not found"@ && e != "Room media has changed"@ ==> change_refusal(e) == Status::Forbidden,
        e != "Invalid password"@ ==> join_refusal(e) == Status::NotFound,
{
    reveal_strlit("Room not found");
    reveal_strlit("Room media has changed");
    reveal_strlit("Invalid password");
    assert("Room not found"@.len() == 14 && "Room media has changed"@.len() == 22 && "Invalid password"@.len()
        == 16);
}

}
