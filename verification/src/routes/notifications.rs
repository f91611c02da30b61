//! Notifications and the requests for them.

use vstd::prelude::*;

use crate::events::{Message, PushEventType};
use crate::scanner::records::copy_text;

verus! {

/// A notification.
#[derive(Debug)]
pub struct Notification {
    pub id: i64,
    /// The user that it is for; all where there is none.
    pub user_id: Option<i64>,
    pub category: String,
    pub title: String,
    pub body: Option<String>,
    pub media_id: Option<i64>,
    pub poster_path: Option<String>,
    /// Seconds since the epoch.
    pub created_at: i64,
}

/// A notification that is to be stored.
#[derive(Debug)]
pub struct InsertableNotification {
    pub user_id: Option<i64>,
    pub category: String,
    pub title: String,
    pub body: Option<String>,
    pub media_id: Option<i64>,
    pub poster_path: Option<String>,
}

impl Notification {
    /// The notification that was stored under an id.
    pub fn inserted(id: i64, notif: InsertableNotification, now: i64) -> (r: Self)
        ensures
            r.id == id,
            r.user_id == notif.user_id,
            r.category == notif.category,
            r.title == notif.title,
            r.body == notif.body,
            r.media_id == notif.media_id,
            r.poster_path == notif.poster_path,
            r.created_at == now,
    {
        Notification {
            id,
            user_id: notif.user_id,
            category: notif.category,
            title: notif.title,
            body: notif.body,
            media_id: notif.media_id,
            poster_path: notif.poster_path,
            created_at: now,
        }
    }
}

/// Makes the notification of an import, for all users.
pub fn media_added(
    title: &String,
    body: &Option<String>,
    media_id: Option<i64>,
    poster_path: &Option<String>,
) -> (r: InsertableNotification)
    ensures
        r.user_id is None,
        r.category@ == "media_added"@,
        r.title == *title,
        r.body == *body,
        r.media_id == media_id,
        r.poster_path == *poster_path,
{
    InsertableNotification {
        user_id: None,
        category: "media_added".to_string(),
        title: title.clone(),
        body: copy_text(body),
        media_id,
        poster_path: copy_text(poster_path),
    }
}

/// Makes the event that tells of a notification.
pub fn push_event(n: &Notification) -> (r: Message)
    ensures
        r.id == n.id,
        r.event_type == (PushEventType::EventNewNotification {
            notification_id: n.id,
            title: n.title,
            body: n.body,
            media_id: n.media_id,
            poster_path: n.poster_path,
            category: n.category,
        }),
{
    Message {
        id: n.id,
        event_type: PushEventType::EventNewNotification {
            notification_id: n.id,
            title: n.title.clone(),
            body: copy_text(&n.body),
            media_id: n.media_id,
            poster_path: copy_text(&n.poster_path),
            category: n.category.clone(),
        },
    }
}

/// How many notifications are asked for.
#[derive(Clone, Copy, Debug, PartialEq, Eq, Structural)]
pub struct NotificationListParams {
    pub limit: i64,
}

/// How many notifications are listed where no number is given.
pub fn default_limit() -> (r: i64)
    ensures
        r == 50,
{
    50
}

impl NotificationListParams {
    /// The parameters of a request.
    pub fn new(limit: Option<i64>) -> (r: Self)
        ensures
            r.limit == match limit {
                Some(n) => n,
                None => 50,
            },
    {
        NotificationListParams {
            limit: match limit {
                Some(n) => n,
                None => default_limit(),
            },
        }
    }
}

}
