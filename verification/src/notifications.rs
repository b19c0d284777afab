//! The `org.freedesktop.Notifications` server's own rules: which id a
//! notification gets, how long it stays, and what the server says it can do.

use vstd::prelude::*;

use crate::events::NotificationEvent;

verus! {

/// How long a notification that names no timeout stays, in milliseconds.
pub const DEFAULT_TIMEOUT_MS: i32 = 5000;

/// Why a notification closed, as the notification protocol numbers the
/// reasons.
#[derive(Clone, Copy, Debug, PartialEq, Eq, Structural)]
pub enum CloseReason {
    Expired,
    Dismissed,
    Closed,
    Undefined,
}

impl CloseReason {
    /// The number the `NotificationClosed` signal carries for this reason.
    pub fn code(self) -> (r: u32)
        ensures
            r == match self {
                CloseReason::Expired => 1u32,
                CloseReason::Dismissed => 2u32,
                CloseReason::Closed => 3u32,
                CloseReason::Undefined => 4u32,
            },
    {
        match self {
            CloseReason::Expired => 1,
            CloseReason::Dismissed => 2,
            CloseReason::Closed => 3,
            CloseReason::Undefined => 4,
        }
    }
}

/// The id a `Notify` call gets: the one it replaces, else the next unused.
pub open spec fn notification_id(next_id: u32, replaces_id: u32) -> u32 {
    if replaces_id != 0 {
        replaces_id
    } else {
        (next_id + 1) as u32
    }
}

/// How long a notification asking for `expire_timeout` stays: that long if
/// it is positive, else the default.
pub open spec fn timeout_of(expire_timeout: i32) -> i32 {
    if expire_timeout > 0 {
        expire_timeout
    } else {
        DEFAULT_TIMEOUT_MS
    }
}

/// The server's state: the last id it handed out.
pub struct Notifications {
    pub next_id: u32,
}

impl Notifications {
    /// A server that has handed out no id.
    pub fn new() -> (r: Notifications)
        ensures
            r.next_id == 0,
    {
        Notifications { next_id: 0 }
    }

    /// Takes a `Notify` call: gives the notification its id and timeout and
    /// returns the id with the event the shell is sent. A new id is the one
    /// after the last; a replacing call keeps the id it replaces.
    pub fn notify(
        &mut self,
        app_name: String,
        replaces_id: u32,
        app_icon: String,
        summary: String,
        body: String,
        actions: Vec<String>,
        expire_timeout: i32,
    ) -> (r: (u32, NotificationEvent))
        requires
            replaces_id == 0 ==> old(self).next_id < u32::MAX,
        ensures
            r.0 == notification_id(old(self).next_id, replaces_id),
            final(self).next_id == if replaces_id != 0 {
                old(self).next_id
            } else {
                (old(self).next_id + 1) as u32
            },
            r.1 == (NotificationEvent::New {
                id: r.0,
                app_name,
                app_icon,
                summary,
                body,
                actions,
                timeout_ms: timeout_of(expire_timeout),
            }),
    {
        let id = if replaces_id != 0 {
            replaces_id
        } else {
            self.next_id = self.next_id + 1;
            self.next_id
        };
        let timeout_ms = if expire_timeout > 0 {
            expire_timeout
        } else {
            DEFAULT_TIMEOUT_MS
        };
        (id, NotificationEvent::New { id, app_name, app_icon, summary, body, actions, timeout_ms })
    }

    /// Takes a `CloseNotification` call.
    pub fn close_notification(&self, id: u32) -> (r: NotificationEvent)
        ensures
            r == NotificationEvent::Close(id),
    {
        NotificationEvent::Close(id)
    }

    /// What the server can show: bodies and actions.
    pub fn get_capabilities(&self) -> (r: Vec<String>)
        ensures
            r@.len() == 2,
            r@[0]@ == "body"@,
            r@[1]@ == "actions"@,
    {
        let mut caps: Vec<String> = Vec::new();
        caps.push(String::from_str("body"));
        caps.push(String::from_str("actions"));
        caps
    }
}

} // verus!
