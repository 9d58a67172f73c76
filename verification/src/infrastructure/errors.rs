//! Failures of the runtime-facing pieces.

use vstd::prelude::*;
use vstd::string::StringExecFns;

verus! {

/// What can go wrong around the notification center.
#[derive(Debug)]
pub enum NotificationCenterError {
    /// The daemon could not be brought up; holds the cause.
    DaemonFailedToStart(String),
    /// The daemon no longer takes commands; holds the cause.
    DaemonDead(String),
    /// A subscription was asked for before the daemon was started.
    SubscriptionFailed,
    /// A raw notification did not have the expected form.
    ParsingFailed,
}

impl NotificationCenterError {
    /// The text shown for this error.
    pub open spec fn spec_to_string(self) -> Seq<char> {
        match self {
            NotificationCenterError::DaemonFailedToStart(cause) => "The daemon failed to start: "@
                + cause@,
            NotificationCenterError::DaemonDead(cause) => "The daemon seems to be dead: "@ + cause@,
            NotificationCenterError::SubscriptionFailed => "Failed to subscribe to a topic"@,
            NotificationCenterError::ParsingFailed => "Failed to parse Notification"@,
        }
    }

    /// Renders the error for people.
    pub fn to_string(&self) -> (text: String)
        ensures
            text@ == self.spec_to_string(),
    {
        match self {
            NotificationCenterError::DaemonFailedToStart(cause) => String::from_str(
                "The daemon failed to start: ",
            ).concat(cause.as_str()),
            NotificationCenterError::DaemonDead(cause) => String::from_str(
                "The daemon seems to be dead: ",
            ).concat(cause.as_str()),
            NotificationCenterError::SubscriptionFailed => String::from_str(
                "Failed to subscribe to a topic",
            ),
            NotificationCenterError::ParsingFailed => String::from_str(
                "Failed to parse Notification",
            ),
        }
    }
}

} // verus!
