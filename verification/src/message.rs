//! The notification request: what one queue message asks the worker to do.

use vstd::prelude::*;

verus! {

/// What a request is for. It decides where the content to send comes from.
#[derive(Clone, Copy, Debug, PartialEq, Eq, Structural)]
pub enum NotificationKind {
    /// A one-time code is generated and sent; a message in the request is
    /// ignored.
    Otp,
    /// The message of the request is sent as it is.
    Alert,
    /// The message of the request is sent as it is.
    Marketing,
}

/// One decoded request.
#[derive(Clone, Debug, PartialEq, Eq)]
pub struct NotificationRequest {
    /// The user the notification is for.
    pub user_id: i32,
    /// Where to reach the user by email, if the request says so.
    pub email: Option<String>,
    /// Where to reach the user by phone, if the request says so.
    pub phone_number: Option<String>,
    /// The channel names to send on, in the order in which to send. A name
    /// listed twice is sent on twice.
    pub destinations: Vec<String>,
    /// What the request is for.
    pub kind: NotificationKind,
    /// The text to send. Needed for every kind but `Otp`.
    pub message: Option<String>,
}

/// The mathematical content of a `NotificationRequest`.
pub struct NotificationRequestView {
    pub user_id: i32,
    pub email: Option<Seq<char>>,
    pub phone_number: Option<Seq<char>>,
    pub destinations: Seq<Seq<char>>,
    pub kind: NotificationKind,
    pub message: Option<Seq<char>>,
}

impl View for NotificationRequest {
    type V = NotificationRequestView;

    open spec fn view(&self) -> NotificationRequestView {
        NotificationRequestView {
            user_id: self.user_id,
            email: self.email.deep_view(),
            phone_number: self.phone_number.deep_view(),
            destinations: self.destinations.deep_view(),
            kind: self.kind,
            message: self.message.deep_view(),
        }
    }
}

impl DeepView for NotificationRequest {
    type V = NotificationRequestView;

    open spec fn deep_view(&self) -> NotificationRequestView {
        self@
    }
}

} // verus!
