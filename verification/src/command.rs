//! What the worker asks its driver to do, and the delivery channels.

use vstd::prelude::*;
use vstd::string::*;
use crate::store::{StoreWrite, StoreWriteView};

verus! {

/// A medium on which content reaches a user.
#[derive(Clone, Copy, Debug, PartialEq, Eq, Structural)]
pub enum Channel {
    /// Electronic mail, to the request's `email`.
    Email,
    /// WhatsApp, to the request's `phone_number`.
    WhatsApp,
    /// A channel name that the worker does not know. Nothing is ever sent on
    /// it.
    Unknown,
}

/// The channel name `email`.
pub open spec fn email_name() -> Seq<char> {
    "email"@
}

/// The channel name `whatsapp`.
pub open spec fn whatsapp_name() -> Seq<char> {
    "whatsapp"@
}

/// The channel that a destination name stands for. Names are matched as
/// they are written: case and surrounding blanks count.
pub open spec fn channel_of(name: Seq<char>) -> Channel {
    if name == email_name() {
        Channel::Email
    } else if name == whatsapp_name() {
        Channel::WhatsApp
    } else {
        Channel::Unknown
    }
}

impl Channel {
    /// Finds the channel that a destination name stands for: `email` and
    /// `whatsapp` are known, every other name is `Unknown`.
    pub fn from_name(name: &str) -> (channel: Channel)
        ensures
            channel == channel_of(name@),
    {
        let name = String::from_str(name);
        let email = String::from_str("email");
        let whatsapp = String::from_str("whatsapp");
        if name == email {
            Channel::Email
        } else if name == whatsapp {
            Channel::WhatsApp
        } else {
            Channel::Unknown
        }
    }
}

/// One thing for the driver to do. The worker hands out one command at a time
/// and expects to hear back before it hands out the next.
#[derive(Clone, Debug, PartialEq, Eq)]
pub enum Command {
    /// Wait for the next delivery from the queue.
    AwaitDelivery,
    /// Carry out a write to the key-value store.
    Store(StoreWrite),
    /// Try to decode these bytes as a notification request.
    Decode { body: Vec<u8> },
    /// Send `content` to the address `to` on `channel`. Whether the send
    /// worked is of no concern to the worker.
    Send { channel: Channel, to: String, content: String },
    /// Record that these bytes could not be decoded.
    ReportDecodeFailure { body: Vec<u8> },
    /// Record that a request named a destination that the worker does not
    /// know.
    ReportUnknownDestination { name: String },
    /// Acknowledge the delivery to the queue.
    Acknowledge { delivery_tag: u64 },
}

/// The mathematical content of a `Command`.
pub enum CommandView {
    AwaitDelivery,
    Store(StoreWriteView),
    Decode { body: Seq<u8> },
    Send { channel: Channel, to: Seq<char>, content: Seq<char> },
    ReportDecodeFailure { body: Seq<u8> },
    ReportUnknownDestination { name: Seq<char> },
    Acknowledge { delivery_tag: u64 },
}

impl View for Command {
    type V = CommandView;

    open spec fn view(&self) -> CommandView {
        match self {
            Command::AwaitDelivery => CommandView::AwaitDelivery,
            Command::Store(write) => CommandView::Store(write@),
            Command::Decode { body } => CommandView::Decode { body: body@ },
            Command::Send { channel, to, content } => CommandView::Send {
                channel: *channel,
                to: to@,
                content: content@,
            },
            Command::ReportDecodeFailure { body } => CommandView::ReportDecodeFailure {
                body: body@,
            },
            Command::ReportUnknownDestination { name } => CommandView::ReportUnknownDestination {
                name: name@,
            },
            Command::Acknowledge { delivery_tag } => CommandView::Acknowledge {
                delivery_tag: *delivery_tag,
            },
        }
    }
}

impl DeepView for Command {
    type V = CommandView;

    open spec fn deep_view(&self) -> CommandView {
        self@
    }
}

} // verus!
