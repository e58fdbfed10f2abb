//! The reasons for which the proxy ends a client's session.

use vstd::prelude::*;
use vstd::string::StringExecFns;

verus! {

/// A reason for a client to get kicked.
#[derive(Clone, Debug, PartialEq, Eq)]
pub enum ClientKickReason {
    /// The client failed to answer a keep-alive in time.
    TimedOut,
    /// The client was kicked by someone, with or without a stated reason.
    Kicked(String, Option<String>),
    /// The proxy shut down.
    Shutdown,
}

/// A kick reason as a value.
pub enum KickReasonView {
    TimedOut,
    Kicked(Seq<char>, Option<Seq<char>>),
    Shutdown,
}

impl View for ClientKickReason {
    type V = KickReasonView;

    open spec fn view(&self) -> KickReasonView {
        match *self {
            ClientKickReason::TimedOut => KickReasonView::TimedOut,
            ClientKickReason::Kicked(by, reason) => KickReasonView::Kicked(
                by@,
                match reason {
                    Some(r) => Some(r@),
                    None => None,
                },
            ),
            ClientKickReason::Shutdown => KickReasonView::Shutdown,
        }
    }
}

/// The text that a kicked client is shown.
pub open spec fn kick_text(reason: KickReasonView) -> Seq<char> {
    match reason {
        KickReasonView::TimedOut => "Timed out"@,
        KickReasonView::Kicked(by, None) => "Kicked by "@ + by,
        KickReasonView::Kicked(by, Some(because)) => "Kicked by "@ + by + " because \""@ + because + "\""@,
        KickReasonView::Shutdown => "Server shut down"@,
    }
}

impl ClientKickReason {
    /// The text that a kicked client is shown.
    pub fn text(&self) -> (text: String)
        ensures
            text@ == kick_text(self@),
    {
        match self {
            ClientKickReason::TimedOut => String::from_str("Timed out"),
            ClientKickReason::Kicked(by, reason) => {
                let mut text = String::from_str("Kicked by ");
                text.append(by.as_str());
                match reason {
                    Some(because) => {
                        text.append(" because \"");
                        text.append(because.as_str());
                        text.append("\"");
                    },
                    None => {},
                }
                text
            },
            ClientKickReason::Shutdown => String::from_str("Server shut down"),
        }
    }
}

} // verus!
