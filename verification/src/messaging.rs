//! Protocol message schema: the inbound messages a client may send and the
//! outbound messages the server delivers, together with their mathematical
//! views used in contracts.

use vstd::prelude::*;

verus! {

/// An opaque session description exchanged during negotiation. The relay
/// preserves it exactly and never interprets it; `payload` carries its
/// serialized wire form.
#[derive(Debug, PartialEq, Eq)]
pub struct SessionDescription {
    pub payload: String,
}

/// An opaque connectivity candidate exchanged during negotiation, preserved
/// exactly across relay.
#[derive(Debug, PartialEq, Eq)]
pub struct ConnectivityCandidate {
    pub payload: String,
}

impl View for SessionDescription {
    type V = Seq<char>;

    open spec fn view(&self) -> Seq<char> {
        self.payload@
    }
}

impl View for ConnectivityCandidate {
    type V = Seq<char>;

    open spec fn view(&self) -> Seq<char> {
        self.payload@
    }
}

impl Clone for SessionDescription {
    fn clone(&self) -> (res: Self)
        ensures
            res@ == self@,
    {
        SessionDescription { payload: self.payload.clone() }
    }
}

impl Clone for ConnectivityCandidate {
    fn clone(&self) -> (res: Self)
        ensures
            res@ == self@,
    {
        ConnectivityCandidate { payload: self.payload.clone() }
    }
}

/// A message sent by a client to the server.
#[derive(Debug, PartialEq, Eq)]
pub enum InMessage {
    Connect { id: String },
    Disconnect { id: String },
    Offer { to: String, sdp: SessionDescription },
    Answer { to: String, sdp: SessionDescription },
    IceCandidate { to: String, candidate: ConnectivityCandidate },
}

/// A message delivered by the server to a client.
#[derive(Debug, PartialEq, Eq)]
pub enum OutMessage {
    BroadcastUsers { users: Vec<String> },
    UserConnected { user: String },
    UserDisconnected { user: String },
    Offer { from: String, to: String, sdp: SessionDescription },
    Answer { from: String, to: String, sdp: SessionDescription },
    IceCandidate { from: String, candidate: ConnectivityCandidate },
    Error { message: String },
}

/// Mathematical view of an inbound message: every string is a `Seq<char>`.
pub enum InMessageView {
    Connect { id: Seq<char> },
    Disconnect { id: Seq<char> },
    Offer { to: Seq<char>, sdp: Seq<char> },
    Answer { to: Seq<char>, sdp: Seq<char> },
    IceCandidate { to: Seq<char>, candidate: Seq<char> },
}

/// Mathematical view of an outbound message.
pub enum OutMessageView {
    BroadcastUsers { users: Seq<Seq<char>> },
    UserConnected { user: Seq<char> },
    UserDisconnected { user: Seq<char> },
    Offer { from: Seq<char>, to: Seq<char>, sdp: Seq<char> },
    Answer { from: Seq<char>, to: Seq<char>, sdp: Seq<char> },
    IceCandidate { from: Seq<char>, candidate: Seq<char> },
    Error { message: Seq<char> },
}

impl View for InMessage {
    type V = InMessageView;

    open spec fn view(&self) -> InMessageView {
        match self {
            InMessage::Connect { id } => InMessageView::Connect { id: id@ },
            InMessage::Disconnect { id } => InMessageView::Disconnect { id: id@ },
            InMessage::Offer { to, sdp } => InMessageView::Offer { to: to@, sdp: sdp@ },
            InMessage::Answer { to, sdp } => InMessageView::Answer { to: to@, sdp: sdp@ },
            InMessage::IceCandidate { to, candidate } => InMessageView::IceCandidate {
                to: to@,
                candidate: candidate@,
            },
        }
    }
}

impl View for OutMessage {
    type V = OutMessageView;

    open spec fn view(&self) -> OutMessageView {
        match self {
            OutMessage::BroadcastUsers { users } => OutMessageView::BroadcastUsers {
                users: users.deep_view(),
            },
            OutMessage::UserConnected { user } => OutMessageView::UserConnected { user: user@ },
            OutMessage::UserDisconnected { user } => OutMessageView::UserDisconnected {
                user: user@,
            },
            OutMessage::Offer { from, to, sdp } => OutMessageView::Offer {
                from: from@,
                to: to@,
                sdp: sdp@,
            },
            OutMessage::Answer { from, to, sdp } => OutMessageView::Answer {
                from: from@,
                to: to@,
                sdp: sdp@,
            },
            OutMessage::IceCandidate { from, candidate } => OutMessageView::IceCandidate {
                from: from@,
                candidate: candidate@,
            },
            OutMessage::Error { message } => OutMessageView::Error { message: message@ },
        }
    }
}

/// An outbound message together with the delivery handle it is addressed to:
/// one unit of work for the transport layer.
#[derive(Debug, PartialEq, Eq)]
pub struct Delivery {
    pub target: u64,
    pub msg: OutMessage,
}

/// Mathematical view of a delivery.
pub struct DeliveryView {
    pub target: u64,
    pub msg: OutMessageView,
}

impl View for Delivery {
    type V = DeliveryView;

    open spec fn view(&self) -> DeliveryView {
        DeliveryView { target: self.target, msg: self.msg@ }
    }
}

impl DeepView for Delivery {
    type V = DeliveryView;

    open spec fn deep_view(&self) -> DeliveryView {
        self@
    }
}

/// The rejection notice sent to a connection whose registration failed.
pub open spec fn spec_error_message() -> Seq<char> {
    "user is already connected"@
}

/// The one delivery a failed registration produces: an error notice back to
/// the originating connection.
pub open spec fn already_connected_delivery(own_tx: u64) -> DeliveryView {
    DeliveryView {
        target: own_tx,
        msg: OutMessageView::Error { message: spec_error_message() },
    }
}

/// Copies a list of identifiers, element for element.
fn clone_strings(v: &Vec<String>) -> (r: Vec<String>)
    ensures
        r.deep_view() == v.deep_view(),
{
    let mut r: Vec<String> = Vec::new();
    let mut i: usize = 0;
    while i < v.len()
        invariant
            i <= v.len(),
            r@.len() == i,
            forall|j: int| 0 <= j < i ==> r@[j] == v@[j],
        decreases v.len() - i,
    {
        r.push(v[i].clone());
        i = i + 1;
    }
    proof {
        assert forall|j: int| 0 <= j < v@.len() implies r.deep_view()[j] == v.deep_view()[j] by {
            assert(r.deep_view()[j] == r@[j]@);
            assert(v.deep_view()[j] == v@[j]@);
        }
        assert(r.deep_view() =~= v.deep_view());
    }
    r
}

impl Clone for OutMessage {
    fn clone(&self) -> (res: Self)
        ensures
            res@ == self@,
    {
        match self {
            OutMessage::BroadcastUsers { users } => OutMessage::BroadcastUsers {
                users: clone_strings(users),
            },
            OutMessage::UserConnected { user } => OutMessage::UserConnected { user: user.clone() },
            OutMessage::UserDisconnected { user } => OutMessage::UserDisconnected {
                user: user.clone(),
            },
            OutMessage::Offer { from, to, sdp } => OutMessage::Offer {
                from: from.clone(),
                to: to.clone(),
                sdp: sdp.clone(),
            },
            OutMessage::Answer { from, to, sdp } => OutMessage::Answer {
                from: from.clone(),
                to: to.clone(),
                sdp: sdp.clone(),
            },
            OutMessage::IceCandidate { from, candidate } => OutMessage::IceCandidate {
                from: from.clone(),
                candidate: candidate.clone(),
            },
            OutMessage::Error { message } => OutMessage::Error { message: message.clone() },
        }
    }
}

} // verus!
