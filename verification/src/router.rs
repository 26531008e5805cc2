//! The message router: given one inbound message, decide what the registry's
//! next state is, what the session's next state is, and which outbound
//! deliveries to hand to the transport. The routing rules are written once as
//! spec functions (`spec_route`, `spec_close`); the executable functions are
//! proved to follow them exactly.

use vstd::prelude::*;

use crate::client_manager::{
    connect_effect, contains_id, disconnect_effect, handle_of, ClientManager, DeliveryHandle,
};
use crate::messaging::{
    already_connected_delivery, Delivery, DeliveryView, InMessage, InMessageView, OutMessage,
    OutMessageView,
};

verus! {

/// The per-connection state machine: a session starts unregistered, binds at
/// most one identifier for its whole lifetime, and ends closed. A closed
/// session never re-enters the protocol.
#[derive(Debug, PartialEq, Eq)]
pub enum SessionState {
    Unregistered,
    Registered { id: String },
    Closed,
}

/// Mathematical view of a session state.
pub enum SessionStateView {
    Unregistered,
    Registered { id: Seq<char> },
    Closed,
}

impl View for SessionState {
    type V = SessionStateView;

    open spec fn view(&self) -> SessionStateView {
        match self {
            SessionState::Unregistered => SessionStateView::Unregistered,
            SessionState::Registered { id } => SessionStateView::Registered { id: id@ },
            SessionState::Closed => SessionStateView::Closed,
        }
    }
}

/// Routing a `Connect { id }`: an unregistered session connects through the
/// registry — it registers and the join messages of `connect_effect` result,
/// or the identifier is taken and only the error notice comes back; a session
/// that already holds an identity is rejected the same way and changes
/// nothing.
pub open spec fn spec_connect(
    reg: Seq<(Seq<char>, DeliveryHandle)>,
    sess: SessionStateView,
    own_tx: DeliveryHandle,
    id: Seq<char>,
) -> (Seq<(Seq<char>, DeliveryHandle)>, SessionStateView, Seq<DeliveryView>) {
    if !(sess is Unregistered) {
        (reg, sess, seq![already_connected_delivery(own_tx)])
    } else {
        let (reg2, sends) = connect_effect(reg, id, own_tx);
        let sess2 = if contains_id(reg, id) {
            sess
        } else {
            SessionStateView::Registered { id }
        };
        (reg2, sess2, sends)
    }
}

/// Routing a `Disconnect { id }`: only a session registered as `id` itself is
/// honoured — it is unregistered and every remaining client is notified once;
/// a mismatched or unbound identifier is ignored. Either way an honoured
/// disconnect ends the session.
pub open spec fn spec_disconnect(
    reg: Seq<(Seq<char>, DeliveryHandle)>,
    sess: SessionStateView,
    id: Seq<char>,
) -> (Seq<(Seq<char>, DeliveryHandle)>, SessionStateView, Seq<DeliveryView>) {
    match sess {
        SessionStateView::Registered { id: own_id } => {
            if own_id == id {
                let (reg2, sends) = disconnect_effect(reg, id);
                (reg2, SessionStateView::Closed, sends)
            } else {
                (reg, sess, Seq::empty())
            }
        },
        _ => (reg, sess, Seq::empty()),
    }
}

/// Routing an `Offer`, `Answer` or `IceCandidate`: a session registered as
/// `from` relays the payload, unchanged, to the target's connection when the
/// target is registered; an unknown target, or an unbound sender, is silently
/// dropped. The registry is never changed by a relay.
pub open spec fn spec_relay(
    reg: Seq<(Seq<char>, DeliveryHandle)>,
    sess: SessionStateView,
    m: InMessageView,
) -> Seq<DeliveryView> {
    match sess {
        SessionStateView::Registered { id: from } => match m {
            InMessageView::Offer { to, sdp } => {
                if contains_id(reg, to) {
                    seq![
                        DeliveryView {
                            target: handle_of(reg, to),
                            msg: OutMessageView::Offer { from, to, sdp },
                        },
                    ]
                } else {
                    Seq::empty()
                }
            },
            InMessageView::Answer { to, sdp } => {
                if contains_id(reg, to) {
                    seq![
                        DeliveryView {
                            target: handle_of(reg, to),
                            msg: OutMessageView::Answer { from, to, sdp },
                        },
                    ]
                } else {
                    Seq::empty()
                }
            },
            InMessageView::IceCandidate { to, candidate } => {
                if contains_id(reg, to) {
                    seq![
                        DeliveryView {
                            target: handle_of(reg, to),
                            msg: OutMessageView::IceCandidate { from, candidate },
                        },
                    ]
                } else {
                    Seq::empty()
                }
            },
            _ => Seq::empty(),
        },
        _ => Seq::empty(),
    }
}

/// The complete routing relation: what one inbound message does to the
/// registry and the session, and which deliveries it produces. A closed
/// session is inert.
pub open spec fn spec_route(
    reg: Seq<(Seq<char>, DeliveryHandle)>,
    sess: SessionStateView,
    own_tx: DeliveryHandle,
    m: InMessageView,
) -> (Seq<(Seq<char>, DeliveryHandle)>, SessionStateView, Seq<DeliveryView>) {
    if sess is Closed {
        (reg, sess, Seq::empty())
    } else {
        match m {
            InMessageView::Connect { id } => spec_connect(reg, sess, own_tx, id),
            InMessageView::Disconnect { id } => spec_disconnect(reg, sess, id),
            _ => (reg, sess, spec_relay(reg, sess, m)),
        }
    }
}

/// What closing the underlying transport does: an implicit self-disconnect
/// for the session's bound identifier, if any; the session ends either way.
pub open spec fn spec_close(
    reg: Seq<(Seq<char>, DeliveryHandle)>,
    sess: SessionStateView,
) -> (Seq<(Seq<char>, DeliveryHandle)>, SessionStateView, Seq<DeliveryView>) {
    match sess {
        SessionStateView::Registered { id } => spec_disconnect(reg, sess, id),
        _ => (reg, SessionStateView::Closed, Seq::empty()),
    }
}

fn no_deliveries() -> (sends: Vec<Delivery>)
    ensures
        sends.deep_view() =~= Seq::<DeliveryView>::empty(),
{
    let sends: Vec<Delivery> = Vec::new();
    proof {
        assert(sends.deep_view() =~= Seq::<DeliveryView>::empty());
    }
    sends
}

fn single_delivery(target: DeliveryHandle, msg: OutMessage) -> (sends: Vec<Delivery>)
    ensures
        sends.deep_view() =~= seq![DeliveryView { target, msg: msg@ }],
{
    let ghost mv = msg@;
    let mut sends: Vec<Delivery> = Vec::new();
    sends.push(Delivery { target, msg });
    proof {
        assert(sends.deep_view() =~= seq![DeliveryView { target, msg: mv }]);
    }
    sends
}

fn already_connected_error(own_tx: DeliveryHandle) -> (sends: Vec<Delivery>)
    ensures
        sends.deep_view() =~= seq![already_connected_delivery(own_tx)],
{
    single_delivery(own_tx, OutMessage::Error { message: "user is already connected".to_owned() })
}

/// Hands one structurally valid inbound message of `session`'s connection to
/// the protocol: performs the registry operations it calls for and returns
/// the deliveries the transport must now perform, exactly as `spec_route`
/// states.
pub fn route_message(
    cm: &mut ClientManager,
    session: &mut SessionState,
    own_tx: DeliveryHandle,
    msg: InMessage,
) -> (sends: Vec<Delivery>)
    requires
        old(cm).wf(),
    ensures
        final(cm).wf(),
        final(cm)@ == spec_route(old(cm)@, old(session)@, own_tx, msg@).0,
        final(session)@ == spec_route(old(cm)@, old(session)@, own_tx, msg@).1,
        sends.deep_view() == spec_route(old(cm)@, old(session)@, own_tx, msg@).2,
{
    match msg {
        InMessage::Connect { id } => {
            match &*session {
                SessionState::Closed => no_deliveries(),
                SessionState::Registered { .. } => already_connected_error(own_tx),
                SessionState::Unregistered => {
                    let (result, sends) = cm.connect(id.clone(), own_tx);
                    if result.is_ok() {
                        *session = SessionState::Registered { id };
                    }
                    sends
                },
            }
        },
        InMessage::Disconnect { id } => {
            match &*session {
                SessionState::Registered { id: own_id } => {
                    if *own_id == id {
                        let (_, sends) = cm.disconnect(&id);
                        *session = SessionState::Closed;
                        sends
                    } else {
                        no_deliveries()
                    }
                },
                _ => no_deliveries(),
            }
        },
        InMessage::Offer { to, sdp } => {
            match &*session {
                SessionState::Registered { id: own_id } => {
                    match cm.get_user_tx(&to) {
                        Some(tx) => single_delivery(
                            tx,
                            OutMessage::Offer { from: own_id.clone(), to, sdp },
                        ),
                        None => no_deliveries(),
                    }
                },
                _ => no_deliveries(),
            }
        },
        InMessage::Answer { to, sdp } => {
            match &*session {
                SessionState::Registered { id: own_id } => {
                    match cm.get_user_tx(&to) {
                        Some(tx) => single_delivery(
                            tx,
                            OutMessage::Answer { from: own_id.clone(), to, sdp },
                        ),
                        None => no_deliveries(),
                    }
                },
                _ => no_deliveries(),
            }
        },
        InMessage::IceCandidate { to, candidate } => {
            match &*session {
                SessionState::Registered { id: own_id } => {
                    match cm.get_user_tx(&to) {
                        Some(tx) => single_delivery(
                            tx,
                            OutMessage::IceCandidate { from: own_id.clone(), candidate },
                        ),
                        None => no_deliveries(),
                    }
                },
                _ => no_deliveries(),
            }
        },
    }
}

/// The cleanup the session loop performs when the underlying transport ends:
/// an implicit disconnect for the bound identifier, exactly as `spec_close`
/// states.
pub fn route_close(cm: &mut ClientManager, session: &mut SessionState) -> (sends: Vec<Delivery>)
    requires
        old(cm).wf(),
    ensures
        final(cm).wf(),
        final(cm)@ == spec_close(old(cm)@, old(session)@).0,
        final(session)@ == spec_close(old(cm)@, old(session)@).1,
        sends.deep_view() == spec_close(old(cm)@, old(session)@).2,
{
    match &*session {
        SessionState::Registered { id } => {
            let id = id.clone();
            let (_, sends) = cm.disconnect(&id);
            *session = SessionState::Closed;
            sends
        },
        _ => {
            *session = SessionState::Closed;
            no_deliveries()
        },
    }
}

} // verus!
