//! The protocol's laws, proved once over the routing relation of
//! [`crate::router`]: uniqueness of registrations, the join and leave
//! broadcasts, directed relay, silence towards unknown targets, and
//! idempotence of disconnection.

use vstd::prelude::*;

use crate::client_manager::{
    contains_id, fanout, handle_of, ids_of, lemma_remove_id, lemma_unique_push, remove_id,
    unique_ids, DeliveryHandle,
};
use crate::messaging::{already_connected_delivery, DeliveryView, InMessageView, OutMessageView};
use crate::router::{spec_close, spec_route, SessionStateView};

verus! {

/// A fan-out over entries none of which carries the excluded identifier
/// reaches every entry exactly once, in registry order.
pub proof fn lemma_fanout_targets(
    s: Seq<(Seq<char>, DeliveryHandle)>,
    msg: OutMessageView,
    exclude: Seq<char>,
)
    requires
        forall|i: int| 0 <= i < s.len() ==> s[i].0 != exclude,
    ensures
        fanout(s, msg, exclude).len() == s.len(),
        forall|i: int| 0 <= i < s.len() ==> fanout(s, msg, exclude)[i] == (DeliveryView {
            target: s[i].1,
            msg,
        }),
    decreases s.len(),
{
    if s.len() > 0 {
        let d = s.drop_last();
        lemma_fanout_targets(d, msg, exclude);
        let f = fanout(s, msg, exclude);
        assert(s.last().0 != exclude);
        assert forall|i: int| 0 <= i < s.len() implies f[i] == (DeliveryView {
            target: s[i].1,
            msg,
        }) by {
            if i < s.len() - 1 {
                assert(f[i] == fanout(d, msg, exclude)[i]);
                assert(d[i] == s[i]);
            } else {
                assert(f[i] == (DeliveryView { target: s.last().1, msg }));
            }
        }
    }
}

/// Law: routing preserves the registry's uniqueness invariant — no message
/// can ever produce two entries under one identifier.
pub proof fn lemma_route_preserves_uniqueness(
    reg: Seq<(Seq<char>, DeliveryHandle)>,
    sess: SessionStateView,
    own_tx: DeliveryHandle,
    m: InMessageView,
)
    requires
        unique_ids(reg),
    ensures
        unique_ids(spec_route(reg, sess, own_tx, m).0),
{
    let reg2 = spec_route(reg, sess, own_tx, m).0;
    match m {
        InMessageView::Connect { id } => {
            if sess is Unregistered && !contains_id(reg, id) {
                lemma_unique_push(reg, id, own_tx);
            }
        },
        InMessageView::Disconnect { id } => {
            if reg2 != reg && contains_id(reg, id) {
                lemma_remove_id(reg, id);
            }
        },
        _ => {},
    }
}

/// Law: closing a connection preserves the registry's uniqueness invariant.
pub proof fn lemma_close_preserves_uniqueness(
    reg: Seq<(Seq<char>, DeliveryHandle)>,
    sess: SessionStateView,
)
    requires
        unique_ids(reg),
    ensures
        unique_ids(spec_close(reg, sess).0),
{
    match sess {
        SessionStateView::Registered { id } => {
            if contains_id(reg, id) {
                lemma_remove_id(reg, id);
            }
        },
        _ => {},
    }
}

/// Law (uniqueness): while `id` is registered, a further `Connect { id }`
/// from any live session always fails — the registry and the session are left
/// untouched, and the one delivery is an error notice to the caller.
pub proof fn lemma_uniqueness(
    reg: Seq<(Seq<char>, DeliveryHandle)>,
    sess: SessionStateView,
    own_tx: DeliveryHandle,
    id: Seq<char>,
)
    requires
        unique_ids(reg),
        contains_id(reg, id),
        !(sess is Closed),
    ensures
        spec_route(reg, sess, own_tx, InMessageView::Connect { id }).0 == reg,
        spec_route(reg, sess, own_tx, InMessageView::Connect { id }).1 == sess,
        spec_route(reg, sess, own_tx, InMessageView::Connect { id }).2 == seq![
            already_connected_delivery(own_tx),
        ],
{
}

/// Law (join broadcast): a fresh `Connect { id }` from an unregistered
/// session registers the identifier, answers the joiner with the snapshot of
/// the peers registered before it — which never lists the joiner itself — and
/// announces the joiner to each of those peers exactly once, never back to
/// the joiner.
pub proof fn lemma_join_broadcast(
    reg: Seq<(Seq<char>, DeliveryHandle)>,
    own_tx: DeliveryHandle,
    id: Seq<char>,
)
    requires
        unique_ids(reg),
        !contains_id(reg, id),
    ensures
        ({
            let r = spec_route(
                reg,
                SessionStateView::Unregistered,
                own_tx,
                InMessageView::Connect { id },
            );
            &&& r.0 == reg.push((id, own_tx))
            &&& r.1 == (SessionStateView::Registered { id })
            &&& r.2.len() == reg.len() + 1
            &&& r.2[0] == (DeliveryView {
                target: own_tx,
                msg: OutMessageView::BroadcastUsers { users: ids_of(reg) },
            })
            &&& !ids_of(reg).contains(id)
            &&& forall|i: int| 0 <= i < reg.len() ==> r.2[i + 1] == (DeliveryView {
                target: reg[i].1,
                msg: OutMessageView::UserConnected { user: id },
            })
        }),
{
    assert forall|i: int| 0 <= i < reg.len() implies reg[i].0 != id by {
        if reg[i].0 == id {
            assert(contains_id(reg, id));
        }
    }
    lemma_fanout_targets(reg, OutMessageView::UserConnected { user: id }, id);
    assert forall|i: int| 0 <= i < ids_of(reg).len() implies ids_of(reg)[i] != id by {
        assert(ids_of(reg)[i] == reg[i].0);
    }
    let r = spec_route(reg, SessionStateView::Unregistered, own_tx, InMessageView::Connect { id });
    assert forall|i: int| 0 <= i < reg.len() implies r.2[i + 1] == (DeliveryView {
        target: reg[i].1,
        msg: OutMessageView::UserConnected { user: id },
    }) by {
        assert(r.2[i + 1] == fanout(reg, OutMessageView::UserConnected { user: id }, id)[i]);
    }
}

/// Law (leave broadcast): a self-disconnect of a registered identifier
/// removes exactly that entry, notifies every remaining client exactly once,
/// leaves every other registration intact, ends the session, and frees the
/// identifier at once — a fresh `Connect` for it succeeds again.
pub proof fn lemma_leave_broadcast(
    reg: Seq<(Seq<char>, DeliveryHandle)>,
    own_tx: DeliveryHandle,
    fresh_tx: DeliveryHandle,
    id: Seq<char>,
)
    requires
        unique_ids(reg),
        contains_id(reg, id),
    ensures
        ({
            let r = spec_route(
                reg,
                SessionStateView::Registered { id },
                own_tx,
                InMessageView::Disconnect { id },
            );
            &&& r.0 == remove_id(reg, id)
            &&& r.0.len() == reg.len() - 1
            &&& !contains_id(r.0, id)
            &&& forall|o: Seq<char>| o != id ==> (contains_id(r.0, o) <==> contains_id(reg, o))
            &&& forall|o: Seq<char>|
                o != id && contains_id(reg, o) ==> handle_of(r.0, o) == handle_of(reg, o)
            &&& r.1 == SessionStateView::Closed
            &&& r.2.len() == r.0.len()
            &&& forall|i: int| 0 <= i < r.0.len() ==> r.2[i] == (DeliveryView {
                target: r.0[i].1,
                msg: OutMessageView::UserDisconnected { user: id },
            })
            &&& spec_route(r.0, SessionStateView::Unregistered, fresh_tx, InMessageView::Connect {
                id,
            }).1 == (SessionStateView::Registered { id })
        }),
{
    lemma_remove_id(reg, id);
    let reg2 = remove_id(reg, id);
    assert forall|i: int| 0 <= i < reg2.len() implies reg2[i].0 != id by {
        if reg2[i].0 == id {
            assert(contains_id(reg2, id));
        }
    }
    lemma_fanout_targets(reg2, OutMessageView::UserDisconnected { user: id }, id);
}

/// Law (directed relay): an offer from a session registered as `from` to a
/// registered target results in exactly one delivery — the offer, payload
/// unchanged, to the target's handle — and changes no state.
pub proof fn lemma_directed_relay(
    reg: Seq<(Seq<char>, DeliveryHandle)>,
    own_tx: DeliveryHandle,
    from: Seq<char>,
    to: Seq<char>,
    sdp: Seq<char>,
)
    requires
        unique_ids(reg),
        contains_id(reg, to),
    ensures
        spec_route(reg, SessionStateView::Registered { id: from }, own_tx, InMessageView::Offer {
            to,
            sdp,
        }).0 == reg,
        spec_route(reg, SessionStateView::Registered { id: from }, own_tx, InMessageView::Offer {
            to,
            sdp,
        }).1 == (SessionStateView::Registered { id: from }),
        spec_route(reg, SessionStateView::Registered { id: from }, own_tx, InMessageView::Offer {
            to,
            sdp,
        }).2 == seq![
            (DeliveryView {
                target: handle_of(reg, to),
                msg: OutMessageView::Offer { from, to, sdp },
            }),
        ],
{
}

/// Law (unknown target is silent): a relay message addressed to an identifier
/// that is not registered changes nothing and produces no delivery at all —
/// neither to the addressee nor back to the sender.
pub proof fn lemma_unknown_target_silent(
    reg: Seq<(Seq<char>, DeliveryHandle)>,
    sess: SessionStateView,
    own_tx: DeliveryHandle,
    to: Seq<char>,
    sdp: Seq<char>,
    candidate: Seq<char>,
)
    requires
        !contains_id(reg, to),
    ensures
        spec_route(reg, sess, own_tx, InMessageView::Offer { to, sdp }) == (
            reg,
            sess,
            Seq::<DeliveryView>::empty(),
        ),
        spec_route(reg, sess, own_tx, InMessageView::Answer { to, sdp }) == (
            reg,
            sess,
            Seq::<DeliveryView>::empty(),
        ),
        spec_route(reg, sess, own_tx, InMessageView::IceCandidate { to, candidate }) == (
            reg,
            sess,
            Seq::<DeliveryView>::empty(),
        ),
{
}

/// Law (idempotent disconnect): a second `Disconnect` for the same identifier
/// changes nothing and delivers nothing, and a `Disconnect` for an identifier
/// that is not registered delivers nothing in the first place — at most one
/// leave broadcast ever results.
pub proof fn lemma_idempotent_disconnect(
    reg: Seq<(Seq<char>, DeliveryHandle)>,
    sess: SessionStateView,
    own_tx: DeliveryHandle,
    id: Seq<char>,
)
    requires
        unique_ids(reg),
    ensures
        ({
            let r1 = spec_route(reg, sess, own_tx, InMessageView::Disconnect { id });
            let r2 = spec_route(r1.0, r1.1, own_tx, InMessageView::Disconnect { id });
            &&& r2.0 == r1.0
            &&& r2.1 == r1.1
            &&& r2.2 == Seq::<DeliveryView>::empty()
            &&& (!contains_id(reg, id) ==> r1.2 == Seq::<DeliveryView>::empty())
        }),
{
}

} // verus!
