//! The connection registry: a mapping from client identifier to the delivery
//! handle of that client's connection. It owns the uniqueness invariant (at
//! most one entry per identifier) and the broadcast fan-out.
//!
//! The registry is modelled as a sequence of `(identifier, handle)` pairs with
//! pairwise-distinct identifiers; the sequence order is the order in which
//! broadcasts visit the recipients.

use vstd::prelude::*;

use crate::messaging::{
    already_connected_delivery, Delivery, DeliveryView, OutMessage, OutMessageView,
};

verus! {

/// A token standing for the outbound delivery handle of one connection. The
/// surrounding process maps each token to the real transport sink; the core
/// only stores, looks up and addresses tokens.
pub type DeliveryHandle = u64;

/// Registration failed because the identifier is already taken.
#[derive(Debug, PartialEq, Eq, Structural)]
pub struct AlreadyRegistered;

/// One registry entry: a registered identifier and its delivery handle.
struct ClientEntry {
    id: String,
    tx: DeliveryHandle,
}

/// The identifiers of `s` are pairwise distinct.
pub open spec fn unique_ids(s: Seq<(Seq<char>, DeliveryHandle)>) -> bool {
    forall|i: int, j: int| 0 <= i < j < s.len() ==> s[i].0 != s[j].0
}

/// Some entry of `s` carries the identifier `id`.
pub open spec fn contains_id(s: Seq<(Seq<char>, DeliveryHandle)>, id: Seq<char>) -> bool {
    exists|i: int| 0 <= i < s.len() && s[i].0 == id
}

/// The index of the entry carrying `id` (meaningful only when `contains_id`
/// holds; unique when `unique_ids` holds).
pub open spec fn idx_of(s: Seq<(Seq<char>, DeliveryHandle)>, id: Seq<char>) -> int {
    choose|i: int| 0 <= i < s.len() && s[i].0 == id
}

/// The delivery handle registered under `id`.
pub open spec fn handle_of(s: Seq<(Seq<char>, DeliveryHandle)>, id: Seq<char>) -> DeliveryHandle {
    s[idx_of(s, id)].1
}

/// `s` with the entry carrying `id` removed; `s` itself when no entry does.
pub open spec fn remove_id(
    s: Seq<(Seq<char>, DeliveryHandle)>,
    id: Seq<char>,
) -> Seq<(Seq<char>, DeliveryHandle)> {
    if contains_id(s, id) {
        s.remove(idx_of(s, id))
    } else {
        s
    }
}

/// The identifiers of `s`, in registry order.
pub open spec fn ids_of(s: Seq<(Seq<char>, DeliveryHandle)>) -> Seq<Seq<char>> {
    s.map_values(|p: (Seq<char>, DeliveryHandle)| p.0)
}

/// The deliveries a broadcast of `msg` over the entries of `s` produces: one
/// per entry in registry order, skipping the entry registered as `exclude`.
pub open spec fn fanout(
    s: Seq<(Seq<char>, DeliveryHandle)>,
    msg: OutMessageView,
    exclude: Seq<char>,
) -> Seq<crate::messaging::DeliveryView>
    decreases s.len(),
{
    if s.len() == 0 {
        Seq::empty()
    } else {
        let rest = fanout(s.drop_last(), msg, exclude);
        if s.last().0 == exclude {
            rest
        } else {
            rest.push(crate::messaging::DeliveryView { target: s.last().1, msg })
        }
    }
}

/// What a connect does: a taken identifier changes nothing and produces only
/// an error notice back to the joiner; a free one is registered, the joiner
/// receives the snapshot of the peers registered before it, and each of those
/// peers receives one join announcement.
pub open spec fn connect_effect(
    reg: Seq<(Seq<char>, DeliveryHandle)>,
    id: Seq<char>,
    tx: DeliveryHandle,
) -> (Seq<(Seq<char>, DeliveryHandle)>, Seq<DeliveryView>) {
    if contains_id(reg, id) {
        (reg, seq![already_connected_delivery(tx)])
    } else {
        let snapshot = DeliveryView {
            target: tx,
            msg: OutMessageView::BroadcastUsers { users: ids_of(reg) },
        };
        (
            reg.push((id, tx)),
            seq![snapshot] + fanout(reg, OutMessageView::UserConnected { user: id }, id),
        )
    }
}

/// What a disconnect does: the entry under `id`, if any, is removed and each
/// remaining client receives one leave notification; an absent identifier
/// changes nothing and produces nothing.
pub open spec fn disconnect_effect(
    reg: Seq<(Seq<char>, DeliveryHandle)>,
    id: Seq<char>,
) -> (Seq<(Seq<char>, DeliveryHandle)>, Seq<DeliveryView>) {
    (
        remove_id(reg, id),
        if contains_id(reg, id) {
            fanout(remove_id(reg, id), OutMessageView::UserDisconnected { user: id }, id)
        } else {
            Seq::empty()
        },
    )
}

/// The registry of currently-reachable clients. Every mutation flows through
/// the methods below; run under a single point of mutual exclusion, each
/// method is one atomic step of the registry's state.
pub struct ClientManager {
    clients: Vec<ClientEntry>,
}

impl View for ClientManager {
    type V = Seq<(Seq<char>, DeliveryHandle)>;

    closed spec fn view(&self) -> Seq<(Seq<char>, DeliveryHandle)> {
        self.clients@.map_values(|e: ClientEntry| (e.id@, e.tx))
    }
}

impl ClientManager {
    /// The registry's invariant: at most one entry per identifier.
    pub open spec fn wf(&self) -> bool {
        unique_ids(self@)
    }

    pub fn new() -> (r: Self)
        ensures
            r@ == Seq::<(Seq<char>, DeliveryHandle)>::empty(),
            r.wf(),
    {
        let r = ClientManager { clients: Vec::new() };
        proof {
            assert(r@ =~= Seq::<(Seq<char>, DeliveryHandle)>::empty());
        }
        r
    }

    /// The index of the entry registered under `id`, if any.
    fn index_of_id(&self, id: &String) -> (r: Option<usize>)
        ensures
            match r {
                Some(i) => i < self@.len() && self@[i as int].0 == id@,
                None => !contains_id(self@, id@),
            },
    {
        let mut i: usize = 0;
        while i < self.clients.len()
            invariant
                i <= self.clients.len(),
                forall|j: int| 0 <= j < i ==> self@[j].0 != id@,
            decreases self.clients.len() - i,
        {
            if self.clients[i].id == *id {
                return Some(i);
            }
            i = i + 1;
        }
        None
    }

    /// Atomically checks for an existing entry under `id` and inserts when
    /// absent; a taken identifier leaves the registry untouched.
    pub fn register(&mut self, id: String, tx: DeliveryHandle) -> (r: Result<(), AlreadyRegistered>)
        requires
            old(self).wf(),
        ensures
            final(self).wf(),
            r is Ok <==> !contains_id(old(self)@, id@),
            r is Ok ==> final(self)@ == old(self)@.push((id@, tx)),
            r is Err ==> final(self)@ == old(self)@,
    {
        match self.index_of_id(&id) {
            Some(_) => Err(AlreadyRegistered),
            None => {
                let ghost pre = self@;
                let ghost idv = id@;
                self.clients.push(ClientEntry { id, tx });
                proof {
                    assert(self@ =~= pre.push((idv, tx)));
                    assert forall|i: int| 0 <= i < pre.len() implies pre[i].0 != idv by {
                        if pre[i].0 == idv {
                            assert(contains_id(pre, idv));
                        }
                    }
                }
                Ok(())
            },
        }
    }

    /// Removes the entry under `id` if present; idempotent — a second call is
    /// a no-op returning `false`.
    pub fn unregister(&mut self, id: &String) -> (removed: bool)
        requires
            old(self).wf(),
        ensures
            final(self).wf(),
            removed == contains_id(old(self)@, id@),
            final(self)@ == remove_id(old(self)@, id@),
            !contains_id(final(self)@, id@),
    {
        match self.index_of_id(id) {
            None => false,
            Some(i) => {
                let ghost pre = self@;
                self.clients.remove(i);
                proof {
                    assert(contains_id(pre, id@));
                    let k = idx_of(pre, id@);
                    assert(0 <= k < pre.len() && pre[k].0 == id@);
                    assert(k == i as int) by {
                        if k != i as int {
                            if k < i as int {
                                assert(pre[k].0 != pre[i as int].0);
                            } else {
                                assert(pre[i as int].0 != pre[k].0);
                            }
                        }
                    }
                    assert(self@ =~= pre.remove(i as int));
                    lemma_remove_keeps_unique(pre, i as int);
                }
                true
            },
        }
    }

    /// Returns a copy of the delivery handle registered under `id`, if any.
    pub fn get_user_tx(&self, id: &String) -> (r: Option<DeliveryHandle>)
        requires
            self.wf(),
        ensures
            r is Some <==> contains_id(self@, id@),
            r matches Some(tx) ==> tx == handle_of(self@, id@),
    {
        match self.index_of_id(id) {
            None => None,
            Some(i) => {
                proof {
                    let k = idx_of(self@, id@);
                    assert(0 <= k < self@.len() && self@[k].0 == id@);
                    if k < i as int {
                        assert(self@[k].0 != self@[i as int].0);
                    } else if k > i as int {
                        assert(self@[i as int].0 != self@[k].0);
                    }
                }
                Some(self.clients[i].tx)
            },
        }
    }

    /// A point-in-time list of all registered identifiers, in registry order.
    pub fn snapshot_ids(&self) -> (r: Vec<String>)
        ensures
            r.deep_view() == ids_of(self@),
    {
        let mut r: Vec<String> = Vec::new();
        let mut i: usize = 0;
        while i < self.clients.len()
            invariant
                i <= self.clients.len(),
                r@.len() == i,
                forall|j: int| 0 <= j < i ==> r@[j]@ == self@[j].0,
            decreases self.clients.len() - i,
        {
            r.push(self.clients[i].id.clone());
            i = i + 1;
        }
        proof {
            assert forall|j: int| 0 <= j < self@.len() implies r.deep_view()[j] == ids_of(self@)[j]
            by {
                assert(r.deep_view()[j] == r@[j]@);
            }
            assert(r.deep_view() =~= ids_of(self@));
        }
        r
    }

    /// Builds the deliveries of `msg` to every registered connection except
    /// the one registered as `exclude`, in registry order. Performing the
    /// sends — best effort, one unreachable recipient never blocking the
    /// others — is the surrounding process's part.
    pub fn broadcast(&self, msg: &OutMessage, exclude: &String) -> (sends: Vec<Delivery>)
        ensures
            sends.deep_view() == fanout(self@, msg@, exclude@),
    {
        let mut sends: Vec<Delivery> = Vec::new();
        let mut i: usize = 0;
        while i < self.clients.len()
            invariant
                i <= self.clients.len(),
                sends.deep_view() == fanout(self@.take(i as int), msg@, exclude@),
            decreases self.clients.len() - i,
        {
            let ghost pre = sends.deep_view();
            if !(self.clients[i].id == *exclude) {
                sends.push(Delivery { target: self.clients[i].tx, msg: msg.clone() });
            }
            proof {
                let t = self@.take(i + 1);
                assert(t.drop_last() =~= self@.take(i as int));
                assert(t.last() == self@[i as int]);
                if self@[i as int].0 == exclude@ {
                    assert(sends.deep_view() =~= fanout(t, msg@, exclude@));
                } else {
                    assert(sends.deep_view() =~= pre.push(
                        crate::messaging::DeliveryView { target: self@[i as int].1, msg: msg@ },
                    ));
                }
            }
            i = i + 1;
        }
        proof {
            assert(self@.take(i as int) =~= self@);
        }
        sends
    }

    /// Atomically checks-and-registers `id` under delivery handle `tx` and
    /// builds the join messages, exactly as `connect_effect` states. The
    /// sends themselves are the caller's part, performed after this critical
    /// section ends.
    pub fn connect(&mut self, id: String, tx: DeliveryHandle) -> (r: (
        Result<(), AlreadyRegistered>,
        Vec<Delivery>,
    ))
        requires
            old(self).wf(),
        ensures
            final(self).wf(),
            r.0 is Ok <==> !contains_id(old(self)@, id@),
            final(self)@ == connect_effect(old(self)@, id@, tx).0,
            r.1.deep_view() == connect_effect(old(self)@, id@, tx).1,
    {
        let ghost pre = self@;
        let users = self.snapshot_ids();
        match self.register(id.clone(), tx) {
            Err(e) => {
                let mut sends: Vec<Delivery> = Vec::new();
                sends.push(Delivery {
                    target: tx,
                    msg: OutMessage::Error { message: "user is already connected".to_owned() },
                });
                proof {
                    assert(sends.deep_view() =~= seq![already_connected_delivery(tx)]);
                }
                (Err(e), sends)
            },
            Ok(()) => {
                let mut sends: Vec<Delivery> = Vec::new();
                sends.push(Delivery { target: tx, msg: OutMessage::BroadcastUsers { users } });
                let announce = OutMessage::UserConnected { user: id.clone() };
                let mut bc = self.broadcast(&announce, &id);
                let ghost bcv = bc.deep_view();
                sends.append(&mut bc);
                proof {
                    lemma_fanout_push_excluded(pre, (id@, tx), announce@);
                    assert(sends.deep_view() =~= seq![
                        DeliveryView {
                            target: tx,
                            msg: OutMessageView::BroadcastUsers { users: ids_of(pre) },
                        },
                    ] + bcv);
                }
                (Ok(()), sends)
            },
        }
    }

    /// Removes `id` if registered and builds the leave notifications, one per
    /// remaining client, exactly as `disconnect_effect` states; removing an
    /// absent identifier is a silent no-op.
    pub fn disconnect(&mut self, id: &String) -> (r: (bool, Vec<Delivery>))
        requires
            old(self).wf(),
        ensures
            final(self).wf(),
            r.0 == contains_id(old(self)@, id@),
            final(self)@ == disconnect_effect(old(self)@, id@).0,
            r.1.deep_view() == disconnect_effect(old(self)@, id@).1,
    {
        let removed = self.unregister(id);
        let sends = if removed {
            let notice = OutMessage::UserDisconnected { user: id.clone() };
            self.broadcast(&notice, id)
        } else {
            let sends: Vec<Delivery> = Vec::new();
            proof {
                assert(sends.deep_view() =~= Seq::<DeliveryView>::empty());
            }
            sends
        };
        (removed, sends)
    }
}

/// Pushing an entry registered as the excluded identifier leaves a fan-out
/// unchanged: a broadcast never echoes to its subject.
proof fn lemma_fanout_push_excluded(
    s: Seq<(Seq<char>, DeliveryHandle)>,
    p: (Seq<char>, DeliveryHandle),
    msg: OutMessageView,
)
    ensures
        fanout(s.push(p), msg, p.0) == fanout(s, msg, p.0),
{
    let t = s.push(p);
    assert(t.len() == s.len() + 1);
    assert(t.last() == p);
    assert(t.drop_last() =~= s);
}

/// Registering a fresh identifier keeps the registry duplicate-free.
pub proof fn lemma_unique_push(s: Seq<(Seq<char>, DeliveryHandle)>, id: Seq<char>, tx: DeliveryHandle)
    requires
        unique_ids(s),
        !contains_id(s, id),
    ensures
        unique_ids(s.push((id, tx))),
{
    let t = s.push((id, tx));
    assert forall|i: int, j: int| 0 <= i < j < t.len() implies t[i].0 != t[j].0 by {
        if j == s.len() {
            if s[i].0 == id {
                assert(contains_id(s, id));
            }
        }
    }
}

/// What removing an identifier does to the registry: one entry shorter, still
/// duplicate-free, the identifier gone, every other identifier still present
/// under its old handle.
pub proof fn lemma_remove_id(s: Seq<(Seq<char>, DeliveryHandle)>, id: Seq<char>)
    requires
        unique_ids(s),
        contains_id(s, id),
    ensures
        remove_id(s, id).len() == s.len() - 1,
        unique_ids(remove_id(s, id)),
        !contains_id(remove_id(s, id), id),
        forall|o: Seq<char>| o != id ==> (contains_id(remove_id(s, id), o) <==> contains_id(
            s,
            o,
        )),
        forall|o: Seq<char>| o != id && contains_id(s, o) ==> handle_of(remove_id(s, id), o)
            == handle_of(s, o),
{
    let k = idx_of(s, id);
    assert(0 <= k < s.len() && s[k].0 == id);
    let t = remove_id(s, id);
    assert(t == s.remove(k));
    lemma_remove_keeps_unique(s, k);
    assert forall|j: int| 0 <= j < t.len() implies t[j].0 != id by {
        let j0 = if j < k {
            j
        } else {
            j + 1
        };
        assert(t[j] == s[j0]);
        if j0 < k {
            assert(s[j0].0 != s[k].0);
        } else {
            assert(s[k].0 != s[j0].0);
        }
    }
    assert forall|o: Seq<char>| o != id implies (contains_id(t, o) <==> contains_id(s, o)) by {
        if contains_id(t, o) {
            let j = choose|j: int| 0 <= j < t.len() && t[j].0 == o;
            let j0 = if j < k {
                j
            } else {
                j + 1
            };
            assert(t[j] == s[j0]);
            assert(contains_id(s, o));
        }
        if contains_id(s, o) {
            let j0 = choose|j0: int| 0 <= j0 < s.len() && s[j0].0 == o;
            let j = if j0 < k {
                j0
            } else {
                j0 - 1
            };
            assert(t[j] == s[j0]);
            assert(contains_id(t, o));
        }
    }
    assert forall|o: Seq<char>| o != id && contains_id(s, o) implies handle_of(t, o) == handle_of(
        s,
        o,
    ) by {
        let k0 = idx_of(s, o);
        assert(0 <= k0 < s.len() && s[k0].0 == o);
        assert(contains_id(t, o));
        let k1 = idx_of(t, o);
        assert(0 <= k1 < t.len() && t[k1].0 == o);
        let orig = if k1 < k {
            k1
        } else {
            k1 + 1
        };
        assert(t[k1] == s[orig]);
        if orig < k0 {
            assert(s[orig].0 != s[k0].0);
        } else if orig > k0 {
            assert(s[k0].0 != s[orig].0);
        }
    }
}

/// Removing an entry of a duplicate-free registry keeps it duplicate-free.
pub proof fn lemma_remove_keeps_unique(s: Seq<(Seq<char>, DeliveryHandle)>, i: int)
    requires
        unique_ids(s),
        0 <= i < s.len(),
    ensures
        unique_ids(s.remove(i)),
{
    let t = s.remove(i);
    assert forall|a: int, b: int| 0 <= a < b < t.len() implies t[a].0 != t[b].0 by {
        let a0 = if a < i { a } else { a + 1 };
        let b0 = if b < i { b } else { b + 1 };
        assert(t[a] == s[a0] && t[b] == s[b0]);
    }
}

} // verus!
