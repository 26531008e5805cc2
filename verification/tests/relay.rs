use chirm::client_manager::{AlreadyRegistered, ClientManager};
use chirm::messaging::{ConnectivityCandidate, Delivery, InMessage, OutMessage, SessionDescription};
use chirm::router::{route_close, route_message, SessionState};

fn sdp(s: &str) -> SessionDescription {
    SessionDescription { payload: s.to_string() }
}

fn candidate(s: &str) -> ConnectivityCandidate {
    ConnectivityCandidate { payload: s.to_string() }
}

fn connect(cm: &mut ClientManager, sess: &mut SessionState, tx: u64, id: &str) -> Vec<Delivery> {
    route_message(cm, sess, tx, InMessage::Connect { id: id.to_string() })
}

fn disconnect(cm: &mut ClientManager, sess: &mut SessionState, tx: u64, id: &str) -> Vec<Delivery> {
    route_message(cm, sess, tx, InMessage::Disconnect { id: id.to_string() })
}

#[test]
fn register_and_lookup() {
    let mut cm = ClientManager::new();
    assert_eq!(cm.register("alice".to_string(), 1), Ok(()));
    assert_eq!(cm.register("alice".to_string(), 2), Err(AlreadyRegistered));
    assert_eq!(cm.get_user_tx(&"alice".to_string()), Some(1));
    assert_eq!(cm.get_user_tx(&"bob".to_string()), None);
}

#[test]
fn unregister_returns_whether_removed() {
    let mut cm = ClientManager::new();
    assert_eq!(cm.register("alice".to_string(), 1), Ok(()));
    assert!(cm.unregister(&"alice".to_string()));
    assert!(!cm.unregister(&"alice".to_string()));
    assert_eq!(cm.get_user_tx(&"alice".to_string()), None);
}

#[test]
fn snapshot_lists_ids_in_order() {
    let mut cm = ClientManager::new();
    assert_eq!(cm.register("alice".to_string(), 1), Ok(()));
    assert_eq!(cm.register("bob".to_string(), 2), Ok(()));
    assert_eq!(cm.register("carol".to_string(), 3), Ok(()));
    assert_eq!(cm.snapshot_ids(), vec!["alice".to_string(), "bob".to_string(), "carol".to_string()]);
}

#[test]
fn connect_builds_join_messages() {
    let mut cm = ClientManager::new();
    let (r, sends) = cm.connect("alice".to_string(), 1);
    assert_eq!(r, Ok(()));
    assert_eq!(
        sends,
        vec![Delivery { target: 1, msg: OutMessage::BroadcastUsers { users: vec![] } }]
    );

    let (r, sends) = cm.connect("bob".to_string(), 2);
    assert_eq!(r, Ok(()));
    assert_eq!(
        sends,
        vec![
            Delivery {
                target: 2,
                msg: OutMessage::BroadcastUsers { users: vec!["alice".to_string()] },
            },
            Delivery { target: 1, msg: OutMessage::UserConnected { user: "bob".to_string() } },
        ]
    );

    let (r, sends) = cm.connect("alice".to_string(), 3);
    assert_eq!(r, Err(AlreadyRegistered));
    assert_eq!(
        sends,
        vec![
            Delivery {
                target: 3,
                msg: OutMessage::Error { message: "user is already connected".to_string() },
            },
        ]
    );
}

#[test]
fn disconnect_builds_leave_messages() {
    let mut cm = ClientManager::new();
    cm.connect("alice".to_string(), 1);
    cm.connect("bob".to_string(), 2);

    let (removed, sends) = cm.disconnect(&"alice".to_string());
    assert!(removed);
    assert_eq!(
        sends,
        vec![
            Delivery {
                target: 2,
                msg: OutMessage::UserDisconnected { user: "alice".to_string() },
            },
        ]
    );

    let (removed, sends) = cm.disconnect(&"alice".to_string());
    assert!(!removed);
    assert!(sends.is_empty());
}

#[test]
fn broadcast_excludes_subject() {
    let mut cm = ClientManager::new();
    assert_eq!(cm.register("alice".to_string(), 1), Ok(()));
    assert_eq!(cm.register("bob".to_string(), 2), Ok(()));
    let msg = OutMessage::UserConnected { user: "bob".to_string() };
    let sends = cm.broadcast(&msg, &"bob".to_string());
    assert_eq!(sends.len(), 1);
    assert_eq!(sends[0].target, 1);
    assert_eq!(sends[0].msg, OutMessage::UserConnected { user: "bob".to_string() });
}

#[test]
fn uniqueness_second_connect_rejected() {
    let mut cm = ClientManager::new();
    let mut s1 = SessionState::Unregistered;
    connect(&mut cm, &mut s1, 1, "alice");

    let mut s2 = SessionState::Unregistered;
    let sends = connect(&mut cm, &mut s2, 2, "alice");
    assert_eq!(sends.len(), 1);
    assert_eq!(sends[0].target, 2);
    assert_eq!(
        sends[0].msg,
        OutMessage::Error { message: "user is already connected".to_string() }
    );
    assert_eq!(s2, SessionState::Unregistered);

    // the original registration is intact: a relay still reaches alice's handle
    let mut s3 = SessionState::Unregistered;
    connect(&mut cm, &mut s3, 3, "bob");
    let sends = route_message(
        &mut cm,
        &mut s3,
        3,
        InMessage::Offer { to: "alice".to_string(), sdp: sdp("x") },
    );
    assert_eq!(sends.len(), 1);
    assert_eq!(sends[0].target, 1);
}

#[test]
fn second_connect_same_session_rejected() {
    let mut cm = ClientManager::new();
    let mut s1 = SessionState::Unregistered;
    connect(&mut cm, &mut s1, 1, "alice");
    let sends = connect(&mut cm, &mut s1, 1, "carol");
    assert_eq!(sends.len(), 1);
    assert_eq!(
        sends[0].msg,
        OutMessage::Error { message: "user is already connected".to_string() }
    );
    assert_eq!(s1, SessionState::Registered { id: "alice".to_string() });
    // "carol" was never registered
    assert_eq!(cm.get_user_tx(&"carol".to_string()), None);
}

#[test]
fn join_broadcast_order_and_snapshot() {
    let mut cm = ClientManager::new();
    let mut s1 = SessionState::Unregistered;
    let sends = connect(&mut cm, &mut s1, 1, "alice");
    // the very first client gets an empty snapshot and nobody else is notified
    assert_eq!(sends.len(), 1);
    assert_eq!(sends[0].target, 1);
    assert_eq!(sends[0].msg, OutMessage::BroadcastUsers { users: vec![] });

    let mut s2 = SessionState::Unregistered;
    let sends = connect(&mut cm, &mut s2, 2, "bob");
    // bob's snapshot lists exactly the ids registered before him
    assert_eq!(sends.len(), 2);
    assert_eq!(sends[0].target, 2);
    assert_eq!(
        sends[0].msg,
        OutMessage::BroadcastUsers { users: vec!["alice".to_string()] }
    );
    // alice is told exactly once; bob is never told about himself
    assert_eq!(sends[1].target, 1);
    assert_eq!(sends[1].msg, OutMessage::UserConnected { user: "bob".to_string() });
}

#[test]
fn leave_broadcast_reaches_all_others_once() {
    let mut cm = ClientManager::new();
    let mut s1 = SessionState::Unregistered;
    let mut s2 = SessionState::Unregistered;
    let mut s3 = SessionState::Unregistered;
    connect(&mut cm, &mut s1, 1, "alice");
    connect(&mut cm, &mut s2, 2, "bob");
    connect(&mut cm, &mut s3, 3, "carol");

    let sends = disconnect(&mut cm, &mut s2, 2, "bob");
    assert_eq!(sends.len(), 2);
    assert_eq!(sends[0].target, 1);
    assert_eq!(sends[0].msg, OutMessage::UserDisconnected { user: "bob".to_string() });
    assert_eq!(sends[1].target, 3);
    assert_eq!(sends[1].msg, OutMessage::UserDisconnected { user: "bob".to_string() });
    assert_eq!(s2, SessionState::Closed);

    // the id is immediately available for a fresh connect
    let mut s4 = SessionState::Unregistered;
    let sends = connect(&mut cm, &mut s4, 4, "bob");
    assert_eq!(sends[0].target, 4);
    assert_eq!(s4, SessionState::Registered { id: "bob".to_string() });
}

#[test]
fn transport_close_broadcasts_leave() {
    let mut cm = ClientManager::new();
    let mut s1 = SessionState::Unregistered;
    let mut s2 = SessionState::Unregistered;
    connect(&mut cm, &mut s1, 1, "alice");
    connect(&mut cm, &mut s2, 2, "bob");

    let sends = route_close(&mut cm, &mut s2);
    assert_eq!(sends.len(), 1);
    assert_eq!(sends[0].target, 1);
    assert_eq!(sends[0].msg, OutMessage::UserDisconnected { user: "bob".to_string() });
    assert_eq!(s2, SessionState::Closed);
    assert_eq!(cm.get_user_tx(&"bob".to_string()), None);
}

#[test]
fn close_of_unregistered_session_is_silent() {
    let mut cm = ClientManager::new();
    let mut s1 = SessionState::Unregistered;
    connect(&mut cm, &mut s1, 1, "alice");
    let mut s2 = SessionState::Unregistered;
    let sends = route_close(&mut cm, &mut s2);
    assert!(sends.is_empty());
    assert_eq!(s2, SessionState::Closed);
}

#[test]
fn directed_relay_offer() {
    let mut cm = ClientManager::new();
    let mut s1 = SessionState::Unregistered;
    let mut s2 = SessionState::Unregistered;
    connect(&mut cm, &mut s1, 1, "alice");
    connect(&mut cm, &mut s2, 2, "bob");

    let sends = route_message(
        &mut cm,
        &mut s1,
        1,
        InMessage::Offer { to: "bob".to_string(), sdp: sdp("offer-payload") },
    );
    assert_eq!(sends.len(), 1);
    assert_eq!(sends[0].target, 2);
    assert_eq!(
        sends[0].msg,
        OutMessage::Offer {
            from: "alice".to_string(),
            to: "bob".to_string(),
            sdp: sdp("offer-payload"),
        }
    );
}

#[test]
fn directed_relay_answer_and_candidate() {
    let mut cm = ClientManager::new();
    let mut s1 = SessionState::Unregistered;
    let mut s2 = SessionState::Unregistered;
    connect(&mut cm, &mut s1, 1, "alice");
    connect(&mut cm, &mut s2, 2, "bob");

    let sends = route_message(
        &mut cm,
        &mut s2,
        2,
        InMessage::Answer { to: "alice".to_string(), sdp: sdp("answer-payload") },
    );
    assert_eq!(sends.len(), 1);
    assert_eq!(sends[0].target, 1);
    assert_eq!(
        sends[0].msg,
        OutMessage::Answer {
            from: "bob".to_string(),
            to: "alice".to_string(),
            sdp: sdp("answer-payload"),
        }
    );

    let sends = route_message(
        &mut cm,
        &mut s2,
        2,
        InMessage::IceCandidate {
            to: "alice".to_string(),
            candidate: candidate("candidate-payload"),
        },
    );
    assert_eq!(sends.len(), 1);
    assert_eq!(sends[0].target, 1);
    assert_eq!(
        sends[0].msg,
        OutMessage::IceCandidate {
            from: "bob".to_string(),
            candidate: candidate("candidate-payload"),
        }
    );
}

#[test]
fn unknown_target_is_silent() {
    let mut cm = ClientManager::new();
    let mut s1 = SessionState::Unregistered;
    let mut s2 = SessionState::Unregistered;
    connect(&mut cm, &mut s1, 1, "alice");
    connect(&mut cm, &mut s2, 2, "bob");

    let sends = route_message(
        &mut cm,
        &mut s1,
        1,
        InMessage::Offer { to: "ghost".to_string(), sdp: sdp("x") },
    );
    assert!(sends.is_empty());
    let sends = route_message(
        &mut cm,
        &mut s1,
        1,
        InMessage::IceCandidate { to: "ghost".to_string(), candidate: candidate("y") },
    );
    assert!(sends.is_empty());
}

#[test]
fn relay_before_connect_ignored() {
    let mut cm = ClientManager::new();
    let mut s1 = SessionState::Unregistered;
    connect(&mut cm, &mut s1, 1, "alice");

    let mut s2 = SessionState::Unregistered;
    let sends = route_message(
        &mut cm,
        &mut s2,
        2,
        InMessage::Offer { to: "alice".to_string(), sdp: sdp("x") },
    );
    assert!(sends.is_empty());
    assert_eq!(s2, SessionState::Unregistered);
}

#[test]
fn idempotent_disconnect() {
    let mut cm = ClientManager::new();
    let mut s1 = SessionState::Unregistered;
    let mut s2 = SessionState::Unregistered;
    connect(&mut cm, &mut s1, 1, "alice");
    connect(&mut cm, &mut s2, 2, "bob");

    let first = disconnect(&mut cm, &mut s2, 2, "bob");
    assert_eq!(first.len(), 1);
    let second = disconnect(&mut cm, &mut s2, 2, "bob");
    assert!(second.is_empty());
    assert_eq!(s2, SessionState::Closed);
}

#[test]
fn disconnect_of_never_registered_id_is_silent() {
    let mut cm = ClientManager::new();
    let mut s1 = SessionState::Unregistered;
    connect(&mut cm, &mut s1, 1, "alice");

    // a session that never registered cannot disconnect anyone
    let mut s2 = SessionState::Unregistered;
    let sends = disconnect(&mut cm, &mut s2, 2, "ghost");
    assert!(sends.is_empty());
    assert_eq!(s2, SessionState::Unregistered);
}

#[test]
fn foreign_disconnect_ignored() {
    let mut cm = ClientManager::new();
    let mut s1 = SessionState::Unregistered;
    let mut s2 = SessionState::Unregistered;
    connect(&mut cm, &mut s1, 1, "alice");
    connect(&mut cm, &mut s2, 2, "bob");

    // bob tries to deregister alice: ignored, alice stays reachable
    let sends = disconnect(&mut cm, &mut s2, 2, "alice");
    assert!(sends.is_empty());
    assert_eq!(s2, SessionState::Registered { id: "bob".to_string() });
    assert_eq!(cm.get_user_tx(&"alice".to_string()), Some(1));
}

#[test]
fn messages_after_close_are_inert() {
    let mut cm = ClientManager::new();
    let mut s1 = SessionState::Unregistered;
    let mut s2 = SessionState::Unregistered;
    connect(&mut cm, &mut s1, 1, "alice");
    connect(&mut cm, &mut s2, 2, "bob");
    route_close(&mut cm, &mut s2);

    let sends = route_message(
        &mut cm,
        &mut s2,
        2,
        InMessage::Offer { to: "alice".to_string(), sdp: sdp("x") },
    );
    assert!(sends.is_empty());
    let sends = connect(&mut cm, &mut s2, 2, "carol");
    assert!(sends.is_empty());
    assert_eq!(s2, SessionState::Closed);
}

#[test]
fn end_to_end_scenario() {
    let mut cm = ClientManager::new();

    // Connect "alice"
    let mut alice = SessionState::Unregistered;
    let sends = connect(&mut cm, &mut alice, 10, "alice");
    assert_eq!(sends, vec![Delivery { target: 10, msg: OutMessage::BroadcastUsers { users: vec![] } }]);

    // Connect "bob": bob receives BroadcastUsers{["alice"]}, alice receives UserConnected{bob}
    let mut bob = SessionState::Unregistered;
    let sends = connect(&mut cm, &mut bob, 20, "bob");
    assert_eq!(
        sends,
        vec![
            Delivery {
                target: 20,
                msg: OutMessage::BroadcastUsers { users: vec!["alice".to_string()] },
            },
            Delivery { target: 10, msg: OutMessage::UserConnected { user: "bob".to_string() } },
        ]
    );

    // alice offers to bob
    let sends = route_message(
        &mut cm,
        &mut alice,
        10,
        InMessage::Offer { to: "bob".to_string(), sdp: sdp("X") },
    );
    assert_eq!(
        sends,
        vec![
            Delivery {
                target: 20,
                msg: OutMessage::Offer {
                    from: "alice".to_string(),
                    to: "bob".to_string(),
                    sdp: sdp("X"),
                },
            },
        ]
    );

    // bob answers alice
    let sends = route_message(
        &mut cm,
        &mut bob,
        20,
        InMessage::Answer { to: "alice".to_string(), sdp: sdp("Y") },
    );
    assert_eq!(
        sends,
        vec![
            Delivery {
                target: 10,
                msg: OutMessage::Answer {
                    from: "bob".to_string(),
                    to: "alice".to_string(),
                    sdp: sdp("Y"),
                },
            },
        ]
    );

    // bob's transport closes: alice is told once, bob's id is free again
    let sends = route_close(&mut cm, &mut bob);
    assert_eq!(
        sends,
        vec![
            Delivery {
                target: 10,
                msg: OutMessage::UserDisconnected { user: "bob".to_string() },
            },
        ]
    );
    assert_eq!(bob, SessionState::Closed);
    assert_eq!(cm.snapshot_ids(), vec!["alice".to_string()]);
}
