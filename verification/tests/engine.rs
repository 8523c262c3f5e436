use geo_engine::geo::Location;
use geo_engine::geo::SharedTaxi;
use geo_engine::geo::User;
use geo_engine::registry::RouteState;
use geo_engine::session::StateMessage;
use geo_engine::session::UserReceiveMessage;
use geo_engine::session::UserState;

fn taxi(lat: i32, lon: i32) -> User {
    User::SharedTaxi(SharedTaxi {
        location: Location {
            latitude: lat,
            longitude: lon,
        },
    })
}

/// Two taxis about 555 m apart connect to one route and each sends its
/// handshake; each ends up introduced to the other.
#[test]
fn nearby_taxis_discover_each_other() {
    let mut reg = RouteState::new();
    let a_id = reg.insert_user(None);
    let mut a = UserState::new(a_id);
    let b_id = reg.insert_user(None);
    let mut b = UserState::new(b_id);

    let out_a = a.handle_initial_message(&mut reg, taxi(0, 0));
    assert_eq!(out_a.to_client.len(), 0);
    assert_eq!(out_a.publish, Some(StateMessage::NewUser(a_id)));

    let out_b = b.handle_initial_message(&mut reg, taxi(0, 5000));
    assert_eq!(out_b.to_client.len(), 1);
    assert_eq!(
        out_b.to_client[0],
        UserReceiveMessage::NewUser {
            id: a_id,
            user: taxi(0, 0)
        }
    );
    assert_eq!(out_b.publish, Some(StateMessage::NewUser(b_id)));

    let (proceed, reply) = a.send_message(&reg, StateMessage::NewUser(b_id));
    assert!(proceed);
    assert_eq!(
        reply,
        Some(UserReceiveMessage::NewUser {
            id: b_id,
            user: taxi(0, 5000)
        })
    );
}

/// A moves about 2.2 km away; B learns of the update and drops A.
#[test]
fn moving_out_of_range_removes() {
    let mut reg = RouteState::new();
    let a_id = reg.insert_user(None);
    let mut a = UserState::new(a_id);
    let b_id = reg.insert_user(None);
    let mut b = UserState::new(b_id);
    a.handle_initial_message(&mut reg, taxi(0, 0));
    b.handle_initial_message(&mut reg, taxi(0, 5000));
    a.send_message(&reg, StateMessage::NewUser(b_id));

    let published = a.handle_update_location(
        &mut reg,
        Location {
            latitude: 0,
            longitude: 20000,
        },
    );
    assert_eq!(published, Some(StateMessage::UpdateLocation(a_id)));

    let (proceed, reply) = b.send_message(&reg, StateMessage::UpdateLocation(a_id));
    assert!(proceed);
    assert_eq!(reply, Some(UserReceiveMessage::RemoveUser { id: a_id }));
}

/// A session that never sends its handshake stays invisible: its frames
/// are dropped and its close produces no notification for anyone.
#[test]
fn pending_session_is_invisible() {
    let mut reg = RouteState::new();
    let a_id = reg.insert_user(None);
    let mut a = UserState::new(a_id);
    a.handle_initial_message(&mut reg, taxi(0, 0));

    let c_id = reg.insert_user(None);
    let c = UserState::new(c_id);
    assert_eq!(
        c.handle_update_location(
            &mut reg,
            Location {
                latitude: 0,
                longitude: 1
            }
        ),
        None
    );

    let evt = c.close_user(&mut reg);
    assert_eq!(evt, StateMessage::CloseUser(c_id));
    assert_eq!(reg.lookup(c_id), None);

    let (proceed, reply) = a.send_message(&reg, evt);
    assert!(proceed);
    assert_eq!(reply, None);
}

/// The first handshake wins: a second one changes nothing, introduces
/// nobody and publishes no further event.
#[test]
fn second_handshake_is_ignored() {
    let mut reg = RouteState::new();
    let a_id = reg.insert_user(None);
    let mut a = UserState::new(a_id);

    let out1 = a.handle_initial_message(&mut reg, taxi(0, 0));
    assert_eq!(out1.publish, Some(StateMessage::NewUser(a_id)));

    let out2 = a.handle_initial_message(&mut reg, taxi(10_000_000, 10_000_000));
    assert_eq!(out2.publish, None);
    assert_eq!(out2.to_client.len(), 0);
    assert_eq!(reg.lookup(a_id), Some(taxi(0, 0)));
}

/// An abrupt disconnect runs the same close path: the slot goes away and
/// the published close event makes peers drop the session.
#[test]
fn abrupt_disconnect_notifies_peers() {
    let mut reg = RouteState::new();
    let a_id = reg.insert_user(None);
    let mut a = UserState::new(a_id);
    let b_id = reg.insert_user(None);
    let mut b = UserState::new(b_id);
    a.handle_initial_message(&mut reg, taxi(0, 0));
    b.handle_initial_message(&mut reg, taxi(0, 5000));

    let evt = a.close_user(&mut reg);
    assert_eq!(reg.lookup(a_id), None);

    let (proceed, reply) = b.send_message(&reg, evt);
    assert!(proceed);
    assert_eq!(reply, Some(UserReceiveMessage::RemoveUser { id: a_id }));
}

/// A surviving location event re-syncs a stale entry in one delivery:
/// out of range evicts, back in range re-introduces.
#[test]
fn update_event_resyncs_visibility() {
    let mut reg = RouteState::new();
    let a_id = reg.insert_user(None);
    let mut a = UserState::new(a_id);
    let b_id = reg.insert_user(None);
    let mut b = UserState::new(b_id);
    a.handle_initial_message(&mut reg, taxi(0, 0));
    b.handle_initial_message(&mut reg, taxi(0, 5000));

    a.handle_update_location(
        &mut reg,
        Location {
            latitude: 0,
            longitude: 20000,
        },
    );
    let (_, reply) = b.send_message(&reg, StateMessage::UpdateLocation(a_id));
    assert_eq!(reply, Some(UserReceiveMessage::RemoveUser { id: a_id }));

    a.handle_update_location(
        &mut reg,
        Location {
            latitude: 0,
            longitude: 4000,
        },
    );
    let (_, reply) = b.send_message(&reg, StateMessage::UpdateLocation(a_id));
    assert_eq!(
        reply,
        Some(UserReceiveMessage::NewUser {
            id: a_id,
            user: taxi(0, 4000)
        })
    );
}

/// A session's own close event tells its loop to stop; other events
/// about itself are ignored.
#[test]
fn own_events_are_ignored_and_own_close_stops() {
    let mut reg = RouteState::new();
    let a_id = reg.insert_user(None);
    let mut a = UserState::new(a_id);
    a.handle_initial_message(&mut reg, taxi(0, 0));

    let (proceed, reply) = a.send_message(&reg, StateMessage::NewUser(a_id));
    assert!(proceed);
    assert_eq!(reply, None);

    let (proceed, reply) = a.send_message(&reg, StateMessage::CloseUser(a_id));
    assert!(!proceed);
    assert_eq!(reply, None);

    let (proceed, reply) = a.send_message(&reg, StateMessage::UpdateLocation(a_id));
    assert!(proceed);
    assert_eq!(reply, None);
}

/// An update event for a peer whose visibility did not change forwards
/// the fresh location rather than the event payload.
#[test]
fn update_in_range_forwards_location() {
    let mut reg = RouteState::new();
    let a_id = reg.insert_user(None);
    let mut a = UserState::new(a_id);
    let b_id = reg.insert_user(None);
    let mut b = UserState::new(b_id);
    a.handle_initial_message(&mut reg, taxi(0, 0));
    b.handle_initial_message(&mut reg, taxi(0, 5000));

    a.handle_update_location(
        &mut reg,
        Location {
            latitude: 0,
            longitude: 2000,
        },
    );
    let (_, reply) = b.send_message(&reg, StateMessage::UpdateLocation(a_id));
    assert_eq!(
        reply,
        Some(UserReceiveMessage::UpdateLocation {
            id: a_id,
            location: Location {
                latitude: 0,
                longitude: 2000
            }
        })
    );
}
