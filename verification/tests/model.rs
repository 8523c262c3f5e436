use geo_engine::geo::Bus;
use geo_engine::geo::Customer;
use geo_engine::geo::Location;
use geo_engine::geo::SharedTaxi;
use geo_engine::geo::User;
use geo_engine::registry::RouteState;

fn at(lat: i32, lon: i32) -> Location {
    Location {
        latitude: lat,
        longitude: lon,
    }
}

/// Visibility is mutual, holds at about 555 m and fails at about 2.2 km.
#[test]
fn visibility_is_symmetric_and_distance_based() {
    let here = User::SharedTaxi(SharedTaxi { location: at(0, 0) });
    let near = User::SharedTaxi(SharedTaxi {
        location: at(0, 5000),
    });
    let far = User::SharedTaxi(SharedTaxi {
        location: at(0, 20000),
    });

    assert!(here.should_send(&near));
    assert!(near.should_send(&here));
    assert!(!here.should_send(&far));
    assert!(!far.should_send(&here));
}

/// Every entity kind applies the same circle rule, in both directions.
#[test]
fn variants_share_the_visibility_rule() {
    let customer = Customer { location: at(0, 0) };
    let bus = User::Bus(Bus {
        location: at(0, 5000),
    });
    let taxi = User::SharedTaxi(SharedTaxi {
        location: at(0, 20000),
    });

    assert!(customer.should_send(&bus));
    assert!(!customer.should_send(&taxi));
    assert!(Bus { location: at(0, 5000) }.should_send(&User::Customer(customer)));
    assert!(!SharedTaxi {
        location: at(0, 20000)
    }
    .should_send(&User::Customer(customer)));
}

/// Moving an entity keeps its kind and records the new point.
#[test]
fn set_location_keeps_the_variant() {
    let mut u = User::Bus(Bus { location: at(1, 2) });
    u.set_location(at(3, 4));
    assert_eq!(u, User::Bus(Bus { location: at(3, 4) }));
    assert_eq!(u.location(), at(3, 4));
}

/// The allocator hands out distinct IDs within one route.
#[test]
fn allocator_hands_out_distinct_ids() {
    let mut reg = RouteState::new();
    let i1 = reg.insert_user(None);
    let i2 = reg.insert_user(None);
    let i3 = reg.insert_user(Some(User::Customer(Customer { location: at(0, 0) })));
    assert!(i1 != i2 && i2 != i3 && i1 != i3);
}

/// A pending slot looks absent to lookup, and location updates bounce
/// off it; the handshake populates it once, and only once.
#[test]
fn registry_slot_lifecycle() {
    let mut reg = RouteState::new();
    let id = reg.insert_user(None);
    assert_eq!(reg.lookup(id), None);

    assert!(!reg.update_location(id, at(7, 7)));

    let first = User::Customer(Customer { location: at(1, 1) });
    assert!(reg.set_user(id, first));
    assert_eq!(reg.lookup(id), Some(first));

    let second = User::Customer(Customer { location: at(2, 2) });
    assert!(!reg.set_user(id, second));
    assert_eq!(reg.lookup(id), Some(first));

    assert!(reg.update_location(id, at(3, 3)));
    assert_eq!(
        reg.lookup(id),
        Some(User::Customer(Customer { location: at(3, 3) }))
    );

    reg.remove_user(id);
    assert_eq!(reg.lookup(id), None);
    reg.remove_user(id);
    assert_eq!(reg.lookup(id), None);

    assert!(!reg.set_user(id, first));
    assert!(!reg.update_location(id, at(9, 9)));
}

/// Removing one session leaves the other slots untouched.
#[test]
fn removal_keeps_other_slots() {
    let mut reg = RouteState::new();
    let a = reg.insert_user(Some(User::Customer(Customer { location: at(1, 1) })));
    let b = reg.insert_user(None);
    let c = reg.insert_user(Some(User::Bus(Bus { location: at(2, 2) })));

    reg.remove_user(b);
    assert_eq!(
        reg.lookup(a),
        Some(User::Customer(Customer { location: at(1, 1) }))
    );
    assert_eq!(reg.lookup(c), Some(User::Bus(Bus { location: at(2, 2) })));
    assert_eq!(reg.lookup(b), None);
}
