use vstd::prelude::*;

verus! {

/// Geographic coordinates in microdegrees: millionths of a degree of
/// latitude and longitude. Integer microdegrees resolve to roughly a
/// tenth of a meter, far below the visibility radius, and the whole
/// range of valid coordinates fits comfortably in an `i32`.
#[derive(Clone, Copy, PartialEq, Eq, Structural, Debug)]
pub struct Location {
    pub latitude: i32,
    pub longitude: i32,
}

/// Microdegrees per degree: the scale between the stored coordinates and
/// coordinates in whole degrees.
pub const MICRO_PER_DEGREE: i32 = 1000000;

/// Radius of the visibility circle, in meters: a peer is visible exactly
/// when it lies within this distance.
pub const VISIBILITY_RADIUS_METERS: u32 = 1000;

/// Whether the point at `(lat_a, lon_a)` lies within `radius_m` meters of
/// the point at `(lat_b, lon_b)`, all coordinates in microdegrees. This is
/// the geodesic circle-containment check that `circle_check` computes.
pub uninterp spec fn in_circle(
    lat_a: int,
    lon_a: int,
    lat_b: int,
    lon_b: int,
    radius_m: int,
) -> bool;

/// Relies on geoutils::Location::is_in_circle: a geodesic circle
/// containment test (Vincenty inverse), a pure function of the two points
/// and the radius. A failure of the formula to converge counts as "not
/// inside", which is how the engine treats it. The stored microdegree
/// coordinates are scaled to the whole degrees that geoutils expects;
/// geoutils::Distance carries each number over that unit boundary.
#[verifier::external_body]
fn circle_check(a: &Location, b: &Location, radius_m: u32) -> (r: bool)
    ensures
        r == in_circle(
            a.latitude as int,
            a.longitude as int,
            b.latitude as int,
            b.longitude as int,
            radius_m as int,
        ),
{
    let scale = geoutils::Distance::from_meters(MICRO_PER_DEGREE).meters();
    let lat_a = geoutils::Distance::from_meters(a.latitude).meters() / scale;
    let lon_a = geoutils::Distance::from_meters(a.longitude).meters() / scale;
    let lat_b = geoutils::Distance::from_meters(b.latitude).meters() / scale;
    let lon_b = geoutils::Distance::from_meters(b.longitude).meters() / scale;
    let point = geoutils::Location::new(lat_a, lon_a);
    let center = geoutils::Location::new(lat_b, lon_b);
    point.is_in_circle(&center, geoutils::Distance::from_meters(radius_m)).unwrap_or(false)
}

/// A total order on locations, used only to fix the argument order of the
/// circle check: evaluating the check on the ordered pair makes
/// visibility the same seen from either endpoint.
pub open spec fn loc_le(a: Location, b: Location) -> bool {
    a.latitude < b.latitude || (a.latitude == b.latitude && a.longitude <= b.longitude)
}

/// A client at `a` and a client at `b` are visible to one another:
/// circle containment with the fixed radius, evaluated on the canonically
/// ordered pair of points.
pub open spec fn locations_visible(a: Location, b: Location) -> bool {
    if loc_le(a, b) {
        in_circle(
            a.latitude as int,
            a.longitude as int,
            b.latitude as int,
            b.longitude as int,
            VISIBILITY_RADIUS_METERS as int,
        )
    } else {
        in_circle(
            b.latitude as int,
            b.longitude as int,
            a.latitude as int,
            a.longitude as int,
            VISIBILITY_RADIUS_METERS as int,
        )
    }
}

fn check_visible(a: &Location, b: &Location) -> (r: bool)
    ensures
        r == locations_visible(*a, *b),
{
    if a.latitude < b.latitude || (a.latitude == b.latitude && a.longitude <= b.longitude) {
        circle_check(a, b, VISIBILITY_RADIUS_METERS)
    } else {
        circle_check(b, a, VISIBILITY_RADIUS_METERS)
    }
}

/// A shared-taxi entity: its only attribute is its location.
#[derive(Clone, Copy, PartialEq, Eq, Structural, Debug)]
pub struct SharedTaxi {
    pub location: Location,
}

impl SharedTaxi {
    pub fn should_send(&self, user: &User) -> (r: bool)
        ensures
            r == locations_visible(self.location, user.spec_location()),
    {
        let loc = user.location();
        check_visible(&self.location, &loc)
    }
}

/// A customer entity: its only attribute is its location.
#[derive(Clone, Copy, PartialEq, Eq, Structural, Debug)]
pub struct Customer {
    pub location: Location,
}

impl Customer {
    pub fn should_send(&self, user: &User) -> (r: bool)
        ensures
            r == locations_visible(self.location, user.spec_location()),
    {
        let loc = user.location();
        check_visible(&self.location, &loc)
    }
}

/// A bus entity: its only attribute is its location.
#[derive(Clone, Copy, PartialEq, Eq, Structural, Debug)]
pub struct Bus {
    pub location: Location,
}

impl Bus {
    pub fn should_send(&self, user: &User) -> (r: bool)
        ensures
            r == locations_visible(self.location, user.spec_location()),
    {
        let loc = user.location();
        check_visible(&self.location, &loc)
    }
}

/// The closed set of mobile entity kinds. Every variant carries a
/// location and answers the same visibility question; the dispatch is
/// kept per variant so that asymmetric rules can be added later.
#[derive(Clone, Copy, PartialEq, Eq, Structural, Debug)]
pub enum User {
    Customer(Customer),
    SharedTaxi(SharedTaxi),
    Bus(Bus),
}

impl User {
    pub open spec fn spec_location(self) -> Location {
        match self {
            User::Customer(it) => it.location,
            User::SharedTaxi(it) => it.location,
            User::Bus(it) => it.location,
        }
    }

    /// The same entity moved to `location`: the variant is kept, only the
    /// location changes.
    pub open spec fn with_location(self, location: Location) -> User {
        match self {
            User::Customer(_) => User::Customer(Customer { location }),
            User::SharedTaxi(_) => User::SharedTaxi(SharedTaxi { location }),
            User::Bus(_) => User::Bus(Bus { location }),
        }
    }

    /// `other` is visible to `self`: the two entities lie within the
    /// visibility radius of one another.
    pub open spec fn spec_should_send(self, other: User) -> bool {
        locations_visible(self.spec_location(), other.spec_location())
    }

    pub fn location(&self) -> (r: Location)
        ensures
            r == self.spec_location(),
    {
        match self {
            User::SharedTaxi(it) => it.location,
            User::Customer(it) => it.location,
            User::Bus(it) => it.location,
        }
    }

    pub fn set_location(&mut self, location: Location)
        ensures
            *final(self) == old(self).with_location(location),
    {
        match self {
            User::SharedTaxi(it) => it.location = location,
            User::Customer(it) => it.location = location,
            User::Bus(it) => it.location = location,
        }
    }

    pub fn should_send(&self, user: &User) -> (r: bool)
        ensures
            r == self.spec_should_send(*user),
    {
        match self {
            User::SharedTaxi(it) => it.should_send(user),
            User::Customer(it) => it.should_send(user),
            User::Bus(it) => it.should_send(user),
        }
    }
}

/// Symmetry: visibility is mutual. For any two entities, each sees the
/// other exactly when the other sees it, because both directions evaluate
/// the same circle check with the same radius.
pub proof fn lemma_visibility_symmetric(a: User, b: User)
    ensures
        a.spec_should_send(b) == b.spec_should_send(a),
{
}

} // verus!
