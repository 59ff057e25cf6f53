//! Places: a name, its lower-case form for matching, and a coordinate in
//! millionths of a degree.

use vstd::prelude::*;
use crate::error::CoreError;

verus! {

/// Largest latitude magnitude, in millionths of a degree.
pub const MAX_LAT: i64 = 90_000_000;

/// Largest longitude magnitude, in millionths of a degree.
pub const MAX_LON: i64 = 180_000_000;

/// A latitude in [-90°, 90°] and a longitude in [-180°, 180°], both in
/// millionths of a degree.
pub open spec fn valid_coordinate(lat: int, lon: int) -> bool {
    -MAX_LAT <= lat <= MAX_LAT && -MAX_LON <= lon <= MAX_LON
}

/// What `str::to_lowercase` makes of a text.
pub uninterp spec fn lower_of(s: Seq<char>) -> Seq<char>;

/// Relies on `str::to_lowercase`: the lower-case form depends on the
/// characters alone, and the empty text stays empty.
#[verifier::external_body]
pub(crate) fn lowercase(s: &str) -> (r: String)
    ensures
        r@ == lower_of(s@),
        s@.len() == 0 ==> r@.len() == 0,
{
    s.to_lowercase()
}

/// A named place at a valid coordinate.
pub struct City {
    lat: i64,
    lon: i64,
    name: String,
    lower: String,
}

impl City {
    #[verifier::type_invariant]
    spec fn inv(self) -> bool {
        &&& valid_coordinate(self.lat as int, self.lon as int)
        &&& self.lower@ == lower_of(self.name@)
    }

    /// Latitude, in millionths of a degree.
    pub closed spec fn lat_spec(&self) -> int {
        self.lat as int
    }

    /// Longitude, in millionths of a degree.
    pub closed spec fn lon_spec(&self) -> int {
        self.lon as int
    }

    /// The place's name.
    pub closed spec fn name_spec(&self) -> Seq<char> {
        self.name@
    }

    /// The place named `name` at (`lat`, `lon`), in millionths of a degree;
    /// `InvalidCoordinate` when the coordinate is out of range.
    pub fn named(name: &str, lat: i64, lon: i64) -> (r: Result<City, CoreError>)
        ensures
            valid_coordinate(lat as int, lon as int) <==> r is Ok,
            !valid_coordinate(lat as int, lon as int) ==> r == Err::<City, CoreError>(
                CoreError::InvalidCoordinate,
            ),
            r matches Ok(c) ==> c.lat_spec() == lat && c.lon_spec() == lon && c.name_spec()
                == name@,
    {
        if lat < -MAX_LAT || lat > MAX_LAT || lon < -MAX_LON || lon > MAX_LON {
            return Err(CoreError::InvalidCoordinate);
        }
        let lower = lowercase(name);
        Ok(City { lat, lon, name: String::from_str(name), lower })
    }

    /// A query point at (`lat`, `lon`), in millionths of a degree, under the
    /// default place name; `InvalidCoordinate` when out of range.
    pub fn new(lat: i64, lon: i64) -> (r: Result<City, CoreError>)
        ensures
            valid_coordinate(lat as int, lon as int) <==> r is Ok,
            !valid_coordinate(lat as int, lon as int) ==> r == Err::<City, CoreError>(
                CoreError::InvalidCoordinate,
            ),
            r matches Ok(c) ==> c.lat_spec() == lat && c.lon_spec() == lon && c.name_spec()
                == "Novi Pazar"@,
    {
        City::named("Novi Pazar", lat, lon)
    }

    /// Latitude, in millionths of a degree.
    pub fn lat(&self) -> (r: i64)
        ensures
            r == self.lat_spec(),
            valid_coordinate(self.lat_spec(), self.lon_spec()),
    {
        proof {
            use_type_invariant(self);
        }
        self.lat
    }

    /// Longitude, in millionths of a degree.
    pub fn lon(&self) -> (r: i64)
        ensures
            r == self.lon_spec(),
            valid_coordinate(self.lat_spec(), self.lon_spec()),
    {
        proof {
            use_type_invariant(self);
        }
        self.lon
    }

    /// The place's name.
    pub fn name(&self) -> (r: &String)
        ensures
            r@ == self.name_spec(),
    {
        &self.name
    }

    /// The lower-case form of the name.
    pub fn lower(&self) -> (r: &String)
        ensures
            r@ == lower_of(self.name_spec()),
    {
        proof {
            use_type_invariant(self);
        }
        &self.lower
    }
}

} // verus!
