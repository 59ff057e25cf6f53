//! Turning what a request names (a search text, or a latitude and a
//! longitude) into the coordinate the prayer times are computed for.

use vstd::prelude::*;
use crate::city::{lower_of, valid_coordinate};
use crate::error::CoreError;
use crate::search::{catalog_scores, is_best, CityCatalog};

verus! {

/// The coordinate, in millionths of a degree, that a request asks for: that
/// of the best catalog entry for `query` when a query is given, else
/// (`lat`, `lon`) when both are given and valid.
pub fn resolve_location(
    catalog: &CityCatalog,
    query: Option<&str>,
    lat: Option<i64>,
    lon: Option<i64>,
) -> (r: Result<(i64, i64), CoreError>)
    ensures
        match query {
            Some(q) => {
                &&& q@.len() == 0 ==> r == Err::<(i64, i64), CoreError>(CoreError::EmptyQuery)
                &&& q@.len() != 0 && catalog@.len() == 0 ==> r == Err::<(i64, i64), CoreError>(
                    CoreError::EmptyCatalog,
                )
                &&& q@.len() != 0 && catalog@.len() != 0 ==> r is Ok
                &&& r matches Ok(c) ==> exists|i: int|
                    is_best(catalog_scores(catalog@, lower_of(q@)), i) && c.0 == catalog@[i].lat_spec()
                        && c.1 == catalog@[i].lon_spec()
            },
            None => match (lat, lon) {
                (Some(a), Some(b)) => r == if valid_coordinate(a as int, b as int) {
                    Ok::<(i64, i64), CoreError>((a, b))
                } else {
                    Err(CoreError::InvalidCoordinate)
                },
                _ => r == Err::<(i64, i64), CoreError>(CoreError::MissingCoordinates),
            },
        },
{
    match query {
        Some(q) => match catalog.best_match(q) {
            Ok(i) => {
                let c = catalog.city(i);
                let lat = c.lat();
                let lon = c.lon();
                assert(is_best(catalog_scores(catalog@, lower_of(q@)), i as int) && lat
                    == catalog@[i as int].lat_spec() && lon == catalog@[i as int].lon_spec());
                Ok((lat, lon))
            },
            Err(e) => Err(e),
        },
        None => match (lat, lon) {
            (Some(a), Some(b)) => {
                if valid_coordinate_exec(a, b) {
                    Ok((a, b))
                } else {
                    Err(CoreError::InvalidCoordinate)
                }
            },
            _ => Err(CoreError::MissingCoordinates),
        },
    }
}

/// Whether (`lat`, `lon`), in millionths of a degree, is a valid coordinate.
pub fn valid_coordinate_exec(lat: i64, lon: i64) -> (r: bool)
    ensures
        r == valid_coordinate(lat as int, lon as int),
{
    -crate::city::MAX_LAT <= lat && lat <= crate::city::MAX_LAT && -crate::city::MAX_LON <= lon
        && lon <= crate::city::MAX_LON
}

} // verus!
