//! The errors that the library reports to its callers.

use vstd::prelude::*;

verus! {

/// What went wrong, for a caller to turn into a message or a status.
#[derive(Clone, Copy, Debug, PartialEq, Eq, Structural)]
pub enum CoreError {
    /// Neither a search text nor both coordinates were given.
    MissingCoordinates,
    /// A latitude outside [-90°, 90°] or a longitude outside [-180°, 180°].
    InvalidCoordinate,
    /// An empty search text.
    EmptyQuery,
    /// A search over a catalog without entries.
    EmptyCatalog,
    /// No upcoming event was found within the allowed number of days.
    RolloverExhausted,
    /// An event offset that does not fall between the previous and the next day.
    OffsetOutOfRange,
    /// A date whose neighbours leave the supported range.
    DateOutOfRange,
}

} // verus!
