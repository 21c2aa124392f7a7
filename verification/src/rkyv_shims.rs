//! Marker types naming the archival codecs for third-party time values: a
//! duration as a seconds/nanoseconds pair, an instant or a date as a Unix
//! timestamp.  The codec implementations themselves belong to the
//! serialization layer around the library, keyed on these names.

use vstd::prelude::*;

verus! {

/// Codec marker: an optional duration, archived as an optional
/// seconds/nanoseconds pair.
pub struct OptionDuration;

/// Codec marker: a UTC instant, archived as its Unix timestamp in seconds.
pub struct ChronoDateTimeUtc;

/// Codec marker: a calendar date, archived as the Unix timestamp of its
/// midnight.
pub struct ChronoNaiveDate;

} // verus!
