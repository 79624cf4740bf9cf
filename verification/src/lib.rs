//! Consensus weather reports.
//!
//! This crate aggregates weather data obtained from several independent
//! providers into a single consensus report.  Each provider answers with its
//! own JSON shape; the provider clients ([`weather_clients`]) turn a response
//! body into a canonical [`WeatherReport`], and the aggregator
//! ([`weather_aggregator`]) folds the reports of the providers that answered
//! into their mean, tolerating the failure of any proper subset of them.
//!
//! Temperatures are held in fixed point, as thousandths of a degree Celsius,
//! so that the statistical merge is exact and independent of the order in
//! which reports arrive.

use vstd::prelude::*;

pub mod json;
pub mod numbers;
pub mod strings;
pub mod weather_aggregator;
pub mod weather_clients;

use numbers::floor_div_i128;

verus! {

/// A single canonical weather observation.
///
/// Immutable value type: produced by a provider client or by the aggregator's
/// merge, never mutated after construction.
#[derive(Clone, Copy, PartialEq, Eq, Structural, Debug)]
pub struct WeatherReport {
    /// Temperature in thousandths of a degree Celsius.
    pub temperature_milli: i64,
    /// Observation time, Unix seconds (UTC).
    pub unix_timestamp: i64,
}

impl WeatherReport {
    /// Pairwise merge of two reports: each component becomes the mean of the
    /// two inputs, rounded toward negative infinity.
    pub fn mean_merge(&self, another_report: WeatherReport) -> (r: WeatherReport)
        ensures
            r.temperature_milli == (self.temperature_milli + another_report.temperature_milli) / 2,
            r.unix_timestamp == (self.unix_timestamp + another_report.unix_timestamp) / 2,
    {
        let t = floor_div_i128(
            self.temperature_milli as i128 + another_report.temperature_milli as i128,
            2,
        );
        let ts = floor_div_i128(
            self.unix_timestamp as i128 + another_report.unix_timestamp as i128,
            2,
        );
        proof {
            lemma_mean2_in_i64_range(self.temperature_milli as int, another_report.temperature_milli as int);
            lemma_mean2_in_i64_range(self.unix_timestamp as int, another_report.unix_timestamp as int);
        }
        WeatherReport { temperature_milli: t as i64, unix_timestamp: ts as i64 }
    }
}

/// The floor of the mean of two `i64` values is itself within `i64` range.
proof fn lemma_mean2_in_i64_range(a: int, b: int)
    requires
        i64::MIN <= a <= i64::MAX,
        i64::MIN <= b <= i64::MAX,
    ensures
        i64::MIN <= (a + b) / 2 <= i64::MAX,
{
    vstd::arithmetic::div_mod::lemma_div_is_ordered(2 * i64::MIN, a + b, 2);
    vstd::arithmetic::div_mod::lemma_div_is_ordered(a + b, 2 * i64::MAX, 2);
    vstd::arithmetic::div_mod::lemma_div_multiples_vanish(i64::MIN as int, 2);
    vstd::arithmetic::div_mod::lemma_div_multiples_vanish(i64::MAX as int, 2);
}

} // verus!
