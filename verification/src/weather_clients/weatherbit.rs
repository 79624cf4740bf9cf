//! The Weatherbit provider client.
//!
//! Current conditions and daily forecasts both come wrapped in the same
//! envelope: the provider answers `{ "data": [ ... ] }`, each entry holding
//! the temperature under `temp` and the observation time under `ts`.  A
//! current-conditions answer has a single entry; a forecast lists one entry
//! per day, in chronological order.

use vstd::prelude::*;

use crate::WeatherReport;
use crate::json;
use crate::json::Json;
use crate::numbers;
use crate::strings;
use crate::weather_aggregator::ProviderError;

verus! {

/// The production endpoint prefix.
pub const API_PATH_PREFIX: &'static str = "http://api.weatherbit.io/v2.0/";

/// Client for the Weatherbit provider: holds the API key and the endpoint
/// prefix that request paths are built from.
pub struct Weatherbit {
    api_key: String,
    api_path_prefix: String,
}

impl Weatherbit {
    /// The key sent with every request.
    pub closed spec fn api_key(self) -> Seq<char> {
        self.api_key@
    }

    /// The endpoint prefix that request paths start with.
    pub closed spec fn api_path_prefix(self) -> Seq<char> {
        self.api_path_prefix@
    }

    /// A client against the production endpoint.
    pub fn new(api_key: String) -> (r: Self)
        ensures
            r.api_key() == api_key@,
            r.api_path_prefix() == API_PATH_PREFIX@,
    {
        Self { api_key, api_path_prefix: API_PATH_PREFIX.to_owned() }
    }

    /// A client against another endpoint, such as a local stand-in.
    pub fn new_with_prefix(api_key: String, api_path_prefix: String) -> (r: Self)
        ensures
            r.api_key() == api_key@,
            r.api_path_prefix() == api_path_prefix@,
    {
        Self { api_key, api_path_prefix }
    }

    /// The request path for current conditions in `city_name`.
    pub fn current_url(&self, city_name: &str) -> (u: String)
        ensures
            u@ == self.api_path_prefix() + "/current?key="@ + self.api_key() + "&city="@
                + city_name@,
    {
        let mut u = String::new();
        u.push_str(self.api_path_prefix.as_str());
        u.push_str("/current?key=");
        u.push_str(self.api_key.as_str());
        u.push_str("&city=");
        u.push_str(city_name);
        proof {
            assert(u@ =~= self.api_path_prefix() + "/current?key="@ + self.api_key() + "&city="@
                + city_name@);
        }
        u
    }

    /// The request path for a `days_count`-day daily forecast for
    /// `city_name`.
    pub fn forecast_url(&self, city_name: &str, days_count: usize) -> (u: String)
        ensures
            u@ == self.api_path_prefix() + "/forecast/daily?key="@ + self.api_key() + "&city="@
                + city_name@ + "&days="@ + strings::spec_decimal(days_count as int),
    {
        let days = strings::u64_to_string(days_count as u64);
        let mut u = String::new();
        u.push_str(self.api_path_prefix.as_str());
        u.push_str("/forecast/daily?key=");
        u.push_str(self.api_key.as_str());
        u.push_str("&city=");
        u.push_str(city_name);
        u.push_str("&days=");
        u.push_str(days.as_str());
        proof {
            assert(u@ =~= self.api_path_prefix() + "/forecast/daily?key="@ + self.api_key()
                + "&city="@ + city_name@ + "&days="@ + strings::spec_decimal(days_count as int));
        }
        u
    }

    /// Builds the canonical report out of one `data` entry.
    pub fn parse_report_from_weatherbit_json_struct(data: &Json) -> (r: Result<
        WeatherReport,
        ProviderError,
    >)
        ensures
            r == spec_report_from_entry(*data),
    {
        let temperature = match json::num_text_at(data, "temp") {
            Some(text) => numbers::parse_milli(text.as_slice()),
            None => None,
        };
        let timestamp = match json::num_text_at(data, "ts") {
            Some(text) => numbers::parse_i64(text.as_slice()),
            None => None,
        };
        match (temperature, timestamp) {
            (Some(t), Some(ts)) => Ok(WeatherReport { temperature_milli: t, unix_timestamp: ts }),
            _ => Err(ProviderError::Parse),
        }
    }

    /// Reads a current-conditions response body: the report is built from
    /// the first `data` entry.
    pub fn parse_report_from_raw_json(text: &str) -> (r: Result<WeatherReport, ProviderError>)
        ensures
            r == spec_current_outcome(text@),
    {
        match json::parse_json(text) {
            Some(document) => Self::report_from_current_json(&document),
            None => Err(ProviderError::Transport),
        }
    }

    /// Builds the report from the first `data` entry of a parsed document.
    pub fn report_from_current_json(document: &Json) -> (r: Result<WeatherReport, ProviderError>)
        ensures
            r == spec_current_report(*document),
    {
        let entries = match json::obj_get(document, "data") {
            Some(d) => json::arr_elems(d),
            None => None,
        };
        match entries {
            Some(items) => {
                if items.len() > 0 {
                    Self::parse_report_from_weatherbit_json_struct(&items[0])
                } else {
                    Err(ProviderError::Parse)
                }
            },
            None => Err(ProviderError::Parse),
        }
    }

    /// Reads a forecast response body: every `data` entry becomes a report,
    /// in the provider's chronological order.
    pub fn parse_report_array_from_raw_json(text: &str) -> (r: Result<
        Vec<WeatherReport>,
        ProviderError,
    >)
        ensures
            match spec_array_outcome(text@) {
                Ok(s) => r matches Ok(v) && v@ == s,
                Err(e) => r matches Err(e2) && e2 == e,
            },
    {
        match json::parse_json(text) {
            Some(document) => Self::reports_from_array_json(&document),
            None => Err(ProviderError::Transport),
        }
    }

    /// Builds the report list from the `data` array of a parsed document.
    pub fn reports_from_array_json(document: &Json) -> (r: Result<Vec<WeatherReport>, ProviderError>)
        ensures
            match spec_report_array(*document) {
                Ok(s) => r matches Ok(v) && v@ == s,
                Err(e) => r matches Err(e2) && e2 == e,
            },
    {
        let entries = match json::obj_get(document, "data") {
            Some(d) => json::arr_elems(d),
            None => None,
        };
        match entries {
            Some(items) => {
                let n = items.len();
                let mut reports: Vec<WeatherReport> = Vec::new();
                let mut i: usize = 0;
                proof {
                    assert(items@.take(0) =~= Seq::<Json>::empty());
                }
                while i < n
                    invariant
                        0 <= i <= n,
                        n == items@.len(),
                        spec_report_array(*document) == (match spec_reports_from_entries(items@) {
                            Some(rs) => Ok::<Seq<WeatherReport>, ProviderError>(rs),
                            None => Err(ProviderError::Parse),
                        }),
                        spec_reports_from_entries(items@.take(i as int)) == Some(reports@),
                    decreases n - i,
                {
                    proof {
                        assert(items@.take(i + 1).drop_last() =~= items@.take(i as int));
                        assert(items@.take(i + 1).last() == items@[i as int]);
                    }
                    match Self::parse_report_from_weatherbit_json_struct(&items[i]) {
                        Ok(report) => reports.push(report),
                        Err(e) => {
                            proof {
                                lemma_entry_error_poisons(items@, i as int);
                            }
                            return Err(e);
                        },
                    }
                    i = i + 1;
                }
                proof {
                    assert(items@.take(n as int) =~= items@);
                }
                Ok(reports)
            },
            None => Err(ProviderError::Parse),
        }
    }

    /// Reads a forecast response body and holds it to the requested window:
    /// the series is cut down to `days_count` entries, and a provider that
    /// answered with fewer days than requested is a parse failure.
    pub fn forecast_series_from_raw_json(text: &str, days_count: usize) -> (r: Result<
        Vec<WeatherReport>,
        ProviderError,
    >)
        ensures
            match spec_forecast_outcome(text@, days_count as int) {
                Ok(s) => r matches Ok(v) && v@ == s,
                Err(e) => r matches Err(e2) && e2 == e,
            },
    {
        match Self::parse_report_array_from_raw_json(text) {
            Ok(mut series) => {
                if series.len() < days_count {
                    Err(ProviderError::Parse)
                } else {
                    series.truncate(days_count);
                    Ok(series)
                }
            },
            Err(e) => Err(e),
        }
    }
}

/// Reading of one `data` entry: the temperature stands under `temp`, the
/// observation time under `ts`; a missing field, a non-number, or a value
/// out of range is a parse failure.
pub open spec fn spec_report_from_entry(j: Json) -> Result<WeatherReport, ProviderError> {
    match (json::spec_num_text_at(j, "temp"@), json::spec_num_text_at(j, "ts"@)) {
        (Some(tt), Some(st)) => match (numbers::spec_parse_milli(tt), numbers::spec_parse_i64(st)) {
            (Some(t), Some(ts)) => Ok(
                WeatherReport { temperature_milli: t as i64, unix_timestamp: ts as i64 },
            ),
            _ => Err(ProviderError::Parse),
        },
        _ => Err(ProviderError::Parse),
    }
}

/// Reading of a current-conditions document: the report of the first `data`
/// entry.
pub open spec fn spec_current_report(j: Json) -> Result<WeatherReport, ProviderError> {
    match json::spec_obj_get(j, "data"@) {
        Some(d) => match json::spec_arr_elems(d) {
            Some(items) => if items.len() > 0 {
                spec_report_from_entry(items[0])
            } else {
                Err(ProviderError::Parse)
            },
            None => Err(ProviderError::Parse),
        },
        None => Err(ProviderError::Parse),
    }
}

/// Reading of a current-conditions response body: a body that is not JSON
/// is a transport failure; otherwise the document is read.
pub open spec fn spec_current_outcome(text: Seq<char>) -> Result<WeatherReport, ProviderError> {
    match json::json_of(text) {
        Some(j) => spec_current_report(j),
        None => Err(ProviderError::Transport),
    }
}

/// The reports of a list of `data` entries, each read by
/// [`spec_report_from_entry`]; `None` as soon as any entry fails.
pub open spec fn spec_reports_from_entries(items: Seq<Json>) -> Option<Seq<WeatherReport>>
    decreases items.len(),
{
    if items.len() == 0 {
        Some(Seq::empty())
    } else {
        match (spec_reports_from_entries(items.drop_last()), spec_report_from_entry(
            items.last(),
        )) {
            (Some(rs), Ok(r)) => Some(rs.push(r)),
            _ => None,
        }
    }
}

/// Reading of a forecast document: every `data` entry becomes a report.
pub open spec fn spec_report_array(j: Json) -> Result<Seq<WeatherReport>, ProviderError> {
    match json::spec_obj_get(j, "data"@) {
        Some(d) => match json::spec_arr_elems(d) {
            Some(items) => match spec_reports_from_entries(items) {
                Some(rs) => Ok(rs),
                None => Err(ProviderError::Parse),
            },
            None => Err(ProviderError::Parse),
        },
        None => Err(ProviderError::Parse),
    }
}

/// Reading of a forecast response body: a body that is not JSON is a
/// transport failure; otherwise every `data` entry becomes a report.
pub open spec fn spec_array_outcome(text: Seq<char>) -> Result<Seq<WeatherReport>, ProviderError> {
    match json::json_of(text) {
        Some(j) => spec_report_array(j),
        None => Err(ProviderError::Transport),
    }
}

/// Reading of a forecast response body held to a window of `days` days:
/// the parsed series cut down to `days` entries, a parse failure when the
/// provider answered with fewer.
pub open spec fn spec_forecast_outcome(text: Seq<char>, days: int) -> Result<
    Seq<WeatherReport>,
    ProviderError,
> {
    match json::json_of(text) {
        Some(j) => match spec_report_array(j) {
            Ok(rs) => if rs.len() >= days {
                Ok(rs.take(days))
            } else {
                Err(ProviderError::Parse)
            },
            Err(e) => Err(e),
        },
        None => Err(ProviderError::Transport),
    }
}

/// One failing entry keeps the whole list from being read.
proof fn lemma_entry_error_poisons(items: Seq<Json>, k: int)
    requires
        0 <= k < items.len(),
        spec_report_from_entry(items[k]) is Err,
    ensures
        spec_reports_from_entries(items) is None,
    decreases items.len(),
{
    if k < items.len() - 1 {
        lemma_entry_error_poisons(items.drop_last(), k);
    }
}

} // verus!
