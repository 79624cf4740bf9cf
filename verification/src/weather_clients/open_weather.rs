//! The OpenWeather provider client.
//!
//! Current conditions come from the `weather` endpoint, with the temperature
//! under `main.temp` and the observation time under `dt`.  The provider has
//! no forecast-by-count endpoint: a forecast first resolves the city's
//! coordinates out of the current-conditions answer (`coord.lat`,
//! `coord.lon`) and then asks the `onecall` endpoint for its daily series,
//! one entry per day under `daily`, the temperature under `temp.day` and the
//! observation time under `dt`.

use vstd::prelude::*;

use crate::WeatherReport;
use crate::json;
use crate::json::Json;
use crate::numbers;
use crate::strings;
use crate::weather_aggregator::ProviderError;

verus! {

/// The production endpoint prefix.
pub const API_PATH_PREFIX: &'static str = "http://api.openweathermap.org/data/2.5";

/// Client for the OpenWeather provider: holds the API key and the endpoint
/// prefix that request paths are built from.
pub struct OpenWeather {
    api_key: String,
    api_path_prefix: String,
}

impl OpenWeather {
    /// The key sent with every request.
    pub closed spec fn api_key(self) -> Seq<char> {
        self.api_key@
    }

    /// The endpoint prefix that request paths start with.
    pub closed spec fn api_path_prefix(self) -> Seq<char> {
        self.api_path_prefix@
    }

    /// A client against the production endpoint.
    pub fn new(api_key: String) -> (r: Self)
        ensures
            r.api_key() == api_key@,
            r.api_path_prefix() == API_PATH_PREFIX@,
    {
        Self { api_key, api_path_prefix: API_PATH_PREFIX.to_owned() }
    }

    /// A client against another endpoint, such as a local stand-in.
    pub fn new_with_prefix(api_key: String, api_path_prefix: String) -> (r: Self)
        ensures
            r.api_key() == api_key@,
            r.api_path_prefix() == api_path_prefix@,
    {
        Self { api_key, api_path_prefix }
    }

    /// The request path for current conditions in `city_name`.
    pub fn current_url(&self, city_name: &str) -> (u: String)
        ensures
            u@ == self.api_path_prefix() + "/weather?APPID="@ + self.api_key() + "&q="@
                + city_name@ + "&units=metric"@,
    {
        let mut u = String::new();
        u.push_str(self.api_path_prefix.as_str());
        u.push_str("/weather?APPID=");
        u.push_str(self.api_key.as_str());
        u.push_str("&q=");
        u.push_str(city_name);
        u.push_str("&units=metric");
        proof {
            assert(u@ =~= self.api_path_prefix() + "/weather?APPID="@ + self.api_key() + "&q="@
                + city_name@ + "&units=metric"@);
        }
        u
    }

    /// The request path for the one-call daily forecast at the coordinates
    /// `lat` and `lon`, given as the decimal texts the provider itself
    /// answered with.
    pub fn onecall_url(&self, lat: &str, lon: &str) -> (u: String)
        ensures
            u@ == self.api_path_prefix() + "/onecall?APPID="@ + self.api_key() + "&lat="@ + lat@
                + "&lon="@ + lon@ + "&units=metric&&exclude=current,minutely,hourly"@,
    {
        let mut u = String::new();
        u.push_str(self.api_path_prefix.as_str());
        u.push_str("/onecall?APPID=");
        u.push_str(self.api_key.as_str());
        u.push_str("&lat=");
        u.push_str(lat);
        u.push_str("&lon=");
        u.push_str(lon);
        u.push_str("&units=metric&&exclude=current,minutely,hourly");
        proof {
            assert(u@ =~= self.api_path_prefix() + "/onecall?APPID="@ + self.api_key() + "&lat="@
                + lat@ + "&lon="@ + lon@ + "&units=metric&&exclude=current,minutely,hourly"@);
        }
        u
    }

    /// Builds the canonical report out of a current-conditions document:
    /// temperature under `main.temp`, observation time under `dt`.
    pub fn parse_report_from_open_weather_current_json_struct(data: &Json) -> (r: Result<
        WeatherReport,
        ProviderError,
    >)
        ensures
            r == spec_current_report(*data),
    {
        let temperature = match json::obj_get(data, "main") {
            Some(main) => match json::num_text_at(main, "temp") {
                Some(text) => numbers::parse_milli(text.as_slice()),
                None => None,
            },
            None => None,
        };
        let timestamp = match json::num_text_at(data, "dt") {
            Some(text) => numbers::parse_i64(text.as_slice()),
            None => None,
        };
        match (temperature, timestamp) {
            (Some(t), Some(ts)) => Ok(WeatherReport { temperature_milli: t, unix_timestamp: ts }),
            _ => Err(ProviderError::Parse),
        }
    }

    /// Builds the canonical report out of one `daily` entry of a one-call
    /// document: temperature under `temp.day`, observation time under `dt`.
    pub fn parse_report_from_open_weather_onecall_json_struct(data: &Json) -> (r: Result<
        WeatherReport,
        ProviderError,
    >)
        ensures
            r == spec_onecall_entry(*data),
    {
        let temperature = match json::obj_get(data, "temp") {
            Some(t) => match json::num_text_at(t, "day") {
                Some(text) => numbers::parse_milli(text.as_slice()),
                None => None,
            },
            None => None,
        };
        let timestamp = match json::num_text_at(data, "dt") {
            Some(text) => numbers::parse_i64(text.as_slice()),
            None => None,
        };
        match (temperature, timestamp) {
            (Some(t), Some(ts)) => Ok(WeatherReport { temperature_milli: t, unix_timestamp: ts }),
            _ => Err(ProviderError::Parse),
        }
    }

    /// Reads a current-conditions response body.
    pub fn parse_report_from_raw_json(text: &str) -> (r: Result<WeatherReport, ProviderError>)
        ensures
            r == spec_current_outcome(text@),
    {
        match json::parse_json(text) {
            Some(document) => Self::parse_report_from_open_weather_current_json_struct(&document),
            None => Err(ProviderError::Transport),
        }
    }

    /// Reads the city coordinates out of a parsed current-conditions
    /// document: the decimal texts under `coord.lat` and `coord.lon`,
    /// spelled back as strings for the one-call request path.
    pub fn coords_from_current_json(document: &Json) -> (r: Result<(String, String), ProviderError>)
        ensures
            match spec_coords(*document) {
                Ok(c) => r matches Ok(p) && p.0@ == strings::chars_of_ascii(c.0) && p.1@
                    == strings::chars_of_ascii(c.1),
                Err(e) => r matches Err(e2) && e2 == e,
            },
    {
        let coord = match json::obj_get(document, "coord") {
            Some(c) => c,
            None => {
                return Err(ProviderError::Parse);
            },
        };
        let lat = match json::num_text_at(coord, "lat") {
            Some(text) => text,
            None => {
                return Err(ProviderError::Parse);
            },
        };
        let lon = match json::num_text_at(coord, "lon") {
            Some(text) => text,
            None => {
                return Err(ProviderError::Parse);
            },
        };
        if !all_ascii(lat.as_slice()) || !all_ascii(lon.as_slice()) {
            return Err(ProviderError::Parse);
        }
        Ok((strings::ascii_string(lat.as_slice()), strings::ascii_string(lon.as_slice())))
    }

    /// Reads the city coordinates out of a current-conditions response
    /// body.
    pub fn coords_from_raw_json(text: &str) -> (r: Result<(String, String), ProviderError>)
        ensures
            match spec_coords_outcome(text@) {
                Ok(c) => r matches Ok(p) && p.0@ == strings::chars_of_ascii(c.0) && p.1@
                    == strings::chars_of_ascii(c.1),
                Err(e) => r matches Err(e2) && e2 == e,
            },
    {
        match json::parse_json(text) {
            Some(document) => Self::coords_from_current_json(&document),
            None => Err(ProviderError::Transport),
        }
    }

    /// Reads a one-call response body: every `daily` entry becomes a
    /// report, in the provider's chronological order.
    pub fn parse_report_array_from_raw_json(text: &str) -> (r: Result<
        Vec<WeatherReport>,
        ProviderError,
    >)
        ensures
            match spec_array_outcome(text@) {
                Ok(s) => r matches Ok(v) && v@ == s,
                Err(e) => r matches Err(e2) && e2 == e,
            },
    {
        match json::parse_json(text) {
            Some(document) => Self::reports_from_onecall_json(&document),
            None => Err(ProviderError::Transport),
        }
    }

    /// Builds the report list from the `daily` array of a parsed one-call
    /// document.
    pub fn reports_from_onecall_json(document: &Json) -> (r: Result<Vec<WeatherReport>, ProviderError>)
        ensures
            match spec_report_array(*document) {
                Ok(s) => r matches Ok(v) && v@ == s,
                Err(e) => r matches Err(e2) && e2 == e,
            },
    {
        let entries = match json::obj_get(document, "daily") {
            Some(d) => json::arr_elems(d),
            None => None,
        };
        match entries {
            Some(items) => {
                let n = items.len();
                let mut reports: Vec<WeatherReport> = Vec::new();
                let mut i: usize = 0;
                proof {
                    assert(items@.take(0) =~= Seq::<Json>::empty());
                }
                while i < n
                    invariant
                        0 <= i <= n,
                        n == items@.len(),
                        spec_report_array(*document) == (match spec_reports_from_entries(items@) {
                            Some(rs) => Ok::<Seq<WeatherReport>, ProviderError>(rs),
                            None => Err(ProviderError::Parse),
                        }),
                        spec_reports_from_entries(items@.take(i as int)) == Some(reports@),
                    decreases n - i,
                {
                    proof {
                        assert(items@.take(i + 1).drop_last() =~= items@.take(i as int));
                        assert(items@.take(i + 1).last() == items@[i as int]);
                    }
                    match Self::parse_report_from_open_weather_onecall_json_struct(&items[i]) {
                        Ok(report) => reports.push(report),
                        Err(e) => {
                            proof {
                                lemma_entry_error_poisons(items@, i as int);
                            }
                            return Err(e);
                        },
                    }
                    i = i + 1;
                }
                proof {
                    assert(items@.take(n as int) =~= items@);
                }
                Ok(reports)
            },
            None => Err(ProviderError::Parse),
        }
    }

    /// Reads a one-call response body and holds it to the requested window:
    /// the daily series is cut down to `days_count` entries, and a provider
    /// that answered with fewer days than requested is a parse failure.
    pub fn forecast_series_from_raw_json(text: &str, days_count: usize) -> (r: Result<
        Vec<WeatherReport>,
        ProviderError,
    >)
        ensures
            match spec_forecast_outcome(text@, days_count as int) {
                Ok(s) => r matches Ok(v) && v@ == s,
                Err(e) => r matches Err(e2) && e2 == e,
            },
    {
        match Self::parse_report_array_from_raw_json(text) {
            Ok(mut series) => {
                if series.len() < days_count {
                    Err(ProviderError::Parse)
                } else {
                    series.truncate(days_count);
                    Ok(series)
                }
            },
            Err(e) => Err(e),
        }
    }
}

/// Whether every byte is ASCII.
fn all_ascii(v: &[u8]) -> (r: bool)
    ensures
        r == forall|i: int| 0 <= i < v@.len() ==> v@[i] < 128,
{
    let n = v.len();
    let mut i: usize = 0;
    while i < n
        invariant
            0 <= i <= n,
            n == v@.len(),
            forall|k: int| 0 <= k < i ==> v@[k] < 128,
        decreases n - i,
    {
        if v[i] >= 128 {
            return false;
        }
        i = i + 1;
    }
    true
}

/// Reading of a current-conditions document: the temperature stands under
/// `main.temp`, the observation time under `dt`; a missing field, a
/// non-number, or a value out of range is a parse failure.
pub open spec fn spec_current_report(j: Json) -> Result<WeatherReport, ProviderError> {
    let temp = match json::spec_obj_get(j, "main"@) {
        Some(main) => json::spec_num_text_at(main, "temp"@),
        None => None,
    };
    match (temp, json::spec_num_text_at(j, "dt"@)) {
        (Some(tt), Some(st)) => match (numbers::spec_parse_milli(tt), numbers::spec_parse_i64(st)) {
            (Some(t), Some(ts)) => Ok(
                WeatherReport { temperature_milli: t as i64, unix_timestamp: ts as i64 },
            ),
            _ => Err(ProviderError::Parse),
        },
        _ => Err(ProviderError::Parse),
    }
}

/// Reading of one `daily` entry of a one-call document: the temperature
/// stands under `temp.day`, the observation time under `dt`.
pub open spec fn spec_onecall_entry(j: Json) -> Result<WeatherReport, ProviderError> {
    let temp = match json::spec_obj_get(j, "temp"@) {
        Some(t) => json::spec_num_text_at(t, "day"@),
        None => None,
    };
    match (temp, json::spec_num_text_at(j, "dt"@)) {
        (Some(tt), Some(st)) => match (numbers::spec_parse_milli(tt), numbers::spec_parse_i64(st)) {
            (Some(t), Some(ts)) => Ok(
                WeatherReport { temperature_milli: t as i64, unix_timestamp: ts as i64 },
            ),
            _ => Err(ProviderError::Parse),
        },
        _ => Err(ProviderError::Parse),
    }
}

/// Reading of a current-conditions response body.
pub open spec fn spec_current_outcome(text: Seq<char>) -> Result<WeatherReport, ProviderError> {
    match json::json_of(text) {
        Some(j) => spec_current_report(j),
        None => Err(ProviderError::Transport),
    }
}

/// Reading of the coordinates of a current-conditions document: the decimal
/// texts under `coord.lat` and `coord.lon`; both must be ASCII number
/// texts.
pub open spec fn spec_coords(j: Json) -> Result<(Seq<u8>, Seq<u8>), ProviderError> {
    match json::spec_obj_get(j, "coord"@) {
        Some(coord) => match (json::spec_num_text_at(coord, "lat"@), json::spec_num_text_at(
            coord,
            "lon"@,
        )) {
            (Some(lat), Some(lon)) => if (forall|i: int| 0 <= i < lat.len() ==> lat[i] < 128) && (
            forall|i: int| 0 <= i < lon.len() ==> lon[i] < 128) {
                Ok((lat, lon))
            } else {
                Err(ProviderError::Parse)
            },
            _ => Err(ProviderError::Parse),
        },
        None => Err(ProviderError::Parse),
    }
}

/// Reading of the coordinates of a current-conditions response body.
pub open spec fn spec_coords_outcome(text: Seq<char>) -> Result<(Seq<u8>, Seq<u8>), ProviderError> {
    match json::json_of(text) {
        Some(j) => spec_coords(j),
        None => Err(ProviderError::Transport),
    }
}

/// The reports of a list of `daily` entries, each read by
/// [`spec_onecall_entry`]; `None` as soon as any entry fails.
pub open spec fn spec_reports_from_entries(items: Seq<Json>) -> Option<Seq<WeatherReport>>
    decreases items.len(),
{
    if items.len() == 0 {
        Some(Seq::empty())
    } else {
        match (spec_reports_from_entries(items.drop_last()), spec_onecall_entry(items.last())) {
            (Some(rs), Ok(r)) => Some(rs.push(r)),
            _ => None,
        }
    }
}

/// Reading of a one-call document: every `daily` entry becomes a report.
pub open spec fn spec_report_array(j: Json) -> Result<Seq<WeatherReport>, ProviderError> {
    match json::spec_obj_get(j, "daily"@) {
        Some(d) => match json::spec_arr_elems(d) {
            Some(items) => match spec_reports_from_entries(items) {
                Some(rs) => Ok(rs),
                None => Err(ProviderError::Parse),
            },
            None => Err(ProviderError::Parse),
        },
        None => Err(ProviderError::Parse),
    }
}

/// Reading of a one-call response body.
pub open spec fn spec_array_outcome(text: Seq<char>) -> Result<Seq<WeatherReport>, ProviderError> {
    match json::json_of(text) {
        Some(j) => spec_report_array(j),
        None => Err(ProviderError::Transport),
    }
}

/// Reading of a one-call response body held to a window of `days` days:
/// the parsed series cut down to `days` entries, a parse failure when the
/// provider answered with fewer.
pub open spec fn spec_forecast_outcome(text: Seq<char>, days: int) -> Result<
    Seq<WeatherReport>,
    ProviderError,
> {
    match json::json_of(text) {
        Some(j) => match spec_report_array(j) {
            Ok(rs) => if rs.len() >= days {
                Ok(rs.take(days))
            } else {
                Err(ProviderError::Parse)
            },
            Err(e) => Err(e),
        },
        None => Err(ProviderError::Transport),
    }
}

/// One failing entry keeps the whole list from being read.
proof fn lemma_entry_error_poisons(items: Seq<Json>, k: int)
    requires
        0 <= k < items.len(),
        spec_onecall_entry(items[k]) is Err,
    ensures
        spec_reports_from_entries(items) is None,
    decreases items.len(),
{
    if k < items.len() - 1 {
        lemma_entry_error_poisons(items.drop_last(), k);
    }
}

} // verus!
