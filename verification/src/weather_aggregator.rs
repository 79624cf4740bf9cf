//! The running aggregator and the aggregation policy.
//!
//! Reports are folded one at a time through [`AverageWeatherReport`], which
//! keeps only component sums and a count, so memory stays constant however
//! many reports arrive and the result is exact: the mean of what was folded,
//! each component rounded toward negative infinity.  The policy functions
//! below combine the outcomes of the individual providers: whichever subset
//! of them answered, at least one answer suffices, and only the case where
//! every provider failed is an error.

use vstd::prelude::*;

use crate::WeatherReport;
use crate::numbers::floor_div_i128;
use crate::weather_clients::open_weather;
use crate::weather_clients::open_weather::OpenWeather;
use crate::weather_clients::weatherbit;
use crate::weather_clients::weatherbit::Weatherbit;

verus! {

/// The OpenWeather participant of the fan-out, keyed with `api_key`,
/// against the production endpoint.
pub fn open_weather_client(api_key: String) -> (r: OpenWeather)
    ensures
        r.api_key() == api_key@,
        r.api_path_prefix() == open_weather::API_PATH_PREFIX@,
{
    OpenWeather::new(api_key)
}

/// The Weatherbit participant of the fan-out, keyed with `api_key`, against
/// the production endpoint.
pub fn weatherbit_client(api_key: String) -> (r: Weatherbit)
    ensures
        r.api_key() == api_key@,
        r.api_path_prefix() == weatherbit::API_PATH_PREFIX@,
{
    Weatherbit::new(api_key)
}

/// Component sums of a sequence of reports: all temperatures, and all
/// timestamps.
pub open spec fn report_sums(s: Seq<WeatherReport>) -> (int, int)
    decreases s.len(),
{
    if s.len() == 0 {
        (0, 0)
    } else {
        let rest = report_sums(s.drop_last());
        (rest.0 + s.last().temperature_milli, rest.1 + s.last().unix_timestamp)
    }
}

/// The mean of a nonempty sequence of reports: each component is the sum
/// over the sequence divided by its length, rounded toward negative
/// infinity.
pub open spec fn spec_average(s: Seq<WeatherReport>) -> WeatherReport
    recommends
        s.len() > 0,
{
    WeatherReport {
        temperature_milli: (report_sums(s).0 / s.len() as int) as i64,
        unix_timestamp: (report_sums(s).1 / s.len() as int) as i64,
    }
}

/// Streaming mean accumulator: ingests reports one at a time and yields the
/// mean report at any point, without materializing the set.
pub struct AverageWeatherReport {
    temperature_sum: i128,
    timestamp_sum: i128,
    count: u64,
}

impl AverageWeatherReport {
    /// Sum of the temperatures folded in so far.
    pub closed spec fn temperature_total(self) -> int {
        self.temperature_sum as int
    }

    /// Sum of the timestamps folded in so far.
    pub closed spec fn timestamp_total(self) -> int {
        self.timestamp_sum as int
    }

    /// How many reports have been folded in.
    pub closed spec fn count(self) -> nat {
        self.count as nat
    }

    /// The sums never exceed what `count` reports can contribute.
    pub closed spec fn wf(self) -> bool {
        &&& self.count as int * i64::MIN <= self.temperature_sum as int <= self.count as int
            * i64::MAX
        &&& self.count as int * i64::MIN <= self.timestamp_sum as int <= self.count as int
            * i64::MAX
    }

    /// A fresh accumulator with nothing folded in.
    pub fn new() -> (r: AverageWeatherReport)
        ensures
            r.wf(),
            r.count() == 0,
            r.temperature_total() == 0,
            r.timestamp_total() == 0,
    {
        AverageWeatherReport { temperature_sum: 0, timestamp_sum: 0, count: 0 }
    }

    /// Folds one more report into the running sums.
    pub fn add(&mut self, weather_report: WeatherReport)
        requires
            old(self).wf(),
            old(self).count() < u64::MAX,
        ensures
            final(self).wf(),
            final(self).count() == old(self).count() + 1,
            final(self).temperature_total() == old(self).temperature_total()
                + weather_report.temperature_milli,
            final(self).timestamp_total() == old(self).timestamp_total()
                + weather_report.unix_timestamp,
    {
        proof {
            let c = self.count as int;
            assert((c + 1) * i64::MIN == c * i64::MIN + i64::MIN && (c + 1) * i64::MAX == c
                * i64::MAX + i64::MAX) by (nonlinear_arith);
            assert(c * i64::MIN >= u64::MAX as int * i64::MIN && c * i64::MAX <= u64::MAX as int
                * i64::MAX) by (nonlinear_arith)
                requires
                    0 <= c <= u64::MAX as int,
            ;
        }
        self.temperature_sum = self.temperature_sum + weather_report.temperature_milli as i128;
        self.timestamp_sum = self.timestamp_sum + weather_report.unix_timestamp as i128;
        self.count = self.count + 1;
    }

    /// The mean of everything folded in so far: each component sum divided
    /// by the count, rounded toward negative infinity.
    pub fn mean(&self) -> (r: WeatherReport)
        requires
            self.wf(),
            self.count() > 0,
        ensures
            r.temperature_milli == self.temperature_total() / self.count() as int,
            r.unix_timestamp == self.timestamp_total() / self.count() as int,
    {
        proof {
            let c = self.count as int;
            assert(c * i64::MIN > i128::MIN && c * i64::MAX < i128::MAX) by (nonlinear_arith)
                requires
                    0 < c <= u64::MAX as int,
            ;
            lemma_sum_mean_in_range(self.temperature_total(), c);
            lemma_sum_mean_in_range(self.timestamp_total(), c);
        }
        let t = floor_div_i128(self.temperature_sum, self.count as i128);
        let ts = floor_div_i128(self.timestamp_sum, self.count as i128);
        WeatherReport { temperature_milli: t as i64, unix_timestamp: ts as i64 }
    }
}

/// A sum bounded by `c` extreme contributions has a mean within `i64`
/// range.
proof fn lemma_sum_mean_in_range(sum: int, c: int)
    requires
        c > 0,
        c * i64::MIN <= sum <= c * i64::MAX,
    ensures
        i64::MIN <= sum / c <= i64::MAX,
{
    vstd::arithmetic::div_mod::lemma_div_is_ordered(c * i64::MIN, sum, c);
    vstd::arithmetic::div_mod::lemma_div_is_ordered(sum, c * i64::MAX, c);
    vstd::arithmetic::div_mod::lemma_div_multiples_vanish(i64::MIN as int, c);
    vstd::arithmetic::div_mod::lemma_div_multiples_vanish(i64::MAX as int, c);
}

/// Folds every report of `reports` through a fresh accumulator and reads
/// back the mean.
pub fn average_report(reports: Vec<WeatherReport>) -> (r: WeatherReport)
    requires
        reports@.len() > 0,
    ensures
        r == spec_average(reports@),
{
    let mut average = AverageWeatherReport::new();
    let n = reports.len();
    let mut i: usize = 0;
    while i < n
        invariant
            0 <= i <= n,
            n == reports@.len(),
            average.wf(),
            average.count() == i as nat,
            average.temperature_total() == report_sums(reports@.take(i as int)).0,
            average.timestamp_total() == report_sums(reports@.take(i as int)).1,
        decreases n - i,
    {
        proof {
            assert(reports@.take(i + 1).drop_last() =~= reports@.take(i as int));
            assert(reports@.take(i + 1).last() == reports@[i as int]);
        }
        average.add(reports[i]);
        i = i + 1;
    }
    proof {
        assert(reports@.take(n as int) =~= reports@);
    }
    average.mean()
}

// --- What the mean satisfies -----------------------------------------------

/// Removing element `i` takes exactly its contribution out of the sums.
proof fn lemma_report_sums_remove(s: Seq<WeatherReport>, i: int)
    requires
        0 <= i < s.len(),
    ensures
        report_sums(s.remove(i)).0 == report_sums(s).0 - s[i].temperature_milli,
        report_sums(s.remove(i)).1 == report_sums(s).1 - s[i].unix_timestamp,
    decreases s.len(),
{
    if i == s.len() - 1 {
        assert(s.remove(i) =~= s.drop_last());
    } else {
        assert(s.remove(i).drop_last() =~= s.drop_last().remove(i));
        assert(s.remove(i).last() == s.last());
        lemma_report_sums_remove(s.drop_last(), i);
    }
}

/// The sums of a sequence of reports depend only on which reports it holds,
/// not on their order.
pub proof fn lemma_report_sums_permutation(s1: Seq<WeatherReport>, s2: Seq<WeatherReport>)
    requires
        s1.to_multiset() == s2.to_multiset(),
    ensures
        report_sums(s1) == report_sums(s2),
    decreases s1.len(),
{
    broadcast use vstd::seq_lib::group_to_multiset_ensures;

    if s1.len() == 0 {
        assert(s2.to_multiset().len() == 0);
        assert(s2 =~= Seq::<WeatherReport>::empty());
    } else {
        let x = s1.last();
        let s1p = s1.drop_last();
        assert(s1p.push(x) =~= s1);
        assert(s1.to_multiset() == s1p.to_multiset().insert(x));
        assert(s1.to_multiset().count(x) > 0);
        assert(s2.contains(x));
        let j = choose|j: int| 0 <= j < s2.len() && s2[j] == x;
        assert(s2.remove(j).to_multiset() == s2.to_multiset().remove(x));
        assert(s1p.to_multiset() =~= s2.remove(j).to_multiset());
        lemma_report_sums_permutation(s1p, s2.remove(j));
        lemma_report_sums_remove(s2, j);
    }
}

/// The mean of a single report is that report, temperature and timestamp
/// unchanged.
pub proof fn lemma_average_single(r: WeatherReport)
    ensures
        spec_average(seq![r]) == r,
{
    assert(seq![r].drop_last() =~= Seq::<WeatherReport>::empty());
    assert(report_sums(Seq::<WeatherReport>::empty()) == (0int, 0int));
    assert(seq![r].last() == r);
    assert(report_sums(seq![r]).0 == r.temperature_milli);
    assert(report_sums(seq![r]).1 == r.unix_timestamp);
    vstd::arithmetic::div_mod::lemma_fundamental_div_mod_converse(
        r.temperature_milli as int,
        1,
        r.temperature_milli as int,
        0,
    );
    vstd::arithmetic::div_mod::lemma_fundamental_div_mod_converse(
        r.unix_timestamp as int,
        1,
        r.unix_timestamp as int,
        0,
    );
}

/// `n` copies of one report sum to `n` times its components.
proof fn lemma_report_sums_identical(s: Seq<WeatherReport>, r: WeatherReport)
    requires
        forall|i: int| 0 <= i < s.len() ==> s[i] == r,
    ensures
        report_sums(s).0 == s.len() * r.temperature_milli,
        report_sums(s).1 == s.len() * r.unix_timestamp,
    decreases s.len(),
{
    if s.len() > 0 {
        lemma_report_sums_identical(s.drop_last(), r);
        let n = s.len() as int;
        assert((n - 1) * r.temperature_milli + r.temperature_milli == n * r.temperature_milli
            && (n - 1) * r.unix_timestamp + r.unix_timestamp == n * r.unix_timestamp)
            by (nonlinear_arith);
    }
}

/// The mean of any number of identical reports is that report.
pub proof fn lemma_average_identical(s: Seq<WeatherReport>, r: WeatherReport)
    requires
        s.len() > 0,
        forall|i: int| 0 <= i < s.len() ==> s[i] == r,
    ensures
        spec_average(s) == r,
{
    lemma_report_sums_identical(s, r);
    vstd::arithmetic::div_mod::lemma_div_multiples_vanish(
        r.temperature_milli as int,
        s.len() as int,
    );
    vstd::arithmetic::div_mod::lemma_div_multiples_vanish(r.unix_timestamp as int, s.len() as int);
    assert(s.len() * r.temperature_milli == s.len() as int * r.temperature_milli);
    assert(report_sums(s).0 == s.len() as int * r.temperature_milli);
}

/// The mean does not depend on the order in which reports are folded:
/// sequences holding the same reports have the same mean.
pub proof fn lemma_average_permutation(s1: Seq<WeatherReport>, s2: Seq<WeatherReport>)
    requires
        s1.len() > 0,
        s1.to_multiset() == s2.to_multiset(),
    ensures
        spec_average(s1) == spec_average(s2),
{
    broadcast use vstd::seq_lib::group_to_multiset_ensures;

    lemma_report_sums_permutation(s1, s2);
    assert(s1.len() == s1.to_multiset().len());
    assert(s2.len() == s2.to_multiset().len());
}

// --- Positional aggregation of forecast series -----------------------------

/// The element sequences of a sequence of series.
pub open spec fn series_views(rows: Seq<Vec<WeatherReport>>) -> Seq<Seq<WeatherReport>> {
    rows.map_values(|row: Vec<WeatherReport>| row@)
}

/// Element `d` of every series, in provider order.
pub open spec fn spec_column(rows: Seq<Seq<WeatherReport>>, d: int) -> Seq<WeatherReport> {
    Seq::new(rows.len(), |i: int| rows[i][d])
}

/// Folds several same-length forecast series positionally: element `d` of
/// the result is the mean of element `d` of every series.
pub fn average_forecast_report(reports: Vec<Vec<WeatherReport>>) -> (r: Vec<WeatherReport>)
    requires
        reports@.len() > 0,
        forall|i: int|
            0 <= i < reports@.len() ==> (#[trigger] reports@[i])@.len() == reports@[0]@.len(),
    ensures
        r@.len() == reports@[0]@.len(),
        forall|d: int|
            0 <= d < r@.len() ==> r@[d] == spec_average(
                spec_column(series_views(reports@), d),
            ),
{
    let providers = reports.len();
    let days = reports[0].len();
    let mut result: Vec<WeatherReport> = Vec::new();
    let mut d: usize = 0;
    while d < days
        invariant
            0 <= d <= days,
            providers == reports@.len(),
            providers > 0,
            days == reports@[0]@.len(),
            forall|k: int| 0 <= k < reports@.len() ==> (#[trigger] reports@[k])@.len() == days,
            result@.len() == d,
            forall|dd: int|
                0 <= dd < d ==> result@[dd] == spec_average(
                    spec_column(series_views(reports@), dd),
                ),
        decreases days - d,
    {
        let mut average = AverageWeatherReport::new();
        let mut i: usize = 0;
        while i < providers
            invariant
                0 <= i <= providers,
                providers == reports@.len(),
                providers > 0,
                d < days,
                days == reports@[0]@.len(),
                forall|k: int| 0 <= k < reports@.len() ==> (#[trigger] reports@[k])@.len() == days,
                average.wf(),
                average.count() == i as nat,
                average.temperature_total() == report_sums(
                    spec_column(series_views(reports@), d as int).take(i as int),
                ).0,
                average.timestamp_total() == report_sums(
                    spec_column(series_views(reports@), d as int).take(i as int),
                ).1,
            decreases providers - i,
        {
            proof {
                let col = spec_column(series_views(reports@), d as int);
                assert(col.take(i + 1).drop_last() =~= col.take(i as int));
                assert(col.take(i + 1).last() == col[i as int]);
                assert(col[i as int] == reports@[i as int]@[d as int]);
            }
            average.add(reports[i][d]);
            i = i + 1;
        }
        proof {
            let col = spec_column(series_views(reports@), d as int);
            assert(col.take(providers as int) =~= col);
        }
        let day_mean = average.mean();
        proof {
            let col = spec_column(series_views(reports@), d as int);
            assert(day_mean == spec_average(col));
        }
        result.push(day_mean);
        d = d + 1;
    }
    result
}

// --- Provider outcomes and the aggregation policy --------------------------

/// How a single provider's call can fail.
#[derive(Clone, Copy, PartialEq, Eq, Structural, Debug)]
pub enum ProviderError {
    /// The provider could not be reached, answered with a failure status, or
    /// its answer was not well-formed JSON.
    Transport,
    /// The provider's answer is well-formed JSON but lacks a required field,
    /// or holds one of the wrong shape.
    Parse,
}

/// The message of the aggregate failure: every provider failed.
pub open spec fn no_data_message() -> Seq<char> {
    "Could not find weather data"@
}

/// The message returned when the providers that answered disagree on the
/// length of the forecast window.
pub open spec fn mismatched_series_message() -> Seq<char> {
    "Providers returned forecasts of mismatched length"@
}

/// The payloads of the outcomes that succeeded, in provider order.
pub open spec fn spec_successes<T>(outcomes: Seq<Result<T, ProviderError>>) -> Seq<T>
    decreases outcomes.len(),
{
    if outcomes.len() == 0 {
        Seq::empty()
    } else {
        let rest = spec_successes(outcomes.drop_last());
        match outcomes.last() {
            Ok(v) => rest.push(v),
            Err(_) => rest,
        }
    }
}

/// The outcome of aggregating current-weather reports: the mean of the
/// providers that answered, or the aggregate failure when none did.
pub open spec fn spec_aggregate_current(
    outcomes: Seq<Result<WeatherReport, ProviderError>>,
) -> Result<WeatherReport, Seq<char>> {
    let succ = spec_successes(outcomes);
    if succ.len() == 0 {
        Err(no_data_message())
    } else {
        Ok(spec_average(succ))
    }
}

/// Combines the current-weather outcomes of the providers.  Individual
/// failures are discarded; whichever subset answered, their reports are
/// folded into one mean report; only when no provider answered does the
/// whole aggregation fail, with a single opaque message.
pub fn aggregate_current_weather(outcomes: Vec<Result<WeatherReport, ProviderError>>) -> (r: Result<
    WeatherReport,
    String,
>)
    ensures
        match spec_aggregate_current(outcomes@) {
            Ok(w) => r matches Ok(v) && v == w,
            Err(m) => r matches Err(e) && e@ == m,
        },
{
    let mut reports: Vec<WeatherReport> = Vec::new();
    let n = outcomes.len();
    let mut i: usize = 0;
    proof {
        assert(outcomes@.take(0) =~= Seq::<Result<WeatherReport, ProviderError>>::empty());
    }
    while i < n
        invariant
            0 <= i <= n,
            n == outcomes@.len(),
            reports@ == spec_successes(outcomes@.take(i as int)),
        decreases n - i,
    {
        proof {
            assert(outcomes@.take(i + 1).drop_last() =~= outcomes@.take(i as int));
            assert(outcomes@.take(i + 1).last() == outcomes@[i as int]);
        }
        match outcomes[i] {
            Ok(w) => reports.push(w),
            Err(_) => (),
        }
        i = i + 1;
    }
    proof {
        assert(outcomes@.take(n as int) =~= outcomes@);
    }
    if reports.len() == 0 {
        Err("Could not find weather data".to_owned())
    } else {
        Ok(average_report(reports))
    }
}

/// A forecast folded from a single provider returns that provider's series
/// unchanged, element for element.
pub proof fn lemma_single_series_folds_to_itself(rows: Seq<Seq<WeatherReport>>, d: int)
    requires
        rows.len() == 1,
        0 <= d < rows[0].len(),
    ensures
        spec_average(spec_column(rows, d)) == rows[0][d],
{
    assert(spec_column(rows, d) =~= seq![rows[0][d]]);
    lemma_average_single(rows[0][d]);
}

/// The outcome of aggregating forecast series for a window of `days` days:
/// the positional mean of the series of the providers that answered; the
/// aggregate failure when none did; a distinct failure when the providers
/// that answered disagree with the requested window length.
pub open spec fn spec_aggregate_forecast(
    outcomes: Seq<Result<Vec<WeatherReport>, ProviderError>>,
    days: int,
) -> Result<Seq<WeatherReport>, Seq<char>>
    recommends
        days >= 0,
{
    let succ = series_views(spec_successes(outcomes));
    if succ.len() == 0 {
        Err(no_data_message())
    } else if exists|i: int| 0 <= i < succ.len() && (#[trigger] succ[i]).len() != days {
        Err(mismatched_series_message())
    } else {
        Ok(Seq::new(days as nat, |d: int| spec_average(spec_column(succ, d))))
    }
}

/// Combines the forecast outcomes of the providers for a window of
/// `days_count` days.  Individual failures are discarded; the series of the
/// providers that answered are folded positionally; when none answered, or
/// when the survivors do not all cover exactly the requested window, the
/// whole aggregation fails.
pub fn aggregate_forecast_weather(
    outcomes: Vec<Result<Vec<WeatherReport>, ProviderError>>,
    days_count: usize,
) -> (r: Result<Vec<WeatherReport>, String>)
    ensures
        match spec_aggregate_forecast(outcomes@, days_count as int) {
            Ok(s) => r matches Ok(v) && v@ == s,
            Err(m) => r matches Err(e) && e@ == m,
        },
{
    let mut collected: Vec<Vec<WeatherReport>> = Vec::new();
    let n = outcomes.len();
    let mut i: usize = 0;
    proof {
        assert(outcomes@.take(0) =~= Seq::<Result<Vec<WeatherReport>, ProviderError>>::empty());
    }
    while i < n
        invariant
            0 <= i <= n,
            n == outcomes@.len(),
            series_views(collected@) =~= series_views(spec_successes(outcomes@.take(i as int))),
        decreases n - i,
    {
        proof {
            assert(outcomes@.take(i + 1).drop_last() =~= outcomes@.take(i as int));
            assert(outcomes@.take(i + 1).last() == outcomes@[i as int]);
        }
        match &outcomes[i] {
            Ok(series) => {
                let copy = series.clone();
                let ghost prev = collected@;
                proof {
                    assert forall|k: int| 0 <= k < series@.len() implies copy@[k] == series@[k] by {
                        assert(cloned::<WeatherReport>(series@[k], copy@[k]));
                    }
                    assert(copy@ =~= series@);
                }
                collected.push(copy);
                proof {
                    assert(series_views(prev.push(copy)) =~= series_views(prev).push(copy@));
                    assert(series_views(spec_successes(outcomes@.take(i + 1))) =~= series_views(
                        spec_successes(outcomes@.take(i as int)),
                    ).push(series@));
                }
            },
            Err(_) => (),
        }
        i = i + 1;
    }
    proof {
        assert(outcomes@.take(n as int) =~= outcomes@);
    }
    let ghost succ = series_views(spec_successes(outcomes@));
    if collected.len() == 0 {
        return Err("Could not find weather data".to_owned());
    }
    let mut k: usize = 0;
    let m = collected.len();
    while k < m
        invariant
            0 <= k <= m,
            m == collected@.len(),
            m > 0,
            succ == series_views(spec_successes(outcomes@)),
            series_views(collected@) =~= succ,
            forall|kk: int| 0 <= kk < k ==> (#[trigger] succ[kk]).len() == days_count,
        decreases m - k,
    {
        if collected[k].len() != days_count {
            proof {
                assert(succ[k as int].len() != days_count);
            }
            return Err("Providers returned forecasts of mismatched length".to_owned());
        }
        k = k + 1;
    }
    proof {
        assert forall|i2: int| 0 <= i2 < collected@.len() implies (#[trigger] collected@[i2])@.len()
            == days_count by {
            assert(succ[i2] == collected@[i2]@);
        }
    }
    let r = average_forecast_report(collected);
    proof {
        assert(r@ =~= Seq::new(
            days_count as nat,
            |d: int| spec_average(spec_column(succ, d)),
        ));
    }
    Ok(r)
}

/// Derives one specific day: the forecast window sized to include day
/// `days_since` is aggregated, and element `days_since` of it is returned.
/// Any forecast failure propagates unchanged.
pub fn aggregate_specific_day_weather(
    outcomes: Vec<Result<Vec<WeatherReport>, ProviderError>>,
    days_since: usize,
) -> (r: Result<WeatherReport, String>)
    requires
        days_since < usize::MAX,
    ensures
        match spec_aggregate_forecast(outcomes@, days_since + 1) {
            Ok(s) => r matches Ok(w) && w == s[days_since as int],
            Err(m) => r matches Err(e) && e@ == m,
        },
{
    let forecast = aggregate_forecast_weather(outcomes, days_since + 1);
    match forecast {
        Ok(series) => Ok(series[days_since]),
        Err(e) => Err(e),
    }
}

// --- The policy's laws ------------------------------------------------------

/// Outcomes that all failed contribute no successes.
proof fn lemma_no_successes<T>(outcomes: Seq<Result<T, ProviderError>>)
    requires
        forall|i: int| 0 <= i < outcomes.len() ==> (#[trigger] outcomes[i]) is Err,
    ensures
        spec_successes(outcomes).len() == 0,
    decreases outcomes.len(),
{
    if outcomes.len() > 0 {
        lemma_no_successes(outcomes.drop_last());
    }
}

/// When every provider fails, aggregation yields the aggregate failure and
/// nothing else: no report, no empty success.
pub proof fn lemma_all_failed_is_aggregate_failure(
    outcomes: Seq<Result<WeatherReport, ProviderError>>,
)
    requires
        forall|i: int| 0 <= i < outcomes.len() ==> (#[trigger] outcomes[i]) is Err,
    ensures
        spec_aggregate_current(outcomes) == Err::<WeatherReport, Seq<char>>(no_data_message()),
{
    lemma_no_successes(outcomes);
}

/// A lone success among failures is the only success.
proof fn lemma_single_success<T>(outcomes: Seq<Result<T, ProviderError>>, i: int)
    requires
        0 <= i < outcomes.len(),
        outcomes[i] is Ok,
        forall|j: int| 0 <= j < outcomes.len() && j != i ==> (#[trigger] outcomes[j]) is Err,
    ensures
        spec_successes(outcomes) == seq![outcomes[i]->Ok_0],
    decreases outcomes.len(),
{
    if i == outcomes.len() - 1 {
        lemma_no_successes(outcomes.drop_last());
        assert(spec_successes(outcomes.drop_last()) =~= Seq::<T>::empty());
        assert(spec_successes(outcomes) =~= seq![outcomes[i]->Ok_0]);
    } else {
        lemma_single_success(outcomes.drop_last(), i);
        assert(outcomes.drop_last()[i] == outcomes[i]);
    }
}

/// Quorum of one: when exactly one provider succeeds, the aggregation
/// returns that provider's report unchanged.
pub proof fn lemma_quorum_of_one(outcomes: Seq<Result<WeatherReport, ProviderError>>, i: int)
    requires
        0 <= i < outcomes.len(),
        outcomes[i] is Ok,
        forall|j: int| 0 <= j < outcomes.len() && j != i ==> (#[trigger] outcomes[j]) is Err,
    ensures
        spec_aggregate_current(outcomes) == Ok::<WeatherReport, Seq<char>>(outcomes[i]->Ok_0),
{
    lemma_single_success(outcomes, i);
    lemma_average_single(outcomes[i]->Ok_0);
}

/// The specific-day derivation is exactly an index into the forecast of the
/// window that ends at that day: when the `days_since + 1`-day forecast
/// succeeds with series `s`, the specific-day result is `s[days_since]`, and
/// a forecast failure propagates unchanged.  This is what
/// [`aggregate_specific_day_weather`] ensures; stated here over the shared
/// outcome, together with the window length that makes the index safe.
pub proof fn lemma_specific_day_is_forecast_element(
    outcomes: Seq<Result<Vec<WeatherReport>, ProviderError>>,
    days_since: int,
)
    requires
        0 <= days_since,
        spec_aggregate_forecast(outcomes, days_since + 1) is Ok,
    ensures
        spec_aggregate_forecast(outcomes, days_since + 1)->Ok_0.len() == days_since + 1,
        spec_aggregate_forecast(outcomes, days_since + 1)->Ok_0[days_since] == spec_average(
            spec_column(series_views(spec_successes(outcomes)), days_since),
        ),
{
}

} // verus!
