use weather_reports::WeatherReport;
use weather_reports::weather_aggregator::AverageWeatherReport;
use weather_reports::weather_aggregator::ProviderError;
use weather_reports::weather_aggregator::aggregate_current_weather;
use weather_reports::weather_aggregator::aggregate_forecast_weather;
use weather_reports::weather_aggregator::aggregate_specific_day_weather;
use weather_reports::weather_aggregator::average_forecast_report;
use weather_reports::weather_aggregator::average_report;

fn report(temperature_milli: i64, unix_timestamp: i64) -> WeatherReport {
    WeatherReport { temperature_milli, unix_timestamp }
}

#[test]
fn averages_several_weather_reports() {
    let reports = vec![report(2000, 10), report(4000, 20), report(2000, 10), report(8000, 20)];

    let average_report = average_report(reports);
    assert_eq!(average_report.temperature_milli, 4000);
    assert_eq!(average_report.unix_timestamp, 15);
}

#[test]
fn averages_single_weather_report() {
    let reports = vec![report(2000, 10)];

    let average_report = average_report(reports);
    assert_eq!(average_report.temperature_milli, 2000);
    assert_eq!(average_report.unix_timestamp, 10);
}

#[test]
fn averages_several_weather_forecast_reports() {
    let reports = vec![
        vec![report(4000, 10), report(4000, 10), report(2000, 10)],
        vec![report(4000, 10), report(4000, 20), report(4000, 30)],
        vec![report(6000, 10), report(4000, 20), report(6000, 20)],
        vec![report(6000, 10), report(4000, 10), report(2000, 20)],
    ];

    let average_report = average_forecast_report(reports);

    assert_eq!(average_report[0].temperature_milli, 5000);
    assert_eq!(average_report[0].unix_timestamp, 10);
    assert_eq!(average_report[1].temperature_milli, 4000);
    assert_eq!(average_report[1].unix_timestamp, 15);
    assert_eq!(average_report[2].temperature_milli, 3500);
    assert_eq!(average_report[2].unix_timestamp, 20);
}

#[test]
fn averages_single_weather_forecast_report() {
    let reports = vec![vec![report(2000, 10), report(3000, 33)]];

    let average_report = average_forecast_report(reports);

    assert_eq!(average_report[0].temperature_milli, 2000);
    assert_eq!(average_report[0].unix_timestamp, 10);
    assert_eq!(average_report[1].temperature_milli, 3000);
    assert_eq!(average_report[1].unix_timestamp, 33);
}

#[test]
fn mean_of_identical_reports_is_that_report() {
    let reports = vec![report(-1234, 777); 7];
    let average = average_report(reports);
    assert_eq!(average, report(-1234, 777));
}

#[test]
fn mean_is_invariant_to_order() {
    let a = report(2000, 10);
    let b = report(4500, 20);
    let c = report(-3000, 30);
    let first = average_report(vec![a, b, c]);
    let second = average_report(vec![c, a, b]);
    assert_eq!(first, second);
}

#[test]
fn mean_merge_averages_pairwise() {
    let merged = report(2000, 10).mean_merge(report(5000, 21));
    assert_eq!(merged.temperature_milli, 3500);
    assert_eq!(merged.unix_timestamp, 15);
}

#[test]
fn accumulator_streams_reports() {
    let mut average = AverageWeatherReport::new();
    average.add(report(2000, 10));
    average.add(report(4000, 20));
    average.add(report(2000, 10));
    average.add(report(8000, 20));
    let mean = average.mean();
    assert_eq!(mean, report(4000, 15));
}

#[test]
fn two_provider_forecast_positional_mean() {
    let outcomes = vec![
        Ok(vec![report(4000, 10), report(4000, 10), report(2000, 10)]),
        Ok(vec![report(6000, 10), report(4000, 20), report(6000, 20)]),
    ];
    let series = aggregate_forecast_weather(outcomes, 3).unwrap();
    assert_eq!(series[0], report(5000, 10));
    assert_eq!(series[1], report(4000, 15));
    assert_eq!(series[2], report(4000, 15));
}

#[test]
fn two_provider_current_mean() {
    let outcomes = vec![Ok(report(2000, 10)), Ok(report(5000, 21))];
    let result = aggregate_current_weather(outcomes);
    assert_eq!(result, Ok(report(3500, 15)));
}

#[test]
fn aggregates_reports_parsed_from_provider_json() {
    let open_weather_body = r#"{ "main": { "temp": -12.94 }, "dt": 1613978904 }"#;
    let weatherbit_body = r#"{ "data": [{ "ts": 1613928600, "temp": -23 }] }"#;
    let outcomes = vec![
        weather_reports::weather_clients::open_weather::OpenWeather::parse_report_from_raw_json(
            open_weather_body,
        ),
        weather_reports::weather_clients::weatherbit::Weatherbit::parse_report_from_raw_json(
            weatherbit_body,
        ),
    ];
    let result = aggregate_current_weather(outcomes);
    assert_eq!(result, Ok(report(-17970, 1613953752)));
}

#[test]
fn all_providers_failed_is_aggregate_failure() {
    let outcomes = vec![Err(ProviderError::Transport), Err(ProviderError::Parse)];
    let result = aggregate_current_weather(outcomes);
    assert_eq!(result, Err("Could not find weather data".to_string()));
}

#[test]
fn single_success_is_returned_unchanged() {
    let outcomes = vec![Err(ProviderError::Transport), Ok(report(2250, 1613978904))];
    let result = aggregate_current_weather(outcomes);
    assert_eq!(result, Ok(report(2250, 1613978904)));
}

#[test]
fn forecast_failure_when_no_provider_answers() {
    let outcomes: Vec<Result<Vec<WeatherReport>, ProviderError>> =
        vec![Err(ProviderError::Transport), Err(ProviderError::Transport)];
    let result = aggregate_forecast_weather(outcomes, 5);
    assert_eq!(result, Err("Could not find weather data".to_string()));
}

#[test]
fn forecast_failure_on_mismatched_series_length() {
    let outcomes = vec![
        Ok(vec![report(4000, 10), report(4000, 20)]),
        Ok(vec![report(6000, 10), report(4000, 20), report(6000, 30)]),
    ];
    let result = aggregate_forecast_weather(outcomes, 3);
    assert_eq!(
        result,
        Err("Providers returned forecasts of mismatched length".to_string())
    );
}

#[test]
fn specific_day_equals_forecast_element() {
    let outcomes = vec![
        Ok(vec![report(4000, 10), report(4000, 10), report(2000, 10)]),
        Ok(vec![report(6000, 10), report(4000, 20), report(6000, 20)]),
    ];
    let forecast = aggregate_forecast_weather(outcomes.clone(), 3).unwrap();
    let day = aggregate_specific_day_weather(outcomes, 2).unwrap();
    assert_eq!(day, forecast[2]);
}

#[test]
fn specific_day_propagates_forecast_failure() {
    let outcomes: Vec<Result<Vec<WeatherReport>, ProviderError>> =
        vec![Err(ProviderError::Parse), Err(ProviderError::Transport)];
    let result = aggregate_specific_day_weather(outcomes, 2);
    assert_eq!(result, Err("Could not find weather data".to_string()));
}
