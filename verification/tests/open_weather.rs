use weather_reports::weather_aggregator::ProviderError;
use weather_reports::weather_clients::open_weather::OpenWeather;

#[test]
fn open_weather_it_deserializes_current_weather_valid_raw_json() {
    let raw_json = r#"
    {
        "main": {
            "temp": -12.94
        },
        "dt": 1613978904,
        "name": "Moscow"
    }
    "#;

    let weather_report = OpenWeather::parse_report_from_raw_json(raw_json).unwrap();
    assert_eq!(weather_report.temperature_milli, -12940);
    assert_eq!(weather_report.unix_timestamp, 1613978904);
}

#[test]
fn open_weather_it_fails_to_deserialize_current_weather_invalid_raw_json() {
    let raw_json = r#"
    {
        "main": {
            "xtemp": -12.94
        },
        "dt": 1613978904,
        "name": "Moscow"
    }
    "#;

    assert_eq!(OpenWeather::parse_report_from_raw_json(raw_json).is_err(), true)
}

#[test]
fn open_weather_it_deserializes_forecast_weather_valid_raw_json() {
    let raw_json = r#"
    {
        "daily": [
            {
                "temp": {
                    "day": -13.45
                },
                "dt": 1613984400
            },
            {
                "temp": {
                    "day": -13.21
                },
                "dt": 1613995200
            }
        ]
    }
    "#;

    let parsed_reports = OpenWeather::parse_report_array_from_raw_json(raw_json).unwrap();

    assert_eq!(parsed_reports[0].temperature_milli, -13450);
    assert_eq!(parsed_reports[0].unix_timestamp, 1613984400);
    assert_eq!(parsed_reports[1].temperature_milli, -13210);
    assert_eq!(parsed_reports[1].unix_timestamp, 1613995200);
}

#[test]
fn open_weather_it_fails_to_deserialize_forecast_weather_invalid_raw_json() {
    let raw_json = r#"
    {
        "daily": [
            {
                "temsp": {
                    "day": -13.45
                },
                "dt": 1613984400
            },
            {
                "temp": {
                    "day": -13.21
                },
                "dt": 1613995200
            }
        ]
    }
    "#;

    assert_eq!(OpenWeather::parse_report_array_from_raw_json(raw_json).is_err(), true)
}

#[test]
fn open_weather_missing_temperature_is_a_parse_error() {
    let raw_json = r#"{ "dt": 1613978904, "name": "Moscow" }"#;
    assert_eq!(
        OpenWeather::parse_report_from_raw_json(raw_json),
        Err(ProviderError::Parse)
    );
}

#[test]
fn open_weather_malformed_body_is_a_transport_error() {
    assert_eq!(
        OpenWeather::parse_report_from_raw_json("not json at all"),
        Err(ProviderError::Transport)
    );
}

#[test]
fn open_weather_reads_coordinates_as_texts() {
    let raw_json = r#"
    {
        "coord": { "lat": 55.7878, "lon": 49.1233 },
        "main": { "temp": -12.94 },
        "dt": 1613978904
    }
    "#;
    let (lat, lon) = OpenWeather::coords_from_raw_json(raw_json).unwrap();
    assert_eq!(lat, "55.7878");
    assert_eq!(lon, "49.1233");
}

#[test]
fn open_weather_missing_coordinates_is_a_parse_error() {
    let raw_json = r#"{ "main": { "temp": -12.94 }, "dt": 1613978904 }"#;
    assert_eq!(
        OpenWeather::coords_from_raw_json(raw_json),
        Err(ProviderError::Parse)
    );
}

#[test]
fn open_weather_builds_request_paths() {
    let client = OpenWeather::new_with_prefix("apikey".to_string(), "http://localhost:9000".to_string());
    assert_eq!(
        client.current_url("kazan"),
        "http://localhost:9000/weather?APPID=apikey&q=kazan&units=metric"
    );
    assert_eq!(
        client.onecall_url("55.7878", "49.1233"),
        "http://localhost:9000/onecall?APPID=apikey&lat=55.7878&lon=49.1233&units=metric&&exclude=current,minutely,hourly"
    );
}

#[test]
fn open_weather_forecast_window_is_enforced() {
    let raw_json = r#"
    {
        "daily": [
            { "temp": { "day": 1.5 }, "dt": 100 },
            { "temp": { "day": 2.5 }, "dt": 200 },
            { "temp": { "day": 3.5 }, "dt": 300 }
        ]
    }
    "#;
    let two = OpenWeather::forecast_series_from_raw_json(raw_json, 2).unwrap();
    assert_eq!(two.len(), 2);
    assert_eq!(two[1].temperature_milli, 2500);
    assert_eq!(
        OpenWeather::forecast_series_from_raw_json(raw_json, 4),
        Err(ProviderError::Parse)
    );
}
