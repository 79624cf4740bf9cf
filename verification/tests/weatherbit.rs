use weather_reports::weather_aggregator::ProviderError;
use weather_reports::weather_clients::weatherbit::Weatherbit;

#[test]
fn weatherbit_it_deserializes_current_weather_valid_raw_json() {
    let raw_json = r#"
    {
        "data": [{
            "ts": 1613928600,
            "city_name": "Kazan",
            "temp": -23
        }],
        "count":1
    }
    "#;

    assert_eq!(
        Weatherbit::parse_report_from_raw_json(raw_json).unwrap().temperature_milli,
        -23000
    )
}

#[test]
fn weatherbit_it_fails_to_deserialize_current_weather_invalid_raw_json() {
    let raw_json = r#"
    {
        "data": [{
            "ts": 1613928600,
            "city_name": "Kazan",
            "tempo": -23
        }],
        "count":1
    }
    "#;

    assert_eq!(Weatherbit::parse_report_from_raw_json(raw_json).is_err(), true)
}

#[test]
fn weatherbit_it_deserializes_forecast_weather_valid_raw_json() {
    let raw_json = r#"
    {
        "data": [
            {
                "ts": 1613941260,
                "temp": -27.3
            },
            {
                "ts": 1614027660,
                "temp": -29.6
            }
        ],
        "city_name": "Kazan"
    }
    "#;

    let parsed_reports = Weatherbit::parse_report_array_from_raw_json(raw_json).unwrap();

    assert_eq!(parsed_reports[0].temperature_milli, -27300);
    assert_eq!(parsed_reports[1].temperature_milli, -29600)
}

#[test]
fn weatherbit_it_fails_to_deserialize_forecast_weather_invalid_raw_json() {
    let raw_json = r#"
    {
        "datas": [
            {
                "ts": 1613941260,
                "temp": -27.3
            },
            {
                "ts": 1614027660,
                "temp": -29.6
            }
        ],
        "city_name": "Kazan"
    }
    "#;

    assert_eq!(Weatherbit::parse_report_array_from_raw_json(raw_json).is_err(), true)
}

#[test]
fn weatherbit_reads_the_observation_timestamp() {
    let raw_json = r#"{ "data": [{ "ts": 1613928600, "temp": -23 }] }"#;
    let report = Weatherbit::parse_report_from_raw_json(raw_json).unwrap();
    assert_eq!(report.unix_timestamp, 1613928600);
}

#[test]
fn weatherbit_missing_timestamp_is_a_parse_error() {
    let raw_json = r#"{ "data": [{ "temp": -23 }] }"#;
    assert_eq!(
        Weatherbit::parse_report_from_raw_json(raw_json),
        Err(ProviderError::Parse)
    );
}

#[test]
fn weatherbit_malformed_body_is_a_transport_error() {
    assert_eq!(
        Weatherbit::parse_report_from_raw_json("{ not json"),
        Err(ProviderError::Transport)
    );
}

#[test]
fn weatherbit_builds_request_paths() {
    let client = Weatherbit::new_with_prefix("apikey".to_string(), "http://localhost:9000".to_string());
    assert_eq!(
        client.current_url("kazan"),
        "http://localhost:9000/current?key=apikey&city=kazan"
    );
    assert_eq!(
        client.forecast_url("kazan", 16),
        "http://localhost:9000/forecast/daily?key=apikey&city=kazan&days=16"
    );
}

#[test]
fn weatherbit_forecast_window_is_enforced() {
    let raw_json = r#"
    {
        "data": [
            { "ts": 100, "temp": 1 },
            { "ts": 200, "temp": 2 }
        ]
    }
    "#;
    let one = Weatherbit::forecast_series_from_raw_json(raw_json, 1).unwrap();
    assert_eq!(one.len(), 1);
    assert_eq!(one[0].temperature_milli, 1000);
    assert_eq!(
        Weatherbit::forecast_series_from_raw_json(raw_json, 3),
        Err(ProviderError::Parse)
    );
}
