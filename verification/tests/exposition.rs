use owm_exporter::expo::{get_metrics, i64_dec, u64_dec};
use owm_exporter::metrics::init_metrics;
use owm_exporter::owm_api::{ApiError, CurrentWeather, LatLon, MainWeatherData};

fn berlin() -> CurrentWeather {
    CurrentWeather {
        coord: LatLon::from_str("52.52,13.405").unwrap(),
        main: MainWeatherData {
            temp: "18.3".to_string(),
            feels_like: "17.9".to_string(),
            pressure: 1013,
            humidity: 60,
        },
        id: 2950159,
        name: "Berlin".to_string(),
    }
}

#[test]
fn one_tick_shows_up_in_the_scrape() {
    let mut families = init_metrics();
    families.update_weather_for(Ok(berlin()));
    let text = get_metrics(&families);
    assert!(text.contains("temperature_celsius{location_id=\"2950159\",location=\"Berlin\"} 18.3\n"));
    assert!(text.contains(
        "temperature_feel_celsius{location_id=\"2950159\",location=\"Berlin\"} 17.9\n"
    ));
    assert!(text.contains("api_requests_total{location_id=\"2950159\",location=\"Berlin\"} 1\n"));
    assert!(text.contains("pressure_hPa{location_id=\"2950159\",location=\"Berlin\"} 1013\n"));
    assert!(text.contains("humidity{location_id=\"2950159\",location=\"Berlin\"} 60\n"));
}

#[test]
fn failed_second_tick_leaves_the_scrape_unchanged() {
    let mut families = init_metrics();
    families.update_weather_for(Ok(berlin()));
    let before = get_metrics(&families);
    families.update_weather_for(Err(ApiError::HttpError {
        message: "transport error".to_string(),
    }));
    let after = get_metrics(&families);
    assert_eq!(after, before);
    assert!(after.contains("api_requests_total{location_id=\"2950159\",location=\"Berlin\"} 1\n"));
    assert!(after.contains("temperature_celsius{location_id=\"2950159\",location=\"Berlin\"} 18.3\n"));
}

#[test]
fn scrapes_are_deterministic_reads() {
    let mut families = init_metrics();
    families.update_weather_for(Ok(berlin()));
    let first = get_metrics(&families);
    let second = get_metrics(&families);
    assert_eq!(first, second);
}

#[test]
fn empty_registry_scrape_has_headers_and_end_marker() {
    let families = init_metrics();
    let text = get_metrics(&families);
    assert!(text.starts_with("# HELP temperature_celsius "));
    assert!(text.contains("# TYPE temperature_celsius gauge\n"));
    assert!(text.contains("# UNIT temperature_celsius celsius\n"));
    assert!(text.contains("# TYPE api_requests counter\n"));
    assert!(text.contains("# TYPE pressure_hPa gauge\n"));
    assert!(text.contains("# TYPE humidity gauge\n"));
    assert!(text.ends_with("# EOF\n"));
    // No series lines: every line of the empty scrape is a comment or the
    // end marker.
    for line in text.lines() {
        assert!(line.starts_with('#'), "unexpected series line: {:?}", line);
    }
}

#[test]
fn label_values_are_escaped() {
    let mut families = init_metrics();
    let mut odd = berlin();
    odd.id = 7;
    odd.name = "A\"B\\C\nD".to_string();
    families.update_weather_for(Ok(odd));
    let text = get_metrics(&families);
    assert!(text.contains("humidity{location_id=\"7\",location=\"A\\\"B\\\\C\\nD\"} 60\n"));
}

#[test]
fn families_group_their_series() {
    let mut families = init_metrics();
    families.update_weather_for(Ok(berlin()));
    let mut other = berlin();
    other.id = 42;
    other.name = "Elsewhere".to_string();
    other.main.pressure = -3;
    families.update_weather_for(Ok(other));
    let text = get_metrics(&families);
    // Series of one family stand together, in order of first observation.
    let b = text.find("temperature_celsius{location_id=\"2950159\"").unwrap();
    let e = text.find("temperature_celsius{location_id=\"42\"").unwrap();
    let h = text.find("# TYPE temperature_feel_celsius").unwrap();
    assert!(b < e && e < h);
    assert!(text.contains("pressure_hPa{location_id=\"42\",location=\"Elsewhere\"} -3\n"));
}

#[test]
fn decimal_rendering_is_exact() {
    assert_eq!(u64_dec(0), "0");
    assert_eq!(u64_dec(10), "10");
    assert_eq!(u64_dec(2950159), "2950159");
    assert_eq!(u64_dec(u64::MAX), "18446744073709551615");
    assert_eq!(i64_dec(0), "0");
    assert_eq!(i64_dec(-1), "-1");
    assert_eq!(i64_dec(1013), "1013");
    assert_eq!(i64_dec(i64::MIN), "-9223372036854775808");
    assert_eq!(i64_dec(i64::MAX), "9223372036854775807");
}
