use owm_exporter::metrics::init_metrics;
use owm_exporter::owm_api::{ApiError, CurrentWeather, LatLon, MainWeatherData};

fn berlin() -> CurrentWeather {
    CurrentWeather {
        coord: LatLon::from_str("52.52,13.405").unwrap(),
        main: MainWeatherData {
            temp: "18.3".to_string(),
            feels_like: "17.9".to_string(),
            pressure: 1013,
            humidity: 60,
        },
        id: 2950159,
        name: "Berlin".to_string(),
    }
}

fn paris() -> CurrentWeather {
    CurrentWeather {
        coord: LatLon::from_str("48.86,2.35").unwrap(),
        main: MainWeatherData {
            temp: "21.0".to_string(),
            feels_like: "20.4".to_string(),
            pressure: 1008,
            humidity: 55,
        },
        id: 2988507,
        name: "Paris".to_string(),
    }
}

#[test]
fn successful_fetch_sets_gauges_and_counter() {
    let mut families = init_metrics();
    assert!(families.lookup(2950159, "Berlin").is_none());
    families.update_weather_for(Ok(berlin()));
    let ins = families.lookup(2950159, "Berlin").unwrap();
    assert_eq!(ins.temp, "18.3");
    assert_eq!(ins.temp_feel, "17.9");
    assert_eq!(ins.pressure, 1013);
    assert_eq!(ins.humidity, 60);
    assert_eq!(ins.req_count, 1);
}

#[test]
fn counter_counts_successful_fetches() {
    let mut families = init_metrics();
    families.update_weather_for(Ok(berlin()));
    families.update_weather_for(Ok(berlin()));
    let mut third = berlin();
    third.main.temp = "19.1".to_string();
    families.update_weather_for(Ok(third));
    let ins = families.lookup(2950159, "Berlin").unwrap();
    assert_eq!(ins.req_count, 3);
    assert_eq!(ins.temp, "19.1");
}

#[test]
fn failed_fetch_changes_nothing() {
    let mut families = init_metrics();
    families.update_weather_for(Ok(berlin()));
    families.update_weather_for(Err(ApiError::HttpError {
        message: "connection refused".to_string(),
    }));
    let ins = families.lookup(2950159, "Berlin").unwrap();
    assert_eq!(ins.temp, "18.3");
    assert_eq!(ins.temp_feel, "17.9");
    assert_eq!(ins.pressure, 1013);
    assert_eq!(ins.humidity, 60);
    assert_eq!(ins.req_count, 1);
    assert_eq!(families.series_count(), 1);
}

#[test]
fn failed_first_fetch_creates_no_series() {
    let mut families = init_metrics();
    families.update_weather_for(Err(ApiError::HttpError { message: "timeout".to_string() }));
    assert_eq!(families.series_count(), 0);
    assert!(families.lookup(2950159, "Berlin").is_none());
}

#[test]
fn label_sets_are_isolated() {
    let mut families = init_metrics();
    families.update_weather_for(Ok(berlin()));
    families.update_weather_for(Ok(paris()));
    families.update_weather_for(Ok(berlin()));
    let b = families.lookup(2950159, "Berlin").unwrap();
    assert_eq!(b.req_count, 2);
    let p = families.lookup(2988507, "Paris").unwrap();
    assert_eq!(p.req_count, 1);
    assert_eq!(p.temp, "21.0");
    assert_eq!(p.pressure, 1008);
    assert_eq!(families.series_count(), 2);
}

#[test]
fn same_id_different_name_is_a_distinct_series() {
    let mut families = init_metrics();
    families.update_weather_for(Ok(berlin()));
    let mut renamed = berlin();
    renamed.name = "Berlin-Mitte".to_string();
    renamed.main.temp = "17.0".to_string();
    families.update_weather_for(Ok(renamed));
    assert_eq!(families.series_count(), 2);
    assert_eq!(families.lookup(2950159, "Berlin").unwrap().temp, "18.3");
    assert_eq!(families.lookup(2950159, "Berlin-Mitte").unwrap().temp, "17.0");
}

#[test]
fn snapshot_well_formedness_is_checkable() {
    let good = berlin();
    assert!(good.well_formed());
    let mut bad = berlin();
    bad.main.temp = "warm".to_string();
    assert!(!bad.well_formed());
}
