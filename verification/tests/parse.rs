use owm_exporter::owm_api::{ApiClient, LatLon, ParseError};

#[test]
fn parses_plain_pair() {
    let c = LatLon::from_str("52.52,13.405").unwrap();
    assert_eq!(c.lat_str(), "52.52");
    assert_eq!(c.lon_str(), "13.405");
}

#[test]
fn round_trips_to_the_same_values() {
    let input = "52.52,13.405";
    let c = LatLon::from_str(input).unwrap();
    assert_eq!(c.lat_str().parse::<f64>().unwrap(), "52.52".parse::<f64>().unwrap());
    assert_eq!(c.lon_str().parse::<f64>().unwrap(), "13.405".parse::<f64>().unwrap());
    assert_eq!(format!("{},{}", c.lat_str(), c.lon_str()), input);
}

#[test]
fn accepts_exactly_what_the_float_parser_accepts() {
    let tokens = [
        "1",
        "-1.5",
        ".5",
        "3.",
        "1e10",
        "1E-3",
        "inf",
        "Infinity",
        "NAN",
        "nan",
        "+2.5e+7",
        "-.25",
        "",
        ".",
        "1.2.3",
        "1e",
        "e5",
        "abc",
        "--1",
        "1e+",
        "0x10",
        " 1",
        "1 ",
    ];
    for tok in tokens {
        let expected = tok.parse::<f64>().is_ok();
        let as_lat = LatLon::from_str(&format!("{},7", tok)).is_ok();
        assert_eq!(as_lat, expected, "latitude token {:?}", tok);
        let as_lon = LatLon::from_str(&format!("7,{}", tok)).is_ok();
        assert_eq!(as_lon, expected, "longitude token {:?}", tok);
    }
}

#[test]
fn rejects_missing_separator() {
    assert_eq!(LatLon::from_str("52.52").unwrap_err(), ParseError::MissingSeparator);
    assert_eq!(LatLon::from_str("").unwrap_err(), ParseError::MissingSeparator);
}

#[test]
fn rejects_bad_latitude() {
    assert_eq!(LatLon::from_str("north,13.4").unwrap_err(), ParseError::BadLatitude);
    assert_eq!(LatLon::from_str(",13.4").unwrap_err(), ParseError::BadLatitude);
}

#[test]
fn rejects_bad_longitude() {
    assert_eq!(LatLon::from_str("52.5,east").unwrap_err(), ParseError::BadLongitude);
    assert_eq!(LatLon::from_str("52.5,").unwrap_err(), ParseError::BadLongitude);
    // The split happens at the first comma, so a second comma poisons the
    // longitude side.
    assert_eq!(LatLon::from_str("1,2,3").unwrap_err(), ParseError::BadLongitude);
}

#[test]
fn builds_the_provider_url() {
    let client = ApiClient::create("testkey".to_string());
    let loc = LatLon::from_str("52.52,13.405").unwrap();
    assert_eq!(
        client.weather_url(&loc),
        "https://api.openweathermap.org/data/2.5/weather?lat=52.52&lon=13.405&appid=testkey&units=metric"
    );
}
