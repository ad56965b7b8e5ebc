use fuelfeed::feed::{
    decode_feed, process_data, process_feed, EnvelopeDecodeError, FuelStationData, RawRecord,
};
use fuelfeed::numeric::{check_numeric, check_positive, coerce, CoercionError, RawValue};
use fuelfeed::station::{filter_prices, normalize_station, InvalidStationError, RawStation};

fn station(brand: Option<&str>, lat: RawValue, lon: RawValue, prices: Vec<(&str, RawValue)>) -> RawStation {
    RawStation {
        site_id: "site-1".to_string(),
        brand: brand.map(|b| b.to_string()),
        address: "1 High Street".to_string(),
        postcode: "AB1 2CD".to_string(),
        latitude: lat,
        longitude: lon,
        prices: prices.into_iter().map(|(k, v)| (k.to_string(), v)).collect(),
    }
}

fn num(t: &str) -> RawValue {
    RawValue::Num(t.to_string())
}

fn strv(t: &str) -> RawValue {
    RawValue::Str(t.to_string())
}

#[test]
fn coerce_number_and_string() {
    assert!(matches!(coerce(&num("138.9")), Ok(d) if d.text == "138.9"));
    assert!(matches!(coerce(&strv("1.75")), Ok(d) if d.text == "1.75"));
    assert!(matches!(coerce(&strv("not a number")), Err(CoercionError::NotNumeric)));
    assert!(matches!(coerce(&RawValue::Null), Err(CoercionError::UnsupportedType)));
    assert!(matches!(coerce(&RawValue::Other), Err(CoercionError::UnsupportedType)));
}

#[test]
fn numeric_shapes() {
    for ok in ["0", "-0", "+1.5", "138.9", ".5", "5.", "1e3", "1E-3", "-2.5e+10", "007"] {
        assert!(check_numeric(ok), "{ok} should be numeric");
    }
    for bad in ["", "-", ".", "1e", "1.2.3", "abc", " 1", "1 ", "inf", "NaN", "0x10"] {
        assert!(!check_numeric(bad), "{bad} should not be numeric");
    }
}

#[test]
fn positivity_is_strict() {
    for pos in ["138.9", "0.01", "1e-12", "+7", "5."] {
        assert!(check_positive(pos), "{pos} should be positive");
    }
    for nonpos in ["0", "0.00", "-5", "-0.0", "0e9", "abc", ""] {
        assert!(!check_positive(nonpos), "{nonpos} should not be positive");
    }
}

#[test]
fn filter_keeps_only_positive_coercible_prices() {
    let ps = vec![
        ("E5".to_string(), num("138.9")),
        ("SDV".to_string(), num("0")),
        ("X".to_string(), strv("oops")),
        ("B7".to_string(), strv("1.75")),
        ("Y".to_string(), RawValue::Null),
    ];
    let kept = filter_prices(&ps);
    let kept: Vec<(String, String)> = kept.into_iter().map(|(k, d)| (k, d.text)).collect();
    assert_eq!(
        kept,
        vec![
            ("E5".to_string(), "138.9".to_string()),
            ("B7".to_string(), "1.75".to_string())
        ]
    );
}

#[test]
fn brand_canonicalization() {
    assert_eq!(fuelfeed::brand::format_brand("bp".to_string()), "BP");
    assert_eq!(fuelfeed::brand::format_brand("  Sainsbury's  ".to_string()), "Sainsbury's");
    assert_eq!(fuelfeed::brand::format_brand("TESCO".to_string()), "Tesco");
    assert_eq!(fuelfeed::brand::format_brand("harvest energy".to_string()), "Harvest Energy");
    assert_eq!(fuelfeed::brand::format_brand("coop".to_string()), "Co Op");
    // an unknown brand passes through exactly, original casing and whitespace
    assert_eq!(fuelfeed::brand::format_brand(" Bob's Fuel ".to_string()), " Bob's Fuel ");
}

#[test]
fn brand_canonicalization_idempotent_on_samples() {
    for raw in ["bp", " coop ", "TESCO", "unknown brand", "Co Op", "ASDA Express"] {
        let once = fuelfeed::brand::format_brand(raw.to_string());
        let twice = fuelfeed::brand::format_brand(once.clone());
        assert_eq!(once, twice, "canonicalizing {raw} twice changed the result");
    }
}

#[test]
fn timestamp_conversion_exact() {
    assert_eq!(
        fuelfeed::timestamp::parse_datetime("27/11/2024 11:45:32").unwrap(),
        "2024-11-27T11:45:32+00:00"
    );
    assert_eq!(
        fuelfeed::timestamp::parse_datetime("29/02/2024 10:00:00").unwrap(),
        "2024-02-29T10:00:00+00:00"
    );
}

#[test]
fn timestamp_rejects_bad_inputs() {
    for bad in [
        "2024-11-27 11:45:32",
        "27/11/2024T11:45:32",
        "29/02/2023 10:00:00",
        "31/04/2024 10:00:00",
        "00/01/2024 10:00:00",
        "01/13/2024 10:00:00",
        "01/01/2024 24:00:00",
        "01/01/2024 10:60:00",
        "01/01/2024 10:00:60",
        "1/1/2024 00:00:00",
        "27/11/2024 11:45:3",
        "27/11/2024 11:45:32 ",
        "",
    ] {
        assert!(
            fuelfeed::timestamp::parse_datetime(bad).is_err(),
            "{bad} should be rejected"
        );
    }
}

#[test]
fn normalize_rejects_null_brand() {
    let raw = station(None, num("51.5"), num("0"), vec![("E5", num("138.9"))]);
    let r = normalize_station(&raw);
    assert!(matches!(r, Err(InvalidStationError::BrandNull)));
    assert_eq!(InvalidStationError::BrandNull.message(), "brand is null");
}

#[test]
fn normalize_accepts_empty_brand_string() {
    // only a null or absent brand is rejected; a present empty string passes
    let raw = station(Some(""), num("51.5"), num("0"), vec![]);
    let st = normalize_station(&raw).unwrap();
    assert_eq!(st.brand, "");
}

#[test]
fn normalize_rejects_bad_coordinate() {
    let raw = station(Some("bp"), strv("fifty-one"), num("0"), vec![]);
    assert!(matches!(normalize_station(&raw), Err(InvalidStationError::InvalidCoordinate)));
    let raw = station(Some("bp"), num("51.5"), RawValue::Null, vec![]);
    assert!(matches!(normalize_station(&raw), Err(InvalidStationError::InvalidCoordinate)));
}

#[test]
fn normalize_success_canonicalizes_and_filters() {
    let raw = station(
        Some(" esso "),
        num("51.5"),
        strv("-0.12"),
        vec![("E5", num("138.9")), ("SDV", num("0"))],
    );
    let st = normalize_station(&raw).unwrap();
    assert_eq!(st.site_id, "site-1");
    assert_eq!(st.brand, "Esso");
    assert_eq!(st.location.latitude.text, "51.5");
    assert_eq!(st.location.longitude.text, "-0.12");
    assert_eq!(st.prices.len(), 1);
    assert_eq!(st.prices[0].0, "E5");
    assert_eq!(st.prices[0].1.text, "138.9");
}

#[test]
fn feed_with_unknown_brand_station() {
    // one station whose brand is not in the table: pass-through, SDV dropped
    let input = r#"{"last_updated":"27/11/2024 11:45:32","stations":[{"site_id":"xxx","brand":"Bob","address":"A","postcode":"AB1 2CD","location":{"latitude":51.5,"longitude":0},"prices":{"E5":138.9,"E10":129.9,"B7":138.9,"SDV":0}}]}"#;
    let out = process_data(input).unwrap();
    assert_eq!(out.len(), 1);
    let st = &out[0];
    assert_eq!(st.site_id, "xxx");
    assert_eq!(st.brand, "Bob");
    assert_eq!(st.address, "A");
    assert_eq!(st.postcode, "AB1 2CD");
    assert_eq!(st.location.latitude.text, "51.5");
    assert_eq!(st.location.longitude.text, "0");
    assert_eq!(st.prices.len(), 1);
    let block = &st.prices[0];
    assert_eq!(block.lu, "2024-11-27T11:45:32+00:00");
    let mut kept: Vec<(String, String)> = block
        .prices
        .iter()
        .map(|(k, d)| (k.clone(), d.text.clone()))
        .collect();
    kept.sort();
    assert_eq!(
        kept,
        vec![
            ("B7".to_string(), "138.9".to_string()),
            ("E10".to_string(), "129.9".to_string()),
            ("E5".to_string(), "138.9".to_string())
        ]
    );
}

#[test]
fn feed_with_null_brand_keeps_the_other_station() {
    let input = r#"{"last_updated":"27/11/2024 11:45:32","stations":[
        {"site_id":"a","brand":null,"address":"A","postcode":"P1","location":{"latitude":1,"longitude":2},"prices":{"E5":"139.9"}},
        {"site_id":"b","brand":"shell","address":"B","postcode":"P2","location":{"latitude":"3.5","longitude":4},"prices":{"E10":"131.9"}}
    ]}"#;
    let out = process_data(input).unwrap();
    assert_eq!(out.len(), 1);
    assert_eq!(out[0].site_id, "b");
    assert_eq!(out[0].brand, "Shell");
    assert_eq!(out[0].prices[0].prices[0].0, "E10");
    assert_eq!(out[0].prices[0].prices[0].1.text, "131.9");
}

#[test]
fn feed_with_bad_timestamp_is_fatal() {
    let input = r#"{"last_updated":"2024-11-27 11:45:32","stations":[{"site_id":"a","brand":"bp","address":"A","postcode":"P1","location":{"latitude":1,"longitude":2},"prices":{"E5":139.9}}]}"#;
    assert!(matches!(process_data(input), Err(EnvelopeDecodeError::Timestamp)));
}

#[test]
fn feed_with_empty_stations_is_empty_output() {
    let input = r#"{"last_updated":"27/11/2024 11:45:32","stations":[]}"#;
    let out = process_data(input).unwrap();
    assert!(out.is_empty());
    // the timestamp is only converted when there are stations to process
    let input = r#"{"last_updated":"nonsense","stations":[]}"#;
    assert!(process_data(input).unwrap().is_empty());
}

#[test]
fn envelope_errors() {
    assert!(matches!(process_data("not json"), Err(EnvelopeDecodeError::Syntax)));
    assert!(matches!(process_data("[1,2,3]"), Err(EnvelopeDecodeError::Shape)));
    assert!(matches!(
        process_data(r#"{"stations":[]}"#),
        Err(EnvelopeDecodeError::Shape)
    ));
    assert!(matches!(
        process_data(r#"{"last_updated":7,"stations":[]}"#),
        Err(EnvelopeDecodeError::Shape)
    ));
    assert!(matches!(
        process_data(r#"{"last_updated":"27/11/2024 11:45:32","stations":{}}"#),
        Err(EnvelopeDecodeError::Shape)
    ));
}

#[test]
fn malformed_station_elements_are_skipped() {
    let input = r#"{"last_updated":"27/11/2024 11:45:32","stations":[
        17,
        {"brand":"bp"},
        {"site_id":"ok","brand":"bp","address":"A","postcode":"P","location":{"latitude":0.5,"longitude":"0.25"},"prices":{}}
    ]}"#;
    let out = process_data(input).unwrap();
    assert_eq!(out.len(), 1);
    assert_eq!(out[0].site_id, "ok");
    assert_eq!(out[0].brand, "BP");
    assert!(out[0].prices[0].prices.is_empty());
}

#[test]
fn process_feed_on_built_records() {
    let feed = FuelStationData {
        last_updated: "01/06/2025 08:30:00".to_string(),
        stations: vec![
            RawRecord::Station(station(Some("jet"), num("50"), num("1"), vec![("E5", num("140"))])),
            RawRecord::Malformed,
            RawRecord::Station(station(None, num("50"), num("1"), vec![])),
        ],
    };
    let out = process_feed(&feed).unwrap();
    assert_eq!(out.len(), 1);
    assert_eq!(out[0].brand, "JET");
    assert_eq!(out[0].prices.len(), 1);
    assert_eq!(out[0].prices[0].lu, "2025-06-01T08:30:00+00:00");
}

#[test]
fn decode_feed_classifies_values() {
    let input = r#"{"last_updated":"x","stations":[{"site_id":"s","brand":"bp","address":"A","postcode":"P","location":{"latitude":true,"longitude":2},"prices":{"E5":139.9}}]}"#;
    let feed = decode_feed(input).unwrap();
    assert_eq!(feed.last_updated, "x");
    assert_eq!(feed.stations.len(), 1);
    match &feed.stations[0] {
        RawRecord::Station(raw) => {
            assert!(matches!(raw.latitude, RawValue::Other));
            assert!(matches!(raw.longitude, RawValue::Num(ref t) if t == "2"));
            assert_eq!(raw.prices.len(), 1);
            assert_eq!(raw.prices[0].0, "E5");
            assert!(matches!(raw.prices[0].1, RawValue::Num(ref t) if t == "139.9"));
        }
        RawRecord::Malformed => panic!("station should decode"),
    }
}
