use weather::models::{decimal_text, observation_id, text_equals, zero_padded_text, Icon};

#[test]
fn icons_from_provider_names() {
    assert_eq!(Icon::from_str("rain"), Icon::Rain);
    assert_eq!(Icon::from_str("clear-night"), Icon::Clear);
    assert_eq!(Icon::from_str("clear-day"), Icon::Clear);
    assert_eq!(Icon::from_str("partly-cloudy-night"), Icon::PartlyCloudy);
    assert_eq!(Icon::from_str("thunderstorm"), Icon::Thunderstorm);
    assert_eq!(Icon::from_str("tornado"), Icon::Unknown);
    assert_eq!(Icon::from_str(""), Icon::Unknown);
}

#[test]
fn icon_names_round_trip() {
    let all = [
        Icon::Rain,
        Icon::Thunderstorm,
        Icon::Fog,
        Icon::Snow,
        Icon::PartlyCloudy,
        Icon::Cloudy,
        Icon::Hail,
        Icon::Sleet,
        Icon::Clear,
        Icon::Wind,
    ];
    for icon in all {
        assert_eq!(Icon::from_str(icon.to_str()), icon);
    }
    assert_eq!(Icon::Unknown.to_str(), "unknown");
    assert_eq!(Icon::PartlyCloudy.to_str(), "partly-cloudy-day");
}

#[test]
fn ids_are_zero_padded() {
    assert_eq!(observation_id(2020, 5, 7), "2020-005-07");
    assert_eq!(observation_id(2019, 326, 14), "2019-326-14");
}

#[test]
fn text_comparison() {
    assert!(text_equals("fog", "fog"));
    assert!(!text_equals("fog", "fig"));
    assert!(!text_equals("fog", "fogs"));
}

#[test]
fn decimal_and_padded_text() {
    assert_eq!(decimal_text(0), "0");
    assert_eq!(decimal_text(9), "9");
    assert_eq!(decimal_text(10), "10");
    assert_eq!(decimal_text(65535), "65535");
    assert_eq!(decimal_text(u64::MAX), "18446744073709551615");
    assert_eq!(zero_padded_text(7, 3), "007");
    assert_eq!(zero_padded_text(0, 2), "00");
    assert_eq!(zero_padded_text(1234, 3), "1234");
    assert_eq!(zero_padded_text(5, 0), "5");
    assert_eq!(observation_id(0, 1, 0), "0-001-00");
}
