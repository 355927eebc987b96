use wifi_node::telemetry::{payload, Reading, CYCLE_PERIOD_MS};

fn text(r: &Reading) -> String {
    String::from_utf8(payload(r)).unwrap()
}

#[test]
fn payload_of_a_good_reading() {
    let r = Reading::from_sample(Some((22, 55)), 0);
    assert_eq!(r.temperature, Some(22));
    assert_eq!(r.humidity, Some(55));
    assert_eq!(text(&r), r#"{"ping":true,"temperature":22,"humidity":55}"#);
}

#[test]
fn failed_sample_reports_zeros() {
    let r = Reading::from_sample(None, 5);
    assert_eq!(r.temperature, None);
    assert_eq!(r.humidity, None);
    assert_eq!(r.sampled_at, 5);
    assert_eq!(text(&r), r#"{"ping":true,"temperature":0,"humidity":0}"#);
}

#[test]
fn payload_extremes() {
    let r = Reading { temperature: Some(-128), humidity: Some(255), sampled_at: 0 };
    assert_eq!(text(&r), r#"{"ping":true,"temperature":-128,"humidity":255}"#);
    let r = Reading { temperature: Some(127), humidity: Some(0), sampled_at: 0 };
    assert_eq!(text(&r), r#"{"ping":true,"temperature":127,"humidity":0}"#);
    let r = Reading { temperature: Some(-5), humidity: Some(9), sampled_at: 0 };
    assert_eq!(text(&r), r#"{"ping":true,"temperature":-5,"humidity":9}"#);
}

#[test]
fn one_absent_field_reports_zero_for_it() {
    let r = Reading { temperature: None, humidity: Some(40), sampled_at: 0 };
    assert_eq!(text(&r), r#"{"ping":true,"temperature":0,"humidity":40}"#);
}

#[test]
fn payload_is_deterministic() {
    let a = Reading::from_sample(Some((21, 48)), 100);
    let b = Reading::from_sample(Some((21, 48)), 90_000);
    assert_eq!(payload(&a), payload(&a));
    assert_eq!(payload(&a), payload(&b));
}

#[test]
fn cycle_period_is_ten_seconds() {
    assert_eq!(CYCLE_PERIOD_MS, 10_000);
}
