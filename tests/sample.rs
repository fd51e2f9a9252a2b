use sensor_node::clock::WallTime;
use sensor_node::sample::sample_or_fallback;
use sensor_node::sample::Humidity;
use sensor_node::sample::Pressure;
use sensor_node::sample::Provenance;
use sensor_node::sample::RawSample;
use sensor_node::sample::Sample;
use sensor_node::sample::Error as SampleError;
use sensor_node::sample::Temperature;

fn measured() -> Sample {
    Sample {
        temperature: Temperature { centi_celsius: 2150 },
        humidity: Humidity { centi_percent: 4200 },
        pressure: Pressure { pascals: 100_230 },
    }
}

#[test]
fn random_sample_at_range_ends() {
    let low = Sample::random(0, 0, 0);
    assert_eq!(low.temperature.centi_celsius, 1500);
    assert_eq!(low.humidity.centi_percent, 2000);
    assert_eq!(low.pressure.pascals, 99_000);
    let high = Sample::random(u32::MAX, u32::MAX, u32::MAX);
    assert_eq!(high.temperature.centi_celsius, 3000);
    assert_eq!(high.humidity.centi_percent, 8000);
    assert_eq!(high.pressure.pascals, 101_000);
}

#[test]
fn random_sample_midpoint() {
    let mid = Sample::random(u32::MAX / 2, u32::MAX / 2, u32::MAX / 2);
    assert_eq!(mid.temperature.centi_celsius, 2249);
    assert_eq!(mid.humidity.centi_percent, 4999);
    assert_eq!(mid.pressure.pascals, 99_999);
}

#[test]
fn default_sample_is_zero() {
    let zero = Sample::default();
    assert_eq!(zero.temperature.centi_celsius, 0);
    assert_eq!(zero.humidity.centi_percent, 0);
    assert_eq!(zero.pressure.pascals, 0);
}

#[test]
fn raw_sample_with_all_measurements() {
    let s = measured();
    let raw = RawSample { temperature: Some(s.temperature), humidity: Some(s.humidity), pressure: Some(s.pressure) };
    assert_eq!(Sample::try_from_raw(raw), Ok(s));
}

#[test]
fn raw_sample_missing_a_measurement() {
    let s = measured();
    let raw = RawSample { temperature: Some(s.temperature), humidity: None, pressure: Some(s.pressure) };
    assert_eq!(Sample::try_from_raw(raw), Err(SampleError::MissingMeasurement));
    let raw = RawSample { temperature: None, humidity: None, pressure: None };
    assert_eq!(Sample::try_from_raw(raw), Err(SampleError::MissingMeasurement));
}

#[test]
fn fallback_on_bus_error_and_missing_measurement() {
    let t = WallTime { unix_timestamp: 1_700_000_000, offset_seconds: 0 };
    let failed: Result<RawSample, ()> = Err(());
    let r = sample_or_fallback(t, failed, (0, u32::MAX, 0));
    assert_eq!(r.provenance, Provenance::Synthetic);
    assert_eq!(r.timestamp, t);
    assert_eq!(r.sample, Sample::random(0, u32::MAX, 0));

    let partial: Result<RawSample, ()> = Ok(RawSample { temperature: None, humidity: None, pressure: None });
    let r = sample_or_fallback(t, partial, (1, 2, 3));
    assert_eq!(r.provenance, Provenance::Synthetic);

    let s = measured();
    let full: Result<RawSample, ()> =
        Ok(RawSample { temperature: Some(s.temperature), humidity: Some(s.humidity), pressure: Some(s.pressure) });
    let r = sample_or_fallback(t, full, (1, 2, 3));
    assert_eq!(r.provenance, Provenance::Measured);
    assert_eq!(r.sample, s);
}
