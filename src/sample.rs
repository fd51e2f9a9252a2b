//! Measurements, readings, and the sensor pipeline's fallback for failed
//! reads.
//!
//! Each measurement is a typed integer in a fixed unit: hundredths of a
//! degree Celsius, hundredths of a percent of relative humidity, and pascals.
use vstd::prelude::*;

use crate::clock::WallTime;

verus! {

/// A temperature in hundredths of a degree Celsius
#[derive(Copy, Clone, Debug, Default, PartialEq, Eq, Structural)]
pub struct Temperature {
    pub centi_celsius: i32,
}

/// A relative humidity in hundredths of a percent
#[derive(Copy, Clone, Debug, Default, PartialEq, Eq, Structural)]
pub struct Humidity {
    pub centi_percent: u32,
}

/// A barometric pressure in pascals
#[derive(Copy, Clone, Debug, Default, PartialEq, Eq, Structural)]
pub struct Pressure {
    pub pascals: u32,
}

/// A sample: temperature, humidity and pressure
#[derive(Copy, Clone, Debug, Default, PartialEq, Eq, Structural)]
pub struct Sample {
    pub temperature: Temperature,
    pub humidity: Humidity,
    pub pressure: Pressure,
}

/// What a sensor reported; a measurement it did not take is missing
#[derive(Copy, Clone, Debug, PartialEq, Eq, Structural)]
pub struct RawSample {
    pub temperature: Option<Temperature>,
    pub humidity: Option<Humidity>,
    pub pressure: Option<Pressure>,
}

/// Where a reading's sample came from
#[derive(Copy, Clone, Debug, PartialEq, Eq, Structural)]
pub enum Provenance {
    /// Measured by the sensor
    Measured,
    /// Synthesized because the sensor could not be read
    Synthetic,
}

/// A reading: a sample and the time it was taken
#[derive(Copy, Clone, Debug, PartialEq, Eq, Structural)]
pub struct Reading {
    pub timestamp: WallTime,
    pub sample: Sample,
    pub provenance: Provenance,
}

/// An error in converting a raw sample
#[derive(Copy, Clone, Debug, PartialEq, Eq, Structural)]
pub enum Error {
    /// A measurement was missing
    MissingMeasurement,
}

/// Lowest synthetic temperature, 15 °C
pub const FALLBACK_TEMPERATURE_MIN: i32 = 1500;

/// Highest synthetic temperature, 30 °C
pub const FALLBACK_TEMPERATURE_MAX: i32 = 3000;

/// Lowest synthetic humidity, 20 %
pub const FALLBACK_HUMIDITY_MIN: u32 = 2000;

/// Highest synthetic humidity, 80 %
pub const FALLBACK_HUMIDITY_MAX: u32 = 8000;

/// Lowest synthetic pressure, 990 hPa
pub const FALLBACK_PRESSURE_MIN: u32 = 99_000;

/// Highest synthetic pressure, 1010 hPa
pub const FALLBACK_PRESSURE_MAX: u32 = 101_000;

/// `low + seed / u32::MAX * (high - low)`, rounded down
pub open spec fn scaled(seed: u32, low: int, high: int) -> int {
    low + (seed as int * (high - low)) / (u32::MAX as int)
}

/// The synthetic sample drawn from three seeds
pub open spec fn synthetic_sample(t: u32, h: u32, p: u32) -> Sample {
    Sample {
        temperature: Temperature {
            centi_celsius: scaled(t, FALLBACK_TEMPERATURE_MIN as int, FALLBACK_TEMPERATURE_MAX as int) as i32,
        },
        humidity: Humidity {
            centi_percent: scaled(h, FALLBACK_HUMIDITY_MIN as int, FALLBACK_HUMIDITY_MAX as int) as u32,
        },
        pressure: Pressure {
            pascals: scaled(p, FALLBACK_PRESSURE_MIN as int, FALLBACK_PRESSURE_MAX as int) as u32,
        },
    }
}

/// Whether a sample lies within the ranges of synthetic samples
pub open spec fn within_fallback_ranges(s: Sample) -> bool {
    &&& FALLBACK_TEMPERATURE_MIN <= s.temperature.centi_celsius <= FALLBACK_TEMPERATURE_MAX
    &&& FALLBACK_HUMIDITY_MIN <= s.humidity.centi_percent <= FALLBACK_HUMIDITY_MAX
    &&& FALLBACK_PRESSURE_MIN <= s.pressure.pascals <= FALLBACK_PRESSURE_MAX
}

/// `low + seed / u32::MAX * span`, rounded down
fn scale(seed: u32, low: u64, span: u64) -> (r: u64)
    requires
        span <= 1_000_000,
        low <= 1_000_000,
    ensures
        r == low + (seed as int * span as int) / (u32::MAX as int),
        low <= r <= low + span,
{
    proof {
        assert(seed as int * span as int <= u32::MAX as int * 1_000_000) by (nonlinear_arith)
            requires
                seed <= u32::MAX,
                span <= 1_000_000,
        ;
        lemma_scaled_bounds(seed, low as int, (low + span) as int);
    }
    let product = seed as u64 * span;
    low + product / (u32::MAX as u64)
}

impl Sample {
    /// A synthetic sample drawn from three random seeds: temperature in
    /// 15–30 °C, humidity in 20–80 %, pressure in 990–1010 hPa
    pub fn random(temperature_seed: u32, humidity_seed: u32, pressure_seed: u32) -> (r: Sample)
        ensures
            r == synthetic_sample(temperature_seed, humidity_seed, pressure_seed),
            within_fallback_ranges(r),
    {
        let t = scale(
            temperature_seed,
            FALLBACK_TEMPERATURE_MIN as u64,
            (FALLBACK_TEMPERATURE_MAX - FALLBACK_TEMPERATURE_MIN) as u64,
        );
        let h = scale(
            humidity_seed,
            FALLBACK_HUMIDITY_MIN as u64,
            (FALLBACK_HUMIDITY_MAX - FALLBACK_HUMIDITY_MIN) as u64,
        );
        let p = scale(
            pressure_seed,
            FALLBACK_PRESSURE_MIN as u64,
            (FALLBACK_PRESSURE_MAX - FALLBACK_PRESSURE_MIN) as u64,
        );
        Sample {
            temperature: Temperature { centi_celsius: t as i32 },
            humidity: Humidity { centi_percent: h as u32 },
            pressure: Pressure { pascals: p as u32 },
        }
    }

    /// The sample of a raw sensor report that holds all three measurements
    pub fn try_from_raw(raw: RawSample) -> (r: Result<Sample, Error>)
        ensures
            raw.temperature is None || raw.humidity is None || raw.pressure is None <==> r == Err::<
                Sample,
                Error,
            >(Error::MissingMeasurement),
            r matches Ok(s) ==> raw.temperature == Some(s.temperature) && raw.humidity == Some(
                s.humidity,
            ) && raw.pressure == Some(s.pressure),
    {
        match (raw.temperature, raw.humidity, raw.pressure) {
            (Some(temperature), Some(humidity), Some(pressure)) => Ok(
                Sample { temperature, humidity, pressure },
            ),
            _ => Err(Error::MissingMeasurement),
        }
    }
}

/// The sample that a cycle of the sensor pipeline reports
pub open spec fn cycle_sample<E>(read: Result<RawSample, E>, seeds: (u32, u32, u32)) -> (Sample, Provenance) {
    match read {
        Ok(raw) => if raw.temperature is Some && raw.humidity is Some && raw.pressure is Some {
            (
                Sample {
                    temperature: raw.temperature->0,
                    humidity: raw.humidity->0,
                    pressure: raw.pressure->0,
                },
                Provenance::Measured,
            )
        } else {
            (synthetic_sample(seeds.0, seeds.1, seeds.2), Provenance::Synthetic)
        },
        Err(_) => (synthetic_sample(seeds.0, seeds.1, seeds.2), Provenance::Synthetic),
    }
}

/// The reading of one cycle of the sensor pipeline: the sensor's sample when
/// it could be read with all three measurements, else a synthetic sample
/// drawn from the seeds
pub fn sample_or_fallback<E>(
    timestamp: WallTime,
    read: Result<RawSample, E>,
    seeds: (u32, u32, u32),
) -> (r: Reading)
    ensures
        r.timestamp == timestamp,
        (r.sample, r.provenance) == cycle_sample(read, seeds),
        r.provenance == Provenance::Synthetic ==> within_fallback_ranges(r.sample),
{
    let measured = match read {
        Ok(raw) => Sample::try_from_raw(raw),
        Err(_) => Err(Error::MissingMeasurement),
    };
    match measured {
        Ok(sample) => {
            proof {
                let raw = read->Ok_0;
                assert(sample == Sample {
                    temperature: raw.temperature->0,
                    humidity: raw.humidity->0,
                    pressure: raw.pressure->0,
                });
            }
            Reading { timestamp, sample, provenance: Provenance::Measured }
        },
        Err(e) => {
            assert(e == Error::MissingMeasurement);
            Reading {
            timestamp,
            sample: Sample::random(seeds.0, seeds.1, seeds.2),
            provenance: Provenance::Synthetic,
        }
        },
    }
}

proof fn lemma_scaled_bounds(seed: u32, low: int, high: int)
    requires
        low <= high,
    ensures
        low <= scaled(seed, low, high) <= high,
{
    let span = high - low;
    assert(seed as int * span <= u32::MAX as int * span) by (nonlinear_arith)
        requires
            seed <= u32::MAX,
            span >= 0,
    ;
    assert(0 <= seed as int * span) by (nonlinear_arith)
        requires
            span >= 0,
    ;
    vstd::arithmetic::div_mod::lemma_div_is_ordered(seed as int * span, u32::MAX as int * span, u32::MAX as int);
    assert(u32::MAX as int * span == span * u32::MAX as int) by (nonlinear_arith);
    vstd::arithmetic::div_mod::lemma_div_multiples_vanish(span, u32::MAX as int);
    vstd::arithmetic::div_mod::lemma_div_pos_is_pos(seed as int * span, u32::MAX as int);
}

/// Every synthetic sample lies within the fallback ranges
pub proof fn lemma_synthetic_within_ranges(t: u32, h: u32, p: u32)
    ensures
        within_fallback_ranges(synthetic_sample(t, h, p)),
{
    lemma_scaled_bounds(t, FALLBACK_TEMPERATURE_MIN as int, FALLBACK_TEMPERATURE_MAX as int);
    lemma_scaled_bounds(h, FALLBACK_HUMIDITY_MIN as int, FALLBACK_HUMIDITY_MAX as int);
    lemma_scaled_bounds(p, FALLBACK_PRESSURE_MIN as int, FALLBACK_PRESSURE_MAX as int);
}

} // verus!
