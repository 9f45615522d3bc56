//! Temperature evidence: what counts as a plausible reading, how the sensors
//! of the processor are picked out of a list of thermal components and
//! averaged, how raw firmware values become degrees, and the estimate from
//! load that stands in when no sensor answers.
//!
//! Temperatures are millionths of a degree Celsius.

use vstd::prelude::*;
use crate::label::{is_cpu_label, lowercase_of, names_processor};
use crate::usage::{all_between, lemma_mean_bounds, mean_of, mean_usage};

verus! {

/// Readings at or below this are not believed: fifty degrees of frost.
pub const SENSOR_FLOOR: i64 = -50_000_000;

/// Readings at or above this are not believed: one hundred and fifty degrees.
pub const SENSOR_CEILING: i64 = 150_000_000;

/// The estimate for an idle processor: thirty-five degrees.
pub const IDLE_ESTIMATE: i64 = 35_000_000;

/// What the estimate rises by for each thousandth of a percent of load:
/// 0.45 degrees for each percent.
pub const ESTIMATE_SLOPE: i64 = 450;

/// Millionths of a degree in a tenth of a degree.
pub const TENTH_DEGREE: i64 = 100_000;

/// Zero degrees Celsius on the Kelvin scale, in millionths: 273.15 K.
pub const FREEZING_POINT: i64 = 273_150_000;

/// A temperature that a sensor of a working machine can report: strictly
/// between [`SENSOR_FLOOR`] and [`SENSOR_CEILING`].
pub open spec fn plausible(temperature: int) -> bool {
    SENSOR_FLOOR < temperature < SENSOR_CEILING
}

/// A temperature that a listed thermal component is believed to report:
/// above freezing and below [`SENSOR_CEILING`].
pub open spec fn in_component_range(temperature: int) -> bool {
    0 < temperature < SENSOR_CEILING
}

/// The temperature that a thermal zone reports in tenths of a kelvin.
pub open spec fn decikelvin_to_celsius(raw: u32) -> int {
    raw * TENTH_DEGREE - FREEZING_POINT
}

/// The temperature that a probe reports in tenths of a degree Celsius.
pub open spec fn decicelsius_to_celsius(raw: u32) -> int {
    raw * TENTH_DEGREE
}

/// The unit in which a firmware interface reports raw temperatures.
#[derive(Clone, Copy, Debug, PartialEq, Eq, Structural)]
pub enum RawScale {
    /// Tenths of a kelvin, as thermal zones report.
    DeciKelvin,
    /// Tenths of a degree Celsius, as temperature probes report.
    DeciCelsius,
}

/// The temperature that a raw value stands for on the given scale.
pub open spec fn raw_to_celsius(scale: RawScale, raw: u32) -> int {
    match scale {
        RawScale::DeciKelvin => decikelvin_to_celsius(raw),
        RawScale::DeciCelsius => decicelsius_to_celsius(raw),
    }
}

/// The temperatures that a list of raw values stands for.
pub open spec fn raw_readings(scale: RawScale, raw: Seq<u32>) -> Seq<int> {
    Seq::new(raw.len(), |i: int| raw_to_celsius(scale, raw[i]))
}

/// The temperature guessed from the mean load: [`IDLE_ESTIMATE`] at rest,
/// rising by [`ESTIMATE_SLOPE`] with each thousandth of a percent.
pub open spec fn load_estimate(usage: int) -> int {
    IDLE_ESTIMATE + ESTIMATE_SLOPE * usage
}

/// One entry of the list of thermal components that the operating system
/// reports.
#[derive(Debug, PartialEq, Eq)]
pub struct ThermalComponent {
    /// The name the platform gives the sensor.
    pub label: String,
    /// What it reads.
    pub temperature: i64,
}

/// The component counts towards the temperature of the processor: its
/// reading is in range and its label names the processor.
pub open spec fn qualifies(component: ThermalComponent) -> bool {
    in_component_range(component.temperature as int) && names_processor(
        lowercase_of(component.label@),
    )
}

/// The readings of the components that qualify, in the order of the list.
pub open spec fn processor_readings(components: Seq<ThermalComponent>) -> Seq<u32>
    decreases components.len(),
{
    if components.len() == 0 {
        Seq::empty()
    } else {
        let front = processor_readings(components.drop_last());
        if qualifies(components.last()) {
            front.push(components.last().temperature as u32)
        } else {
            front
        }
    }
}

/// The mean over the components that qualify, if there is one.
pub open spec fn component_mean(components: Seq<ThermalComponent>) -> Option<i64> {
    let kept = processor_readings(components);
    if kept.len() == 0 {
        None
    } else {
        Some(mean_of(kept) as i64)
    }
}

/// The first plausible temperature of a sequence, if it has one.
pub open spec fn first_plausible(readings: Seq<int>) -> Option<int>
    decreases readings.len(),
{
    if readings.len() == 0 {
        None
    } else if plausible(readings[0]) {
        Some(readings[0])
    } else {
        first_plausible(readings.drop_first())
    }
}

/// The first plausible temperature among raw firmware values, if there is
/// one.
pub open spec fn first_raw_plausible(scale: RawScale, raw: Seq<u32>) -> Option<i64> {
    match first_plausible(raw_readings(scale, raw)) {
        Some(t) => Some(t as i64),
        None => None,
    }
}

/// The guess from the load of the cores, if any core is known and the guess
/// is plausible.
pub open spec fn estimate_of(cores: Seq<u32>) -> Option<i64> {
    if cores.len() > 0 && plausible(load_estimate(mean_of(cores))) {
        Some(load_estimate(mean_of(cores)) as i64)
    } else {
        None
    }
}

/// Whether a sensor reading is believed.
pub fn is_plausible(temperature: i64) -> (believed: bool)
    ensures
        believed == plausible(temperature as int),
{
    SENSOR_FLOOR < temperature && temperature < SENSOR_CEILING
}

/// Whether the reading of a listed thermal component is believed.
pub fn component_in_range(temperature: i64) -> (believed: bool)
    ensures
        believed == in_component_range(temperature as int),
{
    0 < temperature && temperature < SENSOR_CEILING
}

/// A reading of a direct sensor, kept only if it is plausible.
pub fn accept_reading(temperature: i64) -> (kept: Option<i64>)
    ensures
        kept == if plausible(temperature as int) {
            Some(temperature)
        } else {
            None::<i64>
        },
{
    if is_plausible(temperature) {
        Some(temperature)
    } else {
        None
    }
}

/// Degrees Celsius from tenths of a kelvin.
pub fn celsius_from_decikelvin(raw: u32) -> (temperature: i64)
    ensures
        temperature == decikelvin_to_celsius(raw),
{
    raw as i64 * TENTH_DEGREE - FREEZING_POINT
}

/// Degrees Celsius from tenths of a degree.
pub fn celsius_from_decicelsius(raw: u32) -> (temperature: i64)
    ensures
        temperature == decicelsius_to_celsius(raw),
{
    raw as i64 * TENTH_DEGREE
}

/// The estimate from a mean load.
pub fn estimate_from_usage(usage: u32) -> (temperature: i64)
    ensures
        temperature == load_estimate(usage as int),
        usage <= 100_000 ==> IDLE_ESTIMATE <= temperature <= 80_000_000,
{
    IDLE_ESTIMATE + ESTIMATE_SLOPE * usage as i64
}

/// Degrees Celsius from a raw value on the given scale.
pub fn celsius_from_raw(scale: RawScale, raw: u32) -> (temperature: i64)
    ensures
        temperature == raw_to_celsius(scale, raw),
{
    match scale {
        RawScale::DeciKelvin => celsius_from_decikelvin(raw),
        RawScale::DeciCelsius => celsius_from_decicelsius(raw),
    }
}

/// What is found is plausible, and it is the first plausible entry: all
/// before it are not. Nothing is found only where no entry is plausible.
pub proof fn lemma_first_plausible(readings: Seq<int>)
    ensures
        match first_plausible(readings) {
            Some(t) => plausible(t) && exists|i: int|
                0 <= i < readings.len() && readings[i] == t && forall|j: int|
                    0 <= j < i ==> !plausible(#[trigger] readings[j]),
            None => forall|j: int| 0 <= j < readings.len() ==> !plausible(#[trigger] readings[j]),
        },
    decreases readings.len(),
{
    if readings.len() > 0 && !plausible(readings[0]) {
        let rest = readings.drop_first();
        lemma_first_plausible(rest);
        match first_plausible(rest) {
            Some(t) => {
                let i = choose|i: int|
                    0 <= i < rest.len() && rest[i] == t && forall|j: int|
                        0 <= j < i ==> !plausible(#[trigger] rest[j]);
                assert(readings[i + 1] == t);
                assert forall|j: int| 0 <= j < i + 1 implies !plausible(
                    #[trigger] readings[j],
                ) by {
                    if j > 0 {
                        assert(readings[j] == rest[j - 1]);
                    }
                }
            },
            None => {
                assert forall|j: int| 0 <= j < readings.len() implies !plausible(
                    #[trigger] readings[j],
                ) by {
                    if j > 0 {
                        assert(readings[j] == rest[j - 1]);
                    }
                }
            },
        }
    } else if readings.len() > 0 {
        assert(readings[0] == readings[0]);
    }
}

/// The first plausible temperature among raw firmware values, in the order
/// in which the query returned them.
pub fn first_raw_reading(scale: RawScale, raw: &Vec<u32>) -> (found: Option<i64>)
    ensures
        found == first_raw_plausible(scale, raw@),
        found is Some ==> plausible(found.unwrap() as int),
{
    let ghost all = raw_readings(scale, raw@);
    let n: usize = raw.len();
    let mut i: usize = 0;
    assert(all.skip(0) =~= all);
    while i < n
        invariant
            n == raw@.len(),
            i <= n,
            all == raw_readings(scale, raw@),
            first_plausible(all) == first_plausible(all.skip(i as int)),
        decreases n - i,
    {
        let t: i64 = celsius_from_raw(scale, raw[i]);
        proof {
            let rest = all.skip(i as int);
            assert(rest[0] == t);
            assert(rest.drop_first() =~= all.skip(i + 1));
        }
        if is_plausible(t) {
            return Some(t);
        }
        i = i + 1;
    }
    assert(all.skip(n as int).len() == 0);
    None
}

/// The readings that count towards the processor's temperature: those of
/// the components whose label names the processor and whose reading is in
/// the range believed of a component.
pub fn select_processor_readings(components: &Vec<ThermalComponent>) -> (kept: Vec<u32>)
    ensures
        kept@ == processor_readings(components@),
        forall|i: int| 0 <= i < kept@.len() ==> 0 < #[trigger] kept@[i] < SENSOR_CEILING,
{
    let mut kept: Vec<u32> = Vec::new();
    let n: usize = components.len();
    let mut i: usize = 0;
    while i < n
        invariant
            n == components@.len(),
            i <= n,
            kept@ == processor_readings(components@.take(i as int)),
            forall|j: int| 0 <= j < kept@.len() ==> 0 < #[trigger] kept@[j] < SENSOR_CEILING,
        decreases n - i,
    {
        proof {
            let next = components@.take(i + 1);
            assert(next.drop_last() =~= components@.take(i as int));
            assert(next.last() == components@[i as int]);
        }
        let t: i64 = components[i].temperature;
        if component_in_range(t) && is_cpu_label(components[i].label.as_str()) {
            kept.push(t as u32);
        }
        i = i + 1;
    }
    assert(components@.take(n as int) =~= components@);
    kept
}

/// Every reading that is kept is in the range believed of a component.
pub proof fn lemma_processor_readings_range(components: Seq<ThermalComponent>)
    ensures
        forall|i: int|
            0 <= i < processor_readings(components).len() ==> in_component_range(
                #[trigger] processor_readings(components)[i] as int,
            ),
        processor_readings(components).len() <= components.len(),
    decreases components.len(),
{
    if components.len() > 0 {
        lemma_processor_readings_range(components.drop_last());
    }
}

/// The mean over the qualifying components, where there is one, is in the
/// range believed of a component, and so plausible.
pub proof fn lemma_component_mean_range(components: Seq<ThermalComponent>)
    ensures
        component_mean(components) is Some ==> in_component_range(
            component_mean(components).unwrap() as int,
        ) && plausible(component_mean(components).unwrap() as int),
{
    let kept = processor_readings(components);
    lemma_processor_readings_range(components);
    if kept.len() > 0 {
        lemma_mean_bounds(kept, 1, SENSOR_CEILING - 1);
    }
}

/// The temperature of the processor as the thermal components give it: the
/// mean, rounded down, over the components that qualify; nothing when none
/// does.
pub fn component_average(components: &Vec<ThermalComponent>) -> (average: Option<i64>)
    ensures
        average == component_mean(components@),
        average is Some ==> in_component_range(average.unwrap() as int),
{
    let kept = select_processor_readings(components);
    if kept.len() == 0 {
        return None;
    }
    let mean: u32 = mean_usage(&kept);
    proof {
        lemma_component_mean_range(components@);
    }
    Some(mean as i64)
}

/// The estimate from the load of the cores: nothing when no core is known
/// or the estimate would not be plausible.
pub fn estimate_from_cores(cores: &Vec<u32>) -> (estimate: Option<i64>)
    ensures
        estimate == estimate_of(cores@),
        estimate is Some ==> plausible(estimate.unwrap() as int),
        cores@.len() > 0 && all_between(cores@, 0, 100_000) ==> estimate is Some,
{
    if cores.len() == 0 {
        return None;
    }
    let guess: i64 = estimate_from_usage(mean_usage(cores));
    accept_reading(guess)
}

/// At rest the estimate is thirty-five degrees, at full load eighty, and
/// more load always gives a higher estimate.
pub proof fn lemma_estimate_rises(lighter: int, heavier: int)
    requires
        lighter < heavier,
    ensures
        load_estimate(0) == 35_000_000,
        load_estimate(100_000) == 80_000_000,
        load_estimate(lighter) < load_estimate(heavier),
{
}

} // verus!
