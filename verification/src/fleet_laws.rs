//! What a fleet configuration must satisfy, and what it fixes of its satellites.
use crate::binary::{less, number_of, sum, Number};
use crate::collectors::{
    alphanumeric, chosen, lowercase_of, lowered, octave_channel, octave_name, satellite_names,
    snapshot_interval, ConstellationConfig, SatelliteCollector, Tier,
};
use crate::config::{
    is_first_fault, preset_fault, presets_sound, ConfigError, Fault, FleetConfig, OrbitWeights,
    Preset,
};
use crate::double::product_floor;
use crate::rounding_laws::the_cap_is_a_hundred_thousand;
use crate::satgen::SatelliteCategory;
use crate::telemetry::{figures, Figures};
use crate::text::{decimal, texts};
use vstd::arithmetic::power2::pow2;
use vstd::prelude::*;
use vstd::string::*;

verus! {

/// Whether a rate is above zero, or not a number, by its bit pattern.
pub open spec fn is_above_zero(bits: u64) -> bool {
    0 < bits < 0x8000_0000_0000_0000 || bits > 0xFFF0_0000_0000_0000
}

/// Whether ten channels of so many satellites at this rate come to more than 100,000 points a
/// second, as doubles tell them apart.
pub open spec fn sends_too_much(count: u32, bits: u64) -> bool {
    match number_of(bits) {
        Number::Finite(n) => 10 * count * n > 100_000 * pow2(1074) + pow2(1037),
        Number::Infinite { negative } => !negative && count > 0,
        Number::NotANumber => false,
    }
}

/// What is wrong with a preset, in the order in which it is looked for: no satellites, a rate that
/// is not above zero, more points than allowed, and a name, a prefix or a label that an earlier
/// preset has.
pub proof fn presets_are_checked_in_order(presets: Seq<Preset>, i: int)
    requires
        0 <= i < presets.len(),
    ensures
        ({
            let p = presets[i];
            let bits = p.rate_hz.bits;
            let same_name = exists|j: int| 0 <= j < i && (#[trigger] presets[j]).name@ == p.name@;
            let same_prefix = exists|j: int|
                0 <= j < i && (#[trigger] presets[j]).sat_prefix@ == p.sat_prefix@;
            let same_label = exists|j: int|
                0 <= j < i && (#[trigger] presets[j]).label@ == p.label@;
            let fault = preset_fault(presets, i);
            &&& p.count == 0 ==> fault == Some(Fault::ZeroCount(p.name@))
            &&& p.count > 0 && !is_above_zero(bits) ==> fault == Some(
                Fault::NonPositiveRate(p.name@),
            )
            &&& p.count > 0 && is_above_zero(bits) && sends_too_much(p.count, bits) ==> fault
                == Some(
                Fault::TooManyPoints {
                    name: p.name@,
                    count: p.count as nat,
                    rate: p.rate_hz.text@,
                },
            )
            &&& p.count > 0 && is_above_zero(bits) && !sends_too_much(p.count, bits) ==> {
                &&& same_name ==> fault == Some(Fault::DuplicateName(p.name@))
                &&& !same_name && same_prefix ==> fault == Some(
                    Fault::DuplicatePrefix(p.sat_prefix@),
                )
                &&& !same_name && !same_prefix && same_label ==> fault == Some(
                    Fault::DuplicateLabel(p.label@),
                )
                &&& !same_name && !same_prefix && !same_label ==> fault is None
            }
        }),
{
    let p = presets[i];
    the_cap_is_a_hundred_thousand((p.count * 10) as nat, p.rate_hz.bits);
    assert(p.count as nat * 10 == 10 * p.count);
}

/// A fleet passes exactly if it has presets, each of them is in order, and the weights, added up
/// one after the other, come to more than zero or to no number.
pub proof fn fleets_pass_exactly_if_sound(fleet: FleetConfig, checked: Result<(), ConfigError>)
    requires
        call_ensures(FleetConfig::validate, (&fleet,), checked),
    ensures
        ({
            let w = fleet.orbits;
            let weight = sum(
                sum(sum(number_of(w.leo), number_of(w.meo)), number_of(w.geo)),
                number_of(w.heo),
            );
            checked is Ok <==> {
                &&& fleet.presets@.len() > 0
                &&& forall|i: int|
                    0 <= i < fleet.presets@.len() ==> (#[trigger] preset_fault(
                        fleet.presets@,
                        i,
                    )) is None
                &&& weight is NotANumber || less(Number::Finite(0), weight)
            }
        }),
        checked matches Err(error) ==> is_first_fault(fleet, error@),
{
}

/// The error is the one of the first preset that has one. Without presets it says so, and the
/// weights are looked at last.
pub proof fn the_first_fault_is_reported(
    fleet: FleetConfig,
    checked: Result<(), ConfigError>,
    i: int,
    fault: Fault,
)
    requires
        call_ensures(FleetConfig::validate, (&fleet,), checked),
    ensures
        fleet.presets@.len() == 0 ==> checked is Err && checked->Err_0@ == Fault::NoPresets,
        0 <= i < fleet.presets@.len() && preset_fault(fleet.presets@, i) == Some(fault) && (forall|
            j: int,
        |
            0 <= j < i ==> (#[trigger] preset_fault(fleet.presets@, j)) is None) ==> checked is Err
            && checked->Err_0@ == fault,
        fleet.presets@.len() > 0 && (forall|j: int|
            0 <= j < fleet.presets@.len() ==> (#[trigger] preset_fault(fleet.presets@, j)) is None)
            && checked is Err ==> checked->Err_0@ == Fault::NoOrbitWeight,
{
    if 0 <= i < fleet.presets@.len() && preset_fault(fleet.presets@, i) == Some(fault) && (forall|
        j: int,
    | 0 <= j < i ==> (#[trigger] preset_fault(fleet.presets@, j)) is None) {
        assert(checked is Err);
        let error = checked->Err_0@;
        let k = choose|k: int|
            {
                &&& 0 <= k < fleet.presets@.len()
                &&& presets_sound(fleet.presets@, k)
                &&& #[trigger] preset_fault(fleet.presets@, k) == Some(error)
            };
        if k < i {
            assert(preset_fault(fleet.presets@, k) is None);
        } else if i < k {
            assert(preset_fault(fleet.presets@, i) is None);
        }
    }
}

/// Every error names what is wrong.
pub proof fn errors_name_the_fault(error: ConfigError, target: &str, text: String)
    requires
        call_ensures(ConfigError::message, (&error, target), text),
    ensures
        match error@ {
            Fault::NoPresets => text@ == "fleet config has no presets"@,
            Fault::ZeroCount(name) => text@ == "preset '"@ + name + "' has count 0"@,
            Fault::NonPositiveRate(name) => text@ == "preset '"@ + name
                + "' has non-positive rate_hz"@,
            Fault::TooManyPoints { name, count, rate } => text@ == "preset '"@ + name
                + "' targets "@ + target@ + " pts/s, above the "@ + decimal(100_000)
                + " pts/s cap ("@ + decimal(count) + " sats x "@ + decimal(10) + " channels x "@
                + rate + " Hz)"@,
            Fault::DuplicateName(name) => text@ == "duplicate preset name '"@ + name + "'"@,
            Fault::DuplicatePrefix(prefix) => text@ == "duplicate sat_prefix '"@ + prefix + "'"@,
            Fault::DuplicateLabel(label) => text@ == "duplicate preset label '"@ + label + "'"@,
            Fault::NoOrbitWeight => text@ == "orbit weights must sum to a positive value"@,
        },
{
}

/// Without weights of its own a fleet has seven in ten satellites in low orbit, fifteen in a
/// hundred in medium orbit, one in ten in the geostationary belt and one in twenty in highly
/// elliptical orbit, each as the nearest double.
pub proof fn default_weights(w: OrbitWeights)
    requires
        call_ensures(OrbitWeights::default, (), w),
    ensures
        w.leo == 0x3FE6_6666_6666_6666,
        w.meo == 0x3FC3_3333_3333_3333,
        w.geo == 0x3FB9_9999_9999_999A,
        w.heo == 0x3FA9_9999_9999_999A,
{
}

/// A preset aims at ten points for each satellite and tick.
pub proof fn presets_aim_at_ten_channels(preset: Preset, points: u64)
    requires
        call_ensures(Preset::points_per_sec, (&preset,), points),
    ensures
        points == product_floor((10 * preset.count) as nat, preset.rate_hz.bits),
{
    assert(preset.count as nat * 10 == 10 * preset.count);
}

/// The figures of each category: carrier, panel power, temperatures in sun and shade, throughput.
pub proof fn categories_have_their_figures(category: SatelliteCategory, f: Figures)
    requires
        call_ensures(figures, (category,), f),
    ensures
        f.carrier_mhz == match category {
            SatelliteCategory::Communications => 12_000int,
            SatelliteCategory::Navigation => 1_575,
            SatelliteCategory::Weather => 8_000,
            SatelliteCategory::EarthObservation => 8_200,
            SatelliteCategory::Science => 2_250,
        },
        f.max_power_w == match category {
            SatelliteCategory::Communications => 3_000int,
            SatelliteCategory::Navigation => 1_500,
            SatelliteCategory::Weather => 1_200,
            SatelliteCategory::EarthObservation => 800,
            SatelliteCategory::Science => 600,
        },
        f.hot_c == match category {
            SatelliteCategory::Communications => 55int,
            SatelliteCategory::Science => 35,
            _ => 45,
        },
        f.cold_c == match category {
            SatelliteCategory::Communications => -25int,
            SatelliteCategory::Science => -60,
            _ => -40,
        },
        f.max_throughput_mbps == match category {
            SatelliteCategory::Communications => 150int,
            SatelliteCategory::EarthObservation => 800,
            SatelliteCategory::Navigation => 2,
            SatelliteCategory::Weather => 20,
            SatelliteCategory::Science => 10,
        },
{
}

/// A satellite is chosen exactly if nothing was asked for or its name is among those asked for, and
/// the chosen ones keep their order.
pub proof fn chosen_satellites_were_asked_for(
    names: Seq<Seq<char>>,
    wanted: Seq<Seq<char>>,
    n: nat,
    place: usize,
)
    requires
        n <= names.len() <= usize::MAX,
    ensures
        chosen(names, wanted, n).contains(place) <==> place < n && (wanted.len() == 0
            || wanted.contains(names[place as int])),
        forall|i: int, j: int|
            0 <= i < j < chosen(names, wanted, n).len() ==> chosen(names, wanted, n)[i] < chosen(
                names,
                wanted,
                n,
            )[j],
    decreases n,
{
    if n > 0 {
        let before = chosen(names, wanted, (n - 1) as nat);
        let now = chosen(names, wanted, n);
        chosen_satellites_were_asked_for(names, wanted, (n - 1) as nat, place);
        assert forall|i: int| 0 <= i < before.len() implies #[trigger] before[i] < n - 1 by {
            let p = before[i];
            assert(before.contains(p));
            chosen_satellites_were_asked_for(names, wanted, (n - 1) as nat, p);
        }
        if now.len() > before.len() {
            assert(now[before.len() as int] == (n - 1) as usize);
            if before.contains(place) {
                let i = choose|i: int| 0 <= i < before.len() && before[i] == place;
                assert(now[i] == place);
            }
            if now.contains(place) && place != (n - 1) as usize {
                let i = choose|i: int| 0 <= i < now.len() && now[i] == place;
                assert(before[i] == place);
            }
        }
    }
}

/// A satellite is collected under its name in lowercase, with an underscore for each character that
/// is neither a letter nor a number, and at every interval.
pub proof fn collectors_have_plain_names(collector: SatelliteCollector, tier: Tier, i: int)
    requires
        call_ensures(
            SatelliteCollector::new,
            (collector.config, collector.ground_station),
            collector,
        ),
        call_ensures(SatelliteCollector::tier, (&collector,), tier),
    ensures
        ({
            let lower = lowercase_of(collector.config.name@);
            &&& collector.name@.len() == lower.len()
            &&& 0 <= i < lower.len() ==> collector.name@[i] == if alphanumeric(lower[i]) {
                lower[i]
            } else {
                '_'
            }
        }),
        tier == Tier::Fast,
{
}

/// Without deltas every cycle is a snapshot, else one in so many as was asked for.
pub proof fn deltas_can_be_switched_off(no_delta: bool, every: u64, interval: u64)
    requires
        call_ensures(snapshot_interval, (no_delta, every), interval),
    ensures
        no_delta ==> interval == 1,
        !no_delta ==> interval == every,
{
}

/// The first octave of a noise channel has the channel's name, each further one its number behind
/// it.
pub proof fn octaves_are_numbered(channel: Seq<char>, octave: nat)
    ensures
        octave_name(channel, 0) == channel,
        octave > 0 ==> octave_name(channel, octave) == channel + ".oct"@ + decimal(octave),
{
}

/// Satellites are chosen by their names, in upper or lower case: the places given are those of the
/// satellites whose lowercase name is that of one asked for, in order.
pub proof fn satellites_are_chosen_by_name(
    constellation: ConstellationConfig,
    wanted: Vec<String>,
    places: Vec<usize>,
    place: usize,
)
    requires
        call_ensures(ConstellationConfig::choose_satellites, (&constellation, &wanted), places),
        constellation.satellites@.len() <= usize::MAX,
    ensures
        places@.contains(place) <==> place < constellation.satellites@.len() && (wanted@.len() == 0
            || exists|j: int|
            0 <= j < wanted@.len() && lowercase_of((#[trigger] wanted@[j])@) == lowercase_of(
                constellation.satellites@[place as int].name@,
            )),
{
    let names = lowered(
        satellite_names(constellation.satellites@),
    );
    let asked = lowered(texts(wanted@));
    chosen_satellites_were_asked_for(names, asked, names.len(), place);
    if place < names.len() {
        let name = names[place as int];
        assert(name == lowercase_of(constellation.satellites@[place as int].name@));
        if asked.contains(name) {
            let j = choose|j: int| 0 <= j < asked.len() && asked[j] == name;
            assert(asked[j] == lowercase_of(wanted@[j]@));
        }
        if exists|j: int|
            0 <= j < wanted@.len() && lowercase_of((#[trigger] wanted@[j])@) == lowercase_of(
                constellation.satellites@[place as int].name@,
            ) {
            let j = choose|j: int|
                0 <= j < wanted@.len() && lowercase_of((#[trigger] wanted@[j])@) == lowercase_of(
                    constellation.satellites@[place as int].name@,
                );
            assert(asked[j] == name);
        }
    }
}

/// The name of an octave is made as it is numbered.
pub proof fn octave_channels_are_named(channel: &str, octave: u64, name: String)
    requires
        call_ensures(octave_channel, (channel, octave), name),
    ensures
        name@ == octave_name(channel@, octave as nat),
{
}

} // verus!
