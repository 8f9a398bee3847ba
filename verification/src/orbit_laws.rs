//! What a satellite's name fixes: its number, its region, its orbit and its category, in numbers.
use crate::binary::{number_of, share_units, sum, Number};
use crate::config::{OrbitWeights, Preset};
use crate::rounding_laws::{apart, rounding_is_close, shares_are_close};
use crate::satgen::{
    batch, build_sat, category_at, category_name, fnv, generate, satellite, satellite_name,
    shell_at, text_hash, unit_steps, Quantity, SatelliteCategory, SatelliteConfig, Shell,
};
use crate::text::decimal;
use vstd::prelude::*;
use vstd::string::*;
use vstd::utf8::encode_utf8;

verus! {

/// The hash begins with the 64-bit offset basis of FNV-1a. Each byte is mixed in by exclusive or,
/// before the multiplication with the 64-bit prime of FNV.
pub proof fn hashes_follow_fnv1a(bytes: Seq<u8>, byte: u8)
    ensures
        fnv(Seq::empty()) == 0xcbf29ce484222325,
        fnv(bytes.push(byte)) == (fnv(bytes) ^ (byte as u64)).wrapping_mul(0x100000001b3),
{
    assert(bytes.push(byte).drop_last() =~= bytes);
}

/// The draw for a parameter is the upper 53 bits of the hash of the name, a colon and the key.
pub proof fn draws_are_upper_hash_bits(name: Seq<char>, key: Seq<char>)
    ensures
        unit_steps(name, key) == text_hash(name.push(':') + key) / 2048,
        text_hash(name) == fnv(encode_utf8(name)),
{
    reveal_strlit(":");
    assert(name + ":"@ =~= name.push(':'));
    let h = text_hash(name.push(':') + key);
    assert(h >> 11u64 == h / 2048) by (bit_vector);
}

/// A parameter drawn for a name: so many 2^-53 steps from one end of its range to the other.
pub open spec fn is_drawn(
    q: Quantity,
    name: Seq<char>,
    key: Seq<char>,
    lo: int,
    hi: int,
    per: int,
) -> bool {
    q.lo == lo && q.hi == hi && q.per == per && q.steps == text_hash(name.push(':') + key) / 2048
}

/// A parameter that every name shares.
pub open spec fn is_fixed(q: Quantity, value: int, per: int) -> bool {
    q.lo == value && q.hi == value && q.per == per && q.steps == 0
}

/// Low orbits lie 400 to 1200 km high. Their inclination is one of six usual ones, in tenths of a
/// degree, picked by the hash for the key `inc`.
pub proof fn low_orbits(name: Seq<char>, w: OrbitWeights)
    requires
        shell_at((text_hash(name + ":shell"@) / 2048) as int, w) == Shell::Leo,
    ensures
        ({
            let sat = satellite(name, w);
            let tenths = seq![516int, 978, 450, 285, 634, 874];
            &&& is_drawn(sat.semi_major_axis_km, name, "sma"@, 6_771, 7_571, 1)
            &&& is_drawn(sat.eccentricity, name, "ecc"@, 1, 200, 10_000)
            &&& is_fixed(
                sat.inclination_deg,
                tenths[(text_hash(name.push(':') + "inc"@) % 6) as int],
                10,
            )
            &&& is_drawn(sat.arg_perigee_deg, name, "argp"@, 0, 360, 1)
        }),
{
    lemma_draws(name);
}

/// Medium orbits lie where navigation satellites do, inclined by 50 to 65 degrees.
pub proof fn medium_orbits(name: Seq<char>, w: OrbitWeights)
    requires
        shell_at((text_hash(name + ":shell"@) / 2048) as int, w) == Shell::Meo,
    ensures
        ({
            let sat = satellite(name, w);
            &&& is_drawn(sat.semi_major_axis_km, name, "sma"@, 24_000, 29_600, 1)
            &&& is_drawn(sat.eccentricity, name, "ecc"@, 1, 100, 10_000)
            &&& is_drawn(sat.inclination_deg, name, "inc"@, 50, 65, 1)
            &&& is_drawn(sat.arg_perigee_deg, name, "argp"@, 0, 360, 1)
        }),
{
    lemma_draws(name);
}

/// Geostationary orbits lie within 10 km of 42,164 km and are inclined by less than a tenth of a
/// degree.
pub proof fn geostationary_orbits(name: Seq<char>, w: OrbitWeights)
    requires
        shell_at((text_hash(name + ":shell"@) / 2048) as int, w) == Shell::Geo,
    ensures
        ({
            let sat = satellite(name, w);
            &&& is_drawn(sat.semi_major_axis_km, name, "sma"@, 42_154, 42_174, 1)
            &&& is_fixed(sat.eccentricity, 1, 10_000)
            &&& is_drawn(sat.inclination_deg, name, "inc"@, 0, 1, 10)
            &&& is_fixed(sat.arg_perigee_deg, 0, 1)
        }),
{
    lemma_draws(name);
}

/// Highly elliptical orbits are of the Molniya type: inclined by 63.4 degrees, with the perigee at
/// 270 degrees and an eccentricity of 0.70 to 0.74.
pub proof fn elliptical_orbits(name: Seq<char>, w: OrbitWeights)
    requires
        shell_at((text_hash(name + ":shell"@) / 2048) as int, w) == Shell::Heo,
    ensures
        ({
            let sat = satellite(name, w);
            &&& is_drawn(sat.semi_major_axis_km, name, "sma"@, 26_354, 26_754, 1)
            &&& is_drawn(sat.eccentricity, name, "ecc"@, 7_000, 7_400, 10_000)
            &&& is_fixed(sat.inclination_deg, 634, 10)
            &&& is_fixed(sat.arg_perigee_deg, 270, 1)
        }),
{
    lemma_draws(name);
}

/// In every region the node and the mean anomaly are drawn from the full circle, each by its own
/// key, and the satellite keeps its name, a six-digit number out of its hash, and the epoch.
pub proof fn names_fix_the_rest(name: Seq<char>, w: OrbitWeights)
    ensures
        ({
            let sat = satellite(name, w);
            &&& sat.name == name
            &&& sat.norad_id == 100_000 + fnv(encode_utf8(name)) as int % 900_000
            &&& is_drawn(sat.raan_deg, name, "raan"@, 0, 360, 1)
            &&& is_drawn(sat.mean_anomaly_epoch_deg, name, "ma"@, 0, 360, 1)
            &&& sat.epoch_unix == 1_700_000_000
        }),
{
    lemma_draws(name);
}

proof fn lemma_draws(name: Seq<char>)
    ensures
        unit_steps(name, "shell"@) == text_hash(name + ":shell"@) / 2048,
        forall|key: Seq<char>|
            #[trigger] unit_steps(name, key) == text_hash(name.push(':') + key) / 2048,
        name + ":"@ == name.push(':'),
{
    reveal_strlit(":");
    reveal_strlit("shell");
    reveal_strlit(":shell");
    assert(name + ":"@ =~= name.push(':'));
    assert(name.push(':') + "shell"@ =~= name + ":shell"@);
    assert forall|key: Seq<char>| #[trigger] unit_steps(name, key) == text_hash(
        name.push(':') + key,
    ) / 2048 by {
        draws_are_upper_hash_bits(name, key);
    }
}

/// Thirty in a hundred draws are for communications, the next 25 for earth observation, the next
/// 20 for science, the next 15 for weather and the last 10 for navigation: a draw falls where its
/// part of 2^53 lies, rounded up to a step.
pub proof fn categories_have_their_shares(steps: int)
    requires
        0 <= steps < 0x20_0000_0000_0000,
    ensures
        ({
            let part = |percent: int| 100 * steps < percent * 0x20_0000_0000_0000;
            category_at(steps) == if part(30) {
                SatelliteCategory::Communications
            } else if part(55) {
                SatelliteCategory::EarthObservation
            } else if part(75) {
                SatelliteCategory::Science
            } else if part(90) {
                SatelliteCategory::Weather
            } else {
                SatelliteCategory::Navigation
            }
        }),
{
}

/// The category follows from the draw for the key `cat`, and each has its own identifier.
pub proof fn categories_are_drawn(name: Seq<char>, w: OrbitWeights)
    ensures
        satellite(name, w).category == category_at(
            (text_hash(name.push(':') + "cat"@) / 2048) as int,
        ),
        category_name(SatelliteCategory::Communications) == "communications"@,
        category_name(SatelliteCategory::EarthObservation) == "earth_observation"@,
        category_name(SatelliteCategory::Navigation) == "navigation"@,
        category_name(SatelliteCategory::Weather) == "weather"@,
        category_name(SatelliteCategory::Science) == "science"@,
{
    lemma_draws(name);
}

/// A satellite is called by the prefix of its batch, a hyphen and its number, counted from one and
/// filled up with zeros to five digits.
pub proof fn batches_are_numbered_from_one(prefix: Seq<char>, count: nat, w: OrbitWeights, i: int)
    requires
        0 <= i < count,
    ensures
        batch(prefix, count, w).len() == count,
        batch(prefix, count, w)[i] == satellite(satellite_name(prefix, (i + 1) as nat), w),
        ({
            let name = satellite_name(prefix, (i + 1) as nat);
            let digits = decimal((i + 1) as nat);
            let zeros = name.len() - prefix.len() - 1 - digits.len();
            &&& name.take(prefix.len() as int) == prefix
            &&& name[prefix.len() as int] == '-'
            &&& zeros == if digits.len() < 5 {
                5 - digits.len()
            } else {
                0
            }
            &&& forall|j: int|
                prefix.len() < j <= prefix.len() + zeros ==> #[trigger] name[j] == '0'
            &&& name.skip(prefix.len() + 1 + zeros) == digits
        }),
{
    reveal_strlit("-");
    let name = satellite_name(prefix, (i + 1) as nat);
    let digits = decimal((i + 1) as nat);
    let zeros = name.len() - prefix.len() - 1 - digits.len();
    assert(name.take(prefix.len() as int) =~= prefix);
    assert(name.skip(prefix.len() + 1 + zeros) =~= digits);
}

/// A built satellite has what its name fixes, field by field.
pub proof fn built_satellites_are_the_named_ones(
    name: String,
    w: OrbitWeights,
    sat: SatelliteConfig,
)
    requires
        call_ensures(build_sat, (name, &w), sat),
    ensures
        sat.name@ == name@,
        sat.norad_id == satellite(name@, w).norad_id,
        sat.category == satellite(name@, w).category,
        sat.semi_major_axis_km == satellite(name@, w).semi_major_axis_km,
        sat.eccentricity == satellite(name@, w).eccentricity,
        sat.inclination_deg == satellite(name@, w).inclination_deg,
        sat.raan_deg == satellite(name@, w).raan_deg,
        sat.arg_perigee_deg == satellite(name@, w).arg_perigee_deg,
        sat.mean_anomaly_epoch_deg == satellite(name@, w).mean_anomaly_epoch_deg,
        sat.epoch_unix == 1_700_000_000,
{
}

/// A generated batch has as many satellites as its preset says, named and built one by one.
pub proof fn generated_batches_are_complete(
    preset: Preset,
    w: OrbitWeights,
    sats: Vec<SatelliteConfig>,
    i: int,
)
    requires
        call_ensures(generate, (&preset, &w), sats),
        0 <= i < preset.count,
    ensures
        sats@.len() == preset.count,
        sats@[i]@ == satellite(satellite_name(preset.sat_prefix@, (i + 1) as nat), w),
{
    let views = sats@.map_values(|s: SatelliteConfig| s@);
    assert(views.len() == sats@.len());
    assert(views[i] == sats@[i]@);
}

/// Each region gets its share of the draws: of weights that are not negative and not among the
/// tiniest, and whose sum is finite, a draw of `steps` out of 2^53 falls into the region whose part
/// of the sum holds it. Only draws within one part in 2^48 of a border may fall on its other side.
pub proof fn regions_get_their_shares(
    steps: int,
    w: OrbitWeights,
    leo: int,
    meo: int,
    geo: int,
    heo: int,
)
    requires
        0 <= steps < 0x20_0000_0000_0000,
        number_of(w.leo) == Number::Finite(leo),
        number_of(w.meo) == Number::Finite(meo),
        number_of(w.geo) == Number::Finite(geo),
        number_of(w.heo) == Number::Finite(heo),
        0 <= leo,
        0 <= meo,
        0 <= geo,
        0 <= heo,
        leo + meo + geo + heo >= 0x20_0000_0000_0000,
        leo + meo + geo + heo < vstd::arithmetic::power2::pow2(2097),
    ensures
        ({
            let one = 0x20_0000_0000_0000int;
            let total = leo + meo + geo + heo;
            let place = steps * total;
            let margin = 32 * total;
            let below = |end: int| place + margin <= one * end;
            let above = |end: int| place >= one * end + margin;
            &&& below(leo) ==> shell_at(steps, w) == Shell::Leo
            &&& above(leo) && below(leo + meo) ==> shell_at(steps, w) == Shell::Meo
            &&& above(leo + meo) && below(leo + meo + geo) ==> shell_at(steps, w) == Shell::Geo
            &&& above(leo + meo + geo) ==> shell_at(steps, w) == Shell::Heo
        }),
{
    lemma_ends_near(leo, meo, geo, heo);
    let b = sum(Number::Finite(leo), Number::Finite(meo))->Finite_0;
    let c = sum(Number::Finite(b), Number::Finite(geo))->Finite_0;
    let t = sum(Number::Finite(c), Number::Finite(heo))->Finite_0;
    lemma_place_near(steps, leo + meo + geo + heo, t);
}

proof fn lemma_place_near(steps: int, total: int, t: int)
    requires
        0 <= steps < 0x20_0000_0000_0000,
        total >= 0x20_0000_0000_0000,
        t >= 0,
        0x20_0000_0000_0000 * apart(t, total) <= 5 * total,
    ensures
        apart(
            0x20_0000_0000_0000 * share_units(steps as nat, t as nat) as int,
            steps * total,
        ) <= 8 * total,
{
    let one = 0x20_0000_0000_0000int;
    let s = share_units(steps as nat, t as nat) as int;
    shares_are_close(steps as nat, t as nat);
    let p = steps * t;
    let place = steps * total;
    let gap = apart(t, total);
    assert(apart(p, place) <= one * gap) by (nonlinear_arith)
        requires
            p == steps * t,
            place == steps * total,
            0 <= steps < one,
            gap >= 0,
            gap == t - total || gap == total - t,
    ;
    assert(p <= one * (2 * total)) by (nonlinear_arith)
        requires
            p == steps * t,
            0 <= steps < one,
            t <= 2 * total,
            t >= 0,
    ;
    assert(one * apart(one * s, p) <= p + 0x10_0000_0000_0000 * one);
}

proof fn lemma_ends_near(leo: int, meo: int, geo: int, heo: int)
    requires
        0 <= leo,
        0 <= meo,
        0 <= geo,
        0 <= heo,
        leo + meo + geo + heo < vstd::arithmetic::power2::pow2(2097),
    ensures
        ({
            let one = 0x20_0000_0000_0000int;
            let total = leo + meo + geo + heo;
            let first = sum(Number::Finite(leo), Number::Finite(meo));
            let second = sum(first, Number::Finite(geo));
            let third = sum(second, Number::Finite(heo));
            &&& first is Finite && second is Finite && third is Finite
            &&& third->Finite_0 >= 0
            &&& one * apart(first->Finite_0, leo + meo) <= total
            &&& one * apart(second->Finite_0, leo + meo + geo) <= 3 * total
            &&& one * apart(third->Finite_0, total) <= 5 * total
        }),
{
    vstd::arithmetic::power2::lemma_pow2_unfold(2097);
    lemma_sum_near(leo, meo);
    let b = sum(Number::Finite(leo), Number::Finite(meo))->Finite_0;
    lemma_sum_near(b, geo);
    let c = sum(Number::Finite(b), Number::Finite(geo))->Finite_0;
    lemma_sum_near(c, heo);
}

proof fn lemma_sum_near(x: int, y: int)
    requires
        0 <= x,
        0 <= y,
        x + y < vstd::arithmetic::power2::pow2(2097) + vstd::arithmetic::power2::pow2(2096),
    ensures
        sum(Number::Finite(x), Number::Finite(y)) is Finite,
        ({
            let z = sum(Number::Finite(x), Number::Finite(y))->Finite_0;
            z >= 0 && 0x20_0000_0000_0000 * apart(z, x + y) <= x + y
        }),
{
    rounding_is_close((x + y) as nat);
    vstd::arithmetic::power2::lemma_pow2_unfold(2098);
    vstd::arithmetic::power2::lemma_pow2_unfold(2097);
}

} // verus!
